//! Battletags: a player's handle, `name#number`, or `name-number` inside a URL.
use vstd::prelude::*;
use vstd::string::*;

use crate::text::{
    contains_char, decimal_text, find_char, find_char_in, format_radix, is_radix_digit,
    lemma_find_char_some, lemma_radix_round_trip, parse_radix, parses_as_u64, u64_value, lemma_strip_plus_digits,
};

verus! {

/// A player's handle. Equality is by the pair, not by either text form.
#[derive(Debug, Clone, PartialEq, Eq, Hash)]
pub struct Battletag {
    pub name: String,
    pub number: u64,
}

impl View for Battletag {
    type V = (Seq<char>, u64);

    open spec fn view(&self) -> (Seq<char>, u64) {
        (self.name@, self.number)
    }
}

/// The text of a battletag: `name#number`, or `name-number` in URL style.
pub open spec fn battletag_text(name: Seq<char>, number: u64, url_style: bool) -> Seq<char> {
    name + seq![if url_style { '-' } else { '#' }] + decimal_text(number as nat)
}

/// Where the name ends: at the first `#`, or else at the first `-`.
pub open spec fn battletag_split(s: Seq<char>) -> Option<nat> {
    match find_char(s, '#') {
        Some(i) => Some(i),
        None => find_char(s, '-'),
    }
}

/// What parsing `s` as a battletag gives: the text before the separator as the
/// name, and the text after it, which must be a non-negative decimal integer
/// that fits in a `u64` (with an optional leading `+`), as the number.
pub open spec fn parse_battletag_spec(s: Seq<char>) -> Option<(Seq<char>, u64)> {
    match battletag_split(s) {
        Some(i) => {
            let digits = s.subrange(i as int + 1, s.len() as int);
            if parses_as_u64(digits, 10) {
                Some((s.subrange(0, i as int), u64_value(digits, 10) as u64))
            } else {
                None
            }
        },
        None => None,
    }
}

impl Battletag {
    pub fn new(name: &str, number: u64) -> (r: Battletag)
        ensures
            r@ == (name@, number),
    {
        Battletag { name: name.to_owned(), number }
    }

    /// A copy of this battletag.
    pub fn duplicate(&self) -> (r: Battletag)
        ensures
            r@ == self@,
    {
        Battletag { name: self.name.clone(), number: self.number }
    }

    /// Parses `name#number`, or `name-number` where the text holds no `#`.
    pub fn parse(s: &str) -> (r: Option<Battletag>)
        ensures
            r matches Some(b) ==> parse_battletag_spec(s@) == Some(b@),
            r is None ==> parse_battletag_spec(s@) is None,
    {
        let split = match find_char_in(s, '#') {
            Some(i) => Some(i),
            None => find_char_in(s, '-'),
        };
        match split {
            None => None,
            Some(i) => {
                proof {
                    crate::text::lemma_find_char_facts(s@, '#');
                    crate::text::lemma_find_char_facts(s@, '-');
                }
                let n = s.unicode_len();
                let digits = s.substring_char(i + 1, n);
                match parse_radix(digits, 10) {
                    Some(number) => {
                        let name = s.substring_char(0, i);
                        Some(Battletag { name: name.to_owned(), number })
                    },
                    None => None,
                }
            },
        }
    }

    /// Parses an owned string, handing it back when it is not a battletag.
    pub fn try_from_string(s: String) -> (r: Result<Battletag, String>)
        ensures
            r matches Ok(b) ==> parse_battletag_spec(s@) == Some(b@),
            r matches Err(e) ==> parse_battletag_spec(s@) is None && e@ == s@,
    {
        match Battletag::parse(s.as_str()) {
            Some(b) => Ok(b),
            None => Err(s),
        }
    }

    /// The text of this battletag; `url_style` picks `-` over `#`.
    pub fn format(&self, url_style: bool) -> (r: String)
        ensures
            r@ == battletag_text(self.name@, self.number, url_style),
    {
        let mut s = self.name.clone();
        if url_style {
            s.append("-");
        } else {
            s.append("#");
        }
        let digits = format_radix(self.number, 10);
        s.append(digits.as_str());
        proof {
            reveal_strlit("-");
            reveal_strlit("#");
            assert(s@ =~= battletag_text(self.name@, self.number, url_style));
        }
        s
    }

    /// The canonical text, `name#number`.
    pub fn to_string(&self) -> (r: String)
        ensures
            r@ == battletag_text(self.name@, self.number, false),
    {
        self.format(false)
    }
}

/// A battletag whose name holds no `#` (and, in URL style, no `-`) parses back
/// from its text to the same name and number.
pub proof fn lemma_battletag_round_trip(name: Seq<char>, number: u64, url_style: bool)
    requires
        !contains_char(name, '#'),
        url_style ==> !contains_char(name, '-'),
    ensures
        parse_battletag_spec(battletag_text(name, number, url_style)) == Some((name, number)),
{
    let sep = if url_style { '-' } else { '#' };
    let digits = decimal_text(number as nat);
    let s = battletag_text(name, number, url_style);
    lemma_radix_round_trip(number as nat, 10);
    lemma_strip_plus_digits(digits, 10);
    assert(s[name.len() as int] == sep);
    assert forall|j: int| 0 <= j < name.len() implies s[j] == name[j] by {}
    assert(!is_radix_digit('#', 10) && !is_radix_digit('-', 10));
    assert forall|j: int| 0 <= j < digits.len() implies s[name.len() + 1 + j] == digits[j] by {}
    if url_style {
        assert forall|j: int| 0 <= j < s.len() implies s[j] != '#' by {
            if j > name.len() {
                assert(s[j] == digits[j - name.len() - 1]);
                assert(is_radix_digit(digits[j - name.len() - 1], 10));
            } else if j < name.len() {
                assert(s[j] == name[j]);
            }
        }
        crate::text::lemma_find_char_none(s, '#');
        assert forall|j: int| 0 <= j < name.len() implies s[j] != '-' by {
            assert(s[j] == name[j]);
        }
        lemma_find_char_some(s, '-', name.len() as int);
    } else {
        assert forall|j: int| 0 <= j < name.len() implies s[j] != '#' by {
            assert(s[j] == name[j]);
        }
        lemma_find_char_some(s, '#', name.len() as int);
    }
    assert(s.subrange(name.len() as int + 1, s.len() as int) =~= digits);
    assert(s.subrange(0, name.len() as int) =~= name);
}

} // verus!
