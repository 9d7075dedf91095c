//! Per-hero statistic values: plain numbers, durations and percentages, and
//! their canonical text.
use vstd::prelude::*;
use vstd::string::*;

use crate::text::{
    all_radix_digits, contains_char, decimal_text, digit_char, digit_str, digit_value,
    find_char, find_char_in, format_radix, is_radix_digit, lemma_contains_find,
    lemma_find_char_facts, lemma_radix_round_trip, lemma_split_at_sep, parse_radix,
    lemma_digit_char, lemma_digits_lack_char, lemma_find_char_none, parse_digits, digits_fit,
    u64_value, lemma_strip_plus_digits,
    parses_as_u64, radix_value,
};

verus! {

/// A decimal number: a sign, a whole part and the digits after the point.
/// Each fraction digit is below ten, the last one is not zero, and zero
/// carries no minus sign.
#[derive(Debug, PartialEq, Eq)]
pub struct Decimal {
    negative: bool,
    whole: u64,
    frac: Vec<u8>,
}

/// The mathematical content of a [`Decimal`].
pub struct DecimalView {
    pub negative: bool,
    pub whole: u64,
    pub frac: Seq<u8>,
}

impl View for Decimal {
    type V = DecimalView;

    closed spec fn view(&self) -> DecimalView {
        DecimalView { negative: self.negative, whole: self.whole, frac: self.frac@ }
    }
}

/// A well-formed decimal: the form that parsing gives and printing keeps.
pub open spec fn decimal_wf(d: DecimalView) -> bool {
    &&& forall|i: int| 0 <= i < d.frac.len() ==> #[trigger] d.frac[i] < 10
    &&& d.frac.len() > 0 ==> d.frac.last() != 0
    &&& (d.whole == 0 && d.frac.len() == 0) ==> !d.negative
}

/// The digit characters of a fraction.
pub open spec fn frac_text(f: Seq<u8>) -> Seq<char> {
    f.map(|i: int, x: u8| digit_char(x as nat))
}

/// The fraction digits that a string of digit characters stands for.
pub open spec fn frac_digits(t: Seq<char>) -> Seq<u8> {
    t.map(|i: int, c: char| digit_value(c) as u8)
}

/// A fraction without its trailing zeros.
pub open spec fn strip_zeros(f: Seq<u8>) -> Seq<u8>
    decreases f.len(),
{
    if f.len() > 0 && f.last() == 0 {
        strip_zeros(f.drop_last())
    } else {
        f
    }
}

/// The canonical text of a decimal: `-` for a negative one, the whole part,
/// and `.` with the fraction digits where there are any.
pub open spec fn decimal_text_of(d: DecimalView) -> Seq<char> {
    (if d.negative { seq!['-'] } else { Seq::empty() }) + decimal_text(d.whole as nat) + (
    if d.frac.len() == 0 {
        Seq::empty()
    } else {
        seq!['.'] + frac_text(d.frac)
    })
}

/// The text without a leading `-` or `+`.
pub open spec fn unsigned_part(s: Seq<char>) -> Seq<char> {
    if s.len() > 0 && (s[0] == '-' || s[0] == '+') {
        s.drop_first()
    } else {
        s
    }
}

/// The decimal that `s` denotes: an optional `-` or `+`, one or more digits whose
/// value fits in a `u64`, and optionally `.` followed by one or more digits.
/// Trailing zeros of the fraction are dropped, and so is the sign of zero.
pub open spec fn parse_decimal_spec(s: Seq<char>) -> Option<DecimalView> {
    let neg = s.len() > 0 && s[0] == '-';
    let body = unsigned_part(s);
    let int_part = match find_char(body, '.') {
        Some(i) => body.subrange(0, i as int),
        None => body,
    };
    let frac_part = match find_char(body, '.') {
        Some(i) => body.subrange(i as int + 1, body.len() as int),
        None => Seq::empty(),
    };
    if digits_fit(int_part, 10) && all_radix_digits(frac_part, 10) && (find_char(body, '.') is Some
        ==> frac_part.len() > 0) {
        let whole = radix_value(int_part, 10) as u64;
        let frac = strip_zeros(frac_digits(frac_part));
        Some(DecimalView { negative: neg && !(whole == 0 && frac.len() == 0), whole, frac })
    } else {
        None
    }
}

proof fn lemma_strip_zeros_wf(f: Seq<u8>)
    requires
        forall|i: int| 0 <= i < f.len() ==> #[trigger] f[i] < 10,
    ensures
        forall|i: int| 0 <= i < strip_zeros(f).len() ==> #[trigger] strip_zeros(f)[i] < 10,
        strip_zeros(f).len() > 0 ==> strip_zeros(f).last() != 0,
    decreases f.len(),
{
    if f.len() > 0 && f.last() == 0 {
        assert forall|i: int| 0 <= i < f.drop_last().len() implies #[trigger] f.drop_last()[i]
            < 10 by {
            assert(f.drop_last()[i] == f[i]);
        }
        lemma_strip_zeros_wf(f.drop_last());
    }
}

impl Decimal {
    /// Parses decimal text; see [`parse_decimal_spec`].
    #[verifier::loop_isolation(false)]
    pub fn parse(s: &str) -> (r: Option<Decimal>)
        ensures
            r matches Some(d) ==> parse_decimal_spec(s@) == Some(d@) && decimal_wf(d@),
            r is None ==> parse_decimal_spec(s@) is None,
    {
        let n = s.unicode_len();
        let neg = n > 0 && s.get_char(0) == '-';
        let signed = n > 0 && (s.get_char(0) == '-' || s.get_char(0) == '+');
        let body = if signed {
            s.substring_char(1, n)
        } else {
            s
        };
        if signed {
            assert(s@.subrange(1, n as int) =~= s@.drop_first());
        }
        assert(body@ == unsigned_part(s@));
        let bn = body.unicode_len();
        let dot = find_char_in(body, '.');
        proof {
            lemma_find_char_facts(body@, '.');
        }
        let int_part = match dot {
            Some(i) => body.substring_char(0, i),
            None => body,
        };
        let frac_part = match dot {
            Some(i) => body.substring_char(i + 1, bn),
            None => "",
        };
        proof {
            reveal_strlit("");
        }
        let whole = match parse_digits(int_part, 10) {
            Some(w) => w,
            None => return None,
        };
        let fl = frac_part.unicode_len();
        if dot.is_some() && fl == 0 {
            return None;
        }
        let mut frac: Vec<u8> = Vec::new();
        let mut i: usize = 0;
        while i < fl
            invariant
                fl == frac_part@.len(),
                i <= fl,
                frac@ == frac_digits(frac_part@.subrange(0, i as int)),
                all_radix_digits(frac_part@.subrange(0, i as int), 10),
            decreases fl - i,
        {
            let c = frac_part.get_char(i);
            if !('0' <= c && c <= '9') {
                assert(!is_radix_digit(frac_part@[i as int], 10));
                return None;
            }
            frac.push((c as u32 - '0' as u32) as u8);
            proof {
                assert(frac@ =~= frac_digits(frac_part@.subrange(0, i + 1)));
                assert(all_radix_digits(frac_part@.subrange(0, i + 1), 10)) by {
                    assert forall|j: int| 0 <= j < i + 1 implies is_radix_digit(
                        #[trigger] frac_part@.subrange(0, i + 1)[j],
                        10,
                    ) by {
                        if j < i {
                            assert(frac_part@.subrange(0, i + 1)[j] == frac_part@.subrange(
                                0,
                                i as int,
                            )[j]);
                        }
                    }
                }
            }
            i = i + 1;
        }
        assert(frac_part@.subrange(0, fl as int) =~= frac_part@);
        let ghost digits = frac@;
        assert forall|j: int| 0 <= j < digits.len() implies #[trigger] digits[j] < 10 by {
            assert(is_radix_digit(frac_part@[j], 10));
        }
        while frac.len() > 0 && frac[frac.len() - 1] == 0
            invariant
                strip_zeros(frac@) == strip_zeros(digits),
            decreases frac.len(),
        {
            assert(frac@.drop_last() =~= frac@.subrange(0, frac.len() - 1));
            frac.pop();
        }
        proof {
            lemma_strip_zeros_wf(digits);
            assert(strip_zeros(frac@) == frac@);
            assert(digits == frac_digits(frac_part@));
        }
        let zero = whole == 0 && frac.len() == 0;
        proof {
            assert(all_radix_digits(frac_part@, 10));
            assert(digits_fit(int_part@, 10));
            assert(whole == radix_value(int_part@, 10));
            assert(find_char(body@, '.') is Some ==> frac_part@.len() > 0);
            assert(strip_zeros(frac_digits(frac_part@)) == frac@);
            let sp = parse_decimal_spec(s@);
            assert(int_part@ == (match find_char(body@, '.') {
                Some(k) => body@.subrange(0, k as int),
                None => body@,
            }));
            assert(frac_part@ == (match find_char(body@, '.') {
                Some(k) => body@.subrange(k as int + 1, body@.len() as int),
                None => Seq::empty(),
            }));
            assert(sp is Some);
            assert(sp->0.frac == frac@);
            assert(sp->0.whole == whole);
        }
        Some(Decimal { negative: neg && !zero, whole, frac })
    }

    #[verifier::type_invariant]
    closed spec fn well_formed(&self) -> bool {
        decimal_wf(self@)
    }

    /// The decimal with these parts, if they are well formed.
    pub fn from_parts(negative: bool, whole: u64, frac: &Vec<u8>) -> (r: Option<Decimal>)
        ensures
            r is Some <==> decimal_wf((DecimalView { negative, whole, frac: frac@ })),
            r matches Some(d) ==> d@ == (DecimalView { negative, whole, frac: frac@ }),
    {
        let mut i: usize = 0;
        while i < frac.len()
            invariant
                i <= frac@.len(),
                forall|j: int| 0 <= j < i ==> #[trigger] frac@[j] < 10,
            decreases frac@.len() - i,
        {
            if frac[i] >= 10 {
                return None;
            }
            i = i + 1;
        }
        if frac.len() > 0 && frac[frac.len() - 1] == 0 {
            return None;
        }
        if whole == 0 && frac.len() == 0 && negative {
            return None;
        }
        Some(Decimal { negative, whole, frac: frac.clone() })
    }

    /// The whole number `n`.
    pub fn from_u64(n: u64) -> (r: Decimal)
        ensures
            r@ == (DecimalView { negative: false, whole: n, frac: Seq::empty() }),
    {
        Decimal { negative: false, whole: n, frac: Vec::new() }
    }

    /// A copy of this decimal.
    pub fn duplicate(&self) -> (r: Decimal)
        ensures
            r@ == self@,
    {
        proof {
            use_type_invariant(self);
        }
        Decimal { negative: self.negative, whole: self.whole, frac: self.frac.clone() }
    }

    /// The canonical text of this decimal.
    pub fn format(&self) -> (r: String)
        ensures
            r@ == decimal_text_of(self@),
    {
        proof {
            use_type_invariant(self);
            reveal_strlit("-");
            reveal_strlit(".");
        }
        let mut s = String::new();
        if self.negative {
            s.append("-");
        }
        let w = format_radix(self.whole, 10);
        s.append(w.as_str());
        let ghost head = s@;
        assert(head == (if self.negative { seq!['-'] } else { Seq::empty() }) + decimal_text(
            self.whole as nat,
        ));
        if self.frac.len() > 0 {
            s.append(".");
            let mut i: usize = 0;
            while i < self.frac.len()
                invariant
                    i <= self.frac@.len(),
                    decimal_wf(self@),
                    s@ == head + seq!['.'] + frac_text(self.frac@.subrange(0, i as int)),
                decreases self.frac@.len() - i,
            {
                let d = self.frac[i];
                assert(d < 10);
                s.append(digit_str(d as u64));
                assert(frac_text(self.frac@.subrange(0, i + 1)) =~= frac_text(
                    self.frac@.subrange(0, i as int),
                ).push(digit_char(d as nat)));
                i = i + 1;
            }
            assert(self.frac@.subrange(0, self.frac@.len() as int) =~= self.frac@);
        }
        assert(s@ =~= decimal_text_of(self@));
        s
    }
}

/// The facts about a decimal's text that the statistic parser relies on: it is
/// not empty, ends in a digit, and holds no `:`.
pub proof fn lemma_decimal_text_shape(d: DecimalView)
    requires
        decimal_wf(d),
    ensures
        decimal_text_of(d).len() > 0,
        is_radix_digit(decimal_text_of(d).last(), 10),
        !contains_char(decimal_text_of(d), ':'),
{
    let w = decimal_text(d.whole as nat);
    let f = frac_text(d.frac);
    let t = decimal_text_of(d);
    lemma_radix_round_trip(d.whole as nat, 10);
    assert forall|i: int| 0 <= i < f.len() implies is_radix_digit(#[trigger] f[i], 10) by {
        lemma_digit_char(d.frac[i] as nat, 10);
    }
    assert forall|i: int| 0 <= i < t.len() implies #[trigger] t[i] != ':' by {
        let sign_len: int = if d.negative { 1 } else { 0 };
        if i >= sign_len && i < sign_len + w.len() {
            assert(t[i] == w[i - sign_len]);
        } else if i >= sign_len + w.len() + 1 {
            assert(t[i] == f[i - sign_len - w.len() - 1]);
        }
    }
    if d.frac.len() == 0 {
        assert(t.last() == w.last());
    } else {
        assert(t.last() == f.last());
    }
}

/// A well-formed decimal parses back from its text.
pub proof fn lemma_decimal_round_trip(d: DecimalView)
    requires
        decimal_wf(d),
    ensures
        parse_decimal_spec(decimal_text_of(d)) == Some(d),
{
    let w = decimal_text(d.whole as nat);
    let f = frac_text(d.frac);
    let t = decimal_text_of(d);
    lemma_radix_round_trip(d.whole as nat, 10);
    let tail: Seq<char> = if d.frac.len() == 0 { Seq::empty() } else { seq!['.'] + f };
    let body = w + tail;
    if d.negative {
        assert(t =~= seq!['-'] + body);
        assert(t.drop_first() =~= body);
    } else {
        assert(t =~= body);
        assert(t[0] == w[0]);
    }
    assert(unsigned_part(t) == body);
    lemma_digits_lack_char(w, 10, '.');
    assert forall|i: int| 0 <= i < f.len() implies is_radix_digit(#[trigger] f[i], 10) by {
        lemma_digit_char(d.frac[i] as nat, 10);
    }
    assert(frac_digits(f) =~= d.frac) by {
        assert forall|i: int| 0 <= i < d.frac.len() implies frac_digits(f)[i] == d.frac[i] by {
            lemma_digit_char(d.frac[i] as nat, 10);
        }
    }
    assert(strip_zeros(d.frac) == d.frac);
    if d.frac.len() == 0 {
        assert(body =~= w);
        lemma_find_char_none(w, '.');
        assert(all_radix_digits(Seq::<char>::empty(), 10));
        assert(frac_digits(Seq::<char>::empty()) =~= d.frac);
    } else {
        assert(body =~= w + seq!['.'] + f);
        lemma_split_at_sep(w, '.', f);
    }
}

/// One value of a hero's statistic: a plain number, a duration in seconds, or
/// a percentage.
#[derive(Debug, PartialEq, Eq)]
pub enum Stat {
    Number(Decimal),
    Duration(u64),
    Percentage(Decimal),
}

/// The mathematical content of a [`Stat`].
pub enum StatView {
    Number(DecimalView),
    Duration(u64),
    Percentage(DecimalView),
}

impl View for Stat {
    type V = StatView;

    open spec fn view(&self) -> StatView {
        match self {
            Stat::Number(d) => StatView::Number(d@),
            Stat::Duration(t) => StatView::Duration(*t),
            Stat::Percentage(d) => StatView::Percentage(d@),
        }
    }
}

/// A statistic whose decimals are well formed, as every [`Stat`] value is.
pub open spec fn stat_wf(x: StatView) -> bool {
    match x {
        StatView::Number(d) => decimal_wf(d),
        StatView::Duration(_) => true,
        StatView::Percentage(d) => decimal_wf(d),
    }
}

/// The two digits of `x < 100`, with a leading zero.
pub open spec fn two_digits(x: nat) -> Seq<char> {
    seq![digit_char(x / 10), digit_char(x % 10)]
}

/// `H:MM:SS` for a duration of an hour or more, else `M:SS`.
pub open spec fn duration_text(t: u64) -> Seq<char> {
    let h = t / 3600;
    let m = (t % 3600) / 60;
    let s = t % 60;
    if h > 0 {
        decimal_text(h as nat) + seq![':'] + two_digits(m as nat) + seq![':'] + two_digits(
            s as nat,
        )
    } else {
        decimal_text(m as nat) + seq![':'] + two_digits(s as nat)
    }
}

/// The canonical text of a statistic.
pub open spec fn stat_text(x: StatView) -> Seq<char> {
    match x {
        StatView::Number(d) => decimal_text_of(d),
        StatView::Duration(t) => duration_text(t),
        StatView::Percentage(d) => decimal_text_of(d) + seq!['%'],
    }
}

/// The text without its trailing `%` signs.
pub open spec fn trim_percent(s: Seq<char>) -> Seq<char>
    decreases s.len(),
{
    if s.len() > 0 && s.last() == '%' {
        trim_percent(s.drop_last())
    } else {
        s
    }
}

/// The seconds that `M:SS` or `H:MM:SS` denotes. Each field is an unsigned
/// decimal integer (of any width, with an optional `+`); any other number of fields, or a total over
/// `u64::MAX`, is refused.
pub open spec fn parse_duration_spec(s: Seq<char>) -> Option<u64> {
    match find_char(s, ':') {
        None => None,
        Some(i) => {
            let a = s.subrange(0, i as int);
            let rest = s.subrange(i as int + 1, s.len() as int);
            match find_char(rest, ':') {
                None => {
                    let total = u64_value(a, 10) * 60 + u64_value(rest, 10);
                    if parses_as_u64(a, 10) && parses_as_u64(rest, 10) && total <= u64::MAX {
                        Some(total as u64)
                    } else {
                        None
                    }
                },
                Some(j) => {
                    let b = rest.subrange(0, j as int);
                    let c = rest.subrange(j as int + 1, rest.len() as int);
                    let total = u64_value(a, 10) * 3600 + u64_value(b, 10) * 60 + u64_value(c, 10);
                    if !contains_char(c, ':') && parses_as_u64(a, 10) && parses_as_u64(b, 10)
                        && parses_as_u64(c, 10) && total <= u64::MAX {
                        Some(total as u64)
                    } else {
                        None
                    }
                },
            }
        },
    }
}

/// What parsing a statistic's text gives. Text ending in `%` is a percentage,
/// else text holding `:` is a duration, else it is a plain number; the checks
/// go in that order.
pub open spec fn parse_stat_spec(s: Seq<char>) -> Option<StatView> {
    if s.len() > 0 && s.last() == '%' {
        match parse_decimal_spec(trim_percent(s)) {
            Some(d) => Some(StatView::Percentage(d)),
            None => None,
        }
    } else if contains_char(s, ':') {
        match parse_duration_spec(s) {
            Some(t) => Some(StatView::Duration(t)),
            None => None,
        }
    } else {
        match parse_decimal_spec(s) {
            Some(d) => Some(StatView::Number(d)),
            None => None,
        }
    }
}

fn trim_percent_end(s: &str) -> (r: &str)
    ensures
        r@ == trim_percent(s@),
{
    let n = s.unicode_len();
    let mut end: usize = n;
    assert(s@.subrange(0, n as int) =~= s@);
    while end > 0 && s.get_char(end - 1) == '%'
        invariant
            end <= n,
            n == s@.len(),
            trim_percent(s@) == trim_percent(s@.subrange(0, end as int)),
        decreases end,
    {
        assert(s@.subrange(0, end as int).drop_last() =~= s@.subrange(0, end - 1));
        end = end - 1;
    }
    s.substring_char(0, end)
}

fn parse_duration(s: &str) -> (r: Option<u64>)
    ensures
        r == parse_duration_spec(s@),
{
    let n = s.unicode_len();
    let i = match find_char_in(s, ':') {
        Some(i) => i,
        None => return None,
    };
    let a = s.substring_char(0, i);
    let rest = s.substring_char(i + 1, n);
    let rn = rest.unicode_len();
    let first = parse_radix(a, 10);
    match find_char_in(rest, ':') {
        None => {
            let second = parse_radix(rest, 10);
            match (first, second) {
                (Some(m), Some(sec)) => {
                    let total: u128 = m as u128 * 60 + sec as u128;
                    if total <= u64::MAX as u128 {
                        Some(total as u64)
                    } else {
                        None
                    }
                },
                _ => None,
            }
        },
        Some(j) => {
            let b = rest.substring_char(0, j);
            let c = rest.substring_char(j + 1, rn);
            if find_char_in(c, ':').is_some() {
                proof {
                    lemma_contains_find(c@, ':');
                }
                return None;
            }
            proof {
                lemma_contains_find(c@, ':');
            }
            let second = parse_radix(b, 10);
            let third = parse_radix(c, 10);
            match (first, second, third) {
                (Some(h), Some(m), Some(sec)) => {
                    let total: u128 = h as u128 * 3600 + m as u128 * 60 + sec as u128;
                    if total <= u64::MAX as u128 {
                        Some(total as u64)
                    } else {
                        None
                    }
                },
                _ => None,
            }
        },
    }
}

fn two_digit_text(x: u64) -> (r: String)
    requires
        x < 100,
    ensures
        r@ == two_digits(x as nat),
{
    let mut s = String::from_str(digit_str(x / 10));
    s.append(digit_str(x % 10));
    assert(s@ =~= two_digits(x as nat));
    s
}

impl Stat {
    /// Parses a statistic's text; see [`parse_stat_spec`].
    pub fn parse(s: &str) -> (r: Option<Stat>)
        ensures
            r matches Some(x) ==> parse_stat_spec(s@) == Some(x@),
            r is None ==> parse_stat_spec(s@) is None,
    {
        let n = s.unicode_len();
        if n > 0 && s.get_char(n - 1) == '%' {
            match Decimal::parse(trim_percent_end(s)) {
                Some(d) => Some(Stat::Percentage(d)),
                None => None,
            }
        } else {
            let colon = find_char_in(s, ':');
            proof {
                lemma_contains_find(s@, ':');
            }
            if colon.is_some() {
                match parse_duration(s) {
                    Some(t) => Some(Stat::Duration(t)),
                    None => None,
                }
            } else {
                match Decimal::parse(s) {
                    Some(d) => Some(Stat::Number(d)),
                    None => None,
                }
            }
        }
    }

    /// The canonical text of this statistic.
    pub fn format(&self) -> (r: String)
        ensures
            r@ == stat_text(self@),
    {
        match self {
            Stat::Number(d) => d.format(),
            Stat::Percentage(d) => {
                let mut s = d.format();
                s.append("%");
                proof {
                    reveal_strlit("%");
                }
                s
            },
            Stat::Duration(t) => {
                let t = *t;
                let h = t / 3600;
                let m = (t % 3600) / 60;
                let sec = t % 60;
                proof {
                    reveal_strlit(":");
                }
                if h > 0 {
                    let mut s = format_radix(h, 10);
                    s.append(":");
                    let mm = two_digit_text(m);
                    s.append(mm.as_str());
                    s.append(":");
                    let ss = two_digit_text(sec);
                    s.append(ss.as_str());
                    s
                } else {
                    let mut s = format_radix(m, 10);
                    s.append(":");
                    let ss = two_digit_text(sec);
                    s.append(ss.as_str());
                    s
                }
            },
        }
    }

    /// A copy of this statistic.
    pub fn duplicate(&self) -> (r: Stat)
        ensures
            r@ == self@,
    {
        match self {
            Stat::Number(d) => Stat::Number(d.duplicate()),
            Stat::Duration(t) => Stat::Duration(*t),
            Stat::Percentage(d) => Stat::Percentage(d.duplicate()),
        }
    }
}

proof fn lemma_two_digits(x: nat)
    requires
        x < 100,
    ensures
        two_digits(x).len() == 2,
        all_radix_digits(two_digits(x), 10),
        radix_value(two_digits(x), 10) == x,
        !contains_char(two_digits(x), ':'),
        crate::text::strip_plus(two_digits(x)) == two_digits(x),
{
    let t = two_digits(x);
    lemma_digit_char(x / 10, 10);
    lemma_digit_char(x % 10, 10);
    assert(t.drop_last().drop_last() =~= Seq::<char>::empty());
    assert(t.drop_last() =~= seq![digit_char(x / 10)]);
    assert(radix_value(t.drop_last().drop_last(), 10) == 0);
    assert(radix_value(t.drop_last(), 10) == x / 10);
    assert(all_radix_digits(t, 10));
    lemma_digits_lack_char(t, 10, ':');
    lemma_strip_plus_digits(t, 10);
}

proof fn lemma_duration_round_trip(t: u64)
    ensures
        parse_stat_spec(duration_text(t)) == Some(StatView::Duration(t)),
{
    let h = t / 3600;
    let m = (t % 3600) / 60;
    let s = t % 60;
    let text = duration_text(t);
    let ss = two_digits(s as nat);
    lemma_two_digits(s as nat);
    lemma_two_digits(m as nat);
    assert(t == h * 3600 + m * 60 + s);
    if h > 0 {
        let hh = decimal_text(h as nat);
        let mm = two_digits(m as nat);
        lemma_radix_round_trip(h as nat, 10);
        lemma_strip_plus_digits(hh, 10);
        lemma_digits_lack_char(hh, 10, ':');
        let rest = mm + seq![':'] + ss;
        assert(text =~= hh + seq![':'] + rest);
        lemma_split_at_sep(hh, ':', rest);
        lemma_split_at_sep(mm, ':', ss);
        assert(text.last() == ss.last());
        assert(text[hh.len() as int] == ':');
    } else {
        let mt = decimal_text(m as nat);
        lemma_radix_round_trip(m as nat, 10);
        lemma_strip_plus_digits(mt, 10);
        lemma_digits_lack_char(mt, 10, ':');
        assert(text =~= mt + seq![':'] + ss);
        lemma_split_at_sep(mt, ':', ss);
        lemma_contains_find(ss, ':');
        assert(text.last() == ss.last());
        assert(text[mt.len() as int] == ':');
    }
    lemma_digit_char(s as nat % 10, 10);
}

/// Parsing the canonical text of a statistic gives back the same statistic.
pub proof fn lemma_stat_round_trip(x: StatView)
    requires
        stat_wf(x),
    ensures
        parse_stat_spec(stat_text(x)) == Some(x),
{
    match x {
        StatView::Number(d) => {
            lemma_decimal_text_shape(d);
            lemma_decimal_round_trip(d);
            let t = decimal_text_of(d);
            assert(t.last() != '%');
            assert(parse_stat_spec(t) == Some(StatView::Number(d)));
        },
        StatView::Duration(t) => {
            lemma_duration_round_trip(t);
            assert(stat_text(x) == duration_text(t));
        },
        StatView::Percentage(d) => {
            lemma_decimal_text_shape(d);
            lemma_decimal_round_trip(d);
            let t = decimal_text_of(d);
            let p = t + seq!['%'];
            assert(p.drop_last() =~= t);
            assert(t.last() != '%');
            assert(trim_percent(t) == t);
            assert(trim_percent(p) == t);
            assert(parse_stat_spec(p) == Some(StatView::Percentage(d)));
        },
    }
}

} // verus!
