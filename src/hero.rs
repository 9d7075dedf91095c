//! The hero catalog: each hero's name, role, portrait and accent colour.
use vstd::prelude::*;
use vstd::string::*;

use crate::checks::{parsed_url, url_from_text};
use crate::collect::{collect_all, lemma_collect_fails, lemma_collect_step, lemma_collect_whole};
use crate::dom::{
    attr, attr_of_opt, attribute_of, find2_spec, find_all, find_attr2, select_all, Page,
};
use crate::error::Error;
use crate::rank::{role_from_card, role_of_card, Role};
use crate::text::{
    all_radix_digits, digit_char, digit_str, digit_value, is_radix_digit, lemma_digit_char,
    lemma_strip_plus_digits, lemma_two_digit_value, parse_radix, parses_as_u64, radix_value,
    str_eq, u64_value,
};

verus! {

/// An opaque colour.
#[derive(Debug, Clone, Copy, PartialEq, Eq, Structural, Hash)]
pub struct Color {
    pub r: u8,
    pub g: u8,
    pub b: u8,
}

/// The text without its leading `#` signs.
pub open spec fn trim_hashes(s: Seq<char>) -> Seq<char>
    decreases s.len(),
{
    if s.len() > 0 && s[0] == '#' {
        trim_hashes(s.drop_first())
    } else {
        s
    }
}

/// The byte that a two-character hexadecimal field denotes: two digits, or
/// `+` and one digit.
pub open spec fn hex_pair_spec(p: Seq<char>) -> Option<u8> {
    if parses_as_u64(p, 16) {
        Some(u64_value(p, 16) as u8)
    } else {
        None
    }
}

/// The colour that `#rrggbb` denotes: after any leading `#`, three
/// two-character hexadecimal fields; what follows them (such as an alpha
/// pair) is ignored.
pub open spec fn color_spec(s: Seq<char>) -> Option<(u8, u8, u8)> {
    let t = trim_hashes(s);
    if t.len() >= 6 {
        match (
            hex_pair_spec(t.subrange(0, 2)),
            hex_pair_spec(t.subrange(2, 4)),
            hex_pair_spec(t.subrange(4, 6)),
        ) {
            (Some(r), Some(g), Some(b)) => Some((r, g, b)),
            _ => None,
        }
    } else {
        None
    }
}

/// The two lowercase hexadecimal digits of a byte.
pub open spec fn hex_byte_text(x: u8) -> Seq<char> {
    seq![digit_char(x as nat / 16), digit_char(x as nat % 16)]
}

/// The text of a colour: `rrggbb` in lowercase hexadecimal.
pub open spec fn color_text(c: (u8, u8, u8)) -> Seq<char> {
    hex_byte_text(c.0) + hex_byte_text(c.1) + hex_byte_text(c.2)
}

impl View for Color {
    type V = (u8, u8, u8);

    open spec fn view(&self) -> (u8, u8, u8) {
        (self.r, self.g, self.b)
    }
}

fn trim_hashes_start(s: &str) -> (r: &str)
    ensures
        r@ == trim_hashes(s@),
{
    let n = s.unicode_len();
    let mut start: usize = 0;
    assert(s@.subrange(0, n as int) =~= s@);
    while start < n && s.get_char(start) == '#'
        invariant
            start <= n,
            n == s@.len(),
            trim_hashes(s@) == trim_hashes(s@.subrange(start as int, n as int)),
        decreases n - start,
    {
        assert(s@.subrange(start as int, n as int).drop_first() =~= s@.subrange(
            start + 1,
            n as int,
        ));
        start = start + 1;
    }
    s.substring_char(start, n)
}

proof fn lemma_pair_value(p: Seq<char>)
    requires
        p.len() == 2,
        parses_as_u64(p, 16),
    ensures
        u64_value(p, 16) < 256,
{
    if p[0] == '+' {
        let q = p.drop_first();
        assert(q.drop_last() =~= Seq::<char>::empty());
        assert(radix_value(q.drop_last(), 16) == 0);
        assert(is_radix_digit(q[0], 16));
        assert(radix_value(q, 16) == digit_value(q.last()));
    } else {
        lemma_two_digit_value(p, 16);
    }
}

proof fn lemma_hex_byte_round_trip(x: u8)
    ensures
        hex_pair_spec(hex_byte_text(x)) == Some(x),
{
    let t = hex_byte_text(x);
    lemma_digit_char(x as nat / 16, 16);
    lemma_digit_char(x as nat % 16, 16);
    assert(all_radix_digits(t, 16));
    lemma_strip_plus_digits(t, 16);
    lemma_two_digit_value(t, 16);
}

/// A colour parses back from its text, with or without a leading `#`.
pub proof fn lemma_color_round_trip(c: (u8, u8, u8))
    ensures
        color_spec(color_text(c)) == Some(c),
        color_spec(seq!['#'] + color_text(c)) == Some(c),
{
    let t = color_text(c);
    lemma_digit_char(c.0 as nat / 16, 16);
    assert(t[0] != '#');
    assert(trim_hashes(t) == t);
    assert((seq!['#'] + t).drop_first() =~= t);
    assert(trim_hashes(seq!['#'] + t) == t);
    assert(t.subrange(0, 2) =~= hex_byte_text(c.0));
    assert(t.subrange(2, 4) =~= hex_byte_text(c.1));
    assert(t.subrange(4, 6) =~= hex_byte_text(c.2));
    lemma_hex_byte_round_trip(c.0);
    lemma_hex_byte_round_trip(c.1);
    lemma_hex_byte_round_trip(c.2);
}

fn hex_pair(t: &str, k: usize) -> (r: Option<u8>)
    requires
        k <= 4,
        k + 2 <= t@.len(),
    ensures
        r matches Some(v) ==> hex_pair_spec(t@.subrange(k as int, k + 2)) == Some(v),
        r is None ==> hex_pair_spec(t@.subrange(k as int, k + 2)) is None,
{
    let p = t.substring_char(k, k + 2);
    match parse_radix(p, 16) {
        Some(v) => {
            proof {
                lemma_pair_value(p@);
            }
            Some(v as u8)
        },
        None => None,
    }
}

impl Color {
    /// Parses `#rrggbb`; see [`color_spec`].
    pub fn parse(s: &str) -> (r: Option<Color>)
        ensures
            r matches Some(c) ==> color_spec(s@) == Some(c@),
            r is None ==> color_spec(s@) is None,
    {
        let t = trim_hashes_start(s);
        if t.unicode_len() < 6 {
            return None;
        }
        match (hex_pair(t, 0), hex_pair(t, 2), hex_pair(t, 4)) {
            (Some(r), Some(g), Some(b)) => Some(Color { r, g, b }),
            _ => None,
        }
    }

    /// The colour as six lowercase hexadecimal digits, `rrggbb`.
    pub fn to_hex(&self) -> (r: String)
        ensures
            r@ == color_text(self@),
    {
        let mut s = String::new();
        s.append(digit_str(self.r as u64 / 16));
        s.append(digit_str(self.r as u64 % 16));
        s.append(digit_str(self.g as u64 / 16));
        s.append(digit_str(self.g as u64 % 16));
        s.append(digit_str(self.b as u64 / 16));
        s.append(digit_str(self.b as u64 % 16));
        assert(s@ =~= color_text(self@));
        s
    }
}

/// The accent colour, as text, that the catalog gives each known hero.
pub open spec fn hero_color_text(hero: Seq<char>) -> Option<Seq<char>> {
    if hero == "D.Va"@ {
        Some("#fc79bdff"@)
    } else if hero == "Soldier: 76"@ {
        Some("#445275ff"@)
    } else if hero == "Zarya"@ {
        Some("#f65ea6ff"@)
    } else if hero == "Widowmaker"@ {
        Some("#8b3f8fff"@)
    } else if hero == "Hanzo"@ {
        Some("#b2a865ff"@)
    } else if hero == "Junkrat"@ {
        Some("#f7b217ff"@)
    } else if hero == "Ana"@ {
        Some("#48699eff"@)
    } else if hero == "Orisa"@ {
        Some("#106f04ff"@)
    } else if hero == "Roadhog"@ {
        Some("#ae6f1cff"@)
    } else if hero == "Mercy"@ {
        Some("#faf2adff"@)
    } else if hero == "Zenyatta"@ {
        Some("#fcee5aff"@)
    } else if hero == "Brigitte"@ {
        Some("#72332aff"@)
    } else if hero == "Genji"@ {
        Some("#80fb00ff"@)
    } else if hero == "Moira"@ {
        Some("#804be5ff"@)
    } else if hero == "Bastion"@ {
        Some("#5b7351ff"@)
    } else if hero == "Pharah"@ {
        Some("#58bcff"@)
    } else if hero == "Cassidy"@ {
        Some("#a62927ff"@)
    } else if hero == "Winston"@ {
        Some("#8f92aeff"@)
    } else if hero == "Illari"@ {
        Some("#a58c54ff"@)
    } else if hero == "Tracer"@ {
        Some("#de7a00ff"@)
    } else if hero == "Doomfist"@ {
        Some("#661e0fff"@)
    } else if hero == "Reinhardt"@ {
        Some("#7c8b8cff"@)
    } else if hero == "Wrecking Ball"@ {
        Some("#e2790aff"@)
    } else if hero == "Mei"@ {
        Some("#469af0ff"@)
    } else if hero == "Lúcio"@ {
        Some("#67c519ff"@)
    } else if hero == "Torbjörn"@ {
        Some("#ba4c3fff"@)
    } else if hero == "Sombra"@ {
        Some("#5128a9ff"@)
    } else if hero == "Symmetra"@ {
        Some("#76b4c9ff"@)
    } else if hero == "Reaper"@ {
        Some("#5e001aff"@)
    } else if hero == "Sigma"@ {
        Some("#7c8b8cff"@)
    } else if hero == "Kiriko"@ {
        Some("#d04656ff"@)
    } else if hero == "Baptiste"@ {
        Some("#28a5c3ff"@)
    } else if hero == "Junker Queen"@ {
        Some("#579fcfff"@)
    } else if hero == "Sojourn"@ {
        Some("#d73e2cff"@)
    } else if hero == "Ashe"@ {
        Some("#3e3c3aff"@)
    } else if hero == "Ramattra"@ {
        Some("#7d55c7ff"@)
    } else if hero == "Echo"@ {
        Some("#89c8ffff"@)
    } else if hero == "Lifeweaver"@ {
        Some("#e1a5baff"@)
    } else {
        None
    }
}

/// The accent colour of a known hero.
pub open spec fn hero_color_spec(hero: Seq<char>) -> Option<(u8, u8, u8)> {
    match hero_color_text(hero) {
        Some(t) => color_spec(t),
        None => None,
    }
}

fn hero_color_str(hero: &str) -> (r: Option<&'static str>)
    ensures
        r matches Some(t) ==> hero_color_text(hero@) == Some(t@),
        r is None ==> hero_color_text(hero@) is None,
{
    if str_eq(hero, "D.Va") {
        Some("#fc79bdff")
    } else if str_eq(hero, "Soldier: 76") {
        Some("#445275ff")
    } else if str_eq(hero, "Zarya") {
        Some("#f65ea6ff")
    } else if str_eq(hero, "Widowmaker") {
        Some("#8b3f8fff")
    } else if str_eq(hero, "Hanzo") {
        Some("#b2a865ff")
    } else if str_eq(hero, "Junkrat") {
        Some("#f7b217ff")
    } else if str_eq(hero, "Ana") {
        Some("#48699eff")
    } else if str_eq(hero, "Orisa") {
        Some("#106f04ff")
    } else if str_eq(hero, "Roadhog") {
        Some("#ae6f1cff")
    } else if str_eq(hero, "Mercy") {
        Some("#faf2adff")
    } else if str_eq(hero, "Zenyatta") {
        Some("#fcee5aff")
    } else if str_eq(hero, "Brigitte") {
        Some("#72332aff")
    } else if str_eq(hero, "Genji") {
        Some("#80fb00ff")
    } else if str_eq(hero, "Moira") {
        Some("#804be5ff")
    } else if str_eq(hero, "Bastion") {
        Some("#5b7351ff")
    } else if str_eq(hero, "Pharah") {
        Some("#58bcff")
    } else if str_eq(hero, "Cassidy") {
        Some("#a62927ff")
    } else if str_eq(hero, "Winston") {
        Some("#8f92aeff")
    } else if str_eq(hero, "Illari") {
        Some("#a58c54ff")
    } else if str_eq(hero, "Tracer") {
        Some("#de7a00ff")
    } else if str_eq(hero, "Doomfist") {
        Some("#661e0fff")
    } else if str_eq(hero, "Reinhardt") {
        Some("#7c8b8cff")
    } else if str_eq(hero, "Wrecking Ball") {
        Some("#e2790aff")
    } else if str_eq(hero, "Mei") {
        Some("#469af0ff")
    } else if str_eq(hero, "Lúcio") {
        Some("#67c519ff")
    } else if str_eq(hero, "Torbjörn") {
        Some("#ba4c3fff")
    } else if str_eq(hero, "Sombra") {
        Some("#5128a9ff")
    } else if str_eq(hero, "Symmetra") {
        Some("#76b4c9ff")
    } else if str_eq(hero, "Reaper") {
        Some("#5e001aff")
    } else if str_eq(hero, "Sigma") {
        Some("#7c8b8cff")
    } else if str_eq(hero, "Kiriko") {
        Some("#d04656ff")
    } else if str_eq(hero, "Baptiste") {
        Some("#28a5c3ff")
    } else if str_eq(hero, "Junker Queen") {
        Some("#579fcfff")
    } else if str_eq(hero, "Sojourn") {
        Some("#d73e2cff")
    } else if str_eq(hero, "Ashe") {
        Some("#3e3c3aff")
    } else if str_eq(hero, "Ramattra") {
        Some("#7d55c7ff")
    } else if str_eq(hero, "Echo") {
        Some("#89c8ffff")
    } else if str_eq(hero, "Lifeweaver") {
        Some("#e1a5baff")
    } else {
        None
    }
}

/// The accent colour of `hero`; `None` for a hero the table does not know.
pub fn hero_color(hero: &str) -> (r: Option<Color>)
    ensures
        r matches Some(c) ==> hero_color_spec(hero@) == Some(c@),
        r is None ==> hero_color_spec(hero@) is None,
{
    match hero_color_str(hero) {
        Some(t) => Color::parse(t),
        None => None,
    }
}

/// A hero of the catalog.
pub struct Hero {
    pub name: String,
    pub role: Role,
    pub portrait: String,
    pub color: Option<Color>,
}

/// The content of a [`Hero`]: name, role, portrait URL and accent colour.
pub open spec fn hero_view(h: Hero) -> (Seq<char>, Role, Seq<char>, Option<(u8, u8, u8)>) {
    (h.name@, h.role, h.portrait@, match h.color {
        Some(c) => Some(c@),
        None => None,
    })
}

/// The hero of one hero card: the portrait image's URL, the card's
/// `data-role` and `hero-name` attributes, and the colour of that name.
pub open spec fn hero_card_spec(html: Seq<char>, card: u32) -> Option<
    (Seq<char>, Role, Seq<char>, Option<(u8, u8, u8)>),
> {
    match attr_of_opt(html, find2_spec(html, card, ".heroCardPortrait"@), "src"@) {
        None => None,
        Some(u) => match parsed_url(u) {
            None => None,
            Some(portrait) => match attribute_of(html, card, "data-role"@) {
                None => None,
                Some(role_text) => match role_of_card(role_text) {
                    None => None,
                    Some(role) => match attribute_of(html, card, "hero-name"@) {
                        None => None,
                        Some(name) => Some((name, role, portrait, hero_color_spec(name))),
                    },
                },
            },
        },
    }
}

/// Every hero of the heroes page, card by card.
pub open spec fn heroes_spec(html: Seq<char>) -> Option<
    Seq<(Seq<char>, Role, Seq<char>, Option<(u8, u8, u8)>)>,
> {
    collect_all(select_all(html, ".heroCard"@), |c: u32| hero_card_spec(html, c))
}

fn hero_card(page: &Page, card: u32) -> (r: Option<Hero>)
    ensures
        r matches Some(h) ==> hero_card_spec(page@, card) == Some(hero_view(h)),
        r is None ==> hero_card_spec(page@, card) is None,
{
    let src = match find_attr2(page, card, ".heroCardPortrait", "src") {
        Some(u) => u,
        None => return None,
    };
    let portrait = match url_from_text(src.as_str()) {
        Some(p) => p,
        None => return None,
    };
    let role_text = match attr(page, card, "data-role") {
        Some(t) => t,
        None => return None,
    };
    let role = match role_from_card(role_text.as_str()) {
        Some(r) => r,
        None => return None,
    };
    let name = match attr(page, card, "hero-name") {
        Some(n) => n,
        None => return None,
    };
    let color = hero_color(name.as_str());
    Some(Hero { name, role, portrait, color })
}

/// Reads the hero catalog from the heroes page; see [`heroes_spec`]. A card
/// without a valid portrait, a known role or a name fails the whole page.
pub fn heroes(page: &Page) -> (r: Result<Vec<Hero>, Error>)
    ensures
        r is Ok <==> heroes_spec(page@) is Some,
        r matches Ok(v) ==> heroes_spec(page@) == Some(v@.map(|i: int, h: Hero| hero_view(h))),
        r matches Err(e) ==> e == Error::Parse,
{
    let cards = find_all(page, ".heroCard");
    let ghost f = |c: u32| hero_card_spec(page@, c);
    let mut out: Vec<Hero> = Vec::new();
    let mut i: usize = 0;
    while i < cards.len()
        invariant
            i <= cards@.len(),
            f == (|c: u32| hero_card_spec(page@, c)),
            heroes_spec(page@) == collect_all(cards@, f),
            collect_all(cards@.subrange(0, i as int), f) == Some(
                out@.map(|i: int, h: Hero| hero_view(h)),
            ),
        decreases cards@.len() - i,
    {
        proof {
            lemma_collect_step(cards@, i as int, f);
        }
        match hero_card(page, cards[i]) {
            Some(h) => {
                let ghost before = out@;
                out.push(h);
                assert(out@.map(|i: int, h: Hero| hero_view(h)) =~= before.map(
                    |i: int, h: Hero| hero_view(h),
                ).push(hero_view(h)));
            },
            None => {
                proof {
                    lemma_collect_fails(cards@, i + 1, f);
                }
                return Err(Error::Parse);
            },
        }
        i = i + 1;
    }
    proof {
        lemma_collect_whole(cards@, f);
    }
    Ok(out)
}

} // verus!
