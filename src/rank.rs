//! Ranks and their parts, and how each is read from the text the two sites
//! put in their markup: icon file names, and `<Group> <division>` labels.
use vstd::prelude::*;
use vstd::string::*;

use crate::text::{
    digit_value, find_char, find_char_in, has_prefix, lemma_find_char_facts, rfind_char,
    rfind_char_in, starts_with, str_eq,
};

verus! {

/// Whether `c` is one of the digits `1` to `5`.
pub open spec fn is_digit_1_to_5(c: char) -> bool {
    '1' <= c && c <= '5'
}

/// An integer from one to five: a rank's division, or an endorsement level.
#[derive(Debug, Clone, Copy, PartialEq, Eq, Hash)]
pub struct Limited {
    value: u8,
}

/// A rank's sub-tier, from one to five.
pub type Division = Limited;

/// A player's endorsement level, from one to five.
pub type Endorsement = Limited;

impl View for Limited {
    type V = nat;

    closed spec fn view(&self) -> nat {
        self.value as nat
    }
}

impl Limited {
    #[verifier::type_invariant]
    closed spec fn in_range(&self) -> bool {
        1 <= self.value <= 5
    }

    /// The value, from one to five.
    pub fn inner(self) -> (r: u64)
        ensures
            r == self@,
            1 <= r <= 5,
    {
        proof {
            use_type_invariant(&self);
        }
        self.value as u64
    }

    /// The value `v`, if it lies in one to five; out-of-range values are
    /// refused, not clamped.
    pub fn try_from_u64(v: u64) -> (r: Option<Limited>)
        ensures
            r is Some <==> 1 <= v <= 5,
            r matches Some(l) ==> l@ == v,
    {
        if 1 <= v && v <= 5 {
            Some(Limited { value: v as u8 })
        } else {
            None
        }
    }

    /// The value of the digit `c`, if it is one of `1` to `5`.
    pub fn from_digit(c: char) -> (r: Option<Limited>)
        ensures
            r is Some <==> is_digit_1_to_5(c),
            r matches Some(l) ==> l@ == digit_value(c),
    {
        if '1' <= c && c <= '5' {
            Some(Limited { value: (c as u32 - '0' as u32) as u8 })
        } else {
            None
        }
    }

    /// Parses text that is exactly one digit from `1` to `5`.
    pub fn parse(s: &str) -> (r: Option<Limited>)
        ensures
            r is Some <==> (s@.len() == 1 && is_digit_1_to_5(s@[0])),
            r matches Some(l) ==> l@ == digit_value(s@[0]),
    {
        if s.unicode_len() != 1 {
            return None;
        }
        Limited::from_digit(s.get_char(0))
    }

    /// Parses the first character of `s` as a digit from `1` to `5`.
    pub fn parse_leading(s: &str) -> (r: Option<Limited>)
        ensures
            r is Some <==> (s@.len() > 0 && is_digit_1_to_5(s@[0])),
            r matches Some(l) ==> l@ == digit_value(s@[0]),
    {
        if s.unicode_len() == 0 {
            return None;
        }
        Limited::from_digit(s.get_char(0))
    }
}

/// A competitive role.
#[derive(Debug, Clone, Copy, PartialEq, Eq, Structural, Hash)]
pub enum Role {
    Tank,
    Damage,
    Support,
}

/// A competitive rank tier, lowest first.
#[derive(Debug, Clone, Copy, PartialEq, Eq, Hash, PartialOrd, Ord)]
pub enum Group {
    Bronze,
    Silver,
    Gold,
    Platinum,
    Diamond,
    Master,
    Grandmaster,
}

/// One rank of a player: tier, sub-tier, role, and whether it was earned on
/// console.
#[derive(Debug, Clone, Copy, PartialEq, Eq, Hash)]
pub struct Rank {
    pub group: Group,
    pub division: Division,
    pub role: Role,
    pub console: bool,
}

impl View for Rank {
    type V = (Group, nat, Role, bool);

    open spec fn view(&self) -> (Group, nat, Role, bool) {
        (self.group, self.division@, self.role, self.console)
    }
}

/// The file name of a URL: what follows its last `/`, or the whole text.
pub open spec fn url_file_spec(url: Seq<char>) -> Seq<char> {
    match rfind_char(url, '/') {
        Some(i) => url.subrange(i as int + 1, url.len() as int),
        None => url,
    }
}

/// What follows the last `/` of a URL, if it has one.
pub open spec fn url_file_name_spec(url: Seq<char>) -> Option<Seq<char>> {
    match rfind_char(url, '/') {
        Some(i) => Some(url.subrange(i as int + 1, url.len() as int)),
        None => None,
    }
}

/// The file name of `url`: the text after its last `/`, or all of it.
pub fn url_file(url: &str) -> (r: &str)
    ensures
        r@ == url_file_spec(url@),
{
    let n = url.unicode_len();
    match rfind_char_in(url, '/') {
        Some(i) => url.substring_char(i + 1, n),
        None => url,
    }
}

/// The text after the last `/` of `url`, or `None` where it has none.
pub fn url_file_name(url: &str) -> (r: Option<&str>)
    ensures
        r matches Some(f) ==> url_file_name_spec(url@) == Some(f@),
        r is None ==> url_file_name_spec(url@) is None,
{
    let n = url.unicode_len();
    match rfind_char_in(url, '/') {
        Some(i) => Some(url.substring_char(i + 1, n)),
        None => None,
    }
}

/// The group named by a rank icon's file-name prefix, such as `GoldTier`.
pub open spec fn group_of_tier(t: Seq<char>) -> Option<Group> {
    if t == "BronzeTier"@ {
        Some(Group::Bronze)
    } else if t == "SilverTier"@ {
        Some(Group::Silver)
    } else if t == "GoldTier"@ {
        Some(Group::Gold)
    } else if t == "PlatinumTier"@ {
        Some(Group::Platinum)
    } else if t == "DiamondTier"@ {
        Some(Group::Diamond)
    } else if t == "MasterTier"@ {
        Some(Group::Master)
    } else if t == "GrandmasterTier"@ {
        Some(Group::Grandmaster)
    } else {
        None
    }
}

/// The group named by a plain group name, such as `Gold`.
pub open spec fn group_of_name(t: Seq<char>) -> Option<Group> {
    if t == "Bronze"@ {
        Some(Group::Bronze)
    } else if t == "Silver"@ {
        Some(Group::Silver)
    } else if t == "Gold"@ {
        Some(Group::Gold)
    } else if t == "Platinum"@ {
        Some(Group::Platinum)
    } else if t == "Diamond"@ {
        Some(Group::Diamond)
    } else if t == "Master"@ {
        Some(Group::Master)
    } else if t == "Grandmaster"@ {
        Some(Group::Grandmaster)
    } else {
        None
    }
}

/// The role named by a role icon's file name, by its prefix.
pub open spec fn role_of_icon(f: Seq<char>) -> Option<Role> {
    if has_prefix(f, "tank"@) {
        Some(Role::Tank)
    } else if has_prefix(f, "offense"@) {
        Some(Role::Damage)
    } else if has_prefix(f, "support"@) {
        Some(Role::Support)
    } else {
        None
    }
}

/// The role named by a hero card's `data-role` value.
pub open spec fn role_of_card(t: Seq<char>) -> Option<Role> {
    if t == "tank"@ {
        Some(Role::Tank)
    } else if t == "damage"@ {
        Some(Role::Damage)
    } else if t == "support"@ {
        Some(Role::Support)
    } else {
        None
    }
}

pub fn group_from_tier(t: &str) -> (r: Option<Group>)
    ensures
        r == group_of_tier(t@),
{
    if str_eq(t, "BronzeTier") {
        Some(Group::Bronze)
    } else if str_eq(t, "SilverTier") {
        Some(Group::Silver)
    } else if str_eq(t, "GoldTier") {
        Some(Group::Gold)
    } else if str_eq(t, "PlatinumTier") {
        Some(Group::Platinum)
    } else if str_eq(t, "DiamondTier") {
        Some(Group::Diamond)
    } else if str_eq(t, "MasterTier") {
        Some(Group::Master)
    } else if str_eq(t, "GrandmasterTier") {
        Some(Group::Grandmaster)
    } else {
        None
    }
}

pub fn group_from_name(t: &str) -> (r: Option<Group>)
    ensures
        r == group_of_name(t@),
{
    if str_eq(t, "Bronze") {
        Some(Group::Bronze)
    } else if str_eq(t, "Silver") {
        Some(Group::Silver)
    } else if str_eq(t, "Gold") {
        Some(Group::Gold)
    } else if str_eq(t, "Platinum") {
        Some(Group::Platinum)
    } else if str_eq(t, "Diamond") {
        Some(Group::Diamond)
    } else if str_eq(t, "Master") {
        Some(Group::Master)
    } else if str_eq(t, "Grandmaster") {
        Some(Group::Grandmaster)
    } else {
        None
    }
}

pub fn role_from_icon(f: &str) -> (r: Option<Role>)
    ensures
        r == role_of_icon(f@),
{
    if starts_with(f, "tank") {
        Some(Role::Tank)
    } else if starts_with(f, "offense") {
        Some(Role::Damage)
    } else if starts_with(f, "support") {
        Some(Role::Support)
    } else {
        None
    }
}

pub fn role_from_card(t: &str) -> (r: Option<Role>)
    ensures
        r == role_of_card(t@),
{
    if str_eq(t, "tank") {
        Some(Role::Tank)
    } else if str_eq(t, "damage") {
        Some(Role::Damage)
    } else if str_eq(t, "support") {
        Some(Role::Support)
    } else {
        None
    }
}

/// The rank that a rank icon URL and a role icon URL name. The rank icon's
/// file name is `<Group>Tier-<division>...`: its text before the first `-`
/// names the group, and the character after that dash is the division.
pub open spec fn rank_from_urls_spec(rank_url: Seq<char>, role_url: Seq<char>, console: bool)
    -> Option<(Group, nat, Role, bool)> {
    let f = url_file_spec(rank_url);
    match find_char(f, '-') {
        None => None,
        Some(i) => {
            let rest = f.subrange(i as int + 1, f.len() as int);
            match group_of_tier(f.subrange(0, i as int)) {
                None => None,
                Some(g) => {
                    if rest.len() > 0 && is_digit_1_to_5(rest[0]) {
                        match role_of_icon(url_file_spec(role_url)) {
                            None => None,
                            Some(role) => Some((g, digit_value(rest[0]), role, console)),
                        }
                    } else {
                        None
                    }
                },
            }
        },
    }
}

/// Reads a rank from the URLs of its rank icon and its role icon. Any group,
/// division or role that is not recognised fails the rank.
pub fn rank_from_urls(rank_url: &str, role_url: &str, console: bool) -> (r: Option<Rank>)
    ensures
        r matches Some(x) ==> rank_from_urls_spec(rank_url@, role_url@, console) == Some(x@),
        r is None ==> rank_from_urls_spec(rank_url@, role_url@, console) is None,
{
    let f = url_file(rank_url);
    let i = match find_char_in(f, '-') {
        Some(i) => i,
        None => return None,
    };
    proof {
        lemma_find_char_facts(f@, '-');
    }
    let group = match group_from_tier(f.substring_char(0, i)) {
        Some(g) => g,
        None => return None,
    };
    let n = f.unicode_len();
    let rest = f.substring_char(i + 1, n);
    let division = match Limited::parse_leading(rest) {
        Some(d) => d,
        None => return None,
    };
    let role = match role_from_icon(url_file(role_url)) {
        Some(role) => role,
        None => return None,
    };
    Some(Rank { group, division, role, console })
}

/// The endorsement level that an endorsement icon URL names: the first
/// character of its file name.
pub open spec fn endorsement_from_url_spec(url: Seq<char>) -> Option<nat> {
    let f = url_file_spec(url);
    if f.len() > 0 && is_digit_1_to_5(f[0]) {
        Some(digit_value(f[0]))
    } else {
        None
    }
}

/// Reads an endorsement level from the URL of its icon.
pub fn endorsement_from_url(url: &str) -> (r: Option<Endorsement>)
    ensures
        r matches Some(e) ==> endorsement_from_url_spec(url@) == Some(e@),
        r is None ==> endorsement_from_url_spec(url@) is None,
{
    Limited::parse_leading(url_file(url))
}

/// Length in bytes of the tank role icon's inner markup on the ranking site.
pub const TANK_ICON_LEN: usize = 761;

/// Length in bytes of the damage role icon's inner markup on the ranking site.
pub const DAMAGE_ICON_LEN: usize = 1690;

/// Length in bytes of the support role icon's inner markup on the ranking site.
pub const SUPPORT_ICON_LEN: usize = 1535;

/// The role whose icon markup has `len` bytes on the ranking site.
pub open spec fn role_of_icon_len(len: nat) -> Option<Role> {
    if len == TANK_ICON_LEN {
        Some(Role::Tank)
    } else if len == DAMAGE_ICON_LEN {
        Some(Role::Damage)
    } else if len == SUPPORT_ICON_LEN {
        Some(Role::Support)
    } else {
        None
    }
}

pub fn role_from_icon_len(len: usize) -> (r: Option<Role>)
    ensures
        r == role_of_icon_len(len as nat),
{
    if len == TANK_ICON_LEN {
        Some(Role::Tank)
    } else if len == DAMAGE_ICON_LEN {
        Some(Role::Damage)
    } else if len == SUPPORT_ICON_LEN {
        Some(Role::Support)
    } else {
        None
    }
}

/// The rank in one row of the ranking site: the role by the length of its icon
/// markup, and a `<Group> <division>` label split at its first space.
pub open spec fn secondary_rank_spec(icon_len: nat, label: Seq<char>) -> Option<
    (Group, nat, Role, bool),
> {
    match role_of_icon_len(icon_len) {
        None => None,
        Some(role) => match find_char(label, ' ') {
            None => None,
            Some(i) => {
                let rest = label.subrange(i as int + 1, label.len() as int);
                match group_of_name(label.subrange(0, i as int)) {
                    None => None,
                    Some(g) => if rest.len() == 1 && is_digit_1_to_5(rest[0]) {
                        Some((g, digit_value(rest[0]), role, false))
                    } else {
                        None
                    },
                }
            },
        },
    }
}

/// Reads one rank of the ranking site from its role icon's markup length and
/// its rank label.
pub fn secondary_rank(icon_len: usize, label: &str) -> (r: Option<Rank>)
    ensures
        r matches Some(x) ==> secondary_rank_spec(icon_len as nat, label@) == Some(x@),
        r is None ==> secondary_rank_spec(icon_len as nat, label@) is None,
{
    let role = match role_from_icon_len(icon_len) {
        Some(role) => role,
        None => return None,
    };
    let i = match find_char_in(label, ' ') {
        Some(i) => i,
        None => return None,
    };
    proof {
        lemma_find_char_facts(label@, ' ');
    }
    let group = match group_from_name(label.substring_char(0, i)) {
        Some(g) => g,
        None => return None,
    };
    let n = label.unicode_len();
    let division = match Limited::parse(label.substring_char(i + 1, n)) {
        Some(d) => d,
        None => return None,
    };
    Some(Rank { group, division, role, console: false })
}

/// Whether no two ranks share a role and a platform.
pub open spec fn one_rank_per_role(v: Seq<(Group, nat, Role, bool)>) -> bool {
    forall|i: int, j: int|
        0 <= i < j < v.len() ==> (#[trigger] v[i]).2 != (#[trigger] v[j]).2 || v[i].3 != v[j].3
}

/// Whether no two of `v` share a role and a platform.
pub fn has_one_rank_per_role(v: &Vec<Rank>) -> (r: bool)
    ensures
        r == one_rank_per_role(v@.map(|k: int, x: Rank| x@)),
{
    let ghost w = v@.map(|k: int, x: Rank| x@);
    let mut i: usize = 0;
    while i < v.len()
        invariant
            i <= v@.len(),
            w == v@.map(|k: int, x: Rank| x@),
            forall|a: int, b: int|
                0 <= a < i && a < b < w.len() ==> (#[trigger] w[a]).2 != (#[trigger] w[b]).2
                    || w[a].3 != w[b].3,
        decreases v@.len() - i,
    {
        let mut j: usize = i + 1;
        while j < v.len()
            invariant
                i < v@.len(),
                i + 1 <= j <= v@.len(),
                w == v@.map(|k: int, x: Rank| x@),
                forall|a: int, b: int|
                    0 <= a < i && a < b < w.len() ==> (#[trigger] w[a]).2 != (#[trigger] w[b]).2
                        || w[a].3 != w[b].3,
                forall|b: int| i < b < j ==> w[i as int].2 != (#[trigger] w[b]).2 || w[i as int].3 != w[b].3,
            decreases v@.len() - j,
        {
            if v[i].role == v[j].role && v[i].console == v[j].console {
                assert(w[i as int] == v@[i as int]@ && w[j as int] == v@[j as int]@);
                return false;
            }
            j = j + 1;
        }
        i = i + 1;
    }
    true
}

} // verus!
