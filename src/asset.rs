//! Cosmetic assets (namecards, portraits, titles) and how the numeric asset
//! ids of a search hit are resolved against the asset catalog.
use std::collections::HashMap;
use vstd::prelude::*;
use vstd::std_specs::hash::group_hash_axioms;
use vstd::string::*;

use crate::assoc::{
    assoc_insert, lemma_assoc_insert_unique, lemma_key_index_none, lemma_key_index_some,
    unique_keys,
};
use crate::btag::{parse_battletag_spec, Battletag};
use crate::error::Error;
use crate::text::{
    format_radix, has_prefix, lemma_radix_round_trip, lemma_strip_plus_digits, parse_radix,
    parses_as_u64, radix_text, starts_with, u64_value,
};

verus! {

broadcast use group_hash_axioms;

/// The numeric id of an asset, written as lowercase hexadecimal.
#[derive(Debug, Clone, Copy, PartialEq, Eq, Structural, Hash, PartialOrd, Ord)]
pub struct Id(pub u64);

/// The text without one leading `0x`.
pub open spec fn strip_hex_prefix(s: Seq<char>) -> Seq<char> {
    if has_prefix(s, seq!['0', 'x']) {
        s.subrange(2, s.len() as int)
    } else {
        s
    }
}

/// The id that `s` denotes: after an optional `0x`, an optional `+` and
/// hexadecimal digits of either case, whose value fits in a `u64`.
pub open spec fn parse_id_spec(s: Seq<char>) -> Option<u64> {
    if parses_as_u64(strip_hex_prefix(s), 16) {
        Some(u64_value(strip_hex_prefix(s), 16) as u64)
    } else {
        None
    }
}

/// The canonical text of an id: `0x` and lowercase hexadecimal digits.
pub open spec fn id_text(n: u64) -> Seq<char> {
    seq!['0', 'x'] + radix_text(n as nat, 16)
}

impl Id {
    /// Parses an id; see [`parse_id_spec`].
    pub fn parse(s: &str) -> (r: Option<Id>)
        ensures
            r matches Some(id) ==> parse_id_spec(s@) == Some(id.0),
            r is None ==> parse_id_spec(s@) is None,
    {
        proof {
            reveal_strlit("0x");
            assert("0x"@ =~= seq!['0', 'x']);
        }
        let n = s.unicode_len();
        let digits = if starts_with(s, "0x") {
            s.substring_char(2, n)
        } else {
            s
        };
        match parse_radix(digits, 16) {
            Some(v) => Some(Id(v)),
            None => None,
        }
    }

    /// The canonical text of this id.
    pub fn format(&self) -> (r: String)
        ensures
            r@ == id_text(self.0),
    {
        proof {
            reveal_strlit("0x");
        }
        let mut s = String::from_str("0x");
        let digits = format_radix(self.0, 16);
        s.append(digits.as_str());
        s
    }

    /// The integer this id stands for.
    pub fn value(self) -> (r: u64)
        ensures
            r == self.0,
    {
        self.0
    }
}

/// Every id parses back from its canonical text.
pub proof fn lemma_id_round_trip(n: u64)
    ensures
        parse_id_spec(id_text(n)) == Some(n),
{
    let t = id_text(n);
    let digits = radix_text(n as nat, 16);
    lemma_radix_round_trip(n as nat, 16);
    lemma_strip_plus_digits(digits, 16);
    assert(t.subrange(0, 2) =~= seq!['0', 'x']);
    assert(t.subrange(2, t.len() as int) =~= digits);
}

/// One localised text: a locale such as `en_US`, and the text in it.
pub struct LocalizedText {
    pub locale: String,
    pub text: String,
}

/// An asset's name in each locale the catalog has, one text per locale.
pub struct LocalizedName {
    entries: Vec<LocalizedText>,
}

/// The locales and texts of a list.
pub open spec fn texts_view(v: Seq<LocalizedText>) -> Seq<(Seq<char>, Seq<char>)> {
    v.map(|i: int, e: LocalizedText| (e.locale@, e.text@))
}

impl View for LocalizedName {
    type V = Seq<(Seq<char>, Seq<char>)>;

    closed spec fn view(&self) -> Seq<(Seq<char>, Seq<char>)> {
        texts_view(self.entries@)
    }
}

impl LocalizedName {
    #[verifier::type_invariant]
    closed spec fn locales_unique(&self) -> bool {
        unique_keys(self@)
    }

    /// No names yet.
    pub fn new() -> (r: LocalizedName)
        ensures
            r@ == Seq::<(Seq<char>, Seq<char>)>::empty(),
    {
        let r = LocalizedName { entries: Vec::new() };
        assert(r@ =~= Seq::<(Seq<char>, Seq<char>)>::empty());
        r
    }

    /// These names with `text` for `locale`, replacing any earlier text for it.
    pub fn with(self, locale: String, text: String) -> (r: LocalizedName)
        ensures
            r@ == assoc_insert(self@, locale@, text@),
    {
        proof {
            use_type_invariant(&self);
            lemma_assoc_insert_unique(self@, locale@, text@);
        }
        let LocalizedName { mut entries } = self;
        let ghost v0 = texts_view(entries@);
        let ghost k = locale@;
        let ghost x = (locale@, text@);
        assert(v0 == self@);
        let mut i: usize = entries.len();
        while i > 0
            invariant
                i <= entries@.len(),
                v0 == texts_view(entries@),
                k == locale@,
                x == (locale@, text@),
                v0 == self@,
                unique_keys(assoc_insert(v0, k, text@)),
                forall|j: int| i <= j < v0.len() ==> (#[trigger] v0[j]).0 != k,
            decreases i,
        {
            if crate::text::str_eq(entries[i - 1].locale.as_str(), locale.as_str()) {
                proof {
                    lemma_key_index_some(v0, k, i - 1);
                }
                entries.set(i - 1, LocalizedText { locale, text });
                assert(texts_view(entries@) =~= v0.update(i - 1, x));
                return LocalizedName { entries };
            }
            i = i - 1;
        }
        proof {
            lemma_key_index_none(v0, k);
        }
        entries.push(LocalizedText { locale, text });
        assert(texts_view(entries@) =~= v0.push(x));
        LocalizedName { entries }
    }

    /// The locales and texts, one entry per locale.
    pub fn entries(&self) -> (r: &Vec<LocalizedText>)
        ensures
            texts_view(r@) == self@,
            unique_keys(self@),
    {
        proof {
            use_type_invariant(self);
        }
        &self.entries
    }

    /// A copy of these names.
    pub fn duplicate(&self) -> (r: LocalizedName)
        ensures
            r@ == self@,
    {
        proof {
            use_type_invariant(self);
        }
        let mut entries: Vec<LocalizedText> = Vec::new();
        let mut i: usize = 0;
        while i < self.entries.len()
            invariant
                i <= self.entries@.len(),
                entries@.len() == i,
                texts_view(entries@) =~= self@.subrange(0, i as int),
            decreases self.entries@.len() - i,
        {
            let e = &self.entries[i];
            let ghost before = entries@;
            entries.push(LocalizedText { locale: e.locale.clone(), text: e.text.clone() });
            proof {
                assert(entries@ == before.push(entries@[i as int]));
                assert(texts_view(entries@)[i as int] == self@[i as int]);
                assert forall|j: int| 0 <= j < i implies texts_view(entries@)[j] == texts_view(
                    before,
                )[j] by {
                    assert(entries@[j] == before[j]);
                }
                assert(texts_view(entries@) =~= self@.subrange(0, i + 1));
            }
            i = i + 1;
        }
        assert(self@.subrange(0, self@.len() as int) =~= self@);
        LocalizedName { entries }
    }

    /// The text for `locale`, if the name has one.
    pub fn get(&self, locale: &str) -> (r: Option<&String>)
        ensures
            r matches Some(t) ==> exists|i: int|
                0 <= i < self@.len() && self@[i] == (locale@, t@),
            r is None ==> forall|i: int| 0 <= i < self@.len() ==> #[trigger] self@[i].0 != locale@,
            unique_keys(self@),
    {
        proof {
            use_type_invariant(self);
        }
        let mut i: usize = 0;
        while i < self.entries.len()
            invariant
                i <= self.entries@.len(),
                unique_keys(self@),
                forall|j: int| 0 <= j < i ==> #[trigger] self@[j].0 != locale@,
            decreases self.entries@.len() - i,
        {
            if crate::text::str_eq(self.entries[i].locale.as_str(), locale) {
                assert(self@[i as int] == (locale@, self.entries[i as int].text@));
                return Some(&self.entries[i].text);
            }
            i = i + 1;
        }
        None
    }
}

/// A reference to another catalog entry: an id and a name, either of which
/// may be missing.
#[derive(Debug, Clone, PartialEq, Eq)]
pub struct IdName {
    pub id: Option<Id>,
    pub name: Option<String>,
}

/// How rare an asset is.
#[derive(Debug, Clone, Copy, PartialEq, Eq, Structural, Hash)]
pub enum RarityTypes {
    Common,
    Epic,
    Rare,
}

/// A rarity with its numeric weight.
#[derive(Debug, Clone, Copy, PartialEq, Eq, Structural)]
pub struct Rarity {
    pub name: RarityTypes,
    pub value: i64,
}

/// Which of the three catalogs an asset comes from.
#[derive(Debug, Clone, Copy, PartialEq, Eq, Structural)]
pub enum Category {
    Avatars,
    Namecards,
    Titles,
}

/// The kind of media an asset is.
#[derive(Debug, Clone, Copy, PartialEq, Eq, Structural)]
pub enum ContentType {
    Image,
}

/// One asset of the catalog: its id, its name in each locale, its kind and
/// rarity, and the URL of its icon where it has one.
pub struct Asset {
    pub id: Id,
    pub name: LocalizedName,
    pub typ: IdName,
    pub rarity: RarityTypes,
    pub hero: IdName,
    pub event: IdName,
    pub is_new: bool,
    pub is_marked: bool,
    pub icon: Option<String>,
}

/// The text of an optional string.
pub open spec fn opt_text(o: Option<String>) -> Option<Seq<char>> {
    match o {
        Some(s) => Some(s@),
        None => None,
    }
}

/// Copies an optional string.
pub fn copy_opt_string(o: &Option<String>) -> (r: Option<String>)
    ensures
        opt_text(r) == opt_text(*o),
{
    match o {
        Some(s) => Some(s.clone()),
        None => None,
    }
}

/// The catalog `m` with each asset of `s` added in order, a later asset
/// replacing an earlier one with the same id.
pub open spec fn with_assets(m: Map<u64, Asset>, s: Seq<Asset>) -> Map<u64, Asset>
    decreases s.len(),
{
    if s.len() == 0 {
        m
    } else {
        with_assets(m, s.drop_last()).insert(s.last().id.0, s.last())
    }
}

/// The asset catalog, keyed by the integer of each asset's id.
pub struct Catalog {
    pub assets: HashMap<u64, Asset>,
}

impl Catalog {
    /// An empty catalog.
    pub fn new() -> (r: Catalog)
        ensures
            r.assets@ == Map::<u64, Asset>::empty(),
    {
        Catalog { assets: HashMap::new() }
    }

    /// Adds `asset` under its id, replacing any asset with the same id.
    pub fn insert(&mut self, asset: Asset)
        ensures
            final(self).assets@ == old(self).assets@.insert(asset.id.0, asset),
    {
        let key = asset.id.0;
        self.assets.insert(key, asset);
    }

    /// Adds every asset of `assets` in order, a later one replacing any
    /// earlier asset with the same id.
    pub fn insert_all(&mut self, assets: Vec<Asset>)
        ensures
            final(self).assets@ == with_assets(old(self).assets@, assets@),
    {
        let ghost all = assets@;
        let ghost start = self.assets@;
        let ghost mut k: int = 0;
        let mut rest = assets;
        assert(rest@ =~= all.subrange(0, all.len() as int));
        while rest.len() > 0
            invariant
                0 <= k <= all.len(),
                rest@ == all.subrange(k, all.len() as int),
                self.assets@ == with_assets(start, all.subrange(0, k)),
                start == old(self).assets@,
            decreases rest@.len(),
        {
            let a = rest.remove(0);
            proof {
                assert(a == all[k]);
                assert(all.subrange(0, k + 1).drop_last() =~= all.subrange(0, k));
            }
            self.insert(a);
            proof {
                k = k + 1;
                assert(rest@ =~= all.subrange(k, all.len() as int));
            }
        }
        assert(all.subrange(0, k) =~= all);
    }

    /// The asset with this id, if the catalog has it.
    pub fn get(&self, id: Id) -> (r: Option<&Asset>)
        ensures
            r matches Some(a) ==> self.assets@.contains_key(id.0) && *a == self.assets@[id.0],
            r is None ==> !self.assets@.contains_key(id.0),
    {
        self.assets.get(&id.0)
    }

    /// How many assets the catalog has.
    pub fn len(&self) -> (r: usize)
        ensures
            r == self.assets@.len(),
    {
        self.assets.len()
    }
}

/// A search hit as the search endpoint returns it: the battletag as text,
/// the time of its last update in seconds since the epoch, and the ids of its
/// cosmetics.
pub struct FoundPlayerRaw {
    pub battle_tag: String,
    pub last_updated: i64,
    pub is_public: bool,
    pub frame: Option<Id>,
    pub namecard: Option<Id>,
    pub portrait: Option<Id>,
    pub title: Option<Id>,
}

/// A search hit with its battletag parsed and its cosmetics resolved: the
/// icon URLs of its namecard and portrait, and the localised names of its
/// title.
pub struct FoundPlayer {
    pub battle_tag: Battletag,
    pub last_updated: i64,
    pub is_public: bool,
    pub namecard: Option<String>,
    pub portrait: Option<String>,
    pub title: Option<LocalizedName>,
}

/// The icon URL that `id` resolves to in `catalog`: none where the id is
/// missing, the catalog lacks it, or the asset has no icon.
pub open spec fn icon_of(id: Option<Id>, catalog: Map<u64, Asset>) -> Option<Seq<char>> {
    match id {
        Some(i) => if catalog.contains_key(i.0) {
            opt_text(catalog[i.0].icon)
        } else {
            None
        },
        None => None,
    }
}

/// The localised names that `id` resolves to in `catalog`, if it has the id.
pub open spec fn title_of(id: Option<Id>, catalog: Map<u64, Asset>) -> Option<
    Seq<(Seq<char>, Seq<char>)>,
> {
    match id {
        Some(i) => if catalog.contains_key(i.0) {
            Some(catalog[i.0].name@)
        } else {
            None
        },
        None => None,
    }
}

/// The text of an optional localised name.
pub open spec fn opt_name(o: Option<LocalizedName>) -> Option<Seq<(Seq<char>, Seq<char>)>> {
    match o {
        Some(n) => Some(n@),
        None => None,
    }
}

/// Whether `p` is what resolving `raw` against `catalog` gives.
pub open spec fn resolves_to(raw: FoundPlayerRaw, catalog: Map<u64, Asset>, p: FoundPlayer) -> bool {
    &&& parse_battletag_spec(raw.battle_tag@) == Some(p.battle_tag@)
    &&& p.last_updated == raw.last_updated
    &&& p.is_public == raw.is_public
    &&& opt_text(p.namecard) == icon_of(raw.namecard, catalog)
    &&& opt_text(p.portrait) == icon_of(raw.portrait, catalog)
    &&& opt_name(p.title) == title_of(raw.title, catalog)
}

fn resolve_icon(id: Option<Id>, catalog: &Catalog) -> (r: Option<String>)
    ensures
        opt_text(r) == icon_of(id, catalog.assets@),
{
    match id {
        Some(i) => match catalog.get(i) {
            Some(a) => copy_opt_string(&a.icon),
            None => None,
        },
        None => None,
    }
}

/// Resolves a search hit against the asset catalog. Only a battletag that
/// does not parse fails it; an id the catalog lacks resolves to no value.
pub fn resolve(raw: &FoundPlayerRaw, catalog: &Catalog) -> (r: Result<FoundPlayer, Error>)
    ensures
        r is Ok <==> parse_battletag_spec(raw.battle_tag@) is Some,
        r matches Ok(p) ==> resolves_to(*raw, catalog.assets@, p),
        r matches Err(e) ==> e == Error::Battletag(raw.battle_tag),
{
    let battle_tag = match Battletag::parse(raw.battle_tag.as_str()) {
        Some(b) => b,
        None => return Err(Error::Battletag(raw.battle_tag.clone())),
    };
    let namecard = resolve_icon(raw.namecard, catalog);
    let portrait = resolve_icon(raw.portrait, catalog);
    let title = match raw.title {
        Some(i) => match catalog.get(i) {
            Some(a) => Some(a.name.duplicate()),
            None => None,
        },
        None => None,
    };
    Ok(FoundPlayer {
        battle_tag,
        last_updated: raw.last_updated,
        is_public: raw.is_public,
        namecard,
        portrait,
        title,
    })
}

/// Resolves every hit of a search, failing on the first battletag that does
/// not parse.
pub fn resolve_all(raws: &Vec<FoundPlayerRaw>, catalog: &Catalog) -> (r: Result<
    Vec<FoundPlayer>,
    Error,
>)
    ensures
        r is Ok <==> forall|i: int|
            0 <= i < raws@.len() ==> parse_battletag_spec(#[trigger] raws@[i].battle_tag@) is Some,
        r matches Ok(v) ==> v@.len() == raws@.len() && forall|i: int|
            0 <= i < raws@.len() ==> resolves_to(#[trigger] raws@[i], catalog.assets@, v@[i]),
        r matches Err(e) ==> exists|i: int|
            0 <= i < raws@.len() && parse_battletag_spec(#[trigger] raws@[i].battle_tag@) is None
                && e == Error::Battletag(raws@[i].battle_tag),
{
    let mut out: Vec<FoundPlayer> = Vec::new();
    let mut i: usize = 0;
    while i < raws.len()
        invariant
            i <= raws@.len(),
            out@.len() == i,
            forall|j: int| 0 <= j < i ==> parse_battletag_spec(#[trigger] raws@[j].battle_tag@) is Some,
            forall|j: int| 0 <= j < i ==> resolves_to(#[trigger] raws@[j], catalog.assets@, out@[j]),
        decreases raws@.len() - i,
    {
        match resolve(&raws[i], catalog) {
            Ok(p) => out.push(p),
            Err(e) => return Err(e),
        }
        i = i + 1;
    }
    Ok(out)
}

/// Resolution is a function of the hit and the catalog: two resolutions of
/// the same hit against the same catalog agree.
pub proof fn lemma_resolution_deterministic(
    raw: FoundPlayerRaw,
    catalog: Map<u64, Asset>,
    p: FoundPlayer,
    q: FoundPlayer,
)
    requires
        resolves_to(raw, catalog, p),
        resolves_to(raw, catalog, q),
    ensures
        p.battle_tag@ == q.battle_tag@,
        p.last_updated == q.last_updated,
        p.is_public == q.is_public,
        opt_text(p.namecard) == opt_text(q.namecard),
        opt_text(p.portrait) == opt_text(q.portrait),
        opt_name(p.title) == opt_name(q.title),
{
}

/// A title id that the catalog lacks resolves to no title, not to an error.
pub proof fn lemma_missing_title_is_none(raw: FoundPlayerRaw, catalog: Map<u64, Asset>, p: FoundPlayer)
    requires
        raw.title matches Some(id) && !catalog.contains_key(id.0),
        resolves_to(raw, catalog, p),
    ensures
        p.title is None,
{
}

} // verus!
