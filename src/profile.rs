//! Extraction of a player's career profile from its page: the per-hero
//! statistics of each game mode and platform, the ranks, and the summary
//! fields.
use vstd::prelude::*;
use vstd::string::*;

use crate::assoc::{
    assoc_from, assoc_insert, lemma_assoc_from_push, lemma_assoc_from_unique,
    lemma_key_index_none, lemma_key_index_some, unique_keys,
};
use crate::collect::{
    collect_all, collect_assoc, collect_concat, lemma_collect_fails, lemma_collect_step, lemma_collect_whole,
    lemma_concat_fails, lemma_concat_step, lemma_concat_whole,
};
use crate::dom::{
    attr, attribute_of, find, find2, find2_spec, find_all, find_all2, find_inner_text2, find_spec,
    inner_text, inner_text_of, select_within, text_of_opt, Page,
};
use crate::btag::Battletag;
use crate::checks::{parse_timestamp, parsed_url, timestamp_spec, url_from_text};
use crate::dom::{attr_of_opt, find_attr, find_attr2, find_inner_text, has_class, has_class_of, select_all};
use crate::error::Error;
use crate::rank::{
    endorsement_from_url, endorsement_from_url_spec, has_one_rank_per_role, one_rank_per_role,
    rank_from_urls, rank_from_urls_spec, Endorsement, Group, Rank, Role,
};
use crate::stat::{parse_stat_spec, Stat, StatView};

verus! {

/// One statistic of a hero, under its label.
pub struct NamedStat {
    pub name: String,
    pub stat: Stat,
}

impl View for NamedStat {
    type V = (Seq<char>, StatView);

    open spec fn view(&self) -> (Seq<char>, StatView) {
        (self.name@, self.stat@)
    }
}

/// The statistics of one hero, one per label, in the order the labels first
/// appear on the page.
pub struct HeroStats {
    pub stats: Vec<NamedStat>,
}

impl View for HeroStats {
    type V = Seq<(Seq<char>, StatView)>;

    open spec fn view(&self) -> Seq<(Seq<char>, StatView)> {
        named_view(self.stats@)
    }
}

/// The labelled statistics of a list.
pub open spec fn named_view(v: Seq<NamedStat>) -> Seq<(Seq<char>, StatView)> {
    v.map(|i: int, s: NamedStat| s@)
}

/// Whether the heroes of one mode and platform have one entry per name, and
/// each hero one statistic per label.
pub open spec fn stats_unique(v: Seq<(Seq<char>, Seq<(Seq<char>, StatView)>)>) -> bool {
    &&& unique_keys(v)
    &&& forall|i: int| 0 <= i < v.len() ==> unique_keys(#[trigger] v[i].1)
}

/// Adds `s` to `v`, replacing the statistic with the same label if any.
fn insert_stat(v: &mut Vec<NamedStat>, s: NamedStat)
    ensures
        named_view(final(v)@) == assoc_insert(named_view(old(v)@), s.name@, s.stat@),
{
    let ghost v0 = named_view(v@);
    let ghost k = s.name@;
    let mut i: usize = v.len();
    while i > 0
        invariant
            i <= v@.len(),
            v0 == named_view(v@),
            v0 == named_view(old(v)@),
            k == s.name@,
            forall|j: int| i <= j < v0.len() ==> (#[trigger] v0[j]).0 != k,
        decreases i,
    {
        if crate::text::str_eq(v[i - 1].name.as_str(), s.name.as_str()) {
            proof {
                lemma_key_index_some(v0, k, i - 1);
            }
            let ghost x = s@;
            v.set(i - 1, s);
            assert(named_view(v@) =~= v0.update(i - 1, x));
            return;
        }
        i = i - 1;
    }
    proof {
        lemma_key_index_none(v0, k);
    }
    let ghost x = s@;
    v.push(s);
    assert(named_view(v@) =~= v0.push(x));
}

/// Adds `e` to `v`, replacing the hero with the same name if any.
fn insert_hero(v: &mut Vec<HeroEntry>, e: HeroEntry)
    ensures
        heroes_view(final(v)@) == assoc_insert(heroes_view(old(v)@), e.hero@, e.stats@),
{
    let ghost v0 = heroes_view(v@);
    let ghost k = e.hero@;
    let mut i: usize = v.len();
    while i > 0
        invariant
            i <= v@.len(),
            v0 == heroes_view(v@),
            v0 == heroes_view(old(v)@),
            k == e.hero@,
            forall|j: int| i <= j < v0.len() ==> (#[trigger] v0[j]).0 != k,
        decreases i,
    {
        if crate::text::str_eq(v[i - 1].hero.as_str(), e.hero.as_str()) {
            proof {
                lemma_key_index_some(v0, k, i - 1);
            }
            let ghost x = e@;
            v.set(i - 1, e);
            assert(heroes_view(v@) =~= v0.update(i - 1, x));
            return;
        }
        i = i - 1;
    }
    proof {
        lemma_key_index_none(v0, k);
    }
    let ghost x = e@;
    v.push(e);
    assert(heroes_view(v@) =~= v0.push(x));
}

/// Whether position `i` holds the last statistic labelled `name`.
pub open spec fn is_last_named<A>(s: Seq<(Seq<char>, A)>, name: Seq<char>, i: int) -> bool {
    &&& 0 <= i < s.len()
    &&& s[i].0 == name
    &&& forall|j: int| i < j < s.len() ==> #[trigger] s[j].0 != name
}

impl HeroStats {
    /// The statistic labelled `name`; where a label repeats, the last one.
    pub fn get(&self, name: &str) -> (r: Option<&Stat>)
        ensures
            r matches Some(s) ==> exists|i: int|
                is_last_named(self@, name@, i) && #[trigger] self@[i].1 == s@,
            r is None ==> forall|i: int| 0 <= i < self@.len() ==> #[trigger] self@[i].0 != name@,
    {
        let mut i: usize = self.stats.len();
        while i > 0
            invariant
                i <= self.stats@.len(),
                forall|j: int| i <= j < self@.len() ==> #[trigger] self@[j].0 != name@,
            decreases i,
        {
            if crate::text::str_eq(self.stats[i - 1].name.as_str(), name) {
                assert(is_last_named(self@, name@, i - 1));
                assert(self@[i - 1].1 == self.stats@[i - 1].stat@);
                return Some(&self.stats[i - 1].stat);
            }
            i = i - 1;
        }
        None
    }
}

/// One hero's statistics, under the hero's name.
pub struct HeroEntry {
    pub hero: String,
    pub stats: HeroStats,
}

impl View for HeroEntry {
    type V = (Seq<char>, Seq<(Seq<char>, StatView)>);

    open spec fn view(&self) -> (Seq<char>, Seq<(Seq<char>, StatView)>) {
        (self.hero@, self.stats@)
    }
}

/// The statistics of every hero of one game mode and platform.
pub open spec fn heroes_view(v: Seq<HeroEntry>) -> Seq<(Seq<char>, Seq<(Seq<char>, StatView)>)> {
    v.map(|i: int, e: HeroEntry| e@)
}

/// The hero named `hero` among `entries`; where a name repeats, the last one.
pub fn hero_named<'a>(entries: &'a Vec<HeroEntry>, hero: &str) -> (r: Option<&'a HeroStats>)
    ensures
        r matches Some(s) ==> exists|i: int|
            is_last_named(heroes_view(entries@), hero@, i) && #[trigger] heroes_view(entries@)[i].1
                == s@,
        r is None ==> forall|i: int|
            0 <= i < entries@.len() ==> #[trigger] heroes_view(entries@)[i].0 != hero@,
{
    let mut i: usize = entries.len();
    while i > 0
        invariant
            i <= entries@.len(),
            forall|j: int| i <= j < entries@.len() ==> #[trigger] heroes_view(entries@)[j].0 != hero@,
        decreases i,
    {
        if crate::text::str_eq(entries[i - 1].hero.as_str(), hero) {
            assert(is_last_named(heroes_view(entries@), hero@, i - 1));
            assert(heroes_view(entries@)[i - 1].1 == entries@[i - 1].stats@);
            return Some(&entries[i - 1].stats);
        }
        i = i - 1;
    }
    None
}

/// The labelled statistic of one stat item: its `.name` text and the parsed
/// text of its `.value`.
pub open spec fn stat_item_spec(html: Seq<char>, item: u32) -> Option<(Seq<char>, StatView)> {
    match text_of_opt(html, find2_spec(html, item, ".name"@)) {
        None => None,
        Some(name) => match text_of_opt(html, find2_spec(html, item, ".value"@)) {
            None => None,
            Some(value) => match parse_stat_spec(value) {
                Some(s) => Some((name, s)),
                None => None,
            },
        },
    }
}

/// The statistics of one hero: its dropdown option names the hero and, by its
/// `value`, the stats container whose stat items hold them.
pub open spec fn hero_entry_spec(html: Seq<char>, container: u32, option: u32) -> Option<
    (Seq<char>, Seq<(Seq<char>, StatView)>),
> {
    match attribute_of(html, option, "value"@) {
        None => None,
        Some(id) => match find2_spec(html, container, ".stats-container.option-"@ + id) {
            None => None,
            Some(stats) => match collect_assoc(
                select_within(html, stats, ".stat-item"@),
                |n: u32| stat_item_spec(html, n),
            ) {
                Some(s) => Some((inner_text_of(html, option), s)),
                None => None,
            },
        },
    }
}

/// The selector of the view of one platform.
pub open spec fn platform_selector(console: bool) -> Seq<char> {
    if console {
        ".Profile-view.controller-view"@
    } else {
        ".Profile-view.mouseKeyboard-view"@
    }
}

/// The selector of the statistics of one game mode.
pub open spec fn mode_selector(quickplay: bool) -> Seq<char> {
    if quickplay {
        ".stats.quickPlay-view"@
    } else {
        ".stats.competitive-view"@
    }
}

/// The per-hero statistics of one game mode on one platform, one entry per
/// hero name (a later option replaces an earlier one of the same name). A
/// missing view, mode container or hero dropdown means no data, which is no
/// error.
pub open spec fn hero_stats_spec(html: Seq<char>, quickplay: bool, console: bool) -> Option<
    Seq<(Seq<char>, Seq<(Seq<char>, StatView)>)>,
> {
    match find_spec(html, platform_selector(console)) {
        None => Some(Seq::empty()),
        Some(view) => match find2_spec(html, view, mode_selector(quickplay)) {
            None => Some(Seq::empty()),
            Some(container) => match find2_spec(html, container, ".Profile-dropdown"@) {
                None => Some(Seq::empty()),
                Some(select) => collect_assoc(
                    select_within(html, select, "option"@),
                    |o: u32| hero_entry_spec(html, container, o),
                ),
            },
        },
    }
}

fn stat_item(page: &Page, item: u32) -> (r: Option<NamedStat>)
    ensures
        r matches Some(s) ==> stat_item_spec(page@, item) == Some(s@),
        r is None ==> stat_item_spec(page@, item) is None,
{
    let name = match find_inner_text2(page, item, ".name") {
        Some(n) => n,
        None => return None,
    };
    let value = match find_inner_text2(page, item, ".value") {
        Some(v) => v,
        None => return None,
    };
    match Stat::parse(value.as_str()) {
        Some(stat) => Some(NamedStat { name, stat }),
        None => None,
    }
}

fn stat_items(page: &Page, items: &Vec<u32>) -> (r: Option<HeroStats>)
    ensures
        r matches Some(s) ==> collect_assoc(items@, |n: u32| stat_item_spec(page@, n)) == Some(
            s@,
        ) && unique_keys(s@),
        r is None ==> collect_assoc(items@, |n: u32| stat_item_spec(page@, n)) is None,
{
    let ghost f = |n: u32| stat_item_spec(page@, n);
    let ghost mut list: Seq<(Seq<char>, StatView)> = Seq::empty();
    let mut stats: Vec<NamedStat> = Vec::new();
    let mut i: usize = 0;
    while i < items.len()
        invariant
            i <= items@.len(),
            f == (|n: u32| stat_item_spec(page@, n)),
            collect_all(items@.subrange(0, i as int), f) == Some(list),
            named_view(stats@) == assoc_from(list),
        decreases items@.len() - i,
    {
        proof {
            lemma_collect_step(items@, i as int, f);
        }
        match stat_item(page, items[i]) {
            Some(s) => {
                let ghost x = s@;
                insert_stat(&mut stats, s);
                proof {
                    lemma_assoc_from_push(list, x);
                    list = list.push(x);
                }
            },
            None => {
                proof {
                    lemma_collect_fails(items@, i + 1, f);
                }
                return None;
            },
        }
        i = i + 1;
    }
    proof {
        lemma_collect_whole(items@, f);
        lemma_assoc_from_unique(list);
    }
    Some(HeroStats { stats })
}

fn hero_entry(page: &Page, container: u32, option: u32) -> (r: Option<HeroEntry>)
    ensures
        r matches Some(e) ==> hero_entry_spec(page@, container, option) == Some(e@) && unique_keys(
            e.stats@,
        ),
        r is None ==> hero_entry_spec(page@, container, option) is None,
{
    let id = match attr(page, option, "value") {
        Some(id) => id,
        None => return None,
    };
    let mut selector = String::from_str(".stats-container.option-");
    selector.append(id.as_str());
    let stats_node = match find2(page, container, selector.as_str()) {
        Some(n) => n,
        None => return None,
    };
    let items = find_all2(page, stats_node, ".stat-item");
    let stats = match stat_items(page, &items) {
        Some(s) => s,
        None => return None,
    };
    let hero = inner_text(page, option);
    Some(HeroEntry { hero, stats })
}

/// The per-hero statistics of one game mode (`quickplay` or competitive) on
/// one platform (`console` or keyboard and mouse); see [`hero_stats_spec`].
pub fn hero_stats(page: &Page, quickplay: bool, console: bool) -> (r: Option<Vec<HeroEntry>>)
    ensures
        r matches Some(v) ==> hero_stats_spec(page@, quickplay, console) == Some(heroes_view(v@)),
        r matches Some(v) ==> stats_unique(heroes_view(v@)),
        r is None ==> hero_stats_spec(page@, quickplay, console) is None,
{
    let view_selector = if console {
        ".Profile-view.controller-view"
    } else {
        ".Profile-view.mouseKeyboard-view"
    };
    let mode = if quickplay {
        ".stats.quickPlay-view"
    } else {
        ".stats.competitive-view"
    };
    let mut heroes: Vec<HeroEntry> = Vec::new();
    assert(heroes_view(heroes@) =~= Seq::empty());
    let view = match find(page, view_selector) {
        Some(v) => v,
        None => return Some(heroes),
    };
    let container = match find2(page, view, mode) {
        Some(c) => c,
        None => return Some(heroes),
    };
    let select = match find2(page, container, ".Profile-dropdown") {
        Some(s) => s,
        None => return Some(heroes),
    };
    let options = find_all2(page, select, "option");
    let ghost f = |o: u32| hero_entry_spec(page@, container, o);
    let ghost mut list: Seq<(Seq<char>, Seq<(Seq<char>, StatView)>)> = Seq::empty();
    assert(hero_stats_spec(page@, quickplay, console) == collect_assoc(options@, f));
    let mut i: usize = 0;
    while i < options.len()
        invariant
            i <= options@.len(),
            f == (|o: u32| hero_entry_spec(page@, container, o)),
            hero_stats_spec(page@, quickplay, console) == collect_assoc(options@, f),
            collect_all(options@.subrange(0, i as int), f) == Some(list),
            heroes_view(heroes@) == assoc_from(list),
            forall|k: int|
                0 <= k < heroes_view(heroes@).len() ==> unique_keys(
                    #[trigger] heroes_view(heroes@)[k].1,
                ),
        decreases options@.len() - i,
    {
        proof {
            lemma_collect_step(options@, i as int, f);
        }
        match hero_entry(page, container, options[i]) {
            Some(e) => {
                let ghost x = e@;
                let ghost before = heroes_view(heroes@);
                insert_hero(&mut heroes, e);
                proof {
                    crate::assoc::lemma_key_index_facts(before, x.0);
                    assert forall|k: int|
                        0 <= k < heroes_view(heroes@).len() implies unique_keys(
                        #[trigger] heroes_view(heroes@)[k].1,
                    ) by {
                        if k < before.len() && heroes_view(heroes@)[k] == before[k] {
                        } else {
                            assert(heroes_view(heroes@)[k] == x);
                        }
                    }
                    lemma_assoc_from_push(list, x);
                    list = list.push(x);
                }
            },
            None => {
                proof {
                    lemma_collect_fails(options@, i + 1, f);
                }
                return None;
            },
        }
        i = i + 1;
    }
    proof {
        lemma_collect_whole(options@, f);
        lemma_assoc_from_unique(list);
    }
    Some(heroes)
}

/// The ranks of a list, as values.
pub open spec fn ranks_view(v: Seq<Rank>) -> Seq<(Group, nat, Role, bool)> {
    v.map(|i: int, r: Rank| r@)
}

/// The rank of one role wrapper: its rank icon, and its role icon (`src` on
/// keyboard-and-mouse markup, `xlink:href` on console markup).
pub open spec fn role_rank_spec(html: Seq<char>, wrapper: u32, console: bool) -> Option<
    (Group, nat, Role, bool),
> {
    let rank_url = attr_of_opt(
        html,
        find2_spec(html, wrapper, ".Profile-playerSummary--rank"@),
        "src"@,
    );
    let role_url = if console {
        attr_of_opt(html, find2_spec(html, wrapper, "[xlink:href]"@), "xlink:href"@)
    } else {
        attr_of_opt(html, find2_spec(html, wrapper, "[src]"@), "src"@)
    };
    match rank_url {
        None => None,
        Some(a) => match role_url {
            None => None,
            Some(b) => rank_from_urls_spec(a, b, console),
        },
    }
}

/// The ranks of one platform's rank wrapper; a `controller-view` class marks
/// the console one.
pub open spec fn platform_ranks_spec(html: Seq<char>, wrapper: u32) -> Option<
    Seq<(Group, nat, Role, bool)>,
> {
    let console = has_class_of(html, wrapper, "controller-view"@);
    collect_all(
        select_within(html, wrapper, ".Profile-playerSummary--roleWrapper"@),
        |w: u32| role_rank_spec(html, w, console),
    )
}

/// The ranks of every rank wrapper of the profile page, platform by
/// platform.
pub open spec fn listed_ranks_spec(html: Seq<char>) -> Option<Seq<(Group, nat, Role, bool)>> {
    collect_concat(
        select_all(html, ".Profile-playerSummary--rankWrapper"@),
        |w: u32| platform_ranks_spec(html, w),
    )
}

/// The ranks of the profile page: those listed, provided no two share a role
/// and a platform.
pub open spec fn ranks_spec(html: Seq<char>) -> Option<Seq<(Group, nat, Role, bool)>> {
    match listed_ranks_spec(html) {
        Some(v) => if one_rank_per_role(v) {
            Some(v)
        } else {
            None
        },
        None => None,
    }
}

fn role_rank(page: &Page, wrapper: u32, console: bool) -> (r: Option<Rank>)
    ensures
        r matches Some(x) ==> role_rank_spec(page@, wrapper, console) == Some(x@),
        r is None ==> role_rank_spec(page@, wrapper, console) is None,
{
    let rank_url = match find_attr2(page, wrapper, ".Profile-playerSummary--rank", "src") {
        Some(u) => u,
        None => return None,
    };
    let role_url = if console {
        find_attr2(page, wrapper, "[xlink:href]", "xlink:href")
    } else {
        find_attr2(page, wrapper, "[src]", "src")
    };
    match role_url {
        Some(role_url) => rank_from_urls(rank_url.as_str(), role_url.as_str(), console),
        None => None,
    }
}

fn platform_ranks(page: &Page, wrapper: u32) -> (r: Option<Vec<Rank>>)
    ensures
        r matches Some(v) ==> platform_ranks_spec(page@, wrapper) == Some(ranks_view(v@)),
        r is None ==> platform_ranks_spec(page@, wrapper) is None,
{
    let console = has_class(page, wrapper, "controller-view");
    let roles = find_all2(page, wrapper, ".Profile-playerSummary--roleWrapper");
    let ghost f = |w: u32| role_rank_spec(page@, w, console);
    assert(platform_ranks_spec(page@, wrapper) == collect_all(roles@, f));
    let mut ranks: Vec<Rank> = Vec::new();
    let mut i: usize = 0;
    while i < roles.len()
        invariant
            i <= roles@.len(),
            f == (|w: u32| role_rank_spec(page@, w, console)),
            platform_ranks_spec(page@, wrapper) == collect_all(roles@, f),
            collect_all(roles@.subrange(0, i as int), f) == Some(ranks_view(ranks@)),
        decreases roles@.len() - i,
    {
        proof {
            lemma_collect_step(roles@, i as int, f);
        }
        match role_rank(page, roles[i], console) {
            Some(x) => {
                let ghost before = ranks@;
                ranks.push(x);
                assert(ranks_view(ranks@) =~= ranks_view(before).push(x@));
            },
            None => {
                proof {
                    lemma_collect_fails(roles@, i + 1, f);
                }
                return None;
            },
        }
        i = i + 1;
    }
    proof {
        lemma_collect_whole(roles@, f);
    }
    Some(ranks)
}

/// Every rank of the profile page; see [`ranks_spec`]. Any rank whose group,
/// division or role is not recognised fails the whole list, and so do two
/// ranks for the same role and platform.
pub fn ranks(page: &Page) -> (r: Option<Vec<Rank>>)
    ensures
        r matches Some(v) ==> ranks_spec(page@) == Some(ranks_view(v@)),
        r matches Some(v) ==> one_rank_per_role(ranks_view(v@)),
        r is None ==> ranks_spec(page@) is None,
{
    let wrappers = find_all(page, ".Profile-playerSummary--rankWrapper");
    let ghost f = |w: u32| platform_ranks_spec(page@, w);
    let mut ranks: Vec<Rank> = Vec::new();
    let mut i: usize = 0;
    while i < wrappers.len()
        invariant
            i <= wrappers@.len(),
            f == (|w: u32| platform_ranks_spec(page@, w)),
            listed_ranks_spec(page@) == collect_concat(wrappers@, f),
            collect_concat(wrappers@.subrange(0, i as int), f) == Some(ranks_view(ranks@)),
        decreases wrappers@.len() - i,
    {
        proof {
            lemma_concat_step(wrappers@, i as int, f);
        }
        match platform_ranks(page, wrappers[i]) {
            Some(mut more) => {
                let ghost before = ranks@;
                let ghost added = more@;
                ranks.append(&mut more);
                assert(ranks_view(ranks@) =~= ranks_view(before) + ranks_view(added));
            },
            None => {
                proof {
                    lemma_concat_fails(wrappers@, i + 1, f);
                }
                return None;
            },
        }
        i = i + 1;
    }
    proof {
        lemma_concat_whole(wrappers@, f);
    }
    if has_one_rank_per_role(&ranks) {
        Some(ranks)
    } else {
        None
    }
}

/// Whether the page is a private profile: it shows the private marker.
pub open spec fn is_private_spec(html: Seq<char>) -> bool {
    find_spec(html, ".Profile-player--privateText"@) is Some
}

/// The endorsement level the page shows.
pub open spec fn endorsement_spec(html: Seq<char>) -> Option<nat> {
    match attr_of_opt(html, find_spec(html, ".Profile-playerSummary--endorsement"@), "src"@) {
        Some(u) => endorsement_from_url_spec(u),
        None => None,
    }
}

/// The URL of the page's portrait, normalised.
pub open spec fn portrait_spec(html: Seq<char>) -> Option<Seq<char>> {
    match attr_of_opt(html, find_spec(html, ".Profile-player--portrait"@), "src"@) {
        Some(u) => parsed_url(u),
        None => None,
    }
}

/// When the profile was last updated, in seconds since the epoch.
pub open spec fn last_update_spec(html: Seq<char>) -> Option<int> {
    match attr_of_opt(html, find_spec(html, ".Profile-masthead"@), "data-lastUpdate"@) {
        Some(t) => timestamp_spec(t),
        None => None,
    }
}

/// The player's title, where the page shows one.
pub open spec fn title_spec(html: Seq<char>) -> Option<Seq<char>> {
    text_of_opt(html, find_spec(html, ".Profile-player--title"@))
}

/// The endorsement level of the profile page.
pub fn endorsement(page: &Page) -> (r: Option<Endorsement>)
    ensures
        r matches Some(e) ==> endorsement_spec(page@) == Some(e@),
        r is None ==> endorsement_spec(page@) is None,
{
    match find_attr(page, ".Profile-playerSummary--endorsement", "src") {
        Some(u) => endorsement_from_url(u.as_str()),
        None => None,
    }
}

/// The portrait URL of the profile page.
pub fn portrait(page: &Page) -> (r: Option<String>)
    ensures
        r matches Some(u) ==> portrait_spec(page@) == Some(u@),
        r is None ==> portrait_spec(page@) is None,
{
    match find_attr(page, ".Profile-player--portrait", "src") {
        Some(u) => url_from_text(u.as_str()),
        None => None,
    }
}

/// When the profile was last updated, in seconds since the epoch.
pub fn last_update(page: &Page) -> (r: Option<i64>)
    ensures
        r matches Some(t) ==> last_update_spec(page@) == Some(t as int),
        r is None ==> last_update_spec(page@) is None,
{
    match find_attr(page, ".Profile-masthead", "data-lastUpdate") {
        Some(t) => parse_timestamp(t.as_str()),
        None => None,
    }
}

/// A player's profile: summary fields, ranks, and the per-hero statistics of
/// each game mode on each platform.
pub struct PlayerProfile {
    pub battletag: Battletag,
    pub title: Option<String>,
    pub endorsement: Endorsement,
    pub portrait: String,
    pub ranks: Vec<Rank>,
    pub private: bool,
    pub last_updated: i64,
    pub quickplay_console: Vec<HeroEntry>,
    pub competitive_console: Vec<HeroEntry>,
    pub quickplay_pc: Vec<HeroEntry>,
    pub competitive_pc: Vec<HeroEntry>,
}

/// The statistics of one mode and platform: none on a private profile.
pub open spec fn visible_stats_spec(html: Seq<char>, quickplay: bool, console: bool) -> Option<
    Seq<(Seq<char>, Seq<(Seq<char>, StatView)>)>,
> {
    if is_private_spec(html) {
        Some(Seq::empty())
    } else {
        hero_stats_spec(html, quickplay, console)
    }
}

/// Whether every required part of the profile page can be read.
pub open spec fn profile_readable(html: Seq<char>) -> bool {
    &&& endorsement_spec(html) is Some
    &&& portrait_spec(html) is Some
    &&& ranks_spec(html) is Some
    &&& last_update_spec(html) is Some
    &&& visible_stats_spec(html, true, true) is Some
    &&& visible_stats_spec(html, false, true) is Some
    &&& visible_stats_spec(html, true, false) is Some
    &&& visible_stats_spec(html, false, false) is Some
}

/// Whether `p` is the profile that the page `html` shows for `btag`.
pub open spec fn profile_matches(html: Seq<char>, btag: (Seq<char>, u64), p: PlayerProfile) -> bool {
    &&& p.battletag@ == btag
    &&& p.private == is_private_spec(html)
    &&& crate::asset::opt_text(p.title) == title_spec(html)
    &&& endorsement_spec(html) == Some(p.endorsement@)
    &&& portrait_spec(html) == Some(p.portrait@)
    &&& ranks_spec(html) == Some(ranks_view(p.ranks@))
    &&& last_update_spec(html) == Some(p.last_updated as int)
    &&& visible_stats_spec(html, true, true) == Some(heroes_view(p.quickplay_console@))
    &&& visible_stats_spec(html, false, true) == Some(heroes_view(p.competitive_console@))
    &&& visible_stats_spec(html, true, false) == Some(heroes_view(p.quickplay_pc@))
    &&& visible_stats_spec(html, false, false) == Some(heroes_view(p.competitive_pc@))
}

fn visible_stats(page: &Page, private: bool, quickplay: bool, console: bool) -> (r: Option<
    Vec<HeroEntry>,
>)
    requires
        private == is_private_spec(page@),
    ensures
        r matches Some(v) ==> visible_stats_spec(page@, quickplay, console) == Some(
            heroes_view(v@),
        ),
        r matches Some(v) ==> stats_unique(heroes_view(v@)),
        r is None ==> visible_stats_spec(page@, quickplay, console) is None,
{
    if private {
        let v: Vec<HeroEntry> = Vec::new();
        assert(heroes_view(v@) =~= Seq::empty());
        Some(v)
    } else {
        hero_stats(page, quickplay, console)
    }
}

/// Reads the profile of `btag` from its career page. All or nothing: any
/// required part that is missing or malformed gives [`Error::Parse`]. The
/// title is optional, and a private profile has no statistics.
pub fn profile(page: &Page, btag: &Battletag) -> (r: Result<PlayerProfile, Error>)
    ensures
        r is Ok <==> profile_readable(page@),
        r matches Ok(p) ==> profile_matches(page@, btag@, p),
        r matches Ok(p) ==> one_rank_per_role(ranks_view(p.ranks@)),
        r matches Ok(p) ==> stats_unique(heroes_view(p.quickplay_console@)) && stats_unique(
            heroes_view(p.competitive_console@),
        ) && stats_unique(heroes_view(p.quickplay_pc@)) && stats_unique(
            heroes_view(p.competitive_pc@),
        ),
        r matches Err(e) ==> e == Error::Parse,
{
    let private = find(page, ".Profile-player--privateText").is_some();
    let quickplay_console = visible_stats(page, private, true, true);
    let competitive_console = visible_stats(page, private, false, true);
    let quickplay_pc = visible_stats(page, private, true, false);
    let competitive_pc = visible_stats(page, private, false, false);
    let title = find_inner_text(page, ".Profile-player--title");
    let endorsement = endorsement(page);
    let portrait = portrait(page);
    let ranks = ranks(page);
    let last_updated = last_update(page);
    match (endorsement, portrait, ranks, last_updated) {
        (Some(endorsement), Some(portrait), Some(ranks), Some(last_updated)) => {
            match (quickplay_console, competitive_console, quickplay_pc, competitive_pc) {
                (Some(qc), Some(cc), Some(qp), Some(cp)) => Ok(PlayerProfile {
                    battletag: btag.duplicate(),
                    title,
                    endorsement,
                    portrait,
                    ranks,
                    private,
                    last_updated,
                    quickplay_console: qc,
                    competitive_console: cc,
                    quickplay_pc: qp,
                    competitive_pc: cp,
                }),
                _ => Err(Error::Parse),
            }
        },
        _ => Err(Error::Parse),
    }
}

impl NamedStat {
    /// A copy of this statistic.
    pub fn duplicate(&self) -> (r: NamedStat)
        ensures
            r@ == self@,
    {
        NamedStat { name: self.name.clone(), stat: self.stat.duplicate() }
    }
}

impl HeroStats {
    /// A copy of these statistics.
    pub fn duplicate(&self) -> (r: HeroStats)
        ensures
            r@ == self@,
    {
        let mut stats: Vec<NamedStat> = Vec::new();
        let mut i: usize = 0;
        while i < self.stats.len()
            invariant
                i <= self.stats@.len(),
                stats@.len() == i,
                stats@.map(|k: int, s: NamedStat| s@) =~= self@.subrange(0, i as int),
            decreases self.stats@.len() - i,
        {
            let ghost before = stats@;
            let s = self.stats[i].duplicate();
            stats.push(s);
            assert(stats@.map(|k: int, s: NamedStat| s@) =~= before.map(|k: int, s: NamedStat| s@).push(
                self@[i as int],
            ));
            i = i + 1;
        }
        HeroStats { stats }
    }
}

impl HeroEntry {
    /// A copy of this hero's statistics.
    pub fn duplicate(&self) -> (r: HeroEntry)
        ensures
            r@ == self@,
    {
        HeroEntry { hero: self.hero.clone(), stats: self.stats.duplicate() }
    }
}

/// A copy of the statistics of every hero of one mode and platform.
pub fn copy_heroes(v: &Vec<HeroEntry>) -> (r: Vec<HeroEntry>)
    ensures
        heroes_view(r@) == heroes_view(v@),
{
    let mut out: Vec<HeroEntry> = Vec::new();
    let mut i: usize = 0;
    while i < v.len()
        invariant
            i <= v@.len(),
            out@.len() == i,
            heroes_view(out@) =~= heroes_view(v@).subrange(0, i as int),
        decreases v@.len() - i,
    {
        let ghost before = out@;
        let e = v[i].duplicate();
        out.push(e);
        assert(heroes_view(out@) =~= heroes_view(before).push(heroes_view(v@)[i as int]));
        i = i + 1;
    }
    assert(heroes_view(v@).subrange(0, v@.len() as int) =~= heroes_view(v@));
    out
}

impl PlayerProfile {
    /// A copy of this profile.
    pub fn duplicate(&self) -> (r: PlayerProfile)
        ensures
            r.battletag@ == self.battletag@,
            crate::asset::opt_text(r.title) == crate::asset::opt_text(self.title),
            r.endorsement == self.endorsement,
            r.portrait@ == self.portrait@,
            r.ranks@ == self.ranks@,
            r.private == self.private,
            r.last_updated == self.last_updated,
            heroes_view(r.quickplay_console@) == heroes_view(self.quickplay_console@),
            heroes_view(r.competitive_console@) == heroes_view(self.competitive_console@),
            heroes_view(r.quickplay_pc@) == heroes_view(self.quickplay_pc@),
            heroes_view(r.competitive_pc@) == heroes_view(self.competitive_pc@),
    {
        PlayerProfile {
            battletag: self.battletag.duplicate(),
            title: crate::asset::copy_opt_string(&self.title),
            endorsement: self.endorsement,
            portrait: self.portrait.clone(),
            ranks: crate::client::copy_ranks(&self.ranks),
            private: self.private,
            last_updated: self.last_updated,
            quickplay_console: copy_heroes(&self.quickplay_console),
            competitive_console: copy_heroes(&self.competitive_console),
            quickplay_pc: copy_heroes(&self.quickplay_pc),
            competitive_pc: copy_heroes(&self.competitive_pc),
        }
    }
}

} // verus!
