//! The decisions of the client: what a reduced profile holds, when the
//! secondary ranking site must be consulted, and how its ranks are merged.
//!
//! The client fetches pages itself; these functions decide what to do with
//! what came back.
use vstd::prelude::*;

use crate::asset::{copy_opt_string, opt_text};
use crate::btag::Battletag;
use crate::error::Error;
use crate::overbuff::Overbuff;
use crate::profile::{heroes_view, is_private_spec, profile_matches, PlayerProfile};
use crate::rank::{Endorsement, Rank};

verus! {

/// A profile without its per-hero statistics.
pub struct PlayerProfileReduced {
    pub battletag: Battletag,
    pub title: Option<String>,
    pub endorsement: Endorsement,
    pub portrait: String,
    pub ranks: Vec<Rank>,
    pub private: bool,
    pub last_updated: i64,
}

/// A copy of a list of ranks.
pub fn copy_ranks(v: &Vec<Rank>) -> (r: Vec<Rank>)
    ensures
        r@ == v@,
{
    let mut out: Vec<Rank> = Vec::new();
    let mut i: usize = 0;
    while i < v.len()
        invariant
            i <= v@.len(),
            out@ == v@.subrange(0, i as int),
        decreases v@.len() - i,
    {
        out.push(v[i]);
        assert(out@ =~= v@.subrange(0, i + 1));
        i = i + 1;
    }
    assert(v@.subrange(0, v@.len() as int) =~= v@);
    out
}

/// Whether `s` is the summary of `p`: every field of `p` but the statistics.
pub open spec fn summarizes(s: PlayerProfileReduced, p: PlayerProfile) -> bool {
    &&& s.battletag@ == p.battletag@
    &&& opt_text(s.title) == opt_text(p.title)
    &&& s.endorsement == p.endorsement
    &&& s.portrait@ == p.portrait@
    &&& s.ranks@ == p.ranks@
    &&& s.private == p.private
    &&& s.last_updated == p.last_updated
}

impl PlayerProfileReduced {
    /// The summary of `p`: every field but the statistics.
    pub fn from_profile(p: &PlayerProfile) -> (r: PlayerProfileReduced)
        ensures
            summarizes(r, *p),
    {
        PlayerProfileReduced {
            battletag: p.battletag.duplicate(),
            title: copy_opt_string(&p.title),
            endorsement: p.endorsement,
            portrait: p.portrait.clone(),
            ranks: copy_ranks(&p.ranks),
            private: p.private,
            last_updated: p.last_updated,
        }
    }
}

/// Whether the summary of `p` must take its ranks from the secondary site:
/// the profile is private, or shows no rank.
pub open spec fn needs_fallback_spec(private: bool, ranks: Seq<Rank>) -> bool {
    private || ranks.len() == 0
}

/// Whether the summary of a profile must take its ranks from the secondary
/// ranking site.
pub fn needs_fallback(p: &PlayerProfileReduced) -> (r: bool)
    ensures
        r == needs_fallback_spec(p.private, p.ranks@),
{
    p.private || p.ranks.len() == 0
}

/// What the client does after reading the primary profile for its summary.
pub enum LookupStep {
    /// Fetch the secondary site's ranks and merge them into this summary.
    FetchSecondary(PlayerProfileReduced),
    /// Answer with this summary.
    Finished(PlayerProfileReduced),
}

/// Reduces a freshly read (or cached) profile and decides whether the
/// secondary ranking site must be consulted.
pub fn after_primary(p: &PlayerProfile) -> (r: LookupStep)
    ensures
        match r {
            LookupStep::FetchSecondary(s) => needs_fallback_spec(p.private, p.ranks@) && summarizes(
                s,
                *p,
            ),
            LookupStep::Finished(s) => !needs_fallback_spec(p.private, p.ranks@) && summarizes(
                s,
                *p,
            ),
        },
{
    let reduced = PlayerProfileReduced::from_profile(p);
    if needs_fallback(&reduced) {
        LookupStep::FetchSecondary(reduced)
    } else {
        LookupStep::Finished(reduced)
    }
}

/// Merges what the secondary ranking site gave: its ranks replace the
/// summary's. Its failure is not the caller's: the summary is then returned
/// as it was.
pub fn after_secondary(p: PlayerProfileReduced, secondary: Result<Overbuff, Error>) -> (r:
    PlayerProfileReduced)
    ensures
        r.battletag@ == p.battletag@,
        opt_text(r.title) == opt_text(p.title),
        r.endorsement == p.endorsement,
        r.portrait@ == p.portrait@,
        r.private == p.private,
        r.last_updated == p.last_updated,
        r.ranks@ == (match secondary {
            Ok(o) => o.ranks@,
            Err(_) => p.ranks@,
        }),
{
    match secondary {
        Ok(o) => PlayerProfileReduced { ranks: o.ranks, ..p },
        Err(_) => p,
    }
}

/// A profile read from a private page has no statistics in any mode or on
/// any platform, and its summary must take its ranks from the secondary
/// ranking site.
pub proof fn lemma_private_profile_falls_back(html: Seq<char>, btag: (Seq<char>, u64), p: PlayerProfile)
    requires
        profile_matches(html, btag, p),
        is_private_spec(html),
    ensures
        p.private,
        heroes_view(p.quickplay_console@).len() == 0,
        heroes_view(p.competitive_console@).len() == 0,
        heroes_view(p.quickplay_pc@).len() == 0,
        heroes_view(p.competitive_pc@).len() == 0,
        needs_fallback_spec(p.private, p.ranks@),
{
}

} // verus!
