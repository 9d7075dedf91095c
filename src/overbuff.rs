//! Extraction of a player's ranks from the secondary ranking site, used when
//! the primary profile has none to offer.
use vstd::prelude::*;

use crate::collect::{collect_all, lemma_collect_fails, lemma_collect_step, lemma_collect_whole};
use crate::dom::{
    attr_of_opt, find2, find2_spec, find_all, find_all2, find_attr2, inner_html_len,
    inner_html_len_of, select_all, select_within, Page,
};
use crate::error::Error;
use crate::profile::ranks_view;
use crate::rank::{
    has_one_rank_per_role, one_rank_per_role, secondary_rank, secondary_rank_spec, Group, Rank,
    Role,
};

verus! {

/// The ranks that the secondary ranking site shows for a player.
pub struct Overbuff {
    pub ranks: Vec<Rank>,
}

impl Overbuff {
    /// A copy of these ranks.
    pub fn duplicate(&self) -> (r: Overbuff)
        ensures
            r.ranks@ == self.ranks@,
    {
        Overbuff { ranks: crate::client::copy_ranks(&self.ranks) }
    }
}

/// The rank of one row: the role by the byte length of its `svg` icon's
/// inner markup, the group and division from its `img`'s `alt` text.
pub open spec fn secondary_row_spec(html: Seq<char>, row: u32) -> Option<(Group, nat, Role, bool)> {
    match find2_spec(html, row, "svg"@) {
        None => None,
        Some(svg) => match attr_of_opt(html, find2_spec(html, row, "img"@), "alt"@) {
            None => None,
            Some(alt) => secondary_rank_spec(inner_html_len_of(html, svg), alt),
        },
    }
}

/// The layout containers of the ranking site's page; the ranks are in the
/// second one.
pub open spec fn rank_containers(html: Seq<char>) -> Seq<u32> {
    select_all(html, "div.flex.flex-row.justify-end.gap-x-4"@)
}

/// The ranks of every row of the ranking site's page.
pub open spec fn secondary_rows_spec(html: Seq<char>) -> Option<Seq<(Group, nat, Role, bool)>> {
    let containers = rank_containers(html);
    if containers.len() > 1 {
        collect_all(
            select_within(html, containers[1], "div.flex"@),
            |r: u32| secondary_row_spec(html, r),
        )
    } else {
        None
    }
}

/// Every rank of the ranking site's page, row by row, provided no two share a
/// role.
pub open spec fn overbuff_spec(html: Seq<char>) -> Option<Seq<(Group, nat, Role, bool)>> {
    match secondary_rows_spec(html) {
        Some(v) => if one_rank_per_role(v) {
            Some(v)
        } else {
            None
        },
        None => None,
    }
}

fn secondary_row(page: &Page, row: u32) -> (r: Option<Rank>)
    ensures
        r matches Some(x) ==> secondary_row_spec(page@, row) == Some(x@),
        r is None ==> secondary_row_spec(page@, row) is None,
{
    let svg = match find2(page, row, "svg") {
        Some(s) => s,
        None => return None,
    };
    let len = inner_html_len(page, svg);
    match find_attr2(page, row, "img", "alt") {
        Some(alt) => secondary_rank(len, alt.as_str()),
        None => None,
    }
}

/// Reads the ranks from the secondary ranking site's player page; see
/// [`overbuff_spec`]. A row whose icon or label is not recognised fails the
/// whole page, and so do two rows for the same role.
pub fn overbuff(page: &Page) -> (r: Result<Overbuff, Error>)
    ensures
        r is Ok <==> overbuff_spec(page@) is Some,
        r matches Ok(o) ==> overbuff_spec(page@) == Some(ranks_view(o.ranks@)),
        r matches Ok(o) ==> one_rank_per_role(ranks_view(o.ranks@)),
        r matches Err(e) ==> e == Error::Parse,
{
    let containers = find_all(page, "div.flex.flex-row.justify-end.gap-x-4");
    if containers.len() < 2 {
        return Err(Error::Parse);
    }
    let rows = find_all2(page, containers[1], "div.flex");
    let ghost f = |r: u32| secondary_row_spec(page@, r);
    let mut ranks: Vec<Rank> = Vec::new();
    let mut i: usize = 0;
    while i < rows.len()
        invariant
            i <= rows@.len(),
            f == (|r: u32| secondary_row_spec(page@, r)),
            secondary_rows_spec(page@) == collect_all(rows@, f),
            collect_all(rows@.subrange(0, i as int), f) == Some(ranks_view(ranks@)),
        decreases rows@.len() - i,
    {
        proof {
            lemma_collect_step(rows@, i as int, f);
        }
        match secondary_row(page, rows[i]) {
            Some(x) => {
                let ghost before = ranks@;
                ranks.push(x);
                assert(ranks_view(ranks@) =~= ranks_view(before).push(x@));
            },
            None => {
                proof {
                    lemma_collect_fails(rows@, i + 1, f);
                }
                return Err(Error::Parse);
            },
        }
        i = i + 1;
    }
    proof {
        lemma_collect_whole(rows@, f);
    }
    if has_one_rank_per_role(&ranks) {
        Ok(Overbuff { ranks })
    } else {
        Err(Error::Parse)
    }
}

} // verus!
