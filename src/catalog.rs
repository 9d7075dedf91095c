//! Locating the asset catalog in the search page. The page declares the
//! catalogs as script constants (`const avatars = {...}`); the second, third
//! and fourth `const ` declarations hold the avatars, namecards and titles.
//! This module finds the JSON text of each; decoding it is the caller's.
use vstd::prelude::*;
use vstd::string::*;

use crate::text::chars_of;

verus! {

/// Whether `s` holds `pat` at index `i`.
pub open spec fn matches_at(s: Seq<char>, pat: Seq<char>, i: int) -> bool {
    0 <= i && i + pat.len() <= s.len() && s.subrange(i, i + pat.len()) == pat
}

/// The first index in `from..` at which `pat` lies wholly before `to`.
pub open spec fn find_in(s: Seq<char>, pat: Seq<char>, from: int, to: int) -> Option<int>
    decreases to - from,
{
    if from < 0 || from >= to || from + pat.len() > to || to > s.len() {
        None
    } else if matches_at(s, pat, from) {
        Some(from)
    } else {
        find_in(s, pat, from + 1, to)
    }
}

/// Where the `k`-th (from zero) non-overlapping `pat` in `s` starts.
pub open spec fn occurrence(s: Seq<char>, pat: Seq<char>, k: nat) -> Option<int>
    decreases k,
{
    if k == 0 {
        find_in(s, pat, 0, s.len() as int)
    } else {
        match occurrence(s, pat, (k - 1) as nat) {
            Some(i) => find_in(s, pat, i + pat.len(), s.len() as int),
            None => None,
        }
    }
}

/// Whether `c` is white space, as Unicode defines it.
pub open spec fn is_white_space(c: char) -> bool {
    ('\u{9}' <= c && c <= '\u{d}') || c == ' ' || c == '\u{85}' || c == '\u{a0}' || c
        == '\u{1680}' || ('\u{2000}' <= c && c <= '\u{200a}') || c == '\u{2028}' || c
        == '\u{2029}' || c == '\u{202f}' || c == '\u{205f}' || c == '\u{3000}'
}

/// The start of `s[a..b]` without its leading white space.
pub open spec fn trim_lo(s: Seq<char>, a: int, b: int) -> int
    decreases b - a,
{
    if a < b && 0 <= a < s.len() && is_white_space(s[a]) {
        trim_lo(s, a + 1, b)
    } else {
        a
    }
}

/// The end of `s[a..b]` without its trailing white space.
pub open spec fn trim_hi(s: Seq<char>, a: int, b: int) -> int
    decreases b - a,
{
    if a < b && 0 <= b - 1 < s.len() && is_white_space(s[b - 1]) {
        trim_hi(s, a, b - 1)
    } else {
        b
    }
}

/// The JSON text of the declaration that follows the `k`-th `const `
/// (counting from one, so `k = 2` is the second): the text between its first `=` and the next `=` (or its end), without
/// surrounding white space, and cut at the first `</script>`.
pub open spec fn catalog_json_spec(s: Seq<char>, k: nat) -> Option<Seq<char>> {
    let kw = "const "@;
    match occurrence(s, kw, (k - 1) as nat) {
        None => None,
        Some(prev) => {
            let start = prev + kw.len();
            let end = match occurrence(s, kw, k) {
                Some(i) => i,
                None => s.len() as int,
            };
            match find_in(s, "="@, start, end) {
                None => None,
                Some(e1) => {
                    let e2 = match find_in(s, "="@, e1 + 1, end) {
                        Some(e) => e,
                        None => end,
                    };
                    let a = trim_lo(s, e1 + 1, e2);
                    let b = trim_hi(s, a, e2);
                    let c = match find_in(s, "</script>"@, a, b) {
                        Some(c) => c,
                        None => b,
                    };
                    Some(s.subrange(a, c))
                },
            }
        },
    }
}

fn matches_at_exec(s: &Vec<char>, pat: &Vec<char>, i: usize) -> (r: bool)
    requires
        i + pat@.len() <= s@.len(),
    ensures
        r == matches_at(s@, pat@, i as int),
{
    let n = s.len();
    let mut j: usize = 0;
    while j < pat.len()
        invariant
            n == s@.len(),
            i + pat@.len() <= s@.len(),
            j <= pat@.len(),
            forall|k: int| 0 <= k < j ==> s@[i + k] == pat@[k],
        decreases pat@.len() - j,
    {
        if s[i + j] != pat[j] {
            assert(s@.subrange(i as int, i + pat@.len())[j as int] != pat@[j as int]);
            return false;
        }
        j = j + 1;
    }
    assert(s@.subrange(i as int, i + pat@.len()) =~= pat@);
    true
}

fn find_in_exec(s: &Vec<char>, pat: &Vec<char>, from: usize, to: usize) -> (r: Option<usize>)
    requires
        from <= to <= s@.len(),
        pat@.len() > 0,
    ensures
        r matches Some(i) ==> find_in(s@, pat@, from as int, to as int) == Some(i as int),
        r is None ==> find_in(s@, pat@, from as int, to as int) is None,
{
    let m = pat.len();
    if m > to {
        return None;
    }
    let last = to - m;
    let mut i: usize = from;
    while i <= last
        invariant
            from <= i,
            m == pat@.len(),
            m > 0,
            last == to - m,
            to <= s@.len(),
            find_in(s@, pat@, from as int, to as int) == find_in(s@, pat@, i as int, to as int),
        decreases last + 1 - i,
    {
        if matches_at_exec(s, pat, i) {
            return Some(i);
        }
        i = i + 1;
    }
    None
}

fn white_space(c: char) -> (r: bool)
    ensures
        r == is_white_space(c),
{
    ('\u{9}' <= c && c <= '\u{d}') || c == ' ' || c == '\u{85}' || c == '\u{a0}' || c
        == '\u{1680}' || ('\u{2000}' <= c && c <= '\u{200a}') || c == '\u{2028}' || c
        == '\u{2029}' || c == '\u{202f}' || c == '\u{205f}' || c == '\u{3000}'
}

fn occurrences(s: &Vec<char>, pat: &Vec<char>, count: usize) -> (r: Vec<Option<usize>>)
    requires
        pat@.len() > 0,
    ensures
        r@.len() == count,
        forall|k: int|
            0 <= k < count ==> (#[trigger] r@[k] matches Some(i) ==> occurrence(s@, pat@, k as nat)
                == Some(i as int)) && (r@[k] is None ==> occurrence(s@, pat@, k as nat) is None),
{
    let mut out: Vec<Option<usize>> = Vec::new();
    let mut next: Option<usize> = Some(0);
    let mut k: usize = 0;
    while k < count
        invariant
            pat@.len() > 0,
            k <= count,
            out@.len() == k,
            forall|j: int|
                0 <= j < k ==> (#[trigger] out@[j] matches Some(i) ==> occurrence(
                    s@,
                    pat@,
                    j as nat,
                ) == Some(i as int)) && (out@[j] is None ==> occurrence(s@, pat@, j as nat) is None),
            k == 0 ==> next == Some(0usize),
            k > 0 ==> (match out@[k - 1] {
                Some(i) => next matches Some(n) && n == i + pat@.len() && n <= s@.len(),
                None => next is None,
            }),
        decreases count - k,
    {
        let found = match next {
            Some(from) => find_in_exec(s, pat, from, s.len()),
            None => None,
        };
        proof {
            if k > 0 {
                assert(occurrence(s@, pat@, k as nat) == match occurrence(
                    s@,
                    pat@,
                    (k - 1) as nat,
                ) {
                    Some(i) => find_in(s@, pat@, i + pat@.len(), s@.len() as int),
                    None => None,
                });
            }
        }
        out.push(found);
        next = match found {
            Some(i) => {
                proof {
                    lemma_find_in_bounds(s@, pat@, next->0 as int, s@.len() as int);
                }
                Some(i + pat.len())
            },
            None => None,
        };
        k = k + 1;
    }
    out
}

proof fn lemma_find_in_bounds(s: Seq<char>, pat: Seq<char>, from: int, to: int)
    ensures
        find_in(s, pat, from, to) matches Some(i) ==> from <= i && i + pat.len() <= to && to
            <= s.len(),
    decreases to - from,
{
    if !(from < 0 || from >= to || from + pat.len() > to || to > s.len()) && !matches_at(
        s,
        pat,
        from,
    ) {
        lemma_find_in_bounds(s, pat, from + 1, to);
    }
}

proof fn lemma_occurrence_bounds(s: Seq<char>, pat: Seq<char>, k: nat)
    ensures
        occurrence(s, pat, k) matches Some(i) ==> 0 <= i && i + pat.len() <= s.len(),
    decreases k,
{
    if k == 0 {
        lemma_find_in_bounds(s, pat, 0, s.len() as int);
    } else {
        lemma_occurrence_bounds(s, pat, (k - 1) as nat);
        if let Some(i) = occurrence(s, pat, (k - 1) as nat) {
            lemma_find_in_bounds(s, pat, i + pat.len(), s.len() as int);
        }
    }
}

fn trim_bounds(s: &Vec<char>, a: usize, b: usize) -> (r: (usize, usize))
    requires
        a <= b <= s@.len(),
    ensures
        r.0 == trim_lo(s@, a as int, b as int),
        r.1 == trim_hi(s@, r.0 as int, b as int),
        a <= r.0 <= r.1 <= b,
{
    let mut lo = a;
    while lo < b && white_space(s[lo])
        invariant
            a <= lo <= b,
            b <= s@.len(),
            trim_lo(s@, a as int, b as int) == trim_lo(s@, lo as int, b as int),
        decreases b - lo,
    {
        lo = lo + 1;
    }
    let mut hi = b;
    while hi > lo && white_space(s[hi - 1])
        invariant
            lo <= hi <= b,
            b <= s@.len(),
            trim_hi(s@, lo as int, b as int) == trim_hi(s@, lo as int, hi as int),
        decreases hi - lo,
    {
        hi = hi - 1;
    }
    (lo, hi)
}

/// The JSON text of the avatars, namecards and titles catalogs, in that
/// order; see [`catalog_json_spec`]. `None` where any of them cannot be found.
pub fn catalog_sections(html: &str) -> (r: Option<Vec<String>>)
    ensures
        r matches Some(v) ==> v@.len() == 3 && forall|k: int|
            0 <= k < 3 ==> catalog_json_spec(html@, (k + 2) as nat) == Some(#[trigger] v@[k]@),
        r is None ==> exists|k: int|
            2 <= k < 5 && #[trigger] catalog_json_spec(html@, k as nat) is None,
{
    proof {
        reveal_strlit("const ");
        reveal_strlit("=");
        reveal_strlit("</script>");
    }
    let s = chars_of(html);
    let kw = chars_of("const ");
    let eq = chars_of("=");
    let close = chars_of("</script>");
    let occ = occurrences(&s, &kw, 5);
    let sn = s.len();
    let mut out: Vec<String> = Vec::new();
    let mut k: usize = 2;
    while k < 5
        invariant
            2 <= k <= 5,
            sn == s@.len(),
            out@.len() == k - 2,
            s@ == html@,
            kw@ == "const "@,
            eq@ == "="@,
            close@ == "</script>"@,
            kw@.len() == 6,
            eq@.len() == 1,
            close@.len() == 9,
            occ@.len() == 5,
            forall|j: int|
                0 <= j < 5 ==> (#[trigger] occ@[j] matches Some(i) ==> occurrence(
                    s@,
                    kw@,
                    j as nat,
                ) == Some(i as int)) && (occ@[j] is None ==> occurrence(s@, kw@, j as nat) is None),
            forall|j: int|
                0 <= j < k - 2 ==> catalog_json_spec(html@, (j + 2) as nat) == Some(
                    #[trigger] out@[j]@,
                ),
        decreases 5 - k,
    {
        let prev = match occ[k - 1] {
            Some(p) => p,
            None => {
                assert(occ@[k - 1] is None);
                let ghost kk: int = k as int;
                assert(catalog_json_spec(html@, kk as nat) is None);
                assert(2 <= kk < 5);
                return None;
            },
        };
        proof {
            assert(occ@[k - 1] == Some(prev));
            assert(occurrence(s@, kw@, (k - 1) as nat) == Some(prev as int));
            lemma_occurrence_bounds(s@, kw@, (k - 1) as nat);
            lemma_occurrence_bounds(s@, kw@, k as nat);
        }
        let start = prev + kw.len();
        let end = match occ[k] {
            Some(i) => i,
            None => s.len(),
        };
        proof {
            assert(occurrence(s@, kw@, k as nat) == find_in(s@, kw@, prev + kw@.len(), s@.len() as int));
            lemma_find_in_bounds(s@, kw@, prev + kw@.len(), s@.len() as int);
        }
        let e1 = match find_in_exec(&s, &eq, start, end) {
            Some(e) => e,
            None => {
                let ghost kk: int = k as int;
                assert(catalog_json_spec(html@, kk as nat) is None);
                assert(2 <= kk < 5);
                return None;
            },
        };
        proof {
            lemma_find_in_bounds(s@, eq@, start as int, end as int);
        }
        let e2 = match find_in_exec(&s, &eq, e1 + 1, end) {
            Some(e) => e,
            None => end,
        };
        proof {
            lemma_find_in_bounds(s@, eq@, e1 + 1, end as int);
        }
        let (a, b) = trim_bounds(&s, e1 + 1, e2);
        let c = match find_in_exec(&s, &close, a, b) {
            Some(c) => c,
            None => b,
        };
        proof {
            lemma_find_in_bounds(s@, close@, a as int, b as int);
        }
        let text = html.substring_char(a, c);
        let ghost before = out@;
        out.push(text.to_owned());
        assert(forall|j: int| 0 <= j < k - 2 ==> out@[j] == before[j]);
        k = k + 1;
    }
    Some(out)
}

} // verus!
