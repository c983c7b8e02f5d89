//! Grapheme-aware Levenshtein edit distance between file names.
//!
//! A name is segmented into grapheme clusters (user-perceived characters)
//! before the distance is computed, so that a multi-code-unit character
//! counts as a single editable unit.

use unicode_segmentation::UnicodeSegmentation;
use vstd::prelude::*;

verus! {

/// The grapheme-cluster segmentation of a string, as a sequence of units,
/// each unit being the character sequence of one grapheme cluster.
/// The segmentation is a pure function of the characters alone.
pub uninterp spec fn graphemes_of(s: Seq<char>) -> Seq<Seq<char>>;

/// The view of a sequence of owned grapheme units.
pub open spec fn units_view(v: Seq<String>) -> Seq<Seq<char>> {
    v.map_values(|u: String| u@)
}

/// Relies on unicode_segmentation::UnicodeSegmentation::graphemes (extended
/// grapheme clusters): splits the string into grapheme clusters, a function
/// of the characters alone.
#[verifier::external_body]
fn graphemes(s: &str) -> (r: Vec<String>)
    ensures
        units_view(r@) == graphemes_of(s@),
{
    UnicodeSegmentation::graphemes(s, true).map(|g| g.to_string()).collect()
}

/// The minimum of three natural numbers.
pub open spec fn min3(x: nat, y: nat, z: nat) -> nat {
    if x <= y && x <= z {
        x
    } else if y <= z {
        y
    } else {
        z
    }
}

/// The Levenshtein distance between two sequences of units: the least number
/// of single-unit insertions, deletions and substitutions, each of cost 1,
/// that turns one sequence into the other.
pub open spec fn lev(a: Seq<Seq<char>>, b: Seq<Seq<char>>) -> nat
    decreases a.len() + b.len(),
{
    if a.len() == 0 {
        b.len()
    } else if b.len() == 0 {
        a.len()
    } else if a.last() == b.last() {
        lev(a.drop_last(), b.drop_last())
    } else {
        1 + min3(
            lev(a.drop_last(), b),
            lev(a, b.drop_last()),
            lev(a.drop_last(), b.drop_last()),
        )
    }
}

/// The distance never exceeds the length of the longer sequence:
/// substituting unit by unit and then inserting or deleting the rest
/// is always possible.
pub proof fn lemma_lev_le_max(a: Seq<Seq<char>>, b: Seq<Seq<char>>)
    ensures
        lev(a, b) <= if a.len() >= b.len() { a.len() } else { b.len() },
    decreases a.len() + b.len(),
{
    if a.len() == 0 || b.len() == 0 {
    } else {
        lemma_lev_le_max(a.drop_last(), b.drop_last());
    }
}

/// The distance is at least the difference of the lengths: every single
/// edit changes the length by at most one.
pub proof fn lemma_lev_ge_len_diff(a: Seq<Seq<char>>, b: Seq<Seq<char>>)
    ensures
        lev(a, b) + a.len() >= b.len(),
        lev(a, b) + b.len() >= a.len(),
    decreases a.len() + b.len(),
{
    if a.len() == 0 || b.len() == 0 {
    } else if a.last() == b.last() {
        lemma_lev_ge_len_diff(a.drop_last(), b.drop_last());
    } else {
        lemma_lev_ge_len_diff(a.drop_last(), b);
        lemma_lev_ge_len_diff(a, b.drop_last());
        lemma_lev_ge_len_diff(a.drop_last(), b.drop_last());
    }
}

/// The Levenshtein distance between two already-segmented names, by the
/// classic dynamic-programming table over prefixes.
pub fn edit_distance_units(a: &Vec<String>, b: &Vec<String>) -> (d: usize)
    ensures
        d == lev(units_view(a@), units_view(b@)),
{
    let ghost ga = units_view(a@);
    let ghost gb = units_view(b@);
    let n = a.len();
    let m = b.len();
    let mut dp: Vec<Vec<usize>> = Vec::new();
    while dp.len() <= n
        invariant
            ga == units_view(a@),
            gb == units_view(b@),
            n == a.len(),
            m == b.len(),
            ga.len() == n,
            gb.len() == m,
            dp@.len() <= n + 1,
            forall|p: int| 0 <= p < dp@.len() ==> #[trigger] dp@[p]@.len() == m + 1,
            forall|p: int, q: int|
                0 <= p < dp@.len() && 0 <= q <= m ==> #[trigger] dp@[p]@[q] == lev(
                    ga.take(p),
                    gb.take(q),
                ),
        decreases n + 1 - dp@.len(),
    {
        let i = dp.len();
        let mut row: Vec<usize> = Vec::new();
        while row.len() <= m
            invariant
                ga == units_view(a@),
                gb == units_view(b@),
                n == a.len(),
                m == b.len(),
                ga.len() == n,
                gb.len() == m,
                i == dp@.len(),
                i <= n,
                row@.len() <= m + 1,
                forall|p: int| 0 <= p < i ==> #[trigger] dp@[p]@.len() == m + 1,
                forall|p: int, q: int|
                    0 <= p < i && 0 <= q <= m ==> #[trigger] dp@[p]@[q] == lev(
                        ga.take(p),
                        gb.take(q),
                    ),
                forall|q: int|
                    0 <= q < row@.len() ==> #[trigger] row@[q] == lev(ga.take(i as int), gb.take(q)),
            decreases m + 1 - row@.len(),
        {
            let j = row.len();
            proof {
                assert(ga.take(i as int).len() == i);
                assert(gb.take(j as int).len() == j);
                if i > 0 && j > 0 {
                    assert(ga.take(i as int).drop_last() =~= ga.take(i - 1));
                    assert(gb.take(j as int).drop_last() =~= gb.take(j - 1));
                    assert(ga.take(i as int).last() == ga[i - 1]);
                    assert(gb.take(j as int).last() == gb[j - 1]);
                    assert(ga[i - 1] == a@[i - 1]@);
                    assert(gb[j - 1] == b@[j - 1]@);
                }
            }
            let val: usize = if i == 0 {
                j
            } else if j == 0 {
                i
            } else if a[i - 1] == b[j - 1] {
                dp[i - 1][j - 1]
            } else {
                let mut best: usize = row[j - 1];
                if dp[i - 1][j] < best {
                    best = dp[i - 1][j];
                }
                if dp[i - 1][j - 1] < best {
                    best = dp[i - 1][j - 1];
                }
                proof {
                    lemma_lev_le_max(ga.take(i - 1), gb.take(j - 1));
                }
                1 + best
            };
            row.push(val);
        }
        dp.push(row);
    }
    proof {
        assert(ga.take(n as int) =~= ga);
        assert(gb.take(m as int) =~= gb);
    }
    dp[n][m]
}

/// The grapheme-aware edit distance between two strings, as the
/// Levenshtein distance over their grapheme-cluster segmentations.
pub fn edit_distance(s1: &str, s2: &str) -> (d: usize)
    ensures
        d == lev(graphemes_of(s1@), graphemes_of(s2@)),
{
    let g1 = graphemes(s1);
    let g2 = graphemes(s2);
    edit_distance_units(&g1, &g2)
}

} // verus!
