//! The metric laws of the Levenshtein distance on unit sequences:
//! identity, symmetry and the triangle inequality.

use crate::distance::lev;
use crate::distance::min3;
use vstd::prelude::*;

verus! {

/// The distance from a sequence to itself is zero.
pub proof fn lemma_lev_self(a: Seq<Seq<char>>)
    ensures
        lev(a, a) == 0,
    decreases a.len(),
{
    if a.len() > 0 {
        lemma_lev_self(a.drop_last());
    }
}

/// A distance of zero only holds between equal sequences.
pub proof fn lemma_lev_zero(a: Seq<Seq<char>>, b: Seq<Seq<char>>)
    requires
        lev(a, b) == 0,
    ensures
        a == b,
    decreases a.len() + b.len(),
{
    if a.len() == 0 {
        assert(a =~= b);
    } else if b.len() == 0 {
    } else if a.last() == b.last() {
        lemma_lev_zero(a.drop_last(), b.drop_last());
        assert(a =~= a.drop_last().push(a.last()));
        assert(b =~= b.drop_last().push(b.last()));
    }
}

/// The distance is symmetric in its two arguments.
pub proof fn lemma_lev_sym(a: Seq<Seq<char>>, b: Seq<Seq<char>>)
    ensures
        lev(a, b) == lev(b, a),
    decreases a.len() + b.len(),
{
    if a.len() == 0 || b.len() == 0 {
    } else if a.last() == b.last() {
        lemma_lev_sym(a.drop_last(), b.drop_last());
    } else {
        lemma_lev_sym(a.drop_last(), b);
        lemma_lev_sym(a, b.drop_last());
        lemma_lev_sym(a.drop_last(), b.drop_last());
    }
}

/// One single-unit edit: deleting the last unit, appending a unit,
/// substituting the last unit, or making one such edit before a shared
/// last unit.  Every one-unit insertion, deletion or substitution at any
/// position takes this shape.
pub open spec fn single_edit(a: Seq<Seq<char>>, b: Seq<Seq<char>>) -> bool
    decreases a.len() + b.len(),
{
    ||| (a.len() > 0 && b == a.drop_last())
    ||| (b.len() > 0 && a == b.drop_last())
    ||| (a.len() > 0 && b.len() > 0 && a.last() != b.last() && a.drop_last() == b.drop_last())
    ||| (a.len() > 0 && b.len() > 0 && a.last() == b.last() && single_edit(
        a.drop_last(),
        b.drop_last(),
    ))
}

/// Dropping the last unit of either argument changes the distance by at
/// most one in either direction.
proof fn lemma_lev_adjacent(a: Seq<Seq<char>>, b: Seq<Seq<char>>)
    ensures
        a.len() > 0 ==> lev(a, b) <= 1 + lev(a.drop_last(), b),
        a.len() > 0 ==> lev(a.drop_last(), b) <= 1 + lev(a, b),
        b.len() > 0 ==> lev(a, b) <= 1 + lev(a, b.drop_last()),
        b.len() > 0 ==> lev(a, b.drop_last()) <= 1 + lev(a, b),
    decreases a.len() + b.len(),
{
    if a.len() == 0 || b.len() == 0 {
    } else {
        lemma_lev_adjacent(a.drop_last(), b);
        lemma_lev_adjacent(a, b.drop_last());
        lemma_lev_adjacent(a.drop_last(), b.drop_last());
    }
}

/// A single edit moves the distance to any third sequence by at most one.
proof fn lemma_edit_step(a: Seq<Seq<char>>, a1: Seq<Seq<char>>, b: Seq<Seq<char>>)
    requires
        single_edit(a, a1),
    ensures
        lev(a, b) <= 1 + lev(a1, b),
    decreases a.len() + a1.len() + b.len(),
{
    if a.len() > 0 && a1 == a.drop_last() {
        lemma_lev_adjacent(a, b);
    } else if a1.len() > 0 && a == a1.drop_last() {
        lemma_lev_adjacent(a1, b);
    } else if a.len() > 0 && a1.len() > 0 && a.last() != a1.last() && a.drop_last()
        == a1.drop_last() {
        if b.len() > 0 {
            lemma_edit_step(a, a1, b.drop_last());
            lemma_lev_adjacent(a.drop_last(), b);
            lemma_lev_adjacent(a1, b.drop_last());
            lemma_lev_adjacent(a, b.drop_last());
        }
    } else {
        if b.len() == 0 {
            lemma_single_edit_len(a.drop_last(), a1.drop_last());
        } else {
            lemma_edit_step(a.drop_last(), a1.drop_last(), b);
            lemma_edit_step(a, a1, b.drop_last());
            lemma_edit_step(a.drop_last(), a1.drop_last(), b.drop_last());
        }
    }
}

/// A single edit changes the length by at most one.
proof fn lemma_single_edit_len(a: Seq<Seq<char>>, b: Seq<Seq<char>>)
    requires
        single_edit(a, b),
    ensures
        a.len() <= b.len() + 1,
        b.len() <= a.len() + 1,
    decreases a.len() + b.len(),
{
    if a.len() > 0 && b == a.drop_last() {
        assert(b.len() + 1 == a.len());
    } else if b.len() > 0 && a == b.drop_last() {
        assert(a.len() + 1 == b.len());
    } else if a.len() > 0 && b.len() > 0 && a.last() != b.last() && a.drop_last()
        == b.drop_last() {
        assert(a.drop_last().len() == a.len() - 1);
        assert(b.drop_last().len() == b.len() - 1);
        assert(a.len() == b.len());
    } else {
        lemma_single_edit_len(a.drop_last(), b.drop_last());
    }
}

/// When the distance to `c` is positive, some single edit of `a` brings
/// it exactly one step closer to `c`.
proof fn lemma_edit_towards(a: Seq<Seq<char>>, c: Seq<Seq<char>>) -> (a1: Seq<Seq<char>>)
    requires
        lev(a, c) > 0,
    ensures
        single_edit(a, a1),
        lev(a1, c) + 1 == lev(a, c),
    decreases a.len() + c.len(),
{
    if a.len() == 0 {
        let a1 = seq![c.last()];
        assert(a1.drop_last() =~= a);
        assert(a1.last() == c.last());
        assert(lev(a1, c) == lev(a, c.drop_last()));
        assert(lev(a, c.drop_last()) == c.drop_last().len());
        a1
    } else if c.len() == 0 {
        a.drop_last()
    } else if a.last() == c.last() {
        let sub = lemma_edit_towards(a.drop_last(), c.drop_last());
        let a1 = sub.push(a.last());
        assert(a1.drop_last() =~= sub);
        a1
    } else {
        let x = lev(a.drop_last(), c);
        let y = lev(a, c.drop_last());
        let z = lev(a.drop_last(), c.drop_last());
        assert(lev(a, c) == 1 + min3(x, y, z));
        if x <= y && x <= z {
            a.drop_last()
        } else if y <= z {
            let a1 = a.push(c.last());
            assert(a1.drop_last() =~= a);
            a1
        } else {
            let a1 = a.drop_last().push(c.last());
            assert(a1.drop_last() =~= a.drop_last());
            a1
        }
    }
}

/// The triangle inequality: editing `a` into `c` and then `c` into `b`
/// is one way of editing `a` into `b`, so the direct distance is no
/// larger than the sum.
pub proof fn lemma_lev_triangle(a: Seq<Seq<char>>, b: Seq<Seq<char>>, c: Seq<Seq<char>>)
    ensures
        lev(a, b) <= lev(a, c) + lev(c, b),
    decreases lev(a, c),
{
    if lev(a, c) == 0 {
        lemma_lev_zero(a, c);
    } else {
        let a1 = lemma_edit_towards(a, c);
        lemma_edit_step(a, a1, b);
        lemma_lev_triangle(a1, b, c);
    }
}

} // verus!
