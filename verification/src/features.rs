use vstd::prelude::*;
use crate::card::{Color, Number, Shading, Shape};

verus! {

/// Three values agree: they are all equal.
pub open spec fn all_same_spec<T>(a: T, b: T, c: T) -> bool {
    a == b && b == c
}

/// Three values are pairwise distinct.
pub open spec fn all_different_spec<T>(a: T, b: T, c: T) -> bool {
    a != b && b != c && a != c
}

/// The rule of one feature dimension: it passes when the three values are
/// all equal or pairwise distinct.
pub open spec fn all_same_or_all_different_spec<T>(a: T, b: T, c: T) -> bool {
    all_same_spec(a, b, c) || all_different_spec(a, b, c)
}

/// How many distinct values stand among three: the cardinality of the set
/// they form.
pub open spec fn distinct_count<T>(a: T, b: T, c: T) -> nat {
    Set::<T>::empty().insert(a).insert(b).insert(c).len()
}

/// A dimension passes exactly when the three values show 1 or 3 distinct
/// values; a count of 2 always fails it.
pub proof fn lemma_passes_iff_distinct_count<T>(a: T, b: T, c: T)
    ensures
        all_same_or_all_different_spec(a, b, c) <==> (distinct_count(a, b, c) == 1
            || distinct_count(a, b, c) == 3),
        !all_same_or_all_different_spec(a, b, c) <==> distinct_count(a, b, c) == 2,
{
    broadcast use vstd::set::group_set_axioms;

    let s1 = Set::<T>::empty().insert(a);
    let s2 = s1.insert(b);
    let s3 = s2.insert(c);
    assert(s1.len() == 1);
    assert(s2.len() == if s1.contains(b) {
        1nat
    } else {
        2nat
    });
    assert(s3.len() == if s2.contains(c) {
        s2.len()
    } else {
        s2.len() + 1
    });
}

/// The dimension rule, offered by each of the four feature types so that
/// the classifier can apply it one dimension at a time.
pub trait AllSameOrAllDifferent: Sized {
    /// Whether the three values are all equal.
    fn all_same(a: &Self, b: &Self, c: &Self) -> (r: bool)
        ensures
            r == all_same_spec(*a, *b, *c),
    ;

    /// Whether the three values are pairwise distinct.
    fn all_different(a: &Self, b: &Self, c: &Self) -> (r: bool)
        ensures
            r == all_different_spec(*a, *b, *c),
    ;

    /// Whether the dimension passes: all equal or pairwise distinct.
    fn all_same_or_all_different(a: &Self, b: &Self, c: &Self) -> (r: bool)
        ensures
            r == all_same_or_all_different_spec(*a, *b, *c),
    ;
}

impl AllSameOrAllDifferent for Number {
    fn all_same(a: &Self, b: &Self, c: &Self) -> (r: bool) {
        *a == *b && *b == *c
    }

    fn all_different(a: &Self, b: &Self, c: &Self) -> (r: bool) {
        *a != *b && *b != *c && *a != *c
    }

    fn all_same_or_all_different(a: &Self, b: &Self, c: &Self) -> (r: bool) {
        Self::all_same(a, b, c) || Self::all_different(a, b, c)
    }
}

impl AllSameOrAllDifferent for Shading {
    fn all_same(a: &Self, b: &Self, c: &Self) -> (r: bool) {
        *a == *b && *b == *c
    }

    fn all_different(a: &Self, b: &Self, c: &Self) -> (r: bool) {
        *a != *b && *b != *c && *a != *c
    }

    fn all_same_or_all_different(a: &Self, b: &Self, c: &Self) -> (r: bool) {
        Self::all_same(a, b, c) || Self::all_different(a, b, c)
    }
}

impl AllSameOrAllDifferent for Color {
    fn all_same(a: &Self, b: &Self, c: &Self) -> (r: bool) {
        *a == *b && *b == *c
    }

    fn all_different(a: &Self, b: &Self, c: &Self) -> (r: bool) {
        *a != *b && *b != *c && *a != *c
    }

    fn all_same_or_all_different(a: &Self, b: &Self, c: &Self) -> (r: bool) {
        Self::all_same(a, b, c) || Self::all_different(a, b, c)
    }
}

impl AllSameOrAllDifferent for Shape {
    fn all_same(a: &Self, b: &Self, c: &Self) -> (r: bool) {
        *a == *b && *b == *c
    }

    fn all_different(a: &Self, b: &Self, c: &Self) -> (r: bool) {
        *a != *b && *b != *c && *a != *c
    }

    fn all_same_or_all_different(a: &Self, b: &Self, c: &Self) -> (r: bool) {
        Self::all_same(a, b, c) || Self::all_different(a, b, c)
    }
}

} // verus!
