use vstd::prelude::*;
use crate::card::Card;
use crate::features::{
    all_same_or_all_different_spec, distinct_count, lemma_passes_iff_distinct_count,
    AllSameOrAllDifferent,
};
use crate::card::{Color, Number, Shading, Shape};

verus! {

/// The verdict on a triple of cards: a set, or not one, with a text naming
/// every feature dimension that failed the rule.
#[derive(Debug, PartialEq, Eq)]
pub enum SetStatus {
    IsASet,
    NotASet(String),
}

/// Three cards grouped for classification. The verdict does not depend on
/// their order.
pub struct Triple(pub Card, pub Card, pub Card);

/// Whether three cards form a set: every one of the four feature
/// dimensions is all-same or all-different.
pub open spec fn is_set(a: Card, b: Card, c: Card) -> bool {
    &&& all_same_or_all_different_spec(a.0, b.0, c.0)
    &&& all_same_or_all_different_spec(a.1, b.1, c.1)
    &&& all_same_or_all_different_spec(a.2, b.2, c.2)
    &&& all_same_or_all_different_spec(a.3, b.3, c.3)
}

/// The reason text for a failing number dimension.
pub open spec fn number_reason() -> Seq<char> {
    "Numbers are not all the same or different."@
}

/// The reason text for a failing shading dimension.
pub open spec fn shading_reason() -> Seq<char> {
    "Shadings are not all the same or different."@
}

/// The reason text for a failing color dimension.
pub open spec fn color_reason() -> Seq<char> {
    "Colors are not all the same or different."@
}

/// The reason text for a failing shape dimension.
pub open spec fn shape_reason() -> Seq<char> {
    "Shapes are not all the same or different."@
}

/// The reason texts of the dimensions that fail for a triple, in the fixed
/// order number, shading, color, shape.
pub open spec fn failing_reasons(a: Card, b: Card, c: Card) -> Seq<Seq<char>> {
    let r0 = Seq::<Seq<char>>::empty();
    let r1 = if !all_same_or_all_different_spec(a.0, b.0, c.0) {
        r0.push(number_reason())
    } else {
        r0
    };
    let r2 = if !all_same_or_all_different_spec(a.1, b.1, c.1) {
        r1.push(shading_reason())
    } else {
        r1
    };
    let r3 = if !all_same_or_all_different_spec(a.2, b.2, c.2) {
        r2.push(color_reason())
    } else {
        r2
    };
    if !all_same_or_all_different_spec(a.3, b.3, c.3) {
        r3.push(shape_reason())
    } else {
        r3
    }
}

/// Texts joined with a single space between consecutive parts.
pub open spec fn join_with_spaces(parts: Seq<Seq<char>>) -> Seq<char>
    decreases parts.len(),
{
    if parts.len() == 0 {
        Seq::empty()
    } else if parts.len() == 1 {
        parts[0]
    } else {
        join_with_spaces(parts.drop_last()) + " "@ + parts.last()
    }
}

/// The explanation reported for a triple that is not a set.
pub open spec fn explanation(a: Card, b: Card, c: Card) -> Seq<char> {
    join_with_spaces(failing_reasons(a, b, c))
}

/// `needle` stands at position `k` of `hay`.
pub open spec fn is_subrange_at(hay: Seq<char>, needle: Seq<char>, k: int) -> bool {
    0 <= k && k + needle.len() <= hay.len() && hay.subrange(k, k + needle.len()) == needle
}

/// `needle` occurs contiguously inside `hay`.
pub open spec fn contains_subrange(hay: Seq<char>, needle: Seq<char>) -> bool {
    exists|k: int| #[trigger] is_subrange_at(hay, needle, k)
}

fn join_reasons(parts: &Vec<&str>) -> (r: String)
    ensures
        r@ == join_with_spaces(parts@.map_values(|p: &str| p@)),
{
    let ghost gparts = parts@.map_values(|p: &str| p@);
    let mut out = String::new();
    let mut i: usize = 0;
    while i < parts.len()
        invariant
            i <= parts@.len(),
            gparts == parts@.map_values(|p: &str| p@),
            gparts.len() == parts@.len(),
            out@ == join_with_spaces(gparts.take(i as int)),
        decreases parts@.len() - i,
    {
        if i > 0 {
            out.append(" ");
        }
        out.append(parts[i]);
        proof {
            assert(gparts.take(i + 1).drop_last() =~= gparts.take(i as int));
            if i == 0 {
                assert(out@ =~= gparts[0]);
                assert(join_with_spaces(gparts.take(1)) == gparts.take(1)[0]);
            }
        }
        i = i + 1;
    }
    proof {
        assert(gparts.take(gparts.len() as int) =~= gparts);
    }
    out
}

impl Triple {
    /// Groups three cards for classification.
    pub fn new(one: Card, two: Card, three: Card) -> (t: Triple)
        ensures
            t == Triple(one, two, three),
    {
        Triple(one, two, three)
    }

    /// Classifies the triple: `IsASet` exactly when every dimension is
    /// all-same or all-different, otherwise `NotASet` with the reason
    /// texts of all failing dimensions, in the fixed dimension order,
    /// joined by single spaces.
    pub fn is_a_set(&self) -> (r: SetStatus)
        ensures
            match r {
                SetStatus::IsASet => is_set(self.0, self.1, self.2),
                SetStatus::NotASet(msg) => !is_set(self.0, self.1, self.2) && msg@ == explanation(
                    self.0,
                    self.1,
                    self.2,
                ),
            },
    {
        let number_check = Number::all_same_or_all_different(&self.0.0, &self.1.0, &self.2.0);
        let shading_check = Shading::all_same_or_all_different(&self.0.1, &self.1.1, &self.2.1);
        let color_check = Color::all_same_or_all_different(&self.0.2, &self.1.2, &self.2.2);
        let shape_check = Shape::all_same_or_all_different(&self.0.3, &self.1.3, &self.2.3);

        if number_check && shading_check && color_check && shape_check {
            SetStatus::IsASet
        } else {
            let mut reasons: Vec<&str> = Vec::new();
            if !number_check {
                reasons.push("Numbers are not all the same or different.");
            }
            if !shading_check {
                reasons.push("Shadings are not all the same or different.");
            }
            if !color_check {
                reasons.push("Colors are not all the same or different.");
            }
            if !shape_check {
                reasons.push("Shapes are not all the same or different.");
            }
            proof {
                assert(reasons@.map_values(|p: &str| p@) =~= failing_reasons(
                    self.0,
                    self.1,
                    self.2,
                ));
            }
            SetStatus::NotASet(join_reasons(&reasons))
        }
    }
}

/// Every part of a joined text occurs contiguously in it.
proof fn lemma_join_contains_part(parts: Seq<Seq<char>>, i: int)
    requires
        0 <= i < parts.len(),
    ensures
        contains_subrange(join_with_spaces(parts), parts[i]),
    decreases parts.len(),
{
    let joined = join_with_spaces(parts);
    let n = parts[i].len() as int;
    if parts.len() == 1 {
        assert(joined.subrange(0, n) =~= parts[i]);
        assert(is_subrange_at(joined, parts[i], 0));
    } else if i == parts.len() - 1 {
        let k = (join_with_spaces(parts.drop_last()) + " "@).len() as int;
        assert(joined.subrange(k, k + n) =~= parts[i]);
        assert(is_subrange_at(joined, parts[i], k));
    } else {
        lemma_join_contains_part(parts.drop_last(), i);
        let shorter = join_with_spaces(parts.drop_last());
        let k = choose|k: int| #[trigger] is_subrange_at(shorter, parts.drop_last()[i], k);
        assert(parts.drop_last()[i] == parts[i]);
        assert(k + n <= shorter.len());
        assert(joined == shorter + " "@ + parts.last());
        assert(joined.subrange(k, k + n) =~= shorter.subrange(k, k + n));
        assert(is_subrange_at(joined, parts[i], k));
    }
}

/// The reported reasons name exactly the failing dimensions: a dimension's
/// reason text stands among them iff that dimension fails the rule, so no
/// passing dimension is ever named and no failing one is merged away.
pub proof fn lemma_reason_listed_iff_dimension_fails(a: Card, b: Card, c: Card)
    ensures
        failing_reasons(a, b, c).contains(number_reason()) <==> !all_same_or_all_different_spec(
            a.0,
            b.0,
            c.0,
        ),
        failing_reasons(a, b, c).contains(shading_reason()) <==> !all_same_or_all_different_spec(
            a.1,
            b.1,
            c.1,
        ),
        failing_reasons(a, b, c).contains(color_reason()) <==> !all_same_or_all_different_spec(
            a.2,
            b.2,
            c.2,
        ),
        failing_reasons(a, b, c).contains(shape_reason()) <==> !all_same_or_all_different_spec(
            a.3,
            b.3,
            c.3,
        ),
{
    reveal_strlit("Numbers are not all the same or different.");
    reveal_strlit("Shadings are not all the same or different.");
    reveal_strlit("Colors are not all the same or different.");
    reveal_strlit("Shapes are not all the same or different.");
    assert(number_reason()[0] == 'N' && shading_reason()[0] == 'S' && color_reason()[0] == 'C'
        && shape_reason()[0] == 'S');
    assert(shading_reason().len() != shape_reason().len());
    let parts = failing_reasons(a, b, c);
    let fails0 = !all_same_or_all_different_spec(a.0, b.0, c.0);
    let fails1 = !all_same_or_all_different_spec(a.1, b.1, c.1);
    let fails2 = !all_same_or_all_different_spec(a.2, b.2, c.2);
    let fails3 = !all_same_or_all_different_spec(a.3, b.3, c.3);
    let i1 = if fails0 {
        1int
    } else {
        0int
    };
    let i2 = i1 + if fails1 {
        1int
    } else {
        0int
    };
    let i3 = i2 + if fails2 {
        1int
    } else {
        0int
    };
    if fails0 {
        assert(parts[0] == number_reason());
        assert(parts.contains(number_reason()));
    }
    if fails1 {
        assert(parts[i1] == shading_reason());
        assert(parts.contains(shading_reason()));
    }
    if fails2 {
        assert(parts[i2] == color_reason());
        assert(parts.contains(color_reason()));
    }
    if fails3 {
        assert(parts[i3] == shape_reason());
        assert(parts.contains(shape_reason()));
    }
    assert forall|t: int| 0 <= t < parts.len() implies (parts[t] == number_reason() ==> fails0) && (
    parts[t] == shading_reason() ==> fails1) && (parts[t] == color_reason() ==> fails2) && (
    parts[t] == shape_reason() ==> fails3) by {}
}

/// A dimension showing exactly two distinct values fails the rule, and its
/// reason text occurs in the explanation.
pub proof fn lemma_failing_dimension_reported(a: Card, b: Card, c: Card)
    ensures
        distinct_count(a.0, b.0, c.0) == 2 ==> !is_set(a, b, c) && contains_subrange(
            explanation(a, b, c),
            number_reason(),
        ),
        distinct_count(a.1, b.1, c.1) == 2 ==> !is_set(a, b, c) && contains_subrange(
            explanation(a, b, c),
            shading_reason(),
        ),
        distinct_count(a.2, b.2, c.2) == 2 ==> !is_set(a, b, c) && contains_subrange(
            explanation(a, b, c),
            color_reason(),
        ),
        distinct_count(a.3, b.3, c.3) == 2 ==> !is_set(a, b, c) && contains_subrange(
            explanation(a, b, c),
            shape_reason(),
        ),
{
    lemma_passes_iff_distinct_count(a.0, b.0, c.0);
    lemma_passes_iff_distinct_count(a.1, b.1, c.1);
    lemma_passes_iff_distinct_count(a.2, b.2, c.2);
    lemma_passes_iff_distinct_count(a.3, b.3, c.3);
    let parts = failing_reasons(a, b, c);
    let fails0 = !all_same_or_all_different_spec(a.0, b.0, c.0);
    let fails1 = !all_same_or_all_different_spec(a.1, b.1, c.1);
    let fails2 = !all_same_or_all_different_spec(a.2, b.2, c.2);
    let fails3 = !all_same_or_all_different_spec(a.3, b.3, c.3);
    let i1 = if fails0 {
        1int
    } else {
        0int
    };
    let i2 = i1 + if fails1 {
        1int
    } else {
        0int
    };
    let i3 = i2 + if fails2 {
        1int
    } else {
        0int
    };
    if fails0 {
        lemma_join_contains_part(parts, 0);
    }
    if fails1 {
        lemma_join_contains_part(parts, i1);
    }
    if fails2 {
        lemma_join_contains_part(parts, i2);
    }
    if fails3 {
        lemma_join_contains_part(parts, i3);
    }
}

/// A triple of three identical cards is a set: every dimension is
/// trivially all-same.
pub proof fn lemma_identical_cards_are_a_set(a: Card)
    ensures
        is_set(a, a, a),
{
}

/// Classification does not depend on the order of the three cards: every
/// permutation gives the same verdict and the same explanation.
pub proof fn lemma_classification_permutation_invariant(a: Card, b: Card, c: Card)
    ensures
        is_set(a, b, c) == is_set(a, c, b),
        is_set(a, b, c) == is_set(b, a, c),
        is_set(a, b, c) == is_set(b, c, a),
        is_set(a, b, c) == is_set(c, a, b),
        is_set(a, b, c) == is_set(c, b, a),
        explanation(a, b, c) == explanation(a, c, b),
        explanation(a, b, c) == explanation(b, a, c),
        explanation(a, b, c) == explanation(b, c, a),
        explanation(a, b, c) == explanation(c, a, b),
        explanation(a, b, c) == explanation(c, b, a),
{
}

} // verus!
