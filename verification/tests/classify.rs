use cardgame::Card;
use cardgame::Color::{Green, Purple, Red};
use cardgame::Number::{One, Three, Two};
use cardgame::SetStatus;
use cardgame::Shading::{Open, Solid, Striped};
use cardgame::Shape::{Diamond, Oval, Squiggle};
use cardgame::Triple;

#[test]
fn card_is_set_all_similar_or_all_different() {
    assert_eq!(
        Triple(
            Card(Three, Solid, Red, Diamond),
            Card(Two, Solid, Green, Squiggle),
            Card(One, Solid, Purple, Oval),
        )
        .is_a_set(),
        SetStatus::IsASet
    )
}

#[test]
fn card_not_a_set_not_all_different() {
    assert_eq!(
        Triple(
            Card(Three, Solid, Red, Diamond),
            Card(Three, Solid, Green, Squiggle),
            Card(One, Solid, Purple, Oval),
        )
        .is_a_set(),
        SetStatus::NotASet("Numbers are not all the same or different.".into())
    )
}

#[test]
fn card_not_a_set_not_all_same() {
    assert_eq!(
        Triple(
            Card(Three, Solid, Red, Diamond),
            Card(Two, Solid, Green, Squiggle),
            Card(One, Open, Purple, Oval),
        )
        .is_a_set(),
        SetStatus::NotASet("Shadings are not all the same or different.".into())
    )
}

#[test]
fn triple_is_set_all_similar_or_all_different() {
    assert_eq!(
        Triple(
            Card::new(Three, Solid, Red, Diamond),
            Card::new(Two, Solid, Green, Squiggle),
            Card::new(One, Solid, Purple, Oval),
        )
        .is_a_set(),
        SetStatus::IsASet
    )
}

#[test]
fn triple_not_a_set_not_all_different() {
    assert_eq!(
        Triple(
            Card::new(Three, Solid, Red, Diamond),
            Card::new(Three, Solid, Green, Squiggle),
            Card::new(One, Solid, Purple, Oval),
        )
        .is_a_set(),
        SetStatus::NotASet("Numbers are not all the same or different.".into())
    )
}

#[test]
fn triple_not_a_set_not_all_same() {
    assert_eq!(
        Triple(
            Card::new(Three, Solid, Red, Diamond),
            Card::new(Two, Solid, Green, Squiggle),
            Card::new(One, Open, Purple, Oval),
        )
        .is_a_set(),
        SetStatus::NotASet("Shadings are not all the same or different.".into())
    )
}

#[test]
fn mod_is_set_all_similar_or_all_different() {
    assert_eq!(
        Triple(
            Card(Three, Solid, Red, Diamond),
            Card(Two, Solid, Green, Squiggle),
            Card(One, Solid, Purple, Oval),
        )
        .is_a_set(),
        SetStatus::IsASet
    )
}

#[test]
fn mod_not_a_set_not_all_different() {
    assert_eq!(
        Triple(
            Card(Three, Solid, Red, Diamond),
            Card(Three, Solid, Green, Squiggle),
            Card(One, Solid, Purple, Oval),
        )
        .is_a_set(),
        SetStatus::NotASet("Numbers are not all the same or different.".into())
    )
}

#[test]
fn mod_not_a_set_not_all_same() {
    assert_eq!(
        Triple(
            Card(Three, Solid, Red, Diamond),
            Card(Two, Solid, Green, Squiggle),
            Card(One, Open, Purple, Oval),
        )
        .is_a_set(),
        SetStatus::NotASet("Shadings are not all the same or different.".into())
    )
}

#[test]
fn is_set_all_similar_or_all_different() {
    assert_eq!(
        Triple(
            Card(Three, Solid, Red, Diamond),
            Card(Two, Solid, Green, Squiggle),
            Card(One, Solid, Purple, Oval),
        )
        .is_a_set(),
        SetStatus::IsASet
    )
}

#[test]
fn not_a_set_not_all_different() {
    assert_eq!(
        Triple(
            Card(Three, Solid, Red, Diamond),
            Card(Three, Solid, Green, Squiggle),
            Card(One, Solid, Purple, Oval),
        )
        .is_a_set(),
        SetStatus::NotASet("Numbers are not all the same or different.".into())
    )
}

#[test]
fn not_a_set_not_all_same() {
    assert_eq!(
        Triple(
            Card(Three, Solid, Red, Diamond),
            Card(Two, Solid, Green, Squiggle),
            Card(One, Open, Purple, Oval),
        )
        .is_a_set(),
        SetStatus::NotASet("Shadings are not all the same or different.".into())
    )
}

#[test]
fn same_card_three_times_is_a_set() {
    let card = Card(Two, Striped, Purple, Squiggle);
    assert_eq!(Triple(card.clone(), card.clone(), card).is_a_set(), SetStatus::IsASet);
}

#[test]
fn verdict_is_permutation_invariant() {
    let a = Card(Three, Solid, Red, Diamond);
    let b = Card(Two, Solid, Green, Squiggle);
    let c = Card(One, Open, Purple, Oval);
    let expected = Triple(a.clone(), b.clone(), c.clone()).is_a_set();
    assert_eq!(Triple(a.clone(), c.clone(), b.clone()).is_a_set(), expected);
    assert_eq!(Triple(b.clone(), a.clone(), c.clone()).is_a_set(), expected);
    assert_eq!(Triple(b.clone(), c.clone(), a.clone()).is_a_set(), expected);
    assert_eq!(Triple(c.clone(), a.clone(), b.clone()).is_a_set(), expected);
    assert_eq!(Triple(c, b, a).is_a_set(), expected);
}

#[test]
fn every_failing_dimension_is_reported() {
    let verdict = Triple(
        Card(Three, Solid, Red, Diamond),
        Card(Three, Open, Green, Squiggle),
        Card(One, Open, Purple, Oval),
    )
    .is_a_set();
    match verdict {
        SetStatus::IsASet => panic!("two dimensions fail, so this is not a set"),
        SetStatus::NotASet(msg) => {
            assert_eq!(
                msg,
                "Numbers are not all the same or different. \
                 Shadings are not all the same or different."
            );
            assert!(msg.contains("Numbers are not all the same or different."));
            assert!(msg.contains("Shadings are not all the same or different."));
        }
    }
}

#[test]
fn all_four_dimensions_can_fail_at_once() {
    let verdict = Triple(
        Card(Three, Solid, Red, Diamond),
        Card(Three, Solid, Red, Diamond),
        Card(One, Open, Purple, Oval),
    )
    .is_a_set();
    match verdict {
        SetStatus::IsASet => panic!("every dimension fails, so this is not a set"),
        SetStatus::NotASet(msg) => {
            assert_eq!(
                msg,
                "Numbers are not all the same or different. \
                 Shadings are not all the same or different. \
                 Colors are not all the same or different. \
                 Shapes are not all the same or different."
            );
        }
    }
}
