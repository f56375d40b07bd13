use cardgame::AllSameOrAllDifferent;
use cardgame::Color;
use cardgame::Number;

#[test]
fn triple_all_same() {
    assert!(Number::all_same(&Number::One, &Number::One, &Number::One));
    assert!(!Color::all_same(&Color::Red, &Color::Green, &Color::Red));
}

#[test]
fn triple_all_different() {
    assert!(!Number::all_different(&Number::One, &Number::One, &Number::One));
    assert!(Color::all_different(&Color::Red, &Color::Green, &Color::Purple));
}

#[test]
fn features_all_same() {
    assert!(Number::all_same(&Number::One, &Number::One, &Number::One));
    assert!(!Color::all_same(&Color::Red, &Color::Green, &Color::Red));
}

#[test]
fn features_all_different() {
    assert!(!Number::all_different(&Number::One, &Number::One, &Number::One));
    assert!(Color::all_different(&Color::Red, &Color::Green, &Color::Purple));
}

#[test]
fn all_same() {
    assert!(Number::all_same(&Number::One, &Number::One, &Number::One));
    assert!(!Color::all_same(&Color::Red, &Color::Green, &Color::Red));
}

#[test]
fn all_different() {
    assert!(!Number::all_different(&Number::One, &Number::One, &Number::One));
    assert!(Color::all_different(&Color::Red, &Color::Green, &Color::Purple));
}

#[test]
fn two_distinct_values_fail_the_dimension() {
    assert!(!Number::all_same_or_all_different(&Number::One, &Number::One, &Number::Two));
    assert!(Number::all_same_or_all_different(&Number::Two, &Number::Two, &Number::Two));
    assert!(Number::all_same_or_all_different(&Number::One, &Number::Two, &Number::Three));
}
