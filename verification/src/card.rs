use vstd::prelude::*;
use vstd::arithmetic::div_mod::{
    lemma_div_denominator, lemma_fundamental_div_mod, lemma_fundamental_div_mod_converse,
};

verus! {

/// How many symbols a card shows.
#[derive(Clone, Copy, PartialEq, Eq, Hash, Debug, Structural)]
pub enum Number {
    One,
    Two,
    Three,
}

/// How the symbols of a card are filled.
#[derive(Clone, Copy, PartialEq, Eq, Hash, Debug, Structural)]
pub enum Shading {
    Solid,
    Striped,
    Open,
}

/// The color of the symbols of a card.
#[derive(Clone, Copy, PartialEq, Eq, Hash, Debug, Structural)]
pub enum Color {
    Red,
    Green,
    Purple,
}

/// The outline the symbols of a card are drawn with.
#[derive(Clone, Copy, PartialEq, Eq, Hash, Debug, Structural)]
pub enum Shape {
    Squiggle,
    Diamond,
    Oval,
}

/// A card: one value from each of the four feature dimensions, in the
/// order number, shading, color, shape. Two cards are equal exactly when
/// all four features are equal.
#[derive(Clone, Copy, PartialEq, Eq, Hash, Debug, Structural)]
pub struct Card(pub Number, pub Shading, pub Color, pub Shape);

/// Position of a number variant in the fixed enumeration order.
pub open spec fn number_index(n: Number) -> int {
    match n {
        Number::One => 0,
        Number::Two => 1,
        Number::Three => 2,
    }
}

/// Position of a shading variant in the fixed enumeration order.
pub open spec fn shading_index(s: Shading) -> int {
    match s {
        Shading::Solid => 0,
        Shading::Striped => 1,
        Shading::Open => 2,
    }
}

/// Position of a color variant in the fixed enumeration order.
pub open spec fn color_index(c: Color) -> int {
    match c {
        Color::Red => 0,
        Color::Green => 1,
        Color::Purple => 2,
    }
}

/// Position of a shape variant in the fixed enumeration order.
pub open spec fn shape_index(s: Shape) -> int {
    match s {
        Shape::Squiggle => 0,
        Shape::Diamond => 1,
        Shape::Oval => 2,
    }
}

/// The number variant at position `i` (0, 1 or 2) of the enumeration order.
pub open spec fn number_of_index(i: int) -> Number {
    if i == 0 {
        Number::One
    } else if i == 1 {
        Number::Two
    } else {
        Number::Three
    }
}

/// The shading variant at position `i` (0, 1 or 2) of the enumeration order.
pub open spec fn shading_of_index(i: int) -> Shading {
    if i == 0 {
        Shading::Solid
    } else if i == 1 {
        Shading::Striped
    } else {
        Shading::Open
    }
}

/// The color variant at position `i` (0, 1 or 2) of the enumeration order.
pub open spec fn color_of_index(i: int) -> Color {
    if i == 0 {
        Color::Red
    } else if i == 1 {
        Color::Green
    } else {
        Color::Purple
    }
}

/// The shape variant at position `i` (0, 1 or 2) of the enumeration order.
pub open spec fn shape_of_index(i: int) -> Shape {
    if i == 0 {
        Shape::Squiggle
    } else if i == 1 {
        Shape::Diamond
    } else {
        Shape::Oval
    }
}

/// The card standing at position `i` of the deck enumeration: number
/// varies slowest, then shading, then color, then shape.
pub open spec fn card_at(i: int) -> Card {
    Card(
        number_of_index(i / 27),
        shading_of_index((i / 9) % 3),
        color_of_index((i / 3) % 3),
        shape_of_index(i % 3),
    )
}

/// The position at which a card stands in the deck enumeration.
pub open spec fn card_index(c: Card) -> int {
    27 * number_index(c.0) + 9 * shading_index(c.1) + 3 * color_index(c.2) + shape_index(c.3)
}

/// Every card stands at its own index of the deck enumeration.
pub proof fn lemma_card_at_card_index(c: Card)
    ensures
        0 <= card_index(c) < 81,
        card_at(card_index(c)) == c,
{
    let a = number_index(c.0);
    let b = shading_index(c.1);
    let d = color_index(c.2);
    let e = shape_index(c.3);
    let i = card_index(c);
    lemma_fundamental_div_mod_converse(i, 27, a, 9 * b + 3 * d + e);
    lemma_fundamental_div_mod_converse(i, 9, 3 * a + b, 3 * d + e);
    lemma_fundamental_div_mod_converse(3 * a + b, 3, a, b);
    lemma_fundamental_div_mod_converse(i, 3, 9 * a + 3 * b + d, e);
    lemma_fundamental_div_mod_converse(9 * a + 3 * b + d, 3, 3 * a + b, d);
}

/// The index of the card standing at a deck position recovers that
/// position, so distinct positions hold distinct cards.
pub proof fn lemma_card_index_card_at(i: int)
    requires
        0 <= i < 81,
    ensures
        card_index(card_at(i)) == i,
{
    lemma_fundamental_div_mod(i, 3);
    lemma_fundamental_div_mod(i / 3, 3);
    lemma_fundamental_div_mod(i / 9, 3);
    lemma_div_denominator(i, 3, 3);
    lemma_div_denominator(i, 9, 3);
}

fn number_of(i: usize) -> (n: Number)
    requires
        i < 3,
    ensures
        n == number_of_index(i as int),
{
    if i == 0 {
        Number::One
    } else if i == 1 {
        Number::Two
    } else {
        Number::Three
    }
}

fn shading_of(i: usize) -> (s: Shading)
    requires
        i < 3,
    ensures
        s == shading_of_index(i as int),
{
    if i == 0 {
        Shading::Solid
    } else if i == 1 {
        Shading::Striped
    } else {
        Shading::Open
    }
}

fn color_of(i: usize) -> (c: Color)
    requires
        i < 3,
    ensures
        c == color_of_index(i as int),
{
    if i == 0 {
        Color::Red
    } else if i == 1 {
        Color::Green
    } else {
        Color::Purple
    }
}

fn shape_of(i: usize) -> (s: Shape)
    requires
        i < 3,
    ensures
        s == shape_of_index(i as int),
{
    if i == 0 {
        Shape::Squiggle
    } else if i == 1 {
        Shape::Diamond
    } else {
        Shape::Oval
    }
}

impl Card {
    /// Composes a card out of its four features.
    pub fn new(number: Number, shading: Shading, color: Color, shape: Shape) -> (c: Card)
        ensures
            c == Card(number, shading, color, shape),
    {
        Card(number, shading, color, shape)
    }

    /// The number feature of the card.
    pub fn number(&self) -> (n: &Number)
        ensures
            *n == self.0,
    {
        &self.0
    }

    /// The shading feature of the card.
    pub fn shading(&self) -> (s: &Shading)
        ensures
            *s == self.1,
    {
        &self.1
    }

    /// The color feature of the card.
    pub fn color(&self) -> (c: &Color)
        ensures
            *c == self.2,
    {
        &self.2
    }

    /// The shape feature of the card.
    pub fn shape(&self) -> (s: &Shape)
        ensures
            *s == self.3,
    {
        &self.3
    }

    /// Samples each of the four features independently and uniformly and
    /// composes them. Unlike a draw from the deck, two such draws may
    /// yield the same card.
    pub fn random(rng: &mut rand::rngs::ThreadRng) -> Card {
        let n = number_of(crate::rng::random_index_below_3(rng));
        let s = shading_of(crate::rng::random_index_below_3(rng));
        let c = color_of(crate::rng::random_index_below_3(rng));
        let p = shape_of(crate::rng::random_index_below_3(rng));
        Card(n, s, c, p)
    }

    /// Enumerates the full deck: all 81 feature combinations, in the fixed
    /// nested order (number outermost, then shading, then color, then
    /// shape), each combination exactly once.
    pub fn build_deck() -> (deck: Vec<Card>)
        ensures
            deck@.len() == 81,
            forall|i: int| 0 <= i < 81 ==> deck@[i] == card_at(i),
            deck@.no_duplicates(),
            forall|c: Card| deck@.contains(c),
    {
        let mut deck: Vec<Card> = Vec::new();
        let mut i: usize = 0;
        while i < 81
            invariant
                i <= 81,
                deck@.len() == i,
                forall|j: int| 0 <= j < i ==> deck@[j] == card_at(j),
            decreases 81 - i,
        {
            let n = number_of(i / 27);
            let s = shading_of((i / 9) % 3);
            let c = color_of((i / 3) % 3);
            let p = shape_of(i % 3);
            deck.push(Card(n, s, c, p));
            i = i + 1;
        }
        proof {
            assert forall|a: int, b: int|
                0 <= a < deck@.len() && 0 <= b < deck@.len() && a != b implies deck@[a]
                != deck@[b] by {
                lemma_card_index_card_at(a);
                lemma_card_index_card_at(b);
            }
            assert forall|c: Card| deck@.contains(c) by {
                lemma_card_at_card_index(c);
                assert(deck@[card_index(c)] == c);
            }
        }
        deck
    }
}

} // verus!
