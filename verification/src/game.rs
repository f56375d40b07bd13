use vstd::prelude::*;
use vstd::arithmetic::mul::lemma_mul_inequality;
use vstd::seq_lib::group_to_multiset_ensures;
use crate::card::Card;
use crate::rng;
use crate::triple::{is_set, SetStatus, Triple};

verus! {

/// A board: the cards dealt for one round, in dealt order.
pub struct CardGame(pub Vec<Card>);

/// How many set triples stand at positions `(i, j, x)` with `x >= k`.
pub open spec fn sets_with_pair_from(s: Seq<Card>, i: int, j: int, k: int) -> nat
    decreases s.len() - k,
{
    if k < 0 || k >= s.len() {
        0
    } else {
        (if is_set(s[i], s[j], s[k]) {
            1nat
        } else {
            0nat
        }) + sets_with_pair_from(s, i, j, k + 1)
    }
}

/// How many set triples stand at positions `(i, x, y)` with `j <= x < y`.
pub open spec fn sets_with_first_from(s: Seq<Card>, i: int, j: int) -> nat
    decreases s.len() - j,
{
    if j < 0 || j >= s.len() {
        0
    } else {
        sets_with_pair_from(s, i, j, j + 1) + sets_with_first_from(s, i, j + 1)
    }
}

/// How many set triples stand at positions `(x, y, z)` with `i <= x < y < z`.
pub open spec fn sets_from(s: Seq<Card>, i: int) -> nat
    decreases s.len() - i,
{
    if i < 0 || i >= s.len() {
        0
    } else {
        sets_with_first_from(s, i, i + 1) + sets_from(s, i + 1)
    }
}

/// The number of set triples among all three-card combinations of the
/// board, each unordered combination counted once.
pub open spec fn count_sets_spec(s: Seq<Card>) -> nat {
    sets_from(s, 0)
}

proof fn lemma_sets_with_pair_bound(s: Seq<Card>, i: int, j: int, k: int)
    requires
        0 <= k <= s.len(),
    ensures
        sets_with_pair_from(s, i, j, k) <= s.len() - k,
    decreases s.len() - k,
{
    if k < s.len() {
        lemma_sets_with_pair_bound(s, i, j, k + 1);
    }
}

proof fn lemma_sets_with_first_bound(s: Seq<Card>, i: int, j: int)
    requires
        0 <= j <= s.len(),
    ensures
        sets_with_first_from(s, i, j) <= (s.len() - j) * s.len(),
    decreases s.len() - j,
{
    if j < s.len() {
        lemma_sets_with_pair_bound(s, i, j, j + 1);
        lemma_sets_with_first_bound(s, i, j + 1);
        assert((s.len() - j) * s.len() == s.len() + (s.len() - (j + 1)) * s.len())
            by (nonlinear_arith);
    }
}

proof fn lemma_sets_from_bound(s: Seq<Card>, i: int)
    requires
        0 <= i <= s.len(),
    ensures
        sets_from(s, i) <= (s.len() - i) * s.len() * s.len(),
    decreases s.len() - i,
{
    if i < s.len() {
        lemma_sets_with_first_bound(s, i, i + 1);
        lemma_sets_from_bound(s, i + 1);
        assert((s.len() - (i + 1)) * s.len() <= s.len() * s.len()) by (nonlinear_arith)
            requires
                0 <= i < s.len(),
        ;
        assert((s.len() - i) * s.len() * s.len() == s.len() * s.len() + (s.len() - (i + 1))
            * s.len() * s.len()) by (nonlinear_arith);
    }
}

proof fn lemma_sets_with_first_from_small(s: Seq<Card>, i: int, j: int)
    requires
        s.len() <= 2,
        j >= 1,
    ensures
        sets_with_first_from(s, i, j) == 0,
    decreases s.len() - j,
{
    if j < s.len() {
        lemma_sets_with_first_from_small(s, i, j + 1);
    }
}

proof fn lemma_sets_from_small(s: Seq<Card>, i: int)
    requires
        s.len() <= 2,
        i >= 0,
    ensures
        sets_from(s, i) == 0,
    decreases s.len() - i,
{
    if i < s.len() {
        lemma_sets_with_first_from_small(s, i, i + 1);
        lemma_sets_from_small(s, i + 1);
    }
}

/// A board of fewer than three cards has no three-card combination, so
/// its set count is zero.
pub proof fn lemma_small_board_has_no_sets(s: Seq<Card>)
    requires
        s.len() < 3,
    ensures
        count_sets_spec(s) == 0,
{
    lemma_sets_from_small(s, 0);
}

/// The set count of a board of at most 81 cards fits comfortably below
/// the cube of the deck size.
proof fn lemma_count_sets_small_board(s: Seq<Card>)
    requires
        s.len() <= 81,
    ensures
        count_sets_spec(s) <= 531441,
{
    lemma_sets_from_bound(s, 0);
    lemma_mul_inequality(s.len() as int, 81, s.len() as int);
    assert(s.len() * s.len() * s.len() <= 531441) by (nonlinear_arith)
        requires
            s.len() <= 81,
    ;
}

impl CardGame {
    /// Counts the set triples among all three-card combinations of the
    /// board. A board is a draw from the deck, so it holds at most the 81
    /// cards there are.
    pub fn count_sets(&self) -> (count: usize)
        requires
            self.0@.len() <= 81,
        ensures
            count == count_sets_spec(self.0@),
    {
        let cards = &self.0;
        let ghost s = cards@;
        let n = cards.len();
        let mut count: usize = 0;
        proof {
            lemma_count_sets_small_board(s);
        }
        let mut i: usize = 0;
        while i < n
            invariant
                s == cards@,
                n == s.len() <= 81,
                i <= n,
                count_sets_spec(s) <= 531441,
                count + sets_from(s, i as int) == count_sets_spec(s),
            decreases n - i,
        {
            let mut j = i + 1;
            proof {
                assert(sets_from(s, i as int) == sets_with_first_from(s, i as int, i + 1)
                    + sets_from(s, i + 1));
            }
            while j < n
                invariant
                    s == cards@,
                    n == s.len() <= 81,
                    i < n,
                    i + 1 <= j <= n,
                    count_sets_spec(s) <= 531441,
                    count + sets_with_first_from(s, i as int, j as int) + sets_from(s, i + 1)
                        == count_sets_spec(s),
                decreases n - j,
            {
                let mut k = j + 1;
                proof {
                    assert(sets_with_first_from(s, i as int, j as int) == sets_with_pair_from(
                        s,
                        i as int,
                        j as int,
                        j + 1,
                    ) + sets_with_first_from(s, i as int, j + 1));
                }
                while k < n
                    invariant
                        s == cards@,
                        n == s.len() <= 81,
                        i < n,
                        i < j < n,
                        j + 1 <= k <= n,
                        count_sets_spec(s) <= 531441,
                        count + sets_with_pair_from(s, i as int, j as int, k as int)
                            + sets_with_first_from(s, i as int, j + 1) + sets_from(s, i + 1)
                            == count_sets_spec(s),
                    decreases n - k,
                {
                    proof {
                        assert(sets_with_pair_from(s, i as int, j as int, k as int) == (if is_set(
                            s[i as int],
                            s[j as int],
                            s[k as int],
                        ) {
                            1nat
                        } else {
                            0nat
                        }) + sets_with_pair_from(s, i as int, j as int, k + 1));
                    }
                    let t = Triple::new(cards[i], cards[j], cards[k]);
                    match t.is_a_set() {
                        SetStatus::IsASet => {
                            count = count + 1;
                        },
                        SetStatus::NotASet(_) => {},
                    }
                    k = k + 1;
                }
                j = j + 1;
            }
            i = i + 1;
        }
        count
    }

    /// Draws a board of `num_cards` distinct cards: a uniform shuffle of
    /// the deck indices, keeping the cards at the first `num_cards` of
    /// them.
    pub fn generate(deck: &Vec<Card>, num_cards: usize, rng: &mut rand::rngs::ThreadRng) -> (g:
        CardGame)
        requires
            num_cards <= deck@.len(),
            deck@.no_duplicates(),
        ensures
            g.0@.len() == num_cards,
            g.0@.no_duplicates(),
            forall|t: int| 0 <= t < num_cards ==> deck@.contains(#[trigger] g.0@[t]),
    {
        broadcast use group_to_multiset_ensures;

        let n = deck.len();
        let mut idx: Vec<usize> = Vec::new();
        let mut v: usize = 0;
        while v < n
            invariant
                v <= n,
                idx@.len() == v,
                forall|t: int| 0 <= t < v ==> idx@[t] == t,
            decreases n - v,
        {
            idx.push(v);
            v = v + 1;
        }
        let ghost fresh = idx@;
        proof {
            assert(fresh.no_duplicates());
            fresh.lemma_multiset_has_no_duplicates();
        }
        rng::shuffle(&mut idx, rng);
        proof {
            idx@.to_multiset_ensures();
            fresh.to_multiset_ensures();
            assert(idx@.len() == n);
            idx@.lemma_multiset_has_no_duplicates_conv();
            assert forall|t: int| 0 <= t < idx@.len() implies idx@[t] < n by {
                assert(idx@.contains(idx@[t]));
                assert(fresh.to_multiset().count(idx@[t]) > 0);
                assert(fresh.contains(idx@[t]));
                let w = choose|w: int| 0 <= w < fresh.len() && fresh[w] == idx@[t];
            }
        }
        let mut board: Vec<Card> = Vec::new();
        let mut t: usize = 0;
        while t < num_cards
            invariant
                t <= num_cards,
                num_cards <= deck@.len(),
                idx@.len() == deck@.len(),
                idx@.no_duplicates(),
                forall|u: int| 0 <= u < idx@.len() ==> idx@[u] < deck@.len(),
                deck@.no_duplicates(),
                board@.len() == t,
                forall|u: int| 0 <= u < t ==> board@[u] == deck@[idx@[u] as int],
            decreases num_cards - t,
        {
            let id = idx[t];
            board.push(deck[id]);
            t = t + 1;
        }
        proof {
            assert forall|u1: int, u2: int|
                0 <= u1 < board@.len() && 0 <= u2 < board@.len() && u1 != u2 implies board@[u1]
                != board@[u2] by {
                assert(idx@[u1] != idx@[u2]);
            }
            assert forall|u: int| 0 <= u < num_cards implies deck@.contains(
                #[trigger] board@[u],
            ) by {
                assert(board@[u] == deck@[idx@[u] as int]);
            }
        }
        CardGame(board)
    }

    /// Rejection sampling with a cap: draws boards from the full deck
    /// until one shows exactly `num_sets` set triples, giving up after
    /// `max_attempts` draws. A returned board is always of the requested
    /// size, free of duplicate cards, and has the exact set count. Whether
    /// a draw within the cap succeeds depends on the random source alone,
    /// except below three cards, where every draw counts zero sets: there
    /// the first draw already settles the answer either way.
    pub fn generate_capped(num_cards: usize, num_sets: usize, max_attempts: u64) -> (r: Option<
        CardGame,
    >)
        requires
            num_cards <= 81,
        ensures
            match r {
                Some(g) => g.0@.len() == num_cards && g.0@.no_duplicates() && count_sets_spec(g.0@)
                    == num_sets,
                None => true,
            },
            num_cards < 3 && num_sets == 0 && max_attempts > 0 ==> r is Some,
            num_cards < 3 && num_sets > 0 ==> r is None,
    {
        let deck = Card::build_deck();
        let mut rng = rng::fresh_rng();
        let mut attempt: u64 = 0;
        while attempt < max_attempts
            invariant
                num_cards <= 81,
                deck@.len() == 81,
                deck@.no_duplicates(),
                attempt > 0 ==> !(num_cards < 3 && num_sets == 0),
            decreases max_attempts - attempt,
        {
            let g = Self::generate(&deck, num_cards, &mut rng);
            proof {
                if num_cards < 3 {
                    lemma_small_board_has_no_sets(g.0@);
                }
            }
            if g.count_sets() == num_sets {
                return Some(g);
            }
            attempt = attempt + 1;
        }
        None
    }

    /// Rejection sampling at a generous default cap of draws.
    pub fn generate_fixed(num_cards: usize, num_sets: usize) -> (r: Option<CardGame>)
        requires
            num_cards <= 81,
        ensures
            match r {
                Some(g) => g.0@.len() == num_cards && g.0@.no_duplicates() && count_sets_spec(g.0@)
                    == num_sets,
                None => true,
            },
            num_cards < 3 && num_sets == 0 ==> r is Some,
            num_cards < 3 && num_sets > 0 ==> r is None,
    {
        Self::generate_capped(num_cards, num_sets, DEFAULT_MAX_ATTEMPTS)
    }
}

/// How many draws the rejection loop of `generate_fixed` makes before it
/// gives up: plentiful for the intended parameters, where a satisfying
/// board is common.
pub const DEFAULT_MAX_ATTEMPTS: u64 = 100000;

} // verus!
