use vstd::prelude::*;
use itertools::Itertools;
use rand::seq::SliceRandom;
use crate::card::{Card, Rank, Suit, rank_at, suit_at};
use crate::rules::{
    RunKind, run_at, last_run, last_window, first_run, window, by_suit, without_rank,
    rank_window, suit_window, rising_window, ace_low, straight_run, insert_pos, sort_cards, is_sorted,
    lemma_last_run_bounds, lemma_first_run_bounds, lemma_window_len, lemma_insert_pos_bounds,
};

verus! {

/// An ordered collection of cards: a deck, a table or a player's hand.
#[derive(Clone, Debug)]
pub struct Deck {
    pub cards: Vec<Card>,
}

/// The cards of an optional vector, as a sequence.
pub open spec fn cards_of(o: Option<Vec<Card>>) -> Option<Seq<Card>> {
    match o {
        Some(v) => Some(v@),
        None => None,
    }
}

/// An optional index, as an integer.
pub open spec fn index_of(o: Option<usize>) -> Option<int> {
    match o {
        Some(i) => Some(i as int),
        None => None,
    }
}

impl From<Vec<Card>> for Deck {
    fn from(cards: Vec<Card>) -> (r: Deck)
        ensures
            r.cards@ == cards@,
    {
        Deck { cards }
    }
}

impl vstd::std_specs::convert::FromSpecImpl<Vec<Card>> for Deck {
    open spec fn obeys_from_spec() -> bool {
        true
    }

    open spec fn from_spec(cards: Vec<Card>) -> Deck {
        Deck { cards }
    }
}

/// Relies on itertools::Itertools::sorted_by_key, a stable sort: the result holds the
/// spades, then the hearts, diamonds and clubs, each group in its order in `cards`.
#[verifier::external_body]
fn sort_by_suit(cards: &Vec<Card>) -> (r: Vec<Card>)
    ensures
        r@ == by_suit(cards@),
{
    cards.iter().sorted_by_key(|c| c.suit.value()).cloned().collect()
}

/// Relies on rand::seq::SliceRandom::shuffle with rand::thread_rng: the cards are
/// permuted in place (swaps only); which permutation comes out is random.
#[verifier::external_body]
fn shuffle_cards(cards: &mut Vec<Card>)
    ensures
        final(cards)@.to_multiset() == old(cards)@.to_multiset(),
        final(cards)@.len() == old(cards)@.len(),
{
    let mut rng = rand::thread_rng();
    cards.shuffle(&mut rng);
}

/// Every card whose rank is at position `lowest` or above, in rank order and, within a
/// rank, in suit order.
fn cards_from_rank(lowest: u8) -> (r: Vec<Card>)
    requires
        lowest < 13,
    ensures
        r@.len() == 4 * (13 - lowest),
        forall|i: int|
            0 <= i < r@.len() ==> #[trigger] r@[i] == (Card {
                rank: rank_at(i / 4 + lowest),
                suit: suit_at(i % 4),
            }),
{
    let mut out: Vec<Card> = Vec::new();
    let mut r: u8 = lowest;
    while r < 13
        invariant
            lowest <= r <= 13,
            out@.len() == 4 * (r - lowest),
            forall|i: int|
                0 <= i < out@.len() ==> #[trigger] out@[i] == (Card {
                    rank: rank_at(i / 4 + lowest),
                    suit: suit_at(i % 4),
                }),
        decreases 13 - r,
    {
        let rank = Rank::from_value(r);
        let mut s: u8 = 0;
        while s < 4
            invariant
                lowest <= r < 13,
                s <= 4,
                rank == rank_at(r as int),
                out@.len() == 4 * (r - lowest) + s,
                forall|i: int|
                    0 <= i < out@.len() ==> #[trigger] out@[i] == (Card {
                        rank: rank_at(i / 4 + lowest),
                        suit: suit_at(i % 4),
                    }),
            decreases 4 - s,
        {
            let ghost i = out@.len() as int;
            out.push(Card { rank, suit: Suit::from_value(s) });
            assert(i / 4 + lowest == r) by (nonlinear_arith)
                requires
                    i == 4 * (r - lowest) + s,
                    0 <= s < 4,
            ;
            assert(i % 4 == s) by (nonlinear_arith)
                requires
                    i == 4 * (r - lowest) + s,
                    0 <= s < 4,
                    r >= lowest,
            ;
            s = s + 1;
        }
        r = r + 1;
    }
    out
}

/// Whether the `n` cards starting at `i` form a run of the given kind.
pub(crate) fn run_matches(cards: &Vec<Card>, i: usize, n: usize, kind: RunKind) -> (r: bool)
    requires
        i + n <= cards.len(),
        n >= 1,
    ensures
        r == run_at(cards@, i as int, n as int, kind),
{
    let mut k = i;
    let end = i + n;
    match kind {
        RunKind::SameRank => {
            while k < end
                invariant
                    i <= k <= end,
                    end == i + n,
                    end <= cards@.len(),
                    kind == RunKind::SameRank,
                    forall|j: int| i <= j < k ==> (#[trigger] cards@[j]).rank == cards@[i as int].rank,
                decreases i + n - k,
            {
                if cards[k].rank != cards[i].rank {
                    assert(cards@[k as int].rank != cards@[i as int].rank);
                    assert(!run_at(cards@, i as int, n as int, kind));
                    return false;
                }
                k = k + 1;
            }
            true
        },
        RunKind::SameSuit => {
            while k < end
                invariant
                    i <= k <= end,
                    end == i + n,
                    end <= cards@.len(),
                    kind == RunKind::SameSuit,
                    forall|j: int| i <= j < k ==> (#[trigger] cards@[j]).suit == cards@[i as int].suit,
                decreases i + n - k,
            {
                if cards[k].suit != cards[i].suit {
                    assert(cards@[k as int].suit != cards@[i as int].suit);
                    assert(!run_at(cards@, i as int, n as int, kind));
                    return false;
                }
                k = k + 1;
            }
            true
        },
        RunKind::Rising => {
            while k + 1 < end
                invariant
                    i <= k,
                    k + 1 <= end || k == i,
                    kind == RunKind::Rising,
                    end == i + n,
                    end <= cards@.len(),
                    n >= 1,
                    forall|j: int|
                        i <= j < k ==> crate::rules::rank_step(#[trigger] cards@[j], cards@[j + 1]),
                decreases i + n - k,
            {
                let a = cards[k].rank.value();
                let b = cards[k + 1].rank.value();
                if !(a + 1 == b || a == b + 12) {
                    assert(!crate::rules::rank_step(cards@[k as int], cards@[k + 1]));
                    assert(!run_at(cards@, i as int, n as int, kind));
                    return false;
                }
                k = k + 1;
            }
            true
        },
    }
}

/// The start of the last window of `n` cards that forms a run.
fn last_run_start(cards: &Vec<Card>, n: usize, kind: RunKind) -> (r: Option<usize>)
    requires
        n >= 1,
    ensures
        index_of(r) == last_window(cards@, n as int, kind),
{
    let len = cards.len();
    if len < n {
        return None;
    }
    let mut hi = len - n + 1;
    while hi > 0
        invariant
            hi <= len - n + 1,
            len == cards@.len(),
            n <= len,
            n >= 1,
            last_window(cards@, n as int, kind) == last_run(cards@, n as int, kind, hi as int),
        decreases hi,
    {
        if run_matches(cards, hi - 1, n, kind) {
            return Some(hi - 1);
        }
        hi = hi - 1;
    }
    None
}

/// The `n` cards of `cards` starting at `i`.
fn slice_of(cards: &Vec<Card>, i: usize, n: usize) -> (r: Vec<Card>)
    requires
        i + n <= cards.len(),
    ensures
        r@ == cards@.subrange(i as int, i + n),
{
    let mut out: Vec<Card> = Vec::new();
    let mut k: usize = 0;
    while k < n
        invariant
            k <= n,
            i + n <= cards.len(),
            out@ == cards@.subrange(i as int, i + k),
        decreases n - k,
    {
        out.push(cards[i + k]);
        assert(cards@.subrange(i as int, i + k + 1) =~= cards@.subrange(i as int, i + k).push(
            cards@[i + k],
        ));
        k = k + 1;
    }
    out
}

/// The last window of `n` cards that forms a run.
fn last_run_of(cards: &Vec<Card>, n: usize, kind: RunKind) -> (r: Option<Vec<Card>>)
    requires
        n >= 1,
    ensures
        cards_of(r) == window(cards@, n as int, kind),
        r matches Some(w) ==> w@.len() == n,
{
    proof {
        lemma_last_run_bounds(cards@, n as int, kind, cards@.len() - n + 1);
        lemma_window_len(cards@, n as int, kind);
    }
    match last_run_start(cards, n, kind) {
        Some(i) => Some(slice_of(cards, i, n)),
        None => None,
    }
}

/// `cards` without the cards of rank `rank`.
pub(crate) fn without_rank_of(cards: &Vec<Card>, rank: Rank) -> (r: Vec<Card>)
    ensures
        r@ == without_rank(cards@, rank),
{
    let mut out: Vec<Card> = Vec::new();
    let mut i: usize = 0;
    while i < cards.len()
        invariant
            i <= cards@.len(),
            out@ == without_rank(cards@.subrange(0, i as int), rank),
        decreases cards@.len() - i,
    {
        assert(cards@.subrange(0, i + 1).drop_last() =~= cards@.subrange(0, i as int));
        if cards[i].rank != rank {
            out.push(cards[i]);
        }
        i = i + 1;
    }
    assert(cards@.subrange(0, cards@.len() as int) =~= cards@);
    out
}

/// `cards` with the last card moved to the front.
pub(crate) fn rotate_last_to_front(cards: &Vec<Card>) -> (r: Vec<Card>)
    requires
        cards@.len() > 0,
    ensures
        r@ == ace_low(cards@),
{
    let len = cards.len();
    let mut out: Vec<Card> = Vec::new();
    out.push(cards[len - 1]);
    let mut i: usize = 0;
    while i < len - 1
        invariant
            i <= len - 1,
            len == cards@.len(),
            len > 0,
            out@ == seq![cards@.last()] + cards@.subrange(0, i as int),
        decreases len - i,
    {
        out.push(cards[i]);
        assert(seq![cards@.last()] + cards@.subrange(0, i + 1) =~= (seq![cards@.last()]
            + cards@.subrange(0, i as int)).push(cards@[i as int]));
        i = i + 1;
    }
    assert(cards@.drop_last() =~= cards@.subrange(0, len - 1));
    out
}

/// The cards of `cards` in the same order.
pub(crate) fn copy_cards(cards: &Vec<Card>) -> (r: Vec<Card>)
    ensures
        r@ == cards@,
{
    let mut out: Vec<Card> = Vec::new();
    let mut i: usize = 0;
    while i < cards.len()
        invariant
            i <= cards@.len(),
            out@ == cards@.subrange(0, i as int),
        decreases cards@.len() - i,
    {
        out.push(cards[i]);
        assert(cards@.subrange(0, i + 1) =~= cards@.subrange(0, i as int).push(cards@[i as int]));
        i = i + 1;
    }
    assert(cards@.subrange(0, cards@.len() as int) =~= cards@);
    out
}

/// Where `c` goes in sorted `cards`: after every card that does not order above it.
fn insert_position(cards: &Vec<Card>, c: Card) -> (r: usize)
    ensures
        r == insert_pos(cards@, c, 0),
        r <= cards@.len(),
{
    proof {
        lemma_insert_pos_bounds(cards@, c, 0);
    }
    let key = c.key();
    let mut i: usize = 0;
    while i < cards.len()
        invariant
            i <= cards@.len(),
            key == crate::card::card_key(c),
            insert_pos(cards@, c, 0) == insert_pos(cards@, c, i as int),
        decreases cards@.len() - i,
    {
        if key < cards[i].key() {
            return i;
        }
        i = i + 1;
    }
    i
}

impl Deck {
    /// The last window of `n` cards of equal rank in `cards`.
    pub fn same_rank(cards: &Vec<Card>, n: usize) -> (r: Option<Vec<Card>>)
        requires
            n >= 1,
        ensures
            cards_of(r) == rank_window(cards@, n as int),
            r matches Some(w) ==> w@.len() == n,
    {
        last_run_of(cards, n, RunKind::SameRank)
    }

    /// Sorts `cards` by suit (keeping rank order within a suit), then takes the last
    /// window of `n` cards of equal suit.
    pub fn same_suit(cards: &Vec<Card>, n: usize) -> (r: Option<Vec<Card>>)
        requires
            n >= 1,
        ensures
            cards_of(r) == suit_window(cards@, n as int),
            r matches Some(w) ==> w@.len() == n,
    {
        let sorted = sort_by_suit(cards);
        last_run_of(&sorted, n, RunKind::SameSuit)
    }

    /// The last window of `n` cards whose ranks rise by one from card to card, an Ace
    /// followed by a Two counting as a rise.
    pub fn consecutive(cards: &Vec<Card>, n: usize) -> (r: Option<Vec<Card>>)
        requires
            n >= 2,
        ensures
            cards_of(r) == rising_window(cards@, n as int),
            r matches Some(w) ==> w@.len() == n,
    {
        last_run_of(cards, n, RunKind::Rising)
    }

    /// The 52-card deck: every rank from Two to Ace in every suit, ordered by rank, then
    /// suit.
    pub fn french() -> (r: Deck)
        ensures
            r.cards@.len() == 52,
            forall|i: int|
                0 <= i < 52 ==> #[trigger] r.cards@[i] == (Card {
                    rank: rank_at(i / 4),
                    suit: suit_at(i % 4),
                }),
    {
        Deck { cards: cards_from_rank(0) }
    }

    /// The 36-card deck: every rank from Six to Ace in every suit, ordered by rank, then
    /// suit.
    pub fn russian() -> (r: Deck)
        ensures
            r.cards@.len() == 36,
            forall|i: int|
                0 <= i < 36 ==> #[trigger] r.cards@[i] == (Card {
                    rank: rank_at(i / 4 + 4),
                    suit: suit_at(i % 4),
                }),
    {
        Deck { cards: cards_from_rank(4) }
    }

    /// The same cards in a random order.
    pub fn shuffle(self) -> (r: Deck)
        ensures
            r.cards@.to_multiset() == self.cards@.to_multiset(),
            r.cards@.len() == self.cards@.len(),
    {
        let mut cards = self.cards;
        shuffle_cards(&mut cards);
        Deck { cards }
    }

    /// The cards sorted ascending by rank, then suit.
    pub fn sort(self) -> (r: Deck)
        ensures
            r.cards@ == sort_cards(self.cards@),
            is_sorted(r.cards@),
            r.cards@.to_multiset() == self.cards@.to_multiset(),
    {
        proof {
            crate::laws::sort_cards_sorts(self.cards@);
        }
        let mut out: Vec<Card> = Vec::new();
        let mut i: usize = 0;
        while i < self.cards.len()
            invariant
                i <= self.cards@.len(),
                out@ == sort_cards(self.cards@.subrange(0, i as int)),
            decreases self.cards@.len() - i,
        {
            let c = self.cards[i];
            let p = insert_position(&out, c);
            out.insert(p, c);
            assert(self.cards@.subrange(0, i + 1).drop_last() =~= self.cards@.subrange(0, i as int));
            i = i + 1;
        }
        assert(self.cards@.subrange(0, self.cards@.len() as int) =~= self.cards@);
        Deck { cards: out }
    }

    /// Takes the first `n` cards off the deck.
    pub fn deal(&mut self, n: usize) -> (r: Deck)
        requires
            n <= old(self).cards@.len(),
        ensures
            r.cards@ == old(self).cards@.subrange(0, n as int),
            final(self).cards@ == old(self).cards@.subrange(n as int, old(self).cards@.len() as int),
    {
        let mut rest = self.cards.split_off(n);
        std::mem::swap(&mut self.cards, &mut rest);
        Deck { cards: rest }
    }

    /// The cards of `self` followed by those of `other`.
    pub fn merge(self, other: Deck) -> (r: Deck)
        ensures
            r.cards@ == self.cards@ + other.cards@,
    {
        let mut cards = self.cards;
        let mut more = other.cards;
        cards.append(&mut more);
        Deck { cards }
    }
}

} // verus!
