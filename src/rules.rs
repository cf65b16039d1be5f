use vstd::prelude::*;
use crate::card::{Card, Rank, Suit, card_key, rank_value};
use crate::hand::Hand;

verus! {

/// The predicate a window of cards must meet.
#[derive(Clone, Copy, Debug, PartialEq, Eq, Structural)]
pub enum RunKind {
    /// Every card has the rank of the window's first card.
    SameRank,
    /// Every card has the suit of the window's first card.
    SameSuit,
    /// Each card's rank is one above the previous card's, or the previous card is an
    /// Ace and this one a Two.
    Rising,
}

/// `b` follows `a` in a run of consecutive ranks (Ace to Two wraps around).
pub open spec fn rank_step(a: Card, b: Card) -> bool {
    let d = rank_value(b.rank) - rank_value(a.rank);
    d == 1 || d == -12
}

/// The `n` cards of `s` starting at `i` form a run of the given kind.
pub open spec fn run_at(s: Seq<Card>, i: int, n: int, kind: RunKind) -> bool {
    match kind {
        RunKind::SameRank => forall|k: int| i <= k < i + n ==> (#[trigger] s[k]).rank == s[i].rank,
        RunKind::SameSuit => forall|k: int| i <= k < i + n ==> (#[trigger] s[k]).suit == s[i].suit,
        RunKind::Rising => forall|k: int| i <= k < i + n - 1 ==> rank_step(#[trigger] s[k], s[k + 1]),
    }
}

/// The greatest start below `hi` of a run of `n` cards.
pub open spec fn last_run(s: Seq<Card>, n: int, kind: RunKind, hi: int) -> Option<int>
    decreases hi,
{
    if hi <= 0 {
        None
    } else if run_at(s, hi - 1, n, kind) {
        Some(hi - 1)
    } else {
        last_run(s, n, kind, hi - 1)
    }
}

/// The least start at or above `lo` of a run of `n` cards that fits in `s`.
pub open spec fn first_run(s: Seq<Card>, n: int, kind: RunKind, lo: int) -> Option<int>
    decreases s.len() - lo,
{
    if lo < 0 || lo + n > s.len() || lo >= s.len() {
        None
    } else if run_at(s, lo, n, kind) {
        Some(lo)
    } else {
        first_run(s, n, kind, lo + 1)
    }
}

/// The start of the last window of `n` cards of `s` that forms a run.
pub open spec fn last_window(s: Seq<Card>, n: int, kind: RunKind) -> Option<int> {
    last_run(s, n, kind, s.len() - n + 1)
}

/// The last window of `n` cards of `s` that forms a run.
pub open spec fn window(s: Seq<Card>, n: int, kind: RunKind) -> Option<Seq<Card>> {
    match last_window(s, n, kind) {
        Some(i) => Some(s.subrange(i, i + n)),
        None => None,
    }
}

/// The cards of `s` of suit `st`, in their order in `s`.
pub open spec fn of_suit(s: Seq<Card>, st: Suit) -> Seq<Card>
    decreases s.len(),
{
    if s.len() == 0 {
        Seq::empty()
    } else {
        let t = of_suit(s.drop_last(), st);
        if s.last().suit == st {
            t.push(s.last())
        } else {
            t
        }
    }
}

/// `s` stably sorted by suit: all spades, then hearts, diamonds and clubs, each
/// group in its order in `s`.
pub open spec fn by_suit(s: Seq<Card>) -> Seq<Card> {
    of_suit(s, Suit::Spades) + of_suit(s, Suit::Hearts) + of_suit(s, Suit::Diamonds) + of_suit(
        s,
        Suit::Clubs,
    )
}

/// `s` without the cards of rank `r`.
pub open spec fn without_rank(s: Seq<Card>, r: Rank) -> Seq<Card>
    decreases s.len(),
{
    if s.len() == 0 {
        Seq::empty()
    } else {
        let t = without_rank(s.drop_last(), r);
        if s.last().rank == r {
            t
        } else {
            t.push(s.last())
        }
    }
}

/// The last window of `n` cards of equal rank.
pub open spec fn rank_window(s: Seq<Card>, n: int) -> Option<Seq<Card>> {
    window(s, n, RunKind::SameRank)
}

/// The last window of `n` cards of equal suit once `s` is sorted by suit.
pub open spec fn suit_window(s: Seq<Card>, n: int) -> Option<Seq<Card>> {
    window(by_suit(s), n, RunKind::SameSuit)
}

/// The last window of `n` cards of consecutive ranks.
pub open spec fn rising_window(s: Seq<Card>, n: int) -> Option<Seq<Card>> {
    window(s, n, RunKind::Rising)
}

/// `s` with its last card moved to the front.
pub open spec fn ace_low(s: Seq<Card>) -> Seq<Card> {
    seq![s.last()] + s.drop_last()
}

/// The cards of the highest straight in `s`, or of the wheel (Ace, Two, ..., Five)
/// when `s` starts with a Two and ends with an Ace.
pub open spec fn straight_run(s: Seq<Card>) -> Option<Seq<Card>> {
    match rising_window(s, 5) {
        Some(w) => Some(w),
        None => if s.len() > 0 && s[0].rank == Rank::Two && s.last().rank == Rank::Ace {
            rising_window(ace_low(s), 5)
        } else {
            None
        },
    }
}

pub open spec fn arr2(w: Seq<Card>) -> [Card; 2] {
    [w[0], w[1]]
}

pub open spec fn arr3(w: Seq<Card>) -> [Card; 3] {
    [w[0], w[1], w[2]]
}

pub open spec fn arr5(w: Seq<Card>) -> [Card; 5] {
    [w[0], w[1], w[2], w[3], w[4]]
}

pub open spec fn high_card_of(s: Seq<Card>) -> Option<Hand> {
    if s.len() > 0 {
        Some(Hand::HighCard(s.last()))
    } else {
        None
    }
}

pub open spec fn pair_of(s: Seq<Card>) -> Option<Hand> {
    match rank_window(s, 2) {
        Some(w) => Some(Hand::Pair(arr2(w))),
        None => None,
    }
}

pub open spec fn two_pair_of(s: Seq<Card>) -> Option<Hand> {
    match rank_window(s, 2) {
        Some(w) => match rank_window(without_rank(s, w[0].rank), 2) {
            Some(v) => Some(Hand::TwoPair(arr2(w), arr2(v))),
            None => None,
        },
        None => None,
    }
}

pub open spec fn three_of_a_kind_of(s: Seq<Card>) -> Option<Hand> {
    match rank_window(s, 3) {
        Some(w) => Some(Hand::ThreeOfAKind(arr3(w))),
        None => None,
    }
}

pub open spec fn straight_of(s: Seq<Card>) -> Option<Hand> {
    match straight_run(s) {
        Some(w) => Some(Hand::Straight(arr5(w))),
        None => None,
    }
}

pub open spec fn flush_of(s: Seq<Card>) -> Option<Hand> {
    match suit_window(s, 5) {
        Some(w) => Some(Hand::Flush(arr5(w))),
        None => None,
    }
}

pub open spec fn full_house_of(s: Seq<Card>) -> Option<Hand> {
    match rank_window(s, 3) {
        Some(w) => match rank_window(without_rank(s, w[0].rank), 2) {
            Some(v) => Some(Hand::FullHouse(arr3(w), arr2(v))),
            None => None,
        },
        None => None,
    }
}

/// Four of a kind: the first window of four equal ranks.
pub open spec fn four_of_a_kind_of(s: Seq<Card>) -> Option<Hand> {
    match first_run(s, 4, RunKind::SameRank, 0) {
        Some(i) => Some(Hand::FourOfAKind([s[i], s[i + 1], s[i + 2], s[i + 3]])),
        None => None,
    }
}

/// A straight among the five cards of the flush.
pub open spec fn straight_flush_of(s: Seq<Card>) -> Option<Hand> {
    match suit_window(s, 5) {
        Some(f) => match straight_run(f) {
            Some(w) => Some(Hand::StraightFlush(arr5(w))),
            None => None,
        },
        None => None,
    }
}

/// A straight flush whose lowest card is a Ten.
pub open spec fn royal_flush_of(s: Seq<Card>) -> Option<Hand> {
    match straight_flush_of(s) {
        Some(Hand::StraightFlush(a)) => if a[0].rank == Rank::Ten {
            Some(Hand::RoyalFlush(a))
        } else {
            None
        },
        _ => None,
    }
}

/// The detector at position `k` of the priority order, strongest first.
pub open spec fn detect(s: Seq<Card>, k: int) -> Option<Hand> {
    if k == 0 {
        royal_flush_of(s)
    } else if k == 1 {
        straight_flush_of(s)
    } else if k == 2 {
        four_of_a_kind_of(s)
    } else if k == 3 {
        full_house_of(s)
    } else if k == 4 {
        flush_of(s)
    } else if k == 5 {
        straight_of(s)
    } else if k == 6 {
        three_of_a_kind_of(s)
    } else if k == 7 {
        two_pair_of(s)
    } else if k == 8 {
        pair_of(s)
    } else {
        high_card_of(s)
    }
}

/// What the first `k` detectors find in `s`, in priority order.
pub open spec fn found_upto(s: Seq<Card>, k: int) -> Seq<Hand>
    decreases k,
{
    if k <= 0 {
        Seq::empty()
    } else {
        match detect(s, k - 1) {
            Some(h) => found_upto(s, k - 1).push(h),
            None => found_upto(s, k - 1),
        }
    }
}

/// Every hand that the detectors find in a working set, strongest category first.
pub open spec fn classify(s: Seq<Card>) -> Seq<Hand> {
    found_upto(s, 10)
}

/// Where `c` goes in `s` (from `i` on) to keep `s` sorted: after every card that does
/// not order above it.
pub open spec fn insert_pos(s: Seq<Card>, c: Card, i: int) -> int
    decreases s.len() - i,
{
    if i >= s.len() {
        s.len() as int
    } else if card_key(c) < card_key(s[i]) {
        i
    } else {
        insert_pos(s, c, i + 1)
    }
}

/// `s` sorted ascending by rank, then suit (by insertion).
pub open spec fn sort_cards(s: Seq<Card>) -> Seq<Card>
    decreases s.len(),
{
    if s.len() == 0 {
        s
    } else {
        let t = sort_cards(s.drop_last());
        t.insert(insert_pos(t, s.last(), 0), s.last())
    }
}

/// The working set of a table and a hand: all their cards, sorted.
pub open spec fn working_set(table: Seq<Card>, hand: Seq<Card>) -> Seq<Card> {
    sort_cards(table + hand)
}

/// Every hand found on a table with a player's hand, strongest category first.
pub open spec fn all_hands_of(table: Seq<Card>, hand: Seq<Card>) -> Seq<Hand> {
    classify(working_set(table, hand))
}

/// The best hand found on a table with a player's hand.
pub open spec fn best_hand_of(table: Seq<Card>, hand: Seq<Card>) -> Hand {
    all_hands_of(table, hand)[0]
}

/// `s` is ascending by rank, then suit.
pub open spec fn is_sorted(s: Seq<Card>) -> bool {
    forall|i: int, j: int| 0 <= i < j < s.len() ==> card_key(#[trigger] s[i]) <= card_key(
        #[trigger] s[j],
    )
}

pub proof fn lemma_last_run_bounds(s: Seq<Card>, n: int, kind: RunKind, hi: int)
    ensures
        last_run(s, n, kind, hi) matches Some(i) ==> 0 <= i < hi && run_at(s, i, n, kind),
    decreases hi,
{
    if hi > 0 && !run_at(s, hi - 1, n, kind) {
        lemma_last_run_bounds(s, n, kind, hi - 1);
    }
}

pub proof fn lemma_first_run_bounds(s: Seq<Card>, n: int, kind: RunKind, lo: int)
    ensures
        first_run(s, n, kind, lo) matches Some(i) ==> lo <= i && 0 <= i && i + n <= s.len()
            && run_at(s, i, n, kind),
    decreases s.len() - lo,
{
    if !(lo < 0 || lo + n > s.len() || lo >= s.len()) && !run_at(s, lo, n, kind) {
        lemma_first_run_bounds(s, n, kind, lo + 1);
    }
}

pub proof fn lemma_window_len(s: Seq<Card>, n: int, kind: RunKind)
    requires
        n >= 0,
    ensures
        window(s, n, kind) matches Some(w) ==> w.len() == n,
{
    lemma_last_run_bounds(s, n, kind, s.len() - n + 1);
}

pub proof fn lemma_insert_pos_bounds(s: Seq<Card>, c: Card, i: int)
    requires
        0 <= i <= s.len(),
    ensures
        i <= insert_pos(s, c, i) <= s.len(),
    decreases s.len() - i,
{
    if i < s.len() && card_key(c) >= card_key(s[i]) {
        lemma_insert_pos_bounds(s, c, i + 1);
    }
}

pub proof fn lemma_sort_cards_len(s: Seq<Card>)
    ensures
        sort_cards(s).len() == s.len(),
    decreases s.len(),
{
    if s.len() > 0 {
        let t = sort_cards(s.drop_last());
        lemma_sort_cards_len(s.drop_last());
        lemma_insert_pos_bounds(t, s.last(), 0);
    }
}

} // verus!
