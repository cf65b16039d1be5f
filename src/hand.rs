use vstd::prelude::*;
use std::cmp::Ordering;
use crate::card::{Card, card_key};

verus! {

/// A poker hand category together with the cards that justify it.
#[derive(Clone, Copy, Debug, PartialEq, Eq, PartialOrd, Ord)]
pub enum Hand {
    HighCard(Card),
    Pair([Card; 2]),
    TwoPair([Card; 2], [Card; 2]),
    ThreeOfAKind([Card; 3]),
    Straight([Card; 5]),
    Flush([Card; 5]),
    FullHouse([Card; 3], [Card; 2]),
    FourOfAKind([Card; 4]),
    StraightFlush([Card; 5]),
    RoyalFlush([Card; 5]),
}

/// Number of hand categories.
pub const CATEGORIES: usize = 10;

/// Strength of a hand's category: HighCard is 0, RoyalFlush is 9.
pub open spec fn category(h: Hand) -> int {
    match h {
        Hand::HighCard(_) => 0,
        Hand::Pair(_) => 1,
        Hand::TwoPair(_, _) => 2,
        Hand::ThreeOfAKind(_) => 3,
        Hand::Straight(_) => 4,
        Hand::Flush(_) => 5,
        Hand::FullHouse(_, _) => 6,
        Hand::FourOfAKind(_) => 7,
        Hand::StraightFlush(_) => 8,
        Hand::RoyalFlush(_) => 9,
    }
}

/// The cards a hand holds, in stored order (the first group before the second).
pub open spec fn hand_cards(h: Hand) -> Seq<Card> {
    match h {
        Hand::HighCard(c) => seq![c],
        Hand::Pair(a) => a@,
        Hand::TwoPair(a, b) => a@ + b@,
        Hand::ThreeOfAKind(a) => a@,
        Hand::Straight(a) => a@,
        Hand::Flush(a) => a@,
        Hand::FullHouse(a, b) => a@ + b@,
        Hand::FourOfAKind(a) => a@,
        Hand::StraightFlush(a) => a@,
        Hand::RoyalFlush(a) => a@,
    }
}

/// Lexicographic comparison of two card sequences from position `i` on,
/// each card compared by rank, then suit.
pub open spec fn lex_cmp(x: Seq<Card>, y: Seq<Card>, i: int) -> Ordering
    decreases x.len() - i,
{
    if i >= x.len() || i >= y.len() {
        if x.len() < y.len() {
            Ordering::Less
        } else if x.len() > y.len() {
            Ordering::Greater
        } else {
            Ordering::Equal
        }
    } else if card_key(x[i]) < card_key(y[i]) {
        Ordering::Less
    } else if card_key(x[i]) > card_key(y[i]) {
        Ordering::Greater
    } else {
        lex_cmp(x, y, i + 1)
    }
}

/// The total order on hands: by category, then lexicographically over the stored cards.
pub open spec fn hand_cmp(a: Hand, b: Hand) -> Ordering {
    if category(a) < category(b) {
        Ordering::Less
    } else if category(a) > category(b) {
        Ordering::Greater
    } else {
        lex_cmp(hand_cards(a), hand_cards(b), 0)
    }
}

/// A blank hand of the category with strength `idx`, every card the two of spades.
pub open spec fn blank_hand(idx: int) -> Hand {
    let c = Card { rank: crate::card::Rank::Two, suit: crate::card::Suit::Spades };
    if idx == 0 {
        Hand::HighCard(c)
    } else if idx == 1 {
        Hand::Pair([c, c])
    } else if idx == 2 {
        Hand::TwoPair([c, c], [c, c])
    } else if idx == 3 {
        Hand::ThreeOfAKind([c, c, c])
    } else if idx == 4 {
        Hand::Straight([c, c, c, c, c])
    } else if idx == 5 {
        Hand::Flush([c, c, c, c, c])
    } else if idx == 6 {
        Hand::FullHouse([c, c, c], [c, c])
    } else if idx == 7 {
        Hand::FourOfAKind([c, c, c, c])
    } else if idx == 8 {
        Hand::StraightFlush([c, c, c, c, c])
    } else {
        Hand::RoyalFlush([c, c, c, c, c])
    }
}

impl Hand {
    /// Strength of the hand's category, from 0 (HighCard) to 9 (RoyalFlush).
    pub fn category(&self) -> (r: usize)
        ensures
            r as int == category(*self),
    {
        match self {
            Hand::HighCard(_) => 0,
            Hand::Pair(_) => 1,
            Hand::TwoPair(_, _) => 2,
            Hand::ThreeOfAKind(_) => 3,
            Hand::Straight(_) => 4,
            Hand::Flush(_) => 5,
            Hand::FullHouse(_, _) => 6,
            Hand::FourOfAKind(_) => 7,
            Hand::StraightFlush(_) => 8,
            Hand::RoyalFlush(_) => 9,
        }
    }

    /// A hand of the category with strength `idx`, holding default cards.
    pub fn from_category(idx: usize) -> (r: Hand)
        requires
            idx < CATEGORIES,
        ensures
            r == blank_hand(idx as int),
            category(r) == idx,
    {
        let c = Card::default();
        if idx == 0 {
            Hand::HighCard(c)
        } else if idx == 1 {
            Hand::Pair([c, c])
        } else if idx == 2 {
            Hand::TwoPair([c, c], [c, c])
        } else if idx == 3 {
            Hand::ThreeOfAKind([c, c, c])
        } else if idx == 4 {
            Hand::Straight([c, c, c, c, c])
        } else if idx == 5 {
            Hand::Flush([c, c, c, c, c])
        } else if idx == 6 {
            Hand::FullHouse([c, c, c], [c, c])
        } else if idx == 7 {
            Hand::FourOfAKind([c, c, c, c])
        } else if idx == 8 {
            Hand::StraightFlush([c, c, c, c, c])
        } else {
            Hand::RoyalFlush([c, c, c, c, c])
        }
    }

    /// The cards the hand holds, in stored order.
    pub fn cards(&self) -> (r: Vec<Card>)
        ensures
            r@ == hand_cards(*self),
    {
        let mut v: Vec<Card> = Vec::new();
        match self {
            Hand::HighCard(c) => {
                v.push(*c);
            },
            Hand::Pair(a) => {
                push_all(&mut v, a);
            },
            Hand::TwoPair(a, b) => {
                push_all(&mut v, a);
                push_all(&mut v, b);
            },
            Hand::ThreeOfAKind(a) => {
                push_all(&mut v, a);
            },
            Hand::Straight(a) => {
                push_all(&mut v, a);
            },
            Hand::Flush(a) => {
                push_all(&mut v, a);
            },
            Hand::FullHouse(a, b) => {
                push_all(&mut v, a);
                push_all(&mut v, b);
            },
            Hand::FourOfAKind(a) => {
                push_all(&mut v, a);
            },
            Hand::StraightFlush(a) => {
                push_all(&mut v, a);
            },
            Hand::RoyalFlush(a) => {
                push_all(&mut v, a);
            },
        }
        assert(v@ =~= hand_cards(*self));
        v
    }

    /// Compares two hands: by category first, then card by card over the stored cards.
    pub fn compare(&self, other: &Hand) -> (r: Ordering)
        ensures
            r == hand_cmp(*self, *other),
    {
        let ca = self.category();
        let cb = other.category();
        if ca < cb {
            return Ordering::Less;
        } else if ca > cb {
            return Ordering::Greater;
        }
        let x = self.cards();
        let y = other.cards();
        let mut i: usize = 0;
        while i < x.len() && i < y.len()
            invariant
                x@ == hand_cards(*self),
                y@ == hand_cards(*other),
                category(*self) == category(*other),
                i <= x@.len(),
                i <= y@.len(),
                lex_cmp(x@, y@, 0) == lex_cmp(x@, y@, i as int),
            decreases x@.len() - i,
        {
            let kx = x[i].key();
            let ky = y[i].key();
            if kx < ky {
                return Ordering::Less;
            } else if kx > ky {
                return Ordering::Greater;
            }
            i = i + 1;
        }
        if x.len() < y.len() {
            Ordering::Less
        } else if x.len() > y.len() {
            Ordering::Greater
        } else {
            Ordering::Equal
        }
    }
}

fn push_all<const N: usize>(v: &mut Vec<Card>, a: &[Card; N])
    ensures
        final(v)@ == old(v)@ + a@,
{
    let mut i: usize = 0;
    while i < N
        invariant
            i <= N,
            N == a@.len(),
            v@ == old(v)@ + a@.subrange(0, i as int),
        decreases N - i,
    {
        v.push(a[i]);
        assert(a@.subrange(0, i + 1) =~= a@.subrange(0, i as int).push(a@[i as int]));
        i = i + 1;
    }
    assert(a@.subrange(0, N as int) =~= a@);
}

} // verus!
