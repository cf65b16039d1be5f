use vstd::prelude::*;
use crate::card::{Card, Rank};
use crate::deck::{Deck, cards_of};
use crate::hand::Hand;
use crate::rules::{
    RunKind, first_run, straight_run, rising_window, high_card_of, pair_of, two_pair_of,
    three_of_a_kind_of, straight_of, flush_of, full_house_of, four_of_a_kind_of,
    straight_flush_of, royal_flush_of, detect, found_upto, classify, working_set,
    all_hands_of, best_hand_of, lemma_first_run_bounds, lemma_sort_cards_len,
};

verus! {

/// The highest straight in `cards` (sorted), counting the wheel Ace to Five.
fn straight_cards(cards: &Vec<Card>) -> (r: Option<Vec<Card>>)
    ensures
        cards_of(r) == straight_run(cards@),
        r matches Some(w) ==> w@.len() == 5,
{
    let direct = Deck::consecutive(cards, 5);
    if direct.is_some() {
        return direct;
    }
    let len = cards.len();
    if len > 0 && cards[0].rank == Rank::Two && cards[len - 1].rank == Rank::Ace {
        let rotated = crate::deck::rotate_last_to_front(cards);
        Deck::consecutive(&rotated, 5)
    } else {
        None
    }
}

/// Start of the first window of `n` cards of equal rank.
fn first_same_rank(cards: &Vec<Card>, n: usize) -> (r: Option<usize>)
    requires
        n >= 1,
    ensures
        crate::deck::index_of(r) == first_run(cards@, n as int, RunKind::SameRank, 0),
        r matches Some(i) ==> i + n <= cards.len(),
{
    let len = cards.len();
    let mut i: usize = 0;
    while i < len && n <= len - i
        invariant
            len == cards@.len(),
            n >= 1,
            first_run(cards@, n as int, RunKind::SameRank, 0) == first_run(
                cards@,
                n as int,
                RunKind::SameRank,
                i as int,
            ),
        decreases len - i,
    {
        if crate::deck::run_matches(cards, i, n, RunKind::SameRank) {
            return Some(i);
        }
        i = i + 1;
    }
    None
}

impl Deck {
    /// The highest card: the last one.
    pub fn highest_card(&self) -> (r: Option<Hand>)
        ensures
            r == high_card_of(self.cards@),
    {
        let len = self.cards.len();
        if len > 0 {
            Some(Hand::HighCard(self.cards[len - 1]))
        } else {
            None
        }
    }

    /// The highest pair.
    pub fn pair(&self) -> (r: Option<Hand>)
        ensures
            r == pair_of(self.cards@),
    {
        match Self::same_rank(&self.cards, 2) {
            Some(w) => Some(Hand::Pair([w[0], w[1]])),
            None => None,
        }
    }

    /// The highest pair, then the highest pair among the cards of other ranks.
    pub fn two_pairs(&self) -> (r: Option<Hand>)
        ensures
            r == two_pair_of(self.cards@),
    {
        let first = match Self::same_rank(&self.cards, 2) {
            Some(w) => w,
            None => return None,
        };
        let rest = crate::deck::without_rank_of(&self.cards, first[0].rank);
        let second = match Self::same_rank(&rest, 2) {
            Some(w) => w,
            None => return None,
        };
        Some(Hand::TwoPair([first[0], first[1]], [second[0], second[1]]))
    }

    /// The highest three cards of equal rank.
    pub fn three_of_a_kind(&self) -> (r: Option<Hand>)
        ensures
            r == three_of_a_kind_of(self.cards@),
    {
        match Self::same_rank(&self.cards, 3) {
            Some(w) => Some(Hand::ThreeOfAKind([w[0], w[1], w[2]])),
            None => None,
        }
    }

    /// The highest run of five consecutive ranks, or else the wheel (Ace to Five).
    pub fn straight(&self) -> (r: Option<Hand>)
        ensures
            r == straight_of(self.cards@),
    {
        match straight_cards(&self.cards) {
            Some(w) => Some(Hand::Straight([w[0], w[1], w[2], w[3], w[4]])),
            None => None,
        }
    }

    /// The highest five cards of one suit.
    pub fn flush(&self) -> (r: Option<Hand>)
        ensures
            r == flush_of(self.cards@),
    {
        match Self::same_suit(&self.cards, 5) {
            Some(w) => Some(Hand::Flush([w[0], w[1], w[2], w[3], w[4]])),
            None => None,
        }
    }

    /// The highest three of a kind, then the highest pair among the cards of other ranks.
    pub fn full_house(&self) -> (r: Option<Hand>)
        ensures
            r == full_house_of(self.cards@),
    {
        let three = match Self::same_rank(&self.cards, 3) {
            Some(w) => w,
            None => return None,
        };
        let rest = crate::deck::without_rank_of(&self.cards, three[0].rank);
        let pair = match Self::same_rank(&rest, 2) {
            Some(w) => w,
            None => return None,
        };
        Some(Hand::FullHouse([three[0], three[1], three[2]], [pair[0], pair[1]]))
    }

    /// The first four cards of equal rank.
    pub fn four_of_a_kind(&self) -> (r: Option<Hand>)
        ensures
            r == four_of_a_kind_of(self.cards@),
    {
        proof {
            lemma_first_run_bounds(self.cards@, 4, RunKind::SameRank, 0);
        }
        match first_same_rank(&self.cards, 4) {
            Some(i) => Some(
                Hand::FourOfAKind(
                    [self.cards[i], self.cards[i + 1], self.cards[i + 2], self.cards[i + 3]],
                ),
            ),
            None => None,
        }
    }

    /// A straight among the five cards of the flush.
    pub fn straight_flush(&self) -> (r: Option<Hand>)
        ensures
            r == straight_flush_of(self.cards@),
    {
        let flush = match Self::same_suit(&self.cards, 5) {
            Some(w) => w,
            None => return None,
        };
        match straight_cards(&flush) {
            Some(w) => Some(Hand::StraightFlush([w[0], w[1], w[2], w[3], w[4]])),
            None => None,
        }
    }

    /// A straight flush from Ten to Ace.
    pub fn royal_flush(&self) -> (r: Option<Hand>)
        ensures
            r == royal_flush_of(self.cards@),
    {
        match self.straight_flush() {
            Some(Hand::StraightFlush(a)) => {
                if a[0].rank == Rank::Ten {
                    Some(Hand::RoyalFlush(a))
                } else {
                    None
                }
            },
            _ => None,
        }
    }

    /// The detector at position `k` of the priority order (strongest first).
    fn detect(&self, k: usize) -> (r: Option<Hand>)
        requires
            k < 10,
        ensures
            r == detect(self.cards@, k as int),
    {
        if k == 0 {
            self.royal_flush()
        } else if k == 1 {
            self.straight_flush()
        } else if k == 2 {
            self.four_of_a_kind()
        } else if k == 3 {
            self.full_house()
        } else if k == 4 {
            self.flush()
        } else if k == 5 {
            self.straight()
        } else if k == 6 {
            self.three_of_a_kind()
        } else if k == 7 {
            self.two_pairs()
        } else if k == 8 {
            self.pair()
        } else {
            self.highest_card()
        }
    }

    /// Every hand that the detectors find in these (sorted) cards, strongest category
    /// first.
    pub fn hands(&self) -> (r: Vec<Hand>)
        ensures
            r@ == classify(self.cards@),
    {
        let mut out: Vec<Hand> = Vec::new();
        let mut k: usize = 0;
        while k < 10
            invariant
                k <= 10,
                out@ == found_upto(self.cards@, k as int),
            decreases 10 - k,
        {
            match self.detect(k) {
                Some(h) => out.push(h),
                None => {},
            }
            k = k + 1;
        }
        out
    }

    /// The sorted union of a table and a hand.
    fn working_set(table: &Deck, hand: Deck) -> (r: Deck)
        ensures
            r.cards@ == working_set(table.cards@, hand.cards@),
    {
        let copy = Deck { cards: crate::deck::copy_cards(&table.cards) };
        copy.merge(hand).sort()
    }

    /// Every hand that a table of 3 to 5 cards and a hand of 2 cards make, strongest
    /// category first.
    pub fn all_hands(table: &Deck, hand: Deck) -> (r: Vec<Hand>)
        requires
            hand.cards@.len() == 2,
            3 <= table.cards@.len() <= 5,
        ensures
            r@ == all_hands_of(table.cards@, hand.cards@),
    {
        let ws = Self::working_set(table, hand);
        ws.hands()
    }

    /// The best hand that a table of 3 to 5 cards and a hand of 2 cards make.
    pub fn best_hand(table: &Deck, hand: Deck) -> (r: Hand)
        requires
            hand.cards@.len() == 2,
            3 <= table.cards@.len() <= 5,
        ensures
            r == best_hand_of(table.cards@, hand.cards@),
    {
        let ghost t = table.cards@;
        let ghost h = hand.cards@;
        let all = Self::all_hands(table, hand);
        proof {
            crate::laws::lemma_classify_nonempty(working_set(t, h));
            lemma_sort_cards_len(t + h);
        }
        all[0]
    }
}

} // verus!
