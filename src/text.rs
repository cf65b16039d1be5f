use vstd::prelude::*;
use vstd::string::StringExecFns;
use crate::card::{Card, Rank, Suit, rank_token, suit_glyph, card_text};
use crate::deck::Deck;
use crate::hand::{Hand, hand_cards};

verus! {

/// A deck laid out in rows of `rows` cards.
pub struct DeckFormatter<'a> {
    pub deck: &'a Deck,
    pub rows: &'a usize,
}

/// The name of a hand's category.
pub open spec fn hand_name(h: Hand) -> Seq<char> {
    match h {
        Hand::HighCard(_) => seq!['H', 'i', 'g', 'h', 'C', 'a', 'r', 'd'],
        Hand::Pair(_) => seq!['P', 'a', 'i', 'r'],
        Hand::TwoPair(_, _) => seq!['T', 'w', 'o', 'P', 'a', 'i', 'r'],
        Hand::ThreeOfAKind(_) => seq!['T', 'h', 'r', 'e', 'e', 'O', 'f', 'A', 'K', 'i', 'n', 'd'],
        Hand::Straight(_) => seq!['S', 't', 'r', 'a', 'i', 'g', 'h', 't'],
        Hand::Flush(_) => seq!['F', 'l', 'u', 's', 'h'],
        Hand::FullHouse(_, _) => seq!['F', 'u', 'l', 'l', 'H', 'o', 'u', 's', 'e'],
        Hand::FourOfAKind(_) => seq!['F', 'o', 'u', 'r', 'O', 'f', 'A', 'K', 'i', 'n', 'd'],
        Hand::StraightFlush(_) => seq![
            'S', 't', 'r', 'a', 'i', 'g', 'h', 't', 'F', 'l', 'u', 's', 'h'
        ],
        Hand::RoyalFlush(_) => seq!['R', 'o', 'y', 'a', 'l', 'F', 'l', 'u', 's', 'h'],
    }
}

/// The texts of the cards, separated by single spaces.
pub open spec fn joined(cards: Seq<Card>) -> Seq<char>
    decreases cards.len(),
{
    if cards.len() == 0 {
        Seq::empty()
    } else if cards.len() == 1 {
        card_text(cards[0])
    } else {
        joined(cards.drop_last()) + seq![' '] + card_text(cards.last())
    }
}

/// The text of a hand, e.g. `Pair(Q ♥ Q ♣)`.
pub open spec fn hand_text(h: Hand) -> Seq<char> {
    hand_name(h) + seq!['('] + joined(hand_cards(h)) + seq![')']
}

/// `t` right-aligned in a field of five characters.
pub open spec fn padded(t: Seq<char>) -> Seq<char> {
    if t.len() < 5 {
        Seq::new((5 - t.len()) as nat, |i: int| ' ') + t
    } else {
        t
    }
}

/// Number of cards per row: `rows`, or one when `rows` is zero.
pub open spec fn per_row(rows: int) -> int {
    if rows < 1 {
        1
    } else {
        rows
    }
}

/// The text of the first `n` cards laid out in rows: the first card of a row as is
/// (after a line break unless it is the very first), the others right-aligned in
/// five characters.
pub open spec fn rows_text(cards: Seq<Card>, rows: int, n: int) -> Seq<char>
    decreases n,
{
    if n <= 0 {
        Seq::empty()
    } else {
        let i = n - 1;
        let t = card_text(cards[i]);
        rows_text(cards, rows, i) + if i % per_row(rows) == 0 {
            if i > 0 {
                seq!['\n'] + t
            } else {
                t
            }
        } else {
            padded(t)
        }
    }
}

fn rank_str(r: Rank) -> (s: &'static str)
    ensures
        s@ == rank_token(r),
{
    proof {
        reveal_strlit("2");
        reveal_strlit("3");
        reveal_strlit("4");
        reveal_strlit("5");
        reveal_strlit("6");
        reveal_strlit("7");
        reveal_strlit("8");
        reveal_strlit("9");
        reveal_strlit("10");
        reveal_strlit("J");
        reveal_strlit("Q");
        reveal_strlit("K");
        reveal_strlit("A");
    }
    let s = match r {
        Rank::Two => "2",
        Rank::Three => "3",
        Rank::Four => "4",
        Rank::Five => "5",
        Rank::Six => "6",
        Rank::Seven => "7",
        Rank::Eight => "8",
        Rank::Nine => "9",
        Rank::Ten => "10",
        Rank::Jack => "J",
        Rank::Queen => "Q",
        Rank::King => "K",
        Rank::Ace => "A",
    };
    assert(s@ =~= rank_token(r));
    s
}

fn suit_str(s: Suit) -> (r: &'static str)
    ensures
        r@ == seq![suit_glyph(s)],
{
    proof {
        reveal_strlit("♠");
        reveal_strlit("♥");
        reveal_strlit("♦");
        reveal_strlit("♣");
    }
    let r = match s {
        Suit::Spades => "♠",
        Suit::Hearts => "♥",
        Suit::Diamonds => "♦",
        Suit::Clubs => "♣",
    };
    assert(r@ =~= seq![suit_glyph(s)]);
    r
}

fn hand_name_str(h: &Hand) -> (r: &'static str)
    ensures
        r@ == hand_name(*h),
{
    proof {
        reveal_strlit("HighCard");
        reveal_strlit("Pair");
        reveal_strlit("TwoPair");
        reveal_strlit("ThreeOfAKind");
        reveal_strlit("Straight");
        reveal_strlit("Flush");
        reveal_strlit("FullHouse");
        reveal_strlit("FourOfAKind");
        reveal_strlit("StraightFlush");
        reveal_strlit("RoyalFlush");
    }
    let r = match h {
        Hand::HighCard(_) => "HighCard",
        Hand::Pair(_) => "Pair",
        Hand::TwoPair(_, _) => "TwoPair",
        Hand::ThreeOfAKind(_) => "ThreeOfAKind",
        Hand::Straight(_) => "Straight",
        Hand::Flush(_) => "Flush",
        Hand::FullHouse(_, _) => "FullHouse",
        Hand::FourOfAKind(_) => "FourOfAKind",
        Hand::StraightFlush(_) => "StraightFlush",
        Hand::RoyalFlush(_) => "RoyalFlush",
    };
    assert(r@ =~= hand_name(*h));
    r
}

impl Card {
    /// The card as text, e.g. `10 ♥`.
    pub fn to_text(&self) -> (r: String)
        ensures
            r@ == card_text(*self),
    {
        let mut s = String::from_str(rank_str(self.rank));
        proof {
            reveal_strlit(" ");
        }
        s.append(" ");
        s.append(suit_str(self.suit));
        s
    }
}

impl Hand {
    /// The hand as text: its category and its cards, e.g. `Pair(Q ♥ Q ♣)`.
    pub fn to_text(&self) -> (r: String)
        ensures
            r@ == hand_text(*self),
    {
        proof {
            reveal_strlit("(");
            reveal_strlit(")");
            reveal_strlit(" ");
        }
        let cards = self.cards();
        let mut s = String::from_str(hand_name_str(self));
        s.append("(");
        let ghost start = s@;
        let mut i: usize = 0;
        while i < cards.len()
            invariant
                i <= cards@.len(),
                s@ == start + joined(cards@.subrange(0, i as int)),
            decreases cards@.len() - i,
        {
            proof {
                reveal_strlit(" ");
            }
            let t = cards[i].to_text();
            let ghost s0 = s@;
            if i > 0 {
                s.append(" ");
            }
            s.append(t.as_str());
            proof {
                let p = cards@.subrange(0, i + 1);
                assert(p.drop_last() =~= cards@.subrange(0, i as int));
                assert(p.last() == cards@[i as int]);
                if i == 0 {
                    assert(cards@.subrange(0, 0) =~= Seq::<Card>::empty());
                    assert(joined(p) == card_text(cards@[0]));
                    assert(s@ =~= start + joined(p));
                } else {
                    assert(joined(p) == joined(cards@.subrange(0, i as int)) + seq![' '] + card_text(
                        cards@[i as int],
                    ));
                    assert(s@ =~= start + joined(p));
                }
            }
            i = i + 1;
        }
        assert(cards@.subrange(0, cards@.len() as int) =~= cards@);
        s.append(")");
        assert(s@ =~= hand_text(*self));
        s
    }
}

impl Deck {
    /// A view of the deck that lays it out in rows of `rows` cards.
    pub fn rows<'a>(&'a self, rows: &'a usize) -> (r: DeckFormatter<'a>)
        ensures
            r.deck == self,
            *r.rows == *rows,
    {
        DeckFormatter { deck: self, rows }
    }
}

impl<'a> DeckFormatter<'a> {
    /// The deck as text: rows of cards, the first of a row as is, the others
    /// right-aligned in five characters.
    pub fn to_text(&self) -> (r: String)
        ensures
            r@ == rows_text(self.deck.cards@, *self.rows as int, self.deck.cards@.len() as int),
    {
        proof {
            reveal_strlit("");
            reveal_strlit(" ");
            reveal_strlit("\n");
        }
        let cards = &self.deck.cards;
        let per: usize = if *self.rows < 1 {
            1
        } else {
            *self.rows
        };
        let mut s = String::from_str("");
        let mut i: usize = 0;
        while i < cards.len()
            invariant
                i <= cards@.len(),
                per as int == per_row(*self.rows as int),
                *cards == self.deck.cards,
                s@ == rows_text(cards@, *self.rows as int, i as int),
            decreases cards@.len() - i,
        {
            proof {
                reveal_strlit(" ");
                reveal_strlit("\n");
            }
            let t = cards[i].to_text();
            let ghost before = s@;
            if i % per == 0 {
                if i > 0 {
                    s.append("\n");
                }
                s.append(t.as_str());
            } else {
                let len = t.as_str().unicode_len();
                let mut k: usize = len;
                while k < 5
                    invariant
                        len <= k <= 5 || (len > 5 && k == len),
                        len == t@.len(),
                        s@ == before + Seq::new((k - len) as nat, |j: int| ' '),
                    decreases 5 - k,
                {
                    proof {
                        reveal_strlit(" ");
                    }
                    s.append(" ");
                    assert(s@ =~= before + Seq::new((k + 1 - len) as nat, |j: int| ' '));
                    k = k + 1;
                }
                s.append(t.as_str());
                assert(s@ =~= before + padded(t@));
            }
            proof {
                let piece = if i % per == 0 {
                    if i > 0 {
                        seq!['\n'] + t@
                    } else {
                        t@
                    }
                } else {
                    padded(t@)
                };
                assert(s@ =~= before + piece);
                assert(rows_text(cards@, *self.rows as int, i + 1) == rows_text(
                    cards@,
                    *self.rows as int,
                    i as int,
                ) + piece);
            }
            i = i + 1;
        }
        s
    }
}

} // verus!
