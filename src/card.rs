use vstd::prelude::*;
use vstd::string::StrSliceExecFns;

verus! {

/// The four suits, ordered Spades < Hearts < Diamonds < Clubs.
#[derive(Clone, Copy, Debug, PartialEq, Eq, Structural, PartialOrd, Ord)]
pub enum Suit {
    Spades,
    Hearts,
    Diamonds,
    Clubs,
}

/// The thirteen ranks, ordered Two < Three < ... < Ace.
#[derive(Clone, Copy, Debug, PartialEq, Eq, Structural, PartialOrd, Ord)]
pub enum Rank {
    Two,
    Three,
    Four,
    Five,
    Six,
    Seven,
    Eight,
    Nine,
    Ten,
    Jack,
    Queen,
    King,
    Ace,
}

/// A playing card. Cards order by rank first, suit second.
#[derive(Clone, Copy, Debug, PartialEq, Eq, Structural, PartialOrd, Ord)]
pub struct Card {
    pub rank: Rank,
    pub suit: Suit,
}

/// Position of a suit in the suit order (0 to 3).
pub open spec fn suit_value(s: Suit) -> int {
    match s {
        Suit::Spades => 0,
        Suit::Hearts => 1,
        Suit::Diamonds => 2,
        Suit::Clubs => 3,
    }
}

/// Position of a rank in the rank order: Two is 0, Ace is 12.
pub open spec fn rank_value(r: Rank) -> int {
    match r {
        Rank::Two => 0,
        Rank::Three => 1,
        Rank::Four => 2,
        Rank::Five => 3,
        Rank::Six => 4,
        Rank::Seven => 5,
        Rank::Eight => 6,
        Rank::Nine => 7,
        Rank::Ten => 8,
        Rank::Jack => 9,
        Rank::Queen => 10,
        Rank::King => 11,
        Rank::Ace => 12,
    }
}

/// The rank at a given position of the rank order.
pub open spec fn rank_at(v: int) -> Rank {
    if v <= 0 {
        Rank::Two
    } else if v == 1 {
        Rank::Three
    } else if v == 2 {
        Rank::Four
    } else if v == 3 {
        Rank::Five
    } else if v == 4 {
        Rank::Six
    } else if v == 5 {
        Rank::Seven
    } else if v == 6 {
        Rank::Eight
    } else if v == 7 {
        Rank::Nine
    } else if v == 8 {
        Rank::Ten
    } else if v == 9 {
        Rank::Jack
    } else if v == 10 {
        Rank::Queen
    } else if v == 11 {
        Rank::King
    } else {
        Rank::Ace
    }
}

/// The suit at a given position of the suit order.
pub open spec fn suit_at(v: int) -> Suit {
    if v <= 0 {
        Suit::Spades
    } else if v == 1 {
        Suit::Hearts
    } else if v == 2 {
        Suit::Diamonds
    } else {
        Suit::Clubs
    }
}

/// A single number that orders cards by rank, then suit.
pub open spec fn card_key(c: Card) -> int {
    rank_value(c.rank) * 4 + suit_value(c.suit)
}

/// `a` orders before `b`.
pub open spec fn card_lt(a: Card, b: Card) -> bool {
    card_key(a) < card_key(b)
}

/// The rank as written in text: `2` to `10`, `J`, `Q`, `K`, `A`.
pub open spec fn rank_token(r: Rank) -> Seq<char> {
    match r {
        Rank::Two => seq!['2'],
        Rank::Three => seq!['3'],
        Rank::Four => seq!['4'],
        Rank::Five => seq!['5'],
        Rank::Six => seq!['6'],
        Rank::Seven => seq!['7'],
        Rank::Eight => seq!['8'],
        Rank::Nine => seq!['9'],
        Rank::Ten => seq!['1', '0'],
        Rank::Jack => seq!['J'],
        Rank::Queen => seq!['Q'],
        Rank::King => seq!['K'],
        Rank::Ace => seq!['A'],
    }
}

/// The glyph that stands for a suit in text.
pub open spec fn suit_glyph(s: Suit) -> char {
    match s {
        Suit::Spades => '♠',
        Suit::Hearts => '♥',
        Suit::Diamonds => '♦',
        Suit::Clubs => '♣',
    }
}

/// The rank that a token names, if any.
pub open spec fn token_rank(t: Seq<char>) -> Option<Rank> {
    if exists|r: Rank| rank_token(r) == t {
        Some(choose|r: Rank| rank_token(r) == t)
    } else {
        None
    }
}

/// The suit that a token names, if any.
pub open spec fn token_suit(t: Seq<char>) -> Option<Suit> {
    if exists|s: Suit| seq![suit_glyph(s)] == t {
        Some(choose|s: Suit| seq![suit_glyph(s)] == t)
    } else {
        None
    }
}

/// Index of the first space in `t` at or after `from`, or `t.len()` if none.
pub open spec fn next_space(t: Seq<char>, from: int) -> int
    decreases t.len() - from,
{
    if from >= t.len() {
        t.len() as int
    } else if t[from] == ' ' {
        from
    } else {
        next_space(t, from + 1)
    }
}

/// The card that a text names: its first two space-separated fields are a rank token
/// and a suit glyph. Fields after the second are not read.
pub open spec fn parse_card(t: Seq<char>) -> Option<Card> {
    let a = next_space(t, 0);
    if a >= t.len() {
        None
    } else {
        let b = next_space(t, a + 1);
        match (token_rank(t.subrange(0, a)), token_suit(t.subrange(a + 1, b))) {
            (Some(rank), Some(suit)) => Some(Card { rank, suit }),
            _ => None,
        }
    }
}

/// The text of a card: its rank token, a space and its suit glyph.
pub open spec fn card_text(c: Card) -> Seq<char> {
    rank_token(c.rank) + seq![' '] + seq![suit_glyph(c.suit)]
}

proof fn lemma_next_space_bounds(t: Seq<char>, from: int)
    requires
        0 <= from,
    ensures
        from <= next_space(t, from) <= t.len() || (from > t.len() && next_space(t, from) == t.len()),
        next_space(t, from) < t.len() ==> t[next_space(t, from)] == ' ',
        forall|k: int| from <= k < next_space(t, from) ==> t[k] != ' ',
    decreases t.len() - from,
{
    if from < t.len() && t[from] != ' ' {
        lemma_next_space_bounds(t, from + 1);
    }
}

impl Suit {
    /// Position of the suit in the suit order.
    pub fn value(&self) -> (r: u8)
        ensures
            r as int == suit_value(*self),
    {
        match self {
            Suit::Spades => 0,
            Suit::Hearts => 1,
            Suit::Diamonds => 2,
            Suit::Clubs => 3,
        }
    }

    /// The suit at position `v` of the suit order.
    pub fn from_value(v: u8) -> (r: Suit)
        requires
            v < 4,
        ensures
            suit_value(r) == v,
            r == suit_at(v as int),
    {
        if v == 0 {
            Suit::Spades
        } else if v == 1 {
            Suit::Hearts
        } else if v == 2 {
            Suit::Diamonds
        } else {
            Suit::Clubs
        }
    }
}

impl Rank {
    /// Position of the rank in the rank order.
    pub fn value(&self) -> (r: u8)
        ensures
            r as int == rank_value(*self),
    {
        match self {
            Rank::Two => 0,
            Rank::Three => 1,
            Rank::Four => 2,
            Rank::Five => 3,
            Rank::Six => 4,
            Rank::Seven => 5,
            Rank::Eight => 6,
            Rank::Nine => 7,
            Rank::Ten => 8,
            Rank::Jack => 9,
            Rank::Queen => 10,
            Rank::King => 11,
            Rank::Ace => 12,
        }
    }

    /// The rank at position `v` of the rank order.
    pub fn from_value(v: u8) -> (r: Rank)
        requires
            v < 13,
        ensures
            rank_value(r) == v,
            r == rank_at(v as int),
    {
        if v == 0 {
            Rank::Two
        } else if v == 1 {
            Rank::Three
        } else if v == 2 {
            Rank::Four
        } else if v == 3 {
            Rank::Five
        } else if v == 4 {
            Rank::Six
        } else if v == 5 {
            Rank::Seven
        } else if v == 6 {
            Rank::Eight
        } else if v == 7 {
            Rank::Nine
        } else if v == 8 {
            Rank::Ten
        } else if v == 9 {
            Rank::Jack
        } else if v == 10 {
            Rank::Queen
        } else if v == 11 {
            Rank::King
        } else {
            Rank::Ace
        }
    }
}

impl Default for Card {
    /// The lowest card, two of spades.
    fn default() -> (r: Card)
        ensures
            r == (Card { rank: Rank::Two, suit: Suit::Spades }),
    {
        Card { rank: Rank::Two, suit: Suit::Spades }
    }
}

impl Card {
    pub fn new(rank: Rank, suit: Suit) -> (r: Card)
        ensures
            r == (Card { rank, suit }),
    {
        Card { rank, suit }
    }

    /// The card's position in the card order (rank first, suit second).
    pub fn key(&self) -> (r: u8)
        ensures
            r as int == card_key(*self),
    {
        self.rank.value() * 4 + self.suit.value()
    }

    /// Reads a card written as `"<rank> <suit>"`, e.g. `"10 ♥"`; `None` for any
    /// other text.
    pub fn try_from(s: &str) -> (r: Option<Card>)
        ensures
            r == parse_card(s@),
    {
        let n = s.unicode_len();
        let a = Self::next_space(s, 0, n);
        if a >= n {
            return None;
        }
        let b = Self::next_space(s, a + 1, n);
        proof {
            lemma_next_space_bounds(s@, 0);
            lemma_next_space_bounds(s@, a + 1);
        }
        let rank = Self::rank_in(s, a);
        let suit = Self::suit_in(s, a + 1, b);
        match (rank, suit) {
            (Some(rank), Some(suit)) => Some(Card { rank, suit }),
            _ => None,
        }
    }

    fn next_space(s: &str, from: usize, n: usize) -> (r: usize)
        requires
            n == s@.len(),
            from <= n,
        ensures
            r == next_space(s@, from as int),
    {
        let mut i = from;
        while i < n
            invariant
                from <= i <= n,
                n == s@.len(),
                next_space(s@, from as int) == next_space(s@, i as int),
            decreases n - i,
        {
            if s.get_char(i) == ' ' {
                return i;
            }
            i = i + 1;
        }
        i
    }

    /// The rank named by the first `a` characters of `s`.
    fn rank_in(s: &str, a: usize) -> (r: Option<Rank>)
        requires
            a <= s@.len(),
        ensures
            r == token_rank(s@.subrange(0, a as int)),
    {
        let ghost t = s@.subrange(0, a as int);
        if a == 1 {
            let c = s.get_char(0);
            assert(t =~= seq![c]);
            let r = if c == '2' {
                Some(Rank::Two)
            } else if c == '3' {
                Some(Rank::Three)
            } else if c == '4' {
                Some(Rank::Four)
            } else if c == '5' {
                Some(Rank::Five)
            } else if c == '6' {
                Some(Rank::Six)
            } else if c == '7' {
                Some(Rank::Seven)
            } else if c == '8' {
                Some(Rank::Eight)
            } else if c == '9' {
                Some(Rank::Nine)
            } else if c == 'J' {
                Some(Rank::Jack)
            } else if c == 'Q' {
                Some(Rank::Queen)
            } else if c == 'K' {
                Some(Rank::King)
            } else if c == 'A' {
                Some(Rank::Ace)
            } else {
                None
            };
            proof {
                match r {
                    Some(x) => {
                        assert(rank_token(x) == t);
                        lemma_rank_token_unique(x);
                    },
                    None => {
                        assert forall|x: Rank| rank_token(x) != t by {
                            if rank_token(x) == t {
                                assert(rank_token(x)[0] == c);
                            }
                        }
                    },
                }
            }
            r
        } else if a == 2 && s.get_char(0) == '1' && s.get_char(1) == '0' {
            assert(t =~= seq!['1', '0']);
            assert(rank_token(Rank::Ten) == t);
            proof {
                lemma_rank_token_unique(Rank::Ten);
            }
            Some(Rank::Ten)
        } else {
            proof {
                assert forall|x: Rank| rank_token(x) != t by {
                    if rank_token(x) == t {
                        assert(rank_token(x).len() == a);
                        if a == 2 {
                            assert(x == Rank::Ten);
                            assert(t[0] == '1' && t[1] == '0');
                            assert(t[0] == s@[0]);
                            assert(t[1] == s@[1]);
                        }
                    }
                }
            }
            None
        }
    }

    /// The suit named by the characters of `s` from `from` to `to`.
    fn suit_in(s: &str, from: usize, to: usize) -> (r: Option<Suit>)
        requires
            from <= to <= s@.len(),
        ensures
            r == token_suit(s@.subrange(from as int, to as int)),
    {
        let ghost t = s@.subrange(from as int, to as int);
        if to - from == 1 {
            let c = s.get_char(from);
            assert(t =~= seq![c]);
            let r = if c == '♠' {
                Some(Suit::Spades)
            } else if c == '♥' {
                Some(Suit::Hearts)
            } else if c == '♦' {
                Some(Suit::Diamonds)
            } else if c == '♣' {
                Some(Suit::Clubs)
            } else {
                None
            };
            proof {
                match r {
                    Some(x) => {
                        assert(seq![suit_glyph(x)] == t);
                        assert forall|y: Suit| seq![suit_glyph(y)] == t implies y == x by {
                            assert(seq![suit_glyph(y)][0] == suit_glyph(y));
                        }
                    },
                    None => {
                        assert forall|y: Suit| seq![suit_glyph(y)] != t by {
                            if seq![suit_glyph(y)] == t {
                                assert(seq![suit_glyph(y)][0] == suit_glyph(y));
                            }
                        }
                    },
                }
            }
            r
        } else {
            proof {
                assert forall|y: Suit| seq![suit_glyph(y)] != t by {
                    if seq![suit_glyph(y)] == t {
                        assert(seq![suit_glyph(y)].len() == 1);
                    }
                }
            }
            None
        }
    }
}

proof fn lemma_rank_token_unique(r: Rank)
    ensures
        forall|x: Rank| rank_token(x) == rank_token(r) ==> x == r,
{
    assert forall|x: Rank| rank_token(x) == rank_token(r) implies x == r by {
        assert(rank_token(x).len() == rank_token(r).len());
        assert(rank_token(x)[0] == rank_token(r)[0]);
        if rank_token(r).len() == 2 {
            assert(rank_token(x)[1] == rank_token(r)[1]);
        }
    }
}

} // verus!
