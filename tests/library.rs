use poker::{Card, Deck, Hand, Rank, Suit};
use std::cmp::Ordering;

fn c(s: &str) -> Card {
    Card::try_from(s).unwrap()
}

fn deck(cards: &[&str]) -> Deck {
    Deck::from(cards.iter().map(|s| c(s)).collect::<Vec<_>>())
}

#[test]
fn ace_low_straight_ranks_ace_first() {
    let table = deck(&["2 ♠", "3 ♠", "4 ♦", "5 ♦", "7 ♥"]);
    let hand = deck(&["8 ♥", "A ♣"]);
    let best = Deck::best_hand(&table, hand);
    assert_eq!(best, Hand::Straight([c("A ♣"), c("2 ♠"), c("3 ♠"), c("4 ♦"), c("5 ♦")]));
}

#[test]
fn wheel_ranks_below_six_high_straight() {
    let wheel = Hand::Straight([c("A ♣"), c("2 ♠"), c("3 ♠"), c("4 ♦"), c("5 ♦")]);
    let six_high = Hand::Straight([c("2 ♠"), c("3 ♠"), c("4 ♦"), c("5 ♦"), c("6 ♥")]);
    assert_eq!(wheel.compare(&six_high), Ordering::Greater);
    assert_eq!(six_high.compare(&wheel), Ordering::Less);
}

#[test]
fn royal_flush_outranks_everything_else_found() {
    let table = deck(&["10 ♠", "J ♠", "Q ♠", "K ♠", "A ♠"]);
    let hand = deck(&["9 ♠", "8 ♠"]);
    let all = Deck::all_hands(&table, hand);
    let royal = Hand::RoyalFlush([c("10 ♠"), c("J ♠"), c("Q ♠"), c("K ♠"), c("A ♠")]);
    assert_eq!(all[0], royal);
    assert!(all.len() > 1);
    for h in &all[1..] {
        assert_eq!(h.compare(&royal), Ordering::Less);
        assert_eq!(royal.compare(h), Ordering::Greater);
    }
}

#[test]
fn all_hands_descend_and_start_with_best() {
    let table = deck(&["2 ♠", "2 ♦", "2 ♥", "8 ♠", "8 ♦"]);
    let hand = deck(&["Q ♥", "A ♣"]);
    let all = Deck::all_hands(&table, hand.clone());
    let best = Deck::best_hand(&table, hand);
    assert_eq!(all[0], best);
    let cats: Vec<usize> = all.iter().map(|h| h.category()).collect();
    assert_eq!(cats, vec![6, 3, 2, 1, 0]);
    for w in cats.windows(2) {
        assert!(w[0] > w[1]);
    }
}

#[test]
fn best_hand_is_highest_category_found() {
    let table = deck(&["4 ♠", "4 ♦", "8 ♠", "8 ♦", "9 ♥"]);
    let hand = deck(&["Q ♥", "Q ♣"]);
    let all = Deck::all_hands(&table, hand.clone());
    let best = Deck::best_hand(&table, hand);
    let max = all.iter().map(|h| h.category()).max().unwrap();
    assert_eq!(best.category(), max);
    assert_eq!(best, Hand::TwoPair([c("Q ♥"), c("Q ♣")], [c("8 ♠"), c("8 ♦")]));
}

#[test]
fn repeated_classification_is_identical() {
    let table = deck(&["2 ♠", "3 ♠", "4 ♦", "5 ♦", "6 ♥"]);
    let hand = deck(&["7 ♥", "8 ♣"]);
    let a = Deck::best_hand(&table, hand.clone());
    let b = Deck::best_hand(&table, hand.clone());
    assert_eq!(a, b);
    assert_eq!(Deck::all_hands(&table, hand.clone()), Deck::all_hands(&table, hand));
}

#[test]
fn three_card_table_flush() {
    let table = deck(&["2 ♥", "7 ♥", "9 ♥"]);
    let hand = deck(&["J ♥", "K ♥"]);
    let best = Deck::best_hand(&table, hand);
    assert_eq!(best, Hand::Flush([c("2 ♥"), c("7 ♥"), c("9 ♥"), c("J ♥"), c("K ♥")]));
}

#[test]
fn three_card_table_straight() {
    let table = deck(&["9 ♣", "J ♥", "10 ♦"]);
    let hand = deck(&["K ♠", "Q ♠"]);
    let best = Deck::best_hand(&table, hand);
    assert_eq!(best, Hand::Straight([c("9 ♣"), c("10 ♦"), c("J ♥"), c("Q ♠"), c("K ♠")]));
}

#[test]
fn three_card_table_full_house() {
    let table = deck(&["5 ♣", "5 ♥", "K ♦"]);
    let hand = deck(&["K ♠", "5 ♠"]);
    let best = Deck::best_hand(&table, hand);
    assert_eq!(best, Hand::FullHouse([c("5 ♠"), c("5 ♥"), c("5 ♣")], [c("K ♠"), c("K ♦")]));
}

#[test]
fn three_card_table_royal_flush() {
    let table = deck(&["A ♦", "K ♦", "10 ♦"]);
    let hand = deck(&["J ♦", "Q ♦"]);
    let best = Deck::best_hand(&table, hand);
    assert_eq!(best, Hand::RoyalFlush([c("10 ♦"), c("J ♦"), c("Q ♦"), c("K ♦"), c("A ♦")]));
}

#[test]
fn wheel_straight_flush() {
    let table = deck(&["A ♣", "2 ♣", "3 ♣", "9 ♦"]);
    let hand = deck(&["4 ♣", "5 ♣"]);
    let best = Deck::best_hand(&table, hand);
    assert_eq!(best, Hand::StraightFlush([c("A ♣"), c("2 ♣"), c("3 ♣"), c("4 ♣"), c("5 ♣")]));
}

#[test]
fn parse_rejects_bad_text() {
    assert_eq!(Card::try_from("X ♠"), None);
    assert_eq!(Card::try_from("2♠"), None);
    assert_eq!(Card::try_from("2 x"), None);
    assert_eq!(Card::try_from("2  ♠"), None);
    assert_eq!(Card::try_from("11 ♠"), None);
    assert_eq!(Card::try_from(""), None);
    assert_eq!(Card::try_from("2 ♠♠"), None);
}

#[test]
fn parse_reads_rank_and_suit() {
    assert_eq!(Card::try_from("10 ♥"), Some(Card::new(Rank::Ten, Suit::Hearts)));
    assert_eq!(Card::try_from("A ♣"), Some(Card::new(Rank::Ace, Suit::Clubs)));
    assert_eq!(Card::try_from("2 ♠ extra"), Some(Card::new(Rank::Two, Suit::Spades)));
    assert_eq!(Card::try_from("J ♦"), Some(Card::new(Rank::Jack, Suit::Diamonds)));
}

#[test]
fn card_and_hand_text() {
    assert_eq!(c("10 ♥").to_text(), "10 ♥");
    let pair = Hand::Pair([c("Q ♥"), c("Q ♣")]);
    assert_eq!(pair.to_text(), "Pair(Q ♥ Q ♣)");
    let high = Hand::HighCard(c("A ♣"));
    assert_eq!(high.to_text(), "HighCard(A ♣)");
    let two = Hand::TwoPair([c("Q ♥"), c("Q ♣")], [c("8 ♠"), c("8 ♦")]);
    assert_eq!(two.to_text(), "TwoPair(Q ♥ Q ♣ 8 ♠ 8 ♦)");
}

#[test]
fn deck_rows_text() {
    let d = deck(&["2 ♠", "10 ♥", "A ♣"]);
    assert_eq!(d.rows(&2).to_text(), "2 ♠ 10 ♥\nA ♣");
    assert_eq!(d.rows(&5).to_text(), "2 ♠ 10 ♥  A ♣");
    assert_eq!(d.rows(&1).to_text(), "2 ♠\n10 ♥\nA ♣");
}

#[test]
fn french_and_russian_decks() {
    let f = Deck::french();
    assert_eq!(f.cards.len(), 52);
    assert_eq!(f.cards[0], Card::new(Rank::Two, Suit::Spades));
    assert_eq!(f.cards[1], Card::new(Rank::Two, Suit::Hearts));
    assert_eq!(f.cards[51], Card::new(Rank::Ace, Suit::Clubs));
    let r = Deck::russian();
    assert_eq!(r.cards.len(), 36);
    assert_eq!(r.cards[0], Card::new(Rank::Six, Suit::Spades));
    assert_eq!(r.cards[35], Card::new(Rank::Ace, Suit::Clubs));
}

#[test]
fn shuffle_keeps_the_cards() {
    let shuffled = Deck::french().shuffle();
    assert_eq!(shuffled.cards.len(), 52);
    let sorted = shuffled.sort();
    assert_eq!(sorted.cards, Deck::french().cards);
}

#[test]
fn sort_orders_by_rank_then_suit() {
    let d = deck(&["A ♣", "2 ♣", "2 ♠", "K ♥", "2 ♦"]).sort();
    let expected = deck(&["2 ♠", "2 ♦", "2 ♣", "K ♥", "A ♣"]);
    assert_eq!(d.cards, expected.cards);
}

#[test]
fn deal_and_merge() {
    let mut d = Deck::french();
    let table = d.deal(5);
    assert_eq!(table.cards.len(), 5);
    assert_eq!(d.cards.len(), 47);
    assert_eq!(table.cards[4], Card::new(Rank::Three, Suit::Spades));
    assert_eq!(d.cards[0], Card::new(Rank::Three, Suit::Hearts));
    let merged = table.merge(d);
    assert_eq!(merged.cards, Deck::french().cards);
}

#[test]
fn same_suit_groups_by_suit() {
    let cards = deck(&["2 ♥", "3 ♠", "4 ♥", "5 ♠", "6 ♥", "7 ♠", "8 ♥", "9 ♥"]).cards;
    let w = Deck::same_suit(&cards, 5).unwrap();
    assert_eq!(w, deck(&["2 ♥", "4 ♥", "6 ♥", "8 ♥", "9 ♥"]).cards);
    assert_eq!(Deck::same_suit(&cards, 6), None);
}

#[test]
fn same_rank_takes_last_window() {
    let cards = deck(&["2 ♠", "2 ♥", "5 ♦", "9 ♠", "9 ♣"]).cards;
    assert_eq!(Deck::same_rank(&cards, 2).unwrap(), deck(&["9 ♠", "9 ♣"]).cards);
    assert_eq!(Deck::same_rank(&cards, 3), None);
}

#[test]
fn consecutive_takes_highest_run() {
    let cards = deck(&["2 ♠", "3 ♠", "4 ♦", "5 ♦", "6 ♥", "7 ♥"]).cards;
    assert_eq!(Deck::consecutive(&cards, 5).unwrap(), deck(&["3 ♠", "4 ♦", "5 ♦", "6 ♥", "7 ♥"]).cards);
    assert_eq!(Deck::consecutive(&cards[..3].to_vec(), 5), None);
}

#[test]
fn hand_order_uses_category_then_cards() {
    let low_pair = Hand::Pair([c("3 ♠"), c("3 ♥")]);
    let high_pair = Hand::Pair([c("K ♠"), c("K ♥")]);
    let high_card = Hand::HighCard(c("A ♣"));
    assert_eq!(low_pair.compare(&high_pair), Ordering::Less);
    assert_eq!(high_card.compare(&low_pair), Ordering::Less);
    assert_eq!(low_pair.compare(&low_pair), Ordering::Equal);
    let spades = Hand::Pair([c("3 ♠"), c("3 ♦")]);
    assert_eq!(low_pair.compare(&spades), Ordering::Less);
}

#[test]
fn categories_round_trip() {
    for i in 0..10 {
        assert_eq!(Hand::from_category(i).category(), i);
    }
    assert_eq!(Hand::from_category(4), Hand::Straight([Card::default(); 5]));
}

#[test]
fn derived_order_agrees_with_compare() {
    let hands = vec![
        Hand::HighCard(c("A ♣")),
        Hand::Pair([c("3 ♠"), c("3 ♥")]),
        Hand::Pair([c("3 ♠"), c("3 ♦")]),
        Hand::TwoPair([c("Q ♥"), c("Q ♣")], [c("8 ♠"), c("8 ♦")]),
        Hand::Straight([c("A ♣"), c("2 ♠"), c("3 ♠"), c("4 ♦"), c("5 ♦")]),
        Hand::Straight([c("2 ♠"), c("3 ♠"), c("4 ♦"), c("5 ♦"), c("6 ♥")]),
        Hand::FullHouse([c("2 ♠"), c("2 ♥"), c("2 ♦")], [c("8 ♠"), c("8 ♦")]),
        Hand::RoyalFlush([c("10 ♠"), c("J ♠"), c("Q ♠"), c("K ♠"), c("A ♠")]),
    ];
    for a in &hands {
        for b in &hands {
            assert_eq!(a.compare(b), a.cmp(b));
        }
    }
    assert!(c("2 ♣") < c("3 ♠"));
    assert!(c("2 ♠") < c("2 ♥"));
}
