use vstd::prelude::*;
use std::cmp::Ordering;
use crate::card::{Card, card_key};
use crate::hand::{Hand, category, hand_cmp};
use crate::rules::{
    classify, found_upto, detect, royal_flush_of, straight_flush_of, working_set, all_hands_of,
    best_hand_of, insert_pos, sort_cards, is_sorted, lemma_insert_pos_bounds, RunKind, run_at,
    of_suit, by_suit, flush_of, straight_of, four_of_a_kind_of, first_run,
};
use crate::card::Suit;

verus! {

/// A non-empty working set always yields at least one hand (its high card).
pub proof fn lemma_classify_nonempty(s: Seq<Card>)
    requires
        s.len() > 0,
    ensures
        classify(s).len() > 0,
{
    assert(detect(s, 9) is Some);
    assert(found_upto(s, 10) == found_upto(s, 9).push(detect(s, 9)->0));
}

/// The detector at priority position `k` finds hands of category `9 - k`.
pub proof fn lemma_detect_category(s: Seq<Card>, k: int)
    requires
        0 <= k < 10,
    ensures
        detect(s, k) matches Some(h) ==> category(h) == 9 - k,
{
    if k == 0 {
        match straight_flush_of(s) {
            Some(Hand::StraightFlush(a)) => {},
            _ => {},
        }
    }
}

proof fn lemma_found_upto(s: Seq<Card>, k: int)
    requires
        0 <= k <= 10,
    ensures
        forall|i: int|
            0 <= i < found_upto(s, k).len() ==> 10 - k <= #[trigger] category(found_upto(s, k)[i])
                <= 9,
        forall|i: int, j: int|
            0 <= i < j < found_upto(s, k).len() ==> category(#[trigger] found_upto(s, k)[i])
                > category(#[trigger] found_upto(s, k)[j]),
        forall|j: int|
            0 <= j < k && (#[trigger] detect(s, j)) is Some ==> found_upto(s, k).contains(
                detect(s, j)->0,
            ),
        forall|i: int|
            0 <= i < found_upto(s, k).len() ==> detect(s, 9 - category(#[trigger] found_upto(s, k)[i]))
                == Some(found_upto(s, k)[i]),
    decreases k,
{
    if k > 0 {
        lemma_found_upto(s, k - 1);
        lemma_detect_category(s, k - 1);
        let prev = found_upto(s, k - 1);
        match detect(s, k - 1) {
            Some(h) => {
                let cur = prev.push(h);
                assert(found_upto(s, k) == cur);
                assert forall|j: int|
                    0 <= j < k && (#[trigger] detect(s, j)) is Some implies cur.contains(
                    detect(s, j)->0,
                ) by {
                    if j < k - 1 {
                        let w = choose|w: int| 0 <= w < prev.len() && prev[w] == detect(s, j)->0;
                        assert(cur[w] == prev[w]);
                    } else {
                        assert(cur[prev.len() as int] == h);
                    }
                }
            },
            None => {},
        }
    }
}

/// Law: the best hand's category is the highest among all categories that any
/// detector finds in the working set, and the best hand is itself one of those finds.
pub proof fn best_hand_is_strongest(table: Seq<Card>, hand: Seq<Card>)
    requires
        hand.len() == 2,
        3 <= table.len() <= 5,
    ensures
        forall|k: int|
            0 <= k < 10 && (#[trigger] detect(working_set(table, hand), k)) is Some ==> category(
                detect(working_set(table, hand), k)->0,
            ) <= category(best_hand_of(table, hand)),
        exists|k: int|
            0 <= k < 10 && #[trigger] detect(working_set(table, hand), k) == Some(
                best_hand_of(table, hand),
            ),
{
    let s = working_set(table, hand);
    crate::rules::lemma_sort_cards_len(table + hand);
    lemma_classify_nonempty(s);
    lemma_found_upto(s, 10);
    let all = classify(s);
    assert forall|k: int|
        0 <= k < 10 && (#[trigger] detect(s, k)) is Some implies category(detect(s, k)->0)
        <= category(all[0]) by {
        let w = choose|w: int| 0 <= w < all.len() && all[w] == detect(s, k)->0;
        if w > 0 {
            assert(category(all[0]) > category(all[w]));
        }
    }
    let k0 = 9 - category(all[0]);
    assert(detect(s, k0) == Some(all[0]));
}

/// Law: `all_hands` lists categories in strictly descending order, and its first element
/// is the best hand.
pub proof fn all_hands_in_priority_order(table: Seq<Card>, hand: Seq<Card>)
    requires
        hand.len() == 2,
        3 <= table.len() <= 5,
    ensures
        forall|i: int, j: int|
            0 <= i < j < all_hands_of(table, hand).len() ==> category(
                #[trigger] all_hands_of(table, hand)[i],
            ) > category(#[trigger] all_hands_of(table, hand)[j]),
        all_hands_of(table, hand).len() > 0,
        all_hands_of(table, hand)[0] == best_hand_of(table, hand),
{
    let s = working_set(table, hand);
    crate::rules::lemma_sort_cards_len(table + hand);
    lemma_classify_nonempty(s);
    lemma_found_upto(s, 10);
}

/// Law: the best hand outranks, in the total order on hands, every other hand that
/// `all_hands` lists (a royal flush in particular outranks all the rest).
pub proof fn best_hand_outranks_the_rest(table: Seq<Card>, hand: Seq<Card>)
    requires
        hand.len() == 2,
        3 <= table.len() <= 5,
    ensures
        forall|i: int|
            0 < i < all_hands_of(table, hand).len() ==> hand_cmp(
                #[trigger] all_hands_of(table, hand)[i],
                best_hand_of(table, hand),
            ) == Ordering::Less && hand_cmp(best_hand_of(table, hand), all_hands_of(table, hand)[i])
                == Ordering::Greater,
{
    all_hands_in_priority_order(table, hand);
    let all = all_hands_of(table, hand);
    assert forall|i: int| 0 < i < all.len() implies hand_cmp(#[trigger] all[i], all[0])
        == Ordering::Less && hand_cmp(all[0], all[i]) == Ordering::Greater by {
        assert(category(all[0]) > category(all[i]));
    }
}

/// Law: classification keeps no state: equal inputs give equal best hands and equal
/// lists of hands.
pub proof fn classification_is_deterministic(
    table1: Seq<Card>,
    hand1: Seq<Card>,
    table2: Seq<Card>,
    hand2: Seq<Card>,
)
    requires
        table1 == table2,
        hand1 == hand2,
    ensures
        best_hand_of(table1, hand1) == best_hand_of(table2, hand2),
        all_hands_of(table1, hand1) == all_hands_of(table2, hand2),
{
}

proof fn lemma_insert_pos_split(t: Seq<Card>, c: Card, i: int)
    requires
        is_sorted(t),
        0 <= i <= t.len(),
        forall|j: int| 0 <= j < i ==> card_key(#[trigger] t[j]) <= card_key(c),
    ensures
        forall|j: int| 0 <= j < insert_pos(t, c, i) ==> card_key(#[trigger] t[j]) <= card_key(c),
        forall|j: int|
            insert_pos(t, c, i) <= j < t.len() ==> card_key(c) < card_key(#[trigger] t[j]),
    decreases t.len() - i,
{
    if i < t.len() {
        if card_key(c) < card_key(t[i]) {
            assert forall|j: int| i <= j < t.len() implies card_key(c) < card_key(
                #[trigger] t[j],
            ) by {
                if j > i {
                    assert(card_key(t[i]) <= card_key(t[j]));
                }
            }
        } else {
            lemma_insert_pos_split(t, c, i + 1);
        }
    }
}

/// The working set is sorted ascending by rank, then suit, and holds exactly the cards
/// it was made from.
pub proof fn sort_cards_sorts(s: Seq<Card>)
    ensures
        is_sorted(sort_cards(s)),
        sort_cards(s).to_multiset() == s.to_multiset(),
    decreases s.len(),
{
    broadcast use vstd::seq_lib::group_to_multiset_ensures;

    if s.len() > 0 {
        let t = sort_cards(s.drop_last());
        let c = s.last();
        sort_cards_sorts(s.drop_last());
        lemma_insert_pos_bounds(t, c, 0);
        lemma_insert_pos_split(t, c, 0);
        let p = insert_pos(t, c, 0);
        let r = t.insert(p, c);
        assert(r == sort_cards(s));
        assert forall|i: int, j: int| 0 <= i < j < r.len() implies card_key(#[trigger] r[i])
            <= card_key(#[trigger] r[j]) by {
            if i < p && j < p {
            } else if i < p && j == p {
            } else if i < p {
                assert(r[j] == t[j - 1]);
            } else if i == p {
                assert(r[j] == t[j - 1]);
            } else {
                assert(r[i] == t[i - 1]);
                assert(r[j] == t[j - 1]);
            }
        }
        assert(r.remove(p) =~= t);
        assert(r[p] == c);
        assert(r.remove(p).to_multiset() == r.to_multiset().remove(c));
        assert(r.to_multiset().count(c) > 0) by {
            assert(r.contains(c));
        }
        assert(r.to_multiset() =~= t.to_multiset().insert(c));
        assert(s.drop_last().push(c) =~= s);
    }
}

proof fn lemma_of_suit_single(s: Seq<Card>, st: Suit, other: Suit)
    requires
        forall|i: int| 0 <= i < s.len() ==> (#[trigger] s[i]).suit == st,
        other != st,
    ensures
        of_suit(s, st) == s,
        of_suit(s, other) == Seq::<Card>::empty(),
    decreases s.len(),
{
    if s.len() > 0 {
        lemma_of_suit_single(s.drop_last(), st, other);
        assert(s.drop_last().push(s.last()) =~= s);
    }
}

proof fn lemma_by_suit_single(s: Seq<Card>)
    requires
        s.len() > 0,
        forall|i: int| 0 <= i < s.len() ==> (#[trigger] s[i]).suit == s[0].suit,
    ensures
        by_suit(s) == s,
{
    let st = s[0].suit;
    let all = seq![Suit::Spades, Suit::Hearts, Suit::Diamonds, Suit::Clubs];
    assert forall|k: int| 0 <= k < 4 implies of_suit(s, #[trigger] all[k]) == (if all[k] == st {
        s
    } else {
        Seq::<Card>::empty()
    }) by {
        let other = if st == Suit::Spades {
            Suit::Hearts
        } else {
            Suit::Spades
        };
        if all[k] == st {
            lemma_of_suit_single(s, st, other);
        } else {
            lemma_of_suit_single(s, st, all[k]);
        }
    }
    assert(all[0] == Suit::Spades);
    assert(all[1] == Suit::Hearts);
    assert(all[2] == Suit::Diamonds);
    assert(all[3] == Suit::Clubs);
    assert(by_suit(s) =~= s);
}

/// Law: five cards are enough. When a table of three and a hand of two give a working
/// set whose five cards share a suit, a flush is found; when their ranks rise one by
/// one, a straight is found; when four of them share a rank, four of a kind is found.
pub proof fn five_cards_suffice(table: Seq<Card>, hand: Seq<Card>)
    requires
        table.len() == 3,
        hand.len() == 2,
    ensures
        ({
            let s = working_set(table, hand);
            &&& run_at(s, 0, 5, RunKind::SameSuit) ==> flush_of(s) is Some
            &&& run_at(s, 0, 5, RunKind::Rising) ==> straight_of(s) is Some
            &&& (run_at(s, 0, 4, RunKind::SameRank) || run_at(s, 1, 4, RunKind::SameRank))
                ==> four_of_a_kind_of(s) is Some
        }),
{
    let s = working_set(table, hand);
    crate::rules::lemma_sort_cards_len(table + hand);
    assert(s.len() == 5);
    if run_at(s, 0, 5, RunKind::SameSuit) {
        lemma_by_suit_single(s);
        assert(crate::rules::last_run(s, 5, RunKind::SameSuit, 1) == Some(0int));
    }
    if run_at(s, 0, 5, RunKind::Rising) {
        assert(crate::rules::last_run(s, 5, RunKind::Rising, 1) == Some(0int));
    }
    if !run_at(s, 0, 4, RunKind::SameRank) && run_at(s, 1, 4, RunKind::SameRank) {
        assert(first_run(s, 4, RunKind::SameRank, 1) == Some(1int));
    }
}

proof fn lemma_card_key_injective(a: Card, b: Card)
    requires
        card_key(a) == card_key(b),
    ensures
        a == b,
{
    assert(crate::card::rank_value(a.rank) == crate::card::rank_value(b.rank)) by (nonlinear_arith)
        requires
            crate::card::rank_value(a.rank) * 4 + crate::card::suit_value(a.suit)
                == crate::card::rank_value(b.rank) * 4 + crate::card::suit_value(b.suit),
            0 <= crate::card::suit_value(a.suit) < 4,
            0 <= crate::card::suit_value(b.suit) < 4,
    ;
}

proof fn lemma_sorted_unique(a: Seq<Card>, b: Seq<Card>)
    requires
        is_sorted(a),
        is_sorted(b),
        a.to_multiset() == b.to_multiset(),
    ensures
        a == b,
    decreases a.len(),
{
    broadcast use vstd::seq_lib::group_to_multiset_ensures;

    assert(a.len() == a.to_multiset().len());
    assert(b.len() == b.to_multiset().len());
    if a.len() == 0 {
        assert(a =~= b);
    } else {
        let n = a.len() - 1;
        let x = a.last();
        let y = b.last();
        assert(b.contains(y));
        assert(b.to_multiset().count(y) > 0);
        assert(a.to_multiset().count(y) > 0);
        assert(a.contains(y));
        let iy = choose|i: int| 0 <= i < a.len() && a[i] == y;
        if iy < n {
            assert(card_key(a[iy]) <= card_key(a[n]));
        }
        assert(a.contains(x));
        assert(a.to_multiset().count(x) > 0);
        assert(b.to_multiset().count(x) > 0);
        assert(b.contains(x));
        let ix = choose|i: int| 0 <= i < b.len() && b[i] == x;
        if ix < n {
            assert(card_key(b[ix]) <= card_key(b[n]));
        }
        lemma_card_key_injective(x, y);
        assert(a.remove(n) =~= a.drop_last());
        assert(b.remove(n) =~= b.drop_last());
        assert(a.drop_last().to_multiset() == a.to_multiset().remove(x));
        assert(b.drop_last().to_multiset() == b.to_multiset().remove(y));
        lemma_sorted_unique(a.drop_last(), b.drop_last());
        assert(a.drop_last().push(x) =~= a);
        assert(b.drop_last().push(y) =~= b);
    }
}

/// Law: the order of the cards does not matter. A table and a hand that together hold
/// the same cards as another table and hand, in any order, give the same best hand and
/// the same list of hands.
pub proof fn input_order_is_irrelevant(
    table1: Seq<Card>,
    hand1: Seq<Card>,
    table2: Seq<Card>,
    hand2: Seq<Card>,
)
    requires
        (table1 + hand1).to_multiset() == (table2 + hand2).to_multiset(),
    ensures
        working_set(table1, hand1) == working_set(table2, hand2),
        all_hands_of(table1, hand1) == all_hands_of(table2, hand2),
        best_hand_of(table1, hand1) == best_hand_of(table2, hand2),
{
    sort_cards_sorts(table1 + hand1);
    sort_cards_sorts(table2 + hand2);
    lemma_sorted_unique(working_set(table1, hand1), working_set(table2, hand2));
}

} // verus!
