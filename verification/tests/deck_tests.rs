use deck::card::{Card, Rank, Suit};
use deck::deck::{DealError, Deck};

const SUITS: [Suit; 4] = [Suit::Hearts, Suit::Diamonds, Suit::Clubs, Suit::Spades];
const RANKS: [Rank; 13] = [
    Rank::Two,
    Rank::Three,
    Rank::Four,
    Rank::Five,
    Rank::Six,
    Rank::Seven,
    Rank::Eight,
    Rank::Nine,
    Rank::Ten,
    Rank::Jack,
    Rank::Queen,
    Rank::King,
    Rank::Ace,
];

fn count_in(cards: &[Card], c: Card) -> usize {
    cards.iter().filter(|x| **x == c).count()
}

#[test]
fn new_deck_has_every_card_exactly_once() {
    let deck = Deck::new();
    assert_eq!(deck.len(), 52);
    let cards = deck.cards();
    for suit in SUITS {
        for rank in RANKS {
            assert_eq!(count_in(cards, Card { rank, suit }), 1);
        }
    }
}

#[test]
fn new_deck_is_suit_major_rank_minor() {
    let deck = Deck::new();
    let cards = deck.cards();
    assert_eq!(cards[0], Card { rank: Rank::Two, suit: Suit::Hearts });
    assert_eq!(cards[12], Card { rank: Rank::Ace, suit: Suit::Hearts });
    assert_eq!(cards[13], Card { rank: Rank::Two, suit: Suit::Diamonds });
    assert_eq!(cards[26], Card { rank: Rank::Two, suit: Suit::Clubs });
    assert_eq!(cards[39], Card { rank: Rank::Two, suit: Suit::Spades });
    assert_eq!(cards[51], Card { rank: Rank::Ace, suit: Suit::Spades });
    let mut i = 0;
    for suit in SUITS {
        for rank in RANKS {
            assert_eq!(cards[i], Card { rank, suit });
            i += 1;
        }
    }
}

#[test]
fn shuffle_preserves_the_multiset_of_cards() {
    let mut deck = Deck::new();
    let before: Vec<Card> = deck.cards().clone();
    deck.shuffle();
    assert_eq!(deck.len(), 52);
    let after = deck.cards();
    for c in &before {
        assert_eq!(count_in(after, *c), 1);
    }
}

#[test]
fn shuffle_varies_the_order() {
    // A statistical check, not an exact one: over many independent
    // shuffles the card at the first position should vary. The chance
    // that 100 uniform shuffles all put one of fewer than 5 distinct
    // cards first is negligible.
    let mut seen: Vec<Card> = Vec::new();
    for _ in 0..100 {
        let mut deck = Deck::new();
        deck.shuffle();
        let first = deck.cards()[0];
        if count_in(&seen, first) == 0 {
            seen.push(first);
        }
    }
    assert!(seen.len() >= 5);
}

#[test]
fn deal_returns_the_last_cards_in_order() {
    let mut deck = Deck::new();
    let dealt = deck.deal(5).unwrap();
    assert_eq!(dealt.len(), 5);
    assert_eq!(deck.len(), 47);
    assert_eq!(
        dealt,
        vec![
            Card { rank: Rank::Ten, suit: Suit::Spades },
            Card { rank: Rank::Jack, suit: Suit::Spades },
            Card { rank: Rank::Queen, suit: Suit::Spades },
            Card { rank: Rank::King, suit: Suit::Spades },
            Card { rank: Rank::Ace, suit: Suit::Spades },
        ]
    );
    for c in &dealt {
        assert_eq!(count_in(deck.cards(), *c), 0);
    }
}

#[test]
fn deal_too_many_fails_and_leaves_the_deck_unchanged() {
    let mut deck = Deck::new();
    let before: Vec<Card> = deck.cards().clone();
    assert_eq!(deck.deal(53), Err(DealError::InsufficientCards));
    assert_eq!(deck.len(), 52);
    assert_eq!(deck.cards(), &before);

    let dealt = deck.deal(50).unwrap();
    assert_eq!(dealt.len(), 50);
    assert_eq!(deck.deal(3), Err(DealError::InsufficientCards));
    assert_eq!(deck.len(), 2);
}

#[test]
fn deal_zero_returns_nothing_and_changes_nothing() {
    let mut deck = Deck::new();
    let before: Vec<Card> = deck.cards().clone();
    let dealt = deck.deal(0).unwrap();
    assert!(dealt.is_empty());
    assert_eq!(deck.len(), 52);
    assert_eq!(deck.cards(), &before);
}

#[test]
fn deal_until_exhaustion_then_overdraw_fails() {
    let mut deck = Deck::new();
    deck.shuffle();
    let mut total = 0;
    for _ in 0..10 {
        let dealt = deck.deal(5).unwrap();
        assert_eq!(dealt.len(), 5);
        total += dealt.len();
    }
    let dealt = deck.deal(2).unwrap();
    total += dealt.len();
    assert_eq!(total, 52);
    assert_eq!(deck.len(), 0);
    assert_eq!(deck.deal(1), Err(DealError::InsufficientCards));
    assert_eq!(deck.deal(0).unwrap(), vec![]);
}

#[test]
fn end_to_end_shuffle_and_deal() {
    let mut deck = Deck::new();
    assert_eq!(deck.len(), 52);
    let original: Vec<Card> = deck.cards().clone();
    for c in &original {
        assert_eq!(count_in(&original, *c), 1);
    }

    deck.shuffle();
    let dealt = deck.deal(5).unwrap();
    assert_eq!(dealt.len(), 5);
    assert_eq!(deck.len(), 47);
    for c in &dealt {
        assert_eq!(count_in(&dealt, *c), 1);
        assert_eq!(count_in(deck.cards(), *c), 0);
    }

    let mut union: Vec<Card> = deck.cards().clone();
    union.extend(dealt);
    assert_eq!(union.len(), 52);
    for c in &original {
        assert_eq!(count_in(&union, *c), 1);
    }
}

#[test]
fn card_labels_read_rank_of_suit() {
    let c = Card { rank: Rank::Queen, suit: Suit::Hearts };
    assert_eq!(c.label(), "queen of hearts");
    let c = Card { rank: Rank::Two, suit: Suit::Clubs };
    assert_eq!(c.label(), "two of clubs");
    assert_eq!(Rank::Ten.name(), "ten");
    assert_eq!(Suit::Spades.name(), "spades");
}

#[test]
fn deck_labels_list_every_remaining_card() {
    let mut deck = Deck::new();
    let labels = deck.labels();
    assert_eq!(labels.len(), 52);
    assert_eq!(labels[0], "two of hearts");
    assert_eq!(labels[51], "ace of spades");
    deck.deal(50).unwrap();
    let labels = deck.labels();
    assert_eq!(labels, vec!["two of hearts".to_string(), "three of hearts".to_string()]);
}
