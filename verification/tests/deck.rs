use std::collections::HashSet;

use blackjack::deck::{Card, Deck, Rank, Suit, Value};

const ALL_RANKS: [Rank; 13] = [
    Rank::Two,
    Rank::Three,
    Rank::Four,
    Rank::Five,
    Rank::Six,
    Rank::Seven,
    Rank::Eight,
    Rank::Nine,
    Rank::Ten,
    Rank::Jack,
    Rank::Queen,
    Rank::King,
    Rank::Ace,
];

const ALL_SUITS: [Suit; 4] = [Suit::Heart, Suit::Diamond, Suit::Spade, Suit::Club];

#[test]
fn numeric_card_ranks_are_their_values() {
    assert_eq!(Rank::Two.to_value(), Value(2));
    assert_eq!(Rank::Three.to_value(), Value(3));
    assert_eq!(Rank::Four.to_value(), Value(4));
    assert_eq!(Rank::Five.to_value(), Value(5));
    assert_eq!(Rank::Six.to_value(), Value(6));
    assert_eq!(Rank::Seven.to_value(), Value(7));
    assert_eq!(Rank::Eight.to_value(), Value(8));
    assert_eq!(Rank::Nine.to_value(), Value(9));
    assert_eq!(Rank::Ten.to_value(), Value(10));
}

#[test]
fn face_cards_are_value_ten() {
    assert_eq!(Rank::King.to_value(), Value(10));
    assert_eq!(Rank::Jack.to_value(), Value(10));
    assert_eq!(Rank::Queen.to_value(), Value(10));
}

#[test]
fn aces_are_eleven() {
    assert_eq!(Rank::Ace.to_value(), Value(11));
}

#[test]
fn deal_takes_the_top_card_off_the_deck() {
    let deck = Deck {
        cards: vec![
            Card {
                rank: Rank::Ace,
                suit: Suit::Heart,
            },
            Card {
                rank: Rank::King,
                suit: Suit::Heart,
            },
        ],
    };

    let (new_deck, card) = deck.deal().unwrap();

    assert_eq!(
        card,
        Card {
            rank: Rank::Ace,
            suit: Suit::Heart,
        }
    );
    assert_eq!(
        new_deck,
        Deck {
            cards: vec![Card {
                rank: Rank::King,
                suit: Suit::Heart,
            }],
        }
    );
}

#[test]
fn deal_is_not_okay_if_the_deck_is_empty() {
    let deck = Deck { cards: vec![] };

    let result = deck.deal();

    assert!(result.is_err(), "Cannot deal from an empty deck");
}

#[test]
fn can_create_a_standard_deck() {
    let deck = Deck::standard_deck();

    assert_eq!(deck.cards.len(), ALL_RANKS.len() * ALL_SUITS.len());
    assert_ne!(deck.cards.len(), 0);
    for rank in ALL_RANKS {
        let suits: Vec<Suit> = deck
            .cards
            .iter()
            .filter_map(|card| {
                if card.rank == rank {
                    Some(card.suit)
                } else {
                    None
                }
            })
            .collect();
        assert_eq!(suits, ALL_SUITS.to_vec(), "rank {:?} had the wrong suits", rank);
    }
}

#[test]
fn shuffle_reorders_the_deck_without_changing_entries() {
    let new_deck = Deck::standard_deck();

    let shuffled_deck = new_deck.shuffle();

    assert_ne!(new_deck.cards, shuffled_deck.cards);
    let new_deck_set = new_deck.cards.into_iter().collect::<HashSet<Card>>();
    let shuffled_deck_set = shuffled_deck.cards.into_iter().collect::<HashSet<Card>>();
    assert_eq!(new_deck_set, shuffled_deck_set);
}

#[test]
fn shuffle_keeps_the_exact_card_counts() {
    let deck = Deck {
        cards: vec![
            Card {
                rank: Rank::Two,
                suit: Suit::Heart,
            },
            Card {
                rank: Rank::Two,
                suit: Suit::Heart,
            },
            Card {
                rank: Rank::Ace,
                suit: Suit::Club,
            },
        ],
    };

    let shuffled = deck.shuffle().cards;
    let original = deck.cards;
    let count = |cards: &Vec<Card>, wanted: Card| cards.iter().filter(|c| **c == wanted).count();
    assert_eq!(shuffled.len(), original.len());
    for card in &original {
        assert_eq!(count(&shuffled, *card), count(&original, *card));
    }
}
