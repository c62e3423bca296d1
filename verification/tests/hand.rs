use blackjack::deck::{Card, Rank, Suit};
use blackjack::hand::{DealerHand, Hand, Score};

#[test]
fn an_empty_hand_has_a_score_of_zero() {
    let hand = Hand::new();
    let score = hand.score();

    assert_eq!(score, Score(0));
}

#[test]
fn a_hand_with_one_card_has_a_score_of_that_cards_rank() {
    let score = Hand::new()
        .add(Card {
            rank: Rank::Two,
            suit: Suit::Heart,
        })
        .score();

    assert_eq!(score, Score(2))
}

#[test]
fn a_hand_with_two_cards_adds_their_values() {
    let score = Hand::new()
        .add(Card {
            rank: Rank::Two,
            suit: Suit::Heart,
        })
        .add(Card {
            rank: Rank::Three,
            suit: Suit::Heart,
        })
        .score();

    assert_eq!(score, Score(5))
}

#[test]
fn a_hand_with_ten_ace_is_twenty_one() {
    let score = Hand::new()
        .add(Card {
            rank: Rank::Ace,
            suit: Suit::Heart,
        })
        .add(Card {
            rank: Rank::Ten,
            suit: Suit::Heart,
        })
        .score();

    assert_eq!(score, Score(21))
}

#[test]
fn a_hand_with_ten_ace_ace_is_twelve() {
    let score = Hand::new()
        .add(Card {
            rank: Rank::Ten,
            suit: Suit::Heart,
        })
        .add(Card {
            rank: Rank::Ace,
            suit: Suit::Heart,
        })
        .add(Card {
            rank: Rank::Ace,
            suit: Suit::Heart,
        })
        .score();

    assert_eq!(score, Score(12))
}

#[test]
fn a_hand_can_still_bust_with_aces() {
    let score = Hand::new()
        .add(Card {
            rank: Rank::Ten,
            suit: Suit::Heart,
        })
        .add(Card {
            rank: Rank::Ten,
            suit: Suit::Heart,
        })
        .add(Card {
            rank: Rank::Ace,
            suit: Suit::Heart,
        })
        .add(Card {
            rank: Rank::Ace,
            suit: Suit::Heart,
        })
        .score();

    assert_eq!(score, Score(22))
}

#[test]
fn a_dealer_hand_begins_with_a_hole_card_and_an_upcard() {
    let dealer_hand = DealerHand::new()
        .add(Card {
            rank: Rank::Nine,
            suit: Suit::Heart,
        })
        .add(Card {
            rank: Rank::Three,
            suit: Suit::Heart,
        });

    assert_eq!(
        dealer_hand.hole_card(),
        Some(Card {
            rank: Rank::Nine,
            suit: Suit::Heart,
        })
    );
    assert_eq!(
        dealer_hand.upcard(),
        Some(Card {
            rank: Rank::Three,
            suit: Suit::Heart,
        })
    );
}

#[test]
fn a_dealer_hands_first_card_is_invisible() {
    let dealer_hand = DealerHand::new()
        .add(Card {
            rank: Rank::Ten,
            suit: Suit::Heart,
        })
        .add(Card {
            rank: Rank::Ten,
            suit: Suit::Heart,
        });

    assert_eq!(
        dealer_hand.hidden_card(),
        Some(Card {
            rank: Rank::Ten,
            suit: Suit::Heart,
        })
    );
}

#[test]
fn a_dealer_hands_score_includes_its_invisible_card() {
    let dealer_hand = DealerHand::new()
        .add(Card {
            rank: Rank::Ten,
            suit: Suit::Heart,
        })
        .add(Card {
            rank: Rank::Ten,
            suit: Suit::Heart,
        });

    assert_eq!(dealer_hand.score(), Score(20));
}

#[test]
fn access_cards_through_cards_function() {
    let card_one = Card {
        rank: Rank::Ace,
        suit: Suit::Heart,
    };
    let card_two = Card {
        rank: Rank::Two,
        suit: Suit::Spade,
    };
    let hand = Hand::new().add(card_one).add(card_two);

    assert_eq!(hand.cards(), vec![card_one, card_two]);
}

#[test]
fn access_cards_for_dealer_through_cards_function() {
    let card_one = Card {
        rank: Rank::Ace,
        suit: Suit::Heart,
    };
    let card_two = Card {
        rank: Rank::Two,
        suit: Suit::Spade,
    };
    let hand = DealerHand::new().add(card_one).add(card_two);

    assert_eq!(hand.cards(), vec![card_one, card_two]);
}

#[test]
fn hand_an_empty_hand_has_a_score_of_zero() {
    let hand = Hand::new();
    let score = hand.score();

    assert_eq!(score, Score(0));
}

#[test]
fn hand_a_hand_with_one_card_has_a_score_of_that_cards_rank() {
    let score = Hand::new()
        .add(Card {
            rank: Rank::Two,
            suit: Suit::Heart,
        })
        .score();

    assert_eq!(score, Score(2))
}

#[test]
fn hand_a_hand_with_two_cards_adds_their_values() {
    let score = Hand::new()
        .add(Card {
            rank: Rank::Two,
            suit: Suit::Heart,
        })
        .add(Card {
            rank: Rank::Three,
            suit: Suit::Heart,
        })
        .score();

    assert_eq!(score, Score(5))
}

#[test]
fn hand_a_hand_with_ten_ace_is_twenty_one() {
    let score = Hand::new()
        .add(Card {
            rank: Rank::Ace,
            suit: Suit::Heart,
        })
        .add(Card {
            rank: Rank::Ten,
            suit: Suit::Heart,
        })
        .score();

    assert_eq!(score, Score(21))
}

#[test]
fn hand_a_hand_with_ten_ace_ace_is_twelve() {
    let score = Hand::new()
        .add(Card {
            rank: Rank::Ten,
            suit: Suit::Heart,
        })
        .add(Card {
            rank: Rank::Ace,
            suit: Suit::Heart,
        })
        .add(Card {
            rank: Rank::Ace,
            suit: Suit::Heart,
        })
        .score();

    assert_eq!(score, Score(12))
}

#[test]
fn hand_a_hand_can_still_bust_with_aces() {
    let score = Hand::new()
        .add(Card {
            rank: Rank::Ten,
            suit: Suit::Heart,
        })
        .add(Card {
            rank: Rank::Ten,
            suit: Suit::Heart,
        })
        .add(Card {
            rank: Rank::Ace,
            suit: Suit::Heart,
        })
        .add(Card {
            rank: Rank::Ace,
            suit: Suit::Heart,
        })
        .score();

    assert_eq!(score, Score(22))
}

#[test]
fn hand_a_dealer_hands_score_includes_its_invisible_card() {
    let dealer_hand = DealerHand::new()
        .add(Card {
            rank: Rank::Ten,
            suit: Suit::Heart,
        })
        .add(Card {
            rank: Rank::Ten,
            suit: Suit::Heart,
        });

    assert_eq!(dealer_hand.score(), Score(20));
}

#[test]
fn repeated_reads_of_score_and_cards_are_identical() {
    let hand = Hand::new()
        .add(Card {
            rank: Rank::Ace,
            suit: Suit::Heart,
        })
        .add(Card {
            rank: Rank::Nine,
            suit: Suit::Club,
        });

    assert_eq!(hand.score(), hand.score());
    assert_eq!(hand.cards(), hand.cards());

    let dealer = DealerHand::new()
        .add(Card {
            rank: Rank::Queen,
            suit: Suit::Spade,
        })
        .add(Card {
            rank: Rank::Seven,
            suit: Suit::Diamond,
        });

    assert_eq!(dealer.score(), dealer.score());
    assert_eq!(dealer.cards(), dealer.cards());
    assert_eq!(dealer.hole_card(), dealer.hole_card());
    assert_eq!(dealer.upcard(), dealer.upcard());
}
