use blackjack::actions::{filter_new_card_actions, sort_new_card_actions};
use blackjack::deck::{Card, Rank, Suit};
use blackjack::game::Action;
use blackjack::hand::{DealerHand, Hand};

#[test]
fn sorting_empty_action_leaves_it_empty() {
    let animations = sort_new_card_actions(vec![]);

    assert_eq!(animations, vec![]);
}

#[test]
fn sorting_actions_puts_player_hands_before_dealer_hands() {
    let irrelevant_card = Card {
        rank: Rank::Jack,
        suit: Suit::Club,
    };
    let actions = vec![
        Action::NewDealerCards(vec![]),
        Action::NewPlayerCard(irrelevant_card),
    ];

    let new_actions = sort_new_card_actions(actions);

    assert_eq!(
        new_actions,
        vec![
            Action::NewPlayerCard(irrelevant_card),
            Action::NewDealerCards(vec![]),
        ]
    )
}

#[test]
fn filter_new_card_actions_keeps_new_card_actions() {
    let irrelevant_card = Card {
        rank: Rank::Jack,
        suit: Suit::Club,
    };
    let hand = Hand::new();
    let dealer_hand = DealerHand::new();
    let actions = vec![
        Action::NewHand(hand, dealer_hand),
        Action::NewDealerCards(vec![]),
        Action::NewPlayerCard(irrelevant_card),
    ];

    assert_eq!(actions, filter_new_card_actions(actions.clone()))
}

#[test]
fn filter_new_card_actions_removes_anything_else() {
    let actions = vec![Action::DealerWins, Action::Draw, Action::PlayerWins];

    assert_eq!(Vec::<Action>::new(), filter_new_card_actions(actions));
}

#[test]
fn sorting_keeps_resolution_actions_in_place() {
    let card = Card {
        rank: Rank::Five,
        suit: Suit::Heart,
    };
    let actions = vec![
        Action::DealerWins,
        Action::NewDealerCards(vec![card]),
        Action::ShowDealerHoleCard(card),
        Action::NewPlayerCard(card),
    ];

    let sorted = sort_new_card_actions(actions);

    assert_eq!(
        sorted,
        vec![
            Action::DealerWins,
            Action::ShowDealerHoleCard(card),
            Action::NewPlayerCard(card),
            Action::NewDealerCards(vec![card]),
        ]
    );
}
