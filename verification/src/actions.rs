//! Helpers for consumers that animate card deals: keep only the events that
//! deal cards, and move dealer-card events behind player-card events so the
//! player's cards are animated first.

use vstd::prelude::*;

verus! {

use crate::game::Action;

/// The events that deal cards, and so drive card animations.
pub open spec fn is_new_card_action(a: Action) -> bool {
    match a {
        Action::NewHand(_, _) | Action::NewDealerCards(_) | Action::NewPlayerCard(_) => true,
        _ => false,
    }
}

/// The event announces cards drawn by the dealer during auto-play.
pub open spec fn is_dealer_cards_action(a: Action) -> bool {
    a is NewDealerCards
}

/// The card-dealing events of `s`, in order.
pub open spec fn new_card_actions_of(s: Seq<Action>) -> Seq<Action>
    decreases s.len(),
{
    if s.len() == 0 {
        Seq::empty()
    } else if is_new_card_action(s.last()) {
        new_card_actions_of(s.drop_last()).push(s.last())
    } else {
        new_card_actions_of(s.drop_last())
    }
}

/// The dealer-card events of `s`, in order.
pub open spec fn dealer_card_actions_of(s: Seq<Action>) -> Seq<Action>
    decreases s.len(),
{
    if s.len() == 0 {
        Seq::empty()
    } else if is_dealer_cards_action(s.last()) {
        dealer_card_actions_of(s.drop_last()).push(s.last())
    } else {
        dealer_card_actions_of(s.drop_last())
    }
}

/// The events of `s` other than dealer-card events, in order.
pub open spec fn other_actions_of(s: Seq<Action>) -> Seq<Action>
    decreases s.len(),
{
    if s.len() == 0 {
        Seq::empty()
    } else if is_dealer_cards_action(s.last()) {
        other_actions_of(s.drop_last())
    } else {
        other_actions_of(s.drop_last()).push(s.last())
    }
}

fn new_card_action(a: &Action) -> (b: bool)
    ensures
        b == is_new_card_action(*a),
{
    match a {
        Action::NewHand(_, _) | Action::NewDealerCards(_) | Action::NewPlayerCard(_) => true,
        _ => false,
    }
}

fn dealer_cards_action(a: &Action) -> (b: bool)
    ensures
        b == is_dealer_cards_action(*a),
{
    match a {
        Action::NewDealerCards(_) => true,
        _ => false,
    }
}

/// Keep only the card-dealing events, in their original order; everything
/// else is dropped.
pub fn filter_new_card_actions(actions: Vec<Action>) -> (r: Vec<Action>)
    ensures
        r@ == new_card_actions_of(actions@),
{
    let ghost all = actions@;
    let mut rest = actions;
    let mut out: Vec<Action> = Vec::new();
    proof {
        assert(all.subrange(0, 0) =~= Seq::<Action>::empty());
    }
    while rest.len() > 0
        invariant
            rest@.len() <= all.len(),
            rest@ == all.subrange((all.len() - rest@.len()) as int, all.len() as int),
            out@ == new_card_actions_of(all.subrange(0, (all.len() - rest@.len()) as int)),
        decreases rest@.len(),
    {
        let ghost m = all.len() - rest@.len();
        let a = rest.remove(0);
        proof {
            assert(a == all[m as int]);
            assert(rest@ =~= all.subrange(m + 1, all.len() as int));
            let taken = all.subrange(0, m + 1);
            assert(taken.drop_last() =~= all.subrange(0, m as int));
            assert(taken.last() == all[m as int]);
        }
        if new_card_action(&a) {
            out.push(a);
        }
        proof {
            assert(out@ == new_card_actions_of(all.subrange(0, m + 1)));
        }
    }
    proof {
        assert(all.subrange(0, all.len() as int) =~= all);
    }
    out
}

/// Reorder card-dealing events for animation: every dealer-card event moves
/// behind the rest, and within each of the two groups the original order is
/// kept, so the player's cards are always animated first.
pub fn sort_new_card_actions(actions: Vec<Action>) -> (r: Vec<Action>)
    ensures
        r@ == other_actions_of(actions@) + dealer_card_actions_of(actions@),
{
    let ghost all = actions@;
    let mut rest = actions;
    let mut front: Vec<Action> = Vec::new();
    let mut back: Vec<Action> = Vec::new();
    proof {
        assert(all.subrange(0, 0) =~= Seq::<Action>::empty());
    }
    while rest.len() > 0
        invariant
            rest@.len() <= all.len(),
            rest@ == all.subrange((all.len() - rest@.len()) as int, all.len() as int),
            front@ == other_actions_of(all.subrange(0, (all.len() - rest@.len()) as int)),
            back@ == dealer_card_actions_of(all.subrange(0, (all.len() - rest@.len()) as int)),
        decreases rest@.len(),
    {
        let ghost m = all.len() - rest@.len();
        let a = rest.remove(0);
        proof {
            assert(a == all[m as int]);
            assert(rest@ =~= all.subrange(m + 1, all.len() as int));
            let taken = all.subrange(0, m + 1);
            assert(taken.drop_last() =~= all.subrange(0, m as int));
            assert(taken.last() == all[m as int]);
        }
        if dealer_cards_action(&a) {
            back.push(a);
        } else {
            front.push(a);
        }
        proof {
            assert(front@ == other_actions_of(all.subrange(0, m + 1)));
            assert(back@ == dealer_card_actions_of(all.subrange(0, m + 1)));
        }
    }
    proof {
        assert(all.subrange(0, all.len() as int) =~= all);
    }
    let mut r = front;
    r.append(&mut back);
    r
}

} // verus!
