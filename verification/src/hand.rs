//! Hands and their blackjack score: an append-only run of cards, scored with
//! every ace first counted as eleven and then softened to one, ace by ace,
//! while the total is above twenty-one.

use vstd::prelude::*;

verus! {

use crate::deck::{card_value, copy_cards, Card, Rank};

/// A computed blackjack total. It is derived from a hand on request, never
/// stored.
#[derive(Clone, Copy, PartialEq, Eq, Structural, Debug)]
pub struct Score(pub u16);

/// An ordered, append-only run of cards, in deal order.
#[derive(PartialEq, Debug)]
pub struct Hand(Vec<Card>);

impl Clone for Hand {
    fn clone(&self) -> (h: Hand)
        ensures
            h@ == self@,
    {
        Hand(copy_cards(&self.0))
    }
}

impl View for Hand {
    type V = Seq<Card>;

    closed spec fn view(&self) -> Seq<Card> {
        self.0@
    }
}

/// The hard total: every card at face value, every ace as eleven.
pub open spec fn hard_total(s: Seq<Card>) -> int
    decreases s.len(),
{
    if s.len() == 0 {
        0
    } else {
        hard_total(s.drop_last()) + card_value(s.last())
    }
}

/// How many aces a run of cards holds.
pub open spec fn ace_count(s: Seq<Card>) -> int
    decreases s.len(),
{
    if s.len() == 0 {
        0
    } else {
        ace_count(s.drop_last()) + if s.last().rank is Ace {
            1int
        } else {
            0int
        }
    }
}

/// Soften a hard total: while it is above twenty-one and an ace is still
/// counted as eleven, count that ace as one instead.
pub open spec fn soft_adjust(hard: int, aces: int) -> int
    decreases aces,
{
    if hard <= 21 || aces <= 0 {
        hard
    } else {
        soft_adjust(hard - 10, aces - 1)
    }
}

/// The blackjack score of a run of cards.
pub open spec fn hand_score(s: Seq<Card>) -> int {
    soft_adjust(hard_total(s), ace_count(s))
}

impl Hand {
    /// A hand with no cards.
    pub fn new() -> (h: Hand)
        ensures
            h@ == Seq::<Card>::empty(),
    {
        Hand(Vec::new())
    }

    /// A new hand with the card appended; the receiver is unchanged.
    pub fn add(&self, card: Card) -> (h: Hand)
        ensures
            h@ == self@.push(card),
    {
        let mut cards = copy_cards(&self.0);
        cards.push(card);
        Hand(cards)
    }

    /// The cards of the hand, in deal order.
    pub fn cards(&self) -> (r: Vec<Card>)
        ensures
            r@ == self@,
    {
        copy_cards(&self.0)
    }

    /// The blackjack score: the hard total, softened ace by ace while it is
    /// above twenty-one.
    pub fn score(&self) -> (s: Score)
        requires
            self@.len() <= 52,
        ensures
            s.0 == hand_score(self@),
    {
        let mut hard: u16 = 0;
        let mut i: usize = 0;
        while i < self.0.len()
            invariant
                i <= self@.len() <= 52,
                hard == hard_total(self@.subrange(0, i as int)),
                hard <= 11 * i,
            decreases self@.len() - i,
        {
            let v = self.0[i].rank.to_value();
            proof {
                let pre = self@.subrange(0, i as int);
                assert(self@.subrange(0, i + 1).drop_last() =~= pre);
                assert(self@.subrange(0, i + 1).last() == self@[i as int]);
            }
            hard = hard + v.0 as u16;
            i = i + 1;
        }
        proof {
            assert(self@.subrange(0, self@.len() as int) =~= self@);
        }
        let mut total: u16 = hard;
        let mut aces: usize = self.ace_count();
        while total > 21 && aces > 0
            invariant
                soft_adjust(total as int, aces as int) == hand_score(self@),
            decreases aces,
        {
            total = total - 10;
            aces = aces - 1;
        }
        Score(total)
    }

    /// How many aces the hand holds.
    fn ace_count(&self) -> (n: usize)
        ensures
            n == ace_count(self@),
    {
        let mut n: usize = 0;
        let mut i: usize = 0;
        while i < self.0.len()
            invariant
                i <= self@.len(),
                n == ace_count(self@.subrange(0, i as int)),
                n <= i,
            decreases self@.len() - i,
        {
            proof {
                let pre = self@.subrange(0, i as int);
                assert(self@.subrange(0, i + 1).drop_last() =~= pre);
                assert(self@.subrange(0, i + 1).last() == self@[i as int]);
            }
            if self.0[i].rank == Rank::Ace {
                n = n + 1;
            }
            i = i + 1;
        }
        proof {
            assert(self@.subrange(0, self@.len() as int) =~= self@);
        }
        n
    }
}

/// The dealer's hand: the first card is the hole card, hidden from the
/// player until the round resolves; the second is the upcard, visible at
/// once. The score always counts the hole card.
#[derive(PartialEq, Debug)]
pub struct DealerHand {
    hand: Hand,
}

impl Clone for DealerHand {
    fn clone(&self) -> (h: DealerHand)
        ensures
            h@ == self@,
    {
        DealerHand { hand: self.hand.clone() }
    }
}

impl View for DealerHand {
    type V = Seq<Card>;

    closed spec fn view(&self) -> Seq<Card> {
        self.hand@
    }
}

impl DealerHand {
    /// A dealer hand with no cards.
    pub fn new() -> (h: DealerHand)
        ensures
            h@ == Seq::<Card>::empty(),
    {
        DealerHand { hand: Hand::new() }
    }

    /// A new dealer hand with the card appended; the receiver is unchanged.
    pub fn add(&self, card: Card) -> (h: DealerHand)
        ensures
            h@ == self@.push(card),
    {
        DealerHand { hand: self.hand.add(card) }
    }

    /// The blackjack score of the whole hand, hole card included.
    pub fn score(&self) -> (s: Score)
        requires
            self@.len() <= 52,
        ensures
            s.0 == hand_score(self@),
    {
        self.hand.score()
    }

    /// The dealer's first card, or `None` before any card is dealt.
    pub fn hole_card(&self) -> (r: Option<Card>)
        ensures
            r == if self@.len() == 0 {
                Option::<Card>::None
            } else {
                Option::Some(self@[0])
            },
    {
        if self.hand.0.len() == 0 {
            None
        } else {
            Some(self.hand.0[0])
        }
    }

    /// The dealer's first card, under its older name.
    pub fn hidden_card(&self) -> (r: Option<Card>)
        ensures
            r == if self@.len() == 0 {
                Option::<Card>::None
            } else {
                Option::Some(self@[0])
            },
    {
        self.hole_card()
    }

    /// The dealer's second card, or `None` while the hand has fewer than two.
    pub fn upcard(&self) -> (r: Option<Card>)
        ensures
            r == if self@.len() < 2 {
                Option::<Card>::None
            } else {
                Option::Some(self@[1])
            },
    {
        if self.hand.0.len() < 2 {
            None
        } else {
            Some(self.hand.0[1])
        }
    }

    /// The cards of the hand, hole card first.
    pub fn cards(&self) -> (r: Vec<Card>)
        ensures
            r@ == self@,
    {
        self.hand.cards()
    }
}

/// The hard total of a run of cards lies between two points per card plus
/// nine more per ace, and eleven points per card; and a hand cannot hold
/// more aces than cards.
proof fn lemma_hard_total_bounds(s: Seq<Card>)
    ensures
        0 <= ace_count(s) <= s.len(),
        2 * s.len() + 9 * ace_count(s) <= hard_total(s) <= 11 * s.len(),
    decreases s.len(),
{
    if s.len() > 0 {
        lemma_hard_total_bounds(s.drop_last());
    }
}

/// Softening subtracts ten at most once per ace and never raises the total.
proof fn lemma_soft_adjust_bounds(hard: int, aces: int)
    requires
        0 <= aces,
    ensures
        hard - 10 * aces <= soft_adjust(hard, aces) <= hard,
    decreases aces,
{
    if !(hard <= 21 || aces <= 0) {
        lemma_soft_adjust_bounds(hard - 10, aces - 1);
    }
}

/// The score of any hand lies between one point per card and eleven points
/// per card.
pub proof fn lemma_score_bounds(s: Seq<Card>)
    ensures
        s.len() <= hand_score(s) <= 11 * s.len(),
{
    lemma_hard_total_bounds(s);
    lemma_soft_adjust_bounds(hard_total(s), ace_count(s));
}

} // verus!
