//! Cards and the deck: suits, ranks, point values, the canonical 52-card
//! deck, shuffling, and dealing the top card.

use vstd::prelude::*;

verus! {

/// The blackjack point value of a single rank.
#[derive(Clone, Copy, PartialEq, Eq, Structural, Debug)]
pub struct Value(pub u8);

#[derive(Clone, Copy, PartialEq, Eq, Structural, Debug, Hash)]
pub enum Suit {
    Heart,
    Diamond,
    Spade,
    Club,
}

#[derive(Clone, Copy, PartialEq, Eq, Structural, Debug, Hash)]
pub enum Rank {
    Two,
    Three,
    Four,
    Five,
    Six,
    Seven,
    Eight,
    Nine,
    Ten,
    Jack,
    Queen,
    King,
    Ace,
}

/// The point value of a rank: 2-10 at face value, face cards 10, the ace 11
/// (its soft value; scoring may later count it as 1).
pub open spec fn rank_value(r: Rank) -> int {
    match r {
        Rank::Two => 2,
        Rank::Three => 3,
        Rank::Four => 4,
        Rank::Five => 5,
        Rank::Six => 6,
        Rank::Seven => 7,
        Rank::Eight => 8,
        Rank::Nine => 9,
        Rank::Ten => 10,
        Rank::Jack => 10,
        Rank::Queen => 10,
        Rank::King => 10,
        Rank::Ace => 11,
    }
}

impl Rank {
    pub fn to_value(self) -> (v: Value)
        ensures
            v.0 == rank_value(self),
    {
        match self {
            Rank::Two => Value(2),
            Rank::Three => Value(3),
            Rank::Four => Value(4),
            Rank::Five => Value(5),
            Rank::Six => Value(6),
            Rank::Seven => Value(7),
            Rank::Eight => Value(8),
            Rank::Nine => Value(9),
            Rank::Ten | Rank::King | Rank::Queen | Rank::Jack => Value(10),
            Rank::Ace => Value(11),
        }
    }
}

#[derive(Clone, Copy, PartialEq, Eq, Structural, Debug, Hash)]
pub struct Card {
    pub suit: Suit,
    pub rank: Rank,
}

/// The point value of a card, determined by its rank alone.
pub open spec fn card_value(c: Card) -> int {
    rank_value(c.rank)
}

/// Dealing was attempted from a deck with no cards left. This is the only
/// failure the deck itself can produce.
#[derive(Clone, Copy, PartialEq, Eq, Structural, Debug)]
pub struct EmptyDeckError;

/// An ordered run of cards; the front card is the next to be dealt.
#[derive(PartialEq, Debug)]
pub struct Deck {
    pub cards: Vec<Card>,
}

impl Clone for Deck {
    fn clone(&self) -> (d: Deck)
        ensures
            d.cards@ == self.cards@,
    {
        Deck { cards: copy_cards(&self.cards) }
    }
}

/// The suit of the `i`-th block of thirteen cards in the canonical deck.
pub open spec fn suit_at(i: int) -> Suit {
    if i == 0 {
        Suit::Heart
    } else if i == 1 {
        Suit::Diamond
    } else if i == 2 {
        Suit::Spade
    } else {
        Suit::Club
    }
}

/// The rank at offset `i` within one suit's block of the canonical deck.
pub open spec fn rank_at(i: int) -> Rank {
    if i == 0 {
        Rank::Two
    } else if i == 1 {
        Rank::Three
    } else if i == 2 {
        Rank::Four
    } else if i == 3 {
        Rank::Five
    } else if i == 4 {
        Rank::Six
    } else if i == 5 {
        Rank::Seven
    } else if i == 6 {
        Rank::Eight
    } else if i == 7 {
        Rank::Nine
    } else if i == 8 {
        Rank::Ten
    } else if i == 9 {
        Rank::Jack
    } else if i == 10 {
        Rank::Queen
    } else if i == 11 {
        Rank::King
    } else {
        Rank::Ace
    }
}

/// The `i`-th card of the canonical deck order: suits in blocks of thirteen,
/// ranks ascending within each block.
pub open spec fn standard_card(i: int) -> Card {
    Card { suit: suit_at(i / 13), rank: rank_at(i % 13) }
}

/// The canonical 52-card deck order.
pub open spec fn standard_deck_seq() -> Seq<Card> {
    Seq::new(52, |i: int| standard_card(i))
}

/// Position of a suit's block in the canonical order; inverse of `suit_at`.
pub open spec fn suit_index(s: Suit) -> int {
    match s {
        Suit::Heart => 0,
        Suit::Diamond => 1,
        Suit::Spade => 2,
        Suit::Club => 3,
    }
}

/// Position of a rank within a suit's block; inverse of `rank_at`.
pub open spec fn rank_index(r: Rank) -> int {
    match r {
        Rank::Two => 0,
        Rank::Three => 1,
        Rank::Four => 2,
        Rank::Five => 3,
        Rank::Six => 4,
        Rank::Seven => 5,
        Rank::Eight => 6,
        Rank::Nine => 7,
        Rank::Ten => 8,
        Rank::Jack => 9,
        Rank::Queen => 10,
        Rank::King => 11,
        Rank::Ace => 12,
    }
}

fn suit_of_index(i: usize) -> (s: Suit)
    requires
        i < 4,
    ensures
        s == suit_at(i as int),
{
    if i == 0 {
        Suit::Heart
    } else if i == 1 {
        Suit::Diamond
    } else if i == 2 {
        Suit::Spade
    } else {
        Suit::Club
    }
}

fn rank_of_index(i: usize) -> (r: Rank)
    requires
        i < 13,
    ensures
        r == rank_at(i as int),
{
    if i == 0 {
        Rank::Two
    } else if i == 1 {
        Rank::Three
    } else if i == 2 {
        Rank::Four
    } else if i == 3 {
        Rank::Five
    } else if i == 4 {
        Rank::Six
    } else if i == 5 {
        Rank::Seven
    } else if i == 6 {
        Rank::Eight
    } else if i == 7 {
        Rank::Nine
    } else if i == 8 {
        Rank::Ten
    } else if i == 9 {
        Rank::Jack
    } else if i == 10 {
        Rank::Queen
    } else if i == 11 {
        Rank::King
    } else {
        Rank::Ace
    }
}

/// Relies on rand's `SliceRandom::shuffle` (a Durstenfeld Fisher-Yates that
/// permutes the slice in place with swaps): the shuffled vector holds exactly
/// the cards it was given, in a freshly drawn random order.
#[verifier::external_body]
fn shuffle_cards(cards: &mut Vec<Card>)
    ensures
        final(cards)@.to_multiset() == old(cards)@.to_multiset(),
{
    let mut rng = rand::rng();
    rand::seq::SliceRandom::shuffle(cards.as_mut_slice(), &mut rng);
}

impl Deck {
    /// A deck with no cards at all.
    pub fn new() -> (d: Deck)
        ensures
            d.cards@ == Seq::<Card>::empty(),
    {
        Deck { cards: Vec::new() }
    }

    pub fn new_with_cards(cards: Vec<Card>) -> (d: Deck)
        ensures
            d.cards@ == cards@,
    {
        Deck { cards }
    }

    /// The full 52-card deck in the canonical order: no randomness here.
    pub fn standard_deck() -> (d: Deck)
        ensures
            d.cards@ == standard_deck_seq(),
    {
        let mut cards: Vec<Card> = Vec::new();
        for s in 0..4usize
            invariant
                cards@.len() == 13 * s,
                forall|k: int| 0 <= k < cards@.len() ==> cards@[k] == standard_card(k),
        {
            for r in 0..13usize
                invariant
                    s < 4,
                    cards@.len() == 13 * s + r,
                    forall|k: int| 0 <= k < cards@.len() ==> cards@[k] == standard_card(k),
            {
                let suit = suit_of_index(s);
                let rank = rank_of_index(r);
                proof {
                    assert((13 * s + r) / 13 == s as int && (13 * s + r) % 13 == r as int)
                        by (nonlinear_arith)
                        requires s < 4 && r < 13;
                }
                cards.push(Card { suit, rank });
            }
        }
        proof {
            assert(cards@ =~= standard_deck_seq());
        }
        Deck { cards }
    }

    /// The same cards in a randomly drawn order; the receiver is unchanged.
    pub fn shuffle(&self) -> (d: Deck)
        ensures
            d.cards@.to_multiset() == self.cards@.to_multiset(),
    {
        let mut cards = copy_cards(&self.cards);
        shuffle_cards(&mut cards);
        Deck { cards }
    }

    /// Deal the front card: the rest keep their order. Fails exactly on an
    /// empty deck.
    pub fn deal(&self) -> (r: Result<(Deck, Card), EmptyDeckError>)
        ensures
            r is Err <==> self.cards@.len() == 0,
            r matches Ok((d, c)) ==> {
                &&& c == self.cards@[0]
                &&& d.cards@ == self.cards@.subrange(1, self.cards@.len() as int)
            },
    {
        if self.cards.len() == 0 {
            Err(EmptyDeckError)
        } else {
            let mut cards = copy_cards(&self.cards);
            let card = cards.remove(0);
            Ok((Deck { cards }, card))
        }
    }
}

/// An element-for-element copy of a card vector.
pub(crate) fn copy_cards(cards: &Vec<Card>) -> (r: Vec<Card>)
    ensures
        r@ == cards@,
{
    let mut out: Vec<Card> = Vec::new();
    let mut i: usize = 0;
    while i < cards.len()
        invariant
            i <= cards@.len(),
            out@ == cards@.subrange(0, i as int),
        decreases cards@.len() - i,
    {
        out.push(cards[i]);
        i = i + 1;
        proof {
            assert(out@ =~= cards@.subrange(0, i as int));
        }
    }
    proof {
        assert(out@ =~= cards@);
    }
    out
}

/// The canonical deck is complete: it holds every suit-and-rank combination
/// exactly once.
pub proof fn lemma_standard_deck_complete()
    ensures
        standard_deck_seq().len() == 52,
        standard_deck_seq().no_duplicates(),
        forall|c: Card| #[trigger] standard_deck_seq().to_multiset().count(c) == 1,
{
    let s = standard_deck_seq();
    assert forall|i: int, j: int| 0 <= i < j < 52 implies s[i] != s[j] by {
        assert(s[i] == standard_card(i) && s[j] == standard_card(j));
        lemma_standard_card_injective(i, j);
    }
    assert forall|c: Card| s.contains(c) by {
        let si = suit_index(c.suit);
        let ri = rank_index(c.rank);
        let i = si * 13 + ri;
        assert(i / 13 == si && i % 13 == ri && 0 <= i < 52) by (nonlinear_arith)
            requires 0 <= si < 4 && 0 <= ri < 13 && i == si * 13 + ri;
        assert(s[i] == c);
    }
    s.lemma_multiset_has_no_duplicates();
    broadcast use vstd::seq_lib::group_to_multiset_ensures;

    assert forall|c: Card| #[trigger] s.to_multiset().count(c) == 1 by {
        assert(s.contains(c));
    }
}

proof fn lemma_standard_card_injective(i: int, j: int)
    requires
        0 <= i < 52,
        0 <= j < 52,
        i != j,
    ensures
        standard_card(i) != standard_card(j),
{
    assert(0 <= i / 13 < 4 && 0 <= i % 13 < 13 && i == 13 * (i / 13) + i % 13)
        by (nonlinear_arith)
        requires 0 <= i < 52;
    assert(0 <= j / 13 < 4 && 0 <= j % 13 < 13 && j == 13 * (j / 13) + j % 13)
        by (nonlinear_arith)
        requires 0 <= j < 52;
    if i / 13 == j / 13 {
        assert(i % 13 != j % 13);
        assert(rank_at(i % 13) != rank_at(j % 13));
    } else {
        assert(suit_at(i / 13) != suit_at(j / 13));
    }
}

} // verus!
