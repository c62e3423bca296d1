//! Texture names for cards: the abbreviation a card atlas uses for each
//! rank, and the texture resource path for any card.

use vstd::prelude::*;

verus! {

use vstd::string::{StringExecFns, StrSliceExecFns};
use crate::deck::{Card, Rank, Suit};

/// The abbreviation the card atlas uses for a rank: the face value as
/// digits for number cards, one letter for court cards and the ace.
pub open spec fn rank_abbreviation(r: Rank) -> Seq<char> {
    match r {
        Rank::Two => "2"@,
        Rank::Three => "3"@,
        Rank::Four => "4"@,
        Rank::Five => "5"@,
        Rank::Six => "6"@,
        Rank::Seven => "7"@,
        Rank::Eight => "8"@,
        Rank::Nine => "9"@,
        Rank::Ten => "10"@,
        Rank::Jack => "J"@,
        Rank::Queen => "Q"@,
        Rank::King => "K"@,
        Rank::Ace => "A"@,
    }
}

/// The suit's name as the card atlas spells it.
pub open spec fn suit_name(s: Suit) -> Seq<char> {
    match s {
        Suit::Heart => "Heart"@,
        Suit::Diamond => "Diamond"@,
        Suit::Spade => "Spade"@,
        Suit::Club => "Club"@,
    }
}

/// The atlas texture name of a card, such as the one a deck of sprite
/// sheets keys its card images by.
pub open spec fn card_texture(c: Card) -> Seq<char> {
    "card"@ + suit_name(c.suit) + "s"@ + rank_abbreviation(c.rank)
}

/// The full resource path of a card's texture.
pub open spec fn texture_path(c: Card) -> Seq<char> {
    "res://images/playingCards."@ + card_texture(c) + ".atlastex"@
}

pub fn rank_as_texture_abbreviation(rank: &Rank) -> (r: String)
    ensures
        r@ == rank_abbreviation(*rank),
{
    match rank {
        Rank::Two => String::from_str("2"),
        Rank::Three => String::from_str("3"),
        Rank::Four => String::from_str("4"),
        Rank::Five => String::from_str("5"),
        Rank::Six => String::from_str("6"),
        Rank::Seven => String::from_str("7"),
        Rank::Eight => String::from_str("8"),
        Rank::Nine => String::from_str("9"),
        Rank::Ten => String::from_str("10"),
        Rank::Jack => String::from_str("J"),
        Rank::Queen => String::from_str("Q"),
        Rank::King => String::from_str("K"),
        Rank::Ace => String::from_str("A"),
    }
}

fn suit_as_texture_name(suit: &Suit) -> (r: String)
    ensures
        r@ == suit_name(*suit),
{
    match suit {
        Suit::Heart => String::from_str("Heart"),
        Suit::Diamond => String::from_str("Diamond"),
        Suit::Spade => String::from_str("Spade"),
        Suit::Club => String::from_str("Club"),
    }
}

/// The atlas texture name of a card.
pub fn card_texture_from_card(card: &Card) -> (r: String)
    ensures
        r@ == card_texture(*card),
{
    String::from_str("card").concat(suit_as_texture_name(&card.suit).as_str()).concat(
        "s",
    ).concat(rank_as_texture_abbreviation(&card.rank).as_str())
}

/// The full resource path of a card's texture.
pub fn texture_path_from_card(card: &Card) -> (r: String)
    ensures
        r@ == texture_path(*card),
{
    String::from_str("res://images/playingCards.").concat(
        card_texture_from_card(card).as_str(),
    ).concat(".atlastex")
}

} // verus!
