//! The vocabulary of a deck: suits, ranks and cards.

use vstd::prelude::*;

verus! {

/// One of the four suits. Its index (declaration order) is its weight in
/// the suit tie-break score.
#[derive(Debug, Clone, Copy, PartialEq, Eq, Structural)]
pub enum Suit {
    Clubs,
    Diamonds,
    Hearts,
    Spades,
}

/// One of the thirteen ranks, from Two (index 0) to Ace (index 12).
#[derive(Debug, Clone, Copy, PartialEq, Eq, Structural)]
pub enum Rank {
    Two,
    Three,
    Four,
    Five,
    Six,
    Seven,
    Eight,
    Nine,
    Ten,
    Jack,
    Queen,
    King,
    Ace,
}

/// A playing card: a suit and a rank.
#[derive(Debug, Clone, Copy, PartialEq, Eq, Structural)]
pub struct Card {
    pub suit: Suit,
    pub rank: Rank,
}

/// Number of suits.
pub const NUM_SUITS: usize = 4;

/// Number of ranks.
pub const NUM_RANKS: usize = 13;

impl Suit {
    /// The suit's position, 0 for Clubs up to 3 for Spades.
    pub open spec fn value(self) -> nat {
        match self {
            Suit::Clubs => 0,
            Suit::Diamonds => 1,
            Suit::Hearts => 2,
            Suit::Spades => 3,
        }
    }

    /// The suit at position `i` (the inverse of `value`).
    pub open spec fn at(i: int) -> Suit {
        if i <= 0 {
            Suit::Clubs
        } else if i == 1 {
            Suit::Diamonds
        } else if i == 2 {
            Suit::Hearts
        } else {
            Suit::Spades
        }
    }

    pub fn index(&self) -> (r: usize)
        ensures
            r == self.value(),
    {
        match self {
            Suit::Clubs => 0,
            Suit::Diamonds => 1,
            Suit::Hearts => 2,
            Suit::Spades => 3,
        }
    }

    pub fn from_index(i: usize) -> (r: Suit)
        requires
            i < NUM_SUITS,
        ensures
            r == Suit::at(i as int),
            r.value() == i,
    {
        if i == 0 {
            Suit::Clubs
        } else if i == 1 {
            Suit::Diamonds
        } else if i == 2 {
            Suit::Hearts
        } else {
            Suit::Spades
        }
    }
}

impl Rank {
    /// The rank's position, 0 for Two up to 12 for Ace.
    pub open spec fn value(self) -> nat {
        match self {
            Rank::Two => 0,
            Rank::Three => 1,
            Rank::Four => 2,
            Rank::Five => 3,
            Rank::Six => 4,
            Rank::Seven => 5,
            Rank::Eight => 6,
            Rank::Nine => 7,
            Rank::Ten => 8,
            Rank::Jack => 9,
            Rank::Queen => 10,
            Rank::King => 11,
            Rank::Ace => 12,
        }
    }

    /// The rank at position `i` (the inverse of `value`).
    pub open spec fn at(i: int) -> Rank {
        if i <= 0 {
            Rank::Two
        } else if i == 1 {
            Rank::Three
        } else if i == 2 {
            Rank::Four
        } else if i == 3 {
            Rank::Five
        } else if i == 4 {
            Rank::Six
        } else if i == 5 {
            Rank::Seven
        } else if i == 6 {
            Rank::Eight
        } else if i == 7 {
            Rank::Nine
        } else if i == 8 {
            Rank::Ten
        } else if i == 9 {
            Rank::Jack
        } else if i == 10 {
            Rank::Queen
        } else if i == 11 {
            Rank::King
        } else {
            Rank::Ace
        }
    }

    pub fn index(&self) -> (r: usize)
        ensures
            r == self.value(),
    {
        match self {
            Rank::Two => 0,
            Rank::Three => 1,
            Rank::Four => 2,
            Rank::Five => 3,
            Rank::Six => 4,
            Rank::Seven => 5,
            Rank::Eight => 6,
            Rank::Nine => 7,
            Rank::Ten => 8,
            Rank::Jack => 9,
            Rank::Queen => 10,
            Rank::King => 11,
            Rank::Ace => 12,
        }
    }

    pub fn from_index(i: usize) -> (r: Rank)
        requires
            i < NUM_RANKS,
        ensures
            r == Rank::at(i as int),
            r.value() == i,
    {
        if i == 0 {
            Rank::Two
        } else if i == 1 {
            Rank::Three
        } else if i == 2 {
            Rank::Four
        } else if i == 3 {
            Rank::Five
        } else if i == 4 {
            Rank::Six
        } else if i == 5 {
            Rank::Seven
        } else if i == 6 {
            Rank::Eight
        } else if i == 7 {
            Rank::Nine
        } else if i == 8 {
            Rank::Ten
        } else if i == 9 {
            Rank::Jack
        } else if i == 10 {
            Rank::Queen
        } else if i == 11 {
            Rank::King
        } else {
            Rank::Ace
        }
    }
}

} // verus!
