//! A player at the table: the cards held and the chip balance.

use vstd::prelude::*;
use crate::card::Card;

verus! {

/// A player's cards for the current round and chip balance. The balance may
/// fall to zero or below, which ends the player's game.
#[derive(Clone)]
pub struct Player {
    pub cards: Vec<Card>,
    pub chips: i32,
}

impl Player {
    /// A player with no cards and `starting_chips` chips.
    pub fn new(starting_chips: i32) -> (r: Player)
        ensures
            r.cards@ == Seq::<Card>::empty(),
            r.chips == starting_chips,
    {
        Player { cards: Vec::new(), chips: starting_chips }
    }

    /// Gives the player one more card.
    pub fn add(&mut self, card: Card)
        ensures
            final(self).cards@ == old(self).cards@.push(card),
            final(self).chips == old(self).chips,
    {
        self.cards.push(card);
    }

    /// Adds `amount` (negative to take chips away) to the balance.
    pub fn update_chips(&mut self, amount: i32)
        requires
            i32::MIN <= old(self).chips + amount <= i32::MAX,
        ensures
            final(self).chips == old(self).chips + amount,
            final(self).cards@ == old(self).cards@,
    {
        self.chips = self.chips + amount;
    }
}

} // verus!
