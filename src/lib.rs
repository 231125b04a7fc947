//! Texas Hold'em: cards, a deck, hand evaluation, showdown resolution and the
//! bookkeeping of a betting round.

pub mod card;
pub mod hand;
pub mod player;
pub mod showdown;
pub mod deck;
pub mod betting;
pub mod round;
