//! The deck: all 52 cards, shuffled, dealt one at a time from the top.

use vstd::prelude::*;
use vstd::arithmetic::div_mod::lemma_fundamental_div_mod_converse;
use rand::seq::SliceRandom;
use crate::card::{Card, Rank, Suit, NUM_RANKS, NUM_SUITS};

verus! {

/// An ordered pile of cards; the top of the deck is the last card.
pub struct Deck {
    pub cards: Vec<Card>,
}

/// The `k`-th card of a fresh deck: Spades, Hearts, Diamonds, then Clubs,
/// each from Two up to Ace.
pub open spec fn fresh_card(k: int) -> Card {
    Card { suit: Suit::at(3 - k / 13), rank: Rank::at(k % 13) }
}

/// The cards of a fresh deck, in order.
pub open spec fn fresh_deck() -> Seq<Card> {
    Seq::new(52, |k: int| fresh_card(k))
}

proof fn lemma_fresh_card_position(q: int, r: int)
    requires
        0 <= q < 4,
        0 <= r < 13,
    ensures
        (13 * q + r) / 13 == q,
        (13 * q + r) % 13 == r,
{
    lemma_fundamental_div_mod_converse(13 * q + r, 13, q, r);
}

/// A fresh deck holds every card exactly once.
pub proof fn lemma_fresh_deck_complete()
    ensures
        fresh_deck().len() == 52,
        fresh_deck().no_duplicates(),
        forall|c: Card| #[trigger] fresh_deck().contains(c),
{
    let d = fresh_deck();
    assert forall|i: int, j: int| 0 <= i < d.len() && 0 <= j < d.len() && i != j implies d[i] != d[j] by {
        lemma_fundamental_div_mod_converse(i, 13, i / 13, i % 13);
        lemma_fundamental_div_mod_converse(j, 13, j / 13, j % 13);
    }
    assert forall|c: Card| #[trigger] d.contains(c) by {
        let q = 3 - c.suit.value();
        let r = c.rank.value() as int;
        lemma_fresh_card_position(q, r);
        assert(d[13 * q + r] == c);
    }
}

impl Deck {
    /// A fresh deck: the 52 cards in order, Spades, Hearts, Diamonds, then
    /// Clubs, each from Two up to Ace.
    pub fn new() -> (r: Deck)
        ensures
            r.cards@ == fresh_deck(),
            r.cards@.len() == 52,
            r.cards@.no_duplicates(),
            forall|c: Card| #[trigger] r.cards@.contains(c),
    {
        let mut cards: Vec<Card> = Vec::new();
        let mut q: usize = 0;
        while q < NUM_SUITS
            invariant
                q <= 4,
                cards@.len() == 13 * q,
                forall|k: int| 0 <= k < cards@.len() ==> cards@[k] == fresh_card(k),
            decreases 4 - q,
        {
            let suit = Suit::from_index(3 - q);
            let mut r: usize = 0;
            while r < NUM_RANKS
                invariant
                    q < 4,
                    r <= 13,
                    suit == Suit::at(3 - q),
                    cards@.len() == 13 * q + r,
                    forall|k: int| 0 <= k < cards@.len() ==> cards@[k] == fresh_card(k),
                decreases 13 - r,
            {
                proof {
                    lemma_fresh_card_position(q as int, r as int);
                }
                cards.push(Card { suit, rank: Rank::from_index(r) });
                r += 1;
            }
            q += 1;
        }
        proof {
            assert(cards@ =~= fresh_deck());
            lemma_fresh_deck_complete();
        }
        Deck { cards }
    }

    /// Puts the cards in a random order.
    /// Relies on rand's `SliceRandom::shuffle` (with `thread_rng`), which
    /// only swaps elements: the deck keeps the same cards, each as many times.
    #[verifier::external_body]
    pub fn shuffle(&mut self)
        ensures
            final(self).cards@.to_multiset() == old(self).cards@.to_multiset(),
            final(self).cards@.len() == old(self).cards@.len(),
    {
        self.cards.shuffle(&mut rand::thread_rng());
    }

    /// Takes the top card off the deck; `None` once the deck is empty.
    pub fn deal(&mut self) -> (r: Option<Card>)
        ensures
            old(self).cards@.len() == 0 ==> r.is_none() && final(self).cards@ == old(self).cards@,
            old(self).cards@.len() > 0 ==> r == Some(old(self).cards@.last())
                && final(self).cards@ == old(self).cards@.drop_last(),
    {
        self.cards.pop()
    }
}

} // verus!
