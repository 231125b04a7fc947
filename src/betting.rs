//! The decisions of a betting round. Whoever runs the round asks the round
//! whose turn it is, obtains that player's move (from the console, or from
//! a random draw for a computer player), applies it, and advances, until
//! the round closes.

use vstd::prelude::*;
use crate::player::Player;
use crate::showdown::{FOLDED, NOT_ACTED};

verus! {

/// What happens at the current seat.
#[derive(Debug, Clone, Copy, PartialEq, Eq, Structural)]
pub enum Turn {
    /// The player there has folded: only advance.
    Skip,
    /// The human player (seat 0) bets.
    User,
    /// A computer player bets.
    Computer,
}

/// A player's move.
#[derive(Debug, Clone, Copy, PartialEq, Eq, Structural)]
pub enum Move {
    Fold,
    /// Put this many chips in; it becomes the bet to match.
    Bet(i32),
}

/// How a bet typed by the human player is judged.
#[derive(Debug, Clone, Copy, PartialEq, Eq, Structural)]
pub enum UserBet {
    /// `-1`: the player folds.
    Fold,
    /// Below `-1`: not a bet.
    Negative,
    /// More than the player's chips.
    NotEnoughChips,
    /// Less than the bet to match.
    BelowCurrent,
    /// A valid bet.
    Accepted,
}

/// The state of a betting round.
pub struct BettingRound {
    /// The seat whose turn it is.
    pub current_better: usize,
    /// The bet to match.
    pub current_bet: i32,
    /// Every player still in has bet the bet to match.
    pub all_bets_in: bool,
    /// How many turns have passed, skipped ones included.
    pub players_visited: usize,
}

/// Every player has either folded or bet exactly `current_bet`.
pub open spec fn settled(bets: Seq<i32>, current_bet: i32) -> bool {
    forall|i: int| 0 <= i < bets.len() ==> bets[i] == FOLDED || bets[i] == current_bet
}

/// Judges a bet typed by the human player holding `chips` when
/// `current_bet` is to be matched.
pub fn check_user_bet(bet: i32, chips: i32, current_bet: i32) -> (r: UserBet)
    ensures
        bet == -1 ==> r == UserBet::Fold,
        bet < -1 ==> r == UserBet::Negative,
        bet >= 0 && bet > chips ==> r == UserBet::NotEnoughChips,
        bet >= 0 && bet <= chips && bet < current_bet ==> r == UserBet::BelowCurrent,
        bet >= 0 && bet <= chips && bet >= current_bet ==> r == UserBet::Accepted,
{
    if bet == -1 {
        UserBet::Fold
    } else if bet < -1 {
        UserBet::Negative
    } else if bet > chips {
        UserBet::NotEnoughChips
    } else if bet < current_bet {
        UserBet::BelowCurrent
    } else {
        UserBet::Accepted
    }
}

/// A computer player's move from a draw `roll` in 1..=4: 1 raises to
/// `raise_to`, 2 or 3 calls `current_bet`, 4 folds.
pub fn computer_move(roll: u32, raise_to: i32, current_bet: i32) -> (r: Move)
    requires
        1 <= roll <= 4,
    ensures
        roll == 1 ==> r == Move::Bet(raise_to),
        2 <= roll <= 3 ==> r == Move::Bet(current_bet),
        roll == 4 ==> r == Move::Fold,
{
    if roll == 1 {
        Move::Bet(raise_to)
    } else if roll <= 3 {
        Move::Bet(current_bet)
    } else {
        Move::Fold
    }
}

/// Whether every player has folded or bet exactly `current_bet`.
pub fn bets_settled(bets: &Vec<i32>, current_bet: i32) -> (r: bool)
    ensures
        r == settled(bets@, current_bet),
{
    let mut i: usize = 0;
    while i < bets.len()
        invariant
            i <= bets.len(),
            forall|j: int| 0 <= j < i ==> bets@[j] == FOLDED || bets@[j] == current_bet,
        decreases bets.len() - i,
    {
        if bets[i] != FOLDED && bets[i] != current_bet {
            return false;
        }
        i += 1;
    }
    true
}

/// Ends a round: every player who has not folded is marked as not having
/// acted yet; folded players stay folded.
pub fn reset_bets(bets: &mut Vec<i32>)
    ensures
        final(bets)@.len() == old(bets)@.len(),
        forall|i: int| 0 <= i < old(bets)@.len() ==> #[trigger] final(bets)@[i] == if old(bets)@[i]
            == FOLDED {
            FOLDED
        } else {
            NOT_ACTED
        },
{
    let mut i: usize = 0;
    while i < bets.len()
        invariant
            i <= bets.len(),
            bets@.len() == old(bets)@.len(),
            forall|j: int| 0 <= j < i ==> #[trigger] bets@[j] == if old(bets)@[j] == FOLDED {
                FOLDED
            } else {
                NOT_ACTED
            },
            forall|j: int| i <= j < bets@.len() ==> #[trigger] bets@[j] == old(bets)@[j],
        decreases bets.len() - i,
    {
        if bets[i] != FOLDED {
            bets.set(i, NOT_ACTED);
        }
        i += 1;
    }
}

impl BettingRound {
    /// A round that starts at seat `starting_better` with nothing to match.
    pub fn new(starting_better: usize) -> (r: BettingRound)
        ensures
            r.current_better == starting_better,
            r.current_bet == 0,
            !r.all_bets_in,
            r.players_visited == 0,
    {
        BettingRound { current_better: starting_better, current_bet: 0, all_bets_in: false, players_visited: 0 }
    }

    /// The round goes on until all bets are in and every seat has had a turn.
    pub fn is_open(&self, num_players: usize) -> (r: bool)
        ensures
            r == (!self.all_bets_in || self.players_visited < num_players),
    {
        !self.all_bets_in || self.players_visited < num_players
    }

    /// What happens at the current seat.
    pub fn turn(&self, bets: &Vec<i32>) -> (r: Turn)
        requires
            self.current_better < bets.len(),
        ensures
            bets@[self.current_better as int] == FOLDED ==> r == Turn::Skip,
            bets@[self.current_better as int] != FOLDED && self.current_better == 0 ==> r == Turn::User,
            bets@[self.current_better as int] != FOLDED && self.current_better != 0 ==> r
                == Turn::Computer,
    {
        if bets[self.current_better] == FOLDED {
            Turn::Skip
        } else if self.current_better == 0 {
            Turn::User
        } else {
            Turn::Computer
        }
    }

    /// Applies the current player's move. A fold marks the seat folded. A
    /// bet moves the chips from the player to the pot, records the bet and
    /// makes it the bet to match.
    pub fn apply(&mut self, players: &mut Vec<Player>, bets: &mut Vec<i32>, pot: &mut i32, mv: Move)
        requires
            old(self).current_better < old(bets)@.len(),
            old(players)@.len() == old(bets)@.len(),
            mv matches Move::Bet(a) ==> {
                &&& a > i32::MIN
                &&& i32::MIN <= old(players)@[old(self).current_better as int].chips - a <= i32::MAX
                &&& i32::MIN <= *old(pot) + a <= i32::MAX
            },
        ensures
            final(self).current_better == old(self).current_better,
            final(self).all_bets_in == old(self).all_bets_in,
            final(self).players_visited == old(self).players_visited,
            final(players)@.len() == old(players)@.len(),
            mv == Move::Fold ==> {
                &&& final(bets)@ == old(bets)@.update(old(self).current_better as int, FOLDED)
                &&& final(players)@ == old(players)@
                &&& *final(pot) == *old(pot)
                &&& final(self).current_bet == old(self).current_bet
            },
            mv matches Move::Bet(a) ==> {
                let seat = old(self).current_better as int;
                &&& final(bets)@ == old(bets)@.update(seat, a)
                &&& *final(pot) == *old(pot) + a
                &&& final(self).current_bet == a
                &&& final(players)@[seat].chips == old(players)@[seat].chips - a
                &&& final(players)@[seat].cards@ == old(players)@[seat].cards@
                &&& forall|j: int| 0 <= j < old(players)@.len() && j != seat ==> final(players)@[j]
                    == old(players)@[j]
            },
    {
        let seat = self.current_better;
        match mv {
            Move::Fold => {
                bets.set(seat, FOLDED);
            },
            Move::Bet(a) => {
                let mut p = players.remove(seat);
                p.update_chips(-a);
                players.insert(seat, p);
                *pot = *pot + a;
                bets.set(seat, a);
                self.current_bet = a;
            },
        }
    }

    /// Passes the turn to the next seat (after the last comes seat 0), counts the turn, and records whether
    /// all bets are in.
    pub fn advance(&mut self, bets: &Vec<i32>)
        requires
            old(self).current_better < bets@.len(),
            old(self).players_visited < usize::MAX,
        ensures
            final(self).current_better == if old(self).current_better + 1 == bets@.len() {
                0
            } else {
                old(self).current_better + 1
            },
            final(self).players_visited == old(self).players_visited + 1,
            final(self).current_bet == old(self).current_bet,
            final(self).all_bets_in == settled(bets@, old(self).current_bet),
    {
        self.current_better = if self.current_better == bets.len() - 1 {
            0
        } else {
            self.current_better + 1
        };
        self.players_visited = self.players_visited + 1;
        self.all_bets_in = bets_settled(bets, self.current_bet);
    }
}

} // verus!
