//! Showdown: the winner among the players still in the round.
//!
//! A bet vector holds one entry per player: `-1` for a player who folded,
//! `-2` for one who has not acted yet, otherwise the amount bet.

use vstd::prelude::*;
use crate::card::Card;
use crate::hand::{category, evaluate_hand, max_cards, rank_score, suit_score, Hand, HandScore};
use crate::player::Player;

verus! {

/// The bet entry of a player who folded.
pub const FOLDED: i32 = -1;

/// The bet entry of a player who has not acted yet this round.
pub const NOT_ACTED: i32 = -2;

/// `a` beats `b`: a higher category, or the same category and a higher rank
/// score, or both equal and a higher suit score.
pub open spec fn beats(a: HandScore, b: HandScore) -> bool {
    a.hand.value() > b.hand.value() || (a.hand.value() == b.hand.value() && (a.rank_score
        > b.rank_score || (a.rank_score == b.rank_score && a.suit_score > b.suit_score)))
}

/// Player `i` has not folded.
pub open spec fn is_active(bets: Seq<i32>, i: int) -> bool {
    0 <= i < bets.len() && bets[i] != FOLDED
}

/// Player `i` is active and no active player beats them.
pub open spec fn is_best(scores: Seq<HandScore>, bets: Seq<i32>, i: int) -> bool {
    is_active(bets, i) && forall|j: int| #[trigger] is_active(bets, j) ==> !beats(scores[j], scores[i])
}

/// Player `i` wins the showdown: the first, by index, of the best players.
pub open spec fn is_winner(scores: Seq<HandScore>, bets: Seq<i32>, i: int) -> bool {
    is_best(scores, bets, i) && forall|j: int| 0 <= j < i ==> !#[trigger] is_best(scores, bets, j)
}

/// Every player has folded.
pub open spec fn all_folded(bets: Seq<i32>) -> bool {
    forall|i: int| 0 <= i < bets.len() ==> bets[i] == FOLDED
}

/// The score that `evaluate` gives the cards `s`.
pub open spec fn score_of(s: Seq<Card>) -> HandScore {
    HandScore { hand: category(s), rank_score: rank_score(s) as usize, suit_score: suit_score(s) as usize }
}

/// The scores of the players' cards, each joined with the community cards.
pub open spec fn scores_of(players: Seq<Player>, community: Seq<Card>) -> Seq<HandScore> {
    Seq::new(players.len(), |i: int| score_of(players[i].cards@ + community))
}

/// Whether `a` beats `b` at showdown.
pub fn outranks(a: &HandScore, b: &HandScore) -> (r: bool)
    ensures
        r == beats(*a, *b),
{
    let ha = a.hand.index();
    let hb = b.hand.index();
    ha > hb || (ha == hb && (a.rank_score > b.rank_score || (a.rank_score == b.rank_score
        && a.suit_score > b.suit_score)))
}

/// Picks the winner: among the players who have not folded, the best
/// category, then the best rank score, then the best suit score; where
/// players are still tied, the first of them. `None` when every player has
/// folded.
pub fn resolve_showdown(scores: &Vec<HandScore>, bets: &Vec<i32>) -> (r: Option<usize>)
    requires
        scores.len() == bets.len(),
    ensures
        r.is_none() <==> all_folded(bets@),
        r matches Some(w) ==> is_winner(scores@, bets@, w as int),
{
    let mut best: Option<usize> = None;
    let mut i: usize = 0;
    while i < bets.len()
        invariant
            scores.len() == bets.len(),
            i <= bets.len(),
            best.is_none() ==> forall|j: int| 0 <= j < i ==> bets@[j] == FOLDED,
            best matches Some(b) ==> {
                &&& b < i
                &&& is_active(bets@, b as int)
                &&& forall|j: int| 0 <= j < i && is_active(bets@, j) ==> !beats(scores@[j], scores@[b as int])
                &&& forall|j: int| 0 <= j < b && is_active(bets@, j) ==> beats(scores@[b as int], scores@[j])
            },
        decreases bets.len() - i,
    {
        if bets[i] != FOLDED {
            match best {
                None => {
                    best = Some(i);
                },
                Some(b) => {
                    if outranks(&scores[i], &scores[b]) {
                        best = Some(i);
                    }
                },
            }
        }
        i += 1;
    }
    if let Some(b) = best {
        assert forall|j: int| 0 <= j < b implies !#[trigger] is_best(scores@, bets@, j) by {
            if is_active(bets@, j) {
                assert(beats(scores@[b as int], scores@[j]));
                assert(is_active(bets@, b as int));
            }
        }
    }
    best
}

/// The players tied for best at showdown, in increasing order. More than one
/// means that the tie-breaks did not separate them; the first is the winner.
pub fn tied_players(scores: &Vec<HandScore>, bets: &Vec<i32>) -> (r: Vec<usize>)
    requires
        scores.len() == bets.len(),
    ensures
        forall|k: int| 0 <= k < r@.len() ==> is_best(scores@, bets@, #[trigger] r@[k] as int),
        forall|i: int| 0 <= i < bets@.len() && is_best(scores@, bets@, i) ==> r@.contains(i as usize),
        forall|k: int, l: int| 0 <= k < l < r@.len() ==> r@[k] < r@[l],
{
    let mut tied: Vec<usize> = Vec::new();
    match resolve_showdown(scores, bets) {
        None => {
            tied
        },
        Some(w) => {
            let top = scores[w];
            let mut i: usize = 0;
            while i < bets.len()
                invariant
                    scores.len() == bets.len(),
                    i <= bets.len(),
                    w < bets.len(),
                    top == scores@[w as int],
                    is_winner(scores@, bets@, w as int),
                    forall|k: int| 0 <= k < tied@.len() ==> is_best(scores@, bets@, #[trigger] tied@[k] as int),
                    forall|k: int| 0 <= k < tied@.len() ==> #[trigger] tied@[k] < i,
                    forall|j: int| 0 <= j < i && is_best(scores@, bets@, j) ==> tied@.contains(j as usize),
                    forall|k: int, l: int| 0 <= k < l < tied@.len() ==> tied@[k] < tied@[l],
                decreases bets.len() - i,
            {
                let s = scores[i];
                if bets[i] != FOLDED && s.hand.index() == top.hand.index() && s.rank_score
                    == top.rank_score && s.suit_score == top.suit_score {
                    proof {
                        assert forall|j: int| #[trigger] is_active(bets@, j) implies !beats(scores@[j], scores@[i as int]) by {
                            assert(!beats(scores@[j], scores@[w as int]));
                        }
                    }
                    let ghost before = tied@;
                    tied.push(i);
                    proof {
                        assert forall|j: int| 0 <= j <= i && is_best(scores@, bets@, j) implies tied@.contains(j as usize) by {
                            if j < i {
                                let k = choose|k: int| 0 <= k < before.len() && before[k] == j as usize;
                                assert(tied@[k] == j as usize);
                            } else {
                                assert(tied@[before.len() as int] == i);
                            }
                        }
                    }
                } else {
                    proof {
                        if is_best(scores@, bets@, i as int) {
                            assert(!beats(scores@[i as int], scores@[w as int]));
                            assert(!beats(scores@[w as int], scores@[i as int]));
                        }
                    }
                }
                i += 1;
            }
            tied
        },
    }
}

/// The score of each player's cards joined with the community cards.
pub fn score_players(players: &Vec<Player>, community_cards: &Vec<Card>) -> (r: Vec<HandScore>)
    requires
        forall|i: int| 0 <= i < players.len() ==> #[trigger] players@[i].cards@.len() + community_cards@.len() <= max_cards(),
    ensures
        r@ == scores_of(players@, community_cards@),
{
    let mut scores: Vec<HandScore> = Vec::new();
    let mut i: usize = 0;
    while i < players.len()
        invariant
            i <= players.len(),
            forall|k: int| 0 <= k < players.len() ==> #[trigger] players@[k].cards@.len() + community_cards@.len() <= max_cards(),
            scores@ == scores_of(players@, community_cards@).take(i as int),
        decreases players.len() - i,
    {
        let score = evaluate_hand(&players[i].cards, community_cards);
        scores.push(score);
        i += 1;
        proof {
            assert(scores@ =~= scores_of(players@, community_cards@).take(i as int));
        }
    }
    proof {
        assert(scores@ =~= scores_of(players@, community_cards@));
    }
    scores
}

/// Scores every player's cards with the community cards and picks the
/// winner among those who have not folded; `None` when all have folded.
pub fn find_winning_hand(players: &Vec<Player>, community_cards: &Vec<Card>, bets: &Vec<i32>) -> (r:
    Option<usize>)
    requires
        players.len() == bets.len(),
        forall|i: int| 0 <= i < players.len() ==> #[trigger] players@[i].cards@.len() + community_cards@.len() <= max_cards(),
    ensures
        r.is_none() <==> all_folded(bets@),
        r matches Some(w) ==> is_winner(scores_of(players@, community_cards@), bets@, w as int),
{
    let scores = score_players(players, community_cards);
    resolve_showdown(&scores, bets)
}

/// A player who alone has not folded wins, whatever the scores.
pub proof fn lemma_sole_active_player_wins(scores: Seq<HandScore>, bets: Seq<i32>, i: int)
    requires
        is_active(bets, i),
        forall|j: int| 0 <= j < bets.len() && j != i ==> bets[j] == FOLDED,
    ensures
        forall|w: int| is_winner(scores, bets, w) <==> w == i,
{
    assert forall|j: int| #[trigger] is_active(bets, j) implies j == i by {}
    assert(is_best(scores, bets, i));
}

/// At most one player wins a showdown.
pub proof fn lemma_winner_unique(scores: Seq<HandScore>, bets: Seq<i32>, v: int, w: int)
    requires
        is_winner(scores, bets, v),
        is_winner(scores, bets, w),
    ensures
        v == w,
{
    if v < w {
        assert(!is_best(scores, bets, v));
    } else if w < v {
        assert(!is_best(scores, bets, w));
    }
}

} // verus!
