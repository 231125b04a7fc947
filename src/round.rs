//! Dealing within a round: two private cards to each player, then community
//! cards, each reveal after burning one card.

use vstd::prelude::*;
use crate::card::Card;
use crate::deck::Deck;
use crate::player::Player;

verus! {

/// Gives player `i` the card `card`, leaving everything else as it was.
pub fn give_card(players: &mut Vec<Player>, i: usize, card: Card)
    requires
        i < old(players)@.len(),
    ensures
        final(players)@.len() == old(players)@.len(),
        final(players)@[i as int].cards@ == old(players)@[i as int].cards@.push(card),
        final(players)@[i as int].chips == old(players)@[i as int].chips,
        forall|j: int| 0 <= j < old(players)@.len() && j != i ==> final(players)@[j] == old(players)@[j],
{
    let mut p = players.remove(i);
    p.add(card);
    players.insert(i, p);
}

/// Clears every player's cards, keeping the chips.
pub fn clear_cards(players: &mut Vec<Player>)
    ensures
        final(players)@.len() == old(players)@.len(),
        forall|j: int| 0 <= j < old(players)@.len() ==> (#[trigger] final(players)@[j]).cards@.len() == 0
            && final(players)@[j].chips == old(players)@[j].chips,
{
    let mut i: usize = 0;
    while i < players.len()
        invariant
            i <= players.len(),
            players@.len() == old(players)@.len(),
            forall|j: int| 0 <= j < i ==> (#[trigger] players@[j]).cards@.len() == 0 && players@[j].chips
                == old(players)@[j].chips,
            forall|j: int| i <= j < players@.len() ==> #[trigger] players@[j] == old(players)@[j],
        decreases players.len() - i,
    {
        let p = players.remove(i);
        players.insert(i, Player::new(p.chips));
        i += 1;
    }
}

/// Starts a round: clears every player's cards, then deals from the top of
/// the deck one card to each player in seat order, twice. With `d` the deck
/// before, `L` its length and `n` the number of players, player `i` holds
/// `d[L-1-i]` then `d[L-1-n-i]`.
pub fn deal_hole_cards(deck: &mut Deck, players: &mut Vec<Player>)
    requires
        2 * old(players)@.len() <= old(deck).cards@.len(),
    ensures
        final(players)@.len() == old(players)@.len(),
        final(deck).cards@ == old(deck).cards@.take(old(deck).cards@.len() - 2 * old(players)@.len()),
        forall|i: int| 0 <= i < old(players)@.len() ==> {
            let d = old(deck).cards@;
            let n = old(players)@.len() as int;
            &&& (#[trigger] final(players)@[i]).cards@ == seq![d[d.len() - 1 - i], d[d.len() - 1 - n - i]]
            &&& final(players)@[i].chips == old(players)@[i].chips
        },
{
    let ghost d = deck.cards@;
    let n = players.len();
    clear_cards(players);
    let ghost cleared = players@;
    let mut pass: usize = 0;
    while pass < 2
        invariant
            pass <= 2,
            n == players@.len(),
            n == cleared.len(),
            2 * n <= d.len(),
            deck.cards@ == d.take(d.len() - pass * n),
            forall|i: int| 0 <= i < n ==> (#[trigger] players@[i]).chips == old(players)@[i].chips,
            forall|i: int| 0 <= i < n ==> (#[trigger] players@[i]).cards@ == if pass == 0 {
                seq![]
            } else if pass == 1 {
                seq![d[d.len() - 1 - i]]
            } else {
                seq![d[d.len() - 1 - i], d[d.len() - 1 - n - i]]
            },
        decreases 2 - pass,
    {
        let mut i: usize = 0;
        while i < n
            invariant
                pass < 2,
                i <= n,
                n == players@.len(),
                2 * n <= d.len(),
                deck.cards@ == d.take(d.len() - pass * n - i),
                forall|j: int| 0 <= j < n ==> (#[trigger] players@[j]).chips == old(players)@[j].chips,
                forall|j: int| 0 <= j < n ==> (#[trigger] players@[j]).cards@ == if pass == 0 {
                    if j < i { seq![d[d.len() - 1 - j]] } else { seq![] }
                } else {
                    if j < i {
                        seq![d[d.len() - 1 - j], d[d.len() - 1 - n - j]]
                    } else {
                        seq![d[d.len() - 1 - j]]
                    }
                },
            decreases n - i,
        {
            proof {
                assert(pass * n + i < 2 * n) by (nonlinear_arith)
                    requires pass < 2, i < n;
            }
            let card = deck.deal().unwrap();
            proof {
                assert(card == d[d.len() - 1 - pass * n - i]);
                assert(deck.cards@ =~= d.take(d.len() - pass * n - i - 1));
            }
            give_card(players, i, card);
            proof {
                if pass == 0 {
                    assert(players@[i as int].cards@ =~= seq![d[d.len() - 1 - i]]);
                } else {
                    assert(players@[i as int].cards@ =~= seq![d[d.len() - 1 - i], d[d.len() - 1 - n - i]]);
                }
            }
            i += 1;
        }
        pass += 1;
    }
}

/// Burns the top card, then deals `count` cards onto the community pile.
/// With `d` the deck before and `L` its length, the pile gains
/// `d[L-2], d[L-3], ..., d[L-1-count]` in that order.
pub fn turn_cards(deck: &mut Deck, community_cards: &mut Vec<Card>, count: usize)
    requires
        count < old(deck).cards@.len(),
    ensures
        final(deck).cards@ == old(deck).cards@.take(old(deck).cards@.len() - 1 - count),
        final(community_cards)@ == old(community_cards)@ + Seq::new(
            count as nat,
            |k: int| old(deck).cards@[old(deck).cards@.len() - 2 - k],
        ),
{
    let ghost d = deck.cards@;
    let _burned = deck.deal();
    let mut k: usize = 0;
    while k < count
        invariant
            k <= count,
            count < d.len(),
            deck.cards@ == d.take(d.len() - 1 - k),
            community_cards@ == old(community_cards)@ + Seq::new(k as nat, |m: int| d[d.len() - 2 - m]),
        decreases count - k,
    {
        let card = deck.deal().unwrap();
        community_cards.push(card);
        k += 1;
        proof {
            assert(deck.cards@ =~= d.take(d.len() - 1 - k));
            assert(community_cards@ =~= old(community_cards)@ + Seq::new(k as nat, |m: int| d[d.len() - 2 - m]));
        }
    }
}

} // verus!
