//! Hand evaluation: the category of the best hand a set of cards holds, and
//! the two tie-break scores.

use vstd::prelude::*;
use vstd::seq_lib::group_to_multiset_ensures;
use crate::card::{Card, NUM_RANKS, NUM_SUITS};

verus! {

/// The poker hand categories, weakest first. The declaration order is the
/// comparison weight: a higher category beats a lower one whatever the scores.
#[derive(Debug, Clone, Copy, PartialEq, Eq, Structural)]
pub enum Hand {
    HighCard,
    OnePair,
    TwoPair,
    ThreeOfAKind,
    Straight,
    Flush,
    FullHouse,
    FourOfAKind,
    StraightFlush,
}

impl Hand {
    /// The category's weight, 0 for HighCard up to 8 for StraightFlush.
    pub open spec fn value(self) -> nat {
        match self {
            Hand::HighCard => 0,
            Hand::OnePair => 1,
            Hand::TwoPair => 2,
            Hand::ThreeOfAKind => 3,
            Hand::Straight => 4,
            Hand::Flush => 5,
            Hand::FullHouse => 6,
            Hand::FourOfAKind => 7,
            Hand::StraightFlush => 8,
        }
    }

    pub fn index(&self) -> (r: usize)
        ensures
            r == self.value(),
    {
        match self {
            Hand::HighCard => 0,
            Hand::OnePair => 1,
            Hand::TwoPair => 2,
            Hand::ThreeOfAKind => 3,
            Hand::Straight => 4,
            Hand::Flush => 5,
            Hand::FullHouse => 6,
            Hand::FourOfAKind => 7,
            Hand::StraightFlush => 8,
        }
    }
}

/// What a player's cards are worth at showdown: the category, then the rank
/// score, then the suit score, compared in that order.
#[derive(Debug, Clone, Copy, PartialEq, Eq, Structural)]
pub struct HandScore {
    pub hand: Hand,
    pub rank_score: usize,
    pub suit_score: usize,
}

impl HandScore {
    pub fn new(hand: Hand, rank_score: usize, suit_score: usize) -> (r: HandScore)
        ensures
            r == (HandScore { hand, rank_score, suit_score }),
    {
        HandScore { hand, rank_score, suit_score }
    }
}

/// The sum of `f` over the cards of `s`.
pub open spec fn card_sum(s: Seq<Card>, f: spec_fn(Card) -> nat) -> nat
    decreases s.len(),
{
    if s.len() == 0 {
        0
    } else {
        card_sum(s.drop_last(), f) + f(s.last())
    }
}

/// 1 for a card of rank index `r`, else 0.
pub open spec fn of_rank(r: int) -> spec_fn(Card) -> nat {
    |c: Card| if c.rank.value() == r { 1nat } else { 0nat }
}

/// 1 for a card of suit index `u`, else 0.
pub open spec fn of_suit(u: int) -> spec_fn(Card) -> nat {
    |c: Card| if c.suit.value() == u { 1nat } else { 0nat }
}

/// How many cards of `s` have rank index `r`.
pub open spec fn rank_count(s: Seq<Card>, r: int) -> nat {
    card_sum(s, of_rank(r))
}

/// How many cards of `s` have suit index `u`.
pub open spec fn suit_count(s: Seq<Card>, u: int) -> nat {
    card_sum(s, of_suit(u))
}

/// The rank frequency table: entry `r` counts the cards of rank index `r`.
pub open spec fn rank_counts(s: Seq<Card>) -> Seq<nat> {
    Seq::new(13, |r: int| rank_count(s, r))
}

/// The suit frequency table: entry `u` counts the cards of suit index `u`.
pub open spec fn suit_counts(s: Seq<Card>) -> Seq<nat> {
    Seq::new(4, |u: int| suit_count(s, u))
}

/// The rank score: the sum of the cards' rank indices, which is the sum over
/// the rank indices of index times count.
pub open spec fn rank_score(s: Seq<Card>) -> nat {
    card_sum(s, |c: Card| c.rank.value())
}

/// The suit score: the sum of the cards' suit indices, which is the sum over
/// the suit indices of index times count.
pub open spec fn suit_score(s: Seq<Card>) -> nat {
    card_sum(s, |c: Card| c.suit.value())
}

/// Some entry of `c` equals `n`.
pub open spec fn has_count(c: Seq<nat>, n: nat) -> bool {
    exists|i: int| 0 <= i < c.len() && c[i] == n
}

/// Some entry of `c` is at least `n`.
pub open spec fn has_count_at_least(c: Seq<nat>, n: nat) -> bool {
    exists|i: int| 0 <= i < c.len() && c[i] >= n
}

/// The number of entries among the first `k` of `c` that equal `n`.
pub open spec fn count_prefix(c: Seq<nat>, n: nat, k: int) -> nat
    decreases k,
{
    if k <= 0 {
        0
    } else {
        count_prefix(c, n, k - 1) + if c[k - 1] == n { 1nat } else { 0nat }
    }
}

/// The number of entries of `c` that equal `n`.
pub open spec fn num_with_count(c: Seq<nat>, n: nat) -> nat {
    count_prefix(c, n, c.len() as int)
}

/// Entries `lo .. lo + w` of `c` are all at least 1.
pub open spec fn run_at(c: Seq<nat>, lo: int, w: int) -> bool {
    forall|k: int| lo <= k < lo + w ==> c[k] >= 1
}

/// Some window of `w` consecutive entries of `c` holds no zero.
pub open spec fn has_run(c: Seq<nat>, w: int) -> bool {
    exists|lo: int| 0 <= lo && lo + w <= c.len() && run_at(c, lo, w)
}

/// Five or more cards of one suit.
pub open spec fn is_flush(s: Seq<Card>) -> bool {
    has_count_at_least(suit_counts(s), 5)
}

/// Five consecutive ranks, each held at least once (an Ace does not count
/// below a Two).
pub open spec fn is_straight(s: Seq<Card>) -> bool {
    has_run(rank_counts(s), 5)
}

/// Some rank held exactly four times.
pub open spec fn has_four(s: Seq<Card>) -> bool {
    has_count(rank_counts(s), 4)
}

/// The number of ranks held exactly three times.
pub open spec fn triples(s: Seq<Card>) -> nat {
    num_with_count(rank_counts(s), 3)
}

/// The number of ranks held exactly twice.
pub open spec fn pairs(s: Seq<Card>) -> nat {
    num_with_count(rank_counts(s), 2)
}

/// A rank held three times and another rank held two or three times.
pub open spec fn is_full_house(s: Seq<Card>) -> bool {
    triples(s) >= 1 && (triples(s) >= 2 || pairs(s) >= 1)
}

/// The category of `s`: the highest one whose pattern the cards hold.
/// Two pair means exactly two ranks held twice.
pub open spec fn category(s: Seq<Card>) -> Hand {
    if is_flush(s) && is_straight(s) {
        Hand::StraightFlush
    } else if has_four(s) {
        Hand::FourOfAKind
    } else if is_full_house(s) {
        Hand::FullHouse
    } else if is_flush(s) {
        Hand::Flush
    } else if is_straight(s) {
        Hand::Straight
    } else if triples(s) >= 1 {
        Hand::ThreeOfAKind
    } else if pairs(s) == 2 {
        Hand::TwoPair
    } else if pairs(s) >= 1 {
        Hand::OnePair
    } else {
        Hand::HighCard
    }
}

/// The largest number of cards that `evaluate` scores without overflow.
pub open spec fn max_cards() -> nat {
    (usize::MAX / 12) as nat
}

/// A `usize` table read as a table of naturals.
pub open spec fn nats(v: Seq<usize>) -> Seq<nat> {
    v.map_values(|x: usize| x as nat)
}

fn any_equal(c: &Vec<usize>, n: usize) -> (r: bool)
    ensures
        r == has_count(nats(c@), n as nat),
{
    let mut i: usize = 0;
    while i < c.len()
        invariant
            i <= c.len(),
            forall|j: int| 0 <= j < i ==> c@[j] != n,
        decreases c.len() - i,
    {
        if c[i] == n {
            assert(nats(c@)[i as int] == n as nat);
            return true;
        }
        i += 1;
    }
    assert forall|j: int| 0 <= j < nats(c@).len() implies nats(c@)[j] != n as nat by {
        assert(c@[j] != n);
    }
    false
}

fn any_at_least(c: &Vec<usize>, n: usize) -> (r: bool)
    ensures
        r == has_count_at_least(nats(c@), n as nat),
{
    let mut i: usize = 0;
    while i < c.len()
        invariant
            i <= c.len(),
            forall|j: int| 0 <= j < i ==> c@[j] < n,
        decreases c.len() - i,
    {
        if c[i] >= n {
            assert(nats(c@)[i as int] >= n as nat);
            return true;
        }
        i += 1;
    }
    assert forall|j: int| 0 <= j < nats(c@).len() implies nats(c@)[j] < n as nat by {
        assert(c@[j] < n);
    }
    false
}

fn count_equal(c: &Vec<usize>, n: usize) -> (r: usize)
    ensures
        r == num_with_count(nats(c@), n as nat),
        r <= c.len(),
{
    let ghost m = nats(c@);
    let mut k: usize = 0;
    let mut i: usize = 0;
    while i < c.len()
        invariant
            i <= c.len(),
            m == nats(c@),
            k == count_prefix(m, n as nat, i as int),
            k <= i,
        decreases c.len() - i,
    {
        if c[i] == n {
            k += 1;
        }
        i += 1;
    }
    k
}

fn run_at_exec(c: &Vec<usize>, lo: usize, w: usize) -> (r: bool)
    requires
        lo + w <= c.len(),
    ensures
        r == run_at(nats(c@), lo as int, w as int),
{
    let mut k: usize = lo;
    while k < lo + w
        invariant
            lo <= k <= lo + w,
            lo + w <= c.len(),
            forall|j: int| lo <= j < k ==> c@[j] >= 1,
        decreases lo + w - k,
    {
        if c[k] == 0 {
            assert(nats(c@)[k as int] == 0);
            return false;
        }
        k += 1;
    }
    assert forall|j: int| lo <= j < lo + w implies nats(c@)[j] >= 1 by {
        assert(c@[j] >= 1);
    }
    true
}

fn any_run(c: &Vec<usize>, w: usize) -> (r: bool)
    ensures
        r == has_run(nats(c@), w as int),
{
    if w > c.len() {
        return false;
    }
    let mut lo: usize = 0;
    while lo <= c.len() - w
        invariant
            w <= c.len(),
            lo <= c.len() - w + 1,
            forall|j: int| 0 <= j < lo ==> !run_at(nats(c@), j, w as int),
        decreases c.len() + 1 - lo,
    {
        if run_at_exec(c, lo, w) {
            return true;
        }
        lo += 1;
    }
    false
}

/// Scores a set of cards: the category of the best hand it holds, the rank
/// score and the suit score. The result depends on the cards, not on their
/// order (see `lemma_evaluate_order_free`).
pub fn evaluate(cards: &Vec<Card>) -> (r: HandScore)
    requires
        cards@.len() <= max_cards(),
    ensures
        r.hand == category(cards@),
        r.rank_score == rank_score(cards@),
        r.suit_score == suit_score(cards@),
{
    let ghost s = cards@;
    let mut ranks: Vec<usize> = vec![0usize; NUM_RANKS];
    let mut suits: Vec<usize> = vec![0usize; NUM_SUITS];
    let mut rank_total: usize = 0;
    let mut suit_total: usize = 0;
    let mut i: usize = 0;
    while i < cards.len()
        invariant
            s == cards@,
            i <= cards.len(),
            cards@.len() <= max_cards(),
            ranks@.len() == 13,
            suits@.len() == 4,
            forall|r: int| 0 <= r < 13 ==> #[trigger] ranks@[r] == rank_count(s.take(i as int), r),
            forall|u: int| 0 <= u < 4 ==> #[trigger] suits@[u] == suit_count(s.take(i as int), u),
            forall|r: int| 0 <= r < 13 ==> #[trigger] ranks@[r] <= i,
            forall|u: int| 0 <= u < 4 ==> #[trigger] suits@[u] <= i,
            rank_total == rank_score(s.take(i as int)),
            suit_total == suit_score(s.take(i as int)),
            rank_total <= 12 * i,
            suit_total <= 3 * i,
        decreases cards.len() - i,
    {
        let card = cards[i];
        let ri = card.rank.index();
        let si = card.suit.index();
        proof {
            assert(s.take(i + 1).drop_last() =~= s.take(i as int));
            assert(s.take(i + 1).last() == card);
        }
        let rc = ranks[ri];
        ranks.set(ri, rc + 1);
        let sc = suits[si];
        suits.set(si, sc + 1);
        rank_total = rank_total + ri;
        suit_total = suit_total + si;
        i += 1;
    }
    proof {
        assert(s.take(s.len() as int) =~= s);
        assert(nats(ranks@) =~= rank_counts(s));
        assert(nats(suits@) =~= suit_counts(s));
    }
    let flush = any_at_least(&suits, 5);
    let straight = any_run(&ranks, 5);
    let four = any_equal(&ranks, 4);
    let num_triples = count_equal(&ranks, 3);
    let num_pairs = count_equal(&ranks, 2);
    let hand = if flush && straight {
        Hand::StraightFlush
    } else if four {
        Hand::FourOfAKind
    } else if num_triples >= 1 && (num_triples >= 2 || num_pairs >= 1) {
        Hand::FullHouse
    } else if flush {
        Hand::Flush
    } else if straight {
        Hand::Straight
    } else if num_triples >= 1 {
        Hand::ThreeOfAKind
    } else if num_pairs == 2 {
        Hand::TwoPair
    } else if num_pairs >= 1 {
        Hand::OnePair
    } else {
        Hand::HighCard
    };
    HandScore::new(hand, rank_total, suit_total)
}

/// Scores a player's private cards together with the community cards.
pub fn evaluate_hand(private_cards: &Vec<Card>, community_cards: &Vec<Card>) -> (r: HandScore)
    requires
        private_cards@.len() + community_cards@.len() <= max_cards(),
    ensures
        r.hand == category(private_cards@ + community_cards@),
        r.rank_score == rank_score(private_cards@ + community_cards@),
        r.suit_score == suit_score(private_cards@ + community_cards@),
{
    let mut all_cards = private_cards.clone();
    let mut i: usize = 0;
    while i < community_cards.len()
        invariant
            i <= community_cards.len(),
            all_cards@ == private_cards@ + community_cards@.take(i as int),
        decreases community_cards.len() - i,
    {
        all_cards.push(community_cards[i]);
        i += 1;
        proof {
            assert(all_cards@ =~= private_cards@ + community_cards@.take(i as int));
        }
    }
    proof {
        assert(community_cards@.take(community_cards@.len() as int) =~= community_cards@);
    }
    evaluate(&all_cards)
}

/// Taking out the card at `j` takes its term out of the sum.
pub proof fn lemma_card_sum_remove(s: Seq<Card>, f: spec_fn(Card) -> nat, j: int)
    requires
        0 <= j < s.len(),
    ensures
        card_sum(s, f) == card_sum(s.remove(j), f) + f(s[j]),
    decreases s.len(),
{
    if j == s.len() - 1 {
        assert(s.remove(j) =~= s.drop_last());
    } else {
        lemma_card_sum_remove(s.drop_last(), f, j);
        assert(s.remove(j).drop_last() =~= s.drop_last().remove(j));
        assert(s.remove(j).last() == s.last());
    }
}

/// A sum over cards depends on the multiset of cards alone.
pub proof fn lemma_card_sum_order_free(a: Seq<Card>, b: Seq<Card>, f: spec_fn(Card) -> nat)
    requires
        a.to_multiset() == b.to_multiset(),
    ensures
        card_sum(a, f) == card_sum(b, f),
    decreases a.len(),
{
    broadcast use group_to_multiset_ensures;
    if a.len() == 0 {
        assert(b.to_multiset().len() == 0);
        assert(b.len() == 0);
    } else {
        let x = a.last();
        let rest = a.drop_last();
        assert(a =~= rest.push(x));
        assert(a.to_multiset() =~= rest.to_multiset().insert(x));
        assert(b.to_multiset().count(x) > 0);
        assert(b.contains(x));
        let j = choose|j: int| 0 <= j < b.len() && b[j] == x;
        assert(b.remove(j).to_multiset() =~= b.to_multiset().remove(x));
        assert(rest.to_multiset() =~= rest.to_multiset().insert(x).remove(x));
        lemma_card_sum_order_free(rest, b.remove(j), f);
        lemma_card_sum_remove(b, f, j);
    }
}

/// Evaluation does not depend on the order of the cards: two sequences that
/// hold the same cards, each as many times, get the same category and scores.
pub proof fn lemma_evaluate_order_free(a: Seq<Card>, b: Seq<Card>)
    requires
        a.to_multiset() == b.to_multiset(),
    ensures
        category(a) == category(b),
        rank_score(a) == rank_score(b),
        suit_score(a) == suit_score(b),
{
    assert forall|r: int| 0 <= r < 13 implies rank_count(a, r) == rank_count(b, r) by {
        lemma_card_sum_order_free(a, b, of_rank(r));
    }
    assert forall|u: int| 0 <= u < 4 implies suit_count(a, u) == suit_count(b, u) by {
        lemma_card_sum_order_free(a, b, of_suit(u));
    }
    assert(rank_counts(a) =~= rank_counts(b));
    assert(suit_counts(a) =~= suit_counts(b));
    lemma_card_sum_order_free(a, b, |c: Card| c.rank.value());
    lemma_card_sum_order_free(a, b, |c: Card| c.suit.value());
}

/// Cards that hold both a flush and a straight are a straight flush, never a
/// plain flush or a plain straight.
pub proof fn lemma_flush_and_straight(s: Seq<Card>)
    requires
        is_flush(s),
        is_straight(s),
    ensures
        category(s) == Hand::StraightFlush,
{
}

/// Four of a kind outranks a full house, and a full house outranks three of a
/// kind, for hands of the same number of cards.
pub proof fn lemma_pattern_order(four: Seq<Card>, full: Seq<Card>, three: Seq<Card>)
    requires
        four.len() == full.len(),
        full.len() == three.len(),
        has_four(four),
        category(full) == Hand::FullHouse,
        category(three) == Hand::ThreeOfAKind,
    ensures
        category(four).value() > category(full).value(),
        category(full).value() > category(three).value(),
{
}

/// Replacing the card at `j` changes the sum by the difference of the terms.
pub proof fn lemma_card_sum_update(s: Seq<Card>, f: spec_fn(Card) -> nat, j: int, c: Card)
    requires
        0 <= j < s.len(),
    ensures
        card_sum(s.update(j, c), f) + f(s[j]) == card_sum(s, f) + f(c),
    decreases s.len(),
{
    if j == s.len() - 1 {
        assert(s.update(j, c).drop_last() =~= s.drop_last());
    } else {
        lemma_card_sum_update(s.drop_last(), f, j, c);
        assert(s.update(j, c).drop_last() =~= s.drop_last().update(j, c));
    }
}

/// Replacing a card by one of strictly higher rank, the other cards kept,
/// strictly raises the rank score.
pub proof fn lemma_higher_card_raises_rank_score(s: Seq<Card>, j: int, c: Card)
    requires
        0 <= j < s.len(),
        c.rank.value() > s[j].rank.value(),
    ensures
        rank_score(s.update(j, c)) > rank_score(s),
{
    lemma_card_sum_update(s, |c: Card| c.rank.value(), j, c);
}

/// The sum over the first `k` indices of `c` of index times entry.
pub open spec fn weighted_prefix(c: Seq<nat>, k: int) -> nat
    decreases k,
{
    if k <= 0 {
        0
    } else {
        weighted_prefix(c, k - 1) + ((k - 1) * c[k - 1]) as nat
    }
}

/// The sum over the indices of `c` of index times entry.
pub open spec fn weighted(c: Seq<nat>) -> nat {
    weighted_prefix(c, c.len() as int)
}

proof fn lemma_weighted_zero(c: Seq<nat>, k: int)
    requires
        k <= c.len(),
        forall|i: int| 0 <= i < c.len() ==> c[i] == 0,
    ensures
        weighted_prefix(c, k) == 0,
    decreases k,
{
    if k > 0 {
        lemma_weighted_zero(c, k - 1);
    }
}

proof fn lemma_weighted_bump(c: Seq<nat>, j: int, k: int)
    requires
        0 <= j < c.len(),
        k <= c.len(),
    ensures
        weighted_prefix(c.update(j, c[j] + 1), k) == weighted_prefix(c, k) + if j < k { j } else { 0 },
    decreases k,
{
    if k > 0 {
        lemma_weighted_bump(c, j, k - 1);
        if j == k - 1 {
            assert((k - 1) * (c[j] + 1) == (k - 1) * c[j] + (k - 1)) by (nonlinear_arith);
        }
    }
}

/// The rank score is the sum over the rank indices of index times the number
/// of cards of that rank; the suit score is the same sum over the suits.
pub proof fn lemma_scores_weighted(s: Seq<Card>)
    ensures
        rank_score(s) == weighted(rank_counts(s)),
        suit_score(s) == weighted(suit_counts(s)),
    decreases s.len(),
{
    if s.len() == 0 {
        lemma_weighted_zero(rank_counts(s), 13);
        lemma_weighted_zero(suit_counts(s), 4);
    } else {
        let rest = s.drop_last();
        let x = s.last();
        lemma_scores_weighted(rest);
        let r = x.rank.value() as int;
        let u = x.suit.value() as int;
        assert(rank_counts(s) =~= rank_counts(rest).update(r, rank_counts(rest)[r] + 1));
        assert(suit_counts(s) =~= suit_counts(rest).update(u, suit_counts(rest)[u] + 1));
        lemma_weighted_bump(rank_counts(rest), r, 13);
        lemma_weighted_bump(suit_counts(rest), u, 4);
    }
}

} // verus!
