use holdem::betting::{
    bets_settled, check_user_bet, computer_move, reset_bets, BettingRound, Move, Turn, UserBet,
};
use holdem::card::{Card, Rank, Suit};
use holdem::deck::Deck;
use holdem::hand::{evaluate, evaluate_hand, Hand, HandScore};
use holdem::player::Player;
use holdem::round::{deal_hole_cards, turn_cards};
use holdem::showdown::{find_winning_hand, outranks, resolve_showdown, tied_players};

fn c(rank: Rank, suit: Suit) -> Card {
    Card { suit, rank }
}

fn score(hand: Hand, rank_score: usize, suit_score: usize) -> HandScore {
    HandScore::new(hand, rank_score, suit_score)
}

#[test]
fn two_pair_aces_and_kings() {
    let cards = vec![
        c(Rank::Ace, Suit::Spades),
        c(Rank::Ace, Suit::Hearts),
        c(Rank::King, Suit::Diamonds),
        c(Rank::King, Suit::Clubs),
        c(Rank::Two, Suit::Spades),
    ];
    let s = evaluate(&cards);
    assert_ne!(s.hand, Hand::ThreeOfAKind);
    assert_eq!(s.hand, Hand::TwoPair);
    assert_eq!(s.rank_score, 12 * 2 + 11 * 2);
    assert_eq!(s.rank_score, 46);
    assert_eq!(s.suit_score, 3 + 2 + 1 + 0 + 3);
}

#[test]
fn community_straight_flush_in_clubs() {
    let community = vec![
        c(Rank::Two, Suit::Clubs),
        c(Rank::Three, Suit::Clubs),
        c(Rank::Four, Suit::Clubs),
        c(Rank::Five, Suit::Clubs),
        c(Rank::Six, Suit::Clubs),
    ];
    let private = vec![c(Rank::King, Suit::Diamonds), c(Rank::Nine, Suit::Hearts)];
    assert_eq!(evaluate_hand(&private, &community).hand, Hand::StraightFlush);
    let other = vec![c(Rank::Ace, Suit::Spades), c(Rank::Ace, Suit::Hearts)];
    assert_eq!(evaluate_hand(&other, &community).hand, Hand::StraightFlush);
    let s = evaluate_hand(&private, &community);
    assert_eq!(s.rank_score, 0 + 1 + 2 + 3 + 4 + 11 + 7);
    assert_eq!(s.suit_score, 0 + 1 + 2);
}

#[test]
fn order_of_cards_does_not_matter() {
    let a = vec![
        c(Rank::Nine, Suit::Hearts),
        c(Rank::Two, Suit::Clubs),
        c(Rank::Nine, Suit::Spades),
        c(Rank::Queen, Suit::Diamonds),
        c(Rank::Four, Suit::Hearts),
        c(Rank::Nine, Suit::Clubs),
        c(Rank::Two, Suit::Hearts),
    ];
    let mut b = a.clone();
    b.reverse();
    let mut d = a.clone();
    d.swap(0, 5);
    d.swap(2, 6);
    let sa = evaluate(&a);
    assert_eq!(sa, evaluate(&b));
    assert_eq!(sa, evaluate(&d));
    assert_eq!(sa.hand, Hand::FullHouse);
}

#[test]
fn flush_with_straight_is_straight_flush() {
    let cards = vec![
        c(Rank::Nine, Suit::Hearts),
        c(Rank::Ten, Suit::Hearts),
        c(Rank::Jack, Suit::Hearts),
        c(Rank::Queen, Suit::Hearts),
        c(Rank::King, Suit::Hearts),
        c(Rank::Two, Suit::Hearts),
    ];
    assert_eq!(evaluate(&cards).hand, Hand::StraightFlush);
}

#[test]
fn plain_flush_and_plain_straight() {
    let flush = vec![
        c(Rank::Two, Suit::Diamonds),
        c(Rank::Five, Suit::Diamonds),
        c(Rank::Nine, Suit::Diamonds),
        c(Rank::Jack, Suit::Diamonds),
        c(Rank::King, Suit::Diamonds),
    ];
    assert_eq!(evaluate(&flush).hand, Hand::Flush);
    let straight = vec![
        c(Rank::Ten, Suit::Diamonds),
        c(Rank::Jack, Suit::Clubs),
        c(Rank::Queen, Suit::Diamonds),
        c(Rank::King, Suit::Spades),
        c(Rank::Ace, Suit::Diamonds),
    ];
    assert_eq!(evaluate(&straight).hand, Hand::Straight);
}

#[test]
fn ace_does_not_wrap_below_two() {
    let cards = vec![
        c(Rank::Ace, Suit::Diamonds),
        c(Rank::Two, Suit::Clubs),
        c(Rank::Three, Suit::Diamonds),
        c(Rank::Four, Suit::Spades),
        c(Rank::Five, Suit::Hearts),
    ];
    assert_eq!(evaluate(&cards).hand, Hand::HighCard);
}

#[test]
fn four_beats_full_house_beats_three() {
    let four = vec![
        c(Rank::Seven, Suit::Clubs),
        c(Rank::Seven, Suit::Diamonds),
        c(Rank::Seven, Suit::Hearts),
        c(Rank::Seven, Suit::Spades),
        c(Rank::Two, Suit::Clubs),
    ];
    let full = vec![
        c(Rank::Seven, Suit::Clubs),
        c(Rank::Seven, Suit::Diamonds),
        c(Rank::Seven, Suit::Hearts),
        c(Rank::Two, Suit::Spades),
        c(Rank::Two, Suit::Clubs),
    ];
    let three = vec![
        c(Rank::Seven, Suit::Clubs),
        c(Rank::Seven, Suit::Diamonds),
        c(Rank::Seven, Suit::Hearts),
        c(Rank::Three, Suit::Spades),
        c(Rank::Two, Suit::Clubs),
    ];
    let s4 = evaluate(&four);
    let sf = evaluate(&full);
    let s3 = evaluate(&three);
    assert_eq!(s4.hand, Hand::FourOfAKind);
    assert_eq!(sf.hand, Hand::FullHouse);
    assert_eq!(s3.hand, Hand::ThreeOfAKind);
    assert!(outranks(&s4, &sf));
    assert!(outranks(&sf, &s3));
    let scores = vec![s3, sf, s4];
    let bets = vec![10, 10, 10];
    assert_eq!(resolve_showdown(&scores, &bets), Some(2));
}

#[test]
fn two_triples_make_a_full_house() {
    let cards = vec![
        c(Rank::Five, Suit::Clubs),
        c(Rank::Five, Suit::Diamonds),
        c(Rank::Five, Suit::Hearts),
        c(Rank::Jack, Suit::Spades),
        c(Rank::Jack, Suit::Clubs),
        c(Rank::Jack, Suit::Hearts),
        c(Rank::Two, Suit::Hearts),
    ];
    assert_eq!(evaluate(&cards).hand, Hand::FullHouse);
}

#[test]
fn three_pairs_is_not_two_pair() {
    let cards = vec![
        c(Rank::Five, Suit::Clubs),
        c(Rank::Five, Suit::Diamonds),
        c(Rank::Eight, Suit::Hearts),
        c(Rank::Eight, Suit::Spades),
        c(Rank::Jack, Suit::Clubs),
        c(Rank::Jack, Suit::Hearts),
        c(Rank::Two, Suit::Hearts),
    ];
    assert_eq!(evaluate(&cards).hand, Hand::OnePair);
}

#[test]
fn few_cards_and_no_cards() {
    let empty: Vec<Card> = Vec::new();
    assert_eq!(evaluate(&empty), score(Hand::HighCard, 0, 0));
    let two = vec![c(Rank::Queen, Suit::Spades), c(Rank::Queen, Suit::Hearts)];
    assert_eq!(evaluate(&two), score(Hand::OnePair, 20, 5));
    let four = vec![
        c(Rank::Two, Suit::Spades),
        c(Rank::Three, Suit::Spades),
        c(Rank::Four, Suit::Spades),
        c(Rank::Five, Suit::Spades),
    ];
    assert_eq!(evaluate(&four).hand, Hand::HighCard);
}

#[test]
fn higher_card_raises_rank_score() {
    let mut cards = vec![
        c(Rank::Three, Suit::Clubs),
        c(Rank::Eight, Suit::Diamonds),
        c(Rank::Jack, Suit::Hearts),
    ];
    let before = evaluate(&cards).rank_score;
    cards[0] = c(Rank::Four, Suit::Clubs);
    let after = evaluate(&cards).rank_score;
    assert!(after > before);
    assert_eq!(after, before + 1);
}

#[test]
fn sole_active_player_wins() {
    let scores = vec![
        score(Hand::StraightFlush, 50, 10),
        score(Hand::HighCard, 0, 0),
        score(Hand::FourOfAKind, 40, 6),
    ];
    let bets = vec![-1, 20, -1];
    assert_eq!(resolve_showdown(&scores, &bets), Some(1));
    assert_eq!(tied_players(&scores, &bets), vec![1]);
}

#[test]
fn all_folded_gives_no_winner() {
    let scores = vec![score(Hand::Flush, 30, 10), score(Hand::HighCard, 1, 0)];
    let bets = vec![-1, -1];
    assert_eq!(resolve_showdown(&scores, &bets), None);
    assert!(tied_players(&scores, &bets).is_empty());
}

#[test]
fn equal_flushes_go_to_suit_score() {
    let scores = vec![
        score(Hand::Flush, 35, 5),
        score(Hand::Flush, 35, 15),
        score(Hand::OnePair, 60, 20),
    ];
    let bets = vec![-2, -2, -2];
    assert_eq!(resolve_showdown(&scores, &bets), Some(1));
    assert_eq!(tied_players(&scores, &bets), vec![1]);
}

#[test]
fn full_tie_reported_first_wins() {
    let scores = vec![
        score(Hand::OnePair, 30, 6),
        score(Hand::Flush, 35, 15),
        score(Hand::Flush, 35, 15),
        score(Hand::Flush, 35, 15),
    ];
    let bets = vec![5, 5, -1, 5];
    assert_eq!(resolve_showdown(&scores, &bets), Some(1));
    assert_eq!(tied_players(&scores, &bets), vec![1, 3]);
}

#[test]
fn rank_score_breaks_category_tie() {
    let scores = vec![score(Hand::TwoPair, 40, 9), score(Hand::TwoPair, 41, 0)];
    let bets = vec![0, 0];
    assert_eq!(resolve_showdown(&scores, &bets), Some(1));
}

#[test]
fn winning_hand_from_players_and_community() {
    let community = vec![
        c(Rank::Two, Suit::Clubs),
        c(Rank::Seven, Suit::Hearts),
        c(Rank::Nine, Suit::Spades),
        c(Rank::Jack, Suit::Diamonds),
        c(Rank::King, Suit::Clubs),
    ];
    let mut p0 = Player::new(100);
    p0.add(c(Rank::Three, Suit::Hearts));
    p0.add(c(Rank::Four, Suit::Hearts));
    let mut p1 = Player::new(100);
    p1.add(c(Rank::King, Suit::Spades));
    p1.add(c(Rank::Two, Suit::Hearts));
    let mut p2 = Player::new(100);
    p2.add(c(Rank::Nine, Suit::Hearts));
    p2.add(c(Rank::Nine, Suit::Diamonds));
    let players = vec![p0, p1, p2];
    assert_eq!(find_winning_hand(&players, &community, &vec![0, 0, 0]), Some(2));
    assert_eq!(find_winning_hand(&players, &community, &vec![0, 0, -1]), Some(1));
    assert_eq!(find_winning_hand(&players, &community, &vec![-1, -1, -1]), None);
}

#[test]
fn new_deck_has_every_card_once() {
    let deck = Deck::new();
    assert_eq!(deck.cards.len(), 52);
    for i in 0..52 {
        for j in (i + 1)..52 {
            assert_ne!(deck.cards[i], deck.cards[j]);
        }
    }
    assert_eq!(deck.cards[0], c(Rank::Two, Suit::Spades));
    assert_eq!(deck.cards[51], c(Rank::Ace, Suit::Clubs));
}

#[test]
fn deck_deals_fifty_two_then_runs_out() {
    let mut deck = Deck::new();
    assert_eq!(deck.deal(), Some(c(Rank::Ace, Suit::Clubs)));
    for _ in 1..52 {
        assert!(deck.deal().is_some());
    }
    assert!(deck.cards.is_empty());
    assert_eq!(deck.deal(), None);
}

#[test]
fn shuffle_keeps_the_cards_and_moves_them() {
    let mut deck = Deck::new();
    deck.shuffle();
    assert_eq!(deck.cards.len(), 52);
    let fresh = Deck::new();
    for card in fresh.cards.iter() {
        assert_eq!(deck.cards.iter().filter(|x| *x == card).count(), 1);
    }
    assert_ne!(deck.cards, fresh.cards);
}

#[test]
fn player_chips_and_cards() {
    let mut p = Player::new(1000);
    assert!(p.cards.is_empty());
    p.update_chips(-250);
    assert_eq!(p.chips, 750);
    p.update_chips(1000);
    assert_eq!(p.chips, 1750);
    p.add(c(Rank::Ten, Suit::Hearts));
    assert_eq!(p.cards, vec![c(Rank::Ten, Suit::Hearts)]);
}

#[test]
fn user_bets_are_judged() {
    assert_eq!(check_user_bet(-1, 100, 10), UserBet::Fold);
    assert_eq!(check_user_bet(-5, 100, 10), UserBet::Negative);
    assert_eq!(check_user_bet(150, 100, 10), UserBet::NotEnoughChips);
    assert_eq!(check_user_bet(5, 100, 10), UserBet::BelowCurrent);
    assert_eq!(check_user_bet(10, 100, 10), UserBet::Accepted);
    assert_eq!(check_user_bet(100, 100, 10), UserBet::Accepted);
}

#[test]
fn computer_moves_follow_the_roll() {
    assert_eq!(computer_move(1, 70, 20), Move::Bet(70));
    assert_eq!(computer_move(2, 70, 20), Move::Bet(20));
    assert_eq!(computer_move(3, 70, 20), Move::Bet(20));
    assert_eq!(computer_move(4, 70, 20), Move::Fold);
}

#[test]
fn settled_bets_and_reset() {
    assert!(bets_settled(&vec![10, -1, 10], 10));
    assert!(!bets_settled(&vec![10, -2, 10], 10));
    assert!(!bets_settled(&vec![10, 5, -1], 10));
    let mut bets = vec![10, -1, -2, 0];
    reset_bets(&mut bets);
    assert_eq!(bets, vec![-2, -1, -2, -2]);
}

#[test]
fn betting_round_steps() {
    let mut players = vec![Player::new(100), Player::new(100), Player::new(100)];
    let mut bets = vec![-2, -1, -2];
    let mut pot = 0;
    let mut round = BettingRound::new(2);
    assert!(round.is_open(3));
    assert_eq!(round.turn(&bets), Turn::Computer);
    round.apply(&mut players, &mut bets, &mut pot, Move::Bet(30));
    assert_eq!(pot, 30);
    assert_eq!(players[2].chips, 70);
    assert_eq!(bets, vec![-2, -1, 30]);
    assert_eq!(round.current_bet, 30);
    round.advance(&bets);
    assert_eq!(round.current_better, 0);
    assert!(!round.all_bets_in);
    assert_eq!(round.turn(&bets), Turn::User);
    round.apply(&mut players, &mut bets, &mut pot, Move::Bet(30));
    round.advance(&bets);
    assert!(round.all_bets_in);
    assert_eq!(round.turn(&bets), Turn::Skip);
    round.advance(&bets);
    assert_eq!(round.players_visited, 3);
    assert!(!round.is_open(3));
    assert_eq!(pot, 60);
    round.apply(&mut players, &mut bets, &mut pot, Move::Fold);
    assert_eq!(bets[1], -1);
}

#[test]
fn hole_cards_and_community_are_dealt_from_the_top() {
    let mut deck = Deck::new();
    let mut players = vec![Player::new(50), Player::new(60)];
    players[0].add(c(Rank::Two, Suit::Hearts));
    deal_hole_cards(&mut deck, &mut players);
    assert_eq!(deck.cards.len(), 48);
    assert_eq!(players[0].cards, vec![c(Rank::Ace, Suit::Clubs), c(Rank::Queen, Suit::Clubs)]);
    assert_eq!(players[1].cards, vec![c(Rank::King, Suit::Clubs), c(Rank::Jack, Suit::Clubs)]);
    assert_eq!(players[0].chips, 50);
    let mut community = Vec::new();
    turn_cards(&mut deck, &mut community, 3);
    assert_eq!(deck.cards.len(), 44);
    assert_eq!(
        community,
        vec![c(Rank::Nine, Suit::Clubs), c(Rank::Eight, Suit::Clubs), c(Rank::Seven, Suit::Clubs)]
    );
}
