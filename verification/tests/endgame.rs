use love_letter::card::Card;
use love_letter::card::DECK_SIZE;
use love_letter::round::Decision;
use love_letter::round::ExecKeep;
use love_letter::round::PlayError;
use love_letter::round::RoundStatus;
use love_letter::round::TargetChoice;
use love_letter::round::advance_turn;
use love_letter::round::begin_round;
use love_letter::round::draw_top;
use love_letter::round::insert_bottom;
use love_letter::round::play_tie_breaker;
use love_letter::round::resolve_turn;
use love_letter::scoring::next_round;
use love_letter::scoring::score_round;
use love_letter::scoring::standings;
use love_letter::state::State;

fn table(names: &[&str], hands: Vec<Option<Card>>, deck: Vec<Card>) -> State {
    let n = names.len();
    assert_eq!(hands.len(), n);
    State {
        deck,
        discard: (0..n).map(|_| Vec::new()).collect(),
        players: names.iter().map(|s| s.to_string()).collect(),
        out: Vec::new(),
        hands,
        tokens: vec![0; n],
        round: 1,
        turn: 0,
        dormouse: None,
    }
}

#[test]
fn test_draw_top_and_empty_deck_error() {
    let mut deck = vec![Card::Guard, Card::Alice];
    assert_eq!(draw_top(&mut deck), Ok(Card::Alice));
    assert_eq!(draw_top(&mut deck), Ok(Card::Guard));
    assert_eq!(draw_top(&mut deck), Err(PlayError::EmptyDeck));
    assert!(deck.is_empty());
}

#[test]
fn test_insert_bottom_prepends() {
    let mut deck = vec![Card::Guard];
    insert_bottom(&mut deck, Card::Alice);
    assert_eq!(deck, vec![Card::Alice, Card::Guard]);
}

#[test]
fn test_advance_turn_wraps() {
    let mut state = table(
        &["A", "B", "C"],
        vec![Some(Card::Guard), Some(Card::Guard), Some(Card::Guard)],
        vec![],
    );
    advance_turn(&mut state);
    assert_eq!(state.turn, 1);
    advance_turn(&mut state);
    assert_eq!(state.turn, 2);
    advance_turn(&mut state);
    assert_eq!(state.turn, 0);
}

#[test]
fn test_begin_round_deals() {
    let players = vec!["A".to_string(), "B".to_string(), "C".to_string()];
    let tokens = vec![1, 2, 3];
    let state = begin_round(players, tokens, 4, 99);
    assert_eq!(state.players, vec!["A", "B", "C"]);
    assert_eq!(state.tokens, vec![1, 2, 3]);
    assert_eq!(state.round, 4);
    assert_eq!(state.turn, 0);
    assert!(state.out.is_empty());
    assert_eq!(state.dormouse, None);
    assert_eq!(state.deck.len(), DECK_SIZE - 1 - 3);
    assert!(state.hands.iter().all(|h| h.is_some()));
    assert!(state.discard.iter().all(|p| p.is_empty()));
}

#[test]
fn test_begin_round_full_table() {
    // The largest table the rules allow: six players.
    let players: Vec<String> = (1..=6).map(|i| format!("P{}", i)).collect();
    let state = begin_round(players, vec![0; 6], 1, 7);
    assert_eq!(state.players.len(), 6);
    assert_eq!(state.deck.len(), DECK_SIZE - 1 - 6);
    assert!(state.hands.iter().all(|h| h.is_some()));
}

#[test]
fn test_begin_round_shuffle_keeps_cards() {
    // Whatever the shuffle did, the visible cards must all come from the
    // standard deck: per-kind counts never exceed the catalog counts, and
    // exactly one card is hidden face down.
    let players = vec!["A".to_string(), "B".to_string()];
    let state = begin_round(players, vec![0, 0], 1, 12345);
    let mut visible: Vec<Card> = state.deck.clone();
    for hand in &state.hands {
        visible.push(hand.unwrap());
    }
    assert_eq!(visible.len(), DECK_SIZE - 1);
    for kind in [
        Card::Alice,
        Card::RedQueen,
        Card::Time,
        Card::Executioner,
        Card::KnaveOfHearts,
        Card::Nobody,
        Card::Tweedies,
        Card::Wilkins,
        Card::Guard,
        Card::Dormouse,
    ] {
        let copies = visible.iter().filter(|c| **c == kind).count();
        assert!(copies <= kind.count());
        assert!(copies + 1 >= kind.count());
    }
}

#[test]
fn test_tie_breaker_keeps_highest() {
    // P6: with hands Alice (9), Time (7) and Wilkins (2), the tie-breaker
    // eliminates the Time and Wilkins holders and leaves the Alice holder.
    let mut state = table(
        &["A", "B", "C"],
        vec![Some(Card::Alice), Some(Card::Time), Some(Card::Wilkins)],
        vec![],
    );
    play_tie_breaker(&mut state);
    assert_eq!(state.out, vec![1, 2]);
}

#[test]
fn test_tie_breaker_shared_victory() {
    // Equal best hands: both stay in, only the lower hand is out.
    let mut state = table(
        &["A", "B", "C"],
        vec![Some(Card::Guard), Some(Card::Guard), Some(Card::Dormouse)],
        vec![],
    );
    play_tie_breaker(&mut state);
    assert_eq!(state.out, vec![2]);
}

#[test]
fn test_tie_breaker_ignores_eliminated() {
    let mut state = table(
        &["A", "B", "C"],
        vec![Some(Card::Guard), Some(Card::Alice), Some(Card::Dormouse)],
        vec![],
    );
    state.out.push(1);
    play_tie_breaker(&mut state);
    assert_eq!(state.out, vec![1, 2]);
}

#[test]
fn test_score_round_tokens() {
    let mut state = table(
        &["A", "B", "C"],
        vec![Some(Card::Guard), Some(Card::Guard), Some(Card::Guard)],
        vec![],
    );
    state.out.push(1);
    state.dormouse = Some(0);
    state.tokens = vec![5, 5, 5];
    score_round(&mut state);
    // A survives and holds the dormouse claim: two tokens. C survives: one.
    assert_eq!(state.tokens, vec![7, 5, 6]);
}

#[test]
fn test_score_round_dormouse_bonus_alone() {
    // P7 scoring half: only the standing claim earns the bonus.
    let mut state = table(
        &["A", "B", "C"],
        vec![Some(Card::Guard), Some(Card::Guard), Some(Card::Guard)],
        vec![],
    );
    state.dormouse = Some(2);
    score_round(&mut state);
    assert_eq!(state.tokens, vec![1, 1, 2]);
}

#[test]
fn test_standings_sorted_and_stable() {
    let mut state = table(
        &["A", "B", "C", "D"],
        vec![Some(Card::Guard), Some(Card::Guard), Some(Card::Guard), Some(Card::Guard)],
        vec![],
    );
    state.tokens = vec![1, 3, 3, 2];
    let ranking = standings(&state);
    assert_eq!(ranking, vec![(1, 3), (2, 3), (3, 2), (0, 1)]);
}

#[test]
fn test_next_round_rotates_order() {
    // P9: the opener of the finished round moves to the back of the order.
    let mut state = table(
        &["A", "B", "C"],
        vec![Some(Card::Guard), Some(Card::Guard), Some(Card::Guard)],
        vec![],
    );
    state.tokens = vec![10, 20, 30];
    state.round = 7;
    let next = next_round(state, 42);
    assert_eq!(next.players, vec!["B", "C", "A"]);
    assert_eq!(next.tokens, vec![20, 30, 10]);
    assert_eq!(next.round, 7);
    assert_eq!(next.turn, 0);
    assert!(next.out.is_empty());
    assert_eq!(next.dormouse, None);
    assert_eq!(next.deck.len(), DECK_SIZE - 1 - 3);
}

#[test]
fn test_end_to_end_guard_round() {
    // P8: two players; player 1 draws and plays a Guard, guessing rank 9
    // (Alice) against player 2, who holds it. Player 2 is eliminated, the
    // round ends, and player 1 earns the round token.
    let mut state = table(
        &["P1", "P2"],
        vec![Some(Card::Wilkins), Some(Card::Alice)],
        vec![Card::Dormouse, Card::Guard],
    );
    let d = Decision {
        play_drawn: true, // play the drawn Guard
        target: TargetChoice::Chosen(1),
        guess: Some(Card::Alice),
        exec_keep: ExecKeep::Hand,
        exec_swap_order: false,
    };
    assert_eq!(resolve_turn(&mut state, &d), Ok(RoundStatus::Continue));
    assert_eq!(state.out, vec![1]);

    // The next pre-turn check sees a single survivor and ends the round.
    advance_turn(&mut state);
    let idle = Decision {
        play_drawn: false,
        target: TargetChoice::Skip,
        guess: None,
        exec_keep: ExecKeep::Hand,
        exec_swap_order: false,
    };
    assert_eq!(resolve_turn(&mut state, &idle), Ok(RoundStatus::End));

    score_round(&mut state);
    assert_eq!(state.tokens, vec![1, 0]);
}
