//! The round engine: round setup, the deck operations, the decision-driven
//! turn resolver, and the deck-exhaustion tie-breaker.

use vstd::prelude::*;

use crate::card::Card;
use crate::card::DECK_SIZE;
use crate::card::create_deck;
use crate::shuffle::shuffle_cards;
use crate::state::State;
use crate::state::lemma_discard_total_push;
use crate::state::lemma_discard_total_update;
use crate::state::lemma_is_out_push;
use crate::state::lemma_out_push_preserves;
use crate::state::lemma_live_hands_push;
use crate::state::lemma_live_hands_update;
use crate::state::live_hands;
use crate::state::discard_total;

verus! {

/// What a resolved turn means for the rest of the round.
#[derive(Clone, Copy, PartialEq, Eq, Structural, Debug)]
pub enum RoundStatus {
    /// The turn completed; play passes to the next player.
    Continue,
    /// The active player is eliminated; their turn is skipped.
    Skip,
    /// The active player withdrew their choice; the turn must be retried.
    Retry,
    /// The deck is exhausted; remaining hands are compared.
    TieBreaker,
    /// Only one player remains; the round is over.
    End,
}

/// Why a decision was rejected. A rejected decision leaves the state
/// unchanged, and the caller may collect a corrected decision and retry.
#[derive(Clone, Copy, PartialEq, Eq, Structural, Debug)]
pub enum PlayError {
    /// A draw was attempted from an empty deck.
    EmptyDeck,
    /// The Red Queen was discarded while Time or the Executioner was retained.
    IllegalDiscard,
    /// The chosen target is ineligible, or a target choice was skipped while
    /// an eligible target existed.
    InvalidTarget,
    /// A Guard guess was missing, or named the Guard kind itself.
    InvalidGuess,
    /// The Executioner keep choice referred to a card that was not drawn.
    InvalidChoice,
    /// The active player holds no card although they are still in the round.
    InvalidHand,
}

/// The outcome of resolving one turn.
pub type TurnResult = Result<RoundStatus, PlayError>;

/// The target part of a decision.
#[derive(Clone, Copy, PartialEq, Eq, Structural, Debug)]
pub enum TargetChoice {
    /// Target the player with this index.
    Chosen(usize),
    /// Discard without a target; valid only when no target is eligible.
    Skip,
    /// Withdraw and retry the whole turn.
    Cancel,
}

/// Which card the Executioner's player keeps.
#[derive(Clone, Copy, PartialEq, Eq, Structural, Debug)]
pub enum ExecKeep {
    /// Keep the retained hand; the drawn cards go to the deck bottom.
    Hand,
    /// Keep the first drawn card.
    FirstDrawn,
    /// Keep the second drawn card.
    SecondDrawn,
}

/// Everything the active player decides for one turn, supplied up front.
/// Fields that the played card does not consult are ignored.
#[derive(Clone, Copy, PartialEq, Eq, Structural, Debug)]
pub struct Decision {
    /// Play the freshly drawn card (`true`) or the card already held (`false`).
    pub play_drawn: bool,
    /// The target, for cards that require one.
    pub target: TargetChoice,
    /// The guessed kind, for the Guard.
    pub guess: Option<Card>,
    /// The keep choice, for the Executioner.
    pub exec_keep: ExecKeep,
    /// Whether to swap the order of the two cards returned to the deck
    /// bottom, for the Executioner.
    pub exec_swap_order: bool,
}

/// Removes and returns the top card of the deck.
pub fn draw_top(deck: &mut Vec<Card>) -> (r: Result<Card, PlayError>)
    ensures
        old(deck)@.len() == 0 ==> r == Err::<Card, PlayError>(PlayError::EmptyDeck)
            && final(deck)@ == old(deck)@,
        old(deck)@.len() > 0 ==> r == Ok::<Card, PlayError>(old(deck)@.last())
            && final(deck)@ == old(deck)@.drop_last(),
{
    match deck.pop() {
        Some(card) => Ok(card),
        None => Err(PlayError::EmptyDeck),
    }
}

/// Slides a card under the deck.
pub fn insert_bottom(deck: &mut Vec<Card>, card: Card)
    ensures
        final(deck)@ == seq![card] + old(deck)@,
{
    deck.insert(0, card);
    proof {
        assert(final(deck)@ =~= seq![card] + old(deck)@);
    }
}

/// Starts a round: builds a standard deck, shuffles it with the given seed,
/// removes one card face down, and deals one card to every player.
pub fn begin_round(players: Vec<String>, tokens: Vec<i32>, round: i32, seed: u64) -> (s: State)
    requires
        2 <= players@.len() <= 6,
        tokens@.len() == players@.len(),
    ensures
        s.wf(),
        s.conserved(),
        s.hands_ok(),
        s.players@ == players@,
        s.tokens@ == tokens@,
        s.round == round,
        s.turn == 0,
        s.out@.len() == 0,
        s.dormouse is None,
        s.deck@.len() == DECK_SIZE - 1 - players@.len(),
        forall|i: int| 0 <= i < players@.len() ==> (#[trigger] s.hands@[i]) is Some,
        forall|i: int| 0 <= i < players@.len() ==> (#[trigger] s.discard@[i])@.len() == 0,
{
    let n = players.len();
    let mut deck = create_deck();
    shuffle_cards(&mut deck, seed);
    // The face-down card: set aside unseen for the rest of the round.
    let _ = deck.pop();
    let mut hands: Vec<Option<Card>> = Vec::new();
    let mut discard: Vec<Vec<Card>> = Vec::new();
    let mut i: usize = 0;
    while i < n
        invariant
            n == players@.len(),
            n <= 6,
            i <= n,
            deck@.len() == DECK_SIZE - 1 - i,
            hands@.len() == i,
            discard@.len() == i,
            forall|j: int| 0 <= j < i ==> (#[trigger] hands@[j]) is Some,
            forall|j: int| 0 <= j < i ==> (#[trigger] discard@[j])@.len() == 0,
            live_hands(hands@) == i,
            discard_total(discard@) == 0,
        decreases n - i,
    {
        let card = deck.pop().unwrap();
        let empty_pile: Vec<Card> = Vec::new();
        proof {
            lemma_live_hands_push(hands@, Some(card));
            lemma_discard_total_push(discard@, empty_pile);
        }
        hands.push(Some(card));
        discard.push(empty_pile);
        i = i + 1;
    }
    State {
        deck,
        discard,
        players,
        out: Vec::new(),
        hands,
        tokens,
        round,
        turn: 0,
        dormouse: None,
    }
}

/// Moves the turn pointer to the next seat, wrapping around.
pub fn advance_turn(state: &mut State)
    requires
        old(state).wf(),
    ensures
        final(state).wf(),
        final(state).turn == if old(state).turn + 1 == old(state).player_count() {
            0int
        } else {
            old(state).turn + 1
        },
        final(state).deck == old(state).deck,
        final(state).discard == old(state).discard,
        final(state).players == old(state).players,
        final(state).out == old(state).out,
        final(state).hands == old(state).hands,
        final(state).tokens == old(state).tokens,
        final(state).round == old(state).round,
        final(state).dormouse == old(state).dormouse,
{
    state.turn = state.turn + 1;
    if state.turn >= state.players.len() {
        state.turn = 0;
    }
}

/// The highest rank held by a non-eliminated player among the first `k`.
pub open spec fn max_alive_rank(s: State, k: int) -> int
    decreases k,
{
    if k <= 0 {
        -1
    } else {
        let rest = max_alive_rank(s, k - 1);
        if !s.is_out(k - 1) && s.hands@[k - 1] is Some && s.hands@[k - 1]->0.rank() > rest {
            s.hands@[k - 1]->0.rank()
        } else {
            rest
        }
    }
}

/// Resolves a deck-exhausted round: every non-eliminated player whose hand
/// ranks strictly below the best remaining hand is eliminated. The players
/// left share the round victory.
pub fn play_tie_breaker(state: &mut State)
    requires
        old(state).wf(),
        old(state).hands_ok(),
        exists|i: int| 0 <= i < old(state).player_count() && !old(state).is_out(i),
    ensures
        final(state).wf(),
        final(state).hands_ok(),
        old(state).conserved() ==> final(state).conserved(),
        old(state).out@.is_prefix_of(final(state).out@),
        final(state).deck == old(state).deck,
        final(state).discard == old(state).discard,
        final(state).players == old(state).players,
        final(state).hands == old(state).hands,
        final(state).tokens == old(state).tokens,
        final(state).round == old(state).round,
        final(state).turn == old(state).turn,
        final(state).dormouse == old(state).dormouse,
        forall|i: int|
            #![trigger final(state).is_out(i)]
            final(state).is_out(i) <==> old(state).is_out(i) || (0 <= i
                < old(state).player_count() && !old(state).is_out(i)
                && old(state).hands@[i]->0.rank()
                < max_alive_rank(*old(state), old(state).player_count())),
{
    let ghost s0 = *old(state);
    let n = state.players.len();
    let ghost m = max_alive_rank(s0, n as int);

    // Find the highest rank among the remaining hands.
    let mut best: i32 = -1;
    let mut i: usize = 0;
    while i < n
        invariant
            *state == s0,
            state.wf(),
            state.hands_ok(),
            n == state.player_count(),
            i <= n,
            best == max_alive_rank(s0, i as int),
            -1 <= best <= 9,
        decreases n - i,
    {
        if !state.is_player_out(i) {
            let rank = state.hands[i].unwrap().value();
            if rank as i32 > best {
                best = rank as i32;
            }
        }
        i = i + 1;
    }

    // Everyone who ranks strictly below the best hand is out.
    let mut i: usize = 0;
    while i < n
        invariant
            state.wf(),
            state.hands_ok(),
            n == state.player_count(),
            i <= n,
            best == m,
            state.deck == s0.deck,
            state.discard == s0.discard,
            state.players == s0.players,
            state.hands == s0.hands,
            state.tokens == s0.tokens,
            state.round == s0.round,
            state.turn == s0.turn,
            state.dormouse == s0.dormouse,
            s0.out@.is_prefix_of(state.out@),
            forall|j: int|
                #![trigger state.is_out(j)]
                state.is_out(j) <==> s0.is_out(j) || (0 <= j < i && !s0.is_out(j)
                    && s0.hands@[j]->0.rank() < m),
        decreases n - i,
    {
        let ghost before = *state;
        if !state.is_player_out(i) {
            if (state.hands[i].unwrap().value() as i32) < best {
                state.out.push(i);
                proof {
                    lemma_is_out_push(before, *state, i);
                }
            }
        }
        i = i + 1;
    }
}

} // verus!

// The turn resolver's specification, stated as a relation between the state
// before the turn, the decision, the result, and the state after.

verus! {

/// The legality gate: the Red Queen may not be discarded while Time or the
/// Executioner is the retained card.
pub open spec fn gate_illegal(played: Card, kept: Card) -> bool {
    played is RedQueen && (kept is Time || kept is Executioner)
}

/// The discard piles of `post` equal those of `pre`, except that pile `t`
/// grew by `pushed`.
pub open spec fn piles_match(pre: State, post: State, t: int, pushed: Seq<Card>) -> bool {
    &&& post.discard@.len() == pre.discard@.len()
    &&& post.discard@[t]@ == pre.discard@[t]@ + pushed
    &&& forall|j: int|
        0 <= j < pre.discard@.len() && j != t ==> (#[trigger] post.discard@[j])@
            == pre.discard@[j]@
}

/// The discard piles of `post` equal those of `pre`, except that pile `a`
/// grew by `pa` and pile `b` by `pb`.
pub open spec fn piles_match2(
    pre: State,
    post: State,
    a: int,
    pa: Seq<Card>,
    b: int,
    pb: Seq<Card>,
) -> bool {
    &&& post.discard@.len() == pre.discard@.len()
    &&& post.discard@[a]@ == pre.discard@[a]@ + pa
    &&& post.discard@[b]@ == pre.discard@[b]@ + pb
    &&& forall|j: int|
        0 <= j < pre.discard@.len() && j != a && j != b ==> (#[trigger] post.discard@[j])@
            == pre.discard@[j]@
}

/// The state after a successful play whose only effects are the draw, the
/// discard, and possibly new eliminations or a new dormouse claim.
pub open spec fn post_core(
    pre: State,
    post: State,
    played: Card,
    kept: Card,
    out_after: Seq<usize>,
    dormouse_after: Option<usize>,
) -> bool {
    let t = pre.turn as int;
    &&& post.deck@ == pre.deck@.drop_last()
    &&& post.hands@ == pre.hands@.update(t, Some(kept))
    &&& piles_match(pre, post, t, seq![played])
    &&& post.out@ == out_after
    &&& post.dormouse == dormouse_after
}

/// The state after Time resolves against target `tg`: the active player and
/// the target have exchanged hands.
pub open spec fn post_time(pre: State, post: State, played: Card, kept: Card, tg: int) -> bool {
    let t = pre.turn as int;
    &&& post.deck@ == pre.deck@.drop_last()
    &&& post.hands@ == pre.hands@.update(t, pre.hands@[tg]).update(tg, Some(kept))
    &&& piles_match(pre, post, t, seq![played])
    &&& post.out@ == pre.out@
    &&& post.dormouse == pre.dormouse
}

/// The state after the Knave of Hearts resolves against target `tg` (the
/// active player themselves allowed): the target discards their hand; a
/// discarded Alice eliminates them, otherwise they draw a replacement or are
/// eliminated if the deck has run dry.
pub open spec fn post_knave(pre: State, post: State, played: Card, kept: Card, tg: int) -> bool {
    let t = pre.turn as int;
    let deck1 = pre.deck@.drop_last();
    let hands1 = pre.hands@.update(t, Some(kept));
    let victim = hands1[tg]->0;
    &&& if victim is Alice {
        &&& post.deck@ == deck1
        &&& post.hands@ == hands1.update(tg, None::<Card>)
        &&& post.out@ == pre.out@.push(tg as usize)
    } else if deck1.len() > 0 {
        &&& post.deck@ == deck1.drop_last()
        &&& post.hands@ == hands1.update(tg, Some(deck1.last()))
        &&& post.out@ == pre.out@
    } else {
        &&& post.deck@ == deck1
        &&& post.hands@ == hands1.update(tg, None::<Card>)
        &&& post.out@ == pre.out@.push(tg as usize)
    }
    &&& if tg == t {
        piles_match(pre, post, t, seq![played, victim])
    } else {
        piles_match2(pre, post, t, seq![played], tg, seq![victim])
    }
    &&& post.dormouse == pre.dormouse
}

/// The state after Tweedies resolves against target `tg`: the strictly lower
/// of the two compared hands is eliminated; a tie eliminates no one.
pub open spec fn post_tweedies(pre: State, post: State, played: Card, kept: Card, tg: int) -> bool {
    let my = kept.rank();
    let their = pre.hands@[tg]->0.rank();
    post_core(
        pre,
        post,
        played,
        kept,
        if my > their {
            pre.out@.push(tg as usize)
        } else if my < their {
            pre.out@.push(pre.turn)
        } else {
            pre.out@
        },
        pre.dormouse,
    )
}

/// The state after the Guard resolves against target `tg` with guess `g`:
/// a correct guess eliminates the target.
pub open spec fn post_guard(
    pre: State,
    post: State,
    played: Card,
    kept: Card,
    tg: int,
    g: Card,
) -> bool {
    post_core(
        pre,
        post,
        played,
        kept,
        if pre.hands@[tg]->0 == g {
            pre.out@.push(tg as usize)
        } else {
            pre.out@
        },
        pre.dormouse,
    )
}

/// The dormouse claim after a Dormouse discard: a first discard records the
/// active player; a second by someone else cancels the claim; re-discarding
/// one's own claim leaves it standing.
pub open spec fn dormouse_toggle(pre: State) -> Option<usize> {
    match pre.dormouse {
        Some(p) => if p == pre.turn {
            Some(p)
        } else {
            None
        },
        None => Some(pre.turn),
    }
}

/// How many extra cards the Executioner can draw after the turn's own draw.
pub open spec fn exec_avail(pre: State) -> int {
    let rest = pre.deck@.len() - 1;
    if rest >= 2 {
        2
    } else {
        rest
    }
}

/// Whether the Executioner keep choice refers to a card that will be drawn.
pub open spec fn exec_keep_ok(keep: ExecKeep, avail: int) -> bool {
    match keep {
        ExecKeep::Hand => true,
        ExecKeep::FirstDrawn => avail >= 1,
        ExecKeep::SecondDrawn => avail >= 2,
    }
}

/// The state after the Executioner resolves: up to two more cards drawn, one
/// of the held cards kept, and the rest returned to the deck bottom in the
/// order the player chose.
pub open spec fn post_exec(
    pre: State,
    post: State,
    played: Card,
    kept: Card,
    keep: ExecKeep,
    swap: bool,
) -> bool {
    let t = pre.turn as int;
    let deck1 = pre.deck@.drop_last();
    let avail = exec_avail(pre);
    &&& piles_match(pre, post, t, seq![played])
    &&& post.out@ == pre.out@
    &&& post.dormouse == pre.dormouse
    &&& if avail == 0 {
        &&& post.deck@ == deck1
        &&& post.hands@ == pre.hands@.update(t, Some(kept))
    } else if avail == 1 {
        let d1 = deck1.last();
        let rem = deck1.drop_last();
        let keep_card = if keep is Hand {
            kept
        } else {
            d1
        };
        let bottom = if keep is Hand {
            d1
        } else {
            kept
        };
        &&& post.deck@ == seq![bottom] + rem
        &&& post.hands@ == pre.hands@.update(t, Some(keep_card))
    } else {
        let d1 = deck1.last();
        let d2 = deck1.drop_last().last();
        let rem = deck1.drop_last().drop_last();
        let keep_card = match keep {
            ExecKeep::Hand => kept,
            ExecKeep::FirstDrawn => d1,
            ExecKeep::SecondDrawn => d2,
        };
        let first_back = match keep {
            ExecKeep::Hand => d1,
            ExecKeep::FirstDrawn => kept,
            ExecKeep::SecondDrawn => kept,
        };
        let second_back = match keep {
            ExecKeep::Hand => d2,
            ExecKeep::FirstDrawn => d2,
            ExecKeep::SecondDrawn => d1,
        };
        let x = if swap {
            second_back
        } else {
            first_back
        };
        let y = if swap {
            first_back
        } else {
            second_back
        };
        &&& post.deck@ == seq![x, y] + rem
        &&& post.hands@ == pre.hands@.update(t, Some(keep_card))
    }
}

/// The complete specification of one call of the turn resolver: what result
/// comes back and how the state after relates to the state before, for every
/// state and every decision.
pub open spec fn turn_spec(pre: State, d: Decision, r: TurnResult, post: State) -> bool {
    let t = pre.turn as int;
    if pre.round_over() {
        r == Ok::<RoundStatus, PlayError>(RoundStatus::End) && post == pre
    } else if pre.is_out(t) {
        r == Ok::<RoundStatus, PlayError>(RoundStatus::Skip) && post == pre
    } else if pre.deck@.len() == 0 {
        r == Ok::<RoundStatus, PlayError>(RoundStatus::TieBreaker) && post == pre
    } else if pre.hands@[t] is None {
        r == Err::<RoundStatus, PlayError>(PlayError::InvalidHand) && post == pre
    } else {
        let drawn = pre.deck@.last();
        let held = pre.hands@[t]->0;
        let played = if d.play_drawn {
            drawn
        } else {
            held
        };
        let kept = if d.play_drawn {
            held
        } else {
            drawn
        };
        if gate_illegal(played, kept) {
            r == Err::<RoundStatus, PlayError>(PlayError::IllegalDiscard) && post == pre
        } else if !played.requires_target() {
            match played {
                Card::Alice => r == Ok::<RoundStatus, PlayError>(RoundStatus::Continue)
                    && post_core(pre, post, played, kept, pre.out@.push(pre.turn), pre.dormouse),
                Card::RedQueen => r == Ok::<RoundStatus, PlayError>(RoundStatus::Continue)
                    && post_core(pre, post, played, kept, pre.out@, pre.dormouse),
                Card::Executioner => {
                    if !exec_keep_ok(d.exec_keep, exec_avail(pre)) {
                        r == Err::<RoundStatus, PlayError>(PlayError::InvalidChoice) && post == pre
                    } else {
                        r == Ok::<RoundStatus, PlayError>(RoundStatus::Continue)
                            && post_exec(pre, post, played, kept, d.exec_keep, d.exec_swap_order)
                    }
                },
                Card::Nobody => r == Ok::<RoundStatus, PlayError>(RoundStatus::Continue)
                    && post_core(pre, post, played, kept, pre.out@, pre.dormouse),
                Card::Dormouse => r == Ok::<RoundStatus, PlayError>(RoundStatus::Continue)
                    && post_core(pre, post, played, kept, pre.out@, dormouse_toggle(pre)),
                _ => true,
            }
        } else {
            match d.target {
                TargetChoice::Cancel => r == Ok::<RoundStatus, PlayError>(RoundStatus::Retry)
                    && post == pre,
                TargetChoice::Skip => {
                    if pre.any_eligible_target(played) {
                        r == Err::<RoundStatus, PlayError>(PlayError::InvalidTarget) && post == pre
                    } else {
                        r == Ok::<RoundStatus, PlayError>(RoundStatus::Continue)
                            && post_core(pre, post, played, kept, pre.out@, pre.dormouse)
                    }
                },
                TargetChoice::Chosen(tg_raw) => {
                    let tg = tg_raw as int;
                    if !pre.eligible_target(played, tg) {
                        r == Err::<RoundStatus, PlayError>(PlayError::InvalidTarget) && post == pre
                    } else {
                        match played {
                            Card::Time => r == Ok::<RoundStatus, PlayError>(RoundStatus::Continue)
                                && post_time(pre, post, played, kept, tg),
                            Card::KnaveOfHearts => r == Ok::<RoundStatus, PlayError>(
                                RoundStatus::Continue,
                            ) && post_knave(pre, post, played, kept, tg),
                            Card::Tweedies => r == Ok::<RoundStatus, PlayError>(
                                RoundStatus::Continue,
                            ) && post_tweedies(pre, post, played, kept, tg),
                            Card::Wilkins => r == Ok::<RoundStatus, PlayError>(
                                RoundStatus::Continue,
                            ) && post_core(pre, post, played, kept, pre.out@, pre.dormouse),
                            Card::Guard => {
                                if d.guess is None || d.guess->0 is Guard {
                                    r == Err::<RoundStatus, PlayError>(PlayError::InvalidGuess)
                                        && post == pre
                                } else {
                                    r == Ok::<RoundStatus, PlayError>(RoundStatus::Continue)
                                        && post_guard(pre, post, played, kept, tg, d.guess->0)
                                }
                            },
                            _ => true,
                        }
                    }
                },
            }
        }
    }
}

} // verus!

// The turn resolver.

verus! {

/// The shared first step of every successful play: draw the top card, set
/// the hand to the kept card, and push the played card on the active
/// player's pile.
fn apply_discard(state: &mut State, played: Card, kept: Card)
    requires
        old(state).wf(),
        old(state).deck@.len() > 0,
        old(state).hands@[old(state).turn as int] is Some,
    ensures
        final(state).wf(),
        final(state).deck@ == old(state).deck@.drop_last(),
        final(state).hands@ == old(state).hands@.update(old(state).turn as int, Some(kept)),
        piles_match(*old(state), *final(state), old(state).turn as int, seq![played]),
        final(state).out == old(state).out,
        final(state).dormouse == old(state).dormouse,
        final(state).players == old(state).players,
        final(state).tokens == old(state).tokens,
        final(state).round == old(state).round,
        final(state).turn == old(state).turn,
        old(state).conserved() ==> final(state).conserved(),
        old(state).hands_ok() ==> final(state).hands_ok(),
{
    let ghost pre = *old(state);
    let t = state.turn;
    let _ = state.deck.pop();
    state.hands[t] = Some(kept);
    state.discard[t].push(played);
    proof {
        assert(state.hands@ =~= pre.hands@.update(t as int, Some(kept)));
        assert(state.discard@[t as int]@ =~= pre.discard@[t as int]@ + seq![played]);
        lemma_live_hands_update(pre.hands@, t as int, Some(kept));
        lemma_discard_total_update(pre.discard@, t as int, state.discard@[t as int]);
    }
}

/// Resolves one whole turn of the round from the active player's decision.
///
/// The relation between the state before and after, and the returned
/// status or rejection, is given in full by [`turn_spec`]. A rejected
/// decision leaves the state unchanged. In addition, for every decision:
/// a player once eliminated stays eliminated, card conservation and the
/// hand/elimination coupling are preserved, and the persistent match data
/// (players, tokens, round, turn pointer) is untouched.
#[verifier::rlimit(100)]
#[verifier::spinoff_prover]
pub fn resolve_turn(state: &mut State, d: &Decision) -> (r: TurnResult)
    requires
        old(state).wf(),
    ensures
        turn_spec(*old(state), *d, r, *final(state)),
        final(state).wf(),
        final(state).players == old(state).players,
        final(state).tokens == old(state).tokens,
        final(state).round == old(state).round,
        final(state).turn == old(state).turn,
        old(state).out@.is_prefix_of(final(state).out@),
        old(state).conserved() ==> final(state).conserved(),
        old(state).hands_ok() ==> final(state).hands_ok(),
{
    let ghost pre = *old(state);
    let t = state.turn;
    let n = state.players.len();

    proof {
        assert(pre.out@.is_prefix_of(pre.out@)) by {
            assert(pre.out@ =~= pre.out@.subrange(0, pre.out@.len() as int));
        }
    }

    // A round with a single survivor is over before any play.
    if state.out.len() == n - 1 {
        return Ok(RoundStatus::End);
    }
    // An eliminated player's turn is skipped without consuming anything.
    if state.is_player_out(t) {
        return Ok(RoundStatus::Skip);
    }
    // An exhausted deck sends the round to the tie-breaker before any draw.
    if state.deck.len() == 0 {
        return Ok(RoundStatus::TieBreaker);
    }
    let held = match state.hands[t] {
        Some(card) => card,
        None => {
            return Err(PlayError::InvalidHand);
        },
    };
    let drawn = state.deck[state.deck.len() - 1];
    let (played, kept) = if d.play_drawn {
        (drawn, held)
    } else {
        (held, drawn)
    };

    // The legality gate of the Red Queen.
    if played == Card::RedQueen && (kept == Card::Time || kept == Card::Executioner) {
        return Err(PlayError::IllegalDiscard);
    }

    if !played.targetting() {
        match played {
            Card::Alice => {
                // The player who discards Alice is out at once.
                apply_discard(state, played, kept);
                let ghost mid = *state;
                state.out.push(t);
                proof {
                    lemma_out_push_preserves(mid, *state, t);
                    assert(state.out@ == pre.out@.push(t));
                }
                Ok(RoundStatus::Continue)
            },
            Card::Executioner => {
                let rest = state.deck.len() - 1;
                let avail: usize = if rest >= 2 {
                    2
                } else {
                    rest
                };
                let keep_valid = match d.exec_keep {
                    ExecKeep::Hand => true,
                    ExecKeep::FirstDrawn => avail >= 1,
                    ExecKeep::SecondDrawn => avail >= 2,
                };
                if !keep_valid {
                    return Err(PlayError::InvalidChoice);
                }
                apply_discard(state, played, kept);
                if avail == 0 {
                    Ok(RoundStatus::Continue)
                } else if avail == 1 {
                    let ghost mid = *state;
                    let d1 = state.deck.pop().unwrap();
                    let (keep_card, bottom) = match d.exec_keep {
                        ExecKeep::Hand => (kept, d1),
                        _ => (d1, kept),
                    };
                    state.hands[t] = Some(keep_card);
                    insert_bottom(&mut state.deck, bottom);
                    proof {
                        assert(state.hands@ =~= pre.hands@.update(t as int, Some(keep_card)));
                        lemma_live_hands_update(mid.hands@, t as int, Some(keep_card));
                    }
                    Ok(RoundStatus::Continue)
                } else {
                    let ghost mid = *state;
                    let d1 = state.deck.pop().unwrap();
                    let d2 = state.deck.pop().unwrap();
                    let (keep_card, first_back, second_back) = match d.exec_keep {
                        ExecKeep::Hand => (kept, d1, d2),
                        ExecKeep::FirstDrawn => (d1, kept, d2),
                        ExecKeep::SecondDrawn => (d2, kept, d1),
                    };
                    state.hands[t] = Some(keep_card);
                    let (x, y) = if d.exec_swap_order {
                        (second_back, first_back)
                    } else {
                        (first_back, second_back)
                    };
                    insert_bottom(&mut state.deck, y);
                    insert_bottom(&mut state.deck, x);
                    proof {
                        assert(state.deck@ =~= seq![x, y] + pre.deck@.drop_last().drop_last().drop_last());
                        assert(state.hands@ =~= pre.hands@.update(t as int, Some(keep_card)));
                        lemma_live_hands_update(mid.hands@, t as int, Some(keep_card));
                    }
                    Ok(RoundStatus::Continue)
                }
            },
            Card::Dormouse => {
                apply_discard(state, played, kept);
                let dm = state.dormouse;
                match dm {
                    Some(p) => {
                        if p != t {
                            // A second Dormouse by another player cancels the claim.
                            state.dormouse = None;
                        }
                    },
                    None => {
                        // The first Dormouse of the round records its player.
                        state.dormouse = Some(t);
                    },
                }
                Ok(RoundStatus::Continue)
            },
            _ => {
                // The Red Queen and Nobody have no effect beyond the discard;
                // protection is derived from the discard pile itself.
                apply_discard(state, played, kept);
                Ok(RoundStatus::Continue)
            },
        }
    } else {
        match d.target {
            TargetChoice::Cancel => Ok(RoundStatus::Retry),
            TargetChoice::Skip => {
                if state.has_eligible_target(played) {
                    return Err(PlayError::InvalidTarget);
                }
                // No eligible target: the card is discarded without effect.
                apply_discard(state, played, kept);
                Ok(RoundStatus::Continue)
            },
            TargetChoice::Chosen(tg) => {
                if !state.check_target(played, tg) {
                    return Err(PlayError::InvalidTarget);
                }
                match played {
                    Card::Time => {
                        apply_discard(state, played, kept);
                        let ghost mid = *state;
                        let mine = state.hands[t];
                        let theirs = state.hands[tg];
                        state.hands[t] = theirs;
                        state.hands[tg] = mine;
                        proof {
                            assert(state.hands@ =~= pre.hands@.update(t as int, pre.hands@[tg as int]).update(tg as int, Some(kept)));
                            lemma_live_hands_update(mid.hands@, t as int, theirs);
                            lemma_live_hands_update(mid.hands@.update(t as int, theirs), tg as int, mine);
                        }
                        Ok(RoundStatus::Continue)
                    },
                    Card::KnaveOfHearts => {
                        apply_discard(state, played, kept);
                        let ghost mid = *state;
                        let victim = state.hands[tg].unwrap();
                        state.discard[tg].push(victim);
                        state.hands[tg] = None;
                        let ghost mid2 = *state;
                        proof {
                            assert(state.discard@[tg as int]@ =~= mid.discard@[tg as int]@ + seq![victim]);
                            lemma_discard_total_update(mid.discard@, tg as int, state.discard@[tg as int]);
                            lemma_live_hands_update(mid.hands@, tg as int, None::<Card>);
                            assert(state.hands@ =~= pre.hands@.update(t as int, Some(kept)).update(tg as int, None::<Card>));
                            if tg == t {
                                assert(state.discard@[t as int]@ =~= pre.discard@[t as int]@ + seq![played, victim]);
                            }
                        }
                        if victim == Card::Alice {
                            state.out.push(tg);
                            proof {
                                lemma_out_push_preserves(mid2, *state, tg);
                                assert(state.out@ == pre.out@.push(tg));
                            }
                        } else if state.deck.len() > 0 {
                            let replacement = state.deck.pop().unwrap();
                            state.hands[tg] = Some(replacement);
                            proof {
                                assert(state.hands@ =~= pre.hands@.update(t as int, Some(kept)).update(tg as int, Some(pre.deck@.drop_last().last())));
                                lemma_live_hands_update(mid2.hands@, tg as int, Some(replacement));
                            }
                        } else {
                            // Nothing left to draw: the target is out.
                            state.out.push(tg);
                            proof {
                                lemma_out_push_preserves(mid2, *state, tg);
                                assert(state.out@ == pre.out@.push(tg));
                            }
                        }
                        Ok(RoundStatus::Continue)
                    },
                    Card::Tweedies => {
                        apply_discard(state, played, kept);
                        let ghost mid = *state;
                        let my_rank = kept.value();
                        let their_rank = state.hands[tg].unwrap().value();
                        if my_rank > their_rank {
                            state.out.push(tg);
                            proof {
                                lemma_out_push_preserves(mid, *state, tg);
                                assert(state.out@ == pre.out@.push(tg));
                            }
                        } else if my_rank < their_rank {
                            state.out.push(t);
                            proof {
                                lemma_out_push_preserves(mid, *state, t);
                                assert(state.out@ == pre.out@.push(t));
                            }
                        }
                        Ok(RoundStatus::Continue)
                    },
                    Card::Guard => {
                        let guess = match d.guess {
                            Some(card) => card,
                            None => {
                                return Err(PlayError::InvalidGuess);
                            },
                        };
                        if guess == Card::Guard {
                            return Err(PlayError::InvalidGuess);
                        }
                        apply_discard(state, played, kept);
                        let ghost mid = *state;
                        let their_hand = state.hands[tg].unwrap();
                        if their_hand == guess {
                            state.out.push(tg);
                            proof {
                                lemma_out_push_preserves(mid, *state, tg);
                                assert(state.out@ == pre.out@.push(tg));
                            }
                        }
                        Ok(RoundStatus::Continue)
                    },
                    _ => {
                        // Wilkins: the observation is the caller's to render;
                        // no state beyond the discard changes.
                        apply_discard(state, played, kept);
                        Ok(RoundStatus::Continue)
                    },
                }
            },
        }
    }
}

} // verus!
