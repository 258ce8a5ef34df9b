//! Game laws: properties of the engine that hold for every state and every
//! decision, stated and proved over the same specification the resolver's
//! contract uses.

use vstd::prelude::*;

use crate::card::Card;
use crate::round::Decision;
use crate::round::PlayError;
use crate::round::RoundStatus;
use crate::round::TargetChoice;
use crate::round::TurnResult;
use crate::round::post_core;
use crate::round::turn_spec;
use crate::state::State;

verus! {

/// Protection correctness: a player other than the active one whose most
/// recent discard grants protection is never an eligible target, whatever
/// card is played. (The active player can only be targeted by a card that
/// permits self-targeting; by that point their own most recent discard is
/// the card just played, which grants no protection.)
pub proof fn lemma_protected_never_eligible(s: State, card: Card, t: int)
    requires
        s.protected(t),
        t != s.turn as int,
    ensures
        !s.eligible_target(card, t),
{
}

/// Elimination monotonicity: every operation of the engine only appends to
/// the elimination list, so a player once eliminated in a round never
/// rejoins that round.
pub proof fn lemma_once_out_stays_out(pre: State, post: State, i: int)
    requires
        pre.out@.is_prefix_of(post.out@),
        pre.is_out(i),
    ensures
        post.is_out(i),
{
    let k = choose|k: int| 0 <= k < pre.out@.len() && (#[trigger] pre.out@[k]) as int == i;
    assert(post.out@[k] == pre.out@.subrange(0, pre.out@.len() as int)[k]);
    assert(post.out@[k] as int == i);
}

/// Red Queen legality, the forbidden half: whenever a turn plays the Red
/// Queen while Time or the Executioner would be retained, the resolver
/// answers `IllegalDiscard` and leaves the state unchanged.
pub proof fn lemma_red_queen_blocked(pre: State, d: Decision, r: TurnResult, post: State)
    requires
        turn_spec(pre, d, r, post),
        !pre.round_over(),
        !pre.is_out(pre.turn as int),
        pre.deck@.len() > 0,
        pre.hands@[pre.turn as int] is Some,
        ({
            let drawn = pre.deck@.last();
            let held = pre.hands@[pre.turn as int]->0;
            let played = if d.play_drawn {
                drawn
            } else {
                held
            };
            let kept = if d.play_drawn {
                held
            } else {
                drawn
            };
            played is RedQueen && (kept is Time || kept is Executioner)
        }),
    ensures
        r == Err::<RoundStatus, PlayError>(PlayError::IllegalDiscard),
        post == pre,
{
}

/// Red Queen legality, the permitted half: whenever a turn plays the Red
/// Queen while any other card is retained, the discard succeeds and has no
/// effect beyond the discard itself.
pub proof fn lemma_red_queen_allowed(pre: State, d: Decision, r: TurnResult, post: State)
    requires
        turn_spec(pre, d, r, post),
        !pre.round_over(),
        !pre.is_out(pre.turn as int),
        pre.deck@.len() > 0,
        pre.hands@[pre.turn as int] is Some,
        ({
            let drawn = pre.deck@.last();
            let held = pre.hands@[pre.turn as int]->0;
            let played = if d.play_drawn {
                drawn
            } else {
                held
            };
            let kept = if d.play_drawn {
                held
            } else {
                drawn
            };
            played is RedQueen && !(kept is Time) && !(kept is Executioner)
        }),
    ensures
        r == Ok::<RoundStatus, PlayError>(RoundStatus::Continue),
        ({
            let drawn = pre.deck@.last();
            let held = pre.hands@[pre.turn as int]->0;
            let played = if d.play_drawn {
                drawn
            } else {
                held
            };
            let kept = if d.play_drawn {
                held
            } else {
                drawn
            };
            post_core(pre, post, played, kept, pre.out@, pre.dormouse)
        }),
{
}

/// Guard self-exclusion: a Guard guess naming the Guard kind itself is
/// always rejected as an invalid guess and leaves the state unchanged, even
/// against an eligible target.
pub proof fn lemma_guard_self_guess_rejected(pre: State, d: Decision, r: TurnResult, post: State)
    requires
        turn_spec(pre, d, r, post),
        !pre.round_over(),
        !pre.is_out(pre.turn as int),
        pre.deck@.len() > 0,
        pre.hands@[pre.turn as int] is Some,
        ({
            let drawn = pre.deck@.last();
            let held = pre.hands@[pre.turn as int]->0;
            let played = if d.play_drawn {
                drawn
            } else {
                held
            };
            played is Guard
        }),
        d.target matches TargetChoice::Chosen(tg) && pre.eligible_target(Card::Guard, tg as int),
        d.guess == Some(Card::Guard),
    ensures
        r == Err::<RoundStatus, PlayError>(PlayError::InvalidGuess),
        post == pre,
{
}

} // verus!
