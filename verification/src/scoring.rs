//! The match engine: round scoring, the standings, and the rotation into
//! the next round.

use vstd::prelude::*;

use crate::round::begin_round;
use crate::state::State;

verus! {

/// Folds a finished round into the match tally: every player still in the
/// round earns one token, and the recorded dormouse holder, if any, earns
/// one more.
pub fn score_round(state: &mut State)
    requires
        old(state).wf(),
        forall|i: int|
            0 <= i < old(state).player_count() ==> (#[trigger] old(state).tokens@[i])
                <= i32::MAX - 2,
    ensures
        final(state).wf(),
        final(state).tokens@.len() == old(state).tokens@.len(),
        forall|i: int|
            0 <= i < old(state).player_count() ==> (#[trigger] final(state).tokens@[i])
                == old(state).tokens@[i] + (if old(state).is_out(i) {
                0int
            } else {
                1int
            }) + (if old(state).dormouse == Some(i as usize) {
                1int
            } else {
                0int
            }),
        final(state).deck == old(state).deck,
        final(state).discard == old(state).discard,
        final(state).players == old(state).players,
        final(state).out == old(state).out,
        final(state).hands == old(state).hands,
        final(state).round == old(state).round,
        final(state).turn == old(state).turn,
        final(state).dormouse == old(state).dormouse,
{
    let ghost s0 = *old(state);
    let n = state.players.len();
    let mut i: usize = 0;
    while i < n
        invariant
            state.wf(),
            n == state.player_count(),
            i <= n,
            state.deck == s0.deck,
            state.discard == s0.discard,
            state.players == s0.players,
            state.out == s0.out,
            state.hands == s0.hands,
            state.round == s0.round,
            state.turn == s0.turn,
            state.dormouse == s0.dormouse,
            state.tokens@.len() == s0.tokens@.len(),
            forall|j: int|
                0 <= j < s0.player_count() ==> (#[trigger] s0.tokens@[j]) <= i32::MAX - 2,
            forall|j: int|
                0 <= j < i ==> (#[trigger] state.tokens@[j]) == s0.tokens@[j] + (
                if s0.is_out(j) {
                    0int
                } else {
                    1int
                }) + (if s0.dormouse == Some(j as usize) {
                    1int
                } else {
                    0int
                }),
            forall|j: int|
                i <= j < s0.player_count() ==> (#[trigger] state.tokens@[j]) == s0.tokens@[j],
        decreases n - i,
    {
        let mut gain: i32 = 0;
        if !state.is_player_out(i) {
            gain = 1;
        }
        let holder = match state.dormouse {
            Some(p) => p == i,
            None => false,
        };
        if holder {
            gain = gain + 1;
        }
        let current = state.tokens[i];
        state.tokens[i] = current + gain;
        i = i + 1;
    }
}

/// Seat `p` appears somewhere in the ranking `r`.
pub open spec fn seat_listed(r: Seq<(usize, i32)>, p: int) -> bool {
    exists|k: int| 0 <= k < r.len() && (#[trigger] r[k]).0 as int == p
}

/// The players ranked for display: sorted by token count, highest first,
/// ties kept in seat order.
pub fn standings(state: &State) -> (r: Vec<(usize, i32)>)
    requires
        state.wf(),
    ensures
        r@.len() == state.player_count(),
        // Each entry reports one player's seat and their actual token count.
        forall|k: int|
            0 <= k < r@.len() ==> (#[trigger] r@[k]).0 < state.player_count() && r@[k].1
                == state.tokens@[r@[k].0 as int],
        // Every seat appears.
        forall|p: int| 0 <= p < state.player_count() ==> #[trigger] seat_listed(r@, p),
        // Sorted by tokens, descending, and stable: ties stay in seat order.
        forall|k: int, l: int|
            0 <= k < l < r@.len() ==> (#[trigger] r@[k]).1 > (#[trigger] r@[l]).1 || (r@[k].1
                == r@[l].1 && r@[k].0 < r@[l].0),
{
    let n = state.players.len();
    let mut r: Vec<(usize, i32)> = Vec::new();
    let mut i: usize = 0;
    while i < n
        invariant
            state.wf(),
            n == state.player_count(),
            i <= n,
            r@.len() == i,
            forall|k: int|
                0 <= k < i ==> (#[trigger] r@[k]).0 < i && r@[k].1
                    == state.tokens@[r@[k].0 as int],
            forall|p: int| 0 <= p < i ==> #[trigger] seat_listed(r@, p),
            forall|k: int, l: int|
                0 <= k < l < i ==> (#[trigger] r@[k]).1 > (#[trigger] r@[l]).1 || (r@[k].1
                    == r@[l].1 && r@[k].0 < r@[l].0),
        decreases n - i,
    {
        // Insert seat i behind every entry that outranks it; entries with the
        // same token count keep the lower seat first, so the sort is stable.
        let tokens_i = state.tokens[i];
        let ghost r_before = r@;
        let mut pos: usize = 0;
        while pos < r.len() && r[pos].1 >= tokens_i
            invariant
                r@ == r_before,
                pos <= r@.len(),
                forall|k: int|
                    0 <= k < pos ==> (#[trigger] r@[k]).1 >= tokens_i,
            decreases r@.len() - pos,
        {
            pos = pos + 1;
        }
        r.insert(pos, (i, tokens_i));
        proof {
            assert forall|p: int| 0 <= p < i + 1 implies #[trigger] seat_listed(r@, p) by {
                if p == i as int {
                    assert(r@[pos as int].0 as int == p);
                } else {
                    assert(seat_listed(r_before, p));
                    let k0 = choose|k: int|
                        0 <= k < r_before.len() && (#[trigger] r_before[k]).0 as int == p;
                    if k0 < pos {
                        assert(r@[k0].0 as int == p);
                    } else {
                        assert(r@[k0 + 1].0 as int == p);
                    }
                }
            }
            assert forall|k: int, l: int|
                0 <= k < l < r@.len() implies (#[trigger] r@[k]).1 > (#[trigger] r@[l]).1 || (
                r@[k].1 == r@[l].1 && r@[k].0 < r@[l].0) by {
                if k < pos && l == pos {
                    assert(r@[k] == r_before[k]);
                    assert(r@[k].1 >= tokens_i);
                } else if k == pos && l > pos {
                    assert(r@[l] == r_before[l - 1]);
                    assert(r_before[pos as int].1 < tokens_i);
                    if l - 1 > pos {
                        assert(r_before[pos as int].1 > r_before[l - 1].1 || (
                        r_before[pos as int].1 == r_before[l - 1].1));
                    }
                    assert(r_before[l - 1].1 < tokens_i);
                } else if k < pos && l > pos {
                    assert(r@[k] == r_before[k]);
                    assert(r@[l] == r_before[l - 1]);
                } else if k > pos && l > pos {
                    assert(r@[k] == r_before[k - 1]);
                    assert(r@[l] == r_before[l - 1]);
                } else if k < pos && l < pos {
                    assert(r@[k] == r_before[k]);
                    assert(r@[l] == r_before[l]);
                }
            }
        }
        i = i + 1;
    }
    r
}

/// Rotates the turn order by one seat and deals the next round: the player
/// who opened the finished round moves to the back, everyone else slides
/// forward, and all round-scoped state is rebuilt afresh.
pub fn next_round(state: State, seed: u64) -> (s: State)
    requires
        state.wf(),
    ensures
        s.wf(),
        s.conserved(),
        s.hands_ok(),
        s.players@.len() == state.players@.len(),
        s.players@ == state.players@.subrange(1, state.players@.len() as int).push(
            state.players@[0],
        ),
        s.tokens@ == state.tokens@.subrange(1, state.tokens@.len() as int).push(
            state.tokens@[0],
        ),
        s.round == state.round,
        s.turn == 0,
        s.out@.len() == 0,
        s.dormouse is None,
        s.deck@.len() == crate::card::DECK_SIZE - 1 - state.players@.len(),
        forall|i: int| 0 <= i < s.player_count() ==> (#[trigger] s.hands@[i]) is Some,
        forall|i: int| 0 <= i < s.player_count() ==> (#[trigger] s.discard@[i])@.len() == 0,
{
    let mut players = state.players;
    let mut tokens = state.tokens;
    let ghost players0 = players@;
    let ghost tokens0 = tokens@;
    let first_player = players.remove(0);
    players.push(first_player);
    let first_tokens = tokens.remove(0);
    tokens.push(first_tokens);
    proof {
        assert(players@ =~= players0.subrange(1, players0.len() as int).push(players0[0]));
        assert(tokens@ =~= tokens0.subrange(1, tokens0.len() as int).push(tokens0[0]));
    }
    begin_round(players, tokens, state.round, seed)
}

} // verus!
