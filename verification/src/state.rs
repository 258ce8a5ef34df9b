//! The round state: deck, per-player hands, discard piles, eliminations,
//! tokens, the turn pointer, and the dormouse claim, together with the
//! predicates the engine's contracts are stated over.

use vstd::prelude::*;

use crate::card::Card;
use crate::card::DECK_SIZE;

verus! {

/// The full state of a match in the middle of a round.
///
/// `deck`, `discard`, `hands`, `out`, `turn` and `dormouse` are round-scoped
/// and rebuilt at the start of every round; `players`, `tokens` and `round`
/// persist across rounds.
pub struct State {
    /// The draw pile; cards are drawn from the end and returned to the front.
    pub deck: Vec<Card>,
    /// One discard pile per player, in play order.
    pub discard: Vec<Vec<Card>>,
    /// Player names, in the current turn order.
    pub players: Vec<String>,
    /// Indices of the players eliminated this round, in elimination order.
    pub out: Vec<usize>,
    /// Each player's current hand; empty only for some eliminated players.
    pub hands: Vec<Option<Card>>,
    /// Tokens won so far, per player.
    pub tokens: Vec<i32>,
    /// The round counter.
    pub round: i32,
    /// The index of the active player.
    pub turn: usize,
    /// The first player to discard the Dormouse this round, if their claim
    /// has not been cancelled by a second discard.
    pub dormouse: Option<usize>,
}

/// How many of the hands are present.
pub open spec fn live_hands(h: Seq<Option<Card>>) -> int
    decreases h.len(),
{
    if h.len() == 0 {
        0
    } else {
        live_hands(h.drop_last()) + if h.last() is Some {
            1int
        } else {
            0int
        }
    }
}

/// The total number of cards across all discard piles.
pub open spec fn discard_total(d: Seq<Vec<Card>>) -> int
    decreases d.len(),
{
    if d.len() == 0 {
        0
    } else {
        discard_total(d.drop_last()) + d.last()@.len()
    }
}

impl State {
    /// The number of players in the match.
    pub open spec fn player_count(self) -> int {
        self.players@.len() as int
    }

    /// Whether player `i` has been eliminated this round.
    pub open spec fn is_out(self, i: int) -> bool {
        exists|k: int| 0 <= k < self.out@.len() && (#[trigger] self.out@[k]) as int == i
    }

    /// The elimination list holds valid player indices, without duplicates.
    pub open spec fn out_ok(self) -> bool {
        &&& forall|k: int|
            0 <= k < self.out@.len() ==> (#[trigger] self.out@[k]) < self.player_count()
        &&& forall|k: int, l: int|
            0 <= k < l < self.out@.len() ==> self.out@[k] != self.out@[l]
    }

    /// Well-formedness: consistent sizes and in-range references.
    pub open spec fn wf(self) -> bool {
        &&& 2 <= self.player_count() <= 6
        &&& self.discard@.len() == self.player_count()
        &&& self.hands@.len() == self.player_count()
        &&& self.tokens@.len() == self.player_count()
        &&& self.turn < self.player_count()
        &&& (self.dormouse matches Some(p) ==> p < self.player_count())
        &&& self.out_ok()
    }

    /// Every player still in the round holds a card.
    pub open spec fn hands_ok(self) -> bool {
        forall|i: int|
            0 <= i < self.player_count() && !self.is_out(i) ==> (#[trigger] self.hands@[i]) is Some
    }

    /// Card conservation: the deck, the hands, the discard piles and the one
    /// face-down card removed at setup together account for the whole deck.
    pub open spec fn conserved(self) -> bool {
        self.deck@.len() + live_hands(self.hands@) + discard_total(self.discard@) + 1 == DECK_SIZE
    }

    /// Whether player `i`'s most recent discard currently protects them from
    /// being targeted.
    pub open spec fn protected(self, i: int) -> bool {
        self.discard@[i]@.len() > 0 && self.discard@[i]@.last().grants_protection()
    }

    /// Whether player `t` may be chosen as the target of `card`, played by the
    /// active player.
    pub open spec fn eligible_target(self, card: Card, t: int) -> bool {
        &&& 0 <= t < self.player_count()
        &&& !self.is_out(t)
        &&& self.hands@[t] is Some
        &&& if t == self.turn as int {
            card.allows_self_target()
        } else {
            !self.protected(t)
        }
    }

    /// Whether any player may be chosen as the target of `card`.
    pub open spec fn any_eligible_target(self, card: Card) -> bool {
        exists|t: int| self.eligible_target(card, t)
    }

    /// Both the card to play and the retained hand demand a non-self target,
    /// and every other player still in the round is protected.
    pub open spec fn no_possible_play_spec(self, card: Card) -> bool {
        &&& card.requires_target() && !card.allows_self_target()
        &&& self.hands@[self.turn as int] is Some
        &&& self.hands@[self.turn as int]->0.requires_target()
        &&& !self.hands@[self.turn as int]->0.allows_self_target()
        &&& forall|i: int|
            0 <= i < self.player_count() && i != self.turn as int && !(#[trigger] self.is_out(i))
                ==> self.protected(i)
    }

    /// The round is over: all players but one have been eliminated.
    pub open spec fn round_over(self) -> bool {
        self.out@.len() == self.player_count() - 1
    }

    /// Whether player `i` has been eliminated, as an executable check.
    pub fn is_player_out(&self, i: usize) -> (r: bool)
        ensures
            r == self.is_out(i as int),
    {
        let mut k: usize = 0;
        while k < self.out.len()
            invariant
                k <= self.out@.len(),
                forall|j: int| 0 <= j < k ==> (#[trigger] self.out@[j]) != i,
            decreases self.out@.len() - k,
        {
            if self.out[k] == i {
                return true;
            }
            k = k + 1;
        }
        false
    }

    /// Whether player `i` is currently protected, as an executable check.
    pub fn is_protected(&self, i: usize) -> (r: bool)
        requires
            i < self.discard@.len(),
        ensures
            r == self.protected(i as int),
    {
        let pile = &self.discard[i];
        if pile.len() == 0 {
            false
        } else {
            pile[pile.len() - 1].protects()
        }
    }

    /// Whether player `t` may be chosen as the target of `card`, as an
    /// executable check.
    pub fn check_target(&self, card: Card, t: usize) -> (r: bool)
        requires
            self.wf(),
        ensures
            r == self.eligible_target(card, t as int),
    {
        if t >= self.players.len() {
            false
        } else if self.is_player_out(t) {
            false
        } else if self.hands[t].is_none() {
            false
        } else if t == self.turn {
            card.can_target_self()
        } else {
            !self.is_protected(t)
        }
    }

    /// Whether any player may be chosen as the target of `card`, as an
    /// executable check.
    pub fn has_eligible_target(&self, card: Card) -> (r: bool)
        requires
            self.wf(),
        ensures
            r == self.any_eligible_target(card),
    {
        let n = self.players.len();
        let mut t: usize = 0;
        while t < n
            invariant
                self.wf(),
                n == self.player_count(),
                t <= n,
                forall|j: int| 0 <= j < t ==> !(#[trigger] self.eligible_target(card, j)),
            decreases n - t,
        {
            if self.check_target(card, t) {
                proof {
                    assert(self.eligible_target(card, t as int));
                }
                return true;
            }
            t = t + 1;
        }
        proof {
            assert(forall|j: int| !(#[trigger] self.eligible_target(card, j)));
        }
        false
    }
}

/// Appending one hand to a hand list adds one live hand exactly when the
/// appended hand is present.
pub proof fn lemma_live_hands_push(h: Seq<Option<Card>>, v: Option<Card>)
    ensures
        live_hands(h.push(v)) == live_hands(h) + if v is Some {
            1int
        } else {
            0int
        },
{
    assert(h.push(v).drop_last() =~= h);
}

/// Replacing one hand changes the live-hand count by the difference between
/// the new and the old entry.
pub proof fn lemma_live_hands_update(h: Seq<Option<Card>>, i: int, v: Option<Card>)
    requires
        0 <= i < h.len(),
    ensures
        live_hands(h.update(i, v)) == live_hands(h) - (if h[i] is Some {
            1int
        } else {
            0int
        }) + (if v is Some {
            1int
        } else {
            0int
        }),
    decreases h.len(),
{
    if i == h.len() - 1 {
        assert(h.update(i, v).drop_last() =~= h.drop_last());
    } else {
        assert(h.update(i, v).drop_last() =~= h.drop_last().update(i, v));
        lemma_live_hands_update(h.drop_last(), i, v);
    }
}

/// Appending one pile to a pile list grows the discard total by its length.
pub proof fn lemma_discard_total_push(d: Seq<Vec<Card>>, v: Vec<Card>)
    ensures
        discard_total(d.push(v)) == discard_total(d) + v@.len(),
{
    assert(d.push(v).drop_last() =~= d);
}

/// Replacing one pile changes the discard total by the difference between
/// the new and the old pile's lengths.
pub proof fn lemma_discard_total_update(d: Seq<Vec<Card>>, i: int, v: Vec<Card>)
    requires
        0 <= i < d.len(),
    ensures
        discard_total(d.update(i, v)) == discard_total(d) - d[i]@.len() + v@.len(),
    decreases d.len(),
{
    if i == d.len() - 1 {
        assert(d.update(i, v).drop_last() =~= d.drop_last());
    } else {
        assert(d.update(i, v).drop_last() =~= d.drop_last().update(i, v));
        lemma_discard_total_update(d.drop_last(), i, v);
    }
}

/// Appending one index to the elimination list eliminates that player and
/// no other.
pub proof fn lemma_is_out_push(pre: State, post: State, v: usize)
    requires
        post.out@ == pre.out@.push(v),
    ensures
        forall|i: int| post.is_out(i) <==> pre.is_out(i) || v as int == i,
{
    assert forall|i: int| post.is_out(i) implies pre.is_out(i) || v as int == i by {
        let k = choose|k: int|
            0 <= k < post.out@.len() && (#[trigger] post.out@[k]) as int == i;
        if k < pre.out@.len() {
            assert(pre.out@[k] as int == i);
        }
    }
    assert forall|i: int| pre.is_out(i) || v as int == i implies post.is_out(i) by {
        if pre.is_out(i) {
            let k = choose|k: int|
                0 <= k < pre.out@.len() && (#[trigger] pre.out@[k]) as int == i;
            assert(post.out@[k] as int == i);
        } else {
            assert(post.out@[pre.out@.len() as int] as int == i);
        }
    }
}

/// Eliminating one more, not yet eliminated, in-range player keeps the
/// elimination list well formed, extends it, and eliminates exactly that
/// player.
pub proof fn lemma_out_push_preserves(pre: State, post: State, v: usize)
    requires
        pre.out_ok(),
        post.out@ == pre.out@.push(v),
        post.players@.len() == pre.players@.len(),
        (v as int) < pre.player_count(),
        !pre.is_out(v as int),
    ensures
        post.out_ok(),
        pre.out@.is_prefix_of(post.out@),
        forall|i: int| post.is_out(i) <==> pre.is_out(i) || v as int == i,
{
    lemma_is_out_push(pre, post, v);
    assert(pre.out@ =~= post.out@.subrange(0, pre.out@.len() as int));
    assert forall|k: int, l: int|
        0 <= k < l < post.out@.len() implies post.out@[k] != post.out@[l] by {
        if l == pre.out@.len() {
            if post.out@[k] == post.out@[l] {
                assert(pre.out@[k] as int == v as int);
                assert(pre.is_out(v as int));
            }
        }
    }
}

/// Whether the active player can make no targeted play at all: the card to
/// play and the retained hand both demand a non-self target, and every other
/// live player is protected.
pub fn no_possible_play(state: &State, card: &Card) -> (r: bool)
    requires
        state.wf(),
        state.hands@[state.turn as int] is Some,
    ensures
        r == state.no_possible_play_spec(*card),
{
    let hand = state.hands[state.turn].unwrap();
    let card_targetting = card.targetting() && !card.can_target_self();
    let hand_targetting = hand.targetting() && !hand.can_target_self();
    if card_targetting && hand_targetting {
        let n = state.players.len();
        let mut i: usize = 0;
        let mut all_protected = true;
        while i < n
            invariant
                state.wf(),
                n == state.player_count(),
                i <= n,
                all_protected == forall|j: int|
                    0 <= j < i && j != state.turn as int && !(#[trigger] state.is_out(j))
                        ==> state.protected(j),
            decreases n - i,
        {
            if !state.is_player_out(i) && !state.is_protected(i) && i != state.turn {
                all_protected = false;
            }
            i = i + 1;
        }
        all_protected
    } else {
        false
    }
}

} // verus!
