//! The card catalog: the ten card kinds, their ranks, their counts in a
//! standard deck, and their targeting and protection behaviour.

use vstd::prelude::*;

verus! {

/// The ten card kinds of the game, listed in descending rank order.
#[derive(Clone, Copy, PartialEq, Eq, Structural, Debug)]
pub enum Card {
    /// Rank 9: if discarded, its player is eliminated.
    Alice,
    /// Rank 8: may not be discarded while Time or the Executioner is retained.
    RedQueen,
    /// Rank 7: swap hands with a target player.
    Time,
    /// Rank 6: draw up to two cards, keep one card, return the rest to the
    /// bottom of the deck.
    Executioner,
    /// Rank 5: a target player (self allowed) discards their hand and draws anew.
    KnaveOfHearts,
    /// Rank 4: grants protection from targeting until the next turn.
    Nobody,
    /// Rank 3: compare hands with a target player; the lower rank is eliminated.
    Tweedies,
    /// Rank 2: look at a target player's hand.
    Wilkins,
    /// Rank 1: guess a target player's hand; a correct guess eliminates them.
    Guard,
    /// Rank 0: the sole player to discard this kind earns a bonus token.
    Dormouse,
}

/// The total number of cards in a standard deck: the sum of the per-kind counts.
pub const DECK_SIZE: usize = 21;

impl Card {
    /// The rank of the card, unique per kind; used for guesses and tie-breaks.
    pub open spec fn rank(self) -> int {
        match self {
            Card::Alice => 9,
            Card::RedQueen => 8,
            Card::Time => 7,
            Card::Executioner => 6,
            Card::KnaveOfHearts => 5,
            Card::Nobody => 4,
            Card::Tweedies => 3,
            Card::Wilkins => 2,
            Card::Guard => 1,
            Card::Dormouse => 0,
        }
    }

    /// How many copies of this kind a standard deck holds.
    pub open spec fn deck_count(self) -> int {
        match self {
            Card::Alice => 1,
            Card::RedQueen => 1,
            Card::Time => 1,
            Card::Executioner => 2,
            Card::KnaveOfHearts => 2,
            Card::Nobody => 2,
            Card::Tweedies => 2,
            Card::Wilkins => 2,
            Card::Guard => 6,
            Card::Dormouse => 2,
        }
    }

    /// Whether playing this card requires choosing a target player.
    pub open spec fn requires_target(self) -> bool {
        match self {
            Card::Time => true,
            Card::KnaveOfHearts => true,
            Card::Tweedies => true,
            Card::Wilkins => true,
            Card::Guard => true,
            _ => false,
        }
    }

    /// Whether this card permits its player to target themselves.
    pub open spec fn allows_self_target(self) -> bool {
        self is KnaveOfHearts
    }

    /// Whether this card, as the most recent discard of a player, protects
    /// that player from being targeted.
    pub open spec fn grants_protection(self) -> bool {
        self is Nobody
    }

    /// The rank of the card as an executable value.
    pub fn value(&self) -> (r: usize)
        ensures
            r == self.rank(),
    {
        match self {
            Card::Alice => 9,
            Card::RedQueen => 8,
            Card::Time => 7,
            Card::Executioner => 6,
            Card::KnaveOfHearts => 5,
            Card::Nobody => 4,
            Card::Tweedies => 3,
            Card::Wilkins => 2,
            Card::Guard => 1,
            Card::Dormouse => 0,
        }
    }

    /// How many copies of this kind a standard deck holds, as an executable value.
    pub fn count(&self) -> (r: usize)
        ensures
            r == self.deck_count(),
    {
        match self {
            Card::Alice => 1,
            Card::RedQueen => 1,
            Card::Time => 1,
            Card::Executioner => 2,
            Card::KnaveOfHearts => 2,
            Card::Nobody => 2,
            Card::Tweedies => 2,
            Card::Wilkins => 2,
            Card::Guard => 6,
            Card::Dormouse => 2,
        }
    }

    /// The display name of the card.
    pub open spec fn name_spec(self) -> Seq<char> {
        match self {
            Card::Alice => "Alice"@,
            Card::RedQueen => "The Red Queen"@,
            Card::Time => "Time"@,
            Card::Executioner => "Executioner"@,
            Card::KnaveOfHearts => "Knave of Hearts"@,
            Card::Nobody => "Nobody"@,
            Card::Tweedies => "The Tweedies"@,
            Card::Wilkins => "Wilkins"@,
            Card::Guard => "Guard"@,
            Card::Dormouse => "The Dormouse"@,
        }
    }

    /// The display name of the card.
    pub fn name(&self) -> (r: String)
        ensures
            r@ == self.name_spec(),
    {
        match self {
            Card::Alice => "Alice".to_owned(),
            Card::RedQueen => "The Red Queen".to_owned(),
            Card::Time => "Time".to_owned(),
            Card::Executioner => "Executioner".to_owned(),
            Card::KnaveOfHearts => "Knave of Hearts".to_owned(),
            Card::Nobody => "Nobody".to_owned(),
            Card::Tweedies => "The Tweedies".to_owned(),
            Card::Wilkins => "Wilkins".to_owned(),
            Card::Guard => "Guard".to_owned(),
            Card::Dormouse => "The Dormouse".to_owned(),
        }
    }

    /// A one-line description of the card's effect.
    pub open spec fn description_spec(self) -> Seq<char> {
        match self {
            Card::Alice => "If discarded you are out."@,
            Card::RedQueen => "Must be discarded if you have (6) or (7) in your hand."@,
            Card::Time => "Trade hands with another player."@,
            Card::Executioner => "Draw 2 cards, pick one and place 2 cards on the bottom of the deck."@,
            Card::KnaveOfHearts => "Discard a player's hand (including your own) and make them draw a new card."@,
            Card::Nobody => "Protection until your next turn."@,
            Card::Tweedies => "Compare hands with another player. Lowest hand is out."@,
            Card::Wilkins => "Look at another player's hand."@,
            Card::Guard => "Guess a player's hand and if correct, player is out."@,
            Card::Dormouse => "Gain one token if no one else discarded a dormouse by the end of the round."@,
        }
    }

    /// A one-line description of the card's effect.
    pub fn description(&self) -> (r: String)
        ensures
            r@ == self.description_spec(),
    {
        match self {
            Card::Alice => "If discarded you are out.".to_owned(),
            Card::RedQueen => "Must be discarded if you have (6) or (7) in your hand.".to_owned(),
            Card::Time => "Trade hands with another player.".to_owned(),
            Card::Executioner => "Draw 2 cards, pick one and place 2 cards on the bottom of the deck.".to_owned(),
            Card::KnaveOfHearts => "Discard a player's hand (including your own) and make them draw a new card.".to_owned(),
            Card::Nobody => "Protection until your next turn.".to_owned(),
            Card::Tweedies => "Compare hands with another player. Lowest hand is out.".to_owned(),
            Card::Wilkins => "Look at another player's hand.".to_owned(),
            Card::Guard => "Guess a player's hand and if correct, player is out.".to_owned(),
            Card::Dormouse => "Gain one token if no one else discarded a dormouse by the end of the round.".to_owned(),
        }
    }

    /// Whether playing this card requires choosing a target, as an executable value.
    pub fn targetting(&self) -> (r: bool)
        ensures
            r == self.requires_target(),
    {
        match self {
            Card::Time => true,
            Card::KnaveOfHearts => true,
            Card::Tweedies => true,
            Card::Wilkins => true,
            Card::Guard => true,
            _ => false,
        }
    }

    /// Whether this card permits self-targeting, as an executable value.
    pub fn can_target_self(&self) -> (r: bool)
        ensures
            r == self.allows_self_target(),
    {
        match self {
            Card::KnaveOfHearts => true,
            _ => false,
        }
    }

    /// Whether this card grants protection, as an executable value.
    pub fn protects(&self) -> (r: bool)
        ensures
            r == self.grants_protection(),
    {
        match self {
            Card::Nobody => true,
            _ => false,
        }
    }
}

/// The ten kinds in catalog order, descending by rank.
pub open spec fn catalog() -> Seq<Card> {
    seq![
        Card::Alice,
        Card::RedQueen,
        Card::Time,
        Card::Executioner,
        Card::KnaveOfHearts,
        Card::Nobody,
        Card::Tweedies,
        Card::Wilkins,
        Card::Guard,
        Card::Dormouse,
    ]
}

/// The standard deck: for each kind in catalog order, `deck_count` copies.
pub open spec fn standard_deck() -> Seq<Card> {
    seq![
        Card::Alice,
        Card::RedQueen,
        Card::Time,
        Card::Executioner,
        Card::Executioner,
        Card::KnaveOfHearts,
        Card::KnaveOfHearts,
        Card::Nobody,
        Card::Nobody,
        Card::Tweedies,
        Card::Tweedies,
        Card::Wilkins,
        Card::Wilkins,
        Card::Guard,
        Card::Guard,
        Card::Guard,
        Card::Guard,
        Card::Guard,
        Card::Guard,
        Card::Dormouse,
        Card::Dormouse,
    ]
}

/// How many times `card` occurs in `s`.
pub open spec fn count_in(s: Seq<Card>, card: Card) -> int
    decreases s.len(),
{
    if s.len() == 0 {
        0
    } else {
        count_in(s.drop_last(), card) + if s.last() == card {
            1int
        } else {
            0int
        }
    }
}

/// The standard deck holds each kind exactly `deck_count` times.
pub proof fn lemma_standard_deck_composition(card: Card)
    ensures
        count_in(standard_deck(), card) == card.deck_count(),
{
    reveal_with_fuel(count_in, 25);
}

/// The deck total equals the sum of the catalog's per-kind counts.
pub proof fn lemma_deck_size_is_count_sum()
    ensures
        DECK_SIZE == Card::Alice.deck_count() + Card::RedQueen.deck_count()
            + Card::Time.deck_count() + Card::Executioner.deck_count()
            + Card::KnaveOfHearts.deck_count() + Card::Nobody.deck_count()
            + Card::Tweedies.deck_count() + Card::Wilkins.deck_count()
            + Card::Guard.deck_count() + Card::Dormouse.deck_count(),
        standard_deck().len() == DECK_SIZE,
{
}

/// The ten card kinds, in catalog order.
pub fn list_cards() -> (r: Vec<Card>)
    ensures
        r@ == catalog(),
{
    let mut cards: Vec<Card> = Vec::new();
    cards.push(Card::Alice);
    cards.push(Card::RedQueen);
    cards.push(Card::Time);
    cards.push(Card::Executioner);
    cards.push(Card::KnaveOfHearts);
    cards.push(Card::Nobody);
    cards.push(Card::Tweedies);
    cards.push(Card::Wilkins);
    cards.push(Card::Guard);
    cards.push(Card::Dormouse);
    proof {
        assert(cards@ =~= catalog());
    }
    cards
}

/// Appends `n` copies of `card` to `deck`.
fn push_copies(deck: &mut Vec<Card>, card: Card, n: usize)
    ensures
        final(deck)@ == old(deck)@ + Seq::new(n as nat, |i: int| card),
{
    let mut k: usize = 0;
    while k < n
        invariant
            k <= n,
            deck@ == old(deck)@ + Seq::new(k as nat, |i: int| card),
        decreases n - k,
    {
        deck.push(card);
        proof {
            assert(deck@ =~= old(deck)@ + Seq::new((k + 1) as nat, |i: int| card));
        }
        k = k + 1;
    }
    proof {
        assert(deck@ =~= old(deck)@ + Seq::new(n as nat, |i: int| card));
    }
}

/// Builds a fresh, unshuffled standard deck.
pub fn create_deck() -> (r: Vec<Card>)
    ensures
        r@ == standard_deck(),
        r@.len() == DECK_SIZE,
{
    let mut deck: Vec<Card> = Vec::new();
    push_copies(&mut deck, Card::Alice, Card::Alice.count());
    push_copies(&mut deck, Card::RedQueen, Card::RedQueen.count());
    push_copies(&mut deck, Card::Time, Card::Time.count());
    push_copies(&mut deck, Card::Executioner, Card::Executioner.count());
    push_copies(&mut deck, Card::KnaveOfHearts, Card::KnaveOfHearts.count());
    push_copies(&mut deck, Card::Nobody, Card::Nobody.count());
    push_copies(&mut deck, Card::Tweedies, Card::Tweedies.count());
    push_copies(&mut deck, Card::Wilkins, Card::Wilkins.count());
    push_copies(&mut deck, Card::Guard, Card::Guard.count());
    push_copies(&mut deck, Card::Dormouse, Card::Dormouse.count());
    proof {
        assert(deck@ =~= standard_deck());
    }
    deck
}

} // verus!
