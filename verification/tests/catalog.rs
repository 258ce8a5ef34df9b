use love_letter::card::Card;
use love_letter::card::DECK_SIZE;
use love_letter::card::create_deck;
use love_letter::card::list_cards;

fn all_kinds() -> Vec<Card> {
    vec![
        Card::Alice,
        Card::RedQueen,
        Card::Time,
        Card::Executioner,
        Card::KnaveOfHearts,
        Card::Nobody,
        Card::Tweedies,
        Card::Wilkins,
        Card::Guard,
        Card::Dormouse,
    ]
}

#[test]
fn test_card_values() {
    assert_eq!(Card::Alice.value(), 9);
    assert_eq!(Card::RedQueen.value(), 8);
    assert_eq!(Card::Time.value(), 7);
    assert_eq!(Card::Executioner.value(), 6);
    assert_eq!(Card::KnaveOfHearts.value(), 5);
    assert_eq!(Card::Nobody.value(), 4);
    assert_eq!(Card::Tweedies.value(), 3);
    assert_eq!(Card::Wilkins.value(), 2);
    assert_eq!(Card::Guard.value(), 1);
    assert_eq!(Card::Dormouse.value(), 0);
}

#[test]
fn test_card_counts() {
    assert_eq!(Card::Alice.count(), 1);
    assert_eq!(Card::RedQueen.count(), 1);
    assert_eq!(Card::Time.count(), 1);
    assert_eq!(Card::Executioner.count(), 2);
    assert_eq!(Card::KnaveOfHearts.count(), 2);
    assert_eq!(Card::Nobody.count(), 2);
    assert_eq!(Card::Tweedies.count(), 2);
    assert_eq!(Card::Wilkins.count(), 2);
    assert_eq!(Card::Guard.count(), 6);
    assert_eq!(Card::Dormouse.count(), 2);
    let total: usize = all_kinds().iter().map(|c| c.count()).sum();
    assert_eq!(total, DECK_SIZE);
}

#[test]
fn test_card_names() {
    assert_eq!(Card::Alice.name(), "Alice");
    assert_eq!(Card::RedQueen.name(), "The Red Queen");
    assert_eq!(Card::Time.name(), "Time");
    assert_eq!(Card::Executioner.name(), "Executioner");
    assert_eq!(Card::KnaveOfHearts.name(), "Knave of Hearts");
    assert_eq!(Card::Nobody.name(), "Nobody");
    assert_eq!(Card::Tweedies.name(), "The Tweedies");
    assert_eq!(Card::Wilkins.name(), "Wilkins");
    assert_eq!(Card::Guard.name(), "Guard");
    assert_eq!(Card::Dormouse.name(), "The Dormouse");
    assert!(Card::Guard.description().contains("Guess"));
}

#[test]
fn test_card_targeting() {
    for card in all_kinds() {
        let expect_target = matches!(
            card,
            Card::Time | Card::KnaveOfHearts | Card::Tweedies | Card::Wilkins | Card::Guard
        );
        assert_eq!(card.targetting(), expect_target);
        assert_eq!(card.can_target_self(), card == Card::KnaveOfHearts);
        assert_eq!(card.protects(), card == Card::Nobody);
    }
}

#[test]
fn test_list_cards_order() {
    assert_eq!(list_cards(), all_kinds());
}

#[test]
fn test_create_deck_composition() {
    let deck = create_deck();
    assert_eq!(deck.len(), DECK_SIZE);
    for card in all_kinds() {
        let copies = deck.iter().filter(|c| **c == card).count();
        assert_eq!(copies, card.count());
    }
}
