use truco::card::Card;
use truco::card::CardWithSuit;
use truco::card::Suit;
use truco::card::rank_strength_of;
use truco::card::suit_strength_of;
use truco::card::rank_label;
use truco::card::suit_glyph;

#[test]
fn manilha_is_next_stronger_rank() {
    // Turned card Four: Five is the manilha rank, nothing else is.
    let turned = CardWithSuit(Card::Four, Suit::Hearts);
    assert!(CardWithSuit(Card::Five, Suit::Clubs).is_manilha(&turned));
    assert!(CardWithSuit(Card::Five, Suit::Diamonds).is_manilha(&turned));
    assert!(!CardWithSuit(Card::Four, Suit::Clubs).is_manilha(&turned));
    assert!(!CardWithSuit(Card::Six, Suit::Clubs).is_manilha(&turned));
    assert!(!CardWithSuit(Card::Ace, Suit::Diamonds).is_manilha(&turned));
}

#[test]
fn manilha_wraps_from_three_to_four() {
    // Turned card Three (the strongest rank): the manilha rank wraps to Four.
    let turned = CardWithSuit(Card::Three, Suit::Spades);
    assert!(CardWithSuit(Card::Four, Suit::Hearts).is_manilha(&turned));
    assert!(!CardWithSuit(Card::Two, Suit::Hearts).is_manilha(&turned));
    assert!(!CardWithSuit(Card::Three, Suit::Hearts).is_manilha(&turned));
}

#[test]
fn manilha_beats_any_non_manilha() {
    // Turned card Four makes Fives manilhas: a Five of Hearts beats an Ace
    // of Diamonds although Ace outranks Five in the base ordering.
    let turned = CardWithSuit(Card::Four, Suit::Hearts);
    let manilha = CardWithSuit(Card::Five, Suit::Hearts);
    let ace = CardWithSuit(Card::Ace, Suit::Diamonds);
    assert!(ace.stronger_than(&manilha));
    assert!(manilha.beats(&ace, &turned));
    assert!(!ace.beats(&manilha, &turned));
}

#[test]
fn suit_strength_decides_between_manilhas() {
    // Five of Diamonds beats Five of Clubs when both are manilhas.
    let turned = CardWithSuit(Card::Four, Suit::Hearts);
    let diamonds = CardWithSuit(Card::Five, Suit::Diamonds);
    let clubs = CardWithSuit(Card::Five, Suit::Clubs);
    assert!(diamonds.beats(&clubs, &turned));
    assert!(!clubs.beats(&diamonds, &turned));
}

#[test]
fn base_ordering_rank_then_suit() {
    let three_hearts = CardWithSuit(Card::Three, Suit::Hearts);
    let two_diamonds = CardWithSuit(Card::Two, Suit::Diamonds);
    assert!(three_hearts.stronger_than(&two_diamonds));
    assert!(!two_diamonds.stronger_than(&three_hearts));
    // On a rank tie, suit strength breaks it: Diamonds > Spades > Clubs > Hearts.
    let queen_clubs = CardWithSuit(Card::Queen, Suit::Clubs);
    let queen_hearts = CardWithSuit(Card::Queen, Suit::Hearts);
    assert!(queen_clubs.stronger_than(&queen_hearts));
    assert!(!queen_hearts.stronger_than(&queen_clubs));
    // No card is stronger than itself.
    assert!(!queen_clubs.stronger_than(&queen_clubs));
}

#[test]
fn base_ordering_decides_between_non_manilhas() {
    let turned = CardWithSuit(Card::Four, Suit::Hearts);
    let three_clubs = CardWithSuit(Card::Three, Suit::Clubs);
    let seven_spades = CardWithSuit(Card::Seven, Suit::Spades);
    assert!(three_clubs.beats(&seven_spades, &turned));
    assert!(!seven_spades.beats(&three_clubs, &turned));
}

#[test]
fn strength_values_cover_the_orderings() {
    assert_eq!(rank_strength_of(Card::Three), 9);
    assert_eq!(rank_strength_of(Card::Two), 8);
    assert_eq!(rank_strength_of(Card::Ace), 7);
    assert_eq!(rank_strength_of(Card::Knight), 6);
    assert_eq!(rank_strength_of(Card::Joker), 5);
    assert_eq!(rank_strength_of(Card::Queen), 4);
    assert_eq!(rank_strength_of(Card::Seven), 3);
    assert_eq!(rank_strength_of(Card::Six), 2);
    assert_eq!(rank_strength_of(Card::Five), 1);
    assert_eq!(rank_strength_of(Card::Four), 0);
    assert_eq!(suit_strength_of(Suit::Diamonds), 3);
    assert_eq!(suit_strength_of(Suit::Spades), 2);
    assert_eq!(suit_strength_of(Suit::Clubs), 1);
    assert_eq!(suit_strength_of(Suit::Hearts), 0);
}

#[test]
fn card_labels() {
    assert_eq!(rank_label(Card::Three), "3");
    assert_eq!(rank_label(Card::Knight), "K");
    assert_eq!(rank_label(Card::Joker), "J");
    assert_eq!(rank_label(Card::Queen), "Q");
    assert_eq!(rank_label(Card::Ace), "A");
    assert_eq!(suit_glyph(Suit::Clubs), "♣");
    assert_eq!(suit_glyph(Suit::Hearts), "♥");
    assert_eq!(suit_glyph(Suit::Spades), "♠");
    assert_eq!(suit_glyph(Suit::Diamonds), "♦");
    assert_eq!(CardWithSuit(Card::Three, Suit::Diamonds).label(), "3♦");
    assert_eq!(CardWithSuit(Card::Seven, Suit::Hearts).label(), "7♥");
}
