use blackjack::card::{Card, Rank, Suit};

#[test]
fn test_card_value() {
    assert_eq!(Card { suit: Suit::Hearts, rank: Rank::Ace }.value(), 11);
    assert_eq!(Card { suit: Suit::Diamonds, rank: Rank::Two }.value(), 2);
    assert_eq!(Card { suit: Suit::Clubs, rank: Rank::Three }.value(), 3);
    assert_eq!(Card { suit: Suit::Spades, rank: Rank::Four }.value(), 4);
    assert_eq!(Card { suit: Suit::Hearts, rank: Rank::Five }.value(), 5);
    assert_eq!(Card { suit: Suit::Diamonds, rank: Rank::Six }.value(), 6);
    assert_eq!(Card { suit: Suit::Clubs, rank: Rank::Seven }.value(), 7);
    assert_eq!(Card { suit: Suit::Spades, rank: Rank::Eight }.value(), 8);
    assert_eq!(Card { suit: Suit::Hearts, rank: Rank::Nine }.value(), 9);
    assert_eq!(Card { suit: Suit::Diamonds, rank: Rank::Ten }.value(), 10);
    assert_eq!(Card { suit: Suit::Clubs, rank: Rank::Jack }.value(), 10);
    assert_eq!(Card { suit: Suit::Spades, rank: Rank::Queen }.value(), 10);
    assert_eq!(Card { suit: Suit::Hearts, rank: Rank::King }.value(), 10);
}

#[test]
fn test_card_display() {
    assert_eq!(Card { suit: Suit::Hearts, rank: Rank::Ace }.label(), "A♥");
    assert_eq!(Card { suit: Suit::Diamonds, rank: Rank::King }.label(), "K♦");
    assert_eq!(Card { suit: Suit::Clubs, rank: Rank::Ten }.label(), "10♣");
    assert_eq!(Card { suit: Suit::Spades, rank: Rank::Two }.label(), "2♠");
}

#[test]
fn test_suit_equality() {
    assert_eq!(Suit::Hearts, Suit::Hearts);
    assert_ne!(Suit::Hearts, Suit::Diamonds);
}

#[test]
fn test_rank_equality() {
    assert_eq!(Rank::Ace, Rank::Ace);
    assert_ne!(Rank::Ace, Rank::King);
}

#[test]
fn every_rank_has_its_label() {
    let ranks = [
        (Rank::Ace, "A"),
        (Rank::Two, "2"),
        (Rank::Three, "3"),
        (Rank::Four, "4"),
        (Rank::Five, "5"),
        (Rank::Six, "6"),
        (Rank::Seven, "7"),
        (Rank::Eight, "8"),
        (Rank::Nine, "9"),
        (Rank::Ten, "10"),
        (Rank::Jack, "J"),
        (Rank::Queen, "Q"),
        (Rank::King, "K"),
    ];
    for (rank, text) in ranks {
        assert_eq!(rank.label(), text);
        assert_eq!(Card { suit: Suit::Spades, rank }.label(), format!("{}♠", text));
    }
}

#[test]
fn every_suit_has_its_glyph() {
    assert_eq!(Suit::Hearts.label(), "♥");
    assert_eq!(Suit::Diamonds.label(), "♦");
    assert_eq!(Suit::Clubs.label(), "♣");
    assert_eq!(Suit::Spades.label(), "♠");
}

#[test]
fn card_value_ignores_the_suit() {
    for suit in [Suit::Hearts, Suit::Diamonds, Suit::Clubs, Suit::Spades] {
        assert_eq!(Card { suit, rank: Rank::Ace }.value(), 11);
        assert_eq!(Card { suit, rank: Rank::Seven }.value(), 7);
        assert_eq!(Card { suit, rank: Rank::Queen }.value(), 10);
    }
}
