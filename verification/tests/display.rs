use blackjack::card::{Card, Rank, Suit};
use blackjack::display::{render_card, render_cards_horizontal, render_hidden_card};

#[test]
fn test_render_card() {
    let card = Card {
        suit: Suit::Hearts,
        rank: Rank::Ace,
    };
    let rendered = render_card(&card);
    assert_eq!(rendered[0], "╔═══╗");
    assert_eq!(rendered[1], "║A♥ ║");
    assert_eq!(rendered[2], "╚═══╝");
}

#[test]
fn test_render_card_ten() {
    let card = Card {
        suit: Suit::Spades,
        rank: Rank::Ten,
    };
    let rendered = render_card(&card);
    assert_eq!(rendered[1], "║10♠║");
}

#[test]
fn test_render_hidden_card() {
    let rendered = render_hidden_card();
    assert_eq!(rendered[0], "╔═══╗");
    assert_eq!(rendered[1], "║░░░║");
    assert_eq!(rendered[2], "╚═══╝");
}

#[test]
fn test_render_cards_horizontal() {
    let card1 = render_card(&Card {
        suit: Suit::Hearts,
        rank: Rank::Ace,
    });
    let card2 = render_card(&Card {
        suit: Suit::Spades,
        rank: Rank::King,
    });

    let result = render_cards_horizontal(&[card1, card2]);
    let lines: Vec<&str> = result.lines().collect();

    assert_eq!(lines[0], "╔═══╗ ╔═══╗");
    assert_eq!(lines[1], "║A♥ ║ ║K♠ ║");
    assert_eq!(lines[2], "╚═══╝ ╚═══╝");
}

#[test]
fn rendered_boxes_have_three_rows() {
    assert_eq!(render_hidden_card().len(), 3);
    assert_eq!(render_card(&Card { suit: Suit::Clubs, rank: Rank::Ten }).len(), 3);
}

#[test]
fn no_boxes_render_as_nothing() {
    assert_eq!(render_cards_horizontal(&[]), "");
}

#[test]
fn one_box_renders_as_its_rows() {
    let text = render_cards_horizontal(&[render_hidden_card()]);
    assert_eq!(text, "╔═══╗\n║░░░║\n╚═══╝");
}

#[test]
fn rows_are_joined_without_a_line_feed_at_the_end() {
    let boxes = [
        render_hidden_card(),
        render_card(&Card { suit: Suit::Diamonds, rank: Rank::Ten }),
        render_card(&Card { suit: Suit::Clubs, rank: Rank::Two }),
    ];
    let text = render_cards_horizontal(&boxes);
    assert_eq!(text, "╔═══╗ ╔═══╗ ╔═══╗\n║░░░║ ║10♦║ ║2♣ ║\n╚═══╝ ╚═══╝ ╚═══╝");
}

#[test]
fn the_first_box_gives_the_number_of_rows() {
    let short = vec!["ab".to_string()];
    let tall = vec!["cd".to_string(), "ef".to_string()];
    assert_eq!(render_cards_horizontal(&[short, tall]), "ab cd");
    let empty: Vec<String> = Vec::new();
    assert_eq!(render_cards_horizontal(&[empty, vec!["x".to_string()]]), "");
}
