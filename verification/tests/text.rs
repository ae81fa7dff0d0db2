use blackjack::game::{parse_action, Action};
use blackjack::text::{decimal_text, digit_value, is_whitespace, parse_amount, reads_as_word, trimmed_range};

#[test]
fn an_amount_is_a_run_of_digits() {
    assert_eq!(parse_amount("0"), Some(0));
    assert_eq!(parse_amount("7"), Some(7));
    assert_eq!(parse_amount("100"), Some(100));
    assert_eq!(parse_amount("000123"), Some(123));
    assert_eq!(parse_amount("4294967295"), Some(u32::MAX));
}

#[test]
fn an_amount_may_have_space_around_it_and_a_plus_before_it() {
    assert_eq!(parse_amount("42\n"), Some(42));
    assert_eq!(parse_amount("  42  "), Some(42));
    assert_eq!(parse_amount("\t+42\r\n"), Some(42));
    assert_eq!(parse_amount("\u{a0}5\u{3000}"), Some(5));
    assert_eq!(parse_amount("+0"), Some(0));
}

#[test]
fn what_is_no_amount_is_turned_down() {
    assert_eq!(parse_amount(""), None);
    assert_eq!(parse_amount("   "), None);
    assert_eq!(parse_amount("+"), None);
    assert_eq!(parse_amount("-"), None);
    assert_eq!(parse_amount("-5"), None);
    assert_eq!(parse_amount("++5"), None);
    assert_eq!(parse_amount("5+"), None);
    assert_eq!(parse_amount("1 2"), None);
    assert_eq!(parse_amount("12a"), None);
    assert_eq!(parse_amount("a12"), None);
    assert_eq!(parse_amount("1.5"), None);
    assert_eq!(parse_amount("ten"), None);
    assert_eq!(parse_amount("١٢"), None);
    assert_eq!(parse_amount("+ 5"), None);
}

#[test]
fn an_amount_over_the_range_is_turned_down() {
    assert_eq!(parse_amount("4294967296"), None);
    assert_eq!(parse_amount("99999999999999999999999999"), None);
    assert_eq!(parse_amount("4294967296x"), None);
}

#[test]
fn parse_amount_agrees_with_the_standard_parser() {
    let lines = [
        "0", "1", " 17 ", "+3", "-3", "", " ", "abc", "12abc", "4294967295", "4294967296",
        "00000000000000000000001", "1_000", "0x10", "\n9\n", "+", "٣", " +0042\t",
    ];
    for line in lines {
        assert_eq!(parse_amount(line), line.trim().parse::<u32>().ok(), "line {:?}", line);
    }
}

#[test]
fn trimmed_range_counts_characters() {
    assert_eq!(trimmed_range(""), (0, 0));
    assert_eq!(trimmed_range("abc"), (0, 3));
    assert_eq!(trimmed_range("  abc "), (2, 5));
    assert_eq!(trimmed_range(" a b "), (1, 4));
    assert_eq!(trimmed_range("\u{2003}♥♦\n"), (1, 3));
    let (start, end) = trimmed_range("   ");
    assert_eq!(start, end);
}

#[test]
fn white_space_is_what_the_standard_library_calls_so() {
    for code in 0u32..0x3100 {
        if let Some(c) = char::from_u32(code) {
            assert_eq!(is_whitespace(c), c.is_whitespace(), "U+{:04X}", code);
        }
    }
    assert!(!is_whitespace('\u{feff}'));
    assert!(!is_whitespace('\u{200b}'));
}

#[test]
fn digits_have_their_values() {
    for (value, c) in "0123456789".chars().enumerate() {
        assert_eq!(digit_value(c), Some(value as u8));
    }
    assert_eq!(digit_value('a'), None);
    assert_eq!(digit_value('/'), None);
    assert_eq!(digit_value(':'), None);
    assert_eq!(digit_value('٣'), None);
}

#[test]
fn words_are_read_whatever_their_case() {
    assert!(reads_as_word("hit", 0, 3, "hit"));
    assert!(reads_as_word("HiT", 0, 3, "hit"));
    assert!(reads_as_word("xxSTANDyy", 2, 7, "stand"));
    assert!(!reads_as_word("hit", 0, 2, "hit"));
    assert!(!reads_as_word("hat", 0, 3, "hit"));
    assert!(!reads_as_word("hits", 0, 4, "hit"));
    assert!(reads_as_word("", 0, 0, ""));
    // 'H' + 32 is 'h', and '(' + 32 is 'H': only letters change case
    assert!(!reads_as_word("(", 0, 1, "h"));
}

#[test]
fn actions_are_read_from_words_and_letters() {
    assert_eq!(parse_action("h"), Some(Action::Hit));
    assert_eq!(parse_action("hit"), Some(Action::Hit));
    assert_eq!(parse_action("H\n"), Some(Action::Hit));
    assert_eq!(parse_action("  HIT  "), Some(Action::Hit));
    assert_eq!(parse_action("s"), Some(Action::Stand));
    assert_eq!(parse_action("stand"), Some(Action::Stand));
    assert_eq!(parse_action("Stand\r\n"), Some(Action::Stand));
    assert_eq!(parse_action("S"), Some(Action::Stand));
}

#[test]
fn what_is_no_action_is_turned_down() {
    assert_eq!(parse_action(""), None);
    assert_eq!(parse_action("\n"), None);
    assert_eq!(parse_action("hi"), None);
    assert_eq!(parse_action("hitt"), None);
    assert_eq!(parse_action("h it"), None);
    assert_eq!(parse_action("stan"), None);
    assert_eq!(parse_action("stay"), None);
    assert_eq!(parse_action("x"), None);
    assert_eq!(parse_action("1"), None);
    assert_eq!(parse_action("h s"), None);
}

#[test]
fn parse_action_agrees_with_lowercasing() {
    let lines = ["h", "H", "hIt", "STAND", " s ", "ſ", "hİt", "K", "", "stand.", "HITS"];
    for line in lines {
        let lowered = line.trim().to_lowercase();
        let expected = match lowered.as_str() {
            "h" | "hit" => Some(Action::Hit),
            "s" | "stand" => Some(Action::Stand),
            _ => None,
        };
        assert_eq!(parse_action(line), expected, "line {:?}", line);
    }
}

#[test]
fn small_numbers_are_written_in_decimal() {
    assert_eq!(decimal_text(0), "0");
    assert_eq!(decimal_text(9), "9");
    assert_eq!(decimal_text(10), "10");
    assert_eq!(decimal_text(21), "21");
    assert_eq!(decimal_text(99), "99");
    assert_eq!(decimal_text(100), "100");
    assert_eq!(decimal_text(101), "101");
    assert_eq!(decimal_text(255), "255");
    for n in 0..=255u8 {
        assert_eq!(decimal_text(n), n.to_string());
    }
}
