//! Reading and writing the few pieces of text the game needs: a bet typed
//! as a decimal number, an action typed as a word, a total written out.

use vstd::prelude::*;

verus! {

/// White space as Unicode defines it: what is trimmed from both ends of a
/// line before it is read.
pub open spec fn is_space(c: char) -> bool {
    ||| c == ' '
    ||| '\t' <= c <= '\r'
    ||| c == '\u{85}'
    ||| c == '\u{a0}'
    ||| c == '\u{1680}'
    ||| '\u{2000}' <= c <= '\u{200a}'
    ||| c == '\u{2028}'
    ||| c == '\u{2029}'
    ||| c == '\u{202f}'
    ||| c == '\u{205f}'
    ||| c == '\u{3000}'
}

/// The text without the white space it starts with.
pub open spec fn trim_start(text: Seq<char>) -> Seq<char>
    decreases text.len(),
{
    if text.len() > 0 && is_space(text.first()) {
        trim_start(text.drop_first())
    } else {
        text
    }
}

/// The text without the white space it ends with.
pub open spec fn trim_end(text: Seq<char>) -> Seq<char>
    decreases text.len(),
{
    if text.len() > 0 && is_space(text.last()) {
        trim_end(text.drop_last())
    } else {
        text
    }
}

/// The text without the white space at either end.
pub open spec fn trim(text: Seq<char>) -> Seq<char> {
    trim_end(trim_start(text))
}

/// The value of a decimal digit, and `None` for any other character.
pub open spec fn digit_of(c: char) -> Option<nat> {
    match c {
        '0' => Some(0nat),
        '1' => Some(1nat),
        '2' => Some(2nat),
        '3' => Some(3nat),
        '4' => Some(4nat),
        '5' => Some(5nat),
        '6' => Some(6nat),
        '7' => Some(7nat),
        '8' => Some(8nat),
        '9' => Some(9nat),
        _ => None,
    }
}

/// Whether the text is made of decimal digits alone.
pub open spec fn all_digits(text: Seq<char>) -> bool {
    forall|i: int| 0 <= i < text.len() ==> (#[trigger] digit_of(text[i])) is Some
}

/// The number that a run of decimal digits stands for.
pub open spec fn number_of(digits: Seq<char>) -> nat
    decreases digits.len(),
{
    if digits.len() == 0 {
        0
    } else {
        match digit_of(digits.last()) {
            Some(d) => number_of(digits.drop_last()) * 10 + d,
            None => 0,
        }
    }
}

/// An unsigned decimal number as text: digits, at least one, with `+` in
/// front of them or not. Anything else is no number.
pub open spec fn unsigned_of(text: Seq<char>) -> Option<nat> {
    let digits = if text.len() > 0 && text.first() == '+' {
        text.drop_first()
    } else {
        text
    };
    if digits.len() > 0 && all_digits(digits) {
        Some(number_of(digits))
    } else {
        None
    }
}

/// The amount that a line of input names: the number written on it, white
/// space at both ends aside, if it is one that fits in a `u32`.
pub open spec fn amount_of(line: Seq<char>) -> Option<u32> {
    match unsigned_of(trim(line)) {
        Some(n) => if n <= u32::MAX {
            Some(n as u32)
        } else {
            None
        },
        None => None,
    }
}

/// A run of digits stands for at least as much as any run it starts with.
pub proof fn lemma_number_prefix(digits: Seq<char>, n: int)
    requires
        0 <= n <= digits.len(),
        all_digits(digits),
    ensures
        number_of(digits.take(n)) <= number_of(digits),
    decreases digits.len(),
{
    if n == digits.len() {
        assert(digits.take(n) =~= digits);
    } else {
        let front = digits.drop_last();
        assert(all_digits(front)) by {
            assert forall|i: int| 0 <= i < front.len() implies (#[trigger] digit_of(
                front[i],
            )) is Some by {
                assert(front[i] == digits[i]);
            }
        }
        lemma_number_prefix(front, n);
        assert(front.take(n) =~= digits.take(n));
        assert(digit_of(digits.last()) is Some);
    }
}

/// Whether `c` is white space.
pub fn is_whitespace(c: char) -> (space: bool)
    ensures
        space == is_space(c),
{
    c == ' ' || ('\t' <= c && c <= '\r') || c == '\u{85}' || c == '\u{a0}' || c == '\u{1680}' || (
    '\u{2000}' <= c && c <= '\u{200a}') || c == '\u{2028}' || c == '\u{2029}' || c == '\u{202f}'
        || c == '\u{205f}' || c == '\u{3000}'
}

/// The value of `c` as a decimal digit, if it is one.
pub fn digit_value(c: char) -> (digit: Option<u8>)
    ensures
        match digit {
            Some(d) => digit_of(c) == Some(d as nat),
            None => digit_of(c) is None,
        },
{
    match c {
        '0' => Some(0),
        '1' => Some(1),
        '2' => Some(2),
        '3' => Some(3),
        '4' => Some(4),
        '5' => Some(5),
        '6' => Some(6),
        '7' => Some(7),
        '8' => Some(8),
        '9' => Some(9),
        _ => None,
    }
}

/// Where the text of a line begins and ends once the white space at both
/// ends is left out: the places `start` and `end`, counted in characters.
pub fn trimmed_range(line: &str) -> (range: (usize, usize))
    ensures
        range.0 <= range.1 <= line@.len(),
        line@.subrange(range.0 as int, range.1 as int) == trim(line@),
{
    let len = line.unicode_len();
    let mut start: usize = 0;
    assert(line@.skip(0) =~= line@);
    while start < len && is_whitespace(line.get_char(start))
        invariant
            len == line@.len(),
            start <= len,
            trim_start(line@) == trim_start(line@.skip(start as int)),
        decreases len - start,
    {
        assert(line@.skip(start as int).drop_first() =~= line@.skip(start + 1));
        start += 1;
    }
    assert(trim_start(line@) == line@.skip(start as int));
    assert(line@.skip(start as int) =~= line@.subrange(start as int, len as int));
    let mut end: usize = len;
    while end > start && is_whitespace(line.get_char(end - 1))
        invariant
            len == line@.len(),
            start <= end <= len,
            trim(line@) == trim_end(line@.subrange(start as int, end as int)),
        decreases end,
    {
        assert(line@.subrange(start as int, end as int).drop_last() =~= line@.subrange(
            start as int,
            end - 1,
        ));
        end -= 1;
    }
    (start, end)
}

/// Reads a line of input as an amount of chips: an unsigned decimal number
/// that fits in a `u32`, with white space around it or not. `None` where
/// the line holds anything else.
pub fn parse_amount(line: &str) -> (amount: Option<u32>)
    ensures
        amount == amount_of(line@),
{
    let (start, end) = trimmed_range(line);
    let ghost text = trim(line@);
    let mut i: usize = start;
    if i < end && line.get_char(i) == '+' {
        i += 1;
    }
    let first: usize = i;
    let ghost digits = line@.subrange(first as int, end as int);
    proof {
        if first > start {
            assert(text.drop_first() =~= digits);
        } else {
            assert(text =~= digits);
        }
    }
    assert(unsigned_of(text) == if digits.len() > 0 && all_digits(digits) {
        Some(number_of(digits))
    } else {
        None
    });
    if i == end {
        return None;
    }
    let mut total: u64 = 0;
    assert(digits.take(0) =~= Seq::<char>::empty());
    while i < end
        invariant
            first <= i <= end <= line@.len(),
            digits == line@.subrange(first as int, end as int),
            unsigned_of(trim(line@)) == if digits.len() > 0 && all_digits(digits) {
                Some(number_of(digits))
            } else {
                None
            },
            all_digits(digits.take(i - first)),
            total == number_of(digits.take(i - first)),
            total <= u32::MAX,
        decreases end - i,
    {
        let c = line.get_char(i);
        let ghost seen = digits.take(i - first);
        let ghost next = digits.take(i - first + 1);
        proof {
            assert(digits[i - first] == c);
            assert(next.drop_last() =~= seen);
            assert(next.last() == c);
        }
        match digit_value(c) {
            None => {
                assert(digit_of(digits[i - first]) is None);
                return None;
            },
            Some(d) => {
                proof {
                    assert forall|k: int| 0 <= k < next.len() implies (#[trigger] digit_of(
                        next[k],
                    )) is Some by {
                        if k < seen.len() {
                            assert(next[k] == seen[k]);
                        }
                    }
                }
                total = total * 10 + d as u64;
                assert(total == number_of(next));
                if total > u32::MAX as u64 {
                    proof {
                        if all_digits(digits) {
                            lemma_number_prefix(digits, i - first + 1);
                        }
                    }
                    return None;
                }
            },
        }
        i += 1;
    }
    assert(digits.take(i - first) =~= digits);
    Some(total as u32)
}

/// Whether `c` is the lower-case letter `letter`, in either case.
pub open spec fn same_letter(c: char, letter: char) -> bool {
    c == letter || ('A' <= c <= 'Z' && c as int + 32 == letter as int)
}

/// Whether the text is the word, letter for letter, whatever the case of
/// the text's letters. The word is given in lower case.
pub open spec fn reads_as(text: Seq<char>, word: Seq<char>) -> bool {
    text.len() == word.len() && forall|i: int|
        0 <= i < text.len() ==> same_letter(#[trigger] text[i], word[i])
}

/// Whether the characters of `line` from `start` up to `end` are the word
/// `word`, whatever the case of their letters.
pub fn reads_as_word(line: &str, start: usize, end: usize, word: &str) -> (same: bool)
    requires
        start <= end <= line@.len(),
    ensures
        same == reads_as(line@.subrange(start as int, end as int), word@),
{
    let ghost text = line@.subrange(start as int, end as int);
    let len = word.unicode_len();
    if end - start != len {
        return false;
    }
    let mut i: usize = 0;
    while i < len
        invariant
            len == word@.len(),
            start + len == end,
            end <= line@.len(),
            i <= len,
            text == line@.subrange(start as int, end as int),
            forall|k: int| 0 <= k < i ==> same_letter(#[trigger] text[k], word@[k]),
        decreases len - i,
    {
        let c = line.get_char(start + i);
        let letter = word.get_char(i);
        assert(text[i as int] == c);
        let same = c == letter || ('A' <= c && c <= 'Z' && c as u32 + 32 == letter as u32);
        if !same {
            assert(!same_letter(text[i as int], word@[i as int]));
            return false;
        }
        i += 1;
    }
    true
}

/// The character that a digit is written with.
pub open spec fn digit_char(d: nat) -> char {
    if d == 0 {
        '0'
    } else if d == 1 {
        '1'
    } else if d == 2 {
        '2'
    } else if d == 3 {
        '3'
    } else if d == 4 {
        '4'
    } else if d == 5 {
        '5'
    } else if d == 6 {
        '6'
    } else if d == 7 {
        '7'
    } else if d == 8 {
        '8'
    } else {
        '9'
    }
}

/// A number written out in decimal digits, without leading zeros.
pub open spec fn decimal(n: nat) -> Seq<char>
    decreases n,
{
    if n < 10 {
        seq![digit_char(n)]
    } else {
        decimal(n / 10).push(digit_char(n % 10))
    }
}

fn digit_text(d: u8) -> (text: &'static str)
    requires
        d < 10,
    ensures
        text@ == seq![digit_char(d as nat)],
{
    proof {
        reveal_strlit("0");
        reveal_strlit("1");
        reveal_strlit("2");
        reveal_strlit("3");
        reveal_strlit("4");
        reveal_strlit("5");
        reveal_strlit("6");
        reveal_strlit("7");
        reveal_strlit("8");
        reveal_strlit("9");
    }
    let text = match d {
        0 => "0",
        1 => "1",
        2 => "2",
        3 => "3",
        4 => "4",
        5 => "5",
        6 => "6",
        7 => "7",
        8 => "8",
        _ => "9",
    };
    assert(text@ =~= seq![digit_char(d as nat)]);
    text
}

/// Writes a small number out in decimal.
pub fn decimal_text(n: u8) -> (text: String)
    ensures
        text@ == decimal(n as nat),
{
    let mut text = String::new();
    if n >= 100 {
        text.append(digit_text(n / 100));
    }
    if n >= 10 {
        text.append(digit_text((n / 10) % 10));
    }
    text.append(digit_text(n % 10));
    proof {
        reveal_with_fuel(decimal, 3);
        assert(text@ =~= decimal(n as nat));
    }
    text
}

} // verus!
