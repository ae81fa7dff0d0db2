//! Cards drawn as small boxes of text, three rows high, and rows of such
//! boxes set side by side.

use vstd::prelude::*;
use crate::card::Card;

verus! {

/// The upper edge of a card's box.
pub open spec fn top_row() -> Seq<char> {
    seq!['╔', '═', '═', '═', '╗']
}

/// The lower edge of a card's box.
pub open spec fn bottom_row() -> Seq<char> {
    seq!['╚', '═', '═', '═', '╝']
}

/// The text with spaces after it to fill `width` characters; the text as
/// it is where it is that long or longer.
pub open spec fn padded(text: Seq<char>, width: nat) -> Seq<char> {
    if text.len() < width {
        text + Seq::new((width - text.len()) as nat, |i: int| ' ')
    } else {
        text
    }
}

/// The middle row of a card's box: its label between the two sides, filled
/// up to three characters.
pub open spec fn label_row(card: Card) -> Seq<char> {
    seq!['║'] + padded(card.spec_label(), 3) + seq!['║']
}

/// The three rows of a card shown face up.
pub open spec fn card_rows(card: Card) -> Seq<Seq<char>> {
    seq![top_row(), label_row(card), bottom_row()]
}

/// The three rows of a card shown face down.
pub open spec fn hidden_rows() -> Seq<Seq<char>> {
    seq![top_row(), seq!['║', '░', '░', '░', '║'], bottom_row()]
}

/// Row `row` of each box, from the first box to the last, with one space
/// between two boxes.
pub open spec fn row_across(boxes: Seq<Seq<Seq<char>>>, row: int) -> Seq<char>
    decreases boxes.len(),
{
    if boxes.len() == 0 {
        Seq::empty()
    } else if boxes.len() == 1 {
        boxes[0][row]
    } else {
        row_across(boxes.drop_last(), row) + seq![' '] + boxes.last()[row]
    }
}

/// The first `height` rows of the boxes set side by side, one row to a
/// line, with a line feed between two lines.
pub open spec fn rows_across(boxes: Seq<Seq<Seq<char>>>, height: int) -> Seq<char>
    decreases height,
{
    if height <= 0 {
        Seq::empty()
    } else if height == 1 {
        row_across(boxes, 0)
    } else {
        rows_across(boxes, height - 1) + seq!['\n'] + row_across(boxes, height - 1)
    }
}

/// The boxes set side by side, as many rows high as the first box is.
/// Nothing where there is no box.
pub open spec fn side_by_side(boxes: Seq<Seq<Seq<char>>>) -> Seq<char> {
    if boxes.len() == 0 {
        Seq::empty()
    } else {
        rows_across(boxes, boxes[0].len() as int)
    }
}

/// Draws a card face up: a box of three rows with the card's label in it.
pub fn render_card(card: &Card) -> (rows: Vec<String>)
    ensures
        rows.deep_view() == card_rows(*card),
{
    let content = card.label();
    let mut middle = String::from_str("║");
    middle.append(content.as_str());
    if content.as_str().unicode_len() < 3 {
        middle.append(" ");
    }
    middle.append("║");
    let mut rows: Vec<String> = Vec::new();
    rows.push(String::from_str("╔═══╗"));
    rows.push(middle);
    rows.push(String::from_str("╚═══╝"));
    proof {
        reveal_strlit("║");
        reveal_strlit(" ");
        reveal_strlit("╔═══╗");
        reveal_strlit("╚═══╝");
        assert(rows@[0]@ =~= top_row());
        assert(rows@[1]@ =~= label_row(*card));
        assert(rows@[2]@ =~= bottom_row());
        assert(rows.deep_view() =~= card_rows(*card));
    }
    rows
}

/// Draws a card face down: a box of three rows that shows no label.
pub fn render_hidden_card() -> (rows: Vec<String>)
    ensures
        rows.deep_view() == hidden_rows(),
{
    let mut rows: Vec<String> = Vec::new();
    rows.push(String::from_str("╔═══╗"));
    rows.push(String::from_str("║░░░║"));
    rows.push(String::from_str("╚═══╝"));
    proof {
        reveal_strlit("╔═══╗");
        reveal_strlit("║░░░║");
        reveal_strlit("╚═══╝");
        assert(rows@[0]@ =~= top_row());
        assert(rows@[1]@ =~= seq!['║', '░', '░', '░', '║']);
        assert(rows@[2]@ =~= bottom_row());
        assert(rows.deep_view() =~= hidden_rows());
    }
    rows
}

/// Sets boxes side by side: row by row, the boxes' rows with a space
/// between them, and a line feed between two rows. The first box gives the
/// number of rows; every box has to have that many.
pub fn render_cards_horizontal(cards: &[Vec<String>]) -> (text: String)
    requires
        forall|i: int| 0 <= i < cards@.len() ==> cards@[0]@.len() <= (#[trigger] cards@[i])@.len(),
    ensures
        text@ == side_by_side(cards.deep_view()),
{
    let mut text = String::new();
    if cards.len() == 0 {
        return text;
    }
    let ghost boxes = cards.deep_view();
    let height = cards[0].len();
    proof {
        reveal_strlit(" ");
        reveal_strlit("\n");
        assert(boxes.len() == cards@.len());
        assert(boxes[0].len() == height);
    }
    let mut row: usize = 0;
    while row < height
        invariant
            row <= height,
            cards@.len() > 0,
            boxes == cards.deep_view(),
            height == cards@[0]@.len(),
            forall|i: int| 0 <= i < cards@.len() ==> height <= (#[trigger] cards@[i])@.len(),
            text@ == rows_across(boxes, row as int),
            " "@ == seq![' '],
            "\n"@ == seq!['\n'],
        decreases height - row,
    {
        if row > 0 {
            text.append("\n");
        }
        let ghost before = text@;
        let mut i: usize = 0;
        while i < cards.len()
            invariant
                i <= cards@.len(),
                row < height,
                boxes == cards.deep_view(),
                forall|i: int| 0 <= i < cards@.len() ==> height <= (#[trigger] cards@[i])@.len(),
                text@ == before + row_across(boxes.take(i as int), row as int),
                " "@ == seq![' '],
            decreases cards@.len() - i,
        {
            if i > 0 {
                text.append(" ");
            }
            let card = &cards[i];
            text.append(card[row].as_str());
            proof {
                let ghost wider = boxes.take(i + 1);
                assert(wider.drop_last() =~= boxes.take(i as int));
                assert(wider.last()[row as int] == cards@[i as int]@[row as int]@);
                assert(text@ =~= before + row_across(wider, row as int));
            }
            i += 1;
        }
        proof {
            assert(boxes.take(i as int) =~= boxes);
            assert(text@ =~= rows_across(boxes, row + 1));
        }
        row += 1;
    }
    text
}

} // verus!
