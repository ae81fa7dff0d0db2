//! A hand of cards and its value under the soft-ace rule.

use vstd::prelude::*;
use crate::card::{rank_count, Card, Rank};
use crate::text::{decimal, decimal_text};

verus! {

/// Sum of the cards' base points, every ace counted as 11.
pub open spec fn base_total(cards: Seq<Card>) -> nat
    decreases cards.len(),
{
    if cards.len() == 0 {
        0
    } else {
        base_total(cards.drop_last()) + cards.last().points()
    }
}

/// Number of aces among the cards.
pub open spec fn ace_count(cards: Seq<Card>) -> nat {
    rank_count(cards, Rank::Ace)
}

/// The soft-ace reduction: while the total is over 21 and an ace is still
/// counted as 11, count that ace as 1.
pub open spec fn soften(total: nat, aces: nat) -> nat
    decreases aces,
{
    if total > 21 && aces > 0 {
        soften((total - 10) as nat, (aces - 1) as nat)
    } else {
        total
    }
}

/// Best total of the cards: the base total, softened by as many aces as it
/// takes to get to 21 or under, and no more.
pub open spec fn hand_value(cards: Seq<Card>) -> nat {
    soften(base_total(cards), ace_count(cards))
}

/// Adding a card adds its points to the base total, and one to the count
/// of aces where it is an ace.
pub proof fn lemma_totals_push(cards: Seq<Card>, card: Card)
    ensures
        base_total(cards.push(card)) == base_total(cards) + card.points(),
        ace_count(cards.push(card)) == ace_count(cards) + if card.rank == Rank::Ace {
            1nat
        } else {
            0nat
        },
{
    assert(cards.push(card).drop_last() =~= cards);
}

/// Taking the card at `i` out takes its points from the base total, and one
/// from the count of aces where it is an ace.
pub proof fn lemma_totals_remove(cards: Seq<Card>, i: int)
    requires
        0 <= i < cards.len(),
    ensures
        base_total(cards) == base_total(cards.remove(i)) + cards[i].points(),
        ace_count(cards) == ace_count(cards.remove(i)) + if cards[i].rank == Rank::Ace {
            1nat
        } else {
            0nat
        },
    decreases cards.len(),
{
    if i == cards.len() - 1 {
        assert(cards.remove(i) =~= cards.drop_last());
    } else {
        lemma_totals_remove(cards.drop_last(), i);
        assert(cards.remove(i).drop_last() =~= cards.drop_last().remove(i));
        assert(cards.remove(i).last() == cards.last());
    }
}

/// Base total and count of aces depend on which cards there are, not on
/// their order.
pub proof fn lemma_totals_permutation(a: Seq<Card>, b: Seq<Card>)
    requires
        a.to_multiset() == b.to_multiset(),
    ensures
        base_total(a) == base_total(b),
        ace_count(a) == ace_count(b),
    decreases a.len(),
{
    broadcast use vstd::seq_lib::group_to_multiset_ensures;

    if a.len() == 0 {
        assert(b.to_multiset().len() == 0);
        assert(b.len() == 0);
    } else {
        let card = a.last();
        assert(a.drop_last().push(card) =~= a);
        assert(a.to_multiset().count(card) > 0);
        assert(b.contains(card));
        let i = choose|i: int| 0 <= i < b.len() && b[i] == card;
        assert(a.drop_last().to_multiset() =~= a.to_multiset().remove(card));
        assert(b.remove(i).to_multiset() =~= b.to_multiset().remove(card));
        lemma_totals_permutation(a.drop_last(), b.remove(i));
        lemma_totals_remove(b, i);
    }
}

/// A hand's value is the same for every order of the same cards.
pub proof fn lemma_value_permutation(a: Seq<Card>, b: Seq<Card>)
    requires
        a.to_multiset() == b.to_multiset(),
    ensures
        hand_value(a) == hand_value(b),
{
    lemma_totals_permutation(a, b);
}

/// A hand without aces is worth the plain sum of its cards' points.
pub proof fn lemma_value_without_aces(cards: Seq<Card>)
    requires
        forall|i: int| 0 <= i < cards.len() ==> cards[i].rank != Rank::Ace,
    ensures
        hand_value(cards) == base_total(cards),
{
    lemma_no_aces_counted(cards);
}

proof fn lemma_no_aces_counted(cards: Seq<Card>)
    requires
        forall|i: int| 0 <= i < cards.len() ==> cards[i].rank != Rank::Ace,
    ensures
        ace_count(cards) == 0,
    decreases cards.len(),
{
    if cards.len() > 0 {
        lemma_no_aces_counted(cards.drop_last());
    }
}

/// Every card counts for 2 to 11 points, and only an ace for 11: so the base
/// total lies between twice the number of cards plus nine per ace, and ten
/// times the number of cards plus one per ace.
pub proof fn lemma_total_bounds(cards: Seq<Card>)
    ensures
        ace_count(cards) <= cards.len(),
        2 * cards.len() + 9 * ace_count(cards) <= base_total(cards),
        base_total(cards) <= 10 * cards.len() + ace_count(cards),
    decreases cards.len(),
{
    if cards.len() > 0 {
        lemma_total_bounds(cards.drop_last());
    }
}

/// The base total of the first cards of a hand is at most that of the hand.
pub proof fn lemma_total_prefix(cards: Seq<Card>, n: int)
    requires
        0 <= n <= cards.len(),
    ensures
        base_total(cards.take(n)) <= base_total(cards),
        ace_count(cards.take(n)) <= ace_count(cards),
    decreases cards.len(),
{
    if n == cards.len() {
        assert(cards.take(n) =~= cards);
    } else {
        lemma_total_prefix(cards.drop_last(), n);
        assert(cards.drop_last().take(n) =~= cards.take(n));
    }
}

/// What the soft-ace reduction comes to: some number of aces, `k`, is
/// counted as 1 in place of 11. All of them are if the result is still over
/// 21, and none is reduced that did not have to be: with one reduction less
/// the total would be over 21.
pub proof fn lemma_soften_least(total: nat, aces: nat) -> (k: nat)
    ensures
        k <= aces,
        soften(total, aces) + 10 * k == total,
        soften(total, aces) > 21 ==> k == aces,
        k > 0 ==> soften(total, aces) + 10 > 21,
    decreases aces,
{
    if total > 21 && aces > 0 {
        let k = lemma_soften_least((total - 10) as nat, (aces - 1) as nat);
        k + 1
    } else {
        0
    }
}

/// A hand is worth at least one point per card, and at most its base total.
pub proof fn lemma_value_bounds(cards: Seq<Card>)
    ensures
        cards.len() <= hand_value(cards) <= base_total(cards),
{
    lemma_total_bounds(cards);
    lemma_soften_least(base_total(cards), ace_count(cards));
}

/// The labels of the cards, in order, with one space between two of them.
pub open spec fn labels_joined(cards: Seq<Card>) -> Seq<char>
    decreases cards.len(),
{
    if cards.len() == 0 {
        Seq::empty()
    } else if cards.len() == 1 {
        cards[0].spec_label()
    } else {
        labels_joined(cards.drop_last()) + seq![' '] + cards.last().spec_label()
    }
}

/// A hand as one line of text: the labels of its cards, then its value in
/// brackets, as in "A♥ K♦ (21)".
pub open spec fn hand_label(cards: Seq<Card>) -> Seq<char> {
    labels_joined(cards) + seq![' ', '('] + decimal(hand_value(cards)) + seq![')']
}

/// The cards one party holds in a round, in the order they were dealt.
pub struct Hand {
    cards: Vec<Card>,
}

impl View for Hand {
    type V = Seq<Card>;

    closed spec fn view(&self) -> Seq<Card> {
        self.cards@
    }
}

impl Hand {
    /// The hand's best total, as `value` computes it.
    pub open spec fn spec_value(&self) -> nat {
        hand_value(self@)
    }

    /// Whether the hand is over 21.
    pub open spec fn spec_is_busted(&self) -> bool {
        hand_value(self@) > 21
    }

    /// Whether the hand is a blackjack: two cards that make 21.
    pub open spec fn spec_is_blackjack(&self) -> bool {
        self@.len() == 2 && hand_value(self@) == 21
    }

    /// Whether the base total of the hand fits the `u8` it is counted in.
    /// Every hand of up to 23 cards does.
    pub open spec fn fits(&self) -> bool {
        base_total(self@) <= u8::MAX
    }

    /// An empty hand.
    pub fn new() -> (hand: Hand)
        ensures
            hand@ == Seq::<Card>::empty(),
            hand.fits(),
    {
        Hand { cards: Vec::new() }
    }

    /// Puts `card` at the end of the hand.
    pub fn add_card(&mut self, card: Card)
        ensures
            final(self)@ == old(self)@.push(card),
            base_total(final(self)@) == base_total(old(self)@) + card.points(),
    {
        proof {
            lemma_totals_push(self.cards@, card);
        }
        self.cards.push(card);
    }

    /// The hand's best total: the cards' base points, with aces counted as 1
    /// in place of 11 one by one while the total is over 21.
    pub fn value(&self) -> (total: u8)
        requires
            self.fits(),
        ensures
            total == hand_value(self@),
    {
        let mut total: u8 = 0;
        let mut aces: u8 = 0;
        let mut i: usize = 0;
        while i < self.cards.len()
            invariant
                i <= self.cards.len(),
                total == base_total(self.cards@.take(i as int)),
                aces == ace_count(self.cards@.take(i as int)),
                base_total(self.cards@) <= u8::MAX,
            decreases self.cards.len() - i,
        {
            let card = self.cards[i];
            proof {
                let ghost next = self.cards@.take(i + 1);
                assert(next =~= self.cards@.take(i as int).push(card));
                lemma_totals_push(self.cards@.take(i as int), card);
                lemma_total_prefix(self.cards@, i + 1);
                lemma_total_bounds(next);
            }
            if card.rank == Rank::Ace {
                aces += 1;
            }
            total += card.value();
            i += 1;
        }
        assert(self.cards@.take(i as int) =~= self.cards@);
        while total > 21 && aces > 0
            invariant
                soften(total as nat, aces as nat) == hand_value(self.cards@),
            decreases aces,
        {
            total -= 10;
            aces -= 1;
        }
        total
    }

    /// Whether the hand is over 21.
    pub fn is_busted(&self) -> (busted: bool)
        requires
            self.fits(),
        ensures
            busted == (hand_value(self@) > 21),
    {
        self.value() > 21
    }

    /// Whether the hand is a blackjack: exactly two cards, worth 21. A 21 of
    /// three cards or more is none.
    pub fn is_blackjack(&self) -> (blackjack: bool)
        ensures
            blackjack == (self@.len() == 2 && hand_value(self@) == 21),
    {
        if self.cards.len() != 2 {
            false
        } else {
            proof {
                lemma_total_bounds(self.cards@);
            }
            self.value() == 21
        }
    }

    /// The hand as one line of text: its cards' labels with spaces between
    /// them, then its value in brackets.
    pub fn label(&self) -> (text: String)
        requires
            self.fits(),
        ensures
            text@ == hand_label(self@),
    {
        let mut text = String::new();
        let mut i: usize = 0;
        proof {
            reveal_strlit(" ");
            reveal_strlit(" (");
            reveal_strlit(")");
        }
        while i < self.cards.len()
            invariant
                i <= self.cards.len(),
                text@ == labels_joined(self.cards@.take(i as int)),
                " "@ == seq![' '],
            decreases self.cards.len() - i,
        {
            if i > 0 {
                text.append(" ");
            }
            let label = self.cards[i].label();
            text.append(label.as_str());
            proof {
                let ghost shown = self.cards@.take(i + 1);
                assert(shown.drop_last() =~= self.cards@.take(i as int));
                assert(text@ =~= labels_joined(shown));
            }
            i += 1;
        }
        assert(self.cards@.take(i as int) =~= self.cards@);
        text.append(" (");
        let value = decimal_text(self.value());
        text.append(value.as_str());
        text.append(")");
        assert(text@ =~= hand_label(self@));
        text
    }

    /// Empties the hand.
    pub fn clear(&mut self)
        ensures
            final(self)@ == Seq::<Card>::empty(),
            final(self).fits(),
    {
        self.cards.clear();
    }

    /// The cards of the hand, in the order they were added.
    pub fn cards(&self) -> (cards: &[Card])
        ensures
            cards@ == self@,
    {
        self.cards.as_slice()
    }
}

} // verus!
