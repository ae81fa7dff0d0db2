//! The deck: fifty-two distinct cards, shuffled in place and dealt from
//! the top.

use vstd::prelude::*;
use rand::rngs::ThreadRng;
use rand::seq::SliceRandom;
use rand::thread_rng;
use crate::card::{rank_count, suit_count, Card, Rank, Suit};

verus! {

/// The suits in the order a new deck holds them.
pub open spec fn suit_in_order(i: int) -> Suit {
    if i == 0 {
        Suit::Hearts
    } else if i == 1 {
        Suit::Diamonds
    } else if i == 2 {
        Suit::Clubs
    } else {
        Suit::Spades
    }
}

/// The ranks in the order a new deck holds them within each suit.
pub open spec fn rank_in_order(i: int) -> Rank {
    if i == 0 {
        Rank::Ace
    } else if i == 1 {
        Rank::Two
    } else if i == 2 {
        Rank::Three
    } else if i == 3 {
        Rank::Four
    } else if i == 4 {
        Rank::Five
    } else if i == 5 {
        Rank::Six
    } else if i == 6 {
        Rank::Seven
    } else if i == 7 {
        Rank::Eight
    } else if i == 8 {
        Rank::Nine
    } else if i == 9 {
        Rank::Ten
    } else if i == 10 {
        Rank::Jack
    } else if i == 11 {
        Rank::Queen
    } else {
        Rank::King
    }
}

/// Place of a suit in that order.
pub open spec fn suit_place(suit: Suit) -> int {
    match suit {
        Suit::Hearts => 0,
        Suit::Diamonds => 1,
        Suit::Clubs => 2,
        Suit::Spades => 3,
    }
}

/// Place of a rank in that order.
pub open spec fn rank_place(rank: Rank) -> int {
    match rank {
        Rank::Ace => 0,
        Rank::Two => 1,
        Rank::Three => 2,
        Rank::Four => 3,
        Rank::Five => 4,
        Rank::Six => 5,
        Rank::Seven => 6,
        Rank::Eight => 7,
        Rank::Nine => 8,
        Rank::Ten => 9,
        Rank::Jack => 10,
        Rank::Queen => 11,
        Rank::King => 12,
    }
}

/// The card at place `i` of a new deck: suit by suit, and within a suit
/// rank by rank.
pub open spec fn card_in_order(i: int) -> Card {
    Card { suit: suit_in_order(i / 13), rank: rank_in_order(i % 13) }
}

/// A new deck: the fifty-two cards in their fixed order.
pub open spec fn full_deck() -> Seq<Card> {
    Seq::new(52, |i: int| card_in_order(i))
}

/// Number of cards in a full deck, which no deck exceeds.
pub const DECK_SIZE: usize = 52;

/// Every card has its one place in the full deck.
pub proof fn lemma_full_deck_place(card: Card)
    ensures
        full_deck()[13 * suit_place(card.suit) + rank_place(card.rank)] == card,
        full_deck().contains(card),
{
    let i = 13 * suit_place(card.suit) + rank_place(card.rank);
    assert(0 <= i < 52);
    assert(i / 13 == suit_place(card.suit));
    assert(i % 13 == rank_place(card.rank));
    assert(full_deck()[i] == card);
}

/// No card is twice in the full deck.
pub proof fn lemma_full_deck_distinct()
    ensures
        full_deck().no_duplicates(),
{
    assert forall|i: int, j: int|
        0 <= i < 52 && 0 <= j < 52 && i != j implies full_deck()[i] != full_deck()[j] by {
        if i / 13 == j / 13 {
            assert(i % 13 != j % 13);
        }
    }
}

proof fn lemma_suit_count_prefix(n: int, suit: Suit)
    requires
        0 <= n <= 52,
    ensures
        suit_count(full_deck().take(n), suit) == if n <= 13 * suit_place(suit) {
            0
        } else if n >= 13 * suit_place(suit) + 13 {
            13
        } else {
            n - 13 * suit_place(suit)
        },
    decreases n,
{
    if n > 0 {
        lemma_suit_count_prefix(n - 1, suit);
        assert(full_deck().take(n).drop_last() =~= full_deck().take(n - 1));
        assert(full_deck().take(n).last() == card_in_order(n - 1));
    }
}

proof fn lemma_rank_count_prefix(n: int, rank: Rank)
    requires
        0 <= n <= 52,
    ensures
        rank_count(full_deck().take(n), rank) == n / 13 + if n % 13 > rank_place(rank) {
            1int
        } else {
            0int
        },
    decreases n,
{
    if n > 0 {
        lemma_rank_count_prefix(n - 1, rank);
        assert(full_deck().take(n).drop_last() =~= full_deck().take(n - 1));
        assert(full_deck().take(n).last() == card_in_order(n - 1));
    }
}

/// The full deck has fifty-two cards, no card twice, thirteen of each suit
/// and four of each rank.
pub proof fn lemma_full_deck_census()
    ensures
        full_deck().len() == 52,
        full_deck().no_duplicates(),
        forall|suit: Suit| #[trigger] suit_count(full_deck(), suit) == 13,
        forall|rank: Rank| #[trigger] rank_count(full_deck(), rank) == 4,
{
    lemma_full_deck_distinct();
    assert(full_deck().take(52) =~= full_deck());
    assert forall|suit: Suit| #[trigger] suit_count(full_deck(), suit) == 13 by {
        lemma_suit_count_prefix(52, suit);
    }
    assert forall|rank: Rank| #[trigger] rank_count(full_deck(), rank) == 4 by {
        lemma_rank_count_prefix(52, rank);
    }
}

/// The `n` cards on top of a deck in the order in which they are dealt:
/// the top card first.
pub open spec fn top_cards(deck: Seq<Card>, n: nat) -> Seq<Card>
    recommends
        n <= deck.len(),
{
    Seq::new(n, |i: int| deck[deck.len() - 1 - i])
}

/// The generator that `rand::thread_rng` hands out. Nothing is known of
/// what is inside it.
#[verifier::external_type_specification]
#[verifier::external_body]
pub struct ExThreadRng(ThreadRng);

/// `rand::thread_rng`: the calling thread's random number generator, seeded
/// by the system. Nothing is claimed of it. It panics where the system
/// gives it no seed.
pub assume_specification[ rand::thread_rng ]() -> (rng: ThreadRng);

/// `SliceRandom::shuffle` of rand, on the cards of a vector. It walks the
/// slice from the back and swaps each place with one drawn at or before it:
/// all it does is swap, so the same cards are there afterwards, each as often
/// as before. Which order comes out is not stated.
#[verifier::external_body]
fn shuffle_cards(cards: &mut Vec<Card>, rng: &mut ThreadRng)
    ensures
        final(cards)@.to_multiset() == old(cards)@.to_multiset(),
{
    cards.shuffle(rng);
}

/// Two sequences of the same cards, each as often in one as in the other,
/// are as long as each other, and if no card is twice in one then none is
/// twice in the other.
pub proof fn lemma_permutation_keeps_distinct(a: Seq<Card>, b: Seq<Card>)
    requires
        a.to_multiset() == b.to_multiset(),
    ensures
        a.len() == b.len(),
        a.no_duplicates() ==> b.no_duplicates(),
{
    vstd::seq_lib::to_multiset_len(a);
    vstd::seq_lib::to_multiset_len(b);
    if a.no_duplicates() {
        a.lemma_multiset_has_no_duplicates();
        b.lemma_multiset_has_no_duplicates_conv();
    }
}

/// A deck of cards. The last card is the top: it is the next to be dealt.
pub struct Deck {
    cards: Vec<Card>,
}

impl View for Deck {
    type V = Seq<Card>;

    closed spec fn view(&self) -> Seq<Card> {
        self.cards@
    }
}

impl Deck {
    /// What holds of every deck: no card is in it twice, and it has at most
    /// fifty-two cards.
    #[verifier::type_invariant]
    pub closed spec fn well_formed(&self) -> bool {
        self.cards@.no_duplicates() && self.cards@.len() <= 52
    }

    /// A full deck in its fixed order: hearts, diamonds, clubs, spades, each
    /// from ace to king.
    pub fn new() -> (deck: Deck)
        ensures
            deck@ == full_deck(),
            deck@.len() == 52,
            deck@.no_duplicates(),
            forall|suit: Suit| #[trigger] suit_count(deck@, suit) == 13,
            forall|rank: Rank| #[trigger] rank_count(deck@, rank) == 4,
    {
        let suits = [Suit::Hearts, Suit::Diamonds, Suit::Clubs, Suit::Spades];
        let ranks = [
            Rank::Ace,
            Rank::Two,
            Rank::Three,
            Rank::Four,
            Rank::Five,
            Rank::Six,
            Rank::Seven,
            Rank::Eight,
            Rank::Nine,
            Rank::Ten,
            Rank::Jack,
            Rank::Queen,
            Rank::King,
        ];
        assert(forall|i: int| 0 <= i < 4 ==> suits@[i] == suit_in_order(i));
        assert(forall|i: int| 0 <= i < 13 ==> ranks@[i] == rank_in_order(i));
        let mut cards: Vec<Card> = Vec::new();
        let mut s: usize = 0;
        while s < 4
            invariant
                s <= 4,
                cards@ =~= full_deck().take(13 * s),
                forall|i: int| 0 <= i < 4 ==> suits@[i] == suit_in_order(i),
                forall|i: int| 0 <= i < 13 ==> ranks@[i] == rank_in_order(i),
            decreases 4 - s,
        {
            let mut r: usize = 0;
            while r < 13
                invariant
                    s < 4,
                    r <= 13,
                    cards@ =~= full_deck().take(13 * s + r),
                    forall|i: int| 0 <= i < 4 ==> suits@[i] == suit_in_order(i),
                    forall|i: int| 0 <= i < 13 ==> ranks@[i] == rank_in_order(i),
                decreases 13 - r,
            {
                let card = Card { suit: suits[s], rank: ranks[r] };
                assert(card == card_in_order(13 * s + r));
                cards.push(card);
                r += 1;
            }
            s += 1;
        }
        proof {
            assert(full_deck().take(52) =~= full_deck());
            lemma_full_deck_census();
        }
        Deck { cards }
    }

    /// Puts the cards of the deck in a random order, drawn from the calling
    /// thread's generator. The cards are the same as before.
    pub fn shuffle(&mut self)
        ensures
            final(self)@.to_multiset() == old(self)@.to_multiset(),
            final(self)@.len() == old(self)@.len(),
    {
        proof {
            use_type_invariant(&*self);
        }
        let mut rng = thread_rng();
        let mut cards: Vec<Card> = Vec::new();
        std::mem::swap(&mut self.cards, &mut cards);
        let ghost before = cards@;
        shuffle_cards(&mut cards, &mut rng);
        proof {
            lemma_permutation_keeps_distinct(before, cards@);
        }
        std::mem::swap(&mut self.cards, &mut cards);
    }

    /// Takes the top card off the deck and returns it, or returns `None`
    /// and leaves the deck as it is when no card is left.
    pub fn deal(&mut self) -> (card: Option<Card>)
        ensures
            old(self)@.len() == 0 ==> card is None && final(self)@ == old(self)@,
            old(self)@.len() > 0 ==> card == Some(old(self)@.last()) && final(self)@ == old(
                self,
            )@.drop_last(),
    {
        proof {
            use_type_invariant(&*self);
        }
        let mut cards: Vec<Card> = Vec::new();
        std::mem::swap(&mut self.cards, &mut cards);
        let card = cards.pop();
        std::mem::swap(&mut self.cards, &mut cards);
        card
    }

    /// Number of cards left in the deck.
    pub fn cards_remaining(&self) -> (n: usize)
        ensures
            n == self@.len(),
            n <= DECK_SIZE,
    {
        proof {
            use_type_invariant(self);
        }
        self.cards.len()
    }

    /// The cards left in the deck, the top card last. No card is among them
    /// twice.
    pub fn cards(&self) -> (cards: &[Card])
        ensures
            cards@ == self@,
            cards@.no_duplicates(),
            cards@.len() <= DECK_SIZE,
    {
        proof {
            use_type_invariant(self);
        }
        self.cards.as_slice()
    }
}

} // verus!
