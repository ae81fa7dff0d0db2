//! The rules of a round: the bet, the deal, the player's turn, the dealer's
//! turn, and who wins what.

use vstd::prelude::*;
use crate::card::Card;
use crate::deck::{full_deck, top_cards, Deck};
use crate::display::{
    card_rows, hidden_rows, render_card, render_cards_horizontal, render_hidden_card, side_by_side,
};
use crate::hand::{
    base_total, hand_label, hand_value, lemma_total_bounds, lemma_value_bounds, Hand,
};
use crate::text::{amount_of, parse_amount, reads_as, reads_as_word, trim, trimmed_range};

verus! {

/// Chips a player starts with.
pub const STARTING_CHIPS: u32 = 1000;

/// A round starts with a fresh deck when fewer cards than this are left.
pub const LOW_WATER_MARK: usize = 10;

/// The total at which the dealer stops drawing.
pub const DEALER_STANDS_AT: u8 = 17;

/// How a round ends. The variants stand in the order in which they are
/// tried: the first that applies is the outcome.
#[derive(Debug, Clone, Copy, PartialEq, Eq, Structural)]
pub enum Outcome {
    /// The player is over 21 and loses the bet.
    PlayerBust,
    /// The dealer is over 21 and the player wins the bet.
    DealerBust,
    /// The player alone has a blackjack and wins three chips for every two.
    PlayerBlackjack,
    /// The dealer alone has a blackjack and the player loses the bet.
    DealerBlackjack,
    /// The player's total is the higher one and the player wins the bet.
    PlayerWins,
    /// The dealer's total is the higher one and the player loses the bet.
    DealerWins,
    /// The totals are equal and no chips change hands.
    Push,
}

/// The outcome of a round in which the two hands are as given.
pub open spec fn outcome_of(player: Seq<Card>, dealer: Seq<Card>) -> Outcome {
    let player_blackjack = player.len() == 2 && hand_value(player) == 21;
    let dealer_blackjack = dealer.len() == 2 && hand_value(dealer) == 21;
    if hand_value(player) > 21 {
        Outcome::PlayerBust
    } else if hand_value(dealer) > 21 {
        Outcome::DealerBust
    } else if player_blackjack && !dealer_blackjack {
        Outcome::PlayerBlackjack
    } else if dealer_blackjack && !player_blackjack {
        Outcome::DealerBlackjack
    } else if hand_value(player) > hand_value(dealer) {
        Outcome::PlayerWins
    } else if hand_value(dealer) > hand_value(player) {
        Outcome::DealerWins
    } else {
        Outcome::Push
    }
}

/// The player's chips once a round with the given outcome is settled: the
/// bet is won or lost one for one, a blackjack wins three for two with the
/// half chip dropped, and a push changes nothing.
pub open spec fn balance_after(chips: int, bet: int, outcome: Outcome) -> int {
    match outcome {
        Outcome::PlayerBust | Outcome::DealerBlackjack | Outcome::DealerWins => chips - bet,
        Outcome::DealerBust | Outcome::PlayerWins => chips + bet,
        Outcome::PlayerBlackjack => chips + (bet * 3) / 2,
        Outcome::Push => chips,
    }
}

/// The player's chips after a round with the given outcome. The new balance
/// has to be one that a `u32` holds.
pub fn settle(chips: u32, bet: u32, outcome: Outcome) -> (balance: u32)
    requires
        0 <= balance_after(chips as int, bet as int, outcome) <= u32::MAX,
    ensures
        balance == balance_after(chips as int, bet as int, outcome),
{
    match outcome {
        Outcome::PlayerBust | Outcome::DealerBlackjack | Outcome::DealerWins => chips - bet,
        Outcome::DealerBust | Outcome::PlayerWins => chips + bet,
        Outcome::PlayerBlackjack => {
            let winnings: u64 = (bet as u64 * 3) / 2;
            (chips as u64 + winnings) as u32
        },
        Outcome::Push => chips,
    }
}

/// What became of a line typed as a bet.
#[derive(Debug, Clone, Copy, PartialEq, Eq, Structural)]
pub enum BetReply {
    /// The line was the number 0: the player leaves the table.
    Quit,
    /// The line was a number from 1 to the player's chips: it is the bet.
    Accepted,
    /// The line was a number above the player's chips.
    NotEnoughChips,
    /// The line was no number.
    Invalid,
}

/// The reply to a line typed as a bet by a player with `chips` chips.
pub open spec fn bet_reply(line: Seq<char>, chips: u32) -> BetReply {
    match amount_of(line) {
        Some(amount) => if amount == 0 {
            BetReply::Quit
        } else if amount <= chips {
            BetReply::Accepted
        } else {
            BetReply::NotEnoughChips
        },
        None => BetReply::Invalid,
    }
}

/// What a player can do with a hand.
#[derive(Debug, Clone, Copy, PartialEq, Eq, Structural)]
pub enum Action {
    /// Take one more card.
    Hit,
    /// Take no more cards.
    Stand,
}

/// The action that a line of input names: "h" or "hit", "s" or "stand", in
/// any case of letters and with white space around it or not.
pub open spec fn action_of(line: Seq<char>) -> Option<Action> {
    let word = trim(line);
    if reads_as(word, seq!['h']) || reads_as(word, seq!['h', 'i', 't']) {
        Some(Action::Hit)
    } else if reads_as(word, seq!['s']) || reads_as(word, seq!['s', 't', 'a', 'n', 'd']) {
        Some(Action::Stand)
    } else {
        None
    }
}

/// Reads a line of input as an action. `None` where it names none.
pub fn parse_action(line: &str) -> (action: Option<Action>)
    ensures
        action == action_of(line@),
{
    proof {
        reveal_strlit("h");
        reveal_strlit("hit");
        reveal_strlit("s");
        reveal_strlit("stand");
        assert("h"@ =~= seq!['h']);
        assert("hit"@ =~= seq!['h', 'i', 't']);
        assert("s"@ =~= seq!['s']);
        assert("stand"@ =~= seq!['s', 't', 'a', 'n', 'd']);
    }
    let (start, end) = trimmed_range(line);
    if reads_as_word(line, start, end, "h") || reads_as_word(line, start, end, "hit") {
        Some(Action::Hit)
    } else if reads_as_word(line, start, end, "s") || reads_as_word(line, start, end, "stand") {
        Some(Action::Stand)
    } else {
        None
    }
}

/// What one pass of the player's turn came to.
#[derive(Debug, Clone, Copy, PartialEq, Eq, Structural)]
pub enum Turn {
    /// The player's hand is over 21: the turn is over and the round lost.
    Busted,
    /// The player's hand is a blackjack: the turn is over.
    Blackjack,
    /// The player hit and drew this card.
    Drew(Card),
    /// The player hit and the deck had no card left.
    DeckEmpty,
    /// The player stands: the turn is over.
    Stood,
    /// The line named no action.
    Unrecognized,
}

/// How many cards the dealer draws, holding `hand`, from `deck`: one after
/// the other while the hand is worth less than 17 and a card is left.
pub open spec fn dealer_draws(hand: Seq<Card>, deck: Seq<Card>) -> nat
    decreases deck.len(),
{
    if hand_value(hand) >= 17 || deck.len() == 0 {
        0
    } else {
        1 + dealer_draws(hand.push(deck.last()), deck.drop_last())
    }
}

/// The boxes that show a dealer's hand while its first card is hidden: a
/// card face down, then the hand's cards from the second on, face up.
pub open spec fn dealer_boxes(dealer: Seq<Card>) -> Seq<Seq<Seq<char>>> {
    Seq::new(
        if dealer.len() > 1 {
            dealer.len()
        } else {
            1
        },
        |i: int|
            if i == 0 {
                hidden_rows()
            } else {
                card_rows(dealer[i])
            },
    )
}

/// The table: the deck, the two hands, the player's chips and the bet of
/// the round that is being played.
pub struct Game {
    pub deck: Deck,
    pub player_hand: Hand,
    pub dealer_hand: Hand,
    pub player_chips: u32,
    pub current_bet: u32,
}

impl Game {
    /// Whether both hands have base totals that fit the `u8` they are
    /// counted in. Hands dealt in a round always do.
    pub open spec fn hands_fit(&self) -> bool {
        self.player_hand.fits() && self.dealer_hand.fits()
    }

    /// The outcome that the two hands on the table give.
    pub open spec fn spec_outcome(&self) -> Outcome {
        outcome_of(self.player_hand@, self.dealer_hand@)
    }

    /// The player's chips once the round on the table is settled.
    pub open spec fn spec_settled(&self) -> int {
        balance_after(self.player_chips as int, self.current_bet as int, self.spec_outcome())
    }

    /// Whether the same cards lie in the deck and in both hands of the two
    /// tables.
    pub open spec fn same_cards(&self, other: &Game) -> bool {
        &&& self.deck@ == other.deck@
        &&& self.player_hand@ == other.player_hand@
        &&& self.dealer_hand@ == other.dealer_hand@
    }

    /// Whether the two tables are in the same state: the same cards in the
    /// same places, the same chips and the same bet.
    pub open spec fn same_state(&self, other: &Game) -> bool {
        &&& self.same_cards(other)
        &&& self.player_chips == other.player_chips
        &&& self.current_bet == other.current_bet
    }

    /// A table at which nothing has happened yet: a full deck, shuffled, two
    /// empty hands, a thousand chips and no bet.
    pub fn new() -> (game: Game)
        ensures
            game.deck@.to_multiset() == full_deck().to_multiset(),
            game.deck@.len() == 52,
            game.player_hand@ == Seq::<Card>::empty(),
            game.dealer_hand@ == Seq::<Card>::empty(),
            game.player_chips == STARTING_CHIPS,
            game.current_bet == 0,
            game.hands_fit(),
    {
        let mut deck = Deck::new();
        deck.shuffle();
        Game {
            deck,
            player_hand: Hand::new(),
            dealer_hand: Hand::new(),
            player_chips: STARTING_CHIPS,
            current_bet: 0,
        }
    }

    /// Whether `later` is this table after `line` was taken as a bet with
    /// the reply `reply`: an accepted bet is the table's new bet, and nothing
    /// else has changed, whatever the reply.
    pub open spec fn bet_placed(&self, line: Seq<char>, later: &Game, reply: BetReply) -> bool {
        &&& reply == bet_reply(line, self.player_chips)
        &&& later.same_cards(self)
        &&& later.player_chips == self.player_chips
        &&& later.current_bet == if reply == BetReply::Accepted {
            amount_of(line).unwrap()
        } else {
            self.current_bet
        }
    }

    /// Takes a line of input as the player's bet. A number from 1 to the
    /// player's chips becomes the bet; 0, a number too large and a line that
    /// is no number leave the table as it is, each with its own reply.
    pub fn place_bet(&mut self, line: &str) -> (reply: BetReply)
        ensures
            old(self).bet_placed(line@, final(self), reply),
    {
        match parse_amount(line) {
            Some(bet) => {
                if bet == 0 {
                    BetReply::Quit
                } else if bet <= self.player_chips {
                    self.current_bet = bet;
                    BetReply::Accepted
                } else {
                    BetReply::NotEnoughChips
                }
            },
            None => BetReply::Invalid,
        }
    }

    /// Whether `later` is this table once the deck was looked after before a
    /// deal, and `fresh` tells whether the deck was replaced: a deck of fewer
    /// than ten cards gives way to a full one, shuffled; any other stays.
    /// Nothing else has changed.
    pub open spec fn deck_refreshed(&self, later: &Game, fresh: bool) -> bool {
        &&& fresh == (self.deck@.len() < LOW_WATER_MARK)
        &&& if fresh {
            later.deck@.to_multiset() == full_deck().to_multiset() && later.deck@.len() == 52
        } else {
            later.deck@ == self.deck@
        }
        &&& later.player_hand@ == self.player_hand@
        &&& later.dealer_hand@ == self.dealer_hand@
        &&& later.player_chips == self.player_chips
        &&& later.current_bet == self.current_bet
    }

    /// Makes sure that the deck will last for a round: where fewer than ten
    /// cards are left, the deck is replaced by a full one, shuffled. Returns
    /// whether it was.
    pub fn refresh_deck(&mut self) -> (fresh: bool)
        ensures
            old(self).deck_refreshed(final(self), fresh),
    {
        if self.deck.cards_remaining() < LOW_WATER_MARK {
            self.deck = Deck::new();
            self.deck.shuffle();
            true
        } else {
            false
        }
    }

    /// Whether `later` is this table after the first cards of a round were
    /// dealt: both hands were emptied, then the top four cards of the deck
    /// went to the player and the dealer in turn, the player first. A deck of
    /// fewer than four cards gives what it has.
    pub open spec fn initial_deal(&self, later: &Game) -> bool {
        let n: nat = if self.deck@.len() < 4 {
            self.deck@.len()
        } else {
            4
        };
        let dealt = top_cards(self.deck@, n);
        &&& later.deck@ == self.deck@.take(self.deck@.len() - n)
        &&& later.player_hand@ == Seq::new((n + 1) / 2, |i: int| dealt[2 * i])
        &&& later.dealer_hand@ == Seq::new(n / 2, |i: int| dealt[2 * i + 1])
        &&& later.player_chips == self.player_chips
        &&& later.current_bet == self.current_bet
    }

    /// Deals the first cards of a round: empties both hands, then deals two
    /// cards to each, one at a time and the player first. A card that the
    /// deck does not have is not dealt.
    pub fn deal_initial_cards(&mut self)
        ensures
            old(self).initial_deal(final(self)),
            final(self).hands_fit(),
    {
        self.player_hand.clear();
        self.dealer_hand.clear();
        let ghost deck = self.deck@;
        let ghost size = deck.len() as int;
        let mut round: usize = 0;
        while round < 2
            invariant
                round <= 2,
                deck == old(self).deck@,
                size == deck.len(),
                self.player_chips == old(self).player_chips,
                self.current_bet == old(self).current_bet,
                self.deck@ == deck.take(self.deck@.len() as int),
                size - self.deck@.len() == if 2 * round <= size {
                    2 * round
                } else {
                    size
                },
                self.player_hand@.len() == (size - self.deck@.len() + 1) / 2,
                self.dealer_hand@.len() == (size - self.deck@.len()) / 2,
                forall|i: int|
                    0 <= i < self.player_hand@.len() ==> self.player_hand@[i] == deck[size - 1 - 2
                        * i],
                forall|i: int|
                    0 <= i < self.dealer_hand@.len() ==> self.dealer_hand@[i] == deck[size - 2 - 2
                        * i],
                base_total(self.player_hand@) <= 11 * round,
                base_total(self.dealer_hand@) <= 11 * round,
            decreases 2 - round,
        {
            if let Some(card) = self.deck.deal() {
                self.player_hand.add_card(card);
            }
            if let Some(card) = self.deck.deal() {
                self.dealer_hand.add_card(card);
            }
            round += 1;
        }
        proof {
            let n: nat = if size < 4 {
                size as nat
            } else {
                4
            };
            let dealt = top_cards(deck, n);
            assert(self.player_hand@ =~= Seq::new((n + 1) / 2, |i: int| dealt[2 * i]));
            assert(self.dealer_hand@ =~= Seq::new(n / 2, |i: int| dealt[2 * i + 1]));
        }
    }

    /// The deck as it was before the first four cards of the round were
    /// dealt from it: the deck with those cards back on top of it, the
    /// player's first card topmost.
    pub open spec fn deck_before_deal(&self) -> Seq<Card>
        recommends
            self.player_hand@.len() == 2,
            self.dealer_hand@.len() == 2,
    {
        self.deck@ + seq![
            self.dealer_hand@[1],
            self.player_hand@[1],
            self.dealer_hand@[0],
            self.player_hand@[0],
        ]
    }

    /// Whether `later` is this table after a round was begun, and `fresh`
    /// tells whether that took a new deck. Each hand holds two cards, dealt
    /// in turn from the top of the deck, the player first: of this table's
    /// deck where it had ten cards or more, and of a full deck in some order
    /// where it had fewer. Chips and bet are as before.
    pub open spec fn round_begun(&self, later: &Game, fresh: bool) -> bool {
        &&& fresh == (self.deck@.len() < LOW_WATER_MARK)
        &&& later.player_hand@.len() == 2
        &&& later.dealer_hand@.len() == 2
        &&& if fresh {
            later.deck_before_deal().to_multiset() == full_deck().to_multiset()
        } else {
            later.deck_before_deal() == self.deck@
        }
        &&& later.player_chips == self.player_chips
        &&& later.current_bet == self.current_bet
    }

    /// Begins a round once the bet is placed: the deck is replaced by a full
    /// one, shuffled, where fewer than ten cards are left, both hands are
    /// emptied, and two cards are dealt to each. Returns whether the deck was
    /// replaced.
    pub fn begin_round(&mut self) -> (fresh: bool)
        ensures
            old(self).round_begun(final(self), fresh),
            final(self).hands_fit(),
    {
        let fresh = self.refresh_deck();
        let ghost deck = self.deck@;
        self.deal_initial_cards();
        proof {
            assert(self.deck_before_deal() =~= deck);
        }
        fresh
    }

    /// Whether the player has a decision to make: the hand is neither over
    /// 21 nor a blackjack.
    pub open spec fn spec_needs_action(&self) -> bool {
        !self.player_hand.spec_is_busted() && !self.player_hand.spec_is_blackjack()
    }

    /// Whether `later` is this table after one pass of the player's turn
    /// with the line `line`, which came to `turn`. A hand over 21 and a
    /// blackjack end the turn before the line is looked at. A hit moves the
    /// top card of the deck to the player's hand, if there is one. Nothing
    /// else ever changes.
    pub open spec fn turn_taken(&self, line: Seq<char>, later: &Game, turn: Turn) -> bool {
        if self.player_hand.spec_is_busted() {
            turn == Turn::Busted && later.same_state(self)
        } else if self.player_hand.spec_is_blackjack() {
            turn == Turn::Blackjack && later.same_state(self)
        } else {
            match action_of(line) {
                Some(Action::Hit) => if self.deck@.len() > 0 {
                    &&& turn == Turn::Drew(self.deck@.last())
                    &&& later.deck@ == self.deck@.drop_last()
                    &&& later.player_hand@ == self.player_hand@.push(self.deck@.last())
                    &&& later.dealer_hand@ == self.dealer_hand@
                    &&& later.player_chips == self.player_chips
                    &&& later.current_bet == self.current_bet
                } else {
                    turn == Turn::DeckEmpty && later.same_state(self)
                },
                Some(Action::Stand) => turn == Turn::Stood && later.same_state(self),
                None => turn == Turn::Unrecognized && later.same_state(self),
            }
        }
    }

    /// Whether the player has a decision to make, and so a line of input is
    /// wanted for the next pass of the turn.
    pub fn needs_action(&self) -> (needed: bool)
        requires
            self.player_hand.fits(),
        ensures
            needed == self.spec_needs_action(),
    {
        !self.player_hand.is_busted() && !self.player_hand.is_blackjack()
    }

    /// One pass of the player's turn. A hand over 21 ends it, and so does a
    /// blackjack. Otherwise `line` is read as the player's action: a hit
    /// deals one card to the player, a stand ends the turn, and anything else
    /// is turned down.
    pub fn player_turn(&mut self, line: &str) -> (turn: Turn)
        requires
            old(self).player_hand.fits(),
        ensures
            old(self).turn_taken(line@, final(self), turn),
            final(self).player_hand.fits(),
    {
        if self.player_hand.is_busted() {
            return Turn::Busted;
        }
        if self.player_hand.is_blackjack() {
            return Turn::Blackjack;
        }
        match parse_action(line) {
            Some(Action::Hit) => {
                proof {
                    lemma_value_bounds(self.player_hand@);
                    lemma_total_bounds(self.player_hand@);
                }
                match self.deck.deal() {
                    Some(card) => {
                        self.player_hand.add_card(card);
                        Turn::Drew(card)
                    },
                    None => Turn::DeckEmpty,
                }
            },
            Some(Action::Stand) => Turn::Stood,
            None => Turn::Unrecognized,
        }
    }

    /// Whether `later` is this table after the dealer's turn, in which the
    /// cards `drawn` were drawn: the dealer took cards off the top of the
    /// deck, one at a time, until the dealer's hand was worth 17 or more or
    /// the deck was empty. Nothing else has changed.
    pub open spec fn dealer_played(&self, later: &Game, drawn: Seq<Card>) -> bool {
        let n = dealer_draws(self.dealer_hand@, self.deck@);
        &&& n <= self.deck@.len()
        &&& drawn == top_cards(self.deck@, n)
        &&& later.deck@ == self.deck@.take(self.deck@.len() - n)
        &&& later.dealer_hand@ == self.dealer_hand@ + drawn
        &&& later.player_hand@ == self.player_hand@
        &&& later.player_chips == self.player_chips
        &&& later.current_bet == self.current_bet
    }

    /// The dealer's turn: the dealer draws while the dealer's hand is worth
    /// less than 17, and stops at 17 or more, a soft 17 included. The dealer
    /// also stops when the deck has no card left. Returns the cards drawn, in
    /// the order they were drawn.
    pub fn dealer_turn(&mut self) -> (drawn: Vec<Card>)
        requires
            old(self).dealer_hand.fits(),
        ensures
            old(self).dealer_played(final(self), drawn@),
            hand_value(final(self).dealer_hand@) >= DEALER_STANDS_AT || final(self).deck@.len() == 0,
            final(self).dealer_hand.fits(),
    {
        let ghost hand = self.dealer_hand@;
        let ghost deck = self.deck@;
        let ghost size = deck.len() as int;
        let mut drawn: Vec<Card> = Vec::new();
        assert(self.dealer_hand@ =~= hand + top_cards(deck, 0));
        assert(self.deck@ =~= deck.take(size));
        while self.dealer_hand.value() < DEALER_STANDS_AT && self.deck.cards_remaining() > 0
            invariant
                hand == old(self).dealer_hand@,
                deck == old(self).deck@,
                size == deck.len(),
                drawn@.len() <= size,
                drawn@ == top_cards(deck, drawn@.len()),
                self.deck@ == deck.take(size - drawn@.len()),
                self.dealer_hand@ == hand + drawn@,
                dealer_draws(hand, deck) == drawn@.len() + dealer_draws(
                    self.dealer_hand@,
                    self.deck@,
                ),
                self.dealer_hand.fits(),
                self.player_hand@ == old(self).player_hand@,
                self.player_chips == old(self).player_chips,
                self.current_bet == old(self).current_bet,
            decreases self.deck@.len(),
        {
            proof {
                lemma_value_bounds(self.dealer_hand@);
                lemma_total_bounds(self.dealer_hand@);
            }
            let ghost before = drawn@;
            if let Some(card) = self.deck.deal() {
                self.dealer_hand.add_card(card);
                drawn.push(card);
            }
            proof {
                assert(drawn@ =~= top_cards(deck, drawn@.len()));
                assert(self.deck@ =~= deck.take(size - drawn@.len()));
                assert(self.dealer_hand@ =~= hand + drawn@);
            }
        }
        drawn
    }

    /// The two hands as text for the terminal: under its heading the
    /// dealer's hand, as boxes with the first card face down where
    /// `hide_dealer_card` is set and as a line with its value where it is
    /// not, then under its heading the player's hand as a line with its
    /// value.
    pub open spec fn hands_text(&self, hide_dealer_card: bool) -> Seq<char> {
        "\n=== Dealer's Hand ===\n"@ + if hide_dealer_card {
            side_by_side(dealer_boxes(self.dealer_hand@))
        } else {
            hand_label(self.dealer_hand@)
        } + "\n\n=== Your Hand ===\n"@ + hand_label(self.player_hand@) + "\n\n"@
    }

    /// Writes out both hands, each under its heading. With
    /// `hide_dealer_card` set the dealer's first card is shown face down and
    /// the dealer's total is not given away.
    pub fn display_hands(&self, hide_dealer_card: bool) -> (text: String)
        requires
            self.hands_fit(),
        ensures
            text@ == self.hands_text(hide_dealer_card),
    {
        let mut text = String::from_str("\n=== Dealer's Hand ===\n");
        if hide_dealer_card {
            let cards = self.dealer_hand.cards();
            let mut boxes: Vec<Vec<String>> = Vec::new();
            boxes.push(render_hidden_card());
            let mut i: usize = 1;
            while i < cards.len()
                invariant
                    1 <= i,
                    i <= cards@.len() || i == 1,
                    cards@ == self.dealer_hand@,
                    boxes@.len() == i,
                    forall|k: int|
                        0 <= k < boxes@.len() ==> (#[trigger] boxes@[k]).deep_view()
                            == dealer_boxes(cards@)[k],
                decreases cards@.len() - i,
            {
                boxes.push(render_card(&cards[i]));
                i += 1;
            }
            proof {
                assert(boxes.deep_view().len() == dealer_boxes(cards@).len());
                assert forall|k: int| 0 <= k < boxes@.len() implies boxes.deep_view()[k]
                    == dealer_boxes(cards@)[k] by {
                    assert(boxes.deep_view()[k] == boxes@[k].deep_view());
                }
                assert(boxes.deep_view() =~= dealer_boxes(cards@));
                assert forall|k: int| 0 <= k < boxes@.len() implies boxes@[0]@.len() <= (
                #[trigger] boxes@[k])@.len() by {
                    assert(boxes@[k].deep_view().len() == 3);
                    assert(boxes@[0].deep_view().len() == 3);
                }
            }
            let slice = boxes.as_slice();
            assert(slice.deep_view() =~= boxes.deep_view());
            let shown = render_cards_horizontal(slice);
            text.append(shown.as_str());
        } else {
            let line = self.dealer_hand.label();
            text.append(line.as_str());
        }
        text.append("\n\n=== Your Hand ===\n");
        let line = self.player_hand.label();
        text.append(line.as_str());
        text.append("\n\n");
        text
    }

    /// Whether `later` is this table after the round was settled with the
    /// outcome `outcome`: the outcome is the one the hands give, the chips
    /// are what that outcome makes of them, and nothing else has changed.
    pub open spec fn settled(&self, later: &Game, outcome: Outcome) -> bool {
        &&& outcome == self.spec_outcome()
        &&& later.player_chips == self.spec_settled()
        &&& later.same_cards(self)
        &&& later.current_bet == self.current_bet
    }

    /// Whether the chips that settling the round leaves can be held: not
    /// under zero, not over what a `u32` holds.
    pub open spec fn spec_can_settle(&self) -> bool {
        0 <= self.spec_settled() <= u32::MAX
    }

    /// The outcome that the two hands give, by the first rule that applies:
    /// a player over 21 loses; else a dealer over 21 loses; else a blackjack
    /// on one side only wins; else the higher total wins; else it is a push.
    pub fn outcome(&self) -> (outcome: Outcome)
        requires
            self.hands_fit(),
        ensures
            outcome == self.spec_outcome(),
    {
        let player_value = self.player_hand.value();
        let dealer_value = self.dealer_hand.value();
        if self.player_hand.is_busted() {
            Outcome::PlayerBust
        } else if self.dealer_hand.is_busted() {
            Outcome::DealerBust
        } else if self.player_hand.is_blackjack() && !self.dealer_hand.is_blackjack() {
            Outcome::PlayerBlackjack
        } else if self.dealer_hand.is_blackjack() && !self.player_hand.is_blackjack() {
            Outcome::DealerBlackjack
        } else if player_value > dealer_value {
            Outcome::PlayerWins
        } else if dealer_value > player_value {
            Outcome::DealerWins
        } else {
            Outcome::Push
        }
    }

    /// Whether the round on the table can be settled: whether the chips it
    /// leaves are a number that a `u32` holds.
    pub fn can_settle(&self) -> (fits: bool)
        requires
            self.hands_fit(),
        ensures
            fits == self.spec_can_settle(),
    {
        let chips: u64 = self.player_chips as u64;
        let bet: u64 = self.current_bet as u64;
        let limit: u64 = u32::MAX as u64;
        match self.outcome() {
            Outcome::PlayerBust | Outcome::DealerBlackjack | Outcome::DealerWins => bet <= chips,
            Outcome::DealerBust | Outcome::PlayerWins => chips + bet <= limit,
            Outcome::PlayerBlackjack => chips + (bet * 3) / 2 <= limit,
            Outcome::Push => true,
        }
    }

    /// Settles the round: finds the outcome and pays the bet out of, or into,
    /// the player's chips. Nothing else on the table changes.
    pub fn determine_winner(&mut self) -> (outcome: Outcome)
        requires
            old(self).hands_fit(),
            old(self).spec_can_settle(),
        ensures
            old(self).settled(final(self), outcome),
    {
        let outcome = self.outcome();
        self.player_chips = settle(self.player_chips, self.current_bet, outcome);
        outcome
    }
}

/// A hit never makes a blackjack: a hand that had two cards or more has
/// three or more once a card is drawn.
pub proof fn lemma_hit_makes_no_blackjack(before: Game, line: Seq<char>, after: Game, turn: Turn)
    requires
        before.turn_taken(line, &after, turn),
        turn is Drew,
        before.player_hand@.len() >= 2,
    ensures
        !after.player_hand.spec_is_blackjack(),
        after.player_hand@.len() == before.player_hand@.len() + 1,
{
}

/// The dealer draws no more cards than the deck has, and is left with a
/// hand worth 17 or more unless the deck ran out.
pub proof fn lemma_dealer_stops(hand: Seq<Card>, deck: Seq<Card>)
    ensures
        dealer_draws(hand, deck) <= deck.len(),
        hand_value(hand + top_cards(deck, dealer_draws(hand, deck))) >= 17 || dealer_draws(
            hand,
            deck,
        ) == deck.len(),
        dealer_draws(hand, deck) > 0 ==> hand_value(hand) < 17,
    decreases deck.len(),
{
    if hand_value(hand) >= 17 || deck.len() == 0 {
        assert(hand + top_cards(deck, 0) =~= hand);
    } else {
        let next = hand.push(deck.last());
        let rest = deck.drop_last();
        lemma_dealer_stops(next, rest);
        let n = dealer_draws(next, rest);
        assert(hand + top_cards(deck, n + 1) =~= next + top_cards(rest, n));
    }
}

impl Default for Game {
    /// The same as `Game::new`.
    fn default() -> (game: Game)
        ensures
            game.deck@.to_multiset() == full_deck().to_multiset(),
            game.deck@.len() == 52,
            game.player_hand@ == Seq::<Card>::empty(),
            game.dealer_hand@ == Seq::<Card>::empty(),
            game.player_chips == STARTING_CHIPS,
            game.current_bet == 0,
            game.hands_fit(),
    {
        Game::new()
    }
}

} // verus!
