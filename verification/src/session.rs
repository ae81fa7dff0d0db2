//! A sitting at the table, round after round, as a machine that is moved
//! one step at a time: whoever drives it reads the player's lines and shows
//! what each step did.

use vstd::prelude::*;
use crate::card::Card;
use crate::deck::full_deck;
use crate::game::{balance_after, BetReply, Game, Outcome, Turn, STARTING_CHIPS};
use crate::text::amount_of;

verus! {

/// Where a sitting stands: what its next step is going to do.
#[derive(Debug, Clone, Copy, PartialEq, Eq, Structural)]
pub enum Stage {
    /// The next step takes a line as the player's bet.
    AwaitingBet,
    /// The next step deals the first cards of the round.
    Dealing,
    /// The next step is a pass of the player's turn.
    PlayerTurn,
    /// The next step is the dealer's turn.
    DealerTurn,
    /// The next step settles the round.
    Resolving,
    /// The sitting is over: the player has left or has no chips.
    Over,
}

/// What a step did.
#[derive(Debug, PartialEq, Eq)]
pub enum Event {
    /// A line was taken as a bet, with this reply.
    Bet(BetReply),
    /// The first cards of a round were dealt, from a new deck or not.
    Dealt { fresh_deck: bool },
    /// A pass of the player's turn came to this.
    Turn(Turn),
    /// The dealer drew these cards, in this order.
    DealerDrew(Vec<Card>),
    /// The round was settled with this outcome.
    Settled(Outcome),
    /// The sitting was over already.
    Nothing,
}

/// A sitting: the table and the stage at which play stands.
pub struct Session {
    pub game: Game,
    pub stage: Stage,
}

impl Session {
    /// Whether a round is under way: a bet is placed and not yet settled.
    pub open spec fn in_round(&self) -> bool {
        self.stage is Dealing || self.stage is PlayerTurn || self.stage is DealerTurn
            || self.stage is Resolving
    }

    /// What holds of a sitting between any two steps: the hands can be
    /// counted, and while a round is under way the bet is at least one chip
    /// and at most what the player has.
    pub open spec fn wf(&self) -> bool {
        &&& self.game.hands_fit()
        &&& self.in_round() ==> 1 <= self.game.current_bet <= self.game.player_chips
    }

    /// Whether the next step reads its line: it does when it takes a bet,
    /// and in the player's turn when the player has a decision to make.
    pub open spec fn spec_needs_input(&self) -> bool {
        self.stage is AwaitingBet || (self.stage is PlayerTurn && self.game.spec_needs_action())
    }

    /// Whether the next step can be taken: any step can, but for one that
    /// settles a round whose winnings would take the player's chips over
    /// what a `u32` holds.
    pub open spec fn spec_can_step(&self) -> bool {
        self.stage is Resolving ==> self.game.spec_can_settle()
    }

    /// Whether `later` is this sitting one step on, with `line` as the
    /// step's input and `event` as what it did. The stage says which move of
    /// the game the step makes, and the move's outcome says which stage
    /// comes next.
    pub open spec fn stepped(&self, line: Seq<char>, later: &Session, event: Event) -> bool {
        match self.stage {
            Stage::AwaitingBet => match event {
                Event::Bet(reply) => {
                    &&& self.game.bet_placed(line, &later.game, reply)
                    &&& later.stage == match reply {
                        BetReply::Accepted => Stage::Dealing,
                        BetReply::Quit => Stage::Over,
                        BetReply::NotEnoughChips | BetReply::Invalid => Stage::AwaitingBet,
                    }
                },
                _ => false,
            },
            Stage::Dealing => match event {
                Event::Dealt { fresh_deck } => {
                    &&& self.game.round_begun(&later.game, fresh_deck)
                    &&& later.stage == Stage::PlayerTurn
                },
                _ => false,
            },
            Stage::PlayerTurn => match event {
                Event::Turn(turn) => {
                    &&& self.game.turn_taken(line, &later.game, turn)
                    &&& later.stage == match turn {
                        Turn::Busted => Stage::Resolving,
                        Turn::Blackjack | Turn::Stood => Stage::DealerTurn,
                        Turn::Drew(_) | Turn::DeckEmpty | Turn::Unrecognized => Stage::PlayerTurn,
                    }
                },
                _ => false,
            },
            Stage::DealerTurn => match event {
                Event::DealerDrew(drawn) => {
                    &&& self.game.dealer_played(&later.game, drawn@)
                    &&& later.stage == Stage::Resolving
                },
                _ => false,
            },
            Stage::Resolving => match event {
                Event::Settled(outcome) => {
                    &&& self.game.settled(&later.game, outcome)
                    &&& later.stage == if later.game.player_chips == 0 {
                        Stage::Over
                    } else {
                        Stage::AwaitingBet
                    }
                },
                _ => false,
            },
            Stage::Over => {
                &&& event is Nothing
                &&& later.game.same_state(&self.game)
                &&& later.stage == Stage::Over
            },
        }
    }

    /// A sitting that starts: a new table, waiting for the first bet.
    pub fn new() -> (session: Session)
        ensures
            session.stage == Stage::AwaitingBet,
            session.game.player_chips == STARTING_CHIPS,
            session.game.current_bet == 0,
            session.game.deck@.to_multiset() == full_deck().to_multiset(),
            session.game.deck@.len() == 52,
            session.game.player_hand@.len() == 0,
            session.game.dealer_hand@.len() == 0,
            session.wf(),
    {
        Session { game: Game::new(), stage: Stage::AwaitingBet }
    }

    /// Whether the next step reads its line, so that the player has to be
    /// asked for one first.
    pub fn needs_input(&self) -> (needed: bool)
        requires
            self.wf(),
        ensures
            needed == self.spec_needs_input(),
    {
        match self.stage {
            Stage::AwaitingBet => true,
            Stage::PlayerTurn => self.game.needs_action(),
            _ => false,
        }
    }

    /// Whether the next step can be taken.
    pub fn can_step(&self) -> (possible: bool)
        requires
            self.wf(),
        ensures
            possible == self.spec_can_step(),
    {
        match self.stage {
            Stage::Resolving => self.game.can_settle(),
            _ => true,
        }
    }

    /// Takes the next step of the sitting. A step that waits for the player
    /// reads `line`; any other ignores it.
    ///
    /// A sitting goes from bet to deal to the player's turn; from there to
    /// the dealer's turn, unless the player went over 21; then the round is
    /// settled and the next one begins with its bet. The sitting is over
    /// after this step exactly when it was over before, or the step took a
    /// bet of 0, or the step settled a round that left the player no chips.
    pub fn step(&mut self, line: &str) -> (event: Event)
        requires
            old(self).wf(),
            old(self).spec_can_step(),
        ensures
            old(self).stepped(line@, final(self), event),
            final(self).wf(),
            final(self).stage is Over <==> {
                ||| old(self).stage is Over
                ||| old(self).stage is AwaitingBet && amount_of(line@) == Some(0u32)
                ||| old(self).stage is Resolving && final(self).game.player_chips == 0
            },
    {
        match self.stage {
            Stage::AwaitingBet => {
                let reply = self.game.place_bet(line);
                self.stage = match reply {
                    BetReply::Accepted => Stage::Dealing,
                    BetReply::Quit => Stage::Over,
                    BetReply::NotEnoughChips | BetReply::Invalid => Stage::AwaitingBet,
                };
                Event::Bet(reply)
            },
            Stage::Dealing => {
                let fresh_deck = self.game.begin_round();
                self.stage = Stage::PlayerTurn;
                Event::Dealt { fresh_deck }
            },
            Stage::PlayerTurn => {
                let turn = self.game.player_turn(line);
                self.stage = match turn {
                    Turn::Busted => Stage::Resolving,
                    Turn::Blackjack | Turn::Stood => Stage::DealerTurn,
                    Turn::Drew(_) | Turn::DeckEmpty | Turn::Unrecognized => Stage::PlayerTurn,
                };
                Event::Turn(turn)
            },
            Stage::DealerTurn => {
                let drawn = self.game.dealer_turn();
                self.stage = Stage::Resolving;
                Event::DealerDrew(drawn)
            },
            Stage::Resolving => {
                let outcome = self.game.determine_winner();
                self.stage = if self.game.player_chips == 0 {
                    Stage::Over
                } else {
                    Stage::AwaitingBet
                };
                Event::Settled(outcome)
            },
            Stage::Over => Event::Nothing,
        }
    }
}

/// The player's chips change in the step that settles a round and in no
/// other. That step adds the bet, takes it away, adds three chips for every
/// two of it, or changes nothing, as the outcome of the round says.
pub proof fn lemma_chips_change_when_settled(
    before: Session,
    line: Seq<char>,
    after: Session,
    event: Event,
)
    requires
        before.stepped(line, &after, event),
    ensures
        !(before.stage is Resolving) ==> after.game.player_chips == before.game.player_chips,
        before.stage is Resolving ==> after.game.player_chips == balance_after(
            before.game.player_chips as int,
            before.game.current_bet as int,
            before.game.spec_outcome(),
        ),
        ({
            let chips = before.game.player_chips as int;
            let bet = before.game.current_bet as int;
            let left = after.game.player_chips as int;
            left == chips - bet || left == chips + bet || left == chips + (bet * 3) / 2 || left
                == chips
        }),
{
}

/// A sitting is over after a step exactly when it was over before, or the
/// step took a bet of 0, or the step settled a round that left the player
/// no chips.
pub proof fn lemma_session_ends(before: Session, line: Seq<char>, after: Session, event: Event)
    requires
        before.stepped(line, &after, event),
    ensures
        after.stage is Over <==> {
            ||| before.stage is Over
            ||| before.stage is AwaitingBet && amount_of(line) == Some(0u32)
            ||| before.stage is Resolving && after.game.player_chips == 0
        },
{
}

/// While a round is under way the bet is at least one chip and at most what
/// the player has: a step keeps a sitting well-formed, as long as the hands
/// it leaves can be counted.
pub proof fn lemma_step_keeps_bet_in_range(
    before: Session,
    line: Seq<char>,
    after: Session,
    event: Event,
)
    requires
        before.wf(),
        before.stepped(line, &after, event),
    ensures
        after.in_round() ==> 1 <= after.game.current_bet <= after.game.player_chips,
{
}

} // verus!
