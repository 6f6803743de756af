//! The round controller: deals both hands from a fresh shuffled deck, runs
//! the player's hit/stand loop one decision at a time, then plays the
//! dealer's fixed policy (hit below seventeen) and resolves the round.

use vstd::prelude::*;
use crate::card::{Card, standard_deck};
use crate::deck::Deck;
use crate::hand::{Hand, HandState, hand_total, lemma_raw_total_bounds};

verus! {

/// What the round is waiting on: a player decision, or nothing.
#[derive(Clone, Copy, Debug, PartialEq, Eq, Structural)]
pub enum PromptKind {
    AwaitPlayerDecision,
    NoPrompt,
}

/// A player's reply to a prompt.
#[derive(Clone, Copy, Debug, PartialEq, Eq, Structural)]
pub enum Decision {
    Hit,
    Stand,
}

/// Why a submitted input byte was rejected; the caller should re-prompt.
#[derive(Clone, Copy, Debug, PartialEq, Eq, Structural)]
pub enum InputError {
    InvalidDecisionInput,
}

/// How a finished round ended. A tie at seventeen or more goes to the
/// dealer; a draw from an exhausted deck aborts the round instead of
/// failing.
#[derive(Clone, Copy, Debug, PartialEq, Eq, Structural)]
pub enum Outcome {
    PlayerWins,
    PlayerLoses,
    GameAborted,
}

/// The controller's phase. `DealerTurn` is entered and left inside a
/// single `submit_decision` call: the dealer needs no input, so a round at
/// rest is either waiting on the player or resolved.
#[derive(Clone, Copy, Debug, PartialEq, Eq, Structural)]
pub enum RoundPhase {
    PlayerTurn,
    DealerTurn,
    Resolved,
}

/// The ASCII digit `1`, the input byte that asks for a hit.
pub const HIT_BYTE: u8 = 49;

/// The ASCII digit `2`, the input byte that asks for a stand.
pub const STAND_BYTE: u8 = 50;

/// Turns one input byte into a decision: the digit `1` hits, the digit `2`
/// stands, anything else is rejected so that the caller prompts again.
pub fn parse_decision(b: u8) -> (r: Result<Decision, InputError>)
    ensures
        b == HIT_BYTE ==> r == Result::<Decision, InputError>::Ok(Decision::Hit),
        b == STAND_BYTE ==> r == Result::<Decision, InputError>::Ok(Decision::Stand),
        b != HIT_BYTE && b != STAND_BYTE ==> r == Result::<Decision, InputError>::Err(
            InputError::InvalidDecisionInput,
        ),
{
    if b == HIT_BYTE {
        Ok(Decision::Hit)
    } else if b == STAND_BYTE {
        Ok(Decision::Stand)
    } else {
        Err(InputError::InvalidDecisionInput)
    }
}

/// The phase the controller moves to after looking at the player's hand:
/// exactly 21 or a bust resolves the round, anything lower waits on the
/// player.
pub open spec fn player_step_phase(player: Seq<Card>) -> RoundPhase {
    if hand_total(player) >= 21 {
        RoundPhase::Resolved
    } else {
        RoundPhase::PlayerTurn
    }
}

/// The outcome, if any, after looking at the player's hand: exactly 21
/// wins at once, a bust loses, anything lower is still open.
pub open spec fn player_step_outcome(player: Seq<Card>) -> Option<Outcome> {
    if hand_total(player) == 21 {
        Some(Outcome::PlayerWins)
    } else if hand_total(player) > 21 {
        Some(Outcome::PlayerLoses)
    } else {
        None
    }
}

/// The dealer's fixed policy played to its end on the model level: while
/// the total is below seventeen and a card remains, the dealer draws the
/// deck's last card; the result is the final pair of dealer hand and deck.
pub open spec fn dealer_run(dealer: Seq<Card>, deck: Seq<Card>) -> (Seq<Card>, Seq<Card>)
    decreases deck.len(),
{
    if hand_total(dealer) >= 17 || deck.len() == 0 {
        (dealer, deck)
    } else {
        dealer_run(dealer.push(deck.last()), deck.drop_last())
    }
}

/// How the round resolves once the player stands on `player_total`: the
/// dealer plays out `dealer_run`; exactly 21 or a stand that the player
/// does not beat loses the round for the player, a dealer bust wins it,
/// and a hand still below seventeen means the deck ran dry, which aborts.
/// A tie goes to the dealer.
pub open spec fn dealer_outcome(dealer: Seq<Card>, deck: Seq<Card>, player_total: int) -> Outcome {
    let run = dealer_run(dealer, deck);
    let d = hand_total(run.0);
    if d == 21 {
        Outcome::PlayerLoses
    } else if d > 21 {
        Outcome::PlayerWins
    } else if d >= 17 {
        if player_total > d {
            Outcome::PlayerWins
        } else {
            Outcome::PlayerLoses
        }
    } else {
        Outcome::GameAborted
    }
}

/// The dealer's policy is faithful and it always ends: the run stops only
/// standing at seventeen or more (21 and busts included) or with the deck
/// empty; while the total is below seventeen with a card left it hits; and
/// it draws card for card off the deck, so it takes at most `deck.len()`
/// hits and never loses or invents a card.
pub proof fn lemma_dealer_run_stops(dealer: Seq<Card>, deck: Seq<Card>)
    ensures
        hand_total(dealer_run(dealer, deck).0) >= 17 || dealer_run(dealer, deck).1.len() == 0,
        hand_total(dealer) < 17 && deck.len() > 0 ==> dealer_run(dealer, deck) == dealer_run(
            dealer.push(deck.last()),
            deck.drop_last(),
        ),
        dealer_run(dealer, deck).0.len() >= dealer.len(),
        dealer_run(dealer, deck).0.len() - dealer.len() == deck.len() - dealer_run(
            dealer,
            deck,
        ).1.len(),
        dealer_run(dealer, deck).0.len() + dealer_run(dealer, deck).1.len() == dealer.len()
            + deck.len(),
    decreases deck.len(),
{
    if !(hand_total(dealer) >= 17 || deck.len() == 0) {
        lemma_dealer_run_stops(dealer.push(deck.last()), deck.drop_last());
    }
}

/// One blackjack round in progress. It owns its deck and both hands; no
/// state crosses round boundaries.
pub struct Round {
    deck: Deck,
    player: Hand,
    dealer: Hand,
    phase: RoundPhase,
    outcome: Option<Outcome>,
}

/// A read-only snapshot of the table for display.
pub struct Snapshot {
    pub player_cards: Vec<Card>,
    pub dealer_cards: Vec<Card>,
    pub outcome: Option<Outcome>,
}

/// Copies a hand's cards for a snapshot.
fn copy_cards(v: &Vec<Card>) -> (r: Vec<Card>)
    ensures
        r@ == v@,
{
    let mut r: Vec<Card> = Vec::new();
    let mut i: usize = 0;
    while i < v.len()
        invariant
            i <= v@.len(),
            r@ == v@.take(i as int),
        decreases v@.len() - i,
    {
        let c = v[i];
        r.push(c);
        proof {
            assert(v@.take(i + 1) =~= v@.take(i as int).push(v@[i as int]));
        }
        i = i + 1;
    }
    assert(v@.take(v@.len() as int) =~= v@);
    r
}

impl Round {
    /// The player's cards, in deal order.
    pub closed spec fn player_cards(self) -> Seq<Card> {
        self.player@
    }

    /// The dealer's cards, in deal order.
    pub closed spec fn dealer_cards(self) -> Seq<Card> {
        self.dealer@
    }

    /// The cards still in the draw pile.
    pub closed spec fn deck_cards(self) -> Seq<Card> {
        self.deck@
    }

    /// The controller's current phase.
    pub closed spec fn phase_of(self) -> RoundPhase {
        self.phase
    }

    /// The round's outcome, once resolved.
    pub closed spec fn outcome_of(self) -> Option<Outcome> {
        self.outcome
    }

    /// The round's invariant: the cards in play all came from one deck of
    /// at most 52; the outcome is set exactly when the round is resolved;
    /// while the player is deciding, the player's total is under 21; and a
    /// round at rest is never mid-dealer-turn.
    pub closed spec fn wf(self) -> bool {
        &&& self.player@.len() + self.dealer@.len() + self.deck@.len() <= 52
        &&& (self.phase is Resolved <==> self.outcome is Some)
        &&& (self.phase is PlayerTurn ==> hand_total(self.player@) < 21)
        &&& !(self.phase is DealerTurn)
    }

    /// Starts a round on the given draw pile: the player is dealt the
    /// first two cards, the dealer the next two, and the player's hand is
    /// looked at once, so that a dealt 21 resolves the round at once.
    pub fn start_round_with_deck(deck: Deck) -> (r: Round)
        requires
            4 <= deck@.len() <= 52,
        ensures
            r.wf(),
            r.player_cards() == deck@.take(2),
            r.dealer_cards() == deck@.skip(2).take(2),
            r.deck_cards() == deck@.skip(4),
            r.phase_of() == player_step_phase(deck@.take(2)),
            r.outcome_of() == player_step_outcome(deck@.take(2)),
    {
        let mut deck = deck;
        let ghost full = deck@;
        let mut player = Hand::new();
        let mut dealer = Hand::new();
        player.first_deal(&mut deck);
        dealer.first_deal(&mut deck);
        proof {
            assert(full.skip(2).take(2) =~= dealer@);
            assert(full.skip(2).skip(2) =~= full.skip(4));
        }
        let state = player.evaluate();
        let (phase, outcome) = match state {
            HandState::Winner => (RoundPhase::Resolved, Some(Outcome::PlayerWins)),
            HandState::Bust(_) => (RoundPhase::Resolved, Some(Outcome::PlayerLoses)),
            HandState::Under(_) => (RoundPhase::PlayerTurn, None),
        };
        Round { deck, player, dealer, phase, outcome }
    }

    /// Starts a round on a freshly built deck, shuffled with the injected
    /// random generator. Whatever order the shuffle chose, the four dealt
    /// cards and the 48 left in the pile are the standard deck, each card
    /// exactly once.
    pub fn start_round(rng: &mut rand::rngs::StdRng) -> (r: Round)
        ensures
            r.wf(),
            r.player_cards().len() == 2,
            r.dealer_cards().len() == 2,
            r.deck_cards().len() == 48,
            (r.player_cards() + r.dealer_cards() + r.deck_cards()).to_multiset()
                == standard_deck().to_multiset(),
            (r.player_cards() + r.dealer_cards() + r.deck_cards()).no_duplicates(),
            r.phase_of() == player_step_phase(r.player_cards()),
            r.outcome_of() == player_step_outcome(r.player_cards()),
    {
        let deck = Deck::new(rng);
        let ghost full = deck@;
        let r = Self::start_round_with_deck(deck);
        proof {
            assert(full.take(2) + full.skip(2).take(2) + full.skip(4) =~= full);
        }
        r
    }

    /// What the round is waiting on: the player's decision, or nothing
    /// once it is resolved.
    pub fn current_prompt(&self) -> (p: PromptKind)
        ensures
            p == (if self.phase_of() is PlayerTurn {
                PromptKind::AwaitPlayerDecision
            } else {
                PromptKind::NoPrompt
            }),
    {
        match self.phase {
            RoundPhase::PlayerTurn => PromptKind::AwaitPlayerDecision,
            _ => PromptKind::NoPrompt,
        }
    }

    /// A read-only snapshot of both hands and the outcome so far.
    pub fn observe_state(&self) -> (s: Snapshot)
        ensures
            s.player_cards@ == self.player_cards(),
            s.dealer_cards@ == self.dealer_cards(),
            s.outcome == self.outcome_of(),
    {
        Snapshot {
            player_cards: copy_cards(self.player.cards()),
            dealer_cards: copy_cards(self.dealer.cards()),
            outcome: self.outcome,
        }
    }

    /// Plays the dealer's fixed policy to its end: hit below seventeen,
    /// stand at seventeen or more, and abort when a hit finds no card. The
    /// final hands match `dealer_run` and the verdict is `dealer_outcome`
    /// against the player's standing total.
    fn dealer_turn(dealer: &mut Hand, deck: &mut Deck, player_total: u32) -> (out: Outcome)
        requires
            old(dealer)@.len() + old(deck)@.len() <= 52,
        ensures
            final(dealer)@ == dealer_run(old(dealer)@, old(deck)@).0,
            final(deck)@ == dealer_run(old(dealer)@, old(deck)@).1,
            out == dealer_outcome(old(dealer)@, old(deck)@, player_total as int),
        decreases old(deck)@.len(),
    {
        proof {
            lemma_raw_total_bounds(dealer@);
        }
        match dealer.evaluate() {
            HandState::Winner => Outcome::PlayerLoses,
            HandState::Bust(_) => Outcome::PlayerWins,
            HandState::Under(d) => {
                if d >= 17 {
                    if player_total > d {
                        Outcome::PlayerWins
                    } else {
                        Outcome::PlayerLoses
                    }
                } else {
                    match dealer.hit(deck) {
                        Ok(_) => Self::dealer_turn(dealer, deck, player_total),
                        Err(_) => Outcome::GameAborted,
                    }
                }
            },
        }
    }

    /// Applies the player's decision. A hit draws one card and looks at
    /// the hand again: 21 wins, a bust loses, less re-prompts, and an
    /// empty deck aborts the round. A stand fixes the player's total and
    /// plays the dealer out, resolving the round with `dealer_outcome`.
    pub fn submit_decision(&mut self, d: Decision)
        requires
            old(self).wf(),
            old(self).phase_of() is PlayerTurn,
        ensures
            final(self).wf(),
            d is Hit && old(self).deck_cards().len() == 0 ==> {
                &&& final(self).phase_of() is Resolved
                &&& final(self).outcome_of() == Some(Outcome::GameAborted)
                &&& final(self).player_cards() == old(self).player_cards()
                &&& final(self).dealer_cards() == old(self).dealer_cards()
                &&& final(self).deck_cards() == old(self).deck_cards()
            },
            d is Hit && old(self).deck_cards().len() > 0 ==> ({
                let p2 = old(self).player_cards().push(old(self).deck_cards().last());
                &&& final(self).player_cards() == p2
                &&& final(self).dealer_cards() == old(self).dealer_cards()
                &&& final(self).deck_cards() == old(self).deck_cards().drop_last()
                &&& final(self).phase_of() == player_step_phase(p2)
                &&& final(self).outcome_of() == player_step_outcome(p2)
            }),
            d is Stand ==> ({
                let run = dealer_run(old(self).dealer_cards(), old(self).deck_cards());
                &&& final(self).player_cards() == old(self).player_cards()
                &&& final(self).dealer_cards() == run.0
                &&& final(self).deck_cards() == run.1
                &&& final(self).phase_of() is Resolved
                &&& final(self).outcome_of() == Some(
                    dealer_outcome(
                        old(self).dealer_cards(),
                        old(self).deck_cards(),
                        hand_total(old(self).player_cards()),
                    ),
                )
            }),
    {
        match d {
            Decision::Hit => {
                match self.player.hit(&mut self.deck) {
                    Err(_) => {
                        self.outcome = Some(Outcome::GameAborted);
                        self.phase = RoundPhase::Resolved;
                    },
                    Ok(_) => {
                        match self.player.evaluate() {
                            HandState::Winner => {
                                self.outcome = Some(Outcome::PlayerWins);
                                self.phase = RoundPhase::Resolved;
                            },
                            HandState::Bust(_) => {
                                self.outcome = Some(Outcome::PlayerLoses);
                                self.phase = RoundPhase::Resolved;
                            },
                            HandState::Under(_) => {},
                        }
                    },
                }
            },
            Decision::Stand => {
                let v = self.player.total();
                self.phase = RoundPhase::DealerTurn;
                proof {
                    lemma_dealer_run_stops(self.dealer@, self.deck@);
                }
                let out = Self::dealer_turn(&mut self.dealer, &mut self.deck, v);
                self.outcome = Some(out);
                self.phase = RoundPhase::Resolved;
            },
        }
    }
}

} // verus!
