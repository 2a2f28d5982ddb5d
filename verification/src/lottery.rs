//! The lifecycle of a round: start, purchases, the draw and the payout.

use vstd::prelude::*;

use crate::account::AccountId;
use crate::clock::{Schedule, DRAWING_DELAY};
use crate::draw::{draw, draw_subject, subject_of};
use crate::error::{DrawError, LedgerError, PayoutError};
use crate::ledger::{accounts_of, all_hold_tickets, tickets_in, Ledger};
use crate::random::{FetchRandom, RandomReadErr};
use crate::round::{Payout, Round, RoundPhase};

verus! {

/// One round of the lottery.
pub struct Lottery {
    /// The winner, once drawn.
    winner: Option<AccountId>,
    /// The tickets sold and those who hold them.
    ledger: Ledger,
    /// The heights at which sales end and the draw begins.
    schedule: Schedule,
    /// Whether the jackpot has been paid out.
    paid_out: bool,
}

impl View for Lottery {
    type V = Round;

    closed spec fn view(&self) -> Round {
        Round {
            pool: self.ledger@,
            schedule: self.schedule,
            winner: self.winner,
            paid_out: self.paid_out,
        }
    }
}

impl Lottery {
    /// The validity of a lottery: a valid ledger behind a valid round.
    pub closed spec fn wf(&self) -> bool {
        &&& self.ledger.wf()
        &&& self@.wf()
    }

    /// A valid lottery shows a valid round, whose jackpot fits the
    /// machine's numbers.
    pub broadcast proof fn lemma_wf(&self)
        requires
            #[trigger] self.wf(),
        ensures
            self@.wf(),
            self@.pool.jackpot <= u32::MAX,
    {
        self.ledger.lemma_wf();
    }

    /// Starts a round at block height `block`.
    pub fn new_lottery(block: u32) -> (lottery: Lottery)
        requires
            block + DRAWING_DELAY <= u32::MAX,
        ensures
            lottery.wf(),
            lottery@ == Round::start(block),
    {
        let lottery = Lottery {
            winner: None,
            ledger: Ledger::new(),
            schedule: Schedule::starting_at(block),
            paid_out: false,
        };
        proof {
            Round::lemma_start_wf(block);
        }
        lottery
    }

    /// The phase of the round at block height `now`.
    pub fn phase(&self, now: u32) -> (phase: RoundPhase)
        ensures
            phase == self@.phase(now),
    {
        if self.paid_out {
            RoundPhase::PaidOut
        } else if self.winner.is_some() {
            RoundPhase::Drawn
        } else if self.schedule.is_open(now) {
            RoundPhase::Open
        } else {
            RoundPhase::ClosedAwaitingDraw
        }
    }

    /// Pays the jackpot out: names the winner and the amount owed, and
    /// closes the round for good.
    ///
    /// Nothing is owed before a winner is drawn, and nothing is owed twice.
    pub fn payout(&mut self) -> (result: Result<Payout, PayoutError>)
        requires
            old(self).wf(),
        ensures
            final(self).wf(),
            result == old(self)@.payout_result(),
            final(self)@ == old(self)@.payout(),
    {
        proof {
            self.lemma_wf();
        }
        if self.paid_out {
            return Err(PayoutError::RoundClosed);
        }
        match self.winner {
            Some(winner) => {
                self.paid_out = true;
                Ok(Payout { winner, amount: self.ledger.total() })
            },
            None => Err(PayoutError::NoWinnerYet),
        }
    }

    /// The tickets that `caller` holds, or `None` if `caller` never bought
    /// any.
    pub fn get_tickets(&self, caller: AccountId) -> (tickets: Option<u32>)
        requires
            self.wf(),
        ensures
            tickets is Some <==> self@.pool.tickets.contains_key(caller),
            tickets is Some ==> tickets->0 == self@.pool.tickets[caller],
    {
        self.ledger.get_weight(&caller)
    }

    /// The tickets that `account` holds, or `None` if `account` never
    /// bought any.
    pub fn get_tickets_by_account(&self, account: AccountId) -> (tickets: Option<u32>)
        requires
            self.wf(),
        ensures
            tickets is Some <==> self@.pool.tickets.contains_key(account),
            tickets is Some ==> tickets->0 == self@.pool.tickets[account],
    {
        self.ledger.get_weight(&account)
    }

    /// The subject that the randomness oracle is asked about in the draw of
    /// this round.
    pub fn draw_subject(&self) -> (subject: [u8; 32])
        ensures
            subject@ == subject_of(self@.pool.jackpot as u32),
    {
        draw_subject(self.ledger.total())
    }

    /// Why a draw at block height `now` is refused before the oracle is
    /// asked, if it is.
    pub fn draw_refusal(&self, now: u32) -> (refusal: Option<DrawError>)
        ensures
            refusal == self@.draw_refusal(now),
    {
        if !self.schedule.is_drawable(now) {
            Some(DrawError::NotYetDrawable)
        } else if self.winner.is_some() {
            Some(DrawError::AlreadyDrawn)
        } else if self.ledger.total() == 0 {
            Some(DrawError::EmptyPool)
        } else {
            None
        }
    }

    /// Draws the winner at block height `now` from the answer `outcome` of
    /// the randomness oracle.
    ///
    /// The draw is refused before the drawing height, after a winner is
    /// drawn, and while no ticket is sold. An oracle that failed leaves the
    /// round as it is, to be drawn again.
    pub fn settle_draw(&mut self, now: u32, outcome: Result<[u8; 32], RandomReadErr>) -> (result:
        Result<(), DrawError>)
        requires
            old(self).wf(),
        ensures
            final(self).wf(),
            result == old(self)@.draw_result(now, outcome),
            result != Err::<(), DrawError>(DrawError::DrawExhausted),
            final(self)@ == old(self)@.draw(now, outcome),
    {
        proof {
            self@.lemma_draw_wf(now, outcome);
        }
        if let Some(refusal) = self.draw_refusal(now) {
            return Err(refusal);
        }
        match outcome {
            Ok(sample) => match draw(&self.ledger, &sample) {
                Ok(winner) => {
                    self.winner = Some(winner);
                    Ok(())
                },
                Err(e) => Err(e),
            },
            Err(_) => Err(DrawError::RandomnessUnavailable),
        }
    }

    /// Draws the winner at block height `now`, asking `oracle` for the
    /// random sample.
    ///
    /// The oracle is asked only if the draw is not refused beforehand, once,
    /// about the subject of this round.
    pub fn draw_winner<R: FetchRandom>(&mut self, now: u32, oracle: &mut R) -> (result: Result<
        (),
        DrawError,
    >)
        requires
            old(self).wf(),
        ensures
            final(self).wf(),
            old(self)@.draw_refusal(now) matches Some(refusal) ==> result == Err::<(), DrawError>(
                refusal,
            ) && final(self)@ == old(self)@,
            old(self)@.draw_refusal(now) is Some ==> *final(oracle) == *old(oracle),
            old(self)@.draw_refusal(now) is None ==> exists|outcome: Result<[u8; 32], RandomReadErr>|
                result == old(self)@.draw_result(now, outcome) && final(self)@ == old(self)@.draw(
                    now,
                    outcome,
                ),
            result != Err::<(), DrawError>(DrawError::DrawExhausted),
    {
        if let Some(refusal) = self.draw_refusal(now) {
            return Err(refusal);
        }
        let subject = self.draw_subject();
        let outcome = oracle.fetch_random(subject);
        self.settle_draw(now, outcome)
    }

    /// Buys `desired_amount` tickets for `caller` at block height `now`,
    /// with `transferred_value` sent along.
    ///
    /// Tickets are sold only while the round is open, one unit each, and the
    /// value sent must exceed their price. A refused purchase changes
    /// nothing, and neither does a purchase of no tickets.
    pub fn purchase_tickets(
        &mut self,
        now: u32,
        caller: AccountId,
        desired_amount: u32,
        transferred_value: u64,
    ) -> (result: Result<(), LedgerError>)
        requires
            old(self).wf(),
            old(self)@.purchase_result(now, desired_amount, transferred_value) is Ok
                ==> old(self)@.pool.jackpot + desired_amount <= u32::MAX,
        ensures
            final(self).wf(),
            result == old(self)@.purchase_result(now, desired_amount, transferred_value),
            final(self)@ == old(self)@.purchase(now, caller, desired_amount, transferred_value),
    {
        proof {
            self@.lemma_purchase_wf(now, caller, desired_amount, transferred_value);
        }
        match self.phase(now) {
            RoundPhase::Open => self.ledger.deposit(caller, desired_amount, transferred_value),
            _ => Err(LedgerError::RoundClosed),
        }
    }

    /// The winner, once drawn.
    pub fn get_winner(&self) -> (winner: Option<AccountId>)
        ensures
            winner == self@.winner,
    {
        self.winner
    }

    /// The price of one ticket, in words.
    pub fn get_ticket_price(&self) -> (price: String)
        ensures
            price@ == "Ticket costs exactly 1 token"@,
    {
        "Ticket costs exactly 1 token".to_owned()
    }

    /// Whether tickets can be bought at block height `now`.
    pub fn lottery_is_open(&self, now: u32) -> (open: bool)
        ensures
            open == (self@.phase(now) == RoundPhase::Open),
    {
        !self.paid_out && self.winner.is_none() && self.schedule.is_open(now)
    }

    /// The number of tickets sold, which is the jackpot.
    pub fn jackpot_size(&self) -> (jackpot: u32)
        ensures
            jackpot == self@.pool.jackpot,
    {
        self.ledger.total()
    }

    /// The heights at which sales end and the draw begins.
    pub fn schedule(&self) -> (schedule: Schedule)
        ensures
            schedule == self@.schedule,
    {
        self.schedule
    }

    /// Whether the jackpot has been paid out.
    pub fn is_paid_out(&self) -> (paid_out: bool)
        ensures
            paid_out == self@.paid_out,
    {
        self.paid_out
    }

    /// The entrants with the tickets they hold, in the order of their first
    /// purchase.
    pub fn entries(&self) -> (entries: Vec<(AccountId, u32)>)
        requires
            self.wf(),
        ensures
            accounts_of(entries@) == self@.pool.roster,
            forall|i: int|
                0 <= i < entries@.len() ==> (#[trigger] entries@[i]).1 == self@.pool.weight_of(
                    self@.pool.roster[i],
                ),
            tickets_in(entries@) == self@.pool.jackpot,
            Self::restorable(self@.winner, entries@, self@.schedule, self@.paid_out),
    {
        let entries = self.ledger.entries();
        proof {
            self.ledger.lemma_wf();
        }
        entries
    }

    /// Whether a round can be made of these parts: no account occurs twice
    /// among `entries`, each holds at least one ticket, the tickets fit the
    /// jackpot, sales end before the draw, the winner is among the entrants,
    /// and nothing is paid out without a winner.
    pub open spec fn restorable(
        winner: Option<AccountId>,
        entries: Seq<(AccountId, u32)>,
        schedule: Schedule,
        paid_out: bool,
    ) -> bool {
        &&& accounts_of(entries).no_duplicates()
        &&& all_hold_tickets(entries)
        &&& tickets_in(entries) <= u32::MAX
        &&& schedule.wf()
        &&& winner matches Some(account) ==> accounts_of(entries).contains(account)
        &&& paid_out ==> winner is Some
    }

    /// Rebuilds a round from its parts: the winner, the entrants with the
    /// tickets they hold in the order of their first purchase, the schedule,
    /// and whether the jackpot has been paid out.
    pub fn restore(
        winner: Option<AccountId>,
        entries: &Vec<(AccountId, u32)>,
        schedule: Schedule,
        paid_out: bool,
    ) -> (restored: Option<Lottery>)
        ensures
            restored is Some <==> Self::restorable(winner, entries@, schedule, paid_out),
            restored matches Some(lottery) ==> {
                &&& lottery.wf()
                &&& lottery@.winner == winner
                &&& lottery@.schedule == schedule
                &&& lottery@.paid_out == paid_out
                &&& lottery@.pool.roster == accounts_of(entries@)
                &&& lottery@.pool.jackpot == tickets_in(entries@)
                &&& forall|i: int|
                    0 <= i < entries@.len() ==> lottery@.pool.weight_of((#[trigger] entries@[i]).0)
                        == entries@[i].1
            },
    {
        let ledger = match Ledger::from_entries(entries) {
            Some(ledger) => ledger,
            None => {
                return None;
            },
        };
        proof {
            ledger.lemma_wf();
        }
        if schedule.ending_height >= schedule.drawing_height {
            return None;
        }
        match winner {
            Some(account) => {
                proof {
                    if ledger@.roster.contains(account) {
                        let i = choose|i: int|
                            0 <= i < ledger@.roster.len() && ledger@.roster[i] == account;
                        assert(ledger@.weight_of(ledger@.roster[i]) >= 1);
                    }
                }
                if ledger.get_weight(&account).is_none() {
                    return None;
                }
            },
            None => {
                if paid_out {
                    return None;
                }
            },
        }
        Some(Lottery { winner, ledger, schedule, paid_out })
    }

    /// The entrants in the order of their first purchase.
    pub fn entrants(&self) -> (entrants: Vec<AccountId>)
        requires
            self.wf(),
        ensures
            entrants@ == self@.pool.roster,
    {
        let n = self.ledger.entrant_count();
        let mut entrants: Vec<AccountId> = Vec::new();
        let mut i: usize = 0;
        while i < n
            invariant
                self.wf(),
                n == self@.pool.roster.len(),
                i <= n,
                entrants@ == self@.pool.roster.take(i as int),
            decreases n - i,
        {
            match self.ledger.entrant(i) {
                Some((who, _)) => {
                    entrants.push(who);
                    assert(self@.pool.roster.take(i + 1) == self@.pool.roster.take(i as int).push(
                        who,
                    ));
                },
                None => {},
            }
            i += 1;
        }
        assert(self@.pool.roster.take(n as int) == self@.pool.roster);
        entrants
    }
}

} // verus!
