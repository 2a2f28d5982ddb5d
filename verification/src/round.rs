//! The mathematical model of one round: its pool, its schedule, its winner,
//! and what each operation makes of them.

use vstd::prelude::*;

use crate::account::AccountId;
use crate::clock::{Schedule, DRAWING_DELAY, ENTRY_PERIOD};
use crate::draw::{draw_of, lemma_draw_names_ticket_holder};
use crate::error::{DrawError, LedgerError, PayoutError};
use crate::pool::Pool;
use crate::random::RandomReadErr;

verus! {

/// Where a round stands in its life.
#[derive(Clone, Copy, Debug, PartialEq, Eq, Structural)]
pub enum RoundPhase {
    /// Tickets are sold.
    Open,
    /// No ticket is sold any more and no winner is drawn yet.
    ClosedAwaitingDraw,
    /// The winner is drawn and waits for the jackpot.
    Drawn,
    /// The jackpot is paid out. Nothing follows.
    PaidOut,
}

/// What is owed once the round is over: the whole jackpot to the winner.
#[derive(Clone, Copy, Debug, PartialEq, Eq)]
pub struct Payout {
    /// The account that receives the jackpot.
    pub winner: AccountId,
    /// The jackpot.
    pub amount: u32,
}

/// One round as the contracts of this crate speak of it.
pub struct Round {
    /// The tickets sold.
    pub pool: Pool,
    /// The heights at which sales end and the draw begins.
    pub schedule: Schedule,
    /// The winner, once drawn.
    pub winner: Option<AccountId>,
    /// Whether the jackpot has been paid out.
    pub paid_out: bool,
}

impl Round {
    /// The round that starts at height `now`.
    pub open spec fn start(now: u32) -> Round {
        Round {
            pool: Pool::empty(),
            schedule: Schedule {
                ending_height: (now + ENTRY_PERIOD) as u32,
                drawing_height: (now + DRAWING_DELAY) as u32,
            },
            winner: None,
            paid_out: false,
        }
    }

    /// What holds of every round: a well-formed pool, sales that end before
    /// the draw, a winner who holds a ticket, and no payout without a winner.
    pub open spec fn wf(self) -> bool {
        &&& self.pool.wf()
        &&& self.schedule.wf()
        &&& self.winner matches Some(winner) ==> self.pool.roster.contains(winner)
            && self.pool.weight_of(winner) > 0
        &&& self.paid_out ==> self.winner is Some
    }

    /// The phase of the round at height `now`.
    pub open spec fn phase(self, now: u32) -> RoundPhase {
        if self.paid_out {
            RoundPhase::PaidOut
        } else if self.winner is Some {
            RoundPhase::Drawn
        } else if self.schedule.open_at(now) {
            RoundPhase::Open
        } else {
            RoundPhase::ClosedAwaitingDraw
        }
    }

    /// The answer to a purchase of `amount` tickets at height `now` with
    /// `transferred` sent along.
    pub open spec fn purchase_result(self, now: u32, amount: u32, transferred: u64) -> Result<
        (),
        LedgerError,
    > {
        if self.phase(now) != RoundPhase::Open {
            Err(LedgerError::RoundClosed)
        } else if transferred <= amount {
            Err(LedgerError::InsufficientTransfer)
        } else {
            Ok(())
        }
    }

    /// The round after `caller` has asked for `amount` tickets at height
    /// `now` with `transferred` sent along: the deposit is recorded if the
    /// purchase is accepted, and nothing changes otherwise.
    pub open spec fn purchase(self, now: u32, caller: AccountId, amount: u32, transferred: u64) -> Round {
        if self.purchase_result(now, amount, transferred) is Ok {
            Round { pool: self.pool.deposit(caller, amount as nat), ..self }
        } else {
            self
        }
    }

    /// Why a draw at height `now` is refused before the oracle is asked, if
    /// it is.
    pub open spec fn draw_refusal(self, now: u32) -> Option<DrawError> {
        if !self.schedule.drawable_at(now) {
            Some(DrawError::NotYetDrawable)
        } else if self.winner is Some {
            Some(DrawError::AlreadyDrawn)
        } else if self.pool.jackpot == 0 {
            Some(DrawError::EmptyPool)
        } else {
            None
        }
    }

    /// Whom a draw at height `now` names when the oracle has answered with
    /// `outcome`.
    pub open spec fn drawn(self, now: u32, outcome: Result<[u8; 32], RandomReadErr>) -> Result<
        AccountId,
        DrawError,
    > {
        match self.draw_refusal(now) {
            Some(refusal) => Err(refusal),
            None => match outcome {
                Ok(sample) => draw_of(self.pool, sample@),
                Err(_) => Err(DrawError::RandomnessUnavailable),
            },
        }
    }

    /// The answer to a draw at height `now` when the oracle has answered
    /// with `outcome`.
    pub open spec fn draw_result(self, now: u32, outcome: Result<[u8; 32], RandomReadErr>) -> Result<
        (),
        DrawError,
    > {
        match self.drawn(now, outcome) {
            Ok(_) => Ok(()),
            Err(e) => Err(e),
        }
    }

    /// The round after a draw at height `now` when the oracle has answered
    /// with `outcome`: the winner is set if the draw names one, and nothing
    /// changes otherwise.
    pub open spec fn draw(self, now: u32, outcome: Result<[u8; 32], RandomReadErr>) -> Round {
        match self.drawn(now, outcome) {
            Ok(winner) => Round { winner: Some(winner), ..self },
            Err(_) => self,
        }
    }

    /// The answer to a payout.
    pub open spec fn payout_result(self) -> Result<Payout, PayoutError> {
        if self.paid_out {
            Err(PayoutError::RoundClosed)
        } else {
            match self.winner {
                Some(winner) => Ok(Payout { winner, amount: self.pool.jackpot as u32 }),
                None => Err(PayoutError::NoWinnerYet),
            }
        }
    }

    /// The round after a payout: paid out if the payout is accepted,
    /// unchanged otherwise.
    pub open spec fn payout(self) -> Round {
        if self.payout_result() is Ok {
            Round { paid_out: true, ..self }
        } else {
            self
        }
    }

    /// A fresh round is valid and open, and nobody holds a ticket.
    pub proof fn lemma_start_wf(now: u32)
        requires
            now + DRAWING_DELAY <= u32::MAX,
        ensures
            Round::start(now).wf(),
            Round::start(now).phase(now) == RoundPhase::Open,
    {
    }

    /// A purchase, accepted or refused, leaves a valid round.
    pub proof fn lemma_purchase_wf(self, now: u32, caller: AccountId, amount: u32, transferred: u64)
        requires
            self.wf(),
        ensures
            self.purchase(now, caller, amount, transferred).wf(),
    {
        if self.purchase_result(now, amount, transferred) is Ok {
            self.pool.lemma_deposit_wf(caller, amount as nat);
        }
    }

    /// A draw, whatever the oracle answers, leaves a valid round, and never
    /// ends with a winning number that names nobody.
    pub proof fn lemma_draw_wf(self, now: u32, outcome: Result<[u8; 32], RandomReadErr>)
        requires
            self.wf(),
        ensures
            self.draw(now, outcome).wf(),
            self.draw_result(now, outcome) != Err::<(), DrawError>(DrawError::DrawExhausted),
            self.draw_refusal(now) is None && outcome is Ok ==> self.draw_result(now, outcome) is Ok,
    {
        if self.draw_refusal(now) is None {
            if let Ok(sample) = outcome {
                lemma_draw_names_ticket_holder(self.pool, sample@);
            }
        }
    }

    /// A payout, accepted or refused, leaves a valid round.
    pub proof fn lemma_payout_wf(self)
        requires
            self.wf(),
        ensures
            self.payout().wf(),
    {
    }
}

} // verus!
