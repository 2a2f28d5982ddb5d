//! The ways in which an operation on the lottery is refused.

use vstd::prelude::*;

verus! {

/// Why a purchase of tickets was refused.
#[derive(Clone, Copy, Debug, PartialEq, Eq, Structural)]
pub enum LedgerError {
    /// The round does not take deposits at this time.
    RoundClosed,
    /// The value sent with the purchase does not exceed the number of
    /// tickets asked for.
    InsufficientTransfer,
}

/// Why a draw was refused or did not name a winner.
#[derive(Clone, Copy, Debug, PartialEq, Eq, Structural)]
pub enum DrawError {
    /// A winner has been drawn before.
    AlreadyDrawn,
    /// The clock has not reached the drawing height.
    NotYetDrawable,
    /// No ticket has been sold.
    EmptyPool,
    /// The randomness oracle did not answer.
    RandomnessUnavailable,
    /// The winning number fell on nobody's tickets.
    DrawExhausted,
}

/// Why a payout was refused.
#[derive(Clone, Copy, Debug, PartialEq, Eq, Structural)]
pub enum PayoutError {
    /// No winner has been drawn yet.
    NoWinnerYet,
    /// The jackpot has been paid out before.
    RoundClosed,
}

} // verus!
