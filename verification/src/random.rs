//! The randomness oracle as the lottery sees it.

use vstd::prelude::*;

verus! {

/// Why the randomness oracle gave no sample.
#[derive(Debug, Copy, Clone, PartialEq, Eq, Structural)]
pub enum RandomReadErr {
    /// The oracle could not reach its source of randomness.
    FailGetRandomSource,
}

impl RandomReadErr {
    /// What a status code of the oracle means: 0 is success, 1 is the
    /// failure to reach the source. The oracle returns no other code.
    pub open spec fn status_of(status_code: u32) -> Result<(), RandomReadErr> {
        if status_code == 0 {
            Ok(())
        } else {
            Err(RandomReadErr::FailGetRandomSource)
        }
    }

    /// Reads a status code of the oracle.
    pub fn from_status_code(status_code: u32) -> (status: Result<(), RandomReadErr>)
        requires
            status_code <= 1,
        ensures
            status == Self::status_of(status_code),
    {
        if status_code == 0 {
            Ok(())
        } else {
            Err(RandomReadErr::FailGetRandomSource)
        }
    }
}

/// A source of random samples outside the lottery.
///
/// The lottery asks once per draw and waits for the answer. Nothing is
/// known of a sample but its length.
pub trait FetchRandom {
    /// Asks for the 32 random bytes that belong to `subject`.
    fn fetch_random(&mut self, subject: [u8; 32]) -> Result<[u8; 32], RandomReadErr>;
}

} // verus!
