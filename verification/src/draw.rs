//! The draw engine: from one random sample to one winner, with a chance
//! proportional to the tickets held.

use vstd::arithmetic::div_mod::{lemma_mod_decreases, lemma_mul_mod_noop_left};
use vstd::prelude::*;

use crate::account::AccountId;
use crate::error::DrawError;
use crate::ledger::Ledger;
use crate::pool::Pool;

verus! {

/// Byte `k` of `x` written with the most significant byte first.
pub open spec fn be_byte(x: u32, k: int) -> u8 {
    if k == 0 {
        (x / 0x100_0000) as u8
    } else if k == 1 {
        ((x / 0x1_0000) % 0x100) as u8
    } else if k == 2 {
        ((x / 0x100) % 0x100) as u8
    } else {
        (x % 0x100) as u8
    }
}

/// The subject that the randomness oracle is asked about when `jackpot`
/// tickets are sold: the four bytes of the jackpot, most significant first,
/// eight times over.
pub open spec fn subject_of(jackpot: u32) -> Seq<u8> {
    Seq::new(32, |i: int| be_byte(jackpot, i % 4))
}

/// The winning number that a random sample gives when `total` tickets are
/// sold: the product of the first four bytes of the sample, kept to eight
/// bits, reduced modulo `total`, plus one.
pub open spec fn winning_number_of(sample: Seq<u8>, total: nat) -> nat {
    (((sample[0] * sample[1] * sample[2] * sample[3]) % 0x100) % (total as int) + 1) as nat
}

/// What a draw on `pool` with `sample` yields.
pub open spec fn draw_of(pool: Pool, sample: Seq<u8>) -> Result<AccountId, DrawError> {
    if pool.jackpot == 0 {
        Err(DrawError::EmptyPool)
    } else {
        match pool.winner_at(winning_number_of(sample, pool.jackpot)) {
            Some(winner) => Ok(winner),
            None => Err(DrawError::DrawExhausted),
        }
    }
}

/// The winning number lies between 1 and the number of tickets sold.
pub proof fn lemma_winning_number_in_range(sample: Seq<u8>, total: nat)
    requires
        total > 0,
    ensures
        1 <= winning_number_of(sample, total) <= total,
        winning_number_of(sample, total) <= 0x100,
{
    let kept = ((sample[0] * sample[1] * sample[2] * sample[3]) % 0x100) as nat;
    lemma_mod_decreases(kept, total);
}

/// A draw on a well-formed pool with tickets names a winner, who is on the
/// roster and holds at least one ticket.
pub proof fn lemma_draw_names_ticket_holder(pool: Pool, sample: Seq<u8>)
    requires
        pool.wf(),
        pool.jackpot > 0,
    ensures
        draw_of(pool, sample) is Ok,
        pool.roster.contains(draw_of(pool, sample)->Ok_0),
        pool.weight_of(draw_of(pool, sample)->Ok_0) > 0,
{
    let r = winning_number_of(sample, pool.jackpot);
    lemma_winning_number_in_range(sample, pool.jackpot);
    pool.lemma_winner_exists(r);
    pool.lemma_winner_holds_tickets(r);
}

/// Computes the subject that the randomness oracle is asked about.
pub fn draw_subject(jackpot: u32) -> (subject: [u8; 32])
    ensures
        subject@ == subject_of(jackpot),
{
    let bytes: [u8; 4] = [
        (jackpot / 0x100_0000) as u8,
        ((jackpot / 0x1_0000) % 0x100) as u8,
        ((jackpot / 0x100) % 0x100) as u8,
        (jackpot % 0x100) as u8,
    ];
    let mut subject: [u8; 32] = [0u8; 32];
    let mut i: usize = 0;
    while i < 32
        invariant
            i <= 32,
            bytes@[0] == be_byte(jackpot, 0),
            bytes@[1] == be_byte(jackpot, 1),
            bytes@[2] == be_byte(jackpot, 2),
            bytes@[3] == be_byte(jackpot, 3),
            forall|j: int| 0 <= j < i ==> subject@[j] == be_byte(jackpot, j % 4),
        decreases 32 - i,
    {
        subject[i] = bytes[i % 4];
        i += 1;
    }
    assert(subject@ =~= subject_of(jackpot));
    subject
}

/// Computes the winning number from a random sample.
pub fn winning_number(sample: &[u8; 32], total: u32) -> (r: u32)
    requires
        total > 0,
    ensures
        r == winning_number_of(sample@, total as nat),
        1 <= r <= total,
{
    let product: u8 = sample[0].wrapping_mul(sample[1]).wrapping_mul(sample[2]).wrapping_mul(
        sample[3],
    );
    proof {
        let a = sample@[0] as int;
        let b = sample@[1] as int;
        let c = sample@[2] as int;
        let d = sample@[3] as int;
        lemma_mul_mod_noop_left(a * b, c, 0x100);
        lemma_mul_mod_noop_left(a * b * c, d, 0x100);
        assert(product == (a * b * c * d) % 0x100);
    }
    (product as u32) % total + 1
}

/// Finds the entrant on whose tickets the winning number `r` falls.
///
/// The roster is walked in the order of first deposits, and `r` is counted
/// down by the tickets of each entrant passed. A number that no ticket
/// carries, zero or one above the jackpot, names nobody.
pub fn select_winner(ledger: &Ledger, r: u32) -> (result: Result<AccountId, DrawError>)
    requires
        ledger.wf(),
    ensures
        result == match ledger@.winner_at(r as nat) {
            Some(winner) => Ok::<AccountId, DrawError>(winner),
            None => Err::<AccountId, DrawError>(DrawError::DrawExhausted),
        },
        result is Ok <==> 1 <= r <= ledger@.jackpot,
{
    proof {
        ledger.lemma_wf();
        ledger@.lemma_winner_exists(r as nat);
    }
    if r == 0 {
        return Err(DrawError::DrawExhausted);
    }
    let n = ledger.entrant_count();
    let mut winning_number: u32 = r;
    let mut i: usize = 0;
    while i < n
        invariant
            ledger.wf(),
            n == ledger@.roster.len(),
            i <= n,
            winning_number >= 1,
            winning_number + ledger@.cumulative(i as nat) == r,
        decreases n - i,
    {
        match ledger.entrant(i) {
            Some((who, weight)) => {
                if winning_number <= weight {
                    proof {
                        assert(ledger@.selects(i as int, r as nat));
                        ledger@.lemma_winner_at(i as int, r as nat);
                        ledger.lemma_wf();
                        ledger@.lemma_winner_exists(r as nat);
                    }
                    return Ok(who);
                }
                winning_number -= weight;
            },
            None => {},
        }
        i += 1;
    }
    Err(DrawError::DrawExhausted)
}

/// Draws the winner of `ledger` from one random sample.
pub fn draw(ledger: &Ledger, sample: &[u8; 32]) -> (result: Result<AccountId, DrawError>)
    requires
        ledger.wf(),
    ensures
        result == draw_of(ledger@, sample@),
        ledger@.jackpot == 0 <==> result == Err::<AccountId, DrawError>(DrawError::EmptyPool),
        ledger@.jackpot > 0 <==> result is Ok,
{
    let total = ledger.total();
    if total == 0 {
        return Err(DrawError::EmptyPool);
    }
    proof {
        ledger.lemma_wf();
        lemma_draw_names_ticket_holder(ledger@, sample@);
    }
    let r = winning_number(sample, total);
    select_winner(ledger, r)
}

} // verus!
