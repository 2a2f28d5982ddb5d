//! What holds of every round, whatever is asked of it and in whatever
//! order.

use vstd::prelude::*;
use vstd::set_lib::{lemma_int_range, set_int_range};

use crate::account::AccountId;
use crate::clock::DRAWING_DELAY;
use crate::error::{DrawError, LedgerError, PayoutError};
use crate::ledger::accounts_of;
use crate::pool::Pool;
use crate::random::RandomReadErr;
use crate::round::{Payout, Round};

verus! {

/// One request to a round.
pub enum Request {
    /// `caller` asks for `amount` tickets at height `now` and sends
    /// `transferred` along.
    Purchase { now: u32, caller: AccountId, amount: u32, transferred: u64 },
    /// A draw is asked for at height `now`, and the oracle answers with
    /// `outcome`.
    Draw { now: u32, outcome: Result<[u8; 32], RandomReadErr> },
    /// The payout is asked for.
    Payout,
}

impl Round {
    /// The round after it has served `request`.
    pub open spec fn serve(self, request: Request) -> Round {
        match request {
            Request::Purchase { now, caller, amount, transferred } => self.purchase(
                now,
                caller,
                amount,
                transferred,
            ),
            Request::Draw { now, outcome } => self.draw(now, outcome),
            Request::Payout => self.payout(),
        }
    }

    /// The round after it has served `requests`, one after the other.
    pub open spec fn serve_all(self, requests: Seq<Request>) -> Round
        decreases requests.len(),
    {
        if requests.len() == 0 {
            self
        } else {
            self.serve_all(requests.drop_last()).serve(requests.last())
        }
    }

    /// The accounts that deposited while the round served `requests`: those
    /// of whom a purchase of at least one ticket was accepted.
    pub open spec fn depositors(self, requests: Seq<Request>) -> Set<AccountId>
        decreases requests.len(),
    {
        if requests.len() == 0 {
            Set::empty()
        } else {
            let earlier = self.depositors(requests.drop_last());
            match requests.last() {
                Request::Purchase { now, caller, amount, transferred } => {
                    if amount >= 1 && self.serve_all(requests.drop_last()).purchase_result(
                        now,
                        amount,
                        transferred,
                    ) is Ok {
                        earlier.insert(caller)
                    } else {
                        earlier
                    }
                },
                _ => earlier,
            }
        }
    }
}

/// Serving one request keeps a round valid and its schedule fixed, takes
/// no ticket away, and keeps a winner once there is one.
pub proof fn lemma_serve(round: Round, request: Request)
    requires
        round.wf(),
    ensures
        round.serve(request).wf(),
        round.serve(request).schedule == round.schedule,
        round.serve(request).pool.roster.len() >= round.pool.roster.len(),
        forall|who: AccountId| #[trigger]
            round.serve(request).pool.weight_of(who) >= round.pool.weight_of(who),
        round.winner is Some ==> round.serve(request).winner == round.winner,
        round.paid_out ==> round.serve(request) == round,
{
    match request {
        Request::Purchase { now, caller, amount, transferred } => {
            round.lemma_purchase_wf(now, caller, amount, transferred);
        },
        Request::Draw { now, outcome } => {
            round.lemma_draw_wf(now, outcome);
        },
        Request::Payout => {
            round.lemma_payout_wf();
        },
    }
}

/// Serving any requests keeps a round valid and its schedule fixed, takes
/// no ticket away, keeps a winner once there is one, and adds to the ledger
/// exactly the accounts that deposited.
pub proof fn lemma_serve_all(round: Round, requests: Seq<Request>)
    requires
        round.wf(),
    ensures
        round.serve_all(requests).wf(),
        round.serve_all(requests).schedule == round.schedule,
        forall|who: AccountId| #[trigger]
            round.serve_all(requests).pool.weight_of(who) >= round.pool.weight_of(who),
        round.winner is Some ==> round.serve_all(requests).winner == round.winner,
        round.paid_out ==> round.serve_all(requests) == round,
        round.serve_all(requests).pool.tickets.dom() == round.pool.tickets.dom().union(
            round.depositors(requests),
        ),
    decreases requests.len(),
{
    let after = round.serve_all(requests);
    if requests.len() == 0 {
        assert(after.pool.tickets.dom() =~= round.pool.tickets.dom().union(
            round.depositors(requests),
        ));
    } else {
        let before = round.serve_all(requests.drop_last());
        lemma_serve_all(round, requests.drop_last());
        lemma_serve(before, requests.last());
        assert forall|who: AccountId| #[trigger]
            after.pool.weight_of(who) >= round.pool.weight_of(who) by {
            assert(before.pool.weight_of(who) >= round.pool.weight_of(who));
        }
        assert(after.pool.tickets.dom() =~= round.pool.tickets.dom().union(
            round.depositors(requests),
        ));
    }
}

/// Whatever a round has served, its jackpot is the sum of the tickets that
/// the ledger records, each account of the ledger counted once.
pub proof fn law_jackpot_is_sum_of_tickets(round: Round, requests: Seq<Request>)
    requires
        round.wf(),
    ensures
        ({
            let pool = round.serve_all(requests).pool;
            &&& pool.jackpot == pool.cumulative(pool.roster.len())
            &&& pool.roster.no_duplicates()
            &&& pool.roster.to_set() == pool.tickets.dom()
        }),
{
    lemma_serve_all(round, requests);
    let pool = round.serve_all(requests).pool;
    assert(pool.roster.to_set() =~= pool.tickets.dom());
}

/// Nothing that a round serves takes a ticket away from anybody.
pub proof fn law_tickets_never_decrease(round: Round, requests: Seq<Request>, who: AccountId)
    requires
        round.wf(),
    ensures
        round.serve_all(requests).pool.weight_of(who) >= round.pool.weight_of(who),
{
    lemma_serve_all(round, requests);
}

/// Whatever a round has served, everybody on its roster holds at least one
/// ticket.
pub proof fn law_every_entrant_holds_a_ticket(round: Round, requests: Seq<Request>, i: int)
    requires
        round.wf(),
        0 <= i < round.serve_all(requests).pool.roster.len(),
    ensures
        ({
            let pool = round.serve_all(requests).pool;
            pool.weight_of(pool.roster[i]) >= 1
        }),
{
    lemma_serve_all(round, requests);
}

/// A purchase of no tickets, accepted or not, changes nothing: nobody joins
/// the roster without a ticket.
pub proof fn law_purchase_of_no_tickets_changes_nothing(
    round: Round,
    now: u32,
    caller: AccountId,
    transferred: u64,
)
    ensures
        round.purchase(now, caller, 0, transferred) == round,
{
}

/// An accepted purchase adds exactly the tickets bought to those of the
/// buyer, and leaves the tickets of everybody else as they are.
pub proof fn law_purchase_adds_the_tickets_bought(
    round: Round,
    now: u32,
    caller: AccountId,
    amount: u32,
    transferred: u64,
    who: AccountId,
)
    requires
        round.purchase_result(now, amount, transferred) is Ok,
    ensures
        round.purchase(now, caller, amount, transferred).pool.weight_of(who) == round.pool.weight_of(
            who,
        ) + (if who == caller {
            amount as int
        } else {
            0
        }),
        round.purchase(now, caller, amount, transferred).pool.jackpot == round.pool.jackpot
            + amount,
{
}

/// An account that never deposited since the start of the round is absent
/// from the ledger and holds no ticket.
pub proof fn law_no_tickets_before_first_deposit(
    now: u32,
    requests: Seq<Request>,
    who: AccountId,
)
    requires
        now + DRAWING_DELAY <= u32::MAX,
        !Round::start(now).depositors(requests).contains(who),
    ensures
        !Round::start(now).serve_all(requests).pool.tickets.contains_key(who),
        Round::start(now).serve_all(requests).pool.weight_of(who) == 0,
{
    let round = Round::start(now);
    Round::lemma_start_wf(now);
    lemma_serve_all(round, requests);
}

/// Whatever a round has served since its start, the roster names each
/// account that deposited exactly once: it has no duplicates, and as many
/// entries as there are such accounts.
pub proof fn law_roster_lists_depositors(now: u32, requests: Seq<Request>)
    requires
        now + DRAWING_DELAY <= u32::MAX,
    ensures
        ({
            let round = Round::start(now);
            let roster = round.serve_all(requests).pool.roster;
            &&& roster.no_duplicates()
            &&& roster.to_set() == round.depositors(requests)
            &&& round.depositors(requests).finite()
            &&& roster.len() == round.depositors(requests).len()
        }),
{
    let round = Round::start(now);
    let pool = round.serve_all(requests).pool;
    Round::lemma_start_wf(now);
    lemma_serve_all(round, requests);
    assert(pool.roster.to_set() =~= round.depositors(requests));
    pool.roster.unique_seq_to_set();
    vstd::seq_lib::seq_to_set_is_finite(pool.roster);
}

/// The two heights of a round are fixed at its start: nothing that the
/// round serves moves them, and sales always end before the draw.
pub proof fn law_schedule_is_fixed(round: Round, requests: Seq<Request>)
    requires
        round.wf(),
    ensures
        round.serve_all(requests).schedule == round.schedule,
        round.schedule.ending_height < round.schedule.drawing_height,
{
    lemma_serve_all(round, requests);
}

/// A draw before the drawing height is refused as not yet drawable,
/// whatever else holds, and changes nothing.
pub proof fn law_no_draw_before_drawing_height(
    round: Round,
    now: u32,
    outcome: Result<[u8; 32], RandomReadErr>,
)
    requires
        now < round.schedule.drawing_height,
    ensures
        round.draw_result(now, outcome) == Err::<(), DrawError>(DrawError::NotYetDrawable),
        round.draw(now, outcome) == round,
{
}

/// Once a draw has named a winner, every later draw is refused and leaves
/// the winner as drawn: as already drawn if the clock has not gone back,
/// as not yet drawable if it has.
pub proof fn law_winner_is_drawn_once(
    round: Round,
    now: u32,
    outcome: Result<[u8; 32], RandomReadErr>,
    later: u32,
    later_outcome: Result<[u8; 32], RandomReadErr>,
)
    requires
        round.wf(),
        round.draw_result(now, outcome) is Ok,
    ensures
        ({
            let drawn = round.draw(now, outcome);
            &&& drawn.winner is Some
            &&& drawn.draw(later, later_outcome) == drawn
            &&& later >= now ==> drawn.draw_result(later, later_outcome) == Err::<(), DrawError>(
                DrawError::AlreadyDrawn,
            )
            &&& later < now ==> drawn.draw_result(later, later_outcome) is Err
        }),
{
}

/// A winner, once set, stays: nothing that the round serves names another
/// or none.
pub proof fn law_winner_is_never_reset(round: Round, requests: Seq<Request>)
    requires
        round.wf(),
        round.winner is Some,
    ensures
        round.serve_all(requests).winner == round.winner,
{
    lemma_serve_all(round, requests);
}

/// A draw on a pool without tickets names nobody: it is refused, as an
/// empty pool once the drawing height is reached, and no winner is set.
pub proof fn law_empty_pool_has_no_winner(
    round: Round,
    now: u32,
    outcome: Result<[u8; 32], RandomReadErr>,
)
    requires
        round.wf(),
        round.pool.jackpot == 0,
    ensures
        round.draw_result(now, outcome) is Err,
        round.schedule.drawable_at(now) ==> round.draw_result(now, outcome) == Err::<(), DrawError>(
            DrawError::EmptyPool,
        ),
        round.draw(now, outcome) == round,
        round.draw(now, outcome).winner is None,
{
    if let Some(winner) = round.winner {
        let i = choose|i: int| 0 <= i < round.pool.roster.len() && round.pool.roster[i] == winner;
        round.pool.lemma_cumulative_monotonic((i + 1) as nat, round.pool.roster.len());
    }
}

/// A draw that is not refused beforehand and gets a sample names a winner
/// who is on the roster and holds a ticket; the winning number never falls
/// on nobody.
pub proof fn law_winner_holds_a_ticket(round: Round, now: u32, sample: [u8; 32])
    requires
        round.wf(),
        round.draw_refusal(now) is None,
    ensures
        ({
            let drawn = round.draw(now, Ok(sample));
            &&& round.draw_result(now, Ok(sample)) is Ok
            &&& drawn.winner is Some
            &&& drawn.pool == round.pool
            &&& drawn.pool.roster.contains(drawn.winner->0)
            &&& drawn.pool.weight_of(drawn.winner->0) > 0
        }),
{
    round.lemma_draw_wf(now, Ok(sample));
}

/// An oracle that fails leaves the round as it was, to be drawn again.
pub proof fn law_failed_oracle_changes_nothing(round: Round, now: u32, failure: RandomReadErr)
    requires
        round.draw_refusal(now) is None,
    ensures
        round.draw_result(now, Err(failure)) == Err::<(), DrawError>(
            DrawError::RandomnessUnavailable,
        ),
        round.draw(now, Err(failure)) == round,
{
}

/// There is no payout before a winner is drawn, and the payout of a drawn
/// round owes the whole jackpot to the winner.
pub proof fn law_payout_needs_a_winner(round: Round)
    requires
        round.wf(),
        !round.paid_out,
    ensures
        round.winner is None ==> round.payout_result() == Err::<Payout, PayoutError>(
            PayoutError::NoWinnerYet,
        ) && round.payout() == round,
        round.winner matches Some(winner) ==> round.payout_result() == Ok::<Payout, PayoutError>(
            Payout { winner, amount: round.pool.jackpot as u32 },
        ) && round.payout().paid_out,
{
}

/// After the payout the round is over: every purchase, draw and payout is
/// refused, at every height, and changes nothing.
pub proof fn law_nothing_after_payout(
    round: Round,
    now: u32,
    caller: AccountId,
    amount: u32,
    transferred: u64,
    outcome: Result<[u8; 32], RandomReadErr>,
)
    requires
        round.wf(),
        round.payout_result() is Ok,
    ensures
        ({
            let paid = round.payout();
            &&& paid.purchase_result(now, amount, transferred) == Err::<(), LedgerError>(
                LedgerError::RoundClosed,
            )
            &&& paid.purchase(now, caller, amount, transferred) == paid
            &&& paid.draw_result(now, outcome) is Err
            &&& paid.schedule.drawable_at(now) ==> paid.draw_result(now, outcome) == Err::<
                (),
                DrawError,
            >(DrawError::AlreadyDrawn)
            &&& paid.draw(now, outcome) == paid
            &&& paid.payout_result() == Err::<Payout, PayoutError>(PayoutError::RoundClosed)
            &&& paid.payout() == paid
        }),
{
}

/// After the payout nothing that the round serves changes anything.
pub proof fn law_payout_is_final(round: Round, requests: Seq<Request>)
    requires
        round.wf(),
        round.paid_out,
    ensures
        round.serve_all(requests) == round,
{
    lemma_serve_all(round, requests);
}

/// No ticket is sold once a winner is drawn, whatever the clock says.
pub proof fn law_no_purchase_after_draw(
    round: Round,
    now: u32,
    caller: AccountId,
    amount: u32,
    transferred: u64,
)
    requires
        round.winner is Some,
    ensures
        round.purchase_result(now, amount, transferred) == Err::<(), LedgerError>(
            LedgerError::RoundClosed,
        ),
        round.purchase(now, caller, amount, transferred) == round,
{
}

/// A round rebuilt from the parts of a round is that round: the winner,
/// the schedule, whether it is paid out, and the entrants with the tickets
/// they hold say all there is to say.
pub proof fn law_round_is_determined_by_its_parts(
    round: Round,
    rebuilt: Round,
    entries: Seq<(AccountId, u32)>,
)
    requires
        round.wf(),
        rebuilt.wf(),
        accounts_of(entries) == round.pool.roster,
        forall|i: int|
            0 <= i < entries.len() ==> (#[trigger] entries[i]).1 == round.pool.weight_of(
                round.pool.roster[i],
            ),
        rebuilt.winner == round.winner,
        rebuilt.schedule == round.schedule,
        rebuilt.paid_out == round.paid_out,
        rebuilt.pool.roster == accounts_of(entries),
        forall|i: int|
            0 <= i < entries.len() ==> rebuilt.pool.weight_of((#[trigger] entries[i]).0)
                == entries[i].1,
    ensures
        rebuilt == round,
{
    assert forall|i: int| 0 <= i < round.pool.roster.len() implies round.pool.weight_of(
        #[trigger] round.pool.roster[i],
    ) == rebuilt.pool.weight_of(round.pool.roster[i]) by {
        assert(entries[i].0 == accounts_of(entries)[i]);
    }
    round.pool.lemma_determined_by_entrants(rebuilt.pool);
}

/// Of the winning numbers from 1 to the jackpot, an entrant is named by
/// exactly as many as the entrant holds tickets.
pub proof fn law_chance_is_proportional_to_tickets(pool: Pool, i: int)
    requires
        pool.wf(),
        0 <= i < pool.roster.len(),
    ensures
        ({
            let numbers = Set::new(|r: int| r >= 0 && pool.selects(i, r as nat));
            &&& numbers.finite()
            &&& numbers.len() == pool.weight_of(pool.roster[i])
            &&& forall|r: int| #[trigger] numbers.contains(r) ==> 1 <= r <= pool.jackpot
        }),
{
    let numbers = Set::new(|r: int| r >= 0 && pool.selects(i, r as nat));
    let lo = pool.cumulative(i as nat) as int + 1;
    let hi = pool.cumulative((i + 1) as nat) as int + 1;
    lemma_int_range(lo, hi);
    assert(numbers =~= set_int_range(lo, hi));
    pool.lemma_cumulative_monotonic((i + 1) as nat, pool.roster.len());
}

} // verus!
