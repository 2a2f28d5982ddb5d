//! The ticket ledger: tickets per account, the entrants in the order of
//! their first deposit, and the running jackpot.

use vstd::prelude::*;

use crate::account::AccountId;
use crate::error::LedgerError;
use crate::pool::Pool;

verus! {

/// The tickets sold in one round.
pub struct Ledger {
    /// The entrants, in the order of their first deposit.
    entrants: Vec<AccountId>,
    /// `tickets[i]` is the number of tickets that `entrants[i]` holds.
    tickets: Vec<u32>,
    /// The number of tickets sold.
    jackpot: u32,
}

/// The accounts of `entries`, in their order.
pub open spec fn accounts_of(entries: Seq<(AccountId, u32)>) -> Seq<AccountId> {
    Seq::new(entries.len(), |i: int| entries[i].0)
}

/// Whether each of `entries` holds at least one ticket.
pub open spec fn all_hold_tickets(entries: Seq<(AccountId, u32)>) -> bool {
    forall|i: int| 0 <= i < entries.len() ==> (#[trigger] entries[i]).1 >= 1
}

/// The tickets of `entries` together.
pub open spec fn tickets_in(entries: Seq<(AccountId, u32)>) -> nat
    decreases entries.len(),
{
    if entries.len() == 0 {
        0
    } else {
        tickets_in(entries.drop_last()) + entries.last().1 as nat
    }
}

/// The first entries never hold more tickets than all of them.
pub proof fn lemma_tickets_in_monotonic(entries: Seq<(AccountId, u32)>, n: int)
    requires
        0 <= n <= entries.len(),
    ensures
        tickets_in(entries.take(n)) <= tickets_in(entries),
    decreases entries.len(),
{
    if n < entries.len() {
        lemma_tickets_in_monotonic(entries.drop_last(), n);
        assert(entries.drop_last().take(n) == entries.take(n));
    } else {
        assert(entries.take(n) == entries);
    }
}

impl View for Ledger {
    type V = Pool;

    closed spec fn view(&self) -> Pool {
        Pool {
            roster: self.entrants@,
            tickets: Map::new(
                |who: AccountId| self.entrants@.contains(who),
                |who: AccountId| self.tickets@[self.entrants@.index_of(who)] as nat,
            ),
            jackpot: self.jackpot as nat,
        }
    }
}

impl Ledger {
    /// The validity of a ledger: its pool is well-formed.
    pub closed spec fn wf(&self) -> bool {
        &&& self.entrants@.len() == self.tickets@.len()
        &&& self@.wf()
    }

    /// A valid ledger shows a well-formed pool, whose numbers fit the
    /// machine's.
    pub broadcast proof fn lemma_wf(&self)
        requires
            #[trigger] self.wf(),
        ensures
            self@.wf(),
            self@.jackpot <= u32::MAX,
            forall|who: AccountId| #[trigger] self@.weight_of(who) <= u32::MAX,
    {
    }

    proof fn lemma_weight_at(&self, i: int)
        requires
            self.wf(),
            0 <= i < self.entrants@.len(),
        ensures
            self@.tickets.contains_key(self.entrants@[i]),
            self@.weight_of(self.entrants@[i]) == self.tickets@[i],
    {
        let who = self.entrants@[i];
        assert(self.entrants@.contains(who));
        let k = self.entrants@.index_of(who);
        assert(k == i);
    }

    /// The ledger of a round in which nobody has deposited yet.
    pub fn new() -> (ledger: Ledger)
        ensures
            ledger.wf(),
            ledger@ == Pool::empty(),
    {
        let ledger = Ledger { entrants: Vec::new(), tickets: Vec::new(), jackpot: 0 };
        proof {
            assert(ledger@.tickets =~= Map::<AccountId, nat>::empty());
            assert(ledger@.roster =~= Seq::<AccountId>::empty());
        }
        ledger
    }

    /// The position of `who` on the roster.
    fn position(&self, who: &AccountId) -> (at: Option<usize>)
        requires
            self.wf(),
        ensures
            match at {
                Some(i) => i < self.entrants@.len() && self.entrants@[i as int] == *who,
                None => !self.entrants@.contains(*who),
            },
    {
        let mut i: usize = 0;
        while i < self.entrants.len()
            invariant
                i <= self.entrants@.len(),
                forall|j: int| 0 <= j < i ==> self.entrants@[j] != *who,
            decreases self.entrants@.len() - i,
        {
            if self.entrants[i].same(who) {
                return Some(i);
            }
            i += 1;
        }
        None
    }

    /// The tickets that `who` holds, or `None` if `who` never deposited.
    pub fn get_weight(&self, who: &AccountId) -> (weight: Option<u32>)
        requires
            self.wf(),
        ensures
            weight is Some <==> self@.tickets.contains_key(*who),
            weight is Some ==> weight->0 == self@.tickets[*who],
    {
        match self.position(who) {
            Some(i) => {
                proof {
                    self.lemma_weight_at(i as int);
                }
                Some(self.tickets[i])
            },
            None => None,
        }
    }

    /// The number of tickets sold: the jackpot.
    pub fn total(&self) -> (total: u32)
        ensures
            total == self@.jackpot,
    {
        self.jackpot
    }

    /// The number of entrants.
    pub fn entrant_count(&self) -> (n: usize)
        ensures
            n == self@.roster.len(),
    {
        self.entrants.len()
    }

    /// The entrant at position `i` of the roster with the tickets held, or
    /// `None` past the end of the roster.
    pub fn entrant(&self, i: usize) -> (entry: Option<(AccountId, u32)>)
        requires
            self.wf(),
        ensures
            match entry {
                Some((who, weight)) => i < self@.roster.len() && who == self@.roster[i as int]
                    && weight == self@.weight_of(who),
                None => i >= self@.roster.len(),
            },
    {
        if i < self.entrants.len() {
            proof {
                self.lemma_weight_at(i as int);
            }
            Some((self.entrants[i], self.tickets[i]))
        } else {
            None
        }
    }

    /// Records that `who` buys `declared_amount` tickets and has sent
    /// `transferred_value` for them.
    ///
    /// A ticket costs one unit, and the value sent must exceed the price of
    /// the tickets. A refused deposit changes nothing, and neither does a
    /// deposit for no tickets: only a ticket puts an account on the roster.
    pub fn deposit(
        &mut self,
        who: AccountId,
        declared_amount: u32,
        transferred_value: u64,
    ) -> (result: Result<(), LedgerError>)
        requires
            old(self).wf(),
            transferred_value > declared_amount ==> old(self)@.jackpot + declared_amount
                <= u32::MAX,
        ensures
            final(self).wf(),
            transferred_value > declared_amount ==> result == Ok::<(), LedgerError>(())
                && final(self)@ == old(self)@.deposit(who, declared_amount as nat),
            transferred_value <= declared_amount ==> result == Err::<(), LedgerError>(
                LedgerError::InsufficientTransfer,
            ) && *final(self) == *old(self),
            declared_amount == 0 ==> *final(self) == *old(self),
    {
        if transferred_value <= declared_amount as u64 {
            return Err(LedgerError::InsufficientTransfer);
        }
        if declared_amount > 0 {
            self.record(who, declared_amount);
        }
        Ok(())
    }

    /// Adds `amount` tickets to those of `who`, who joins the roster with
    /// the first of them.
    fn record(&mut self, who: AccountId, amount: u32)
        requires
            old(self).wf(),
            amount >= 1,
            old(self)@.jackpot + amount <= u32::MAX,
        ensures
            final(self).wf(),
            final(self)@ == old(self)@.deposit(who, amount as nat),
    {
        let ghost before = *self;
        let ghost target = self@.deposit(who, amount as nat);
        proof {
            self@.lemma_deposit_wf(who, amount as nat);
        }
        match self.position(&who) {
            Some(i) => {
                proof {
                    self.lemma_weight_at(i as int);
                    self.lemma_weight_le_jackpot(i as int);
                }
                let held = self.tickets[i];
                self.tickets.set(i, held + amount);
                self.jackpot = self.jackpot + amount;
                proof {
                    assert forall|a: AccountId| self@.tickets.contains_key(a) implies #[trigger]
                        self@.tickets[a] == target.tickets[a] by {
                        let k = self.entrants@.index_of(a);
                        before.lemma_weight_at(k);
                    }
                    assert(self@.tickets =~= target.tickets);
                }
            },
            None => {
                self.entrants.push(who);
                self.tickets.push(amount);
                self.jackpot = self.jackpot + amount;
                proof {
                    assert forall|a: AccountId|
                        self@.tickets.contains_key(a) <==> target.tickets.contains_key(a) by {
                        if self.entrants@.contains(a) {
                            let k = self.entrants@.index_of(a);
                            if k < before.entrants@.len() {
                                assert(before.entrants@[k] == a);
                            }
                        }
                        if before.entrants@.contains(a) {
                            let k = before.entrants@.index_of(a);
                            assert(self.entrants@[k] == a);
                        }
                    }
                    assert forall|a: AccountId| self@.tickets.contains_key(a) implies #[trigger]
                        self@.tickets[a] == target.tickets[a] by {
                        let k = self.entrants@.index_of(a);
                        if k < before.entrants@.len() {
                            assert(before.entrants@[k] == a);
                            before.lemma_weight_at(k);
                            assert(self.entrants@.index_of(a) == before.entrants@.index_of(a));
                        }
                    }
                    assert(self@.tickets =~= target.tickets);
                }
            },
        }
        assert(self@ == target);
    }

    /// The entrants with the tickets they hold, in the order of the roster.
    pub fn entries(&self) -> (entries: Vec<(AccountId, u32)>)
        requires
            self.wf(),
        ensures
            accounts_of(entries@) == self@.roster,
            forall|i: int|
                0 <= i < entries@.len() ==> (#[trigger] entries@[i]).1 == self@.weight_of(
                    self@.roster[i],
                ),
            tickets_in(entries@) == self@.jackpot,
            all_hold_tickets(entries@),
    {
        let mut entries: Vec<(AccountId, u32)> = Vec::new();
        let mut i: usize = 0;
        while i < self.entrants.len()
            invariant
                self.wf(),
                i <= self.entrants@.len(),
                entries@.len() == i,
                tickets_in(entries@) == self@.cumulative(i as nat),
                forall|j: int| 0 <= j < i ==> (#[trigger] entries@[j]).0 == self.entrants@[j],
                forall|j: int|
                    0 <= j < i ==> (#[trigger] entries@[j]).1 == self@.weight_of(self.entrants@[j]),
            decreases self.entrants@.len() - i,
        {
            proof {
                self.lemma_weight_at(i as int);
            }
            let ghost listed = entries@;
            entries.push((self.entrants[i], self.tickets[i]));
            assert(entries@.drop_last() == listed);
            i += 1;
        }
        assert(accounts_of(entries@) =~= self@.roster);
        assert forall|j: int| 0 <= j < entries@.len() implies (#[trigger] entries@[j]).1 >= 1 by {
            assert(self@.weight_of(self@.roster[j]) >= 1);
        }
        entries
    }

    /// Builds the ledger that holds `entries`: each account with the tickets
    /// it holds, in the order of the roster.
    ///
    /// There is no such ledger where an account occurs twice or holds no
    /// ticket, or where the tickets outnumber what the jackpot can count.
    pub fn from_entries(entries: &Vec<(AccountId, u32)>) -> (restored: Option<Ledger>)
        ensures
            restored is Some <==> accounts_of(entries@).no_duplicates() && all_hold_tickets(
                entries@,
            ) && tickets_in(entries@) <= u32::MAX,
            restored matches Some(ledger) ==> {
                &&& ledger.wf()
                &&& ledger@.roster == accounts_of(entries@)
                &&& ledger@.jackpot == tickets_in(entries@)
                &&& forall|i: int|
                    0 <= i < entries@.len() ==> ledger@.weight_of((#[trigger] entries@[i]).0)
                        == entries@[i].1
            },
    {
        let mut ledger = Ledger::new();
        let mut i: usize = 0;
        while i < entries.len()
            invariant
                i <= entries@.len(),
                ledger.wf(),
                ledger@.roster == accounts_of(entries@.take(i as int)),
                ledger@.jackpot == tickets_in(entries@.take(i as int)),
                forall|j: int|
                    0 <= j < i ==> ledger@.weight_of((#[trigger] entries@[j]).0) == entries@[j].1,
                forall|j: int| 0 <= j < i ==> (#[trigger] entries@[j]).1 >= 1,
            decreases entries@.len() - i,
        {
            let (who, weight) = entries[i];
            let ghost seen = entries@.take(i as int);
            let ghost next = entries@.take(i + 1);
            proof {
                ledger.lemma_wf();
                assert(next.drop_last() == seen);
                assert(next.last() == entries@[i as int]);
                lemma_tickets_in_monotonic(entries@, i + 1);
            }
            if ledger.position(&who).is_some() {
                proof {
                    let k = choose|k: int| 0 <= k < seen.len() && accounts_of(seen)[k] == who;
                    assert(accounts_of(entries@)[k] == accounts_of(entries@)[i as int]);
                }
                return None;
            }
            if weight == 0 {
                return None;
            }
            if weight > u32::MAX - ledger.jackpot {
                return None;
            }
            let ghost before = ledger@;
            ledger.record(who, weight);
            proof {
                assert(ledger@.roster == accounts_of(next));
                assert forall|j: int| 0 <= j < i + 1 implies ledger@.weight_of(
                    (#[trigger] entries@[j]).0,
                ) == entries@[j].1 by {
                    if j < i {
                        assert(accounts_of(seen)[j] == entries@[j].0);
                        assert(before.roster.contains(entries@[j].0));
                    }
                }
            }
            i += 1;
        }
        proof {
            ledger.lemma_wf();
            assert(entries@.take(i as int) == entries@);
        }
        Some(ledger)
    }

    proof fn lemma_weight_le_jackpot(&self, i: int)
        requires
            self.wf(),
            0 <= i < self.entrants@.len(),
        ensures
            self@.weight_of(self.entrants@[i]) <= self@.jackpot,
    {
        self@.lemma_cumulative_monotonic((i + 1) as nat, self@.roster.len());
    }
}

} // verus!
