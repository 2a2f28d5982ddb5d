//! The mathematical model of the ticket pool: who entered, in which order,
//! how many tickets each entrant holds, and the jackpot.

use vstd::prelude::*;

use crate::account::AccountId;

verus! {

/// The ticket pool as the contracts of this crate speak of it.
pub struct Pool {
    /// The entrants, in the order of their first deposit.
    pub roster: Seq<AccountId>,
    /// The tickets held by each account that ever deposited.
    pub tickets: Map<AccountId, nat>,
    /// The number of tickets sold.
    pub jackpot: nat,
}

impl Pool {
    /// The pool before any deposit.
    pub open spec fn empty() -> Pool {
        Pool { roster: Seq::empty(), tickets: Map::empty(), jackpot: 0 }
    }

    /// The tickets `who` holds; none for an account that never deposited.
    pub open spec fn weight_of(self, who: AccountId) -> nat {
        if self.tickets.contains_key(who) {
            self.tickets[who]
        } else {
            0
        }
    }

    /// The tickets held by the first `n` entrants together.
    pub open spec fn cumulative(self, n: nat) -> nat
        decreases n,
    {
        if n == 0 {
            0
        } else {
            self.cumulative((n - 1) as nat) + self.weight_of(self.roster[n - 1])
        }
    }

    /// What holds of every pool that deposits have built: the roster names
    /// each account of the ledger exactly once, everybody on it holds at
    /// least one ticket, and the jackpot is the sum of all tickets held.
    pub open spec fn wf(self) -> bool {
        &&& self.roster.no_duplicates()
        &&& forall|who: AccountId| self.tickets.contains_key(who) <==> self.roster.contains(who)
        &&& forall|i: int|
            0 <= i < self.roster.len() ==> #[trigger] self.weight_of(self.roster[i]) >= 1
        &&& self.jackpot == self.cumulative(self.roster.len())
    }

    /// The pool after `who` has bought `amount` tickets.
    ///
    /// The first ticket of an account puts it on the roster. A purchase of
    /// no tickets is no deposit: it leaves the pool as it is.
    pub open spec fn deposit(self, who: AccountId, amount: nat) -> Pool {
        if amount == 0 {
            self
        } else {
            Pool {
                roster: if self.tickets.contains_key(who) {
                    self.roster
                } else {
                    self.roster.push(who)
                },
                tickets: self.tickets.insert(who, self.weight_of(who) + amount),
                jackpot: self.jackpot + amount,
            }
        }
    }

    /// Whether the winning number `r` falls on the tickets of the entrant at
    /// position `i`: the entrants before `i` hold fewer than `r` tickets
    /// together, the entrants up to and including `i` hold at least `r`.
    pub open spec fn selects(self, i: int, r: nat) -> bool {
        &&& 0 <= i < self.roster.len()
        &&& self.cumulative(i as nat) < r <= self.cumulative((i + 1) as nat)
    }

    /// The entrant on whose tickets the winning number `r` falls, if any.
    pub open spec fn winner_at(self, r: nat) -> Option<AccountId> {
        if exists|i: int| self.selects(i, r) {
            Some(self.roster[choose|i: int| self.selects(i, r)])
        } else {
            None
        }
    }

    /// The tickets of the first entrants never outnumber those of more
    /// entrants.
    pub proof fn lemma_cumulative_monotonic(self, m: nat, n: nat)
        requires
            m <= n,
        ensures
            self.cumulative(m) <= self.cumulative(n),
        decreases n,
    {
        if m < n {
            self.lemma_cumulative_monotonic(m, (n - 1) as nat);
        }
    }

    /// A winning number falls on the tickets of at most one entrant.
    pub proof fn lemma_selects_unique(self, i: int, j: int, r: nat)
        requires
            self.selects(i, r),
            self.selects(j, r),
        ensures
            i == j,
    {
        if i < j {
            self.lemma_cumulative_monotonic((i + 1) as nat, j as nat);
        } else if j < i {
            self.lemma_cumulative_monotonic((j + 1) as nat, i as nat);
        }
    }

    /// The winner for `r` is the entrant at `i` once `r` falls on that
    /// entrant's tickets.
    pub proof fn lemma_winner_at(self, i: int, r: nat)
        requires
            self.selects(i, r),
        ensures
            self.winner_at(r) == Some(self.roster[i]),
    {
        let j = choose|j: int| self.selects(j, r);
        self.lemma_selects_unique(i, j, r);
    }

    /// Every number from 1 to the jackpot falls on the tickets of some
    /// entrant, and no other number does.
    pub proof fn lemma_winner_exists(self, r: nat)
        requires
            self.jackpot == self.cumulative(self.roster.len()),
        ensures
            (1 <= r <= self.jackpot) <==> (exists|i: int| self.selects(i, r)),
    {
        if 1 <= r <= self.jackpot {
            self.lemma_find(self.roster.len(), r);
        }
        if exists|i: int| self.selects(i, r) {
            let i = choose|i: int| self.selects(i, r);
            self.lemma_cumulative_monotonic((i + 1) as nat, self.roster.len());
        }
    }

    /// Whoever a winning number names is on the roster and holds a ticket.
    pub proof fn lemma_winner_holds_tickets(self, r: nat)
        ensures
            self.winner_at(r) is Some ==> self.roster.contains(self.winner_at(r)->0)
                && self.weight_of(self.winner_at(r)->0) > 0,
    {
        if exists|i: int| self.selects(i, r) {
            let i = choose|i: int| self.selects(i, r);
            assert(self.roster[i] == self.winner_at(r)->0);
        }
    }

    proof fn lemma_find(self, n: nat, r: nat)
        requires
            n <= self.roster.len(),
            1 <= r <= self.cumulative(n),
        ensures
            exists|i: int| 0 <= i < n && self.selects(i, r),
        decreases n,
    {
        if n > 0 {
            if r <= self.cumulative((n - 1) as nat) {
                self.lemma_find((n - 1) as nat, r);
            } else {
                assert(self.selects(n - 1, r));
            }
        }
    }

    /// The running sums of two pools agree as far as their entrants and
    /// the tickets of these agree.
    pub proof fn lemma_cumulative_agrees(self, other: Pool, n: nat)
        requires
            n <= self.roster.len(),
            n <= other.roster.len(),
            forall|i: int| 0 <= i < n ==> self.roster[i] == other.roster[i],
            forall|i: int|
                0 <= i < n ==> self.weight_of(#[trigger] self.roster[i]) == other.weight_of(
                    self.roster[i],
                ),
        ensures
            self.cumulative(n) == other.cumulative(n),
        decreases n,
    {
        if n > 0 {
            self.lemma_cumulative_agrees(other, (n - 1) as nat);
            assert(self.roster[n - 1] == other.roster[n - 1]);
        }
    }

    /// A well-formed pool is determined by its roster and the tickets of
    /// those on it.
    pub proof fn lemma_determined_by_entrants(self, other: Pool)
        requires
            self.wf(),
            other.wf(),
            self.roster == other.roster,
            forall|i: int|
                0 <= i < self.roster.len() ==> self.weight_of(#[trigger] self.roster[i])
                    == other.weight_of(self.roster[i]),
        ensures
            self == other,
    {
        self.lemma_cumulative_agrees(other, self.roster.len());
        assert forall|who: AccountId| self.tickets.contains_key(who) implies #[trigger]
            self.tickets[who] == other.tickets[who] by {
            assert(self.roster.contains(who));
            let i = choose|i: int| 0 <= i < self.roster.len() && self.roster[i] == who;
            assert(self.weight_of(self.roster[i]) == other.weight_of(self.roster[i]));
            assert(other.roster.contains(who));
        }
        assert forall|who: AccountId|
            self.tickets.contains_key(who) <==> other.tickets.contains_key(who) by {
            assert(self.tickets.contains_key(who) <==> self.roster.contains(who));
            assert(other.tickets.contains_key(who) <==> other.roster.contains(who));
        }
        assert(self.tickets =~= other.tickets);
    }

    /// How a deposit moves the running sums: every sum that reaches the
    /// depositor grows by the amount, the others stay.
    pub proof fn lemma_deposit_cumulative(self, who: AccountId, amount: nat, n: nat)
        requires
            self.wf(),
            n <= self.roster.len(),
        ensures
            self.deposit(who, amount).cumulative(n) == self.cumulative(n) + (if self.roster.take(
                n as int,
            ).contains(who) {
                amount
            } else {
                0
            }),
        decreases n,
    {
        let after = self.deposit(who, amount);
        if n > 0 && amount > 0 {
            let m = (n - 1) as nat;
            self.lemma_deposit_cumulative(who, amount, m);
            let before_m = self.roster.take(m as int);
            let before_n = self.roster.take(n as int);
            assert(after.roster[m as int] == self.roster[m as int]);
            assert(self.roster.contains(self.roster[m as int]));
            if self.roster[m as int] == who {
                assert(before_n[m as int] == who);
                assert(!before_m.contains(who)) by {
                    if before_m.contains(who) {
                        let k = choose|k: int| 0 <= k < before_m.len() && before_m[k] == who;
                        assert(self.roster[k] == self.roster[m as int]);
                    }
                }
            } else {
                if before_m.contains(who) {
                    let k = choose|k: int| 0 <= k < before_m.len() && before_m[k] == who;
                    assert(before_n[k] == who);
                }
                if before_n.contains(who) {
                    let k = choose|k: int| 0 <= k < before_n.len() && before_n[k] == who;
                    assert(before_m[k] == who);
                }
            }
        }
    }

    /// A deposit keeps the pool well-formed.
    pub proof fn lemma_deposit_wf(self, who: AccountId, amount: nat)
        requires
            self.wf(),
        ensures
            self.deposit(who, amount).wf(),
    {
        let after = self.deposit(who, amount);
        let n = self.roster.len();
        self.lemma_deposit_cumulative(who, amount, n);
        assert(self.roster.take(n as int) =~= self.roster);
        if amount == 0 {
        } else if self.tickets.contains_key(who) {
            assert(after.roster == self.roster);
            assert forall|a: AccountId| after.tickets.contains_key(a) <==> after.roster.contains(
                a,
            ) by {}
            assert forall|i: int| 0 <= i < after.roster.len() implies #[trigger] after.weight_of(
                after.roster[i],
            ) >= 1 by {
                assert(self.weight_of(self.roster[i]) >= 1);
            }
        } else {
            assert forall|i: int| 0 <= i < after.roster.len() implies #[trigger] after.weight_of(
                after.roster[i],
            ) >= 1 by {
                if i < n {
                    assert(self.weight_of(self.roster[i]) >= 1);
                    assert(self.roster.contains(self.roster[i]));
                }
            }
            assert(!self.roster.contains(who));
            assert(after.roster.len() == n + 1);
            assert(after.roster[n as int] == who);
            assert(after.cumulative(n + 1) == after.cumulative(n) + after.weight_of(who));
            assert forall|a: AccountId| after.tickets.contains_key(a) <==> after.roster.contains(
                a,
            ) by {
                if after.roster.contains(a) {
                    let k = choose|k: int| 0 <= k < after.roster.len() && after.roster[k] == a;
                    if k < n {
                        assert(self.roster[k] == a);
                    }
                }
                if self.roster.contains(a) {
                    let k = choose|k: int| 0 <= k < self.roster.len() && self.roster[k] == a;
                    assert(after.roster[k] == a);
                }
            }
            assert forall|i: int, j: int|
                0 <= i < after.roster.len() && 0 <= j < after.roster.len() && i != j implies after.roster[i]
                != after.roster[j] by {
                if i < n {
                    assert(self.roster.contains(self.roster[i]));
                }
                if j < n {
                    assert(self.roster.contains(self.roster[j]));
                }
            }
        }
    }
}

} // verus!
