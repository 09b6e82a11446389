use std::collections::{HashMap, HashSet};
use vstd::prelude::*;
use crate::record::TxType;

verus! {

/// A recorded transaction of one account.
#[derive(Clone, Copy, PartialEq, Eq, Debug)]
pub enum Tx {
    Withdraw(i64),
    Deposit(i64),
}

/// A withdrawal that was turned down while funds were held by disputes,
/// together with the disputes that were open at that moment.
pub struct RejectedTx {
    pub amount: i64,
    pub after_disputes: HashSet<u32>,
}

/// Mathematical picture of a turned-down withdrawal.
pub struct RejectedView {
    pub amount: i64,
    pub after_disputes: Set<u32>,
}

impl View for RejectedTx {
    type V = RejectedView;

    open spec fn view(&self) -> RejectedView {
        RejectedView { amount: self.amount, after_disputes: self.after_disputes@ }
    }
}

/// Mathematical picture of an account.
pub struct ClientView {
    pub client: u16,
    pub available: int,
    pub held: int,
    pub total: int,
    pub locked: bool,
    pub txs: Map<u32, Tx>,
    pub disputed: Set<u32>,
    pub rejected: Seq<RejectedView>,
}

/// One account: its balances, its transaction history, its open disputes
/// and the withdrawals that wait on those disputes.
pub struct Client {
    client: u16,
    available: i64,
    held: i64,
    total: i64,
    locked: bool,
    txs: HashMap<u32, Tx>,
    disputed_txs: HashSet<u32>,
    rejected_txs: Vec<RejectedTx>,
}

impl View for Client {
    type V = ClientView;

    closed spec fn view(&self) -> ClientView {
        ClientView {
            client: self.client,
            available: self.available as int,
            held: self.held as int,
            total: self.total as int,
            locked: self.locked,
            txs: self.txs@,
            disputed: self.disputed_txs@,
            rejected: self.rejected_txs@.map_values(|r: RejectedTx| r@),
        }
    }
}

/// Whether a value is representable as a balance.
pub open spec fn fits(x: int) -> bool {
    i64::MIN <= x <= i64::MAX
}

/// A fresh account: zero balances, unlocked, no history.
pub open spec fn fresh(id: u16) -> ClientView {
    ClientView {
        client: id,
        available: 0,
        held: 0,
        total: 0,
        locked: false,
        txs: Map::empty(),
        disputed: Set::empty(),
        rejected: Seq::empty(),
    }
}

/// The balance identity that every operation keeps.
pub open spec fn balanced(s: ClientView) -> bool {
    s.total == s.available + s.held
}

/// Effect of a deposit. A locked account, or one whose balances would leave
/// the representable range, is left unchanged.
pub open spec fn deposit_spec(s: ClientView, tx: u32, amount: i64) -> ClientView {
    if s.locked || !fits(s.total + amount) || !fits(s.available + amount) {
        s
    } else {
        ClientView {
            total: s.total + amount,
            available: s.available + amount,
            txs: s.txs.insert(tx, Tx::Deposit(amount)),
            ..s
        }
    }
}


/// Effect of a withdrawal. One that exceeds the total, or the available
/// funds with no dispute open, is dropped. One that exceeds only the
/// available funds while disputes are open waits, with a copy of those
/// disputes. Otherwise it is applied and recorded.
pub open spec fn withdraw_spec(s: ClientView, tx: u32, amount: i64) -> ClientView {
    if s.locked || s.total < amount || (s.available < amount && s.disputed.is_empty()) {
        s
    } else if s.available < amount {
        ClientView {
            rejected: s.rejected.push(RejectedView { amount, after_disputes: s.disputed }),
            ..s
        }
    } else if !fits(s.total - amount) || !fits(s.available - amount) {
        s
    } else {
        ClientView {
            total: s.total - amount,
            available: s.available - amount,
            txs: s.txs.insert(tx, Tx::Withdraw(amount)),
            ..s
        }
    }
}

/// Effect of a dispute: a recorded deposit that is not under dispute
/// moves its amount from available to held.
pub open spec fn dispute_spec(s: ClientView, tx: u32) -> ClientView {
    if s.locked || s.disputed.contains(tx) || !s.txs.contains_key(tx) {
        s
    } else {
        match s.txs[tx] {
            Tx::Deposit(a) => {
                if fits(s.available - a) && fits(s.held + a) {
                    ClientView {
                        available: s.available - a,
                        held: s.held + a,
                        disputed: s.disputed.insert(tx),
                        ..s
                    }
                } else {
                    s
                }
            },
            Tx::Withdraw(_) => s,
        }
    }
}

/// Whether a waiting withdrawal is taken once dispute `tx` resolves, given
/// the balances as they stand at that point of the pass.
pub open spec fn accepts(r: RejectedView, tx: u32, available: int, total: int) -> bool {
    &&& r.after_disputes.contains(tx)
    &&& r.amount <= available
    &&& fits(available - r.amount)
    &&& fits(total - r.amount)
}

/// The pass over waiting withdrawals after dispute `tx` resolves, in their
/// stored order: each one that was waiting on `tx` and is now affordable is
/// applied, and what it takes is visible to the entries after it. Gives
/// the final available funds, the final total, and the entries left waiting.
pub open spec fn rescan(rej: Seq<RejectedView>, tx: u32, available: int, total: int) -> (int, int, Seq<RejectedView>)
    decreases rej.len(),
{
    if rej.len() == 0 {
        (available, total, Seq::empty())
    } else {
        let p = rescan(rej.drop_last(), tx, available, total);
        let r = rej.last();
        if accepts(r, tx, p.0, p.1) {
            (p.0 - r.amount, p.1 - r.amount, p.2)
        } else {
            (p.0, p.1, p.2.push(r))
        }
    }
}

/// Effect of resolving a dispute: the deposit's amount returns from held to
/// available, the withdrawals that waited on this dispute are looked at
/// again, and the dispute closes.
pub open spec fn resolve_spec(s: ClientView, tx: u32) -> ClientView {
    if s.locked || !s.disputed.contains(tx) {
        s
    } else if s.txs.contains_key(tx) && s.txs[tx] is Deposit {
        let a = s.txs[tx]->Deposit_0;
        if fits(s.available + a) && fits(s.held - a) {
            let p = rescan(s.rejected, tx, s.available + a, s.total);
            ClientView {
                available: p.0,
                held: s.held - a,
                total: p.1,
                rejected: p.2,
                disputed: s.disputed.remove(tx),
                ..s
            }
        } else {
            s
        }
    } else {
        ClientView { disputed: s.disputed.remove(tx), ..s }
    }
}

/// Effect of a chargeback: the disputed deposit's amount leaves held and
/// total, and the account locks for good.
pub open spec fn chargeback_spec(s: ClientView, tx: u32) -> ClientView {
    if s.locked || !s.disputed.contains(tx) || !s.txs.contains_key(tx) {
        s
    } else {
        match s.txs[tx] {
            Tx::Deposit(a) => {
                if fits(s.held - a) && fits(s.total - a) {
                    ClientView { held: s.held - a, total: s.total - a, locked: true, ..s }
                } else {
                    s
                }
            },
            Tx::Withdraw(_) => s,
        }
    }
}

/// Effect of one operation of the given kind on an account.
pub open spec fn apply(s: ClientView, kind: TxType, tx: u32, amount: i64) -> ClientView {
    match kind {
        TxType::Deposit => deposit_spec(s, tx, amount),
        TxType::Withdrawal => withdraw_spec(s, tx, amount),
        TxType::Dispute => dispute_spec(s, tx),
        TxType::Resolve => resolve_spec(s, tx),
        TxType::ChargeBack => chargeback_spec(s, tx),
    }
}

/// Effect of a sequence of operations, applied in order.
pub open spec fn replay(s: ClientView, ops: Seq<(TxType, u32, i64)>) -> ClientView
    decreases ops.len(),
{
    if ops.len() == 0 {
        s
    } else {
        let op = ops.last();
        apply(replay(s, ops.drop_last()), op.0, op.1, op.2)
    }
}

/// Relies on `HashSet::clone`: the copy holds the same elements.
#[verifier::external_body]
fn copy_disputes(s: &HashSet<u32>) -> (r: HashSet<u32>)
    ensures
        r@ == s@,
{
    s.clone()
}

impl Client {
    /// A fresh account with zero balances.
    pub fn new(id: u16) -> (r: Self)
        ensures
            r@ == fresh(id),
    {
        let r = Client {
            client: id,
            total: 0,
            available: 0,
            held: 0,
            locked: false,
            txs: HashMap::new(),
            disputed_txs: HashSet::new(),
            rejected_txs: Vec::new(),
        };
        assert(r.rejected_txs@.map_values(|t: RejectedTx| t@) =~= Seq::<RejectedView>::empty());
        r
    }

    /// An account with the given balances and no history.
    pub fn with_state(id: u16, total: i64, available: i64, held: i64, locked: bool) -> (r: Self)
        ensures
            r@ == (ClientView {
                client: id,
                available: available as int,
                held: held as int,
                total: total as int,
                locked,
                ..fresh(id)
            }),
    {
        let r = Client {
            client: id,
            total,
            available,
            held,
            locked,
            txs: HashMap::new(),
            disputed_txs: HashSet::new(),
            rejected_txs: Vec::new(),
        };
        assert(r.rejected_txs@.map_values(|t: RejectedTx| t@) =~= Seq::<RejectedView>::empty());
        r
    }

    pub fn client(&self) -> (r: u16)
        ensures
            r == self@.client,
    {
        self.client
    }

    pub fn available(&self) -> (r: i64)
        ensures
            r == self@.available,
    {
        self.available
    }

    pub fn held(&self) -> (r: i64)
        ensures
            r == self@.held,
    {
        self.held
    }

    pub fn total(&self) -> (r: i64)
        ensures
            r == self@.total,
    {
        self.total
    }

    pub fn locked(&self) -> (r: bool)
        ensures
            r == self@.locked,
    {
        self.locked
    }

    /// Number of withdrawals waiting on open disputes.
    pub fn pending_count(&self) -> (r: usize)
        ensures
            r == self@.rejected.len(),
    {
        self.rejected_txs.len()
    }

    /// Credits a deposit and records it under `tx`.
    pub fn deposit(&mut self, tx: u32, amount: i64)
        ensures
            final(self)@ == deposit_spec(old(self)@, tx, amount),
    {
        if self.locked {
            return;
        }
        match (self.total.checked_add(amount), self.available.checked_add(amount)) {
            (Some(total), Some(available)) => {
                self.total = total;
                self.available = available;
                self.txs.insert(tx, Tx::Deposit(amount));
            },
            _ => {},
        }
    }
    /// Debits a withdrawal when funds allow; see `withdraw_spec`.
    pub fn withdraw(&mut self, tx: u32, amount: i64)
        ensures
            final(self)@ == withdraw_spec(old(self)@, tx, amount),
    {
        if self.locked || self.total < amount || (self.available < amount
            && self.disputed_txs.is_empty()) {
            return;
        }
        if self.available < amount {
            // keep the disputes open at this moment: only their resolution
            // can make this withdrawal affordable
            let rejected = RejectedTx { amount, after_disputes: copy_disputes(&self.disputed_txs) };
            self.rejected_txs.push(rejected);
            assert(self.rejected_txs@.map_values(|r: RejectedTx| r@) =~= old(
                self,
            ).rejected_txs@.map_values(|r: RejectedTx| r@).push(rejected@));
            return;
        }
        match (self.total.checked_sub(amount), self.available.checked_sub(amount)) {
            (Some(total), Some(available)) => {
                self.total = total;
                self.available = available;
                self.txs.insert(tx, Tx::Withdraw(amount));
            },
            _ => {},
        }
    }

    /// Holds the funds of a recorded deposit under dispute.
    pub fn dispute(&mut self, tx: u32)
        ensures
            final(self)@ == dispute_spec(old(self)@, tx),
    {
        if self.locked || self.disputed_txs.contains(&tx) {
            return;
        }
        // only deposits can be disputed
        if let Some(Tx::Deposit(a)) = self.txs.get(&tx) {
            let a = *a;
            match (self.available.checked_sub(a), self.held.checked_add(a)) {
                (Some(available), Some(held)) => {
                    self.available = available;
                    self.held = held;
                    self.disputed_txs.insert(tx);
                },
                _ => {},
            }
        }
    }

    /// Releases a disputed deposit and re-examines waiting withdrawals.
    pub fn resolve(&mut self, tx: u32)
        ensures
            final(self)@ == resolve_spec(old(self)@, tx),
    {
        if self.locked_or_not_disputed(tx) {
            return;
        }
        if let Some(Tx::Deposit(a)) = self.txs.get(&tx) {
            let a = *a;
            match (self.available.checked_add(a), self.held.checked_sub(a)) {
                (Some(available), Some(held)) => {
                    self.available = available;
                    self.held = held;
                    self.resolve_prev_rejected(tx);
                },
                _ => {
                    return;
                },
            }
        }
        // the dispute is over
        self.disputed_txs.remove(&tx);
    }

    /// Applies, in stored order, the waiting withdrawals that depended on
    /// the dispute just resolved and that the available funds now cover.
    fn resolve_prev_rejected(&mut self, resolved_tx: u32)
        ensures
            ({
                let p = rescan(old(self)@.rejected, resolved_tx, old(self)@.available, old(self)@.total);
                final(self)@ == ClientView {
                    available: p.0,
                    total: p.1,
                    rejected: p.2,
                    ..old(self)@
                }
            }),
    {
        let mut pending: Vec<RejectedTx> = Vec::new();
        std::mem::swap(&mut pending, &mut self.rejected_txs);
        let ghost orig = pending@.map_values(|r: RejectedTx| r@);
        let ghost a0 = self.available as int;
        let ghost t0 = self.total as int;
        let mut available: i64 = self.available;
        let mut total: i64 = self.total;
        let mut kept: Vec<RejectedTx> = Vec::new();
        assert(orig.subrange(0, 0) =~= Seq::<RejectedView>::empty());
        assert(kept@.map_values(|r: RejectedTx| r@) =~= Seq::<RejectedView>::empty());
        assert(pending@.map_values(|r: RejectedTx| r@) =~= orig.subrange(0, orig.len() as int));
        while pending.len() > 0
            invariant
                pending.len() <= orig.len(),
                pending@.map_values(|r: RejectedTx| r@) =~= orig.subrange(
                    orig.len() - pending.len(),
                    orig.len() as int,
                ),
                rescan(orig.subrange(0, orig.len() - pending.len()), resolved_tx, a0, t0) == (
                available as int,
                total as int,
                kept@.map_values(|r: RejectedTx| r@),
                ),
            decreases pending.len(),
        {
            let ghost k = orig.len() - pending.len();
            let ghost pv = pending@;
            assert(pv.map_values(|r: RejectedTx| r@)[0] == orig.subrange(k, orig.len() as int)[0]);
            let r = pending.remove(0);
            assert(r@ == orig[k]);
            assert forall|j: int| 0 <= j < pending@.len() implies #[trigger] pending@[j]@ == orig[k + 1 + j] by {
                assert(pending@[j] == pv[j + 1]);
                assert(pv.map_values(|r: RejectedTx| r@)[j + 1] == orig.subrange(k, orig.len() as int)[j + 1]);
            }
            assert(orig.subrange(0, k + 1).drop_last() =~= orig.subrange(0, k));
            assert(pending@.map_values(|r: RejectedTx| r@) =~= orig.subrange(k + 1, orig.len() as int));
            let mut taken = false;
            if r.after_disputes.contains(&resolved_tx) && r.amount <= available {
                match (available.checked_sub(r.amount), total.checked_sub(r.amount)) {
                    (Some(na), Some(nt)) => {
                        available = na;
                        total = nt;
                        taken = true;
                    },
                    _ => {},
                }
            }
            if !taken {
                let ghost kv = kept@;
                kept.push(r);
                assert(kept@.map_values(|r: RejectedTx| r@) =~= kv.map_values(|r: RejectedTx| r@).push(r@));
            }
        }
        assert(orig.subrange(0, orig.len() as int) =~= orig);
        self.available = available;
        self.total = total;
        self.rejected_txs = kept;
    }

    /// Removes a disputed deposit for good and locks the account.
    pub fn chargeback(&mut self, tx: u32)
        ensures
            final(self)@ == chargeback_spec(old(self)@, tx),
    {
        if self.locked_or_not_disputed(tx) {
            return;
        }
        if let Some(Tx::Deposit(a)) = self.txs.get(&tx) {
            let a = *a;
            match (self.held.checked_sub(a), self.total.checked_sub(a)) {
                (Some(held), Some(total)) => {
                    self.held = held;
                    self.total = total;
                    self.locked = true;
                },
                _ => {},
            }
        }
    }

    fn locked_or_not_disputed(&self, tx: u32) -> (r: bool)
        ensures
            r == (self@.locked || !self@.disputed.contains(tx)),
    {
        self.locked || !self.disputed_txs.contains(&tx)
    }
}

} // verus!
