use vstd::prelude::*;
use crate::client::{
    apply, balanced, dispute_spec, fresh, replay, rescan, withdraw_spec,
    ClientView, RejectedView,
};
use crate::processor::rows_spec;
use crate::record::{TxRow, TxType, amount_of};

verus! {

/// The pass over waiting withdrawals takes the same amount from the
/// available funds as from the total.
pub proof fn lemma_rescan_same_drop(rej: Seq<RejectedView>, tx: u32, available: int, total: int)
    ensures
        ({
            let p = rescan(rej, tx, available, total);
            p.1 - p.0 == total - available
        }),
    decreases rej.len(),
{
    if rej.len() > 0 {
        lemma_rescan_same_drop(rej.drop_last(), tx, available, total);
    }
}

/// Every operation keeps `total == available + held`.
pub proof fn lemma_apply_keeps_balance(s: ClientView, kind: TxType, tx: u32, amount: i64)
    requires
        balanced(s),
    ensures
        balanced(apply(s, kind, tx, amount)),
{
    if kind is Resolve && !s.locked && s.disputed.contains(tx) && s.txs.contains_key(tx)
        && s.txs[tx] is Deposit {
        let a = s.txs[tx]->Deposit_0;
        lemma_rescan_same_drop(s.rejected, tx, s.available + a, s.total);
    }
}

/// From a fresh account, `total == available + held` holds after any
/// sequence of operations.
pub proof fn lemma_replay_keeps_balance(id: u16, ops: Seq<(TxType, u32, i64)>)
    ensures
        balanced(replay(fresh(id), ops)),
    decreases ops.len(),
{
    if ops.len() > 0 {
        lemma_replay_keeps_balance(id, ops.drop_last());
        let op = ops.last();
        lemma_apply_keeps_balance(replay(fresh(id), ops.drop_last()), op.0, op.1, op.2);
    }
}

/// A locked account is left exactly as it is by every operation.
pub proof fn lemma_locked_is_frozen(s: ClientView, kind: TxType, tx: u32, amount: i64)
    requires
        s.locked,
    ensures
        apply(s, kind, tx, amount) == s,
{
}

/// Once locked, an account is left exactly as it is by any later sequence
/// of operations.
pub proof fn lemma_locked_stays_frozen(s: ClientView, ops: Seq<(TxType, u32, i64)>)
    requires
        s.locked,
    ensures
        replay(s, ops) == s,
    decreases ops.len(),
{
    if ops.len() > 0 {
        lemma_locked_stays_frozen(s, ops.drop_last());
    }
}

/// Disputing the same transaction twice in a row does what disputing it
/// once does.
pub proof fn lemma_dispute_idempotent(s: ClientView, tx: u32)
    ensures
        dispute_spec(dispute_spec(s, tx), tx) == dispute_spec(s, tx),
{
}

/// A withdrawal larger than the total leaves the account exactly as it
/// was: it is neither recorded nor kept waiting, so no later resolve can
/// bring it back.
pub proof fn lemma_withdraw_over_total_dropped(s: ClientView, tx: u32, amount: i64)
    requires
        s.total < amount,
    ensures
        withdraw_spec(s, tx, amount) == s,
{
}

/// A withdrawal turned down while no dispute was open leaves the account
/// exactly as it was: nothing waits that a resolve could revive.
pub proof fn lemma_withdraw_without_disputes_dropped(s: ClientView, tx: u32, amount: i64)
    requires
        s.available < amount,
        s.disputed.is_empty(),
    ensures
        withdraw_spec(s, tx, amount) == s,
{
}

/// A waiting withdrawal that depended on no dispute is never taken by the
/// pass that follows a resolve: it stays waiting.
pub proof fn lemma_rescan_keeps_undisputed(rej: Seq<RejectedView>, tx: u32, available: int, total: int, i: int)
    requires
        0 <= i < rej.len(),
        rej[i].after_disputes.is_empty(),
    ensures
        rescan(rej, tx, available, total).2.contains(rej[i]),
    decreases rej.len(),
{
    let p = rescan(rej.drop_last(), tx, available, total);
    if i < rej.len() - 1 {
        lemma_rescan_keeps_undisputed(rej.drop_last(), tx, available, total, i);
        assert(rej.drop_last()[i] == rej[i]);
        if !crate::client::accepts(rej.last(), tx, p.0, p.1) {
            assert(p.2.push(rej.last()).contains(rej[i])) by {
                let j = choose|j: int| 0 <= j < p.2.len() && p.2[j] == rej[i];
                assert(p.2.push(rej.last())[j] == rej[i]);
            }
        }
    } else {
        assert(!rej.last().after_disputes.contains(tx));
        assert(p.2.push(rej.last())[p.2.len() as int] == rej[i]);
    }
}

/// Every account that a sequence of records creates satisfies
/// `total == available + held` after the whole sequence.
pub proof fn lemma_rows_keep_balance(rows: Seq<TxRow>)
    ensures
        forall|k: u16| #[trigger] rows_spec(Map::empty(), rows).contains_key(k) ==> balanced(
            rows_spec(Map::empty(), rows)[k],
        ),
    decreases rows.len(),
{
    if rows.len() > 0 {
        lemma_rows_keep_balance(rows.drop_last());
        let m = rows_spec(Map::empty(), rows.drop_last());
        let row = rows.last();
        if m.contains_key(row.client) {
            lemma_apply_keeps_balance(m[row.client], row.tx_type, row.tx, amount_of(row));
        } else {
            lemma_apply_keeps_balance(fresh(row.client), row.tx_type, row.tx, amount_of(row));
        }
    }
}

} // verus!
