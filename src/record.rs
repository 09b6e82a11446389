use vstd::prelude::*;

verus! {

/// Kind of an incoming transaction record.
#[derive(Clone, Copy, PartialEq, Eq, Debug)]
pub enum TxType {
    Deposit,
    Withdrawal,
    Dispute,
    Resolve,
    ChargeBack,
}

/// One decoded transaction record. The amount, in ten-thousandths of a
/// unit, is present for deposits and withdrawals.
#[derive(Clone, Copy, PartialEq, Eq, Debug)]
pub struct TxRow {
    pub tx_type: TxType,
    pub client: u16,
    pub tx: u32,
    pub amount: Option<i64>,
}

/// A record that carries what its kind needs: deposits and withdrawals
/// come with an amount.
pub open spec fn row_complete(row: TxRow) -> bool {
    (row.tx_type is Deposit || row.tx_type is Withdrawal) ==> row.amount is Some
}

/// The amount of a record, zero where it carries none.
pub open spec fn amount_of(row: TxRow) -> i64 {
    match row.amount {
        Some(a) => a,
        None => 0,
    }
}

} // verus!
