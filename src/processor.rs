use std::collections::HashMap;
use vstd::prelude::*;
use vstd::std_specs::iter::IteratorSpec;
use crate::client::{apply, fresh, Client, ClientView};
use crate::record::{amount_of, row_complete, TxRow, TxType};

verus! {

/// Effect of one record on the set of accounts. Accounts come into being
/// on their first deposit or withdrawal; disputes, resolves and chargebacks
/// for an unknown account are dropped.
pub open spec fn row_spec(m: Map<u16, ClientView>, row: TxRow) -> Map<u16, ClientView> {
    if m.contains_key(row.client) {
        m.insert(row.client, apply(m[row.client], row.tx_type, row.tx, amount_of(row)))
    } else if row.tx_type is Deposit || row.tx_type is Withdrawal {
        m.insert(row.client, apply(fresh(row.client), row.tx_type, row.tx, amount_of(row)))
    } else {
        m
    }
}

/// Effect of a sequence of records, applied in order.
pub open spec fn rows_spec(m: Map<u16, ClientView>, rows: Seq<TxRow>) -> Map<u16, ClientView>
    decreases rows.len(),
{
    if rows.len() == 0 {
        m
    } else {
        row_spec(rows_spec(m, rows.drop_last()), rows.last())
    }
}

/// Each account is stored under its own id.
pub open spec fn keyed_by_id(m: Map<u16, ClientView>) -> bool {
    forall|k: u16| m.contains_key(k) ==> (#[trigger] m[k]).client == k
}

/// Routes records to the accounts they address.
pub struct CsvProcessor {
    clients: HashMap<u16, Client>,
}

impl View for CsvProcessor {
    type V = Map<u16, ClientView>;

    closed spec fn view(&self) -> Map<u16, ClientView> {
        self.clients@.map_values(|c: Client| c@)
    }
}

impl CsvProcessor {
    pub fn new() -> (r: Self)
        ensures
            r@ == Map::<u16, ClientView>::empty(),
            keyed_by_id(r@),
    {
        let r = CsvProcessor { clients: HashMap::new() };
        assert(r@ =~= Map::<u16, ClientView>::empty());
        r
    }

    /// Every account that was created, each once.
    pub fn client_results(&self) -> (r: Vec<&Client>)
        requires
            keyed_by_id(self@),
        ensures
            r@.len() == self@.len(),
            forall|i: int| 0 <= i < r@.len() ==> self@.contains_key(#[trigger] r@[i]@.client)
                && self@[r@[i]@.client] == r@[i]@,
            forall|k: u16| #[trigger] self@.contains_key(k) ==> exists|i: int|
                0 <= i < r@.len() && r@[i]@.client == k,
    {
        let mut out: Vec<&Client> = Vec::new();
        for c in it: self.clients.values()
            invariant
                out@ == it.seq().subrange(0, it.index() as int),
        {
            out.push(c);
        }
        assert(out@ == self.clients.values().remaining());
        assert(out@.unref().to_set() == self.clients@.values());
        assert(out@.len() == self.clients@.dom().len());
        assert(self@.dom() =~= self.clients@.dom());
        assert forall|i: int| 0 <= i < out@.len() implies self@.contains_key(#[trigger] out@[i]@.client)
            && self@[out@[i]@.client] == out@[i]@ by {
            assert(out@.unref()[i] == *out@[i]);
            assert(out@.unref().to_set().contains(*out@[i]));
            let k = choose|k: u16| self.clients@.contains_key(k) && self.clients@[k] == *out@[i];
            assert(self@[k] == out@[i]@);
        }
        assert forall|k: u16| #[trigger] self@.contains_key(k) implies exists|i: int|
            0 <= i < out@.len() && out@[i]@.client == k by {
            assert(self.clients@.values().contains(self.clients@[k]));
            assert(out@.unref().to_set().contains(self.clients@[k]));
            let i = choose|i: int| 0 <= i < out@.unref().len() && out@.unref()[i] == self.clients@[k];
            assert(out@[i]@ == self@[k]);
        }
        out
    }

    /// Applies the records in order.
    pub fn process_rows(&mut self, rows: &Vec<TxRow>)
        requires
            forall|i: int| 0 <= i < rows@.len() ==> row_complete(#[trigger] rows@[i]),
            keyed_by_id(old(self)@),
        ensures
            final(self)@ == rows_spec(old(self)@, rows@),
            keyed_by_id(final(self)@),
    {
        let mut i: usize = 0;
        while i < rows.len()
            invariant
                i <= rows@.len(),
                forall|j: int| 0 <= j < rows@.len() ==> row_complete(#[trigger] rows@[j]),
                self@ == rows_spec(old(self)@, rows@.subrange(0, i as int)),
                keyed_by_id(self@),
            decreases rows@.len() - i,
        {
            assert(rows@.subrange(0, i + 1).drop_last() =~= rows@.subrange(0, i as int));
            self.process_row(&rows[i]);
            i = i + 1;
        }
        assert(rows@.subrange(0, rows@.len() as int) =~= rows@);
    }

    fn process_row(&mut self, row: &TxRow)
        requires
            row_complete(*row),
            keyed_by_id(old(self)@),
        ensures
            final(self)@ == row_spec(old(self)@, *row),
            keyed_by_id(final(self)@),
    {
        match self.clients.remove(&row.client) {
            Some(mut c) => {
                Self::client_call(&mut c, row);
                self.clients.insert(row.client, c);
            },
            None => match row.tx_type {
                // only deposits and withdrawals open an account
                TxType::Deposit | TxType::Withdrawal => {
                    let mut c = Client::new(row.client);
                    Self::client_call(&mut c, row);
                    self.clients.insert(row.client, c);
                },
                _ => {},
            },
        }
        assert(self@ =~= row_spec(old(self)@, *row));
    }

    /// Hands the record to the matching operation of the account.
    fn client_call(c: &mut Client, row: &TxRow)
        requires
            row_complete(*row),
        ensures
            final(c)@ == apply(old(c)@, row.tx_type, row.tx, amount_of(*row)),
            final(c)@.client == old(c)@.client,
    {
        match row.tx_type {
            TxType::Deposit => match row.amount {
                Some(a) => c.deposit(row.tx, a),
                None => {},
            },
            TxType::Withdrawal => match row.amount {
                Some(a) => c.withdraw(row.tx, a),
                None => {},
            },
            TxType::Dispute => c.dispute(row.tx),
            TxType::Resolve => c.resolve(row.tx),
            TxType::ChargeBack => c.chargeback(row.tx),
        }
    }
}

} // verus!
