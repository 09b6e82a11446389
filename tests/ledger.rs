use toy_payments::client::Client;
use toy_payments::processor::CsvProcessor;
use toy_payments::record::{TxRow, TxType};
use toy_payments::snapshot::{fixed_width, ClientRow};

fn balances(c: &Client) -> (i64, i64, i64, bool) {
    (c.available(), c.held(), c.total(), c.locked())
}

fn row(tx_type: TxType, client: u16, tx: u32, amount: Option<i64>) -> TxRow {
    TxRow { tx_type, client, tx, amount }
}

fn accounts(p: &CsvProcessor) -> Vec<(u16, i64, i64, i64, bool)> {
    let mut v: Vec<(u16, i64, i64, i64, bool)> = p
        .client_results()
        .iter()
        .map(|c| (c.client(), c.available(), c.held(), c.total(), c.locked()))
        .collect();
    v.sort();
    v
}

#[test]
fn deposit_then_withdraw_on_fresh_account() {
    let mut c = Client::new(1);
    c.deposit(1, 5);
    c.withdraw(2, 3);
    assert_eq!(balances(&c), (2, 0, 2, false));
}

#[test]
fn dispute_then_resolve_round_trip() {
    let mut c = Client::new(1);
    c.deposit(1, 10);
    c.dispute(1);
    assert_eq!(balances(&c), (0, 10, 10, false));
    c.resolve(1);
    assert_eq!(balances(&c), (10, 0, 10, false));
}

#[test]
fn chargeback_locks_and_freezes() {
    let mut c = Client::new(1);
    c.deposit(1, 10);
    c.dispute(1);
    c.chargeback(1);
    assert_eq!(balances(&c), (0, 0, 0, true));
    c.deposit(2, 7);
    c.withdraw(3, 1);
    c.dispute(2);
    c.resolve(1);
    c.chargeback(1);
    assert_eq!(balances(&c), (0, 0, 0, true));
}

#[test]
fn retroactive_acceptance_after_resolve() {
    let mut c = Client::new(1);
    c.deposit(1, 100);
    c.deposit(2, 50);
    c.dispute(1);
    assert_eq!(balances(&c), (50, 100, 150, false));
    c.withdraw(3, 80);
    assert_eq!(balances(&c), (50, 100, 150, false));
    assert_eq!(c.pending_count(), 1);
    c.resolve(1);
    assert_eq!(balances(&c), (70, 0, 70, false));
    assert_eq!(c.pending_count(), 0);
}

#[test]
fn withdrawal_before_any_dispute_is_never_revived() {
    let mut c = Client::new(1);
    c.deposit(1, 200);
    c.deposit(2, 50);
    c.withdraw(3, 300);
    assert_eq!(c.pending_count(), 0);
    c.dispute(2);
    c.resolve(2);
    assert_eq!(balances(&c), (250, 0, 250, false));
}

#[test]
fn withdrawal_exceeding_available_without_dispute_is_dropped() {
    let mut c = Client::new(1);
    c.deposit(1, 100);
    c.deposit(2, 100);
    c.dispute(2);
    c.resolve(2);
    c.withdraw(3, 150);
    assert_eq!(balances(&c), (50, 0, 50, false));
    c.withdraw(4, 60);
    assert_eq!(balances(&c), (50, 0, 50, false));
    assert_eq!(c.pending_count(), 0);
}

#[test]
fn withdrawal_over_total_is_never_revived() {
    let mut c = Client::new(1);
    c.deposit(1, 100);
    c.dispute(1);
    c.withdraw(2, 101);
    assert_eq!(c.pending_count(), 0);
    c.resolve(1);
    assert_eq!(balances(&c), (100, 0, 100, false));
}

#[test]
fn pending_withdrawal_waits_for_its_own_dispute() {
    let mut c = Client::new(1);
    c.deposit(1, 100);
    c.dispute(1);
    c.withdraw(2, 60);
    c.deposit(3, 40);
    c.dispute(3);
    // resolving a dispute opened later does not touch the waiting withdrawal
    c.resolve(3);
    assert_eq!(balances(&c), (40, 100, 140, false));
    assert_eq!(c.pending_count(), 1);
    c.resolve(1);
    assert_eq!(balances(&c), (80, 0, 80, false));
}

#[test]
fn pass_sees_earlier_acceptances() {
    let mut c = Client::new(1);
    c.deposit(1, 100);
    c.deposit(2, 20);
    c.dispute(1);
    c.withdraw(3, 90);
    c.withdraw(4, 40);
    c.withdraw(5, 30);
    assert_eq!(c.pending_count(), 3);
    c.resolve(1);
    // 120 available: 90 taken, 40 no longer fits, 30 taken
    assert_eq!(balances(&c), (0, 0, 0, false));
    assert_eq!(c.pending_count(), 1);
}

#[test]
fn unaffordable_pending_withdrawal_stays() {
    let mut c = Client::new(1);
    c.deposit(1, 100);
    c.deposit(2, 30);
    c.dispute(1);
    c.dispute(2);
    c.withdraw(3, 120);
    c.resolve(2);
    assert_eq!(balances(&c), (30, 100, 130, false));
    assert_eq!(c.pending_count(), 1);
}

#[test]
fn dispute_twice_equals_once() {
    let mut a = Client::new(1);
    let mut b = Client::new(1);
    for c in [&mut a, &mut b] {
        c.deposit(1, 40);
        c.deposit(2, 5);
    }
    a.dispute(1);
    b.dispute(1);
    b.dispute(1);
    assert_eq!(balances(&a), balances(&b));
    assert_eq!(balances(&a), (5, 40, 45, false));
}

#[test]
fn redispute_after_resolve_is_allowed() {
    let mut c = Client::new(1);
    c.deposit(1, 10);
    c.dispute(1);
    c.resolve(1);
    c.dispute(1);
    assert_eq!(balances(&c), (0, 10, 10, false));
}

#[test]
fn balance_identity_holds_throughout() {
    let mut c = Client::new(1);
    let check = |c: &Client| assert_eq!(c.total(), c.available() + c.held());
    c.deposit(1, 100);
    check(&c);
    c.withdraw(2, 30);
    check(&c);
    c.dispute(1);
    check(&c);
    c.withdraw(3, 50);
    check(&c);
    c.resolve(1);
    check(&c);
    c.dispute(1);
    check(&c);
    c.chargeback(1);
    check(&c);
    assert_eq!(balances(&c), (-80, 0, -80, true));
}

#[test]
fn deposit_overflowing_balance_is_ignored() {
    let mut c = Client::new(1);
    c.deposit(1, i64::MAX);
    c.deposit(2, 1);
    assert_eq!(balances(&c), (i64::MAX, 0, i64::MAX, false));
}

#[test]
fn router_creates_accounts_on_deposit_and_withdrawal_only() {
    let mut p = CsvProcessor::new();
    let rows = vec![
        row(TxType::Dispute, 3, 1, None),
        row(TxType::Resolve, 4, 1, None),
        row(TxType::ChargeBack, 5, 1, None),
        row(TxType::Deposit, 1, 1, Some(15_000)),
        row(TxType::Withdrawal, 2, 2, Some(10_000)),
    ];
    p.process_rows(&rows);
    assert_eq!(
        accounts(&p),
        vec![(1, 15_000, 0, 15_000, false), (2, 0, 0, 0, false)]
    );
}

#[test]
fn router_applies_rows_per_account() {
    let mut p = CsvProcessor::new();
    let rows = vec![
        row(TxType::Deposit, 1, 1, Some(10_000)),
        row(TxType::Deposit, 2, 2, Some(20_000)),
        row(TxType::Deposit, 1, 3, Some(20_000)),
        row(TxType::Withdrawal, 1, 4, Some(15_000)),
        row(TxType::Withdrawal, 2, 5, Some(30_000)),
    ];
    p.process_rows(&rows);
    assert_eq!(
        accounts(&p),
        vec![(1, 15_000, 0, 15_000, false), (2, 20_000, 0, 20_000, false)]
    );
}

#[test]
fn router_chargeback_locks_account() {
    let mut p = CsvProcessor::new();
    let rows = vec![
        row(TxType::Deposit, 1, 1, Some(1_000_000)),
        row(TxType::Deposit, 1, 2, Some(500_000)),
        row(TxType::Withdrawal, 1, 3, Some(1_000_000)),
        row(TxType::Dispute, 1, 1, None),
        row(TxType::ChargeBack, 1, 1, None),
        row(TxType::Deposit, 1, 4, Some(500_000)),
    ];
    p.process_rows(&rows);
    assert_eq!(accounts(&p), vec![(1, -500_000, 0, -500_000, true)]);
}

#[test]
fn client_row_keeps_fields() {
    let r = ClientRow::new("1", "2", "3", "4", "5");
    assert_eq!([r.client, r.available, r.held, r.total, r.locked], ["1", "2", "3", "4", "5"]);
}

#[test]
fn fixed_width_splits_balances() {
    assert_eq!(fixed_width(15_000), (false, 1, 5_000));
    assert_eq!(fixed_width(0), (false, 0, 0));
    assert_eq!(fixed_width(-500_001), (true, 50, 1));
    assert_eq!(fixed_width(i64::MIN), (true, 922_337_203_685_477, 5_808));
}
