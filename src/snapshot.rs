use vstd::prelude::*;

verus! {

/// Ten-thousandths in one unit: balances carry four decimal places.
pub const SCALE: u64 = 10000;

/// One output row of the account snapshot, as text fields.
pub struct ClientRow {
    pub client: &'static str,
    pub available: &'static str,
    pub held: &'static str,
    pub total: &'static str,
    pub locked: &'static str,
}

impl ClientRow {
    pub fn new(
        client: &'static str,
        available: &'static str,
        held: &'static str,
        total: &'static str,
        locked: &'static str,
    ) -> (r: Self)
        ensures
            r.client == client,
            r.available == available,
            r.held == held,
            r.total == total,
            r.locked == locked,
    {
        ClientRow { client, available, held, total, locked }
    }
}

/// Splits a fixed-point balance into its sign, whole units and the four
/// decimal digits, for display as `[-]whole.dddd`.
pub fn fixed_width(x: i64) -> (r: (bool, u64, u64))
    ensures
        r.2 < SCALE,
        r.0 <==> x < 0,
        (if r.0 { -(x as int) } else { x as int }) == r.1 * SCALE + r.2,
{
    let neg = x < 0;
    let mag: u64 = if neg {
        (-(x as i128)) as u64
    } else {
        x as u64
    };
    (neg, mag / SCALE, mag % SCALE)
}

} // verus!
