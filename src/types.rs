use vstd::prelude::*;

verus! {

/// Identifier of a logical device behind a TCP endpoint.
#[derive(Clone, Copy, Debug, PartialEq, Eq, Structural)]
pub struct UnitId {
    pub value: u8,
}

impl UnitId {
    pub fn new(value: u8) -> (r: UnitId)
        ensures
            r.value == value,
    {
        UnitId { value }
    }
}

/// The transaction id that follows `t`: one more, modulo 2^16.
pub open spec fn next_tx(t: u16) -> u16 {
    if t == 0xFFFF {
        0
    } else {
        (t + 1) as u16
    }
}

/// The transaction id reached from `t` after `n` requests.
pub open spec fn tx_after(t: u16, n: nat) -> u16
    decreases n,
{
    if n == 0 {
        t
    } else {
        next_tx(tx_after(t, (n - 1) as nat))
    }
}

/// A 16-bit transaction identifier, used to correlate a reply with its request.
#[derive(Clone, Copy, Debug, PartialEq, Eq, Structural)]
pub struct TxId {
    pub value: u16,
}

impl TxId {
    pub fn new(value: u16) -> (r: TxId)
        ensures
            r.value == value,
    {
        TxId { value }
    }

    /// The first id of a session.
    pub fn zero() -> (r: TxId)
        ensures
            r.value == 0,
    {
        TxId { value: 0 }
    }

    /// Hands out the current id and advances to the next one.
    pub fn next(&mut self) -> (r: TxId)
        ensures
            r == *old(self),
            final(self).value == next_tx(old(self).value),
    {
        let r = *self;
        if self.value == 0xFFFF {
            self.value = 0;
        } else {
            self.value = self.value + 1;
        }
        r
    }
}

/// Without wraparound, later requests of a session carry strictly larger
/// transaction ids than earlier ones.
pub proof fn lemma_tx_ids_increase(start: u16, i: nat, j: nat)
    requires
        i < j,
        start + j <= 0xFFFF,
    ensures
        tx_after(start, i) < tx_after(start, j),
    decreases j,
{
    lemma_tx_after_value(start, i);
    lemma_tx_after_value(start, j);
}

/// Before wraparound, `n` steps from `start` give `start + n`.
pub proof fn lemma_tx_after_value(start: u16, n: nat)
    requires
        start + n <= 0xFFFF,
    ensures
        tx_after(start, n) == start + n,
    decreases n,
{
    if n > 0 {
        lemma_tx_after_value(start, (n - 1) as nat);
    }
}

} // verus!
