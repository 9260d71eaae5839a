//! The acknowledgment ledger: per replicated component of an owned entity the
//! server records which input tick is fully reflected in the authoritative
//! value, together with that value.  The ack tick never goes backwards.

use vstd::prelude::*;
use crate::Tick;

verus! {

/// One acknowledgment record: the newest input tick whose effect the stored
/// value reflects, and the value itself.
#[derive(Debug)]
pub struct AckComponent<V> {
    pub ack_tick: Tick,
    pub value: V,
}

impl<V> AckComponent<V> {
    /// A fresh record, as stamped when the entity spawns.
    pub fn new(value: V) -> (r: AckComponent<V>)
        ensures
            r.ack_tick == 0,
            r.value == value,
    {
        AckComponent { ack_tick: 0, value }
    }

    /// Stamps the record after an authoritative step: the ack tick becomes the
    /// maximum of its previous value and the consumed input's tick, and the
    /// value becomes the current authoritative component value.  Ack
    /// monotonicity is part of the contract: the tick never decreases.
    pub fn update(&mut self, value: V, input_tick: Tick)
        ensures
            final(self).ack_tick == if input_tick > old(self).ack_tick {
                input_tick
            } else {
                old(self).ack_tick
            },
            final(self).ack_tick >= old(self).ack_tick,
            final(self).ack_tick >= input_tick,
            final(self).value == value,
    {
        if input_tick > self.ack_tick {
            self.ack_tick = input_tick;
        }
        self.value = value;
    }
}

} // verus!
