//! The predicted-state history: per replicated component of a predicted
//! entity the client keeps a bounded ordered log of `(value, tick)` pairs,
//! strictly increasing by tick, appended at the tail when a newer remote
//! acknowledgment arrives and pruned from the head when an older ack tick is
//! superseded.

use vstd::prelude::*;
use crate::Tick;

verus! {

/// What remains of a log once every leading entry older than `min_ack` is
/// discarded.
pub open spec fn pruned<V>(s: Seq<(V, Tick)>, min_ack: Tick) -> Seq<(V, Tick)>
    decreases s.len(),
{
    if s.len() == 0 {
        s
    } else if s[0].1 < min_ack {
        pruned(s.drop_first(), min_ack)
    } else {
        s
    }
}

/// A per-component log of predicted values keyed by tick.
#[derive(Debug)]
pub struct PredictedMemory<V> {
    pub values: Vec<(V, Tick)>,
}

impl<V> PredictedMemory<V> {
    /// Entry ticks are strictly increasing: append-only at the tail, pruned
    /// from the head.
    pub open spec fn wf(&self) -> bool {
        forall|i: int, j: int|
            0 <= i < j < self.values@.len() ==> self.values@[i].1 < self.values@[j].1
    }

    /// An empty log, as created on the first observed component value.
    pub fn new() -> (r: PredictedMemory<V>)
        ensures
            r.values@.len() == 0,
            r.wf(),
    {
        PredictedMemory { values: Vec::new() }
    }

    /// The newest acknowledged tick in the log, if any.
    pub fn last_tick(&self) -> (r: Option<Tick>)
        ensures
            r == (if self.values@.len() == 0 {
                None::<Tick>
            } else {
                Some(self.values@.last().1)
            }),
    {
        let len = self.values.len();
        if len == 0 {
            None
        } else {
            Some(self.values[len - 1].1)
        }
    }

    /// The index of the newest entry acknowledged at or before `t`: the
    /// authoritative snapshot a rollback restores before it replays.
    pub fn newest_index_at_or_before(&self, t: Tick) -> (r: Option<usize>)
        requires
            self.wf(),
        ensures
            match r {
                Some(i) => i < self.values@.len() && self.values@[i as int].1 <= t && forall|
                    j: int,
                |
                    i < j < self.values@.len() ==> self.values@[j].1 > t,
                None => forall|j: int| 0 <= j < self.values@.len() ==> self.values@[j].1 > t,
            },
    {
        let mut i: usize = self.values.len();
        while i > 0
            invariant
                0 <= i <= self.values@.len(),
                forall|j: int| i <= j < self.values@.len() ==> self.values@[j].1 > t,
            decreases i,
        {
            if self.values[i - 1].1 <= t {
                return Some(i - 1);
            }
            i = i - 1;
        }
        None
    }

    /// Records a remotely acknowledged value.  Only a strictly newer ack tick
    /// is appended; a stale or repeated one is silently ignored.
    pub fn record(&mut self, value: V, ack_tick: Tick)
        requires
            old(self).wf(),
        ensures
            final(self).wf(),
            (if old(self).values@.len() == 0 || old(self).values@.last().1 < ack_tick {
                final(self).values@ == old(self).values@.push((value, ack_tick))
            } else {
                final(self).values@ == old(self).values@
            }),
    {
        let len = self.values.len();
        let newer = if len == 0 {
            true
        } else {
            self.values[len - 1].1 < ack_tick
        };
        if newer {
            self.values.push((value, ack_tick));
            assert forall|i: int, j: int|
                0 <= i < j < self.values@.len() implies self.values@[i].1
                < self.values@[j].1 by {
                if j == self.values@.len() - 1 && i < j - 1 {
                    assert(old(self).values@[i].1 < old(self).values@[j - 1].1);
                }
            }
        }
    }

    /// Discards every entry with a tick older than `min_ack`.  Afterwards
    /// every remaining entry's tick is at least `min_ack`: the log stays
    /// bounded because a newer ack discards everything it supersedes.
    pub fn prune(&mut self, min_ack: Tick)
        requires
            old(self).wf(),
        ensures
            final(self).wf(),
            final(self).values@ == pruned(old(self).values@, min_ack),
            forall|i: int|
                0 <= i < final(self).values@.len() ==> final(self).values@[i].1 >= min_ack,
    {
        loop
            invariant
                self.wf(),
                pruned(self.values@, min_ack) == pruned(old(self).values@, min_ack),
            ensures
                self.wf(),
                pruned(self.values@, min_ack) == pruned(old(self).values@, min_ack),
                self.values@.len() == 0 || self.values@[0].1 >= min_ack,
            decreases self.values@.len(),
        {
            let len = self.values.len();
            if len == 0 {
                break;
            }
            if self.values[0].1 >= min_ack {
                break;
            }
            let ghost before = self.values@;
            let _ = self.values.remove(0);
            proof {
                assert(self.values@ =~= before.drop_first());
                assert(pruned(before, min_ack) == pruned(before.drop_first(), min_ack));
                assert forall|i: int, j: int|
                    0 <= i < j < self.values@.len() implies self.values@[i].1
                    < self.values@[j].1 by {
                    assert(before[i + 1].1 < before[j + 1].1);
                }
            }
        }
        proof {
            if self.values@.len() > 0 {
                assert(pruned(self.values@, min_ack) == self.values@);
                assert forall|i: int|
                    0 <= i < self.values@.len() implies self.values@[i].1 >= min_ack by {
                    if i > 0 {
                        assert(self.values@[0].1 < self.values@[i].1);
                    }
                }
            }
        }
    }
}

} // verus!
