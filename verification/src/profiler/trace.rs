//! Fixed-size ring of trace events.
use vstd::prelude::*;
use vstd::std_specs::slice::into_iter_elts;

verus! {

/// Number of slots in the ring.
pub const TRACE_SLOTS: usize = 256;

#[derive(Clone, Copy)]
pub struct TraceEntry {
    pub tick: u64,
    pub event: &'static str,
    pub data: u64,
}

pub struct TraceBuffer {
    pub entries: [TraceEntry; 256],
    pub index: usize,
    pub count: usize,
}

impl TraceBuffer {
    pub fn new() -> (b: Self)
        ensures
            forall|i: int| 0 <= i < 256 ==> #[trigger] b.entries@[i] == (TraceEntry {
                tick: 0,
                event: "",
                data: 0,
            }),
            b.index == 0,
            b.count == 0,
    {
        TraceBuffer { entries: [TraceEntry { tick: 0, event: "", data: 0 }; 256], index: 0, count: 0 }
    }

    /// Write an event into the slot at the cursor, advance the cursor round
    /// the ring, and count the event up to the ring's size.
    pub fn push(&mut self, tick: u64, event: &'static str, data: u64)
        requires
            old(self).index < TRACE_SLOTS,
        ensures
            final(self).entries@ == old(self).entries@.update(
                old(self).index as int,
                TraceEntry { tick, event, data },
            ),
            final(self).index == (old(self).index + 1) % 256,
            final(self).count == if old(self).count < 256 {
                old(self).count + 1
            } else {
                old(self).count as int
            },
    {
        self.entries[self.index] = TraceEntry { tick, event, data };
        self.index = (self.index + 1) % 256;
        if self.count < 256 {
            self.count += 1;
        }
    }

    /// The first `count` slots, in slot order.
    pub fn iter(&self) -> (r: core::slice::Iter<'_, TraceEntry>)
        requires
            self.count <= TRACE_SLOTS,
        ensures
            into_iter_elts(r) == self.entries@.subrange(0, self.count as int),
    {
        let s: &[TraceEntry] = self.entries.as_slice();
        s[0..self.count].iter()
    }
}

/// The ring's bookkeeping as a push leaves it: the cursor stays inside the
/// ring, the count never passes the ring's size, and until the ring is full
/// the cursor equals the count, so the first `count` slots hold the pushed
/// events oldest first. A new ring meets this, and each push keeps it.
pub proof fn law_trace_ring_invariant(index: int, count: int)
    requires
        0 <= index < 256,
        0 <= count <= 256,
        count < 256 ==> index == count,
    ensures
        ({
            let next_index = (index + 1) % 256;
            let next_count = if count < 256 {
                count + 1
            } else {
                count
            };
            &&& 0 <= next_index < 256
            &&& 0 <= next_count <= 256
            &&& next_count < 256 ==> next_index == next_count
        }),
{
}

} // verus!
