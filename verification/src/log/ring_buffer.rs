//! Fixed-size ring of recent log entries.
use vstd::prelude::*;
use crate::log::levels::LogLevel;
use vstd::std_specs::slice::into_iter_elts;

verus! {

/// Number of slots in the ring.
pub const LOG_SLOTS: usize = 512;

#[derive(Clone, Copy)]
pub struct LogEntry {
    pub tick: u64,
    pub level: LogLevel,
    pub message: &'static str,
}

pub struct LogRingBuffer {
    pub entries: [LogEntry; 512],
    pub head: usize,
    pub count: usize,
}

/// The ring holds what a new ring holds after pushing `pushes` in order.
pub open spec fn holds_pushes(b: LogRingBuffer, pushes: Seq<LogEntry>) -> bool {
    let (e, h, c) = ring_after(pushes);
    b.entries@ == e && b.head == h && b.count == c
}

impl LogRingBuffer {
    pub fn new() -> (b: Self)
        ensures
            forall|i: int| 0 <= i < 512 ==> #[trigger] b.entries@[i] == (LogEntry {
                tick: 0,
                level: LogLevel::Trace,
                message: "",
            }),
            b.head == 0,
            b.count == 0,
            holds_pushes(b, Seq::empty()),
    {
        let b = LogRingBuffer {
            entries: [LogEntry { tick: 0, level: LogLevel::Trace, message: "" }; 512],
            head: 0,
            count: 0,
        };
        assert(b.entries@ =~= ring_after(Seq::<LogEntry>::empty()).0);
        b
    }

    /// Write an entry into the slot at the head, advance the head round the
    /// ring, and count the entry up to the ring's size.
    pub fn push(&mut self, tick: u64, level: LogLevel, message: &'static str)
        requires
            old(self).head < LOG_SLOTS,
        ensures
            final(self).entries@ == old(self).entries@.update(
                old(self).head as int,
                LogEntry { tick, level, message },
            ),
            final(self).head == (old(self).head + 1) % 512,
            final(self).count == if old(self).count < 512 {
                old(self).count + 1
            } else {
                old(self).count as int
            },
            forall|pushes: Seq<LogEntry>|
                holds_pushes(*old(self), pushes) ==> #[trigger] holds_pushes(
                    *final(self),
                    pushes.push(LogEntry { tick, level, message }),
                ),
    {
        self.entries[self.head] = LogEntry { tick, level, message };
        self.head = (self.head + 1) % 512;
        if self.count < 512 {
            self.count += 1;
        }
        let ghost x = LogEntry { tick, level, message };
        assert forall|pushes: Seq<LogEntry>| holds_pushes(*old(self), pushes) implies #[trigger] holds_pushes(
            *self,
            pushes.push(x),
        ) by {
            assert(pushes.push(x).drop_last() =~= pushes);
            assert(pushes.push(x).last() == x);
        }
    }

    /// The first `count` slots, in slot order.
    pub fn iter(&self) -> (r: core::slice::Iter<'_, LogEntry>)
        requires
            self.count <= LOG_SLOTS,
        ensures
            into_iter_elts(r) == self.entries@.subrange(0, self.count as int),
    {
        let s: &[LogEntry] = self.entries.as_slice();
        s[0..self.count].iter()
    }
}

/// The ring's bookkeeping as a push leaves it: the cursor stays inside the
/// ring, the count never passes the ring's size, and until the ring is full
/// the cursor equals the count, so the first `count` slots hold the pushed
/// entrys oldest first. A new ring meets this, and each push keeps it.
pub proof fn law_log_ring_invariant(head: int, count: int)
    requires
        0 <= head < 512,
        0 <= count <= 512,
        count < 512 ==> head == count,
    ensures
        ({
            let next_head = (head + 1) % 512;
            let next_count = if count < 512 {
                count + 1
            } else {
                count
            };
            &&& 0 <= next_head < 512
            &&& 0 <= next_count <= 512
            &&& next_count < 512 ==> next_head == next_count
        }),
{
}

/// The slots, head and count of a new ring after pushing `pushes` in order:
/// a new ring has every slot blank and head and count zero, and each push is
/// the step that `push` states.
pub open spec fn ring_after(pushes: Seq<LogEntry>) -> (Seq<LogEntry>, int, int)
    decreases pushes.len(),
{
    if pushes.len() == 0 {
        (Seq::new(512, |i: int| LogEntry { tick: 0, level: LogLevel::Trace, message: "" }), 0, 0)
    } else {
        let (e, h, c) = ring_after(pushes.drop_last());
        (
            e.update(h, pushes.last()),
            (h + 1) % 512,
            if c < 512 {
                c + 1
            } else {
                c
            },
        )
    }
}

/// After `k` pushes onto a new ring, the head is `k % 512`, the count is `k`
/// up to 512, and each of the last 512 pushes (all of them while `k <= 512`)
/// sits in slot `j % 512`, `j` counting pushes from zero; so while the ring
/// has not wrapped, its first `count` slots are the pushes in push order.
pub proof fn law_log_ring_pushes(pushes: Seq<LogEntry>)
    ensures
        ({
            let (e, h, c) = ring_after(pushes);
            let k = pushes.len() as int;
            &&& e.len() == 512
            &&& h == k % 512
            &&& c == if k < 512 {
                k
            } else {
                512
            }
            &&& forall|j: int| k - 512 <= j < k && 0 <= j ==> e[j % 512] == #[trigger] pushes[j]
            &&& k <= 512 ==> e.subrange(0, c) == pushes
        }),
    decreases pushes.len(),
{
    let k = pushes.len() as int;
    if k > 0 {
        let pre = pushes.drop_last();
        law_log_ring_pushes(pre);
        let (e0, h0, c0) = ring_after(pre);
        let n = k - 1;
        let (e, h, c) = ring_after(pushes);
        assert(e == e0.update(h0, pushes[n]));
        assert(h == (n + 1) % 512);
        assert forall|j: int| k - 512 <= j < k && 0 <= j implies e[j % 512] == #[trigger] pushes[j] by {
            if j < n {
                assert(pre[j] == pushes[j]);
                assert(j % 512 != n % 512) by {
                    assert(0 < n - j < 512);
                    vstd::arithmetic::div_mod::lemma_fundamental_div_mod(j, 512);
                    vstd::arithmetic::div_mod::lemma_fundamental_div_mod(n, 512);
                    if j % 512 == n % 512 {
                        assert((n - j) == 512 * (n / 512 - j / 512));
                        if n / 512 - j / 512 >= 1 {
                            assert(512 * (n / 512 - j / 512) >= 512) by (nonlinear_arith)
                                requires
                                    n / 512 - j / 512 >= 1,
                            ;
                        } else {
                            assert(512 * (n / 512 - j / 512) <= 0) by (nonlinear_arith)
                                requires
                                    n / 512 - j / 512 <= 0,
                            ;
                        }
                    }
                }
            }
        }
        assert((n + 1) % 512 == (n % 512 + 1) % 512) by {
            vstd::arithmetic::div_mod::lemma_add_mod_noop(n, 1, 512);
        }
        if k <= 512 {
            assert forall|j: int| 0 <= j < c implies #[trigger] e.subrange(0, c)[j] == pushes[j] by {
                assert(j % 512 == j);
                assert(e[j % 512] == pushes[j]);
            }
            assert(e.subrange(0, c) =~= pushes);
        }
    } else {
        assert(ring_after(pushes).0.subrange(0, 0) =~= pushes);
    }
}

} // verus!
