//! Crash manager: per-app crash counts and restart decisions.
use vstd::prelude::*;
use crate::search::{first_match, lemma_first_match, lemma_first_match_spec};

verus! {

/// Identity of an application process.
#[derive(Clone, Copy, Debug, PartialEq, Eq, Structural)]
pub struct ApplicationId(pub u64);

#[derive(Clone, Copy, Debug)]
pub struct CrashEntry {
    pub app_id: ApplicationId,
    pub crash_count: u32,
    pub last_crash_tick: u64,
    pub panic_reason: Option<&'static str>,
    pub restart_requested: bool,
}

/// The entry belongs to `id`.
pub open spec fn is_app(id: ApplicationId) -> spec_fn(CrashEntry) -> bool {
    |e: CrashEntry| e.app_id == id
}

/// Index of the first entry of `id`, or -1.
pub open spec fn entry_index(entries: Seq<CrashEntry>, id: ApplicationId) -> int {
    first_match(entries, is_app(id))
}

/// The entries after a crash of `id` at `tick`: the app's first entry counts
/// one more crash and takes the tick and reason, or a fresh entry is added.
pub open spec fn after_crash(
    entries: Seq<CrashEntry>,
    id: ApplicationId,
    tick: u64,
    reason: Option<&'static str>,
) -> Seq<CrashEntry> {
    let k = entry_index(entries, id);
    if k >= 0 {
        entries.update(
            k,
            CrashEntry {
                crash_count: (entries[k].crash_count + 1) as u32,
                last_crash_tick: tick,
                panic_reason: reason,
                ..entries[k]
            },
        )
    } else {
        entries.push(
            CrashEntry {
                app_id: id,
                crash_count: 1,
                last_crash_tick: tick,
                panic_reason: reason,
                restart_requested: false,
            },
        )
    }
}

/// Whether an app should be restarted: it has an entry with fewer than three
/// crashes and no restart requested yet.
pub open spec fn restart_due(entries: Seq<CrashEntry>, id: ApplicationId) -> bool {
    let k = entry_index(entries, id);
    k >= 0 && entries[k].crash_count < 3 && !entries[k].restart_requested
}

pub struct CrashManager {
    pub entries: Vec<CrashEntry>,
}

impl CrashManager {
    pub fn new() -> (m: Self)
        ensures
            m.entries@ == Seq::<CrashEntry>::empty(),
    {
        CrashManager { entries: Vec::new() }
    }

    /// Index of the first entry of `app_id`.
    fn find(&self, app_id: ApplicationId) -> (r: Option<usize>)
        ensures
            match r {
                Some(k) => k as int == entry_index(self.entries@, app_id),
                None => entry_index(self.entries@, app_id) < 0,
            },
    {
        let mut k: usize = 0;
        while k < self.entries.len()
            invariant
                k <= self.entries@.len(),
                forall|j: int| 0 <= j < k ==> !is_app(app_id)(#[trigger] self.entries@[j]),
            decreases self.entries@.len() - k,
        {
            if self.entries[k].app_id == app_id {
                proof {
                    lemma_first_match(self.entries@, is_app(app_id), k as int);
                }
                return Some(k);
            }
            k = k + 1;
        }
        proof {
            lemma_first_match(self.entries@, is_app(app_id), k as int);
        }
        None
    }

    pub fn report_crash(&mut self, app_id: ApplicationId, tick: u64, reason: Option<&'static str>)
        requires
            entry_index(old(self).entries@, app_id) >= 0 ==> old(self).entries@[entry_index(
                old(self).entries@,
                app_id,
            )].crash_count < u32::MAX,
        ensures
            final(self).entries@ == after_crash(old(self).entries@, app_id, tick, reason),
    {
        proof {
            lemma_first_match_spec(self.entries@, is_app(app_id));
        }
        match self.find(app_id) {
            Some(k) => {
                let mut e = self.entries[k];
                e.crash_count += 1;
                e.last_crash_tick = tick;
                e.panic_reason = reason;
                self.entries.set(k, e);
            },
            None => {
                self.entries.push(
                    CrashEntry {
                        app_id,
                        crash_count: 1,
                        last_crash_tick: tick,
                        panic_reason: reason,
                        restart_requested: false,
                    },
                );
            },
        }
    }

    /// Mark the app's first entry as having a restart requested.
    pub fn request_restart(&mut self, app_id: ApplicationId)
        ensures
            ({
                let k = entry_index(old(self).entries@, app_id);
                if k >= 0 {
                    final(self).entries@ == old(self).entries@.update(
                        k,
                        CrashEntry { restart_requested: true, ..old(self).entries@[k] },
                    )
                } else {
                    final(self).entries@ == old(self).entries@
                }
            }),
    {
        proof {
            lemma_first_match_spec(self.entries@, is_app(app_id));
        }
        match self.find(app_id) {
            Some(k) => {
                let mut e = self.entries[k];
                e.restart_requested = true;
                self.entries.set(k, e);
            },
            None => {},
        }
    }

    pub fn should_restart(&self, app_id: ApplicationId) -> (r: bool)
        ensures
            r == restart_due(self.entries@, app_id),
    {
        proof {
            lemma_first_match_spec(self.entries@, is_app(app_id));
        }
        match self.find(app_id) {
            Some(k) => self.entries[k].crash_count < 3 && !self.entries[k].restart_requested,
            None => false,
        }
    }

    /// Nothing to age between ticks.
    pub fn tick(&mut self)
        ensures
            final(self).entries@ == old(self).entries@,
    {
    }
}

/// After a crash is reported the app has an entry, and the crash is counted:
/// a first crash gives a count of one, a later one adds one to the count.
pub proof fn law_crash_counted(
    entries: Seq<CrashEntry>,
    id: ApplicationId,
    tick: u64,
    reason: Option<&'static str>,
)
    requires
        entry_index(entries, id) >= 0 ==> entries[entry_index(entries, id)].crash_count < u32::MAX,
    ensures
        ({
            let after = after_crash(entries, id, tick, reason);
            let k = entry_index(after, id);
            &&& k >= 0
            &&& after[k].last_crash_tick == tick
            &&& after[k].crash_count == if entry_index(entries, id) >= 0 {
                entries[entry_index(entries, id)].crash_count + 1
            } else {
                1
            }
        }),
{
    lemma_first_match_spec(entries, is_app(id));
    let k0 = entry_index(entries, id);
    let after = after_crash(entries, id, tick, reason);
    if k0 >= 0 {
        lemma_first_match(after, is_app(id), k0);
    } else {
        lemma_first_match(after, is_app(id), entries.len() as int);
    }
}

/// An app is never due a restart once three crashes are counted or a restart
/// has been requested; after `request_restart` it is never due.
pub proof fn law_restart_withheld(entries: Seq<CrashEntry>, id: ApplicationId)
    ensures
        ({
            let k = entry_index(entries, id);
            k >= 0 && (entries[k].crash_count >= 3 || entries[k].restart_requested) ==> !restart_due(
                entries,
                id,
            )
        }),
        ({
            let k = entry_index(entries, id);
            k >= 0 ==> !restart_due(
                entries.update(k, CrashEntry { restart_requested: true, ..entries[k] }),
                id,
            )
        }),
{
    lemma_first_match_spec(entries, is_app(id));
    let k = entry_index(entries, id);
    if k >= 0 {
        let e2 = entries.update(k, CrashEntry { restart_requested: true, ..entries[k] });
        assert forall|j: int| 0 <= j < k implies !is_app(id)(#[trigger] e2[j]) by {
            assert(e2[j] == entries[j]);
        }
        lemma_first_match(e2, is_app(id), k);
    }
}

} // verus!
