//! Application catalog: the single app table, categories, and launch tracking.
//!
//! The app table, category list, pinned flags and the one recent-apps list
//! live here together; `recent` is the single owner of launch history.
use vstd::prelude::*;
use std::collections::VecDeque;
use vstd::string::StringSliceAdditionalSpecFns;
use crate::text::{str_eq, has_infix, lower_bytes};
use crate::app_query::{
    after_launch, lowered_query, name_matches, name_matches_query, query_of, record_in_recent,
    sort_by_pin_then_name, sorted_ids, stable_by_key, key_sorted, ids_in_range,
};

verus! {

broadcast use vstd::seq_lib::group_to_multiset_ensures;

#[derive(Clone, Copy, Debug, PartialEq, Eq, Structural)]
pub enum AppCategory {
    All,
    Favorites,
    System,
    Development,
    Office,
    Graphics,
    Network,
    Multimedia,
    Games,
    Utilities,
}

/// One row of the built-in app table.
#[derive(Clone, Copy, Debug)]
pub struct AppEntry {
    pub name: &'static str,
    /// One-line description shown in the start-menu tooltip.
    pub desc: &'static str,
    pub cat: AppCategory,
    pub exec_path: &'static str,
    pub icon: char,
}

/// Number of rows in the built-in app table.
pub const APP_COUNT: usize = 28;

/// Entry `i` of the built-in app table.
pub open spec fn catalog_entry(i: int) -> AppEntry {
    if i == 0 {
        AppEntry { name: "Terminal", desc: "Shell with pty support", cat: AppCategory::System, exec_path: "/bin/sash", icon: '\x1B' }
    } else if i == 1 {
        AppEntry { name: "File Manager", desc: "Browse and manage files", cat: AppCategory::System, exec_path: "/bin/skyfiles", icon: 'F' }
    } else if i == 2 {
        AppEntry { name: "SkyStore", desc: "Install and update apps", cat: AppCategory::Utilities, exec_path: "/bin/skystore", icon: 'S' }
    } else if i == 3 {
        AppEntry { name: "System Info", desc: "Kernel and machine details", cat: AppCategory::System, exec_path: "/bin/uname", icon: 'i' }
    } else if i == 4 {
        AppEntry { name: "Calculator", desc: "Basic arithmetic calculator", cat: AppCategory::Utilities, exec_path: "/bin/calculator", icon: '+' }
    } else if i == 5 {
        AppEntry { name: "SkyEdit", desc: "Plain-text code editor", cat: AppCategory::Development, exec_path: "/bin/skyedit", icon: 'E' }
    } else if i == 6 {
        AppEntry { name: "Settings", desc: "Desktop appearance and options", cat: AppCategory::System, exec_path: "/bin/skysettings", icon: '\u{2699}' }
    } else if i == 7 {
        AppEntry { name: "System Monitor", desc: "Processes and memory usage", cat: AppCategory::System, exec_path: "/bin/sysmon", icon: 'M' }
    } else if i == 8 {
        AppEntry { name: "Calendar", desc: "Month view calendar", cat: AppCategory::Office, exec_path: "/bin/calendar", icon: 'D' }
    } else if i == 9 {
        AppEntry { name: "Notes", desc: "Quick sticky notes", cat: AppCategory::Office, exec_path: "/bin/notes", icon: 'N' }
    } else if i == 10 {
        AppEntry { name: "Paint", desc: "Simple drawing canvas", cat: AppCategory::Graphics, exec_path: "/bin/paint", icon: 'P' }
    } else if i == 11 {
        AppEntry { name: "Clock", desc: "Digital clock display", cat: AppCategory::Office, exec_path: "/bin/clock", icon: 'T' }
    } else if i == 12 {
        AppEntry { name: "Tasks", desc: "Todo and task list", cat: AppCategory::Office, exec_path: "/bin/tasks", icon: 'K' }
    } else if i == 13 {
        AppEntry { name: "Search", desc: "Find files and apps", cat: AppCategory::Utilities, exec_path: "/bin/search", icon: '?' }
    } else if i == 14 {
        AppEntry { name: "Archive Manager", desc: "Create and extract archives", cat: AppCategory::Utilities, exec_path: "/bin/archive", icon: 'Z' }
    } else if i == 15 {
        AppEntry { name: "Image Viewer", desc: "View images and screenshots", cat: AppCategory::Graphics, exec_path: "/bin/sargaview", icon: 'I' }
    } else if i == 16 {
        AppEntry { name: "About SARGA", desc: "About this operating system", cat: AppCategory::System, exec_path: "", icon: 'A' }
    } else if i == 17 {
        AppEntry { name: "Web Browser", desc: "Browse the world wide web", cat: AppCategory::Network, exec_path: "/bin/skywebbrowser", icon: '@' }
    } else if i == 18 {
        AppEntry { name: "Mail", desc: "Read and send email", cat: AppCategory::Network, exec_path: "/bin/skymail", icon: 'M' }
    } else if i == 19 {
        AppEntry { name: "Media Player", desc: "Play audio and video", cat: AppCategory::Multimedia, exec_path: "/bin/skymedia", icon: '\u{266B}' }
    } else if i == 20 {
        AppEntry { name: "Audio Recorder", desc: "Record audio input", cat: AppCategory::Multimedia, exec_path: "/bin/skyrecorder", icon: 'R' }
    } else if i == 21 {
        AppEntry { name: "Chess", desc: "Play chess against a friend", cat: AppCategory::Games, exec_path: "/bin/skychess", icon: '\u{265E}' }
    } else if i == 22 {
        AppEntry { name: "Sudoku", desc: "Number puzzle game", cat: AppCategory::Games, exec_path: "/bin/skysudoku", icon: '9' }
    } else if i == 23 {
        AppEntry { name: "Text Extractor", desc: "Pull text from documents", cat: AppCategory::Utilities, exec_path: "/bin/skyextractor", icon: 'X' }
    } else if i == 24 {
        AppEntry { name: "Disk Usage", desc: "Space used per directory", cat: AppCategory::Utilities, exec_path: "/bin/skydisk", icon: 'D' }
    } else if i == 25 {
        AppEntry { name: "Package Manager", desc: "Install and remove packages", cat: AppCategory::Utilities, exec_path: "/bin/spkg", icon: '#' }
    } else if i == 26 {
        AppEntry { name: "Screenshot", desc: "Capture the whole screen", cat: AppCategory::Utilities, exec_path: "/bin/skyscreenshot", icon: 'C' }
    } else {
        AppEntry { name: "IPC Echo", desc: "Test the IPC transport", cat: AppCategory::Utilities, exec_path: "/bin/ipc_echo", icon: '=' }
    }
}

/// Entry `i` of the built-in app table.
fn app_entry(i: usize) -> (e: AppEntry)
    requires
        i < 28,
    ensures
        e == catalog_entry(i as int),
{
    if i == 0 {
        AppEntry { name: "Terminal", desc: "Shell with pty support", cat: AppCategory::System, exec_path: "/bin/sash", icon: '\x1B' }
    } else if i == 1 {
        AppEntry { name: "File Manager", desc: "Browse and manage files", cat: AppCategory::System, exec_path: "/bin/skyfiles", icon: 'F' }
    } else if i == 2 {
        AppEntry { name: "SkyStore", desc: "Install and update apps", cat: AppCategory::Utilities, exec_path: "/bin/skystore", icon: 'S' }
    } else if i == 3 {
        AppEntry { name: "System Info", desc: "Kernel and machine details", cat: AppCategory::System, exec_path: "/bin/uname", icon: 'i' }
    } else if i == 4 {
        AppEntry { name: "Calculator", desc: "Basic arithmetic calculator", cat: AppCategory::Utilities, exec_path: "/bin/calculator", icon: '+' }
    } else if i == 5 {
        AppEntry { name: "SkyEdit", desc: "Plain-text code editor", cat: AppCategory::Development, exec_path: "/bin/skyedit", icon: 'E' }
    } else if i == 6 {
        AppEntry { name: "Settings", desc: "Desktop appearance and options", cat: AppCategory::System, exec_path: "/bin/skysettings", icon: '\u{2699}' }
    } else if i == 7 {
        AppEntry { name: "System Monitor", desc: "Processes and memory usage", cat: AppCategory::System, exec_path: "/bin/sysmon", icon: 'M' }
    } else if i == 8 {
        AppEntry { name: "Calendar", desc: "Month view calendar", cat: AppCategory::Office, exec_path: "/bin/calendar", icon: 'D' }
    } else if i == 9 {
        AppEntry { name: "Notes", desc: "Quick sticky notes", cat: AppCategory::Office, exec_path: "/bin/notes", icon: 'N' }
    } else if i == 10 {
        AppEntry { name: "Paint", desc: "Simple drawing canvas", cat: AppCategory::Graphics, exec_path: "/bin/paint", icon: 'P' }
    } else if i == 11 {
        AppEntry { name: "Clock", desc: "Digital clock display", cat: AppCategory::Office, exec_path: "/bin/clock", icon: 'T' }
    } else if i == 12 {
        AppEntry { name: "Tasks", desc: "Todo and task list", cat: AppCategory::Office, exec_path: "/bin/tasks", icon: 'K' }
    } else if i == 13 {
        AppEntry { name: "Search", desc: "Find files and apps", cat: AppCategory::Utilities, exec_path: "/bin/search", icon: '?' }
    } else if i == 14 {
        AppEntry { name: "Archive Manager", desc: "Create and extract archives", cat: AppCategory::Utilities, exec_path: "/bin/archive", icon: 'Z' }
    } else if i == 15 {
        AppEntry { name: "Image Viewer", desc: "View images and screenshots", cat: AppCategory::Graphics, exec_path: "/bin/sargaview", icon: 'I' }
    } else if i == 16 {
        AppEntry { name: "About SARGA", desc: "About this operating system", cat: AppCategory::System, exec_path: "", icon: 'A' }
    } else if i == 17 {
        AppEntry { name: "Web Browser", desc: "Browse the world wide web", cat: AppCategory::Network, exec_path: "/bin/skywebbrowser", icon: '@' }
    } else if i == 18 {
        AppEntry { name: "Mail", desc: "Read and send email", cat: AppCategory::Network, exec_path: "/bin/skymail", icon: 'M' }
    } else if i == 19 {
        AppEntry { name: "Media Player", desc: "Play audio and video", cat: AppCategory::Multimedia, exec_path: "/bin/skymedia", icon: '\u{266B}' }
    } else if i == 20 {
        AppEntry { name: "Audio Recorder", desc: "Record audio input", cat: AppCategory::Multimedia, exec_path: "/bin/skyrecorder", icon: 'R' }
    } else if i == 21 {
        AppEntry { name: "Chess", desc: "Play chess against a friend", cat: AppCategory::Games, exec_path: "/bin/skychess", icon: '\u{265E}' }
    } else if i == 22 {
        AppEntry { name: "Sudoku", desc: "Number puzzle game", cat: AppCategory::Games, exec_path: "/bin/skysudoku", icon: '9' }
    } else if i == 23 {
        AppEntry { name: "Text Extractor", desc: "Pull text from documents", cat: AppCategory::Utilities, exec_path: "/bin/skyextractor", icon: 'X' }
    } else if i == 24 {
        AppEntry { name: "Disk Usage", desc: "Space used per directory", cat: AppCategory::Utilities, exec_path: "/bin/skydisk", icon: 'D' }
    } else if i == 25 {
        AppEntry { name: "Package Manager", desc: "Install and remove packages", cat: AppCategory::Utilities, exec_path: "/bin/spkg", icon: '#' }
    } else if i == 26 {
        AppEntry { name: "Screenshot", desc: "Capture the whole screen", cat: AppCategory::Utilities, exec_path: "/bin/skyscreenshot", icon: 'C' }
    } else {
        AppEntry { name: "IPC Echo", desc: "Test the IPC transport", cat: AppCategory::Utilities, exec_path: "/bin/ipc_echo", icon: '=' }
    }
}


/// The category tabs of the start menu, with their labels.
pub fn categories() -> (r: Vec<(&'static str, AppCategory)>)
    ensures
        r@ == seq![
            ("All", AppCategory::All),
            ("Favorites", AppCategory::Favorites),
            ("System", AppCategory::System),
            ("Development", AppCategory::Development),
            ("Office", AppCategory::Office),
            ("Graphics", AppCategory::Graphics),
            ("Network", AppCategory::Network),
            ("Multimedia", AppCategory::Multimedia),
            ("Games", AppCategory::Games),
            ("Utilities", AppCategory::Utilities),
        ],
{
    vec![
        ("All", AppCategory::All),
        ("Favorites", AppCategory::Favorites),
        ("System", AppCategory::System),
        ("Development", AppCategory::Development),
        ("Office", AppCategory::Office),
        ("Graphics", AppCategory::Graphics),
        ("Network", AppCategory::Network),
        ("Multimedia", AppCategory::Multimedia),
        ("Games", AppCategory::Games),
        ("Utilities", AppCategory::Utilities),
    ]
}

#[derive(Clone, Copy, Debug, PartialEq, Eq, Structural)]
pub struct AppId(pub usize);

#[derive(Clone, Copy, Debug, PartialEq, Eq, Structural)]
pub enum StartupMode {
    Normal,
    Singleton,
}

#[derive(Clone, Copy, Debug)]
pub struct AppInfo {
    pub id: AppId,
    pub name: &'static str,
    /// One-line description shown in the start-menu tooltip.
    pub description: &'static str,
    pub icon: char,
    pub category: AppCategory,
    pub executable: &'static str,
    pub startup_mode: StartupMode,
}

/// The app record that table row `i` becomes: its index is its id, and only
/// the app named "Settings" runs as a singleton.
pub open spec fn catalog_app(i: int) -> AppInfo {
    let e = catalog_entry(i);
    AppInfo {
        id: AppId(i as usize),
        name: e.name,
        description: e.desc,
        icon: e.icon,
        category: e.cat,
        executable: e.exec_path,
        startup_mode: if e.name@ == "Settings"@ {
            StartupMode::Singleton
        } else {
            StartupMode::Normal
        },
    }
}

/// Ids as plain indices.
pub open spec fn id_indices(ids: Seq<AppId>) -> Seq<usize> {
    ids.map_values(|a: AppId| a.0)
}

/// The single app catalog: the installed-app list, pin flags, and the one
/// recent-apps queue. This is the only place launch history lives.
pub struct AppCatalog {
    pub apps: Vec<AppInfo>,
    pub pinned: Vec<bool>,
    pub recent: VecDeque<usize>,
}

/// An app is listed exactly when it is in the category asked for (any
/// category under All and Favorites), is pinned when Favorites is asked for,
/// and its name, ASCII-lowercased, contains the lowered query, whatever the
/// category, Favorites included; an empty query matches every name.
pub proof fn law_selection_members(c: AppCatalog, cat: AppCategory, q: Seq<u8>, n: int)
    requires
        0 <= n <= c.apps@.len(),
    ensures
        forall|x: usize|
            c.selection(cat, q, n).contains(x) <==> exists|k: int|
                0 <= k < n && #[trigger] c.apps@[k].id.0 == x && (q.len() == 0 || has_infix(
                    lower_bytes(c.apps@[k].name.spec_bytes()),
                    q,
                )) && (cat == AppCategory::Favorites ==> c.pinned@[x as int]) && (cat
                    == AppCategory::All || cat == AppCategory::Favorites || c.apps@[k].category
                    == cat),
    decreases n,
{
    if n > 0 {
        law_selection_members(c, cat, q, n - 1);
        let s = c.selection(cat, q, n - 1);
        let a = c.apps@[n - 1];
        assert forall|x: usize| c.selection(cat, q, n).contains(x) <==> exists|k: int|
            0 <= k < n && #[trigger] c.apps@[k].id.0 == x && (q.len() == 0 || has_infix(
                lower_bytes(c.apps@[k].name.spec_bytes()),
                q,
            )) && (cat == AppCategory::Favorites ==> c.pinned@[x as int]) && (cat == AppCategory::All
                || cat == AppCategory::Favorites || c.apps@[k].category == cat) by {
            if c.selected(n - 1, cat, q) {
                assert(c.selection(cat, q, n) == s.push(a.id.0));
                if s.push(a.id.0).contains(x) && x != a.id.0 {
                    let j = choose|j: int| 0 <= j < s.push(a.id.0).len() && s.push(a.id.0)[j] == x;
                    assert(s[j] == x);
                }
                if s.contains(x) {
                    let j = choose|j: int| 0 <= j < s.len() && s[j] == x;
                    assert(s.push(a.id.0)[j] == x);
                }
                assert(s.push(a.id.0)[s.len() as int] == a.id.0);
            } else {
                assert(c.selection(cat, q, n) == s);
            }
        }
    }
}

impl AppCatalog {
    /// Every app's id indexes both the app list and the pin list (the pin
    /// list may run longer than the app list).
    pub open spec fn wf(&self) -> bool {
        forall|k: int|
            0 <= k < self.apps@.len() ==> #[trigger] self.apps@[k].id.0 < self.apps@.len()
                && self.apps@[k].id.0 < self.pinned@.len()
    }

    /// Every app's id is its position in the app list.
    pub open spec fn ids_are_positions(&self) -> bool {
        forall|k: int| 0 <= k < self.apps@.len() ==> #[trigger] self.apps@[k].id.0 == k
    }

    /// The names of the apps, by position.
    pub open spec fn names(&self) -> Seq<&'static str> {
        self.apps@.map_values(|a: AppInfo| a.name)
    }

    /// App `k` is listed under category `cat` for the lowered query `q`.
    pub open spec fn selected(&self, k: int, cat: AppCategory, q: Seq<u8>) -> bool {
        let a = self.apps@[k];
        &&& (cat == AppCategory::All || a.category == cat || cat == AppCategory::Favorites)
        &&& (cat == AppCategory::Favorites ==> self.pinned@[a.id.0 as int])
        &&& name_matches(a.name.spec_bytes(), q)
    }

    /// Ids of the first `n` apps that are listed, in table order.
    pub open spec fn selection(&self, cat: AppCategory, q: Seq<u8>, n: int) -> Seq<usize>
        decreases n,
    {
        if n <= 0 {
            Seq::empty()
        } else {
            let s = self.selection(cat, q, n - 1);
            if self.selected(n - 1, cat, q) {
                s.push(self.apps@[n - 1].id.0)
            } else {
                s
            }
        }
    }

    pub fn new() -> (c: Self)
        ensures
            c.wf(),
            c.ids_are_positions(),
            c.apps@.len() == APP_COUNT,
            forall|i: int| 0 <= i < APP_COUNT ==> #[trigger] c.apps@[i] == catalog_app(i),
            c.pinned@ == Seq::new(APP_COUNT as nat, |i: int| false),
            c.recent@ == Seq::<usize>::empty(),
    {
        let mut apps: Vec<AppInfo> = Vec::new();
        let mut i: usize = 0;
        while i < APP_COUNT
            invariant
                i <= APP_COUNT,
                apps@.len() == i,
                forall|k: int| 0 <= k < i ==> #[trigger] apps@[k] == catalog_app(k),
            decreases APP_COUNT - i,
        {
            let entry = app_entry(i);
            let icon = if entry.icon != '\0' {
                entry.icon
            } else {
                entry.name.as_bytes()[0] as char
            };
            let info = AppInfo {
                id: AppId(i),
                name: entry.name,
                description: entry.desc,
                icon,
                category: entry.cat,
                executable: entry.exec_path,
                startup_mode: if str_eq(entry.name, "Settings") {
                    StartupMode::Singleton
                } else {
                    StartupMode::Normal
                },
            };
            apps.push(info);
            i = i + 1;
        }
        let pinned = vec![false; APP_COUNT];
        assert(pinned@ =~= Seq::new(APP_COUNT as nat, |i: int| false));
        AppCatalog { apps, pinned, recent: VecDeque::new() }
    }

    /// Record a launch: move the app to the front of the recent queue
    /// (most-recent-first, capped at 10).
    pub fn record_launch(&mut self, id: AppId)
        ensures
            final(self).recent@ == after_launch(old(self).recent@, id.0),
            final(self).apps@ == old(self).apps@,
            final(self).pinned@ == old(self).pinned@,
    {
        record_in_recent(&mut self.recent, id.0);
    }

    pub fn get(&self, id: AppId) -> (r: Option<&AppInfo>)
        ensures
            id.0 < self.apps@.len() ==> r == Some(&self.apps@[id.0 as int]),
            id.0 >= self.apps@.len() ==> r is None,
    {
        if id.0 < self.apps.len() {
            Some(&self.apps[id.0])
        } else {
            None
        }
    }

    /// The ids listed under `cat` for a raw search buffer. Without a query,
    /// or under "All", the list is pinned-first and then by name; otherwise it
    /// keeps table order.
    pub fn filtered(&self, cat: AppCategory, search: &[u8]) -> (r: Vec<AppId>)
        requires
            self.wf(),
        ensures
            ({
                let sel = self.selection(cat, query_of(search@), self.apps@.len() as int);
                let ids = id_indices(r@);
                &&& forall|x: usize| ids.contains(x) <==> sel.contains(x)
                &&& if cat == AppCategory::All || query_of(search@).len() == 0 {
                    &&& ids == stable_by_key(self.pinned@, self.names(), sel)
                    &&& ids.to_multiset() == sel.to_multiset()
                    &&& key_sorted(self.pinned@, self.names(), ids)
                    &&& self.ids_are_positions() ==> sorted_ids(self.pinned@, self.names(), ids)
                } else {
                    ids == sel
                }
            }),
    {
        broadcast use vstd::seq_lib::group_to_multiset_ensures;

        let query = lowered_query(search);
        let ghost q = query_of(search@);
        let mut result: Vec<usize> = Vec::new();
        let n = self.apps.len();
        let mut k: usize = 0;
        while k < n
            invariant
                self.wf(),
                n == self.apps@.len(),
                k <= n,
                query@ == q,
                result@ == self.selection(cat, q, k as int),
                ids_in_range(self.pinned@, self.names(), result@),
                self.ids_are_positions() ==> forall|a: int|
                    0 <= a < result@.len() ==> #[trigger] result@[a] < k,
                self.ids_are_positions() ==> forall|a: int, b: int|
                    0 <= a < b < result@.len() ==> result@[a] < result@[b],
            decreases n - k,
        {
            let app = &self.apps[k];
            let i = app.id.0;
            if cat == AppCategory::All || app.category == cat || cat == AppCategory::Favorites {
                if cat != AppCategory::Favorites || self.pinned[i] {
                    if name_matches_query(app.name, &query) {
                        result.push(i);
                    }
                }
            }
            k = k + 1;
        }
        let ghost listed = result@;
        if cat == AppCategory::All || query.len() == 0 {
            let mut names: Vec<&'static str> = Vec::new();
            let mut j: usize = 0;
            while j < n
                invariant
                    n == self.apps@.len(),
                    j <= n,
                    names@ == self.names().subrange(0, j as int),
                decreases n - j,
            {
                names.push(self.apps[j].name);
                j = j + 1;
                assert(names@ =~= self.names().subrange(0, j as int));
            }
            assert(names@ =~= self.names());
            result = sort_by_pin_then_name(&result, &self.pinned, &names);
        }
        assert forall|x: usize| result@.contains(x) <==> listed.contains(x) by {
            assert(result@.to_multiset().count(x) == listed.to_multiset().count(x));
        }
        let mut out: Vec<AppId> = Vec::new();
        let mut j: usize = 0;
        while j < result.len()
            invariant
                j <= result@.len(),
                out@.len() == j,
                id_indices(out@) == result@.subrange(0, j as int),
            decreases result@.len() - j,
        {
            let ghost before = out@;
            out.push(AppId(result[j]));
            assert(out@ == before.push(AppId(result@[j as int])));
            assert forall|t: int| 0 <= t < out@.len() implies #[trigger] id_indices(out@)[t]
                == result@.subrange(0, j + 1)[t] by {
                if t < before.len() {
                    assert(id_indices(before)[t] == result@.subrange(0, j as int)[t]);
                }
            }
            j = j + 1;
            assert(id_indices(out@) =~= result@.subrange(0, j as int));
        }
        assert(result@.subrange(0, result@.len() as int) =~= result@);
        out
    }
}

} // verus!
