//! Application registry: installed apps, metadata, capabilities, launch tracking.
use vstd::prelude::*;
use vstd::string::StringSliceAdditionalSpecFns;
use crate::text::{str_eq, has_infix, lower_bytes};
use crate::app_db::{AppCategory, AppDb, APP_COUNT, app_entry, db_entry};
use crate::app_query::{
    after_launch, lowered_query, name_matches, name_matches_query, query_of,
    sort_by_pin_then_name, sorted_ids, stable_by_key, key_sorted, ids_in_range,
};

verus! {

broadcast use vstd::seq_lib::group_to_multiset_ensures;

#[derive(Clone, Copy, Debug, PartialEq, Eq, Structural)]
pub struct AppId(pub usize);

#[derive(Clone, Copy, Debug, PartialEq, Eq, Structural)]
pub enum StartupMode {
    Normal,
    Background,
    Singleton,
}

#[derive(Clone, Copy, Debug)]
pub struct AppInfo {
    pub id: AppId,
    pub name: &'static str,
    pub icon: char,
    pub category: AppCategory,
    pub executable: &'static str,
    pub description: &'static str,
    pub version: &'static str,
    pub startup_mode: StartupMode,
}

/// The app record that table row `i` becomes: its index is its id, every app
/// is version "0.1.0", and only the app named "Settings" runs as a singleton.
pub open spec fn registry_app(i: int) -> AppInfo {
    let e = db_entry(i);
    AppInfo {
        id: AppId(i as usize),
        name: e.name,
        icon: e.icon,
        category: e.cat,
        executable: e.exec_path,
        description: e.desc,
        version: "0.1.0",
        startup_mode: if e.name@ == "Settings"@ {
            StartupMode::Singleton
        } else {
            StartupMode::Normal
        },
    }
}

/// Ids as plain indices.
pub open spec fn id_indices(ids: Seq<AppId>) -> Seq<usize> {
    ids.map_values(|a: AppId| a.0)
}

/// Ids of the first `n` apps of `apps` in category `cat`, in table order.
pub open spec fn ids_in_category(apps: Seq<AppInfo>, cat: AppCategory, n: int) -> Seq<AppId>
    decreases n,
{
    if n <= 0 {
        Seq::empty()
    } else {
        let s = ids_in_category(apps, cat, n - 1);
        if apps[n - 1].category == cat {
            s.push(apps[n - 1].id)
        } else {
            s
        }
    }
}

pub struct AppRegistry {
    pub apps: Vec<AppInfo>,
    pub db: AppDb,
}

/// An app is listed exactly when it is in the category asked for (any
/// category under All and Favorites), is pinned when Favorites is asked for,
/// and its name, ASCII-lowercased, contains the lowered query, whatever the
/// category, Favorites included; an empty query matches every name.
pub proof fn law_selection_members(c: AppRegistry, cat: AppCategory, q: Seq<u8>, n: int)
    requires
        0 <= n <= c.apps@.len(),
    ensures
        forall|x: usize|
            c.selection(cat, q, n).contains(x) <==> exists|k: int|
                0 <= k < n && #[trigger] c.apps@[k].id.0 == x && (q.len() == 0 || has_infix(
                    lower_bytes(c.apps@[k].name.spec_bytes()),
                    q,
                )) && (cat == AppCategory::Favorites ==> c.db.pinned@[x as int]) && (cat
                    == AppCategory::All || cat == AppCategory::Favorites || c.apps@[k].category
                    == cat),
    decreases n,
{
    if n > 0 {
        law_selection_members(c, cat, q, n - 1);
        let s = c.selection(cat, q, n - 1);
        let a = c.apps@[n - 1];
        assert forall|x: usize| c.selection(cat, q, n).contains(x) <==> exists|k: int|
            0 <= k < n && #[trigger] c.apps@[k].id.0 == x && (q.len() == 0 || has_infix(
                lower_bytes(c.apps@[k].name.spec_bytes()),
                q,
            )) && (cat == AppCategory::Favorites ==> c.db.pinned@[x as int]) && (cat == AppCategory::All
                || cat == AppCategory::Favorites || c.apps@[k].category == cat) by {
            if c.selected(n - 1, cat, q) {
                assert(c.selection(cat, q, n) == s.push(a.id.0));
                if s.push(a.id.0).contains(x) && x != a.id.0 {
                    let j = choose|j: int| 0 <= j < s.push(a.id.0).len() && s.push(a.id.0)[j] == x;
                    assert(s[j] == x);
                }
                if s.contains(x) {
                    let j = choose|j: int| 0 <= j < s.len() && s[j] == x;
                    assert(s.push(a.id.0)[j] == x);
                }
                assert(s.push(a.id.0)[s.len() as int] == a.id.0);
            } else {
                assert(c.selection(cat, q, n) == s);
            }
        }
    }
}

impl AppRegistry {
    /// Every app's id indexes both the app list and the pin list (the pin
    /// list may run longer than the app list).
    pub open spec fn wf(&self) -> bool {
        forall|k: int|
            0 <= k < self.apps@.len() ==> #[trigger] self.apps@[k].id.0 < self.apps@.len()
                && self.apps@[k].id.0 < self.db.pinned@.len()
    }

    /// Every app's id is its position in the app list.
    pub open spec fn ids_are_positions(&self) -> bool {
        forall|k: int| 0 <= k < self.apps@.len() ==> #[trigger] self.apps@[k].id.0 == k
    }

    /// The names of the apps, by position.
    pub open spec fn names(&self) -> Seq<&'static str> {
        self.apps@.map_values(|a: AppInfo| a.name)
    }

    /// App `k` is listed under category `cat` for the lowered query `q`.
    pub open spec fn selected(&self, k: int, cat: AppCategory, q: Seq<u8>) -> bool {
        let a = self.apps@[k];
        &&& (cat == AppCategory::All || a.category == cat || cat == AppCategory::Favorites)
        &&& (cat == AppCategory::Favorites ==> self.db.pinned@[a.id.0 as int])
        &&& name_matches(a.name.spec_bytes(), q)
    }

    /// Ids of the first `n` apps that are listed, in table order.
    pub open spec fn selection(&self, cat: AppCategory, q: Seq<u8>, n: int) -> Seq<usize>
        decreases n,
    {
        if n <= 0 {
            Seq::empty()
        } else {
            let s = self.selection(cat, q, n - 1);
            if self.selected(n - 1, cat, q) {
                s.push(self.apps@[n - 1].id.0)
            } else {
                s
            }
        }
    }

    pub fn new() -> (r: Self)
        ensures
            r.wf(),
            r.ids_are_positions(),
            r.apps@.len() == APP_COUNT,
            forall|i: int| 0 <= i < APP_COUNT ==> #[trigger] r.apps@[i] == registry_app(i),
            r.db.pinned@ == Seq::new(APP_COUNT as nat, |i: int| false),
            r.db.recent@ == Seq::<usize>::empty(),
    {
        let mut apps: Vec<AppInfo> = Vec::new();
        let mut i: usize = 0;
        while i < APP_COUNT
            invariant
                i <= APP_COUNT,
                apps@.len() == i,
                forall|k: int| 0 <= k < i ==> #[trigger] apps@[k] == registry_app(k),
            decreases APP_COUNT - i,
        {
            let entry = app_entry(i);
            let icon = if entry.icon != '\0' {
                entry.icon
            } else {
                entry.name.as_bytes()[0] as char
            };
            let info = AppInfo {
                id: AppId(i),
                name: entry.name,
                icon,
                category: entry.cat,
                executable: entry.exec_path,
                description: entry.desc,
                version: "0.1.0",
                startup_mode: if str_eq(entry.name, "Settings") {
                    StartupMode::Singleton
                } else {
                    StartupMode::Normal
                },
            };
            apps.push(info);
            i = i + 1;
        }
        AppRegistry { apps, db: AppDb::new(APP_COUNT) }
    }

    /// Record a launch: the app's record takes the given id and the app moves
    /// to the front of the recent queue.
    pub fn record_launch(&mut self, id: AppId)
        ensures
            id.0 < old(self).apps@.len() ==> final(self).apps@ == old(self).apps@.update(
                id.0 as int,
                AppInfo { id, ..old(self).apps@[id.0 as int] },
            ),
            id.0 >= old(self).apps@.len() ==> final(self).apps@ == old(self).apps@,
            final(self).db.recent@ == after_launch(old(self).db.recent@, id.0),
            final(self).db.pinned@ == old(self).db.pinned@,
    {
        if id.0 < self.apps.len() {
            let mut info = self.apps[id.0];
            info.id = id;
            self.apps.set(id.0, info);
        }
        self.db.record_launch(id.0);
    }

    /// The id of the first app whose executable is `exec`.
    pub fn find_by_exec(&self, exec: &str) -> (r: Option<AppId>)
        ensures
            match r {
                Some(id) => exists|k: int|
                    0 <= k < self.apps@.len() && #[trigger] self.apps@[k].executable@ == exec@
                        && self.apps@[k].id == id && forall|j: int|
                        0 <= j < k ==> self.apps@[j].executable@ != exec@,
                None => forall|k: int|
                    0 <= k < self.apps@.len() ==> #[trigger] self.apps@[k].executable@ != exec@,
            },
    {
        let mut k: usize = 0;
        while k < self.apps.len()
            invariant
                k <= self.apps@.len(),
                forall|j: int| 0 <= j < k ==> #[trigger] self.apps@[j].executable@ != exec@,
            decreases self.apps@.len() - k,
        {
            if str_eq(self.apps[k].executable, exec) {
                return Some(self.apps[k].id);
            }
            k = k + 1;
        }
        None
    }

    /// The id of the first app named `name`.
    pub fn find_by_name(&self, name: &str) -> (r: Option<AppId>)
        ensures
            match r {
                Some(id) => exists|k: int|
                    0 <= k < self.apps@.len() && #[trigger] self.apps@[k].name@ == name@
                        && self.apps@[k].id == id && forall|j: int|
                        0 <= j < k ==> self.apps@[j].name@ != name@,
                None => forall|k: int|
                    0 <= k < self.apps@.len() ==> #[trigger] self.apps@[k].name@ != name@,
            },
    {
        let mut k: usize = 0;
        while k < self.apps.len()
            invariant
                k <= self.apps@.len(),
                forall|j: int| 0 <= j < k ==> #[trigger] self.apps@[j].name@ != name@,
            decreases self.apps@.len() - k,
        {
            if str_eq(self.apps[k].name, name) {
                return Some(self.apps[k].id);
            }
            k = k + 1;
        }
        None
    }

    /// No app carries permission metadata, so no app is found.
    pub fn find_by_permission(&self, _perm: u32) -> (r: Vec<AppId>)
        ensures
            r@.len() == 0,
    {
        Vec::new()
    }

    /// Category names are not matched against apps, so no app is found.
    pub fn find_by_category(&self, _category: &str) -> (r: Vec<AppId>)
        ensures
            r@.len() == 0,
    {
        Vec::new()
    }

    /// The ids of the apps in category `cat`, in table order.
    pub fn apps_by_category(&self, cat: AppCategory) -> (r: Vec<AppId>)
        ensures
            r@ == ids_in_category(self.apps@, cat, self.apps@.len() as int),
    {
        let mut r: Vec<AppId> = Vec::new();
        let mut k: usize = 0;
        while k < self.apps.len()
            invariant
                k <= self.apps@.len(),
                r@ == ids_in_category(self.apps@, cat, k as int),
            decreases self.apps@.len() - k,
        {
            if self.apps[k].category == cat {
                r.push(self.apps[k].id);
            }
            k = k + 1;
        }
        r
    }

    pub fn get(&self, id: AppId) -> (r: Option<&AppInfo>)
        ensures
            id.0 < self.apps@.len() ==> r == Some(&self.apps@[id.0 as int]),
            id.0 >= self.apps@.len() ==> r is None,
    {
        if id.0 < self.apps.len() {
            Some(&self.apps[id.0])
        } else {
            None
        }
    }

    pub fn all_apps(&self) -> (r: &[AppInfo])
        ensures
            r@ == self.apps@,
    {
        self.apps.as_slice()
    }

    /// The ids listed under `cat` for a raw search buffer. Without a query,
    /// or under "All", the list is pinned-first and then by name; otherwise it
    /// keeps table order.
    pub fn filtered(&self, cat: AppCategory, search: &[u8]) -> (r: Vec<AppId>)
        requires
            self.wf(),
        ensures
            ({
                let sel = self.selection(cat, query_of(search@), self.apps@.len() as int);
                let ids = id_indices(r@);
                &&& forall|x: usize| ids.contains(x) <==> sel.contains(x)
                &&& if cat == AppCategory::All || query_of(search@).len() == 0 {
                    &&& ids == stable_by_key(self.db.pinned@, self.names(), sel)
                    &&& ids.to_multiset() == sel.to_multiset()
                    &&& key_sorted(self.db.pinned@, self.names(), ids)
                    &&& self.ids_are_positions() ==> sorted_ids(self.db.pinned@, self.names(), ids)
                } else {
                    ids == sel
                }
            }),
    {
        broadcast use vstd::seq_lib::group_to_multiset_ensures;

        let query = lowered_query(search);
        let ghost q = query_of(search@);
        let mut result: Vec<usize> = Vec::new();
        let n = self.apps.len();
        let mut k: usize = 0;
        while k < n
            invariant
                self.wf(),
                n == self.apps@.len(),
                k <= n,
                query@ == q,
                result@ == self.selection(cat, q, k as int),
                ids_in_range(self.db.pinned@, self.names(), result@),
                self.ids_are_positions() ==> forall|a: int|
                    0 <= a < result@.len() ==> #[trigger] result@[a] < k,
                self.ids_are_positions() ==> forall|a: int, b: int|
                    0 <= a < b < result@.len() ==> result@[a] < result@[b],
            decreases n - k,
        {
            let app = &self.apps[k];
            let i = app.id.0;
            if cat == AppCategory::All || app.category == cat || cat == AppCategory::Favorites {
                if cat != AppCategory::Favorites || self.db.pinned[i] {
                    if name_matches_query(app.name, &query) {
                        result.push(i);
                    }
                }
            }
            k = k + 1;
        }
        let ghost listed = result@;
        if cat == AppCategory::All || query.len() == 0 {
            let mut names: Vec<&'static str> = Vec::new();
            let mut j: usize = 0;
            while j < n
                invariant
                    n == self.apps@.len(),
                    j <= n,
                    names@ == self.names().subrange(0, j as int),
                decreases n - j,
            {
                names.push(self.apps[j].name);
                j = j + 1;
                assert(names@ =~= self.names().subrange(0, j as int));
            }
            assert(names@ =~= self.names());
            result = sort_by_pin_then_name(&result, &self.db.pinned, &names);
        }
        assert forall|x: usize| result@.contains(x) <==> listed.contains(x) by {
            assert(result@.to_multiset().count(x) == listed.to_multiset().count(x));
        }
        let mut out: Vec<AppId> = Vec::new();
        let mut j: usize = 0;
        while j < result.len()
            invariant
                j <= result@.len(),
                out@.len() == j,
                id_indices(out@) == result@.subrange(0, j as int),
            decreases result@.len() - j,
        {
            let ghost before = out@;
            out.push(AppId(result[j]));
            assert(out@ == before.push(AppId(result@[j as int])));
            assert forall|t: int| 0 <= t < out@.len() implies #[trigger] id_indices(out@)[t]
                == result@.subrange(0, j + 1)[t] by {
                if t < before.len() {
                    assert(id_indices(before)[t] == result@.subrange(0, j as int)[t]);
                }
            }
            j = j + 1;
            assert(id_indices(out@) =~= result@.subrange(0, j as int));
        }
        assert(result@.subrange(0, result@.len() as int) =~= result@);
        out
    }
}

} // verus!
