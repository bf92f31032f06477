//! The package database: installed packages and the packages on offer.
use vstd::prelude::*;
use crate::keyed::{Keyed, views, key_is, find_key};
use crate::search::{first_match, keep, keep_all, lemma_first_match_spec};
use crate::text::{has_infix, str_contains, string_eq_str};

verus! {

pub struct PackageDependency {
    pub name: String,
    pub version_min: String,
    pub version_max: String,
    pub optional: bool,
}

pub struct DependencyRecord {
    pub name: Seq<char>,
    pub version_min: Seq<char>,
    pub version_max: Seq<char>,
    pub optional: bool,
}

impl View for PackageDependency {
    type V = DependencyRecord;

    open spec fn view(&self) -> DependencyRecord {
        DependencyRecord {
            name: self.name@,
            version_min: self.version_min@,
            version_max: self.version_max@,
            optional: self.optional,
        }
    }
}

pub struct PackageMetadata {
    pub id: String,
    pub name: String,
    pub version: String,
    pub author: String,
    pub description: String,
    pub category: String,
    pub size_bytes: u64,
    pub dependencies: Vec<PackageDependency>,
    pub homepage: String,
    pub license: String,
}

pub struct PackageRecord {
    pub id: Seq<char>,
    pub name: Seq<char>,
    pub version: Seq<char>,
    pub author: Seq<char>,
    pub description: Seq<char>,
    pub category: Seq<char>,
    pub size_bytes: u64,
    pub dependencies: Seq<DependencyRecord>,
    pub homepage: Seq<char>,
    pub license: Seq<char>,
}

impl View for PackageMetadata {
    type V = PackageRecord;

    open spec fn view(&self) -> PackageRecord {
        PackageRecord {
            id: self.id@,
            name: self.name@,
            version: self.version@,
            author: self.author@,
            description: self.description@,
            category: self.category@,
            size_bytes: self.size_bytes,
            dependencies: views(self.dependencies@),
            homepage: self.homepage@,
            license: self.license@,
        }
    }
}

impl Keyed for PackageMetadata {
    open spec fn key_of(v: PackageRecord) -> Seq<char> {
        v.id
    }

    fn key_str(&self) -> (r: &str) {
        self.id.as_str()
    }
}

pub struct InstalledPackage {
    pub metadata: PackageMetadata,
    pub install_path: String,
    pub install_date_seconds: u64,
    pub enabled: bool,
}

pub struct InstalledRecord {
    pub metadata: PackageRecord,
    pub install_path: Seq<char>,
    pub install_date_seconds: u64,
    pub enabled: bool,
}

impl View for InstalledPackage {
    type V = InstalledRecord;

    open spec fn view(&self) -> InstalledRecord {
        InstalledRecord {
            metadata: self.metadata@,
            install_path: self.install_path@,
            install_date_seconds: self.install_date_seconds,
            enabled: self.enabled,
        }
    }
}

impl Keyed for InstalledPackage {
    open spec fn key_of(v: InstalledRecord) -> Seq<char> {
        v.metadata.id
    }

    fn key_str(&self) -> (r: &str) {
        self.metadata.id.as_str()
    }
}

/// A copy of a package's metadata.
pub fn copy_package(m: &PackageMetadata) -> (r: PackageMetadata)
    ensures
        r@ == m@,
{
    let mut deps: Vec<PackageDependency> = Vec::new();
    let mut i: usize = 0;
    while i < m.dependencies.len()
        invariant
            i <= m.dependencies@.len(),
            views(deps@) == views(m.dependencies@).subrange(0, i as int),
        decreases m.dependencies@.len() - i,
    {
        let d = &m.dependencies[i];
        let c = PackageDependency {
            name: d.name.clone(),
            version_min: d.version_min.clone(),
            version_max: d.version_max.clone(),
            optional: d.optional,
        };
        proof {
            crate::keyed::lemma_views_push(deps@, c);
        }
        deps.push(c);
        i = i + 1;
        assert(views(deps@) =~= views(m.dependencies@).subrange(0, i as int));
    }
    assert(views(m.dependencies@).subrange(0, i as int) =~= views(m.dependencies@));
    PackageMetadata {
        id: m.id.clone(),
        name: m.name.clone(),
        version: m.version.clone(),
        author: m.author.clone(),
        description: m.description.clone(),
        category: m.category.clone(),
        size_bytes: m.size_bytes,
        dependencies: deps,
        homepage: m.homepage.clone(),
        license: m.license.clone(),
    }
}

/// Some installed package has id `id`.
pub open spec fn installed_has(installed: Seq<InstalledRecord>, id: Seq<char>) -> bool {
    first_match(installed, key_is::<InstalledPackage>(id)) >= 0
}

/// The query occurs in the package's name or description.
pub open spec fn matches_query(query: Seq<char>) -> spec_fn(PackageRecord) -> bool {
    |p: PackageRecord| has_infix(p.name, query) || has_infix(p.description, query)
}

/// The package is in category `category`.
pub open spec fn in_category(category: Seq<char>) -> spec_fn(PackageRecord) -> bool {
    |p: PackageRecord| p.category == category
}

/// A dependency is met when it is optional or an enabled installed package
/// carries its name.
pub open spec fn dependency_met(installed: Seq<InstalledRecord>, d: DependencyRecord) -> bool {
    d.optional || exists|k: int|
        0 <= k < installed.len() && #[trigger] installed[k].metadata.name == d.name
            && installed[k].enabled
}

pub open spec fn package_ref_views(s: Seq<&PackageMetadata>) -> Seq<PackageRecord> {
    s.map_values(|p: &PackageMetadata| p@)
}

pub struct PackageDatabase {
    pub installed: Vec<InstalledPackage>,
    pub available: Vec<PackageMetadata>,
}

impl PackageDatabase {
    pub fn new() -> (db: Self)
        ensures
            db.installed@ == Seq::<InstalledPackage>::empty(),
            db.available@ == Seq::<PackageMetadata>::empty(),
    {
        PackageDatabase { installed: Vec::new(), available: Vec::new() }
    }

    /// Whether some installed package has id `id`.
    pub fn is_installed(&self, id: &str) -> (r: bool)
        ensures
            r == installed_has(views(self.installed@), id@),
    {
        find_key(&self.installed, id).is_some()
    }

    /// The first installed package with id `id`.
    pub fn get(&self, id: &str) -> (r: Option<&InstalledPackage>)
        ensures
            ({
                let k = first_match(views(self.installed@), key_is::<InstalledPackage>(id@));
                match r {
                    Some(p) => k >= 0 && p@ == views(self.installed@)[k],
                    None => k < 0,
                }
            }),
    {
        proof {
            lemma_first_match_spec(views(self.installed@), key_is::<InstalledPackage>(id@));
        }
        match find_key(&self.installed, id) {
            Some(k) => Some(&self.installed[k]),
            None => None,
        }
    }

    /// Packages on offer whose name or description contains `query`.
    pub fn search(&self, query: &str) -> (r: Vec<&PackageMetadata>)
        ensures
            package_ref_views(r@) == keep_all(views(self.available@), matches_query(query@)),
    {
        let ghost vs = views(self.available@);
        let mut r: Vec<&PackageMetadata> = Vec::new();
        let mut i: usize = 0;
        while i < self.available.len()
            invariant
                vs == views(self.available@),
                i <= self.available@.len(),
                package_ref_views(r@) == keep(vs, matches_query(query@), i as int),
            decreases self.available@.len() - i,
        {
            let p = &self.available[i];
            if str_contains(p.name.as_str(), query) || str_contains(p.description.as_str(), query) {
                let ghost before = r@;
                r.push(p);
                assert(package_ref_views(r@) =~= package_ref_views(before).push(vs[i as int]));
            }
            i = i + 1;
        }
        r
    }

    /// Packages on offer in category `category`.
    pub fn by_category(&self, category: &str) -> (r: Vec<&PackageMetadata>)
        ensures
            package_ref_views(r@) == keep_all(views(self.available@), in_category(category@)),
    {
        let ghost vs = views(self.available@);
        let mut r: Vec<&PackageMetadata> = Vec::new();
        let mut i: usize = 0;
        while i < self.available.len()
            invariant
                vs == views(self.available@),
                i <= self.available@.len(),
                package_ref_views(r@) == keep(vs, in_category(category@), i as int),
            decreases self.available@.len() - i,
        {
            let p = &self.available[i];
            if string_eq_str(&p.category, category) {
                let ghost before = r@;
                r.push(p);
                assert(package_ref_views(r@) =~= package_ref_views(before).push(vs[i as int]));
            }
            i = i + 1;
        }
        r
    }

    /// Whether some enabled installed package is named `name`.
    fn has_enabled_named(&self, name: &String) -> (r: bool)
        ensures
            r == exists|k: int|
                0 <= k < self.installed@.len() && #[trigger] views(self.installed@)[k].metadata.name
                    == name@ && views(self.installed@)[k].enabled,
    {
        let ghost vs = views(self.installed@);
        let mut k: usize = 0;
        while k < self.installed.len()
            invariant
                vs == views(self.installed@),
                k <= self.installed@.len(),
                forall|j: int|
                    0 <= j < k ==> !(#[trigger] vs[j].metadata.name == name@ && vs[j].enabled),
            decreases self.installed@.len() - k,
        {
            let p = &self.installed[k];
            if p.metadata.name == *name && p.enabled {
                assert(vs[k as int].metadata.name == name@);
                return true;
            }
            k = k + 1;
        }
        false
    }

    /// Whether every required dependency of `metadata` is met.
    pub fn check_dependencies(&self, metadata: &PackageMetadata) -> (r: bool)
        ensures
            r == forall|j: int|
                0 <= j < metadata.dependencies@.len() ==> dependency_met(
                    views(self.installed@),
                    #[trigger] views(metadata.dependencies@)[j],
                ),
    {
        let mut i: usize = 0;
        while i < metadata.dependencies.len()
            invariant
                i <= metadata.dependencies@.len(),
                forall|j: int|
                    0 <= j < i ==> dependency_met(
                        views(self.installed@),
                        #[trigger] views(metadata.dependencies@)[j],
                    ),
            decreases metadata.dependencies@.len() - i,
        {
            let dep = &metadata.dependencies[i];
            if !dep.optional && !self.has_enabled_named(&dep.name) {
                assert(!dependency_met(views(self.installed@), views(metadata.dependencies@)[i as int]));
                return false;
            }
            i = i + 1;
        }
        true
    }
}

/// No two installed packages share an id.
pub open spec fn unique_ids(installed: Seq<InstalledRecord>) -> bool {
    forall|i: int, j: int|
        0 <= i < j < installed.len() ==> #[trigger] installed[i].metadata.id
            != #[trigger] installed[j].metadata.id
}

/// `installed_has` holds exactly when some entry carries the id.
pub proof fn lemma_installed_has(installed: Seq<InstalledRecord>, id: Seq<char>)
    ensures
        installed_has(installed, id) <==> exists|k: int|
            0 <= k < installed.len() && #[trigger] installed[k].metadata.id == id,
{
    lemma_first_match_spec(installed, key_is::<InstalledPackage>(id));
    if installed_has(installed, id) {
        let k = first_match(installed, key_is::<InstalledPackage>(id));
        assert(installed[k].metadata.id == id);
    } else {
        assert forall|k: int| 0 <= k < installed.len() implies #[trigger] installed[k].metadata.id
            != id by {
            assert(!key_is::<InstalledPackage>(id)(installed[k]));
        }
    }
}

/// A package that was installed is installed afterwards; installing one
/// whose id is new keeps the ids unique.
pub proof fn law_install_installs(installed: Seq<InstalledRecord>, p: InstalledRecord)
    ensures
        installed_has(installed.push(p), p.metadata.id),
        unique_ids(installed) && !installed_has(installed, p.metadata.id) ==> unique_ids(
            installed.push(p),
        ),
{
    let after = installed.push(p);
    lemma_installed_has(after, p.metadata.id);
    assert(after[installed.len() as int].metadata.id == p.metadata.id);
    lemma_installed_has(installed, p.metadata.id);
    if unique_ids(installed) && !installed_has(installed, p.metadata.id) {
        assert forall|i: int, j: int| 0 <= i < j < after.len() implies #[trigger] after[i].metadata.id
            != #[trigger] after[j].metadata.id by {
            if j == installed.len() {
                assert(after[i] == installed[i]);
            } else {
                assert(after[i] == installed[i] && after[j] == installed[j]);
            }
        }
    }
}

/// With unique ids, removing the package found under an id leaves no
/// package with that id, and the rest keep unique ids.
pub proof fn law_remove_uninstalls(installed: Seq<InstalledRecord>, id: Seq<char>)
    requires
        unique_ids(installed),
        installed_has(installed, id),
    ensures
        ({
            let k = first_match(installed, key_is::<InstalledPackage>(id));
            &&& !installed_has(installed.remove(k), id)
            &&& unique_ids(installed.remove(k))
        }),
{
    lemma_first_match_spec(installed, key_is::<InstalledPackage>(id));
    let k = first_match(installed, key_is::<InstalledPackage>(id));
    let after = installed.remove(k);
    assert(installed[k].metadata.id == id);
    assert forall|j: int| 0 <= j < after.len() implies #[trigger] after[j].metadata.id != id by {
        if j < k {
            assert(after[j] == installed[j]);
        } else {
            assert(after[j] == installed[j + 1]);
        }
    }
    lemma_installed_has(after, id);
    assert forall|i: int, j: int| 0 <= i < j < after.len() implies #[trigger] after[i].metadata.id
        != #[trigger] after[j].metadata.id by {
        let i0 = if i < k { i } else { i + 1 };
        let j0 = if j < k { j } else { j + 1 };
        assert(after[i] == installed[i0]);
        assert(after[j] == installed[j0]);
    }
}

} // verus!
