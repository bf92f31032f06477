//! Package repositories.
use vstd::prelude::*;
use crate::keyed::{Keyed, views, key_is, find_key, lemma_views_push};
use crate::search::{first_match, keep, keep_all, lemma_first_match_spec};
use crate::text::string_eq_str;

verus! {

pub struct PackageRepository {
    pub name: String,
    pub url: String,
    pub enabled: bool,
}

pub struct RepositoryRecord {
    pub name: Seq<char>,
    pub url: Seq<char>,
    pub enabled: bool,
}

impl View for PackageRepository {
    type V = RepositoryRecord;

    open spec fn view(&self) -> RepositoryRecord {
        RepositoryRecord { name: self.name@, url: self.url@, enabled: self.enabled }
    }
}

impl Keyed for PackageRepository {
    open spec fn key_of(v: RepositoryRecord) -> Seq<char> {
        v.name
    }

    fn key_str(&self) -> (r: &str) {
        self.name.as_str()
    }
}

/// The repository is not named `name`.
pub open spec fn other_name(name: Seq<char>) -> spec_fn(RepositoryRecord) -> bool {
    |r: RepositoryRecord| r.name != name
}

/// No two repositories share a name.
pub open spec fn unique_names(s: Seq<RepositoryRecord>) -> bool {
    forall|i: int, j: int| 0 <= i < j < s.len() ==> s[i].name != s[j].name
}

/// Adding repositories never gives two of them one name: an add either
/// changes nothing or appends a name not yet known.
pub proof fn law_add_keeps_names_unique(s: Seq<RepositoryRecord>, r: RepositoryRecord)
    requires
        unique_names(s),
    ensures
        first_match(s, key_is::<PackageRepository>(r.name)) < 0 ==> unique_names(s.push(r)),
{
    lemma_first_match_spec(s, key_is::<PackageRepository>(r.name));
    if first_match(s, key_is::<PackageRepository>(r.name)) < 0 {
        let t = s.push(r);
        assert forall|i: int, j: int| 0 <= i < j < t.len() implies t[i].name != t[j].name by {
            assert(t[i] == s[i]);
            if j < s.len() {
                assert(t[j] == s[j]);
            } else {
                assert(!key_is::<PackageRepository>(r.name)(s[i]));
            }
        }
    }
}

pub struct RepositoryManager {
    pub repos: Vec<PackageRepository>,
}

impl RepositoryManager {
    pub fn new() -> (m: Self)
        ensures
            m.repos@ == Seq::<PackageRepository>::empty(),
    {
        RepositoryManager { repos: Vec::new() }
    }

    /// Add a repository unless one with the same name is known.
    pub fn add(&mut self, repo: PackageRepository)
        ensures
            first_match(views(old(self).repos@), key_is::<PackageRepository>(repo@.name)) >= 0
                ==> final(self).repos@ == old(self).repos@,
            first_match(views(old(self).repos@), key_is::<PackageRepository>(repo@.name)) < 0
                ==> views(final(self).repos@) == views(old(self).repos@).push(repo@),
    {
        if find_key(&self.repos, repo.name.as_str()).is_none() {
            proof {
                lemma_views_push(self.repos@, repo);
            }
            self.repos.push(repo);
        }
    }

    /// Remove every repository named `name`.
    pub fn remove(&mut self, name: &str)
        ensures
            views(final(self).repos@) == keep_all(views(old(self).repos@), other_name(name@)),
    {
        let ghost vs = views(self.repos@);
        let mut kept: Vec<PackageRepository> = Vec::new();
        let mut i: usize = 0;
        while i < self.repos.len()
            invariant
                vs == views(self.repos@),
                i <= self.repos@.len(),
                views(kept@) == keep(vs, other_name(name@), i as int),
            decreases self.repos@.len() - i,
        {
            let r = &self.repos[i];
            if !string_eq_str(&r.name, name) {
                let c = PackageRepository { name: r.name.clone(), url: r.url.clone(), enabled: r.enabled };
                proof {
                    lemma_views_push(kept@, c);
                }
                kept.push(c);
            }
            i = i + 1;
        }
        self.repos = kept;
    }

    pub fn all(&self) -> (r: &[PackageRepository])
        ensures
            r@ == self.repos@,
    {
        self.repos.as_slice()
    }
}

} // verus!
