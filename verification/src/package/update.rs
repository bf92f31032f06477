//! Package updates on offer.
use vstd::prelude::*;
use crate::keyed::{Keyed, views, key_is, find_key};
use crate::package::database::PackageDatabase;
use crate::search::{first_match, lemma_first_match_spec};

verus! {

pub struct PackageUpdate {
    pub package_id: String,
    pub current_version: String,
    pub new_version: String,
    pub release_date_seconds: u64,
    pub changelog: String,
}

pub struct UpdateRecord {
    pub package_id: Seq<char>,
    pub current_version: Seq<char>,
    pub new_version: Seq<char>,
    pub release_date_seconds: u64,
    pub changelog: Seq<char>,
}

impl View for PackageUpdate {
    type V = UpdateRecord;

    open spec fn view(&self) -> UpdateRecord {
        UpdateRecord {
            package_id: self.package_id@,
            current_version: self.current_version@,
            new_version: self.new_version@,
            release_date_seconds: self.release_date_seconds,
            changelog: self.changelog@,
        }
    }
}

impl Keyed for PackageUpdate {
    open spec fn key_of(v: UpdateRecord) -> Seq<char> {
        v.package_id
    }

    fn key_str(&self) -> (r: &str) {
        self.package_id.as_str()
    }
}

pub struct PackageUpdater {
    pub updates: Vec<PackageUpdate>,
}

impl PackageUpdater {
    pub fn new() -> (u: Self)
        ensures
            u.updates@ == Seq::<PackageUpdate>::empty(),
    {
        PackageUpdater { updates: Vec::new() }
    }

    /// Look for updates: with no source of updates, none are on offer.
    pub fn check(&mut self, _db: &PackageDatabase)
        ensures
            final(self).updates@ == Seq::<PackageUpdate>::empty(),
    {
        self.updates.clear();
    }

    pub fn available_updates(&self) -> (r: &[PackageUpdate])
        ensures
            r@ == self.updates@,
    {
        self.updates.as_slice()
    }

    /// The first update for `package_id`.
    pub fn get_update(&self, package_id: &str) -> (r: Option<&PackageUpdate>)
        ensures
            ({
                let k = first_match(views(self.updates@), key_is::<PackageUpdate>(package_id@));
                match r {
                    Some(u) => k >= 0 && u@ == views(self.updates@)[k],
                    None => k < 0,
                }
            }),
    {
        proof {
            lemma_first_match_spec(views(self.updates@), key_is::<PackageUpdate>(package_id@));
        }
        match find_key(&self.updates, package_id) {
            Some(k) => Some(&self.updates[k]),
            None => None,
        }
    }
}

} // verus!
