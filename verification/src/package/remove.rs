//! Removing an installed package from the database.
use vstd::prelude::*;
use crate::keyed::{views, key_is, find_key};
use crate::package::database::{InstalledPackage, PackageDatabase};
use crate::search::{first_match, lemma_first_match_spec};

verus! {

pub struct PackageRemover;

impl PackageRemover {
    /// Remove the first installed package with id `package_id`; false when
    /// none is installed. The packages on offer are kept.
    pub fn remove(db: &mut PackageDatabase, package_id: &str) -> (r: bool)
        ensures
            ({
                let k = first_match(views(old(db).installed@), key_is::<InstalledPackage>(package_id@));
                &&& r == (k >= 0)
                &&& r ==> final(db).installed@ == old(db).installed@.remove(k)
                &&& !r ==> final(db).installed@ == old(db).installed@
                &&& final(db).available@ == old(db).available@
            }),
    {
        proof {
            lemma_first_match_spec(views(db.installed@), key_is::<InstalledPackage>(package_id@));
        }
        let pos = match find_key(&db.installed, package_id) {
            Some(p) => p,
            None => return false,
        };
        db.installed.remove(pos);
        true
    }
}

} // verus!
