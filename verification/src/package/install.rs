//! Installing a package into the database.
use vstd::prelude::*;
use crate::keyed::{views, lemma_views_push};
use crate::package::database::{InstalledPackage, InstalledRecord, PackageDatabase, PackageMetadata, copy_package, installed_has};
use crate::text::copy_str;

verus! {

pub struct PackageInstaller;

impl PackageInstaller {
    /// Install a package not yet installed: it joins the installed list
    /// (enabled, at `install_path`) and the packages on offer.
    pub fn install(db: &mut PackageDatabase, metadata: PackageMetadata, install_path: &str) -> (r: bool)
        ensures
            r == !installed_has(views(old(db).installed@), metadata@.id),
            r ==> views(final(db).installed@) == views(old(db).installed@).push(
                InstalledRecord {
                    metadata: metadata@,
                    install_path: install_path@,
                    install_date_seconds: 0,
                    enabled: true,
                },
            ),
            r ==> views(final(db).available@) == views(old(db).available@).push(metadata@),
            !r ==> final(db).installed@ == old(db).installed@ && final(db).available@ == old(
                db,
            ).available@,
    {
        if db.is_installed(metadata.id.as_str()) {
            return false;
        }
        let p = InstalledPackage {
            metadata: copy_package(&metadata),
            install_path: copy_str(install_path),
            install_date_seconds: 0,
            enabled: true,
        };
        proof {
            lemma_views_push(db.installed@, p);
            lemma_views_push(db.available@, metadata);
        }
        db.installed.push(p);
        db.available.push(metadata);
        true
    }
}

} // verus!
