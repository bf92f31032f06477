use ade::package::database::{InstalledPackage, PackageDatabase, PackageDependency, PackageMetadata};
use ade::package::install::PackageInstaller;
use ade::package::remove::PackageRemover;
use ade::package::repository::{PackageRepository, RepositoryManager};
use ade::package::update::{PackageUpdate, PackageUpdater};

fn pkg(id: &str, name: &str, desc: &str, cat: &str, deps: Vec<PackageDependency>) -> PackageMetadata {
    PackageMetadata {
        id: String::from(id),
        name: String::from(name),
        version: String::from("1.0"),
        author: String::from("me"),
        description: String::from(desc),
        category: String::from(cat),
        size_bytes: 10,
        dependencies: deps,
        homepage: String::new(),
        license: String::from("MIT"),
    }
}

fn dep(name: &str, optional: bool) -> PackageDependency {
    PackageDependency {
        name: String::from(name),
        version_min: String::from("0"),
        version_max: String::from("9"),
        optional,
    }
}

#[test]
fn install_and_remove() {
    let mut db = PackageDatabase::new();
    assert!(!db.is_installed("ed"));
    assert!(PackageInstaller::install(&mut db, pkg("ed", "Editor", "Edits text", "dev", Vec::new()), "/pkg/ed"));
    assert!(db.is_installed("ed"));
    assert_eq!(db.get("ed").unwrap().install_path, "/pkg/ed");
    assert!(db.get("ed").unwrap().enabled);
    assert!(!PackageInstaller::install(&mut db, pkg("ed", "Editor 2", "x", "dev", Vec::new()), "/other"));
    assert_eq!(db.installed.len(), 1);
    assert_eq!(db.available.len(), 1);
    assert!(PackageRemover::remove(&mut db, "ed"));
    assert!(!db.is_installed("ed"));
    assert!(!PackageRemover::remove(&mut db, "ed"));
    assert_eq!(db.available.len(), 1);
}

#[test]
fn search_and_categories() {
    let mut db = PackageDatabase::new();
    db.available.push(pkg("a", "Paint Pro", "Draw pictures", "graphics", Vec::new()));
    db.available.push(pkg("b", "Mailer", "Send paint-free mail", "net", Vec::new()));
    db.available.push(pkg("c", "Calc", "Numbers", "office", Vec::new()));
    let r = db.search("aint");
    assert_eq!(r.len(), 2);
    assert_eq!(r[0].id, "a");
    assert_eq!(r[1].id, "b");
    assert_eq!(db.search("Paint").len(), 1);
    assert_eq!(db.search("").len(), 3);
    assert_eq!(db.search("zzz").len(), 0);
    assert_eq!(db.by_category("office").len(), 1);
    assert_eq!(db.by_category("Office").len(), 0);
}

#[test]
fn dependency_check() {
    let mut db = PackageDatabase::new();
    let app = pkg("app", "App", "", "x", vec![dep("libfoo", false), dep("libopt", true)]);
    assert!(!db.check_dependencies(&app));
    db.installed.push(InstalledPackage {
        metadata: pkg("foo", "libfoo", "", "lib", Vec::new()),
        install_path: String::from("/lib"),
        install_date_seconds: 0,
        enabled: false,
    });
    assert!(!db.check_dependencies(&app));
    db.installed[0].enabled = true;
    assert!(db.check_dependencies(&app));
}

#[test]
fn repositories() {
    let mut m = RepositoryManager::new();
    m.add(PackageRepository { name: String::from("main"), url: String::from("u1"), enabled: true });
    m.add(PackageRepository { name: String::from("main"), url: String::from("u2"), enabled: true });
    m.add(PackageRepository { name: String::from("extra"), url: String::from("u3"), enabled: false });
    assert_eq!(m.all().len(), 2);
    assert_eq!(m.all()[0].url, "u1");
    m.remove("main");
    assert_eq!(m.all().len(), 1);
    assert_eq!(m.all()[0].name, "extra");
}

#[test]
fn updates() {
    let mut u = PackageUpdater::new();
    u.updates.push(PackageUpdate {
        package_id: String::from("ed"),
        current_version: String::from("1"),
        new_version: String::from("2"),
        release_date_seconds: 5,
        changelog: String::from("fixes"),
    });
    assert_eq!(u.get_update("ed").unwrap().new_version, "2");
    assert!(u.get_update("x").is_none());
    assert_eq!(u.available_updates().len(), 1);
    u.check(&PackageDatabase::new());
    assert!(u.available_updates().is_empty());
}
