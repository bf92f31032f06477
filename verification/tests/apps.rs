use ade::app_catalog::{AppCatalog, AppCategory, AppId, StartupMode, APP_COUNT};
use ade::app_db::{self, AppDb};
use ade::app_registry::{self, AppRegistry};

fn names(c: &AppCatalog, ids: &[AppId]) -> Vec<&'static str> {
    ids.iter().map(|i| c.apps[i.0].name).collect()
}

#[test]
fn catalog_table_is_built_in_order() {
    let c = AppCatalog::new();
    assert_eq!(c.apps.len(), APP_COUNT);
    assert_eq!(c.pinned.len(), APP_COUNT);
    assert!(c.recent.is_empty());
    for (i, a) in c.apps.iter().enumerate() {
        assert_eq!(a.id, AppId(i));
    }
    assert_eq!(c.apps[0].name, "Terminal");
    assert_eq!(c.apps[0].icon, '\x1B');
    assert_eq!(c.apps[16].executable, "");
    assert_eq!(c.apps[27].name, "IPC Echo");
    assert_eq!(c.apps[6].startup_mode, StartupMode::Singleton);
    assert_eq!(c.apps.iter().filter(|a| a.startup_mode == StartupMode::Singleton).count(), 1);
    assert_eq!(c.get(AppId(2)).unwrap().name, "SkyStore");
    assert!(c.get(AppId(28)).is_none());
}

#[test]
fn recent_queue_is_most_recent_first_and_capped() {
    let mut c = AppCatalog::new();
    for i in 0..12 {
        c.record_launch(AppId(i));
    }
    assert_eq!(c.recent.len(), 10);
    assert_eq!(c.recent[0], 11);
    assert_eq!(c.recent[9], 2);
    c.record_launch(AppId(5));
    assert_eq!(c.recent.len(), 10);
    assert_eq!(c.recent[0], 5);
    assert_eq!(c.recent.iter().filter(|&&x| x == 5).count(), 1);
    assert_eq!(c.recent[9], 2);
}

#[test]
fn filtered_all_is_pinned_first_then_by_name() {
    let mut c = AppCatalog::new();
    c.pinned[26] = true; // Screenshot
    let ids = c.filtered(AppCategory::All, b"");
    assert_eq!(ids.len(), APP_COUNT);
    let n = names(&c, &ids);
    assert_eq!(n[0], "Screenshot");
    assert_eq!(n[1], "About SARGA");
    assert_eq!(n[2], "Archive Manager");
    assert_eq!(n[APP_COUNT - 1], "Web Browser");
}

#[test]
fn filtered_search_is_case_insensitive_and_keeps_table_order() {
    let c = AppCatalog::new();
    let ids = c.filtered(AppCategory::Office, b"CAL");
    assert_eq!(names(&c, &ids), vec!["Calendar"]);
    let ids = c.filtered(AppCategory::Utilities, b"s");
    assert_eq!(
        names(&c, &ids),
        vec!["SkyStore", "Search", "Disk Usage", "Screenshot"]
    );
    let ids = c.filtered(AppCategory::All, b"cal");
    assert_eq!(names(&c, &ids), vec!["Calculator", "Calendar"]);
}

#[test]
fn filtered_invalid_utf8_search_matches_everything() {
    let c = AppCatalog::new();
    let ids = c.filtered(AppCategory::Games, &[0xff, 0xfe]);
    assert_eq!(names(&c, &ids), vec!["Chess", "Sudoku"]);
}

#[test]
fn filtered_favorites_are_the_pinned_apps() {
    let mut c = AppCatalog::new();
    assert!(c.filtered(AppCategory::Favorites, b"").is_empty());
    c.pinned[10] = true;
    c.pinned[3] = true;
    let ids = c.filtered(AppCategory::Favorites, b"");
    assert_eq!(names(&c, &ids), vec!["Paint", "System Info"]);
}

#[test]
fn category_tables() {
    let cats = ade::app_catalog::categories();
    assert_eq!(cats.len(), 10);
    assert_eq!(cats[0], ("All", AppCategory::All));
    assert_eq!(cats[9], ("Utilities", AppCategory::Utilities));
    let cats = app_db::categories();
    assert_eq!(cats[1], ("Favorites", app_db::AppCategory::Favorites));
}

#[test]
fn app_db_pins_and_launches() {
    let mut db = AppDb::new(3);
    assert_eq!(db.pinned, vec![false, false, false]);
    db.toggle_pin(1);
    db.toggle_pin(7);
    assert_eq!(db.pinned, vec![false, true, false]);
    db.toggle_pin(1);
    assert_eq!(db.pinned, vec![false, false, false]);
    db.record_launch(2);
    db.record_launch(0);
    db.record_launch(2);
    assert_eq!(db.recent.iter().copied().collect::<Vec<_>>(), vec![2, 0]);
}

#[test]
fn registry_table_and_lookups() {
    let r = AppRegistry::new();
    assert_eq!(r.apps.len(), app_db::APP_COUNT);
    assert_eq!(r.apps[0].version, "0.1.0");
    assert_eq!(r.apps[0].description, "System terminal emulator");
    assert_eq!(r.apps[25].executable, "/bin/skypkg");
    assert_eq!(r.apps[6].startup_mode, app_registry::StartupMode::Singleton);
    assert_eq!(r.find_by_exec("/bin/sash"), Some(app_registry::AppId(0)));
    assert_eq!(r.find_by_exec("/bin/none"), None);
    assert_eq!(r.find_by_name("Mail"), Some(app_registry::AppId(18)));
    assert_eq!(r.find_by_name("mail"), None);
    assert!(r.find_by_permission(1).is_empty());
    assert!(r.find_by_category("System").is_empty());
    assert_eq!(
        r.apps_by_category(app_db::AppCategory::Games),
        vec![app_registry::AppId(21), app_registry::AppId(22)]
    );
    assert_eq!(r.all_apps().len(), 28);
    assert_eq!(r.get(app_registry::AppId(1)).unwrap().name, "File Manager");
}

#[test]
fn registry_launch_and_filter() {
    let mut r = AppRegistry::new();
    r.record_launch(app_registry::AppId(4));
    r.record_launch(app_registry::AppId(99));
    assert_eq!(r.db.recent.iter().copied().collect::<Vec<_>>(), vec![99, 4]);
    r.db.toggle_pin(22);
    let ids = r.filtered(app_db::AppCategory::Games, b"");
    assert_eq!(ids, vec![app_registry::AppId(22), app_registry::AppId(21)]);
    let ids = r.filtered(app_db::AppCategory::Games, b"ChEss");
    assert_eq!(ids, vec![app_registry::AppId(21)]);
}

#[test]
fn filtered_accepts_a_longer_pin_list() {
    let mut c = AppCatalog::new();
    c.pinned.push(true);
    c.pinned[3] = true;
    let ids = c.filtered(AppCategory::Favorites, b"");
    assert_eq!(names(&c, &ids), vec!["System Info"]);
    assert_eq!(c.filtered(AppCategory::All, b"").len(), APP_COUNT);
}

#[test]
fn filtered_with_ids_out_of_table_order() {
    let mut c = AppCatalog::new();
    c.apps[0].id = AppId(1);
    c.apps[1].id = AppId(0);
    c.pinned[0] = true;
    let fav: Vec<usize> = c.filtered(AppCategory::Favorites, b"").iter().map(|a| a.0).collect();
    assert_eq!(fav, vec![0]);
    let all = c.filtered(AppCategory::All, b"");
    assert_eq!(all.len(), APP_COUNT);
    assert_eq!(all[0].0, 0);
}
