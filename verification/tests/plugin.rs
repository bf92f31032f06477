use ade::plugin::{
    PluginCapability, PluginDependency, PluginEvent, PluginManager, PluginMetadata, PluginState, Version,
};

fn meta(id: &str, caps: u32, deps: Vec<PluginDependency>) -> PluginMetadata {
    PluginMetadata {
        id: String::from(id),
        name: String::from("Test"),
        version: Version::new(1, 0, 0),
        author: String::from("Test"),
        description: String::from("Test"),
        capabilities: caps,
        dependencies: deps,
        entry_point: String::from("main"),
    }
}

#[test]
fn test_plugin_manager_creation() {
    let pm = PluginManager::new();
    assert_eq!(pm.loaded_plugins().len(), 0);
}

#[test]
fn test_version_compatibility() {
    let v1 = Version::new(1, 2, 3);
    let v2 = Version::new(1, 2, 0);
    assert!(v1.is_compatible_with(v2));
}

#[test]
fn test_plugin_lifecycle() {
    let mut pm = PluginManager::new();
    let metadata = PluginMetadata {
        id: String::from("test-plugin"),
        name: String::from("Test"),
        version: Version::new(1, 0, 0),
        author: String::from("Test"),
        description: String::from("Test plugin"),
        capabilities: PluginCapability::FileRead.bit(),
        dependencies: Vec::new(),
        entry_point: String::from("main"),
    };

    pm.discover_plugins(vec![metadata]);
    assert!(pm.load_plugin("test-plugin"));
    assert!(pm.activate_plugin("test-plugin"));
    assert!(pm.deactivate_plugin("test-plugin"));
    assert!(pm.unload_plugin("test-plugin"));
}

#[test]
fn test_capability_checking() {
    let mut pm = PluginManager::new();
    let metadata = PluginMetadata {
        id: String::from("test"),
        name: String::from("Test"),
        version: Version::new(1, 0, 0),
        author: String::from("Test"),
        description: String::from("Test"),
        capabilities: PluginCapability::FileRead.bit() | PluginCapability::Audio.bit(),
        dependencies: Vec::new(),
        entry_point: String::from("main"),
    };

    pm.discover_plugins(vec![metadata]);
    pm.load_plugin("test");
    assert!(pm.check_capability("test", PluginCapability::FileRead));
    assert!(pm.check_capability("test", PluginCapability::Audio));
    assert!(!pm.check_capability("test", PluginCapability::Network));
}

#[test]
fn version_compatibility_rules() {
    assert!(Version::new(2, 5, 0).is_compatible_with(Version::new(2, 5, 9)));
    assert!(!Version::new(2, 4, 0).is_compatible_with(Version::new(2, 5, 0)));
    assert!(!Version::new(3, 9, 0).is_compatible_with(Version::new(2, 0, 0)));
}

#[test]
fn capability_bits() {
    assert_eq!(PluginCapability::FileRead.bit(), 1);
    assert_eq!(PluginCapability::Network.bit(), 4);
    assert_eq!(PluginCapability::DeviceAccess.bit(), 512);
}

#[test]
fn discovery_ignores_duplicate_ids() {
    let mut pm = PluginManager::new();
    pm.discover_plugins(vec![meta("a", 0, Vec::new()), meta("a", 7, Vec::new()), meta("b", 0, Vec::new())]);
    pm.discover_plugins(vec![meta("b", 1, Vec::new())]);
    assert_eq!(pm.available_plugins().len(), 2);
    assert_eq!(pm.available_plugins()[0].capabilities, 0);
}

#[test]
fn load_refusals() {
    let mut pm = PluginManager::new();
    assert!(!pm.load_plugin("ghost"));
    let dep = PluginDependency { name: String::from("base"), version_requirement: Version::new(1, 0, 0) };
    pm.discover_plugins(vec![meta("app", 0, vec![dep]), meta("base", 0, Vec::new())]);
    assert!(!pm.load_plugin("app"));
    assert!(matches!(pm.drain_events()[0], PluginEvent::LoadFailed(0)));
    assert!(pm.load_plugin("base"));
    assert!(!pm.load_plugin("base"));
    assert!(pm.load_plugin("app"));
    assert!(pm.is_plugin_loaded("app"));
}

#[test]
fn sandboxes_get_fresh_ids() {
    let mut pm = PluginManager::new();
    pm.discover_plugins(vec![meta("a", 0, Vec::new()), meta("b", 0, Vec::new())]);
    assert!(pm.load_plugin("a"));
    assert!(pm.load_plugin("b"));
    assert_eq!(pm.get_plugin("a").unwrap().sandbox_id, 1);
    assert_eq!(pm.get_plugin("b").unwrap().sandbox_id, 2);
    assert!(pm.unload_plugin("a"));
    assert!(pm.load_plugin("a"));
    assert_eq!(pm.get_plugin("a").unwrap().sandbox_id, 3);
    let events = pm.drain_events();
    assert!(matches!(events[0], PluginEvent::Loaded(1)));
    assert!(matches!(events[2], PluginEvent::Deactivated(1)));
}

#[test]
fn state_transitions() {
    let mut pm = PluginManager::new();
    pm.discover_plugins(vec![meta("p", 0, Vec::new())]);
    assert!(!pm.activate_plugin("p"));
    assert!(pm.load_plugin("p"));
    assert!(!pm.pause_plugin("p"));
    assert!(!pm.deactivate_plugin("p"));
    assert!(pm.activate_plugin("p"));
    assert!(!pm.activate_plugin("p"));
    assert!(pm.pause_plugin("p"));
    assert_eq!(pm.get_plugin("p").unwrap().state, PluginState::Paused);
    assert!(pm.active_plugins().is_empty());
    assert!(pm.resume_plugin("p"));
    assert!(!pm.resume_plugin("p"));
    assert_eq!(pm.active_plugins().len(), 1);
}

#[test]
fn failure_marks_plugin_not_loaded() {
    let mut pm = PluginManager::new();
    pm.discover_plugins(vec![meta("p", 0, Vec::new())]);
    assert!(pm.load_plugin("p"));
    pm.mark_plugin_failed("p", "boom");
    let p = pm.get_plugin("p").unwrap();
    assert_eq!(p.state, PluginState::Failed);
    assert_eq!(p.error.as_deref(), Some("boom"));
    assert!(!pm.is_plugin_loaded("p"));
    assert!(pm.loaded_plugins().is_empty());
    assert!(matches!(pm.drain_events()[1], PluginEvent::Crashed(1)));
}

#[test]
fn capability_requests_are_recorded() {
    let mut pm = PluginManager::new();
    assert!(!pm.request_capability("p", PluginCapability::Clipboard));
    pm.discover_plugins(vec![meta("p", 0, Vec::new())]);
    pm.load_plugin("p");
    pm.drain_events();
    assert!(pm.request_capability("p", PluginCapability::Clipboard));
    assert!(matches!(pm.drain_events()[0], PluginEvent::CapabilityRequested(1, 64)));
}

#[test]
fn get_plugin_mut_changes_the_instance() {
    let mut pm = PluginManager::new();
    pm.discover_plugins(vec![meta("p", 0, Vec::new())]);
    pm.load_plugin("p");
    pm.get_plugin_mut("p").unwrap().load_time_ms = 12;
    assert_eq!(pm.get_plugin("p").unwrap().load_time_ms, 12);
    assert!(pm.get_plugin_mut("q").is_none());
}

#[test]
fn hot_reload_keeps_active_plugin_active() {
    let mut pm = PluginManager::new();
    pm.discover_plugins(vec![meta("p", 0, Vec::new()), meta("q", 0, Vec::new())]);
    assert!(!pm.hot_reload_plugin("p"));
    pm.load_plugin("p");
    pm.activate_plugin("p");
    assert!(pm.hot_reload_plugin("p"));
    assert_eq!(pm.get_plugin("p").unwrap().state, PluginState::Active);
    assert_eq!(pm.get_plugin("p").unwrap().sandbox_id, 1);
    pm.load_plugin("q");
    assert!(pm.hot_reload_plugin("q"));
    assert_eq!(pm.get_plugin("q").unwrap().state, PluginState::Loaded);
}

#[test]
fn failed_hot_reload_leaves_plugin_unloaded() {
    let mut pm = PluginManager::new();
    let dep = PluginDependency { name: String::from("d"), version_requirement: Version::new(1, 0, 0) };
    pm.discover_plugins(vec![meta("d", 0, Vec::new()), meta("p", 0, vec![dep])]);
    assert!(pm.load_plugin("d"));
    assert!(pm.load_plugin("p"));
    assert!(pm.unload_plugin("d"));
    assert!(!pm.hot_reload_plugin("p"));
    assert!(pm.get_plugin("p").is_none());
    assert!(!pm.is_plugin_loaded("p"));
}
