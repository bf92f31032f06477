use ade::extension::{
    Extension, ExtensionEvent, ExtensionManager, ExtensionType, NotificationHandler, StatusIndicator,
    Theme, WidgetPosition,
};

fn ext(id: &str, t: ExtensionType, enabled: bool) -> Extension {
    Extension {
        id: String::from(id),
        name: String::from("Test"),
        extension_type: t,
        version: String::from("1.0.0"),
        author: String::from("Test"),
        enabled,
    }
}

#[test]
fn test_extension_manager_creation() {
    let em = ExtensionManager::new();
    assert_eq!(em.widgets().len(), 0);
}

#[test]
fn test_register_extension() {
    let mut em = ExtensionManager::new();
    let ext = Extension {
        id: String::from("test-widget"),
        name: String::from("Test Widget"),
        extension_type: ExtensionType::Widget,
        version: String::from("1.0.0"),
        author: String::from("Test"),
        enabled: true,
    };
    em.register_extension(ext);
    assert!(em.get_extension("test-widget").is_some());
}

#[test]
fn test_create_widget() {
    let mut em = ExtensionManager::new();
    let ext = Extension {
        id: String::from("ext1"),
        name: String::from("Test"),
        extension_type: ExtensionType::Widget,
        version: String::from("1.0.0"),
        author: String::from("Test"),
        enabled: true,
    };
    em.register_extension(ext);
    assert!(em.create_widget("ext1", "widget1", WidgetPosition::CornerTopRight, 200, 200));
    assert_eq!(em.widgets().len(), 1);
}

#[test]
fn test_themes() {
    let mut em = ExtensionManager::new();
    let theme = Theme {
        id: String::from("dark"),
        name: String::from("Dark"),
        author: String::from("Test"),
        primary_color: 0xFF1E1E1E,
        secondary_color: 0xFF2D2D2D,
        accent_color: 0xFF0078D4,
    };
    em.register_theme(theme);
    assert!(em.set_theme("dark"));
    assert!(em.current_theme().is_some());
}

#[test]
fn register_extension_returns_position() {
    let mut em = ExtensionManager::new();
    assert_eq!(em.register_extension(ext("a", ExtensionType::Panel, true)), 0);
    assert_eq!(em.register_extension(ext("b", ExtensionType::Panel, true)), 1);
    assert!(em.get_extension("c").is_none());
}

#[test]
fn enabling_and_listing_by_type() {
    let mut em = ExtensionManager::new();
    em.register_extension(ext("a", ExtensionType::Panel, true));
    em.register_extension(ext("b", ExtensionType::Widget, true));
    em.register_extension(ext("c", ExtensionType::Panel, false));
    assert_eq!(em.extensions_by_type(ExtensionType::Panel).len(), 1);
    assert!(em.set_extension_enabled("c", true));
    let panels = em.extensions_by_type(ExtensionType::Panel);
    assert_eq!(panels.len(), 2);
    assert_eq!(panels[1].id, "c");
    assert!(!em.set_extension_enabled("zzz", true));
}

#[test]
fn widget_needs_registered_extension() {
    let mut em = ExtensionManager::new();
    assert!(!em.create_widget("missing", "w", WidgetPosition::Floating(1, 2), 1, 1));
    assert!(em.drain_events().is_empty());
    assert!(!em.remove_widget("w"));
}

#[test]
fn widgets_and_panels_round_trip_with_events() {
    let mut em = ExtensionManager::new();
    em.register_extension(ext("e", ExtensionType::Widget, true));
    assert!(em.create_widget("e", "w1", WidgetPosition::EdgeTop, 3, 4));
    assert!(em.create_panel("e", "p1", WidgetPosition::EdgeBottom, 30));
    assert!(!em.create_panel("nope", "p2", WidgetPosition::EdgeBottom, 30));
    assert_eq!(em.widgets()[0].extension_id, "e");
    assert_eq!(em.panels()[0].height, 30);
    assert!(em.remove_widget("w1"));
    assert!(em.remove_panel("p1"));
    assert!(!em.remove_panel("p1"));
    let events = em.drain_events();
    assert_eq!(events.len(), 4);
    assert!(matches!(events[0], ExtensionEvent::WidgetCreated(0)));
    assert!(matches!(events[1], ExtensionEvent::PanelCreated(0)));
    assert!(matches!(events[2], ExtensionEvent::WidgetRemoved(0)));
    assert!(matches!(events[3], ExtensionEvent::PanelRemoved(0)));
    assert!(em.drain_events().is_empty());
}

#[test]
fn unknown_theme_is_refused() {
    let mut em = ExtensionManager::new();
    assert!(!em.set_theme("none"));
    assert!(em.current_theme().is_none());
}

#[test]
fn wallpaper_is_remembered() {
    let mut em = ExtensionManager::new();
    assert!(em.current_wallpaper().is_none());
    assert!(em.set_wallpaper("sunset"));
    assert_eq!(em.current_wallpaper(), Some("sunset"));
    assert!(matches!(em.drain_events()[0], ExtensionEvent::WallpaperChanged(0)));
}

#[test]
fn indicators_and_handlers() {
    let mut em = ExtensionManager::new();
    em.register_indicator(StatusIndicator {
        id: String::from("bat"),
        extension_id: String::from("e"),
        label: String::from("Battery"),
        icon: String::from("B"),
        enabled: true,
    });
    em.register_notification_handler(NotificationHandler {
        id: String::from("h"),
        extension_id: String::from("e"),
        name: String::from("Handler"),
        enabled: true,
    });
    assert_eq!(em.indicators().len(), 1);
    assert_eq!(em.notification_handlers().len(), 1);
    assert!(!em.remove_indicator("x"));
    assert!(em.remove_indicator("bat"));
    assert!(em.remove_notification_handler("h"));
    assert!(!em.remove_notification_handler("h"));
    assert_eq!(em.indicators().len(), 0);
    assert_eq!(em.notification_handlers().len(), 0);
}
