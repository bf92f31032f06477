//! Extension framework: desktop widgets, panels, dock, wallpaper, notification
//! plugins, themes.
//!
//! Provides safe extension points for desktop customization and enhancement.
use vstd::prelude::*;
use crate::keyed::{Keyed, views, key_is, find_key, lemma_push_fresh_key, lemma_views_push, lemma_views_remove, lemma_views_update};
use crate::search::{first_match, keep, keep_all, lemma_first_match_spec};
use crate::text::copy_str;

verus! {

/// Extension type
#[derive(Clone, Copy, Debug, PartialEq, Eq, Structural)]
pub enum ExtensionType {
    /// Desktop widget (floating/pinned)
    Widget,
    /// Panel (taskbar-like)
    Panel,
    /// Dock extension
    DockExtension,
    /// Wallpaper engine
    Wallpaper,
    /// Notification handler
    NotificationHandler,
    /// Theme provider
    Theme,
    /// Status bar indicator
    StatusIndicator,
}

/// Widget position
#[derive(Clone, Copy, Debug)]
pub enum WidgetPosition {
    /// x, y
    Floating(i32, i32),
    CornerTopLeft,
    CornerTopRight,
    CornerBottomLeft,
    CornerBottomRight,
    EdgeTop,
    EdgeBottom,
    EdgeLeft,
    EdgeRight,
}

/// Widget configuration
pub struct Widget {
    pub id: String,
    pub extension_id: String,
    pub position: WidgetPosition,
    pub width: u16,
    pub height: u16,
    pub always_on_top: bool,
    pub enabled: bool,
}

pub struct WidgetRecord {
    pub id: Seq<char>,
    pub extension_id: Seq<char>,
    pub position: WidgetPosition,
    pub width: u16,
    pub height: u16,
    pub always_on_top: bool,
    pub enabled: bool,
}

impl View for Widget {
    type V = WidgetRecord;

    open spec fn view(&self) -> WidgetRecord {
        WidgetRecord {
            id: self.id@,
            extension_id: self.extension_id@,
            position: self.position,
            width: self.width,
            height: self.height,
            always_on_top: self.always_on_top,
            enabled: self.enabled,
        }
    }
}

impl Keyed for Widget {
    open spec fn key_of(v: WidgetRecord) -> Seq<char> {
        v.id
    }

    fn key_str(&self) -> (r: &str) {
        self.id.as_str()
    }
}

/// Panel configuration
pub struct Panel {
    pub id: String,
    pub extension_id: String,
    pub position: WidgetPosition,
    pub height: u16,
    pub enabled: bool,
}

pub struct PanelRecord {
    pub id: Seq<char>,
    pub extension_id: Seq<char>,
    pub position: WidgetPosition,
    pub height: u16,
    pub enabled: bool,
}

impl View for Panel {
    type V = PanelRecord;

    open spec fn view(&self) -> PanelRecord {
        PanelRecord {
            id: self.id@,
            extension_id: self.extension_id@,
            position: self.position,
            height: self.height,
            enabled: self.enabled,
        }
    }
}

impl Keyed for Panel {
    open spec fn key_of(v: PanelRecord) -> Seq<char> {
        v.id
    }

    fn key_str(&self) -> (r: &str) {
        self.id.as_str()
    }
}

/// Theme metadata
pub struct Theme {
    pub id: String,
    pub name: String,
    pub author: String,
    pub primary_color: u32,
    pub secondary_color: u32,
    pub accent_color: u32,
}

pub struct ThemeRecord {
    pub id: Seq<char>,
    pub name: Seq<char>,
    pub author: Seq<char>,
    pub primary_color: u32,
    pub secondary_color: u32,
    pub accent_color: u32,
}

impl View for Theme {
    type V = ThemeRecord;

    open spec fn view(&self) -> ThemeRecord {
        ThemeRecord {
            id: self.id@,
            name: self.name@,
            author: self.author@,
            primary_color: self.primary_color,
            secondary_color: self.secondary_color,
            accent_color: self.accent_color,
        }
    }
}

impl Keyed for Theme {
    open spec fn key_of(v: ThemeRecord) -> Seq<char> {
        v.id
    }

    fn key_str(&self) -> (r: &str) {
        self.id.as_str()
    }
}

/// Wallpaper configuration
pub struct Wallpaper {
    pub id: String,
    pub name: String,
    pub path: String,
    pub mode: WallpaperMode,
}

/// Wallpaper scaling mode
#[derive(Clone, Copy, Debug, PartialEq, Eq, Structural)]
pub enum WallpaperMode {
    Stretch,
    Fit,
    Fill,
    Tile,
    Center,
}

/// Status indicator
pub struct StatusIndicator {
    pub id: String,
    pub extension_id: String,
    pub label: String,
    pub icon: String,
    pub enabled: bool,
}

pub struct IndicatorRecord {
    pub id: Seq<char>,
    pub extension_id: Seq<char>,
    pub label: Seq<char>,
    pub icon: Seq<char>,
    pub enabled: bool,
}

impl View for StatusIndicator {
    type V = IndicatorRecord;

    open spec fn view(&self) -> IndicatorRecord {
        IndicatorRecord {
            id: self.id@,
            extension_id: self.extension_id@,
            label: self.label@,
            icon: self.icon@,
            enabled: self.enabled,
        }
    }
}

impl Keyed for StatusIndicator {
    open spec fn key_of(v: IndicatorRecord) -> Seq<char> {
        v.id
    }

    fn key_str(&self) -> (r: &str) {
        self.id.as_str()
    }
}

/// Notification handler metadata
pub struct NotificationHandler {
    pub id: String,
    pub extension_id: String,
    pub name: String,
    pub enabled: bool,
}

pub struct HandlerRecord {
    pub id: Seq<char>,
    pub extension_id: Seq<char>,
    pub name: Seq<char>,
    pub enabled: bool,
}

impl View for NotificationHandler {
    type V = HandlerRecord;

    open spec fn view(&self) -> HandlerRecord {
        HandlerRecord {
            id: self.id@,
            extension_id: self.extension_id@,
            name: self.name@,
            enabled: self.enabled,
        }
    }
}

impl Keyed for NotificationHandler {
    open spec fn key_of(v: HandlerRecord) -> Seq<char> {
        v.id
    }

    fn key_str(&self) -> (r: &str) {
        self.id.as_str()
    }
}

/// Extension metadata
pub struct Extension {
    pub id: String,
    pub name: String,
    pub extension_type: ExtensionType,
    pub version: String,
    pub author: String,
    pub enabled: bool,
}

pub struct ExtensionRecord {
    pub id: Seq<char>,
    pub name: Seq<char>,
    pub extension_type: ExtensionType,
    pub version: Seq<char>,
    pub author: Seq<char>,
    pub enabled: bool,
}

impl View for Extension {
    type V = ExtensionRecord;

    open spec fn view(&self) -> ExtensionRecord {
        ExtensionRecord {
            id: self.id@,
            name: self.name@,
            extension_type: self.extension_type,
            version: self.version@,
            author: self.author@,
            enabled: self.enabled,
        }
    }
}

impl Keyed for Extension {
    open spec fn key_of(v: ExtensionRecord) -> Seq<char> {
        v.id
    }

    fn key_str(&self) -> (r: &str) {
        self.id.as_str()
    }
}

/// Extension event
#[derive(Clone, Copy, Debug)]
pub enum ExtensionEvent {
    /// Extension enabled
    Enabled(u32),
    /// Extension disabled
    Disabled(u32),
    /// Widget created
    WidgetCreated(u32),
    /// Widget removed
    WidgetRemoved(u32),
    /// Panel created
    PanelCreated(u32),
    /// Panel removed
    PanelRemoved(u32),
    /// Theme changed
    ThemeChanged(u32),
    /// Wallpaper changed
    WallpaperChanged(u32),
}

/// The manager's state as plain values.
pub struct ExtensionModel {
    pub extensions: Seq<ExtensionRecord>,
    pub widgets: Seq<WidgetRecord>,
    pub panels: Seq<PanelRecord>,
    pub themes: Seq<ThemeRecord>,
    pub current_theme: Option<Seq<char>>,
    pub current_wallpaper: Option<Seq<char>>,
    pub indicators: Seq<IndicatorRecord>,
    pub notification_handlers: Seq<HandlerRecord>,
    pub events: Seq<ExtensionEvent>,
}

/// The extension is of type `t` and enabled.
pub open spec fn enabled_of_type(t: ExtensionType) -> spec_fn(ExtensionRecord) -> bool {
    |e: ExtensionRecord| e.extension_type == t && e.enabled
}

/// Views of a sequence of extension references.
pub open spec fn extension_ref_views(s: Seq<&Extension>) -> Seq<ExtensionRecord> {
    s.map_values(|e: &Extension| e@)
}

/// A widget created under an id no widget has is the one found under that
/// id, and removing it gives back the widgets there were before.
pub proof fn law_widget_remove_undoes_create(widgets: Seq<WidgetRecord>, w: WidgetRecord)
    requires
        first_match(widgets, key_is::<Widget>(w.id)) < 0,
    ensures
        ({
            let k = first_match(widgets.push(w), key_is::<Widget>(w.id));
            &&& k >= 0 && widgets.push(w)[k] == w
            &&& widgets.push(w).remove(k) == widgets
        }),
{
    lemma_push_fresh_key::<Widget>(widgets, w);
}

/// A panel created under an id no panel has is the one found under that id,
/// and removing it gives back the panels there were before.
pub proof fn law_panel_remove_undoes_create(panels: Seq<PanelRecord>, p: PanelRecord)
    requires
        first_match(panels, key_is::<Panel>(p.id)) < 0,
    ensures
        ({
            let k = first_match(panels.push(p), key_is::<Panel>(p.id));
            &&& k >= 0 && panels.push(p)[k] == p
            &&& panels.push(p).remove(k) == panels
        }),
{
    lemma_push_fresh_key::<Panel>(panels, p);
}

/// After a theme is made current, the current theme is the first registered
/// theme with that id.
pub proof fn law_set_theme_then_current(themes: Seq<ThemeRecord>, id: Seq<char>)
    requires
        first_match(themes, key_is::<Theme>(id)) >= 0,
    ensures
        ({
            let k = first_match(themes, key_is::<Theme>(id));
            &&& 0 <= k < themes.len()
            &&& themes[k].id == id
        }),
{
    lemma_first_match_spec(themes, key_is::<Theme>(id));
}

/// An extension registered under an id no extension has is the one found
/// under that id afterwards.
pub proof fn law_registered_extension_found(extensions: Seq<ExtensionRecord>, e: ExtensionRecord)
    requires
        first_match(extensions, key_is::<Extension>(e.id)) < 0,
    ensures
        ({
            let k = first_match(extensions.push(e), key_is::<Extension>(e.id));
            k == extensions.len() && extensions.push(e)[k] == e
        }),
{
    lemma_push_fresh_key::<Extension>(extensions, e);
}

/// Extension Manager
pub struct ExtensionManager {
    /// Registered extensions
    extensions: Vec<Extension>,
    /// Active widgets
    widgets: Vec<Widget>,
    /// Active panels
    panels: Vec<Panel>,
    /// Available themes
    themes: Vec<Theme>,
    /// Current theme
    current_theme: Option<String>,
    /// Current wallpaper
    current_wallpaper: Option<String>,
    /// Status indicators
    indicators: Vec<StatusIndicator>,
    /// Notification handlers
    notification_handlers: Vec<NotificationHandler>,
    /// Pending events
    events: Vec<ExtensionEvent>,
}

/// View of an optional string.
pub open spec fn opt_view(o: Option<String>) -> Option<Seq<char>> {
    match o {
        Some(s) => Some(s@),
        None => None,
    }
}

impl View for ExtensionManager {
    type V = ExtensionModel;

    closed spec fn view(&self) -> ExtensionModel {
        ExtensionModel {
            extensions: views(self.extensions@),
            widgets: views(self.widgets@),
            panels: views(self.panels@),
            themes: views(self.themes@),
            current_theme: opt_view(self.current_theme),
            current_wallpaper: opt_view(self.current_wallpaper),
            indicators: views(self.indicators@),
            notification_handlers: views(self.notification_handlers@),
            events: self.events@,
        }
    }
}

impl ExtensionManager {
    /// Create a new extension manager
    pub fn new() -> (m: Self)
        ensures
            m@ == (ExtensionModel {
                extensions: Seq::empty(),
                widgets: Seq::empty(),
                panels: Seq::empty(),
                themes: Seq::empty(),
                current_theme: None,
                current_wallpaper: None,
                indicators: Seq::empty(),
                notification_handlers: Seq::empty(),
                events: Seq::empty(),
            }),
    {
        let m = ExtensionManager {
            extensions: Vec::new(),
            widgets: Vec::new(),
            panels: Vec::new(),
            themes: Vec::new(),
            current_theme: None,
            current_wallpaper: None,
            indicators: Vec::new(),
            notification_handlers: Vec::new(),
            events: Vec::new(),
        };
        assert(views(m.extensions@) =~= Seq::<ExtensionRecord>::empty());
        assert(views(m.widgets@) =~= Seq::<WidgetRecord>::empty());
        assert(views(m.panels@) =~= Seq::<PanelRecord>::empty());
        assert(views(m.themes@) =~= Seq::<ThemeRecord>::empty());
        assert(views(m.indicators@) =~= Seq::<IndicatorRecord>::empty());
        assert(views(m.notification_handlers@) =~= Seq::<HandlerRecord>::empty());
        m
    }

    /// Register an extension; returns its position in the registry.
    pub fn register_extension(&mut self, extension: Extension) -> (r: u32)
        requires
            old(self)@.extensions.len() < u32::MAX,
        ensures
            final(self)@ == (ExtensionModel {
                extensions: old(self)@.extensions.push(extension@),
                ..old(self)@
            }),
            r == old(self)@.extensions.len(),
    {
        proof {
            lemma_views_push(self.extensions@, extension);
        }
        self.extensions.push(extension);
        self.extensions.len() as u32 - 1
    }

    /// Get the first extension with id `ext_id`.
    pub fn get_extension(&self, ext_id: &str) -> (r: Option<&Extension>)
        ensures
            ({
                let k = first_match(self@.extensions, key_is::<Extension>(ext_id@));
                match r {
                    Some(e) => k >= 0 && e@ == self@.extensions[k],
                    None => k < 0,
                }
            }),
    {
        proof {
            lemma_first_match_spec(self@.extensions, key_is::<Extension>(ext_id@));
        }
        match find_key(&self.extensions, ext_id) {
            Some(k) => Some(&self.extensions[k]),
            None => None,
        }
    }

    /// Enable/disable the first extension with id `ext_id`; false when there is none.
    pub fn set_extension_enabled(&mut self, ext_id: &str, enabled: bool) -> (r: bool)
        ensures
            ({
                let k = first_match(old(self)@.extensions, key_is::<Extension>(ext_id@));
                &&& r == (k >= 0)
                &&& final(self)@ == (ExtensionModel {
                    extensions: if k >= 0 {
                        old(self)@.extensions.update(
                            k,
                            ExtensionRecord { enabled, ..old(self)@.extensions[k] },
                        )
                    } else {
                        old(self)@.extensions
                    },
                    ..old(self)@
                })
            }),
    {
        proof {
            lemma_first_match_spec(self@.extensions, key_is::<Extension>(ext_id@));
        }
        match find_key(&self.extensions, ext_id) {
            Some(k) => {
                let ghost before = self.extensions@;
                let e = self.extensions.remove(k);
                let e2 = Extension {
                    id: e.id,
                    name: e.name,
                    extension_type: e.extension_type,
                    version: e.version,
                    author: e.author,
                    enabled,
                };
                self.extensions.insert(k, e2);
                assert(self.extensions@ =~= before.update(k as int, self.extensions@[k as int]));
                proof {
                    lemma_views_update(before, k as int, self.extensions@[k as int]);
                }
                true
            },
            None => false,
        }
    }

    /// Create a widget for a registered extension; false when the extension
    /// is not registered.
    pub fn create_widget(
        &mut self,
        ext_id: &str,
        widget_id: &str,
        position: WidgetPosition,
        width: u16,
        height: u16,
    ) -> (r: bool)
        ensures
            r == (first_match(old(self)@.extensions, key_is::<Extension>(ext_id@)) >= 0),
            r ==> final(self)@ == (ExtensionModel {
                widgets: old(self)@.widgets.push(
                    WidgetRecord {
                        id: widget_id@,
                        extension_id: ext_id@,
                        position,
                        width,
                        height,
                        always_on_top: false,
                        enabled: true,
                    },
                ),
                events: old(self)@.events.push(ExtensionEvent::WidgetCreated(0)),
                ..old(self)@
            }),
            !r ==> final(self)@ == old(self)@,
    {
        if self.get_extension(ext_id).is_none() {
            return false;
        }
        let w = Widget {
            id: copy_str(widget_id),
            extension_id: copy_str(ext_id),
            position,
            width,
            height,
            always_on_top: false,
            enabled: true,
        };
        proof {
            lemma_views_push(self.widgets@, w);
        }
        self.widgets.push(w);
        self.events.push(ExtensionEvent::WidgetCreated(0));
        true
    }

    /// Remove the first widget with id `widget_id`; false when there is none.
    pub fn remove_widget(&mut self, widget_id: &str) -> (r: bool)
        ensures
            ({
                let k = first_match(old(self)@.widgets, key_is::<Widget>(widget_id@));
                &&& r == (k >= 0)
                &&& r ==> final(self)@ == (ExtensionModel {
                    widgets: old(self)@.widgets.remove(k),
                    events: old(self)@.events.push(ExtensionEvent::WidgetRemoved(0)),
                    ..old(self)@
                })
                &&& !r ==> final(self)@ == old(self)@
            }),
    {
        proof {
            lemma_first_match_spec(self@.widgets, key_is::<Widget>(widget_id@));
        }
        match find_key(&self.widgets, widget_id) {
            Some(pos) => {
                proof {
                    lemma_views_remove(self.widgets@, pos as int);
                }
                self.widgets.remove(pos);
                self.events.push(ExtensionEvent::WidgetRemoved(0));
                true
            },
            None => false,
        }
    }

    /// Get all widgets
    pub fn widgets(&self) -> (r: &[Widget])
        ensures
            views(r@) == self@.widgets,
    {
        self.widgets.as_slice()
    }

    /// Create a panel for a registered extension; false when the extension
    /// is not registered.
    pub fn create_panel(&mut self, ext_id: &str, panel_id: &str, position: WidgetPosition, height: u16) -> (r: bool)
        ensures
            r == (first_match(old(self)@.extensions, key_is::<Extension>(ext_id@)) >= 0),
            r ==> final(self)@ == (ExtensionModel {
                panels: old(self)@.panels.push(
                    PanelRecord { id: panel_id@, extension_id: ext_id@, position, height, enabled: true },
                ),
                events: old(self)@.events.push(ExtensionEvent::PanelCreated(0)),
                ..old(self)@
            }),
            !r ==> final(self)@ == old(self)@,
    {
        if self.get_extension(ext_id).is_none() {
            return false;
        }
        let p = Panel {
            id: copy_str(panel_id),
            extension_id: copy_str(ext_id),
            position,
            height,
            enabled: true,
        };
        proof {
            lemma_views_push(self.panels@, p);
        }
        self.panels.push(p);
        self.events.push(ExtensionEvent::PanelCreated(0));
        true
    }

    /// Remove the first panel with id `panel_id`; false when there is none.
    pub fn remove_panel(&mut self, panel_id: &str) -> (r: bool)
        ensures
            ({
                let k = first_match(old(self)@.panels, key_is::<Panel>(panel_id@));
                &&& r == (k >= 0)
                &&& r ==> final(self)@ == (ExtensionModel {
                    panels: old(self)@.panels.remove(k),
                    events: old(self)@.events.push(ExtensionEvent::PanelRemoved(0)),
                    ..old(self)@
                })
                &&& !r ==> final(self)@ == old(self)@
            }),
    {
        proof {
            lemma_first_match_spec(self@.panels, key_is::<Panel>(panel_id@));
        }
        match find_key(&self.panels, panel_id) {
            Some(pos) => {
                proof {
                    lemma_views_remove(self.panels@, pos as int);
                }
                self.panels.remove(pos);
                self.events.push(ExtensionEvent::PanelRemoved(0));
                true
            },
            None => false,
        }
    }

    /// Get all panels
    pub fn panels(&self) -> (r: &[Panel])
        ensures
            views(r@) == self@.panels,
    {
        self.panels.as_slice()
    }

    /// Register theme
    pub fn register_theme(&mut self, theme: Theme)
        ensures
            final(self)@ == (ExtensionModel { themes: old(self)@.themes.push(theme@), ..old(self)@ }),
    {
        proof {
            lemma_views_push(self.themes@, theme);
        }
        self.themes.push(theme);
    }

    /// Get the first theme with id `theme_id`.
    pub fn get_theme(&self, theme_id: &str) -> (r: Option<&Theme>)
        ensures
            ({
                let k = first_match(self@.themes, key_is::<Theme>(theme_id@));
                match r {
                    Some(t) => k >= 0 && t@ == self@.themes[k],
                    None => k < 0,
                }
            }),
    {
        proof {
            lemma_first_match_spec(self@.themes, key_is::<Theme>(theme_id@));
        }
        match find_key(&self.themes, theme_id) {
            Some(k) => Some(&self.themes[k]),
            None => None,
        }
    }

    /// Make a registered theme current; false when no theme has that id.
    pub fn set_theme(&mut self, theme_id: &str) -> (r: bool)
        ensures
            r == (first_match(old(self)@.themes, key_is::<Theme>(theme_id@)) >= 0),
            r ==> final(self)@ == (ExtensionModel {
                current_theme: Some(theme_id@),
                events: old(self)@.events.push(ExtensionEvent::ThemeChanged(0)),
                ..old(self)@
            }),
            !r ==> final(self)@ == old(self)@,
    {
        if find_key(&self.themes, theme_id).is_some() {
            self.current_theme = Some(copy_str(theme_id));
            self.events.push(ExtensionEvent::ThemeChanged(0));
            true
        } else {
            false
        }
    }

    /// Get current theme: the first registered theme with the current id.
    pub fn current_theme(&self) -> (r: Option<&Theme>)
        ensures
            match self@.current_theme {
                None => r is None,
                Some(id) => {
                    let k = first_match(self@.themes, key_is::<Theme>(id));
                    match r {
                        Some(t) => k >= 0 && t@ == self@.themes[k],
                        None => k < 0,
                    }
                },
            },
    {
        match &self.current_theme {
            Some(id) => self.get_theme(id.as_str()),
            None => None,
        }
    }

    /// Set wallpaper
    pub fn set_wallpaper(&mut self, wallpaper_id: &str) -> (r: bool)
        ensures
            r,
            final(self)@ == (ExtensionModel {
                current_wallpaper: Some(wallpaper_id@),
                events: old(self)@.events.push(ExtensionEvent::WallpaperChanged(0)),
                ..old(self)@
            }),
    {
        self.current_wallpaper = Some(copy_str(wallpaper_id));
        self.events.push(ExtensionEvent::WallpaperChanged(0));
        true
    }

    /// Get current wallpaper
    pub fn current_wallpaper(&self) -> (r: Option<&str>)
        ensures
            match self@.current_wallpaper {
                Some(w) => r matches Some(s) && s@ == w,
                None => r is None,
            },
    {
        match &self.current_wallpaper {
            Some(s) => Some(s.as_str()),
            None => None,
        }
    }

    /// Register status indicator
    pub fn register_indicator(&mut self, indicator: StatusIndicator)
        ensures
            final(self)@ == (ExtensionModel {
                indicators: old(self)@.indicators.push(indicator@),
                ..old(self)@
            }),
    {
        proof {
            lemma_views_push(self.indicators@, indicator);
        }
        self.indicators.push(indicator);
    }

    /// Remove the first status indicator with id `indicator_id`; false when
    /// there is none.
    pub fn remove_indicator(&mut self, indicator_id: &str) -> (r: bool)
        ensures
            ({
                let k = first_match(old(self)@.indicators, key_is::<StatusIndicator>(indicator_id@));
                &&& r == (k >= 0)
                &&& r ==> final(self)@ == (ExtensionModel {
                    indicators: old(self)@.indicators.remove(k),
                    ..old(self)@
                })
                &&& !r ==> final(self)@ == old(self)@
            }),
    {
        proof {
            lemma_first_match_spec(self@.indicators, key_is::<StatusIndicator>(indicator_id@));
        }
        match find_key(&self.indicators, indicator_id) {
            Some(pos) => {
                proof {
                    lemma_views_remove(self.indicators@, pos as int);
                }
                self.indicators.remove(pos);
                true
            },
            None => false,
        }
    }

    /// Get all indicators
    pub fn indicators(&self) -> (r: &[StatusIndicator])
        ensures
            views(r@) == self@.indicators,
    {
        self.indicators.as_slice()
    }

    /// Register notification handler
    pub fn register_notification_handler(&mut self, handler: NotificationHandler)
        ensures
            final(self)@ == (ExtensionModel {
                notification_handlers: old(self)@.notification_handlers.push(handler@),
                ..old(self)@
            }),
    {
        proof {
            lemma_views_push(self.notification_handlers@, handler);
        }
        self.notification_handlers.push(handler);
    }

    /// Remove the first notification handler with id `handler_id`; false when
    /// there is none.
    pub fn remove_notification_handler(&mut self, handler_id: &str) -> (r: bool)
        ensures
            ({
                let k = first_match(
                    old(self)@.notification_handlers,
                    key_is::<NotificationHandler>(handler_id@),
                );
                &&& r == (k >= 0)
                &&& r ==> final(self)@ == (ExtensionModel {
                    notification_handlers: old(self)@.notification_handlers.remove(k),
                    ..old(self)@
                })
                &&& !r ==> final(self)@ == old(self)@
            }),
    {
        proof {
            lemma_first_match_spec(
                self@.notification_handlers,
                key_is::<NotificationHandler>(handler_id@),
            );
        }
        match find_key(&self.notification_handlers, handler_id) {
            Some(pos) => {
                proof {
                    lemma_views_remove(self.notification_handlers@, pos as int);
                }
                self.notification_handlers.remove(pos);
                true
            },
            None => false,
        }
    }

    /// Get all notification handlers
    pub fn notification_handlers(&self) -> (r: &[NotificationHandler])
        ensures
            views(r@) == self@.notification_handlers,
    {
        self.notification_handlers.as_slice()
    }

    /// Hand out the pending events, oldest first, and forget them.
    pub fn drain_events(&mut self) -> (r: Vec<ExtensionEvent>)
        ensures
            r@ == old(self)@.events,
            final(self)@ == (ExtensionModel { events: Seq::empty(), ..old(self)@ }),
    {
        let mut events: Vec<ExtensionEvent> = Vec::new();
        core::mem::swap(&mut events, &mut self.events);
        events
    }

    /// The enabled extensions of type `ext_type`, in registration order.
    pub fn extensions_by_type(&self, ext_type: ExtensionType) -> (r: Vec<&Extension>)
        ensures
            extension_ref_views(r@) == keep_all(self@.extensions, enabled_of_type(ext_type)),
    {
        let ghost vs = views(self.extensions@);
        let mut r: Vec<&Extension> = Vec::new();
        let mut i: usize = 0;
        while i < self.extensions.len()
            invariant
                vs == views(self.extensions@),
                i <= self.extensions@.len(),
                extension_ref_views(r@) == keep(vs, enabled_of_type(ext_type), i as int),
            decreases self.extensions@.len() - i,
        {
            let e = &self.extensions[i];
            if e.extension_type == ext_type && e.enabled {
                let ghost before = r@;
                r.push(e);
                assert(extension_ref_views(r@) =~= extension_ref_views(before).push(vs[i as int]));
            }
            i = i + 1;
        }
        r
    }
}

} // verus!
