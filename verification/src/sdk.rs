//! Desktop SDK: the public API surface, localization, developer tools and
//! the quality and documentation helpers.
use vstd::prelude::*;
use crate::keyed::{views, lemma_views_push};
use crate::search::{first_match, lemma_first_match, lemma_first_match_spec};
use crate::text::{copy_str, copy_string, string_eq_str};

verus! {

// ============================================================================
// Desktop SDK: public APIs
// ============================================================================

/// SDK version
#[derive(Clone, Copy)]
pub struct SdkVersion {
    pub major: u16,
    pub minor: u16,
}

/// Desktop API: main public entry point
pub struct DesktopApi {
    pub version: SdkVersion,
}

impl DesktopApi {
    pub fn new() -> (d: Self)
        ensures
            d.version.major == 1,
            d.version.minor == 0,
    {
        DesktopApi { version: SdkVersion { major: 1, minor: 0 } }
    }
}

/// Window API
pub struct WindowApi;

impl WindowApi {
    /// Window creation is not wired to a window manager: the id is always 0.
    pub fn create(_title: &str, _width: u32, _height: u32) -> (r: u32)
        ensures
            r == 0,
    {
        0
    }

    pub fn close(_window_id: u32) {
    }

    pub fn set_title(_window_id: u32, _title: &str) {
    }
}

/// Notification API
pub struct NotificationApi;

impl NotificationApi {
    pub fn show(_title: &str, _message: &str, _duration_ms: u32) {
    }

    pub fn show_with_actions(_title: &str, _message: &str, _actions: &[&str]) {
    }
}

/// Clipboard API
pub struct ClipboardApi;

impl ClipboardApi {
    /// The API has no clipboard behind it: there is never text to get.
    pub fn get_text() -> (r: Option<String>)
        ensures
            r is None,
    {
        None
    }

    pub fn set_text(_text: &str) {
    }
}

/// Settings API
pub struct SettingsApi;

impl SettingsApi {
    /// The API has no settings store behind it: no key has a value.
    pub fn get(_key: &str) -> (r: Option<String>)
        ensures
            r is None,
    {
        None
    }

    pub fn set(_key: &str, _value: &str) {
    }
}

// ============================================================================
// Localization: language and translation support
// ============================================================================

/// Language identifier
#[derive(Clone, Copy, Debug, PartialEq, Eq, Structural)]
pub enum Language {
    English,
    Spanish,
    French,
    German,
    Chinese,
    Japanese,
    Custom,
}

/// Translation entry
pub struct Translation {
    pub key: String,
    pub language: Language,
    pub text: String,
}

pub struct TranslationRecord {
    pub key: Seq<char>,
    pub language: Language,
    pub text: Seq<char>,
}

impl View for Translation {
    type V = TranslationRecord;

    open spec fn view(&self) -> TranslationRecord {
        TranslationRecord { key: self.key@, language: self.language, text: self.text@ }
    }
}

/// Locale information
#[derive(Clone, Copy)]
pub struct Locale {
    pub language: Language,
    pub rtl: bool,
}

/// The localization state as plain values.
pub struct LocalizationModel {
    pub translations: Seq<TranslationRecord>,
    pub language: Language,
    pub rtl: bool,
}

/// The translation is for `key` in `language`.
pub open spec fn translates(key: Seq<char>, language: Language) -> spec_fn(TranslationRecord) -> bool {
    |t: TranslationRecord| t.key == key && t.language == language
}

/// The text for `key` in the current language: that of the first matching
/// translation, or none.
pub open spec fn translation_of(m: LocalizationModel, key: Seq<char>) -> Option<Seq<char>> {
    let k = first_match(m.translations, translates(key, m.language));
    if k >= 0 {
        Some(m.translations[k].text)
    } else {
        None
    }
}

/// Localization Manager
pub struct LocalizationManager {
    translations: Vec<Translation>,
    current_locale: Locale,
}

impl View for LocalizationManager {
    type V = LocalizationModel;

    closed spec fn view(&self) -> LocalizationModel {
        LocalizationModel {
            translations: views(self.translations@),
            language: self.current_locale.language,
            rtl: self.current_locale.rtl,
        }
    }
}

impl LocalizationManager {
    pub fn new() -> (m: Self)
        ensures
            m@ == (LocalizationModel {
                translations: Seq::empty(),
                language: Language::English,
                rtl: false,
            }),
    {
        let m = LocalizationManager {
            translations: Vec::new(),
            current_locale: Locale { language: Language::English, rtl: false },
        };
        assert(views(m.translations@) =~= Seq::<TranslationRecord>::empty());
        m
    }

    pub fn set_language(&mut self, language: Language)
        ensures
            final(self)@ == (LocalizationModel { language, ..old(self)@ }),
    {
        self.current_locale.language = language;
    }

    /// The text for `key` in the current language.
    pub fn translate(&self, key: &str) -> (r: Option<String>)
        ensures
            match translation_of(self@, key@) {
                Some(t) => r matches Some(s) && s@ == t,
                None => r is None,
            },
    {
        let ghost vs = views(self.translations@);
        let language = self.current_locale.language;
        let mut k: usize = 0;
        while k < self.translations.len()
            invariant
                vs == views(self.translations@),
                language == self@.language,
                k <= self.translations@.len(),
                forall|j: int| 0 <= j < k ==> !translates(key@, language)(#[trigger] vs[j]),
            decreases self.translations@.len() - k,
        {
            let t = &self.translations[k];
            if string_eq_str(&t.key, key) && t.language == language {
                proof {
                    lemma_first_match(vs, translates(key@, language), k as int);
                }
                return Some(copy_string(&t.text));
            }
            k = k + 1;
        }
        proof {
            lemma_first_match(vs, translates(key@, language), k as int);
        }
        None
    }

    pub fn add_translation(&mut self, translation: Translation)
        ensures
            final(self)@ == (LocalizationModel {
                translations: old(self)@.translations.push(translation@),
                ..old(self)@
            }),
    {
        proof {
            lemma_views_push(self.translations@, translation);
        }
        self.translations.push(translation);
    }
}

/// A translation added for the current language is found, unless an earlier
/// translation for the same key and language shadows it.
pub proof fn law_translation_found(m: LocalizationModel, t: TranslationRecord)
    requires
        t.language == m.language,
    ensures
        ({
            let m2 = LocalizationModel { translations: m.translations.push(t), ..m };
            translation_of(m2, t.key) == match translation_of(m, t.key) {
                Some(old_text) => Some(old_text),
                None => Some(t.text),
            }
        }),
{
    let p = translates(t.key, m.language);
    let s2 = m.translations.push(t);
    lemma_first_match_spec(m.translations, p);
    let k = first_match(m.translations, p);
    if k >= 0 {
        assert forall|j: int| 0 <= j < k implies !p(#[trigger] s2[j]) by {
            assert(s2[j] == m.translations[j]);
        }
        assert(s2[k] == m.translations[k]);
        lemma_first_match(s2, p, k);
    } else {
        assert forall|j: int| 0 <= j < m.translations.len() implies !p(#[trigger] s2[j]) by {
            assert(s2[j] == m.translations[j]);
        }
        lemma_first_match(s2, p, m.translations.len() as int);
    }
}

// ============================================================================
// Developer tools: crash reporter, profiler, logging
// ============================================================================

/// Crash report
pub struct CrashReport {
    pub timestamp_ms: u64,
    pub process_name: String,
    pub backtrace: Vec<String>,
    pub memory_state: String,
}

/// Profiler
pub struct Profiler {
    enabled: bool,
    samples: Vec<String>,
}

/// The profiler's state as plain values.
pub struct ProfilerModel {
    pub enabled: bool,
    pub samples: Seq<Seq<char>>,
}

impl View for Profiler {
    type V = ProfilerModel;

    closed spec fn view(&self) -> ProfilerModel {
        ProfilerModel { enabled: self.enabled, samples: views(self.samples@) }
    }
}

impl Profiler {
    pub fn new() -> (p: Self)
        ensures
            p@ == (ProfilerModel { enabled: false, samples: Seq::empty() }),
    {
        let p = Profiler { enabled: false, samples: Vec::new() };
        assert(views(p.samples@) =~= Seq::<Seq<char>>::empty());
        p
    }

    pub fn start(&mut self)
        ensures
            final(self)@ == (ProfilerModel { enabled: true, ..old(self)@ }),
    {
        self.enabled = true;
    }

    pub fn stop(&mut self)
        ensures
            final(self)@ == (ProfilerModel { enabled: false, ..old(self)@ }),
    {
        self.enabled = false;
    }

    /// Keep a sample while the profiler runs.
    pub fn record_sample(&mut self, sample: &str)
        ensures
            final(self)@ == if old(self)@.enabled {
                ProfilerModel { samples: old(self)@.samples.push(sample@), ..old(self)@ }
            } else {
                old(self)@
            },
    {
        if self.enabled {
            let s = copy_str(sample);
            proof {
                lemma_views_push(self.samples@, s);
            }
            self.samples.push(s);
        }
    }
}

/// Diagnostic information
pub struct Diagnostics {
    pub crash_reports: Vec<CrashReport>,
    pub profiler: Profiler,
}

impl Diagnostics {
    pub fn new() -> (d: Self)
        ensures
            d.crash_reports@ == Seq::<CrashReport>::empty(),
            d.profiler@ == (ProfilerModel { enabled: false, samples: Seq::empty() }),
    {
        Diagnostics { crash_reports: Vec::new(), profiler: Profiler::new() }
    }

    pub fn record_crash(&mut self, report: CrashReport)
        ensures
            final(self).crash_reports@ == old(self).crash_reports@.push(report),
            final(self).profiler == old(self).profiler,
    {
        self.crash_reports.push(report);
    }

    pub fn get_crash_reports(&self) -> (r: &[CrashReport])
        ensures
            r@ == self.crash_reports@,
    {
        self.crash_reports.as_slice()
    }
}

// ============================================================================
// Quality and ecosystem polish: code quality, documentation
// ============================================================================

/// Code quality metrics
#[derive(Clone, Copy)]
pub struct QualityMetrics {
    pub total_lines: u32,
    pub documented_lines: u32,
    pub test_coverage_percent: u8,
    pub cyclomatic_complexity: u8,
}

/// Documentation generator
pub struct DocumentationGenerator;

impl DocumentationGenerator {
    pub fn generate_api_docs() -> (r: String)
        ensures
            r@ == "# Desktop SDK API Documentation\n\n## Window API\n..."@,
    {
        copy_str("# Desktop SDK API Documentation\n\n## Window API\n...")
    }

    pub fn generate_examples() -> (r: Vec<String>)
        ensures
            r@.len() == 1,
            r@[0]@ == "# Example 1: Create Window\n..."@,
    {
        let mut v: Vec<String> = Vec::new();
        v.push(copy_str("# Example 1: Create Window\n..."));
        v
    }
}

/// Code audit report
pub struct AuditReport {
    pub dead_code_items: Vec<String>,
    pub unsafe_blocks: u32,
    pub memory_issues: Vec<String>,
}

impl AuditReport {
    pub fn new() -> (a: Self)
        ensures
            a.dead_code_items@ == Seq::<String>::empty(),
            a.unsafe_blocks == 0,
            a.memory_issues@ == Seq::<String>::empty(),
    {
        AuditReport { dead_code_items: Vec::new(), unsafe_blocks: 0, memory_issues: Vec::new() }
    }
}

} // verus!
