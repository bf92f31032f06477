use ade::sdk::{
    AuditReport, ClipboardApi, CrashReport, DesktopApi, Diagnostics, DocumentationGenerator, Language,
    LocalizationManager, Profiler, SettingsApi, Translation, WindowApi,
};

#[test]
fn test_desktop_api_creation() {
    let api = DesktopApi::new();
    assert_eq!(api.version.major, 1);
}

#[test]
fn test_localization() {
    let mut lm = LocalizationManager::new();
    lm.add_translation(Translation {
        key: String::from("hello"),
        language: Language::English,
        text: String::from("Hello"),
    });
    assert_eq!(lm.translate("hello"), Some(String::from("Hello")));
}

#[test]
fn test_diagnostics() {
    let mut diag = Diagnostics::new();
    let report = CrashReport {
        timestamp_ms: 0,
        process_name: String::from("test"),
        backtrace: Vec::new(),
        memory_state: String::from("unknown"),
    };
    diag.record_crash(report);
    assert_eq!(diag.get_crash_reports().len(), 1);
}

#[test]
fn translation_follows_language() {
    let mut lm = LocalizationManager::new();
    lm.add_translation(Translation { key: String::from("bye"), language: Language::French, text: String::from("Au revoir") });
    lm.add_translation(Translation { key: String::from("bye"), language: Language::English, text: String::from("Bye") });
    lm.add_translation(Translation { key: String::from("bye"), language: Language::English, text: String::from("Later") });
    assert_eq!(lm.translate("bye"), Some(String::from("Bye")));
    lm.set_language(Language::French);
    assert_eq!(lm.translate("bye"), Some(String::from("Au revoir")));
    lm.set_language(Language::German);
    assert_eq!(lm.translate("bye"), None);
}

#[test]
fn sdk_stubs_answer_nothing() {
    assert_eq!(WindowApi::create("t", 1, 1), 0);
    assert_eq!(ClipboardApi::get_text(), None);
    assert_eq!(SettingsApi::get("k"), None);
    WindowApi::close(1);
    WindowApi::set_title(1, "x");
    ClipboardApi::set_text("x");
    SettingsApi::set("k", "v");
}

#[test]
fn profiler_samples_only_while_running() {
    let mut p = Profiler::new();
    p.record_sample("a");
    p.start();
    p.record_sample("b");
    p.stop();
    p.record_sample("c");
    let mut d = Diagnostics::new();
    d.profiler = p;
    assert_eq!(d.get_crash_reports().len(), 0);
}

#[test]
fn documentation_texts() {
    assert_eq!(
        DocumentationGenerator::generate_api_docs(),
        "# Desktop SDK API Documentation\n\n## Window API\n..."
    );
    let ex = DocumentationGenerator::generate_examples();
    assert_eq!(ex, vec![String::from("# Example 1: Create Window\n...")]);
    let a = AuditReport::new();
    assert_eq!(a.unsafe_blocks, 0);
    assert!(a.dead_code_items.is_empty());
}
