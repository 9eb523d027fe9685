use operon_gui::paths::{clean_unc_path, clean_windows_path};
use operon_gui::string_set::StringSet;
use operon_gui::settings::prefs::{CloseButtonAction, GuiPrefs, ThinkingOrbStyle};

#[test]
fn test_expanded_files_cache_operations() {
    let mut guard = StringSet::new();
    guard.insert("src/main.rs");
    assert!(guard.contains("src/main.rs"));
    guard.remove("src/main.rs");
    assert!(!guard.contains("src/main.rs"));
}

#[test]
fn test_gui_prefs_defaults() {
    let prefs = GuiPrefs::default();
    assert!(!prefs.autostart_enabled);
    assert!(!prefs.minimize_to_tray_enabled);
    assert!(!prefs.start_minimized);
    assert_eq!(prefs.close_button_action, CloseButtonAction::Exit);
    assert_eq!(prefs.thinking_orb_style, ThinkingOrbStyle::Composing);
    assert!(prefs.auto_scroll_stream);
    assert!(prefs.notify_on_permission_request);
    assert!(!prefs.notify_on_response_complete);
}

#[test]
fn orb_style_indexes_round_trip() {
    for style in [ThinkingOrbStyle::Composing, ThinkingOrbStyle::Solving, ThinkingOrbStyle::Breathing] {
        assert_eq!(ThinkingOrbStyle::from_index(style.to_index()), style);
    }
    assert_eq!(ThinkingOrbStyle::Breathing.to_index(), 2);
    assert_eq!(ThinkingOrbStyle::from_index(7), ThinkingOrbStyle::Composing);
    assert_eq!(ThinkingOrbStyle::from_index(-1), ThinkingOrbStyle::Composing);
}

#[test]
fn verbatim_prefixes_are_removed() {
    assert_eq!(clean_unc_path("\\\\?\\C:\\work".to_string()), "C:\\work");
    assert_eq!(clean_unc_path("C:\\work".to_string()), "C:\\work");
    assert_eq!(clean_windows_path("\\\\?\\UNC\\server\\share"), "\\\\server\\share");
    assert_eq!(clean_windows_path("\\\\?\\D:\\x"), "D:\\x");
    assert_eq!(clean_windows_path("/home/u"), "/home/u");
}

#[test]
fn expanded_cache_holds_each_path_once() {
    let mut cache = StringSet::new();
    cache.insert("a");
    cache.insert("a");
    cache.remove("a");
    assert!(!cache.contains("a"));
    cache.insert("b");
    cache.clear();
    assert!(!cache.contains("b"));
}
