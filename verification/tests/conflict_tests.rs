use addon::actions::Action;
use addon::config::{Config, GlobalSettings, KeyBinding, PlatformOverrides};
use addon::conflict::detect_conflicts;

fn sample_binding(id: &str, keys: &[&str]) -> KeyBinding {
    KeyBinding {
        id: id.to_string(),
        keys: keys.iter().map(|k| k.to_string()).collect(),
        action: Action::Paste { text: "test".to_string() },
        overrides: None,
    }
}

#[test]
fn test_detect_no_conflicts() {
    let config = Config {
        version: "1.0".to_string(),
        global: GlobalSettings::default(),
        keybindings: vec![sample_binding("paste", &["Ctrl+V"]), sample_binding("launch_vs", &["Ctrl+Shift+V"])],
    };
    let conflicts = detect_conflicts(&config.keybindings);
    assert!(conflicts.is_empty());
}

#[test]
fn test_detect_conflict_same_keys() {
    let keybindings = vec![sample_binding("paste", &["Ctrl+V"]), sample_binding("paste2", &["Ctrl+V"])];
    let conflicts = detect_conflicts(&keybindings);
    // Should detect conflicts on all 3 platforms
    assert_eq!(conflicts.len(), 3);
}

#[test]
fn test_detect_conflict_different_modifier_order() {
    // "Ctrl+Shift+V" and "Shift+Ctrl+V" should be treated as the same key
    let keybindings = vec![sample_binding("bind1", &["Ctrl+Shift+V"]), sample_binding("bind2", &["Shift+Ctrl+V"])];
    let conflicts = detect_conflicts(&keybindings);
    // Should detect conflicts on all 3 platforms
    assert_eq!(conflicts.len(), 3);
}

#[test]
fn conflict_names_canonical_key_and_both_bindings() {
    let keybindings = vec![sample_binding("bind1", &["Shift+Ctrl+v"]), sample_binding("bind2", &["Ctrl+Shift+V"])];
    let conflicts = detect_conflicts(&keybindings);
    assert_eq!(conflicts.len(), 3);
    for c in &conflicts {
        assert_eq!(c.key, "Ctrl+Shift+V");
        assert_eq!(c.bindings, vec!["bind1".to_string(), "bind2".to_string()]);
    }
}

#[test]
fn one_conflict_per_platform_lists_every_sharing_binding() {
    let keybindings = vec![
        sample_binding("a", &["Alt+F4"]),
        sample_binding("b", &["Alt+F4"]),
        sample_binding("x", &["Ctrl+X"]),
        sample_binding("c", &["Option+f4"]),
    ];
    let conflicts = detect_conflicts(&keybindings);
    assert_eq!(conflicts.len(), 3);
    for c in &conflicts {
        assert_eq!(c.key, "Alt+F4");
        assert_eq!(c.bindings, vec!["a".to_string(), "b".to_string(), "c".to_string()]);
    }
}

#[test]
fn overrides_separate_platforms() {
    let mut mac = sample_binding("mac", &["Ctrl+C"]);
    mac.overrides = Some(PlatformOverrides { macos: Some(vec!["Cmd+C".to_string()]), windows: None, linux: None });
    let other = sample_binding("other", &["Ctrl+C"]);
    let conflicts = detect_conflicts(&vec![mac, other]);
    // Windows and Linux only: on macOS the first binding uses Cmd+C.
    assert_eq!(conflicts.len(), 2);
}

#[test]
fn unparseable_keys_are_skipped() {
    let keybindings = vec![sample_binding("x", &["Hyper+K", "Ctrl+"]), sample_binding("y", &["Hyper+K", "Ctrl+"])];
    assert!(detect_conflicts(&keybindings).is_empty());
}
