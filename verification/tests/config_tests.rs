use addon::actions::Action;
use addon::config::{check_loaded_config, CommandFallback, Config, GlobalSettings, KeyBinding, PlatformOverrides};
use addon::error::Error;
use addon::keymap::KeyStroke;
use addon::mapper::KeyMapper;
use addon::os::OsPlatform;

fn sample_config() -> Config {
    Config {
        version: "1.0".to_string(),
        global: GlobalSettings::default(),
        keybindings: vec![KeyBinding {
            id: "test1".to_string(),
            keys: vec!["Ctrl+A".to_string()],
            action: Action::Paste { text: "hello".to_string() },
            overrides: None,
        }],
    }
}

fn binding(id: &str, keys: &[&str], action: Action) -> KeyBinding {
    KeyBinding {
        id: id.to_string(),
        keys: keys.iter().map(|k| k.to_string()).collect(),
        action,
        overrides: None,
    }
}

#[test]
fn test_validate_no_errors() {
    let config = sample_config();
    assert!(config.validate().is_empty());
}

#[test]
fn test_validate_duplicate_ids() {
    let mut config = sample_config();
    config.keybindings.push(KeyBinding {
        id: "test1".to_string(),
        keys: vec!["Ctrl+B".to_string()],
        action: Action::Paste { text: "world".to_string() },
        overrides: None,
    });
    let errors = config.validate();
    assert!(errors.iter().any(|e| e.contains("duplicate")));
}

#[test]
fn test_validate_empty_keys() {
    let mut config = sample_config();
    config.keybindings.push(KeyBinding {
        id: "empty".to_string(),
        keys: vec![],
        action: Action::Paste { text: "".to_string() },
        overrides: None,
    });
    let errors = config.validate();
    assert!(errors.iter().any(|e| e.contains("no keys")));
}

#[test]
fn test_validate_invalid_command() {
    let mut config = sample_config();
    config.keybindings.push(KeyBinding {
        id: "bad_cmd".to_string(),
        keys: vec!["Ctrl+X".to_string()],
        action: Action::SystemCommand { command: "rm -rf /; echo hack".to_string() },
        overrides: None,
    });
    let errors = config.validate();
    assert!(errors.iter().any(|e| e.contains("shell metacharacter")));
}

#[test]
fn test_build_keymapper() {
    let config = sample_config();
    let mapper = config.build_keymapper(OsPlatform::Linux);
    let stroke = KeyStroke::parse("Ctrl+A").unwrap();
    assert!(mapper.lookup(&stroke).is_some());
}

#[test]
fn test_effective_keys_with_overrides() {
    let mut config = sample_config();
    config.keybindings[0].overrides = Some(PlatformOverrides {
        macos: Some(vec!["Cmd+A".to_string()]),
        windows: None,
        linux: None,
    });

    let binding = &config.keybindings[0];
    assert_eq!(binding.effective_keys(OsPlatform::Macos), &["Cmd+A"]);
    assert_eq!(binding.effective_keys(OsPlatform::Linux), &["Ctrl+A"]);
}

#[test]
fn validate_reports_messages_in_order() {
    let config = Config {
        version: "1.0".to_string(),
        global: GlobalSettings::default(),
        keybindings: vec![
            binding("a", &["Ctrl+A"], Action::Paste { text: "x".to_string() }),
            binding("a", &[], Action::Paste { text: "y".to_string() }),
            binding("b", &["  ", "Ctrl+B"], Action::SystemCommand { command: "ls -la".to_string() }),
        ],
    };
    let errors = config.validate();
    assert_eq!(
        errors,
        vec![
            "duplicate binding ID: a".to_string(),
            "binding 'a' has no keys defined".to_string(),
            "binding 'b' has an empty key string".to_string(),
        ]
    );
}

#[test]
fn validate_blank_override_keys() {
    let mut b = binding("ov", &["Ctrl+O"], Action::Launch { path: "/bin/app".to_string() });
    b.overrides = Some(PlatformOverrides {
        macos: Some(vec!["".to_string()]),
        windows: Some(vec!["Ctrl+O".to_string()]),
        linux: Some(vec!["\t".to_string(), " ".to_string()]),
    });
    let config = Config { version: "1.0".to_string(), global: GlobalSettings::default(), keybindings: vec![b] };
    assert_eq!(
        config.validate(),
        vec![
            "binding 'ov' has an empty macOS override key string".to_string(),
            "binding 'ov' has an empty Linux override key string".to_string(),
            "binding 'ov' has an empty Linux override key string".to_string(),
        ]
    );
}

#[test]
fn validate_command_message_lists_bad_chars() {
    let config = Config {
        version: "1.0".to_string(),
        global: GlobalSettings::default(),
        keybindings: vec![binding("c", &["Ctrl+C"], Action::SystemCommand { command: "echo $HOME; ls".to_string() })],
    };
    assert_eq!(
        config.validate(),
        vec!["Binding 'c' has invalid system command: Command contains potentially unsafe shell metacharacters: $;"
            .to_string()]
    );
}

#[test]
fn effective_keys_without_overrides_are_defaults() {
    let b = binding("d", &["Ctrl+D", "Alt+D"], Action::Remap { to: "Escape".to_string() });
    assert_eq!(b.effective_keys(OsPlatform::Windows), &["Ctrl+D", "Alt+D"]);
    assert_eq!(b.effective_keys(OsPlatform::Macos), &["Ctrl+D", "Alt+D"]);
}

#[test]
fn keymapper_later_binding_wins_and_skips_bad_keys() {
    let config = Config {
        version: "1.0".to_string(),
        global: GlobalSettings::default(),
        keybindings: vec![
            binding("first", &["Ctrl+Shift+V", "Bogus+Q"], Action::Paste { text: "one".to_string() }),
            binding("second", &["Shift+Ctrl+v"], Action::Paste { text: "two".to_string() }),
        ],
    };
    let mapper = config.build_keymapper(OsPlatform::Linux);
    let stroke = KeyStroke::parse("Ctrl+Shift+V").unwrap();
    assert_eq!(mapper.lookup(&stroke), Some(&Action::Paste { text: "two".to_string() }));
    assert!(mapper.is_bound(&stroke));
    let missing = KeyStroke::parse("Ctrl+X").unwrap();
    assert!(mapper.lookup(&missing).is_none());
    assert!(!mapper.is_bound(&missing));
}

#[test]
fn keymapper_uses_platform_overrides() {
    let mut b = binding("m", &["Ctrl+M"], Action::Paste { text: "m".to_string() });
    b.overrides = Some(PlatformOverrides { macos: Some(vec!["Cmd+M".to_string()]), windows: None, linux: None });
    let config = Config { version: "1.0".to_string(), global: GlobalSettings::default(), keybindings: vec![b] };
    let mac = config.build_keymapper(OsPlatform::Macos);
    assert!(mac.lookup(&KeyStroke::parse("Cmd+M").unwrap()).is_some());
    assert!(mac.lookup(&KeyStroke::parse("Ctrl+M").unwrap()).is_none());
    let linux = config.build_keymapper(OsPlatform::Linux);
    assert!(linux.lookup(&KeyStroke::parse("Ctrl+M").unwrap()).is_some());
}

#[test]
fn default_config_values() {
    let c = Config::default();
    assert_eq!(c.version, "1.0");
    assert_eq!(c.global.modifier_map.command, CommandFallback::AltCtrl);
    assert!(c.keybindings.is_empty());
}

#[test]
fn clone_keeps_config() {
    let mut c = sample_config();
    c.keybindings[0].overrides =
        Some(PlatformOverrides { macos: None, windows: Some(vec!["Ctrl+W".to_string()]), linux: None });
    let d = c.clone();
    assert_eq!(c, d);
}

#[test]
fn loaded_config_accepts_valid() {
    let c = sample_config();
    let r = check_loaded_config(c, "/tmp/config.yaml");
    assert!(matches!(r, Ok(ref c) if c.keybindings.len() == 1));
}

#[test]
fn loaded_config_rejects_invalid_with_joined_messages() {
    let mut c = sample_config();
    c.keybindings.push(binding("test1", &[], Action::Paste { text: "z".to_string() }));
    match check_loaded_config(c, "/tmp/c.yaml") {
        Err(Error::Parse(m)) => assert_eq!(
            m,
            "config validation failed for \"/tmp/c.yaml\": duplicate binding ID: test1; binding 'test1' has no keys defined"
        ),
        other => panic!("unexpected: {:?}", other),
    }
}
