use addon::actions::Action;
use addon::config::{Config, GlobalSettings, KeyBinding, PlatformOverrides};
use addon::hotkey::{
    hot_key_id_to_uint, hotkey_registrations, modifiers_to_cocoa, registration_failure, uint_to_hot_key_id, HotKeyId,
    CREATOR,
};
use addon::keymap::Modifier;
use addon::os::{OsAdapter, OsPlatform};
use addon::text::{decimal_string, join_strings, trim_chars};
use addon::windows::WindowsAdapter;

#[test]
fn platforms_in_order() {
    assert_eq!(OsPlatform::all(), vec![OsPlatform::Macos, OsPlatform::Windows, OsPlatform::Linux]);
}

#[test]
fn windows_adapter_lifecycle() {
    let mut a = WindowsAdapter::new();
    assert_eq!(a.get_platform(), OsPlatform::Windows);
    match a.start() {
        Err(e) => assert_eq!(e.to_string(), "OS adapter not available: Windows adapter not initialized"),
        Ok(()) => panic!("start before init must fail"),
    }
    assert!(a.init().is_ok());
    assert!(a.start().is_ok());
    assert!(a.stop().is_ok());
    assert!(a.start().is_err());
}

#[test]
fn cocoa_flags() {
    assert_eq!(modifiers_to_cocoa(&[]), 0);
    assert_eq!(modifiers_to_cocoa(&[Modifier::Control, Modifier::Shift]), 0x12);
    assert_eq!(modifiers_to_cocoa(&[Modifier::Alt, Modifier::Option, Modifier::Alt]), 0x8);
    assert_eq!(
        modifiers_to_cocoa(&[Modifier::CapsLock, Modifier::Command, Modifier::Option, Modifier::Shift, Modifier::Control]),
        0x1f
    );
}

#[test]
fn registrations_follow_effective_keys() {
    let b = KeyBinding {
        id: "r".to_string(),
        keys: vec!["Ctrl+R".to_string(), "Nope+R".to_string(), "Alt+R".to_string()],
        action: Action::Paste { text: "r".to_string() },
        overrides: Some(PlatformOverrides { macos: Some(vec!["Cmd+R".to_string()]), windows: None, linux: None }),
    };
    let cfg = Config { version: "1.0".to_string(), global: GlobalSettings::default(), keybindings: vec![b] };
    let linux = hotkey_registrations(&cfg, OsPlatform::Linux);
    assert_eq!(linux.len(), 2);
    assert_eq!(linux[0].key, "Ctrl+R");
    assert_eq!(linux[1].stroke.display(), "Alt+R");
    assert_eq!(linux[1].binding_id, "r");
    let mac = hotkey_registrations(&cfg, OsPlatform::Macos);
    assert_eq!(mac.len(), 1);
    assert_eq!(mac[0].stroke.modifiers, vec![Modifier::Command]);
    assert_eq!(registration_failure(&"Cmd+R".to_string()), "Failed to register hotkey: Cmd+R");
}

#[test]
fn text_helpers() {
    assert_eq!(decimal_string(0), "0");
    assert_eq!(decimal_string(1048576), "1048576");
    assert_eq!(decimal_string(u64::MAX), "18446744073709551615");
    assert_eq!(join_strings(&vec!["a".to_string(), "b".to_string(), "c".to_string()], "; "), "a; b; c");
    assert_eq!(join_strings(&vec![], ", "), "");
    let t = trim_chars(&"\u{3000} x y\t\n".chars().collect());
    assert_eq!(t, vec!['x', ' ', 'y']);
}

#[test]
fn test_id_roundtrip() {
    let id = HotKeyId { creator: 0x61646461, id: 42 };
    let encoded = hot_key_id_to_uint(id);
    let decoded = uint_to_hot_key_id(encoded);
    assert_eq!(id, decoded);
}

#[test]
fn test_creator_decode() {
    let id = HotKeyId { creator: CREATOR, id: 1 };
    let encoded = hot_key_id_to_uint(id);
    let decoded = uint_to_hot_key_id(encoded);
    assert_eq!(decoded.creator, CREATOR);
}

#[test]
fn hot_key_id_keeps_low_sequence_bits() {
    let encoded = hot_key_id_to_uint(HotKeyId { creator: 2, id: 0x1_0005 });
    assert_eq!(encoded, 2 * 65536 + 5);
    assert_eq!(uint_to_hot_key_id(encoded), HotKeyId { creator: 2, id: 5 });
}
