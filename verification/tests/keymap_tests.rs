use addon::error::Error;
use addon::keymap::{normalize_key_code, Key, KeyStroke, Modifier};

fn stroke(mods: Vec<Modifier>, code: &str) -> KeyStroke {
    KeyStroke { modifiers: mods, key: Key { code: code.to_string() } }
}

#[test]
fn display_of_documented_example() {
    let s = stroke(vec![Modifier::Control, Modifier::Shift], "V");
    assert_eq!(s.display(), "Ctrl+Shift+V");
}

#[test]
fn parse_plain_key() {
    assert_eq!(KeyStroke::parse("v").unwrap(), stroke(vec![], "V"));
}

#[test]
fn parse_orders_and_dedups_modifiers() {
    let a = KeyStroke::parse("Shift+Ctrl+V").unwrap();
    let b = KeyStroke::parse("Ctrl+Shift+V").unwrap();
    let c = KeyStroke::parse(" Shift + Control+Shift+v ").unwrap();
    assert_eq!(a, b);
    assert_eq!(a, c);
    assert_eq!(a.modifiers, vec![Modifier::Control, Modifier::Shift]);
    assert_eq!(a.key.code, "V");
}

#[test]
fn parse_all_aliases() {
    let s = KeyStroke::parse("Caps+Super+Option+Alt+Shift+Control+f1").unwrap();
    assert_eq!(
        s.modifiers,
        vec![Modifier::Control, Modifier::Shift, Modifier::Alt, Modifier::Command, Modifier::CapsLock]
    );
    assert_eq!(s.key.code, "F1");
    let t = KeyStroke::parse("Cmd+Command+CapsLock+Ctrl+enter").unwrap();
    assert_eq!(t.modifiers, vec![Modifier::Control, Modifier::Command, Modifier::CapsLock]);
    assert_eq!(t.key.code, "ENTER");
}

#[test]
fn parse_unknown_modifier_error() {
    match KeyStroke::parse("Ctrl+ Hyper +K") {
        Err(Error::InvalidKey(m)) => assert_eq!(m, "unknown modifier: \"Hyper\""),
        other => panic!("unexpected {:?}", other),
    }
}

#[test]
fn parse_empty_key_error() {
    match KeyStroke::parse("Ctrl+") {
        Err(Error::InvalidKey(m)) => assert_eq!(m, "empty key in stroke: \"Ctrl+\""),
        other => panic!("unexpected {:?}", other),
    }
    match KeyStroke::parse("   ") {
        Err(Error::InvalidKey(m)) => assert_eq!(m, "empty key in stroke: \"   \""),
        other => panic!("unexpected {:?}", other),
    }
}

#[test]
fn error_text_has_kind_prefix() {
    let e = KeyStroke::parse("").unwrap_err();
    assert_eq!(e.to_string(), "invalid key: empty key in stroke: \"\"");
    assert_eq!(Error::Parse("x".to_string()).to_string(), "config parse error: x");
    assert_eq!(Error::Conflict("y".to_string()).to_string(), "conflict detected: y");
    assert_eq!(Error::AdapterNotAvailable("z".to_string()).to_string(), "OS adapter not available: z");
}

#[test]
fn display_groups_alt_and_option() {
    let s = stroke(vec![Modifier::CapsLock, Modifier::Option, Modifier::Command, Modifier::Alt, Modifier::Control], "Q");
    assert_eq!(s.display(), "Ctrl+Alt+Cmd+CapsLock+Q");
    assert_eq!(stroke(vec![], "SPACE").display(), "SPACE");
}

#[test]
fn display_then_parse_roundtrip() {
    let s = stroke(vec![Modifier::Control, Modifier::Alt, Modifier::Command], "F5");
    assert_eq!(KeyStroke::parse(&s.display()).unwrap(), s);
    let with_option = stroke(vec![Modifier::Option, Modifier::Shift], "k");
    let back = KeyStroke::parse(&with_option.display()).unwrap();
    assert_eq!(back, stroke(vec![Modifier::Shift, Modifier::Alt], "K"));
}

#[test]
fn normalize_uppercases() {
    assert_eq!(normalize_key_code("a"), "A");
    assert_eq!(normalize_key_code("enter"), "ENTER");
    assert_eq!(normalize_key_code("F1"), "F1");
    assert_eq!(normalize_key_code("ß"), "SS");
}

#[test]
fn error_messages_quote_and_escape() {
    match KeyStroke::parse("Ctrl+\"Q\"+A") {
        Err(Error::InvalidKey(m)) => assert_eq!(m, "unknown modifier: \"\\\"Q\\\"\""),
        other => panic!("unexpected {:?}", other),
    }
    match KeyStroke::parse("x\n+") {
        Err(Error::InvalidKey(m)) => assert_eq!(m, "unknown modifier: \"x\""),
        other => panic!("unexpected {:?}", other),
    }
    match KeyStroke::parse("Shift+\t") {
        Err(Error::InvalidKey(m)) => assert_eq!(m, "empty key in stroke: \"Shift+\\t\""),
        other => panic!("unexpected {:?}", other),
    }
}

#[test]
fn option_is_parsed_as_alt() {
    assert_eq!(KeyStroke::parse("Option+V").unwrap(), KeyStroke::parse("Alt+V").unwrap());
    assert_eq!(KeyStroke::parse("Cmd+Option+Esc").unwrap().modifiers, vec![Modifier::Alt, Modifier::Command]);
}

#[test]
fn display_writes_each_occurrence() {
    let s = stroke(vec![Modifier::Shift, Modifier::Control, Modifier::Control, Modifier::Option, Modifier::Alt], "V");
    assert_eq!(s.display(), "Ctrl+Ctrl+Shift+Alt+V");
    assert_eq!(KeyStroke::parse(&s.display()).unwrap(), stroke(vec![Modifier::Control, Modifier::Shift, Modifier::Alt], "V"));
}

#[test]
fn roundtrip_with_space_after_modifier() {
    let k = KeyStroke::parse("Ctrl+ v").unwrap();
    assert_eq!(k.key.code, " V");
    assert_eq!(k.display(), "Ctrl+ V");
    assert_eq!(KeyStroke::parse(&k.display()).unwrap(), k);
}
