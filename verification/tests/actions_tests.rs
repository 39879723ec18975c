use addon::actions::{copy_strings, has_shell_metacharacters, is_safe_cmd_char, validate_system_command, Action};

#[test]
fn safe_command_accepted() {
    assert_eq!(validate_system_command("ls -la /tmp/dir_1,x.txt"), Ok(()));
}

#[test]
fn empty_command_rejected() {
    assert_eq!(validate_system_command(""), Err("Empty command".to_string()));
}

#[test]
fn metacharacters_listed_sorted_once() {
    assert_eq!(
        validate_system_command("rm -rf /; echo hack && cat a|b;"),
        Err("Command contains potentially unsafe shell metacharacters: &;|".to_string())
    );
    assert_eq!(
        validate_system_command("echo `id` $(whoami)"),
        Err("Command contains potentially unsafe shell metacharacters: $()`".to_string())
    );
}

#[test]
fn non_ascii_letters_are_unsafe() {
    assert!(has_shell_metacharacters("café"));
    assert!(!has_shell_metacharacters("cafe"));
    assert!(is_safe_cmd_char('Z'));
    assert!(is_safe_cmd_char(','));
    assert!(!is_safe_cmd_char('+'));
    assert!(!is_safe_cmd_char('\t'));
}

#[test]
fn variant_names() {
    assert_eq!(Action::Paste { text: String::new() }.variant_name(), "paste");
    assert_eq!(Action::Launch { path: String::new() }.variant_name(), "launch");
    assert_eq!(Action::Remap { to: String::new() }.variant_name(), "remap");
    assert_eq!(Action::Shortcut { shortcut: vec![] }.variant_name(), "shortcut");
    assert_eq!(Action::SystemCommand { command: String::new() }.variant_name(), "system_command");
    assert_eq!(Action::TextInsert { text: String::new() }.variant_name(), "text_insert");
}

#[test]
fn clone_and_copy_keep_values() {
    let a = Action::Shortcut { shortcut: vec!["Alt+F4".to_string(), "Enter".to_string()] };
    assert_eq!(a.clone(), a);
    let v = vec!["x".to_string(), "y".to_string()];
    assert_eq!(copy_strings(&v), v);
}
