use addon::actions::Action;
use addon::auth::{compute_hmac, unix_now};
use addon::client::{
    add_form_binding, answer_challenge, auth_outcome, auth_request, build_action, change_report, change_report_kind,
    export_config_text, export_format, not_found_details, reload_outcome, remove_form_binding, split_keys, validate_config, ActionFields,
    ExportFormat, ReloadOutcome,
};
use addon::config::{Config, GlobalSettings, KeyBinding};
use addon::ipc::{AuthChallenge, IpcMessage, IpcRequest, IpcResponse};

fn fields() -> ActionFields {
    ActionFields { text: None, path: None, to: None, command: None, shortcut: None }
}

fn binding(id: &str, keys: &[&str]) -> KeyBinding {
    KeyBinding {
        id: id.to_string(),
        keys: keys.iter().map(|k| k.to_string()).collect(),
        action: Action::Paste { text: "p".to_string() },
        overrides: None,
    }
}

#[test]
fn validate_config_reports_version_conflicts_and_bad_strokes() {
    let cfg = Config {
        version: String::new(),
        global: GlobalSettings::default(),
        keybindings: vec![binding("one", &["Ctrl+V"]), binding("two", &["Ctrl+V", "Meta+Q"])],
    };
    let problems = validate_config(&cfg);
    assert_eq!(problems.len(), 5);
    assert_eq!(problems[0], "Config version is empty");
    assert_eq!(problems[1], "Conflict: one ↔ two [key: Ctrl+V]");
    assert_eq!(problems[4], "Invalid key stroke 'Meta+Q' in binding 'two'");
}

#[test]
fn validate_config_clean() {
    let cfg = Config {
        version: "1.0".to_string(),
        global: GlobalSettings::default(),
        keybindings: vec![binding("one", &["Ctrl+V"])],
    };
    assert!(validate_config(&cfg).is_empty());
}

#[test]
fn build_action_variants() {
    let mut f = fields();
    f.text = Some("hi".to_string());
    assert_eq!(build_action("paste", f).unwrap(), Action::Paste { text: "hi".to_string() });
    assert_eq!(build_action("launch", fields()).unwrap(), Action::Launch { path: String::new() });
    let mut f = fields();
    f.shortcut = Some(vec!["Alt+F4".to_string()]);
    assert_eq!(build_action("shortcut", f).unwrap(), Action::Shortcut { shortcut: vec!["Alt+F4".to_string()] });
    let mut f = fields();
    f.command = Some("ls -l".to_string());
    assert_eq!(build_action("system_command", f).unwrap(), Action::SystemCommand { command: "ls -l".to_string() });
}

#[test]
fn build_action_errors() {
    let mut f = fields();
    f.command = Some("ls; rm".to_string());
    assert_eq!(
        build_action("system_command", f),
        Err("Command validation failed: Command contains potentially unsafe shell metacharacters: ;".to_string())
    );
    assert_eq!(
        build_action("system_command", fields()),
        Err("Command validation failed: Empty command".to_string())
    );
    assert_eq!(build_action("teleport", fields()), Err("Unknown action type: teleport".to_string()));
}

#[test]
fn split_keys_trims() {
    assert_eq!(split_keys(" Ctrl+A , Shift+B,"), vec!["Ctrl+A".to_string(), "Shift+B".to_string(), String::new()]);
    assert_eq!(split_keys("X"), vec!["X".to_string()]);
}

#[test]
fn form_add_and_remove() {
    let mut cfg = Config { version: "1.0".to_string(), global: GlobalSettings::default(), keybindings: vec![] };
    add_form_binding(&mut cfg, "n".to_string(), "Ctrl+N, Ctrl+M", Action::Remap { to: "Tab".to_string() });
    assert_eq!(cfg.keybindings.len(), 1);
    assert_eq!(cfg.keybindings[0].keys, vec!["Ctrl+N".to_string(), "Ctrl+M".to_string()]);
    assert!(!remove_form_binding(&mut cfg, &"zzz".to_string()));
    assert!(remove_form_binding(&mut cfg, &"n".to_string()));
    assert!(cfg.keybindings.is_empty());
}

#[test]
fn handshake_messages() {
    match auth_request(42) {
        IpcMessage::Request { version, inner: IpcRequest::Auth { token, request_id } } => {
            assert_eq!(version, 2);
            assert_eq!(token.client_pid, 42);
            assert!(token.nonce.is_empty() && token.signature.is_empty());
            assert_eq!(token.timestamp, 0);
            assert_eq!(request_id, None);
        },
        other => panic!("unexpected {:?}", other),
    }
    let now = unix_now().unwrap();
    let challenge = IpcMessage::response(IpcResponse::AuthChallenge {
        challenge: AuthChallenge { nonce: "beef".to_string(), daemon_pid: 300, timestamp: now },
        request_id: None,
    });
    match answer_challenge(&challenge, "sekrit", 42).unwrap() {
        IpcMessage::Request { inner: IpcRequest::Auth { token, .. }, .. } => {
            assert_eq!(token.nonce, "beef");
            assert_eq!(token.timestamp, now);
            assert_eq!(token.client_pid, 42);
            assert_eq!(token.signature, compute_hmac("sekrit", "beef", 300));
        },
        other => panic!("unexpected {:?}", other),
    }
    let stale = IpcMessage::response(IpcResponse::AuthChallenge {
        challenge: AuthChallenge { nonce: "beef".to_string(), daemon_pid: 300, timestamp: now - 1000 },
        request_id: None,
    });
    assert_eq!(answer_challenge(&stale, "sekrit", 42).unwrap_err(), "Auth challenge expired");
    let other = IpcMessage::request(IpcRequest::GetStatus { request_id: None });
    assert_eq!(answer_challenge(&other, "sekrit", 42).unwrap_err(), "Expected AuthChallenge response");
}

#[test]
fn auth_outcomes() {
    let ok = IpcMessage::response(IpcResponse::AuthResult { accepted: true, reason: None, request_id: None });
    assert_eq!(auth_outcome(&ok), Ok(()));
    let no = IpcMessage::response(IpcResponse::AuthResult {
        accepted: false,
        reason: Some("expired".to_string()),
        request_id: None,
    });
    assert_eq!(auth_outcome(&no), Err("Auth rejected: Some(\"expired\")".to_string()));
    let no2 = IpcMessage::response(IpcResponse::AuthResult { accepted: false, reason: None, request_id: None });
    assert_eq!(auth_outcome(&no2), Err("Auth rejected: None".to_string()));
    let odd = IpcMessage::request(IpcRequest::StopDaemon { request_id: None });
    assert_eq!(auth_outcome(&odd), Err("Expected AuthResult response".to_string()));
}

#[test]
fn reload_reports() {
    let loaded = IpcMessage::response(IpcResponse::ConfigLoaded { keys: vec![], request_id: None });
    assert_eq!(reload_outcome(&loaded), ReloadOutcome::Reloaded);
    let err = IpcMessage::response(IpcResponse::Error { code: "X".to_string(), details: String::new(), request_id: None });
    assert_eq!(reload_outcome(&err), ReloadOutcome::Failed);
    assert_eq!(change_report("Added", &"k1".to_string(), ReloadOutcome::Reloaded), "Added k1 and reloaded");
    assert_eq!(change_report("Removed", &"k1".to_string(), ReloadOutcome::Failed), "Removed k1 but daemon reload failed");
    assert_eq!(
        change_report("Added", &"k2".to_string(), ReloadOutcome::Unreachable),
        "Added k2 but daemon reload failed (not running or timed out)"
    );
    assert_eq!(change_report_kind(ReloadOutcome::Reloaded), "success");
    assert_eq!(change_report_kind(ReloadOutcome::Unreachable), "partial_success");
    assert_eq!(not_found_details(&"q".to_string()), "Binding 'q' not found");
}

#[test]
fn export_formats() {
    assert_eq!(export_format("yaml"), Ok(ExportFormat::Yaml));
    assert_eq!(export_format("json"), Ok(ExportFormat::Json));
    assert_eq!(export_format("toml"), Err("Unsupported format: toml".to_string()));
}

#[test]
fn export_config_text_formats() {
    let yaml = "version: 1\nname: test\n".to_string();
    assert_eq!(export_config_text(yaml.clone(), "yaml"), Ok(yaml.clone()));
    assert_eq!(
        export_config_text(yaml.clone(), "json"),
        Ok("{\n  \"name\": \"test\",\n  \"version\": 1\n}".to_string())
    );
    assert_eq!(export_config_text("a: 1".to_string(), "json"), Ok("{\n  \"a\": 1\n}".to_string()));
    assert_eq!(
        export_config_text(yaml, "toml"),
        Err("Unsupported format: toml".to_string())
    );
    assert!(export_config_text("a: [1, 2".to_string(), "json").is_err());
}
