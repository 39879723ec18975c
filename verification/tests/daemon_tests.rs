use addon::actions::Action;
use addon::config::{Config, GlobalSettings, KeyBinding};
use addon::daemon::{create_daemon_state, has_binding_id, remove_bindings_with_id, DaemonRequest, DaemonState, DaemonStep};
use addon::error::Error;
use addon::ipc::{IpcMessage, IpcResponse};
use addon::os::{OsAdapter, OsPlatform};
use addon::windows::WindowsAdapter;

struct BrokenAdapter;

impl OsAdapter for BrokenAdapter {
    fn init(&mut self) -> Result<(), Error> {
        Err(Error::AdapterNotAvailable("no display".to_string()))
    }
    fn start(&mut self) -> Result<(), Error> {
        Ok(())
    }
    fn stop(&mut self) -> Result<(), Error> {
        Err(Error::AdapterNotAvailable("stuck".to_string()))
    }
    fn get_platform(&self) -> OsPlatform {
        OsPlatform::Linux
    }
}

fn binding(id: &str, key: &str) -> KeyBinding {
    KeyBinding {
        id: id.to_string(),
        keys: vec![key.to_string()],
        action: Action::Paste { text: "t".to_string() },
        overrides: None,
    }
}

fn config() -> Config {
    Config { version: "1.0".to_string(), global: GlobalSettings::default(), keybindings: vec![binding("a", "Ctrl+A")] }
}

fn state() -> DaemonState {
    create_daemon_state(config(), Box::new(WindowsAdapter::new()))
}

fn reply(step: DaemonStep) -> IpcResponse {
    match step {
        DaemonStep::Reply(IpcMessage::Response { version, inner }) => {
            assert_eq!(version, 2);
            inner
        },
        _ => panic!("expected a reply"),
    }
}

#[test]
fn initial_state() {
    let s = state();
    assert!(!s.running);
    assert!(!s.initialized);
    assert!(s.adapter.is_some());
    assert_eq!(s.auth_secret.len(), 64);
}

#[test]
fn status_echoes_request_id() {
    let mut s = state();
    match reply(s.process_request(DaemonRequest::GetStatus, Some("id-1".to_string()), 99, "0.3.0")) {
        IpcResponse::DaemonStatus { running, pid, version, request_id } => {
            assert!(!running);
            assert_eq!(pid, 99);
            assert_eq!(version, "0.3.0");
            assert_eq!(request_id, Some("id-1".to_string()));
        },
        other => panic!("unexpected {:?}", other),
    }
}

#[test]
fn start_then_stop() {
    let mut s = state();
    match reply(s.process_request(DaemonRequest::StartDaemon, None, 1, "v")) {
        IpcResponse::DaemonStatus { running, .. } => assert!(running),
        other => panic!("unexpected {:?}", other),
    }
    assert!(s.running && s.initialized);
    match reply(s.process_request(DaemonRequest::StartDaemon, None, 1, "v")) {
        IpcResponse::TestResult { success, message, .. } => {
            assert!(!success);
            assert_eq!(message, "Daemon is already running");
        },
        other => panic!("unexpected {:?}", other),
    }
    match reply(s.process_request(DaemonRequest::StopDaemon, None, 1, "v")) {
        IpcResponse::TestResult { success, message, .. } => {
            assert!(success);
            assert_eq!(message, "Daemon stopping");
        },
        other => panic!("unexpected {:?}", other),
    }
    assert!(!s.running && !s.initialized);
}

#[test]
fn adapter_errors_are_reported() {
    let mut s = create_daemon_state(config(), Box::new(BrokenAdapter));
    match reply(s.process_request(DaemonRequest::StartDaemon, None, 1, "v")) {
        IpcResponse::Error { code, details, .. } => {
            assert_eq!(code, "ADAPTER_INIT_ERROR");
            assert_eq!(details, "OS adapter not available: no display");
        },
        other => panic!("unexpected {:?}", other),
    }
    assert!(!s.running);
    match reply(s.process_request(DaemonRequest::StopDaemon, None, 1, "v")) {
        IpcResponse::Error { code, details, .. } => {
            assert_eq!(code, "ADAPTER_STOP_ERROR");
            assert_eq!(details, "OS adapter not available: stuck");
        },
        other => panic!("unexpected {:?}", other),
    }
}

#[test]
fn no_adapter_start() {
    let mut s = state();
    s.adapter = None;
    match reply(s.process_request(DaemonRequest::StartDaemon, None, 1, "v")) {
        IpcResponse::TestResult { success, message, .. } => {
            assert!(success);
            assert_eq!(message, "Daemon started (no adapter available)");
        },
        other => panic!("unexpected {:?}", other),
    }
    assert!(s.running);
}

#[test]
fn test_shortcut_reports() {
    let mut s = state();
    match reply(s.process_request(
        DaemonRequest::TestShortcut { keys: vec!["Ctrl+A".to_string(), "Shift+b".to_string()] },
        None,
        1,
        "v",
    )) {
        IpcResponse::TestResult { success, message, .. } => {
            assert!(success);
            assert_eq!(message, "All 2 key(s) parsed successfully.");
        },
        other => panic!("unexpected {:?}", other),
    }
    match reply(s.process_request(
        DaemonRequest::TestShortcut { keys: vec!["Shift+Ctrl+x".to_string(), "Foo+Y".to_string()] },
        None,
        1,
        "v",
    )) {
        IpcResponse::TestResult { success, message, .. } => {
            assert!(!success);
            assert_eq!(
                message,
                "Ctrl+Shift+X → parsed OK; Foo+Y → ERROR: invalid key: unknown modifier: \"Foo\""
            );
        },
        other => panic!("unexpected {:?}", other),
    }
}

#[test]
fn add_then_remove_restores_bindings() {
    let mut s = state();
    let step = s.process_request(
        DaemonRequest::AddKeybinding {
            id: "b".to_string(),
            keys: vec!["Ctrl+B".to_string()],
            action: Ok(Action::Paste { text: "bee".to_string() }),
        },
        Some("add".to_string()),
        1,
        "v",
    );
    match step {
        DaemonStep::Persist { request_id } => assert_eq!(request_id, Some("add".to_string())),
        _ => panic!("expected persist"),
    }
    assert_eq!(s.config.keybindings.len(), 2);
    match s.finish_persist(Ok(()), Some("add".to_string())) {
        IpcMessage::Response { inner: IpcResponse::ConfigLoaded { keys, request_id }, .. } => {
            assert_eq!(keys.len(), 2);
            assert_eq!(keys[1].id, "b");
            assert_eq!(request_id, Some("add".to_string()));
        },
        other => panic!("unexpected {:?}", other),
    }
    let step = s.process_request(DaemonRequest::RemoveKeybinding { id: "b".to_string() }, None, 1, "v");
    assert!(matches!(step, DaemonStep::Persist { request_id: None }));
    assert_eq!(s.config, config());
}

#[test]
fn add_rejections() {
    let mut s = state();
    match reply(s.process_request(
        DaemonRequest::AddKeybinding { id: "a".to_string(), keys: vec![], action: Ok(Action::Remap { to: "x".to_string() }) },
        None,
        1,
        "v",
    )) {
        IpcResponse::Error { code, details, .. } => {
            assert_eq!(code, "DUPLICATE_ID");
            assert_eq!(details, "Keybinding 'a' already exists");
        },
        other => panic!("unexpected {:?}", other),
    }
    match reply(s.process_request(
        DaemonRequest::AddKeybinding {
            id: "a".to_string(),
            keys: vec![],
            action: Ok(Action::SystemCommand { command: "a|b".to_string() }),
        },
        None,
        1,
        "v",
    )) {
        IpcResponse::Error { code, details, .. } => {
            assert_eq!(code, "COMMAND_VALIDATION_ERROR");
            assert_eq!(details, "New binding 'a': Command contains potentially unsafe shell metacharacters: |");
        },
        other => panic!("unexpected {:?}", other),
    }
    match reply(s.process_request(
        DaemonRequest::AddKeybinding { id: "z".to_string(), keys: vec![], action: Err("bad action".to_string()) },
        None,
        1,
        "v",
    )) {
        IpcResponse::Error { code, details, .. } => {
            assert_eq!(code, "ACTION_PARSE_ERROR");
            assert_eq!(details, "bad action");
        },
        other => panic!("unexpected {:?}", other),
    }
    assert_eq!(s.config, config());
}

#[test]
fn remove_missing_and_save_error() {
    let mut s = state();
    match reply(s.process_request(DaemonRequest::RemoveKeybinding { id: "nope".to_string() }, None, 1, "v")) {
        IpcResponse::Error { code, details, .. } => {
            assert_eq!(code, "NOT_FOUND");
            assert_eq!(details, "Keybinding 'nope' not found");
        },
        other => panic!("unexpected {:?}", other),
    }
    match s.finish_persist(Err("disk full".to_string()), Some("r".to_string())) {
        IpcMessage::Response { inner: IpcResponse::Error { code, details, request_id }, .. } => {
            assert_eq!(code, "SAVE_ERROR");
            assert_eq!(details, "disk full");
            assert_eq!(request_id, Some("r".to_string()));
        },
        other => panic!("unexpected {:?}", other),
    }
}

#[test]
fn set_and_reload_config() {
    let mut s = state();
    let mut bad = config();
    bad.keybindings.push(KeyBinding {
        id: "cmd".to_string(),
        keys: vec!["Ctrl+K".to_string()],
        action: Action::SystemCommand { command: "echo > x".to_string() },
        overrides: None,
    });
    match reply(s.process_request(DaemonRequest::SetConfig { config: Ok(bad) }, None, 1, "v")) {
        IpcResponse::Error { code, details, .. } => {
            assert_eq!(code, "COMMAND_VALIDATION_ERROR");
            assert_eq!(details, "Binding 'cmd': Command contains potentially unsafe shell metacharacters: >");
        },
        other => panic!("unexpected {:?}", other),
    }
    let mut good = config();
    good.keybindings.push(binding("n", "Ctrl+N"));
    match reply(s.process_request(DaemonRequest::SetConfig { config: Ok(good) }, None, 1, "v")) {
        IpcResponse::ConfigLoaded { keys, .. } => assert_eq!(keys.len(), 2),
        other => panic!("unexpected {:?}", other),
    }
    assert_eq!(s.config.keybindings.len(), 2);
    match reply(s.process_request(DaemonRequest::SetConfig { config: Err("eof".to_string()) }, None, 1, "v")) {
        IpcResponse::Error { code, .. } => assert_eq!(code, "CONFIG_PARSE_ERROR"),
        other => panic!("unexpected {:?}", other),
    }
    match reply(s.process_request(DaemonRequest::ReloadConfig { loaded: Ok(config()) }, None, 1, "v")) {
        IpcResponse::ConfigLoaded { keys, .. } => assert_eq!(keys.len(), 1),
        other => panic!("unexpected {:?}", other),
    }
    match reply(s.process_request(DaemonRequest::ReloadConfig { loaded: Err("gone".to_string()) }, None, 1, "v")) {
        IpcResponse::Error { code, details, .. } => {
            assert_eq!(code, "RELOAD_ERROR");
            assert_eq!(details, "gone");
        },
        other => panic!("unexpected {:?}", other),
    }
    match reply(s.process_request(DaemonRequest::Unknown, None, 1, "v")) {
        IpcResponse::Error { code, details, .. } => {
            assert_eq!(code, "UNKNOWN_REQUEST");
            assert_eq!(details, "Unknown IPC request type received");
        },
        other => panic!("unexpected {:?}", other),
    }
}

#[test]
fn binding_id_helpers() {
    let bs = vec![binding("a", "Ctrl+A"), binding("b", "Ctrl+B"), binding("a", "Ctrl+C")];
    assert!(has_binding_id(&bs, &"b".to_string()));
    assert!(!has_binding_id(&bs, &"c".to_string()));
    let kept = remove_bindings_with_id(bs, &"a".to_string());
    assert_eq!(kept, vec![binding("b", "Ctrl+B")]);
}
