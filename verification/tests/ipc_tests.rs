use addon::actions::Action;
use addon::config::{KeyBinding, PlatformOverrides};
use addon::ipc::{
    default_version, AuthChallenge, IpcMessage, IpcRequest, IpcResponse, KeyBindingJson, PROTOCOL_MAX_VERSION,
    PROTOCOL_MIN_VERSION, PROTOCOL_VERSION,
};

#[test]
fn test_version_constants() {
    assert_eq!(PROTOCOL_VERSION, 2);
    assert_eq!(PROTOCOL_MIN_VERSION, 1);
}

#[test]
fn test_version_compatibility() {
    let msg = IpcMessage::request(IpcRequest::GetStatus { request_id: None });
    assert!(msg.is_compatible());
    assert_eq!(msg.version(), 2);
}

#[test]
fn test_request_id_extraction() {
    let req = IpcRequest::GetStatus { request_id: Some("req-123".to_string()) };
    assert_eq!(req.request_id(), Some("req-123"));

    let req2 = IpcRequest::GetStatus { request_id: None };
    assert_eq!(req2.request_id(), None);
}

#[test]
fn test_add_keybinding_request() {
    let req = IpcRequest::AddKeybinding {
        id: "test-binding".to_string(),
        keys: vec!["Ctrl+Shift+T".to_string()],
        action: serde_json::from_str(r#"{"Paste": {"text": "hello"}}"#).unwrap(),
        request_id: Some("add-1".to_string()),
    };
    assert_eq!(req.request_id(), Some("add-1"));
}

#[test]
fn test_remove_keybinding_request() {
    let req = IpcRequest::RemoveKeybinding { id: "test-binding".to_string(), request_id: None };
    assert_eq!(req.request_id(), None);
}

#[test]
fn test_key_binding_json_conversion() {
    let binding = KeyBinding {
        id: "kb1".to_string(),
        keys: vec!["Ctrl+K".to_string()],
        action: Action::Paste { text: "hi".to_string() },
        overrides: None,
    };
    let json = KeyBindingJson::from(binding);
    assert_eq!(json.id, "kb1");
    assert_eq!(json.keys, vec!["Ctrl+K"]);
    assert_eq!(json.action_type, "paste");
}

#[test]
fn json_conversion_keeps_overrides_and_names_action() {
    let binding = KeyBinding {
        id: "cmd".to_string(),
        keys: vec!["Ctrl+R".to_string()],
        action: Action::SystemCommand { command: "ls".to_string() },
        overrides: Some(PlatformOverrides { macos: Some(vec!["Cmd+R".to_string()]), windows: None, linux: None }),
    };
    let json = KeyBindingJson::from_binding(binding);
    assert_eq!(json.action_type, "system_command");
    let o = json.overrides.expect("overrides kept");
    assert_eq!(o.macos, Some(vec!["Cmd+R".to_string()]));
    assert_eq!(o.windows, None);
    assert_eq!(o.linux, None);
}

#[test]
fn old_versions_outside_range_are_incompatible() {
    let old = IpcMessage::Request { version: 0, inner: IpcRequest::GetStatus { request_id: None } };
    assert!(!old.is_compatible());
    let future = IpcMessage::Response {
        version: 3,
        inner: IpcResponse::TestResult { success: true, message: "x".to_string(), request_id: None },
    };
    assert!(!future.is_compatible());
    let oldest = IpcMessage::Request { version: default_version(), inner: IpcRequest::GetStatus { request_id: None } };
    assert!(oldest.is_compatible());
    assert_eq!(PROTOCOL_MAX_VERSION, 2);
}

#[test]
fn message_kind_and_direction() {
    let req = IpcMessage::request(IpcRequest::ReloadConfig { request_id: None });
    assert!(req.is_request());
    assert!(!req.is_response());
    assert_eq!(req.kind(), "request");
    let resp = IpcMessage::response(IpcResponse::AuthChallenge {
        challenge: AuthChallenge { nonce: "n".to_string(), daemon_pid: 1, timestamp: 2 },
        request_id: None,
    });
    assert!(resp.is_response());
    assert_eq!(resp.kind(), "response");
    assert_eq!(resp.version(), 2);
}

#[test]
fn with_request_id_sets_correlation_id() {
    let resp = IpcResponse::Error { code: "E".to_string(), details: "d".to_string(), request_id: None }
        .with_request_id(Some("r-9".to_string()));
    match resp {
        IpcResponse::Error { code, details, request_id } => {
            assert_eq!(code, "E");
            assert_eq!(details, "d");
            assert_eq!(request_id, Some("r-9".to_string()));
        },
        other => panic!("unexpected {:?}", other),
    }
}
