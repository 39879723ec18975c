use addon::client::{answer_challenge, auth_outcome, auth_request};
use addon::auth::{compute_hmac, unix_now};
use addon::ipc::{AuthToken, IpcMessage, IpcRequest, IpcResponse};
use addon::session::{check_line, ClientSession, LineCheck, SessionStep, MAX_MESSAGE_BYTES, MAX_PARSE_FAILURES};

fn auth_msg(secret: &str, nonce: &str, pid: u32, ts: u64) -> IpcMessage {
    IpcMessage::request(IpcRequest::Auth {
        token: AuthToken { client_pid: 1, nonce: nonce.to_string(), timestamp: ts, signature: compute_hmac(secret, nonce, pid) },
        request_id: None,
    })
}

#[test]
fn line_checks() {
    assert!(matches!(check_line(""), LineCheck::Close));
    assert!(matches!(check_line("\r\n"), LineCheck::Close));
    match check_line("{\"a\":1}\r\n") {
        LineCheck::Message(m) => assert_eq!(m, "{\"a\":1}"),
        LineCheck::Close => panic!("should be a message"),
    }
    let big = "x".repeat(MAX_MESSAGE_BYTES + 1);
    assert!(matches!(check_line(&big), LineCheck::Close));
    let fits = "x".repeat(MAX_MESSAGE_BYTES);
    assert!(matches!(check_line(&fits), LineCheck::Message(_)));
}

#[test]
fn parse_failures_close_after_limit() {
    let mut s = ClientSession::new();
    for i in 1..MAX_PARSE_FAILURES {
        match s.on_message(Err("bad json".to_string()), "k", 1) {
            SessionStep::ReplyBestEffort(IpcMessage::Response { inner: IpcResponse::Error { code, details, .. }, .. }) => {
                assert_eq!(code, "PARSE_ERROR");
                assert_eq!(details, "Failed to parse message: bad json");
            },
            other => panic!("unexpected step {}: {:?}", i, matches!(other, SessionStep::Close)),
        }
        assert_eq!(s.consecutive_parse_failures, i);
    }
    assert!(matches!(s.on_message(Err("bad".to_string()), "k", 1), SessionStep::Close));
}

#[test]
fn good_message_resets_failures() {
    let mut s = ClientSession::new();
    let _ = s.on_message(Err("bad".to_string()), "k", 1);
    let step = s.on_message(Ok(IpcMessage::response(IpcResponse::TestResult {
        success: true,
        message: String::new(),
        request_id: None,
    })), "k", 1);
    assert!(matches!(step, SessionStep::Ignore));
    assert_eq!(s.consecutive_parse_failures, 0);
}

#[test]
fn version_mismatch_is_reported() {
    let mut s = ClientSession::new();
    let msg = IpcMessage::Request { version: 9, inner: IpcRequest::GetStatus { request_id: None } };
    match s.on_message(Ok(msg), "k", 1) {
        SessionStep::ReplyBestEffort(IpcMessage::Response { inner: IpcResponse::Error { code, details, .. }, .. }) => {
            assert_eq!(code, "PROTOCOL_VERSION_MISMATCH");
            assert_eq!(details, "Incoming version 9 not in supported range [1, 2]");
        },
        _ => panic!("expected a version error"),
    }
}

#[test]
fn unauthenticated_request_gets_challenge() {
    let mut s = ClientSession::new();
    let step = s.on_message(Ok(IpcMessage::request(IpcRequest::GetStatus { request_id: None })), "k", 77);
    match step {
        SessionStep::Reply(IpcMessage::Response { inner: IpcResponse::AuthChallenge { challenge, .. }, .. }) => {
            assert_eq!(challenge.daemon_pid, 77);
            assert_eq!(challenge.nonce.len(), 64);
        },
        _ => panic!("expected a challenge"),
    }
    assert!(!s.authenticated);
}

#[test]
fn valid_token_authenticates_then_requests_pass() {
    let mut s = ClientSession::new();
    let now = unix_now().unwrap();
    let step = s.on_message(Ok(auth_msg("shh", "n0nce", 55, now)), "shh", 55);
    match step {
        SessionStep::Reply(IpcMessage::Response { inner: IpcResponse::AuthResult { accepted, reason, .. }, .. }) => {
            assert!(accepted);
            assert_eq!(reason, None);
        },
        _ => panic!("expected an auth result"),
    }
    assert!(s.authenticated);
    let step = s.on_message(Ok(IpcMessage::request(IpcRequest::GetStatus { request_id: Some("q".to_string()) })), "shh", 55);
    match step {
        SessionStep::Process(IpcRequest::GetStatus { request_id }) => assert_eq!(request_id, Some("q".to_string())),
        _ => panic!("expected the request to be processed"),
    }
}

#[test]
fn wrong_token_is_rejected_and_closes() {
    let mut s = ClientSession::new();
    let now = unix_now().unwrap();
    let step = s.on_message(Ok(auth_msg("wrong", "n0nce", 55, now)), "shh", 55);
    match step {
        SessionStep::ReplyThenClose(IpcMessage::Response {
            inner: IpcResponse::AuthResult { accepted, reason, .. }, ..
        }) => {
            assert!(!accepted);
            assert_eq!(reason, Some("invalid_signature".to_string()));
        },
        _ => panic!("expected a rejection"),
    }
    assert!(!s.authenticated);
    let stale = s.on_message(Ok(auth_msg("shh", "n0nce", 55, now - 100)), "shh", 55);
    match stale {
        SessionStep::ReplyThenClose(IpcMessage::Response { inner: IpcResponse::AuthResult { reason, .. }, .. }) => {
            assert_eq!(reason, Some("expired".to_string()))
        },
        _ => panic!("expected a rejection"),
    }
}

#[test]
fn handshake_from_unsigned_auth_succeeds() {
    let mut s = ClientSession::new();
    let challenge = match s.on_message(Ok(auth_request(9)), "shared", 4242) {
        SessionStep::Reply(m) => m,
        _ => panic!("expected a challenge"),
    };
    assert!(!s.authenticated);
    let answer = answer_challenge(&challenge, "shared", 9).unwrap();
    let result = match s.on_message(Ok(answer), "shared", 4242) {
        SessionStep::Reply(m) => m,
        _ => panic!("expected an auth result"),
    };
    assert_eq!(auth_outcome(&result), Ok(()));
    assert!(s.authenticated);
}
