//! The daemon's per-connection protocol: framing checks on incoming lines,
//! the count of consecutive undecodable messages, the protocol version
//! check and the authentication gate in front of request processing.

use vstd::prelude::*;

use crate::auth::{generate_nonce, hex_of, token_decision, unix_now, verify_auth_token};
use crate::ipc::{
    is_response_of, AuthChallenge, IpcMessage, IpcRequest, IpcResponse, ResponseView, PROTOCOL_MAX_VERSION,
    PROTOCOL_MIN_VERSION,
};
use crate::text::{chars_of, decimal, decimal_string, string_of, sub_chars};

verus! {

broadcast use vstd::string::group_string_axioms;

/// The largest accepted message line, in bytes.
pub const MAX_MESSAGE_BYTES: usize = 1_048_576;

/// The number of consecutive undecodable messages after which the
/// connection is dropped.
pub const MAX_PARSE_FAILURES: u32 = 10;

/// What to do with one line read from a client.
pub enum LineCheck {
    /// Drop the connection (end of input, empty line or oversized line).
    Close,
    /// Decode this message text.
    Message(String),
}

/// `s` without trailing `'\n'` and `'\r'` characters.
pub open spec fn strip_line_end(s: Seq<char>) -> Seq<char>
    decreases s.len(),
{
    if s.len() > 0 && (s.last() == '\n' || s.last() == '\r') {
        strip_line_end(s.drop_last())
    } else {
        s
    }
}

/// Checks a line read from a client: lines over [`MAX_MESSAGE_BYTES`] bytes
/// and lines that are empty once their line ending is stripped end the
/// connection; otherwise the stripped text is to be decoded.
pub fn check_line(line: &str) -> (r: LineCheck)
    ensures
        match r {
            LineCheck::Close => line.len() > MAX_MESSAGE_BYTES || strip_line_end(line@).len() == 0,
            LineCheck::Message(m) => line.len() <= MAX_MESSAGE_BYTES && m@ == strip_line_end(line@)
                && m@.len() > 0,
        },
{
    if line.len() > MAX_MESSAGE_BYTES {
        return LineCheck::Close;
    }
    let cs = chars_of(line);
    let mut n = cs.len();
    assert(cs@.take(n as int) =~= cs@);
    while n > 0 && (cs[n - 1] == '\n' || cs[n - 1] == '\r')
        invariant
            n <= cs.len(),
            cs@ == line@,
            strip_line_end(line@) == strip_line_end(cs@.take(n as int)),
        decreases n,
    {
        assert(cs@.take(n as int).drop_last() =~= cs@.take(n - 1));
        n = n - 1;
    }
    assert(strip_line_end(cs@.take(n as int)) == cs@.take(n as int));
    if n == 0 {
        return LineCheck::Close;
    }
    let kept = sub_chars(&cs, 0, n);
    assert(kept@ =~= cs@.take(n as int));
    LineCheck::Message(string_of(&kept))
}

/// The per-connection state.
pub struct ClientSession {
    /// Undecodable messages received since the last decodable one.
    pub consecutive_parse_failures: u32,
    /// Whether the client has authenticated.
    pub authenticated: bool,
}

/// What to do after one decoded (or undecodable) message.
pub enum SessionStep {
    /// Drop the connection.
    Close,
    /// Read the next line.
    Ignore,
    /// Send this message, then read the next line.
    Reply(IpcMessage),
    /// Send this message, ignoring a failed write, then read the next line.
    ReplyBestEffort(IpcMessage),
    /// Send this message, then drop the connection.
    ReplyThenClose(IpcMessage),
    /// Hand this request to the daemon and send its reply.
    Process(IpcRequest),
    /// End the connection handler with this error.
    Fail(String),
}

/// The message for a version outside the supported range.
pub open spec fn version_mismatch_details(v: u16) -> Seq<char> {
    "Incoming version "@ + decimal(v as nat) + " not in supported range ["@ + decimal(
        PROTOCOL_MIN_VERSION as nat,
    ) + ", "@ + decimal(PROTOCOL_MAX_VERSION as nat) + "]"@
}

/// `m` is a response of the current protocol version whose content is `v`.
pub open spec fn step_sends(step: SessionStep, v: ResponseView) -> bool {
    match step {
        SessionStep::Reply(m) => is_response_of(m, v),
        _ => false,
    }
}

/// The step answers with a challenge for a clock reading `now`: the
/// challenge carrying `nonce`, the daemon PID and the reading, or, when the
/// clock could not be read, the end of the handler with the clock's error.
pub open spec fn challenge_step(r: SessionStep, nonce: Seq<char>, daemon_pid: u32, now: Result<u64, String>) -> bool {
    match now {
        Err(e) => r matches SessionStep::Fail(m) && m@ == e@,
        Ok(t) => step_sends(
            r,
            ResponseView::AuthChallenge { nonce, daemon_pid, timestamp: t, request_id: None },
        ),
    }
}

/// The challenge for an unauthenticated client, for a clock reading `now`.
pub fn challenge_reply(nonce: String, daemon_pid: u32, now: Result<u64, String>) -> (r: SessionStep)
    ensures
        challenge_step(r, nonce@, daemon_pid, now),
{
    match now {
        Err(e) => SessionStep::Fail(e),
        Ok(timestamp) => {
            let challenge = AuthChallenge { nonce, daemon_pid, timestamp };
            SessionStep::Reply(IpcMessage::response(IpcResponse::AuthChallenge { challenge, request_id: None }))
        },
    }
}

impl ClientSession {
    /// A fresh, unauthenticated session.
    pub fn new() -> (r: Self)
        ensures
            r.consecutive_parse_failures == 0,
            !r.authenticated,
    {
        ClientSession { consecutive_parse_failures: 0, authenticated: false }
    }

    /// A challenge with a fresh nonce and the current time.
    fn challenge(daemon_pid: u32) -> (r: SessionStep)
        ensures
            exists|b: Seq<u8>, now: Result<u64, String>|
                b.len() == 32 && #[trigger] challenge_step(r, hex_of(b), daemon_pid, now),
    {
        let nonce = generate_nonce();
        let ghost b = choose|b: Seq<u8>| b.len() == 32 && nonce@ == hex_of(b);
        let now = unix_now();
        let r = challenge_reply(nonce, daemon_pid, now);
        assert(challenge_step(r, hex_of(b), daemon_pid, now));
        r
    }

    /// Decides what to do with one message from the client: `parsed` is the
    /// decoded message, or the decoding error's text. `secret` is the shared
    /// secret and `daemon_pid` the daemon's process ID.
    ///
    /// Undecodable messages are answered with a parse error until
    /// [`MAX_PARSE_FAILURES`] come in a row, which drops the connection.
    /// Messages of an unsupported version are answered with a version
    /// error (a failed write of it is ignored). Before authentication, an
    /// auth request with a signature is verified (accepted: the session is
    /// authenticated; rejected: the result is sent and the connection
    /// dropped); an auth request without a signature opens the handshake and
    /// other requests are answered with a challenge too. After it, requests
    /// go to the daemon.
    /// Responses from the client are ignored.
    pub fn on_message(&mut self, parsed: Result<IpcMessage, String>, secret: &str, daemon_pid: u32) -> (r: SessionStep)
        ensures
            r is Process ==> old(self).authenticated,
            old(self).authenticated ==> final(self).authenticated,
            match parsed {
                Err(e) => {
                    &&& final(self).consecutive_parse_failures == (if old(self).consecutive_parse_failures
                        == u32::MAX {
                        u32::MAX
                    } else {
                        (old(self).consecutive_parse_failures + 1) as u32
                    })
                    &&& final(self).authenticated == old(self).authenticated
                    &&& if final(self).consecutive_parse_failures >= MAX_PARSE_FAILURES {
                        r is Close
                    } else {
                        r matches SessionStep::ReplyBestEffort(m) && is_response_of(
                            m,
                            ResponseView::Error {
                                code: "PARSE_ERROR"@,
                                details: "Failed to parse message: "@ + e@,
                                request_id: None,
                            },
                        )
                    }
                },
                Ok(msg) => {
                    &&& final(self).consecutive_parse_failures == 0
                    &&& if !(PROTOCOL_MIN_VERSION <= msg.spec_version() <= PROTOCOL_MAX_VERSION) {
                        &&& r matches SessionStep::ReplyBestEffort(m) && is_response_of(
                            m,
                            ResponseView::Error {
                                code: "PROTOCOL_VERSION_MISMATCH"@,
                                details: version_mismatch_details(msg.spec_version()),
                                request_id: None,
                            },
                        )
                        &&& final(self).authenticated == old(self).authenticated
                    } else if !old(self).authenticated {
                        match msg {
                            IpcMessage::Request { inner: IpcRequest::Auth { token, .. }, .. } => if token.signature@.len() == 0 {
                                &&& !final(self).authenticated
                                &&& exists|b: Seq<u8>, now: Result<u64, String>|
                                    b.len() == 32 && #[trigger] challenge_step(r, hex_of(b), daemon_pid, now)
                            } else {
                                exists|now: Result<u64, String>| {
                                    let d = #[trigger] token_decision(
                                        secret@,
                                        token.nonce@,
                                        token.signature@,
                                        daemon_pid,
                                        now,
                                        token.timestamp,
                                    );
                                    match d {
                                        Ok(()) => {
                                            &&& final(self).authenticated
                                            &&& step_sends(
                                                r,
                                                ResponseView::AuthResult { accepted: true, reason: None, request_id: None },
                                            )
                                        },
                                        Err(reason) => {
                                            &&& !final(self).authenticated
                                            &&& r matches SessionStep::ReplyThenClose(m) && is_response_of(
                                                m,
                                                ResponseView::AuthResult {
                                                    accepted: false,
                                                    reason: Some(reason),
                                                    request_id: None,
                                                },
                                            )
                                        },
                                    }
                                }
                            },
                            IpcMessage::Request { .. } => {
                                &&& !final(self).authenticated
                                &&& exists|b: Seq<u8>, now: Result<u64, String>|
                                    b.len() == 32 && #[trigger] challenge_step(r, hex_of(b), daemon_pid, now)
                            },
                            IpcMessage::Response { .. } => {
                                &&& !final(self).authenticated
                                &&& r is Ignore
                            },
                        }
                    } else {
                        &&& final(self).authenticated
                        &&& match msg {
                            IpcMessage::Request { inner, .. } => r == SessionStep::Process(inner),
                            IpcMessage::Response { .. } => r is Ignore,
                        }
                    }
                },
            },
    {
        let msg = match parsed {
            Err(e) => {
                self.consecutive_parse_failures = self.consecutive_parse_failures.saturating_add(1);
                if self.consecutive_parse_failures >= MAX_PARSE_FAILURES {
                    return SessionStep::Close;
                }
                let mut d = String::from_str("Failed to parse message: ");
                d.append(e.as_str());
                let resp = IpcResponse::Error { code: String::from_str("PARSE_ERROR"), details: d, request_id: None };
                return SessionStep::ReplyBestEffort(IpcMessage::response(resp));
            },
            Ok(m) => m,
        };
        self.consecutive_parse_failures = 0;
        if !msg.is_compatible() {
            let mut d = String::from_str("Incoming version ");
            let v = decimal_string(msg.version() as u64);
            d.append(v.as_str());
            d.append(" not in supported range [");
            let lo = decimal_string(PROTOCOL_MIN_VERSION as u64);
            d.append(lo.as_str());
            d.append(", ");
            let hi = decimal_string(PROTOCOL_MAX_VERSION as u64);
            d.append(hi.as_str());
            d.append("]");
            let resp = IpcResponse::Error {
                code: String::from_str("PROTOCOL_VERSION_MISMATCH"),
                details: d,
                request_id: None,
            };
            return SessionStep::ReplyBestEffort(IpcMessage::response(resp));
        }
        if !self.authenticated {
            match msg {
                IpcMessage::Request { inner: IpcRequest::Auth { token, .. }, .. } => {
                    if chars_of(token.signature.as_str()).len() == 0 {
                        return Self::challenge(daemon_pid);
                    }
                    match verify_auth_token(secret, &token, daemon_pid, token.timestamp) {
                        Ok(()) => {
                            self.authenticated = true;
                            let resp = IpcResponse::AuthResult { accepted: true, reason: None, request_id: None };
                            SessionStep::Reply(IpcMessage::response(resp))
                        },
                        Err(reason) => {
                            let resp = IpcResponse::AuthResult {
                                accepted: false,
                                reason: Some(String::from_str(reason)),
                                request_id: None,
                            };
                            SessionStep::ReplyThenClose(IpcMessage::response(resp))
                        },
                    }
                },
                IpcMessage::Request { .. } => Self::challenge(daemon_pid),
                IpcMessage::Response { .. } => SessionStep::Ignore,
            }
        } else {
            match msg {
                IpcMessage::Request { inner, .. } => SessionStep::Process(inner),
                IpcMessage::Response { .. } => SessionStep::Ignore,
            }
        }
    }
}

} // verus!
