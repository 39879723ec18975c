//! IPC message types and protocol for GUI-to-daemon communication.
//! Messages travel as newline-delimited JSON; the daemon answers each
//! request with a response that echoes the request's correlation ID.

use vstd::prelude::*;

use crate::config::{bindings_view, opt_strings, BindingView, KeyBinding, OverridesView};

verus! {

broadcast use vstd::string::group_string_axioms;

/// A JSON value carried through unread (decoded elsewhere).
#[verifier::external_type_specification]
#[verifier::external_body]
pub struct ExJsonValue(serde_json::Value);

/// Authentication challenge sent by the daemon to the client.
#[derive(Debug)]
pub struct AuthChallenge {
    /// 32-byte hex-encoded random nonce (replay attack prevention).
    pub nonce: String,
    /// Daemon PID.
    pub daemon_pid: u32,
    /// Unix timestamp in seconds when the challenge was issued.
    pub timestamp: u64,
}

/// Authentication token sent by the client in response to a challenge.
#[derive(Debug)]
pub struct AuthToken {
    /// Client PID.
    pub client_pid: u32,
    /// Echo of the challenge nonce.
    pub nonce: String,
    /// Echo of the challenge timestamp.
    pub timestamp: u64,
    /// HMAC-SHA256(secret, nonce + daemon_pid little-endian) as lowercase hex.
    pub signature: String,
}

/// Authentication result returned by the daemon.
#[derive(Debug)]
pub struct AuthResult {
    /// Whether authentication succeeded.
    pub accepted: bool,
    /// Optional rejection reason: "expired", "invalid_signature", ...
    pub reason: Option<String>,
}

/// Requests sent from the GUI client to the daemon; `request_id` is an
/// optional correlation ID echoed back in the response.
#[derive(Debug)]
pub enum IpcRequest {
    /// Authentication: the first message after connecting.
    Auth { token: AuthToken, request_id: Option<String> },
    /// Replace the daemon configuration.
    SetConfig { config: serde_json::Value, request_id: Option<String> },
    /// Reload the configuration from disk.
    ReloadConfig { request_id: Option<String> },
    /// Test whether key strokes parse.
    TestShortcut { keys: Vec<String>, action: serde_json::Value, request_id: Option<String> },
    /// Query the daemon status.
    GetStatus { request_id: Option<String> },
    /// Start the daemon.
    StartDaemon { request_id: Option<String> },
    /// Stop the daemon.
    StopDaemon { request_id: Option<String> },
    /// Add a keybinding.
    AddKeybinding {
        id: String,
        keys: Vec<String>,
        action: serde_json::Value,
        request_id: Option<String>,
    },
    /// Remove a keybinding by ID.
    RemoveKeybinding { id: String, request_id: Option<String> },
}

/// The view of an optional string.
pub open spec fn opt_view(o: Option<String>) -> Option<Seq<char>> {
    match o {
        Some(s) => Some(s@),
        None => None,
    }
}

impl IpcRequest {
    /// The correlation ID of a request, as a value.
    pub open spec fn spec_request_id(self) -> Option<String> {
        match self {
            IpcRequest::Auth { request_id, .. } => request_id,
            IpcRequest::SetConfig { request_id, .. } => request_id,
            IpcRequest::ReloadConfig { request_id } => request_id,
            IpcRequest::TestShortcut { request_id, .. } => request_id,
            IpcRequest::GetStatus { request_id } => request_id,
            IpcRequest::StartDaemon { request_id } => request_id,
            IpcRequest::StopDaemon { request_id } => request_id,
            IpcRequest::AddKeybinding { request_id, .. } => request_id,
            IpcRequest::RemoveKeybinding { request_id, .. } => request_id,
        }
    }

    /// The optional request correlation ID.
    pub fn request_id(&self) -> (r: Option<&str>)
        ensures
            match r {
                Some(s) => opt_view(self.spec_request_id()) == Some(s@),
                None => self.spec_request_id() is None,
            },
    {
        let rid = match self {
            IpcRequest::Auth { request_id, .. } => request_id,
            IpcRequest::SetConfig { request_id, .. } => request_id,
            IpcRequest::ReloadConfig { request_id } => request_id,
            IpcRequest::TestShortcut { request_id, .. } => request_id,
            IpcRequest::GetStatus { request_id } => request_id,
            IpcRequest::StartDaemon { request_id } => request_id,
            IpcRequest::StopDaemon { request_id } => request_id,
            IpcRequest::AddKeybinding { request_id, .. } => request_id,
            IpcRequest::RemoveKeybinding { request_id, .. } => request_id,
        };
        match rid {
            Some(s) => Some(s.as_str()),
            None => None,
        }
    }
}

/// Platform-specific key overrides for IPC serialization.
#[derive(Debug)]
pub struct PlatformOverridesJson {
    pub macos: Option<Vec<String>>,
    pub windows: Option<Vec<String>>,
    pub linux: Option<Vec<String>>,
}

impl View for PlatformOverridesJson {
    type V = OverridesView;

    open spec fn view(&self) -> OverridesView {
        OverridesView {
            macos: opt_strings(self.macos),
            windows: opt_strings(self.windows),
            linux: opt_strings(self.linux),
        }
    }
}

impl Default for PlatformOverridesJson {
    fn default() -> (r: Self)
        ensures
            r.macos is None && r.windows is None && r.linux is None,
    {
        PlatformOverridesJson { macos: None, windows: None, linux: None }
    }
}

/// A flattened, JSON-friendly view of a key binding used in responses.
#[derive(Debug)]
pub struct KeyBindingJson {
    /// Unique identifier for this binding.
    pub id: String,
    /// Key stroke representations (e.g. `["Ctrl+V"]`).
    pub keys: Vec<String>,
    /// The action type (e.g. `"paste"`, `"launch"`, `"system_command"`).
    pub action_type: String,
    /// Platform-specific key overrides.
    pub overrides: Option<PlatformOverridesJson>,
}

/// A [`KeyBindingJson`] as mathematical values.
pub struct KeyBindingJsonView {
    pub id: Seq<char>,
    pub keys: Seq<Seq<char>>,
    pub action_type: Seq<char>,
    pub overrides: Option<OverridesView>,
}

impl View for KeyBindingJson {
    type V = KeyBindingJsonView;

    open spec fn view(&self) -> KeyBindingJsonView {
        KeyBindingJsonView {
            id: self.id@,
            keys: self.keys.deep_view(),
            action_type: self.action_type@,
            overrides: match self.overrides {
                Some(o) => Some(o@),
                None => None,
            },
        }
    }
}

/// The JSON view of a binding: its ID, default keys, action type name and
/// overrides.
pub open spec fn binding_json(b: BindingView) -> KeyBindingJsonView {
    KeyBindingJsonView {
        id: b.id,
        keys: b.keys,
        action_type: b.action.variant_name(),
        overrides: b.overrides,
    }
}

impl KeyBindingJson {
    /// The JSON view of a key binding.
    pub fn from_binding(binding: KeyBinding) -> (r: Self)
        ensures
            r@ == binding_json(binding@),
    {
        let action_type = String::from_str(binding.action.variant_name());
        let overrides = match binding.overrides {
            Some(o) => Some(PlatformOverridesJson { macos: o.macos, windows: o.windows, linux: o.linux }),
            None => None,
        };
        KeyBindingJson { id: binding.id, keys: binding.keys, action_type, overrides }
    }
}

impl From<KeyBinding> for KeyBindingJson {
    fn from(binding: KeyBinding) -> (r: Self)
        ensures
            r@ == binding_json(binding@),
    {
        KeyBindingJson::from_binding(binding)
    }
}

/// The conversion is stated over views (in `from`'s own `ensures`): the
/// result holds freshly made strings, which no spec value names.
impl vstd::std_specs::convert::FromSpecImpl<KeyBinding> for KeyBindingJson {
    open spec fn obeys_from_spec() -> bool {
        false
    }

    open spec fn from_spec(v: KeyBinding) -> Self {
        vstd::pervasive::arbitrary()
    }
}

/// The JSON views of a list of bindings.
pub open spec fn bindings_json(bs: Seq<BindingView>) -> Seq<KeyBindingJsonView> {
    bs.map_values(|b: BindingView| binding_json(b))
}

/// The views of a list of JSON bindings.
pub open spec fn json_views(v: Seq<KeyBindingJson>) -> Seq<KeyBindingJsonView> {
    v.map_values(|k: KeyBindingJson| k@)
}

/// The JSON views of copies of a list of bindings.
pub fn bindings_to_json(bs: &Vec<KeyBinding>) -> (r: Vec<KeyBindingJson>)
    ensures
        json_views(r@) == bindings_json(bindings_view(bs@)),
{
    let mut out: Vec<KeyBindingJson> = Vec::new();
    let mut i: usize = 0;
    while i < bs.len()
        invariant
            i <= bs.len(),
            json_views(out@) =~= bindings_json(bindings_view(bs@)).take(i as int),
        decreases bs.len() - i,
    {
        let b = bs[i].clone();
        let j = KeyBindingJson::from_binding(b);
        let ghost before = out@;
        out.push(j);
        assert(out@ =~= before.push(j));
        assert(json_views(out@) =~= json_views(before).push(j@));
        assert(bindings_json(bindings_view(bs@)).take(i + 1) =~= bindings_json(bindings_view(bs@)).take(
            i as int,
        ).push(binding_json(bs@[i as int]@)));
        i = i + 1;
    }
    assert(bindings_json(bindings_view(bs@)).take(bs.len() as int) =~= bindings_json(
        bindings_view(bs@),
    ));
    out
}

/// Responses sent from the daemon to the GUI client.
#[derive(Debug)]
pub enum IpcResponse {
    /// Authentication challenge, sent when a client must authenticate.
    AuthChallenge { challenge: AuthChallenge, request_id: Option<String> },
    /// Authentication result, sent after the client's token.
    AuthResult { accepted: bool, reason: Option<String>, request_id: Option<String> },
    /// Current daemon status.
    DaemonStatus { running: bool, pid: u32, version: String, request_id: Option<String> },
    /// Acknowledgment that configuration was loaded with the given bindings.
    ConfigLoaded { keys: Vec<KeyBindingJson>, request_id: Option<String> },
    /// Result of a shortcut test.
    TestResult { success: bool, message: String, request_id: Option<String> },
    /// A log entry generated by the daemon.
    LogEntry { level: String, target: String, message: String, request_id: Option<String> },
    /// An error occurred.
    Error { code: String, details: String, request_id: Option<String> },
}

/// An [`IpcResponse`] as mathematical values.
pub enum ResponseView {
    AuthChallenge { nonce: Seq<char>, daemon_pid: u32, timestamp: u64, request_id: Option<Seq<char>> },
    AuthResult { accepted: bool, reason: Option<Seq<char>>, request_id: Option<Seq<char>> },
    DaemonStatus { running: bool, pid: u32, version: Seq<char>, request_id: Option<Seq<char>> },
    ConfigLoaded { keys: Seq<KeyBindingJsonView>, request_id: Option<Seq<char>> },
    TestResult { success: bool, message: Seq<char>, request_id: Option<Seq<char>> },
    LogEntry { level: Seq<char>, target: Seq<char>, message: Seq<char>, request_id: Option<Seq<char>> },
    Error { code: Seq<char>, details: Seq<char>, request_id: Option<Seq<char>> },
}

impl View for IpcResponse {
    type V = ResponseView;

    open spec fn view(&self) -> ResponseView {
        match self {
            IpcResponse::AuthChallenge { challenge, request_id } => ResponseView::AuthChallenge {
                nonce: challenge.nonce@,
                daemon_pid: challenge.daemon_pid,
                timestamp: challenge.timestamp,
                request_id: opt_view(*request_id),
            },
            IpcResponse::AuthResult { accepted, reason, request_id } => ResponseView::AuthResult {
                accepted: *accepted,
                reason: opt_view(*reason),
                request_id: opt_view(*request_id),
            },
            IpcResponse::DaemonStatus { running, pid, version, request_id } => ResponseView::DaemonStatus {
                running: *running,
                pid: *pid,
                version: version@,
                request_id: opt_view(*request_id),
            },
            IpcResponse::ConfigLoaded { keys, request_id } => ResponseView::ConfigLoaded {
                keys: json_views(keys@),
                request_id: opt_view(*request_id),
            },
            IpcResponse::TestResult { success, message, request_id } => ResponseView::TestResult {
                success: *success,
                message: message@,
                request_id: opt_view(*request_id),
            },
            IpcResponse::LogEntry { level, target, message, request_id } => ResponseView::LogEntry {
                level: level@,
                target: target@,
                message: message@,
                request_id: opt_view(*request_id),
            },
            IpcResponse::Error { code, details, request_id } => ResponseView::Error {
                code: code@,
                details: details@,
                request_id: opt_view(*request_id),
            },
        }
    }
}

impl ResponseView {
    /// The correlation ID that a response carries, whatever its variant.
    pub open spec fn correlation_id(self) -> Option<Seq<char>> {
        match self {
            ResponseView::AuthChallenge { request_id, .. } => request_id,
            ResponseView::AuthResult { request_id, .. } => request_id,
            ResponseView::DaemonStatus { request_id, .. } => request_id,
            ResponseView::ConfigLoaded { request_id, .. } => request_id,
            ResponseView::TestResult { request_id, .. } => request_id,
            ResponseView::LogEntry { request_id, .. } => request_id,
            ResponseView::Error { request_id, .. } => request_id,
        }
    }

    /// The same response with the correlation ID replaced by `rid`.
    pub open spec fn with_request_id(self, rid: Option<Seq<char>>) -> ResponseView {
        match self {
            ResponseView::AuthChallenge { nonce, daemon_pid, timestamp, .. } => ResponseView::AuthChallenge {
                nonce,
                daemon_pid,
                timestamp,
                request_id: rid,
            },
            ResponseView::AuthResult { accepted, reason, .. } => ResponseView::AuthResult {
                accepted,
                reason,
                request_id: rid,
            },
            ResponseView::DaemonStatus { running, pid, version, .. } => ResponseView::DaemonStatus {
                running,
                pid,
                version,
                request_id: rid,
            },
            ResponseView::ConfigLoaded { keys, .. } => ResponseView::ConfigLoaded { keys, request_id: rid },
            ResponseView::TestResult { success, message, .. } => ResponseView::TestResult {
                success,
                message,
                request_id: rid,
            },
            ResponseView::LogEntry { level, target, message, .. } => ResponseView::LogEntry {
                level,
                target,
                message,
                request_id: rid,
            },
            ResponseView::Error { code, details, .. } => ResponseView::Error {
                code,
                details,
                request_id: rid,
            },
        }
    }
}

/// Setting the correlation ID of any response to `rid` makes `rid` the ID
/// it carries, and changes nothing else: setting the old ID back gives the
/// response it was.
pub proof fn lemma_with_request_id_sets_id(x: ResponseView, rid: Option<Seq<char>>)
    ensures
        x.with_request_id(rid).correlation_id() == rid,
        x.with_request_id(rid).with_request_id(x.correlation_id()) == x,
{
}

impl IpcResponse {
    /// The same response carrying `request_id` as its correlation ID, so
    /// that the caller can match it with its request.
    pub fn with_request_id(self, request_id: Option<String>) -> (r: Self)
        ensures
            r@ == self@.with_request_id(opt_view(request_id)),
    {
        let rid = request_id;
        match self {
            IpcResponse::AuthChallenge { challenge, .. } => IpcResponse::AuthChallenge {
                challenge,
                request_id: rid,
            },
            IpcResponse::AuthResult { accepted, reason, .. } => IpcResponse::AuthResult {
                accepted,
                reason,
                request_id: rid,
            },
            IpcResponse::DaemonStatus { running, pid, version, .. } => IpcResponse::DaemonStatus {
                running,
                pid,
                version,
                request_id: rid,
            },
            IpcResponse::ConfigLoaded { keys, .. } => IpcResponse::ConfigLoaded { keys, request_id: rid },
            IpcResponse::TestResult { success, message, .. } => IpcResponse::TestResult {
                success,
                message,
                request_id: rid,
            },
            IpcResponse::LogEntry { level, target, message, .. } => IpcResponse::LogEntry {
                level,
                target,
                message,
                request_id: rid,
            },
            IpcResponse::Error { code, details, .. } => IpcResponse::Error {
                code,
                details,
                request_id: rid,
            },
        }
    }
}

/// Current IPC protocol version.
pub const PROTOCOL_VERSION: u16 = 2;

/// Minimum supported protocol version.
pub const PROTOCOL_MIN_VERSION: u16 = 1;

/// Maximum supported protocol version.
pub const PROTOCOL_MAX_VERSION: u16 = 2;

/// Version assumed for a message that carries none.
pub fn default_version() -> (r: u16)
    ensures
        r == PROTOCOL_MIN_VERSION,
{
    PROTOCOL_MIN_VERSION
}

/// Every message of the current protocol version passes the version check,
/// and so does one that carries no version (taken as the oldest one).
pub proof fn lemma_current_version_supported(m: IpcMessage)
    requires
        m.spec_version() == PROTOCOL_VERSION || m.spec_version() == PROTOCOL_MIN_VERSION,
    ensures
        PROTOCOL_MIN_VERSION <= m.spec_version() <= PROTOCOL_MAX_VERSION,
{
}

/// A single IPC message in either direction, with its protocol version.
#[derive(Debug)]
pub enum IpcMessage {
    /// A request from the GUI to the daemon.
    Request { version: u16, inner: IpcRequest },
    /// A response from the daemon to the GUI.
    Response { version: u16, inner: IpcResponse },
}

/// `m` is a response of the current protocol version whose content is `v`.
pub open spec fn is_response_of(m: IpcMessage, v: ResponseView) -> bool {
    match m {
        IpcMessage::Response { version, inner } => version == PROTOCOL_VERSION && inner@ == v,
        IpcMessage::Request { .. } => false,
    }
}

impl IpcMessage {
    /// The protocol version of a message, as a value.
    pub open spec fn spec_version(self) -> u16 {
        match self {
            IpcMessage::Request { version, .. } => version,
            IpcMessage::Response { version, .. } => version,
        }
    }

    /// Wraps a request in the envelope, with the current protocol version.
    pub fn request(req: IpcRequest) -> (r: Self)
        ensures
            r == (IpcMessage::Request { version: PROTOCOL_VERSION, inner: req }),
    {
        IpcMessage::Request { version: PROTOCOL_VERSION, inner: req }
    }

    /// Wraps a response in the envelope, with the current protocol version.
    pub fn response(resp: IpcResponse) -> (r: Self)
        ensures
            r == (IpcMessage::Response { version: PROTOCOL_VERSION, inner: resp }),
    {
        IpcMessage::Response { version: PROTOCOL_VERSION, inner: resp }
    }

    /// Whether this is a request.
    pub fn is_request(&self) -> (r: bool)
        ensures
            r == (self is Request),
    {
        match self {
            IpcMessage::Request { .. } => true,
            IpcMessage::Response { .. } => false,
        }
    }

    /// Whether this is a response.
    pub fn is_response(&self) -> (r: bool)
        ensures
            r == (self is Response),
    {
        match self {
            IpcMessage::Request { .. } => false,
            IpcMessage::Response { .. } => true,
        }
    }

    /// The variant kind as a string for logging.
    pub fn kind(&self) -> (r: &'static str)
        ensures
            r@ == (if self is Request {
                "request"@
            } else {
                "response"@
            }),
    {
        match self {
            IpcMessage::Request { .. } => "request",
            IpcMessage::Response { .. } => "response",
        }
    }

    /// The protocol version of this message.
    pub fn version(&self) -> (r: u16)
        ensures
            r == self.spec_version(),
    {
        match self {
            IpcMessage::Request { version, .. } => *version,
            IpcMessage::Response { version, .. } => *version,
        }
    }

    /// Whether this message's version is within the supported range.
    pub fn is_compatible(&self) -> (r: bool)
        ensures
            r == (PROTOCOL_MIN_VERSION <= self.spec_version() <= PROTOCOL_MAX_VERSION),
    {
        let v = self.version();
        v >= PROTOCOL_MIN_VERSION && v <= PROTOCOL_MAX_VERSION
    }
}

} // verus!
