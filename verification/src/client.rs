//! The GUI client's decisions: configuration checks before saving, the
//! client side of the authentication handshake, building a keybinding from
//! form fields, and the messages it reports.

use vstd::prelude::*;

use crate::actions::{command_check, validate_system_command, Action, ActionView};
use crate::auth::{compute_hmac, expected_signature, is_fresh, timestamp_is_fresh, token_decision, unix_now};
use crate::config::{bindings_view, BindingView, Config, ConfigView, KeyBinding};
use crate::conflict::{conflicts_of, detect_conflicts, Conflict, ConflictView};
use crate::daemon::{id_taken, remove_bindings_with_id, without_id};
use crate::ipc::{AuthToken, IpcMessage, IpcRequest, IpcResponse, PROTOCOL_VERSION};
use crate::keymap::{debug_str, spec_debug_str, spec_parse, KeyStroke};
use crate::text::{chars_of, join_strings, join_with, split, split_chars, string_of, trim, trim_chars};

verus! {

broadcast use vstd::string::group_string_axioms;

/// The message for a conflict: the IDs of the bindings that share the
/// stroke, joined with `" ↔ "`, then the stroke.
pub open spec fn conflict_message(c: ConflictView) -> Seq<char> {
    "Conflict: "@ + join_with(c.bindings, " ↔ "@) + " [key: "@ + c.key + "]"@
}

/// The message for a key string of a binding that does not parse.
pub open spec fn invalid_stroke_message(k: Seq<char>, id: Seq<char>) -> Seq<char> {
    "Invalid key stroke '"@ + k + "' in binding '"@ + id + "'"@
}

/// The messages for the default key strings of `b` that do not parse.
pub open spec fn invalid_stroke_messages(keys: Seq<Seq<char>>, id: Seq<char>) -> Seq<Seq<char>>
    decreases keys.len(),
{
    if keys.len() == 0 {
        Seq::empty()
    } else {
        invalid_stroke_messages(keys.drop_last(), id) + if spec_parse(keys.last()) is Err {
            seq![invalid_stroke_message(keys.last(), id)]
        } else {
            Seq::<Seq<char>>::empty()
        }
    }
}

/// The messages for all bindings' default key strings that do not parse.
pub open spec fn stroke_messages_upto(bs: Seq<BindingView>, n: int) -> Seq<Seq<char>>
    decreases n,
{
    if n <= 0 {
        Seq::empty()
    } else {
        stroke_messages_upto(bs, n - 1) + invalid_stroke_messages(bs[n - 1].keys, bs[n - 1].id)
    }
}

/// What [`validate_config`] reports: an empty version, every conflict,
/// then every default key string that does not parse.
pub open spec fn config_problems(c: ConfigView) -> Seq<Seq<char>> {
    (if c.version.len() == 0 {
        seq!["Config version is empty"@]
    } else {
        Seq::<Seq<char>>::empty()
    }) + conflicts_of(c.keybindings).map_values(|x: ConflictView| conflict_message(x))
        + stroke_messages_upto(c.keybindings, c.keybindings.len() as int)
}

/// Checks a configuration before it is saved: an empty version, key
/// binding conflicts, and default key strings that do not parse.
pub fn validate_config(cfg: &Config) -> (r: Vec<String>)
    ensures
        r.deep_view() == config_problems(cfg@),
{
    let mut errors: Vec<String> = Vec::new();
    if cfg.version.as_str().is_empty() {
        errors.push(String::from_str("Config version is empty"));
    }
    let ghost e0 = errors.deep_view();
    assert(e0 =~= if cfg@.version.len() == 0 {
        seq!["Config version is empty"@]
    } else {
        Seq::<Seq<char>>::empty()
    });
    let conflicts = detect_conflicts(&cfg.keybindings);
    let ghost cv = conflicts@.map_values(|c: Conflict| c@);
    let ghost msgs = cv.map_values(|x: ConflictView| conflict_message(x));
    let mut i: usize = 0;
    while i < conflicts.len()
        invariant
            i <= conflicts.len(),
            cv == conflicts@.map_values(|c: Conflict| c@),
            msgs == cv.map_values(|x: ConflictView| conflict_message(x)),
            cv == conflicts_of(cfg@.keybindings),
            errors.deep_view() == e0 + msgs.take(i as int),
        decreases conflicts.len() - i,
    {
        let c = &conflicts[i];
        assert(cv[i as int] == c@);
        let mut m = String::from_str("Conflict: ");
        let ids = join_strings(&c.bindings, " ↔ ");
        m.append(ids.as_str());
        m.append(" [key: ");
        m.append(c.key.as_str());
        m.append("]");
        let ghost before = errors.deep_view();
        errors.push(m);
        assert(errors.deep_view() =~= before.push(m@));
        assert(msgs.take(i + 1) =~= msgs.take(i as int).push(msgs[i as int]));
        i = i + 1;
    }
    assert(msgs.take(conflicts.len() as int) =~= msgs);
    let ghost e1 = errors.deep_view();
    let ghost bs = cfg@.keybindings;
    let mut j: usize = 0;
    assert(e1 + stroke_messages_upto(bs, 0) =~= e1);
    while j < cfg.keybindings.len()
        invariant
            j <= cfg.keybindings.len(),
            bs == cfg@.keybindings,
            errors.deep_view() == e1 + stroke_messages_upto(bs, j as int),
        decreases cfg.keybindings.len() - j,
    {
        let b = &cfg.keybindings[j];
        assert(bs[j as int] == b@);
        let ghost base = errors.deep_view();
        let mut k: usize = 0;
        let ghost kv = b.keys.deep_view();
        assert(kv.take(0) =~= Seq::<Seq<char>>::empty());
        while k < b.keys.len()
            invariant
                k <= b.keys.len(),
                kv == b.keys.deep_view(),
                errors.deep_view() == base + invalid_stroke_messages(kv.take(k as int), b.id@),
            decreases b.keys.len() - k,
        {
            let ghost before = errors.deep_view();
            assert(kv.take(k + 1).drop_last() =~= kv.take(k as int));
            assert(kv.take(k + 1).last() == b.keys@[k as int]@);
            match KeyStroke::parse(b.keys[k].as_str()) {
                Ok(_) => {},
                Err(_) => {
                    let mut m = String::from_str("Invalid key stroke '");
                    m.append(b.keys[k].as_str());
                    m.append("' in binding '");
                    m.append(b.id.as_str());
                    m.append("'");
                    errors.push(m);
                    assert(errors.deep_view() =~= before.push(m@));
                },
            }
            assert(errors.deep_view() =~= base + invalid_stroke_messages(kv.take(k + 1), b.id@));
            k = k + 1;
        }
        assert(kv.take(b.keys.len() as int) =~= kv);
        assert(errors.deep_view() =~= e1 + stroke_messages_upto(bs, j + 1));
        j = j + 1;
    }
    assert(errors.deep_view() =~= config_problems(cfg@));
    errors
}

/// The first message of the handshake: an auth request without nonce or
/// signature, which the daemon answers with a challenge.
pub fn auth_request(client_pid: u32) -> (r: IpcMessage)
    ensures
        r matches IpcMessage::Request { version, inner: IpcRequest::Auth { token, request_id } }
            && version == PROTOCOL_VERSION && token.client_pid == client_pid && token.nonce@.len() == 0
            && token.signature@.len() == 0 && token.timestamp == 0 && request_id is None,
{
    let token = AuthToken { client_pid, nonce: String::new(), timestamp: 0, signature: String::new() };
    IpcMessage::request(IpcRequest::Auth { token, request_id: None })
}

/// What the client answers to the daemon's first reply, for a clock
/// reading `now`: to a fresh challenge, an auth request signed with the
/// shared secret; otherwise an error message.
pub open spec fn challenge_answer(
    msg: IpcMessage,
    secret: Seq<char>,
    client_pid: u32,
    now: Result<u64, String>,
) -> Result<(Seq<char>, u64, Seq<char>), Seq<char>> {
    match msg {
        IpcMessage::Response { inner: IpcResponse::AuthChallenge { challenge, .. }, .. } => match now {
            Err(e) => Err("Time error: "@ + e@),
            Ok(t) => if !is_fresh(t, challenge.timestamp) {
                Err("Auth challenge expired"@)
            } else {
                Ok(
                    (
                        challenge.nonce@,
                        challenge.timestamp,
                        expected_signature(secret, challenge.nonce@, challenge.daemon_pid),
                    ),
                )
            },
        },
        _ => Err("Expected AuthChallenge response"@),
    }
}

/// `r` carries the answer `a`: an auth request with the nonce, timestamp
/// and signature of `a`, or the error message of `a`.
pub open spec fn answer_is(r: Result<IpcMessage, String>, a: Result<(Seq<char>, u64, Seq<char>), Seq<char>>, client_pid: u32) -> bool {
    match (r, a) {
        (Ok(m), Ok((nonce, ts, sig))) => m matches IpcMessage::Request {
            version,
            inner: IpcRequest::Auth { token, request_id },
        } && version == PROTOCOL_VERSION && token.client_pid == client_pid && token.nonce@ == nonce
            && token.timestamp == ts && token.signature@ == sig && request_id is None,
        (Err(e), Err(m)) => e@ == m,
        _ => false,
    }
}

/// Answers the daemon's reply for a clock reading `now`: to a challenge
/// whose timestamp lies within the freshness window of `now`, an auth
/// request carrying the challenge's nonce and timestamp and the signature
/// of the nonce and the daemon PID under the shared secret; otherwise the
/// error message.
pub fn answer_for(msg: &IpcMessage, secret: &str, client_pid: u32, now: Result<u64, String>) -> (r: Result<
    IpcMessage,
    String,
>)
    ensures
        answer_is(r, challenge_answer(*msg, secret@, client_pid, now), client_pid),
{
    match msg {
        IpcMessage::Response { inner: IpcResponse::AuthChallenge { challenge, .. }, .. } => match now {
            Err(e) => {
                let mut m = String::from_str("Time error: ");
                m.append(e.as_str());
                Err(m)
            },
            Ok(t) => if !timestamp_is_fresh(t, challenge.timestamp) {
                Err(String::from_str("Auth challenge expired"))
            } else {
                let signature = compute_hmac(secret, challenge.nonce.as_str(), challenge.daemon_pid);
                let token = AuthToken {
                    client_pid,
                    nonce: challenge.nonce.clone(),
                    timestamp: challenge.timestamp,
                    signature,
                };
                Ok(IpcMessage::request(IpcRequest::Auth { token, request_id: None }))
            },
        },
        _ => Err(String::from_str("Expected AuthChallenge response")),
    }
}

/// Answers the daemon's challenge with the current clock reading (see
/// [`answer_for`]); a reply that is not a challenge is answered with an
/// error without reading the clock.
pub fn answer_challenge(msg: &IpcMessage, secret: &str, client_pid: u32) -> (r: Result<IpcMessage, String>)
    ensures
        exists|now: Result<u64, String>|
            answer_is(r, #[trigger] challenge_answer(*msg, secret@, client_pid, now), client_pid),
        !(msg matches IpcMessage::Response { inner: IpcResponse::AuthChallenge { .. }, .. }) ==> (r is Err
            && r->Err_0@ == "Expected AuthChallenge response"@),
{
    match msg {
        IpcMessage::Response { inner: IpcResponse::AuthChallenge { .. }, .. } => {
            let now = unix_now();
            answer_for(msg, secret, client_pid, now)
        },
        _ => {
            let r = answer_for(msg, secret, client_pid, Ok(0));
            assert(answer_is(r, challenge_answer(*msg, secret@, client_pid, Ok::<u64, String>(0)), client_pid));
            r
        },
    }
}

/// The daemon PID that a challenge names (0 for any other message).
pub open spec fn challenged_pid(msg: IpcMessage) -> u32 {
    match msg {
        IpcMessage::Response { inner: IpcResponse::AuthChallenge { challenge, .. }, .. } => challenge.daemon_pid,
        _ => 0,
    }
}

/// A client holding the shared secret passes the daemon's check: the
/// token it answers a challenge with is accepted by a daemon that checks it
/// with the same secret, under the PID of the challenge, at any time within
/// the freshness window of the challenge's timestamp.
pub proof fn lemma_answer_accepted(msg: IpcMessage, secret: Seq<char>, client_pid: u32, client_now: Result<u64, String>, daemon_now: u64)
    requires
        challenge_answer(msg, secret, client_pid, client_now) is Ok,
        is_fresh(daemon_now, challenge_answer(msg, secret, client_pid, client_now)->Ok_0.1),
    ensures
        ({
            let a = challenge_answer(msg, secret, client_pid, client_now)->Ok_0;
            token_decision(secret, a.0, a.2, challenged_pid(msg), Ok::<u64, String>(daemon_now), a.1) is Ok
        }),
{
}

/// The `Debug` rendering of an optional string.
pub open spec fn debug_opt(o: Option<String>) -> Seq<char> {
    match o {
        Some(s) => "Some("@ + spec_debug_str(s@) + ")"@,
        None => "None"@,
    }
}

/// What the client concludes from the daemon's reply to its signed token.
pub open spec fn auth_outcome_of(msg: IpcMessage) -> Result<(), Seq<char>> {
    match msg {
        IpcMessage::Response { inner: IpcResponse::AuthResult { accepted, reason, .. }, .. } => if accepted {
            Ok(())
        } else {
            Err("Auth rejected: "@ + debug_opt(reason))
        },
        _ => Err("Expected AuthResult response"@),
    }
}

/// Concludes the handshake from the daemon's reply: accepted, rejected
/// (with the reason), or an unexpected message.
pub fn auth_outcome(msg: &IpcMessage) -> (r: Result<(), String>)
    ensures
        match r {
            Ok(()) => auth_outcome_of(*msg) is Ok,
            Err(e) => auth_outcome_of(*msg) == Err::<(), Seq<char>>(e@),
        },
{
    match msg {
        IpcMessage::Response { inner: IpcResponse::AuthResult { accepted, reason, .. }, .. } => {
            if *accepted {
                Ok(())
            } else {
                let mut m = String::from_str("Auth rejected: ");
                match reason {
                    Some(s) => {
                        m.append("Some(");
                        let d = debug_str(s.as_str());
                        m.append(d.as_str());
                        m.append(")");
                    },
                    None => {
                        m.append("None");
                    },
                }
                assert(m@ =~= "Auth rejected: "@ + debug_opt(*reason));
                Err(m)
            }
        },
        _ => Err(String::from_str("Expected AuthResult response")),
    }
}

/// The fields of an action form: each string field present when given as
/// a string, the shortcut list when given as a list (its string items).
pub struct ActionFields {
    pub text: Option<String>,
    pub path: Option<String>,
    pub to: Option<String>,
    pub command: Option<String>,
    pub shortcut: Option<Vec<String>>,
}

/// An optional string field, empty when absent.
pub open spec fn field_or_empty(o: Option<String>) -> Seq<char> {
    match o {
        Some(s) => s@,
        None => Seq::empty(),
    }
}

/// The action that a form describes, or the error message: a system
/// command is checked against the allowlist first; unknown types are
/// rejected.
pub open spec fn form_action(action_type: Seq<char>, f: ActionFields) -> Result<ActionView, Seq<char>> {
    if action_type == "system_command"@ && command_check(field_or_empty(f.command)) is Some {
        Err("Command validation failed: "@ + command_check(field_or_empty(f.command))->0)
    } else if action_type == "paste"@ {
        Ok(ActionView::Paste { text: field_or_empty(f.text) })
    } else if action_type == "launch"@ {
        Ok(ActionView::Launch { path: field_or_empty(f.path) })
    } else if action_type == "remap"@ {
        Ok(ActionView::Remap { to: field_or_empty(f.to) })
    } else if action_type == "shortcut"@ {
        Ok(ActionView::Shortcut {
            shortcut: match f.shortcut {
                Some(v) => v.deep_view(),
                None => Seq::empty(),
            },
        })
    } else if action_type == "system_command"@ {
        Ok(ActionView::SystemCommand { command: field_or_empty(f.command) })
    } else if action_type == "text_insert"@ {
        Ok(ActionView::TextInsert { text: field_or_empty(f.text) })
    } else {
        Err("Unknown action type: "@ + action_type)
    }
}

/// The action built from a form has the variant the form names: whenever
/// a form is accepted, the action's variant name is the form's action type.
/// Every known type other than a system command is accepted; a system
/// command is accepted exactly when the command passes the allowlist.
pub proof fn lemma_form_action_variant(t: Seq<char>, f: ActionFields)
    ensures
        form_action(t, f) is Ok ==> form_action(t, f)->Ok_0.variant_name() == t,
        (t == "paste"@ || t == "launch"@ || t == "remap"@ || t == "shortcut"@ || t == "text_insert"@) ==> form_action(
            t,
            f,
        ) is Ok,
        t == "system_command"@ ==> (form_action(t, f) is Ok <==> command_check(field_or_empty(f.command)) is None),
{
    reveal_strlit("paste");
    reveal_strlit("launch");
    reveal_strlit("remap");
    reveal_strlit("shortcut");
    reveal_strlit("system_command");
    reveal_strlit("text_insert");
    assert("paste"@ != "system_command"@ && "launch"@ != "system_command"@ && "remap"@ != "system_command"@
        && "shortcut"@ != "system_command"@ && "text_insert"@ != "system_command"@) by {
        assert("paste"@.len() != "system_command"@.len());
        assert("launch"@.len() != "system_command"@.len());
        assert("remap"@.len() != "system_command"@.len());
        assert("shortcut"@.len() != "system_command"@.len());
        assert("text_insert"@.len() != "system_command"@.len());
    }
}

/// An optional string field, empty when absent.
fn take_or_empty(o: Option<String>) -> (r: String)
    ensures
        r@ == field_or_empty(o),
{
    match o {
        Some(s) => s,
        None => String::new(),
    }
}

/// Builds the action that a form describes.
pub fn build_action(action_type: &str, fields: ActionFields) -> (r: Result<Action, String>)
    ensures
        match r {
            Ok(a) => form_action(action_type@, fields) == Ok::<ActionView, Seq<char>>(a@),
            Err(e) => form_action(action_type@, fields) == Err::<ActionView, Seq<char>>(e@),
        },
{
    let t = chars_of(action_type);
    let is_command = crate::text::str_eq(&t, "system_command");
    let ghost f = fields;
    let ActionFields { text, path, to, command, shortcut } = fields;
    let command = take_or_empty(command);
    if is_command {
        match validate_system_command(command.as_str()) {
            Err(e) => {
                let mut m = String::from_str("Command validation failed: ");
                m.append(e.as_str());
                return Err(m);
            },
            Ok(()) => {},
        }
    }
    if crate::text::str_eq(&t, "paste") {
        Ok(Action::Paste { text: take_or_empty(text) })
    } else if crate::text::str_eq(&t, "launch") {
        Ok(Action::Launch { path: take_or_empty(path) })
    } else if crate::text::str_eq(&t, "remap") {
        Ok(Action::Remap { to: take_or_empty(to) })
    } else if crate::text::str_eq(&t, "shortcut") {
        let list = match shortcut {
            Some(v) => v,
            None => Vec::new(),
        };
        proof {
            if f.shortcut is None {
                assert(list.deep_view() =~= Seq::<Seq<char>>::empty());
            }
        }
        Ok(Action::Shortcut { shortcut: list })
    } else if is_command {
        Ok(Action::SystemCommand { command })
    } else if crate::text::str_eq(&t, "text_insert") {
        Ok(Action::TextInsert { text: take_or_empty(text) })
    } else {
        let mut m = String::from_str("Unknown action type: ");
        m.append(action_type);
        Err(m)
    }
}

/// The key strings of a comma-separated list, each trimmed.
pub open spec fn listed_keys(keys: Seq<char>) -> Seq<Seq<char>> {
    split(keys, ',').map_values(|k: Seq<char>| trim(k))
}

/// Splits a comma-separated list of key strings, trimming each.
pub fn split_keys(keys: &str) -> (r: Vec<String>)
    ensures
        r.deep_view() == listed_keys(keys@),
{
    let cs = chars_of(keys);
    let parts = split_chars(&cs, ',');
    let ghost pv = parts.deep_view();
    let mut out: Vec<String> = Vec::new();
    let mut i: usize = 0;
    while i < parts.len()
        invariant
            i <= parts.len(),
            pv == parts.deep_view(),
            pv == split(cs@, ','),
            cs@ == keys@,
            out.deep_view() =~= pv.map_values(|k: Seq<char>| trim(k)).take(i as int),
        decreases parts.len() - i,
    {
        assert(pv[i as int] =~= parts@[i as int]@);
        let t = trim_chars(&parts[i]);
        let s = string_of(&t);
        let ghost before = out.deep_view();
        out.push(s);
        assert(out.deep_view() =~= before.push(s@));
        i = i + 1;
    }
    out
}

/// Appends a keybinding made from form values to the configuration (the
/// keys given as a comma-separated list, no overrides).
pub fn add_form_binding(config: &mut Config, id: String, keys: &str, action: Action)
    ensures
        final(config)@.keybindings == old(config)@.keybindings.push(
            BindingView { id: id@, keys: listed_keys(keys@), action: action@, overrides: None },
        ),
        final(config)@.version == old(config)@.version,
        final(config)@.command == old(config)@.command,
{
    let key_list = split_keys(keys);
    let b = KeyBinding { id, keys: key_list, action, overrides: None };
    let ghost old_bs = config.keybindings@;
    config.keybindings.push(b);
    assert(config.keybindings@ =~= old_bs.push(b));
    assert(bindings_view(config.keybindings@) =~= bindings_view(old_bs).push(b@));
}

/// Removes the keybindings with the given ID from the configuration;
/// whether there was one.
pub fn remove_form_binding(config: &mut Config, id: &String) -> (r: bool)
    ensures
        r == id_taken(old(config)@.keybindings, id@),
        final(config)@.keybindings == without_id(old(config)@.keybindings, id@),
        final(config)@.version == old(config)@.version,
        final(config)@.command == old(config)@.command,
{
    let found = crate::daemon::has_binding_id(&config.keybindings, id);
    let mut bs: Vec<KeyBinding> = Vec::new();
    std::mem::swap(&mut bs, &mut config.keybindings);
    config.keybindings = remove_bindings_with_id(bs, id);
    found
}

/// How the daemon took the request to reload the configuration.
#[derive(Debug, Clone, Copy, PartialEq, Eq, Structural)]
pub enum ReloadOutcome {
    /// The daemon answered with the loaded configuration.
    Reloaded,
    /// The daemon answered otherwise.
    Failed,
    /// The daemon could not be reached in time.
    Unreachable,
}

/// How the daemon's answer to a reload request is taken.
pub fn reload_outcome(reply: &IpcMessage) -> (r: ReloadOutcome)
    ensures
        r == (if reply matches IpcMessage::Response { inner: IpcResponse::ConfigLoaded { .. }, .. } {
            ReloadOutcome::Reloaded
        } else {
            ReloadOutcome::Failed
        }),
{
    match reply {
        IpcMessage::Response { inner: IpcResponse::ConfigLoaded { .. }, .. } => ReloadOutcome::Reloaded,
        _ => ReloadOutcome::Failed,
    }
}

/// The report after a keybinding was changed and saved: `verb` (such as
/// "Added") and the ID, then how the daemon reload went.
pub open spec fn change_message(verb: Seq<char>, id: Seq<char>, o: ReloadOutcome) -> Seq<char> {
    verb + " "@ + id + match o {
        ReloadOutcome::Reloaded => " and reloaded"@,
        ReloadOutcome::Failed => " but daemon reload failed"@,
        ReloadOutcome::Unreachable => " but daemon reload failed (not running or timed out)"@,
    }
}

/// The report after a keybinding was changed and saved.
pub fn change_report(verb: &str, id: &String, o: ReloadOutcome) -> (r: String)
    ensures
        r@ == change_message(verb@, id@, o),
{
    let mut m = String::from_str(verb);
    m.append(" ");
    m.append(id.as_str());
    match o {
        ReloadOutcome::Reloaded => m.append(" and reloaded"),
        ReloadOutcome::Failed => m.append(" but daemon reload failed"),
        ReloadOutcome::Unreachable => m.append(" but daemon reload failed (not running or timed out)"),
    }
    m
}

/// The kind of report: full success only when the daemon reloaded.
pub fn change_report_kind(o: ReloadOutcome) -> (r: &'static str)
    ensures
        r@ == (if o == ReloadOutcome::Reloaded {
            "success"@
        } else {
            "partial_success"@
        }),
{
    match o {
        ReloadOutcome::Reloaded => "success",
        _ => "partial_success",
    }
}

/// The details reported when a keybinding to remove does not exist.
pub fn not_found_details(id: &String) -> (r: String)
    ensures
        r@ == "Binding '"@ + id@ + "' not found"@,
{
    let mut m = String::from_str("Binding '");
    m.append(id.as_str());
    m.append("' not found");
    m
}

/// The formats a configuration can be exported in.
#[derive(Debug, Clone, Copy, PartialEq, Eq, Structural)]
pub enum ExportFormat {
    /// The configuration file as it is.
    Yaml,
    /// The configuration converted to pretty-printed JSON.
    Json,
}

/// The export format named `format` ("yaml" or "json").
pub fn export_format(format: &str) -> (r: Result<ExportFormat, String>)
    ensures
        match r {
            Ok(f) => (format@ == "yaml"@ && f == ExportFormat::Yaml) || (format@ == "json"@ && f
                == ExportFormat::Json),
            Err(e) => format@ != "yaml"@ && format@ != "json"@ && e@ == "Unsupported format: "@ + format@,
        },
{
    let cs = chars_of(format);
    if crate::text::str_eq(&cs, "yaml") {
        Ok(ExportFormat::Yaml)
    } else if crate::text::str_eq(&cs, "json") {
        Ok(ExportFormat::Json)
    } else {
        let mut m = String::from_str("Unsupported format: ");
        m.append(format);
        Err(m)
    }
}

/// What reading YAML text as a JSON value (`serde_yaml::from_str` into a
/// `serde_json::Value`) and writing that value as pretty-printed JSON
/// (`serde_json::to_string_pretty`) gives: the JSON text, or the error's
/// text.
pub uninterp spec fn spec_yaml_to_pretty_json(text: Seq<char>) -> Result<Seq<char>, Seq<char>>;

/// Converts YAML text to pretty-printed JSON: `serde_yaml::from_str` into a
/// `serde_json::Value`, then `serde_json::to_string_pretty` of it; errors
/// become their text. The contract claims only that the result is a
/// function of the text (named, not spelled out).
#[verifier::external_body]
fn yaml_to_pretty_json(text: &str) -> (r: Result<String, String>)
    ensures
        match r {
            Ok(s) => spec_yaml_to_pretty_json(text@) == Ok::<Seq<char>, Seq<char>>(s@),
            Err(e) => spec_yaml_to_pretty_json(text@) == Err::<Seq<char>, Seq<char>>(e@),
        },
{
    match serde_yaml::from_str::<serde_json::Value>(text) {
        Ok(v) => serde_json::to_string_pretty(&v).map_err(|e| e.to_string()),
        Err(e) => Err(e.to_string()),
    }
}

/// The configuration file's text exported in `format`: as it is for
/// "yaml", converted to pretty-printed JSON for "json"; any other format is
/// refused.
pub fn export_config_text(content: String, format: &str) -> (r: Result<String, String>)
    ensures
        format@ == "yaml"@ ==> r == Ok::<String, String>(content),
        format@ == "json"@ ==> match r {
            Ok(s) => spec_yaml_to_pretty_json(content@) == Ok::<Seq<char>, Seq<char>>(s@),
            Err(e) => spec_yaml_to_pretty_json(content@) == Err::<Seq<char>, Seq<char>>(e@),
        },
        format@ != "yaml"@ && format@ != "json"@ ==> (r is Err && r->Err_0@ == "Unsupported format: "@ + format@),
{
    proof {
        reveal_strlit("yaml");
        reveal_strlit("json");
        assert("yaml"@[0] != "json"@[0]);
    }
    match export_format(format) {
        Err(e) => Err(e),
        Ok(ExportFormat::Yaml) => Ok(content),
        Ok(ExportFormat::Json) => yaml_to_pretty_json(content.as_str()),
    }
}

} // verus!
