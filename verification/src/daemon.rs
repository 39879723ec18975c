//! The daemon's decisions: its state (running flag, configuration, platform
//! adapter, shared secret) and what it does with each request.
//!
//! Work that needs the outside world is done by the caller: decoding JSON
//! payloads and reading the configuration file happen before a request is
//! handed over (see [`DaemonRequest`]); writing the configuration file
//! happens when [`DaemonState::process_request`] asks for it with
//! [`DaemonStep::Persist`], after which [`DaemonState::finish_persist`]
//! completes the request with the outcome.

use vstd::prelude::*;

use crate::actions::{command_check, validate_system_command, Action, ActionView};
use crate::auth::{generate_secret, hex_of};
use crate::config::{bindings_view, BindingView, Config, ConfigView, KeyBinding};
use crate::error::{Error, ErrorView};
use crate::ipc::{
    binding_json, bindings_json, bindings_to_json, is_response_of, lemma_with_request_id_sets_id, opt_view, IpcMessage, IpcResponse,
    KeyBindingJsonView, ResponseView,
};
use crate::keymap::{spec_display, spec_parse, KeyStroke};
use crate::os::OsAdapter;
use crate::text::{decimal, decimal_string, join_with};

verus! {

broadcast use vstd::string::group_string_axioms;

/// The mutable state shared between the daemon loop and the IPC handler.
pub struct DaemonState {
    /// Whether the daemon is currently running.
    pub running: bool,
    /// Whether the adapter has been initialized.
    pub initialized: bool,
    /// Current configuration.
    pub config: Config,
    /// Platform adapter, if any.
    pub adapter: Option<Box<dyn OsAdapter>>,
    /// Shared secret for IPC authentication (generated at startup).
    pub auth_secret: String,
    /// The calls made on the adapter so far, in order, with what was handed
    /// to it or what it returned (a record for the contracts).
    pub adapter_calls: Ghost<Seq<AdapterCall>>,
}

/// A call made on the platform adapter.
pub enum AdapterCall {
    /// `set_config`, with the configuration handed over.
    SetConfig(ConfigView),
    /// `stop`, with its outcome.
    Stop(Result<(), ErrorView>),
    /// `init`, with its outcome.
    Init(Result<(), ErrorView>),
    /// `start`, with its outcome.
    Start(Result<(), ErrorView>),
}

/// Creates the initial daemon state from a configuration and an adapter,
/// with a fresh random 32-byte secret in lowercase hex.
pub fn create_daemon_state(config: Config, adapter: Box<dyn OsAdapter>) -> (r: DaemonState)
    ensures
        !r.running,
        !r.initialized,
        r.config@ == config@,
        r.adapter is Some,
        r.adapter_calls@.len() == 0,
        exists|b: Seq<u8>| b.len() == 32 && r.auth_secret@ == hex_of(b),
{
    let auth_secret = generate_secret();
    DaemonState {
        running: false,
        initialized: false,
        config,
        adapter: Some(adapter),
        auth_secret,
        adapter_calls: Ghost(Seq::empty()),
    }
}

/// A request as the daemon decides on it, its payloads already decoded
/// (JSON payloads) or fetched (the configuration file on reload).
pub enum DaemonRequest {
    /// Test whether key strokes parse.
    TestShortcut { keys: Vec<String> },
    /// Query the daemon status.
    GetStatus,
    /// Start the daemon.
    StartDaemon,
    /// Stop the daemon.
    StopDaemon,
    /// Replace the configuration: the decoded configuration, or the
    /// decoding error's text.
    SetConfig { config: Result<Config, String> },
    /// Reload the configuration: the configuration read from disk, or the
    /// error's text.
    ReloadConfig { loaded: Result<Config, String> },
    /// Add a keybinding: the decoded action, or the decoding error's text.
    AddKeybinding { id: String, keys: Vec<String>, action: Result<Action, String> },
    /// Remove the keybinding with this ID.
    RemoveKeybinding { id: String },
    /// Any other request.
    Unknown,
}

/// What the daemon does next with a request.
pub enum DaemonStep {
    /// Send this message.
    Reply(IpcMessage),
    /// Write the configuration to disk, then call
    /// [`DaemonState::finish_persist`] with the outcome.
    Persist { request_id: Option<String> },
}

/// The report line for one key string of a shortcut test.
pub open spec fn key_test_line(k: Seq<char>) -> Seq<char> {
    match spec_parse(k) {
        Ok(s) => spec_display(s) + " → parsed OK"@,
        Err(e) => k + " → ERROR: "@ + e.message(),
    }
}

/// Every key string parses.
pub open spec fn all_parse(keys: Seq<Seq<char>>) -> bool {
    forall|i: int| 0 <= i < keys.len() ==> #[trigger] spec_parse(keys[i]) is Ok
}

/// The report of a shortcut test: a count when all keys parse, otherwise
/// the report lines of all keys joined with `"; "`.
pub open spec fn test_message(keys: Seq<Seq<char>>) -> Seq<char> {
    if all_parse(keys) {
        "All "@ + decimal(keys.len()) + " key(s) parsed successfully."@
    } else {
        join_with(keys.map_values(|k: Seq<char>| key_test_line(k)), "; "@)
    }
}

/// The failed allowlist check of a binding's system command, if any.
pub open spec fn command_failure(b: BindingView) -> Option<Seq<char>> {
    match b.action {
        ActionView::SystemCommand { command } => command_check(command),
        _ => None,
    }
}

/// The first binding from index `i` on whose system command fails the
/// allowlist check: its ID and the check's message.
pub open spec fn first_command_failure(bs: Seq<BindingView>, i: int) -> Option<(Seq<char>, Seq<char>)>
    decreases bs.len() - i,
{
    if i >= bs.len() || i < 0 {
        None
    } else {
        match command_failure(bs[i]) {
            Some(e) => Some((bs[i].id, e)),
            None => first_command_failure(bs, i + 1),
        }
    }
}

/// Some binding has the ID `id`.
pub open spec fn id_taken(bs: Seq<BindingView>, id: Seq<char>) -> bool {
    exists|j: int| 0 <= j < bs.len() && #[trigger] bs[j].id == id
}

/// The bindings without those whose ID is `id`, in order.
pub open spec fn without_id(bs: Seq<BindingView>, id: Seq<char>) -> Seq<BindingView>
    decreases bs.len(),
{
    if bs.len() == 0 {
        bs
    } else {
        let rest = without_id(bs.drop_last(), id);
        if bs.last().id == id {
            rest
        } else {
            rest.push(bs.last())
        }
    }
}

/// The binding that an add request installs.
pub open spec fn new_binding(id: Seq<char>, keys: Seq<Seq<char>>, action: ActionView) -> BindingView {
    BindingView { id, keys, action, overrides: None }
}

/// Removing an ID that no binding has leaves the bindings as they are.
proof fn lemma_without_absent_id(bs: Seq<BindingView>, id: Seq<char>)
    requires
        !id_taken(bs, id),
    ensures
        without_id(bs, id) == bs,
    decreases bs.len(),
{
    if bs.len() > 0 {
        let init = bs.drop_last();
        assert(!id_taken(init, id)) by {
            if id_taken(init, id) {
                let j = choose|j: int| 0 <= j < init.len() && #[trigger] init[j].id == id;
                assert(bs[j].id == id);
            }
        }
        lemma_without_absent_id(init, id);
        assert(bs[bs.len() - 1].id != id);
        assert(init.push(bs.last()) =~= bs);
    }
}

/// Removing an ID keeps exactly the bindings with another ID.
pub proof fn lemma_without_id_keeps_others(bs: Seq<BindingView>, id: Seq<char>)
    ensures
        forall|b: BindingView| #[trigger] without_id(bs, id).contains(b) <==> bs.contains(b) && b.id != id,
        !id_taken(without_id(bs, id), id),
    decreases bs.len(),
{
    broadcast use vstd::seq_lib::group_seq_properties;

    if bs.len() > 0 {
        let init = bs.drop_last();
        lemma_without_id_keeps_others(init, id);
        assert(init.push(bs.last()) =~= bs);
        assert forall|b: BindingView| #[trigger] without_id(bs, id).contains(b) <==> bs.contains(b) && b.id != id by {
            assert(bs.contains(b) <==> init.contains(b) || b == bs.last());
        }
    }
    let r = without_id(bs, id);
    if id_taken(r, id) {
        let j = choose|j: int| 0 <= j < r.len() && #[trigger] r[j].id == id;
        assert(r.contains(r[j]));
    }
}

/// Removing a binding undoes adding it: a binding added under an ID that
/// no binding had, then removed by that ID, leaves the bindings as before.
pub proof fn lemma_remove_undoes_add(bs: Seq<BindingView>, id: Seq<char>, keys: Seq<Seq<char>>, action: ActionView)
    requires
        !id_taken(bs, id),
    ensures
        without_id(bs.push(new_binding(id, keys, action)), id) == bs,
{
    let added = bs.push(new_binding(id, keys, action));
    assert(added.drop_last() =~= bs);
    lemma_without_absent_id(bs, id);
}

/// An error response.
pub open spec fn error_view(code: Seq<char>, details: Seq<char>) -> ResponseView {
    ResponseView::Error { code, details, request_id: None }
}

/// A test-result response.
pub open spec fn test_view(success: bool, message: Seq<char>) -> ResponseView {
    ResponseView::TestResult { success, message, request_id: None }
}

/// A status response.
pub open spec fn status_view(running: bool, pid: u32, version: Seq<char>) -> ResponseView {
    ResponseView::DaemonStatus { running, pid, version, request_id: None }
}

/// A configuration-loaded response listing the bindings.
pub open spec fn loaded_view(bs: Seq<BindingView>) -> ResponseView {
    ResponseView::ConfigLoaded { keys: bindings_json(bs), request_id: None }
}

/// The step replies with `v`, carrying the correlation ID `rid`.
pub open spec fn replies(r: DaemonStep, v: ResponseView, rid: Option<String>) -> bool {
    match r {
        DaemonStep::Reply(m) => is_response_of(m, v.with_request_id(opt_view(rid))),
        DaemonStep::Persist { .. } => false,
    }
}

/// A step that replies to a request carries the request's correlation ID:
/// the reply is a response message whose ID is `rid`.
pub proof fn lemma_reply_carries_request_id(r: DaemonStep, v: ResponseView, rid: Option<String>)
    requires
        replies(r, v, rid),
    ensures
        r matches DaemonStep::Reply(IpcMessage::Response { inner, .. }) && inner@.correlation_id() == opt_view(rid),
{
    lemma_with_request_id_sets_id(v, opt_view(rid));
}

/// The outcome of an adapter call, as values.
pub open spec fn outcome(r: Result<(), Error>) -> Result<(), ErrorView> {
    match r {
        Ok(()) => Ok(()),
        Err(e) => Err(e@),
    }
}

/// The outcome of an adapter call that may not have been made.
pub open spec fn opt_outcome(r: Option<Result<(), Error>>) -> Option<Result<(), ErrorView>> {
    match r {
        Some(x) => Some(outcome(x)),
        None => None,
    }
}

/// The view of an optional response.
pub open spec fn opt_response(r: Option<IpcResponse>) -> Option<ResponseView> {
    match r {
        Some(x) => Some(x@),
        None => None,
    }
}

/// The calls of a start: init (when made), then start (when made).
pub open spec fn start_log(init: Option<Result<(), ErrorView>>, start: Option<Result<(), ErrorView>>) -> Seq<
    AdapterCall,
> {
    (match init {
        Some(x) => seq![AdapterCall::Init(x)],
        None => Seq::<AdapterCall>::empty(),
    }) + (match start {
        Some(x) => seq![AdapterCall::Start(x)],
        None => Seq::<AdapterCall>::empty(),
    })
}

/// The calls of a stop: stop (when made).
pub open spec fn stop_log(stop: Option<Result<(), ErrorView>>) -> Seq<AdapterCall> {
    match stop {
        Some(x) => seq![AdapterCall::Stop(x)],
        None => Seq::<AdapterCall>::empty(),
    }
}

/// The order of a start: init is called exactly when the adapter is not yet
/// initialized, and start exactly when init was not called or succeeded.
pub open spec fn start_order(
    initialized: bool,
    init: Option<Result<(), ErrorView>>,
    start: Option<Result<(), ErrorView>>,
) -> bool {
    &&& (init is Some <==> !initialized)
    &&& (start is Some <==> (init is None || init == Some(Ok::<(), ErrorView>(()))))
}

/// The error reply of a start: the failed init's error, or else the failed
/// start's error; none when the adapter started.
pub open spec fn start_failure(init: Option<Result<(), ErrorView>>, start: Option<Result<(), ErrorView>>) -> Option<
    ResponseView,
> {
    match init {
        Some(Err(e)) => Some(error_view("ADAPTER_INIT_ERROR"@, e.message())),
        _ => match start {
            Some(Err(e)) => Some(error_view("ADAPTER_START_ERROR"@, e.message())),
            _ => None,
        },
    }
}

/// The error reply of a stop: the failed stop's error; none when the stop
/// succeeded or there was no adapter to stop.
pub open spec fn stop_failure(stop: Option<Result<(), ErrorView>>) -> Option<ResponseView> {
    match stop {
        Some(Err(e)) => Some(error_view("ADAPTER_STOP_ERROR"@, e.message())),
        _ => None,
    }
}

/// The calls of a restart: the configuration is handed over, then stop,
/// init (when made) and start (when made).
pub open spec fn restart_log(
    config: ConfigView,
    stop: Result<(), ErrorView>,
    init: Option<Result<(), ErrorView>>,
    start: Option<Result<(), ErrorView>>,
) -> Seq<AdapterCall> {
    seq![AdapterCall::SetConfig(config), AdapterCall::Stop(stop)] + start_log(init, start)
}

/// The order of a restart: init only after a successful stop, start only
/// after a successful init.
pub open spec fn restart_order(
    stop: Result<(), ErrorView>,
    init: Option<Result<(), ErrorView>>,
    start: Option<Result<(), ErrorView>>,
) -> bool {
    &&& (init is Some <==> stop is Ok)
    &&& (start is Some <==> init == Some(Ok::<(), ErrorView>(())))
}

/// A restart succeeded: stop, init and start all succeeded.
pub open spec fn restart_ok(
    stop: Result<(), ErrorView>,
    init: Option<Result<(), ErrorView>>,
    start: Option<Result<(), ErrorView>>,
) -> bool {
    stop is Ok && init == Some(Ok::<(), ErrorView>(())) && start == Some(Ok::<(), ErrorView>(()))
}

/// `after` is `before` followed by `added`.
pub open spec fn logged(before: Seq<AdapterCall>, after: Seq<AdapterCall>, added: Seq<AdapterCall>) -> bool {
    after == before + added
}

/// Between `before` and `after` the adapter was restarted with `config`,
/// and `initialized` records whether the restart succeeded.
pub open spec fn restarted(before: Seq<AdapterCall>, after: Seq<AdapterCall>, config: ConfigView, initialized: bool) -> bool {
    exists|s: Result<(), ErrorView>, i: Option<Result<(), ErrorView>>, t: Option<Result<(), ErrorView>>|
        restart_order(s, i, t) && logged(before, after, #[trigger] restart_log(config, s, i, t)) && initialized
            == restart_ok(s, i, t)
}

/// The error reply of a start, from the outcomes of its calls.
pub fn start_failure_reply(init: Option<Result<(), Error>>, start: Option<Result<(), Error>>) -> (r: Option<IpcResponse>)
    ensures
        opt_response(r) == start_failure(opt_outcome(init), opt_outcome(start)),
{
    match init {
        Some(Err(e)) => Some(error_response("ADAPTER_INIT_ERROR", e.to_string())),
        _ => match start {
            Some(Err(e)) => Some(error_response("ADAPTER_START_ERROR", e.to_string())),
            _ => None,
        },
    }
}

/// The error reply of a stop, from the outcome of its call.
pub fn stop_failure_reply(stop: Option<Result<(), Error>>) -> (r: Option<IpcResponse>)
    ensures
        opt_response(r) == stop_failure(opt_outcome(stop)),
{
    match stop {
        Some(Err(e)) => Some(error_response("ADAPTER_STOP_ERROR", e.to_string())),
        _ => None,
    }
}

/// Whether a restart succeeded, from the outcomes of its calls.
pub fn restart_verdict(stop: &Result<(), Error>, init: &Option<Result<(), Error>>, start: &Option<Result<(), Error>>) -> (ok:
    bool)
    ensures
        ok == restart_ok(outcome(*stop), opt_outcome(*init), opt_outcome(*start)),
{
    stop.is_ok() && matches!(init, Some(Ok(()))) && matches!(start, Some(Ok(())))
}

/// Calls `stop` on the adapter and records the call.
fn call_stop(a: &mut Box<dyn OsAdapter>, calls: &mut Ghost<Seq<AdapterCall>>) -> (r: Result<(), Error>)
    ensures
        final(calls)@ == old(calls)@.push(AdapterCall::Stop(outcome(r))),
{
    let r = a.stop();
    *calls = Ghost(calls@.push(AdapterCall::Stop(outcome(r))));
    r
}

/// Calls `init` on the adapter and records the call.
fn call_init(a: &mut Box<dyn OsAdapter>, calls: &mut Ghost<Seq<AdapterCall>>) -> (r: Result<(), Error>)
    ensures
        final(calls)@ == old(calls)@.push(AdapterCall::Init(outcome(r))),
{
    let r = a.init();
    *calls = Ghost(calls@.push(AdapterCall::Init(outcome(r))));
    r
}

/// Calls `start` on the adapter and records the call.
fn call_start(a: &mut Box<dyn OsAdapter>, calls: &mut Ghost<Seq<AdapterCall>>) -> (r: Result<(), Error>)
    ensures
        final(calls)@ == old(calls)@.push(AdapterCall::Start(outcome(r))),
{
    let r = a.start();
    *calls = Ghost(calls@.push(AdapterCall::Start(outcome(r))));
    r
}

/// Hands a configuration to the adapter and records the call.
fn call_set_config(a: &mut Box<dyn OsAdapter>, config: &Config, calls: &mut Ghost<Seq<AdapterCall>>)
    ensures
        final(calls)@ == old(calls)@.push(AdapterCall::SetConfig(config@)),
{
    a.set_config(config);
    *calls = Ghost(calls@.push(AdapterCall::SetConfig(config@)));
}

impl DaemonState {
    /// The daemon's state apart from the adapter's internals and the record
    /// of adapter calls.
    pub open spec fn same_as(self, other: DaemonState) -> bool {
        &&& self.running == other.running
        &&& self.initialized == other.initialized
        &&& self.config@ == other.config@
        &&& self.auth_secret@ == other.auth_secret@
        &&& (self.adapter is Some) == (other.adapter is Some)
    }

    /// The state with a new configuration: the running flag, the secret and
    /// the adapter's presence stay.
    pub open spec fn reloaded_from(self, old: DaemonState, config: ConfigView) -> bool {
        &&& self.running == old.running
        &&& self.config@ == config
        &&& self.auth_secret@ == old.auth_secret@
        &&& (self.adapter is Some) == (old.adapter is Some)
    }

    /// The adapter, if there is one, was restarted with `config` (the
    /// initialized flag recording whether that succeeded); without one,
    /// nothing was called and the initialized flag stays.
    pub open spec fn restarted_from(self, old: DaemonState, config: ConfigView) -> bool {
        if old.adapter is Some {
            restarted(old.adapter_calls@, self.adapter_calls@, config, self.initialized)
        } else {
            &&& self.adapter_calls@ == old.adapter_calls@
            &&& self.initialized == old.initialized
        }
    }

    /// Hands the current configuration to the adapter and restarts it
    /// (stop, init, start, each only after the previous succeeded); records
    /// in the initialized flag, and returns, whether all three succeeded.
    /// Without an adapter there is nothing to restart: the flag stays and the
    /// result is `true`.
    fn reinit_adapter(&mut self) -> (ok: bool)
        ensures
            final(self).reloaded_from(*old(self), old(self).config@),
            final(self).restarted_from(*old(self), old(self).config@),
            old(self).adapter is None ==> ok,
            old(self).adapter is Some ==> final(self).initialized == ok,
    {
        match self.adapter.take() {
            Some(mut a) => {
                let ghost before = self.adapter_calls@;
                call_set_config(&mut a, &self.config, &mut self.adapter_calls);
                let stop = call_stop(&mut a, &mut self.adapter_calls);
                let init = if stop.is_ok() {
                    Some(call_init(&mut a, &mut self.adapter_calls))
                } else {
                    None
                };
                let start = if matches!(init, Some(Ok(()))) {
                    Some(call_start(&mut a, &mut self.adapter_calls))
                } else {
                    None
                };
                let ok = restart_verdict(&stop, &init, &start);
                self.adapter = Some(a);
                self.initialized = ok;
                proof {
                    let (s, i, t) = (outcome(stop), opt_outcome(init), opt_outcome(start));
                    match (i, t) {
                        (Some(x), Some(y)) => {
                            assert(start_log(i, t) =~= seq![AdapterCall::Init(x), AdapterCall::Start(y)]);
                        },
                        (Some(x), None) => {
                            assert(start_log(i, t) =~= seq![AdapterCall::Init(x)]);
                        },
                        (None, Some(y)) => {
                            assert(start_log(i, t) =~= seq![AdapterCall::Start(y)]);
                        },
                        (None, None) => {
                            assert(start_log(i, t) =~= Seq::<AdapterCall>::empty());
                        },
                    }
                    assert(self.adapter_calls@ =~= before + restart_log(self.config@, s, i, t));
                    assert(restart_order(s, i, t));
                }
                ok
            },
            None => true,
        }
    }

    /// The response listing the current bindings, as a reply.
    fn loaded_reply(&self, request_id: Option<String>) -> (r: DaemonStep)
        ensures
            replies(r, loaded_view(self.config@.keybindings), request_id),
    {
        let keys = bindings_to_json(&self.config.keybindings);
        DaemonStep::Reply(IpcMessage::response(IpcResponse::ConfigLoaded { keys, request_id: None }.with_request_id(request_id)))
    }

    /// What a start request does: nothing while running; without an
    /// adapter, the running flag is set; with one, init (when not yet
    /// initialized) and start are called in turn, and the first failure is
    /// reported with its error and leaves the flags, or else the daemon runs
    /// initialized and reports its status.
    pub open spec fn start_done(
        self,
        old: DaemonState,
        r: DaemonStep,
        rid: Option<String>,
        pid: u32,
        version: Seq<char>,
    ) -> bool {
        if old.running {
            &&& replies(r, test_view(false, "Daemon is already running"@), rid)
            &&& self == old
        } else if old.adapter is None {
            &&& replies(r, test_view(true, "Daemon started (no adapter available)"@), rid)
            &&& self.running
            &&& self.initialized == old.initialized
            &&& self.config@ == old.config@
            &&& self.auth_secret@ == old.auth_secret@
            &&& self.adapter is None
            &&& self.adapter_calls@ == old.adapter_calls@
        } else {
            exists|i: Option<Result<(), ErrorView>>, s: Option<Result<(), ErrorView>>|
                {
                    &&& start_order(old.initialized, i, s)
                    &&& logged(old.adapter_calls@, self.adapter_calls@, #[trigger] start_log(i, s))
                    &&& match start_failure(i, s) {
                        Some(v) => replies(r, v, rid) && self.same_as(old),
                        None => {
                            &&& replies(r, status_view(true, pid, version), rid)
                            &&& self.running
                            &&& self.initialized
                            &&& self.config@ == old.config@
                            &&& self.auth_secret@ == old.auth_secret@
                            &&& self.adapter is Some
                        },
                    }
                }
        }
    }

    /// What a stop request does: the adapter, if any, is stopped; a failed
    /// stop is reported with its error and leaves the flags, or else the
    /// running and initialized flags are cleared.
    pub open spec fn stop_done(self, old: DaemonState, r: DaemonStep, rid: Option<String>) -> bool {
        exists|o: Option<Result<(), ErrorView>>|
            {
                &&& (o is Some <==> old.adapter is Some)
                &&& logged(old.adapter_calls@, self.adapter_calls@, #[trigger] stop_log(o))
                &&& match stop_failure(o) {
                    Some(v) => replies(r, v, rid) && self.same_as(old),
                    None => {
                        &&& replies(r, test_view(true, "Daemon stopping"@), rid)
                        &&& !self.running
                        &&& !self.initialized
                        &&& self.config@ == old.config@
                        &&& self.auth_secret@ == old.auth_secret@
                        &&& (self.adapter is Some) == (old.adapter is Some)
                    },
                }
            }
    }

    /// What replacing the configuration with `c` does: a system command
    /// that fails the allowlist check is reported and changes nothing;
    /// otherwise the configuration is replaced and listed, and a running
    /// daemon's adapter is restarted with it.
    pub open spec fn config_set(self, old: DaemonState, c: ConfigView, r: DaemonStep, rid: Option<String>) -> bool {
        match first_command_failure(c.keybindings, 0) {
            Some((id, m)) => {
                &&& replies(r, error_view("COMMAND_VALIDATION_ERROR"@, "Binding '"@ + id + "': "@ + m), rid)
                &&& self == old
            },
            None => {
                &&& replies(r, loaded_view(c.keybindings), rid)
                &&& self.reloaded_from(old, c)
                &&& if old.running {
                    self.restarted_from(old, c)
                } else {
                    &&& self.adapter_calls@ == old.adapter_calls@
                    &&& self.initialized == old.initialized
                }
            },
        }
    }

    /// Decides on a request. Replies directly, or asks for the configuration
    /// to be written to disk first (add and remove requests that change it).
    pub fn process_request(&mut self, req: DaemonRequest, request_id: Option<String>, pid: u32, version: &str) -> (r: DaemonStep)
        ensures
            match req {
                DaemonRequest::TestShortcut { keys } => {
                    &&& replies(r, test_view(all_parse(keys.deep_view()), test_message(keys.deep_view())), request_id)
                    &&& *final(self) == *old(self)
                },
                DaemonRequest::GetStatus => {
                    &&& replies(r, status_view(old(self).running, pid, version@), request_id)
                    &&& *final(self) == *old(self)
                },
                DaemonRequest::StartDaemon => final(self).start_done(*old(self), r, request_id, pid, version@),
                DaemonRequest::StopDaemon => final(self).stop_done(*old(self), r, request_id),
                DaemonRequest::SetConfig { config } => match config {
                    Err(e) => {
                        &&& replies(r, error_view("CONFIG_PARSE_ERROR"@, e@), request_id)
                        &&& *final(self) == *old(self)
                    },
                    Ok(c) => final(self).config_set(*old(self), c@, r, request_id),
                },
                DaemonRequest::ReloadConfig { loaded } => match loaded {
                    Err(e) => {
                        &&& replies(r, error_view("RELOAD_ERROR"@, e@), request_id)
                        &&& *final(self) == *old(self)
                    },
                    Ok(c) => {
                        &&& replies(r, loaded_view(c@.keybindings), request_id)
                        &&& final(self).reloaded_from(*old(self), c@)
                        &&& final(self).restarted_from(*old(self), c@)
                    },
                },
                DaemonRequest::AddKeybinding { id, keys, action } => match action {
                    Err(e) => {
                        &&& replies(r, error_view("ACTION_PARSE_ERROR"@, e@), request_id)
                        &&& *final(self) == *old(self)
                    },
                    Ok(a) => final(self).binding_added(*old(self), id@, keys.deep_view(), a@, r, request_id),
                },
                DaemonRequest::RemoveKeybinding { id } => final(self).binding_removed(*old(self), id@, r, request_id),
                DaemonRequest::Unknown => {
                    &&& replies(r, error_view("UNKNOWN_REQUEST"@, "Unknown IPC request type received"@), request_id)
                    &&& *final(self) == *old(self)
                },
            },
    {
        match req {
            DaemonRequest::TestShortcut { keys } => {
                let (success, message) = test_shortcut(&keys);
                reply(IpcResponse::TestResult { success, message, request_id: None }, request_id)
            },
            DaemonRequest::GetStatus => {
                let v = String::from_str(version);
                reply(IpcResponse::DaemonStatus { running: self.running, pid, version: v, request_id: None }, request_id)
            },
            DaemonRequest::StartDaemon => self.start_daemon(request_id, pid, version),
            DaemonRequest::StopDaemon => self.stop_daemon(request_id),
            DaemonRequest::SetConfig { config } => match config {
                Err(e) => reply(error_response("CONFIG_PARSE_ERROR", e), request_id),
                Ok(c) => self.set_config(c, request_id),
            },
            DaemonRequest::ReloadConfig { loaded } => match loaded {
                Err(e) => reply(error_response("RELOAD_ERROR", e), request_id),
                Ok(c) => {
                    self.config = c;
                    self.reinit_adapter();
                    self.loaded_reply(request_id)
                },
            },
            DaemonRequest::AddKeybinding { id, keys, action } => match action {
                Err(e) => reply(error_response("ACTION_PARSE_ERROR", e), request_id),
                Ok(a) => self.add_keybinding(id, keys, a, request_id),
            },
            DaemonRequest::RemoveKeybinding { id } => self.remove_keybinding(id, request_id),
            DaemonRequest::Unknown => reply(
                error_response("UNKNOWN_REQUEST", String::from_str("Unknown IPC request type received")),
                request_id,
            ),
        }
    }

    /// Starts the daemon: initializes the adapter when not yet initialized,
    /// then starts it.
    fn start_daemon(&mut self, request_id: Option<String>, pid: u32, version: &str) -> (r: DaemonStep)
        ensures
            final(self).start_done(*old(self), r, request_id, pid, version@),
    {
        if self.running {
            return reply(
                IpcResponse::TestResult {
                    success: false,
                    message: String::from_str("Daemon is already running"),
                    request_id: None,
                },
                request_id,
            );
        }
        match self.adapter.take() {
            None => {
                self.running = true;
                reply(
                    IpcResponse::TestResult {
                        success: true,
                        message: String::from_str("Daemon started (no adapter available)"),
                        request_id: None,
                    },
                    request_id,
                )
            },
            Some(mut a) => {
                let ghost before = self.adapter_calls@;
                let init = if !self.initialized {
                    Some(call_init(&mut a, &mut self.adapter_calls))
                } else {
                    None
                };
                let start = if matches!(init, Some(Err(_))) {
                    None
                } else {
                    Some(call_start(&mut a, &mut self.adapter_calls))
                };
                self.adapter = Some(a);
                let ghost (i, s) = (opt_outcome(init), opt_outcome(start));
                proof {
                    match (i, s) {
                        (Some(x), Some(y)) => {
                            assert(start_log(i, s) =~= seq![AdapterCall::Init(x), AdapterCall::Start(y)]);
                        },
                        (Some(x), None) => {
                            assert(start_log(i, s) =~= seq![AdapterCall::Init(x)]);
                        },
                        (None, Some(y)) => {
                            assert(start_log(i, s) =~= seq![AdapterCall::Start(y)]);
                        },
                        (None, None) => {
                            assert(start_log(i, s) =~= Seq::<AdapterCall>::empty());
                        },
                    }
                }
                assert(self.adapter_calls@ =~= before + start_log(i, s));
                assert(start_order(old(self).initialized, i, s));
                match start_failure_reply(init, start) {
                    Some(resp) => reply(resp, request_id),
                    None => {
                        self.running = true;
                        self.initialized = true;
                        let v = String::from_str(version);
                        reply(IpcResponse::DaemonStatus { running: true, pid, version: v, request_id: None }, request_id)
                    },
                }
            },
        }
    }

    /// Stops the daemon: stops the adapter, then clears the running and
    /// initialized flags.
    fn stop_daemon(&mut self, request_id: Option<String>) -> (r: DaemonStep)
        ensures
            final(self).stop_done(*old(self), r, request_id),
    {
        let ghost before = self.adapter_calls@;
        let stop = match self.adapter.take() {
            Some(mut a) => {
                let res = call_stop(&mut a, &mut self.adapter_calls);
                self.adapter = Some(a);
                Some(res)
            },
            None => None,
        };
        let ghost o = opt_outcome(stop);
        assert(self.adapter_calls@ =~= before + stop_log(o));
        match stop_failure_reply(stop) {
            Some(resp) => reply(resp, request_id),
            None => {
                self.running = false;
                self.initialized = false;
                reply(
                    IpcResponse::TestResult {
                        success: true,
                        message: String::from_str("Daemon stopping"),
                        request_id: None,
                    },
                    request_id,
                )
            },
        }
    }

    /// Replaces the configuration after checking its system commands, and
    /// restarts the adapter when the daemon was running.
    fn set_config(&mut self, c: Config, request_id: Option<String>) -> (r: DaemonStep)
        ensures
            final(self).config_set(*old(self), c@, r, request_id),
    {
        match find_command_failure(&c.keybindings) {
            Some((i, e)) => {
                let mut d = String::from_str("Binding '");
                d.append(c.keybindings[i].id.as_str());
                d.append("': ");
                d.append(e.as_str());
                reply(error_response("COMMAND_VALIDATION_ERROR", d), request_id)
            },
            None => {
                let old_running = self.running;
                self.config = c;
                if old_running {
                    self.reinit_adapter();
                }
                self.loaded_reply(request_id)
            },
        }
    }

    /// What an add request with a decoded action does: a system command
    /// that fails the allowlist check, or an ID already in use, is reported
    /// and changes nothing; otherwise the binding is appended (the adapter
    /// left alone) and the configuration must be persisted.
    pub open spec fn binding_added(
        self,
        old: DaemonState,
        id: Seq<char>,
        keys: Seq<Seq<char>>,
        a: ActionView,
        r: DaemonStep,
        rid: Option<String>,
    ) -> bool {
        if command_failure(new_binding(id, keys, a)) is Some {
            &&& replies(r, error_view(
                "COMMAND_VALIDATION_ERROR"@,
                "New binding '"@ + id + "': "@ + command_failure(new_binding(id, keys, a))->0,
            ), rid)
            &&& self == old
        } else if id_taken(old.config@.keybindings, id) {
            &&& replies(r, error_view("DUPLICATE_ID"@, "Keybinding '"@ + id + "' already exists"@), rid)
            &&& self == old
        } else {
            &&& r == (DaemonStep::Persist { request_id: rid })
            &&& self.config@.keybindings == old.config@.keybindings.push(new_binding(id, keys, a))
            &&& self.config@.version == old.config@.version
            &&& self.config@.command == old.config@.command
            &&& self.running == old.running
            &&& self.initialized == old.initialized
            &&& self.auth_secret@ == old.auth_secret@
            &&& self.adapter == old.adapter
            &&& self.adapter_calls == old.adapter_calls
        }
    }

    /// What a remove request does: an unknown ID is reported and changes
    /// nothing; otherwise the bindings with the ID are dropped (the adapter
    /// left alone) and the configuration must be persisted.
    pub open spec fn binding_removed(self, old: DaemonState, id: Seq<char>, r: DaemonStep, rid: Option<String>) -> bool {
        if !id_taken(old.config@.keybindings, id) {
            &&& replies(r, error_view("NOT_FOUND"@, "Keybinding '"@ + id + "' not found"@), rid)
            &&& self == old
        } else {
            &&& r == (DaemonStep::Persist { request_id: rid })
            &&& self.config@.keybindings == without_id(old.config@.keybindings, id)
            &&& self.config@.version == old.config@.version
            &&& self.config@.command == old.config@.command
            &&& self.running == old.running
            &&& self.initialized == old.initialized
            &&& self.auth_secret@ == old.auth_secret@
            &&& self.adapter == old.adapter
            &&& self.adapter_calls == old.adapter_calls
        }
    }

    /// Adds a keybinding after checking its system command and the
    /// uniqueness of its ID; the configuration must then be persisted.
    fn add_keybinding(&mut self, id: String, keys: Vec<String>, a: Action, request_id: Option<String>) -> (r: DaemonStep)
        ensures
            final(self).binding_added(*old(self), id@, keys.deep_view(), a@, r, request_id),
    {
        match &a {
            Action::SystemCommand { command } => match validate_system_command(command.as_str()) {
                Err(e) => {
                    let mut d = String::from_str("New binding '");
                    d.append(id.as_str());
                    d.append("': ");
                    d.append(e.as_str());
                    return reply(error_response("COMMAND_VALIDATION_ERROR", d), request_id);
                },
                Ok(()) => {},
            },
            _ => {},
        }
        if has_binding_id(&self.config.keybindings, &id) {
            let mut d = String::from_str("Keybinding '");
            d.append(id.as_str());
            d.append("' already exists");
            return reply(error_response("DUPLICATE_ID", d), request_id);
        }
        let ghost old_bs = self.config.keybindings@;
        let b = KeyBinding { id, keys, action: a, overrides: None };
        self.config.keybindings.push(b);
        assert(self.config.keybindings@ =~= old_bs.push(b));
        assert(bindings_view(self.config.keybindings@) =~= bindings_view(old_bs).push(b@));
        DaemonStep::Persist { request_id }
    }

    /// Removes the keybindings with the given ID; the configuration must
    /// then be persisted.
    fn remove_keybinding(&mut self, id: String, request_id: Option<String>) -> (r: DaemonStep)
        ensures
            final(self).binding_removed(*old(self), id@, r, request_id),
    {
        if !has_binding_id(&self.config.keybindings, &id) {
            let mut d = String::from_str("Keybinding '");
            d.append(id.as_str());
            d.append("' not found");
            return reply(error_response("NOT_FOUND", d), request_id);
        }
        let mut bs: Vec<KeyBinding> = Vec::new();
        std::mem::swap(&mut bs, &mut self.config.keybindings);
        let kept = remove_bindings_with_id(bs, &id);
        self.config.keybindings = kept;
        DaemonStep::Persist { request_id }
    }

    /// Completes an add or remove request once the configuration was
    /// written: a save error is reported and changes nothing; on success the
    /// adapter is restarted with the new configuration and the bindings are
    /// listed.
    pub fn finish_persist(&mut self, saved: Result<(), String>, request_id: Option<String>) -> (r: IpcMessage)
        ensures
            match saved {
                Err(e) => {
                    &&& is_response_of(r, error_view("SAVE_ERROR"@, e@).with_request_id(opt_view(request_id)))
                    &&& *final(self) == *old(self)
                },
                Ok(()) => {
                    &&& is_response_of(r, loaded_view(old(self).config@.keybindings).with_request_id(opt_view(request_id)))
                    &&& final(self).reloaded_from(*old(self), old(self).config@)
                    &&& final(self).restarted_from(*old(self), old(self).config@)
                },
            },
    {
        match saved {
            Err(e) => {
                let resp = error_response("SAVE_ERROR", e).with_request_id(request_id);
                IpcMessage::response(resp)
            },
            Ok(()) => {
                let keys = bindings_to_json(&self.config.keybindings);
                self.reinit_adapter();
                IpcMessage::response(IpcResponse::ConfigLoaded { keys, request_id: None }.with_request_id(request_id))
            },
        }
    }
}


/// The response `resp` with the correlation ID, as a reply.
fn reply(resp: IpcResponse, request_id: Option<String>) -> (r: DaemonStep)
    ensures
        replies(r, resp@, request_id),
{
    DaemonStep::Reply(IpcMessage::response(resp.with_request_id(request_id)))
}

/// An error response.
fn error_response(code: &str, details: String) -> (r: IpcResponse)
    ensures
        r@ == error_view(code@, details@),
{
    IpcResponse::Error { code: String::from_str(code), details, request_id: None }
}

/// Whether some binding has the ID `id`.
pub fn has_binding_id(bs: &Vec<KeyBinding>, id: &String) -> (r: bool)
    ensures
        r == id_taken(bindings_view(bs@), id@),
{
    let ghost v = bindings_view(bs@);
    let mut j: usize = 0;
    while j < bs.len()
        invariant
            j <= bs.len(),
            v == bindings_view(bs@),
            forall|k: int| 0 <= k < j ==> #[trigger] v[k].id != id@,
        decreases bs.len() - j,
    {
        if bs[j].id == *id {
            assert(v[j as int].id == id@);
            return true;
        }
        j = j + 1;
    }
    false
}

/// The bindings whose ID is not `id`, in order.
pub fn remove_bindings_with_id(bs: Vec<KeyBinding>, id: &String) -> (r: Vec<KeyBinding>)
    ensures
        bindings_view(r@) == without_id(bindings_view(bs@), id@),
{
    let ghost v = bindings_view(bs@);
    let ghost all = bs@;
    let mut out: Vec<KeyBinding> = Vec::new();
    let mut bs = bs;
    let n = bs.len();
    let mut i: usize = 0;
    assert(v.take(0) =~= Seq::<BindingView>::empty());
    assert(bs@ =~= all.skip(0));
    while i < n
        invariant
            n == all.len(),
            i <= n,
            bs@ == all.skip(i as int),
            v == bindings_view(all),
            bindings_view(out@) == without_id(v.take(i as int), id@),
        decreases n - i,
    {
        let b = bs.remove(0);
        assert(b == all[i as int]);
        assert(bs@ =~= all.skip(i + 1));
        assert(v.take(i + 1).drop_last() =~= v.take(i as int));
        assert(v.take(i + 1).last() == b@);
        if b.id != *id {
            let ghost before = out@;
            out.push(b);
            assert(out@ =~= before.push(b));
            assert(bindings_view(out@) =~= bindings_view(before).push(b@));
        }
        i = i + 1;
    }
    assert(v.take(n as int) =~= v);
    out
}

/// The first binding whose system command fails the allowlist check: its
/// index and the check's message.
fn find_command_failure(bs: &Vec<KeyBinding>) -> (r: Option<(usize, String)>)
    ensures
        match r {
            Some((i, e)) => i < bs.len() && first_command_failure(bindings_view(bs@), 0) == Some(
                (bs@[i as int].id@, e@),
            ),
            None => first_command_failure(bindings_view(bs@), 0) is None,
        },
{
    let ghost v = bindings_view(bs@);
    let mut i: usize = 0;
    while i < bs.len()
        invariant
            i <= bs.len(),
            v == bindings_view(bs@),
            first_command_failure(v, 0) == first_command_failure(v, i as int),
        decreases bs.len() - i,
    {
        assert(v[i as int] == bs@[i as int]@);
        match &bs[i].action {
            Action::SystemCommand { command } => match validate_system_command(command.as_str()) {
                Err(e) => {
                    return Some((i, e));
                },
                Ok(()) => {},
            },
            _ => {},
        }
        i = i + 1;
    }
    None
}

/// The report lines of the first `n` keys joined with `"; "`, and whether
/// all of them parse.
fn test_shortcut(keys: &Vec<String>) -> (r: (bool, String))
    ensures
        r.0 == all_parse(keys.deep_view()),
        r.1@ == test_message(keys.deep_view()),
{
    let ghost kv = keys.deep_view();
    let ghost lines = kv.map_values(|k: Seq<char>| key_test_line(k));
    let mut all_ok = true;
    let mut joined = String::new();
    let mut i: usize = 0;
    assert(lines.take(0) =~= Seq::<Seq<char>>::empty());
    while i < keys.len()
        invariant
            i <= keys.len(),
            kv == keys.deep_view(),
            lines == kv.map_values(|k: Seq<char>| key_test_line(k)),
            all_ok == all_parse(kv.take(i as int)),
            joined@ == join_with(lines.take(i as int), "; "@),
        decreases keys.len() - i,
    {
        let ghost before = joined@;
        let line = match KeyStroke::parse(keys[i].as_str()) {
            Ok(stroke) => {
                let mut l = stroke.display();
                l.append(" → parsed OK");
                l
            },
            Err(e) => {
                all_ok = false;
                let mut l = keys[i].clone();
                l.append(" → ERROR: ");
                let m = e.to_string();
                l.append(m.as_str());
                l
            },
        };
        assert(line@ == lines[i as int]);
        if i > 0 {
            joined.append("; ");
        }
        joined.append(line.as_str());
        assert(lines.take(i + 1).drop_last() =~= lines.take(i as int));
        if i == 0 {
            assert(joined@ =~= lines[0]);
        }
        assert(joined@ =~= join_with(lines.take(i + 1), "; "@));
        assert(kv.take(i + 1) =~= kv.take(i as int).push(kv[i as int]));
        assert(all_ok == all_parse(kv.take(i + 1))) by {
            if all_parse(kv.take(i + 1)) {
                assert(spec_parse(kv.take(i + 1)[i as int]) is Ok);
            }
            if !all_parse(kv.take(i as int)) {
                let w = choose|w: int| 0 <= w < i && !(spec_parse(kv.take(i as int)[w]) is Ok);
                assert(kv.take(i + 1)[w] == kv.take(i as int)[w]);
            }
        }
        i = i + 1;
    }
    assert(kv.take(keys.len() as int) =~= kv);
    assert(lines.take(keys.len() as int) =~= lines);
    if all_ok {
        let mut m = String::from_str("All ");
        let n = decimal_string(keys.len() as u64);
        m.append(n.as_str());
        m.append(" key(s) parsed successfully.");
        (true, m)
    } else {
        (false, joined)
    }
}

} // verus!
