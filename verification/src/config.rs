//! The configuration data model: a version, global settings and the list of
//! key bindings, with per-platform key overrides.

use vstd::prelude::*;

use crate::actions::{command_check, copy_strings, validate_system_command, Action, ActionView};
use crate::keymap::{spec_parse, KeyStroke, StrokeView};
use crate::mapper::{ConfigKeyMapper, KeyMapper};
use crate::error::{Error, ErrorView};
use crate::keymap::{debug_str, spec_debug_str};
use crate::text::{chars_of, join_strings, join_with, trim, trim_chars};


use crate::os::OsPlatform;


verus! {

broadcast use vstd::string::group_string_axioms;

/// Top-level configuration.
#[derive(Debug, PartialEq, Eq)]
pub struct Config {
    /// Config file version (e.g. `"1.0"`).
    pub version: String,
    /// Global settings that apply to all key bindings.
    pub global: GlobalSettings,
    /// List of key bindings to install.
    pub keybindings: Vec<KeyBinding>,
}

/// Global settings shared across all bindings.
#[derive(Debug, Clone, Copy, PartialEq, Eq)]
pub struct GlobalSettings {
    /// Modifier key remapping configuration.
    pub modifier_map: ModifierMap,
}

/// How the command key is remapped.
#[derive(Debug, Clone, Copy, PartialEq, Eq, Structural)]
pub enum CommandFallback {
    /// Use Alt + Ctrl as a command-key fallback (Windows / Linux).
    AltCtrl,
    /// Use Alt alone as a command-key fallback.
    Alt,
}

/// Maps command key behavior to platform-specific alternatives.
#[derive(Debug, Clone, Copy, PartialEq, Eq)]
pub struct ModifierMap {
    /// How the command key should fall back on Windows / Linux.
    pub command: CommandFallback,
}

/// A single key binding: a unique ID, the key strokes that trigger it, the
/// action, and optional per-platform key overrides.
#[derive(Debug, PartialEq, Eq)]
pub struct KeyBinding {
    /// Unique identifier for this binding.
    pub id: String,
    /// Key stroke representations (e.g. `["Ctrl+V"]`).
    pub keys: Vec<String>,
    /// The action to perform when triggered.
    pub action: Action,
    /// Optional per-platform key override.
    pub overrides: Option<PlatformOverrides>,
}

/// Per-platform key binding overrides: where present, the platform's list
/// replaces the default keys on that platform.
#[derive(Debug, PartialEq, Eq)]
pub struct PlatformOverrides {
    /// macOS-specific key strokes.
    pub macos: Option<Vec<String>>,
    /// Windows-specific key strokes.
    pub windows: Option<Vec<String>>,
    /// Linux-specific key strokes.
    pub linux: Option<Vec<String>>,
}

/// [`PlatformOverrides`] as mathematical values.
pub struct OverridesView {
    pub macos: Option<Seq<Seq<char>>>,
    pub windows: Option<Seq<Seq<char>>>,
    pub linux: Option<Seq<Seq<char>>>,
}

/// [`KeyBinding`] as mathematical values.
pub struct BindingView {
    pub id: Seq<char>,
    pub keys: Seq<Seq<char>>,
    pub action: ActionView,
    pub overrides: Option<OverridesView>,
}

/// [`Config`] as mathematical values.
pub struct ConfigView {
    pub version: Seq<char>,
    pub command: CommandFallback,
    pub keybindings: Seq<BindingView>,
}

/// The view of an optional list of strings.
pub open spec fn opt_strings(o: Option<Vec<String>>) -> Option<Seq<Seq<char>>> {
    match o {
        Some(v) => Some(v.deep_view()),
        None => None,
    }
}

impl View for PlatformOverrides {
    type V = OverridesView;

    open spec fn view(&self) -> OverridesView {
        OverridesView {
            macos: opt_strings(self.macos),
            windows: opt_strings(self.windows),
            linux: opt_strings(self.linux),
        }
    }
}

impl View for KeyBinding {
    type V = BindingView;

    open spec fn view(&self) -> BindingView {
        BindingView {
            id: self.id@,
            keys: self.keys.deep_view(),
            action: self.action@,
            overrides: match self.overrides {
                Some(o) => Some(o@),
                None => None,
            },
        }
    }
}

/// The views of a list of bindings.
pub open spec fn bindings_view(bs: Seq<KeyBinding>) -> Seq<BindingView> {
    bs.map_values(|b: KeyBinding| b@)
}

impl View for Config {
    type V = ConfigView;

    open spec fn view(&self) -> ConfigView {
        ConfigView {
            version: self.version@,
            command: self.global.modifier_map.command,
            keybindings: bindings_view(self.keybindings@),
        }
    }
}

/// A copy of an optional list of strings.
fn copy_opt_strings(o: &Option<Vec<String>>) -> (r: Option<Vec<String>>)
    ensures
        opt_strings(r) == opt_strings(*o),
{
    match o {
        Some(v) => Some(copy_strings(v)),
        None => None,
    }
}

impl Clone for PlatformOverrides {
    fn clone(&self) -> (r: Self)
        ensures
            r@ == self@,
    {
        PlatformOverrides {
            macos: copy_opt_strings(&self.macos),
            windows: copy_opt_strings(&self.windows),
            linux: copy_opt_strings(&self.linux),
        }
    }
}

impl Clone for KeyBinding {
    fn clone(&self) -> (r: Self)
        ensures
            r@ == self@,
    {
        let overrides = match &self.overrides {
            Some(o) => Some(o.clone()),
            None => None,
        };
        KeyBinding {
            id: self.id.clone(),
            keys: copy_strings(&self.keys),
            action: self.action.clone(),
            overrides,
        }
    }
}

/// A copy of a list of bindings.
pub fn copy_bindings(bs: &Vec<KeyBinding>) -> (r: Vec<KeyBinding>)
    ensures
        bindings_view(r@) == bindings_view(bs@),
{
    let mut out: Vec<KeyBinding> = Vec::new();
    let mut i: usize = 0;
    while i < bs.len()
        invariant
            i <= bs.len(),
            bindings_view(out@) =~= bindings_view(bs@).take(i as int),
        decreases bs.len() - i,
    {
        let b = bs[i].clone();
        let ghost old_out = out@;
        out.push(b);
        assert(out@ =~= old_out.push(b));
        assert(bindings_view(out@) =~= bindings_view(old_out).push(b@));
        assert(bindings_view(bs@).take(i + 1) =~= bindings_view(bs@).take(i as int).push(bs@[i as int]@));
        i = i + 1;
    }
    assert(bindings_view(bs@).take(bs.len() as int) =~= bindings_view(bs@));
    out
}

impl Clone for Config {
    fn clone(&self) -> (r: Self)
        ensures
            r@ == self@,
    {
        Config {
            version: self.version.clone(),
            global: self.global,
            keybindings: copy_bindings(&self.keybindings),
        }
    }
}

impl Default for ModifierMap {
    fn default() -> (r: Self)
        ensures
            r.command == CommandFallback::AltCtrl,
    {
        ModifierMap { command: CommandFallback::AltCtrl }
    }
}

impl Default for GlobalSettings {
    fn default() -> (r: Self)
        ensures
            r.modifier_map.command == CommandFallback::AltCtrl,
    {
        GlobalSettings { modifier_map: ModifierMap::default() }
    }
}

impl Default for Config {
    fn default() -> (r: Self)
        ensures
            r@.version == "1.0"@,
            r@.command == CommandFallback::AltCtrl,
            r@.keybindings.len() == 0,
    {
        Config {
            version: String::from_str("1.0"),
            global: GlobalSettings::default(),
            keybindings: Vec::new(),
        }
    }
}

/// The keys a binding uses on a platform: the platform's override where one
/// is given, the binding's default keys otherwise.
pub open spec fn effective_keys_of(b: BindingView, p: OsPlatform) -> Seq<Seq<char>> {
    match b.overrides {
        None => b.keys,
        Some(o) => {
            let ov = match p {
                OsPlatform::Macos => o.macos,
                OsPlatform::Windows => o.windows,
                OsPlatform::Linux => o.linux,
            };
            match ov {
                Some(k) => k,
                None => b.keys,
            }
        },
    }
}

impl KeyBinding {
    /// The effective key strokes for the given platform.
    pub fn effective_keys(&self, platform: OsPlatform) -> (r: &[String])
        ensures
            r.deep_view() == effective_keys_of(self@, platform),
    {
        match &self.overrides {
            None => self.keys.as_slice(),
            Some(o) => {
                let ov = match platform {
                    OsPlatform::Macos => &o.macos,
                    OsPlatform::Windows => &o.windows,
                    OsPlatform::Linux => &o.linux,
                };
                match ov {
                    Some(k) => k.as_slice(),
                    None => self.keys.as_slice(),
                }
            },
        }
    }
}

/// Each platform reads its own override: on macOS the `macos` list, on
/// Windows the `windows` list, on Linux the `linux` list, whenever that list
/// is given; without it (or without overrides) the binding's own keys.
pub proof fn lemma_effective_keys_per_platform(b: BindingView)
    ensures
        effective_keys_of(b, OsPlatform::Macos) == (if b.overrides is Some && b.overrides->0.macos is Some {
            b.overrides->0.macos->0
        } else {
            b.keys
        }),
        effective_keys_of(b, OsPlatform::Windows) == (if b.overrides is Some && b.overrides->0.windows is Some {
            b.overrides->0.windows->0
        } else {
            b.keys
        }),
        effective_keys_of(b, OsPlatform::Linux) == (if b.overrides is Some && b.overrides->0.linux is Some {
            b.overrides->0.linux->0
        } else {
            b.keys
        }),
{
}

/// A key string that is empty once trimmed.
pub open spec fn blank(k: Seq<char>) -> bool {
    trim(k).len() == 0
}

/// One copy of `msg` for each blank key of `keys`, in order.
pub open spec fn blank_key_errors(keys: Seq<Seq<char>>, msg: Seq<char>) -> Seq<Seq<char>>
    decreases keys.len(),
{
    if keys.len() == 0 {
        Seq::<Seq<char>>::empty()
    } else {
        blank_key_errors(keys.drop_last(), msg) + if blank(keys.last()) {
            seq![msg]
        } else {
            Seq::<Seq<char>>::empty()
        }
    }
}

/// [`blank_key_errors`] for an override list that may be absent.
pub open spec fn override_errors(o: Option<Seq<Seq<char>>>, msg: Seq<char>) -> Seq<Seq<char>> {
    match o {
        Some(k) => blank_key_errors(k, msg),
        None => Seq::<Seq<char>>::empty(),
    }
}

/// An earlier binding than `bs[i]` has the same ID.
pub open spec fn id_taken_before(bs: Seq<BindingView>, i: int) -> bool {
    exists|j: int| 0 <= j < i && #[trigger] bs[j].id == bs[i].id
}

/// `pre`, the binding's ID, then `post`.
pub open spec fn about(pre: Seq<char>, id: Seq<char>, post: Seq<char>) -> Seq<char> {
    pre + id + post
}

/// The message for a duplicate ID, if `bs[i]` repeats an earlier ID.
pub open spec fn duplicate_errors(bs: Seq<BindingView>, i: int) -> Seq<Seq<char>> {
    if id_taken_before(bs, i) {
        seq!["duplicate binding ID: "@ + bs[i].id]
    } else {
        Seq::<Seq<char>>::empty()
    }
}

/// The message for a binding without keys.
pub open spec fn no_key_errors(b: BindingView) -> Seq<Seq<char>> {
    if b.keys.len() == 0 {
        seq![about("binding '"@, b.id, "' has no keys defined"@)]
    } else {
        Seq::<Seq<char>>::empty()
    }
}

/// The messages for blank override keys: macOS, then Windows, then Linux.
pub open spec fn overrides_errors(b: BindingView) -> Seq<Seq<char>> {
    match b.overrides {
        Some(o) => override_errors(
            o.macos,
            about("binding '"@, b.id, "' has an empty macOS override key string"@),
        ) + override_errors(
            o.windows,
            about("binding '"@, b.id, "' has an empty Windows override key string"@),
        ) + override_errors(
            o.linux,
            about("binding '"@, b.id, "' has an empty Linux override key string"@),
        ),
        None => Seq::<Seq<char>>::empty(),
    }
}

/// The message for a system command that the allowlist check rejects.
pub open spec fn command_errors(b: BindingView) -> Seq<Seq<char>> {
    match b.action {
        ActionView::SystemCommand { command } => match command_check(command) {
            Some(e) => seq![about("Binding '"@, b.id, "' has invalid system command: "@) + e],
            None => Seq::<Seq<char>>::empty(),
        },
        _ => Seq::<Seq<char>>::empty(),
    }
}

/// The validation messages for the binding `bs[i]`, in the order they are
/// checked: duplicate ID, no keys, blank keys, blank macOS, Windows and
/// Linux override keys, rejected system command.
pub open spec fn binding_errors(bs: Seq<BindingView>, i: int) -> Seq<Seq<char>> {
    duplicate_errors(bs, i) + no_key_errors(bs[i]) + blank_key_errors(
        bs[i].keys,
        about("binding '"@, bs[i].id, "' has an empty key string"@),
    ) + overrides_errors(bs[i]) + command_errors(bs[i])
}

/// The validation messages for the first `n` bindings of `bs`.
pub open spec fn errors_upto(bs: Seq<BindingView>, n: int) -> Seq<Seq<char>>
    decreases n,
{
    if n <= 0 {
        Seq::<Seq<char>>::empty()
    } else {
        errors_upto(bs, n - 1) + binding_errors(bs, n - 1)
    }
}

/// All validation messages for a list of bindings; none means valid.
pub open spec fn validation_errors(bs: Seq<BindingView>) -> Seq<Seq<char>> {
    errors_upto(bs, bs.len() as int)
}

/// None of the key strings is blank.
pub open spec fn no_blank(keys: Seq<Seq<char>>) -> bool {
    forall|j: int| 0 <= j < keys.len() ==> !blank(#[trigger] keys[j])
}

/// An override list, where present, holds no blank key string.
pub open spec fn no_blank_override(o: Option<Seq<Seq<char>>>) -> bool {
    match o {
        Some(k) => no_blank(k),
        None => true,
    }
}

/// The binding `bs[i]` passes validation: no earlier binding has its ID, it
/// has keys, none of its keys or override keys is blank, and its system
/// command, if it runs one, passes the allowlist check.
pub open spec fn binding_valid(bs: Seq<BindingView>, i: int) -> bool {
    &&& !id_taken_before(bs, i)
    &&& bs[i].keys.len() > 0
    &&& no_blank(bs[i].keys)
    &&& match bs[i].overrides {
        Some(o) => no_blank_override(o.macos) && no_blank_override(o.windows) && no_blank_override(o.linux),
        None => true,
    }
    &&& match bs[i].action {
        ActionView::SystemCommand { command } => command_check(command) is None,
        _ => true,
    }
}

/// No message for blank keys comes exactly when no key is blank.
proof fn lemma_blank_key_errors_empty(keys: Seq<Seq<char>>, msg: Seq<char>)
    ensures
        blank_key_errors(keys, msg).len() == 0 <==> no_blank(keys),
    decreases keys.len(),
{
    if keys.len() > 0 {
        let init = keys.drop_last();
        lemma_blank_key_errors_empty(init, msg);
        if no_blank(keys) {
            assert forall|j: int| 0 <= j < init.len() implies !blank(#[trigger] init[j]) by {
                assert(init[j] == keys[j]);
            }
            assert(!blank(keys[keys.len() - 1]));
        }
        if blank_key_errors(keys, msg).len() == 0 {
            assert forall|j: int| 0 <= j < keys.len() implies !blank(#[trigger] keys[j]) by {
                if j < init.len() {
                    assert(init[j] == keys[j]);
                }
            }
        }
    }
}

/// A binding yields no message exactly when it passes validation.
proof fn lemma_binding_errors_empty(bs: Seq<BindingView>, i: int)
    requires
        0 <= i < bs.len(),
    ensures
        binding_errors(bs, i).len() == 0 <==> binding_valid(bs, i),
{
    let b = bs[i];
    lemma_blank_key_errors_empty(b.keys, about("binding '"@, b.id, "' has an empty key string"@));
    match b.overrides {
        Some(o) => {
            match o.macos {
                Some(k) => lemma_blank_key_errors_empty(
                    k,
                    about("binding '"@, b.id, "' has an empty macOS override key string"@),
                ),
                None => {},
            }
            match o.windows {
                Some(k) => lemma_blank_key_errors_empty(
                    k,
                    about("binding '"@, b.id, "' has an empty Windows override key string"@),
                ),
                None => {},
            }
            match o.linux {
                Some(k) => lemma_blank_key_errors_empty(
                    k,
                    about("binding '"@, b.id, "' has an empty Linux override key string"@),
                ),
                None => {},
            }
        },
        None => {},
    }
}

/// The first `n` bindings yield no message exactly when each passes.
proof fn lemma_errors_upto_empty(bs: Seq<BindingView>, n: int)
    requires
        0 <= n <= bs.len(),
    ensures
        errors_upto(bs, n).len() == 0 <==> forall|i: int| 0 <= i < n ==> #[trigger] binding_valid(bs, i),
    decreases n,
{
    if n > 0 {
        lemma_errors_upto_empty(bs, n - 1);
        lemma_binding_errors_empty(bs, n - 1);
    }
}

/// A configuration validates (its list of messages is empty) exactly when
/// every binding passes: IDs are unique, every binding has keys, no key or
/// override key is blank, and every system command passes the allowlist
/// check.
pub proof fn lemma_valid_iff(bs: Seq<BindingView>)
    ensures
        validation_errors(bs).len() == 0 <==> forall|i: int| 0 <= i < bs.len() ==> #[trigger] binding_valid(bs, i),
{
    lemma_errors_upto_empty(bs, bs.len() as int);
}

/// Two bindings with the same ID make a configuration fail validation.
pub proof fn lemma_duplicate_id_invalid(bs: Seq<BindingView>, i: int, j: int)
    requires
        0 <= i < j < bs.len(),
        bs[i].id == bs[j].id,
    ensures
        validation_errors(bs).len() > 0,
{
    lemma_valid_iff(bs);
    assert(id_taken_before(bs, j));
    assert(!binding_valid(bs, j));
}

/// The string `pre + id + post`.
fn about_id(pre: &str, id: &String, post: &str) -> (r: String)
    ensures
        r@ == about(pre@, id@, post@),
{
    let mut s = String::from_str(pre);
    s.append(id.as_str());
    s.append(post);
    s
}

/// Appends to `out` one copy of `msg` per blank key of `keys`.
fn push_blank_key_errors(keys: &Vec<String>, msg: &String, out: &mut Vec<String>)
    ensures
        final(out).deep_view() == old(out).deep_view() + blank_key_errors(keys.deep_view(), msg@),
{
    let ghost start = out.deep_view();
    let mut i: usize = 0;
    while i < keys.len()
        invariant
            i <= keys.len(),
            out.deep_view() == start + blank_key_errors(keys.deep_view().take(i as int), msg@),
        decreases keys.len() - i,
    {
        let ghost before = out.deep_view();
        let cs = chars_of(keys[i].as_str());
        let t = trim_chars(&cs);
        assert(keys.deep_view().take(i + 1).drop_last() =~= keys.deep_view().take(i as int));
        assert(keys.deep_view().take(i + 1).last() == keys@[i as int]@);
        if t.len() == 0 {
            out.push(msg.clone());
            assert(out.deep_view() =~= before.push(msg@));
        }
        assert(out.deep_view() =~= start + blank_key_errors(keys.deep_view().take(i + 1), msg@));
        i = i + 1;
    }
    assert(keys.deep_view().take(keys.len() as int) =~= keys.deep_view());
}

/// [`push_blank_key_errors`] for an override list that may be absent.
fn push_override_errors(o: &Option<Vec<String>>, msg: &String, out: &mut Vec<String>)
    ensures
        final(out).deep_view() == old(out).deep_view() + override_errors(opt_strings(*o), msg@),
{
    match o {
        Some(k) => push_blank_key_errors(k, msg, out),
        None => {
            assert(out.deep_view() =~= out.deep_view() + Seq::<Seq<char>>::empty());
        },
    }
}

/// Whether an earlier binding than `bs[i]` has the same ID.
fn id_seen_before(bs: &Vec<KeyBinding>, i: usize) -> (r: bool)
    requires
        i < bs.len(),
    ensures
        r == id_taken_before(bindings_view(bs@), i as int),
{
    let ghost v = bindings_view(bs@);
    let mut j: usize = 0;
    while j < i
        invariant
            j <= i < bs.len(),
            v == bindings_view(bs@),
            forall|k: int| 0 <= k < j ==> v[k].id != v[i as int].id,
        decreases i - j,
    {
        if bs[j].id == bs[i].id {
            assert(v[j as int].id == v[i as int].id);
            return true;
        }
        j = j + 1;
    }
    false
}

/// Appends the duplicate-ID message of `bs[i]`, if any, to `out`.
fn push_duplicate_errors(bs: &Vec<KeyBinding>, i: usize, out: &mut Vec<String>)
    requires
        i < bs.len(),
    ensures
        final(out).deep_view() == old(out).deep_view() + duplicate_errors(bindings_view(bs@), i as int),
{
    let ghost before = out.deep_view();
    if id_seen_before(bs, i) {
        let mut m = String::from_str("duplicate binding ID: ");
        m.append(bs[i].id.as_str());
        out.push(m);
        assert(out.deep_view() =~= before.push(m@));
    } else {
        assert(out.deep_view() =~= before + Seq::<Seq<char>>::empty());
    }
}

/// Appends the no-keys message of `b`, if any, to `out`.
fn push_no_key_errors(b: &KeyBinding, out: &mut Vec<String>)
    ensures
        final(out).deep_view() == old(out).deep_view() + no_key_errors(b@),
{
    let ghost before = out.deep_view();
    if b.keys.len() == 0 {
        let m = about_id("binding '", &b.id, "' has no keys defined");
        out.push(m);
        assert(out.deep_view() =~= before.push(m@));
    } else {
        assert(out.deep_view() =~= before + Seq::<Seq<char>>::empty());
    }
}

/// Appends the blank-override-key messages of `b` to `out`.
fn push_overrides_errors(b: &KeyBinding, out: &mut Vec<String>)
    ensures
        final(out).deep_view() == old(out).deep_view() + overrides_errors(b@),
{
    let ghost before = out.deep_view();
    match &b.overrides {
        Some(o) => {
            let m1 = about_id("binding '", &b.id, "' has an empty macOS override key string");
            push_override_errors(&o.macos, &m1, out);
            let m2 = about_id("binding '", &b.id, "' has an empty Windows override key string");
            push_override_errors(&o.windows, &m2, out);
            let m3 = about_id("binding '", &b.id, "' has an empty Linux override key string");
            push_override_errors(&o.linux, &m3, out);
            assert(out.deep_view() =~= before + overrides_errors(b@));
        },
        None => {
            assert(out.deep_view() =~= before + Seq::<Seq<char>>::empty());
        },
    }
}

/// Appends the rejected-command message of `b`, if any, to `out`.
fn push_command_errors(b: &KeyBinding, out: &mut Vec<String>)
    ensures
        final(out).deep_view() == old(out).deep_view() + command_errors(b@),
{
    let ghost before = out.deep_view();
    match &b.action {
        Action::SystemCommand { command } => {
            match validate_system_command(command.as_str()) {
                Ok(()) => {
                    assert(out.deep_view() =~= before + Seq::<Seq<char>>::empty());
                },
                Err(e) => {
                    let mut m = about_id("Binding '", &b.id, "' has invalid system command: ");
                    m.append(e.as_str());
                    out.push(m);
                    assert(out.deep_view() =~= before.push(m@));
                },
            }
        },
        _ => {
            assert(out.deep_view() =~= before + Seq::<Seq<char>>::empty());
        },
    }
}

/// Appends the validation messages of the binding `bs[i]` to `out`.
fn push_binding_errors(bs: &Vec<KeyBinding>, i: usize, out: &mut Vec<String>)
    requires
        i < bs.len(),
    ensures
        final(out).deep_view() == old(out).deep_view() + binding_errors(bindings_view(bs@), i as int),
{
    let ghost start = out.deep_view();
    let ghost v = bindings_view(bs@);
    let b = &bs[i];
    assert(v[i as int] == b@);
    push_duplicate_errors(bs, i, out);
    push_no_key_errors(b, out);
    let m_blank = about_id("binding '", &b.id, "' has an empty key string");
    push_blank_key_errors(&b.keys, &m_blank, out);
    push_overrides_errors(b, out);
    push_command_errors(b, out);
    assert(out.deep_view() =~= start + binding_errors(v, i as int));
}

impl Config {
    /// Validates this configuration for common errors and returns the list
    /// of messages; an empty list means the configuration is valid.
    ///
    /// Checks duplicate binding IDs, empty key lists, blank key strings
    /// (default and per-platform override keys) and system commands with
    /// characters outside the allowlist.
    pub fn validate(&self) -> (r: Vec<String>)
        ensures
            r.deep_view() == validation_errors(self@.keybindings),
    {
        let mut errors: Vec<String> = Vec::new();
        let mut i: usize = 0;
        while i < self.keybindings.len()
            invariant
                i <= self.keybindings.len(),
                errors.deep_view() == errors_upto(bindings_view(self.keybindings@), i as int),
            decreases self.keybindings.len() - i,
        {
            push_binding_errors(&self.keybindings, i, &mut errors);
            i = i + 1;
        }
        errors
    }
}

/// The (key string, action) pairs of a binding on a platform, in key order.
pub open spec fn key_pairs(b: BindingView, p: OsPlatform) -> Seq<(Seq<char>, ActionView)> {
    effective_keys_of(b, p).map_values(|k: Seq<char>| (k, b.action))
}

/// The (key string, action) pairs of the first `n` bindings, in order.
pub open spec fn pairs_upto(bs: Seq<BindingView>, n: int, p: OsPlatform) -> Seq<(Seq<char>, ActionView)>
    decreases n,
{
    if n <= 0 {
        Seq::empty()
    } else {
        pairs_upto(bs, n - 1, p) + key_pairs(bs[n - 1], p)
    }
}

/// The stroke-to-action map that binding the pairs in order gives: each key
/// string that parses binds its stroke, later pairs replacing earlier ones;
/// key strings that do not parse are skipped.
pub open spec fn keymap_of(pairs: Seq<(Seq<char>, ActionView)>) -> Map<StrokeView, ActionView>
    decreases pairs.len(),
{
    if pairs.len() == 0 {
        Map::empty()
    } else {
        let prev = keymap_of(pairs.drop_last());
        match spec_parse(pairs.last().0) {
            Ok(k) => prev.insert(k, pairs.last().1),
            Err(_) => prev,
        }
    }
}

/// The stroke-to-action map of a list of bindings on a platform.
pub open spec fn keymap_for(bs: Seq<BindingView>, p: OsPlatform) -> Map<StrokeView, ActionView> {
    keymap_of(pairs_upto(bs, bs.len() as int, p))
}

impl Config {
    /// Builds the key mapper of this configuration for the given platform,
    /// from the effective keys (defaults and per-platform overrides) of all
    /// bindings; key strings that do not parse are skipped.
    pub fn build_keymapper(&self, platform: OsPlatform) -> (r: ConfigKeyMapper)
        ensures
            r.bound_actions() == keymap_for(self@.keybindings, platform),
    {
        let ghost bs = self@.keybindings;
        let mut m = ConfigKeyMapper::new();
        let mut i: usize = 0;
        while i < self.keybindings.len()
            invariant
                i <= self.keybindings.len(),
                bs == self@.keybindings,
                m.bound_actions() == keymap_of(pairs_upto(bs, i as int, platform)),
            decreases self.keybindings.len() - i,
        {
            let b = &self.keybindings[i];
            assert(bs[i as int] == b@);
            let keys = b.effective_keys(platform);
            let ghost base = pairs_upto(bs, i as int, platform);
            let ghost kp = key_pairs(b@, platform);
            let mut j: usize = 0;
            assert(base + kp.take(0) =~= base);
            while j < keys.len()
                invariant
                    j <= keys.len(),
                    keys.deep_view() == effective_keys_of(b@, platform),
                    kp == key_pairs(b@, platform),
                    m.bound_actions() == keymap_of(base + kp.take(j as int)),
                decreases keys.len() - j,
            {
                let ghost cur = base + kp.take(j as int);
                let ghost next = base + kp.take(j + 1);
                assert(next.drop_last() =~= cur);
                assert(next.last() == (keys@[j as int]@, b@.action));
                match KeyStroke::parse(keys[j].as_str()) {
                    Ok(stroke) => {
                        m.insert(stroke, b.action.clone());
                    },
                    Err(_) => {},
                }
                j = j + 1;
            }
            assert(kp.take(keys.len() as int) =~= kp);
            assert(pairs_upto(bs, i + 1, platform) == base + kp);
            i = i + 1;
        }
        m
    }
}

/// The pair `pairs[i]` binds `k`: its key string parses to `k`.
pub open spec fn binds(pairs: Seq<(Seq<char>, ActionView)>, i: int, k: StrokeView) -> bool {
    spec_parse(pairs[i].0) == Ok::<StrokeView, ErrorView>(k)
}

/// A stroke is bound exactly when some key string parses to it, and it is
/// bound to the action of the last such key string: later bindings replace
/// earlier ones.
pub proof fn lemma_keymap_lookup(pairs: Seq<(Seq<char>, ActionView)>, k: StrokeView)
    ensures
        keymap_of(pairs).contains_key(k) <==> exists|i: int| 0 <= i < pairs.len() && #[trigger] binds(pairs, i, k),
        forall|i: int|
            0 <= i < pairs.len() && #[trigger] binds(pairs, i, k) && (forall|j: int|
                i < j < pairs.len() ==> !#[trigger] binds(pairs, j, k)) ==> keymap_of(pairs)[k] == pairs[i].1,
    decreases pairs.len(),
{
    if pairs.len() > 0 {
        let init = pairs.drop_last();
        let n = pairs.len() - 1;
        lemma_keymap_lookup(init, k);
        assert forall|i: int| 0 <= i < init.len() implies #[trigger] binds(init, i, k) == binds(pairs, i, k) by {
            assert(init[i] == pairs[i]);
        }
        if exists|i: int| 0 <= i < pairs.len() && #[trigger] binds(pairs, i, k) {
            let i = choose|i: int| 0 <= i < pairs.len() && #[trigger] binds(pairs, i, k);
            if i < n {
                assert(binds(init, i, k));
            }
        }
        if keymap_of(pairs).contains_key(k) {
            if binds(pairs, n, k) {
            } else {
                assert(keymap_of(init).contains_key(k));
                let i = choose|i: int| 0 <= i < init.len() && #[trigger] binds(init, i, k);
                assert(binds(pairs, i, k));
            }
        }
        assert forall|i: int|
            0 <= i < pairs.len() && #[trigger] binds(pairs, i, k) && (forall|j: int|
                i < j < pairs.len() ==> !#[trigger] binds(pairs, j, k)) implies keymap_of(pairs)[k] == pairs[i].1 by {
            if i < n {
                assert(!binds(pairs, n, k));
                assert forall|j: int| i < j < init.len() implies !#[trigger] binds(init, j, k) by {
                    assert(!binds(pairs, j, k));
                }
                assert(binds(init, i, k));
            }
        }
    }
}

/// What loading a configuration gives once it was read and decoded: the
/// configuration when it validates, otherwise a parse error listing all
/// validation messages joined with `"; "`.
pub open spec fn loaded_config(c: ConfigView, path: Seq<char>) -> Result<ConfigView, ErrorView> {
    let errors = validation_errors(c.keybindings);
    if errors.len() == 0 {
        Ok(c)
    } else {
        Err(ErrorView::Parse("config validation failed for "@ + spec_debug_str(path) + ": "@ + join_with(errors, "; "@)))
    }
}

/// Accepts a configuration read from `path` if it validates.
pub fn check_loaded_config(config: Config, path: &str) -> (r: Result<Config, Error>)
    ensures
        match r {
            Ok(c) => loaded_config(config@, path@) == Ok::<ConfigView, ErrorView>(c@),
            Err(e) => loaded_config(config@, path@) == Err::<ConfigView, ErrorView>(e@),
        },
{
    let errors = config.validate();
    if errors.len() == 0 {
        return Ok(config);
    }
    let mut m = String::from_str("config validation failed for ");
    let d = debug_str(path);
    m.append(d.as_str());
    m.append(": ");
    let j = join_strings(&errors, "; ");
    m.append(j.as_str());
    Err(Error::Parse(m))
}

} // verus!
