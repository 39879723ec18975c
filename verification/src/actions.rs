//! Actions: what a key binding does when it fires, and the allowlist check
//! for system commands.

use vstd::prelude::*;

use crate::text::chars_of;

verus! {

broadcast use vstd::string::group_string_axioms;

/// An action to perform when a key binding fires.
#[derive(Debug, PartialEq, Eq)]
pub enum Action {
    /// Paste or type text.
    Paste { text: String },
    /// Launch an application.
    Launch { path: String },
    /// Remap one key to another.
    Remap { to: String },
    /// Trigger a sequence of key strokes, e.g. `["Alt+F4"]`.
    Shortcut { shortcut: Vec<String> },
    /// Execute a system/shell command.
    SystemCommand { command: String },
    /// Insert text at the current cursor position.
    TextInsert { text: String },
}

/// An [`Action`] as mathematical values.
pub enum ActionView {
    Paste { text: Seq<char> },
    Launch { path: Seq<char> },
    Remap { to: Seq<char> },
    Shortcut { shortcut: Seq<Seq<char>> },
    SystemCommand { command: Seq<char> },
    TextInsert { text: Seq<char> },
}

impl View for Action {
    type V = ActionView;

    open spec fn view(&self) -> ActionView {
        match self {
            Action::Paste { text } => ActionView::Paste { text: text@ },
            Action::Launch { path } => ActionView::Launch { path: path@ },
            Action::Remap { to } => ActionView::Remap { to: to@ },
            Action::Shortcut { shortcut } => ActionView::Shortcut { shortcut: shortcut.deep_view() },
            Action::SystemCommand { command } => ActionView::SystemCommand { command: command@ },
            Action::TextInsert { text } => ActionView::TextInsert { text: text@ },
        }
    }
}

/// A copy of a list of strings.
pub fn copy_strings(v: &Vec<String>) -> (r: Vec<String>)
    ensures
        r.deep_view() == v.deep_view(),
{
    let mut out: Vec<String> = Vec::new();
    let mut i: usize = 0;
    while i < v.len()
        invariant
            i <= v.len(),
            out.deep_view() =~= v.deep_view().take(i as int),
        decreases v.len() - i,
    {
        let s = v[i].clone();
        let ghost old_dv = out.deep_view();
        out.push(s);
        assert(out.deep_view() =~= old_dv.push(s@));
        assert(v.deep_view().take(i + 1) =~= v.deep_view().take(i as int).push(v@[i as int]@));
        i = i + 1;
    }
    assert(v.deep_view().take(v.len() as int) =~= v.deep_view());
    out
}

impl Clone for Action {
    fn clone(&self) -> (r: Self)
        ensures
            r@ == self@,
    {
        match self {
            Action::Paste { text } => Action::Paste { text: text.clone() },
            Action::Launch { path } => Action::Launch { path: path.clone() },
            Action::Remap { to } => Action::Remap { to: to.clone() },
            Action::Shortcut { shortcut } => Action::Shortcut { shortcut: copy_strings(shortcut) },
            Action::SystemCommand { command } => Action::SystemCommand { command: command.clone() },
            Action::TextInsert { text } => Action::TextInsert { text: text.clone() },
        }
    }
}

impl ActionView {
    /// The short name of the action's variant.
    pub open spec fn variant_name(self) -> Seq<char> {
        match self {
            ActionView::Paste { .. } => "paste"@,
            ActionView::Launch { .. } => "launch"@,
            ActionView::Remap { .. } => "remap"@,
            ActionView::Shortcut { .. } => "shortcut"@,
            ActionView::SystemCommand { .. } => "system_command"@,
            ActionView::TextInsert { .. } => "text_insert"@,
        }
    }
}

impl Action {
    /// A short string identifying the action variant, e.g. `"paste"`.
    pub fn variant_name(&self) -> (r: &'static str)
        ensures
            r@ == self@.variant_name(),
    {
        match self {
            Action::Paste { .. } => "paste",
            Action::Launch { .. } => "launch",
            Action::Remap { .. } => "remap",
            Action::Shortcut { .. } => "shortcut",
            Action::SystemCommand { .. } => "system_command",
            Action::TextInsert { .. } => "text_insert",
        }
    }
}

/// The allowlist for system commands: ASCII letters and digits, space,
/// `/`, `-`, `_`, `.` and `,`.
pub open spec fn safe_cmd_char(c: char) -> bool {
    ||| ('a' <= c && c <= 'z')
    ||| ('A' <= c && c <= 'Z')
    ||| ('0' <= c && c <= '9')
    ||| c == ' '
    ||| c == '/'
    ||| c == '-'
    ||| c == '_'
    ||| c == '.'
    ||| c == ','
}

/// Whether `s` holds a character outside the allowlist.
pub open spec fn has_unsafe_char(s: Seq<char>) -> bool {
    exists|i: int| 0 <= i < s.len() && !safe_cmd_char(#[trigger] s[i])
}

/// `b` lists the distinct characters of `s` that are outside the allowlist,
/// each once, in increasing code-point order.
pub open spec fn lists_unsafe_chars(b: Seq<char>, s: Seq<char>) -> bool {
    &&& forall|i: int, j: int| 0 <= i < j < b.len() ==> b[i] < b[j]
    &&& forall|c: char| #[trigger] b.contains(c) <==> (s.contains(c) && !safe_cmd_char(c))
}

/// The prefix of the message for a command with unsafe characters.
pub open spec fn unsafe_command_prefix() -> Seq<char> {
    "Command contains potentially unsafe shell metacharacters: "@
}

/// What [`validate_system_command`] returns for a command, stated exactly:
/// `Ok` iff the command is non-empty and all its characters are on the
/// allowlist; otherwise the message for an empty command, or the prefix
/// followed by the sorted, distinct unsafe characters.
pub open spec fn validation_result_is(r: Result<(), String>, command: Seq<char>) -> bool {
    match r {
        Ok(()) => command.len() > 0 && !has_unsafe_char(command),
        Err(m) => if command.len() == 0 {
            m@ == "Empty command"@
        } else {
            &&& has_unsafe_char(command)
            &&& m@.len() >= unsafe_command_prefix().len()
            &&& m@.take(unsafe_command_prefix().len() as int) == unsafe_command_prefix()
            &&& lists_unsafe_chars(m@.skip(unsafe_command_prefix().len() as int), command)
        },
    }
}

/// The outcome of checking a system command: `None` when it is accepted,
/// otherwise the message that describes why it is rejected.
pub open spec fn command_check(s: Seq<char>) -> Option<Seq<char>> {
    if s.len() == 0 {
        Some("Empty command"@)
    } else if !has_unsafe_char(s) {
        None
    } else {
        Some(unsafe_command_prefix() + choose|b: Seq<char>| lists_unsafe_chars(b, s))
    }
}

/// A command that is not empty and holds only ASCII letters and digits,
/// spaces, `/`, `-`, `_`, `.` and `,` is accepted.
pub proof fn lemma_allowlisted_command_accepted(s: Seq<char>)
    requires
        s.len() > 0,
        forall|i: int|
            0 <= i < s.len() ==> {
                let c = #[trigger] s[i];
                ||| ('a' <= c && c <= 'z')
                ||| ('A' <= c && c <= 'Z')
                ||| ('0' <= c && c <= '9')
                ||| c == ' ' || c == '/' || c == '-' || c == '_' || c == '.' || c == ','
            },
    ensures
        command_check(s) is None,
{
    assert(!has_unsafe_char(s));
}

/// The shell metacharacters that the documentation of
/// [`validate_system_command`] names.
pub open spec fn shell_metachar(c: char) -> bool {
    ||| c == ';' || c == '|' || c == '&' || c == '$' || c == '`' || c == '(' || c == ')'
    ||| c == '<' || c == '>' || c == '\'' || c == '"' || c == '\\' || c == '!' || c == '#'
    ||| c == '*' || c == '?' || c == '[' || c == ']' || c == '^' || c == '~' || c == '%'
    ||| c == '{' || c == '}' || c == '=' || c == ':' || c == '@' || c == '+'
}

/// A command that holds a shell metacharacter is rejected, and the
/// rejection lists that character.
pub proof fn lemma_metachar_rejected(command: Seq<char>, i: int)
    requires
        0 <= i < command.len(),
        shell_metachar(command[i]),
    ensures
        command_check(command) is Some,
        forall|b: Seq<char>| lists_unsafe_chars(b, command) ==> #[trigger] b.contains(command[i]),
{
    assert(!safe_cmd_char(command[i]));
    assert(command.contains(command[i]));
}

/// Two strictly increasing sequences with the same elements are equal.
pub proof fn lemma_sorted_same_elements(a: Seq<char>, b: Seq<char>)
    requires
        forall|i: int, j: int| 0 <= i < j < a.len() ==> a[i] < a[j],
        forall|i: int, j: int| 0 <= i < j < b.len() ==> b[i] < b[j],
        forall|c: char| #[trigger] a.contains(c) <==> b.contains(c),
    ensures
        a == b,
    decreases a.len(),
{
    if a.len() == 0 {
        if b.len() > 0 {
            assert(b.contains(b[0]));
            assert(a.contains(b[0]));
        }
        assert(a =~= b);
    } else {
        assert(a.contains(a[0]));
        assert(b.contains(a[0]));
        assert(b.len() > 0);
        assert(b.contains(b[0]));
        assert(a.contains(b[0]));
        let j = choose|j: int| 0 <= j < b.len() && b[j] == a[0];
        let k = choose|k: int| 0 <= k < a.len() && a[k] == b[0];
        if j > 0 {
            assert(b[0] < b[j]);
            if k > 0 {
                assert(a[0] < a[k]);
            }
        }
        assert(a[0] == b[0]);
        let a1 = a.drop_first();
        let b1 = b.drop_first();
        assert forall|c: char| #[trigger] a1.contains(c) <==> b1.contains(c) by {
            if a1.contains(c) {
                let i = choose|i: int| 0 <= i < a1.len() && a1[i] == c;
                assert(a[i + 1] == c);
                assert(a[0] < a[i + 1]);
                assert(a.contains(c));
                let m = choose|m: int| 0 <= m < b.len() && b[m] == c;
                if m == 0 {
                    assert(false);
                }
                assert(b1[m - 1] == c);
            }
            if b1.contains(c) {
                let i = choose|i: int| 0 <= i < b1.len() && b1[i] == c;
                assert(b[i + 1] == c);
                assert(b[0] < b[i + 1]);
                assert(b.contains(c));
                assert(a.contains(c));
                let m = choose|m: int| 0 <= m < a.len() && a[m] == c;
                if m == 0 {
                    assert(false);
                }
                assert(a1[m - 1] == c);
            }
        }
        lemma_sorted_same_elements(a1, b1);
        assert(a.len() == b.len());
        assert forall|i: int| 0 <= i < a.len() implies a[i] == b[i] by {
            if i > 0 {
                assert(a[i] == a1[i - 1]);
                assert(b[i] == b1[i - 1]);
            }
        }
        assert(a =~= b);
    }
}

/// Whether a single character is safe for use in a system command.
pub fn is_safe_cmd_char(c: char) -> (r: bool)
    ensures
        r == safe_cmd_char(c),
{
    ('a' <= c && c <= 'z') || ('A' <= c && c <= 'Z') || ('0' <= c && c <= '9') || c == ' ' || c
        == '/' || c == '-' || c == '_' || c == '.' || c == ','
}

/// Whether a command string contains a character outside the allowlist.
pub fn has_shell_metacharacters(s: &str) -> (r: bool)
    ensures
        r == has_unsafe_char(s@),
{
    let cs = chars_of(s);
    let mut i: usize = 0;
    while i < cs.len()
        invariant
            i <= cs.len(),
            cs@ == s@,
            forall|k: int| 0 <= k < i ==> safe_cmd_char(#[trigger] cs@[k]),
        decreases cs.len() - i,
    {
        if !is_safe_cmd_char(cs[i]) {
            return true;
        }
        i = i + 1;
    }
    false
}

/// `v` with `c` inserted at its place, when `v` is strictly increasing and
/// does not hold `c` yet; `v` itself otherwise.
fn insert_sorted(v: Vec<char>, c: char) -> (r: Vec<char>)
    requires
        forall|i: int, j: int| 0 <= i < j < v@.len() ==> v@[i] < v@[j],
    ensures
        forall|i: int, j: int| 0 <= i < j < r@.len() ==> r@[i] < r@[j],
        forall|x: char| #[trigger] r@.contains(x) <==> (v@.contains(x) || x == c),
{
    let mut v = v;
    let ghost old_v = v@;
    let mut k: usize = 0;
    while k < v.len() && v[k] < c
        invariant
            k <= v.len(),
            v@ == old_v,
            forall|i: int| 0 <= i < k ==> v@[i] < c,
        decreases v.len() - k,
    {
        k = k + 1;
    }
    if k < v.len() && v[k] == c {
        assert forall|x: char| #[trigger] v@.contains(x) <==> (old_v.contains(x) || x == c) by {
            if x == c {
                assert(v@[k as int] == x);
            }
        }
        return v;
    }
    v.insert(k, c);
    assert(v@ =~= old_v.subrange(0, k as int).push(c) + old_v.subrange(k as int, old_v.len() as int));
    assert forall|x: char| #[trigger] v@.contains(x) <==> (old_v.contains(x) || x == c) by {
        if v@.contains(x) {
            let i = choose|i: int| 0 <= i < v@.len() && v@[i] == x;
            if i < k {
                assert(old_v[i] == x);
            } else if i > k {
                assert(old_v[i - 1] == x);
            }
        }
        if old_v.contains(x) {
            let i = choose|i: int| 0 <= i < old_v.len() && old_v[i] == x;
            if i < k {
                assert(v@[i] == x);
            } else {
                assert(v@[i + 1] == x);
            }
        }
        if x == c {
            assert(v@[k as int] == x);
        }
    }
    v
}

/// Validates a system command for safe execution: only characters on the
/// allowlist are accepted. Describes the rejected characters otherwise.
pub fn validate_system_command(command: &str) -> (r: Result<(), String>)
    ensures
        validation_result_is(r, command@),
        match r {
            Ok(()) => command_check(command@) is None,
            Err(m) => command_check(command@) == Some(m@),
        },
{
    let cs = chars_of(command);
    if cs.len() == 0 {
        return Err(String::from_str("Empty command"));
    }
    if !has_shell_metacharacters(command) {
        return Ok(());
    }
    let mut bad: Vec<char> = Vec::new();
    let mut i: usize = 0;
    while i < cs.len()
        invariant
            i <= cs.len(),
            cs@ == command@,
            forall|a: int, b: int| 0 <= a < b < bad@.len() ==> bad@[a] < bad@[b],
            forall|x: char| #[trigger] bad@.contains(x) <==> (cs@.take(i as int).contains(x) && !safe_cmd_char(x)),
        decreases cs.len() - i,
    {
        let c = cs[i];
        let ghost pre = cs@.take(i as int);
        assert(cs@.take(i + 1) =~= pre.push(c));
        assert forall|x: char| #[trigger] cs@.take(i + 1).contains(x) <==> (pre.contains(x) || x == c) by {
            let post = cs@.take(i + 1);
            if post.contains(x) {
                let k = choose|k: int| 0 <= k < post.len() && post[k] == x;
                if k < pre.len() {
                    assert(pre[k] == x);
                }
            }
            if pre.contains(x) {
                let k = choose|k: int| 0 <= k < pre.len() && pre[k] == x;
                assert(post[k] == x);
            }
            if x == c {
                assert(post[pre.len() as int] == x);
            }
        }
        let ghost old_bad = bad@;
        if !is_safe_cmd_char(c) {
            bad = insert_sorted(bad, c);
        }
        assert forall|x: char| #[trigger] bad@.contains(x) <==> (cs@.take(i + 1).contains(x) && !safe_cmd_char(x)) by {
            assert(cs@.take(i + 1).contains(x) <==> (pre.contains(x) || x == c));
            assert(old_bad.contains(x) <==> (pre.contains(x) && !safe_cmd_char(x)));
            if x == c {
                if !safe_cmd_char(c) {
                    assert(bad@.contains(x));
                }
            } else {
                assert(bad@.contains(x) == old_bad.contains(x));
            }
        }
        i = i + 1;
    }
    assert(cs@.take(cs.len() as int) =~= cs@);
    let mut msg = String::from_str("Command contains potentially unsafe shell metacharacters: ");
    let ghost prefix = msg@;
    crate::text::append_chars(&mut msg, &bad);
    assert(msg@.take(prefix.len() as int) =~= prefix);
    assert(msg@.skip(prefix.len() as int) =~= bad@);
    proof {
        let chosen = choose|b: Seq<char>| lists_unsafe_chars(b, command@);
        assert(lists_unsafe_chars(bad@, command@));
        lemma_sorted_same_elements(bad@, chosen);
        assert(msg@ =~= prefix + bad@);
    }
    Err(msg)
}

} // verus!
