//! Key strokes: a canonical representation of a keyboard shortcut (its
//! modifiers and key code), parsing from human-readable strings such as
//! `"Ctrl+Shift+V"`, and rendering back to such strings.

use vstd::prelude::*;

use crate::error::{Error, ErrorView};
use crate::text::{
    chars_of, is_white_space, join, lemma_split_join, lemma_split_len, split, split_chars, str_eq, string_of, trim,
    trim_chars, trim_end, trim_start,
};

verus! {

broadcast use vstd::string::group_string_axioms;

/// A keyboard modifier key.
#[derive(Debug, Clone, Copy, PartialEq, Eq, Hash, Structural)]
pub enum Modifier {
    /// Control key (Ctrl on Windows/Linux, Control on macOS)
    Control,
    /// Shift key
    Shift,
    /// Alt key (Windows/Linux terminology)
    Alt,
    /// Option key (macOS terminology; equivalent to Alt)
    Option,
    /// Command key on macOS / Super/Win key on Windows
    Command,
    /// CapsLock key
    CapsLock,
}

/// A single keyboard key (letter, number, function key, etc.).
#[derive(Debug, Clone, PartialEq, Eq, Hash)]
pub struct Key {
    /// The literal key character or name: `"A"`, `"V"`, `"SPACE"`, `"F1"`, etc.
    pub code: String,
}

/// A key stroke: a combination of modifiers and a key code.
#[derive(Debug, Clone, PartialEq, Eq, Hash)]
pub struct KeyStroke {
    /// Ordered list of modifiers.
    pub modifiers: Vec<Modifier>,
    /// The key that is pressed together with the modifiers.
    pub key: Key,
}

/// A [`KeyStroke`] as mathematical values.
pub struct StrokeView {
    pub modifiers: Seq<Modifier>,
    pub code: Seq<char>,
}

impl View for KeyStroke {
    type V = StrokeView;

    open spec fn view(&self) -> StrokeView {
        StrokeView { modifiers: self.modifiers@, code: self.key.code@ }
    }
}

/// What `str::to_uppercase` returns for a string (Unicode upper-casing).
pub uninterp spec fn spec_uppercase(s: Seq<char>) -> Seq<char>;

/// What `format!("{:?}", s)` renders for a string slice: the string quoted,
/// with `char::escape_debug` applied to its characters.
pub uninterp spec fn spec_debug_str(s: Seq<char>) -> Seq<char>;

/// Upper-cases a string with `str::to_uppercase`. Claimed: the result is
/// the upper-casing of `s`, and it is not empty when `s` is not, since
/// `char::to_uppercase` yields one or more characters for every character.
#[verifier::external_body]
fn to_uppercase_str(s: &str) -> (r: String)
    ensures
        r@ == spec_uppercase(s@),
        s@.len() > 0 ==> r@.len() > 0,
{
    s.to_uppercase()
}

/// Renders a string slice with its `Debug` format (`format!("{:?}", s)`).
#[verifier::external_body]
pub(crate) fn debug_str(s: &str) -> (r: String)
    ensures
        r@ == spec_debug_str(s@),
{
    format!("{:?}", s)
}

/// The modifier that a (trimmed) modifier token names, if any.
pub open spec fn modifier_named(t: Seq<char>) -> Option<Modifier> {
    if t == "Ctrl"@ || t == "Control"@ {
        Some(Modifier::Control)
    } else if t == "Shift"@ {
        Some(Modifier::Shift)
    } else if t == "Alt"@ {
        Some(Modifier::Alt)
    } else if t == "Option"@ {
        Some(Modifier::Alt)
    } else if t == "Cmd"@ || t == "Command"@ || t == "Super"@ {
        Some(Modifier::Command)
    } else if t == "CapsLock"@ || t == "Caps"@ {
        Some(Modifier::CapsLock)
    } else {
        None
    }
}

/// The modifiers named by the tokens `parts` (each trimmed), in order, or
/// the first trimmed token that names none.
pub open spec fn parse_modifiers(parts: Seq<Seq<char>>) -> Result<Seq<Modifier>, Seq<char>>
    decreases parts.len(),
{
    if parts.len() == 0 {
        Ok(Seq::<Modifier>::empty())
    } else {
        match parse_modifiers(parts.drop_last()) {
            Err(bad) => Err(bad),
            Ok(ms) => match modifier_named(trim(parts.last())) {
                Some(m) => Ok(ms.push(m)),
                None => Err(trim(parts.last())),
            },
        }
    }
}

/// `m` as a one-element sequence when `present`, else the empty sequence.
pub open spec fn when(present: bool, m: Modifier) -> Seq<Modifier> {
    if present {
        seq![m]
    } else {
        Seq::<Modifier>::empty()
    }
}

/// The canonical modifier list of `ms`: each modifier that occurs in `ms`,
/// once, in the order Control, Shift, Alt, Command, CapsLock, with Option
/// taken as Alt.
pub open spec fn canonical(ms: Seq<Modifier>) -> Seq<Modifier> {
    when(ms.contains(Modifier::Control), Modifier::Control) + when(
        ms.contains(Modifier::Shift),
        Modifier::Shift,
    ) + when(
        ms.contains(Modifier::Alt) || ms.contains(Modifier::Option),
        Modifier::Alt,
    ) + when(ms.contains(Modifier::Command), Modifier::Command) + when(
        ms.contains(Modifier::CapsLock),
        Modifier::CapsLock,
    )
}

/// The rank of a modifier in the canonical order.
pub open spec fn rank(m: Modifier) -> int {
    match m {
        Modifier::Control => 0,
        Modifier::Shift => 1,
        Modifier::Alt => 2,
        Modifier::Option => 3,
        Modifier::Command => 4,
        Modifier::CapsLock => 5,
    }
}

/// What [`KeyStroke::parse`] gives for the string `s`: the trimmed string is
/// split at `+`; every piece but the last, trimmed, must name a modifier; the
/// last piece must be non-empty and becomes the upper-cased key code.
pub open spec fn spec_parse(s: Seq<char>) -> Result<StrokeView, ErrorView> {
    let parts = split(trim(s), '+');
    match parse_modifiers(parts.drop_last()) {
        Err(bad) => Err(ErrorView::InvalidKey("unknown modifier: "@ + spec_debug_str(bad))),
        Ok(ms) => if parts.last().len() == 0 {
            Err(ErrorView::InvalidKey("empty key in stroke: "@ + spec_debug_str(s)))
        } else {
            Ok(StrokeView { modifiers: canonical(ms), code: spec_uppercase(parts.last()) })
        },
    }
}

/// `r` is the executable counterpart of the spec result `s`.
pub open spec fn parse_result_is(r: Result<KeyStroke, Error>, s: Result<StrokeView, ErrorView>) -> bool {
    match r {
        Ok(k) => s == Ok::<StrokeView, ErrorView>(k@),
        Err(e) => s == Err::<StrokeView, ErrorView>(e@),
    }
}

/// `name` followed by `+` when `present`, else nothing.
pub open spec fn name_if(present: bool, name: Seq<char>) -> Seq<char> {
    if present {
        name.push('+')
    } else {
        Seq::<char>::empty()
    }
}

/// The number of occurrences of `m` in `ms`.
pub open spec fn count(ms: Seq<Modifier>, m: Modifier) -> nat
    decreases ms.len(),
{
    if ms.len() == 0 {
        0
    } else {
        count(ms.drop_last(), m) + if ms.last() == m {
            1nat
        } else {
            0nat
        }
    }
}

/// `name` followed by `+`, `n` times.
pub open spec fn name_times(n: nat, name: Seq<char>) -> Seq<char>
    decreases n,
{
    if n == 0 {
        Seq::<char>::empty()
    } else {
        name_times((n - 1) as nat, name) + name.push('+')
    }
}

/// What [`KeyStroke::display`] renders: the names of the modifiers, in the
/// order Ctrl, Shift, Alt, Cmd, CapsLock, each followed by `+` and written
/// once per occurrence (Alt once for any Alt or Option), then the key code.
pub open spec fn spec_display(k: StrokeView) -> Seq<char> {
    name_times(count(k.modifiers, Modifier::Control), "Ctrl"@) + name_times(
        count(k.modifiers, Modifier::Shift),
        "Shift"@,
    ) + name_if(
        k.modifiers.contains(Modifier::Alt) || k.modifiers.contains(Modifier::Option),
        "Alt"@,
    ) + name_times(count(k.modifiers, Modifier::Command), "Cmd"@) + name_times(
        count(k.modifiers, Modifier::CapsLock),
        "CapsLock"@,
    ) + k.code
}

/// Normalizes a key code for consistent comparison: all key codes are
/// upper-cased (`"a"` becomes `"A"`, `"enter"` becomes `"ENTER"`).
pub fn normalize_key_code(key: &str) -> (r: String)
    ensures
        r@ == spec_uppercase(key@),
        key@.len() > 0 ==> r@.len() > 0,
{
    to_uppercase_str(key)
}

/// The modifier named by the token `t`, if any.
fn modifier_from_token(t: &Vec<char>) -> (r: Option<Modifier>)
    ensures
        r == modifier_named(t@),
{
    if str_eq(t, "Ctrl") || str_eq(t, "Control") {
        Some(Modifier::Control)
    } else if str_eq(t, "Shift") {
        Some(Modifier::Shift)
    } else if str_eq(t, "Alt") {
        Some(Modifier::Alt)
    } else if str_eq(t, "Option") {
        Some(Modifier::Alt)
    } else if str_eq(t, "Cmd") || str_eq(t, "Command") || str_eq(t, "Super") {
        Some(Modifier::Command)
    } else if str_eq(t, "CapsLock") || str_eq(t, "Caps") {
        Some(Modifier::CapsLock)
    } else {
        None
    }
}

/// The error `InvalidKey(prefix + debug(s))`.
fn invalid_key(prefix: &str, s: &str) -> (e: Error)
    ensures
        e@ == ErrorView::InvalidKey(prefix@ + spec_debug_str(s@)),
{
    let mut m = String::from_str(prefix);
    let d = debug_str(s);
    m.append(d.as_str());
    Error::InvalidKey(m)
}

impl KeyStroke {
    /// Parses a key stroke from a human-readable string such as `"V"`,
    /// `"Ctrl+V"`, `"Ctrl+Shift+V"` or `"Cmd+Shift+V"`.
    ///
    /// Modifiers come out once each, in the canonical order, whatever the
    /// order and repetition in the input; `Option` is taken as `Alt`; the
    /// key code is upper-cased.
    /// Fails with [`Error::InvalidKey`] on an unknown modifier or an empty key.
    pub fn parse(s: &str) -> (r: Result<KeyStroke, Error>)
        ensures
            parse_result_is(r, spec_parse(s@)),
            r is Ok ==> r->Ok_0.key.code@.len() > 0,
    {
        let cs = chars_of(s);
        let t = trim_chars(&cs);
        let parts = split_chars(&t, '+');
        proof {
            lemma_split_len(t@, '+');
        }
        let ghost pdv = parts.deep_view();
        let n = parts.len();
        let mut has_control = false;
        let mut has_shift = false;
        let mut has_alt = false;
        let mut has_command = false;
        let mut has_caps = false;
        let ghost mut ms: Seq<Modifier> = Seq::empty();
        let mut i: usize = 0;
        assert(pdv.take(0) =~= Seq::<Seq<char>>::empty());
        while i < n - 1
            invariant
                n == parts.len() >= 1,
                pdv == parts.deep_view(),
                pdv == split(trim(s@), '+'),
                i <= n - 1,
                parse_modifiers(pdv.take(i as int)) == Ok::<Seq<Modifier>, Seq<char>>(ms),
                has_control == ms.contains(Modifier::Control),
                has_shift == ms.contains(Modifier::Shift),
                has_alt == ms.contains(Modifier::Alt),
                !ms.contains(Modifier::Option),
                has_command == ms.contains(Modifier::Command),
                has_caps == ms.contains(Modifier::CapsLock),
            decreases n - 1 - i,
        {
            let tok = trim_chars(&parts[i]);
            assert(pdv[i as int] =~= parts@[i as int]@);
            assert(pdv.drop_last().take(i + 1) =~= pdv.take(i + 1));
            assert(pdv.take(i + 1).drop_last() =~= pdv.take(i as int));
            assert(pdv.take(i + 1).last() == pdv[i as int]);
            match modifier_from_token(&tok) {
                Some(m) => {
                    proof {
                        assert forall|x: Modifier| ms.push(m).contains(x) <==> (ms.contains(x) || x == m) by {
                            if ms.push(m).contains(x) {
                                let k = choose|k: int| 0 <= k < ms.push(m).len() && ms.push(m)[k] == x;
                                if k < ms.len() {
                                    assert(ms[k] == x);
                                }
                            }
                            if ms.contains(x) {
                                let k = choose|k: int| 0 <= k < ms.len() && ms[k] == x;
                                assert(ms.push(m)[k] == x);
                            }
                            if x == m {
                                assert(ms.push(m)[ms.len() as int] == x);
                            }
                        }
                        ms = ms.push(m);
                    }
                    match m {
                        Modifier::Control => { has_control = true; },
                        Modifier::Shift => { has_shift = true; },
                        Modifier::Alt => { has_alt = true; },
                        Modifier::Option => { has_alt = true; },
                        Modifier::Command => { has_command = true; },
                        Modifier::CapsLock => { has_caps = true; },
                    }
                },
                None => {
                    let ts = string_of(&tok);
                    let e = invalid_key("unknown modifier: ", ts.as_str());
                    assert(pdv.take(n - 1) =~= pdv.drop_last());
                    proof {
                        lemma_parse_modifiers_err_extends(pdv.drop_last(), i as int + 1);
                    }
                    return Err(e);
                },
            }
            i = i + 1;
        }
        assert(pdv.take(n - 1) =~= pdv.drop_last());
        let key_part = &parts[n - 1];
        assert(pdv[n - 1] =~= key_part@);
        if key_part.len() == 0 {
            return Err(invalid_key("empty key in stroke: ", s));
        }
        let mut modifiers: Vec<Modifier> = Vec::new();
        if has_control {
            modifiers.push(Modifier::Control);
        }
        if has_shift {
            modifiers.push(Modifier::Shift);
        }
        if has_alt {
            modifiers.push(Modifier::Alt);
        }
        if has_command {
            modifiers.push(Modifier::Command);
        }
        if has_caps {
            modifiers.push(Modifier::CapsLock);
        }
        assert(modifiers@ =~= canonical(ms));
        let key_str = string_of(key_part);
        let code = normalize_key_code(key_str.as_str());
        Ok(KeyStroke { modifiers, key: Key { code } })
    }

    /// Returns a human-readable display string, e.g. `"Ctrl+Shift+V"`.
    ///
    /// Modifiers are ordered as Control, Shift, Alt/Option (shown once, as
    /// `Alt`), Command, CapsLock; the others are written once per
    /// occurrence.
    pub fn display(&self) -> (r: String)
        ensures
            r@ == spec_display(self@),
    {
        let mut n_control: usize = 0;
        let mut n_shift: usize = 0;
        let mut has_alt = false;
        let mut n_command: usize = 0;
        let mut n_caps: usize = 0;
        let mut i: usize = 0;
        while i < self.modifiers.len()
            invariant
                i <= self.modifiers.len(),
                n_control == count(self.modifiers@.take(i as int), Modifier::Control),
                n_shift == count(self.modifiers@.take(i as int), Modifier::Shift),
                has_alt == (self.modifiers@.take(i as int).contains(Modifier::Alt)
                    || self.modifiers@.take(i as int).contains(Modifier::Option)),
                n_command == count(self.modifiers@.take(i as int), Modifier::Command),
                n_caps == count(self.modifiers@.take(i as int), Modifier::CapsLock),
                n_control <= i,
                n_shift <= i,
                n_command <= i,
                n_caps <= i,
            decreases self.modifiers.len() - i,
        {
            let m = self.modifiers[i];
            let ghost pre = self.modifiers@.take(i as int);
            let ghost post = self.modifiers@.take(i + 1);
            proof {
                assert(post =~= pre.push(m));
                assert(post.drop_last() =~= pre);
                assert forall|x: Modifier| post.contains(x) <==> (pre.contains(x) || x == m) by {
                    if post.contains(x) {
                        let k = choose|k: int| 0 <= k < post.len() && post[k] == x;
                        if k < pre.len() {
                            assert(pre[k] == x);
                        }
                    }
                    if pre.contains(x) {
                        let k = choose|k: int| 0 <= k < pre.len() && pre[k] == x;
                        assert(post[k] == x);
                    }
                    if x == m {
                        assert(post[pre.len() as int] == x);
                    }
                }
            }
            match m {
                Modifier::Control => { n_control = n_control + 1; },
                Modifier::Shift => { n_shift = n_shift + 1; },
                Modifier::Alt => { has_alt = true; },
                Modifier::Option => { has_alt = true; },
                Modifier::Command => { n_command = n_command + 1; },
                Modifier::CapsLock => { n_caps = n_caps + 1; },
            }
            i = i + 1;
        }
        assert(self.modifiers@.take(self.modifiers.len() as int) =~= self.modifiers@);
        let mut s = String::new();
        proof {
            reveal_strlit("Ctrl+");
            reveal_strlit("Ctrl");
            reveal_strlit("Shift+");
            reveal_strlit("Shift");
            reveal_strlit("Alt+");
            reveal_strlit("Alt");
            reveal_strlit("Cmd+");
            reveal_strlit("Cmd");
            reveal_strlit("CapsLock+");
            reveal_strlit("CapsLock");
            assert("Ctrl+"@ =~= "Ctrl"@.push('+'));
            assert("Shift+"@ =~= "Shift"@.push('+'));
            assert("Alt+"@ =~= "Alt"@.push('+'));
            assert("Cmd+"@ =~= "Cmd"@.push('+'));
            assert("CapsLock+"@ =~= "CapsLock"@.push('+'));
            assert("Ctrl+"@.drop_last() =~= "Ctrl"@);
            assert("Shift+"@.drop_last() =~= "Shift"@);
            assert("Cmd+"@.drop_last() =~= "Cmd"@);
            assert("CapsLock+"@.drop_last() =~= "CapsLock"@);
        }
        append_names(&mut s, "Ctrl+", n_control);
        append_names(&mut s, "Shift+", n_shift);
        if has_alt {
            s.append("Alt+");
        }
        append_names(&mut s, "Cmd+", n_command);
        append_names(&mut s, "CapsLock+", n_caps);
        s.append(self.key.code.as_str());
        assert(s@ =~= spec_display(self@));
        s
    }
}

/// Appends `t` to `s`, `n` times.
fn append_names(s: &mut String, t: &str, n: usize)
    requires
        t@.len() > 0,
        t@.last() == '+',
    ensures
        final(s)@ == old(s)@ + name_times(n as nat, t@.drop_last()),
{
    let mut j: usize = 0;
    while j < n
        invariant
            j <= n,
            t@.len() > 0,
            t@.last() == '+',
            s@ == old(s)@ + name_times(j as nat, t@.drop_last()),
        decreases n - j,
    {
        assert(t@.drop_last().push('+') =~= t@);
        s.append(t);
        assert(s@ =~= old(s)@ + name_times((j + 1) as nat, t@.drop_last()));
        j = j + 1;
    }
}

/// The modifiers of `ms` strictly increase in canonical rank, so that none
/// occurs twice.
pub open spec fn rank_sorted(ms: Seq<Modifier>) -> bool {
    forall|i: int, j: int| 0 <= i < j < ms.len() ==> rank(#[trigger] ms[i]) < rank(#[trigger] ms[j])
}

/// Appending `m` (when present) to a sorted list of lower-ranked modifiers
/// keeps it sorted, with no rank above `m`'s.
proof fn lemma_sorted_extend(a: Seq<Modifier>, present: bool, m: Modifier)
    requires
        rank_sorted(a),
        forall|i: int| 0 <= i < a.len() ==> rank(#[trigger] a[i]) < rank(m),
    ensures
        rank_sorted(a + when(present, m)),
        forall|i: int| 0 <= i < (a + when(present, m)).len() ==> rank(#[trigger] (a + when(present, m))[i]) <= rank(m),
{
    let b = a + when(present, m);
    assert forall|i: int| 0 <= i < b.len() implies rank(#[trigger] b[i]) <= rank(m) by {
        if i < a.len() {
            assert(b[i] == a[i]);
        }
    }
    assert forall|i: int, j: int| 0 <= i < j < b.len() implies rank(#[trigger] b[i]) < rank(#[trigger] b[j]) by {
        if j < a.len() {
            assert(b[i] == a[i] && b[j] == a[j]);
        } else {
            assert(b[i] == a[i]);
            assert(b[j] == m);
        }
    }
}

/// The canonical modifier list is sorted by rank.
pub proof fn lemma_canonical_sorted(ms: Seq<Modifier>)
    ensures
        rank_sorted(canonical(ms)),
{
    let e = Seq::<Modifier>::empty();
    let c0 = e + when(ms.contains(Modifier::Control), Modifier::Control);
    lemma_sorted_extend(e, ms.contains(Modifier::Control), Modifier::Control);
    let c1 = c0 + when(ms.contains(Modifier::Shift), Modifier::Shift);
    lemma_sorted_extend(c0, ms.contains(Modifier::Shift), Modifier::Shift);
    let a = ms.contains(Modifier::Alt) || ms.contains(Modifier::Option);
    let c3 = c1 + when(a, Modifier::Alt);
    lemma_sorted_extend(c1, a, Modifier::Alt);
    let c4 = c3 + when(ms.contains(Modifier::Command), Modifier::Command);
    lemma_sorted_extend(c3, ms.contains(Modifier::Command), Modifier::Command);
    let c5 = c4 + when(ms.contains(Modifier::CapsLock), Modifier::CapsLock);
    lemma_sorted_extend(c4, ms.contains(Modifier::CapsLock), Modifier::CapsLock);
    assert(e + when(ms.contains(Modifier::Control), Modifier::Control) =~= when(
        ms.contains(Modifier::Control),
        Modifier::Control,
    ));
    assert(c5 =~= canonical(ms));
}

/// A parsed stroke lists its modifiers in the canonical order Control,
/// Shift, Alt, Command, CapsLock, each at most once, whatever the order and
/// repetition of the modifier tokens in the text; Option is parsed as Alt.
pub proof fn lemma_parse_canonical(s: Seq<char>)
    requires
        spec_parse(s) is Ok,
    ensures
        rank_sorted(spec_parse(s)->Ok_0.modifiers),
        canonical(spec_parse(s)->Ok_0.modifiers) == spec_parse(s)->Ok_0.modifiers,
        !spec_parse(s)->Ok_0.modifiers.contains(Modifier::Option),
{
    let parts = split(trim(s), '+');
    let ms = parse_modifiers(parts.drop_last())->Ok_0;
    lemma_canonical_sorted(ms);
    lemma_canonical_idempotent(ms);
}

/// The canonical list of a canonical list is itself.
proof fn lemma_canonical_idempotent(ms: Seq<Modifier>)
    ensures
        canonical(canonical(ms)) == canonical(ms),
        !canonical(ms).contains(Modifier::Option),
{
    broadcast use vstd::seq_lib::group_seq_properties;

    let c = canonical(ms);
    assert(c.contains(Modifier::Control) == ms.contains(Modifier::Control));
    assert(c.contains(Modifier::Shift) == ms.contains(Modifier::Shift));
    assert(c.contains(Modifier::Alt) == (ms.contains(Modifier::Alt) || ms.contains(Modifier::Option)));
    assert(!c.contains(Modifier::Option));
    assert(c.contains(Modifier::Command) == ms.contains(Modifier::Command));
    assert(c.contains(Modifier::CapsLock) == ms.contains(Modifier::CapsLock));
    assert(canonical(c) =~= c);
}

/// Two texts whose modifier tokens name the same modifiers (in any order,
/// with any repetition) and whose key pieces are the same, and not empty,
/// parse to the same stroke: `"Ctrl+Shift+V"` and `"Shift+Ctrl+V"` are one
/// stroke.
pub proof fn lemma_parse_ignores_modifier_order(s1: Seq<char>, s2: Seq<char>)
    requires
        parse_modifiers(split(trim(s1), '+').drop_last()) is Ok,
        parse_modifiers(split(trim(s2), '+').drop_last()) is Ok,
        forall|m: Modifier|
            #[trigger] parse_modifiers(split(trim(s1), '+').drop_last())->Ok_0.contains(m) <==> parse_modifiers(
                split(trim(s2), '+').drop_last(),
            )->Ok_0.contains(m),
        split(trim(s1), '+').last() == split(trim(s2), '+').last(),
        split(trim(s1), '+').last().len() > 0,
    ensures
        spec_parse(s1) is Ok,
        spec_parse(s1) == spec_parse(s2),
{
    let ms1 = parse_modifiers(split(trim(s1), '+').drop_last())->Ok_0;
    let ms2 = parse_modifiers(split(trim(s2), '+').drop_last())->Ok_0;
    assert(ms1.contains(Modifier::Control) == ms2.contains(Modifier::Control));
    assert(ms1.contains(Modifier::Shift) == ms2.contains(Modifier::Shift));
    assert(ms1.contains(Modifier::Alt) == ms2.contains(Modifier::Alt));
    assert(ms1.contains(Modifier::Option) == ms2.contains(Modifier::Option));
    assert(ms1.contains(Modifier::Command) == ms2.contains(Modifier::Command));
    assert(ms1.contains(Modifier::CapsLock) == ms2.contains(Modifier::CapsLock));
    assert(canonical(ms1) =~= canonical(ms2));
}

/// `[name]` when `present`, else no name.
pub open spec fn names_if(present: bool, name: Seq<char>) -> Seq<Seq<char>> {
    if present {
        seq![name]
    } else {
        Seq::<Seq<char>>::empty()
    }
}

/// The modifier names that [`KeyStroke::display`] writes for `k`, in order.
pub open spec fn display_names(k: StrokeView) -> Seq<Seq<char>> {
    names_rep(count(k.modifiers, Modifier::Control), "Ctrl"@) + names_rep(
        count(k.modifiers, Modifier::Shift),
        "Shift"@,
    ) + names_if(
        k.modifiers.contains(Modifier::Alt) || k.modifiers.contains(Modifier::Option),
        "Alt"@,
    ) + names_rep(count(k.modifiers, Modifier::Command), "Cmd"@) + names_rep(
        count(k.modifiers, Modifier::CapsLock),
        "CapsLock"@,
    )
}

/// `name`, `n` times.
pub open spec fn names_rep(n: nat, name: Seq<char>) -> Seq<Seq<char>>
    decreases n,
{
    if n == 0 {
        Seq::<Seq<char>>::empty()
    } else {
        names_rep((n - 1) as nat, name).push(name)
    }
}

/// `m`, `n` times.
pub open spec fn mods_rep(n: nat, m: Modifier) -> Seq<Modifier>
    decreases n,
{
    if n == 0 {
        Seq::<Modifier>::empty()
    } else {
        mods_rep((n - 1) as nat, m).push(m)
    }
}

/// The modifiers that the modifier names of the display text of `k` parse
/// to, in order.
pub open spec fn display_mods(k: StrokeView) -> Seq<Modifier> {
    mods_rep(count(k.modifiers, Modifier::Control), Modifier::Control) + mods_rep(
        count(k.modifiers, Modifier::Shift),
        Modifier::Shift,
    ) + when(
        k.modifiers.contains(Modifier::Alt) || k.modifiers.contains(Modifier::Option),
        Modifier::Alt,
    ) + mods_rep(count(k.modifiers, Modifier::Command), Modifier::Command) + mods_rep(
        count(k.modifiers, Modifier::CapsLock),
        Modifier::CapsLock,
    )
}

/// A modifier occurs in a list exactly when it is counted there.
proof fn lemma_count_pos(ms: Seq<Modifier>, m: Modifier)
    ensures
        (count(ms, m) > 0) == ms.contains(m),
    decreases ms.len(),
{
    broadcast use vstd::seq_lib::group_seq_properties;

    if ms.len() > 0 {
        lemma_count_pos(ms.drop_last(), m);
        assert(ms.drop_last().push(ms.last()) =~= ms);
    }
}

/// `n` copies of `m` hold `x` exactly when `n > 0` and `x` is `m`.
proof fn lemma_mods_rep_contains(n: nat, m: Modifier, x: Modifier)
    ensures
        mods_rep(n, m).contains(x) == (n > 0 && x == m),
    decreases n,
{
    broadcast use vstd::seq_lib::group_seq_properties;

    if n > 0 {
        lemma_mods_rep_contains((n - 1) as nat, m, x);
    }
}

/// `n` copies of `name` hold nothing else.
proof fn lemma_names_rep_contains(n: nat, name: Seq<char>, x: Seq<char>)
    ensures
        names_rep(n, name).contains(x) ==> x == name,
    decreases n,
{
    broadcast use vstd::seq_lib::group_seq_properties;

    if n > 0 {
        lemma_names_rep_contains((n - 1) as nat, name, x);
    }
}

/// `n` copies of a name followed by `+` start with the name's first
/// character.
proof fn lemma_name_times_first(n: nat, name: Seq<char>)
    requires
        n > 0,
        name.len() > 0,
    ensures
        name_times(n, name).len() > 0,
        name_times(n, name)[0] == name[0],
    decreases n,
{
    if n > 1 {
        lemma_name_times_first((n - 1) as nat, name);
    } else {
        assert(name_times(0, name) =~= Seq::<char>::empty());
        assert(name_times(n, name) =~= name.push('+'));
    }
}

/// Repeating a name keeps the `+`-join of the names and the display prefix
/// in step.
proof fn lemma_join_names_rep(ns: Seq<Seq<char>>, p: Seq<char>, n: nat, name: Seq<char>)
    requires
        forall|c: Seq<char>| #[trigger] join(ns.push(c), '+') == p + c,
    ensures
        forall|c: Seq<char>| #[trigger] join((ns + names_rep(n, name)).push(c), '+') == (p + name_times(n, name)) + c,
    decreases n,
{
    if n == 0 {
        assert(ns + names_rep(n, name) =~= ns);
        assert(p + name_times(n, name) =~= p);
    } else {
        let m = (n - 1) as nat;
        lemma_join_names_rep(ns, p, m, name);
        lemma_join_names_step(ns + names_rep(m, name), p + name_times(m, name), true, name);
        assert(ns + names_rep(m, name) + names_if(true, name) =~= ns + names_rep(n, name));
        assert(p + name_times(m, name) + name_if(true, name) =~= p + name_times(n, name));
    }
}

/// Repeating a modifier name adds that many copies of the modifier to what
/// the tokens name.
proof fn lemma_parse_names_rep(ns: Seq<Seq<char>>, ms: Seq<Modifier>, n: nat, name: Seq<char>, m: Modifier)
    requires
        parse_modifiers(ns) == Ok::<Seq<Modifier>, Seq<char>>(ms),
        modifier_named(trim(name)) == Some(m),
    ensures
        parse_modifiers(ns + names_rep(n, name)) == Ok::<Seq<Modifier>, Seq<char>>(ms + mods_rep(n, m)),
    decreases n,
{
    if n == 0 {
        assert(ns + names_rep(n, name) =~= ns);
        assert(ms + mods_rep(n, m) =~= ms);
    } else {
        let k = (n - 1) as nat;
        lemma_parse_names_rep(ns, ms, k, name, m);
        lemma_parse_names_step(ns + names_rep(k, name), ms + mods_rep(k, m), true, name, m);
        assert(ns + names_rep(k, name) + names_if(true, name) =~= ns + names_rep(n, name));
        assert(ms + mods_rep(k, m) + when(true, m) =~= ms + mods_rep(n, m));
    }
}

/// The modifiers that the display text of `k` shows: those of `k` in the
/// canonical order, with Option shown as Alt.
pub open spec fn shown_modifiers(k: StrokeView) -> Seq<Modifier> {
    when(k.modifiers.contains(Modifier::Control), Modifier::Control) + when(
        k.modifiers.contains(Modifier::Shift),
        Modifier::Shift,
    ) + when(
        k.modifiers.contains(Modifier::Alt) || k.modifiers.contains(Modifier::Option),
        Modifier::Alt,
    ) + when(k.modifiers.contains(Modifier::Command), Modifier::Command) + when(
        k.modifiers.contains(Modifier::CapsLock),
        Modifier::CapsLock,
    )
}

/// One more name in the display prefix keeps the prefix and the `+`-join
/// of the names in step.
proof fn lemma_join_names_step(ns: Seq<Seq<char>>, p: Seq<char>, present: bool, name: Seq<char>)
    requires
        forall|c: Seq<char>| #[trigger] join(ns.push(c), '+') == p + c,
    ensures
        forall|c: Seq<char>| #[trigger] join((ns + names_if(present, name)).push(c), '+') == (p + name_if(present, name)) + c,
{
    assert forall|c: Seq<char>| #[trigger] join((ns + names_if(present, name)).push(c), '+') == (p + name_if(present, name)) + c by {
        if present {
            let q = (ns + names_if(present, name)).push(c);
            assert(q.drop_last() =~= ns.push(name));
            assert(join(ns.push(name), '+') == p + name);
            assert((p + name).push('+') + c =~= (p + name.push('+')) + c);
        } else {
            assert(ns + names_if(present, name) =~= ns);
            assert(p + name_if(present, name) =~= p);
        }
    }
}

/// One more name in the token list adds its modifier to what the tokens
/// name.
proof fn lemma_parse_names_step(ns: Seq<Seq<char>>, ms: Seq<Modifier>, present: bool, name: Seq<char>, m: Modifier)
    requires
        parse_modifiers(ns) == Ok::<Seq<Modifier>, Seq<char>>(ms),
        modifier_named(trim(name)) == Some(m),
    ensures
        parse_modifiers(ns + names_if(present, name)) == Ok::<Seq<Modifier>, Seq<char>>(ms + when(present, m)),
{
    if present {
        let q = ns + names_if(present, name);
        assert(q.drop_last() =~= ns);
        assert(q.last() == name);
        assert(ms.push(m) =~= ms + when(present, m));
    } else {
        assert(ns + names_if(present, name) =~= ns);
        assert(ms + when(present, m) =~= ms);
    }
}

/// A text that neither starts nor ends with whitespace is its own trim.
proof fn lemma_trim_unchanged(s: Seq<char>)
    requires
        s.len() > 0,
        !is_white_space(s[0]),
        !is_white_space(s.last()),
    ensures
        trim(s) == s,
{
    assert(trim_start(s) == s);
    assert(trim_end(s) == s);
}

/// The display text of a stroke is its modifier names and its key code
/// joined with `+`.
proof fn lemma_display_is_join(k: StrokeView)
    ensures
        join(display_names(k).push(k.code), '+') == spec_display(k),
{
    let cc = count(k.modifiers, Modifier::Control);
    let cs = count(k.modifiers, Modifier::Shift);
    let has_a = k.modifiers.contains(Modifier::Alt) || k.modifiers.contains(Modifier::Option);
    let cm = count(k.modifiers, Modifier::Command);
    let cl = count(k.modifiers, Modifier::CapsLock);
    let e = Seq::<Seq<char>>::empty();
    let n1 = e + names_rep(cc, "Ctrl"@);
    let n2 = n1 + names_rep(cs, "Shift"@);
    let n3 = n2 + names_if(has_a, "Alt"@);
    let n4 = n3 + names_rep(cm, "Cmd"@);
    let n5 = n4 + names_rep(cl, "CapsLock"@);
    let p0 = Seq::<char>::empty();
    let p1 = p0 + name_times(cc, "Ctrl"@);
    let p2 = p1 + name_times(cs, "Shift"@);
    let p3 = p2 + name_if(has_a, "Alt"@);
    let p4 = p3 + name_times(cm, "Cmd"@);
    let p5 = p4 + name_times(cl, "CapsLock"@);
    assert forall|c: Seq<char>| #[trigger] join(e.push(c), '+') == p0 + c by {
        assert(p0 + c =~= c);
    }
    lemma_join_names_rep(e, p0, cc, "Ctrl"@);
    lemma_join_names_rep(n1, p1, cs, "Shift"@);
    lemma_join_names_step(n2, p2, has_a, "Alt"@);
    lemma_join_names_rep(n3, p3, cm, "Cmd"@);
    lemma_join_names_rep(n4, p4, cl, "CapsLock"@);
    assert(n5 =~= display_names(k));
    assert(p5 + k.code =~= spec_display(k));
}

/// The display text of a stroke starts with its first modifier name, or
/// with its key code when it has no modifier, and ends with its key code.
proof fn lemma_display_ends(k: StrokeView)
    requires
        k.code.len() > 0,
    ensures
        spec_display(k).len() > 0,
        spec_display(k)[0] == 'C' || spec_display(k)[0] == 'S' || spec_display(k)[0] == 'A'
            || spec_display(k)[0] == k.code[0],
        k.modifiers.len() > 0 ==> (spec_display(k)[0] == 'C' || spec_display(k)[0] == 'S'
            || spec_display(k)[0] == 'A'),
        spec_display(k).last() == k.code.last(),
{
    reveal_strlit("Ctrl");
    reveal_strlit("Shift");
    reveal_strlit("Alt");
    reveal_strlit("Cmd");
    reveal_strlit("CapsLock");
    let cc = count(k.modifiers, Modifier::Control);
    let cs = count(k.modifiers, Modifier::Shift);
    let has_a = k.modifiers.contains(Modifier::Alt) || k.modifiers.contains(Modifier::Option);
    let cm = count(k.modifiers, Modifier::Command);
    let cl = count(k.modifiers, Modifier::CapsLock);
    let t1 = name_times(cc, "Ctrl"@);
    let t2 = name_times(cs, "Shift"@);
    let t3 = name_if(has_a, "Alt"@);
    let t4 = name_times(cm, "Cmd"@);
    let t5 = name_times(cl, "CapsLock"@);
    let p = t1 + t2 + t3 + t4 + t5;
    assert(spec_display(k) == p + k.code);
    if cc > 0 {
        lemma_name_times_first(cc, "Ctrl"@);
        assert(spec_display(k)[0] == t1[0]);
    } else if cs > 0 {
        assert(t1 =~= Seq::<char>::empty());
        lemma_name_times_first(cs, "Shift"@);
        assert(spec_display(k)[0] == t2[0]);
    } else if has_a {
        assert(t1 =~= Seq::<char>::empty());
        assert(t2 =~= Seq::<char>::empty());
        assert(spec_display(k)[0] == t3[0]);
    } else if cm > 0 {
        assert(t1 =~= Seq::<char>::empty());
        assert(t2 =~= Seq::<char>::empty());
        lemma_name_times_first(cm, "Cmd"@);
        assert(spec_display(k)[0] == t4[0]);
    } else if cl > 0 {
        assert(t1 =~= Seq::<char>::empty());
        assert(t2 =~= Seq::<char>::empty());
        assert(t4 =~= Seq::<char>::empty());
        lemma_name_times_first(cl, "CapsLock"@);
        assert(spec_display(k)[0] == t5[0]);
    } else {
        assert(p =~= Seq::<char>::empty());
        assert(spec_display(k) =~= k.code);
        if k.modifiers.len() > 0 {
            let m = k.modifiers[0];
            assert(k.modifiers.contains(m));
            lemma_count_pos(k.modifiers, m);
        }
    }
}

/// The modifier names of a display text hold no `+` and parse to the
/// modifiers they name, in order.
proof fn lemma_display_names_parse(k: StrokeView)
    ensures
        parse_modifiers(display_names(k)) == Ok::<Seq<Modifier>, Seq<char>>(display_mods(k)),
        forall|i: int, j: int|
            0 <= i < display_names(k).len() && 0 <= j < display_names(k)[i].len() ==> #[trigger] display_names(
                k,
            )[i][j] != '+',
{
    broadcast use vstd::seq_lib::group_seq_properties;

    reveal_strlit("Ctrl");
    reveal_strlit("Shift");
    reveal_strlit("Alt");
    reveal_strlit("Cmd");
    reveal_strlit("CapsLock");
    reveal_strlit("Control");
    reveal_strlit("Option");
    reveal_strlit("Command");
    reveal_strlit("Super");
    reveal_strlit("Caps");
    let cc = count(k.modifiers, Modifier::Control);
    let cs = count(k.modifiers, Modifier::Shift);
    let has_a = k.modifiers.contains(Modifier::Alt) || k.modifiers.contains(Modifier::Option);
    let cm = count(k.modifiers, Modifier::Command);
    let cl = count(k.modifiers, Modifier::CapsLock);
    let e = Seq::<Seq<char>>::empty();
    let n1 = e + names_rep(cc, "Ctrl"@);
    let n2 = n1 + names_rep(cs, "Shift"@);
    let n3 = n2 + names_if(has_a, "Alt"@);
    let n4 = n3 + names_rep(cm, "Cmd"@);
    assert(n4 + names_rep(cl, "CapsLock"@) =~= display_names(k));
    assert(trim("Ctrl"@) == "Ctrl"@) by { lemma_trim_unchanged("Ctrl"@); }
    assert(trim("Shift"@) == "Shift"@) by { lemma_trim_unchanged("Shift"@); }
    assert(trim("Alt"@) == "Alt"@) by { lemma_trim_unchanged("Alt"@); }
    assert(trim("Cmd"@) == "Cmd"@) by { lemma_trim_unchanged("Cmd"@); }
    assert(trim("CapsLock"@) == "CapsLock"@) by { lemma_trim_unchanged("CapsLock"@); }
    let m0 = Seq::<Modifier>::empty();
    let m1 = m0 + mods_rep(cc, Modifier::Control);
    let m2 = m1 + mods_rep(cs, Modifier::Shift);
    let m3 = m2 + when(has_a, Modifier::Alt);
    let m4 = m3 + mods_rep(cm, Modifier::Command);
    assert(parse_modifiers(e) == Ok::<Seq<Modifier>, Seq<char>>(m0));
    lemma_parse_names_rep(e, m0, cc, "Ctrl"@, Modifier::Control);
    lemma_parse_names_rep(n1, m1, cs, "Shift"@, Modifier::Shift);
    lemma_parse_names_step(n2, m2, has_a, "Alt"@, Modifier::Alt);
    lemma_parse_names_rep(n3, m3, cm, "Cmd"@, Modifier::Command);
    lemma_parse_names_rep(n4, m4, cl, "CapsLock"@, Modifier::CapsLock);
    assert(m4 + mods_rep(cl, Modifier::CapsLock) =~= display_mods(k));
    let names = display_names(k);
    assert forall|i: int, j: int| 0 <= i < names.len() && 0 <= j < names[i].len() implies #[trigger] names[i][j] != '+' by {
        let nm = names[i];
        assert(names.contains(nm));
        lemma_names_rep_contains(cc, "Ctrl"@, nm);
        lemma_names_rep_contains(cs, "Shift"@, nm);
        lemma_names_rep_contains(cm, "Cmd"@, nm);
        lemma_names_rep_contains(cl, "CapsLock"@, nm);
        assert(nm == "Ctrl"@ || nm == "Shift"@ || nm == "Alt"@ || nm == "Cmd"@ || nm == "CapsLock"@);
    }
}

/// The modifiers named by a display text are, in canonical form, the shown
/// modifiers of the stroke.
proof fn lemma_display_mods_canonical(k: StrokeView)
    ensures
        canonical(display_mods(k)) == shown_modifiers(k),
{
    broadcast use vstd::seq_lib::group_seq_properties;

    let d = display_mods(k);
    let ms = k.modifiers;
    lemma_count_pos(ms, Modifier::Control);
    lemma_count_pos(ms, Modifier::Shift);
    lemma_count_pos(ms, Modifier::Command);
    lemma_count_pos(ms, Modifier::CapsLock);
    assert forall|x: Modifier|
        #![trigger d.contains(x)]
        d.contains(x) == ((x == Modifier::Control && ms.contains(Modifier::Control)) || (x == Modifier::Shift
            && ms.contains(Modifier::Shift)) || (x == Modifier::Alt && (ms.contains(Modifier::Alt) || ms.contains(
            Modifier::Option,
        ))) || (x == Modifier::Command && ms.contains(Modifier::Command)) || (x == Modifier::CapsLock
            && ms.contains(Modifier::CapsLock))) by {
        lemma_mods_rep_contains(count(ms, Modifier::Control), Modifier::Control, x);
        lemma_mods_rep_contains(count(ms, Modifier::Shift), Modifier::Shift, x);
        lemma_mods_rep_contains(count(ms, Modifier::Command), Modifier::Command, x);
        lemma_mods_rep_contains(count(ms, Modifier::CapsLock), Modifier::CapsLock, x);
    }
    assert(d.contains(Modifier::Control) == ms.contains(Modifier::Control));
    assert(d.contains(Modifier::Shift) == ms.contains(Modifier::Shift));
    assert(d.contains(Modifier::Alt) == (ms.contains(Modifier::Alt) || ms.contains(Modifier::Option)));
    assert(!d.contains(Modifier::Option));
    assert(d.contains(Modifier::Command) == ms.contains(Modifier::Command));
    assert(d.contains(Modifier::CapsLock) == ms.contains(Modifier::CapsLock));
    assert(canonical(d) =~= shown_modifiers(k));
}

/// Displaying a stroke and parsing the text back gives the stroke with its
/// modifiers in the canonical order (Option shown as Alt) and its key code
/// upper-cased, for a key code that is not empty, holds no `+` and does not
/// end with whitespace; it may start with whitespace when a modifier comes
/// before it (as in `Ctrl+ V`), not when it stands alone.
pub proof fn lemma_display_parse_roundtrip(k: StrokeView)
    requires
        k.code.len() > 0,
        forall|i: int| 0 <= i < k.code.len() ==> k.code[i] != '+',
        k.modifiers.len() > 0 || !is_white_space(k.code[0]),
        !is_white_space(k.code.last()),
    ensures
        spec_parse(spec_display(k)) == Ok::<StrokeView, ErrorView>(
            StrokeView { modifiers: shown_modifiers(k), code: spec_uppercase(k.code) },
        ),
{
    let text = spec_display(k);
    let names = display_names(k);
    let parts = names.push(k.code);
    lemma_display_is_join(k);
    lemma_display_ends(k);
    lemma_trim_unchanged(text);
    lemma_display_names_parse(k);
    assert forall|i: int, j: int| 0 <= i < parts.len() && 0 <= j < parts[i].len() implies #[trigger] parts[i][j] != '+' by {
        if i == parts.len() - 1 {
            assert(parts[i] == k.code);
        } else {
            assert(parts[i] == names[i]);
            assert(names[i][j] != '+');
        }
    }
    lemma_split_join(parts, '+');
    assert(split(trim(text), '+').drop_last() =~= names);
    assert(split(trim(text), '+').last() == k.code);
    lemma_display_mods_canonical(k);
}

/// A stroke in canonical form (modifiers in the canonical order, no Option,
/// an upper-case key code that is not empty, holds no `+`, does not end with
/// whitespace and starts with whitespace only after a modifier) survives
/// display and parse unchanged.
pub proof fn lemma_display_parse_identity(k: StrokeView)
    requires
        canonical(k.modifiers) == k.modifiers,
        !k.modifiers.contains(Modifier::Option),
        spec_uppercase(k.code) == k.code,
        k.code.len() > 0,
        forall|i: int| 0 <= i < k.code.len() ==> k.code[i] != '+',
        k.modifiers.len() > 0 || !is_white_space(k.code[0]),
        !is_white_space(k.code.last()),
    ensures
        spec_parse(spec_display(k)) == Ok::<StrokeView, ErrorView>(k),
{
    lemma_display_parse_roundtrip(k);
    assert(shown_modifiers(k) =~= canonical(k.modifiers));
}

/// Once the tokens up to `i` hold an unknown modifier, so do all longer
/// prefixes: `parse_modifiers` fails on `parts` with the first bad token.
proof fn lemma_parse_modifiers_err_extends(parts: Seq<Seq<char>>, i: int)
    requires
        0 < i <= parts.len(),
        parse_modifiers(parts.take(i)) is Err,
    ensures
        parse_modifiers(parts) == parse_modifiers(parts.take(i)),
    decreases parts.len() - i,
{
    if i < parts.len() {
        assert(parts.take(i + 1).drop_last() =~= parts.take(i));
        lemma_parse_modifiers_err_extends(parts, i + 1);
    } else {
        assert(parts.take(i) =~= parts);
    }
}

} // verus!
