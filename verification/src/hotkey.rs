//! Global hotkey registration decisions: which strokes of a configuration
//! a platform backend registers, and the modifier flags of the macOS
//! Carbon hotkey API.

use vstd::prelude::*;

use crate::actions::{Action, ActionView};
use crate::config::{bindings_view, effective_keys_of, BindingView, Config};
use crate::keymap::{spec_parse, KeyStroke, Modifier, StrokeView};
use crate::os::OsPlatform;

verus! {

broadcast use vstd::string::group_string_axioms;

/// Carbon event modifier flags for a set of modifiers: Command `0x1`,
/// Shift `0x2`, CapsLock `0x4`, Alt or Option `0x8`, Control `0x10`.
pub open spec fn cocoa_flags(ms: Seq<Modifier>) -> u32 {
    ((if ms.contains(Modifier::Control) { 0x10int } else { 0 }) + (if ms.contains(Modifier::Shift) {
        0x2int
    } else {
        0
    }) + (if ms.contains(Modifier::Alt) || ms.contains(Modifier::Option) {
        0x8int
    } else {
        0
    }) + (if ms.contains(Modifier::Command) {
        0x1int
    } else {
        0
    }) + (if ms.contains(Modifier::CapsLock) {
        0x4int
    } else {
        0
    })) as u32
}

/// Five flags set or clear, as bits: each bit stands for its own flag and no
/// other bit is set.
proof fn lemma_flag_sum_bits(a: bool, b: bool, c: bool, d: bool, e: bool, x: u32)
    by (bit_vector)
    requires
        x == (if a { 0x10u32 } else { 0u32 }) + (if b { 0x2u32 } else { 0u32 }) + (if c { 0x8u32 } else { 0u32 })
            + (if d { 0x1u32 } else { 0u32 }) + (if e { 0x4u32 } else { 0u32 }),
    ensures
        a == (x & 0x10u32 == 0x10u32),
        b == (x & 0x2u32 == 0x2u32),
        c == (x & 0x8u32 == 0x8u32),
        d == (x & 0x1u32 == 0x1u32),
        e == (x & 0x4u32 == 0x4u32),
        x & 0xffff_ffe0u32 == 0u32,
{
}

/// A value of the five low bits whose every bit is set when it is set in
/// `x` or in `y` is the bitwise OR of `x` and `y`.
proof fn lemma_or_by_bits(x: u32, y: u32, z: u32)
    by (bit_vector)
    requires
        (z & 0x1u32 == 0x1u32) == ((x & 0x1u32 == 0x1u32) || (y & 0x1u32 == 0x1u32)),
        (z & 0x2u32 == 0x2u32) == ((x & 0x2u32 == 0x2u32) || (y & 0x2u32 == 0x2u32)),
        (z & 0x4u32 == 0x4u32) == ((x & 0x4u32 == 0x4u32) || (y & 0x4u32 == 0x4u32)),
        (z & 0x8u32 == 0x8u32) == ((x & 0x8u32 == 0x8u32) || (y & 0x8u32 == 0x8u32)),
        (z & 0x10u32 == 0x10u32) == ((x & 0x10u32 == 0x10u32) || (y & 0x10u32 == 0x10u32)),
        x & 0xffff_ffe0u32 == 0u32,
        y & 0xffff_ffe0u32 == 0u32,
        z & 0xffff_ffe0u32 == 0u32,
    ensures
        z == x | y,
{
}

/// Each modifier has its own fixed Carbon flag, set exactly when the
/// modifier occurs: Command `0x1`, Shift `0x2`, CapsLock `0x4`, Alt or
/// Option `0x8`, Control `0x10`; no other bit is ever set.
pub proof fn lemma_cocoa_flag_bits(ms: Seq<Modifier>)
    ensures
        ms.contains(Modifier::Command) == (cocoa_flags(ms) & 0x1u32 == 0x1u32),
        ms.contains(Modifier::Shift) == (cocoa_flags(ms) & 0x2u32 == 0x2u32),
        ms.contains(Modifier::CapsLock) == (cocoa_flags(ms) & 0x4u32 == 0x4u32),
        (ms.contains(Modifier::Alt) || ms.contains(Modifier::Option)) == (cocoa_flags(ms) & 0x8u32 == 0x8u32),
        ms.contains(Modifier::Control) == (cocoa_flags(ms) & 0x10u32 == 0x10u32),
        cocoa_flags(ms) & 0xffff_ffe0u32 == 0u32,
{
    let a = ms.contains(Modifier::Control);
    let b = ms.contains(Modifier::Shift);
    let c = ms.contains(Modifier::Alt) || ms.contains(Modifier::Option);
    let d = ms.contains(Modifier::Command);
    let e = ms.contains(Modifier::CapsLock);
    let x: u32 = cocoa_flags(ms);
    assert(x == (if a { 0x10u32 } else { 0u32 }) + (if b { 0x2u32 } else { 0u32 }) + (if c { 0x8u32 } else {
        0u32
    }) + (if d { 0x1u32 } else { 0u32 }) + (if e { 0x4u32 } else { 0u32 }));
    lemma_flag_sum_bits(a, b, c, d, e, x);
}

/// The flags of a single modifier: Command `0x1`, Shift `0x2`, CapsLock
/// `0x4`, Alt and Option `0x8`, Control `0x10`.
pub proof fn lemma_cocoa_flag_of_one(m: Modifier)
    ensures
        cocoa_flags(seq![m]) == match m {
            Modifier::Command => 0x1u32,
            Modifier::Shift => 0x2u32,
            Modifier::CapsLock => 0x4u32,
            Modifier::Alt => 0x8u32,
            Modifier::Option => 0x8u32,
            Modifier::Control => 0x10u32,
        },
{
    let s = seq![m];
    assert(s[0] == m);
    assert(s.contains(m));
    assert(forall|x: Modifier| s.contains(x) ==> x == m);
}

/// The flags of two lists together are the bitwise OR of the flags of
/// each: every modifier contributes its flag independently of the others.
pub proof fn lemma_cocoa_flags_union(xs: Seq<Modifier>, ys: Seq<Modifier>)
    ensures
        cocoa_flags(xs + ys) == cocoa_flags(xs) | cocoa_flags(ys),
{
    let zs = xs + ys;
    assert forall|m: Modifier| #[trigger] zs.contains(m) == (xs.contains(m) || ys.contains(m)) by {
        if zs.contains(m) {
            let k = choose|k: int| 0 <= k < zs.len() && zs[k] == m;
            if k < xs.len() {
                assert(xs[k] == m);
            } else {
                assert(ys[k - xs.len()] == m);
            }
        }
        if xs.contains(m) {
            let k = choose|k: int| 0 <= k < xs.len() && xs[k] == m;
            assert(zs[k] == m);
        }
        if ys.contains(m) {
            let k = choose|k: int| 0 <= k < ys.len() && ys[k] == m;
            assert(zs[k + xs.len()] == m);
        }
    }
    lemma_cocoa_flag_bits(xs);
    lemma_cocoa_flag_bits(ys);
    lemma_cocoa_flag_bits(zs);
    assert(zs.contains(Modifier::Control) == (xs.contains(Modifier::Control) || ys.contains(Modifier::Control)));
    assert(zs.contains(Modifier::Shift) == (xs.contains(Modifier::Shift) || ys.contains(Modifier::Shift)));
    assert(zs.contains(Modifier::Alt) == (xs.contains(Modifier::Alt) || ys.contains(Modifier::Alt)));
    assert(zs.contains(Modifier::Option) == (xs.contains(Modifier::Option) || ys.contains(Modifier::Option)));
    assert(zs.contains(Modifier::Command) == (xs.contains(Modifier::Command) || ys.contains(Modifier::Command)));
    assert(zs.contains(Modifier::CapsLock) == (xs.contains(Modifier::CapsLock) || ys.contains(Modifier::CapsLock)));
    lemma_or_by_bits(cocoa_flags(xs), cocoa_flags(ys), cocoa_flags(zs));
}

/// The Carbon event modifier flags of a list of modifiers (each flag once,
/// however often its modifier occurs).
pub fn modifiers_to_cocoa(modifiers: &[Modifier]) -> (r: u32)
    ensures
        r == cocoa_flags(modifiers@),
{
    let mut control = false;
    let mut shift = false;
    let mut alt = false;
    let mut command = false;
    let mut caps = false;
    let mut i: usize = 0;
    while i < modifiers.len()
        invariant
            i <= modifiers@.len(),
            control == modifiers@.take(i as int).contains(Modifier::Control),
            shift == modifiers@.take(i as int).contains(Modifier::Shift),
            alt == (modifiers@.take(i as int).contains(Modifier::Alt) || modifiers@.take(i as int).contains(
                Modifier::Option,
            )),
            command == modifiers@.take(i as int).contains(Modifier::Command),
            caps == modifiers@.take(i as int).contains(Modifier::CapsLock),
        decreases modifiers@.len() - i,
    {
        let m = modifiers[i];
        let ghost pre = modifiers@.take(i as int);
        let ghost post = modifiers@.take(i + 1);
        proof {
            assert(post =~= pre.push(m));
            assert forall|x: Modifier| #[trigger] post.contains(x) <==> (pre.contains(x) || x == m) by {
                if post.contains(x) {
                    let k = choose|k: int| 0 <= k < post.len() && post[k] == x;
                    if k < pre.len() {
                        assert(pre[k] == x);
                    }
                }
                if pre.contains(x) {
                    let k = choose|k: int| 0 <= k < pre.len() && pre[k] == x;
                    assert(post[k] == x);
                }
                if x == m {
                    assert(post[pre.len() as int] == x);
                }
            }
        }
        match m {
            Modifier::Control => { control = true; },
            Modifier::Shift => { shift = true; },
            Modifier::Alt => { alt = true; },
            Modifier::Option => { alt = true; },
            Modifier::Command => { command = true; },
            Modifier::CapsLock => { caps = true; },
        }
        i = i + 1;
    }
    assert(modifiers@.take(modifiers@.len() as int) =~= modifiers@);
    let mut flags: u32 = 0;
    if control {
        flags = flags + 0x10;
    }
    if shift {
        flags = flags + 0x2;
    }
    if alt {
        flags = flags + 0x8;
    }
    if command {
        flags = flags + 0x1;
    }
    if caps {
        flags = flags + 0x4;
    }
    flags
}

/// The creator code of every hotkey ID ("adda").
pub const CREATOR: u32 = 0x61646461;

/// Identifies a registered hotkey: a creator code and a sequence number.
#[derive(Debug, Clone, Copy, PartialEq, Eq, Hash, Structural)]
pub struct HotKeyId {
    /// The creator code.
    pub creator: u32,
    /// The sequence number (its low 16 bits are kept).
    pub id: u32,
}

/// Packs a hotkey ID into one number: the creator code above the low 16
/// bits of the sequence number.
pub fn hot_key_id_to_uint(id: HotKeyId) -> (r: u64)
    ensures
        r == id.creator * 65536 + id.id % 65536,
{
    let creator: u32 = id.creator;
    let seq_no: u32 = id.id;
    let c = creator as u64;
    let n = (seq_no & 0xFFFF) as u64;
    let r = (c << 16u64) | n;
    assert(r == c * 65536 + n && n == seq_no % 65536 && c == creator) by (bit_vector)
        requires
            c == creator as u64,
            n == (seq_no & 0xFFFF) as u64,
            r == (c << 16u64) | n,
    ;
    r
}

/// Unpacks a hotkey ID: the creator code from the bits above the low 16,
/// the sequence number from the low 16 bits.
pub fn uint_to_hot_key_id(val: u64) -> (r: HotKeyId)
    ensures
        r.creator == (val / 65536) as u32,
        r.id == val % 65536,
{
    let c = (val >> 16u64) as u32;
    let n = (val & 0xFFFF) as u32;
    assert(c == (val / 65536) as u32 && n == val % 65536) by (bit_vector)
        requires
            c == (val >> 16u64) as u32,
            n == (val & 0xFFFF) as u32,
    ;
    HotKeyId { creator: c, id: n }
}

/// Unpacking a packed hotkey ID gives it back, for a sequence number that
/// fits in 16 bits.
pub proof fn lemma_hot_key_id_roundtrip(h: HotKeyId)
    requires
        h.id < 65536,
    ensures
        ((h.creator * 65536 + h.id % 65536) / 65536) as u32 == h.creator,
        (h.creator * 65536 + h.id % 65536) % 65536 == h.id,
{
    let v: int = h.creator * 65536 + h.id;
    assert(h.id % 65536 == h.id);
    assert((v / 65536) == h.creator && v % 65536 == h.id) by (nonlinear_arith)
        requires
            v == h.creator * 65536 + h.id,
            0 <= h.id < 65536,
            0 <= h.creator,
    ;
}

/// One hotkey to register: the key string as configured, its stroke, and
/// the binding it belongs to.
pub struct HotkeyRegistration {
    /// The key string as configured.
    pub key: String,
    /// The parsed stroke.
    pub stroke: KeyStroke,
    /// The ID of the binding.
    pub binding_id: String,
    /// The binding's action.
    pub action: Action,
}

/// A registration as mathematical values.
pub struct RegistrationView {
    pub key: Seq<char>,
    pub stroke: StrokeView,
    pub binding_id: Seq<char>,
    pub action: ActionView,
}

impl View for HotkeyRegistration {
    type V = RegistrationView;

    open spec fn view(&self) -> RegistrationView {
        RegistrationView { key: self.key@, stroke: self.stroke@, binding_id: self.binding_id@, action: self.action@ }
    }
}

/// The registrations for the key strings `keys` of a binding: one per key
/// string that parses, in order; the others are skipped.
pub open spec fn key_registrations(keys: Seq<Seq<char>>, b: BindingView) -> Seq<RegistrationView>
    decreases keys.len(),
{
    if keys.len() == 0 {
        Seq::empty()
    } else {
        key_registrations(keys.drop_last(), b) + match spec_parse(keys.last()) {
            Ok(k) => seq![RegistrationView { key: keys.last(), stroke: k, binding_id: b.id, action: b.action }],
            Err(_) => Seq::<RegistrationView>::empty(),
        }
    }
}

/// The registrations of the first `n` bindings on platform `p`, in order.
pub open spec fn registrations_upto(bs: Seq<BindingView>, n: int, p: OsPlatform) -> Seq<RegistrationView>
    decreases n,
{
    if n <= 0 {
        Seq::empty()
    } else {
        registrations_upto(bs, n - 1, p) + key_registrations(effective_keys_of(bs[n - 1], p), bs[n - 1])
    }
}

/// The views of a list of registrations.
pub open spec fn registrations_view(v: Seq<HotkeyRegistration>) -> Seq<RegistrationView> {
    v.map_values(|h: HotkeyRegistration| h@)
}

/// The hotkeys to register for a configuration on a platform: for every
/// binding in order, every effective key string that parses.
pub fn hotkey_registrations(config: &Config, platform: OsPlatform) -> (r: Vec<HotkeyRegistration>)
    ensures
        registrations_view(r@) == registrations_upto(config@.keybindings, config@.keybindings.len() as int, platform),
{
    let ghost bs = config@.keybindings;
    let mut out: Vec<HotkeyRegistration> = Vec::new();
    let mut i: usize = 0;
    assert(registrations_view(out@) =~= Seq::<RegistrationView>::empty());
    while i < config.keybindings.len()
        invariant
            i <= config.keybindings.len(),
            bs == config@.keybindings,
            registrations_view(out@) == registrations_upto(bs, i as int, platform),
        decreases config.keybindings.len() - i,
    {
        let b = &config.keybindings[i];
        assert(bs[i as int] == b@);
        let keys = b.effective_keys(platform);
        let ghost kv = keys.deep_view();
        let ghost base = registrations_view(out@);
        let mut j: usize = 0;
        assert(kv.take(0) =~= Seq::<Seq<char>>::empty());
        while j < keys.len()
            invariant
                j <= keys.len(),
                kv == keys.deep_view(),
                kv == effective_keys_of(b@, platform),
                registrations_view(out@) == base + key_registrations(kv.take(j as int), b@),
            decreases keys.len() - j,
        {
            let ghost before = registrations_view(out@);
            assert(kv.take(j + 1).drop_last() =~= kv.take(j as int));
            assert(kv.take(j + 1).last() == keys@[j as int]@);
            match KeyStroke::parse(keys[j].as_str()) {
                Ok(stroke) => {
                    let h = HotkeyRegistration {
                        key: keys[j].clone(),
                        stroke,
                        binding_id: b.id.clone(),
                        action: b.action.clone(),
                    };
                    out.push(h);
                    assert(registrations_view(out@) =~= before.push(h@));
                },
                Err(_) => {},
            }
            assert(registrations_view(out@) =~= base + key_registrations(kv.take(j + 1), b@));
            j = j + 1;
        }
        assert(kv.take(keys.len() as int) =~= kv);
        i = i + 1;
    }
    out
}

/// The message for a hotkey that the platform refused to register.
pub fn registration_failure(key: &String) -> (r: String)
    ensures
        r@ == "Failed to register hotkey: "@ + key@,
{
    let mut m = String::from_str("Failed to register hotkey: ");
    m.append(key.as_str());
    m
}

} // verus!
