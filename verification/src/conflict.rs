//! Key binding conflict detection: bindings conflict when they use the same
//! key stroke on the same platform.

use vstd::prelude::*;

use crate::config::{bindings_view, effective_keys_of, BindingView, KeyBinding};
use crate::keymap::{spec_display, spec_parse, KeyStroke};
use crate::os::{all_platforms, OsPlatform};

verus! {

broadcast use vstd::string::group_string_axioms;

/// A detected conflict: several bindings share one key stroke on one
/// platform.
#[derive(Debug)]
pub struct Conflict {
    /// The canonical key string involved in the conflict.
    pub key: String,
    /// The IDs of all bindings that share this key (at least 2).
    pub bindings: Vec<String>,
}

/// A [`Conflict`] as mathematical values.
pub struct ConflictView {
    pub key: Seq<char>,
    pub bindings: Seq<Seq<char>>,
}

impl View for Conflict {
    type V = ConflictView;

    open spec fn view(&self) -> ConflictView {
        ConflictView { key: self.key@, bindings: self.bindings.deep_view() }
    }
}

/// One use of a key stroke: the platform, the stroke's canonical display
/// string, and the ID of the binding that uses it.
pub type Entry = (OsPlatform, Seq<char>, Seq<char>);

/// The uses of the key strings `keys` by the binding `id` on `p`: one entry
/// per key string that parses, in order; the others are skipped.
pub open spec fn key_entries(keys: Seq<Seq<char>>, p: OsPlatform, id: Seq<char>) -> Seq<Entry>
    decreases keys.len(),
{
    if keys.len() == 0 {
        Seq::empty()
    } else {
        key_entries(keys.drop_last(), p, id) + match spec_parse(keys.last()) {
            Ok(k) => seq![(p, spec_display(k), id)],
            Err(_) => Seq::<Entry>::empty(),
        }
    }
}

/// The uses of key strokes by the first `n` bindings on `p`, in order.
pub open spec fn platform_entries(bs: Seq<BindingView>, n: int, p: OsPlatform) -> Seq<Entry>
    decreases n,
{
    if n <= 0 {
        Seq::empty()
    } else {
        platform_entries(bs, n - 1, p) + key_entries(effective_keys_of(bs[n - 1], p), p, bs[n - 1].id)
    }
}

/// The uses of key strokes by the first `n` platforms of the list.
pub open spec fn entries_upto(bs: Seq<BindingView>, n: int) -> Seq<Entry>
    decreases n,
{
    if n <= 0 {
        Seq::empty()
    } else {
        entries_upto(bs, n - 1) + platform_entries(bs, bs.len() as int, all_platforms()[n - 1])
    }
}

/// All uses of key strokes: for each platform (macOS, Windows, Linux), for
/// each binding in order, for each of its effective keys that parses.
pub open spec fn all_entries(bs: Seq<BindingView>) -> Seq<Entry> {
    entries_upto(bs, 3)
}

/// Two uses of the same stroke on the same platform.
pub open spec fn clash(a: Entry, b: Entry) -> bool {
    a.0 == b.0 && a.1 == b.1
}

/// The IDs of the bindings among the first `n` uses that use the stroke
/// `k` on `p`, in order (one per use).
pub open spec fn ids_upto(es: Seq<Entry>, n: int, p: OsPlatform, k: Seq<char>) -> Seq<Seq<char>>
    decreases n,
{
    if n <= 0 {
        Seq::empty()
    } else {
        ids_upto(es, n - 1, p, k) + if es[n - 1].0 == p && es[n - 1].1 == k {
            seq![es[n - 1].2]
        } else {
            Seq::<Seq<char>>::empty()
        }
    }
}

/// The IDs of the bindings that use the stroke `k` on `p`, in order.
pub open spec fn ids_of(es: Seq<Entry>, p: OsPlatform, k: Seq<char>) -> Seq<Seq<char>> {
    ids_upto(es, es.len() as int, p, k)
}

/// `es[i]` is the first use of its stroke on its platform.
pub open spec fn first_use(es: Seq<Entry>, i: int) -> bool {
    forall|j: int| 0 <= j < i ==> !#[trigger] clash(es[j], es[i])
}

/// The conflict of the stroke first used at `es[i]`: the stroke and every
/// binding that uses it on that platform.
pub open spec fn group_conflict(es: Seq<Entry>, i: int) -> ConflictView {
    ConflictView { key: es[i].1, bindings: ids_of(es, es[i].0, es[i].1) }
}

/// The use `es[i]` starts a conflict: it is the first use of its stroke on
/// its platform, and at least two uses share it.
pub open spec fn starts_conflict(es: Seq<Entry>, i: int) -> bool {
    first_use(es, i) && ids_of(es, es[i].0, es[i].1).len() >= 2
}

/// The conflicts started by the first `n` uses, in order.
pub open spec fn groups_upto(es: Seq<Entry>, n: int) -> Seq<ConflictView>
    decreases n,
{
    if n <= 0 {
        Seq::empty()
    } else {
        groups_upto(es, n - 1) + if starts_conflict(es, n - 1) {
            seq![group_conflict(es, n - 1)]
        } else {
            Seq::<ConflictView>::empty()
        }
    }
}

/// The conflicts among a list of bindings: for each platform and stroke
/// that two or more uses share, one conflict listing the IDs of all of
/// them, in the order the strokes are first used.
pub open spec fn conflicts_of(bs: Seq<BindingView>) -> Seq<ConflictView> {
    groups_upto(all_entries(bs), all_entries(bs).len() as int)
}

/// The conflicts started by the first `n` uses are those of the uses that
/// start one.
proof fn lemma_groups_contains(es: Seq<Entry>, n: int, c: ConflictView)
    requires
        n <= es.len(),
    ensures
        groups_upto(es, n).contains(c) <==> exists|i: int|
            0 <= i < n && starts_conflict(es, i) && c == #[trigger] group_conflict(es, i),
    decreases n,
{
    broadcast use vstd::seq_lib::group_seq_properties;

    if n > 0 {
        lemma_groups_contains(es, n - 1, c);
        if exists|i: int| 0 <= i < n && starts_conflict(es, i) && c == #[trigger] group_conflict(es, i) {
            let i = choose|i: int| 0 <= i < n && starts_conflict(es, i) && c == #[trigger] group_conflict(es, i);
            if i == n - 1 {
                assert(groups_upto(es, n).last() == c);
            } else {
                assert(groups_upto(es, n - 1).contains(c));
            }
        }
    } else {
        assert(groups_upto(es, n) =~= Seq::<ConflictView>::empty());
    }
}

/// The IDs listed for a stroke on a platform are those of the uses of it,
/// one per use.
proof fn lemma_ids_upto(es: Seq<Entry>, n: int, p: OsPlatform, k: Seq<char>, id: Seq<char>)
    requires
        n <= es.len(),
    ensures
        ids_upto(es, n, p, k).contains(id) <==> exists|i: int|
            0 <= i < n && es[i].0 == p && es[i].1 == k && #[trigger] es[i].2 == id,
    decreases n,
{
    broadcast use vstd::seq_lib::group_seq_properties;

    if n > 0 {
        lemma_ids_upto(es, n - 1, p, k, id);
        if exists|i: int| 0 <= i < n && es[i].0 == p && es[i].1 == k && #[trigger] es[i].2 == id {
            let i = choose|i: int| 0 <= i < n && es[i].0 == p && es[i].1 == k && #[trigger] es[i].2 == id;
            if i < n - 1 {
                assert(ids_upto(es, n - 1, p, k).contains(id));
            }
        }
    } else {
        assert(ids_upto(es, n, p, k) =~= Seq::<Seq<char>>::empty());
    }
}

/// For each platform and stroke that two or more uses share, one conflict
/// is reported, listing the IDs of every binding that uses the stroke on
/// that platform; nothing else is reported. A conflict is `c` exactly when
/// some use `i` is the first use of its stroke on its platform, at least two
/// uses share it, and `c` names the stroke and the IDs of all of them.
pub proof fn lemma_conflicts_are_groups(bs: Seq<BindingView>, c: ConflictView)
    ensures
        conflicts_of(bs).contains(c) <==> exists|i: int|
            0 <= i < all_entries(bs).len() && starts_conflict(all_entries(bs), i) && c
                == #[trigger] group_conflict(all_entries(bs), i),
{
    lemma_groups_contains(all_entries(bs), all_entries(bs).len() as int, c);
}

/// Every use has a first use of its stroke on its platform, at or before it.
proof fn lemma_first_clash(es: Seq<Entry>, i: int) -> (j: int)
    requires
        0 <= i < es.len(),
    ensures
        0 <= j <= i,
        clash(es[j], es[i]),
        first_use(es, j),
    decreases i,
{
    if first_use(es, i) {
        i
    } else {
        let j0 = choose|j: int| 0 <= j < i && #[trigger] clash(es[j], es[i]);
        lemma_first_clash(es, j0)
    }
}

/// Every stroke that two or more uses share on a platform gets a conflict:
/// for a use `es[i]` whose stroke is used at least twice on its platform,
/// the conflict naming that stroke and the IDs of all its uses is reported.
pub proof fn lemma_shared_stroke_reported(bs: Seq<BindingView>, i: int)
    requires
        0 <= i < all_entries(bs).len(),
        ids_of(all_entries(bs), all_entries(bs)[i].0, all_entries(bs)[i].1).len() >= 2,
    ensures
        conflicts_of(bs).contains(
            ConflictView {
                key: all_entries(bs)[i].1,
                bindings: ids_of(all_entries(bs), all_entries(bs)[i].0, all_entries(bs)[i].1),
            },
        ),
{
    let es = all_entries(bs);
    let c = ConflictView { key: es[i].1, bindings: ids_of(es, es[i].0, es[i].1) };
    let j = lemma_first_clash(es, i);
    assert(starts_conflict(es, j));
    assert(c == group_conflict(es, j));
    lemma_groups_contains(es, es.len() as int, c);
}

/// The IDs of a conflict's stroke are those of every binding that uses it:
/// `id` is listed for `k` on `p` exactly when some use of `k` on `p` is by
/// the binding `id`.
pub proof fn lemma_ids_complete(es: Seq<Entry>, p: OsPlatform, k: Seq<char>, id: Seq<char>)
    ensures
        ids_of(es, p, k).contains(id) <==> exists|i: int|
            0 <= i < es.len() && es[i].0 == p && es[i].1 == k && #[trigger] es[i].2 == id,
{
    lemma_ids_upto(es, es.len() as int, p, k, id);
}

/// No two conflicts come from the same platform and stroke: two different
/// uses that each start a conflict do not clash.
pub proof fn lemma_one_conflict_per_stroke(es: Seq<Entry>, i: int, j: int)
    requires
        0 <= i < j < es.len(),
        starts_conflict(es, i),
        starts_conflict(es, j),
    ensures
        !clash(es[i], es[j]),
{
    assert(!clash(es[i], es[j]));
}

/// The views of a list of conflicts.
pub open spec fn conflicts_view(cs: Seq<Conflict>) -> Seq<ConflictView> {
    cs.map_values(|c: Conflict| c@)
}

/// The views of a list of entries.
pub open spec fn entries_view(es: Seq<(OsPlatform, String, String)>) -> Seq<Entry> {
    es.map_values(|e: (OsPlatform, String, String)| (e.0, e.1@, e.2@))
}

/// Appends the uses of the binding `b` on `p` to `out`.
fn push_binding_entries(b: &KeyBinding, p: OsPlatform, out: &mut Vec<(OsPlatform, String, String)>)
    ensures
        entries_view(final(out)@) == entries_view(old(out)@) + key_entries(effective_keys_of(b@, p), p, b@.id),
{
    let keys = b.effective_keys(p);
    let ghost kv = keys.deep_view();
    let ghost start = entries_view(out@);
    let mut j: usize = 0;
    assert(kv.take(0) =~= Seq::<Seq<char>>::empty());
    while j < keys.len()
        invariant
            j <= keys.len(),
            kv == keys.deep_view(),
            kv == effective_keys_of(b@, p),
            entries_view(out@) == start + key_entries(kv.take(j as int), p, b@.id),
        decreases keys.len() - j,
    {
        let ghost before = entries_view(out@);
        assert(kv.take(j + 1).drop_last() =~= kv.take(j as int));
        assert(kv.take(j + 1).last() == keys@[j as int]@);
        match KeyStroke::parse(keys[j].as_str()) {
            Ok(stroke) => {
                let d = stroke.display();
                let e = (p, d, b.id.clone());
                out.push(e);
                assert(entries_view(out@) =~= before.push((p, d@, b@.id)));
            },
            Err(_) => {},
        }
        assert(entries_view(out@) =~= start + key_entries(kv.take(j + 1), p, b@.id));
        j = j + 1;
    }
    assert(kv.take(keys.len() as int) =~= kv);
}

/// All uses of key strokes by the bindings, in the order of [`all_entries`].
fn collect_entries(bs: &Vec<KeyBinding>) -> (r: Vec<(OsPlatform, String, String)>)
    ensures
        entries_view(r@) == all_entries(bindings_view(bs@)),
{
    let ghost v = bindings_view(bs@);
    let platforms = OsPlatform::all();
    let mut out: Vec<(OsPlatform, String, String)> = Vec::new();
    let mut pi: usize = 0;
    assert(entries_view(out@) =~= Seq::<Entry>::empty());
    while pi < platforms.len()
        invariant
            pi <= platforms.len() == 3,
            platforms@ == all_platforms(),
            v == bindings_view(bs@),
            entries_view(out@) == entries_upto(v, pi as int),
        decreases platforms.len() - pi,
    {
        let p = platforms[pi];
        let ghost base = entries_upto(v, pi as int);
        let mut i: usize = 0;
        while i < bs.len()
            invariant
                i <= bs.len(),
                v == bindings_view(bs@),
                p == all_platforms()[pi as int],
                entries_view(out@) == base + platform_entries(v, i as int, p),
            decreases bs.len() - i,
        {
            assert(v[i as int] == bs@[i as int]@);
            push_binding_entries(&bs[i], p, &mut out);
            assert(base + platform_entries(v, i + 1, p) =~= base + platform_entries(v, i as int, p)
                + key_entries(effective_keys_of(v[i as int], p), p, v[i as int].id));
            i = i + 1;
        }
        pi = pi + 1;
    }
    out
}

/// Whether `es[i]` is the first use of its stroke on its platform.
fn is_first_use(es: &Vec<(OsPlatform, String, String)>, i: usize) -> (r: bool)
    requires
        i < es.len(),
    ensures
        r == first_use(entries_view(es@), i as int),
{
    let ghost ev = entries_view(es@);
    let mut j: usize = 0;
    while j < i
        invariant
            j <= i < es.len(),
            ev == entries_view(es@),
            forall|k: int| 0 <= k < j ==> !#[trigger] clash(ev[k], ev[i as int]),
        decreases i - j,
    {
        if es[j].0 == es[i].0 && es[j].1 == es[i].1 {
            assert(clash(ev[j as int], ev[i as int]));
            return false;
        }
        j = j + 1;
    }
    true
}

/// The IDs of the uses of the stroke of `es[i]` on its platform, in order.
fn ids_for(es: &Vec<(OsPlatform, String, String)>, i: usize) -> (r: Vec<String>)
    requires
        i < es.len(),
    ensures
        r.deep_view() == ids_of(entries_view(es@), es@[i as int].0, es@[i as int].1@),
{
    let ghost ev = entries_view(es@);
    let ghost p = es@[i as int].0;
    let ghost k = es@[i as int].1@;
    let mut out: Vec<String> = Vec::new();
    let mut j: usize = 0;
    while j < es.len()
        invariant
            i < es.len(),
            j <= es.len(),
            ev == entries_view(es@),
            p == es@[i as int].0,
            k == es@[i as int].1@,
            out.deep_view() == ids_upto(ev, j as int, p, k),
        decreases es.len() - j,
    {
        let ghost before = out.deep_view();
        if es[j].0 == es[i].0 && es[j].1 == es[i].1 {
            let id = es[j].2.clone();
            out.push(id);
            assert(out.deep_view() =~= before.push(id@));
        } else {
            assert(out.deep_view() =~= before + Seq::<Seq<char>>::empty());
        }
        j = j + 1;
    }
    out
}

/// Detects conflicts among key bindings: for every platform and key stroke
/// (after parsing, so that `"Ctrl+Shift+V"` and `"Shift+Ctrl+V"` are the
/// same) that two or more key strings of bindings use, one conflict listing
/// the stroke's canonical display string and the IDs of all the bindings
/// that use it, in order. Key strings that do not parse are skipped.
pub fn detect_conflicts(keybindings: &Vec<KeyBinding>) -> (r: Vec<Conflict>)
    ensures
        conflicts_view(r@) == conflicts_of(bindings_view(keybindings@)),
{
    let es = collect_entries(keybindings);
    let ghost ev = entries_view(es@);
    let n = es.len();
    let mut out: Vec<Conflict> = Vec::new();
    let mut i: usize = 0;
    assert(conflicts_view(out@) =~= groups_upto(ev, 0));
    while i < n
        invariant
            i <= n == es.len(),
            ev == entries_view(es@),
            ev == all_entries(bindings_view(keybindings@)),
            conflicts_view(out@) == groups_upto(ev, i as int),
        decreases n - i,
    {
        let ghost before = conflicts_view(out@);
        if is_first_use(&es, i) {
            let ids = ids_for(&es, i);
            if ids.len() >= 2 {
                let c = Conflict { key: es[i].1.clone(), bindings: ids };
                out.push(c);
                assert(conflicts_view(out@) =~= before.push(c@));
            } else {
                assert(conflicts_view(out@) =~= before + Seq::<ConflictView>::empty());
            }
        } else {
            assert(conflicts_view(out@) =~= before + Seq::<ConflictView>::empty());
        }
        i = i + 1;
    }
    out
}

} // verus!
