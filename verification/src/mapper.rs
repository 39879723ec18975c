//! Key binding lookup engines: from a key stroke to the action bound to it.

use vstd::prelude::*;

use crate::actions::{Action, ActionView};
use crate::keymap::{KeyStroke, Modifier, StrokeView};

verus! {

broadcast use vstd::string::group_string_axioms;

/// A key binding lookup engine: maps key strokes to actions.
pub trait KeyMapper {
    /// The bindings as a map from key strokes to actions.
    spec fn bound_actions(&self) -> Map<StrokeView, ActionView>;

    /// The action bound to `stroke`, if any.
    fn lookup(&self, stroke: &KeyStroke) -> (r: Option<&Action>)
        ensures
            match r {
                Some(a) => self.bound_actions().contains_key(stroke@) && a@ == self.bound_actions()[stroke@],
                None => !self.bound_actions().contains_key(stroke@),
            },
    ;

    /// Whether `stroke` is bound.
    fn is_bound(&self, stroke: &KeyStroke) -> (r: bool)
        ensures
            r == self.bound_actions().contains_key(stroke@),
    {
        self.lookup(stroke).is_some()
    }
}

/// The map from strokes to actions that a list of distinct-stroke entries
/// describes.
pub open spec fn entries_map(es: Seq<(StrokeView, ActionView)>) -> Map<StrokeView, ActionView> {
    Map::new(
        |k: StrokeView| exists|i: int| 0 <= i < es.len() && #[trigger] es[i].0 == k,
        |k: StrokeView| es[choose|i: int| 0 <= i < es.len() && #[trigger] es[i].0 == k].1,
    )
}

/// No stroke occurs twice among the entries.
pub open spec fn distinct_strokes(es: Seq<(StrokeView, ActionView)>) -> bool {
    forall|i: int, j: int| 0 <= i < j < es.len() ==> #[trigger] es[i].0 != #[trigger] es[j].0
}

/// A [`KeyMapper`] built from a configuration: a table of stroke/action
/// entries in which no stroke occurs twice.
pub struct ConfigKeyMapper {
    map: Vec<(KeyStroke, Action)>,
}

/// The entries of a table as mathematical values.
pub open spec fn entries_view(m: Seq<(KeyStroke, Action)>) -> Seq<(StrokeView, ActionView)> {
    m.map_values(|e: (KeyStroke, Action)| (e.0@, e.1@))
}

/// Whether two strokes are the same stroke.
pub fn same_stroke(a: &KeyStroke, b: &KeyStroke) -> (r: bool)
    ensures
        r == (a@ == b@),
{
    if a.modifiers.len() != b.modifiers.len() {
        assert(a@.modifiers.len() != b@.modifiers.len());
        return false;
    }
    let mut i: usize = 0;
    while i < a.modifiers.len()
        invariant
            i <= a.modifiers.len() == b.modifiers.len(),
            forall|k: int| 0 <= k < i ==> a.modifiers@[k] == b.modifiers@[k],
        decreases a.modifiers.len() - i,
    {
        let x: Modifier = a.modifiers[i];
        let y: Modifier = b.modifiers[i];
        if x != y {
            assert(a@.modifiers[i as int] != b@.modifiers[i as int]);
            return false;
        }
        i = i + 1;
    }
    assert(a.modifiers@ =~= b.modifiers@);
    let r = a.key.code == b.key.code;
    r
}

impl ConfigKeyMapper {
    #[verifier::type_invariant]
    spec fn wf(self) -> bool {
        distinct_strokes(entries_view(self.map@))
    }

    /// The table of a mapper, as mathematical values.
    pub closed spec fn entries(self) -> Seq<(StrokeView, ActionView)> {
        entries_view(self.map@)
    }

    /// An empty mapper.
    pub fn new() -> (r: Self)
        ensures
            r.bound_actions() == Map::<StrokeView, ActionView>::empty(),
    {
        let r = ConfigKeyMapper { map: Vec::new() };
        assert(r.bound_actions() =~= Map::<StrokeView, ActionView>::empty());
        r
    }

    /// The index of the entry for `stroke`, if any.
    fn find(&self, stroke: &KeyStroke) -> (r: Option<usize>)
        ensures
            match r {
                Some(i) => i < self.map@.len() && self.entries()[i as int].0 == stroke@,
                None => forall|i: int| 0 <= i < self.map@.len() ==> #[trigger] self.entries()[i].0 != stroke@,
            },
    {
        let mut i: usize = 0;
        while i < self.map.len()
            invariant
                i <= self.map.len(),
                forall|k: int| 0 <= k < i ==> #[trigger] self.entries()[k].0 != stroke@,
            decreases self.map.len() - i,
        {
            if same_stroke(&self.map[i].0, stroke) {
                return Some(i);
            }
            i = i + 1;
        }
        None
    }

    /// Binds `stroke` to `action`, replacing an earlier binding of the stroke.
    pub fn insert(&mut self, stroke: KeyStroke, action: Action)
        ensures
            final(self).bound_actions() == old(self).bound_actions().insert(stroke@, action@),
    {
        proof {
            use_type_invariant(&*self);
        }
        let ghost k = stroke@;
        let ghost a = action@;
        let ghost old_es = self.entries();
        match self.find(&stroke) {
            Some(i) => {
                let mut m: Vec<(KeyStroke, Action)> = Vec::new();
                std::mem::swap(&mut m, &mut self.map);
                m.set(i, (stroke, action));
                let ghost new_es = entries_view(m@);
                assert(new_es =~= old_es.update(i as int, (k, a)));
                assert(distinct_strokes(new_es)) by {
                    assert forall|x: int, y: int| 0 <= x < y < new_es.len() implies #[trigger] new_es[x].0
                        != #[trigger] new_es[y].0 by {
                        if x != i && y != i {
                            assert(old_es[x].0 != old_es[y].0);
                        } else if x == i {
                            assert(old_es[y].0 != old_es[x].0);
                        } else {
                            assert(old_es[x].0 != old_es[y].0);
                        }
                    }
                }
                self.map = m;
                proof {
                    assert forall|q: StrokeView| #[trigger] entries_map(new_es).contains_key(q) <==> entries_map(old_es).insert(k, a).contains_key(q) by {
                        if q != k {
                            if entries_map(old_es).contains_key(q) {
                                let w = choose|w: int| 0 <= w < old_es.len() && #[trigger] old_es[w].0 == q;
                                assert(new_es[w].0 == q);
                            }
                            if entries_map(new_es).contains_key(q) {
                                let w = choose|w: int| 0 <= w < new_es.len() && #[trigger] new_es[w].0 == q;
                                assert(old_es[w].0 == q);
                            }
                        } else {
                            assert(new_es[i as int].0 == q);
                        }
                    }
                    assert forall|q: StrokeView| #[trigger] entries_map(new_es).contains_key(q) implies entries_map(new_es)[q] == entries_map(old_es).insert(k, a)[q] by {
                        let w = choose|w: int| 0 <= w < new_es.len() && #[trigger] new_es[w].0 == q;
                        if q == k {
                            assert(w == i);
                        } else {
                            assert(old_es[w].0 == q);
                            let w2 = choose|w2: int| 0 <= w2 < old_es.len() && #[trigger] old_es[w2].0 == q;
                            assert(w2 == w);
                        }
                    }
                    assert(entries_map(new_es) =~= entries_map(old_es).insert(k, a));
                }
            },
            None => {
                let mut m: Vec<(KeyStroke, Action)> = Vec::new();
                std::mem::swap(&mut m, &mut self.map);
                m.push((stroke, action));
                let ghost new_es = entries_view(m@);
                assert(new_es =~= old_es.push((k, a)));
                assert(distinct_strokes(new_es)) by {
                    assert forall|x: int, y: int| 0 <= x < y < new_es.len() implies #[trigger] new_es[x].0
                        != #[trigger] new_es[y].0 by {
                        if y < old_es.len() {
                            assert(old_es[x].0 != old_es[y].0);
                        } else {
                            assert(old_es[x].0 != k);
                        }
                    }
                }
                self.map = m;
                proof {
                    let n = old_es.len() as int;
                    assert forall|q: StrokeView| #[trigger] entries_map(new_es).contains_key(q) <==> entries_map(old_es).insert(k, a).contains_key(q) by {
                        if q != k {
                            if entries_map(old_es).contains_key(q) {
                                let w = choose|w: int| 0 <= w < old_es.len() && #[trigger] old_es[w].0 == q;
                                assert(new_es[w].0 == q);
                            }
                            if entries_map(new_es).contains_key(q) {
                                let w = choose|w: int| 0 <= w < new_es.len() && #[trigger] new_es[w].0 == q;
                                assert(old_es[w].0 == q);
                            }
                        } else {
                            assert(new_es[n].0 == q);
                        }
                    }
                    assert forall|q: StrokeView| #[trigger] entries_map(new_es).contains_key(q) implies entries_map(new_es)[q] == entries_map(old_es).insert(k, a)[q] by {
                        let w = choose|w: int| 0 <= w < new_es.len() && #[trigger] new_es[w].0 == q;
                        if q == k {
                            if w < n {
                                assert(old_es[w].0 == k);
                                assert(false);
                            }
                        } else {
                            assert(old_es[w].0 == q);
                            let w2 = choose|w2: int| 0 <= w2 < old_es.len() && #[trigger] old_es[w2].0 == q;
                            if w2 != w {
                                assert(new_es[w2].0 == q);
                            }
                        }
                    }
                    assert(entries_map(new_es) =~= entries_map(old_es).insert(k, a));
                }
            },
        }
    }
}

impl KeyMapper for ConfigKeyMapper {
    closed spec fn bound_actions(&self) -> Map<StrokeView, ActionView> {
        entries_map(entries_view(self.map@))
    }

    fn lookup(&self, stroke: &KeyStroke) -> (r: Option<&Action>) {
        proof {
            use_type_invariant(self);
        }
        match self.find(stroke) {
            Some(i) => {
                proof {
                    let es = self.entries();
                    assert(es[i as int].0 == stroke@);
                    let w = choose|w: int| 0 <= w < es.len() && #[trigger] es[w].0 == stroke@;
                    if w != i as int {
                        if w < i {
                            assert(es[w].0 != es[i as int].0);
                        } else {
                            assert(es[i as int].0 != es[w].0);
                        }
                    }
                    assert(entries_map(es).contains_key(stroke@));
                    assert(entries_map(es)[stroke@] == es[i as int].1);
                    assert(es[i as int].1 == self.map@[i as int].1@);
                }
                Some(&self.map[i].1)
            },
            None => {
                proof {
                    let es = self.entries();
                    if entries_map(es).contains_key(stroke@) {
                        let w = choose|w: int| 0 <= w < es.len() && #[trigger] es[w].0 == stroke@;
                        assert(es[w].0 != stroke@);
                    }
                }
                None
            },
        }
    }
}

} // verus!
