//! Scoped symbol bindings with checkpoint/rollback and snapshot capture.

use vstd::prelude::*;
use crate::types::{ChangeV, EnvV, FuncV, Mal, MalFunc, MalV, Native, Symbol};
use vstd::pervasive::VecAdditionalExecFns;
use vstd::string::StringExecFns;

verus! {

/// One recorded change to the binding store, kept so that a checkpointed
/// scope can be unwound to its exact prior state.
#[derive(Debug)]
pub enum EnvChange {
    /// A new scope was entered.
    NewScopeEntered,
    /// A binding was created for a name that was previously absent.
    BindingAdded(Symbol),
    /// The binding of the symbol was replaced; the old value is kept.
    BindingReplaced(Symbol, Mal),
}

/// The environment: a flat binding store plus a change history whose
/// scope markers delimit checkpointed frames.
#[derive(Debug)]
pub struct Env {
    pub map: Vec<(Symbol, Mal)>,
    pub history: Vec<EnvChange>,
}

impl View for Env {
    type V = crate::types::EnvV;

    open spec fn view(&self) -> crate::types::EnvV {
        crate::types::view_env(*self)
    }
}

/// Deep-copies a binding store.
pub(crate) fn clone_binds(v: &Vec<(Symbol, Mal)>) -> (r: Vec<(Symbol, Mal)>)
    ensures
        crate::types::view_bind_seq(r@) == crate::types::view_bind_seq(v@),
    decreases *v,
{
    broadcast use crate::types::group_view_lemmas;

    let mut r: Vec<(Symbol, Mal)> = Vec::new();
    let mut i: usize = 0;
    while i < v.len()
        invariant
            i <= v.len(),
            crate::types::view_bind_seq(r@) == crate::types::view_bind_seq(
                v@.subrange(0, i as int),
            ),
        decreases v.len() - i,
    {
        let entry = (v[i].0.clone(), crate::types::clone_mal(&v[i].1));
        proof {
            crate::types::lemma_view_bind_seq_push(r@, entry);
            crate::types::lemma_view_bind_seq_push(v@.subrange(0, i as int), v@[i as int]);
            assert(v@.subrange(0, i + 1) =~= v@.subrange(0, i as int).push(v@[i as int]));
        }
        r.push(entry);
        i = i + 1;
    }
    proof {
        assert(v@.subrange(0, v@.len() as int) =~= v@);
    }
    r
}

/// Deep-copies a change history.
pub(crate) fn clone_changes(v: &Vec<EnvChange>) -> (r: Vec<EnvChange>)
    ensures
        crate::types::view_change_seq(r@) == crate::types::view_change_seq(v@),
    decreases *v,
{
    broadcast use crate::types::group_view_lemmas;

    let mut r: Vec<EnvChange> = Vec::new();
    let mut i: usize = 0;
    while i < v.len()
        invariant
            i <= v.len(),
            crate::types::view_change_seq(r@) == crate::types::view_change_seq(
                v@.subrange(0, i as int),
            ),
        decreases v.len() - i,
    {
        let entry = match &v[i] {
            EnvChange::NewScopeEntered => EnvChange::NewScopeEntered,
            EnvChange::BindingAdded(s) => EnvChange::BindingAdded(s.clone()),
            EnvChange::BindingReplaced(s, m) => EnvChange::BindingReplaced(
                s.clone(),
                crate::types::clone_mal(m),
            ),
        };
        proof {
            crate::types::lemma_view_change_seq_push(r@, entry);
            crate::types::lemma_view_change_seq_push(v@.subrange(0, i as int), v@[i as int]);
            assert(v@.subrange(0, i + 1) =~= v@.subrange(0, i as int).push(v@[i as int]));
        }
        r.push(entry);
        i = i + 1;
    }
    proof {
        assert(v@.subrange(0, v@.len() as int) =~= v@);
    }
    r
}

/// Snapshot capture: a full independent copy of the binding store and
/// history, as taken when a closure is created.
pub fn clone_env(e: &Env) -> (r: Env)
    ensures
        r@ == e@,
    decreases *e,
{
    Env { map: clone_binds(&e.map), history: clone_changes(&e.history) }
}

impl Clone for Env {
    fn clone(&self) -> (r: Env)
        ensures
            r@ == self@,
    {
        clone_env(self)
    }
}

} // verus!

verus! {

// ------------------------------------------------------------------
// Spec-level operations on the binding store.  Lookups and updates go
// to the first entry with the given name.
// ------------------------------------------------------------------

pub open spec fn lookup_from_v(m: Seq<(Seq<char>, MalV)>, name: Seq<char>, i: int) -> Option<MalV>
    decreases m.len() - i,
{
    if 0 <= i < m.len() {
        if m[i].0 == name {
            Option::Some(m[i].1)
        } else {
            lookup_from_v(m, name, i + 1)
        }
    } else {
        Option::None
    }
}

/// The value bound to `name`, if any.
pub open spec fn lookup_v(m: Seq<(Seq<char>, MalV)>, name: Seq<char>) -> Option<MalV> {
    lookup_from_v(m, name, 0)
}

pub open spec fn map_set_from_v(
    m: Seq<(Seq<char>, MalV)>,
    name: Seq<char>,
    val: MalV,
    i: int,
) -> Seq<(Seq<char>, MalV)>
    decreases m.len() - i,
{
    if 0 <= i < m.len() {
        if m[i].0 == name {
            m.update(i, (name, val))
        } else {
            map_set_from_v(m, name, val, i + 1)
        }
    } else {
        m.push((name, val))
    }
}

/// The binding store with `name` bound to `val`: the first entry for
/// `name` is replaced in place, or a new entry is appended.
pub open spec fn map_set_v(
    m: Seq<(Seq<char>, MalV)>,
    name: Seq<char>,
    val: MalV,
) -> Seq<(Seq<char>, MalV)> {
    map_set_from_v(m, name, val, 0)
}

pub open spec fn map_remove_from_v(
    m: Seq<(Seq<char>, MalV)>,
    name: Seq<char>,
    i: int,
) -> Seq<(Seq<char>, MalV)>
    decreases m.len() - i,
{
    if 0 <= i < m.len() {
        if m[i].0 == name {
            m.remove(i)
        } else {
            map_remove_from_v(m, name, i + 1)
        }
    } else {
        m
    }
}

/// The binding store with the first entry for `name` removed, if any.
pub open spec fn map_remove_v(
    m: Seq<(Seq<char>, MalV)>,
    name: Seq<char>,
) -> Seq<(Seq<char>, MalV)> {
    map_remove_from_v(m, name, 0)
}

/// What `define` does: bind the name and record how to undo it.
pub open spec fn env_set_v(e: EnvV, name: Seq<char>, val: MalV) -> EnvV {
    EnvV {
        map: map_set_v(e.map, name, val),
        history: e.history.push(
            match lookup_v(e.map, name) {
                Option::Some(old_val) => ChangeV::Replaced(name, old_val),
                Option::None => ChangeV::Added(name),
            },
        ),
    }
}

/// What entering a scope does: push a checkpoint marker.
pub open spec fn env_push_v(e: EnvV) -> EnvV {
    EnvV { map: e.map, history: e.history.push(ChangeV::Scope) }
}

/// Undoes one recorded change.
pub open spec fn undo_v(m: Seq<(Seq<char>, MalV)>, c: ChangeV) -> Seq<(Seq<char>, MalV)> {
    match c {
        ChangeV::Scope => m,
        ChangeV::Added(name) => map_remove_v(m, name),
        ChangeV::Replaced(name, val) => map_set_v(m, name, val),
    }
}

/// What leaving a scope does: unwind every recorded change back to and
/// including the most recent checkpoint marker.
pub open spec fn env_pop_v(e: EnvV) -> EnvV
    decreases e.history.len(),
{
    if e.history.len() == 0 {
        e
    } else {
        let top = e.history.last();
        let rest = e.history.subrange(0, e.history.len() - 1);
        if top is Scope {
            EnvV { map: e.map, history: rest }
        } else {
            env_pop_v(EnvV { map: undo_v(e.map, top), history: rest })
        }
    }
}

/// Whether a checkpoint marker is open.
pub open spec fn has_marker_v(h: Seq<ChangeV>) -> bool {
    exists|i: int| 0 <= i < h.len() && h[i] is Scope
}

// ------------------------------------------------------------------
// Executable operations.
// ------------------------------------------------------------------

/// Finds the first entry for `name`, together with everything the
/// callers need to know about lookups, updates and removals at that
/// position.
fn find_first(map: &Vec<(Symbol, Mal)>, name: &str) -> (r: Option<usize>)
    ensures
        ({
            let mv = crate::types::view_bind_seq(map@);
            match r {
                Option::Some(i) => i < map@.len() && mv[i as int].0 == name@ && lookup_v(mv, name@)
                    == Option::Some(mv[i as int].1) && (forall|val: MalV|
                    map_set_v(mv, name@, val) == mv.update(i as int, (name@, val)))
                    && map_remove_v(mv, name@) == mv.remove(i as int),
                Option::None => lookup_v(mv, name@) is None && (forall|val: MalV|
                    map_set_v(mv, name@, val) == mv.push((name@, val))) && map_remove_v(mv, name@)
                    == mv,
            }
        }),
{
    proof {
        crate::types::lemma_view_bind_seq_len(map@);
    }
    let ghost mv = crate::types::view_bind_seq(map@);
    let mut j: usize = 0;
    while j < map.len()
        invariant
            j <= map@.len(),
            mv == crate::types::view_bind_seq(map@),
            mv.len() == map@.len(),
            lookup_from_v(mv, name@, j as int) == lookup_v(mv, name@),
            forall|val: MalV|
                map_set_from_v(mv, name@, val, j as int) == #[trigger] map_set_v(mv, name@, val),
            map_remove_from_v(mv, name@, j as int) == map_remove_v(mv, name@),
        decreases map@.len() - j,
    {
        proof {
            crate::types::lemma_view_bind_seq_index(map@, j as int);
        }
        if crate::types::str_eq(map[j].0.inner.as_str(), name) {
            proof {
                assert forall|val: MalV| map_set_v(mv, name@, val) == mv.update(
                    j as int,
                    (name@, val),
                ) by {
                    assert(map_set_from_v(mv, name@, val, j as int) == mv.update(
                        j as int,
                        (name@, val),
                    ));
                }
            }
            return Some(j);
        }
        proof {
            assert forall|val: MalV| map_set_from_v(mv, name@, val, j + 1) == map_set_v(
                mv,
                name@,
                val,
            ) by {
                assert(map_set_from_v(mv, name@, val, j as int) == map_set_from_v(
                    mv,
                    name@,
                    val,
                    j + 1,
                ));
            }
        }
        j = j + 1;
    }
    None
}

impl Env {
    /// A fresh, empty environment.
    pub fn new() -> (r: Env)
        ensures
            r@.map == Seq::<(Seq<char>, MalV)>::empty(),
            r@.history == Seq::<ChangeV>::empty(),
    {
        Env { map: Vec::new(), history: Vec::new() }
    }

    /// Resolves a symbol, or reports it unbound.
    pub fn get(&self, ident: &Symbol) -> (r: Result<Mal, crate::errors::MalError>)
        ensures
            match r {
                Ok(v) => lookup_v(self@.map, ident@) == Option::Some(v@),
                Err(e) => lookup_v(self@.map, ident@) is None && e@
                    == crate::errors::ErrV::Unbound(ident@),
            },
    {
        match find_first(&self.map, ident.inner.as_str()) {
            Option::Some(i) => {
                proof {
                    crate::types::lemma_view_bind_seq_index(self.map@, i as int);
                }
                Ok(crate::types::clone_mal(&self.map[i].1))
            },
            Option::None => Err(
                crate::errors::MalError::Unbound { name: ident.inner.clone() },
            ),
        }
    }

    /// Creates or overwrites a binding in the current frame, recording
    /// the prior state for rollback.
    pub fn set(&mut self, ident: Symbol, value: Mal)
        ensures
            final(self)@ == env_set_v(old(self)@, ident@, value@),
    {
        broadcast use crate::types::group_view_lemmas;

        match find_first(&self.map, ident.inner.as_str()) {
            Option::Some(i) => {
                proof {
                    crate::types::lemma_view_bind_seq_index(self.map@, i as int);
                }
                let mut pair = (ident, value);
                self.map.set_and_swap(i, &mut pair);
                proof {
                    crate::types::lemma_view_bind_seq_update(
                        old(self).map@,
                        i as int,
                        self.map@[i as int],
                    );
                }
                let entry = EnvChange::BindingReplaced(pair.0, pair.1);
                proof {
                    crate::types::lemma_view_change_seq_push(self.history@, entry);
                }
                self.history.push(entry);
            },
            Option::None => {
                let entry = EnvChange::BindingAdded(ident.clone());
                proof {
                    crate::types::lemma_view_change_seq_push(self.history@, entry);
                    crate::types::lemma_view_bind_seq_push(self.map@, (ident, value));
                }
                self.map.push((ident, value));
                self.history.push(entry);
            },
        }
    }

    /// Opens a checkpointed scope.
    pub fn push_scope(&mut self)
        ensures
            final(self)@ == env_push_v(old(self)@),
    {
        let entry = EnvChange::NewScopeEntered;
        proof {
            crate::types::lemma_view_change_seq_push(self.history@, entry);
        }
        self.history.push(entry);
    }

    /// Closes the most recent checkpointed scope, unwinding every
    /// binding addition or replacement recorded since its marker.  The
    /// caller must hold an open checkpoint: an unwind that found no
    /// marker would be an internal-invariant violation, so it is ruled
    /// out here rather than handled.
    pub fn pop_scope(&mut self)
        requires
            has_marker_v(old(self)@.history),
        ensures
            final(self)@ == env_pop_v(old(self)@),
    {
        let mut done = false;
        while !done
            invariant
                done ==> self@ == env_pop_v(old(self)@),
                !done ==> env_pop_v(self@) == env_pop_v(old(self)@) && has_marker_v(self@.history),
            decreases self.history@.len() + (if done { 0int } else { 1 }),
        {
            proof {
                crate::types::lemma_view_change_seq_len(self.history@);
                let w = choose|w: int| 0 <= w < self@.history.len() && self@.history[w] is Scope;
                assert(self.history@.len() > 0);
            }
            let ghost pre = self@;
            let ghost prevec = self.history@;
            let top = self.history.pop();
            proof {
                // The view of the shortened history is the old view
                // without its last entry.
                assert(prevec.subrange(0, prevec.len() - 1).subrange(
                    0,
                    prevec.len() - 1,
                ) =~= prevec.subrange(0, prevec.len() - 1));
                assert(pre.history == crate::types::view_change_seq(self.history@).push(
                    crate::types::view_change(prevec[prevec.len() - 1]),
                ));
                assert(self@.history == pre.history.subrange(0, pre.history.len() - 1));
                assert(pre.history.last() == crate::types::view_change(prevec[prevec.len() - 1]));
            }
            match top {
                Option::Some(EnvChange::NewScopeEntered) => {
                    done = true;
                },
                Option::Some(EnvChange::BindingAdded(s)) => {
                    proof {
                        if !has_marker_v(self@.history) {
                            let w = choose|w: int|
                                0 <= w < pre.history.len() && pre.history[w] is Scope;
                            assert(self@.history[w] is Scope);
                        }
                    }
                    match find_first(&self.map, s.inner.as_str()) {
                        Option::Some(i) => {
                            proof {
                                crate::types::lemma_view_bind_seq_remove(self.map@, i as int);
                            }
                            self.map.remove(i);
                        },
                        Option::None => {},
                    }
                },
                Option::Some(EnvChange::BindingReplaced(s, v)) => {
                    proof {
                        if !has_marker_v(self@.history) {
                            let w = choose|w: int|
                                0 <= w < pre.history.len() && pre.history[w] is Scope;
                            assert(self@.history[w] is Scope);
                        }
                    }
                    match find_first(&self.map, s.inner.as_str()) {
                        Option::Some(i) => {
                            proof {
                                crate::types::lemma_view_bind_seq_index(self.map@, i as int);
                            }
                            let ghost oldmap = self.map@;
                            let mut pair = (s, v);
                            let ghost newpair = pair;
                            self.map.set_and_swap(i, &mut pair);
                            proof {
                                crate::types::lemma_view_bind_seq_update(
                                    oldmap,
                                    i as int,
                                    newpair,
                                );
                            }
                        },
                        Option::None => {
                            proof {
                                crate::types::lemma_view_bind_seq_push(self.map@, (s, v));
                            }
                            self.map.push((s, v));
                        },
                    }
                },
                Option::None => {
                    proof {
                        assert(false);
                    }
                    done = true;
                },
            }
        }
    }

    /// Installs a builtin under `name`; refuses a name that is already
    /// bound.  This can only fail through misconfiguration at startup.
    pub fn add_native_func(&mut self, name: &str, func: Native) -> (r: Result<
        (),
        crate::errors::FatalError,
    >)
        ensures
            match r {
                Ok(()) => lookup_v(old(self)@.map, name@) is None && final(self)@.map == old(
                    self,
                )@.map.push((name@, MalV::Func(FuncV::Native(func)))) && final(self)@.history == old(
                    self,
                )@.history,
                Err(_) => lookup_v(old(self)@.map, name@) is Some && final(self)@ == old(self)@,
            },
    {
        broadcast use crate::types::group_view_lemmas;

        match find_first(&self.map, name) {
            Option::Some(_) => Err(crate::errors::FatalError::NativeRegisteredTwice),
            Option::None => {
                let entry = (
                    Symbol { inner: String::from_str(name) },
                    Mal::Func(MalFunc::Native(func)),
                );
                proof {
                    crate::types::lemma_view_bind_seq_push(self.map@, entry);
                }
                self.map.push(entry);
                Ok(())
            },
        }
    }
}

} // verus!

verus! {

// ------------------------------------------------------------------
// The rollback algebra: every recorded change is exactly compensated
// by its undo entry, so unwinding a frame restores the binding store
// that was current when the frame's marker was pushed.
// ------------------------------------------------------------------

/// The index of the first entry for `name` at or after `i`; the store's
/// length when there is none.
pub open spec fn first_idx_from(m: Seq<(Seq<char>, MalV)>, name: Seq<char>, i: int) -> int
    decreases m.len() - i,
{
    if 0 <= i < m.len() {
        if m[i].0 == name {
            i
        } else {
            first_idx_from(m, name, i + 1)
        }
    } else {
        m.len() as int
    }
}

/// Lookups, updates and removals all act at the first matching index.
pub proof fn lemma_map_ops_normal(m: Seq<(Seq<char>, MalV)>, name: Seq<char>, i: int)
    requires
        0 <= i <= m.len(),
    ensures
        ({
            let k = first_idx_from(m, name, i);
            &&& i <= k <= m.len()
            &&& (forall|j: int| i <= j < k ==> (#[trigger] m[j]).0 != name)
            &&& (k < m.len() ==> m[k].0 == name)
            &&& (k == m.len() ==> lookup_from_v(m, name, i) is None && (forall|val: MalV|
                #[trigger] map_set_from_v(m, name, val, i) == m.push((name, val)))
                && map_remove_from_v(m, name, i) == m)
            &&& (k < m.len() ==> lookup_from_v(m, name, i) == Option::Some(m[k].1) && (
            forall|val: MalV|
                #[trigger] map_set_from_v(m, name, val, i) == m.update(k, (name, val)))
                && map_remove_from_v(m, name, i) == m.remove(k))
        }),
    decreases m.len() - i,
{
    let k = first_idx_from(m, name, i);
    if i == m.len() {
        assert(k == m.len());
        assert forall|val: MalV| #[trigger] map_set_from_v(m, name, val, i) == m.push(
            (name, val),
        ) by {}
    } else if m[i].0 == name {
        assert(k == i);
        assert forall|val: MalV| #[trigger] map_set_from_v(m, name, val, i) == m.update(
            k,
            (name, val),
        ) by {}
    } else {
        lemma_map_ops_normal(m, name, i + 1);
        assert(k == first_idx_from(m, name, i + 1));
        assert(lookup_from_v(m, name, i) == lookup_from_v(m, name, i + 1));
        assert(map_remove_from_v(m, name, i) == map_remove_from_v(m, name, i + 1));
        if k == m.len() {
            assert forall|val: MalV| #[trigger] map_set_from_v(m, name, val, i) == m.push(
                (name, val),
            ) by {
                assert(map_set_from_v(m, name, val, i) == map_set_from_v(m, name, val, i + 1));
            }
        } else {
            assert forall|val: MalV| #[trigger] map_set_from_v(m, name, val, i) == m.update(
                k,
                (name, val),
            ) by {
                assert(map_set_from_v(m, name, val, i) == map_set_from_v(m, name, val, i + 1));
            }
        }
    }
}

/// Setting a name and then undoing the recorded change restores the
/// store exactly.
pub proof fn lemma_set_then_restore(m: Seq<(Seq<char>, MalV)>, name: Seq<char>, val: MalV)
    ensures
        undo_v(
            map_set_v(m, name, val),
            match lookup_v(m, name) {
                Option::Some(old_val) => ChangeV::Replaced(name, old_val),
                Option::None => ChangeV::Added(name),
            },
        ) == m,
{
    lemma_map_ops_normal(m, name, 0);
    let k = first_idx_from(m, name, 0);
    if k == m.len() {
        let x = m.push((name, val));
        lemma_map_ops_normal(x, name, 0);
        let k2 = first_idx_from(x, name, 0);
        assert(k2 == m.len()) by {
            if k2 < m.len() {
                assert(x[k2] == m[k2]);
            }
            if k2 > m.len() {
                assert(x[m.len() as int].0 == name);
            }
        }
        assert(x.remove(m.len() as int) =~= m);
    } else {
        let x = m.update(k, (name, val));
        lemma_map_ops_normal(x, name, 0);
        let k2 = first_idx_from(x, name, 0);
        assert(k2 == k) by {
            if k2 < k {
                assert(x[k2] == m[k2]);
            }
            if k2 > k {
                assert(x[k].0 == name);
            }
        }
        assert(x.update(k, (name, m[k].1)) =~= m);
    }
}

/// Applies the undos of a run of recorded changes, most recent first.
pub open spec fn undo_all_v(
    m: Seq<(Seq<char>, MalV)>,
    suffix: Seq<ChangeV>,
) -> Seq<(Seq<char>, MalV)>
    decreases suffix.len(),
{
    if suffix.len() == 0 {
        m
    } else {
        undo_all_v(undo_v(m, suffix.last()), suffix.subrange(0, suffix.len() - 1))
    }
}

/// `post` extends `pre` by one frame's worth of changes: the history
/// grew by marker-free entries whose undos lead back to `pre`'s store.
pub open spec fn frame_ext_v(pre: EnvV, post: EnvV) -> bool {
    &&& pre.history.len() <= post.history.len()
    &&& post.history.subrange(0, pre.history.len() as int) == pre.history
    &&& (forall|i: int|
        pre.history.len() <= i < post.history.len() ==> !((#[trigger] post.history[i]) is Scope))
    &&& undo_all_v(
        post.map,
        post.history.subrange(pre.history.len() as int, post.history.len() as int),
    ) == pre.map
}

pub proof fn lemma_frame_refl(e: EnvV)
    ensures
        frame_ext_v(e, e),
{
    assert(e.history.subrange(0, e.history.len() as int) =~= e.history);
    assert(e.history.subrange(e.history.len() as int, e.history.len() as int)
        =~= Seq::<ChangeV>::empty());
}

pub proof fn lemma_undo_all_concat(m: Seq<(Seq<char>, MalV)>, s1: Seq<ChangeV>, s2: Seq<ChangeV>)
    ensures
        undo_all_v(m, s1 + s2) == undo_all_v(undo_all_v(m, s2), s1),
    decreases s2.len(),
{
    if s2.len() == 0 {
        assert(s1 + s2 =~= s1);
    } else {
        let whole = s1 + s2;
        assert(whole.last() == s2.last());
        assert(whole.subrange(0, whole.len() - 1) =~= s1 + s2.subrange(0, s2.len() - 1));
        lemma_undo_all_concat(undo_v(m, s2.last()), s1, s2.subrange(0, s2.len() - 1));
    }
}

pub proof fn lemma_frame_trans(a: EnvV, b: EnvV, c: EnvV)
    requires
        frame_ext_v(a, b),
        frame_ext_v(b, c),
    ensures
        frame_ext_v(a, c),
{
    let al = a.history.len() as int;
    let bl = b.history.len() as int;
    let cl = c.history.len() as int;
    assert(c.history.subrange(0, al) =~= b.history.subrange(0, al));
    assert(b.history.subrange(0, al) =~= a.history);
    assert forall|i: int| al <= i < cl implies !((#[trigger] c.history[i]) is Scope) by {
        if i < bl {
            assert(c.history[i] == b.history[i]);
        }
    }
    let sab = b.history.subrange(al, bl);
    let sbc = c.history.subrange(bl, cl);
    let sac = c.history.subrange(al, cl);
    assert(sac =~= c.history.subrange(al, bl) + sbc);
    assert(c.history.subrange(al, bl) =~= sab);
    lemma_undo_all_concat(c.map, sab, sbc);
}

/// A set extends the current frame: its undo entry exactly compensates.
pub proof fn lemma_frame_set(e: EnvV, name: Seq<char>, val: MalV)
    ensures
        frame_ext_v(e, env_set_v(e, name, val)),
{
    let post = env_set_v(e, name, val);
    assert(post.history.subrange(0, e.history.len() as int) =~= e.history);
    let suffix = post.history.subrange(e.history.len() as int, post.history.len() as int);
    lemma_set_then_restore(e.map, name, val);
    let entry = match lookup_v(e.map, name) {
        Option::Some(old_val) => ChangeV::Replaced(name, old_val),
        Option::None => ChangeV::Added(name),
    };
    assert(suffix.len() == 1 && suffix.last() == entry);
    assert(suffix.subrange(0, 0) =~= Seq::<ChangeV>::empty());
    assert(undo_all_v(post.map, suffix) == undo_all_v(
        undo_v(post.map, entry),
        Seq::<ChangeV>::empty(),
    ));
    assert(undo_all_v(undo_v(post.map, entry), Seq::<ChangeV>::empty()) == undo_v(post.map, entry));
}

/// A frame opened by a marker and extended only by compensated changes
/// is closed exactly: popping restores the environment that pushed it.
pub proof fn lemma_frame_push_pop(e: EnvV, p: EnvV)
    requires
        frame_ext_v(env_push_v(e), p),
    ensures
        env_pop_v(p) == e,
    decreases p.history.len(),
{
    let el = e.history.len() as int;
    let pl = p.history.len() as int;
    assert(p.history[el] == ChangeV::Scope) by {
        assert(p.history.subrange(0, el + 1)[el] == p.history[el]);
    }
    if pl == el + 1 {
        let suffix = p.history.subrange(el + 1, pl);
        assert(suffix =~= Seq::<ChangeV>::empty());
        assert(p.history.last() is Scope);
        assert(env_pop_v(p).map == e.map);
        assert(env_pop_v(p).history =~= e.history) by {
            assert(p.history.subrange(0, pl - 1) =~= p.history.subrange(0, el + 1).subrange(
                0,
                el,
            ));
            assert(p.history.subrange(0, el + 1) == env_push_v(e).history);
            assert(env_push_v(e).history.subrange(0, el) =~= e.history);
        }
        assert(env_pop_v(p) =~= e);
    } else {
        let top = p.history.last();
        assert(!(top is Scope));
        let p2 = EnvV { map: undo_v(p.map, top), history: p.history.subrange(0, pl - 1) };
        assert(env_pop_v(p) == env_pop_v(p2));
        assert(frame_ext_v(env_push_v(e), p2)) by {
            assert(p2.history.subrange(0, el + 1) =~= p.history.subrange(0, el + 1));
            let s2 = p2.history.subrange(el + 1, pl - 1);
            let s = p.history.subrange(el + 1, pl);
            assert(s.last() == top);
            assert(s.subrange(0, s.len() - 1) =~= s2);
            assert(undo_all_v(p.map, s) == undo_all_v(undo_v(p.map, top), s2));
        }
        lemma_frame_push_pop(e, p2);
    }
}

/// Binding a name makes exactly that name resolve to the new value;
/// every other name resolves as before.
pub proof fn lemma_set_get(m: Seq<(Seq<char>, MalV)>, name: Seq<char>, val: MalV)
    ensures
        lookup_v(map_set_v(m, name, val), name) == Option::Some(val),
        forall|other: Seq<char>|
            other != name ==> #[trigger] lookup_v(map_set_v(m, name, val), other) == lookup_v(
                m,
                other,
            ),
{
    lemma_map_ops_normal(m, name, 0);
    let k = first_idx_from(m, name, 0);
    let x = map_set_v(m, name, val);
    lemma_map_ops_normal(x, name, 0);
    let k2 = first_idx_from(x, name, 0);
    assert(k2 == k) by {
        if k2 < k {
            assert(x[k2] == m[k2]);
        }
        if k2 > k && k < m.len() {
            assert(x[k].0 == name);
        }
        if k == m.len() {
            if k2 < m.len() {
                assert(x[k2] == m[k2]);
            }
            if k2 > m.len() {
                assert(x[m.len() as int].0 == name);
            }
        }
    }
    assert forall|other: Seq<char>| other != name implies #[trigger] lookup_v(
        map_set_v(m, name, val),
        other,
    ) == lookup_v(m, other) by {
        lemma_lookup_other(m, x, name, other, 0);
    }
}

/// Lookups of other names walk the two stores in step.
proof fn lemma_lookup_other(
    m: Seq<(Seq<char>, MalV)>,
    x: Seq<(Seq<char>, MalV)>,
    name: Seq<char>,
    other: Seq<char>,
    i: int,
)
    requires
        other != name,
        0 <= i,
        m.len() <= x.len() <= m.len() + 1,
        x.len() == m.len() + 1 ==> x[m.len() as int].0 == name,
        forall|j: int|
            0 <= j < m.len() ==> (#[trigger] x[j] == m[j] || (x[j].0 == name && m[j].0 == name)),
    ensures
        lookup_from_v(x, other, i) == lookup_from_v(m, other, i),
    decreases x.len() - i,
{
    if i < x.len() {
        if i < m.len() {
            assert(x[i].0 == m[i].0 || (x[i].0 == name && m[i].0 == name));
            lemma_lookup_other(m, x, name, other, i + 1);
        } else {
            assert(x[i].0 == name);
            lemma_lookup_other(m, x, name, other, i + 1);
        }
    }
}

/// While a frame is open, its marker stays in the history.
pub proof fn lemma_frame_has_marker(e: EnvV, p: EnvV)
    requires
        frame_ext_v(env_push_v(e), p),
    ensures
        has_marker_v(p.history),
{
    let el = e.history.len() as int;
    assert(p.history.subrange(0, el + 1)[el] == p.history[el]);
    assert(p.history[el] is Scope);
}

} // verus!
