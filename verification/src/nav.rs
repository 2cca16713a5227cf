//! The navigator: resolve, descend, ascend and sibling moves over a value
//! tree and a focus path.
//!
//! All four operations are total: ordinary user input never produces an
//! error, even at a boundary (empty container, single child, leaf).  An
//! error reports an internal inconsistency — a path member whose kind does
//! not match the container it addresses — and aborts only the session.

use vstd::prelude::*;

use crate::mode::Mode;
use crate::path::{FocusPath, MemberV, PathMember, lemma_path_view_drop_last, lemma_path_view_push, path_view};
use crate::value::{Value, find_key, has_key, key_index, keys_unique, lemma_key_index_first};
use vstd::arithmetic::div_mod::{lemma_add_mod_noop_right, lemma_mod_add_multiples_vanish, lemma_mod_division_less_than_divisor, lemma_mod_self_0, lemma_small_mod};

verus! {

/// Which way a sibling move goes.
#[derive(Clone, Copy, Debug, PartialEq, Eq, Structural)]
pub enum Direction {
    /// toward the next sibling, wrapping past the last one
    Next,
    /// toward the previous sibling, wrapping past the first one
    Previous,
}

/// An internal invariant was broken: a non-empty path member does not
/// address a child of the container it was recorded against.  This marks a
/// navigator bug, never a user-facing condition; `depth` says how many
/// members resolved before the offending one.
#[derive(Clone, Copy, Debug, PartialEq, Eq, Structural)]
pub struct ContractViolation {
    /// how many leading path members resolved successfully
    pub depth: usize,
}

/// What resolving `path` against `v` yields: `Some` of the addressed value,
/// or `None` when a member does not match the container it addresses.  A
/// member recorded as created over an empty container stops resolution,
/// yielding the container reached so far.
pub open spec fn resolve_spec(v: Value, path: Seq<MemberV>) -> Option<Value>
    decreases path.len(),
{
    if path.len() == 0 {
        Some(v)
    } else if path[0].empty_at_creation() {
        Some(v)
    } else {
        match (path[0], v) {
            (MemberV::Index { position, .. }, Value::List(vals)) => {
                if 0 <= position < vals@.len() {
                    resolve_spec(vals@[position], path.drop_first())
                } else {
                    None
                }
            }
            (MemberV::Key { name, .. }, Value::Record(pairs)) => {
                if has_key(pairs@, name) {
                    resolve_spec(pairs@[key_index(pairs@, name)].1, path.drop_first())
                } else {
                    None
                }
            }
            _ => None,
        }
    }
}

/// Walk `path` from `v`, starting at member `i`.
fn resolve_from<'a>(v: &'a Value, path: &FocusPath, i: usize) -> (r: Result<&'a Value, ContractViolation>)
    requires
        i <= path@.len(),
    ensures
        match r {
            Ok(found) => resolve_spec(*v, path_view(path@).skip(i as int)) == Some(*found),
            Err(e) => resolve_spec(*v, path_view(path@).skip(i as int)) is None
                && i <= e.depth < path@.len(),
        },
    decreases path@.len() - i,
{
    let ghost pv = path_view(path@).skip(i as int);
    if i == path.len() {
        return Ok(v);
    }
    proof {
        assert(pv[0] == path@[i as int]@);
        assert(pv.drop_first() =~= path_view(path@).skip(i as int + 1));
    }
    match &path[i] {
        PathMember::Index { position, empty_at_creation } => {
            if *empty_at_creation {
                Ok(v)
            } else {
                match v {
                    Value::List(vals) => {
                        if *position < vals.len() {
                            resolve_from(&vals[*position], path, i + 1)
                        } else {
                            Err(ContractViolation { depth: i })
                        }
                    }
                    _ => Err(ContractViolation { depth: i }),
                }
            }
        }
        PathMember::Key { name, empty_at_creation } => {
            if *empty_at_creation {
                Ok(v)
            } else {
                match v {
                    Value::Record(pairs) => {
                        match find_key(pairs, name) {
                            Some(j) => resolve_from(&pairs[j].1, path, i + 1),
                            None => Err(ContractViolation { depth: i }),
                        }
                    }
                    _ => Err(ContractViolation { depth: i }),
                }
            }
        }
    }
}

/// Resolve `path` against the root: the focused value, or the container a
/// placeholder member stops at; an error reports a navigator bug.
pub fn resolve<'a>(root: &'a Value, path: &FocusPath) -> (r: Result<&'a Value, ContractViolation>)
    ensures
        match r {
            Ok(found) => resolve_spec(*root, path_view(path@)) == Some(*found),
            Err(e) => resolve_spec(*root, path_view(path@)) is None && e.depth < path@.len(),
        },
{
    proof {
        assert(path_view(path@).skip(0) =~= path_view(path@));
    }
    resolve_from(root, path, 0)
}

/// The member `descend` pushes when the focus is the container `c`: its
/// first child (position 0, or the first key), a placeholder when `c` is
/// empty; `None` when `c` is a leaf.
pub open spec fn first_child_member(c: Value) -> Option<MemberV> {
    match c {
        Value::List(vals) => Some(MemberV::Index { position: 0, empty_at_creation: vals@.len() == 0 }),
        Value::Record(pairs) => Some(MemberV::Key {
            name: if pairs@.len() == 0 { Seq::<char>::empty() } else { pairs@[0].0@ },
            empty_at_creation: pairs@.len() == 0,
        }),
        _ => None,
    }
}

/// The complete navigation state of a session.
pub struct NavigationState {
    /// the full current path into the data
    pub focus_path: FocusPath,
    /// set exactly when the last attempted descend found a leaf; reset by
    /// any ascend
    pub at_leaf: bool,
    /// the current mode
    pub mode: Mode,
}

/// The mathematical reading of a [`NavigationState`].
pub struct NavV {
    /// the focus path
    pub path: Seq<MemberV>,
    /// the leaf flag
    pub at_leaf: bool,
    /// the mode
    pub mode: Mode,
}

impl View for NavigationState {
    type V = NavV;

    open spec fn view(&self) -> NavV {
        NavV { path: path_view(self.focus_path@), at_leaf: self.at_leaf, mode: self.mode }
    }
}

/// The state a fresh session starts from, before the focus is seeded.
pub open spec fn default_state_spec() -> NavV {
    NavV { path: Seq::empty(), at_leaf: false, mode: Mode::Normal }
}

/// The state a session starts from: the focus is seeded with the root's
/// first child when the root is a container, and left empty when the root
/// is a leaf (there is then nothing to navigate).
pub open spec fn init_spec(root: Value) -> NavV {
    match first_child_member(root) {
        Some(m) => NavV { path: seq![m], at_leaf: false, mode: Mode::Normal },
        None => default_state_spec(),
    }
}

impl NavigationState {
    /// An empty state: no focus, not at a leaf, NORMAL mode.
    pub fn default() -> (s: NavigationState)
        ensures
            s@ == default_state_spec(),
    {
        let s = NavigationState { focus_path: Vec::new(), at_leaf: false, mode: Mode::default() };
        proof {
            assert(path_view(s.focus_path@) =~= Seq::<MemberV>::empty());
        }
        s
    }

    /// The initial state for a session over `root`.
    pub fn init(root: &Value) -> (s: NavigationState)
        ensures
            s@ == init_spec(*root),
    {
        let mut s = NavigationState::default();
        match root {
            Value::List(vals) => {
                let empty = vals.len() == 0;
                s.focus_path.push(PathMember::Index { position: 0, empty_at_creation: empty });
                proof {
                    assert(path_view(s.focus_path@) =~= seq![MemberV::Index {
                        position: 0,
                        empty_at_creation: vals@.len() == 0,
                    }]);
                }
            }
            Value::Record(pairs) => {
                let name = if pairs.len() == 0 {
                    String::new()
                } else {
                    pairs[0].0.clone()
                };
                let empty = pairs.len() == 0;
                s.focus_path.push(PathMember::Key { name, empty_at_creation: empty });
                proof {
                    assert(path_view(s.focus_path@) =~= seq![MemberV::Key {
                        name: if pairs@.len() == 0 { Seq::<char>::empty() } else { pairs@[0].0@ },
                        empty_at_creation: pairs@.len() == 0,
                    }]);
                }
            }
            _ => {}
        }
        s
    }
}

/// What `descend` does: a no-op when already at a leaf; otherwise the
/// focused container's first child is pushed, or the leaf flag is set when
/// the focus is a leaf.  `None` reports a broken path.
pub open spec fn descend_step(root: Value, s: NavV) -> Option<NavV> {
    if s.at_leaf {
        Some(s)
    } else {
        match resolve_spec(root, s.path) {
            Some(v) => match first_child_member(v) {
                Some(m) => Some(NavV { path: s.path.push(m), ..s }),
                None => Some(NavV { at_leaf: true, ..s }),
            },
            None => None,
        }
    }
}

/// What `ascend` does: cancel a failed descend past a leaf, or pop the last
/// member while more than one remains; the root selection is never removed,
/// and the leaf flag is always cleared.
pub open spec fn ascend_step(s: NavV) -> NavV {
    if s.at_leaf {
        NavV { at_leaf: false, ..s }
    } else if s.path.len() > 1 {
        NavV { path: s.path.drop_last(), at_leaf: false, ..s }
    } else {
        NavV { at_leaf: false, ..s }
    }
}

/// Cyclic successor among `n` siblings: one step from `i` in direction
/// `dir`, i.e. `(i + delta + n) % n` with `delta` 1 for next and `n - 1`
/// for previous.
pub open spec fn wrap(i: int, n: int, dir: Direction) -> int {
    match dir {
        Direction::Next => (i + 1) % n,
        Direction::Previous => (i + n - 1) % n,
    }
}

/// What `move_sibling` does: a no-op at a leaf or on an empty path;
/// otherwise the last member is rewritten in place to the cyclic neighbour,
/// its placeholder flag preserved verbatim.  Over an empty container the
/// position stays put and the name becomes the empty string.  `None`
/// reports a member whose kind does not match its parent container.
pub open spec fn sibling_step(root: Value, s: NavV, dir: Direction) -> Option<NavV> {
    if s.at_leaf || s.path.len() == 0 {
        Some(s)
    } else {
        match (s.path.last(), resolve_spec(root, s.path.drop_last())) {
            (MemberV::Index { position, empty_at_creation }, Some(Value::List(vals))) => {
                let n = vals@.len() as int;
                let p2 = if n == 0 { position } else { wrap(position, n, dir) };
                Some(NavV {
                    path: s.path.drop_last().push(MemberV::Index { position: p2, empty_at_creation }),
                    ..s
                })
            }
            (MemberV::Key { name, empty_at_creation }, Some(Value::Record(pairs))) => {
                let n = pairs@.len() as int;
                if n == 0 {
                    Some(NavV {
                        path: s.path.drop_last().push(MemberV::Key {
                            name: Seq::<char>::empty(),
                            empty_at_creation,
                        }),
                        ..s
                    })
                } else if !has_key(pairs@, name) {
                    None
                } else {
                    Some(NavV {
                        path: s.path.drop_last().push(MemberV::Key {
                            name: pairs@[wrap(key_index(pairs@, name), n, dir)].0@,
                            empty_at_creation,
                        }),
                        ..s
                    })
                }
            }
            _ => None,
        }
    }
}

/// One cyclic step among `n` siblings, computed without overflow.
fn wrap_index(i: usize, n: usize, dir: Direction) -> (r: usize)
    requires
        n > 0,
    ensures
        r == wrap(i as int, n as int, dir),
        r < n,
{
    let m = i % n;
    proof {
        lemma_mod_division_less_than_divisor(i as int, n as int);
    }
    match dir {
        Direction::Next => {
            proof {
                lemma_add_mod_noop_right(1, i as int, n as int);
                if m == n - 1 {
                    lemma_mod_self_0(n as int);
                } else {
                    lemma_small_mod((m + 1) as nat, n as nat);
                }
            }
            if m == n - 1 {
                0
            } else {
                m + 1
            }
        }
        Direction::Previous => {
            proof {
                lemma_add_mod_noop_right(n as int - 1, i as int, n as int);
                if m == 0 {
                    lemma_small_mod((n - 1) as nat, n as nat);
                } else {
                    lemma_mod_add_multiples_vanish(m as int - 1, n as int);
                    lemma_small_mod((m - 1) as nat, n as nat);
                }
            }
            if m == 0 {
                n - 1
            } else {
                m - 1
            }
        }
    }
}

/// Descend one level: push the focused container's first child, or set the
/// leaf flag when the focus is a leaf.  Descending twice past a leaf
/// without an intervening ascend is a no-op.
pub fn descend(state: &mut NavigationState, root: &Value) -> (r: Result<(), ContractViolation>)
    ensures
        match r {
            Ok(_) => descend_step(*root, old(state)@) == Some(final(state)@),
            Err(_) => final(state)@ == old(state)@ && descend_step(*root, old(state)@) is None,
        },
{
    if state.at_leaf {
        return Ok(());
    }
    match resolve(root, &state.focus_path) {
        Err(e) => Err(e),
        Ok(v) => {
            match v {
                Value::List(vals) => {
                    let empty = vals.len() == 0;
                    let m = PathMember::Index { position: 0, empty_at_creation: empty };
                    proof {
                        lemma_path_view_push(old(state).focus_path@, m);
                    }
                    state.focus_path.push(m);
                    Ok(())
                }
                Value::Record(pairs) => {
                    let name = if pairs.len() == 0 {
                        String::new()
                    } else {
                        pairs[0].0.clone()
                    };
                    let empty = pairs.len() == 0;
                    let m = PathMember::Key { name, empty_at_creation: empty };
                    proof {
                        lemma_path_view_push(old(state).focus_path@, m);
                    }
                    state.focus_path.push(m);
                    Ok(())
                }
                _ => {
                    state.at_leaf = true;
                    Ok(())
                }
            }
        }
    }
}

/// Ascend one level: cancel a failed descend past a leaf, or pop the last
/// member while more than one remains.  The root selection is never
/// removed; the leaf flag is always cleared.
pub fn ascend(state: &mut NavigationState)
    ensures
        final(state)@ == ascend_step(old(state)@),
{
    if state.at_leaf {
        state.at_leaf = false;
        return;
    }
    if state.focus_path.len() > 1 {
        proof {
            lemma_path_view_drop_last(state.focus_path@);
        }
        let _ = state.focus_path.pop();
    }
    state.at_leaf = false;
}

/// Move the focus to the next or previous sibling, wrapping past either
/// end.  A no-op at a leaf or on an empty path; over an empty container
/// the placeholder selection is kept.  The placeholder flag of the
/// rewritten member is preserved verbatim.
pub fn move_sibling(state: &mut NavigationState, root: &Value, dir: Direction) -> (r: Result<(), ContractViolation>)
    ensures
        match r {
            Ok(_) => sibling_step(*root, old(state)@, dir) == Some(final(state)@),
            Err(_) => final(state)@ == old(state)@ && sibling_step(*root, old(state)@, dir) is None,
        },
{
    if state.at_leaf {
        return Ok(());
    }
    if state.focus_path.len() == 0 {
        return Ok(());
    }
    proof {
        lemma_path_view_drop_last(state.focus_path@);
        assert(path_view(state.focus_path@).last() == state.focus_path@.last()@);
    }
    let current = state.focus_path.pop().unwrap();
    let resolved = resolve(root, &state.focus_path);
    match resolved {
        Err(e) => {
            proof {
                lemma_path_view_push(state.focus_path@, current);
                assert(path_view(state.focus_path@).push(current@) =~= path_view(old(state).focus_path@));
            }
            state.focus_path.push(current);
            Err(e)
        }
        Ok(v) => {
            match (current, v) {
                (PathMember::Index { position, empty_at_creation }, Value::List(vals)) => {
                    let n = vals.len();
                    let p2 = if n == 0 {
                        position
                    } else {
                        wrap_index(position, n, dir)
                    };
                    let m = PathMember::Index { position: p2, empty_at_creation };
                    proof {
                        lemma_path_view_push(state.focus_path@, m);
                    }
                    state.focus_path.push(m);
                    Ok(())
                }
                (PathMember::Key { name, empty_at_creation }, Value::Record(pairs)) => {
                    let n = pairs.len();
                    if n == 0 {
                        let m = PathMember::Key { name: String::new(), empty_at_creation };
                        proof {
                            lemma_path_view_push(state.focus_path@, m);
                        }
                        state.focus_path.push(m);
                        Ok(())
                    } else {
                        match find_key(pairs, &name) {
                            None => {
                                let depth = state.focus_path.len();
                                let m = PathMember::Key { name, empty_at_creation };
                                proof {
                                    lemma_path_view_push(state.focus_path@, m);
                                    assert(path_view(state.focus_path@).push(m@)
                                        =~= path_view(old(state).focus_path@));
                                }
                                state.focus_path.push(m);
                                Err(ContractViolation { depth })
                            }
                            Some(j) => {
                                let j2 = wrap_index(j, n, dir);
                                let name2 = pairs[j2].0.clone();
                                let m = PathMember::Key { name: name2, empty_at_creation };
                                proof {
                                    lemma_path_view_push(state.focus_path@, m);
                                }
                                state.focus_path.push(m);
                                Ok(())
                            }
                        }
                    }
                }
                (cur, _) => {
                    let depth = state.focus_path.len();
                    proof {
                        lemma_path_view_push(state.focus_path@, cur);
                        assert(path_view(state.focus_path@).push(cur@)
                            =~= path_view(old(state).focus_path@));
                    }
                    state.focus_path.push(cur);
                    Err(ContractViolation { depth })
                }
            }
        }
    }
}

} // verus!
