//! The navigator's laws, stated and proved over the same spec functions the
//! executable operations are specified with.

use vstd::prelude::*;

use crate::machine::{Action, StepEffect, step_spec};
use crate::mode::Mode;
use crate::nav::{Direction, NavV, ascend_step, descend_step, resolve_spec, sibling_step, wrap};
use crate::path::MemberV;
use crate::value::{Value, has_key, key_index, keys_unique, lemma_key_index_first, lemma_key_index_of_member};
use vstd::arithmetic::div_mod::{lemma_add_mod_noop_right, lemma_mod_add_multiples_vanish, lemma_mod_division_less_than_divisor, lemma_small_mod};

verus! {

/// Mode gating: while in INSERT or PEEKING, the four navigation actions
/// leave the whole navigation state — the focus path in particular —
/// unchanged, and the session keeps looping.
pub proof fn lemma_mode_gating(root: Value, s: NavV, action: Action)
    requires
        s.mode == Mode::Insert || s.mode == Mode::Peeking,
        action == Action::MoveLeft || action == Action::MoveDown || action == Action::MoveUp
            || action == Action::MoveRight,
    ensures
        step_spec(root, s, action) == Some((s, StepEffect::Continue)),
{
}

/// Leaf idempotence: with the focus on a leaf, a descend only sets the
/// leaf flag, never the path, and descending again changes nothing more.
pub proof fn lemma_descend_leaf_idempotent(root: Value, s: NavV)
    requires
        resolve_spec(root, s.path) matches Some(v) && !v.is_container(),
    ensures
        descend_step(root, s) == Some(NavV { at_leaf: true, ..s }),
        descend_step(root, NavV { at_leaf: true, ..s }) == Some(NavV { at_leaf: true, ..s }),
{
}

/// Descend/ascend inverse: from a focus that is not a failed leaf descend,
/// with at least the root selection on the path, an ascend right after a
/// successful descend restores the prior state exactly — whether the
/// descend pushed into a container or only set the leaf flag.
pub proof fn lemma_descend_ascend_inverse(root: Value, s: NavV)
    requires
        !s.at_leaf,
        s.path.len() >= 1,
        descend_step(root, s) is Some,
    ensures
        descend_step(root, s) matches Some(s2) && ascend_step(s2) == s,
{
    let s2 = descend_step(root, s).unwrap();
    if !(resolve_spec(root, s.path).unwrap() is List) && !(resolve_spec(root, s.path).unwrap() is Record) {
    } else {
        assert(s2.path.drop_last() =~= s.path);
    }
}

/// Empty-container safety, sibling moves: over an empty parent container
/// the placeholder selection (position 0 / the empty name) is kept: the
/// move changes nothing at all.  The operation is total, so it cannot
/// abort either.
pub proof fn lemma_empty_container_move(root: Value, s: NavV, dir: Direction)
    requires
        !s.at_leaf,
        s.path.len() >= 1,
        match resolve_spec(root, s.path.drop_last()) {
            Some(Value::List(vals)) => vals@.len() == 0 && s.path.last() is Index,
            Some(Value::Record(pairs)) => pairs@.len() == 0 && (s.path.last() matches
                MemberV::Key { name, .. } && name == Seq::<char>::empty()),
            _ => false,
        },
    ensures
        sibling_step(root, s, dir) == Some(s),
{
    assert(s.path.drop_last().push(s.path.last()) =~= s.path);
}

/// Empty-container safety, descend: descending into an empty container
/// pushes the placeholder member — position 0 or the empty name — flagged
/// as created over an empty parent.
pub proof fn lemma_empty_container_descend(root: Value, s: NavV)
    requires
        !s.at_leaf,
        match resolve_spec(root, s.path) {
            Some(Value::List(vals)) => vals@.len() == 0,
            Some(Value::Record(pairs)) => pairs@.len() == 0,
            _ => false,
        },
    ensures
        match resolve_spec(root, s.path) {
            Some(Value::List(_)) => descend_step(root, s) == Some(NavV {
                path: s.path.push(MemberV::Index { position: 0, empty_at_creation: true }),
                ..s
            }),
            Some(Value::Record(_)) => descend_step(root, s) == Some(NavV {
                path: s.path.push(MemberV::Key {
                    name: Seq::<char>::empty(),
                    empty_at_creation: true,
                }),
                ..s
            }),
            _ => true,
        },
{
}

/// The last path member addresses a real child of its freshly resolved
/// parent container; a record parent additionally carries unique keys.
pub open spec fn selection_wf(root: Value, path: Seq<MemberV>) -> bool {
    &&& path.len() >= 1
    &&& match resolve_spec(root, path.drop_last()) {
        Some(Value::List(vals)) => path.last() matches MemberV::Index { position, .. }
            && 0 <= position < vals@.len(),
        Some(Value::Record(pairs)) => path.last() matches MemberV::Key { name, .. }
            && has_key(pairs@, name) && keys_unique(pairs@),
        _ => false,
    }
}

/// How many siblings the last path member selects among.
pub open spec fn sibling_count(root: Value, path: Seq<MemberV>) -> int {
    match resolve_spec(root, path.drop_last()) {
        Some(Value::List(vals)) => vals@.len() as int,
        Some(Value::Record(pairs)) => pairs@.len() as int,
        _ => 0,
    }
}

/// The position the last path member selects among its siblings.
pub open spec fn selected_index(root: Value, path: Seq<MemberV>) -> int {
    match (path.last(), resolve_spec(root, path.drop_last())) {
        (MemberV::Index { position, .. }, Some(Value::List(_))) => position,
        (MemberV::Key { name, .. }, Some(Value::Record(pairs))) => key_index(pairs@, name),
        _ => 0,
    }
}

/// The same path, its last member rewritten in place to select sibling
/// `j`, the placeholder flag preserved.
pub open spec fn with_selected(root: Value, path: Seq<MemberV>, j: int) -> Seq<MemberV> {
    match resolve_spec(root, path.drop_last()) {
        Some(Value::List(_)) => path.drop_last().push(MemberV::Index {
            position: j,
            empty_at_creation: path.last().empty_at_creation(),
        }),
        Some(Value::Record(pairs)) => path.drop_last().push(MemberV::Key {
            name: pairs@[j].0@,
            empty_at_creation: path.last().empty_at_creation(),
        }),
        _ => path,
    }
}

/// `sibling_step` applied `k` times in a row, in one direction.
pub open spec fn sibling_iter(root: Value, s: NavV, dir: Direction, k: nat) -> Option<NavV>
    decreases k,
{
    if k == 0 {
        Some(s)
    } else {
        match sibling_step(root, s, dir) {
            Some(s2) => sibling_iter(root, s2, dir, (k - 1) as nat),
            None => None,
        }
    }
}

/// Where a selection stands after `k` single steps in `dir` from `j`,
/// among `n` siblings.
pub open spec fn pos_after(j: int, k: int, n: int, dir: Direction) -> int {
    match dir {
        Direction::Next => (j + k) % n,
        Direction::Previous => (j + n - k) % n,
    }
}

proof fn lemma_mod_shift(a: int, b: int, n: int)
    requires
        n > 0,
    ensures
        (a % n + b) % n == (a + b) % n,
{
    lemma_add_mod_noop_right(b, a, n);
}

/// A real selection selects a position inside its parent container.
proof fn lemma_selected_index_range(root: Value, path: Seq<MemberV>)
    requires
        selection_wf(root, path),
    ensures
        0 <= selected_index(root, path) < sibling_count(root, path),
{
    match resolve_spec(root, path.drop_last()) {
        Some(Value::Record(pairs)) => {
            lemma_key_index_first(pairs@, path.last()->name);
        }
        _ => {}
    }
}

/// Rewriting the last member to the position it already selects changes
/// nothing.
proof fn lemma_with_selected_self(root: Value, path: Seq<MemberV>)
    requires
        selection_wf(root, path),
    ensures
        with_selected(root, path, selected_index(root, path)) == path,
{
    match resolve_spec(root, path.drop_last()) {
        Some(Value::Record(pairs)) => {
            lemma_key_index_first(pairs@, path.last()->name);
        }
        _ => {}
    }
    assert(path.drop_last().push(path.last()) =~= path);
}

/// The path one sibling step in `dir` rewrites a real selection to: the
/// cyclic neighbour of the selected position.
pub open spec fn stepped_path(root: Value, path: Seq<MemberV>, dir: Direction) -> Seq<MemberV> {
    with_selected(root, path, wrap(selected_index(root, path), sibling_count(root, path), dir))
}

/// One sibling step from a real selection among `n > 0` siblings lands on
/// the cyclic neighbour and is again a real selection over the same
/// parent, with the same placeholder flag.
proof fn lemma_sibling_step_wf(root: Value, s: NavV, dir: Direction)
    requires
        !s.at_leaf,
        selection_wf(root, s.path),
        sibling_count(root, s.path) > 0,
    ensures
        sibling_step(root, s, dir) == Some(NavV { path: stepped_path(root, s.path, dir), ..s }),
        selection_wf(root, stepped_path(root, s.path, dir)),
        stepped_path(root, s.path, dir).drop_last() == s.path.drop_last(),
        stepped_path(root, s.path, dir).last().empty_at_creation()
            == s.path.last().empty_at_creation(),
        sibling_count(root, stepped_path(root, s.path, dir)) == sibling_count(root, s.path),
        selected_index(root, stepped_path(root, s.path, dir))
            == wrap(selected_index(root, s.path), sibling_count(root, s.path), dir),
{
    let n = sibling_count(root, s.path);
    let j = selected_index(root, s.path);
    let w = wrap(j, n, dir);
    lemma_selected_index_range(root, s.path);
    match dir {
        Direction::Next => lemma_mod_division_less_than_divisor(j + 1, n),
        Direction::Previous => lemma_mod_division_less_than_divisor(j + n - 1, n),
    }
    let p2 = with_selected(root, s.path, w);
    assert(p2.drop_last() =~= s.path.drop_last());
    match resolve_spec(root, s.path.drop_last()) {
        Some(Value::Record(pairs)) => {
            lemma_key_index_first(pairs@, s.path.last()->name);
            assert(has_key(pairs@, pairs@[w].0@));
            lemma_key_index_of_member(pairs@, w);
        }
        _ => {}
    }
}

/// After `k` sibling steps from a real selection, the focus selects
/// `pos_after` of the original position; everything else is unchanged.
proof fn lemma_sibling_iter_pos(root: Value, s: NavV, dir: Direction, k: int)
    requires
        !s.at_leaf,
        selection_wf(root, s.path),
        sibling_count(root, s.path) > 0,
        0 <= k,
    ensures
        sibling_iter(root, s, dir, k as nat) == Some(NavV {
            path: with_selected(root, s.path, pos_after(selected_index(root, s.path), k, sibling_count(root, s.path), dir)),
            ..s
        }),
    decreases k,
{
    let n = sibling_count(root, s.path);
    let j = selected_index(root, s.path);
    lemma_selected_index_range(root, s.path);
    if k == 0 {
        match dir {
            Direction::Next => {
                lemma_small_mod(j as nat, n as nat);
            }
            Direction::Previous => {
                lemma_mod_add_multiples_vanish(j, n);
                lemma_small_mod(j as nat, n as nat);
            }
        }
        assert(pos_after(j, 0, n, dir) == j);
        lemma_with_selected_self(root, s.path);
    } else {
        lemma_sibling_step_wf(root, s, dir);
        let w = wrap(j, n, dir);
        let s2 = NavV { path: stepped_path(root, s.path, dir), ..s };
        lemma_sibling_iter_pos(root, s2, dir, k - 1);
        let x = pos_after(w, k - 1, n, dir);
        assert(with_selected(root, s2.path, x) == with_selected(root, s.path, x));
        match dir {
            Direction::Next => {
                lemma_mod_shift(j + 1, k - 1, n);
                assert(pos_after(w, k - 1, n, dir) == pos_after(j, k, n, dir));
            }
            Direction::Previous => {
                lemma_mod_shift(j + n - 1, n - k + 1, n);
                lemma_mod_add_multiples_vanish(j + n - k, n);
                assert(pos_after(w, k - 1, n, dir) == pos_after(j, k, n, dir));
            }
        }
    }
}

/// Wraparound closure: from any real selection among `n > 0` siblings,
/// `n` sibling moves in one direction — either direction — return the
/// focus path, and with it the whole navigation state, to exactly its
/// original value.
pub proof fn lemma_wraparound_closure(root: Value, s: NavV, dir: Direction)
    requires
        !s.at_leaf,
        selection_wf(root, s.path),
        sibling_count(root, s.path) > 0,
    ensures
        sibling_iter(root, s, dir, sibling_count(root, s.path) as nat) == Some(s),
{
    let n = sibling_count(root, s.path);
    let j = selected_index(root, s.path);
    lemma_selected_index_range(root, s.path);
    lemma_sibling_iter_pos(root, s, dir, n);
    match dir {
        Direction::Next => {
            lemma_mod_add_multiples_vanish(j, n);
            lemma_small_mod(j as nat, n as nat);
        }
        Direction::Previous => {
            lemma_small_mod(j as nat, n as nat);
        }
    }
    assert(pos_after(j, n, n, dir) == j);
    lemma_with_selected_self(root, s.path);
}

} // verus!
