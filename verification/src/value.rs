//! The immutable value tree being browsed: lists, keyed records, and
//! scalar leaves.

use vstd::prelude::*;

verus! {

/// The structured input a session navigates.  A list and a record are
/// containers; every other variant is a leaf with no children.
#[derive(Debug, PartialEq)]
pub enum Value {
    /// an ordered sequence of values, possibly empty
    List(Vec<Value>),
    /// an ordered mapping from unique string keys to values; insertion
    /// order is significant for display and for first-child selection
    Record(Vec<(String, Value)>),
    /// an integer leaf
    Int(i64),
    /// a string leaf
    Str(String),
    /// a boolean leaf
    Bool(bool),
    /// the explicit "nothing" sentinel, distinct from any real data value
    Nothing,
}

impl Value {
    /// A container has children; a leaf does not.
    pub open spec fn is_container(self) -> bool {
        self is List || self is Record
    }
}

/// Some key of `pairs` reads as `name`.
pub open spec fn has_key(pairs: Seq<(String, Value)>, name: Seq<char>) -> bool {
    exists|i: int| 0 <= i < pairs.len() && pairs[i].0@ == name
}

/// All keys of `pairs` are pairwise distinct.
pub open spec fn keys_unique(pairs: Seq<(String, Value)>) -> bool {
    forall|i: int, j: int| 0 <= i < j < pairs.len() ==> pairs[i].0@ != pairs[j].0@
}

/// The first index of `pairs` whose key reads as `name`; meaningful only
/// when `has_key(pairs, name)` holds.
pub open spec fn key_index(pairs: Seq<(String, Value)>, name: Seq<char>) -> int
    decreases pairs.len(),
{
    if pairs.len() == 0 {
        0
    } else if pairs[0].0@ == name {
        0
    } else {
        1 + key_index(pairs.drop_first(), name)
    }
}

/// When `name` occurs among the keys, `key_index` is its first occurrence.
pub proof fn lemma_key_index_first(pairs: Seq<(String, Value)>, name: Seq<char>)
    requires
        has_key(pairs, name),
    ensures
        0 <= key_index(pairs, name) < pairs.len(),
        pairs[key_index(pairs, name)].0@ == name,
        forall|j: int| 0 <= j < key_index(pairs, name) ==> pairs[j].0@ != name,
    decreases pairs.len(),
{
    if pairs[0].0@ == name {
    } else {
        let sub = pairs.drop_first();
        assert(has_key(sub, name)) by {
            let i = choose|i: int| 0 <= i < pairs.len() && pairs[i].0@ == name;
            assert(sub[i - 1].0@ == name);
        }
        lemma_key_index_first(sub, name);
        let k = key_index(pairs, name);
        assert(pairs[k].0@ == sub[k - 1].0@);
        assert forall|j: int| 0 <= j < k implies pairs[j].0@ != name by {
            if j > 0 {
                assert(pairs[j].0@ == sub[j - 1].0@);
            }
        }
    }
}

/// With unique keys, looking a member's own key back up finds that member.
pub proof fn lemma_key_index_of_member(pairs: Seq<(String, Value)>, m: int)
    requires
        keys_unique(pairs),
        0 <= m < pairs.len(),
    ensures
        key_index(pairs, pairs[m].0@) == m,
{
    let name = pairs[m].0@;
    assert(has_key(pairs, name));
    lemma_key_index_first(pairs, name);
    let k = key_index(pairs, name);
    if k < m {
        assert(pairs[k].0@ != pairs[m].0@);
    } else if m < k {
        assert(pairs[m].0@ != name);
    }
}

/// Find the first entry of `pairs` whose key reads as `name`.
pub fn find_key(pairs: &Vec<(String, Value)>, name: &String) -> (r: Option<usize>)
    ensures
        match r {
            Some(j) => j < pairs@.len() && pairs@[j as int].0@ == name@
                && has_key(pairs@, name@) && j == key_index(pairs@, name@),
            None => !has_key(pairs@, name@),
        },
{
    let mut j: usize = 0;
    while j < pairs.len()
        invariant
            j <= pairs@.len(),
            forall|k: int| 0 <= k < j ==> pairs@[k].0@ != name@,
        decreases pairs@.len() - j,
    {
        if pairs[j].0 == *name {
            proof {
                assert(has_key(pairs@, name@));
                lemma_key_index_first(pairs@, name@);
                let ki = key_index(pairs@, name@);
                if ki < j {
                    assert(pairs@[ki].0@ != name@);
                }
            }
            return Some(j);
        }
        j = j + 1;
    }
    proof {
        if has_key(pairs@, name@) {
            let i = choose|i: int| 0 <= i < pairs@.len() && pairs@[i].0@ == name@;
            assert(pairs@[i].0@ != name@);
        }
    }
    None
}

} // verus!
