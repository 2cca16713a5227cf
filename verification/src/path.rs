//! Focus paths: stacks of members addressing one node inside a value tree.

use vstd::prelude::*;

verus! {

/// One step of a focus path.
///
/// `empty_at_creation` records whether the parent container had zero
/// elements when this member was pushed; it marks a placeholder selection
/// into an empty container and is preserved verbatim whenever the member
/// is rewritten in place.
#[derive(Clone, Debug, PartialEq, Eq)]
pub enum PathMember {
    /// addresses a child of a list by position
    Index { position: usize, empty_at_creation: bool },
    /// addresses a child of a record by key name
    Key { name: String, empty_at_creation: bool },
}

/// The mathematical reading of a [`PathMember`].
pub enum MemberV {
    /// a list position
    Index { position: int, empty_at_creation: bool },
    /// a record key
    Key { name: Seq<char>, empty_at_creation: bool },
}

impl MemberV {
    /// The placeholder flag, whichever variant carries it.
    pub open spec fn empty_at_creation(self) -> bool {
        match self {
            MemberV::Index { empty_at_creation, .. } => empty_at_creation,
            MemberV::Key { empty_at_creation, .. } => empty_at_creation,
        }
    }
}

impl View for PathMember {
    type V = MemberV;

    open spec fn view(&self) -> MemberV {
        match self {
            PathMember::Index { position, empty_at_creation } => MemberV::Index {
                position: *position as int,
                empty_at_creation: *empty_at_creation,
            },
            PathMember::Key { name, empty_at_creation } => MemberV::Key {
                name: name@,
                empty_at_creation: *empty_at_creation,
            },
        }
    }
}

/// A focus path: an ordered stack of members, root-relative.
pub type FocusPath = Vec<PathMember>;

/// The mathematical reading of a whole focus path.
pub open spec fn path_view(p: Seq<PathMember>) -> Seq<MemberV> {
    p.map_values(|m: PathMember| m@)
}

/// `path_view` distributes over `push`.
pub proof fn lemma_path_view_push(p: Seq<PathMember>, m: PathMember)
    ensures
        path_view(p.push(m)) == path_view(p).push(m@),
{
    assert(path_view(p.push(m)) =~= path_view(p).push(m@));
}

/// `path_view` distributes over `drop_last`.
pub proof fn lemma_path_view_drop_last(p: Seq<PathMember>)
    requires
        p.len() > 0,
    ensures
        path_view(p.drop_last()) == path_view(p).drop_last(),
{
    assert(path_view(p.drop_last()) =~= path_view(p).drop_last());
}

} // verus!
