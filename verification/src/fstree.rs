//! A plain snapshot of a directory tree, as observed at scan time.
//!
//! The scanner never touches the filesystem itself: the caller lists the
//! relevant part of the installation directory into an `FsTree` value and
//! hands it over. A directory whose listing failed is recorded with
//! `readable == false` and no children; a file has no children.

use vstd::prelude::*;

verus! {

/// One entry of a directory listing, together with the listing of its own
/// contents when it is a directory and that listing succeeded.
pub struct FsTree {
    /// The entry's file name (the last path component, not the full path).
    pub name: String,
    /// Whether the entry is a directory.
    pub is_dir: bool,
    /// For a directory: whether its contents could be obtained. Meaningless
    /// for a file.
    pub readable: bool,
    /// The entries found inside a readable directory; empty for a file and
    /// for an unreadable directory.
    pub children: Vec<FsTree>,
}

/// A snapshot is well formed when files and unreadable directories carry no
/// children and sibling names are distinct, as the names inside one real
/// directory always are.
pub open spec fn tree_wf(t: FsTree) -> bool
    decreases t,
{
    &&& (!t.is_dir || !t.readable) ==> t.children@.len() == 0
    &&& forall|i: int, j: int|
        0 <= i < j < t.children@.len() ==> t.children@[i].name@ != t.children@[j].name@
    &&& forall|i: int| 0 <= i < t.children@.len() ==> tree_wf(#[trigger] t.children@[i])
}

/// The index of the first entry of `cs` named `name`, or `-1` when there is
/// none.
pub open spec fn child_index(cs: Seq<FsTree>, name: Seq<char>) -> int
    decreases cs.len(),
{
    if cs.len() == 0 {
        -1
    } else if cs[0].name@ == name {
        0
    } else {
        let rest = child_index(cs.drop_first(), name);
        if rest < 0 {
            -1
        } else {
            rest + 1
        }
    }
}

/// Whether some entry of `cs` is named `name`.
pub open spec fn has_child(cs: Seq<FsTree>, name: Seq<char>) -> bool {
    child_index(cs, name) >= 0
}

/// The first entry of `cs` named `name`; meaningful only when `has_child`
/// holds.
pub open spec fn the_child(cs: Seq<FsTree>, name: Seq<char>) -> FsTree {
    cs[child_index(cs, name)]
}

pub proof fn lemma_child_index(cs: Seq<FsTree>, name: Seq<char>)
    ensures
        child_index(cs, name) == -1 ==> forall|k: int|
            0 <= k < cs.len() ==> cs[k].name@ != name,
        child_index(cs, name) >= 0 ==> child_index(cs, name) < cs.len()
            && cs[child_index(cs, name)].name@ == name,
        child_index(cs, name) >= 0 ==> forall|k: int|
            0 <= k < child_index(cs, name) ==> cs[k].name@ != name,
    decreases cs.len(),
{
    if cs.len() == 0 {
    } else if cs[0].name@ == name {
    } else {
        lemma_child_index(cs.drop_first(), name);
        assert forall|k: int| 1 <= k < cs.len() implies cs[k] == cs.drop_first()[k - 1] by {}
    }
}

/// Whether `t` has a child directory named `name`.
pub open spec fn has_child_dir(t: FsTree, name: Seq<char>) -> bool {
    has_child(t.children@, name) && the_child(t.children@, name).is_dir
}

impl FsTree {
    /// Finds the first child of `self` with the given name.
    pub fn find_child<'a>(&'a self, name: &str) -> (r: Option<&'a FsTree>)
        ensures
            match r {
                Some(c) => has_child(self.children@, name@) && *c == the_child(
                    self.children@,
                    name@,
                ),
                None => !has_child(self.children@, name@),
            },
    {
        proof {
            lemma_child_index(self.children@, name@);
        }
        let n = self.children.len();
        let mut i: usize = 0;
        while i < n
            invariant
                n == self.children@.len(),
                i <= n,
                forall|j: int| 0 <= j < i ==> self.children@[j].name@ != name@,
            decreases n - i,
        {
            if crate::classify::str_eq(self.children[i].name.as_str(), name) {
                proof {
                    lemma_child_index_first(self.children@, name@, i as int);
                }
                return Some(&self.children[i]);
            }
            i += 1;
        }
        None
    }

    /// Whether `self` has a child directory with the given name.
    pub fn has_child_dir(&self, name: &str) -> (r: bool)
        ensures
            r == has_child_dir(*self, name@),
    {
        match self.find_child(name) {
            Some(c) => c.is_dir,
            None => false,
        }
    }
}

/// The first match of a name scan is what `child_index` points at.
pub proof fn lemma_child_index_first(cs: Seq<FsTree>, name: Seq<char>, i: int)
    requires
        0 <= i < cs.len(),
        cs[i].name@ == name,
        forall|j: int| 0 <= j < i ==> cs[j].name@ != name,
    ensures
        child_index(cs, name) == i,
    decreases cs.len(),
{
    if i == 0 {
    } else {
        assert forall|k: int| 1 <= k < cs.len() implies cs[k] == cs.drop_first()[k - 1] by {}
        lemma_child_index_first(cs.drop_first(), name, i - 1);
    }
}

} // verus!
