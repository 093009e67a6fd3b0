//! Pure predicates that classify directory entries: version folders,
//! the reserved saved-variables directory name, and saved-variable files.

use vstd::prelude::*;

verus! {

/// The reserved sibling-directory name that stores saved-variable files.
/// A child of `WTF/Account` or of an account directory bearing this name is
/// never an account or a realm.
pub open spec fn spec_reserved_name() -> Seq<char> {
    "SavedVariables"@
}

/// A directory entry is a version folder when its name starts and ends
/// with an underscore.
pub open spec fn spec_is_version_folder_name(name: Seq<char>) -> bool {
    name.len() >= 1 && name[0] == '_' && name[name.len() - 1] == '_'
}

/// A file carries saved variables when its extension is exactly `lua`.
/// Mirroring how extensions are read from paths, the dot introducing the
/// extension may not be the first character of the name.
pub open spec fn spec_has_saved_variable_extension(name: Seq<char>) -> bool {
    name.len() >= 5 && name.subrange(name.len() - 4, name.len() as int) == ".lua"@
}

/// Character-for-character equality of two string slices.
pub fn str_eq(a: &str, b: &str) -> (r: bool)
    ensures
        r == (a@ == b@),
{
    let la = a.unicode_len();
    let lb = b.unicode_len();
    if la != lb {
        return false;
    }
    let mut i: usize = 0;
    while i < la
        invariant
            la == a@.len(),
            lb == b@.len(),
            la == lb,
            i <= la,
            forall|j: int| 0 <= j < i ==> a@[j] == b@[j],
        decreases la - i,
    {
        if a.get_char(i) != b.get_char(i) {
            return false;
        }
        i += 1;
    }
    proof {
        assert(a@ =~= b@);
    }
    true
}

/// Whether a directory entry with the given name and kind is a version
/// folder: a directory whose name both starts and ends with `_`.
pub fn is_version_folder(name: &str, is_dir: bool) -> (r: bool)
    ensures
        r == (is_dir && spec_is_version_folder_name(name@)),
{
    if !is_dir {
        return false;
    }
    let n = name.unicode_len();
    if n == 0 {
        return false;
    }
    name.get_char(0) == '_' && name.get_char(n - 1) == '_'
}

/// Whether `name` is the reserved saved-variables directory name
/// (case-sensitive exact match).
pub fn is_reserved_name(name: &str) -> (r: bool)
    ensures
        r == (name@ == spec_reserved_name()),
{
    str_eq(name, "SavedVariables")
}

/// Whether a file with the given name holds saved variables, judged by its
/// extension alone (case-sensitive exact match), independent of the stem.
pub fn is_saved_variable_file(name: &str) -> (r: bool)
    ensures
        r == spec_has_saved_variable_extension(name@),
{
    let n = name.unicode_len();
    if n < 5 {
        return false;
    }
    let r = name.get_char(n - 4) == '.' && name.get_char(n - 3) == 'l'
        && name.get_char(n - 2) == 'u' && name.get_char(n - 1) == 'a';
    proof {
        reveal_strlit(".lua");
        let tail = name@.subrange(n - 4, n as int);
        if r {
            assert(tail =~= ".lua"@);
        } else {
            assert(tail != ".lua"@) by {
                if tail == ".lua"@ {
                    assert(name@[n - 4] == tail[0]);
                    assert(name@[n - 3] == tail[1]);
                    assert(name@[n - 2] == tail[2]);
                    assert(name@[n - 1] == tail[3]);
                }
            }
        }
    }
    r
}

} // verus!
