//! Test names as the standard test harness filters them.

use vstd::prelude::*;
use vstd::string::StrSliceExecFns;

verus! {

/// A path separator `::` starts at index `i` of `path`.
pub open spec fn separator_at(path: Seq<char>, i: int) -> bool {
    0 <= i && i + 1 < path.len() && path[i] == ':' && path[i + 1] == ':'
}

/// The first path separator of `path` starts at index `i`.
pub open spec fn is_first_separator(path: Seq<char>, i: int) -> bool {
    separator_at(path, i) && forall|j: int| 0 <= j < i ==> !separator_at(path, j)
}

/// `path` without its first segment and the separator that follows it; a
/// path without separator stays as it is.
pub open spec fn fixed_path(path: Seq<char>) -> Seq<char> {
    if exists|i: int| is_first_separator(path, i) {
        path.skip((choose|i: int| is_first_separator(path, i)) + 2)
    } else {
        path
    }
}

/// Two indices that both start the first separator are the same index.
pub proof fn lemma_first_separator_unique(path: Seq<char>, i: int, j: int)
    requires
        is_first_separator(path, i),
        is_first_separator(path, j),
    ensures
        i == j,
{
}

/// Where the first separator starts at `i`, the fixed path is what follows
/// the two characters of that separator.
pub proof fn lemma_fixed_path_after(path: Seq<char>, i: int)
    requires
        is_first_separator(path, i),
    ensures
        fixed_path(path) == path.skip(i + 2),
{
    let k = choose|k: int| is_first_separator(path, k);
    lemma_first_separator_unique(path, i, k);
}

/// A path in which no separator starts anywhere is its own fixed path.
pub proof fn lemma_fixed_path_without_separator(path: Seq<char>)
    requires
        forall|i: int| !separator_at(path, i),
    ensures
        fixed_path(path) == path,
{
}

/// Transform a qualified path as the compiler spells it, crate name first,
/// into the path by which the standard test harness knows the same item: the
/// crate name and the separator after it are cut off.
pub fn fix_module_path(path: &str) -> (fixed: &str)
    ensures
        fixed@ == fixed_path(path@),
{
    let total = path.unicode_len();
    let mut index: usize = 0;
    let mut after_colon = false;
    for c in it: path.chars()
        invariant
            it.seq() == path@,
            index == it.index(),
            total == path@.len(),
            after_colon <==> (index > 0 && path@[index - 1] == ':'),
            forall|j: int| 0 <= j && j + 1 < index ==> !separator_at(path@, j),
    {
        if after_colon && c == ':' {
            proof {
                lemma_fixed_path_after(path@, index - 1);
            }
            return path.substring_char(index + 1, total);
        }
        after_colon = c == ':';
        index = index + 1;
    }
    proof {
        lemma_fixed_path_without_separator(path@);
    }
    path
}

} // verus!
