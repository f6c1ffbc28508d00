//! Paths as text.  Components are joined by `/`, which every platform
//! that the standard library supports accepts as a separator.

use vstd::prelude::*;
use vstd::string::{StrSliceExecFns, StringExecFns};

verus! {

/// The separator between the components of a path.
pub const SEPARATOR: char = '/';

/// `name` below `base`: a separator stands between them unless `base`
/// is empty or ends in one.
pub open spec fn joined(base: Seq<char>, name: Seq<char>) -> Seq<char> {
    if base.len() == 0 || base.last() == SEPARATOR {
        base + name
    } else {
        base + seq![SEPARATOR] + name
    }
}

/// The path that the components `below` lead to from `base`.
pub open spec fn joined_all(base: Seq<char>, below: Seq<Seq<char>>) -> Seq<char>
    decreases below.len(),
{
    if below.len() == 0 {
        base
    } else {
        joined(joined_all(base, below.drop_last()), below.last())
    }
}

/// Joins `name` to `base`.
pub fn join(base: &str, name: &str) -> (path: String)
    ensures
        path@ == joined(base@, name@),
{
    let length: usize = base.unicode_len();
    let path = String::from_str(base);
    if length == 0 || base.get_char(length - 1) == SEPARATOR {
        path.concat(name)
    } else {
        proof {
            reveal_strlit("/");
            assert("/"@ =~= seq![SEPARATOR]);
        }
        path.concat("/").concat(name)
    }
}

/// Joins the components `below` to `base`, one after the other.
pub fn join_all(base: &str, below: &Vec<&'static str>) -> (path: String)
    ensures
        path@ == joined_all(base@, below.deep_view()),
{
    let mut path = String::from_str(base);
    let mut index: usize = 0;
    while index < below.len()
        invariant
            index <= below.len(),
            path@ == joined_all(base@, below.deep_view().take(index as int)),
        decreases below.len() - index,
    {
        path = join(path.as_str(), below[index]);
        proof {
            let taken = below.deep_view().take(index + 1);
            assert(taken.drop_last() =~= below.deep_view().take(index as int));
            assert(taken.last() == below[index as int]@);
        }
        index = index + 1;
    }
    assert(below.deep_view().take(index as int) =~= below.deep_view());
    path
}

} // verus!
