//! Paths as texts, with a slash between a directory and what lies below it.

use vstd::prelude::*;
use vstd::string::{StrSliceExecFns, StringExecFns};

verus! {

/// The character that parts a directory from what lies below it.
pub const SLASH: char = '/';

/// Whether a name follows a directory without a slash of its own between
/// them: after the empty path, which is the root, and after a directory that
/// ends in a slash.
pub open spec fn joins_bare(base: Seq<char>) -> bool {
    base.len() == 0 || base.last() == SLASH
}

/// A directory and a name below it as one path: the directory, a slash
/// unless the name follows it bare, and the name.
pub open spec fn joined(base: Seq<char>, name: Seq<char>) -> Seq<char> {
    if joins_bare(base) {
        base + name
    } else {
        base + seq![SLASH] + name
    }
}

/// Joins a directory and a name below it to one path.
pub fn join(base: &str, name: &str) -> (r: String)
    ensures
        r@ == joined(base@, name@),
{
    let len = base.unicode_len();
    let bare = len == 0 || base.get_char(len - 1) == SLASH;
    let mut r = String::from_str(base);
    if !bare {
        proof {
            reveal_strlit("/");
            assert("/"@ =~= seq![SLASH]);
        }
        r.append("/");
    }
    r.append(name);
    r
}

/// Below the root a path is the name alone.
pub proof fn lemma_joined_below_root(name: Seq<char>)
    ensures
        joined(Seq::empty(), name) == name,
{
    assert(Seq::<char>::empty() + name =~= name);
}

} // verus!
