//! Small helpers: telling a local template apart from a remote one, and
//! recognising binary file contents.

use vstd::prelude::*;

use crate::engine::find_byte;

verus! {

/// Where a template comes from: a local folder or a remote repository.
#[derive(Debug, Clone, PartialEq)]
pub enum Source {
    Local(String),
    Git(String),
}

/// Classify a template input.  The caller says whether the input names an
/// existing local directory; anything else is taken for a repository to
/// clone.
pub fn get_source(input: &str, is_local_dir: bool) -> (r: Source)
    ensures
        is_local_dir ==> (r matches Source::Local(p) && p@ == input@),
        !is_local_dir ==> (r matches Source::Git(s) && s@ == input@),
{
    if is_local_dir {
        Source::Local(input.to_owned())
    } else {
        Source::Git(input.to_owned())
    }
}

/// Whether a byte sequence holds a NUL byte.
pub open spec fn contains_nul(s: Seq<u8>) -> bool {
    exists|i: int| 0 <= i < s.len() && s[i] == 0u8
}

/// Is the buffer from a binary file?  A buffer holding a NUL byte is taken
/// for binary and is never rendered.
pub fn is_binary(buf: &[u8]) -> (r: bool)
    ensures
        r == contains_nul(buf@),
{
    find_byte(0u8, buf).is_some()
}

} // verus!
