//! Joining relative file names onto a working directory.

use vstd::prelude::*;

verus! {

/// `Path::join` for a relative `rel` with `/` as the separator: a separator
/// is put between the two unless `base` is empty or already ends with one.
pub open spec fn path_join(base: Seq<char>, rel: Seq<char>) -> Seq<char> {
    if base.len() == 0 || base.last() == '/' {
        base + rel
    } else {
        base + seq!['/'] + rel
    }
}

/// Executable `path_join`.
pub fn join_path(base: &str, rel: &str) -> (r: String)
    ensures
        r@ == path_join(base@, rel@),
{
    let b = crate::text::to_chars(base);
    let mut out = String::from_str(base);
    if b.len() > 0 && b[b.len() - 1] != '/' {
        crate::text::string_push(&mut out, '/');
    }
    out.append(rel);
    out
}

} // verus!
