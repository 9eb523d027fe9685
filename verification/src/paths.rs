//! Display forms of Windows paths.

use crate::text::{
    chars_of, owned, push_all, slice_chars, starts_with, starts_with_chars, str_eq, string_of,
};
use vstd::prelude::*;

verus! {

/// The path without a verbatim `\\?\` prefix.
pub open spec fn without_unc(s: Seq<char>) -> Seq<char> {
    if starts_with(s, "\\\\?\\"@) {
        s.skip(4)
    } else {
        s
    }
}

/// Strips a verbatim `\\?\` prefix from a path.
pub fn clean_unc_path(s: String) -> (r: String)
    ensures
        r@ == without_unc(s@),
{
    let v = chars_of(s.as_str());
    let p = chars_of("\\\\?\\");
    proof {
        reveal_strlit("\\\\?\\");
    }
    if starts_with_chars(&v, &p) {
        let t = slice_chars(&v, 4, v.len());
        assert(t@ =~= v@.skip(4));
        string_of(t.as_slice())
    } else {
        s
    }
}

/// The path as a user would write it: `\\?\UNC\server\share` becomes
/// `\\server\share`, and other verbatim `\\?\` paths lose the prefix.
pub open spec fn plain_windows_path(s: Seq<char>) -> Seq<char> {
    if starts_with(s, "\\\\?\\UNC\\"@) {
        "\\\\"@ + s.skip(8)
    } else if starts_with(s, "\\\\?\\"@) {
        s.skip(4)
    } else {
        s
    }
}

/// Converts a verbatim Windows path to its plain form.
pub fn clean_windows_path(path: &str) -> (r: String)
    ensures
        r@ == plain_windows_path(path@),
{
    let v = chars_of(path);
    let unc = chars_of("\\\\?\\UNC\\");
    let verbatim = chars_of("\\\\?\\");
    proof {
        reveal_strlit("\\\\?\\UNC\\");
        reveal_strlit("\\\\?\\");
    }
    if starts_with_chars(&v, &unc) {
        let mut out = chars_of("\\\\");
        let t = slice_chars(&v, 8, v.len());
        push_all(&mut out, &t);
        assert(t@ =~= v@.skip(8));
        string_of(out.as_slice())
    } else if starts_with_chars(&v, &verbatim) {
        let t = slice_chars(&v, 4, v.len());
        assert(t@ =~= v@.skip(4));
        string_of(t.as_slice())
    } else {
        owned(path)
    }
}

/// Whether a session run in `workspace` belongs to the project `project`:
/// the two paths agree once verbatim prefixes are dropped.
pub fn session_in_project(workspace: &str, project: &str) -> (r: bool)
    ensures
        r == (without_unc(workspace@) == without_unc(project@)),
{
    let w = clean_unc_path(owned(workspace));
    let p = clean_unc_path(owned(project));
    str_eq(w.as_str(), p.as_str())
}

} // verus!
