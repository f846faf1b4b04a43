//! Filesystem paths, held as strings.
//!
//! Paths are joined the way `PathBuf::push` does it on Unix: an absolute component replaces
//! the path, a relative one is appended after a `/` unless the path is empty or already ends
//! with one.

use vstd::prelude::*;
use crate::text::{chars_of, push_str, string_from_chars, string_of};

verus! {

/// `base` joined with `comp` (`Path::join` on Unix).
pub open spec fn spec_join(base: Seq<char>, comp: Seq<char>) -> Seq<char> {
    if comp.len() > 0 && comp[0] == '/' {
        comp
    } else if base.len() == 0 || base.last() == '/' {
        base + comp
    } else {
        base + seq!['/'] + comp
    }
}

/// `base` joined with `comp` (`Path::join` on Unix).
pub fn join(base: &str, comp: &str) -> (r: String)
    ensures
        r@ == spec_join(base@, comp@),
{
    let b = chars_of(base);
    let c = chars_of(comp);
    if c.len() > 0 && c[0] == '/' {
        return string_of(comp);
    }
    let mut out = b.clone();
    if !(b.len() == 0 || b[b.len() - 1] == '/') {
        out.push('/');
    }
    push_str(&mut out, comp);
    proof {
        if b@.len() == 0 || b@.last() == '/' {
            assert(out@ =~= b@ + c@);
        } else {
            assert(out@ =~= b@ + seq!['/'] + c@);
        }
    }
    string_from_chars(out.as_slice())
}

/// The last component of a path, as `Path::file_name` gives it (`None` for `/`, an empty path,
/// or a path ending in `..`).
pub uninterp spec fn spec_file_name(p: Seq<char>) -> Option<Seq<char>>;

/// `Path::file_name`: the result is `spec_file_name` of the path.
#[verifier::external_body]
pub(crate) fn file_name(p: &str) -> (r: Option<String>)
    ensures
        match r {
            Some(s) => spec_file_name(p@) == Some(s@),
            None => spec_file_name(p@) is None,
        },
{
    std::path::Path::new(p).file_name().map(|n| n.to_string_lossy().into_owned())
}

/// The path without its last component, as `Path::parent` gives it (`None` for a root or an
/// empty path).
pub uninterp spec fn spec_parent(p: Seq<char>) -> Option<Seq<char>>;

/// `Path::parent`: the result is `spec_parent` of the path.
#[verifier::external_body]
pub(crate) fn parent(p: &str) -> (r: Option<String>)
    ensures
        match r {
            Some(s) => spec_parent(p@) == Some(s@),
            None => spec_parent(p@) is None,
        },
{
    std::path::Path::new(p).parent().map(|n| n.to_string_lossy().into_owned())
}

/// What is left of `p` once the leading components `base` are removed, as
/// `Path::strip_prefix` gives it (`None` when `base` is not a component-wise prefix of `p`).
pub uninterp spec fn spec_strip_prefix(p: Seq<char>, base: Seq<char>) -> Option<Seq<char>>;

/// `Path::strip_prefix`: the result is `spec_strip_prefix` of the two paths.
#[verifier::external_body]
pub(crate) fn strip_prefix(p: &str, base: &str) -> (r: Option<String>)
    ensures
        match r {
            Some(s) => spec_strip_prefix(p@, base@) == Some(s@),
            None => spec_strip_prefix(p@, base@) is None,
        },
{
    std::path::Path::new(p).strip_prefix(base).ok().map(|n| n.to_string_lossy().into_owned())
}

} // verus!
