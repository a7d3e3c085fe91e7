//! Which command-line arguments are glob patterns, and how patterns match.

use vstd::prelude::*;
use crate::text::contains_char;

verus! {

/// An argument is a glob pattern when it holds `*`, `?` or `[`.
pub open spec fn is_glob(s: Seq<char>) -> bool {
    s.contains('*') || s.contains('?') || s.contains('[')
}

/// Whether an argument is expanded as a glob pattern rather than taken as a path.
pub fn looks_like_glob(s: &str) -> (r: bool)
    ensures
        r == is_glob(s@),
{
    contains_char(s, '*') || contains_char(s, '?') || contains_char(s, '[')
}

/// How patterns match names: case-insensitively on Windows, case-sensitively
/// elsewhere; separators and leading dots need no literal match.
pub struct GlobOptions {
    pub case_sensitive: bool,
    pub require_literal_separator: bool,
    pub require_literal_leading_dot: bool,
}

/// The matching options used when expanding patterns on a platform.
pub fn glob_options(on_windows: bool) -> (r: GlobOptions)
    ensures
        r.case_sensitive == !on_windows,
        !r.require_literal_separator,
        !r.require_literal_leading_dot,
{
    GlobOptions {
        case_sensitive: !on_windows,
        require_literal_separator: false,
        require_literal_leading_dot: false,
    }
}

} // verus!
