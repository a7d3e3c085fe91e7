//! File-name arithmetic on paths held as text.
//!
//! The path primitives (`file_name`, `parent`, `join`, `set_extension`, path
//! equality) are those of `std::path` for the platform the library is
//! built for; what they return is named by the uninterpreted functions below and
//! fixed by the target at compile time. Extension and stem are derived from the
//! file name by the rules that `std::path` documents for them.

use vstd::prelude::*;
use crate::text::chars_of;
use vstd::string::*;

verus! {

/// Text of an optional string.
pub open spec fn opt_view(o: Option<String>) -> Option<Seq<char>> {
    match o {
        Some(s) => Some(s@),
        None => None,
    }
}

/// The final component of a path, as `Path::file_name` returns it.
pub uninterp spec fn std_file_name(path: Seq<char>) -> Option<Seq<char>>;

/// The path without its final component, as `Path::parent` returns it.
pub uninterp spec fn std_parent(path: Seq<char>) -> Option<Seq<char>>;

/// `base` with `rest` adjoined, as `Path::join` returns it.
pub uninterp spec fn std_join(base: Seq<char>, rest: Seq<char>) -> Seq<char>;

/// The path after `PathBuf::set_extension(ext)`.
pub uninterp spec fn std_set_extension(path: Seq<char>, ext: Seq<char>) -> Seq<char>;

/// Whether two paths are equal as `Path == Path` decides (component by component).
pub uninterp spec fn std_path_eq(a: Seq<char>, b: Seq<char>) -> bool;

/// An ASCII letter.
pub open spec fn ascii_letter(c: char) -> bool {
    ('a' <= c && c <= 'z') || ('A' <= c && c <= 'Z')
}

/// The path starts with a Windows drive designator: a letter and a colon.
pub open spec fn starts_with_drive(path: Seq<char>) -> bool {
    path.len() >= 2 && ascii_letter(path[0]) && path[1] == ':'
}

/// Text with no separator (`/`, `\\`) that is neither `.` nor `..` and not empty.
pub open spec fn plain_component(path: Seq<char>) -> bool {
    &&& path.len() > 0
    &&& !path.contains('/')
    &&& !path.contains('\\')
    &&& path != seq!['.']
    &&& path != seq!['.', '.']
}

/// A path that is one plain component on every platform: plain text that does
/// not start with a drive designator.
pub open spec fn simple_name(path: Seq<char>) -> bool {
    plain_component(path) && !starts_with_drive(path)
}

/// A drive designator followed by a plain component (`C:photo.png`): one
/// component where the drive designator is no prefix (Unix), the component after
/// the prefix where it is (Windows).
pub open spec fn drive_name(path: Seq<char>) -> bool {
    starts_with_drive(path) && plain_component(path.skip(2))
}

/// Wraps `std::path::Path::file_name`: the final component of `path`, if it is a
/// normal component. The claims beyond the name, from the documented component
/// rules: a component is never empty; a path that is one plain component is its
/// own file name; after a drive designator the file name is the whole text or
/// the text after the designator, as the platform reads prefixes.
#[verifier::external_body]
pub fn file_name(path: &str) -> (r: Option<String>)
    ensures
        opt_view(r) == std_file_name(path@),
        r matches Some(n) ==> n@.len() > 0,
        simple_name(path@) ==> opt_view(r) == Some(path@),
        drive_name(path@) ==> (opt_view(r) == Some(path@) || opt_view(r) == Some(path@.skip(2))),
{
    std::path::Path::new(path).file_name().map(|n| n.to_string_lossy().into_owned())
}

/// Wraps `std::path::Path::parent`; nothing is claimed beyond the name.
#[verifier::external_body]
pub fn parent(path: &str) -> (r: Option<String>)
    ensures
        opt_view(r) == std_parent(path@),
{
    std::path::Path::new(path).parent().map(|p| p.to_string_lossy().into_owned())
}

/// Wraps `std::path::Path::join`. The claims beyond the name, from the documented
/// `push` rule: adjoining a relative path that is a single component makes that
/// component the file name, and `base` (as a path) its parent.
#[verifier::external_body]
pub fn join(base: &str, rest: &str) -> (r: String)
    ensures
        r@ == std_join(base@, rest@),
        std_file_name(rest@) == Some(rest@) ==> std_file_name(r@) == Some(rest@),
        std_file_name(rest@) == Some(rest@) ==> std_parent(r@) is Some,
        std_file_name(rest@) == Some(rest@) ==> std_path_eq(std_parent(r@).unwrap(), base@),
{
    std::path::Path::new(base).join(rest).to_string_lossy().into_owned()
}

/// Wraps `std::path::Path == std::path::Path`; nothing is claimed beyond the name.
#[verifier::external_body]
pub fn same_path(a: &str, b: &str) -> (r: bool)
    ensures
        r == std_path_eq(a@, b@),
{
    std::path::Path::new(a) == std::path::Path::new(b)
}

/// Index of the last `c` in `s`, or -1.
pub open spec fn last_index_of(s: Seq<char>, c: char) -> int
    decreases s.len(),
{
    if s.len() == 0 {
        -1
    } else if s.last() == c {
        s.len() - 1
    } else {
        last_index_of(s.drop_last(), c)
    }
}

pub proof fn lemma_last_index_bounds(s: Seq<char>, c: char)
    ensures
        -1 <= last_index_of(s, c) < s.len(),
        last_index_of(s, c) >= 0 ==> s[last_index_of(s, c)] == c,
    decreases s.len(),
{
    if s.len() > 0 && s.last() != c {
        lemma_last_index_bounds(s.drop_last(), c);
    }
}

/// A non-empty file name has a non-empty stem.
pub proof fn lemma_stem_nonempty(name: Seq<char>)
    requires
        name.len() > 0,
    ensures
        name_stem(name).len() > 0,
{
    lemma_last_index_bounds(name, '.');
}

/// Where a file name splits into stem and extension: the last dot, unless the
/// name has no dot or its only dot is the first character.
pub open spec fn split_dot(name: Seq<char>) -> int {
    last_index_of(name, '.')
}

/// The stem of a file name, as `Path::file_stem` documents it.
pub open spec fn name_stem(name: Seq<char>) -> Seq<char> {
    if split_dot(name) > 0 {
        name.take(split_dot(name))
    } else {
        name
    }
}

/// The extension of a file name, as `Path::extension` documents it.
pub open spec fn name_extension(name: Seq<char>) -> Option<Seq<char>> {
    if split_dot(name) > 0 {
        Some(name.skip(split_dot(name) + 1))
    } else {
        None
    }
}

/// The file name that `set_extension(ext)` leaves behind for a non-empty `ext`,
/// as documented: the old extension removed, a dot and `ext` added.
pub open spec fn name_with_extension(name: Seq<char>, ext: Seq<char>) -> Seq<char> {
    name_stem(name) + seq!['.'] + ext
}

/// `Path::extension` of a path.
pub open spec fn path_extension(path: Seq<char>) -> Option<Seq<char>> {
    match std_file_name(path) {
        Some(n) => name_extension(n),
        None => None,
    }
}

/// `Path::file_stem` of a path.
pub open spec fn path_stem(path: Seq<char>) -> Option<Seq<char>> {
    match std_file_name(path) {
        Some(n) => Some(name_stem(n)),
        None => None,
    }
}

/// Wraps `std::path::PathBuf::set_extension`. It claims what the documentation
/// states: nothing changes and `false` comes back when the path has no file name;
/// otherwise `true`, and, for a non-empty `ext`, the file name becomes the old
/// one with its extension replaced by `ext` while the parent stays as it was; a
/// path that is its own file name becomes the new file name. What the path
/// becomes when the extension is only removed is not stated. The call panics on an extension
/// holding a path separator, which `requires` leaves out.
#[verifier::external_body]
pub fn set_extension(path: &mut String, ext: &str) -> (r: bool)
    requires
        !ext@.contains('/'),
        !ext@.contains('\\'),
    ensures
        final(path)@ == std_set_extension(old(path)@, ext@),
        r == std_file_name(old(path)@) is Some,
        r ==> std_file_name(old(path)@).unwrap().len() > 0,
        !r ==> final(path)@ == old(path)@,
        r && ext@.len() > 0 ==> std_file_name(final(path)@) == Some(
            name_with_extension(std_file_name(old(path)@).unwrap(), ext@),
        ),
        r && ext@.len() > 0 ==> std_parent(final(path)@) == std_parent(old(path)@),
        r && ext@.len() > 0 && std_file_name(old(path)@) == Some(old(path)@) ==> final(path)@
            == name_with_extension(old(path)@, ext@),
{
    let mut p = std::path::PathBuf::from(path.as_str());
    let changed = p.set_extension(ext);
    *path = p.to_string_lossy().into_owned();
    changed
}

fn last_dot(cs: &Vec<char>) -> (r: Option<usize>)
    ensures
        match r {
            Some(i) => i as int == last_index_of(cs@, '.') && i < cs@.len() && cs@[i as int] == '.',
            None => last_index_of(cs@, '.') == -1,
        },
{
    let mut i: usize = cs.len();
    assert(cs@.take(i as int) == cs@);
    while i > 0
        invariant
            i <= cs@.len(),
            last_index_of(cs@, '.') == last_index_of(cs@.take(i as int), '.'),
        decreases i,
    {
        assert(cs@.take(i as int).drop_last() == cs@.take(i - 1));
        if cs[i - 1] == '.' {
            return Some(i - 1);
        }
        i = i - 1;
    }
    None
}

/// Splits a file name into stem and extension, as `Path::file_stem` and
/// `Path::extension` do.
pub fn split_name(name: &str) -> (r: (String, Option<String>))
    ensures
        r.0@ == name_stem(name@),
        opt_view(r.1) == name_extension(name@),
{
    let cs = chars_of(name);
    let n: usize = name.unicode_len();
    match last_dot(&cs) {
        Some(i) if i > 0 => {
            let stem = String::from_str(name.substring_char(0, i));
            let ext = String::from_str(name.substring_char(i + 1, n));
            (stem, Some(ext))
        },
        _ => (String::from_str(name), None),
    }
}

/// The extension of `path`, as `Path::extension` returns it.
pub fn extension(path: &str) -> (r: Option<String>)
    ensures
        opt_view(r) == path_extension(path@),
        simple_name(path@) ==> std_file_name(path@) == Some(path@),
        drive_name(path@) ==> (std_file_name(path@) == Some(path@) || std_file_name(path@) == Some(
            path@.skip(2),
        )),
{
    match file_name(path) {
        Some(n) => split_name(n.as_str()).1,
        None => None,
    }
}

/// The stem of `path`, as `Path::file_stem` returns it.
pub fn file_stem(path: &str) -> (r: Option<String>)
    ensures
        opt_view(r) == path_stem(path@),
{
    match file_name(path) {
        Some(n) => Some(split_name(n.as_str()).0),
        None => None,
    }
}

} // verus!
