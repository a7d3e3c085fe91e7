//! Which format a file holds, judged by its extension, and the lossless PNG pass.

use vstd::prelude::*;
use crate::cli::{Format, format_for_extension, format_for_lowercase_extension};
use crate::pathname::{extension, path_extension, simple_name, drive_name, plain_component, starts_with_drive, std_file_name, last_index_of, name_extension};
use crate::cli::{format_extension, lemma_extension_round_trip};
use crate::text::{lowered, to_ascii_lower};

verus! {

/// Why a file's format could not be told from its name.
#[derive(Debug)]
pub enum DetectError {
    /// The path has no extension.
    MissingExtension,
    /// The (lower-cased) extension names no supported format.
    Unsupported(String),
}

/// The format named by a path's extension, compared without regard to ASCII case.
pub open spec fn detected(path: Seq<char>) -> Option<Format> {
    match path_extension(path) {
        Some(e) => format_for_extension(lowered(e)),
        None => None,
    }
}

/// The format of the file at `path`, judged by its extension: `png`, `jpg` or
/// `jpeg`, `webp`, `avif`, in any ASCII case.
pub fn detect_format(path: &str) -> (r: Result<Format, DetectError>)
    ensures
        match r {
            Ok(f) => detected(path@) == Some(f),
            Err(DetectError::MissingExtension) => path_extension(path@) is None,
            Err(DetectError::Unsupported(e)) => {
                &&& path_extension(path@) is Some
                &&& e@ == lowered(path_extension(path@).unwrap())
                &&& format_for_extension(e@) is None
            },
        },
        simple_name(path@) ==> std_file_name(path@) == Some(path@),
        drive_name(path@) ==> (std_file_name(path@) == Some(path@) || std_file_name(path@) == Some(
            path@.skip(2),
        )),
{
    match extension(path) {
        None => Err(DetectError::MissingExtension),
        Some(ext) => {
            let lower = to_ascii_lower(ext.as_str());
            match format_for_lowercase_extension(lower.as_str()) {
                Some(f) => Ok(f),
                None => Err(DetectError::Unsupported(lower)),
            }
        },
    }
}

proof fn lemma_last_dot_of(a: Seq<char>, b: Seq<char>)
    requires
        !b.contains('.'),
    ensures
        last_index_of(a + seq!['.'] + b, '.') == a.len(),
    decreases b.len(),
{
    if b.len() == 0 {
        assert(a + seq!['.'] + b =~= a + seq!['.']);
        assert((a + seq!['.']).last() == '.');
    } else {
        let whole = a + seq!['.'] + b;
        assert(whole.last() == b.last());
        assert(b.last() != '.') by {
            assert(b[b.len() - 1] == b.last());
        }
        assert(whole.drop_last() =~= a + seq!['.'] + b.drop_last());
        assert(!b.drop_last().contains('.')) by {
            if b.drop_last().contains('.') {
                let i: int = choose|i: int| 0 <= i < b.drop_last().len() && b.drop_last()[i] == '.';
                assert(b[i] == '.');
            }
        }
        lemma_last_dot_of(a, b.drop_last());
    }
}

proof fn lemma_no_char_in_name(s: Seq<char>, e: Seq<char>, c: char)
    requires
        !s.contains(c),
        !e.contains(c),
        c != '.',
    ensures
        !(s + seq!['.'] + e).contains(c),
{
    let p = s + seq!['.'] + e;
    if p.contains(c) {
        let i: int = choose|i: int| 0 <= i < p.len() && p[i] == c;
        if i < s.len() {
            assert(s[i] == c);
        } else if i > s.len() {
            assert(e[i - s.len() - 1] == c);
        }
    }
}

/// A file named `<s>.<ext>`, for a dot-free `s` without separators and a format's
/// extension, is detected as that format, whatever the platform reads as its file
/// name (`detect_format` ensures which readings are possible). The one stem left
/// out is a bare drive designator (`C:`), which Windows reads as a prefix.
pub proof fn lemma_detect_named_file(s: Seq<char>, f: Format)
    requires
        s.len() > 0,
        !s.contains('.'),
        !s.contains('/'),
        !s.contains('\\'),
        !(s.len() == 2 && starts_with_drive(s)),
    ensures
        simple_name(s + seq!['.'] + format_extension(f)) || drive_name(
            s + seq!['.'] + format_extension(f),
        ),
        std_file_name(s + seq!['.'] + format_extension(f)) == Some(s + seq!['.'] + format_extension(f))
            ==> detected(s + seq!['.'] + format_extension(f)) == Some(f),
        std_file_name(s + seq!['.'] + format_extension(f)) == Some(
            (s + seq!['.'] + format_extension(f)).skip(2),
        ) && drive_name(s + seq!['.'] + format_extension(f)) ==> detected(
            s + seq!['.'] + format_extension(f),
        ) == Some(f),
{
    let e = format_extension(f);
    let p = s + seq!['.'] + e;
    lemma_extension_round_trip(f);
    lemma_no_char_in_name(s, e, '/');
    lemma_no_char_in_name(s, e, '\\');
    assert(p.len() >= 3);
    assert(p != seq!['.']);
    assert(p != seq!['.', '.']);
    lemma_last_dot_of(s, e);
    assert(p.skip(s.len() as int + 1) =~= e);
    assert(name_extension(p) == Some(e));
    if starts_with_drive(p) {
        assert(s[0] == p[0] && s[1] == p[1]);
        assert(s.len() > 2);
        let rest = s.skip(2);
        assert(p.skip(2) =~= rest + seq!['.'] + e);
        assert(!rest.contains('.')) by {
            if rest.contains('.') {
                let i: int = choose|i: int| 0 <= i < rest.len() && rest[i] == '.';
                assert(s[i + 2] == '.');
            }
        }
        assert(!rest.contains('/')) by {
            if rest.contains('/') {
                let i: int = choose|i: int| 0 <= i < rest.len() && rest[i] == '/';
                assert(s[i + 2] == '/');
            }
        }
        assert(!rest.contains('\\')) by {
            if rest.contains('\\') {
                let i: int = choose|i: int| 0 <= i < rest.len() && rest[i] == '\\';
                assert(s[i + 2] == '\\');
            }
        }
        lemma_no_char_in_name(rest, e, '/');
        lemma_no_char_in_name(rest, e, '\\');
        let q = p.skip(2);
        assert(q.len() >= 3);
        assert(q != seq!['.']);
        assert(q != seq!['.', '.']);
        lemma_last_dot_of(rest, e);
        assert(q.skip(rest.len() as int + 1) =~= e);
        assert(name_extension(q) == Some(e));
    }
}

/// Bytes of an optional buffer.
pub open spec fn opt_bytes(o: Option<Vec<u8>>) -> Option<Seq<u8>> {
    match o {
        Some(v) => Some(v@),
        None => None,
    }
}

/// What `oxipng::optimize_from_memory` with default options makes of a PNG file
/// (`None` when it reports an error).
pub uninterp spec fn oxipng_optimization(png: Seq<u8>) -> Option<Seq<u8>>;

/// Wraps `oxipng::optimize_from_memory` with `oxipng::Options::default()`; its
/// result is named, nothing more is claimed.
#[verifier::external_body]
fn oxipng_optimize(png: &[u8]) -> (r: Option<Vec<u8>>)
    ensures
        opt_bytes(r) == oxipng_optimization(png@),
{
    oxipng::optimize_from_memory(png, &oxipng::Options::default()).ok()
}

/// The lossless optimizer refused the input.
#[derive(Debug)]
pub struct PngPassError;

/// Runs the lossless PNG optimizer over an encoded PNG file.
pub fn optimize_png_in_memory(bytes: &[u8]) -> (r: Result<Vec<u8>, PngPassError>)
    ensures
        match r {
            Ok(v) => oxipng_optimization(bytes@) == Some(v@),
            Err(_) => oxipng_optimization(bytes@) is None,
        },
{
    match oxipng_optimize(bytes) {
        Some(v) => Ok(v),
        None => Err(PngPassError),
    }
}

} // verus!
