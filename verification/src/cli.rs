//! The formats the tool writes, how an extension names one, and the command line
//! as plain values.

use vstd::prelude::*;
use crate::text::{str_eq, lowered, lower_char};

verus! {

/// A target image format.
#[derive(Clone, Copy, Debug, PartialEq, Eq, Structural)]
pub enum Format {
    Png,
    Jpg,
    Webp,
    Avif,
}

/// The canonical file extension of each format.
pub open spec fn format_extension(f: Format) -> Seq<char> {
    match f {
        Format::Png => seq!['p', 'n', 'g'],
        Format::Jpg => seq!['j', 'p', 'g'],
        Format::Webp => seq!['w', 'e', 'b', 'p'],
        Format::Avif => seq!['a', 'v', 'i', 'f'],
    }
}

impl Format {
    /// The file extension written for this format (lower case, without a dot).
    pub fn extension(self) -> (ext: &'static str)
        ensures
            ext@ == format_extension(self),
    {
        proof {
            reveal_strlit("png");
            reveal_strlit("jpg");
            reveal_strlit("webp");
            reveal_strlit("avif");
        }
        match self {
            Format::Png => "png",
            Format::Jpg => "jpg",
            Format::Webp => "webp",
            Format::Avif => "avif",
        }
    }
}


/// The format a lower-case extension names: `png`, `jpg` or `jpeg`, `webp`, `avif`.
pub open spec fn format_for_extension(ext: Seq<char>) -> Option<Format> {
    if ext == seq!['p', 'n', 'g'] {
        Some(Format::Png)
    } else if ext == seq!['j', 'p', 'g'] || ext == seq!['j', 'p', 'e', 'g'] {
        Some(Format::Jpg)
    } else if ext == seq!['w', 'e', 'b', 'p'] {
        Some(Format::Webp)
    } else if ext == seq!['a', 'v', 'i', 'f'] {
        Some(Format::Avif)
    } else {
        None
    }
}

/// The format a lower-case extension names, if any.
pub fn format_for_lowercase_extension(ext: &str) -> (r: Option<Format>)
    ensures
        r == format_for_extension(ext@),
{
    proof {
        reveal_strlit("png");
        reveal_strlit("jpg");
        reveal_strlit("jpeg");
        reveal_strlit("webp");
        reveal_strlit("avif");
        assert("png"@ =~= seq!['p', 'n', 'g']);
        assert("jpg"@ =~= seq!['j', 'p', 'g']);
        assert("jpeg"@ =~= seq!['j', 'p', 'e', 'g']);
        assert("webp"@ =~= seq!['w', 'e', 'b', 'p']);
        assert("avif"@ =~= seq!['a', 'v', 'i', 'f']);
    }
    if str_eq(ext, "png") {
        Some(Format::Png)
    } else if str_eq(ext, "jpg") || str_eq(ext, "jpeg") {
        Some(Format::Jpg)
    } else if str_eq(ext, "webp") {
        Some(Format::Webp)
    } else if str_eq(ext, "avif") {
        Some(Format::Avif)
    } else {
        None
    }
}

/// Every format's own extension names that format again, whatever its case.
pub proof fn lemma_extension_round_trip(f: Format)
    ensures
        format_for_extension(format_extension(f)) == Some(f),
        lowered(format_extension(f)) == format_extension(f),
        !format_extension(f).contains('.'),
        !format_extension(f).contains('/'),
        !format_extension(f).contains('\\'),
        format_extension(f).len() > 0,
{
    let e = format_extension(f);
    assert(lowered(e) =~= e);
    assert(!e.contains('.')) by {
        if e.contains('.') {
            let i: int = choose|i: int| 0 <= i < e.len() && e[i] == '.';
        }
    }
    assert(!e.contains('/')) by {
        if e.contains('/') {
            let i: int = choose|i: int| 0 <= i < e.len() && e[i] == '/';
        }
    }
    assert(!e.contains('\\')) by {
        if e.contains('\\') {
            let i: int = choose|i: int| 0 <= i < e.len() && e[i] == '\\';
        }
    }
}

/// The command line, as plain values. Paths are held as text.
pub struct Cli {
    /// Input files to process.
    pub files: Vec<String>,
    /// Target format. If omitted, each input is optimized.
    pub format: Option<Format>,
    /// Output directory. Defaults to alongside each input file.
    pub output: Option<String>,
    /// Quality (1-100). Format-specific defaults apply when omitted.
    pub quality: Option<u8>,
    /// Install the Windows Explorer context menu entries.
    pub enable_context_menu: bool,
    /// Remove the Windows Explorer context menu entries.
    pub disable_context_menu: bool,
    /// Replace this binary with the latest release.
    pub update: bool,
    /// Write each folder's outputs into a new sibling folder `<folder>_optimized`.
    pub to_folder: bool,
}

} // verus!
