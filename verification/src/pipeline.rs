//! The per-file decisions: which action a file gets, what an optimization pass
//! produces, whether a copy is kept, and where it is written.

use vstd::prelude::*;
use crate::cli::{Cli, Format};
use crate::convert::{
    opt_str, encode_to_bytes, encoding, quality_accepted, EncodeError, NoFileName, resolve_output,
    resolved_output, rgb8_decoding, jpeg_encoding, webp_encoding, rgba8_decoding, avif_encoding,
    rgba_pixels, stage_error_of, lemma_last_index_append,
};
use crate::optimize::{DetectError, detect_format, detected, optimize_png_in_memory, oxipng_optimization};
use crate::pathname::{
    last_index_of, opt_view, std_file_name, std_parent, std_join, std_path_eq, path_stem, path_extension,
    name_stem, name_extension, lemma_last_index_bounds, split_dot, file_name, parent, join,
    same_path, file_stem, extension, split_name,
};
use crate::text::{decimal, decimal_string, lemma_decimal_digits, lemma_decimal_injective};
use vstd::string::*;

verus! {

/// The settings every file of a run shares.
pub struct Config {
    pub format: Option<Format>,
    pub output: Option<String>,
    pub quality: Option<u8>,
}

/// The requested quality is outside 1..=100.
#[derive(Debug)]
pub struct QualityOutOfRange;

/// A quality setting is acceptable when absent or within 1..=100.
pub open spec fn quality_valid(quality: Option<u8>) -> bool {
    match quality {
        Some(q) => 1 <= q <= 100,
        None => true,
    }
}

impl Config {
    /// Takes the run's settings from the command line; a quality outside 1..=100
    /// is refused. (Creating the output directory is left to the caller.)
    pub fn from_cli(cli: &Cli) -> (r: Result<Config, QualityOutOfRange>)
        ensures
            r is Ok <==> quality_valid(cli.quality),
            r matches Ok(c) ==> {
                &&& c.format == cli.format
                &&& c.quality == cli.quality
                &&& opt_view(c.output) == opt_view(cli.output)
            },
    {
        if let Some(q) = cli.quality {
            if !(1 <= q && q <= 100) {
                return Err(QualityOutOfRange);
            }
        }
        let output = match &cli.output {
            Some(s) => Some(s.clone()),
            None => None,
        };
        Ok(Config { format: cli.format, output, quality: cli.quality })
    }
}

/// A valid quality is accepted by every encoder.
pub proof fn lemma_valid_quality_accepted(format: Format, quality: Option<u8>)
    requires
        quality_valid(quality),
    ensures
        quality_accepted(format, quality),
{
}

/// What happens to one input file.
#[derive(Debug, Clone, Copy, PartialEq, Eq, Structural)]
pub enum Action {
    /// Optimize the file in its own format.
    Optimize,
    /// A conversion to the file's own format was asked for: optimize instead.
    OptimizeInsteadOf(Format),
    /// Convert the file to the given format.
    Convert(Format),
}

/// Without a target format every file is optimized; with one, a file already in
/// that format (by its extension) is optimized instead, any other is converted.
pub open spec fn action_for(input: Seq<char>, target: Option<Format>) -> Action {
    match target {
        None => Action::Optimize,
        Some(t) => if detected(input) == Some(t) {
            Action::OptimizeInsteadOf(t)
        } else {
            Action::Convert(t)
        },
    }
}

/// Decides what happens to `input` given the run's target format.
pub fn choose_action(input: &str, target: Option<Format>) -> (r: Action)
    ensures
        r == action_for(input@, target),
        match target {
            Some(t) => if detected(input@) == Some(t) {
                r == Action::OptimizeInsteadOf(t)
            } else {
                r == Action::Convert(t)
            },
            None => r == Action::Optimize,
        },
{
    match target {
        None => Action::Optimize,
        Some(t) => {
            let same = match detect_format(input) {
                Ok(f) => f == t,
                Err(_) => false,
            };
            if same {
                Action::OptimizeInsteadOf(t)
            } else {
                Action::Convert(t)
            }
        },
    }
}

/// What an optimization pass makes of a file's bytes: PNG goes through the
/// lossless optimizer; every other format is decoded and re-encoded.
pub open spec fn optimization(
    bytes: Seq<u8>,
    format: Format,
    quality: Option<u8>,
    threads: usize,
) -> Result<
    Seq<u8>,
    EncodeError,
> {
    match format {
        Format::Png => match oxipng_optimization(bytes) {
            Some(o) => Ok(o),
            None => Err(EncodeError::PngPass),
        },
        _ => encoding(bytes, format, quality, threads),
    }
}

/// Runs the optimization pass for a file of the given format.
pub fn optimize_bytes(bytes: &[u8], format: Format, quality: Option<u8>, threads: usize) -> (r: Result<
    Vec<u8>,
    EncodeError,
>)
    requires
        quality_accepted(format, quality),
        threads > 0,
    ensures
        match r {
            Ok(v) => optimization(bytes@, format, quality, threads) == Ok::<Seq<u8>, EncodeError>(v@),
            Err(e) => optimization(bytes@, format, quality, threads) == Err::<Seq<u8>, EncodeError>(e),
        },
{
    match format {
        Format::Png => match optimize_png_in_memory(bytes) {
            Ok(v) => Ok(v),
            Err(_) => Err(EncodeError::PngPass),
        },
        _ => encode_to_bytes(bytes, format, quality, threads),
    }
}

/// An optimized copy is written only when it is smaller than the input file.
pub fn keeps_copy(input_len: usize, optimized_len: usize) -> (r: bool)
    ensures
        r == (optimized_len < input_len),
{
    optimized_len < input_len
}

/// The file name of an optimized copy: `<stem>.optimized.<ext>`, or
/// `<stem>.optimized` without an extension; `output` stands in for a missing stem.
pub open spec fn optimized_name(path: Seq<char>) -> Seq<char> {
    let stem = match path_stem(path) {
        Some(s) => s,
        None => seq!['o', 'u', 't', 'p', 'u', 't'],
    };
    let base = stem + seq!['.', 'o', 'p', 't', 'i', 'm', 'i', 'z', 'e', 'd'];
    match path_extension(path) {
        Some(e) => if e.len() > 0 {
            base + seq!['.'] + e
        } else {
            base
        },
        None => base,
    }
}

/// The parent directory of a path, or the empty path.
pub open spec fn parent_or_empty(path: Seq<char>) -> Seq<char> {
    match std_parent(path) {
        Some(p) => p,
        None => Seq::empty(),
    }
}

/// The optimized copy that sits next to the input.
pub open spec fn optimized_sibling(path: Seq<char>) -> Seq<char> {
    std_join(parent_or_empty(path), optimized_name(path))
}

/// The path of the optimized copy next to `input`: same directory,
/// `<stem>.optimized.<ext>`.
pub fn with_optimized_suffix(input: &str) -> (r: String)
    ensures
        r@ == optimized_sibling(input@),
{
    proof {
        reveal_strlit("output");
        reveal_strlit(".optimized");
        reveal_strlit(".");
        assert("output"@ =~= seq!['o', 'u', 't', 'p', 'u', 't']);
        assert(".optimized"@ =~= seq!['.', 'o', 'p', 't', 'i', 'm', 'i', 'z', 'e', 'd']);
        assert("."@ =~= seq!['.']);
    }
    let dir = match parent(input) {
        Some(p) => p,
        None => String::new(),
    };
    let mut name = match file_stem(input) {
        Some(s) => s,
        None => String::from_str("output"),
    };
    name.append(".optimized");
    match extension(input) {
        Some(e) => {
            if e.unicode_len() > 0 {
                name.append(".");
                name.append(e.as_str());
            }
        },
        None => {},
    }
    join(dir.as_str(), name.as_str())
}

/// The absolute form of a path when one could be had, else the path itself.
pub open spec fn abs_or(abs: Option<String>, path: Seq<char>) -> Seq<char> {
    match abs {
        Some(a) => a@,
        None => path,
    }
}

/// Picks the optimized copy's path when an output directory is given: the
/// candidate inside that directory, unless it is the input itself (compared by
/// absolute paths), in which case the copy goes next to the input.
pub fn choose_optimize_output(
    input: &str,
    candidate: String,
    candidate_abs: Option<String>,
    input_abs: Option<String>,
) -> (r: String)
    ensures
        r@ == if std_path_eq(abs_or(candidate_abs, candidate@), abs_or(input_abs, input@)) {
            optimized_sibling(input@)
        } else {
            candidate@
        },
        match (candidate_abs, input_abs) {
            (Some(c), Some(i)) => r@ == if std_path_eq(c@, i@) {
                optimized_sibling(input@)
            } else {
                candidate@
            },
            _ => true,
        },
{
    let same = match (&candidate_abs, &input_abs) {
        (Some(c), Some(i)) => same_path(c.as_str(), i.as_str()),
        (Some(c), None) => same_path(c.as_str(), input),
        (None, Some(i)) => same_path(candidate.as_str(), i.as_str()),
        (None, None) => same_path(candidate.as_str(), input),
    };
    if same {
        with_optimized_suffix(input)
    } else {
        candidate
    }
}

/// The path the optimized copy would take inside the output directory: the
/// input's file name joined to it.
pub open spec fn dir_candidate(input: Seq<char>, dir: Option<Seq<char>>) -> Option<Seq<char>> {
    match dir {
        Some(d) => match std_file_name(input) {
            Some(n) => Some(std_join(d, n)),
            None => None,
        },
        None => None,
    }
}

/// The path inside `output_dir` that the optimized copy of `input` would take,
/// when a directory is given and the input has a file name. Its absolute form
/// (and the input's) decide whether it is used.
pub fn optimize_candidate(input: &str, output_dir: Option<&str>) -> (r: Option<String>)
    ensures
        opt_view(r) == dir_candidate(input@, opt_str(output_dir)),
{
    match output_dir {
        Some(dir) => match file_name(input) {
            Some(n) => Some(join(dir, n.as_str())),
            None => None,
        },
        None => None,
    }
}

/// Where the optimized copy goes, given the absolute forms of the directory
/// candidate and of the input (each `None` when it could not be had): without an
/// output directory, next to the input; with one, the candidate inside it unless
/// that is the input itself, in which case next to the input.
pub open spec fn optimize_target(
    input: Seq<char>,
    dir: Option<Seq<char>>,
    candidate_abs: Option<String>,
    input_abs: Option<String>,
) -> Seq<char> {
    match dir_candidate(input, dir) {
        Some(c) => if std_path_eq(abs_or(candidate_abs, c), abs_or(input_abs, input)) {
            optimized_sibling(input)
        } else {
            c
        },
        None => optimized_sibling(input),
    }
}

/// Where the optimized copy of `input` is written: inside `output_dir` under the
/// input's file name when that is not the input itself, else next to the input
/// as `<stem>.optimized.<ext>`. `candidate_abs` and `input_abs` are the absolute
/// forms of `optimize_candidate(input, output_dir)` and of `input` (they depend
/// on the working directory). An input without a file name is refused.
pub fn resolve_optimize_output(
    input: &str,
    output_dir: Option<&str>,
    candidate_abs: Option<String>,
    input_abs: Option<String>,
) -> (r: Result<String, NoFileName>)
    ensures
        r is Err <==> std_file_name(input@) is None,
        r matches Ok(p) ==> p@ == optimize_target(
            input@,
            opt_str(output_dir),
            candidate_abs,
            input_abs,
        ),
        match (r, candidate_abs, input_abs) {
            (Ok(p), Some(c), Some(i)) => std_path_eq(c@, i@) ==> p@ == optimized_sibling(input@),
            _ => true,
        },
{
    if file_name(input).is_none() {
        return Err(NoFileName);
    }
    match optimize_candidate(input, output_dir) {
        Some(candidate) => Ok(choose_optimize_output(input, candidate, candidate_abs, input_abs)),
        None => Ok(with_optimized_suffix(input)),
    }
}

/// The text after the stem of a file name: a dot and the extension, or nothing.
pub open spec fn name_tail(name: Seq<char>) -> Seq<char> {
    match name_extension(name) {
        Some(e) => seq!['.'] + e,
        None => Seq::empty(),
    }
}

/// The `k`-th alternative of a file name: the name itself for 0, else the
/// number inserted between stem and extension (`a.optimized.png` becomes
/// `a.optimized1.png`).
pub open spec fn numbered_name(name: Seq<char>, k: nat) -> Seq<char> {
    if k == 0 {
        name
    } else {
        name_stem(name) + decimal(k) + name_tail(name)
    }
}

/// The `k`-th alternative of an output path, tried when the ones before it exist
/// already: the file name numbered in the same directory.
pub open spec fn numbered_path(path: Seq<char>, k: nat) -> Seq<char> {
    if k == 0 {
        path
    } else {
        match std_file_name(path) {
            Some(n) => std_join(parent_or_empty(path), numbered_name(n, k)),
            None => path + decimal(k),
        }
    }
}

/// Returns the `k`-th alternative of an output path (the path itself for 0), so
/// that an existing file is never overwritten.
pub fn numbered(path: &str, k: u64) -> (r: String)
    ensures
        r@ == numbered_path(path@, k as nat),
{
    if k == 0 {
        return String::from_str(path);
    }
    proof {
        reveal_strlit(".");
        assert("."@ =~= seq!['.']);
    }
    let digits = decimal_string(k);
    match file_name(path) {
        Some(n) => {
            let (stem, ext) = split_name(n.as_str());
            let mut name = stem;
            name.append(digits.as_str());
            match ext {
                Some(e) => {
                    name.append(".");
                    name.append(e.as_str());
                },
                None => {},
            }
            assert(name@ =~= numbered_name(n@, k as nat));
            let dir = match parent(path) {
                Some(p) => p,
                None => String::new(),
            };
            join(dir.as_str(), name.as_str())
        },
        None => {
            let mut p = String::from_str(path);
            p.append(digits.as_str());
            p
        },
    }
}

/// A file name is its stem followed by its tail.
pub proof fn lemma_name_splits(name: Seq<char>)
    ensures
        name == name_stem(name) + name_tail(name),
{
    lemma_last_index_bounds(name, '.');
    let i: int = split_dot(name);
    if i > 0 {
        assert(name[i] == '.');
        assert(name =~= name.take(i) + (seq!['.'] + name.skip(i + 1)));
    } else {
        assert(name =~= name + Seq::<char>::empty());
    }
}

/// Different alternatives of one file name are different names, and none but
/// the 0-th is the name itself: trying them in turn never lands twice on a name.
pub proof fn lemma_numbered_names_distinct(name: Seq<char>, k1: nat, k2: nat)
    requires
        k1 != k2,
    ensures
        numbered_name(name, k1) != numbered_name(name, k2),
{
    lemma_name_splits(name);
    let stem = name_stem(name);
    let tail = name_tail(name);
    if k1 == 0 || k2 == 0 {
        let k: nat = if k1 == 0 { k2 } else { k1 };
        lemma_decimal_digits(k);
        assert(numbered_name(name, k).len() == name.len() + decimal(k).len());
    } else {
        lemma_decimal_digits(k1);
        lemma_decimal_digits(k2);
        if numbered_name(name, k1) == numbered_name(name, k2) {
            let a = numbered_name(name, k1);
            let b = numbered_name(name, k2);
            assert(a.len() == stem.len() + decimal(k1).len() + tail.len());
            assert(b.len() == stem.len() + decimal(k2).len() + tail.len());
            assert(decimal(k1).len() == decimal(k2).len());
            assert(a.subrange(stem.len() as int, (stem.len() + decimal(k1).len()) as int) =~= decimal(k1));
            assert(b.subrange(stem.len() as int, (stem.len() + decimal(k2).len()) as int) =~= decimal(k2));
            lemma_decimal_injective(k1, k2);
        }
    }
}

/// The directory to create before writing `out`: its parent, unless that is
/// missing or empty.
pub fn parent_to_create(out: &str) -> (r: Option<String>)
    ensures
        opt_view(r) == match std_parent(out@) {
            Some(p) => if p.len() > 0 {
                Some(p)
            } else {
                None::<Seq<char>>
            },
            None => None,
        },
{
    match parent(out) {
        Some(p) => {
            if p.unicode_len() > 0 {
                Some(p)
            } else {
                None
            }
        },
        None => None,
    }
}

/// Why one file could not be processed.
#[derive(Debug)]
pub enum ProcessError {
    /// The input's format could not be told from its name.
    Detect(DetectError),
    /// Encoding or optimizing failed.
    Encode(EncodeError),
    /// The input has no file name.
    NoFileName,
}

/// What to do with one file's result.
pub enum Outcome {
    /// The optimized bytes are not smaller: no copy is written.
    Unchanged { input_len: usize, optimized_len: usize },
    /// Write `data` to `out` (or, when that exists, to its next free alternative).
    Write { out: String, data: Vec<u8> },
}

/// Text of the run's output directory, if any.
pub open spec fn cfg_output(cfg: &Config) -> Option<Seq<char>> {
    opt_view(cfg.output)
}

fn output_dir(cfg: &Config) -> (r: Option<&str>)
    ensures
        match r {
            Some(s) => cfg_output(cfg) == Some(s@),
            None => cfg_output(cfg) is None,
        },
{
    match &cfg.output {
        Some(s) => Some(s.as_str()),
        None => None,
    }
}

/// Optimizes a file of a known format: the optimization pass over its bytes,
/// then, when the result is smaller, its copy's path (`candidate_abs` and
/// `input_abs` as for `resolve_optimize_output`).
pub fn plan_optimize(
    path: &str,
    format: Format,
    bytes: &[u8],
    cfg: &Config,
    candidate_abs: Option<String>,
    input_abs: Option<String>,
    threads: usize,
) -> (r: Result<Outcome, ProcessError>)
    requires
        quality_valid(cfg.quality),
        threads > 0,
    ensures
        match r {
            Ok(Outcome::Unchanged { input_len, optimized_len }) => {
                &&& input_len == bytes@.len()
                &&& optimization(bytes@, format, cfg.quality, threads) matches Ok(o)
                &&& optimized_len == o.len()
                &&& o.len() >= bytes@.len()
            },
            Ok(Outcome::Write { out, data }) => {
                &&& optimization(bytes@, format, cfg.quality, threads) == Ok::<Seq<u8>, EncodeError>(data@)
                &&& data@.len() < bytes@.len()
                &&& std_file_name(path@) is Some
                &&& out@ == optimize_target(path@, cfg_output(cfg), candidate_abs, input_abs)
            },
            Err(ProcessError::Encode(e)) => optimization(bytes@, format, cfg.quality, threads) == Err::<
                Seq<u8>,
                EncodeError,
            >(e),
            Err(ProcessError::NoFileName) => {
                &&& optimization(bytes@, format, cfg.quality, threads) matches Ok(o)
                &&& o.len() < bytes@.len()
                &&& std_file_name(path@) is None
            },
            Err(ProcessError::Detect(_)) => false,
        },
{
    let optimized = match optimize_bytes(bytes, format, cfg.quality, threads) {
        Ok(v) => v,
        Err(e) => return Err(ProcessError::Encode(e)),
    };
    if !keeps_copy(bytes.len(), optimized.len()) {
        return Ok(Outcome::Unchanged { input_len: bytes.len(), optimized_len: optimized.len() });
    }
    match resolve_optimize_output(path, output_dir(cfg), candidate_abs, input_abs) {
        Ok(out) => Ok(Outcome::Write { out, data: optimized }),
        Err(_) => Err(ProcessError::NoFileName),
    }
}

/// Converts a file to `target`: its bytes encoded in the target format, written
/// under the output path that `resolve_output` gives.
pub fn plan_convert(
    input: &str,
    target: Format,
    bytes: &[u8],
    cfg: &Config,
    threads: usize,
) -> (r: Result<Outcome, ProcessError>)
    requires
        quality_valid(cfg.quality),
        threads > 0,
    ensures
        match r {
            Ok(Outcome::Write { out, data }) => {
                &&& encoding(bytes@, target, cfg.quality, threads) == Ok::<Seq<u8>, EncodeError>(data@)
                &&& resolved_output(input@, Some(target), cfg_output(cfg)) == Some(out@)
            },
            Ok(Outcome::Unchanged { .. }) => false,
            Err(ProcessError::Encode(e)) => encoding(bytes@, target, cfg.quality, threads) == Err::<
                Seq<u8>,
                EncodeError,
            >(e),
            Err(ProcessError::NoFileName) => {
                &&& encoding(bytes@, target, cfg.quality, threads) is Ok
                &&& resolved_output(input@, Some(target), cfg_output(cfg)) is None
            },
            Err(ProcessError::Detect(_)) => false,
        },
{
    let encoded = match encode_to_bytes(bytes, target, cfg.quality, threads) {
        Ok(v) => v,
        Err(e) => return Err(ProcessError::Encode(e)),
    };
    match resolve_output(input, Some(target), output_dir(cfg)) {
        Ok(out) => Ok(Outcome::Write { out, data: encoded }),
        Err(_) => Err(ProcessError::NoFileName),
    }
}

/// The `k`-th candidate for the folder that `--to-folder` writes into:
/// `<folder>_optimized`, then `<folder>_optimized1`, `<folder>_optimized2`, ...
pub open spec fn folder_candidate(folder: Seq<char>, k: nat) -> Seq<char> {
    if k == 0 {
        folder + "_optimized"@
    } else {
        folder + "_optimized"@ + decimal(k)
    }
}

/// Returns the `k`-th candidate output folder for the inputs of `folder`.
pub fn to_folder_candidate(folder: &str, k: u64) -> (r: String)
    ensures
        r@ == folder_candidate(folder@, k as nat),
{
    let mut s = String::from_str(folder);
    s.append("_optimized");
    if k > 0 {
        let digits = decimal_string(k);
        s.append(digits.as_str());
    }
    s
}

/// Different candidates for one folder are different folders.
pub proof fn lemma_folder_candidates_distinct(folder: Seq<char>, k1: nat, k2: nat)
    requires
        k1 != k2,
    ensures
        folder_candidate(folder, k1) != folder_candidate(folder, k2),
{
    let base = folder + "_optimized"@;
    if k1 == 0 || k2 == 0 {
        let k: nat = if k1 == 0 { k2 } else { k1 };
        lemma_decimal_digits(k);
        assert(folder_candidate(folder, k).len() == base.len() + decimal(k).len());
    } else {
        lemma_decimal_digits(k1);
        lemma_decimal_digits(k2);
        if folder_candidate(folder, k1) == folder_candidate(folder, k2) {
            let a = folder_candidate(folder, k1);
            assert(a.len() == base.len() + decimal(k1).len());
            assert(a.len() == base.len() + decimal(k2).len());
            assert(a.skip(base.len() as int) =~= decimal(k1));
            assert(folder_candidate(folder, k2).skip(base.len() as int) =~= decimal(k2));
            lemma_decimal_injective(k1, k2);
        }
    }
}

/// The optimized copy never takes the input's own file name, so writing it next
/// to the input leaves the input file untouched.
pub proof fn lemma_optimized_name_differs(path: Seq<char>)
    requires
        std_file_name(path) is Some,
    ensures
        optimized_name(path) != std_file_name(path).unwrap(),
{
    let n = std_file_name(path).unwrap();
    lemma_name_splits(n);
    let stem = name_stem(n);
    let base = stem + seq!['.', 'o', 'p', 't', 'i', 'm', 'i', 'z', 'e', 'd'];
    assert(path_stem(path) == Some(stem));
    assert(path_extension(path) == name_extension(n));
    match name_extension(n) {
        Some(e) => {
            assert(n.len() == stem.len() + 1 + e.len());
            if e.len() > 0 {
                assert(optimized_name(path).len() == stem.len() + 11 + e.len());
            } else {
                assert(optimized_name(path).len() == stem.len() + 10);
            }
        },
        None => {
            assert(n.len() == stem.len());
            assert(optimized_name(path).len() == stem.len() + 10);
        },
    }
}

/// Every file, whatever the target, is optimized when no target is given; with a
/// target, a file whose extension already names that format is optimized in its
/// own format instead of being converted onto itself, and every other file is
/// converted.
pub proof fn lemma_action_follows_detected_format(input: Seq<char>, target: Format)
    ensures
        action_for(input, None) == Action::Optimize,
        detected(input) == Some(target) ==> action_for(input, Some(target)) == Action::OptimizeInsteadOf(
            target,
        ),
        detected(input) != Some(target) ==> action_for(input, Some(target)) == Action::Convert(target),
        action_for(input, Some(target)) != Action::Convert(target) <==> detected(input) == Some(target),
{
}

/// Optimizing a JPEG, WebP or AVIF file is re-encoding it in its own format at
/// the requested quality: the same result as converting it to that format.
pub proof fn lemma_optimization_is_reencoding(bytes: Seq<u8>, format: Format, quality: Option<u8>, threads: usize)
    requires
        format != Format::Png,
    ensures
        optimization(bytes, format, quality, threads) == encoding(bytes, format, quality, threads),
{
}

/// An optimization pass hands the requested quality to the lossy encoders.
pub proof fn lemma_optimization_at_requested_quality(bytes: Seq<u8>, q: u8, threads: usize)
    ensures
        optimization(bytes, Format::Jpg, Some(q), threads) == match rgb8_decoding(bytes) {
            Some((w, h, rgb)) => match jpeg_encoding(rgb, w, h, q) {
                Some(o) => Ok::<Seq<u8>, EncodeError>(o),
                None => Err(EncodeError::Encode),
            },
            None => Err(EncodeError::Decode),
        },
        optimization(bytes, Format::Webp, Some(q), threads) == match webp_encoding(bytes, q) {
            Ok(o) => Ok::<Seq<u8>, EncodeError>(o),
            Err(stage) => Err(stage_error_of(stage)),
        },
        optimization(bytes, Format::Avif, Some(q), threads) == match rgba8_decoding(bytes) {
            Some((width, height, rgba)) => if width == 0 || height == 0 {
                Err::<Seq<u8>, EncodeError>(EncodeError::Encode)
            } else {
                match avif_encoding(rgba_pixels(rgba), width as usize, height as usize, q, 6, threads) {
                    Some(o) => Ok::<Seq<u8>, EncodeError>(o),
                    None => Err(EncodeError::Encode),
                }
            },
            None => Err(EncodeError::Decode),
        },
{
}

/// Optimizing a PNG is the lossless optimizer on the file's own bytes, whatever
/// quality was asked for.
pub proof fn lemma_png_optimization_is_lossless_pass(bytes: Seq<u8>, quality: Option<u8>, threads: usize)
    ensures
        optimization(bytes, Format::Png, quality, threads) == match oxipng_optimization(bytes) {
            Some(o) => Ok::<Seq<u8>, EncodeError>(o),
            None => Err(EncodeError::PngPass),
        },
{
}

/// With an output directory, when the absolute forms of the candidate inside it
/// and of the input denote the same path, the copy goes next to the input as
/// `<stem>.optimized.<ext>`; when they denote different paths, the candidate is
/// used.
pub proof fn lemma_optimize_target_never_overwrites_input(
    input: Seq<char>,
    dir: Seq<char>,
    candidate_abs: String,
    input_abs: String,
)
    requires
        dir_candidate(input, Some(dir)) is Some,
    ensures
        std_path_eq(candidate_abs@, input_abs@) ==> optimize_target(
            input,
            Some(dir),
            Some(candidate_abs),
            Some(input_abs),
        ) == optimized_sibling(input),
        !std_path_eq(candidate_abs@, input_abs@) ==> optimize_target(
            input,
            Some(dir),
            Some(candidate_abs),
            Some(input_abs),
        ) == dir_candidate(input, Some(dir)).unwrap(),
{
}

/// The optimized copy of a file named `<stem>.<ext>` is named
/// `<stem>.optimized.<ext>`, and that of a file named without a dot
/// `<name>.optimized`.
pub proof fn lemma_optimized_name_shape(path: Seq<char>, stem: Seq<char>, ext: Seq<char>)
    ensures
        std_file_name(path) == Some(stem + seq!['.'] + ext) && stem.len() > 0 && ext.len() > 0
            && !ext.contains('.') ==> optimized_name(path) == stem + seq![
            '.',
            'o',
            'p',
            't',
            'i',
            'm',
            'i',
            'z',
            'e',
            'd',
            '.',
        ] + ext,
        std_file_name(path) == Some(stem) && !stem.contains('.') ==> optimized_name(path) == stem
            + seq!['.', 'o', 'p', 't', 'i', 'm', 'i', 'z', 'e', 'd'],
{
    let suffix = seq!['.', 'o', 'p', 't', 'i', 'm', 'i', 'z', 'e', 'd'];
    if std_file_name(path) == Some(stem + seq!['.'] + ext) && stem.len() > 0 && ext.len() > 0
        && !ext.contains('.') {
        let with_dot = stem + seq!['.'];
        assert(last_index_of(with_dot, '.') == stem.len()) by {
            assert(with_dot.last() == '.');
        }
        lemma_last_index_append(with_dot, ext, '.');
        assert(with_dot + ext == stem + seq!['.'] + ext);
        assert((with_dot + ext).take(stem.len() as int) =~= stem);
        assert((with_dot + ext).skip(stem.len() as int + 1) =~= ext);
        assert(stem + suffix + seq!['.'] + ext =~= stem + seq![
            '.',
            'o',
            'p',
            't',
            'i',
            'm',
            'i',
            'z',
            'e',
            'd',
            '.',
        ] + ext);
    }
    if std_file_name(path) == Some(stem) && !stem.contains('.') {
        lemma_last_index_append(Seq::empty(), stem, '.');
        assert(Seq::<char>::empty() + stem =~= stem);
    }
}

} // verus!
