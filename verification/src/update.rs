//! Self-update decisions: whether a release is newer, which asset fits the
//! platform, and how the binary is taken out of the downloaded archive.

use vstd::prelude::*;
use vstd::string::*;
use crate::pathname::{std_file_name, file_name};
use crate::text::{str_eq, trim_start_char, leading_run, contains_str, is_infix, lemma_leading_run};

verus! {

/// One downloadable file of a release.
pub struct Asset {
    pub name: String,
    pub browser_download_url: String,
    pub size: u64,
}

/// A published release and its files.
pub struct Release {
    pub tag_name: String,
    pub assets: Vec<Asset>,
}

/// How a release asset is packed.
#[derive(Debug, Clone, Copy, PartialEq, Eq, Structural)]
pub enum ArchiveKind {
    Zip,
    TarGz,
}

/// The operating system the binary runs on.
#[derive(Debug, Clone, Copy, PartialEq, Eq, Structural)]
pub enum Platform {
    Windows,
    Linux,
    Other,
}

/// Self-update is only offered on Windows and Linux.
#[derive(Debug)]
pub struct UnsupportedPlatform;

/// The version a release tag names: the tag without its leading `v`s.
pub open spec fn tag_version(tag: Seq<char>) -> Seq<char> {
    tag.skip(leading_run(tag, 'v') as int)
}

/// The version a release tag names.
pub fn latest_version(tag: &str) -> (r: &str)
    ensures
        r@ == tag_version(tag@),
{
    trim_start_char(tag, 'v')
}

/// Whether the release tag names the running version.
pub fn is_current(tag: &str, current: &str) -> (r: bool)
    ensures
        r == (tag_version(tag@) == current@),
{
    str_eq(latest_version(tag), current)
}

/// The asset-name fragment and archive kind of the platform's release build.
pub fn platform_asset(platform: Platform) -> (r: Result<(&'static str, ArchiveKind), UnsupportedPlatform>)
    ensures
        match platform {
            Platform::Windows => r matches Ok((p, k)) && p@ == "windows-x86_64"@ && k == ArchiveKind::Zip,
            Platform::Linux => r matches Ok((p, k)) && p@ == "linux-x86_64"@ && k == ArchiveKind::TarGz,
            Platform::Other => r is Err,
        },
{
    match platform {
        Platform::Windows => Ok(("windows-x86_64", ArchiveKind::Zip)),
        Platform::Linux => Ok(("linux-x86_64", ArchiveKind::TarGz)),
        Platform::Other => Err(UnsupportedPlatform),
    }
}

/// The name the downloaded binary is staged under, next to the running one.
pub fn staged_binary_name(platform: Platform) -> (r: &'static str)
    ensures
        platform == Platform::Windows ==> r@ == "vimg.new.exe"@,
        platform != Platform::Windows ==> r@ == "vimg.new"@,
{
    match platform {
        Platform::Windows => "vimg.new.exe",
        _ => "vimg.new",
    }
}

/// Every leading `v` of a tag is dropped and nothing else: `v1.2.3` and
/// `vv1.2.3` both name `1.2.3`, and a tag that does not start with `v` names
/// itself.
pub proof fn lemma_tag_version_strips_leading_vs(n: nat, rest: Seq<char>)
    requires
        rest.len() == 0 || rest[0] != 'v',
    ensures
        tag_version(Seq::new(n, |i: int| 'v') + rest) == rest,
{
    let s = Seq::new(n, |i: int| 'v') + rest;
    lemma_leading_run(s, 'v', n as int);
    assert(s.skip(n as int) =~= rest);
}

/// The first asset whose name contains `pattern`.
pub fn find_asset(assets: &Vec<Asset>, pattern: &str) -> (r: Option<usize>)
    ensures
        match r {
            Some(i) => {
                &&& i < assets@.len()
                &&& is_infix(pattern@, assets@[i as int].name@)
                &&& forall|j: int| 0 <= j < i ==> !is_infix(pattern@, #[trigger] assets@[j].name@)
            },
            None => forall|j: int|
                0 <= j < assets@.len() ==> !is_infix(pattern@, #[trigger] assets@[j].name@),
        },
{
    let mut i: usize = 0;
    while i < assets.len()
        invariant
            i <= assets@.len(),
            forall|j: int| 0 <= j < i ==> !is_infix(pattern@, #[trigger] assets@[j].name@),
        decreases assets@.len() - i,
    {
        if contains_str(assets[i].name.as_str(), pattern) {
            return Some(i);
        }
        i = i + 1;
    }
    None
}

/// Why the binary could not be taken out of the archive.
#[derive(Debug, Clone, Copy, PartialEq, Eq, Structural)]
pub enum ExtractError {
    /// The archive could not be read.
    Archive,
    /// The archive holds no entry of that name.
    NotFound,
}

/// Bytes of a read result.
pub open spec fn read_view(r: Result<Vec<u8>, ExtractError>) -> Result<Seq<u8>, ExtractError> {
    match r {
        Ok(v) => Ok(v@),
        Err(e) => Err(e),
    }
}

/// The contents of the zip entry `name`, as `zip::ZipArchive::by_name` reads it:
/// `NotFound` when the archive holds no such entry, `Archive` when the archive
/// or the entry's data cannot be read.
pub uninterp spec fn zip_lookup(archive: Seq<u8>, name: Seq<char>) -> Result<Seq<u8>, ExtractError>;

/// Wraps `zip::ZipArchive::new`, `by_name` and reading the entry to its end; the
/// result is named, with `ZipError::FileNotFound` from `by_name` reported as
/// `NotFound` and every other failure as `Archive`.
#[verifier::external_body]
fn zip_entry(archive: &[u8], name: &str) -> (r: Result<Vec<u8>, ExtractError>)
    ensures
        read_view(r) == zip_lookup(archive@, name@),
{
    let Ok(mut zip) = zip::ZipArchive::new(std::io::Cursor::new(archive)) else {
        return Err(ExtractError::Archive);
    };
    let mut entry = match zip.by_name(name) {
        Ok(e) => e,
        Err(zip::result::ZipError::FileNotFound) => return Err(ExtractError::NotFound),
        Err(_) => return Err(ExtractError::Archive),
    };
    let mut out: Vec<u8> = Vec::new();
    match std::io::Read::read_to_end(&mut entry, &mut out) {
        Ok(_) => Ok(out),
        Err(_) => Err(ExtractError::Archive),
    }
}

/// The entries of a gzip-compressed tar archive in order, each as its path and
/// contents, read until the archive ends or an entry cannot be read; the flag
/// tells whether reading stopped on such a failure.
pub uninterp spec fn targz_listing(archive: Seq<u8>) -> (Seq<(Seq<char>, Seq<u8>)>, bool);

/// One entry of a tar archive: its path and contents.
pub struct TarEntry {
    pub path: String,
    pub data: Vec<u8>,
}

/// Entries as text and bytes.
pub open spec fn entries_view(e: Seq<TarEntry>) -> Seq<(Seq<char>, Seq<u8>)> {
    e.map_values(|x: TarEntry| (x.path@, x.data@))
}

/// Wraps `tar::Archive::new` over `flate2::read::GzDecoder` and walks
/// `Archive::entries`, reading each entry's path (lossily as text) and data; the
/// result is named.
#[verifier::external_body]
fn targz_entries(archive: &[u8]) -> (r: (Vec<TarEntry>, bool))
    ensures
        (entries_view(r.0@), r.1) == targz_listing(archive@),
{
    let mut out: Vec<TarEntry> = Vec::new();
    let mut tar = tar::Archive::new(flate2::read::GzDecoder::new(std::io::Cursor::new(archive)));
    let Ok(entries) = tar.entries() else { return (out, true) };
    for entry in entries {
        let Ok(mut e) = entry else { return (out, true) };
        let Ok(path) = e.path().map(|p| p.to_string_lossy().into_owned()) else { return (out, true) };
        let mut data: Vec<u8> = Vec::new();
        let Ok(_) = std::io::Read::read_to_end(&mut e, &mut data) else { return (out, true) };
        out.push(TarEntry { path, data });
    }
    (out, false)
}

/// The file name an entry is matched by: the final component of its path, or
/// empty.
pub open spec fn entry_name(path: Seq<char>) -> Seq<char> {
    match std_file_name(path) {
        Some(n) => n,
        None => Seq::empty(),
    }
}

/// The contents of the zip entry `name`.
pub fn extract_zip(bytes: &[u8], name: &str) -> (r: Result<Vec<u8>, ExtractError>)
    ensures
        read_view(r) == zip_lookup(bytes@, name@),
{
    zip_entry(bytes, name)
}

/// The outcome of looking `name` up in a tar listing: the contents of the first
/// entry whose file name is `name`; otherwise `Archive` when the listing stopped
/// on a read failure, else `NotFound`.
pub open spec fn entry_lookup(entries: Seq<(Seq<char>, Seq<u8>)>, failed: bool, name: Seq<char>, r: Result<
    Seq<u8>,
    ExtractError,
>) -> bool {
    match r {
        Ok(v) => exists|i: int|
            0 <= i < entries.len() && entry_name(entries[i].0) == name && v == entries[i].1
                && forall|j: int| 0 <= j < i ==> entry_name(#[trigger] entries[j].0) != name,
        Err(e) => (forall|j: int| 0 <= j < entries.len() ==> entry_name(#[trigger] entries[j].0) != name)
            && (e == ExtractError::Archive <==> failed),
    }
}

/// Finds the first entry of a tar listing whose file name is `name`.
pub fn find_entry(entries: &Vec<TarEntry>, failed: bool, name: &str) -> (r: Result<
    Vec<u8>,
    ExtractError,
>)
    ensures
        entry_lookup(entries_view(entries@), failed, name@, read_view(r)),
{
    let ghost listing = entries_view(entries@);
    let mut i: usize = 0;
    while i < entries.len()
        invariant
            i <= entries@.len(),
            listing == entries_view(entries@),
            forall|j: int| 0 <= j < i ==> entry_name(#[trigger] listing[j].0) != name@,
        decreases entries@.len() - i,
    {
        let n = match file_name(entries[i].path.as_str()) {
            Some(n) => n,
            None => String::new(),
        };
        if str_eq(n.as_str(), name) {
            let v = vstd::slice::slice_to_vec(entries[i].data.as_slice());
            assert(listing[i as int] == (entries@[i as int].path@, entries@[i as int].data@));
            assert(entry_name(listing[i as int].0) == name@);
            assert(v@ == listing[i as int].1);
            return Ok(v);
        }
        assert(listing[i as int].0 == entries@[i as int].path@);
        i = i + 1;
    }
    if failed {
        Err(ExtractError::Archive)
    } else {
        Err(ExtractError::NotFound)
    }
}

/// The contents of the first entry of a `.tar.gz` archive whose file name is
/// `name`.
pub fn extract_targz(bytes: &[u8], name: &str) -> (r: Result<Vec<u8>, ExtractError>)
    ensures
        entry_lookup(targz_listing(bytes@).0, targz_listing(bytes@).1, name@, read_view(r)),
{
    let (entries, failed) = targz_entries(bytes);
    find_entry(&entries, failed, name)
}

/// Takes the binary out of a downloaded release archive: `vimg.exe` from a zip,
/// `vimg` from a `.tar.gz`.
pub fn extract_binary(bytes: &[u8], kind: ArchiveKind) -> (r: Result<Vec<u8>, ExtractError>)
    ensures
        kind == ArchiveKind::Zip ==> read_view(r) == zip_lookup(bytes@, "vimg.exe"@),
        kind == ArchiveKind::TarGz ==> entry_lookup(
            targz_listing(bytes@).0,
            targz_listing(bytes@).1,
            "vimg"@,
            read_view(r),
        ),
{
    match kind {
        ArchiveKind::Zip => extract_zip(bytes, "vimg.exe"),
        ArchiveKind::TarGz => extract_targz(bytes, "vimg"),
    }
}

} // verus!
