use crate::state::str_equal;
use std::io::Read;
use vstd::prelude::*;

verus! {

/// Path, inside a layer archive, of the release metadata file.
pub const METADATA_PATH: &'static str = "release-manifests/release-metadata";

/// The entry paths of a gzip-compressed tar archive, in archive order: `None`
/// for an entry whose header cannot be read or whose path is not UTF-8. The
/// list ends at the end of the archive or at the first entry that cannot be
/// read at all.
pub uninterp spec fn archive_paths_of(blob: Seq<u8>) -> Seq<Option<Seq<char>>>;

/// The contents of the entry at `index` of a gzip-compressed tar archive, if it
/// can be read.
pub uninterp spec fn archive_entry_of(blob: Seq<u8>, index: nat) -> Option<Seq<u8>>;

/// The characters of an optional string.
pub open spec fn opt_view(p: Option<String>) -> Option<Seq<char>> {
    match p {
        Some(s) => Some(s@),
        None => None,
    }
}

/// Relies on `flate2::read::GzDecoder` and `tar::Archive::entries` with
/// `tar::Entry::path`: lists the entry paths while decompressing the stream.
#[verifier::external_body]
fn archive_paths(blob: &[u8]) -> (r: Vec<Option<String>>)
    ensures
        r@.map_values(|p: Option<String>| opt_view(p)) == archive_paths_of(blob@),
{
    let mut archive = tar::Archive::new(flate2::read::GzDecoder::new(blob));
    match archive.entries() {
        Ok(entries) => entries
            .map(|e| e.ok().and_then(|e| e.path().ok().and_then(|p| p.to_str().map(|s| s.to_string()))))
            .collect(),
        Err(_) => Vec::new(),
    }
}

/// Relies on `flate2::read::GzDecoder` and `tar::Archive::entries`: reads the
/// whole contents of the entry at `index`.
#[verifier::external_body]
fn archive_entry(blob: &[u8], index: usize) -> (r: Option<Vec<u8>>)
    ensures
        r matches Some(c) ==> archive_entry_of(blob@, index as nat) == Some(c@),
        r is None ==> archive_entry_of(blob@, index as nat) is None,
{
    let mut archive = tar::Archive::new(flate2::read::GzDecoder::new(blob));
    let mut entry = archive.entries().ok()?.nth(index)?.ok()?;
    let mut out = Vec::new();
    match entry.read_to_end(&mut out) {
        Ok(_) => Some(out),
        Err(_) => None,
    }
}

/// Whether an entry path is the metadata file's.
pub open spec fn is_metadata_path(p: Option<Seq<char>>) -> bool {
    p == Some(METADATA_PATH@)
}

/// The position of the first metadata entry at or after `start`.
pub open spec fn first_metadata_from(paths: Seq<Option<Seq<char>>>, start: int) -> Option<int>
    decreases paths.len() - start,
{
    if start < 0 || start >= paths.len() {
        None
    } else if is_metadata_path(paths[start]) {
        Some(start)
    } else {
        first_metadata_from(paths, start + 1)
    }
}

/// The position of the first entry whose path is `METADATA_PATH`.
pub open spec fn first_metadata(paths: Seq<Option<Seq<char>>>) -> Option<int> {
    first_metadata_from(paths, 0)
}

/// Finds the first entry whose path is exactly `METADATA_PATH`; entries whose
/// path could not be read are passed over.
pub fn find_metadata_entry(paths: &Vec<Option<String>>) -> (r: Option<usize>)
    ensures
        r matches Some(i) ==> first_metadata(paths@.map_values(|p: Option<String>| opt_view(p)))
            == Some(i as int),
        r is None ==> first_metadata(paths@.map_values(|p: Option<String>| opt_view(p))) is None,
{
    let ghost ps = paths@.map_values(|p: Option<String>| opt_view(p));
    let mut i: usize = 0;
    while i < paths.len()
        invariant
            ps == paths@.map_values(|p: Option<String>| opt_view(p)),
            i <= paths@.len(),
            first_metadata_from(ps, 0) == first_metadata_from(ps, i as int),
        decreases paths@.len() - i,
    {
        let hit = match &paths[i] {
            Some(p) => str_equal(p.as_str(), METADATA_PATH),
            None => false,
        };
        assert(ps[i as int] == opt_view(paths@[i as int]));
        if hit {
            return Some(i);
        }
        i = i + 1;
    }
    None
}

/// Why no metadata file came out of a layer.
pub enum ExtractError {
    /// No entry of the archive is the metadata file.
    NotFound,
    /// The metadata file is there but cannot be read.
    Unreadable,
}

/// Takes the release metadata file out of a layer blob (a gzip-compressed tar
/// archive): the contents of its first entry whose path is `METADATA_PATH`.
pub fn extract_metadata_file(blob: &[u8]) -> (r: Result<Vec<u8>, ExtractError>)
    ensures
        first_metadata(archive_paths_of(blob@)) is None ==> r == Err::<Vec<u8>, ExtractError>(
            ExtractError::NotFound,
        ),
        first_metadata(archive_paths_of(blob@)) matches Some(i) ==> match archive_entry_of(
            blob@,
            i as nat,
        ) {
            Some(c) => r matches Ok(v) && v@ == c,
            None => r == Err::<Vec<u8>, ExtractError>(ExtractError::Unreadable),
        },
{
    let paths = archive_paths(blob);
    match find_metadata_entry(&paths) {
        None => Err(ExtractError::NotFound),
        Some(i) => match archive_entry(blob, i) {
            Some(c) => Ok(c),
            None => Err(ExtractError::Unreadable),
        },
    }
}

} // verus!
