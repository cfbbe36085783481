//! Source paths of a program database.

use ms_pdb::dbi::DbiSourcesSubstream;
use vstd::prelude::*;
use vstd::utf8::{decode_utf8, encode_utf8_decode_utf8, valid_utf8};

use crate::bytes::{le16, le32, nul_index};
use crate::text::utf8_text;

verus! {

/// Owns every source-path occurrence stored in the DBI Sources substream.
#[derive(Clone, Debug, Eq, PartialEq)]
pub struct DbiSourcePaths {
    pub paths: Vec<String>,
}

/// Explains why DBI source-path collection could not complete.
#[derive(Clone, Debug, Eq, PartialEq)]
pub enum DbiSourcePathCollectionError {
    PdbOpen { message: String },
    SourcesRead { message: String },
    InvalidSourcePath { source_index: usize },
    InvalidSourcePathEncoding { source_index: usize },
}

/// The first path, from `index` on, that is not valid UTF-8.
pub open spec fn first_undecodable(paths: Seq<Vec<u8>>, index: int) -> Option<usize>
    decreases paths.len() - index,
{
    if index >= paths.len() {
        None
    } else if !valid_utf8(paths[index]@) {
        Some(index as usize)
    } else {
        first_undecodable(paths, index + 1)
    }
}

/// The outcome of decoding paths of these bytes.
pub open spec fn source_paths_outcome(
    raw_paths: Seq<Vec<u8>>,
    expected_path_count: usize,
    r: Result<DbiSourcePaths, DbiSourcePathCollectionError>,
) -> bool {
    match first_undecodable(raw_paths, 0) {
        Some(source_index) => r == Err::<DbiSourcePaths, _>(
            DbiSourcePathCollectionError::InvalidSourcePathEncoding { source_index },
        ),
        None => if raw_paths.len() != expected_path_count {
            r == Err::<DbiSourcePaths, _>(
                DbiSourcePathCollectionError::InvalidSourcePath {
                    source_index: raw_paths.len() as usize,
                },
            )
        } else {
            &&& r is Ok
            &&& r->Ok_0.paths@.len() == raw_paths.len()
            &&& forall|i: int|
                0 <= i < raw_paths.len() ==> (#[trigger] r->Ok_0.paths@[i])@ == decode_utf8(
                    raw_paths[i]@,
                )
        },
    }
}

/// Decodes the source paths of a DBI Sources substream that declares `expected_path_count` of
/// them. Paths keep their order, and repeated ones are kept.
pub fn collect_source_paths(raw_paths: &[Vec<u8>], expected_path_count: usize) -> (r: Result<
    DbiSourcePaths,
    DbiSourcePathCollectionError,
>)
    ensures
        source_paths_outcome(raw_paths@, expected_path_count, r),
{
    let mut paths: Vec<String> = Vec::with_capacity(raw_paths.len());
    let mut source_index: usize = 0;
    while source_index < raw_paths.len()
        invariant
            source_index <= raw_paths@.len(),
            first_undecodable(raw_paths@, 0) == first_undecodable(
                raw_paths@,
                source_index as int,
            ),
            paths@.len() == source_index,
            forall|i: int|
                0 <= i < source_index ==> (#[trigger] paths@[i])@ == decode_utf8(
                    raw_paths@[i]@,
                ),
        decreases raw_paths.len() - source_index,
    {
        match utf8_text(raw_paths[source_index].as_slice()) {
            Ok(text) => {
                proof {
                    encode_utf8_decode_utf8(text@);
                }
                paths.push(text.to_owned());
            },
            Err(_) => {
                return Err(
                    DbiSourcePathCollectionError::InvalidSourcePathEncoding { source_index },
                );
            },
        }
        source_index += 1;
    }
    if paths.len() != expected_path_count {
        return Err(
            DbiSourcePathCollectionError::InvalidSourcePath { source_index: paths.len() },
        );
    }
    Ok(DbiSourcePaths { paths })
}

/// The sum of the first `count` path counts of a Sources substream of `modules` modules.
pub open spec fn path_total(data: Seq<u8>, modules: int, count: int) -> int
    decreases count,
{
    if count <= 0 {
        0
    } else {
        path_total(data, modules, count - 1) + le16(data, 4 + 2 * modules + 2 * (count - 1))
    }
}

/// The number of modules of a Sources substream.
pub open spec fn module_count(data: Seq<u8>) -> int {
    le16(data, 0) as int
}

/// The number of paths that a Sources substream declares.
pub open spec fn declared_paths(data: Seq<u8>) -> int {
    path_total(data, module_count(data), module_count(data))
}

/// Where the path offsets of a Sources substream begin: behind its two counts and the two arrays
/// of its modules.
pub open spec fn offsets_start(data: Seq<u8>) -> int {
    4 + 4 * module_count(data)
}

/// Where the names of a Sources substream begin.
pub open spec fn names_start(data: Seq<u8>) -> int {
    offsets_start(data) + 4 * declared_paths(data)
}

/// Whether bytes hold every array of a Sources substream.
pub open spec fn sources_fit(data: Seq<u8>) -> bool {
    data.len() >= 4 && data.len() >= offsets_start(data) && data.len() >= names_start(data)
}

/// The zero-terminated name that path `index` of a Sources substream leads to, if it has an end.
pub open spec fn source_name(data: Seq<u8>, index: int) -> Option<Seq<u8>> {
    let from = names_start(data) + le32(data, offsets_start(data) + 4 * index);
    if from < data.len() && nul_index(data, from) < data.len() {
        Some(data.subrange(from, nul_index(data, from)))
    } else {
        None
    }
}

/// The names of a Sources substream from path `index` on, up to the first that has no end,
/// appended to `found`.
pub open spec fn source_names(data: Seq<u8>, index: int, found: Seq<Seq<u8>>) -> Seq<Seq<u8>>
    decreases declared_paths(data) - index,
{
    if index >= declared_paths(data) {
        found
    } else {
        match source_name(data, index) {
            Some(name) => source_names(data, index + 1, found.push(name)),
            None => found,
        }
    }
}

/// Raw source paths hold these bytes.
pub open spec fn raw_paths_are(raw_paths: Seq<Vec<u8>>, names: Seq<Seq<u8>>) -> bool {
    &&& raw_paths.len() == names.len()
    &&& forall|i: int| 0 <= i < names.len() ==> (#[trigger] raw_paths[i])@ == names[i]
}

/// Calls `DbiSourcesSubstream::parse` on the bytes of a Sources substream, which refuses bytes that
/// do not hold its arrays, and collects the paths that `iter_sources` walks over, beside the length
/// of `file_name_offsets`. That is the sum of the modules' path counts. The walk reads the
/// zero-terminated name at each offset and ends at the first that has no end. The wording of a
/// refusal is left open.
#[verifier::external_body]
fn parse_dbi_sources(data: &[u8]) -> (r: Result<(Vec<Vec<u8>>, usize), String>)
    ensures
        r is Ok <==> sources_fit(data@),
        match r {
            Ok((paths, count)) => {
                &&& raw_paths_are(paths@, source_names(data@, 0, Seq::empty()))
                &&& count == declared_paths(data@)
            },
            Err(_) => true,
        },
{
    let sources = DbiSourcesSubstream::parse(data).map_err(|error| error.to_string())?;
    let paths = sources.iter_sources().map(|(_, path)| path.to_vec()).collect();
    Ok((paths, sources.file_name_offsets().len()))
}

/// Collects every source path of a Sources substream, given its bytes.
pub fn collect_substream_source_paths(data: &[u8]) -> (r: Result<
    DbiSourcePaths,
    DbiSourcePathCollectionError,
>)
    ensures
        !sources_fit(data@) ==> r is Err && r->Err_0 is SourcesRead,
        sources_fit(data@) ==> exists|raw_paths: Seq<Vec<u8>>| #[trigger]
            raw_paths_are(raw_paths, source_names(data@, 0, Seq::empty())) && source_paths_outcome(
                raw_paths,
                declared_paths(data@) as usize,
                r,
            ),
{
    match parse_dbi_sources(data) {
        Ok((raw_paths, expected_path_count)) => collect_source_paths(
            &raw_paths,
            expected_path_count,
        ),
        Err(message) => Err(DbiSourcePathCollectionError::SourcesRead { message }),
    }
}

} // verus!
