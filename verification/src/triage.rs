//! The structured results of one process triage.

use vstd::prelude::*;

use crate::debuginfo::pdb::{PdbInfo, PdbInfoCollectionError};
use crate::imports::collector::{ProcessImportCollection, ProcessImportCollectionError};
use crate::pe::locate::{collect_sections_from_pe, get_file_offset_from_pe};
use crate::pe::types::{PeSectionInfo, UnavailablePeRange, ValidatedPeSnapshot};
use crate::process::ValidatedProcessPe;
use crate::teb::{ProcessTebCollection, ProcessTebCollectionError};

verus! {

/// Owns every retained structured result produced by one process-memory triage scan.
#[derive(Debug)]
pub struct ProcessTriageCollection {
    pub validated_process: ValidatedProcessPe,
    pub backing_file_sha256: Option<String>,
    pub output_identity_sha256: String,
    pub granted_access: u32,
    pub entry_point_file_offset: Option<usize>,
    pub unavailable_image_ranges: Vec<UnavailablePeRange>,
    pub sections: Vec<PeSectionInfo>,
    pub pdb: Result<Option<PdbInfo>, PdbInfoCollectionError>,
    pub imports: Result<ProcessImportCollection, ProcessImportCollectionError>,
    pub tebs: Result<ProcessTebCollection, ProcessTebCollectionError>,
}

/// Tells that a process handle resolved to another process than the one asked for.
#[derive(Clone, Copy, Debug, Eq, PartialEq, Structural)]
pub struct ProcessIdentityMismatch {
    pub expected_process_id: u32,
    pub actual_process_id: u32,
}

/// Checks that the validated process is the one asked for.
pub fn check_target_process(expected_process_id: u32, actual_process_id: u32) -> (r: Result<
    (),
    ProcessIdentityMismatch,
>)
    ensures
        r == (if actual_process_id == expected_process_id {
            Ok(())
        } else {
            Err(ProcessIdentityMismatch { expected_process_id, actual_process_id })
        }),
{
    if actual_process_id != expected_process_id {
        return Err(ProcessIdentityMismatch { expected_process_id, actual_process_id });
    }
    Ok(())
}

/// Chooses the digest that names the output, and the backing digest to record. The digest of the
/// backing file is preferred; without it the digest of the mapped snapshot names the output, and
/// no backing digest is recorded. There is no output identity without either.
pub fn choose_output_identity(backing: Option<String>, snapshot: Option<String>) -> (r: Option<
    (String, Option<String>),
>)
    ensures
        match (backing, snapshot) {
            (Some(digest), _) => match r {
                Some((identity, Some(recorded))) => identity@ == digest@ && recorded@ == digest@,
                _ => false,
            },
            (None, Some(digest)) => r == Some((digest, None::<String>)),
            (None, None) => r is None,
        },
{
    match backing {
        Some(digest) => {
            let identity = digest.clone();
            Some((identity, Some(digest)))
        },
        None => match snapshot {
            Some(digest) => Some((digest, None)),
            None => None,
        },
    }
}

/// Gathers the retained results of one validation and mapped-image snapshot.
pub fn collect_validated_process_triage(
    validated_process: ValidatedProcessPe,
    snapshot: &ValidatedPeSnapshot,
    backing_file_sha256: Option<String>,
    output_identity_sha256: String,
    granted_access: u32,
    pdb: Result<Option<PdbInfo>, PdbInfoCollectionError>,
    imports: Result<ProcessImportCollection, ProcessImportCollectionError>,
    tebs: Result<ProcessTebCollection, ProcessTebCollectionError>,
) -> (r: ProcessTriageCollection)
    ensures
        r.validated_process == validated_process,
        r.backing_file_sha256 == backing_file_sha256,
        r.output_identity_sha256 == output_identity_sha256,
        r.granted_access == granted_access,
        r.entry_point_file_offset == snapshot.pe.file_offset(
            validated_process.image.entry_point_rva as int,
        ),
        r.unavailable_image_ranges@ == snapshot.unavailable_ranges@,
        r.sections@.len() == snapshot.pe.sections@.len(),
        forall|i: int|
            0 <= i < r.sections@.len() ==> (#[trigger] r.sections@[i]).describes(
                snapshot.pe.sections@[i],
            ),
        r.pdb == pdb,
        r.imports == imports,
        r.tebs == tebs,
{
    let sections = collect_sections_from_pe(&snapshot.pe);
    let entry_point_file_offset = get_file_offset_from_pe(
        &snapshot.pe,
        validated_process.image.entry_point_rva,
    );
    ProcessTriageCollection {
        validated_process,
        backing_file_sha256,
        output_identity_sha256,
        granted_access,
        entry_point_file_offset,
        unavailable_image_ranges: vstd::slice::slice_to_vec(&snapshot.unavailable_ranges),
        sections,
        pdb,
        imports,
        tebs,
    }
}

} // verus!
