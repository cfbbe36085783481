//! CodeView records that name the program database of an image.

use vstd::prelude::*;

use crate::bytes::{
    find_nul, fits, get_u16, get_u32, le16, le32, lemma_nul_index, nul_index, read_u32_at,
};
use crate::opcode::catalog::bytes_at;
use crate::paths::{
    extension_of, file_name_outcome, law_plain_names_have_no_directory,
    law_stem_and_extension_split_the_name, names_file, parent_outcome, path_file_name, path_parent,
    plain_name, split_file_name, stem_of, tail,
};
use crate::pe::locate::{data_directory, get_data_directory, get_file_offset_from_pe};
use crate::pe::snapshot::{is_snapshot_range_available, snapshot_range_available};
use crate::pe::types::{PeImage, PeValidationError, UnavailablePeRange, ValidatedPeSnapshot};
use crate::process::ProcessPeValidationError;
use crate::text::{lossy_text, utf8_lossy};
use crate::windows::{IMAGE_DEBUG_TYPE_CODEVIEW, IMAGE_DIRECTORY_ENTRY_DEBUG};

verus! {

/// Byte length of a CodeView record signature.
pub const CODEVIEW_SIGNATURE_SIZE: usize = 4;

/// Byte offset of the GUID in an RSDS CodeView record.
pub const RSDS_GUID_OFFSET: usize = 4;

/// Byte offset of the age in an RSDS CodeView record.
pub const RSDS_AGE_OFFSET: usize = 20;

/// Byte offset of the PDB path in an RSDS CodeView record.
pub const RSDS_PATH_OFFSET: usize = 24;

/// Byte offset of the signature in an NB10 CodeView record.
pub const NB10_SIGNATURE_OFFSET: usize = 8;

/// Byte offset of the age in an NB10 CodeView record.
pub const NB10_AGE_OFFSET: usize = 12;

/// Byte offset of the PDB path in an NB10 CodeView record.
pub const NB10_PATH_OFFSET: usize = 16;

/// Byte size of one debug-directory entry.
pub const DEBUG_DIRECTORY_ENTRY_SIZE: usize = 28;

/// Byte size of a GUID.
pub const GUID_SIZE: usize = 16;

pub const RSDS_SIGNATURE: [u8; 4] = [0x52, 0x53, 0x44, 0x53];

pub const NB10_SIGNATURE: [u8; 4] = [0x4E, 0x42, 0x31, 0x30];

/// Describes the supported CodeView record format used to reference a PDB.
#[derive(Clone, Copy, Debug, Eq, PartialEq, Structural)]
pub enum PdbCodeViewFormat {
    Rsds,
    Nb10,
}

/// Stores a CodeView RSDS GUID in display-ready PE/PDB byte order.
#[derive(Clone, Copy, Debug, Eq, PartialEq)]
pub struct PdbGuid {
    pub data1: u32,
    pub data2: u16,
    pub data3: u16,
    pub data4: [u8; 8],
}

/// Describes the file-system parts extracted from a PDB path.
#[derive(Clone, Debug, Eq, PartialEq)]
pub struct PdbPathInfo {
    pub full_path: String,
    pub directory: Option<String>,
    pub file_name: Option<String>,
    pub file_stem: Option<String>,
    pub extension: Option<String>,
    pub exists_on_disk: bool,
}

/// Describes PDB metadata extracted from a PE CodeView debug record.
#[derive(Clone, Debug, Eq, PartialEq)]
pub struct PdbInfo {
    pub format: PdbCodeViewFormat,
    pub path: PdbPathInfo,
    pub guid: Option<PdbGuid>,
    pub signature: Option<u32>,
    pub age: u32,
    pub debug_directory_rva: usize,
    pub debug_directory_file_offset: Option<usize>,
    pub codeview_rva: usize,
    pub codeview_file_offset: Option<usize>,
    pub codeview_size: usize,
}

/// Describes a CodeView debug record before its path is looked at.
#[derive(Clone, Debug, Eq, PartialEq)]
pub struct PdbRecord {
    pub format: PdbCodeViewFormat,
    pub full_path: String,
    pub guid: Option<PdbGuid>,
    pub signature: Option<u32>,
    pub age: u32,
    pub debug_directory_rva: usize,
    pub debug_directory_file_offset: Option<usize>,
    pub codeview_rva: usize,
    pub codeview_file_offset: Option<usize>,
    pub codeview_size: usize,
}

/// Explains why main-module PDB collection could not complete.
#[derive(Clone, Copy, Debug, Eq, PartialEq)]
pub enum PdbInfoCollectionError {
    ProcessValidationFailed(ProcessPeValidationError),
    InvalidMainModulePe(PeValidationError),
    IncompleteMainModuleSnapshot { rva: usize, size: usize },
}

/// The debug-directory entry fields that the analysis reads.
#[derive(Clone, Copy, Debug, Eq, PartialEq, Structural)]
pub struct DebugEntry {
    pub entry_type: u32,
    pub size_of_data: u32,
    pub address_of_raw_data: u32,
    pub pointer_to_raw_data: u32,
}

/// The debug-directory entry stored at `at`.
pub open spec fn debug_entry_at(data: Seq<u8>, at: int) -> DebugEntry {
    DebugEntry {
        entry_type: le32(data, at + 12),
        size_of_data: le32(data, at + 16),
        address_of_raw_data: le32(data, at + 20),
        pointer_to_raw_data: le32(data, at + 24),
    }
}

impl PdbGuid {
    /// This is the GUID stored at `at`.
    pub open spec fn read_from(self, data: Seq<u8>, at: int) -> bool {
        &&& self.data1 == le32(data, at)
        &&& self.data2 == le16(data, at + 4)
        &&& self.data3 == le16(data, at + 6)
        &&& self.data4@ == data.subrange(at + 8, at + 16)
    }
}

/// The zero-terminated path at `at`, decoded, when it is not empty.
pub open spec fn path_at(data: Seq<u8>, at: int) -> Option<Seq<char>> {
    let text = lossy_text(data.subrange(at, nul_index(data, at)));
    if 0 <= at < data.len() && nul_index(data, at) < data.len() && text.len() > 0 {
        Some(text)
    } else {
        None
    }
}

/// Whether a CodeView record carries this signature.
pub open spec fn has_signature(record: Seq<u8>, signature: Seq<u8>) -> bool {
    record.len() >= CODEVIEW_SIGNATURE_SIZE && record.subrange(0, CODEVIEW_SIGNATURE_SIZE as int)
        == signature
}

/// The format of a complete CodeView record with a path.
pub open spec fn record_format(record: Seq<u8>) -> Option<PdbCodeViewFormat> {
    if has_signature(record, RSDS_SIGNATURE@) {
        if path_at(record, RSDS_PATH_OFFSET as int) is Some {
            Some(PdbCodeViewFormat::Rsds)
        } else {
            None
        }
    } else if has_signature(record, NB10_SIGNATURE@) {
        if path_at(record, NB10_PATH_OFFSET as int) is Some {
            Some(PdbCodeViewFormat::Nb10)
        } else {
            None
        }
    } else {
        None
    }
}

/// What one debug-directory entry gives.
pub ghost enum DebugEntryStep {
    Skip,
    Unavailable(UnavailablePeRange),
    Found,
}

/// Whether a range of a process snapshot is missing; a module without one misses nothing.
pub open spec fn missing_in(snapshot: Option<ValidatedPeSnapshot>, rva: int, size: int) -> bool {
    snapshot is Some && !snapshot_range_available(snapshot->0, rva, size)
}

/// The CodeView record of an entry that fits the data.
pub open spec fn codeview_record(data: Seq<u8>, entry: DebugEntry) -> Seq<u8> {
    data.subrange(
        entry.address_of_raw_data as int,
        entry.address_of_raw_data + entry.size_of_data,
    )
}

/// What the debug-directory entry at `at` gives.
pub open spec fn debug_entry_step(
    data: Seq<u8>,
    snapshot: Option<ValidatedPeSnapshot>,
    at: int,
) -> DebugEntryStep {
    let entry = debug_entry_at(data, at);
    let rva = entry.address_of_raw_data;
    let size = entry.size_of_data;
    if entry.entry_type != IMAGE_DEBUG_TYPE_CODEVIEW || size == 0 || rva == 0 {
        DebugEntryStep::Skip
    } else if missing_in(snapshot, rva as int, size as int) {
        DebugEntryStep::Unavailable(UnavailablePeRange { rva: rva as usize, size: size as usize })
    } else if rva + size > data.len() || record_format(codeview_record(data, entry)) is None {
        DebugEntryStep::Skip
    } else {
        DebugEntryStep::Found
    }
}

impl PdbRecord {
    /// This record holds what the debug-directory entry at `at` gives.
    pub open spec fn read_from(&self, data: Seq<u8>, pe: PeImage, at: int) -> bool {
        let entry = debug_entry_at(data, at);
        let record = codeview_record(data, entry);
        let rva = entry.address_of_raw_data;
        &&& record_format(record) == Some(self.format)
        &&& match self.format {
            PdbCodeViewFormat::Rsds => {
                &&& path_at(record, RSDS_PATH_OFFSET as int) == Some(self.full_path@)
                &&& self.guid is Some
                &&& self.guid->0.read_from(record, RSDS_GUID_OFFSET as int)
                &&& self.signature is None
                &&& self.age == le32(record, RSDS_AGE_OFFSET as int)
            },
            PdbCodeViewFormat::Nb10 => {
                &&& path_at(record, NB10_PATH_OFFSET as int) == Some(self.full_path@)
                &&& self.guid is None
                &&& self.signature == Some(le32(record, NB10_SIGNATURE_OFFSET as int))
                &&& self.age == le32(record, NB10_AGE_OFFSET as int)
            },
        }
        &&& self.debug_directory_rva == at
        &&& self.debug_directory_file_offset == pe.file_offset(at)
        &&& self.codeview_rva == rva
        &&& self.codeview_file_offset == (if pe.file_offset(rva as int) is Some {
            pe.file_offset(rva as int)
        } else if entry.pointer_to_raw_data == 0 {
            None
        } else {
            Some(entry.pointer_to_raw_data as usize)
        })
        &&& self.codeview_size == entry.size_of_data
    }
}

/// The first entry, from `index` on, that is not skipped.
pub open spec fn deciding_entry(
    data: Seq<u8>,
    snapshot: Option<ValidatedPeSnapshot>,
    start: int,
    count: int,
    index: int,
) -> Option<int>
    decreases count - index,
{
    let at = start + index * DEBUG_DIRECTORY_ENTRY_SIZE;
    if index >= count {
        None
    } else if debug_entry_step(data, snapshot, at) is Skip {
        deciding_entry(data, snapshot, start, count, index + 1)
    } else {
        Some(at)
    }
}

/// Reads an RSDS GUID from CodeView bytes.
pub fn read_guid(bytes: &[u8], offset: usize) -> (r: Option<PdbGuid>)
    ensures
        r is Some <==> fits(bytes@.len(), offset as int, GUID_SIZE as int),
        r is Some ==> r->0.read_from(bytes@, offset as int),
{
    if bytes.len() < GUID_SIZE || offset > bytes.len() - GUID_SIZE {
        return None;
    }
    let data4: [u8; 8] = [
        bytes[offset + 8],
        bytes[offset + 9],
        bytes[offset + 10],
        bytes[offset + 11],
        bytes[offset + 12],
        bytes[offset + 13],
        bytes[offset + 14],
        bytes[offset + 15],
    ];
    assert(data4@ =~= bytes@.subrange(offset + 8, offset + 16));
    Some(
        PdbGuid {
            data1: get_u32(bytes, offset),
            data2: get_u16(bytes, offset + 4),
            data3: get_u16(bytes, offset + 6),
            data4,
        },
    )
}

/// Reads a NUL-terminated PDB path string from CodeView bytes.
pub fn read_pdb_path(bytes: &[u8], offset: usize) -> (r: Option<String>)
    ensures
        match r {
            Some(path) => path_at(bytes@, offset as int) == Some(path@),
            None => path_at(bytes@, offset as int) is None,
        },
{
    let end: usize = match find_nul(bytes, offset) {
        Some(value) => value,
        None => return None,
    };
    assert(bytes.len() == bytes@.len());
    proof {
        lemma_nul_index(bytes@, offset as int);
    }
    let path = utf8_lossy(vstd::slice::slice_subrange(bytes, offset, end));
    if path.as_str().is_empty() {
        return None;
    }
    Some(path)
}

/// Reads the record of one CodeView entry that fits the data.
fn read_codeview_record(
    module_bytes: &[u8],
    pe: &PeImage,
    entry: &DebugEntry,
    entry_rva: usize,
) -> (r: Option<PdbRecord>)
    requires
        *entry == debug_entry_at(module_bytes@, entry_rva as int),
        entry.address_of_raw_data + entry.size_of_data <= module_bytes@.len(),
    ensures
        r is Some <==> record_format(codeview_record(module_bytes@, *entry)) is Some,
        r is Some ==> r->0.read_from(module_bytes@, *pe, entry_rva as int),
{
    let codeview_rva: usize = entry.address_of_raw_data as usize;
    let codeview_size: usize = entry.size_of_data as usize;
    assert(codeview_rva + codeview_size <= module_bytes.len());
    let record: &[u8] = vstd::slice::slice_subrange(
        module_bytes,
        codeview_rva,
        codeview_rva + codeview_size,
    );
    let format: PdbCodeViewFormat = if bytes_at(record, 0, &RSDS_SIGNATURE) {
        PdbCodeViewFormat::Rsds
    } else if bytes_at(record, 0, &NB10_SIGNATURE) {
        PdbCodeViewFormat::Nb10
    } else {
        return None;
    };
    let (path_offset, age_offset) = match format {
        PdbCodeViewFormat::Rsds => (RSDS_PATH_OFFSET, RSDS_AGE_OFFSET),
        PdbCodeViewFormat::Nb10 => (NB10_PATH_OFFSET, NB10_AGE_OFFSET),
    };
    let full_path = match read_pdb_path(record, path_offset) {
        Some(value) => value,
        None => return None,
    };
    assert(record@.len() > path_offset);
    let guid: Option<PdbGuid> = match format {
        PdbCodeViewFormat::Rsds => read_guid(record, RSDS_GUID_OFFSET),
        PdbCodeViewFormat::Nb10 => None,
    };
    let signature: Option<u32> = match format {
        PdbCodeViewFormat::Rsds => None,
        PdbCodeViewFormat::Nb10 => read_u32_at(record, NB10_SIGNATURE_OFFSET),
    };
    let age: u32 = get_u32(record, age_offset);
    let mapped_offset = get_file_offset_from_pe(pe, codeview_rva);
    let codeview_file_offset: Option<usize> = if mapped_offset.is_some() {
        mapped_offset
    } else if entry.pointer_to_raw_data == 0 {
        None
    } else {
        Some(entry.pointer_to_raw_data as usize)
    };
    Some(
        PdbRecord {
            format,
            full_path,
            guid,
            signature,
            age,
            debug_directory_rva: entry_rva,
            debug_directory_file_offset: get_file_offset_from_pe(pe, entry_rva),
            codeview_rva,
            codeview_file_offset,
            codeview_size,
        },
    )
}

/// What the debug directory of an image gives: the range it is missing, the place of its entries,
/// or nothing.
pub open spec fn debug_directory(
    data: Seq<u8>,
    pe: PeImage,
    snapshot: Option<ValidatedPeSnapshot>,
) -> Result<Option<(int, int)>, UnavailablePeRange> {
    match data_directory(pe.nt_headers@, IMAGE_DIRECTORY_ENTRY_DEBUG as int) {
        None => Ok(None),
        Some(directory) => {
            let rva = directory.virtual_address;
            let size = directory.size;
            if rva == 0 || size == 0 {
                Ok(None)
            } else if missing_in(snapshot, rva as int, size as int) {
                Err(UnavailablePeRange { rva: rva as usize, size: size as usize })
            } else if rva + size > data.len() {
                Ok(None)
            } else {
                Ok(Some((rva as int, size as int / DEBUG_DIRECTORY_ENTRY_SIZE as int)))
            }
        },
    }
}

/// What collecting PDB metadata returns: the record of the first entry that holds one, absence, or
/// the first missing range that was needed.
pub open spec fn pdb_outcome(
    data: Seq<u8>,
    pe: PeImage,
    snapshot: Option<ValidatedPeSnapshot>,
    r: Result<Option<PdbRecord>, UnavailablePeRange>,
) -> bool {
    match debug_directory(data, pe, snapshot) {
        Err(range) => r == Err::<Option<PdbRecord>, UnavailablePeRange>(range),
        Ok(None) => r == Ok::<Option<PdbRecord>, UnavailablePeRange>(None),
        Ok(Some((start, count))) => match deciding_entry(data, snapshot, start, count, 0) {
            None => r == Ok::<Option<PdbRecord>, UnavailablePeRange>(None),
            Some(at) => match debug_entry_step(data, snapshot, at) {
                DebugEntryStep::Unavailable(range) => r == Err::<
                    Option<PdbRecord>,
                    UnavailablePeRange,
                >(range),
                _ => {
                    &&& r is Ok
                    &&& r->Ok_0 is Some
                    &&& r->Ok_0->0.read_from(data, pe, at)
                },
            },
        },
    }
}

/// Reports whether a range of a process snapshot is missing.
fn is_missing_in(snapshot: Option<&ValidatedPeSnapshot>, rva: usize, size: usize) -> (r: bool)
    ensures
        r == missing_in(
            match snapshot {
                Some(snapshot) => Some(*snapshot),
                None => None,
            },
            rva as int,
            size as int,
        ),
{
    match snapshot {
        Some(snapshot) => !is_snapshot_range_available(snapshot, rva, size),
        None => false,
    }
}

/// Collects PDB metadata from a PE image that has already passed strict validation.
pub fn collect_pdb_info_from_pe(
    module_bytes: &[u8],
    pe: &PeImage,
    snapshot: Option<&ValidatedPeSnapshot>,
) -> (r: Result<Option<PdbRecord>, UnavailablePeRange>)
    requires
        pe.wf(),
    ensures
        pdb_outcome(
            module_bytes@,
            *pe,
            match snapshot {
                Some(snapshot) => Some(*snapshot),
                None => None,
            },
            r,
        ),
{
    let ghost source = match snapshot {
        Some(snapshot) => Some(*snapshot),
        None => None,
    };
    let directory = match get_data_directory(pe, IMAGE_DIRECTORY_ENTRY_DEBUG) {
        Some(value) => value,
        None => return Ok(None),
    };
    let directory_rva: usize = directory.virtual_address as usize;
    let directory_size: usize = directory.size as usize;
    if directory_rva == 0 || directory_size == 0 {
        return Ok(None);
    }
    if is_missing_in(snapshot, directory_rva, directory_size) {
        return Err(UnavailablePeRange { rva: directory_rva, size: directory_size });
    }
    if directory_rva > module_bytes.len() || directory_size > module_bytes.len() - directory_rva {
        return Ok(None);
    }
    let entry_count: usize = directory_size / DEBUG_DIRECTORY_ENTRY_SIZE;
    let ghost expected = deciding_entry(
        module_bytes@,
        source,
        directory_rva as int,
        entry_count as int,
        0,
    );
    let mut entry_index: usize = 0;
    while entry_index < entry_count
        invariant
            entry_index <= entry_count,
            directory_rva + entry_count * DEBUG_DIRECTORY_ENTRY_SIZE <= module_bytes@.len(),
            module_bytes@.len() <= usize::MAX,
            source == (match snapshot {
                Some(snapshot) => Some(*snapshot),
                None => None,
            }),
            debug_directory(module_bytes@, *pe, source) == Ok::<
                Option<(int, int)>,
                UnavailablePeRange,
            >(Some((directory_rva as int, entry_count as int))),
            expected == deciding_entry(
                module_bytes@,
                source,
                directory_rva as int,
                entry_count as int,
                0,
            ),
            expected == deciding_entry(
                module_bytes@,
                source,
                directory_rva as int,
                entry_count as int,
                entry_index as int,
            ),
        decreases entry_count - entry_index,
    {
        assert((entry_index + 1) * DEBUG_DIRECTORY_ENTRY_SIZE <= entry_count
            * DEBUG_DIRECTORY_ENTRY_SIZE);
        let entry_rva: usize = directory_rva + entry_index * DEBUG_DIRECTORY_ENTRY_SIZE;
        let entry = DebugEntry {
            entry_type: get_u32(module_bytes, entry_rva + 12),
            size_of_data: get_u32(module_bytes, entry_rva + 16),
            address_of_raw_data: get_u32(module_bytes, entry_rva + 20),
            pointer_to_raw_data: get_u32(module_bytes, entry_rva + 24),
        };
        if entry.entry_type == IMAGE_DEBUG_TYPE_CODEVIEW && entry.size_of_data != 0
            && entry.address_of_raw_data != 0 {
            let codeview_rva: usize = entry.address_of_raw_data as usize;
            let codeview_size: usize = entry.size_of_data as usize;
            if is_missing_in(snapshot, codeview_rva, codeview_size) {
                return Err(UnavailablePeRange { rva: codeview_rva, size: codeview_size });
            }
            if codeview_rva <= module_bytes.len() && codeview_size <= module_bytes.len()
                - codeview_rva {
                match read_codeview_record(module_bytes, pe, &entry, entry_rva) {
                    Some(record) => return Ok(Some(record)),
                    None => {},
                }
            }
        }
        entry_index += 1;
    }
    Ok(None)
}

/// Collects PDB metadata from an already validated main-module snapshot.
pub fn collect_main_module_pdb_info_from_snapshot(snapshot: &ValidatedPeSnapshot) -> (r: Result<
    Option<PdbRecord>,
    PdbInfoCollectionError,
>)
    requires
        snapshot.pe.wf(),
    ensures
        match r {
            Ok(record) => pdb_outcome(
                snapshot.bytes@,
                snapshot.pe,
                Some(*snapshot),
                Ok(record),
            ),
            Err(error) => {
                &&& error is IncompleteMainModuleSnapshot
                &&& pdb_outcome(
                    snapshot.bytes@,
                    snapshot.pe,
                    Some(*snapshot),
                    Err(
                        UnavailablePeRange {
                            rva: error->IncompleteMainModuleSnapshot_rva,
                            size: error->IncompleteMainModuleSnapshot_size,
                        },
                    ),
                )
            },
        },
{
    match collect_pdb_info_from_pe(&snapshot.bytes, &snapshot.pe, Some(snapshot)) {
        Ok(record) => Ok(record),
        Err(range) => Err(
            PdbInfoCollectionError::IncompleteMainModuleSnapshot {
                rva: range.rva,
                size: range.size,
            },
        ),
    }
}

/// A part of a path, unless it is empty.
pub open spec fn kept_part(part: Option<String>, kept: Option<String>) -> bool {
    match part {
        Some(text) => if text@.len() > 0 {
            kept is Some && kept->0@ == text@
        } else {
            kept is None
        },
        None => kept is None,
    }
}

/// Keeps a part of a path unless it is empty.
fn keep_part(part: Option<String>) -> (r: Option<String>)
    ensures
        kept_part(part, r),
{
    match part {
        Some(text) => if text.as_str().is_empty() {
            None
        } else {
            Some(text)
        },
        None => None,
    }
}

/// Describes a path by parts that were taken from it; empty parts are left out.
pub fn describe_path(
    full_path: String,
    parent: Option<String>,
    file_name: Option<String>,
    file_stem: Option<String>,
    extension: Option<String>,
    exists_on_disk: bool,
) -> (r: PdbPathInfo)
    ensures
        r.full_path@ == full_path@,
        kept_part(parent, r.directory),
        kept_part(file_name, r.file_name),
        kept_part(file_stem, r.file_stem),
        kept_part(extension, r.extension),
        r.exists_on_disk == exists_on_disk,
{
    PdbPathInfo {
        full_path,
        directory: keep_part(parent),
        file_name: keep_part(file_name),
        file_stem: keep_part(file_stem),
        extension: keep_part(extension),
        exists_on_disk,
    }
}

/// Whether stem and extension are those of the file name; an empty extension is left out.
pub open spec fn parts_of_file_name(info: PdbPathInfo) -> bool {
    match info.file_name {
        Some(name) => {
            &&& info.file_stem is Some
            &&& info.file_stem->0@ == stem_of(name@)
            &&& match extension_of(name@) {
                Some(text) => if text.len() > 0 {
                    info.extension is Some && info.extension->0@ == text
                } else {
                    info.extension is None
                },
                None => info.extension is None,
            }
        },
        None => info.file_stem is None && info.extension is None,
    }
}

/// Extracts file-system parts from a PDB path string. The file name is what stands behind the last
/// separator and the directory what is left before it; whether `\\` separates depends on the
/// platform. Stem and extension are split from the file name.
pub fn build_path_info(full_path: String, exists_on_disk: bool) -> (r: PdbPathInfo)
    ensures
        r.full_path@ == full_path@,
        r.exists_on_disk == exists_on_disk,
        file_name_outcome(full_path@, r.file_name),
        exists|parent: Option<String>| #[trigger]
            parent_outcome(full_path@, parent) && kept_part(parent, r.directory),
        plain_name(full_path@) ==> r.directory is None && r.file_name is Some
            && r.file_name->0@ == full_path@,
        names_file(full_path@) ==> r.file_name is Some && (r.file_name->0@ == tail(
            full_path@,
            true,
        ) || r.file_name->0@ == tail(full_path@, false)),
        parts_of_file_name(r),
{
    let parent = path_parent(full_path.as_str());
    let file_name = path_file_name(full_path.as_str());
    assert(parent_outcome(full_path@, parent));
    proof {
        if plain_name(full_path@) {
            law_plain_names_have_no_directory(full_path@, file_name, parent);
        }
    }
    let (file_stem, extension): (Option<String>, Option<String>) = match &file_name {
        Some(name) => {
            proof {
                law_stem_and_extension_split_the_name(name@);
            }
            let (stem, extension) = split_file_name(name.as_str());
            (Some(stem), extension)
        },
        None => (None, None),
    };
    describe_path(full_path, parent, file_name, file_stem, extension, exists_on_disk)
}

/// Completes PDB metadata with the description of its path.
pub fn complete_pdb_info(record: PdbRecord, path: PdbPathInfo) -> (r: PdbInfo)
    ensures
        r.format == record.format,
        r.path == path,
        r.guid == record.guid,
        r.signature == record.signature,
        r.age == record.age,
        r.debug_directory_rva == record.debug_directory_rva,
        r.debug_directory_file_offset == record.debug_directory_file_offset,
        r.codeview_rva == record.codeview_rva,
        r.codeview_file_offset == record.codeview_file_offset,
        r.codeview_size == record.codeview_size,
{
    PdbInfo {
        format: record.format,
        path,
        guid: record.guid,
        signature: record.signature,
        age: record.age,
        debug_directory_rva: record.debug_directory_rva,
        debug_directory_file_offset: record.debug_directory_file_offset,
        codeview_rva: record.codeview_rva,
        codeview_file_offset: record.codeview_file_offset,
        codeview_size: record.codeview_size,
    }
}

} // verus!
