//! Documents, stated by what they say under each key.

use vstd::prelude::*;

use crate::debuginfo::pdb::{PdbCodeViewFormat, PdbInfo, PdbInfoCollectionError, PdbPathInfo};
use crate::imports::collector::{
    ProcessImportCollection, ProcessImportCollectionError, ProcessImportInfo, ProcessImportXref,
};
use crate::imports::xrefs::PeIatXrefKind;
use crate::pe::types::{PeSectionInfo, UnavailablePeRange, ValidatedPeImage};
use crate::process::ValidatedProcessPe;
use crate::report::documents::{
    guid_tree, image_facts_tree, image_process_tree, image_snapshot_tree, image_tree, import_tree,
    imports_tree, pdb_info_tree, pdb_path_tree, pdb_tree, peb_tree, range_tree,
    section_content_tree, section_tree, sections_tree, teb_environment_tree, teb_failure_tree,
    teb_thread_tree, teb_tib_tree, teb_tree, teb_trust_tree, tebs_tree, xref_total, xref_tree,
};
use crate::report::errors::{
    import_error_tree, process_teb_error_tree, thread_teb_error_tree,
};
use crate::report::value::JsonTree;
use crate::teb::{
    ProcessTebCollection, ProcessTebCollectionError, ThreadTebFailure, ThreadTebInfo,
};
use crate::text::hexadecimal;
use crate::triage::ProcessTriageCollection;

verus! {

/// Whether an object says `value` under `key`.
pub open spec fn says(document: JsonTree, key: Seq<char>, value: JsonTree) -> bool {
    match document {
        JsonTree::Object(fields) => exists|i: int|
            0 <= i < fields.len() && #[trigger] fields[i] == (key, value),
        _ => false,
    }
}

/// A number written in hexadecimal digits, at least `width` of them.
pub open spec fn written(value: nat, width: nat) -> JsonTree {
    JsonTree::Text("0x"@ + hexadecimal(value, width))
}

/// A number, or nothing.
pub open spec fn number_or_null(value: Option<usize>) -> JsonTree {
    if value is Some {
        JsonTree::Number(value->0 as int)
    } else {
        JsonTree::Null
    }
}

/// A written number, or nothing.
pub open spec fn written_or_null(value: Option<usize>) -> JsonTree {
    if value is Some {
        written(value->0 as nat, 0)
    } else {
        JsonTree::Null
    }
}

/// A text, or nothing.
pub open spec fn text_or_null(value: Option<String>) -> JsonTree {
    if value is Some {
        JsonTree::Text(value->0@)
    } else {
        JsonTree::Null
    }
}

/// The sum of two addresses that has an address.
pub open spec fn sum_of(left: usize, right: usize) -> Option<usize> {
    if left + right <= usize::MAX {
        Some((left + right) as usize)
    } else {
        None
    }
}

/// An unavailable range is told by where it begins and how long it is.
pub proof fn law_range_document(range: UnavailablePeRange)
    ensures
        says(range_tree(range), "rva"@, JsonTree::Number(range.rva as int)),
        says(range_tree(range), "rva_hex"@, written(range.rva as nat, 0)),
        says(range_tree(range), "size"@, JsonTree::Number(range.size as int)),
        says(range_tree(range), "size_hex"@, written(range.size as nat, 0)),
{
    let fields = range_tree(range)->Object_0;
    assert(fields[0] == ("rva"@, JsonTree::Number(range.rva as int)));
    assert(fields[1] == ("rva_hex"@, written(range.rva as nat, 0)));
    assert(fields[2] == ("size"@, JsonTree::Number(range.size as int)));
    assert(fields[3] == ("size_hex"@, written(range.size as nat, 0)));
}

/// What a section holds is told by its marks.
pub proof fn law_section_content_document(characteristics: u32)
    ensures
        says(section_content_tree(characteristics), "code"@, JsonTree::Bool(characteristics & 0x20 != 0)),
        says(section_content_tree(characteristics), "readable"@, JsonTree::Bool(characteristics & 0x4000_0000 != 0)),
        says(section_content_tree(characteristics), "writable"@, JsonTree::Bool(characteristics & 0x8000_0000 != 0)),
        says(section_content_tree(characteristics), "executable"@, JsonTree::Bool(characteristics & 0x2000_0000 != 0)),
{
    let fields = section_content_tree(characteristics)->Object_0;
    assert(fields[0] == ("code"@, JsonTree::Bool(characteristics & 0x20 != 0)));
    assert(fields[1] == ("readable"@, JsonTree::Bool(characteristics & 0x4000_0000 != 0)));
    assert(fields[2] == ("writable"@, JsonTree::Bool(characteristics & 0x8000_0000 != 0)));
    assert(fields[3] == ("executable"@, JsonTree::Bool(characteristics & 0x2000_0000 != 0)));
}

/// A section is told by its place in the table, in memory and in the file.
pub proof fn law_section_document(base: usize, index: int, section: PeSectionInfo)
    ensures
        says(section_tree(base, index, section), "index"@, JsonTree::Number(index)),
        says(section_tree(base, index, section), "name"@, JsonTree::Text(section.name@)),
        says(section_tree(base, index, section), "rva"@, JsonTree::Number(section.rva as int)),
        says(section_tree(base, index, section), "rva_hex"@, written(section.rva as nat, 0)),
        says(section_tree(base, index, section), "address"@, number_or_null(sum_of(base, section.rva))),
        says(section_tree(base, index, section), "address_hex"@, written_or_null(sum_of(base, section.rva))),
        says(section_tree(base, index, section), "virtual_size"@, JsonTree::Number(section.virtual_size as int)),
        says(section_tree(base, index, section), "virtual_size_hex"@, written(section.virtual_size as nat, 0)),
        says(section_tree(base, index, section), "raw_size"@, JsonTree::Number(section.raw_size as int)),
        says(section_tree(base, index, section), "raw_size_hex"@, written(section.raw_size as nat, 0)),
        says(section_tree(base, index, section), "mapped_size"@, JsonTree::Number(section.mapped_size as int)),
        says(section_tree(base, index, section), "mapped_size_hex"@, written(section.mapped_size as nat, 0)),
        says(section_tree(base, index, section), "raw_file_offset"@, JsonTree::Number(section.raw_file_offset as int)),
        says(section_tree(base, index, section), "raw_file_offset_hex"@, written(section.raw_file_offset as nat, 0)),
        says(section_tree(base, index, section), "characteristics"@, JsonTree::Number(section.characteristics as int)),
        says(section_tree(base, index, section), "characteristics_hex"@, written(section.characteristics as nat, 8)),
        says(section_tree(base, index, section), "content"@, section_content_tree(section.characteristics)),
{
    let fields = section_tree(base, index, section)->Object_0;
    assert(fields[0] == ("index"@, JsonTree::Number(index)));
    assert(fields[1] == ("name"@, JsonTree::Text(section.name@)));
    assert(fields[2] == ("rva"@, JsonTree::Number(section.rva as int)));
    assert(fields[3] == ("rva_hex"@, written(section.rva as nat, 0)));
    assert(fields[4] == ("address"@, number_or_null(sum_of(base, section.rva))));
    assert(fields[5] == ("address_hex"@, written_or_null(sum_of(base, section.rva))));
    assert(fields[6] == ("virtual_size"@, JsonTree::Number(section.virtual_size as int)));
    assert(fields[7] == ("virtual_size_hex"@, written(section.virtual_size as nat, 0)));
    assert(fields[8] == ("raw_size"@, JsonTree::Number(section.raw_size as int)));
    assert(fields[9] == ("raw_size_hex"@, written(section.raw_size as nat, 0)));
    assert(fields[10] == ("mapped_size"@, JsonTree::Number(section.mapped_size as int)));
    assert(fields[11] == ("mapped_size_hex"@, written(section.mapped_size as nat, 0)));
    assert(fields[12] == ("raw_file_offset"@, JsonTree::Number(section.raw_file_offset as int)));
    assert(fields[13] == ("raw_file_offset_hex"@, written(section.raw_file_offset as nat, 0)));
    assert(fields[14] == ("characteristics"@, JsonTree::Number(section.characteristics as int)));
    assert(fields[15] == ("characteristics_hex"@, written(section.characteristics as nat, 8)));
    assert(fields[16] == ("content"@, section_content_tree(section.characteristics)));
}

/// An image is told by where it begins and ends, and where it is entered.
pub proof fn law_image_document(image: ValidatedPeImage, offset: Option<usize>)
    ensures
        says(image_facts_tree(image, offset), "base_address"@, JsonTree::Number(image.base_address as int)),
        says(image_facts_tree(image, offset), "base_address_hex"@, written(image.base_address as nat, 0)),
        says(image_facts_tree(image, offset), "end_address"@, number_or_null(sum_of(image.base_address, image.image_size))),
        says(image_facts_tree(image, offset), "end_address_hex"@, written_or_null(sum_of(image.base_address, image.image_size))),
        says(image_facts_tree(image, offset), "size"@, JsonTree::Number(image.image_size as int)),
        says(image_facts_tree(image, offset), "size_hex"@, written(image.image_size as nat, 0)),
        says(image_facts_tree(image, offset), "entry_point_rva"@, JsonTree::Number(image.entry_point_rva as int)),
        says(image_facts_tree(image, offset), "entry_point_rva_hex"@, written(image.entry_point_rva as nat, 0)),
        says(image_facts_tree(image, offset), "entry_point_address"@, number_or_null(sum_of(image.base_address, image.entry_point_rva))),
        says(image_facts_tree(image, offset), "entry_point_address_hex"@, written_or_null(sum_of(image.base_address, image.entry_point_rva))),
        says(image_facts_tree(image, offset), "entry_point_file_offset"@, number_or_null(offset)),
        says(image_facts_tree(image, offset), "entry_point_file_offset_hex"@, written_or_null(offset)),
        says(image_facts_tree(image, offset), "section_count"@, JsonTree::Number(image.section_count as int)),
{
    let fields = image_facts_tree(image, offset)->Object_0;
    assert(fields[0] == ("base_address"@, JsonTree::Number(image.base_address as int)));
    assert(fields[1] == ("base_address_hex"@, written(image.base_address as nat, 0)));
    assert(fields[2] == ("end_address"@, number_or_null(sum_of(image.base_address, image.image_size))));
    assert(fields[3] == ("end_address_hex"@, written_or_null(sum_of(image.base_address, image.image_size))));
    assert(fields[4] == ("size"@, JsonTree::Number(image.image_size as int)));
    assert(fields[5] == ("size_hex"@, written(image.image_size as nat, 0)));
    assert(fields[6] == ("entry_point_rva"@, JsonTree::Number(image.entry_point_rva as int)));
    assert(fields[7] == ("entry_point_rva_hex"@, written(image.entry_point_rva as nat, 0)));
    assert(fields[8] == ("entry_point_address"@, number_or_null(sum_of(image.base_address, image.entry_point_rva))));
    assert(fields[9] == ("entry_point_address_hex"@, written_or_null(sum_of(image.base_address, image.entry_point_rva))));
    assert(fields[10] == ("entry_point_file_offset"@, number_or_null(offset)));
    assert(fields[11] == ("entry_point_file_offset_hex"@, written_or_null(offset)));
    assert(fields[12] == ("section_count"@, JsonTree::Number(image.section_count as int)));
}

/// A reference is told by its form and its instruction.
pub proof fn law_reference_document(xref: ProcessImportXref)
    ensures
        says(xref_tree(xref), "kind"@, JsonTree::Text(if xref.kind == PeIatXrefKind::Call { "call"@ } else { "jump"@ })),
        says(xref_tree(xref), "instruction_rva"@, JsonTree::Number(xref.instruction_rva as int)),
        says(xref_tree(xref), "instruction_rva_hex"@, written(xref.instruction_rva as nat, 0)),
        says(xref_tree(xref), "instruction_address"@, number_or_null(xref.instruction_address)),
        says(xref_tree(xref), "instruction_address_hex"@, written_or_null(xref.instruction_address)),
        says(xref_tree(xref), "instruction_file_offset"@, number_or_null(xref.instruction_file_offset)),
        says(xref_tree(xref), "instruction_file_offset_hex"@, written_or_null(xref.instruction_file_offset)),
{
    let fields = xref_tree(xref)->Object_0;
    assert(fields[0] == ("kind"@, JsonTree::Text(if xref.kind == PeIatXrefKind::Call { "call"@ } else { "jump"@ })));
    assert(fields[1] == ("instruction_rva"@, JsonTree::Number(xref.instruction_rva as int)));
    assert(fields[2] == ("instruction_rva_hex"@, written(xref.instruction_rva as nat, 0)));
    assert(fields[3] == ("instruction_address"@, number_or_null(xref.instruction_address)));
    assert(fields[4] == ("instruction_address_hex"@, written_or_null(xref.instruction_address)));
    assert(fields[5] == ("instruction_file_offset"@, number_or_null(xref.instruction_file_offset)));
    assert(fields[6] == ("instruction_file_offset_hex"@, written_or_null(xref.instruction_file_offset)));
}

/// An import is told by its names, its slot and its references.
pub proof fn law_import_document(import: ProcessImportInfo)
    ensures
        says(import_tree(import), "library"@, JsonTree::Text(import.library_name@)),
        says(import_tree(import), "function"@, JsonTree::Text(import.function_name@)),
        says(import_tree(import), "iat_rva"@, JsonTree::Number(import.iat_rva as int)),
        says(import_tree(import), "iat_rva_hex"@, written(import.iat_rva as nat, 0)),
        says(import_tree(import), "iat_address"@, number_or_null(import.iat_address)),
        says(import_tree(import), "iat_address_hex"@, written_or_null(import.iat_address)),
        says(import_tree(import), "iat_file_offset"@, number_or_null(import.iat_file_offset)),
        says(import_tree(import), "iat_file_offset_hex"@, written_or_null(import.iat_file_offset)),
        says(import_tree(import), "xref_count"@, JsonTree::Number(import.xrefs@.len() as int)),
        says(import_tree(import), "xrefs"@, JsonTree::List(import.xrefs@.map_values(|xref: ProcessImportXref| xref_tree(xref)))),
{
    let fields = import_tree(import)->Object_0;
    assert(fields[0] == ("library"@, JsonTree::Text(import.library_name@)));
    assert(fields[1] == ("function"@, JsonTree::Text(import.function_name@)));
    assert(fields[3] == ("iat_rva"@, JsonTree::Number(import.iat_rva as int)));
    assert(fields[4] == ("iat_rva_hex"@, written(import.iat_rva as nat, 0)));
    assert(fields[5] == ("iat_address"@, number_or_null(import.iat_address)));
    assert(fields[6] == ("iat_address_hex"@, written_or_null(import.iat_address)));
    assert(fields[7] == ("iat_file_offset"@, number_or_null(import.iat_file_offset)));
    assert(fields[8] == ("iat_file_offset_hex"@, written_or_null(import.iat_file_offset)));
    assert(fields[9] == ("xref_count"@, JsonTree::Number(import.xrefs@.len() as int)));
    assert(fields[10].1->List_0 =~= import.xrefs@.map_values(|xref: ProcessImportXref| xref_tree(xref)));
    assert(fields[10] == ("xrefs"@, JsonTree::List(import.xrefs@.map_values(|xref: ProcessImportXref| xref_tree(xref)))));
}

/// The path of a program database is told whole and by its parts.
pub proof fn law_path_document(path: PdbPathInfo)
    ensures
        says(pdb_path_tree(path), "full"@, JsonTree::Text(path.full_path@)),
        says(pdb_path_tree(path), "directory"@, text_or_null(path.directory)),
        says(pdb_path_tree(path), "file_name"@, text_or_null(path.file_name)),
        says(pdb_path_tree(path), "file_stem"@, text_or_null(path.file_stem)),
        says(pdb_path_tree(path), "extension"@, text_or_null(path.extension)),
        says(pdb_path_tree(path), "exists_on_disk"@, JsonTree::Bool(path.exists_on_disk)),
{
    let fields = pdb_path_tree(path)->Object_0;
    assert(fields[0] == ("full"@, JsonTree::Text(path.full_path@)));
    assert(fields[1] == ("directory"@, text_or_null(path.directory)));
    assert(fields[2] == ("file_name"@, text_or_null(path.file_name)));
    assert(fields[3] == ("file_stem"@, text_or_null(path.file_stem)));
    assert(fields[4] == ("extension"@, text_or_null(path.extension)));
    assert(fields[5] == ("exists_on_disk"@, JsonTree::Bool(path.exists_on_disk)));
}

/// A program database is told by its format, its path, its identity and its record.
pub proof fn law_pdb_document(info: PdbInfo)
    ensures
        says(pdb_info_tree(info), "format"@, JsonTree::Text(if info.format == PdbCodeViewFormat::Rsds { "rsds"@ } else { "nb10"@ })),
        says(pdb_info_tree(info), "path"@, pdb_path_tree(info.path)),
        says(pdb_info_tree(info), "age"@, JsonTree::Number(info.age as int)),
        says(pdb_info_tree(info), "debug_directory_rva"@, JsonTree::Number(info.debug_directory_rva as int)),
        says(pdb_info_tree(info), "debug_directory_rva_hex"@, written(info.debug_directory_rva as nat, 0)),
        says(pdb_info_tree(info), "debug_directory_file_offset"@, number_or_null(info.debug_directory_file_offset)),
        says(pdb_info_tree(info), "debug_directory_file_offset_hex"@, written_or_null(info.debug_directory_file_offset)),
        says(pdb_info_tree(info), "codeview_rva"@, JsonTree::Number(info.codeview_rva as int)),
        says(pdb_info_tree(info), "codeview_rva_hex"@, written(info.codeview_rva as nat, 0)),
        says(pdb_info_tree(info), "codeview_file_offset"@, number_or_null(info.codeview_file_offset)),
        says(pdb_info_tree(info), "codeview_file_offset_hex"@, written_or_null(info.codeview_file_offset)),
        says(pdb_info_tree(info), "codeview_size"@, JsonTree::Number(info.codeview_size as int)),
        says(pdb_info_tree(info), "codeview_size_hex"@, written(info.codeview_size as nat, 0)),
{
    let fields = pdb_info_tree(info)->Object_0;
    assert(fields[0] == ("format"@, JsonTree::Text(if info.format == PdbCodeViewFormat::Rsds { "rsds"@ } else { "nb10"@ })));
    assert(fields[1] == ("path"@, pdb_path_tree(info.path)));
    assert(fields[5] == ("age"@, JsonTree::Number(info.age as int)));
    assert(fields[6] == ("debug_directory_rva"@, JsonTree::Number(info.debug_directory_rva as int)));
    assert(fields[7] == ("debug_directory_rva_hex"@, written(info.debug_directory_rva as nat, 0)));
    assert(fields[8] == ("debug_directory_file_offset"@, number_or_null(info.debug_directory_file_offset)));
    assert(fields[9] == ("debug_directory_file_offset_hex"@, written_or_null(info.debug_directory_file_offset)));
    assert(fields[10] == ("codeview_rva"@, JsonTree::Number(info.codeview_rva as int)));
    assert(fields[11] == ("codeview_rva_hex"@, written(info.codeview_rva as nat, 0)));
    assert(fields[12] == ("codeview_file_offset"@, number_or_null(info.codeview_file_offset)));
    assert(fields[13] == ("codeview_file_offset_hex"@, written_or_null(info.codeview_file_offset)));
    assert(fields[14] == ("codeview_size"@, JsonTree::Number(info.codeview_size as int)));
    assert(fields[15] == ("codeview_size_hex"@, written(info.codeview_size as nat, 0)));
}

/// The PEB of a process is told with its image.
pub proof fn law_peb_document(process: ValidatedProcessPe)
    ensures
        says(peb_tree(process), "status"@, JsonTree::Text("validated"@)),
        says(peb_tree(process), "process_id"@, JsonTree::Number(process.process_id as int)),
        says(peb_tree(process), "process_id_hex"@, written(process.process_id as nat, 0)),
        says(peb_tree(process), "peb_address"@, JsonTree::Number(process.peb_address as int)),
        says(peb_tree(process), "peb_address_hex"@, written(process.peb_address as nat, 0)),
        says(peb_tree(process), "being_debugged"@, JsonTree::Bool(process.being_debugged)),
        says(peb_tree(process), "main_image_base_address"@, JsonTree::Number(process.image.base_address as int)),
        says(peb_tree(process), "main_image_base_address_hex"@, written(process.image.base_address as nat, 0)),
        says(peb_tree(process), "main_image_path"@, JsonTree::Text(process.image_path@)),
{
    let fields = peb_tree(process)->Object_0;
    assert(fields[1] == ("status"@, JsonTree::Text("validated"@)));
    assert(fields[2] == ("process_id"@, JsonTree::Number(process.process_id as int)));
    assert(fields[3] == ("process_id_hex"@, written(process.process_id as nat, 0)));
    assert(fields[4] == ("peb_address"@, JsonTree::Number(process.peb_address as int)));
    assert(fields[5] == ("peb_address_hex"@, written(process.peb_address as nat, 0)));
    assert(fields[6] == ("being_debugged"@, JsonTree::Bool(process.being_debugged)));
    assert(fields[7] == ("main_image_base_address"@, JsonTree::Number(process.image.base_address as int)));
    assert(fields[8] == ("main_image_base_address_hex"@, written(process.image.base_address as nat, 0)));
    assert(fields[9] == ("main_image_path"@, JsonTree::Text(process.image_path@)));
}

/// A thread is told by its identifier and how it runs.
pub proof fn law_thread_document(teb: ThreadTebInfo)
    ensures
        says(teb_thread_tree(teb), "thread_id"@, JsonTree::Number(teb.thread_id as int)),
        says(teb_thread_tree(teb), "thread_id_hex"@, written(teb.thread_id as nat, 0)),
        says(teb_thread_tree(teb), "exit_status"@, JsonTree::Number(teb.exit_status as int)),
        says(teb_thread_tree(teb), "affinity_mask"@, JsonTree::Number(teb.affinity_mask as int)),
        says(teb_thread_tree(teb), "affinity_mask_hex"@, written(teb.affinity_mask as nat, 0)),
        says(teb_thread_tree(teb), "priority"@, JsonTree::Number(teb.priority as int)),
        says(teb_thread_tree(teb), "base_priority"@, JsonTree::Number(teb.base_priority as int)),
{
    let fields = teb_thread_tree(teb)->Object_0;
    assert(fields[0] == ("thread_id"@, JsonTree::Number(teb.thread_id as int)));
    assert(fields[1] == ("thread_id_hex"@, written(teb.thread_id as nat, 0)));
    assert(fields[2] == ("exit_status"@, JsonTree::Number(teb.exit_status as int)));
    assert(fields[4] == ("affinity_mask"@, JsonTree::Number(teb.affinity_mask as int)));
    assert(fields[5] == ("affinity_mask_hex"@, written(teb.affinity_mask as nat, 0)));
    assert(fields[6] == ("priority"@, JsonTree::Number(teb.priority as int)));
    assert(fields[7] == ("base_priority"@, JsonTree::Number(teb.base_priority as int)));
}

/// The information block of a thread is told by its addresses and its stack.
pub proof fn law_stack_document(teb: ThreadTebInfo)
    ensures
        says(teb_tib_tree(teb), "exception_list"@, JsonTree::Number(teb.exception_list as int)),
        says(teb_tib_tree(teb), "exception_list_hex"@, written(teb.exception_list as nat, 0)),
        says(teb_tib_tree(teb), "stack_base"@, JsonTree::Number(teb.stack_base as int)),
        says(teb_tib_tree(teb), "stack_base_hex"@, written(teb.stack_base as nat, 0)),
        says(teb_tib_tree(teb), "stack_limit"@, JsonTree::Number(teb.stack_limit as int)),
        says(teb_tib_tree(teb), "stack_limit_hex"@, written(teb.stack_limit as nat, 0)),
        says(teb_tib_tree(teb), "stack_size_bytes"@, number_or_null(teb.stack_size_bytes)),
        says(teb_tib_tree(teb), "stack_size_hex"@, written_or_null(teb.stack_size_bytes)),
        says(teb_tib_tree(teb), "subsystem_tib"@, JsonTree::Number(teb.subsystem_tib as int)),
        says(teb_tib_tree(teb), "subsystem_tib_hex"@, written(teb.subsystem_tib as nat, 0)),
        says(teb_tib_tree(teb), "fiber_data_or_version"@, JsonTree::Number(teb.fiber_data_or_version as int)),
        says(teb_tib_tree(teb), "fiber_data_or_version_hex"@, written(teb.fiber_data_or_version as nat, 0)),
        says(teb_tib_tree(teb), "arbitrary_user_pointer"@, JsonTree::Number(teb.arbitrary_user_pointer as int)),
        says(teb_tib_tree(teb), "arbitrary_user_pointer_hex"@, written(teb.arbitrary_user_pointer as nat, 0)),
        says(teb_tib_tree(teb), "self_address"@, JsonTree::Number(teb.self_address as int)),
        says(teb_tib_tree(teb), "self_address_hex"@, written(teb.self_address as nat, 0)),
{
    let fields = teb_tib_tree(teb)->Object_0;
    assert(fields[0] == ("exception_list"@, JsonTree::Number(teb.exception_list as int)));
    assert(fields[1] == ("exception_list_hex"@, written(teb.exception_list as nat, 0)));
    assert(fields[2] == ("stack_base"@, JsonTree::Number(teb.stack_base as int)));
    assert(fields[3] == ("stack_base_hex"@, written(teb.stack_base as nat, 0)));
    assert(fields[4] == ("stack_limit"@, JsonTree::Number(teb.stack_limit as int)));
    assert(fields[5] == ("stack_limit_hex"@, written(teb.stack_limit as nat, 0)));
    assert(fields[6] == ("stack_size_bytes"@, number_or_null(teb.stack_size_bytes)));
    assert(fields[7] == ("stack_size_hex"@, written_or_null(teb.stack_size_bytes)));
    assert(fields[8] == ("subsystem_tib"@, JsonTree::Number(teb.subsystem_tib as int)));
    assert(fields[9] == ("subsystem_tib_hex"@, written(teb.subsystem_tib as nat, 0)));
    assert(fields[10] == ("fiber_data_or_version"@, JsonTree::Number(teb.fiber_data_or_version as int)));
    assert(fields[11] == ("fiber_data_or_version_hex"@, written(teb.fiber_data_or_version as nat, 0)));
    assert(fields[12] == ("arbitrary_user_pointer"@, JsonTree::Number(teb.arbitrary_user_pointer as int)));
    assert(fields[13] == ("arbitrary_user_pointer_hex"@, written(teb.arbitrary_user_pointer as nat, 0)));
    assert(fields[14] == ("self_address"@, JsonTree::Number(teb.self_address as int)));
    assert(fields[15] == ("self_address_hex"@, written(teb.self_address as nat, 0)));
}

/// A TEB is trusted with the process exactly when it names itself, the process, the thread and the PEB.
pub proof fn law_trust_document(teb: ThreadTebInfo, peb: usize)
    ensures
        says(teb_trust_tree(teb, peb), "self_pointer_matches"@, JsonTree::Bool(teb.self_pointer_matches)),
        says(teb_trust_tree(teb, peb), "client_process_id_matches"@, JsonTree::Bool(teb.client_process_id_matches)),
        says(teb_trust_tree(teb, peb), "client_thread_id_matches"@, JsonTree::Bool(teb.client_thread_id_matches)),
        says(teb_trust_tree(teb, peb), "process_environment_block_matches"@, JsonTree::Bool(teb.process_environment_block == peb)),
        says(teb_trust_tree(teb, peb), "identity_matches"@, JsonTree::Bool(teb.self_pointer_matches && teb.client_process_id_matches && teb.client_thread_id_matches && teb.process_environment_block == peb)),
{
    let fields = teb_trust_tree(teb, peb)->Object_0;
    assert(fields[0] == ("self_pointer_matches"@, JsonTree::Bool(teb.self_pointer_matches)));
    assert(fields[1] == ("client_process_id_matches"@, JsonTree::Bool(teb.client_process_id_matches)));
    assert(fields[2] == ("client_thread_id_matches"@, JsonTree::Bool(teb.client_thread_id_matches)));
    assert(fields[3] == ("process_environment_block_matches"@, JsonTree::Bool(teb.process_environment_block == peb)));
    assert(fields[4] == ("identity_matches"@, JsonTree::Bool(teb.self_pointer_matches && teb.client_process_id_matches && teb.client_thread_id_matches && teb.process_environment_block == peb)));
}

/// Every section of an image is in the document, in order.
pub proof fn law_sections_document(collection: ProcessTriageCollection)
    ensures
        says(sections_tree(collection), "schema_version"@, JsonTree::Number(4)),
        says(sections_tree(collection), "status"@, JsonTree::Text("collected"@)),
        says(sections_tree(collection), "count"@, JsonTree::Number(collection.sections@.len() as int)),
        says(sections_tree(collection), "sections"@, JsonTree::List(Seq::new(collection.sections@.len(), |i: int| section_tree(collection.validated_process.image.base_address, i, collection.sections@[i])))),
{
    let fields = sections_tree(collection)->Object_0;
    assert(fields[0] == ("schema_version"@, JsonTree::Number(4)));
    assert(fields[1] == ("status"@, JsonTree::Text("collected"@)));
    assert(fields[2] == ("count"@, JsonTree::Number(collection.sections@.len() as int)));
    assert(fields[3].1->List_0 =~= Seq::new(collection.sections@.len(), |i: int| section_tree(collection.validated_process.image.base_address, i, collection.sections@[i])));
    assert(fields[3] == ("sections"@, JsonTree::List(Seq::new(collection.sections@.len(), |i: int| section_tree(collection.validated_process.image.base_address, i, collection.sections@[i])))));
}

/// Every import is in the document, in order; it is partial exactly when bytes of the image are unavailable.
pub proof fn law_imports_document(imports: ProcessImportCollection)
    ensures
        says(imports_tree(Ok(imports)), "schema_version"@, JsonTree::Number(4)),
        says(imports_tree(Ok(imports)), "status"@, JsonTree::Text(if imports.unavailable_ranges@.len() == 0 { "collected"@ } else { "partial"@ })),
        says(imports_tree(Ok(imports)), "module_base_address"@, JsonTree::Number(imports.module_base_address as int)),
        says(imports_tree(Ok(imports)), "module_base_address_hex"@, written(imports.module_base_address as nat, 0)),
        says(imports_tree(Ok(imports)), "module_size"@, JsonTree::Number(imports.module_size as int)),
        says(imports_tree(Ok(imports)), "module_size_hex"@, written(imports.module_size as nat, 0)),
        says(imports_tree(Ok(imports)), "import_count"@, JsonTree::Number(imports.imports@.len() as int)),
        says(imports_tree(Ok(imports)), "unavailable_ranges"@, JsonTree::List(imports.unavailable_ranges@.map_values(|range: UnavailablePeRange| range_tree(range)))),
        says(imports_tree(Ok(imports)), "imports"@, JsonTree::List(imports.imports@.map_values(|import: ProcessImportInfo| import_tree(import)))),
{
    let fields = imports_tree(Ok(imports))->Object_0;
    assert(fields[0] == ("schema_version"@, JsonTree::Number(4)));
    assert(fields[1] == ("status"@, JsonTree::Text(if imports.unavailable_ranges@.len() == 0 { "collected"@ } else { "partial"@ })));
    assert(fields[3] == ("module_base_address"@, JsonTree::Number(imports.module_base_address as int)));
    assert(fields[4] == ("module_base_address_hex"@, written(imports.module_base_address as nat, 0)));
    assert(fields[5] == ("module_size"@, JsonTree::Number(imports.module_size as int)));
    assert(fields[6] == ("module_size_hex"@, written(imports.module_size as nat, 0)));
    assert(fields[7] == ("import_count"@, JsonTree::Number(imports.imports@.len() as int)));
    assert(fields[9].1->List_0 =~= imports.unavailable_ranges@.map_values(|range: UnavailablePeRange| range_tree(range)));
    assert(fields[9] == ("unavailable_ranges"@, JsonTree::List(imports.unavailable_ranges@.map_values(|range: UnavailablePeRange| range_tree(range)))));
    assert(fields[10].1->List_0 =~= imports.imports@.map_values(|import: ProcessImportInfo| import_tree(import)));
    assert(fields[10] == ("imports"@, JsonTree::List(imports.imports@.map_values(|import: ProcessImportInfo| import_tree(import)))));
}

/// Every TEB and every failure is in the document, in order; it is partial exactly when a thread failed.
pub proof fn law_tebs_document(tebs: ProcessTebCollection, peb: usize)
    ensures
        says(tebs_tree(Ok(tebs), peb), "schema_version"@, JsonTree::Number(4)),
        says(tebs_tree(Ok(tebs), peb), "status"@, JsonTree::Text(if tebs.failures@.len() == 0 { "collected"@ } else { "partial"@ })),
        says(tebs_tree(Ok(tebs), peb), "process_id"@, JsonTree::Number(tebs.process_id as int)),
        says(tebs_tree(Ok(tebs), peb), "process_id_hex"@, written(tebs.process_id as nat, 0)),
        says(tebs_tree(Ok(tebs), peb), "teb_count"@, JsonTree::Number(tebs.tebs@.len() as int)),
        says(tebs_tree(Ok(tebs), peb), "failure_count"@, JsonTree::Number(tebs.failures@.len() as int)),
        says(tebs_tree(Ok(tebs), peb), "tebs"@, JsonTree::List(tebs.tebs@.map_values(|teb: ThreadTebInfo| teb_tree(teb, peb)))),
        says(tebs_tree(Ok(tebs), peb), "failures"@, JsonTree::List(tebs.failures@.map_values(|failure: ThreadTebFailure| teb_failure_tree(failure)))),
{
    let fields = tebs_tree(Ok(tebs), peb)->Object_0;
    assert(fields[0] == ("schema_version"@, JsonTree::Number(4)));
    assert(fields[1] == ("status"@, JsonTree::Text(if tebs.failures@.len() == 0 { "collected"@ } else { "partial"@ })));
    assert(fields[2] == ("process_id"@, JsonTree::Number(tebs.process_id as int)));
    assert(fields[3] == ("process_id_hex"@, written(tebs.process_id as nat, 0)));
    assert(fields[4] == ("teb_count"@, JsonTree::Number(tebs.tebs@.len() as int)));
    assert(fields[5] == ("failure_count"@, JsonTree::Number(tebs.failures@.len() as int)));
    assert(fields[6].1->List_0 =~= tebs.tebs@.map_values(|teb: ThreadTebInfo| teb_tree(teb, peb)));
    assert(fields[6] == ("tebs"@, JsonTree::List(tebs.tebs@.map_values(|teb: ThreadTebInfo| teb_tree(teb, peb)))));
    assert(fields[7].1->List_0 =~= tebs.failures@.map_values(|failure: ThreadTebFailure| teb_failure_tree(failure)));
    assert(fields[7] == ("failures"@, JsonTree::List(tebs.failures@.map_values(|failure: ThreadTebFailure| teb_failure_tree(failure)))));
}

/// The environment of a thread is told by its pointers and identifiers.
pub proof fn law_environment_document(teb: ThreadTebInfo)
    ensures
        says(teb_environment_tree(teb), "environment_pointer"@, JsonTree::Number(teb.environment_pointer as int)),
        says(teb_environment_tree(teb), "environment_pointer_hex"@, written(teb.environment_pointer as nat, 0)),
        says(teb_environment_tree(teb), "client_process_id"@, JsonTree::Number(teb.client_process_id as int)),
        says(teb_environment_tree(teb), "client_process_id_hex"@, written(teb.client_process_id as nat, 0)),
        says(teb_environment_tree(teb), "client_thread_id"@, JsonTree::Number(teb.client_thread_id as int)),
        says(teb_environment_tree(teb), "client_thread_id_hex"@, written(teb.client_thread_id as nat, 0)),
        says(teb_environment_tree(teb), "active_rpc_handle"@, JsonTree::Number(teb.active_rpc_handle as int)),
        says(teb_environment_tree(teb), "active_rpc_handle_hex"@, written(teb.active_rpc_handle as nat, 0)),
        says(teb_environment_tree(teb), "thread_local_storage_pointer"@, JsonTree::Number(teb.thread_local_storage_pointer as int)),
        says(teb_environment_tree(teb), "thread_local_storage_pointer_hex"@, written(teb.thread_local_storage_pointer as nat, 0)),
        says(teb_environment_tree(teb), "process_environment_block"@, JsonTree::Number(teb.process_environment_block as int)),
        says(teb_environment_tree(teb), "process_environment_block_hex"@, written(teb.process_environment_block as nat, 0)),
{
    let fields = teb_environment_tree(teb)->Object_0;
    assert(fields[0] == ("environment_pointer"@, JsonTree::Number(teb.environment_pointer as int)));
    assert(fields[1] == ("environment_pointer_hex"@, written(teb.environment_pointer as nat, 0)));
    assert(fields[2] == ("client_process_id"@, JsonTree::Number(teb.client_process_id as int)));
    assert(fields[3] == ("client_process_id_hex"@, written(teb.client_process_id as nat, 0)));
    assert(fields[4] == ("client_thread_id"@, JsonTree::Number(teb.client_thread_id as int)));
    assert(fields[5] == ("client_thread_id_hex"@, written(teb.client_thread_id as nat, 0)));
    assert(fields[6] == ("active_rpc_handle"@, JsonTree::Number(teb.active_rpc_handle as int)));
    assert(fields[7] == ("active_rpc_handle_hex"@, written(teb.active_rpc_handle as nat, 0)));
    assert(fields[8] == ("thread_local_storage_pointer"@, JsonTree::Number(teb.thread_local_storage_pointer as int)));
    assert(fields[9] == ("thread_local_storage_pointer_hex"@, written(teb.thread_local_storage_pointer as nat, 0)));
    assert(fields[10] == ("process_environment_block"@, JsonTree::Number(teb.process_environment_block as int)));
    assert(fields[11] == ("process_environment_block_hex"@, written(teb.process_environment_block as nat, 0)));
}

/// A TEB is told by its address, its thread, its blocks and what speaks for it.
pub proof fn law_teb_document(teb: ThreadTebInfo, peb: usize)
    ensures
        says(teb_tree(teb, peb), "teb_address"@, JsonTree::Number(teb.teb_address as int)),
        says(teb_tree(teb, peb), "teb_address_hex"@, written(teb.teb_address as nat, 0)),
        says(teb_tree(teb, peb), "thread"@, teb_thread_tree(teb)),
        says(teb_tree(teb, peb), "nt_tib"@, teb_tib_tree(teb)),
        says(teb_tree(teb, peb), "environment"@, teb_environment_tree(teb)),
        says(teb_tree(teb, peb), "trust"@, teb_trust_tree(teb, peb)),
{
    let fields = teb_tree(teb, peb)->Object_0;
    assert(fields[0] == ("teb_address"@, JsonTree::Number(teb.teb_address as int)));
    assert(fields[1] == ("teb_address_hex"@, written(teb.teb_address as nat, 0)));
    assert(fields[2] == ("thread"@, teb_thread_tree(teb)));
    assert(fields[3] == ("nt_tib"@, teb_tib_tree(teb)));
    assert(fields[4] == ("environment"@, teb_environment_tree(teb)));
    assert(fields[5] == ("trust"@, teb_trust_tree(teb, peb)));
}

/// A failed thread is told by its identifier and its failure.
pub proof fn law_failed_thread_document(failure: ThreadTebFailure)
    ensures
        says(teb_failure_tree(failure), "thread_id"@, JsonTree::Number(failure.thread_id as int)),
        says(teb_failure_tree(failure), "thread_id_hex"@, written(failure.thread_id as nat, 0)),
        says(teb_failure_tree(failure), "error"@, thread_teb_error_tree(failure.error)),
{
    let fields = teb_failure_tree(failure)->Object_0;
    assert(fields[0] == ("thread_id"@, JsonTree::Number(failure.thread_id as int)));
    assert(fields[1] == ("thread_id_hex"@, written(failure.thread_id as nat, 0)));
    assert(fields[2] == ("error"@, thread_teb_error_tree(failure.error)));
}

/// The target is told by its process, the access to it, its path and its digest.
pub proof fn law_target_document(collection: ProcessTriageCollection, sha256: Seq<char>, file_name: Option<String>)
    ensures
        says(image_process_tree(collection, sha256, file_name), "process_id"@, JsonTree::Number(collection.validated_process.process_id as int)),
        says(image_process_tree(collection, sha256, file_name), "process_id_hex"@, written(collection.validated_process.process_id as nat, 0)),
        says(image_process_tree(collection, sha256, file_name), "granted_access"@, JsonTree::Number(collection.granted_access as int)),
        says(image_process_tree(collection, sha256, file_name), "granted_access_hex"@, written(collection.granted_access as nat, 8)),
        says(image_process_tree(collection, sha256, file_name), "image_path"@, JsonTree::Text(collection.validated_process.image_path@)),
        says(image_process_tree(collection, sha256, file_name), "image_file_name"@, text_or_null(file_name)),
        says(image_process_tree(collection, sha256, file_name), "sha256"@, JsonTree::Text(sha256)),
        says(image_process_tree(collection, sha256, file_name), "sha256_source"@, JsonTree::Text(if collection.backing_file_sha256 is Some { "retained_disk_path_file_bytes"@ } else { "mapped_image_snapshot_bytes"@ })),
{
    let fields = image_process_tree(collection, sha256, file_name)->Object_0;
    assert(fields[0] == ("process_id"@, JsonTree::Number(collection.validated_process.process_id as int)));
    assert(fields[1] == ("process_id_hex"@, written(collection.validated_process.process_id as nat, 0)));
    assert(fields[2] == ("granted_access"@, JsonTree::Number(collection.granted_access as int)));
    assert(fields[3] == ("granted_access_hex"@, written(collection.granted_access as nat, 8)));
    assert(fields[4] == ("image_path"@, JsonTree::Text(collection.validated_process.image_path@)));
    assert(fields[5] == ("image_file_name"@, text_or_null(file_name)));
    assert(fields[6] == ("sha256"@, JsonTree::Text(sha256)));
    assert(fields[7] == ("sha256_source"@, JsonTree::Text(if collection.backing_file_sha256 is Some { "retained_disk_path_file_bytes"@ } else { "mapped_image_snapshot_bytes"@ })));
}

/// A snapshot is complete exactly when no range is unavailable, and every such range is told.
pub proof fn law_snapshot_document(ranges: Seq<UnavailablePeRange>)
    ensures
        says(image_snapshot_tree(ranges), "complete"@, JsonTree::Bool(ranges.len() == 0)),
        says(image_snapshot_tree(ranges), "unavailable_range_count"@, JsonTree::Number(ranges.len() as int)),
        says(image_snapshot_tree(ranges), "unavailable_ranges"@, JsonTree::List(ranges.map_values(|range: UnavailablePeRange| range_tree(range)))),
{
    let fields = image_snapshot_tree(ranges)->Object_0;
    assert(fields[0] == ("complete"@, JsonTree::Bool(ranges.len() == 0)));
    assert(fields[1] == ("unavailable_range_count"@, JsonTree::Number(ranges.len() as int)));
    assert(fields[2].1->List_0 =~= ranges.map_values(|range: UnavailablePeRange| range_tree(range)));
    assert(fields[2] == ("unavailable_ranges"@, JsonTree::List(ranges.map_values(|range: UnavailablePeRange| range_tree(range)))));
}

/// The image document is partial exactly when a range is unavailable.
pub proof fn law_whole_image_document(collection: ProcessTriageCollection, sha256: Seq<char>, file_name: Option<String>)
    ensures
        says(image_tree(collection, sha256, file_name), "schema_version"@, JsonTree::Number(4)),
        says(image_tree(collection, sha256, file_name), "status"@, JsonTree::Text(if collection.unavailable_image_ranges@.len() == 0 { "collected"@ } else { "partial"@ })),
        says(image_tree(collection, sha256, file_name), "process"@, image_process_tree(collection, sha256, file_name)),
        says(image_tree(collection, sha256, file_name), "image"@, image_facts_tree(collection.validated_process.image, collection.entry_point_file_offset)),
        says(image_tree(collection, sha256, file_name), "snapshot"@, image_snapshot_tree(collection.unavailable_image_ranges@)),
{
    let fields = image_tree(collection, sha256, file_name)->Object_0;
    assert(fields[0] == ("schema_version"@, JsonTree::Number(4)));
    assert(fields[1] == ("status"@, JsonTree::Text(if collection.unavailable_image_ranges@.len() == 0 { "collected"@ } else { "partial"@ })));
    assert(fields[2] == ("process"@, image_process_tree(collection, sha256, file_name)));
    assert(fields[3] == ("image"@, image_facts_tree(collection.validated_process.image, collection.entry_point_file_offset)));
    assert(fields[4] == ("snapshot"@, image_snapshot_tree(collection.unavailable_image_ranges@)));
}

/// The document of a program database tells whether one was found, is absent, or could not be read.
pub proof fn law_pdb_status(pdb: Result<Option<PdbInfo>, PdbInfoCollectionError>)
    ensures
        pdb is Ok && pdb->Ok_0 is Some ==> says(pdb_tree(pdb), "status"@, JsonTree::Text("found"@))
            && says(pdb_tree(pdb), "pdb"@, pdb_info_tree(pdb->Ok_0->0)),
        pdb is Ok && pdb->Ok_0 is None ==> says(
            pdb_tree(pdb),
            "status"@,
            JsonTree::Text("not_present"@),
        ) && says(pdb_tree(pdb), "pdb"@, JsonTree::Null),
        pdb is Err ==> says(pdb_tree(pdb), "status"@, JsonTree::Text("incomplete"@)),
{
    let fields = pdb_tree(pdb)->Object_0;
    assert(fields[1].0 == "status"@);
    assert(pdb is Ok ==> fields[2].0 == "pdb"@);
}

/// The references of one more import are added to the total.
pub proof fn law_reference_totals(imports: Seq<ProcessImportInfo>, count: int)
    requires
        0 <= count < imports.len(),
        xref_total(imports, count) + imports[count].xrefs@.len() <= usize::MAX,
    ensures
        xref_total(imports, 0) == 0,
        xref_total(imports, count + 1) == xref_total(imports, count) + imports[count].xrefs@.len(),
{
}

/// An import by name has no ordinal in its document, any other has it.
pub proof fn law_ordinal_in_document(import: ProcessImportInfo)
    ensures
        import.ordinal is Some ==> says(
            import_tree(import),
            "ordinal"@,
            JsonTree::Number(import.ordinal->0 as int),
        ),
        import.ordinal is None ==> says(import_tree(import), "ordinal"@, JsonTree::Null),
{
    assert(import_tree(import)->Object_0[2].0 == "ordinal"@);
}

/// The identity of a program database is in its document: a GUID with its parts, or a signature.
pub proof fn law_pdb_identity_in_document(info: PdbInfo)
    ensures
        info.signature is Some ==> says(
            pdb_info_tree(info),
            "signature"@,
            JsonTree::Number(info.signature->0 as int),
        ) && says(pdb_info_tree(info), "signature_hex"@, written(info.signature->0 as nat, 8)),
        info.signature is None ==> says(pdb_info_tree(info), "signature"@, JsonTree::Null),
        info.guid is None ==> says(pdb_info_tree(info), "guid"@, JsonTree::Null),
        info.guid is Some ==> says(pdb_info_tree(info), "guid"@, guid_tree(info.guid->0)),
        info.guid is Some ==> says(
            guid_tree(info.guid->0),
            "data1"@,
            JsonTree::Number(info.guid->0.data1 as int),
        ) && says(guid_tree(info.guid->0), "data2"@, JsonTree::Number(info.guid->0.data2 as int))
            && says(guid_tree(info.guid->0), "data3"@, JsonTree::Number(info.guid->0.data3 as int))
            && says(
            guid_tree(info.guid->0),
            "data4"@,
            JsonTree::List(info.guid->0.data4@.map_values(|byte: u8| JsonTree::Number(byte as int))),
        ),
{
    let fields = pdb_info_tree(info)->Object_0;
    assert(fields[2].0 == "guid"@);
    assert(fields[3].0 == "signature"@);
    assert(fields[4].0 == "signature_hex"@);
    if info.guid is Some {
        let parts = guid_tree(info.guid->0)->Object_0;
        assert(parts[1].0 == "data1"@);
        assert(parts[2].0 == "data2"@);
        assert(parts[3].0 == "data3"@);
        assert(parts[4].0 == "data4"@);
        assert(parts[4].1->List_0 =~= info.guid->0.data4@.map_values(
            |byte: u8| JsonTree::Number(byte as int),
        ));
    }
}

/// A document of what failed says so.
pub proof fn law_failed_documents(
    imports: ProcessImportCollectionError,
    tebs: ProcessTebCollectionError,
    peb: usize,
)
    ensures
        says(imports_tree(Err(imports)), "status"@, JsonTree::Text("incomplete"@)),
        says(imports_tree(Err(imports)), "error"@, import_error_tree(imports)),
        says(tebs_tree(Err(tebs), peb), "status"@, JsonTree::Text("failed"@)),
        says(tebs_tree(Err(tebs), peb), "teb_count"@, JsonTree::Number(0)),
        says(tebs_tree(Err(tebs), peb), "error"@, process_teb_error_tree(tebs)),
{
    let first = imports_tree(Err(imports))->Object_0;
    assert(first[1].0 == "status"@);
    assert(first[3].0 == "error"@);
    let second = tebs_tree(Err(tebs), peb)->Object_0;
    assert(second[1].0 == "status"@);
    assert(second[2].0 == "teb_count"@);
    assert(second[5].0 == "error"@);
}

} // verus!
