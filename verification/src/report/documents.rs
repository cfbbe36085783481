//! Documents of the retained results of a triage.

use vstd::prelude::*;

use super::errors::{
    build_import_error_json, build_pdb_error_json, build_process_teb_error_json,
    build_thread_teb_error_json, import_error_tree, pdb_error_tree, process_teb_error_tree,
    thread_teb_error_tree,
};
use super::value::{
    flag, hex, hex32, hex_tree, item_trees, list, new_fields, no_fields, number, number32,
    number_tree, object, optional_hex, optional_hex_tree, optional_number, optional_number_tree,
    optional_text, optional_text_tree, put, signed, status_hex, text, tree, unsigned32,
    JsonTree, JsonValue,
};
use crate::debuginfo::pdb::{
    PdbCodeViewFormat, PdbGuid, PdbInfo, PdbInfoCollectionError, PdbPathInfo,
};
use crate::imports::collector::{
    ProcessImportCollection, ProcessImportCollectionError, ProcessImportInfo, ProcessImportXref,
};
use crate::imports::xrefs::PeIatXrefKind;
use crate::layout::PROCESS_TRIAGE_SCHEMA_VERSION;
use crate::paths::{file_name_outcome, path_file_name};
use crate::pe::types::{PeSectionInfo, UnavailablePeRange, ValidatedPeImage};
use crate::process::ValidatedProcessPe;
use crate::teb::{
    ProcessTebCollection, ProcessTebCollectionError, ThreadTebFailure, ThreadTebInfo,
};
use crate::text::{hex_digits, hexadecimal};
use crate::triage::ProcessTriageCollection;
use crate::windows::{
    IMAGE_SCN_CNT_CODE, IMAGE_SCN_MEM_EXECUTE, IMAGE_SCN_MEM_READ, IMAGE_SCN_MEM_WRITE,
};

verus! {

/// The label of a CodeView format.
pub open spec fn format_label(format: PdbCodeViewFormat) -> Seq<char> {
    match format {
        PdbCodeViewFormat::Rsds => "rsds"@,
        PdbCodeViewFormat::Nb10 => "nb10"@,
    }
}

/// Returns the stable JSON label for one supported CodeView format.
pub fn pdb_format_name(format: PdbCodeViewFormat) -> (r: &'static str)
    ensures
        r@ == format_label(format),
{
    match format {
        PdbCodeViewFormat::Rsds => "rsds",
        PdbCodeViewFormat::Nb10 => "nb10",
    }
}

/// The label of a reference form.
pub open spec fn xref_label(kind: PeIatXrefKind) -> Seq<char> {
    match kind {
        PeIatXrefKind::Call => "call"@,
        PeIatXrefKind::Jump => "jump"@,
    }
}

/// Returns the stable JSON label for one direct IAT reference form.
pub fn iat_xref_kind_name(kind: PeIatXrefKind) -> (r: &'static str)
    ensures
        r@ == xref_label(kind),
{
    match kind {
        PeIatXrefKind::Call => "call",
        PeIatXrefKind::Jump => "jump",
    }
}

/// The label of a collection that may be partial.
pub open spec fn completeness_label(complete: bool) -> Seq<char> {
    if complete {
        "collected"@
    } else {
        "partial"@
    }
}

/// Names whether a collection is complete.
fn completeness_name(complete: bool) -> (r: &'static str)
    ensures
        r@ == completeness_label(complete),
{
    if complete {
        "collected"
    } else {
        "partial"
    }
}

/// The tree of one unavailable range.
pub open spec fn range_tree(range: UnavailablePeRange) -> JsonTree {
    JsonTree::Object(
        no_fields()
            .push(("rva"@, number_tree(range.rva as int)))
            .push(("rva_hex"@, hex_tree(range.rva as nat, 0)))
            .push(("size"@, number_tree(range.size as int)))
            .push(("size_hex"@, hex_tree(range.size as nat, 0))),
    )
}

/// Builds one unavailable range.
pub fn build_range_json(range: &UnavailablePeRange) -> (r: JsonValue)
    ensures
        tree(r) == range_tree(*range),
{
    let mut fields = new_fields();
    put(&mut fields, "rva", number(range.rva));
    put(&mut fields, "rva_hex", hex(range.rva));
    put(&mut fields, "size", number(range.size));
    put(&mut fields, "size_hex", hex(range.size));
    object(fields)
}

/// The trees of mapped-image ranges that are unavailable after valid loader discards.
pub open spec fn range_trees(items: Seq<UnavailablePeRange>) -> Seq<JsonTree> {
    Seq::new(items.len(), |i: int| range_tree(items[i]))
}

/// Builds mapped-image ranges that are unavailable after valid loader discards.
pub fn build_unavailable_ranges_json(items: &[UnavailablePeRange]) -> (r: Vec<JsonValue>)
    ensures
        item_trees(r@) == range_trees(items@),
        r@.len() == items@.len(),
{
    let mut values: Vec<JsonValue> = Vec::with_capacity(items.len());
    let mut index: usize = 0;
    while index < items.len()
        invariant
            index <= items@.len(),
            values@.len() == index,
            forall|i: int|
                0 <= i < index ==> tree(#[trigger] values@[i]) == range_trees(
                    items@,
                )[i],
        decreases items.len() - index,
    {
        values.push(build_range_json(&items[index]));
        index += 1;
    }
    assert(item_trees(values@) =~= range_trees(items@));
    values
}

/// The label of what an output identity was hashed from.
pub open spec fn hash_source_label(from_disk: bool) -> Seq<char> {
    if from_disk {
        "retained_disk_path_file_bytes"@
    } else {
        "mapped_image_snapshot_bytes"@
    }
}

/// Names what an output identity was hashed from.
fn hash_source_name(from_disk: bool) -> (r: &'static str)
    ensures
        r@ == hash_source_label(from_disk),
{
    if from_disk {
        "retained_disk_path_file_bytes"
    } else {
        "mapped_image_snapshot_bytes"
    }
}

/// The tree of the process part of an image document.
pub open spec fn image_process_tree(collection: ProcessTriageCollection, sha256: Seq<char>, file_name: Option<String>) -> JsonTree {
    JsonTree::Object(
        no_fields()
            .push(("process_id"@, number_tree(collection.validated_process.process_id as int)))
            .push(("process_id_hex"@, hex_tree(collection.validated_process.process_id as nat, 0)))
            .push(("granted_access"@, number_tree(collection.granted_access as int)))
            .push(("granted_access_hex"@, hex_tree(collection.granted_access as nat, 8)))
            .push(("image_path"@, JsonTree::Text(collection.validated_process.image_path@)))
            .push(("image_file_name"@, optional_text_tree(file_name)))
            .push(("sha256"@, JsonTree::Text(sha256)))
            .push(("sha256_source"@, JsonTree::Text(hash_source_label(collection.backing_file_sha256 is Some)))),
    )
}

/// Builds the process part of an image document.
pub fn build_image_process_json(collection: &ProcessTriageCollection, sha256: &str, file_name: &Option<String>) -> (r: JsonValue)
    ensures
        tree(r) == image_process_tree(*collection, sha256@, *file_name),
{
    let mut fields = new_fields();
    put(&mut fields, "process_id", number32(collection.validated_process.process_id));
    put(&mut fields, "process_id_hex", hex32(collection.validated_process.process_id, 0));
    put(&mut fields, "granted_access", number32(collection.granted_access));
    put(&mut fields, "granted_access_hex", hex32(collection.granted_access, 8));
    put(&mut fields, "image_path", text(collection.validated_process.image_path.as_str()));
    put(&mut fields, "image_file_name", optional_text(file_name));
    put(&mut fields, "sha256", text(sha256));
    put(&mut fields, "sha256_source", text(hash_source_name(collection.backing_file_sha256.is_some())));
    object(fields)
}

/// The tree of the image part of an image document.
pub open spec fn image_facts_tree(image: ValidatedPeImage, entry_point_file_offset: Option<usize>) -> JsonTree {
    let image_end = image.base_address.checked_add(image.image_size);
    let entry_point = image.base_address.checked_add(image.entry_point_rva);
    JsonTree::Object(
        no_fields()
            .push(("base_address"@, number_tree(image.base_address as int)))
            .push(("base_address_hex"@, hex_tree(image.base_address as nat, 0)))
            .push(("end_address"@, optional_number_tree(image_end)))
            .push(("end_address_hex"@, optional_hex_tree(image_end)))
            .push(("size"@, number_tree(image.image_size as int)))
            .push(("size_hex"@, hex_tree(image.image_size as nat, 0)))
            .push(("entry_point_rva"@, number_tree(image.entry_point_rva as int)))
            .push(("entry_point_rva_hex"@, hex_tree(image.entry_point_rva as nat, 0)))
            .push(("entry_point_address"@, optional_number_tree(entry_point)))
            .push(("entry_point_address_hex"@, optional_hex_tree(entry_point)))
            .push(("entry_point_file_offset"@, optional_number_tree(entry_point_file_offset)))
            .push(("entry_point_file_offset_hex"@, optional_hex_tree(entry_point_file_offset)))
            .push(("section_count"@, number_tree(image.section_count as int))),
    )
}

/// Builds the image part of an image document.
pub fn build_image_facts_json(image: &ValidatedPeImage, entry_point_file_offset: Option<usize>) -> (r: JsonValue)
    ensures
        tree(r) == image_facts_tree(*image, entry_point_file_offset),
{
    let image_end = image.base_address.checked_add(image.image_size);
    let entry_point = image.base_address.checked_add(image.entry_point_rva);
    let mut fields = new_fields();
    put(&mut fields, "base_address", number(image.base_address));
    put(&mut fields, "base_address_hex", hex(image.base_address));
    put(&mut fields, "end_address", optional_number(image_end));
    put(&mut fields, "end_address_hex", optional_hex(image_end));
    put(&mut fields, "size", number(image.image_size));
    put(&mut fields, "size_hex", hex(image.image_size));
    put(&mut fields, "entry_point_rva", number(image.entry_point_rva));
    put(&mut fields, "entry_point_rva_hex", hex(image.entry_point_rva));
    put(&mut fields, "entry_point_address", optional_number(entry_point));
    put(&mut fields, "entry_point_address_hex", optional_hex(entry_point));
    put(&mut fields, "entry_point_file_offset", optional_number(entry_point_file_offset));
    put(&mut fields, "entry_point_file_offset_hex", optional_hex(entry_point_file_offset));
    put(&mut fields, "section_count", number32(image.section_count as u32));
    object(fields)
}

/// The tree of the snapshot part of an image document.
pub open spec fn image_snapshot_tree(ranges: Seq<UnavailablePeRange>) -> JsonTree {
    JsonTree::Object(
        no_fields()
            .push(("complete"@, JsonTree::Bool(ranges.len() == 0)))
            .push(("unavailable_range_count"@, number_tree(ranges.len() as int)))
            .push(("unavailable_ranges"@, JsonTree::List(range_trees(ranges)))),
    )
}

/// Builds the snapshot part of an image document.
pub fn build_image_snapshot_json(ranges: &[UnavailablePeRange]) -> (r: JsonValue)
    ensures
        tree(r) == image_snapshot_tree(ranges@),
{
    let mut fields = new_fields();
    put(&mut fields, "complete", flag(ranges.len() == 0));
    put(&mut fields, "unavailable_range_count", number(ranges.len()));
    put(&mut fields, "unavailable_ranges", list(build_unavailable_ranges_json(ranges)));
    object(fields)
}

/// The tree of validated target identity, image metadata and snapshot completeness, given the file name of the image.
pub open spec fn image_tree(collection: ProcessTriageCollection, sha256: Seq<char>, file_name: Option<String>) -> JsonTree {
    JsonTree::Object(
        no_fields()
            .push(("schema_version"@, number_tree(PROCESS_TRIAGE_SCHEMA_VERSION as int)))
            .push(("status"@, JsonTree::Text(completeness_label(collection.unavailable_image_ranges@.len() == 0))))
            .push(("process"@, image_process_tree(collection, sha256, file_name)))
            .push(("image"@, image_facts_tree(collection.validated_process.image, collection.entry_point_file_offset)))
            .push(("snapshot"@, image_snapshot_tree(collection.unavailable_image_ranges@))),
    )
}

/// Builds validated target identity, image metadata and snapshot completeness, given the file name of the image.
pub fn build_named_image_json(collection: &ProcessTriageCollection, sha256: &str, file_name: &Option<String>) -> (r: JsonValue)
    ensures
        tree(r) == image_tree(*collection, sha256@, *file_name),
{
    let mut fields = new_fields();
    put(&mut fields, "schema_version", number32(PROCESS_TRIAGE_SCHEMA_VERSION));
    put(&mut fields, "status", text(completeness_name(collection.unavailable_image_ranges.len() == 0)));
    put(&mut fields, "process", build_image_process_json(collection, sha256, file_name));
    put(&mut fields, "image", build_image_facts_json(&collection.validated_process.image, collection.entry_point_file_offset));
    put(&mut fields, "snapshot", build_image_snapshot_json(&collection.unavailable_image_ranges));
    object(fields)
}

/// Builds validated target identity, image metadata, and snapshot-completeness, with the file name
/// of the image path.
pub fn build_image_json(collection: &ProcessTriageCollection, sha256: &str) -> (r: JsonValue)
    ensures
        exists|file_name: Option<String>|
            tree(r) == #[trigger] image_tree(*collection, sha256@, file_name) && file_name_outcome(
                collection.validated_process.image_path@,
                file_name,
            ),
{
    let file_name = path_file_name(collection.validated_process.image_path.as_str());
    build_named_image_json(collection, sha256, &file_name)
}

/// The tree of what a section holds.
pub open spec fn section_content_tree(characteristics: u32) -> JsonTree {
    JsonTree::Object(
        no_fields()
            .push(("code"@, JsonTree::Bool(characteristics & IMAGE_SCN_CNT_CODE != 0)))
            .push(("readable"@, JsonTree::Bool(characteristics & IMAGE_SCN_MEM_READ != 0)))
            .push(("writable"@, JsonTree::Bool(characteristics & IMAGE_SCN_MEM_WRITE != 0)))
            .push(("executable"@, JsonTree::Bool(characteristics & IMAGE_SCN_MEM_EXECUTE != 0))),
    )
}

/// Builds what a section holds.
pub fn build_section_content_json(characteristics: u32) -> (r: JsonValue)
    ensures
        tree(r) == section_content_tree(characteristics),
{
    let mut fields = new_fields();
    put(&mut fields, "code", flag(characteristics & IMAGE_SCN_CNT_CODE != 0));
    put(&mut fields, "readable", flag(characteristics & IMAGE_SCN_MEM_READ != 0));
    put(&mut fields, "writable", flag(characteristics & IMAGE_SCN_MEM_WRITE != 0));
    put(&mut fields, "executable", flag(characteristics & IMAGE_SCN_MEM_EXECUTE != 0));
    object(fields)
}

/// The tree of one section of an image loaded at `image_base`.
pub open spec fn section_tree(image_base: usize, index: int, section: PeSectionInfo) -> JsonTree {
    let address = image_base.checked_add(section.rva);
    JsonTree::Object(
        no_fields()
            .push(("index"@, number_tree(index)))
            .push(("name"@, JsonTree::Text(section.name@)))
            .push(("rva"@, number_tree(section.rva as int)))
            .push(("rva_hex"@, hex_tree(section.rva as nat, 0)))
            .push(("address"@, optional_number_tree(address)))
            .push(("address_hex"@, optional_hex_tree(address)))
            .push(("virtual_size"@, number_tree(section.virtual_size as int)))
            .push(("virtual_size_hex"@, hex_tree(section.virtual_size as nat, 0)))
            .push(("raw_size"@, number_tree(section.raw_size as int)))
            .push(("raw_size_hex"@, hex_tree(section.raw_size as nat, 0)))
            .push(("mapped_size"@, number_tree(section.mapped_size as int)))
            .push(("mapped_size_hex"@, hex_tree(section.mapped_size as nat, 0)))
            .push(("raw_file_offset"@, number_tree(section.raw_file_offset as int)))
            .push(("raw_file_offset_hex"@, hex_tree(section.raw_file_offset as nat, 0)))
            .push(("characteristics"@, number_tree(section.characteristics as int)))
            .push(("characteristics_hex"@, hex_tree(section.characteristics as nat, 8)))
            .push(("content"@, section_content_tree(section.characteristics))),
    )
}

/// Builds one section of an image loaded at `image_base`.
pub fn build_section_json(image_base: usize, index: usize, section: &PeSectionInfo) -> (r: JsonValue)
    ensures
        tree(r) == section_tree(image_base, index as int, *section),
{
    let address = image_base.checked_add(section.rva);
    let mut fields = new_fields();
    put(&mut fields, "index", number(index));
    put(&mut fields, "name", text(section.name.as_str()));
    put(&mut fields, "rva", number(section.rva));
    put(&mut fields, "rva_hex", hex(section.rva));
    put(&mut fields, "address", optional_number(address));
    put(&mut fields, "address_hex", optional_hex(address));
    put(&mut fields, "virtual_size", number(section.virtual_size));
    put(&mut fields, "virtual_size_hex", hex(section.virtual_size));
    put(&mut fields, "raw_size", number(section.raw_size));
    put(&mut fields, "raw_size_hex", hex(section.raw_size));
    put(&mut fields, "mapped_size", number(section.mapped_size));
    put(&mut fields, "mapped_size_hex", hex(section.mapped_size));
    put(&mut fields, "raw_file_offset", number(section.raw_file_offset));
    put(&mut fields, "raw_file_offset_hex", hex(section.raw_file_offset));
    put(&mut fields, "characteristics", number32(section.characteristics));
    put(&mut fields, "characteristics_hex", hex32(section.characteristics, 8));
    put(&mut fields, "content", build_section_content_json(section.characteristics));
    object(fields)
}

/// The trees of the sections of an image loaded at `image_base`.
pub open spec fn section_trees(items: Seq<PeSectionInfo>, image_base: usize) -> Seq<JsonTree> {
    Seq::new(items.len(), |i: int| section_tree(image_base, i, items[i]))
}

/// Builds the sections of an image loaded at `image_base`.
pub fn build_section_list(items: &[PeSectionInfo], image_base: usize) -> (r: Vec<JsonValue>)
    ensures
        item_trees(r@) == section_trees(items@, image_base),
        r@.len() == items@.len(),
{
    let mut values: Vec<JsonValue> = Vec::with_capacity(items.len());
    let mut index: usize = 0;
    while index < items.len()
        invariant
            index <= items@.len(),
            values@.len() == index,
            forall|i: int|
                0 <= i < index ==> tree(#[trigger] values@[i]) == section_trees(
                    items@, image_base,
                )[i],
        decreases items.len() - index,
    {
        values.push(build_section_json(image_base, index, &items[index]));
        index += 1;
    }
    assert(item_trees(values@) =~= section_trees(items@, image_base));
    values
}

/// The tree of ordered mapped-image section metadata.
pub open spec fn sections_tree(collection: ProcessTriageCollection) -> JsonTree {
    JsonTree::Object(
        no_fields()
            .push(("schema_version"@, number_tree(PROCESS_TRIAGE_SCHEMA_VERSION as int)))
            .push(("status"@, JsonTree::Text("collected"@)))
            .push(("count"@, number_tree(collection.sections@.len() as int)))
            .push(("sections"@, JsonTree::List(section_trees(collection.sections@, collection.validated_process.image.base_address)))),
    )
}

/// Builds ordered mapped-image section metadata.
pub fn build_sections_json(collection: &ProcessTriageCollection) -> (r: JsonValue)
    ensures
        tree(r) == sections_tree(*collection),
{
    let mut fields = new_fields();
    put(&mut fields, "schema_version", number32(PROCESS_TRIAGE_SCHEMA_VERSION));
    put(&mut fields, "status", text("collected"));
    put(&mut fields, "count", number(collection.sections.len()));
    put(&mut fields, "sections", list(build_section_list(&collection.sections, collection.validated_process.image.base_address)));
    object(fields)
}

/// The display text of a GUID.
pub open spec fn guid_text(guid: PdbGuid) -> Seq<char> {
    let d = guid.data4@;
    hexadecimal(guid.data1 as nat, 8) + seq!['-'] + hexadecimal(guid.data2 as nat, 4) + seq!['-']
        + hexadecimal(guid.data3 as nat, 4) + seq!['-'] + hexadecimal(d[0] as nat, 2) + hexadecimal(
        d[1] as nat,
        2,
    ) + seq!['-'] + hexadecimal(d[2] as nat, 2) + hexadecimal(d[3] as nat, 2) + hexadecimal(
        d[4] as nat,
        2,
    ) + hexadecimal(d[5] as nat, 2) + hexadecimal(d[6] as nat, 2) + hexadecimal(d[7] as nat, 2)
}

/// Appends a dash.
fn push_dash(value: &mut String)
    ensures
        final(value)@ == old(value)@ + seq!['-'],
{
    let ghost before = value@;
    value.push('-');
    assert(value@ =~= before + seq!['-']);
}

/// Appends the hexadecimal digits of a number, at least `width` of them.
fn push_hex_digits(value: &mut String, number: u64, width: usize)
    ensures
        final(value)@ == old(value)@ + hexadecimal(number as nat, width as nat),
{
    let digits = hex_digits(number, width);
    value.append(digits.as_str());
}

/// Formats a GUID.
pub fn format_guid(guid: &PdbGuid) -> (r: String)
    ensures
        r@ == guid_text(*guid),
{
    let mut value = hex_digits(guid.data1 as u64, 8);
    push_dash(&mut value);
    push_hex_digits(&mut value, guid.data2 as u64, 4);
    push_dash(&mut value);
    push_hex_digits(&mut value, guid.data3 as u64, 4);
    push_dash(&mut value);
    push_hex_digits(&mut value, guid.data4[0] as u64, 2);
    push_hex_digits(&mut value, guid.data4[1] as u64, 2);
    push_dash(&mut value);
    push_hex_digits(&mut value, guid.data4[2] as u64, 2);
    push_hex_digits(&mut value, guid.data4[3] as u64, 2);
    push_hex_digits(&mut value, guid.data4[4] as u64, 2);
    push_hex_digits(&mut value, guid.data4[5] as u64, 2);
    push_hex_digits(&mut value, guid.data4[6] as u64, 2);
    push_hex_digits(&mut value, guid.data4[7] as u64, 2);
    value
}

/// The trees of bytes.
pub open spec fn byte_trees(items: Seq<u8>) -> Seq<JsonTree> {
    Seq::new(items.len(), |i: int| number_tree(items[i] as int))
}

/// Builds bytes.
pub fn build_byte_list(items: &[u8]) -> (r: Vec<JsonValue>)
    ensures
        item_trees(r@) == byte_trees(items@),
        r@.len() == items@.len(),
{
    let mut values: Vec<JsonValue> = Vec::with_capacity(items.len());
    let mut index: usize = 0;
    while index < items.len()
        invariant
            index <= items@.len(),
            values@.len() == index,
            forall|i: int|
                0 <= i < index ==> tree(#[trigger] values@[i]) == byte_trees(
                    items@,
                )[i],
        decreases items.len() - index,
    {
        values.push(number32(items[index] as u32));
        index += 1;
    }
    assert(item_trees(values@) =~= byte_trees(items@));
    values
}

/// The tree of a GUID.
pub open spec fn guid_tree(guid: PdbGuid) -> JsonTree {
    JsonTree::Object(
        no_fields()
            .push(("value"@, JsonTree::Text(guid_text(guid))))
            .push(("data1"@, number_tree(guid.data1 as int)))
            .push(("data2"@, number_tree(guid.data2 as int)))
            .push(("data3"@, number_tree(guid.data3 as int)))
            .push(("data4"@, JsonTree::List(byte_trees(guid.data4@)))),
    )
}

/// Builds a GUID.
pub fn build_guid_json(guid: &PdbGuid) -> (r: JsonValue)
    ensures
        tree(r) == guid_tree(*guid),
{
    let mut fields = new_fields();
    put(&mut fields, "value", JsonValue::Text(format_guid(guid)));
    put(&mut fields, "data1", number32(guid.data1));
    put(&mut fields, "data2", number32(guid.data2 as u32));
    put(&mut fields, "data3", number32(guid.data3 as u32));
    put(&mut fields, "data4", list(build_byte_list(&guid.data4)));
    object(fields)
}

/// The tree of an optional GUID.
pub open spec fn optional_guid_tree(guid: Option<PdbGuid>) -> JsonTree {
    match guid {
        Some(guid) => guid_tree(guid),
        None => JsonTree::Null,
    }
}

/// Builds an optional GUID.
fn build_optional_guid_json(guid: &Option<PdbGuid>) -> (r: JsonValue)
    ensures
        tree(r) == optional_guid_tree(*guid),
{
    match guid {
        Some(guid) => build_guid_json(guid),
        None => JsonValue::Null,
    }
}

/// The tree of an optional signature.
pub open spec fn optional_signature_tree(signature: Option<u32>) -> JsonTree {
    match signature {
        Some(value) => number_tree(value as int),
        None => JsonTree::Null,
    }
}

/// The hexadecimal tree of an optional signature.
pub open spec fn optional_signature_hex_tree(signature: Option<u32>) -> JsonTree {
    match signature {
        Some(value) => hex_tree(value as nat, 8),
        None => JsonTree::Null,
    }
}

/// Builds an optional signature.
fn build_optional_signature_json(signature: Option<u32>) -> (r: JsonValue)
    ensures
        tree(r) == optional_signature_tree(signature),
{
    match signature {
        Some(value) => number32(value),
        None => JsonValue::Null,
    }
}

/// Builds an optional signature in hexadecimal.
fn build_optional_signature_hex_json(signature: Option<u32>) -> (r: JsonValue)
    ensures
        tree(r) == optional_signature_hex_tree(signature),
{
    match signature {
        Some(value) => hex32(value, 8),
        None => JsonValue::Null,
    }
}

/// The tree of the path of a program database.
pub open spec fn pdb_path_tree(path: PdbPathInfo) -> JsonTree {
    JsonTree::Object(
        no_fields()
            .push(("full"@, JsonTree::Text(path.full_path@)))
            .push(("directory"@, optional_text_tree(path.directory)))
            .push(("file_name"@, optional_text_tree(path.file_name)))
            .push(("file_stem"@, optional_text_tree(path.file_stem)))
            .push(("extension"@, optional_text_tree(path.extension)))
            .push(("exists_on_disk"@, JsonTree::Bool(path.exists_on_disk))),
    )
}

/// Builds the path of a program database.
pub fn build_pdb_path_json(path: &PdbPathInfo) -> (r: JsonValue)
    ensures
        tree(r) == pdb_path_tree(*path),
{
    let mut fields = new_fields();
    put(&mut fields, "full", text(path.full_path.as_str()));
    put(&mut fields, "directory", optional_text(&path.directory));
    put(&mut fields, "file_name", optional_text(&path.file_name));
    put(&mut fields, "file_stem", optional_text(&path.file_stem));
    put(&mut fields, "extension", optional_text(&path.extension));
    put(&mut fields, "exists_on_disk", flag(path.exists_on_disk));
    object(fields)
}

/// The tree of found CodeView metadata.
pub open spec fn pdb_info_tree(info: PdbInfo) -> JsonTree {
    JsonTree::Object(
        no_fields()
            .push(("format"@, JsonTree::Text(format_label(info.format))))
            .push(("path"@, pdb_path_tree(info.path)))
            .push(("guid"@, optional_guid_tree(info.guid)))
            .push(("signature"@, optional_signature_tree(info.signature)))
            .push(("signature_hex"@, optional_signature_hex_tree(info.signature)))
            .push(("age"@, number_tree(info.age as int)))
            .push(("debug_directory_rva"@, number_tree(info.debug_directory_rva as int)))
            .push(("debug_directory_rva_hex"@, hex_tree(info.debug_directory_rva as nat, 0)))
            .push(("debug_directory_file_offset"@, optional_number_tree(info.debug_directory_file_offset)))
            .push(("debug_directory_file_offset_hex"@, optional_hex_tree(info.debug_directory_file_offset)))
            .push(("codeview_rva"@, number_tree(info.codeview_rva as int)))
            .push(("codeview_rva_hex"@, hex_tree(info.codeview_rva as nat, 0)))
            .push(("codeview_file_offset"@, optional_number_tree(info.codeview_file_offset)))
            .push(("codeview_file_offset_hex"@, optional_hex_tree(info.codeview_file_offset)))
            .push(("codeview_size"@, number_tree(info.codeview_size as int)))
            .push(("codeview_size_hex"@, hex_tree(info.codeview_size as nat, 0))),
    )
}

/// Builds found CodeView metadata.
pub fn build_pdb_info_json(info: &PdbInfo) -> (r: JsonValue)
    ensures
        tree(r) == pdb_info_tree(*info),
{
    let mut fields = new_fields();
    put(&mut fields, "format", text(pdb_format_name(info.format)));
    put(&mut fields, "path", build_pdb_path_json(&info.path));
    put(&mut fields, "guid", build_optional_guid_json(&info.guid));
    put(&mut fields, "signature", build_optional_signature_json(info.signature));
    put(&mut fields, "signature_hex", build_optional_signature_hex_json(info.signature));
    put(&mut fields, "age", number32(info.age));
    put(&mut fields, "debug_directory_rva", number(info.debug_directory_rva));
    put(&mut fields, "debug_directory_rva_hex", hex(info.debug_directory_rva));
    put(&mut fields, "debug_directory_file_offset", optional_number(info.debug_directory_file_offset));
    put(&mut fields, "debug_directory_file_offset_hex", optional_hex(info.debug_directory_file_offset));
    put(&mut fields, "codeview_rva", number(info.codeview_rva));
    put(&mut fields, "codeview_rva_hex", hex(info.codeview_rva));
    put(&mut fields, "codeview_file_offset", optional_number(info.codeview_file_offset));
    put(&mut fields, "codeview_file_offset_hex", optional_hex(info.codeview_file_offset));
    put(&mut fields, "codeview_size", number(info.codeview_size));
    put(&mut fields, "codeview_size_hex", hex(info.codeview_size));
    object(fields)
}

/// The tree of PDB metadata, its absence, or the failure to collect it.
pub open spec fn pdb_tree(pdb: Result<Option<PdbInfo>, PdbInfoCollectionError>) -> JsonTree {
    let version = ("schema_version"@, number_tree(PROCESS_TRIAGE_SCHEMA_VERSION as int));
    match pdb {
        Ok(Some(info)) => JsonTree::Object(
            no_fields()
                .push(version)
                .push(("status"@, JsonTree::Text("found"@)))
                .push(("pdb"@, pdb_info_tree(info))),
        ),
        Ok(None) => JsonTree::Object(
            no_fields()
                .push(version)
                .push(("status"@, JsonTree::Text("not_present"@)))
                .push(("pdb"@, JsonTree::Null)),
        ),
        Err(error) => JsonTree::Object(
            no_fields()
                .push(version)
                .push(("status"@, JsonTree::Text("incomplete"@)))
                .push(("error"@, pdb_error_tree(error))),
        ),
    }
}

/// Builds CodeView PDB metadata with its collection status.
pub fn build_pdb_json(collection: &ProcessTriageCollection) -> (r: JsonValue)
    ensures
        tree(r) == pdb_tree(collection.pdb),
{
    let mut fields = new_fields();
    put(&mut fields, "schema_version", number32(PROCESS_TRIAGE_SCHEMA_VERSION));
    match &collection.pdb {
        Ok(Some(info)) => {
            put(&mut fields, "status", text("found"));
            put(&mut fields, "pdb", build_pdb_info_json(info));
        },
        Ok(None) => {
            put(&mut fields, "status", text("not_present"));
            put(&mut fields, "pdb", JsonValue::Null);
        },
        Err(error) => {
            put(&mut fields, "status", text("incomplete"));
            put(&mut fields, "error", build_pdb_error_json(error));
        },
    }
    object(fields)
}

/// The tree of one reference to an import.
pub open spec fn xref_tree(xref: ProcessImportXref) -> JsonTree {
    JsonTree::Object(
        no_fields()
            .push(("kind"@, JsonTree::Text(xref_label(xref.kind))))
            .push(("instruction_rva"@, number_tree(xref.instruction_rva as int)))
            .push(("instruction_rva_hex"@, hex_tree(xref.instruction_rva as nat, 0)))
            .push(("instruction_address"@, optional_number_tree(xref.instruction_address)))
            .push(("instruction_address_hex"@, optional_hex_tree(xref.instruction_address)))
            .push(("instruction_file_offset"@, optional_number_tree(xref.instruction_file_offset)))
            .push(("instruction_file_offset_hex"@, optional_hex_tree(xref.instruction_file_offset))),
    )
}

/// Builds one reference to an import.
pub fn build_xref_json(xref: &ProcessImportXref) -> (r: JsonValue)
    ensures
        tree(r) == xref_tree(*xref),
{
    let mut fields = new_fields();
    put(&mut fields, "kind", text(iat_xref_kind_name(xref.kind)));
    put(&mut fields, "instruction_rva", number(xref.instruction_rva));
    put(&mut fields, "instruction_rva_hex", hex(xref.instruction_rva));
    put(&mut fields, "instruction_address", optional_number(xref.instruction_address));
    put(&mut fields, "instruction_address_hex", optional_hex(xref.instruction_address));
    put(&mut fields, "instruction_file_offset", optional_number(xref.instruction_file_offset));
    put(&mut fields, "instruction_file_offset_hex", optional_hex(xref.instruction_file_offset));
    object(fields)
}

/// The trees of the references to an import.
pub open spec fn xref_trees(items: Seq<ProcessImportXref>) -> Seq<JsonTree> {
    Seq::new(items.len(), |i: int| xref_tree(items[i]))
}

/// Builds the references to an import.
pub fn build_xref_list(items: &[ProcessImportXref]) -> (r: Vec<JsonValue>)
    ensures
        item_trees(r@) == xref_trees(items@),
        r@.len() == items@.len(),
{
    let mut values: Vec<JsonValue> = Vec::with_capacity(items.len());
    let mut index: usize = 0;
    while index < items.len()
        invariant
            index <= items@.len(),
            values@.len() == index,
            forall|i: int|
                0 <= i < index ==> tree(#[trigger] values@[i]) == xref_trees(
                    items@,
                )[i],
        decreases items.len() - index,
    {
        values.push(build_xref_json(&items[index]));
        index += 1;
    }
    assert(item_trees(values@) =~= xref_trees(items@));
    values
}

/// The tree of an optional ordinal.
pub open spec fn ordinal_tree(ordinal: Option<u16>) -> JsonTree {
    match ordinal {
        Some(value) => number_tree(value as int),
        None => JsonTree::Null,
    }
}

/// Builds an optional ordinal.
fn build_ordinal_json(ordinal: Option<u16>) -> (r: JsonValue)
    ensures
        tree(r) == ordinal_tree(ordinal),
{
    match ordinal {
        Some(value) => number32(value as u32),
        None => JsonValue::Null,
    }
}

/// The tree of one import with its references.
pub open spec fn import_tree(import: ProcessImportInfo) -> JsonTree {
    JsonTree::Object(
        no_fields()
            .push(("library"@, JsonTree::Text(import.library_name@)))
            .push(("function"@, JsonTree::Text(import.function_name@)))
            .push(("ordinal"@, ordinal_tree(import.ordinal)))
            .push(("iat_rva"@, number_tree(import.iat_rva as int)))
            .push(("iat_rva_hex"@, hex_tree(import.iat_rva as nat, 0)))
            .push(("iat_address"@, optional_number_tree(import.iat_address)))
            .push(("iat_address_hex"@, optional_hex_tree(import.iat_address)))
            .push(("iat_file_offset"@, optional_number_tree(import.iat_file_offset)))
            .push(("iat_file_offset_hex"@, optional_hex_tree(import.iat_file_offset)))
            .push(("xref_count"@, number_tree(import.xrefs@.len() as int)))
            .push(("xrefs"@, JsonTree::List(xref_trees(import.xrefs@)))),
    )
}

/// Builds one import with its references.
pub fn build_import_json(import: &ProcessImportInfo) -> (r: JsonValue)
    ensures
        tree(r) == import_tree(*import),
{
    let mut fields = new_fields();
    put(&mut fields, "library", text(import.library_name.as_str()));
    put(&mut fields, "function", text(import.function_name.as_str()));
    put(&mut fields, "ordinal", build_ordinal_json(import.ordinal));
    put(&mut fields, "iat_rva", number(import.iat_rva));
    put(&mut fields, "iat_rva_hex", hex(import.iat_rva));
    put(&mut fields, "iat_address", optional_number(import.iat_address));
    put(&mut fields, "iat_address_hex", optional_hex(import.iat_address));
    put(&mut fields, "iat_file_offset", optional_number(import.iat_file_offset));
    put(&mut fields, "iat_file_offset_hex", optional_hex(import.iat_file_offset));
    put(&mut fields, "xref_count", number(import.xrefs.len()));
    put(&mut fields, "xrefs", list(build_xref_list(&import.xrefs)));
    object(fields)
}

/// The trees of imports with their references.
pub open spec fn import_trees(items: Seq<ProcessImportInfo>) -> Seq<JsonTree> {
    Seq::new(items.len(), |i: int| import_tree(items[i]))
}

/// Builds imports with their references.
pub fn build_import_list(items: &[ProcessImportInfo]) -> (r: Vec<JsonValue>)
    ensures
        item_trees(r@) == import_trees(items@),
        r@.len() == items@.len(),
{
    let mut values: Vec<JsonValue> = Vec::with_capacity(items.len());
    let mut index: usize = 0;
    while index < items.len()
        invariant
            index <= items@.len(),
            values@.len() == index,
            forall|i: int|
                0 <= i < index ==> tree(#[trigger] values@[i]) == import_trees(
                    items@,
                )[i],
        decreases items.len() - index,
    {
        values.push(build_import_json(&items[index]));
        index += 1;
    }
    assert(item_trees(values@) =~= import_trees(items@));
    values
}

/// The references of the first `count` imports; counting stops at the largest representable
/// number.
pub open spec fn xref_total(imports: Seq<ProcessImportInfo>, count: int) -> usize
    decreases count,
{
    if count <= 0 {
        0
    } else {
        xref_total(imports, count - 1).saturating_add(imports[count - 1].xrefs@.len() as usize)
    }
}

/// Counts the references of imports.
fn count_xrefs(imports: &[ProcessImportInfo]) -> (r: usize)
    ensures
        r == xref_total(imports@, imports@.len() as int),
{
    let mut total: usize = 0;
    let mut index: usize = 0;
    while index < imports.len()
        invariant
            index <= imports@.len(),
            total == xref_total(imports@, index as int),
        decreases imports.len() - index,
    {
        total = total.saturating_add(imports[index].xrefs.len());
        index += 1;
    }
    total
}

/// The tree of what an import collection covers.
pub open spec fn import_scope_tree() -> JsonTree {
    JsonTree::Object(
        no_fields()
            .push(("imports"@, JsonTree::Text("standard_pe_import_directory"@)))
            .push(( "xrefs"@, JsonTree::List( seq![ JsonTree::Text("direct_x64_rip_relative_iat_call"@), JsonTree::Text("direct_x64_rip_relative_iat_jump"@), ], ), )),
    )
}

/// Builds what an import collection covers.
fn build_import_scope_json() -> (r: JsonValue)
    ensures
        tree(r) == import_scope_tree(),
{
    let mut forms: Vec<JsonValue> = Vec::new();
    forms.push(text("direct_x64_rip_relative_iat_call"));
    forms.push(text("direct_x64_rip_relative_iat_jump"));
    assert(item_trees(forms@) =~= seq![
        JsonTree::Text("direct_x64_rip_relative_iat_call"@),
        JsonTree::Text("direct_x64_rip_relative_iat_jump"@),
    ]);
    let mut fields = new_fields();
    put(&mut fields, "imports", text("standard_pe_import_directory"));
    put(&mut fields, "xrefs", list(forms));
    object(fields)
}

/// The tree of collected imports.
pub open spec fn import_collection_tree(imports: ProcessImportCollection) -> JsonTree {
    JsonTree::Object(
        no_fields()
            .push(("schema_version"@, number_tree(PROCESS_TRIAGE_SCHEMA_VERSION as int)))
            .push(("status"@, JsonTree::Text(completeness_label(imports.unavailable_ranges@.len() == 0))))
            .push(("scope"@, import_scope_tree()))
            .push(("module_base_address"@, number_tree(imports.module_base_address as int)))
            .push(("module_base_address_hex"@, hex_tree(imports.module_base_address as nat, 0)))
            .push(("module_size"@, number_tree(imports.module_size as int)))
            .push(("module_size_hex"@, hex_tree(imports.module_size as nat, 0)))
            .push(("import_count"@, number_tree(imports.imports@.len() as int)))
            .push(("xref_count"@, number_tree(xref_total(imports.imports@, imports.imports@.len() as int) as int)))
            .push(("unavailable_ranges"@, JsonTree::List(range_trees(imports.unavailable_ranges@))))
            .push(("imports"@, JsonTree::List(import_trees(imports.imports@)))),
    )
}

/// Builds collected imports.
pub fn build_import_collection_json(imports: &ProcessImportCollection) -> (r: JsonValue)
    ensures
        tree(r) == import_collection_tree(*imports),
{
    let mut fields = new_fields();
    put(&mut fields, "schema_version", number32(PROCESS_TRIAGE_SCHEMA_VERSION));
    put(&mut fields, "status", text(completeness_name(imports.unavailable_ranges.len() == 0)));
    put(&mut fields, "scope", build_import_scope_json());
    put(&mut fields, "module_base_address", number(imports.module_base_address));
    put(&mut fields, "module_base_address_hex", hex(imports.module_base_address));
    put(&mut fields, "module_size", number(imports.module_size));
    put(&mut fields, "module_size_hex", hex(imports.module_size));
    put(&mut fields, "import_count", number(imports.imports.len()));
    put(&mut fields, "xref_count", number(count_xrefs(&imports.imports)));
    put(&mut fields, "unavailable_ranges", list(build_unavailable_ranges_json(&imports.unavailable_ranges)));
    put(&mut fields, "imports", list(build_import_list(&imports.imports)));
    object(fields)
}

/// The tree of a failed import collection.
pub open spec fn failed_imports_tree(error: ProcessImportCollectionError) -> JsonTree {
    JsonTree::Object(
        no_fields()
            .push(("schema_version"@, number_tree(PROCESS_TRIAGE_SCHEMA_VERSION as int)))
            .push(("status"@, JsonTree::Text("incomplete"@)))
            .push(("scope"@, import_scope_tree()))
            .push(("error"@, import_error_tree(error))),
    )
}

/// Builds a failed import collection.
pub fn build_failed_imports_json(error: &ProcessImportCollectionError) -> (r: JsonValue)
    ensures
        tree(r) == failed_imports_tree(*error),
{
    let mut fields = new_fields();
    put(&mut fields, "schema_version", number32(PROCESS_TRIAGE_SCHEMA_VERSION));
    put(&mut fields, "status", text("incomplete"));
    put(&mut fields, "scope", build_import_scope_json());
    put(&mut fields, "error", build_import_error_json(error));
    object(fields)
}

/// The tree of an import collection or of its failure.
pub open spec fn imports_tree(
    imports: Result<ProcessImportCollection, ProcessImportCollectionError>,
) -> JsonTree {
    match imports {
        Ok(imports) => import_collection_tree(imports),
        Err(error) => failed_imports_tree(error),
    }
}

/// Builds standard import-table and direct IAT-xref results.
pub fn build_imports_json(collection: &ProcessTriageCollection) -> (r: JsonValue)
    ensures
        tree(r) == imports_tree(collection.imports),
{
    match &collection.imports {
        Ok(imports) => build_import_collection_json(imports),
        Err(error) => build_failed_imports_json(error),
    }
}

/// The tree of the validated PEB and its main image.
pub open spec fn peb_tree(process: ValidatedProcessPe) -> JsonTree {
    JsonTree::Object(
        no_fields()
            .push(("schema_version"@, number_tree(PROCESS_TRIAGE_SCHEMA_VERSION as int)))
            .push(("status"@, JsonTree::Text("validated"@)))
            .push(("process_id"@, number_tree(process.process_id as int)))
            .push(("process_id_hex"@, hex_tree(process.process_id as nat, 0)))
            .push(("peb_address"@, number_tree(process.peb_address as int)))
            .push(("peb_address_hex"@, hex_tree(process.peb_address as nat, 0)))
            .push(("being_debugged"@, JsonTree::Bool(process.being_debugged)))
            .push(("main_image_base_address"@, number_tree(process.image.base_address as int)))
            .push(("main_image_base_address_hex"@, hex_tree(process.image.base_address as nat, 0)))
            .push(("main_image_path"@, JsonTree::Text(process.image_path@))),
    )
}

/// Builds the validated PEB and its main image.
pub fn build_peb_facts_json(process: &ValidatedProcessPe) -> (r: JsonValue)
    ensures
        tree(r) == peb_tree(*process),
{
    let mut fields = new_fields();
    put(&mut fields, "schema_version", number32(PROCESS_TRIAGE_SCHEMA_VERSION));
    put(&mut fields, "status", text("validated"));
    put(&mut fields, "process_id", number32(process.process_id));
    put(&mut fields, "process_id_hex", hex32(process.process_id, 0));
    put(&mut fields, "peb_address", number(process.peb_address));
    put(&mut fields, "peb_address_hex", hex(process.peb_address));
    put(&mut fields, "being_debugged", flag(process.being_debugged));
    put(&mut fields, "main_image_base_address", number(process.image.base_address));
    put(&mut fields, "main_image_base_address_hex", hex(process.image.base_address));
    put(&mut fields, "main_image_path", text(process.image_path.as_str()));
    object(fields)
}

/// Builds the validated PEB and main-image relationship.
pub fn build_peb_json(collection: &ProcessTriageCollection) -> (r: JsonValue)
    ensures
        tree(r) == peb_tree(collection.validated_process),
{
    build_peb_facts_json(&collection.validated_process)
}

/// The tree of the thread of a TEB.
pub open spec fn teb_thread_tree(teb: ThreadTebInfo) -> JsonTree {
    JsonTree::Object(
        no_fields()
            .push(("thread_id"@, number_tree(teb.thread_id as int)))
            .push(("thread_id_hex"@, hex_tree(teb.thread_id as nat, 0)))
            .push(("exit_status"@, number_tree(teb.exit_status as int)))
            .push(("exit_status_hex"@, hex_tree(unsigned32(teb.exit_status), 8)))
            .push(("affinity_mask"@, number_tree(teb.affinity_mask as int)))
            .push(("affinity_mask_hex"@, hex_tree(teb.affinity_mask as nat, 0)))
            .push(("priority"@, number_tree(teb.priority as int)))
            .push(("base_priority"@, number_tree(teb.base_priority as int))),
    )
}

/// Builds the thread of a TEB.
pub fn build_teb_thread_json(teb: &ThreadTebInfo) -> (r: JsonValue)
    ensures
        tree(r) == teb_thread_tree(*teb),
{
    let mut fields = new_fields();
    put(&mut fields, "thread_id", number32(teb.thread_id));
    put(&mut fields, "thread_id_hex", hex32(teb.thread_id, 0));
    put(&mut fields, "exit_status", signed(teb.exit_status));
    put(&mut fields, "exit_status_hex", status_hex(teb.exit_status));
    put(&mut fields, "affinity_mask", number(teb.affinity_mask));
    put(&mut fields, "affinity_mask_hex", hex(teb.affinity_mask));
    put(&mut fields, "priority", signed(teb.priority));
    put(&mut fields, "base_priority", signed(teb.base_priority));
    object(fields)
}

/// The tree of the thread information block of a TEB.
pub open spec fn teb_tib_tree(teb: ThreadTebInfo) -> JsonTree {
    JsonTree::Object(
        no_fields()
            .push(("exception_list"@, number_tree(teb.exception_list as int)))
            .push(("exception_list_hex"@, hex_tree(teb.exception_list as nat, 0)))
            .push(("stack_base"@, number_tree(teb.stack_base as int)))
            .push(("stack_base_hex"@, hex_tree(teb.stack_base as nat, 0)))
            .push(("stack_limit"@, number_tree(teb.stack_limit as int)))
            .push(("stack_limit_hex"@, hex_tree(teb.stack_limit as nat, 0)))
            .push(("stack_size_bytes"@, optional_number_tree(teb.stack_size_bytes)))
            .push(("stack_size_hex"@, optional_hex_tree(teb.stack_size_bytes)))
            .push(("subsystem_tib"@, number_tree(teb.subsystem_tib as int)))
            .push(("subsystem_tib_hex"@, hex_tree(teb.subsystem_tib as nat, 0)))
            .push(("fiber_data_or_version"@, number_tree(teb.fiber_data_or_version as int)))
            .push(("fiber_data_or_version_hex"@, hex_tree(teb.fiber_data_or_version as nat, 0)))
            .push(("arbitrary_user_pointer"@, number_tree(teb.arbitrary_user_pointer as int)))
            .push(("arbitrary_user_pointer_hex"@, hex_tree(teb.arbitrary_user_pointer as nat, 0)))
            .push(("self_address"@, number_tree(teb.self_address as int)))
            .push(("self_address_hex"@, hex_tree(teb.self_address as nat, 0))),
    )
}

/// Builds the thread information block of a TEB.
pub fn build_teb_tib_json(teb: &ThreadTebInfo) -> (r: JsonValue)
    ensures
        tree(r) == teb_tib_tree(*teb),
{
    let mut fields = new_fields();
    put(&mut fields, "exception_list", number(teb.exception_list));
    put(&mut fields, "exception_list_hex", hex(teb.exception_list));
    put(&mut fields, "stack_base", number(teb.stack_base));
    put(&mut fields, "stack_base_hex", hex(teb.stack_base));
    put(&mut fields, "stack_limit", number(teb.stack_limit));
    put(&mut fields, "stack_limit_hex", hex(teb.stack_limit));
    put(&mut fields, "stack_size_bytes", optional_number(teb.stack_size_bytes));
    put(&mut fields, "stack_size_hex", optional_hex(teb.stack_size_bytes));
    put(&mut fields, "subsystem_tib", number(teb.subsystem_tib));
    put(&mut fields, "subsystem_tib_hex", hex(teb.subsystem_tib));
    put(&mut fields, "fiber_data_or_version", number(teb.fiber_data_or_version));
    put(&mut fields, "fiber_data_or_version_hex", hex(teb.fiber_data_or_version));
    put(&mut fields, "arbitrary_user_pointer", number(teb.arbitrary_user_pointer));
    put(&mut fields, "arbitrary_user_pointer_hex", hex(teb.arbitrary_user_pointer));
    put(&mut fields, "self_address", number(teb.self_address));
    put(&mut fields, "self_address_hex", hex(teb.self_address));
    object(fields)
}

/// The tree of the environment of a TEB.
pub open spec fn teb_environment_tree(teb: ThreadTebInfo) -> JsonTree {
    JsonTree::Object(
        no_fields()
            .push(("environment_pointer"@, number_tree(teb.environment_pointer as int)))
            .push(("environment_pointer_hex"@, hex_tree(teb.environment_pointer as nat, 0)))
            .push(("client_process_id"@, number_tree(teb.client_process_id as int)))
            .push(("client_process_id_hex"@, hex_tree(teb.client_process_id as nat, 0)))
            .push(("client_thread_id"@, number_tree(teb.client_thread_id as int)))
            .push(("client_thread_id_hex"@, hex_tree(teb.client_thread_id as nat, 0)))
            .push(("active_rpc_handle"@, number_tree(teb.active_rpc_handle as int)))
            .push(("active_rpc_handle_hex"@, hex_tree(teb.active_rpc_handle as nat, 0)))
            .push(("thread_local_storage_pointer"@, number_tree(teb.thread_local_storage_pointer as int)))
            .push(("thread_local_storage_pointer_hex"@, hex_tree(teb.thread_local_storage_pointer as nat, 0)))
            .push(("process_environment_block"@, number_tree(teb.process_environment_block as int)))
            .push(("process_environment_block_hex"@, hex_tree(teb.process_environment_block as nat, 0))),
    )
}

/// Builds the environment of a TEB.
pub fn build_teb_environment_json(teb: &ThreadTebInfo) -> (r: JsonValue)
    ensures
        tree(r) == teb_environment_tree(*teb),
{
    let mut fields = new_fields();
    put(&mut fields, "environment_pointer", number(teb.environment_pointer));
    put(&mut fields, "environment_pointer_hex", hex(teb.environment_pointer));
    put(&mut fields, "client_process_id", number(teb.client_process_id));
    put(&mut fields, "client_process_id_hex", hex(teb.client_process_id));
    put(&mut fields, "client_thread_id", number(teb.client_thread_id));
    put(&mut fields, "client_thread_id_hex", hex(teb.client_thread_id));
    put(&mut fields, "active_rpc_handle", number(teb.active_rpc_handle));
    put(&mut fields, "active_rpc_handle_hex", hex(teb.active_rpc_handle));
    put(&mut fields, "thread_local_storage_pointer", number(teb.thread_local_storage_pointer));
    put(&mut fields, "thread_local_storage_pointer_hex", hex(teb.thread_local_storage_pointer));
    put(&mut fields, "process_environment_block", number(teb.process_environment_block));
    put(&mut fields, "process_environment_block_hex", hex(teb.process_environment_block));
    object(fields)
}

/// The tree of the trust decisions of a TEB.
pub open spec fn teb_trust_tree(teb: ThreadTebInfo, expected_peb_address: usize) -> JsonTree {
    let peb_matches = teb.process_environment_block == expected_peb_address;
    let identity_matches = teb.self_pointer_matches && teb.client_process_id_matches
        && teb.client_thread_id_matches && peb_matches;
    JsonTree::Object(
        no_fields()
            .push(("self_pointer_matches"@, JsonTree::Bool(teb.self_pointer_matches)))
            .push(("client_process_id_matches"@, JsonTree::Bool(teb.client_process_id_matches)))
            .push(("client_thread_id_matches"@, JsonTree::Bool(teb.client_thread_id_matches)))
            .push(("process_environment_block_matches"@, JsonTree::Bool(peb_matches)))
            .push(("identity_matches"@, JsonTree::Bool(identity_matches))),
    )
}

/// Builds the trust decisions of a TEB.
pub fn build_teb_trust_json(teb: &ThreadTebInfo, expected_peb_address: usize) -> (r: JsonValue)
    ensures
        tree(r) == teb_trust_tree(*teb, expected_peb_address),
{
    let peb_matches: bool = teb.process_environment_block == expected_peb_address;
    let identity_matches: bool = teb.self_pointer_matches && teb.client_process_id_matches
        && teb.client_thread_id_matches && peb_matches;
    let mut fields = new_fields();
    put(&mut fields, "self_pointer_matches", flag(teb.self_pointer_matches));
    put(&mut fields, "client_process_id_matches", flag(teb.client_process_id_matches));
    put(&mut fields, "client_thread_id_matches", flag(teb.client_thread_id_matches));
    put(&mut fields, "process_environment_block_matches", flag(peb_matches));
    put(&mut fields, "identity_matches", flag(identity_matches));
    object(fields)
}

/// The tree of all saved fields and trust decisions of one TEB.
pub open spec fn teb_tree(teb: ThreadTebInfo, expected_peb_address: usize) -> JsonTree {
    JsonTree::Object(
        no_fields()
            .push(("teb_address"@, number_tree(teb.teb_address as int)))
            .push(("teb_address_hex"@, hex_tree(teb.teb_address as nat, 0)))
            .push(("thread"@, teb_thread_tree(teb)))
            .push(("nt_tib"@, teb_tib_tree(teb)))
            .push(("environment"@, teb_environment_tree(teb)))
            .push(("trust"@, teb_trust_tree(teb, expected_peb_address))),
    )
}

/// Builds all saved fields and trust decisions of one TEB.
pub fn build_teb_json(teb: &ThreadTebInfo, expected_peb_address: usize) -> (r: JsonValue)
    ensures
        tree(r) == teb_tree(*teb, expected_peb_address),
{
    let mut fields = new_fields();
    put(&mut fields, "teb_address", number(teb.teb_address));
    put(&mut fields, "teb_address_hex", hex(teb.teb_address));
    put(&mut fields, "thread", build_teb_thread_json(teb));
    put(&mut fields, "nt_tib", build_teb_tib_json(teb));
    put(&mut fields, "environment", build_teb_environment_json(teb));
    put(&mut fields, "trust", build_teb_trust_json(teb, expected_peb_address));
    object(fields)
}

/// The trees of the TEBs of a process.
pub open spec fn teb_trees(items: Seq<ThreadTebInfo>, expected_peb_address: usize) -> Seq<JsonTree> {
    Seq::new(items.len(), |i: int| teb_tree(items[i], expected_peb_address))
}

/// Builds the TEBs of a process.
pub fn build_teb_list(items: &[ThreadTebInfo], expected_peb_address: usize) -> (r: Vec<JsonValue>)
    ensures
        item_trees(r@) == teb_trees(items@, expected_peb_address),
        r@.len() == items@.len(),
{
    let mut values: Vec<JsonValue> = Vec::with_capacity(items.len());
    let mut index: usize = 0;
    while index < items.len()
        invariant
            index <= items@.len(),
            values@.len() == index,
            forall|i: int|
                0 <= i < index ==> tree(#[trigger] values@[i]) == teb_trees(
                    items@, expected_peb_address,
                )[i],
        decreases items.len() - index,
    {
        values.push(build_teb_json(&items[index], expected_peb_address));
        index += 1;
    }
    assert(item_trees(values@) =~= teb_trees(items@, expected_peb_address));
    values
}

/// The tree of the failure of one thread.
pub open spec fn teb_failure_tree(failure: ThreadTebFailure) -> JsonTree {
    JsonTree::Object(
        no_fields()
            .push(("thread_id"@, number_tree(failure.thread_id as int)))
            .push(("thread_id_hex"@, hex_tree(failure.thread_id as nat, 0)))
            .push(("error"@, thread_teb_error_tree(failure.error))),
    )
}

/// Builds the failure of one thread.
pub fn build_teb_failure_json(failure: &ThreadTebFailure) -> (r: JsonValue)
    ensures
        tree(r) == teb_failure_tree(*failure),
{
    let mut fields = new_fields();
    put(&mut fields, "thread_id", number32(failure.thread_id));
    put(&mut fields, "thread_id_hex", hex32(failure.thread_id, 0));
    put(&mut fields, "error", build_thread_teb_error_json(&failure.error));
    object(fields)
}

/// The trees of the failures of threads.
pub open spec fn teb_failure_trees(items: Seq<ThreadTebFailure>) -> Seq<JsonTree> {
    Seq::new(items.len(), |i: int| teb_failure_tree(items[i]))
}

/// Builds the failures of threads.
pub fn build_teb_failure_list(items: &[ThreadTebFailure]) -> (r: Vec<JsonValue>)
    ensures
        item_trees(r@) == teb_failure_trees(items@),
        r@.len() == items@.len(),
{
    let mut values: Vec<JsonValue> = Vec::with_capacity(items.len());
    let mut index: usize = 0;
    while index < items.len()
        invariant
            index <= items@.len(),
            values@.len() == index,
            forall|i: int|
                0 <= i < index ==> tree(#[trigger] values@[i]) == teb_failure_trees(
                    items@,
                )[i],
        decreases items.len() - index,
    {
        values.push(build_teb_failure_json(&items[index]));
        index += 1;
    }
    assert(item_trees(values@) =~= teb_failure_trees(items@));
    values
}

/// The tree of collected TEBs.
pub open spec fn teb_collection_tree(tebs: ProcessTebCollection, expected_peb_address: usize) -> JsonTree {
    JsonTree::Object(
        no_fields()
            .push(("schema_version"@, number_tree(PROCESS_TRIAGE_SCHEMA_VERSION as int)))
            .push(("status"@, JsonTree::Text(completeness_label(tebs.failures@.len() == 0))))
            .push(("process_id"@, number_tree(tebs.process_id as int)))
            .push(("process_id_hex"@, hex_tree(tebs.process_id as nat, 0)))
            .push(("teb_count"@, number_tree(tebs.tebs@.len() as int)))
            .push(("failure_count"@, number_tree(tebs.failures@.len() as int)))
            .push(("tebs"@, JsonTree::List(teb_trees(tebs.tebs@, expected_peb_address))))
            .push(("failures"@, JsonTree::List(teb_failure_trees(tebs.failures@)))),
    )
}

/// Builds collected TEBs.
pub fn build_teb_collection_json(tebs: &ProcessTebCollection, expected_peb_address: usize) -> (r: JsonValue)
    ensures
        tree(r) == teb_collection_tree(*tebs, expected_peb_address),
{
    let mut fields = new_fields();
    put(&mut fields, "schema_version", number32(PROCESS_TRIAGE_SCHEMA_VERSION));
    put(&mut fields, "status", text(completeness_name(tebs.failures.len() == 0)));
    put(&mut fields, "process_id", number32(tebs.process_id));
    put(&mut fields, "process_id_hex", hex32(tebs.process_id, 0));
    put(&mut fields, "teb_count", number(tebs.tebs.len()));
    put(&mut fields, "failure_count", number(tebs.failures.len()));
    put(&mut fields, "tebs", list(build_teb_list(&tebs.tebs, expected_peb_address)));
    put(&mut fields, "failures", list(build_teb_failure_list(&tebs.failures)));
    object(fields)
}

/// The tree of a failed TEB collection.
pub open spec fn failed_tebs_tree(error: ProcessTebCollectionError) -> JsonTree {
    JsonTree::Object(
        no_fields()
            .push(("schema_version"@, number_tree(PROCESS_TRIAGE_SCHEMA_VERSION as int)))
            .push(("status"@, JsonTree::Text("failed"@)))
            .push(("teb_count"@, number_tree(0)))
            .push(("failure_count"@, number_tree(1)))
            .push(("tebs"@, JsonTree::List(Seq::empty())))
            .push(("error"@, process_teb_error_tree(error))),
    )
}

/// Builds a failed TEB collection.
pub fn build_failed_tebs_json(error: &ProcessTebCollectionError) -> (r: JsonValue)
    ensures
        tree(r) == failed_tebs_tree(*error),
{
    let mut fields = new_fields();
    put(&mut fields, "schema_version", number32(PROCESS_TRIAGE_SCHEMA_VERSION));
    put(&mut fields, "status", text("failed"));
    put(&mut fields, "teb_count", number(0));
    put(&mut fields, "failure_count", number(1));
    put(&mut fields, "tebs", empty_list());
    put(&mut fields, "error", build_process_teb_error_json(error));
    object(fields)
}

/// A list without items.
fn empty_list() -> (r: JsonValue)
    ensures
        tree(r) == JsonTree::List(Seq::empty()),
{
    let items: Vec<JsonValue> = Vec::new();
    assert(item_trees(items@) =~= Seq::<JsonTree>::empty());
    list(items)
}

/// The tree of a TEB collection or of its failure.
pub open spec fn tebs_tree(
    tebs: Result<ProcessTebCollection, ProcessTebCollectionError>,
    expected_peb_address: usize,
) -> JsonTree {
    match tebs {
        Ok(tebs) => teb_collection_tree(tebs, expected_peb_address),
        Err(error) => failed_tebs_tree(error),
    }
}

/// Builds process TEB collection, trust checks, and per-thread failures.
pub fn build_tebs_json(collection: &ProcessTriageCollection) -> (r: JsonValue)
    ensures
        tree(r) == tebs_tree(collection.tebs, collection.validated_process.peb_address),
{
    match &collection.tebs {
        Ok(tebs) => build_teb_collection_json(tebs, collection.validated_process.peb_address),
        Err(error) => build_failed_tebs_json(error),
    }
}

/// Identity of a TEB is trusted only when it names itself, its process, its thread and the
/// validated PEB.
pub proof fn law_identity_trust_needs_every_match(teb: ThreadTebInfo, expected_peb_address: usize)
    ensures
        teb_trust_tree(teb, expected_peb_address)->Object_0.last() == (
            "identity_matches"@,
            JsonTree::Bool(
                teb.self_pointer_matches && teb.client_process_id_matches
                    && teb.client_thread_id_matches && teb.process_environment_block
                    == expected_peb_address,
            ),
        ),
{
}

} // verus!
