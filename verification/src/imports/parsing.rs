//! The standard import directory.

use vstd::prelude::*;

use crate::bytes::{get_u32, get_u64, le32, le64};
use crate::pe::locate::{data_directory, get_data_directory, get_file_offset_from_pe};
use crate::pe::types::{NtHeadersView, PeImage};
use crate::text::{c_string, decimal, number_sign, read_c_string};
use crate::windows::IMAGE_DIRECTORY_ENTRY_IMPORT;

verus! {

/// High bit identifying an ordinal import in an x64 thunk.
pub const IMAGE_ORDINAL_FLAG64: u64 = 0x8000_0000_0000_0000;

/// Byte size of one import descriptor.
pub const IMPORT_DESCRIPTOR_SIZE: usize = 20;

/// Byte size of one x64 thunk.
pub const THUNK_SIZE: usize = 8;

/// Byte offset of the name in an import-by-name record.
pub const IMPORT_NAME_OFFSET: usize = 2;

/// Describes one import-table entry before its code references are grouped.
#[derive(Clone, Debug, Eq, PartialEq)]
pub struct PeImportEntry {
    pub library_name: String,
    pub function_name: String,
    pub ordinal: Option<u16>,
    pub iat_rva: usize,
    pub file_offset: Option<usize>,
}

/// The mathematical value of an import-table entry.
pub ghost struct ImportEntryView {
    pub library_name: Seq<char>,
    pub function_name: Seq<char>,
    pub ordinal: Option<u16>,
    pub iat_rva: usize,
    pub file_offset: Option<usize>,
}

impl View for PeImportEntry {
    type V = ImportEntryView;

    open spec fn view(&self) -> ImportEntryView {
        ImportEntryView {
            library_name: self.library_name@,
            function_name: self.function_name@,
            ordinal: self.ordinal,
            iat_rva: self.iat_rva,
            file_offset: self.file_offset,
        }
    }
}

/// The views of a run of import-table entries.
pub open spec fn entry_views(entries: Seq<PeImportEntry>) -> Seq<ImportEntryView> {
    entries.map_values(|entry: PeImportEntry| entry@)
}

/// The import-descriptor fields that the analysis reads.
#[derive(Clone, Copy, Debug, Eq, PartialEq, Structural)]
pub struct ImportDescriptor {
    pub original_first_thunk: u32,
    pub name: u32,
    pub first_thunk: u32,
}

/// Where the import descriptors of an image are.
#[derive(Clone, Copy, Debug, Eq, PartialEq, Structural)]
pub struct ImportDescriptorTable {
    pub start: usize,
    pub count: usize,
}

/// The import descriptor stored at `at`.
pub open spec fn descriptor_at(data: Seq<u8>, at: int) -> ImportDescriptor {
    ImportDescriptor {
        original_first_thunk: le32(data, at),
        name: le32(data, at + 12),
        first_thunk: le32(data, at + 16),
    }
}

/// Descriptor `index` of a table.
pub open spec fn table_descriptor(
    data: Seq<u8>,
    table: ImportDescriptorTable,
    index: int,
) -> ImportDescriptor {
    descriptor_at(data, table.start + index * IMPORT_DESCRIPTOR_SIZE)
}

/// The import descriptors of an image, when it has a standard import directory inside `len` bytes
/// with room for one at least.
pub open spec fn import_table(h: NtHeadersView, len: int) -> Option<ImportDescriptorTable> {
    match data_directory(h, IMAGE_DIRECTORY_ENTRY_IMPORT as int) {
        None => None,
        Some(directory) => if directory.size == 0 || directory.virtual_address == 0
            || directory.virtual_address + directory.size > usize::MAX || len
            < directory.virtual_address + directory.size || directory.size
            < IMPORT_DESCRIPTOR_SIZE {
            None
        } else {
            Some(
                ImportDescriptorTable {
                    start: directory.virtual_address as usize,
                    count: (directory.size as int / IMPORT_DESCRIPTOR_SIZE as int) as usize,
                },
            )
        },
    }
}

impl ImportDescriptorTable {
    /// The table lies inside `len` bytes.
    pub open spec fn inside(&self, len: nat) -> bool {
        self.start + self.count * IMPORT_DESCRIPTOR_SIZE <= len
    }
}

/// Locates the import descriptors of a loaded image.
pub fn get_import_descriptors(pe_data: &[u8], pe: &PeImage) -> (r: Option<ImportDescriptorTable>)
    requires
        pe.wf(),
    ensures
        r == import_table(pe.nt_headers@, pe_data@.len() as int),
        r is Some ==> r->0.inside(pe_data@.len()),
{
    let directory = match get_data_directory(pe, IMAGE_DIRECTORY_ENTRY_IMPORT) {
        Some(value) => value,
        None => return None,
    };
    if directory.size == 0 || directory.virtual_address == 0 {
        return None;
    }
    let start: usize = directory.virtual_address as usize;
    let end: usize = match start.checked_add(directory.size as usize) {
        Some(value) => value,
        None => return None,
    };
    if pe_data.len() < end {
        return None;
    }
    let count: usize = directory.size as usize / IMPORT_DESCRIPTOR_SIZE;
    if count == 0 {
        return None;
    }
    Some(ImportDescriptorTable { start, count })
}

/// Reads one descriptor of a table.
pub fn read_descriptor(pe_data: &[u8], table: &ImportDescriptorTable, index: usize) -> (r:
    ImportDescriptor)
    requires
        table.inside(pe_data@.len()),
        index < table.count,
    ensures
        r == table_descriptor(pe_data@, *table, index as int),
{
    assert((index + 1) * IMPORT_DESCRIPTOR_SIZE <= table.count * IMPORT_DESCRIPTOR_SIZE);
    assert(table.start + (index + 1) * IMPORT_DESCRIPTOR_SIZE <= pe_data.len());
    let at: usize = table.start + index * IMPORT_DESCRIPTOR_SIZE;
    ImportDescriptor {
        original_first_thunk: get_u32(pe_data, at),
        name: get_u32(pe_data, at + 12),
        first_thunk: get_u32(pe_data, at + 16),
    }
}

/// Whether a descriptor is the null terminator entry.
pub open spec fn empty_descriptor(descriptor: ImportDescriptor) -> bool {
    descriptor.original_first_thunk == 0 && descriptor.name == 0 && descriptor.first_thunk == 0
}

/// Reports whether an import descriptor is the null terminator entry.
pub fn is_empty_import_descriptor(descriptor: &ImportDescriptor) -> (r: bool)
    ensures
        r == empty_descriptor(*descriptor),
{
    descriptor.original_first_thunk == 0 && descriptor.name == 0 && descriptor.first_thunk == 0
}

/// The RVA of the lookup thunks of a descriptor.
pub open spec fn lookup_table(descriptor: ImportDescriptor) -> int {
    if descriptor.original_first_thunk != 0 {
        descriptor.original_first_thunk as int
    } else {
        descriptor.first_thunk as int
    }
}

/// Whether a descriptor has both thunk tables.
pub open spec fn has_thunks(descriptor: ImportDescriptor) -> bool {
    lookup_table(descriptor) != 0 && descriptor.first_thunk != 0
}

/// Lookup thunk `index` of a descriptor, when it lies inside the data and is not zero.
pub open spec fn lookup_thunk(
    data: Seq<u8>,
    descriptor: ImportDescriptor,
    index: int,
) -> Option<u64> {
    let at = lookup_table(descriptor) + index * THUNK_SIZE;
    if at + THUNK_SIZE > data.len() || le64(data, at) == 0 {
        None
    } else {
        Some(le64(data, at))
    }
}

/// What one lookup thunk gives.
pub ghost enum ThunkStep {
    Stop,
    Skip,
    Entry(ImportEntryView),
}

/// What lookup thunk `index` of a descriptor of `library` gives.
pub open spec fn thunk_step(
    data: Seq<u8>,
    pe: PeImage,
    descriptor: ImportDescriptor,
    library: Seq<char>,
    index: int,
) -> ThunkStep {
    let iat = descriptor.first_thunk + index * THUNK_SIZE;
    match lookup_thunk(data, descriptor, index) {
        None => ThunkStep::Stop,
        Some(value) => if value >= IMAGE_ORDINAL_FLAG64 {
            if iat > usize::MAX {
                ThunkStep::Stop
            } else {
                let ordinal = (value % 0x1_0000) as u16;
                ThunkStep::Entry(
                    ImportEntryView {
                        library_name: library,
                        function_name: seq!['#'] + decimal(ordinal as nat),
                        ordinal: Some(ordinal),
                        iat_rva: iat as usize,
                        file_offset: pe.file_offset(iat),
                    },
                )
            }
        } else if value + IMPORT_NAME_OFFSET > usize::MAX {
            ThunkStep::Stop
        } else {
            match c_string(data, value + IMPORT_NAME_OFFSET) {
                None => ThunkStep::Skip,
                Some(function) => if iat > usize::MAX {
                    ThunkStep::Stop
                } else {
                    ThunkStep::Entry(
                        ImportEntryView {
                            library_name: library,
                            function_name: function,
                            ordinal: None,
                            iat_rva: iat as usize,
                            file_offset: pe.file_offset(iat),
                        },
                    )
                },
            }
        },
    }
}

/// The imports of a descriptor from lookup thunk `index` on, appended to `found`.
pub open spec fn descriptor_entries(
    data: Seq<u8>,
    pe: PeImage,
    descriptor: ImportDescriptor,
    library: Seq<char>,
    index: int,
    found: Seq<ImportEntryView>,
) -> Seq<ImportEntryView>
    decreases data.len() - (lookup_table(descriptor) + index * THUNK_SIZE),
{
    match thunk_step(data, pe, descriptor, library, index) {
        ThunkStep::Stop => found,
        ThunkStep::Skip => descriptor_entries(data, pe, descriptor, library, index + 1, found),
        ThunkStep::Entry(entry) => descriptor_entries(
            data,
            pe,
            descriptor,
            library,
            index + 1,
            found.push(entry),
        ),
    }
}

/// Collects every named or ordinal import from one import descriptor.
pub fn collect_import_entries_from_descriptor(
    pe_data: &[u8],
    pe: &PeImage,
    descriptor: &ImportDescriptor,
    library_name: &str,
    imports: &mut Vec<PeImportEntry>,
)
    ensures
        entry_views(final(imports)@) == (if has_thunks(*descriptor) {
            descriptor_entries(
                pe_data@,
                *pe,
                *descriptor,
                library_name@,
                0,
                entry_views(old(imports)@),
            )
        } else {
            entry_views(old(imports)@)
        }),
{
    let lookup_table_rva: usize = if descriptor.original_first_thunk != 0 {
        descriptor.original_first_thunk as usize
    } else {
        descriptor.first_thunk as usize
    };
    if lookup_table_rva == 0 || descriptor.first_thunk == 0 {
        return;
    }
    let ghost expected = descriptor_entries(
        pe_data@,
        *pe,
        *descriptor,
        library_name@,
        0,
        entry_views(imports@),
    );
    let mut thunk_index: usize = 0;
    let mut thunk_rva: usize = lookup_table_rva;
    while thunk_rva <= pe_data.len() && pe_data.len() - thunk_rva >= THUNK_SIZE
        invariant_except_break
            lookup_table_rva == lookup_table(*descriptor),
            thunk_rva == lookup_table_rva + thunk_index * THUNK_SIZE,
            expected == descriptor_entries(
                pe_data@,
                *pe,
                *descriptor,
                library_name@,
                thunk_index as int,
                entry_views(imports@),
            ),
        ensures
            entry_views(imports@) == expected,
        decreases pe_data.len() - thunk_rva,
    {
        let thunk_value: u64 = get_u64(pe_data, thunk_rva);
        if thunk_value == 0 {
            break;
        }
        let named: bool = thunk_value < IMAGE_ORDINAL_FLAG64;
        let mut function_name: Option<String> = None;
        let mut ordinal: Option<u16> = None;
        if named {
            if thunk_value > usize::MAX as u64 {
                break;
            }
            let function_name_rva: usize = match (thunk_value as usize).checked_add(
                IMPORT_NAME_OFFSET,
            ) {
                Some(value) => value,
                None => {
                    break;
                },
            };
            function_name = read_c_string(pe_data, function_name_rva);
        } else {
            let value: u16 = (thunk_value % 0x1_0000) as u16;
            function_name = Some(number_sign(value));
            ordinal = Some(value);
        }
        match function_name {
            None => {},
            Some(function_name) => {
                assert(thunk_index * THUNK_SIZE <= usize::MAX);
                let iat_rva: usize = match (descriptor.first_thunk as usize).checked_add(
                    thunk_index * THUNK_SIZE,
                ) {
                    Some(value) => value,
                    None => {
                        break;
                    },
                };
                let entry = PeImportEntry {
                    library_name: library_name.to_owned(),
                    function_name,
                    ordinal,
                    iat_rva,
                    file_offset: get_file_offset_from_pe(pe, iat_rva),
                };
                let ghost before = imports@;
                imports.push(entry);
                assert(entry_views(imports@) =~= entry_views(before).push(entry@));
            },
        }
        thunk_index += 1;
        thunk_rva += THUNK_SIZE;
    }
}

/// The imports of the descriptors from `index` on, appended to `found`. The null descriptor ends
/// the table; a descriptor without a readable library name is passed over.
pub open spec fn table_entries(
    data: Seq<u8>,
    pe: PeImage,
    table: ImportDescriptorTable,
    index: int,
    found: Seq<ImportEntryView>,
) -> Seq<ImportEntryView>
    decreases table.count - index,
{
    let descriptor = table_descriptor(data, table, index);
    if index >= table.count || empty_descriptor(descriptor) {
        found
    } else {
        match c_string(data, descriptor.name as int) {
            Some(library) => table_entries(
                data,
                pe,
                table,
                index + 1,
                if has_thunks(descriptor) {
                    descriptor_entries(data, pe, descriptor, library, 0, found)
                } else {
                    found
                },
            ),
            None => table_entries(data, pe, table, index + 1, found),
        }
    }
}

/// Every named and ordinal standard import of an image.
pub open spec fn import_entries(data: Seq<u8>, pe: PeImage) -> Seq<ImportEntryView> {
    match import_table(pe.nt_headers@, data.len() as int) {
        Some(table) => table_entries(data, pe, table, 0, Seq::empty()),
        None => Seq::empty(),
    }
}

/// Collects imports from a PE image that has already passed strict validation.
pub fn collect_import_entries_from_pe(pe_data: &[u8], pe: &PeImage) -> (r: Vec<PeImportEntry>)
    requires
        pe.wf(),
    ensures
        entry_views(r@) == import_entries(pe_data@, *pe),
{
    let mut imports: Vec<PeImportEntry> = Vec::new();
    assert(entry_views(imports@) =~= Seq::<ImportEntryView>::empty());
    let table = match get_import_descriptors(pe_data, pe) {
        Some(value) => value,
        None => return imports,
    };
    let ghost expected = table_entries(pe_data@, *pe, table, 0, Seq::empty());
    let mut index: usize = 0;
    while index < table.count
        invariant_except_break
            table.inside(pe_data@.len()),
            index <= table.count,
            expected == table_entries(
                pe_data@,
                *pe,
                table,
                index as int,
                entry_views(imports@),
            ),
        ensures
            entry_views(imports@) == expected,
        decreases table.count - index,
    {
        let descriptor = read_descriptor(pe_data, &table, index);
        if is_empty_import_descriptor(&descriptor) {
            break;
        }
        match read_c_string(pe_data, descriptor.name as usize) {
            Some(library_name) => {
                collect_import_entries_from_descriptor(
                    pe_data,
                    pe,
                    &descriptor,
                    library_name.as_str(),
                    &mut imports,
                );
            },
            None => {},
        }
        index += 1;
    }
    imports
}

} // verus!
