//! Headers, sections and validation errors of a PE image.

use vstd::prelude::*;

use crate::memory::{MemoryRegionQueryError, MemoryRegionType, ProcessMemoryReadError};

verus! {

/// The COFF file header.
#[derive(Clone, Copy, Debug, Eq, PartialEq, Structural)]
pub struct FileHeader {
    pub machine: u16,
    pub number_of_sections: u16,
    pub time_date_stamp: u32,
    pub size_of_optional_header: u16,
    pub characteristics: u16,
}

/// The PE32+ optional-header fields that the analysis reads, without the data directories.
#[derive(Clone, Copy, Debug, Eq, PartialEq, Structural)]
pub struct OptionalHeader {
    pub magic: u16,
    pub address_of_entry_point: u32,
    pub base_of_code: u32,
    pub image_base: u64,
    pub section_alignment: u32,
    pub file_alignment: u32,
    pub win32_version_value: u32,
    pub size_of_image: u32,
    pub size_of_headers: u32,
    pub check_sum: u32,
    pub subsystem: u16,
    pub dll_characteristics: u16,
    pub loader_flags: u32,
    pub number_of_rva_and_sizes: u32,
}

/// One optional-header data-directory entry.
#[derive(Clone, Copy, Debug, Eq, PartialEq, Structural)]
pub struct DataDirectory {
    pub virtual_address: u32,
    pub size: u32,
}

/// Number of data-directory slots in a PE32+ optional header.
pub const DATA_DIRECTORY_COUNT: usize = 16;

/// The NT headers of one image.
#[derive(Clone, Debug, Eq, PartialEq)]
pub struct NtHeaders {
    pub signature: u32,
    pub file_header: FileHeader,
    pub optional_header: OptionalHeader,
    pub data_directories: Vec<DataDirectory>,
}

/// The mathematical value of NT headers.
pub ghost struct NtHeadersView {
    pub signature: u32,
    pub file_header: FileHeader,
    pub optional_header: OptionalHeader,
    pub data_directories: Seq<DataDirectory>,
}

impl View for NtHeaders {
    type V = NtHeadersView;

    open spec fn view(&self) -> NtHeadersView {
        NtHeadersView {
            signature: self.signature,
            file_header: self.file_header,
            optional_header: self.optional_header,
            data_directories: self.data_directories@,
        }
    }
}

impl NtHeadersView {
    /// Every header holds exactly the format's number of data-directory slots.
    pub open spec fn wf(self) -> bool {
        self.data_directories.len() == DATA_DIRECTORY_COUNT
    }
}

/// One section-table entry.
#[derive(Clone, Copy, Debug, Eq, PartialEq)]
pub struct SectionHeader {
    pub name: [u8; 8],
    pub virtual_size: u32,
    pub virtual_address: u32,
    pub size_of_raw_data: u32,
    pub pointer_to_raw_data: u32,
    pub characteristics: u32,
}

/// Owns copied headers and sections of one PE image.
#[derive(Clone, Debug, Eq, PartialEq)]
pub struct PeImage {
    pub nt_headers: NtHeaders,
    pub nt_headers_offset: usize,
    pub sections: Vec<SectionHeader>,
}

impl PeImage {
    /// The headers hold every data-directory slot.
    pub open spec fn wf(&self) -> bool {
        self.nt_headers@.wf()
    }
}

/// Describes process-image bytes that the loader validly discarded after mapping.
#[derive(Clone, Copy, Debug, Eq, PartialEq, Structural)]
pub struct UnavailablePeRange {
    pub rva: usize,
    pub size: usize,
}

/// Owns a bounded mapped-image snapshot, its validated PE view, and discarded ranges.
#[derive(Clone, Debug, Eq, PartialEq)]
pub struct ValidatedPeSnapshot {
    pub bytes: Vec<u8>,
    pub pe: PeImage,
    pub unavailable_ranges: Vec<UnavailablePeRange>,
}

/// Describes one section from an already validated mapped PE image.
#[derive(Clone, Debug, Eq, PartialEq)]
pub struct PeSectionInfo {
    pub name: String,
    pub rva: usize,
    pub virtual_size: usize,
    pub raw_size: usize,
    pub mapped_size: usize,
    pub raw_file_offset: usize,
    pub characteristics: u32,
}

/// Describes a loaded image whose remote PE headers and mapping passed strict validation.
#[derive(Debug, Eq, PartialEq)]
pub struct ValidatedPeImage {
    pub base_address: usize,
    pub image_size: usize,
    pub entry_point_rva: usize,
    pub section_count: u16,
    pub identity: Vec<u8>,
}

/// Identifies the remote PE component that could not be read completely.
#[derive(Clone, Copy, Debug, Eq, PartialEq, Structural)]
pub enum PeReadTarget {
    DosHeader,
    NtHeaders,
    SectionTable,
    ImageSnapshot,
}

/// Explains why PE parsing or strict loaded-image validation failed.
#[allow(inconsistent_fields)]
#[derive(Clone, Copy, Debug, Eq, PartialEq, Structural)]
pub enum PeValidationError {
    InvalidProcessHandle,
    ImageBaseUnavailable,
    DataRangeOverflow { offset: usize, bytes_requested: usize },
    DataTooSmall { offset: usize, bytes_requested: usize, data_size: usize },
    InvalidDosSignature { signature: u16 },
    InvalidNtHeadersOffset { offset: i32 },
    InvalidNtSignature { signature: u32 },
    UnsupportedMachine { machine: u16 },
    MissingExecutableImageCharacteristic { characteristics: u16 },
    InvalidOptionalHeaderSize { size: u16 },
    UnsupportedOptionalHeaderMagic { magic: u16 },
    InvalidDataDirectoryCount { declared_count: usize, available_count: usize },
    NonZeroReservedOptionalHeaderFields { win32_version_value: u32, loader_flags: u32 },
    InvalidSectionCount { count: u16 },
    InvalidImageAlignment { section_alignment: usize, file_alignment: usize },
    InvalidImageSize,
    ImageSizeExceedsMaximum { image_size: usize, maximum_image_size: usize },
    InvalidImageBase { image_base: u64 },
    ImageOutsideData { image_size: usize, data_size: usize },
    ValidatedImageSizeMismatch { expected_size: usize, actual_size: usize },
    ValidatedImageIdentityMismatch {
        expected_image_size: usize,
        actual_image_size: usize,
        expected_entry_point_rva: usize,
        actual_entry_point_rva: usize,
        expected_section_count: u16,
        actual_section_count: u16,
        expected_identity_hash: u64,
        actual_identity_hash: u64,
    },
    InvalidHeadersSize { size_of_headers: usize, image_size: usize },
    HeadersOutsideData { size_of_headers: usize, data_size: usize },
    SectionTableRangeOverflow,
    SectionTableOutsideHeaders { section_table_end: usize, size_of_headers: usize },
    SectionTableOutsideData { section_table_end: usize, data_size: usize },
    SectionTableSizeMismatch { expected_size: usize, actual_size: usize },
    SectionBufferAllocationFailed { section_count: usize },
    InvalidSectionLayout { index: usize, section_rva: usize },
    InvalidSectionRawLayout {
        index: usize,
        raw_size: usize,
        raw_pointer: usize,
        file_alignment: usize,
    },
    InvalidSectionRange { index: usize, section_rva: usize, mapped_size: usize, image_size: usize },
    OverlappingSections { index: usize, previous_end_rva: usize, section_rva: usize },
    InvalidEntryPoint { entry_point_rva: usize, image_size: usize },
    InvalidBaseOfCode { base_of_code_rva: usize, expected_base_of_code_rva: usize },
    InvalidFinalImageSize { expected_image_size: usize, actual_image_size: usize },
    InvalidDataDirectoryRange {
        index: usize,
        virtual_address: usize,
        size: usize,
        image_size: usize,
    },
    NtHeadersAddressOverflow { base_address: usize, nt_headers_offset: usize },
    SectionTableAddressOverflow { base_address: usize, section_table_offset: usize },
    RemoteReadFailed { target: PeReadTarget, address: usize, error: ProcessMemoryReadError },
    ImageRangeOverflow { base_address: usize, image_size: usize },
    ImageRegionQueryFailed { address: usize, error: MemoryRegionQueryError },
    InvalidImageRegion {
        address: usize,
        allocation_base: usize,
        state: u32,
        region_type: MemoryRegionType,
    },
    ImageRegionRangeOverflow { base_address: usize, region_size: usize },
    ImageRegionDidNotAdvance { address: usize, region_end: usize },
    ImageRegionLimitExceeded { image_size: usize, maximum_region_count: usize },
    UnreadableImageRegion { address: usize, state: u32, protect: u32 },
    ImageBufferAllocationFailed { image_size: usize },
    IdentityBufferAllocationFailed { bytes_requested: usize },
    ImageSnapshotSizeExceedsLimit { image_size: usize, maximum_snapshot_size: usize },
}

} // verus!
