//! Reading and checking the DOS header, the NT headers and the section table.

use vstd::prelude::*;

use super::types::{
    DataDirectory, FileHeader, NtHeaders, NtHeadersView, OptionalHeader, PeImage,
    PeValidationError, SectionHeader, DATA_DIRECTORY_COUNT,
};
use crate::arith::{is_power_of_two, power_of_two};
use crate::bytes::{
    fits, get_u16, get_u32, get_u64, le16, le32, le64, signed32, to_signed32,
};
use crate::windows::{
    IMAGE_DIRECTORY_ENTRY_ARCHITECTURE, IMAGE_DIRECTORY_ENTRY_GLOBALPTR,
    IMAGE_DIRECTORY_ENTRY_SECURITY, IMAGE_DOS_SIGNATURE, IMAGE_FILE_EXECUTABLE_IMAGE,
    IMAGE_FILE_MACHINE_AMD64, IMAGE_NT_OPTIONAL_HDR64_MAGIC, IMAGE_NT_SIGNATURE,
};

verus! {

/// Maximum section count accepted by the Windows image loader.
pub const WINDOWS_IMAGE_SECTION_LIMIT: usize = 96;

/// Maximum mapped size accepted for one PE32+ image.
pub const MAXIMUM_IMAGE_SIZE: usize = 0x8000_0000;

/// Required alignment of the PE signature and COFF header.
pub const PE_HEADER_ALIGNMENT: usize = 8;

/// Minimum standard raw-file alignment for page-aligned images.
pub const MIN_FILE_ALIGNMENT: usize = 0x200;

/// Maximum PE raw-file alignment accepted by the format.
pub const MAX_FILE_ALIGNMENT: usize = 0x1_0000;

/// x64 page size used by the PE low-alignment rule.
pub const IMAGE_PAGE_SIZE: usize = 0x1000;

/// Required alignment of the preferred PE image base.
pub const IMAGE_BASE_ALIGNMENT: u64 = 0x1_0000;

/// Final PE data-directory slot reserved by the format.
pub const RESERVED_DATA_DIRECTORY_INDEX: usize = 15;

/// Byte size of the DOS header.
pub const DOS_HEADER_SIZE: usize = 64;

/// Byte size of the PE signature.
pub const SIGNATURE_SIZE: usize = 4;

/// Byte size of the COFF file header.
pub const FILE_HEADER_SIZE: usize = 20;

/// Byte offset of the optional header from the PE signature.
pub const OPTIONAL_HEADER_OFFSET: usize = 24;

/// Byte size of a complete PE32+ optional header.
pub const OPTIONAL_HEADER_SIZE: usize = 240;

/// Byte offset of the data directories in the optional header.
pub const DATA_DIRECTORY_OFFSET: usize = 112;

/// Byte size of one data-directory entry.
pub const DATA_DIRECTORY_SIZE: usize = 8;

/// Byte size of one section-table entry.
pub const SECTION_HEADER_SIZE: usize = 40;

/// The DOS-header fields that locate the NT headers.
#[derive(Clone, Copy, Debug, Eq, PartialEq, Structural)]
pub struct DosHeader {
    pub e_magic: u16,
    pub e_lfanew: i32,
}

/// The header facts needed to read and validate a section table.
#[derive(Clone, Copy, Debug, Eq, PartialEq, Structural)]
pub struct ValidatedNtHeaders {
    pub section_table_offset: usize,
    pub section_table_size: usize,
    pub image_size: usize,
}

/// The DOS header stored at the start of `bytes`.
pub open spec fn dos_header_at(bytes: Seq<u8>) -> DosHeader {
    DosHeader { e_magic: le16(bytes, 0), e_lfanew: signed32(le32(bytes, 60)) }
}

/// Why a DOS header is refused.
pub open spec fn dos_header_error(dos: DosHeader) -> Option<PeValidationError> {
    if dos.e_magic != IMAGE_DOS_SIGNATURE {
        Some(PeValidationError::InvalidDosSignature { signature: dos.e_magic })
    } else if dos.e_lfanew < DOS_HEADER_SIZE || dos.e_lfanew as int % PE_HEADER_ALIGNMENT as int
        != 0 {
        Some(PeValidationError::InvalidNtHeadersOffset { offset: dos.e_lfanew })
    } else {
        None
    }
}

/// The declared optional-header bytes, cut to the known header and filled up with zeros.
pub open spec fn optional_bytes(bytes: Seq<u8>, at: int, declared: int) -> Seq<u8> {
    Seq::new(
        OPTIONAL_HEADER_SIZE as nat,
        |k: int|
            if k < declared {
                bytes[at + k]
            } else {
                0u8
            },
    )
}

/// The data-directory entry stored at `at`.
pub open spec fn data_directory_at(bytes: Seq<u8>, at: int) -> DataDirectory {
    DataDirectory { virtual_address: le32(bytes, at), size: le32(bytes, at + 4) }
}

/// The optional header stored in a complete run of optional-header bytes.
pub open spec fn optional_header_in(opt: Seq<u8>) -> OptionalHeader {
    OptionalHeader {
        magic: le16(opt, 0),
        address_of_entry_point: le32(opt, 16),
        base_of_code: le32(opt, 20),
        image_base: le64(opt, 24),
        section_alignment: le32(opt, 32),
        file_alignment: le32(opt, 36),
        win32_version_value: le32(opt, 52),
        size_of_image: le32(opt, 56),
        size_of_headers: le32(opt, 60),
        check_sum: le32(opt, 64),
        subsystem: le16(opt, 68),
        dll_characteristics: le16(opt, 70),
        loader_flags: le32(opt, 104),
        number_of_rva_and_sizes: le32(opt, 108),
    }
}

/// The file header stored at `at`.
pub open spec fn file_header_at(bytes: Seq<u8>, at: int) -> FileHeader {
    FileHeader {
        machine: le16(bytes, at),
        number_of_sections: le16(bytes, at + 2),
        time_date_stamp: le32(bytes, at + 4),
        size_of_optional_header: le16(bytes, at + 16),
        characteristics: le16(bytes, at + 18),
    }
}

/// The NT headers stored at `at`, reading no optional-header byte beyond the declared ones.
pub open spec fn nt_headers_at(bytes: Seq<u8>, at: int) -> NtHeadersView {
    let file_header = file_header_at(bytes, at + SIGNATURE_SIZE);
    let opt = optional_bytes(
        bytes,
        at + OPTIONAL_HEADER_OFFSET,
        file_header.size_of_optional_header as int,
    );
    NtHeadersView {
        signature: le32(bytes, at),
        file_header,
        optional_header: optional_header_in(opt),
        data_directories: Seq::new(
            DATA_DIRECTORY_COUNT as nat,
            |i: int| data_directory_at(opt, DATA_DIRECTORY_OFFSET + i * DATA_DIRECTORY_SIZE),
        ),
    }
}

/// Why `bytes_requested` bytes at `offset` cannot be read from `len` bytes.
pub open spec fn range_error(len: nat, offset: int, bytes_requested: int) -> Option<
    PeValidationError,
> {
    if offset + bytes_requested > usize::MAX {
        Some(
            PeValidationError::DataRangeOverflow {
                offset: offset as usize,
                bytes_requested: bytes_requested as usize,
            },
        )
    } else if offset + bytes_requested > len {
        Some(
            PeValidationError::DataTooSmall {
                offset: offset as usize,
                bytes_requested: bytes_requested as usize,
                data_size: len as usize,
            },
        )
    } else {
        None
    }
}

/// Why no NT headers can be read at `at`.
pub open spec fn nt_headers_read_error(bytes: Seq<u8>, at: int) -> Option<PeValidationError> {
    if range_error(bytes.len(), at, SIGNATURE_SIZE as int) is Some {
        range_error(bytes.len(), at, SIGNATURE_SIZE as int)
    } else if range_error(bytes.len(), at + SIGNATURE_SIZE, FILE_HEADER_SIZE as int) is Some {
        range_error(bytes.len(), at + SIGNATURE_SIZE, FILE_HEADER_SIZE as int)
    } else {
        let size = file_header_at(bytes, at + SIGNATURE_SIZE).size_of_optional_header;
        if at + OPTIONAL_HEADER_OFFSET + size > usize::MAX {
            Some(PeValidationError::SectionTableRangeOverflow)
        } else {
            range_error(bytes.len(), at + OPTIONAL_HEADER_OFFSET, size as int)
        }
    }
}

/// The number of data directories that an optional header of `size` bytes has room for.
pub open spec fn available_directories(size: u16) -> int {
    if size < DATA_DIRECTORY_OFFSET {
        0
    } else if (size - DATA_DIRECTORY_OFFSET) / DATA_DIRECTORY_SIZE as int > DATA_DIRECTORY_COUNT {
        DATA_DIRECTORY_COUNT as int
    } else {
        (size - DATA_DIRECTORY_OFFSET) / DATA_DIRECTORY_SIZE as int
    }
}

/// Why the header fields that every parser needs are refused.
pub open spec fn header_fields_error(h: NtHeadersView) -> Option<PeValidationError> {
    let opt = h.optional_header;
    if h.signature != IMAGE_NT_SIGNATURE {
        Some(PeValidationError::InvalidNtSignature { signature: h.signature })
    } else if h.file_header.machine != IMAGE_FILE_MACHINE_AMD64 {
        Some(PeValidationError::UnsupportedMachine { machine: h.file_header.machine })
    } else if h.file_header.size_of_optional_header < DATA_DIRECTORY_OFFSET {
        Some(
            PeValidationError::InvalidOptionalHeaderSize {
                size: h.file_header.size_of_optional_header,
            },
        )
    } else if opt.magic != IMAGE_NT_OPTIONAL_HDR64_MAGIC {
        Some(PeValidationError::UnsupportedOptionalHeaderMagic { magic: opt.magic })
    } else if opt.number_of_rva_and_sizes > available_directories(
        h.file_header.size_of_optional_header,
    ) {
        Some(
            PeValidationError::InvalidDataDirectoryCount {
                declared_count: opt.number_of_rva_and_sizes as usize,
                available_count: available_directories(
                    h.file_header.size_of_optional_header,
                ) as usize,
            },
        )
    } else if h.file_header.number_of_sections == 0 || h.file_header.number_of_sections
        > WINDOWS_IMAGE_SECTION_LIMIT {
        Some(PeValidationError::InvalidSectionCount { count: h.file_header.number_of_sections })
    } else if opt.size_of_image == 0 {
        Some(PeValidationError::InvalidImageSize)
    } else if opt.size_of_headers == 0 || opt.size_of_headers > opt.size_of_image {
        Some(
            PeValidationError::InvalidHeadersSize {
                size_of_headers: opt.size_of_headers as usize,
                image_size: opt.size_of_image as usize,
            },
        )
    } else {
        None
    }
}

/// Where the section table of headers at `nt_offset` begins.
pub open spec fn section_table_start(h: NtHeadersView, nt_offset: int) -> int {
    nt_offset + OPTIONAL_HEADER_OFFSET + h.file_header.size_of_optional_header
}

/// Why a section table of `count` entries does not fit the mapped headers.
pub open spec fn section_table_error(
    h: NtHeadersView,
    nt_offset: int,
    count: int,
    size_of_headers: int,
) -> Option<PeValidationError> {
    let end = section_table_start(h, nt_offset) + count * SECTION_HEADER_SIZE;
    if end > usize::MAX {
        Some(PeValidationError::SectionTableRangeOverflow)
    } else if end > size_of_headers {
        Some(
            PeValidationError::SectionTableOutsideHeaders {
                section_table_end: end as usize,
                size_of_headers: size_of_headers as usize,
            },
        )
    } else {
        None
    }
}

/// Why a section table cannot be copied out of `len` bytes.
pub open spec fn section_read_error(len: nat, offset: int, size: int, count: int) -> Option<
    PeValidationError,
> {
    let expected = count * SECTION_HEADER_SIZE;
    if expected > usize::MAX {
        Some(PeValidationError::SectionTableRangeOverflow)
    } else if size != expected {
        Some(
            PeValidationError::SectionTableSizeMismatch {
                expected_size: expected as usize,
                actual_size: size as usize,
            },
        )
    } else if offset + size > usize::MAX {
        Some(PeValidationError::SectionTableRangeOverflow)
    } else if offset + size > len {
        Some(
            PeValidationError::SectionTableOutsideData {
                section_table_end: (offset + size) as usize,
                data_size: len as usize,
            },
        )
    } else {
        None
    }
}

impl SectionHeader {
    /// This is the section header stored at `at`.
    pub open spec fn read_from(self, bytes: Seq<u8>, at: int) -> bool {
        &&& self.name@ == bytes.subrange(at, at + 8)
        &&& self.virtual_size == le32(bytes, at + 8)
        &&& self.virtual_address == le32(bytes, at + 12)
        &&& self.size_of_raw_data == le32(bytes, at + 16)
        &&& self.pointer_to_raw_data == le32(bytes, at + 20)
        &&& self.characteristics == le32(bytes, at + 36)
    }
}

/// `sections` are the `count` entries of the table that starts at `at`.
pub open spec fn sections_read_from(
    sections: Seq<SectionHeader>,
    bytes: Seq<u8>,
    at: int,
    count: int,
) -> bool {
    &&& sections.len() == count
    &&& forall|i: int|
        0 <= i < count ==> (#[trigger] sections[i]).read_from(bytes, at + i * SECTION_HEADER_SIZE)
}

/// Why `bytes` do not hold parsable PE headers.
pub open spec fn parse_error(bytes: Seq<u8>) -> Option<PeValidationError> {
    let dos = dos_header_at(bytes);
    let at = dos.e_lfanew as int;
    let h = nt_headers_at(bytes, at);
    let headers_size = h.optional_header.size_of_headers as int;
    let table_end = section_table_start(h, at) + h.file_header.number_of_sections
        * SECTION_HEADER_SIZE;
    if range_error(bytes.len(), 0, DOS_HEADER_SIZE as int) is Some {
        range_error(bytes.len(), 0, DOS_HEADER_SIZE as int)
    } else if dos_header_error(dos) is Some {
        dos_header_error(dos)
    } else if nt_headers_read_error(bytes, at) is Some {
        nt_headers_read_error(bytes, at)
    } else if header_fields_error(h) is Some {
        header_fields_error(h)
    } else if headers_size > bytes.len() {
        Some(
            PeValidationError::HeadersOutsideData {
                size_of_headers: headers_size as usize,
                data_size: bytes.len() as usize,
            },
        )
    } else {
        section_table_error(h, at, h.file_header.number_of_sections as int, headers_size)
    }
}

impl PeImage {
    /// This image holds the headers and sections stored in `bytes`.
    pub open spec fn parsed_from(&self, bytes: Seq<u8>) -> bool {
        let at = dos_header_at(bytes).e_lfanew as int;
        &&& self.nt_headers_offset == at
        &&& self.nt_headers@ == nt_headers_at(bytes, at)
        &&& sections_read_from(
            self.sections@,
            bytes,
            section_table_start(self.nt_headers@, at),
            self.nt_headers.file_header.number_of_sections as int,
        )
    }
}

/// Why one declared data directory is refused by the header checks.
pub open spec fn directory_error(h: NtHeadersView, index: int) -> Option<PeValidationError> {
    let directory = h.data_directories[index];
    let address = directory.virtual_address;
    let size = directory.size;
    let image_size = h.optional_header.size_of_image;
    let refused = if index == IMAGE_DIRECTORY_ENTRY_ARCHITECTURE || index
        == RESERVED_DATA_DIRECTORY_INDEX {
        address != 0 || size != 0
    } else if index == IMAGE_DIRECTORY_ENTRY_GLOBALPTR {
        size != 0 || (address >= image_size && address != 0)
    } else if address == 0 && size == 0 {
        false
    } else if address == 0 || size == 0 {
        true
    } else if index == IMAGE_DIRECTORY_ENTRY_SECURITY {
        address as int % PE_HEADER_ALIGNMENT as int != 0 || address + size > u32::MAX
    } else {
        address + size > image_size
    };
    if refused {
        Some(
            PeValidationError::InvalidDataDirectoryRange {
                index: index as usize,
                virtual_address: address as usize,
                size: size as usize,
                image_size: image_size as usize,
            },
        )
    } else {
        None
    }
}

/// The number of data directories that the headers declare and hold.
pub open spec fn directory_count(h: NtHeadersView) -> int {
    if h.optional_header.number_of_rva_and_sizes < h.data_directories.len() {
        h.optional_header.number_of_rva_and_sizes as int
    } else {
        h.data_directories.len() as int
    }
}

/// The first directory refused at or after `index`.
pub open spec fn first_directory_error(h: NtHeadersView, index: int) -> Option<PeValidationError>
    decreases directory_count(h) - index,
{
    if index >= directory_count(h) {
        None
    } else if directory_error(h, index) is Some {
        directory_error(h, index)
    } else {
        first_directory_error(h, index + 1)
    }
}

/// Whether section and file alignment, and the image size, agree with the format.
pub open spec fn alignment_valid(h: NtHeadersView) -> bool {
    let section = h.optional_header.section_alignment;
    let file = h.optional_header.file_alignment;
    &&& power_of_two(section as nat)
    &&& power_of_two(file as nat)
    &&& section >= file
    &&& section < IMAGE_PAGE_SIZE ==> section == file
    &&& section >= IMAGE_PAGE_SIZE ==> MIN_FILE_ALIGNMENT <= file <= MAX_FILE_ALIGNMENT
    &&& h.optional_header.size_of_image as int % section as int == 0
}

/// Why NT headers at `nt_offset` are refused by strict validation.
pub open spec fn nt_headers_error(h: NtHeadersView, nt_offset: int) -> Option<PeValidationError> {
    let opt = h.optional_header;
    if header_fields_error(h) is Some {
        header_fields_error(h)
    } else if h.file_header.characteristics & IMAGE_FILE_EXECUTABLE_IMAGE == 0 {
        Some(
            PeValidationError::MissingExecutableImageCharacteristic {
                characteristics: h.file_header.characteristics,
            },
        )
    } else if opt.win32_version_value != 0 || opt.loader_flags != 0 {
        Some(
            PeValidationError::NonZeroReservedOptionalHeaderFields {
                win32_version_value: opt.win32_version_value,
                loader_flags: opt.loader_flags,
            },
        )
    } else if !alignment_valid(h) {
        Some(
            PeValidationError::InvalidImageAlignment {
                section_alignment: opt.section_alignment as usize,
                file_alignment: opt.file_alignment as usize,
            },
        )
    } else if opt.size_of_headers as int % opt.file_alignment as int != 0 {
        Some(
            PeValidationError::InvalidHeadersSize {
                size_of_headers: opt.size_of_headers as usize,
                image_size: opt.size_of_image as usize,
            },
        )
    } else if opt.image_base as int % IMAGE_BASE_ALIGNMENT as int != 0 {
        Some(PeValidationError::InvalidImageBase { image_base: opt.image_base })
    } else if opt.size_of_image > MAXIMUM_IMAGE_SIZE {
        Some(
            PeValidationError::ImageSizeExceedsMaximum {
                image_size: opt.size_of_image as usize,
                maximum_image_size: MAXIMUM_IMAGE_SIZE,
            },
        )
    } else if first_directory_error(h, 0) is Some {
        first_directory_error(h, 0)
    } else if section_table_error(
        h,
        nt_offset,
        h.file_header.number_of_sections as int,
        opt.size_of_headers as int,
    ) is Some {
        section_table_error(
            h,
            nt_offset,
            h.file_header.number_of_sections as int,
            opt.size_of_headers as int,
        )
    } else if opt.address_of_entry_point >= opt.size_of_image && opt.address_of_entry_point != 0 {
        Some(
            PeValidationError::InvalidEntryPoint {
                entry_point_rva: opt.address_of_entry_point as usize,
                image_size: opt.size_of_image as usize,
            },
        )
    } else {
        None
    }
}

/// Checks that `bytes_requested` bytes at `offset` are present.
pub fn check_data_range(bytes: &[u8], offset: usize, bytes_requested: usize) -> (r: Result<
    (),
    PeValidationError,
>)
    ensures
        match r {
            Ok(()) => range_error(bytes@.len(), offset as int, bytes_requested as int) is None,
            Err(e) => range_error(bytes@.len(), offset as int, bytes_requested as int) == Some(e),
        },
{
    match offset.checked_add(bytes_requested) {
        None => Err(PeValidationError::DataRangeOverflow { offset, bytes_requested }),
        Some(end) => if end > bytes.len() {
            Err(
                PeValidationError::DataTooSmall {
                    offset,
                    bytes_requested,
                    data_size: bytes.len(),
                },
            )
        } else {
            Ok(())
        },
    }
}

/// Reads the DOS header at the start of `bytes`.
pub fn read_dos_header(bytes: &[u8]) -> (r: Result<DosHeader, PeValidationError>)
    ensures
        match r {
            Ok(dos) => bytes@.len() >= DOS_HEADER_SIZE && dos == dos_header_at(bytes@),
            Err(e) => range_error(bytes@.len(), 0, DOS_HEADER_SIZE as int) == Some(e),
        },
{
    match check_data_range(bytes, 0, DOS_HEADER_SIZE) {
        Err(e) => Err(e),
        Ok(()) => Ok(
            DosHeader { e_magic: get_u16(bytes, 0), e_lfanew: to_signed32(get_u32(bytes, 60)) },
        ),
    }
}

/// Validates the DOS header and returns its bounded non-negative NT-header offset.
pub fn validate_dos_header(dos_header: &DosHeader) -> (r: Result<usize, PeValidationError>)
    ensures
        match r {
            Ok(offset) => dos_header_error(*dos_header) is None && offset == dos_header.e_lfanew,
            Err(e) => dos_header_error(*dos_header) == Some(e),
        },
{
    if dos_header.e_magic != IMAGE_DOS_SIGNATURE {
        return Err(PeValidationError::InvalidDosSignature { signature: dos_header.e_magic });
    }
    if dos_header.e_lfanew < 64 || dos_header.e_lfanew % 8 != 0 {
        return Err(PeValidationError::InvalidNtHeadersOffset { offset: dos_header.e_lfanew });
    }
    Ok(dos_header.e_lfanew as usize)
}

/// Copies the declared optional-header bytes and fills the rest with zeros.
fn copy_optional_bytes(bytes: &[u8], at: usize, declared: usize) -> (r: Vec<u8>)
    requires
        fits(bytes@.len(), at as int, declared as int),
    ensures
        r@ == optional_bytes(bytes@, at as int, declared as int),
{
    let mut opt: Vec<u8> = Vec::with_capacity(OPTIONAL_HEADER_SIZE);
    assert(at + declared <= bytes.len());
    let mut k: usize = 0;
    while k < OPTIONAL_HEADER_SIZE
        invariant
            at + declared <= bytes@.len(),
            at + declared <= usize::MAX,
            k <= OPTIONAL_HEADER_SIZE,
            opt@.len() == k,
            forall|i: int|
                0 <= i < k ==> opt@[i] == optional_bytes(bytes@, at as int, declared as int)[i],
        decreases OPTIONAL_HEADER_SIZE - k,
    {
        if k < declared {
            opt.push(bytes[at + k]);
        } else {
            opt.push(0);
        }
        k += 1;
    }
    assert(opt@ =~= optional_bytes(bytes@, at as int, declared as int));
    opt
}

/// Reads every data-directory slot out of complete optional-header bytes.
fn read_data_directories(opt: &[u8]) -> (r: Vec<DataDirectory>)
    requires
        opt@.len() == OPTIONAL_HEADER_SIZE,
    ensures
        r@ == Seq::new(
            DATA_DIRECTORY_COUNT as nat,
            |i: int| data_directory_at(opt@, DATA_DIRECTORY_OFFSET + i * DATA_DIRECTORY_SIZE),
        ),
{
    let mut directories: Vec<DataDirectory> = Vec::with_capacity(DATA_DIRECTORY_COUNT);
    let mut index: usize = 0;
    while index < DATA_DIRECTORY_COUNT
        invariant
            opt@.len() == OPTIONAL_HEADER_SIZE,
            index <= DATA_DIRECTORY_COUNT,
            directories@.len() == index,
            forall|i: int|
                0 <= i < index ==> directories@[i] == data_directory_at(
                    opt@,
                    DATA_DIRECTORY_OFFSET + i * DATA_DIRECTORY_SIZE,
                ),
        decreases DATA_DIRECTORY_COUNT - index,
    {
        let at: usize = DATA_DIRECTORY_OFFSET + index * DATA_DIRECTORY_SIZE;
        directories.push(
            DataDirectory { virtual_address: get_u32(opt, at), size: get_u32(opt, at + 4) },
        );
        index += 1;
    }
    assert(directories@ =~= Seq::new(
        DATA_DIRECTORY_COUNT as nat,
        |i: int| data_directory_at(opt@, DATA_DIRECTORY_OFFSET + i * DATA_DIRECTORY_SIZE),
    ));
    directories
}

/// Reads the signature, COFF header, and only the declared optional-header bytes.
pub fn read_nt_headers(bytes: &[u8], nt_headers_offset: usize) -> (r: Result<
    NtHeaders,
    PeValidationError,
>)
    ensures
        match r {
            Ok(h) => {
                &&& nt_headers_read_error(bytes@, nt_headers_offset as int) is None
                &&& h@ == nt_headers_at(bytes@, nt_headers_offset as int)
                &&& h@.wf()
            },
            Err(e) => nt_headers_read_error(bytes@, nt_headers_offset as int) == Some(e),
        },
{
    match check_data_range(bytes, nt_headers_offset, SIGNATURE_SIZE) {
        Err(e) => return Err(e),
        Ok(()) => {},
    }
    let file_header_offset: usize = nt_headers_offset + SIGNATURE_SIZE;
    match check_data_range(bytes, file_header_offset, FILE_HEADER_SIZE) {
        Err(e) => return Err(e),
        Ok(()) => {},
    }
    let optional_header_offset: usize = file_header_offset + FILE_HEADER_SIZE;
    let file_header = FileHeader {
        machine: get_u16(bytes, file_header_offset),
        number_of_sections: get_u16(bytes, file_header_offset + 2),
        time_date_stamp: get_u32(bytes, file_header_offset + 4),
        size_of_optional_header: get_u16(bytes, file_header_offset + 16),
        characteristics: get_u16(bytes, file_header_offset + 18),
    };
    let declared: usize = file_header.size_of_optional_header as usize;
    if optional_header_offset.checked_add(declared).is_none() {
        return Err(PeValidationError::SectionTableRangeOverflow);
    }
    match check_data_range(bytes, optional_header_offset, declared) {
        Err(e) => return Err(e),
        Ok(()) => {},
    }
    let opt: Vec<u8> = copy_optional_bytes(bytes, optional_header_offset, declared);
    let optional_header = OptionalHeader {
        magic: get_u16(&opt, 0),
        address_of_entry_point: get_u32(&opt, 16),
        base_of_code: get_u32(&opt, 20),
        image_base: get_u64(&opt, 24),
        section_alignment: get_u32(&opt, 32),
        file_alignment: get_u32(&opt, 36),
        win32_version_value: get_u32(&opt, 52),
        size_of_image: get_u32(&opt, 56),
        size_of_headers: get_u32(&opt, 60),
        check_sum: get_u32(&opt, 64),
        subsystem: get_u16(&opt, 68),
        dll_characteristics: get_u16(&opt, 70),
        loader_flags: get_u32(&opt, 104),
        number_of_rva_and_sizes: get_u32(&opt, 108),
    };
    Ok(
        NtHeaders {
            signature: get_u32(bytes, nt_headers_offset),
            file_header,
            optional_header,
            data_directories: read_data_directories(&opt),
        },
    )
}

/// Validates PE identity fields and the header values required by every parser, and returns the
/// declared section count, image size, and header size.
pub fn validate_header_fields(nt_headers: &NtHeaders) -> (r: Result<
    (usize, usize, usize),
    PeValidationError,
>)
    ensures
        match r {
            Ok((count, image_size, headers_size)) => {
                &&& header_fields_error(nt_headers@) is None
                &&& count == nt_headers.file_header.number_of_sections
                &&& image_size == nt_headers.optional_header.size_of_image
                &&& headers_size == nt_headers.optional_header.size_of_headers
            },
            Err(e) => header_fields_error(nt_headers@) == Some(e),
        },
{
    let optional_size: usize = nt_headers.file_header.size_of_optional_header as usize;
    if nt_headers.signature != IMAGE_NT_SIGNATURE {
        return Err(PeValidationError::InvalidNtSignature { signature: nt_headers.signature });
    }
    if nt_headers.file_header.machine != IMAGE_FILE_MACHINE_AMD64 {
        return Err(
            PeValidationError::UnsupportedMachine { machine: nt_headers.file_header.machine },
        );
    }
    if optional_size < DATA_DIRECTORY_OFFSET {
        return Err(
            PeValidationError::InvalidOptionalHeaderSize {
                size: nt_headers.file_header.size_of_optional_header,
            },
        );
    }
    if nt_headers.optional_header.magic != IMAGE_NT_OPTIONAL_HDR64_MAGIC {
        return Err(
            PeValidationError::UnsupportedOptionalHeaderMagic {
                magic: nt_headers.optional_header.magic,
            },
        );
    }
    let room: usize = (optional_size - DATA_DIRECTORY_OFFSET) / DATA_DIRECTORY_SIZE;
    let available_count: usize = if room > DATA_DIRECTORY_COUNT {
        DATA_DIRECTORY_COUNT
    } else {
        room
    };
    let declared_count: usize = nt_headers.optional_header.number_of_rva_and_sizes as usize;
    if declared_count > available_count {
        return Err(
            PeValidationError::InvalidDataDirectoryCount { declared_count, available_count },
        );
    }
    let section_count: usize = nt_headers.file_header.number_of_sections as usize;
    if section_count == 0 || section_count > WINDOWS_IMAGE_SECTION_LIMIT {
        return Err(
            PeValidationError::InvalidSectionCount {
                count: nt_headers.file_header.number_of_sections,
            },
        );
    }
    let image_size: usize = nt_headers.optional_header.size_of_image as usize;
    if image_size == 0 {
        return Err(PeValidationError::InvalidImageSize);
    }
    let size_of_headers: usize = nt_headers.optional_header.size_of_headers as usize;
    if size_of_headers == 0 || size_of_headers > image_size {
        return Err(PeValidationError::InvalidHeadersSize { size_of_headers, image_size });
    }
    Ok((section_count, image_size, size_of_headers))
}

/// Computes and validates the complete section-table range: its offset, byte size, and exclusive
/// end.
pub fn get_section_table_range(
    nt_headers: &NtHeaders,
    nt_headers_offset: usize,
    section_count: usize,
    size_of_headers: usize,
) -> (r: Result<(usize, usize, usize), PeValidationError>)
    ensures
        match r {
            Ok((offset, size, end)) => {
                &&& section_table_error(
                    nt_headers@,
                    nt_headers_offset as int,
                    section_count as int,
                    size_of_headers as int,
                ) is None
                &&& offset == section_table_start(nt_headers@, nt_headers_offset as int)
                &&& size == section_count * SECTION_HEADER_SIZE
                &&& end == offset + size
            },
            Err(e) => section_table_error(
                nt_headers@,
                nt_headers_offset as int,
                section_count as int,
                size_of_headers as int,
            ) == Some(e),
        },
{
    let optional_size: usize = nt_headers.file_header.size_of_optional_header as usize;
    let section_table_offset: usize = match nt_headers_offset.checked_add(OPTIONAL_HEADER_OFFSET) {
        Some(value) => match value.checked_add(optional_size) {
            Some(value) => value,
            None => return Err(PeValidationError::SectionTableRangeOverflow),
        },
        None => return Err(PeValidationError::SectionTableRangeOverflow),
    };
    let section_table_size: usize = match section_count.checked_mul(SECTION_HEADER_SIZE) {
        Some(value) => value,
        None => return Err(PeValidationError::SectionTableRangeOverflow),
    };
    let section_table_end: usize = match section_table_offset.checked_add(section_table_size) {
        Some(value) => value,
        None => return Err(PeValidationError::SectionTableRangeOverflow),
    };
    if section_table_end > size_of_headers {
        return Err(
            PeValidationError::SectionTableOutsideHeaders { section_table_end, size_of_headers },
        );
    }
    Ok((section_table_offset, section_table_size, section_table_end))
}

/// Reads one section header at an offset known to be in range.
fn read_section_header(bytes: &[u8], at: usize) -> (r: SectionHeader)
    requires
        fits(bytes@.len(), at as int, SECTION_HEADER_SIZE as int),
    ensures
        r.read_from(bytes@, at as int),
{
    assert(at + SECTION_HEADER_SIZE <= bytes.len());
    let name: [u8; 8] = [
        bytes[at],
        bytes[at + 1],
        bytes[at + 2],
        bytes[at + 3],
        bytes[at + 4],
        bytes[at + 5],
        bytes[at + 6],
        bytes[at + 7],
    ];
    assert(name@ =~= bytes@.subrange(at as int, at + 8));
    SectionHeader {
        name,
        virtual_size: get_u32(bytes, at + 8),
        virtual_address: get_u32(bytes, at + 12),
        size_of_raw_data: get_u32(bytes, at + 16),
        pointer_to_raw_data: get_u32(bytes, at + 20),
        characteristics: get_u32(bytes, at + 36),
    }
}

/// Appends the `count` section headers of a table known to be in range.
pub fn copy_section_headers(
    bytes: &[u8],
    section_table_offset: usize,
    section_count: usize,
    sections: Vec<SectionHeader>,
) -> (r: Vec<SectionHeader>)
    requires
        sections@.len() == 0,
        fits(bytes@.len(), section_table_offset as int, section_count * SECTION_HEADER_SIZE),
    ensures
        sections_read_from(r@, bytes@, section_table_offset as int, section_count as int),
{
    let mut sections = sections;
    let mut index: usize = 0;
    assert(section_table_offset + section_count * SECTION_HEADER_SIZE <= bytes.len());
    while index < section_count
        invariant
            index <= section_count,
            section_table_offset + section_count * SECTION_HEADER_SIZE <= bytes@.len(),
            section_table_offset + section_count * SECTION_HEADER_SIZE <= usize::MAX,
            sections_read_from(sections@, bytes@, section_table_offset as int, index as int),
        decreases section_count - index,
    {
        let at: usize = section_table_offset + index * SECTION_HEADER_SIZE;
        sections.push(read_section_header(bytes, at));
        index += 1;
    }
    sections
}

/// Reads copied section headers from a bounded byte range. A refused reservation of the section
/// buffer is reported after every range check has passed.
pub fn read_section_headers(
    bytes: &[u8],
    section_table_offset: usize,
    section_table_size: usize,
    section_count: usize,
) -> (r: Result<Vec<SectionHeader>, PeValidationError>)
    ensures
        match r {
            Ok(sections) => {
                &&& section_read_error(
                    bytes@.len(),
                    section_table_offset as int,
                    section_table_size as int,
                    section_count as int,
                ) is None
                &&& sections_read_from(
                    sections@,
                    bytes@,
                    section_table_offset as int,
                    section_count as int,
                )
            },
            Err(e) => {
                let error = section_read_error(
                    bytes@.len(),
                    section_table_offset as int,
                    section_table_size as int,
                    section_count as int,
                );
                error == Some(e) || (error is None && e
                    == PeValidationError::SectionBufferAllocationFailed { section_count })
            },
        },
{
    let expected_size: usize = match section_count.checked_mul(SECTION_HEADER_SIZE) {
        Some(value) => value,
        None => return Err(PeValidationError::SectionTableRangeOverflow),
    };
    if section_table_size != expected_size {
        return Err(
            PeValidationError::SectionTableSizeMismatch {
                expected_size,
                actual_size: section_table_size,
            },
        );
    }
    let section_table_end: usize = match section_table_offset.checked_add(section_table_size) {
        Some(value) => value,
        None => return Err(PeValidationError::SectionTableRangeOverflow),
    };
    if section_table_end > bytes.len() {
        return Err(
            PeValidationError::SectionTableOutsideData {
                section_table_end,
                data_size: bytes.len(),
            },
        );
    }
    let mut sections: Vec<SectionHeader> = Vec::new();
    if sections.try_reserve(section_count).is_err() {
        return Err(PeValidationError::SectionBufferAllocationFailed { section_count });
    }
    Ok(copy_section_headers(bytes, section_table_offset, section_count, sections))
}

/// What parsing `bytes` may return: the parsed image, the parse error, or a refused reservation
/// of the section buffer.
pub open spec fn parse_outcome(bytes: Seq<u8>, r: Result<PeImage, PeValidationError>) -> bool {
    match r {
        Ok(pe) => parse_error(bytes) is None && pe.parsed_from(bytes) && pe.wf(),
        Err(e) => {
            let count = nt_headers_at(
                bytes,
                dos_header_at(bytes).e_lfanew as int,
            ).file_header.number_of_sections;
            parse_error(bytes) == Some(e) || (parse_error(bytes) is None && e
                == PeValidationError::SectionBufferAllocationFailed {
                section_count: count as usize,
            })
        },
    }
}

/// Parsed headers and the place of the section table behind them.
#[derive(Clone, Debug, Eq, PartialEq)]
pub struct ParsedHeaders {
    pub nt_headers: NtHeaders,
    pub nt_headers_offset: usize,
    pub section_table_offset: usize,
    pub section_table_size: usize,
    pub section_count: usize,
}

impl ParsedHeaders {
    /// These are the headers stored in `bytes`, and their section table lies in `bytes`.
    pub open spec fn parsed_from(&self, bytes: Seq<u8>) -> bool {
        let at = dos_header_at(bytes).e_lfanew as int;
        &&& self.nt_headers_offset == at
        &&& self.nt_headers@ == nt_headers_at(bytes, at)
        &&& self.nt_headers@.wf()
        &&& self.section_count == self.nt_headers.file_header.number_of_sections
        &&& self.section_table_offset == section_table_start(self.nt_headers@, at)
        &&& self.section_table_size == self.section_count * SECTION_HEADER_SIZE
        &&& fits(bytes.len(), self.section_table_offset as int, self.section_table_size as int)
    }
}

/// Parses the headers of an image and locates its section table.
pub fn parse_headers(pe_data: &[u8]) -> (r: Result<ParsedHeaders, PeValidationError>)
    ensures
        match r {
            Ok(headers) => parse_error(pe_data@) is None && headers.parsed_from(pe_data@),
            Err(e) => parse_error(pe_data@) == Some(e),
        },
{
    let dos_header = match read_dos_header(pe_data) {
        Ok(value) => value,
        Err(e) => return Err(e),
    };
    let nt_headers_offset: usize = match validate_dos_header(&dos_header) {
        Ok(value) => value,
        Err(e) => return Err(e),
    };
    let nt_headers = match read_nt_headers(pe_data, nt_headers_offset) {
        Ok(value) => value,
        Err(e) => return Err(e),
    };
    let (section_count, _image_size, size_of_headers) = match validate_header_fields(&nt_headers) {
        Ok(value) => value,
        Err(e) => return Err(e),
    };
    if size_of_headers > pe_data.len() {
        return Err(
            PeValidationError::HeadersOutsideData { size_of_headers, data_size: pe_data.len() },
        );
    }
    let (section_table_offset, section_table_size, section_table_end) =
        match get_section_table_range(
        &nt_headers,
        nt_headers_offset,
        section_count,
        size_of_headers,
    ) {
        Ok(value) => value,
        Err(e) => return Err(e),
    };
    assert(section_table_end <= pe_data@.len());
    Ok(
        ParsedHeaders {
            nt_headers,
            nt_headers_offset,
            section_table_offset,
            section_table_size,
            section_count,
        },
    )
}

/// Safely parses bounded PE headers and section entries without requiring a valid loaded layout.
/// A refused reservation of the section buffer is the one failure that the bytes do not decide.
pub fn parse_pe(pe_data: &[u8]) -> (r: Result<PeImage, PeValidationError>)
    ensures
        parse_outcome(pe_data@, r),
{
    let headers = match parse_headers(pe_data) {
        Ok(value) => value,
        Err(e) => return Err(e),
    };
    match read_section_headers(
        pe_data,
        headers.section_table_offset,
        headers.section_table_size,
        headers.section_count,
    ) {
        Ok(sections) => Ok(
            PeImage {
                nt_headers: headers.nt_headers,
                nt_headers_offset: headers.nt_headers_offset,
                sections,
            },
        ),
        Err(e) => Err(e),
    }
}

/// Checks one declared data directory against the image size.
fn check_directory(nt_headers: &NtHeaders, index: usize) -> (r: Result<(), PeValidationError>)
    requires
        index < nt_headers.data_directories@.len(),
    ensures
        match r {
            Ok(()) => directory_error(nt_headers@, index as int) is None,
            Err(e) => directory_error(nt_headers@, index as int) == Some(e),
        },
{
    let directory = nt_headers.data_directories[index];
    let address: u32 = directory.virtual_address;
    let size: u32 = directory.size;
    let image_size: u32 = nt_headers.optional_header.size_of_image;
    let refused: bool = if index == IMAGE_DIRECTORY_ENTRY_ARCHITECTURE || index
        == RESERVED_DATA_DIRECTORY_INDEX {
        address != 0 || size != 0
    } else if index == IMAGE_DIRECTORY_ENTRY_GLOBALPTR {
        size != 0 || (address >= image_size && address != 0)
    } else if address == 0 && size == 0 {
        false
    } else if address == 0 || size == 0 {
        true
    } else if index == IMAGE_DIRECTORY_ENTRY_SECURITY {
        address % 8 != 0 || address.checked_add(size).is_none()
    } else {
        match address.checked_add(size) {
            Some(end) => end > image_size,
            None => true,
        }
    };
    if refused {
        return Err(
            PeValidationError::InvalidDataDirectoryRange {
                index,
                virtual_address: address as usize,
                size: size as usize,
                image_size: image_size as usize,
            },
        );
    }
    Ok(())
}

/// Reports whether section and file alignment, and the image size, agree with the format.
fn is_alignment_valid(nt_headers: &NtHeaders) -> (r: bool)
    ensures
        r == alignment_valid(nt_headers@),
{
    let section: usize = nt_headers.optional_header.section_alignment as usize;
    let file: usize = nt_headers.optional_header.file_alignment as usize;
    let image_size: usize = nt_headers.optional_header.size_of_image as usize;
    is_power_of_two(section) && is_power_of_two(file) && section >= file && (section
        >= IMAGE_PAGE_SIZE || section == file) && (section < IMAGE_PAGE_SIZE || (
    MIN_FILE_ALIGNMENT <= file && file <= MAX_FILE_ALIGNMENT)) && image_size % section == 0
}

/// Validates strict x64 NT-header fields and section-table bounds, and returns the section-table
/// range and image size.
pub fn validate_nt_headers(nt_headers: &NtHeaders, nt_headers_offset: usize) -> (r: Result<
    ValidatedNtHeaders,
    PeValidationError,
>)
    requires
        nt_headers@.wf(),
    ensures
        match r {
            Ok(facts) => {
                &&& nt_headers_error(nt_headers@, nt_headers_offset as int) is None
                &&& facts.section_table_offset == section_table_start(
                    nt_headers@,
                    nt_headers_offset as int,
                )
                &&& facts.section_table_size == nt_headers.file_header.number_of_sections
                    * SECTION_HEADER_SIZE
                &&& facts.image_size == nt_headers.optional_header.size_of_image
            },
            Err(e) => nt_headers_error(nt_headers@, nt_headers_offset as int) == Some(e),
        },
{
    let (section_count, image_size, size_of_headers) = match validate_header_fields(nt_headers) {
        Ok(value) => value,
        Err(e) => return Err(e),
    };
    let optional_header = nt_headers.optional_header;
    let section_alignment: usize = optional_header.section_alignment as usize;
    let file_alignment: usize = optional_header.file_alignment as usize;
    if nt_headers.file_header.characteristics & IMAGE_FILE_EXECUTABLE_IMAGE == 0 {
        return Err(
            PeValidationError::MissingExecutableImageCharacteristic {
                characteristics: nt_headers.file_header.characteristics,
            },
        );
    }
    if optional_header.win32_version_value != 0 || optional_header.loader_flags != 0 {
        return Err(
            PeValidationError::NonZeroReservedOptionalHeaderFields {
                win32_version_value: optional_header.win32_version_value,
                loader_flags: optional_header.loader_flags,
            },
        );
    }
    if !is_alignment_valid(nt_headers) {
        return Err(PeValidationError::InvalidImageAlignment { section_alignment, file_alignment });
    }
    assert(file_alignment > 0);
    if size_of_headers % file_alignment != 0 {
        return Err(PeValidationError::InvalidHeadersSize { size_of_headers, image_size });
    }
    let image_base: u64 = optional_header.image_base;
    if image_base % IMAGE_BASE_ALIGNMENT != 0 {
        return Err(PeValidationError::InvalidImageBase { image_base });
    }
    if image_size > MAXIMUM_IMAGE_SIZE {
        return Err(
            PeValidationError::ImageSizeExceedsMaximum {
                image_size,
                maximum_image_size: MAXIMUM_IMAGE_SIZE,
            },
        );
    }
    let declared: usize = optional_header.number_of_rva_and_sizes as usize;
    let mut index: usize = 0;
    while index < declared
        invariant
            index <= declared,
            nt_headers@.wf(),
            declared <= DATA_DIRECTORY_COUNT,
            declared == nt_headers.optional_header.number_of_rva_and_sizes,
            first_directory_error(nt_headers@, 0) == first_directory_error(
                nt_headers@,
                index as int,
            ),
            first_directory_error(nt_headers@, 0) is Some ==> nt_headers_error(
                nt_headers@,
                nt_headers_offset as int,
            ) == first_directory_error(nt_headers@, 0),
        decreases declared - index,
    {
        match check_directory(nt_headers, index) {
            Ok(()) => {},
            Err(e) => return Err(e),
        }
        index += 1;
    }
    let (section_table_offset, section_table_size, _end) = match get_section_table_range(
        nt_headers,
        nt_headers_offset,
        section_count,
        size_of_headers,
    ) {
        Ok(value) => value,
        Err(e) => return Err(e),
    };
    let entry_point_rva: usize = optional_header.address_of_entry_point as usize;
    if entry_point_rva >= image_size && entry_point_rva != 0 {
        return Err(PeValidationError::InvalidEntryPoint { entry_point_rva, image_size });
    }
    Ok(ValidatedNtHeaders { section_table_offset, section_table_size, image_size })
}

/// Parsing is determined by the bytes: two images parsed from the same bytes have the same headers
/// and the same sections.
pub proof fn law_parsed_image_is_determined(bytes: Seq<u8>, left: PeImage, right: PeImage)
    requires
        left.parsed_from(bytes),
        right.parsed_from(bytes),
    ensures
        left.nt_headers@ == right.nt_headers@,
        left.nt_headers_offset == right.nt_headers_offset,
        left.sections@.len() == right.sections@.len(),
        forall|i: int|
            0 <= i < left.sections@.len() ==> {
                let (a, b) = (#[trigger] left.sections@[i], right.sections@[i]);
                &&& a.name@ == b.name@
                &&& a.virtual_size == b.virtual_size
                &&& a.virtual_address == b.virtual_address
                &&& a.size_of_raw_data == b.size_of_raw_data
                &&& a.pointer_to_raw_data == b.pointer_to_raw_data
                &&& a.characteristics == b.characteristics
            },
{
    let start = section_table_start(left.nt_headers@, left.nt_headers_offset as int);
    assert forall|i: int| 0 <= i < left.sections@.len() implies (
    #[trigger] left.sections@[i]).read_from(bytes, start + i * SECTION_HEADER_SIZE)
        && right.sections@[i].read_from(bytes, start + i * SECTION_HEADER_SIZE) by {}
}

} // verus!
