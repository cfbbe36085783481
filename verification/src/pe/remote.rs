//! Reading the headers of a loaded image out of another process, step by step.
//!
//! Each function takes the outcome of one read and names the next one.

use vstd::prelude::*;

use super::headers::{
    dos_header_at, dos_header_error, file_header_at, nt_headers_at, nt_headers_error,
    nt_headers_read_error, optional_bytes, parse_error, read_dos_header, read_nt_headers, read_section_headers,
    section_table_start, sections_read_from, validate_dos_header, validate_nt_headers,
    ValidatedNtHeaders, DOS_HEADER_SIZE, OPTIONAL_HEADER_OFFSET, SECTION_HEADER_SIZE,
    SIGNATURE_SIZE,
};
use super::identity::{collect_image_facts, identity_buffer_error};
use super::layout::{
    first_directory_layout_error, section_layout_error, validate_data_directory_layout,
    validate_section_layout,
};
use super::types::{NtHeaders, PeImage, PeReadTarget, PeValidationError, SectionHeader, ValidatedPeImage};
use crate::bytes::get_u16;
use crate::memory::ProcessMemoryReadError;

verus! {

/// Byte size of the PE signature and COFF header together.
pub const NT_PREFIX_SIZE: usize = 24;

/// The facts about a remote image that its snapshot is copied with.
#[derive(Debug, Eq, PartialEq)]
pub struct ValidatedProcessImageDetails {
    pub validation: ValidatedPeImage,
    pub nt_headers: NtHeaders,
    pub sections: Vec<SectionHeader>,
}

/// Where the NT headers of a remote image are.
#[derive(Clone, Copy, Debug, Eq, PartialEq, Structural)]
pub struct RemoteNtLocation {
    pub image_base_address: usize,
    pub nt_headers_offset: usize,
    pub nt_headers_address: usize,
}

/// Accepted NT headers of a remote image and the place of its section table.
#[derive(Clone, Debug, Eq, PartialEq)]
pub struct RemoteNtHeaders {
    pub image_base_address: usize,
    pub nt_headers: NtHeaders,
    pub facts: ValidatedNtHeaders,
    pub section_table_address: usize,
}

/// Why an exact read of `size` bytes failed: its own error, or another number of bytes.
pub open spec fn exact_read_error(
    outcome: Result<Vec<u8>, ProcessMemoryReadError>,
    size: usize,
) -> Option<ProcessMemoryReadError> {
    match outcome {
        Err(error) => Some(error),
        Ok(bytes) => if bytes@.len() != size {
            Some(
                ProcessMemoryReadError::ReadIncomplete {
                    bytes_requested: size,
                    bytes_read: bytes@.len() as usize,
                },
            )
        } else {
            None
        },
    }
}

/// Turns the outcome of an exact read of an image component into its bytes.
fn take_exact_read(
    outcome: Result<Vec<u8>, ProcessMemoryReadError>,
    size: usize,
    target: PeReadTarget,
    address: usize,
) -> (r: Result<Vec<u8>, PeValidationError>)
    ensures
        match exact_read_error(outcome, size) {
            Some(error) => r == Err::<Vec<u8>, _>(
                PeValidationError::RemoteReadFailed { target, address, error },
            ),
            None => r == Ok::<Vec<u8>, PeValidationError>(outcome->Ok_0),
        },
{
    match outcome {
        Err(error) => Err(PeValidationError::RemoteReadFailed { target, address, error }),
        Ok(bytes) => if bytes.len() != size {
            Err(
                PeValidationError::RemoteReadFailed {
                    target,
                    address,
                    error: ProcessMemoryReadError::ReadIncomplete {
                        bytes_requested: size,
                        bytes_read: bytes.len(),
                    },
                },
            )
        } else {
            Ok(bytes)
        },
    }
}

/// Checks that there is a process and an image base to read from. The DOS header at the image
/// base is read next.
pub fn begin_remote_image(process_is_null: bool, image_base_address: usize) -> (r: Result<
    (),
    PeValidationError,
>)
    ensures
        r == (if process_is_null {
            Err(PeValidationError::InvalidProcessHandle)
        } else if image_base_address == 0 {
            Err(PeValidationError::ImageBaseUnavailable)
        } else {
            Ok(())
        }),
{
    if process_is_null {
        return Err(PeValidationError::InvalidProcessHandle);
    }
    if image_base_address == 0 {
        return Err(PeValidationError::ImageBaseUnavailable);
    }
    Ok(())
}

/// Takes the DOS header read at the image base and locates the NT headers.
pub fn accept_dos_header(
    image_base_address: usize,
    outcome: Result<Vec<u8>, ProcessMemoryReadError>,
) -> (r: Result<RemoteNtLocation, PeValidationError>)
    ensures
        match exact_read_error(outcome, DOS_HEADER_SIZE) {
            Some(error) => r == Err::<RemoteNtLocation, _>(
                PeValidationError::RemoteReadFailed {
                    target: PeReadTarget::DosHeader,
                    address: image_base_address,
                    error,
                },
            ),
            None => {
                let dos = dos_header_at(outcome->Ok_0@);
                r == (match dos_header_error(dos) {
                    Some(e) => Err(e),
                    None => if image_base_address + dos.e_lfanew > usize::MAX {
                        Err(
                            PeValidationError::NtHeadersAddressOverflow {
                                base_address: image_base_address,
                                nt_headers_offset: dos.e_lfanew as usize,
                            },
                        )
                    } else {
                        Ok(
                            RemoteNtLocation {
                                image_base_address,
                                nt_headers_offset: dos.e_lfanew as usize,
                                nt_headers_address: (image_base_address + dos.e_lfanew) as usize,
                            },
                        )
                    },
                })
            },
        },
{
    let bytes = match take_exact_read(
        outcome,
        DOS_HEADER_SIZE,
        PeReadTarget::DosHeader,
        image_base_address,
    ) {
        Ok(value) => value,
        Err(e) => return Err(e),
    };
    let dos_header = match read_dos_header(&bytes) {
        Ok(value) => value,
        Err(e) => return Err(e),
    };
    let nt_headers_offset: usize = match validate_dos_header(&dos_header) {
        Ok(value) => value,
        Err(e) => return Err(e),
    };
    match image_base_address.checked_add(nt_headers_offset) {
        Some(nt_headers_address) => Ok(
            RemoteNtLocation { image_base_address, nt_headers_offset, nt_headers_address },
        ),
        None => Err(
            PeValidationError::NtHeadersAddressOverflow {
                base_address: image_base_address,
                nt_headers_offset,
            },
        ),
    }
}

/// Takes the signature and COFF header read at the NT headers and sizes the complete read.
pub fn accept_nt_prefix(
    location: &RemoteNtLocation,
    outcome: Result<Vec<u8>, ProcessMemoryReadError>,
) -> (r: Result<usize, PeValidationError>)
    ensures
        r == (match exact_read_error(outcome, NT_PREFIX_SIZE) {
            Some(error) => Err(
                PeValidationError::RemoteReadFailed {
                    target: PeReadTarget::NtHeaders,
                    address: location.nt_headers_address,
                    error,
                },
            ),
            None => Ok(
                (NT_PREFIX_SIZE + file_header_at(
                    outcome->Ok_0@,
                    SIGNATURE_SIZE as int,
                ).size_of_optional_header) as usize,
            ),
        }),
{
    let prefix = match take_exact_read(
        outcome,
        NT_PREFIX_SIZE,
        PeReadTarget::NtHeaders,
        location.nt_headers_address,
    ) {
        Ok(value) => value,
        Err(e) => return Err(e),
    };
    Ok(NT_PREFIX_SIZE + get_u16(&prefix, SIGNATURE_SIZE + 16) as usize)
}

/// What a complete remote NT-header read of `complete_size` bytes gives.
pub open spec fn remote_nt_headers_error(
    location: RemoteNtLocation,
    bytes: Seq<u8>,
) -> Option<PeValidationError> {
    let h = nt_headers_at(bytes, 0);
    let image_size = h.optional_header.size_of_image;
    let table = section_table_start(h, location.nt_headers_offset as int);
    if nt_headers_read_error(bytes, 0) is Some {
        nt_headers_read_error(bytes, 0)
    } else if nt_headers_error(h, location.nt_headers_offset as int) is Some {
        nt_headers_error(h, location.nt_headers_offset as int)
    } else if location.image_base_address + image_size > usize::MAX {
        Some(
            PeValidationError::ImageRangeOverflow {
                base_address: location.image_base_address,
                image_size: image_size as usize,
            },
        )
    } else if location.image_base_address + table > usize::MAX {
        Some(
            PeValidationError::SectionTableAddressOverflow {
                base_address: location.image_base_address,
                section_table_offset: table as usize,
            },
        )
    } else {
        None
    }
}

/// Takes the complete NT headers, validates them and locates the section table.
pub fn accept_nt_headers(
    location: &RemoteNtLocation,
    complete_size: usize,
    outcome: Result<Vec<u8>, ProcessMemoryReadError>,
) -> (r: Result<RemoteNtHeaders, PeValidationError>)
    ensures
        match exact_read_error(outcome, complete_size) {
            Some(error) => r == Err::<RemoteNtHeaders, _>(
                PeValidationError::RemoteReadFailed {
                    target: PeReadTarget::NtHeaders,
                    address: location.nt_headers_address,
                    error,
                },
            ),
            None => {
                let bytes = outcome->Ok_0@;
                match r {
                    Ok(headers) => {
                        &&& remote_nt_headers_error(*location, bytes) is None
                        &&& headers.image_base_address == location.image_base_address
                        &&& headers.nt_headers@ == nt_headers_at(bytes, 0)
                        &&& headers.nt_headers@.wf()
                        &&& headers.facts.section_table_offset == section_table_start(
                            headers.nt_headers@,
                            location.nt_headers_offset as int,
                        )
                        &&& headers.facts.section_table_size
                            == headers.nt_headers.file_header.number_of_sections
                            * SECTION_HEADER_SIZE
                        &&& headers.facts.image_size
                            == headers.nt_headers.optional_header.size_of_image
                        &&& headers.section_table_address == location.image_base_address
                            + headers.facts.section_table_offset
                    },
                    Err(e) => remote_nt_headers_error(*location, bytes) == Some(e),
                }
            },
        },
{
    let bytes = match take_exact_read(
        outcome,
        complete_size,
        PeReadTarget::NtHeaders,
        location.nt_headers_address,
    ) {
        Ok(value) => value,
        Err(e) => return Err(e),
    };
    let nt_headers = match read_nt_headers(&bytes, 0) {
        Ok(value) => value,
        Err(e) => return Err(e),
    };
    let facts = match validate_nt_headers(&nt_headers, location.nt_headers_offset) {
        Ok(value) => value,
        Err(e) => return Err(e),
    };
    if location.image_base_address.checked_add(facts.image_size).is_none() {
        return Err(
            PeValidationError::ImageRangeOverflow {
                base_address: location.image_base_address,
                image_size: facts.image_size,
            },
        );
    }
    match location.image_base_address.checked_add(facts.section_table_offset) {
        Some(section_table_address) => Ok(
            RemoteNtHeaders {
                image_base_address: location.image_base_address,
                nt_headers,
                facts,
                section_table_address,
            },
        ),
        None => Err(
            PeValidationError::SectionTableAddressOverflow {
                base_address: location.image_base_address,
                section_table_offset: facts.section_table_offset,
            },
        ),
    }
}

/// Takes the section table read and validates the loaded layout. A refused reservation of the
/// section buffer is the one other failure.
pub fn accept_section_table(
    headers: &RemoteNtHeaders,
    outcome: Result<Vec<u8>, ProcessMemoryReadError>,
) -> (r: Result<Vec<SectionHeader>, PeValidationError>)
    requires
        headers.nt_headers@.wf(),
        headers.facts.section_table_size == headers.nt_headers.file_header.number_of_sections
            * SECTION_HEADER_SIZE,
    ensures
        match exact_read_error(outcome, headers.facts.section_table_size) {
            Some(error) => r == Err::<Vec<SectionHeader>, _>(
                PeValidationError::RemoteReadFailed {
                    target: PeReadTarget::SectionTable,
                    address: headers.section_table_address,
                    error,
                },
            ),
            None => {
                let count = headers.nt_headers.file_header.number_of_sections;
                match r {
                    Ok(sections) => {
                        &&& sections_read_from(sections@, outcome->Ok_0@, 0, count as int)
                        &&& section_layout_error(headers.nt_headers@, sections@) is None
                        &&& first_directory_layout_error(headers.nt_headers@, sections@, 0) is None
                    },
                    Err(e) => {
                        ||| e == PeValidationError::SectionBufferAllocationFailed {
                            section_count: count as usize,
                        }
                        ||| exists|sections: Seq<SectionHeader>| #[trigger]
                            sections_read_from(sections, outcome->Ok_0@, 0, count as int) && (
                            section_layout_error(headers.nt_headers@, sections) == Some(e) || (
                            section_layout_error(headers.nt_headers@, sections) is None
                                && first_directory_layout_error(headers.nt_headers@, sections, 0)
                                == Some(e)))
                    },
                }
            },
        },
{
    let bytes = match take_exact_read(
        outcome,
        headers.facts.section_table_size,
        PeReadTarget::SectionTable,
        headers.section_table_address,
    ) {
        Ok(value) => value,
        Err(e) => return Err(e),
    };
    let count: usize = headers.nt_headers.file_header.number_of_sections as usize;
    let sections = match read_section_headers(&bytes, 0, headers.facts.section_table_size, count) {
        Ok(value) => value,
        Err(e) => return Err(e),
    };
    assert(sections_read_from(sections@, outcome->Ok_0@, 0, count as int));
    match validate_section_layout(&headers.nt_headers, &sections) {
        Ok(()) => {},
        Err(e) => return Err(e),
    }
    match validate_data_directory_layout(&headers.nt_headers, &sections) {
        Ok(()) => {},
        Err(e) => return Err(e),
    }
    Ok(sections)
}

/// Collects the facts of a remote image whose headers, sections and mapping were accepted.
pub fn complete_remote_image(
    image_base_address: usize,
    nt_headers: NtHeaders,
    sections: Vec<SectionHeader>,
) -> (r: Result<ValidatedProcessImageDetails, PeValidationError>)
    ensures
        match r {
            Ok(details) => {
                &&& details.nt_headers == nt_headers
                &&& details.sections == sections
                &&& details.validation.base_address == image_base_address
                &&& details.validation.describes(nt_headers@, sections@)
            },
            Err(e) => e == identity_buffer_error(sections@.len()),
        },
{
    match collect_image_facts(image_base_address, &nt_headers, &sections) {
        Ok(validation) => Ok(ValidatedProcessImageDetails { validation, nt_headers, sections }),
        Err(e) => Err(e),
    }
}

/// The bytes that a complete read of the NT headers of a mapped image gives.
pub open spec fn nt_header_bytes(bytes: Seq<u8>) -> Seq<u8> {
    let at = dos_header_at(bytes).e_lfanew as int;
    let size = file_header_at(bytes, at + SIGNATURE_SIZE).size_of_optional_header;
    bytes.subrange(at, at + NT_PREFIX_SIZE + size)
}

/// The bytes that a read of the section table of a mapped image gives.
pub open spec fn section_table_bytes(bytes: Seq<u8>) -> Seq<u8> {
    let at = dos_header_at(bytes).e_lfanew as int;
    let h = nt_headers_at(bytes, at);
    let table = section_table_start(h, at);
    bytes.subrange(table, table + h.file_header.number_of_sections * SECTION_HEADER_SIZE)
}

/// Reading the components of a parsable image one by one sees the headers and sections that
/// parsing the whole image sees.
#[verifier::rlimit(40)]
pub proof fn law_remote_reads_see_the_image(bytes: Seq<u8>, sections: Seq<SectionHeader>)
    requires
        parse_error(bytes) is None,
    ensures
        ({
            let at = dos_header_at(bytes).e_lfanew as int;
            let h = nt_headers_at(bytes, at);
            let count = h.file_header.number_of_sections as int;
            &&& dos_header_at(bytes.subrange(0, DOS_HEADER_SIZE as int)) == dos_header_at(bytes)
            &&& file_header_at(
                bytes.subrange(at, at + NT_PREFIX_SIZE),
                SIGNATURE_SIZE as int,
            ) == h.file_header
            &&& nt_headers_read_error(nt_header_bytes(bytes), 0) is None
            &&& nt_headers_at(nt_header_bytes(bytes), 0) == h
            &&& sections_read_from(sections, section_table_bytes(bytes), 0, count)
                == sections_read_from(sections, bytes, section_table_start(h, at), count)
        }),
{
    let at = dos_header_at(bytes).e_lfanew as int;
    let h = nt_headers_at(bytes, at);
    let count = h.file_header.number_of_sections as int;
    let size = h.file_header.size_of_optional_header as int;
    let part = nt_header_bytes(bytes);
    let table = section_table_start(h, at);
    let rows = section_table_bytes(bytes);
    assert(file_header_at(part, SIGNATURE_SIZE as int) == h.file_header);
    assert(optional_bytes(part, OPTIONAL_HEADER_OFFSET as int, size) =~= optional_bytes(
        bytes,
        at + OPTIONAL_HEADER_OFFSET,
        size,
    ));
    assert(nt_headers_at(part, 0).data_directories =~= h.data_directories);
    assert(count * SECTION_HEADER_SIZE <= bytes.len());
    assert forall|i: int| 0 <= i < count && sections.len() == count implies (
    #[trigger] sections[i]).read_from(rows, i * SECTION_HEADER_SIZE) == sections[i].read_from(
        bytes,
        table + i * SECTION_HEADER_SIZE,
    ) by {
        let row = i * SECTION_HEADER_SIZE;
        assert(row + SECTION_HEADER_SIZE <= count * SECTION_HEADER_SIZE) by (nonlinear_arith)
            requires
                row == i * SECTION_HEADER_SIZE,
                i + 1 <= count,
        ;
        assert(rows.subrange(row, row + 8) =~= bytes.subrange(table + row, table + row + 8));
    }
}

/// An image is accepted read by read exactly when its mapped bytes are accepted as a whole.
pub proof fn law_remote_validation_agrees(
    bytes: Seq<u8>,
    location: RemoteNtLocation,
    image: PeImage,
)
    requires
        parse_error(bytes) is None,
        image.parsed_from(bytes),
        image.nt_headers.optional_header.size_of_image <= bytes.len(),
        location.image_base_address + image.nt_headers.optional_header.size_of_image <= usize::MAX,
        location.nt_headers_offset == image.nt_headers_offset,
    ensures
        image.error_in(bytes.len() as int) is None <==> {
            &&& remote_nt_headers_error(location, nt_header_bytes(bytes)) is None
            &&& section_layout_error(image.nt_headers@, image.sections@) is None
            &&& first_directory_layout_error(image.nt_headers@, image.sections@, 0) is None
        },
{
    law_remote_reads_see_the_image(bytes, image.sections@);
}

} // verus!
