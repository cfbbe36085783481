//! The exact identity of a PE image and its comparison.

use vstd::prelude::*;

use super::headers::{directory_count, parse_outcome, parse_pe};
use super::layout::{validate_outcome, validate_pe};
use super::types::{
    DataDirectory, NtHeaders, NtHeadersView, PeImage, PeValidationError, SectionHeader,
    ValidatedPeImage,
};
use crate::bytes::{
    bytes16, bytes32, bytes64, bytes_equal, lemma_bytes16_roundtrip, lemma_bytes32_roundtrip,
    lemma_bytes64_roundtrip, push_u16, push_u32, push_u64,
};

verus! {

/// Byte size of complete PE32+ NT headers.
pub const NT_HEADERS_SIZE: usize = 264;

/// Byte size of the fixed header part of an identity.
pub const IDENTITY_HEADER_SIZE: usize = 62;

/// The identity bytes of the fixed header fields.
pub open spec fn identity_header(h: NtHeadersView) -> Seq<u8> {
    let file = h.file_header;
    let opt = h.optional_header;
    bytes32(h.signature) + bytes16(file.machine) + bytes16(file.number_of_sections) + bytes32(
        file.time_date_stamp,
    ) + bytes16(file.size_of_optional_header) + bytes16(file.characteristics) + bytes16(opt.magic)
        + bytes32(opt.address_of_entry_point) + bytes32(opt.base_of_code) + bytes64(
        opt.image_base,
    ) + bytes32(opt.section_alignment) + bytes32(opt.file_alignment) + bytes32(opt.size_of_image)
        + bytes32(opt.size_of_headers) + bytes32(opt.check_sum) + bytes16(opt.subsystem) + bytes16(
        opt.dll_characteristics,
    ) + bytes32(opt.number_of_rva_and_sizes)
}

/// The identity bytes of the first `count` data directories.
pub open spec fn identity_directories(directories: Seq<DataDirectory>, count: int) -> Seq<u8>
    decreases count,
{
    if count <= 0 {
        Seq::empty()
    } else {
        identity_directories(directories, count - 1) + bytes32(
            directories[count - 1].virtual_address,
        ) + bytes32(directories[count - 1].size)
    }
}

/// The identity bytes of one section.
pub open spec fn identity_section(section: SectionHeader) -> Seq<u8> {
    section.name@ + bytes32(section.virtual_size) + bytes32(section.virtual_address) + bytes32(
        section.size_of_raw_data,
    ) + bytes32(section.pointer_to_raw_data) + bytes32(section.characteristics)
}

/// The identity bytes of the first `count` sections.
pub open spec fn identity_sections(sections: Seq<SectionHeader>, count: int) -> Seq<u8>
    decreases count,
{
    if count <= 0 {
        Seq::empty()
    } else {
        identity_sections(sections, count - 1) + identity_section(sections[count - 1])
    }
}

/// The identity of an image: its critical header fields, declared data directories and sections.
pub open spec fn identity_of(h: NtHeadersView, sections: Seq<SectionHeader>) -> Seq<u8> {
    identity_header(h) + identity_directories(h.data_directories, directory_count(h))
        + identity_sections(sections, sections.len() as int)
}

/// FNV-1a over `bytes`.
pub open spec fn identity_hash(bytes: Seq<u8>) -> u64
    decreases bytes.len(),
{
    if bytes.len() == 0 {
        0xCBF2_9CE4_8422_2325u64
    } else {
        (identity_hash(bytes.drop_last()) ^ (bytes.last() as u64)).wrapping_mul(0x100_0000_01B3u64)
    }
}

/// Calculates a compact diagnostic hash for exact PE identity bytes.
pub fn calculate_identity_hash(identity: &[u8]) -> (r: u64)
    ensures
        r == identity_hash(identity@),
{
    let mut hash: u64 = 0xCBF2_9CE4_8422_2325u64;
    let mut index: usize = 0;
    while index < identity.len()
        invariant
            index <= identity@.len(),
            hash == identity_hash(identity@.subrange(0, index as int)),
        decreases identity.len() - index,
    {
        let ghost before = identity@.subrange(0, index as int);
        let ghost after = identity@.subrange(0, index + 1);
        assert(after.drop_last() =~= before);
        hash = (hash ^ (identity[index] as u64)).wrapping_mul(0x100_0000_01B3u64);
        index += 1;
    }
    assert(identity@.subrange(0, index as int) =~= identity@);
    hash
}

/// Appends the identity of an image to an empty buffer.
pub fn write_pe_identity(
    nt_headers: &NtHeaders,
    sections: &[SectionHeader],
    buffer: Vec<u8>,
) -> (r: Vec<u8>)
    requires
        buffer@.len() == 0,
    ensures
        r@ == identity_of(nt_headers@, sections@),
{
    let mut identity = buffer;
    let file = nt_headers.file_header;
    let opt = nt_headers.optional_header;
    push_u32(&mut identity, nt_headers.signature);
    push_u16(&mut identity, file.machine);
    push_u16(&mut identity, file.number_of_sections);
    push_u32(&mut identity, file.time_date_stamp);
    push_u16(&mut identity, file.size_of_optional_header);
    push_u16(&mut identity, file.characteristics);
    push_u16(&mut identity, opt.magic);
    push_u32(&mut identity, opt.address_of_entry_point);
    push_u32(&mut identity, opt.base_of_code);
    push_u64(&mut identity, opt.image_base);
    push_u32(&mut identity, opt.section_alignment);
    push_u32(&mut identity, opt.file_alignment);
    push_u32(&mut identity, opt.size_of_image);
    push_u32(&mut identity, opt.size_of_headers);
    push_u32(&mut identity, opt.check_sum);
    push_u16(&mut identity, opt.subsystem);
    push_u16(&mut identity, opt.dll_characteristics);
    push_u32(&mut identity, opt.number_of_rva_and_sizes);
    assert(buffer@ + bytes32(nt_headers.signature) =~= bytes32(nt_headers.signature));
    let ghost head = identity_header(nt_headers@);
    assert(identity@ == head);
    assert(identity@ =~= head + identity_directories(nt_headers.data_directories@, 0));
    let declared: usize = opt.number_of_rva_and_sizes as usize;
    let mut index: usize = 0;
    while index < declared && index < nt_headers.data_directories.len()
        invariant
            index <= directory_count(nt_headers@),
            declared == nt_headers.optional_header.number_of_rva_and_sizes,
            identity@ == head + identity_directories(nt_headers.data_directories@, index as int),
        decreases declared - index,
    {
        let directory = nt_headers.data_directories[index];
        push_u32(&mut identity, directory.virtual_address);
        push_u32(&mut identity, directory.size);
        assert(identity@ =~= head + identity_directories(
            nt_headers.data_directories@,
            index + 1,
        ));
        index += 1;
    }
    let ghost prefix = head + identity_directories(
        nt_headers.data_directories@,
        directory_count(nt_headers@),
    );
    assert(identity@ =~= prefix + identity_sections(sections@, 0));
    let mut section_index: usize = 0;
    while section_index < sections.len()
        invariant
            section_index <= sections@.len(),
            identity@ == prefix + identity_sections(sections@, section_index as int),
        decreases sections.len() - section_index,
    {
        let section = &sections[section_index];
        let mut byte: usize = 0;
        let ghost before = identity@;
        while byte < 8
            invariant
                byte <= 8,
                identity@ == before + section.name@.subrange(0, byte as int),
            decreases 8 - byte,
        {
            identity.push(section.name[byte]);
            byte += 1;
            assert(identity@ =~= before + section.name@.subrange(0, byte as int));
        }
        assert(section.name@.subrange(0, 8) =~= section.name@);
        push_u32(&mut identity, section.virtual_size);
        push_u32(&mut identity, section.virtual_address);
        push_u32(&mut identity, section.size_of_raw_data);
        push_u32(&mut identity, section.pointer_to_raw_data);
        push_u32(&mut identity, section.characteristics);
        assert(identity@ =~= before + identity_section(sections@[section_index as int]));
        assert(identity@ =~= prefix + identity_sections(sections@, section_index + 1));
        section_index += 1;
    }
    identity
}

/// The buffer size that an identity of `count` sections asks for.
pub open spec fn identity_request(count: nat) -> int {
    NT_HEADERS_SIZE + count * super::headers::SECTION_HEADER_SIZE
}

/// The error of an identity buffer that could not be had.
pub open spec fn identity_buffer_error(count: nat) -> PeValidationError {
    PeValidationError::IdentityBufferAllocationFailed {
        bytes_requested: if identity_request(count) > usize::MAX {
            usize::MAX
        } else {
            identity_request(count) as usize
        },
    }
}

/// Serializes critical PE and section-table fields into an exact comparison identity. It fails
/// only when the buffer size overflows or its reservation is refused.
pub fn create_pe_identity(nt_headers: &NtHeaders, sections: &[SectionHeader]) -> (r: Result<
    Vec<u8>,
    PeValidationError,
>)
    ensures
        match r {
            Ok(identity) => {
                &&& identity_request(sections@.len()) <= usize::MAX
                &&& identity@ == identity_of(nt_headers@, sections@)
            },
            Err(e) => e == identity_buffer_error(sections@.len()),
        },
{
    let bytes_requested: usize = match sections.len().checked_mul(
        super::headers::SECTION_HEADER_SIZE,
    ) {
        Some(section_bytes) => match NT_HEADERS_SIZE.checked_add(section_bytes) {
            Some(value) => value,
            None => return Err(
                PeValidationError::IdentityBufferAllocationFailed { bytes_requested: usize::MAX },
            ),
        },
        None => return Err(
            PeValidationError::IdentityBufferAllocationFailed { bytes_requested: usize::MAX },
        ),
    };
    let mut identity: Vec<u8> = Vec::new();
    if identity.try_reserve(bytes_requested).is_err() {
        return Err(PeValidationError::IdentityBufferAllocationFailed { bytes_requested });
    }
    Ok(write_pe_identity(nt_headers, sections, identity))
}

/// Why two validation records do not describe the same image.
pub open spec fn identity_mismatch(expected: ValidatedPeImage, actual: ValidatedPeImage) -> Option<
    PeValidationError,
> {
    if actual.image_size != expected.image_size || actual.entry_point_rva
        != expected.entry_point_rva || actual.section_count != expected.section_count
        || actual.identity@ != expected.identity@ {
        Some(
            PeValidationError::ValidatedImageIdentityMismatch {
                expected_image_size: expected.image_size,
                actual_image_size: actual.image_size,
                expected_entry_point_rva: expected.entry_point_rva,
                actual_entry_point_rva: actual.entry_point_rva,
                expected_section_count: expected.section_count,
                actual_section_count: actual.section_count,
                expected_identity_hash: identity_hash(expected.identity@),
                actual_identity_hash: identity_hash(actual.identity@),
            },
        )
    } else {
        None
    }
}

/// Confirms that two image-validation records describe the same PE identity.
pub fn validate_image_identity(expected: &ValidatedPeImage, actual: &ValidatedPeImage) -> (r:
    Result<(), PeValidationError>)
    ensures
        match r {
            Ok(()) => identity_mismatch(*expected, *actual) is None,
            Err(e) => identity_mismatch(*expected, *actual) == Some(e),
        },
{
    if actual.image_size != expected.image_size || actual.entry_point_rva
        != expected.entry_point_rva || actual.section_count != expected.section_count
        || !bytes_equal(&actual.identity, &expected.identity) {
        return Err(
            PeValidationError::ValidatedImageIdentityMismatch {
                expected_image_size: expected.image_size,
                actual_image_size: actual.image_size,
                expected_entry_point_rva: expected.entry_point_rva,
                actual_entry_point_rva: actual.entry_point_rva,
                expected_section_count: expected.section_count,
                actual_section_count: actual.section_count,
                expected_identity_hash: calculate_identity_hash(&expected.identity),
                actual_identity_hash: calculate_identity_hash(&actual.identity),
            },
        );
    }
    Ok(())
}

impl ValidatedPeImage {
    /// This record holds the facts of an image with these headers and sections.
    pub open spec fn describes(&self, h: NtHeadersView, sections: Seq<SectionHeader>) -> bool {
        &&& self.image_size == h.optional_header.size_of_image
        &&& self.entry_point_rva == h.optional_header.address_of_entry_point
        &&& self.section_count == h.file_header.number_of_sections
        &&& self.identity@ == identity_of(h, sections)
    }
}

/// Why an image with these headers and sections does not match `validation`.
pub open spec fn facts_mismatch(
    validation: ValidatedPeImage,
    h: NtHeadersView,
    sections: Seq<SectionHeader>,
) -> Option<PeValidationError> {
    if validation.describes(h, sections) {
        None
    } else {
        Some(
            PeValidationError::ValidatedImageIdentityMismatch {
                expected_image_size: validation.image_size,
                actual_image_size: h.optional_header.size_of_image as usize,
                expected_entry_point_rva: validation.entry_point_rva,
                actual_entry_point_rva: h.optional_header.address_of_entry_point as usize,
                expected_section_count: validation.section_count,
                actual_section_count: h.file_header.number_of_sections,
                expected_identity_hash: identity_hash(validation.identity@),
                actual_identity_hash: identity_hash(identity_of(h, sections)),
            },
        )
    }
}

/// Collects the facts of an image at `base_address`.
pub fn collect_image_facts(
    base_address: usize,
    nt_headers: &NtHeaders,
    sections: &[SectionHeader],
) -> (r: Result<ValidatedPeImage, PeValidationError>)
    ensures
        match r {
            Ok(facts) => {
                &&& facts.base_address == base_address
                &&& facts.describes(nt_headers@, sections@)
            },
            Err(e) => e == identity_buffer_error(sections@.len()),
        },
{
    match create_pe_identity(nt_headers, sections) {
        Ok(identity) => Ok(
            ValidatedPeImage {
                base_address,
                image_size: nt_headers.optional_header.size_of_image as usize,
                entry_point_rva: nt_headers.optional_header.address_of_entry_point as usize,
                section_count: nt_headers.file_header.number_of_sections,
                identity,
            },
        ),
        Err(e) => Err(e),
    }
}

/// Checks a parsed image against previously validated facts.
fn check_image_facts(validation: &ValidatedPeImage, pe: &PeImage) -> (r: Result<
    (),
    PeValidationError,
>)
    ensures
        match r {
            Ok(()) => facts_mismatch(*validation, pe.nt_headers@, pe.sections@) is None,
            Err(e) => {
                ||| e == identity_buffer_error(pe.sections@.len())
                ||| facts_mismatch(*validation, pe.nt_headers@, pe.sections@) == Some(e)
            },
        },
{
    let actual = match collect_image_facts(validation.base_address, &pe.nt_headers, &pe.sections) {
        Ok(value) => value,
        Err(e) => return Err(e),
    };
    validate_image_identity(validation, &actual)
}

/// What comparing an accepted image of `bytes` with `validation` may end in, other than success.
pub open spec fn refused_facts(
    validation: ValidatedPeImage,
    pe: PeImage,
    e: PeValidationError,
) -> bool {
    ||| e == identity_buffer_error(pe.sections@.len())
    ||| facts_mismatch(validation, pe.nt_headers@, pe.sections@) == Some(e)
}

/// Strictly validates copied mapped-image bytes against previously validated image facts.
pub fn validate_matching_image(validation: &ValidatedPeImage, pe_data: &[u8]) -> (r: Result<
    PeImage,
    PeValidationError,
>)
    ensures
        match r {
            Ok(pe) => {
                &&& pe_data@.len() == validation.image_size
                &&& validate_outcome(pe_data@, Ok(pe))
                &&& validation.describes(pe.nt_headers@, pe.sections@)
            },
            Err(e) => if pe_data@.len() != validation.image_size {
                e == (PeValidationError::ValidatedImageSizeMismatch {
                    expected_size: validation.image_size,
                    actual_size: pe_data@.len() as usize,
                })
            } else {
                ||| validate_outcome(pe_data@, Err(e))
                ||| exists|pe: PeImage| #[trigger]
                    validate_outcome(pe_data@, Ok(pe)) && refused_facts(*validation, pe, e)
            },
        },
{
    if pe_data.len() != validation.image_size {
        return Err(
            PeValidationError::ValidatedImageSizeMismatch {
                expected_size: validation.image_size,
                actual_size: pe_data.len(),
            },
        );
    }
    let pe = match validate_pe(pe_data) {
        Ok(value) => value,
        Err(e) => return Err(e),
    };
    match check_image_facts(validation, &pe) {
        Ok(()) => Ok(pe),
        Err(e) => {
            assert(validate_outcome(pe_data@, Ok(pe)) && refused_facts(*validation, pe, e));
            Err(e)
        },
    }
}

/// Validates raw-file PE headers against the exact identity captured from a loaded image.
pub fn validate_backing_file_identity(validation: &ValidatedPeImage, file_data: &[u8]) -> (r: Result<
    PeImage,
    PeValidationError,
>)
    ensures
        match r {
            Ok(pe) => {
                &&& parse_outcome(file_data@, Ok(pe))
                &&& validation.describes(pe.nt_headers@, pe.sections@)
            },
            Err(e) => {
                ||| parse_outcome(file_data@, Err(e))
                ||| exists|pe: PeImage| #[trigger]
                    parse_outcome(file_data@, Ok(pe)) && refused_facts(*validation, pe, e)
            },
        },
{
    let pe = match parse_pe(file_data) {
        Ok(value) => value,
        Err(e) => return Err(e),
    };
    match check_image_facts(validation, &pe) {
        Ok(()) => Ok(pe),
        Err(e) => {
            assert(parse_outcome(file_data@, Ok(pe)) && refused_facts(*validation, pe, e));
            Err(e)
        },
    }
}

/// Two equal concatenations with equally long tails have equal heads and equal tails.
proof fn lemma_split_tail(a: Seq<u8>, x: Seq<u8>, b: Seq<u8>, y: Seq<u8>)
    requires
        a + x == b + y,
        x.len() == y.len(),
    ensures
        a == b,
        x == y,
{
    assert(a.len() == (a + x).len() - x.len());
    assert(b.len() == (b + y).len() - y.len());
    assert(a =~= (a + x).subrange(0, a.len() as int));
    assert(b =~= (b + y).subrange(0, b.len() as int));
    assert(x =~= (a + x).subrange(a.len() as int, (a + x).len() as int));
    assert(y =~= (b + y).subrange(b.len() as int, (b + y).len() as int));
}

/// Peels a two-byte field off two equal byte runs.
proof fn lemma_peel16(a: Seq<u8>, x: u16, b: Seq<u8>, y: u16)
    requires
        a + bytes16(x) == b + bytes16(y),
    ensures
        a == b,
        x == y,
{
    lemma_split_tail(a, bytes16(x), b, bytes16(y));
    lemma_bytes16_roundtrip(x);
    lemma_bytes16_roundtrip(y);
}

/// Peels a four-byte field off two equal byte runs.
proof fn lemma_peel32(a: Seq<u8>, x: u32, b: Seq<u8>, y: u32)
    requires
        a + bytes32(x) == b + bytes32(y),
    ensures
        a == b,
        x == y,
{
    lemma_split_tail(a, bytes32(x), b, bytes32(y));
    lemma_bytes32_roundtrip(x);
    lemma_bytes32_roundtrip(y);
}

/// Peels an eight-byte field off two equal byte runs.
proof fn lemma_peel64(a: Seq<u8>, x: u64, b: Seq<u8>, y: u64)
    requires
        a + bytes64(x) == b + bytes64(y),
    ensures
        a == b,
        x == y,
{
    lemma_bytes64_roundtrip(x);
    lemma_bytes64_roundtrip(y);
    lemma_split_tail(a, bytes64(x), b, bytes64(y));
}

/// The identity header has a fixed size.
proof fn lemma_identity_header_size(h: NtHeadersView)
    ensures
        identity_header(h).len() == IDENTITY_HEADER_SIZE,
{
}

/// Whether two headers agree in every field that the identity header holds.
pub open spec fn same_identity_fields(a: NtHeadersView, b: NtHeadersView) -> bool {
    &&& a.signature == b.signature
    &&& a.file_header == b.file_header
    &&& a.optional_header.magic == b.optional_header.magic
    &&& a.optional_header.address_of_entry_point == b.optional_header.address_of_entry_point
    &&& a.optional_header.base_of_code == b.optional_header.base_of_code
    &&& a.optional_header.image_base == b.optional_header.image_base
    &&& a.optional_header.section_alignment == b.optional_header.section_alignment
    &&& a.optional_header.file_alignment == b.optional_header.file_alignment
    &&& a.optional_header.size_of_image == b.optional_header.size_of_image
    &&& a.optional_header.size_of_headers == b.optional_header.size_of_headers
    &&& a.optional_header.check_sum == b.optional_header.check_sum
    &&& a.optional_header.subsystem == b.optional_header.subsystem
    &&& a.optional_header.dll_characteristics == b.optional_header.dll_characteristics
    &&& a.optional_header.number_of_rva_and_sizes == b.optional_header.number_of_rva_and_sizes
}

/// The identity header determines the fields it holds.
#[verifier::rlimit(40)]
proof fn lemma_identity_header_injective(a: NtHeadersView, b: NtHeadersView)
    requires
        identity_header(a) == identity_header(b),
    ensures
        same_identity_fields(a, b),
{
    let (fa, fb, oa, ob) = (a.file_header, b.file_header, a.optional_header, b.optional_header);
    let a1 = bytes32(a.signature);
    let b1 = bytes32(b.signature);
    let a2 = a1 + bytes16(fa.machine);
    let b2 = b1 + bytes16(fb.machine);
    let a3 = a2 + bytes16(fa.number_of_sections);
    let b3 = b2 + bytes16(fb.number_of_sections);
    let a4 = a3 + bytes32(fa.time_date_stamp);
    let b4 = b3 + bytes32(fb.time_date_stamp);
    let a5 = a4 + bytes16(fa.size_of_optional_header);
    let b5 = b4 + bytes16(fb.size_of_optional_header);
    let a6 = a5 + bytes16(fa.characteristics);
    let b6 = b5 + bytes16(fb.characteristics);
    let a7 = a6 + bytes16(oa.magic);
    let b7 = b6 + bytes16(ob.magic);
    let a8 = a7 + bytes32(oa.address_of_entry_point);
    let b8 = b7 + bytes32(ob.address_of_entry_point);
    let a9 = a8 + bytes32(oa.base_of_code);
    let b9 = b8 + bytes32(ob.base_of_code);
    let a10 = a9 + bytes64(oa.image_base);
    let b10 = b9 + bytes64(ob.image_base);
    let a11 = a10 + bytes32(oa.section_alignment);
    let b11 = b10 + bytes32(ob.section_alignment);
    let a12 = a11 + bytes32(oa.file_alignment);
    let b12 = b11 + bytes32(ob.file_alignment);
    let a13 = a12 + bytes32(oa.size_of_image);
    let b13 = b12 + bytes32(ob.size_of_image);
    let a14 = a13 + bytes32(oa.size_of_headers);
    let b14 = b13 + bytes32(ob.size_of_headers);
    let a15 = a14 + bytes32(oa.check_sum);
    let b15 = b14 + bytes32(ob.check_sum);
    let a16 = a15 + bytes16(oa.subsystem);
    let b16 = b15 + bytes16(ob.subsystem);
    let a17 = a16 + bytes16(oa.dll_characteristics);
    let b17 = b16 + bytes16(ob.dll_characteristics);
    lemma_peel32(a17, oa.number_of_rva_and_sizes, b17, ob.number_of_rva_and_sizes);
    lemma_peel16(a16, oa.dll_characteristics, b16, ob.dll_characteristics);
    lemma_peel16(a15, oa.subsystem, b15, ob.subsystem);
    lemma_peel32(a14, oa.check_sum, b14, ob.check_sum);
    lemma_peel32(a13, oa.size_of_headers, b13, ob.size_of_headers);
    lemma_peel32(a12, oa.size_of_image, b12, ob.size_of_image);
    lemma_peel32(a11, oa.file_alignment, b11, ob.file_alignment);
    lemma_peel32(a10, oa.section_alignment, b10, ob.section_alignment);
    lemma_peel64(a9, oa.image_base, b9, ob.image_base);
    lemma_peel32(a8, oa.base_of_code, b8, ob.base_of_code);
    lemma_peel32(a7, oa.address_of_entry_point, b7, ob.address_of_entry_point);
    lemma_peel16(a6, oa.magic, b6, ob.magic);
    lemma_peel16(a5, fa.characteristics, b5, fb.characteristics);
    lemma_peel16(a4, fa.size_of_optional_header, b4, fb.size_of_optional_header);
    lemma_peel32(a3, fa.time_date_stamp, b3, fb.time_date_stamp);
    lemma_peel16(a2, fa.number_of_sections, b2, fb.number_of_sections);
    lemma_peel16(a1, fa.machine, b1, fb.machine);
    lemma_bytes32_roundtrip(a.signature);
    lemma_bytes32_roundtrip(b.signature);
}

/// The size of the directory part of an identity.
proof fn lemma_identity_directories_size(directories: Seq<DataDirectory>, count: int)
    requires
        0 <= count,
    ensures
        identity_directories(directories, count).len() == 8 * count,
    decreases count,
{
    if count > 0 {
        lemma_identity_directories_size(directories, count - 1);
    }
}

/// The directory part of an identity determines the directories.
proof fn lemma_identity_directories_injective(
    a: Seq<DataDirectory>,
    b: Seq<DataDirectory>,
    count: int,
)
    requires
        0 <= count,
        identity_directories(a, count) == identity_directories(b, count),
    ensures
        forall|i: int| 0 <= i < count ==> a[i] == b[i],
    decreases count,
{
    if count > 0 {
        let heads_a = identity_directories(a, count - 1);
        let heads_b = identity_directories(b, count - 1);
        let (last_a, last_b) = (a[count - 1], b[count - 1]);
        lemma_peel32(
            heads_a + bytes32(last_a.virtual_address),
            last_a.size,
            heads_b + bytes32(last_b.virtual_address),
            last_b.size,
        );
        lemma_peel32(heads_a, last_a.virtual_address, heads_b, last_b.virtual_address);
        lemma_identity_directories_injective(a, b, count - 1);
    }
}

/// Whether two section headers agree in every field.
pub open spec fn same_section(a: SectionHeader, b: SectionHeader) -> bool {
    &&& a.name@ == b.name@
    &&& a.virtual_size == b.virtual_size
    &&& a.virtual_address == b.virtual_address
    &&& a.size_of_raw_data == b.size_of_raw_data
    &&& a.pointer_to_raw_data == b.pointer_to_raw_data
    &&& a.characteristics == b.characteristics
}

/// The size of the section part of an identity.
proof fn lemma_identity_sections_size(sections: Seq<SectionHeader>, count: int)
    requires
        0 <= count,
    ensures
        identity_sections(sections, count).len() == 28 * count,
    decreases count,
{
    if count > 0 {
        lemma_identity_sections_size(sections, count - 1);
        assert(identity_section(sections[count - 1]).len() == 28);
    }
}

/// The section part of an identity determines the sections.
proof fn lemma_identity_sections_injective(
    a: Seq<SectionHeader>,
    b: Seq<SectionHeader>,
    count: int,
)
    requires
        0 <= count,
        identity_sections(a, count) == identity_sections(b, count),
    ensures
        forall|i: int| 0 <= i < count ==> same_section(#[trigger] a[i], b[i]),
    decreases count,
{
    if count > 0 {
        let (sa, sb) = (a[count - 1], b[count - 1]);
        assert(identity_section(sa).len() == 28 && identity_section(sb).len() == 28);
        lemma_split_tail(
            identity_sections(a, count - 1),
            identity_section(sa),
            identity_sections(b, count - 1),
            identity_section(sb),
        );
        let (a1, b1) = (sa.name@, sb.name@);
        let (a2, b2) = (a1 + bytes32(sa.virtual_size), b1 + bytes32(sb.virtual_size));
        let (a3, b3) = (a2 + bytes32(sa.virtual_address), b2 + bytes32(sb.virtual_address));
        let (a4, b4) = (a3 + bytes32(sa.size_of_raw_data), b3 + bytes32(sb.size_of_raw_data));
        let (a5, b5) = (a4 + bytes32(sa.pointer_to_raw_data), b4 + bytes32(sb.pointer_to_raw_data));
        lemma_peel32(a5, sa.characteristics, b5, sb.characteristics);
        lemma_peel32(a4, sa.pointer_to_raw_data, b4, sb.pointer_to_raw_data);
        lemma_peel32(a3, sa.size_of_raw_data, b3, sb.size_of_raw_data);
        lemma_peel32(a2, sa.virtual_address, b2, sb.virtual_address);
        lemma_peel32(a1, sa.virtual_size, b1, sb.virtual_size);
        lemma_identity_sections_injective(a, b, count - 1);
    }
}

/// Equal identities mean equal images: the same critical header fields, the same declared data
/// directories and the same sections.
pub proof fn law_identity_determines_image(
    a: NtHeadersView,
    a_sections: Seq<SectionHeader>,
    b: NtHeadersView,
    b_sections: Seq<SectionHeader>,
)
    requires
        a.wf(),
        b.wf(),
        identity_of(a, a_sections) == identity_of(b, b_sections),
    ensures
        same_identity_fields(a, b),
        forall|i: int|
            0 <= i < directory_count(a) ==> a.data_directories[i] == b.data_directories[i],
        a_sections.len() == b_sections.len(),
        forall|i: int|
            0 <= i < a_sections.len() ==> same_section(#[trigger] a_sections[i], b_sections[i]),
{
    let (ha, hb) = (identity_header(a), identity_header(b));
    let da = identity_directories(a.data_directories, directory_count(a));
    let db = identity_directories(b.data_directories, directory_count(b));
    let sa = identity_sections(a_sections, a_sections.len() as int);
    let sb = identity_sections(b_sections, b_sections.len() as int);
    let (ia, ib) = (identity_of(a, a_sections), identity_of(b, b_sections));
    lemma_identity_header_size(a);
    lemma_identity_header_size(b);
    lemma_identity_directories_size(a.data_directories, directory_count(a));
    lemma_identity_directories_size(b.data_directories, directory_count(b));
    lemma_identity_sections_size(a_sections, a_sections.len() as int);
    lemma_identity_sections_size(b_sections, b_sections.len() as int);
    assert(ha =~= ia.subrange(0, IDENTITY_HEADER_SIZE as int));
    assert(hb =~= ib.subrange(0, IDENTITY_HEADER_SIZE as int));
    lemma_identity_header_injective(a, b);
    let split = IDENTITY_HEADER_SIZE + 8 * directory_count(a);
    assert(da =~= ia.subrange(IDENTITY_HEADER_SIZE as int, split));
    assert(db =~= ib.subrange(IDENTITY_HEADER_SIZE as int, split));
    lemma_identity_directories_injective(
        a.data_directories,
        b.data_directories,
        directory_count(a),
    );
    assert(sa =~= ia.subrange(split, ia.len() as int));
    assert(sb =~= ib.subrange(split, ib.len() as int));
    lemma_identity_sections_injective(a_sections, b_sections, a_sections.len() as int);
}

} // verus!
