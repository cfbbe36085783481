use daydream::backing::{backing_byte_at_rva, rva_to_file_range, RawFileRange, ValidatedPeFile};
use daydream::code_section::{
    collect_runtime_function_evidence, locate_text_section, CodeSectionCandidate,
    CodeSectionConfidence, CodeSectionLocation, RuntimeFunctionEvidence, RuntimeFunctionRange,
};
use daydream::debuginfo::pdb::{
    build_path_info, collect_main_module_pdb_info_from_snapshot, collect_pdb_info_from_pe,
    complete_pdb_info, PdbCodeViewFormat, PdbInfoCollectionError,
};
use daydream::imports::collector::{
    build_process_import_info, collect_process_imports_from_snapshot, ProcessImportCollectionError,
};
use daydream::imports::parsing::{collect_import_entries_from_pe, PeImportEntry};
use daydream::imports::xrefs::{collect_iat_xrefs_for_targets, PeIatXref, PeIatXrefKind};
use daydream::memory::{MemoryRegion, MemoryRegionQueryError, MemoryRegionType, ProcessMemoryReadError};
use daydream::opcode::bitmap::ProcessDecodeBitmap;
use daydream::opcode::catalog::{opcode_of, CatalogEntry};
use daydream::opcode::collect::{collect_opcode_hits_from_snapshot, ProcessOpcodeCollection};
use daydream::opcode::evaluate::{
    evaluate_backing_file, validate_runtime_functions_against_backing, BackingReason,
    FileValidationError, ProcessOpcodeBackingStatus, ProcessOpcodeRelocationStatus,
    RuntimeFunctionMismatch,
};
use daydream::opcode::hits::{ProcessOpcodeEvidence, ProcessOpcodeRawSummary};
use daydream::opcode::queue::initialize_decode_tasks;
use daydream::opcode::raw::{keep_raw_match, ProcessOpcodeRawHit, RawOpcodeLog};
use daydream::opcode::relocation::{
    collect_base_relocation_ranges, ProcessRelocationRange, RelocationError,
};
use daydream::opcode::traverse::{
    collect_process_instruction_boundaries, decode_mapped_with_setup,
};
use daydream::paths::split_file_name;
use daydream::patterns::{collect_pattern_hits_from_snapshot, PePatternMatch, Signature};
use daydream::pe::headers::{check_data_range, parse_pe, read_section_headers};
use daydream::pe::identity::{
    calculate_identity_hash, collect_image_facts, create_pe_identity, validate_backing_file_identity,
    validate_matching_image,
};
use daydream::pe::layout::validate_pe;
use daydream::pe::locate::{
    collect_sections_from_pe, get_data_directory, get_file_offset_from_pe, is_image_data_range,
};
use daydream::pe::region::{
    classify_unavailable_image_range, validate_image_region, ImageRegionDisposition,
};
use daydream::pe::remote::{
    accept_dos_header, accept_nt_headers, accept_nt_prefix, accept_section_table,
    begin_remote_image, complete_remote_image,
};
use daydream::pe::snapshot::{
    append_discarded, complete_snapshot, is_snapshot_range_available, ImageMappingWalk, ImageSnapshotReader,
    ImageWalkAction,
};
use daydream::pe::types::{
    PeReadTarget, PeValidationError, UnavailablePeRange, ValidatedPeImage, ValidatedPeSnapshot,
};
use daydream::process::ValidatedProcessPe;
use daydream::progress::ProgressLog;
use daydream::scan::{count_executable_bytes, is_executable_complete};
use daydream::string_scan::collect_main_module_strings_from_snapshot;
use daydream::strings::StringEncoding;
use std::collections::HashSet;

const BASE: usize = 0x1_4000_0000;
const NT: usize = 0x80;
const OPTIONAL: usize = NT + 24;
const DIRECTORIES: usize = OPTIONAL + 112;
const SECTIONS: usize = OPTIONAL + 240;

fn put16(data: &mut [u8], at: usize, value: u16) {
    data[at..at + 2].copy_from_slice(&value.to_le_bytes());
}

fn put32(data: &mut [u8], at: usize, value: u32) {
    data[at..at + 4].copy_from_slice(&value.to_le_bytes());
}

fn put64(data: &mut [u8], at: usize, value: u64) {
    data[at..at + 8].copy_from_slice(&value.to_le_bytes());
}

fn put(data: &mut [u8], at: usize, value: &[u8]) {
    data[at..at + value.len()].copy_from_slice(value);
}

fn put_section(data: &mut [u8], index: usize, name: &[u8], fields: [u32; 5]) {
    let at = SECTIONS + index * 40;
    put(data, at, name);
    put32(data, at + 8, fields[0]);
    put32(data, at + 12, fields[1]);
    put32(data, at + 16, fields[2]);
    put32(data, at + 20, fields[3]);
    put32(data, at + 36, fields[4]);
}

/// A mapped image with code, read-only data and a discardable relocation section.
fn mapped_image() -> Vec<u8> {
    let mut data = vec![0u8; 0x4000];

    put(&mut data, 0, b"MZ");
    put32(&mut data, 60, NT as u32);
    put(&mut data, NT, b"PE\0\0");
    put16(&mut data, NT + 4, 0x8664);
    put16(&mut data, NT + 6, 3);
    put32(&mut data, NT + 8, 0x6512_3456);
    put16(&mut data, NT + 20, 240);
    put16(&mut data, NT + 22, 0x22);

    put16(&mut data, OPTIONAL, 0x20B);
    put32(&mut data, OPTIONAL + 16, 0x1010);
    put32(&mut data, OPTIONAL + 20, 0x1000);
    put64(&mut data, OPTIONAL + 24, BASE as u64);
    put32(&mut data, OPTIONAL + 32, 0x1000);
    put32(&mut data, OPTIONAL + 36, 0x200);
    put32(&mut data, OPTIONAL + 56, 0x4000);
    put32(&mut data, OPTIONAL + 60, 0x400);
    put16(&mut data, OPTIONAL + 68, 3);
    put32(&mut data, OPTIONAL + 108, 16);

    put_section(&mut data, 0, b".text", [0x300, 0x1000, 0x400, 0x400, 0x6000_0020]);
    put_section(&mut data, 1, b".rdata", [0x500, 0x2000, 0x600, 0x800, 0x4000_0040]);
    put_section(&mut data, 2, b".reloc", [0x100, 0x3000, 0x200, 0xE00, 0x4200_0040]);

    data
}

fn put_directory(data: &mut [u8], index: usize, rva: u32, size: u32) {
    put32(data, DIRECTORIES + index * 8, rva);
    put32(data, DIRECTORIES + index * 8 + 4, size);
}

/// The mapped image with one library, two imports and two references to them.
fn image_with_imports() -> Vec<u8> {
    let mut data = mapped_image();
    put_directory(&mut data, 1, 0x2000, 40);
    put32(&mut data, 0x2000, 0x2040);
    put32(&mut data, 0x200C, 0x20C0);
    put32(&mut data, 0x2010, 0x2080);
    put64(&mut data, 0x2040, 0x2100);
    put64(&mut data, 0x2048, 0x8000_0000_0000_0007);
    put64(&mut data, 0x2080, 0x2100);
    put64(&mut data, 0x2088, 0x8000_0000_0000_0007);
    put(&mut data, 0x20C0, b"kernel32.dll\0");
    put(&mut data, 0x2102, b"ExitProcess\0");
    put(&mut data, 0x1010, &[0xFF, 0x15]);
    put32(&mut data, 0x1012, 0x2080 - 0x1016);
    put(&mut data, 0x1020, &[0x48, 0xFF, 0x25]);
    put32(&mut data, 0x1023, 0x2088 - 0x1027);
    data
}

/// The mapped image with an RSDS record.
fn image_with_pdb() -> Vec<u8> {
    let mut data = mapped_image();
    put_directory(&mut data, 6, 0x2200, 28);
    put32(&mut data, 0x220C, 2);
    put32(&mut data, 0x2210, 36);
    put32(&mut data, 0x2214, 0x2240);
    put32(&mut data, 0x2218, 0xA40);
    put(&mut data, 0x2240, b"RSDS");
    put(&mut data, 0x2244, &[1, 0, 0, 0, 2, 0, 3, 0, 8, 9, 10, 11, 12, 13, 14, 15]);
    put32(&mut data, 0x2254, 5);
    put(&mut data, 0x2258, b"dir/a.pdb\0");
    data
}

/// The mapped image with one runtime function and its unwind record.
fn image_with_functions() -> Vec<u8> {
    let mut data = mapped_image();
    put_directory(&mut data, 3, 0x2300, 12);
    put32(&mut data, 0x2300, 0x1010);
    put32(&mut data, 0x2304, 0x1030);
    put32(&mut data, 0x2308, 0x2320);
    data[0x2320] = 1;
    data
}

/// The file that the mapped bytes come from.
fn raw_file(mapped: &[u8]) -> ValidatedPeFile {
    let mut bytes = mapped[..0x400].to_vec();
    bytes.extend_from_slice(&mapped[0x1000..0x1400]);
    bytes.extend_from_slice(&mapped[0x2000..0x2600]);
    bytes.extend_from_slice(&mapped[0x3000..0x3200]);
    ValidatedPeFile {
        bytes,
        image_base: BASE as u64,
        size_of_image: 0x4000,
        ranges: vec![
            RawFileRange { rva: 0, size: 0x400, file_offset: 0 },
            RawFileRange { rva: 0x1000, size: 0x300, file_offset: 0x400 },
            RawFileRange { rva: 0x2000, size: 0x500, file_offset: 0x800 },
            RawFileRange { rva: 0x3000, size: 0x100, file_offset: 0xE00 },
        ],
    }
}

fn facts(data: &[u8]) -> ValidatedPeImage {
    let pe = parse_pe(data).expect("headers parse");
    collect_image_facts(BASE, &pe.nt_headers, &pe.sections).expect("facts are collected")
}

fn process(data: &[u8]) -> ValidatedProcessPe {
    ValidatedProcessPe {
        process_id: 7,
        peb_address: 0x5000,
        being_debugged: false,
        image: facts(data),
        image_path: "C:\\a.exe".to_string(),
    }
}

fn snapshot(data: Vec<u8>) -> ValidatedPeSnapshot {
    let validation = facts(&data);
    complete_snapshot(&validation, data, vec![]).expect("the snapshot is valid")
}

fn region(start: usize, size: usize, state: u32, protect: u32) -> MemoryRegion {
    MemoryRegion {
        base_address: start,
        allocation_base: BASE,
        region_size: size,
        state,
        protect,
        region_type: MemoryRegionType::Image,
    }
}

fn changed32(at: usize, value: u32) -> Vec<u8> {
    let mut data = mapped_image();
    put32(&mut data, at, value);
    data
}

fn changed16(at: usize, value: u16) -> Vec<u8> {
    let mut data = mapped_image();
    put16(&mut data, at, value);
    data
}

#[test]
fn parses_and_validates_a_mapped_image() {
    let data = mapped_image();
    let pe = validate_pe(&data).expect("the image is valid");

    assert_eq!(pe.nt_headers_offset, NT);
    assert_eq!(pe.sections.len(), 3);
    assert_eq!(pe.nt_headers.optional_header.address_of_entry_point, 0x1010);
    assert_eq!(&pe.sections[1].name, b".rdata\0\0");
    assert_eq!(pe, parse_pe(&data).expect("the image parses"));
    assert_eq!(get_data_directory(&pe, 1).map(|directory| directory.size), Some(0));
    let imports = validate_pe(&image_with_imports()).expect("the image is valid");
    let directory = get_data_directory(&imports, 1).expect("an import directory");
    assert_eq!((directory.virtual_address, directory.size), (0x2000, 40));
    assert_eq!(get_data_directory(&imports, 16), None);
}

#[test]
fn every_header_rejection_names_its_cause() {
    assert_eq!(
        parse_pe(&[0; 10]),
        Err(PeValidationError::DataTooSmall { offset: 0, bytes_requested: 64, data_size: 10 })
    );
    assert_eq!(
        parse_pe(&changed16(0, 0x5A4E)),
        Err(PeValidationError::InvalidDosSignature { signature: 0x5A4E })
    );
    assert_eq!(
        parse_pe(&changed32(60, 0x84)),
        Err(PeValidationError::InvalidNtHeadersOffset { offset: 0x84 })
    );
    assert_eq!(
        parse_pe(&changed32(60, 0xFFFF_FFF8)),
        Err(PeValidationError::InvalidNtHeadersOffset { offset: -8 })
    );
    assert_eq!(
        parse_pe(&changed32(NT, 7)),
        Err(PeValidationError::InvalidNtSignature { signature: 7 })
    );
    assert_eq!(
        parse_pe(&changed16(NT + 4, 0x14C)),
        Err(PeValidationError::UnsupportedMachine { machine: 0x14C })
    );
    assert_eq!(
        validate_pe(&changed16(NT + 22, 0x20)),
        Err(PeValidationError::MissingExecutableImageCharacteristic { characteristics: 0x20 })
    );
    assert_eq!(
        parse_pe(&changed16(NT + 20, 111)),
        Err(PeValidationError::InvalidOptionalHeaderSize { size: 111 })
    );
    assert_eq!(
        parse_pe(&changed16(NT + 20, 239)),
        Err(PeValidationError::InvalidDataDirectoryCount {
            declared_count: 16,
            available_count: 15
        })
    );
    assert_eq!(
        parse_pe(&changed16(OPTIONAL, 0x10B)),
        Err(PeValidationError::UnsupportedOptionalHeaderMagic { magic: 0x10B })
    );
    assert_eq!(
        parse_pe(&changed32(OPTIONAL + 108, 17)),
        Err(PeValidationError::InvalidDataDirectoryCount {
            declared_count: 17,
            available_count: 16
        })
    );
    assert_eq!(
        validate_pe(&changed32(OPTIONAL + 52, 1)),
        Err(PeValidationError::NonZeroReservedOptionalHeaderFields {
            win32_version_value: 1,
            loader_flags: 0
        })
    );
    assert_eq!(
        parse_pe(&changed16(NT + 6, 97)),
        Err(PeValidationError::InvalidSectionCount { count: 97 })
    );
    assert_eq!(
        validate_pe(&changed32(OPTIONAL + 36, 0x300)),
        Err(PeValidationError::InvalidImageAlignment {
            section_alignment: 0x1000,
            file_alignment: 0x300
        })
    );
    assert_eq!(
        validate_pe(&changed32(OPTIONAL + 24, 0x4000_1000)),
        Err(PeValidationError::InvalidImageBase { image_base: 0x1_4000_1000 })
    );
    assert_eq!(parse_pe(&changed32(OPTIONAL + 56, 0)), Err(PeValidationError::InvalidImageSize));
    assert_eq!(
        validate_pe(&changed32(OPTIONAL + 60, 0x500)),
        Err(PeValidationError::InvalidHeadersSize { size_of_headers: 0x500, image_size: 0x4000 })
    );
}

#[test]
fn every_layout_rejection_names_its_cause() {
    assert_eq!(
        validate_pe(&mapped_image()[..0x3000]),
        Err(PeValidationError::ImageOutsideData { image_size: 0x4000, data_size: 0x3000 })
    );
    assert_eq!(
        validate_pe(&changed32(SECTIONS + 40 + 12, 0x2800)),
        Err(PeValidationError::InvalidSectionLayout { index: 1, section_rva: 0x2800 })
    );
    assert_eq!(
        validate_pe(&changed32(SECTIONS + 40 + 20, 0x900)),
        Err(PeValidationError::InvalidSectionRawLayout {
            index: 1,
            raw_size: 0x600,
            raw_pointer: 0x900,
            file_alignment: 0x200
        })
    );
    assert_eq!(
        validate_pe(&changed32(SECTIONS + 8, 0x1001)),
        Err(PeValidationError::OverlappingSections {
            index: 1,
            previous_end_rva: 0x2001,
            section_rva: 0x2000
        })
    );
    assert_eq!(
        validate_pe(&changed32(OPTIONAL + 16, 0x2010)),
        Err(PeValidationError::InvalidEntryPoint { entry_point_rva: 0x2010, image_size: 0x4000 })
    );
    assert_eq!(
        validate_pe(&changed32(OPTIONAL + 20, 0x2000)),
        Err(PeValidationError::InvalidBaseOfCode {
            base_of_code_rva: 0x2000,
            expected_base_of_code_rva: 0x1000
        })
    );
    let mut long = changed32(OPTIONAL + 56, 0x5000);
    long.resize(0x5000, 0);
    assert_eq!(
        validate_pe(&long),
        Err(PeValidationError::InvalidFinalImageSize {
            expected_image_size: 0x4000,
            actual_image_size: 0x5000
        })
    );
    let mut data = mapped_image();
    put_directory(&mut data, 1, 0x2500, 40);
    assert_eq!(
        validate_pe(&data),
        Err(PeValidationError::InvalidDataDirectoryRange {
            index: 1,
            virtual_address: 0x2500,
            size: 40,
            image_size: 0x4000
        })
    );
    let mut data = mapped_image();
    put_directory(&mut data, 15, 0x2000, 8);
    assert!(matches!(
        validate_pe(&data),
        Err(PeValidationError::InvalidDataDirectoryRange { index: 15, .. })
    ));
}

#[test]
fn locates_sections_offsets_and_data_ranges() {
    let pe = parse_pe(&mapped_image()).expect("headers parse");
    let sections = collect_sections_from_pe(&pe);

    assert_eq!(sections.len(), 3);
    assert_eq!(sections[0].name, ".text");
    assert_eq!((sections[0].rva, sections[0].mapped_size), (0x1000, 0x300));
    assert_eq!((sections[2].raw_size, sections[2].raw_file_offset), (0x200, 0xE00));
    assert_eq!(get_file_offset_from_pe(&pe, 0x10), Some(0x10));
    assert_eq!(get_file_offset_from_pe(&pe, 0x400), None);
    assert_eq!(get_file_offset_from_pe(&pe, 0x1234), Some(0x634));
    assert_eq!(get_file_offset_from_pe(&pe, 0x1300), None);
    assert_eq!(get_file_offset_from_pe(&pe, 0x30FF), Some(0xEFF));
    assert!(is_image_data_range(&pe.nt_headers, &pe.sections, 0, 0x400));
    assert!(!is_image_data_range(&pe.nt_headers, &pe.sections, 0, 0x401));
    assert!(is_image_data_range(&pe.nt_headers, &pe.sections, 0x2000, 0x500));
    assert!(!is_image_data_range(&pe.nt_headers, &pe.sections, 0x2000, 0x501));
}

#[test]
fn section_names_replace_malformed_bytes() {
    let mut data = mapped_image();
    put(&mut data, SECTIONS, b"\xFFab\0cdef");
    let pe = parse_pe(&data).expect("headers parse");

    assert_eq!(collect_sections_from_pe(&pe)[0].name, "\u{FFFD}ab");
}

#[test]
fn identity_separates_different_images() {
    let data = mapped_image();
    let pe = parse_pe(&data).expect("headers parse");
    let identity = create_pe_identity(&pe.nt_headers, &pe.sections).expect("an identity");

    assert_eq!(calculate_identity_hash(b""), 0xCBF2_9CE4_8422_2325);
    assert_eq!(calculate_identity_hash(b"a"), 0xAF63_DC4C_8601_EC8C);
    assert_eq!(calculate_identity_hash(b"foobar"), 0x8594_4171_F739_67E8);

    let validation = facts(&data);
    assert_eq!(validation.identity, identity);
    assert_eq!((validation.image_size, validation.entry_point_rva), (0x4000, 0x1010));
    assert!(validate_matching_image(&validation, &data).is_ok());

    let mut other = data.clone();
    put32(&mut other, NT + 8, 1);
    let other_facts = facts(&other);
    assert_ne!(other_facts.identity, identity);
    assert_eq!(
        validate_matching_image(&validation, &other),
        Err(PeValidationError::ValidatedImageIdentityMismatch {
            expected_image_size: 0x4000,
            actual_image_size: 0x4000,
            expected_entry_point_rva: 0x1010,
            actual_entry_point_rva: 0x1010,
            expected_section_count: 3,
            actual_section_count: 3,
            expected_identity_hash: calculate_identity_hash(&identity),
            actual_identity_hash: calculate_identity_hash(&other_facts.identity),
        })
    );
    assert_eq!(
        validate_matching_image(&validation, &data[..0x3000]),
        Err(PeValidationError::ValidatedImageSizeMismatch {
            expected_size: 0x4000,
            actual_size: 0x3000
        })
    );
    let file = raw_file(&data);
    assert!(validate_backing_file_identity(&validation, &file.bytes).is_ok());
    assert!(validate_backing_file_identity(&validation, &raw_file(&other).bytes).is_err());
}

#[test]
fn classifies_image_regions() {
    let pe = parse_pe(&mapped_image()).expect("headers parse");
    let check = |region: MemoryRegion, start: usize, end: usize| {
        validate_image_region(&region, start, end, BASE, 0x400, 0x1000, &pe.sections)
    };

    assert_eq!(
        check(region(BASE, 0x1000, 0x1000, 2), BASE, BASE + 0x1000),
        Ok(ImageRegionDisposition::Readable)
    );
    assert_eq!(
        check(region(BASE + 0x3000, 0x1000, 0x2000, 0), BASE + 0x3000, BASE + 0x4000),
        Ok(ImageRegionDisposition::Discarded)
    );
    assert_eq!(
        check(region(BASE + 0x1300, 0xD00, 0x2000, 0), BASE + 0x1300, BASE + 0x2000),
        Ok(ImageRegionDisposition::Padding)
    );
    assert_eq!(
        check(region(BASE + 0x1000, 0x1000, 0x1000, 1), BASE + 0x1000, BASE + 0x2000),
        Ok(ImageRegionDisposition::Unreadable)
    );
    assert_eq!(
        check(region(BASE + 0x1000, 0x1000, 0x2000, 0), BASE + 0x1000, BASE + 0x2000),
        Err(PeValidationError::InvalidImageRegion {
            address: BASE + 0x1000,
            allocation_base: BASE,
            state: 0x2000,
            region_type: MemoryRegionType::Image
        })
    );
    assert_eq!(
        classify_unavailable_image_range(0x3000, 0x4000, 0x400, 0x1000, &pe.sections),
        Some(ImageRegionDisposition::Discarded)
    );
    assert_eq!(
        classify_unavailable_image_range(0x3FF, 0x1000, 0x400, 0x1000, &pe.sections),
        None
    );
    assert_eq!(
        classify_unavailable_image_range(0x400, 0x1000, 0x400, 0x1000, &pe.sections),
        Some(ImageRegionDisposition::Padding)
    );
}

#[test]
fn walks_a_mapping_region_by_region() {
    let pe = parse_pe(&mapped_image()).expect("headers parse");
    let mut walk = ImageMappingWalk::start(BASE, &pe.nt_headers).expect("a walk");

    assert_eq!(walk.next_action(), Ok(ImageWalkAction::QueryRegion { address: BASE }));
    assert_eq!(
        walk.accept_region(Ok(region(BASE, 0x3000, 0x1000, 2)), &pe.nt_headers, &pe.sections),
        Ok(())
    );
    assert_eq!(walk.next_action(), Ok(ImageWalkAction::QueryRegion { address: BASE + 0x3000 }));
    let mut failed = walk;
    assert_eq!(
        failed.accept_region(
            Err(MemoryRegionQueryError::QueryFailed { status: -3 }),
            &pe.nt_headers,
            &pe.sections
        ),
        Err(PeValidationError::ImageRegionQueryFailed {
            address: BASE + 0x3000,
            error: MemoryRegionQueryError::QueryFailed { status: -3 }
        })
    );
    let mut stuck = walk;
    assert_eq!(
        stuck.accept_region(
            Ok(region(BASE + 0x3000, 0, 0x1000, 2)),
            &pe.nt_headers,
            &pe.sections
        ),
        Err(PeValidationError::ImageRegionDidNotAdvance {
            address: BASE + 0x3000,
            region_end: BASE + 0x3000
        })
    );
    assert_eq!(
        walk.accept_region(
            Ok(region(BASE + 0x3000, 0x9000, 0x1000, 2)),
            &pe.nt_headers,
            &pe.sections
        ),
        Ok(())
    );
    assert_eq!(walk.next_action(), Ok(ImageWalkAction::Finished));
    assert!(matches!(
        ImageMappingWalk::start(usize::MAX - 0x100, &pe.nt_headers),
        Err(PeValidationError::ImageRangeOverflow { .. })
    ));
}

#[test]
fn snapshots_read_present_bytes_and_list_the_rest() {
    let mut data = image_with_imports();
    data[0x3000..].fill(0);
    let pe = parse_pe(&data).expect("headers parse");
    let validation = facts(&data);
    let mut reader = ImageSnapshotReader::start(BASE, &pe.nt_headers, pe.sections.len())
        .expect("a reader");

    assert_eq!(reader.next_action(), Ok(ImageWalkAction::QueryRegion { address: BASE }));
    assert_eq!(
        reader.accept_region(Ok(region(BASE, 0x3000, 0x1000, 2)), &pe.nt_headers, &pe.sections),
        Ok(())
    );
    assert_eq!(
        reader.next_action(),
        Ok(ImageWalkAction::ReadBytes { address: BASE, size: 0x3000 })
    );
    let mut failed = reader.clone();
    assert!(matches!(
        failed.accept_bytes(Err(ProcessMemoryReadError::NullBaseAddress)),
        Err(PeValidationError::RemoteReadFailed { target: PeReadTarget::ImageSnapshot, .. })
    ));
    assert_eq!(reader.accept_bytes(Ok(data[..0x3000].to_vec())), Ok(()));
    assert_eq!(reader.next_action(), Ok(ImageWalkAction::QueryRegion { address: BASE + 0x3000 }));
    assert_eq!(
        reader.accept_region(
            Ok(region(BASE + 0x3000, 0x1000, 0x2000, 0)),
            &pe.nt_headers,
            &pe.sections
        ),
        Ok(())
    );
    assert_eq!(reader.next_action(), Ok(ImageWalkAction::Finished));
    assert_eq!(reader.bytes, data);
    assert_eq!(
        reader.unavailable_ranges,
        vec![UnavailablePeRange { rva: 0x3000, size: 0x1000 }]
    );

    let snapshot = complete_snapshot(&validation, reader.bytes, reader.unavailable_ranges)
        .expect("the snapshot is valid");
    assert!(is_snapshot_range_available(&snapshot, 0x2000, 0x500));
    assert!(!is_snapshot_range_available(&snapshot, 0x3000, 1));
    assert!(!is_snapshot_range_available(&snapshot, 0x2000, 0));
    assert!(!is_snapshot_range_available(&snapshot, usize::MAX, 2));
}

#[test]
fn remote_headers_are_taken_in_steps() {
    let data = mapped_image();

    assert_eq!(begin_remote_image(true, BASE), Err(PeValidationError::InvalidProcessHandle));
    assert_eq!(begin_remote_image(false, 0), Err(PeValidationError::ImageBaseUnavailable));
    assert_eq!(begin_remote_image(false, BASE), Ok(()));

    let location = accept_dos_header(BASE, Ok(data[..64].to_vec())).expect("a location");
    assert_eq!(location.nt_headers_address, BASE + NT);
    assert!(matches!(
        accept_dos_header(BASE, Err(ProcessMemoryReadError::NullBaseAddress)),
        Err(PeValidationError::RemoteReadFailed { target: PeReadTarget::DosHeader, .. })
    ));
    let size = accept_nt_prefix(&location, Ok(data[NT..NT + 24].to_vec())).expect("a size");
    assert_eq!(size, 264);
    let headers = accept_nt_headers(&location, size, Ok(data[NT..NT + 264].to_vec()))
        .expect("headers");
    assert_eq!(headers.section_table_address, BASE + SECTIONS);
    assert_eq!(headers.facts.section_table_size, 120);
    let sections = accept_section_table(&headers, Ok(data[SECTIONS..SECTIONS + 120].to_vec()))
        .expect("sections");
    assert!(matches!(
        accept_section_table(&headers, Err(ProcessMemoryReadError::NullBaseAddress)),
        Err(PeValidationError::RemoteReadFailed { target: PeReadTarget::SectionTable, .. })
    ));
    let details =
        complete_remote_image(BASE, headers.nt_headers, sections).expect("a validated image");
    assert_eq!(details.validation, facts(&data));
    assert_eq!(details.sections, parse_pe(&data).expect("headers parse").sections);
}

#[test]
fn collects_imports_and_their_references() {
    let data = image_with_imports();
    let pe = parse_pe(&data).expect("headers parse");
    let entries = collect_import_entries_from_pe(&data, &pe);

    assert_eq!(entries.len(), 2);
    assert_eq!(entries[0].library_name, "kernel32.dll");
    assert_eq!(entries[0].function_name, "ExitProcess");
    assert_eq!((entries[0].ordinal, entries[0].iat_rva), (None, 0x2080));
    assert_eq!(entries[0].file_offset, Some(0x880));
    assert_eq!(entries[1].function_name, "#7");
    assert_eq!((entries[1].ordinal, entries[1].iat_rva), (Some(7), 0x2088));

    let targets: HashSet<usize> = [0x2080, 0x2088].into_iter().collect();
    let mut progress = ProgressLog::new();
    assert_eq!(
        collect_iat_xrefs_for_targets(&data, &pe, &targets, &mut progress),
        vec![
            PeIatXref {
                iat_rva: 0x2080,
                instruction_rva: 0x1010,
                file_offset: Some(0x410),
                kind: PeIatXrefKind::Call
            },
            PeIatXref {
                iat_rva: 0x2088,
                instruction_rva: 0x1020,
                file_offset: Some(0x420),
                kind: PeIatXrefKind::Jump
            },
        ]
    );
    assert_eq!(progress.entries.last(), Some(&(0x300, 0x300)));
    assert!(collect_iat_xrefs_for_targets(&data, &pe, &HashSet::new(), &mut progress).is_empty());

    let collection =
        collect_process_imports_from_snapshot(&process(&data), &snapshot(data), &mut progress)
            .expect("imports");
    assert_eq!(collection.imports.len(), 2);
    assert_eq!(collection.imports[0].iat_address, Some(BASE + 0x2080));
    assert_eq!(collection.imports[0].xrefs.len(), 1);
    assert_eq!(collection.imports[0].xrefs[0].instruction_address, Some(BASE + 0x1010));
    assert_eq!(collection.imports[1].xrefs[0].kind, PeIatXrefKind::Jump);
}

#[test]
fn missing_import_bytes_are_reported() {
    let data = image_with_imports();
    let process = process(&data);
    let mut snapshot = snapshot(data);
    snapshot.unavailable_ranges = vec![UnavailablePeRange { rva: 0x2100, size: 4 }];
    let mut progress = ProgressLog::new();

    assert_eq!(
        collect_process_imports_from_snapshot(&process, &snapshot, &mut progress),
        Err(ProcessImportCollectionError::IncompleteMainModuleSnapshot { rva: 0x2100, size: 4 })
    );
    snapshot.unavailable_ranges = vec![UnavailablePeRange { rva: 0x2400, size: 4 }];
    assert!(collect_process_imports_from_snapshot(&process, &snapshot, &mut progress).is_ok());
}

#[test]
fn reads_the_debug_record() {
    let data = image_with_pdb();
    let pe = parse_pe(&data).expect("headers parse");
    let record = collect_pdb_info_from_pe(&data, &pe, None)
        .expect("every byte is present")
        .expect("a record");

    assert_eq!(record.format, PdbCodeViewFormat::Rsds);
    assert_eq!(record.full_path, "dir/a.pdb");
    assert_eq!((record.age, record.signature), (5, None));
    let guid = record.guid.expect("a GUID");
    assert_eq!((guid.data1, guid.data2, guid.data3), (1, 2, 3));
    assert_eq!(guid.data4, [8, 9, 10, 11, 12, 13, 14, 15]);
    assert_eq!(record.debug_directory_rva, 0x2200);
    assert_eq!(record.debug_directory_file_offset, Some(0xA00));
    assert_eq!(record.codeview_rva, 0x2240);
    assert_eq!(record.codeview_file_offset, Some(0xA40));
    assert_eq!(record.codeview_size, 36);

    let path = build_path_info(record.full_path.clone(), true);
    assert_eq!(path.directory.as_deref(), Some("dir"));
    assert_eq!(path.file_name.as_deref(), Some("a.pdb"));
    assert_eq!(path.file_stem.as_deref(), Some("a"));
    assert_eq!(path.extension.as_deref(), Some("pdb"));
    assert!(path.exists_on_disk);
    let plain = build_path_info("a".to_string(), false);
    assert_eq!((plain.directory, plain.file_name.as_deref()), (None, Some("a")));
    assert_eq!((plain.file_stem.as_deref(), plain.extension), (Some("a"), None));
    let dotted = build_path_info("a.".to_string(), false);
    assert_eq!((dotted.file_stem.as_deref(), dotted.extension), (Some("a"), None));
    let empty = build_path_info(String::new(), false);
    assert_eq!((empty.directory, empty.file_name, empty.file_stem), (None, None, None));
    let info = complete_pdb_info(record, path);
    assert_eq!((info.age, info.codeview_rva), (5, 0x2240));
    assert_eq!(info.path.full_path, "dir/a.pdb");

    let mut older = data.clone();
    put32(&mut older, 0x2210, 26);
    put(&mut older, 0x2240, b"NB10\0\0\0\0");
    put32(&mut older, 0x2248, 0x1234_5678);
    put32(&mut older, 0x224C, 9);
    put(&mut older, 0x2250, b"old.pdb\0");
    let record = collect_pdb_info_from_pe(&older, &pe, None)
        .expect("every byte is present")
        .expect("a record");
    assert_eq!(record.format, PdbCodeViewFormat::Nb10);
    assert_eq!((record.signature, record.age), (Some(0x1234_5678), 9));
    assert_eq!(record.full_path, "old.pdb");
    assert_eq!(collect_pdb_info_from_pe(&mapped_image(), &pe, None), Ok(None));
}

#[test]
fn paths_split_at_their_last_separator() {
    for (directory, name) in [("dir", "a.pdb"), ("/x/y", "b"), ("C:/build", "c.d.pdb")] {
        let info = build_path_info(format!("{directory}/{name}"), false);

        assert_eq!(info.directory.as_deref(), Some(directory));
        assert_eq!(info.file_name.as_deref(), Some(name));
    }
    let rooted = build_path_info("/a.pdb".to_string(), false);
    assert_eq!((rooted.directory.as_deref(), rooted.file_name.as_deref()), (Some("/"), Some("a.pdb")));
    let dotted = build_path_info("x//./a.pdb".to_string(), false);
    assert_eq!((dotted.directory.as_deref(), dotted.file_name.as_deref()), (Some("x"), Some("a.pdb")));
    let whole = "C:\\build\\a.pdb";
    let info = build_path_info(whole.to_string(), false);
    assert!(matches!(info.file_name.as_deref(), Some(name) if name == "a.pdb" || name == whole));
    assert_eq!(info.extension.as_deref(), Some("pdb"));
}

#[test]
fn file_names_split_as_the_standard_library_splits_them() {
    for name in ["a", "a.pdb", "a.tar.gz", ".profile", ".a.b", "a.", "...", "..x", "\u{E9}.\u{E8}"] {
        let path = std::path::Path::new(name);
        let (stem, extension) = split_file_name(name);

        assert_eq!(path.file_name().and_then(|part| part.to_str()), Some(name));
        assert_eq!(path.file_stem().and_then(|part| part.to_str()), Some(stem.as_str()));
        assert_eq!(path.extension().and_then(|part| part.to_str()), extension.as_deref());
    }
}

#[test]
fn raw_matches_are_kept_when_room_was_granted() {
    let opcode = opcode_of(CatalogEntry::Int3Breakpoint);
    let hit = ProcessOpcodeRawHit {
        name: opcode.name,
        bytecode: opcode.bytecode,
        requires_modrm: opcode.requires_modrm,
        modrm: None,
        section_index: 0,
        address: None,
        rva: 0x1000,
        file_offset: None,
    };
    let mut log = RawOpcodeLog {
        matches: vec![],
        match_count: 0,
        truncated: false,
        summaries: vec![ProcessOpcodeRawSummary {
            name: opcode.name,
            bytecode: opcode.bytecode,
            requires_modrm: opcode.requires_modrm,
            match_count: 0,
            decoded_static_instruction_count: 0,
            mapped_trap_difference_count: 0,
        }],
    };

    keep_raw_match(&mut log, 0, hit, true);
    assert_eq!((log.matches.len(), log.match_count, log.truncated), (1, 1, false));
    keep_raw_match(&mut log, 0, hit, false);
    assert_eq!((log.matches.len(), log.match_count, log.truncated), (1, 2, true));
    keep_raw_match(&mut log, 0, hit, true);
    assert_eq!((log.matches.len(), log.match_count, log.truncated), (1, 3, true));
    assert_eq!(log.summaries[0].match_count, 3);
}

#[test]
fn missing_debug_bytes_are_reported() {
    let mut snapshot = snapshot(image_with_pdb());
    assert!(matches!(collect_main_module_pdb_info_from_snapshot(&snapshot), Ok(Some(_))));
    snapshot.unavailable_ranges = vec![UnavailablePeRange { rva: 0x2240, size: 4 }];
    assert!(matches!(
        collect_main_module_pdb_info_from_snapshot(&snapshot),
        Err(PdbInfoCollectionError::IncompleteMainModuleSnapshot { .. })
    ));
}

#[test]
fn finds_the_primary_code_section() {
    let analysis = locate_text_section(&image_with_functions()).expect("a code section");

    assert_eq!(analysis.primary.name, ".text");
    assert!(analysis.primary.contains_entry_point && analysis.primary.contains_base_of_code);
    assert_eq!(analysis.primary.runtime_function_count, 1);
    assert_eq!(analysis.primary.runtime_code_bytes, 0x20);
    assert_eq!(analysis.entry_point, Some(analysis.primary.clone()));
    assert_eq!(analysis.runtime_function_evidence, RuntimeFunctionEvidence::Valid);
    assert_eq!(analysis.confidence, CodeSectionConfidence::High);
    assert!(analysis.image_complete && analysis.section_ranges_valid);
    assert!(analysis.section_layout_valid && !analysis.overlapping_sections);

    let plain = locate_text_section(&mapped_image()).expect("a code section");
    assert_eq!(plain.runtime_function_evidence, RuntimeFunctionEvidence::NotPresent);

    let mut broken = image_with_functions();
    broken[0x2320] = 0;
    let broken = locate_text_section(&broken).expect("a code section");
    assert_eq!(broken.runtime_function_evidence, RuntimeFunctionEvidence::Invalid);
    assert_eq!(broken.primary.runtime_function_count, 0);
    assert_eq!(locate_text_section(&[0; 8]), None);
}

#[test]
fn collects_module_strings_with_addresses() {
    let mut data = mapped_image();
    put(&mut data, 0x2010, b"hello world\0");
    put(&mut data, 0x2030, b"w\0i\0d\0e\0\0\0");
    let process = process(&data);
    let mut snapshot = snapshot(data);
    let mut progress = ProgressLog::new();
    let collection =
        collect_main_module_strings_from_snapshot(&process, &snapshot, 4, &mut progress);
    let hello = collection
        .strings
        .iter()
        .find(|string| string.value == "hello world")
        .expect("the string is found");

    assert_eq!((hello.rva, hello.address), (0x2010, BASE + 0x2010));
    assert_eq!(hello.file_offset, Some(0x810));
    assert_eq!(hello.encoding, StringEncoding::Ascii);
    assert!(collection
        .strings
        .iter()
        .any(|string| string.value == "wide" && string.encoding == StringEncoding::Utf16Le));
    assert_eq!((collection.module_base_address, collection.module_size), (BASE, 0x4000));

    snapshot.unavailable_ranges = vec![UnavailablePeRange { rva: 0x2010, size: 2 }];
    let collection =
        collect_main_module_strings_from_snapshot(&process, &snapshot, 4, &mut progress);
    assert_eq!(collection.unavailable_ranges, snapshot.unavailable_ranges);
}

#[test]
fn finds_signatures_in_executable_sections() {
    let mut data = mapped_image();
    put(&mut data, 0x1010, &[0x48, 0x83, 0xEC, 0x28]);
    put(&mut data, 0x1100, &[0x48, 0x83, 0xEC, 0x28]);
    put(&mut data, 0x2100, &[0x48, 0x83, 0xEC, 0x28]);
    let mut snapshot = snapshot(data);
    let signatures =
        vec![Signature { name: "prologue", pattern: vec![Some(0x48), Some(0x83), Some(0xEC), None] }];
    let startup = vec![Signature { name: "prologue", pattern: vec![Some(0x48)] }];
    let mut progress = ProgressLog::new();
    let scan = collect_pattern_hits_from_snapshot(&snapshot, &signatures, &startup, &mut progress);

    assert_eq!(
        scan.hits,
        vec![
            PePatternMatch { name: "prologue", rva: 0x1010 },
            PePatternMatch { name: "prologue", rva: 0x1100 },
        ]
    );
    assert_eq!(scan.entry_signature, Some(PePatternMatch { name: "prologue", rva: 0x1010 }));
    assert!(scan.scan_complete);
    assert_eq!(count_executable_bytes(&snapshot.pe.sections, snapshot.bytes.len()), 0x300);

    snapshot.unavailable_ranges = vec![UnavailablePeRange { rva: 0x1100, size: 1 }];
    assert!(!is_executable_complete(&snapshot));
    let scan = collect_pattern_hits_from_snapshot(&snapshot, &signatures, &[], &mut progress);
    assert_eq!(scan.hits, vec![PePatternMatch { name: "prologue", rva: 0x1010 }]);
    assert!(!scan.scan_complete);
    assert_eq!(scan.entry_signature, None);
}

#[test]
fn backing_files_translate_addresses() {
    let mut data = mapped_image();
    data[0x1010] = 0xAB;
    let file = raw_file(&data);

    assert_eq!(rva_to_file_range(&file, 0x1010), Some((0x410, 0x700)));
    assert_eq!(rva_to_file_range(&file, 0x1300), None);
    assert_eq!(backing_byte_at_rva(&file, 0x1010), Some(0xAB));
    assert_eq!(backing_byte_at_rva(&file, 0x1300), None);
}

fn collect_opcodes(mapped: &[u8], file_code: &[u8]) -> ProcessOpcodeCollection {
    let mut on_disk = mapped.to_vec();
    put(&mut on_disk, 0x1010, file_code);
    let functions = [RuntimeFunctionRange { begin_rva: 0x1010, end_rva: 0x1030 }];
    let mut progress = ProgressLog::new();
    collect_opcode_hits_from_snapshot(
        &process(mapped),
        &snapshot(mapped.to_vec()),
        Ok(&raw_file(&on_disk)),
        &functions,
        &mut progress,
    )
}

#[test]
fn reports_traps_that_only_the_mapping_holds() {
    let mut mapped = image_with_functions();
    put(&mut mapped, 0x1010, &[0x90, 0xCC, 0xC3]);
    put(&mut mapped, 0x1040, &[0xCC; 4]);
    let found = collect_opcodes(&mapped, &[0x90, 0x90, 0xC3]);

    assert_eq!(found.backing_status, ProcessOpcodeBackingStatus::Matched);
    assert_eq!(found.relocation_status, ProcessOpcodeRelocationStatus::NotRequired);
    assert!(found.mapped_trap_difference_detection_enabled);
    assert!(found.runtime_function_seed_metadata_present);
    assert_eq!(found.runtime_function_seed_count, 1);
    assert_eq!(found.runtime_function_seed_reason, None);
    assert_eq!((found.decoded_seed_count, found.decode_error_count), (1, 0));
    assert_eq!((found.decoded_instruction_count, found.decoded_byte_count), (3, 3));
    assert_eq!(found.current_decoded_instruction_count, 3);
    assert_eq!((found.hit_count, found.hits.len()), (1, 1));
    let hit = &found.hits[0];
    assert_eq!(hit.evidence, ProcessOpcodeEvidence::MappedTrapDifference);
    assert_eq!(hit.name, opcode_of(CatalogEntry::Int3Breakpoint).name);
    assert_eq!((hit.rva, hit.instruction_rva, hit.opcode_offset), (0x1011, 0x1011, 0));
    assert_eq!((hit.address, hit.file_offset), (Some(BASE + 0x1011), Some(0x411)));
    assert_eq!(hit.process_bytes, vec![0xCC]);
    assert_eq!(hit.backing_instruction_bytes, vec![0x90]);
    assert_eq!(hit.backing_instruction_mnemonic, "nop");
    assert_eq!((found.raw_match_count, found.raw_matches.len()), (5, 5));
    assert_eq!(found.raw_matches[0].rva, 0x1011);
    let summary = found
        .raw_summaries
        .iter()
        .find(|summary| summary.name == hit.name)
        .expect("a summary of the entry");
    assert_eq!((summary.match_count, summary.mapped_trap_difference_count), (5, 1));
    assert_eq!(summary.decoded_static_instruction_count, 0);
    assert_eq!((found.padding_candidate_run_count, found.padding_candidate_byte_count), (1, 4));
    assert_eq!((found.padding_samples[0].rva, found.padding_samples[0].length), (0x1040, 4));
    assert!(found.scan_complete);
}

#[test]
fn reports_static_traps_on_shared_boundaries() {
    let mut mapped = image_with_functions();
    put(&mut mapped, 0x1010, &[0x90, 0x0F, 0x21, 0xC0, 0xCC, 0xC3]);
    let found = collect_opcodes(&mapped, &[0x90, 0x0F, 0x21, 0xC0, 0xCC, 0xC3]);
    let names: Vec<(&str, usize, &str)> = found
        .hits
        .iter()
        .map(|hit| (hit.name, hit.rva, hit.backing_instruction_mnemonic.as_str()))
        .collect();

    assert_eq!(
        names,
        vec![
            (opcode_of(CatalogEntry::MovFromDebugRegister).name, 0x1011, "mov"),
            (opcode_of(CatalogEntry::Int3Breakpoint).name, 0x1014, "int3"),
        ]
    );
    assert_eq!(found.hits[0].modrm, Some(0xC0));
    assert!(found
        .hits
        .iter()
        .all(|hit| hit.evidence == ProcessOpcodeEvidence::DecodedStaticInstruction));
}

#[test]
fn opcode_hits_need_a_matching_file() {
    let mapped = image_with_functions();
    let process = process(&mapped);
    let snapshot = snapshot(mapped.clone());
    let mut progress = ProgressLog::new();
    let refused = FileValidationError::FileAccess { reason: "denied".to_string() };
    let found = collect_opcode_hits_from_snapshot(
        &process,
        &snapshot,
        Err(&refused),
        &[],
        &mut progress,
    );

    assert_eq!(found.backing_status, ProcessOpcodeBackingStatus::Unavailable);
    assert_eq!(
        found.backing_reason,
        Some(BackingReason::FileRejected { reason: "denied".to_string() })
    );
    assert_eq!(found.relocation_status, ProcessOpcodeRelocationStatus::NotEvaluated);
    assert!(!found.mapped_trap_difference_detection_enabled);
    assert_eq!((found.hit_count, found.decoded_seed_count), (0, 0));

    let invalid = FileValidationError::Invalid { reason: "short".to_string() };
    assert_eq!(
        evaluate_backing_file(&process.image, Err(&invalid)).status,
        ProcessOpcodeBackingStatus::Invalid
    );
    let mut other = mapped.clone();
    put32(&mut other, NT + 8, 1);
    let evaluation = evaluate_backing_file(&process.image, Ok(&raw_file(&other)));
    assert_eq!(evaluation.status, ProcessOpcodeBackingStatus::IdentityMismatch);
    assert_eq!(evaluation.reason, Some(BackingReason::HeadersDiffer));
}

#[test]
fn function_seeds_must_match_the_file() {
    let mut mapped = image_with_functions();
    put(&mut mapped, 0x1010, &[0xC3]);
    let functions = [RuntimeFunctionRange { begin_rva: 0x1010, end_rva: 0x1028 }];
    let mut progress = ProgressLog::new();
    let found = collect_opcode_hits_from_snapshot(
        &process(&mapped),
        &snapshot(mapped.clone()),
        Ok(&raw_file(&mapped)),
        &functions,
        &mut progress,
    );

    assert_eq!(found.runtime_function_seed_reason, Some(RuntimeFunctionMismatch::BoundsDiffer));
    assert_eq!(found.runtime_function_seed_count, 0);
    assert_eq!(found.decoded_seed_count, 1);
}

#[test]
fn relocated_images_read_the_relocation_directory() {
    let mut mapped = mapped_image();
    put_directory(&mut mapped, 5, 0x3000, 12);
    put(&mut mapped, 0x3000, &[0x00, 0x10, 0, 0, 12, 0, 0, 0, 0x20, 0xA0, 0, 0]);
    let file = raw_file(&mapped);
    let pe = parse_pe(&mapped).expect("headers parse");

    assert_eq!(
        collect_base_relocation_ranges(&file, &pe),
        Ok(vec![ProcessRelocationRange { rva: 0x1020, size: 8 }])
    );
    let plain = mapped_image();
    assert_eq!(
        collect_base_relocation_ranges(&raw_file(&plain), &parse_pe(&plain).expect("parses")),
        Err(RelocationError::DirectoryAbsent)
    );
    let mut image = facts(&mapped);
    image.base_address = BASE + 0x10_0000;
    let evaluation = evaluate_backing_file(&image, Ok(&file));
    assert_eq!(evaluation.relocation_status, ProcessOpcodeRelocationStatus::Validated);
    assert_eq!(evaluation.relocation_ranges.len(), 1);
    let evaluation = evaluate_backing_file(&image, Ok(&raw_file(&plain)));
    assert_eq!(evaluation.status, ProcessOpcodeBackingStatus::IdentityMismatch);
}

#[test]
fn header_and_table_rejections_name_their_bounds() {
    let data = mapped_image();

    assert_eq!(
        check_data_range(&data, usize::MAX, 2),
        Err(PeValidationError::DataRangeOverflow { offset: usize::MAX, bytes_requested: 2 })
    );
    assert_eq!(
        parse_pe(&data[..0x300]),
        Err(PeValidationError::HeadersOutsideData { size_of_headers: 0x400, data_size: 0x300 })
    );
    let mut crowded = changed32(OPTIONAL + 60, 0x200);
    put16(&mut crowded, NT + 6, 4);
    assert_eq!(
        parse_pe(&crowded),
        Err(PeValidationError::SectionTableOutsideHeaders {
            section_table_end: 0x228,
            size_of_headers: 0x200
        })
    );
    assert_eq!(
        read_section_headers(&data, SECTIONS, 41, 1),
        Err(PeValidationError::SectionTableSizeMismatch { expected_size: 40, actual_size: 41 })
    );
    assert_eq!(
        read_section_headers(&data[..10], 0, 40, 1),
        Err(PeValidationError::SectionTableOutsideData { section_table_end: 40, data_size: 10 })
    );
    assert_eq!(
        read_section_headers(&data, usize::MAX, 40, 1),
        Err(PeValidationError::SectionTableRangeOverflow)
    );
    let mut empty = changed32(SECTIONS + 40 + 8, 0);
    put32(&mut empty, SECTIONS + 40 + 16, 0);
    assert_eq!(
        validate_pe(&empty),
        Err(PeValidationError::InvalidSectionRange {
            index: 1,
            section_rva: 0x2000,
            mapped_size: 0,
            image_size: 0x4000
        })
    );
    assert_eq!(
        validate_pe(&changed32(OPTIONAL + 56, 0x8000_1000)),
        Err(PeValidationError::ImageSizeExceedsMaximum {
            image_size: 0x8000_1000,
            maximum_image_size: 0x8000_0000
        })
    );
}

#[test]
fn walks_and_copies_report_unusable_regions() {
    let mut pe = parse_pe(&mapped_image()).expect("headers parse");
    let mut walk = ImageMappingWalk::start(BASE, &pe.nt_headers).expect("a walk");
    assert_eq!(
        walk.accept_region(
            Ok(region(BASE, usize::MAX, 0x1000, 2)),
            &pe.nt_headers,
            &pe.sections
        ),
        Err(PeValidationError::ImageRegionRangeOverflow {
            base_address: BASE,
            region_size: usize::MAX
        })
    );
    walk.region_count = 4096;
    assert_eq!(
        walk.next_action(),
        Err(PeValidationError::ImageRegionLimitExceeded {
            image_size: 0x4000,
            maximum_region_count: 4096
        })
    );
    let mut reader = ImageSnapshotReader::start(BASE, &pe.nt_headers, 3).expect("a reader");
    assert_eq!(
        reader.accept_region(Ok(region(BASE, 0x1000, 0x1000, 1)), &pe.nt_headers, &pe.sections),
        Err(PeValidationError::UnreadableImageRegion {
            address: BASE,
            state: 0x1000,
            protect: 1
        })
    );
    pe.nt_headers.optional_header.size_of_image = 0x1000_1000;
    assert_eq!(
        ImageSnapshotReader::start(BASE, &pe.nt_headers, 3),
        Err(PeValidationError::ImageSnapshotSizeExceedsLimit {
            image_size: 0x1000_1000,
            maximum_snapshot_size: 0x1000_0000
        })
    );
}

#[test]
fn discarded_ranges_that_touch_are_joined() {
    let mut ranges = vec![];
    append_discarded(&mut ranges, 0x1000, 0x200);
    append_discarded(&mut ranges, 0x1200, 0x100);
    append_discarded(&mut ranges, 0x2000, 0x10);

    assert_eq!(
        ranges,
        vec![
            UnavailablePeRange { rva: 0x1000, size: 0x300 },
            UnavailablePeRange { rva: 0x2000, size: 0x10 },
        ]
    );
}

#[test]
fn queues_are_seeded_with_functions_and_entry_point() {
    let snapshot = snapshot(image_with_functions());
    let functions = [
        RuntimeFunctionRange { begin_rva: 0x1010, end_rva: 0x1030 },
        RuntimeFunctionRange { begin_rva: 0x1040, end_rva: 0x1050 },
    ];
    let queue = initialize_decode_tasks(&snapshot, &functions, 0x1010).expect("a queue");
    let tasks: Vec<(usize, usize, usize)> =
        queue.tasks.iter().map(|task| (task.rva, task.bound_start, task.bound_end)).collect();

    assert_eq!(tasks, vec![(0x1010, 0x1010, 0x1030), (0x1040, 0x1040, 0x1050)]);
    assert_eq!(queue.scheduled_starts.len(), 2);
    let outside = initialize_decode_tasks(&snapshot, &[], 0x2010).expect("a queue");
    assert!(outside.tasks.is_empty());
}

#[test]
fn remote_addresses_must_not_overflow() {
    let data = mapped_image();

    assert_eq!(
        accept_dos_header(usize::MAX - 0x10, Ok(data[..64].to_vec())),
        Err(PeValidationError::NtHeadersAddressOverflow {
            base_address: usize::MAX - 0x10,
            nt_headers_offset: NT
        })
    );
    let location = accept_dos_header(usize::MAX - 0x1000, Ok(data[..64].to_vec()))
        .expect("a location");
    assert_eq!(
        accept_nt_headers(&location, 264, Ok(data[NT..NT + 264].to_vec())),
        Err(PeValidationError::ImageRangeOverflow {
            base_address: usize::MAX - 0x1000,
            image_size: 0x4000
        })
    );
    assert_eq!(
        accept_nt_prefix(&location, Ok(vec![0; 3])),
        Err(PeValidationError::RemoteReadFailed {
            target: PeReadTarget::NtHeaders,
            address: location.nt_headers_address,
            error: ProcessMemoryReadError::ReadIncomplete { bytes_requested: 24, bytes_read: 3 }
        })
    );
}

#[test]
fn relocation_directories_are_placed_before_they_are_read() {
    let check = |rva: u32, size: u32| {
        let mut data = mapped_image();
        put_directory(&mut data, 5, rva, size);
        collect_base_relocation_ranges(&raw_file(&data), &parse_pe(&data).expect("parses")).err()
    };

    assert_eq!(check(0x3002, 8), Some(RelocationError::DirectoryMisaligned));
    assert_eq!(check(0x3100, 8), Some(RelocationError::DirectoryNotBacked));
    assert_eq!(check(0x3000, 0x200), Some(RelocationError::DirectoryOutsideRange));
    assert_eq!(check(0, 8), Some(RelocationError::DirectoryAbsent));
    let mut data = mapped_image();
    put32(&mut data, OPTIONAL + 108, 5);
    assert_eq!(
        collect_base_relocation_ranges(&raw_file(&data), &parse_pe(&data).expect("parses")),
        Err(RelocationError::DirectoryNotDeclared)
    );
}

#[test]
fn runtime_function_tables_are_compared_entry_by_entry() {
    let functions = [RuntimeFunctionRange { begin_rva: 0x1010, end_rva: 0x1030 }];
    let check = |data: &[u8], functions: &[RuntimeFunctionRange]| {
        validate_runtime_functions_against_backing(
            &raw_file(data),
            &parse_pe(data).expect("parses"),
            functions,
        )
    };
    let data = image_with_functions();

    assert_eq!(check(&data, &functions), Ok(true));
    assert_eq!(check(&data, &[]), Err(RuntimeFunctionMismatch::CountsDiffer));
    assert_eq!(check(&mapped_image(), &[]), Ok(false));
    assert_eq!(check(&mapped_image(), &functions), Err(RuntimeFunctionMismatch::InvalidLayout));
    let mut moved = image_with_functions();
    put_directory(&mut moved, 3, 0x2500, 12);
    assert_eq!(check(&moved, &functions), Err(RuntimeFunctionMismatch::NotFileBacked));
    put_directory(&mut moved, 3, 0x24FC, 12);
    assert_eq!(check(&moved, &functions), Err(RuntimeFunctionMismatch::OutsideFileRange));
    let mut undeclared = image_with_functions();
    put32(&mut undeclared, OPTIONAL + 108, 3);
    assert_eq!(check(&undeclared, &functions), Err(RuntimeFunctionMismatch::NoDirectory));
    assert_eq!(check(&undeclared, &[]), Ok(false));
    assert_eq!(
        RuntimeFunctionMismatch::BoundsDiffer.message(),
        "raw and mapped runtime-function bounds differ"
    );
}

#[test]
fn remote_reads_agree_with_the_whole_image() {
    let data = image_with_imports();
    let whole = validate_pe(&data).expect("the image is valid");
    let location = accept_dos_header(BASE, Ok(data[..64].to_vec())).expect("a location");
    let headers = accept_nt_headers(&location, 264, Ok(data[NT..NT + 264].to_vec()))
        .expect("headers");
    let sections = accept_section_table(&headers, Ok(data[SECTIONS..SECTIONS + 120].to_vec()))
        .expect("sections");

    assert_eq!(location.nt_headers_offset, whole.nt_headers_offset);
    assert_eq!(headers.nt_headers, whole.nt_headers);
    assert_eq!(sections, whole.sections);
}

#[test]
fn references_inside_references_are_found() {
    let mut data = image_with_imports();
    put(&mut data, 0x1100, &[0xFF, 0x15, 0xFF, 0x25, 0x00, 0x00, 0x00, 0x00]);
    let pe = parse_pe(&data).expect("headers parse");
    let targets: HashSet<usize> = [0x1108].into_iter().collect();
    let mut progress = ProgressLog::new();
    let found = collect_iat_xrefs_for_targets(&data, &pe, &targets, &mut progress);

    assert_eq!(
        found,
        vec![PeIatXref {
            iat_rva: 0x1108,
            instruction_rva: 0x1102,
            file_offset: Some(0x502),
            kind: PeIatXrefKind::Jump
        }]
    );
    assert_eq!(progress.entries, vec![(0, 0x300), (0, 0x300), (0x300, 0x300)]);
}

#[test]
fn imports_of_one_slot_share_its_references() {
    let import = |name: &str| PeImportEntry {
        library_name: "k.dll".to_string(),
        function_name: name.to_string(),
        ordinal: None,
        iat_rva: 0x2000,
        file_offset: None,
    };
    let xrefs = [PeIatXref {
        iat_rva: 0x2000,
        instruction_rva: 0x1000,
        file_offset: None,
        kind: PeIatXrefKind::Call,
    }];
    let infos = build_process_import_info(0x1_4000_0000, &[import("A"), import("B")], &xrefs);

    assert_eq!(infos.len(), 2);
    assert_eq!(infos[0].xrefs.len(), 1);
    assert_eq!(infos[1].xrefs, infos[0].xrefs);
    assert_eq!(infos[0].xrefs[0].instruction_address, Some(0x1_4000_1000));
}

#[test]
fn inconsistent_function_tables_leave_counts_behind() {
    let mut data = image_with_functions();
    put_directory(&mut data, 3, 0x2300, 24);
    put32(&mut data, 0x230C, 0x1040);
    put32(&mut data, 0x2310, 0x1030);
    let pe = parse_pe(&data).expect("headers parse");
    let location = |name: &str, rva: usize, size: usize, functions: usize| CodeSectionCandidate {
        location: CodeSectionLocation {
            name: name.to_string(),
            rva,
            virtual_size: size,
            raw_size: size,
            mapped_size: size,
            characteristics: 0,
            contains_entry_point: false,
            contains_base_of_code: false,
            runtime_function_count: functions,
            runtime_code_bytes: functions * 8,
        },
        end_rva: rva + size,
        score: 0,
    };
    let mut candidates =
        vec![location(".text", 0x1000, 0x300, 2), location(".rdata", 0x2000, 0x500, 0)];

    assert_eq!(
        collect_runtime_function_evidence(&data, &pe, &mut candidates),
        RuntimeFunctionEvidence::Invalid
    );
    assert_eq!(candidates[0].location.runtime_function_count, 3);
    assert_eq!(candidates[0].location.runtime_code_bytes, 16 + 0x20);
    let analysis = locate_text_section(&data).expect("a code section");
    assert_eq!(analysis.primary.runtime_function_count, 0);
}

#[test]
fn decodes_without_setup_say_what_was_missing() {
    let data = image_with_functions();
    let process = process(&data);
    let snapshot = snapshot(data);
    let without_bitmaps = decode_mapped_with_setup(&process, &snapshot, &[], None, None);
    assert_eq!((without_bitmaps.error_count, without_bitmaps.limit_reached), (1, false));
    let bitmaps = ProcessDecodeBitmap::new(0x4000).zip(ProcessDecodeBitmap::new(0x4000));
    let without_queue = decode_mapped_with_setup(&process, &snapshot, &[], bitmaps, None);
    assert_eq!((without_queue.error_count, without_queue.limit_reached), (1, true));
}

#[test]
fn backing_reasons_have_texts() {
    assert_eq!(
        BackingReason::HeadersDiffer.message(""),
        "raw executable headers do not match the validated mapped image"
    );
    assert_eq!(
        BackingReason::FileRejected { reason: "denied".to_string() }.message(""),
        "denied"
    );
    let error = PeValidationError::InvalidImageSize;
    assert_eq!(
        BackingReason::IdentityNotValidated { error }.message(&format!("{error:?}")),
        "raw executable identity validation failed: InvalidImageSize"
    );
}

#[test]
fn equal_decodes_of_one_image_agree() {
    let mut mapped = image_with_functions();
    put(&mut mapped, 0x1010, &[0x90, 0x0F, 0x21, 0xC0, 0xCC, 0xC3]);
    let first = collect_opcodes(&mapped, &[0x90, 0x0F, 0x21, 0xC0, 0xCC, 0xC3]);
    let second = collect_opcodes(&mapped, &[0x90, 0x0F, 0x21, 0xC0, 0xCC, 0xC3]);

    assert!(!first.decode_limit_reached && !first.hits_truncated);
    assert_eq!(first, second);
}

#[test]
fn decoding_follows_branches_within_functions() {
    let mut mapped = image_with_functions();
    // jmp to 0x1020, where a call to 0x1010 and a return follow.
    put(&mut mapped, 0x1010, &[0xEB, 0x0E]);
    put(&mut mapped, 0x1020, &[0xE8, 0xEB, 0xFF, 0xFF, 0xFF, 0xC3]);
    let functions = [RuntimeFunctionRange { begin_rva: 0x1010, end_rva: 0x1030 }];
    let scan =
        collect_process_instruction_boundaries(&process(&mapped), &snapshot(mapped), &functions);

    assert_eq!((scan.instruction_count, scan.error_count), (3, 0));
    assert!(!scan.limit_reached);
    assert!(scan.instruction_starts.contains(0x1010));
    assert!(!scan.instruction_starts.contains(0x1012));
    assert!(scan.instruction_starts.contains(0x1020));
    assert!(scan.instruction_starts.contains(0x1025));
    assert!(scan.decoded_coverage.contains(0x1024) && !scan.decoded_coverage.contains(0x1026));
}
