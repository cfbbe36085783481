use daydream::imports::collector::{
    ProcessImportCollection, ProcessImportCollectionError, ProcessImportInfo, ProcessImportXref,
};
use daydream::imports::xrefs::PeIatXrefKind;
use daydream::debuginfo::pdb::{
    build_path_info, read_pdb_path, PdbCodeViewFormat, PdbGuid, PdbInfo, PdbInfoCollectionError,
};
use daydream::memory::{
    complete_read, MemoryRegion, MemoryRegionQueryError, MemoryRegionType, ProcessMemoryReadError,
};
use daydream::pe::types::{PeSectionInfo, UnavailablePeRange, ValidatedPeImage};
use daydream::process::{
    accept_peb, check_basic_information, check_granted_access, check_module_entry, check_peb_location, check_peb_region,
    check_process_id, complete_process_identity, retry_module_snapshot, HandleGuardError,
    PebImageBlock, ProcessPeValidationError, ValidatedProcessPe,
};
use daydream::progress::ProgressLog;
use daydream::report::documents::{
    build_image_json, build_imports_json, build_pdb_json, build_peb_json, build_sections_json,
    build_tebs_json, format_guid,
};
use daydream::report::errors::{
    build_handle_guard_error_json, build_memory_read_error_json, build_process_teb_error_json,
    build_thread_teb_error_json,
};
use daydream::report::value::{format_hex, format_optional_hex, JsonValue};
use daydream::stack_strings::{
    is_readable_region, StackScan, StackScanAction, TebStackRegionReadError,
    TebStackStringCollectionError,
};
use daydream::teb::{
    accept_teb_header, build_thread_teb, check_teb_process, check_thread_identity,
    check_thread_information, ProcessTebCollection, ProcessTebCollectionError, ThreadEnumeration,
    ThreadTebCollectionError, ThreadTebInfo, ThreadBasicInformation,
};
use daydream::text::{ascii_lowercase, hex_digits, number_sign, prefixed_hex, read_c_string};
use daydream::triage::{
    check_target_process, choose_output_identity, ProcessIdentityMismatch, ProcessTriageCollection,
};
use serde_json::Value;

fn to_value(value: &JsonValue) -> Value {
    match value {
        JsonValue::Null => Value::Null,
        JsonValue::Bool(flag) => Value::from(*flag),
        JsonValue::Unsigned(number) => Value::from(*number),
        JsonValue::Signed(number) => Value::from(*number),
        JsonValue::Text(text) => Value::from(text.as_str()),
        JsonValue::List(items) => Value::Array(items.iter().map(to_value).collect()),
        JsonValue::Object(fields) => Value::Object(
            fields
                .iter()
                .map(|field| (field.key.to_string(), to_value(&field.value)))
                .collect::<serde_json::Map<String, Value>>(),
        ),
    }
}

fn at(value: &JsonValue, pointer: &str) -> Value {
    to_value(value).pointer(pointer).cloned().unwrap_or_else(|| panic!("{pointer} is missing"))
}

fn information() -> ThreadBasicInformation {
    ThreadBasicInformation {
        exit_status: 259,
        teb_base_address: 0x7000,
        unique_process: 40,
        unique_thread: 44,
        affinity_mask: 0xFF,
        priority: 8,
        base_priority: -1,
    }
}

fn teb_bytes() -> Vec<u8> {
    let words: [u64; 13] = [1, 0x9000, 0x8000, 2, 3, 4, 0x7000, 5, 40, 44, 6, 7, 0x5000];
    words.iter().flat_map(|word| word.to_le_bytes()).collect()
}

fn thread() -> ThreadTebInfo {
    let header = accept_teb_header(Ok(teb_bytes())).expect("a header");
    build_thread_teb(40, 44, &information(), &header)
}

fn image() -> ValidatedPeImage {
    ValidatedPeImage {
        base_address: 0x1_4000_0000,
        image_size: 0x4000,
        entry_point_rva: 0x1010,
        section_count: 1,
        identity: vec![1, 2, 3],
    }
}

fn collection() -> ProcessTriageCollection {
    ProcessTriageCollection {
        validated_process: ValidatedProcessPe {
            process_id: 40,
            peb_address: 0x5000,
            being_debugged: true,
            image: image(),
            image_path: "dir/target.exe".to_string(),
        },
        backing_file_sha256: None,
        output_identity_sha256: "ab".to_string(),
        granted_access: 0x410,
        entry_point_file_offset: Some(0x410),
        unavailable_image_ranges: vec![UnavailablePeRange { rva: 0x3000, size: 0x1000 }],
        sections: vec![PeSectionInfo {
            name: ".text".to_string(),
            rva: 0x1000,
            virtual_size: 0x300,
            raw_size: 0x400,
            mapped_size: 0x300,
            raw_file_offset: 0x400,
            characteristics: 0x6000_0020,
        }],
        pdb: Ok(None),
        imports: Ok(ProcessImportCollection {
            module_base_address: 0x1_4000_0000,
            module_size: 0x4000,
            imports: vec![ProcessImportInfo {
                library_name: "kernel32.dll".to_string(),
                function_name: "#7".to_string(),
                ordinal: Some(7),
                iat_rva: 0x2080,
                iat_address: Some(0x1_4000_2080),
                iat_file_offset: None,
                xrefs: vec![ProcessImportXref {
                    kind: PeIatXrefKind::Jump,
                    instruction_rva: 0x1020,
                    instruction_address: Some(0x1_4000_1020),
                    instruction_file_offset: Some(0x420),
                }],
            }],
            unavailable_ranges: vec![],
        }),
        tebs: Ok(ProcessTebCollection { process_id: 40, tebs: vec![thread()], failures: vec![] }),
    }
}

fn private_region(base_address: usize, region_size: usize) -> MemoryRegion {
    MemoryRegion {
        base_address,
        allocation_base: base_address,
        region_size,
        state: 0x1000,
        protect: 4,
        region_type: MemoryRegionType::Private,
    }
}

#[test]
fn handles_need_every_required_right() {
    assert_eq!(check_granted_access(0, 56, 0x1410, 0x410), Ok(0x1410));
    assert_eq!(
        check_granted_access(0, 56, 0x400, 0x410),
        Err(HandleGuardError::InsufficientAccess { granted_access: 0x400, required_access: 0x410 })
    );
    assert_eq!(
        check_granted_access(-1, 3, 0x410, 0x410),
        Err(HandleGuardError::AccessQueryFailed { status: -1, return_length: 3 })
    );
}

#[test]
fn output_identity_prefers_the_backing_file() {
    let digest = |text: &str| Some(text.to_string());

    assert_eq!(
        choose_output_identity(digest("b"), digest("s")),
        Some(("b".to_string(), digest("b")))
    );
    assert_eq!(choose_output_identity(None, digest("s")), Some(("s".to_string(), None)));
    assert_eq!(choose_output_identity(None, None), None);
    assert_eq!(check_target_process(5, 5), Ok(()));
    assert_eq!(
        check_target_process(5, 6),
        Err(ProcessIdentityMismatch { expected_process_id: 5, actual_process_id: 6 })
    );
}

#[test]
fn process_checks_come_in_order() {
    assert_eq!(
        check_process_id(true, 5, 0),
        Err(ProcessPeValidationError::InvalidProcessHandle)
    );
    assert_eq!(
        check_process_id(false, 0, 6),
        Err(ProcessPeValidationError::ProcessIdUnavailable { error: 6 })
    );
    assert_eq!(check_process_id(false, 5, 6), Ok(5));
    assert_eq!(
        check_basic_information(-2, 9, 48),
        Err(ProcessPeValidationError::ProcessBasicInformationQueryFailed {
            status: -2,
            return_length: 9
        })
    );
    assert_eq!(
        check_basic_information(0, 47, 48),
        Err(ProcessPeValidationError::ProcessBasicInformationTooSmall { return_length: 47 })
    );
    assert_eq!(check_basic_information(0, 48, 48), Ok(()));
    assert_eq!(
        check_peb_location(5, 6, 0x1000),
        Err(ProcessPeValidationError::ProcessIdentityMismatch {
            handle_process_id: 5,
            basic_information_process_id: 6
        })
    );
    assert_eq!(
        check_peb_location(5, 5, 0),
        Err(ProcessPeValidationError::PebAddressUnavailable)
    );
    assert_eq!(
        check_peb_location(5, 5, 0x1001),
        Err(ProcessPeValidationError::PebAddressMisaligned { peb_address: 0x1001 })
    );
    assert_eq!(
        check_peb_location(5, 5, usize::MAX - 7),
        Err(ProcessPeValidationError::PebRangeOverflow {
            peb_address: usize::MAX - 7,
            bytes_required: 24
        })
    );
    assert_eq!(check_peb_location(5, 5, 0x1000), Ok(()));
}

#[test]
fn peb_bytes_need_a_private_readable_region() {
    assert_eq!(check_peb_region(0x1000, Ok(private_region(0x1000, 0x1000))), Ok(()));
    assert!(matches!(
        check_peb_region(0x1FF0, Ok(private_region(0x1000, 0x1000))),
        Err(ProcessPeValidationError::InvalidPebRegion { .. })
    ));
    let mut guarded = private_region(0x1000, 0x1000);
    guarded.protect = 0x104;
    assert!(check_peb_region(0x1000, Ok(guarded)).is_err());
    assert_eq!(
        check_peb_region(0x1000, Err(MemoryRegionQueryError::QueryFailed { status: -1 })),
        Err(ProcessPeValidationError::PebRegionQueryFailed {
            peb_address: 0x1000,
            error: MemoryRegionQueryError::QueryFailed { status: -1 }
        })
    );
    assert_eq!(
        check_peb_region(0x1000, Ok(private_region(0x1000, usize::MAX))),
        Err(ProcessPeValidationError::PebRangeOverflow {
            peb_address: 0x1000,
            bytes_required: usize::MAX
        })
    );

    let mut bytes = vec![0u8; 24];
    bytes[2] = 1;
    bytes[16..24].copy_from_slice(&0x1_4000_0000u64.to_le_bytes());
    assert_eq!(
        accept_peb(Ok(bytes)),
        Ok(PebImageBlock { being_debugged: true, image_base: 0x1_4000_0000 })
    );
    assert_eq!(
        accept_peb(Err(ProcessMemoryReadError::NullBaseAddress)),
        Err(ProcessPeValidationError::PebReadFailed(ProcessMemoryReadError::NullBaseAddress))
    );
}

#[test]
fn module_entries_confirm_the_image() {
    assert_eq!(retry_module_snapshot(1, 24), Ok(()));
    assert_eq!(
        retry_module_snapshot(4, 24),
        Err(ProcessPeValidationError::ModuleSnapshotFailed { error: 24 })
    );
    assert_eq!(
        retry_module_snapshot(1, 5),
        Err(ProcessPeValidationError::ModuleSnapshotFailed { error: 5 })
    );
    assert_eq!(check_module_entry(true, 0, 5, 5, &[65, 66, 0, 67]), Ok(2));
    assert_eq!(check_module_entry(true, 0, 5, 5, &[65, 66]), Ok(2));
    assert_eq!(
        check_module_entry(false, 18, 5, 5, &[65]),
        Err(ProcessPeValidationError::MainModuleEntryUnavailable { error: 18 })
    );
    assert_eq!(
        check_module_entry(true, 0, 5, 6, &[65]),
        Err(ProcessPeValidationError::ToolhelpProcessIdentityMismatch {
            expected_process_id: 5,
            actual_process_id: 6
        })
    );
    assert_eq!(
        check_module_entry(true, 0, 5, 5, &[0, 65]),
        Err(ProcessPeValidationError::MainImagePathUnavailable)
    );
    let peb = PebImageBlock { being_debugged: false, image_base: 0x1_4000_0000 };
    let complete = |base: usize, size: usize| {
        complete_process_identity(40, 0x5000, peb, image(), base, size, "a".to_string())
    };
    assert_eq!(complete(0x1_4000_0000, 0x4000).map(|process| process.process_id), Ok(40));
    assert_eq!(
        complete(0x1000, 0x4000),
        Err(ProcessPeValidationError::MainImageBaseMismatch {
            peb_image_base: 0x1_4000_0000,
            toolhelp_image_base: 0x1000
        })
    );
    assert_eq!(
        complete(0x1_4000_0000, 0x5000),
        Err(ProcessPeValidationError::MainImageSizeMismatch {
            validated_image_size: 0x4000,
            toolhelp_image_size: 0x5000
        })
    );
}

#[test]
fn thread_lists_are_owned_and_ordered() {
    let mut threads = ThreadEnumeration::new(40);
    threads.accept_entry(40, 9);
    threads.accept_entry(41, 1);
    threads.accept_entry(40, 3);
    assert_eq!(threads.clone().finish(18), Ok(vec![3, 9]));
    assert_eq!(
        threads.finish(5),
        Err(ProcessTebCollectionError::ThreadSnapshotIterationFailed { error: 5 })
    );
    assert_eq!(
        check_teb_process(true, 1, 0),
        Err(ProcessTebCollectionError::InvalidProcessHandle)
    );
    assert_eq!(
        check_teb_process(false, 0, 7),
        Err(ProcessTebCollectionError::ProcessIdUnavailable { error: 7 })
    );
    assert_eq!(check_teb_process(false, 8, 7), Ok(8));
}

#[test]
fn thread_blocks_are_checked_and_compared() {
    assert_eq!(check_thread_information(0, 0, 48), Ok(()));
    assert_eq!(
        check_thread_information(0, 47, 48),
        Err(ThreadTebCollectionError::ThreadInformationTooSmall { return_length: 47 })
    );
    assert_eq!(
        check_thread_information(-1, 0, 48),
        Err(ThreadTebCollectionError::ThreadInformationQueryFailed { status: -1, return_length: 0 })
    );
    assert_eq!(check_thread_identity(40, 44, &information()), Ok(0x7000));
    assert_eq!(
        check_thread_identity(40, 45, &information()),
        Err(ThreadTebCollectionError::ThreadIdentityMismatch {
            expected_process_id: 40,
            actual_process_id: 40,
            expected_thread_id: 45,
            actual_thread_id: 44
        })
    );
    let mut absent = information();
    absent.teb_base_address = 0;
    assert_eq!(
        check_thread_identity(40, 44, &absent),
        Err(ThreadTebCollectionError::TebAddressUnavailable)
    );
    assert_eq!(
        accept_teb_header(Ok(vec![0; 50])),
        Err(ThreadTebCollectionError::TebReadIncomplete { bytes_requested: 104, bytes_read: 50 })
    );
    assert_eq!(
        accept_teb_header(Err(ProcessMemoryReadError::ZeroBytesRequested)),
        Err(ThreadTebCollectionError::TebReadFailed(ProcessMemoryReadError::ZeroBytesRequested))
    );

    let teb = thread();
    assert_eq!(teb.stack_size_bytes, Some(0x1000));
    assert!(teb.self_pointer_matches);
    assert!(teb.client_process_id_matches && teb.client_thread_id_matches);
    assert_eq!((teb.priority, teb.base_priority, teb.exit_status), (8, -1, 259));

    let mut progress = ProgressLog::new();
    let mut collection = ProcessTebCollection::start(40, 2, &mut progress);
    collection.accept_thread(0, 2, 44, Ok(teb), &mut progress);
    collection.accept_thread(
        1,
        2,
        45,
        Err(ThreadTebCollectionError::TebAddressUnavailable),
        &mut progress,
    );
    assert_eq!((collection.tebs.len(), collection.failures.len()), (1, 1));
    assert_eq!(collection.failures[0].thread_id, 45);
    assert_eq!(progress.entries, vec![(0, 2), (1, 2), (2, 2)]);
}

#[test]
fn collected_threads_ascend_and_appear_once() {
    let mut progress = ProgressLog::new();
    let mut collection = ProcessTebCollection::start(40, 4, &mut progress);
    for (index, thread_id) in [3u32, 5, 8, 9].into_iter().enumerate() {
        let outcome = if thread_id % 2 == 1 {
            let mut teb = thread();
            teb.thread_id = thread_id;
            Ok(teb)
        } else {
            Err(ThreadTebCollectionError::TebAddressUnavailable)
        };
        collection.accept_thread(index, 4, thread_id, outcome, &mut progress);
    }

    let records: Vec<u32> = collection.tebs.iter().map(|teb| teb.thread_id).collect();
    let failures: Vec<u32> = collection.failures.iter().map(|failure| failure.thread_id).collect();
    assert_eq!(records, vec![3, 5, 9]);
    assert_eq!(failures, vec![8]);
}

#[test]
fn stack_scans_cover_the_stack_once() {
    let teb = thread();
    let mut progress = ProgressLog::new();
    let mut scan = StackScan::start(false, 40, 0, &teb, &mut progress).expect("a scan");

    assert_eq!(scan.next_action(), StackScanAction::QueryRegion { address: 0x8000 });
    let mut guard = private_region(0x8000, 0x400);
    guard.protect = 0x104;
    assert!(!is_readable_region(&guard));
    assert_eq!(scan.accept_region(Ok(guard), &mut progress), Ok(()));
    assert_eq!(scan.next_action(), StackScanAction::QueryRegion { address: 0x8400 });
    assert_eq!(scan.accept_region(Ok(private_region(0x8400, 0x400)), &mut progress), Ok(()));
    assert_eq!(scan.next_action(), StackScanAction::ReadBytes { address: 0x8400, size: 0x400 });
    let mut bytes = vec![0u8; 0x400];
    bytes[0x10..0x15].copy_from_slice(b"stack");
    scan.accept_read(complete_read(0x8400, 0, 0x200, bytes), 4, &mut progress);
    assert_eq!(scan.next_action(), StackScanAction::QueryRegion { address: 0x8800 });
    assert_eq!(scan.accept_region(Ok(private_region(0x8000, 0x9000)), &mut progress), Ok(()));
    assert_eq!(scan.next_action(), StackScanAction::ReadBytes { address: 0x8800, size: 0x800 });
    scan.accept_read(Err(ProcessMemoryReadError::NullBaseAddress), 4, &mut progress);
    assert_eq!(scan.next_action(), StackScanAction::Finished);

    let collection = scan.finish(&mut progress);
    assert_eq!(collection.bytes_read, 0x200);
    assert_eq!(collection.strings.len(), 1);
    assert_eq!(collection.strings[0].value, "stack");
    assert_eq!(
        (collection.strings[0].address, collection.strings[0].stack_offset),
        (0x8410, 0x410)
    );
    assert_eq!(collection.failures.len(), 2);
    assert_eq!(
        collection.failures[0].error,
        TebStackRegionReadError::ReadIncomplete { status: 0, bytes_read: 0x200 }
    );
    assert_eq!(
        collection.failures[1].error,
        TebStackRegionReadError::ReadFailed(ProcessMemoryReadError::NullBaseAddress)
    );
    assert_eq!(progress.entries.first(), Some(&(0, 0x1000)));
    assert_eq!(progress.entries.last(), Some(&(0x1000, 0x1000)));
}

#[test]
fn stack_scans_refuse_bad_input() {
    let teb = thread();
    let mut progress = ProgressLog::new();

    assert_eq!(
        StackScan::start(true, 40, 0, &teb, &mut progress).err(),
        Some(TebStackStringCollectionError::InvalidProcessHandle)
    );
    assert_eq!(
        StackScan::start(false, 0, 3, &teb, &mut progress).err(),
        Some(TebStackStringCollectionError::ProcessIdUnavailable { error: 3 })
    );
    assert_eq!(
        StackScan::start(false, 41, 0, &teb, &mut progress).err(),
        Some(TebStackStringCollectionError::TebProcessIdentityMismatch {
            thread_id: 44,
            process_id: 41,
            teb_process_id: 40
        })
    );
    let mut reversed = teb;
    reversed.stack_limit = 0x9000;
    assert_eq!(
        StackScan::start(false, 40, 0, &reversed, &mut progress).err(),
        Some(TebStackStringCollectionError::InvalidStackBounds {
            thread_id: 44,
            stack_base: 0x9000,
            stack_limit: 0x9000
        })
    );
    assert!(progress.entries.is_empty());
    let mut scan = StackScan::start(false, 40, 0, &teb, &mut progress).expect("a scan");
    assert_eq!(
        scan.accept_region(Err(MemoryRegionQueryError::NullBaseAddress), &mut progress),
        Err(TebStackStringCollectionError::StackRegionQueryFailed {
            thread_id: 44,
            address: 0x8000,
            error: MemoryRegionQueryError::NullBaseAddress
        })
    );
    let mut scan = StackScan::start(false, 40, 0, &teb, &mut progress).expect("a scan");
    assert_eq!(
        scan.accept_region(Ok(private_region(0x8000, usize::MAX)), &mut progress),
        Err(TebStackStringCollectionError::StackRegionRangeOverflow {
            thread_id: 44,
            base_address: 0x8000,
            region_size: usize::MAX
        })
    );
    let mut scan = StackScan::start(false, 40, 0, &teb, &mut progress).expect("a scan");
    assert_eq!(
        scan.accept_region(Ok(private_region(0x8001, 0x100)), &mut progress),
        Err(TebStackStringCollectionError::StackRegionDidNotAdvance {
            thread_id: 44,
            address: 0x8000,
            region_base_address: 0x8001,
            region_size: 0x100
        })
    );
}

#[test]
fn image_documents_name_the_process() {
    let collection = collection();
    let image = build_image_json(&collection, "ab");

    assert_eq!(at(&image, "/schema_version"), Value::from(4));
    assert_eq!(at(&image, "/status"), Value::from("partial"));
    assert_eq!(at(&image, "/process/process_id_hex"), Value::from("0x28"));
    assert_eq!(at(&image, "/process/granted_access_hex"), Value::from("0x00000410"));
    assert_eq!(at(&image, "/process/image_path"), Value::from("dir/target.exe"));
    assert_eq!(at(&image, "/process/image_file_name"), Value::from("target.exe"));
    assert_eq!(at(&image, "/process/sha256"), Value::from("ab"));
    assert_eq!(
        at(&image, "/process/sha256_source"),
        Value::from("mapped_image_snapshot_bytes")
    );
    assert_eq!(at(&image, "/image/end_address_hex"), Value::from("0x140004000"));
    assert_eq!(at(&image, "/image/entry_point_address"), Value::from(0x1_4000_1010u64));
    assert_eq!(at(&image, "/image/entry_point_file_offset_hex"), Value::from("0x410"));
    assert_eq!(at(&image, "/snapshot/complete"), Value::from(false));
    assert_eq!(at(&image, "/snapshot/unavailable_ranges/0/size_hex"), Value::from("0x1000"));

    let sections = build_sections_json(&collection);
    assert_eq!(at(&sections, "/count"), Value::from(1));
    assert_eq!(at(&sections, "/sections/0/name"), Value::from(".text"));
    assert_eq!(at(&sections, "/sections/0/address_hex"), Value::from("0x140001000"));
    assert_eq!(at(&sections, "/sections/0/characteristics_hex"), Value::from("0x60000020"));
    assert_eq!(at(&sections, "/sections/0/content/code"), Value::from(true));
    assert_eq!(at(&sections, "/sections/0/content/writable"), Value::from(false));

    let peb = build_peb_json(&collection);
    assert_eq!(at(&peb, "/status"), Value::from("validated"));
    assert_eq!(at(&peb, "/being_debugged"), Value::from(true));
    assert_eq!(at(&peb, "/peb_address_hex"), Value::from("0x5000"));
}

#[test]
fn debug_documents_tell_found_absent_and_incomplete() {
    let mut collection = collection();
    assert_eq!(at(&build_pdb_json(&collection), "/status"), Value::from("not_present"));
    assert_eq!(at(&build_pdb_json(&collection), "/pdb"), Value::Null);

    collection.pdb = Err(PdbInfoCollectionError::IncompleteMainModuleSnapshot { rva: 16, size: 2 });
    let failed = build_pdb_json(&collection);
    assert_eq!(at(&failed, "/status"), Value::from("incomplete"));
    assert_eq!(at(&failed, "/error/kind"), Value::from("incomplete_main_module_snapshot"));
    assert_eq!(at(&failed, "/error/fields/rva_hex"), Value::from("0x10"));

    let guid =
        PdbGuid { data1: 1, data2: 2, data3: 0xABC, data4: [8, 9, 10, 11, 12, 13, 14, 255] };
    assert_eq!(format_guid(&guid), "00000001-0002-0ABC-0809-0A0B0C0D0EFF");
    collection.pdb = Ok(Some(PdbInfo {
        format: PdbCodeViewFormat::Rsds,
        path: build_path_info("a.pdb".to_string(), false),
        guid: Some(guid),
        signature: None,
        age: 5,
        debug_directory_rva: 0x2200,
        debug_directory_file_offset: None,
        codeview_rva: 0x2240,
        codeview_file_offset: Some(0xA40),
        codeview_size: 36,
    }));
    let found = build_pdb_json(&collection);
    assert_eq!(at(&found, "/status"), Value::from("found"));
    assert_eq!(at(&found, "/pdb/format"), Value::from("rsds"));
    assert_eq!(at(&found, "/pdb/path/file_stem"), Value::from("a"));
    assert_eq!(at(&found, "/pdb/path/exists_on_disk"), Value::from(false));
    assert_eq!(at(&found, "/pdb/guid/data4/7"), Value::from(255));
    assert_eq!(at(&found, "/pdb/signature"), Value::Null);
    assert_eq!(at(&found, "/pdb/signature_hex"), Value::Null);
    assert_eq!(at(&found, "/pdb/debug_directory_file_offset_hex"), Value::Null);
    assert_eq!(at(&found, "/pdb/codeview_file_offset_hex"), Value::from("0xA40"));
}

#[test]
fn import_documents_count_references() {
    let mut collection = collection();
    let imports = build_imports_json(&collection);
    assert_eq!(at(&imports, "/status"), Value::from("collected"));
    assert_eq!(at(&imports, "/scope/imports"), Value::from("standard_pe_import_directory"));
    assert_eq!(at(&imports, "/import_count"), Value::from(1));
    assert_eq!(at(&imports, "/xref_count"), Value::from(1));
    assert_eq!(at(&imports, "/imports/0/function"), Value::from("#7"));
    assert_eq!(at(&imports, "/imports/0/ordinal"), Value::from(7));
    assert_eq!(at(&imports, "/imports/0/iat_file_offset"), Value::Null);
    assert_eq!(at(&imports, "/imports/0/xrefs/0/kind"), Value::from("jump"));

    collection.imports =
        Err(ProcessImportCollectionError::IncompleteMainModuleSnapshot { rva: 1, size: 2 });
    let failed = build_imports_json(&collection);
    assert_eq!(at(&failed, "/status"), Value::from("incomplete"));
    assert_eq!(at(&failed, "/error/type"), Value::from("ProcessImportCollectionError"));
}

#[test]
fn thread_documents_judge_identity() {
    let mut collection = collection();
    let tebs = build_tebs_json(&collection);
    assert_eq!(at(&tebs, "/status"), Value::from("collected"));
    assert_eq!(at(&tebs, "/tebs/0/trust/identity_matches"), Value::from(true));
    assert_eq!(at(&tebs, "/tebs/0/thread/base_priority"), Value::from(-1));
    assert_eq!(at(&tebs, "/tebs/0/thread/exit_status_hex"), Value::from("0x00000103"));
    assert_eq!(at(&tebs, "/tebs/0/nt_tib/stack_size_hex"), Value::from("0x1000"));

    collection.validated_process.peb_address = 0x6000;
    let tebs = build_tebs_json(&collection);
    assert_eq!(
        at(&tebs, "/tebs/0/trust/process_environment_block_matches"),
        Value::from(false)
    );
    assert_eq!(at(&tebs, "/tebs/0/trust/identity_matches"), Value::from(false));

    collection.tebs = Err(ProcessTebCollectionError::ThreadSnapshotFailed { error: 5 });
    let failed = build_tebs_json(&collection);
    assert_eq!(at(&failed, "/status"), Value::from("failed"));
    assert_eq!(at(&failed, "/failure_count"), Value::from(1));
    assert_eq!(at(&failed, "/error/fields/error_hex"), Value::from("0x00000005"));
}

#[test]
fn error_documents_keep_their_fields() {
    let handle = build_handle_guard_error_json(&HandleGuardError::NtOpenThreadFailed {
        process_id: 1,
        thread_id: 2,
        requested_access: 0x40,
        status: -1,
    });
    assert_eq!(at(&handle, "/kind"), Value::from("nt_open_thread_failed"));
    assert_eq!(at(&handle, "/fields/status"), Value::from(-1));
    assert_eq!(at(&handle, "/fields/status_hex"), Value::from("0xFFFFFFFF"));
    assert_eq!(at(&handle, "/fields/requested_access_hex"), Value::from("0x00000040"));
    let read = build_memory_read_error_json(&ProcessMemoryReadError::AddressRangeOverflow {
        starting_address: 255,
        bytes_requested: 9,
    });
    assert_eq!(at(&read, "/fields/starting_address_hex"), Value::from("0xFF"));
    let thread = build_thread_teb_error_json(&ThreadTebCollectionError::TebReadFailed(
        ProcessMemoryReadError::ZeroBytesRequested,
    ));
    assert_eq!(at(&thread, "/cause/kind"), Value::from("zero_bytes_requested"));
    let process = build_process_teb_error_json(
        &ProcessTebCollectionError::ThreadSnapshotHandleFailed(HandleGuardError::InvalidHandle),
    );
    assert_eq!(at(&process, "/kind"), Value::from("thread_snapshot_handle_failed"));
    assert_eq!(at(&process, "/cause/kind"), Value::from("invalid_handle"));
}

#[test]
fn numbers_and_text_are_written_out() {
    assert_eq!(format_hex(0), "0x0");
    assert_eq!(format_hex(0xABCDEF), "0xABCDEF");
    assert_eq!(format_optional_hex(None), None);
    assert_eq!(format_optional_hex(Some(16)), Some("0x10".to_string()));
    assert_eq!(prefixed_hex(0x1F, 8), "0x0000001F");
    assert_eq!(hex_digits(0xA, 2), "0A");
    assert_eq!(number_sign(65535), "#65535");
    assert_eq!(ascii_lowercase(".TeXt\u{C9}"), ".text\u{C9}");
    assert_eq!(read_c_string(b"ab\0c", 0), Some("ab".to_string()));
    assert_eq!(read_c_string(b"ab\0c", 1), Some("b".to_string()));
    assert_eq!(read_c_string(b"ab\0c", 3), None);
    assert_eq!(read_c_string(b"\xFF\0", 0), None);
    assert_eq!(read_c_string("\u{E9}\0".as_bytes(), 0), Some("\u{E9}".to_string()));
    assert_eq!(read_pdb_path(b"a\xFF\0", 0), Some("a\u{FFFD}".to_string()));
    assert_eq!(read_pdb_path(b"\0", 0), None);
    assert_eq!(read_pdb_path(b"abc", 0), None);
}
