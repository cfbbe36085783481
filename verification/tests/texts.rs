use daydream::console::{phase_percentage, ProcessProgress};
use daydream::debuginfo::dbi::{
    collect_source_paths, collect_substream_source_paths, DbiSourcePathCollectionError,
};
use daydream::layout::{is_sha256_digest, list_obsolete_outputs, process_dump_layout};
use daydream::memory::{
    check_read_request, check_region_request, classify_region_type, complete_read,
    complete_region_query, create_read_buffer, find_pattern_matches, require_exact_read,
    search_read, MemoryRegion, MemoryRegionQueryError, MemoryRegionType, ProcessMemoryMatch,
    ProcessMemoryReadError,
};
use daydream::progress::ProgressLog;
use daydream::string_scan::{collect_buffer_strings, next_scan_offset, read_string_candidate};
use daydream::strings::{
    ascii_len, read_ascii, read_utf16le, read_utf8, utf16le_len, utf8_run, StringEncoding,
};

#[test]
fn measures_printable_runs() {
    assert_eq!(ascii_len(b"abc ~\x7Fx"), 5);
    assert_eq!(ascii_len(b""), 0);
    assert_eq!(ascii_len(b"\0abc"), 0);
    assert_eq!(utf16le_len(b"a\0b\0c\x01"), 2);
    assert_eq!(utf16le_len(b"a"), 0);
    assert_eq!(utf16le_len(b"a\0b"), 1);
}

#[test]
fn reads_text_at_an_offset() {
    assert_eq!(read_ascii(b"..text\0", 2), Some("text".to_string()));
    assert_eq!(read_ascii(b"text", 4), None);
    assert_eq!(read_ascii(b"text", 5), None);
    assert_eq!(read_utf16le(b"xh\0i\0\0\0", 1), Some("hi".to_string()));
    assert_eq!(read_utf16le(b"hi", 0), None);
    assert_eq!(read_utf16le(b"hi", 3), None);
    assert_eq!(
        read_utf8("z\u{E9}t\u{E9}\u{9F}!".as_bytes(), 1),
        Some("\u{E9}t\u{E9}".to_string())
    );
    assert_eq!(read_utf8(b"ab\xFFcd", 0), Some("ab".to_string()));
    assert_eq!(read_utf8(b"\x01ab", 0), None);
    assert_eq!(read_utf8(b"ab", 3), None);
    assert_eq!(utf8_run(b"a\x7Fb"), "a");
    assert_eq!(utf8_run("\u{10FFFF}\u{A0}".as_bytes()), "\u{10FFFF}\u{A0}");
    assert_eq!(utf8_run(b"\xE2\x82"), "");
}

#[test]
fn prefers_wide_then_utf8_then_ascii_candidates() {
    let wide = read_string_candidate(b"h\0i\0", 0).expect("a wide string");
    assert_eq!(wide.encoding, StringEncoding::Utf16Le);
    assert_eq!((wide.byte_length, wide.character_count), (4, 2));

    let text = "na\u{EF}ve".as_bytes();
    let utf8 = read_string_candidate(text, 0).expect("a UTF-8 string");
    assert_eq!(utf8.encoding, StringEncoding::Utf8);
    assert_eq!((utf8.byte_length, utf8.character_count), (6, 5));
    assert_eq!(utf8.value, "na\u{EF}ve");

    let ascii = read_string_candidate(b"na\xFFve", 0).expect("an ASCII string");
    assert_eq!(ascii.encoding, StringEncoding::Ascii);
    assert_eq!(ascii.value, "na");
    assert!(read_string_candidate(b"\0", 0).is_none());
    assert!(read_string_candidate(b"", 0).is_none());
    assert!(read_string_candidate(b"ab", 3).is_none());
    assert_eq!(next_scan_offset(b"ab\0c", &read_string_candidate(b"ab", 0).expect("a string")), 3);
    assert_eq!(next_scan_offset(b"ab!", &read_string_candidate(b"ab", 0).expect("a string")), 2);
}

#[test]
fn collects_buffer_strings_in_order() {
    let data = b"\x01abcd\0h\0e\0l\0l\0o\0\0\0\xC3\xA9t\xC3\xA9\0xy";
    let mut progress = ProgressLog::new();
    let strings = collect_buffer_strings(data, 3, &mut progress);
    let found: Vec<(usize, &str, StringEncoding)> =
        strings.iter().map(|string| (string.offset, string.value.as_str(), string.encoding)).collect();

    assert_eq!(
        found,
        vec![
            (1, "abcd", StringEncoding::Ascii),
            (6, "hello", StringEncoding::Utf16Le),
            (18, "\u{E9}t\u{E9}", StringEncoding::Utf8),
        ]
    );
    assert_eq!(progress.entries, vec![(0, 26), (0, 26), (26, 26)]);
    assert_eq!(collect_buffer_strings(b"a\0", 0, &mut progress).len(), 1);
}

#[test]
fn finds_every_memory_match_with_its_address() {
    assert_eq!(
        find_pattern_matches(b"aaab", 0x1000, b"aa"),
        vec![
            ProcessMemoryMatch { offset: 0, address: 0x1000 },
            ProcessMemoryMatch { offset: 1, address: 0x1001 },
        ]
    );
    assert!(find_pattern_matches(b"aaab", 0x1000, b"").is_empty());
    assert!(find_pattern_matches(b"a", 0x1000, b"aa").is_empty());
    assert_eq!(
        find_pattern_matches(b"xxx", usize::MAX - 1, b"x"),
        vec![
            ProcessMemoryMatch { offset: 0, address: usize::MAX - 1 },
            ProcessMemoryMatch { offset: 1, address: usize::MAX },
        ]
    );
}

#[test]
fn checks_reads_before_and_after() {
    assert_eq!(
        check_read_request(true, 1, 1),
        Err(ProcessMemoryReadError::InvalidProcessHandle)
    );
    assert_eq!(check_read_request(false, 1, 0), Err(ProcessMemoryReadError::NullBaseAddress));
    assert_eq!(check_read_request(false, 0, 1), Err(ProcessMemoryReadError::ZeroBytesRequested));
    assert_eq!(
        check_read_request(false, 2, usize::MAX),
        Err(ProcessMemoryReadError::AddressRangeOverflow {
            starting_address: usize::MAX,
            bytes_requested: 2
        })
    );
    assert_eq!(check_read_request(false, 16, 0x1000), Ok(()));
    assert_eq!(create_read_buffer(3), Ok(vec![0, 0, 0]));
    assert_eq!(create_read_buffer(0), Ok(vec![]));
    assert_eq!(
        create_read_buffer(usize::MAX),
        Err(ProcessMemoryReadError::BufferAllocationFailed { bytes_requested: usize::MAX })
    );
    assert_eq!(
        complete_read(0x1000, -5, 2, vec![0; 4]),
        Err(ProcessMemoryReadError::ReadFailed { status: -5, bytes_read: 2 })
    );
    assert_eq!(
        complete_read(0x1000, 0, 5, vec![0; 4]),
        Err(ProcessMemoryReadError::BytesReadExceededRequest {
            bytes_requested: 4,
            bytes_read: 5
        })
    );

    let partial = complete_read(0x1000, 0, 2, b"abcd".to_vec()).expect("a partial read");
    assert_eq!(partial.bytes, b"ab");
    assert_eq!((partial.bytes_requested, partial.bytes_read), (4, 2));
    let searched = search_read(partial, b"b");
    assert_eq!(searched.matches, vec![ProcessMemoryMatch { offset: 1, address: 0x1001 }]);
    assert_eq!(
        require_exact_read(Ok(searched.clone()), 4),
        Err(ProcessMemoryReadError::ReadIncomplete { bytes_requested: 4, bytes_read: 2 })
    );
    assert_eq!(require_exact_read(Ok(searched), 2), Ok(b"ab".to_vec()));
    assert_eq!(
        require_exact_read(Err(ProcessMemoryReadError::NullBaseAddress), 2),
        Err(ProcessMemoryReadError::NullBaseAddress)
    );
}

#[test]
fn classifies_queried_regions() {
    assert_eq!(classify_region_type(0x100_0000), MemoryRegionType::Image);
    assert_eq!(classify_region_type(0x4_0000), MemoryRegionType::Mapped);
    assert_eq!(classify_region_type(0x2_0000), MemoryRegionType::Private);
    assert_eq!(classify_region_type(7), MemoryRegionType::Unknown);
    assert_eq!(
        check_region_request(true, 1),
        Err(MemoryRegionQueryError::InvalidProcessHandle)
    );
    assert_eq!(check_region_request(false, 0), Err(MemoryRegionQueryError::NullBaseAddress));
    assert_eq!(check_region_request(false, 1), Ok(()));
    assert_eq!(
        complete_region_query(-1, 0, 0, 0, 0, 0, 0),
        Err(MemoryRegionQueryError::QueryFailed { status: -1 })
    );
    assert_eq!(
        complete_region_query(0, 0x1000, 0x1000, 0x2000, 0x1000, 4, 0x2_0000),
        Ok(MemoryRegion {
            base_address: 0x1000,
            allocation_base: 0x1000,
            region_size: 0x2000,
            state: 0x1000,
            protect: 4,
            region_type: MemoryRegionType::Private,
        })
    );
}

#[test]
fn keeps_source_paths_in_order_with_repeats() {
    let raw = vec![b"a.c".to_vec(), b"b.c".to_vec(), b"a.c".to_vec()];

    assert_eq!(
        collect_source_paths(&raw, 3).expect("valid paths").paths,
        vec!["a.c".to_string(), "b.c".to_string(), "a.c".to_string()]
    );
    assert_eq!(
        collect_source_paths(&raw, 4),
        Err(DbiSourcePathCollectionError::InvalidSourcePath { source_index: 3 })
    );
    assert_eq!(
        collect_source_paths(&raw, usize::MAX),
        Err(DbiSourcePathCollectionError::InvalidSourcePath { source_index: 3 })
    );
    assert_eq!(
        collect_source_paths(&[b"a".to_vec(), b"\xFF".to_vec()], 2),
        Err(DbiSourcePathCollectionError::InvalidSourcePathEncoding { source_index: 1 })
    );
}

#[test]
fn reads_the_source_paths_of_a_substream() {
    let mut data = vec![2, 0, 0xEE, 0xEE, 0, 0, 2, 0, 2, 0, 1, 0];
    for offset in [0u32, 4, 0] {
        data.extend_from_slice(&offset.to_le_bytes());
    }
    data.extend_from_slice(b"a.c\0b.rs\0");

    assert_eq!(
        collect_substream_source_paths(&data).expect("valid paths").paths,
        vec!["a.c".to_string(), "b.rs".to_string(), "a.c".to_string()]
    );
    assert!(matches!(
        collect_substream_source_paths(&data[..20]),
        Err(DbiSourcePathCollectionError::SourcesRead { .. })
    ));
    assert_eq!(collect_substream_source_paths(&[0; 4]).expect("no paths").paths.len(), 0);
    assert!(collect_substream_source_paths(&[0; 3]).is_err());
    assert!(collect_substream_source_paths(&[1, 0, 0, 0, 0, 0, 0]).is_err());
    assert_eq!(
        collect_substream_source_paths(&data[..data.len() - 1]),
        Err(DbiSourcePathCollectionError::InvalidSourcePath { source_index: 1 })
    );
}

#[test]
fn lays_out_process_dumps() {
    let layout = process_dump_layout("C:\\work", '\\', "target", "ab12");

    assert_eq!(layout.root, "C:\\work\\target_procdmp_ab12");
    assert_eq!(layout.pe, "C:\\work\\target_procdmp_ab12\\PE");
    assert_eq!(layout.imports, "C:\\work\\target_procdmp_ab12\\Imports");
    assert_eq!(layout.peb, "C:\\work\\target_procdmp_ab12\\PEB");
    assert_eq!(process_dump_layout("/", '/', "t", "0").root, "/t_procdmp_0");

    assert!(is_sha256_digest(&"0aF9".repeat(16)));
    assert!(!is_sha256_digest(&"0aF9".repeat(15)));
    assert!(!is_sha256_digest(&"0aG9".repeat(16)));

    let (outputs, directory) = list_obsolete_outputs("r", '/');
    assert_eq!(directory, "r/Patterns");
    assert_eq!(outputs.len(), 6);
    assert_eq!(outputs[0], "r/strings.json");
    assert_eq!(outputs[5], "r/Patterns/opcode_hits.json");
}

#[test]
fn maps_phase_work_to_percentages() {
    assert_eq!(phase_percentage(20, 85, 0, 10), 20);
    assert_eq!(phase_percentage(20, 85, 5, 10), 52);
    assert_eq!(phase_percentage(20, 85, 10, 10), 85);
    assert_eq!(phase_percentage(20, 85, 99, 10), 85);
    assert_eq!(phase_percentage(20, 85, 3, 0), 85);
    assert_eq!(phase_percentage(20, 400, 1, 1), 100);
    assert_eq!(phase_percentage(90, 10, 1, 2), 90);
    assert_eq!(phase_percentage(0, 100, usize::MAX, usize::MAX), 100);
}

#[test]
fn draws_the_progress_line_on_change_only() {
    let mut progress = ProcessProgress::new();
    let first = progress.update("Opening process", 0).expect("a line");

    assert_eq!(first, format!("\r[{}] {:3}% {:<32}", "-".repeat(24), 0, "Opening process"));
    assert_eq!(progress.update("Opening process", 0), None);
    assert_eq!(
        progress.update("Opening process", 50),
        Some(format!("\r[{}{}] {:3}% {:<32}", "#".repeat(12), "-".repeat(12), 50, "Opening process"))
    );
    assert!(progress.needs_line_end());
    assert_eq!(
        progress.finish(),
        Some(format!("\r[{}] {:3}% {:<32}", "#".repeat(24), 100, "Complete"))
    );
    assert!(!progress.needs_line_end());
    assert_eq!(
        ProcessProgress::new().update("A phase label that is longer than thirty-two", 300),
        Some(format!(
            "\r[{}] {:3}% {:<32}",
            "#".repeat(24),
            100,
            "A phase label that is longer than thirty-two"
        ))
    );
}
