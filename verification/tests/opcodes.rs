use daydream::opcode::bitmap::{is_dual_decode_hit_boundary, ProcessDecodeBitmap};
use daydream::opcode::catalog::{
    breakpoint_opcodes, catalog_opcode_offset, mapped_trap_opcode_at, opcode_modrm_at, opcode_of,
    CatalogEntry,
};
use daydream::opcode::decode::{
    decode_instruction, decoded_catalog_opcode, near_branch_target_rva, DecodedInstruction,
    CODE_INT1, CODE_INT3, CODE_INT_IMM8, CODE_MOV_DR_R64, CODE_MOV_R64_DR, FLOW_CALL,
    FLOW_CONDITIONAL_BRANCH, FLOW_EXCEPTION, FLOW_INDIRECT_CALL, FLOW_INTERRUPT, FLOW_NEXT,
    FLOW_UNCONDITIONAL_BRANCH, FLOW_XBEGIN_XABORT_XEND, OP_KIND_NEAR_BRANCH16,
    OP_KIND_NEAR_BRANCH64, REGISTER_DR0, REGISTER_DR7,
};
use daydream::opcode::relocation::{
    parse_base_relocation_ranges, ProcessRelocationRange, RelocationError,
};
use daydream::patterns::collect_available_pattern_offsets;
use daydream::pe::types::UnavailablePeRange;
use daydream::progress::{ProgressLog, ProgressReporter, ProgressSink};
use daydream::ranges::ranges_overlap;
use iced_x86::{Code, Decoder, DecoderOptions, FlowControl, Instruction, OpKind, Register};

const TEST_ADDRESS: u64 = 0x0000_0001_4000_1000;

fn iced_instruction(bytes: &[u8]) -> Instruction {
    Decoder::with_ip(64, bytes, TEST_ADDRESS, DecoderOptions::NONE).decode()
}

fn instruction(bytes: &[u8]) -> DecodedInstruction {
    decode_instruction(bytes, TEST_ADDRESS)
}

fn decode_test_fallthrough_starts(bytes: &[u8]) -> ProcessDecodeBitmap {
    let mut starts =
        ProcessDecodeBitmap::new(bytes.len()).expect("test bitmap allocation should succeed");
    let mut offset = 0usize;

    while offset < bytes.len() {
        let decoded = decode_instruction(&bytes[offset..], TEST_ADDRESS + offset as u64);

        if decoded.invalid || decoded.length == 0 {
            break;
        }

        starts.insert(offset);
        offset += decoded.length;

        if decoded.flow_control == FlowControl::Return as u32 {
            break;
        }
    }

    starts
}

#[test]
fn collects_every_overlapping_pattern_offset() {
    let haystack = [0xAA, 0xAA, 0xAA, 0x00, 0xAA, 0xAA];
    let pattern = [Some(0xAA), Some(0xAA)];
    let mut progress = ProgressLog::new();
    let offsets = collect_available_pattern_offsets(
        &haystack,
        0x1000,
        &pattern,
        &[],
        0,
        haystack.len(),
        &mut progress,
    );

    assert_eq!(offsets, vec![0, 1, 4]);
    assert_eq!(progress.entries.last(), Some(&(haystack.len(), haystack.len())));
}

#[test]
fn finds_every_raw_opcode_occurrence() {
    let bytes = [0xCC, 0xCC, 0x90, 0xCD, 0x03, 0xCC, 0x0F, 0x21, 0xC0, 0x0F, 0x21, 0x00];
    let mut matches = Vec::new();

    for offset in 0..bytes.len() {
        for opcode in breakpoint_opcodes() {
            if let Some(modrm) = opcode_modrm_at(&bytes, offset, &opcode) {
                matches.push((offset, opcode.name, modrm));
            }
        }
    }

    let int3 = opcode_of(CatalogEntry::Int3Breakpoint).name;
    let vector3 = opcode_of(CatalogEntry::IntVector3).name;
    let from_debug = opcode_of(CatalogEntry::MovFromDebugRegister).name;

    assert_eq!(
        matches,
        vec![
            (0, int3, None),
            (1, int3, None),
            (3, vector3, None),
            (5, int3, None),
            (6, from_debug, Some(0xC0)),
        ]
    );
}

#[test]
fn classifies_exact_software_trap_instructions() {
    let cases = [
        (&[0xCC][..], CatalogEntry::Int3Breakpoint),
        (&[0xF1][..], CatalogEntry::Int1DebugTrap),
        (&[0xCD, 0x01][..], CatalogEntry::IntVector1),
        (&[0xCD, 0x03][..], CatalogEntry::IntVector3),
    ];

    for (bytes, expected) in cases {
        let decoded = instruction(bytes);

        assert!(!decoded.invalid);
        assert_eq!(decoded_catalog_opcode(&decoded, bytes), Some(opcode_of(expected)));
    }
}

#[test]
fn ignores_trap_bytes_embedded_in_other_instructions() {
    let register_move = [0x48, 0x89, 0xF1];
    let immediate_move = [0xB8, 0xCC, 0xCC, 0xCC, 0xCC];

    assert_eq!(iced_instruction(&register_move).code(), Code::Mov_rm64_r64);
    assert_eq!(instruction(&register_move).code, Code::Mov_rm64_r64 as u32);
    assert_eq!(instruction(&register_move).length, 3);
    assert_eq!(decoded_catalog_opcode(&instruction(&register_move), &register_move), None);
    assert_eq!(iced_instruction(&immediate_move).code(), Code::Mov_r32_imm32);
    assert_eq!(instruction(&immediate_move).code, Code::Mov_r32_imm32 as u32);
    assert_eq!(instruction(&immediate_move).length, 5);
    assert_eq!(decoded_catalog_opcode(&instruction(&immediate_move), &immediate_move), None);
}

#[test]
fn classifies_supported_debug_register_moves() {
    let read_debug_register = [0x0F, 0x21, 0xC0];
    let write_debug_register = [0x0F, 0x23, 0xF8];
    let rex_prefixed_read = [0x41, 0x0F, 0x21, 0xC0];
    let from_debug = opcode_of(CatalogEntry::MovFromDebugRegister);
    let to_debug = opcode_of(CatalogEntry::MovToDebugRegister);

    assert_eq!(iced_instruction(&read_debug_register).code(), Code::Mov_r64_dr);
    assert_eq!(instruction(&read_debug_register).code, CODE_MOV_R64_DR);
    assert_eq!(iced_instruction(&read_debug_register).op1_register(), Register::DR0);
    assert_eq!(instruction(&read_debug_register).op1_register, REGISTER_DR0);
    assert_eq!(
        decoded_catalog_opcode(&instruction(&read_debug_register), &read_debug_register),
        Some(from_debug)
    );
    assert_eq!(iced_instruction(&write_debug_register).code(), Code::Mov_dr_r64);
    assert_eq!(instruction(&write_debug_register).code, CODE_MOV_DR_R64);
    assert_eq!(iced_instruction(&write_debug_register).op0_register(), Register::DR7);
    assert_eq!(instruction(&write_debug_register).op0_register, REGISTER_DR7);
    assert_eq!(
        decoded_catalog_opcode(&instruction(&write_debug_register), &write_debug_register),
        Some(to_debug)
    );
    assert_eq!(iced_instruction(&rex_prefixed_read).code(), Code::Mov_r64_dr);
    assert_eq!(iced_instruction(&rex_prefixed_read).op0_register(), Register::R8);
    assert_eq!(instruction(&rex_prefixed_read).op0_register, Register::R8 as u32);
    assert_eq!(iced_instruction(&rex_prefixed_read).op1_register(), Register::DR0);
    assert_eq!(
        decoded_catalog_opcode(&instruction(&rex_prefixed_read), &rex_prefixed_read),
        Some(from_debug)
    );
    assert_eq!(catalog_opcode_offset(&rex_prefixed_read, &from_debug), Some(1));
}

#[test]
fn rejects_invalid_or_reserved_debug_register_moves() {
    let memory_read_form = [0x0F, 0x21, 0x00];
    let memory_write_form = [0x0F, 0x23, 0x00];
    let reserved_register = [0x44, 0x0F, 0x21, 0xC0];

    assert_eq!(iced_instruction(&memory_read_form).code(), Code::Mov_r64_dr);
    assert_eq!(instruction(&memory_read_form).code, CODE_MOV_R64_DR);
    assert_eq!(instruction(&memory_read_form).op1_register, REGISTER_DR0);
    assert_eq!(decoded_catalog_opcode(&instruction(&memory_read_form), &memory_read_form), None);
    assert_eq!(iced_instruction(&memory_write_form).code(), Code::Mov_dr_r64);
    assert_eq!(instruction(&memory_write_form).code, CODE_MOV_DR_R64);
    assert_eq!(instruction(&memory_write_form).op0_register, REGISTER_DR0);
    assert_eq!(decoded_catalog_opcode(&instruction(&memory_write_form), &memory_write_form), None);
    assert!(iced_instruction(&reserved_register).is_invalid());
    assert!(instruction(&reserved_register).invalid);
    assert_eq!(decoded_catalog_opcode(&instruction(&reserved_register), &reserved_register), None);
}

#[test]
fn parses_only_valid_x64_base_relocations() {
    let directory = [0x00, 0x10, 0x00, 0x00, 0x0C, 0x00, 0x00, 0x00, 0x34, 0xA2, 0x00, 0x00];

    assert_eq!(
        parse_base_relocation_ranges(&directory, 0x4000),
        Ok(vec![ProcessRelocationRange { rva: 0x1234, size: 8 }])
    );
}

#[test]
fn rejects_unsafe_x64_base_relocation_metadata() {
    let misaligned_block_size = [0x00, 0x10, 0x00, 0x00, 0x0A, 0x00, 0x00, 0x00, 0x00, 0x00];
    let unsupported_type =
        [0x00, 0x10, 0x00, 0x00, 0x0C, 0x00, 0x00, 0x00, 0x00, 0x30, 0x00, 0x00];
    let target_outside_image =
        [0x00, 0x30, 0x00, 0x00, 0x0C, 0x00, 0x00, 0x00, 0xFC, 0xAF, 0x00, 0x00];

    assert!(parse_base_relocation_ranges(&misaligned_block_size, 0x4000).is_err());
    assert!(parse_base_relocation_ranges(&unsupported_type, 0x4000).is_err());
    assert!(parse_base_relocation_ranges(&target_outside_image, 0x4000).is_err());
    assert!(parse_base_relocation_ranges(&[0; 7], 0x4000).is_err());
    assert_eq!(
        parse_base_relocation_ranges(&misaligned_block_size, 0x4000),
        Err(RelocationError::InvalidBlockLayout)
    );
    assert_eq!(
        parse_base_relocation_ranges(&unsupported_type, 0x4000),
        Err(RelocationError::UnsupportedType { relocation_type: 3 })
    );
    assert_eq!(
        parse_base_relocation_ranges(&target_outside_image, 0x4000),
        Err(RelocationError::TargetOutsideImage)
    );
    assert_eq!(
        parse_base_relocation_ranges(&[0; 7], 0x4000),
        Err(RelocationError::IncompleteBlockHeader)
    );
}

#[test]
fn requires_current_and_backing_instruction_boundaries_for_hits() {
    let shifted_current_starts = decode_test_fallthrough_starts(&[0xB0, 0xCC, 0xC3]);
    let patched_current_starts = decode_test_fallthrough_starts(&[0xCC, 0x90, 0xC3]);

    assert!(!is_dual_decode_hit_boundary(&shifted_current_starts, 1));
    assert!(is_dual_decode_hit_boundary(&patched_current_starts, 0));
    assert_eq!(
        mapped_trap_opcode_at(&[0xCC, 0x90, 0xC3]),
        Some(opcode_of(CatalogEntry::Int3Breakpoint))
    );
}

#[test]
fn decoder_numbers_name_the_decoder_enumerations() {
    assert_eq!(CODE_INT3, Code::Int3 as u32);
    assert_eq!(CODE_INT1, Code::Int1 as u32);
    assert_eq!(CODE_INT_IMM8, Code::Int_imm8 as u32);
    assert_eq!(CODE_MOV_R64_DR, Code::Mov_r64_dr as u32);
    assert_eq!(CODE_MOV_DR_R64, Code::Mov_dr_r64 as u32);
    assert_eq!(FLOW_NEXT, FlowControl::Next as u32);
    assert_eq!(FLOW_UNCONDITIONAL_BRANCH, FlowControl::UnconditionalBranch as u32);
    assert_eq!(FLOW_CONDITIONAL_BRANCH, FlowControl::ConditionalBranch as u32);
    assert_eq!(FLOW_CALL, FlowControl::Call as u32);
    assert_eq!(FLOW_INDIRECT_CALL, FlowControl::IndirectCall as u32);
    assert_eq!(FLOW_INTERRUPT, FlowControl::Interrupt as u32);
    assert_eq!(FLOW_XBEGIN_XABORT_XEND, FlowControl::XbeginXabortXend as u32);
    assert_eq!(FLOW_EXCEPTION, FlowControl::Exception as u32);
    assert_eq!(OP_KIND_NEAR_BRANCH16, OpKind::NearBranch16 as u32);
    assert_eq!(OP_KIND_NEAR_BRANCH16 + 1, OpKind::NearBranch32 as u32);
    assert_eq!(OP_KIND_NEAR_BRANCH64, OpKind::NearBranch64 as u32);
    assert_eq!(REGISTER_DR0, Register::DR0 as u32);
    assert_eq!(REGISTER_DR0 + 3, Register::DR3 as u32);
    assert_eq!(REGISTER_DR7, Register::DR7 as u32);
}

#[test]
fn decodes_length_flow_and_branch_target() {
    let call = [0xE8, 0x10, 0x00, 0x00, 0x00];
    let decoded = instruction(&call);

    assert_eq!(decoded.length, 5);
    assert_eq!(decoded.flow_control, FLOW_CALL);
    assert_eq!(near_branch_target_rva(&decoded, 0x1_4000_0000, 0x4000), Some(0x1015));
    assert_eq!(near_branch_target_rva(&decoded, 0x1_4000_0000, 0x1015), None);
    assert_eq!(near_branch_target_rva(&decoded, 0x1_4000_2000, 0x4000), None);
    assert_eq!(near_branch_target_rva(&instruction(&[0xC3]), 0x1_4000_0000, 0x4000), None);
    assert_eq!(instruction(&[]).length, 0);
    assert!(instruction(&[]).invalid);
}

#[test]
fn patterns_skip_wildcards_and_unavailable_bytes() {
    let haystack = [0x48, 0x01, 0x90, 0x48, 0x02, 0x90, 0x48, 0x03];
    let pattern = [Some(0x48), None, Some(0x90)];
    let unavailable = [UnavailablePeRange { rva: 0x2004, size: 1 }];
    let mut progress = ProgressLog::new();

    assert_eq!(
        collect_available_pattern_offsets(&haystack, 0x2000, &pattern, &[], 0, 8, &mut progress),
        vec![0, 3]
    );
    assert_eq!(progress.entries, vec![(0, 8), (8, 8)]);
    assert_eq!(
        collect_available_pattern_offsets(
            &haystack,
            0x2000,
            &pattern,
            &unavailable,
            5,
            20,
            &mut progress
        ),
        vec![0]
    );
    assert_eq!(progress.entries, vec![(0, 8), (8, 8), (5, 20), (13, 20)]);
    assert_eq!(
        collect_available_pattern_offsets(&haystack, 0, &[], &[], 1, 9, &mut progress),
        Vec::<usize>::new()
    );
    assert_eq!(progress.entries.last(), Some(&(9, 9)));
}

#[test]
fn pattern_progress_comes_at_each_interval() {
    let haystack = vec![0u8; 0x2_0001];
    let mut progress = ProgressLog::new();
    let offsets = collect_available_pattern_offsets(
        &haystack,
        0,
        &[Some(1)],
        &[],
        7,
        1_000_000,
        &mut progress,
    );

    assert!(offsets.is_empty());
    assert_eq!(
        progress.entries,
        vec![
            (7, 1_000_000),
            (7 + 0x1_0000, 1_000_000),
            (7 + 0x2_0000, 1_000_000),
            (7 + 0x2_0001, 1_000_000),
        ]
    );
}

struct Total(usize);

impl ProgressSink for Total {
    fn show(&mut self, completed: usize, total: usize) {
        self.0 += completed + total;
    }
}

#[test]
fn reporters_hand_every_update_on() {
    let mut reporter = ProgressReporter::new(Total(0));
    let offsets =
        collect_available_pattern_offsets(&[1, 2], 0, &[Some(2)], &[], 0, 2, &mut reporter);

    assert_eq!(offsets, vec![1]);
    assert_eq!(reporter.sink.0, 2 + 4);
}

#[test]
fn bitmaps_mark_merge_and_bound_positions() {
    let mut first = ProcessDecodeBitmap::new(130).expect("allocation should succeed");
    let mut second = ProcessDecodeBitmap::new(130).expect("allocation should succeed");

    first.insert(0);
    first.insert(64);
    first.insert(129);
    first.insert(130);
    second.insert_range(62, 66);
    second.insert_range(128, 500);

    assert!(first.contains(0) && first.contains(64) && first.contains(129));
    assert!(!first.contains(130) && !first.contains(1));
    first.union_with(&second);
    assert!(first.contains(62) && first.contains(63) && first.contains(65) && first.contains(128));
    assert!(!first.contains(66) && !first.contains(127));

    let mut empty = ProcessDecodeBitmap::empty(10);
    empty.insert(3);
    assert!(!empty.contains(3));
    assert!(ProcessDecodeBitmap::new(usize::MAX).is_none());
    assert_eq!(ProcessDecodeBitmap::new(0).map(|bitmap| bitmap.words.len()), Some(0));
    assert_eq!(ProcessDecodeBitmap::zeroed(Vec::new(), 65).words, vec![0, 0]);
}

#[test]
fn relocations_are_sorted_once_each_and_bounded() {
    let directory = [
        0x00, 0x20, 0x00, 0x00, 0x10, 0x00, 0x00, 0x00, 0x10, 0xA0, 0x00, 0xA0, 0x10, 0xA0, 0x00,
        0x00, 0x00, 0x10, 0x00, 0x00, 0x0C, 0x00, 0x00, 0x00, 0x08, 0xA0, 0x00, 0x00,
    ];

    assert_eq!(
        parse_base_relocation_ranges(&directory, 0x4000),
        Ok(vec![
            ProcessRelocationRange { rva: 0x1008, size: 8 },
            ProcessRelocationRange { rva: 0x2000, size: 8 },
            ProcessRelocationRange { rva: 0x2010, size: 8 },
        ])
    );
    assert_eq!(parse_base_relocation_ranges(&[], 0x4000), Ok(vec![]));
    assert_eq!(
        RelocationError::UnsupportedType { relocation_type: 13 }.message(),
        "unsupported x64 base-relocation type 13"
    );
    assert_eq!(
        RelocationError::TargetOutsideImage.message(),
        "base-relocation target exceeds SizeOfImage"
    );
}

#[test]
fn overlap_is_half_open() {
    assert!(ranges_overlap(0x1000, 0x10, 0x100F, 1));
    assert!(!ranges_overlap(0x1000, 0x10, 0x1010, 1));
    assert!(!ranges_overlap(0x1000, 0, 0x1000, 0x10));
    assert!(ranges_overlap(usize::MAX - 1, 5, usize::MAX - 3, 9));
    assert!(!ranges_overlap(5, 0, 0, 10));
    assert!(!ranges_overlap(0, 10, 5, 0));
    assert!(ranges_overlap(usize::MAX, 5, usize::MAX, 1));
}
