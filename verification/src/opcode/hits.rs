//! Records of classified opcodes.

use vstd::prelude::*;

use super::catalog::{
    catalog_opcode_offset, first_opcode_offset, opcode_match, opcode_modrm_at, OpcodeBytecode,
    OpcodeView,
};
use super::decode::{decoded_mnemonic, iced_mnemonic};
use crate::pe::layout::executable;
use crate::pe::locate::{get_file_offset_from_pe, get_mapped_section_size, mapped_size};
use crate::pe::types::{SectionHeader, ValidatedPeSnapshot};
use crate::process::ValidatedProcessPe;
use crate::ranges::saturated_end;
use crate::text::{ascii_lowercase, lower_text, text_equal};
use crate::windows::IMAGE_SCN_MEM_EXECUTE;

verus! {

/// Identifies the evidence supporting one process opcode result.
#[derive(Clone, Copy, Debug, Eq, PartialEq, Structural)]
pub enum ProcessOpcodeEvidence {
    DecodedStaticInstruction,
    MappedTrapDifference,
}

/// Describes one decoded breakpoint-related instruction or mapped trap difference.
#[derive(Clone, Debug, Eq, PartialEq)]
pub struct ProcessOpcodeHit {
    pub evidence: ProcessOpcodeEvidence,
    pub name: &'static str,
    pub bytecode: &'static [u8],
    pub requires_modrm: bool,
    pub modrm: Option<u8>,
    pub process_bytes: Vec<u8>,
    pub backing_instruction_bytes: Vec<u8>,
    pub backing_instruction_mnemonic: String,
    pub opcode_offset: usize,
    pub section_index: usize,
    pub address: Option<usize>,
    pub rva: usize,
    pub file_offset: Option<usize>,
    pub instruction_address: Option<usize>,
    pub instruction_rva: usize,
    pub instruction_file_offset: Option<usize>,
}

/// The mathematical value of a classified opcode.
pub ghost struct HitView {
    pub evidence: ProcessOpcodeEvidence,
    pub name: Seq<char>,
    pub bytecode: Seq<u8>,
    pub requires_modrm: bool,
    pub modrm: Option<u8>,
    pub process_bytes: Seq<u8>,
    pub backing_instruction_bytes: Seq<u8>,
    pub backing_instruction_mnemonic: Seq<char>,
    pub opcode_offset: usize,
    pub section_index: usize,
    pub address: Option<usize>,
    pub rva: usize,
    pub file_offset: Option<usize>,
    pub instruction_address: Option<usize>,
    pub instruction_rva: usize,
    pub instruction_file_offset: Option<usize>,
}

impl View for ProcessOpcodeHit {
    type V = HitView;

    open spec fn view(&self) -> HitView {
        HitView {
            evidence: self.evidence,
            name: self.name@,
            bytecode: self.bytecode@,
            requires_modrm: self.requires_modrm,
            modrm: self.modrm,
            process_bytes: self.process_bytes@,
            backing_instruction_bytes: self.backing_instruction_bytes@,
            backing_instruction_mnemonic: self.backing_instruction_mnemonic@,
            opcode_offset: self.opcode_offset,
            section_index: self.section_index,
            address: self.address,
            rva: self.rva,
            file_offset: self.file_offset,
            instruction_address: self.instruction_address,
            instruction_rva: self.instruction_rva,
            instruction_file_offset: self.instruction_file_offset,
        }
    }
}

/// Aggregates raw byte-match counts for one configured opcode.
#[derive(Clone, Copy, Debug, Eq, PartialEq)]
pub struct ProcessOpcodeRawSummary {
    pub name: &'static str,
    pub bytecode: &'static [u8],
    pub requires_modrm: bool,
    pub match_count: usize,
    pub decoded_static_instruction_count: usize,
    pub mapped_trap_difference_count: usize,
}

/// The mathematical value of a raw summary.
pub ghost struct SummaryView {
    pub opcode: OpcodeView,
    pub match_count: usize,
    pub decoded_static_instruction_count: usize,
    pub mapped_trap_difference_count: usize,
}

impl View for ProcessOpcodeRawSummary {
    type V = SummaryView;

    open spec fn view(&self) -> SummaryView {
        SummaryView {
            opcode: OpcodeView {
                name: self.name@,
                bytecode: self.bytecode@,
                requires_modrm: self.requires_modrm,
            },
            match_count: self.match_count,
            decoded_static_instruction_count: self.decoded_static_instruction_count,
            mapped_trap_difference_count: self.mapped_trap_difference_count,
        }
    }
}

/// The views of a run of raw summaries.
pub open spec fn summary_views(summaries: Seq<ProcessOpcodeRawSummary>) -> Seq<SummaryView> {
    summaries.map_values(|summary: ProcessOpcodeRawSummary| summary@)
}

/// The views of a run of classified opcodes.
pub open spec fn hit_views(hits: Seq<ProcessOpcodeHit>) -> Seq<HitView> {
    hits.map_values(|hit: ProcessOpcodeHit| hit@)
}

/// The index of the first executable section, from `index` on, that holds `rva`.
pub open spec fn executable_section_index(
    sections: Seq<SectionHeader>,
    index: int,
    rva: int,
) -> Option<usize>
    decreases sections.len() - index,
{
    if index >= sections.len() {
        None
    } else if executable(sections[index]) && sections[index].virtual_address <= rva
        < saturated_end(sections[index].virtual_address as int, mapped_size(sections[index])) {
        Some(index as usize)
    } else {
        executable_section_index(sections, index + 1, rva)
    }
}

/// Finds the first executable section that holds an RVA.
fn find_executable_section(sections: &[SectionHeader], rva: usize) -> (r: Option<usize>)
    ensures
        r == executable_section_index(sections@, 0, rva as int),
{
    let mut index: usize = 0;
    while index < sections.len()
        invariant
            index <= sections@.len(),
            executable_section_index(sections@, 0, rva as int) == executable_section_index(
                sections@,
                index as int,
                rva as int,
            ),
        decreases sections.len() - index,
    {
        let section = &sections[index];
        let section_start: usize = section.virtual_address as usize;
        let section_end: usize = section_start.saturating_add(get_mapped_section_size(section));
        if section.characteristics & IMAGE_SCN_MEM_EXECUTE != 0 && rva >= section_start && rva
            < section_end {
            return Some(index);
        }
        index += 1;
    }
    None
}

/// Where in its instruction an opcode with this evidence stands.
pub open spec fn evidence_offset(
    evidence: ProcessOpcodeEvidence,
    opcode: OpcodeView,
    backing_bytes: Seq<u8>,
) -> Option<usize> {
    match evidence {
        ProcessOpcodeEvidence::MappedTrapDifference => Some(0usize),
        ProcessOpcodeEvidence::DecodedStaticInstruction => first_opcode_offset(
            backing_bytes,
            opcode,
            0,
        ),
    }
}

/// The record of an opcode found in the instruction at `instruction_rva`. There is none when no
/// executable section holds the instruction, when its bytes do not hold the opcode, or when the
/// opcode's RVA overflows.
pub open spec fn built_hit(
    base_address: usize,
    snapshot: ValidatedPeSnapshot,
    mnemonic: Seq<char>,
    instruction_rva: usize,
    opcode: OpcodeView,
    evidence: ProcessOpcodeEvidence,
    process_bytes: Seq<u8>,
    backing_bytes: Seq<u8>,
) -> Option<HitView> {
    let section = executable_section_index(snapshot.pe.sections@, 0, instruction_rva as int);
    let offset = evidence_offset(evidence, opcode, backing_bytes);
    let modrm = opcode_match(backing_bytes, offset->0 as int, opcode);
    let whole = evidence == ProcessOpcodeEvidence::DecodedStaticInstruction;
    if section is None || offset is None || instruction_rva + offset->0 > usize::MAX || (
    opcode.requires_modrm && modrm is None) || (!whole && opcode.bytecode.len()
        > process_bytes.len()) {
        None
    } else {
        let rva = (instruction_rva + offset->0) as usize;
        Some(
            HitView {
                evidence,
                name: opcode.name,
                bytecode: opcode.bytecode,
                requires_modrm: opcode.requires_modrm,
                modrm: if opcode.requires_modrm {
                    modrm->0
                } else {
                    None
                },
                process_bytes: if whole {
                    process_bytes
                } else {
                    process_bytes.subrange(0, opcode.bytecode.len() as int)
                },
                backing_instruction_bytes: backing_bytes,
                backing_instruction_mnemonic: lower_text(mnemonic),
                opcode_offset: offset->0,
                section_index: section->0,
                address: base_address.checked_add(rva),
                rva,
                file_offset: snapshot.pe.file_offset(rva as int),
                instruction_address: base_address.checked_add(instruction_rva),
                instruction_rva,
                instruction_file_offset: snapshot.pe.file_offset(instruction_rva as int),
            },
        )
    }
}

/// Builds one owned opcode result from a decoded backing instruction and process bytes.
/// `decoder_bytes` and `ip` are what the backing instruction was decoded from.
pub fn build_decoded_opcode_hit(
    process: &ValidatedProcessPe,
    snapshot: &ValidatedPeSnapshot,
    decoder_bytes: &[u8],
    ip: u64,
    instruction_rva: usize,
    opcode: OpcodeBytecode,
    evidence: ProcessOpcodeEvidence,
    process_bytes: &[u8],
    backing_bytes: &[u8],
) -> (r: Option<ProcessOpcodeHit>)
    ensures
        ({
            let built = built_hit(
                process.image.base_address,
                *snapshot,
                decoded_mnemonic(decoder_bytes@, ip),
                instruction_rva,
                opcode@,
                evidence,
                process_bytes@,
                backing_bytes@,
            );
            match r {
                Some(hit) => built == Some(hit@),
                None => built is None,
            }
        }),
{
    let section_index: usize = match find_executable_section(
        &snapshot.pe.sections,
        instruction_rva,
    ) {
        Some(value) => value,
        None => return None,
    };
    let whole: bool = match evidence {
        ProcessOpcodeEvidence::MappedTrapDifference => false,
        ProcessOpcodeEvidence::DecodedStaticInstruction => true,
    };
    let opcode_offset: usize = if whole {
        match catalog_opcode_offset(backing_bytes, &opcode) {
            Some(value) => value,
            None => return None,
        }
    } else {
        0
    };
    let rva: usize = match instruction_rva.checked_add(opcode_offset) {
        Some(value) => value,
        None => return None,
    };
    let modrm: Option<u8> = if opcode.requires_modrm {
        match opcode_modrm_at(backing_bytes, opcode_offset, &opcode) {
            Some(value) => value,
            None => return None,
        }
    } else {
        None
    };
    let kept_bytes: Vec<u8> = if whole {
        vstd::slice::slice_to_vec(process_bytes)
    } else {
        if opcode.bytecode.len() > process_bytes.len() {
            return None;
        }
        vstd::slice::slice_to_vec(
            vstd::slice::slice_subrange(process_bytes, 0, opcode.bytecode.len()),
        )
    };
    Some(
        ProcessOpcodeHit {
            evidence,
            name: opcode.name,
            bytecode: opcode.bytecode,
            requires_modrm: opcode.requires_modrm,
            modrm,
            process_bytes: kept_bytes,
            backing_instruction_bytes: vstd::slice::slice_to_vec(backing_bytes),
            backing_instruction_mnemonic: ascii_lowercase(
                iced_mnemonic(decoder_bytes, ip).as_str(),
            ),
            opcode_offset,
            section_index,
            address: process.image.base_address.checked_add(rva),
            rva,
            file_offset: get_file_offset_from_pe(&snapshot.pe, rva),
            instruction_address: process.image.base_address.checked_add(instruction_rva),
            instruction_rva,
            instruction_file_offset: get_file_offset_from_pe(&snapshot.pe, instruction_rva),
        },
    )
}

/// Classified opcodes and their counts.
pub struct DecodedHitLog {
    pub hits: Vec<ProcessOpcodeHit>,
    pub hit_count: usize,
    pub hits_truncated: bool,
    pub raw_summaries: Vec<ProcessOpcodeRawSummary>,
}

/// The mathematical value of a hit log.
pub ghost struct HitLogView {
    pub hits: Seq<HitView>,
    pub hit_count: usize,
    pub hits_truncated: bool,
    pub summaries: Seq<SummaryView>,
}

impl View for DecodedHitLog {
    type V = HitLogView;

    open spec fn view(&self) -> HitLogView {
        HitLogView {
            hits: hit_views(self.hits@),
            hit_count: self.hit_count,
            hits_truncated: self.hits_truncated,
            summaries: summary_views(self.raw_summaries@),
        }
    }
}

/// The first summary of this name, from `index` on.
pub open spec fn first_named(summaries: Seq<SummaryView>, index: int, name: Seq<char>) -> Option<
    int,
>
    decreases summaries.len() - index,
{
    if index >= summaries.len() {
        None
    } else if summaries[index].opcode.name == name {
        Some(index)
    } else {
        first_named(summaries, index + 1, name)
    }
}

/// The summaries with one more classification of this name.
pub open spec fn counted(
    summaries: Seq<SummaryView>,
    name: Seq<char>,
    evidence: ProcessOpcodeEvidence,
) -> Seq<SummaryView> {
    match first_named(summaries, 0, name) {
        None => summaries,
        Some(i) => summaries.update(
            i,
            match evidence {
                ProcessOpcodeEvidence::DecodedStaticInstruction => SummaryView {
                    decoded_static_instruction_count: summaries[i].decoded_static_instruction_count.saturating_add(
                    1),
                    ..summaries[i]
                },
                ProcessOpcodeEvidence::MappedTrapDifference => SummaryView {
                    mapped_trap_difference_count: summaries[i].mapped_trap_difference_count.saturating_add(
                    1),
                    ..summaries[i]
                },
            },
        ),
    }
}

/// The log with one more hit. It is counted in any case; it is kept when it could be built and
/// room was `granted`, and otherwise marks the log as truncated.
pub open spec fn recorded(
    log: HitLogView,
    name: Seq<char>,
    evidence: ProcessOpcodeEvidence,
    built: Option<HitView>,
    granted: bool,
) -> HitLogView {
    let kept = built is Some && granted;
    HitLogView {
        hits: if kept {
            log.hits.push(built->0)
        } else {
            log.hits
        },
        hit_count: log.hit_count.saturating_add(1),
        hits_truncated: log.hits_truncated || !kept,
        summaries: counted(log.summaries, name, evidence),
    }
}

/// Counts one classification in the summary of its name.
fn count_classification(
    summaries: &mut Vec<ProcessOpcodeRawSummary>,
    name: &str,
    evidence: ProcessOpcodeEvidence,
)
    ensures
        summary_views(final(summaries)@) == counted(
            summary_views(old(summaries)@),
            name@,
            evidence,
        ),
{
    let ghost before = summary_views(summaries@);
    let mut index: usize = 0;
    while index < summaries.len()
        invariant
            index <= summaries@.len(),
            summaries@ == old(summaries)@,
            before == summary_views(old(summaries)@),
            first_named(before, 0, name@) == first_named(before, index as int, name@),
        decreases summaries.len() - index,
    {
        if text_equal(summaries[index].name, name) {
            let mut summary = summaries[index];
            match evidence {
                ProcessOpcodeEvidence::DecodedStaticInstruction => {
                    summary.decoded_static_instruction_count =
                    summary.decoded_static_instruction_count.saturating_add(1);
                },
                ProcessOpcodeEvidence::MappedTrapDifference => {
                    summary.mapped_trap_difference_count =
                    summary.mapped_trap_difference_count.saturating_add(1);
                },
            }
            summaries[index] = summary;
            assert(first_named(before, 0, name@) == Some(index as int));
            assert(summary_views(summaries@) =~= counted(before, name@, evidence));
            return;
        }
        index += 1;
    }
}

/// Counts one semantic hit and keeps it when it could be built and room was `granted`.
pub fn keep_decoded_opcode_hit(
    log: &mut DecodedHitLog,
    name: &str,
    evidence: ProcessOpcodeEvidence,
    hit: Option<ProcessOpcodeHit>,
    granted: bool,
)
    ensures
        final(log)@ == recorded(
            old(log)@,
            name@,
            evidence,
            match hit {
                Some(hit) => Some(hit@),
                None => None,
            },
            granted,
        ),
{
    let ghost before = log@;
    log.hit_count = log.hit_count.saturating_add(1);
    count_classification(&mut log.raw_summaries, name, evidence);
    match hit {
        Some(hit) => if granted {
            log.hits.push(hit);
            assert(hit_views(log.hits@) =~= before.hits.push(hit@));
        } else {
            log.hits_truncated = true;
        },
        None => {
            log.hits_truncated = true;
        },
    }
}

/// Counts and retains one semantic hit without imposing a fixed result limit. Returns whether
/// room was found for it.
pub fn record_decoded_opcode_hit(
    log: &mut DecodedHitLog,
    name: &str,
    evidence: ProcessOpcodeEvidence,
    hit: Option<ProcessOpcodeHit>,
) -> (r: bool)
    ensures
        final(log)@ == recorded(
            old(log)@,
            name@,
            evidence,
            match hit {
                Some(hit) => Some(hit@),
                None => None,
            },
            r,
        ),
{
    let granted: bool = log.hits.try_reserve(1).is_ok();
    keep_decoded_opcode_hit(log, name, evidence, hit, granted);
    granted
}

} // verus!
