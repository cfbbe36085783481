//! Decoding of single x64 instructions and their classification.

use iced_x86::{Decoder, DecoderOptions};
use vstd::prelude::*;

use super::catalog::{
    catalog_opcode, catalog_opcode_offset, first_opcode_offset, opcode_of, CatalogEntry,
    OpcodeBytecode,
};

verus! {

/// Number of `iced_x86::Code::Int3`.
pub const CODE_INT3: u32 = 420;

/// Number of `iced_x86::Code::Int_imm8`.
pub const CODE_INT_IMM8: u32 = 421;

/// Number of `iced_x86::Code::Int1`.
pub const CODE_INT1: u32 = 708;

/// Number of `iced_x86::Code::Mov_r64_dr`.
pub const CODE_MOV_R64_DR: u32 = 1062;

/// Number of `iced_x86::Code::Mov_dr_r64`.
pub const CODE_MOV_DR_R64: u32 = 1066;

/// Number of `iced_x86::FlowControl::Next`.
pub const FLOW_NEXT: u32 = 0;

/// Number of `iced_x86::FlowControl::UnconditionalBranch`.
pub const FLOW_UNCONDITIONAL_BRANCH: u32 = 1;

/// Number of `iced_x86::FlowControl::ConditionalBranch`.
pub const FLOW_CONDITIONAL_BRANCH: u32 = 3;

/// Number of `iced_x86::FlowControl::Call`.
pub const FLOW_CALL: u32 = 5;

/// Number of `iced_x86::FlowControl::IndirectCall`.
pub const FLOW_INDIRECT_CALL: u32 = 6;

/// Number of `iced_x86::FlowControl::Interrupt`.
pub const FLOW_INTERRUPT: u32 = 7;

/// Number of `iced_x86::FlowControl::XbeginXabortXend`.
pub const FLOW_XBEGIN_XABORT_XEND: u32 = 8;

/// Number of `iced_x86::FlowControl::Exception`.
pub const FLOW_EXCEPTION: u32 = 9;

/// Number of `iced_x86::OpKind::NearBranch16`.
pub const OP_KIND_NEAR_BRANCH16: u32 = 1;

/// Number of `iced_x86::OpKind::NearBranch64`.
pub const OP_KIND_NEAR_BRANCH64: u32 = 3;

/// Number of `iced_x86::Register::DR0`.
pub const REGISTER_DR0: u32 = 201;

/// Number of `iced_x86::Register::DR7`.
pub const REGISTER_DR7: u32 = 208;

/// What the analysis reads of one decoded instruction; enumerations by their numbers.
#[derive(Clone, Copy, Debug, Eq, PartialEq, Structural)]
pub struct DecodedInstruction {
    pub length: usize,
    pub invalid: bool,
    pub flow_control: u32,
    pub code: u32,
    pub immediate8: u8,
    pub op0_kind: u32,
    pub op0_register: u32,
    pub op1_register: u32,
    pub near_branch_target: u64,
}

/// The first instruction that `iced_x86::Decoder` decodes from `bytes` at address `ip`.
pub uninterp spec fn decoded_instruction(bytes: Seq<u8>, ip: u64) -> DecodedInstruction;

/// The name of the mnemonic of the first instruction decoded from `bytes` at address `ip`.
pub uninterp spec fn decoded_mnemonic(bytes: Seq<u8>, ip: u64) -> Seq<char>;

/// Calls `iced_x86::Decoder::decode` in 64-bit mode without options. The result depends on the
/// bytes and the address alone, and the instruction takes no more bytes than there are.
#[verifier::external_body]
fn iced_decode(bytes: &[u8], ip: u64) -> (r: DecodedInstruction)
    ensures
        r == decoded_instruction(bytes@, ip),
        r.length <= bytes@.len(),
{
    let instruction = Decoder::with_ip(64, bytes, ip, DecoderOptions::NONE).decode();
    DecodedInstruction {
        length: instruction.len(),
        invalid: instruction.is_invalid(),
        flow_control: instruction.flow_control() as u32,
        code: instruction.code() as u32,
        immediate8: instruction.immediate8(),
        op0_kind: instruction.op0_kind() as u32,
        op0_register: instruction.op0_register() as u32,
        op1_register: instruction.op1_register() as u32,
        near_branch_target: instruction.near_branch_target(),
    }
}

/// Calls `iced_x86::Instruction::mnemonic` on the decoded instruction and names it. The result
/// depends on the bytes and the address alone.
#[verifier::external_body]
pub(crate) fn iced_mnemonic(bytes: &[u8], ip: u64) -> (r: String)
    ensures
        r@ == decoded_mnemonic(bytes@, ip),
{
    let instruction = Decoder::with_ip(64, bytes, ip, DecoderOptions::NONE).decode();
    format!("{:?}", instruction.mnemonic())
}

/// Decodes the first x64 instruction of `bytes` at address `ip`.
pub fn decode_instruction(bytes: &[u8], ip: u64) -> (r: DecodedInstruction)
    ensures
        r == decoded_instruction(bytes@, ip),
        r.length <= bytes@.len(),
{
    iced_decode(bytes, ip)
}

/// Whether a register number names DR0 through DR7.
pub open spec fn supported_debug_register(register: u32) -> bool {
    REGISTER_DR0 <= register <= REGISTER_DR7
}

/// Reports whether a decoded operand names one architecturally supported debug register.
pub fn is_supported_debug_register(register: u32) -> (r: bool)
    ensures
        r == supported_debug_register(register),
{
    REGISTER_DR0 <= register && register <= REGISTER_DR7
}

/// Whether `bytes` hold the encoding of a catalog entry.
pub open spec fn holds_opcode(bytes: Seq<u8>, entry: CatalogEntry) -> bool {
    first_opcode_offset(bytes, catalog_opcode(entry), 0) is Some
}

/// The catalog entry that an instruction with these bytes is, by its exact semantics.
pub open spec fn catalog_entry_of(instruction: DecodedInstruction, bytes: Seq<u8>) -> Option<
    CatalogEntry,
> {
    if instruction.code == CODE_INT3 {
        Some(CatalogEntry::Int3Breakpoint)
    } else if instruction.code == CODE_INT1 {
        Some(CatalogEntry::Int1DebugTrap)
    } else if instruction.code == CODE_INT_IMM8 && instruction.immediate8 == 3 {
        Some(CatalogEntry::IntVector3)
    } else if instruction.code == CODE_INT_IMM8 && instruction.immediate8 == 1 {
        Some(CatalogEntry::IntVector1)
    } else if instruction.code == CODE_MOV_R64_DR && supported_debug_register(
        instruction.op1_register,
    ) && holds_opcode(bytes, CatalogEntry::MovFromDebugRegister) {
        Some(CatalogEntry::MovFromDebugRegister)
    } else if instruction.code == CODE_MOV_DR_R64 && supported_debug_register(
        instruction.op0_register,
    ) && holds_opcode(bytes, CatalogEntry::MovToDebugRegister) {
        Some(CatalogEntry::MovToDebugRegister)
    } else {
        None
    }
}

/// Maps one decoded instruction to its catalog entry.
pub fn decoded_catalog_entry(instruction: &DecodedInstruction, instruction_bytes: &[u8]) -> (r:
    Option<CatalogEntry>)
    ensures
        r == catalog_entry_of(*instruction, instruction_bytes@),
{
    if instruction.code == CODE_INT3 {
        return Some(CatalogEntry::Int3Breakpoint);
    }
    if instruction.code == CODE_INT1 {
        return Some(CatalogEntry::Int1DebugTrap);
    }
    if instruction.code == CODE_INT_IMM8 && instruction.immediate8 == 3 {
        return Some(CatalogEntry::IntVector3);
    }
    if instruction.code == CODE_INT_IMM8 && instruction.immediate8 == 1 {
        return Some(CatalogEntry::IntVector1);
    }
    if instruction.code == CODE_MOV_R64_DR && is_supported_debug_register(instruction.op1_register)
        && catalog_opcode_offset(
        instruction_bytes,
        &opcode_of(CatalogEntry::MovFromDebugRegister),
    ).is_some() {
        return Some(CatalogEntry::MovFromDebugRegister);
    }
    if instruction.code == CODE_MOV_DR_R64 && is_supported_debug_register(instruction.op0_register)
        && catalog_opcode_offset(
        instruction_bytes,
        &opcode_of(CatalogEntry::MovToDebugRegister),
    ).is_some() {
        return Some(CatalogEntry::MovToDebugRegister);
    }
    None
}

/// Maps one strictly decoded instruction to the configured analyst opcode catalog.
pub fn decoded_catalog_opcode(instruction: &DecodedInstruction, instruction_bytes: &[u8]) -> (r:
    Option<OpcodeBytecode>)
    ensures
        match catalog_entry_of(*instruction, instruction_bytes@) {
            Some(entry) => r is Some && r->0@ == catalog_opcode(entry),
            None => r is None,
        },
{
    match decoded_catalog_entry(instruction, instruction_bytes) {
        Some(entry) => Some(opcode_of(entry)),
        None => None,
    }
}

/// The image RVA that a direct near branch leads to.
pub open spec fn branch_target(
    instruction: DecodedInstruction,
    module_base: int,
    image_size: int,
) -> Option<usize> {
    let target = instruction.near_branch_target as int;
    if OP_KIND_NEAR_BRANCH16 <= instruction.op0_kind <= OP_KIND_NEAR_BRANCH64 && target
        <= usize::MAX && module_base <= target < module_base + image_size {
        Some((target - module_base) as usize)
    } else {
        None
    }
}

/// Converts one direct near branch target to a bounded main-image RVA.
pub fn near_branch_target_rva(
    instruction: &DecodedInstruction,
    module_base_address: usize,
    image_size: usize,
) -> (r: Option<usize>)
    ensures
        r == branch_target(*instruction, module_base_address as int, image_size as int),
{
    if instruction.op0_kind < OP_KIND_NEAR_BRANCH16 || instruction.op0_kind
        > OP_KIND_NEAR_BRANCH64 {
        return None;
    }
    if instruction.near_branch_target > usize::MAX as u64 {
        return None;
    }
    let target: usize = instruction.near_branch_target as usize;
    match target.checked_sub(module_base_address) {
        Some(rva) => if rva < image_size {
            Some(rva)
        } else {
            None
        },
        None => None,
    }
}

} // verus!
