//! The catalog of breakpoint-related opcodes and byte-exact matching against it.

use vstd::prelude::*;

verus! {

/// One configured opcode: its exact prefix bytes and whether a register-form ModR/M byte follows.
#[derive(Clone, Copy, Debug, Eq, PartialEq)]
pub struct OpcodeBytecode {
    pub name: &'static str,
    pub bytecode: &'static [u8],
    pub requires_modrm: bool,
}

/// The mathematical value of a configured opcode.
pub ghost struct OpcodeView {
    pub name: Seq<char>,
    pub bytecode: Seq<u8>,
    pub requires_modrm: bool,
}

impl View for OpcodeBytecode {
    type V = OpcodeView;

    open spec fn view(&self) -> OpcodeView {
        OpcodeView {
            name: self.name@,
            bytecode: self.bytecode@,
            requires_modrm: self.requires_modrm,
        }
    }
}

pub const INT3_BYTES: [u8; 1] = [0xCC];

pub const INT1_BYTES: [u8; 1] = [0xF1];

pub const INT_VECTOR_1_BYTES: [u8; 2] = [0xCD, 0x01];

pub const INT_VECTOR_3_BYTES: [u8; 2] = [0xCD, 0x03];

pub const MOV_FROM_DEBUG_REGISTER_BYTES: [u8; 2] = [0x0F, 0x21];

pub const MOV_TO_DEBUG_REGISTER_BYTES: [u8; 2] = [0x0F, 0x23];

/// The entries of the catalog.
#[derive(Clone, Copy, Debug, Eq, PartialEq, Structural)]
pub enum CatalogEntry {
    Int3Breakpoint,
    Int1DebugTrap,
    IntVector1,
    IntVector3,
    MovFromDebugRegister,
    MovToDebugRegister,
}

/// The opcode that a catalog entry stands for.
pub open spec fn catalog_opcode(entry: CatalogEntry) -> OpcodeView {
    match entry {
        CatalogEntry::Int3Breakpoint => OpcodeView {
            name: "INT3_BREAKPOINT"@,
            bytecode: seq![0xCCu8],
            requires_modrm: false,
        },
        CatalogEntry::Int1DebugTrap => OpcodeView {
            name: "INT1_ICEBP_DEBUG_TRAP"@,
            bytecode: seq![0xF1u8],
            requires_modrm: false,
        },
        CatalogEntry::IntVector1 => OpcodeView {
            name: "INT_VECTOR_1_DEBUG_INTERRUPT"@,
            bytecode: seq![0xCDu8, 0x01u8],
            requires_modrm: false,
        },
        CatalogEntry::IntVector3 => OpcodeView {
            name: "INT_VECTOR_3_BREAKPOINT"@,
            bytecode: seq![0xCDu8, 0x03u8],
            requires_modrm: false,
        },
        CatalogEntry::MovFromDebugRegister => OpcodeView {
            name: "MOV_FROM_DEBUG_REGISTER"@,
            bytecode: seq![0x0Fu8, 0x21u8],
            requires_modrm: true,
        },
        CatalogEntry::MovToDebugRegister => OpcodeView {
            name: "MOV_TO_DEBUG_REGISTER"@,
            bytecode: seq![0x0Fu8, 0x23u8],
            requires_modrm: true,
        },
    }
}

/// The opcode that a catalog entry stands for.
pub fn opcode_of(entry: CatalogEntry) -> (r: OpcodeBytecode)
    ensures
        r@ == catalog_opcode(entry),
{
    let r = match entry {
        CatalogEntry::Int3Breakpoint => OpcodeBytecode {
            name: "INT3_BREAKPOINT",
            bytecode: &INT3_BYTES,
            requires_modrm: false,
        },
        CatalogEntry::Int1DebugTrap => OpcodeBytecode {
            name: "INT1_ICEBP_DEBUG_TRAP",
            bytecode: &INT1_BYTES,
            requires_modrm: false,
        },
        CatalogEntry::IntVector1 => OpcodeBytecode {
            name: "INT_VECTOR_1_DEBUG_INTERRUPT",
            bytecode: &INT_VECTOR_1_BYTES,
            requires_modrm: false,
        },
        CatalogEntry::IntVector3 => OpcodeBytecode {
            name: "INT_VECTOR_3_BREAKPOINT",
            bytecode: &INT_VECTOR_3_BYTES,
            requires_modrm: false,
        },
        CatalogEntry::MovFromDebugRegister => OpcodeBytecode {
            name: "MOV_FROM_DEBUG_REGISTER",
            bytecode: &MOV_FROM_DEBUG_REGISTER_BYTES,
            requires_modrm: true,
        },
        CatalogEntry::MovToDebugRegister => OpcodeBytecode {
            name: "MOV_TO_DEBUG_REGISTER",
            bytecode: &MOV_TO_DEBUG_REGISTER_BYTES,
            requires_modrm: true,
        },
    };
    assert(r.bytecode@ =~= catalog_opcode(entry).bytecode);
    r
}

/// All catalog entries, in catalog order.
pub open spec fn catalog_entries() -> Seq<CatalogEntry> {
    seq![
        CatalogEntry::Int3Breakpoint,
        CatalogEntry::Int1DebugTrap,
        CatalogEntry::IntVector1,
        CatalogEntry::IntVector3,
        CatalogEntry::MovFromDebugRegister,
        CatalogEntry::MovToDebugRegister,
    ]
}

/// The whole catalog, in catalog order.
pub open spec fn catalog() -> Seq<OpcodeView> {
    catalog_entries().map_values(|entry: CatalogEntry| catalog_opcode(entry))
}

/// Whether `opcodes` are the whole catalog, in catalog order.
pub open spec fn is_catalog(opcodes: Seq<OpcodeBytecode>) -> bool {
    opcodes.map_values(|opcode: OpcodeBytecode| opcode@) == catalog()
}

/// The whole catalog of breakpoint-related opcodes.
pub fn breakpoint_opcodes() -> (r: Vec<OpcodeBytecode>)
    ensures
        is_catalog(r@),
        r@.len() == catalog().len(),
        forall|i: int| 0 <= i < r@.len() ==> (#[trigger] r@[i])@ == catalog()[i],
{
    let mut opcodes: Vec<OpcodeBytecode> = Vec::new();
    opcodes.push(opcode_of(CatalogEntry::Int3Breakpoint));
    opcodes.push(opcode_of(CatalogEntry::Int1DebugTrap));
    opcodes.push(opcode_of(CatalogEntry::IntVector1));
    opcodes.push(opcode_of(CatalogEntry::IntVector3));
    opcodes.push(opcode_of(CatalogEntry::MovFromDebugRegister));
    opcodes.push(opcode_of(CatalogEntry::MovToDebugRegister));
    assert(opcodes@.map_values(|opcode: OpcodeBytecode| opcode@) =~= catalog());
    assert forall|i: int| 0 <= i < opcodes@.len() implies (#[trigger] opcodes@[i])@
        == catalog()[i] by {
        assert(opcodes@.map_values(|opcode: OpcodeBytecode| opcode@)[i] == opcodes@[i]@);
    }
    opcodes
}

/// What `opcode` matches at `offset`: its ModR/M byte, no byte for an opcode without one, or
/// nothing.
pub open spec fn opcode_match(data: Seq<u8>, offset: int, opcode: OpcodeView) -> Option<
    Option<u8>,
> {
    let end = offset + opcode.bytecode.len();
    if opcode.bytecode.len() == 0 || end > data.len() || !(data.subrange(offset, end)
        =~= opcode.bytecode) {
        None
    } else if !opcode.requires_modrm {
        Some(None)
    } else if end >= data.len() || data[end] & 0xC0 != 0xC0 {
        None
    } else {
        Some(Some(data[end]))
    }
}

/// Reports whether `part` stands at `offset` in `data`.
pub fn bytes_at(data: &[u8], offset: usize, part: &[u8]) -> (r: bool)
    ensures
        r == (offset + part@.len() <= data@.len() && data@.subrange(
            offset as int,
            offset + part@.len(),
        ) == part@),
{
    if offset > data.len() || part.len() > data.len() - offset {
        return false;
    }
    let mut index: usize = 0;
    while index < part.len()
        invariant
            index <= part@.len(),
            offset + part@.len() <= data@.len(),
            data@.len() <= usize::MAX,
            forall|i: int| 0 <= i < index ==> data@[offset + i] == part@[i],
        decreases part.len() - index,
    {
        if data[offset + index] != part[index] {
            assert(data@.subrange(offset as int, offset + part@.len())[index as int]
                != part@[index as int]);
            return false;
        }
        index += 1;
    }
    assert(data@.subrange(offset as int, offset + part@.len()) =~= part@);
    true
}

/// Matches one configured opcode at an exact byte offset.
pub fn opcode_modrm_at(data: &[u8], offset: usize, opcode: &OpcodeBytecode) -> (r: Option<
    Option<u8>,
>)
    ensures
        r == opcode_match(data@, offset as int, opcode@),
{
    if opcode.bytecode.len() == 0 || !bytes_at(data, offset, opcode.bytecode) {
        return None;
    }
    if !opcode.requires_modrm {
        return Some(None);
    }
    assert(offset + opcode.bytecode@.len() <= data.len());
    let opcode_end: usize = offset + opcode.bytecode.len();
    if opcode_end >= data.len() {
        return None;
    }
    let modrm: u8 = data[opcode_end];
    if modrm & 0xC0 != 0xC0 {
        return None;
    }
    Some(Some(modrm))
}

/// The first offset at or after `from` at which `opcode` matches.
pub open spec fn first_opcode_offset(data: Seq<u8>, opcode: OpcodeView, from: int) -> Option<usize>
    decreases data.len() - from,
{
    if from >= data.len() {
        None
    } else if opcode_match(data, from, opcode) is Some {
        Some(from as usize)
    } else {
        first_opcode_offset(data, opcode, from + 1)
    }
}

/// Finds a catalog encoding within one complete decoded instruction.
pub fn catalog_opcode_offset(instruction_bytes: &[u8], opcode: &OpcodeBytecode) -> (r: Option<
    usize,
>)
    ensures
        r == first_opcode_offset(instruction_bytes@, opcode@, 0),
        r is Some ==> r->0 < instruction_bytes@.len() && opcode_match(
            instruction_bytes@,
            r->0 as int,
            opcode@,
        ) is Some,
{
    let mut offset: usize = 0;
    while offset < instruction_bytes.len()
        invariant
            offset <= instruction_bytes@.len(),
            first_opcode_offset(instruction_bytes@, opcode@, 0) == first_opcode_offset(
                instruction_bytes@,
                opcode@,
                offset as int,
            ),
        decreases instruction_bytes.len() - offset,
    {
        if opcode_modrm_at(instruction_bytes, offset, opcode).is_some() {
            return Some(offset);
        }
        offset += 1;
    }
    None
}

/// Whether `data` begins with `part`.
pub open spec fn begins_with(data: Seq<u8>, part: Seq<u8>) -> bool {
    part.len() <= data.len() && data.subrange(0, part.len() as int) == part
}

/// The software trap whose encoding `data` begins with, two-byte forms first.
pub open spec fn trap_at(data: Seq<u8>) -> Option<CatalogEntry> {
    if begins_with(data, catalog_opcode(CatalogEntry::IntVector3).bytecode) {
        Some(CatalogEntry::IntVector3)
    } else if begins_with(data, catalog_opcode(CatalogEntry::IntVector1).bytecode) {
        Some(CatalogEntry::IntVector1)
    } else if begins_with(data, catalog_opcode(CatalogEntry::Int3Breakpoint).bytecode) {
        Some(CatalogEntry::Int3Breakpoint)
    } else if begins_with(data, catalog_opcode(CatalogEntry::Int1DebugTrap).bytecode) {
        Some(CatalogEntry::Int1DebugTrap)
    } else {
        None
    }
}

/// Reports which software trap `data` begins with.
pub fn mapped_trap_entry_at(data: &[u8]) -> (r: Option<CatalogEntry>)
    ensures
        r == trap_at(data@),
{
    if bytes_at(data, 0, opcode_of(CatalogEntry::IntVector3).bytecode) {
        Some(CatalogEntry::IntVector3)
    } else if bytes_at(data, 0, opcode_of(CatalogEntry::IntVector1).bytecode) {
        Some(CatalogEntry::IntVector1)
    } else if bytes_at(data, 0, opcode_of(CatalogEntry::Int3Breakpoint).bytecode) {
        Some(CatalogEntry::Int3Breakpoint)
    } else if bytes_at(data, 0, opcode_of(CatalogEntry::Int1DebugTrap).bytecode) {
        Some(CatalogEntry::Int1DebugTrap)
    } else {
        None
    }
}

/// Detects a complete trap encoding at a trusted backing instruction start.
pub fn mapped_trap_opcode_at(data: &[u8]) -> (r: Option<OpcodeBytecode>)
    ensures
        match trap_at(data@) {
            Some(entry) => r is Some && r->0@ == catalog_opcode(entry),
            None => r is None,
        },
{
    match mapped_trap_entry_at(data) {
        Some(entry) => Some(opcode_of(entry)),
        None => None,
    }
}

/// No two opcodes of the catalog match at the same offset.
pub proof fn law_catalog_matches_are_unambiguous(
    data: Seq<u8>,
    offset: int,
    left: CatalogEntry,
    right: CatalogEntry,
)
    requires
        0 <= offset,
        opcode_match(data, offset, catalog_opcode(left)) is Some,
        opcode_match(data, offset, catalog_opcode(right)) is Some,
    ensures
        left == right,
{
    let l = catalog_opcode(left).bytecode;
    let r = catalog_opcode(right).bytecode;
    assert(data.subrange(offset, offset + l.len())[0] == data[offset]);
    assert(data.subrange(offset, offset + r.len())[0] == data[offset]);
    if l.len() == 2 {
        assert(data.subrange(offset, offset + l.len())[1] == data[offset + 1]);
    }
    if r.len() == 2 {
        assert(data.subrange(offset, offset + r.len())[1] == data[offset + 1]);
    }
}

} // verus!
