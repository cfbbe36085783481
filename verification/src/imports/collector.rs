//! Imports of a snapshot with their code references.

use std::collections::HashSet;

use vstd::prelude::*;

use super::availability::{find_unavailable_import_range, unavailable_import_range};
use super::parsing::{
    collect_import_entries_from_pe, entry_views, import_entries, ImportEntryView, PeImportEntry,
};
use super::xrefs::{
    collect_iat_xrefs_for_targets, section_xref_updates, section_xrefs, PeIatXref, PeIatXrefKind,
};
use crate::pe::types::{PeImage, UnavailablePeRange, ValidatedPeSnapshot};
use crate::process::ValidatedProcessPe;
use crate::progress::Progress;
use crate::scan::executable_bytes;
use crate::sorting::ordered;

verus! {

broadcast use vstd::std_specs::hash::group_hash_axioms;

/// Stores one process import and every direct code reference found for its IAT slot.
#[derive(Clone, Debug, Eq, PartialEq)]
pub struct ProcessImportInfo {
    pub library_name: String,
    pub function_name: String,
    pub ordinal: Option<u16>,
    pub iat_rva: usize,
    pub iat_address: Option<usize>,
    pub iat_file_offset: Option<usize>,
    pub xrefs: Vec<ProcessImportXref>,
}

/// Stores one direct process instruction reference to an imported IAT slot.
#[derive(Clone, Copy, Debug, Eq, PartialEq, Structural)]
pub struct ProcessImportXref {
    pub kind: PeIatXrefKind,
    pub instruction_rva: usize,
    pub instruction_address: Option<usize>,
    pub instruction_file_offset: Option<usize>,
}

/// Owns process imports, IAT references, and any unrelated loader-discarded ranges.
#[derive(Clone, Debug, Eq, PartialEq)]
pub struct ProcessImportCollection {
    pub module_base_address: usize,
    pub module_size: usize,
    pub imports: Vec<ProcessImportInfo>,
    pub unavailable_ranges: Vec<UnavailablePeRange>,
}

/// Explains why process import collection could not complete.
#[derive(Clone, Copy, Debug, Eq, PartialEq, Structural)]
pub enum ProcessImportCollectionError {
    IncompleteMainModuleSnapshot { rva: usize, size: usize },
}

/// The process record of a reference.
pub open spec fn process_xref(base_address: usize, xref: PeIatXref) -> ProcessImportXref {
    ProcessImportXref {
        kind: xref.kind,
        instruction_rva: xref.instruction_rva,
        instruction_address: base_address.checked_add(xref.instruction_rva),
        instruction_file_offset: xref.file_offset,
    }
}

/// The references among the first `count` that lead to `iat_rva`, in order.
pub open spec fn xrefs_to(
    base_address: usize,
    xrefs: Seq<PeIatXref>,
    count: int,
    iat_rva: usize,
) -> Seq<ProcessImportXref>
    decreases count,
{
    if count <= 0 {
        Seq::empty()
    } else if xrefs[count - 1].iat_rva == iat_rva {
        xrefs_to(base_address, xrefs, count - 1, iat_rva).push(
            process_xref(base_address, xrefs[count - 1]),
        )
    } else {
        xrefs_to(base_address, xrefs, count - 1, iat_rva)
    }
}

impl ProcessImportInfo {
    /// This record holds import `index` with every reference to its slot.
    pub open spec fn groups(
        &self,
        base_address: usize,
        imports: Seq<ImportEntryView>,
        index: int,
        xrefs: Seq<PeIatXref>,
    ) -> bool {
        let import = imports[index];
        &&& self.library_name@ == import.library_name
        &&& self.function_name@ == import.function_name
        &&& self.ordinal == import.ordinal
        &&& self.iat_rva == import.iat_rva
        &&& self.iat_address == base_address.checked_add(import.iat_rva)
        &&& self.iat_file_offset == import.file_offset
        &&& self.xrefs@ == xrefs_to(base_address, xrefs, xrefs.len() as int, import.iat_rva)
    }
}

/// Whether records hold every import, in order, with the references grouped.
pub open spec fn grouped_imports(
    infos: Seq<ProcessImportInfo>,
    base_address: usize,
    imports: Seq<ImportEntryView>,
    xrefs: Seq<PeIatXref>,
) -> bool {
    &&& infos.len() == imports.len()
    &&& forall|i: int|
        0 <= i < infos.len() ==> (#[trigger] infos[i]).groups(base_address, imports, i, xrefs)
}

/// Collects the references to one slot.
fn select_xrefs(base_address: usize, xrefs: &[PeIatXref], iat_rva: usize) -> (r: Vec<
    ProcessImportXref,
>)
    ensures
        r@ == xrefs_to(base_address, xrefs@, xrefs@.len() as int, iat_rva),
{
    let mut selected: Vec<ProcessImportXref> = Vec::new();
    let mut index: usize = 0;
    assert(selected@ =~= xrefs_to(base_address, xrefs@, 0, iat_rva));
    while index < xrefs.len()
        invariant
            index <= xrefs@.len(),
            selected@ == xrefs_to(base_address, xrefs@, index as int, iat_rva),
        decreases xrefs.len() - index,
    {
        let xref = xrefs[index];
        if xref.iat_rva == iat_rva {
            selected.push(
                ProcessImportXref {
                    kind: xref.kind,
                    instruction_rva: xref.instruction_rva,
                    instruction_address: base_address.checked_add(xref.instruction_rva),
                    instruction_file_offset: xref.file_offset,
                },
            );
        }
        index += 1;
    }
    selected
}

/// Groups flat IAT xrefs into their owning process import records.
pub fn build_process_import_info(
    module_base_address: usize,
    imports: &[PeImportEntry],
    xrefs: &[PeIatXref],
) -> (r: Vec<ProcessImportInfo>)
    ensures
        grouped_imports(r@, module_base_address, entry_views(imports@), xrefs@),
{
    let ghost views = entry_views(imports@);
    let mut grouped: Vec<ProcessImportInfo> = Vec::with_capacity(imports.len());
    let mut index: usize = 0;
    while index < imports.len()
        invariant
            index <= imports@.len(),
            views == entry_views(imports@),
            grouped@.len() == index,
            forall|i: int|
                0 <= i < index ==> (#[trigger] grouped@[i]).groups(
                    module_base_address,
                    views,
                    i,
                    xrefs@,
                ),
        decreases imports.len() - index,
    {
        let import = &imports[index];
        assert(views[index as int] == import@);
        let iat_rva: usize = import.iat_rva;
        let info = ProcessImportInfo {
            library_name: import.library_name.clone(),
            function_name: import.function_name.clone(),
            ordinal: import.ordinal,
            iat_rva,
            iat_address: module_base_address.checked_add(iat_rva),
            iat_file_offset: import.file_offset,
            xrefs: select_xrefs(module_base_address, xrefs, iat_rva),
        };
        assert(info.groups(module_base_address, views, index as int, xrefs@));
        grouped.push(info);
        index += 1;
    }
    grouped
}

/// The slots of all imports.
pub open spec fn import_slots(imports: Seq<ImportEntryView>) -> Set<usize> {
    imports.map_values(|import: ImportEntryView| import.iat_rva).to_set()
}

/// Collects the slots of all imports.
fn collect_slots(imports: &[PeImportEntry]) -> (r: HashSet<usize>)
    ensures
        r@ == import_slots(entry_views(imports@)),
{
    let ghost slots = entry_views(imports@).map_values(|import: ImportEntryView| import.iat_rva);
    let mut targets: HashSet<usize> = HashSet::new();
    let mut index: usize = 0;
    assert(targets@ =~= slots.subrange(0, 0).to_set());
    while index < imports.len()
        invariant
            index <= imports@.len(),
            slots == entry_views(imports@).map_values(|import: ImportEntryView| import.iat_rva),
            targets@ == slots.subrange(0, index as int).to_set(),
        decreases imports.len() - index,
    {
        let ghost before = slots.subrange(0, index as int);
        let ghost after = slots.subrange(0, index + 1);
        targets.insert(imports[index].iat_rva);
        proof {
            assert(slots[index as int] == imports@[index as int].iat_rva);
            assert(after =~= before.push(slots[index as int]));
            assert forall|iat: usize| after.to_set().contains(iat) <==> before.to_set().insert(
                slots[index as int],
            ).contains(iat) by {
                if before.contains(iat) {
                    let i = before.index_of(iat);
                    assert(after[i] == iat);
                }
                if iat == slots[index as int] {
                    assert(after[index as int] == iat);
                }
                if after.contains(iat) {
                    let i = after.index_of(iat);
                    if i < index {
                        assert(before[i] == iat);
                    }
                }
            }
            assert(targets@ =~= after.to_set());
        }
        index += 1;
    }
    assert(slots.subrange(0, index as int) =~= slots);
    targets
}

/// What the imports of an image with references are: every import, with the references of some
/// instruction order grouped by slot.
pub open spec fn imports_collected(
    infos: Seq<ProcessImportInfo>,
    base_address: usize,
    data: Seq<u8>,
    pe: PeImage,
) -> bool {
    let imports = import_entries(data, pe);
    exists|xrefs: Seq<PeIatXref>| #[trigger]
        grouped_imports(infos, base_address, imports, xrefs) && ordered(xrefs)
            && xrefs.to_multiset() == section_xrefs(
            data,
            pe,
            import_slots(imports),
            pe.sections@.len() as int,
        ).to_multiset()
}

/// The updates of an import collection, appended to `earlier`.
pub open spec fn import_updates(
    data: Seq<u8>,
    pe: PeImage,
    earlier: Seq<(usize, usize)>,
) -> Seq<(usize, usize)> {
    if import_entries(data, pe).len() == 0 {
        earlier.push((0, 0))
    } else {
        section_xref_updates(
            data.len() as int,
            pe.sections@,
            pe.sections@.len() as int,
            executable_bytes(pe.sections@, pe.sections@.len() as int, data.len() as int),
            earlier,
        )
    }
}

/// Builds grouped process import records from loaded module bytes.
pub fn collect_process_import_info<P: Progress>(
    module_base_address: usize,
    pe_data: &[u8],
    pe: &PeImage,
    progress: &mut P,
) -> (r: Vec<ProcessImportInfo>)
    requires
        pe.wf(),
    ensures
        import_entries(pe_data@, *pe).len() == 0 ==> r@.len() == 0,
        import_entries(pe_data@, *pe).len() != 0 ==> imports_collected(
            r@,
            module_base_address,
            pe_data@,
            *pe,
        ),
        final(progress).updates() == import_updates(pe_data@, *pe, old(progress).updates()),
{
    let imports = collect_import_entries_from_pe(pe_data, pe);
    let ghost views = entry_views(imports@);
    assert(views.len() == imports@.len());
    if imports.len() == 0 {
        progress.update(0, 0);
        return Vec::new();
    }
    let targets = collect_slots(&imports);
    proof {
        let slots = views.map_values(|import: ImportEntryView| import.iat_rva);
        assert(slots.contains(slots[0]));
        assert(targets@.contains(slots[0]));
        assert(targets@.len() != 0);
    }
    let xrefs = collect_iat_xrefs_for_targets(pe_data, pe, &targets, progress);
    let infos = build_process_import_info(module_base_address, &imports, &xrefs);
    assert(grouped_imports(infos@, module_base_address, views, xrefs@));
    infos
}

/// Collects main-module imports from a previously validated process image snapshot.
pub fn collect_process_imports_from_snapshot<P: Progress>(
    process: &ValidatedProcessPe,
    snapshot: &ValidatedPeSnapshot,
    progress: &mut P,
) -> (r: Result<ProcessImportCollection, ProcessImportCollectionError>)
    requires
        snapshot.pe.wf(),
    ensures
        match unavailable_import_range(*snapshot) {
            Some(range) => {
                &&& r == Err::<ProcessImportCollection, _>(
                    ProcessImportCollectionError::IncompleteMainModuleSnapshot {
                        rva: range.rva,
                        size: range.size,
                    },
                )
                &&& final(progress).updates() == old(progress).updates()
            },
            None => {
                &&& r is Ok
                &&& r->Ok_0.module_base_address == process.image.base_address
                &&& r->Ok_0.module_size == process.image.image_size
                &&& import_entries(snapshot.bytes@, snapshot.pe).len() == 0
                    ==> r->Ok_0.imports@.len() == 0
                &&& import_entries(snapshot.bytes@, snapshot.pe).len() != 0 ==> imports_collected(
                    r->Ok_0.imports@,
                    process.image.base_address,
                    snapshot.bytes@,
                    snapshot.pe,
                )
                &&& r->Ok_0.unavailable_ranges@ == snapshot.unavailable_ranges@
                &&& final(progress).updates() == import_updates(
                    snapshot.bytes@,
                    snapshot.pe,
                    old(progress).updates(),
                )
            },
        },
{
    match find_unavailable_import_range(snapshot) {
        Some(range) => {
            return Err(
                ProcessImportCollectionError::IncompleteMainModuleSnapshot {
                    rva: range.rva,
                    size: range.size,
                },
            );
        },
        None => {},
    }
    let imports = collect_process_import_info(
        process.image.base_address,
        &snapshot.bytes,
        &snapshot.pe,
        progress,
    );
    Ok(
        ProcessImportCollection {
            module_base_address: process.image.base_address,
            module_size: process.image.image_size,
            imports,
            unavailable_ranges: vstd::slice::slice_to_vec(&snapshot.unavailable_ranges),
        },
    )
}

/// A reference among the first `count` to a slot is selected for it.
proof fn lemma_selected(base_address: usize, xrefs: Seq<PeIatXref>, count: int, k: int)
    requires
        0 <= k < count <= xrefs.len(),
    ensures
        xrefs_to(base_address, xrefs, count, xrefs[k].iat_rva).contains(
            process_xref(base_address, xrefs[k]),
        ),
    decreases count,
{
    let slot = xrefs[k].iat_rva;
    let all = xrefs_to(base_address, xrefs, count, slot);
    let hit = process_xref(base_address, xrefs[k]);
    if k == count - 1 {
        assert(all.last() == hit);
    } else {
        lemma_selected(base_address, xrefs, count - 1, k);
        let before = xrefs_to(base_address, xrefs, count - 1, slot);
        let i = before.index_of(hit);
        assert(all[i] == hit);
    }
}

/// Every reference to the slot of an import is kept with that import, whether or not another
/// import has the same slot.
pub proof fn law_every_reference_is_grouped(
    infos: Seq<ProcessImportInfo>,
    base_address: usize,
    imports: Seq<ImportEntryView>,
    xrefs: Seq<PeIatXref>,
    index: int,
    k: int,
)
    requires
        grouped_imports(infos, base_address, imports, xrefs),
        0 <= index < imports.len(),
        0 <= k < xrefs.len(),
        xrefs[k].iat_rva == imports[index].iat_rva,
    ensures
        infos[index].xrefs@.contains(process_xref(base_address, xrefs[k])),
{
    lemma_selected(base_address, xrefs, xrefs.len() as int, k);
    assert(infos[index].groups(base_address, imports, index, xrefs));
}

} // verus!
