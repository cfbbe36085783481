//! Location of the primary code section of a mapped image.

use vstd::prelude::*;

use crate::bytes::{get_u32, le32};
use crate::pe::headers::{parse_error, parse_outcome, parse_pe};
use crate::pe::layout::validate_parsed_pe;
use crate::pe::locate::{
    data_directory, decode_section_name, get_data_directory, get_mapped_section_size, mapped_end,
    mapped_size, section_name,
};
use crate::pe::types::{PeImage, SectionHeader};
use crate::text::{ascii_lowercase, lower_text, text_equal};
use crate::windows::{
    IMAGE_DIRECTORY_ENTRY_EXCEPTION, IMAGE_SCN_CNT_CODE, IMAGE_SCN_MEM_DISCARDABLE,
    IMAGE_SCN_MEM_EXECUTE, IMAGE_SCN_MEM_READ, IMAGE_SCN_MEM_WRITE,
};

verus! {

/// Byte size of one x64 runtime-function table entry.
pub const RUNTIME_FUNCTION_ENTRY_SIZE: usize = 12;

/// The bounds of one x64 runtime function.
#[derive(Clone, Copy, Debug, Eq, PartialEq, Structural)]
pub struct RuntimeFunctionRange {
    pub begin_rva: usize,
    pub end_rva: usize,
}

/// Expresses how strongly independent PE signals support the selected primary code section.
#[derive(Clone, Copy, Debug, Eq, PartialEq, Structural)]
pub enum CodeSectionConfidence {
    Low,
    Medium,
    High,
}

/// Reports whether x64 exception-directory function metadata corroborated the selection.
#[derive(Clone, Copy, Debug, Eq, PartialEq, Structural)]
pub enum RuntimeFunctionEvidence {
    NotPresent,
    Valid,
    Invalid,
}

/// Describes one mapped PE section and the code-location evidence associated with it.
#[derive(Clone, Debug, Eq, PartialEq)]
pub struct CodeSectionLocation {
    pub name: String,
    pub rva: usize,
    pub virtual_size: usize,
    pub raw_size: usize,
    pub mapped_size: usize,
    pub characteristics: u32,
    pub contains_entry_point: bool,
    pub contains_base_of_code: bool,
    pub runtime_function_count: usize,
    pub runtime_code_bytes: usize,
}

/// The mathematical value of a section location.
pub ghost struct LocationView {
    pub name: Seq<char>,
    pub rva: usize,
    pub virtual_size: usize,
    pub raw_size: usize,
    pub mapped_size: usize,
    pub characteristics: u32,
    pub contains_entry_point: bool,
    pub contains_base_of_code: bool,
    pub runtime_function_count: usize,
    pub runtime_code_bytes: usize,
}

impl View for CodeSectionLocation {
    type V = LocationView;

    open spec fn view(&self) -> LocationView {
        LocationView {
            name: self.name@,
            rva: self.rva,
            virtual_size: self.virtual_size,
            raw_size: self.raw_size,
            mapped_size: self.mapped_size,
            characteristics: self.characteristics,
            contains_entry_point: self.contains_entry_point,
            contains_base_of_code: self.contains_base_of_code,
            runtime_function_count: self.runtime_function_count,
            runtime_code_bytes: self.runtime_code_bytes,
        }
    }
}

/// Owns the selected primary code section and the independently located loader entry section.
#[derive(Clone, Debug, Eq, PartialEq)]
pub struct CodeSectionAnalysis {
    pub primary: CodeSectionLocation,
    pub entry_point: Option<CodeSectionLocation>,
    pub confidence: CodeSectionConfidence,
    pub candidate_count: usize,
    pub image_complete: bool,
    pub section_ranges_valid: bool,
    pub section_layout_valid: bool,
    pub overlapping_sections: bool,
    pub runtime_function_evidence: RuntimeFunctionEvidence,
}

/// Holds ranking state for one structurally valid mapped section.
#[derive(Clone, Debug, Eq, PartialEq)]
pub struct CodeSectionCandidate {
    pub location: CodeSectionLocation,
    pub end_rva: usize,
    pub score: i32,
}

/// The mathematical value of a candidate.
pub ghost struct CandidateView {
    pub location: LocationView,
    pub end_rva: usize,
    pub score: i32,
}

impl View for CodeSectionCandidate {
    type V = CandidateView;

    open spec fn view(&self) -> CandidateView {
        CandidateView { location: self.location@, end_rva: self.end_rva, score: self.score }
    }
}

/// The views of a run of candidates.
pub open spec fn candidate_views(candidates: Seq<CodeSectionCandidate>) -> Seq<CandidateView> {
    candidates.map_values(|candidate: CodeSectionCandidate| candidate@)
}

/// Whether a section with mapped bytes ends inside the image and inside `len` bytes.
pub open spec fn range_fits(section: SectionHeader, image_size: int, len: int) -> bool {
    mapped_end(section) <= usize::MAX && mapped_end(section) <= image_size && mapped_end(section)
        <= len
}

/// Whether `rva` is given and lies in the mapped span of `section`.
pub open spec fn holds_rva(section: SectionHeader, rva: u32) -> bool {
    rva != 0 && section.virtual_address <= rva < mapped_end(section)
}

/// The candidate that a section is before any evidence was collected.
pub open spec fn candidate_of(pe: PeImage, section: SectionHeader) -> CandidateView {
    let opt = pe.nt_headers.optional_header;
    CandidateView {
        location: LocationView {
            name: section_name(section),
            rva: section.virtual_address as usize,
            virtual_size: section.virtual_size as usize,
            raw_size: section.size_of_raw_data as usize,
            mapped_size: mapped_size(section) as usize,
            characteristics: section.characteristics,
            contains_entry_point: holds_rva(section, opt.address_of_entry_point),
            contains_base_of_code: holds_rva(section, opt.base_of_code),
            runtime_function_count: 0,
            runtime_code_bytes: 0,
        },
        end_rva: mapped_end(section) as usize,
        score: 0,
    }
}

/// The candidates among the first `count` sections: those with mapped bytes whose range fits.
pub open spec fn candidates_of(pe: PeImage, len: int, count: int) -> Seq<CandidateView>
    decreases count,
{
    if count <= 0 {
        Seq::empty()
    } else {
        let section = pe.sections@[count - 1];
        let image_size = pe.nt_headers.optional_header.size_of_image as int;
        if mapped_size(section) != 0 && range_fits(section, image_size, len) {
            candidates_of(pe, len, count - 1).push(candidate_of(pe, section))
        } else {
            candidates_of(pe, len, count - 1)
        }
    }
}

/// Whether the range of every section with mapped bytes fits.
pub open spec fn ranges_valid(pe: PeImage, len: int) -> bool {
    forall|i: int|
        0 <= i < pe.sections@.len() && mapped_size(#[trigger] pe.sections@[i]) != 0 ==> range_fits(
            pe.sections@[i],
            pe.nt_headers.optional_header.size_of_image as int,
            len,
        )
}

/// Whether a candidate holds `[start, end)`.
pub open spec fn candidate_holds(candidate: CandidateView, start: int, end: int) -> bool {
    candidate.location.rva <= start && end <= candidate.end_rva
}

/// How many of the first `count` candidates hold `[start, end)`.
pub open spec fn holder_count(
    candidates: Seq<CandidateView>,
    count: int,
    start: int,
    end: int,
) -> nat
    decreases count,
{
    if count <= 0 {
        0
    } else if candidate_holds(candidates[count - 1], start, end) {
        holder_count(candidates, count - 1, start, end) + 1
    } else {
        holder_count(candidates, count - 1, start, end)
    }
}

/// Counts the candidates that hold a range.
fn count_holders(candidates: &[CodeSectionCandidate], start: usize, end: usize) -> (r: usize)
    ensures
        r == holder_count(
            candidate_views(candidates@),
            candidates@.len() as int,
            start as int,
            end as int,
        ),
{
    let ghost views = candidate_views(candidates@);
    let mut holders: usize = 0;
    let mut index: usize = 0;
    while index < candidates.len()
        invariant
            index <= candidates@.len(),
            holders <= index,
            views == candidate_views(candidates@),
            holders == holder_count(views, index as int, start as int, end as int),
        decreases candidates.len() - index,
    {
        assert(views[index as int] == candidates@[index as int]@);
        if start >= candidates[index].location.rva && end <= candidates[index].end_rva {
            holders += 1;
        }
        index += 1;
    }
    holders
}

/// The payload bytes of an unwind record by its version and unit count.
pub open spec fn unwind_payload(version: int, units: int) -> int {
    if version == 3 {
        units * 2
    } else {
        (units + 1) / 2 * 2 * 2
    }
}

/// The exclusive end of the unwind record at `rva`: header, payload, and, behind alignment, a
/// handler or a chained entry.
pub open spec fn unwind_end(data: Seq<u8>, rva: int) -> int {
    let flags = data[rva] as int / 8;
    let payload_end = rva + 4 + unwind_payload(data[rva] as int % 8, data[rva + 2] as int);
    if flags / 4 % 2 == 1 {
        (payload_end + 3) / 4 * 4 + 12
    } else if flags % 4 != 0 {
        (payload_end + 3) / 4 * 4 + 4
    } else {
        payload_end
    }
}

/// Whether the flags of the unwind record at `rva` suit its version and each other.
pub open spec fn unwind_flags_valid(data: Seq<u8>, rva: int) -> bool {
    let version = data[rva] as int % 8;
    let flags = data[rva] as int / 8;
    &&& 1 <= version <= 3
    &&& version <= 2 ==> flags < 8
    &&& version == 3 ==> flags < 16
    &&& !(flags % 4 != 0 && flags / 4 % 2 == 1)
    &&& !(version == 3 && flags / 8 % 2 == 1 && data[rva + 2] == 0)
}

/// Whether the unwind record at `rva` is aligned, well formed, and lies in exactly one candidate.
pub open spec fn unwind_valid(
    data: Seq<u8>,
    image_size: int,
    candidates: Seq<CandidateView>,
    rva: int,
) -> bool {
    &&& rva % 4 == 0
    &&& rva + 4 <= image_size
    &&& rva + 4 <= data.len()
    &&& unwind_flags_valid(data, rva)
    &&& unwind_end(data, rva) <= image_size
    &&& unwind_end(data, rva) <= data.len()
    &&& holder_count(candidates, candidates.len() as int, rva, unwind_end(data, rva)) == 1
}

/// Validates the mapped minimum extent of one x64 `UNWIND_INFO` record.
pub fn validate_unwind_info(
    pe_data: &[u8],
    image_size: usize,
    candidates: &[CodeSectionCandidate],
    unwind_info_rva: usize,
) -> (r: bool)
    ensures
        r == unwind_valid(
            pe_data@,
            image_size as int,
            candidate_views(candidates@),
            unwind_info_rva as int,
        ),
{
    let header_end: usize = match unwind_info_rva.checked_add(4) {
        Some(value) => value,
        None => return false,
    };
    if unwind_info_rva % 4 != 0 || header_end > image_size || header_end > pe_data.len() {
        return false;
    }
    let version: u8 = pe_data[unwind_info_rva] % 8;
    let flags: u8 = pe_data[unwind_info_rva] / 8;
    let units: usize = pe_data[unwind_info_rva + 2] as usize;
    if version < 1 || version > 3 {
        return false;
    }
    if (version <= 2 && flags >= 8) || (version == 3 && flags >= 16) {
        return false;
    }
    let has_handler: bool = flags % 4 != 0;
    let has_chained_info: bool = flags / 4 % 2 == 1;
    if has_handler && has_chained_info {
        return false;
    }
    if version == 3 && flags / 8 % 2 == 1 && units == 0 {
        return false;
    }
    let payload_bytes: usize = if version == 3 {
        units * 2
    } else {
        (units + 1) / 2 * 2 * 2
    };
    let payload_end: usize = match header_end.checked_add(payload_bytes) {
        Some(value) => value,
        None => return false,
    };
    let record_end: usize = if has_handler || has_chained_info {
        let trailer_size: usize = if has_chained_info {
            12
        } else {
            4
        };
        let aligned: usize = match payload_end.checked_add(3) {
            Some(value) => value / 4 * 4,
            None => return false,
        };
        match aligned.checked_add(trailer_size) {
            Some(value) => value,
            None => return false,
        }
    } else {
        payload_end
    };
    if record_end > image_size || record_end > pe_data.len() {
        return false;
    }
    count_holders(candidates, unwind_info_rva, record_end) == 1
}

/// The index of the last of the first `count` candidates that holds `[start, end)`.
pub open spec fn last_holder(
    candidates: Seq<CandidateView>,
    count: int,
    start: int,
    end: int,
) -> int
    decreases count,
{
    if count <= 0 {
        -1
    } else if candidate_holds(candidates[count - 1], start, end) {
        count - 1
    } else {
        last_holder(candidates, count - 1, start, end)
    }
}

/// What has been read of the runtime-function table: whether it is consistent so far, the begin of
/// the last entry with valid bounds, and each candidate's functions and covered bytes.
pub ghost struct EvidenceState {
    pub valid: bool,
    pub previous: Option<usize>,
    pub counts: Seq<(usize, usize)>,
}

/// The state after the runtime-function entry at `at`.
pub open spec fn evidence_step(
    data: Seq<u8>,
    image_size: int,
    candidates: Seq<CandidateView>,
    at: int,
    state: EvidenceState,
) -> EvidenceState {
    let begin = le32(data, at);
    let end = le32(data, at + 4);
    let unwind = le32(data, at + 8);
    let holders = holder_count(candidates, candidates.len() as int, begin as int, end as int);
    let holder = last_holder(candidates, candidates.len() as int, begin as int, end as int);
    if begin >= end || end > image_size {
        EvidenceState { valid: false, ..state }
    } else {
        let ascending = state.previous is None || begin > state.previous->0;
        let next = EvidenceState {
            valid: state.valid && ascending,
            previous: Some(begin as usize),
            ..state
        };
        if !unwind_valid(data, image_size, candidates, unwind as int) || holders != 1 {
            EvidenceState { valid: false, ..next }
        } else {
            EvidenceState {
                counts: next.counts.update(
                    holder,
                    (
                        (next.counts[holder].0 + 1) as usize,
                        next.counts[holder].1.saturating_add((end - begin) as usize),
                    ),
                ),
                ..next
            }
        }
    }
}

/// The functions and covered bytes that candidates have.
pub open spec fn counts_of(candidates: Seq<CandidateView>) -> Seq<(usize, usize)> {
    Seq::new(
        candidates.len(),
        |i: int|
            (
                candidates[i].location.runtime_function_count,
                candidates[i].location.runtime_code_bytes,
            ),
    )
}

/// The state after the first `count` entries of the table at `start`, added to what the candidates
/// have.
pub open spec fn evidence_after(
    data: Seq<u8>,
    image_size: int,
    candidates: Seq<CandidateView>,
    start: int,
    count: int,
    valid: bool,
) -> EvidenceState
    decreases count,
{
    if count <= 0 {
        EvidenceState {
            valid,
            previous: None,
            counts: counts_of(candidates),
        }
    } else {
        evidence_step(
            data,
            image_size,
            candidates,
            start + (count - 1) * RUNTIME_FUNCTION_ENTRY_SIZE,
            evidence_after(data, image_size, candidates, start, count - 1, valid),
        )
    }
}

/// Whether some candidate holds `[start, end)`.
pub open spec fn some_holder(candidates: Seq<CandidateView>, start: int, end: int) -> bool {
    exists|i: int| 0 <= i < candidates.len() && candidate_holds(#[trigger] candidates[i], start, end)
}

/// The runtime-function table of an image, when its directory has one that can be read: its RVA
/// and size.
pub open spec fn function_table(
    pe: PeImage,
    len: int,
    candidates: Seq<CandidateView>,
) -> Result<Option<(int, int)>, ()> {
    match data_directory(pe.nt_headers@, IMAGE_DIRECTORY_ENTRY_EXCEPTION as int) {
        None => Ok(None),
        Some(directory) => {
            let rva = directory.virtual_address as int;
            let size = directory.size as int;
            if rva == 0 && size == 0 {
                Ok(None)
            } else if rva == 0 || size == 0 || rva % 4 != 0 || rva + size
                > pe.nt_headers.optional_header.size_of_image || rva + size > len
                || !some_holder(candidates, rva, rva + size) {
                Err(())
            } else {
                Ok(Some((rva, size)))
            }
        },
    }
}

/// The state after the whole runtime-function table of size `size` at `rva`.
pub open spec fn table_evidence(
    data: Seq<u8>,
    pe: PeImage,
    candidates: Seq<CandidateView>,
    rva: int,
    size: int,
) -> EvidenceState {
    evidence_after(
        data,
        pe.nt_headers.optional_header.size_of_image as int,
        candidates,
        rva,
        size / RUNTIME_FUNCTION_ENTRY_SIZE as int,
        size % RUNTIME_FUNCTION_ENTRY_SIZE as int == 0,
    )
}

/// What the exception directory says of the candidates.
pub open spec fn runtime_evidence(
    data: Seq<u8>,
    pe: PeImage,
    candidates: Seq<CandidateView>,
) -> RuntimeFunctionEvidence {
    match function_table(pe, data.len() as int, candidates) {
        Ok(None) => RuntimeFunctionEvidence::NotPresent,
        Err(()) => RuntimeFunctionEvidence::Invalid,
        Ok(Some((rva, size))) => if table_evidence(data, pe, candidates, rva, size).valid {
            RuntimeFunctionEvidence::Valid
        } else {
            RuntimeFunctionEvidence::Invalid
        },
    }
}

/// The candidates with the functions and covered bytes of the table added, those of an
/// inconsistent one included.
pub open spec fn with_evidence(
    data: Seq<u8>,
    pe: PeImage,
    candidates: Seq<CandidateView>,
) -> Seq<CandidateView> {
    match function_table(pe, data.len() as int, candidates) {
        Ok(Some((rva, size))) => with_counts(
            candidates,
            table_evidence(data, pe, candidates, rva, size).counts,
        ),
        _ => candidates,
    }
}

/// The candidates without functions and covered bytes.
pub open spec fn without_counts(candidates: Seq<CandidateView>) -> Seq<CandidateView> {
    with_counts(candidates, Seq::new(candidates.len(), |i: int| (0usize, 0usize)))
}

/// The candidates that are ranked: what an inconsistent table gave is dropped.
pub open spec fn settled_candidates(
    data: Seq<u8>,
    pe: PeImage,
    candidates: Seq<CandidateView>,
) -> Seq<CandidateView> {
    if runtime_evidence(data, pe, candidates) == RuntimeFunctionEvidence::Invalid {
        without_counts(with_evidence(data, pe, candidates))
    } else {
        with_evidence(data, pe, candidates)
    }
}

/// The candidates with these functions and covered bytes.
pub open spec fn with_counts(
    candidates: Seq<CandidateView>,
    counts: Seq<(usize, usize)>,
) -> Seq<CandidateView> {
    Seq::new(
        candidates.len(),
        |i: int|
            CandidateView {
                location: LocationView {
                    runtime_function_count: counts[i].0,
                    runtime_code_bytes: counts[i].1,
                    ..candidates[i].location
                },
                ..candidates[i]
            },
    )
}

/// Finds the last candidate that holds a range.
fn find_last_holder(candidates: &[CodeSectionCandidate], start: usize, end: usize) -> (r: Option<
    usize,
>)
    ensures
        match r {
            Some(index) => index < candidates@.len() && index == last_holder(
                candidate_views(candidates@),
                candidates@.len() as int,
                start as int,
                end as int,
            ),
            None => last_holder(
                candidate_views(candidates@),
                candidates@.len() as int,
                start as int,
                end as int,
            ) == -1,
        },
{
    let ghost views = candidate_views(candidates@);
    let mut index: usize = candidates.len();
    while index > 0
        invariant
            index <= candidates@.len(),
            views == candidate_views(candidates@),
            last_holder(views, candidates@.len() as int, start as int, end as int) == last_holder(
                views,
                index as int,
                start as int,
                end as int,
            ),
        decreases index,
    {
        assert(views[index - 1] == candidates@[index - 1]@);
        if start >= candidates[index - 1].location.rva && end <= candidates[index - 1].end_rva {
            return Some(index - 1);
        }
        index -= 1;
    }
    None
}

/// A held range has a last holder.
proof fn lemma_last_holder(candidates: Seq<CandidateView>, count: int, start: int, end: int)
    requires
        0 <= count <= candidates.len(),
        holder_count(candidates, count, start, end) > 0,
    ensures
        0 <= last_holder(candidates, count, start, end) < count,
    decreases count,
{
    if count > 0 && !candidate_holds(candidates[count - 1], start, end) {
        lemma_last_holder(candidates, count - 1, start, end);
    }
}

/// Whether the function counts can take one more for each table entry that `len` bytes hold.
pub open spec fn counts_leave_room(candidates: Seq<CandidateView>, len: nat) -> bool {
    forall|i: int|
        0 <= i < candidates.len() ==> (#[trigger] candidates[i]).location.runtime_function_count
            + len / RUNTIME_FUNCTION_ENTRY_SIZE as nat <= usize::MAX
}

/// Reads the entries of a runtime-function table that lies inside the data: whether they are
/// consistent, and each candidate's functions and covered bytes.
fn read_function_table(
    pe_data: &[u8],
    image_size: usize,
    candidates: &[CodeSectionCandidate],
    directory_rva: usize,
    directory_size: usize,
) -> (r: (bool, Vec<(usize, usize)>))
    requires
        directory_rva + directory_size <= pe_data@.len(),
        counts_leave_room(candidate_views(candidates@), pe_data@.len()),
    ensures
        ({
            let state = evidence_after(
                pe_data@,
                image_size as int,
                candidate_views(candidates@),
                directory_rva as int,
                directory_size as int / RUNTIME_FUNCTION_ENTRY_SIZE as int,
                directory_size as int % RUNTIME_FUNCTION_ENTRY_SIZE as int == 0,
            );
            r.0 == state.valid && r.1@ == state.counts
        }),
{
    let ghost views = candidate_views(candidates@);
    let entry_count: usize = directory_size / RUNTIME_FUNCTION_ENTRY_SIZE;
    let starts_valid: bool = directory_size % RUNTIME_FUNCTION_ENTRY_SIZE == 0;
    let mut metadata_valid: bool = starts_valid;
    let mut previous_begin_rva: Option<usize> = None;
    let mut counts: Vec<(usize, usize)> = Vec::with_capacity(candidates.len());
    let mut slot: usize = 0;
    while slot < candidates.len()
        invariant
            slot <= candidates@.len(),
            views == candidate_views(candidates@),
            counts@.len() == slot,
            forall|i: int| 0 <= i < slot ==> counts@[i] == counts_of(views)[i],
        decreases candidates.len() - slot,
    {
        assert(views[slot as int] == candidates@[slot as int]@);
        counts.push(
            (
                candidates[slot].location.runtime_function_count,
                candidates[slot].location.runtime_code_bytes,
            ),
        );
        slot += 1;
    }
    assert(counts@ =~= counts_of(views));
    assert forall|i: int| 0 <= i < counts@.len() implies (#[trigger] counts@[i]).0 + entry_count
        <= usize::MAX by {
        assert(views[i].location.runtime_function_count + pe_data@.len()
            / RUNTIME_FUNCTION_ENTRY_SIZE as nat <= usize::MAX);
    }
    assert(pe_data.len() == pe_data@.len());
    let mut index: usize = 0;
    while index < entry_count
        invariant
            index <= entry_count,
            views == candidate_views(candidates@),
            views.len() == candidates@.len(),
            counts@.len() == candidates@.len(),
            directory_rva + entry_count * RUNTIME_FUNCTION_ENTRY_SIZE <= pe_data@.len(),
            pe_data@.len() <= usize::MAX,
            forall|i: int|
                0 <= i < counts@.len() ==> (#[trigger] counts@[i]).0 + (entry_count - index)
                    <= usize::MAX,
            evidence_after(
                pe_data@,
                image_size as int,
                views,
                directory_rva as int,
                index as int,
                starts_valid,
            ) == (EvidenceState {
                valid: metadata_valid,
                previous: previous_begin_rva,
                counts: counts@,
            }),
        decreases entry_count - index,
    {
        assert((index + 1) * RUNTIME_FUNCTION_ENTRY_SIZE <= entry_count
            * RUNTIME_FUNCTION_ENTRY_SIZE);
        let at: usize = directory_rva + index * RUNTIME_FUNCTION_ENTRY_SIZE;
        let begin_rva: usize = get_u32(pe_data, at) as usize;
        let end_rva: usize = get_u32(pe_data, at + 4) as usize;
        let unwind_info_rva: usize = get_u32(pe_data, at + 8) as usize;
        if begin_rva >= end_rva || end_rva > image_size {
            metadata_valid = false;
        } else {
            match previous_begin_rva {
                Some(previous) => {
                    if begin_rva <= previous {
                        metadata_valid = false;
                    }
                },
                None => {},
            }
            previous_begin_rva = Some(begin_rva);
            if !validate_unwind_info(pe_data, image_size, candidates, unwind_info_rva)
                || count_holders(candidates, begin_rva, end_rva) != 1 {
                metadata_valid = false;
            } else {
                proof {
                    lemma_last_holder(
                        views,
                        views.len() as int,
                        begin_rva as int,
                        end_rva as int,
                    );
                }
                match find_last_holder(candidates, begin_rva, end_rva) {
                    Some(holder) => {
                        let (functions, bytes) = counts[holder];
                        assert(counts@[holder as int].0 + (entry_count - index) <= usize::MAX);
                        counts[holder] =
                        (functions + 1, bytes.saturating_add(end_rva - begin_rva));
                    },
                    None => {},
                }
            }
        }
        index += 1;
    }
    (metadata_valid, counts)
}

/// Gives candidates these functions and covered bytes.
fn store_counts(candidates: &mut Vec<CodeSectionCandidate>, counts: &[(usize, usize)])
    requires
        counts@.len() == old(candidates)@.len(),
    ensures
        candidate_views(final(candidates)@) == with_counts(
            candidate_views(old(candidates)@),
            counts@,
        ),
{
    let ghost views = candidate_views(candidates@);
    let ghost attributed = with_counts(views, counts@);
    let mut index: usize = 0;
    while index < candidates.len()
        invariant
            index <= candidates@.len(),
            candidates@.len() == views.len(),
            counts@.len() == views.len(),
            attributed == with_counts(views, counts@),
            forall|i: int|
                0 <= i < candidates@.len() ==> (#[trigger] candidates@[i])@ == (if i < index {
                    attributed[i]
                } else {
                    views[i]
                }),
        decreases candidates.len() - index,
    {
        let (functions, bytes) = counts[index];
        let ghost before = candidates@;
        assert(before[index as int]@ == views[index as int]);
        let name = candidates[index].location.name.clone();
        let updated = CodeSectionCandidate {
            location: CodeSectionLocation {
                name,
                rva: candidates[index].location.rva,
                virtual_size: candidates[index].location.virtual_size,
                raw_size: candidates[index].location.raw_size,
                mapped_size: candidates[index].location.mapped_size,
                characteristics: candidates[index].location.characteristics,
                contains_entry_point: candidates[index].location.contains_entry_point,
                contains_base_of_code: candidates[index].location.contains_base_of_code,
                runtime_function_count: functions,
                runtime_code_bytes: bytes,
            },
            end_rva: candidates[index].end_rva,
            score: candidates[index].score,
        };
        candidates[index] = updated;
        assert forall|i: int| 0 <= i < candidates@.len() implies (#[trigger] candidates@[i])@ == (
        if i < index + 1 {
            attributed[i]
        } else {
            views[i]
        }) by {
            if i != index {
                assert(candidates@[i] == before[i]);
            }
        }
        index += 1;
    }
    assert(candidate_views(candidates@) =~= attributed);
}

/// Takes functions and covered bytes from candidates.
fn reset_counts(candidates: &mut Vec<CodeSectionCandidate>)
    ensures
        candidate_views(final(candidates)@) == without_counts(candidate_views(old(candidates)@)),
{
    let mut counts: Vec<(usize, usize)> = Vec::with_capacity(candidates.len());
    let mut slot: usize = 0;
    while slot < candidates.len()
        invariant
            slot <= candidates@.len(),
            candidates@ == old(candidates)@,
            counts@.len() == slot,
            forall|i: int| 0 <= i < slot ==> counts@[i] == (0usize, 0usize),
        decreases candidates.len() - slot,
    {
        counts.push((0, 0));
        slot += 1;
    }
    assert(counts@ =~= Seq::new(
        candidate_views(candidates@).len(),
        |i: int| (0usize, 0usize),
    ));
    store_counts(candidates, &counts);
}

/// Attributes valid x64 exception-directory function ranges to their containing sections.
/// They are added to what the candidates have; a table that turns out to be inconsistent may leave
/// some of its functions behind.
pub fn collect_runtime_function_evidence(
    pe_data: &[u8],
    pe: &PeImage,
    candidates: &mut Vec<CodeSectionCandidate>,
) -> (r: RuntimeFunctionEvidence)
    requires
        pe.wf(),
        counts_leave_room(candidate_views(old(candidates)@), pe_data@.len()),
    ensures
        r == runtime_evidence(pe_data@, *pe, candidate_views(old(candidates)@)),
        candidate_views(final(candidates)@) == with_evidence(
            pe_data@,
            *pe,
            candidate_views(old(candidates)@),
        ),
{
    let ghost views = candidate_views(candidates@);
    let directory = match get_data_directory(pe, IMAGE_DIRECTORY_ENTRY_EXCEPTION) {
        Some(value) => value,
        None => return RuntimeFunctionEvidence::NotPresent,
    };
    let directory_rva: usize = directory.virtual_address as usize;
    let directory_size: usize = directory.size as usize;
    let image_size: usize = pe.nt_headers.optional_header.size_of_image as usize;
    if directory_rva == 0 && directory_size == 0 {
        return RuntimeFunctionEvidence::NotPresent;
    }
    if directory_rva == 0 || directory_size == 0 || directory_rva % 4 != 0 {
        return RuntimeFunctionEvidence::Invalid;
    }
    let directory_end: usize = match directory_rva.checked_add(directory_size) {
        Some(value) => value,
        None => return RuntimeFunctionEvidence::Invalid,
    };
    if directory_end > image_size || directory_end > pe_data.len() {
        return RuntimeFunctionEvidence::Invalid;
    }
    match find_last_holder(candidates, directory_rva, directory_end) {
        Some(holder) => {
            proof {
                lemma_holder_exists(
                    views,
                    views.len() as int,
                    directory_rva as int,
                    directory_end as int,
                );
            }
        },
        None => {
            proof {
                lemma_holder_exists(
                    views,
                    views.len() as int,
                    directory_rva as int,
                    directory_end as int,
                );
            }
            return RuntimeFunctionEvidence::Invalid;
        },
    }
    let (metadata_valid, counts) = read_function_table(
        pe_data,
        image_size,
        candidates,
        directory_rva,
        directory_size,
    );
    proof {
        lemma_counts_length(
            pe_data@,
            image_size as int,
            views,
            directory_rva as int,
            directory_size as int / RUNTIME_FUNCTION_ENTRY_SIZE as int,
            directory_size as int % RUNTIME_FUNCTION_ENTRY_SIZE as int == 0,
        );
    }
    store_counts(candidates, &counts);
    if metadata_valid {
        RuntimeFunctionEvidence::Valid
    } else {
        RuntimeFunctionEvidence::Invalid
    }
}

/// There is a last holder exactly when some candidate holds the range.
proof fn lemma_holder_exists(candidates: Seq<CandidateView>, count: int, start: int, end: int)
    requires
        0 <= count <= candidates.len(),
    ensures
        (last_holder(candidates, count, start, end) >= 0) == (exists|i: int|
            0 <= i < count && candidate_holds(#[trigger] candidates[i], start, end)),
    decreases count,
{
    if count > 0 {
        lemma_holder_exists(candidates, count - 1, start, end);
        if candidate_holds(candidates[count - 1], start, end) {
            assert(candidate_holds(candidates[count - 1], start, end));
        }
    }
}

/// The table gives one count for each candidate.
proof fn lemma_counts_length(
    data: Seq<u8>,
    image_size: int,
    candidates: Seq<CandidateView>,
    start: int,
    count: int,
    valid: bool,
)
    ensures
        evidence_after(data, image_size, candidates, start, count, valid).counts.len()
            == candidates.len(),
    decreases count,
{
    if count > 0 {
        lemma_counts_length(data, image_size, candidates, start, count - 1, valid);
        let at = start + (count - 1) * RUNTIME_FUNCTION_ENTRY_SIZE;
        let (begin, end) = (le32(data, at) as int, le32(data, at + 4) as int);
        if holder_count(candidates, candidates.len() as int, begin, end) == 1 {
            lemma_last_holder(candidates, candidates.len() as int, begin, end);
        }
    }
}

/// The largest function count among the first `count` candidates.
pub open spec fn largest_function_count(candidates: Seq<CandidateView>, count: int) -> usize
    decreases count,
{
    if count <= 0 {
        0
    } else {
        let before = largest_function_count(candidates, count - 1);
        let here = candidates[count - 1].location.runtime_function_count;
        if here > before {
            here
        } else {
            before
        }
    }
}

/// The largest covered byte count among the first `count` candidates.
pub open spec fn largest_code_bytes(candidates: Seq<CandidateView>, count: int) -> usize
    decreases count,
{
    if count <= 0 {
        0
    } else {
        let before = largest_code_bytes(candidates, count - 1);
        let here = candidates[count - 1].location.runtime_code_bytes;
        if here > before {
            here
        } else {
            before
        }
    }
}

/// Whether a name is one of the usual names of a code section, in any case.
pub open spec fn usual_code_name(name: Seq<char>) -> bool {
    lower_text(name) == ".text"@ || lower_text(name) == ".code"@ || lower_text(name) == "code"@
}

/// The points of a condition.
pub open spec fn points(condition: bool, value: int) -> int {
    if condition {
        value
    } else {
        0
    }
}

/// The points for what the headers say of a section.
pub open spec fn header_points(location: LocationView) -> int {
    let c = location.characteristics;
    points(location.contains_base_of_code, 45) + points(location.contains_entry_point, 35) + points(
        c & IMAGE_SCN_CNT_CODE != 0,
        30,
    ) + points(c & IMAGE_SCN_MEM_EXECUTE != 0, 30)
}

/// The points for functions of a trusted runtime table.
pub open spec fn function_points(
    location: LocationView,
    runtime_metadata_valid: bool,
    largest_functions: usize,
    largest_bytes: usize,
) -> int {
    if runtime_metadata_valid && location.runtime_function_count != 0 {
        25 + points(location.runtime_function_count == largest_functions, 35) + points(
            location.runtime_code_bytes == largest_bytes,
            20,
        )
    } else {
        0
    }
}

/// The points for looking like an ordinary code section.
pub open spec fn shape_points(location: LocationView) -> int {
    let c = location.characteristics;
    points(c & IMAGE_SCN_MEM_READ != 0, 5) + points(c & IMAGE_SCN_MEM_WRITE == 0, 30) - 25 - points(
        c & IMAGE_SCN_MEM_DISCARDABLE != 0,
        20,
    ) + points(usual_code_name(location.name), 4) - points(location.virtual_size == 0, 10)
}

/// The score of a candidate by header and runtime-table evidence.
pub open spec fn candidate_score(
    location: LocationView,
    runtime_metadata_valid: bool,
    largest_functions: usize,
    largest_bytes: usize,
) -> int {
    header_points(location) + function_points(
        location,
        runtime_metadata_valid,
        largest_functions,
        largest_bytes,
    ) + shape_points(location)
}

/// Reports whether a name is one of the usual names of a code section, in any case.
fn is_usual_code_name(name: &str) -> (r: bool)
    ensures
        r == usual_code_name(name@),
{
    let lowered = ascii_lowercase(name);
    text_equal(lowered.as_str(), ".text") || text_equal(lowered.as_str(), ".code") || text_equal(
        lowered.as_str(),
        "code",
    )
}

/// The points of a condition.
fn award(condition: bool, value: i32) -> (r: i32)
    requires
        0 <= value,
    ensures
        r == points(condition, value as int),
        0 <= r <= value,
{
    if condition {
        value
    } else {
        0
    }
}

/// Counts the points for what the headers say of a section.
fn count_header_points(location: &CodeSectionLocation) -> (r: i32)
    ensures
        r == header_points(location@),
        0 <= r <= 140,
{
    let base: i32 = award(location.contains_base_of_code, 45);
    let entry: i32 = award(location.contains_entry_point, 35);
    let code: i32 = award(location.characteristics & IMAGE_SCN_CNT_CODE != 0, 30);
    let execute: i32 = award(location.characteristics & IMAGE_SCN_MEM_EXECUTE != 0, 30);
    base + entry + code + execute
}

/// Counts the points for looking like an ordinary code section.
fn count_shape_points(location: &CodeSectionLocation) -> (r: i32)
    ensures
        r == shape_points(location@),
        -55 <= r <= 14,
{
    let readable: i32 = award(location.characteristics & IMAGE_SCN_MEM_READ != 0, 5);
    let constant: i32 = award(location.characteristics & IMAGE_SCN_MEM_WRITE == 0, 30);
    let discardable: i32 = award(location.characteristics & IMAGE_SCN_MEM_DISCARDABLE != 0, 20);
    let named: i32 = award(is_usual_code_name(location.name.as_str()), 4);
    let sizeless: i32 = award(location.virtual_size == 0, 10);
    readable + constant - 25 - discardable + named - sizeless
}

/// Scores one code-section candidate using independent header and runtime-table evidence.
pub fn score_code_section(
    candidate: &CodeSectionCandidate,
    runtime_metadata_valid: bool,
    largest_runtime_function_count: usize,
    largest_runtime_code_bytes: usize,
) -> (r: i32)
    ensures
        r == candidate_score(
            candidate.location@,
            runtime_metadata_valid,
            largest_runtime_function_count,
            largest_runtime_code_bytes,
        ),
{
    let location = &candidate.location;
    let functions: i32 = if runtime_metadata_valid && location.runtime_function_count != 0 {
        25 + award(location.runtime_function_count == largest_runtime_function_count, 35) + award(
            location.runtime_code_bytes == largest_runtime_code_bytes,
            20,
        )
    } else {
        0
    };
    count_header_points(location) + functions + count_shape_points(location)
}

/// The candidates with their scores.
pub open spec fn with_scores(
    candidates: Seq<CandidateView>,
    runtime_metadata_valid: bool,
) -> Seq<CandidateView> {
    Seq::new(
        candidates.len(),
        |i: int|
            CandidateView {
                score: candidate_score(
                    candidates[i].location,
                    runtime_metadata_valid,
                    largest_function_count(candidates, candidates.len() as int),
                    largest_code_bytes(candidates, candidates.len() as int),
                ) as i32,
                ..candidates[i]
            },
    )
}

/// Whether two mapped ranges among the candidates overlap.
pub open spec fn candidates_overlap(candidates: Seq<CandidateView>) -> bool {
    exists|i: int, j: int|
        0 <= i < j < candidates.len() && (#[trigger] candidates[i]).location.rva < (
        #[trigger] candidates[j]).end_rva && candidates[j].location.rva < candidates[i].end_rva
}

/// Detects ambiguous mapped ranges among structurally valid PE sections.
pub fn has_overlapping_sections(candidates: &[CodeSectionCandidate]) -> (r: bool)
    ensures
        r == candidates_overlap(candidate_views(candidates@)),
{
    let ghost views = candidate_views(candidates@);
    let mut left: usize = 0;
    while left < candidates.len()
        invariant
            left <= candidates@.len(),
            views == candidate_views(candidates@),
            forall|i: int, j: int|
                0 <= i < left && i < j < views.len() ==> !((#[trigger] views[i]).location.rva < (
                #[trigger] views[j]).end_rva && views[j].location.rva < views[i].end_rva),
        decreases candidates.len() - left,
    {
        let mut right: usize = left + 1;
        while right < candidates.len()
            invariant
                left < candidates@.len(),
                left < right <= candidates@.len(),
                views == candidate_views(candidates@),
                forall|j: int|
                    left < j < right ==> !(views[left as int].location.rva < (
                    #[trigger] views[j]).end_rva && views[j].location.rva
                        < views[left as int].end_rva),
            decreases candidates.len() - right,
        {
            assert(views[left as int] == candidates@[left as int]@);
            assert(views[right as int] == candidates@[right as int]@);
            if candidates[left].location.rva < candidates[right].end_rva
                && candidates[right].location.rva < candidates[left].end_rva {
                return true;
            }
            right += 1;
        }
        left += 1;
    }
    false
}

/// Whether a candidate carries credible code evidence.
pub open spec fn code_candidate(candidate: CandidateView, runtime_metadata_valid: bool) -> bool {
    candidate.location.characteristics & (IMAGE_SCN_CNT_CODE | IMAGE_SCN_MEM_EXECUTE) != 0 || (
    runtime_metadata_valid && candidate.location.runtime_function_count != 0)
}

/// Whether `left` ranks before `right`: by score, functions, covered bytes, mapped size, and then
/// the lower RVA.
pub open spec fn ranks_before(left: CandidateView, right: CandidateView) -> bool {
    let (l, r) = (left.location, right.location);
    if left.score != right.score {
        left.score > right.score
    } else if l.runtime_function_count != r.runtime_function_count {
        l.runtime_function_count > r.runtime_function_count
    } else if l.runtime_code_bytes != r.runtime_code_bytes {
        l.runtime_code_bytes > r.runtime_code_bytes
    } else if l.mapped_size != r.mapped_size {
        l.mapped_size > r.mapped_size
    } else {
        l.rva < r.rva
    }
}

/// The first of the first `count` candidates that none of them ranks before, among those with
/// code evidence.
pub open spec fn best_candidate(
    candidates: Seq<CandidateView>,
    runtime_metadata_valid: bool,
    count: int,
) -> Option<int>
    decreases count,
{
    if count <= 0 {
        None
    } else {
        let before = best_candidate(candidates, runtime_metadata_valid, count - 1);
        if !code_candidate(candidates[count - 1], runtime_metadata_valid) {
            before
        } else if before is None || ranks_before(candidates[count - 1], candidates[before->0]) {
            Some(count - 1)
        } else {
            before
        }
    }
}

/// The best score among the first `count` candidates with code evidence, other than `best`.
pub open spec fn runner_up(
    candidates: Seq<CandidateView>,
    runtime_metadata_valid: bool,
    best: int,
    count: int,
) -> Option<i32>
    decreases count,
{
    if count <= 0 {
        None
    } else {
        let before = runner_up(candidates, runtime_metadata_valid, best, count - 1);
        let here = candidates[count - 1].score;
        if count - 1 == best || !code_candidate(candidates[count - 1], runtime_metadata_valid) {
            before
        } else if before is None || here > before->0 {
            Some(here)
        } else {
            before
        }
    }
}

/// The number of the first `count` candidates with code evidence.
pub open spec fn code_candidate_count(
    candidates: Seq<CandidateView>,
    runtime_metadata_valid: bool,
    count: int,
) -> nat
    decreases count,
{
    if count <= 0 {
        0
    } else if code_candidate(candidates[count - 1], runtime_metadata_valid) {
        code_candidate_count(candidates, runtime_metadata_valid, count - 1) + 1
    } else {
        code_candidate_count(candidates, runtime_metadata_valid, count - 1)
    }
}

/// Whether `left` is preferred over `right` as the section of the entry point.
pub open spec fn entry_preferred(left: CandidateView, right: CandidateView) -> bool {
    let (l, r) = (left.location, right.location);
    if left.score != right.score {
        left.score > right.score
    } else if l.runtime_function_count != r.runtime_function_count {
        l.runtime_function_count > r.runtime_function_count
    } else {
        l.rva < r.rva
    }
}

/// The last of the first `count` candidates with the entry point over which none is preferred.
pub open spec fn entry_candidate(candidates: Seq<CandidateView>, count: int) -> Option<int>
    decreases count,
{
    if count <= 0 {
        None
    } else {
        let before = entry_candidate(candidates, count - 1);
        if !candidates[count - 1].location.contains_entry_point {
            before
        } else if before is Some && entry_preferred(candidates[before->0], candidates[count - 1]) {
            before
        } else {
            Some(count - 1)
        }
    }
}

/// How decisively a selected section is supported.
pub open spec fn section_confidence(
    primary: CandidateView,
    runner_up_score: Option<i32>,
    evidence: RuntimeFunctionEvidence,
    image_complete: bool,
    ranges_valid: bool,
    layout_valid: bool,
    overlapping: bool,
    entry_point_rva: int,
) -> CodeSectionConfidence {
    let location = primary.location;
    let c = location.characteristics;
    let code = c & IMAGE_SCN_CNT_CODE != 0 && c & IMAGE_SCN_MEM_EXECUTE != 0;
    let entry_agrees = entry_point_rva == 0 || location.contains_entry_point;
    let ahead_by = |margin: int|
        runner_up_score is None || primary.score - runner_up_score->0 >= margin;
    if evidence == RuntimeFunctionEvidence::Invalid || !image_complete || !ranges_valid
        || !layout_valid || overlapping || c & (IMAGE_SCN_MEM_WRITE | IMAGE_SCN_MEM_DISCARDABLE)
        != 0 {
        CodeSectionConfidence::Low
    } else if code && location.contains_base_of_code && entry_agrees && location.virtual_size != 0
        && ahead_by(20) {
        CodeSectionConfidence::High
    } else if code && (location.contains_base_of_code || location.contains_entry_point
        || location.runtime_function_count != 0) && ahead_by(15) {
        CodeSectionConfidence::Medium
    } else {
        CodeSectionConfidence::Low
    }
}

/// Classifies how decisively the selected section is supported over competing sections.
pub fn classify_code_section_confidence(
    primary: &CodeSectionCandidate,
    runner_up_score: Option<i32>,
    runtime_function_evidence: RuntimeFunctionEvidence,
    image_complete: bool,
    section_ranges_valid: bool,
    section_layout_valid: bool,
    overlapping_sections: bool,
    entry_point_rva: usize,
) -> (r: CodeSectionConfidence)
    ensures
        r == section_confidence(
            primary@,
            runner_up_score,
            runtime_function_evidence,
            image_complete,
            section_ranges_valid,
            section_layout_valid,
            overlapping_sections,
            entry_point_rva as int,
        ),
{
    let location = &primary.location;
    let characteristics: u32 = location.characteristics;
    let code_and_executable: bool = characteristics & IMAGE_SCN_CNT_CODE != 0 && characteristics
        & IMAGE_SCN_MEM_EXECUTE != 0;
    let writable_or_discardable: bool = characteristics & (IMAGE_SCN_MEM_WRITE
        | IMAGE_SCN_MEM_DISCARDABLE) != 0;
    let entry_point_agrees: bool = entry_point_rva == 0 || location.contains_entry_point;
    let score_margin: i64 = match runner_up_score {
        Some(score) => primary.score as i64 - score as i64,
        None => i64::MAX,
    };
    if runtime_function_evidence == RuntimeFunctionEvidence::Invalid || !image_complete
        || !section_ranges_valid || !section_layout_valid || overlapping_sections
        || writable_or_discardable {
        return CodeSectionConfidence::Low;
    }
    if code_and_executable && location.contains_base_of_code && entry_point_agrees
        && location.virtual_size != 0 && score_margin >= 20 {
        return CodeSectionConfidence::High;
    }
    if code_and_executable && (location.contains_base_of_code || location.contains_entry_point
        || location.runtime_function_count != 0) && score_margin >= 15 {
        return CodeSectionConfidence::Medium;
    }
    CodeSectionConfidence::Low
}

/// Copies a section location.
fn copy_location(location: &CodeSectionLocation) -> (r: CodeSectionLocation)
    ensures
        r@ == location@,
{
    CodeSectionLocation {
        name: location.name.clone(),
        rva: location.rva,
        virtual_size: location.virtual_size,
        raw_size: location.raw_size,
        mapped_size: location.mapped_size,
        characteristics: location.characteristics,
        contains_entry_point: location.contains_entry_point,
        contains_base_of_code: location.contains_base_of_code,
        runtime_function_count: location.runtime_function_count,
        runtime_code_bytes: location.runtime_code_bytes,
    }
}

/// Lists the candidates of an image, and whether the range of every section fits.
fn list_candidates(pe_data: &[u8], pe: &PeImage) -> (r: (Vec<CodeSectionCandidate>, bool))
    ensures
        candidate_views(r.0@) == candidates_of(
            *pe,
            pe_data@.len() as int,
            pe.sections@.len() as int,
        ),
        r.1 == ranges_valid(*pe, pe_data@.len() as int),
{
    let entry_point_rva: usize = pe.nt_headers.optional_header.address_of_entry_point as usize;
    let base_of_code_rva: usize = pe.nt_headers.optional_header.base_of_code as usize;
    let image_size: usize = pe.nt_headers.optional_header.size_of_image as usize;
    let mut candidates: Vec<CodeSectionCandidate> = Vec::with_capacity(pe.sections.len());
    let mut section_ranges_valid: bool = true;
    let mut index: usize = 0;
    assert(candidate_views(candidates@) =~= candidates_of(*pe, pe_data@.len() as int, 0));
    while index < pe.sections.len()
        invariant
            index <= pe.sections@.len(),
            entry_point_rva == pe.nt_headers.optional_header.address_of_entry_point,
            base_of_code_rva == pe.nt_headers.optional_header.base_of_code,
            image_size == pe.nt_headers.optional_header.size_of_image,
            candidate_views(candidates@) == candidates_of(
                *pe,
                pe_data@.len() as int,
                index as int,
            ),
            section_ranges_valid == (forall|i: int|
                0 <= i < index && mapped_size(#[trigger] pe.sections@[i]) != 0 ==> range_fits(
                    pe.sections@[i],
                    image_size as int,
                    pe_data@.len() as int,
                )),
        decreases pe.sections.len() - index,
    {
        let section = &pe.sections[index];
        let ghost seen = pe.sections@[index as int];
        let rva: usize = section.virtual_address as usize;
        let mapped: usize = get_mapped_section_size(section);
        if mapped != 0 {
            let end_rva: usize = match rva.checked_add(mapped) {
                Some(value) => value,
                None => 0,
            };
            if end_rva == 0 || end_rva > image_size || end_rva > pe_data.len() {
                assert(!range_fits(seen, image_size as int, pe_data@.len() as int));
                section_ranges_valid = false;
            } else {
                let candidate = CodeSectionCandidate {
                    location: CodeSectionLocation {
                        name: decode_section_name(section),
                        rva,
                        virtual_size: section.virtual_size as usize,
                        raw_size: section.size_of_raw_data as usize,
                        mapped_size: mapped,
                        characteristics: section.characteristics,
                        contains_entry_point: entry_point_rva != 0 && entry_point_rva >= rva
                            && entry_point_rva < end_rva,
                        contains_base_of_code: base_of_code_rva != 0 && base_of_code_rva >= rva
                            && base_of_code_rva < end_rva,
                        runtime_function_count: 0,
                        runtime_code_bytes: 0,
                    },
                    end_rva,
                    score: 0,
                };
                let ghost before = candidates@;
                candidates.push(candidate);
                assert(candidate_views(candidates@) =~= candidate_views(before).push(candidate@));
            }
        }
        index += 1;
    }
    (candidates, section_ranges_valid)
}

/// Scores every candidate.
fn score_candidates(
    candidates: Vec<CodeSectionCandidate>,
    runtime_metadata_valid: bool,
) -> (r: Vec<CodeSectionCandidate>)
    ensures
        candidate_views(r@) == with_scores(candidate_views(candidates@), runtime_metadata_valid),
{
    let ghost views = candidate_views(candidates@);
    let mut functions: usize = 0;
    let mut bytes: usize = 0;
    let mut index: usize = 0;
    while index < candidates.len()
        invariant
            index <= candidates@.len(),
            views == candidate_views(candidates@),
            functions == largest_function_count(views, index as int),
            bytes == largest_code_bytes(views, index as int),
        decreases candidates.len() - index,
    {
        assert(views[index as int] == candidates@[index as int]@);
        if candidates[index].location.runtime_function_count > functions {
            functions = candidates[index].location.runtime_function_count;
        }
        if candidates[index].location.runtime_code_bytes > bytes {
            bytes = candidates[index].location.runtime_code_bytes;
        }
        index += 1;
    }
    let ghost scored = with_scores(views, runtime_metadata_valid);
    let mut result: Vec<CodeSectionCandidate> = Vec::with_capacity(candidates.len());
    let mut position: usize = 0;
    while position < candidates.len()
        invariant
            position <= candidates@.len(),
            views == candidate_views(candidates@),
            scored == with_scores(views, runtime_metadata_valid),
            functions == largest_function_count(views, views.len() as int),
            bytes == largest_code_bytes(views, views.len() as int),
            result@.len() == position,
            forall|i: int| 0 <= i < position ==> (#[trigger] result@[i])@ == scored[i],
        decreases candidates.len() - position,
    {
        let candidate = &candidates[position];
        assert(views[position as int] == candidate@);
        let score: i32 = score_code_section(candidate, runtime_metadata_valid, functions, bytes);
        result.push(
            CodeSectionCandidate {
                location: copy_location(&candidate.location),
                end_rva: candidate.end_rva,
                score,
            },
        );
        position += 1;
    }
    assert(candidate_views(result@) =~= scored);
    result
}

/// Reports whether a candidate carries credible code evidence.
fn is_code_candidate(candidate: &CodeSectionCandidate, runtime_metadata_valid: bool) -> (r: bool)
    ensures
        r == code_candidate(candidate@, runtime_metadata_valid),
{
    candidate.location.characteristics & (IMAGE_SCN_CNT_CODE | IMAGE_SCN_MEM_EXECUTE) != 0 || (
    runtime_metadata_valid && candidate.location.runtime_function_count != 0)
}

/// Reports whether a candidate ranks before another.
fn is_ranked_before(left: &CodeSectionCandidate, right: &CodeSectionCandidate) -> (r: bool)
    ensures
        r == ranks_before(left@, right@),
{
    if left.score != right.score {
        left.score > right.score
    } else if left.location.runtime_function_count != right.location.runtime_function_count {
        left.location.runtime_function_count > right.location.runtime_function_count
    } else if left.location.runtime_code_bytes != right.location.runtime_code_bytes {
        left.location.runtime_code_bytes > right.location.runtime_code_bytes
    } else if left.location.mapped_size != right.location.mapped_size {
        left.location.mapped_size > right.location.mapped_size
    } else {
        left.location.rva < right.location.rva
    }
}

/// Finds the best candidate with code evidence and counts those candidates.
fn find_best_candidate(
    candidates: &[CodeSectionCandidate],
    runtime_metadata_valid: bool,
) -> (r: (Option<usize>, usize))
    ensures
        match r.0 {
            Some(best) => best < candidates@.len() && best_candidate(
                candidate_views(candidates@),
                runtime_metadata_valid,
                candidates@.len() as int,
            ) == Some(best as int),
            None => best_candidate(
                candidate_views(candidates@),
                runtime_metadata_valid,
                candidates@.len() as int,
            ) is None,
        },
        r.1 == code_candidate_count(
            candidate_views(candidates@),
            runtime_metadata_valid,
            candidates@.len() as int,
        ),
{
    let ghost views = candidate_views(candidates@);
    let mut best: Option<usize> = None;
    let mut count: usize = 0;
    let mut index: usize = 0;
    while index < candidates.len()
        invariant
            index <= candidates@.len(),
            count <= index,
            views == candidate_views(candidates@),
            count == code_candidate_count(views, runtime_metadata_valid, index as int),
            match best {
                Some(best) => best < index && best_candidate(
                    views,
                    runtime_metadata_valid,
                    index as int,
                ) == Some(best as int),
                None => best_candidate(views, runtime_metadata_valid, index as int) is None,
            },
        decreases candidates.len() - index,
    {
        assert(views[index as int] == candidates@[index as int]@);
        if is_code_candidate(&candidates[index], runtime_metadata_valid) {
            count += 1;
            match best {
                Some(leader) => {
                    assert(views[leader as int] == candidates@[leader as int]@);
                    if is_ranked_before(&candidates[index], &candidates[leader]) {
                        best = Some(index);
                    }
                },
                None => {
                    best = Some(index);
                },
            }
        }
        index += 1;
    }
    (best, count)
}

/// Finds the best score besides that of the best candidate.
fn find_runner_up(
    candidates: &[CodeSectionCandidate],
    runtime_metadata_valid: bool,
    best: usize,
) -> (r: Option<i32>)
    ensures
        r == runner_up(
            candidate_views(candidates@),
            runtime_metadata_valid,
            best as int,
            candidates@.len() as int,
        ),
{
    let ghost views = candidate_views(candidates@);
    let mut score: Option<i32> = None;
    let mut index: usize = 0;
    while index < candidates.len()
        invariant
            index <= candidates@.len(),
            views == candidate_views(candidates@),
            score == runner_up(views, runtime_metadata_valid, best as int, index as int),
        decreases candidates.len() - index,
    {
        assert(views[index as int] == candidates@[index as int]@);
        if index != best && is_code_candidate(&candidates[index], runtime_metadata_valid) {
            let here: i32 = candidates[index].score;
            match score {
                Some(known) => {
                    if here > known {
                        score = Some(here);
                    }
                },
                None => {
                    score = Some(here);
                },
            }
        }
        index += 1;
    }
    score
}

/// Reports whether a candidate is preferred over another as the section of the entry point.
fn is_entry_preferred(left: &CodeSectionCandidate, right: &CodeSectionCandidate) -> (r: bool)
    ensures
        r == entry_preferred(left@, right@),
{
    if left.score != right.score {
        left.score > right.score
    } else if left.location.runtime_function_count != right.location.runtime_function_count {
        left.location.runtime_function_count > right.location.runtime_function_count
    } else {
        left.location.rva < right.location.rva
    }
}

/// Finds the candidate of the entry point.
fn find_entry_candidate(candidates: &[CodeSectionCandidate]) -> (r: Option<usize>)
    ensures
        match r {
            Some(entry) => entry < candidates@.len() && entry_candidate(
                candidate_views(candidates@),
                candidates@.len() as int,
            ) == Some(entry as int),
            None => entry_candidate(
                candidate_views(candidates@),
                candidates@.len() as int,
            ) is None,
        },
{
    let ghost views = candidate_views(candidates@);
    let mut entry: Option<usize> = None;
    let mut index: usize = 0;
    while index < candidates.len()
        invariant
            index <= candidates@.len(),
            views == candidate_views(candidates@),
            match entry {
                Some(entry) => entry < index && entry_candidate(views, index as int) == Some(
                    entry as int,
                ),
                None => entry_candidate(views, index as int) is None,
            },
        decreases candidates.len() - index,
    {
        assert(views[index as int] == candidates@[index as int]@);
        if candidates[index].location.contains_entry_point {
            match entry {
                Some(known) => {
                    assert(views[known as int] == candidates@[known as int]@);
                    if !is_entry_preferred(&candidates[known], &candidates[index]) {
                        entry = Some(index);
                    }
                },
                None => {
                    entry = Some(index);
                },
            }
        }
        index += 1;
    }
    entry
}

/// Candidates have no functions before evidence was collected.
proof fn lemma_fresh_counts(pe: PeImage, len: int, count: int)
    ensures
        forall|i: int|
            0 <= i < candidates_of(pe, len, count).len() ==> (#[trigger] candidates_of(
                pe,
                len,
                count,
            )[i]).location.runtime_function_count == 0,
    decreases count,
{
    if count > 0 {
        lemma_fresh_counts(pe, len, count - 1);
        let before = candidates_of(pe, len, count - 1);
        let all = candidates_of(pe, len, count);
        assert forall|i: int| 0 <= i < all.len() implies (
        #[trigger] all[i]).location.runtime_function_count == 0 by {
            if i < before.len() {
                assert(all[i] == before[i]);
            }
        }
    }
}

/// The ranked candidates of an image: with runtime evidence and scores.
pub open spec fn ranked_candidates(data: Seq<u8>, pe: PeImage) -> Seq<CandidateView> {
    let candidates = candidates_of(pe, data.len() as int, pe.sections@.len() as int);
    with_scores(
        settled_candidates(data, pe, candidates),
        runtime_evidence(data, pe, candidates) == RuntimeFunctionEvidence::Valid,
    )
}

/// The runtime evidence of an image.
pub open spec fn image_evidence(data: Seq<u8>, pe: PeImage) -> RuntimeFunctionEvidence {
    runtime_evidence(
        data,
        pe,
        candidates_of(pe, data.len() as int, pe.sections@.len() as int),
    )
}

/// The best candidate of an image, if a section carries code evidence.
pub open spec fn primary_candidate(data: Seq<u8>, pe: PeImage) -> Option<int> {
    let ranked = ranked_candidates(data, pe);
    best_candidate(
        ranked,
        image_evidence(data, pe) == RuntimeFunctionEvidence::Valid,
        ranked.len() as int,
    )
}

impl CodeSectionAnalysis {
    /// This is the analysis of a parsed image.
    pub open spec fn analyzes(&self, data: Seq<u8>, pe: PeImage) -> bool {
        let ranked = ranked_candidates(data, pe);
        let count = ranked.len() as int;
        let evidence = image_evidence(data, pe);
        let valid = evidence == RuntimeFunctionEvidence::Valid;
        let best = primary_candidate(data, pe)->0;
        &&& self.primary@ == ranked[best].location
        &&& match entry_candidate(ranked, count) {
            Some(entry) => self.entry_point is Some && self.entry_point->0@
                == ranked[entry].location,
            None => self.entry_point is None,
        }
        &&& self.candidate_count == code_candidate_count(ranked, valid, count)
        &&& self.image_complete == (pe.nt_headers.optional_header.size_of_image <= data.len())
        &&& self.section_ranges_valid == ranges_valid(pe, data.len() as int)
        &&& self.section_layout_valid == pe.error_in(data.len() as int) is None
        &&& self.overlapping_sections == candidates_overlap(ranked)
        &&& self.runtime_function_evidence == evidence
        &&& self.confidence == section_confidence(
            ranked[best],
            runner_up(ranked, valid, best, count),
            evidence,
            self.image_complete,
            self.section_ranges_valid,
            self.section_layout_valid,
            self.overlapping_sections,
            pe.nt_headers.optional_header.address_of_entry_point as int,
        )
    }
}

/// Analyzes the sections of a parsed image.
pub fn analyze_code_sections(pe_data: &[u8], pe: &PeImage) -> (r: Option<CodeSectionAnalysis>)
    requires
        pe.wf(),
    ensures
        match r {
            Some(analysis) => {
                &&& primary_candidate(pe_data@, *pe) is Some
                &&& analysis.analyzes(pe_data@, *pe)
            },
            None => primary_candidate(pe_data@, *pe) is None,
        },
{
    let image_complete: bool = pe.nt_headers.optional_header.size_of_image as usize
        <= pe_data.len();
    let section_layout_valid: bool = validate_parsed_pe(pe, pe_data.len()).is_ok();
    let (listed, section_ranges_valid) = list_candidates(pe_data, pe);
    let mut candidates = listed;
    proof {
        lemma_fresh_counts(*pe, pe_data@.len() as int, pe.sections@.len() as int);
        assert(pe_data.len() == pe_data@.len());
    }
    let evidence = collect_runtime_function_evidence(pe_data, pe, &mut candidates);
    if evidence == RuntimeFunctionEvidence::Invalid {
        reset_counts(&mut candidates);
    }
    let runtime_metadata_valid: bool = evidence == RuntimeFunctionEvidence::Valid;
    let ranked = score_candidates(candidates, runtime_metadata_valid);
    assert(candidate_views(ranked@) == ranked_candidates(pe_data@, *pe));
    let (best, candidate_count) = find_best_candidate(&ranked, runtime_metadata_valid);
    let best: usize = match best {
        Some(value) => value,
        None => return None,
    };
    let runner_up_score = find_runner_up(&ranked, runtime_metadata_valid, best);
    let overlapping_sections: bool = has_overlapping_sections(&ranked);
    let confidence = classify_code_section_confidence(
        &ranked[best],
        runner_up_score,
        evidence,
        image_complete,
        section_ranges_valid,
        section_layout_valid,
        overlapping_sections,
        pe.nt_headers.optional_header.address_of_entry_point as usize,
    );
    let entry_point: Option<CodeSectionLocation> = match find_entry_candidate(&ranked) {
        Some(entry) => Some(copy_location(&ranked[entry].location)),
        None => None,
    };
    Some(
        CodeSectionAnalysis {
            primary: copy_location(&ranked[best].location),
            entry_point,
            confidence,
            candidate_count,
            image_complete,
            section_ranges_valid,
            section_layout_valid,
            overlapping_sections,
            runtime_function_evidence: evidence,
        },
    )
}

/// Locates the most strongly supported primary code section in a mapped x64 PE image. There is
/// none when the image does not parse or no section carries credible code evidence.
pub fn locate_text_section(pe_data: &[u8]) -> (r: Option<CodeSectionAnalysis>)
    ensures
        parse_error(pe_data@) is Some ==> r is None,
        match r {
            Some(analysis) => exists|pe: PeImage| #[trigger]
                parse_outcome(pe_data@, Ok(pe)) && primary_candidate(pe_data@, pe) is Some
                    && analysis.analyzes(pe_data@, pe),
            None => {
                ||| exists|error| parse_outcome(pe_data@, Err::<PeImage, _>(error))
                ||| exists|pe: PeImage| #[trigger]
                    parse_outcome(pe_data@, Ok(pe)) && primary_candidate(pe_data@, pe) is None
            },
        },
{
    match parse_pe(pe_data) {
        Ok(pe) => {
            assert(parse_outcome(pe_data@, Ok(pe)));
            analyze_code_sections(pe_data, &pe)
        },
        Err(error) => {
            assert(parse_outcome(pe_data@, Err::<PeImage, _>(error)));
            None
        },
    }
}

/// No candidate with code evidence ranks before the best one.
pub proof fn law_primary_section_is_best(
    candidates: Seq<CandidateView>,
    runtime_metadata_valid: bool,
    count: int,
    i: int,
)
    requires
        0 <= i < count <= candidates.len(),
        code_candidate(candidates[i], runtime_metadata_valid),
    ensures
        ({
            let best = best_candidate(candidates, runtime_metadata_valid, count);
            &&& best is Some
            &&& 0 <= best->0 < count
            &&& code_candidate(candidates[best->0], runtime_metadata_valid)
            &&& !ranks_before(candidates[i], candidates[best->0])
        }),
    decreases count,
{
    let before = best_candidate(candidates, runtime_metadata_valid, count - 1);
    if i < count - 1 {
        law_primary_section_is_best(candidates, runtime_metadata_valid, count - 1, i);
    } else if before is Some {
        lemma_best_in_range(candidates, runtime_metadata_valid, count - 1);
    }
}

/// The best candidate is one of those looked at, with code evidence.
proof fn lemma_best_in_range(
    candidates: Seq<CandidateView>,
    runtime_metadata_valid: bool,
    count: int,
)
    requires
        0 <= count <= candidates.len(),
        best_candidate(candidates, runtime_metadata_valid, count) is Some,
    ensures
        ({
            let best = best_candidate(candidates, runtime_metadata_valid, count)->0;
            0 <= best < count && code_candidate(candidates[best], runtime_metadata_valid)
        }),
    decreases count,
{
    if best_candidate(candidates, runtime_metadata_valid, count - 1) is Some {
        lemma_best_in_range(candidates, runtime_metadata_valid, count - 1);
    }
}

} // verus!
