//! The primary code section, stated over header facts and scores.

use vstd::prelude::*;

use crate::code_section::{
    best_candidate, candidate_score, candidates_of, code_candidate, entry_candidate, image_evidence,
    law_primary_section_is_best, primary_candidate, ranked_candidates, runner_up, CandidateView,
    CodeSectionAnalysis, CodeSectionConfidence, LocationView, RuntimeFunctionEvidence,
};
use crate::pe::types::{PeImage, SectionHeader};

verus! {

/// Whether a section is marked as code or as executable, or a trusted function table has functions
/// in it.
pub open spec fn shows_code(location: LocationView, functions_trusted: bool) -> bool {
    ||| location.characteristics & 0x20 != 0
    ||| location.characteristics & 0x2000_0000 != 0
    ||| functions_trusted && location.runtime_function_count > 0
}

/// Two ways to look at the code marks.
proof fn lemma_code_marks(candidate: CandidateView, functions_trusted: bool)
    ensures
        code_candidate(candidate, functions_trusted) == shows_code(
            candidate.location,
            functions_trusted,
        ),
{
    let c = candidate.location.characteristics;
    assert(c & (0x20u32 | 0x2000_0000u32) != 0 <==> (c & 0x20 != 0 || c & 0x2000_0000 != 0))
        by (bit_vector);
}

/// Of two sections alike in everything else, the one that holds the entry point scores higher.
pub proof fn law_entry_point_scores(
    location: LocationView,
    functions_trusted: bool,
    most_functions: usize,
    most_bytes: usize,
)
    ensures
        ({
            let with = LocationView { contains_entry_point: true, ..location };
            let without = LocationView { contains_entry_point: false, ..location };
            candidate_score(with, functions_trusted, most_functions, most_bytes)
                == candidate_score(without, functions_trusted, most_functions, most_bytes) + 35
        }),
{
}

/// Of two sections alike in everything else, the one that holds the base of code scores higher.
pub proof fn law_base_of_code_scores(
    location: LocationView,
    functions_trusted: bool,
    most_functions: usize,
    most_bytes: usize,
)
    ensures
        ({
            let with = LocationView { contains_base_of_code: true, ..location };
            let without = LocationView { contains_base_of_code: false, ..location };
            candidate_score(with, functions_trusted, most_functions, most_bytes)
                == candidate_score(without, functions_trusted, most_functions, most_bytes) + 45
        }),
{
}

/// Whether two characteristics agree on a mark.
pub open spec fn same_mark(left: u32, right: u32, mark: u32) -> bool {
    left & mark != 0 <==> right & mark != 0
}

/// Of two sections alike in everything but one mark: code and executable raise the score by 30
/// each, readable by 5; writable lowers it by 30 and discardable by 20.
pub proof fn law_marks_score(
    location: LocationView,
    left: u32,
    right: u32,
    functions_trusted: bool,
    most_functions: usize,
    most_bytes: usize,
)
    ensures
        ({
            let l = candidate_score(
                LocationView { characteristics: left, ..location },
                functions_trusted,
                most_functions,
                most_bytes,
            );
            let r = candidate_score(
                LocationView { characteristics: right, ..location },
                functions_trusted,
                most_functions,
                most_bytes,
            );
            let code = same_mark(left, right, 0x20);
            let execute = same_mark(left, right, 0x2000_0000);
            let read = same_mark(left, right, 0x4000_0000);
            let write = same_mark(left, right, 0x8000_0000);
            let discard = same_mark(left, right, 0x0200_0000);
            &&& code && execute && read && write && discard ==> l == r
            &&& execute && read && write && discard && left & 0x20 != 0 && right & 0x20 == 0 ==> l
                == r + 30
            &&& code && read && write && discard && left & 0x2000_0000 != 0 && right & 0x2000_0000
                == 0 ==> l == r + 30
            &&& code && execute && write && discard && left & 0x4000_0000 != 0 && right
                & 0x4000_0000 == 0 ==> l == r + 5
            &&& code && execute && read && discard && left & 0x8000_0000 != 0 && right
                & 0x8000_0000 == 0 ==> l == r - 30
            &&& code && execute && read && write && left & 0x0200_0000 != 0 && right & 0x0200_0000
                == 0 ==> l == r - 20
        }),
{
}

/// Functions of a trusted table raise the score: by 25, by 35 more for the most functions and by 20
/// more for the most covered bytes. Those of another table count for nothing.
pub proof fn law_functions_score(
    location: LocationView,
    most_functions: usize,
    most_bytes: usize,
)
    ensures
        ({
            let trusted = candidate_score(location, true, most_functions, most_bytes);
            let ignored = candidate_score(location, false, most_functions, most_bytes);
            let functions = location.runtime_function_count;
            let bytes = location.runtime_code_bytes;
            &&& functions == 0 ==> trusted == ignored
            &&& functions != 0 && functions != most_functions && bytes != most_bytes ==> trusted
                == ignored + 25
            &&& functions != 0 && functions == most_functions && bytes != most_bytes ==> trusted
                == ignored + 60
            &&& functions != 0 && functions != most_functions && bytes == most_bytes ==> trusted
                == ignored + 45
            &&& functions != 0 && functions == most_functions && bytes == most_bytes ==> trusted
                == ignored + 80
        }),
{
}

/// A section without a virtual size scores 10 less; where it lies and how large it is otherwise
/// does not matter.
pub proof fn law_sizes_score(
    left: LocationView,
    right: LocationView,
    functions_trusted: bool,
    most_functions: usize,
    most_bytes: usize,
)
    requires
        left.name == right.name,
        left.characteristics == right.characteristics,
        left.contains_entry_point == right.contains_entry_point,
        left.contains_base_of_code == right.contains_base_of_code,
        left.runtime_function_count == right.runtime_function_count,
        left.runtime_code_bytes == right.runtime_code_bytes,
        left.virtual_size != 0,
    ensures
        ({
            let l = candidate_score(left, functions_trusted, most_functions, most_bytes);
            let r = candidate_score(right, functions_trusted, most_functions, most_bytes);
            &&& right.virtual_size != 0 ==> l == r
            &&& right.virtual_size == 0 ==> l == r + 10
        }),
{
}

/// The score of a plain read-only section about which nothing is known.
pub proof fn law_plain_section_scores(
    location: LocationView,
    functions_trusted: bool,
    most_functions: usize,
    most_bytes: usize,
)
    requires
        location.name.len() == 0,
        location.virtual_size != 0,
        location.characteristics == 0x4000_0000,
        !location.contains_entry_point,
        !location.contains_base_of_code,
        location.runtime_function_count == 0,
    ensures
        candidate_score(location, functions_trusted, most_functions, most_bytes) == 10,
{
    assert(0x4000_0000u32 & 0x20u32 == 0) by (bit_vector);
    assert(0x4000_0000u32 & 0x2000_0000u32 == 0) by (bit_vector);
    assert(0x4000_0000u32 & 0x4000_0000u32 != 0) by (bit_vector);
    assert(0x4000_0000u32 & 0x8000_0000u32 == 0) by (bit_vector);
    assert(0x4000_0000u32 & 0x0200_0000u32 == 0) by (bit_vector);
    assert(crate::text::lower_text(location.name).len() == 0);
    reveal_strlit(".text");
    reveal_strlit(".code");
    reveal_strlit("code");
}

/// The usual names of a code section, `.text`, `.code` and `code` in any case, raise the score by
/// 4; all other names score alike.
pub proof fn law_names_score(
    location: LocationView,
    usual: Seq<char>,
    other: Seq<char>,
    functions_trusted: bool,
    most_functions: usize,
    most_bytes: usize,
)
    requires
        spells(usual, seq!['.', 't', 'e', 'x', 't']) || spells(
            usual,
            seq!['.', 'c', 'o', 'd', 'e'],
        ) || spells(usual, seq!['c', 'o', 'd', 'e']),
        !spells(other, seq!['.', 't', 'e', 'x', 't']),
        !spells(other, seq!['.', 'c', 'o', 'd', 'e']),
        !spells(other, seq!['c', 'o', 'd', 'e']),
    ensures
        candidate_score(
            LocationView { name: usual, ..location },
            functions_trusted,
            most_functions,
            most_bytes,
        ) == candidate_score(
            LocationView { name: other, ..location },
            functions_trusted,
            most_functions,
            most_bytes,
        ) + 4,
{
    reveal_strlit(".text");
    reveal_strlit(".code");
    reveal_strlit("code");
    assert(".text"@ =~= seq!['.', 't', 'e', 'x', 't']);
    assert(".code"@ =~= seq!['.', 'c', 'o', 'd', 'e']);
    assert("code"@ =~= seq!['c', 'o', 'd', 'e']);
    lemma_spells(usual, ".text"@);
    lemma_spells(usual, ".code"@);
    lemma_spells(usual, "code"@);
    lemma_spells(other, ".text"@);
    lemma_spells(other, ".code"@);
    lemma_spells(other, "code"@);
}

/// Whether a name is a word of points and lower-case letters, with any of the letters in upper
/// case.
pub open spec fn spells(name: Seq<char>, word: Seq<char>) -> bool {
    &&& name.len() == word.len()
    &&& forall|i: int|
        0 <= i < name.len() ==> #[trigger] name[i] == word[i] || ('A' <= name[i] <= 'Z'
            && name[i] as int + 32 == word[i] as int)
}

/// A name spells a lower-case word exactly when lowering gives the word.
proof fn lemma_spells(name: Seq<char>, word: Seq<char>)
    requires
        forall|i: int| 0 <= i < word.len() ==> !('A' <= #[trigger] word[i] <= 'Z'),
    ensures
        spells(name, word) <==> crate::text::lower_text(name) == word,
{
    let lowered = crate::text::lower_text(name);
    assert forall|i: int| 0 <= i < name.len() implies #[trigger] lowered[i]
        == crate::text::lower_char(name[i]) by {}
    if spells(name, word) {
        assert forall|i: int| 0 <= i < name.len() implies lowered[i] == word[i] by {
            assert(name[i] == word[i] || ('A' <= name[i] <= 'Z' && name[i] as int + 32
                == word[i] as int));
            assert(lowered[i] == crate::text::lower_char(name[i]));
            assert(!('A' <= word[i] <= 'Z'));
        }
        assert(lowered =~= word);
    }
    if lowered == word {
        assert forall|i: int| 0 <= i < name.len() implies #[trigger] name[i] == word[i] || ('A'
            <= name[i] <= 'Z' && name[i] as int + 32 == word[i] as int) by {
            assert(lowered[i] == crate::text::lower_char(name[i]));
        }
    }
}

/// Whether a section has mapped bytes that end inside the image and inside `len` bytes.
pub open spec fn section_is_mapped(pe: PeImage, section: SectionHeader, len: int) -> bool {
    let end = crate::laws::locate::section_end(section);
    &&& section.virtual_address < end
    &&& end <= usize::MAX
    &&& end <= pe.nt_headers.optional_header.size_of_image
    &&& end <= len
}

/// Whether a location says of a section what the headers say of it.
pub open spec fn locates(pe: PeImage, location: LocationView, section: SectionHeader) -> bool {
    let end = crate::laws::locate::section_end(section);
    let entry = pe.nt_headers.optional_header.address_of_entry_point;
    let base = pe.nt_headers.optional_header.base_of_code;
    &&& location.name == crate::pe::locate::section_name(section)
    &&& location.rva == section.virtual_address
    &&& location.virtual_size == section.virtual_size
    &&& location.raw_size == section.size_of_raw_data
    &&& location.rva + location.mapped_size == end
    &&& location.characteristics == section.characteristics
    &&& location.contains_entry_point <==> entry != 0 && section.virtual_address <= entry < end
    &&& location.contains_base_of_code <==> base != 0 && section.virtual_address <= base < end
}

/// A section with mapped bytes is a candidate.
proof fn lemma_section_is_candidate(pe: PeImage, len: int, count: int, i: int) -> (n: int)
    requires
        0 <= i < count <= pe.sections@.len(),
        section_is_mapped(pe, pe.sections@[i], len),
    ensures
        0 <= n < candidates_of(pe, len, count).len(),
        locates(pe, candidates_of(pe, len, count)[n].location, pe.sections@[i]),
    decreases count,
{
    let before = candidates_of(pe, len, count - 1);
    let all = candidates_of(pe, len, count);
    if i == count - 1 {
        before.len() as int
    } else {
        let n = lemma_section_is_candidate(pe, len, count - 1, i);
        assert(all[n] == before[n]);
        n
    }
}

/// A candidate is a section with mapped bytes.
proof fn lemma_candidate_is_section(pe: PeImage, len: int, count: int, n: int) -> (i: int)
    requires
        0 <= count <= pe.sections@.len(),
        0 <= n < candidates_of(pe, len, count).len(),
    ensures
        0 <= i < count,
        section_is_mapped(pe, pe.sections@[i], len),
        locates(pe, candidates_of(pe, len, count)[n].location, pe.sections@[i]),
        candidates_of(pe, len, count)[n].end_rva == crate::laws::locate::section_end(
            pe.sections@[i],
        ),
    decreases count,
{
    let before = candidates_of(pe, len, count - 1);
    let all = candidates_of(pe, len, count);
    if n < before.len() {
        assert(all[n] == before[n]);
        lemma_candidate_is_section(pe, len, count - 1, n)
    } else {
        count - 1
    }
}

/// Evidence and scores leave the header facts of a candidate as they are.
proof fn lemma_ranked_facts(data: Seq<u8>, pe: PeImage, n: int)
    requires
        0 <= n < ranked_candidates(data, pe).len() || 0 <= n < candidates_of(
            pe,
            data.len() as int,
            pe.sections@.len() as int,
        ).len(),
    ensures
        ({
            let ranked = ranked_candidates(data, pe);
            let listed = candidates_of(pe, data.len() as int, pe.sections@.len() as int);
            &&& ranked.len() == listed.len()
            &&& ranked[n].end_rva == listed[n].end_rva
            &&& ranked[n].location == (LocationView {
                runtime_function_count: ranked[n].location.runtime_function_count,
                runtime_code_bytes: ranked[n].location.runtime_code_bytes,
                ..listed[n].location
            })
        }),
{
}

/// Every section with mapped bytes is ranked.
pub proof fn law_every_mapped_section_is_ranked(data: Seq<u8>, pe: PeImage, i: int) -> (n: int)
    requires
        0 <= i < pe.sections@.len(),
        section_is_mapped(pe, pe.sections@[i], data.len() as int),
    ensures
        0 <= n < ranked_candidates(data, pe).len(),
        locates(pe, ranked_candidates(data, pe)[n].location, pe.sections@[i]),
{
    let count = pe.sections@.len() as int;
    let n = lemma_section_is_candidate(pe, data.len() as int, count, i);
    lemma_ranked_facts(data, pe, n);
    n
}

/// Only sections with mapped bytes are ranked.
pub proof fn law_ranked_sections_are_mapped(data: Seq<u8>, pe: PeImage, n: int) -> (i: int)
    requires
        0 <= n < ranked_candidates(data, pe).len(),
    ensures
        0 <= i < pe.sections@.len(),
        section_is_mapped(pe, pe.sections@[i], data.len() as int),
        locates(pe, ranked_candidates(data, pe)[n].location, pe.sections@[i]),
{
    lemma_ranked_facts(data, pe, n);
    lemma_candidate_is_section(pe, data.len() as int, pe.sections@.len() as int, n)
}

/// The largest counts among candidates.
proof fn lemma_most(candidates: Seq<CandidateView>, count: int)
    requires
        0 <= count <= candidates.len(),
    ensures
        forall|i: int|
            0 <= i < count ==> (#[trigger] candidates[i]).location.runtime_function_count
                <= crate::code_section::largest_function_count(candidates, count)
                && candidates[i].location.runtime_code_bytes
                <= crate::code_section::largest_code_bytes(candidates, count),
        count > 0 ==> exists|i: int|
            0 <= i < count && (#[trigger] candidates[i]).location.runtime_function_count
                == crate::code_section::largest_function_count(candidates, count),
        count > 0 ==> exists|i: int|
            0 <= i < count && (#[trigger] candidates[i]).location.runtime_code_bytes
                == crate::code_section::largest_code_bytes(candidates, count),
    decreases count,
{
    if count > 0 {
        lemma_most(candidates, count - 1);
        let here = candidates[count - 1].location;
        assert(crate::code_section::largest_function_count(candidates, 0) == 0);
        assert(crate::code_section::largest_code_bytes(candidates, 0) == 0);
        assert(count == 1 ==> here.runtime_function_count
            == crate::code_section::largest_function_count(candidates, count));
        assert(count == 1 ==> here.runtime_code_bytes == crate::code_section::largest_code_bytes(
            candidates,
            count,
        ));
        if count > 1 {
            let f = choose|i: int|
                0 <= i < count - 1 && (#[trigger] candidates[i]).location.runtime_function_count
                    == crate::code_section::largest_function_count(candidates, count - 1);
            let b = choose|i: int|
                0 <= i < count - 1 && (#[trigger] candidates[i]).location.runtime_code_bytes
                    == crate::code_section::largest_code_bytes(candidates, count - 1);
            assert(candidates[f].location.runtime_function_count >= 0);
            assert(candidates[b].location.runtime_code_bytes >= 0);
        }
    }
}

/// Whether these are the most functions and the most covered bytes of any candidate.
pub open spec fn are_most(ranked: Seq<CandidateView>, functions: usize, bytes: usize) -> bool {
    &&& forall|i: int|
        0 <= i < ranked.len() ==> (#[trigger] ranked[i]).location.runtime_function_count
            <= functions && ranked[i].location.runtime_code_bytes <= bytes
    &&& exists|i: int|
        0 <= i < ranked.len() && (#[trigger] ranked[i]).location.runtime_function_count == functions
    &&& exists|i: int|
        0 <= i < ranked.len() && (#[trigger] ranked[i]).location.runtime_code_bytes == bytes
}

/// A ranked candidate carries the score of its location, measured against the most functions and
/// the most covered bytes of any.
pub proof fn law_ranked_scores(data: Seq<u8>, pe: PeImage, n: int) -> (most: (usize, usize))
    requires
        0 <= n < ranked_candidates(data, pe).len(),
    ensures
        are_most(ranked_candidates(data, pe), most.0, most.1),
        forall|m: int|
            0 <= m < ranked_candidates(data, pe).len() ==> (#[trigger] ranked_candidates(
                data,
                pe,
            )[m]).score == candidate_score(
                ranked_candidates(data, pe)[m].location,
                image_evidence(data, pe) == RuntimeFunctionEvidence::Valid,
                most.0,
                most.1,
            ),
{
    let listed = candidates_of(pe, data.len() as int, pe.sections@.len() as int);
    let settled = crate::code_section::settled_candidates(data, pe, listed);
    let ranked = ranked_candidates(data, pe);
    let count = settled.len() as int;
    lemma_most(settled, count);
    let functions = crate::code_section::largest_function_count(settled, count);
    let bytes = crate::code_section::largest_code_bytes(settled, count);
    assert forall|i: int| 0 <= i < ranked.len() implies #[trigger] ranked[i].location
        == settled[i].location by {}
    let f = choose|i: int|
        0 <= i < count && (#[trigger] settled[i]).location.runtime_function_count == functions;
    let b = choose|i: int|
        0 <= i < count && (#[trigger] settled[i]).location.runtime_code_bytes == bytes;
    assert(ranked[f].location.runtime_function_count == functions);
    assert(ranked[b].location.runtime_code_bytes == bytes);
    (functions, bytes)
}

/// The primary section scores at least as high as every section that shows code, and among those
/// with its score it has the most functions, then the most covered bytes, then the largest mapped
/// size, then the lowest RVA.
pub proof fn law_primary_scores_highest(
    data: Seq<u8>,
    pe: PeImage,
    analysis: CodeSectionAnalysis,
    j: int,
) -> (best: int)
    requires
        analysis.analyzes(data, pe),
        0 <= j < ranked_candidates(data, pe).len(),
        shows_code(
            ranked_candidates(data, pe)[j].location,
            image_evidence(data, pe) == RuntimeFunctionEvidence::Valid,
        ),
    ensures
        ({
            let ranked = ranked_candidates(data, pe);
            let l = ranked[best].location;
            let r = ranked[j].location;
            &&& 0 <= best < ranked.len()
            &&& analysis.primary@ == l
            &&& shows_code(l, image_evidence(data, pe) == RuntimeFunctionEvidence::Valid)
            &&& ranked[best].score >= ranked[j].score
            &&& ranked[best].score == ranked[j].score ==> l.runtime_function_count
                >= r.runtime_function_count
            &&& ranked[best].score == ranked[j].score && l.runtime_function_count
                == r.runtime_function_count ==> l.runtime_code_bytes >= r.runtime_code_bytes
            &&& ranked[best].score == ranked[j].score && l.runtime_function_count
                == r.runtime_function_count && l.runtime_code_bytes == r.runtime_code_bytes
                ==> l.mapped_size >= r.mapped_size
            &&& ranked[best].score == ranked[j].score && l.runtime_function_count
                == r.runtime_function_count && l.runtime_code_bytes == r.runtime_code_bytes
                && l.mapped_size == r.mapped_size ==> l.rva <= r.rva
        }),
{
    let ranked = ranked_candidates(data, pe);
    let trusted = image_evidence(data, pe) == RuntimeFunctionEvidence::Valid;
    lemma_code_marks(ranked[j], trusted);
    law_primary_section_is_best(ranked, trusted, ranked.len() as int, j);
    let best = primary_candidate(data, pe)->0;
    lemma_code_marks(ranked[best], trusted);
    best
}

/// There is a primary section exactly when some section shows code.
pub proof fn law_primary_section_exists(data: Seq<u8>, pe: PeImage)
    ensures
        primary_candidate(data, pe) is Some <==> exists|j: int|
            0 <= j < ranked_candidates(data, pe).len() && shows_code(
                (#[trigger] ranked_candidates(data, pe)[j]).location,
                image_evidence(data, pe) == RuntimeFunctionEvidence::Valid,
            ),
{
    let ranked = ranked_candidates(data, pe);
    let trusted = image_evidence(data, pe) == RuntimeFunctionEvidence::Valid;
    let count = ranked.len() as int;
    if primary_candidate(data, pe) is Some {
        let best = lemma_best_shows(ranked, trusted, count);
        lemma_code_marks(ranked[best], trusted);
        assert(shows_code(ranked[best].location, trusted));
    }
    if exists|j: int| 0 <= j < count && shows_code((#[trigger] ranked[j]).location, trusted) {
        let j = choose|j: int|
            0 <= j < count && shows_code((#[trigger] ranked[j]).location, trusted);
        lemma_code_marks(ranked[j], trusted);
        law_primary_section_is_best(ranked, trusted, count, j);
    }
}

/// The best candidate shows code.
proof fn lemma_best_shows(ranked: Seq<CandidateView>, trusted: bool, count: int) -> (best: int)
    requires
        0 <= count <= ranked.len(),
        best_candidate(ranked, trusted, count) is Some,
    ensures
        0 <= best < count,
        best_candidate(ranked, trusted, count) == Some(best),
        code_candidate(ranked[best], trusted),
    decreases count,
{
    let before = best_candidate(ranked, trusted, count - 1);
    if best_candidate(ranked, trusted, count) == before {
        lemma_best_shows(ranked, trusted, count - 1)
    } else {
        count - 1
    }
}

/// The candidate of the entry point holds it, and none that holds it scores higher.
proof fn lemma_entry_is_best(ranked: Seq<CandidateView>, count: int)
    requires
        0 <= count <= ranked.len(),
    ensures
        match entry_candidate(ranked, count) {
            Some(entry) => {
                &&& 0 <= entry < count
                &&& ranked[entry].location.contains_entry_point
                &&& forall|i: int|
                    0 <= i < count && (#[trigger] ranked[i]).location.contains_entry_point ==> {
                        ||| ranked[entry].score > ranked[i].score
                        ||| ranked[entry].score == ranked[i].score
                            && ranked[entry].location.runtime_function_count
                            > ranked[i].location.runtime_function_count
                        ||| ranked[entry].score == ranked[i].score
                            && ranked[entry].location.runtime_function_count
                            == ranked[i].location.runtime_function_count
                            && ranked[entry].location.rva <= ranked[i].location.rva
                    }
            },
            None => forall|i: int|
                0 <= i < count ==> !(#[trigger] ranked[i]).location.contains_entry_point,
        },
    decreases count,
{
    if count > 0 {
        lemma_entry_is_best(ranked, count - 1);
    }
}

/// The section of the entry point is reported exactly when one holds it; it is the one that scores
/// highest, then has the most functions, then the lowest RVA.
pub proof fn law_entry_section(
    data: Seq<u8>,
    pe: PeImage,
    analysis: CodeSectionAnalysis,
    j: int,
) -> (entry: int)
    requires
        analysis.analyzes(data, pe),
        0 <= j < ranked_candidates(data, pe).len(),
    ensures
        ({
            let ranked = ranked_candidates(data, pe);
            &&& analysis.entry_point is None ==> !ranked[j].location.contains_entry_point
            &&& analysis.entry_point is Some ==> {
                &&& 0 <= entry < ranked.len()
                &&& analysis.entry_point->0@ == ranked[entry].location
                &&& ranked[entry].location.contains_entry_point
                &&& ranked[j].location.contains_entry_point ==> {
                    ||| ranked[entry].score > ranked[j].score
                    ||| ranked[entry].score == ranked[j].score
                        && ranked[entry].location.runtime_function_count
                        > ranked[j].location.runtime_function_count
                    ||| ranked[entry].score == ranked[j].score
                        && ranked[entry].location.runtime_function_count
                        == ranked[j].location.runtime_function_count
                        && ranked[entry].location.rva <= ranked[j].location.rva
                }
            }
        }),
{
    let ranked = ranked_candidates(data, pe);
    lemma_entry_is_best(ranked, ranked.len() as int);
    match entry_candidate(ranked, ranked.len() as int) {
        Some(entry) => entry,
        None => 0,
    }
}

/// The runner-up score is the best score of the others that show code.
proof fn lemma_runner_up(ranked: Seq<CandidateView>, trusted: bool, best: int, count: int)
    requires
        0 <= count <= ranked.len(),
    ensures
        match runner_up(ranked, trusted, best, count) {
            Some(score) => {
                &&& forall|i: int|
                    0 <= i < count && i != best && code_candidate(#[trigger] ranked[i], trusted)
                        ==> ranked[i].score <= score
                &&& exists|i: int|
                    0 <= i < count && i != best && code_candidate(#[trigger] ranked[i], trusted)
                        && ranked[i].score == score
            },
            None => forall|i: int|
                0 <= i < count && i != best ==> !code_candidate(#[trigger] ranked[i], trusted),
        },
    decreases count,
{
    if count > 0 {
        lemma_runner_up(ranked, trusted, best, count - 1);
        let before = runner_up(ranked, trusted, best, count - 1);
        let all = runner_up(ranked, trusted, best, count);
        if all is Some {
            if all == before {
                let i = choose|i: int|
                    0 <= i < count - 1 && i != best && code_candidate(#[trigger] ranked[i], trusted)
                        && ranked[i].score == before->0;
                assert(0 <= i < count && code_candidate(ranked[i], trusted));
            } else {
                assert(code_candidate(ranked[count - 1], trusted));
            }
        }
    }
}

/// Whether nothing speaks against an analysis: no bad function table, a whole image, sections in
/// place and apart, and a primary section that is neither writable nor discardable.
pub open spec fn undisputed(analysis: CodeSectionAnalysis) -> bool {
    &&& analysis.runtime_function_evidence != RuntimeFunctionEvidence::Invalid
    &&& analysis.image_complete
    &&& analysis.section_ranges_valid
    &&& analysis.section_layout_valid
    &&& !analysis.overlapping_sections
    &&& analysis.primary.characteristics & 0x8000_0000 == 0
    &&& analysis.primary.characteristics & 0x0200_0000 == 0
}

/// Whether candidate `best` is ahead of every other one that shows code by at least `margin`.
pub open spec fn ahead(
    ranked: Seq<CandidateView>,
    trusted: bool,
    best: int,
    margin: int,
) -> bool {
    forall|i: int|
        0 <= i < ranked.len() && i != best && shows_code((#[trigger] ranked[i]).location, trusted)
            ==> ranked[best].score - ranked[i].score >= margin
}

/// Confidence is high exactly when nothing speaks against the analysis and the primary section is
/// executable code with a virtual size that holds the base of code and any entry point, 20 points
/// ahead; else medium exactly when it is executable code with some anchor, 15 points ahead.
pub proof fn law_confidence(
    data: Seq<u8>,
    pe: PeImage,
    analysis: CodeSectionAnalysis,
) -> (best: int)
    requires
        analysis.analyzes(data, pe),
        primary_candidate(data, pe) is Some,
    ensures
        ({
            let ranked = ranked_candidates(data, pe);
            let trusted = image_evidence(data, pe) == RuntimeFunctionEvidence::Valid;
            let c = analysis.primary.characteristics;
            let high = {
                &&& undisputed(analysis)
                &&& c & 0x20 != 0
                &&& c & 0x2000_0000 != 0
                &&& analysis.primary.contains_base_of_code
                &&& pe.nt_headers.optional_header.address_of_entry_point == 0
                    || analysis.primary.contains_entry_point
                &&& analysis.primary.virtual_size != 0
                &&& ahead(ranked, trusted, best, 20)
            };
            let medium = {
                &&& undisputed(analysis)
                &&& c & 0x20 != 0
                &&& c & 0x2000_0000 != 0
                &&& analysis.primary.contains_base_of_code || analysis.primary.contains_entry_point
                    || analysis.primary.runtime_function_count > 0
                &&& ahead(ranked, trusted, best, 15)
            };
            &&& 0 <= best < ranked.len()
            &&& analysis.primary@ == ranked[best].location
            &&& analysis.confidence == CodeSectionConfidence::High <==> high
            &&& analysis.confidence == CodeSectionConfidence::Medium <==> medium && !high
        }),
{
    let ranked = ranked_candidates(data, pe);
    let trusted = image_evidence(data, pe) == RuntimeFunctionEvidence::Valid;
    let count = ranked.len() as int;
    let best = lemma_best_shows(ranked, trusted, count);
    lemma_runner_up(ranked, trusted, best, count);
    let c = analysis.primary.characteristics;
    assert(analysis.primary@.characteristics == c);
    assert(c & (0x8000_0000u32 | 0x0200_0000u32) != 0 <==> (c & 0x8000_0000 != 0 || c & 0x0200_0000
        != 0)) by (bit_vector);
    assert forall|i: int| 0 <= i < count implies code_candidate(#[trigger] ranked[i], trusted)
        == shows_code(ranked[i].location, trusted) by {
        lemma_code_marks(ranked[i], trusted);
    }
    let score = runner_up(ranked, trusted, best, count);
    assert forall|margin: int| #[trigger] ahead(ranked, trusted, best, margin) <==> score is None
        || ranked[best].score - score->0 >= margin by {
        if score is Some {
            let i = choose|i: int|
                0 <= i < count && i != best && code_candidate(#[trigger] ranked[i], trusted)
                    && ranked[i].score == score->0;
            assert(shows_code(ranked[i].location, trusted));
        }
    }
    assert(ahead(ranked, trusted, best, 20) <==> score is None || ranked[best].score - score->0
        >= 20);
    assert(ahead(ranked, trusted, best, 15) <==> score is None || ranked[best].score - score->0
        >= 15);
    assert(analysis.primary@ == ranked[best].location);
    best
}

} // verus!
