//! The runtime-function table, stated over its bytes.

use vstd::prelude::*;

use crate::bytes::le32;
use crate::code_section::{
    candidate_holds, evidence_after, evidence_step, holder_count, last_holder, runtime_evidence,
    table_evidence, unwind_end, unwind_valid, CandidateView, EvidenceState, RuntimeFunctionEvidence,
};
use crate::pe::types::PeImage;

verus! {

/// Whether candidate `n` holds `[start, end)`.
pub open spec fn holds_range(
    candidates: Seq<CandidateView>,
    n: int,
    start: int,
    end: int,
) -> bool {
    &&& 0 <= n < candidates.len()
    &&& candidates[n].location.rva <= start
    &&& end <= candidates[n].end_rva
}

/// Whether candidate `n` and no other holds `[start, end)`.
pub open spec fn holds_alone(
    candidates: Seq<CandidateView>,
    n: int,
    start: int,
    end: int,
) -> bool {
    &&& holds_range(candidates, n, start, end)
    &&& forall|m: int| #[trigger] holds_range(candidates, m, start, end) ==> m == n
}

/// Whether some candidate and no other holds `[start, end)`.
pub open spec fn held_once(candidates: Seq<CandidateView>, start: int, end: int) -> bool {
    exists|n: int| #[trigger] holds_alone(candidates, n, start, end)
}

/// Whether `n` is the one among the first `count` candidates that holds `[start, end)`.
spec fn holds_alone_below(
    candidates: Seq<CandidateView>,
    count: int,
    n: int,
    start: int,
    end: int,
) -> bool {
    &&& n < count
    &&& holds_range(candidates, n, start, end)
    &&& forall|m: int| m < count && #[trigger] holds_range(candidates, m, start, end) ==> m == n
}

/// How often a range is held.
proof fn lemma_holders(candidates: Seq<CandidateView>, count: int, start: int, end: int)
    requires
        0 <= count <= candidates.len(),
    ensures
        holder_count(candidates, count, start, end) == 0 <==> forall|m: int|
            m < count ==> !(#[trigger] holds_range(candidates, m, start, end)),
        holder_count(candidates, count, start, end) == 1 <==> holds_alone_below(
            candidates,
            count,
            last_holder(candidates, count, start, end),
            start,
            end,
        ),
        forall|n: int| #[trigger]
            holds_alone_below(candidates, count, n, start, end) ==> holder_count(
                candidates,
                count,
                start,
                end,
            ) == 1 && n == last_holder(candidates, count, start, end),
    decreases count,
{
    if count > 0 {
        lemma_holders(candidates, count - 1, start, end);
        let before = holder_count(candidates, count - 1, start, end);
        let here = holds_range(candidates, count - 1, start, end);
        assert(here == candidate_holds(candidates[count - 1], start, end));
        assert forall|n: int| #[trigger]
            holds_alone_below(candidates, count, n, start, end) implies holder_count(
            candidates,
            count,
            start,
            end,
        ) == 1 && n == last_holder(candidates, count, start, end) by {
            if here {
                assert(n == count - 1);
                assert forall|m: int| m < count - 1 implies !(#[trigger] holds_range(
                    candidates,
                    m,
                    start,
                    end,
                )) by {}
            } else {
                assert(holds_alone_below(candidates, count - 1, n, start, end));
            }
        }
        let last = last_holder(candidates, count, start, end);
        if holder_count(candidates, count, start, end) == 1 {
            if here {
                assert(before == 0);
                assert(last == count - 1);
                assert(holds_alone_below(candidates, count, last, start, end));
            } else {
                assert(holds_alone_below(candidates, count - 1, last, start, end));
                assert(holds_alone_below(candidates, count, last, start, end));
            }
        }
    }
}

/// A range is held once exactly when one candidate holds it and no other does.
proof fn lemma_held_once(candidates: Seq<CandidateView>, start: int, end: int)
    ensures
        holder_count(candidates, candidates.len() as int, start, end) == 1 <==> held_once(
            candidates,
            start,
            end,
        ),
        forall|n: int| #[trigger]
            holds_alone(candidates, n, start, end) ==> n == last_holder(
                candidates,
                candidates.len() as int,
                start,
                end,
            ),
{
    let count = candidates.len() as int;
    lemma_holders(candidates, count, start, end);
    let last = last_holder(candidates, count, start, end);
    if holder_count(candidates, count, start, end) == 1 {
        assert(holds_alone_below(candidates, count, last, start, end));
        assert forall|m: int| #[trigger] holds_range(candidates, m, start, end) implies m == last by {
            assert(m < count);
        }
        assert(holds_alone(candidates, last, start, end));
    }
    assert forall|n: int| #[trigger] holds_alone(candidates, n, start, end) implies n == last
        && holder_count(candidates, count, start, end) == 1 by {
        assert(holds_alone_below(candidates, count, n, start, end));
    }
}

/// Whether an unwind record stands at `rva`: aligned, of version 1 to 3, with flags that suit it, and
/// with room in one candidate for the header, the codes and what follows them.
pub open spec fn unwind_stands(
    data: Seq<u8>,
    image_size: int,
    candidates: Seq<CandidateView>,
    rva: int,
    end: int,
) -> bool {
    let version = data[rva] as int % 8;
    let handler = data[rva] as int / 8 % 4 != 0;
    let chained = data[rva] as int / 32 % 2 == 1;
    let large = data[rva] as int / 64;
    let units = data[rva + 2] as int;
    let codes = if version == 3 {
        2 * units
    } else {
        2 * (units + units % 2)
    };
    &&& rva % 4 == 0
    &&& 0 <= rva
    &&& rva + 4 <= data.len()
    &&& 1 <= version <= 3
    &&& version < 3 ==> large == 0
    &&& large <= 1
    &&& large == 1 ==> units != 0
    &&& !(handler && chained)
    &&& !handler && !chained ==> end == rva + 4 + codes
    &&& handler || chained ==> {
        let trailer = if chained {
            12int
        } else {
            4int
        };
        end == rva + 4 + codes + codes % 4 + trailer
    }
    &&& end <= data.len()
    &&& end <= image_size
    &&& held_once(candidates, rva, end)
}

/// An unwind record is accepted exactly when one stands there.
pub proof fn law_unwind_records(
    data: Seq<u8>,
    image_size: int,
    candidates: Seq<CandidateView>,
    rva: int,
)
    requires
        0 <= rva,
    ensures
        unwind_valid(data, image_size, candidates, rva) <==> exists|end: int| #[trigger]
            unwind_stands(data, image_size, candidates, rva, end),
{
    let end = unwind_end(data, rva);
    lemma_held_once(candidates, rva, end);
    if unwind_valid(data, image_size, candidates, rva) {
        assert(unwind_stands(data, image_size, candidates, rva, end));
    }
    if exists|other: int| #[trigger] unwind_stands(data, image_size, candidates, rva, other) {
        let other = choose|other: int| #[trigger]
            unwind_stands(data, image_size, candidates, rva, other);
        assert(other == end);
    }
}

/// Whether function `k` of the table at `start` is in order: it has bytes, ends in the image, begins
/// behind the one before it, lies in one candidate, and leads to an unwind record.
pub open spec fn function_in_order(
    data: Seq<u8>,
    image_size: int,
    candidates: Seq<CandidateView>,
    start: int,
    k: int,
) -> bool {
    let begin = le32(data, start + 12 * k);
    let end = le32(data, start + 12 * k + 4);
    &&& begin < end <= image_size
    &&& k > 0 ==> le32(data, start + 12 * (k - 1)) < begin
    &&& held_once(candidates, begin as int, end as int)
    &&& exists|unwound: int| #[trigger]
        unwind_stands(
            data,
            image_size,
            candidates,
            le32(data, start + 12 * k + 8) as int,
            unwound,
        )
}

/// How many of the first `count` functions candidate `n` holds.
pub open spec fn functions_held(
    data: Seq<u8>,
    candidates: Seq<CandidateView>,
    start: int,
    count: int,
    n: int,
) -> Set<int> {
    Set::new(
        |k: int|
            0 <= k < count && holds_alone(
                candidates,
                n,
                le32(data, start + 12 * k) as int,
                le32(data, start + 12 * k + 4) as int,
            ),
    )
}

/// The functions that a candidate holds, one function further.
proof fn lemma_held_grows(
    data: Seq<u8>,
    candidates: Seq<CandidateView>,
    start: int,
    k: int,
    n: int,
    m: int,
)
    requires
        0 <= k,
        functions_held(data, candidates, start, k, m).finite(),
        holds_alone(
            candidates,
            n,
            le32(data, start + 12 * k) as int,
            le32(data, start + 12 * k + 4) as int,
        ),
    ensures
        functions_held(data, candidates, start, k + 1, m).finite(),
        functions_held(data, candidates, start, k + 1, m).len() == functions_held(
            data,
            candidates,
            start,
            k,
            m,
        ).len() + (if m == n {
            1int
        } else {
            0int
        }),
{
    let held = functions_held(data, candidates, start, k, m);
    let more = functions_held(data, candidates, start, k + 1, m);
    let begin = le32(data, start + 12 * k) as int;
    let end = le32(data, start + 12 * k + 4) as int;
    if m == n {
        assert(more =~= held.insert(k));
    } else {
        if holds_alone(candidates, m, begin, end) {
            assert(holds_range(candidates, n, begin, end));
        }
        assert(more =~= held);
    }
}

/// What one entry of the table does to the state.
proof fn lemma_evidence_step(
    data: Seq<u8>,
    image_size: int,
    candidates: Seq<CandidateView>,
    start: int,
    k: int,
    before: EvidenceState,
) -> (n: int)
    requires
        0 <= k,
        image_size <= u32::MAX,
        before.counts.len() == candidates.len(),
        before.valid ==> (k == 0 ==> before.previous is None) && (k > 0 ==> before.previous is Some
            && before.previous->0 == le32(data, start + 12 * (k - 1))),
    ensures
        ({
            let after = evidence_step(data, image_size, candidates, start + 12 * k, before);
            let begin = le32(data, start + 12 * k) as int;
            let end = le32(data, start + 12 * k + 4) as int;
            &&& after.counts.len() == candidates.len()
            &&& after.valid <==> before.valid && function_in_order(
                data,
                image_size,
                candidates,
                start,
                k,
            )
            &&& after.valid ==> {
                &&& after.previous is Some
                &&& after.previous->0 == begin
                &&& holds_alone(candidates, n, begin, end)
                &&& forall|m: int|
                    0 <= m < candidates.len() ==> (#[trigger] after.counts[m]).0 == (if m == n {
                        (before.counts[m].0 + 1) as usize
                    } else {
                        before.counts[m].0
                    })
            }
        }),
{
    let at = start + 12 * k;
    let begin = le32(data, at) as int;
    let end = le32(data, at + 4) as int;
    let unwind = le32(data, at + 8) as int;
    lemma_held_once(candidates, begin, end);
    law_unwind_records(data, image_size, candidates, unwind);
    if held_once(candidates, begin, end) {
        let n = choose|n: int| #[trigger] holds_alone(candidates, n, begin, end);
        assert(n == last_holder(candidates, candidates.len() as int, begin, end));
        n
    } else {
        0
    }
}

/// Whether each count of a state is the number of functions that the candidate holds.
spec fn counts_held(
    data: Seq<u8>,
    candidates: Seq<CandidateView>,
    start: int,
    count: int,
    counts: Seq<(usize, usize)>,
) -> bool {
    forall|n: int|
        0 <= n < candidates.len() ==> count_held(
            data,
            candidates,
            start,
            count,
            n,
            #[trigger] counts[n],
        )
}

/// Whether a count is the number of functions that candidate `n` holds.
spec fn count_held(
    data: Seq<u8>,
    candidates: Seq<CandidateView>,
    start: int,
    count: int,
    n: int,
    pair: (usize, usize),
) -> bool {
    let held = functions_held(data, candidates, start, count, n);
    held.finite() && pair.0 == held.len() && pair.0 <= count
}

/// The state after the first functions of a table in order.
proof fn lemma_table_in_order(
    data: Seq<u8>,
    image_size: int,
    candidates: Seq<CandidateView>,
    start: int,
    count: int,
    valid: bool,
)
    requires
        0 <= count <= usize::MAX,
        image_size <= u32::MAX,
        forall|n: int|
            0 <= n < candidates.len() ==> (
            #[trigger] candidates[n]).location.runtime_function_count == 0,
    ensures
        ({
            let state = evidence_after(data, image_size, candidates, start, count, valid);
            &&& state.counts.len() == candidates.len()
            &&& state.valid <==> valid && forall|k: int|
                0 <= k < count ==> #[trigger] function_in_order(
                    data,
                    image_size,
                    candidates,
                    start,
                    k,
                )
            &&& state.valid ==> (count == 0 ==> state.previous is None) && (count > 0
                ==> state.previous is Some && state.previous->0 == le32(
                data,
                start + 12 * (count - 1),
            ))
            &&& state.valid ==> counts_held(data, candidates, start, count, state.counts)
        }),
    decreases count,
{
    let state = evidence_after(data, image_size, candidates, start, count, valid);
    if count == 0 {
        assert forall|n: int| 0 <= n < candidates.len() implies count_held(
            data,
            candidates,
            start,
            count,
            n,
            #[trigger] state.counts[n],
        ) by {
            assert(functions_held(data, candidates, start, count, n) =~= Set::empty());
            assert(candidates[n].location.runtime_function_count == 0);
        }
    } else {
        let k = count - 1;
        lemma_table_in_order(data, image_size, candidates, start, k, valid);
        let before = evidence_after(data, image_size, candidates, start, k, valid);
        assert(k * 12 == 12 * k);
        let n = lemma_evidence_step(data, image_size, candidates, start, k, before);
        assert(state == evidence_step(data, image_size, candidates, start + 12 * k, before));
        if state.valid {
            assert forall|m: int| 0 <= m < candidates.len() implies count_held(
                data,
                candidates,
                start,
                count,
                m,
                #[trigger] state.counts[m],
            ) by {
                assert(count_held(data, candidates, start, k, m, before.counts[m]));
                lemma_held_grows(data, candidates, start, k, n, m);
            }
        }
    }
}

/// Whether an image has a runtime-function table: a declared directory with an aligned RVA, in the
/// image and in the data, that some candidate holds.
pub open spec fn table_stands(
    pe: PeImage,
    len: int,
    candidates: Seq<CandidateView>,
    rva: int,
    size: int,
) -> bool {
    &&& pe.nt_headers.optional_header.number_of_rva_and_sizes >= 4
    &&& pe.nt_headers.file_header.size_of_optional_header >= 144
    &&& pe.nt_headers@.data_directories[3].virtual_address == rva
    &&& pe.nt_headers@.data_directories[3].size == size
    &&& rva != 0
    &&& size != 0
    &&& rva % 4 == 0
    &&& rva + size <= pe.nt_headers.optional_header.size_of_image
    &&& rva + size <= len
    &&& exists|n: int| #[trigger] holds_range(candidates, n, rva, rva + size)
}

/// The evidence of runtime functions is absent exactly without a directory, and valid exactly with a
/// table of whole entries whose functions are all in order.
pub proof fn law_function_evidence(
    data: Seq<u8>,
    pe: PeImage,
    candidates: Seq<CandidateView>,
    rva: int,
    size: int,
)
    requires
        pe.nt_headers@.data_directories[3].virtual_address == rva,
        pe.nt_headers@.data_directories[3].size == size,
        forall|n: int|
            0 <= n < candidates.len() ==> (
            #[trigger] candidates[n]).location.runtime_function_count == 0,
    ensures
        ({
            let evidence = runtime_evidence(data, pe, candidates);
            let declared = pe.nt_headers.optional_header.number_of_rva_and_sizes >= 4
                && pe.nt_headers.file_header.size_of_optional_header >= 144;
            &&& evidence == RuntimeFunctionEvidence::NotPresent <==> !declared || (rva == 0 && size
                == 0)
            &&& evidence == RuntimeFunctionEvidence::Valid <==> {
                &&& table_stands(pe, data.len() as int, candidates, rva, size)
                &&& size % 12 == 0
                &&& forall|k: int|
                    0 <= k < size / 12 ==> #[trigger] function_in_order(
                        data,
                        pe.nt_headers.optional_header.size_of_image as int,
                        candidates,
                        rva,
                        k,
                    )
            }
        }),
{
    let image_size = pe.nt_headers.optional_header.size_of_image as int;
    lemma_table_in_order(data, image_size, candidates, rva, size / 12, size % 12 == 0);
    if crate::code_section::some_holder(candidates, rva, rva + size) {
        let n = choose|n: int|
            0 <= n < candidates.len() && candidate_holds(
                #[trigger] candidates[n],
                rva,
                rva + size,
            );
        assert(holds_range(candidates, n, rva, rva + size));
    }
    if exists|n: int| #[trigger] holds_range(candidates, n, rva, rva + size) {
        let n = choose|n: int| #[trigger] holds_range(candidates, n, rva, rva + size);
        assert(candidate_holds(candidates[n], rva, rva + size));
    }
}

/// Where the evidence is valid, each candidate has as many functions as the table has entries that
/// it holds.
pub proof fn law_functions_are_counted(
    data: Seq<u8>,
    pe: PeImage,
    candidates: Seq<CandidateView>,
    rva: int,
    size: int,
    n: int,
)
    requires
        pe.nt_headers@.data_directories[3].virtual_address == rva,
        pe.nt_headers@.data_directories[3].size == size,
        forall|m: int|
            0 <= m < candidates.len() ==> (
            #[trigger] candidates[m]).location.runtime_function_count == 0,
        runtime_evidence(data, pe, candidates) == RuntimeFunctionEvidence::Valid,
        0 <= n < candidates.len(),
    ensures
        crate::code_section::with_evidence(
            data,
            pe,
            candidates,
        )[n].location.runtime_function_count == functions_held(
            data,
            candidates,
            rva,
            size / 12,
            n,
        ).len(),
{
    let image_size = pe.nt_headers.optional_header.size_of_image as int;
    lemma_table_in_order(data, image_size, candidates, rva, size / 12, size % 12 == 0);
    let state = table_evidence(data, pe, candidates, rva, size);
    assert(count_held(data, candidates, rva, size / 12, n, state.counts[n]));
}

} // verus!
