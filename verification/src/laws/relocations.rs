//! Base relocations and backing bytes, stated over the bytes of the file.

use vstd::prelude::*;

use crate::backing::{file_range_from, ValidatedPeFile};
use crate::bytes::{le16, le32};
use crate::opcode::relocation::{
    ranges_of, relocation_blocks, relocation_entries, ProcessRelocationRange,
};

verus! {

/// Whether blocks stand behind each other from the start of the data: block `i` at `starts[i]`,
/// each with room for its header and for the size that the header says.
pub open spec fn blocks_stand(data: Seq<u8>, starts: Seq<int>) -> bool {
    &&& starts.len() > 0
    &&& starts[0] == 0
    &&& forall|i: int|
        0 <= i < starts.len() - 1 ==> #[trigger] starts[i + 1] == starts[i] + le32(
            data,
            starts[i] + 4,
        )
}

/// Whether the block at `at` is in order: a page, and a size of whole entries in pairs inside the
/// data.
pub open spec fn block_in_order(data: Seq<u8>, at: int) -> bool {
    &&& 0 <= at
    &&& at + 8 <= data.len()
    &&& le32(data, at) % 4096 == 0
    &&& le32(data, at + 4) >= 8
    &&& le32(data, at + 4) % 4 == 0
    &&& at + le32(data, at + 4) <= data.len()
}

/// Whether entry `k` of the block at `at` asks for nothing, or for an eight-byte address inside the
/// image.
pub open spec fn entry_in_order(data: Seq<u8>, at: int, k: int, image_size: int) -> bool {
    let entry = le16(data, at + 8 + 2 * k);
    let target = le32(data, at) + entry % 4096;
    entry / 4096 == 0 || (entry / 4096 == 10 && target + 8 <= image_size)
}

/// Whether entry `k` of the block at `at` asks for the address at `rva`.
pub open spec fn entry_targets(data: Seq<u8>, at: int, k: int, rva: int) -> bool {
    let entry = le16(data, at + 8 + 2 * k);
    &&& 0 <= k
    &&& 8 + 2 * k < le32(data, at + 4)
    &&& entry / 4096 == 10
    &&& rva == le32(data, at) + entry % 4096
}

/// Whether some entry of the block at `at` asks for the address at `rva`.
pub open spec fn block_targets(data: Seq<u8>, at: int, rva: int) -> bool {
    exists|m: int| #[trigger] entry_targets(data, at, m, rva)
}

/// What was found before stays, entries in order are accepted, and each that asks for an address
/// is listed.
proof fn lemma_entries(
    data: Seq<u8>,
    base: int,
    k: int,
    image_size: int,
    found: Seq<usize>,
)
    requires
        block_in_order(data, base),
        0 <= k,
        8 + 2 * k <= le32(data, base + 4),
        0 <= image_size <= usize::MAX,
    ensures
        ({
            let r = relocation_entries(
                data,
                base + 8 + 2 * k,
                base + le32(data, base + 4),
                le32(data, base) as int,
                image_size,
                found,
            );
            let count = (le32(data, base + 4) - 8) / 2;
            &&& r is Ok <==> forall|m: int|
                k <= m < count ==> #[trigger] entry_in_order(data, base, m, image_size)
            &&& r is Ok ==> {
                &&& found.len() <= r->Ok_0.len()
                &&& forall|i: int| 0 <= i < found.len() ==> #[trigger] r->Ok_0[i] == found[i]
                &&& forall|m: int, rva: int|
                    k <= m && #[trigger] entry_targets(data, base, m, rva) ==> r->Ok_0.contains(
                        rva as usize,
                    )
                &&& forall|i: int|
                    found.len() <= i < r->Ok_0.len() ==> block_targets(
                        data,
                        base,
                        #[trigger] r->Ok_0[i] as int,
                    )
            }
        }),
    decreases le32(data, base + 4) - 2 * k,
{
    let end = base + le32(data, base + 4);
    let at = base + 8 + 2 * k;
    let page = le32(data, base) as int;
    let count = (le32(data, base + 4) - 8) / 2;
    let r = relocation_entries(data, at, end, page, image_size, found);
    if at < end {
        assert(k < count);
        let entry = le16(data, at);
        let kind = (entry / 0x1000) as u16;
        let rva = page + entry % 0x1000;
        let here = entry_in_order(data, base, k, image_size);
        let more = if kind == 10 {
            found.push(rva as usize)
        } else {
            found
        };
        assert(at + 2 == base + 8 + 2 * (k + 1));
        lemma_entries(data, base, k + 1, image_size, more);
        if here {
            assert(r == relocation_entries(data, at + 2, end, page, image_size, more));
            if r is Ok {
                assert forall|i: int| 0 <= i < found.len() implies #[trigger] r->Ok_0[i]
                    == found[i] by {
                    assert(more[i] == found[i]);
                }
                assert forall|m: int, rva: int|
                    k <= m && #[trigger] entry_targets(data, base, m, rva) implies r->Ok_0.contains(
                    rva as usize,
                ) by {
                    if m == k {
                        assert(more[found.len() as int] == rva as usize);
                        assert(r->Ok_0[found.len() as int] == rva as usize);
                    }
                }
                assert forall|i: int| found.len() <= i < r->Ok_0.len() implies block_targets(
                    data,
                    base,
                    #[trigger] r->Ok_0[i] as int,
                ) by {
                    if i < more.len() {
                        assert(more[i] == rva as usize);
                        assert(entry_targets(data, base, k, r->Ok_0[i] as int));
                    }
                }
            }
        } else {
            assert(r is Err);
        }
    } else {
        assert(forall|m: int, rva: int|
            k <= m ==> !(#[trigger] entry_targets(data, base, m, rva)));
    }
}

/// Following blocks that stand behind each other keeps what was found and lists their targets.
proof fn lemma_blocks_list(
    data: Seq<u8>,
    at: int,
    image_size: int,
    found: Seq<usize>,
    starts: Seq<int>,
    i: int,
    j: int,
    k: int,
    rva: int,
)
    requires
        0 <= image_size <= usize::MAX,
        blocks_stand(data, starts),
        0 <= i <= j < starts.len(),
        at == starts[i],
        0 <= at,
        entry_targets(data, starts[j], k, rva),
        starts[j] + 8 <= data.len(),
        relocation_blocks(data, at, image_size, found) is Ok,
    ensures
        relocation_blocks(data, at, image_size, found)->Ok_0.contains(rva as usize),
        block_in_order(data, starts[j]),
        entry_in_order(data, starts[j], k, image_size),
    decreases j - i,
{
    lemma_starts_ascend(data, starts, i, j);
    let end = at + le32(data, at + 4);
    assert(block_in_order(data, at));
    let entries = relocation_entries(
        data,
        at + 8,
        end,
        le32(data, at) as int,
        image_size,
        found,
    );
    lemma_entries(data, at, 0, image_size, found);
    assert(entries is Ok);
    let more = entries->Ok_0;
    if i == j {
        assert(entry_in_order(data, at, k, image_size));
        assert(more.contains(rva as usize));
        lemma_blocks_keep(data, end, image_size, more);
        let n = more.index_of(rva as usize);
        assert(relocation_blocks(data, end, image_size, more)->Ok_0[n] == rva as usize);
    } else {
        assert(starts[i + 1] == end);
        lemma_blocks_list(data, end, image_size, more, starts, i + 1, j, k, rva);
    }
}

/// Blocks stand at ascending places.
proof fn lemma_starts_ascend(data: Seq<u8>, starts: Seq<int>, i: int, j: int)
    requires
        blocks_stand(data, starts),
        0 <= i <= j < starts.len(),
    ensures
        0 <= starts[i] <= starts[j],
    decreases j,
{
    if i < j {
        lemma_starts_ascend(data, starts, i, j - 1);
        assert(starts[j - 1 + 1] == starts[j - 1] + le32(data, starts[j - 1] + 4));
    } else if j > 0 {
        lemma_starts_ascend(data, starts, j - 1, j - 1);
        assert(starts[j - 1 + 1] == starts[j - 1] + le32(data, starts[j - 1] + 4));
    }
}

/// What was found before stays.
proof fn lemma_blocks_keep(data: Seq<u8>, at: int, image_size: int, found: Seq<usize>)
    requires
        0 <= at,
        0 <= image_size <= usize::MAX,
        relocation_blocks(data, at, image_size, found) is Ok,
    ensures
        ({
            let all = relocation_blocks(data, at, image_size, found)->Ok_0;
            &&& found.len() <= all.len()
            &&& forall|i: int| 0 <= i < found.len() ==> #[trigger] all[i] == found[i]
        }),
    decreases data.len() - at,
{
    if at < data.len() {
        let end = at + le32(data, at + 4);
        assert(block_in_order(data, at));
        lemma_entries(data, at, 0, image_size, found);
        let more = relocation_entries(
            data,
            at + 8,
            end,
            le32(data, at) as int,
            image_size,
            found,
        )->Ok_0;
        lemma_blocks_keep(data, end, image_size, more);
        let all = relocation_blocks(data, at, image_size, found)->Ok_0;
        assert forall|i: int| 0 <= i < found.len() implies #[trigger] all[i] == found[i] by {
            assert(more[i] == found[i]);
        }
    }
}

/// Every relocated address is listed: each entry of each block that asks for one, whichever block
/// it stands in.
pub proof fn law_every_relocation_is_listed(
    data: Seq<u8>,
    image_size: int,
    ranges: Seq<ProcessRelocationRange>,
    starts: Seq<int>,
    k: int,
    rva: int,
) -> (n: int)
    requires
        0 <= image_size <= usize::MAX,
        relocation_blocks(data, 0, image_size, Seq::empty()) is Ok,
        ranges_of(ranges, relocation_blocks(data, 0, image_size, Seq::empty())->Ok_0),
        blocks_stand(data, starts),
        starts.last() + 8 <= data.len(),
        entry_targets(data, starts.last(), k, rva),
    ensures
        0 <= n < ranges.len(),
        ranges[n].rva == rva,
        ranges[n].size == 8,
{
    let targets = relocation_blocks(data, 0, image_size, Seq::empty())->Ok_0;
    let j = starts.len() - 1;
    lemma_blocks_list(data, 0, image_size, Seq::empty(), starts, 0, j, k, rva);
    let m = targets.index_of(rva as usize);
    assert(targets[m] == rva as usize);
    let n = choose|n: int| 0 <= n < ranges.len() && (#[trigger] ranges[n]).rva == targets[m];
    n
}

/// A listed target is asked for by an entry of a block that is reached.
proof fn lemma_target_place(
    data: Seq<u8>,
    at: int,
    image_size: int,
    found: Seq<usize>,
    starts: Seq<int>,
    n: int,
) -> (place: (Seq<int>, int))
    requires
        0 <= at,
        0 <= image_size <= usize::MAX,
        blocks_stand(data, starts),
        starts.last() == at,
        relocation_blocks(data, at, image_size, found) is Ok,
        found.len() <= n < relocation_blocks(data, at, image_size, found)->Ok_0.len(),
    ensures
        blocks_stand(data, place.0),
        block_in_order(data, place.0.last()),
        entry_targets(
            data,
            place.0.last(),
            place.1,
            relocation_blocks(data, at, image_size, found)->Ok_0[n] as int,
        ),
    decreases data.len() - at,
{
    let end = at + le32(data, at + 4);
    assert(block_in_order(data, at));
    lemma_entries(data, at, 0, image_size, found);
    let more = relocation_entries(
        data,
        at + 8,
        end,
        le32(data, at) as int,
        image_size,
        found,
    )->Ok_0;
    lemma_blocks_keep(data, end, image_size, more);
    if n < more.len() {
        assert(relocation_blocks(data, end, image_size, more)->Ok_0[n] == more[n]);
        assert(block_targets(data, at, more[n] as int));
        let m = choose|m: int| #[trigger] entry_targets(data, at, m, more[n] as int);
        (starts, m)
    } else {
        let next = starts.push(end);
        assert forall|i: int| 0 <= i < next.len() - 1 implies #[trigger] next[i + 1] == next[i]
            + le32(data, next[i] + 4) by {
            if i + 1 < starts.len() {
                assert(starts[i + 1] == starts[i] + le32(data, starts[i] + 4));
            }
        }
        lemma_target_place(data, end, image_size, more, next, n)
    }
}

/// Nothing else is listed: each range is an eight-byte address that an entry of a block asks for.
pub proof fn law_listed_relocations_stand(
    data: Seq<u8>,
    image_size: int,
    ranges: Seq<ProcessRelocationRange>,
    n: int,
) -> (place: (Seq<int>, int))
    requires
        0 <= image_size <= usize::MAX,
        relocation_blocks(data, 0, image_size, Seq::empty()) is Ok,
        ranges_of(ranges, relocation_blocks(data, 0, image_size, Seq::empty())->Ok_0),
        0 <= n < ranges.len(),
    ensures
        blocks_stand(data, place.0),
        block_in_order(data, place.0.last()),
        entry_targets(data, place.0.last(), place.1, ranges[n].rva as int),
        ranges[n].size == 8,
{
    let targets = relocation_blocks(data, 0, image_size, Seq::empty())->Ok_0;
    let m = targets.index_of(ranges[n].rva);
    lemma_target_place(data, 0, image_size, Seq::empty(), seq![0], m)
}

/// Blocks in order up to the end of the data, with entries in order, are accepted.
proof fn lemma_blocks_accepted(
    data: Seq<u8>,
    image_size: int,
    found: Seq<usize>,
    starts: Seq<int>,
    i: int,
)
    requires
        0 <= image_size <= usize::MAX,
        blocks_stand(data, starts),
        0 <= i < starts.len(),
        starts.last() == data.len(),
        forall|b: int, m: int|
            0 <= b < starts.len() - 1 && 0 <= m < (le32(data, starts[b] + 4) - 8) / 2
                ==> #[trigger] entry_in_order(data, starts[b], m, image_size),
        forall|b: int| 0 <= b < starts.len() - 1 ==> block_in_order(data, #[trigger] starts[b]),
    ensures
        relocation_blocks(data, starts[i], image_size, found) is Ok,
    decreases starts.len() - i,
{
    if i < starts.len() - 1 {
        let at = starts[i];
        assert(block_in_order(data, starts[i]));
        assert(starts[i + 1] == at + le32(data, at + 4));
        lemma_entries(data, at, 0, image_size, found);
        let entries = relocation_entries(
            data,
            at + 8,
            at + le32(data, at + 4),
            le32(data, at) as int,
            image_size,
            found,
        );
        assert(entries is Ok);
        lemma_blocks_accepted(data, image_size, entries->Ok_0, starts, i + 1);
    }
}

/// A directory of blocks in order with entries in order is accepted.
pub proof fn law_relocations_in_order_are_accepted(
    data: Seq<u8>,
    image_size: int,
    starts: Seq<int>,
)
    requires
        0 <= image_size <= usize::MAX,
        blocks_stand(data, starts),
        starts.last() == data.len(),
        forall|b: int| 0 <= b < starts.len() - 1 ==> block_in_order(data, #[trigger] starts[b]),
        forall|b: int, m: int|
            0 <= b < starts.len() - 1 && 0 <= m < (le32(data, starts[b] + 4) - 8) / 2
                ==> #[trigger] entry_in_order(data, starts[b], m, image_size),
    ensures
        relocation_blocks(data, 0, image_size, Seq::empty()) is Ok,
{
    lemma_blocks_accepted(data, image_size, Seq::empty(), starts, 0);
}

/// In an accepted directory every block that is reached is in order.
proof fn lemma_accepted_blocks(
    data: Seq<u8>,
    at: int,
    image_size: int,
    found: Seq<usize>,
    starts: Seq<int>,
    i: int,
    j: int,
)
    requires
        0 <= image_size <= usize::MAX,
        blocks_stand(data, starts),
        0 <= i <= j < starts.len(),
        at == starts[i],
        0 <= at,
        starts[j] < data.len(),
        relocation_blocks(data, at, image_size, found) is Ok,
    ensures
        block_in_order(data, starts[j]),
        forall|m: int|
            0 <= m < (le32(data, starts[j] + 4) - 8) / 2 ==> #[trigger] entry_in_order(
                data,
                starts[j],
                m,
                image_size,
            ),
    decreases j - i,
{
    lemma_starts_ascend(data, starts, i, j);
    let end = at + le32(data, at + 4);
    assert(block_in_order(data, at));
    lemma_entries(data, at, 0, image_size, found);
    if i < j {
        let more = relocation_entries(
            data,
            at + 8,
            end,
            le32(data, at) as int,
            image_size,
            found,
        )->Ok_0;
        assert(starts[i + 1] == end);
        lemma_accepted_blocks(data, end, image_size, more, starts, i + 1, j);
    }
}

/// An accepted directory holds only blocks in order with entries in order.
pub proof fn law_accepted_relocations_are_in_order(
    data: Seq<u8>,
    image_size: int,
    starts: Seq<int>,
    m: int,
)
    requires
        0 <= image_size <= usize::MAX,
        relocation_blocks(data, 0, image_size, Seq::empty()) is Ok,
        blocks_stand(data, starts),
        starts.last() < data.len(),
    ensures
        block_in_order(data, starts.last()),
        0 <= m && 8 + 2 * m < le32(data, starts.last() + 4) ==> entry_in_order(
            data,
            starts.last(),
            m,
            image_size,
        ),
{
    let j = starts.len() - 1;
    lemma_accepted_blocks(data, 0, image_size, Seq::empty(), starts, 0, j);
}

/// The first stored run that holds an RVA says where it is stored.
proof fn lemma_file_range(file: ValidatedPeFile, index: int, i: int, rva: int)
    requires
        file.wf(),
        0 <= index <= i < file.ranges@.len(),
        file.ranges@[i].rva <= rva < file.ranges@[i].rva + file.ranges@[i].size,
        forall|j: int|
            index <= j < i ==> !((#[trigger] file.ranges@[j]).rva <= rva < file.ranges@[j].rva
                + file.ranges@[j].size),
    ensures
        file_range_from(file.ranges@, index, rva) == Some(
            (
                (file.ranges@[i].file_offset + (rva - file.ranges@[i].rva)) as usize,
                (file.ranges@[i].file_offset + file.ranges@[i].size) as usize,
            ),
        ),
    decreases i - index,
{
    if index < i {
        assert(!(file.ranges@[index].rva <= rva < file.ranges@[index].rva
            + file.ranges@[index].size));
        lemma_file_range(file, index + 1, i, rva);
    }
}

/// The backing byte of an RVA is the one as far into the stored run as the RVA is into the range of
/// the image that the run holds.
pub proof fn law_backing_byte_is_stored(file: ValidatedPeFile, i: int, rva: int)
    requires
        file.wf(),
        file.bytes@.len() <= usize::MAX,
        0 <= i < file.ranges@.len(),
        file.ranges@[i].rva <= rva < file.ranges@[i].rva + file.ranges@[i].size,
        forall|j: int|
            0 <= j < i ==> !((#[trigger] file.ranges@[j]).rva <= rva < file.ranges@[j].rva
                + file.ranges@[j].size),
    ensures
        file.byte_at(rva) == Some(
            file.bytes@[file.ranges@[i].file_offset + rva - file.ranges@[i].rva],
        ),
        file.file_range(rva) is Some,
        (file.file_range(rva)->0).0 == file.ranges@[i].file_offset + rva - file.ranges@[i].rva,
        (file.file_range(rva)->0).1 == file.ranges@[i].file_offset + file.ranges@[i].size,
{
    lemma_file_range(file, 0, i, rva);
    assert(file.ranges@[i].file_offset + file.ranges@[i].size <= file.bytes@.len());
}

/// No stored run that holds an RVA means no backing byte.
proof fn lemma_no_file_range(file: ValidatedPeFile, index: int, rva: int)
    requires
        0 <= index,
        forall|j: int|
            index <= j < file.ranges@.len() ==> !((#[trigger] file.ranges@[j]).rva <= rva
                < file.ranges@[j].rva + file.ranges@[j].size),
    ensures
        file_range_from(file.ranges@, index, rva) is None,
    decreases file.ranges@.len() - index,
{
    if index < file.ranges@.len() {
        lemma_no_file_range(file, index + 1, rva);
    }
}

/// An RVA that no stored run holds has no backing byte.
pub proof fn law_no_backing_byte_beside_runs(file: ValidatedPeFile, rva: int)
    requires
        forall|j: int|
            0 <= j < file.ranges@.len() ==> !((#[trigger] file.ranges@[j]).rva <= rva
                < file.ranges@[j].rva + file.ranges@[j].size),
    ensures
        file.byte_at(rva) is None,
{
    lemma_no_file_range(file, 0, rva);
}

} // verus!
