//! Order of names, parts of paths, source paths, and progress, stated over characters and bytes.

use vstd::prelude::*;
use vstd::utf8::{decode_utf8, encode_utf8, valid_utf8};

use crate::debuginfo::dbi::{
    first_undecodable, source_paths_outcome, DbiSourcePathCollectionError, DbiSourcePaths,
};
use crate::paths::{tail, tail_start};
use crate::progress::interval_updates;
use crate::sorting::{bytes_less, in_order, ordered, RvaNamed};

verus! {

/// Whether bytes are alike before `k`, and there the left ones end or hold the smaller byte.
pub open spec fn first_differs_at(left: Seq<u8>, right: Seq<u8>, k: int) -> bool {
    &&& 0 <= k <= left.len()
    &&& k < right.len()
    &&& forall|i: int| 0 <= i < k ==> #[trigger] left[i] == right[i]
    &&& k == left.len() || left[k] < right[k]
}

/// Bytes stand before others exactly when they do so at the first place at which they differ.
pub proof fn law_byte_order(left: Seq<u8>, right: Seq<u8>)
    ensures
        bytes_less(left, right) <==> exists|k: int| #[trigger] first_differs_at(left, right, k),
    decreases left.len(),
{
    if right.len() > 0 && left.len() == 0 {
        assert(first_differs_at(left, right, 0));
    } else if right.len() > 0 {
        let (l, r) = (left.drop_first(), right.drop_first());
        law_byte_order(l, r);
        if left[0] < right[0] {
            assert(first_differs_at(left, right, 0));
        } else if left[0] == right[0] {
            if bytes_less(l, r) {
                let k = choose|k: int| #[trigger] first_differs_at(l, r, k);
                assert forall|i: int| 0 <= i < k + 1 implies #[trigger] left[i] == right[i] by {
                    if i > 0 {
                        assert(l[i - 1] == r[i - 1]);
                    }
                }
                assert(k < l.len() ==> left[k + 1] == l[k] && right[k + 1] == r[k]);
                assert(first_differs_at(left, right, k + 1));
            }
            if exists|k: int| #[trigger] first_differs_at(left, right, k) {
                let k = choose|k: int| #[trigger] first_differs_at(left, right, k);
                assert(k > 0);
                assert forall|i: int| 0 <= i < k - 1 implies #[trigger] l[i] == r[i] by {
                    assert(left[i + 1] == right[i + 1]);
                }
                assert(k < left.len() ==> left[k] == l[k - 1] && right[k] == r[k - 1]);
                assert(first_differs_at(l, r, k - 1));
            }
        } else {
            assert forall|k: int| !(#[trigger] first_differs_at(left, right, k)) by {
                if k > 0 && first_differs_at(left, right, k) {
                    assert(left[0] == right[0]);
                }
            }
        }
    }
}

/// Ordered records ascend by their RVA, and under one RVA no name stands behind a smaller one.
pub proof fn law_ordered_records<T: RvaNamed>(records: Seq<T>, i: int, j: int)
    requires
        ordered(records),
        0 <= i < j < records.len(),
    ensures
        records[i].key_rva() <= records[j].key_rva(),
        records[i].key_rva() == records[j].key_rva() ==> !(exists|k: int| #[trigger]
            first_differs_at(
                encode_utf8(records[j].key_name()),
                encode_utf8(records[i].key_name()),
                k,
            )),
{
    assert(in_order(records[i], records[j]));
    law_byte_order(encode_utf8(records[j].key_name()), encode_utf8(records[i].key_name()));
}

/// The tail of a path begins behind its last separator.
proof fn lemma_tail_start(path: Seq<char>, count: int, backslash: bool)
    requires
        0 <= count <= path.len(),
    ensures
        ({
            let start = tail_start(path, count, backslash);
            &&& 0 <= start <= count
            &&& start > 0 ==> path[start - 1] == '/' || (backslash && path[start - 1] == '\\')
            &&& forall|i: int|
                start <= i < count ==> #[trigger] path[i] != '/' && !(backslash && path[i] == '\\')
        }),
    decreases count,
{
    if count > 0 && !crate::paths::is_separator(path[count - 1], backslash) {
        lemma_tail_start(path, count - 1, backslash);
    }
}

/// The tail of a path has no separator, and stands behind one or is the whole path.
pub proof fn law_path_tail(path: Seq<char>, backslash: bool)
    ensures
        ({
            let name = tail(path, backslash);
            let start = path.len() - name.len();
            &&& 0 <= start
            &&& path.subrange(start, path.len() as int) == name
            &&& start > 0 ==> path[start - 1] == '/' || (backslash && path[start - 1] == '\\')
            &&& forall|i: int|
                0 <= i < name.len() ==> #[trigger] name[i] != '/' && !(backslash && name[i] == '\\')
        }),
{
    lemma_tail_start(path, path.len() as int, backslash);
    let start = tail_start(path, path.len() as int, backslash);
    let name = tail(path, backslash);
    assert forall|i: int| 0 <= i < name.len() implies #[trigger] name[i] != '/' && !(backslash
        && name[i] == '\\') by {
        assert(name[i] == path[start + i]);
    }
}

/// The first path that is not valid UTF-8, from `index` on.
proof fn lemma_first_undecodable(paths: Seq<Vec<u8>>, index: int)
    requires
        0 <= index <= paths.len(),
        paths.len() <= usize::MAX,
    ensures
        match first_undecodable(paths, index) {
            Some(at) => {
                &&& index <= at < paths.len()
                &&& !valid_utf8(paths[at as int]@)
                &&& forall|i: int| index <= i < at ==> valid_utf8((#[trigger] paths[i])@)
            },
            None => forall|i: int| index <= i < paths.len() ==> valid_utf8((#[trigger] paths[i])@),
        },
    decreases paths.len() - index,
{
    if index < paths.len() && valid_utf8(paths[index]@) {
        lemma_first_undecodable(paths, index + 1);
    }
}

/// Source paths are collected exactly when all of them are valid UTF-8 and as many as declared: all,
/// in order, repeated ones too. Otherwise the first that is not valid is told.
pub proof fn law_source_paths(
    raw_paths: Seq<Vec<u8>>,
    expected: usize,
    r: Result<DbiSourcePaths, DbiSourcePathCollectionError>,
)
    requires
        raw_paths.len() <= usize::MAX,
        source_paths_outcome(raw_paths, expected, r),
    ensures
        r is Ok <==> raw_paths.len() == expected && forall|i: int|
            0 <= i < raw_paths.len() ==> valid_utf8((#[trigger] raw_paths[i])@),
        r is Ok ==> r->Ok_0.paths@.len() == raw_paths.len() && forall|i: int|
            0 <= i < raw_paths.len() ==> (#[trigger] r->Ok_0.paths@[i])@ == decode_utf8(
                raw_paths[i]@,
            ),
        match r {
            Err(DbiSourcePathCollectionError::InvalidSourcePathEncoding { source_index }) => {
                &&& source_index < raw_paths.len()
                &&& !valid_utf8(raw_paths[source_index as int]@)
                &&& forall|i: int| 0 <= i < source_index ==> valid_utf8((#[trigger] raw_paths[i])@)
            },
            Err(DbiSourcePathCollectionError::InvalidSourcePath { source_index }) => {
                &&& source_index == raw_paths.len()
                &&& source_index != expected
            },
            Err(_) => false,
            Ok(_) => true,
        },
{
    lemma_first_undecodable(raw_paths, 0);
}

/// A scan over some positions reports at every 0x10000th of them, and nowhere else.
pub proof fn law_progress_intervals(before: usize, positions: int, total: usize, p: int)
    requires
        0 <= positions,
        before + positions <= usize::MAX,
        0 <= p < positions,
        p % 0x1_0000 == 0,
    ensures
        ({
            let updates = interval_updates(before, positions, total);
            let k = p / 0x1_0000;
            &&& 0 <= k < updates.len()
            &&& updates[k] == ((before + p) as usize, total)
            &&& (updates.len() - 1) * 0x1_0000 < positions
        }),
{
}

} // verus!
