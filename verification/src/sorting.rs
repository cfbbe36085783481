//! Ordering of records by RVA and name.

use vstd::prelude::*;
use vstd::utf8::encode_utf8;

verus! {

/// Whether `left` stands before `right` byte by byte.
pub open spec fn bytes_less(left: Seq<u8>, right: Seq<u8>) -> bool
    decreases left.len(),
{
    if right.len() == 0 {
        false
    } else if left.len() == 0 {
        true
    } else {
        left[0] < right[0] || (left[0] == right[0] && bytes_less(
            left.drop_first(),
            right.drop_first(),
        ))
    }
}

/// Whether a name stands before another: texts are ordered by their UTF-8 bytes.
pub open spec fn name_less(left: Seq<char>, right: Seq<char>) -> bool {
    bytes_less(encode_utf8(left), encode_utf8(right))
}

/// A record with an RVA and a name.
pub trait RvaNamed: Sized {
    /// The RVA of the record.
    spec fn key_rva(&self) -> usize;

    /// The name of the record.
    spec fn key_name(&self) -> Seq<char>;

    /// The RVA of the record.
    fn rva_key(&self) -> (r: usize)
        ensures
            r == self.key_rva(),
    ;

    /// The name of the record.
    fn name_key(&self) -> (r: &'static str)
        ensures
            r@ == self.key_name(),
    ;
}

/// Whether `left` may stand before `right`: by RVA, then by name.
pub open spec fn in_order<T: RvaNamed>(left: T, right: T) -> bool {
    left.key_rva() < right.key_rva() || (left.key_rva() == right.key_rva() && !name_less(
        right.key_name(),
        left.key_name(),
    ))
}

/// Whether records are ordered by RVA, then by name.
pub open spec fn ordered<T: RvaNamed>(records: Seq<T>) -> bool {
    forall|i: int, j: int|
        0 <= i < j < records.len() ==> in_order(#[trigger] records[i], #[trigger] records[j])
}

/// "Not before" carries over: when `b` is not before `a` and `c` is not before `b`, `c` is not
/// before `a`.
proof fn lemma_not_less_transitive(a: Seq<u8>, b: Seq<u8>, c: Seq<u8>)
    requires
        !bytes_less(b, a),
        !bytes_less(c, b),
    ensures
        !bytes_less(c, a),
    decreases a.len(),
{
    if a.len() > 0 && b.len() > 0 && c.len() > 0 && a[0] == b[0] && b[0] == c[0] {
        lemma_not_less_transitive(a.drop_first(), b.drop_first(), c.drop_first());
    }
}

/// Of two byte runs at most one is before the other.
proof fn lemma_less_asymmetric(a: Seq<u8>, b: Seq<u8>)
    requires
        bytes_less(a, b),
    ensures
        !bytes_less(b, a),
    decreases a.len(),
{
    if a.len() > 0 && a[0] == b[0] {
        lemma_less_asymmetric(a.drop_first(), b.drop_first());
    }
}

/// Order carries over.
proof fn lemma_in_order_transitive<T: RvaNamed>(a: T, b: T, c: T)
    requires
        in_order(a, b),
        in_order(b, c),
    ensures
        in_order(a, c),
{
    if a.key_rva() == b.key_rva() && b.key_rva() == c.key_rva() {
        lemma_not_less_transitive(
            encode_utf8(a.key_name()),
            encode_utf8(b.key_name()),
            encode_utf8(c.key_name()),
        );
    }
}

/// Reports whether a name stands before another.
pub fn is_name_less(left: &str, right: &str) -> (r: bool)
    ensures
        r == name_less(left@, right@),
{
    let left_bytes: &[u8] = left.as_bytes();
    let right_bytes: &[u8] = right.as_bytes();
    let mut index: usize = 0;
    assert(left_bytes@.skip(0) =~= left_bytes@);
    assert(right_bytes@.skip(0) =~= right_bytes@);
    while index < left_bytes.len() && index < right_bytes.len()
        invariant
            index <= left_bytes@.len(),
            index <= right_bytes@.len(),
            left_bytes@ == encode_utf8(left@),
            right_bytes@ == encode_utf8(right@),
            name_less(left@, right@) == bytes_less(
                left_bytes@.skip(index as int),
                right_bytes@.skip(index as int),
            ),
        decreases left_bytes.len() - index,
    {
        let ghost l = left_bytes@.skip(index as int);
        let ghost r = right_bytes@.skip(index as int);
        assert(l[0] == left_bytes@[index as int] && r[0] == right_bytes@[index as int]);
        assert(l.drop_first() =~= left_bytes@.skip(index + 1));
        assert(r.drop_first() =~= right_bytes@.skip(index + 1));
        if left_bytes[index] != right_bytes[index] {
            return left_bytes[index] < right_bytes[index];
        }
        index += 1;
    }
    index < right_bytes.len()
}

/// Reports whether a record has to stand before another.
fn stands_before<T: RvaNamed>(left: &T, right: &T) -> (r: bool)
    ensures
        r == !in_order(*right, *left),
{
    if left.rva_key() != right.rva_key() {
        return left.rva_key() < right.rva_key();
    }
    is_name_less(left.name_key(), right.name_key())
}

/// A record that stands before another is in order with it.
proof fn lemma_before_is_in_order<T: RvaNamed>(left: T, right: T)
    requires
        !in_order(right, left),
    ensures
        in_order(left, right),
{
    if left.key_rva() == right.key_rva() {
        lemma_less_asymmetric(encode_utf8(left.key_name()), encode_utf8(right.key_name()));
    }
}

/// Puts one more record into ordered records.
fn insert_ordered<T: RvaNamed>(records: &mut Vec<T>, record: T)
    requires
        ordered(old(records)@),
    ensures
        ordered(final(records)@),
        final(records)@.to_multiset() == old(records)@.to_multiset().insert(record),
{
    let mut position: usize = records.len();
    while position > 0 && stands_before(&record, &records[position - 1])
        invariant
            position <= records@.len(),
            forall|i: int|
                position <= i < records@.len() ==> !in_order(#[trigger] records@[i], record),
        decreases position,
    {
        position -= 1;
    }
    let ghost before = records@;
    let ghost p = position as int;
    records.insert(position, record);
    proof {
        let after = records@;
        assert(after =~= before.insert(p, record));
        vstd::seq_lib::to_multiset_insert(before, p, record);
        assert forall|i: int, j: int| 0 <= i < j < after.len() implies in_order(
            #[trigger] after[i],
            #[trigger] after[j],
        ) by {
            if i == p {
                assert(after[j] == before[j - 1]);
                lemma_before_is_in_order(record, before[j - 1]);
            } else if j == p {
                assert(in_order(before[p - 1], record));
                assert(after[i] == before[i]);
                if i < p - 1 {
                    lemma_in_order_transitive(before[i], before[p - 1], record);
                }
            } else {
                let bi = if i < p {
                    i
                } else {
                    i - 1
                };
                let bj = if j < p {
                    j
                } else {
                    j - 1
                };
                assert(after[i] == before[bi] && after[j] == before[bj]);
                assert(in_order(before[bi], before[bj]));
            }
        }
    }
}

/// Orders records by RVA, then by name.
pub fn sort_records<T: RvaNamed>(records: Vec<T>) -> (r: Vec<T>)
    ensures
        ordered(r@),
        r@.to_multiset() == records@.to_multiset(),
{
    broadcast use vstd::seq_lib::group_to_multiset_ensures;
    broadcast use vstd::multiset::group_multiset_axioms;

    let mut source = records;
    let mut stack: Vec<T> = Vec::with_capacity(source.len());
    let mut sorted: Vec<T> = Vec::with_capacity(source.len());
    let ghost all = records@.to_multiset();
    proof {
        assert(stack@ =~= Seq::<T>::empty());
        assert(sorted@ =~= Seq::<T>::empty());
        assert(source@.to_multiset().add(stack@.to_multiset()) =~= all);
    }
    while source.len() > 0
        invariant
            source@.to_multiset().add(stack@.to_multiset()) =~= all,
        decreases source.len(),
    {
        let ghost before = source@;
        let ghost stacked = stack@;
        match source.pop() {
            Some(record) => {
                stack.push(record);
                proof {
                    assert(before =~= source@.push(record));
                    vstd::seq_lib::to_multiset_build(source@, record);
                    vstd::seq_lib::to_multiset_build(stacked, record);
                    assert(stack@ =~= stacked.push(record));
                }
                assert(source@.to_multiset().add(stack@.to_multiset()) =~= all);
            },
            None => {},
        }
    }
    assert(source@ =~= Seq::<T>::empty());
    assert(sorted@.to_multiset().add(stack@.to_multiset()) =~= all);
    while stack.len() > 0
        invariant
            ordered(sorted@),
            sorted@.to_multiset().add(stack@.to_multiset()) =~= all,
        decreases stack.len(),
    {
        let ghost before = stack@;
        match stack.pop() {
            Some(record) => {
                insert_ordered(&mut sorted, record);
                proof {
                    assert(before =~= stack@.push(record));
                    vstd::seq_lib::to_multiset_build(stack@, record);
                }
                assert(sorted@.to_multiset().add(stack@.to_multiset()) =~= all);
            },
            None => {},
        }
    }
    assert(stack@ =~= Seq::<T>::empty());
    assert(sorted@.to_multiset() =~= all);
    sorted
}

} // verus!
