//! Decoded strings of a thread's stack.
//!
//! The scan is driven from outside: it names the next region query or read, and takes its outcome.

use vstd::prelude::*;

use crate::arith::min_usize;
use crate::memory::{
    MemoryRegion, MemoryRegionQueryError, ProcessMemoryRead, ProcessMemoryReadError,
};
use crate::progress::{Progress, ProgressLog};
use crate::string_scan::{
    collect_buffer_strings, decoded_views, effective_minimum, law_buffer_strings_ascend,
    string_updates, strings_ascend, strings_from, DecodedView,
};
use crate::strings::StringEncoding;
use crate::teb::ThreadTebInfo;
use crate::windows::{
    MEM_COMMIT, PAGE_BASE_PROTECTION_MASK, PAGE_EXECUTE_READ, PAGE_EXECUTE_READWRITE,
    PAGE_EXECUTE_WRITECOPY, PAGE_GUARD, PAGE_READONLY, PAGE_READWRITE, PAGE_WRITECOPY,
};

verus! {

/// Describes one decoded string stored directly in a thread stack.
#[derive(Clone, Debug, Eq, PartialEq)]
pub struct TebStackString {
    pub thread_id: u32,
    pub value: String,
    pub encoding: StringEncoding,
    pub address: usize,
    pub stack_offset: usize,
}

/// Owns every decoded string and region-read failure collected from one TEB-described stack.
#[derive(Clone, Debug, Eq, PartialEq)]
pub struct TebStackStringCollection {
    pub thread_id: u32,
    pub teb_address: usize,
    pub stack_base: usize,
    pub stack_limit: usize,
    pub bytes_read: usize,
    pub strings: Vec<TebStackString>,
    pub failures: Vec<TebStackRegionFailure>,
}

/// Associates one stack-memory range with the reason it could not be read completely.
#[derive(Clone, Copy, Debug, Eq, PartialEq, Structural)]
pub struct TebStackRegionFailure {
    pub address: usize,
    pub bytes_requested: usize,
    pub error: TebStackRegionReadError,
}

/// Explains why one readable stack-memory region was not copied completely.
#[derive(Clone, Copy, Debug, Eq, PartialEq, Structural)]
pub enum TebStackRegionReadError {
    ReadFailed(ProcessMemoryReadError),
    ReadIncomplete { status: i32, bytes_read: usize },
}

/// Explains why one TEB-described stack scan could not safely reach its next memory region.
#[allow(inconsistent_fields)]
#[derive(Clone, Copy, Debug, Eq, PartialEq, Structural)]
pub enum TebStackStringCollectionError {
    InvalidProcessHandle,
    ProcessIdUnavailable { error: u32 },
    TebProcessIdentityMismatch { thread_id: u32, process_id: u32, teb_process_id: usize },
    InvalidStackBounds { thread_id: u32, stack_base: usize, stack_limit: usize },
    StackRegionQueryFailed { thread_id: u32, address: usize, error: MemoryRegionQueryError },
    StackRegionRangeOverflow { thread_id: u32, base_address: usize, region_size: usize },
    StackRegionDidNotAdvance {
        thread_id: u32,
        address: usize,
        region_base_address: usize,
        region_size: usize,
    },
}

/// Whether a region can be read as string data.
pub open spec fn readable_region(region: MemoryRegion) -> bool {
    let protection = region.protect & PAGE_BASE_PROTECTION_MASK;
    &&& region.state == MEM_COMMIT
    &&& region.protect & PAGE_GUARD == 0
    &&& {
        ||| protection == PAGE_READONLY
        ||| protection == PAGE_READWRITE
        ||| protection == PAGE_WRITECOPY
        ||| protection == PAGE_EXECUTE_READ
        ||| protection == PAGE_EXECUTE_READWRITE
        ||| protection == PAGE_EXECUTE_WRITECOPY
    }
}

/// Reports whether a queried virtual-memory region can be read as string data.
pub fn is_readable_region(region: &MemoryRegion) -> (r: bool)
    ensures
        r == readable_region(*region),
{
    let protection: u32 = region.protect & PAGE_BASE_PROTECTION_MASK;
    region.state == MEM_COMMIT && region.protect & PAGE_GUARD == 0 && (protection == PAGE_READONLY
        || protection == PAGE_READWRITE || protection == PAGE_WRITECOPY || protection
        == PAGE_EXECUTE_READ || protection == PAGE_EXECUTE_READWRITE || protection
        == PAGE_EXECUTE_WRITECOPY)
}

/// Why the stack of a thread cannot be scanned.
pub open spec fn stack_scan_error(
    process_is_null: bool,
    process_id: u32,
    error: u32,
    teb: ThreadTebInfo,
) -> Option<TebStackStringCollectionError> {
    if process_is_null {
        Some(TebStackStringCollectionError::InvalidProcessHandle)
    } else if process_id == 0 {
        Some(TebStackStringCollectionError::ProcessIdUnavailable { error })
    } else if teb.client_process_id != process_id {
        Some(
            TebStackStringCollectionError::TebProcessIdentityMismatch {
                thread_id: teb.thread_id,
                process_id,
                teb_process_id: teb.client_process_id,
            },
        )
    } else if teb.stack_limit == 0 || teb.stack_base == 0 || teb.stack_limit >= teb.stack_base {
        Some(
            TebStackStringCollectionError::InvalidStackBounds {
                thread_id: teb.thread_id,
                stack_base: teb.stack_base,
                stack_limit: teb.stack_limit,
            },
        )
    } else {
        None
    }
}

/// The next thing a stack scan needs.
#[derive(Clone, Copy, Debug, Eq, PartialEq, Structural)]
pub enum StackScanAction {
    Finished,
    QueryRegion { address: usize },
    ReadBytes { address: usize, size: usize },
}

/// A running scan of one stack. The part below `address` is settled; `[address, read_end)` waits
/// to be read when it is not empty.
#[derive(Clone, Debug, Eq, PartialEq)]
pub struct StackScan {
    pub collection: TebStackStringCollection,
    pub address: usize,
    pub read_end: usize,
}

/// What the outcome of the region query at `address` gives a stack scan: the end of the part to
/// take, and whether it can be read.
pub open spec fn stack_region(
    thread_id: u32,
    stack_base: usize,
    address: usize,
    outcome: Result<MemoryRegion, MemoryRegionQueryError>,
) -> Result<(usize, bool), TebStackStringCollectionError> {
    match outcome {
        Err(error) => Err(
            TebStackStringCollectionError::StackRegionQueryFailed { thread_id, address, error },
        ),
        Ok(region) => {
            let region_end = region.base_address + region.region_size;
            let read_end = if region_end <= stack_base {
                region_end
            } else {
                stack_base as int
            };
            if region_end > usize::MAX {
                Err(
                    TebStackStringCollectionError::StackRegionRangeOverflow {
                        thread_id,
                        base_address: region.base_address,
                        region_size: region.region_size,
                    },
                )
            } else if region.base_address > address || read_end <= address {
                Err(
                    TebStackStringCollectionError::StackRegionDidNotAdvance {
                        thread_id,
                        address,
                        region_base_address: region.base_address,
                        region_size: region.region_size,
                    },
                )
            } else {
                Ok((read_end as usize, readable_region(region)))
            }
        },
    }
}

impl TebStackString {
    /// This record places `string`, found in bytes read at `address`, in the stack of a thread.
    pub open spec fn places(
        &self,
        string: DecodedView,
        thread_id: u32,
        address: usize,
        stack_limit: usize,
    ) -> bool {
        &&& self.thread_id == thread_id
        &&& self.value@ == string.value
        &&& self.encoding == string.encoding
        &&& self.address == address + string.offset
        &&& self.stack_offset == address + string.offset - stack_limit
    }
}

/// `records` are `before` followed by the placed strings.
pub open spec fn strings_placed(
    records: Seq<TebStackString>,
    before: Seq<TebStackString>,
    strings: Seq<DecodedView>,
    thread_id: u32,
    address: usize,
    stack_limit: usize,
) -> bool {
    &&& records.len() == before.len() + strings.len()
    &&& forall|i: int| 0 <= i < before.len() ==> records[i] == before[i]
    &&& forall|i: int|
        0 <= i < strings.len() ==> (#[trigger] records[before.len() + i]).places(
            strings[i],
            thread_id,
            address,
            stack_limit,
        )
}

/// Updates of a part, seen from the whole: `before` more are completed, of `total`.
pub open spec fn shifted_updates(
    updates: Seq<(usize, usize)>,
    before: usize,
    total: usize,
) -> Seq<(usize, usize)> {
    updates.map_values(|update: (usize, usize)| (before.saturating_add(update.0), total))
}

/// Reports the updates of a part from the whole.
fn report_shifted<P: Progress>(log: &ProgressLog, before: usize, total: usize, progress: &mut P)
    ensures
        final(progress).updates() == old(progress).updates() + shifted_updates(
            log.entries@,
            before,
            total,
        ),
{
    let ghost earlier = progress.updates();
    let ghost shifted = shifted_updates(log.entries@, before, total);
    let mut index: usize = 0;
    assert(earlier =~= earlier + shifted.subrange(0, 0));
    while index < log.entries.len()
        invariant
            index <= log.entries@.len(),
            shifted == shifted_updates(log.entries@, before, total),
            progress.updates() == earlier + shifted.subrange(0, index as int),
        decreases log.entries.len() - index,
    {
        let (completed, _total) = log.entries[index];
        progress.update(before.saturating_add(completed), total);
        assert(shifted[index as int] == (before.saturating_add(completed), total));
        index += 1;
        assert(progress.updates() =~= earlier + shifted.subrange(0, index as int));
    }
    assert(shifted.subrange(0, index as int) =~= shifted);
}

/// The failure that a read of `size` bytes at `address` leaves behind.
pub open spec fn read_failure(
    address: usize,
    size: usize,
    outcome: Result<ProcessMemoryRead, ProcessMemoryReadError>,
) -> Option<TebStackRegionFailure> {
    match outcome {
        Err(error) => Some(
            TebStackRegionFailure {
                address,
                bytes_requested: size,
                error: TebStackRegionReadError::ReadFailed(error),
            },
        ),
        Ok(read) => if read.bytes@.len() != size {
            Some(
                TebStackRegionFailure {
                    address,
                    bytes_requested: size,
                    error: TebStackRegionReadError::ReadIncomplete {
                        status: read.status,
                        bytes_read: read.bytes@.len() as usize,
                    },
                },
            )
        } else {
            None
        },
    }
}

impl StackScan {
    /// The scan is inside its stack and has read no more than it passed. Every string it found
    /// belongs to its thread and lies in the passed part, and the addresses ascend.
    pub open spec fn wf(&self) -> bool {
        &&& self.collection.stack_limit < self.collection.stack_base
        &&& self.collection.stack_limit <= self.address <= self.collection.stack_base
        &&& self.address <= self.read_end <= self.collection.stack_base
        &&& self.collection.bytes_read <= self.address - self.collection.stack_limit
        &&& forall|i: int|
            0 <= i < self.collection.strings@.len() ==> {
                let string = #[trigger] self.collection.strings@[i];
                &&& string.thread_id == self.collection.thread_id
                &&& self.collection.stack_limit <= string.address < self.address
                &&& string.stack_offset == string.address - self.collection.stack_limit
            }
        &&& forall|i: int, j: int|
            0 <= i < j < self.collection.strings@.len() ==> (
            #[trigger] self.collection.strings@[i]).address < (
            #[trigger] self.collection.strings@[j]).address
    }

    /// The bytes of the stack.
    pub open spec fn total(&self) -> usize {
        (self.collection.stack_base - self.collection.stack_limit) as usize
    }

    /// Starts the scan of the stack that a TEB describes. `process_id` and `error` are what the
    /// system reports for the process handle.
    pub fn start<P: Progress>(
        process_is_null: bool,
        process_id: u32,
        error: u32,
        teb: &ThreadTebInfo,
        progress: &mut P,
    ) -> (r: Result<StackScan, TebStackStringCollectionError>)
        ensures
            match r {
                Ok(scan) => {
                    &&& stack_scan_error(process_is_null, process_id, error, *teb) is None
                    &&& scan.wf()
                    &&& scan.collection.thread_id == teb.thread_id
                    &&& scan.collection.teb_address == teb.teb_address
                    &&& scan.collection.stack_base == teb.stack_base
                    &&& scan.collection.stack_limit == teb.stack_limit
                    &&& scan.collection.bytes_read == 0
                    &&& scan.collection.strings@.len() == 0
                    &&& scan.collection.failures@.len() == 0
                    &&& scan.address == teb.stack_limit
                    &&& scan.read_end == teb.stack_limit
                    &&& final(progress).updates() == old(progress).updates().push(
                        (0, scan.total()),
                    )
                },
                Err(e) => {
                    &&& stack_scan_error(process_is_null, process_id, error, *teb) == Some(e)
                    &&& final(progress).updates() == old(progress).updates()
                },
            },
    {
        if process_is_null {
            return Err(TebStackStringCollectionError::InvalidProcessHandle);
        }
        if process_id == 0 {
            return Err(TebStackStringCollectionError::ProcessIdUnavailable { error });
        }
        if teb.client_process_id != process_id as usize {
            return Err(
                TebStackStringCollectionError::TebProcessIdentityMismatch {
                    thread_id: teb.thread_id,
                    process_id,
                    teb_process_id: teb.client_process_id,
                },
            );
        }
        if teb.stack_limit == 0 || teb.stack_base == 0 || teb.stack_limit >= teb.stack_base {
            return Err(
                TebStackStringCollectionError::InvalidStackBounds {
                    thread_id: teb.thread_id,
                    stack_base: teb.stack_base,
                    stack_limit: teb.stack_limit,
                },
            );
        }
        progress.update(0, teb.stack_base - teb.stack_limit);
        Ok(
            StackScan {
                collection: TebStackStringCollection {
                    thread_id: teb.thread_id,
                    teb_address: teb.teb_address,
                    stack_base: teb.stack_base,
                    stack_limit: teb.stack_limit,
                    bytes_read: 0,
                    strings: Vec::new(),
                    failures: Vec::new(),
                },
                address: teb.stack_limit,
                read_end: teb.stack_limit,
            },
        )
    }

    /// What the scan needs next.
    pub open spec fn action(&self) -> StackScanAction {
        if self.address < self.read_end {
            StackScanAction::ReadBytes {
                address: self.address,
                size: (self.read_end - self.address) as usize,
            }
        } else if self.address < self.collection.stack_base {
            StackScanAction::QueryRegion { address: self.address }
        } else {
            StackScanAction::Finished
        }
    }

    /// What the scan needs next.
    pub fn next_action(&self) -> (r: StackScanAction)
        ensures
            r == self.action(),
    {
        if self.address < self.read_end {
            StackScanAction::ReadBytes { address: self.address, size: self.read_end - self.address }
        } else if self.address < self.collection.stack_base {
            StackScanAction::QueryRegion { address: self.address }
        } else {
            StackScanAction::Finished
        }
    }

    /// Takes the outcome of the region query that the scan asked for. A region that cannot be
    /// read is passed over.
    pub fn accept_region<P: Progress>(
        &mut self,
        outcome: Result<MemoryRegion, MemoryRegionQueryError>,
        progress: &mut P,
    ) -> (r: Result<(), TebStackStringCollectionError>)
        requires
            old(self).wf(),
            old(self).action() is QueryRegion,
        ensures
            final(self).wf(),
            final(self).collection == old(self).collection,
            match stack_region(
                old(self).collection.thread_id,
                old(self).collection.stack_base,
                old(self).address,
                outcome,
            ) {
                Err(e) => {
                    &&& r == Err::<(), TebStackStringCollectionError>(e)
                    &&& *final(self) == *old(self)
                    &&& final(progress).updates() == old(progress).updates()
                },
                Ok((read_end, readable)) => {
                    &&& r == Ok::<(), TebStackStringCollectionError>(())
                    &&& final(self).read_end == read_end
                    &&& if readable {
                        &&& final(self).address == old(self).address
                        &&& final(progress).updates() == old(progress).updates()
                    } else {
                        &&& final(self).address == read_end
                        &&& final(progress).updates() == old(progress).updates().push(
                            (
                                (read_end - old(self).collection.stack_limit) as usize,
                                old(self).total(),
                            ),
                        )
                    }
                },
            },
    {
        let thread_id: u32 = self.collection.thread_id;
        let address: usize = self.address;
        let region = match outcome {
            Ok(value) => value,
            Err(error) => return Err(
                TebStackStringCollectionError::StackRegionQueryFailed {
                    thread_id,
                    address,
                    error,
                },
            ),
        };
        let region_end: usize = match region.base_address.checked_add(region.region_size) {
            Some(value) => value,
            None => return Err(
                TebStackStringCollectionError::StackRegionRangeOverflow {
                    thread_id,
                    base_address: region.base_address,
                    region_size: region.region_size,
                },
            ),
        };
        let read_end: usize = min_usize(region_end, self.collection.stack_base);
        if region.base_address > address || read_end <= address {
            return Err(
                TebStackStringCollectionError::StackRegionDidNotAdvance {
                    thread_id,
                    address,
                    region_base_address: region.base_address,
                    region_size: region.region_size,
                },
            );
        }
        self.read_end = read_end;
        if !is_readable_region(&region) {
            progress.update(
                read_end - self.collection.stack_limit,
                self.collection.stack_base - self.collection.stack_limit,
            );
            self.address = read_end;
        }
        Ok(())
    }

    /// Takes the outcome of the read that the scan asked for. A failed or partial read is recorded
    /// and the scan goes on behind it; strings of a partial read are kept.
    pub fn accept_read<P: Progress>(
        &mut self,
        outcome: Result<ProcessMemoryRead, ProcessMemoryReadError>,
        minimum_chars: usize,
        progress: &mut P,
    )
        requires
            old(self).wf(),
            old(self).action() is ReadBytes,
            outcome is Ok ==> outcome->Ok_0.bytes@.len() <= old(self).action()->ReadBytes_size,
        ensures
            final(self).wf(),
            final(self).address == old(self).read_end,
            final(self).read_end == old(self).read_end,
            ({
                let before = old(self).collection;
                let after = final(self).collection;
                let address = old(self).address;
                let size = (old(self).read_end - address) as usize;
                let end_update = (
                    (old(self).read_end - before.stack_limit) as usize,
                    old(self).total(),
                );
                &&& after.thread_id == before.thread_id
                &&& after.teb_address == before.teb_address
                &&& after.stack_base == before.stack_base
                &&& after.stack_limit == before.stack_limit
                &&& after.failures@ == (match read_failure(address, size, outcome) {
                    Some(failure) => before.failures@.push(failure),
                    None => before.failures@,
                })
                &&& match outcome {
                    Err(_) => {
                        &&& after.bytes_read == before.bytes_read
                        &&& after.strings@ == before.strings@
                        &&& final(progress).updates() == old(progress).updates().push(end_update)
                    },
                    Ok(read) => {
                        &&& after.bytes_read == before.bytes_read + read.bytes@.len()
                        &&& strings_placed(
                            after.strings@,
                            before.strings@,
                            strings_from(
                                read.bytes@,
                                effective_minimum(minimum_chars),
                                0,
                                Seq::empty(),
                            ),
                            before.thread_id,
                            address,
                            before.stack_limit,
                        )
                        &&& final(progress).updates() == (old(progress).updates()
                            + shifted_updates(
                            string_updates(read.bytes@),
                            (address - before.stack_limit) as usize,
                            old(self).total(),
                        )).push(end_update)
                    },
                }
            }),
    {
        let address: usize = self.address;
        let read_end: usize = self.read_end;
        let bytes_requested: usize = read_end - address;
        let stack_limit: usize = self.collection.stack_limit;
        let total_stack_bytes: usize = self.collection.stack_base - stack_limit;
        let thread_id: u32 = self.collection.thread_id;
        match outcome {
            Err(error) => {
                self.collection.failures.push(
                    TebStackRegionFailure {
                        address,
                        bytes_requested,
                        error: TebStackRegionReadError::ReadFailed(error),
                    },
                );
            },
            Ok(read) => {
                if read.bytes.len() != bytes_requested {
                    self.collection.failures.push(
                        TebStackRegionFailure {
                            address,
                            bytes_requested,
                            error: TebStackRegionReadError::ReadIncomplete {
                                status: read.status,
                                bytes_read: read.bytes.len(),
                            },
                        },
                    );
                }
                self.collection.bytes_read = self.collection.bytes_read + read.bytes.len();
                let mut log = ProgressLog::new();
                let decoded_strings = collect_buffer_strings(
                    &read.bytes,
                    minimum_chars,
                    &mut log,
                );
                proof {
                    law_buffer_strings_ascend(read.bytes@, minimum_chars);
                    assert(log.entries@ =~= string_updates(read.bytes@));
                }
                report_shifted(&log, address - stack_limit, total_stack_bytes, progress);
                let ghost found = decoded_views(decoded_strings@);
                let ghost before = self.collection.strings@;
                let mut index: usize = 0;
                while index < decoded_strings.len()
                    invariant
                        index <= decoded_strings@.len(),
                        found == decoded_views(decoded_strings@),
                        strings_ascend(
                            found,
                            effective_minimum(minimum_chars),
                            read.bytes@.len() as int,
                        ),
                        address + read.bytes@.len() <= usize::MAX,
                        stack_limit <= address,
                        strings_placed(
                            self.collection.strings@,
                            before,
                            found.subrange(0, index as int),
                            thread_id,
                            address,
                            stack_limit,
                        ),
                        self.address == address,
                        self.read_end == read_end,
                        self.collection.thread_id == thread_id,
                        self.collection.teb_address == old(self).collection.teb_address,
                        self.collection.stack_base == old(self).collection.stack_base,
                        self.collection.stack_limit == stack_limit,
                        self.collection.bytes_read == old(self).collection.bytes_read
                            + read.bytes@.len(),
                        self.collection.failures@ == (match read_failure(
                            address,
                            bytes_requested,
                            outcome,
                        ) {
                            Some(failure) => old(self).collection.failures@.push(failure),
                            None => old(self).collection.failures@,
                        }),
                    decreases decoded_strings.len() - index,
                {
                    let decoded = &decoded_strings[index];
                    assert(found[index as int] == decoded@);
                    let string_address: usize = address + decoded.offset;
                    let record = TebStackString {
                        thread_id,
                        value: decoded.value.clone(),
                        encoding: decoded.encoding,
                        address: string_address,
                        stack_offset: string_address - stack_limit,
                    };
                    let ghost earlier = self.collection.strings@;
                    self.collection.strings.push(record);
                    proof {
                        let more = found.subrange(0, index + 1);
                        assert forall|i: int| 0 <= i < more.len() implies (
                        #[trigger] self.collection.strings@[before.len() + i]).places(
                            more[i],
                            thread_id,
                            address,
                            stack_limit,
                        ) by {
                            if i < index {
                                assert(self.collection.strings@[before.len() + i]
                                    == earlier[before.len() + i]);
                                assert(more[i] == found.subrange(0, index as int)[i]);
                            }
                        }
                    }
                    index += 1;
                }
                assert(found.subrange(0, index as int) =~= found);
            },
        }
        progress.update(read_end - stack_limit, total_stack_bytes);
        self.address = read_end;
        proof {
            let before = old(self).collection.strings@;
            let after = self.collection.strings@;
            let found = strings_from(
                outcome->Ok_0.bytes@,
                effective_minimum(minimum_chars),
                0,
                Seq::empty(),
            );
            if after.len() > before.len() {
                assert(outcome is Ok);
                assert(strings_ascend(
                    found,
                    effective_minimum(minimum_chars),
                    outcome->Ok_0.bytes@.len() as int,
                ));
            }
            assert forall|i: int| before.len() <= i < after.len() implies (
            #[trigger] after[i]).places(found[i - before.len()], thread_id, address, stack_limit) by {
                assert(after[before.len() + (i - before.len())] == after[i]);
            }
            assert forall|i: int| 0 <= i < after.len() implies ({
                let string = #[trigger] after[i];
                &&& string.thread_id == thread_id
                &&& stack_limit <= string.address < read_end
                &&& string.stack_offset == string.address - stack_limit
            }) by {
                if i < before.len() {
                    assert(after[i] == before[i]);
                } else {
                    assert(after[i].address == address + found[i - before.len()].offset);
                }
            }
            assert forall|i: int, j: int| 0 <= i < j < after.len() implies (
            #[trigger] after[i]).address < (#[trigger] after[j]).address by {
                if i < before.len() {
                    assert(after[i] == before[i]);
                    if j < before.len() {
                        assert(after[j] == before[j]);
                    } else {
                        assert(after[j].address == address + found[j - before.len()].offset);
                    }
                } else {
                    let (k, m) = (i - before.len(), j - before.len());
                    assert(after[i].address == address + found[k].offset);
                    assert(after[j].address == address + found[m].offset);
                    assert(found[k].byte_length > 0);
                    assert(found[k].offset + found[k].byte_length <= found[m].offset);
                }
            }
        }
    }

    /// Ends a finished scan.
    pub fn finish<P: Progress>(self, progress: &mut P) -> (r: TebStackStringCollection)
        requires
            self.wf(),
        ensures
            r == self.collection,
            final(progress).updates() == old(progress).updates().push(
                (self.total(), self.total()),
            ),
    {
        let total: usize = self.collection.stack_base - self.collection.stack_limit;
        progress.update(total, total);
        self.collection
    }
}

/// Every string of a stack scan belongs to its thread and lies inside the stack, at its offset
/// from the stack limit and behind the strings found before it.
pub proof fn law_stack_strings_lie_in_stack(scan: StackScan, i: int)
    requires
        scan.wf(),
        0 <= i < scan.collection.strings@.len(),
    ensures
        scan.collection.strings@[i].thread_id == scan.collection.thread_id,
        scan.collection.stack_limit <= scan.collection.strings@[i].address
            < scan.collection.stack_base,
        scan.collection.strings@[i].stack_offset == scan.collection.strings@[i].address
            - scan.collection.stack_limit,
        forall|earlier: int|
            0 <= earlier < i ==> (#[trigger] scan.collection.strings@[earlier]).address
                < scan.collection.strings@[i].address,
{
}

} // verus!
