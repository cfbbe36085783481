//! Thread environment blocks of a process.

use vstd::prelude::*;

use crate::bytes::{get_u64, le64};
use crate::memory::ProcessMemoryReadError;
use crate::process::HandleGuardError;
use crate::progress::Progress;
use crate::windows::ERROR_NO_MORE_FILES;

verus! {

/// Byte size of the TEB through its PEB pointer.
pub const TEB_HEADER_SIZE: usize = 104;

/// Contains every TEB record collected for a process and any thread-scoped failures.
#[derive(Clone, Debug, Eq, PartialEq)]
pub struct ProcessTebCollection {
    pub process_id: u32,
    pub tebs: Vec<ThreadTebInfo>,
    pub failures: Vec<ThreadTebFailure>,
}

/// Describes the useful x64 TEB header fields collected for one process thread.
#[derive(Clone, Copy, Debug, Eq, PartialEq, Structural)]
pub struct ThreadTebInfo {
    pub thread_id: u32,
    pub teb_address: usize,
    pub exit_status: i32,
    pub affinity_mask: usize,
    pub priority: i32,
    pub base_priority: i32,
    pub exception_list: usize,
    pub stack_base: usize,
    pub stack_limit: usize,
    pub stack_size_bytes: Option<usize>,
    pub subsystem_tib: usize,
    pub fiber_data_or_version: usize,
    pub arbitrary_user_pointer: usize,
    pub self_address: usize,
    pub environment_pointer: usize,
    pub client_process_id: usize,
    pub client_thread_id: usize,
    pub active_rpc_handle: usize,
    pub thread_local_storage_pointer: usize,
    pub process_environment_block: usize,
    pub self_pointer_matches: bool,
    pub client_process_id_matches: bool,
    pub client_thread_id_matches: bool,
}

/// Associates a thread identifier with the reason its TEB could not be collected.
#[derive(Clone, Copy, Debug, Eq, PartialEq, Structural)]
pub struct ThreadTebFailure {
    pub thread_id: u32,
    pub error: ThreadTebCollectionError,
}

/// Explains why process-wide TEB enumeration could not start or finish.
#[derive(Clone, Copy, Debug, Eq, PartialEq, Structural)]
pub enum ProcessTebCollectionError {
    InvalidProcessHandle,
    ProcessIdUnavailable { error: u32 },
    ThreadSnapshotFailed { error: u32 },
    ThreadSnapshotHandleFailed(HandleGuardError),
    ThreadSnapshotIterationFailed { error: u32 },
}

/// Explains why one enumerated thread did not produce a TEB record.
#[derive(Clone, Copy, Debug, Eq, PartialEq, Structural)]
pub enum ThreadTebCollectionError {
    InvalidProcessHandle,
    ProcessIdUnavailable { error: u32 },
    InvalidThreadId,
    ThreadOpenFailed(HandleGuardError),
    ThreadInformationQueryFailed { status: i32, return_length: u32 },
    ThreadInformationTooSmall { return_length: u32 },
    ThreadIdentityMismatch {
        expected_process_id: u32,
        actual_process_id: usize,
        expected_thread_id: u32,
        actual_thread_id: usize,
    },
    TebAddressUnavailable,
    TebReadFailed(ProcessMemoryReadError),
    TebReadIncomplete { bytes_requested: usize, bytes_read: usize },
}

/// The native thread-basic-information fields used to locate a remote TEB.
#[derive(Clone, Copy, Debug, Eq, PartialEq, Structural)]
pub struct ThreadBasicInformation {
    pub exit_status: i32,
    pub teb_base_address: usize,
    pub unique_process: usize,
    pub unique_thread: usize,
    pub affinity_mask: usize,
    pub priority: i32,
    pub base_priority: i32,
}

/// The stable x64 TEB prefix.
#[derive(Clone, Copy, Debug, Eq, PartialEq, Structural)]
pub struct TebHeader64 {
    pub exception_list: usize,
    pub stack_base: usize,
    pub stack_limit: usize,
    pub subsystem_tib: usize,
    pub fiber_data_or_version: usize,
    pub arbitrary_user_pointer: usize,
    pub self_address: usize,
    pub environment_pointer: usize,
    pub client_process_id: usize,
    pub client_thread_id: usize,
    pub active_rpc_handle: usize,
    pub thread_local_storage_pointer: usize,
    pub process_environment_block: usize,
}

/// Checks that a process handle names a process.
pub fn check_teb_process(process_is_null: bool, process_id: u32, error: u32) -> (r: Result<
    u32,
    ProcessTebCollectionError,
>)
    ensures
        r == (if process_is_null {
            Err(ProcessTebCollectionError::InvalidProcessHandle)
        } else if process_id == 0 {
            Err(ProcessTebCollectionError::ProcessIdUnavailable { error })
        } else {
            Ok(process_id)
        }),
{
    if process_is_null {
        return Err(ProcessTebCollectionError::InvalidProcessHandle);
    }
    if process_id == 0 {
        return Err(ProcessTebCollectionError::ProcessIdUnavailable { error });
    }
    Ok(process_id)
}

/// Whether identifiers ascend.
pub open spec fn ids_ascend(ids: Seq<u32>) -> bool {
    forall|i: int, j: int| 0 <= i < j < ids.len() ==> #[trigger] ids[i] <= #[trigger] ids[j]
}

/// Collects the identifiers of the threads that a process owns, while a system-wide thread
/// snapshot is walked.
#[derive(Clone, Debug, Eq, PartialEq)]
pub struct ThreadEnumeration {
    pub process_id: u32,
    pub thread_ids: Vec<u32>,
}

impl ThreadEnumeration {
    /// Starts an enumeration for one process.
    pub fn new(process_id: u32) -> (r: ThreadEnumeration)
        ensures
            r.process_id == process_id,
            r.thread_ids@ == Seq::<u32>::empty(),
    {
        ThreadEnumeration { process_id, thread_ids: Vec::new() }
    }

    /// Takes one entry of the snapshot; only threads of the process are kept.
    pub fn accept_entry(&mut self, owner_process_id: u32, thread_id: u32)
        ensures
            final(self).process_id == old(self).process_id,
            final(self).thread_ids@ == (if owner_process_id == old(self).process_id {
                old(self).thread_ids@.push(thread_id)
            } else {
                old(self).thread_ids@
            }),
    {
        if owner_process_id == self.process_id {
            self.thread_ids.push(thread_id);
        }
    }

    /// Ends the enumeration with the error that ended the walk: only the end of the snapshot is
    /// no failure. The identifiers are then given in ascending order.
    pub fn finish(self, error: u32) -> (r: Result<Vec<u32>, ProcessTebCollectionError>)
        ensures
            match r {
                Ok(ids) => {
                    &&& error == ERROR_NO_MORE_FILES
                    &&& ids_ascend(ids@)
                    &&& ids@.to_multiset() == self.thread_ids@.to_multiset()
                },
                Err(e) => {
                    &&& error != ERROR_NO_MORE_FILES
                    &&& e == (ProcessTebCollectionError::ThreadSnapshotIterationFailed { error })
                },
            },
    {
        if error != ERROR_NO_MORE_FILES {
            return Err(ProcessTebCollectionError::ThreadSnapshotIterationFailed { error });
        }
        Ok(sort_ids(&self.thread_ids))
    }
}

/// Orders identifiers.
fn sort_ids(ids: &[u32]) -> (r: Vec<u32>)
    ensures
        ids_ascend(r@),
        r@.to_multiset() == ids@.to_multiset(),
{
    let mut sorted: Vec<u32> = Vec::with_capacity(ids.len());
    let mut index: usize = 0;
    assert(sorted@ =~= ids@.subrange(0, 0));
    while index < ids.len()
        invariant
            index <= ids@.len(),
            ids_ascend(sorted@),
            sorted@.to_multiset() == ids@.subrange(0, index as int).to_multiset(),
        decreases ids.len() - index,
    {
        let id: u32 = ids[index];
        let mut position: usize = sorted.len();
        while position > 0 && sorted[position - 1] > id
            invariant
                position <= sorted@.len(),
                forall|i: int| position <= i < sorted@.len() ==> #[trigger] sorted@[i] > id,
            decreases position,
        {
            position -= 1;
        }
        let ghost before = sorted@;
        let ghost p = position as int;
        sorted.insert(position, id);
        proof {
            vstd::seq_lib::to_multiset_insert(before, p, id);
            let taken = ids@.subrange(0, index as int);
            vstd::seq_lib::to_multiset_build(taken, id);
            assert(ids@.subrange(0, index + 1) =~= taken.push(id));
            let after = sorted@;
            assert(after =~= before.insert(p, id));
            assert forall|i: int, j: int| 0 <= i < j < after.len() implies #[trigger] after[i]
                <= #[trigger] after[j] by {
                let bi = if i < p {
                    i
                } else {
                    i - 1
                };
                let bj = if j < p {
                    j
                } else {
                    j - 1
                };
                if i != p && j != p {
                    assert(after[i] == before[bi] && after[j] == before[bj]);
                    assert(before[bi] <= before[bj]);
                } else if i == p {
                    assert(after[j] == before[bj]);
                } else {
                    assert(after[i] == before[bi]);
                    assert(before[p - 1] <= id);
                    if bi < p - 1 {
                        assert(before[bi] <= before[p - 1]);
                    }
                }
            }
        }
        index += 1;
    }
    assert(ids@.subrange(0, index as int) =~= ids@);
    sorted
}

/// Checks what the native query of basic thread information reports.
pub fn check_thread_information(status: i32, return_length: u32, information_length: u32) -> (r:
    Result<(), ThreadTebCollectionError>)
    ensures
        r == (if status < 0 {
            Err(ThreadTebCollectionError::ThreadInformationQueryFailed { status, return_length })
        } else if return_length != 0 && return_length < information_length {
            Err(ThreadTebCollectionError::ThreadInformationTooSmall { return_length })
        } else {
            Ok(())
        }),
{
    if status < 0 {
        return Err(
            ThreadTebCollectionError::ThreadInformationQueryFailed { status, return_length },
        );
    }
    if return_length != 0 && return_length < information_length {
        return Err(ThreadTebCollectionError::ThreadInformationTooSmall { return_length });
    }
    Ok(())
}

/// Checks that basic thread information belongs to the enumerated thread and locates its TEB.
pub fn check_thread_identity(
    process_id: u32,
    thread_id: u32,
    information: &ThreadBasicInformation,
) -> (r: Result<usize, ThreadTebCollectionError>)
    ensures
        r == (if information.unique_process != process_id || information.unique_thread
            != thread_id {
            Err(
                ThreadTebCollectionError::ThreadIdentityMismatch {
                    expected_process_id: process_id,
                    actual_process_id: information.unique_process,
                    expected_thread_id: thread_id,
                    actual_thread_id: information.unique_thread,
                },
            )
        } else if information.teb_base_address == 0 {
            Err(ThreadTebCollectionError::TebAddressUnavailable)
        } else {
            Ok(information.teb_base_address)
        }),
{
    if information.unique_process != process_id as usize || information.unique_thread
        != thread_id as usize {
        return Err(
            ThreadTebCollectionError::ThreadIdentityMismatch {
                expected_process_id: process_id,
                actual_process_id: information.unique_process,
                expected_thread_id: thread_id,
                actual_thread_id: information.unique_thread,
            },
        );
    }
    if information.teb_base_address == 0 {
        return Err(ThreadTebCollectionError::TebAddressUnavailable);
    }
    Ok(information.teb_base_address)
}

/// The pointer-sized field `index` of a TEB.
pub open spec fn teb_field(bytes: Seq<u8>, index: int) -> usize {
    le64(bytes, index * 8) as usize
}

/// The TEB prefix stored in its first bytes.
pub open spec fn teb_header_in(bytes: Seq<u8>) -> TebHeader64 {
    TebHeader64 {
        exception_list: teb_field(bytes, 0),
        stack_base: teb_field(bytes, 1),
        stack_limit: teb_field(bytes, 2),
        subsystem_tib: teb_field(bytes, 3),
        fiber_data_or_version: teb_field(bytes, 4),
        arbitrary_user_pointer: teb_field(bytes, 5),
        self_address: teb_field(bytes, 6),
        environment_pointer: teb_field(bytes, 7),
        client_process_id: teb_field(bytes, 8),
        client_thread_id: teb_field(bytes, 9),
        active_rpc_handle: teb_field(bytes, 10),
        thread_local_storage_pointer: teb_field(bytes, 11),
        process_environment_block: teb_field(bytes, 12),
    }
}

/// Reads one pointer-sized field of a TEB.
fn read_teb_field(bytes: &[u8], index: usize) -> (r: usize)
    requires
        index < 13,
        bytes@.len() >= TEB_HEADER_SIZE,
    ensures
        r == teb_field(bytes@, index as int),
{
    get_u64(bytes, index * 8) as usize
}

/// Takes the bytes read of a TEB and reads its stable prefix.
pub fn accept_teb_header(outcome: Result<Vec<u8>, ProcessMemoryReadError>) -> (r: Result<
    TebHeader64,
    ThreadTebCollectionError,
>)
    ensures
        r == (match outcome {
            Err(error) => Err(ThreadTebCollectionError::TebReadFailed(error)),
            Ok(bytes) => if bytes@.len() < TEB_HEADER_SIZE {
                Err(
                    ThreadTebCollectionError::TebReadIncomplete {
                        bytes_requested: TEB_HEADER_SIZE,
                        bytes_read: bytes@.len() as usize,
                    },
                )
            } else {
                Ok(teb_header_in(bytes@))
            },
        }),
{
    let bytes = match outcome {
        Ok(value) => value,
        Err(error) => return Err(ThreadTebCollectionError::TebReadFailed(error)),
    };
    if bytes.len() < TEB_HEADER_SIZE {
        return Err(
            ThreadTebCollectionError::TebReadIncomplete {
                bytes_requested: TEB_HEADER_SIZE,
                bytes_read: bytes.len(),
            },
        );
    }
    Ok(
        TebHeader64 {
            exception_list: read_teb_field(&bytes, 0),
            stack_base: read_teb_field(&bytes, 1),
            stack_limit: read_teb_field(&bytes, 2),
            subsystem_tib: read_teb_field(&bytes, 3),
            fiber_data_or_version: read_teb_field(&bytes, 4),
            arbitrary_user_pointer: read_teb_field(&bytes, 5),
            self_address: read_teb_field(&bytes, 6),
            environment_pointer: read_teb_field(&bytes, 7),
            client_process_id: read_teb_field(&bytes, 8),
            client_thread_id: read_teb_field(&bytes, 9),
            active_rpc_handle: read_teb_field(&bytes, 10),
            thread_local_storage_pointer: read_teb_field(&bytes, 11),
            process_environment_block: read_teb_field(&bytes, 12),
        },
    )
}

/// The record of a thread by its basic information and its TEB prefix.
pub open spec fn teb_info(
    process_id: u32,
    thread_id: u32,
    information: ThreadBasicInformation,
    header: TebHeader64,
) -> ThreadTebInfo {
    ThreadTebInfo {
        thread_id,
        teb_address: information.teb_base_address,
        exit_status: information.exit_status,
        affinity_mask: information.affinity_mask,
        priority: information.priority,
        base_priority: information.base_priority,
        exception_list: header.exception_list,
        stack_base: header.stack_base,
        stack_limit: header.stack_limit,
        stack_size_bytes: header.stack_base.checked_sub(header.stack_limit),
        subsystem_tib: header.subsystem_tib,
        fiber_data_or_version: header.fiber_data_or_version,
        arbitrary_user_pointer: header.arbitrary_user_pointer,
        self_address: header.self_address,
        environment_pointer: header.environment_pointer,
        client_process_id: header.client_process_id,
        client_thread_id: header.client_thread_id,
        active_rpc_handle: header.active_rpc_handle,
        thread_local_storage_pointer: header.thread_local_storage_pointer,
        process_environment_block: header.process_environment_block,
        self_pointer_matches: header.self_address == information.teb_base_address,
        client_process_id_matches: header.client_process_id == process_id,
        client_thread_id_matches: header.client_thread_id == thread_id,
    }
}

/// Builds the record of a thread.
pub fn build_thread_teb(
    process_id: u32,
    thread_id: u32,
    information: &ThreadBasicInformation,
    header: &TebHeader64,
) -> (r: ThreadTebInfo)
    ensures
        r == teb_info(process_id, thread_id, *information, *header),
{
    ThreadTebInfo {
        thread_id,
        teb_address: information.teb_base_address,
        exit_status: information.exit_status,
        affinity_mask: information.affinity_mask,
        priority: information.priority,
        base_priority: information.base_priority,
        exception_list: header.exception_list,
        stack_base: header.stack_base,
        stack_limit: header.stack_limit,
        stack_size_bytes: header.stack_base.checked_sub(header.stack_limit),
        subsystem_tib: header.subsystem_tib,
        fiber_data_or_version: header.fiber_data_or_version,
        arbitrary_user_pointer: header.arbitrary_user_pointer,
        self_address: header.self_address,
        environment_pointer: header.environment_pointer,
        client_process_id: header.client_process_id,
        client_thread_id: header.client_thread_id,
        active_rpc_handle: header.active_rpc_handle,
        thread_local_storage_pointer: header.thread_local_storage_pointer,
        process_environment_block: header.process_environment_block,
        self_pointer_matches: header.self_address == information.teb_base_address,
        client_process_id_matches: header.client_process_id == process_id as usize,
        client_thread_id_matches: header.client_thread_id == thread_id as usize,
    }
}

/// The records and failures with the outcome of one more thread.
pub open spec fn with_thread(
    tebs: Seq<ThreadTebInfo>,
    failures: Seq<ThreadTebFailure>,
    thread_id: u32,
    outcome: Result<ThreadTebInfo, ThreadTebCollectionError>,
) -> (Seq<ThreadTebInfo>, Seq<ThreadTebFailure>) {
    match outcome {
        Ok(teb) => (tebs.push(teb), failures),
        Err(error) => (tebs, failures.push(ThreadTebFailure { thread_id, error })),
    }
}

impl ProcessTebCollection {
    /// Starts a collection over `thread_count` threads.
    pub fn start<P: Progress>(process_id: u32, thread_count: usize, progress: &mut P) -> (r:
        ProcessTebCollection)
        ensures
            r.process_id == process_id,
            r.tebs@.len() == 0,
            r.failures@.len() == 0,
            final(progress).updates() == old(progress).updates().push((0, thread_count)),
    {
        progress.update(0, thread_count);
        ProcessTebCollection { process_id, tebs: Vec::new(), failures: Vec::new() }
    }

    /// Takes the outcome of thread `index`; a failure is kept beside the records.
    pub fn accept_thread<P: Progress>(
        &mut self,
        index: usize,
        thread_count: usize,
        thread_id: u32,
        outcome: Result<ThreadTebInfo, ThreadTebCollectionError>,
        progress: &mut P,
    )
        requires
            index < thread_count,
        ensures
            final(self).process_id == old(self).process_id,
            (final(self).tebs@, final(self).failures@) == with_thread(
                old(self).tebs@,
                old(self).failures@,
                thread_id,
                outcome,
            ),
            final(progress).updates() == old(progress).updates().push(
                ((index + 1) as usize, thread_count),
            ),
    {
        match outcome {
            Ok(teb) => {
                self.tebs.push(teb);
            },
            Err(error) => {
                self.failures.push(ThreadTebFailure { thread_id, error });
            },
        }
        progress.update(index + 1, thread_count);
    }
}

/// The records and failures after the outcomes of the first `count` threads.
pub open spec fn threads_collected(
    thread_ids: Seq<u32>,
    outcomes: Seq<Result<ThreadTebInfo, ThreadTebCollectionError>>,
    count: int,
) -> (Seq<ThreadTebInfo>, Seq<ThreadTebFailure>)
    decreases count,
{
    if count <= 0 {
        (Seq::empty(), Seq::empty())
    } else {
        let (tebs, failures) = threads_collected(thread_ids, outcomes, count - 1);
        with_thread(tebs, failures, thread_ids[count - 1], outcomes[count - 1])
    }
}

/// No thread is passed over: each outcome is kept as a record or as a failure under its thread,
/// and nothing else is.
pub proof fn law_every_thread_is_accounted_for(
    thread_ids: Seq<u32>,
    outcomes: Seq<Result<ThreadTebInfo, ThreadTebCollectionError>>,
    count: int,
)
    requires
        0 <= count <= thread_ids.len(),
        count <= outcomes.len(),
    ensures
        ({
            let (tebs, failures) = threads_collected(thread_ids, outcomes, count);
            &&& tebs.len() + failures.len() == count
            &&& forall|i: int|
                0 <= i < count ==> match #[trigger] outcomes[i] {
                    Ok(teb) => tebs.contains(teb),
                    Err(error) => failures.contains(
                        ThreadTebFailure { thread_id: thread_ids[i], error },
                    ),
                }
        }),
    decreases count,
{
    if count > 0 {
        law_every_thread_is_accounted_for(thread_ids, outcomes, count - 1);
        let (tebs, failures) = threads_collected(thread_ids, outcomes, count - 1);
        let (more_tebs, more_failures) = threads_collected(thread_ids, outcomes, count);
        assert forall|i: int| 0 <= i < count implies match #[trigger] outcomes[i] {
            Ok(teb) => more_tebs.contains(teb),
            Err(error) => more_failures.contains(
                ThreadTebFailure { thread_id: thread_ids[i], error },
            ),
        } by {
            if i == count - 1 {
                match outcomes[i] {
                    Ok(teb) => {
                        assert(more_tebs.last() == teb);
                    },
                    Err(error) => {
                        assert(more_failures.last() == ThreadTebFailure {
                            thread_id: thread_ids[i],
                            error,
                        });
                    },
                }
            } else {
                match outcomes[i] {
                    Ok(teb) => {
                        assert(more_tebs[tebs.index_of(teb)] == teb);
                    },
                    Err(error) => {
                        let failure = ThreadTebFailure { thread_id: thread_ids[i], error };
                        assert(more_failures[failures.index_of(failure)] == failure);
                    },
                }
            }
        }
    }
}

/// Whether every record that an outcome gives carries the identifier of its thread.
pub open spec fn records_carry_ids(
    thread_ids: Seq<u32>,
    outcomes: Seq<Result<ThreadTebInfo, ThreadTebCollectionError>>,
) -> bool {
    forall|i: int|
        0 <= i < thread_ids.len() && i < outcomes.len() ==> match #[trigger] outcomes[i] {
            Ok(teb) => teb.thread_id == thread_ids[i],
            Err(_) => true,
        }
}

/// Whether identifiers strictly ascend.
pub open spec fn ids_strictly_ascend(ids: Seq<u32>) -> bool {
    forall|i: int, j: int| 0 <= i < j < ids.len() ==> #[trigger] ids[i] < #[trigger] ids[j]
}

/// The thread identifiers of records.
pub open spec fn record_ids(tebs: Seq<ThreadTebInfo>) -> Seq<u32> {
    tebs.map_values(|teb: ThreadTebInfo| teb.thread_id)
}

/// The thread identifiers of failures.
pub open spec fn failure_ids(failures: Seq<ThreadTebFailure>) -> Seq<u32> {
    failures.map_values(|failure: ThreadTebFailure| failure.thread_id)
}

/// Where threads are taken in ascending order, records and failures each ascend by their thread
/// too, and no thread has both a record and a failure: every thread appears once.
pub proof fn law_collected_threads_ascend(
    thread_ids: Seq<u32>,
    outcomes: Seq<Result<ThreadTebInfo, ThreadTebCollectionError>>,
    count: int,
)
    requires
        0 <= count <= thread_ids.len(),
        count <= outcomes.len(),
        ids_strictly_ascend(thread_ids),
        records_carry_ids(thread_ids, outcomes),
    ensures
        ({
            let (tebs, failures) = threads_collected(thread_ids, outcomes, count);
            &&& ids_strictly_ascend(record_ids(tebs))
            &&& ids_strictly_ascend(failure_ids(failures))
            &&& forall|a: int, b: int|
                0 <= a < tebs.len() && 0 <= b < failures.len() ==> (#[trigger] tebs[a]).thread_id
                    != (#[trigger] failures[b]).thread_id
            &&& count < thread_ids.len() ==> {
                &&& forall|a: int|
                    0 <= a < tebs.len() ==> (#[trigger] tebs[a]).thread_id < thread_ids[count]
                &&& forall|b: int|
                    0 <= b < failures.len() ==> (#[trigger] failures[b]).thread_id
                        < thread_ids[count]
            }
        }),
    decreases count,
{
    if count > 0 {
        law_collected_threads_ascend(thread_ids, outcomes, count - 1);
        let (tebs, failures) = threads_collected(thread_ids, outcomes, count - 1);
        let (more_tebs, more_failures) = threads_collected(thread_ids, outcomes, count);
        let id = thread_ids[count - 1];
        match outcomes[count - 1] {
            Ok(teb) => {
                assert(teb.thread_id == id);
                assert(record_ids(more_tebs) =~= record_ids(tebs).push(id));
            },
            Err(error) => {
                assert(failure_ids(more_failures) =~= failure_ids(failures).push(id));
            },
        }
        assert(count < thread_ids.len() ==> id < thread_ids[count]);
    }
}

} // verus!
