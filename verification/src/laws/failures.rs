//! Documents of failures, stated by what they say under each key.

use vstd::prelude::*;

use crate::debuginfo::pdb::PdbInfoCollectionError;
use crate::imports::collector::ProcessImportCollectionError;
use crate::laws::documents::{says, written};
use crate::memory::ProcessMemoryReadError;
use crate::process::HandleGuardError;
use crate::report::errors::{
    handle_guard_error_tree, import_error_tree, memory_read_error_tree, pdb_error_tree,
    process_teb_error_tree, thread_teb_error_tree,
};
use crate::report::value::JsonTree;
use crate::teb::{ProcessTebCollectionError, ThreadTebCollectionError};

verus! {

/// Whether the fields of a failure say `value` under `key`.
pub open spec fn details(document: JsonTree, key: Seq<char>, value: JsonTree) -> bool {
    exists|fields: JsonTree| #[trigger]
        says(document, "fields"@, fields) && says(fields, key, value)
}

/// Whether a document is of this failure.
pub open spec fn fails(document: JsonTree, error_type: Seq<char>, kind: Seq<char>) -> bool {
    &&& says(document, "type"@, JsonTree::Text(error_type))
    &&& says(document, "kind"@, JsonTree::Text(kind))
}

/// The unsigned number with the bits of a status.
pub open spec fn status_bits(status: i32) -> nat {
    if status < 0 {
        (0x1_0000_0000 + status) as nat
    } else {
        status as nat
    }
}

/// A failed read of memory is told by its kind and by what it was about.
pub proof fn law_memory_read_error_document(error: ProcessMemoryReadError)
    ensures
        match error {
            ProcessMemoryReadError::InvalidProcessHandle => {
                &&& fails(memory_read_error_tree(error), "ProcessMemoryReadError"@, "invalid_process_handle"@)
            },
            ProcessMemoryReadError::NullBaseAddress => {
                &&& fails(memory_read_error_tree(error), "ProcessMemoryReadError"@, "null_base_address"@)
            },
            ProcessMemoryReadError::ZeroBytesRequested => {
                &&& fails(memory_read_error_tree(error), "ProcessMemoryReadError"@, "zero_bytes_requested"@)
            },
            ProcessMemoryReadError::AddressRangeOverflow { starting_address, bytes_requested } => {
                &&& fails(memory_read_error_tree(error), "ProcessMemoryReadError"@, "address_range_overflow"@)
                &&& details(memory_read_error_tree(error), "starting_address"@, JsonTree::Number(starting_address as int))
                &&& details(memory_read_error_tree(error), "starting_address_hex"@, written(starting_address as nat, 0))
                &&& details(memory_read_error_tree(error), "bytes_requested"@, JsonTree::Number(bytes_requested as int))
            },
            ProcessMemoryReadError::BufferAllocationFailed { bytes_requested } => {
                &&& fails(memory_read_error_tree(error), "ProcessMemoryReadError"@, "buffer_allocation_failed"@)
                &&& details(memory_read_error_tree(error), "bytes_requested"@, JsonTree::Number(bytes_requested as int))
            },
            ProcessMemoryReadError::BytesReadExceededRequest { bytes_requested, bytes_read } => {
                &&& fails(memory_read_error_tree(error), "ProcessMemoryReadError"@, "bytes_read_exceeded_request"@)
                &&& details(memory_read_error_tree(error), "bytes_requested"@, JsonTree::Number(bytes_requested as int))
                &&& details(memory_read_error_tree(error), "bytes_read"@, JsonTree::Number(bytes_read as int))
            },
            ProcessMemoryReadError::ReadFailed { status, bytes_read } => {
                &&& fails(memory_read_error_tree(error), "ProcessMemoryReadError"@, "read_failed"@)
                &&& details(memory_read_error_tree(error), "status"@, JsonTree::Number(status as int))
                &&& details(memory_read_error_tree(error), "status_hex"@, written(status_bits(status), 8))
                &&& details(memory_read_error_tree(error), "bytes_read"@, JsonTree::Number(bytes_read as int))
            },
            ProcessMemoryReadError::ReadIncomplete { bytes_requested, bytes_read } => {
                &&& fails(memory_read_error_tree(error), "ProcessMemoryReadError"@, "read_incomplete"@)
                &&& details(memory_read_error_tree(error), "bytes_requested"@, JsonTree::Number(bytes_requested as int))
                &&& details(memory_read_error_tree(error), "bytes_read"@, JsonTree::Number(bytes_read as int))
            },
        },
{
    let fields = memory_read_error_tree(error)->Object_0;
    match error {
        ProcessMemoryReadError::InvalidProcessHandle => {
            assert(fields[0] == ("type"@, JsonTree::Text("ProcessMemoryReadError"@)));
            assert(fields[1] == ("kind"@, JsonTree::Text("invalid_process_handle"@)));
        },
        ProcessMemoryReadError::NullBaseAddress => {
            assert(fields[0] == ("type"@, JsonTree::Text("ProcessMemoryReadError"@)));
            assert(fields[1] == ("kind"@, JsonTree::Text("null_base_address"@)));
        },
        ProcessMemoryReadError::ZeroBytesRequested => {
            assert(fields[0] == ("type"@, JsonTree::Text("ProcessMemoryReadError"@)));
            assert(fields[1] == ("kind"@, JsonTree::Text("zero_bytes_requested"@)));
        },
        ProcessMemoryReadError::AddressRangeOverflow { starting_address, bytes_requested } => {
            assert(fields[0] == ("type"@, JsonTree::Text("ProcessMemoryReadError"@)));
            assert(fields[1] == ("kind"@, JsonTree::Text("address_range_overflow"@)));
            let inner = fields[2].1;
            assert(says(memory_read_error_tree(error), "fields"@, inner));
            assert(inner->Object_0[0] == ("starting_address"@, JsonTree::Number(starting_address as int)));
            assert(says(inner, "starting_address"@, JsonTree::Number(starting_address as int)));
            assert(inner->Object_0[1] == ("starting_address_hex"@, written(starting_address as nat, 0)));
            assert(says(inner, "starting_address_hex"@, written(starting_address as nat, 0)));
            assert(inner->Object_0[2] == ("bytes_requested"@, JsonTree::Number(bytes_requested as int)));
            assert(says(inner, "bytes_requested"@, JsonTree::Number(bytes_requested as int)));
        },
        ProcessMemoryReadError::BufferAllocationFailed { bytes_requested } => {
            assert(fields[0] == ("type"@, JsonTree::Text("ProcessMemoryReadError"@)));
            assert(fields[1] == ("kind"@, JsonTree::Text("buffer_allocation_failed"@)));
            let inner = fields[2].1;
            assert(says(memory_read_error_tree(error), "fields"@, inner));
            assert(inner->Object_0[0] == ("bytes_requested"@, JsonTree::Number(bytes_requested as int)));
            assert(says(inner, "bytes_requested"@, JsonTree::Number(bytes_requested as int)));
        },
        ProcessMemoryReadError::BytesReadExceededRequest { bytes_requested, bytes_read } => {
            assert(fields[0] == ("type"@, JsonTree::Text("ProcessMemoryReadError"@)));
            assert(fields[1] == ("kind"@, JsonTree::Text("bytes_read_exceeded_request"@)));
            let inner = fields[2].1;
            assert(says(memory_read_error_tree(error), "fields"@, inner));
            assert(inner->Object_0[0] == ("bytes_requested"@, JsonTree::Number(bytes_requested as int)));
            assert(says(inner, "bytes_requested"@, JsonTree::Number(bytes_requested as int)));
            assert(inner->Object_0[1] == ("bytes_read"@, JsonTree::Number(bytes_read as int)));
            assert(says(inner, "bytes_read"@, JsonTree::Number(bytes_read as int)));
        },
        ProcessMemoryReadError::ReadFailed { status, bytes_read } => {
            assert(fields[0] == ("type"@, JsonTree::Text("ProcessMemoryReadError"@)));
            assert(fields[1] == ("kind"@, JsonTree::Text("read_failed"@)));
            let inner = fields[2].1;
            assert(says(memory_read_error_tree(error), "fields"@, inner));
            assert(inner->Object_0[0] == ("status"@, JsonTree::Number(status as int)));
            assert(says(inner, "status"@, JsonTree::Number(status as int)));
            assert(inner->Object_0[1] == ("status_hex"@, written(status_bits(status), 8)));
            assert(says(inner, "status_hex"@, written(status_bits(status), 8)));
            assert(inner->Object_0[2] == ("bytes_read"@, JsonTree::Number(bytes_read as int)));
            assert(says(inner, "bytes_read"@, JsonTree::Number(bytes_read as int)));
        },
        ProcessMemoryReadError::ReadIncomplete { bytes_requested, bytes_read } => {
            assert(fields[0] == ("type"@, JsonTree::Text("ProcessMemoryReadError"@)));
            assert(fields[1] == ("kind"@, JsonTree::Text("read_incomplete"@)));
            let inner = fields[2].1;
            assert(says(memory_read_error_tree(error), "fields"@, inner));
            assert(inner->Object_0[0] == ("bytes_requested"@, JsonTree::Number(bytes_requested as int)));
            assert(says(inner, "bytes_requested"@, JsonTree::Number(bytes_requested as int)));
            assert(inner->Object_0[1] == ("bytes_read"@, JsonTree::Number(bytes_read as int)));
            assert(says(inner, "bytes_read"@, JsonTree::Number(bytes_read as int)));
        },
    }
}

/// A refused handle is told by its kind and by what it was about.
pub proof fn law_handle_guard_error_document(error: HandleGuardError)
    ensures
        match error {
            HandleGuardError::InvalidHandle => {
                &&& fails(handle_guard_error_tree(error), "HandleGuardError"@, "invalid_handle"@)
            },
            HandleGuardError::OpenProcessFailed { process_id, requested_access, error: error_code } => {
                &&& fails(handle_guard_error_tree(error), "HandleGuardError"@, "open_process_failed"@)
                &&& details(handle_guard_error_tree(error), "process_id"@, JsonTree::Number(process_id as int))
                &&& details(handle_guard_error_tree(error), "requested_access"@, JsonTree::Number(requested_access as int))
                &&& details(handle_guard_error_tree(error), "requested_access_hex"@, written(requested_access as nat, 8))
                &&& details(handle_guard_error_tree(error), "error"@, JsonTree::Number(error_code as int))
                &&& details(handle_guard_error_tree(error), "error_hex"@, written(error_code as nat, 8))
            },
            HandleGuardError::NtOpenThreadFailed { process_id, thread_id, requested_access, status } => {
                &&& fails(handle_guard_error_tree(error), "HandleGuardError"@, "nt_open_thread_failed"@)
                &&& details(handle_guard_error_tree(error), "process_id"@, JsonTree::Number(process_id as int))
                &&& details(handle_guard_error_tree(error), "thread_id"@, JsonTree::Number(thread_id as int))
                &&& details(handle_guard_error_tree(error), "requested_access"@, JsonTree::Number(requested_access as int))
                &&& details(handle_guard_error_tree(error), "requested_access_hex"@, written(requested_access as nat, 8))
                &&& details(handle_guard_error_tree(error), "status"@, JsonTree::Number(status as int))
                &&& details(handle_guard_error_tree(error), "status_hex"@, written(status_bits(status), 8))
            },
            HandleGuardError::AccessQueryFailed { status, return_length } => {
                &&& fails(handle_guard_error_tree(error), "HandleGuardError"@, "access_query_failed"@)
                &&& details(handle_guard_error_tree(error), "status"@, JsonTree::Number(status as int))
                &&& details(handle_guard_error_tree(error), "status_hex"@, written(status_bits(status), 8))
                &&& details(handle_guard_error_tree(error), "return_length"@, JsonTree::Number(return_length as int))
                &&& details(handle_guard_error_tree(error), "return_length_hex"@, written(return_length as nat, 0))
            },
            HandleGuardError::InsufficientAccess { granted_access, required_access } => {
                &&& fails(handle_guard_error_tree(error), "HandleGuardError"@, "insufficient_access"@)
                &&& details(handle_guard_error_tree(error), "granted_access"@, JsonTree::Number(granted_access as int))
                &&& details(handle_guard_error_tree(error), "granted_access_hex"@, written(granted_access as nat, 8))
                &&& details(handle_guard_error_tree(error), "required_access"@, JsonTree::Number(required_access as int))
                &&& details(handle_guard_error_tree(error), "required_access_hex"@, written(required_access as nat, 8))
            },
        },
{
    let fields = handle_guard_error_tree(error)->Object_0;
    match error {
        HandleGuardError::InvalidHandle => {
            assert(fields[0] == ("type"@, JsonTree::Text("HandleGuardError"@)));
            assert(fields[1] == ("kind"@, JsonTree::Text("invalid_handle"@)));
        },
        HandleGuardError::OpenProcessFailed { process_id, requested_access, error: error_code } => {
            assert(fields[0] == ("type"@, JsonTree::Text("HandleGuardError"@)));
            assert(fields[1] == ("kind"@, JsonTree::Text("open_process_failed"@)));
            let inner = fields[2].1;
            assert(says(handle_guard_error_tree(error), "fields"@, inner));
            assert(inner->Object_0[0] == ("process_id"@, JsonTree::Number(process_id as int)));
            assert(says(inner, "process_id"@, JsonTree::Number(process_id as int)));
            assert(inner->Object_0[1] == ("requested_access"@, JsonTree::Number(requested_access as int)));
            assert(says(inner, "requested_access"@, JsonTree::Number(requested_access as int)));
            assert(inner->Object_0[2] == ("requested_access_hex"@, written(requested_access as nat, 8)));
            assert(says(inner, "requested_access_hex"@, written(requested_access as nat, 8)));
            assert(inner->Object_0[3] == ("error"@, JsonTree::Number(error_code as int)));
            assert(says(inner, "error"@, JsonTree::Number(error_code as int)));
            assert(inner->Object_0[4] == ("error_hex"@, written(error_code as nat, 8)));
            assert(says(inner, "error_hex"@, written(error_code as nat, 8)));
        },
        HandleGuardError::NtOpenThreadFailed { process_id, thread_id, requested_access, status } => {
            assert(fields[0] == ("type"@, JsonTree::Text("HandleGuardError"@)));
            assert(fields[1] == ("kind"@, JsonTree::Text("nt_open_thread_failed"@)));
            let inner = fields[2].1;
            assert(says(handle_guard_error_tree(error), "fields"@, inner));
            assert(inner->Object_0[0] == ("process_id"@, JsonTree::Number(process_id as int)));
            assert(says(inner, "process_id"@, JsonTree::Number(process_id as int)));
            assert(inner->Object_0[1] == ("thread_id"@, JsonTree::Number(thread_id as int)));
            assert(says(inner, "thread_id"@, JsonTree::Number(thread_id as int)));
            assert(inner->Object_0[2] == ("requested_access"@, JsonTree::Number(requested_access as int)));
            assert(says(inner, "requested_access"@, JsonTree::Number(requested_access as int)));
            assert(inner->Object_0[3] == ("requested_access_hex"@, written(requested_access as nat, 8)));
            assert(says(inner, "requested_access_hex"@, written(requested_access as nat, 8)));
            assert(inner->Object_0[4] == ("status"@, JsonTree::Number(status as int)));
            assert(says(inner, "status"@, JsonTree::Number(status as int)));
            assert(inner->Object_0[5] == ("status_hex"@, written(status_bits(status), 8)));
            assert(says(inner, "status_hex"@, written(status_bits(status), 8)));
        },
        HandleGuardError::AccessQueryFailed { status, return_length } => {
            assert(fields[0] == ("type"@, JsonTree::Text("HandleGuardError"@)));
            assert(fields[1] == ("kind"@, JsonTree::Text("access_query_failed"@)));
            let inner = fields[2].1;
            assert(says(handle_guard_error_tree(error), "fields"@, inner));
            assert(inner->Object_0[0] == ("status"@, JsonTree::Number(status as int)));
            assert(says(inner, "status"@, JsonTree::Number(status as int)));
            assert(inner->Object_0[1] == ("status_hex"@, written(status_bits(status), 8)));
            assert(says(inner, "status_hex"@, written(status_bits(status), 8)));
            assert(inner->Object_0[2] == ("return_length"@, JsonTree::Number(return_length as int)));
            assert(says(inner, "return_length"@, JsonTree::Number(return_length as int)));
            assert(inner->Object_0[3] == ("return_length_hex"@, written(return_length as nat, 0)));
            assert(says(inner, "return_length_hex"@, written(return_length as nat, 0)));
        },
        HandleGuardError::InsufficientAccess { granted_access, required_access } => {
            assert(fields[0] == ("type"@, JsonTree::Text("HandleGuardError"@)));
            assert(fields[1] == ("kind"@, JsonTree::Text("insufficient_access"@)));
            let inner = fields[2].1;
            assert(says(handle_guard_error_tree(error), "fields"@, inner));
            assert(inner->Object_0[0] == ("granted_access"@, JsonTree::Number(granted_access as int)));
            assert(says(inner, "granted_access"@, JsonTree::Number(granted_access as int)));
            assert(inner->Object_0[1] == ("granted_access_hex"@, written(granted_access as nat, 8)));
            assert(says(inner, "granted_access_hex"@, written(granted_access as nat, 8)));
            assert(inner->Object_0[2] == ("required_access"@, JsonTree::Number(required_access as int)));
            assert(says(inner, "required_access"@, JsonTree::Number(required_access as int)));
            assert(inner->Object_0[3] == ("required_access_hex"@, written(required_access as nat, 8)));
            assert(says(inner, "required_access_hex"@, written(required_access as nat, 8)));
        },
    }
}

/// A failed thread is told by its kind and by what it was about.
pub proof fn law_thread_teb_error_document(error: ThreadTebCollectionError)
    ensures
        match error {
            ThreadTebCollectionError::InvalidProcessHandle => {
                &&& fails(thread_teb_error_tree(error), "ThreadTebCollectionError"@, "invalid_process_handle"@)
            },
            ThreadTebCollectionError::ProcessIdUnavailable { error: error_code } => {
                &&& fails(thread_teb_error_tree(error), "ThreadTebCollectionError"@, "process_id_unavailable"@)
                &&& details(thread_teb_error_tree(error), "error"@, JsonTree::Number(error_code as int))
                &&& details(thread_teb_error_tree(error), "error_hex"@, written(error_code as nat, 8))
            },
            ThreadTebCollectionError::InvalidThreadId => {
                &&& fails(thread_teb_error_tree(error), "ThreadTebCollectionError"@, "invalid_thread_id"@)
            },
            ThreadTebCollectionError::ThreadOpenFailed(cause) => {
                &&& fails(thread_teb_error_tree(error), "ThreadTebCollectionError"@, "thread_open_failed"@)
                &&& says(thread_teb_error_tree(error), "cause"@, handle_guard_error_tree(cause))
            },
            ThreadTebCollectionError::ThreadInformationQueryFailed { status, return_length } => {
                &&& fails(thread_teb_error_tree(error), "ThreadTebCollectionError"@, "thread_information_query_failed"@)
                &&& details(thread_teb_error_tree(error), "status"@, JsonTree::Number(status as int))
                &&& details(thread_teb_error_tree(error), "status_hex"@, written(status_bits(status), 8))
                &&& details(thread_teb_error_tree(error), "return_length"@, JsonTree::Number(return_length as int))
                &&& details(thread_teb_error_tree(error), "return_length_hex"@, written(return_length as nat, 0))
            },
            ThreadTebCollectionError::ThreadInformationTooSmall { return_length } => {
                &&& fails(thread_teb_error_tree(error), "ThreadTebCollectionError"@, "thread_information_too_small"@)
                &&& details(thread_teb_error_tree(error), "return_length"@, JsonTree::Number(return_length as int))
                &&& details(thread_teb_error_tree(error), "return_length_hex"@, written(return_length as nat, 0))
            },
            ThreadTebCollectionError::ThreadIdentityMismatch { expected_process_id, actual_process_id, expected_thread_id, actual_thread_id } => {
                &&& fails(thread_teb_error_tree(error), "ThreadTebCollectionError"@, "thread_identity_mismatch"@)
                &&& details(thread_teb_error_tree(error), "expected_process_id"@, JsonTree::Number(expected_process_id as int))
                &&& details(thread_teb_error_tree(error), "actual_process_id"@, JsonTree::Number(actual_process_id as int))
                &&& details(thread_teb_error_tree(error), "expected_thread_id"@, JsonTree::Number(expected_thread_id as int))
                &&& details(thread_teb_error_tree(error), "actual_thread_id"@, JsonTree::Number(actual_thread_id as int))
            },
            ThreadTebCollectionError::TebAddressUnavailable => {
                &&& fails(thread_teb_error_tree(error), "ThreadTebCollectionError"@, "teb_address_unavailable"@)
            },
            ThreadTebCollectionError::TebReadFailed(cause) => {
                &&& fails(thread_teb_error_tree(error), "ThreadTebCollectionError"@, "teb_read_failed"@)
                &&& says(thread_teb_error_tree(error), "cause"@, memory_read_error_tree(cause))
            },
            ThreadTebCollectionError::TebReadIncomplete { bytes_requested, bytes_read } => {
                &&& fails(thread_teb_error_tree(error), "ThreadTebCollectionError"@, "teb_read_incomplete"@)
                &&& details(thread_teb_error_tree(error), "bytes_requested"@, JsonTree::Number(bytes_requested as int))
                &&& details(thread_teb_error_tree(error), "bytes_read"@, JsonTree::Number(bytes_read as int))
            },
        },
{
    let fields = thread_teb_error_tree(error)->Object_0;
    match error {
        ThreadTebCollectionError::InvalidProcessHandle => {
            assert(fields[0] == ("type"@, JsonTree::Text("ThreadTebCollectionError"@)));
            assert(fields[1] == ("kind"@, JsonTree::Text("invalid_process_handle"@)));
        },
        ThreadTebCollectionError::ProcessIdUnavailable { error: error_code } => {
            assert(fields[0] == ("type"@, JsonTree::Text("ThreadTebCollectionError"@)));
            assert(fields[1] == ("kind"@, JsonTree::Text("process_id_unavailable"@)));
            let inner = fields[2].1;
            assert(says(thread_teb_error_tree(error), "fields"@, inner));
            assert(inner->Object_0[0] == ("error"@, JsonTree::Number(error_code as int)));
            assert(says(inner, "error"@, JsonTree::Number(error_code as int)));
            assert(inner->Object_0[1] == ("error_hex"@, written(error_code as nat, 8)));
            assert(says(inner, "error_hex"@, written(error_code as nat, 8)));
        },
        ThreadTebCollectionError::InvalidThreadId => {
            assert(fields[0] == ("type"@, JsonTree::Text("ThreadTebCollectionError"@)));
            assert(fields[1] == ("kind"@, JsonTree::Text("invalid_thread_id"@)));
        },
        ThreadTebCollectionError::ThreadOpenFailed(cause) => {
            assert(fields[0] == ("type"@, JsonTree::Text("ThreadTebCollectionError"@)));
            assert(fields[1] == ("kind"@, JsonTree::Text("thread_open_failed"@)));
            assert(fields[2] == ("cause"@, handle_guard_error_tree(cause)));
        },
        ThreadTebCollectionError::ThreadInformationQueryFailed { status, return_length } => {
            assert(fields[0] == ("type"@, JsonTree::Text("ThreadTebCollectionError"@)));
            assert(fields[1] == ("kind"@, JsonTree::Text("thread_information_query_failed"@)));
            let inner = fields[2].1;
            assert(says(thread_teb_error_tree(error), "fields"@, inner));
            assert(inner->Object_0[0] == ("status"@, JsonTree::Number(status as int)));
            assert(says(inner, "status"@, JsonTree::Number(status as int)));
            assert(inner->Object_0[1] == ("status_hex"@, written(status_bits(status), 8)));
            assert(says(inner, "status_hex"@, written(status_bits(status), 8)));
            assert(inner->Object_0[2] == ("return_length"@, JsonTree::Number(return_length as int)));
            assert(says(inner, "return_length"@, JsonTree::Number(return_length as int)));
            assert(inner->Object_0[3] == ("return_length_hex"@, written(return_length as nat, 0)));
            assert(says(inner, "return_length_hex"@, written(return_length as nat, 0)));
        },
        ThreadTebCollectionError::ThreadInformationTooSmall { return_length } => {
            assert(fields[0] == ("type"@, JsonTree::Text("ThreadTebCollectionError"@)));
            assert(fields[1] == ("kind"@, JsonTree::Text("thread_information_too_small"@)));
            let inner = fields[2].1;
            assert(says(thread_teb_error_tree(error), "fields"@, inner));
            assert(inner->Object_0[0] == ("return_length"@, JsonTree::Number(return_length as int)));
            assert(says(inner, "return_length"@, JsonTree::Number(return_length as int)));
            assert(inner->Object_0[1] == ("return_length_hex"@, written(return_length as nat, 0)));
            assert(says(inner, "return_length_hex"@, written(return_length as nat, 0)));
        },
        ThreadTebCollectionError::ThreadIdentityMismatch { expected_process_id, actual_process_id, expected_thread_id, actual_thread_id } => {
            assert(fields[0] == ("type"@, JsonTree::Text("ThreadTebCollectionError"@)));
            assert(fields[1] == ("kind"@, JsonTree::Text("thread_identity_mismatch"@)));
            let inner = fields[2].1;
            assert(says(thread_teb_error_tree(error), "fields"@, inner));
            assert(inner->Object_0[0] == ("expected_process_id"@, JsonTree::Number(expected_process_id as int)));
            assert(says(inner, "expected_process_id"@, JsonTree::Number(expected_process_id as int)));
            assert(inner->Object_0[1] == ("actual_process_id"@, JsonTree::Number(actual_process_id as int)));
            assert(says(inner, "actual_process_id"@, JsonTree::Number(actual_process_id as int)));
            assert(inner->Object_0[2] == ("expected_thread_id"@, JsonTree::Number(expected_thread_id as int)));
            assert(says(inner, "expected_thread_id"@, JsonTree::Number(expected_thread_id as int)));
            assert(inner->Object_0[3] == ("actual_thread_id"@, JsonTree::Number(actual_thread_id as int)));
            assert(says(inner, "actual_thread_id"@, JsonTree::Number(actual_thread_id as int)));
        },
        ThreadTebCollectionError::TebAddressUnavailable => {
            assert(fields[0] == ("type"@, JsonTree::Text("ThreadTebCollectionError"@)));
            assert(fields[1] == ("kind"@, JsonTree::Text("teb_address_unavailable"@)));
        },
        ThreadTebCollectionError::TebReadFailed(cause) => {
            assert(fields[0] == ("type"@, JsonTree::Text("ThreadTebCollectionError"@)));
            assert(fields[1] == ("kind"@, JsonTree::Text("teb_read_failed"@)));
            assert(fields[2] == ("cause"@, memory_read_error_tree(cause)));
        },
        ThreadTebCollectionError::TebReadIncomplete { bytes_requested, bytes_read } => {
            assert(fields[0] == ("type"@, JsonTree::Text("ThreadTebCollectionError"@)));
            assert(fields[1] == ("kind"@, JsonTree::Text("teb_read_incomplete"@)));
            let inner = fields[2].1;
            assert(says(thread_teb_error_tree(error), "fields"@, inner));
            assert(inner->Object_0[0] == ("bytes_requested"@, JsonTree::Number(bytes_requested as int)));
            assert(says(inner, "bytes_requested"@, JsonTree::Number(bytes_requested as int)));
            assert(inner->Object_0[1] == ("bytes_read"@, JsonTree::Number(bytes_read as int)));
            assert(says(inner, "bytes_read"@, JsonTree::Number(bytes_read as int)));
        },
    }
}

/// A failed collection of threads is told by its kind and by what it was about.
pub proof fn law_process_teb_error_document(error: ProcessTebCollectionError)
    ensures
        match error {
            ProcessTebCollectionError::InvalidProcessHandle => {
                &&& fails(process_teb_error_tree(error), "ProcessTebCollectionError"@, "invalid_process_handle"@)
            },
            ProcessTebCollectionError::ProcessIdUnavailable { error: error_code } => {
                &&& fails(process_teb_error_tree(error), "ProcessTebCollectionError"@, "process_id_unavailable"@)
                &&& details(process_teb_error_tree(error), "error"@, JsonTree::Number(error_code as int))
                &&& details(process_teb_error_tree(error), "error_hex"@, written(error_code as nat, 8))
            },
            ProcessTebCollectionError::ThreadSnapshotFailed { error: error_code } => {
                &&& fails(process_teb_error_tree(error), "ProcessTebCollectionError"@, "thread_snapshot_failed"@)
                &&& details(process_teb_error_tree(error), "error"@, JsonTree::Number(error_code as int))
                &&& details(process_teb_error_tree(error), "error_hex"@, written(error_code as nat, 8))
            },
            ProcessTebCollectionError::ThreadSnapshotHandleFailed(cause) => {
                &&& fails(process_teb_error_tree(error), "ProcessTebCollectionError"@, "thread_snapshot_handle_failed"@)
                &&& says(process_teb_error_tree(error), "cause"@, handle_guard_error_tree(cause))
            },
            ProcessTebCollectionError::ThreadSnapshotIterationFailed { error: error_code } => {
                &&& fails(process_teb_error_tree(error), "ProcessTebCollectionError"@, "thread_snapshot_iteration_failed"@)
                &&& details(process_teb_error_tree(error), "error"@, JsonTree::Number(error_code as int))
                &&& details(process_teb_error_tree(error), "error_hex"@, written(error_code as nat, 8))
            },
        },
{
    let fields = process_teb_error_tree(error)->Object_0;
    match error {
        ProcessTebCollectionError::InvalidProcessHandle => {
            assert(fields[0] == ("type"@, JsonTree::Text("ProcessTebCollectionError"@)));
            assert(fields[1] == ("kind"@, JsonTree::Text("invalid_process_handle"@)));
        },
        ProcessTebCollectionError::ProcessIdUnavailable { error: error_code } => {
            assert(fields[0] == ("type"@, JsonTree::Text("ProcessTebCollectionError"@)));
            assert(fields[1] == ("kind"@, JsonTree::Text("process_id_unavailable"@)));
            let inner = fields[2].1;
            assert(says(process_teb_error_tree(error), "fields"@, inner));
            assert(inner->Object_0[0] == ("error"@, JsonTree::Number(error_code as int)));
            assert(says(inner, "error"@, JsonTree::Number(error_code as int)));
            assert(inner->Object_0[1] == ("error_hex"@, written(error_code as nat, 8)));
            assert(says(inner, "error_hex"@, written(error_code as nat, 8)));
        },
        ProcessTebCollectionError::ThreadSnapshotFailed { error: error_code } => {
            assert(fields[0] == ("type"@, JsonTree::Text("ProcessTebCollectionError"@)));
            assert(fields[1] == ("kind"@, JsonTree::Text("thread_snapshot_failed"@)));
            let inner = fields[2].1;
            assert(says(process_teb_error_tree(error), "fields"@, inner));
            assert(inner->Object_0[0] == ("error"@, JsonTree::Number(error_code as int)));
            assert(says(inner, "error"@, JsonTree::Number(error_code as int)));
            assert(inner->Object_0[1] == ("error_hex"@, written(error_code as nat, 8)));
            assert(says(inner, "error_hex"@, written(error_code as nat, 8)));
        },
        ProcessTebCollectionError::ThreadSnapshotHandleFailed(cause) => {
            assert(fields[0] == ("type"@, JsonTree::Text("ProcessTebCollectionError"@)));
            assert(fields[1] == ("kind"@, JsonTree::Text("thread_snapshot_handle_failed"@)));
            assert(fields[2] == ("cause"@, handle_guard_error_tree(cause)));
        },
        ProcessTebCollectionError::ThreadSnapshotIterationFailed { error: error_code } => {
            assert(fields[0] == ("type"@, JsonTree::Text("ProcessTebCollectionError"@)));
            assert(fields[1] == ("kind"@, JsonTree::Text("thread_snapshot_iteration_failed"@)));
            let inner = fields[2].1;
            assert(says(process_teb_error_tree(error), "fields"@, inner));
            assert(inner->Object_0[0] == ("error"@, JsonTree::Number(error_code as int)));
            assert(says(inner, "error"@, JsonTree::Number(error_code as int)));
            assert(inner->Object_0[1] == ("error_hex"@, written(error_code as nat, 8)));
            assert(says(inner, "error_hex"@, written(error_code as nat, 8)));
        },
    }
}

/// A failed collection of imports is told by its kind and by what it was about.
pub proof fn law_import_error_document(error: ProcessImportCollectionError)
    ensures
        match error {
            ProcessImportCollectionError::IncompleteMainModuleSnapshot { rva, size } => {
                &&& fails(import_error_tree(error), "ProcessImportCollectionError"@, "incomplete_main_module_snapshot"@)
                &&& details(import_error_tree(error), "rva"@, JsonTree::Number(rva as int))
                &&& details(import_error_tree(error), "rva_hex"@, written(rva as nat, 0))
                &&& details(import_error_tree(error), "size"@, JsonTree::Number(size as int))
                &&& details(import_error_tree(error), "size_hex"@, written(size as nat, 0))
            },
        },
{
    let fields = import_error_tree(error)->Object_0;
    match error {
        ProcessImportCollectionError::IncompleteMainModuleSnapshot { rva, size } => {
            assert(fields[0] == ("type"@, JsonTree::Text("ProcessImportCollectionError"@)));
            assert(fields[1] == ("kind"@, JsonTree::Text("incomplete_main_module_snapshot"@)));
            let inner = fields[2].1;
            assert(says(import_error_tree(error), "fields"@, inner));
            assert(inner->Object_0[0] == ("rva"@, JsonTree::Number(rva as int)));
            assert(says(inner, "rva"@, JsonTree::Number(rva as int)));
            assert(inner->Object_0[1] == ("rva_hex"@, written(rva as nat, 0)));
            assert(says(inner, "rva_hex"@, written(rva as nat, 0)));
            assert(inner->Object_0[2] == ("size"@, JsonTree::Number(size as int)));
            assert(says(inner, "size"@, JsonTree::Number(size as int)));
            assert(inner->Object_0[3] == ("size_hex"@, written(size as nat, 0)));
            assert(says(inner, "size_hex"@, written(size as nat, 0)));
        },
    }
}

/// A failed collection of program-database metadata is told by its kind and by what it was about.
pub proof fn law_pdb_error_document(error: PdbInfoCollectionError)
    ensures
        match error {
            PdbInfoCollectionError::ProcessValidationFailed(_) => {
                &&& fails(pdb_error_tree(error), "PdbInfoCollectionError"@, "process_validation_failed"@)
            },
            PdbInfoCollectionError::InvalidMainModulePe(_) => {
                &&& fails(pdb_error_tree(error), "PdbInfoCollectionError"@, "invalid_main_module_pe"@)
            },
            PdbInfoCollectionError::IncompleteMainModuleSnapshot { rva, size } => {
                &&& fails(pdb_error_tree(error), "PdbInfoCollectionError"@, "incomplete_main_module_snapshot"@)
                &&& details(pdb_error_tree(error), "rva"@, JsonTree::Number(rva as int))
                &&& details(pdb_error_tree(error), "rva_hex"@, written(rva as nat, 0))
                &&& details(pdb_error_tree(error), "size"@, JsonTree::Number(size as int))
                &&& details(pdb_error_tree(error), "size_hex"@, written(size as nat, 0))
            },
        },
{
    let fields = pdb_error_tree(error)->Object_0;
    match error {
        PdbInfoCollectionError::ProcessValidationFailed(_) => {
            assert(fields[0] == ("type"@, JsonTree::Text("PdbInfoCollectionError"@)));
            assert(fields[1] == ("kind"@, JsonTree::Text("process_validation_failed"@)));
        },
        PdbInfoCollectionError::InvalidMainModulePe(_) => {
            assert(fields[0] == ("type"@, JsonTree::Text("PdbInfoCollectionError"@)));
            assert(fields[1] == ("kind"@, JsonTree::Text("invalid_main_module_pe"@)));
        },
        PdbInfoCollectionError::IncompleteMainModuleSnapshot { rva, size } => {
            assert(fields[0] == ("type"@, JsonTree::Text("PdbInfoCollectionError"@)));
            assert(fields[1] == ("kind"@, JsonTree::Text("incomplete_main_module_snapshot"@)));
            let inner = fields[2].1;
            assert(says(pdb_error_tree(error), "fields"@, inner));
            assert(inner->Object_0[0] == ("rva"@, JsonTree::Number(rva as int)));
            assert(says(inner, "rva"@, JsonTree::Number(rva as int)));
            assert(inner->Object_0[1] == ("rva_hex"@, written(rva as nat, 0)));
            assert(says(inner, "rva_hex"@, written(rva as nat, 0)));
            assert(inner->Object_0[2] == ("size"@, JsonTree::Number(size as int)));
            assert(says(inner, "size"@, JsonTree::Number(size as int)));
            assert(inner->Object_0[3] == ("size_hex"@, written(size as nat, 0)));
            assert(says(inner, "size_hex"@, written(size as nat, 0)));
        },
    }
}

} // verus!
