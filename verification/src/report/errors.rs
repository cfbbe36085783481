//! Documents of typed failures.

use vstd::prelude::*;

use super::value::{
    field_trees, hex, hex32, hex_tree, new_fields, no_fields, number, number32, number_tree, object, put,
    signed, status_hex, text, tree, unsigned32, JsonField, JsonTree, JsonValue,
};
use crate::debuginfo::pdb::PdbInfoCollectionError;
use crate::imports::collector::ProcessImportCollectionError;
use crate::memory::ProcessMemoryReadError;
use crate::process::HandleGuardError;
use crate::teb::{ProcessTebCollectionError, ThreadTebCollectionError};

verus! {

/// The tree of a fieldless error.
pub open spec fn simple_error_tree(error_type: Seq<char>, kind: Seq<char>) -> JsonTree {
    JsonTree::Object(
        no_fields()
            .push(("type"@, JsonTree::Text(error_type)))
            .push(("kind"@, JsonTree::Text(kind))),
    )
}

/// The tree of an error with fields.
pub open spec fn field_error_tree(
    error_type: Seq<char>,
    kind: Seq<char>,
    fields: Seq<(Seq<char>, JsonTree)>,
) -> JsonTree {
    JsonTree::Object(
        no_fields()
            .push(("type"@, JsonTree::Text(error_type)))
            .push(("kind"@, JsonTree::Text(kind)))
            .push(("fields"@, JsonTree::Object(fields))),
    )
}

/// The tree of an error with a cause.
pub open spec fn caused_error_tree(
    error_type: Seq<char>,
    kind: Seq<char>,
    cause: JsonTree,
) -> JsonTree {
    JsonTree::Object(
        no_fields()
            .push(("type"@, JsonTree::Text(error_type)))
            .push(("kind"@, JsonTree::Text(kind)))
            .push(("cause"@, cause)),
    )
}

/// The tree of an error with a Win32 error value.
pub open spec fn win32_error_tree(error_type: Seq<char>, kind: Seq<char>, error: u32) -> JsonTree {
    field_error_tree(
        error_type,
        kind,
        no_fields()
            .push(("error"@, number_tree(error as int)))
            .push(("error_hex"@, hex_tree(error as nat, 8))),
    )
}

/// Builds a typed fieldless error document.
pub fn simple_error_json(error_type: &str, kind: &str) -> (r: JsonValue)
    ensures
        tree(r) == simple_error_tree(error_type@, kind@),
{
    let mut fields = new_fields();
    put(&mut fields, "type", text(error_type));
    put(&mut fields, "kind", text(kind));
    object(fields)
}

/// Builds a typed error document with fields.
fn field_error_json(error_type: &str, kind: &str, details: Vec<JsonField>) -> (r:
    JsonValue)
    ensures
        tree(r) == field_error_tree(
            error_type@,
            kind@,
            field_trees(details@),
        ),
{
    let mut fields = new_fields();
    put(&mut fields, "type", text(error_type));
    put(&mut fields, "kind", text(kind));
    put(&mut fields, "fields", object(details));
    object(fields)
}

/// Builds a typed error document with a cause.
fn caused_error_json(error_type: &str, kind: &str, cause: JsonValue) -> (r: JsonValue)
    ensures
        tree(r) == caused_error_tree(
            error_type@,
            kind@,
            tree(cause),
        ),
{
    let mut fields = new_fields();
    put(&mut fields, "type", text(error_type));
    put(&mut fields, "kind", text(kind));
    put(&mut fields, "cause", cause);
    object(fields)
}

/// Builds a typed error document containing one Win32 error value.
pub fn win32_error_json(error_type: &str, kind: &str, error: u32) -> (r: JsonValue)
    ensures
        tree(r) == win32_error_tree(error_type@, kind@, error),
{
    let mut details = new_fields();
    put(&mut details, "error", number32(error));
    put(&mut details, "error_hex", hex32(error, 8));
    field_error_json(error_type, kind, details)
}

/// The tree of a `ProcessMemoryReadError`.
pub open spec fn memory_read_error_tree(error: ProcessMemoryReadError) -> JsonTree {
    match error {
        ProcessMemoryReadError::InvalidProcessHandle => simple_error_tree("ProcessMemoryReadError"@, "invalid_process_handle"@),
        ProcessMemoryReadError::NullBaseAddress => simple_error_tree("ProcessMemoryReadError"@, "null_base_address"@),
        ProcessMemoryReadError::ZeroBytesRequested => simple_error_tree("ProcessMemoryReadError"@, "zero_bytes_requested"@),
        ProcessMemoryReadError::AddressRangeOverflow { starting_address, bytes_requested } => field_error_tree(
            "ProcessMemoryReadError"@,
            "address_range_overflow"@,
            no_fields()
                .push(("starting_address"@, number_tree(starting_address as int)))
                .push(("starting_address_hex"@, hex_tree(starting_address as nat, 0)))
                .push(("bytes_requested"@, number_tree(bytes_requested as int))),
        ),
        ProcessMemoryReadError::BufferAllocationFailed { bytes_requested } => field_error_tree(
            "ProcessMemoryReadError"@,
            "buffer_allocation_failed"@,
            no_fields()
                .push(("bytes_requested"@, number_tree(bytes_requested as int))),
        ),
        ProcessMemoryReadError::BytesReadExceededRequest { bytes_requested, bytes_read } => field_error_tree(
            "ProcessMemoryReadError"@,
            "bytes_read_exceeded_request"@,
            no_fields()
                .push(("bytes_requested"@, number_tree(bytes_requested as int)))
                .push(("bytes_read"@, number_tree(bytes_read as int))),
        ),
        ProcessMemoryReadError::ReadFailed { status, bytes_read } => field_error_tree(
            "ProcessMemoryReadError"@,
            "read_failed"@,
            no_fields()
                .push(("status"@, number_tree(status as int)))
                .push(("status_hex"@, hex_tree(unsigned32(status), 8)))
                .push(("bytes_read"@, number_tree(bytes_read as int))),
        ),
        ProcessMemoryReadError::ReadIncomplete { bytes_requested, bytes_read } => field_error_tree(
            "ProcessMemoryReadError"@,
            "read_incomplete"@,
            no_fields()
                .push(("bytes_requested"@, number_tree(bytes_requested as int)))
                .push(("bytes_read"@, number_tree(bytes_read as int))),
        ),
    }
}

/// Builds a stable structured process-memory read error.
pub fn build_memory_read_error_json(error: &ProcessMemoryReadError) -> (r: JsonValue)
    ensures
        tree(r) == memory_read_error_tree(*error),
{
    match *error {
        ProcessMemoryReadError::InvalidProcessHandle => simple_error_json("ProcessMemoryReadError", "invalid_process_handle"),
        ProcessMemoryReadError::NullBaseAddress => simple_error_json("ProcessMemoryReadError", "null_base_address"),
        ProcessMemoryReadError::ZeroBytesRequested => simple_error_json("ProcessMemoryReadError", "zero_bytes_requested"),
        ProcessMemoryReadError::AddressRangeOverflow { starting_address, bytes_requested } => {
            let mut details = new_fields();
            put(&mut details, "starting_address", number(starting_address));
            put(&mut details, "starting_address_hex", hex(starting_address));
            put(&mut details, "bytes_requested", number(bytes_requested));
            field_error_json("ProcessMemoryReadError", "address_range_overflow", details)
        },
        ProcessMemoryReadError::BufferAllocationFailed { bytes_requested } => {
            let mut details = new_fields();
            put(&mut details, "bytes_requested", number(bytes_requested));
            field_error_json("ProcessMemoryReadError", "buffer_allocation_failed", details)
        },
        ProcessMemoryReadError::BytesReadExceededRequest { bytes_requested, bytes_read } => {
            let mut details = new_fields();
            put(&mut details, "bytes_requested", number(bytes_requested));
            put(&mut details, "bytes_read", number(bytes_read));
            field_error_json("ProcessMemoryReadError", "bytes_read_exceeded_request", details)
        },
        ProcessMemoryReadError::ReadFailed { status, bytes_read } => {
            let mut details = new_fields();
            put(&mut details, "status", signed(status));
            put(&mut details, "status_hex", status_hex(status));
            put(&mut details, "bytes_read", number(bytes_read));
            field_error_json("ProcessMemoryReadError", "read_failed", details)
        },
        ProcessMemoryReadError::ReadIncomplete { bytes_requested, bytes_read } => {
            let mut details = new_fields();
            put(&mut details, "bytes_requested", number(bytes_requested));
            put(&mut details, "bytes_read", number(bytes_read));
            field_error_json("ProcessMemoryReadError", "read_incomplete", details)
        },
    }
}

/// The tree of a `HandleGuardError`.
pub open spec fn handle_guard_error_tree(error: HandleGuardError) -> JsonTree {
    match error {
        HandleGuardError::InvalidHandle => simple_error_tree("HandleGuardError"@, "invalid_handle"@),
        HandleGuardError::OpenProcessFailed { process_id, requested_access, error } => field_error_tree(
            "HandleGuardError"@,
            "open_process_failed"@,
            no_fields()
                .push(("process_id"@, number_tree(process_id as int)))
                .push(("requested_access"@, number_tree(requested_access as int)))
                .push(("requested_access_hex"@, hex_tree(requested_access as nat, 8)))
                .push(("error"@, number_tree(error as int)))
                .push(("error_hex"@, hex_tree(error as nat, 8))),
        ),
        HandleGuardError::NtOpenThreadFailed { process_id, thread_id, requested_access, status } => field_error_tree(
            "HandleGuardError"@,
            "nt_open_thread_failed"@,
            no_fields()
                .push(("process_id"@, number_tree(process_id as int)))
                .push(("thread_id"@, number_tree(thread_id as int)))
                .push(("requested_access"@, number_tree(requested_access as int)))
                .push(("requested_access_hex"@, hex_tree(requested_access as nat, 8)))
                .push(("status"@, number_tree(status as int)))
                .push(("status_hex"@, hex_tree(unsigned32(status), 8))),
        ),
        HandleGuardError::AccessQueryFailed { status, return_length } => field_error_tree(
            "HandleGuardError"@,
            "access_query_failed"@,
            no_fields()
                .push(("status"@, number_tree(status as int)))
                .push(("status_hex"@, hex_tree(unsigned32(status), 8)))
                .push(("return_length"@, number_tree(return_length as int)))
                .push(("return_length_hex"@, hex_tree(return_length as nat, 0))),
        ),
        HandleGuardError::InsufficientAccess { granted_access, required_access } => field_error_tree(
            "HandleGuardError"@,
            "insufficient_access"@,
            no_fields()
                .push(("granted_access"@, number_tree(granted_access as int)))
                .push(("granted_access_hex"@, hex_tree(granted_access as nat, 8)))
                .push(("required_access"@, number_tree(required_access as int)))
                .push(("required_access_hex"@, hex_tree(required_access as nat, 8))),
        ),
    }
}

/// Builds a stable structured owned-handle validation error.
pub fn build_handle_guard_error_json(error: &HandleGuardError) -> (r: JsonValue)
    ensures
        tree(r) == handle_guard_error_tree(*error),
{
    match *error {
        HandleGuardError::InvalidHandle => simple_error_json("HandleGuardError", "invalid_handle"),
        HandleGuardError::OpenProcessFailed { process_id, requested_access, error } => {
            let mut details = new_fields();
            put(&mut details, "process_id", number32(process_id));
            put(&mut details, "requested_access", number32(requested_access));
            put(&mut details, "requested_access_hex", hex32(requested_access, 8));
            put(&mut details, "error", number32(error));
            put(&mut details, "error_hex", hex32(error, 8));
            field_error_json("HandleGuardError", "open_process_failed", details)
        },
        HandleGuardError::NtOpenThreadFailed { process_id, thread_id, requested_access, status } => {
            let mut details = new_fields();
            put(&mut details, "process_id", number32(process_id));
            put(&mut details, "thread_id", number32(thread_id));
            put(&mut details, "requested_access", number32(requested_access));
            put(&mut details, "requested_access_hex", hex32(requested_access, 8));
            put(&mut details, "status", signed(status));
            put(&mut details, "status_hex", status_hex(status));
            field_error_json("HandleGuardError", "nt_open_thread_failed", details)
        },
        HandleGuardError::AccessQueryFailed { status, return_length } => {
            let mut details = new_fields();
            put(&mut details, "status", signed(status));
            put(&mut details, "status_hex", status_hex(status));
            put(&mut details, "return_length", number32(return_length));
            put(&mut details, "return_length_hex", hex32(return_length, 0));
            field_error_json("HandleGuardError", "access_query_failed", details)
        },
        HandleGuardError::InsufficientAccess { granted_access, required_access } => {
            let mut details = new_fields();
            put(&mut details, "granted_access", number32(granted_access));
            put(&mut details, "granted_access_hex", hex32(granted_access, 8));
            put(&mut details, "required_access", number32(required_access));
            put(&mut details, "required_access_hex", hex32(required_access, 8));
            field_error_json("HandleGuardError", "insufficient_access", details)
        },
    }
}

/// The tree of a `ThreadTebCollectionError`.
pub open spec fn thread_teb_error_tree(error: ThreadTebCollectionError) -> JsonTree {
    match error {
        ThreadTebCollectionError::InvalidProcessHandle => simple_error_tree("ThreadTebCollectionError"@, "invalid_process_handle"@),
        ThreadTebCollectionError::ProcessIdUnavailable { error } => win32_error_tree("ThreadTebCollectionError"@, "process_id_unavailable"@, error),
        ThreadTebCollectionError::InvalidThreadId => simple_error_tree("ThreadTebCollectionError"@, "invalid_thread_id"@),
        ThreadTebCollectionError::ThreadOpenFailed(cause) => caused_error_tree(
            "ThreadTebCollectionError"@,
            "thread_open_failed"@,
            handle_guard_error_tree(cause),
        ),
        ThreadTebCollectionError::ThreadInformationQueryFailed { status, return_length } => field_error_tree(
            "ThreadTebCollectionError"@,
            "thread_information_query_failed"@,
            no_fields()
                .push(("status"@, number_tree(status as int)))
                .push(("status_hex"@, hex_tree(unsigned32(status), 8)))
                .push(("return_length"@, number_tree(return_length as int)))
                .push(("return_length_hex"@, hex_tree(return_length as nat, 0))),
        ),
        ThreadTebCollectionError::ThreadInformationTooSmall { return_length } => field_error_tree(
            "ThreadTebCollectionError"@,
            "thread_information_too_small"@,
            no_fields()
                .push(("return_length"@, number_tree(return_length as int)))
                .push(("return_length_hex"@, hex_tree(return_length as nat, 0))),
        ),
        ThreadTebCollectionError::ThreadIdentityMismatch { expected_process_id, actual_process_id, expected_thread_id, actual_thread_id } => field_error_tree(
            "ThreadTebCollectionError"@,
            "thread_identity_mismatch"@,
            no_fields()
                .push(("expected_process_id"@, number_tree(expected_process_id as int)))
                .push(("actual_process_id"@, number_tree(actual_process_id as int)))
                .push(("expected_thread_id"@, number_tree(expected_thread_id as int)))
                .push(("actual_thread_id"@, number_tree(actual_thread_id as int))),
        ),
        ThreadTebCollectionError::TebAddressUnavailable => simple_error_tree("ThreadTebCollectionError"@, "teb_address_unavailable"@),
        ThreadTebCollectionError::TebReadFailed(cause) => caused_error_tree(
            "ThreadTebCollectionError"@,
            "teb_read_failed"@,
            memory_read_error_tree(cause),
        ),
        ThreadTebCollectionError::TebReadIncomplete { bytes_requested, bytes_read } => field_error_tree(
            "ThreadTebCollectionError"@,
            "teb_read_incomplete"@,
            no_fields()
                .push(("bytes_requested"@, number_tree(bytes_requested as int)))
                .push(("bytes_read"@, number_tree(bytes_read as int))),
        ),
    }
}

/// Builds a stable structured thread-scoped TEB collector error.
pub fn build_thread_teb_error_json(error: &ThreadTebCollectionError) -> (r: JsonValue)
    ensures
        tree(r) == thread_teb_error_tree(*error),
{
    match *error {
        ThreadTebCollectionError::InvalidProcessHandle => simple_error_json("ThreadTebCollectionError", "invalid_process_handle"),
        ThreadTebCollectionError::ProcessIdUnavailable { error } => win32_error_json("ThreadTebCollectionError", "process_id_unavailable", error),
        ThreadTebCollectionError::InvalidThreadId => simple_error_json("ThreadTebCollectionError", "invalid_thread_id"),
        ThreadTebCollectionError::ThreadOpenFailed(cause) => caused_error_json(
            "ThreadTebCollectionError",
            "thread_open_failed",
            build_handle_guard_error_json(&cause),
        ),
        ThreadTebCollectionError::ThreadInformationQueryFailed { status, return_length } => {
            let mut details = new_fields();
            put(&mut details, "status", signed(status));
            put(&mut details, "status_hex", status_hex(status));
            put(&mut details, "return_length", number32(return_length));
            put(&mut details, "return_length_hex", hex32(return_length, 0));
            field_error_json("ThreadTebCollectionError", "thread_information_query_failed", details)
        },
        ThreadTebCollectionError::ThreadInformationTooSmall { return_length } => {
            let mut details = new_fields();
            put(&mut details, "return_length", number32(return_length));
            put(&mut details, "return_length_hex", hex32(return_length, 0));
            field_error_json("ThreadTebCollectionError", "thread_information_too_small", details)
        },
        ThreadTebCollectionError::ThreadIdentityMismatch { expected_process_id, actual_process_id, expected_thread_id, actual_thread_id } => {
            let mut details = new_fields();
            put(&mut details, "expected_process_id", number32(expected_process_id));
            put(&mut details, "actual_process_id", number(actual_process_id));
            put(&mut details, "expected_thread_id", number32(expected_thread_id));
            put(&mut details, "actual_thread_id", number(actual_thread_id));
            field_error_json("ThreadTebCollectionError", "thread_identity_mismatch", details)
        },
        ThreadTebCollectionError::TebAddressUnavailable => simple_error_json("ThreadTebCollectionError", "teb_address_unavailable"),
        ThreadTebCollectionError::TebReadFailed(cause) => caused_error_json(
            "ThreadTebCollectionError",
            "teb_read_failed",
            build_memory_read_error_json(&cause),
        ),
        ThreadTebCollectionError::TebReadIncomplete { bytes_requested, bytes_read } => {
            let mut details = new_fields();
            put(&mut details, "bytes_requested", number(bytes_requested));
            put(&mut details, "bytes_read", number(bytes_read));
            field_error_json("ThreadTebCollectionError", "teb_read_incomplete", details)
        },
    }
}

/// The tree of a `ProcessTebCollectionError`.
pub open spec fn process_teb_error_tree(error: ProcessTebCollectionError) -> JsonTree {
    match error {
        ProcessTebCollectionError::InvalidProcessHandle => simple_error_tree("ProcessTebCollectionError"@, "invalid_process_handle"@),
        ProcessTebCollectionError::ProcessIdUnavailable { error } => win32_error_tree("ProcessTebCollectionError"@, "process_id_unavailable"@, error),
        ProcessTebCollectionError::ThreadSnapshotFailed { error } => win32_error_tree("ProcessTebCollectionError"@, "thread_snapshot_failed"@, error),
        ProcessTebCollectionError::ThreadSnapshotHandleFailed(cause) => caused_error_tree(
            "ProcessTebCollectionError"@,
            "thread_snapshot_handle_failed"@,
            handle_guard_error_tree(cause),
        ),
        ProcessTebCollectionError::ThreadSnapshotIterationFailed { error } => win32_error_tree("ProcessTebCollectionError"@, "thread_snapshot_iteration_failed"@, error),
    }
}

/// Builds a stable structured process-wide TEB collector error.
pub fn build_process_teb_error_json(error: &ProcessTebCollectionError) -> (r: JsonValue)
    ensures
        tree(r) == process_teb_error_tree(*error),
{
    match *error {
        ProcessTebCollectionError::InvalidProcessHandle => simple_error_json("ProcessTebCollectionError", "invalid_process_handle"),
        ProcessTebCollectionError::ProcessIdUnavailable { error } => win32_error_json("ProcessTebCollectionError", "process_id_unavailable", error),
        ProcessTebCollectionError::ThreadSnapshotFailed { error } => win32_error_json("ProcessTebCollectionError", "thread_snapshot_failed", error),
        ProcessTebCollectionError::ThreadSnapshotHandleFailed(cause) => caused_error_json(
            "ProcessTebCollectionError",
            "thread_snapshot_handle_failed",
            build_handle_guard_error_json(&cause),
        ),
        ProcessTebCollectionError::ThreadSnapshotIterationFailed { error } => win32_error_json("ProcessTebCollectionError", "thread_snapshot_iteration_failed", error),
    }
}

/// The tree of a `ProcessImportCollectionError`.
pub open spec fn import_error_tree(error: ProcessImportCollectionError) -> JsonTree {
    match error {
        ProcessImportCollectionError::IncompleteMainModuleSnapshot { rva, size } => field_error_tree(
            "ProcessImportCollectionError"@,
            "incomplete_main_module_snapshot"@,
            no_fields()
                .push(("rva"@, number_tree(rva as int)))
                .push(("rva_hex"@, hex_tree(rva as nat, 0)))
                .push(("size"@, number_tree(size as int)))
                .push(("size_hex"@, hex_tree(size as nat, 0))),
        ),
    }
}

/// Builds a stable structured import collector error.
pub fn build_import_error_json(error: &ProcessImportCollectionError) -> (r: JsonValue)
    ensures
        tree(r) == import_error_tree(*error),
{
    match *error {
        ProcessImportCollectionError::IncompleteMainModuleSnapshot { rva, size } => {
            let mut details = new_fields();
            put(&mut details, "rva", number(rva));
            put(&mut details, "rva_hex", hex(rva));
            put(&mut details, "size", number(size));
            put(&mut details, "size_hex", hex(size));
            field_error_json("ProcessImportCollectionError", "incomplete_main_module_snapshot", details)
        },
    }
}

/// The tree of a `PdbInfoCollectionError`.
pub open spec fn pdb_error_tree(error: PdbInfoCollectionError) -> JsonTree {
    match error {
        PdbInfoCollectionError::ProcessValidationFailed(_) => simple_error_tree("PdbInfoCollectionError"@, "process_validation_failed"@),
        PdbInfoCollectionError::InvalidMainModulePe(_) => simple_error_tree("PdbInfoCollectionError"@, "invalid_main_module_pe"@),
        PdbInfoCollectionError::IncompleteMainModuleSnapshot { rva, size } => field_error_tree(
            "PdbInfoCollectionError"@,
            "incomplete_main_module_snapshot"@,
            no_fields()
                .push(("rva"@, number_tree(rva as int)))
                .push(("rva_hex"@, hex_tree(rva as nat, 0)))
                .push(("size"@, number_tree(size as int)))
                .push(("size_hex"@, hex_tree(size as nat, 0))),
        ),
    }
}

/// Builds a stable structured PDB collector error.
pub fn build_pdb_error_json(error: &PdbInfoCollectionError) -> (r: JsonValue)
    ensures
        tree(r) == pdb_error_tree(*error),
{
    match *error {
        PdbInfoCollectionError::ProcessValidationFailed(_) => simple_error_json("PdbInfoCollectionError", "process_validation_failed"),
        PdbInfoCollectionError::InvalidMainModulePe(_) => simple_error_json("PdbInfoCollectionError", "invalid_main_module_pe"),
        PdbInfoCollectionError::IncompleteMainModuleSnapshot { rva, size } => {
            let mut details = new_fields();
            put(&mut details, "rva", number(rva));
            put(&mut details, "rva_hex", hex(rva));
            put(&mut details, "size", number(size));
            put(&mut details, "size_hex", hex(size));
            field_error_json("PdbInfoCollectionError", "incomplete_main_module_snapshot", details)
        },
    }
}

} // verus!
