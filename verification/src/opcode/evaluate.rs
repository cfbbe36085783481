//! Whether a raw executable and its function metadata can be trusted as a baseline.

use vstd::prelude::*;

use super::relocation::{
    collect_base_relocation_ranges, ranges_of, relocation_blocks, relocation_directory,
    ProcessRelocationRange, RelocationError,
};
use crate::backing::{rva_to_file_range, ValidatedPeFile};
use crate::bytes::{get_u32, le32};
use crate::code_section::RuntimeFunctionRange;
use crate::pe::headers::parse_outcome;
use crate::pe::identity::{refused_facts, validate_backing_file_identity};
use crate::pe::locate::{data_directory, get_data_directory};
use crate::pe::types::{PeImage, PeValidationError, ValidatedPeImage};
use crate::windows::IMAGE_DIRECTORY_ENTRY_EXCEPTION;

verus! {

/// Byte size of one x64 runtime-function table entry.
pub const RUNTIME_FUNCTION_ENTRY_SIZE: usize = 12;

/// Reports whether a raw-file baseline was safe to compare with the mapped image.
#[derive(Clone, Copy, Debug, Eq, PartialEq, Structural)]
pub enum ProcessOpcodeBackingStatus {
    Matched,
    Unavailable,
    Invalid,
    IdentityMismatch,
}

/// Reports whether loader relocation metadata was required and validated.
#[derive(Clone, Copy, Debug, Eq, PartialEq, Structural)]
pub enum ProcessOpcodeRelocationStatus {
    NotEvaluated,
    NotRequired,
    Validated,
    Invalid,
}

/// Explains why no raw executable could be retained; `reason` is its display text.
#[derive(Clone, Debug, Eq, PartialEq)]
pub enum FileValidationError {
    FileAccess { reason: String },
    NotRegularFile { reason: String },
    Invalid { reason: String },
}

/// Explains why a raw executable is no baseline.
#[derive(Clone, Debug, Eq, PartialEq)]
pub enum BackingReason {
    HeadersDiffer,
    IdentityNotValidated { error: PeValidationError },
    FileRejected { reason: String },
}

/// How far a raw executable can be trusted as a baseline.
#[derive(Clone, Debug, Eq, PartialEq)]
pub struct BackingEvaluation {
    pub status: ProcessOpcodeBackingStatus,
    pub reason: Option<BackingReason>,
    pub relocation_status: ProcessOpcodeRelocationStatus,
    pub relocation_reason: Option<RelocationError>,
    pub relocation_ranges: Vec<ProcessRelocationRange>,
    pub pe: Option<PeImage>,
}

impl BackingEvaluation {
    /// No relocations were evaluated and no headers are trusted.
    pub open spec fn untrusted(&self) -> bool {
        &&& self.relocation_status == ProcessOpcodeRelocationStatus::NotEvaluated
        &&& self.relocation_reason is None
        &&& self.relocation_ranges@.len() == 0
        &&& self.pe is None
    }

    /// The relocation facts of an image loaded at `base_address` from `file` with headers `pe`.
    pub open spec fn relocated(
        &self,
        base_address: usize,
        file: ValidatedPeFile,
        pe: PeImage,
    ) -> bool {
        let targets = match relocation_directory(file, pe) {
            Err(e) => Err(e),
            Ok((start, end)) => relocation_blocks(
                file.bytes@.subrange(start as int, end as int),
                0,
                file.size_of_image as int,
                Seq::empty(),
            ),
        };
        if base_address as int == file.image_base as int {
            &&& self.relocation_status == ProcessOpcodeRelocationStatus::NotRequired
            &&& self.relocation_reason is None
            &&& self.relocation_ranges@.len() == 0
        } else {
            match targets {
                Ok(targets) => {
                    &&& self.relocation_status == ProcessOpcodeRelocationStatus::Validated
                    &&& self.relocation_reason is None
                    &&& ranges_of(self.relocation_ranges@, targets)
                },
                Err(e) => {
                    &&& self.relocation_status == ProcessOpcodeRelocationStatus::Invalid
                    &&& self.relocation_reason == Some(e)
                    &&& self.relocation_ranges@.len() == 0
                },
            }
        }
    }
}

/// Evaluates a raw executable whose headers were compared with the mapped image's.
pub fn evaluate_compared_file(
    image: &ValidatedPeImage,
    file: &ValidatedPeFile,
    comparison: Result<PeImage, PeValidationError>,
) -> (r: BackingEvaluation)
    requires
        file.wf(),
        comparison is Ok ==> comparison->Ok_0.wf(),
    ensures
        match comparison {
            Ok(pe) => {
                &&& r.status == ProcessOpcodeBackingStatus::Matched
                &&& r.reason is None
                &&& r.pe == Some(pe)
                &&& r.relocated(image.base_address, *file, pe)
            },
            Err(error) => {
                &&& r.untrusted()
                &&& if error is ValidatedImageIdentityMismatch {
                    &&& r.status == ProcessOpcodeBackingStatus::IdentityMismatch
                    &&& r.reason == Some(BackingReason::HeadersDiffer)
                } else {
                    &&& r.status == ProcessOpcodeBackingStatus::Invalid
                    &&& r.reason == Some(BackingReason::IdentityNotValidated { error })
                }
            },
        },
{
    match comparison {
        Ok(pe) => {
            if image.base_address as u64 == file.image_base {
                return BackingEvaluation {
                    status: ProcessOpcodeBackingStatus::Matched,
                    reason: None,
                    relocation_status: ProcessOpcodeRelocationStatus::NotRequired,
                    relocation_reason: None,
                    relocation_ranges: Vec::new(),
                    pe: Some(pe),
                };
            }
            match collect_base_relocation_ranges(file, &pe) {
                Ok(relocation_ranges) => BackingEvaluation {
                    status: ProcessOpcodeBackingStatus::Matched,
                    reason: None,
                    relocation_status: ProcessOpcodeRelocationStatus::Validated,
                    relocation_reason: None,
                    relocation_ranges,
                    pe: Some(pe),
                },
                Err(error) => BackingEvaluation {
                    status: ProcessOpcodeBackingStatus::Matched,
                    reason: None,
                    relocation_status: ProcessOpcodeRelocationStatus::Invalid,
                    relocation_reason: Some(error),
                    relocation_ranges: Vec::new(),
                    pe: Some(pe),
                },
            }
        },
        Err(error) => {
            let mismatch: bool = matches!(
                error,
                PeValidationError::ValidatedImageIdentityMismatch { .. }
            );
            BackingEvaluation {
                status: if mismatch {
                    ProcessOpcodeBackingStatus::IdentityMismatch
                } else {
                    ProcessOpcodeBackingStatus::Invalid
                },
                reason: if mismatch {
                    Some(BackingReason::HeadersDiffer)
                } else {
                    Some(BackingReason::IdentityNotValidated { error })
                },
                relocation_status: ProcessOpcodeRelocationStatus::NotEvaluated,
                relocation_reason: None,
                relocation_ranges: Vec::new(),
                pe: None,
            }
        },
    }
}

/// The evaluation of an executable that could not be retained.
pub open spec fn rejected_file(error: FileValidationError, r: BackingEvaluation) -> bool {
    &&& r.untrusted()
    &&& r.reason is Some
    &&& r.reason->0 is FileRejected
    &&& match error {
        FileValidationError::FileAccess { reason } => {
            &&& r.status == ProcessOpcodeBackingStatus::Unavailable
            &&& r.reason->0->reason@ == reason@
        },
        FileValidationError::NotRegularFile { reason } => {
            &&& r.status == ProcessOpcodeBackingStatus::Unavailable
            &&& r.reason->0->reason@ == reason@
        },
        FileValidationError::Invalid { reason } => {
            &&& r.status == ProcessOpcodeBackingStatus::Invalid
            &&& r.reason->0->reason@ == reason@
        },
    }
}

/// What comparing the headers of `file` with `image` may give.
pub open spec fn comparison_outcome(
    image: ValidatedPeImage,
    file: ValidatedPeFile,
    comparison: Result<PeImage, PeValidationError>,
) -> bool {
    match comparison {
        Ok(pe) => {
            &&& parse_outcome(file.bytes@, Ok(pe))
            &&& image.describes(pe.nt_headers@, pe.sections@)
        },
        Err(e) => {
            ||| parse_outcome(file.bytes@, Err(e))
            ||| exists|pe: PeImage| #[trigger]
                parse_outcome(file.bytes@, Ok(pe)) && refused_facts(image, pe, e)
        },
    }
}

/// The evaluation of a retained executable after some comparison of its headers.
pub open spec fn evaluated_file(
    image: ValidatedPeImage,
    file: ValidatedPeFile,
    r: BackingEvaluation,
) -> bool {
    ||| {
        &&& r.status == ProcessOpcodeBackingStatus::Matched
        &&& r.reason is None
        &&& r.pe is Some
        &&& comparison_outcome(image, file, Ok(r.pe->0))
        &&& r.relocated(image.base_address, file, r.pe->0)
    }
    ||| {
        &&& r.untrusted()
        &&& r.status == ProcessOpcodeBackingStatus::IdentityMismatch
        &&& r.reason == Some(BackingReason::HeadersDiffer)
        &&& exists|error: PeValidationError| #[trigger]
            comparison_outcome(image, file, Err::<PeImage, _>(error))
                && error is ValidatedImageIdentityMismatch
    }
    ||| {
        &&& r.untrusted()
        &&& r.status == ProcessOpcodeBackingStatus::Invalid
        &&& exists|error: PeValidationError| #[trigger]
            comparison_outcome(image, file, Err::<PeImage, _>(error))
                && !(error is ValidatedImageIdentityMismatch) && r.reason == Some(
                BackingReason::IdentityNotValidated { error },
            )
    }
}

/// Evaluates the raw executable, or the failure to retain one, as a baseline.
pub fn evaluate_backing_file(
    image: &ValidatedPeImage,
    backing_file: Result<&ValidatedPeFile, &FileValidationError>,
) -> (r: BackingEvaluation)
    requires
        backing_file is Ok ==> backing_file->Ok_0.wf(),
    ensures
        match backing_file {
            Ok(file) => evaluated_file(*image, *file, r),
            Err(error) => rejected_file(*error, r),
        },
        r.pe is Some ==> r.pe->0.wf(),
{
    match backing_file {
        Ok(file) => {
            let comparison = validate_backing_file_identity(image, &file.bytes);
            assert(comparison_outcome(*image, *file, comparison));
            evaluate_compared_file(image, file, comparison)
        },
        Err(error) => {
            let (status, reason) = match error {
                FileValidationError::FileAccess { reason } => (
                    ProcessOpcodeBackingStatus::Unavailable,
                    reason.clone(),
                ),
                FileValidationError::NotRegularFile { reason } => (
                    ProcessOpcodeBackingStatus::Unavailable,
                    reason.clone(),
                ),
                FileValidationError::Invalid { reason } => (
                    ProcessOpcodeBackingStatus::Invalid,
                    reason.clone(),
                ),
            };
            BackingEvaluation {
                status,
                reason: Some(BackingReason::FileRejected { reason }),
                relocation_status: ProcessOpcodeRelocationStatus::NotEvaluated,
                relocation_reason: None,
                relocation_ranges: Vec::new(),
                pe: None,
            }
        },
    }
}

/// Explains why mapped runtime functions cannot be trusted.
#[derive(Clone, Copy, Debug, Eq, PartialEq, Structural)]
pub enum RuntimeFunctionMismatch {
    NoDirectory,
    InvalidLayout,
    CountsDiffer,
    NotFileBacked,
    RangeOverflow,
    OutsideFileRange,
    BoundsDiffer,
}

/// Whether raw entry `index` of a table at `offset` has the bounds of `functions[index]`.
pub open spec fn same_bounds(
    bytes: Seq<u8>,
    offset: int,
    functions: Seq<RuntimeFunctionRange>,
    index: int,
) -> bool {
    let at = offset + index * RUNTIME_FUNCTION_ENTRY_SIZE;
    le32(bytes, at) == functions[index].begin_rva && le32(bytes, at + 4)
        == functions[index].end_rva
}

/// Whether every raw entry of a table at `offset` has the bounds of its mapped function.
pub open spec fn all_bounds_same(
    bytes: Seq<u8>,
    offset: int,
    functions: Seq<RuntimeFunctionRange>,
) -> bool {
    forall|i: int|
        0 <= i < functions.len() ==> #[trigger] same_bounds(bytes, offset, functions, i)
}

/// Whether mapped runtime functions are exactly those of the raw executable: present and equal,
/// absent from both, or why not.
pub open spec fn runtime_function_check(
    file: ValidatedPeFile,
    pe: PeImage,
    functions: Seq<RuntimeFunctionRange>,
) -> Result<bool, RuntimeFunctionMismatch> {
    match data_directory(pe.nt_headers@, IMAGE_DIRECTORY_ENTRY_EXCEPTION as int) {
        None => if functions.len() == 0 {
            Ok(false)
        } else {
            Err(RuntimeFunctionMismatch::NoDirectory)
        },
        Some(directory) => {
            let rva = directory.virtual_address;
            let size = directory.size;
            if rva == 0 && size == 0 && functions.len() == 0 {
                Ok(false)
            } else if rva == 0 || size == 0 || rva % 4 != 0 || size as int
                % RUNTIME_FUNCTION_ENTRY_SIZE as int != 0 {
                Err(RuntimeFunctionMismatch::InvalidLayout)
            } else if size as int / RUNTIME_FUNCTION_ENTRY_SIZE as int != functions.len() {
                Err(RuntimeFunctionMismatch::CountsDiffer)
            } else {
                match file.file_range(rva as int) {
                    None => Err(RuntimeFunctionMismatch::NotFileBacked),
                    Some((offset, raw_end)) => if offset + size > usize::MAX {
                        Err(RuntimeFunctionMismatch::RangeOverflow)
                    } else if offset + size > raw_end {
                        Err(RuntimeFunctionMismatch::OutsideFileRange)
                    } else if all_bounds_same(file.bytes@, offset as int, functions) {
                        Ok(true)
                    } else {
                        Err(RuntimeFunctionMismatch::BoundsDiffer)
                    },
                }
            }
        },
    }
}

/// Confirms that mapped runtime-function bounds exactly match the retained raw file.
pub fn validate_runtime_functions_against_backing(
    file: &ValidatedPeFile,
    pe: &PeImage,
    runtime_functions: &[RuntimeFunctionRange],
) -> (r: Result<bool, RuntimeFunctionMismatch>)
    requires
        file.wf(),
        pe.wf(),
    ensures
        r == runtime_function_check(*file, *pe, runtime_functions@),
{
    let directory = match get_data_directory(pe, IMAGE_DIRECTORY_ENTRY_EXCEPTION) {
        Some(value) => value,
        None => {
            if runtime_functions.len() == 0 {
                return Ok(false);
            }
            return Err(RuntimeFunctionMismatch::NoDirectory);
        },
    };
    let directory_rva: usize = directory.virtual_address as usize;
    let directory_size: usize = directory.size as usize;
    if directory_rva == 0 && directory_size == 0 && runtime_functions.len() == 0 {
        return Ok(false);
    }
    if directory_rva == 0 || directory_size == 0 || directory_rva % 4 != 0 || directory_size
        % RUNTIME_FUNCTION_ENTRY_SIZE != 0 {
        return Err(RuntimeFunctionMismatch::InvalidLayout);
    }
    if directory_size / RUNTIME_FUNCTION_ENTRY_SIZE != runtime_functions.len() {
        return Err(RuntimeFunctionMismatch::CountsDiffer);
    }
    let (file_offset, raw_end) = match rva_to_file_range(file, directory_rva) {
        Some(value) => value,
        None => return Err(RuntimeFunctionMismatch::NotFileBacked),
    };
    let directory_end: usize = match file_offset.checked_add(directory_size) {
        Some(value) => value,
        None => return Err(RuntimeFunctionMismatch::RangeOverflow),
    };
    if directory_end > raw_end || directory_end > file.bytes.len() {
        return Err(RuntimeFunctionMismatch::OutsideFileRange);
    }
    let mut index: usize = 0;
    while index < runtime_functions.len()
        invariant
            index <= runtime_functions@.len(),
            file_offset + runtime_functions@.len() * RUNTIME_FUNCTION_ENTRY_SIZE
                <= file.bytes@.len(),
            file.bytes@.len() <= usize::MAX,
            runtime_function_check(*file, *pe, runtime_functions@) == (if all_bounds_same(
                file.bytes@,
                file_offset as int,
                runtime_functions@,
            ) {
                Ok::<bool, RuntimeFunctionMismatch>(true)
            } else {
                Err(RuntimeFunctionMismatch::BoundsDiffer)
            }),
            forall|i: int|
                0 <= i < index ==> #[trigger] same_bounds(
                    file.bytes@,
                    file_offset as int,
                    runtime_functions@,
                    i,
                ),
        decreases runtime_functions.len() - index,
    {
        let at: usize = file_offset + index * RUNTIME_FUNCTION_ENTRY_SIZE;
        let begin_rva: usize = get_u32(&file.bytes, at) as usize;
        let end_rva: usize = get_u32(&file.bytes, at + 4) as usize;
        if begin_rva != runtime_functions[index].begin_rva || end_rva
            != runtime_functions[index].end_rva {
            assert(!same_bounds(
                file.bytes@,
                file_offset as int,
                runtime_functions@,
                index as int,
            ));
            return Err(RuntimeFunctionMismatch::BoundsDiffer);
        }
        assert(same_bounds(file.bytes@, file_offset as int, runtime_functions@, index as int));
        index += 1;
    }
    Ok(true)
}

/// The diagnostic text of a reason against a raw executable. `error_text` describes the error of an
/// identity that could not be validated, and is not used otherwise.
pub open spec fn backing_message(reason: BackingReason, error_text: Seq<char>) -> Seq<char> {
    match reason {
        BackingReason::HeadersDiffer => "raw executable headers do not match the validated mapped image"@,
        BackingReason::IdentityNotValidated { error } =>
            "raw executable identity validation failed: "@ + error_text,
        BackingReason::FileRejected { reason } => reason@,
    }
}

impl BackingReason {
    /// The diagnostic text of this reason, given the text of the error that it may hold.
    pub fn message(&self, error_text: &str) -> (r: String)
        ensures
            r@ == backing_message(*self, error_text@),
    {
        match self {
            BackingReason::HeadersDiffer => {
                "raw executable headers do not match the validated mapped image".to_owned()
            },
            BackingReason::IdentityNotValidated { .. } => {
                let mut message = "raw executable identity validation failed: ".to_owned();
                message.append(error_text);
                message
            },
            BackingReason::FileRejected { reason } => reason.clone(),
        }
    }
}

/// The diagnostic text of a runtime-function mismatch.
pub open spec fn mismatch_message(mismatch: RuntimeFunctionMismatch) -> Seq<char> {
    match mismatch {
        RuntimeFunctionMismatch::NoDirectory => "raw executable has no exception directory for mapped runtime-function seeds"@,
        RuntimeFunctionMismatch::InvalidLayout => "raw executable exception-directory layout is invalid"@,
        RuntimeFunctionMismatch::CountsDiffer => "raw and mapped runtime-function entry counts differ"@,
        RuntimeFunctionMismatch::NotFileBacked => "raw exception directory is not file backed"@,
        RuntimeFunctionMismatch::RangeOverflow => "raw exception-directory range overflowed"@,
        RuntimeFunctionMismatch::OutsideFileRange => "raw exception directory exceeds its file-backed range"@,
        RuntimeFunctionMismatch::BoundsDiffer => "raw and mapped runtime-function bounds differ"@,
    }
}

impl RuntimeFunctionMismatch {
    /// The diagnostic text of this mismatch.
    pub fn message(&self) -> (r: &'static str)
        ensures
            r@ == mismatch_message(*self),
    {
        match *self {
            RuntimeFunctionMismatch::NoDirectory => "raw executable has no exception directory for mapped runtime-function seeds",
            RuntimeFunctionMismatch::InvalidLayout => "raw executable exception-directory layout is invalid",
            RuntimeFunctionMismatch::CountsDiffer => "raw and mapped runtime-function entry counts differ",
            RuntimeFunctionMismatch::NotFileBacked => "raw exception directory is not file backed",
            RuntimeFunctionMismatch::RangeOverflow => "raw exception-directory range overflowed",
            RuntimeFunctionMismatch::OutsideFileRange => "raw exception directory exceeds its file-backed range",
            RuntimeFunctionMismatch::BoundsDiffer => "raw and mapped runtime-function bounds differ",
        }
    }
}

} // verus!
