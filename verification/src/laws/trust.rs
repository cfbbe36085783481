//! When a raw executable counts as the one that was loaded.

use vstd::prelude::*;

use crate::backing::ValidatedPeFile;
use crate::opcode::evaluate::{
    comparison_outcome, evaluated_file, BackingEvaluation, ProcessOpcodeBackingStatus,
    ProcessOpcodeRelocationStatus,
};
use crate::opcode::relocation::{relocation_directory, relocation_blocks};
use crate::pe::headers::{law_parsed_image_is_determined, parse_outcome};
use crate::pe::identity::{
    facts_mismatch, identity_mismatch, identity_of, identity_sections, refused_facts,
};
use crate::pe::types::{NtHeadersView, PeImage, PeValidationError, SectionHeader, ValidatedPeImage};

verus! {

/// Two records are of one image exactly when size, entry point, section count and identity agree.
pub proof fn law_same_image(expected: ValidatedPeImage, actual: ValidatedPeImage)
    ensures
        identity_mismatch(expected, actual) is None <==> actual.image_size == expected.image_size
            && actual.entry_point_rva == expected.entry_point_rva && actual.section_count
            == expected.section_count && actual.identity@ == expected.identity@,
{
}

/// Headers are those of an image exactly when size, entry point, section count and identity agree.
pub proof fn law_same_headers(
    image: ValidatedPeImage,
    h: NtHeadersView,
    sections: Seq<SectionHeader>,
)
    ensures
        facts_mismatch(image, h, sections) is None <==> image.image_size
            == h.optional_header.size_of_image && image.entry_point_rva
            == h.optional_header.address_of_entry_point && image.section_count
            == h.file_header.number_of_sections && image.identity@ == identity_of(h, sections),
{
}

/// A matched executable parses, and its headers are those of the image.
pub proof fn law_matched_file_is_the_image(
    image: ValidatedPeImage,
    file: ValidatedPeFile,
    r: BackingEvaluation,
)
    requires
        evaluated_file(image, file, r),
        r.status == ProcessOpcodeBackingStatus::Matched,
    ensures
        r.reason is None,
        r.pe is Some,
        parse_outcome(file.bytes@, Ok(r.pe->0)),
        image.image_size == r.pe->0.nt_headers.optional_header.size_of_image,
        image.entry_point_rva == r.pe->0.nt_headers.optional_header.address_of_entry_point,
        image.section_count == r.pe->0.nt_headers.file_header.number_of_sections,
        image.identity@ == identity_of(r.pe->0.nt_headers@, r.pe->0.sections@),
{
}

/// An executable that is not matched gives nothing to compare with: no headers, no relocations.
pub proof fn law_other_files_give_nothing(
    image: ValidatedPeImage,
    file: ValidatedPeFile,
    r: BackingEvaluation,
)
    requires
        evaluated_file(image, file, r),
        r.status != ProcessOpcodeBackingStatus::Matched,
    ensures
        r.pe is None,
        r.relocation_ranges@.len() == 0,
        r.relocation_status == ProcessOpcodeRelocationStatus::NotEvaluated,
        r.reason is Some,
{
}

/// A matched executable needs no relocations exactly at its preferred base; elsewhere they are
/// settled exactly where its directory is stored and in order.
pub proof fn law_relocation_status(
    image: ValidatedPeImage,
    file: ValidatedPeFile,
    r: BackingEvaluation,
)
    requires
        evaluated_file(image, file, r),
        r.status == ProcessOpcodeBackingStatus::Matched,
    ensures
        r.relocation_status == ProcessOpcodeRelocationStatus::NotRequired
            <==> image.base_address as int == file.image_base as int,
        r.relocation_status == ProcessOpcodeRelocationStatus::NotRequired
            ==> r.relocation_ranges@.len() == 0,
        r.relocation_status == ProcessOpcodeRelocationStatus::Validated <==> {
            &&& image.base_address as int != file.image_base as int
            &&& relocation_directory(file, r.pe->0) is Ok
            &&& relocation_blocks(
                file.bytes@.subrange(
                    (relocation_directory(file, r.pe->0)->Ok_0).0 as int,
                    (relocation_directory(file, r.pe->0)->Ok_0).1 as int,
                ),
                0,
                file.size_of_image as int,
                Seq::empty(),
            ) is Ok
        },
        r.relocation_status != ProcessOpcodeRelocationStatus::NotEvaluated,
{
}

/// A relocation directory is read exactly where it is declared, not empty, aligned, and stored
/// whole in one run.
pub proof fn law_relocation_directory(file: ValidatedPeFile, pe: PeImage)
    requires
        file.wf(),
        file.bytes@.len() <= usize::MAX,
    ensures
        ({
            let directory = pe.nt_headers@.data_directories[5];
            let stored = file.file_range(directory.virtual_address as int);
            let r = relocation_directory(file, pe);
            &&& r is Ok <==> {
                &&& pe.nt_headers.optional_header.number_of_rva_and_sizes >= 6
                &&& pe.nt_headers.file_header.size_of_optional_header >= 160
                &&& directory.virtual_address != 0
                &&& directory.size != 0
                &&& directory.virtual_address % 4 == 0
                &&& stored is Some
                &&& (stored->0).0 + directory.size <= (stored->0).1
            }
            &&& r is Ok ==> (r->Ok_0).0 == (stored->0).0 && (r->Ok_0).1 == (stored->0).0
                + directory.size
        }),
{
}

/// Sections with the same fields have the same identity bytes.
proof fn lemma_same_sections(
    left: Seq<SectionHeader>,
    right: Seq<SectionHeader>,
    count: int,
)
    requires
        0 <= count <= left.len(),
        left.len() == right.len(),
        forall|i: int|
            0 <= i < left.len() ==> {
                let (a, b) = (#[trigger] left[i], right[i]);
                &&& a.name@ == b.name@
                &&& a.virtual_size == b.virtual_size
                &&& a.virtual_address == b.virtual_address
                &&& a.size_of_raw_data == b.size_of_raw_data
                &&& a.pointer_to_raw_data == b.pointer_to_raw_data
                &&& a.characteristics == b.characteristics
            },
    ensures
        identity_sections(left, count) == identity_sections(right, count),
    decreases count,
{
    if count > 0 {
        lemma_same_sections(left, right, count - 1);
        assert(left[count - 1].name@ == right[count - 1].name@);
    }
}

/// An executable whose headers are those of the image is never told to be another one, and one that
/// is told so has other headers.
pub proof fn law_mismatches_are_real(
    image: ValidatedPeImage,
    file: ValidatedPeFile,
    r: BackingEvaluation,
    pe: PeImage,
)
    requires
        evaluated_file(image, file, r),
        parse_outcome(file.bytes@, Ok(pe)),
    ensures
        r.status == ProcessOpcodeBackingStatus::IdentityMismatch ==> !(image.image_size
            == pe.nt_headers.optional_header.size_of_image && image.entry_point_rva
            == pe.nt_headers.optional_header.address_of_entry_point && image.section_count
            == pe.nt_headers.file_header.number_of_sections && image.identity@ == identity_of(
            pe.nt_headers@,
            pe.sections@,
        )),
        r.status == ProcessOpcodeBackingStatus::Matched ==> image.identity@ == identity_of(
            pe.nt_headers@,
            pe.sections@,
        ),
{
    if r.status == ProcessOpcodeBackingStatus::Matched {
        law_parsed_image_is_determined(file.bytes@, pe, r.pe->0);
        lemma_same_sections(pe.sections@, r.pe->0.sections@, pe.sections@.len() as int);
    }
    if r.status == ProcessOpcodeBackingStatus::IdentityMismatch {
        let error = choose|error: PeValidationError| #[trigger]
            comparison_outcome(image, file, Err::<PeImage, _>(error))
                && error is ValidatedImageIdentityMismatch;
        let other = choose|other: PeImage| #[trigger]
            parse_outcome(file.bytes@, Ok(other)) && refused_facts(image, other, error);
        law_parsed_image_is_determined(file.bytes@, pe, other);
        lemma_same_sections(pe.sections@, other.sections@, pe.sections@.len() as int);
    }
}

} // verus!
