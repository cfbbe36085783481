//! Parsing and strict validation of an image, stated over its bytes and header fields.

use vstd::arithmetic::power2::{lemma_pow2_unfold, pow2};
use vstd::prelude::*;

use crate::arith::{align_up, lemma_align_up, lemma_align_up_least, power_of_two};
use crate::bytes::{le16, le32, le64};
use crate::laws::locate::section_end;
use crate::pe::headers::{
    directory_count, directory_error, first_directory_error, nt_headers_at, nt_headers_error,
    optional_bytes, parse_error, parse_outcome,
};
use crate::pe::layout::{
    directory_layout_error, expected_rva, first_code_rva, first_directory_layout_error,
    first_section_error, parsed_pe_error, previous_raw_end, section_error, section_layout_error,
};
use crate::pe::locate::{image_data_range, section_contains};
use crate::pe::types::{NtHeadersView, PeImage, SectionHeader};

verus! {

/// Whether bytes hold the headers of an x64 image: a DOS header that leads to NT headers of the
/// right kind, and a section table behind them, all inside the mapped headers and the bytes.
pub open spec fn holds_headers(bytes: Seq<u8>) -> bool {
    let at = le32(bytes, 60) as int;
    let optional_size = le16(bytes, at + 20);
    let sections = le16(bytes, at + 6);
    let directories = le32(bytes, at + 132);
    let image_size = le32(bytes, at + 80);
    let headers_size = le32(bytes, at + 84);
    &&& bytes.len() >= 64
    &&& le16(bytes, 0) == 0x5A4D
    &&& 64 <= at < 0x8000_0000
    &&& at % 8 == 0
    &&& at + 24 + optional_size <= bytes.len()
    &&& le32(bytes, at) == 0x4550
    &&& le16(bytes, at + 4) == 0x8664
    &&& optional_size >= 112
    &&& le16(bytes, at + 24) == 0x20B
    &&& directories <= 16
    &&& 112 + 8 * directories <= optional_size
    &&& 1 <= sections <= 96
    &&& 1 <= headers_size <= image_size
    &&& headers_size <= bytes.len()
    &&& at + 24 + optional_size + 40 * sections <= headers_size
}

/// Declared optional-header bytes read as the bytes themselves.
pub proof fn lemma_optional_words(bytes: Seq<u8>, at: int, declared: int, k: int)
    requires
        0 <= k,
        k + 4 <= declared,
        k + 4 <= 240,
    ensures
        le32(optional_bytes(bytes, at, declared), k) == le32(bytes, at + k),
        le16(optional_bytes(bytes, at, declared), k) == le16(bytes, at + k),
{
    let opt = optional_bytes(bytes, at, declared);
    assert(opt[k] == bytes[at + k] && opt[k + 1] == bytes[at + k + 1] && opt[k + 2] == bytes[at + k
        + 2] && opt[k + 3] == bytes[at + k + 3]);
}

/// Bytes parse exactly when they hold the headers of an x64 image.
pub proof fn law_parsable_bytes(bytes: Seq<u8>)
    requires
        bytes.len() <= usize::MAX,
    ensures
        parse_error(bytes) is None <==> holds_headers(bytes),
{
    let at = le32(bytes, 60) as int;
    let size = le16(bytes, at + 20) as int;
    if size >= 112 {
        lemma_optional_words(bytes, at + 24, size, 0);
        lemma_optional_words(bytes, at + 24, size, 56);
        lemma_optional_words(bytes, at + 24, size, 60);
        lemma_optional_words(bytes, at + 24, size, 108);
    }
}

/// The words of a parsed image stand at their places in the bytes.
pub proof fn law_parsed_words(bytes: Seq<u8>, pe: PeImage, i: int, d: int, x: int)
    requires
        bytes.len() <= usize::MAX,
        parse_outcome(bytes, Ok(pe)),
    ensures
        ({
            let at = le32(bytes, 60) as int;
            let opt = at + 24;
            let h = pe.nt_headers@;
            let o = h.optional_header;
            let f = h.file_header;
            &&& pe.nt_headers_offset == at
            &&& f.machine == le16(bytes, at + 4)
            &&& f.number_of_sections == le16(bytes, at + 6)
            &&& f.time_date_stamp == le32(bytes, at + 8)
            &&& f.size_of_optional_header == le16(bytes, at + 20)
            &&& f.characteristics == le16(bytes, at + 22)
            &&& o.magic == le16(bytes, opt)
            &&& o.address_of_entry_point == le32(bytes, opt + 16)
            &&& o.base_of_code == le32(bytes, opt + 20)
            &&& o.image_base == le64(bytes, opt + 24)
            &&& o.section_alignment == le32(bytes, opt + 32)
            &&& o.file_alignment == le32(bytes, opt + 36)
            &&& o.win32_version_value == le32(bytes, opt + 52)
            &&& o.size_of_image == le32(bytes, opt + 56)
            &&& o.size_of_headers == le32(bytes, opt + 60)
            &&& o.check_sum == le32(bytes, opt + 64)
            &&& o.subsystem == le16(bytes, opt + 68)
            &&& o.dll_characteristics == le16(bytes, opt + 70)
            &&& o.loader_flags == le32(bytes, opt + 104)
            &&& o.number_of_rva_and_sizes == le32(bytes, opt + 108)
        }),
        pe.nt_headers@.data_directories.len() == 16,
        0 <= d < pe.nt_headers@.optional_header.number_of_rva_and_sizes ==> {
            let at = le32(bytes, 60) as int;
            &&& pe.nt_headers@.data_directories[d].virtual_address == le32(
                bytes,
                at + 136 + 8 * d,
            )
            &&& pe.nt_headers@.data_directories[d].size == le32(bytes, at + 140 + 8 * d)
        },
        pe.sections@.len() == le16(bytes, le32(bytes, 60) + 6),
        0 <= i < pe.sections@.len() ==> {
            let at = le32(bytes, 60) as int;
            let entry = at + 24 + le16(bytes, at + 20) + 40 * i;
            let section = pe.sections@[i];
            &&& 0 <= x < 8 ==> section.name@[x] == bytes[entry + x]
            &&& section.virtual_size == le32(bytes, entry + 8)
            &&& section.virtual_address == le32(bytes, entry + 12)
            &&& section.size_of_raw_data == le32(bytes, entry + 16)
            &&& section.pointer_to_raw_data == le32(bytes, entry + 20)
            &&& section.characteristics == le32(bytes, entry + 36)
        },
{
    law_parsable_bytes(bytes);
    let at = le32(bytes, 60) as int;
    let opt = at + 24;
    let size = le16(bytes, at + 20) as int;
    assert(pe.nt_headers@ == nt_headers_at(bytes, at));
    lemma_optional_words(bytes, opt, size, 0);
    lemma_optional_words(bytes, opt, size, 16);
    lemma_optional_words(bytes, opt, size, 20);
    lemma_optional_words(bytes, opt, size, 24);
    lemma_optional_words(bytes, opt, size, 28);
    lemma_optional_words(bytes, opt, size, 32);
    lemma_optional_words(bytes, opt, size, 36);
    lemma_optional_words(bytes, opt, size, 52);
    lemma_optional_words(bytes, opt, size, 56);
    lemma_optional_words(bytes, opt, size, 60);
    lemma_optional_words(bytes, opt, size, 64);
    lemma_optional_words(bytes, opt, size, 68);
    lemma_optional_words(bytes, opt, size, 70);
    lemma_optional_words(bytes, opt, size, 104);
    lemma_optional_words(bytes, opt, size, 108);
    let directories = pe.nt_headers@.optional_header.number_of_rva_and_sizes;
    if 0 <= d < directories {
        lemma_optional_words(bytes, opt, size, 112 + 8 * d);
        lemma_optional_words(bytes, opt, size, 116 + 8 * d);
        assert(8 * d == d * 8);
    }
    if 0 <= i < pe.sections@.len() {
        assert(40 * i == i * 40);
        let entry = opt + size + 40 * i;
        assert(pe.sections@[i].read_from(bytes, entry));
        assert(0 <= x < 8 ==> bytes.subrange(entry, entry + 8)[x] == bytes[entry + x]);
    }
}

/// A power of two is what it is called.
pub proof fn law_power_of_two(n: nat)
    ensures
        power_of_two(n) <==> exists|e: nat| #[trigger] pow2(e) == n,
    decreases n,
{
    vstd::arithmetic::power2::lemma2_to64();
    if n == 1 {
        assert(pow2(0) == n);
    } else if n > 1 && n % 2 == 0 {
        law_power_of_two(n / 2);
        if power_of_two(n) {
            let e = choose|e: nat| #[trigger] pow2(e) == n / 2;
            lemma_pow2_unfold(e + 1);
            assert(pow2(e + 1) == n);
        }
        if exists|e: nat| #[trigger] pow2(e) == n {
            let e = choose|e: nat| #[trigger] pow2(e) == n;
            assert(e > 0);
            lemma_pow2_unfold(e);
            assert(pow2((e - 1) as nat) == n / 2);
        }
    } else {
        assert forall|e: nat| #[trigger] pow2(e) != n by {
            if e > 0 {
                lemma_pow2_unfold(e);
            }
            vstd::arithmetic::power2::lemma_pow2_pos(e);
        }
    }
}

/// Whether a declared data directory may stand in the headers: the reserved ones are empty, the
/// global-pointer one has an address only, the certificate one is aligned, and any other is empty
/// or lies in the image.
pub open spec fn directory_may_stand(h: NtHeadersView, index: int) -> bool {
    let address = h.data_directories[index].virtual_address;
    let size = h.data_directories[index].size;
    let image_size = h.optional_header.size_of_image;
    if index == 7 || index == 15 {
        address == 0 && size == 0
    } else if index == 8 {
        size == 0 && (address == 0 || address < image_size)
    } else if index == 4 {
        ||| address == 0 && size == 0
        ||| address != 0 && size != 0 && address % 8 == 0 && address + size <= 0xFFFF_FFFF
    } else {
        ||| address == 0 && size == 0
        ||| address != 0 && size != 0 && address + size <= image_size
    }
}

/// The directories from `index` on are accepted exactly when each may stand.
proof fn lemma_directories_may_stand(h: NtHeadersView, index: int)
    requires
        h.wf(),
        0 <= index,
    ensures
        first_directory_error(h, index) is None <==> forall|d: int|
            index <= d < h.optional_header.number_of_rva_and_sizes && d < 16
                ==> #[trigger] directory_may_stand(h, d),
    decreases directory_count(h) - index,
{
    if index < directory_count(h) {
        lemma_directories_may_stand(h, index + 1);
        assert(directory_error(h, index) is None <==> directory_may_stand(h, index));
    }
}

/// Headers are accepted exactly when their fields are in order.
pub proof fn law_accepted_headers(h: NtHeadersView, nt_offset: int)
    requires
        h.wf(),
        0 <= nt_offset,
    ensures
        nt_headers_error(h, nt_offset) is None <==> {
            let o = h.optional_header;
            let f = h.file_header;
            &&& h.signature == 0x4550
            &&& f.machine == 0x8664
            &&& f.size_of_optional_header >= 112
            &&& o.magic == 0x20B
            &&& o.number_of_rva_and_sizes <= 16
            &&& 112 + 8 * o.number_of_rva_and_sizes <= f.size_of_optional_header
            &&& 1 <= f.number_of_sections <= 96
            &&& 1 <= o.size_of_headers <= o.size_of_image
            &&& o.size_of_image <= 0x8000_0000
            &&& f.characteristics & 2 != 0
            &&& o.win32_version_value == 0
            &&& o.loader_flags == 0
            &&& power_of_two(o.section_alignment as nat)
            &&& power_of_two(o.file_alignment as nat)
            &&& o.file_alignment <= o.section_alignment
            &&& o.section_alignment < 4096 ==> o.section_alignment == o.file_alignment
            &&& o.section_alignment >= 4096 ==> 512 <= o.file_alignment <= 65536
            &&& o.size_of_image as int % o.section_alignment as int == 0
            &&& o.size_of_headers as int % o.file_alignment as int == 0
            &&& o.image_base % 0x1_0000 == 0
            &&& nt_offset + 24 + f.size_of_optional_header + 40 * f.number_of_sections
                <= o.size_of_headers
            &&& o.address_of_entry_point == 0 || o.address_of_entry_point < o.size_of_image
            &&& forall|d: int|
                0 <= d < o.number_of_rva_and_sizes && d < 16 ==> #[trigger] directory_may_stand(
                    h,
                    d,
                )
        },
{
    lemma_directories_may_stand(h, 0);
}

/// Where section `i` has to begin: at the first multiple of the alignment behind what stands before
/// it.
pub open spec fn begins_behind(start: int, before: int, alignment: int) -> bool {
    &&& start % alignment == 0
    &&& before <= start < before + alignment
}

/// There is one such place.
pub proof fn lemma_begins_behind(start: int, before: int, alignment: int)
    requires
        0 < alignment,
        0 <= before,
    ensures
        begins_behind(start, before, alignment) <==> start == align_up(before, alignment),
{
    lemma_align_up(before, alignment);
    let least = align_up(before, alignment);
    if begins_behind(start, before, alignment) {
        lemma_align_up_least(before, alignment, start);
        let p = start / alignment;
        let q = least / alignment;
        assert(start == alignment * p) by (nonlinear_arith)
            requires
                p == start / alignment,
                start % alignment == 0,
                alignment > 0,
        ;
        assert(least == alignment * q) by (nonlinear_arith)
            requires
                q == least / alignment,
                least % alignment == 0,
                alignment > 0,
        ;
        assert(p == q) by (nonlinear_arith)
            requires
                alignment * q <= alignment * p,
                alignment * p < alignment * q + alignment,
                alignment > 0,
        ;
    }
}

/// Whether a section begins where it has to, is not empty, and ends in the image.
pub open spec fn section_in_place(
    h: NtHeadersView,
    sections: Seq<SectionHeader>,
    i: int,
) -> bool {
    let before = if i == 0 {
        h.optional_header.size_of_headers as int
    } else {
        section_end(sections[i - 1])
    };
    &&& begins_behind(
        sections[i].virtual_address as int,
        before,
        h.optional_header.section_alignment as int,
    )
    &&& sections[i].virtual_address < section_end(sections[i])
    &&& section_end(sections[i]) <= h.optional_header.size_of_image
}

/// Whether the raw data of a section is in order: none at all, or a whole number of alignment
/// units behind the headers and behind all raw data before it, no longer than the mapped bytes
/// rounded up, and at its own RVA in an image with small alignment.
pub open spec fn raw_data_in_order(
    h: NtHeadersView,
    sections: Seq<SectionHeader>,
    i: int,
) -> bool {
    let o = h.optional_header;
    let pointer = sections[i].pointer_to_raw_data as int;
    let size = sections[i].size_of_raw_data as int;
    let mapped = section_end(sections[i]) - sections[i].virtual_address;
    if size == 0 {
        pointer == 0
    } else {
        &&& pointer % o.file_alignment as int == 0
        &&& size % o.file_alignment as int == 0
        &&& size < mapped + o.file_alignment
        &&& pointer >= o.size_of_headers
        &&& o.section_alignment < 4096 ==> pointer == sections[i].virtual_address
        &&& forall|j: int|
            0 <= j < i && (#[trigger] sections[j]).size_of_raw_data != 0 && (forall|m: int|
                j < m < i ==> (#[trigger] sections[m]).size_of_raw_data == 0)
                ==> sections[j].pointer_to_raw_data + sections[j].size_of_raw_data <= pointer
    }
}

/// The end of the last raw data before a section.
proof fn lemma_previous_raw(sections: Seq<SectionHeader>, i: int)
    requires
        0 <= i <= sections.len(),
    ensures
        match previous_raw_end(sections, i) {
            Some(end) => exists|j: int|
                0 <= j < i && (#[trigger] sections[j]).size_of_raw_data != 0 && end
                    == sections[j].pointer_to_raw_data + sections[j].size_of_raw_data && (forall|
                    m: int,
                |
                    j < m < i ==> (#[trigger] sections[m]).size_of_raw_data == 0),
            None => forall|m: int|
                0 <= m < i ==> (#[trigger] sections[m]).size_of_raw_data == 0,
        },
    decreases i,
{
    if i > 0 {
        lemma_previous_raw(sections, i - 1);
        if sections[i - 1].size_of_raw_data != 0 {
            assert(sections[i - 1].size_of_raw_data != 0);
        } else if previous_raw_end(sections, i - 1) is Some {
            let j = choose|j: int|
                0 <= j < i - 1 && (#[trigger] sections[j]).size_of_raw_data != 0
                    && previous_raw_end(sections, i - 1)->0 == sections[j].pointer_to_raw_data
                    + sections[j].size_of_raw_data && (forall|m: int|
                    j < m < i - 1 ==> (#[trigger] sections[m]).size_of_raw_data == 0);
            assert(sections[j].size_of_raw_data != 0);
        }
    }
}

/// Two ways to look at the order of raw data.
pub proof fn lemma_raw_in_order(h: NtHeadersView, sections: Seq<SectionHeader>, i: int)
    requires
        0 <= i < sections.len(),
        h.optional_header.file_alignment > 0,
        usize::MAX >= 0xFFFF_FFFF_FFFF_FFFF,
    ensures
        crate::pe::layout::raw_layout_invalid(h, sections, i) <==> !raw_data_in_order(
            h,
            sections,
            i,
        ),
{
    let alignment = h.optional_header.file_alignment as int;
    let mapped = section_end(sections[i]) - sections[i].virtual_address;
    let size = sections[i].size_of_raw_data as int;
    lemma_align_up(mapped, alignment);
    lemma_previous_raw(sections, i);
    if size % alignment == 0 {
        if size < mapped + alignment {
            if size >= mapped {
                lemma_begins_behind(size, mapped, alignment);
            }
        }
    }
    let previous = previous_raw_end(sections, i);
    let pointer = sections[i].pointer_to_raw_data as int;
    let free = forall|j: int|
        0 <= j < i && (#[trigger] sections[j]).size_of_raw_data != 0 && (forall|m: int|
            j < m < i ==> (#[trigger] sections[m]).size_of_raw_data == 0)
            ==> sections[j].pointer_to_raw_data + sections[j].size_of_raw_data <= pointer;
    if previous is Some {
        let last = choose|j: int|
            0 <= j < i && (#[trigger] sections[j]).size_of_raw_data != 0 && previous->0
                == sections[j].pointer_to_raw_data + sections[j].size_of_raw_data && (forall|
                m: int,
            |
                j < m < i ==> (#[trigger] sections[m]).size_of_raw_data == 0);
        assert(free <==> previous->0 <= pointer) by {
            if previous->0 <= pointer {
                assert forall|j: int|
                    0 <= j < i && (#[trigger] sections[j]).size_of_raw_data != 0 && (forall|m: int|
                        j < m < i ==> (#[trigger] sections[m]).size_of_raw_data
                            == 0) implies sections[j].pointer_to_raw_data
                    + sections[j].size_of_raw_data <= pointer by {
                    if j < last {
                        assert(sections[last].size_of_raw_data == 0);
                    }
                    if last < j {
                        assert(sections[j].size_of_raw_data == 0);
                    }
                }
            }
        }
    } else {
        assert(free);
    }
}

/// Whether a section is in place and its raw data in order.
pub open spec fn section_in_order(
    h: NtHeadersView,
    sections: Seq<SectionHeader>,
    i: int,
) -> bool {
    section_in_place(h, sections, i) && raw_data_in_order(h, sections, i)
}

/// The sections from `index` on are accepted exactly when each is in place with its raw data in
/// order.
proof fn lemma_sections_in_place(h: NtHeadersView, sections: Seq<SectionHeader>, index: int)
    requires
        usize::MAX >= 0xFFFF_FFFF_FFFF_FFFF,
        h.optional_header.section_alignment > 0,
        h.optional_header.file_alignment > 0,
        0 <= index <= sections.len(),
    ensures
        first_section_error(h, sections, index) is None <==> forall|i: int|
            index <= i < sections.len() ==> #[trigger] section_in_order(h, sections, i),
    decreases sections.len() - index,
{
    if index < sections.len() {
        lemma_sections_in_place(h, sections, index + 1);
        let before = if index == 0 {
            h.optional_header.size_of_headers as int
        } else {
            section_end(sections[index - 1])
        };
        let alignment = h.optional_header.section_alignment as int;
        lemma_begins_behind(sections[index].virtual_address as int, before, alignment);
        lemma_raw_in_order(h, sections, index);
        lemma_align_up(section_end(sections[index]), alignment);
        assert(expected_rva(h, sections, index + 1) == align_up(
            section_end(sections[index]),
            alignment,
        ));
        let here = section_error(h, sections, index) is None;
        assert(here <==> section_in_order(h, sections, index));
        let rest = first_section_error(h, sections, index + 1) is None;
        assert(first_section_error(h, sections, index) is None <==> here && rest);
        if here && rest {
            assert forall|i: int| index <= i < sections.len() implies #[trigger] section_in_order(
                h,
                sections,
                i,
            ) by {
                if i > index {
                    assert(index + 1 <= i);
                }
            }
        }
    }
}

/// The base of code that the sections ask for.
proof fn lemma_code_rva(sections: Seq<SectionHeader>, count: int)
    requires
        0 <= count <= sections.len(),
    ensures
        match first_code_rva(sections, count) {
            Some(rva) => exists|i: int|
                0 <= i < count && (#[trigger] sections[i]).characteristics & 0x20 != 0 && rva
                    == sections[i].virtual_address && forall|j: int|
                    0 <= j < i ==> (#[trigger] sections[j]).characteristics & 0x20 == 0,
            None => forall|j: int|
                0 <= j < count ==> (#[trigger] sections[j]).characteristics & 0x20 == 0,
        },
    decreases count,
{
    if count > 0 {
        lemma_code_rva(sections, count - 1);
        match first_code_rva(sections, count - 1) {
            Some(rva) => {
                let i = choose|i: int|
                    0 <= i < count - 1 && (#[trigger] sections[i]).characteristics & 0x20 != 0
                        && rva == sections[i].virtual_address && forall|j: int|
                        0 <= j < i ==> (#[trigger] sections[j]).characteristics & 0x20 == 0;
                assert(sections[i].characteristics & 0x20 != 0);
            },
            None => {
                if sections[count - 1].characteristics & 0x20 != 0 {
                    assert(sections[count - 1].characteristics & 0x20 != 0);
                }
            },
        }
    }
}

/// Whether the base of code is that of the first section marked as code, or zero where none is.
pub open spec fn base_of_code_stands(h: NtHeadersView, sections: Seq<SectionHeader>) -> bool {
    let base = h.optional_header.base_of_code;
    ||| exists|i: int|
        0 <= i < sections.len() && (#[trigger] sections[i]).characteristics & 0x20 != 0 && base
            == sections[i].virtual_address && forall|j: int|
            0 <= j < i ==> (#[trigger] sections[j]).characteristics & 0x20 == 0
    ||| base == 0 && forall|j: int|
        0 <= j < sections.len() ==> (#[trigger] sections[j]).characteristics & 0x20 == 0
}

/// Whether the entry point is zero or lies in an executable section.
pub open spec fn entry_point_stands(h: NtHeadersView, sections: Seq<SectionHeader>) -> bool {
    let entry = h.optional_header.address_of_entry_point;
    entry == 0 || exists|i: int|
        0 <= i < sections.len() && (#[trigger] sections[i]).virtual_address <= entry < section_end(
            sections[i],
        ) && sections[i].characteristics & 0x2000_0000 != 0
}

/// A layout is accepted exactly when every section is in place with its raw data in order, entry
/// point and base of code stand, and the image ends behind the last section. This is where
/// addresses have 64 bits.
pub proof fn law_accepted_layout(h: NtHeadersView, sections: Seq<SectionHeader>)
    requires
        usize::MAX >= 0xFFFF_FFFF_FFFF_FFFF,
        h.optional_header.section_alignment > 0,
        h.optional_header.file_alignment > 0,
    ensures
        section_layout_error(h, sections) is None <==> {
            &&& forall|i: int|
                0 <= i < sections.len() ==> #[trigger] section_in_order(h, sections, i)
            &&& entry_point_stands(h, sections)
            &&& base_of_code_stands(h, sections)
            &&& begins_behind(
                h.optional_header.size_of_image as int,
                if sections.len() == 0 {
                    h.optional_header.size_of_headers as int
                } else {
                    section_end(sections.last())
                },
                h.optional_header.section_alignment as int,
            )
        },
{
    let alignment = h.optional_header.section_alignment as int;
    let count = sections.len() as int;
    let entry = h.optional_header.address_of_entry_point as int;
    lemma_sections_in_place(h, sections, 0);
    lemma_code_rva(sections, count);
    lemma_align_up(h.optional_header.size_of_headers as int, alignment);
    let before = if sections.len() == 0 {
        h.optional_header.size_of_headers as int
    } else {
        section_end(sections.last())
    };
    lemma_begins_behind(h.optional_header.size_of_image as int, before, alignment);
    lemma_entry_point(h, sections);
    lemma_base_of_code(h, sections);
    assert(expected_rva(h, sections, count) == align_up(before, alignment));
    assert(entry == 0 || crate::pe::layout::in_executable_section(sections, count, entry)
        <==> entry_point_stands(h, sections));
    assert(first_section_error(h, sections, 0) is None ==> (section_layout_error(h, sections)
        is None <==> entry_point_stands(h, sections) && base_of_code_stands(h, sections)
        && align_up(before, alignment) == h.optional_header.size_of_image));
}

/// Two ways to look at the entry point.
pub proof fn lemma_entry_point(h: NtHeadersView, sections: Seq<SectionHeader>)
    ensures
        ({
            let entry = h.optional_header.address_of_entry_point as int;
            entry == 0 || crate::pe::layout::in_executable_section(
                sections,
                sections.len() as int,
                entry,
            ) <==> entry_point_stands(h, sections)
        }),
{
    let entry = h.optional_header.address_of_entry_point as int;
    let count = sections.len() as int;
    assert(crate::pe::layout::in_executable_section(sections, count, entry) <==> exists|i: int|
        0 <= i < count && (#[trigger] sections[i]).virtual_address <= entry < section_end(
            sections[i],
        ) && sections[i].characteristics & 0x2000_0000 != 0) by {
        if crate::pe::layout::in_executable_section(sections, count, entry) {
            let i = choose|i: int|
                0 <= i < count && #[trigger] section_contains(sections[i], entry)
                    && crate::pe::layout::executable(sections[i]);
            assert(sections[i].virtual_address <= entry < section_end(sections[i]));
        }
        if exists|i: int|
            0 <= i < count && (#[trigger] sections[i]).virtual_address <= entry < section_end(
                sections[i],
            ) && sections[i].characteristics & 0x2000_0000 != 0 {
            let i = choose|i: int|
                0 <= i < count && (#[trigger] sections[i]).virtual_address <= entry < section_end(
                    sections[i],
                ) && sections[i].characteristics & 0x2000_0000 != 0;
            assert(section_contains(sections[i], entry));
        }
    }
}

/// Two ways to look at the base of code.
pub proof fn lemma_base_of_code(h: NtHeadersView, sections: Seq<SectionHeader>)
    ensures
        base_of_code_stands(h, sections) <==> h.optional_header.base_of_code == (
        match first_code_rva(sections, sections.len() as int) {
            Some(rva) => rva,
            None => 0,
        }),
{
    let count = sections.len() as int;
    lemma_code_rva(sections, count);
    match first_code_rva(sections, count) {
        Some(rva) => {
            let first = choose|i: int|
                0 <= i < count && (#[trigger] sections[i]).characteristics & 0x20 != 0 && rva
                    == sections[i].virtual_address && forall|j: int|
                    0 <= j < i ==> (#[trigger] sections[j]).characteristics & 0x20 == 0;
            assert(sections[first].characteristics & 0x20 != 0);
            if base_of_code_stands(h, sections) {
                let other = choose|i: int|
                    0 <= i < count && (#[trigger] sections[i]).characteristics & 0x20 != 0
                        && h.optional_header.base_of_code == sections[i].virtual_address
                        && forall|j: int|
                        0 <= j < i ==> (#[trigger] sections[j]).characteristics & 0x20 == 0;
                assert(other == first) by {
                    if other < first {
                        assert(sections[other].characteristics & 0x20 == 0);
                    }
                    if first < other {
                        assert(sections[first].characteristics & 0x20 == 0);
                    }
                }
            }
        },
        None => {},
    }
}

/// Whether a declared data directory has its place: it is empty, or it is the certificate one,
/// or its bytes, one for the global pointer, are image data.
pub open spec fn directory_has_place(
    h: NtHeadersView,
    sections: Seq<SectionHeader>,
    d: int,
) -> bool {
    let address = h.data_directories[d].virtual_address as int;
    let size = h.data_directories[d].size as int;
    ||| address == 0 && size == 0
    ||| d == 4
    ||| d == 8 && image_data_range(h, sections, address, 1)
    ||| d != 8 && image_data_range(h, sections, address, size)
}

/// The directories from `index` on are accepted exactly when each has its place.
proof fn lemma_directories_have_place(
    h: NtHeadersView,
    sections: Seq<SectionHeader>,
    index: int,
)
    requires
        h.wf(),
        0 <= index,
    ensures
        first_directory_layout_error(h, sections, index) is None <==> forall|d: int|
            index <= d < h.optional_header.number_of_rva_and_sizes && d < 16
                ==> #[trigger] directory_has_place(h, sections, d),
    decreases directory_count(h) - index,
{
    if index < directory_count(h) {
        lemma_directories_have_place(h, sections, index + 1);
        assert(directory_layout_error(h, sections, index) is None <==> directory_has_place(
            h,
            sections,
            index,
        ));
    }
}

/// A parsed image is accepted exactly when its headers and its layout are, it lies in the data, and
/// every declared directory has its place.
pub proof fn law_accepted_images(
    h: NtHeadersView,
    nt_offset: int,
    sections: Seq<SectionHeader>,
    data_size: int,
)
    requires
        h.wf(),
    ensures
        parsed_pe_error(h, nt_offset, sections, data_size) is None <==> {
            &&& nt_headers_error(h, nt_offset) is None
            &&& h.optional_header.size_of_image <= data_size
            &&& section_layout_error(h, sections) is None
            &&& forall|d: int|
                0 <= d < h.optional_header.number_of_rva_and_sizes && d < 16
                    ==> #[trigger] directory_has_place(h, sections, d)
        },
{
    lemma_directories_have_place(h, sections, 0);
}

} // verus!
