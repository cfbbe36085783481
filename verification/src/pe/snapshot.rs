//! Walking the regions of a loaded image and copying its bytes.
//!
//! Both walks are driven from outside: they name the next query or read, and take its outcome.

use vstd::prelude::*;

use super::identity::{refused_facts, validate_matching_image};
use super::layout::validate_outcome;
use super::locate::{image_data_range, is_image_data_range};
use super::region::{image_region_result, validate_image_region, ImageRegionDisposition};
use super::types::{
    NtHeaders, NtHeadersView, PeImage, PeReadTarget, PeValidationError, SectionHeader,
    UnavailablePeRange, ValidatedPeImage, ValidatedPeSnapshot,
};
use crate::arith::min_usize;
use crate::memory::{MemoryRegion, MemoryRegionQueryError, ProcessMemoryReadError};

verus! {

/// Maximum virtual-memory regions accepted for one loaded image.
pub const MAXIMUM_IMAGE_REGION_COUNT: usize = 4096;

/// Maximum mapped-image snapshot materialized for one process collector.
pub const MAXIMUM_IMAGE_SNAPSHOT_SIZE: usize = 0x1000_0000;

/// Maximum temporary allocation used for one process-image read.
pub const IMAGE_SNAPSHOT_READ_CHUNK_SIZE: usize = 0x10_0000;

/// One queried region of an image walk, cut to the image.
#[derive(Clone, Copy, Debug, Eq, PartialEq, Structural)]
pub struct WalkedRegion {
    pub region: MemoryRegion,
    pub region_end: usize,
    pub range_end: usize,
    pub disposition: ImageRegionDisposition,
}

/// What the outcome of the region query at `address` gives a walk over an image.
pub open spec fn walked_region(
    outcome: Result<MemoryRegion, MemoryRegionQueryError>,
    address: usize,
    image_base: int,
    h: NtHeadersView,
    sections: Seq<SectionHeader>,
) -> Result<WalkedRegion, PeValidationError> {
    match outcome {
        Err(error) => Err(PeValidationError::ImageRegionQueryFailed { address, error }),
        Ok(region) => {
            let region_end = region.base_address + region.region_size;
            let image_end = image_base + h.optional_header.size_of_image;
            let range_end = if region_end <= image_end {
                region_end
            } else {
                image_end
            };
            if region_end > usize::MAX {
                Err(
                    PeValidationError::ImageRegionRangeOverflow {
                        base_address: region.base_address,
                        region_size: region.region_size,
                    },
                )
            } else if region.base_address > address || region_end <= address {
                Err(
                    PeValidationError::ImageRegionDidNotAdvance {
                        address,
                        region_end: region_end as usize,
                    },
                )
            } else {
                match image_region_result(
                    region,
                    address as int,
                    range_end,
                    image_base,
                    h.optional_header.size_of_headers as int,
                    h.optional_header.section_alignment as int,
                    sections,
                ) {
                    Ok(disposition) => Ok(
                        WalkedRegion {
                            region,
                            region_end: region_end as usize,
                            range_end: range_end as usize,
                            disposition,
                        },
                    ),
                    Err(e) => Err(e),
                }
            }
        },
    }
}

/// Checks the outcome of one region query of an image walk.
fn check_walked_region(
    outcome: Result<MemoryRegion, MemoryRegionQueryError>,
    address: usize,
    image_base_address: usize,
    nt_headers: &NtHeaders,
    sections: &[SectionHeader],
) -> (r: Result<WalkedRegion, PeValidationError>)
    requires
        image_base_address + nt_headers.optional_header.size_of_image <= usize::MAX,
    ensures
        r == walked_region(outcome, address, image_base_address as int, nt_headers@, sections@),
{
    let region = match outcome {
        Ok(value) => value,
        Err(error) => return Err(PeValidationError::ImageRegionQueryFailed { address, error }),
    };
    let region_end: usize = match region.base_address.checked_add(region.region_size) {
        Some(value) => value,
        None => return Err(
            PeValidationError::ImageRegionRangeOverflow {
                base_address: region.base_address,
                region_size: region.region_size,
            },
        ),
    };
    if region.base_address > address || region_end <= address {
        return Err(PeValidationError::ImageRegionDidNotAdvance { address, region_end });
    }
    let image_end: usize = image_base_address + nt_headers.optional_header.size_of_image as usize;
    let range_end: usize = min_usize(region_end, image_end);
    match validate_image_region(
        &region,
        address,
        range_end,
        image_base_address,
        nt_headers.optional_header.size_of_headers as usize,
        nt_headers.optional_header.section_alignment as usize,
        sections,
    ) {
        Ok(disposition) => Ok(WalkedRegion { region, region_end, range_end, disposition }),
        Err(e) => Err(e),
    }
}

/// The next thing an image walk needs.
#[derive(Clone, Copy, Debug, Eq, PartialEq, Structural)]
pub enum ImageWalkAction {
    Finished,
    QueryRegion { address: usize },
    ReadBytes { address: usize, size: usize },
}

/// Confirms, region by region, that a loaded image is one valid image mapping.
#[derive(Clone, Copy, Debug, Eq, PartialEq, Structural)]
pub struct ImageMappingWalk {
    pub image_base_address: usize,
    pub image_size: usize,
    pub address: usize,
    pub region_count: usize,
}

/// What a walk at `address` with `region_count` regions behind it needs next.
pub open spec fn next_query(
    address: usize,
    image_end: int,
    region_count: usize,
    image_size: usize,
) -> Result<ImageWalkAction, PeValidationError> {
    if address >= image_end {
        Ok(ImageWalkAction::Finished)
    } else if region_count == MAXIMUM_IMAGE_REGION_COUNT {
        Err(
            PeValidationError::ImageRegionLimitExceeded {
                image_size,
                maximum_region_count: MAXIMUM_IMAGE_REGION_COUNT,
            },
        )
    } else {
        Ok(ImageWalkAction::QueryRegion { address })
    }
}

impl ImageMappingWalk {
    /// The image fits the address space and the region count its limit.
    pub open spec fn wf(&self) -> bool {
        &&& self.image_base_address + self.image_size <= usize::MAX
        &&& self.region_count <= MAXIMUM_IMAGE_REGION_COUNT
    }

    /// Starts a walk over the image at `image_base_address`.
    pub fn start(image_base_address: usize, nt_headers: &NtHeaders) -> (r: Result<
        ImageMappingWalk,
        PeValidationError,
    >)
        ensures
            r == (if image_base_address + nt_headers.optional_header.size_of_image > usize::MAX {
                Err(
                    PeValidationError::ImageRangeOverflow {
                        base_address: image_base_address,
                        image_size: nt_headers.optional_header.size_of_image as usize,
                    },
                )
            } else {
                Ok(
                    ImageMappingWalk {
                        image_base_address,
                        image_size: nt_headers.optional_header.size_of_image as usize,
                        address: image_base_address,
                        region_count: 0,
                    },
                )
            }),
            r is Ok ==> r->Ok_0.wf(),
    {
        let image_size: usize = nt_headers.optional_header.size_of_image as usize;
        if image_base_address.checked_add(image_size).is_none() {
            return Err(
                PeValidationError::ImageRangeOverflow {
                    base_address: image_base_address,
                    image_size,
                },
            );
        }
        Ok(
            ImageMappingWalk {
                image_base_address,
                image_size,
                address: image_base_address,
                region_count: 0,
            },
        )
    }

    /// What the walk needs next.
    pub fn next_action(&self) -> (r: Result<ImageWalkAction, PeValidationError>)
        requires
            self.wf(),
        ensures
            r == next_query(
                self.address,
                self.image_base_address + self.image_size,
                self.region_count,
                self.image_size,
            ),
    {
        if self.address >= self.image_base_address + self.image_size {
            return Ok(ImageWalkAction::Finished);
        }
        if self.region_count == MAXIMUM_IMAGE_REGION_COUNT {
            return Err(
                PeValidationError::ImageRegionLimitExceeded {
                    image_size: self.image_size,
                    maximum_region_count: MAXIMUM_IMAGE_REGION_COUNT,
                },
            );
        }
        Ok(ImageWalkAction::QueryRegion { address: self.address })
    }

    /// Takes the outcome of the region query that the walk asked for.
    pub fn accept_region(
        &mut self,
        outcome: Result<MemoryRegion, MemoryRegionQueryError>,
        nt_headers: &NtHeaders,
        sections: &[SectionHeader],
    ) -> (r: Result<(), PeValidationError>)
        requires
            old(self).wf(),
            old(self).region_count < MAXIMUM_IMAGE_REGION_COUNT,
            old(self).image_size == nt_headers.optional_header.size_of_image,
        ensures
            final(self).wf(),
            match walked_region(
                outcome,
                old(self).address,
                old(self).image_base_address as int,
                nt_headers@,
                sections@,
            ) {
                Ok(walked) => {
                    &&& r == Ok::<(), PeValidationError>(())
                    &&& *final(self) == (ImageMappingWalk {
                        address: walked.region_end,
                        region_count: (old(self).region_count + 1) as usize,
                        ..*old(self)
                    })
                    &&& old(self).address < final(self).address
                },
                Err(e) => r == Err::<(), PeValidationError>(e) && *final(self) == *old(self),
            },
    {
        match check_walked_region(
            outcome,
            self.address,
            self.image_base_address,
            nt_headers,
            sections,
        ) {
            Ok(walked) => {
                self.region_count = self.region_count + 1;
                self.address = walked.region_end;
                Ok(())
            },
            Err(e) => Err(e),
        }
    }
}

/// Whether `[rva, rva + size)` holds only bytes copied from readable image memory.
pub open spec fn snapshot_range_available(
    snapshot: ValidatedPeSnapshot,
    rva: int,
    size: int,
) -> bool {
    &&& rva + size <= snapshot.bytes@.len()
    &&& image_data_range(snapshot.pe.nt_headers@, snapshot.pe.sections@, rva, size)
    &&& forall|i: int|
        0 <= i < snapshot.unavailable_ranges@.len() ==> {
            let range = #[trigger] snapshot.unavailable_ranges@[i];
            range.rva >= rva + size || range.rva + range.size <= rva
        }
}

/// Reports whether a snapshot range contains only bytes copied from readable image memory.
pub fn is_snapshot_range_available(snapshot: &ValidatedPeSnapshot, rva: usize, size: usize) -> (r:
    bool)
    ensures
        r == snapshot_range_available(*snapshot, rva as int, size as int),
{
    let end_rva: usize = match rva.checked_add(size) {
        Some(value) => value,
        None => return false,
    };
    if end_rva > snapshot.bytes.len() {
        return false;
    }
    if !is_image_data_range(&snapshot.pe.nt_headers, &snapshot.pe.sections, rva, size) {
        return false;
    }
    let mut index: usize = 0;
    while index < snapshot.unavailable_ranges.len()
        invariant
            index <= snapshot.unavailable_ranges@.len(),
            end_rva == rva + size,
            size != 0,
            forall|i: int|
                0 <= i < index ==> {
                    let range = #[trigger] snapshot.unavailable_ranges@[i];
                    range.rva >= rva + size || range.rva + range.size <= rva
                },
        decreases snapshot.unavailable_ranges.len() - index,
    {
        let range = snapshot.unavailable_ranges[index];
        let ghost seen = snapshot.unavailable_ranges@[index as int];
        if !(range.rva >= end_rva || range.rva.saturating_add(range.size) <= rva) {
            assert(!(seen.rva >= rva + size || seen.rva + seen.size <= rva));
            return false;
        }
        index += 1;
    }
    true
}

/// An available snapshot range shares no byte with an unavailable range.
pub proof fn law_available_range_avoids_unavailable_bytes(
    snapshot: ValidatedPeSnapshot,
    rva: int,
    size: int,
    at: int,
    i: int,
)
    requires
        snapshot_range_available(snapshot, rva, size),
        rva <= at < rva + size,
        0 <= i < snapshot.unavailable_ranges@.len(),
    ensures
        !(snapshot.unavailable_ranges@[i].rva <= at < snapshot.unavailable_ranges@[i].rva
            + snapshot.unavailable_ranges@[i].size),
{
}

/// Whether the last of `ranges` ends at `rva`, so that a range from there on extends it.
pub open spec fn extends_last(ranges: Seq<UnavailablePeRange>, rva: int) -> bool {
    ranges.len() > 0 && ranges.last().rva + ranges.last().size == rva
}

/// The unavailable ranges after `[rva, rva + size)` was found discarded: it extends the last range
/// when that ends where it begins.
pub open spec fn with_discarded(ranges: Seq<UnavailablePeRange>, rva: int, size: int) -> Seq<
    UnavailablePeRange,
> {
    if extends_last(ranges, rva) {
        ranges.update(
            ranges.len() - 1,
            UnavailablePeRange {
                rva: ranges.last().rva,
                size: (ranges.last().size + size) as usize,
            },
        )
    } else {
        ranges.push(UnavailablePeRange { rva: rva as usize, size: size as usize })
    }
}

/// `bytes` with `data` copied in at `at`.
pub open spec fn overwritten(bytes: Seq<u8>, at: int, data: Seq<u8>) -> Seq<u8> {
    Seq::new(
        bytes.len(),
        |i: int|
            if at <= i < at + data.len() {
                data[i - at]
            } else {
                bytes[i]
            },
    )
}

/// Adds a discarded range to a list that has room for it.
pub fn append_discarded(ranges: &mut Vec<UnavailablePeRange>, rva: usize, size: usize)
    requires
        rva + size <= usize::MAX,
    ensures
        final(ranges)@ == with_discarded(old(ranges)@, rva as int, size as int),
{
    let count: usize = ranges.len();
    if count > 0 {
        let previous = ranges[count - 1];
        if previous.rva.checked_add(previous.size) == Some(rva) {
            ranges[count - 1] =
            UnavailablePeRange { rva: previous.rva, size: previous.size + size };
            return;
        }
    }
    ranges.push(UnavailablePeRange { rva, size });
}

/// The size of an image that may be copied, or why it may not.
pub open spec fn snapshot_size(image_base_address: usize, image_size: usize) -> Result<
    usize,
    PeValidationError,
> {
    if image_size > MAXIMUM_IMAGE_SNAPSHOT_SIZE {
        Err(
            PeValidationError::ImageSnapshotSizeExceedsLimit {
                image_size,
                maximum_snapshot_size: MAXIMUM_IMAGE_SNAPSHOT_SIZE,
            },
        )
    } else if image_base_address + image_size > usize::MAX {
        Err(PeValidationError::ImageRangeOverflow { base_address: image_base_address, image_size })
    } else {
        Ok(image_size)
    }
}

/// Copies a loaded image region by region, leaving discarded ranges zero filled.
#[derive(Clone, Debug, Eq, PartialEq)]
pub struct ImageSnapshotReader {
    pub image_base_address: usize,
    pub image_size: usize,
    pub bytes: Vec<u8>,
    pub unavailable_ranges: Vec<UnavailablePeRange>,
    pub address: usize,
    pub region_count: usize,
    pub read_address: usize,
    pub read_end: usize,
}

impl ImageSnapshotReader {
    /// The RVA up to which the image is settled.
    pub open spec fn settled(&self) -> int {
        if self.read_address < self.read_end {
            self.read_address - self.image_base_address
        } else if self.address - self.image_base_address <= self.image_size {
            self.address - self.image_base_address
        } else {
            self.image_size as int
        }
    }

    /// The buffer spans the image; unavailable ranges are ascending, do not touch and lie in the
    /// settled part; they and everything behind the settled part are zero.
    pub open spec fn wf(&self) -> bool {
        &&& self.image_base_address + self.image_size <= usize::MAX
        &&& self.image_size <= MAXIMUM_IMAGE_SNAPSHOT_SIZE
        &&& self.bytes@.len() == self.image_size
        &&& self.region_count <= MAXIMUM_IMAGE_REGION_COUNT
        &&& self.image_base_address <= self.address
        &&& self.read_address < self.read_end ==> {
            &&& self.image_base_address <= self.read_address
            &&& self.read_end <= self.address
            &&& self.read_end <= self.image_base_address + self.image_size
            &&& self.address < self.image_base_address + self.image_size ==> self.read_end
                == self.address
        }
        &&& forall|i: int|
            0 <= i < self.unavailable_ranges@.len() ==> {
                let range = #[trigger] self.unavailable_ranges@[i];
                range.size > 0 && range.rva + range.size <= self.settled()
            }
        &&& forall|i: int, j: int|
            0 <= i < j < self.unavailable_ranges@.len() ==> (
            #[trigger] self.unavailable_ranges@[i]).rva + self.unavailable_ranges@[i].size < (
            #[trigger] self.unavailable_ranges@[j]).rva
        &&& forall|at: int|
            self.settled() <= at < self.image_size ==> #[trigger] self.bytes@[at] == 0
        &&& forall|i: int, at: int|
            0 <= i < self.unavailable_ranges@.len() && (
            #[trigger] self.unavailable_ranges@[i]).rva <= at < self.unavailable_ranges@[i].rva
                + self.unavailable_ranges@[i].size ==> #[trigger] self.bytes@[at] == 0
    }

    /// Checks that an image may be copied from `image_base_address` and returns its size.
    pub fn check_size(image_base_address: usize, nt_headers: &NtHeaders) -> (r: Result<
        usize,
        PeValidationError,
    >)
        ensures
            r == snapshot_size(
                image_base_address,
                nt_headers.optional_header.size_of_image as usize,
            ),
    {
        let image_size: usize = nt_headers.optional_header.size_of_image as usize;
        if image_size > MAXIMUM_IMAGE_SNAPSHOT_SIZE {
            return Err(
                PeValidationError::ImageSnapshotSizeExceedsLimit {
                    image_size,
                    maximum_snapshot_size: MAXIMUM_IMAGE_SNAPSHOT_SIZE,
                },
            );
        }
        if image_base_address.checked_add(image_size).is_none() {
            return Err(
                PeValidationError::ImageRangeOverflow {
                    base_address: image_base_address,
                    image_size,
                },
            );
        }
        Ok(image_size)
    }

    /// A copy of an image of `image_size` bytes that has not begun.
    pub open spec fn fresh(&self, image_base_address: usize, image_size: usize) -> bool {
        &&& self.wf()
        &&& self.image_base_address == image_base_address
        &&& self.image_size == image_size
        &&& self.bytes@ == Seq::new(image_size as nat, |i: int| 0u8)
        &&& self.unavailable_ranges@.len() == 0
        &&& self.address == image_base_address
        &&& self.region_count == 0
        &&& self.read_address == self.read_end
    }

    /// Prepares a copy in empty buffers.
    pub fn with_buffers(
        image_base_address: usize,
        image_size: usize,
        buffer: Vec<u8>,
        unavailable_ranges: Vec<UnavailablePeRange>,
    ) -> (r: ImageSnapshotReader)
        requires
            snapshot_size(image_base_address, image_size) is Ok,
            buffer@.len() == 0,
            unavailable_ranges@.len() == 0,
        ensures
            r.fresh(image_base_address, image_size),
    {
        let mut bytes = buffer;
        bytes.resize(image_size, 0);
        assert(bytes@ =~= Seq::new(image_size as nat, |i: int| 0u8));
        ImageSnapshotReader {
            image_base_address,
            image_size,
            bytes,
            unavailable_ranges,
            address: image_base_address,
            region_count: 0,
            read_address: image_base_address,
            read_end: image_base_address,
        }
    }

    /// Starts a copy of the image at `image_base_address`. A refused reservation of its buffers is
    /// reported when size and range have been accepted.
    pub fn start(image_base_address: usize, nt_headers: &NtHeaders, section_count: usize) -> (r:
        Result<ImageSnapshotReader, PeValidationError>)
        ensures
            match snapshot_size(
                image_base_address,
                nt_headers.optional_header.size_of_image as usize,
            ) {
                Err(e) => r == Err::<ImageSnapshotReader, _>(e),
                Ok(image_size) => match r {
                    Ok(reader) => reader.fresh(image_base_address, image_size),
                    Err(e) => e == (PeValidationError::ImageBufferAllocationFailed { image_size }),
                },
            },
    {
        let image_size: usize = match ImageSnapshotReader::check_size(
            image_base_address,
            nt_headers,
        ) {
            Ok(value) => value,
            Err(e) => return Err(e),
        };
        let mut buffer: Vec<u8> = Vec::new();
        let mut unavailable_ranges: Vec<UnavailablePeRange> = Vec::new();
        if buffer.try_reserve(image_size).is_err() {
            return Err(PeValidationError::ImageBufferAllocationFailed { image_size });
        }
        if unavailable_ranges.try_reserve(section_count).is_err() {
            return Err(PeValidationError::ImageBufferAllocationFailed { image_size });
        }
        Ok(
            ImageSnapshotReader::with_buffers(
                image_base_address,
                image_size,
                buffer,
                unavailable_ranges,
            ),
        )
    }

    /// What the copy needs next.
    pub open spec fn action(&self) -> Result<ImageWalkAction, PeValidationError> {
        if self.read_address < self.read_end {
            let rest = (self.read_end - self.read_address) as usize;
            Ok(
                ImageWalkAction::ReadBytes {
                    address: self.read_address,
                    size: if rest <= IMAGE_SNAPSHOT_READ_CHUNK_SIZE {
                        rest
                    } else {
                        IMAGE_SNAPSHOT_READ_CHUNK_SIZE
                    },
                },
            )
        } else {
            next_query(
                self.address,
                self.image_base_address + self.image_size,
                self.region_count,
                self.image_size,
            )
        }
    }

    /// What the copy needs next.
    pub fn next_action(&self) -> (r: Result<ImageWalkAction, PeValidationError>)
        requires
            self.wf(),
        ensures
            r == self.action(),
    {
        if self.read_address < self.read_end {
            return Ok(
                ImageWalkAction::ReadBytes {
                    address: self.read_address,
                    size: min_usize(
                        self.read_end - self.read_address,
                        IMAGE_SNAPSHOT_READ_CHUNK_SIZE,
                    ),
                },
            );
        }
        if self.address >= self.image_base_address + self.image_size {
            return Ok(ImageWalkAction::Finished);
        }
        if self.region_count == MAXIMUM_IMAGE_REGION_COUNT {
            return Err(
                PeValidationError::ImageRegionLimitExceeded {
                    image_size: self.image_size,
                    maximum_region_count: MAXIMUM_IMAGE_REGION_COUNT,
                },
            );
        }
        Ok(ImageWalkAction::QueryRegion { address: self.address })
    }

    /// Records a discarded range; `false` when the list could not grow. A range that extends the
    /// last one needs no growth.
    fn record_discarded(&mut self, rva: usize, size: usize) -> (r: bool)
        requires
            rva + size <= usize::MAX,
            forall|i: int|
                0 <= i < old(self).unavailable_ranges@.len() ==> (
                #[trigger] old(self).unavailable_ranges@[i]).rva + old(
                    self,
                ).unavailable_ranges@[i].size <= rva,
        ensures
            final(self).image_base_address == old(self).image_base_address,
            final(self).image_size == old(self).image_size,
            final(self).bytes == old(self).bytes,
            final(self).address == old(self).address,
            final(self).region_count == old(self).region_count,
            final(self).read_address == old(self).read_address,
            final(self).read_end == old(self).read_end,
            extends_last(old(self).unavailable_ranges@, rva as int) ==> r,
            r ==> final(self).unavailable_ranges@ == with_discarded(
                old(self).unavailable_ranges@,
                rva as int,
                size as int,
            ),
            !r ==> final(self).unavailable_ranges@ == old(self).unavailable_ranges@,
    {
        let count: usize = self.unavailable_ranges.len();
        let extends: bool = count > 0 && self.unavailable_ranges[count - 1].rva.checked_add(
            self.unavailable_ranges[count - 1].size,
        ) == Some(rva);
        if !extends && self.unavailable_ranges.try_reserve(1).is_err() {
            return false;
        }
        append_discarded(&mut self.unavailable_ranges, rva, size);
        true
    }

    /// Takes the outcome of the region query that the copy asked for. A refused growth of the
    /// list of unavailable ranges is reported only for a discarded range that does not extend the
    /// last one.
    pub fn accept_region(
        &mut self,
        outcome: Result<MemoryRegion, MemoryRegionQueryError>,
        nt_headers: &NtHeaders,
        sections: &[SectionHeader],
    ) -> (r: Result<(), PeValidationError>)
        requires
            old(self).wf(),
            old(self).action() == Ok::<ImageWalkAction, PeValidationError>(
                ImageWalkAction::QueryRegion { address: old(self).address },
            ),
            old(self).image_size == nt_headers.optional_header.size_of_image,
        ensures
            final(self).image_base_address == old(self).image_base_address,
            final(self).image_size == old(self).image_size,
            final(self).bytes@ == old(self).bytes@,
            match r {
                Ok(()) => {
                    let walked = walked_region(
                        outcome,
                        old(self).address,
                        old(self).image_base_address as int,
                        nt_headers@,
                        sections@,
                    );
                    let rva = old(self).address - old(self).image_base_address;
                    let size = walked->Ok_0.range_end - old(self).address;
                    &&& final(self).wf()
                    &&& walked is Ok
                    &&& final(self).address == walked->Ok_0.region_end
                    &&& final(self).region_count == old(self).region_count + 1
                    &&& final(self).unavailable_ranges@ == (if walked->Ok_0.disposition
                        == ImageRegionDisposition::Discarded {
                        with_discarded(old(self).unavailable_ranges@, rva, size)
                    } else {
                        old(self).unavailable_ranges@
                    })
                    &&& if walked->Ok_0.disposition == ImageRegionDisposition::Readable {
                        &&& final(self).read_address == old(self).address
                        &&& final(self).read_end == walked->Ok_0.range_end
                    } else {
                        &&& walked->Ok_0.disposition != ImageRegionDisposition::Unreadable
                        &&& final(self).read_address == final(self).read_end
                    }
                },
                Err(e) => match walked_region(
                    outcome,
                    old(self).address,
                    old(self).image_base_address as int,
                    nt_headers@,
                    sections@,
                ) {
                    Err(error) => e == error,
                    Ok(walked) => {
                        ||| walked.disposition == ImageRegionDisposition::Unreadable && e
                            == (PeValidationError::UnreadableImageRegion {
                            address: old(self).address,
                            state: walked.region.state,
                            protect: walked.region.protect,
                        })
                        ||| walked.disposition == ImageRegionDisposition::Discarded
                            && !extends_last(
                            old(self).unavailable_ranges@,
                            old(self).address - old(self).image_base_address,
                        ) && e == (PeValidationError::ImageBufferAllocationFailed {
                            image_size: old(self).image_size,
                        })
                    },
                },
            },
    {
        let walked = match check_walked_region(
            outcome,
            self.address,
            self.image_base_address,
            nt_headers,
            sections,
        ) {
            Ok(value) => value,
            Err(e) => return Err(e),
        };
        let address: usize = self.address;
        let rva: usize = address - self.image_base_address;
        let size: usize = walked.range_end - address;
        match walked.disposition {
            ImageRegionDisposition::Readable => {
                self.read_address = address;
                self.read_end = walked.range_end;
            },
            ImageRegionDisposition::Padding => {
                self.read_address = address;
                self.read_end = address;
            },
            ImageRegionDisposition::Discarded => {
                if !self.record_discarded(rva, size) {
                    return Err(
                        PeValidationError::ImageBufferAllocationFailed {
                            image_size: self.image_size,
                        },
                    );
                }
                self.read_address = address;
                self.read_end = address;
            },
            ImageRegionDisposition::Unreadable => {
                return Err(
                    PeValidationError::UnreadableImageRegion {
                        address,
                        state: walked.region.state,
                        protect: walked.region.protect,
                    },
                );
            },
        }
        self.address = walked.region_end;
        self.region_count = self.region_count + 1;
        Ok(())
    }

    /// Takes the outcome of the read that the copy asked for. An outcome of another length than
    /// asked for counts as an incomplete read.
    pub fn accept_bytes(&mut self, outcome: Result<Vec<u8>, ProcessMemoryReadError>) -> (r: Result<
        (),
        PeValidationError,
    >)
        requires
            old(self).wf(),
            old(self).read_address < old(self).read_end,
        ensures
            final(self).wf(),
            ({
                let requested = old(self).action()->Ok_0->size;
                let error = match outcome {
                    Err(error) => Some(error),
                    Ok(data) => if data@.len() != requested {
                        Some(
                            ProcessMemoryReadError::ReadIncomplete {
                                bytes_requested: requested,
                                bytes_read: data@.len() as usize,
                            },
                        )
                    } else {
                        None
                    },
                };
                match error {
                    Some(error) => {
                        &&& r == Err::<(), _>(
                            PeValidationError::RemoteReadFailed {
                                target: PeReadTarget::ImageSnapshot,
                                address: old(self).read_address,
                                error,
                            },
                        )
                        &&& *final(self) == *old(self)
                    },
                    None => {
                        &&& r == Ok::<(), PeValidationError>(())
                        &&& final(self).bytes@ == overwritten(
                            old(self).bytes@,
                            old(self).read_address - old(self).image_base_address,
                            outcome->Ok_0@,
                        )
                        &&& final(self).read_address == old(self).read_address + requested
                        &&& final(self).image_base_address == old(self).image_base_address
                        &&& final(self).image_size == old(self).image_size
                        &&& final(self).unavailable_ranges@ == old(self).unavailable_ranges@
                        &&& final(self).address == old(self).address
                        &&& final(self).region_count == old(self).region_count
                        &&& final(self).read_end == old(self).read_end
                    },
                }
            }),
    {
        let bytes_requested: usize = min_usize(
            self.read_end - self.read_address,
            IMAGE_SNAPSHOT_READ_CHUNK_SIZE,
        );
        let data = match outcome {
            Ok(value) => value,
            Err(error) => return Err(
                PeValidationError::RemoteReadFailed {
                    target: PeReadTarget::ImageSnapshot,
                    address: self.read_address,
                    error,
                },
            ),
        };
        if data.len() != bytes_requested {
            return Err(
                PeValidationError::RemoteReadFailed {
                    target: PeReadTarget::ImageSnapshot,
                    address: self.read_address,
                    error: ProcessMemoryReadError::ReadIncomplete {
                        bytes_requested,
                        bytes_read: data.len(),
                    },
                },
            );
        }
        let buffer_offset: usize = self.read_address - self.image_base_address;
        let ghost before = self.bytes@;
        let mut index: usize = 0;
        while index < bytes_requested
            invariant
                index <= bytes_requested,
                bytes_requested == data@.len(),
                before == old(self).bytes@,
                before.len() == old(self).image_size,
                buffer_offset + bytes_requested <= before.len(),
                before.len() <= usize::MAX,
                self.bytes@.len() == before.len(),
                forall|i: int|
                    0 <= i < before.len() ==> #[trigger] self.bytes@[i] == (if buffer_offset <= i
                        < buffer_offset + index {
                        data@[i - buffer_offset]
                    } else {
                        before[i]
                    }),
                self.image_base_address == old(self).image_base_address,
                self.image_size == old(self).image_size,
                self.unavailable_ranges == old(self).unavailable_ranges,
                self.address == old(self).address,
                self.region_count == old(self).region_count,
                self.read_address == old(self).read_address,
                self.read_end == old(self).read_end,
            decreases bytes_requested - index,
        {
            self.bytes[buffer_offset + index] = data[index];
            index += 1;
        }
        assert(self.bytes@ =~= overwritten(before, buffer_offset as int, data@));
        self.read_address = self.read_address + bytes_requested;
        Ok(())
    }
}

/// Completes a snapshot: the copied bytes must still be the validated image.
pub fn complete_snapshot(
    validation: &ValidatedPeImage,
    bytes: Vec<u8>,
    unavailable_ranges: Vec<UnavailablePeRange>,
) -> (r: Result<ValidatedPeSnapshot, PeValidationError>)
    ensures
        match r {
            Ok(snapshot) => {
                &&& snapshot.bytes == bytes
                &&& snapshot.unavailable_ranges == unavailable_ranges
                &&& bytes@.len() == validation.image_size
                &&& validate_outcome(bytes@, Ok(snapshot.pe))
                &&& validation.describes(snapshot.pe.nt_headers@, snapshot.pe.sections@)
            },
            Err(e) => if bytes@.len() != validation.image_size {
                e == (PeValidationError::ValidatedImageSizeMismatch {
                    expected_size: validation.image_size,
                    actual_size: bytes@.len() as usize,
                })
            } else {
                ||| validate_outcome(bytes@, Err(e))
                ||| exists|pe: PeImage| #[trigger]
                    validate_outcome(bytes@, Ok(pe)) && refused_facts(*validation, pe, e)
            },
        },
{
    match validate_matching_image(validation, &bytes) {
        Ok(pe) => Ok(ValidatedPeSnapshot { bytes, pe, unavailable_ranges }),
        Err(e) => Err(e),
    }
}

/// In a finished copy, every byte of an unavailable range is zero and lies inside the image.
pub proof fn law_unavailable_bytes_are_zero(reader: ImageSnapshotReader, i: int, at: int)
    requires
        reader.wf(),
        0 <= i < reader.unavailable_ranges@.len(),
        reader.unavailable_ranges@[i].rva <= at < reader.unavailable_ranges@[i].rva
            + reader.unavailable_ranges@[i].size,
    ensures
        0 <= at < reader.bytes@.len(),
        reader.bytes@[at] == 0,
{
}

} // verus!
