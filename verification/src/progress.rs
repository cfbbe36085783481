//! Progress reports of long scans.

use vstd::prelude::*;

verus! {

/// Bytes between two progress updates of a scan.
pub const PROGRESS_BYTE_INTERVAL: usize = 0x1_0000;

/// Takes progress updates: completed and total work.
pub trait Progress {
    /// Every update taken so far.
    spec fn updates(&self) -> Seq<(usize, usize)>;

    /// Takes one update.
    fn update(&mut self, completed: usize, total: usize)
        ensures
            final(self).updates() == old(self).updates().push((completed, total)),
    ;
}

/// Keeps every progress update.
#[derive(Clone, Debug, Eq, PartialEq)]
pub struct ProgressLog {
    pub entries: Vec<(usize, usize)>,
}

impl ProgressLog {
    /// An empty log.
    pub fn new() -> (r: ProgressLog)
        ensures
            r.updates() == Seq::<(usize, usize)>::empty(),
    {
        ProgressLog { entries: Vec::new() }
    }
}

impl Progress for ProgressLog {
    open spec fn updates(&self) -> Seq<(usize, usize)> {
        self.entries@
    }

    fn update(&mut self, completed: usize, total: usize) {
        self.entries.push((completed, total));
    }
}

/// Shows progress updates somewhere, such as on a console.
pub trait ProgressSink {
    /// Shows one update.
    fn show(&mut self, completed: usize, total: usize);
}

/// Hands every update on to a sink.
pub struct ProgressReporter<S> {
    pub sink: S,
    pub shown: Ghost<Seq<(usize, usize)>>,
}

impl<S: ProgressSink> ProgressReporter<S> {
    /// A reporter that has shown nothing yet.
    pub fn new(sink: S) -> (r: ProgressReporter<S>)
        ensures
            r.sink == sink,
            r.updates() == Seq::<(usize, usize)>::empty(),
    {
        ProgressReporter { sink, shown: Ghost(Seq::empty()) }
    }
}

impl<S: ProgressSink> Progress for ProgressReporter<S> {
    open spec fn updates(&self) -> Seq<(usize, usize)> {
        self.shown@
    }

    fn update(&mut self, completed: usize, total: usize) {
        self.sink.show(completed, total);
        self.shown = Ghost(self.shown@.push((completed, total)));
    }
}

/// The number of updates that `positions` consecutive positions give.
pub open spec fn interval_count(positions: int) -> int {
    (positions + PROGRESS_BYTE_INTERVAL - 1) / PROGRESS_BYTE_INTERVAL as int
}

/// The updates of `positions` consecutive positions, `before` being completed at the first: one
/// at each multiple of the interval.
pub open spec fn interval_updates(before: usize, positions: int, total: usize) -> Seq<
    (usize, usize),
> {
    Seq::new(
        interval_count(positions) as nat,
        |k: int|
            (
                if before + k * PROGRESS_BYTE_INTERVAL > usize::MAX {
                    usize::MAX
                } else {
                    (before + k * PROGRESS_BYTE_INTERVAL) as usize
                },
                total,
            ),
    )
}

/// Whether `next` is where the update after `position` positions is due.
pub open spec fn due_position(position: int, next: usize) -> bool {
    let due = interval_count(position) * PROGRESS_BYTE_INTERVAL;
    next == (if due > usize::MAX {
        usize::MAX as int
    } else {
        due
    })
}

/// Reports a position of a consecutive scan when an update is due, and returns where the next one
/// is.
pub(crate) fn report_position<P: Progress>(
    progress: &mut P,
    position: usize,
    next: usize,
    before: usize,
    total: usize,
    Ghost(earlier): Ghost<Seq<(usize, usize)>>,
) -> (r: usize)
    requires
        position < usize::MAX,
        due_position(position as int, next),
        old(progress).updates() == earlier + interval_updates(before, position as int, total),
    ensures
        due_position(position + 1, r),
        final(progress).updates() == earlier + interval_updates(before, position + 1, total),
{
    let ghost k = interval_count(position as int);
    if position >= next {
        progress.update(before.saturating_add(position), total);
        assert(position == k * PROGRESS_BYTE_INTERVAL);
        assert(interval_count(position + 1) == k + 1);
        assert(interval_updates(before, position + 1, total) =~= interval_updates(
            before,
            position as int,
            total,
        ).push((before.saturating_add(position), total)));
        assert(progress.updates() =~= earlier + interval_updates(before, position + 1, total));
        position.saturating_add(PROGRESS_BYTE_INTERVAL)
    } else {
        assert(interval_count(position + 1) == k);
        next
    }
}

} // verus!
