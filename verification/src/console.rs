//! The single console line that shows the progress of a triage.

use vstd::prelude::*;

use crate::text::{decimal, push_decimal, text_equal};

verus! {

/// Character width of the process progress bar.
pub const PROCESS_PROGRESS_BAR_WIDTH: usize = 24;

/// Fixed phase-label width used to overwrite the preceding progress line completely.
pub const PROCESS_PROGRESS_PHASE_WIDTH: usize = 32;

/// Decides when the progress line of a triage is drawn again, and what it holds.
#[derive(Clone, Copy, Debug, Eq, PartialEq)]
pub struct ProcessProgress {
    pub last_phase: &'static str,
    pub last_percentage: usize,
    pub rendered: bool,
}

/// A value, at most one hundred.
pub open spec fn capped(percentage: int) -> int {
    if percentage > 100 {
        100
    } else {
        percentage
    }
}

/// `count` times the same character.
pub open spec fn repeated(c: char, count: nat) -> Seq<char> {
    Seq::new(count, |i: int| c)
}

/// The spaces that fill `len` characters up to `width`.
pub open spec fn filling(len: nat, width: nat) -> Seq<char> {
    if len < width {
        repeated(' ', (width - len) as nat)
    } else {
        Seq::empty()
    }
}

/// The progress line: a bar, the percentage in three places, and the phase.
pub open spec fn progress_line(phase: Seq<char>, percentage: int) -> Seq<char> {
    let filled = (percentage * PROCESS_PROGRESS_BAR_WIDTH / 100) as nat;
    let number = decimal(percentage as nat);
    seq!['\r', '['] + repeated('#', filled) + repeated(
        '-',
        (PROCESS_PROGRESS_BAR_WIDTH - filled) as nat,
    ) + seq![']', ' '] + filling(number.len(), 3) + number + seq!['%', ' '] + phase + filling(
        phase.len(),
        PROCESS_PROGRESS_PHASE_WIDTH as nat,
    )
}

/// Appends the same character `count` times.
fn push_repeated(text: &mut String, c: char, count: usize)
    ensures
        final(text)@ == old(text)@ + repeated(c, count as nat),
{
    let ghost before = text@;
    let mut index: usize = 0;
    assert(text@ =~= before + repeated(c, 0));
    while index < count
        invariant
            index <= count,
            text@ == before + repeated(c, index as nat),
        decreases count - index,
    {
        text.push(c);
        index += 1;
        assert(text@ =~= before + repeated(c, index as nat));
    }
}

/// Appends the spaces that fill `len` characters up to `width`.
fn push_filling(text: &mut String, len: usize, width: usize)
    ensures
        final(text)@ == old(text)@ + filling(len as nat, width as nat),
{
    if len < width {
        push_repeated(text, ' ', width - len);
    } else {
        assert(text@ =~= old(text)@ + filling(len as nat, width as nat));
    }
}

/// Builds the progress line.
fn render_line(phase: &str, percentage: usize) -> (r: String)
    requires
        percentage <= 100,
    ensures
        r@ == progress_line(phase@, percentage as int),
{
    let filled: usize = percentage * PROCESS_PROGRESS_BAR_WIDTH / 100;
    let mut number = String::new();
    push_decimal(&mut number, percentage as u64);
    assert(number@ =~= decimal(percentage as nat));
    let mut line = String::new();
    line.push('\r');
    line.push('[');
    assert(line@ =~= seq!['\r', '[']);
    push_repeated(&mut line, '#', filled);
    push_repeated(&mut line, '-', PROCESS_PROGRESS_BAR_WIDTH - filled);
    let ghost bar = line@;
    line.push(']');
    line.push(' ');
    assert(line@ =~= bar + seq![']', ' ']);
    push_filling(&mut line, number.as_str().unicode_len(), 3);
    line.append(number.as_str());
    let ghost numbered = line@;
    line.push('%');
    line.push(' ');
    assert(line@ =~= numbered + seq!['%', ' ']);
    line.append(phase);
    push_filling(&mut line, phase.unicode_len(), PROCESS_PROGRESS_PHASE_WIDTH);
    line
}

impl ProcessProgress {
    /// Creates an unrendered process progress display.
    pub fn new() -> (r: ProcessProgress)
        ensures
            r.last_phase@ == ""@,
            r.last_percentage == usize::MAX,
            !r.rendered,
    {
        ProcessProgress { last_phase: "", last_percentage: usize::MAX, rendered: false }
    }

    /// Whether the line already shows this phase and percentage.
    pub open spec fn shows(&self, phase: Seq<char>, percentage: int) -> bool {
        self.rendered && self.last_phase@ == phase && self.last_percentage == capped(percentage)
    }

    /// Updates the progress when its phase or percentage changed, and gives the line to draw.
    pub fn update(&mut self, phase: &'static str, percentage: usize) -> (r: Option<String>)
        ensures
            old(self).shows(phase@, percentage as int) ==> r is None && *final(self) == *old(self),
            !old(self).shows(phase@, percentage as int) ==> {
                &&& r is Some
                &&& r->0@ == progress_line(phase@, capped(percentage as int))
            },
            final(self).shows(phase@, percentage as int),
    {
        let percentage: usize = if percentage > 100 {
            100
        } else {
            percentage
        };
        if self.rendered && text_equal(self.last_phase, phase) && self.last_percentage
            == percentage {
            return None;
        }
        let line = render_line(phase, percentage);
        self.last_phase = phase;
        self.last_percentage = percentage;
        self.rendered = true;
        Some(line)
    }

    /// Completes the progress display, and gives the last line to draw.
    pub fn finish(&mut self) -> (r: Option<String>)
        ensures
            old(self).shows("Complete"@, 100) ==> r is None,
            !old(self).shows("Complete"@, 100) ==> r is Some && r->0@ == progress_line(
                "Complete"@,
                100,
            ),
            !final(self).rendered,
    {
        let line = self.update("Complete", 100);
        self.rendered = false;
        line
    }

    /// Reports whether a drawn line still has to be ended.
    pub fn needs_line_end(&self) -> (r: bool)
        ensures
            r == self.rendered,
    {
        self.rendered
    }
}

/// The overall percentage of `completed` out of `total` work in a phase that spans a range of
/// percentages.
pub open spec fn overall_percentage(
    phase_start: int,
    phase_end: int,
    completed: int,
    total: int,
) -> int {
    let start = capped(phase_start);
    let end = capped(if phase_end > start {
        phase_end
    } else {
        start
    });
    let done = if completed > total {
        total
    } else {
        completed
    };
    if total == 0 {
        capped(phase_end)
    } else {
        start + done * (end - start) / total
    }
}

/// Maps completed collector work into one inclusive overall progress range.
pub fn phase_percentage(
    phase_start: usize,
    phase_end: usize,
    completed: usize,
    total: usize,
) -> (r: usize)
    ensures
        r == overall_percentage(
            phase_start as int,
            phase_end as int,
            completed as int,
            total as int,
        ),
        r <= 100,
{
    if total == 0 {
        return if phase_end > 100 {
            100
        } else {
            phase_end
        };
    }
    let start: usize = if phase_start > 100 {
        100
    } else {
        phase_start
    };
    let end: usize = if phase_end > start {
        if phase_end > 100 {
            100
        } else {
            phase_end
        }
    } else {
        start
    };
    let done: usize = if completed > total {
        total
    } else {
        completed
    };
    let span: usize = end - start;
    proof {
        lemma_scaled(done as int, span as int, total as int);
        assert(done * span <= u128::MAX) by (nonlinear_arith)
            requires
                0 <= done <= 0xFFFF_FFFF_FFFF_FFFF,
                0 <= span <= 100,
        ;
    }
    let scaled: u128 = (done as u128 * span as u128) / (total as u128);
    start + scaled as usize
}

/// A share of a span is not larger than the span.
proof fn lemma_scaled(done: int, span: int, total: int)
    requires
        0 <= done <= total,
        0 < total,
        0 <= span,
    ensures
        0 <= done * span / total <= span,
{
    assert(done * span <= span * total) by (nonlinear_arith)
        requires
            0 <= done <= total,
            0 <= span,
    ;
    assert(0 <= done * span) by (nonlinear_arith)
        requires
            0 <= done,
            0 <= span,
    ;
    assert(0 <= done * span / total <= span) by (nonlinear_arith)
        requires
            0 <= done * span <= span * total,
            0 < total,
    ;
}

/// The overall percentage of a phase stays in its range, begins at its start, ends at its end, and
/// never falls as work is completed.
pub proof fn law_phase_percentage_progresses(
    phase_start: int,
    phase_end: int,
    completed: int,
    later: int,
    total: int,
)
    requires
        0 <= phase_start <= phase_end <= 100,
        0 <= completed <= later,
        0 < total,
    ensures
        phase_start <= overall_percentage(phase_start, phase_end, completed, total) <= phase_end,
        overall_percentage(phase_start, phase_end, 0, total) == phase_start,
        overall_percentage(phase_start, phase_end, total, total) == phase_end,
        overall_percentage(phase_start, phase_end, completed, total) <= overall_percentage(
            phase_start,
            phase_end,
            later,
            total,
        ),
{
    let span = phase_end - phase_start;
    let a = if completed > total {
        total
    } else {
        completed
    };
    let b = if later > total {
        total
    } else {
        later
    };
    lemma_scaled(a, span, total);
    lemma_scaled(b, span, total);
    assert(0 * span / total == 0) by (nonlinear_arith)
        requires
            0 < total,
    ;
    assert(total * span / total == span) by (nonlinear_arith)
        requires
            0 < total,
    ;
    assert(a * span <= b * span) by (nonlinear_arith)
        requires
            a <= b,
            0 <= span,
    ;
    vstd::arithmetic::div_mod::lemma_div_is_ordered(a * span, b * span, total);
}

} // verus!
