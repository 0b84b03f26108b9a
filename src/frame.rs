//! Reconstructed stack frames and how they were derived.
use vstd::prelude::*;

verus! {

/// How a frame was derived, from the most to the least reliable.
#[derive(Debug, Clone, Copy, PartialEq, Eq, Structural, PartialOrd, Ord)]
pub enum Trust {
    Context,
    Cfi,
    FramePointer,
    Scan,
}

/// Why a recovery strategy declined to produce a frame.
///
/// The walk treats every one of them alike: it moves on to the next strategy.
#[derive(Debug, Clone, Copy, PartialEq, Eq, Structural)]
pub enum Declined {
    /// The strategy has no way to recover a frame.
    Unsupported,
    /// A read fell outside the captured stack memory.
    OutOfBounds,
    /// The recovered frame base is not aligned to the pointer width.
    Misaligned,
    /// The recovered frame base failed validation.
    Unvalidated,
    /// No plausible return address lay within the scan window.
    Exhausted,
}

/// One reconstructed activation record.
#[derive(Debug, Clone)]
pub struct StackFrame {
    pub start_of_frame: u64,
    pub end_of_frame: u64,
    pub instruction: u64,
    pub trust: Trust,
    pub module_name: String,
}

/// The mathematical value of a [`StackFrame`].
pub struct FrameView {
    pub start_of_frame: u64,
    pub end_of_frame: u64,
    pub instruction: u64,
    pub trust: Trust,
    pub module_name: Seq<char>,
}

impl View for StackFrame {
    type V = FrameView;

    open spec fn view(&self) -> FrameView {
        FrameView {
            start_of_frame: self.start_of_frame,
            end_of_frame: self.end_of_frame,
            instruction: self.instruction,
            trust: self.trust,
            module_name: self.module_name@,
        }
    }
}

/// A frame as a strategy derives it, before any module is attached.
pub open spec fn bare_frame(start: u64, end: u64, instruction: u64, trust: Trust) -> FrameView {
    FrameView { start_of_frame: start, end_of_frame: end, instruction, trust, module_name: Seq::empty() }
}

impl FrameView {
    /// The same frame with its module name cleared.
    pub open spec fn bare(self) -> FrameView {
        bare_frame(self.start_of_frame, self.end_of_frame, self.instruction, self.trust)
    }
}

impl StackFrame {
    /// A frame with no module attached.
    pub fn new(start_of_frame: u64, end_of_frame: u64, instruction: u64, trust: Trust) -> (r: StackFrame)
        ensures
            r@ == bare_frame(start_of_frame, end_of_frame, instruction, trust),
    {
        StackFrame { start_of_frame, end_of_frame, instruction, trust, module_name: String::new() }
    }
}

} // verus!
