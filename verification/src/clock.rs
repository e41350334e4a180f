//! One clock snapshot, taken by the shell and passed in explicitly, so that
//! identity stamping and export bucketing are deterministic functions of it.

use vstd::prelude::*;

verus! {

/// A single reading of the local clock: the epoch instant in milliseconds
/// and the local calendar date down to the minute.
#[derive(Clone, Copy, Debug, PartialEq, Eq, Structural)]
pub struct Timestamp {
    pub millis: u64,
    pub year: u32,
    pub month: u32,
    pub day: u32,
    pub minute: u32,
}

impl Timestamp {
    /// A plausible calendar reading: what any real clock hands out.
    pub open spec fn wf(self) -> bool {
        1 <= self.month <= 12 && 1 <= self.day <= 31 && self.minute <= 59
    }
}

} // verus!
