//! The bounding policy: how unbounded types are approximated by bounded ones.
use vstd::prelude::*;

verus! {

/// The length of the backing array of a slice, and the largest length of a sequence.
pub const SEQUENCE_LIMIT: usize = 16;
/// The number of symbolic characters behind a text value.
pub const STRING_LIMIT: usize = 8;
/// The loop unwinding bound given to the model checker.
pub const UNWIND_BOUND: u32 = 64;
/// Integer parameters of wider types are assumed to lie strictly inside this magnitude.
pub const SAFE_WINDOW: u64 = 100000000;

/// The limits that one synthesis run works with.
#[derive(Clone, Copy, Debug, PartialEq, Eq, Structural)]
pub struct BoundingPolicy {
    pub seq_limit: usize,
    pub string_limit: usize,
    pub unwind: u32,
    pub int_window: u64,
}

impl BoundingPolicy {
    /// The standard limits.
    pub fn standard() -> (r: BoundingPolicy)
        ensures
            r == (BoundingPolicy {
                seq_limit: SEQUENCE_LIMIT,
                string_limit: STRING_LIMIT,
                unwind: UNWIND_BOUND,
                int_window: SAFE_WINDOW,
            }),
    {
        BoundingPolicy {
            seq_limit: SEQUENCE_LIMIT,
            string_limit: STRING_LIMIT,
            unwind: UNWIND_BOUND,
            int_window: SAFE_WINDOW,
        }
    }
}

} // verus!
