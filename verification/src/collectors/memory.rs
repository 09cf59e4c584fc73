//! Memory collector logic.

use vstd::prelude::*;

verus! {

/// Memory collector errors.
#[derive(Debug, Clone, PartialEq)]
pub enum MemoryCollectorError {
    InitError(String),
    CollectionError(String),
}

/// The text of an error, as it is reported.
pub open spec fn memory_error_text(e: MemoryCollectorError) -> Seq<char> {
    match e {
        MemoryCollectorError::InitError(m) => "Failed to initialize memory collector: "@ + m@,
        MemoryCollectorError::CollectionError(m) => "Failed to collect memory metrics: "@ + m@,
    }
}

impl MemoryCollectorError {
    /// The error's message.
    pub fn message(&self) -> (r: String)
        ensures
            r@ == memory_error_text(*self),
    {
        let (prefix, m) = match self {
            MemoryCollectorError::InitError(m) => ("Failed to initialize memory collector: ", m),
            MemoryCollectorError::CollectionError(m) => ("Failed to collect memory metrics: ", m),
        };
        let mut r = String::from_str(prefix);
        r.append(m.as_str());
        r
    }
}

/// Used memory: total minus available, zero when more is available than the total.
pub fn used_bytes(total: u64, available: u64) -> (r: u64)
    ensures
        r == (if total >= available {
            total - available
        } else {
            0
        }),
        available <= total ==> r + available == total,
{
    total.saturating_sub(available)
}

} // verus!
