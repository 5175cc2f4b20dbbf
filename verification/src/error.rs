//! Transport failures surfaced to callers.

use vstd::prelude::*;

verus! {

/// Why a send failed.
///
/// A failure is reported to the caller unmodified, with no retry; only the
/// oversized-datagram condition is intercepted inside the transport, which
/// then hands the buffer to the sealed-file fallback instead of failing.
#[derive(Clone, Copy, Debug, PartialEq, Eq, Structural)]
pub enum JournalError {
    /// The operating system refused an operation; carries the error number.
    Os(i32),
    /// A write to the memory file returned without any progress.
    WriteStalled,
}

impl JournalError {
    /// The error number, when the operating system supplied one.
    pub fn errno(&self) -> (r: Option<i32>)
        ensures
            r == match *self {
                JournalError::Os(e) => Some(e),
                JournalError::WriteStalled => None::<i32>,
            },
    {
        match self {
            JournalError::Os(e) => Some(*e),
            JournalError::WriteStalled => None,
        }
    }
}

} // verus!
