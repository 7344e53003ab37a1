//! The outcome of verifying one entry point against one backend run.

use vstd::prelude::*;

verus! {

/// Outcome of one (entry point, backend) verification run.
///
/// `Verified` is success; every other variant is a failure. No ordering
/// among the failures is implied, and when several entries fail, any one
/// failing status may be surfaced as representative.
#[derive(Debug, PartialEq, Eq, Structural, Copy, Clone)]
pub enum Status {
    /// The verifier could not be run, or its output could not be understood.
    Unknown,
    /// The verifier explored the entry point and found no violation.
    Verified,
    /// The verifier found a violation, or an expected failure never occurred.
    Error,
    /// The verifier stopped because it ran out of time.
    Timeout,
    /// The verifier found an arithmetic overflow.
    Overflow,
    /// The verifier reached code that was meant to be unreachable.
    Reachable,
}

impl Status {
    /// True exactly for `Verified`; every other status counts as a failure.
    pub fn is_verified(&self) -> (r: bool)
        ensures
            r == (*self == Status::Verified),
    {
        matches!(self, Status::Verified)
    }

    /// The status's name, as printed in reports. With `alternate`,
    /// `Verified` prints as the short test-runner style `ok`.
    pub fn describe(&self, alternate: bool) -> (r: String)
        ensures
            *self == Status::Unknown ==> r@ == "Unknown"@,
            *self == Status::Verified && !alternate ==> r@ == "Verified"@,
            *self == Status::Verified && alternate ==> r@ == "ok"@,
            *self == Status::Error ==> r@ == "Error"@,
            *self == Status::Timeout ==> r@ == "Timeout"@,
            *self == Status::Overflow ==> r@ == "Overflow"@,
            *self == Status::Reachable ==> r@ == "Reachable"@,
    {
        match self {
            Status::Unknown => "Unknown".to_owned(),
            Status::Verified => {
                if alternate {
                    "ok".to_owned()
                } else {
                    "Verified".to_owned()
                }
            },
            Status::Error => "Error".to_owned(),
            Status::Timeout => "Timeout".to_owned(),
            Status::Overflow => "Overflow".to_owned(),
            Status::Reachable => "Reachable".to_owned(),
        }
    }
}

} // verus!
