//! The failures a publish operation can surface to its caller.

use vstd::prelude::*;

verus! {

/// Why a publish operation failed.
///
/// `MalformedVersion` is raised while building the event, when the snapshot's
/// version string does not have the form `"v"` followed by digits.
/// `SerializationFailure`, `DeliveryFailure` and `ConnectionUnavailable`
/// describe failures of the outbound path; the library itself never produces
/// them, but callers that own the broker connection report them in this type.
#[derive(Clone, Copy, Debug, PartialEq, Eq, Structural)]
pub enum PublishError {
    MalformedVersion,
    SerializationFailure,
    DeliveryFailure,
    ConnectionUnavailable,
}

} // verus!
