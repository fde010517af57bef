//! The failures that a call into the engine can report.

use vstd::prelude::*;

verus! {

/// Why a call failed.
///
/// A path that resolves only in part is not a failure: it is reported through
/// the validity mask of the record that the call hands back.
#[derive(Clone, Copy, Debug, PartialEq, Eq, Structural)]
pub enum Error {
    /// The process identifier names no live process.
    ProcessLookupFailure,
    /// The process has neither an attached nor an active address space.
    NoAddressSpace,
    /// A record crossed the privilege boundary only in part.
    TransferFailure,
    /// The control device is already open.
    Busy,
    /// The record offered by the caller does not have the size of a translation record.
    InvalidRequest,
}

} // verus!
