//! Judging what the transfer of bytes across the privilege boundary reported.
//!
//! The transfer itself is done outside this library by a primitive that
//! reports how many bytes it did not move. Nothing here lets that count go
//! unnoticed.

use vstd::prelude::*;
use crate::error::Error;

verus! {

/// What the transfer primitive reports of one record that it moved.
#[derive(Clone, Copy, Debug, PartialEq, Eq, Structural)]
pub struct Transfer {
    /// Size in bytes of the record as the other side offered or took it.
    pub size: usize,
    /// How many bytes were not transferred.
    pub untransferred: usize,
}

/// Whether a transfer brought a whole record of the expected size: a record
/// of another size is an invalid request, and one that arrived only in part
/// is a transfer failure.
pub open spec fn transfer_outcome(expected: usize, transfer: Transfer) -> Result<i32, Error> {
    if transfer.size != expected {
        Err(Error::InvalidRequest)
    } else if transfer.untransferred != 0 {
        Err(Error::TransferFailure)
    } else {
        Ok(0i32)
    }
}

/// How many bytes a read of `count` bytes at `offset` can take from a
/// buffer of `len` bytes: what is left from the offset on, but no more than
/// was asked for.
pub open spec fn window_len(len: usize, offset: usize, count: usize) -> usize {
    if offset >= len {
        0
    } else if count <= len - offset {
        count
    } else {
        (len - offset) as usize
    }
}

/// How many bytes of a transfer of `requested` bytes arrived when
/// `untransferred` of them were reported as left behind.
pub open spec fn arrived(requested: usize, untransferred: usize) -> usize {
    if untransferred >= requested {
        0
    } else {
        (requested - untransferred) as usize
    }
}

/// Judges what the transfer primitive reported. A transfer that left bytes
/// behind is never passed over.
pub fn transfer_status(expected: usize, transfer: Transfer) -> (status: Result<i32, Error>)
    ensures
        status == transfer_outcome(expected, transfer),
{
    if transfer.size != expected {
        Err(Error::InvalidRequest)
    } else if transfer.untransferred != 0 {
        Err(Error::TransferFailure)
    } else {
        Ok(0)
    }
}

/// Sizes the part of a buffer that one read may take.
pub fn window(len: usize, offset: usize, count: usize) -> (take: usize)
    ensures
        take == window_len(len, offset, count),
        take <= count,
        offset + take <= len || take == 0,
{
    if offset >= len {
        0
    } else if count <= len - offset {
        count
    } else {
        len - offset
    }
}

/// Counts the bytes that a transfer moved.
pub fn transferred(requested: usize, untransferred: usize) -> (moved: usize)
    ensures
        moved == arrived(requested, untransferred),
        moved <= requested,
{
    if untransferred >= requested {
        0
    } else {
        requested - untransferred
    }
}

} // verus!
