//! Single-holder arbitration for the control device: one open session at a time.

use vstd::prelude::*;
use crate::error::Error;

verus! {

/// Whether the control device is taken.
#[derive(Clone, Copy, Debug, PartialEq, Eq, Structural)]
pub enum ExclusivityToken {
    Free,
    Held,
}

impl ExclusivityToken {
    /// What an attempt to open answers: success on a free device, `Busy` on a held one.
    pub open spec fn open_result(self) -> Result<(), Error> {
        match self {
            ExclusivityToken::Free => Ok(()),
            ExclusivityToken::Held => Err(Error::Busy),
        }
    }

    /// The token after an attempt to open: held, whether by the new opener
    /// or still by the old one.
    pub open spec fn after_open(self) -> ExclusivityToken {
        ExclusivityToken::Held
    }

    /// The token after a release: free, whatever it was.
    pub open spec fn after_release(self) -> ExclusivityToken {
        ExclusivityToken::Free
    }

    /// The token of a device that nobody has opened.
    pub fn new() -> (token: ExclusivityToken)
        ensures
            token == ExclusivityToken::Free,
    {
        ExclusivityToken::Free
    }

    /// Tries to take the device. A rejected opener is not queued.
    pub fn open(&mut self) -> (admitted: Result<(), Error>)
        ensures
            admitted == old(self).open_result(),
            *final(self) == old(self).after_open(),
    {
        match *self {
            ExclusivityToken::Free => {
                *self = ExclusivityToken::Held;
                Ok(())
            },
            ExclusivityToken::Held => Err(Error::Busy),
        }
    }

    /// Gives the device back. Releasing a free device changes nothing.
    pub fn release(&mut self)
        ensures
            *final(self) == old(self).after_release(),
    {
        *self = ExclusivityToken::Free;
    }

    /// Says whether the device is taken.
    pub fn is_held(&self) -> (held: bool)
        ensures
            held == (*self == ExclusivityToken::Held),
    {
        match self {
            ExclusivityToken::Free => false,
            ExclusivityToken::Held => true,
        }
    }
}

/// At most one session holds the device: once it was opened, every further
/// attempt to open fails with `Busy` until a release, after which the next
/// attempt succeeds. A release is safe to repeat.
pub proof fn lemma_single_holder(token: ExclusivityToken)
    ensures
        token.after_open().open_result() == Err::<(), Error>(Error::Busy),
        token.after_open().after_open() == token.after_open(),
        token.after_release().open_result() == Ok::<(), Error>(()),
        token.after_open().after_release().open_result() == Ok::<(), Error>(()),
        token.after_release().after_release() == token.after_release(),
{
}

} // verus!
