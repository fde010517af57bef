//! The control device: one open session at a time, and two commands that
//! exchange a translation record with the caller.

use vstd::prelude::*;
use crate::engine::{run, served};
use crate::entry::{ptedit_entry_t, PagingDepth};
use crate::error::Error;
use crate::gate::ExclusivityToken;
use crate::machine::{lemma_located_exists, Machine, MachineView};
use crate::session::{command, Action, Command, Operation};
use crate::transfer::{transfer_outcome, Transfer};
use crate::walk::user_view;

verus! {

/// The answer to a command.
#[derive(Clone, Copy, Debug, PartialEq, Eq, Structural)]
pub struct Reply {
    /// Return code of the call.
    pub code: i32,
    /// The record to send back to the caller, if the command has one.
    pub record: Option<ptedit_entry_t>,
}

/// The control device.
#[derive(Clone, Copy, Debug, PartialEq, Eq, Structural)]
pub struct PtEditor {
    /// Whether a session holds the device.
    pub gate: ExclusivityToken,
    /// Set while the caller holds the lock of the target address space
    /// itself; the engine then takes no lock of its own.
    pub mm_is_locked: bool,
    /// The host's paging depth, fixed at set-up.
    pub depth: PagingDepth,
    /// Size in bytes of a translation record on this host.
    pub record_size: usize,
}

impl PtEditor {
    /// What `ioctl` answers on a given machine.
    pub open spec fn ioctl_reply(
        self,
        machine: MachineView,
        cmd: u32,
        record: ptedit_entry_t,
        inbound: Transfer,
    ) -> Result<Reply, Error> {
        match command(cmd) {
            Command::Other => Ok(Reply { code: 0, record: None }),
            Command::ReadTranslation => match transfer_outcome(self.record_size, inbound) {
                Err(e) => Err(e),
                Ok(_) => match machine.located(record.pid) {
                    Err(e) => Err(e),
                    Ok(mm) => Ok(
                        Reply {
                            code: 0,
                            record: Some(
                                user_view(
                                    record,
                                    machine.path(mm as int, record.vaddr, record.pid),
                                    self.depth,
                                ),
                            ),
                        },
                    ),
                },
            },
            Command::WriteTranslation => match transfer_outcome(self.record_size, inbound) {
                Err(e) => Err(e),
                Ok(_) => match machine.located(record.pid) {
                    Err(_) => Err(Error::NoAddressSpace),
                    Ok(_) => Ok(Reply { code: 0, record: None }),
                },
            },
        }
    }

    /// The machine that `ioctl` leaves behind.
    pub open spec fn ioctl_effect(
        self,
        machine: MachineView,
        cmd: u32,
        record: ptedit_entry_t,
        inbound: Transfer,
    ) -> MachineView {
        if command(cmd) == Command::Other || transfer_outcome(self.record_size, inbound).is_err() {
            machine
        } else {
            match machine.located(record.pid) {
                Err(_) => machine,
                Ok(mm) => if command(cmd) == Command::ReadTranslation {
                    machine.after_scope(mm as int, !self.mm_is_locked)
                } else {
                    machine.after_update(mm as int, record, !self.mm_is_locked)
                },
            }
        }
    }

    /// Sets the device up: free, with the caller holding no lock.
    pub fn init(depth: PagingDepth, record_size: usize) -> (device: PtEditor)
        ensures
            device == (PtEditor {
                gate: ExclusivityToken::Free,
                mm_is_locked: false,
                depth,
                record_size,
            }),
    {
        PtEditor { gate: ExclusivityToken::new(), mm_is_locked: false, depth, record_size }
    }

    /// Opens the device: succeeds on a free device and takes it; fails with
    /// `Busy` on a device that is already open.
    pub fn open(&mut self) -> (admitted: Result<(), Error>)
        ensures
            admitted == old(self).gate.open_result(),
            *final(self) == (PtEditor { gate: old(self).gate.after_open(), ..*old(self) }),
    {
        self.gate.open()
    }

    /// Closes the device: it is free afterwards, whatever it was.
    pub fn release(&mut self)
        ensures
            *final(self) == (PtEditor { gate: old(self).gate.after_release(), ..*old(self) }),
    {
        self.gate.release();
    }

    /// Records whether the caller holds the lock of the target address
    /// space itself.
    pub fn set_mm_locked(&mut self, locked: bool)
        ensures
            *final(self) == (PtEditor { mm_is_locked: locked, ..*old(self) }),
    {
        self.mm_is_locked = locked;
    }

    /// Begins the operation that serves one command on this device.
    pub fn begin(&self, cmd: u32) -> (operation: Operation)
        ensures
            operation == Operation::for_command(
                self.depth,
                self.record_size,
                !self.mm_is_locked,
                cmd,
            ),
            operation.wf(),
    {
        Operation::command(self.depth, self.record_size, !self.mm_is_locked, cmd)
    }

    /// Serves one command on a machine.
    ///
    /// `record` is the record as it came from the caller and `inbound` what
    /// the transfer reported of it. `READ_TRANSLATION` answers with the
    /// record filled from the live path of its address; `WRITE_TRANSLATION`
    /// overwrites the entries that the record's mask selects and answers
    /// without a record. A failed transfer or a process without an address
    /// space fails the call and leaves the machine untouched, lock included.
    /// Any other command code succeeds and does nothing. The record of the
    /// reply is handed back for sending: what its transfer then reports is
    /// judged by the last step of the operation, or by
    /// [`transfer_status`](crate::transfer::transfer_status).
    pub fn ioctl(
        &self,
        machine: &mut Machine,
        cmd: u32,
        record: ptedit_entry_t,
        inbound: Transfer,
    ) -> (reply: Result<Reply, Error>)
        requires
            old(machine)@.wf(),
        ensures
            final(machine)@.wf(),
            reply == self.ioctl_reply(old(machine)@, cmd, record, inbound),
            final(machine)@ == self.ioctl_effect(old(machine)@, cmd, record, inbound),
    {
        let begun = self.begin(cmd);
        proof {
            lemma_located_exists(machine@, record.pid);
            let answer = served(begun, machine@, record, inbound);
            assert(answer.1 == self.ioctl_effect(machine@, cmd, record, inbound));
        }
        let end = run(machine, begun, record, inbound);
        match end.pending {
            Action::Return(Ok(code)) => Ok(Reply { code, record: None }),
            Action::Return(Err(e)) => Err(e),
            Action::CopyOut(filled) => Ok(Reply { code: 0, record: Some(filled) }),
            _ => vstd::pervasive::unreached(),
        }
    }
}

} // verus!
