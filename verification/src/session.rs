//! One call into the engine as a sequence of steps.
//!
//! Every piece of work that the engine cannot do itself, such as moving a
//! record across the privilege boundary, looking a task up, taking a lock or
//! touching an entry of the paging tables, is an [`Action`] that it asks its
//! host to perform. The host answers with an [`Event`], and the operation
//! decides from it what comes next. The engine never waits, and it asks for
//! the release of a lock on every way out once it has asked to acquire it.

use vstd::prelude::*;
use crate::entry::{ptedit_entry_t, PagingDepth};
use crate::error::Error;
use crate::level::Level;
use crate::machine::{descriptor_of, select_descriptor, Task};
use crate::paging::{planned_write, selected};
use crate::transfer::{transfer_outcome, transfer_status, Transfer};
use crate::walk::{user_view, vm_t, vm_to_user, Probe};

verus! {

/// Command code of `READ_TRANSLATION`.
pub const PTEDITOR_IOCTL_CMD_VM_RESOLVE: u32 = 1;

/// Command code of `WRITE_TRANSLATION`.
pub const PTEDITOR_IOCTL_CMD_VM_UPDATE: u32 = 2;

/// What a command code asks for.
#[derive(Clone, Copy, Debug, PartialEq, Eq, Structural)]
pub enum Command {
    ReadTranslation,
    WriteTranslation,
    /// Any other code: accepted, and nothing is done.
    Other,
}

/// The command that a code stands for.
pub open spec fn command(cmd: u32) -> Command {
    if cmd == PTEDITOR_IOCTL_CMD_VM_RESOLVE {
        Command::ReadTranslation
    } else if cmd == PTEDITOR_IOCTL_CMD_VM_UPDATE {
        Command::WriteTranslation
    } else {
        Command::Other
    }
}

/// Decodes a command code.
pub fn command_of(cmd: u32) -> (decoded: Command)
    ensures
        decoded == command(cmd),
{
    if cmd == PTEDITOR_IOCTL_CMD_VM_RESOLVE {
        Command::ReadTranslation
    } else if cmd == PTEDITOR_IOCTL_CMD_VM_UPDATE {
        Command::WriteTranslation
    } else {
        Command::Other
    }
}

/// Work that the engine asks its host to do.
#[derive(Clone, Copy, Debug, PartialEq, Eq)]
pub enum Action {
    /// Bring the caller's record in.
    CopyIn,
    /// Look up the calling task.
    CurrentTask,
    /// Look up the task that carries this process identifier.
    FindTask(u64),
    /// Take a read hold of the lock of this address space.
    Acquire(usize),
    /// Read the entry that `addr` selects at `level` in the address space
    /// `mm`. `above` is where the entry one level up is stored; at the top
    /// level there is none.
    Probe { mm: usize, level: Level, above: Option<usize>, addr: u64 },
    /// Store a raw value in the entry of `level` at `location`.
    Store { level: Level, location: usize, raw: u64 },
    /// Give the read hold of this address space back.
    Release(usize),
    /// Send this record back to the caller.
    CopyOut(ptedit_entry_t),
    /// Nothing is left to do: the call returns this.
    Return(Result<i32, Error>),
}

/// What the host reports after it performed an action.
#[derive(Clone, Copy, Debug, PartialEq, Eq, Structural)]
pub enum Event {
    /// The action is done and has nothing to report.
    Done,
    /// The caller's record, and what its transfer reported.
    CopiedIn { record: ptedit_entry_t, transfer: Transfer },
    /// The task that was looked up, if there is one.
    Task(Option<Task>),
    /// Where the entry is stored and what it is.
    Probed { location: usize, probe: Probe },
    /// What the transfer of the outgoing record reported.
    CopiedOut(Transfer),
}

/// The state of one call.
#[derive(Clone, Copy, Debug, PartialEq, Eq)]
pub struct Operation {
    /// What the call is for.
    pub command: Command,
    /// Whether records cross the privilege boundary in this call.
    pub crossing: bool,
    /// The host's paging depth.
    pub depth: PagingDepth,
    /// Whether the engine has to take the lock of the address space; unset
    /// when the caller holds it already.
    pub lock: bool,
    /// Size in bytes of a translation record on this host.
    pub record_size: usize,
    /// The action that the host is asked to perform next.
    pub pending: Action,
    /// The caller's record.
    pub record: ptedit_entry_t,
    /// The address space that the call works on, once it is located.
    pub mm: usize,
    /// The live path as far as it is resolved.
    pub vm: vm_t,
}

/// A path for the given process on which nothing is resolved.
pub open spec fn unresolved(pid: u64) -> vm_t {
    vm_t { pid, pgd: None, p4d: None, pud: None, pmd: None, pte: None, valid: 0 }
}

/// The lookup that a process identifier calls for: 0 names the caller.
pub open spec fn lookup_for(pid: u64) -> Action {
    if pid == 0 {
        Action::CurrentTask
    } else {
        Action::FindTask(pid)
    }
}

/// The first level, from depth `from` down, whose entry is to be overwritten.
pub open spec fn store_from(vm: vm_t, request: ptedit_entry_t, from: nat) -> Option<Level>
    decreases 5 - from,
{
    if from >= 5 {
        None
    } else if selected(vm, request, Level::at(from)) {
        Some(Level::at(from))
    } else {
        store_from(vm, request, from + 1)
    }
}

/// The result of a bare walk: 0 when all five levels resolved, else 1.
pub open spec fn walk_code(vm: vm_t) -> i32 {
    if vm.count() == 5 {
        0
    } else {
        1
    }
}

impl Operation {
    /// The state is well formed when its path is.
    pub open spec fn wf(self) -> bool {
        self.vm.wf()
    }

    /// A call that serves a command of the control device.
    pub open spec fn for_command(depth: PagingDepth, record_size: usize, lock: bool, cmd: u32) -> Operation {
        Operation {
            command: command(cmd),
            crossing: true,
            depth,
            lock,
            record_size,
            pending: if command(cmd) == Command::Other {
                Action::Return(Ok(0i32))
            } else {
                Action::CopyIn
            },
            record: ptedit_entry_t::zero(),
            mm: 0,
            vm: unresolved(0),
        }
    }

    /// A call that only resolves the live path of `addr` for process `pid`.
    pub open spec fn for_resolve(pid: u64, addr: u64, lock: bool) -> Operation {
        Operation {
            command: Command::ReadTranslation,
            crossing: false,
            depth: PagingDepth::FourLevel,
            lock,
            record_size: 0,
            pending: lookup_for(pid),
            record: ptedit_entry_t { pid, vaddr: addr, ..ptedit_entry_t::zero() },
            mm: 0,
            vm: unresolved(pid),
        }
    }

    /// A call that only overwrites what `record` selects.
    pub open spec fn for_update(record: ptedit_entry_t, lock: bool) -> Operation {
        Operation {
            command: Command::WriteTranslation,
            crossing: false,
            depth: PagingDepth::FourLevel,
            lock,
            record_size: 0,
            pending: lookup_for(record.pid),
            record,
            mm: 0,
            vm: unresolved(record.pid),
        }
    }

    /// The call ends with this result.
    pub open spec fn ended(self, result: Result<i32, Error>) -> Operation {
        Operation { pending: Action::Return(result), ..self }
    }

    /// The call fails before an address space was found. A write reports
    /// every such failure as `NoAddressSpace`.
    pub open spec fn unlocated(self, error: Error) -> Operation {
        self.ended(
            Err(
                if self.command == Command::WriteTranslation {
                    Error::NoAddressSpace
                } else {
                    error
                },
            ),
        )
    }

    /// After the record came in: a failed transfer ends the call, else the
    /// target process is looked up.
    pub open spec fn after_copy_in(self, record: ptedit_entry_t, transfer: Transfer) -> Operation {
        match transfer_outcome(self.record_size, transfer) {
            Err(e) => self.ended(Err(e)),
            Ok(_) => Operation {
                record,
                vm: unresolved(record.pid),
                pending: lookup_for(record.pid),
                ..self
            },
        }
    }

    /// The probe of the top level.
    pub open spec fn first_probe(self) -> Action {
        Action::Probe { mm: self.mm, level: Level::Top, above: None, addr: self.record.vaddr }
    }

    /// After the lookup: without a task or without an address space the
    /// call fails; else the lock is taken, unless the caller holds it, and
    /// the walk begins.
    pub open spec fn after_lookup(self, found: Option<Task>) -> Operation {
        match found {
            None => self.unlocated(Error::ProcessLookupFailure),
            Some(task) => match descriptor_of(task) {
                None => self.unlocated(Error::NoAddressSpace),
                Some(mm) => {
                    let located = Operation { mm, ..self };
                    Operation {
                        pending: if self.lock {
                            Action::Acquire(mm)
                        } else {
                            located.first_probe()
                        },
                        ..located
                    }
                },
            },
        }
    }

    /// After the lock is given back, or was never taken: a write is done, a
    /// read sends the filled record out, and a bare walk reports how far it got.
    pub open spec fn after_release(self) -> Operation {
        Operation {
            pending: if self.command == Command::WriteTranslation {
                Action::Return(Ok(0i32))
            } else if self.crossing {
                Action::CopyOut(user_view(self.record, self.vm, self.depth))
            } else {
                Action::Return(Ok(walk_code(self.vm)))
            },
            ..self
        }
    }

    /// The way out of the locked part: the lock is given back if it was taken.
    pub open spec fn leave(self) -> Operation {
        if self.lock {
            Operation { pending: Action::Release(self.mm), ..self }
        } else {
            self.after_release()
        }
    }

    /// The next overwrite from depth `from` down, or the way out if none is left.
    pub open spec fn store_next(self, from: nat) -> Operation {
        match store_from(self.vm, self.record, from) {
            Some(level) => Operation {
                pending: Action::Store {
                    level,
                    location: self.vm.slot(level).unwrap().location,
                    raw: self.record.raw(level),
                },
                ..self
            },
            None => self.leave(),
        }
    }

    /// After the walk: a write goes on to overwrite, anything else leaves.
    pub open spec fn after_walk(self) -> Operation {
        if self.command == Command::WriteTranslation {
            self.store_next(0)
        } else {
            self.leave()
        }
    }

    /// After the probe of `level`: the walk goes one level down if the entry
    /// resolves and is not the leaf, and is over otherwise.
    pub open spec fn after_probe(self, level: Level, location: usize, probe: Probe) -> Operation {
        let grown = Operation { vm: self.vm.after_probe(level, location, probe), ..self };
        match self.vm.next_after(level, probe) {
            Some(next) => Operation {
                pending: Action::Probe {
                    mm: self.mm,
                    level: next,
                    above: Some(location),
                    addr: self.record.vaddr,
                },
                ..grown
            },
            None => grown.after_walk(),
        }
    }

    /// The state after the host reported `event`. An event that does not
    /// answer the pending action changes nothing.
    pub open spec fn step(self, event: Event) -> Operation {
        match self.pending {
            Action::CopyIn => match event {
                Event::CopiedIn { record, transfer } => self.after_copy_in(record, transfer),
                _ => self,
            },
            Action::CurrentTask => match event {
                Event::Task(found) => self.after_lookup(found),
                _ => self,
            },
            Action::FindTask(_) => match event {
                Event::Task(found) => self.after_lookup(found),
                _ => self,
            },
            Action::Acquire(_) => match event {
                Event::Done => Operation { pending: self.first_probe(), ..self },
                _ => self,
            },
            Action::Probe { level, .. } => match event {
                Event::Probed { location, probe } => self.after_probe(level, location, probe),
                _ => self,
            },
            Action::Store { level, .. } => match event {
                Event::Done => self.store_next(level.depth() + 1),
                _ => self,
            },
            Action::Release(_) => match event {
                Event::Done => self.after_release(),
                _ => self,
            },
            Action::CopyOut(_) => match event {
                Event::CopiedOut(transfer) => self.ended(
                    transfer_outcome(self.record_size, transfer),
                ),
                _ => self,
            },
            Action::Return(_) => self,
        }
    }
}

/// Makes a path for the given process on which nothing is resolved.
pub fn unresolved_path(pid: u64) -> (vm: vm_t)
    ensures
        vm == unresolved(pid),
        vm.wf(),
        vm.count() == 0,
{
    let mut vm = vm_t::new();
    vm.pid = pid;
    vm
}

/// Chooses the lookup for a process identifier.
pub fn lookup_action(pid: u64) -> (action: Action)
    ensures
        action == lookup_for(pid),
{
    if pid == 0 {
        Action::CurrentTask
    } else {
        Action::FindTask(pid)
    }
}

impl Operation {
    /// Begins a call that serves a command of the control device. `lock`
    /// says whether the engine has to take the lock of the address space.
    pub fn command(depth: PagingDepth, record_size: usize, lock: bool, cmd: u32) -> (operation: Operation)
        ensures
            operation == Operation::for_command(depth, record_size, lock, cmd),
            operation.wf(),
    {
        let decoded = command_of(cmd);
        let pending = match decoded {
            Command::Other => Action::Return(Ok(0)),
            _ => Action::CopyIn,
        };
        Operation {
            command: decoded,
            crossing: true,
            depth,
            lock,
            record_size,
            pending,
            record: ptedit_entry_t::new(),
            mm: 0,
            vm: unresolved_path(0),
        }
    }

    /// Begins a call that only resolves the live path of `addr` for process `pid`.
    pub fn resolve(pid: u64, addr: u64, lock: bool) -> (operation: Operation)
        ensures
            operation == Operation::for_resolve(pid, addr, lock),
            operation.wf(),
    {
        let mut record = ptedit_entry_t::new();
        record.pid = pid;
        record.vaddr = addr;
        Operation {
            command: Command::ReadTranslation,
            crossing: false,
            depth: PagingDepth::FourLevel,
            lock,
            record_size: 0,
            pending: lookup_action(pid),
            record,
            mm: 0,
            vm: unresolved_path(pid),
        }
    }

    /// Begins a call that only overwrites what `record` selects.
    pub fn update(record: ptedit_entry_t, lock: bool) -> (operation: Operation)
        ensures
            operation == Operation::for_update(record, lock),
            operation.wf(),
    {
        Operation {
            command: Command::WriteTranslation,
            crossing: false,
            depth: PagingDepth::FourLevel,
            lock,
            record_size: 0,
            pending: lookup_action(record.pid),
            record,
            mm: 0,
            vm: unresolved_path(record.pid),
        }
    }

    /// Checks that the state is well formed.
    pub fn is_wf(&self) -> (ok: bool)
        ensures
            ok == self.wf(),
    {
        self.vm.is_wf()
    }

    /// Ends the call before an address space was found.
    fn fail_lookup(&mut self, error: Error)
        ensures
            *final(self) == old(self).unlocated(error),
    {
        let reported = match self.command {
            Command::WriteTranslation => Error::NoAddressSpace,
            _ => error,
        };
        self.pending = Action::Return(Err(reported));
    }

    /// Goes on after the lock is given back, or was never taken.
    fn finish(&mut self)
        requires
            old(self).wf(),
        ensures
            *final(self) == old(self).after_release(),
    {
        match self.command {
            Command::WriteTranslation => {
                self.pending = Action::Return(Ok(0));
            },
            _ => {
                if self.crossing {
                    let mut reply = self.record;
                    vm_to_user(&mut reply, &self.vm, self.depth);
                    self.pending = Action::CopyOut(reply);
                } else {
                    let code: i32 = if self.vm.resolved_levels() == 5 {
                        0
                    } else {
                        1
                    };
                    self.pending = Action::Return(Ok(code));
                }
            },
        }
    }

    /// Leaves the locked part of the call.
    fn leave_scope(&mut self)
        requires
            old(self).wf(),
        ensures
            *final(self) == old(self).leave(),
    {
        if self.lock {
            self.pending = Action::Release(self.mm);
        } else {
            self.finish();
        }
    }

    /// Asks for the next overwrite from `start` down, or leaves if none is
    /// left. `None` stands for the end of the levels.
    fn store_on(&mut self, start: Option<Level>)
        requires
            old(self).wf(),
        ensures
            *final(self) == old(self).store_next(
                match start {
                    Some(level) => level.depth(),
                    None => 5,
                },
            ),
    {
        let ghost from = match start {
            Some(level) => level.depth(),
            None => 5,
        };
        let mut next = start;
        loop
            invariant
                *self == *old(self),
                self.wf(),
                from == match start {
                    Some(level) => level.depth(),
                    None => 5,
                },
                store_from(
                    self.vm,
                    self.record,
                    match next {
                        Some(level) => level.depth(),
                        None => 5,
                    },
                ) == store_from(self.vm, self.record, from),
            decreases
                    match next {
                        Some(level) => 5 - level.depth(),
                        None => 0,
                    },
        {
            match next {
                None => {
                    self.leave_scope();
                    return ;
                },
                Some(level) => {
                    assert(Level::at(level.depth()) == level);
                    match planned_write(&self.vm, &self.record, level) {
                        Some((location, raw)) => {
                            self.pending = Action::Store { level, location, raw };
                            return ;
                        },
                        None => {
                            next = level.deeper();
                        },
                    }
                },
            }
        }
    }

    /// Goes on after the walk is over.
    fn walk_over(&mut self)
        requires
            old(self).wf(),
        ensures
            *final(self) == old(self).after_walk(),
    {
        match self.command {
            Command::WriteTranslation => {
                self.store_on(Some(Level::Top));
            },
            _ => {
                self.leave_scope();
            },
        }
    }

    /// Takes in what the host reported and decides what it is asked to do
    /// next. An event that does not answer the pending action changes
    /// nothing, and the same action is asked for again.
    pub fn advance(&mut self, event: Event) -> (next: Action)
        requires
            old(self).wf(),
        ensures
            *final(self) == old(self).step(event),
            next == final(self).pending,
            final(self).wf(),
    {
        match (self.pending, event) {
            (Action::CopyIn, Event::CopiedIn { record, transfer }) => {
                match transfer_status(self.record_size, transfer) {
                    Err(e) => {
                        self.pending = Action::Return(Err(e));
                    },
                    Ok(_) => {
                        self.record = record;
                        self.vm = unresolved_path(record.pid);
                        self.pending = lookup_action(record.pid);
                    },
                }
            },
            (Action::CurrentTask, Event::Task(found)) | (Action::FindTask(_), Event::Task(found)) => {
                match found {
                    None => {
                        self.fail_lookup(Error::ProcessLookupFailure);
                    },
                    Some(task) => match select_descriptor(&task) {
                        Err(_) => {
                            self.fail_lookup(Error::NoAddressSpace);
                        },
                        Ok(mm) => {
                            self.mm = mm;
                            if self.lock {
                                self.pending = Action::Acquire(mm);
                            } else {
                                self.pending = Action::Probe {
                                    mm,
                                    level: Level::Top,
                                    above: None,
                                    addr: self.record.vaddr,
                                };
                            }
                        },
                    },
                }
            },
            (Action::Acquire(_), Event::Done) => {
                self.pending = Action::Probe {
                    mm: self.mm,
                    level: Level::Top,
                    above: None,
                    addr: self.record.vaddr,
                };
            },
            (Action::Probe { level, .. }, Event::Probed { location, probe }) => {
                match self.vm.record(level, location, probe) {
                    Some(next) => {
                        assert(next == Level::at(level.depth() + 1));
                        self.pending = Action::Probe {
                            mm: self.mm,
                            level: next,
                            above: Some(location),
                            addr: self.record.vaddr,
                        };
                    },
                    None => {
                        self.walk_over();
                    },
                }
            },
            (Action::Store { level, .. }, Event::Done) => {
                self.store_on(level.deeper());
            },
            (Action::Release(_), Event::Done) => {
                self.finish();
            },
            (Action::CopyOut(_), Event::CopiedOut(transfer)) => {
                self.pending = Action::Return(transfer_status(self.record_size, transfer));
            },
            _ => {},
        }
        self.pending
    }
}

} // verus!
