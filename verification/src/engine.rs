//! The engine at work on a machine: each action that an operation asks for
//! is performed on the machine, and its outcome handed back, until the call
//! returns. What a whole call leaves behind is stated here in one piece.

use vstd::prelude::*;
use crate::entry::ptedit_entry_t;
use crate::error::Error;
use crate::level::{table_index, Level, ENTRIES_PER_TABLE};
use crate::machine::{
    find_task, lemma_located_exists, lemma_task_of_unique, Machine, MachineView, Mm,
};
use crate::paging::{
    classify, entry_location, frame_count, frame_number, frame_of, lemma_location_in_bounds,
    lemma_overwritten_len, lemma_path_in_bounds, lemma_reaches_above, lemma_unselected_skipped,
    lemma_walk_ends, live_path, overwritten, path_prefix, probe_of, reaches, resolves_at,
    selected, write_for,
};
use crate::session::{
    lookup_for, store_from, unresolved, walk_code, Action, Command, Event, Operation,
};
use crate::transfer::{transfer_outcome, Transfer};
use crate::walk::{user_view, vm_t};

verus! {

impl MachineView {
    /// The live path of `addr` in the address space `mm`.
    pub open spec fn path(self, mm: int, addr: u64, pid: u64) -> vm_t {
        live_path(self.memory, self.mms[mm].root, addr, pid)
    }

    /// The machine while an operation works on the address space `mm`:
    /// with one more read hold on its lock if the engine took it.
    pub open spec fn entered(self, mm: int, engage: bool) -> MachineView {
        MachineView {
            mms: self.mms.update(
                mm,
                Mm {
                    root: self.mms[mm].root,
                    lock: if engage {
                        self.mms[mm].lock.acquired()
                    } else {
                        self.mms[mm].lock
                    },
                },
            ),
            ..self
        }
    }

    /// The machine after the record's entries were written into the address
    /// space `mm` under one scoped use of its lock.
    pub open spec fn after_update(self, mm: int, request: ptedit_entry_t, engage: bool) -> MachineView {
        MachineView {
            memory: overwritten(
                self.memory,
                self.path(mm, request.vaddr, request.pid),
                request,
                5,
            ),
            ..self.after_scope(mm, engage)
        }
    }

    /// The action can be performed on this machine.
    pub open spec fn admits(self, action: Action) -> bool {
        match action {
            Action::CurrentTask => self.current < self.tasks.len(),
            Action::FindTask(pid) => pid != 0 && self.pids_distinct(),
            Action::Acquire(mm) => mm < self.mms.len() && self.mms[mm as int].lock.readers < u64::MAX,
            Action::Release(mm) => mm < self.mms.len(),
            Action::Probe { mm, above, .. } => {
                &&& mm < self.mms.len()
                &&& self.mms[mm as int].root < frame_count(self.memory)
                &&& above matches Some(location) ==> location < self.memory.len() && frame_of(
                    self.memory[location as int],
                ) < frame_count(self.memory)
            },
            Action::Store { location, .. } => location < self.memory.len(),
            _ => true,
        }
    }

    /// The machine after the action was performed on it.
    pub open spec fn performed(self, action: Action) -> MachineView {
        match action {
            Action::Acquire(mm) => MachineView {
                mms: self.mms.update(
                    mm as int,
                    Mm { root: self.mms[mm as int].root, lock: self.mms[mm as int].lock.acquired() },
                ),
                ..self
            },
            Action::Release(mm) => MachineView {
                mms: self.mms.update(
                    mm as int,
                    Mm { root: self.mms[mm as int].root, lock: self.mms[mm as int].lock.released() },
                ),
                ..self
            },
            Action::Store { location, raw, .. } => MachineView {
                memory: self.memory.update(location as int, raw),
                ..self
            },
            _ => self,
        }
    }

    /// Where the entry of `level` for `addr` is stored, below the entry at `above`.
    pub open spec fn probed_location(self, mm: usize, level: Level, above: Option<usize>, addr: u64) -> int {
        let table = match above {
            None => self.mms[mm as int].root as int,
            Some(location) => frame_of(self.memory[location as int]) as int,
        };
        table * ENTRIES_PER_TABLE + table_index(addr, level)
    }

    /// What performing the action reports. `record` and `inbound` are what
    /// the caller offers when its record is brought in.
    pub open spec fn reports(self, action: Action, record: ptedit_entry_t, inbound: Transfer) -> Event {
        match action {
            Action::CopyIn => Event::CopiedIn { record, transfer: inbound },
            Action::CurrentTask => Event::Task(Some(self.tasks[self.current as int])),
            Action::FindTask(pid) => Event::Task(
                match self.task_of(pid) {
                    Some(i) => Some(self.tasks[i]),
                    None => None,
                },
            ),
            Action::Probe { mm, level, above, addr } => {
                let location = self.probed_location(mm, level, above, addr);
                Event::Probed {
                    location: location as usize,
                    probe: probe_of(self.memory[location], level, frame_count(self.memory)),
                }
            },
            _ => Event::Done,
        }
    }
}

/// Performs one action on the machine and reports what came of it.
fn perform(machine: &mut Machine, action: Action, record: ptedit_entry_t, inbound: Transfer) -> (event:
    Event)
    requires
        old(machine)@.admits(action),
    ensures
        final(machine)@ == old(machine)@.performed(action),
        event == old(machine)@.reports(action, record, inbound),
{
    match action {
        Action::CopyIn => Event::CopiedIn { record, transfer: inbound },
        Action::CurrentTask => Event::Task(Some(machine.tasks[machine.current])),
        Action::FindTask(pid) => {
            match find_task(&machine.tasks, pid) {
                Some(i) => {
                    proof {
                        lemma_task_of_unique(machine@, pid, i as int);
                    }
                    Event::Task(Some(machine.tasks[i]))
                },
                None => {
                    assert(!machine@.has_pid(pid));
                    Event::Task(None)
                },
            }
        },
        Action::Acquire(mm) => {
            let mut descriptor: Mm = machine.mms[mm];
            descriptor.lock.down_read();
            machine.mms.set(mm, descriptor);
            Event::Done
        },
        Action::Release(mm) => {
            let mut descriptor: Mm = machine.mms[mm];
            descriptor.lock.up_read();
            machine.mms.set(mm, descriptor);
            Event::Done
        },
        Action::Probe { mm, level, above, addr } => {
            let frames: usize = machine.memory.len() / ENTRIES_PER_TABLE;
            let table: usize = match above {
                None => machine.mms[mm].root as usize,
                Some(location) => frame_number(machine.memory[location]) as usize,
            };
            assert((table + 1) * 512 <= machine.memory.len());
            let location: usize = table * ENTRIES_PER_TABLE + level.index_of(addr);
            let raw: u64 = machine.memory[location];
            Event::Probed { location, probe: classify(raw, level, frames) }
        },
        Action::Store { level: _, location, raw } => {
            machine.memory.set(location, raw);
            Event::Done
        },
        Action::CopyOut(_) => Event::Done,
        Action::Return(_) => Event::Done,
    }
}

/// The record that an operation works on: the one that the caller sends
/// in, or for a bare operation the one it was begun with.
pub open spec fn request_of(begun: Operation, record: ptedit_entry_t) -> ptedit_entry_t {
    if begun.crossing {
        record
    } else {
        begun.record
    }
}

/// An operation as it is before its first action was performed.
pub open spec fn fresh(operation: Operation) -> bool {
    if operation.crossing {
        operation.pending == if operation.command == Command::Other {
            Action::Return(Ok(0i32))
        } else {
            Action::CopyIn
        }
    } else {
        &&& operation.command != Command::Other
        &&& operation.pending == lookup_for(operation.record.pid)
        &&& operation.vm == unresolved(operation.record.pid)
    }
}

/// Where a whole operation ends on a machine: the action that is left
/// pending, which is the return of the call or the sending of the reply,
/// the machine as the operation leaves it, and the path it resolved.
///
/// A failed transfer, an unknown process or a process without an address
/// space ends the call with the machine untouched. Otherwise the lock of
/// the address space was held in between, unless the caller holds it, and
/// was given back; a read leaves memory alone, and a write leaves in it
/// what the record selects.
pub open spec fn served(
    begun: Operation,
    base: MachineView,
    record: ptedit_entry_t,
    inbound: Transfer,
) -> (Action, MachineView, vm_t) {
    let request = request_of(begun, record);
    if begun.command == Command::Other {
        (begun.pending, base, begun.vm)
    } else if begun.crossing && transfer_outcome(begun.record_size, inbound).is_err() {
        (Action::Return(Err(transfer_outcome(begun.record_size, inbound).unwrap_err())), base, begun.vm)
    } else {
        match base.located(request.pid) {
            Err(e) => (
                Action::Return(
                    Err(
                        if begun.command == Command::WriteTranslation {
                            Error::NoAddressSpace
                        } else {
                            e
                        },
                    ),
                ),
                base,
                unresolved(request.pid),
            ),
            Ok(mm) => {
                let vm = base.path(mm as int, request.vaddr, request.pid);
                if begun.command == Command::WriteTranslation {
                    (
                        Action::Return(Ok(0i32)),
                        base.after_update(mm as int, request, begun.lock),
                        vm,
                    )
                } else if begun.crossing {
                    (
                        Action::CopyOut(user_view(request, vm, begun.depth)),
                        base.after_scope(mm as int, begun.lock),
                        vm,
                    )
                } else {
                    (Action::Return(Ok(walk_code(vm))), base.after_scope(mm as int, begun.lock), vm)
                }
            },
        }
    }
}

/// How far an operation is from its end.
pub open spec fn distance(action: Action) -> nat {
    match action {
        Action::CopyIn => 30,
        Action::CurrentTask => 29,
        Action::FindTask(_) => 29,
        Action::Acquire(_) => 28,
        Action::Probe { level, .. } => (27 - level.depth()) as nat,
        Action::Store { level, .. } => (20 - level.depth()) as nat,
        Action::Release(_) => 10,
        Action::CopyOut(_) => 0,
        Action::Return(_) => 0,
    }
}

/// The operation is at its end as far as the machine is concerned.
pub open spec fn at_end(action: Action) -> bool {
    action is Return || action is CopyOut
}

/// What holds between an operation under way, the machine as it is now, and
/// the operation and the machine as they were at the start.
pub open spec fn on_course(
    now: Operation,
    machine: MachineView,
    begun: Operation,
    base: MachineView,
    record: ptedit_entry_t,
    inbound: Transfer,
) -> bool {
    let request = request_of(begun, record);
    let mm = now.mm;
    let root = base.mms[mm as int].root;
    let path = base.path(mm as int, request.vaddr, request.pid);
    &&& now.command == begun.command
    &&& now.crossing == begun.crossing
    &&& now.depth == begun.depth
    &&& now.lock == begun.lock
    &&& now.record_size == begun.record_size
    &&& now.command != Command::Other || at_end(now.pending)
    &&& match now.pending {
        Action::CopyIn => now == begun && machine == base && begun.crossing,
        Action::CurrentTask => {
            &&& machine == base
            &&& request.pid == 0
            &&& now.record == request
            &&& now.vm == unresolved(request.pid)
            &&& begun.crossing ==> transfer_outcome(begun.record_size, inbound).is_ok()
        },
        Action::FindTask(pid) => {
            &&& machine == base
            &&& request.pid == pid
            &&& pid != 0
            &&& now.record == request
            &&& now.vm == unresolved(request.pid)
            &&& begun.crossing ==> transfer_outcome(begun.record_size, inbound).is_ok()
        },
        Action::Acquire(target) => {
            &&& machine == base
            &&& target == mm
            &&& base.located(request.pid) == Ok::<usize, Error>(mm)
            &&& now.lock
            &&& now.record == request
            &&& now.vm == unresolved(request.pid)
            &&& begun.crossing ==> transfer_outcome(begun.record_size, inbound).is_ok()
        },
        Action::Probe { mm: target, level, above, addr } => {
            &&& target == mm
            &&& base.located(request.pid) == Ok::<usize, Error>(mm)
            &&& machine == base.entered(mm as int, now.lock)
            &&& now.record == request
            &&& addr == request.vaddr
            &&& begun.crossing ==> transfer_outcome(begun.record_size, inbound).is_ok()
            &&& now.vm == path_prefix(base.memory, root, addr, request.pid, level.depth())
            &&& level.depth() == 0 ==> above.is_none()
            &&& level.depth() > 0 ==> {
                &&& above == Some(
                    entry_location(base.memory, root, addr, (level.depth() - 1) as nat) as usize,
                )
                &&& reaches(base.memory, root, addr, (level.depth() - 1) as nat)
            }
        },
        Action::Store { level, location, raw } => {
            &&& base.located(request.pid) == Ok::<usize, Error>(mm)
            &&& now.command == Command::WriteTranslation
            &&& now.record == request
            &&& now.vm == path
            &&& begun.crossing ==> transfer_outcome(begun.record_size, inbound).is_ok()
            &&& machine.mms == base.entered(mm as int, now.lock).mms
            &&& machine.tasks == base.tasks
            &&& machine.current == base.current
            &&& machine.memory == overwritten(base.memory, path, request, level.depth())
            &&& write_for(path, request, level) == Some((location, raw))
        },
        Action::Release(target) => {
            &&& target == mm
            &&& base.located(request.pid) == Ok::<usize, Error>(mm)
            &&& now.lock
            &&& now.record == request
            &&& now.vm == path
            &&& begun.crossing ==> transfer_outcome(begun.record_size, inbound).is_ok()
            &&& machine.mms == base.entered(mm as int, true).mms
            &&& machine.tasks == base.tasks
            &&& machine.current == base.current
            &&& machine.memory == if now.command == Command::WriteTranslation {
                overwritten(base.memory, path, request, 5)
            } else {
                base.memory
            }
        },
        Action::CopyOut(_) => (now.pending, machine, now.vm) == served(begun, base, record, inbound),
        Action::Return(_) => (now.pending, machine, now.vm) == served(begun, base, record, inbound),
    }
}

/// What `store_from` finds: the first selected level from `from` down, with
/// no selected level before it, or no selected level at all.
pub proof fn lemma_store_from(vm: vm_t, request: ptedit_entry_t, from: nat)
    requires
        from <= 5,
    ensures
        match store_from(vm, request, from) {
            Some(level) => {
                &&& from <= level.depth() < 5
                &&& selected(vm, request, level)
                &&& forall|depth: nat|
                    from <= depth < level.depth() ==> !selected(vm, request, #[trigger] Level::at(depth))
            },
            None => forall|depth: nat|
                from <= depth < 5 ==> !selected(vm, request, #[trigger] Level::at(depth)),
        },
    decreases 5 - from,
{
    if from < 5 && !selected(vm, request, Level::at(from)) {
        lemma_store_from(vm, request, from + 1);
    }
}

/// The machine with a lock that was entered and not engaged is the machine itself.
proof fn lemma_entered_idle(base: MachineView, mm: int)
    requires
        0 <= mm < base.mms.len(),
    ensures
        base.entered(mm, false) == base,
        base.after_scope(mm, false) == base,
{
    assert(base.entered(mm, false).mms =~= base.mms);
    assert(base.after_scope(mm, false).mms =~= base.mms);
}

/// One step from the bringing in of the record.
proof fn lemma_step_copy_in(
    now: Operation,
    machine: MachineView,
    begun: Operation,
    base: MachineView,
    record: ptedit_entry_t,
    inbound: Transfer,
)
    requires
        on_course(now, machine, begun, base, record, inbound),
        now.pending is CopyIn,
    ensures
        on_course(
            now.step(machine.reports(now.pending, record, inbound)),
            machine.performed(now.pending),
            begun,
            base,
            record,
            inbound,
        ),
        distance(now.step(machine.reports(now.pending, record, inbound)).pending) < distance(
            now.pending,
        ),
{
}

/// One step from the lookup of the target task.
proof fn lemma_step_lookup(
    now: Operation,
    machine: MachineView,
    begun: Operation,
    base: MachineView,
    record: ptedit_entry_t,
    inbound: Transfer,
)
    requires
        base.wf(),
        on_course(now, machine, begun, base, record, inbound),
        now.pending is CurrentTask || now.pending is FindTask,
    ensures
        machine.admits(now.pending),
        on_course(
            now.step(machine.reports(now.pending, record, inbound)),
            machine.performed(now.pending),
            begun,
            base,
            record,
            inbound,
        ),
        distance(now.step(machine.reports(now.pending, record, inbound)).pending) < distance(
            now.pending,
        ),
{
    let request = request_of(begun, record);
    lemma_located_exists(base, request.pid);
    let event = machine.reports(now.pending, record, inbound);
    let next = now.step(event);
    match base.located(request.pid) {
        Ok(mm) => {
            lemma_entered_idle(base, mm as int);
            assert(next.mm == mm);
            assert(unresolved(request.pid) == path_prefix(
                base.memory,
                base.mms[mm as int].root,
                request.vaddr,
                request.pid,
                0,
            ));
        },
        Err(_) => {},
    }
}

/// One step from the taking of the lock.
proof fn lemma_step_acquire(
    now: Operation,
    machine: MachineView,
    begun: Operation,
    base: MachineView,
    record: ptedit_entry_t,
    inbound: Transfer,
)
    requires
        base.wf(),
        on_course(now, machine, begun, base, record, inbound),
        now.pending is Acquire,
    ensures
        machine.admits(now.pending),
        on_course(
            now.step(machine.reports(now.pending, record, inbound)),
            machine.performed(now.pending),
            begun,
            base,
            record,
            inbound,
        ),
        distance(now.step(machine.reports(now.pending, record, inbound)).pending) < distance(
            now.pending,
        ),
{
    let request = request_of(begun, record);
    lemma_located_exists(base, request.pid);
    let mm = now.mm;
    assert(base.mm_ok(base.mms[mm as int]));
    assert(unresolved(request.pid) == path_prefix(
        base.memory,
        base.mms[mm as int].root,
        request.vaddr,
        request.pid,
        0,
    ));
}

/// One step from the probe of a level.
proof fn lemma_step_probe(
    now: Operation,
    machine: MachineView,
    begun: Operation,
    base: MachineView,
    record: ptedit_entry_t,
    inbound: Transfer,
)
    requires
        base.wf(),
        base.memory.len() <= usize::MAX,
        on_course(now, machine, begun, base, record, inbound),
        now.pending is Probe,
    ensures
        machine.admits(now.pending),
        on_course(
            now.step(machine.reports(now.pending, record, inbound)),
            machine.performed(now.pending),
            begun,
            base,
            record,
            inbound,
        ),
        distance(now.step(machine.reports(now.pending, record, inbound)).pending) < distance(
            now.pending,
        ),
{
    let request = request_of(begun, record);
    lemma_located_exists(base, request.pid);
    let mm = now.mm;
    let root = base.mms[mm as int].root;
    assert(base.mm_ok(base.mms[mm as int]));
    let level = now.pending->Probe_level;
    let above = now.pending->Probe_above;
    let addr = request.vaddr;
    let depth = level.depth();
    let memory = base.memory;
    assert(Level::at(depth) == level);
    lemma_location_in_bounds(memory, root, addr, depth);
    if depth > 0 {
        let up = (depth - 1) as nat;
        lemma_reaches_above(memory, root, addr, depth);
        lemma_location_in_bounds(memory, root, addr, up);
        assert(resolves_at(memory, root, addr, up));
    }
    let place = entry_location(memory, root, addr, depth);
    assert(machine.probed_location(mm, level, above, addr) == place);
    let event = machine.reports(now.pending, record, inbound);
    let probe = probe_of(memory[place], level, frame_count(memory));
    assert(event == Event::Probed { location: place as usize, probe });
    assert(now.vm.count() == depth);
    assert(probe.resolves() == reaches(memory, root, addr, depth));
    let next = now.step(event);
    let path = base.path(mm as int, addr, request.pid);
    lemma_path_in_bounds(memory, root, addr, request.pid);
    if probe.resolves() && level != Level::Leaf {
        assert(next.vm == path_prefix(memory, root, addr, request.pid, depth + 1));
    } else {
        lemma_walk_ends(memory, root, addr, depth);
        assert(next.vm == path);
        lemma_entered_idle(base, mm as int);
        if now.command == Command::WriteTranslation {
            lemma_store_from(path, request, 0);
            match store_from(path, request, 0) {
                Some(first) => {
                    lemma_unselected_skipped(memory, path, request, 0, first.depth());
                },
                None => {
                    lemma_unselected_skipped(memory, path, request, 0, 5);
                    assert(machine.after_scope(mm as int, false).mms =~= machine.mms);
                },
            }
        }
    }
}

/// One step from the overwriting of a level.
proof fn lemma_step_store(
    now: Operation,
    machine: MachineView,
    begun: Operation,
    base: MachineView,
    record: ptedit_entry_t,
    inbound: Transfer,
)
    requires
        base.wf(),
        base.memory.len() <= usize::MAX,
        on_course(now, machine, begun, base, record, inbound),
        now.pending is Store,
    ensures
        machine.admits(now.pending),
        on_course(
            now.step(machine.reports(now.pending, record, inbound)),
            machine.performed(now.pending),
            begun,
            base,
            record,
            inbound,
        ),
        distance(now.step(machine.reports(now.pending, record, inbound)).pending) < distance(
            now.pending,
        ),
{
    let request = request_of(begun, record);
    lemma_located_exists(base, request.pid);
    let mm = now.mm;
    let root = base.mms[mm as int].root;
    assert(base.mm_ok(base.mms[mm as int]));
    let level = now.pending->Store_level;
    let depth = level.depth();
    let memory = base.memory;
    let path = base.path(mm as int, request.vaddr, request.pid);
    assert(Level::at(depth) == level);
    lemma_path_in_bounds(memory, root, request.vaddr, request.pid);
    lemma_overwritten_len(memory, path, request, depth);
    assert(path.slot(level).is_some());
    let after = machine.performed(now.pending);
    assert(after.memory == overwritten(memory, path, request, depth + 1));
    lemma_store_from(path, request, depth + 1);
    lemma_entered_idle(base, mm as int);
    match store_from(path, request, depth + 1) {
        Some(following) => {
            lemma_unselected_skipped(memory, path, request, depth + 1, following.depth());
        },
        None => {
            lemma_unselected_skipped(memory, path, request, depth + 1, 5);
        },
    }
}

/// One step from the giving back of the lock.
proof fn lemma_step_release(
    now: Operation,
    machine: MachineView,
    begun: Operation,
    base: MachineView,
    record: ptedit_entry_t,
    inbound: Transfer,
)
    requires
        base.wf(),
        on_course(now, machine, begun, base, record, inbound),
        now.pending is Release,
    ensures
        machine.admits(now.pending),
        on_course(
            now.step(machine.reports(now.pending, record, inbound)),
            machine.performed(now.pending),
            begun,
            base,
            record,
            inbound,
        ),
        distance(now.step(machine.reports(now.pending, record, inbound)).pending) < distance(
            now.pending,
        ),
{
    let request = request_of(begun, record);
    lemma_located_exists(base, request.pid);
    let mm = now.mm;
    let after = machine.performed(now.pending);
    assert(after.mms =~= base.after_scope(mm as int, true).mms);
}

/// Every step keeps an operation on course and brings it nearer to its end.
proof fn lemma_step(
    now: Operation,
    machine: MachineView,
    begun: Operation,
    base: MachineView,
    record: ptedit_entry_t,
    inbound: Transfer,
)
    requires
        base.wf(),
        base.memory.len() <= usize::MAX,
        on_course(now, machine, begun, base, record, inbound),
        !at_end(now.pending),
    ensures
        machine.admits(now.pending),
        on_course(
            now.step(machine.reports(now.pending, record, inbound)),
            machine.performed(now.pending),
            begun,
            base,
            record,
            inbound,
        ),
        distance(now.step(machine.reports(now.pending, record, inbound)).pending) < distance(
            now.pending,
        ),
{
    match now.pending {
        Action::CopyIn => lemma_step_copy_in(now, machine, begun, base, record, inbound),
        Action::CurrentTask => lemma_step_lookup(now, machine, begun, base, record, inbound),
        Action::FindTask(_) => lemma_step_lookup(now, machine, begun, base, record, inbound),
        Action::Acquire(_) => lemma_step_acquire(now, machine, begun, base, record, inbound),
        Action::Probe { .. } => lemma_step_probe(now, machine, begun, base, record, inbound),
        Action::Store { .. } => lemma_step_store(now, machine, begun, base, record, inbound),
        Action::Release(_) => lemma_step_release(now, machine, begun, base, record, inbound),
        _ => {},
    }
}

/// A scoped use of a lock, with or without a change of memory contents in
/// between, leaves a well-formed machine well formed.
pub proof fn lemma_scope_keeps_wf(before: MachineView, after: MachineView, mm: int, engage: bool)
    requires
        before.wf(),
        0 <= mm < before.mms.len(),
        after.memory.len() == before.memory.len(),
        after.mms == before.after_scope(mm, engage).mms,
        after.tasks == before.tasks,
        after.current == before.current,
    ensures
        after.wf(),
{
    assert(before.mm_ok(before.mms[mm]));
    assert forall|k: int| 0 <= k < after.mms.len() implies after.mm_ok(#[trigger] after.mms[k]) by {
        assert(before.mm_ok(before.mms[k]));
    }
    assert forall|i: int| 0 <= i < after.tasks.len() implies after.task_ok(
        #[trigger] after.tasks[i],
    ) by {
        assert(before.task_ok(before.tasks[i]));
    }
}

/// Whatever an operation does to a well-formed machine, it leaves it well formed.
pub proof fn lemma_served_wf(begun: Operation, base: MachineView, record: ptedit_entry_t, inbound: Transfer)
    requires
        base.wf(),
    ensures
        served(begun, base, record, inbound).1.wf(),
{
    let request = request_of(begun, record);
    let after = served(begun, base, record, inbound).1;
    lemma_located_exists(base, request.pid);
    if after != base {
        let mm = base.located(request.pid).unwrap();
        let root = base.mms[mm as int].root;
        assert(base.mm_ok(base.mms[mm as int]));
        lemma_path_in_bounds(base.memory, root, request.vaddr, request.pid);
        lemma_overwritten_len(
            base.memory,
            base.path(mm as int, request.vaddr, request.pid),
            request,
            5,
        );
        lemma_scope_keeps_wf(base, after, mm as int, begun.lock);
    }
}

/// Carries an operation out on the machine: performs the action that is
/// pending and hands its outcome back, until the operation returns or has a
/// reply to send.
pub(crate) fn run(
    machine: &mut Machine,
    begun: Operation,
    record: ptedit_entry_t,
    inbound: Transfer,
) -> (end: Operation)
    requires
        old(machine)@.wf(),
        begun.wf(),
        fresh(begun),
    ensures
        (end.pending, final(machine)@, end.vm) == served(begun, old(machine)@, record, inbound),
        at_end(end.pending),
        final(machine)@.wf(),
        end.wf(),
{
    let mut operation = begun;
    let words: usize = machine.memory.len();
    loop
        invariant
            old(machine)@.wf(),
            old(machine)@.memory.len() == words,
            operation.wf(),
            on_course(operation, machine@, begun, old(machine)@, record, inbound),
        ensures
            at_end(operation.pending),
        decreases distance(operation.pending),
    {
        match operation.pending {
            Action::Return(_) => {
                break ;
            },
            Action::CopyOut(_) => {
                break ;
            },
            _ => {},
        }
        proof {
            lemma_step(operation, machine@, begun, old(machine)@, record, inbound);
        }
        let event = perform(machine, operation.pending, record, inbound);
        operation.advance(event);
    }
    proof {
        lemma_served_wf(begun, old(machine)@, record, inbound);
    }
    operation
}

/// Reads the live path of `addr` in the address space of the process that
/// `entry` names.
///
/// The path held in `entry` is cleared first. If no address space can be
/// found for the process, the call fails with the locator's error, the
/// machine is left as it was and no lock is taken. Otherwise the lock is
/// held while the five levels are walked, unless `lock` is unset because the
/// caller holds it already, and is given back before the call returns.
/// The walk reads the entry that the address selects at each level and ends
/// at the first one that is empty, malformed or a large mapping; memory is
/// only read. The result is 0 when all five levels resolved and 1 when the
/// walk stopped early; a path that resolves in part is no failure.
pub fn resolve_vm(machine: &mut Machine, addr: u64, entry: &mut vm_t, lock: bool) -> (code: Result<
    i32,
    Error,
>)
    requires
        old(machine)@.wf(),
    ensures
        final(machine)@.wf(),
        match old(machine)@.located(old(entry).pid) {
            Err(e) => {
                &&& code == Err::<i32, Error>(e)
                &&& final(machine)@ == old(machine)@
                &&& *final(entry) == unresolved(old(entry).pid)
            },
            Ok(mm) => {
                &&& *final(entry) == old(machine)@.path(mm as int, addr, old(entry).pid)
                &&& code == Ok::<i32, Error>(walk_code(*final(entry)))
                &&& final(machine)@ == old(machine)@.after_scope(mm as int, lock)
            },
        },
        final(entry).wf(),
{
    let nothing = Transfer { size: 0, untransferred: 0 };
    let end = run(machine, Operation::resolve(entry.pid, addr, lock), ptedit_entry_t::new(), nothing);
    *entry = end.vm;
    match end.pending {
        Action::Return(code) => code,
        _ => vstd::pervasive::unreached(),
    }
}

/// Overwrites entries on the live path of the record's address with the raw
/// values of the record.
///
/// The live path is resolved afresh. Every level that it resolved and that
/// the record's mask asks for is overwritten, from the top down, at the
/// location that the path resolved for it; every other word of memory stays
/// as it is. The values are written as they are given: nothing about them
/// is checked, and no cached translation is flushed afterwards. The lock is
/// held as in `resolve_vm`. If no address space can be found for the process
/// the call fails with `NoAddressSpace` and changes nothing; otherwise the
/// result is 0.
pub fn update_vm(machine: &mut Machine, new_entry: &ptedit_entry_t, lock: bool) -> (code: Result<
    i32,
    Error,
>)
    requires
        old(machine)@.wf(),
    ensures
        final(machine)@.wf(),
        match old(machine)@.located(new_entry.pid) {
            Err(_) => {
                &&& code == Err::<i32, Error>(Error::NoAddressSpace)
                &&& final(machine)@ == old(machine)@
            },
            Ok(mm) => {
                &&& code == Ok::<i32, Error>(0i32)
                &&& final(machine)@ == old(machine)@.after_update(mm as int, *new_entry, lock)
            },
        },
{
    let nothing = Transfer { size: 0, untransferred: 0 };
    let end = run(machine, Operation::update(*new_entry, lock), ptedit_entry_t::new(), nothing);
    match end.pending {
        Action::Return(code) => code,
        _ => vstd::pervasive::unreached(),
    }
}

} // verus!
