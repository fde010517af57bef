//! The machine that the engine works on: physical memory, the address-space
//! descriptors with their locks, and the task table.

use vstd::prelude::*;
use crate::error::Error;
use crate::level::ENTRIES_PER_TABLE;
use crate::lock::MmLock;
use crate::paging::frame_count;

verus! {

/// One process as the locator sees it.
#[derive(Clone, Copy, Debug, PartialEq, Eq, Structural)]
pub struct Task {
    /// Process identifier.
    pub pid: u64,
    /// The address space attached to the task, as an index into the descriptors.
    pub mm: Option<usize>,
    /// The address space that the task borrows while it has none of its own.
    pub active_mm: Option<usize>,
}

/// The descriptor of one address space.
#[derive(Clone, Copy, Debug, PartialEq, Eq, Structural)]
pub struct Mm {
    /// Frame of the top-level table.
    pub root: u64,
    /// The lock that guards the hierarchy below `root`.
    pub lock: MmLock,
}

/// The whole machine. The engine owns none of it: it borrows an address
/// space under its lock for the time of one operation.
#[derive(Clone, Debug, PartialEq, Eq)]
pub struct Machine {
    /// Physical memory, one 64-bit word per element.
    pub memory: Vec<u64>,
    /// The address-space descriptors.
    pub mms: Vec<Mm>,
    /// The live tasks.
    pub tasks: Vec<Task>,
    /// Index of the calling task.
    pub current: usize,
}

/// The machine as plain mathematical values.
pub struct MachineView {
    pub memory: Seq<u64>,
    pub mms: Seq<Mm>,
    pub tasks: Seq<Task>,
    pub current: usize,
}

impl View for Machine {
    type V = MachineView;

    open spec fn view(&self) -> MachineView {
        MachineView {
            memory: self.memory@,
            mms: self.mms@,
            tasks: self.tasks@,
            current: self.current,
        }
    }
}

/// The address space that a task runs on: its own, else the one it borrows.
pub open spec fn descriptor_of(task: Task) -> Option<usize> {
    if task.mm.is_some() {
        task.mm
    } else {
        task.active_mm
    }
}

impl MachineView {
    /// No two tasks share a process identifier.
    pub open spec fn pids_distinct(self) -> bool {
        forall|i: int, j: int|
            0 <= i < j < self.tasks.len() ==> (#[trigger] self.tasks[i]).pid != (
            #[trigger] self.tasks[j]).pid
    }

    /// A task's descriptors exist.
    pub open spec fn task_ok(self, task: Task) -> bool {
        &&& task.mm matches Some(mm) ==> mm < self.mms.len()
        &&& task.active_mm matches Some(mm) ==> mm < self.mms.len()
    }

    /// A descriptor's top-level table lies inside memory, and its lock can
    /// still count one more hold.
    pub open spec fn mm_ok(self, mm: Mm) -> bool {
        &&& mm.root < frame_count(self.memory)
        &&& mm.lock.readers < u64::MAX
    }

    /// The machine is well formed.
    pub open spec fn wf(self) -> bool {
        &&& self.current < self.tasks.len()
        &&& self.pids_distinct()
        &&& forall|i: int| 0 <= i < self.tasks.len() ==> self.task_ok(#[trigger] self.tasks[i])
        &&& forall|k: int| 0 <= k < self.mms.len() ==> self.mm_ok(#[trigger] self.mms[k])
    }

    /// Some task carries the process identifier.
    pub open spec fn has_pid(self, pid: u64) -> bool {
        exists|i: int| 0 <= i < self.tasks.len() && (#[trigger] self.tasks[i]).pid == pid
    }

    /// The task that a process identifier stands for: the caller for 0,
    /// else the task that carries it, if there is one.
    pub open spec fn task_of(self, pid: u64) -> Option<int> {
        if pid == 0 {
            Some(self.current as int)
        } else if self.has_pid(pid) {
            Some(choose|i: int| 0 <= i < self.tasks.len() && (#[trigger] self.tasks[i]).pid == pid)
        } else {
            None
        }
    }

    /// The address space of a process, or why there is none.
    pub open spec fn located(self, pid: u64) -> Result<usize, Error> {
        match self.task_of(pid) {
            None => Err(Error::ProcessLookupFailure),
            Some(i) => match descriptor_of(self.tasks[i]) {
                None => Err(Error::NoAddressSpace),
                Some(mm) => Ok(mm),
            },
        }
    }

    /// The machine after one scoped use of a descriptor's lock.
    pub open spec fn after_scope(self, mm: int, engage: bool) -> MachineView {
        MachineView {
            mms: self.mms.update(
                mm,
                Mm { root: self.mms[mm].root, lock: self.mms[mm].lock.after_scope(engage) },
            ),
            ..self
        }
    }
}

/// In a well-formed machine the task found under a process identifier is
/// the only one that carries it.
pub proof fn lemma_task_of_unique(machine: MachineView, pid: u64, i: int)
    requires
        machine.pids_distinct(),
        pid != 0,
        0 <= i < machine.tasks.len(),
        machine.tasks[i].pid == pid,
    ensures
        machine.task_of(pid) == Some(i),
{
    assert(machine.has_pid(pid));
    let found = choose|k: int| 0 <= k < machine.tasks.len() && (#[trigger] machine.tasks[k]).pid == pid;
    if found < i {
        assert(machine.tasks[found].pid != machine.tasks[i].pid);
    } else if i < found {
        assert(machine.tasks[i].pid != machine.tasks[found].pid);
    }
}

/// The address space found for a process is one of the machine's descriptors.
pub proof fn lemma_located_exists(machine: MachineView, pid: u64)
    requires
        machine.wf(),
    ensures
        machine.located(pid) matches Ok(mm) ==> mm < machine.mms.len(),
{
    match machine.task_of(pid) {
        None => {},
        Some(i) => {
            if pid != 0 {
                assert(machine.has_pid(pid));
            }
            assert(machine.task_ok(machine.tasks[i]));
        },
    }
}

/// Picks the address space that a task runs on.
pub fn select_descriptor(task: &Task) -> (mm: Result<usize, Error>)
    ensures
        mm == match descriptor_of(*task) {
            None => Err::<usize, Error>(Error::NoAddressSpace),
            Some(index) => Ok(index),
        },
{
    match task.mm {
        Some(index) => Ok(index),
        None => match task.active_mm {
            Some(index) => Ok(index),
            None => Err(Error::NoAddressSpace),
        },
    }
}

/// Finds the task that carries a process identifier.
pub fn find_task(tasks: &Vec<Task>, pid: u64) -> (found: Option<usize>)
    ensures
        match found {
            Some(i) => i < tasks@.len() && tasks@[i as int].pid == pid,
            None => forall|i: int| 0 <= i < tasks@.len() ==> (#[trigger] tasks@[i]).pid != pid,
        },
{
    let mut i: usize = 0;
    while i < tasks.len()
        invariant
            i <= tasks@.len(),
            forall|k: int| 0 <= k < i ==> (#[trigger] tasks@[k]).pid != pid,
        decreases tasks@.len() - i,
    {
        if tasks[i].pid == pid {
            return Some(i);
        }
        i = i + 1;
    }
    None
}

/// Resolves a process identifier to its address space.
///
/// 0 names the caller. The call fails with `ProcessLookupFailure` when no
/// live task carries the identifier, and with `NoAddressSpace` when the
/// task has neither an attached nor an active address space. Nothing is
/// changed and no lock is touched.
pub fn get_mm(machine: &Machine, pid: u64) -> (mm: Result<usize, Error>)
    requires
        machine@.wf(),
    ensures
        mm == machine@.located(pid),
        mm matches Ok(index) ==> index < machine@.mms.len(),
{
    let index: usize = if pid == 0 {
        machine.current
    } else {
        match find_task(&machine.tasks, pid) {
            Some(i) => {
                proof {
                    lemma_task_of_unique(machine@, pid, i as int);
                }
                i
            },
            None => {
                assert(!machine@.has_pid(pid));
                return Err(Error::ProcessLookupFailure);
            },
        }
    };
    assert(machine@.task_of(pid) == Some(index as int));
    assert(machine@.task_ok(machine@.tasks[index as int]));
    select_descriptor(&machine.tasks[index])
}

impl Machine {
    /// Checks that every descriptor's top-level table lies inside memory and
    /// that its lock can count one more hold.
    pub fn descriptors_ok(&self) -> (ok: bool)
        ensures
            ok == forall|k: int| 0 <= k < self@.mms.len() ==> self@.mm_ok(#[trigger] self@.mms[k]),
    {
        let frames: usize = self.memory.len() / ENTRIES_PER_TABLE;
        let mut k: usize = 0;
        while k < self.mms.len()
            invariant
                k <= self@.mms.len(),
                frames == frame_count(self@.memory),
                forall|i: int| 0 <= i < k ==> self@.mm_ok(#[trigger] self@.mms[i]),
            decreases self@.mms.len() - k,
        {
            let mm: Mm = self.mms[k];
            if mm.root >= frames as u64 || mm.lock.readers == u64::MAX {
                assert(!self@.mm_ok(self@.mms[k as int]));
                return false;
            }
            k = k + 1;
        }
        true
    }

    /// Checks that the descriptors that the tasks name exist.
    pub fn tasks_ok(&self) -> (ok: bool)
        ensures
            ok == forall|i: int| 0 <= i < self@.tasks.len() ==> self@.task_ok(#[trigger] self@.tasks[i]),
    {
        let count: usize = self.mms.len();
        let mut i: usize = 0;
        while i < self.tasks.len()
            invariant
                i <= self@.tasks.len(),
                count == self@.mms.len(),
                forall|k: int| 0 <= k < i ==> self@.task_ok(#[trigger] self@.tasks[k]),
            decreases self@.tasks.len() - i,
        {
            let task: Task = self.tasks[i];
            let attached: bool = match task.mm {
                Some(mm) => mm < count,
                None => true,
            };
            let active: bool = match task.active_mm {
                Some(mm) => mm < count,
                None => true,
            };
            if !attached || !active {
                assert(!self@.task_ok(self@.tasks[i as int]));
                return false;
            }
            i = i + 1;
        }
        true
    }

    /// Checks that no two tasks share a process identifier.
    pub fn pids_distinct(&self) -> (ok: bool)
        ensures
            ok == self@.pids_distinct(),
    {
        let mut j: usize = 0;
        while j < self.tasks.len()
            invariant
                j <= self@.tasks.len(),
                forall|a: int, b: int|
                    0 <= a < b < j ==> (#[trigger] self@.tasks[a]).pid != (#[trigger] self@.tasks[b]).pid,
            decreases self@.tasks.len() - j,
        {
            let pid: u64 = self.tasks[j].pid;
            let mut i: usize = 0;
            while i < j
                invariant
                    i <= j,
                    j < self@.tasks.len(),
                    pid == self@.tasks[j as int].pid,
                    forall|a: int| 0 <= a < i ==> (#[trigger] self@.tasks[a]).pid != pid,
                decreases j - i,
            {
                if self.tasks[i].pid == pid {
                    assert(self@.tasks[i as int].pid == self@.tasks[j as int].pid);
                    return false;
                }
                i = i + 1;
            }
            j = j + 1;
        }
        true
    }

    /// Checks that the machine is well formed.
    pub fn is_wf(&self) -> (ok: bool)
        ensures
            ok == self@.wf(),
    {
        self.current < self.tasks.len() && self.pids_distinct() && self.tasks_ok()
            && self.descriptors_ok()
    }

    /// Puts a machine together from its parts, if they make a well-formed one.
    pub fn new(memory: Vec<u64>, mms: Vec<Mm>, tasks: Vec<Task>, current: usize) -> (machine: Option<
        Machine,
    >)
        ensures
            match machine {
                Some(m) => m@.wf() && m.memory == memory && m.mms == mms && m.tasks == tasks
                    && m.current == current,
                None => !(MachineView { memory: memory@, mms: mms@, tasks: tasks@, current }).wf(),
            },
    {
        let candidate = Machine { memory, mms, tasks, current };
        if candidate.is_wf() {
            Some(candidate)
        } else {
            None
        }
    }
}

} // verus!
