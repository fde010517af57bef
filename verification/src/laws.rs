//! What holds of the engine as a whole, proved from the contracts of its parts.

use vstd::prelude::*;
use crate::device::{PtEditor, Reply};
use crate::entry::{ptedit_entry_t, PagingDepth};
use crate::error::Error;
use crate::level::{has_level, lemma_prefix_mask_levels, Level, ENTRIES_PER_TABLE};
use crate::machine::{descriptor_of, lemma_located_exists, lemma_task_of_unique, MachineView};
use crate::session::{command, Action, Command, Event, Operation};
use crate::paging::{
    entry_location, entry_value, frame_count, frame_of, lemma_location_in_bounds,
    lemma_path_in_bounds, lemma_reaches_above, lemma_unreached_below, live_path, overwritten, probe_of, reaches,
    resolved_depth, resolves_at, selected, ENTRY_LARGE,
};
use crate::transfer::{transfer_outcome, Transfer};
use crate::walk::{user_view, vm_t};

verus! {

/// The mask of one level marks that level and no other.
pub proof fn lemma_single_level_mask(level: Level, other: Level)
    ensures
        has_level(level.mask(), other) <==> other == level,
{
    assert(1u8 & 1 != 0 && 1u8 & 2 == 0 && 1u8 & 4 == 0 && 1u8 & 8 == 0 && 1u8 & 16 == 0)
        by (bit_vector);
    assert(2u8 & 1 == 0 && 2u8 & 2 != 0 && 2u8 & 4 == 0 && 2u8 & 8 == 0 && 2u8 & 16 == 0)
        by (bit_vector);
    assert(4u8 & 1 == 0 && 4u8 & 2 == 0 && 4u8 & 4 != 0 && 4u8 & 8 == 0 && 4u8 & 16 == 0)
        by (bit_vector);
    assert(8u8 & 1 == 0 && 8u8 & 2 == 0 && 8u8 & 4 == 0 && 8u8 & 8 != 0 && 8u8 & 16 == 0)
        by (bit_vector);
    assert(16u8 & 1 == 0 && 16u8 & 2 == 0 && 16u8 & 4 == 0 && 16u8 & 8 == 0 && 16u8 & 16 != 0)
        by (bit_vector);
}

/// A walk stops at the first entry that does not resolve: if the levels
/// above `level` resolve and the entry at `level` does not, the mask marks
/// exactly the levels above it, each of them is reported with its live raw
/// value, and `level` and everything below it are reported as unset.
pub proof fn lemma_walk_stops_at_unresolved(
    memory: Seq<u64>,
    root: u64,
    addr: u64,
    user: ptedit_entry_t,
    depth: PagingDepth,
    level: Level,
)
    requires
        level.depth() > 0 ==> reaches(memory, root, addr, (level.depth() - 1) as nat),
        !resolves_at(memory, root, addr, level.depth()),
    ensures
        ({
            let vm = live_path(memory, root, addr, user.pid);
            let reply = user_view(user, vm, depth);
            &&& vm.count() == level.depth()
            &&& forall|l: Level| has_level(reply.valid, l) <==> l.depth() < level.depth()
            &&& forall|l: Level|
                l.depth() < level.depth() ==> reply.reported(l) == Some(
                    entry_value(memory, root, addr, l.depth()),
                )
            &&& forall|l: Level| l.depth() >= level.depth() ==> reply.reported(l).is_none()
        }),
{
    let stop = level.depth();
    lemma_reaches_above(memory, root, addr, stop);
    lemma_unreached_below(memory, root, addr, stop, 4);
    assert(resolved_depth(memory, root, addr) == stop);
    let vm = live_path(memory, root, addr, user.pid);
    let reply = user_view(user, vm, depth);
    assert forall|l: Level| has_level(reply.valid, l) <==> l.depth() < stop by {
        lemma_prefix_mask_levels(stop, l);
    }
    assert forall|l: Level| l.depth() < stop implies reply.reported(l) == Some(
        entry_value(memory, root, addr, l.depth()),
    ) by {
        lemma_prefix_mask_levels(stop, l);
    }
    assert forall|l: Level| l.depth() >= stop implies reply.reported(l).is_none() by {
        lemma_prefix_mask_levels(stop, l);
    }
}

/// An absent level-3 entry below a resolved top level and level 4 is
/// reported with exactly the top-level and level-4 bits set, and with
/// level 3, level 2 and the leaf unset.
pub proof fn lemma_absent_level3(
    memory: Seq<u64>,
    root: u64,
    addr: u64,
    user: ptedit_entry_t,
    depth: PagingDepth,
)
    requires
        reaches(memory, root, addr, 1),
        entry_value(memory, root, addr, 2) == 0,
    ensures
        ({
            let reply = user_view(user, live_path(memory, root, addr, user.pid), depth);
            &&& reply.valid == 3
            &&& reply.reported(Level::Top) == Some(entry_value(memory, root, addr, 0))
            &&& reply.reported(Level::Level4) == Some(entry_value(memory, root, addr, 1))
            &&& reply.reported(Level::Level3).is_none()
            &&& reply.reported(Level::Level2).is_none()
            &&& reply.reported(Level::Leaf).is_none()
        }),
{
    lemma_walk_stops_at_unresolved(memory, root, addr, user, depth, Level::Level3);
}

/// A level-2 entry that is a terminal large mapping is reported as
/// unresolved although it is not empty, and so is the leaf.
pub proof fn lemma_large_level2(
    memory: Seq<u64>,
    root: u64,
    addr: u64,
    user: ptedit_entry_t,
    depth: PagingDepth,
)
    requires
        reaches(memory, root, addr, 2),
        entry_value(memory, root, addr, 3) & ENTRY_LARGE != 0,
    ensures
        ({
            let reply = user_view(user, live_path(memory, root, addr, user.pid), depth);
            &&& entry_value(memory, root, addr, 3) != 0
            &&& reply.valid == 7
            &&& reply.reported(Level::Level2).is_none()
            &&& reply.reported(Level::Leaf).is_none()
            &&& reply.reported(Level::Level3) == Some(entry_value(memory, root, addr, 2))
        }),
{
    let raw = entry_value(memory, root, addr, 3);
    assert(raw != 0) by (bit_vector)
        requires
            raw & 0x80 != 0,
    ;
    lemma_walk_stops_at_unresolved(memory, root, addr, user, depth, Level::Level2);
}

/// A path that resolves in full is reported with all five bits set and with
/// the live raw value of every level.
pub proof fn lemma_full_path(
    memory: Seq<u64>,
    root: u64,
    addr: u64,
    user: ptedit_entry_t,
    depth: PagingDepth,
)
    requires
        reaches(memory, root, addr, 4),
    ensures
        ({
            let reply = user_view(user, live_path(memory, root, addr, user.pid), depth);
            &&& reply.valid == 31
            &&& forall|level: Level| has_level(reply.valid, level)
            &&& forall|level: Level|
                reply.reported(level) == Some(entry_value(memory, root, addr, level.depth()))
        }),
{
    lemma_reaches_above(memory, root, addr, 5);
    assert(resolved_depth(memory, root, addr) == 5);
    let reply = user_view(user, live_path(memory, root, addr, user.pid), depth);
    assert forall|level: Level| has_level(reply.valid, level) by {
        lemma_prefix_mask_levels(5, level);
    }
    assert forall|level: Level|
        reply.reported(level) == Some(entry_value(memory, root, addr, level.depth())) by {
        lemma_prefix_mask_levels(5, level);
    }
}

/// Only what is both resolved and asked for is written: a word of memory
/// that differs after an overwrite is the entry of a level that the live
/// path resolved and the record's mask selects, and holds the record's raw
/// value for one such level.
pub proof fn lemma_only_selected_levels_change(
    memory: Seq<u64>,
    vm: vm_t,
    request: ptedit_entry_t,
    count: nat,
    location: int,
)
    requires
        0 <= location < memory.len(),
        count <= 5,
        forall|level: Level|
            (#[trigger] vm.slot(level)).is_some() ==> vm.slot(level).unwrap().location
                < memory.len(),
    ensures
        overwritten(memory, vm, request, count).len() == memory.len(),
        overwritten(memory, vm, request, count)[location] != memory[location] ==> exists|
            level: Level,
        |
            level.depth() < count && selected(vm, request, level) && (#[trigger] vm.slot(
                level,
            )).unwrap().location == location && overwritten(memory, vm, request, count)[location]
                == request.raw(level),
    decreases count,
{
    if count > 0 {
        let before = overwritten(memory, vm, request, (count - 1) as nat);
        let level = Level::at((count - 1) as nat);
        lemma_only_selected_levels_change(memory, vm, request, (count - 1) as nat, location);
        let after = overwritten(memory, vm, request, count);
        if selected(vm, request, level) {
            assert(vm.slot(level).is_some());
            if vm.slot(level).unwrap().location == location {
                assert(after[location] == request.raw(level));
                assert(level.depth() < count);
            } else {
                assert(after[location] == before[location]);
                if before[location] != memory[location] {
                    let earlier = choose|l: Level|
                        l.depth() < count - 1 && selected(vm, request, l) && (#[trigger] vm.slot(
                            l,
                        )).unwrap().location == location && before[location] == request.raw(l);
                    assert(earlier.depth() < count);
                }
            }
        } else {
            assert(after == before);
            if before[location] != memory[location] {
                let earlier = choose|l: Level|
                    l.depth() < count - 1 && selected(vm, request, l) && (#[trigger] vm.slot(
                        l,
                    )).unwrap().location == location && before[location] == request.raw(l);
                assert(earlier.depth() < count);
            }
        }
    }
}

/// A write whose mask covers only the top level changes at most the
/// top-level entry of the live path: every other word of memory, and so the
/// entry of every deeper level that is stored elsewhere, keeps its value,
/// whether or not the path resolved it.
pub proof fn lemma_top_only_write(
    memory: Seq<u64>,
    root: u64,
    addr: u64,
    request: ptedit_entry_t,
)
    requires
        (root + 1) * ENTRIES_PER_TABLE <= memory.len() <= usize::MAX,
        request.valid == Level::Top.mask(),
    ensures
        ({
            let vm = live_path(memory, root, addr, request.pid);
            let after = overwritten(memory, vm, request, 5);
            let top = entry_location(memory, root, addr, 0);
            &&& after.len() == memory.len()
            &&& forall|location: int|
                0 <= location < memory.len() && location != top ==> after[location]
                    == memory[location]
            &&& forall|depth: nat|
                1 <= depth <= 4 && 0 <= entry_location(memory, root, addr, depth) < memory.len()
                    && entry_location(memory, root, addr, depth) != top ==> after[entry_location(
                    memory,
                    root,
                    addr,
                    depth,
                )] == entry_value(memory, root, addr, depth)
        }),
{
    let vm = live_path(memory, root, addr, request.pid);
    let after = overwritten(memory, vm, request, 5);
    let top = entry_location(memory, root, addr, 0);
    lemma_path_in_bounds(memory, root, addr, request.pid);
    lemma_location_in_bounds(memory, root, addr, 0);
    assert forall|location: int|
        0 <= location < memory.len() && location != top implies after[location]
        == memory[location] by {
        lemma_only_selected_levels_change(memory, vm, request, 5, location);
        if after[location] != memory[location] {
            let level = choose|level: Level|
                level.depth() < 5 && selected(vm, request, level) && (#[trigger] vm.slot(
                    level,
                )).unwrap().location == location && after[location] == request.raw(level);
            lemma_single_level_mask(Level::Top, level);
            assert(level == Level::Top);
            assert(vm.slot(Level::Top).unwrap().location == top);
        }
    }
    lemma_only_selected_levels_change(memory, vm, request, 5, top);
}

/// The written value keeps the entry of `level` a link of the same path: it
/// resolves, and above the leaf it names the table that the old value named.
pub open spec fn keeps_link(memory: Seq<u64>, root: u64, addr: u64, level: Level, value: u64) -> bool {
    &&& probe_of(value, level, frame_count(memory)).resolves()
    &&& level != Level::Leaf ==> frame_of(value) == frame_of(
        entry_value(memory, root, addr, level.depth()),
    )
}

/// No other entry that the walk of `addr` reads is stored where the entry
/// of `level` is stored.
pub open spec fn unshared(memory: Seq<u64>, root: u64, addr: u64, level: Level) -> bool {
    forall|depth: nat|
        depth <= 4 && depth <= resolved_depth(memory, root, addr) && depth != level.depth()
            ==> #[trigger] entry_location(memory, root, addr, depth) != entry_location(
            memory,
            root,
            addr,
            level.depth(),
        )
}

/// After the entry of `level` was replaced by a value that keeps the link,
/// the walk of `addr` reads the same locations as before, and finds the new
/// value at `level` and the old values elsewhere.
proof fn lemma_same_walk(
    memory: Seq<u64>,
    root: u64,
    addr: u64,
    level: Level,
    value: u64,
    depth: nat,
)
    requires
        (root + 1) * ENTRIES_PER_TABLE <= memory.len(),
        level.depth() < resolved_depth(memory, root, addr),
        keeps_link(memory, root, addr, level, value),
        unshared(memory, root, addr, level),
        depth <= 4,
        depth <= resolved_depth(memory, root, addr),
    ensures
        ({
            let after = memory.update(entry_location(memory, root, addr, level.depth()), value);
            &&& entry_location(after, root, addr, depth) == entry_location(memory, root, addr, depth)
            &&& entry_value(after, root, addr, depth) == if depth == level.depth() {
                value
            } else {
                entry_value(memory, root, addr, depth)
            }
            &&& reaches(after, root, addr, depth) == reaches(memory, root, addr, depth)
        }),
    decreases depth,
{
    let count = resolved_depth(memory, root, addr);
    let target = entry_location(memory, root, addr, level.depth());
    let after = memory.update(target, value);
    lemma_reaches_above(memory, root, addr, count);
    lemma_location_in_bounds(memory, root, addr, level.depth());
    lemma_location_in_bounds(memory, root, addr, depth);
    assert(Level::at(level.depth()) == level);
    assert(frame_count(after) == frame_count(memory));
    if depth > 0 {
        let above = (depth - 1) as nat;
        lemma_same_walk(memory, root, addr, level, value, above);
        assert(resolves_at(memory, root, addr, above));
        if above == level.depth() {
            assert(level != Level::Leaf);
        }
        assert(frame_of(entry_value(after, root, addr, above)) == frame_of(
            entry_value(memory, root, addr, above),
        ));
    }
    assert(entry_location(after, root, addr, depth) == entry_location(memory, root, addr, depth));
    if depth != level.depth() {
        assert(entry_location(memory, root, addr, depth) != target);
    }
}

/// Round trip: after a write that asks for one resolved level only, with a
/// value that keeps the link, a read of the same address resolves as many
/// levels as before, returns the written value at that level, and returns
/// every other level unchanged.
pub proof fn lemma_write_then_read(
    memory: Seq<u64>,
    root: u64,
    addr: u64,
    request: ptedit_entry_t,
    level: Level,
)
    requires
        (root + 1) * ENTRIES_PER_TABLE <= memory.len() <= usize::MAX,
        request.vaddr == addr,
        request.valid == level.mask(),
        level.depth() < resolved_depth(memory, root, addr),
        keeps_link(memory, root, addr, level, request.raw(level)),
        unshared(memory, root, addr, level),
    ensures
        ({
            let before = live_path(memory, root, addr, request.pid);
            let after = overwritten(memory, before, request, 5);
            let again = live_path(after, root, addr, request.pid);
            &&& again.valid == before.valid
            &&& again.slot(level).is_some()
            &&& again.slot(level).unwrap().raw == request.raw(level)
            &&& forall|other: Level| other != level ==> again.slot(other) == before.slot(other)
        }),
{
    let count = resolved_depth(memory, root, addr);
    let before = live_path(memory, root, addr, request.pid);
    let target = entry_location(memory, root, addr, level.depth());
    let value = request.raw(level);
    lemma_location_in_bounds_within(memory, root, addr, level.depth());
    assert(Level::at(level.depth()) == level);
    lemma_prefix_mask_levels(count, level);
    lemma_single_level_mask(level, level);
    assert(selected(before, request, level));
    assert forall|other: Level| other != level implies !selected(before, request, other) by {
        lemma_single_level_mask(level, other);
    }
    reveal_with_fuel(overwritten, 6);
    let after = overwritten(memory, before, request, 5);
    assert(after == memory.update(target, value));
    lemma_same_walk(memory, root, addr, level, value, 0);
    lemma_same_walk(memory, root, addr, level, value, 1);
    if count >= 2 {
        lemma_same_walk(memory, root, addr, level, value, 2);
    }
    if count >= 3 {
        lemma_same_walk(memory, root, addr, level, value, 3);
    }
    if count >= 4 {
        lemma_same_walk(memory, root, addr, level, value, 4);
    }
    lemma_reaches_above(memory, root, addr, count);
    if count < 5 {
        lemma_unreached_below(after, root, addr, count, 4);
    }
    assert(resolved_depth(after, root, addr) == count);
}

/// The entry at a depth that the live path resolved lies inside memory.
proof fn lemma_location_in_bounds_within(memory: Seq<u64>, root: u64, addr: u64, depth: nat)
    requires
        (root + 1) * ENTRIES_PER_TABLE <= memory.len(),
        depth < resolved_depth(memory, root, addr),
    ensures
        0 <= entry_location(memory, root, addr, depth) < memory.len(),
{
    lemma_reaches_above(memory, root, addr, resolved_depth(memory, root, addr));
    lemma_location_in_bounds(memory, root, addr, depth);
}

/// Process identifier 0 stands for the caller: it resolves to the same
/// address space, or fails in the same way, as the caller's own identifier.
pub proof fn lemma_zero_pid_is_caller(machine: MachineView)
    requires
        machine.wf(),
    ensures
        machine.task_of(0) == Some(machine.current as int),
        machine.located(0) == machine.located(machine.tasks[machine.current as int].pid),
        machine.located(0) == match descriptor_of(machine.tasks[machine.current as int]) {
            None => Err::<usize, Error>(Error::NoAddressSpace),
            Some(mm) => Ok(mm),
        },
{
    let own = machine.tasks[machine.current as int].pid;
    if own != 0 {
        lemma_task_of_unique(machine, own, machine.current as int);
    }
}

/// A process identifier that no live task carries fails a read with
/// `ProcessLookupFailure`, and leaves the machine as it was: no lock is
/// taken, and nothing is written. A write with such an identifier fails too,
/// as for every target without an address space, and touches nothing either.
pub proof fn lemma_unknown_pid(
    device: PtEditor,
    machine: MachineView,
    cmd: u32,
    record: ptedit_entry_t,
    inbound: Transfer,
)
    requires
        record.pid != 0,
        !machine.has_pid(record.pid),
        transfer_outcome(device.record_size, inbound).is_ok(),
    ensures
        machine.located(record.pid) == Err::<usize, Error>(Error::ProcessLookupFailure),
        device.ioctl_effect(machine, cmd, record, inbound) == machine,
        command(cmd) == Command::ReadTranslation ==> device.ioctl_reply(machine, cmd, record, inbound)
            == Err::<Reply, Error>(Error::ProcessLookupFailure),
        command(cmd) == Command::WriteTranslation ==> device.ioctl_reply(
            machine,
            cmd,
            record,
            inbound,
        ) == Err::<Reply, Error>(Error::NoAddressSpace),
{
}

/// Whatever a command does, every lock is given back before it returns:
/// no descriptor has more outstanding holds afterwards than before. A read
/// leaves memory untouched, and while the caller holds the lock itself the
/// engine takes none.
pub proof fn lemma_lock_is_released(
    device: PtEditor,
    machine: MachineView,
    cmd: u32,
    record: ptedit_entry_t,
    inbound: Transfer,
)
    requires
        machine.wf(),
    ensures
        ({
            let after = device.ioctl_effect(machine, cmd, record, inbound);
            &&& after.mms.len() == machine.mms.len()
            &&& after.tasks == machine.tasks
            &&& after.current == machine.current
            &&& forall|k: int|
                0 <= k < machine.mms.len() ==> (#[trigger] after.mms[k]).lock.readers
                    == machine.mms[k].lock.readers && after.mms[k].root == machine.mms[k].root
            &&& command(cmd) != Command::WriteTranslation ==> after.memory == machine.memory
            &&& device.mm_is_locked ==> after.mms == machine.mms
        }),
{
    let after = device.ioctl_effect(machine, cmd, record, inbound);
    if command(cmd) != Command::Other && transfer_outcome(device.record_size, inbound).is_ok() {
        match machine.located(record.pid) {
            Err(_) => {},
            Ok(mm) => {
                lemma_located_exists(machine, record.pid);
                assert(machine.mm_ok(machine.mms[mm as int]));
                assert(after.mms == machine.after_scope(mm as int, !device.mm_is_locked).mms);
                if device.mm_is_locked {
                    assert(after.mms =~= machine.mms);
                }
            },
        }
    }
}

/// The operation is in the part of a call that runs under the lock which it
/// asked to acquire.
pub open spec fn under_lock(operation: Operation) -> bool {
    operation.lock && (operation.pending is Probe || operation.pending is Store)
}

/// Once the lock is acquired, every way out leads through its release:
/// after the acquisition the operation is under the lock, and from there a
/// step either stays under the lock or asks to release the lock of the same
/// address space. It never returns or sends a reply while it holds the lock.
pub proof fn lemma_release_on_every_way_out(operation: Operation, event: Event)
    requires
        operation.lock,
        operation.pending is Acquire || under_lock(operation),
    ensures
        ({
            let next = operation.step(event);
            &&& next.lock
            &&& next.mm == operation.mm
            &&& operation.pending is Acquire ==> next == operation || under_lock(next)
            &&& under_lock(operation) ==> under_lock(next) || next.pending == Action::Release(
                operation.mm,
            )
        }),
{
}

/// While the caller holds the lock itself, the operation asks neither to
/// acquire nor to release it.
pub proof fn lemma_caller_held_lock_is_left_alone(operation: Operation, event: Event)
    requires
        !operation.lock,
        !(operation.pending is Acquire),
        !(operation.pending is Release),
    ensures
        ({
            let next = operation.step(event);
            &&& !next.lock
            &&& !(next.pending is Acquire)
            &&& !(next.pending is Release)
        }),
{
}

/// A lookup that finds no task ends the call on the spot, before any lock
/// is asked for: a read fails with `ProcessLookupFailure`.
pub proof fn lemma_failed_lookup_ends_the_call(operation: Operation)
    requires
        operation.pending is CurrentTask || operation.pending is FindTask,
    ensures
        operation.step(Event::Task(None)).pending == Action::Return(
            Err(
                if operation.command == Command::WriteTranslation {
                    Error::NoAddressSpace
                } else {
                    Error::ProcessLookupFailure
                },
            ),
        ),
{
}

} // verus!
