//! The paging tables in physical memory: the format of an entry, the walk
//! that follows one virtual address from the root table to the leaf, and the
//! overwriting of the entries found on that path.
//!
//! Memory is a sequence of 64-bit words. Frame `f` is the 512 words from
//! `512 * f` on, and a table fills one frame. An entry of value 0 is empty.
//! Above the leaf, bit 0 marks an entry as present, bit 7 marks it as a
//! terminal large mapping, and bits 12 to 51 give the frame of the table one
//! level down.

use vstd::prelude::*;
use crate::entry::ptedit_entry_t;
use crate::level::{has_level, mask_has, prefix_mask, table_index, Level, ENTRIES_PER_TABLE};
use crate::walk::{vm_t, Probe, Slot};

verus! {

/// Bit 0: the entry is present.
pub const ENTRY_PRESENT: u64 = 0x1;

/// Bit 7: the entry maps a large page instead of pointing to a table.
pub const ENTRY_LARGE: u64 = 0x80;

/// Width of the frame number in an entry.
pub const FRAME_MASK: u64 = 0xff_ffff_ffff;

/// The frame number held in bits 12 to 51 of an entry.
pub open spec fn frame_of(raw: u64) -> u64 {
    (raw >> 12) & FRAME_MASK
}

/// How many whole frames a memory holds.
pub open spec fn frame_count(memory: Seq<u64>) -> nat {
    memory.len() / (ENTRIES_PER_TABLE as nat)
}

/// What the entry `raw` of the given level is, in a memory of `frames` frames.
///
/// Above the leaf a non-empty entry is malformed when it is not present or
/// names a frame outside memory, and large when bit 7 is set. A leaf entry
/// is never malformed or large.
pub open spec fn probe_of(raw: u64, level: Level, frames: nat) -> Probe {
    Probe {
        raw,
        empty: raw == 0,
        malformed: raw != 0 && level != Level::Leaf && (raw & ENTRY_PRESENT == 0 || frame_of(raw)
            >= frames),
        large: level != Level::Leaf && raw & ENTRY_LARGE != 0,
    }
}

/// Where in memory the entry of depth `depth` on the path of `addr` is
/// stored: in the root table at depth 0, below that in the table that the
/// entry one level up names.
pub open spec fn entry_location(memory: Seq<u64>, root: u64, addr: u64, depth: nat) -> int
    decreases depth,
{
    let table = if depth == 0 {
        root as int
    } else {
        frame_of(memory[entry_location(memory, root, addr, (depth - 1) as nat)]) as int
    };
    table * ENTRIES_PER_TABLE + table_index(addr, Level::at(depth))
}

/// The raw value of the entry of depth `depth` on the path of `addr`.
pub open spec fn entry_value(memory: Seq<u64>, root: u64, addr: u64, depth: nat) -> u64 {
    memory[entry_location(memory, root, addr, depth)]
}

/// The entry of depth `depth` on the path of `addr` resolves.
pub open spec fn resolves_at(memory: Seq<u64>, root: u64, addr: u64, depth: nat) -> bool {
    probe_of(entry_value(memory, root, addr, depth), Level::at(depth), frame_count(memory)).resolves()
}

/// Every entry on the path of `addr` from the top down to depth `depth` resolves.
pub open spec fn reaches(memory: Seq<u64>, root: u64, addr: u64, depth: nat) -> bool
    decreases depth,
{
    (depth == 0 || reaches(memory, root, addr, (depth - 1) as nat)) && resolves_at(
        memory,
        root,
        addr,
        depth,
    )
}

/// How many levels of the path of `addr` resolve, counted from the top
/// down to the first entry that does not.
pub open spec fn resolved_depth(memory: Seq<u64>, root: u64, addr: u64) -> nat {
    if !reaches(memory, root, addr, 0) {
        0
    } else if !reaches(memory, root, addr, 1) {
        1
    } else if !reaches(memory, root, addr, 2) {
        2
    } else if !reaches(memory, root, addr, 3) {
        3
    } else if !reaches(memory, root, addr, 4) {
        4
    } else {
        5
    }
}

/// The handle on the entry of depth `depth`, if that depth lies within the
/// first `count` levels.
pub open spec fn slot_within(memory: Seq<u64>, root: u64, addr: u64, depth: nat, count: nat) -> Option<
    Slot,
> {
    if depth < count {
        Some(
            Slot {
                location: entry_location(memory, root, addr, depth) as usize,
                raw: entry_value(memory, root, addr, depth),
            },
        )
    } else {
        None
    }
}

/// The path of `addr` cut off after its first `count` levels.
pub open spec fn path_prefix(memory: Seq<u64>, root: u64, addr: u64, pid: u64, count: nat) -> vm_t {
    vm_t {
        pid,
        pgd: slot_within(memory, root, addr, 0, count),
        p4d: slot_within(memory, root, addr, 1, count),
        pud: slot_within(memory, root, addr, 2, count),
        pmd: slot_within(memory, root, addr, 3, count),
        pte: slot_within(memory, root, addr, 4, count),
        valid: prefix_mask(count),
    }
}

/// The live path of `addr`: a handle for every level down to the first
/// entry that is empty, malformed or a large mapping, and none from there on.
pub open spec fn live_path(memory: Seq<u64>, root: u64, addr: u64, pid: u64) -> vm_t {
    path_prefix(memory, root, addr, pid, resolved_depth(memory, root, addr))
}

/// A level is overwritten when the live path resolved it and the caller's
/// record asks for it.
pub open spec fn selected(vm: vm_t, request: ptedit_entry_t, level: Level) -> bool {
    vm.slot(level).is_some() && has_level(vm.valid, level) && has_level(request.valid, level)
}

/// The write that a level calls for, as location and raw value.
pub open spec fn write_for(vm: vm_t, request: ptedit_entry_t, level: Level) -> Option<(usize, u64)> {
    if selected(vm, request, level) {
        Some((vm.slot(level).unwrap().location, request.raw(level)))
    } else {
        None
    }
}

/// Memory after the selected levels among the first `count` were
/// overwritten, from the top down, each with the raw value of the record.
pub open spec fn overwritten(memory: Seq<u64>, vm: vm_t, request: ptedit_entry_t, count: nat) -> Seq<
    u64,
>
    decreases count,
{
    if count == 0 {
        memory
    } else {
        let before = overwritten(memory, vm, request, (count - 1) as nat);
        let level = Level::at((count - 1) as nat);
        if selected(vm, request, level) {
            before.update(vm.slot(level).unwrap().location as int, request.raw(level))
        } else {
            before
        }
    }
}

/// Every handle of the path points into a memory of `len` words.
pub open spec fn in_bounds(vm: vm_t, len: nat) -> bool {
    forall|level: Level| (#[trigger] vm.slot(level)) matches Some(slot) ==> slot.location < len
}

/// Extracts the frame number of an entry.
pub fn frame_number(raw: u64) -> (frame: u64)
    ensures
        frame == frame_of(raw),
{
    (raw >> 12) & FRAME_MASK
}

/// Classifies an entry of the given level in a memory of `frames` frames.
pub fn classify(raw: u64, level: Level, frames: usize) -> (probe: Probe)
    ensures
        probe == probe_of(raw, level, frames as nat),
{
    let above_leaf: bool = level != Level::Leaf;
    let dangling: bool = (raw & ENTRY_PRESENT) == 0 || frame_number(raw) >= frames as u64;
    Probe {
        raw,
        empty: raw == 0,
        malformed: raw != 0 && above_leaf && dangling,
        large: above_leaf && (raw & ENTRY_LARGE) != 0,
    }
}

/// Once the levels above `depth` resolve, the number of resolved levels is
/// `depth` if the entry at `depth` does not resolve, and one more if it is
/// the leaf and does.
pub proof fn lemma_walk_ends(memory: Seq<u64>, root: u64, addr: u64, depth: nat)
    requires
        depth <= 4,
        depth > 0 ==> reaches(memory, root, addr, (depth - 1) as nat),
    ensures
        !reaches(memory, root, addr, depth) ==> resolved_depth(memory, root, addr) == depth,
        depth == 4 && reaches(memory, root, addr, depth) ==> resolved_depth(memory, root, addr) == 5,
{
    lemma_reaches_above(memory, root, addr, depth);
    if depth < 4 && !reaches(memory, root, addr, depth) {
        lemma_unreached_below(memory, root, addr, depth, 4);
    }
}

/// A path that reaches a depth reaches every depth above it.
pub proof fn lemma_reaches_above(memory: Seq<u64>, root: u64, addr: u64, depth: nat)
    requires
        depth > 0 ==> reaches(memory, root, addr, (depth - 1) as nat),
    ensures
        forall|above: nat| above < depth ==> reaches(memory, root, addr, above),
    decreases depth,
{
    if depth > 1 {
        lemma_reaches_above(memory, root, addr, (depth - 1) as nat);
    }
}

/// A path that does not reach a depth reaches no depth below it.
pub proof fn lemma_unreached_below(memory: Seq<u64>, root: u64, addr: u64, depth: nat, below: nat)
    requires
        !reaches(memory, root, addr, depth),
        depth <= below,
    ensures
        forall|d: nat| depth <= d <= below ==> !reaches(memory, root, addr, d),
    decreases below,
{
    if depth < below {
        lemma_unreached_below(memory, root, addr, depth, (below - 1) as nat);
        assert(!reaches(memory, root, addr, (below - 1) as nat));
        assert(!reaches(memory, root, addr, below));
    }
}

/// Every entry that the live path resolves lies inside memory, provided the
/// root table does.
pub proof fn lemma_path_in_bounds(memory: Seq<u64>, root: u64, addr: u64, pid: u64)
    requires
        (root + 1) * ENTRIES_PER_TABLE <= memory.len(),
    ensures
        in_bounds(live_path(memory, root, addr, pid), memory.len()),
        forall|depth: nat|
            depth < resolved_depth(memory, root, addr) ==> 0 <= #[trigger] entry_location(
                memory,
                root,
                addr,
                depth,
            ) < memory.len(),
{
    let count = resolved_depth(memory, root, addr);
    assert forall|depth: nat| depth < count implies 0 <= #[trigger] entry_location(
        memory,
        root,
        addr,
        depth,
    ) < memory.len() by {
        lemma_reaches_above(memory, root, addr, count);
        lemma_location_in_bounds(memory, root, addr, depth);
    }
    let vm = live_path(memory, root, addr, pid);
    assert forall|level: Level| (#[trigger] vm.slot(level)).is_some() implies vm.slot(
        level,
    ).unwrap().location < memory.len() by {
        assert(level.depth() < count);
        assert(Level::at(level.depth()) == level);
        lemma_reaches_above(memory, root, addr, count);
        lemma_location_in_bounds(memory, root, addr, level.depth());
    }
}

/// The entry at `depth` lies inside memory when the root table does and
/// every level above `depth` resolves.
pub proof fn lemma_location_in_bounds(memory: Seq<u64>, root: u64, addr: u64, depth: nat)
    requires
        (root + 1) * ENTRIES_PER_TABLE <= memory.len(),
        depth <= 4,
        depth > 0 ==> reaches(memory, root, addr, (depth - 1) as nat),
    ensures
        0 <= entry_location(memory, root, addr, depth) < memory.len(),
{
    let index = table_index(addr, Level::at(depth));
    let shifted = addr >> Level::at(depth).shift();
    assert(shifted & 0x1ff < 512) by (bit_vector);
    assert(index < 512);
    if depth > 0 {
        let above = entry_value(memory, root, addr, (depth - 1) as nat);
        assert(resolves_at(memory, root, addr, (depth - 1) as nat));
        assert(frame_of(above) < frame_count(memory));
    }
}

/// Decides the write that one level calls for: where the entry is stored
/// and the raw value to store there, or nothing if the path did not resolve
/// the level or the record does not ask for it.
pub fn planned_write(vm: &vm_t, request: &ptedit_entry_t, level: Level) -> (write: Option<
    (usize, u64),
>)
    ensures
        write == write_for(*vm, *request, level),
{
    match vm.handle(level) {
        Some(slot) => {
            if mask_has(vm.valid, level) && mask_has(request.valid, level) {
                Some((slot.location, request.value(level)))
            } else {
                None
            }
        },
        None => None,
    }
}

/// Overwriting keeps the size of memory.
pub proof fn lemma_overwritten_len(memory: Seq<u64>, vm: vm_t, request: ptedit_entry_t, count: nat)
    requires
        in_bounds(vm, memory.len()),
    ensures
        overwritten(memory, vm, request, count).len() == memory.len(),
    decreases count,
{
    if count > 0 {
        lemma_overwritten_len(memory, vm, request, (count - 1) as nat);
        let level = Level::at((count - 1) as nat);
        if selected(vm, request, level) {
            assert(vm.slot(level).is_some());
        }
    }
}

/// Levels that are not selected leave memory as it is: if none of the
/// levels from depth `from` up to `count` is selected, overwriting the first
/// `count` levels gives what overwriting the first `from` gives.
pub proof fn lemma_unselected_skipped(
    memory: Seq<u64>,
    vm: vm_t,
    request: ptedit_entry_t,
    from: nat,
    count: nat,
)
    requires
        from <= count,
        forall|depth: nat| from <= depth < count ==> !selected(vm, request, #[trigger] Level::at(depth)),
    ensures
        overwritten(memory, vm, request, count) == overwritten(memory, vm, request, from),
    decreases count,
{
    if from < count {
        lemma_unselected_skipped(memory, vm, request, from, (count - 1) as nat);
        assert(!selected(vm, request, Level::at((count - 1) as nat)));
    }
}

} // verus!
