//! The state of one walk down the hierarchy: which levels have been
//! resolved so far, where their entries live, and what they held.

use vstd::prelude::*;
use crate::entry::{P4dPml4Union, PagingDepth, PgdPml5Union, PmdPdUnion, PudPdptUnion, ptedit_entry_t};
use crate::level::{has_level, lemma_prefix_mask_levels, prefix_mask, Level};

verus! {

/// What a look at the entry of one level found.
#[derive(Clone, Copy, Debug, PartialEq, Eq, Structural)]
pub struct Probe {
    /// The raw value of the entry.
    pub raw: u64,
    /// The entry is absent.
    pub empty: bool,
    /// The entry is present but does not lead to a table.
    pub malformed: bool,
    /// The entry is itself a terminal large mapping.
    pub large: bool,
}

impl Probe {
    /// An entry resolves when it is neither empty nor malformed nor a large mapping.
    pub open spec fn resolves(self) -> bool {
        !self.empty && !self.malformed && !self.large
    }

    /// Decides whether the entry resolves.
    pub fn is_resolved(&self) -> (ok: bool)
        ensures
            ok == self.resolves(),
    {
        !self.empty && !self.malformed && !self.large
    }
}

/// A handle on a live entry: where it is stored and the raw value read
/// there. It means something only while the address space stays locked.
#[derive(Clone, Copy, Debug, PartialEq, Eq, Structural)]
pub struct Slot {
    pub location: usize,
    pub raw: u64,
}

/// The live path of one virtual address, as far as it resolved.
#[allow(non_camel_case_types)]
#[derive(Clone, Copy, Debug, PartialEq, Eq, Structural)]
pub struct vm_t {
    /// Target process; 0 stands for the caller.
    pub pid: u64,
    pub pgd: Option<Slot>,
    pub p4d: Option<Slot>,
    pub pud: Option<Slot>,
    pub pmd: Option<Slot>,
    pub pte: Option<Slot>,
    /// Validity mask: one bit per resolved level.
    pub valid: u8,
}

impl vm_t {
    /// The handle held for a level.
    pub open spec fn slot(self, level: Level) -> Option<Slot> {
        match level {
            Level::Top => self.pgd,
            Level::Level4 => self.p4d,
            Level::Level3 => self.pud,
            Level::Level2 => self.pmd,
            Level::Leaf => self.pte,
        }
    }

    /// How many levels, counted from the top, hold a handle without a gap.
    pub open spec fn count(self) -> nat {
        if self.pgd.is_none() {
            0
        } else if self.p4d.is_none() {
            1
        } else if self.pud.is_none() {
            2
        } else if self.pmd.is_none() {
            3
        } else if self.pte.is_none() {
            4
        } else {
            5
        }
    }

    /// The path is well formed: nothing is resolved below the first
    /// unresolved level, and the mask marks exactly the resolved levels.
    pub open spec fn wf(self) -> bool {
        &&& self.valid == prefix_mask(self.count())
        &&& forall|level: Level| #[trigger] self.slot(level).is_some() <==> level.depth() < self.count()
    }

    /// The path with one more level resolved.
    pub open spec fn with_slot(self, level: Level, slot: Slot) -> vm_t {
        let valid = prefix_mask(level.depth() + 1);
        match level {
            Level::Top => vm_t { pgd: Some(slot), valid, ..self },
            Level::Level4 => vm_t { p4d: Some(slot), valid, ..self },
            Level::Level3 => vm_t { pud: Some(slot), valid, ..self },
            Level::Level2 => vm_t { pmd: Some(slot), valid, ..self },
            Level::Leaf => vm_t { pte: Some(slot), valid, ..self },
        }
    }

    /// The path after the next level in order was probed: it grows by that
    /// level if the entry resolves. A probe of any other level changes
    /// nothing.
    pub open spec fn after_probe(self, level: Level, location: usize, probe: Probe) -> vm_t {
        if level.depth() == self.count() && probe.resolves() {
            self.with_slot(level, Slot { location, raw: probe.raw })
        } else {
            self
        }
    }

    /// The level to probe after this one: the next deeper level if the
    /// probed level was the one due and its entry resolves, else none.
    pub open spec fn next_after(self, level: Level, probe: Probe) -> Option<Level> {
        if level.depth() == self.count() && probe.resolves() && level != Level::Leaf {
            Some(Level::at(level.depth() + 1))
        } else {
            None
        }
    }

    /// On a well-formed path every level below the first unresolved one is
    /// unresolved as well.
    pub proof fn lemma_gapless(self)
        requires
            self.wf(),
        ensures
            self.count() <= 5,
            self.pgd.is_some() <==> self.count() > 0,
            self.p4d.is_some() <==> self.count() > 1,
            self.pud.is_some() <==> self.count() > 2,
            self.pmd.is_some() <==> self.count() > 3,
            self.pte.is_some() <==> self.count() > 4,
    {
        assert(self.slot(Level::Top).is_some() <==> Level::Top.depth() < self.count());
        assert(self.slot(Level::Level4).is_some() <==> Level::Level4.depth() < self.count());
        assert(self.slot(Level::Level3).is_some() <==> Level::Level3.depth() < self.count());
        assert(self.slot(Level::Level2).is_some() <==> Level::Level2.depth() < self.count());
        assert(self.slot(Level::Leaf).is_some() <==> Level::Leaf.depth() < self.count());
    }

    /// A path on which nothing is resolved yet, for the caller's own process.
    pub fn new() -> (vm: vm_t)
        ensures
            vm == (vm_t { pid: 0, pgd: None, p4d: None, pud: None, pmd: None, pte: None, valid: 0 }),
            vm.wf(),
            vm.count() == 0,
    {
        vm_t { pid: 0, pgd: None, p4d: None, pud: None, pmd: None, pte: None, valid: 0 }
    }

    /// Reads the handle held for a level.
    pub fn handle(&self, level: Level) -> (slot: Option<Slot>)
        ensures
            slot == self.slot(level),
    {
        match level {
            Level::Top => self.pgd,
            Level::Level4 => self.p4d,
            Level::Level3 => self.pud,
            Level::Level2 => self.pmd,
            Level::Leaf => self.pte,
        }
    }

    /// Counts the levels resolved from the top.
    pub fn resolved_levels(&self) -> (n: usize)
        ensures
            n == self.count(),
    {
        if self.pgd.is_none() {
            0
        } else if self.p4d.is_none() {
            1
        } else if self.pud.is_none() {
            2
        } else if self.pmd.is_none() {
            3
        } else if self.pte.is_none() {
            4
        } else {
            5
        }
    }

    /// Checks that the path is well formed.
    pub fn is_wf(&self) -> (ok: bool)
        ensures
            ok == self.wf(),
    {
        let n: usize = self.resolved_levels();
        let gapless: bool = (self.p4d.is_none() || n > 1) && (self.pud.is_none() || n > 2) && (
        self.pmd.is_none() || n > 3) && (self.pte.is_none() || n > 4);
        let expected: u8 = if n == 0 {
            0
        } else if n == 1 {
            1
        } else if n == 2 {
            3
        } else if n == 3 {
            7
        } else if n == 4 {
            15
        } else {
            31
        };
        proof {
            if gapless {
                assert forall|level: Level| #[trigger]
                    self.slot(level).is_some() <==> level.depth() < self.count() by {}
            } else {
                assert(!(self.slot(Level::Level4).is_some() <==> Level::Level4.depth() < self.count())
                    || !(self.slot(Level::Level3).is_some() <==> Level::Level3.depth() < self.count())
                    || !(self.slot(Level::Level2).is_some() <==> Level::Level2.depth() < self.count())
                    || !(self.slot(Level::Leaf).is_some() <==> Level::Leaf.depth() < self.count()));
            }
        }
        gapless && self.valid == expected
    }

    /// Takes in what the probe of one level found and says which level to
    /// probe next. The level due is the first unresolved one: if its entry
    /// resolves, the path grows by it and the walk goes one level down;
    /// otherwise, or after the leaf, the walk is over.
    pub fn record(&mut self, level: Level, location: usize, probe: Probe) -> (next: Option<Level>)
        requires
            old(self).wf(),
        ensures
            *final(self) == old(self).after_probe(level, location, probe),
            next == old(self).next_after(level, probe),
            final(self).wf(),
            final(self).count() == if level.depth() == old(self).count() && probe.resolves() {
                old(self).count() + 1
            } else {
                old(self).count()
            },
    {
        let due: usize = self.resolved_levels();
        let slot = Slot { location, raw: probe.raw };
        if !probe.is_resolved() {
            return None;
        }
        proof {
            self.lemma_gapless();
        }
        match level {
            Level::Top => {
                if due != 0 {
                    return None;
                }
                self.pgd = Some(slot);
                self.valid = 1;
            },
            Level::Level4 => {
                if due != 1 {
                    return None;
                }
                self.p4d = Some(slot);
                self.valid = 3;
            },
            Level::Level3 => {
                if due != 2 {
                    return None;
                }
                self.pud = Some(slot);
                self.valid = 7;
            },
            Level::Level2 => {
                if due != 3 {
                    return None;
                }
                self.pmd = Some(slot);
                self.valid = 15;
            },
            Level::Leaf => {
                if due != 4 {
                    return None;
                }
                self.pte = Some(slot);
                self.valid = 31;
            },
        }
        assert forall|l: Level| #[trigger] self.slot(l).is_some() <==> l.depth() < self.count() by {
            assert(old(self).slot(l).is_some() <==> l.depth() < old(self).count());
        }
        level.deeper()
    }
}

/// The record as it is handed back after a walk: the mask is that of the
/// path, each resolved level holds the live raw value under the name that the
/// paging depth calls for, and each unresolved level keeps what the record held.
pub open spec fn user_view(user: ptedit_entry_t, vm: vm_t, depth: PagingDepth) -> ptedit_entry_t {
    ptedit_entry_t {
        pid: user.pid,
        vaddr: user.vaddr,
        pgd: match vm.pgd {
            Some(slot) => PgdPml5Union::named(depth, slot.raw),
            None => user.pgd,
        },
        p4d: match vm.p4d {
            Some(slot) => P4dPml4Union::named(depth, slot.raw),
            None => user.p4d,
        },
        pud: match vm.pud {
            Some(slot) => PudPdptUnion::named(depth, slot.raw),
            None => user.pud,
        },
        pmd: match vm.pmd {
            Some(slot) => PmdPdUnion::named(depth, slot.raw),
            None => user.pmd,
        },
        pte: match vm.pte {
            Some(slot) => slot.raw,
            None => user.pte,
        },
        valid: vm.valid,
    }
}

/// Copies a resolved path into the caller's record.
pub fn vm_to_user(user: &mut ptedit_entry_t, vm: &vm_t, depth: PagingDepth)
    requires
        vm.wf(),
    ensures
        *final(user) == user_view(*old(user), *vm, depth),
        forall|level: Level| #[trigger]
            final(user).reported(level) == match vm.slot(level) {
                Some(slot) => Some(slot.raw),
                None => None,
            },
{
    if let Some(slot) = vm.p4d {
        user.p4d = P4dPml4Union::with_depth(depth, slot.raw);
    }
    if let Some(slot) = vm.pgd {
        user.pgd = PgdPml5Union::with_depth(depth, slot.raw);
    }
    if let Some(slot) = vm.pmd {
        user.pmd = PmdPdUnion::with_depth(depth, slot.raw);
    }
    if let Some(slot) = vm.pud {
        user.pud = PudPdptUnion::with_depth(depth, slot.raw);
    }
    if let Some(slot) = vm.pte {
        user.pte = slot.raw;
    }
    user.valid = vm.valid;
    proof {
        assert forall|level: Level| #[trigger]
            user.reported(level) == match vm.slot(level) {
                Some(slot) => Some(slot.raw),
                None => None,
            } by {
            lemma_prefix_mask_levels(vm.count(), level);
            assert(vm.slot(level).is_some() <==> level.depth() < vm.count());
            assert(has_level(user.valid, level) <==> vm.slot(level).is_some());
        }
    }
}

} // verus!
