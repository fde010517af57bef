//! The translation record exchanged with the caller, and the two-named raw
//! values of its four upper levels.

use vstd::prelude::*;
use crate::level::{has_level, mask_has, Level};

verus! {

/// How many levels the host's paging hardware walks. It is fixed when the
/// device is set up and decides under which of its two names an upper-level
/// value is reported.
#[derive(Clone, Copy, Debug, PartialEq, Eq, Structural)]
pub enum PagingDepth {
    FourLevel,
    FiveLevel,
}

/// Raw value of a top-level entry, under either of its two names.
#[derive(Clone, Copy, Debug, PartialEq, Eq, Structural)]
pub enum PgdPml5Union {
    Pgd(u64),
    Pml5(u64),
}

/// Raw value of a level-4 entry, under either of its two names.
#[derive(Clone, Copy, Debug, PartialEq, Eq, Structural)]
pub enum P4dPml4Union {
    P4d(u64),
    Pml4(u64),
}

/// Raw value of a level-3 entry, under either of its two names.
#[derive(Clone, Copy, Debug, PartialEq, Eq, Structural)]
pub enum PudPdptUnion {
    Pud(u64),
    Pdpt(u64),
}

/// Raw value of a level-2 entry, under either of its two names.
#[derive(Clone, Copy, Debug, PartialEq, Eq, Structural)]
pub enum PmdPdUnion {
    Pmd(u64),
    Pd(u64),
}

impl PgdPml5Union {
    /// The raw value, whichever name it carries.
    pub open spec fn raw(self) -> u64 {
        match self {
            PgdPml5Union::Pgd(value) => value,
            PgdPml5Union::Pml5(value) => value,
        }
    }

    /// The value under the name that the paging depth calls for.
    pub open spec fn named(depth: PagingDepth, raw: u64) -> PgdPml5Union {
        match depth {
            PagingDepth::FourLevel => PgdPml5Union::Pgd(raw),
            PagingDepth::FiveLevel => PgdPml5Union::Pml5(raw),
        }
    }

    /// Reads the raw value.
    pub fn value(&self) -> (raw: u64)
        ensures
            raw == self.raw(),
    {
        match self {
            PgdPml5Union::Pgd(value) => *value,
            PgdPml5Union::Pml5(value) => *value,
        }
    }

    /// Wraps a raw value under the name that the paging depth calls for.
    pub fn with_depth(depth: PagingDepth, raw: u64) -> (entry: PgdPml5Union)
        ensures
            entry == PgdPml5Union::named(depth, raw),
            entry.raw() == raw,
    {
        match depth {
            PagingDepth::FourLevel => PgdPml5Union::Pgd(raw),
            PagingDepth::FiveLevel => PgdPml5Union::Pml5(raw),
        }
    }
}

impl P4dPml4Union {
    /// The raw value, whichever name it carries.
    pub open spec fn raw(self) -> u64 {
        match self {
            P4dPml4Union::P4d(value) => value,
            P4dPml4Union::Pml4(value) => value,
        }
    }

    /// The value under the name that the paging depth calls for.
    pub open spec fn named(depth: PagingDepth, raw: u64) -> P4dPml4Union {
        match depth {
            PagingDepth::FourLevel => P4dPml4Union::P4d(raw),
            PagingDepth::FiveLevel => P4dPml4Union::Pml4(raw),
        }
    }

    /// Reads the raw value.
    pub fn value(&self) -> (raw: u64)
        ensures
            raw == self.raw(),
    {
        match self {
            P4dPml4Union::P4d(value) => *value,
            P4dPml4Union::Pml4(value) => *value,
        }
    }

    /// Wraps a raw value under the name that the paging depth calls for.
    pub fn with_depth(depth: PagingDepth, raw: u64) -> (entry: P4dPml4Union)
        ensures
            entry == P4dPml4Union::named(depth, raw),
            entry.raw() == raw,
    {
        match depth {
            PagingDepth::FourLevel => P4dPml4Union::P4d(raw),
            PagingDepth::FiveLevel => P4dPml4Union::Pml4(raw),
        }
    }
}

impl PudPdptUnion {
    /// The raw value, whichever name it carries.
    pub open spec fn raw(self) -> u64 {
        match self {
            PudPdptUnion::Pud(value) => value,
            PudPdptUnion::Pdpt(value) => value,
        }
    }

    /// The value under the name that the paging depth calls for.
    pub open spec fn named(depth: PagingDepth, raw: u64) -> PudPdptUnion {
        match depth {
            PagingDepth::FourLevel => PudPdptUnion::Pud(raw),
            PagingDepth::FiveLevel => PudPdptUnion::Pdpt(raw),
        }
    }

    /// Reads the raw value.
    pub fn value(&self) -> (raw: u64)
        ensures
            raw == self.raw(),
    {
        match self {
            PudPdptUnion::Pud(value) => *value,
            PudPdptUnion::Pdpt(value) => *value,
        }
    }

    /// Wraps a raw value under the name that the paging depth calls for.
    pub fn with_depth(depth: PagingDepth, raw: u64) -> (entry: PudPdptUnion)
        ensures
            entry == PudPdptUnion::named(depth, raw),
            entry.raw() == raw,
    {
        match depth {
            PagingDepth::FourLevel => PudPdptUnion::Pud(raw),
            PagingDepth::FiveLevel => PudPdptUnion::Pdpt(raw),
        }
    }
}

impl PmdPdUnion {
    /// The raw value, whichever name it carries.
    pub open spec fn raw(self) -> u64 {
        match self {
            PmdPdUnion::Pmd(value) => value,
            PmdPdUnion::Pd(value) => value,
        }
    }

    /// The value under the name that the paging depth calls for.
    pub open spec fn named(depth: PagingDepth, raw: u64) -> PmdPdUnion {
        match depth {
            PagingDepth::FourLevel => PmdPdUnion::Pmd(raw),
            PagingDepth::FiveLevel => PmdPdUnion::Pd(raw),
        }
    }

    /// Reads the raw value.
    pub fn value(&self) -> (raw: u64)
        ensures
            raw == self.raw(),
    {
        match self {
            PmdPdUnion::Pmd(value) => *value,
            PmdPdUnion::Pd(value) => *value,
        }
    }

    /// Wraps a raw value under the name that the paging depth calls for.
    pub fn with_depth(depth: PagingDepth, raw: u64) -> (entry: PmdPdUnion)
        ensures
            entry == PmdPdUnion::named(depth, raw),
            entry.raw() == raw,
    {
        match depth {
            PagingDepth::FourLevel => PmdPdUnion::Pmd(raw),
            PagingDepth::FiveLevel => PmdPdUnion::Pd(raw),
        }
    }
}

/// The fixed-size record of a translation command: which address of which
/// process, one raw value per level, and the mask that says which of the
/// values count.
#[allow(non_camel_case_types)]
#[derive(Clone, Copy, Debug, PartialEq, Eq, Structural)]
pub struct ptedit_entry_t {
    /// Target process; 0 stands for the caller.
    pub pid: u64,
    /// Virtual address whose translation is read or overwritten.
    pub vaddr: u64,
    pub pgd: PgdPml5Union,
    pub p4d: P4dPml4Union,
    pub pud: PudPdptUnion,
    pub pmd: PmdPdUnion,
    pub pte: u64,
    /// Validity mask: one bit per level.
    pub valid: u8,
}

impl ptedit_entry_t {
    /// The raw value that the record holds for a level, whatever the mask says.
    pub open spec fn raw(self, level: Level) -> u64 {
        match level {
            Level::Top => self.pgd.raw(),
            Level::Level4 => self.p4d.raw(),
            Level::Level3 => self.pud.raw(),
            Level::Level2 => self.pmd.raw(),
            Level::Leaf => self.pte,
        }
    }

    /// The value of a level as the mask qualifies it: present only where the
    /// level's bit is set.
    pub open spec fn reported(self, level: Level) -> Option<u64> {
        if has_level(self.valid, level) {
            Some(self.raw(level))
        } else {
            None
        }
    }

    /// The all-zero record: the caller's own process, address 0, no level marked.
    pub open spec fn zero() -> ptedit_entry_t {
        ptedit_entry_t {
            pid: 0,
            vaddr: 0,
            pgd: PgdPml5Union::Pgd(0),
            p4d: P4dPml4Union::P4d(0),
            pud: PudPdptUnion::Pud(0),
            pmd: PmdPdUnion::Pmd(0),
            pte: 0,
            valid: 0,
        }
    }

    /// An all-zero record.
    pub fn new() -> (entry: ptedit_entry_t)
        ensures
            entry == ptedit_entry_t::zero(),
    {
        ptedit_entry_t {
            pid: 0,
            vaddr: 0,
            pgd: PgdPml5Union::Pgd(0),
            p4d: P4dPml4Union::P4d(0),
            pud: PudPdptUnion::Pud(0),
            pmd: PmdPdUnion::Pmd(0),
            pte: 0,
            valid: 0,
        }
    }

    /// Reads the raw value held for a level.
    pub fn value(&self, level: Level) -> (raw: u64)
        ensures
            raw == self.raw(level),
    {
        match level {
            Level::Top => self.pgd.value(),
            Level::Level4 => self.p4d.value(),
            Level::Level3 => self.pud.value(),
            Level::Level2 => self.pmd.value(),
            Level::Leaf => self.pte,
        }
    }

    /// Reads a level as the mask qualifies it.
    pub fn entry(&self, level: Level) -> (value: Option<u64>)
        ensures
            value == self.reported(level),
    {
        if mask_has(self.valid, level) {
            Some(self.value(level))
        } else {
            None
        }
    }
}

} // verus!
