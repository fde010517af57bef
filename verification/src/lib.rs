//! A verified engine for inspecting and overwriting the address-translation
//! entries that map a virtual address to a physical frame.
//!
//! One call into the engine is an [`session::Operation`]: a state machine
//! that asks its host for one piece of outside work at a time (bring a
//! record in, look a task up, take a lock, read or store an entry) and
//! decides from the answer what comes next. A host on a running kernel
//! performs these actions on the kernel's own structures.
//!
//! The library also carries a host of its own, [`machine::Machine`]: a
//! physical memory of 64-bit words that holds the paging tables, the
//! address-space descriptors with their locks, and the task table.
//! [`engine`] runs operations on it, and what a whole call does is stated
//! and proved over that machine.

pub mod device;
pub mod engine;
pub mod entry;
pub mod error;
pub mod gate;
pub mod laws;
pub mod level;
pub mod lock;
pub mod machine;
pub mod paging;
pub mod session;
pub mod transfer;
pub mod walk;
