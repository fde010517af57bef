use pteditor::device::{PtEditor, Reply};
use pteditor::session::{command_of, Command};
use pteditor::transfer::{transfer_status, Transfer};
use pteditor::engine::{resolve_vm, update_vm};
use pteditor::entry::{
    ptedit_entry_t, P4dPml4Union, PagingDepth, PgdPml5Union, PmdPdUnion, PudPdptUnion,
};
use pteditor::error::Error;
use pteditor::level::Level;
use pteditor::lock::MmLock;
use pteditor::machine::{get_mm, Machine, Mm, Task};
use pteditor::walk::vm_t;

const RECORD_SIZE: usize = 64;
const SELF_PID: u64 = 41;
const OTHER_PID: u64 = 77;
const LEAF_VALUE: u64 = 0x0000_0000_0abc_d067;

fn link(frame: u64) -> u64 {
    (frame << 12) | 0x63
}

fn addr(top: u64, l4: u64, l3: u64, l2: u64, leaf: u64) -> u64 {
    (top << 48) | (l4 << 39) | (l3 << 30) | (l2 << 21) | (leaf << 12) | 0x123
}

fn sample_addr() -> u64 {
    addr(1, 2, 3, 4, 5)
}

/// Eight frames; the path of `sample_addr()` runs through frames 0 to 4.
fn sample_memory() -> Vec<u64> {
    let mut memory = vec![0u64; 8 * 512];
    memory[1] = link(1);
    memory[512 + 2] = link(2);
    memory[2 * 512 + 3] = link(3);
    memory[3 * 512 + 4] = link(4);
    memory[4 * 512 + 5] = LEAF_VALUE;
    memory
}

fn machine_with(memory: Vec<u64>) -> Machine {
    let mms = vec![
        Mm { root: 0, lock: MmLock::new() },
        Mm { root: 6, lock: MmLock::new() },
    ];
    let tasks = vec![
        Task { pid: OTHER_PID, mm: Some(1), active_mm: None },
        Task { pid: SELF_PID, mm: Some(0), active_mm: None },
        Task { pid: 90, mm: None, active_mm: Some(0) },
        Task { pid: 91, mm: None, active_mm: None },
    ];
    Machine::new(memory, mms, tasks, 1).expect("a well-formed machine")
}

fn sample_machine() -> Machine {
    machine_with(sample_memory())
}

fn device() -> PtEditor {
    PtEditor::init(PagingDepth::FourLevel, RECORD_SIZE)
}

fn whole() -> Transfer {
    Transfer { size: RECORD_SIZE, untransferred: 0 }
}

fn request(pid: u64, vaddr: u64) -> ptedit_entry_t {
    let mut record = ptedit_entry_t::new();
    record.pid = pid;
    record.vaddr = vaddr;
    record
}

fn read(machine: &mut Machine, pid: u64, vaddr: u64) -> ptedit_entry_t {
    let reply = device().ioctl(machine, 1, request(pid, vaddr), whole()).expect("a reply");
    assert_eq!(reply.code, 0);
    reply.record.expect("a record")
}

#[test]
fn read_full_path_reports_every_live_value() {
    let mut machine = sample_machine();
    let record = read(&mut machine, 0, sample_addr());
    assert_eq!(record.valid, 31);
    assert_eq!(record.pid, 0);
    assert_eq!(record.vaddr, sample_addr());
    assert_eq!(record.pgd, PgdPml5Union::Pgd(link(1)));
    assert_eq!(record.p4d, P4dPml4Union::P4d(link(2)));
    assert_eq!(record.pud, PudPdptUnion::Pud(link(3)));
    assert_eq!(record.pmd, PmdPdUnion::Pmd(link(4)));
    assert_eq!(record.pte, LEAF_VALUE);
    assert_eq!(record.entry(Level::Top), Some(link(1)));
    assert_eq!(record.entry(Level::Level4), Some(link(2)));
    assert_eq!(record.entry(Level::Level3), Some(link(3)));
    assert_eq!(record.entry(Level::Level2), Some(link(4)));
    assert_eq!(record.entry(Level::Leaf), Some(LEAF_VALUE));
}

#[test]
fn read_leaf_reports_the_leaf_entry_not_an_upper_one() {
    let mut machine = sample_machine();
    let record = read(&mut machine, 0, sample_addr());
    assert_ne!(record.pte, record.pud.value());
    assert_eq!(record.pte, machine.memory[4 * 512 + 5]);
}

#[test]
fn read_does_not_change_memory() {
    let mut machine = sample_machine();
    let before = machine.memory.clone();
    read(&mut machine, 0, sample_addr());
    read(&mut machine, 0, addr(9, 9, 9, 9, 9));
    assert_eq!(machine.memory, before);
}

#[test]
fn absent_level3_stops_after_level4() {
    let mut memory = sample_memory();
    memory[2 * 512 + 3] = 0;
    let mut machine = machine_with(memory);
    let record = read(&mut machine, 0, sample_addr());
    assert_eq!(record.valid, 3);
    assert_eq!(record.entry(Level::Top), Some(link(1)));
    assert_eq!(record.entry(Level::Level4), Some(link(2)));
    assert_eq!(record.entry(Level::Level3), None);
    assert_eq!(record.entry(Level::Level2), None);
    assert_eq!(record.entry(Level::Leaf), None);
}

#[test]
fn absent_top_level_resolves_nothing() {
    let mut machine = sample_machine();
    let record = read(&mut machine, 0, addr(7, 2, 3, 4, 5));
    assert_eq!(record.valid, 0);
    assert_eq!(record.entry(Level::Top), None);
    assert_eq!(record.entry(Level::Leaf), None);
}

#[test]
fn absent_leaf_leaves_only_the_leaf_unset() {
    let mut machine = sample_machine();
    let record = read(&mut machine, 0, addr(1, 2, 3, 4, 6));
    assert_eq!(record.valid, 15);
    assert_eq!(record.entry(Level::Level2), Some(link(4)));
    assert_eq!(record.entry(Level::Leaf), None);
}

#[test]
fn unresolved_levels_keep_what_the_record_held() {
    let mut memory = sample_memory();
    memory[2 * 512 + 3] = 0;
    let mut machine = machine_with(memory);
    let mut record = request(0, sample_addr());
    record.pud = PudPdptUnion::Pdpt(0x5555);
    record.pte = 0x7777;
    record.valid = 31;
    let reply = device().ioctl(&mut machine, 1, record, whole()).unwrap();
    let back = reply.record.unwrap();
    assert_eq!(back.valid, 3);
    assert_eq!(back.pud, PudPdptUnion::Pdpt(0x5555));
    assert_eq!(back.pte, 0x7777);
    assert_eq!(back.pgd, PgdPml5Union::Pgd(link(1)));
}

#[test]
fn large_level2_is_reported_unresolved() {
    let mut memory = sample_memory();
    memory[3 * 512 + 4] = link(4) | 0x80;
    let mut machine = machine_with(memory);
    let record = read(&mut machine, 0, sample_addr());
    assert_eq!(record.valid, 7);
    assert_eq!(record.entry(Level::Level3), Some(link(3)));
    assert_eq!(record.entry(Level::Level2), None);
    assert_eq!(record.entry(Level::Leaf), None);
}

#[test]
fn large_level3_is_reported_unresolved() {
    let mut memory = sample_memory();
    memory[2 * 512 + 3] = link(3) | 0x80;
    let mut machine = machine_with(memory);
    let record = read(&mut machine, 0, sample_addr());
    assert_eq!(record.valid, 3);
    assert_eq!(record.entry(Level::Level3), None);
}

#[test]
fn leaf_with_bit_seven_set_still_resolves() {
    let mut memory = sample_memory();
    memory[4 * 512 + 5] = 0x80;
    let mut machine = machine_with(memory);
    let record = read(&mut machine, 0, sample_addr());
    assert_eq!(record.valid, 31);
    assert_eq!(record.entry(Level::Leaf), Some(0x80));
}

#[test]
fn entry_that_is_not_present_is_malformed() {
    let mut memory = sample_memory();
    memory[512 + 2] = 2 << 12;
    let mut machine = machine_with(memory);
    let record = read(&mut machine, 0, sample_addr());
    assert_eq!(record.valid, 1);
    assert_eq!(record.entry(Level::Level4), None);
}

#[test]
fn entry_that_names_a_frame_outside_memory_is_malformed() {
    let mut memory = sample_memory();
    memory[1] = link(8);
    let mut machine = machine_with(memory);
    let record = read(&mut machine, 0, sample_addr());
    assert_eq!(record.valid, 0);
    let mut memory = sample_memory();
    memory[1] = link(7);
    let mut machine = machine_with(memory);
    let record = read(&mut machine, 0, sample_addr());
    assert_eq!(record.valid, 1);
}

#[test]
fn non_canonical_address_fails_to_resolve_lower_down() {
    let mut machine = sample_machine();
    let record = read(&mut machine, 0, sample_addr() | (0x55 << 57));
    assert_eq!(record.valid, 31);
    let record = read(&mut machine, 0, 0xffff_ffff_ffff_ffff);
    assert_eq!(record.valid, 0);
}

#[test]
fn upper_levels_are_named_after_the_paging_depth() {
    let mut machine = sample_machine();
    let five = PtEditor::init(PagingDepth::FiveLevel, RECORD_SIZE);
    let reply = five.ioctl(&mut machine, 1, request(0, sample_addr()), whole()).unwrap();
    let record = reply.record.unwrap();
    assert_eq!(record.pgd, PgdPml5Union::Pml5(link(1)));
    assert_eq!(record.p4d, P4dPml4Union::Pml4(link(2)));
    assert_eq!(record.pud, PudPdptUnion::Pdpt(link(3)));
    assert_eq!(record.pmd, PmdPdUnion::Pd(link(4)));
    assert_eq!(record.pte, LEAF_VALUE);
}

#[test]
fn write_then_read_returns_the_written_leaf() {
    let mut machine = sample_machine();
    let mut record = request(0, sample_addr());
    record.pte = 0x0000_0000_0fee_d025;
    record.valid = 16;
    let reply = device().ioctl(&mut machine, 2, record, whole()).unwrap();
    assert_eq!(reply, Reply { code: 0, record: None });
    let back = read(&mut machine, 0, sample_addr());
    assert_eq!(back.valid, 31);
    assert_eq!(back.pte, 0x0000_0000_0fee_d025);
    assert_eq!(back.pgd.value(), link(1));
    assert_eq!(back.p4d.value(), link(2));
    assert_eq!(back.pud.value(), link(3));
    assert_eq!(back.pmd.value(), link(4));
}

#[test]
fn write_then_read_returns_the_written_upper_level() {
    let mut machine = sample_machine();
    let mut record = request(0, sample_addr());
    record.pud = PudPdptUnion::Pdpt(link(3) | 0x4);
    record.valid = 4;
    device().ioctl(&mut machine, 2, record, whole()).unwrap();
    let back = read(&mut machine, 0, sample_addr());
    assert_eq!(back.valid, 31);
    assert_eq!(back.pud.value(), link(3) | 0x4);
    assert_eq!(back.pgd.value(), link(1));
    assert_eq!(back.p4d.value(), link(2));
    assert_eq!(back.pmd.value(), link(4));
    assert_eq!(back.pte, LEAF_VALUE);
}

#[test]
fn write_changes_exactly_the_selected_words() {
    let mut machine = sample_machine();
    let mut expected = machine.memory.clone();
    let mut record = request(0, sample_addr());
    record.pgd = PgdPml5Union::Pgd(link(1) | 0x4);
    record.p4d = P4dPml4Union::Pml4(0x1111);
    record.pud = PudPdptUnion::Pud(0x2222);
    record.pmd = PmdPdUnion::Pd(link(4) | 0x4);
    record.pte = 0x3333;
    record.valid = 1 | 8 | 16;
    assert_eq!(update_vm(&mut machine, &record, true), Ok(0));
    expected[1] = link(1) | 0x4;
    expected[3 * 512 + 4] = link(4) | 0x4;
    expected[4 * 512 + 5] = 0x3333;
    assert_eq!(machine.memory, expected);
}

#[test]
fn write_with_top_level_mask_leaves_deeper_levels_alone() {
    let mut machine = sample_machine();
    let mut expected = machine.memory.clone();
    let mut record = request(0, sample_addr());
    record.pgd = PgdPml5Union::Pgd(link(5));
    record.p4d = P4dPml4Union::P4d(0xdead);
    record.pud = PudPdptUnion::Pud(0xdead);
    record.pmd = PmdPdUnion::Pmd(0xdead);
    record.pte = 0xdead;
    record.valid = 1;
    device().ioctl(&mut machine, 2, record, whole()).unwrap();
    expected[1] = link(5);
    assert_eq!(machine.memory, expected);
    assert_eq!(machine.memory[512 + 2], link(2));
    assert_eq!(machine.memory[2 * 512 + 3], link(3));
    assert_eq!(machine.memory[3 * 512 + 4], link(4));
    assert_eq!(machine.memory[4 * 512 + 5], LEAF_VALUE);
}

#[test]
fn write_skips_levels_that_the_live_path_did_not_resolve() {
    let mut memory = sample_memory();
    memory[2 * 512 + 3] = 0;
    let mut machine = machine_with(memory);
    let mut expected = machine.memory.clone();
    let mut record = request(0, sample_addr());
    record.p4d = P4dPml4Union::P4d(link(2) | 0x4);
    record.pud = PudPdptUnion::Pud(link(3));
    record.pmd = PmdPdUnion::Pmd(link(4));
    record.pte = 0x9999;
    record.valid = 31 - 1;
    assert_eq!(update_vm(&mut machine, &record, true), Ok(0));
    expected[512 + 2] = link(2) | 0x4;
    assert_eq!(machine.memory, expected);
}

#[test]
fn write_with_empty_mask_changes_nothing() {
    let mut machine = sample_machine();
    let before = machine.memory.clone();
    let mut record = request(0, sample_addr());
    record.pte = 0x9999;
    record.valid = 0;
    assert_eq!(update_vm(&mut machine, &record, true), Ok(0));
    assert_eq!(machine.memory, before);
}

#[test]
fn write_does_no_validation_of_the_values() {
    let mut machine = sample_machine();
    let mut record = request(0, sample_addr());
    record.pmd = PmdPdUnion::Pmd(0);
    record.valid = 8;
    device().ioctl(&mut machine, 2, record, whole()).unwrap();
    assert_eq!(machine.memory[3 * 512 + 4], 0);
    let back = read(&mut machine, 0, sample_addr());
    assert_eq!(back.valid, 7);
}

#[test]
fn write_uses_locations_resolved_before_any_level_is_written() {
    let mut machine = sample_machine();
    let mut record = request(0, sample_addr());
    record.pgd = PgdPml5Union::Pgd(link(5));
    record.pte = 0x4444;
    record.valid = 1 | 16;
    device().ioctl(&mut machine, 2, record, whole()).unwrap();
    assert_eq!(machine.memory[1], link(5));
    assert_eq!(machine.memory[4 * 512 + 5], 0x4444);
    assert_eq!(machine.memory[5 * 512 + 2], 0);
}

#[test]
fn zero_pid_is_the_callers_own_address_space() {
    let machine = sample_machine();
    assert_eq!(get_mm(&machine, 0), Ok(0));
    assert_eq!(get_mm(&machine, SELF_PID), Ok(0));
    let mut first = sample_machine();
    let mut second = sample_machine();
    let by_zero = read(&mut first, 0, sample_addr());
    let by_pid = read(&mut second, SELF_PID, sample_addr());
    assert_eq!(by_pid.pid, SELF_PID);
    assert_eq!(by_zero.valid, by_pid.valid);
    assert_eq!(by_zero.pgd, by_pid.pgd);
    assert_eq!(by_zero.p4d, by_pid.p4d);
    assert_eq!(by_zero.pud, by_pid.pud);
    assert_eq!(by_zero.pmd, by_pid.pmd);
    assert_eq!(by_zero.pte, by_pid.pte);
    assert_eq!(first, second);
}

#[test]
fn another_process_is_walked_from_its_own_root() {
    let mut memory = sample_memory();
    memory[6 * 512 + 1] = link(7);
    memory[7 * 512 + 2] = 0x80 | 1;
    let mut machine = machine_with(memory);
    assert_eq!(get_mm(&machine, OTHER_PID), Ok(1));
    let record = read(&mut machine, OTHER_PID, sample_addr());
    assert_eq!(record.valid, 1);
    assert_eq!(record.pgd.value(), link(7));
    assert_eq!(machine.mms[1].lock.acquisitions, 1);
    assert_eq!(machine.mms[0].lock.acquisitions, 0);
}

#[test]
fn task_without_own_address_space_uses_the_active_one() {
    let mut machine = sample_machine();
    assert_eq!(get_mm(&machine, 90), Ok(0));
    let record = read(&mut machine, 90, sample_addr());
    assert_eq!(record.valid, 31);
}

#[test]
fn unknown_pid_fails_lookup_and_takes_no_lock() {
    let mut machine = sample_machine();
    let before = machine.clone();
    assert_eq!(get_mm(&machine, 4242), Err(Error::ProcessLookupFailure));
    let reply = device().ioctl(&mut machine, 1, request(4242, sample_addr()), whole());
    assert_eq!(reply, Err(Error::ProcessLookupFailure));
    assert_eq!(machine, before);
    assert_eq!(machine.mms[0].lock.acquisitions, 0);
    assert_eq!(machine.mms[1].lock.acquisitions, 0);
}

#[test]
fn task_without_any_address_space_fails() {
    let mut machine = sample_machine();
    let before = machine.clone();
    assert_eq!(get_mm(&machine, 91), Err(Error::NoAddressSpace));
    let reply = device().ioctl(&mut machine, 1, request(91, sample_addr()), whole());
    assert_eq!(reply, Err(Error::NoAddressSpace));
    assert_eq!(machine, before);
}

#[test]
fn write_to_a_target_that_cannot_be_located_fails_with_no_address_space() {
    let mut machine = sample_machine();
    let before = machine.clone();
    let mut record = request(4242, sample_addr());
    record.pte = 1;
    record.valid = 16;
    assert_eq!(update_vm(&mut machine, &record, true), Err(Error::NoAddressSpace));
    record.pid = 91;
    assert_eq!(device().ioctl(&mut machine, 2, record, whole()), Err(Error::NoAddressSpace));
    assert_eq!(machine, before);
}

#[test]
fn lock_is_taken_once_and_given_back() {
    let mut machine = sample_machine();
    read(&mut machine, 0, sample_addr());
    assert_eq!(machine.mms[0].lock, MmLock { readers: 0, acquisitions: 1 });
    read(&mut machine, 0, addr(7, 0, 0, 0, 0));
    assert_eq!(machine.mms[0].lock, MmLock { readers: 0, acquisitions: 2 });
    let mut record = request(0, sample_addr());
    record.valid = 0;
    device().ioctl(&mut machine, 2, record, whole()).unwrap();
    assert_eq!(machine.mms[0].lock, MmLock { readers: 0, acquisitions: 3 });
    assert_eq!(machine.mms[1].lock, MmLock { readers: 0, acquisitions: 0 });
}

#[test]
fn externally_held_lock_is_not_taken_again() {
    let mut machine = sample_machine();
    machine.mms[0].lock = MmLock { readers: 1, acquisitions: 1 };
    let mut device = device();
    device.set_mm_locked(true);
    let reply = device.ioctl(&mut machine, 1, request(0, sample_addr()), whole()).unwrap();
    assert_eq!(reply.record.unwrap().valid, 31);
    let mut record = request(0, sample_addr());
    record.pte = 0x55;
    record.valid = 16;
    device.ioctl(&mut machine, 2, record, whole()).unwrap();
    assert_eq!(machine.memory[4 * 512 + 5], 0x55);
    assert_eq!(machine.mms[0].lock, MmLock { readers: 1, acquisitions: 1 });
}

#[test]
fn acquisition_count_stops_at_its_maximum() {
    let mut machine = sample_machine();
    machine.mms[0].lock = MmLock { readers: 3, acquisitions: u64::MAX };
    read(&mut machine, 0, sample_addr());
    assert_eq!(machine.mms[0].lock, MmLock { readers: 3, acquisitions: u64::MAX });
}

#[test]
fn resolve_vm_says_whether_the_path_is_complete() {
    let mut machine = sample_machine();
    let mut vm = vm_t::new();
    assert_eq!(resolve_vm(&mut machine, sample_addr(), &mut vm, true), Ok(0));
    assert_eq!(vm.valid, 31);
    assert_eq!(vm.pte.unwrap().location, 4 * 512 + 5);
    assert_eq!(vm.pte.unwrap().raw, LEAF_VALUE);
    assert_eq!(vm.pgd.unwrap().location, 1);
    assert_eq!(resolve_vm(&mut machine, addr(1, 2, 3, 9, 5), &mut vm, true), Ok(1));
    assert_eq!(vm.valid, 7);
    assert_eq!(vm.pmd, None);
    assert_eq!(vm.pte, None);
    assert_eq!(vm.pud.unwrap().location, 2 * 512 + 3);
}

#[test]
fn resolve_vm_clears_the_path_when_the_process_is_unknown() {
    let mut machine = sample_machine();
    let mut vm = vm_t::new();
    resolve_vm(&mut machine, sample_addr(), &mut vm, true).unwrap();
    vm.pid = 4242;
    assert_eq!(
        resolve_vm(&mut machine, sample_addr(), &mut vm, true),
        Err(Error::ProcessLookupFailure)
    );
    assert_eq!(vm.valid, 0);
    assert_eq!(vm.pgd, None);
    assert_eq!(vm.pid, 4242);
    assert_eq!(machine.mms[0].lock.acquisitions, 1);
}

#[test]
fn unknown_command_succeeds_and_does_nothing() {
    let mut machine = sample_machine();
    let before = machine.clone();
    let mut record = request(4242, sample_addr());
    record.pte = 1;
    record.valid = 31;
    let broken = Transfer { size: 3, untransferred: 3 };
    for cmd in [0u32, 3, 4, 0x8000_0001, u32::MAX] {
        assert_eq!(command_of(cmd), Command::Other);
        let reply = device().ioctl(&mut machine, cmd, record, broken);
        assert_eq!(reply, Ok(Reply { code: 0, record: None }));
    }
    assert_eq!(machine, before);
    assert_eq!(command_of(1), Command::ReadTranslation);
    assert_eq!(command_of(2), Command::WriteTranslation);
}

#[test]
fn partial_transfer_fails_the_call() {
    let mut machine = sample_machine();
    let before = machine.clone();
    let mut record = request(0, sample_addr());
    record.pte = 1;
    record.valid = 16;
    let partial = Transfer { size: RECORD_SIZE, untransferred: 1 };
    assert_eq!(device().ioctl(&mut machine, 1, record, partial), Err(Error::TransferFailure));
    assert_eq!(device().ioctl(&mut machine, 2, record, partial), Err(Error::TransferFailure));
    assert_eq!(machine, before);
    assert_eq!(transfer_status(RECORD_SIZE, partial), Err(Error::TransferFailure));
    assert_eq!(transfer_status(RECORD_SIZE, whole()), Ok(0));
}

#[test]
fn record_of_another_size_is_an_invalid_request() {
    let mut machine = sample_machine();
    let before = machine.clone();
    let short = Transfer { size: RECORD_SIZE - 8, untransferred: 0 };
    let record = request(0, sample_addr());
    assert_eq!(device().ioctl(&mut machine, 1, record, short), Err(Error::InvalidRequest));
    assert_eq!(device().ioctl(&mut machine, 2, record, short), Err(Error::InvalidRequest));
    assert_eq!(machine, before);
    let both = Transfer { size: RECORD_SIZE + 1, untransferred: 5 };
    assert_eq!(transfer_status(RECORD_SIZE, both), Err(Error::InvalidRequest));
}

#[test]
fn failed_call_does_not_end_the_session() {
    let mut machine = sample_machine();
    let mut device = device();
    device.open().unwrap();
    let partial = Transfer { size: RECORD_SIZE, untransferred: 7 };
    assert!(device.ioctl(&mut machine, 1, request(0, sample_addr()), partial).is_err());
    assert!(device.gate.is_held());
    let reply = device.ioctl(&mut machine, 1, request(0, sample_addr()), whole()).unwrap();
    assert_eq!(reply.record.unwrap().valid, 31);
}
