use pteditor::entry::{ptedit_entry_t, PagingDepth, PgdPml5Union};
use pteditor::error::Error;
use pteditor::level::Level;
use pteditor::machine::Task;
use pteditor::session::{lookup_action, unresolved_path, Action, Command, Event, Operation};
use pteditor::transfer::{transferred, window, Transfer};
use pteditor::walk::Probe;

const SIZE: usize = 64;

fn whole() -> Transfer {
    Transfer { size: SIZE, untransferred: 0 }
}

fn table(raw: u64) -> Probe {
    Probe { raw, empty: false, malformed: false, large: false }
}

fn empty() -> Probe {
    Probe { raw: 0, empty: true, malformed: false, large: false }
}

fn request(pid: u64, vaddr: u64, valid: u8) -> ptedit_entry_t {
    let mut record = ptedit_entry_t::new();
    record.pid = pid;
    record.vaddr = vaddr;
    record.pgd = PgdPml5Union::Pgd(0xa0);
    record.pte = 0xe0;
    record.valid = valid;
    record
}

fn task(mm: Option<usize>) -> Event {
    Event::Task(Some(Task { pid: 5, mm, active_mm: None }))
}

#[test]
fn read_asks_for_each_step_in_order() {
    let mut op = Operation::command(PagingDepth::FourLevel, SIZE, true, 1);
    assert_eq!(op.command, Command::ReadTranslation);
    assert_eq!(op.pending, Action::CopyIn);
    let record = request(5, 0x7000, 0);
    assert_eq!(op.advance(Event::CopiedIn { record, transfer: whole() }), Action::FindTask(5));
    assert_eq!(op.advance(task(Some(9))), Action::Acquire(9));
    assert_eq!(
        op.advance(Event::Done),
        Action::Probe { mm: 9, level: Level::Top, above: None, addr: 0x7000 }
    );
    assert_eq!(
        op.advance(Event::Probed { location: 100, probe: table(0x1063) }),
        Action::Probe { mm: 9, level: Level::Level4, above: Some(100), addr: 0x7000 }
    );
    assert_eq!(
        op.advance(Event::Probed { location: 200, probe: table(0x2063) }),
        Action::Probe { mm: 9, level: Level::Level3, above: Some(200), addr: 0x7000 }
    );
    assert_eq!(op.advance(Event::Probed { location: 300, probe: empty() }), Action::Release(9));
    let sent = match op.advance(Event::Done) {
        Action::CopyOut(sent) => sent,
        other => panic!("unexpected action {:?}", other),
    };
    assert_eq!(sent.valid, 3);
    assert_eq!(sent.pgd, PgdPml5Union::Pgd(0x1063));
    assert_eq!(sent.entry(Level::Level4), Some(0x2063));
    assert_eq!(sent.entry(Level::Level3), None);
    assert_eq!(sent.pid, 5);
    assert_eq!(sent.vaddr, 0x7000);
    assert_eq!(op.advance(Event::CopiedOut(whole())), Action::Return(Ok(0)));
    assert_eq!(op.advance(Event::Done), Action::Return(Ok(0)));
}

#[test]
fn read_of_a_full_path_walks_five_levels() {
    let mut op = Operation::command(PagingDepth::FiveLevel, SIZE, false, 1);
    op.advance(Event::CopiedIn { record: request(0, 0x7000, 0), transfer: whole() });
    assert_eq!(op.pending, Action::CurrentTask);
    let mut action = op.advance(task(Some(2)));
    let mut probes = 0;
    while let Action::Probe { mm, level, above, addr } = action {
        assert_eq!(mm, 2);
        assert_eq!(addr, 0x7000);
        assert_eq!(above, if probes == 0 { None } else { Some(10 * probes) });
        assert_eq!(level.bit(), 1 << probes);
        probes += 1;
        action = op.advance(Event::Probed { location: 10 * probes, probe: table(probes as u64) });
    }
    assert_eq!(probes, 5);
    let sent = match action {
        Action::CopyOut(sent) => sent,
        other => panic!("unexpected action {:?}", other),
    };
    assert_eq!(sent.valid, 31);
    assert_eq!(sent.pgd, PgdPml5Union::Pml5(1));
    assert_eq!(sent.pte, 5);
}

#[test]
fn caller_held_lock_means_no_acquire_and_no_release() {
    let mut op = Operation::command(PagingDepth::FourLevel, SIZE, false, 1);
    op.advance(Event::CopiedIn { record: request(0, 0, 0), transfer: whole() });
    assert_eq!(
        op.advance(task(Some(4))),
        Action::Probe { mm: 4, level: Level::Top, above: None, addr: 0 }
    );
    assert!(matches!(op.advance(Event::Probed { location: 1, probe: empty() }), Action::CopyOut(_)));
}

#[test]
fn write_stores_the_selected_levels_then_releases() {
    let mut op = Operation::command(PagingDepth::FourLevel, SIZE, true, 2);
    let record = request(5, 0x7000, 1 | 2 | 16);
    op.advance(Event::CopiedIn { record, transfer: whole() });
    op.advance(task(None));
    assert_eq!(op.pending, Action::Return(Err(Error::NoAddressSpace)));

    let mut op = Operation::command(PagingDepth::FourLevel, SIZE, true, 2);
    op.advance(Event::CopiedIn { record, transfer: whole() });
    op.advance(Event::Task(Some(Task { pid: 5, mm: None, active_mm: Some(1) })));
    assert_eq!(op.pending, Action::Acquire(1));
    op.advance(Event::Done);
    for location in [11usize, 12, 13, 14] {
        op.advance(Event::Probed { location, probe: table(location as u64) });
    }
    assert_eq!(
        op.advance(Event::Probed { location: 15, probe: table(15) }),
        Action::Store { level: Level::Top, location: 11, raw: 0xa0 }
    );
    assert_eq!(op.advance(Event::Done), Action::Store { level: Level::Level4, location: 12, raw: 0 });
    assert_eq!(op.advance(Event::Done), Action::Store { level: Level::Leaf, location: 15, raw: 0xe0 });
    assert_eq!(op.advance(Event::Done), Action::Release(1));
    assert_eq!(op.advance(Event::Done), Action::Return(Ok(0)));
}

#[test]
fn write_without_selected_levels_goes_straight_to_release() {
    let mut op = Operation::update(request(5, 0x7000, 2 | 4 | 8 | 16), true);
    assert_eq!(op.pending, Action::FindTask(5));
    op.advance(task(Some(0)));
    op.advance(Event::Done);
    op.advance(Event::Probed { location: 1, probe: table(1) });
    assert_eq!(op.advance(Event::Probed { location: 2, probe: empty() }), Action::Release(0));
    assert_eq!(op.advance(Event::Done), Action::Return(Ok(0)));
}

#[test]
fn unknown_task_ends_the_call_before_any_lock() {
    let mut op = Operation::command(PagingDepth::FourLevel, SIZE, true, 1);
    op.advance(Event::CopiedIn { record: request(77, 0, 0), transfer: whole() });
    assert_eq!(op.pending, Action::FindTask(77));
    assert_eq!(op.advance(Event::Task(None)), Action::Return(Err(Error::ProcessLookupFailure)));
    let mut op = Operation::command(PagingDepth::FourLevel, SIZE, true, 2);
    op.advance(Event::CopiedIn { record: request(77, 0, 31), transfer: whole() });
    assert_eq!(op.advance(Event::Task(None)), Action::Return(Err(Error::NoAddressSpace)));
    let mut op = Operation::command(PagingDepth::FourLevel, SIZE, true, 1);
    op.advance(Event::CopiedIn { record: request(77, 0, 0), transfer: whole() });
    assert_eq!(op.advance(task(None)), Action::Return(Err(Error::NoAddressSpace)));
}

#[test]
fn failed_transfers_end_the_call() {
    let mut op = Operation::command(PagingDepth::FourLevel, SIZE, true, 1);
    let partial = Transfer { size: SIZE, untransferred: 8 };
    assert_eq!(
        op.advance(Event::CopiedIn { record: request(0, 0, 0), transfer: partial }),
        Action::Return(Err(Error::TransferFailure))
    );
    let mut op = Operation::command(PagingDepth::FourLevel, SIZE, true, 2);
    let short = Transfer { size: SIZE - 1, untransferred: 0 };
    assert_eq!(
        op.advance(Event::CopiedIn { record: request(0, 0, 0), transfer: short }),
        Action::Return(Err(Error::InvalidRequest))
    );
    let mut op = Operation::command(PagingDepth::FourLevel, SIZE, false, 1);
    op.advance(Event::CopiedIn { record: request(0, 0, 0), transfer: whole() });
    op.advance(task(Some(0)));
    assert!(matches!(op.advance(Event::Probed { location: 1, probe: empty() }), Action::CopyOut(_)));
    assert_eq!(op.advance(Event::CopiedOut(partial)), Action::Return(Err(Error::TransferFailure)));
}

#[test]
fn other_commands_return_at_once() {
    for cmd in [0u32, 3, 99, u32::MAX] {
        let mut op = Operation::command(PagingDepth::FourLevel, SIZE, true, cmd);
        assert_eq!(op.command, Command::Other);
        assert_eq!(op.pending, Action::Return(Ok(0)));
        assert_eq!(op.advance(Event::CopiedIn { record: request(1, 1, 1), transfer: whole() }), Action::Return(Ok(0)));
    }
}

#[test]
fn event_that_does_not_answer_is_ignored() {
    let mut op = Operation::command(PagingDepth::FourLevel, SIZE, true, 1);
    let before = op;
    assert_eq!(op.advance(Event::Done), Action::CopyIn);
    assert_eq!(op.advance(Event::Task(None)), Action::CopyIn);
    assert_eq!(op.advance(Event::CopiedOut(whole())), Action::CopyIn);
    assert_eq!(op, before);
    op.advance(Event::CopiedIn { record: request(5, 0, 0), transfer: whole() });
    op.advance(task(Some(1)));
    let waiting = op;
    assert_eq!(op.advance(Event::Probed { location: 1, probe: empty() }), Action::Acquire(1));
    assert_eq!(op, waiting);
}

#[test]
fn bare_resolve_reports_how_far_the_walk_got() {
    let mut op = Operation::resolve(0, 0x5000, true);
    assert_eq!(op.pending, Action::CurrentTask);
    assert!(!op.crossing);
    assert!(op.is_wf());
    op.advance(task(Some(3)));
    op.advance(Event::Done);
    op.advance(Event::Probed { location: 1, probe: table(1) });
    assert_eq!(op.advance(Event::Probed { location: 2, probe: empty() }), Action::Release(3));
    assert_eq!(op.advance(Event::Done), Action::Return(Ok(1)));
    assert_eq!(op.vm.valid, 1);

    let mut op = Operation::resolve(0, 0x5000, false);
    op.advance(task(Some(3)));
    for location in 1usize..5 {
        op.advance(Event::Probed { location, probe: table(1) });
    }
    assert_eq!(op.advance(Event::Probed { location: 5, probe: table(1) }), Action::Return(Ok(0)));
    assert_eq!(op.vm.valid, 31);
}

#[test]
fn lookup_action_treats_zero_as_the_caller() {
    assert_eq!(lookup_action(0), Action::CurrentTask);
    assert_eq!(lookup_action(1), Action::FindTask(1));
    assert_eq!(lookup_action(u64::MAX), Action::FindTask(u64::MAX));
    let vm = unresolved_path(12);
    assert_eq!(vm.pid, 12);
    assert_eq!(vm.valid, 0);
    assert_eq!(vm.pgd, None);
}

#[test]
fn window_is_what_is_left_but_no_more_than_asked() {
    assert_eq!(window(7, 0, 100), 7);
    assert_eq!(window(7, 3, 100), 4);
    assert_eq!(window(7, 3, 2), 2);
    assert_eq!(window(7, 3, 4), 4);
    assert_eq!(window(7, 7, 5), 0);
    assert_eq!(window(7, 9, 5), 0);
    assert_eq!(window(0, 0, 5), 0);
    assert_eq!(window(usize::MAX, 1, usize::MAX), usize::MAX - 1);
}

#[test]
fn transferred_counts_the_bytes_that_arrived() {
    assert_eq!(transferred(10, 0), 10);
    assert_eq!(transferred(10, 4), 6);
    assert_eq!(transferred(10, 10), 0);
    assert_eq!(transferred(10, 11), 0);
    assert_eq!(transferred(0, 0), 0);
}
