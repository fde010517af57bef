use pteditor::device::PtEditor;
use pteditor::entry::PagingDepth;
use pteditor::error::Error;
use pteditor::gate::ExclusivityToken;

#[test]
fn second_open_is_busy_until_release() {
    let mut device = PtEditor::init(PagingDepth::FourLevel, 64);
    assert_eq!(device.gate, ExclusivityToken::Free);
    assert_eq!(device.open(), Ok(()));
    assert_eq!(device.gate, ExclusivityToken::Held);
    assert_eq!(device.open(), Err(Error::Busy));
    assert_eq!(device.open(), Err(Error::Busy));
    assert_eq!(device.gate, ExclusivityToken::Held);
    device.release();
    assert_eq!(device.gate, ExclusivityToken::Free);
    assert_eq!(device.open(), Ok(()));
}

#[test]
fn release_is_safe_to_repeat() {
    let mut token = ExclusivityToken::new();
    assert!(!token.is_held());
    token.release();
    assert_eq!(token, ExclusivityToken::Free);
    assert_eq!(token.open(), Ok(()));
    assert!(token.is_held());
    token.release();
    token.release();
    assert_eq!(token, ExclusivityToken::Free);
    assert_eq!(token.open(), Ok(()));
}

#[test]
fn open_and_release_leave_the_rest_of_the_device_alone() {
    let mut device = PtEditor::init(PagingDepth::FiveLevel, 96);
    device.set_mm_locked(true);
    device.open().unwrap();
    assert!(device.mm_is_locked);
    assert_eq!(device.depth, PagingDepth::FiveLevel);
    assert_eq!(device.record_size, 96);
    device.release();
    assert!(device.mm_is_locked);
    assert_eq!(device.record_size, 96);
}
