use qmkview::hid::protocol::{ParseError, MSG_LAYER_CHANGE};
use qmkview::hid::reader::{is_qmk_raw_hid, reader_step, ReaderAction, ReaderEvent};
use qmkview::hid::{CORNE_VENDOR_ID, QMK_VENDOR_ID, RAW_HID_USAGE_PAGE};
use qmkview::Message;

#[test]
fn device_matching() {
    assert!(is_qmk_raw_hid(QMK_VENDOR_ID, None, RAW_HID_USAGE_PAGE));
    assert!(is_qmk_raw_hid(CORNE_VENDOR_ID, Some("x"), RAW_HID_USAGE_PAGE));
    assert!(is_qmk_raw_hid(0x1234, Some("foostan Corne v4"), RAW_HID_USAGE_PAGE));
    assert!(!is_qmk_raw_hid(0x1234, Some("corne"), RAW_HID_USAGE_PAGE));
    assert!(!is_qmk_raw_hid(QMK_VENDOR_ID, Some("Corne"), 0x0001));
    assert!(!is_qmk_raw_hid(0x1234, None, RAW_HID_USAGE_PAGE));
}

#[test]
fn reader_decisions() {
    let mut buf = [0u8; 32];
    buf[0] = MSG_LAYER_CHANGE;
    buf[1] = 3;
    assert!(matches!(reader_step(false, ReaderEvent::DeviceOpened, &buf), (true, ReaderAction::Read)));
    assert!(matches!(reader_step(false, ReaderEvent::DeviceNotFound, &buf), (false, ReaderAction::Retry(2))));
    assert!(matches!(reader_step(false, ReaderEvent::LookupFailed, &buf), (false, ReaderAction::Retry(2))));
    assert!(matches!(reader_step(true, ReaderEvent::Received(0), &buf), (true, ReaderAction::Read)));
    assert!(matches!(reader_step(true, ReaderEvent::ReadFailed, &buf), (false, ReaderAction::Retry(1))));
    match reader_step(true, ReaderEvent::Received(2), &buf) {
        (true, ReaderAction::Deliver(Ok(m))) => assert_eq!(m, Message::LayerChange { layer: 3 }),
        _ => panic!("expected a delivered message"),
    }
    buf[0] = 9;
    match reader_step(true, ReaderEvent::Received(32), &buf) {
        (true, ReaderAction::Deliver(Err(e))) => assert_eq!(e, ParseError::UnknownMessageType(9)),
        _ => panic!("expected a delivered error"),
    }
}
