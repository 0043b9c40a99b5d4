//! The decisions of the Raw HID reader: which device to open, and what to do
//! after each attempt to find the device or to read from it. The reading,
//! sleeping and sending are left to the caller.

use super::protocol::{parse_result_view, spec_parse, Message, ParseError, Protocol};
use super::{CORNE_VENDOR_ID, QMK_VENDOR_ID, RAW_HID_USAGE_PAGE};
use crate::text::{find, find_chars, lemma_find_in, matches_at, str_chars};
use vstd::prelude::*;

verus! {

/// Whether a HID interface is the Raw HID interface of a QMK keyboard: the
/// vendor is stock QMK or the Corne's, or the product name mentions `Corne`;
/// and the usage page is the Raw HID one.
pub open spec fn spec_is_qmk_raw_hid(vendor_id: u16, product: Option<Seq<char>>, usage_page: u16) -> bool {
    let known_vendor = vendor_id == QMK_VENDOR_ID || vendor_id == CORNE_VENDOR_ID;
    let named_corne = match product {
        Some(p) => find(p, "Corne"@) is Some,
        None => false,
    };
    (known_vendor || named_corne) && usage_page == RAW_HID_USAGE_PAGE
}

/// Whether a HID interface is the Raw HID interface of a QMK keyboard.
pub fn is_qmk_raw_hid(vendor_id: u16, product: Option<&str>, usage_page: u16) -> (b: bool)
    ensures
        b == spec_is_qmk_raw_hid(
            vendor_id,
            match product {
                Some(p) => Some(p@),
                None => None,
            },
            usage_page,
        ),
        b ==> usage_page == 0xFF60,
        usage_page == 0xFF60 ==> (b <==> (vendor_id == 0xFEED || vendor_id == 0x4653 || (
        product matches Some(p) && exists|i: int|
            0 <= i && i + 5 <= p@.len() && #[trigger] p@.subrange(i, i + 5) == "Corne"@))),
{
    proof {
        lemma_qmk_raw_hid_choice(
            vendor_id,
            match product {
                Some(p) => Some(p@),
                None => None,
            },
            usage_page,
        );
    }
    let is_qmk_vid = vendor_id == QMK_VENDOR_ID || vendor_id == CORNE_VENDOR_ID;
    let is_corne = match product {
        Some(p) => {
            let chars = str_chars(p);
            let corne = str_chars("Corne");
            find_chars(&chars, &corne, 0, chars.len()).is_some()
        },
        None => false,
    };
    (is_qmk_vid || is_corne) && usage_page == RAW_HID_USAGE_PAGE
}

/// Only the Raw HID interface is ever chosen, and on the Raw HID usage page
/// an interface is chosen exactly when its vendor is stock QMK or the Corne's,
/// or its product name contains `Corne`.
pub proof fn lemma_qmk_raw_hid_choice(vendor_id: u16, product: Option<Seq<char>>, usage_page: u16)
    ensures
        spec_is_qmk_raw_hid(vendor_id, product, usage_page) ==> usage_page == 0xFF60,
        usage_page == 0xFF60 ==> (spec_is_qmk_raw_hid(vendor_id, product, usage_page) <==> (
        vendor_id == 0xFEED || vendor_id == 0x4653 || (product matches Some(p) && exists|i: int|
            0 <= i && i + 5 <= p.len() && #[trigger] p.subrange(i, i + 5) == "Corne"@))),
{
    reveal_strlit("Corne");
    if let Some(p) = product {
        lemma_find_in(p, "Corne"@, 0, p.len() as int);
        if exists|i: int| 0 <= i && i + 5 <= p.len() && #[trigger] p.subrange(i, i + 5) == "Corne"@ {
            let i = choose|i: int| 0 <= i && i + 5 <= p.len() && #[trigger] p.subrange(i, i + 5) == "Corne"@;
            assert(matches_at(p, "Corne"@, i));
        }
    }
}

/// What happened on the last attempt to find or read the keyboard.
pub enum ReaderEvent {
    /// The keyboard was found and opened.
    DeviceOpened,
    /// No keyboard is plugged in.
    DeviceNotFound,
    /// Looking for the keyboard failed.
    LookupFailed,
    /// A read returned this many bytes into the packet buffer (0 on timeout).
    Received(usize),
    /// A read failed.
    ReadFailed,
}

/// What the reader does next.
pub enum ReaderAction {
    /// Read a packet from the open device.
    Read,
    /// Wait this many seconds, then look for the keyboard again.
    Retry(u64),
    /// Hand this decoded packet (or why it could not be decoded) to the receiver,
    /// then read again.
    Deliver(Result<Message, ParseError>),
}

/// The next connection state and action, as a mathematical value.
pub enum ReaderActionModel {
    Read,
    Retry(u64),
    Deliver(Result<super::protocol::MessageModel, ParseError>),
}

/// What the reader does after an event, given whether it held an open device
/// and the contents of its packet buffer: a found device is read from; a
/// device that is missing or could not be looked up is looked for again after
/// 2 s; a read of some bytes delivers the decoded buffer, a read that timed
/// out reads again, and a failed read drops the device and looks again after 1 s.
pub open spec fn spec_reader_step(connected: bool, event: ReaderEvent, buf: Seq<u8>) -> (
    bool,
    ReaderActionModel,
) {
    match event {
        ReaderEvent::DeviceOpened => (true, ReaderActionModel::Read),
        ReaderEvent::DeviceNotFound => (connected, ReaderActionModel::Retry(2)),
        ReaderEvent::LookupFailed => (connected, ReaderActionModel::Retry(2)),
        ReaderEvent::Received(size) => if size > 0 {
            (connected, ReaderActionModel::Deliver(spec_parse(buf)))
        } else {
            (connected, ReaderActionModel::Read)
        },
        ReaderEvent::ReadFailed => (false, ReaderActionModel::Retry(1)),
    }
}

/// After finding the device the reader reads from it; after a failed lookup
/// it waits 2 s with its connection unchanged; after a failed read it drops
/// the device and waits 1 s; a read that timed out reads again; a read of
/// some bytes hands on the decoded buffer and keeps the device.
pub proof fn lemma_reader_decisions(connected: bool, buf: Seq<u8>, size: usize)
    ensures
        spec_reader_step(connected, ReaderEvent::DeviceOpened, buf) == (
        true,
        ReaderActionModel::Read,
        ),
        spec_reader_step(connected, ReaderEvent::DeviceNotFound, buf) == (
        connected,
        ReaderActionModel::Retry(2),
        ),
        spec_reader_step(connected, ReaderEvent::LookupFailed, buf) == (
        connected,
        ReaderActionModel::Retry(2),
        ),
        spec_reader_step(connected, ReaderEvent::ReadFailed, buf) == (
        false,
        ReaderActionModel::Retry(1),
        ),
        spec_reader_step(connected, ReaderEvent::Received(0), buf) == (
        connected,
        ReaderActionModel::Read,
        ),
        size > 0 ==> spec_reader_step(connected, ReaderEvent::Received(size), buf) == (
        connected,
        ReaderActionModel::Deliver(spec_parse(buf)),
        ),
{
}

/// An action taken as a mathematical value.
pub open spec fn action_view(a: ReaderAction) -> ReaderActionModel {
    match a {
        ReaderAction::Read => ReaderActionModel::Read,
        ReaderAction::Retry(s) => ReaderActionModel::Retry(s),
        ReaderAction::Deliver(r) => ReaderActionModel::Deliver(parse_result_view(r)),
    }
}

/// The next connection state and action after an event.
pub fn reader_step(connected: bool, event: ReaderEvent, buf: &[u8]) -> (r: (bool, ReaderAction))
    ensures
        (r.0, action_view(r.1)) == spec_reader_step(connected, event, buf@),
{
    match event {
        ReaderEvent::DeviceOpened => (true, ReaderAction::Read),
        ReaderEvent::DeviceNotFound => (connected, ReaderAction::Retry(2)),
        ReaderEvent::LookupFailed => (connected, ReaderAction::Retry(2)),
        ReaderEvent::Received(size) => {
            if size > 0 {
                (connected, ReaderAction::Deliver(Protocol::parse(buf)))
            } else {
                (connected, ReaderAction::Read)
            }
        },
        ReaderEvent::ReadFailed => (false, ReaderAction::Retry(1)),
    }
}

} // verus!
