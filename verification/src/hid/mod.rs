//! The Raw HID side: packet format and the decisions of the reader loop.

use vstd::prelude::*;

pub mod protocol;
pub mod reader;

pub use protocol::{KeyPosition, Message, MessageType, Modifiers, ParseError, Protocol};

verus! {

/// Vendor id used by stock QMK firmware.
pub const QMK_VENDOR_ID: u16 = 0xFEED;

/// Vendor id of the foostan Corne.
pub const CORNE_VENDOR_ID: u16 = 0x4653;

/// HID usage page of the QMK Raw HID interface.
pub const RAW_HID_USAGE_PAGE: u16 = 0xFF60;

/// Size of every Raw HID packet, in bytes.
pub const HID_PACKET_SIZE: usize = 32;

} // verus!
