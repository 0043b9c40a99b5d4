//! Core logic of a HUD for QMK split keyboards: the Raw HID packet protocol,
//! the keyboard layout and layers, the live keyboard state, and a parser for
//! QMK `keymap.c` files.

pub mod config;
pub mod hid;
pub mod keyboard;
pub mod qmk_parser;
pub mod text;

pub use config::KeymapConfig;
pub use hid::{KeyPosition, Message, Modifiers, Protocol};
pub use keyboard::{KeyDef, KeyType, KeyboardState, Layer, Layout};
pub use qmk_parser::QmkKeymapParser;
