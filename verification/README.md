# qmkview

The core of QMKView, a heads-up overlay for QMK split keyboards (a Corne,
`LAYOUT_split_3x6_3`), as a library verified with Verus.

- `src/hid/protocol.rs`: the 32-byte Raw HID packets (parse and encode, with
  the encode/parse round trip proved).
- `src/hid/reader.rs`: which HID interface is the keyboard, and the decisions
  of the reader loop after each lookup or read.
- `src/keyboard/layout.rs`: the 42-key layout and its index/position bijection.
- `src/keyboard/layers.rs`: layers of key definitions and the default layers.
- `src/keyboard/state.rs`: the live keyboard state and how each message
  changes it.
- `src/keyboard/display.rs`: mirrored columns and key colours of the overlay.
- `src/qmk_parser.rs`: the `keymap.c` parser and keycode labels and types.
- `src/text.rs`: character-sequence searching, trimming and conversions.
- `src/config.rs`: the keymap settings and their defaults.

`app/` holds the program around it: configuration file, HID device and
reader thread, and the egui overlay.
