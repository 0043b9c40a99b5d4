use qmkview::hid::protocol::{
    ParseError, MSG_FULL_STATE, MSG_KEY_PRESS, MSG_KEY_RELEASE, MSG_LAYER_CHANGE, MSG_MODIFIER_STATE,
};
use qmkview::{KeyPosition, Message, Modifiers, Protocol};

#[test]
fn test_parse_layer_change() {
    let mut data = [0u8; 32];
    data[0] = MSG_LAYER_CHANGE;
    data[1] = 2;

    let msg = Protocol::parse(&data).unwrap();
    assert_eq!(msg, Message::LayerChange { layer: 2 });
}

#[test]
fn test_parse_key_press() {
    let mut data = [0u8; 32];
    data[0] = MSG_KEY_PRESS;
    data[1] = 1;
    data[2] = 3;
    data[3] = 1;

    let msg = Protocol::parse(&data).unwrap();
    assert_eq!(
        msg,
        Message::KeyPress(KeyPosition {
            row: 1,
            col: 3,
            is_left: true
        })
    );
}

#[test]
fn test_modifiers() {
    let mods = Modifiers {
        shift: true,
        ctrl: false,
        alt: true,
        gui: false,
    };

    let mask = mods.to_mask();
    assert_eq!(mask, 0x01 | 0x04);

    let parsed = Modifiers::from_mask(mask);
    assert_eq!(parsed, mods);
}

#[test]
fn test_roundtrip() {
    let msg = Message::FullState {
        layer: 1,
        modifiers: Modifiers {
            shift: true,
            ctrl: false,
            alt: false,
            gui: false,
        },
        pressed_keys: vec![
            KeyPosition {
                row: 0,
                col: 0,
                is_left: true,
            },
            KeyPosition {
                row: 2,
                col: 5,
                is_left: false,
            },
        ],
    };

    let encoded = Protocol::encode(&msg);
    let decoded = Protocol::parse(&encoded).unwrap();
    assert_eq!(msg, decoded);
}

#[test]
fn parse_rejects_wrong_size() {
    let data = [MSG_LAYER_CHANGE; 31];
    assert_eq!(Protocol::parse(&data), Err(ParseError::InvalidSize(31)));
    let data = [0u8; 33];
    assert_eq!(Protocol::parse(&data), Err(ParseError::InvalidSize(33)));
}

#[test]
fn parse_rejects_unknown_type() {
    let mut data = [0u8; 32];
    data[0] = 0x06;
    assert_eq!(Protocol::parse(&data), Err(ParseError::UnknownMessageType(6)));
    assert_eq!(Protocol::parse(&[0u8; 32]), Err(ParseError::UnknownMessageType(0)));
}

#[test]
fn parse_full_state_key_count_limit() {
    let mut data = [0u8; 32];
    data[0] = MSG_FULL_STATE;
    data[3] = 9;
    match Protocol::parse(&data).unwrap() {
        Message::FullState { pressed_keys, .. } => assert_eq!(pressed_keys.len(), 9),
        other => panic!("unexpected {:?}", other),
    }
    data[3] = 10;
    assert_eq!(Protocol::parse(&data), Err(ParseError::InvalidData));
    data[3] = 200;
    assert_eq!(Protocol::parse(&data), Err(ParseError::InvalidData));
}

#[test]
fn parse_release_and_modifiers() {
    let mut data = [0u8; 32];
    data[0] = MSG_KEY_RELEASE;
    data[1] = 3;
    data[2] = 2;
    data[3] = 7;
    assert_eq!(
        Protocol::parse(&data).unwrap(),
        Message::KeyRelease(KeyPosition { row: 3, col: 2, is_left: true })
    );
    let mut data = [0u8; 32];
    data[0] = MSG_MODIFIER_STATE;
    data[1] = 0xfa;
    assert_eq!(
        Protocol::parse(&data).unwrap(),
        Message::ModifierState(Modifiers { shift: false, ctrl: true, alt: false, gui: true })
    );
}

#[test]
fn mask_keeps_low_bits_only() {
    assert_eq!(Modifiers::from_mask(0xf5).to_mask(), 0x05);
    assert_eq!(Modifiers::from_mask(0xff).to_mask(), 0x0f);
    assert!(Modifiers::from_mask(0xf0).is_empty());
    assert!(!Modifiers::from_mask(0x08).is_empty());
}

#[test]
fn encode_layout_of_each_message() {
    let e = Protocol::encode(&Message::LayerChange { layer: 3 });
    assert_eq!(&e[..3], &[MSG_LAYER_CHANGE, 3, 0]);
    let e = Protocol::encode(&Message::KeyPress(KeyPosition { row: 2, col: 4, is_left: false }));
    assert_eq!(&e[..5], &[MSG_KEY_PRESS, 2, 4, 0, 0]);
    let e = Protocol::encode(&Message::ModifierState(Modifiers { shift: false, ctrl: true, alt: false, gui: true }));
    assert_eq!(&e[..3], &[MSG_MODIFIER_STATE, 0x0a, 0]);
    let e = Protocol::encode(&Message::DeviceReconnected);
    assert_eq!(e, [0u8; 32]);
    let keys: Vec<KeyPosition> = (0..9).map(|i| KeyPosition { row: i, col: i + 1, is_left: i % 2 == 0 }).collect();
    let msg = Message::FullState { layer: 2, modifiers: Modifiers::from_mask(0x03), pressed_keys: keys };
    let e = Protocol::encode(&msg);
    assert_eq!(e[3], 9);
    assert_eq!(&e[28..32], &[8, 9, 1, 0]);
    assert_eq!(Protocol::parse(&e).unwrap(), msg);
}

#[test]
fn roundtrip_every_small_message() {
    for kind in 0..4u8 {
        for v in [0u8, 1, 2, 5, 255] {
            let pos = KeyPosition { row: v, col: v.wrapping_add(1), is_left: v % 2 == 0 };
            let msg = match kind {
                0 => Message::LayerChange { layer: v },
                1 => Message::KeyPress(pos),
                2 => Message::KeyRelease(pos),
                _ => Message::ModifierState(Modifiers::from_mask(v)),
            };
            assert_eq!(Protocol::parse(&Protocol::encode(&msg)).unwrap(), msg);
        }
    }
}
