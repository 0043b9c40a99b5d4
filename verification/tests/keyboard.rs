use qmkview::qmk_parser::ParseError;
use qmkview::keyboard::display::{display_col, key_color, key_colors};
use qmkview::{KeyDef, KeyPosition, KeyType, KeyboardState, Layer, Layout, Message, Modifiers};

fn create_test_layer() -> Layer {
    Layer::new("Test", vec![])
}

fn create_test_layer_with_keys() -> Layer {
    Layer::new(
        "Test",
        vec![
            // Right hand row 0: col 0=Y (inner), col 5=Bksp (pinky)
            KeyDef { row: 0, col: 0, is_left: false, keycode: "Y".into(), key_type: KeyType::Letter },
            KeyDef { row: 0, col: 5, is_left: false, keycode: "Bksp".into(), key_type: KeyType::Navigation },
        ],
    )
}

#[test]
fn test_create_default_layers() {
    let layers = Layer::create_default_layers();
    assert_eq!(layers.len(), 4);
    assert_eq!(layers[0].name, "Base");
    assert_eq!(layers[1].name, "Lower");
    assert_eq!(layers[2].name, "Raise");
    assert_eq!(layers[3].name, "Adjust");
}

#[test]
fn test_layer_get_key() {
    let layer = Layer::create_base_layer();
    let key = layer.get_key(0, 1, true);
    assert!(key.is_some());
    assert_eq!(key.unwrap().keycode, "Q");
}

#[test]
fn test_layout_dimensions() {
    let layout = Layout::new();
    assert_eq!(layout.rows(), 4); // 3 main rows + 1 thumb row
    assert_eq!(layout.cols(), 6); // Max columns (main rows)
    assert_eq!(layout.total_keys(), 42); // (3*6 + 3) * 2
}

#[test]
fn test_key_index() {
    let layout = Layout::new();

    // Left hand
    assert_eq!(layout.key_index(0, 0, true), Some(0));
    assert_eq!(layout.key_index(0, 5, true), Some(5));
    assert_eq!(layout.key_index(2, 5, true), Some(17));

    // Right hand starts at 21
    assert_eq!(layout.key_index(0, 0, false), Some(21));
    assert_eq!(layout.key_index(2, 5, false), Some(38));
}

#[test]
fn test_position_roundtrip() {
    let layout = Layout::new();

    for i in 0..layout.total_keys() {
        let (row, col, is_left) = layout.position_from_index(i).unwrap();
        let index = layout.key_index(row, col, is_left).unwrap();
        assert_eq!(index, i);
    }
}

#[test]
fn layout_rejects_positions_off_the_board() {
    let layout = Layout::default();
    assert_eq!(layout.key_index(3, 3, true), None);
    assert_eq!(layout.key_index(4, 0, false), None);
    assert_eq!(layout.key_index(0, 6, true), None);
    assert_eq!(layout.key_index(3, 2, false), Some(41));
    assert!(layout.is_valid_position(3, 2));
    assert!(!layout.is_valid_position(3, 3));
    assert_eq!(layout.position_from_index(42), None);
    assert_eq!(layout.position_from_index(20), Some((3, 2, true)));
    assert_eq!(layout.position_from_index(27), Some((1, 0, false)));
}

#[test]
fn test_state_layer_change() {
    let mut state = KeyboardState::new(vec![create_test_layer(), create_test_layer()]);

    assert_eq!(state.current_layer(), 0);

    state.apply_message(Message::LayerChange { layer: 1 });
    assert_eq!(state.current_layer(), 1);
}

#[test]
fn test_state_key_press() {
    let mut state = KeyboardState::new(vec![create_test_layer()]);

    assert!(!state.is_key_pressed(0, 0, true));

    state.apply_message(Message::KeyPress(KeyPosition { row: 0, col: 0, is_left: true }));
    assert!(state.is_key_pressed(0, 0, true));

    state.apply_message(Message::KeyRelease(KeyPosition { row: 0, col: 0, is_left: true }));
    assert!(!state.is_key_pressed(0, 0, true));
}

#[test]
fn test_state_modifiers() {
    let mut state = KeyboardState::new(vec![create_test_layer()]);

    assert!(state.modifiers().is_empty());

    state.apply_message(Message::ModifierState(Modifiers {
        shift: true,
        ctrl: false,
        alt: false,
        gui: false,
    }));

    assert!(state.modifiers().shift);
}

#[test]
fn test_right_hand_key_lookup() {
    let state = KeyboardState::new(vec![create_test_layer_with_keys()]);

    let key = state.get_key_at(0, 0, false);
    assert!(key.is_some());
    assert_eq!(key.unwrap().keycode, "Y");

    let key = state.get_key_at(0, 5, false);
    assert!(key.is_some());
    assert_eq!(key.unwrap().keycode, "Bksp");
}

#[test]
fn full_state_replaces_pressed_keys() {
    let mut state = KeyboardState::new(vec![create_test_layer()]);
    state.apply_message(Message::KeyPress(KeyPosition { row: 1, col: 1, is_left: true }));
    state.apply_message(Message::FullState {
        layer: 2,
        modifiers: Modifiers::from_mask(0x04),
        pressed_keys: vec![
            KeyPosition { row: 0, col: 3, is_left: false },
            KeyPosition { row: 3, col: 1, is_left: true },
        ],
    });
    assert_eq!(state.current_layer(), 2);
    assert!(state.modifiers().alt && !state.modifiers().shift);
    assert!(!state.is_key_pressed(1, 1, true));
    assert!(state.is_key_pressed(0, 3, false));
    assert!(state.is_key_pressed(3, 1, true));
    assert!(!state.is_key_pressed(3, 1, false));
    assert_eq!(state.layer_name(), "Unknown");
    assert!(state.get_key_at(0, 0, true).is_none());
    assert!(state.get_current_layer_keys().is_empty());
}

#[test]
fn press_release_and_reconnect_notice() {
    let mut state = KeyboardState::new(vec![create_test_layer_with_keys()]);
    let p = KeyPosition { row: 2, col: 4, is_left: false };
    state.apply_message(Message::KeyPress(p.clone()));
    state.apply_message(Message::KeyPress(p.clone()));
    assert!(state.is_key_pressed(2, 4, false));
    assert!(!state.is_key_pressed(2, 4, true));
    state.apply_message(Message::DeviceReconnected);
    assert!(state.is_key_pressed(2, 4, false));
    state.apply_message(Message::KeyRelease(p));
    assert!(!state.is_key_pressed(2, 4, false));
    assert_eq!(state.layer_name(), "Test");
    assert_eq!(state.get_current_layer_keys().len(), 2);
    state.reload_layers(Layer::create_default_layers());
    assert_eq!(state.layer_name(), "Base");
    assert_eq!(state.get_current_layer_keys().len(), 36);
    assert_eq!(state.layout().total_keys(), 42);
}

#[test]
fn later_key_wins_a_shared_position() {
    let layer = Layer::new(
        "L",
        vec![
            KeyDef { row: 1, col: 2, is_left: true, keycode: "A".into(), key_type: KeyType::Letter },
            KeyDef { row: 1, col: 2, is_left: true, keycode: "B".into(), key_type: KeyType::Letter },
            KeyDef { row: 1, col: 2, is_left: false, keycode: "C".into(), key_type: KeyType::Letter },
        ],
    );
    assert_eq!(layer.get_key(1, 2, true).unwrap().keycode, "B");
    assert_eq!(layer.get_key(1, 2, false).unwrap().keycode, "C");
    assert!(layer.get_key(2, 1, true).is_none());
    let mut codes: Vec<String> = layer.all_keys().iter().map(|k| k.keycode.clone()).collect();
    codes.sort();
    assert_eq!(codes, vec!["B".to_string(), "C".to_string()]);
}

#[test]
fn parsed_layers_are_named_in_order() {
    let parsed = vec![
        vec![KeyDef { row: 0, col: 0, is_left: true, keycode: "A".into(), key_type: KeyType::Letter }],
        vec![],
        vec![],
    ];
    let layers = Layer::from_parsed_layers(parsed, vec!["Base".to_string(), "Nav".to_string()]);
    assert_eq!(layers.len(), 3);
    assert_eq!(layers[0].name, "Base");
    assert_eq!(layers[1].name, "Nav");
    assert_eq!(layers[2].name, "Layer 2");
    assert_eq!(layers[0].get_key(0, 0, true).unwrap().keycode, "A");
}

#[test]
fn default_layers_contents() {
    let layers = Layer::create_default_layers();
    assert_eq!(layers[0].get_key(0, 5, false).unwrap().keycode, "Bksp");
    assert_eq!(layers[0].get_key(2, 0, true).unwrap().key_type, KeyType::Modifier);
    assert_eq!(layers[1].get_key(0, 4, false).unwrap().keycode, "0");
    assert_eq!(layers[2].get_key(0, 5, true).unwrap().keycode, "%");
    assert_eq!(layers[3].get_key(0, 4, true).unwrap().keycode, "F4");
    assert_eq!(layers[1].all_keys().len(), 10);
    assert_eq!(layers[2].all_keys().len(), 5);
    assert_eq!(layers[3].all_keys().len(), 4);
}

#[test]
fn display_columns_and_colours() {
    assert_eq!(display_col(0, 1, true), 1);
    assert_eq!(display_col(0, 0, false), 5);
    assert_eq!(display_col(3, 0, false), 2);
    assert_eq!(key_color(KeyType::Letter), (100, 150, 255));
    assert_eq!(key_color(KeyType::NoKey), (50, 50, 50));
    let c = key_colors(true, Some(KeyType::Letter));
    assert_eq!(c.fill, (255, 255, 0, 200));
    assert_eq!(c.text, (0, 0, 0, 255));
    let c = key_colors(false, Some(KeyType::Function));
    assert_eq!(c.fill, (255, 100, 100, 120));
    assert_eq!(c.stroke, (255, 100, 100, 200));
    let c = key_colors(false, None);
    assert_eq!(c.stroke, (80, 80, 80, 100));
}

#[test]
fn load_layers_falls_back_to_defaults() {
    let parsed = vec![vec![KeyDef { row: 0, col: 0, is_left: true, keycode: "A".into(), key_type: KeyType::Letter }]];
    let layers = Layer::load_layers(Some(Ok(parsed)), vec![]);
    assert_eq!(layers.len(), 1);
    assert_eq!(layers[0].name, "Layer 0");
    let layers = Layer::load_layers(Some(Err(ParseError::Parse("No layers found".to_string()))), vec![]);
    assert_eq!(layers.len(), 4);
    assert_eq!(layers[0].name, "Base");
    let layers = Layer::load_layers(None, vec!["X".to_string()]);
    assert_eq!(layers[3].name, "Adjust");
}
