use qmkview::qmk_parser::ParseError;
use qmkview::{KeyType, KeymapConfig, QmkKeymapParser};

#[test]
fn test_simplify_keycode() {
    assert_eq!(QmkKeymapParser::simplify_keycode("KC_A"), "A");
    assert_eq!(QmkKeymapParser::simplify_keycode("KC_BSPC"), "⌫");
    assert_eq!(QmkKeymapParser::simplify_keycode("KC_ENT"), "↵");
    assert_eq!(QmkKeymapParser::simplify_keycode("XXXXXXX"), "XXXXXXX");
}

#[test]
fn test_classify_keycode() {
    assert_eq!(QmkKeymapParser::classify_keycode("KC_A"), KeyType::Letter);
    assert_eq!(QmkKeymapParser::classify_keycode("KC_1"), KeyType::Number);
    assert_eq!(QmkKeymapParser::classify_keycode("KC_EXLM"), KeyType::Symbol);
    assert_eq!(QmkKeymapParser::classify_keycode("KC_F1"), KeyType::Function);
    assert_eq!(QmkKeymapParser::classify_keycode("XXXXXXX"), KeyType::NoKey);
    assert_eq!(QmkKeymapParser::classify_keycode("_______"), KeyType::Transparent);
}

#[test]
fn test_parse_mod_tap() {
    let result = QmkKeymapParser::parse_mod_tap("MT(MOD_LALT, KC_A)");
    assert!(result.is_some());
    assert!(result.unwrap().contains("A"));
}

#[test]
fn simplify_more_keycodes() {
    assert_eq!(QmkKeymapParser::simplify_keycode("  KC_SPC "), "␣");
    assert_eq!(QmkKeymapParser::simplify_keycode("KC_LGUI"), "⌘");
    assert_eq!(QmkKeymapParser::simplify_keycode("KC_F12"), "F12");
    assert_eq!(QmkKeymapParser::simplify_keycode("KC_HOME"), "HOME");
    assert_eq!(QmkKeymapParser::simplify_keycode("KC_BSLS"), "\\");
    assert_eq!(QmkKeymapParser::simplify_keycode("_______"), "_______");
    assert_eq!(QmkKeymapParser::simplify_keycode("MT(MOD_LSFT, KC_ENT)"), "↵/Sft");
    assert_eq!(QmkKeymapParser::simplify_keycode("MT(MOD_HYPR, KC_Z)"), "Z/Mod");
    assert_eq!(QmkKeymapParser::simplify_keycode("MO(3)"), "↓3");
    assert_eq!(QmkKeymapParser::simplify_keycode("HM_A"), "A/Mod");
    assert_eq!(QmkKeymapParser::simplify_keycode("LT(1, KC_SPC)"), "LT(1, KC_SPC)");
    assert_eq!(QmkKeymapParser::simplify_keycode("QK_BOOT"), "QK_BOOT");
}

#[test]
fn mod_tap_variants() {
    assert_eq!(QmkKeymapParser::parse_mod_tap("MT(MOD_RGUI, KC_SCLN)").as_deref(), Some(";/Gui"));
    assert_eq!(QmkKeymapParser::parse_mod_tap("MT(MOD_LCTL,KC_MT)").as_deref(), Some("MT/Ctl"));
    assert_eq!(QmkKeymapParser::parse_mod_tap("HM_S"), Some("S/Mod".to_string()));
    assert_eq!(QmkKeymapParser::parse_mod_tap("MT(MOD_LALT KC_A)"), None);
    assert_eq!(QmkKeymapParser::parse_mod_tap("KC_A"), None);
}

#[test]
fn classify_more_keycodes() {
    assert_eq!(QmkKeymapParser::classify_keycode("MT(MOD_LALT, KC_A)"), KeyType::Modifier);
    assert_eq!(QmkKeymapParser::classify_keycode("HM_A"), KeyType::Modifier);
    assert_eq!(QmkKeymapParser::classify_keycode("MO(1)"), KeyType::Function);
    assert_eq!(QmkKeymapParser::classify_keycode("TG(2)"), KeyType::Function);
    assert_eq!(QmkKeymapParser::classify_keycode("KC_PGUP"), KeyType::Navigation);
    assert_eq!(QmkKeymapParser::classify_keycode("KC_RSFT"), KeyType::Modifier);
    assert_eq!(QmkKeymapParser::classify_keycode("KC_BSPC"), KeyType::Navigation);
    assert_eq!(QmkKeymapParser::classify_keycode("KC_z"), KeyType::Letter);
    assert_eq!(QmkKeymapParser::classify_keycode("KC_FOO"), KeyType::Function);
    assert_eq!(QmkKeymapParser::classify_keycode("KC_NUBS"), KeyType::Symbol);
    assert_eq!(QmkKeymapParser::classify_keycode("KC_F24"), KeyType::Function);
    assert_eq!(QmkKeymapParser::classify_keycode("UK_PND"), KeyType::Symbol);
    assert_eq!(QmkKeymapParser::classify_keycode("QK_BOOT"), KeyType::Function);
    assert_eq!(QmkKeymapParser::classify_keycode("RM_TOGG"), KeyType::Function);
    assert_eq!(QmkKeymapParser::classify_keycode("S(KC_1)"), KeyType::Symbol);
    assert_eq!(QmkKeymapParser::classify_keycode("FOO"), KeyType::Symbol);
}

const KEYMAP: &str = r#"
#include QMK_KEYBOARD_H

const uint16_t PROGMEM keymaps[][MATRIX_ROWS][MATRIX_COLS] = {
    [0] = LAYOUT_split_3x6_3(
  //,-----------------------------------------------------.
       KC_TAB,    KC_Q,    KC_W,    KC_E,    KC_R,    KC_T,         KC_Y,    KC_U,    KC_I,    KC_O,   KC_P,  KC_BSPC,
       KC_ESC,    HM_A,    KC_S,    KC_D,    KC_F,    KC_G,         KC_H,    KC_J,    KC_K,    KC_L, KC_SCLN, KC_QUOT,
      KC_LSFT,    KC_Z,    KC_X,    KC_C,    KC_V,    KC_B,         KC_N,    KC_M, KC_COMM,  KC_DOT, KC_SLSH,  KC_ESC,
                                          KC_LGUI,   MO(1),  KC_SPC,     KC_ENT,   MO(2), KC_RALT
  ),
    [1] = LAYOUT_split_3x6_3(
       KC_TAB,    KC_1,    KC_2,    KC_3,    KC_4,    KC_5, // digits
       _______, XXXXXXX
  ),
    [3] = LAYOUT_split_3x6_3( KC_A )
};
"#;

#[test]
fn parse_keymap_layers() {
    let layers = QmkKeymapParser::parse_keymap(KEYMAP).unwrap();
    assert_eq!(layers.len(), 2);
    assert_eq!(layers[0].len(), 42);
    let k = &layers[0][0];
    assert_eq!((k.row, k.col, k.is_left, k.keycode.as_str(), k.key_type), (0, 0, true, "⇥", KeyType::Navigation));
    let k = &layers[0][11];
    assert_eq!((k.row, k.col, k.is_left, k.keycode.as_str()), (0, 5, false, "⌫"));
    let k = &layers[0][13];
    assert_eq!((k.row, k.col, k.is_left, k.keycode.as_str(), k.key_type), (1, 1, true, "A/Mod", KeyType::Modifier));
    let k = &layers[0][37];
    assert_eq!((k.row, k.col, k.is_left, k.keycode.as_str(), k.key_type), (3, 1, true, "↓1", KeyType::Function));
    let k = &layers[0][41];
    assert_eq!((k.row, k.col, k.is_left, k.keycode.as_str()), (3, 2, false, "Alt"));
    assert_eq!(layers[1].len(), 8);
    let k = &layers[1][6];
    assert_eq!((k.row, k.col, k.is_left, k.keycode.as_str(), k.key_type), (0, 0, false, "_______", KeyType::Transparent));
    let k = &layers[1][7];
    assert_eq!((k.row, k.col, k.is_left, k.key_type), (0, 1, false, KeyType::NoKey));
}

#[test]
fn parse_keymap_errors() {
    match QmkKeymapParser::parse_keymap("int main() {}") {
        Err(ParseError::Parse(m)) => assert_eq!(m, "Could not find keymaps array"),
        other => panic!("unexpected {:?}", other),
    }
    match QmkKeymapParser::parse_keymap("const uint16_t PROGMEM keymaps[] = { [1] = LAYOUT(KC_A) };") {
        Err(ParseError::Parse(m)) => assert_eq!(m, "No layers found"),
        other => panic!("unexpected {:?}", other),
    }
    match QmkKeymapParser::parse_keymap("const uint16_t PROGMEM keymaps[] = { [0] = LAYOUT(KC_A, (KC_B };") {
        Err(ParseError::Parse(m)) => assert_eq!(m, "No layers found"),
        other => panic!("unexpected {:?}", other),
    }
}

#[test]
fn parse_keymap_crlf_comments_and_nesting() {
    let text = "const uint16_t PROGMEM keymaps[] = {\r\n [0] = LAYOUT( MT(MOD_LCTL, KC_A), // a, b\r\n KC_B ,, LT(1, KC_C)\r\n )\r\n};";
    let layers = QmkKeymapParser::parse_keymap(text).unwrap();
    assert_eq!(layers.len(), 1);
    let codes: Vec<&str> = layers[0].iter().map(|k| k.keycode.as_str()).collect();
    assert_eq!(codes, vec!["A/Ctl", "B", "LT(1, KC_C)"]);
    assert_eq!(layers[0][2].key_type, KeyType::Function);
    assert_eq!((layers[0][2].row, layers[0][2].col, layers[0][2].is_left), (0, 2, true));
}

#[test]
fn keymap_config_defaults() {
    let c = KeymapConfig::default_for_home("/home/jk");
    assert_eq!(c.keymap_path.as_deref(), Some("/home/jk/qmk_firmware/keyboards/crkbd/keymaps/jk/keymap.c"));
    assert_eq!(c.layer_names, vec!["Base", "Lower", "Raise", "Adjust"]);
}
