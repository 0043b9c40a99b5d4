//! A parser for the `keymaps` array of a QMK `keymap.c` written with
//! `LAYOUT_split_3x6_3`: it finds each layer `[n] = LAYOUT(...)`, splits it
//! into keycodes, and turns each keycode into a short label and a key type.
//!
//! All positions are counted in characters.

use crate::keyboard::layout::{spec_key_index, valid_position, KeyDef, KeyDefView, KeyType};
use crate::text::{
    chars_eq, decimal, decimal_chars, find, find_chars, find_in, lemma_find_in, lemma_trim_len,
    lemma_utf8_len_at_least_len, opt_int, utf8_width, push_chars, rfind_char, rfind_char_exec, starts_with,
    starts_with_chars, str_chars, string_from_chars, sub_chars, trim, trim_chars, trim_range,
    trim_end, trim_start, utf8_len, utf8_len_at_most,
};
use vstd::prelude::*;

verus! {

broadcast use vstd::string::group_string_axioms;

/// The `std::io::Error` that reading a keymap file can fail with.
#[verifier::external_type_specification]
#[verifier::external_body]
pub struct ExIoError(std::io::Error);

/// Why a keymap could not be read.
#[derive(Debug)]
pub enum ParseError {
    /// The file could not be read.
    Io(std::io::Error),
    /// The text is not a keymap this parser understands; why.
    Parse(String),
}

// ---------------------------------------------------------------------------
// Keycodes

/// The labels shown for common keycodes (with `KC_` dropped), in the order
/// they are tried.
pub open spec fn display_table() -> Seq<(Seq<char>, Seq<char>)> {
    seq![
        ("BSPC"@, "\u{232b}"@),
        ("ENT"@, "\u{21b5}"@),
        ("ENTER"@, "\u{21b5}"@),
        ("SPC"@, "\u{2423}"@),
        ("SPACE"@, "\u{2423}"@),
        ("TAB"@, "\u{21e5}"@),
        ("ESC"@, "Esc"@),
        ("LGUI"@, "\u{2318}"@),
        ("RGUI"@, "\u{2318}"@),
        ("LALT"@, "Alt"@),
        ("RALT"@, "Alt"@),
        ("LCTL"@, "Ctrl"@),
        ("RCTL"@, "Ctrl"@),
        ("LSFT"@, "Shift"@),
        ("RSFT"@, "Shift"@),
        ("UP"@, "\u{2191}"@),
        ("DOWN"@, "\u{2193}"@),
        ("LEFT"@, "\u{2190}"@),
        ("RIGHT"@, "\u{2192}"@),
        ("COMM"@, ","@),
        ("DOT"@, "."@),
        ("SLSH"@, "/"@),
        ("SCLN"@, ";"@),
        ("QUOT"@, "'"@),
        ("GRV"@, "`"@),
        ("MINS"@, "-"@),
        ("EQL"@, "="@),
        ("LBRC"@, "["@),
        ("RBRC"@, "]"@),
        ("BSLS"@, "\\"@),
        ("NUHS"@, "#"@),
        ("EXLM"@, "!"@),
        ("AT"@, "@"@),
        ("HASH"@, "#"@),
        ("DLR"@, "$"@),
        ("PERC"@, "%"@),
        ("CIRC"@, "^"@),
        ("AMPR"@, "&"@),
        ("ASTR"@, "*"@),
        ("LPRN"@, "("@),
        ("RPRN"@, ")"@),
        ("UNDS"@, "_"@),
        ("PLUS"@, "+"@),
        ("LCBR"@, "{"@),
        ("RCBR"@, "}"@),
        ("PIPE"@, "|"@),
        ("TILD"@, "~"@),
    ]
}

/// The value of the first entry of `t` whose name is `d`.
pub open spec fn table_lookup(t: Seq<(Seq<char>, Seq<char>)>, d: Seq<char>) -> Option<Seq<char>>
    decreases t.len(),
{
    if t.len() == 0 {
        None
    } else if t[0].0 == d {
        Some(t[0].1)
    } else {
        table_lookup(t.drop_first(), d)
    }
}

/// The label of a keycode name: its entry in the display table, or the name itself.
pub open spec fn display_name(d: Seq<char>) -> Seq<char> {
    match table_lookup(display_table(), d) {
        Some(label) => label,
        None => d,
    }
}

/// The short name of a `MOD_*` modifier.
pub open spec fn mod_name(m: Seq<char>) -> Seq<char> {
    if m == "MOD_LALT"@ || m == "MOD_RALT"@ {
        "Alt"@
    } else if m == "MOD_LGUI"@ || m == "MOD_RGUI"@ {
        "Gui"@
    } else if m == "MOD_LCTL"@ || m == "MOD_RCTL"@ {
        "Ctl"@
    } else if m == "MOD_LSFT"@ || m == "MOD_RSFT"@ {
        "Sft"@
    } else {
        "Mod"@
    }
}

/// The label of a keycode.
pub open spec fn spec_simplify(s: Seq<char>) -> Seq<char>
    decreases s.len(), 1nat,
{
    let kc = trim(s);
    proof {
        lemma_trim_len(s);
    }
    if kc == "XXXXXXX"@ || kc == "_______"@ {
        kc
    } else if starts_with(kc, "KC_"@) {
        display_name(kc.subrange(3, kc.len() as int))
    } else if spec_mod_tap(kc) is Some {
        spec_mod_tap(kc)->0
    } else if spec_momentary(kc) is Some {
        spec_momentary(kc)->0
    } else {
        display_name(kc)
    }
}

/// The label of a mod-tap keycode `MT(MOD_x, key)` (the key's label, `/`, the
/// modifier's short name) or of a home-row-mod macro `HM_key` (`key/Mod`).
pub open spec fn spec_mod_tap(kc: Seq<char>) -> Option<Seq<char>>
    decreases kc.len(), 0nat,
{
    if starts_with(kc, "MT("@) && rfind_char(kc, ')') is Some && find_in(
        kc,
        seq![','],
        3,
        rfind_char(kc, ')')->0,
    ) is Some {
        let close = rfind_char(kc, ')')->0;
        let comma = find_in(kc, seq![','], 3, close)->0;
        let mod_part = trim(kc.subrange(3, comma));
        let key_part = trim(kc.subrange(comma + 1, close));
        proof {
            lemma_find_in(kc, seq![','], 3, close);
            lemma_rfind_char(kc, ')');
            lemma_trim_len(kc.subrange(comma + 1, close));
        }
        Some(spec_simplify(key_part) + "/"@ + mod_name(mod_part))
    } else if starts_with(kc, "HM_"@) {
        Some(kc.subrange(3, kc.len() as int) + "/Mod"@)
    } else {
        None
    }
}

/// The label of a momentary-layer keycode `MO(n)`: a down arrow and `n`.
pub open spec fn spec_momentary(kc: Seq<char>) -> Option<Seq<char>> {
    if starts_with(kc, "MO("@) && find(kc, seq![')']) is Some {
        Some("\u{2193}"@ + kc.subrange(3, find(kc, seq![')'])->0))
    } else {
        None
    }
}

/// Keycode names (with `KC_` dropped) of navigation keys.
pub open spec fn navigation_names() -> Seq<Seq<char>> {
    seq!["UP"@, "DOWN"@, "LEFT"@, "RIGHT"@, "HOME"@, "END"@, "PGUP"@, "PGDN"@]
}

/// Keycode names of modifiers.
pub open spec fn modifier_names() -> Seq<Seq<char>> {
    seq!["LSFT"@, "RSFT"@, "LCTL"@, "RCTL"@, "LALT"@, "RALT"@, "LGUI"@, "RGUI"@]
}

/// Keycode names of symbols.
pub open spec fn symbol_names() -> Seq<Seq<char>> {
    seq![
        "EXLM"@,
        "AT"@,
        "HASH"@,
        "DLR"@,
        "PERC"@,
        "CIRC"@,
        "AMPR"@,
        "ASTR"@,
        "LPRN"@,
        "RPRN"@,
        "MINS"@,
        "UNDS"@,
        "EQL"@,
        "PLUS"@,
        "LBRC"@,
        "RBRC"@,
        "LCBR"@,
        "RCBR"@,
        "BSLS"@,
        "PIPE"@,
        "SCLN"@,
        "COMM"@,
        "DOT"@,
        "SLSH"@,
        "GRV"@,
        "TILD"@,
        "QUOT"@,
    ]
}

/// Keycode names of editing keys, shown as navigation.
pub open spec fn editing_names() -> Seq<Seq<char>> {
    seq!["BSPC"@, "ENT"@, "SPC"@, "TAB"@, "ESC"@, "DEL"@]
}

/// Whether `c` is an ASCII digit.
pub open spec fn is_ascii_digit(c: char) -> bool {
    '0' <= c <= '9'
}

/// Whether `c` is an ASCII letter.
pub open spec fn is_ascii_alphabetic(c: char) -> bool {
    ('A' <= c <= 'Z') || ('a' <= c <= 'z')
}

/// The type of a `KC_` keycode, from its name; `None` when the name is in
/// none of the known groups.
pub open spec fn kc_class(base: Seq<char>) -> Option<KeyType> {
    if base.len() > 0 && base[0] == 'F' && utf8_len(base) <= 3 {
        Some(KeyType::Function)
    } else if navigation_names().contains(base) {
        Some(KeyType::Navigation)
    } else if modifier_names().contains(base) {
        Some(KeyType::Modifier)
    } else if utf8_len(base) == 1 && is_ascii_digit(base[0]) {
        Some(KeyType::Number)
    } else if utf8_len(base) == 1 && is_ascii_alphabetic(base[0]) {
        Some(KeyType::Letter)
    } else if symbol_names().contains(base) {
        Some(KeyType::Symbol)
    } else if editing_names().contains(base) {
        Some(KeyType::Navigation)
    } else {
        None
    }
}

/// The type of a keycode.
pub open spec fn spec_classify(s: Seq<char>) -> KeyType {
    let kc = trim(s);
    if kc == "XXXXXXX"@ {
        KeyType::NoKey
    } else if kc == "_______"@ {
        KeyType::Transparent
    } else if starts_with(kc, "MT("@) || starts_with(kc, "HM_"@) {
        KeyType::Modifier
    } else if starts_with(kc, "MO("@) || starts_with(kc, "LT("@) || starts_with(kc, "TG("@) {
        KeyType::Function
    } else if starts_with(kc, "KC_"@) && kc_class(kc.subrange(3, kc.len() as int)) is Some {
        kc_class(kc.subrange(3, kc.len() as int))->0
    } else if starts_with(kc, "UK_"@) || starts_with(kc, "S("@) {
        KeyType::Symbol
    } else if starts_with(kc, "QK_"@) || starts_with(kc, "RM_"@) {
        KeyType::Function
    } else {
        KeyType::Symbol
    }
}

// ---------------------------------------------------------------------------
// Layers

/// The text from `start` on with every line cut at its first `//`, each line
/// followed by one space. Lines end at `\n` or `\r\n`.
pub open spec fn strip_comments_from(s: Seq<char>, start: int) -> Seq<char>
    decreases s.len() - start,
{
    if start < 0 || start >= s.len() {
        seq![]
    } else {
        let nl = find_in(s, seq!['\n'], start, s.len() as int);
        let line_end = match nl {
            Some(i) => if i > start && s[i - 1] == '\r' {
                i - 1
            } else {
                i
            },
            None => s.len() as int,
        };
        let next = match nl {
            Some(i) => i + 1,
            None => s.len() as int,
        };
        let cut = match find_in(s, "//"@, start, line_end) {
            Some(j) => j,
            None => line_end,
        };
        proof {
            lemma_find_in(s, seq!['\n'], start, s.len() as int);
        }
        s.subrange(start, cut) + seq![' '] + strip_comments_from(s, next)
    }
}

/// The text with comments dropped.
pub open spec fn spec_remove_comments(s: Seq<char>) -> Seq<char> {
    strip_comments_from(s, 0)
}

/// `[t]` where `t` is not empty, `[]` where it is.
pub open spec fn keep_nonempty(t: Seq<char>) -> Seq<Seq<char>> {
    if t.len() == 0 {
        seq![]
    } else {
        seq![t]
    }
}

/// The first comma from `i` on that is outside parentheses, `depth` being the
/// number of parentheses open at `i`; a `)` with none open is ignored.
pub open spec fn top_level_comma(s: Seq<char>, i: int, depth: nat) -> Option<int>
    decreases s.len() - i,
{
    if i < 0 || i >= s.len() {
        None
    } else if s[i] == ',' && depth == 0 {
        Some(i)
    } else if s[i] == '(' {
        top_level_comma(s, i + 1, depth + 1)
    } else if s[i] == ')' {
        top_level_comma(
            s,
            i + 1,
            if depth > 0 {
                (depth - 1) as nat
            } else {
                0
            },
        )
    } else {
        top_level_comma(s, i + 1, depth)
    }
}

/// The pieces of the text from `start` on between commas outside
/// parentheses (so that `MT(MOD_LALT, KC_A)` stays one keycode), trimmed,
/// without the empty ones.
pub open spec fn tokens_from(s: Seq<char>, start: int) -> Seq<Seq<char>>
    decreases s.len() + 1 - start,
{
    if start < 0 || start > s.len() {
        seq![]
    } else {
        match top_level_comma(s, start, 0) {
            Some(i) => {
                proof {
                    lemma_top_level_comma(s, start, 0);
                }
                keep_nonempty(trim(s.subrange(start, i))) + tokens_from(s, i + 1)
            },
            None => keep_nonempty(trim(s.subrange(start, s.len() as int))),
        }
    }
}

/// Where `top_level_comma` finds a comma.
pub proof fn lemma_top_level_comma(s: Seq<char>, i: int, depth: nat)
    ensures
        top_level_comma(s, i, depth) matches Some(j) ==> i <= j < s.len() && s[j] == ',',
    decreases s.len() - i,
{
    if i < 0 || i >= s.len() {
    } else if s[i] == ',' && depth == 0 {
    } else if s[i] == '(' {
        lemma_top_level_comma(s, i + 1, depth + 1);
    } else if s[i] == ')' {
        lemma_top_level_comma(
            s,
            i + 1,
            if depth > 0 {
                (depth - 1) as nat
            } else {
                0
            },
        );
    } else {
        lemma_top_level_comma(s, i + 1, depth);
    }
}

/// The keycodes of a layer's text.
pub open spec fn spec_tokens(s: Seq<char>) -> Seq<Seq<char>> {
    tokens_from(s, 0)
}

/// The keys a `LAYOUT_split_3x6_3` lists.
pub open spec fn layout_key_count() -> int {
    42
}

/// The key that the `i`-th keycode of a layer stands for. The layout lists,
/// for each of the rows 0 to 2, six left keys then six right keys; then the
/// three left thumb keys and the three right thumb keys.
pub open spec fn layer_slot(i: int) -> (u8, u8, bool) {
    if i < 36 {
        ((i / 12) as u8, ((i % 12) % 6) as u8, i % 12 < 6)
    } else if i < 39 {
        (3u8, (i - 36) as u8, true)
    } else {
        (3u8, (i - 39) as u8, false)
    }
}

/// The key definition for the `i`-th keycode `token` of a layer.
pub open spec fn key_def_of(i: int, token: Seq<char>) -> KeyDefView {
    let p = layer_slot(i);
    KeyDefView {
        row: p.0,
        col: p.1,
        is_left: p.2,
        keycode: spec_simplify(token),
        key_type: spec_classify(token),
    }
}

/// The keys of a layer's text: one per keycode, for the first 42 keycodes.
pub open spec fn spec_parse_layer(content: Seq<char>) -> Seq<KeyDefView> {
    let toks = spec_tokens(spec_remove_comments(content));
    let n = if toks.len() < layout_key_count() {
        toks.len() as int
    } else {
        layout_key_count()
    };
    Seq::new(n as nat, |i: int| key_def_of(i, toks[i]))
}

/// The index of the `)` that closes a parenthesis opened before `i`, with
/// `depth` parentheses open at `i`.
pub open spec fn paren_close(s: Seq<char>, i: int, depth: int) -> Option<int>
    decreases s.len() - i,
{
    if i < 0 || i >= s.len() {
        None
    } else if s[i] == '(' {
        paren_close(s, i + 1, depth + 1)
    } else if s[i] == ')' {
        if depth - 1 == 0 {
            Some(i)
        } else {
            paren_close(s, i + 1, depth - 1)
        }
    } else {
        paren_close(s, i + 1, depth)
    }
}

/// The text that heads the keymaps array.
pub open spec fn keymaps_marker() -> Seq<char> {
    "const uint16_t PROGMEM keymaps"@
}

/// The text that heads layer `n`.
pub open spec fn layer_pattern(n: nat) -> Seq<char> {
    "["@ + decimal(n) + "] = LAYOUT"@
}

/// The layers of `sec` from `pos` on, the next one being layer `n`: each is the
/// text between the `(` after `[n] = LAYOUT` and its matching `)`; the search
/// stops at the first layer that is missing or unclosed.
pub open spec fn layers_from(sec: Seq<char>, pos: int, n: nat) -> Seq<Seq<KeyDefView>>
    decreases sec.len() - pos,
{
    if pos < 0 || pos > sec.len() {
        seq![]
    } else {
        match find_in(sec, layer_pattern(n), pos, sec.len() as int) {
            None => seq![],
            Some(ls) => match find_in(sec, seq!['('], ls, sec.len() as int) {
                None => seq![],
                Some(p) => match paren_close(sec, p + 1, 1) {
                    None => seq![],
                    Some(pe) => {
                        proof {
                            lemma_find_in(sec, layer_pattern(n), pos, sec.len() as int);
                            lemma_find_in(sec, seq!['('], ls, sec.len() as int);
                            lemma_paren_close(sec, p + 1, 1);
                        }
                        seq![spec_parse_layer(sec.subrange(p + 1, pe))] + layers_from(
                            sec,
                            pe,
                            n + 1,
                        )
                    },
                },
            },
        }
    }
}

/// The layers of a keymap file, or the message of why there are none.
pub open spec fn spec_parse_keymap(content: Seq<char>) -> Result<Seq<Seq<KeyDefView>>, Seq<char>> {
    match find(content, keymaps_marker()) {
        None => Err("Could not find keymaps array"@),
        Some(k) => {
            let layers = layers_from(content.subrange(k, content.len() as int), 0, 0);
            if layers.len() == 0 {
                Err("No layers found"@)
            } else {
                Ok(layers)
            }
        },
    }
}

/// A list of key definitions by their views.
pub open spec fn keys_view(v: Seq<KeyDef>) -> Seq<KeyDefView> {
    v.map_values(|k: KeyDef| k@)
}

/// A list of layers by their views.
pub open spec fn layers_view(v: Seq<Vec<KeyDef>>) -> Seq<Seq<KeyDefView>> {
    v.map_values(|l: Vec<KeyDef>| keys_view(l@))
}

/// The keycodes of a layer fill the keys of the layout one to one: the
/// `i`-th keycode goes to a key of the keyboard, no two keycodes go to the
/// same key.
pub proof fn lemma_layer_slots_fill_layout(i: int, j: int)
    requires
        0 <= i < layout_key_count(),
        0 <= j < layout_key_count(),
    ensures
        valid_position(layer_slot(i).0, layer_slot(i).1),
        i != j ==> layer_slot(i) != layer_slot(j),
        spec_key_index(layer_slot(i).0, layer_slot(i).1, layer_slot(i).2) is Some,
{
}

/// Every key that a layer's text yields sits on the keyboard, and no two of
/// them share a position.
pub proof fn lemma_parsed_layer_fits_layout(content: Seq<char>)
    ensures
        spec_parse_layer(content).len() <= layout_key_count(),
        forall|i: int|
            0 <= i < spec_parse_layer(content).len() ==> valid_position(
                #[trigger] spec_parse_layer(content)[i].row,
                spec_parse_layer(content)[i].col,
            ),
        forall|i: int, j: int|
            0 <= i < j < spec_parse_layer(content).len() ==> (#[trigger] spec_parse_layer(
                content,
            )[i]).position() != (#[trigger] spec_parse_layer(content)[j]).position(),
{
    let l = spec_parse_layer(content);
    assert forall|i: int| 0 <= i < l.len() implies valid_position(#[trigger] l[i].row, l[i].col) by {
        lemma_layer_slots_fill_layout(i, i);
    }
    assert forall|i: int, j: int| 0 <= i < j < l.len() implies (#[trigger] l[i]).position() != (
    #[trigger] l[j]).position() by {
        lemma_layer_slots_fill_layout(i, j);
    }
}

/// The keycodes of a `LAYOUT_split_3x6_3` layer are assigned in listing
/// order: for each main row, six left keys from column 0 to 5, then six right
/// keys from column 0 to 5; then the left thumb keys from column 0 to 2, then
/// the right thumb keys from column 0 to 2. The `i`-th key also carries the
/// label and type of the `i`-th keycode.
pub proof fn lemma_layer_keys_in_listing_order(content: Seq<char>, i: int)
    requires
        0 <= i < spec_parse_layer(content).len(),
    ensures
        ({
            let k = spec_parse_layer(content)[i];
            let toks = spec_tokens(spec_remove_comments(content));
            &&& i < 36 ==> k.row == i / 12 && k.col == i % 12 % 6 && k.is_left == (i % 12 < 6)
            &&& 36 <= i < 39 ==> k.row == 3 && k.col == i - 36 && k.is_left
            &&& 39 <= i ==> i < 42 && k.row == 3 && k.col == i - 39 && !k.is_left
            &&& k.keycode == spec_simplify(toks[i])
            &&& k.key_type == spec_classify(toks[i])
        }),
{
}

/// Consecutive keycodes of a layer that land on the same row of the same half
/// land on neighbouring columns, the later one to the right; and each row of
/// each half starts at column 0.
pub proof fn lemma_layer_columns_ascend(content: Seq<char>, i: int)
    requires
        0 <= i < spec_parse_layer(content).len(),
    ensures
        ({
            let l = spec_parse_layer(content);
            &&& (i == 0 || l[i].row != l[i - 1].row || l[i].is_left != l[i - 1].is_left)
                ==> l[i].col == 0
            &&& (i > 0 && l[i].row == l[i - 1].row && l[i].is_left == l[i - 1].is_left) ==> l[i].col
                == l[i - 1].col + 1
        }),
{
}

/// Every keycode `KC_d` with `d` an ASCII digit is a number key.
pub proof fn lemma_kc_digit_is_number(d: char)
    requires
        '0' <= d <= '9',
    ensures
        spec_classify("KC_"@ + seq![d]) == KeyType::Number,
{
    lemma_kc_single_char("KC_"@ + seq![d], d);
}

/// Every keycode `KC_c` with `c` an ASCII letter other than `F` is a letter
/// key; `KC_F` counts as a function key, like `KC_F1`.
pub proof fn lemma_kc_letter_is_letter(c: char)
    requires
        ('A' <= c <= 'Z') || ('a' <= c <= 'z'),
    ensures
        c != 'F' ==> spec_classify("KC_"@ + seq![c]) == KeyType::Letter,
        c == 'F' ==> spec_classify("KC_"@ + seq![c]) == KeyType::Function,
{
    lemma_kc_single_char("KC_"@ + seq![c], c);
}

proof fn lemma_kc_single_char(s: Seq<char>, c: char)
    requires
        s == "KC_"@ + seq![c],
        ('0' <= c <= '9') || ('A' <= c <= 'Z') || ('a' <= c <= 'z'),
    ensures
        trim(s) == s,
        starts_with(s, "KC_"@),
        !(s == "XXXXXXX"@ || s == "_______"@),
        !(starts_with(s, "MT("@) || starts_with(s, "HM_"@)),
        !(starts_with(s, "MO("@) || starts_with(s, "LT("@) || starts_with(s, "TG("@)),
        s.subrange(3, s.len() as int) == seq![c],
        kc_class(seq![c]) == if '0' <= c <= '9' {
            Some(KeyType::Number)
        } else if c == 'F' {
            Some(KeyType::Function)
        } else {
            Some(KeyType::Letter)
        },
        spec_classify(s) == kc_class(seq![c])->0,
{
    reveal_strlit("KC_");
    reveal_strlit("XXXXXXX");
    reveal_strlit("_______");
    reveal_strlit("MT(");
    reveal_strlit("HM_");
    reveal_strlit("MO(");
    reveal_strlit("LT(");
    reveal_strlit("TG(");
    assert(s.len() == 4);
    assert(s[0] == 'K' && s[1] == 'C' && s[2] == '_' && s[3] == c);
    assert(trim_start(s) == s);
    assert(trim_end(s) == s);
    assert(s.subrange(0, 3) =~= "KC_"@);
    assert(s.subrange(3, s.len() as int) =~= seq![c]);
    assert(s.subrange(0, 3)[0] == 'K');
    let b = seq![c];
    assert(b.drop_last() =~= Seq::<char>::empty());
    assert(utf8_len(b) == utf8_len(b.drop_last()) + utf8_width(c));
    assert(utf8_len(b) == 1);
    lemma_names_longer_than_one(b);
}

/// No navigation or modifier name is a single character.
proof fn lemma_names_longer_than_one(b: Seq<char>)
    requires
        b.len() == 1,
    ensures
        !navigation_names().contains(b),
        !modifier_names().contains(b),
{
    reveal_strlit("UP");
    reveal_strlit("DOWN");
    reveal_strlit("LEFT");
    reveal_strlit("RIGHT");
    reveal_strlit("HOME");
    reveal_strlit("END");
    reveal_strlit("PGUP");
    reveal_strlit("PGDN");
    reveal_strlit("LSFT");
    reveal_strlit("RSFT");
    reveal_strlit("LCTL");
    reveal_strlit("RCTL");
    reveal_strlit("LALT");
    reveal_strlit("RALT");
    reveal_strlit("LGUI");
    reveal_strlit("RGUI");
    assert forall|j: int| 0 <= j < navigation_names().len() implies navigation_names()[j].len()
        >= 2 by {}
    assert forall|j: int| 0 <= j < modifier_names().len() implies modifier_names()[j].len()
        >= 2 by {}
}

/// The label of a mod-tap keycode `MT(m, key)` is the label of `key`, a
/// slash, and the name of the modifier `m`: `Alt` for `MOD_LALT` and
/// `MOD_RALT`, `Gui` for `MOD_LGUI` and `MOD_RGUI`, `Ctl` for `MOD_LCTL` and
/// `MOD_RCTL`, `Sft` for `MOD_LSFT` and `MOD_RSFT`, and `Mod` for any other.
/// Here `m` runs from after `MT(` to the first comma, and `key` from that
/// comma to the last `)`, both trimmed.
pub proof fn lemma_mod_tap_names_modifier(kc: Seq<char>, close: int, comma: int)
    requires
        starts_with(kc, "MT("@),
        rfind_char(kc, ')') == Some(close),
        find_in(kc, seq![','], 3, close) == Some(comma),
    ensures
        ({
            let m = trim(kc.subrange(3, comma));
            let head = spec_simplify(trim(kc.subrange(comma + 1, close))) + "/"@;
            &&& (m == "MOD_LALT"@ || m == "MOD_RALT"@) ==> spec_mod_tap(kc) == Some(head + "Alt"@)
            &&& (m == "MOD_LGUI"@ || m == "MOD_RGUI"@) ==> spec_mod_tap(kc) == Some(head + "Gui"@)
            &&& (m == "MOD_LCTL"@ || m == "MOD_RCTL"@) ==> spec_mod_tap(kc) == Some(head + "Ctl"@)
            &&& (m == "MOD_LSFT"@ || m == "MOD_RSFT"@) ==> spec_mod_tap(kc) == Some(head + "Sft"@)
            &&& !(m == "MOD_LALT"@ || m == "MOD_RALT"@ || m == "MOD_LGUI"@ || m == "MOD_RGUI"@ || m
                == "MOD_LCTL"@ || m == "MOD_RCTL"@ || m == "MOD_LSFT"@ || m == "MOD_RSFT"@)
                ==> spec_mod_tap(kc) == Some(head + "Mod"@)
        }),
{
    reveal_strlit("MOD_LALT");
    reveal_strlit("MOD_RALT");
    reveal_strlit("MOD_LGUI");
    reveal_strlit("MOD_RGUI");
    reveal_strlit("MOD_LCTL");
    reveal_strlit("MOD_RCTL");
    reveal_strlit("MOD_LSFT");
    reveal_strlit("MOD_RSFT");
    let m = trim(kc.subrange(3, comma));
    if m == "MOD_LGUI"@ || m == "MOD_RGUI"@ {
        assert(m[5] == 'G');
        assert("MOD_LALT"@[5] == 'A' && "MOD_RALT"@[5] == 'A');
    }
    if m == "MOD_LCTL"@ || m == "MOD_RCTL"@ {
        assert(m[5] == 'C');
        assert("MOD_LALT"@[5] == 'A' && "MOD_RALT"@[5] == 'A');
        assert("MOD_LGUI"@[5] == 'G' && "MOD_RGUI"@[5] == 'G');
    }
    if m == "MOD_LSFT"@ || m == "MOD_RSFT"@ {
        assert(m[5] == 'S');
        assert("MOD_LALT"@[5] == 'A' && "MOD_RALT"@[5] == 'A');
        assert("MOD_LGUI"@[5] == 'G' && "MOD_RGUI"@[5] == 'G');
        assert("MOD_LCTL"@[5] == 'C' && "MOD_RCTL"@[5] == 'C');
    }
}

/// A keycode that (once trimmed) is a mod-tap is labelled as the mod-tap:
/// neither the `KC_` rule nor the `XXXXXXX`/`_______` rule applies to it.
pub proof fn lemma_simplify_mod_tap(s: Seq<char>)
    requires
        starts_with(trim(s), "MT("@),
        spec_mod_tap(trim(s)) is Some,
    ensures
        spec_simplify(s) == spec_mod_tap(trim(s))->0,
{
    reveal_strlit("MT(");
    reveal_strlit("KC_");
    reveal_strlit("XXXXXXX");
    reveal_strlit("_______");
    let kc = trim(s);
    assert(kc.subrange(0, 3)[0] == kc[0]);
    assert(kc[0] == 'M');
    if kc.len() >= 3 {
        assert(kc.subrange(0, 3)[0] == 'M');
    }
}

/// What `find_matching_paren` finds, and where.
pub proof fn lemma_paren_close(s: Seq<char>, i: int, depth: int)
    ensures
        paren_close(s, i, depth) matches Some(j) ==> i <= j < s.len() && s[j] == ')',
    decreases s.len() - i,
{
    if i < 0 || i >= s.len() {
    } else if s[i] == '(' {
        lemma_paren_close(s, i + 1, depth + 1);
    } else if s[i] == ')' {
        if depth - 1 != 0 {
            lemma_paren_close(s, i + 1, depth - 1);
        }
    } else {
        lemma_paren_close(s, i + 1, depth);
    }
}

/// What `rfind_char` finds.
pub proof fn lemma_rfind_char(s: Seq<char>, c: char)
    ensures
        rfind_char(s, c) matches Some(j) ==> 0 <= j < s.len() && s[j] == c,
    decreases s.len(),
{
    if s.len() > 0 && s.last() != c {
        lemma_rfind_char(s.drop_last(), c);
    }
}

/// A list of string pairs by their views.
pub open spec fn pairs_view(s: Seq<(&str, &str)>) -> Seq<(Seq<char>, Seq<char>)> {
    s.map_values(|p: (&str, &str)| (p.0@, p.1@))
}

/// A list of strings by their views.
pub open spec fn strs_view(s: Seq<&str>) -> Seq<Seq<char>> {
    s.map_values(|x: &str| x@)
}

/// A list of character vectors by their views.
pub open spec fn chars_view(s: Seq<Vec<char>>) -> Seq<Seq<char>> {
    s.map_values(|v: Vec<char>| v@)
}

fn display_table_exec() -> (t: Vec<(&'static str, &'static str)>)
    ensures
        pairs_view(t@) == display_table(),
{
    let t = vec![
        ("BSPC", "\u{232b}"),
        ("ENT", "\u{21b5}"),
        ("ENTER", "\u{21b5}"),
        ("SPC", "\u{2423}"),
        ("SPACE", "\u{2423}"),
        ("TAB", "\u{21e5}"),
        ("ESC", "Esc"),
        ("LGUI", "\u{2318}"),
        ("RGUI", "\u{2318}"),
        ("LALT", "Alt"),
        ("RALT", "Alt"),
        ("LCTL", "Ctrl"),
        ("RCTL", "Ctrl"),
        ("LSFT", "Shift"),
        ("RSFT", "Shift"),
        ("UP", "\u{2191}"),
        ("DOWN", "\u{2193}"),
        ("LEFT", "\u{2190}"),
        ("RIGHT", "\u{2192}"),
        ("COMM", ","),
        ("DOT", "."),
        ("SLSH", "/"),
        ("SCLN", ";"),
        ("QUOT", "'"),
        ("GRV", "`"),
        ("MINS", "-"),
        ("EQL", "="),
        ("LBRC", "["),
        ("RBRC", "]"),
        ("BSLS", "\\"),
        ("NUHS", "#"),
        ("EXLM", "!"),
        ("AT", "@"),
        ("HASH", "#"),
        ("DLR", "$"),
        ("PERC", "%"),
        ("CIRC", "^"),
        ("AMPR", "&"),
        ("ASTR", "*"),
        ("LPRN", "("),
        ("RPRN", ")"),
        ("UNDS", "_"),
        ("PLUS", "+"),
        ("LCBR", "{"),
        ("RCBR", "}"),
        ("PIPE", "|"),
        ("TILD", "~"),
    ];
    assert(pairs_view(t@) =~= display_table());
    t
}

fn navigation_names_exec() -> (v: Vec<&'static str>)
    ensures
        strs_view(v@) == navigation_names(),
{
    let v = vec!["UP", "DOWN", "LEFT", "RIGHT", "HOME", "END", "PGUP", "PGDN"];
    assert(strs_view(v@) =~= navigation_names());
    v
}

fn modifier_names_exec() -> (v: Vec<&'static str>)
    ensures
        strs_view(v@) == modifier_names(),
{
    let v = vec!["LSFT", "RSFT", "LCTL", "RCTL", "LALT", "RALT", "LGUI", "RGUI"];
    assert(strs_view(v@) =~= modifier_names());
    v
}

fn symbol_names_exec() -> (v: Vec<&'static str>)
    ensures
        strs_view(v@) == symbol_names(),
{
    let v = vec![
        "EXLM",
        "AT",
        "HASH",
        "DLR",
        "PERC",
        "CIRC",
        "AMPR",
        "ASTR",
        "LPRN",
        "RPRN",
        "MINS",
        "UNDS",
        "EQL",
        "PLUS",
        "LBRC",
        "RBRC",
        "LCBR",
        "RCBR",
        "BSLS",
        "PIPE",
        "SCLN",
        "COMM",
        "DOT",
        "SLSH",
        "GRV",
        "TILD",
        "QUOT",
    ];
    assert(strs_view(v@) =~= symbol_names());
    v
}

fn editing_names_exec() -> (v: Vec<&'static str>)
    ensures
        strs_view(v@) == editing_names(),
{
    let v = vec!["BSPC", "ENT", "SPC", "TAB", "ESC", "DEL"];
    assert(strs_view(v@) =~= editing_names());
    v
}

/// Whether `s` is one of `names`.
fn name_in(names: &Vec<&str>, s: &[char]) -> (r: bool)
    ensures
        r == strs_view(names@).contains(s@),
{
    let mut i: usize = 0;
    while i < names.len()
        invariant
            i <= names@.len(),
            forall|j: int| 0 <= j < i ==> strs_view(names@)[j] != s@,
        decreases names@.len() - i,
    {
        let n = str_chars(names[i]);
        if chars_eq(&n, s) {
            assert(strs_view(names@)[i as int] == s@);
            return true;
        }
        i += 1;
    }
    false
}

/// Whether `s` equals the string `lit`.
fn eq_str(s: &[char], lit: &str) -> (r: bool)
    ensures
        r == (s@ == lit@),
{
    let l = str_chars(lit);
    chars_eq(s, &l)
}

/// Whether `s` begins with the string `lit`.
fn starts_with_str(s: &[char], lit: &str) -> (r: bool)
    ensures
        r == starts_with(s@, lit@),
{
    let l = str_chars(lit);
    starts_with_chars(s, &l)
}

/// Appends the characters of the string `lit` to `dst`.
fn push_str(dst: &mut Vec<char>, lit: &str)
    ensures
        final(dst)@ == old(dst)@ + lit@,
{
    let l = str_chars(lit);
    push_chars(dst, &l);
}

/// The label of a keycode name.
fn display_name_exec(d: &[char]) -> (r: Vec<char>)
    ensures
        r@ == display_name(d@),
{
    let table = display_table_exec();
    let ghost t = display_table();
    let mut i: usize = 0;
    assert(t.subrange(0, t.len() as int) =~= t);
    while i < table.len()
        invariant
            i <= table@.len(),
            pairs_view(table@) == t,
            t == display_table(),
            table_lookup(t, d@) == table_lookup(t.subrange(i as int, t.len() as int), d@),
        decreases table@.len() - i,
    {
        let (name, label) = table[i];
        assert(pairs_view(table@)[i as int] == (name@, label@));
        if eq_str(d, name) {
            return str_chars(label);
        }
        assert(t.subrange(i as int, t.len() as int).drop_first() =~= t.subrange(
            i + 1,
            t.len() as int,
        ));
        i += 1;
    }
    let mut r: Vec<char> = Vec::new();
    push_chars(&mut r, d);
    assert(r@ =~= d@);
    r
}

/// The short name of a `MOD_*` modifier.
fn mod_name_exec(m: &[char]) -> (r: Vec<char>)
    ensures
        r@ == mod_name(m@),
{
    if eq_str(m, "MOD_LALT") || eq_str(m, "MOD_RALT") {
        str_chars("Alt")
    } else if eq_str(m, "MOD_LGUI") || eq_str(m, "MOD_RGUI") {
        str_chars("Gui")
    } else if eq_str(m, "MOD_LCTL") || eq_str(m, "MOD_RCTL") {
        str_chars("Ctl")
    } else if eq_str(m, "MOD_LSFT") || eq_str(m, "MOD_RSFT") {
        str_chars("Sft")
    } else {
        str_chars("Mod")
    }
}

/// The key that the `i`-th keycode of a layer stands for.
fn layer_slot_exec(i: usize) -> (r: (u8, u8, bool))
    requires
        i < layout_key_count(),
    ensures
        r == layer_slot(i as int),
{
    if i < 36 {
        ((i / 12) as u8, ((i % 12) % 6) as u8, i % 12 < 6)
    } else if i < 39 {
        (3, (i - 36) as u8, true)
    } else {
        (3, (i - 39) as u8, false)
    }
}

/// The text that heads layer `n`.
fn layer_pattern_exec(n: usize) -> (r: Vec<char>)
    ensures
        r@ == layer_pattern(n as nat),
{
    let mut r = str_chars("[");
    let d = decimal_chars(n);
    push_chars(&mut r, &d);
    push_str(&mut r, "] = LAYOUT");
    r
}

/// Parser of QMK keymap files.
pub struct QmkKeymapParser;

impl QmkKeymapParser {
    /// The layers of a keymap file: each layer `[n] = LAYOUT(...)` of the
    /// `keymaps` array, numbered from 0, as its list of key definitions. Fails
    /// when there is no `keymaps` array or no layer 0.
    pub fn parse_keymap(content: &str) -> (r: Result<Vec<Vec<KeyDef>>, ParseError>)
        ensures
            match r {
                Ok(layers) => spec_parse_keymap(content@) == Ok::<
                    Seq<Seq<KeyDefView>>,
                    Seq<char>,
                >(layers_view(layers@)),
                Err(ParseError::Parse(msg)) => spec_parse_keymap(content@) == Err::<
                    Seq<Seq<KeyDefView>>,
                    Seq<char>,
                >(msg@),
                Err(ParseError::Io(_)) => false,
            },
    {
        let c = str_chars(content);
        let marker = str_chars("const uint16_t PROGMEM keymaps");
        let k = match find_chars(&c, &marker, 0, c.len()) {
            Some(k) => k,
            None => {
                return Err(ParseError::Parse("Could not find keymaps array".to_string()));
            },
        };
        proof {
            lemma_find_in(c@, keymaps_marker(), 0, c@.len() as int);
        }
        let sec = sub_chars(&c, k, c.len());
        let open_v = vec!['('];
        assert(open_v@ =~= seq!['(']);
        let mut layers: Vec<Vec<KeyDef>> = Vec::new();
        let mut layer_num: usize = 0;
        let mut search_pos: usize = 0;
        loop
            invariant
                search_pos <= sec@.len(),
                layer_num <= search_pos,
                layer_num == layers@.len(),
                open_v@ == seq!['('],
                layers_from(sec@, 0, 0) == layers_view(layers@) + layers_from(
                    sec@,
                    search_pos as int,
                    layer_num as nat,
                ),
            ensures
                layers_from(sec@, 0, 0) == layers_view(layers@),
            decreases sec@.len() - search_pos,
        {
            let pattern = layer_pattern_exec(layer_num);
            let ls = match find_chars(&sec, &pattern, search_pos, sec.len()) {
                Some(ls) => ls,
                None => {
                    assert(layers_view(layers@) + Seq::<Seq<KeyDefView>>::empty() =~= layers_view(
                        layers@,
                    ));
                    break ;
                },
            };
            proof {
                lemma_find_in(sec@, layer_pattern(layer_num as nat), search_pos as int, sec@.len() as int);
            }
            let p = match find_chars(&sec, &open_v, ls, sec.len()) {
                Some(p) => p,
                None => {
                    assert(layers_view(layers@) + Seq::<Seq<KeyDefView>>::empty() =~= layers_view(
                        layers@,
                    ));
                    break ;
                },
            };
            proof {
                lemma_find_in(sec@, seq!['('], ls as int, sec@.len() as int);
            }
            let paren_start = p + 1;
            let pe = match Self::find_matching_paren(&sec, paren_start) {
                Some(pe) => pe,
                None => {
                    assert(layers_view(layers@) + Seq::<Seq<KeyDefView>>::empty() =~= layers_view(
                        layers@,
                    ));
                    break ;
                },
            };
            proof {
                lemma_paren_close(sec@, paren_start as int, 1);
            }
            let layer_content = sub_chars(&sec, paren_start, pe);
            let layer_keys = match Self::parse_layer(&layer_content, layer_num) {
                Ok(keys) => keys,
                Err(e) => {
                    return Err(e);
                },
            };
            let ghost before = layers@;
            layers.push(layer_keys);
            assert(layers_view(layers@) =~= layers_view(before).push(
                spec_parse_layer(sec@.subrange(paren_start as int, pe as int)),
            ));
            assert(layers_view(before) + layers_from(sec@, search_pos as int, layer_num as nat)
                =~= layers_view(layers@) + layers_from(sec@, pe as int, (layer_num + 1) as nat));
            search_pos = pe;
            layer_num += 1;
        }
        if layers.len() == 0 {
            return Err(ParseError::Parse("No layers found".to_string()));
        }
        Ok(layers)
    }

    /// The label shown for a keycode: `KC_` is dropped and common names get a
    /// symbol (`KC_BSPC` is shown as a backspace sign); mod-taps and
    /// momentary-layer keys get compound labels; `XXXXXXX` and `_______`
    /// stay as they are.
    pub fn simplify_keycode(keycode: &str) -> (r: String)
        ensures
            r@ == spec_simplify(keycode@),
    {
        let k = str_chars(keycode);
        let s = Self::simplify_chars(&k);
        string_from_chars(&s)
    }

    /// The label of a keycode given as characters.
    fn simplify_chars(keycode: &[char]) -> (r: Vec<char>)
        ensures
            r@ == spec_simplify(keycode@),
        decreases keycode@.len(), 1nat,
    {
        let kc = trim_chars(keycode);
        proof {
            lemma_trim_len(keycode@);
            reveal_strlit("KC_");
        }
        if eq_str(&kc, "XXXXXXX") || eq_str(&kc, "_______") {
            return kc;
        }
        if starts_with_str(&kc, "KC_") {
            let d = sub_chars(&kc, 3, kc.len());
            return display_name_exec(&d);
        }
        if let Some(mt) = Self::mod_tap_chars(&kc) {
            return mt;
        }
        if let Some(mo) = Self::parse_momentary(&kc) {
            return mo;
        }
        display_name_exec(&kc)
    }

    /// The label of a mod-tap keycode `MT(MOD_x, key)` or home-row-mod macro
    /// `HM_key`, or `None` for other keycodes.
    pub fn parse_mod_tap(keycode: &str) -> (r: Option<String>)
        ensures
            r is Some <==> spec_mod_tap(keycode@) is Some,
            r matches Some(label) ==> label@ == spec_mod_tap(keycode@)->0,
    {
        let k = str_chars(keycode);
        match Self::mod_tap_chars(&k) {
            Some(v) => Some(string_from_chars(&v)),
            None => None,
        }
    }

    fn mod_tap_chars(kc: &[char]) -> (r: Option<Vec<char>>)
        ensures
            r is Some <==> spec_mod_tap(kc@) is Some,
            r matches Some(v) ==> v@ == spec_mod_tap(kc@)->0,
        decreases kc@.len(), 0nat,
    {
        proof {
            reveal_strlit("MT(");
            reveal_strlit("HM_");
        }
        if starts_with_str(kc, "MT(") {
            if let Some(close) = rfind_char_exec(kc, ')') {
                proof {
                    lemma_rfind_char(kc@, ')');
                    assert(kc@.subrange(0, 3)[0] == kc@[0]);
                    assert(kc@.subrange(0, 3)[1] == kc@[1]);
                    assert(kc@.subrange(0, 3)[2] == kc@[2]);
                }
                let comma_v = vec![','];
                assert(comma_v@ =~= seq![',']);
                if let Some(comma) = find_chars(kc, &comma_v, 3, close) {
                    proof {
                        lemma_find_in(kc@, seq![','], 3, close as int);
                    }
                    let (ma, mb) = trim_range(kc, 3, comma);
                    let (ka, kb) = trim_range(kc, comma + 1, close);
                    let mod_part = sub_chars(kc, ma, mb);
                    let key_part = sub_chars(kc, ka, kb);
                    proof {
                        lemma_trim_len(kc@.subrange(comma + 1, close as int));
                    }
                    let mut r = Self::simplify_chars(&key_part);
                    push_str(&mut r, "/");
                    let m = mod_name_exec(&mod_part);
                    push_chars(&mut r, &m);
                    return Some(r);
                }
            }
        }
        if starts_with_str(kc, "HM_") {
            let mut r = sub_chars(kc, 3, kc.len());
            push_str(&mut r, "/Mod");
            return Some(r);
        }
        None
    }

    /// The label of a momentary-layer keycode `MO(n)`, or `None` for other keycodes.
    fn parse_momentary(kc: &[char]) -> (r: Option<Vec<char>>)
        ensures
            r is Some <==> spec_momentary(kc@) is Some,
            r matches Some(v) ==> v@ == spec_momentary(kc@)->0,
    {
        proof {
            reveal_strlit("MO(");
        }
        if starts_with_str(kc, "MO(") {
            let close_v = vec![')'];
            assert(close_v@ =~= seq![')']);
            if let Some(close) = find_chars(kc, &close_v, 0, kc.len()) {
                proof {
                    lemma_find_in(kc@, seq![')'], 0, kc@.len() as int);
                    assert(kc@.subrange(close as int, close + 1)[0] == kc@[close as int]);
                    assert(kc@.subrange(0, 3)[0] == kc@[0]);
                    assert(kc@.subrange(0, 3)[1] == kc@[1]);
                    assert(kc@.subrange(0, 3)[2] == kc@[2]);
                }
                let mut r = str_chars("\u{2193}");
                let layer = sub_chars(kc, 3, close);
                push_chars(&mut r, &layer);
                return Some(r);
            }
        }
        None
    }

    /// The text with every line cut at its first `//`, each line followed by one space.
    fn remove_comments(s: &[char]) -> (r: Vec<char>)
        ensures
            r@ == spec_remove_comments(s@),
    {
        let nl_v = vec!['\n'];
        assert(nl_v@ =~= seq!['\n']);
        let sl = str_chars("//");
        let mut result: Vec<char> = Vec::new();
        let mut start: usize = 0;
        while start < s.len()
            invariant
                start <= s@.len(),
                nl_v@ == seq!['\n'],
                sl@ == "//"@,
                spec_remove_comments(s@) == result@ + strip_comments_from(s@, start as int),
            decreases s@.len() - start,
        {
            let nl = find_chars(s, &nl_v, start, s.len());
            proof {
                lemma_find_in(s@, seq!['\n'], start as int, s@.len() as int);
            }
            let (line_end, next) = match nl {
                Some(i) => (
                    if i > start && s[i - 1] == '\r' {
                        i - 1
                    } else {
                        i
                    },
                    i + 1,
                ),
                None => (s.len(), s.len()),
            };
            let cut = match find_chars(s, &sl, start, line_end) {
                Some(j) => j,
                None => line_end,
            };
            proof {
                lemma_find_in(s@, "//"@, start as int, line_end as int);
            }
            let line = sub_chars(s, start, cut);
            assert(strip_comments_from(s@, start as int) == line@ + seq![' '] + strip_comments_from(
                s@,
                next as int,
            ));
            let ghost before = result@;
            push_chars(&mut result, &line);
            result.push(' ');
            assert(result@ =~= before + line@ + seq![' ']);
            assert(before + (line@ + seq![' '] + strip_comments_from(s@, next as int)) =~= result@
                + strip_comments_from(s@, next as int));
            start = next;
        }
        assert(result@ + strip_comments_from(s@, start as int) =~= result@);
        result
    }

    /// The first comma from `start` on that is outside parentheses.
    fn find_top_level_comma(s: &[char], start: usize) -> (r: Option<usize>)
        requires
            start <= s@.len(),
        ensures
            opt_int(r) == top_level_comma(s@, start as int, 0),
    {
        let mut depth: usize = 0;
        let mut i: usize = start;
        let len = s.len();
        while i < len
            invariant
                start <= i <= s@.len(),
                len == s@.len(),
                depth <= i - start,
                top_level_comma(s@, start as int, 0) == top_level_comma(s@, i as int, depth as nat),
            decreases s@.len() - i,
        {
            let ch = s[i];
            if ch == ',' && depth == 0 {
                return Some(i);
            }
            if ch == '(' {
                depth += 1;
            } else if ch == ')' {
                if depth > 0 {
                    depth -= 1;
                }
            }
            i += 1;
        }
        None
    }

    /// The keycodes of a layer's text: the pieces between commas outside
    /// parentheses, trimmed, without the empty ones.
    fn split_tokens(s: &[char]) -> (r: Vec<Vec<char>>)
        ensures
            chars_view(r@) == spec_tokens(s@),
    {
        let mut toks: Vec<Vec<char>> = Vec::new();
        let mut start: usize = 0;
        let len = s.len();
        loop
            invariant
                start <= s@.len(),
                len == s@.len(),
                spec_tokens(s@) == chars_view(toks@) + tokens_from(s@, start as int),
            decreases s@.len() + 1 - start,
        {
            let ghost before = chars_view(toks@);
            match Self::find_top_level_comma(s, start) {
                Some(i) => {
                    proof {
                        lemma_top_level_comma(s@, start as int, 0);
                    }
                    let (a, b) = trim_range(s, start, i);
                    if a < b {
                        toks.push(sub_chars(s, a, b));
                    }
                    assert(chars_view(toks@) =~= before + keep_nonempty(
                        trim(s@.subrange(start as int, i as int)),
                    ));
                    assert(before + (keep_nonempty(trim(s@.subrange(start as int, i as int)))
                        + tokens_from(s@, i + 1)) =~= chars_view(toks@) + tokens_from(s@, i + 1));
                    start = i + 1;
                },
                None => {
                    let (a, b) = trim_range(s, start, s.len());
                    if a < b {
                        toks.push(sub_chars(s, a, b));
                    }
                    assert(chars_view(toks@) =~= before + keep_nonempty(
                        trim(s@.subrange(start as int, s@.len() as int)),
                    ));
                    return toks;
                },
            }
        }
    }

    /// The index of the `)` that closes the parenthesis opened just before `start`.
    fn find_matching_paren(s: &[char], start: usize) -> (r: Option<usize>)
        requires
            1 <= start <= s@.len(),
        ensures
            opt_int(r) == paren_close(s@, start as int, 1),
    {
        let mut depth: usize = 1;
        let mut i: usize = start;
        let len = s.len();
        while i < len
            invariant
                1 <= start <= i <= s@.len(),
                len == s@.len(),
                1 <= depth <= i - start + 1,
                paren_close(s@, start as int, 1) == paren_close(s@, i as int, depth as int),
            decreases s@.len() - i,
        {
            let ch = s[i];
            if ch == '(' {
                depth += 1;
            } else if ch == ')' {
                if depth == 1 {
                    return Some(i);
                }
                depth -= 1;
            }
            i += 1;
        }
        None
    }

    /// The keys of a layer's text: the keycodes are listed row by row, each
    /// main row with its six left keys then its six right keys, then the three
    /// left and the three right thumb keys.
    fn parse_layer(content: &[char], layer_num: usize) -> (r: Result<Vec<KeyDef>, ParseError>)
        ensures
            r matches Ok(keys) && keys_view(keys@) == spec_parse_layer(content@),
    {
        let cleaned = Self::remove_comments(content);
        let tokens = Self::split_tokens(&cleaned);
        let ghost toks = spec_tokens(spec_remove_comments(content@));
        let n: usize = if tokens.len() < 42 {
            tokens.len()
        } else {
            42
        };
        let mut keys: Vec<KeyDef> = Vec::new();
        let mut i: usize = 0;
        while i < n
            invariant
                i <= n <= tokens@.len(),
                n <= layout_key_count(),
                n == (if toks.len() < layout_key_count() {
                    toks.len() as int
                } else {
                    layout_key_count()
                }),
                chars_view(tokens@) == toks,
                toks == spec_tokens(spec_remove_comments(content@)),
                keys_view(keys@) =~= Seq::new(i as nat, |j: int| key_def_of(j, toks[j])),
            decreases n - i,
        {
            let (row, col, is_left) = layer_slot_exec(i);
            let token = &tokens[i];
            assert(token@ == toks[i as int]);
            let code = Self::simplify_chars(token);
            let key_type = Self::classify_chars(token);
            let key = KeyDef { row, col, is_left, keycode: string_from_chars(&code), key_type };
            assert(key@ == key_def_of(i as int, toks[i as int]));
            let ghost before = keys@;
            keys.push(key);
            assert(keys_view(keys@) =~= keys_view(before).push(key@));
            i += 1;
        }
        Ok(keys)
    }

    /// The type of a keycode.
    pub fn classify_keycode(keycode: &str) -> (t: KeyType)
        ensures
            t == spec_classify(keycode@),
    {
        let k = str_chars(keycode);
        Self::classify_chars(&k)
    }

    fn classify_chars(keycode: &[char]) -> (t: KeyType)
        ensures
            t == spec_classify(keycode@),
    {
        let kc = trim_chars(keycode);
        proof {
            reveal_strlit("KC_");
        }
        if eq_str(&kc, "XXXXXXX") {
            return KeyType::NoKey;
        }
        if eq_str(&kc, "_______") {
            return KeyType::Transparent;
        }
        if starts_with_str(&kc, "MT(") || starts_with_str(&kc, "HM_") {
            return KeyType::Modifier;
        }
        if starts_with_str(&kc, "MO(") || starts_with_str(&kc, "LT(") || starts_with_str(
            &kc,
            "TG(",
        ) {
            return KeyType::Function;
        }
        if starts_with_str(&kc, "KC_") {
            let base = sub_chars(&kc, 3, kc.len());
            if let Some(t) = Self::kc_class_exec(&base) {
                return t;
            }
        }
        if starts_with_str(&kc, "UK_") || starts_with_str(&kc, "S(") {
            return KeyType::Symbol;
        }
        if starts_with_str(&kc, "QK_") || starts_with_str(&kc, "RM_") {
            return KeyType::Function;
        }
        KeyType::Symbol
    }

    fn kc_class_exec(base: &[char]) -> (r: Option<KeyType>)
        ensures
            r == kc_class(base@),
    {
        proof {
            lemma_utf8_len_at_least_len(base@);
            if base@.len() == 1 {
                assert(base@.drop_last() =~= Seq::<char>::empty());
                assert(utf8_len(base@) == utf8_len(base@.drop_last()) + utf8_width(base@[0]));
            }
        }
        if base.len() > 0 && base[0] == 'F' && utf8_len_at_most(base, 3) {
            return Some(KeyType::Function);
        }
        if name_in(&navigation_names_exec(), base) {
            return Some(KeyType::Navigation);
        }
        if name_in(&modifier_names_exec(), base) {
            return Some(KeyType::Modifier);
        }
        if base.len() == 1 && '0' <= base[0] && base[0] <= '9' {
            return Some(KeyType::Number);
        }
        if base.len() == 1 && (('A' <= base[0] && base[0] <= 'Z') || ('a' <= base[0] && base[0]
            <= 'z')) {
            return Some(KeyType::Letter);
        }
        if name_in(&symbol_names_exec(), base) {
            return Some(KeyType::Symbol);
        }
        if name_in(&editing_names_exec(), base) {
            return Some(KeyType::Navigation);
        }
        None
    }
}

} // verus!
