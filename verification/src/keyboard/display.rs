//! The display rules of the overlay that do not depend on geometry: which
//! column a key is drawn in, and its colours.

use super::layout::KeyType;
use vstd::prelude::*;

verus! {

/// The last column of a row of one half: 2 on the thumb row, 5 elsewhere.
pub open spec fn last_col(row: u8) -> u8 {
    if row == 3 {
        2
    } else {
        5
    }
}

/// The column a key is drawn in: the right half is mirrored, so that its
/// column 0 (the inner column) is drawn nearest the gap.
pub open spec fn spec_display_col(row: u8, col: u8, is_left: bool) -> u8 {
    if is_left {
        col
    } else {
        (last_col(row) - col) as u8
    }
}

/// The column a key is drawn in.
pub fn display_col(row: u8, col: u8, is_left: bool) -> (c: u8)
    requires
        is_left || col <= last_col(row),
    ensures
        c == spec_display_col(row, col, is_left),
{
    if is_left {
        col
    } else {
        let max_col: u8 = if row == 3 {
            2
        } else {
            5
        };
        max_col - col
    }
}

/// Left keys are drawn at their own column; the right half is mirrored, so a
/// right key and its drawn column add up to the row's last column (5, or 2 on
/// the thumb row).
pub proof fn lemma_display_col_mirrors(row: u8, col: u8, is_left: bool)
    requires
        is_left || col <= last_col(row),
    ensures
        is_left ==> spec_display_col(row, col, is_left) == col,
        !is_left && row == 3 ==> spec_display_col(row, col, is_left) + col == 2,
        !is_left && row != 3 ==> spec_display_col(row, col, is_left) + col == 5,
{
}

/// A held key is always drawn yellow with black text, whatever its type; a
/// key that is not held is drawn in its type's colour (fill alpha 120, outline
/// alpha 200, white text) when the layer defines it, and faint grey otherwise.
pub proof fn lemma_key_colors_cases(key_type: Option<KeyType>)
    ensures
        spec_key_colors(true, key_type).fill == (255u8, 255u8, 0u8, 200u8),
        spec_key_colors(true, key_type).text == (0u8, 0u8, 0u8, 255u8),
        key_type matches Some(t) ==> spec_key_colors(false, key_type).fill == (
            spec_key_color(t).0,
            spec_key_color(t).1,
            spec_key_color(t).2,
            120u8,
        ) && spec_key_colors(false, key_type).stroke == (
            spec_key_color(t).0,
            spec_key_color(t).1,
            spec_key_color(t).2,
            200u8,
        ) && spec_key_colors(false, key_type).text == (255u8, 255u8, 255u8, 255u8),
        key_type is None ==> spec_key_colors(false, key_type).fill == (50u8, 50u8, 50u8, 50u8),
{
}

/// The base colour of a key type, as red, green, blue.
pub open spec fn spec_key_color(t: KeyType) -> (u8, u8, u8) {
    match t {
        KeyType::Letter => (100, 150, 255),
        KeyType::Number => (100, 255, 150),
        KeyType::Symbol => (200, 100, 255),
        KeyType::Modifier => (255, 150, 100),
        KeyType::Function => (255, 100, 100),
        KeyType::Navigation => (100, 255, 255),
        KeyType::Transparent => (100, 100, 100),
        KeyType::NoKey => (50, 50, 50),
    }
}

/// The base colour of a key type.
pub fn key_color(t: KeyType) -> (c: (u8, u8, u8))
    ensures
        c == spec_key_color(t),
{
    match t {
        KeyType::Letter => (100, 150, 255),
        KeyType::Number => (100, 255, 150),
        KeyType::Symbol => (200, 100, 255),
        KeyType::Modifier => (255, 150, 100),
        KeyType::Function => (255, 100, 100),
        KeyType::Navigation => (100, 255, 255),
        KeyType::Transparent => (100, 100, 100),
        KeyType::NoKey => (50, 50, 50),
    }
}

/// The fill, outline and label colours of a key, each as red, green, blue and
/// (unmultiplied) alpha.
#[derive(Debug, Clone, Copy, PartialEq, Eq)]
pub struct KeyColors {
    pub fill: (u8, u8, u8, u8),
    pub stroke: (u8, u8, u8, u8),
    pub text: (u8, u8, u8, u8),
}

/// The colours of a key: a held key is yellow with black text; a defined key
/// takes its type's colour, translucent, with white text; a key the layer does
/// not define is a faint grey.
pub open spec fn spec_key_colors(is_pressed: bool, key_type: Option<KeyType>) -> KeyColors {
    if is_pressed {
        KeyColors { fill: (255, 255, 0, 200), stroke: (255, 255, 0, 255), text: (0, 0, 0, 255) }
    } else {
        match key_type {
            Some(t) => {
                let (r, g, b) = spec_key_color(t);
                KeyColors { fill: (r, g, b, 120), stroke: (r, g, b, 200), text: (255, 255, 255, 255) }
            },
            None => KeyColors {
                fill: (50, 50, 50, 50),
                stroke: (80, 80, 80, 100),
                text: (150, 150, 150, 150),
            },
        }
    }
}

/// The colours of a key.
pub fn key_colors(is_pressed: bool, key_type: Option<KeyType>) -> (c: KeyColors)
    ensures
        c == spec_key_colors(is_pressed, key_type),
{
    if is_pressed {
        KeyColors { fill: (255, 255, 0, 200), stroke: (255, 255, 0, 255), text: (0, 0, 0, 255) }
    } else {
        match key_type {
            Some(t) => {
                let (r, g, b) = key_color(t);
                KeyColors { fill: (r, g, b, 120), stroke: (r, g, b, 200), text: (255, 255, 255, 255) }
            },
            None => KeyColors {
                fill: (50, 50, 50, 50),
                stroke: (80, 80, 80, 100),
                text: (150, 150, 150, 150),
            },
        }
    }
}

} // verus!
