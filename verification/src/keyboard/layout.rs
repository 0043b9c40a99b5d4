//! The physical layout of a 6x3+3 split keyboard (the Corne) and the key
//! definitions that layers are made of.

use vstd::prelude::*;

verus! {

/// What a key does, as far as the display cares.
#[derive(Debug, Clone, Copy, PartialEq, Eq, Structural)]
pub enum KeyType {
    Letter,
    Number,
    Symbol,
    Modifier,
    Function,
    Navigation,
    Transparent,
    NoKey,
}

/// One key of a layer: where it sits and what it shows.
#[derive(Debug, Clone)]
pub struct KeyDef {
    pub row: u8,
    pub col: u8,
    pub is_left: bool,
    pub keycode: String,
    pub key_type: KeyType,
}

/// A key definition as a mathematical value.
pub struct KeyDefView {
    pub row: u8,
    pub col: u8,
    pub is_left: bool,
    pub keycode: Seq<char>,
    pub key_type: KeyType,
}

impl View for KeyDef {
    type V = KeyDefView;

    open spec fn view(&self) -> KeyDefView {
        KeyDefView {
            row: self.row,
            col: self.col,
            is_left: self.is_left,
            keycode: self.keycode@,
            key_type: self.key_type,
        }
    }
}

impl KeyDefView {
    /// Where the key sits.
    pub open spec fn position(self) -> (u8, u8, bool) {
        (self.row, self.col, self.is_left)
    }
}

/// Keys per half: three rows of six and a thumb row of three.
pub open spec fn keys_per_half() -> int {
    21
}

/// Whether `(row, col)` names a key of one half: rows 0 to 2 have six
/// columns, the thumb row 3 has three.
pub open spec fn valid_position(row: u8, col: u8) -> bool {
    row < 4 && if row == 3 {
        col < 3
    } else {
        col < 6
    }
}

/// The index of a key in the layout: the left half first, then the right;
/// within a half, row by row.
pub open spec fn spec_key_index(row: u8, col: u8, is_left: bool) -> Option<usize> {
    if !valid_position(row, col) {
        None
    } else {
        let base: int = if is_left {
            0
        } else {
            keys_per_half()
        };
        let local: int = if row < 3 {
            row * 6 + col
        } else {
            18 + col
        };
        Some((base + local) as usize)
    }
}

/// The key at an index of the layout.
pub open spec fn spec_position_from_index(index: usize) -> Option<(u8, u8, bool)> {
    if index >= 2 * keys_per_half() {
        None
    } else {
        let is_left = index < keys_per_half();
        let local: int = if is_left {
            index as int
        } else {
            index - keys_per_half()
        };
        if local < 18 {
            Some(((local / 6) as u8, (local % 6) as u8, is_left))
        } else {
            Some((3u8, (local - 18) as u8, is_left))
        }
    }
}

/// The grid of a Corne: 4 rows (3 main rows and a thumb row) of at most 6 columns per half.
#[derive(Debug, Clone)]
pub struct Layout {
    rows: usize,
    cols: usize,
}

impl Layout {
    /// Rows per half: three main rows and the thumb row.
    pub const ROWS: usize = 4;

    /// Columns of a main row.
    pub const COLS: usize = 6;

    /// A layout always has the dimensions of a Corne.
    pub closed spec fn wf(self) -> bool {
        self.rows == 4 && self.cols == 6
    }

    /// The number of rows this layout has.
    pub closed spec fn row_count(self) -> usize {
        self.rows
    }

    /// The number of columns of a main row of this layout.
    pub closed spec fn col_count(self) -> usize {
        self.cols
    }

    /// The layout of a Corne.
    pub fn new() -> (l: Self)
        ensures
            l.wf(),
            l.row_count() == 4,
            l.col_count() == 6,
    {
        Self { rows: Self::ROWS, cols: Self::COLS }
    }

    /// Rows per half.
    pub fn rows(&self) -> (r: usize)
        requires
            self.wf(),
        ensures
            r == 4,
            r == self.row_count(),
    {
        self.rows
    }

    /// Columns of a main row.
    pub fn cols(&self) -> (c: usize)
        requires
            self.wf(),
        ensures
            c == 6,
            c == self.col_count(),
    {
        self.cols
    }

    /// Keys on both halves.
    pub fn total_keys(&self) -> (n: usize)
        ensures
            n == 2 * keys_per_half(),
    {
        21 * 2
    }

    /// Whether a row and column name a key of one half.
    pub fn is_valid_position(&self, row: u8, col: u8) -> (b: bool)
        requires
            self.wf(),
        ensures
            b == valid_position(row, col),
    {
        if (row as usize) >= self.rows {
            return false;
        }
        if row == 3 {
            (col as usize) < 3
        } else {
            (col as usize) < self.cols
        }
    }

    /// The index of a key, or `None` where the position is not on the keyboard.
    pub fn key_index(&self, row: u8, col: u8, is_left: bool) -> (r: Option<usize>)
        requires
            self.wf(),
        ensures
            r == spec_key_index(row, col, is_left),
    {
        if !self.is_valid_position(row, col) {
            return None;
        }
        let base: usize = if is_left {
            0
        } else {
            21
        };
        let local_index: usize = if row < 3 {
            row as usize * self.cols + col as usize
        } else {
            18 + col as usize
        };
        Some(base + local_index)
    }

    /// The key at an index, or `None` past the last key.
    pub fn position_from_index(&self, index: usize) -> (r: Option<(u8, u8, bool)>)
        requires
            self.wf(),
        ensures
            r == spec_position_from_index(index),
    {
        if index >= self.total_keys() {
            return None;
        }
        let is_left = index < 21;
        let local_index: usize = if is_left {
            index
        } else {
            index - 21
        };
        if local_index < 18 {
            Some(((local_index / self.cols) as u8, (local_index % self.cols) as u8, is_left))
        } else {
            Some((3, (local_index - 18) as u8, is_left))
        }
    }
}

impl Default for Layout {
    fn default() -> (l: Self)
        ensures
            l.wf(),
            l.row_count() == 4,
            l.col_count() == 6,
    {
        Self::new()
    }
}

/// Keys are numbered left half first (0 to 20), then the right half (21 to
/// 41); within a half row by row, six keys per main row and the thumb keys
/// last (18 to 20), each row from column 0 up.
pub proof fn lemma_key_index_numbering(row: u8, col: u8, is_left: bool)
    ensures
        row < 3 && col < 6 ==> spec_key_index(row, col, is_left) == Some(
            ((if is_left {
                0int
            } else {
                21int
            }) + 6 * row + col) as usize,
        ),
        row == 3 && col < 3 ==> spec_key_index(row, col, is_left) == Some(
            ((if is_left {
                18int
            } else {
                39int
            }) + col) as usize,
        ),
        (row > 3 || (row == 3 && col >= 3) || col >= 6) ==> spec_key_index(row, col, is_left)
            is None,
        spec_key_index(row, col, is_left) matches Some(i) ==> (i < 21) == is_left,
{
}

/// Every index of the layout names a key, and that key has this index.
pub proof fn lemma_index_position_roundtrip(index: usize)
    requires
        index < 2 * keys_per_half(),
    ensures
        spec_position_from_index(index) matches Some(p) && valid_position(p.0, p.1)
            && spec_key_index(p.0, p.1, p.2) == Some(index),
{
}

/// Every key of the keyboard has an index, below the number of keys, and
/// that index names the key again.
pub proof fn lemma_position_index_roundtrip(row: u8, col: u8, is_left: bool)
    ensures
        spec_key_index(row, col, is_left) is Some <==> valid_position(row, col),
        valid_position(row, col) ==> {
            let i = spec_key_index(row, col, is_left)->0;
            &&& i < 2 * keys_per_half()
            &&& spec_position_from_index(i) == Some((row, col, is_left))
        },
{
}

} // verus!
