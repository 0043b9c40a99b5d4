//! Layers: named sets of key definitions, at most one per key position.

use super::layout::{KeyDef, KeyDefView, KeyType};
use crate::qmk_parser::ParseError;
use crate::text::{decimal, decimal_chars, push_chars, str_chars, string_from_chars};
use std::collections::HashMap;
use vstd::std_specs::hash::spec_hash_map_iter;
use vstd::std_specs::iter::IteratorSpec;
use vstd::prelude::*;

verus! {

broadcast use {vstd::std_specs::hash::group_hash_axioms, vstd::string::group_string_axioms};

/// The number a key position is filed under: distinct positions get distinct numbers.
pub open spec fn key_code(row: u8, col: u8, is_left: bool) -> u32 {
    (row as u32 * 512 + col as u32 * 2 + if is_left {
        1u32
    } else {
        0u32
    }) as u32
}

/// The number a key position is filed under.
pub fn key_code_of(row: u8, col: u8, is_left: bool) -> (c: u32)
    ensures
        c == key_code(row, col, is_left),
{
    row as u32 * 512 + col as u32 * 2 + if is_left {
        1
    } else {
        0
    }
}

/// Distinct key positions are filed under distinct numbers.
pub proof fn lemma_key_code_injective(a: (u8, u8, bool), b: (u8, u8, bool))
    ensures
        key_code(a.0, a.1, a.2) == key_code(b.0, b.1, b.2) ==> a == b,
{
}

/// The keys of a list of definitions by position; where two definitions
/// share a position, the later one is kept.
pub open spec fn keys_to_map(s: Seq<KeyDefView>) -> Map<(u8, u8, bool), KeyDefView>
    decreases s.len(),
{
    if s.len() == 0 {
        Map::empty()
    } else {
        keys_to_map(s.drop_last()).insert(s.last().position(), s.last())
    }
}

/// A list of key definitions by their views.
pub open spec fn key_defs_view(v: Seq<KeyDef>) -> Seq<KeyDefView> {
    v.map_values(|k: KeyDef| k@)
}

/// The name a layer gets: its name from the list, or `Layer i` past its end.
pub open spec fn layer_name_for(names: Seq<Seq<char>>, i: int) -> Seq<char> {
    if i < names.len() {
        names[i]
    } else {
        "Layer "@ + decimal(i as nat)
    }
}

/// A key definition with the given fields.
pub open spec fn key_view(row: u8, col: u8, is_left: bool, keycode: Seq<char>, key_type: KeyType) -> KeyDefView {
    KeyDefView { row, col, is_left, keycode, key_type }
}

/// A key definition with the given fields.
fn key_def(row: u8, col: u8, is_left: bool, keycode: &str, key_type: KeyType) -> (k: KeyDef)
    ensures
        k@ == key_view(row, col, is_left, keycode@, key_type),
{
    KeyDef { row, col, is_left, keycode: keycode.to_string(), key_type }
}

/// The keys of the default Base layer.
pub open spec fn base_layer_keys() -> Seq<KeyDefView> {
    seq![
        key_view(0, 0, true, "Tab"@, KeyType::Navigation),
        key_view(0, 1, true, "Q"@, KeyType::Letter),
        key_view(0, 2, true, "W"@, KeyType::Letter),
        key_view(0, 3, true, "E"@, KeyType::Letter),
        key_view(0, 4, true, "R"@, KeyType::Letter),
        key_view(0, 5, true, "T"@, KeyType::Letter),
        key_view(1, 0, true, "Esc"@, KeyType::Function),
        key_view(1, 1, true, "A"@, KeyType::Letter),
        key_view(1, 2, true, "S"@, KeyType::Letter),
        key_view(1, 3, true, "D"@, KeyType::Letter),
        key_view(1, 4, true, "F"@, KeyType::Letter),
        key_view(1, 5, true, "G"@, KeyType::Letter),
        key_view(2, 0, true, "Shift"@, KeyType::Modifier),
        key_view(2, 1, true, "Z"@, KeyType::Letter),
        key_view(2, 2, true, "X"@, KeyType::Letter),
        key_view(2, 3, true, "C"@, KeyType::Letter),
        key_view(2, 4, true, "V"@, KeyType::Letter),
        key_view(2, 5, true, "B"@, KeyType::Letter),
        key_view(0, 0, false, "Y"@, KeyType::Letter),
        key_view(0, 1, false, "U"@, KeyType::Letter),
        key_view(0, 2, false, "I"@, KeyType::Letter),
        key_view(0, 3, false, "O"@, KeyType::Letter),
        key_view(0, 4, false, "P"@, KeyType::Letter),
        key_view(0, 5, false, "Bksp"@, KeyType::Navigation),
        key_view(1, 0, false, "H"@, KeyType::Letter),
        key_view(1, 1, false, "J"@, KeyType::Letter),
        key_view(1, 2, false, "K"@, KeyType::Letter),
        key_view(1, 3, false, "L"@, KeyType::Letter),
        key_view(1, 4, false, ";"@, KeyType::Symbol),
        key_view(1, 5, false, "'"@, KeyType::Symbol),
        key_view(2, 0, false, "N"@, KeyType::Letter),
        key_view(2, 1, false, "M"@, KeyType::Letter),
        key_view(2, 2, false, ","@, KeyType::Symbol),
        key_view(2, 3, false, "."@, KeyType::Symbol),
        key_view(2, 4, false, "/"@, KeyType::Symbol),
        key_view(2, 5, false, "Shift"@, KeyType::Modifier),
    ]
}

/// The keys of the default Lower layer.
pub open spec fn lower_layer_keys() -> Seq<KeyDefView> {
    seq![
        key_view(0, 1, true, "1"@, KeyType::Number),
        key_view(0, 2, true, "2"@, KeyType::Number),
        key_view(0, 3, true, "3"@, KeyType::Number),
        key_view(0, 4, true, "4"@, KeyType::Number),
        key_view(0, 5, true, "5"@, KeyType::Number),
        key_view(0, 0, false, "6"@, KeyType::Number),
        key_view(0, 1, false, "7"@, KeyType::Number),
        key_view(0, 2, false, "8"@, KeyType::Number),
        key_view(0, 3, false, "9"@, KeyType::Number),
        key_view(0, 4, false, "0"@, KeyType::Number),
    ]
}

/// The keys of the default Raise layer.
pub open spec fn raise_layer_keys() -> Seq<KeyDefView> {
    seq![
        key_view(0, 1, true, "!"@, KeyType::Symbol),
        key_view(0, 2, true, "@"@, KeyType::Symbol),
        key_view(0, 3, true, "#"@, KeyType::Symbol),
        key_view(0, 4, true, "$"@, KeyType::Symbol),
        key_view(0, 5, true, "%"@, KeyType::Symbol),
    ]
}

/// The keys of the default Adjust layer.
pub open spec fn adjust_layer_keys() -> Seq<KeyDefView> {
    seq![
        key_view(0, 1, true, "F1"@, KeyType::Function),
        key_view(0, 2, true, "F2"@, KeyType::Function),
        key_view(0, 3, true, "F3"@, KeyType::Function),
        key_view(0, 4, true, "F4"@, KeyType::Function),
    ]
}

/// `r` holds one layer per parsed list of keys, with its keys, named from
/// `names` in order and `Layer i` past its end.
pub open spec fn are_parsed_layers(r: Seq<Layer>, parsed: Seq<Vec<KeyDef>>, names: Seq<String>) -> bool {
    &&& r.len() == parsed.len()
    &&& forall|i: int|
        0 <= i < r.len() ==> {
            &&& (#[trigger] r[i]).wf()
            &&& r[i].name_view() == layer_name_for(names.map_values(|s: String| s@), i)
            &&& r[i].key_map() == keys_to_map(key_defs_view(parsed[i]@))
        }
}

/// `r` holds the default layers: Base, Lower, Raise and Adjust.
pub open spec fn are_default_layers(r: Seq<Layer>) -> bool {
    &&& r.len() == 4
    &&& forall|i: int| 0 <= i < 4 ==> (#[trigger] r[i]).wf()
    &&& r[0].name_view() == "Base"@
    &&& r[0].key_map() == keys_to_map(base_layer_keys())
    &&& r[1].name_view() == "Lower"@
    &&& r[1].key_map() == keys_to_map(lower_layer_keys())
    &&& r[2].name_view() == "Raise"@
    &&& r[2].key_map() == keys_to_map(raise_layer_keys())
    &&& r[3].name_view() == "Adjust"@
    &&& r[3].key_map() == keys_to_map(adjust_layer_keys())
}

/// A named set of key definitions.
#[derive(Debug, Clone)]
pub struct Layer {
    pub name: String,
    keys: HashMap<u32, KeyDef>,
}

impl Layer {
    /// The name of this layer.
    pub closed spec fn name_view(&self) -> Seq<char> {
        self.name@
    }

    /// The key definitions of this layer by position.
    pub closed spec fn key_map(&self) -> Map<(u8, u8, bool), KeyDefView> {
        Map::new(
            |p: (u8, u8, bool)| self.keys@.contains_key(key_code(p.0, p.1, p.2)),
            |p: (u8, u8, bool)| self.keys@[key_code(p.0, p.1, p.2)]@,
        )
    }

    /// Every definition is filed under its own position.
    pub closed spec fn wf(&self) -> bool {
        forall|c: u32| #[trigger]
            self.keys@.contains_key(c) ==> key_code(
                self.keys@[c].row,
                self.keys@[c].col,
                self.keys@[c].is_left,
            ) == c
    }

    /// A layer of the given keys; where two keys share a position, the later one is kept.
    pub fn new(name: &str, keys: Vec<KeyDef>) -> (l: Self)
        ensures
            l.wf(),
            l.name_view() == name@,
            l.key_map() == keys_to_map(key_defs_view(keys@)),
    {
        let mut key_map: HashMap<u32, KeyDef> = HashMap::new();
        let ghost all = key_defs_view(keys@);
        for key in it: keys
            invariant
                it.seq() == keys@,
                all == key_defs_view(keys@),
                forall|c: u32| #[trigger]
                    key_map@.contains_key(c) ==> key_code(
                        key_map@[c].row,
                        key_map@[c].col,
                        key_map@[c].is_left,
                    ) == c,
                Map::new(
                    |p: (u8, u8, bool)| key_map@.contains_key(key_code(p.0, p.1, p.2)),
                    |p: (u8, u8, bool)| key_map@[key_code(p.0, p.1, p.2)]@,
                ) == keys_to_map(all.take(it.index() as int)),
        {
            let ghost before = key_map@;
            let ghost i = it.index();
            let code = key_code_of(key.row, key.col, key.is_left);
            let ghost kv = key@;
            key_map.insert(code, key);
            proof {
                assert(all.take(i + 1).drop_last() =~= all.take(i as int));
                assert(all.take(i + 1).last() == kv);
                assert forall|p: (u8, u8, bool)|
                    key_map@.contains_key(key_code(p.0, p.1, p.2)) == (before.contains_key(
                        key_code(p.0, p.1, p.2),
                    ) || p == kv.position()) by {
                    lemma_key_code_injective(p, kv.position());
                }
                assert(Map::new(
                    |p: (u8, u8, bool)| key_map@.contains_key(key_code(p.0, p.1, p.2)),
                    |p: (u8, u8, bool)| key_map@[key_code(p.0, p.1, p.2)]@,
                ) =~= keys_to_map(all.take(i + 1)));
            }
        }
        proof {
            assert(all.take(all.len() as int) =~= all);
        }
        Self { name: name.to_string(), keys: key_map }
    }

    /// One layer per parsed list of keys, named from `layer_names` in order
    /// and `Layer i` past its end.
    pub fn from_parsed_layers(parsed_layers: Vec<Vec<KeyDef>>, layer_names: Vec<String>) -> (r: Vec<
        Layer,
    >)
        ensures
            are_parsed_layers(r@, parsed_layers@, layer_names@),
    {
        let ghost names = layer_names@.map_values(|s: String| s@);
        let mut r: Vec<Layer> = Vec::new();
        let mut i: usize = 0;
        let n = parsed_layers.len();
        for keys in it: parsed_layers
            invariant
                it.seq() == parsed_layers@,
                n == parsed_layers@.len(),
                names == layer_names@.map_values(|s: String| s@),
                i == it.index(),
                r@.len() == i,
                forall|j: int|
                    0 <= j < i ==> {
                        &&& (#[trigger] r@[j]).wf()
                        &&& r@[j].name_view() == layer_name_for(names, j)
                        &&& r@[j].key_map() == keys_to_map(key_defs_view(parsed_layers@[j]@))
                    },
        {
            let name: String = if i < layer_names.len() {
                layer_names[i].clone()
            } else {
                let mut n = str_chars("Layer ");
                let d = decimal_chars(i);
                push_chars(&mut n, &d);
                string_from_chars(&n)
            };
            r.push(Layer::new(name.as_str(), keys));
            i += 1;
        }
        r
    }

    /// The name of this layer as a string slice.
    pub(crate) fn name_str(&self) -> (n: &str)
        ensures
            n@ == self.name_view(),
    {
        self.name.as_str()
    }

    /// The key at a position, if the layer defines one.
    pub fn get_key(&self, row: u8, col: u8, is_left: bool) -> (r: Option<&KeyDef>)
        ensures
            match r {
                Some(k) => self.key_map().contains_key((row, col, is_left)) && k@ == self.key_map()[(
                    row,
                    col,
                    is_left,
                )],
                None => !self.key_map().contains_key((row, col, is_left)),
            },
    {
        let code = key_code_of(row, col, is_left);
        self.keys.get(&code)
    }

    /// The layers to show: those of the keymap where one was read and parsed,
    /// the default layers where there is no keymap or it could not be read.
    pub fn load_layers(
        parsed: Option<Result<Vec<Vec<KeyDef>>, ParseError>>,
        layer_names: Vec<String>,
    ) -> (r: Vec<Layer>)
        ensures
            match parsed {
                Some(Ok(p)) => are_parsed_layers(r@, p@, layer_names@),
                _ => are_default_layers(r@),
            },
    {
        match parsed {
            Some(Ok(parsed_layers)) => Self::from_parsed_layers(parsed_layers, layer_names),
            _ => Self::create_default_layers(),
        }
    }

    /// The default layers of a Corne: Base, Lower (numbers), Raise (symbols)
    /// and Adjust (function keys).
    pub fn create_default_layers() -> (r: Vec<Layer>)
        ensures
            are_default_layers(r@),
    {
        vec![
            Self::create_base_layer(),
            Self::create_lower_layer(),
            Self::create_raise_layer(),
            Self::create_adjust_layer(),
        ]
    }

    /// The default Base layer.
    pub fn create_base_layer() -> (l: Layer)
        ensures
            l.wf(),
            l.name_view() == "Base"@,
            l.key_map() == keys_to_map(base_layer_keys()),
    {
        let keys = vec![
            key_def(0, 0, true, "Tab", KeyType::Navigation),
            key_def(0, 1, true, "Q", KeyType::Letter),
            key_def(0, 2, true, "W", KeyType::Letter),
            key_def(0, 3, true, "E", KeyType::Letter),
            key_def(0, 4, true, "R", KeyType::Letter),
            key_def(0, 5, true, "T", KeyType::Letter),
            key_def(1, 0, true, "Esc", KeyType::Function),
            key_def(1, 1, true, "A", KeyType::Letter),
            key_def(1, 2, true, "S", KeyType::Letter),
            key_def(1, 3, true, "D", KeyType::Letter),
            key_def(1, 4, true, "F", KeyType::Letter),
            key_def(1, 5, true, "G", KeyType::Letter),
            key_def(2, 0, true, "Shift", KeyType::Modifier),
            key_def(2, 1, true, "Z", KeyType::Letter),
            key_def(2, 2, true, "X", KeyType::Letter),
            key_def(2, 3, true, "C", KeyType::Letter),
            key_def(2, 4, true, "V", KeyType::Letter),
            key_def(2, 5, true, "B", KeyType::Letter),
            key_def(0, 0, false, "Y", KeyType::Letter),
            key_def(0, 1, false, "U", KeyType::Letter),
            key_def(0, 2, false, "I", KeyType::Letter),
            key_def(0, 3, false, "O", KeyType::Letter),
            key_def(0, 4, false, "P", KeyType::Letter),
            key_def(0, 5, false, "Bksp", KeyType::Navigation),
            key_def(1, 0, false, "H", KeyType::Letter),
            key_def(1, 1, false, "J", KeyType::Letter),
            key_def(1, 2, false, "K", KeyType::Letter),
            key_def(1, 3, false, "L", KeyType::Letter),
            key_def(1, 4, false, ";", KeyType::Symbol),
            key_def(1, 5, false, "'", KeyType::Symbol),
            key_def(2, 0, false, "N", KeyType::Letter),
            key_def(2, 1, false, "M", KeyType::Letter),
            key_def(2, 2, false, ",", KeyType::Symbol),
            key_def(2, 3, false, ".", KeyType::Symbol),
            key_def(2, 4, false, "/", KeyType::Symbol),
            key_def(2, 5, false, "Shift", KeyType::Modifier),
        ];
        assert(key_defs_view(keys@) =~= base_layer_keys());
        Layer::new("Base", keys)
    }

    /// The default Lower layer.
    pub fn create_lower_layer() -> (l: Layer)
        ensures
            l.wf(),
            l.name_view() == "Lower"@,
            l.key_map() == keys_to_map(lower_layer_keys()),
    {
        let keys = vec![
            key_def(0, 1, true, "1", KeyType::Number),
            key_def(0, 2, true, "2", KeyType::Number),
            key_def(0, 3, true, "3", KeyType::Number),
            key_def(0, 4, true, "4", KeyType::Number),
            key_def(0, 5, true, "5", KeyType::Number),
            key_def(0, 0, false, "6", KeyType::Number),
            key_def(0, 1, false, "7", KeyType::Number),
            key_def(0, 2, false, "8", KeyType::Number),
            key_def(0, 3, false, "9", KeyType::Number),
            key_def(0, 4, false, "0", KeyType::Number),
        ];
        assert(key_defs_view(keys@) =~= lower_layer_keys());
        Layer::new("Lower", keys)
    }

    /// The default Raise layer.
    pub fn create_raise_layer() -> (l: Layer)
        ensures
            l.wf(),
            l.name_view() == "Raise"@,
            l.key_map() == keys_to_map(raise_layer_keys()),
    {
        let keys = vec![
            key_def(0, 1, true, "!", KeyType::Symbol),
            key_def(0, 2, true, "@", KeyType::Symbol),
            key_def(0, 3, true, "#", KeyType::Symbol),
            key_def(0, 4, true, "$", KeyType::Symbol),
            key_def(0, 5, true, "%", KeyType::Symbol),
        ];
        assert(key_defs_view(keys@) =~= raise_layer_keys());
        Layer::new("Raise", keys)
    }

    /// The default Adjust layer.
    pub fn create_adjust_layer() -> (l: Layer)
        ensures
            l.wf(),
            l.name_view() == "Adjust"@,
            l.key_map() == keys_to_map(adjust_layer_keys()),
    {
        let keys = vec![
            key_def(0, 1, true, "F1", KeyType::Function),
            key_def(0, 2, true, "F2", KeyType::Function),
            key_def(0, 3, true, "F3", KeyType::Function),
            key_def(0, 4, true, "F4", KeyType::Function),
        ];
        assert(key_defs_view(keys@) =~= adjust_layer_keys());
        Layer::new("Adjust", keys)
    }

    /// Every key of the layer, once each, in no particular order.
    pub fn all_keys(&self) -> (r: Vec<&KeyDef>)
        requires
            self.wf(),
        ensures
            forall|i: int|
                0 <= i < r@.len() ==> self.key_map().contains_key(r@[i]@.position())
                    && self.key_map()[r@[i]@.position()] == r@[i]@,
            forall|p: (u8, u8, bool)|
                self.key_map().contains_key(p) ==> exists|i: int|
                    0 <= i < r@.len() && r@[i]@.position() == p,
            forall|i: int, j: int|
                0 <= i < j < r@.len() ==> r@[i]@.position() != r@[j]@.position(),
    {
        let mut r: Vec<&KeyDef> = Vec::new();
        let ghost m = self.keys@;
        for kv in it: self.keys.iter()
            invariant
                m == self.keys@,
                self.wf(),
                it.seq() == spec_hash_map_iter(&self.keys).remaining(),
                r@.len() == it.index(),
                forall|i: int| 0 <= i < it.index() ==> r@[i] == it.seq()[i].1,
        {
            r.push(kv.1);
        }
        let ghost v = spec_hash_map_iter(&self.keys).remaining();
        proof {
            assert forall|i: int|
                0 <= i < r@.len() implies self.key_map().contains_key(r@[i]@.position())
                && self.key_map()[r@[i]@.position()] == r@[i]@ by {
                assert(m.contains_key(*v[i].0) && m[*v[i].0] == *v[i].1);
            }
            assert forall|p: (u8, u8, bool)| self.key_map().contains_key(p) implies exists|i: int|
                0 <= i < r@.len() && r@[i]@.position() == p by {
                let c = key_code(p.0, p.1, p.2);
                assert(m.contains_key(c));
                assert(v.contains((&c, &m[c])));
                let i = choose|i: int| 0 <= i < v.len() && v[i] == (&c, &m[c]);
                assert(r@[i]@.position() == p);
            }
            assert forall|i: int, j: int|
                0 <= i < j < r@.len() implies r@[i]@.position() != r@[j]@.position() by {
                assert(m.contains_key(*v[i].0) && m[*v[i].0] == *v[i].1);
                assert(m.contains_key(*v[j].0) && m[*v[j].0] == *v[j].1);
                assert(v[i] != v[j]);
            }
        }
        r
    }
}

} // verus!
