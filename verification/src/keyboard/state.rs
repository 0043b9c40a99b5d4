//! What the keyboard is doing right now, kept up to date from its messages.

use super::layers::{key_code, key_code_of, lemma_key_code_injective, Layer};
use super::layout::{KeyDef, KeyDefView, Layout};
use crate::hid::protocol::{KeyPosition, Message, MessageModel, Modifiers};
use std::collections::HashSet;
use vstd::prelude::*;

verus! {

broadcast use {vstd::std_specs::hash::group_hash_axioms, vstd::string::group_string_axioms};

/// The position of a reported key.
pub open spec fn key_of(p: KeyPosition) -> (u8, u8, bool) {
    (p.row, p.col, p.is_left)
}

/// What the keyboard is doing: the active layer, the held modifiers, and the held keys.
pub struct StateModel {
    pub layer: u8,
    pub modifiers: Modifiers,
    pub pressed: Set<(u8, u8, bool)>,
}

/// No modifier held.
pub open spec fn no_modifiers() -> Modifiers {
    Modifiers { shift: false, ctrl: false, alt: false, gui: false }
}

/// The state after a message: a layer change sets the layer, a press adds the
/// key, a release removes it, a modifier state replaces the modifiers, and a
/// full state replaces all three; the reader's reconnection notice changes
/// nothing.
pub open spec fn step(s: StateModel, m: MessageModel) -> StateModel {
    match m {
        MessageModel::LayerChange { layer } => StateModel { layer, ..s },
        MessageModel::KeyPress(p) => StateModel { pressed: s.pressed.insert(key_of(p)), ..s },
        MessageModel::KeyRelease(p) => StateModel { pressed: s.pressed.remove(key_of(p)), ..s },
        MessageModel::ModifierState(mods) => StateModel { modifiers: mods, ..s },
        MessageModel::FullState { layer, modifiers, pressed_keys } => StateModel {
            layer,
            modifiers,
            pressed: pressed_keys.map_values(|p: KeyPosition| key_of(p)).to_set(),
        },
        MessageModel::DeviceReconnected => s,
    }
}

/// Pressing a key and releasing it again leaves the key released and the
/// rest of the state as it was.
pub proof fn lemma_press_then_release(s: StateModel, p: KeyPosition)
    ensures
        step(step(s, MessageModel::KeyPress(p)), MessageModel::KeyRelease(p)) == (StateModel {
            pressed: s.pressed.remove(key_of(p)),
            ..s
        }),
        !step(step(s, MessageModel::KeyPress(p)), MessageModel::KeyRelease(p)).pressed.contains(
            key_of(p),
        ),
{
    assert(s.pressed.insert(key_of(p)).remove(key_of(p)) =~= s.pressed.remove(key_of(p)));
}

/// Pressing a key that was not held and releasing it restores the state.
pub proof fn lemma_press_release_restores(s: StateModel, p: KeyPosition)
    requires
        !s.pressed.contains(key_of(p)),
    ensures
        step(step(s, MessageModel::KeyPress(p)), MessageModel::KeyRelease(p)) == s,
{
    assert(s.pressed.insert(key_of(p)).remove(key_of(p)) =~= s.pressed);
}

/// Releasing a key that is not held changes nothing.
pub proof fn lemma_release_unpressed(s: StateModel, p: KeyPosition)
    requires
        !s.pressed.contains(key_of(p)),
    ensures
        step(s, MessageModel::KeyRelease(p)) == s,
{
    assert(s.pressed.remove(key_of(p)) =~= s.pressed);
}

/// Reporting the same press twice is the same as reporting it once.
pub proof fn lemma_press_idempotent(s: StateModel, p: KeyPosition)
    ensures
        step(step(s, MessageModel::KeyPress(p)), MessageModel::KeyPress(p)) == step(
            s,
            MessageModel::KeyPress(p),
        ),
{
    assert(s.pressed.insert(key_of(p)).insert(key_of(p)) =~= s.pressed.insert(key_of(p)));
}

/// A full-state message resynchronises: the state after it does not depend
/// on the state before it, and a key is held exactly when the message lists it.
pub proof fn lemma_full_state_resyncs(
    s1: StateModel,
    s2: StateModel,
    layer: u8,
    modifiers: Modifiers,
    keys: Seq<KeyPosition>,
    q: (u8, u8, bool),
)
    ensures
        step(s1, MessageModel::FullState { layer, modifiers, pressed_keys: keys }) == step(
            s2,
            MessageModel::FullState { layer, modifiers, pressed_keys: keys },
        ),
        step(s1, MessageModel::FullState { layer, modifiers, pressed_keys: keys }).pressed.contains(
            q,
        ) <==> exists|i: int| 0 <= i < keys.len() && key_of(#[trigger] keys[i]) == q,
{
    let ks = keys.map_values(|p: KeyPosition| key_of(p));
    if ks.to_set().contains(q) {
        assert(ks.contains(q));
        let i = choose|i: int| 0 <= i < ks.len() && #[trigger] ks[i] == q;
        assert(key_of(keys[i]) == q);
    }
    if exists|i: int| 0 <= i < keys.len() && key_of(#[trigger] keys[i]) == q {
        let i = choose|i: int| 0 <= i < keys.len() && key_of(#[trigger] keys[i]) == q;
        assert(ks[i] == q);
        assert(ks.contains(q));
    }
}

/// A modifier-state message replaces the held modifiers with exactly those it
/// carries, whatever was held before, and touches neither layer nor keys; so
/// a later message releases what an earlier one held.
pub proof fn lemma_modifier_state_replaces(s: StateModel, m1: Modifiers, m2: Modifiers)
    ensures
        step(s, MessageModel::ModifierState(m1)).modifiers == m1,
        step(s, MessageModel::ModifierState(m1)).layer == s.layer,
        step(s, MessageModel::ModifierState(m1)).pressed == s.pressed,
        step(step(s, MessageModel::ModifierState(m1)), MessageModel::ModifierState(m2)).modifiers
            == m2,
        step(step(s, MessageModel::ModifierState(m1)), MessageModel::ModifierState(no_modifiers())).modifiers
            == no_modifiers(),
{
}

/// A layer change moves to the layer and touches neither modifiers nor held keys.
pub proof fn lemma_layer_change_only_moves_layer(s: StateModel, layer: u8)
    ensures
        step(s, MessageModel::LayerChange { layer }).layer == layer,
        step(s, MessageModel::LayerChange { layer }).modifiers == s.modifiers,
        step(s, MessageModel::LayerChange { layer }).pressed == s.pressed,
{
}

/// The live state of the keyboard and the layers it shows.
#[derive(Debug)]
pub struct KeyboardState {
    layout: Layout,
    layers: Vec<Layer>,
    current_layer: u8,
    modifiers: Modifiers,
    pressed_keys: HashSet<u32>,
}

impl View for KeyboardState {
    type V = StateModel;

    closed spec fn view(&self) -> StateModel {
        StateModel {
            layer: self.current_layer,
            modifiers: self.modifiers,
            pressed: Set::new(
                |p: (u8, u8, bool)| self.pressed_keys@.contains(key_code(p.0, p.1, p.2)),
            ),
        }
    }
}

impl KeyboardState {
    /// The layers this state shows.
    pub closed spec fn layers_view(&self) -> Seq<Layer> {
        self.layers@
    }

    /// The layout is a Corne's and every layer files its keys by position.
    #[verifier::type_invariant]
    spec fn inv(self) -> bool {
        &&& self.layout.wf()
        &&& forall|i: int| 0 <= i < self.layers@.len() ==> (#[trigger] self.layers@[i]).wf()
    }

    /// The layer that is active in this state, if there is one by that number.
    pub open spec fn active_layer(&self) -> Option<Layer> {
        if self@.layer < self.layers_view().len() {
            Some(self.layers_view()[self@.layer as int])
        } else {
            None
        }
    }

    /// A state on layer 0 with no modifier and no key held.
    pub fn new(layers: Vec<Layer>) -> (s: Self)
        requires
            forall|i: int| 0 <= i < layers@.len() ==> (#[trigger] layers@[i]).wf(),
        ensures
            s.layers_view() == layers@,
            s@.layer == 0,
            s@.modifiers == no_modifiers(),
            s@.pressed == Set::<(u8, u8, bool)>::empty(),
    {
        let s = Self {
            layout: Layout::new(),
            layers,
            current_layer: 0,
            modifiers: Modifiers { shift: false, ctrl: false, alt: false, gui: false },
            pressed_keys: HashSet::new(),
        };
        assert(s@.pressed =~= Set::<(u8, u8, bool)>::empty());
        s
    }

    /// Takes in a message from the keyboard.
    pub fn apply_message(&mut self, msg: Message)
        ensures
            final(self)@ == step(old(self)@, msg@),
            msg@ matches MessageModel::ModifierState(m) ==> final(self)@.modifiers == m
                && final(self)@.layer == old(self)@.layer && final(self)@.pressed == old(
                self,
            )@.pressed,
            msg@ matches MessageModel::LayerChange { layer } ==> final(self)@.layer == layer
                && final(self)@.modifiers == old(self)@.modifiers && final(self)@.pressed == old(
                self,
            )@.pressed,
            msg@ matches MessageModel::KeyPress(p) ==> final(self)@.pressed.contains(
                (p.row, p.col, p.is_left),
            ) && forall|q: (u8, u8, bool)|
                q != (p.row, p.col, p.is_left) ==> (final(self)@.pressed.contains(q) == old(
                    self,
                )@.pressed.contains(q)),
            msg@ matches MessageModel::KeyRelease(p) ==> !final(self)@.pressed.contains(
                (p.row, p.col, p.is_left),
            ) && forall|q: (u8, u8, bool)|
                q != (p.row, p.col, p.is_left) ==> (final(self)@.pressed.contains(q) == old(
                    self,
                )@.pressed.contains(q)),
            final(self).layers_view() == old(self).layers_view(),
    {
        proof {
            use_type_invariant(&*self);
        }
        let ghost before = self@;
        match msg {
            Message::LayerChange { layer } => {
                self.current_layer = layer;
            },
            Message::KeyPress(pos) => {
                let code = key_code_of(pos.row, pos.col, pos.is_left);
                let mut pressed: HashSet<u32> = HashSet::new();
                std::mem::swap(&mut pressed, &mut self.pressed_keys);
                pressed.insert(code);
                self.pressed_keys = pressed;
                proof {
                    assert forall|p: (u8, u8, bool)|
                        self.pressed_keys@.contains(key_code(p.0, p.1, p.2)) == (
                        before.pressed.contains(p) || p == key_of(pos)) by {
                        lemma_key_code_injective(p, key_of(pos));
                    }
                    assert(self@.pressed =~= before.pressed.insert(key_of(pos)));
                }
            },
            Message::KeyRelease(pos) => {
                let code = key_code_of(pos.row, pos.col, pos.is_left);
                let mut pressed: HashSet<u32> = HashSet::new();
                std::mem::swap(&mut pressed, &mut self.pressed_keys);
                pressed.remove(&code);
                self.pressed_keys = pressed;
                proof {
                    assert forall|p: (u8, u8, bool)|
                        self.pressed_keys@.contains(key_code(p.0, p.1, p.2)) == (
                        before.pressed.contains(p) && p != key_of(pos)) by {
                        lemma_key_code_injective(p, key_of(pos));
                    }
                    assert(self@.pressed =~= before.pressed.remove(key_of(pos)));
                }
            },
            Message::ModifierState(mods) => {
                self.modifiers = mods;
            },
            Message::FullState { layer, modifiers, pressed_keys } => {
                self.current_layer = layer;
                self.modifiers = modifiers;
                let mut pressed: HashSet<u32> = HashSet::new();
                std::mem::swap(&mut pressed, &mut self.pressed_keys);
                pressed.clear();
                let ghost keys = pressed_keys@;
                for key in it: pressed_keys
                    invariant
                        it.seq() == keys,
                        forall|c: u32|
                            pressed@.contains(c) <==> exists|j: int|
                                0 <= j < it.index() && c == key_code(
                                    #[trigger] keys[j].row,
                                    keys[j].col,
                                    keys[j].is_left,
                                ),
                {
                    let ghost i = it.index();
                    let code = key_code_of(key.row, key.col, key.is_left);
                    pressed.insert(code);
                    proof {
                        assert(keys[i as int] == key);
                        assert forall|c: u32|
                            pressed@.contains(c) implies exists|j: int|
                                0 <= j < i + 1 && c == key_code(
                                    #[trigger] keys[j].row,
                                    keys[j].col,
                                    keys[j].is_left,
                                ) by {
                            if c == code {
                                assert(c == key_code(keys[i as int].row, keys[i as int].col, keys[i as int].is_left));
                            }
                        }
                    }
                }
                proof {
                    let ks = keys.map_values(|p: KeyPosition| key_of(p));
                    let target = ks.to_set();
                    assert forall|p: (u8, u8, bool)|
                        pressed@.contains(key_code(p.0, p.1, p.2)) == target.contains(p) by {
                        if pressed@.contains(key_code(p.0, p.1, p.2)) {
                            let j = choose|j: int|
                                0 <= j < keys.len() && key_code(p.0, p.1, p.2) == key_code(
                                    #[trigger] keys[j].row,
                                    keys[j].col,
                                    keys[j].is_left,
                                );
                            lemma_key_code_injective(p, key_of(keys[j]));
                            assert(ks[j] == p);
                        }
                        if target.contains(p) {
                            assert(ks.contains(p));
                            let j = choose|j: int| 0 <= j < ks.len() && #[trigger] ks[j] == p;
                            assert(key_of(keys[j]) == p);
                            assert(key_code(p.0, p.1, p.2) == key_code(keys[j].row, keys[j].col, keys[j].is_left));
                        }
                    }
                }
                self.pressed_keys = pressed;
                proof {
                    let ks = keys.map_values(|p: KeyPosition| key_of(p));
                    assert(self@.pressed =~= ks.to_set());
                }
            },
            Message::DeviceReconnected => {},
        }
    }

    /// Swaps in new layers and keeps the rest of the state.
    pub fn reload_layers(&mut self, layers: Vec<Layer>)
        requires
            forall|i: int| 0 <= i < layers@.len() ==> (#[trigger] layers@[i]).wf(),
        ensures
            final(self)@ == old(self)@,
            final(self).layers_view() == layers@,
    {
        proof {
            use_type_invariant(&*self);
        }
        self.layers = layers;
    }

    /// The number of the active layer.
    pub fn current_layer(&self) -> (l: u8)
        ensures
            l == self@.layer,
    {
        self.current_layer
    }

    /// The held modifiers.
    pub fn modifiers(&self) -> (m: &Modifiers)
        ensures
            *m == self@.modifiers,
    {
        &self.modifiers
    }

    /// Whether a key is held.
    pub fn is_key_pressed(&self, row: u8, col: u8, is_left: bool) -> (b: bool)
        ensures
            b == self@.pressed.contains((row, col, is_left)),
    {
        let code = key_code_of(row, col, is_left);
        self.pressed_keys.contains(&code)
    }

    /// The key at a position on the active layer, if that layer exists and defines one.
    pub fn get_key_at(&self, row: u8, col: u8, is_left: bool) -> (r: Option<&KeyDef>)
        ensures
            match r {
                Some(k) => self.active_layer() matches Some(l) && l.key_map().contains_key(
                    (row, col, is_left),
                ) && k@ == l.key_map()[(row, col, is_left)],
                None => !(self.active_layer() matches Some(l) && l.key_map().contains_key(
                    (row, col, is_left),
                )),
            },
    {
        if (self.current_layer as usize) < self.layers.len() {
            self.layers[self.current_layer as usize].get_key(row, col, is_left)
        } else {
            None
        }
    }

    /// Every key of the active layer, once each, in no particular order; none
    /// when the active layer does not exist.
    pub fn get_current_layer_keys(&self) -> (r: Vec<&KeyDef>)
        ensures
            self.active_layer() is None ==> r@.len() == 0,
            self.active_layer() matches Some(l) ==> {
                &&& forall|i: int|
                    0 <= i < r@.len() ==> l.key_map().contains_key(r@[i]@.position())
                        && l.key_map()[r@[i]@.position()] == r@[i]@
                &&& forall|p: (u8, u8, bool)|
                    l.key_map().contains_key(p) ==> exists|i: int|
                        0 <= i < r@.len() && r@[i]@.position() == p
                &&& forall|i: int, j: int|
                    0 <= i < j < r@.len() ==> r@[i]@.position() != r@[j]@.position()
            },
    {
        proof {
            use_type_invariant(self);
        }
        if (self.current_layer as usize) < self.layers.len() {
            self.layers[self.current_layer as usize].all_keys()
        } else {
            Vec::new()
        }
    }

    /// The layout of the keyboard.
    pub fn layout(&self) -> (l: &Layout)
        ensures
            l.wf(),
    {
        proof {
            use_type_invariant(self);
        }
        &self.layout
    }

    /// The name of the active layer, or `Unknown` when it does not exist.
    pub fn layer_name(&self) -> (n: &str)
        ensures
            n@ == match self.active_layer() {
                Some(l) => l.name_view(),
                None => "Unknown"@,
            },
    {
        if (self.current_layer as usize) < self.layers.len() {
            self.layers[self.current_layer as usize].name_str()
        } else {
            "Unknown"
        }
    }
}

} // verus!
