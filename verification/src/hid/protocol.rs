//! The 32-byte Raw HID packet format that the keyboard firmware sends.

use vstd::prelude::*;

verus! {

/// First byte of a layer-change packet.
pub const MSG_LAYER_CHANGE: u8 = 0x01;

/// First byte of a key-press packet.
pub const MSG_KEY_PRESS: u8 = 0x02;

/// First byte of a key-release packet.
pub const MSG_KEY_RELEASE: u8 = 0x03;

/// First byte of a modifier-state packet.
pub const MSG_MODIFIER_STATE: u8 = 0x04;

/// First byte of a full-state packet.
pub const MSG_FULL_STATE: u8 = 0x05;

/// The kinds of packets the firmware sends.
#[derive(Debug, Clone, Copy, PartialEq, Eq, Structural)]
pub enum MessageType {
    LayerChange,
    KeyPress,
    KeyRelease,
    ModifierState,
    FullState,
}

/// A key of the matrix: its row, its column, and the half it sits on.
#[derive(Debug, Clone, Copy, PartialEq, Eq, Structural)]
pub struct KeyPosition {
    pub row: u8,
    pub col: u8,
    pub is_left: bool,
}

/// The four modifiers that the firmware reports.
#[derive(Debug, Clone, Copy, PartialEq, Eq, Structural)]
pub struct Modifiers {
    pub shift: bool,
    pub ctrl: bool,
    pub alt: bool,
    pub gui: bool,
}

/// The modifiers that a mask byte names: bit 0 Shift, bit 1 Ctrl, bit 2 Alt,
/// bit 3 Gui; the other bits are ignored.
pub open spec fn modifiers_from_mask(mask: u8) -> Modifiers {
    Modifiers {
        shift: mask & 0x01 != 0,
        ctrl: mask & 0x02 != 0,
        alt: mask & 0x04 != 0,
        gui: mask & 0x08 != 0,
    }
}

/// The value `b` stands for in a bit position: 1 when set, 0 when not.
pub open spec fn bit(b: bool) -> int {
    if b {
        1
    } else {
        0
    }
}

/// The mask byte of a set of modifiers.
pub open spec fn modifiers_mask(m: Modifiers) -> u8 {
    (bit(m.shift) + 2 * bit(m.ctrl) + 4 * bit(m.alt) + 8 * bit(m.gui)) as u8
}

impl Modifiers {
    /// Reads a modifier mask byte.
    pub fn from_mask(mask: u8) -> (m: Self)
        ensures
            m == modifiers_from_mask(mask),
    {
        Self {
            shift: (mask & 0x01) != 0,
            ctrl: (mask & 0x02) != 0,
            alt: (mask & 0x04) != 0,
            gui: (mask & 0x08) != 0,
        }
    }

    /// Writes the modifier mask byte.
    pub fn to_mask(&self) -> (mask: u8)
        ensures
            mask == modifiers_mask(*self),
    {
        let mut mask = 0u8;
        if self.shift {
            assert(0u8 | 0x01u8 == 1u8) by (bit_vector);
            mask |= 0x01;
        }
        if self.ctrl {
            assert(mask < 2 ==> mask | 0x02 == mask + 2) by (bit_vector);
            mask |= 0x02;
        }
        if self.alt {
            assert(mask < 4 ==> mask | 0x04 == mask + 4) by (bit_vector);
            mask |= 0x04;
        }
        if self.gui {
            assert(mask < 8 ==> mask | 0x08 == mask + 8) by (bit_vector);
            mask |= 0x08;
        }
        mask
    }

    /// Whether no modifier is held.
    pub fn is_empty(&self) -> (b: bool)
        ensures
            b == (!self.shift && !self.ctrl && !self.alt && !self.gui),
    {
        !self.shift && !self.ctrl && !self.alt && !self.gui
    }
}

/// A message from the keyboard, or the reader's own notice that the device came back.
#[derive(Debug, Clone, PartialEq, Eq)]
pub enum Message {
    LayerChange { layer: u8 },
    KeyPress(KeyPosition),
    KeyRelease(KeyPosition),
    ModifierState(Modifiers),
    FullState { layer: u8, modifiers: Modifiers, pressed_keys: Vec<KeyPosition> },
    DeviceReconnected,
}

/// A message as a mathematical value: the list of pressed keys is a sequence.
pub enum MessageModel {
    LayerChange { layer: u8 },
    KeyPress(KeyPosition),
    KeyRelease(KeyPosition),
    ModifierState(Modifiers),
    FullState { layer: u8, modifiers: Modifiers, pressed_keys: Seq<KeyPosition> },
    DeviceReconnected,
}

impl View for Message {
    type V = MessageModel;

    open spec fn view(&self) -> MessageModel {
        match self {
            Message::LayerChange { layer } => MessageModel::LayerChange { layer: *layer },
            Message::KeyPress(p) => MessageModel::KeyPress(*p),
            Message::KeyRelease(p) => MessageModel::KeyRelease(*p),
            Message::ModifierState(m) => MessageModel::ModifierState(*m),
            Message::FullState { layer, modifiers, pressed_keys } => MessageModel::FullState {
                layer: *layer,
                modifiers: *modifiers,
                pressed_keys: pressed_keys@,
            },
            Message::DeviceReconnected => MessageModel::DeviceReconnected,
        }
    }
}

/// Why a packet was refused.
#[derive(Debug, Clone, Copy, PartialEq, Eq, Structural)]
pub enum ParseError {
    /// The packet is not 32 bytes long; the length it had.
    InvalidSize(usize),
    /// The first byte names no message type; that byte.
    UnknownMessageType(u8),
    /// A full-state packet claims more pressed keys than it can hold.
    InvalidData,
}

/// The most pressed keys a full-state packet holds: 4 header bytes and
/// 3 bytes per key in 32 bytes.
pub open spec fn max_packet_keys() -> int {
    9
}

/// The key described by the three bytes of `d` from `offset` on.
pub open spec fn key_at(d: Seq<u8>, offset: int) -> KeyPosition {
    KeyPosition { row: d[offset], col: d[offset + 1], is_left: d[offset + 2] != 0 }
}

/// What a packet decodes to.
pub open spec fn spec_parse(d: Seq<u8>) -> Result<MessageModel, ParseError> {
    if d.len() != 32 {
        Err(ParseError::InvalidSize(d.len() as usize))
    } else if d[0] == MSG_LAYER_CHANGE {
        Ok(MessageModel::LayerChange { layer: d[1] })
    } else if d[0] == MSG_KEY_PRESS {
        Ok(MessageModel::KeyPress(key_at(d, 1)))
    } else if d[0] == MSG_KEY_RELEASE {
        Ok(MessageModel::KeyRelease(key_at(d, 1)))
    } else if d[0] == MSG_MODIFIER_STATE {
        Ok(MessageModel::ModifierState(modifiers_from_mask(d[1])))
    } else if d[0] == MSG_FULL_STATE {
        if d[3] > max_packet_keys() {
            Err(ParseError::InvalidData)
        } else {
            Ok(
                MessageModel::FullState {
                    layer: d[1],
                    modifiers: modifiers_from_mask(d[2]),
                    pressed_keys: Seq::new(d[3] as nat, |i: int| key_at(d, 4 + 3 * i)),
                },
            )
        }
    } else {
        Err(ParseError::UnknownMessageType(d[0]))
    }
}

/// A parse result taken by its view.
pub open spec fn parse_result_view(r: Result<Message, ParseError>) -> Result<
    MessageModel,
    ParseError,
> {
    match r {
        Ok(m) => Ok(m@),
        Err(e) => Err(e),
    }
}

/// The byte a boolean is sent as.
pub open spec fn bool_byte(b: bool) -> u8 {
    if b {
        1
    } else {
        0
    }
}

/// Byte `i` of the three bytes that describe key `k`.
pub open spec fn key_byte(k: KeyPosition, i: int) -> u8 {
    if i == 0 {
        k.row
    } else if i == 1 {
        k.col
    } else {
        bool_byte(k.is_left)
    }
}

/// Byte `i` of the packet that encodes `m`.
pub open spec fn encoded_byte(m: MessageModel, i: int) -> u8 {
    match m {
        MessageModel::LayerChange { layer } => if i == 0 {
            MSG_LAYER_CHANGE
        } else if i == 1 {
            layer
        } else {
            0
        },
        MessageModel::KeyPress(p) => if i == 0 {
            MSG_KEY_PRESS
        } else if 1 <= i < 4 {
            key_byte(p, i - 1)
        } else {
            0
        },
        MessageModel::KeyRelease(p) => if i == 0 {
            MSG_KEY_RELEASE
        } else if 1 <= i < 4 {
            key_byte(p, i - 1)
        } else {
            0
        },
        MessageModel::ModifierState(mods) => if i == 0 {
            MSG_MODIFIER_STATE
        } else if i == 1 {
            modifiers_mask(mods)
        } else {
            0
        },
        MessageModel::FullState { layer, modifiers, pressed_keys } => if i == 0 {
            MSG_FULL_STATE
        } else if i == 1 {
            layer
        } else if i == 2 {
            modifiers_mask(modifiers)
        } else if i == 3 {
            pressed_keys.len() as u8
        } else if 4 <= i < 4 + 3 * pressed_keys.len() {
            key_byte(pressed_keys[(i - 4) / 3], (i - 4) % 3)
        } else {
            0
        },
        MessageModel::DeviceReconnected => 0,
    }
}

/// The packet that encodes `m`.
pub open spec fn spec_encode(m: MessageModel) -> Seq<u8> {
    Seq::new(32, |i: int| encoded_byte(m, i))
}

/// Whether `m` fits in one packet: a full state holds at most nine keys.
pub open spec fn encodable(m: MessageModel) -> bool {
    match m {
        MessageModel::FullState { pressed_keys, .. } => pressed_keys.len() <= max_packet_keys(),
        _ => true,
    }
}

/// Encoder and decoder of the packet format.
pub struct Protocol;

impl Protocol {
    /// Decodes one packet.
    pub fn parse(data: &[u8]) -> (r: Result<Message, ParseError>)
        ensures
            parse_result_view(r) == spec_parse(data@),
    {
        if data.len() != 32 {
            return Err(ParseError::InvalidSize(data.len()));
        }
        let kind = data[0];
        if kind == MSG_LAYER_CHANGE {
            Ok(Message::LayerChange { layer: data[1] })
        } else if kind == MSG_KEY_PRESS {
            Ok(Message::KeyPress(KeyPosition { row: data[1], col: data[2], is_left: data[3] != 0 }))
        } else if kind == MSG_KEY_RELEASE {
            Ok(
                Message::KeyRelease(
                    KeyPosition { row: data[1], col: data[2], is_left: data[3] != 0 },
                ),
            )
        } else if kind == MSG_MODIFIER_STATE {
            Ok(Message::ModifierState(Modifiers::from_mask(data[1])))
        } else if kind == MSG_FULL_STATE {
            let layer = data[1];
            let modifiers = Modifiers::from_mask(data[2]);
            let key_count = data[3] as usize;
            if key_count > 10 {
                return Err(ParseError::InvalidData);
            }
            let mut pressed_keys: Vec<KeyPosition> = Vec::with_capacity(key_count);
            let mut i: usize = 0;
            while i < key_count
                invariant
                    data@.len() == 32,
                    key_count == data@[3],
                    data@[0] == MSG_FULL_STATE,
                    key_count <= 10,
                    i <= key_count,
                    i <= 9,
                    pressed_keys@ =~= Seq::new(i as nat, |j: int| key_at(data@, 4 + 3 * j)),
                decreases key_count - i,
            {
                let offset = 4 + i * 3;
                if offset + 2 >= data.len() {
                    assert(data@[3] > max_packet_keys());
                    return Err(ParseError::InvalidData);
                }
                pressed_keys.push(
                    KeyPosition {
                        row: data[offset],
                        col: data[offset + 1],
                        is_left: data[offset + 2] != 0,
                    },
                );
                i += 1;
            }
            Ok(Message::FullState { layer, modifiers, pressed_keys })
        } else {
            Err(ParseError::UnknownMessageType(kind))
        }
    }

    /// Encodes one message as a packet. The reader's own reconnection notice
    /// is never sent and encodes to 32 zero bytes.
    pub fn encode(msg: &Message) -> (data: [u8; 32])
        requires
            encodable(msg@),
        ensures
            data@ == spec_encode(msg@),
    {
        let mut data = [0u8;32];
        match msg {
            Message::LayerChange { layer } => {
                data[0] = MSG_LAYER_CHANGE;
                data[1] = *layer;
            },
            Message::KeyPress(pos) => {
                data[0] = MSG_KEY_PRESS;
                data[1] = pos.row;
                data[2] = pos.col;
                data[3] = if pos.is_left {
                    1
                } else {
                    0
                };
            },
            Message::KeyRelease(pos) => {
                data[0] = MSG_KEY_RELEASE;
                data[1] = pos.row;
                data[2] = pos.col;
                data[3] = if pos.is_left {
                    1
                } else {
                    0
                };
            },
            Message::ModifierState(mods) => {
                data[0] = MSG_MODIFIER_STATE;
                data[1] = mods.to_mask();
            },
            Message::FullState { layer, modifiers, pressed_keys } => {
                let n = pressed_keys.len();
                data[0] = MSG_FULL_STATE;
                data[1] = *layer;
                data[2] = modifiers.to_mask();
                data[3] = if n < 10 {
                    n as u8
                } else {
                    10
                };
                let ghost m = msg@;
                let mut i: usize = 0;
                while i < n
                    invariant
                        m == msg@,
                        encodable(m),
                        n == pressed_keys@.len(),
                        m == (MessageModel::FullState {
                            layer: *layer,
                            modifiers: *modifiers,
                            pressed_keys: pressed_keys@,
                        }),
                        i <= n,
                        forall|j: int|
                            0 <= j < 32 ==> #[trigger] data@[j] == if j < 4 + 3 * i {
                                encoded_byte(m, j)
                            } else {
                                0
                            },
                    decreases n - i,
                {
                    let offset = 4 + i * 3;
                    let key = &pressed_keys[i];
                    data[offset] = key.row;
                    data[offset + 1] = key.col;
                    data[offset + 2] = if key.is_left {
                        1
                    } else {
                        0
                    };
                    assert((offset - 4) / 3 == i && (offset - 4) % 3 == 0);
                    assert((offset + 1 - 4) / 3 == i && (offset + 1 - 4) % 3 == 1);
                    assert((offset + 2 - 4) / 3 == i && (offset + 2 - 4) % 3 == 2);
                    i += 1;
                }
            },
            Message::DeviceReconnected => {},
        }
        assert(data@ =~= spec_encode(msg@));
        data
    }
}

/// Reading back the mask of a set of modifiers gives the same modifiers.
pub proof fn lemma_mask_roundtrip(m: Modifiers)
    ensures
        modifiers_from_mask(modifiers_mask(m)) == m,
{
    let s: u8 = if m.shift { 1 } else { 0 };
    let c: u8 = if m.ctrl { 1 } else { 0 };
    let a: u8 = if m.alt { 1 } else { 0 };
    let g: u8 = if m.gui { 1 } else { 0 };
    let x = modifiers_mask(m);
    assert(x == s + 2 * c + 4 * a + 8 * g);
    assert(s <= 1 && c <= 1 && a <= 1 && g <= 1 && x == s + 2 * c + 4 * a + 8 * g ==> (x & 0x01
        != 0) == (s == 1) && (x & 0x02 != 0) == (c == 1) && (x & 0x04 != 0) == (a == 1) && (x
        & 0x08 != 0) == (g == 1)) by (bit_vector);
}

/// Writing the mask of the modifiers that a byte names keeps the low four
/// bits of that byte and clears the others.
pub proof fn lemma_mask_of_byte(x: u8)
    ensures
        modifiers_mask(modifiers_from_mask(x)) == x & 0x0f,
{
    let s: u8 = if x & 0x01 != 0 { 1 } else { 0 };
    let c: u8 = if x & 0x02 != 0 { 1 } else { 0 };
    let a: u8 = if x & 0x04 != 0 { 1 } else { 0 };
    let g: u8 = if x & 0x08 != 0 { 1 } else { 0 };
    assert(modifiers_mask(modifiers_from_mask(x)) == s + 2 * c + 4 * a + 8 * g);
    assert((s == 1) == (x & 0x01 != 0) && (c == 1) == (x & 0x02 != 0) && (a == 1) == (x & 0x04
        != 0) && (g == 1) == (x & 0x08 != 0) && s <= 1 && c <= 1 && a <= 1 && g <= 1 ==> x & 0x0f
        == s + 2 * c + 4 * a + 8 * g) by (bit_vector);
}

/// The fields of each packet sit where the firmware puts them: byte 0 is the
/// type; a layer change carries the layer in byte 1; a key press or release
/// carries row, column and half (non-zero for left) in bytes 1 to 3; a
/// modifier state carries the mask in byte 1 (bit 0 Shift, bit 1 Ctrl,
/// bit 2 Alt, bit 3 Gui); a full state carries layer, mask and key count in
/// bytes 1 to 3 and key `i` in bytes `4 + 3i` to `6 + 3i`.
pub proof fn lemma_packet_fields(d: Seq<u8>)
    requires
        d.len() == 32,
    ensures
        d[0] == 1 ==> spec_parse(d) == Ok::<MessageModel, ParseError>(
            MessageModel::LayerChange { layer: d[1] },
        ),
        d[0] == 2 ==> spec_parse(d) == Ok::<MessageModel, ParseError>(
            MessageModel::KeyPress(KeyPosition { row: d[1], col: d[2], is_left: d[3] != 0 }),
        ),
        d[0] == 3 ==> spec_parse(d) == Ok::<MessageModel, ParseError>(
            MessageModel::KeyRelease(KeyPosition { row: d[1], col: d[2], is_left: d[3] != 0 }),
        ),
        d[0] == 4 ==> spec_parse(d) == Ok::<MessageModel, ParseError>(
            MessageModel::ModifierState(
                Modifiers {
                    shift: d[1] & 1 != 0,
                    ctrl: d[1] & 2 != 0,
                    alt: d[1] & 4 != 0,
                    gui: d[1] & 8 != 0,
                },
            ),
        ),
        d[0] == 5 && d[3] <= 9 ==> (spec_parse(d) matches Ok(
            MessageModel::FullState { layer, modifiers, pressed_keys },
        ) && layer == d[1] && modifiers == modifiers_from_mask(d[2]) && pressed_keys.len() == d[3]
            && forall|i: int|
            0 <= i < d[3] ==> #[trigger] pressed_keys[i] == (KeyPosition {
                row: d[4 + 3 * i],
                col: d[5 + 3 * i],
                is_left: d[6 + 3 * i] != 0,
            })),
        d[0] == 5 && d[3] > 9 ==> spec_parse(d) == Err::<MessageModel, ParseError>(ParseError::InvalidData),
        (d[0] == 0 || d[0] > 5) ==> spec_parse(d) == Err::<MessageModel, ParseError>(
            ParseError::UnknownMessageType(d[0]),
        ),
{
}

/// Bit 0 of a mask byte is Shift, bit 1 Ctrl, bit 2 Alt, bit 3 Gui, both
/// ways: each modifier sets exactly its own bit.
pub proof fn lemma_mask_bits(m: Modifiers)
    ensures
        (modifiers_mask(m) & 1 != 0) == m.shift,
        (modifiers_mask(m) & 2 != 0) == m.ctrl,
        (modifiers_mask(m) & 4 != 0) == m.alt,
        (modifiers_mask(m) & 8 != 0) == m.gui,
        modifiers_mask(m) < 16,
{
    lemma_mask_roundtrip(m);
}

/// Encoding writes the fields where parsing reads them: the type in byte 0,
/// then the fields of the message in order, zeros after them.
pub proof fn lemma_encoded_fields(m: MessageModel)
    requires
        encodable(m),
    ensures
        spec_encode(m).len() == 32,
        m matches MessageModel::ModifierState(mods) ==> spec_encode(m)[0] == 4 && spec_encode(m)[1]
            == modifiers_mask(mods),
        m matches MessageModel::KeyPress(p) ==> spec_encode(m)[0] == 2 && spec_encode(m)[1] == p.row
            && spec_encode(m)[2] == p.col && spec_encode(m)[3] == (if p.is_left {
            1u8
        } else {
            0u8
        }),
        m matches MessageModel::KeyRelease(p) ==> spec_encode(m)[0] == 3 && spec_encode(m)[1]
            == p.row && spec_encode(m)[2] == p.col && spec_encode(m)[3] == (if p.is_left {
            1u8
        } else {
            0u8
        }),
        m matches MessageModel::LayerChange { layer } ==> spec_encode(m)[0] == 1 && spec_encode(
            m,
        )[1] == layer,
        m matches MessageModel::FullState { layer, pressed_keys, .. } ==> spec_encode(m)[0] == 5
            && spec_encode(m)[1] == layer && spec_encode(m)[3] == pressed_keys.len() && forall|
            i: int|
            0 <= i < pressed_keys.len() ==> spec_encode(m)[4 + 3 * i] == (
            #[trigger] pressed_keys[i]).row && spec_encode(m)[5 + 3 * i] == pressed_keys[i].col,
        m matches MessageModel::DeviceReconnected ==> forall|i: int|
            0 <= i < 32 ==> #[trigger] spec_encode(m)[i] == 0,
{
    if let MessageModel::FullState { layer, modifiers, pressed_keys } = m {
        assert forall|i: int| 0 <= i < pressed_keys.len() implies spec_encode(m)[4 + 3 * i] == (
        #[trigger] pressed_keys[i]).row && spec_encode(m)[5 + 3 * i] == pressed_keys[i].col by {
            assert((4 + 3 * i - 4) / 3 == i && (4 + 3 * i - 4) % 3 == 0);
            assert((5 + 3 * i - 4) / 3 == i && (5 + 3 * i - 4) % 3 == 1);
        }
    }
}

/// Every message that the keyboard sends and that fits in a packet decodes
/// back to itself after encoding.
pub proof fn lemma_encode_parse_roundtrip(m: MessageModel)
    requires
        encodable(m),
        !(m is DeviceReconnected),
    ensures
        spec_parse(spec_encode(m)) == Ok::<MessageModel, ParseError>(m),
{
    let d = spec_encode(m);
    match m {
        MessageModel::LayerChange { layer } => {},
        MessageModel::KeyPress(p) => {
            assert(key_at(d, 1) == p);
        },
        MessageModel::KeyRelease(p) => {
            assert(key_at(d, 1) == p);
        },
        MessageModel::ModifierState(mods) => {
            lemma_mask_roundtrip(mods);
        },
        MessageModel::FullState { layer, modifiers, pressed_keys } => {
            lemma_mask_roundtrip(modifiers);
            let n = pressed_keys.len();
            assert(d[3] == n);
            assert forall|i: int| 0 <= i < n implies key_at(d, 4 + 3 * i) == pressed_keys[i] by {
                assert((4 + 3 * i - 4) / 3 == i && (4 + 3 * i - 4) % 3 == 0);
                assert((4 + 3 * i + 1 - 4) / 3 == i && (4 + 3 * i + 1 - 4) % 3 == 1);
                assert((4 + 3 * i + 2 - 4) / 3 == i && (4 + 3 * i + 2 - 4) % 3 == 2);
            }
            assert(Seq::new(d[3] as nat, |i: int| key_at(d, 4 + 3 * i)) =~= pressed_keys);
        },
        MessageModel::DeviceReconnected => {},
    }
}

} // verus!
