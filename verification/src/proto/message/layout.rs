//! What the messages look like on the wire, byte by byte.
//!
//! Every body is its fields one behind the other: numbers low byte first, negative ones as their
//! two's complement, text and blobs behind their length. The laws here say where each field stands.

use vstd::prelude::*;
use vstd::utf8;

use crate::proto::envelope::ChunkHeader;
use crate::proto::message::control;
use crate::proto::message::{
    ClientHello, Close, CursorPosition, CursorShape, CursorVisibility, DisplayLayout, Error,
    FrameAck, FrameData, KeyEvent, ModifierSync, Output, Ping, PointerEvent, Pong, QualityHint,
    ServerHello, TextInput, WindowClosed, WindowControl, WindowGeometry, WindowIcon, WindowOpened,
    WindowState, WindowTitle, WindowZOrder,
};
use crate::proto::pdu;
use crate::proto::pdu::{DecodeResult, EncodeResult};
use crate::proto::wire;

verus! {

/// The number that `n` bytes from `at` on stand for, low byte first.
pub open spec fn number(b: Seq<u8>, at: int, n: nat) -> nat
    decreases n,
{
    if n == 0 {
        0
    } else {
        b[at] as nat + 256 * number(b, at + 1, (n - 1) as nat)
    }
}

/// A byte is its own number.
broadcast proof fn lemma_number_of_u8(b: Seq<u8>, p: int, x: u8)
    requires
        #[trigger] pdu::at(b, p, seq![x]),
    ensures
        number(b, p, 1) == x,
{
    reveal_with_fuel(number, 2);
    pdu::lemma_at_u8(b, p, x);
}

/// The number of a `u16`'s bytes.
broadcast proof fn lemma_number_of_u16(b: Seq<u8>, p: int, x: u16)
    requires
        #[trigger] pdu::at(b, p, pdu::le16(x)),
    ensures
        number(b, p, 2) == x,
{
    reveal(pdu::le16);
    reveal_with_fuel(number, 3);
    let s = b.subrange(p, p + 2);
    assert(s[0] == b[p] && s[1] == b[p + 1]);
}

/// The number of a `u32`'s bytes.
broadcast proof fn lemma_number_of_u32(b: Seq<u8>, p: int, x: u32)
    requires
        #[trigger] pdu::at(b, p, pdu::le32(x)),
    ensures
        number(b, p, 4) == x,
{
    reveal(pdu::le32);
    reveal_with_fuel(number, 5);
    let s = b.subrange(p, p + 4);
    assert(s[0] == b[p] && s[1] == b[p + 1] && s[2] == b[p + 2] && s[3] == b[p + 3]);
}

/// Eight bytes are four low ones and four high ones.
proof fn lemma_number_of_halves(b: Seq<u8>, p: int)
    ensures
        number(b, p, 8) == number(b, p, 4) + 4_294_967_296 * number(b, p + 4, 4),
{
    reveal_with_fuel(number, 9);
}

/// The number of a `u64`'s bytes.
broadcast proof fn lemma_number_of_u64(b: Seq<u8>, p: int, x: u64)
    requires
        #[trigger] pdu::at(b, p, pdu::le64(x)),
    ensures
        number(b, p, 8) == x,
{
    broadcast use pdu::group_lens;

    reveal(pdu::le64);
    let low = (x % 0x1_0000_0000) as u32;
    let high = (x / 0x1_0000_0000) as u32;
    pdu::lemma_at_add(b, p, pdu::le32(low), pdu::le32(high));
    lemma_number_of_u32(b, p, low);
    lemma_number_of_u32(b, p + 4, high);
    lemma_number_of_halves(b, p);
}

broadcast group group_numbers {
    lemma_number_of_u8,
    lemma_number_of_u16,
    lemma_number_of_u32,
    lemma_number_of_u64,
}

/// A negative `i32` as its two's complement.
proof fn lemma_signed32(v: i32)
    ensures
        (v as u32) as int == (if v >= 0 { v as int } else { v + 4_294_967_296 }),
{
    assert(v >= 0 ==> v as u32 == v) by (bit_vector);
    assert(v < 0 ==> v as u32 == v + 4_294_967_296) by (bit_vector);
}

/// A negative `i16` as its two's complement.
proof fn lemma_signed16(v: i16)
    ensures
        (v as u16) as int == (if v >= 0 { v as int } else { v + 65536 }),
{
    assert(v >= 0 ==> v as u16 == v) by (bit_vector);
    assert(v < 0 ==> v as u16 == v + 65536) by (bit_vector);
}

/// How an output of a display layout looks on the wire: its fields one behind the other, low byte
/// first; and that it is read back from there.
pub proof fn law_layout_of_output(
    v: Output,
    r: EncodeResult<Vec<u8>>,
    s: &[u8],
    back: DecodeResult<Output>,
)
    requires
        call_ensures(pdu::encode_vec::<Output>, (&v,), r),
        call_ensures(pdu::decode::<Output>, (s,), back),
    ensures
        r is Ok,
        r matches Ok(bytes) ==> ({
                let b = bytes@;
                &&& b.len() == 21
                &&& number(b, 0, 1) == v.id
                &&& number(b, 1, 4) == (if v.x >= 0 { v.x as int } else { v.x + 4_294_967_296 })
                &&& number(b, 5, 4) == (if v.y >= 0 { v.y as int } else { v.y + 4_294_967_296 })
                &&& number(b, 9, 2) == v.width
                &&& number(b, 11, 2) == v.height
                &&& number(b, 13, 2) == v.scale_num
                &&& number(b, 15, 2) == v.scale_den
                &&& number(b, 17, 4) == v.refresh_mhz
                &&& s@ == b ==> (back matches Ok(m) && m.id == v.id && m.x == v.x && m.y == v.y && m.width == v.width && m.height == v.height && m.scale_num == v.scale_num && m.scale_den == v.scale_den && m.refresh_mhz == v.refresh_mhz)
            }),
{
    broadcast use pdu::group_fields;
    broadcast use pdu::group_lens;
    broadcast use group_numbers;

    lemma_signed32(v.x);
    lemma_signed32(v.y);
    let wire = <Output as pdu::Encode>::wire(v@);
    assert(wire.subrange(0, wire.len() as int) =~= wire);
    assert(pdu::at(wire, 0, wire));
    if r is Ok {
        pdu::law_decode_inverts_encode::<Output>(v@, Seq::empty());
        assert(wire + Seq::<u8>::empty() =~= wire);
    }
}

/// How the agent's hello looks on the wire: its fields one behind the other, low byte first; and
/// that it is read back from there.
pub proof fn law_layout_of_server_hello(
    v: ServerHello,
    r: EncodeResult<Vec<u8>>,
    s: &[u8],
    back: DecodeResult<ServerHello>,
)
    requires
        call_ensures(pdu::encode_vec::<ServerHello>, (&v,), r),
        call_ensures(pdu::decode::<ServerHello>, (s,), back),
    ensures
        r is Ok,
        r matches Ok(bytes) ==> ({
                let b = bytes@;
                &&& b.len() == 19
                &&& number(b, 0, 2) == v.version
                &&& number(b, 2, 8) == v.features
                &&& number(b, 10, 8) == v.session_id
                &&& number(b, 18, 1) == v.codec
                &&& s@ == b ==> (back matches Ok(m) && m.version == v.version && m.features == v.features && m.session_id == v.session_id && m.codec == v.codec)
            }),
{
    broadcast use pdu::group_fields;
    broadcast use pdu::group_lens;
    broadcast use group_numbers;

    let wire = <ServerHello as pdu::Encode>::wire(v@);
    assert(wire.subrange(0, wire.len() as int) =~= wire);
    assert(pdu::at(wire, 0, wire));
    if r is Ok {
        pdu::law_decode_inverts_encode::<ServerHello>(v@, Seq::empty());
        assert(wire + Seq::<u8>::empty() =~= wire);
    }
}

/// How an error looks on the wire: its fields one behind the other, low byte first; and that it is
/// read back from there.
pub proof fn law_layout_of_error(
    v: Error,
    r: EncodeResult<Vec<u8>>,
    s: &[u8],
    back: DecodeResult<Error>,
)
    requires
        call_ensures(pdu::encode_vec::<Error>, (&v,), r),
        call_ensures(pdu::decode::<Error>, (s,), back),
    ensures
        r is Ok <==> utf8::encode_utf8(v.message@).len() <= 65535,
        r matches Ok(bytes) ==> ({
                let b = bytes@;
                let message_at = 2int;
                let message_bytes = utf8::encode_utf8(v.message@);
                &&& b.len() == message_at + 2 + message_bytes.len()
                &&& number(b, 0, 2) == v.code
                &&& number(b, message_at, 2) == message_bytes.len()
                &&& b.subrange(message_at + 2, message_at + 2 + message_bytes.len()) == message_bytes
                &&& s@ == b ==> (back matches Ok(m) && m.code == v.code && m.message@ == v.message@)
            }),
{
    broadcast use pdu::group_fields;
    broadcast use pdu::group_lens;
    broadcast use group_numbers;

    let wire = <Error as pdu::Encode>::wire(v@);
    assert(wire.subrange(0, wire.len() as int) =~= wire);
    assert(pdu::at(wire, 0, wire));
    if r is Ok {
        pdu::law_decode_inverts_encode::<Error>(v@, Seq::empty());
        assert(wire + Seq::<u8>::empty() =~= wire);
    }
}

/// How a goodbye looks on the wire: its fields one behind the other, low byte first; and that it is
/// read back from there.
pub proof fn law_layout_of_close(
    v: Close,
    r: EncodeResult<Vec<u8>>,
    s: &[u8],
    back: DecodeResult<Close>,
)
    requires
        call_ensures(pdu::encode_vec::<Close>, (&v,), r),
        call_ensures(pdu::decode::<Close>, (s,), back),
    ensures
        r is Ok,
        r matches Ok(bytes) ==> ({
                let b = bytes@;
                &&& b.len() == 2
                &&& number(b, 0, 2) == v.reason
                &&& s@ == b ==> (back matches Ok(m) && m.reason == v.reason)
            }),
{
    broadcast use pdu::group_fields;
    broadcast use pdu::group_lens;
    broadcast use group_numbers;

    let wire = <Close as pdu::Encode>::wire(v@);
    assert(wire.subrange(0, wire.len() as int) =~= wire);
    assert(pdu::at(wire, 0, wire));
    if r is Ok {
        pdu::law_decode_inverts_encode::<Close>(v@, Seq::empty());
        assert(wire + Seq::<u8>::empty() =~= wire);
    }
}

/// How a ping looks on the wire: its fields one behind the other, low byte first; and that it is
/// read back from there.
pub proof fn law_layout_of_ping(
    v: Ping,
    r: EncodeResult<Vec<u8>>,
    s: &[u8],
    back: DecodeResult<Ping>,
)
    requires
        call_ensures(pdu::encode_vec::<Ping>, (&v,), r),
        call_ensures(pdu::decode::<Ping>, (s,), back),
    ensures
        r is Ok,
        r matches Ok(bytes) ==> ({
                let b = bytes@;
                &&& b.len() == 12
                &&& number(b, 0, 4) == v.seq
                &&& number(b, 4, 8) == v.sent_us
                &&& s@ == b ==> (back matches Ok(m) && m.seq == v.seq && m.sent_us == v.sent_us)
            }),
{
    broadcast use pdu::group_fields;
    broadcast use pdu::group_lens;
    broadcast use group_numbers;

    let wire = <Ping as pdu::Encode>::wire(v@);
    assert(wire.subrange(0, wire.len() as int) =~= wire);
    assert(pdu::at(wire, 0, wire));
    if r is Ok {
        pdu::law_decode_inverts_encode::<Ping>(v@, Seq::empty());
        assert(wire + Seq::<u8>::empty() =~= wire);
    }
}

/// How a pong looks on the wire: its fields one behind the other, low byte first; and that it is
/// read back from there.
pub proof fn law_layout_of_pong(
    v: Pong,
    r: EncodeResult<Vec<u8>>,
    s: &[u8],
    back: DecodeResult<Pong>,
)
    requires
        call_ensures(pdu::encode_vec::<Pong>, (&v,), r),
        call_ensures(pdu::decode::<Pong>, (s,), back),
    ensures
        r is Ok,
        r matches Ok(bytes) ==> ({
                let b = bytes@;
                &&& b.len() == 20
                &&& number(b, 0, 4) == v.seq
                &&& number(b, 4, 8) == v.sent_us
                &&& number(b, 12, 8) == v.agent_us
                &&& s@ == b ==> (back matches Ok(m) && m.seq == v.seq && m.sent_us == v.sent_us && m.agent_us == v.agent_us)
            }),
{
    broadcast use pdu::group_fields;
    broadcast use pdu::group_lens;
    broadcast use group_numbers;

    let wire = <Pong as pdu::Encode>::wire(v@);
    assert(wire.subrange(0, wire.len() as int) =~= wire);
    assert(pdu::at(wire, 0, wire));
    if r is Ok {
        pdu::law_decode_inverts_encode::<Pong>(v@, Seq::empty());
        assert(wire + Seq::<u8>::empty() =~= wire);
    }
}

/// How a quality hint looks on the wire: its fields one behind the other, low byte first; and that
/// it is read back from there.
pub proof fn law_layout_of_quality_hint(
    v: QualityHint,
    r: EncodeResult<Vec<u8>>,
    s: &[u8],
    back: DecodeResult<QualityHint>,
)
    requires
        call_ensures(pdu::encode_vec::<QualityHint>, (&v,), r),
        call_ensures(pdu::decode::<QualityHint>, (s,), back),
    ensures
        r is Ok,
        r matches Ok(bytes) ==> ({
                let b = bytes@;
                &&& b.len() == 11
                &&& number(b, 0, 4) == v.window_id
                &&& number(b, 4, 2) == v.target_fps
                &&& number(b, 6, 4) == v.max_bitrate_kbps
                &&& number(b, 10, 1) == v.flags
                &&& s@ == b ==> (back matches Ok(m) && m.window_id == v.window_id && m.target_fps == v.target_fps && m.max_bitrate_kbps == v.max_bitrate_kbps && m.flags == v.flags)
            }),
{
    broadcast use pdu::group_fields;
    broadcast use pdu::group_lens;
    broadcast use group_numbers;

    let wire = <QualityHint as pdu::Encode>::wire(v@);
    assert(wire.subrange(0, wire.len() as int) =~= wire);
    assert(pdu::at(wire, 0, wire));
    if r is Ok {
        pdu::law_decode_inverts_encode::<QualityHint>(v@, Seq::empty());
        assert(wire + Seq::<u8>::empty() =~= wire);
    }
}

/// How a pointer event looks on the wire: its fields one behind the other, low byte first; and that
/// it is read back from there.
pub proof fn law_layout_of_pointer_event(
    v: PointerEvent,
    r: EncodeResult<Vec<u8>>,
    s: &[u8],
    back: DecodeResult<PointerEvent>,
)
    requires
        call_ensures(pdu::encode_vec::<PointerEvent>, (&v,), r),
        call_ensures(pdu::decode::<PointerEvent>, (s,), back),
    ensures
        r is Ok,
        r matches Ok(bytes) ==> ({
                let b = bytes@;
                &&& b.len() == 25
                &&& number(b, 0, 4) == v.window_id
                &&& number(b, 4, 4) == (if v.x >= 0 { v.x as int } else { v.x + 4_294_967_296 })
                &&& number(b, 8, 4) == (if v.y >= 0 { v.y as int } else { v.y + 4_294_967_296 })
                &&& number(b, 12, 1) == v.buttons
                &&& number(b, 13, 2) == (if v.wheel_x >= 0 { v.wheel_x as int } else { v.wheel_x + 65536 })
                &&& number(b, 15, 2) == (if v.wheel_y >= 0 { v.wheel_y as int } else { v.wheel_y + 65536 })
                &&& number(b, 17, 8) == v.timestamp
                &&& s@ == b ==> (back matches Ok(m) && m.window_id == v.window_id && m.x == v.x && m.y == v.y && m.buttons == v.buttons && m.wheel_x == v.wheel_x && m.wheel_y == v.wheel_y && m.timestamp == v.timestamp)
            }),
{
    broadcast use pdu::group_fields;
    broadcast use pdu::group_lens;
    broadcast use group_numbers;

    lemma_signed32(v.x);
    lemma_signed32(v.y);
    lemma_signed16(v.wheel_x);
    lemma_signed16(v.wheel_y);
    let wire = <PointerEvent as pdu::Encode>::wire(v@);
    assert(wire.subrange(0, wire.len() as int) =~= wire);
    assert(pdu::at(wire, 0, wire));
    if r is Ok {
        pdu::law_decode_inverts_encode::<PointerEvent>(v@, Seq::empty());
        assert(wire + Seq::<u8>::empty() =~= wire);
    }
}

/// How a key event looks on the wire: its fields one behind the other, low byte first; and that it
/// is read back from there.
pub proof fn law_layout_of_key_event(
    v: KeyEvent,
    r: EncodeResult<Vec<u8>>,
    s: &[u8],
    back: DecodeResult<KeyEvent>,
)
    requires
        call_ensures(pdu::encode_vec::<KeyEvent>, (&v,), r),
        call_ensures(pdu::decode::<KeyEvent>, (s,), back),
    ensures
        r is Ok,
        r matches Ok(bytes) ==> ({
                let b = bytes@;
                &&& b.len() == 11
                &&& number(b, 0, 2) == v.scancode
                &&& number(b, 2, 1) == v.flags
                &&& number(b, 3, 8) == v.timestamp
                &&& s@ == b ==> (back matches Ok(m) && m.scancode == v.scancode && m.flags == v.flags && m.timestamp == v.timestamp)
            }),
{
    broadcast use pdu::group_fields;
    broadcast use pdu::group_lens;
    broadcast use group_numbers;

    let wire = <KeyEvent as pdu::Encode>::wire(v@);
    assert(wire.subrange(0, wire.len() as int) =~= wire);
    assert(pdu::at(wire, 0, wire));
    if r is Ok {
        pdu::law_decode_inverts_encode::<KeyEvent>(v@, Seq::empty());
        assert(wire + Seq::<u8>::empty() =~= wire);
    }
}

/// How text input looks on the wire: its fields one behind the other, low byte first; and that it
/// is read back from there.
pub proof fn law_layout_of_text_input(
    v: TextInput,
    r: EncodeResult<Vec<u8>>,
    s: &[u8],
    back: DecodeResult<TextInput>,
)
    requires
        call_ensures(pdu::encode_vec::<TextInput>, (&v,), r),
        call_ensures(pdu::decode::<TextInput>, (s,), back),
    ensures
        r is Ok <==> utf8::encode_utf8(v.text@).len() <= 65535,
        r matches Ok(bytes) ==> ({
                let b = bytes@;
                let text_at = 0int;
                let text_bytes = utf8::encode_utf8(v.text@);
                &&& b.len() == text_at + 2 + text_bytes.len()
                &&& number(b, text_at, 2) == text_bytes.len()
                &&& b.subrange(text_at + 2, text_at + 2 + text_bytes.len()) == text_bytes
                &&& s@ == b ==> (back matches Ok(m) && m.text@ == v.text@)
            }),
{
    broadcast use pdu::group_fields;
    broadcast use pdu::group_lens;
    broadcast use group_numbers;

    let wire = <TextInput as pdu::Encode>::wire(v@);
    assert(wire.subrange(0, wire.len() as int) =~= wire);
    assert(pdu::at(wire, 0, wire));
    if r is Ok {
        pdu::law_decode_inverts_encode::<TextInput>(v@, Seq::empty());
        assert(wire + Seq::<u8>::empty() =~= wire);
    }
}

/// How the modifiers looks on the wire: its fields one behind the other, low byte first; and that
/// it is read back from there.
pub proof fn law_layout_of_modifier_sync(
    v: ModifierSync,
    r: EncodeResult<Vec<u8>>,
    s: &[u8],
    back: DecodeResult<ModifierSync>,
)
    requires
        call_ensures(pdu::encode_vec::<ModifierSync>, (&v,), r),
        call_ensures(pdu::decode::<ModifierSync>, (s,), back),
    ensures
        r is Ok,
        r matches Ok(bytes) ==> ({
                let b = bytes@;
                &&& b.len() == 3
                &&& number(b, 0, 2) == v.modifiers
                &&& number(b, 2, 1) == v.locks
                &&& s@ == b ==> (back matches Ok(m) && m.modifiers == v.modifiers && m.locks == v.locks)
            }),
{
    broadcast use pdu::group_fields;
    broadcast use pdu::group_lens;
    broadcast use group_numbers;

    let wire = <ModifierSync as pdu::Encode>::wire(v@);
    assert(wire.subrange(0, wire.len() as int) =~= wire);
    assert(pdu::at(wire, 0, wire));
    if r is Ok {
        pdu::law_decode_inverts_encode::<ModifierSync>(v@, Seq::empty());
        assert(wire + Seq::<u8>::empty() =~= wire);
    }
}

/// How a request to a window looks on the wire: its fields one behind the other, low byte first;
/// and that it is read back from there.
pub proof fn law_layout_of_window_control(
    v: WindowControl,
    r: EncodeResult<Vec<u8>>,
    s: &[u8],
    back: DecodeResult<WindowControl>,
)
    requires
        call_ensures(pdu::encode_vec::<WindowControl>, (&v,), r),
        call_ensures(pdu::decode::<WindowControl>, (s,), back),
    ensures
        r is Ok,
        r matches Ok(bytes) ==> ({
                let b = bytes@;
                &&& b.len() == 17
                &&& number(b, 0, 4) == v.window_id
                &&& number(b, 4, 1) == v.action
                &&& number(b, 5, 4) == (if v.x >= 0 { v.x as int } else { v.x + 4_294_967_296 })
                &&& number(b, 9, 4) == (if v.y >= 0 { v.y as int } else { v.y + 4_294_967_296 })
                &&& number(b, 13, 2) == v.width
                &&& number(b, 15, 2) == v.height
                &&& s@ == b ==> (back matches Ok(m) && m.window_id == v.window_id && m.action == v.action && m.x == v.x && m.y == v.y && m.width == v.width && m.height == v.height)
            }),
{
    broadcast use pdu::group_fields;
    broadcast use pdu::group_lens;
    broadcast use group_numbers;

    lemma_signed32(v.x);
    lemma_signed32(v.y);
    let wire = <WindowControl as pdu::Encode>::wire(v@);
    assert(wire.subrange(0, wire.len() as int) =~= wire);
    assert(pdu::at(wire, 0, wire));
    if r is Ok {
        pdu::law_decode_inverts_encode::<WindowControl>(v@, Seq::empty());
        assert(wire + Seq::<u8>::empty() =~= wire);
    }
}

/// How a cursor looks on the wire: its fields one behind the other, low byte first; and that it is
/// read back from there.
pub proof fn law_layout_of_cursor_shape(
    v: CursorShape,
    r: EncodeResult<Vec<u8>>,
    s: &[u8],
    back: DecodeResult<CursorShape>,
)
    requires
        call_ensures(pdu::encode_vec::<CursorShape>, (&v,), r),
        call_ensures(pdu::decode::<CursorShape>, (s,), back),
    ensures
        r is Ok <==> v.data@.len() <= 4_294_967_295,
        r matches Ok(bytes) ==> ({
                let b = bytes@;
                let data_at = 13int;
                let data_bytes = v.data@;
                &&& b.len() == data_at + 4 + data_bytes.len()
                &&& number(b, 0, 4) == v.cursor_id
                &&& number(b, 4, 2) == v.width
                &&& number(b, 6, 2) == v.height
                &&& number(b, 8, 2) == v.hotspot_x
                &&& number(b, 10, 2) == v.hotspot_y
                &&& number(b, 12, 1) == v.format
                &&& number(b, data_at, 4) == data_bytes.len()
                &&& b.subrange(data_at + 4, data_at + 4 + data_bytes.len()) == data_bytes
                &&& s@ == b ==> (back matches Ok(m) && m.cursor_id == v.cursor_id && m.width == v.width && m.height == v.height && m.hotspot_x == v.hotspot_x && m.hotspot_y == v.hotspot_y && m.format == v.format && m.data@ == v.data@)
            }),
{
    broadcast use pdu::group_fields;
    broadcast use pdu::group_lens;
    broadcast use group_numbers;

    let wire = <CursorShape as pdu::Encode>::wire(v@);
    assert(wire.subrange(0, wire.len() as int) =~= wire);
    assert(pdu::at(wire, 0, wire));
    if r is Ok {
        pdu::law_decode_inverts_encode::<CursorShape>(v@, Seq::empty());
        assert(wire + Seq::<u8>::empty() =~= wire);
    }
}

/// How a cursor position looks on the wire: its fields one behind the other, low byte first; and
/// that it is read back from there.
pub proof fn law_layout_of_cursor_position(
    v: CursorPosition,
    r: EncodeResult<Vec<u8>>,
    s: &[u8],
    back: DecodeResult<CursorPosition>,
)
    requires
        call_ensures(pdu::encode_vec::<CursorPosition>, (&v,), r),
        call_ensures(pdu::decode::<CursorPosition>, (s,), back),
    ensures
        r is Ok,
        r matches Ok(bytes) ==> ({
                let b = bytes@;
                &&& b.len() == 12
                &&& number(b, 0, 4) == v.window_id
                &&& number(b, 4, 4) == (if v.x >= 0 { v.x as int } else { v.x + 4_294_967_296 })
                &&& number(b, 8, 4) == (if v.y >= 0 { v.y as int } else { v.y + 4_294_967_296 })
                &&& s@ == b ==> (back matches Ok(m) && m.window_id == v.window_id && m.x == v.x && m.y == v.y)
            }),
{
    broadcast use pdu::group_fields;
    broadcast use pdu::group_lens;
    broadcast use group_numbers;

    lemma_signed32(v.x);
    lemma_signed32(v.y);
    let wire = <CursorPosition as pdu::Encode>::wire(v@);
    assert(wire.subrange(0, wire.len() as int) =~= wire);
    assert(pdu::at(wire, 0, wire));
    if r is Ok {
        pdu::law_decode_inverts_encode::<CursorPosition>(v@, Seq::empty());
        assert(wire + Seq::<u8>::empty() =~= wire);
    }
}

/// How the cursor's visibility looks on the wire: its fields one behind the other, low byte first;
/// and that it is read back from there.
pub proof fn law_layout_of_cursor_visibility(
    v: CursorVisibility,
    r: EncodeResult<Vec<u8>>,
    s: &[u8],
    back: DecodeResult<CursorVisibility>,
)
    requires
        call_ensures(pdu::encode_vec::<CursorVisibility>, (&v,), r),
        call_ensures(pdu::decode::<CursorVisibility>, (s,), back),
    ensures
        r is Ok,
        r matches Ok(bytes) ==> ({
                let b = bytes@;
                &&& b.len() == 1
                &&& number(b, 0, 1) == (if v.visible { 1nat } else { 0 })
                &&& s@ == b ==> (back matches Ok(m) && m.visible == v.visible)
            }),
{
    broadcast use pdu::group_fields;
    broadcast use pdu::group_lens;
    broadcast use group_numbers;

    let wire = <CursorVisibility as pdu::Encode>::wire(v@);
    assert(wire.subrange(0, wire.len() as int) =~= wire);
    assert(pdu::at(wire, 0, wire));
    if r is Ok {
        pdu::law_decode_inverts_encode::<CursorVisibility>(v@, Seq::empty());
        assert(wire + Seq::<u8>::empty() =~= wire);
    }
}

/// How an announcement looks on the wire: its fields one behind the other, low byte first.
#[verifier::rlimit(60)]
pub proof fn law_layout_of_window_opened(
    v: WindowOpened,
    r: EncodeResult<Vec<u8>>,
)
    requires
        call_ensures(pdu::encode_vec::<WindowOpened>, (&v,), r),
    ensures
        r is Ok <==> utf8::encode_utf8(v.app_id@).len() <= 65535 && utf8::encode_utf8(v.title@).len() <= 65535,
        r matches Ok(bytes) ==> ({
                let b = bytes@;
                let app_id_at = 10int;
                let app_id_bytes = utf8::encode_utf8(v.app_id@);
                let title_at = app_id_at + 2 + app_id_bytes.len();
                let title_bytes = utf8::encode_utf8(v.title@);
                &&& b.len() == title_at + 2 + title_bytes.len() + 22
                &&& number(b, 0, 4) == v.window_id
                &&& number(b, 4, 2) == v.video_channel
                &&& number(b, 6, 4) == v.pid
                &&& number(b, app_id_at, 2) == app_id_bytes.len()
                &&& b.subrange(app_id_at + 2, app_id_at + 2 + app_id_bytes.len()) == app_id_bytes
                &&& number(b, title_at, 2) == title_bytes.len()
                &&& b.subrange(title_at + 2, title_at + 2 + title_bytes.len()) == title_bytes
                &&& number(b, title_at + 2 + title_bytes.len(), 4) == (if v.x >= 0 { v.x as int } else { v.x + 4_294_967_296 })
                &&& number(b, title_at + 2 + title_bytes.len() + 4, 4) == (if v.y >= 0 { v.y as int } else { v.y + 4_294_967_296 })
                &&& number(b, title_at + 2 + title_bytes.len() + 8, 2) == v.width
                &&& number(b, title_at + 2 + title_bytes.len() + 10, 2) == v.height
                &&& number(b, title_at + 2 + title_bytes.len() + 12, 2) == v.dpi
                &&& number(b, title_at + 2 + title_bytes.len() + 14, 4) == v.flags
                &&& number(b, title_at + 2 + title_bytes.len() + 18, 4) == v.owner_id
            }),
{
    broadcast use pdu::lemma_at_add;
    broadcast use pdu::group_lens;
    broadcast use group_numbers;

    lemma_signed32(v.x);
    lemma_signed32(v.y);
    let wire = <WindowOpened as pdu::Encode>::wire(v@);
    assert(wire.subrange(0, wire.len() as int) =~= wire);
    assert(pdu::at(wire, 0, wire));
}

/// An announcement is read back from the bytes it looks like.
pub proof fn law_window_opened_is_read_back(
    v: WindowOpened,
    bytes: Vec<u8>,
    s: &[u8],
    back: DecodeResult<WindowOpened>,
)
    requires
        call_ensures(pdu::encode_vec::<WindowOpened>, (&v,), Ok(bytes)),
        call_ensures(pdu::decode::<WindowOpened>, (s,), back),
        s@ == bytes@,
    ensures
        back matches Ok(m) && m.window_id == v.window_id && m.video_channel == v.video_channel && m.pid == v.pid && m.app_id@ == v.app_id@ && m.title@ == v.title@ && m.x == v.x && m.y == v.y && m.width == v.width && m.height == v.height && m.dpi == v.dpi && m.flags == v.flags && m.owner_id == v.owner_id,
{
    let wire = <WindowOpened as pdu::Encode>::wire(v@);
    pdu::law_decode_inverts_encode::<WindowOpened>(v@, Seq::empty());
    assert(wire + Seq::<u8>::empty() =~= wire);
}

/// How the end of a window looks on the wire: its fields one behind the other, low byte first; and
/// that it is read back from there.
pub proof fn law_layout_of_window_closed(
    v: WindowClosed,
    r: EncodeResult<Vec<u8>>,
    s: &[u8],
    back: DecodeResult<WindowClosed>,
)
    requires
        call_ensures(pdu::encode_vec::<WindowClosed>, (&v,), r),
        call_ensures(pdu::decode::<WindowClosed>, (s,), back),
    ensures
        r is Ok,
        r matches Ok(bytes) ==> ({
                let b = bytes@;
                &&& b.len() == 4
                &&& number(b, 0, 4) == v.window_id
                &&& s@ == b ==> (back matches Ok(m) && m.window_id == v.window_id)
            }),
{
    broadcast use pdu::group_fields;
    broadcast use pdu::group_lens;
    broadcast use group_numbers;

    let wire = <WindowClosed as pdu::Encode>::wire(v@);
    assert(wire.subrange(0, wire.len() as int) =~= wire);
    assert(pdu::at(wire, 0, wire));
    if r is Ok {
        pdu::law_decode_inverts_encode::<WindowClosed>(v@, Seq::empty());
        assert(wire + Seq::<u8>::empty() =~= wire);
    }
}

/// How a window's geometry looks on the wire: its fields one behind the other, low byte first; and
/// that it is read back from there.
pub proof fn law_layout_of_window_geometry(
    v: WindowGeometry,
    r: EncodeResult<Vec<u8>>,
    s: &[u8],
    back: DecodeResult<WindowGeometry>,
)
    requires
        call_ensures(pdu::encode_vec::<WindowGeometry>, (&v,), r),
        call_ensures(pdu::decode::<WindowGeometry>, (s,), back),
    ensures
        r is Ok,
        r matches Ok(bytes) ==> ({
                let b = bytes@;
                &&& b.len() == 16
                &&& number(b, 0, 4) == v.window_id
                &&& number(b, 4, 4) == (if v.x >= 0 { v.x as int } else { v.x + 4_294_967_296 })
                &&& number(b, 8, 4) == (if v.y >= 0 { v.y as int } else { v.y + 4_294_967_296 })
                &&& number(b, 12, 2) == v.width
                &&& number(b, 14, 2) == v.height
                &&& s@ == b ==> (back matches Ok(m) && m.window_id == v.window_id && m.x == v.x && m.y == v.y && m.width == v.width && m.height == v.height)
            }),
{
    broadcast use pdu::group_fields;
    broadcast use pdu::group_lens;
    broadcast use group_numbers;

    lemma_signed32(v.x);
    lemma_signed32(v.y);
    let wire = <WindowGeometry as pdu::Encode>::wire(v@);
    assert(wire.subrange(0, wire.len() as int) =~= wire);
    assert(pdu::at(wire, 0, wire));
    if r is Ok {
        pdu::law_decode_inverts_encode::<WindowGeometry>(v@, Seq::empty());
        assert(wire + Seq::<u8>::empty() =~= wire);
    }
}

/// How a window's title looks on the wire: its fields one behind the other, low byte first; and
/// that it is read back from there.
pub proof fn law_layout_of_window_title(
    v: WindowTitle,
    r: EncodeResult<Vec<u8>>,
    s: &[u8],
    back: DecodeResult<WindowTitle>,
)
    requires
        call_ensures(pdu::encode_vec::<WindowTitle>, (&v,), r),
        call_ensures(pdu::decode::<WindowTitle>, (s,), back),
    ensures
        r is Ok <==> utf8::encode_utf8(v.title@).len() <= 65535,
        r matches Ok(bytes) ==> ({
                let b = bytes@;
                let title_at = 4int;
                let title_bytes = utf8::encode_utf8(v.title@);
                &&& b.len() == title_at + 2 + title_bytes.len()
                &&& number(b, 0, 4) == v.window_id
                &&& number(b, title_at, 2) == title_bytes.len()
                &&& b.subrange(title_at + 2, title_at + 2 + title_bytes.len()) == title_bytes
                &&& s@ == b ==> (back matches Ok(m) && m.window_id == v.window_id && m.title@ == v.title@)
            }),
{
    broadcast use pdu::group_fields;
    broadcast use pdu::group_lens;
    broadcast use group_numbers;

    let wire = <WindowTitle as pdu::Encode>::wire(v@);
    assert(wire.subrange(0, wire.len() as int) =~= wire);
    assert(pdu::at(wire, 0, wire));
    if r is Ok {
        pdu::law_decode_inverts_encode::<WindowTitle>(v@, Seq::empty());
        assert(wire + Seq::<u8>::empty() =~= wire);
    }
}

/// How a window's state looks on the wire: its fields one behind the other, low byte first; and
/// that it is read back from there.
pub proof fn law_layout_of_window_state(
    v: WindowState,
    r: EncodeResult<Vec<u8>>,
    s: &[u8],
    back: DecodeResult<WindowState>,
)
    requires
        call_ensures(pdu::encode_vec::<WindowState>, (&v,), r),
        call_ensures(pdu::decode::<WindowState>, (s,), back),
    ensures
        r is Ok,
        r matches Ok(bytes) ==> ({
                let b = bytes@;
                &&& b.len() == 9
                &&& number(b, 0, 4) == v.window_id
                &&& number(b, 4, 1) == v.state
                &&& number(b, 5, 4) == v.flags
                &&& s@ == b ==> (back matches Ok(m) && m.window_id == v.window_id && m.state == v.state && m.flags == v.flags)
            }),
{
    broadcast use pdu::group_fields;
    broadcast use pdu::group_lens;
    broadcast use group_numbers;

    let wire = <WindowState as pdu::Encode>::wire(v@);
    assert(wire.subrange(0, wire.len() as int) =~= wire);
    assert(pdu::at(wire, 0, wire));
    if r is Ok {
        pdu::law_decode_inverts_encode::<WindowState>(v@, Seq::empty());
        assert(wire + Seq::<u8>::empty() =~= wire);
    }
}

/// How a window's place in the stacking order looks on the wire: its fields one behind the other,
/// low byte first; and that it is read back from there.
pub proof fn law_layout_of_window_z_order(
    v: WindowZOrder,
    r: EncodeResult<Vec<u8>>,
    s: &[u8],
    back: DecodeResult<WindowZOrder>,
)
    requires
        call_ensures(pdu::encode_vec::<WindowZOrder>, (&v,), r),
        call_ensures(pdu::decode::<WindowZOrder>, (s,), back),
    ensures
        r is Ok,
        r matches Ok(bytes) ==> ({
                let b = bytes@;
                &&& b.len() == 8
                &&& number(b, 0, 4) == v.window_id
                &&& number(b, 4, 4) == v.above_window_id
                &&& s@ == b ==> (back matches Ok(m) && m.window_id == v.window_id && m.above_window_id == v.above_window_id)
            }),
{
    broadcast use pdu::group_fields;
    broadcast use pdu::group_lens;
    broadcast use group_numbers;

    let wire = <WindowZOrder as pdu::Encode>::wire(v@);
    assert(wire.subrange(0, wire.len() as int) =~= wire);
    assert(pdu::at(wire, 0, wire));
    if r is Ok {
        pdu::law_decode_inverts_encode::<WindowZOrder>(v@, Seq::empty());
        assert(wire + Seq::<u8>::empty() =~= wire);
    }
}

/// How a window's icon looks on the wire: its fields one behind the other, low byte first; and that
/// it is read back from there.
pub proof fn law_layout_of_window_icon(
    v: WindowIcon,
    r: EncodeResult<Vec<u8>>,
    s: &[u8],
    back: DecodeResult<WindowIcon>,
)
    requires
        call_ensures(pdu::encode_vec::<WindowIcon>, (&v,), r),
        call_ensures(pdu::decode::<WindowIcon>, (s,), back),
    ensures
        r is Ok <==> v.bgra@.len() <= 4_294_967_295,
        r matches Ok(bytes) ==> ({
                let b = bytes@;
                let bgra_at = 8int;
                let bgra_bytes = v.bgra@;
                &&& b.len() == bgra_at + 4 + bgra_bytes.len()
                &&& number(b, 0, 4) == v.window_id
                &&& number(b, 4, 2) == v.width
                &&& number(b, 6, 2) == v.height
                &&& number(b, bgra_at, 4) == bgra_bytes.len()
                &&& b.subrange(bgra_at + 4, bgra_at + 4 + bgra_bytes.len()) == bgra_bytes
                &&& s@ == b ==> (back matches Ok(m) && m.window_id == v.window_id && m.width == v.width && m.height == v.height && m.bgra@ == v.bgra@)
            }),
{
    broadcast use pdu::group_fields;
    broadcast use pdu::group_lens;
    broadcast use group_numbers;

    let wire = <WindowIcon as pdu::Encode>::wire(v@);
    assert(wire.subrange(0, wire.len() as int) =~= wire);
    assert(pdu::at(wire, 0, wire));
    if r is Ok {
        pdu::law_decode_inverts_encode::<WindowIcon>(v@, Seq::empty());
        assert(wire + Seq::<u8>::empty() =~= wire);
    }
}

/// How a frame looks on the wire: its fields one behind the other, low byte first; and that it is
/// read back from there.
pub proof fn law_layout_of_frame_data(
    v: FrameData,
    r: EncodeResult<Vec<u8>>,
    s: &[u8],
    back: DecodeResult<FrameData>,
)
    requires
        call_ensures(pdu::encode_vec::<FrameData>, (&v,), r),
        call_ensures(pdu::decode::<FrameData>, (s,), back),
    ensures
        r is Ok <==> v.data@.len() <= 4_294_967_295,
        r matches Ok(bytes) ==> ({
                let b = bytes@;
                let data_at = 34int;
                let data_bytes = v.data@;
                &&& b.len() == data_at + 4 + data_bytes.len()
                &&& number(b, 0, 4) == v.window_id
                &&& number(b, 4, 8) == v.frame_id
                &&& number(b, 12, 1) == v.codec
                &&& number(b, 13, 1) == v.flags
                &&& number(b, 14, 2) == v.width
                &&& number(b, 16, 2) == v.height
                &&& number(b, 18, 8) == v.captured_us
                &&& number(b, 26, 8) == v.encoded_us
                &&& number(b, data_at, 4) == data_bytes.len()
                &&& b.subrange(data_at + 4, data_at + 4 + data_bytes.len()) == data_bytes
                &&& s@ == b ==> (back matches Ok(m) && m.window_id == v.window_id && m.frame_id == v.frame_id && m.codec == v.codec && m.flags == v.flags && m.width == v.width && m.height == v.height && m.captured_us == v.captured_us && m.encoded_us == v.encoded_us && m.data@ == v.data@)
            }),
{
    broadcast use pdu::group_fields;
    broadcast use pdu::group_lens;
    broadcast use group_numbers;

    let wire = <FrameData as pdu::Encode>::wire(v@);
    assert(wire.subrange(0, wire.len() as int) =~= wire);
    assert(pdu::at(wire, 0, wire));
    if r is Ok {
        pdu::law_decode_inverts_encode::<FrameData>(v@, Seq::empty());
        assert(wire + Seq::<u8>::empty() =~= wire);
    }
}

/// How an acknowledgement looks on the wire: its fields one behind the other, low byte first; and
/// that it is read back from there.
pub proof fn law_layout_of_frame_ack(
    v: FrameAck,
    r: EncodeResult<Vec<u8>>,
    s: &[u8],
    back: DecodeResult<FrameAck>,
)
    requires
        call_ensures(pdu::encode_vec::<FrameAck>, (&v,), r),
        call_ensures(pdu::decode::<FrameAck>, (s,), back),
    ensures
        r is Ok,
        r matches Ok(bytes) ==> ({
                let b = bytes@;
                &&& b.len() == 28
                &&& number(b, 0, 4) == v.window_id
                &&& number(b, 4, 8) == v.frame_id
                &&& number(b, 12, 8) == v.decoded_us
                &&& number(b, 20, 8) == v.presented_us
                &&& s@ == b ==> (back matches Ok(m) && m.window_id == v.window_id && m.frame_id == v.frame_id && m.decoded_us == v.decoded_us && m.presented_us == v.presented_us)
            }),
{
    broadcast use pdu::group_fields;
    broadcast use pdu::group_lens;
    broadcast use group_numbers;

    let wire = <FrameAck as pdu::Encode>::wire(v@);
    assert(wire.subrange(0, wire.len() as int) =~= wire);
    assert(pdu::at(wire, 0, wire));
    if r is Ok {
        pdu::law_decode_inverts_encode::<FrameAck>(v@, Seq::empty());
        assert(wire + Seq::<u8>::empty() =~= wire);
    }
}

/// Some outputs stand one behind the other, each 21 bytes long.
proof fn lemma_outputs(outputs: Seq<Output>, i: int)
    requires
        0 <= i < outputs.len(),
    ensures
        control::outputs_wire(outputs).len() == 21 * outputs.len(),
        pdu::at(
            control::outputs_wire(outputs),
            21 * i,
            <Output as pdu::Encode>::wire(outputs[i]),
        ),
    decreases outputs.len(),
{
    broadcast use pdu::group_lens;

    let fewer = outputs.drop_last();
    let all = control::outputs_wire(outputs);
    let last = <Output as pdu::Encode>::wire(outputs.last());
    if fewer.len() == 0 {
        assert(control::outputs_wire(fewer).len() == 0);
    } else {
        lemma_outputs(fewer, if i < fewer.len() { i } else { 0 });
    }
    let front = control::outputs_wire(fewer);
    if i < fewer.len() {
        let one = <Output as pdu::Encode>::wire(outputs[i]);
        assert(all.subrange(21 * i, 21 * i + 21) =~= front.subrange(21 * i, 21 * i + 21));
    } else {
        assert(all.subrange(21 * i, 21 * i + 21) =~= last);
    }
}

/// How a display layout looks on the wire: how many outputs there are, in one byte, and behind it the
/// outputs in order, 21 bytes each, as they look by themselves; and that it is read back from there.
///
/// This holds of up to 255 outputs, which is as many as a byte counts.
pub proof fn law_layout_of_display_layout(
    v: DisplayLayout,
    r: EncodeResult<Vec<u8>>,
    i: int,
    output: EncodeResult<Vec<u8>>,
    s: &[u8],
    back: DecodeResult<DisplayLayout>,
)
    requires
        v.outputs@.len() <= 255,
        0 <= i < v.outputs@.len(),
        call_ensures(pdu::encode_vec::<DisplayLayout>, (&v,), r),
        call_ensures(pdu::encode_vec::<Output>, (&v.outputs@[i],), output),
        call_ensures(pdu::decode::<DisplayLayout>, (s,), back),
    ensures
        r is Ok && output is Ok,
        number(r->Ok_0@, 0, 1) == v.outputs@.len(),
        r->Ok_0@.len() == 1 + 21 * v.outputs@.len(),
        r->Ok_0@.subrange(1 + 21 * i, 22 + 21 * i) == output->Ok_0@,
        s@ == r->Ok_0@ ==> (back matches Ok(m) && m.outputs@ == v.outputs@),
{
    broadcast use pdu::group_lens;

    reveal_with_fuel(number, 2);
    lemma_outputs(v@, i);
    let wire = <DisplayLayout as pdu::Encode>::wire(v@);
    let outputs = control::outputs_wire(v@);
    assert(wire.subrange(1 + 21 * i, 22 + 21 * i) =~= outputs.subrange(21 * i, 21 * i + 21));
    pdu::law_decode_inverts_encode::<DisplayLayout>(v@, Seq::empty());
    assert(wire + Seq::<u8>::empty() =~= wire);
}

/// How the client's hello looks on the wire: the versions, the features, the token and the name, then
/// the codecs behind their count and the display layout as it looks by itself.
///
/// This holds of up to 255 codecs, which is as many as a byte counts.
pub proof fn law_layout_of_client_hello(
    v: ClientHello,
    r: EncodeResult<Vec<u8>>,
    display: EncodeResult<Vec<u8>>,
)
    requires
        v.codecs@.len() <= 255,
        call_ensures(pdu::encode_vec::<ClientHello>, (&v,), r),
        call_ensures(pdu::encode_vec::<DisplayLayout>, (&v.display,), display),
    ensures
        display is Ok,
        r is Ok <==> utf8::encode_utf8(v.auth_token@).len() <= 65535 && utf8::encode_utf8(
            v.client_name@,
        ).len() <= 65535,
        r matches Ok(bytes) ==> ({
            let b = bytes@;
            let token = utf8::encode_utf8(v.auth_token@);
            let name = utf8::encode_utf8(v.client_name@);
            let name_at = 14 + token.len() as int;
            let codecs_at = name_at + 2 + name.len();
            let display_at = codecs_at + 1 + v.codecs@.len();
            &&& number(b, 0, 2) == v.version_min
            &&& number(b, 2, 2) == v.version_max
            &&& number(b, 4, 8) == v.features
            &&& number(b, 12, 2) == token.len()
            &&& b.subrange(14, name_at) == token
            &&& number(b, name_at, 2) == name.len()
            &&& b.subrange(name_at + 2, codecs_at) == name
            &&& number(b, codecs_at, 1) == v.codecs@.len()
            &&& b.subrange(codecs_at + 1, display_at) == v.codecs@
            &&& b.subrange(display_at, b.len() as int) == display->Ok_0@
        }),
{
    if r is Ok {
        let b = r->Ok_0@;
        let token = utf8::encode_utf8(v.auth_token@);
        let name = utf8::encode_utf8(v.client_name@);
        let head = control::hello_head_wire(v@);
        let codecs = control::codecs_wire(v.codecs@);
        let display = <DisplayLayout as pdu::Encode>::wire(v.display@);
        assert(b.subrange(0, b.len() as int) =~= b);
        pdu::lemma_at_add(b, 0, head + codecs, display);
        pdu::lemma_at_add(b, 0, head, codecs);
        lemma_hello_head(v, b);
        pdu::lemma_at_add(
            b,
            head.len() as int,
            seq![v.codecs@.len() as u8],
            v.codecs@,
        );
        lemma_number_of_u8(b, head.len() as int, v.codecs@.len() as u8);
    }
}

/// The fields in front of the codecs.
proof fn lemma_hello_head(v: ClientHello, b: Seq<u8>)
    requires
        pdu::at(b, 0, control::hello_head_wire(v@)),
        utf8::encode_utf8(v.auth_token@).len() <= 65535,
        utf8::encode_utf8(v.client_name@).len() <= 65535,
    ensures
        ({
            let token = utf8::encode_utf8(v.auth_token@);
            let name = utf8::encode_utf8(v.client_name@);
            let name_at = 14 + token.len() as int;
            &&& control::hello_head_wire(v@).len() == name_at + 2 + name.len()
            &&& number(b, 0, 2) == v.version_min
            &&& number(b, 2, 2) == v.version_max
            &&& number(b, 4, 8) == v.features
            &&& number(b, 12, 2) == token.len()
            &&& b.subrange(14, name_at) == token
            &&& number(b, name_at, 2) == name.len()
            &&& b.subrange(name_at + 2, name_at + 2 + name.len()) == name
        }),
{
    broadcast use {pdu::lemma_at_add, pdu::group_lens, group_numbers};

}

/// The client's hello is read back from the bytes it looks like.
///
/// This holds of up to 255 codecs and outputs, which is as many as a byte counts.
pub proof fn law_client_hello_is_read_back(
    v: ClientHello,
    bytes: Vec<u8>,
    s: &[u8],
    back: DecodeResult<ClientHello>,
)
    requires
        v.codecs@.len() <= 255,
        v.display.outputs@.len() <= 255,
        call_ensures(pdu::encode_vec::<ClientHello>, (&v,), Ok(bytes)),
        call_ensures(pdu::decode::<ClientHello>, (s,), back),
        s@ == bytes@,
    ensures
        back matches Ok(m) && m.version_min == v.version_min && m.version_max == v.version_max
            && m.features == v.features && m.auth_token@ == v.auth_token@ && m.client_name@
            == v.client_name@ && m.codecs@ == v.codecs@ && m.display.outputs@
            == v.display.outputs@,
{
    let wire = <ClientHello as pdu::Encode>::wire(v@);
    pdu::law_decode_inverts_encode::<ClientHello>(v@, Seq::empty());
    assert(wire + Seq::<u8>::empty() =~= wire);
}

/// The numbers that bytes stand for are those read at their place.
proof fn lemma_number_at(b: Seq<u8>, p: int)
    ensures
        number(b, p, 1) == b[p],
        number(b, p, 2) == pdu::u16_at(b, p),
        number(b, p, 4) == pdu::u32_at(b, p),
        number(b, p, 8) == pdu::u64_at(b, p),
{
    reveal(pdu::u16_at);
    reveal(pdu::u32_at);
    reveal(pdu::u64_at);
    reveal_with_fuel(number, 5);
    lemma_number_of_halves(b, p);
}

/// A number is read low byte first from where the last one ended, if its bytes are there; if not,
/// nothing is read, and what was being read is named.
pub proof fn law_numbers_are_read<'a>(context: &'static str)
    ensures
        forall|c: &mut pdu::ReadCursor<'a>, r: DecodeResult<u8>| #[trigger]
            call_ensures(pdu::ReadCursor::<'a>::read_u8, (c, context), r) ==> {
                let (b, p) = ((*c).bytes(), (*c).pos());
                &&& r is Ok <==> p + 1 <= b.len()
                &&& r matches Ok(x) ==> x == number(b, p, 1) && final(c).pos() == p + 1
                &&& r is Err ==> r == Err::<u8, _>(
                    pdu::DecodeError::NotEnoughBytes { context },
                ) && final(c).pos() == p
            },
        forall|c: &mut pdu::ReadCursor<'a>, r: DecodeResult<u16>| #[trigger]
            call_ensures(pdu::ReadCursor::<'a>::read_u16_le, (c, context), r) ==> {
                let (b, p) = ((*c).bytes(), (*c).pos());
                &&& r is Ok <==> p + 2 <= b.len()
                &&& r matches Ok(x) ==> x == number(b, p, 2) && final(c).pos() == p + 2
                &&& r is Err ==> r == Err::<u16, _>(
                    pdu::DecodeError::NotEnoughBytes { context },
                ) && final(c).pos() == p
            },
        forall|c: &mut pdu::ReadCursor<'a>, r: DecodeResult<u32>| #[trigger]
            call_ensures(pdu::ReadCursor::<'a>::read_u32_le, (c, context), r) ==> {
                let (b, p) = ((*c).bytes(), (*c).pos());
                &&& r is Ok <==> p + 4 <= b.len()
                &&& r matches Ok(x) ==> x == number(b, p, 4) && final(c).pos() == p + 4
                &&& r is Err ==> r == Err::<u32, _>(
                    pdu::DecodeError::NotEnoughBytes { context },
                ) && final(c).pos() == p
            },
        forall|c: &mut pdu::ReadCursor<'a>, r: DecodeResult<u64>| #[trigger]
            call_ensures(wire::read_u64, (c, context), r) ==> {
                let (b, p) = ((*c).bytes(), (*c).pos());
                &&& r is Ok <==> p + 8 <= b.len()
                &&& r matches Ok(x) ==> x == number(b, p, 8) && final(c).pos() == p + 8
                &&& r is Err ==> r == Err::<u64, _>(pdu::DecodeError::NotEnoughBytes { context })
            },
{
    assert forall|c: &mut pdu::ReadCursor<'a>, r: DecodeResult<u8>| #[trigger]
        call_ensures(pdu::ReadCursor::<'a>::read_u8, (c, context), r) implies {
        let (b, p) = ((*c).bytes(), (*c).pos());
        &&& r is Ok <==> p + 1 <= b.len()
        &&& r matches Ok(x) ==> x == number(b, p, 1) && final(c).pos() == p + 1
        &&& r is Err ==> r == Err::<u8, _>(pdu::DecodeError::NotEnoughBytes { context }) && final(c).pos() == p
    } by {
        lemma_number_at((*c).bytes(), (*c).pos());
    }
    assert forall|c: &mut pdu::ReadCursor<'a>, r: DecodeResult<u16>| #[trigger]
        call_ensures(pdu::ReadCursor::<'a>::read_u16_le, (c, context), r) implies {
        let (b, p) = ((*c).bytes(), (*c).pos());
        &&& r is Ok <==> p + 2 <= b.len()
        &&& r matches Ok(x) ==> x == number(b, p, 2) && final(c).pos() == p + 2
        &&& r is Err ==> r == Err::<u16, _>(pdu::DecodeError::NotEnoughBytes { context }) && final(c).pos() == p
    } by {
        lemma_number_at((*c).bytes(), (*c).pos());
    }
    assert forall|c: &mut pdu::ReadCursor<'a>, r: DecodeResult<u32>| #[trigger]
        call_ensures(pdu::ReadCursor::<'a>::read_u32_le, (c, context), r) implies {
        let (b, p) = ((*c).bytes(), (*c).pos());
        &&& r is Ok <==> p + 4 <= b.len()
        &&& r matches Ok(x) ==> x == number(b, p, 4) && final(c).pos() == p + 4
        &&& r is Err ==> r == Err::<u32, _>(pdu::DecodeError::NotEnoughBytes { context }) && final(c).pos() == p
    } by {
        lemma_number_at((*c).bytes(), (*c).pos());
    }
    assert forall|c: &mut pdu::ReadCursor<'a>, r: DecodeResult<u64>| #[trigger]
        call_ensures(wire::read_u64, (c, context), r) implies {
        let (b, p) = ((*c).bytes(), (*c).pos());
        &&& r is Ok <==> p + 8 <= b.len()
        &&& r matches Ok(x) ==> x == number(b, p, 8) && final(c).pos() == p + 8
        &&& r is Err ==> r == Err::<u64, _>(pdu::DecodeError::NotEnoughBytes { context })
    } by {
        lemma_number_at((*c).bytes(), (*c).pos());
    }
}

/// A truth value is any byte but zero. A negative number is its two's complement. Text and blobs are as
/// long as the number in front of them says, and text that is no UTF-8 is an error.
pub proof fn law_other_fields_are_read<'a>(context: &'static str)
    ensures
        forall|c: &mut pdu::ReadCursor<'a>, r: DecodeResult<bool>| #[trigger]
            call_ensures(wire::read_bool, (c, context), r) ==> {
                let (b, p) = ((*c).bytes(), (*c).pos());
                &&& r is Ok <==> p + 1 <= b.len()
                &&& r matches Ok(x) ==> (x <==> b[p] != 0) && final(c).pos() == p + 1
            },
        forall|c: &mut pdu::ReadCursor<'a>, r: DecodeResult<i32>| #[trigger]
            call_ensures(wire::read_i32, (c, context), r) ==> {
                let (b, p) = ((*c).bytes(), (*c).pos());
                &&& r is Ok <==> p + 4 <= b.len()
                &&& r matches Ok(x) ==> (if x >= 0 {
                    x as int
                } else {
                    x + 4_294_967_296
                }) == number(b, p, 4) && final(c).pos() == p + 4
            },
        forall|c: &mut pdu::ReadCursor<'a>, r: DecodeResult<i16>| #[trigger]
            call_ensures(wire::read_i16, (c, context), r) ==> {
                let (b, p) = ((*c).bytes(), (*c).pos());
                &&& r is Ok <==> p + 2 <= b.len()
                &&& r matches Ok(x) ==> (if x >= 0 {
                    x as int
                } else {
                    x + 65536
                }) == number(b, p, 2) && final(c).pos() == p + 2
            },
        forall|c: &mut pdu::ReadCursor<'a>, r: DecodeResult<Vec<u8>>| #[trigger]
            call_ensures(wire::read_blob, (c, context), r) ==> {
                let (b, p) = ((*c).bytes(), (*c).pos());
                let n = number(b, p, 4);
                &&& r is Ok <==> p + 4 <= b.len() && p + 4 + n <= b.len()
                &&& r matches Ok(x) ==> x@ == b.subrange(p + 4, p + 4 + n) && final(c).pos() == p
                    + 4 + n
            },
        forall|c: &mut pdu::ReadCursor<'a>, r: DecodeResult<String>| #[trigger]
            call_ensures(wire::read_string, (c, context), r) ==> {
                let (b, p) = ((*c).bytes(), (*c).pos());
                let n = number(b, p, 2);
                let there = p + 2 <= b.len() && p + 2 + n <= b.len();
                &&& r is Ok <==> there && utf8::valid_utf8(b.subrange(p + 2, p + 2 + n))
                &&& r matches Ok(x) ==> x@ == utf8::decode_utf8(b.subrange(p + 2, p + 2 + n))
                    && final(c).pos() == p + 2 + n
                &&& !there ==> r == Err::<String, _>(pdu::DecodeError::NotEnoughBytes { context })
                &&& there && r is Err ==> r matches Err(pdu::DecodeError::InvalidField { .. })
            },
{
    assert forall|c: &mut pdu::ReadCursor<'a>, r: DecodeResult<i32>| #[trigger]
        call_ensures(wire::read_i32, (c, context), r) implies {
        let (b, p) = ((*c).bytes(), (*c).pos());
        &&& r is Ok <==> p + 4 <= b.len()
        &&& r matches Ok(x) ==> (if x >= 0 {
            x as int
        } else {
            x + 4_294_967_296
        }) == number(b, p, 4) && final(c).pos() == p + 4
    } by {
        lemma_number_at((*c).bytes(), (*c).pos());
        lemma_unsigned32(pdu::u32_at((*c).bytes(), (*c).pos()));
    }
    assert forall|c: &mut pdu::ReadCursor<'a>, r: DecodeResult<i16>| #[trigger]
        call_ensures(wire::read_i16, (c, context), r) implies {
        let (b, p) = ((*c).bytes(), (*c).pos());
        &&& r is Ok <==> p + 2 <= b.len()
        &&& r matches Ok(x) ==> (if x >= 0 {
            x as int
        } else {
            x + 65536
        }) == number(b, p, 2) && final(c).pos() == p + 2
    } by {
        lemma_number_at((*c).bytes(), (*c).pos());
        lemma_unsigned16(pdu::u16_at((*c).bytes(), (*c).pos()));
    }
    assert forall|c: &mut pdu::ReadCursor<'a>, r: DecodeResult<Vec<u8>>| #[trigger]
        call_ensures(wire::read_blob, (c, context), r) implies {
        let (b, p) = ((*c).bytes(), (*c).pos());
        let n = number(b, p, 4);
        &&& r is Ok <==> p + 4 <= b.len() && p + 4 + n <= b.len()
        &&& r matches Ok(x) ==> x@ == b.subrange(p + 4, p + 4 + n) && final(c).pos() == p + 4 + n
    } by {
        lemma_number_at((*c).bytes(), (*c).pos());
    }
    assert forall|c: &mut pdu::ReadCursor<'a>, r: DecodeResult<String>| #[trigger]
        call_ensures(wire::read_string, (c, context), r) implies {
        let (b, p) = ((*c).bytes(), (*c).pos());
        let n = number(b, p, 2);
        let there = p + 2 <= b.len() && p + 2 + n <= b.len();
        &&& r is Ok <==> there && utf8::valid_utf8(b.subrange(p + 2, p + 2 + n))
        &&& r matches Ok(x) ==> x@ == utf8::decode_utf8(b.subrange(p + 2, p + 2 + n)) && final(c).pos() == p + 2 + n
        &&& !there ==> r == Err::<String, _>(pdu::DecodeError::NotEnoughBytes { context })
        &&& there && r is Err ==> r matches Err(pdu::DecodeError::InvalidField { .. })
    } by {
        lemma_number_at((*c).bytes(), (*c).pos());
    }
}

/// The `i32` that a two's complement stands for.
proof fn lemma_unsigned32(x: u32)
    ensures
        (if (x as i32) >= 0 {
            (x as i32) as int
        } else {
            (x as i32) + 4_294_967_296
        }) == x,
{
    assert((x as i32) >= 0 ==> (x as i32) == x) by (bit_vector);
    assert((x as i32) < 0 ==> (x as i32) + 4_294_967_296 == x) by (bit_vector);
}

/// The `i16` that a two's complement stands for.
proof fn lemma_unsigned16(x: u16)
    ensures
        (if (x as i16) >= 0 {
            (x as i16) as int
        } else {
            (x as i16) + 65536
        }) == x,
{
    assert((x as i16) >= 0 ==> (x as i16) == x) by (bit_vector);
    assert((x as i16) < 0 ==> (x as i16) + 65536 == x) by (bit_vector);
}

/// How the header of a chunk looks on the wire: the type, the flags, the channel and the length of the
/// payload, in eight bytes. One that declares more than 32 KiB is not read.
pub proof fn law_layout_of_chunk_header(
    v: ChunkHeader,
    r: EncodeResult<Vec<u8>>,
    s: &[u8],
    back: DecodeResult<ChunkHeader>,
)
    requires
        call_ensures(pdu::encode_vec::<ChunkHeader>, (&v,), r),
        call_ensures(pdu::decode::<ChunkHeader>, (s,), back),
    ensures
        r is Ok,
        ({
            let b = r->Ok_0@;
            &&& b.len() == 8
            &&& number(b, 0, 1) == v.msg_type
            &&& number(b, 1, 1) == v.flags
            &&& number(b, 2, 2) == v.channel
            &&& number(b, 4, 4) == v.length
            &&& s@ == b && v.flags <= 1 && v.length <= 32_768 ==> (back matches Ok(m) && m == v)
            &&& s@ == b && v.length > 32_768 ==> back is Err
        }),
{
    broadcast use {pdu::lemma_at_add, pdu::group_lens, group_numbers};

    let flags = v.flags;
    assert(flags <= 1 ==> flags & 1 == flags) by (bit_vector);
    let wire = <ChunkHeader as pdu::Encode>::wire(v);
    assert(wire.subrange(0, wire.len() as int) =~= wire);
    assert(pdu::at(wire, 0, wire));
    if v.flags <= 1 && v.length <= 32_768 {
        pdu::law_decode_inverts_encode::<ChunkHeader>(v, Seq::empty());
        assert(wire + Seq::<u8>::empty() =~= wire);
    } else if v.length > 32_768 {
        assert(<ChunkHeader as pdu::Decode>::parse(wire, 0) is Err) by {
            broadcast use pdu::group_fields;

        }
    }
}

} // verus!
