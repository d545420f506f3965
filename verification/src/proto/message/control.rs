//! Handshake and control-channel messages.

use vstd::prelude::*;

use crate::proto::pdu;
use crate::proto::pdu::{
    Decode, DecodeError, DecodeResult, Encode, EncodeError, EncodeResult, ReadCursor, WriteCursor,
};
use crate::proto::wire;

verus! {

/// One client display.
#[derive(Debug, Clone, Copy, PartialEq, Eq)]
pub struct Output {
    /// Output identifier.
    pub id: u8,
    /// X coordinate in the virtual desktop.
    pub x: i32,
    /// Y coordinate in the virtual desktop.
    pub y: i32,
    /// Width in pixels.
    pub width: u16,
    /// Height in pixels.
    pub height: u16,
    /// Scale numerator.
    pub scale_num: u16,
    /// Scale denominator.
    pub scale_den: u16,
    /// Refresh rate in millihertz.
    pub refresh_mhz: u32,
}

impl View for Output {
    type V = Output;

    open spec fn view(&self) -> Output {
        *self
    }
}

impl Encode for Output {
    open spec fn wire(v: Output) -> Seq<u8> {
        seq![v.id]
            + wire::i32_wire(v.x)
            + wire::i32_wire(v.y)
            + pdu::le16(v.width)
            + pdu::le16(v.height)
            + pdu::le16(v.scale_num)
            + pdu::le16(v.scale_den)
            + pdu::le32(v.refresh_mhz)
    }

    open spec fn encode_error(v: Output) -> Option<EncodeError> {
        None
    }

    fn size(&self) -> usize {
        broadcast use pdu::group_lens;

        1 + 4 + 4 + 2 + 2 + 2 + 2 + 4
    }

    fn encode(&self, dst: &mut WriteCursor) -> EncodeResult<()> {
        dst.write_u8(self.id);
        wire::write_i32(dst, self.x, "Output.x")?;
        wire::write_i32(dst, self.y, "Output.y")?;
        dst.write_u16_le(self.width);
        dst.write_u16_le(self.height);
        dst.write_u16_le(self.scale_num);
        dst.write_u16_le(self.scale_den);
        dst.write_u32_le(self.refresh_mhz);
        assert(dst@ =~= old(dst)@ + Self::wire(self@));
        Ok(())
    }
}

impl Decode for Output {
    open spec fn restorable(v: Output) -> bool {
        true
    }

    open spec fn parse(b: Seq<u8>, p: int) -> DecodeResult<(Output, int)> {
        match pdu::take_u8(b, p, "Output.id") {
            Err(e) => Err(e),
            Ok((id, p)) => match wire::take_i32(b, p, "Output.x") {
                Err(e) => Err(e),
                Ok((x, p)) => match wire::take_i32(b, p, "Output.y") {
                    Err(e) => Err(e),
                    Ok((y, p)) => match pdu::take_u16(b, p, "Output.width") {
                        Err(e) => Err(e),
                        Ok((width, p)) => match pdu::take_u16(b, p, "Output.height") {
                            Err(e) => Err(e),
                            Ok((height, p)) => match pdu::take_u16(b, p, "Output.scale_num") {
                                Err(e) => Err(e),
                                Ok((scale_num, p)) => match pdu::take_u16(
                                    b,
                                    p,
                                    "Output.scale_den",
                                ) {
                                    Err(e) => Err(e),
                                    Ok((scale_den, p)) => match pdu::take_u32(
                                        b,
                                        p,
                                        "Output.refresh_mhz",
                                    ) {
                                        Err(e) => Err(e),
                                        Ok((refresh_mhz, p)) => Ok(
                                            (
                                                Output {
                                                    id,
                                                    x,
                                                    y,
                                                    width,
                                                    height,
                                                    scale_num,
                                                    scale_den,
                                                    refresh_mhz,
                                                },
                                                p,
                                            ),
                                        ),
                                    },
                                },
                            },
                        },
                    },
                },
            },
        }
    }

    fn decode(src: &mut ReadCursor<'_>) -> DecodeResult<Self> {
        let id: u8 = src.read_u8("Output.id")?;
        let x: i32 = wire::read_i32(src, "Output.x")?;
        let y: i32 = wire::read_i32(src, "Output.y")?;
        let width: u16 = src.read_u16_le("Output.width")?;
        let height: u16 = src.read_u16_le("Output.height")?;
        let scale_num: u16 = src.read_u16_le("Output.scale_num")?;
        let scale_den: u16 = src.read_u16_le("Output.scale_den")?;
        let refresh_mhz: u32 = src.read_u32_le("Output.refresh_mhz")?;
        Ok(Output { id, x, y, width, height, scale_num, scale_den, refresh_mhz })
    }

    proof fn lemma_restores(v: Output, b: Seq<u8>, p: int) {
        broadcast use {pdu::group_fields, wire::group_wire};

    }

    proof fn lemma_extends(b: Seq<u8>, p: int, more: Seq<u8>) {
        broadcast use {pdu::group_fields, wire::group_wire};

    }
}

/// The client's output topology.
#[derive(Debug, Clone, PartialEq, Eq)]
pub struct DisplayLayout {
    /// Client outputs that make up the virtual desktop.
    pub outputs: Vec<Output>,
}

impl View for DisplayLayout {
    type V = Seq<Output>;

    open spec fn view(&self) -> Seq<Output> {
        self.outputs@
    }
}

/// The bytes of some outputs, one behind the other.
pub open spec fn outputs_wire(outputs: Seq<Output>) -> Seq<u8>
    decreases outputs.len(),
{
    if outputs.len() == 0 {
        Seq::empty()
    } else {
        outputs_wire(outputs.drop_last()) + Output::wire(outputs.last())
    }
}

/// What reading `n` outputs from `p` on finds.
pub open spec fn take_outputs(b: Seq<u8>, p: int, n: nat) -> DecodeResult<(Seq<Output>, int)>
    decreases n,
{
    if n == 0 {
        Ok((Seq::empty(), p))
    } else {
        match take_outputs(b, p, (n - 1) as nat) {
            Err(e) => Err(e),
            Ok((outputs, p)) => match Output::parse(b, p) {
                Err(e) => Err(e),
                Ok((output, p)) => Ok((outputs.push(output), p)),
            },
        }
    }
}

/// The length of [`outputs_wire`].
proof fn lemma_outputs_wire_len(outputs: Seq<Output>)
    ensures
        outputs_wire(outputs).len() == 21 * outputs.len(),
    decreases outputs.len(),
{
    broadcast use pdu::group_lens;

    if outputs.len() > 0 {
        lemma_outputs_wire_len(outputs.drop_last());
    }
}

/// An error among the first outputs is the error of the whole.
proof fn lemma_take_outputs_err(b: Seq<u8>, p: int, k: nat, n: nat)
    requires
        k <= n,
        take_outputs(b, p, k) is Err,
    ensures
        take_outputs(b, p, n) == take_outputs(b, p, k),
    decreases n,
{
    if k < n {
        lemma_take_outputs_err(b, p, k, (n - 1) as nat);
    }
}

/// Outputs are read where their bytes stand.
proof fn lemma_take_outputs_at(b: Seq<u8>, p: int, outputs: Seq<Output>)
    requires
        pdu::at(b, p, outputs_wire(outputs)),
    ensures
        take_outputs(b, p, outputs.len()) == Ok::<(Seq<Output>, int), DecodeError>(
            (outputs, p + outputs_wire(outputs).len()),
        ),
    decreases outputs.len(),
{
    if outputs.len() > 0 {
        let init = outputs.drop_last();
        pdu::lemma_at_add(b, p, outputs_wire(init), Output::wire(outputs.last()));
        lemma_take_outputs_at(b, p, init);
        Output::lemma_restores(outputs.last(), b, p + outputs_wire(init).len());
        assert(init.push(outputs.last()) =~= outputs);
    } else {
        assert(outputs =~= Seq::<Output>::empty());
    }
}

/// Reading outputs does not depend on what follows them.
proof fn lemma_take_outputs_extends(b: Seq<u8>, p: int, n: nat, more: Seq<u8>)
    requires
        0 <= p <= b.len(),
        take_outputs(b, p, n) is Ok,
    ensures
        take_outputs(b + more, p, n) == take_outputs(b, p, n),
        p <= take_outputs(b, p, n)->Ok_0.1 <= b.len(),
        take_outputs(b, p, n)->Ok_0.0.len() == n,
    decreases n,
{
    if n > 0 {
        lemma_take_outputs_extends(b, p, (n - 1) as nat, more);
        let q = take_outputs(b, p, (n - 1) as nat)->Ok_0.1;
        Output::lemma_extends(b, q, more);
    }
}

impl Encode for DisplayLayout {
    /// A count that stays at 255 for more outputs, then every output.
    open spec fn wire(v: Seq<Output>) -> Seq<u8> {
        seq![if v.len() <= 255 { v.len() as u8 } else { 255u8 }] + outputs_wire(v)
    }

    open spec fn encode_error(v: Seq<Output>) -> Option<EncodeError> {
        None
    }

    fn size(&self) -> usize {
        proof {
            lemma_outputs_wire_len(self@);
        }
        1 + self.outputs.len() * 21
    }

    fn encode(&self, dst: &mut WriteCursor) -> EncodeResult<()> {
        let count: usize = self.outputs.len();
        dst.write_u8(if count <= 255 { count as u8 } else { 255 });
        let ghost head = dst@;
        let mut i: usize = 0;
        assert(self.outputs@.subrange(0, 0) =~= Seq::<Output>::empty());
        assert(dst@ =~= head + outputs_wire(self.outputs@.subrange(0, 0)));
        while i < count
            invariant
                i <= count,
                count == self.outputs.len(),
                dst@ == head + outputs_wire(self.outputs@.subrange(0, i as int)),
            decreases count - i,
        {
            let ghost before = dst@;
            self.outputs[i].encode(dst)?;
            proof {
                let done = self.outputs@.subrange(0, i as int + 1);
                assert(done.drop_last() =~= self.outputs@.subrange(0, i as int));
                assert(dst@ =~= head + outputs_wire(done));
            }
            i = i + 1;
        }
        assert(self.outputs@.subrange(0, count as int) =~= self.outputs@);
        assert(dst@ =~= old(dst)@ + Self::wire(self@));
        Ok(())
    }
}

impl Decode for DisplayLayout {
    open spec fn restorable(v: Seq<Output>) -> bool {
        v.len() <= 255
    }

    open spec fn parse(b: Seq<u8>, p: int) -> DecodeResult<(Seq<Output>, int)> {
        match pdu::take_u8(b, p, "DisplayLayout.outputs_count") {
            Err(e) => Err(e),
            Ok((count, p)) => take_outputs(b, p, count as nat),
        }
    }

    fn decode(src: &mut ReadCursor<'_>) -> DecodeResult<Self> {
        let count: u8 = src.read_u8("DisplayLayout.outputs_count")?;
        let ghost b = src.bytes();
        let ghost p = src.pos();
        let mut outputs: Vec<Output> = Vec::new();
        let mut i: u8 = 0;
        while i < count
            invariant
                i <= count,
                src.bytes() == b,
                take_outputs(b, p, i as nat) == Ok::<(Seq<Output>, int), DecodeError>(
                    (outputs@, src.pos()),
                ),
                Self::parse(old(src).bytes(), old(src).pos()) == take_outputs(b, p, count as nat),
                old(src).bytes() == b,
            decreases count - i,
        {
            match Output::decode(src) {
                Ok(output) => {
                    outputs.push(output);
                },
                Err(e) => {
                    proof {
                        assert(take_outputs(b, p, (i + 1) as nat) is Err);
                        lemma_take_outputs_err(b, p, (i + 1) as nat, count as nat);
                    }
                    return Err(e);
                },
            }
            i = i + 1;
        }
        Ok(DisplayLayout { outputs })
    }

    proof fn lemma_restores(v: Seq<Output>, b: Seq<u8>, p: int) {
        pdu::lemma_at_add(b, p, seq![v.len() as u8], outputs_wire(v));
        pdu::lemma_at_u8(b, p, v.len() as u8);
        lemma_take_outputs_at(b, p + 1, v);
    }

    proof fn lemma_extends(b: Seq<u8>, p: int, more: Seq<u8>) {
        lemma_take_outputs_extends(b, p + 1, b[p] as nat, more);
    }
}

/// Client handshake message.
#[derive(Debug, Clone, PartialEq, Eq)]
pub struct ClientHello {
    /// Minimum supported protocol version.
    pub version_min: u16,
    /// Maximum supported protocol version.
    pub version_max: u16,
    /// Feature bitmask.
    pub features: u64,
    /// Authentication token.
    pub auth_token: String,
    /// Human-readable client name.
    pub client_name: String,
    /// Supported codec identifiers.
    pub codecs: Vec<u8>,
    /// Client display layout.
    pub display: DisplayLayout,
}

/// What a [`ClientHello`] holds.
pub struct ClientHelloView {
    /// See [`ClientHello::version_min`].
    pub version_min: u16,
    /// See [`ClientHello::version_max`].
    pub version_max: u16,
    /// See [`ClientHello::features`].
    pub features: u64,
    /// See [`ClientHello::auth_token`].
    pub auth_token: Seq<char>,
    /// See [`ClientHello::client_name`].
    pub client_name: Seq<char>,
    /// See [`ClientHello::codecs`].
    pub codecs: Seq<u8>,
    /// See [`ClientHello::display`].
    pub display: Seq<Output>,
}

impl View for ClientHello {
    type V = ClientHelloView;

    open spec fn view(&self) -> ClientHelloView {
        ClientHelloView {
            version_min: self.version_min,
            version_max: self.version_max,
            features: self.features,
            auth_token: self.auth_token@,
            client_name: self.client_name@,
            codecs: self.codecs@,
            display: self.display@,
        }
    }
}

/// The bytes of a codec list: a count that stays at 255 for more codecs, then every codec.
pub open spec fn codecs_wire(codecs: Seq<u8>) -> Seq<u8> {
    seq![if codecs.len() <= 255 { codecs.len() as u8 } else { 255u8 }] + codecs
}

/// What reading a codec list at `p` finds.
pub open spec fn take_codecs(b: Seq<u8>, p: int) -> DecodeResult<(Seq<u8>, int)> {
    match pdu::take_u8(b, p, "ClientHello.codecs_count") {
        Err(e) => Err(e),
        Ok((count, p)) => pdu::take_slice(b, p, count as int, "ClientHello.codecs"),
    }
}

fn write_codecs(dst: &mut WriteCursor, codecs: &[u8])
    ensures
        final(dst)@ == old(dst)@ + codecs_wire(codecs@),
{
    let count: usize = codecs.len();
    dst.write_u8(if count <= 255 { count as u8 } else { 255 });
    dst.write_slice(codecs);
    assert(dst@ =~= old(dst)@ + codecs_wire(codecs@));
}

fn read_codecs(src: &mut ReadCursor<'_>) -> (r: DecodeResult<Vec<u8>>)
    ensures
        final(src).bytes() == old(src).bytes(),
        match take_codecs(old(src).bytes(), old(src).pos()) {
            Ok((v, q)) => r matches Ok(x) && x@ == v && final(src).pos() == q,
            Err(e) => r matches Err(f) && f == e,
        },
{
    let count: u8 = src.read_u8("ClientHello.codecs_count")?;
    let bytes = src.read_slice(count as usize, "ClientHello.codecs")?;
    Ok(pdu::copy_bytes(bytes))
}

/// The fields of a [`ClientHello`] in front of its two lists.
pub open spec fn hello_head_wire(v: ClientHelloView) -> Seq<u8> {
    pdu::le16(v.version_min)
        + pdu::le16(v.version_max)
        + pdu::le64(v.features)
        + wire::string_wire(v.auth_token)
        + wire::string_wire(v.client_name)
}

/// The fields in front of the lists are read where their bytes stand.
proof fn lemma_hello_head_restores(v: ClientHelloView, b: Seq<u8>, p: int)
    requires
        ClientHello::encode_error(v) is None,
        pdu::at(b, p, hello_head_wire(v)),
    ensures
        p + 12 <= b.len(),
        pdu::u16_at(b, p) == v.version_min,
        pdu::u16_at(b, p + 2) == v.version_max,
        pdu::u64_at(b, p + 4) == v.features,
        forall|c: &'static str| #[trigger]
            wire::take_string(b, p + 12, c) == Ok::<(Seq<char>, int), DecodeError>(
                (v.auth_token, p + 12 + wire::string_wire(v.auth_token).len()),
            ),
        forall|c: &'static str| #[trigger]
            wire::take_string(b, p + 12 + wire::string_wire(v.auth_token).len(), c) == Ok::<
                (Seq<char>, int),
                DecodeError,
            >((v.client_name, p + hello_head_wire(v).len())),
{
    broadcast use {pdu::group_fields, wire::group_wire};

}

/// The length of a [`ClientHello`]'s bytes.
proof fn lemma_hello_wire_len(v: ClientHelloView)
    ensures
        ClientHello::wire(v).len() == 12 + wire::string_wire(v.auth_token).len()
            + wire::string_wire(v.client_name).len() + 1 + v.codecs.len() + DisplayLayout::wire(
            v.display,
        ).len(),
{
    broadcast use pdu::group_lens;

}

impl Encode for ClientHello {
    open spec fn wire(v: ClientHelloView) -> Seq<u8> {
        hello_head_wire(v) + codecs_wire(v.codecs) + DisplayLayout::wire(v.display)
    }

    open spec fn encode_error(v: ClientHelloView) -> Option<EncodeError> {
        match wire::string_error(v.auth_token, "ClientHello.auth_token") {
            Some(e) => Some(e),
            None => wire::string_error(v.client_name, "ClientHello.client_name"),
        }
    }

    fn size(&self) -> usize {
        proof {
            lemma_hello_wire_len(self@);
        }
        2 + 2 + 8 + wire::string_size(self.auth_token.as_str()) + wire::string_size(
            self.client_name.as_str(),
        ) + 1 + self.codecs.len() + self.display.size()
    }

    fn encode(&self, dst: &mut WriteCursor) -> EncodeResult<()> {
        dst.write_u16_le(self.version_min);
        dst.write_u16_le(self.version_max);
        wire::write_u64(dst, self.features, "ClientHello.features")?;
        wire::write_string(dst, self.auth_token.as_str(), "ClientHello.auth_token")?;
        wire::write_string(dst, self.client_name.as_str(), "ClientHello.client_name")?;
        write_codecs(dst, self.codecs.as_slice());
        self.display.encode(dst)?;
        assert(dst@ =~= old(dst)@ + Self::wire(self@));
        Ok(())
    }
}

impl Decode for ClientHello {
    open spec fn restorable(v: ClientHelloView) -> bool {
        v.codecs.len() <= 255 && DisplayLayout::restorable(v.display)
    }

    open spec fn parse(b: Seq<u8>, p: int) -> DecodeResult<(ClientHelloView, int)> {
        match pdu::take_u16(b, p, "ClientHello.version_min") {
            Err(e) => Err(e),
            Ok((version_min, p)) => match pdu::take_u16(b, p, "ClientHello.version_max") {
                Err(e) => Err(e),
                Ok((version_max, p)) => match wire::take_u64(b, p, "ClientHello.features") {
                    Err(e) => Err(e),
                    Ok((features, p)) => match wire::take_string(b, p, "ClientHello.auth_token") {
                        Err(e) => Err(e),
                        Ok((auth_token, p)) => match wire::take_string(
                            b,
                            p,
                            "ClientHello.client_name",
                        ) {
                            Err(e) => Err(e),
                            Ok((client_name, p)) => match take_codecs(b, p) {
                                Err(e) => Err(e),
                                Ok((codecs, p)) => match DisplayLayout::parse(b, p) {
                                    Err(e) => Err(e),
                                    Ok((display, p)) => Ok(
                                        (
                                            ClientHelloView {
                                                version_min,
                                                version_max,
                                                features,
                                                auth_token,
                                                client_name,
                                                codecs,
                                                display,
                                            },
                                            p,
                                        ),
                                    ),
                                },
                            },
                        },
                    },
                },
            },
        }
    }

    fn decode(src: &mut ReadCursor<'_>) -> DecodeResult<Self> {
        let version_min: u16 = src.read_u16_le("ClientHello.version_min")?;
        let version_max: u16 = src.read_u16_le("ClientHello.version_max")?;
        let features: u64 = wire::read_u64(src, "ClientHello.features")?;
        let auth_token = wire::read_string(src, "ClientHello.auth_token")?;
        let client_name = wire::read_string(src, "ClientHello.client_name")?;
        let codecs = read_codecs(src)?;
        let display = DisplayLayout::decode(src)?;
        Ok(
            ClientHello {
                version_min,
                version_max,
                features,
                auth_token,
                client_name,
                codecs,
                display,
            },
        )
    }

    proof fn lemma_restores(v: ClientHelloView, b: Seq<u8>, p: int) {
        let head = hello_head_wire(v);
        let lists = p + head.len();
        let display = lists + codecs_wire(v.codecs).len();
        pdu::lemma_at_add(b, p, head + codecs_wire(v.codecs), DisplayLayout::wire(v.display));
        pdu::lemma_at_add(b, p, head, codecs_wire(v.codecs));
        assert(take_codecs(b, lists) == Ok::<(Seq<u8>, int), DecodeError>((v.codecs, display)))
            by {
            let count = seq![v.codecs.len() as u8];
            pdu::lemma_at_add(b, lists, count, v.codecs);
            pdu::lemma_at_u8(b, lists, v.codecs.len() as u8);
        }
        DisplayLayout::lemma_restores(v.display, b, display);
        lemma_hello_wire_len(v);
        lemma_hello_head_restores(v, b, p);
    }

    proof fn lemma_extends(b: Seq<u8>, p: int, more: Seq<u8>) {
        broadcast use {pdu::group_fields, wire::group_wire};

        let p1 = wire::take_string(b, p + 12, "ClientHello.auth_token")->Ok_0.1;
        let p2 = wire::take_string(b, p1, "ClientHello.client_name")->Ok_0.1;
        let p3 = take_codecs(b, p2)->Ok_0.1;
        DisplayLayout::lemma_extends(b, p3, more);
    }
}

/// Server handshake reply.
#[derive(Debug, Clone, Copy, PartialEq, Eq)]
pub struct ServerHello {
    /// Negotiated protocol version.
    pub version: u16,
    /// Enabled feature bitmask.
    pub features: u64,
    /// Session identifier.
    pub session_id: u64,
    /// Selected codec identifier.
    pub codec: u8,
}

impl View for ServerHello {
    type V = ServerHello;

    open spec fn view(&self) -> ServerHello {
        *self
    }
}

impl Encode for ServerHello {
    open spec fn wire(v: ServerHello) -> Seq<u8> {
        pdu::le16(v.version)
            + pdu::le64(v.features)
            + pdu::le64(v.session_id)
            + seq![v.codec]
    }

    open spec fn encode_error(v: ServerHello) -> Option<EncodeError> {
        None
    }

    fn size(&self) -> usize {
        broadcast use pdu::group_lens;

        2 + 8 + 8 + 1
    }

    fn encode(&self, dst: &mut WriteCursor) -> EncodeResult<()> {
        dst.write_u16_le(self.version);
        wire::write_u64(dst, self.features, "ServerHello.features")?;
        wire::write_u64(dst, self.session_id, "ServerHello.session_id")?;
        dst.write_u8(self.codec);
        assert(dst@ =~= old(dst)@ + Self::wire(self@));
        Ok(())
    }
}

impl Decode for ServerHello {
    open spec fn restorable(v: ServerHello) -> bool {
        true
    }

    open spec fn parse(b: Seq<u8>, p: int) -> DecodeResult<(ServerHello, int)> {
        match pdu::take_u16(b, p, "ServerHello.version") {
            Err(e) => Err(e),
            Ok((version, p)) => match wire::take_u64(b, p, "ServerHello.features") {
                Err(e) => Err(e),
                Ok((features, p)) => match wire::take_u64(b, p, "ServerHello.session_id") {
                    Err(e) => Err(e),
                    Ok((session_id, p)) => match pdu::take_u8(b, p, "ServerHello.codec") {
                        Err(e) => Err(e),
                        Ok((codec, p)) => Ok(
                            (
                                ServerHello {
                                    version,
                                    features,
                                    session_id,
                                    codec,
                                },
                                p,
                            ),
                        ),
                    },
                },
            },
        }
    }

    fn decode(src: &mut ReadCursor<'_>) -> DecodeResult<Self> {
        let version: u16 = src.read_u16_le("ServerHello.version")?;
        let features: u64 = wire::read_u64(src, "ServerHello.features")?;
        let session_id: u64 = wire::read_u64(src, "ServerHello.session_id")?;
        let codec: u8 = src.read_u8("ServerHello.codec")?;
        Ok(ServerHello { version, features, session_id, codec })
    }

    proof fn lemma_restores(v: ServerHello, b: Seq<u8>, p: int) {
        broadcast use {pdu::group_fields, wire::group_wire};

    }

    proof fn lemma_extends(b: Seq<u8>, p: int, more: Seq<u8>) {
        broadcast use {pdu::group_fields, wire::group_wire};

    }
}

/// Control-channel error message.
#[derive(Debug, Clone, PartialEq, Eq)]
pub struct Error {
    /// Error code.
    pub code: u16,
    /// Human-readable error message.
    pub message: String,
}

/// What a [`Error`] holds.
pub struct ErrorView {
    /// See [`Error::code`].
    pub code: u16,
    /// See [`Error::message`].
    pub message: Seq<char>,
}

impl View for Error {
    type V = ErrorView;

    open spec fn view(&self) -> ErrorView {
        ErrorView {
            code: self.code,
            message: self.message@,
        }
    }
}

impl Encode for Error {
    open spec fn wire(v: ErrorView) -> Seq<u8> {
        pdu::le16(v.code)
            + wire::string_wire(v.message)
    }

    open spec fn encode_error(v: ErrorView) -> Option<EncodeError> {
        wire::string_error(v.message, "Error.message")
    }

    fn size(&self) -> usize {
        broadcast use pdu::group_lens;

        2 + wire::string_size(self.message.as_str())
    }

    fn encode(&self, dst: &mut WriteCursor) -> EncodeResult<()> {
        dst.write_u16_le(self.code);
        wire::write_string(dst, self.message.as_str(), "Error.message")?;
        assert(dst@ =~= old(dst)@ + Self::wire(self@));
        Ok(())
    }
}

impl Decode for Error {
    open spec fn restorable(v: ErrorView) -> bool {
        true
    }

    open spec fn parse(b: Seq<u8>, p: int) -> DecodeResult<(ErrorView, int)> {
        match pdu::take_u16(b, p, "Error.code") {
            Err(e) => Err(e),
            Ok((code, p)) => match wire::take_string(b, p, "Error.message") {
                Err(e) => Err(e),
                Ok((message, p)) => Ok((ErrorView { code, message }, p)),
            },
        }
    }

    fn decode(src: &mut ReadCursor<'_>) -> DecodeResult<Self> {
        let code: u16 = src.read_u16_le("Error.code")?;
        let message = wire::read_string(src, "Error.message")?;
        Ok(Error { code, message })
    }

    proof fn lemma_restores(v: ErrorView, b: Seq<u8>, p: int) {
        broadcast use {pdu::group_fields, wire::group_wire};

        assert(Self::encode_error(v) is None);
    }

    proof fn lemma_extends(b: Seq<u8>, p: int, more: Seq<u8>) {
        broadcast use {pdu::group_fields, wire::group_wire};

    }
}

/// Session close message.
#[derive(Debug, Clone, Copy, PartialEq, Eq)]
pub struct Close {
    /// Close reason code.
    pub reason: u16,
}

impl View for Close {
    type V = Close;

    open spec fn view(&self) -> Close {
        *self
    }
}

impl Encode for Close {
    open spec fn wire(v: Close) -> Seq<u8> {
        pdu::le16(v.reason)
    }

    open spec fn encode_error(v: Close) -> Option<EncodeError> {
        None
    }

    fn size(&self) -> usize {
        broadcast use pdu::group_lens;

        2
    }

    fn encode(&self, dst: &mut WriteCursor) -> EncodeResult<()> {
        dst.write_u16_le(self.reason);
        assert(dst@ =~= old(dst)@ + Self::wire(self@));
        Ok(())
    }
}

impl Decode for Close {
    open spec fn restorable(v: Close) -> bool {
        true
    }

    open spec fn parse(b: Seq<u8>, p: int) -> DecodeResult<(Close, int)> {
        match pdu::take_u16(b, p, "Close.reason") {
            Err(e) => Err(e),
            Ok((reason, p)) => Ok((Close { reason }, p)),
        }
    }

    fn decode(src: &mut ReadCursor<'_>) -> DecodeResult<Self> {
        let reason: u16 = src.read_u16_le("Close.reason")?;
        Ok(Close { reason })
    }

    proof fn lemma_restores(v: Close, b: Seq<u8>, p: int) {
        broadcast use {pdu::group_fields, wire::group_wire};

    }

    proof fn lemma_extends(b: Seq<u8>, p: int, more: Seq<u8>) {
        broadcast use {pdu::group_fields, wire::group_wire};

    }
}

/// Liveness probe.
#[derive(Debug, Clone, Copy, PartialEq, Eq)]
pub struct Ping {
    /// Sequence number echoed by the reply.
    pub seq: u32,
    /// Sender's clock in microseconds.
    pub sent_us: u64,
}

impl View for Ping {
    type V = Ping;

    open spec fn view(&self) -> Ping {
        *self
    }
}

impl Encode for Ping {
    open spec fn wire(v: Ping) -> Seq<u8> {
        pdu::le32(v.seq)
            + pdu::le64(v.sent_us)
    }

    open spec fn encode_error(v: Ping) -> Option<EncodeError> {
        None
    }

    fn size(&self) -> usize {
        broadcast use pdu::group_lens;

        4 + 8
    }

    fn encode(&self, dst: &mut WriteCursor) -> EncodeResult<()> {
        dst.write_u32_le(self.seq);
        wire::write_u64(dst, self.sent_us, "Ping.sent_us")?;
        assert(dst@ =~= old(dst)@ + Self::wire(self@));
        Ok(())
    }
}

impl Decode for Ping {
    open spec fn restorable(v: Ping) -> bool {
        true
    }

    open spec fn parse(b: Seq<u8>, p: int) -> DecodeResult<(Ping, int)> {
        match pdu::take_u32(b, p, "Ping.seq") {
            Err(e) => Err(e),
            Ok((seq, p)) => match wire::take_u64(b, p, "Ping.sent_us") {
                Err(e) => Err(e),
                Ok((sent_us, p)) => Ok((Ping { seq, sent_us }, p)),
            },
        }
    }

    fn decode(src: &mut ReadCursor<'_>) -> DecodeResult<Self> {
        let seq: u32 = src.read_u32_le("Ping.seq")?;
        let sent_us: u64 = wire::read_u64(src, "Ping.sent_us")?;
        Ok(Ping { seq, sent_us })
    }

    proof fn lemma_restores(v: Ping, b: Seq<u8>, p: int) {
        broadcast use {pdu::group_fields, wire::group_wire};

    }

    proof fn lemma_extends(b: Seq<u8>, p: int, more: Seq<u8>) {
        broadcast use {pdu::group_fields, wire::group_wire};

    }
}

/// Liveness reply.
#[derive(Debug, Clone, Copy, PartialEq, Eq)]
pub struct Pong {
    /// Echoed sequence number.
    pub seq: u32,
    /// Original sender clock in microseconds.
    pub sent_us: u64,
    /// Agent clock in microseconds.
    pub agent_us: u64,
}

impl View for Pong {
    type V = Pong;

    open spec fn view(&self) -> Pong {
        *self
    }
}

impl Encode for Pong {
    open spec fn wire(v: Pong) -> Seq<u8> {
        pdu::le32(v.seq)
            + pdu::le64(v.sent_us)
            + pdu::le64(v.agent_us)
    }

    open spec fn encode_error(v: Pong) -> Option<EncodeError> {
        None
    }

    fn size(&self) -> usize {
        broadcast use pdu::group_lens;

        4 + 8 + 8
    }

    fn encode(&self, dst: &mut WriteCursor) -> EncodeResult<()> {
        dst.write_u32_le(self.seq);
        wire::write_u64(dst, self.sent_us, "Pong.sent_us")?;
        wire::write_u64(dst, self.agent_us, "Pong.agent_us")?;
        assert(dst@ =~= old(dst)@ + Self::wire(self@));
        Ok(())
    }
}

impl Decode for Pong {
    open spec fn restorable(v: Pong) -> bool {
        true
    }

    open spec fn parse(b: Seq<u8>, p: int) -> DecodeResult<(Pong, int)> {
        match pdu::take_u32(b, p, "Pong.seq") {
            Err(e) => Err(e),
            Ok((seq, p)) => match wire::take_u64(b, p, "Pong.sent_us") {
                Err(e) => Err(e),
                Ok((sent_us, p)) => match wire::take_u64(b, p, "Pong.agent_us") {
                    Err(e) => Err(e),
                    Ok((agent_us, p)) => Ok((Pong { seq, sent_us, agent_us }, p)),
                },
            },
        }
    }

    fn decode(src: &mut ReadCursor<'_>) -> DecodeResult<Self> {
        let seq: u32 = src.read_u32_le("Pong.seq")?;
        let sent_us: u64 = wire::read_u64(src, "Pong.sent_us")?;
        let agent_us: u64 = wire::read_u64(src, "Pong.agent_us")?;
        Ok(Pong { seq, sent_us, agent_us })
    }

    proof fn lemma_restores(v: Pong, b: Seq<u8>, p: int) {
        broadcast use {pdu::group_fields, wire::group_wire};

    }

    proof fn lemma_extends(b: Seq<u8>, p: int, more: Seq<u8>) {
        broadcast use {pdu::group_fields, wire::group_wire};

    }
}

/// Quality-of-service hint for a window or the whole session.
#[derive(Debug, Clone, Copy, PartialEq, Eq)]
pub struct QualityHint {
    /// Target window (0 means all windows).
    pub window_id: u32,
    /// Target frames per second.
    pub target_fps: u16,
    /// Maximum bitrate in kilobits per second.
    pub max_bitrate_kbps: u32,
    /// Hint flags.
    pub flags: u8,
}

impl View for QualityHint {
    type V = QualityHint;

    open spec fn view(&self) -> QualityHint {
        *self
    }
}

impl Encode for QualityHint {
    open spec fn wire(v: QualityHint) -> Seq<u8> {
        pdu::le32(v.window_id)
            + pdu::le16(v.target_fps)
            + pdu::le32(v.max_bitrate_kbps)
            + seq![v.flags]
    }

    open spec fn encode_error(v: QualityHint) -> Option<EncodeError> {
        None
    }

    fn size(&self) -> usize {
        broadcast use pdu::group_lens;

        4 + 2 + 4 + 1
    }

    fn encode(&self, dst: &mut WriteCursor) -> EncodeResult<()> {
        dst.write_u32_le(self.window_id);
        dst.write_u16_le(self.target_fps);
        dst.write_u32_le(self.max_bitrate_kbps);
        dst.write_u8(self.flags);
        assert(dst@ =~= old(dst)@ + Self::wire(self@));
        Ok(())
    }
}

impl Decode for QualityHint {
    open spec fn restorable(v: QualityHint) -> bool {
        true
    }

    open spec fn parse(b: Seq<u8>, p: int) -> DecodeResult<(QualityHint, int)> {
        match pdu::take_u32(b, p, "QualityHint.window_id") {
            Err(e) => Err(e),
            Ok((window_id, p)) => match pdu::take_u16(b, p, "QualityHint.target_fps") {
                Err(e) => Err(e),
                Ok((target_fps, p)) => match pdu::take_u32(b, p, "QualityHint.max_bitrate_kbps") {
                    Err(e) => Err(e),
                    Ok((max_bitrate_kbps, p)) => match pdu::take_u8(b, p, "QualityHint.flags") {
                        Err(e) => Err(e),
                        Ok((flags, p)) => Ok(
                            (
                                QualityHint {
                                    window_id,
                                    target_fps,
                                    max_bitrate_kbps,
                                    flags,
                                },
                                p,
                            ),
                        ),
                    },
                },
            },
        }
    }

    fn decode(src: &mut ReadCursor<'_>) -> DecodeResult<Self> {
        let window_id: u32 = src.read_u32_le("QualityHint.window_id")?;
        let target_fps: u16 = src.read_u16_le("QualityHint.target_fps")?;
        let max_bitrate_kbps: u32 = src.read_u32_le("QualityHint.max_bitrate_kbps")?;
        let flags: u8 = src.read_u8("QualityHint.flags")?;
        Ok(QualityHint { window_id, target_fps, max_bitrate_kbps, flags })
    }

    proof fn lemma_restores(v: QualityHint, b: Seq<u8>, p: int) {
        broadcast use {pdu::group_fields, wire::group_wire};

    }

    proof fn lemma_extends(b: Seq<u8>, p: int, more: Seq<u8>) {
        broadcast use {pdu::group_fields, wire::group_wire};

    }
}

} // verus!
