//! What a client tells the server about itself.

use vstd::prelude::*;
use vstd::string::*;

use crate::rdp::connector::PROTOCOL_SSL;
use crate::text;

verus! {

/// GCC client core data.
#[derive(Debug, Clone, Copy, PartialEq, Eq)]
pub struct ClientCoreData {
    /// RDP version.
    pub version: u32,
    /// Desktop width.
    pub desktop_width: u16,
    /// Desktop height.
    pub desktop_height: u16,
    /// Color depth.
    pub color_depth: u16,
    /// Secure access sequence.
    pub sas_sequence: u16,
    /// Keyboard layout.
    pub keyboard_layout: u32,
    /// Client build number.
    pub client_build: u32,
    /// Client name, UTF-16LE, null-padded.
    pub client_name: [u8; 32],
    /// Keyboard type.
    pub keyboard_type: u32,
    /// Keyboard subtype.
    pub keyboard_subtype: u32,
    /// Number of function keys.
    pub keyboard_function_key: u32,
    /// Input method editor file name.
    pub ime_file_name: [u8; 64],
}

/// GCC client security data.
#[derive(Debug, Clone, Copy, PartialEq, Eq)]
pub struct ClientSecurityData {
    /// Encryption methods.
    pub encryption_methods: u32,
    /// Encryption methods, extended.
    pub ext_encryption_methods: u32,
}

/// A virtual channel that a client asks for.
#[derive(Debug, Clone, Copy, PartialEq, Eq)]
pub struct ChannelDef {
    /// Channel name, null-padded.
    pub name: [u8; 8],
    /// Channel options.
    pub options: u32,
}

/// GCC client network data.
#[derive(Debug, Clone, PartialEq, Eq)]
pub struct ClientNetworkData {
    /// The virtual channels.
    pub channels: Vec<ChannelDef>,
}

/// Configuration for the RDP connector.
#[derive(Debug, Clone)]
pub struct ConnectorConfig {
    /// Optional routing token / cookie.
    pub cookie: Option<String>,
    /// Protocols to request during negotiation.
    pub requested_protocols: u32,
    /// GCC client core data.
    pub core: ClientCoreData,
    /// GCC client security data.
    pub security: ClientSecurityData,
    /// GCC client network data.
    pub network: ClientNetworkData,
}

/// The UTF-16 units of a character.
pub open spec fn units(c: char) -> Seq<u16> {
    let n = c as int;
    if n < 0x10000 {
        seq![n as u16]
    } else {
        seq![
            (0xd800 + (n - 0x10000) / 0x400) as u16,
            (0xdc00 + (n - 0x10000) % 0x400) as u16,
        ]
    }
}

/// The UTF-16 units of a text.
pub open spec fn utf16(s: Seq<char>) -> Seq<u16>
    decreases s.len(),
{
    if s.len() == 0 {
        Seq::empty()
    } else {
        utf16(s.drop_last()) + units(s.last())
    }
}

/// Byte `i` of a name in its field: UTF-16LE, at most fifteen units, zeros behind them.
pub open spec fn name_byte(units: Seq<u16>, i: int) -> u8 {
    let k = i / 2;
    if k < 15 && k < units.len() {
        if i % 2 == 0 {
            (units[k] % 256) as u8
        } else {
            (units[k] / 256) as u8
        }
    } else {
        0
    }
}

/// Writes a unit into the field, if there is room for it.
fn put_unit(buf: &mut [u8; 32], k: usize, unit: u16)
    requires
        k < 15,
    ensures
        forall|i: int|
            0 <= i < 32 ==> #[trigger] final(buf)@[i] == (if i == 2 * k {
                (unit % 256) as u8
            } else if i == 2 * k + 1 {
                (unit / 256) as u8
            } else {
                old(buf)@[i]
            }),
{
    buf[2 * k] = (unit % 256) as u8;
    buf[2 * k + 1] = (unit / 256) as u8;
}

/// Encode a client name as UTF-16LE, null-padded to the fixed 32-byte field.
pub fn client_name(name: &str) -> (r: [u8; 32])
    ensures
        forall|i: int| 0 <= i < 32 ==> #[trigger] r@[i] == name_byte(utf16(name@), i),
{
    let mut buf: [u8; 32] = [0u8; 32];
    let len: usize = name.unicode_len();
    let mut i: usize = 0;
    let mut k: usize = 0;
    let ghost all = utf16(name@);
    assert(name@.take(0) =~= Seq::<char>::empty());
    while i < len && k < 15
        invariant
            i <= len,
            len == name@.len(),
            k <= 15,
            all == utf16(name@),
            utf16(name@.take(i as int)).len() == k || (k == 15 && utf16(
                name@.take(i as int),
            ).len() >= 15),
            forall|j: int|
                0 <= j < 32 ==> #[trigger] buf@[j] == name_byte(utf16(name@.take(i as int)), j),
        decreases len - i,
    {
        let c: char = name.get_char(i);
        let n: u32 = c as u32;
        let ghost before = utf16(name@.take(i as int));
        proof {
            assert(name@.take(i + 1).drop_last() =~= name@.take(i as int));
            assert(utf16(name@.take(i + 1)) == before + units(c));
        }
        if n < 0x10000 {
            put_unit(&mut buf, k, n as u16);
            k = k + 1;
        } else {
            let high: u16 = (0xd800 + (n - 0x10000) / 0x400) as u16;
            let low: u16 = (0xdc00 + (n - 0x10000) % 0x400) as u16;
            put_unit(&mut buf, k, high);
            k = k + 1;
            if k < 15 {
                put_unit(&mut buf, k, low);
                k = k + 1;
            }
        }
        i = i + 1;
    }
    proof {
        lemma_prefix(name@, i as int);
        assert forall|j: int| 0 <= j < 32 implies #[trigger] buf@[j] == name_byte(all, j) by {
            assert(buf@[j] == name_byte(utf16(name@.take(i as int)), j));
        }
    }
    buf
}

/// The units of the first characters are the first units.
proof fn lemma_prefix(s: Seq<char>, i: int)
    requires
        0 <= i <= s.len(),
    ensures
        utf16(s.take(i)).len() <= utf16(s).len(),
        forall|k: int|
            0 <= k < utf16(s.take(i)).len() ==> #[trigger] utf16(s.take(i))[k] == utf16(s)[k],
        i == s.len() ==> utf16(s.take(i)) == utf16(s),
    decreases s.len() - i,
{
    if i == s.len() {
        assert(s.take(i) =~= s);
    } else {
        lemma_prefix(s, i + 1);
        assert(s.take(i + 1).drop_last() =~= s.take(i));
        assert(utf16(s.take(i + 1)) == utf16(s.take(i)) + units(s[i]));
        assert forall|k: int| 0 <= k < utf16(s.take(i)).len() implies #[trigger] utf16(s.take(i))[k]
            == utf16(s)[k] by {
            assert(utf16(s.take(i + 1))[k] == utf16(s.take(i))[k]);
        }
    }
}

/// A sensible default client configuration for the connection sequence. The user's name, if there
/// is one, goes into the cookie.
pub fn default_config(username: &str) -> (r: ConnectorConfig)
    ensures
        match r.cookie {
            None => username@.len() == 0,
            Some(cookie) => username@.len() > 0 && cookie@ == username@,
        },
        r.requested_protocols == PROTOCOL_SSL,
        r.core.version == 0x0008_0004,
        r.core.desktop_width == 1024,
        r.core.desktop_height == 768,
        r.core.color_depth == 0xCA01,
        r.core.sas_sequence == 0xAA03,
        r.core.keyboard_layout == 0x0000_0409,
        r.core.client_build == 2600,
        forall|i: int|
            0 <= i < 32 ==> #[trigger] r.core.client_name@[i] == name_byte(utf16("oxrdp"@), i),
        r.core.keyboard_type == 4,
        r.core.keyboard_subtype == 0,
        r.core.keyboard_function_key == 12,
        forall|i: int| 0 <= i < 64 ==> #[trigger] r.core.ime_file_name@[i] == 0,
        r.security == (ClientSecurityData { encryption_methods: 0, ext_encryption_methods: 0 }),
        r.network.channels@.len() == 1,
        r.network.channels@[0].name@ == seq![0x72u8, 0x64, 0x70, 0x64, 0x72, 0, 0, 0],
        r.network.channels@[0].options == 0x8080_0000,
{
    let cookie = if username.unicode_len() > 0 {
        Some(username.to_owned())
    } else {
        None
    };
    // "rdpdr", null-padded.
    let name: [u8; 8] = [0x72, 0x64, 0x70, 0x64, 0x72, 0, 0, 0];
    assert(name@ =~= seq![0x72u8, 0x64, 0x70, 0x64, 0x72, 0, 0, 0]);
    ConnectorConfig {
        cookie,
        requested_protocols: PROTOCOL_SSL,
        core: ClientCoreData {
            version: 0x0008_0004,
            desktop_width: 1024,
            desktop_height: 768,
            color_depth: 0xCA01,
            sas_sequence: 0xAA03,
            keyboard_layout: 0x0000_0409,
            client_build: 2600,
            client_name: client_name("oxrdp"),
            keyboard_type: 4,
            keyboard_subtype: 0,
            keyboard_function_key: 12,
            ime_file_name: [0u8; 64],
        },
        security: ClientSecurityData { encryption_methods: 0, ext_encryption_methods: 0 },
        network: ClientNetworkData { channels: vec![ChannelDef { name, options: 0x8080_0000 }] },
    }
}

/// Where the first colon of a text is; its length if it has none.
pub open spec fn first_colon(s: Seq<char>) -> int
    decreases s.len(),
{
    if s.len() == 0 || s[0] == ':' {
        0
    } else {
        1 + first_colon(s.drop_first())
    }
}

/// Where the first colon of a text is; its length if it has none.
fn find_colon(s: &str) -> (r: usize)
    ensures
        r == first_colon(s@),
        r <= s@.len(),
{
    let len: usize = s.unicode_len();
    let mut i: usize = 0;
    assert(s@.skip(0) =~= s@);
    while i < len
        invariant
            i <= len,
            len == s@.len(),
            first_colon(s@) == i + first_colon(s@.skip(i as int)),
        decreases len - i,
    {
        if s.get_char(i) == ':' {
            return i;
        }
        assert(s@.skip(i as int).drop_first() =~= s@.skip(i + 1));
        i = i + 1;
    }
    i
}

/// The address to connect to: RDP's own port, unless the host names another.
pub fn address(host: &str) -> (r: String)
    ensures
        r@ == (if first_colon(host@) < host@.len() {
            host@
        } else {
            host@ + ":3389"@
        }),
{
    let at: usize = find_colon(host);
    let mut out = host.to_owned();
    if at == host.unicode_len() {
        text::push_str(&mut out, ":3389");
    }
    out
}

/// The name of the server: the host without its port.
pub fn server_name(host: &str) -> (r: String)
    ensures
        r@ == host@.take(first_colon(host@)),
{
    let at: usize = find_colon(host);
    let name = host.substring_char(0, at);
    assert(name@ =~= host@.take(first_colon(host@)));
    name.to_owned()
}

/// A character is a number that Unicode gives out.
proof fn lemma_char(c: char)
    ensures
        0 <= c as int <= 0x10ffff,
{
}

/// Text in the basic plane has one unit for each character.
proof fn lemma_basic_units(s: Seq<char>)
    requires
        forall|i: int| 0 <= i < s.len() ==> (#[trigger] s[i] as int) < 0x10000,
    ensures
        utf16(s).len() == s.len(),
        forall|i: int| 0 <= i < s.len() ==> #[trigger] utf16(s)[i] == s[i] as int,
    decreases s.len(),
{
    if s.len() > 0 {
        let front = s.drop_last();
        assert forall|i: int| 0 <= i < front.len() implies (#[trigger] front[i] as int)
            < 0x10000 by {
            assert(front[i] == s[i]);
        }
        lemma_basic_units(front);
        assert((s[s.len() - 1] as int) < 0x10000);
        assert(utf16(s) == utf16(front) + units(s.last()));
        assert forall|i: int| 0 <= i < s.len() implies #[trigger] utf16(s)[i] == s[i] as int by {
            if i < front.len() {
                assert(utf16(s)[i] == utf16(front)[i]);
                assert(front[i] == s[i]);
            } else {
                lemma_char(s.last());
                assert(utf16(s)[i] == units(s.last())[0]);
            }
        }
    }
}

/// A name in the basic plane has two bytes for each of its first fifteen characters, the low one
/// first, and zeros behind them.
pub proof fn law_names_are_two_bytes_a_character(name: &str, r: [u8; 32], i: int)
    requires
        call_ensures(client_name, (name,), r),
        forall|k: int| 0 <= k < name@.len() ==> (#[trigger] name@[k] as int) < 0x10000,
        0 <= i < 16,
    ensures
        i < 15 && i < name@.len() ==> r@[2 * i] + 256 * r@[2 * i + 1] == name@[i] as int,
        i == 15 || i >= name@.len() ==> r@[2 * i] == 0 && r@[2 * i + 1] == 0,
{
    lemma_basic_units(name@);
    assert(r@[2 * i] == name_byte(utf16(name@), 2 * i));
    assert(r@[2 * i + 1] == name_byte(utf16(name@), 2 * i + 1));
    if i < name@.len() {
        assert(utf16(name@)[i] == name@[i] as int);
    }
}

/// A character beyond the basic plane takes two units, of ten bits each.
pub proof fn law_names_use_surrogates(name: &str, r: [u8; 32])
    requires
        call_ensures(client_name, (name,), r),
        name@.len() == 1,
        name@[0] as int >= 0x10000,
    ensures
        ({
            let high = r@[0] + 256 * r@[1];
            let low = r@[2] + 256 * r@[3];
            &&& 0xd800 <= high < 0xdc00 <= low < 0xe000
            &&& 0x10000 + 0x400 * (high - 0xd800) + (low - 0xdc00) == name@[0] as int
            &&& r@[4] == 0 && r@[5] == 0
        }),
{
    let c = name@[0];
    let n = c as int;
    assert(name@.drop_last().len() == 0);
    assert(utf16(name@.drop_last()) == Seq::<u16>::empty());
    assert(utf16(name@) =~= units(c));
    lemma_char(c);
    assert(r@[0] == name_byte(utf16(name@), 0));
    assert(r@[1] == name_byte(utf16(name@), 1));
    assert(r@[2] == name_byte(utf16(name@), 2));
    assert(r@[3] == name_byte(utf16(name@), 3));
    assert(r@[4] == name_byte(utf16(name@), 4));
    assert(r@[5] == name_byte(utf16(name@), 5));
}

/// The first colon is where the text without a colon in front of it ends.
proof fn lemma_first_colon(front: Seq<char>, rest: Seq<char>)
    requires
        !front.contains(':'),
        rest.len() > 0 ==> rest[0] == ':',
    ensures
        first_colon(front + rest) == front.len(),
    decreases front.len(),
{
    let all = front + rest;
    if front.len() > 0 {
        assert(front[0] != ':') by {
            assert(front.contains(front[0]));
        }
        assert(all.drop_first() =~= front.drop_first() + rest);
        assert(!front.drop_first().contains(':')) by {
            if front.drop_first().contains(':') {
                let i = choose|i: int|
                    0 <= i < front.drop_first().len() && front.drop_first()[i] == ':';
                assert(front[i + 1] == ':');
            }
        }
        lemma_first_colon(front.drop_first(), rest);
    }
}

/// A host without a colon is connected to at port 3389. One with a colon is connected to as it stands,
/// and its name is what is in front of the first.
pub proof fn law_hosts_name_their_port(
    host: &str,
    name: Seq<char>,
    port: Seq<char>,
    to: String,
    server: String,
)
    requires
        call_ensures(address, (host,), to),
        call_ensures(server_name, (host,), server),
        !name.contains(':'),
    ensures
        host@ == name ==> to@ == name + ":3389"@ && server@ == name,
        host@ == name + seq![':'] + port ==> to@ == host@ && server@ == name,
{
    if host@ == name {
        lemma_first_colon(name, Seq::empty());
        assert(name + Seq::<char>::empty() =~= name);
        assert(host@.take(name.len() as int) =~= name);
    }
    if host@ == name + seq![':'] + port {
        lemma_first_colon(name, seq![':'] + port);
        assert(host@ =~= name + (seq![':'] + port));
        assert(host@.take(name.len() as int) =~= name);
    }
}

/// A client asks for TLS, a desktop of 1024 by 768 with 256 colours, a US keyboard with twelve
/// function keys and the device channel; the user's name is the cookie.
pub proof fn law_clients_introduce_themselves(username: &str, r: ConnectorConfig, name: [u8; 32], i: int)
    requires
        call_ensures(default_config, (username,), r),
        call_ensures(client_name, ("oxrdp",), name),
        0 <= i < 32,
    ensures
        r.cookie is Some <==> username@.len() > 0,
        r.cookie matches Some(cookie) ==> cookie@ == username@,
        r.requested_protocols == 1,
        r.core.version == 0x0008_0004,
        r.core.desktop_width == 1024 && r.core.desktop_height == 768,
        r.core.color_depth == 0xca01,
        r.core.sas_sequence == 0xaa03,
        r.core.keyboard_layout == 0x409,
        r.core.client_build == 2600,
        r.core.client_name@[i] == name@[i],
        r.core.keyboard_type == 4 && r.core.keyboard_subtype == 0 && r.core.keyboard_function_key
            == 12,
        r.core.ime_file_name@[i] == 0 && r.core.ime_file_name@[32 + i] == 0,
        r.security.encryption_methods == 0 && r.security.ext_encryption_methods == 0,
        r.network.channels@.len() == 1,
        r.network.channels@[0].name@ == seq![0x72u8, 0x64, 0x70, 0x64, 0x72, 0, 0, 0],
        r.network.channels@[0].options == 0x8080_0000,
{
    assert(r.core.client_name@[i] == name_byte(utf16("oxrdp"@), i));
    assert(name@[i] == name_byte(utf16("oxrdp"@), i));
}

} // verus!
