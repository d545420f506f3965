//! The command line.

use vstd::prelude::*;
use vstd::string::*;

use crate::text;

verus! {

/// How the program is used.
pub const USAGE: &'static str =
    "usage: oxclient <host:port> --pin <spki-hex> --token-file <path> [--name <client-name>] [--headless]";

/// Parsed command-line arguments.
#[derive(Debug, Clone, PartialEq, Eq)]
pub struct Cli {
    /// The agent's host.
    pub host: String,
    /// The agent's port.
    pub port: u16,
    /// The pin of the agent's key.
    pub pin: String,
    /// Where the token is kept.
    pub token_path: String,
    /// The client's name.
    pub name: String,
    /// Whether to run without windows.
    pub headless: bool,
}

/// What a [`Cli`] holds.
pub struct CliView {
    /// See [`Cli::host`].
    pub host: Seq<char>,
    /// See [`Cli::port`].
    pub port: u16,
    /// See [`Cli::pin`].
    pub pin: Seq<char>,
    /// See [`Cli::token_path`].
    pub token_path: Seq<char>,
    /// See [`Cli::name`].
    pub name: Seq<char>,
    /// See [`Cli::headless`].
    pub headless: bool,
}

impl View for Cli {
    type V = CliView;

    open spec fn view(&self) -> CliView {
        CliView {
            host: self.host@,
            port: self.port,
            pin: self.pin@,
            token_path: self.token_path@,
            name: self.name@,
            headless: self.headless,
        }
    }
}

/// Whether a character is a decimal digit.
pub open spec fn is_digit(c: char) -> bool {
    '0' <= c && c <= '9'
}

/// The number that some digits write.
pub open spec fn number(digits: Seq<char>) -> nat
    decreases digits.len(),
{
    if digits.len() == 0 {
        0
    } else {
        number(digits.drop_last()) * 10 + (digits.last() as nat - '0' as nat) as nat
    }
}

/// Whether a text is made of digits alone.
pub open spec fn all_digits(s: Seq<char>) -> bool {
    forall|i: int| 0 <= i < s.len() ==> is_digit(#[trigger] s[i])
}

/// A text without the plus sign in front of it, if it has one.
pub open spec fn unsigned(s: Seq<char>) -> Seq<char> {
    if s.len() > 0 && s[0] == '+' {
        s.skip(1)
    } else {
        s
    }
}

/// The port that a text writes: an optional plus sign and nothing but digits behind it.
pub open spec fn port_of(s: Seq<char>) -> Option<u16> {
    let digits = unsigned(s);
    if digits.len() > 0 && all_digits(digits) && number(digits) <= u16::MAX {
        Some(number(digits) as u16)
    } else {
        None
    }
}

/// Reads a port.
pub fn parse_port(s: &str) -> (r: Option<u16>)
    ensures
        r == port_of(s@),
{
    let len: usize = s.unicode_len();
    let digits = if len > 0 && s.get_char(0) == '+' {
        s.substring_char(1, len)
    } else {
        s
    };
    assert(digits@ =~= unsigned(s@));
    let len: usize = digits.unicode_len();
    if len == 0 {
        return None;
    }
    let mut value: u32 = 0;
    let mut i: usize = 0;
    assert(digits@.take(0) =~= Seq::<char>::empty());
    while i < len
        invariant
            i <= len,
            len == digits@.len(),
            digits@ == unsigned(s@),
            all_digits(digits@.take(i as int)),
            value == (if number(digits@.take(i as int)) < 65536 {
                number(digits@.take(i as int))
            } else {
                65536
            }),
        decreases len - i,
    {
        let c: char = digits.get_char(i);
        if c < '0' || c > '9' {
            assert(!is_digit(digits@[i as int]));
            return None;
        }
        let d: u32 = c as u32 - '0' as u32;
        proof {
            let next = digits@.take(i + 1);
            assert(next.drop_last() =~= digits@.take(i as int));
            assert forall|k: int| 0 <= k < next.len() implies is_digit(#[trigger] next[k]) by {
                if k < i {
                    assert(next[k] == digits@.take(i as int)[k]);
                }
            }
        }
        let wide: u32 = value * 10 + d;
        value = if wide < 65536 {
            wide
        } else {
            65536
        };
        i = i + 1;
    }
    assert(digits@.take(len as int) =~= digits@);
    if value <= 65535 {
        Some(value as u16)
    } else {
        None
    }
}

/// How `Debug` shows a text: in quotes, with what would be unreadable escaped.
pub uninterp spec fn quoted(s: Seq<char>) -> Seq<char>;

/// Shows a text with [`std::fmt::Debug`].
///
/// Trusted: what comes out depends on the text alone.
#[verifier::external_body]
pub(crate) fn quote(s: &str) -> (r: String)
    ensures
        r@ == quoted(s@),
{
    format!("{s:?}")
}

/// What a bad port, shown in quotes, is reported as.
pub fn invalid_port(shown: &str) -> (r: String)
    ensures
        r@ == "invalid port: "@ + shown@,
{
    let mut out = "invalid port: ".to_owned();
    text::push_str(&mut out, shown);
    out
}

/// The arguments seen so far.
pub struct Seen {
    /// The positional argument.
    pub host_port: Option<Seq<char>>,
    /// The value of `--pin`.
    pub pin: Option<Seq<char>>,
    /// The value of `--token-file`.
    pub token_path: Option<Seq<char>>,
    /// The value of `--name`.
    pub name: Option<Seq<char>>,
    /// Whether `--headless` was given.
    pub headless: bool,
}

/// No arguments.
pub open spec fn nothing_seen() -> Seen {
    Seen { host_port: None, pin: None, token_path: None, name: None, headless: false }
}

/// Whether an argument looks like an option.
pub open spec fn is_option(arg: Seq<char>) -> bool {
    arg.len() >= 2 && arg[0] == '-' && arg[1] == '-'
}

/// Why a token on the command line is refused.
pub open spec fn token_refusal() -> Seq<char> {
    "--token is not accepted: argv is readable by other processes on this machine (see /proc/<pid>/cmdline). Use --token-file <path> instead."@
}

/// What the arguments from `i` on say, after what was seen already.
pub open spec fn scan(args: Seq<Seq<char>>, i: int, seen: Seen) -> Result<Seen, Seq<char>>
    decreases args.len() - i,
{
    if i >= args.len() {
        Ok(seen)
    } else if args[i] == "--token"@ {
        Err(token_refusal())
    } else if args[i] == "--pin"@ {
        if i + 1 < args.len() {
            scan(args, i + 2, Seen { pin: Some(args[i + 1]), ..seen })
        } else {
            Err("--pin requires a value"@)
        }
    } else if args[i] == "--token-file"@ {
        if i + 1 < args.len() {
            scan(args, i + 2, Seen { token_path: Some(args[i + 1]), ..seen })
        } else {
            Err("--token-file requires a value"@)
        }
    } else if args[i] == "--name"@ {
        if i + 1 < args.len() {
            scan(args, i + 2, Seen { name: Some(args[i + 1]), ..seen })
        } else {
            Err("--name requires a value"@)
        }
    } else if args[i] == "--headless"@ {
        scan(args, i + 1, Seen { headless: true, ..seen })
    } else if is_option(args[i]) {
        Err("unknown argument: "@ + args[i])
    } else if seen.host_port is Some {
        Err("unexpected extra argument: "@ + args[i])
    } else {
        scan(args, i + 1, Seen { host_port: Some(args[i]), ..seen })
    }
}

/// Where the last colon of a text is, if it has one.
pub open spec fn last_colon(s: Seq<char>) -> Option<int>
    decreases s.len(),
{
    if s.len() == 0 {
        None
    } else if s.last() == ':' {
        Some(s.len() - 1)
    } else {
        last_colon(s.drop_last())
    }
}

/// What the arguments add up to.
pub open spec fn finish(seen: Seen) -> Result<CliView, Seq<char>> {
    match seen.host_port {
        None => Err("missing <host:port>"@),
        Some(host_port) => match last_colon(host_port) {
            None => Err("<host:port> must contain a ':'"@),
            Some(at) => {
                let host = host_port.take(at);
                let port = host_port.skip(at + 1);
                if host.len() == 0 {
                    Err("<host:port> is missing a host"@)
                } else if port_of(port) is None {
                    Err("invalid port: "@ + quoted(port))
                } else if seen.pin is None {
                    Err("missing --pin <spki-hex>"@)
                } else if seen.token_path is None {
                    Err("missing --token-file <path>"@)
                } else {
                    Ok(
                        CliView {
                            host,
                            port: port_of(port)->0,
                            pin: seen.pin->0,
                            token_path: seen.token_path->0,
                            name: match seen.name {
                                None => "oxclient"@,
                                Some(name) => name,
                            },
                            headless: seen.headless,
                        },
                    )
                }
            },
        },
    }
}

/// What a command line says.
pub open spec fn parsed(args: Seq<Seq<char>>) -> Result<CliView, Seq<char>> {
    match scan(args, 0, nothing_seen()) {
        Err(e) => Err(e),
        Ok(seen) => finish(seen),
    }
}

/// What some arguments hold.
pub open spec fn texts(args: Seq<String>) -> Seq<Seq<char>> {
    args.map_values(|s: String| s@)
}

/// Whether an argument is this word.
fn is_word(arg: &String, word: &str) -> (r: bool)
    ensures
        r == (arg@ == word@),
{
    *arg == word.to_owned()
}

/// Whether an argument looks like an option.
fn looks_like_option(arg: &String) -> (r: bool)
    ensures
        r == is_option(arg@),
{
    let s = arg.as_str();
    s.unicode_len() >= 2 && s.get_char(0) == '-' && s.get_char(1) == '-'
}

/// How much of what happens is logged.
#[derive(Debug, Clone, Copy, PartialEq, Eq)]
pub enum LogLevel {
    /// Nothing.
    Off,
    /// Errors.
    Error,
    /// Warnings too.
    Warn,
    /// What happens, too.
    Info,
    /// Details, too.
    Debug,
    /// Everything.
    Trace,
}

/// The level that a text asks for: warnings, unless it names another.
pub open spec fn level_of(asked: Option<Seq<char>>) -> LogLevel {
    if asked == Some("trace"@) {
        LogLevel::Trace
    } else if asked == Some("debug"@) {
        LogLevel::Debug
    } else if asked == Some("info"@) {
        LogLevel::Info
    } else if asked == Some("error"@) {
        LogLevel::Error
    } else if asked == Some("off"@) {
        LogLevel::Off
    } else {
        LogLevel::Warn
    }
}

/// The level that the environment asks for.
pub fn log_level(asked: &Option<String>) -> (r: LogLevel)
    ensures
        r == level_of(text_view(*asked)),
{
    proof {
        reveal_strlit("trace");
        reveal_strlit("debug");
        reveal_strlit("info");
        reveal_strlit("error");
        reveal_strlit("off");
    }
    match asked {
        None => LogLevel::Warn,
        Some(asked) => {
            if is_word(asked, "trace") {
                LogLevel::Trace
            } else if is_word(asked, "debug") {
                LogLevel::Debug
            } else if is_word(asked, "info") {
                LogLevel::Info
            } else if is_word(asked, "error") {
                LogLevel::Error
            } else if is_word(asked, "off") {
                LogLevel::Off
            } else {
                LogLevel::Warn
            }
        },
    }
}

/// Whether a text is the word "off", in whatever case.
pub open spec fn is_off(s: Seq<char>) -> bool {
    &&& s.len() == 3
    &&& s[0] == 'o' || s[0] == 'O'
    &&& s[1] == 'f' || s[1] == 'F'
    &&& s[2] == 'f' || s[2] == 'F'
}

/// Whether the environment asks for latency to be measured. It is off by default, because the
/// accounting keeps per-frame state and prints a block of numbers nobody asked for.
pub fn measures_latency(asked: &Option<String>) -> (r: bool)
    ensures
        r == (text_view(*asked) matches Some(s) && s != "0"@ && !is_off(s)),
{
    match asked {
        None => false,
        Some(asked) => {
            if is_word(asked, "0") {
                return false;
            }
            let s = asked.as_str();
            if s.unicode_len() != 3 {
                return true;
            }
            let (a, b, c): (char, char, char) = (s.get_char(0), s.get_char(1), s.get_char(2));
            !((a == 'o' || a == 'O') && (b == 'f' || b == 'F') && (c == 'f' || c == 'F'))
        },
    }
}

/// What an optional text holds.
pub open spec fn text_view(s: Option<String>) -> Option<Seq<char>> {
    match s {
        None => None,
        Some(s) => Some(s@),
    }
}

/// Where the last colon of a text is, if it has one.
fn find_last_colon(s: &str) -> (r: Option<usize>)
    ensures
        match r {
            None => last_colon(s@) is None,
            Some(at) => last_colon(s@) == Some(at as int) && at < s@.len(),
        },
{
    let len: usize = s.unicode_len();
    let mut end: usize = len;
    assert(s@.take(len as int) =~= s@);
    while end > 0
        invariant
            end <= len,
            len == s@.len(),
            last_colon(s@) == last_colon(s@.take(end as int)),
        decreases end,
    {
        let ghost head = s@.take(end as int);
        assert(head.drop_last() =~= s@.take(end - 1));
        if s.get_char(end - 1) == ':' {
            return Some(end - 1);
        }
        end = end - 1;
    }
    None
}

/// Parse the arguments behind the program's name, or give a human-readable error.
///
/// # Errors
///
/// A sentence that says what is wrong with the command line. The token must never travel through
/// the arguments: they are readable by every process of the same user, so a secret passed here is
/// effectively world-readable for the process lifetime. It is refused explicitly.
pub fn parse_args(args: &[String]) -> (r: Result<Cli, String>)
    ensures
        match r {
            Ok(cli) => parsed(texts(args@)) == Ok::<_, Seq<char>>(cli@),
            Err(e) => parsed(texts(args@)) == Err::<CliView, _>(e@),
        },
{
    let mut host_port: Option<String> = None;
    let mut pin: Option<String> = None;
    let mut token_path: Option<String> = None;
    let mut name: Option<String> = None;
    let mut headless = false;
    let ghost all = texts(args@);
    let len: usize = args.len();
    let mut i: usize = 0;
    while i < len
        invariant
            i <= len,
            len == args@.len(),
            all == texts(args@),
            scan(all, 0, nothing_seen()) == scan(
                all,
                i as int,
                Seen {
                    host_port: text_view(host_port),
                    pin: text_view(pin),
                    token_path: text_view(token_path),
                    name: text_view(name),
                    headless,
                },
            ),
        decreases len - i,
    {
        let arg = &args[i];
        assert(all[i as int] == arg@);
        if is_word(arg, "--token") {
            return Err(
                "--token is not accepted: argv is readable by other processes on this machine (see /proc/<pid>/cmdline). Use --token-file <path> instead.".to_owned(),
            );
        } else if is_word(arg, "--pin") {
            if len - i < 2 {
                return Err("--pin requires a value".to_owned());
            }
            assert(all[i + 1] == args@[i + 1]@);
            pin = Some(args[i + 1].clone());
            i = i + 2;
        } else if is_word(arg, "--token-file") {
            if len - i < 2 {
                return Err("--token-file requires a value".to_owned());
            }
            assert(all[i + 1] == args@[i + 1]@);
            token_path = Some(args[i + 1].clone());
            i = i + 2;
        } else if is_word(arg, "--name") {
            if len - i < 2 {
                return Err("--name requires a value".to_owned());
            }
            assert(all[i + 1] == args@[i + 1]@);
            name = Some(args[i + 1].clone());
            i = i + 2;
        } else if is_word(arg, "--headless") {
            headless = true;
            i = i + 1;
        } else if looks_like_option(arg) {
            let mut out = "unknown argument: ".to_owned();
            text::push_str(&mut out, arg.as_str());
            return Err(out);
        } else {
            if host_port.is_some() {
                let mut out = "unexpected extra argument: ".to_owned();
                text::push_str(&mut out, arg.as_str());
                return Err(out);
            }
            host_port = Some(arg.clone());
            i = i + 1;
        }
    }
    let host_port = match host_port {
        None => {
            return Err("missing <host:port>".to_owned());
        },
        Some(host_port) => host_port,
    };
    let whole = host_port.as_str();
    let at: usize = match find_last_colon(whole) {
        None => {
            return Err("<host:port> must contain a ':'".to_owned());
        },
        Some(at) => at,
    };
    let end: usize = whole.unicode_len();
    let host = whole.substring_char(0, at);
    let port = whole.substring_char(at + 1, end);
    assert(host@ =~= whole@.take(at as int));
    assert(port@ =~= whole@.skip(at + 1));
    if at == 0 {
        return Err("<host:port> is missing a host".to_owned());
    }
    let port: u16 = match parse_port(port) {
        None => {
            let shown = quote(port);
            return Err(invalid_port(shown.as_str()));
        },
        Some(port) => port,
    };
    let pin = match pin {
        None => {
            return Err("missing --pin <spki-hex>".to_owned());
        },
        Some(pin) => pin,
    };
    let token_path = match token_path {
        None => {
            return Err("missing --token-file <path>".to_owned());
        },
        Some(token_path) => token_path,
    };
    Ok(
        Cli {
            host: host.to_owned(),
            port,
            pin,
            token_path,
            name: match name {
                None => "oxclient".to_owned(),
                Some(name) => name,
            },
            headless,
        },
    )
}

/// A secret is never taken from the command line: wherever `--token` stands as an option, the
/// command line is refused.
pub proof fn law_tokens_on_the_command_line_are_refused(args: Seq<Seq<char>>, seen: Seen, i: int)
    requires
        0 <= i < args.len(),
        args[i] == "--token"@,
    ensures
        scan(args, i, seen) == Err::<Seen, _>(token_refusal()),
{
}

/// The number that some digits write is their value.
proof fn lemma_number_is_value(digits: Seq<char>)
    requires
        all_digits(digits),
    ensures
        number(digits) == text::value(digits, 10),
    decreases digits.len(),
{
    if digits.len() > 0 {
        let front = digits.drop_last();
        assert forall|i: int| 0 <= i < front.len() implies is_digit(#[trigger] front[i]) by {
            assert(front[i] == digits[i]);
        }
        lemma_number_is_value(front);
        assert(is_digit(digits[digits.len() - 1]));
    }
}

/// A port is a decimal number up to 65535, with or without a plus sign in front; nothing else is one.
pub proof fn law_ports_are_numbers(s: &str, digits: Seq<char>, r: Option<u16>)
    requires
        call_ensures(parse_port, (s,), r),
        s@ == digits && (digits.len() > 0 ==> digits[0] != '+') || s@ == seq!['+'] + digits,
    ensures
        r is Some <==> digits.len() > 0 && (forall|i: int|
            0 <= i < digits.len() ==> '0' <= #[trigger] digits[i] <= '9') && text::value(digits, 10)
            <= 65535,
        r matches Some(port) ==> port == text::value(digits, 10),
{
    if s@ == seq!['+'] + digits {
        assert(s@.skip(1) =~= digits);
    }
    assert(unsigned(s@) == digits);
    if all_digits(digits) {
        lemma_number_is_value(digits);
    } else {
        let i = choose|i: int| 0 <= i < digits.len() && !is_digit(#[trigger] digits[i]);
        assert(!('0' <= digits[i] <= '9'));
    }
    if forall|i: int| 0 <= i < digits.len() ==> '0' <= #[trigger] digits[i] <= '9' {
        assert(all_digits(digits));
    }
}

/// The last colon of a host and a port is the one between them.
proof fn lemma_last_colon(host: Seq<char>, port: Seq<char>)
    requires
        !port.contains(':'),
    ensures
        last_colon(host + seq![':'] + port) == Some(host.len() as int),
    decreases port.len(),
{
    let all = host + seq![':'] + port;
    if port.len() > 0 {
        let front = port.drop_last();
        assert(all.drop_last() =~= host + seq![':'] + front);
        assert(all.last() == port.last());
        assert(port.contains(port.last()));
        assert(!front.contains(':')) by {
            if front.contains(':') {
                let i = choose|i: int| 0 <= i < front.len() && front[i] == ':';
                assert(port[i] == ':');
            }
        }
        lemma_last_colon(host, front);
    } else {
        assert(all.last() == ':');
    }
}

/// The words that the command line knows are told apart.
proof fn lemma_words()
    ensures
        "--pin"@ != "--token"@,
        "--token-file"@ != "--token"@,
        "--token-file"@ != "--pin"@,
        "--name"@ != "--token"@,
        "--name"@ != "--pin"@,
        "--name"@ != "--token-file"@,
        "--headless"@ != "--token"@,
        "--headless"@ != "--pin"@,
        "--headless"@ != "--token-file"@,
        "--headless"@ != "--name"@,
        is_option("--token"@) && is_option("--pin"@) && is_option("--token-file"@) && is_option(
            "--name"@,
        ) && is_option("--headless"@),
{
    reveal_strlit("--token");
    reveal_strlit("--pin");
    reveal_strlit("--token-file");
    reveal_strlit("--name");
    reveal_strlit("--headless");
    assert("--pin"@.len() == 5);
    assert("--token"@.len() == 7);
    assert("--token-file"@.len() == 12);
    assert("--name"@.len() == 6);
    assert("--headless"@.len() == 10);
}

/// A command line with a host and a port, a pin and a token file says just that, whichever they are;
/// the name is `oxclient` unless it gives another, and there are windows unless it says `--headless`.
pub proof fn law_command_lines_say_what_they_give(
    args: &[String],
    host: Seq<char>,
    port: &str,
    number: u16,
    name: Option<Seq<char>>,
    headless: bool,
    r: Result<Cli, String>,
)
    requires
        call_ensures(parse_args, (args,), r),
        call_ensures(parse_port, (port,), Some(number)),
        !port@.contains(':'),
        host.len() > 0,
        !(host.len() >= 2 && host[0] == '-' && host[1] == '-'),
        host != seq!['-'],
        args@.len() >= 5,
        args@[0]@ == host + seq![':'] + port@,
        args@[1]@ == "--pin"@,
        args@[3]@ == "--token-file"@,
        match (name, headless) {
            (None, false) => args@.len() == 5,
            (None, true) => args@.len() == 6 && args@[5]@ == "--headless"@,
            (Some(n), false) => args@.len() == 7 && args@[5]@ == "--name"@ && args@[6]@ == n,
            (Some(n), true) => args@.len() == 8 && args@[5]@ == "--headless"@ && args@[6]@
                == "--name"@ && args@[7]@ == n,
        },
    ensures
        r matches Ok(cli) && cli.host@ == host && cli.port == number && cli.pin@ == args@[2]@
            && cli.token_path@ == args@[4]@ && cli.name@ == (match name {
            None => "oxclient"@,
            Some(n) => n,
        }) && cli.headless == headless,
{
    lemma_words();
    lemma_last_colon(host, port@);
    let all = texts(args@);
    let whole = args@[0]@;
    assert(all.len() == args@.len());
    assert forall|i: int| 0 <= i < all.len() implies #[trigger] all[i] == args@[i]@ by {}
    assert(whole[0] == host[0]);
    assert(whole[1] == (if host.len() > 1 {
        host[1]
    } else {
        ':'
    }));
    assert(!is_option(whole));
    assert(all[0] == whole && all[1] == "--pin"@ && all[3] == "--token-file"@);
    assert(whole.take(host.len() as int) =~= host);
    assert(whole.skip(host.len() as int + 1) =~= port@);
    let s1 = Seen { host_port: Some(whole), ..nothing_seen() };
    let s2 = Seen { pin: Some(all[2]), ..s1 };
    let s3 = Seen { token_path: Some(all[4]), ..s2 };
    assert(scan(all, 0, nothing_seen()) == scan(all, 1, s1));
    assert(scan(all, 1, s1) == scan(all, 3, s2));
    assert(scan(all, 3, s2) == scan(all, 5, s3));
    let end = Seen { name, headless, ..s3 };
    match (name, headless) {
        (None, false) => {
            assert(scan(all, 5, s3) == Ok::<Seen, Seq<char>>(end));
        },
        (None, true) => {
            assert(all[5] == "--headless"@);
            assert(scan(all, 5, s3) == scan(all, 6, end));
        },
        (Some(n), false) => {
            assert(all[5] == "--name"@ && all[6] == n);
            assert(scan(all, 5, s3) == scan(all, 7, end));
        },
        (Some(n), true) => {
            assert(all[5] == "--headless"@ && all[6] == "--name"@ && all[7] == n);
            let s4 = Seen { headless: true, ..s3 };
            assert(scan(all, 5, s3) == scan(all, 6, s4));
            assert(scan(all, 6, s4) == scan(all, 8, end));
        },
    }
    assert(scan(all, 0, nothing_seen()) == Ok::<Seen, Seq<char>>(end));
}

/// A command line that does not name a host, a pin and a token file is refused, and so is one that
/// hands over the token itself.
pub proof fn law_command_lines_need_their_parts(args: &[String], r: Result<Cli, String>)
    requires
        call_ensures(parse_args, (args,), r),
    ensures
        args@.len() < 5 ==> r is Err,
        args@.len() > 0 && args@[0]@ == "--token"@ ==> r is Err,
        r matches Ok(cli) ==> cli.host@.len() > 0,
{
    let all = texts(args@);
    assert(all.len() == args@.len());
    if args@.len() > 0 {
        assert(all[0] == args@[0]@);
    }
    if args@.len() < 5 {
        lemma_parts_seen(all, 0, nothing_seen());
    }
}

/// How many arguments it took to see this much.
spec fn parts(seen: Seen) -> int {
    (if seen.host_port is Some {
        1int
    } else {
        0
    }) + (if seen.pin is Some {
        2int
    } else {
        0
    }) + (if seen.token_path is Some {
        2int
    } else {
        0
    })
}

/// What is seen takes that many arguments.
proof fn lemma_parts_seen(args: Seq<Seq<char>>, i: int, seen: Seen)
    requires
        0 <= i,
        parts(seen) <= i,
    ensures
        scan(args, i, seen) matches Ok(end) ==> parts(end) <= args.len() || parts(end) <= i,
    decreases args.len() - i,
{
    if i < args.len() {
        if args[i] == "--token"@ {
        } else if args[i] == "--pin"@ {
            if i + 1 < args.len() {
                lemma_parts_seen(args, i + 2, Seen { pin: Some(args[i + 1]), ..seen });
            }
        } else if args[i] == "--token-file"@ {
            if i + 1 < args.len() {
                lemma_parts_seen(args, i + 2, Seen { token_path: Some(args[i + 1]), ..seen });
            }
        } else if args[i] == "--name"@ {
            if i + 1 < args.len() {
                lemma_parts_seen(args, i + 2, Seen { name: Some(args[i + 1]), ..seen });
            }
        } else if args[i] == "--headless"@ {
            lemma_parts_seen(args, i + 1, Seen { headless: true, ..seen });
        } else if !is_option(args[i]) && seen.host_port is None {
            lemma_parts_seen(args, i + 1, Seen { host_port: Some(args[i]), ..seen });
        }
    }
}

/// A level is asked for by its name, and warnings are logged where none is.
pub proof fn law_levels_are_named(asked: &Option<String>, r: LogLevel)
    requires
        call_ensures(log_level, (asked,), r),
    ensures
        r == LogLevel::Trace <==> (asked matches Some(s) && s@ == "trace"@),
        r == LogLevel::Debug <==> (asked matches Some(s) && s@ == "debug"@),
        r == LogLevel::Info <==> (asked matches Some(s) && s@ == "info"@),
        r == LogLevel::Error <==> (asked matches Some(s) && s@ == "error"@),
        r == LogLevel::Off <==> (asked matches Some(s) && s@ == "off"@),
{
    reveal_strlit("trace");
    reveal_strlit("debug");
    reveal_strlit("info");
    reveal_strlit("error");
    reveal_strlit("off");
    assert("trace"@[0] != "debug"@[0] && "trace"@[0] != "error"@[0] && "debug"@[0] != "error"@[0]);
    assert("trace"@.len() == 5 && "info"@.len() == 4 && "off"@.len() == 3);
}

/// Latency is measured where anything but `0` and `off`, in whatever case, asks for it.
pub proof fn law_latency_is_measured_on_demand(asked: &Option<String>, r: bool)
    requires
        call_ensures(measures_latency, (asked,), r),
    ensures
        asked is None ==> !r,
        asked matches Some(s) ==> (s@ == "0"@ ==> !r),
        asked matches Some(s) ==> (s@.len() != 3 && s@ != "0"@ ==> r),
        asked matches Some(s) ==> (s@.len() == 3 ==> (r <==> !((s@[0] == 'o' || s@[0] == 'O') && (
        s@[1] == 'f' || s@[1] == 'F') && (s@[2] == 'f' || s@[2] == 'F')))),
{
    reveal_strlit("0");
}

} // verus!
