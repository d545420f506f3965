//! What the client prints about a session without windows.

use std::collections::HashMap;

use vstd::prelude::*;

use crate::client::cli;
use crate::client::cli::quote;
use crate::client::event::{ClientEvent, ClientEventView};
use crate::proto::message::window::window_flag;
use crate::proto::message::{FrameData, WindowOpened, WindowOpenedView};
use crate::text;

verus! {

/// Every `n`th frame per window is printed, after the first. Otherwise a 30-60fps stream of
/// `RAW_BGRA` frames drowns the terminal in output within a second or two.
pub const FRAME_LOG_STRIDE: u64 = 60;

/// The name of a flag, if it is set.
pub open spec fn named(flags: u32, bit: u32, name: Seq<char>) -> Seq<Seq<char>> {
    if flags & bit != 0 {
        seq![name]
    } else {
        Seq::empty()
    }
}

/// The bits that have a name.
pub open spec fn known_flags() -> u32 {
    window_flag::RESIZABLE | window_flag::HAS_FRAME | window_flag::TOPMOST | window_flag::MINIMIZED
        | window_flag::MAXIMIZED
}

/// The names of the flags that are set, and what is left of them.
pub open spec fn flag_parts(flags: u32) -> Seq<Seq<char>> {
    named(flags, window_flag::RESIZABLE, "resizable"@) + named(
        flags,
        window_flag::HAS_FRAME,
        "has_frame"@,
    ) + named(flags, window_flag::TOPMOST, "topmost"@) + named(
        flags,
        window_flag::MINIMIZED,
        "minimized"@,
    ) + named(flags, window_flag::MAXIMIZED, "maximized"@) + (if flags & !known_flags() != 0 {
        seq!["unknown:"@ + text::hex((flags & !known_flags()) as nat)]
    } else {
        Seq::empty()
    })
}

/// The flags of a window in words.
pub open spec fn flags_text(flags: u32) -> Seq<char> {
    if flag_parts(flags).len() == 0 {
        "none"@
    } else {
        text::joined(flag_parts(flags), ","@)
    }
}

/// Adds the name of a flag, if it is set.
fn push_named(parts: &mut Vec<String>, flags: u32, bit: u32, name: &str)
    ensures
        cli::texts(final(parts)@) == cli::texts(old(parts)@) + named(flags, bit, name@),
{
    if flags & bit != 0 {
        parts.push(name.to_owned());
    }
    assert(cli::texts(parts@) =~= cli::texts(old(parts)@) + named(flags, bit, name@));
}

/// Render a `WindowOpened.flags` bitmask as the set of named flags it carries.
///
/// Unknown bits are reported as a residual hex value rather than dropped, so a client built
/// against an older protocol revision does not silently hide what a newer agent is saying.
pub fn describe_window_flags(flags: u32) -> (r: String)
    ensures
        r@ == flags_text(flags),
{
    let mut parts: Vec<String> = Vec::new();
    push_named(&mut parts, flags, window_flag::RESIZABLE, "resizable");
    push_named(&mut parts, flags, window_flag::HAS_FRAME, "has_frame");
    push_named(&mut parts, flags, window_flag::TOPMOST, "topmost");
    push_named(&mut parts, flags, window_flag::MINIMIZED, "minimized");
    push_named(&mut parts, flags, window_flag::MAXIMIZED, "maximized");
    let known: u32 = window_flag::RESIZABLE | window_flag::HAS_FRAME | window_flag::TOPMOST
        | window_flag::MINIMIZED | window_flag::MAXIMIZED;
    let residual: u32 = flags & !known;
    if residual != 0 {
        let mut rest = "unknown:".to_owned();
        text::push_hex(&mut rest, residual as u64);
        parts.push(rest);
    }
    assert(cli::texts(parts@) =~= flag_parts(flags));
    if parts.len() == 0 {
        "none".to_owned()
    } else {
        text::join(&parts, ",")
    }
}

/// A line to print, and where.
#[derive(Debug, Clone, PartialEq, Eq)]
pub enum Line {
    /// To standard output.
    Stdout(String),
    /// To standard error.
    Stderr(String),
}

/// What a [`Line`] holds.
pub enum LineView {
    /// See [`Line::Stdout`].
    Stdout(Seq<char>),
    /// See [`Line::Stderr`].
    Stderr(Seq<char>),
}

impl View for Line {
    type V = LineView;

    open spec fn view(&self) -> LineView {
        match self {
            Line::Stdout(s) => LineView::Stdout(s@),
            Line::Stderr(s) => LineView::Stderr(s@),
        }
    }
}

/// A number of either sign, in decimal.
pub open spec fn int_text(n: int) -> Seq<char> {
    text::signed(n)
}

/// A truth value in words.
pub open spec fn bool_text(b: bool) -> Seq<char> {
    if b {
        "true"@
    } else {
        "false"@
    }
}

fn push_bool(out: &mut String, b: bool)
    ensures
        final(out)@ == old(out)@ + bool_text(b),
{
    if b {
        text::push_str(out, "true");
    } else {
        text::push_str(out, "false");
    }
}

/// What is printed of a window that appeared, with its title shown in quotes. Flags are printed
/// by name rather than as a hex mask: the one thing worth reading off this line is whether the
/// agent thinks a window's caption is safe to crop, and that is invisible in a bare number.
pub open spec fn opened_text(w: WindowOpenedView, title: Seq<char>) -> Seq<char> {
    "window opened: id="@ + text::decimal(w.window_id as nat) + " app_id="@ + w.app_id + " title="@
        + title + " geometry="@ + text::decimal(w.width as nat) + "x"@ + text::decimal(
        w.height as nat,
    ) + "+"@ + int_text(w.x as int) + "+"@ + int_text(w.y as int) + " flags=["@ + flags_text(
        w.flags,
    ) + "]"@
}

/// What is printed of a window that appeared, with its title shown in quotes.
pub fn opened_line(w: &WindowOpened, title: &str) -> (r: String)
    ensures
        r@ == opened_text(w@, title@),
{
    let mut out = "window opened: id=".to_owned();
    text::push_decimal(&mut out, w.window_id as u64);
    text::push_str(&mut out, " app_id=");
    text::push_str(&mut out, w.app_id.as_str());
    text::push_str(&mut out, " title=");
    text::push_str(&mut out, title);
    text::push_str(&mut out, " geometry=");
    text::push_decimal(&mut out, w.width as u64);
    text::push_str(&mut out, "x");
    text::push_decimal(&mut out, w.height as u64);
    text::push_str(&mut out, "+");
    text::push_signed(&mut out, w.x as i64);
    text::push_str(&mut out, "+");
    text::push_signed(&mut out, w.y as i64);
    text::push_str(&mut out, " flags=[");
    let flags = describe_window_flags(w.flags);
    text::push_str(&mut out, flags.as_str());
    text::push_str(&mut out, "]");
    out
}

/// What is printed of a new title, shown in quotes.
pub open spec fn titled_text(window_id: u32, title: Seq<char>) -> Seq<char> {
    "window title: id="@ + text::decimal(window_id as nat) + " title="@ + title
}

/// What is printed of a new title, shown in quotes.
pub fn titled_line(window_id: u32, title: &str) -> (r: String)
    ensures
        r@ == titled_text(window_id, title@),
{
    let mut out = "window title: id=".to_owned();
    text::push_decimal(&mut out, window_id as u64);
    text::push_str(&mut out, " title=");
    text::push_str(&mut out, title);
    out
}

/// What is printed of a session that stands.
pub fn connected_line(version: u16, session_id: u64, codec: u8, features: u64) -> (r: String)
    ensures
        r@ == "oxclient: connected: protocol v"@ + text::decimal(version as nat) + " session="@
            + text::hex(session_id as nat) + " codec="@ + text::decimal(codec as nat)
            + " features="@ + text::hex(features as nat),
{
    let mut out = "oxclient: connected: protocol v".to_owned();
    text::push_decimal(&mut out, version as u64);
    text::push_str(&mut out, " session=");
    text::push_hex(&mut out, session_id);
    text::push_str(&mut out, " codec=");
    text::push_decimal(&mut out, codec as u64);
    text::push_str(&mut out, " features=");
    text::push_hex(&mut out, features);
    out
}

/// How many frames of a window have been counted after one more.
pub open spec fn counted(counts: Map<u32, u64>, window_id: u32) -> u64 {
    if !counts.contains_key(window_id) {
        1
    } else if counts[window_id] < u64::MAX {
        (counts[window_id] + 1) as u64
    } else {
        u64::MAX
    }
}

/// How many frames of each window have been counted after an event.
pub open spec fn counts_after(event: ClientEventView, counts: Map<u32, u64>) -> Map<u32, u64> {
    match event {
        ClientEventView::Frame(f) => counts.insert(f.window_id, counted(counts, f.window_id)),
        _ => counts,
    }
}

/// Whether the `n`th frame of a window is printed.
pub open spec fn is_printed(n: u64) -> bool {
    n == 1 || n % FRAME_LOG_STRIDE == 0
}

/// What is printed of an event.
pub open spec fn line_for(event: ClientEventView, counts: Map<u32, u64>) -> Option<LineView> {
    match event {
        ClientEventView::WindowOpened(w) => Some(
            LineView::Stdout(opened_text(w, cli::quoted(w.title))),
        ),
        ClientEventView::Frame(f) => if is_printed(counted(counts, f.window_id)) {
            Some(
                LineView::Stdout(
                    "frame: id="@ + text::decimal(f.frame_id as nat) + " window="@ + text::decimal(
                        f.window_id as nat,
                    ) + " codec="@ + text::decimal(f.codec as nat) + " bytes="@ + text::decimal(
                        f.data.len(),
                    ) + " keyframe="@ + bool_text(
                        f.flags & crate::proto::message::window::frame_flag::KEYFRAME != 0,
                    ),
                ),
            )
        } else {
            None
        },
        ClientEventView::WindowGeometry(g) => Some(
            LineView::Stdout(
                "window geometry: id="@ + text::decimal(g.window_id as nat) + " pos=("@ + int_text(
                    g.x as int,
                ) + ","@ + int_text(g.y as int) + ") size="@ + text::decimal(g.width as nat) + "x"@
                    + text::decimal(g.height as nat),
            ),
        ),
        ClientEventView::WindowTitle(t) => Some(
            LineView::Stdout(titled_text(t.window_id, cli::quoted(t.title))),
        ),
        ClientEventView::WindowState(s) => Some(
            LineView::Stdout(
                "window state: id="@ + text::decimal(s.window_id as nat) + " state="@
                    + text::decimal(s.state as nat) + " flags="@ + text::hex(s.flags as nat),
            ),
        ),
        ClientEventView::WindowZOrder(z) => Some(
            LineView::Stdout(
                "window z-order: id="@ + text::decimal(z.window_id as nat) + " above="@
                    + text::decimal(z.above_window_id as nat),
            ),
        ),
        ClientEventView::WindowIcon(i) => Some(
            LineView::Stdout(
                "window icon: id="@ + text::decimal(i.window_id as nat) + " size="@ + text::decimal(
                    i.width as nat,
                ) + "x"@ + text::decimal(i.height as nat) + " bytes="@ + text::decimal(
                    i.bgra.len(),
                ),
            ),
        ),
        ClientEventView::WindowClosed(c) => Some(
            LineView::Stdout("window closed: id="@ + text::decimal(c.window_id as nat)),
        ),
        ClientEventView::CursorShape(c) => Some(
            LineView::Stdout(
                "cursor shape: id="@ + text::decimal(c.cursor_id as nat) + " size="@
                    + text::decimal(c.width as nat) + "x"@ + text::decimal(c.height as nat)
                    + " hotspot=("@ + text::decimal(c.hotspot_x as nat) + ","@ + text::decimal(
                    c.hotspot_y as nat,
                ) + ")"@,
            ),
        ),
        ClientEventView::CursorPosition(p) => Some(
            LineView::Stdout(
                "cursor position: window="@ + text::decimal(p.window_id as nat) + " pos=("@
                    + int_text(p.x as int) + ","@ + int_text(p.y as int) + ")"@,
            ),
        ),
        ClientEventView::CursorVisibility(v) => Some(
            LineView::Stdout("cursor visibility: visible="@ + bool_text(v.visible)),
        ),
        ClientEventView::Error(e) => Some(
            LineView::Stderr(
                "oxclient: agent error "@ + text::decimal(e.code as nat) + ": "@ + e.message,
            ),
        ),
        ClientEventView::Closed(c) => Some(
            LineView::Stderr(
                "oxclient: agent closed the session (reason="@ + text::decimal(c.reason as nat)
                    + ")"@,
            ),
        ),
    }
}

/// Counts a frame of a window, and gives how many that makes.
fn count_frame(counts: &mut HashMap<u32, u64>, window_id: u32) -> (r: u64)
    ensures
        r == counted(old(counts)@, window_id),
        final(counts)@ == old(counts)@.insert(window_id, r),
{
    broadcast use vstd::std_specs::hash::group_hash_axioms;

    let n: u64 = match counts.get(&window_id) {
        None => 1,
        Some(n) => (*n).saturating_add(1),
    };
    counts.insert(window_id, n);
    n
}

/// What is printed of an event; frames are counted per window, so that only some are.
#[verifier::rlimit(40)]
pub fn describe_event(event: &ClientEvent, frame_counts: &mut HashMap<u32, u64>) -> (r: Option<
    Line,
>)
    ensures
        match r {
            None => line_for(event@, old(frame_counts)@) is None,
            Some(line) => line_for(event@, old(frame_counts)@) == Some(line@),
        },
        final(frame_counts)@ == counts_after(event@, old(frame_counts)@),
{
    match event {
        ClientEvent::WindowOpened(w) => {
            let title = quote(w.title.as_str());
            Some(Line::Stdout(opened_line(w, title.as_str())))
        },
        ClientEvent::Frame(f) => {
            let n: u64 = count_frame(frame_counts, f.window_id);
            if n == 1 || n % FRAME_LOG_STRIDE == 0 {
                let mut out = "frame: id=".to_owned();
                text::push_decimal(&mut out, f.frame_id);
                text::push_str(&mut out, " window=");
                text::push_decimal(&mut out, f.window_id as u64);
                text::push_str(&mut out, " codec=");
                text::push_decimal(&mut out, f.codec as u64);
                text::push_str(&mut out, " bytes=");
                text::push_decimal(&mut out, f.data.len() as u64);
                text::push_str(&mut out, " keyframe=");
                push_bool(&mut out, f.is_keyframe());
                Some(Line::Stdout(out))
            } else {
                None
            }
        },
        ClientEvent::WindowGeometry(g) => {
            let mut out = "window geometry: id=".to_owned();
            text::push_decimal(&mut out, g.window_id as u64);
            text::push_str(&mut out, " pos=(");
            text::push_signed(&mut out, g.x as i64);
            text::push_str(&mut out, ",");
            text::push_signed(&mut out, g.y as i64);
            text::push_str(&mut out, ") size=");
            text::push_decimal(&mut out, g.width as u64);
            text::push_str(&mut out, "x");
            text::push_decimal(&mut out, g.height as u64);
            Some(Line::Stdout(out))
        },
        ClientEvent::WindowTitle(t) => {
            let title = quote(t.title.as_str());
            Some(Line::Stdout(titled_line(t.window_id, title.as_str())))
        },
        ClientEvent::WindowState(s) => {
            let mut out = "window state: id=".to_owned();
            text::push_decimal(&mut out, s.window_id as u64);
            text::push_str(&mut out, " state=");
            text::push_decimal(&mut out, s.state as u64);
            text::push_str(&mut out, " flags=");
            text::push_hex(&mut out, s.flags as u64);
            Some(Line::Stdout(out))
        },
        ClientEvent::WindowZOrder(z) => {
            let mut out = "window z-order: id=".to_owned();
            text::push_decimal(&mut out, z.window_id as u64);
            text::push_str(&mut out, " above=");
            text::push_decimal(&mut out, z.above_window_id as u64);
            Some(Line::Stdout(out))
        },
        ClientEvent::WindowIcon(i) => {
            let mut out = "window icon: id=".to_owned();
            text::push_decimal(&mut out, i.window_id as u64);
            text::push_str(&mut out, " size=");
            text::push_decimal(&mut out, i.width as u64);
            text::push_str(&mut out, "x");
            text::push_decimal(&mut out, i.height as u64);
            text::push_str(&mut out, " bytes=");
            text::push_decimal(&mut out, i.bgra.len() as u64);
            Some(Line::Stdout(out))
        },
        ClientEvent::WindowClosed(c) => {
            let mut out = "window closed: id=".to_owned();
            text::push_decimal(&mut out, c.window_id as u64);
            Some(Line::Stdout(out))
        },
        ClientEvent::CursorShape(c) => {
            let mut out = "cursor shape: id=".to_owned();
            text::push_decimal(&mut out, c.cursor_id as u64);
            text::push_str(&mut out, " size=");
            text::push_decimal(&mut out, c.width as u64);
            text::push_str(&mut out, "x");
            text::push_decimal(&mut out, c.height as u64);
            text::push_str(&mut out, " hotspot=(");
            text::push_decimal(&mut out, c.hotspot_x as u64);
            text::push_str(&mut out, ",");
            text::push_decimal(&mut out, c.hotspot_y as u64);
            text::push_str(&mut out, ")");
            Some(Line::Stdout(out))
        },
        ClientEvent::CursorPosition(p) => {
            let mut out = "cursor position: window=".to_owned();
            text::push_decimal(&mut out, p.window_id as u64);
            text::push_str(&mut out, " pos=(");
            text::push_signed(&mut out, p.x as i64);
            text::push_str(&mut out, ",");
            text::push_signed(&mut out, p.y as i64);
            text::push_str(&mut out, ")");
            Some(Line::Stdout(out))
        },
        ClientEvent::CursorVisibility(v) => {
            let mut out = "cursor visibility: visible=".to_owned();
            push_bool(&mut out, v.visible);
            Some(Line::Stdout(out))
        },
        ClientEvent::Error(e) => {
            let mut out = "oxclient: agent error ".to_owned();
            text::push_decimal(&mut out, e.code as u64);
            text::push_str(&mut out, ": ");
            text::push_str(&mut out, e.message.as_str());
            Some(Line::Stderr(out))
        },
        ClientEvent::Closed(c) => {
            let mut out = "oxclient: agent closed the session (reason=".to_owned();
            text::push_decimal(&mut out, c.reason as u64);
            text::push_str(&mut out, ")");
            Some(Line::Stderr(out))
        },
    }
}

/// No flag is hidden: a window's flags are described as none only if there are none.
pub proof fn law_no_flag_is_hidden(flags: u32)
    ensures
        flag_parts(flags).len() == 0 <==> flags == 0,
{
    let known = known_flags();
    assert(flags & 1 == 0 && flags & 2 == 0 && flags & 4 == 0 && flags & 8 == 0 && flags & 0x10
        == 0 && flags & !known == 0 <==> flags == 0) by (bit_vector)
        requires
            known == 1u32 | 2u32 | 4u32 | 8u32 | 0x10u32,
    ;
}

/// The first frame of a window is printed and every sixtieth, and every frame is counted for its own
/// window.
pub proof fn law_every_sixtieth_frame_is_printed(f: FrameData)
    ensures
        forall|counts: &mut HashMap<u32, u64>, r: Option<Line>| #[trigger]
            call_ensures(describe_event, (&ClientEvent::Frame(f), counts), r) ==> {
                let n = if (*counts)@.contains_key(f.window_id) {
                    (*counts)@[f.window_id] as int
                } else {
                    0
                };
                n < 0xffff_ffff_ffff_ffff ==> {
                    &&& final(counts)@ == (*counts)@.insert(f.window_id, (n + 1) as u64)
                    &&& r is Some <==> n == 0 || (n + 1) % 60 == 0
                    &&& r matches Some(line) ==> (line matches Line::Stdout(s) && s@
                        == "frame: id="@ + text::decimal(f.frame_id as nat) + " window="@
                        + text::decimal(f.window_id as nat) + " codec="@ + text::decimal(
                        f.codec as nat,
                    ) + " bytes="@ + text::decimal(f.data@.len()) + " keyframe="@ + (if f.flags & 1
                        != 0 {
                        "true"@
                    } else {
                        "false"@
                    }))
                }
            },
{
}

/// Whether a line is what an event is printed as.
pub open spec fn is_line(event: ClientEvent, line: Line) -> bool {
    match event {
        ClientEvent::WindowGeometry(g) => line matches Line::Stdout(s) && s@
            == "window geometry: id="@ + text::decimal(g.window_id as nat) + " pos=("@
            + text::signed(g.x as int) + ","@ + text::signed(g.y as int) + ") size="@
            + text::decimal(g.width as nat) + "x"@ + text::decimal(g.height as nat),
        ClientEvent::WindowState(w) => line matches Line::Stdout(s) && s@ == "window state: id="@
            + text::decimal(w.window_id as nat) + " state="@ + text::decimal(w.state as nat)
            + " flags="@ + text::hex(w.flags as nat),
        ClientEvent::WindowZOrder(z) => line matches Line::Stdout(s) && s@
            == "window z-order: id="@ + text::decimal(z.window_id as nat) + " above="@
            + text::decimal(z.above_window_id as nat),
        ClientEvent::WindowIcon(i) => line matches Line::Stdout(s) && s@ == "window icon: id="@
            + text::decimal(i.window_id as nat) + " size="@ + text::decimal(i.width as nat) + "x"@
            + text::decimal(i.height as nat) + " bytes="@ + text::decimal(i.bgra@.len()),
        ClientEvent::WindowClosed(c) => line matches Line::Stdout(s) && s@
            == "window closed: id="@ + text::decimal(c.window_id as nat),
        ClientEvent::CursorShape(c) => line matches Line::Stdout(s) && s@ == "cursor shape: id="@
            + text::decimal(c.cursor_id as nat) + " size="@ + text::decimal(c.width as nat) + "x"@
            + text::decimal(c.height as nat) + " hotspot=("@ + text::decimal(c.hotspot_x as nat)
            + ","@ + text::decimal(c.hotspot_y as nat) + ")"@,
        ClientEvent::CursorPosition(p) => line matches Line::Stdout(s) && s@
            == "cursor position: window="@ + text::decimal(p.window_id as nat) + " pos=("@
            + text::signed(p.x as int) + ","@ + text::signed(p.y as int) + ")"@,
        ClientEvent::CursorVisibility(v) => line matches Line::Stdout(s) && s@
            == "cursor visibility: visible="@ + (if v.visible {
            "true"@
        } else {
            "false"@
        }),
        ClientEvent::Error(e) => line matches Line::Stderr(s) && s@ == "oxclient: agent error "@
            + text::decimal(e.code as nat) + ": "@ + e.message@,
        ClientEvent::Closed(c) => line matches Line::Stderr(s) && s@
            == "oxclient: agent closed the session (reason="@ + text::decimal(c.reason as nat)
            + ")"@,
        _ => true,
    }
}

/// An event other than a frame is printed with what it carries: errors and the end of a session to
/// standard error, the rest to standard output. Nothing is counted.
pub proof fn law_events_are_printed(event: ClientEvent)
    requires
        !(event is Frame),
    ensures
        forall|counts: &mut HashMap<u32, u64>, r: Option<Line>| #[trigger]
            call_ensures(describe_event, (&event, counts), r) ==> {
                &&& r matches Some(line)
                &&& is_line(event, line)
                &&& final(counts)@ == (*counts)@
            },
{
}

/// The flags of a window are printed by name in the order of their bits, what has no name in
/// hexadecimal behind them, and none where there are none.
pub proof fn law_flags_are_printed_by_name(flags: u32, parts: Vec<String>, joined: String, r: String)
    requires
        call_ensures(describe_window_flags, (flags,), r),
        call_ensures(text::join, (&parts, ","), joined),
        cli::texts(parts@) == (if flags & 1 != 0 {
            seq!["resizable"@]
        } else {
            seq![]
        }) + (if flags & 2 != 0 {
            seq!["has_frame"@]
        } else {
            seq![]
        }) + (if flags & 4 != 0 {
            seq!["topmost"@]
        } else {
            seq![]
        }) + (if flags & 8 != 0 {
            seq!["minimized"@]
        } else {
            seq![]
        }) + (if flags & 0x10 != 0 {
            seq!["maximized"@]
        } else {
            seq![]
        }) + (if flags >= 0x20 {
            seq!["unknown:"@ + text::hex((flags - flags % 0x20) as nat)]
        } else {
            seq![]
        }),
    ensures
        flags != 0 ==> r@ == joined@,
        flags == 0 ==> r@ == "none"@,
{
    assert((1u32 | 2 | 4 | 8 | 0x10) == 0x1f) by (bit_vector);
    assert(flags & !0x1fu32 == flags - flags % 0x20) by (bit_vector);
    assert(flags != 0 ==> flags & 1 != 0 || flags & 2 != 0 || flags & 4 != 0 || flags & 8 != 0
        || flags & 0x10 != 0 || flags >= 0x20) by (bit_vector);
    assert(flags == 0 ==> flags & 1 == 0 && flags & 2 == 0 && flags & 4 == 0 && flags & 8 == 0
        && flags & 0x10 == 0) by (bit_vector);
    assert(cli::texts(parts@) =~= flag_parts(flags));
    assert(parts@.map_values(|s: String| s@) =~= flag_parts(flags));
}

/// A window that appears and a new title are printed with the title in quotes, and a session that
/// stands with what was agreed on.
pub proof fn law_windows_and_sessions_are_printed(
    w: &WindowOpened,
    flags: String,
    title: &str,
    window_id: u32,
    version: u16,
    session_id: u64,
    codec: u8,
    features: u64,
    opened: String,
    titled: String,
    connected: String,
)
    requires
        call_ensures(describe_window_flags, (w.flags,), flags),
        call_ensures(opened_line, (w, title), opened),
        call_ensures(titled_line, (window_id, title), titled),
        call_ensures(connected_line, (version, session_id, codec, features), connected),
    ensures
        opened@ == "window opened: id="@ + text::decimal(w.window_id as nat) + " app_id="@
            + w.app_id@ + " title="@ + title@ + " geometry="@ + text::decimal(w.width as nat) + "x"@
            + text::decimal(w.height as nat) + "+"@ + text::signed(w.x as int) + "+"@
            + text::signed(w.y as int) + " flags=["@ + flags@ + "]"@,
        titled@ == "window title: id="@ + text::decimal(window_id as nat) + " title="@ + title@,
        connected@ == "oxclient: connected: protocol v"@ + text::decimal(version as nat)
            + " session="@ + text::hex(session_id as nat) + " codec="@ + text::decimal(codec as nat)
            + " features="@ + text::hex(features as nat),
{
}

} // verus!
