//! Pixel formats that native windowing wants otherwise than the protocol has them.

use vstd::prelude::*;

use crate::proto::message::input::cursor_format;
use crate::proto::message::CursorShape;

verus! {

/// The bytes of a picture with four bytes for each pixel.
pub open spec fn payload_len(width: u16, height: u16) -> nat {
    (width as nat) * (height as nat) * 4
}

/// Whether `out` holds, pixel for pixel, what `convert` makes of the pixels of `data`.
pub open spec fn converted(
    data: Seq<u8>,
    out: Seq<u8>,
    convert: spec_fn(u8, u8, u8, u8) -> (u8, u8, u8, u8),
) -> bool {
    &&& out.len() == data.len()
    &&& forall|i: int|
        0 <= 4 * i < data.len() ==> #[trigger] pixel(out, i) == convert(
            pixel(data, i).0,
            pixel(data, i).1,
            pixel(data, i).2,
            pixel(data, i).3,
        )
}

/// The four bytes of pixel `i`.
pub open spec fn pixel(data: Seq<u8>, i: int) -> (u8, u8, u8, u8) {
    (data[4 * i], data[4 * i + 1], data[4 * i + 2], data[4 * i + 3])
}

/// The bytes of a picture as the machine counts them, or `None` where it cannot.
pub fn frame_len(width: u16, height: u16) -> (r: Option<usize>)
    ensures
        match r {
            Some(len) => len == payload_len(width, height),
            None => payload_len(width, height) > usize::MAX,
        },
{
    match (width as usize).checked_mul(height as usize) {
        None => {
            assert(payload_len(width, height) > usize::MAX);
            None
        },
        Some(pixels) => pixels.checked_mul(4),
    }
}

/// Straight-alpha BGRA to RGBA, as icons need it. `None` if the payload does not fit the
/// geometry.
pub fn bgra_to_rgba(data: &[u8], width: u16, height: u16) -> (r: Option<Vec<u8>>)
    ensures
        r is Some <==> data@.len() == payload_len(width, height),
        r matches Some(out) ==> converted(
            data@,
            out@,
            |b: u8, g: u8, r: u8, a: u8| (r, g, b, a),
        ),
{
    let len: usize = data.len();
    let expected: usize = match frame_len(width, height) {
        None => {
            return None;
        },
        Some(expected) => expected,
    };
    if len != expected {
        return None;
    }
    let mut out: Vec<u8> = Vec::new();
    let mut at: usize = 0;
    while at < data.len()
        invariant
            at <= data@.len(),
            at == out@.len(),
            at % 4 == 0,
            data@.len() % 4 == 0,
            forall|i: int|
                0 <= 4 * i < at ==> #[trigger] pixel(out@, i) == (
                    pixel(data@, i).2,
                    pixel(data@, i).1,
                    pixel(data@, i).0,
                    pixel(data@, i).3,
                ),
        decreases data.len() - at,
    {
        let ghost before = out@;
        out.push(data[at + 2]);
        out.push(data[at + 1]);
        out.push(data[at]);
        out.push(data[at + 3]);
        assert forall|i: int| 0 <= 4 * i < at + 4 implies #[trigger] pixel(out@, i) == (
            pixel(data@, i).2,
            pixel(data@, i).1,
            pixel(data@, i).0,
            pixel(data@, i).3,
        ) by {
            if 4 * i < at {
                assert(pixel(out@, i) == pixel(before, i));
            }
        }
        at = at + 4;
    }
    Some(out)
}

/// What a channel that alpha was multiplied into was before: as near as a byte tells. A channel
/// brighter than its alpha is no such product and is left at full.
pub open spec fn straight(channel: u8, alpha: u8) -> u8 {
    if alpha == 0 {
        0
    } else if channel >= alpha {
        255
    } else {
        (channel as nat * 255 / alpha as nat) as u8
    }
}

/// Takes alpha out of a channel that it was multiplied into.
pub fn unpremul(channel: u8, alpha: u8) -> (r: u8)
    ensures
        r == straight(channel, alpha),
{
    if alpha == 0 {
        0
    } else {
        let value: u16 = (channel as u16 * 255) / alpha as u16;
        proof {
            let (c, a) = (channel as int, alpha as int);
            assert(c >= a ==> c * 255 / a >= 255) by (nonlinear_arith)
                requires
                    a > 0,
            ;
            assert(c < a ==> c * 255 / a <= 255) by (nonlinear_arith)
                requires
                    a > 0,
            ;
        }
        if value >= 255 {
            255
        } else {
            value as u8
        }
    }
}

/// Premultiplied BGRA to straight-alpha RGBA, as cursors need it. `None` if the payload does not
/// fit the geometry.
pub fn bgra_premul_to_rgba(data: &[u8], width: u16, height: u16) -> (r: Option<Vec<u8>>)
    ensures
        r is Some <==> data@.len() == payload_len(width, height),
        r matches Some(out) ==> converted(
            data@,
            out@,
            |b: u8, g: u8, r: u8, a: u8|
                (straight(r, a), straight(g, a), straight(b, a), a),
        ),
{
    let len: usize = data.len();
    let expected: usize = match frame_len(width, height) {
        None => {
            return None;
        },
        Some(expected) => expected,
    };
    if len != expected {
        return None;
    }
    let mut out: Vec<u8> = Vec::new();
    let mut at: usize = 0;
    while at < data.len()
        invariant
            at <= data@.len(),
            at == out@.len(),
            at % 4 == 0,
            data@.len() % 4 == 0,
            forall|i: int|
                0 <= 4 * i < at ==> #[trigger] pixel(out@, i) == (
                    straight(pixel(data@, i).2, pixel(data@, i).3),
                    straight(pixel(data@, i).1, pixel(data@, i).3),
                    straight(pixel(data@, i).0, pixel(data@, i).3),
                    pixel(data@, i).3,
                ),
        decreases data.len() - at,
    {
        let ghost before = out@;
        let alpha: u8 = data[at + 3];
        out.push(unpremul(data[at + 2], alpha));
        out.push(unpremul(data[at + 1], alpha));
        out.push(unpremul(data[at], alpha));
        out.push(alpha);
        assert forall|i: int| 0 <= 4 * i < at + 4 implies #[trigger] pixel(out@, i) == (
            straight(pixel(data@, i).2, pixel(data@, i).3),
            straight(pixel(data@, i).1, pixel(data@, i).3),
            straight(pixel(data@, i).0, pixel(data@, i).3),
            pixel(data@, i).3,
        ) by {
            if 4 * i < at {
                assert(pixel(out@, i) == pixel(before, i));
            }
        }
        at = at + 4;
    }
    Some(out)
}

/// The bitmap of a cursor, as native cursors need it. `None` if it is in another format than
/// premultiplied BGRA, or does not fit its geometry.
pub fn cursor_rgba(shape: &CursorShape) -> (r: Option<Vec<u8>>)
    ensures
        r is Some <==> shape.format == cursor_format::BGRA_PREMUL && shape@.data.len()
            == payload_len(shape.width, shape.height),
        r matches Some(out) ==> converted(
            shape@.data,
            out@,
            |b: u8, g: u8, r: u8, a: u8|
                (straight(r, a), straight(g, a), straight(b, a), a),
        ),
{
    if shape.format != cursor_format::BGRA_PREMUL {
        return None;
    }
    bgra_premul_to_rgba(shape.data.as_slice(), shape.width, shape.height)
}

/// Taking alpha out undoes multiplying it in as far as a byte allows: multiplying it back in
/// gives the channel again, or one less.
pub proof fn law_unpremul_undoes_premul(channel: u8, alpha: u8)
    requires
        0 < alpha,
        channel <= alpha,
    ensures
        ({
            let back = straight(channel, alpha) as int * alpha as int / 255;
            channel - 1 <= back <= channel
        }),
{
    let (c, a) = (channel as int, alpha as int);
    let s = straight(channel, alpha) as int;
    if channel == alpha {
        assert(255 * a / 255 == a);
    } else {
        assert(0 <= c * 255 / a <= 255) by (nonlinear_arith)
            requires
                0 <= c < a,
        ;
        assert(s * a <= c * 255 && c * 255 < s * a + a) by (nonlinear_arith)
            requires
                a > 0,
                s == c * 255 / a,
        ;
    }
}

/// Icons come out with blue and red swapped, pixel for pixel, if there are four bytes for each pixel.
pub proof fn law_icons_swap_blue_and_red(
    data: &[u8],
    width: u16,
    height: u16,
    r: Option<Vec<u8>>,
    i: int,
)
    requires
        call_ensures(bgra_to_rgba, (data, width, height), r),
    ensures
        r is Some <==> data@.len() == 4 * (width * height),
        r matches Some(out) ==> out@.len() == data@.len() && (0 <= 4 * i < data@.len() ==> out@[4
            * i] == data@[4 * i + 2] && out@[4 * i + 1] == data@[4 * i + 1] && out@[4 * i + 2]
            == data@[4 * i] && out@[4 * i + 3] == data@[4 * i + 3]),
{
    if r is Some && 0 <= 4 * i < data@.len() {
        let out = r->0@;
        assert(pixel(out, i) == (
            pixel(data@, i).2,
            pixel(data@, i).1,
            pixel(data@, i).0,
            pixel(data@, i).3,
        ));
    }
}

/// Taking alpha out divides it out of a channel, rounding down. Nothing shows through full
/// transparency, and nothing is brighter than full.
pub proof fn law_alpha_is_divided_out(channel: u8, alpha: u8, r: u8)
    requires
        call_ensures(unpremul, (channel, alpha), r),
    ensures
        alpha == 0 ==> r == 0,
        alpha > 0 && channel >= alpha ==> r == 255,
        channel < alpha ==> r * alpha <= channel * 255 < r * alpha + alpha,
        alpha == 255 ==> r == channel,
{
    let (c, a) = (channel as int, alpha as int);
    if 0 <= c < a {
        let s = c * 255 / a;
        assert(0 <= s <= 255) by (nonlinear_arith)
            requires
                0 <= c < a,
                s == c * 255 / a,
        ;
        assert(s * a <= c * 255 && c * 255 < s * a + a) by (nonlinear_arith)
            requires
                a > 0,
                s == c * 255 / a,
        ;
    }
    assert(c * 255 / 255 == c);
}

/// Cursors come out with blue and red swapped and alpha taken out of each, pixel for pixel, if they are
/// premultiplied and have four bytes for each pixel.
pub proof fn law_cursors_lose_their_alpha(
    shape: &CursorShape,
    r: Option<Vec<u8>>,
    i: int,
    blue: u8,
    green: u8,
    red: u8,
)
    requires
        call_ensures(cursor_rgba, (shape,), r),
        0 <= 4 * i < shape.data@.len(),
        call_ensures(unpremul, (shape.data@[4 * i], shape.data@[4 * i + 3]), blue),
        call_ensures(unpremul, (shape.data@[4 * i + 1], shape.data@[4 * i + 3]), green),
        call_ensures(unpremul, (shape.data@[4 * i + 2], shape.data@[4 * i + 3]), red),
    ensures
        r is Some <==> shape.format == 1 && shape.data@.len() == 4 * (shape.width * shape.height),
        r matches Some(out) ==> out@.len() == shape.data@.len() && out@[4 * i] == red && out@[4 * i
            + 1] == green && out@[4 * i + 2] == blue && out@[4 * i + 3] == shape.data@[4 * i + 3],
{
    if r is Some {
        let (data, out) = (shape.data@, r->0@);
        assert(pixel(out, i) == (
            straight(pixel(data, i).2, pixel(data, i).3),
            straight(pixel(data, i).1, pixel(data, i).3),
            straight(pixel(data, i).0, pixel(data, i).3),
            pixel(data, i).3,
        ));
    }
}

/// A picture has four bytes for each pixel.
pub proof fn law_pixels_have_four_bytes(width: u16, height: u16, r: Option<usize>)
    requires
        call_ensures(frame_len, (width, height), r),
    ensures
        r matches Some(len) ==> len == 4 * (width * height),
        r is None ==> 4 * (width * height) > usize::MAX,
{
}

} // verus!
