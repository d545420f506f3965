//! I420 to BGRA conversion.
//!
//! Every decoder that produces planar YUV (the software H.264 decoder today, a hardware decoder
//! later) converts through this module, so there is exactly one place where the colour matrix
//! and the output byte order are decided.
//!
//! **Output layout.** Tightly packed `B, G, R, A` bytes, top-down, `width * 4` bytes per row.
//! That is `codec::RAW_BGRA`, which the CPU presenter copies as it is because it is
//! byte-identical to a `0x00RRGGBB` `u32` on a little-endian host. Changing the byte order here
//! silently costs a per-frame swizzle in the presenter, so don't.

use vstd::prelude::*;
use wide::i32x8;

verus! {

/// Borrowed I420 planes plus the geometry needed to walk them.
#[derive(Debug, Clone, Copy)]
pub struct I420Planes<'a> {
    /// Luma plane.
    pub y: &'a [u8],
    /// Blue-difference chroma plane, half resolution in both axes.
    pub u: &'a [u8],
    /// Red-difference chroma plane, half resolution in both axes.
    pub v: &'a [u8],
    /// Picture width in pixels.
    pub width: usize,
    /// Picture height in pixels.
    pub height: usize,
    /// Bytes per row of `y`; may exceed `width` (decoders pad to macroblock multiples).
    pub y_stride: usize,
    /// Bytes per row of `u`.
    pub u_stride: usize,
    /// Bytes per row of `v`.
    pub v_stride: usize,
}

// BT.601 limited ("video") range, the inverse of the forward matrix every H.264 encoder in this
// pipeline uses when it has no VUI saying otherwise, in Q16 fixed point:
//
//   R = 1.164 * (Y - 16)                        + 1.596 * (V - 128)
//   G = 1.164 * (Y - 16) - 0.391 * (U - 128)    - 0.813 * (V - 128)
//   B = 1.164 * (Y - 16) + 2.018 * (U - 128)
//
// Fixed point so the conversion is bit-reproducible across machines: a rendering difference
// between two clients must never be attributable to the FPU.

/// 255/219.
pub const Y_SCALE: i32 = 76_309;

/// 255/224 * 1.402.
pub const R_V: i32 = 104_597;

/// -255/224 * 1.772 * 0.114/0.587.
pub const G_U: i32 = -25_675;

/// -255/224 * 1.402 * 0.299/0.587.
pub const G_V: i32 = -53_279;

/// 255/224 * 1.772.
pub const B_U: i32 = 132_201;

/// One half in Q16.
pub const HALF: i32 = 32_768;

/// A Q16 value rounded to the nearest byte.
pub open spec fn to_byte(q16: int) -> u8 {
    let value = (q16 + HALF) / 65536;
    if value < 0 {
        0
    } else if value > 255 {
        255
    } else {
        value as u8
    }
}

/// The four bytes of a pixel: blue, green, red, opaque.
pub open spec fn pixel(y: u8, u: u8, v: u8) -> Seq<u8> {
    let luma = Y_SCALE * (y - 16);
    seq![
        to_byte(luma + B_U * (u - 128)),
        to_byte(luma + G_U * (u - 128) + G_V * (v - 128)),
        to_byte(luma + R_V * (v - 128)),
        0xffu8,
    ]
}

/// Pixels `from` to `to` of a row: two luma samples share one chroma sample.
pub open spec fn row(luma: Seq<u8>, cb: Seq<u8>, cr: Seq<u8>, from: int, to: int) -> Seq<u8>
    decreases to - from,
{
    if from >= to {
        Seq::empty()
    } else {
        row(luma, cb, cr, from, to - 1) + pixel(luma[to - 1], cb[(to - 1) / 2], cr[(to - 1) / 2])
    }
}

/// Whether `after` is `before` with the pixels of one whole row behind it.
pub open spec fn appends_row(
    before: Seq<u8>,
    luma: Seq<u8>,
    cb: Seq<u8>,
    cr: Seq<u8>,
    after: Seq<u8>,
) -> bool {
    after == before + row(luma, cb, cr, 0, luma.len() as int)
}

/// How many chroma samples cover `n` luma samples.
pub open spec fn halved(n: int) -> int {
    n / 2 + n % 2
}

/// Whether a plane holds `rows` rows of `row_bytes` bytes. The last row needs only its bytes, not
/// a full stride: decoders are entitled to hand back a buffer that stops at the end of the final
/// row of real samples.
pub open spec fn fits(plane: Seq<u8>, rows: int, stride: int, row_bytes: int) -> bool {
    rows >= 1 && plane.len() >= (rows - 1) * stride + row_bytes
}

/// What some [`I420Planes`] hold.
pub struct PlanesView {
    /// See [`I420Planes::y`].
    pub y: Seq<u8>,
    /// See [`I420Planes::u`].
    pub u: Seq<u8>,
    /// See [`I420Planes::v`].
    pub v: Seq<u8>,
    /// See [`I420Planes::width`].
    pub width: usize,
    /// See [`I420Planes::height`].
    pub height: usize,
    /// See [`I420Planes::y_stride`].
    pub y_stride: usize,
    /// See [`I420Planes::u_stride`].
    pub u_stride: usize,
    /// See [`I420Planes::v_stride`].
    pub v_stride: usize,
}

impl<'a> View for I420Planes<'a> {
    type V = PlanesView;

    open spec fn view(&self) -> PlanesView {
        PlanesView {
            y: self.y@,
            u: self.u@,
            v: self.v@,
            width: self.width,
            height: self.height,
            y_stride: self.y_stride,
            u_stride: self.u_stride,
            v_stride: self.v_stride,
        }
    }
}

impl PlanesView {
    /// Whether the planes are long enough for the declared geometry.
    pub open spec fn addressable(self) -> bool {
        let chroma_width = halved(self.width as int);
        let chroma_height = halved(self.height as int);
        &&& self.width > 0
        &&& self.height > 0
        &&& self.y_stride >= self.width
        &&& self.u_stride >= chroma_width
        &&& self.v_stride >= chroma_width
        &&& fits(self.y, self.height as int, self.y_stride as int, self.width as int)
        &&& fits(self.u, chroma_height, self.u_stride as int, chroma_width)
        &&& fits(self.v, chroma_height, self.v_stride as int, chroma_width)
    }

    /// The pixel in column `x` of row `r`.
    pub open spec fn pixel_at(self, r: int, x: int) -> Seq<u8> {
        pixel(
            self.y[r * self.y_stride + x],
            self.u[(r / 2) * self.u_stride + x / 2],
            self.v[(r / 2) * self.v_stride + x / 2],
        )
    }

    /// The first `n` rows of the picture.
    pub open spec fn rows(self, n: nat) -> Seq<u8>
        decreases n,
    {
        if n == 0 {
            Seq::empty()
        } else {
            let r = n - 1;
            let w = halved(self.width as int);
            self.rows(r as nat) + row(
                self.y.subrange(r * self.y_stride, r * self.y_stride + self.width),
                self.u.subrange((r / 2) * self.u_stride, (r / 2) * self.u_stride + w),
                self.v.subrange((r / 2) * self.v_stride, (r / 2) * self.v_stride + w),
                0,
                self.width as int,
            )
        }
    }
}

impl<'a> I420Planes<'a> {
    /// Whether the planes are long enough for the declared geometry.
    fn is_addressable(&self) -> (r: bool)
        ensures
            r == self@.addressable(),
    {
        if self.width == 0 || self.height == 0 {
            return false;
        }
        let chroma_width: usize = self.width / 2 + self.width % 2;
        let chroma_height: usize = self.height / 2 + self.height % 2;
        if self.y_stride < self.width || self.u_stride < chroma_width || self.v_stride
            < chroma_width {
            return false;
        }
        plane_fits(self.y, self.height, self.y_stride, self.width) && plane_fits(
            self.u,
            chroma_height,
            self.u_stride,
            chroma_width,
        ) && plane_fits(self.v, chroma_height, self.v_stride, chroma_width)
    }
}

fn plane_fits(plane: &[u8], rows: usize, stride: usize, row_bytes: usize) -> (r: bool)
    ensures
        r == fits(plane@, rows as int, stride as int, row_bytes as int),
{
    let len: usize = plane.len();
    if rows == 0 {
        return false;
    }
    match (rows - 1).checked_mul(stride) {
        None => false,
        Some(offset) => match offset.checked_add(row_bytes) {
            None => false,
            Some(needed) => len >= needed,
        },
    }
}

/// Converts an I420 picture to tightly packed BGRA.
///
/// Returns `None` if the planes are shorter than the declared geometry requires, which is the
/// one thing a caller cannot check for itself when the planes come out of a C decoder.
pub fn i420_to_bgra(planes: I420Planes<'_>) -> (r: Option<Vec<u8>>)
    ensures
        r is Some <==> planes@.addressable() && planes.width * planes.height * 4 <= usize::MAX,
        r matches Some(bgra) ==> {
            &&& bgra@ == planes@.rows(planes.height as nat)
            &&& bgra@.len() == planes.width * planes.height * 4
            &&& forall|y: int, x: int|
                0 <= y < planes.height && 0 <= x < planes.width ==> bgra@.subrange(
                    (y * planes.width + x) * 4,
                    (y * planes.width + x) * 4 + 4,
                ) == #[trigger] planes@.pixel_at(y, x)
        },
{
    if !planes.is_addressable() {
        return None;
    }
    let pixels: usize = match planes.width.checked_mul(planes.height) {
        None => {
            proof {
                lemma_too_large(planes.width as int, planes.height as int);
            }
            return None;
        },
        Some(pixels) => pixels,
    };
    if pixels.checked_mul(4).is_none() {
        return None;
    }
    let bgra = convert_picture(planes);
    proof {
        let n = planes.height as nat;
        lemma_rows_len(planes@, n);
        assert forall|y: int, x: int|
            0 <= y < planes.height && 0 <= x < planes.width implies bgra@.subrange(
            (y * planes.width + x) * 4,
            (y * planes.width + x) * 4 + 4,
        ) == #[trigger] planes@.pixel_at(y, x) by {
            lemma_rows_pixel(planes@, n, y, x);
        }
    }
    Some(bgra)
}

/// Converts a whole picture, eight pixels at a time.
fn convert_picture(planes: I420Planes<'_>) -> (out: Vec<u8>)
    requires
        planes@.addressable(),
    ensures
        out@ == planes@.rows(planes.height as nat),
{
    let chroma_width: usize = planes.width / 2 + planes.width % 2;
    let mut out: Vec<u8> = Vec::new();
    let mut r: usize = 0;
    while r < planes.height
        invariant
            planes@.addressable(),
            chroma_width == halved(planes.width as int),
            r <= planes.height,
            out@ == planes@.rows(r as nat),
        decreases planes.height - r,
    {
        let (y_len, u_len, v_len): (usize, usize, usize) = (
            planes.y.len(),
            planes.u.len(),
            planes.v.len(),
        );
        proof {
            lemma_row_in_plane(
                y_len as int,
                planes.height as int,
                planes.y_stride as int,
                planes.width as int,
                r as int,
            );
            lemma_row_in_plane(
                u_len as int,
                halved(planes.height as int),
                planes.u_stride as int,
                chroma_width as int,
                r as int / 2,
            );
            lemma_row_in_plane(
                v_len as int,
                halved(planes.height as int),
                planes.v_stride as int,
                chroma_width as int,
                r as int / 2,
            );
        }
        let luma = vstd::slice::slice_subrange(
            planes.y,
            r * planes.y_stride,
            r * planes.y_stride + planes.width,
        );
        let cb = vstd::slice::slice_subrange(
            planes.u,
            (r / 2) * planes.u_stride,
            (r / 2) * planes.u_stride + chroma_width,
        );
        let cr = vstd::slice::slice_subrange(
            planes.v,
            (r / 2) * planes.v_stride,
            (r / 2) * planes.v_stride + chroma_width,
        );
        convert_row_vector(luma, cb, cr, &mut out);
        r = r + 1;
    }
    out
}

/// A row lies within a plane that fits.
proof fn lemma_row_in_plane(len: int, rows: int, stride: int, row_bytes: int, r: int)
    by (nonlinear_arith)
    requires
        0 <= r < rows,
        0 <= row_bytes <= stride,
        len >= (rows - 1) * stride + row_bytes,
    ensures
        0 <= r * stride,
        r * stride + row_bytes <= len,
{
}

/// What is too large without a factor of four is too large with it.
proof fn lemma_too_large(w: int, h: int)
    by (nonlinear_arith)
    requires
        w * h > usize::MAX,
    ensures
        w * h * 4 > usize::MAX,
{
}

/// The length of a row.
proof fn lemma_row_len(luma: Seq<u8>, cb: Seq<u8>, cr: Seq<u8>, from: int, to: int)
    requires
        from <= to,
    ensures
        row(luma, cb, cr, from, to).len() == (to - from) * 4,
    decreases to - from,
{
    if from < to {
        lemma_row_len(luma, cb, cr, from, to - 1);
    }
}

/// Where a pixel is in its row.
proof fn lemma_row_pixel(luma: Seq<u8>, cb: Seq<u8>, cr: Seq<u8>, to: int, x: int)
    requires
        0 <= x < to,
    ensures
        row(luma, cb, cr, 0, to).len() == to * 4,
        row(luma, cb, cr, 0, to).subrange(x * 4, x * 4 + 4) == pixel(
            luma[x],
            cb[x / 2],
            cr[x / 2],
        ),
    decreases to,
{
    lemma_row_len(luma, cb, cr, 0, to);
    lemma_row_len(luma, cb, cr, 0, to - 1);
    let init = row(luma, cb, cr, 0, to - 1);
    let all = row(luma, cb, cr, 0, to);
    if x == to - 1 {
        assert(all.subrange(x * 4, x * 4 + 4) =~= pixel(luma[x], cb[x / 2], cr[x / 2]));
    } else {
        lemma_row_pixel(luma, cb, cr, to - 1, x);
        assert(all.subrange(x * 4, x * 4 + 4) =~= init.subrange(x * 4, x * 4 + 4));
    }
}

/// Two stretches of a row, one behind the other.
proof fn lemma_row_split(luma: Seq<u8>, cb: Seq<u8>, cr: Seq<u8>, from: int, mid: int, to: int)
    requires
        from <= mid <= to,
    ensures
        row(luma, cb, cr, from, to) == row(luma, cb, cr, from, mid) + row(luma, cb, cr, mid, to),
    decreases to - mid,
{
    if mid < to {
        lemma_row_split(luma, cb, cr, from, mid, to - 1);
        assert(row(luma, cb, cr, from, to) =~= row(luma, cb, cr, from, mid) + row(
            luma,
            cb,
            cr,
            mid,
            to,
        ));
    } else {
        assert(row(luma, cb, cr, from, to) =~= row(luma, cb, cr, from, mid) + row(
            luma,
            cb,
            cr,
            mid,
            to,
        ));
    }
}

/// The samples of row `r` in the planes, as [`PlanesView::rows`] takes them.
#[verifier::spinoff_prover]
proof fn lemma_row_of(planes: PlanesView, r: int, x: int)
    requires
        planes.addressable(),
        0 <= r < planes.height,
        0 <= x < planes.width,
    ensures
        ({
            let w = halved(planes.width as int);
            let luma = planes.y.subrange(
                r * planes.y_stride,
                r * planes.y_stride + planes.width,
            );
            let cb = planes.u.subrange((r / 2) * planes.u_stride, (r / 2) * planes.u_stride + w);
            let cr = planes.v.subrange((r / 2) * planes.v_stride, (r / 2) * planes.v_stride + w);
            &&& row(luma, cb, cr, 0, planes.width as int).len() == planes.width * 4
            &&& row(luma, cb, cr, 0, planes.width as int).subrange(x * 4, x * 4 + 4)
                == planes.pixel_at(r, x)
        }),
{
    let w = planes.width as int;
    let c = halved(w);
    lemma_row_in_plane(planes.y.len() as int, planes.height as int, planes.y_stride as int, w, r);
    lemma_row_in_plane(
        planes.u.len() as int,
        halved(planes.height as int),
        planes.u_stride as int,
        c,
        r / 2,
    );
    lemma_row_in_plane(
        planes.v.len() as int,
        halved(planes.height as int),
        planes.v_stride as int,
        c,
        r / 2,
    );
    lemma_row_at(
        planes,
        r * planes.y_stride,
        (r / 2) * planes.u_stride,
        (r / 2) * planes.v_stride,
        w,
        x,
    );
}

/// A row of samples that starts somewhere in each of the planes.
proof fn lemma_row_at(planes: PlanesView, y: int, u: int, v: int, w: int, x: int)
    requires
        0 <= y <= y + w <= planes.y.len(),
        0 <= u <= u + halved(w) <= planes.u.len(),
        0 <= v <= v + halved(w) <= planes.v.len(),
        0 <= x < w,
    ensures
        ({
            let all = row(
                planes.y.subrange(y, y + w),
                planes.u.subrange(u, u + halved(w)),
                planes.v.subrange(v, v + halved(w)),
                0,
                w,
            );
            &&& all.len() == w * 4
            &&& all.subrange(x * 4, x * 4 + 4) == pixel(
                planes.y[y + x],
                planes.u[u + x / 2],
                planes.v[v + x / 2],
            )
        }),
{
    lemma_row_pixel(
        planes.y.subrange(y, y + w),
        planes.u.subrange(u, u + halved(w)),
        planes.v.subrange(v, v + halved(w)),
        w,
        x,
    );
}

/// The length of the first rows.
proof fn lemma_rows_len(planes: PlanesView, n: nat)
    requires
        planes.addressable(),
        n <= planes.height,
    ensures
        planes.rows(n).len() == planes.width * n * 4,
    decreases n,
{
    if n > 0 {
        let w = planes.width as int;
        lemma_rows_len(planes, (n - 1) as nat);
        lemma_row_of(planes, n - 1, 0);
        assert(w * n * 4 == w * (n - 1) * 4 + w * 4) by (nonlinear_arith);
    } else {
        assert(planes.width * n * 4 == 0) by (nonlinear_arith)
            requires
                n == 0,
        ;
    }
}

/// Where a pixel is in the first rows.
proof fn lemma_rows_pixel(planes: PlanesView, n: nat, y: int, x: int)
    requires
        planes.addressable(),
        0 <= y < n <= planes.height,
        0 <= x < planes.width,
    ensures
        planes.rows(n).subrange(
            (y * planes.width + x) * 4,
            (y * planes.width + x) * 4 + 4,
        ) == planes.pixel_at(y, x),
    decreases n,
{
    let w = planes.width as int;
    let r = n - 1;
    let init = planes.rows(r as nat);
    let all = planes.rows(n);
    let at = (y * w + x) * 4;
    lemma_rows_len(planes, r as nat);
    lemma_rows_len(planes, n);
    lemma_row_of(planes, r, x);
    if y == r {
        assert(at == w * r * 4 + x * 4) by (nonlinear_arith)
            requires
                at == (y * w + x) * 4,
                y == r,
        ;
        let last = all.subrange(init.len() as int, all.len() as int);
        let c = halved(w);
        assert(last =~= row(
            planes.y.subrange(r * planes.y_stride, r * planes.y_stride + planes.width),
            planes.u.subrange((r / 2) * planes.u_stride, (r / 2) * planes.u_stride + c),
            planes.v.subrange((r / 2) * planes.v_stride, (r / 2) * planes.v_stride + c),
            0,
            w,
        ));
        assert(all.subrange(at, at + 4) =~= last.subrange(x * 4, x * 4 + 4));
    } else {
        assert(0 <= at && at + 4 <= w * r * 4) by (nonlinear_arith)
            requires
                at == (y * w + x) * 4,
                0 <= y < r,
                0 <= x < w,
        ;
        lemma_rows_pixel(planes, r as nat, y, x);
        assert(all.subrange(at, at + 4) =~= init.subrange(at, at + 4));
    }
}

/// The SIMD vector of eight signed 32-bit lanes.
#[verifier::external_type_specification]
#[verifier::external_body]
pub struct ExI32x8(i32x8);

/// The lanes of a vector, in order.
pub uninterp spec fn lanes(v: i32x8) -> Seq<i32>;

/// Builds a vector through `i32x8`'s `From<[i32; 8]>`.
///
/// Trusted: lane `i` is element `i` of the array.
#[verifier::external_body]
fn pack(a: [i32; 8]) -> (r: i32x8)
    ensures
        lanes(r) == a@,
{
    i32x8::from(a)
}

/// Takes a vector apart through `i32x8::to_array`.
///
/// Trusted: element `i` of the array is lane `i`.
#[verifier::external_body]
fn unpack(v: i32x8) -> (r: [i32; 8])
    ensures
        r@ == lanes(v),
{
    v.to_array()
}

/// Adds lane by lane through `i32x8`'s `Add`.
///
/// Trusted: each lane is the sum of the two lanes, wrapped to 32 bits.
#[verifier::external_body]
fn add_lanes(a: i32x8, b: i32x8) -> (r: i32x8)
    ensures
        lanes(r).len() == 8,
        forall|i: int|
            0 <= i < 8 ==> #[trigger] lanes(r)[i] == lanes(a)[i].wrapping_add(lanes(b)[i]),
{
    a + b
}

/// Multiplies lane by lane through `i32x8`'s `Mul`.
///
/// Trusted: each lane is the product of the two lanes, wrapped to 32 bits.
#[verifier::external_body]
fn mul_lanes(a: i32x8, b: i32x8) -> (r: i32x8)
    ensures
        lanes(r).len() == 8,
        forall|i: int|
            0 <= i < 8 ==> #[trigger] lanes(r)[i] == lanes(a)[i].wrapping_mul(lanes(b)[i]),
{
    a * b
}

/// Shifts every lane right through `i32x8`'s `Shr<i32>`.
///
/// Trusted: for a shift below the lane width, each lane is shifted with its sign.
#[verifier::external_body]
fn shr_lanes(a: i32x8, n: i32) -> (r: i32x8)
    requires
        0 <= n < 32,
    ensures
        lanes(r).len() == 8,
        forall|i: int| 0 <= i < 8 ==> #[trigger] lanes(r)[i] == lanes(a)[i] >> n,
{
    a >> n
}

/// Takes the larger of two lanes through `i32x8::max`.
///
/// Trusted: each lane is the larger of the two lanes as signed integers.
#[verifier::external_body]
fn max_lanes(a: i32x8, b: i32x8) -> (r: i32x8)
    ensures
        lanes(r).len() == 8,
        forall|i: int|
            0 <= i < 8 ==> #[trigger] lanes(r)[i] == (if lanes(a)[i] > lanes(b)[i] {
                lanes(a)[i]
            } else {
                lanes(b)[i]
            }),
{
    a.max(b)
}

/// Takes the smaller of two lanes through `i32x8::min`.
///
/// Trusted: each lane is the smaller of the two lanes as signed integers.
#[verifier::external_body]
fn min_lanes(a: i32x8, b: i32x8) -> (r: i32x8)
    ensures
        lanes(r).len() == 8,
        forall|i: int|
            0 <= i < 8 ==> #[trigger] lanes(r)[i] == (if lanes(a)[i] < lanes(b)[i] {
                lanes(a)[i]
            } else {
                lanes(b)[i]
            }),
{
    a.min(b)
}

/// A right shift by sixteen is a division that rounds down.
proof fn lemma_shift(x: i32)
    ensures
        x >> 16i32 == x as int / 65536,
{
    assert(x >> 16i32 == x / 65536) by (bit_vector);
}

/// A product that fits is not wrapped.
proof fn lemma_mul_fits(a: i32, b: i32)
    requires
        i32::MIN <= a * b <= i32::MAX,
    ensures
        a.wrapping_mul(b) == a * b,
{
}

/// Appends one pixel, from its luma sample and the three chroma-dependent terms.
fn write_pixel(out: &mut Vec<u8>, luma: u8, blue: i32, green: i32, red: i32)
    requires
        -20_000_000 <= blue <= 20_000_000,
        -20_000_000 <= green <= 20_000_000,
        -20_000_000 <= red <= 20_000_000,
    ensures
        final(out)@ == old(out)@ + seq![
            to_byte(Y_SCALE * (luma - 16) + blue),
            to_byte(Y_SCALE * (luma - 16) + green),
            to_byte(Y_SCALE * (luma - 16) + red),
            0xffu8,
        ],
{
    let luma: i32 = Y_SCALE * (luma as i32 - 16);
    out.push(clamp_u8(luma + blue));
    out.push(clamp_u8(luma + green));
    out.push(clamp_u8(luma + red));
    // Opaque. The presenter's target ignores its top byte, and the RAW_BGRA frames the agent
    // already sends carry 0xFF here.
    out.push(0xff);
    assert(out@ =~= old(out)@ + seq![
        to_byte(luma + blue),
        to_byte(luma + green),
        to_byte(luma + red),
        0xffu8,
    ]);
}

fn clamp_u8(q16: i32) -> (r: u8)
    requires
        -100_000_000 <= q16 <= 100_000_000,
    ensures
        r == to_byte(q16 as int),
{
    let value: i32 = (q16 + HALF) >> 16;
    proof {
        lemma_shift((q16 + HALF) as i32);
    }
    if value < 0 {
        0
    } else if value > 255 {
        255
    } else {
        value as u8
    }
}

/// The three chroma-dependent terms, computed once per chroma sample.
fn chroma_offsets(cb: u8, cr: u8) -> (r: (i32, i32, i32))
    ensures
        r.0 == B_U * (cb - 128),
        r.1 == G_U * (cb - 128) + G_V * (cr - 128),
        r.2 == R_V * (cr - 128),
        -20_000_000 <= r.0 <= 20_000_000,
        -20_000_000 <= r.1 <= 20_000_000,
        -20_000_000 <= r.2 <= 20_000_000,
{
    let cb: i32 = cb as i32 - 128;
    let cr: i32 = cr as i32 - 128;
    (B_U * cb, G_U * cb + G_V * cr, R_V * cr)
}

/// Appends one row, scalar: the reference implementation and the fallback.
///
/// This is what the vector path agrees with, and it is a complete implementation rather than an
/// odd-pixel helper. Written pairwise because 4:2:0 is pairwise: two luma samples share one
/// chroma sample, so the three chroma-dependent products are computed once per two pixels.
pub fn convert_row(luma: &[u8], cb: &[u8], cr: &[u8], out: &mut Vec<u8>)
    requires
        cb@.len() >= halved(luma@.len() as int),
        cr@.len() >= halved(luma@.len() as int),
    ensures
        appends_row(old(out)@, luma@, cb@, cr@, final(out)@),
{
    convert_from(luma, cb, cr, 0, out);
}

/// Appends the pixels of a row from an even column on.
fn convert_from(luma: &[u8], cb: &[u8], cr: &[u8], from: usize, out: &mut Vec<u8>)
    requires
        from % 2 == 0,
        from <= luma@.len(),
        cb@.len() >= halved(luma@.len() as int),
        cr@.len() >= halved(luma@.len() as int),
    ensures
        final(out)@ == old(out)@ + row(luma@, cb@, cr@, from as int, luma@.len() as int),
{
    let mut x: usize = from;
    assert(out@ =~= old(out)@ + row(luma@, cb@, cr@, from as int, from as int));
    while x < luma.len() && luma.len() - x >= 2
        invariant
            from <= x <= luma@.len(),
            x % 2 == 0,
            cb@.len() >= halved(luma@.len() as int),
            cr@.len() >= halved(luma@.len() as int),
            out@ == old(out)@ + row(luma@, cb@, cr@, from as int, x as int),
        decreases luma.len() - x,
    {
        let (blue, green, red) = chroma_offsets(cb[x / 2], cr[x / 2]);
        write_pixel(out, luma[x], blue, green, red);
        write_pixel(out, luma[x + 1], blue, green, red);
        proof {
            let x = x as int;
            let f = from as int;
            let one = row(luma@, cb@, cr@, f, x + 1);
            let two = row(luma@, cb@, cr@, f, x + 2);
            assert((x + 1) / 2 == x / 2);
            assert(one == row(luma@, cb@, cr@, f, x) + pixel(luma@[x], cb@[x / 2], cr@[x / 2]));
            assert(two == one + pixel(luma@[x + 1], cb@[x / 2], cr@[x / 2]));
            assert(out@ =~= old(out)@ + two);
        }
        x = x + 2;
    }
    // An odd width leaves one pixel, which shares the last chroma column with the pixel before
    // it. This is the case that a "vector width divides the row" assumption gets wrong.
    if x < luma.len() {
        let (blue, green, red) = chroma_offsets(cb[x / 2], cr[x / 2]);
        write_pixel(out, luma[x], blue, green, red);
        assert(out@ =~= old(out)@ + row(luma@, cb@, cr@, from as int, x + 1));
    }
}

/// A sample less its zero point, times a coefficient, in every lane.
fn scaled(samples: [i32; 8], coefficient: i32) -> (r: i32x8)
    requires
        forall|i: int| 0 <= i < 8 ==> -255 <= #[trigger] samples@[i] <= 255,
        -140_000 <= coefficient <= 140_000,
    ensures
        lanes(r).len() == 8,
        forall|i: int| 0 <= i < 8 ==> #[trigger] lanes(r)[i] == samples@[i] * coefficient,
        forall|i: int| 0 <= i < 8 ==> -35_700_000 <= #[trigger] lanes(r)[i] <= 35_700_000,
{
    let r = mul_lanes(
        pack(samples),
        pack(
            [
                coefficient,
                coefficient,
                coefficient,
                coefficient,
                coefficient,
                coefficient,
                coefficient,
                coefficient,
            ],
        ),
    );
    assert forall|i: int| 0 <= i < 8 implies #[trigger] lanes(r)[i] == samples@[i] * coefficient
        && -35_700_000 <= lanes(r)[i] <= 35_700_000 by {
        let a = samples@[i];
        assert(-35_700_000 <= a * coefficient <= 35_700_000) by (nonlinear_arith)
            requires
                -255 <= a <= 255,
                -140_000 <= coefficient <= 140_000,
        ;
        lemma_mul_fits(a, coefficient);
    }
    r
}

/// The sum of two vectors whose lanes stay small.
fn sum(a: i32x8, b: i32x8) -> (r: i32x8)
    requires
        lanes(a).len() == 8,
        lanes(b).len() == 8,
        forall|i: int| 0 <= i < 8 ==> -80_000_000 <= #[trigger] lanes(a)[i] <= 80_000_000,
        forall|i: int| 0 <= i < 8 ==> -40_000_000 <= #[trigger] lanes(b)[i] <= 40_000_000,
    ensures
        lanes(r).len() == 8,
        forall|i: int| 0 <= i < 8 ==> #[trigger] lanes(r)[i] == lanes(a)[i] + lanes(b)[i],
{
    add_lanes(a, b)
}

/// Every lane rounded to the nearest byte.
fn rounded(q16: i32x8) -> (r: [i32; 8])
    requires
        lanes(q16).len() == 8,
        forall|i: int| 0 <= i < 8 ==> -80_000_000 * 2 <= #[trigger] lanes(q16)[i] <= 80_000_000 * 2,
    ensures
        forall|i: int| 0 <= i < 8 ==> #[trigger] r@[i] == to_byte(lanes(q16)[i] as int),
{
    let half = pack([HALF, HALF, HALF, HALF, HALF, HALF, HALF, HALF]);
    let shifted = shr_lanes(add_lanes(q16, half), 16);
    let floor = pack([0, 0, 0, 0, 0, 0, 0, 0]);
    let ceiling = pack([255, 255, 255, 255, 255, 255, 255, 255]);
    let r = unpack(min_lanes(max_lanes(shifted, floor), ceiling));
    assert forall|i: int| 0 <= i < 8 implies #[trigger] r@[i] == to_byte(
        lanes(q16)[i] as int,
    ) by {
        assert(lanes(half)[i] == HALF);
        assert(lanes(floor)[i] == 0);
        assert(lanes(ceiling)[i] == 255);
        lemma_shift((lanes(q16)[i] + HALF) as i32);
        assert(lanes(shifted)[i] == (lanes(q16)[i] + HALF) as i32 >> 16i32);
    }
    r
}

/// Eight luma samples, less their zero point.
fn luma_octet(luma: &[u8], x: usize) -> (r: [i32; 8])
    requires
        x + 8 <= luma@.len(),
    ensures
        forall|i: int| 0 <= i < 8 ==> #[trigger] r@[i] == luma@[x + i] - 16,
{
    [
        luma[x] as i32 - 16,
        luma[x + 1] as i32 - 16,
        luma[x + 2] as i32 - 16,
        luma[x + 3] as i32 - 16,
        luma[x + 4] as i32 - 16,
        luma[x + 5] as i32 - 16,
        luma[x + 6] as i32 - 16,
        luma[x + 7] as i32 - 16,
    ]
}

/// Four chroma samples, less their zero point. Each covers two pixels, so it occupies two lanes.
fn chroma_octet(plane: &[u8], c: usize) -> (r: [i32; 8])
    requires
        c + 4 <= plane@.len(),
    ensures
        forall|i: int| 0 <= i < 8 ==> #[trigger] r@[i] == plane@[c + i / 2] - 128,
{
    [
        plane[c] as i32 - 128,
        plane[c] as i32 - 128,
        plane[c + 1] as i32 - 128,
        plane[c + 1] as i32 - 128,
        plane[c + 2] as i32 - 128,
        plane[c + 2] as i32 - 128,
        plane[c + 3] as i32 - 128,
        plane[c + 3] as i32 - 128,
    ]
}

/// The blue, green and red of eight pixels.
fn convert_octet(luma: &[u8], cb: &[u8], cr: &[u8], x: usize) -> (r: (
    [i32; 8],
    [i32; 8],
    [i32; 8],
))
    requires
        x % 8 == 0,
        x + 8 <= luma@.len(),
        cb@.len() >= halved(luma@.len() as int),
        cr@.len() >= halved(luma@.len() as int),
    ensures
        forall|i: int|
            0 <= i < 8 ==> seq![
                #[trigger] r.0@[i] as u8,
                r.1@[i] as u8,
                r.2@[i] as u8,
                0xffu8,
            ] == pixel(luma@[x + i], cb@[(x + i) / 2], cr@[(x + i) / 2]),
{
    let samples = luma_octet(luma, x);
    let u = chroma_octet(cb, x / 2);
    let v = chroma_octet(cr, x / 2);
    let y = scaled(samples, Y_SCALE);
    let u_blue = scaled(u, B_U);
    let u_green = scaled(u, G_U);
    let v_green = scaled(v, G_V);
    let v_red = scaled(v, R_V);
    let y_green = sum(y, u_green);
    let blue = rounded(sum(y, u_blue));
    let green = rounded(sum(y_green, v_green));
    let red = rounded(sum(y, v_red));
    assert forall|i: int| 0 <= i < 8 implies seq![
        #[trigger] blue@[i] as u8,
        green@[i] as u8,
        red@[i] as u8,
        0xffu8,
    ] == pixel(luma@[x + i], cb@[(x + i) / 2], cr@[(x + i) / 2]) by {
        assert((x + i) / 2 == x / 2 + i / 2);
        assert(lanes(y)[i] == Y_SCALE * (luma@[x + i] - 16));
        assert(lanes(u_blue)[i] == B_U * (cb@[(x + i) / 2] - 128));
        assert(lanes(u_green)[i] == G_U * (cb@[(x + i) / 2] - 128));
        assert(lanes(v_green)[i] == G_V * (cr@[(x + i) / 2] - 128));
        assert(lanes(v_red)[i] == R_V * (cr@[(x + i) / 2] - 128));
        assert(green@[i] == to_byte(lanes(y_green)[i] + lanes(v_green)[i]));
        assert(red@[i] == to_byte(lanes(y)[i] + lanes(v_red)[i]));
    }
    (blue, green, red)
}

/// The bytes of the first `n` of eight pixels, whose channels stand apart.
spec fn octet(blue: Seq<i32>, green: Seq<i32>, red: Seq<i32>, n: nat) -> Seq<u8>
    decreases n,
{
    if n == 0 {
        Seq::empty()
    } else {
        octet(blue, green, red, (n - 1) as nat) + seq![
            blue[n - 1] as u8,
            green[n - 1] as u8,
            red[n - 1] as u8,
            0xffu8,
        ]
    }
}

/// Appends eight pixels, whose channels stand apart.
fn push_octet(out: &mut Vec<u8>, blue: &[i32; 8], green: &[i32; 8], red: &[i32; 8])
    ensures
        final(out)@ == old(out)@ + octet(blue@, green@, red@, 8),
{
    let mut lane: usize = 0;
    assert(out@ =~= old(out)@ + octet(blue@, green@, red@, 0));
    while lane < 8
        invariant
            lane <= 8,
            out@ == old(out)@ + octet(blue@, green@, red@, lane as nat),
        decreases 8 - lane,
    {
        out.push(blue[lane] as u8);
        out.push(green[lane] as u8);
        out.push(red[lane] as u8);
        out.push(0xff);
        lane = lane + 1;
        assert(out@ =~= old(out)@ + octet(blue@, green@, red@, lane as nat));
    }
}

/// A row grows by eight pixels at once.
proof fn lemma_row_octet(
    luma: Seq<u8>,
    cb: Seq<u8>,
    cr: Seq<u8>,
    x: int,
    blue: Seq<i32>,
    green: Seq<i32>,
    red: Seq<i32>,
    n: nat,
)
    requires
        0 <= x,
        n <= 8,
        forall|i: int|
            0 <= i < 8 ==> seq![#[trigger] blue[i] as u8, green[i] as u8, red[i] as u8, 0xffu8]
                == pixel(luma[x + i], cb[(x + i) / 2], cr[(x + i) / 2]),
    ensures
        row(luma, cb, cr, 0, x + n) == row(luma, cb, cr, 0, x) + octet(blue, green, red, n),
    decreases n,
{
    if n == 0 {
        assert(row(luma, cb, cr, 0, x) + octet(blue, green, red, 0) =~= row(luma, cb, cr, 0, x));
    } else {
        let i = n - 1;
        lemma_row_octet(luma, cb, cr, x, blue, green, red, i as nat);
        let last = seq![blue[i] as u8, green[i] as u8, red[i] as u8, 0xffu8];
        assert(row(luma, cb, cr, 0, x) + (octet(blue, green, red, i as nat) + last) =~= row(
            luma,
            cb,
            cr,
            0,
            x + i,
        ) + last);
    }
}

/// Appends one row, eight pixels per step: eight luma samples against four chroma samples.
///
/// The arithmetic is the same Q16 fixed point as [`convert_row`], lane for lane, so the output is
/// **bit-identical** to the scalar reference rather than merely close, which keeps a frame from
/// looking different on two machines.
pub fn convert_row_vector(luma: &[u8], cb: &[u8], cr: &[u8], out: &mut Vec<u8>)
    requires
        cb@.len() >= halved(luma@.len() as int),
        cr@.len() >= halved(luma@.len() as int),
    ensures
        appends_row(old(out)@, luma@, cb@, cr@, final(out)@),
{
    let mut x: usize = 0;
    assert(out@ =~= old(out)@ + row(luma@, cb@, cr@, 0, 0));
    while x < luma.len() && luma.len() - x >= 8
        invariant
            x <= luma@.len(),
            x % 8 == 0,
            cb@.len() >= halved(luma@.len() as int),
            cr@.len() >= halved(luma@.len() as int),
            out@ == old(out)@ + row(luma@, cb@, cr@, 0, x as int),
        decreases luma.len() - x,
    {
        let (blue, green, red) = convert_octet(luma, cb, cr, x);
        push_octet(out, &blue, &green, &red);
        proof {
            lemma_row_octet(luma@, cb@, cr@, x as int, blue@, green@, red@, 8);
            assert(out@ =~= old(out)@ + row(luma@, cb@, cr@, 0, x + 8));
        }
        x = x + 8;
    }
    // Whatever is left of the row (up to seven pixels, and possibly an odd one) goes through the
    // scalar reference.
    if x < luma.len() {
        let ghost before = out@;
        convert_from(luma, cb, cr, x, out);
        proof {
            lemma_row_split(luma@, cb@, cr@, 0, x as int, luma@.len() as int);
            assert(out@ =~= old(out)@ + row(luma@, cb@, cr@, 0, luma@.len() as int));
        }
    }
}

/// Pixel `i` of a row behind some bytes.
proof fn lemma_appended_pixel(
    before: Seq<u8>,
    luma: Seq<u8>,
    cb: Seq<u8>,
    cr: Seq<u8>,
    after: Seq<u8>,
    i: int,
)
    requires
        appends_row(before, luma, cb, cr, after),
        0 <= i < luma.len(),
    ensures
        before.len() + i * 4 + 4 <= after.len(),
        after.subrange(before.len() + i * 4, before.len() + i * 4 + 4) == pixel(
            luma[i],
            cb[i / 2],
            cr[i / 2],
        ),
        after[before.len() + i * 4 + 3] == 0xffu8,
{
    let all = row(luma, cb, cr, 0, luma.len() as int);
    let four = pixel(luma[i], cb[i / 2], cr[i / 2]);
    lemma_row_pixel(luma, cb, cr, luma.len() as int, i);
    let here = after.subrange(before.len() + i * 4, before.len() + i * 4 + 4);
    assert(here =~= all.subrange(i * 4, i * 4 + 4));
    assert(here[3] == after[before.len() + i * 4 + 3]);
    assert(four[3] == 0xffu8);
}

/// The vector path is bit-identical to the scalar reference: [`convert_row`] and
/// [`convert_row_vector`] append the same bytes, whatever the width. Pixel `i` takes its own luma
/// sample with chroma sample `i / 2` and is opaque, the last few and an odd last one too.
pub proof fn law_vector_rows_are_scalar_rows(
    before: Seq<u8>,
    luma: Seq<u8>,
    cb: Seq<u8>,
    cr: Seq<u8>,
    scalar: Seq<u8>,
    vector: Seq<u8>,
)
    requires
        appends_row(before, luma, cb, cr, scalar),
        appends_row(before, luma, cb, cr, vector),
    ensures
        vector == scalar,
        vector.len() == before.len() + luma.len() * 4,
        before.is_prefix_of(vector),
        forall|i: int|
            0 <= i < luma.len() ==> vector.subrange(
                before.len() + i * 4,
                before.len() + i * 4 + 4,
            ) == pixel(#[trigger] luma[i], cb[i / 2], cr[i / 2]),
        forall|i: int|
            0 <= i < luma.len() ==> #[trigger] vector[before.len() + i * 4 + 3] == 0xffu8,
{
    lemma_row_len(luma, cb, cr, 0, luma.len() as int);
    assert(before =~= vector.subrange(0, before.len() as int));
    assert forall|i: int| 0 <= i < luma.len() implies vector.subrange(
        before.len() + i * 4,
        before.len() + i * 4 + 4,
    ) == pixel(#[trigger] luma[i], cb[i / 2], cr[i / 2]) by {
        lemma_appended_pixel(before, luma, cb, cr, vector, i);
    }
    assert forall|i: int| 0 <= i < luma.len() implies #[trigger] vector[before.len() + i * 4 + 3]
        == 0xffu8 by {
        lemma_appended_pixel(before, luma, cb, cr, vector, i);
    }
}

/// Whether `byte` is the nearest one to a value in 65536ths, among those there are.
pub open spec fn is_nearest(byte: u8, q16: int) -> bool {
    ||| -32_768 <= q16 - 65_536 * byte < 32_768
    ||| byte == 0 && q16 < 0
    ||| byte == 255 && q16 > 255 * 65_536
}

/// A picture is converted if it has pixels and its planes hold them: a luma sample for each, and for
/// two by two of them one sample of either chroma, in rows that may be padded behind their samples.
pub proof fn law_pictures_need_their_samples(planes: I420Planes<'_>, r: Option<Vec<u8>>)
    requires
        call_ensures(i420_to_bgra, (planes,), r),
        planes.width * planes.height * 4 <= usize::MAX,
    ensures
        r is Some <==> {
            let (w, h) = (planes.width as int, planes.height as int);
            let (cw, ch) = ((w + 1) / 2, (h + 1) / 2);
            &&& w > 0 && h > 0
            &&& planes.y_stride >= w && planes.u_stride >= cw && planes.v_stride >= cw
            &&& planes.y@.len() >= (h - 1) * planes.y_stride + w
            &&& planes.u@.len() >= (ch - 1) * planes.u_stride + cw
            &&& planes.v@.len() >= (ch - 1) * planes.v_stride + cw
        },
        r matches Some(bgra) ==> bgra@.len() == 4 * (planes.width * planes.height),
{
}

/// A value in 65536ths goes to the nearest byte.
proof fn lemma_to_byte_is_nearest(q16: int)
    ensures
        is_nearest(to_byte(q16), q16),
{
}

/// The four bytes of a pixel are the nearest ones to its colour.
proof fn lemma_pixel_is_nearest(y: u8, u: u8, v: u8)
    ensures
        ({
            let (luma, cb, cr) = (y - 16, u - 128, v - 128);
            let four = pixel(y, u, v);
            &&& four.len() == 4
            &&& is_nearest(four[0], 76_309 * luma + 132_201 * cb)
            &&& is_nearest(four[1], 76_309 * luma - 25_675 * cb - 53_279 * cr)
            &&& is_nearest(four[2], 76_309 * luma + 104_597 * cr)
            &&& four[3] == 255
        }),
{
    let luma = Y_SCALE * (y - 16);
    lemma_to_byte_is_nearest(luma + B_U * (u - 128));
    lemma_to_byte_is_nearest(luma + G_U * (u - 128) + G_V * (v - 128));
    lemma_to_byte_is_nearest(luma + R_V * (v - 128));
}

/// Every pixel is the colour that its samples have in BT.601 video range, rounded to the nearest byte:
/// blue, green, red, and opaque.
pub proof fn law_colours_are_video_range(planes: I420Planes<'_>, bgra: Vec<u8>, y: int, x: int)
    requires
        call_ensures(i420_to_bgra, (planes,), Some(bgra)),
        0 <= y < planes.height,
        0 <= x < planes.width,
    ensures
        ({
            let at = 4 * (y * planes.width + x);
            let luma = planes.y@[y * planes.y_stride + x] - 16;
            let cb = planes.u@[(y / 2) * planes.u_stride + x / 2] - 128;
            let cr = planes.v@[(y / 2) * planes.v_stride + x / 2] - 128;
            &&& 0 <= at && at + 4 <= bgra@.len()
            &&& is_nearest(bgra@[at], 76_309 * luma + 132_201 * cb)
            &&& is_nearest(bgra@[at + 1], 76_309 * luma - 25_675 * cb - 53_279 * cr)
            &&& is_nearest(bgra@[at + 2], 76_309 * luma + 104_597 * cr)
            &&& bgra@[at + 3] == 255
        }),
{
    let at = (y * planes.width + x) * 4;
    let (w, h) = (planes.width as int, planes.height as int);
    assert(0 <= at && at + 4 <= w * h * 4) by (nonlinear_arith)
        requires
            at == (y * w + x) * 4,
            0 <= y < h,
            0 <= x < w,
    ;
    let four = planes@.pixel_at(y, x);
    let part = bgra@.subrange(at, at + 4);
    assert(part == four);
    assert(part[0] == bgra@[at] && part[1] == bgra@[at + 1] && part[2] == bgra@[at + 2] && part[3]
        == bgra@[at + 3]);
    lemma_pixel_is_nearest(
        planes.y@[y * planes.y_stride + x],
        planes.u@[(y / 2) * planes.u_stride + x / 2],
        planes.v@[(y / 2) * planes.v_stride + x / 2],
    );
}

/// A row is converted pixel by pixel behind what is there, in either way: pixel `i` from its own luma
/// sample and chroma sample `i / 2`, to the nearest byte of each colour.
pub proof fn law_rows_are_converted(luma: &[u8], cb: &[u8], cr: &[u8], i: int)
    requires
        0 <= i < luma@.len(),
        2 * cb@.len() >= luma@.len(),
        2 * cr@.len() >= luma@.len(),
    ensures
        forall|out: &mut Vec<u8>| #[trigger]
            call_ensures(convert_row, (luma, cb, cr, out), ()) ==> is_converted(
                (*out)@,
                final(out)@,
                luma@,
                cb@,
                cr@,
                i,
            ),
        forall|out: &mut Vec<u8>| #[trigger]
            call_ensures(convert_row_vector, (luma, cb, cr, out), ()) ==> is_converted(
                (*out)@,
                final(out)@,
                luma@,
                cb@,
                cr@,
                i,
            ),
{
    assert forall|out: &mut Vec<u8>| #[trigger]
        call_ensures(convert_row, (luma, cb, cr, out), ()) implies is_converted(
        (*out)@,
        final(out)@,
        luma@,
        cb@,
        cr@,
        i,
    ) by {
        lemma_is_converted((*out)@, final(out)@, luma@, cb@, cr@, i);
    }
    assert forall|out: &mut Vec<u8>| #[trigger]
        call_ensures(convert_row_vector, (luma, cb, cr, out), ()) implies is_converted(
        (*out)@,
        final(out)@,
        luma@,
        cb@,
        cr@,
        i,
    ) by {
        lemma_is_converted((*out)@, final(out)@, luma@, cb@, cr@, i);
    }
}

/// Whether pixel `i` of a row stands converted behind some bytes.
pub open spec fn is_converted(
    before: Seq<u8>,
    after: Seq<u8>,
    luma: Seq<u8>,
    cb: Seq<u8>,
    cr: Seq<u8>,
    i: int,
) -> bool {
    let at = before.len() + 4 * i;
    let (y, u, v) = (luma[i] - 16, cb[i / 2] - 128, cr[i / 2] - 128);
    &&& after.len() == before.len() + 4 * luma.len()
    &&& after.take(before.len() as int) == before
    &&& is_nearest(after[at], 76_309 * y + 132_201 * u)
    &&& is_nearest(after[at + 1], 76_309 * y - 25_675 * u - 53_279 * v)
    &&& is_nearest(after[at + 2], 76_309 * y + 104_597 * v)
    &&& after[at + 3] == 255
}

/// A pixel of an appended row stands converted.
proof fn lemma_is_converted(
    before: Seq<u8>,
    after: Seq<u8>,
    luma: Seq<u8>,
    cb: Seq<u8>,
    cr: Seq<u8>,
    i: int,
)
    requires
        appends_row(before, luma, cb, cr, after),
        0 <= i < luma.len(),
    ensures
        is_converted(before, after, luma, cb, cr, i),
{
    let at = before.len() + i * 4;
    lemma_row_len(luma, cb, cr, 0, luma.len() as int);
    lemma_appended_pixel(before, luma, cb, cr, after, i);
    lemma_pixel_is_nearest(luma[i], cb[i / 2], cr[i / 2]);
    let here = after.subrange(at, at + 4);
    assert(here[0] == after[at] && here[1] == after[at + 1] && here[2] == after[at + 2]);
    assert(after.take(before.len() as int) =~= before);
}

} // verus!
