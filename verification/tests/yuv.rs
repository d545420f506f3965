//! Converting I420 planes to BGRA.

use oxrdp::client::decode::yuv::{convert_row, convert_row_vector, i420_to_bgra, I420Planes};

/// Builds single-colour planes, the smallest input that pins down the colour matrix.
fn flat(width: usize, height: usize, y: u8, u: u8, v: u8) -> (Vec<u8>, Vec<u8>, Vec<u8>) {
    let chroma = width.div_ceil(2) * height.div_ceil(2);
    (vec![y; width * height], vec![u; chroma], vec![v; chroma])
}

fn convert(width: usize, height: usize, y: u8, u: u8, v: u8) -> Vec<u8> {
    let (y_plane, u_plane, v_plane) = flat(width, height, y, u, v);
    i420_to_bgra(I420Planes {
        y: &y_plane,
        u: &u_plane,
        v: &v_plane,
        width,
        height,
        y_stride: width,
        u_stride: width.div_ceil(2),
        v_stride: width.div_ceil(2),
    })
    .expect("planes match the declared geometry")
}

/// The scalar path alone, row by row — what the vector path must reproduce exactly.
fn scalar_reference(planes: &I420Planes<'_>) -> Vec<u8> {
    let mut out = Vec::new();
    let chroma_width = planes.width.div_ceil(2);
    for row in 0..planes.height {
        convert_row(
            &planes.y[row * planes.y_stride..][..planes.width],
            &planes.u[(row / 2) * planes.u_stride..][..chroma_width],
            &planes.v[(row / 2) * planes.v_stride..][..chroma_width],
            &mut out,
        );
    }
    out
}

/// Deterministic pseudo-random planes with padded strides.
///
/// Random rather than flat on purpose: flat planes cannot catch a lane fed from the wrong
/// sample, which is the characteristic SIMD bug. Deterministic so a failure is reproducible.
fn noisy_planes(width: usize, height: usize) -> (Vec<u8>, Vec<u8>, Vec<u8>, usize, usize) {
    let mut state = 0x2545_f491_4f6c_dd1d_u64;
    let mut next = move || {
        state ^= state << 13;
        state ^= state >> 7;
        state ^= state << 17;
        (state >> 33) as u8
    };
    let y_stride = width + 13;
    let chroma_stride = width.div_ceil(2) + 5;
    let y = (0..y_stride * height).map(|_| next()).collect();
    let u = (0..chroma_stride * height.div_ceil(2))
        .map(|_| next())
        .collect();
    let v = (0..chroma_stride * height.div_ceil(2))
        .map(|_| next())
        .collect();
    (y, u, v, y_stride, chroma_stride)
}

#[test]
fn the_vector_path_is_bit_identical_to_the_scalar_reference() {
    // Every width from 1 to 40 covers each remainder modulo the eight-pixel vector step,
    // both parities, and the widths too narrow for a single vector step at all. The larger
    // sizes straddle the step boundary from both sides.
    let widths = (1usize..=40).chain([63, 64, 65, 127, 128, 129, 255, 256, 257]);
    for width in widths {
        for height in [1usize, 2, 3, 5] {
            let (y, u, v, y_stride, chroma_stride) = noisy_planes(width, height);
            let planes = I420Planes {
                y: &y,
                u: &u,
                v: &v,
                width,
                height,
                y_stride,
                u_stride: chroma_stride,
                v_stride: chroma_stride,
            };

            let vector = i420_to_bgra(planes).expect("planes are addressable");
            let scalar = scalar_reference(&planes);

            assert_eq!(
                vector.len(),
                width * height * 4,
                "wrong output length at {width}x{height}"
            );
            // Compared as whole buffers, then narrowed to the first differing pixel so a
            // failure names the pixel rather than dumping a megabyte.
            if vector != scalar {
                let at = vector
                    .iter()
                    .zip(&scalar)
                    .position(|(a, b)| a != b)
                    .expect("the buffers differ somewhere");
                panic!(
                    "vector and scalar differ at {width}x{height}, byte {at} \
                     (pixel {}, channel {}): {} vs {}",
                    at / 4,
                    at % 4,
                    vector[at],
                    scalar[at]
                );
            }
        }
    }
}

#[test]
fn both_paths_clamp_the_whole_input_range_the_same_way() {
    // A row that sweeps luma across its full range against extreme chroma drives every
    // pixel past both ends of the clamp, in both implementations.
    let width: usize = 256;
    let height: usize = 2;
    let y: Vec<u8> = (0..width * height).map(|i| (i % 256) as u8).collect();
    let u: Vec<u8> = (0..width.div_ceil(2) * height.div_ceil(2))
        .map(|i| if i % 2 == 0 { 0 } else { 255 })
        .collect();
    let v: Vec<u8> = (0..width.div_ceil(2) * height.div_ceil(2))
        .map(|i| if i % 3 == 0 { 255 } else { 0 })
        .collect();
    let planes = I420Planes {
        y: &y,
        u: &u,
        v: &v,
        width,
        height,
        y_stride: width,
        u_stride: width.div_ceil(2),
        v_stride: width.div_ceil(2),
    };

    assert_eq!(
        i420_to_bgra(planes).expect("addressable"),
        scalar_reference(&planes)
    );
}

#[test]
fn converts_the_limited_range_end_points() {
    // Y=16 is black and Y=235 is white in limited range; neutral chroma is 128.
    assert_eq!(convert(2, 2, 16, 128, 128)[..4], [0, 0, 0, 255]);
    assert_eq!(convert(2, 2, 235, 128, 128)[..4], [255, 255, 255, 255]);
    // Below black and above white clamp instead of wrapping.
    assert_eq!(convert(2, 2, 0, 128, 128)[..4], [0, 0, 0, 255]);
    assert_eq!(convert(2, 2, 255, 128, 128)[..4], [255, 255, 255, 255]);
}

#[test]
fn writes_blue_green_red_alpha_in_that_order() {
    // Pure red in BT.601 limited range: Y 81, U 90, V 240.
    let red = convert(2, 2, 81, 90, 240);
    assert!(red[2] > 240, "red channel is byte 2, got {red:?}");
    assert!(
        red[0] < 24 && red[1] < 24,
        "blue and green are low, got {red:?}"
    );
    // Pure blue: Y 41, U 240, V 110.
    let blue = convert(2, 2, 41, 240, 110);
    assert!(blue[0] > 240, "blue channel is byte 0, got {blue:?}");
    assert!(
        blue[1] < 24 && blue[2] < 24,
        "green and red are low, got {blue:?}"
    );
    assert_eq!(blue[3], 255, "alpha is opaque");
}

#[test]
fn honours_row_padding_in_the_source_planes() {
    // A decoder that pads rows to macroblock multiples must not shear the picture, so the
    // luma pattern here is a checkerboard: reading rows at `width` instead of `y_stride`
    // shifts every row but the first and changes what comes out.
    let width = 4;
    let height = 2;
    let y_stride = 16;
    let mut y_plane = vec![16u8; y_stride * height];
    y_plane[..width].copy_from_slice(&[235, 16, 235, 16]);
    y_plane[y_stride..y_stride + width].copy_from_slice(&[16, 235, 16, 235]);
    let chroma = vec![128u8; 8];

    let bgra = i420_to_bgra(I420Planes {
        y: &y_plane,
        u: &chroma,
        v: &chroma,
        width,
        height,
        y_stride,
        u_stride: 8,
        v_stride: 8,
    })
    .expect("padded planes convert");

    assert_eq!(bgra.len(), width * height * 4);
    let luma: Vec<u8> = bgra.chunks_exact(4).map(|pixel| pixel[1]).collect();
    assert_eq!(luma, [255, 0, 255, 0, 0, 255, 0, 255]);
}

#[test]
fn rejects_planes_that_are_too_short_for_the_geometry() {
    let short = vec![16u8; 4];
    assert!(i420_to_bgra(I420Planes {
        y: &short,
        u: &short,
        v: &short,
        width: 64,
        height: 64,
        y_stride: 64,
        u_stride: 32,
        v_stride: 32,
    })
    .is_none());
}

#[test]
fn rejects_a_stride_narrower_than_the_picture() {
    let plane = vec![16u8; 4096];
    assert!(i420_to_bgra(I420Planes {
        y: &plane,
        u: &plane,
        v: &plane,
        width: 64,
        height: 64,
        y_stride: 32,
        u_stride: 32,
        v_stride: 32,
    })
    .is_none());
}

#[test]
fn rejects_empty_geometry() {
    let plane = vec![16u8; 16];
    assert!(i420_to_bgra(I420Planes {
        y: &plane,
        u: &plane,
        v: &plane,
        width: 0,
        height: 4,
        y_stride: 0,
        u_stride: 0,
        v_stride: 0,
    })
    .is_none());
}

#[test]
fn odd_geometry_reads_the_shared_chroma_sample() {
    // 3x3 has 2x2 chroma; the last column and row share the neighbouring sample.
    let bgra = convert(3, 3, 235, 128, 128);
    assert_eq!(bgra.len(), 3 * 3 * 4);
    assert!(bgra.chunks_exact(4).all(|px| px == [255, 255, 255, 255]));
}

#[test]
fn a_vector_row_is_the_scalar_row() {
    for width in 1usize..=40 {
        let (luma, cb, cr, _, _) = noisy_planes(width, 1);
        let mut scalar = vec![7u8, 9];
        let mut vector = vec![7u8, 9];
        let (luma, chroma) = (&luma[..width], width.div_ceil(2));
        convert_row(luma, &cb[..chroma], &cr[..chroma], &mut scalar);
        convert_row_vector(luma, &cb[..chroma], &cr[..chroma], &mut vector);
        assert_eq!(scalar, vector);
        assert_eq!(vector.len(), 2 + width * 4);
        assert!(vector[2..].chunks(4).all(|pixel| pixel[3] == 255));
    }
}
