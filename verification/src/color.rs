//! BT.601 (studio swing) conversion of single pixels between RGB and YUV.
use vstd::prelude::*;

verus! {

/// `x` limited to the byte range 0..=255.
pub open spec fn clamp_u8(x: int) -> u8 {
    if x < 0 {
        0
    } else if x > 255 {
        255
    } else {
        x as u8
    }
}

/// Luma of an RGB pixel: `((66 R + 129 G + 25 B + 128) >> 8) + 16`, clamped.
pub open spec fn spec_luma(r: u8, g: u8, b: u8) -> u8 {
    clamp_u8((66 * r + 129 * g + 25 * b + 128) / 256 + 16)
}

/// Blue-difference chroma of an RGB pixel: `((-38 R - 74 G + 112 B + 128) >> 8) + 128`, clamped.
pub open spec fn spec_chroma_u(r: u8, g: u8, b: u8) -> u8 {
    clamp_u8((-38 * r - 74 * g + 112 * b + 128) / 256 + 128)
}

/// Red-difference chroma of an RGB pixel: `((112 R - 94 G - 18 B + 128) >> 8) + 128`, clamped.
pub open spec fn spec_chroma_v(r: u8, g: u8, b: u8) -> u8 {
    clamp_u8((112 * r - 94 * g - 18 * b + 128) / 256 + 128)
}

/// Red of a YUV pixel: `(298 (Y-16) + 409 (V-128) + 128) >> 8`, clamped.
pub open spec fn spec_red(y: u8, u: u8, v: u8) -> u8 {
    clamp_u8((298 * (y - 16) + 409 * (v - 128) + 128) / 256)
}

/// Green of a YUV pixel: `(298 (Y-16) - 100 (U-128) - 208 (V-128) + 128) >> 8`, clamped.
pub open spec fn spec_green(y: u8, u: u8, v: u8) -> u8 {
    clamp_u8((298 * (y - 16) - 100 * (u - 128) - 208 * (v - 128) + 128) / 256)
}

/// Blue of a YUV pixel: `(298 (Y-16) + 516 (U-128) + 128) >> 8`, clamped.
pub open spec fn spec_blue(y: u8, u: u8, v: u8) -> u8 {
    clamp_u8((298 * (y - 16) + 516 * (u - 128) + 128) / 256)
}

/// An arithmetic shift right by 8 is division by 256 rounded toward minus infinity.
proof fn lemma_shr8(x: i32)
    ensures
        (x >> 8) as int == x as int / 256,
{
    assert((x >> 8) * 256 <= x && x < (x >> 8) * 256 + 256) by (bit_vector);
}

fn clamp_to_u8(x: i32) -> (r: u8)
    ensures
        r == clamp_u8(x as int),
{
    if x < 0 {
        0
    } else if x > 255 {
        255
    } else {
        x as u8
    }
}

/// Convert one RGB pixel to YUV (BT.601, integer approximation).
pub fn rgb_to_yuv(r: u8, g: u8, b: u8) -> (yuv: (u8, u8, u8))
    ensures
        yuv == (spec_luma(r, g, b), spec_chroma_u(r, g, b), spec_chroma_v(r, g, b)),
{
    let r = r as i32;
    let g = g as i32;
    let b = b as i32;

    let ny = 66 * r + 129 * g + 25 * b + 128;
    let nu = 112 * b - 38 * r - 74 * g + 128;
    let nv = 112 * r - 94 * g - 18 * b + 128;
    proof {
        lemma_shr8(ny);
        lemma_shr8(nu);
        lemma_shr8(nv);
    }
    let y = (ny >> 8) + 16;
    let u = (nu >> 8) + 128;
    let v = (nv >> 8) + 128;

    (clamp_to_u8(y), clamp_to_u8(u), clamp_to_u8(v))
}

/// Convert one YUV pixel to RGB (BT.601, integer approximation).
pub fn yuv_to_rgb(y: u8, u: u8, v: u8) -> (rgb: (u8, u8, u8))
    ensures
        rgb == (spec_red(y, u, v), spec_green(y, u, v), spec_blue(y, u, v)),
{
    let y = y as i32 - 16;
    let u = u as i32 - 128;
    let v = v as i32 - 128;

    let nr = 298 * y + 409 * v + 128;
    let ng = 298 * y - 100 * u - 208 * v + 128;
    let nb = 298 * y + 516 * u + 128;
    proof {
        lemma_shr8(nr);
        lemma_shr8(ng);
        lemma_shr8(nb);
    }
    let r = nr >> 8;
    let g = ng >> 8;
    let b = nb >> 8;

    (clamp_to_u8(r), clamp_to_u8(g), clamp_to_u8(b))
}

} // verus!
