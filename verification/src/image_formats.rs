//! Frame conversion between pixel formats.
use vstd::prelude::*;

use crate::color::{rgb_to_yuv, yuv_to_rgb, spec_luma, spec_chroma_u, spec_chroma_v, spec_red, spec_green, spec_blue};
use crate::pixel_format::{frame_size_computable, pixel_count, spec_frame_size, PixelFormat};
use vstd::arithmetic::div_mod::lemma_fundamental_div_mod_converse;

verus! {

/// Element `k * p + c` of a sequence of `k`-byte groups is byte `c` of group `p`.
pub proof fn lemma_group_index(p: int, c: int, k: int)
    requires
        0 <= c < k,
    ensures
        (k * p + c) / k == p,
        (k * p + c) % k == c,
{
    assert(k * p == p * k) by (nonlinear_arith);
    lemma_fundamental_div_mod_converse(k * p + c, k, p, c);
}

// ---------------------------------------------------------------------------
// Packed RGB / BGR / RGBA / GRAY
// ---------------------------------------------------------------------------
/// RGB <-> BGR: the first and third byte of every triple exchanged.
pub open spec fn spec_swap_rb(s: Seq<u8>) -> Seq<u8> {
    Seq::new(s.len(), |i: int| s[i - i % 3 + (2 - i % 3)])
}

/// RGB (or BGR) to RGBA (or BGRA): every triple gains an opaque alpha byte;
/// with `swap` the first and third byte of each triple are exchanged.
pub open spec fn spec_rgb24_to_rgba(s: Seq<u8>, swap: bool) -> Seq<u8> {
    Seq::new(
        (s.len() / 3) * 4,
        |i: int|
            if i % 4 == 3 {
                255u8
            } else if swap {
                s[(i / 4) * 3 + (2 - i % 4)]
            } else {
                s[(i / 4) * 3 + i % 4]
            },
    )
}

/// RGBA to RGB (or BGR with `swap`): the alpha byte of every quadruple dropped.
pub open spec fn spec_rgba_to_rgb24(s: Seq<u8>, swap: bool) -> Seq<u8> {
    Seq::new(
        (s.len() / 4) * 3,
        |i: int|
            if swap {
                s[(i / 3) * 4 + (2 - i % 3)]
            } else {
                s[(i / 3) * 4 + i % 3]
            },
    )
}

/// Grayscale to RGB or BGR: every gray byte repeated three times.
pub open spec fn spec_gray_to_rgb24(s: Seq<u8>) -> Seq<u8> {
    Seq::new(s.len() * 3, |i: int| s[i / 3])
}

/// Exchanging red and blue twice gives the frame back: BGR to RGB undoes RGB
/// to BGR.
pub proof fn lemma_swap_rb_involution(s: Seq<u8>)
    requires
        s.len() % 3 == 0,
    ensures
        spec_swap_rb(spec_swap_rb(s)) == s,
{
    let t = spec_swap_rb(s);
    assert forall|i: int| 0 <= i < s.len() implies #[trigger] spec_swap_rb(t)[i] == s[i] by {
        let p = i / 3;
        let c = i % 3;
        lemma_group_index(p, c, 3);
        lemma_group_index(p, 2 - c, 3);
        assert(3 * p + 2 < s.len());
    }
    assert(spec_swap_rb(t) =~= s);
}

/// Dropping the alpha byte that RGB to RGBA added gives the frame back, with
/// or without the red/blue exchange on both ways.
pub proof fn lemma_rgba_rgb_roundtrip(s: Seq<u8>, swap: bool)
    requires
        s.len() % 3 == 0,
    ensures
        spec_rgba_to_rgb24(spec_rgb24_to_rgba(s, swap), swap) == s,
{
    let t = spec_rgb24_to_rgba(s, swap);
    let u = spec_rgba_to_rgb24(t, swap);
    let n = s.len() / 3;
    lemma_group_index(n as int, 0, 4);
    lemma_group_index(n as int, 0, 3);
    assert(t.len() == n * 4);
    assert(u.len() == s.len());
    assert forall|i: int| 0 <= i < s.len() implies #[trigger] u[i] == s[i] by {
        let p = i / 3;
        let c = i % 3;
        lemma_group_index(p, c, 3);
        lemma_group_index(p, c, 4);
        lemma_group_index(p, 2 - c, 4);
        lemma_group_index(p, 2 - c, 3);
        assert(p < n);
        assert(4 * p + 3 < t.len());
    }
    assert(u =~= s);
}

/// Grayscale to RGBA: every gray byte repeated three times, then opaque alpha.
pub open spec fn spec_gray_to_rgba(s: Seq<u8>) -> Seq<u8> {
    Seq::new(
        s.len() * 4,
        |i: int|
            if i % 4 == 3 {
                255u8
            } else {
                s[i / 4]
            },
    )
}

/// Convert RGB to BGR by exchanging the first and third byte of each pixel.
pub fn rgb_to_bgr(src: &[u8]) -> (dst: Vec<u8>)
    requires
        src@.len() % 3 == 0,
    ensures
        dst@ == spec_swap_rb(src@),
{
    let n = src.len() / 3;
    proof {
        lemma_fundamental_div_mod_converse(src@.len() as int, 3, n as int, 0);
    }
    let mut dst: Vec<u8> = Vec::new();
    let mut p: usize = 0;
    while p < n
        invariant
            src@.len() <= usize::MAX,
            n * 3 == src@.len(),
            p <= n,
            dst@.len() == 3 * p,
            forall|j: int| 0 <= j < 3 * p ==> dst@[j] == spec_swap_rb(src@)[j],
        decreases n - p,
    {
        let base = 3 * p;
        dst.push(src[base + 2]);
        dst.push(src[base + 1]);
        dst.push(src[base]);
        proof {
            lemma_group_index(p as int, 0, 3);
            lemma_group_index(p as int, 1, 3);
            lemma_group_index(p as int, 2, 3);
        }
        p += 1;
    }
    assert(dst@ =~= spec_swap_rb(src@));
    dst
}

/// Convert BGR to RGB; the same exchange as [`rgb_to_bgr`].
pub fn bgr_to_rgb(src: &[u8]) -> (dst: Vec<u8>)
    requires
        src@.len() % 3 == 0,
    ensures
        dst@ == spec_swap_rb(src@),
{
    rgb_to_bgr(src)
}

fn rgb24_to_rgba(src: &[u8], swap: bool) -> (dst: Vec<u8>)
    requires
        (src@.len() / 3) * 4 <= usize::MAX,
    ensures
        dst@ == spec_rgb24_to_rgba(src@, swap),
{
    let n = src.len() / 3;
    let mut dst: Vec<u8> = Vec::new();
    let mut p: usize = 0;
    while p < n
        invariant
            src@.len() <= usize::MAX,
            n == src@.len() / 3,
            n * 4 <= usize::MAX,
            p <= n,
            dst@.len() == 4 * p,
            forall|j: int| 0 <= j < 4 * p ==> dst@[j] == spec_rgb24_to_rgba(src@, swap)[j],
        decreases n - p,
    {
        let base = 3 * p;
        if swap {
            dst.push(src[base + 2]);
            dst.push(src[base + 1]);
            dst.push(src[base]);
        } else {
            dst.push(src[base]);
            dst.push(src[base + 1]);
            dst.push(src[base + 2]);
        }
        dst.push(255);
        proof {
            lemma_group_index(p as int, 0, 4);
            lemma_group_index(p as int, 1, 4);
            lemma_group_index(p as int, 2, 4);
            lemma_group_index(p as int, 3, 4);
        }
        p += 1;
    }
    assert(dst@ =~= spec_rgb24_to_rgba(src@, swap));
    dst
}

/// Convert RGB to RGBA with an opaque alpha channel.
pub fn rgb_to_rgba(src: &[u8]) -> (dst: Vec<u8>)
    requires
        (src@.len() / 3) * 4 <= usize::MAX,
    ensures
        dst@ == spec_rgb24_to_rgba(src@, false),
{
    rgb24_to_rgba(src, false)
}

/// Convert BGR to RGBA with an opaque alpha channel.
pub fn bgr_to_rgba(src: &[u8]) -> (dst: Vec<u8>)
    requires
        (src@.len() / 3) * 4 <= usize::MAX,
    ensures
        dst@ == spec_rgb24_to_rgba(src@, true),
{
    rgb24_to_rgba(src, true)
}

fn rgba_to_rgb24(src: &[u8], swap: bool) -> (dst: Vec<u8>)
    ensures
        dst@ == spec_rgba_to_rgb24(src@, swap),
{
    let n = src.len() / 4;
    let mut dst: Vec<u8> = Vec::new();
    let mut p: usize = 0;
    while p < n
        invariant
            src@.len() <= usize::MAX,
            n == src@.len() / 4,
            p <= n,
            dst@.len() == 3 * p,
            forall|j: int| 0 <= j < 3 * p ==> dst@[j] == spec_rgba_to_rgb24(src@, swap)[j],
        decreases n - p,
    {
        let base = 4 * p;
        if swap {
            dst.push(src[base + 2]);
            dst.push(src[base + 1]);
            dst.push(src[base]);
        } else {
            dst.push(src[base]);
            dst.push(src[base + 1]);
            dst.push(src[base + 2]);
        }
        proof {
            lemma_group_index(p as int, 0, 3);
            lemma_group_index(p as int, 1, 3);
            lemma_group_index(p as int, 2, 3);
        }
        p += 1;
    }
    assert(dst@ =~= spec_rgba_to_rgb24(src@, swap));
    dst
}

/// Convert RGBA to RGB by dropping the alpha channel.
pub fn rgba_to_rgb(src: &[u8]) -> (dst: Vec<u8>)
    ensures
        dst@ == spec_rgba_to_rgb24(src@, false),
{
    rgba_to_rgb24(src, false)
}

/// Convert RGBA to BGR by dropping the alpha channel.
pub fn rgba_to_bgr(src: &[u8]) -> (dst: Vec<u8>)
    ensures
        dst@ == spec_rgba_to_rgb24(src@, true),
{
    rgba_to_rgb24(src, true)
}

/// Convert grayscale to RGB by repeating each gray value.
pub fn gray_to_rgb(src: &[u8]) -> (dst: Vec<u8>)
    requires
        src@.len() * 3 <= usize::MAX,
    ensures
        dst@ == spec_gray_to_rgb24(src@),
{
    let n = src.len();
    let mut dst: Vec<u8> = Vec::new();
    let mut p: usize = 0;
    while p < n
        invariant
            src@.len() <= usize::MAX,
            n == src@.len(),
            n * 3 <= usize::MAX,
            p <= n,
            dst@.len() == 3 * p,
            forall|j: int| 0 <= j < 3 * p ==> dst@[j] == spec_gray_to_rgb24(src@)[j],
        decreases n - p,
    {
        let g = src[p];
        dst.push(g);
        dst.push(g);
        dst.push(g);
        proof {
            lemma_group_index(p as int, 0, 3);
            lemma_group_index(p as int, 1, 3);
            lemma_group_index(p as int, 2, 3);
        }
        p += 1;
    }
    assert(dst@ =~= spec_gray_to_rgb24(src@));
    dst
}

/// Convert grayscale to BGR; the same bytes as [`gray_to_rgb`].
pub fn gray_to_bgr(src: &[u8]) -> (dst: Vec<u8>)
    requires
        src@.len() * 3 <= usize::MAX,
    ensures
        dst@ == spec_gray_to_rgb24(src@),
{
    gray_to_rgb(src)
}

/// Convert grayscale to RGBA with an opaque alpha channel.
pub fn gray_to_rgba(src: &[u8]) -> (dst: Vec<u8>)
    requires
        src@.len() * 4 <= usize::MAX,
    ensures
        dst@ == spec_gray_to_rgba(src@),
{
    let n = src.len();
    let mut dst: Vec<u8> = Vec::new();
    let mut p: usize = 0;
    while p < n
        invariant
            src@.len() <= usize::MAX,
            n == src@.len(),
            n * 4 <= usize::MAX,
            p <= n,
            dst@.len() == 4 * p,
            forall|j: int| 0 <= j < 4 * p ==> dst@[j] == spec_gray_to_rgba(src@)[j],
        decreases n - p,
    {
        let g = src[p];
        dst.push(g);
        dst.push(g);
        dst.push(g);
        dst.push(255);
        proof {
            lemma_group_index(p as int, 0, 4);
            lemma_group_index(p as int, 1, 4);
            lemma_group_index(p as int, 2, 4);
            lemma_group_index(p as int, 3, 4);
        }
        p += 1;
    }
    assert(dst@ =~= spec_gray_to_rgba(src@));
    dst
}


// ---------------------------------------------------------------------------
// Frame geometry of the 4:2:0 formats
// ---------------------------------------------------------------------------
/// Index, in a subsampled chroma plane, of the sample that pixel `p` of a
/// `w`-wide frame uses: one sample per 2x2 block, `w / 2` samples per row.
pub open spec fn chroma_index(w: int, p: int) -> int {
    ((p / w) / 2) * (w / 2) + (p % w) / 2
}

/// The largest chroma index used by a `w` x `h` frame (both positive).
pub open spec fn max_chroma_index(w: int, h: int) -> int {
    ((h - 1) / 2) * (w / 2) + (w - 1) / 2
}

/// Whether every chroma index of a `w` x `h` frame lies inside a chroma plane
/// of `(w * h) / 4` samples.
pub open spec fn subsampling_fits(w: int, h: int) -> bool {
    w == 0 || h == 0 || max_chroma_index(w, h) < (w * h) / 4
}

/// The pixel whose chroma ends up in sample `k` of a plane written by 2x2
/// subsampling: the top-left pixel of each block, blocks taken row by row with
/// `w / 2` samples per row. For an odd width the last column of a block row
/// spills into the next sample, which the next block row overwrites; after the
/// last block row the spilled sample stays.
pub open spec fn chroma_source(w: int, h: int, k: int) -> Option<int> {
    let cw = w / 2;
    let rows = (h + 1) / 2;
    if w <= 0 || h <= 0 || k < 0 {
        None
    } else if cw == 0 {
        if k == 0 {
            Some(2 * (rows - 1) * w)
        } else {
            None
        }
    } else if k / cw < rows {
        Some(2 * (k / cw) * w + 2 * (k % cw))
    } else if k / cw == rows && k % cw == 0 && w % 2 == 1 {
        Some(2 * (rows - 1) * w + (w - 1))
    } else {
        None
    }
}

/// A pixel index splits into a row below `h` and a column below `w`.
pub proof fn lemma_pixel_position(w: int, h: int, p: int)
    requires
        w > 0,
        0 <= p < w * h,
    ensures
        p == (p / w) * w + p % w,
        0 <= p / w < h,
        0 <= p % w < w,
{
    vstd::arithmetic::div_mod::lemma_fundamental_div_mod(p, w);
    assert(w * (p / w) == (p / w) * w) by (nonlinear_arith);
    assert(0 <= p % w < w);
    assert(p / w >= 0) by (nonlinear_arith)
        requires
            p >= 0,
            w > 0,
    ;
    if p / w >= h {
        assert((p / w) * w >= h * w) by (nonlinear_arith)
            requires
                p / w >= h,
                w > 0,
        ;
        assert(h * w == w * h) by (nonlinear_arith);
    }
}

/// Every pixel of a frame uses a chroma index between 0 and the largest one.
pub proof fn lemma_chroma_index_bound(w: int, h: int, p: int)
    requires
        w > 0,
        h > 0,
        0 <= p < w * h,
    ensures
        0 <= chroma_index(w, p) <= max_chroma_index(w, h),
{
    lemma_pixel_position(w, h, p);
    let row = p / w;
    let col = p % w;
    vstd::arithmetic::div_mod::lemma_div_is_ordered(row, h - 1, 2);
    vstd::arithmetic::div_mod::lemma_div_is_ordered(col, w - 1, 2);
    assert((row / 2) * (w / 2) <= ((h - 1) / 2) * (w / 2)) by (nonlinear_arith)
        requires
            0 <= row / 2 <= (h - 1) / 2,
            w / 2 >= 0,
    ;
    assert(0 <= (row / 2) * (w / 2)) by (nonlinear_arith)
        requires
            0 <= row / 2,
            w / 2 >= 0,
    ;
}

/// The pixel that `chroma_source` names lies inside the frame.
pub proof fn lemma_chroma_source_bound(w: int, h: int, k: int)
    ensures
        chroma_source(w, h, k) matches Some(p) ==> 0 <= p < w * h,
{
    let cw = w / 2;
    let rows = (h + 1) / 2;
    if w > 0 && h > 0 && k >= 0 {
        assert(0 <= 2 * (rows - 1) <= h - 1);
        assert(0 <= 2 * (rows - 1) * w <= (h - 1) * w) by (nonlinear_arith)
            requires
                0 <= 2 * (rows - 1) <= h - 1,
                w > 0,
        ;
        assert((h - 1) * w + w == w * h) by (nonlinear_arith);
        if cw > 0 {
            let r = k / cw;
            let c = k % cw;
            assert(r >= 0 && 0 <= c < cw) by (nonlinear_arith)
                requires
                    k >= 0,
                    cw > 0,
                    r == k / cw,
                    c == k % cw,
            ;
            if r < rows {
                assert(0 <= 2 * r * w <= (h - 1) * w) by (nonlinear_arith)
                    requires
                        0 <= 2 * r <= h - 1,
                        w > 0,
                ;
            }
        }
    }
}

/// The pixel whose chroma lands in sample `k` of a subsampled plane.
fn chroma_source_exec(w: usize, h: usize, k: usize) -> (src: Option<usize>)
    requires
        w * h <= usize::MAX,
    ensures
        src matches Some(p) ==> chroma_source(w as int, h as int, k as int) == Some(p as int),
        src is None ==> chroma_source(w as int, h as int, k as int) is None,
{
    proof {
        lemma_chroma_source_bound(w as int, h as int, k as int);
    }
    if w == 0 || h == 0 {
        return None;
    }
    let cw = w / 2;
    let rows = h / 2 + h % 2;
    if cw == 0 {
        if k == 0 {
            Some(2 * (rows - 1) * w)
        } else {
            None
        }
    } else if k / cw < rows {
        Some(2 * (k / cw) * w + 2 * (k % cw))
    } else if k / cw == rows && k % cw == 0 && w % 2 == 1 {
        Some(2 * (rows - 1) * w + (w - 1))
    } else {
        None
    }
}


// ---------------------------------------------------------------------------
// RGB / BGR / GRAY to the 4:2:0 formats
// ---------------------------------------------------------------------------
/// Red of pixel `p` of a packed 3-byte frame (stored third when `swap`, as in BGR).
pub open spec fn red_at(s: Seq<u8>, p: int, swap: bool) -> u8 {
    if swap {
        s[3 * p + 2]
    } else {
        s[3 * p]
    }
}

/// Green of pixel `p` of a packed 3-byte frame.
pub open spec fn green_at(s: Seq<u8>, p: int) -> u8 {
    s[3 * p + 1]
}

/// Blue of pixel `p` of a packed 3-byte frame (stored first when `swap`, as in BGR).
pub open spec fn blue_at(s: Seq<u8>, p: int, swap: bool) -> u8 {
    if swap {
        s[3 * p]
    } else {
        s[3 * p + 2]
    }
}

/// A chroma sample of a subsampled plane: the U (or, with `v`, the V) value of
/// the pixel that `chroma_source` names, or 0 where no pixel writes.
pub open spec fn chroma_sample(s: Seq<u8>, w: int, h: int, k: int, swap: bool, v: bool) -> u8 {
    match chroma_source(w, h, k) {
        Some(p) => if v {
            spec_chroma_v(red_at(s, p, swap), green_at(s, p), blue_at(s, p, swap))
        } else {
            spec_chroma_u(red_at(s, p, swap), green_at(s, p), blue_at(s, p, swap))
        },
        None => 0u8,
    }
}

/// RGB (or BGR with `swap`) to I420: the luma of every pixel, then the U plane
/// and the V plane of `(w * h) / 4` samples each, subsampled 2x2.
pub open spec fn spec_rgb24_to_i420(s: Seq<u8>, w: int, h: int, swap: bool) -> Seq<u8> {
    let y = w * h;
    let q = y / 4;
    Seq::new(
        (y + 2 * q) as nat,
        |i: int|
            if i < y {
                spec_luma(red_at(s, i, swap), green_at(s, i), blue_at(s, i, swap))
            } else if i < y + q {
                chroma_sample(s, w, h, i - y, swap, false)
            } else {
                chroma_sample(s, w, h, i - y - q, swap, true)
            },
    )
}

/// The chroma of every 2x2 block comes from the block's top-left pixel: the
/// U and V samples `k` of an RGB (or, with `swap`, BGR) frame converted to I420
/// are those of the pixel at row `2 * (k / (w / 2))`, column
/// `2 * (k % (w / 2))`, for every block that lies in the frame.
pub proof fn lemma_i420_chroma_from_block_corner(s: Seq<u8>, w: int, h: int, k: int, swap: bool)
    requires
        w >= 2,
        h >= 1,
        0 <= k < (w * h) / 4,
        k / (w / 2) < (h + 1) / 2,
    ensures
        ({
            let row = 2 * (k / (w / 2));
            let col = 2 * (k % (w / 2));
            let p = row * w + col;
            let r = if swap {
                s[3 * p + 2]
            } else {
                s[3 * p]
            };
            let g = s[3 * p + 1];
            let b = if swap {
                s[3 * p]
            } else {
                s[3 * p + 2]
            };
            let out = spec_rgb24_to_i420(s, w, h, swap);
            &&& 0 <= row < h
            &&& 0 <= col < w
            &&& out[w * h + k] == spec_chroma_u(r, g, b)
            &&& out[w * h + (w * h) / 4 + k] == spec_chroma_v(r, g, b)
        }),
{
    let cw = w / 2;
    let row = 2 * (k / cw);
    let col = 2 * (k % cw);
    assert(2 * (k / cw) * w == row * w) by (nonlinear_arith)
        requires
            row == 2 * (k / cw),
    ;
    assert(chroma_source(w, h, k) == Some(row * w + col));
    assert(k / cw >= 0) by (nonlinear_arith)
        requires
            k >= 0,
            cw >= 1,
    ;
}

/// The same for NV12: RGB or BGR frames converted to NV12 carry, in chroma
/// pair `k`, the U and V of the top-left pixel of 2x2 block `k`.
pub proof fn lemma_nv12_chroma_from_block_corner(
    s: Seq<u8>,
    src: PixelFormat,
    w: int,
    h: int,
    k: int,
)
    requires
        src == PixelFormat::RGB || src == PixelFormat::BGR,
        w >= 2,
        h >= 1,
        0 <= k < (w * h) / 4,
        k / (w / 2) < (h + 1) / 2,
    ensures
        ({
            let swap = src == PixelFormat::BGR;
            let p = (2 * (k / (w / 2))) * w + 2 * (k % (w / 2));
            let r = if swap {
                s[3 * p + 2]
            } else {
                s[3 * p]
            };
            let g = s[3 * p + 1];
            let b = if swap {
                s[3 * p]
            } else {
                s[3 * p + 2]
            };
            let out = spec_convert_frame(s, src, PixelFormat::NV12, w, h);
            &&& out[w * h + 2 * k] == spec_chroma_u(r, g, b)
            &&& out[w * h + 2 * k + 1] == spec_chroma_v(r, g, b)
        }),
{
    let swap = src == PixelFormat::BGR;
    lemma_i420_chroma_from_block_corner(s, w, h, k, swap);
    let y = w * h;
    assert(y >= 2) by (nonlinear_arith)
        requires
            y == w * h,
            w >= 2,
            h >= 1,
    ;
    assert((2 * k) % 2 == 0 && (2 * k) / 2 == k);
    assert((2 * k + 1) % 2 == 1 && (2 * k + 1) / 2 == k);
}

/// Grayscale to NV12: the gray bytes as luma, then neutral chroma (128).
pub open spec fn spec_gray_to_nv12(s: Seq<u8>, w: int, h: int) -> Seq<u8> {
    let y = w * h;
    Seq::new(
        (y + y / 2) as nat,
        |i: int|
            if i < y {
                s[i]
            } else {
                128u8
            },
    )
}

/// The inputs on which the RGB/BGR to I420 conversion runs: three bytes for
/// every pixel, and chroma indices inside the chroma planes.
pub open spec fn rgb24_to_i420_accepts(len: int, w: int, h: int) -> bool {
    &&& 3 * (w * h) <= len
    &&& subsampling_fits(w, h)
}

fn pixel_rgb(src: &[u8], p: usize, swap: bool) -> (rgb: (u8, u8, u8))
    requires
        3 * p + 2 < src@.len(),
    ensures
        rgb == (red_at(src@, p as int, swap), green_at(src@, p as int), blue_at(src@, p as int, swap)),
{
    let _n = src.len();
    let base = 3 * p;
    if swap {
        (src[base + 2], src[base + 1], src[base])
    } else {
        (src[base], src[base + 1], src[base + 2])
    }
}

fn rgb24_to_i420(src: &[u8], width: u32, height: u32, swap: bool) -> (dst: Vec<u8>)
    requires
        rgb24_to_i420_accepts(src@.len() as int, width as int, height as int),
    ensures
        dst@ == spec_rgb24_to_i420(src@, width as int, height as int, swap),
{
    let w = width as usize;
    let h = height as usize;
    let _n = src.len();
    let ghost len = src@.len();
    assert(0 <= w * h) by (nonlinear_arith);
    let y_size = w * h;
    let uv_size = y_size / 4;
    let ghost target = spec_rgb24_to_i420(src@, w as int, h as int, swap);
    let mut dst: Vec<u8> = Vec::new();

    let mut p: usize = 0;
    while p < y_size
        invariant
            src@.len() == len,
            len <= usize::MAX,
            y_size == w * h,
            3 * y_size <= len,
            target == spec_rgb24_to_i420(src@, w as int, h as int, swap),
            p <= y_size,
            dst@.len() == p,
            forall|j: int| 0 <= j < p ==> dst@[j] == target[j],
        decreases y_size - p,
    {
        let (r, g, b) = pixel_rgb(src, p, swap);
        let (luma, _, _) = rgb_to_yuv(r, g, b);
        dst.push(luma);
        p += 1;
    }

    let mut k: usize = 0;
    while k < uv_size
        invariant
            src@.len() == len,
            len <= usize::MAX,
            y_size == w * h,
            uv_size == y_size / 4,
            3 * y_size <= len,
            target == spec_rgb24_to_i420(src@, w as int, h as int, swap),
            k <= uv_size,
            dst@.len() == y_size + k,
            forall|j: int| 0 <= j < y_size + k ==> dst@[j] == target[j],
        decreases uv_size - k,
    {
        proof {
            lemma_chroma_source_bound(w as int, h as int, k as int);
        }
        match chroma_source_exec(w, h, k) {
            Some(q) => {
                let (r, g, b) = pixel_rgb(src, q, swap);
                let (_, u, _) = rgb_to_yuv(r, g, b);
                dst.push(u);
            },
            None => {
                dst.push(0);
            },
        }
        k += 1;
    }

    let mut k: usize = 0;
    while k < uv_size
        invariant
            src@.len() == len,
            len <= usize::MAX,
            y_size == w * h,
            uv_size == y_size / 4,
            3 * y_size <= len,
            target == spec_rgb24_to_i420(src@, w as int, h as int, swap),
            k <= uv_size,
            dst@.len() == y_size + uv_size + k,
            forall|j: int| 0 <= j < y_size + uv_size + k ==> dst@[j] == target[j],
        decreases uv_size - k,
    {
        proof {
            lemma_chroma_source_bound(w as int, h as int, k as int);
        }
        match chroma_source_exec(w, h, k) {
            Some(q) => {
                let (r, g, b) = pixel_rgb(src, q, swap);
                let (_, _, v) = rgb_to_yuv(r, g, b);
                dst.push(v);
            },
            None => {
                dst.push(0);
            },
        }
        k += 1;
    }
    assert(dst@ =~= target);
    dst
}

/// Convert RGB to I420 (BT.601); chroma is taken from the top-left pixel of
/// each 2x2 block.
pub fn rgb_to_i420(src: &[u8], width: u32, height: u32) -> (dst: Vec<u8>)
    requires
        rgb24_to_i420_accepts(src@.len() as int, width as int, height as int),
    ensures
        dst@ == spec_rgb24_to_i420(src@, width as int, height as int, false),
{
    rgb24_to_i420(src, width, height, false)
}

/// Convert BGR to I420 (BT.601); chroma is taken from the top-left pixel of
/// each 2x2 block.
pub fn bgr_to_i420(src: &[u8], width: u32, height: u32) -> (dst: Vec<u8>)
    requires
        rgb24_to_i420_accepts(src@.len() as int, width as int, height as int),
    ensures
        dst@ == spec_rgb24_to_i420(src@, width as int, height as int, true),
{
    rgb24_to_i420(src, width, height, true)
}

/// Convert grayscale to NV12: gray becomes luma, chroma is neutral (128).
pub fn gray_to_nv12(src: &[u8], width: u32, height: u32) -> (dst: Vec<u8>)
    requires
        width * height <= u32::MAX,
        src@.len() == width * height,
    ensures
        dst@ == spec_gray_to_nv12(src@, width as int, height as int),
{
    let y_size = (width * height) as usize;
    let uv_size = y_size / 2;
    let ghost target = spec_gray_to_nv12(src@, width as int, height as int);
    let mut dst: Vec<u8> = Vec::new();
    let mut p: usize = 0;
    while p < y_size
        invariant
            y_size == src@.len(),
            y_size == width * height,
            target == spec_gray_to_nv12(src@, width as int, height as int),
            p <= y_size,
            dst@.len() == p,
            forall|j: int| 0 <= j < p ==> dst@[j] == target[j],
        decreases y_size - p,
    {
        dst.push(src[p]);
        p += 1;
    }
    let mut k: usize = 0;
    while k < uv_size
        invariant
            y_size == width * height,
            y_size <= u32::MAX,
            uv_size == y_size / 2,
            target == spec_gray_to_nv12(src@, width as int, height as int),
            k <= uv_size,
            dst@.len() == y_size + k,
            forall|j: int| 0 <= j < y_size + k ==> dst@[j] == target[j],
        decreases uv_size - k,
    {
        dst.push(128);
        k += 1;
    }
    assert(dst@ =~= target);
    dst
}


// ---------------------------------------------------------------------------
// I420 <-> NV12
// ---------------------------------------------------------------------------
/// Whether a frame holds a luma plane and two chroma planes of `(w * h) / 4`
/// samples each.
pub open spec fn holds_yuv420(len: int, w: int, h: int) -> bool {
    w * h + 2 * ((w * h) / 4) <= len
}

/// I420 to NV12: the luma plane copied, the U and V planes interleaved.
pub open spec fn spec_i420_to_nv12(s: Seq<u8>, w: int, h: int) -> Seq<u8> {
    let y = w * h;
    let q = y / 4;
    Seq::new(
        (y + 2 * q) as nat,
        |i: int|
            if i < y {
                s[i]
            } else if (i - y) % 2 == 0 {
                s[y + (i - y) / 2]
            } else {
                s[y + q + (i - y) / 2]
            },
    )
}

/// NV12 to I420: the luma plane copied, the interleaved chroma split into a U
/// and a V plane.
pub open spec fn spec_nv12_to_i420(s: Seq<u8>, w: int, h: int) -> Seq<u8> {
    let y = w * h;
    let q = y / 4;
    Seq::new(
        (y + 2 * q) as nat,
        |i: int|
            if i < y {
                s[i]
            } else if i < y + q {
                s[y + 2 * (i - y)]
            } else {
                s[y + 2 * (i - y - q) + 1]
            },
    )
}

/// Convert I420 to NV12 by interleaving the chroma planes.
pub fn i420_to_nv12(src: &[u8], width: u32, height: u32) -> (dst: Vec<u8>)
    requires
        holds_yuv420(src@.len() as int, width as int, height as int),
    ensures
        dst@ == spec_i420_to_nv12(src@, width as int, height as int),
{
    let _n = src.len();
    let w = width as usize;
    let h = height as usize;
    assert(0 <= w * h) by (nonlinear_arith);
    let y_size = w * h;
    let uv_size = y_size / 4;
    let ghost target = spec_i420_to_nv12(src@, w as int, h as int);
    let mut dst: Vec<u8> = Vec::new();
    let mut p: usize = 0;
    while p < y_size
        invariant
            src@.len() <= usize::MAX,
            y_size + 2 * uv_size <= src@.len(),
            y_size == w * h,
            uv_size == y_size / 4,
            target == spec_i420_to_nv12(src@, w as int, h as int),
            p <= y_size,
            dst@.len() == p,
            forall|j: int| 0 <= j < p ==> dst@[j] == target[j],
        decreases y_size - p,
    {
        dst.push(src[p]);
        p += 1;
    }
    let mut k: usize = 0;
    while k < uv_size
        invariant
            src@.len() <= usize::MAX,
            y_size + 2 * uv_size <= src@.len(),
            y_size == w * h,
            uv_size == y_size / 4,
            target == spec_i420_to_nv12(src@, w as int, h as int),
            k <= uv_size,
            dst@.len() == y_size + 2 * k,
            forall|j: int| 0 <= j < y_size + 2 * k ==> dst@[j] == target[j],
        decreases uv_size - k,
    {
        dst.push(src[y_size + k]);
        dst.push(src[y_size + uv_size + k]);
        proof {
            lemma_group_index(k as int, 0, 2);
            lemma_group_index(k as int, 1, 2);
        }
        k += 1;
    }
    assert(dst@ =~= target);
    dst
}

/// Convert NV12 to I420 by splitting the interleaved chroma plane.
pub fn nv12_to_i420(src: &[u8], width: u32, height: u32) -> (dst: Vec<u8>)
    requires
        holds_yuv420(src@.len() as int, width as int, height as int),
    ensures
        dst@ == spec_nv12_to_i420(src@, width as int, height as int),
{
    let _n = src.len();
    let w = width as usize;
    let h = height as usize;
    assert(0 <= w * h) by (nonlinear_arith);
    let y_size = w * h;
    let uv_size = y_size / 4;
    let ghost target = spec_nv12_to_i420(src@, w as int, h as int);
    let mut dst: Vec<u8> = Vec::new();
    let mut p: usize = 0;
    while p < y_size
        invariant
            src@.len() <= usize::MAX,
            y_size + 2 * uv_size <= src@.len(),
            y_size == w * h,
            uv_size == y_size / 4,
            target == spec_nv12_to_i420(src@, w as int, h as int),
            p <= y_size,
            dst@.len() == p,
            forall|j: int| 0 <= j < p ==> dst@[j] == target[j],
        decreases y_size - p,
    {
        dst.push(src[p]);
        p += 1;
    }
    let mut k: usize = 0;
    while k < uv_size
        invariant
            src@.len() <= usize::MAX,
            y_size + 2 * uv_size <= src@.len(),
            y_size == w * h,
            uv_size == y_size / 4,
            target == spec_nv12_to_i420(src@, w as int, h as int),
            k <= uv_size,
            dst@.len() == y_size + k,
            forall|j: int| 0 <= j < y_size + k ==> dst@[j] == target[j],
        decreases uv_size - k,
    {
        dst.push(src[y_size + 2 * k]);
        k += 1;
    }
    let mut k: usize = 0;
    while k < uv_size
        invariant
            src@.len() <= usize::MAX,
            y_size + 2 * uv_size <= src@.len(),
            y_size == w * h,
            uv_size == y_size / 4,
            target == spec_nv12_to_i420(src@, w as int, h as int),
            k <= uv_size,
            dst@.len() == y_size + uv_size + k,
            forall|j: int| 0 <= j < y_size + uv_size + k ==> dst@[j] == target[j],
        decreases uv_size - k,
    {
        dst.push(src[y_size + 2 * k + 1]);
        k += 1;
    }
    assert(dst@ =~= target);
    dst
}

/// Converting a well-sized I420 frame to NV12 and back gives the frame back.
pub proof fn lemma_i420_nv12_roundtrip(s: Seq<u8>, w: int, h: int)
    requires
        w >= 0,
        h >= 0,
        s.len() == w * h + 2 * ((w * h) / 4),
    ensures
        spec_nv12_to_i420(spec_i420_to_nv12(s, w, h), w, h) == s,
{
    let y = w * h;
    let q = y / 4;
    let n = spec_i420_to_nv12(s, w, h);
    let back = spec_nv12_to_i420(n, w, h);
    assert forall|i: int| 0 <= i < s.len() implies back[i] == s[i] by {
        if y <= i < y + q {
            lemma_group_index(i - y, 0, 2);
        } else if i >= y + q {
            lemma_group_index(i - y - q, 1, 2);
        }
    }
    assert(back =~= s);
}

/// Converting a well-sized NV12 frame to I420 and back gives the frame back.
pub proof fn lemma_nv12_i420_roundtrip(s: Seq<u8>, w: int, h: int)
    requires
        w >= 0,
        h >= 0,
        s.len() == w * h + 2 * ((w * h) / 4),
    ensures
        spec_i420_to_nv12(spec_nv12_to_i420(s, w, h), w, h) == s,
{
    let y = w * h;
    let q = y / 4;
    let n = spec_nv12_to_i420(s, w, h);
    let back = spec_i420_to_nv12(n, w, h);
    assert forall|i: int| 0 <= i < s.len() implies back[i] == s[i] by {
        if i >= y {
            let j = i - y;
            vstd::arithmetic::div_mod::lemma_fundamental_div_mod(j, 2);
            if j % 2 == 0 {
                assert(y + 2 * (j / 2) == i);
            } else {
                assert(y + 2 * (j / 2) + 1 == i);
            }
        }
    }
    assert(back =~= s);
}


// ---------------------------------------------------------------------------
// 4:2:0 to RGBA
// ---------------------------------------------------------------------------
/// One colour component (0 red, 1 green, 2 blue) of a YUV pixel.
pub open spec fn rgb_component(y: u8, u: u8, v: u8, c: int) -> u8 {
    if c == 0 {
        spec_red(y, u, v)
    } else if c == 1 {
        spec_green(y, u, v)
    } else {
        spec_blue(y, u, v)
    }
}

/// I420 (or NV12 with `interleaved`) to RGBA: every pixel converted with the
/// chroma of its 2x2 block, alpha opaque.
pub open spec fn spec_yuv420_to_rgba(s: Seq<u8>, w: int, h: int, interleaved: bool) -> Seq<u8> {
    let y = w * h;
    let q = y / 4;
    Seq::new(
        (4 * y) as nat,
        |i: int|
            {
                let p = i / 4;
                let k = chroma_index(w, p);
                if i % 4 == 3 {
                    255u8
                } else if interleaved {
                    rgb_component(s[p], s[y + 2 * k], s[y + 2 * k + 1], i % 4)
                } else {
                    rgb_component(s[p], s[y + k], s[y + q + k], i % 4)
                }
            },
    )
}

/// The inputs on which the I420 to RGBA conversion runs: the planes the
/// conversion slices exist, and every chroma index lies in both chroma planes.
pub open spec fn i420_to_rgba_accepts(len: int, w: int, h: int) -> bool {
    let y = w * h;
    let q = y / 4;
    &&& y + q <= len
    &&& (y == 0 || (max_chroma_index(w, h) < q && y + q + max_chroma_index(w, h) < len))
    &&& 4 * y <= usize::MAX
}

/// The inputs on which the NV12 to RGBA conversion runs: the luma plane exists
/// and every interleaved chroma pair lies in the frame.
pub open spec fn nv12_to_rgba_accepts(len: int, w: int, h: int) -> bool {
    let y = w * h;
    &&& y <= len
    &&& (y == 0 || y + 2 * max_chroma_index(w, h) + 1 < len)
    &&& 4 * y <= usize::MAX
}

fn push_rgba(dst: &mut Vec<u8>, rgb: (u8, u8, u8))
    ensures
        final(dst)@ == old(dst)@.push(rgb.0).push(rgb.1).push(rgb.2).push(255u8),
{
    dst.push(rgb.0);
    dst.push(rgb.1);
    dst.push(rgb.2);
    dst.push(255);
}

fn yuv420_to_rgba(src: &[u8], width: u32, height: u32, interleaved: bool) -> (dst: Vec<u8>)
    requires
        interleaved ==> nv12_to_rgba_accepts(src@.len() as int, width as int, height as int),
        !interleaved ==> i420_to_rgba_accepts(src@.len() as int, width as int, height as int),
    ensures
        dst@ == spec_yuv420_to_rgba(src@, width as int, height as int, interleaved),
{
    let _n = src.len();
    let w = width as usize;
    let h = height as usize;
    assert(0 <= w * h) by (nonlinear_arith);
    let y_size = w * h;
    let uv_size = y_size / 4;
    let ghost target = spec_yuv420_to_rgba(src@, w as int, h as int, interleaved);
    let mut dst: Vec<u8> = Vec::new();
    let mut p: usize = 0;
    while p < y_size
        invariant
            src@.len() <= usize::MAX,
            y_size == w * h,
            uv_size == y_size / 4,
            4 * y_size <= usize::MAX,
            interleaved ==> nv12_to_rgba_accepts(src@.len() as int, w as int, h as int),
            !interleaved ==> i420_to_rgba_accepts(src@.len() as int, w as int, h as int),
            target == spec_yuv420_to_rgba(src@, w as int, h as int, interleaved),
            p <= y_size,
            dst@.len() == 4 * p,
            forall|j: int| 0 <= j < 4 * p ==> dst@[j] == target[j],
        decreases y_size - p,
    {
        proof {
            lemma_pixel_position(w as int, h as int, p as int);
            lemma_chroma_index_bound(w as int, h as int, p as int);
        }
        let row = p / w;
        let col = p % w;
        let k = (row / 2) * (w / 2) + col / 2;
        let luma = src[p];
        let rgb = if interleaved {
            yuv_to_rgb(luma, src[y_size + 2 * k], src[y_size + 2 * k + 1])
        } else {
            yuv_to_rgb(luma, src[y_size + k], src[y_size + uv_size + k])
        };
        push_rgba(&mut dst, rgb);
        proof {
            lemma_group_index(p as int, 0, 4);
            lemma_group_index(p as int, 1, 4);
            lemma_group_index(p as int, 2, 4);
            lemma_group_index(p as int, 3, 4);
        }
        p += 1;
    }
    assert(dst@ =~= target);
    dst
}

/// Convert I420 to RGBA (BT.601) with an opaque alpha channel.
pub fn i420_to_rgba(src: &[u8], width: u32, height: u32) -> (dst: Vec<u8>)
    requires
        i420_to_rgba_accepts(src@.len() as int, width as int, height as int),
    ensures
        dst@ == spec_yuv420_to_rgba(src@, width as int, height as int, false),
{
    yuv420_to_rgba(src, width, height, false)
}

/// Convert NV12 to RGBA (BT.601) with an opaque alpha channel.
pub fn nv12_to_rgba(src: &[u8], width: u32, height: u32) -> (dst: Vec<u8>)
    requires
        nv12_to_rgba_accepts(src@.len() as int, width as int, height as int),
    ensures
        dst@ == spec_yuv420_to_rgba(src@, width as int, height as int, true),
{
    yuv420_to_rgba(src, width, height, true)
}


// ---------------------------------------------------------------------------
// Packed 4:2:2 (YUYV, UYVY)
// ---------------------------------------------------------------------------
/// Luma of pixel `p` of a packed 4:2:2 frame (second byte of its pair for UYVY).
pub open spec fn packed_luma(s: Seq<u8>, p: int, uyvy: bool) -> u8 {
    if uyvy {
        s[2 * p + 1]
    } else {
        s[2 * p]
    }
}

/// The U sample of the pixel pair starting at pixel `pair`.
pub open spec fn packed_u(s: Seq<u8>, pair: int, uyvy: bool) -> u8 {
    if uyvy {
        s[2 * pair]
    } else {
        s[2 * pair + 1]
    }
}

/// The V sample of the pixel pair starting at pixel `pair`.
pub open spec fn packed_v(s: Seq<u8>, pair: int, uyvy: bool) -> u8 {
    if uyvy {
        s[2 * pair + 2]
    } else {
        s[2 * pair + 3]
    }
}

/// YUYV (or UYVY) to NV12: every luma byte, then for every even row the
/// row's chroma pairs in order (U, V, U, V, ...); odd rows' chroma is dropped.
pub open spec fn spec_packed422_to_nv12(s: Seq<u8>, w: int, h: int, uyvy: bool) -> Seq<u8> {
    let y = w * h;
    Seq::new(
        (y + y / 2) as nat,
        |i: int|
            if i < y {
                packed_luma(s, i, uyvy)
            } else {
                let k = i - y;
                let base = 2 * (2 * (k / w) * w + k % w);
                if uyvy {
                    s[base]
                } else {
                    s[base + 1]
                }
            },
    )
}

/// Packed 4:2:2 to NV12 keeps every luma byte in place and takes chroma row
/// `j` from source row `2 * j`: byte `x` of that chroma row is the chroma byte
/// stored with pixel `x` of row `2 * j` (U for even `x`, V for odd `x`).
pub proof fn lemma_packed422_nv12_rows(s: Seq<u8>, w: int, h: int, uyvy: bool, j: int, x: int, p: int)
    requires
        packed422_to_nv12_accepts(s.len() as int, w, h),
        w > 0,
        h > 0,
        0 <= j < h / 2,
        0 <= x < w,
        0 <= p < w * h,
    ensures
        ({
            let out = spec_packed422_to_nv12(s, w, h, uyvy);
            let chroma = if uyvy {
                0int
            } else {
                1int
            };
            let luma = if uyvy {
                1int
            } else {
                0int
            };
            &&& out[p] == s[2 * p + luma]
            &&& out[w * h + j * w + x] == s[2 * ((2 * j) * w + x) + chroma]
        }),
{
    let y = w * h;
    let k = j * w + x;
    lemma_group_index(j, x, w);
    assert(w * j == j * w) by (nonlinear_arith);
    assert(2 * j * w == (2 * j) * w) by (nonlinear_arith);
    assert(k < y / 2) by (nonlinear_arith)
        requires
            k == j * w + x,
            0 <= j < h / 2,
            0 <= x < w,
            h % 2 == 0 || w * h == 0,
            y == w * h,
            w > 0,
    ;
}

/// YUYV (or UYVY) to RGBA: every pixel converted with the chroma of its pair,
/// alpha opaque.
pub open spec fn spec_packed422_to_rgba(s: Seq<u8>, w: int, h: int, uyvy: bool) -> Seq<u8> {
    Seq::new(
        (4 * (w * h)) as nat,
        |i: int|
            {
                let p = i / 4;
                let pair = p - p % 2;
                if i % 4 == 3 {
                    255u8
                } else {
                    rgb_component(
                        packed_luma(s, p, uyvy),
                        packed_u(s, pair, uyvy),
                        packed_v(s, pair, uyvy),
                        i % 4,
                    )
                }
            },
    )
}

/// The inputs on which the packed 4:2:2 to NV12 conversion runs: two bytes
/// per pixel, and (for a non-empty frame) even width and height.
pub open spec fn packed422_to_nv12_accepts(len: int, w: int, h: int) -> bool {
    &&& w * h == 0 || (w % 2 == 0 && h % 2 == 0)
    &&& 2 * (w * h) <= len
}

/// The inputs on which the packed 4:2:2 to RGBA conversion runs: two bytes
/// per pixel, and (for a non-empty frame) an even width.
pub open spec fn packed422_to_rgba_accepts(len: int, w: int, h: int) -> bool {
    &&& w * h == 0 || w % 2 == 0
    &&& 2 * (w * h) <= len
    &&& 4 * (w * h) <= usize::MAX
}

/// The chroma pair read for sample `k` of the NV12 chroma plane lies in the frame.
proof fn lemma_packed_chroma_bound(w: int, h: int, k: int)
    requires
        w > 0,
        h > 0,
        w % 2 == 0,
        h % 2 == 0,
        0 <= k < (w * h) / 2,
    ensures
        0 <= 2 * (2 * (k / w) * w + k % w) + 1 < 2 * (w * h),
{
    let r = k / w;
    let c = k % w;
    vstd::arithmetic::div_mod::lemma_fundamental_div_mod(k, w);
    assert(w * r == r * w) by (nonlinear_arith);
    assert((w * h) / 2 == (h / 2) * w) by (nonlinear_arith)
        requires
            h % 2 == 0,
            w > 0,
    ;
    assert(r >= 0) by (nonlinear_arith)
        requires
            k >= 0,
            w > 0,
            r == k / w,
    ;
    if r >= h / 2 {
        assert(r * w >= (h / 2) * w) by (nonlinear_arith)
            requires
                r >= h / 2,
                w > 0,
        ;
    }
    assert(2 * r * w <= (h - 2) * w) by (nonlinear_arith)
        requires
            2 * r <= h - 2,
            w > 0,
    ;
    assert((h - 2) * w + w == w * h - w) by (nonlinear_arith);
}

/// A frame with an even width has an even number of pixels.
proof fn lemma_even_width_even_pixels(w: int, h: int)
    requires
        w % 2 == 0,
        h >= 0,
    ensures
        (w * h) % 2 == 0,
{
    assert(w == 2 * (w / 2));
    assert(w * h == 2 * ((w / 2) * h)) by (nonlinear_arith)
        requires
            w == 2 * (w / 2),
    ;
    lemma_group_index((w / 2) * h, 0, 2);
}

fn packed422_to_nv12(src: &[u8], width: u32, height: u32, uyvy: bool) -> (dst: Vec<u8>)
    requires
        packed422_to_nv12_accepts(src@.len() as int, width as int, height as int),
    ensures
        dst@ == spec_packed422_to_nv12(src@, width as int, height as int, uyvy),
{
    let _n = src.len();
    let w = width as usize;
    let h = height as usize;
    assert(0 <= w * h) by (nonlinear_arith);
    let y_size = w * h;
    let uv_size = y_size / 2;
    let ghost target = spec_packed422_to_nv12(src@, w as int, h as int, uyvy);
    let mut dst: Vec<u8> = Vec::new();
    let mut p: usize = 0;
    while p < y_size
        invariant
            src@.len() <= usize::MAX,
            y_size == w * h,
            2 * y_size <= src@.len(),
            target == spec_packed422_to_nv12(src@, w as int, h as int, uyvy),
            p <= y_size,
            dst@.len() == p,
            forall|j: int| 0 <= j < p ==> dst@[j] == target[j],
        decreases y_size - p,
    {
        if uyvy {
            dst.push(src[2 * p + 1]);
        } else {
            dst.push(src[2 * p]);
        }
        p += 1;
    }
    let mut k: usize = 0;
    while k < uv_size
        invariant
            src@.len() <= usize::MAX,
            y_size == w * h,
            uv_size == y_size / 2,
            packed422_to_nv12_accepts(src@.len() as int, w as int, h as int),
            target == spec_packed422_to_nv12(src@, w as int, h as int, uyvy),
            k <= uv_size,
            dst@.len() == y_size + k,
            forall|j: int| 0 <= j < y_size + k ==> dst@[j] == target[j],
        decreases uv_size - k,
    {
        proof {
            assert(w > 0 && h > 0) by (nonlinear_arith)
                requires
                    k < (w * h) / 2,
                    w >= 0,
                    h >= 0,
            ;
            lemma_packed_chroma_bound(w as int, h as int, k as int);
        }
        let row = k / w;
        let col = k % w;
        let base = 2 * (2 * row * w + col);
        if uyvy {
            dst.push(src[base]);
        } else {
            dst.push(src[base + 1]);
        }
        k += 1;
    }
    assert(dst@ =~= target);
    dst
}

/// Convert YUYV to NV12; the chroma of even rows is kept.
pub fn yuyv_to_nv12(src: &[u8], width: u32, height: u32) -> (dst: Vec<u8>)
    requires
        packed422_to_nv12_accepts(src@.len() as int, width as int, height as int),
    ensures
        dst@ == spec_packed422_to_nv12(src@, width as int, height as int, false),
{
    packed422_to_nv12(src, width, height, false)
}

/// Convert UYVY to NV12; the chroma of even rows is kept.
pub fn uyvy_to_nv12(src: &[u8], width: u32, height: u32) -> (dst: Vec<u8>)
    requires
        packed422_to_nv12_accepts(src@.len() as int, width as int, height as int),
    ensures
        dst@ == spec_packed422_to_nv12(src@, width as int, height as int, true),
{
    packed422_to_nv12(src, width, height, true)
}

fn packed422_to_rgba(src: &[u8], width: u32, height: u32, uyvy: bool) -> (dst: Vec<u8>)
    requires
        packed422_to_rgba_accepts(src@.len() as int, width as int, height as int),
    ensures
        dst@ == spec_packed422_to_rgba(src@, width as int, height as int, uyvy),
{
    let _n = src.len();
    let w = width as usize;
    let h = height as usize;
    assert(0 <= w * h) by (nonlinear_arith);
    let y_size = w * h;
    proof {
        if y_size > 0 {
            lemma_even_width_even_pixels(w as int, h as int);
        }
    }
    let ghost target = spec_packed422_to_rgba(src@, w as int, h as int, uyvy);
    let mut dst: Vec<u8> = Vec::new();
    let mut p: usize = 0;
    while p < y_size
        invariant
            src@.len() <= usize::MAX,
            y_size == w * h,
            y_size % 2 == 0,
            2 * y_size <= src@.len(),
            4 * y_size <= usize::MAX,
            target == spec_packed422_to_rgba(src@, w as int, h as int, uyvy),
            p <= y_size,
            dst@.len() == 4 * p,
            forall|j: int| 0 <= j < 4 * p ==> dst@[j] == target[j],
        decreases y_size - p,
    {
        let pair = p - p % 2;
        let (luma, u, v) = if uyvy {
            (src[2 * p + 1], src[2 * pair], src[2 * pair + 2])
        } else {
            (src[2 * p], src[2 * pair + 1], src[2 * pair + 3])
        };
        let rgb = yuv_to_rgb(luma, u, v);
        push_rgba(&mut dst, rgb);
        proof {
            lemma_group_index(p as int, 0, 4);
            lemma_group_index(p as int, 1, 4);
            lemma_group_index(p as int, 2, 4);
            lemma_group_index(p as int, 3, 4);
        }
        p += 1;
    }
    assert(dst@ =~= target);
    dst
}

/// Convert YUYV to RGBA (BT.601); both pixels of a pair share its chroma.
pub fn yuyv_to_rgba(src: &[u8], width: u32, height: u32) -> (dst: Vec<u8>)
    requires
        packed422_to_rgba_accepts(src@.len() as int, width as int, height as int),
    ensures
        dst@ == spec_packed422_to_rgba(src@, width as int, height as int, false),
{
    packed422_to_rgba(src, width, height, false)
}

/// Convert UYVY to RGBA (BT.601); both pixels of a pair share its chroma.
pub fn uyvy_to_rgba(src: &[u8], width: u32, height: u32) -> (dst: Vec<u8>)
    requires
        packed422_to_rgba_accepts(src@.len() as int, width as int, height as int),
    ensures
        dst@ == spec_packed422_to_rgba(src@, width as int, height as int, true),
{
    packed422_to_rgba(src, width, height, true)
}


// ---------------------------------------------------------------------------
// Dispatch
// ---------------------------------------------------------------------------
/// Whether `convert_frame` has a conversion from `src` to `dst` (formats that
/// are equal are copied).
pub open spec fn conversion_supported(src: PixelFormat, dst: PixelFormat) -> bool {
    src == dst || match (src, dst) {
        (PixelFormat::RGB, PixelFormat::BGR) | (PixelFormat::RGB, PixelFormat::RGBA) | (
            PixelFormat::RGB,
            PixelFormat::I420,
        ) | (PixelFormat::RGB, PixelFormat::NV12) => true,
        (PixelFormat::BGR, PixelFormat::RGB) | (PixelFormat::BGR, PixelFormat::RGBA) | (
            PixelFormat::BGR,
            PixelFormat::I420,
        ) | (PixelFormat::BGR, PixelFormat::NV12) => true,
        (PixelFormat::RGBA, PixelFormat::RGB) | (PixelFormat::RGBA, PixelFormat::BGR) | (
            PixelFormat::RGBA,
            PixelFormat::NV12,
        ) => true,
        (PixelFormat::GRAY, PixelFormat::RGB) | (PixelFormat::GRAY, PixelFormat::BGR) | (
            PixelFormat::GRAY,
            PixelFormat::RGBA,
        ) | (PixelFormat::GRAY, PixelFormat::NV12) => true,
        (PixelFormat::I420, PixelFormat::NV12) | (PixelFormat::I420, PixelFormat::RGBA) => true,
        (PixelFormat::NV12, PixelFormat::I420) | (PixelFormat::NV12, PixelFormat::RGBA) => true,
        (PixelFormat::YUYV, PixelFormat::NV12) | (PixelFormat::YUYV, PixelFormat::RGBA) => true,
        (PixelFormat::UYVY, PixelFormat::NV12) | (PixelFormat::UYVY, PixelFormat::RGBA) => true,
        _ => false,
    }
}

/// The inputs on which `convert_frame` runs: for every supported pair, the
/// requirement of its conversion on a frame of `len` bytes.
pub open spec fn convert_accepts(
    len: int,
    src: PixelFormat,
    dst: PixelFormat,
    w: int,
    h: int,
) -> bool {
    src == dst || match (src, dst) {
        (PixelFormat::RGB, PixelFormat::BGR) | (PixelFormat::BGR, PixelFormat::RGB) => len % 3
            == 0,
        (PixelFormat::RGB, PixelFormat::RGBA) | (PixelFormat::BGR, PixelFormat::RGBA) => (len / 3)
            * 4 <= usize::MAX,
        (PixelFormat::RGB, PixelFormat::I420) | (PixelFormat::RGB, PixelFormat::NV12) | (
            PixelFormat::BGR,
            PixelFormat::I420,
        ) | (PixelFormat::BGR, PixelFormat::NV12) => rgb24_to_i420_accepts(len, w, h),
        (PixelFormat::RGBA, PixelFormat::NV12) => rgb24_to_i420_accepts((len / 4) * 3, w, h),
        (PixelFormat::GRAY, PixelFormat::RGB) | (PixelFormat::GRAY, PixelFormat::BGR) => len * 3
            <= usize::MAX,
        (PixelFormat::GRAY, PixelFormat::RGBA) => len * 4 <= usize::MAX,
        (PixelFormat::GRAY, PixelFormat::NV12) => w * h <= u32::MAX && len == w * h,
        (PixelFormat::I420, PixelFormat::NV12) | (PixelFormat::NV12, PixelFormat::I420) =>
            holds_yuv420(len, w, h),
        (PixelFormat::I420, PixelFormat::RGBA) => i420_to_rgba_accepts(len, w, h),
        (PixelFormat::NV12, PixelFormat::RGBA) => nv12_to_rgba_accepts(len, w, h),
        (PixelFormat::YUYV, PixelFormat::NV12) | (PixelFormat::UYVY, PixelFormat::NV12) =>
            packed422_to_nv12_accepts(len, w, h),
        (PixelFormat::YUYV, PixelFormat::RGBA) | (PixelFormat::UYVY, PixelFormat::RGBA) =>
            packed422_to_rgba_accepts(len, w, h),
        _ => true,
    }
}

/// The largest chroma index of a `w` x `h` frame (both positive).
fn max_chroma_index_of(w: u128, h: u128) -> (m: u128)
    requires
        0 < w <= u32::MAX,
        0 < h <= u32::MAX,
    ensures
        m == max_chroma_index(w as int, h as int),
        m <= w * h,
{
    assert(((h - 1) / 2) * (w / 2) + (w - 1) / 2 <= h * w) by (nonlinear_arith)
        requires
            0 < w,
            0 < h,
    ;
    assert(h * w <= u32::MAX * u32::MAX) by (nonlinear_arith)
        requires
            w <= u32::MAX,
            h <= u32::MAX,
    ;
    ((h - 1) / 2) * (w / 2) + (w - 1) / 2
}

/// Whether `convert_frame` runs on a frame of `len` bytes (the exact test of
/// [`convert_accepts`]).
pub fn convert_frame_accepts(
    len: usize,
    src_format: PixelFormat,
    dst_format: PixelFormat,
    width: u32,
    height: u32,
) -> (accepted: bool)
    ensures
        accepted == convert_accepts(len as int, src_format, dst_format, width as int, height as int),
{
    if src_format == dst_format {
        return true;
    }
    let w = width as u128;
    let h = height as u128;
    let n = len as u128;
    assert(w * h <= u32::MAX * u32::MAX) by (nonlinear_arith)
        requires
            w <= u32::MAX,
            h <= u32::MAX,
    ;
    let y = w * h;
    assert((y == 0) == (w == 0 || h == 0)) by (nonlinear_arith)
        requires
            y == w * h,
    ;
    assert(h * w == w * h) by (nonlinear_arith);
    let umax = usize::MAX as u128;
    let fits = w == 0 || h == 0 || max_chroma_index_of(w, h) < y / 4;
    let rgb_to_420 = |bytes: u128| -> (ok: bool)
        requires
            bytes <= usize::MAX,
        ensures
            ok == rgb24_to_i420_accepts(bytes as int, width as int, height as int),
        { 3 * y <= bytes && fits };
    match (src_format, dst_format) {
        (PixelFormat::RGB, PixelFormat::BGR) | (PixelFormat::BGR, PixelFormat::RGB) => n % 3 == 0,
        (PixelFormat::RGB, PixelFormat::RGBA) | (PixelFormat::BGR, PixelFormat::RGBA) => (n / 3) * 4
            <= umax,
        (PixelFormat::RGB, PixelFormat::I420) | (PixelFormat::RGB, PixelFormat::NV12) | (
            PixelFormat::BGR,
            PixelFormat::I420,
        ) | (PixelFormat::BGR, PixelFormat::NV12) => rgb_to_420(n),
        (PixelFormat::RGBA, PixelFormat::NV12) => rgb_to_420((n / 4) * 3),
        (PixelFormat::GRAY, PixelFormat::RGB) | (PixelFormat::GRAY, PixelFormat::BGR) => n * 3
            <= umax,
        (PixelFormat::GRAY, PixelFormat::RGBA) => n * 4 <= umax,
        (PixelFormat::GRAY, PixelFormat::NV12) => y <= 0xFFFF_FFFF && n == y,
        (PixelFormat::I420, PixelFormat::NV12) | (PixelFormat::NV12, PixelFormat::I420) => y + 2 * (
        y / 4) <= n,
        (PixelFormat::I420, PixelFormat::RGBA) => {
            let q = y / 4;
            y + q <= n && (y == 0 || (max_chroma_index_of(w, h) < q && y + q
                + max_chroma_index_of(w, h) < n)) && 4 * y <= umax
        },
        (PixelFormat::NV12, PixelFormat::RGBA) => {
            y <= n && (y == 0 || y + 2 * max_chroma_index_of(w, h) + 1 < n) && 4 * y <= umax
        },
        (PixelFormat::YUYV, PixelFormat::NV12) | (PixelFormat::UYVY, PixelFormat::NV12) => (y == 0
            || (w % 2 == 0 && h % 2 == 0)) && 2 * y <= n,
        (PixelFormat::YUYV, PixelFormat::RGBA) | (PixelFormat::UYVY, PixelFormat::RGBA) => (y == 0
            || w % 2 == 0) && 2 * y <= n && 4 * y <= umax,
        _ => true,
    }
}

/// The frame that `convert_frame` produces: the source unchanged for equal
/// formats, the conversion for a supported pair, and no bytes otherwise.
pub open spec fn spec_convert_frame(
    s: Seq<u8>,
    src: PixelFormat,
    dst: PixelFormat,
    w: int,
    h: int,
) -> Seq<u8> {
    if src == dst {
        s
    } else {
        match (src, dst) {
            (PixelFormat::RGB, PixelFormat::BGR) | (PixelFormat::BGR, PixelFormat::RGB) =>
                spec_swap_rb(s),
            (PixelFormat::RGB, PixelFormat::RGBA) => spec_rgb24_to_rgba(s, false),
            (PixelFormat::BGR, PixelFormat::RGBA) => spec_rgb24_to_rgba(s, true),
            (PixelFormat::RGB, PixelFormat::I420) => spec_rgb24_to_i420(s, w, h, false),
            (PixelFormat::BGR, PixelFormat::I420) => spec_rgb24_to_i420(s, w, h, true),
            (PixelFormat::RGB, PixelFormat::NV12) => spec_i420_to_nv12(
                spec_rgb24_to_i420(s, w, h, false),
                w,
                h,
            ),
            (PixelFormat::BGR, PixelFormat::NV12) => spec_i420_to_nv12(
                spec_rgb24_to_i420(s, w, h, true),
                w,
                h,
            ),
            (PixelFormat::RGBA, PixelFormat::RGB) => spec_rgba_to_rgb24(s, false),
            (PixelFormat::RGBA, PixelFormat::BGR) => spec_rgba_to_rgb24(s, true),
            (PixelFormat::RGBA, PixelFormat::NV12) => spec_i420_to_nv12(
                spec_rgb24_to_i420(spec_rgba_to_rgb24(s, false), w, h, false),
                w,
                h,
            ),
            (PixelFormat::GRAY, PixelFormat::RGB) | (PixelFormat::GRAY, PixelFormat::BGR) =>
                spec_gray_to_rgb24(s),
            (PixelFormat::GRAY, PixelFormat::RGBA) => spec_gray_to_rgba(s),
            (PixelFormat::GRAY, PixelFormat::NV12) => spec_gray_to_nv12(s, w, h),
            (PixelFormat::I420, PixelFormat::NV12) => spec_i420_to_nv12(s, w, h),
            (PixelFormat::I420, PixelFormat::RGBA) => spec_yuv420_to_rgba(s, w, h, false),
            (PixelFormat::NV12, PixelFormat::I420) => spec_nv12_to_i420(s, w, h),
            (PixelFormat::NV12, PixelFormat::RGBA) => spec_yuv420_to_rgba(s, w, h, true),
            (PixelFormat::YUYV, PixelFormat::NV12) => spec_packed422_to_nv12(s, w, h, false),
            (PixelFormat::UYVY, PixelFormat::NV12) => spec_packed422_to_nv12(s, w, h, true),
            (PixelFormat::YUYV, PixelFormat::RGBA) => spec_packed422_to_rgba(s, w, h, false),
            (PixelFormat::UYVY, PixelFormat::RGBA) => spec_packed422_to_rgba(s, w, h, true),
            _ => Seq::empty(),
        }
    }
}

/// For even, nonzero dimensions and a frame of the source format's size, every
/// supported conversion runs and gives a frame of the target format's size.
pub proof fn lemma_convert_frame_len(
    s: Seq<u8>,
    src: PixelFormat,
    dst: PixelFormat,
    width: u32,
    height: u32,
)
    requires
        width > 0,
        height > 0,
        width % 2 == 0,
        height % 2 == 0,
        conversion_supported(src, dst),
        frame_size_computable(src, width, height),
        frame_size_computable(dst, width, height),
        s.len() == spec_frame_size(src, width, height),
    ensures
        convert_accepts(s.len() as int, src, dst, width as int, height as int),
        spec_convert_frame(s, src, dst, width as int, height as int).len() == spec_frame_size(
            dst,
            width,
            height,
        ),
{
    let w = width as int;
    let h = height as int;
    let a = w / 2;
    let b = h / 2;
    let y = w * h;
    assert(y == 4 * (a * b)) by (nonlinear_arith)
        requires
            w == 2 * a,
            h == 2 * b,
            y == w * h,
    ;
    assert(a * b >= 1) by (nonlinear_arith)
        requires
            a >= 1,
            b >= 1,
    ;
    assert(max_chroma_index(w, h) == a * b - 1) by (nonlinear_arith)
        requires
            w == 2 * a,
            h == 2 * b,
            a >= 1,
            b >= 1,
            (h - 1) / 2 == b - 1,
            (w - 1) / 2 == a - 1,
    ;
    assert(subsampling_fits(w, h));
    assert(pixel_count(width, height) == y);
}

/// Convert RGB to NV12 (through I420).
pub fn rgb_to_nv12(src: &[u8], width: u32, height: u32) -> (dst: Vec<u8>)
    requires
        rgb24_to_i420_accepts(src@.len() as int, width as int, height as int),
    ensures
        dst@ == spec_i420_to_nv12(
            spec_rgb24_to_i420(src@, width as int, height as int, false),
            width as int,
            height as int,
        ),
{
    let i420 = rgb_to_i420(src, width, height);
    i420_to_nv12(&i420, width, height)
}

/// Convert BGR to NV12 (through I420).
pub fn bgr_to_nv12(src: &[u8], width: u32, height: u32) -> (dst: Vec<u8>)
    requires
        rgb24_to_i420_accepts(src@.len() as int, width as int, height as int),
    ensures
        dst@ == spec_i420_to_nv12(
            spec_rgb24_to_i420(src@, width as int, height as int, true),
            width as int,
            height as int,
        ),
{
    let i420 = bgr_to_i420(src, width, height);
    i420_to_nv12(&i420, width, height)
}

/// Convert RGBA to NV12 (through RGB and I420).
pub fn rgba_to_nv12(src: &[u8], width: u32, height: u32) -> (dst: Vec<u8>)
    requires
        rgb24_to_i420_accepts(((src@.len() / 4) * 3) as int, width as int, height as int),
    ensures
        dst@ == spec_i420_to_nv12(
            spec_rgb24_to_i420(spec_rgba_to_rgb24(src@, false), width as int, height as int, false),
            width as int,
            height as int,
        ),
{
    let rgb = rgba_to_rgb(src);
    rgb_to_nv12(&rgb, width, height)
}

/// Convert a frame from one pixel format to another. Equal formats are
/// copied; a pair of formats without a conversion gives an empty frame.
pub fn convert_frame(
    src: &[u8],
    src_format: PixelFormat,
    dst_format: PixelFormat,
    width: u32,
    height: u32,
) -> (dst: Vec<u8>)
    requires
        convert_accepts(src@.len() as int, src_format, dst_format, width as int, height as int),
    ensures
        dst@ == spec_convert_frame(src@, src_format, dst_format, width as int, height as int),
{
    if src_format == dst_format {
        return vstd::slice::slice_to_vec(src);
    }
    match (src_format, dst_format) {
        (PixelFormat::RGB, PixelFormat::BGR) => rgb_to_bgr(src),
        (PixelFormat::RGB, PixelFormat::RGBA) => rgb_to_rgba(src),
        (PixelFormat::RGB, PixelFormat::I420) => rgb_to_i420(src, width, height),
        (PixelFormat::RGB, PixelFormat::NV12) => rgb_to_nv12(src, width, height),
        (PixelFormat::BGR, PixelFormat::RGB) => bgr_to_rgb(src),
        (PixelFormat::BGR, PixelFormat::RGBA) => bgr_to_rgba(src),
        (PixelFormat::BGR, PixelFormat::I420) => bgr_to_i420(src, width, height),
        (PixelFormat::BGR, PixelFormat::NV12) => bgr_to_nv12(src, width, height),
        (PixelFormat::RGBA, PixelFormat::RGB) => rgba_to_rgb(src),
        (PixelFormat::RGBA, PixelFormat::BGR) => rgba_to_bgr(src),
        (PixelFormat::RGBA, PixelFormat::NV12) => rgba_to_nv12(src, width, height),
        (PixelFormat::GRAY, PixelFormat::RGB) => gray_to_rgb(src),
        (PixelFormat::GRAY, PixelFormat::BGR) => gray_to_bgr(src),
        (PixelFormat::GRAY, PixelFormat::RGBA) => gray_to_rgba(src),
        (PixelFormat::GRAY, PixelFormat::NV12) => gray_to_nv12(src, width, height),
        (PixelFormat::I420, PixelFormat::NV12) => i420_to_nv12(src, width, height),
        (PixelFormat::I420, PixelFormat::RGBA) => i420_to_rgba(src, width, height),
        (PixelFormat::NV12, PixelFormat::I420) => nv12_to_i420(src, width, height),
        (PixelFormat::NV12, PixelFormat::RGBA) => nv12_to_rgba(src, width, height),
        (PixelFormat::YUYV, PixelFormat::NV12) => yuyv_to_nv12(src, width, height),
        (PixelFormat::YUYV, PixelFormat::RGBA) => yuyv_to_rgba(src, width, height),
        (PixelFormat::UYVY, PixelFormat::NV12) => uyvy_to_nv12(src, width, height),
        (PixelFormat::UYVY, PixelFormat::RGBA) => uyvy_to_rgba(src, width, height),
        _ => Vec::new(),
    }
}


// ---------------------------------------------------------------------------
// Vertical flip
// ---------------------------------------------------------------------------
/// Where byte `i` of a frame of `h` rows of `stride` bytes comes from after a
/// vertical flip: the same column of the mirrored row; bytes past the rows stay.
pub open spec fn flip_source(i: int, h: int, stride: int) -> int {
    if i < h * stride {
        (h - 1 - i / stride) * stride + i % stride
    } else {
        i
    }
}

/// The inputs on which `flip_vertical` runs: the row size fits in a `u32`, and
/// with two rows or more all rows lie in the buffer.
pub open spec fn flip_accepts(len: int, width: u32, height: u32, bytes_per_pixel: u32) -> bool {
    &&& width * bytes_per_pixel <= u32::MAX
    &&& (height < 2 || height * (width * bytes_per_pixel) <= len)
}

/// The mirrored row of a byte within the frame is again within the frame, and
/// mirroring twice returns to the byte.
pub proof fn lemma_flip_source_bound(i: int, h: int, stride: int)
    requires
        0 <= i,
        h >= 0,
        stride >= 0,
    ensures
        0 <= flip_source(i, h, stride),
        i < h * stride ==> flip_source(i, h, stride) < h * stride,
        flip_source(flip_source(i, h, stride), h, stride) == i,
{
    if i < h * stride {
        assert(stride > 0) by (nonlinear_arith)
            requires
                0 <= i < h * stride,
                h >= 0,
                stride >= 0,
        ;
        lemma_pixel_position(stride, h, i);
        let r = i / stride;
        let c = i % stride;
        let j = (h - 1 - r) * stride + c;
        lemma_group_index(h - 1 - r, c, stride);
        assert(stride * (h - 1 - r) == (h - 1 - r) * stride) by (nonlinear_arith);
        assert(0 <= (h - 1 - r) * stride) by (nonlinear_arith)
            requires
                0 <= h - 1 - r,
                stride > 0,
        ;
        assert((h - 1 - r) * stride + stride <= h * stride) by (nonlinear_arith)
            requires
                0 <= r,
                stride > 0,
        ;
    }
}

/// A frame turned upside down: each byte taken from the mirrored row.
pub open spec fn flipped(frame: Seq<u8>, height: u32, stride: int) -> Seq<u8> {
    Seq::new(frame.len(), |i: int| frame[flip_source(i, height as int, stride)])
}

/// Turning a frame upside down twice gives it back.
pub proof fn lemma_flip_twice(frame: Seq<u8>, height: u32, stride: int)
    requires
        stride >= 0,
        height < 2 || height * stride <= frame.len(),
    ensures
        flipped(flipped(frame, height, stride), height, stride) == frame,
{
    let once = flipped(frame, height, stride);
    assert forall|i: int| 0 <= i < frame.len() implies #[trigger] flipped(once, height, stride)[i]
        == frame[i] by {
        lemma_flip_source_bound(i, height as int, stride);
        if height == 0 {
            assert(height * stride == 0) by (nonlinear_arith)
                requires
                    height == 0,
            ;
        } else if height == 1 {
            assert(height * stride == stride) by (nonlinear_arith)
                requires
                    height == 1,
            ;
            if i < stride {
                vstd::arithmetic::div_mod::lemma_basic_div(i, stride);
                vstd::arithmetic::div_mod::lemma_small_mod(i as nat, stride as nat);
                let r = i / stride;
                assert((height - 1 - r) * stride == 0) by (nonlinear_arith)
                    requires
                        height == 1,
                        r == 0,
                ;
                assert(flip_source(i, height as int, stride) == i);
            }
        }
        let j = flip_source(i, height as int, stride);
        assert(0 <= j < frame.len());
    }
    assert(flipped(once, height, stride) =~= frame);
}

/// Whether byte `i` already holds its mirrored byte while rows are being
/// exchanged: bytes before `done_top`, bytes of the bottom row being written in
/// `[bottom, bottom + done_bottom)`, and the rows from `bottom + st` to `h * st`.
spec fn flip_done(i: int, done_top: int, bottom: int, done_bottom: int, h: int, st: int) -> bool {
    i < done_top || (bottom <= i && i < bottom + done_bottom) || (bottom + st <= i && i < h * st)
}

/// Flip a frame upside down in place: row `y` exchanges with row `height - 1 - y`.
pub fn flip_vertical(data: &mut [u8], width: u32, height: u32, bytes_per_pixel: u32)
    requires
        flip_accepts(old(data)@.len() as int, width, height, bytes_per_pixel),
    ensures
        final(data)@.len() == old(data)@.len(),
        forall|i: int|
            0 <= i < old(data)@.len() ==> #[trigger] final(data)@[i] == old(data)@[flip_source(
                i,
                height as int,
                (width * bytes_per_pixel) as int,
            )],
        final(data)@ == flipped(old(data)@, height, (width * bytes_per_pixel) as int),
{
    let stride = (width * bytes_per_pixel) as usize;
    let h = height as usize;
    let ghost original = data@;
    let ghost hs = h as int;
    let ghost st = stride as int;
    let len = data.len();
    let half = h / 2;
    let mut y: usize = 0;
    while y < half
        invariant
            data@.len() == original.len(),
            len == original.len(),
            half == h / 2,
            hs == h,
            st == stride,
            h >= 2 ==> h * stride <= len,
            y <= half,
            forall|i: int|
                0 <= i < len ==> #[trigger] data@[i] == original[if flip_done(
                    i,
                    y * st,
                    (hs - y) * st - st,
                    0,
                    hs,
                    st,
                ) {
                    flip_source(i, hs, st)
                } else {
                    i
                }],
        decreases half - y,
    {
        assert((h - 1 - y) * stride + stride <= h * stride) by (nonlinear_arith)
            requires
                y < h / 2,
                stride >= 0,
        ;
        assert(y * stride + stride == (y + 1) * stride && (h - 1 - y) * stride + stride == (h - y)
            * stride) by (nonlinear_arith);
        assert((y + 1) * stride <= (h - 1 - y) * stride) by (nonlinear_arith)
            requires
                y < h / 2,
                stride >= 0,
        ;
        let top = y * stride;
        let bottom = (h - 1 - y) * stride;
        assert(bottom == (hs - y) * st - st) by (nonlinear_arith)
            requires
                bottom == (h - 1 - y) * stride,
                hs == h,
                st == stride,
        ;
        let mut c: usize = 0;
        while c < stride
            invariant
                data@.len() == original.len(),
                len == original.len(),
                half == h / 2,
                hs == h,
                st == stride,
                y < half,
                top == y * stride,
                bottom == (h - 1 - y) * stride,
                top + stride <= bottom,
                bottom + stride <= h * stride,
                h * stride <= len,
                c <= stride,
                forall|i: int|
                    0 <= i < len ==> #[trigger] data@[i] == original[if flip_done(
                        i,
                        top + c,
                        bottom as int,
                        c as int,
                        hs,
                        st,
                    ) {
                        flip_source(i, hs, st)
                    } else {
                        i
                    }],
            decreases stride - c,
        {
            let ghost prev = data@;
            let a = data[top + c];
            let b = data[bottom + c];
            data[top + c] = b;
            data[bottom + c] = a;
            proof {
                lemma_group_index(y as int, c as int, st);
                lemma_group_index((h - 1 - y) as int, c as int, st);
                assert(st * (y as int) == (y as int) * st) by (nonlinear_arith);
                assert(st * ((h - 1 - y) as int) == ((h - 1 - y) as int) * st)
                    by (nonlinear_arith);
                assert(flip_source(top + c, hs, st) == bottom + c);
                assert(flip_source(bottom + c, hs, st) == top + c);
                assert(!flip_done(bottom + c, top + c, bottom as int, c as int, hs, st));
                assert(!flip_done(top + c, top + c, bottom as int, c as int, hs, st));
                assert forall|i: int| 0 <= i < len implies #[trigger] data@[i] == original[if flip_done(
                    i,
                    top + c + 1,
                    bottom as int,
                    c + 1,
                    hs,
                    st,
                ) {
                    flip_source(i, hs, st)
                } else {
                    i
                }] by {
                    if i != top + c && i != bottom + c {
                        assert(data@[i] == prev[i]);
                        assert(flip_done(i, top + c + 1, bottom as int, c + 1, hs, st) == flip_done(
                            i,
                            top + c,
                            bottom as int,
                            c as int,
                            hs,
                            st,
                        ));
                    }
                }
            }
            c += 1;
        }
        proof {
            assert((hs - (y + 1)) * st == (hs - y) * st - st) by (nonlinear_arith);
            assert forall|i: int| 0 <= i < len implies #[trigger] data@[i] == original[if flip_done(
                i,
                (y + 1) * st,
                (hs - (y + 1)) * st - st,
                0,
                hs,
                st,
            ) {
                flip_source(i, hs, st)
            } else {
                i
            }] by {
                assert(flip_done(i, (y + 1) * st, (hs - (y + 1)) * st - st, 0, hs, st)
                    == flip_done(i, top + stride, bottom as int, st, hs, st));
            }
        }
        y += 1;
    }
    proof {
        assert forall|i: int| 0 <= i < len implies data@[i] == original[flip_source(i, hs, st)] by {
            if !flip_done(i, half * st, (hs - half) * st - st, 0, hs, st) && i < hs * st {
                // the middle row of an odd frame mirrors onto itself
                assert(hs * st == st * hs) by (nonlinear_arith);
                assert(st > 0) by (nonlinear_arith)
                    requires
                        0 <= i < hs * st,
                        hs >= 0,
                        st >= 0,
                ;
                lemma_pixel_position(st, hs, i);
                assert(i / st == half) by (nonlinear_arith)
                    requires
                        half * st <= i,
                        i < (hs - half) * st,
                        hs == 2 * half + 1,
                        i == (i / st) * st + i % st,
                        0 <= i % st < st,
                ;
            }
        }
        assert(data@ =~= flipped(original, height, (width * bytes_per_pixel) as int));
    }
}

} // verus!
