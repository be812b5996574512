//! BGRA to NV12 color conversion for encoder input.
use vstd::arithmetic::div_mod::lemma_fundamental_div_mod_converse;
use vstd::prelude::*;

verus! {

/// A number brought into the range of a byte.
pub open spec fn to_byte(x: int) -> u8 {
    if x < 0 {
        0
    } else if x > 255 {
        255
    } else {
        x as u8
    }
}

/// Luma of a color, after BT.601.
pub open spec fn luma(r: u8, g: u8, b: u8) -> u8 {
    to_byte((66 * r + 129 * g + 25 * b + 128) / 256 + 16)
}

/// Blue difference of a color, after BT.601. The division rounds down.
pub open spec fn chroma_u(r: u8, g: u8, b: u8) -> u8 {
    to_byte((-38 * r - 74 * g + 112 * b + 128) / 256 + 128)
}

/// Red difference of a color, after BT.601. The division rounds down.
pub open spec fn chroma_v(r: u8, g: u8, b: u8) -> u8 {
    to_byte((112 * r - 94 * g - 18 * b + 128) / 256 + 128)
}

/// Luma of pixel `i` of a frame.
pub open spec fn luma_at(bgra: Seq<u8>, i: int) -> u8 {
    luma(bgra[4 * i + 2], bgra[4 * i + 1], bgra[4 * i])
}

/// Byte `k` of the chroma plane: blue and red difference in turn, taken from the
/// upper left pixel of each block of two by two.
pub open spec fn chroma_at(bgra: Seq<u8>, w: int, k: int) -> u8 {
    let row = 2 * (k / w);
    let col = k % w;
    if col % 2 == 0 {
        let i = row * w + col;
        chroma_u(bgra[4 * i + 2], bgra[4 * i + 1], bgra[4 * i])
    } else {
        let i = row * w + col - 1;
        chroma_v(bgra[4 * i + 2], bgra[4 * i + 1], bgra[4 * i])
    }
}

/// A frame in NV12: the luma of all pixels, then the chroma plane, half as large.
pub open spec fn nv12_of(bgra: Seq<u8>, w: int, h: int) -> Seq<u8> {
    Seq::new(
        (w * h + w * h / 2) as nat,
        |i: int|
            if i < w * h {
                luma_at(bgra, i)
            } else {
                chroma_at(bgra, w, i - w * h)
            },
    )
}

fn clamp_byte(x: i32) -> (b: u8)
    ensures
        b == to_byte(x as int),
{
    if x < 0 {
        0
    } else if x > 255 {
        255
    } else {
        x as u8
    }
}

/// `x` over 256, rounded down, for numbers in the range of the weighted colors.
fn shift_8(x: i32) -> (q: i32)
    requires
        -65536 <= x <= 65536,
    ensures
        q == x as int / 256,
{
    (x + 65536) / 256 - 256
}

fn luma_byte(r: u8, g: u8, b: u8) -> (y: u8)
    ensures
        y == luma(r, g, b),
{
    let (r, g, b): (i32, i32, i32) = (r as i32, g as i32, b as i32);
    clamp_byte(shift_8(66 * r + 129 * g + 25 * b + 128) + 16)
}

fn chroma_u_byte(r: u8, g: u8, b: u8) -> (u: u8)
    ensures
        u == chroma_u(r, g, b),
{
    let (r, g, b): (i32, i32, i32) = (r as i32, g as i32, b as i32);
    clamp_byte(shift_8(-38 * r - 74 * g + 112 * b + 128) + 128)
}

fn chroma_v_byte(r: u8, g: u8, b: u8) -> (v: u8)
    ensures
        v == chroma_v(r, g, b),
{
    let (r, g, b): (i32, i32, i32) = (r as i32, g as i32, b as i32);
    clamp_byte(shift_8(112 * r - 94 * g - 18 * b + 128) + 128)
}

/// The places of a block of two by two in the frame and in the chroma plane.
proof fn lemma_block_places(w: int, h: int, rr: int, cc: int)
    requires
        w > 0,
        w % 2 == 0,
        h % 2 == 0,
        0 <= rr < h / 2,
        0 <= cc < w / 2,
    ensures
        ({
            let k = rr * w + 2 * cc;
            &&& 0 <= k
            &&& k / w == rr
            &&& k % w == 2 * cc
            &&& (k + 1) / w == rr
            &&& (k + 1) % w == 2 * cc + 1
            &&& 0 <= 2 * rr * w + 2 * cc < w * h
            &&& rr * w + w <= w * h / 2
        }),
{
    let k = rr * w + 2 * cc;
    assert(rr * w >= 0) by (nonlinear_arith)
        requires
            rr >= 0,
            w > 0,
    ;
    lemma_fundamental_div_mod_converse(k, w, rr, 2 * cc);
    lemma_fundamental_div_mod_converse(k + 1, w, rr, 2 * cc + 1);
    let half = h / 2;
    assert(h == 2 * half);
    assert(rr * w + w <= half * w) by (nonlinear_arith)
        requires
            rr + 1 <= half,
            w > 0,
    ;
    assert(w * h == 2 * (half * w)) by (nonlinear_arith)
        requires
            h == 2 * half,
    ;
    assert(2 * rr * w == 2 * (rr * w)) by (nonlinear_arith);
}

/// What a block of two by two is in the chroma plane.
proof fn lemma_block_chroma(bgra: Seq<u8>, w: int, h: int, rr: int, cc: int)
    requires
        w > 0,
        w % 2 == 0,
        h % 2 == 0,
        0 <= rr < h / 2,
        0 <= cc < w / 2,
    ensures
        ({
            let at = w * h + rr * w + 2 * cc;
            let i = 4 * (2 * (rr * w) + 2 * cc);
            &&& 0 <= rr * w
            &&& 0 <= i
            &&& i + 4 <= 4 * (w * h)
            &&& rr * w + w <= w * h / 2
            &&& nv12_of(bgra, w, h)[at] == chroma_u(bgra[i + 2], bgra[i + 1], bgra[i])
            &&& nv12_of(bgra, w, h)[at + 1] == chroma_v(bgra[i + 2], bgra[i + 1], bgra[i])
        }),
{
    lemma_block_places(w, h, rr, cc);
    let k = rr * w + 2 * cc;
    assert(2 * rr * w == 2 * (rr * w)) by (nonlinear_arith);
    let i = 2 * (rr * w) + 2 * cc;
    assert(2 * (k / w) * w == 2 * (rr * w)) by (nonlinear_arith)
        requires
            k / w == rr,
    ;
    assert(2 * ((k + 1) / w) * w == 2 * (rr * w)) by (nonlinear_arith)
        requires
            (k + 1) / w == rr,
    ;
    assert(chroma_at(bgra, w, k) == chroma_u(bgra[4 * i + 2], bgra[4 * i + 1], bgra[4 * i]));
    assert(chroma_at(bgra, w, k + 1) == chroma_v(bgra[4 * i + 2], bgra[4 * i + 1], bgra[4 * i]));
    assert(rr * w >= 0) by (nonlinear_arith)
        requires
            rr >= 0,
            w > 0,
    ;
    let at = w * h + k;
    assert(nv12_of(bgra, w, h)[at] == chroma_at(bgra, w, k));
    assert(nv12_of(bgra, w, h)[at + 1] == chroma_at(bgra, w, k + 1));
}

/// Convert a BGRA frame to NV12 format. The conversion uses the BT.601
/// studio-swing formula.
pub fn bgra_to_nv12(bgra: &[u8], width: u32, height: u32, nv12: &mut Vec<u8>)
    requires
        bgra@.len() >= 4 * (width * height),
        width == 0 || height == 0 || (width % 2 == 0 && height % 2 == 0),
    ensures
        final(nv12)@ == nv12_of(bgra@, width as int, height as int),
{
    let len: usize = bgra.len();
    let w: usize = width as usize;
    let h: usize = height as usize;
    proof {
        assert(0 <= w * h) by (nonlinear_arith)
            requires
                0 <= w,
                0 <= h,
        ;
        if w == 0 || h == 0 {
            assert(w * h == 0) by (nonlinear_arith)
                requires
                    w == 0 || h == 0,
            ;
        }
    }
    let n: usize = w * h;
    let ghost out = nv12_of(bgra@, w as int, h as int);
    nv12.clear();
    let mut i: usize = 0;
    while i < n
        invariant
            i <= n,
            n == w * h,
            len == bgra@.len(),
            4 * n <= len,
            out == nv12_of(bgra@, w as int, h as int),
            nv12@ == out.take(i as int),
        decreases n - i,
    {
        let k: usize = 4 * i;
        let y: u8 = luma_byte(bgra[k + 2], bgra[k + 1], bgra[k]);
        nv12.push(y);
        assert(nv12@ =~= out.take(i + 1));
        i += 1;
    }
    if w > 0 && h > 0 {
        let half_w: usize = w / 2;
        let half_h: usize = h / 2;
        let mut rr: usize = 0;
        proof {
            assert(0 * w == 0);
        }
        while rr < half_h
            invariant
                rr <= half_h,
                half_w == w / 2,
                half_h == h / 2,
                w > 0,
                w % 2 == 0,
                h % 2 == 0,
                n == w * h,
                len == bgra@.len(),
                4 * n <= len,
                out == nv12_of(bgra@, w as int, h as int),
                rr * w <= n / 2,
                nv12@ == out.take(n + rr * w),
            decreases half_h - rr,
        {
            let mut cc: usize = 0;
            proof {
                lemma_block_chroma(bgra@, w as int, h as int, rr as int, 0);
            }
            let base: usize = rr * w;
            while cc < half_w
                invariant
                    cc <= half_w,
                    rr < half_h,
                    half_w == w / 2,
                    half_h == h / 2,
                    w > 0,
                    w % 2 == 0,
                    h % 2 == 0,
                    n == w * h,
                    len == bgra@.len(),
                    4 * n <= len,
                    out == nv12_of(bgra@, w as int, h as int),
                    out.len() == n + n / 2,
                    base == rr * w,
                    base + w <= n / 2,
                    nv12@ == out.take(n + base + 2 * cc),
                decreases half_w - cc,
            {
                proof {
                    lemma_block_chroma(bgra@, w as int, h as int, rr as int, cc as int);
                }
                let k: usize = 4 * (2 * base + 2 * cc);
                let (r, g, b): (u8, u8, u8) = (bgra[k + 2], bgra[k + 1], bgra[k]);
                nv12.push(chroma_u_byte(r, g, b));
                nv12.push(chroma_v_byte(r, g, b));
                assert(nv12@ =~= out.take(n + base + 2 * cc + 2));
                cc += 1;
            }
            proof {
                assert((rr + 1) * w == rr * w + w) by (nonlinear_arith);
            }
            rr += 1;
        }
        proof {
            assert(half_h * w == n / 2) by {
                assert(w * h == 2 * (half_h * w)) by (nonlinear_arith)
                    requires
                        h == 2 * half_h,
                ;
            }
        }
    }
    assert(nv12@ =~= out);
}

/// A frame in NV12 takes one and a half bytes per pixel, whatever its contents.
pub proof fn law_nv12_size(bgra: Seq<u8>, w: nat, h: nat)
    ensures
        nv12_of(bgra, w as int, h as int).len() == w * h * 3 / 2,
{
    assert(0 <= w * h) by (nonlinear_arith);
    let p = w * h;
    assert(p + p / 2 == p * 3 / 2);
}

/// The bytes keep to studio swing: luma from 16 to 235, chroma from 16 to 240.
pub proof fn law_nv12_is_studio_swing(r: u8, g: u8, b: u8)
    ensures
        16 <= luma(r, g, b) <= 235,
        16 <= chroma_u(r, g, b) <= 240,
        16 <= chroma_v(r, g, b) <= 240,
{
}

/// A gray pixel has no color: both differences are in the middle.
pub proof fn law_gray_has_no_chroma(c: u8)
    ensures
        chroma_u(c, c, c) == 128,
        chroma_v(c, c, c) == 128,
{
}

/// The luma byte of a pixel is its weighted sum of red, green and blue over 256,
/// rounded to the nearest, above 16.
pub proof fn law_luma_is_the_weighted_sum(bgra: Seq<u8>, w: int, h: int, x: int, y: int)
    requires
        0 <= x < w,
        0 <= y < h,
    ensures
        ({
            let i = y * w + x;
            let (b, g, r) = (bgra[4 * i], bgra[4 * i + 1], bgra[4 * i + 2]);
            let luma = nv12_of(bgra, w, h)[i] - 16;
            256 * luma <= 66 * r + 129 * g + 25 * b + 128 < 256 * (luma + 1)
        }),
{
    assert(0 <= y * w) by (nonlinear_arith)
        requires
            0 <= y,
            0 < w,
    ;
    assert(y * w + x < w * h) by (nonlinear_arith)
        requires
            0 <= y < h,
            0 <= x < w,
    ;
    assert(0 <= w * h / 2);
}

/// The two chroma bytes of a block of two by two pixels are the weighted sums of
/// red, green and blue of its upper left pixel over 256, rounded to the nearest,
/// above 128: the blue difference first, then the red one.
pub proof fn law_chroma_is_the_weighted_sum(bgra: Seq<u8>, w: int, h: int, x: int, y: int)
    requires
        w % 2 == 0,
        h % 2 == 0,
        0 <= x < w / 2,
        0 <= y < h / 2,
    ensures
        ({
            let i = 2 * y * w + 2 * x;
            let (b, g, r) = (bgra[4 * i], bgra[4 * i + 1], bgra[4 * i + 2]);
            let u = nv12_of(bgra, w, h)[w * h + y * w + 2 * x] - 128;
            let v = nv12_of(bgra, w, h)[w * h + y * w + 2 * x + 1] - 128;
            &&& 256 * u <= -38 * r - 74 * g + 112 * b + 128 < 256 * (u + 1)
            &&& 256 * v <= 112 * r - 94 * g - 18 * b + 128 < 256 * (v + 1)
        }),
{
    lemma_block_chroma(bgra, w, h, y, x);
    assert(2 * y * w == 2 * (y * w)) by (nonlinear_arith);
}

/// More green never raises a chroma byte, more blue never lowers the blue
/// difference, and more red never lowers the red difference; luma never falls with
/// any of them.
pub proof fn law_colors_pull_their_way(r: u8, g: u8, b: u8, more: u8)
    ensures
        more >= g ==> chroma_u(r, more, b) <= chroma_u(r, g, b) && chroma_v(r, more, b) <= chroma_v(
            r,
            g,
            b,
        ) && luma(r, more, b) >= luma(r, g, b),
        more >= b ==> chroma_u(r, g, more) >= chroma_u(r, g, b) && chroma_v(r, g, more) <= chroma_v(
            r,
            g,
            b,
        ) && luma(r, g, more) >= luma(r, g, b),
        more >= r ==> chroma_u(more, g, b) <= chroma_u(r, g, b) && chroma_v(more, g, b) >= chroma_v(
            r,
            g,
            b,
        ) && luma(more, g, b) >= luma(r, g, b),
{
}

} // verus!
