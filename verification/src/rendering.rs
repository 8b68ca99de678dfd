//! Pixel repacking for the shell's frame upload, and frame checksums.

use vstd::prelude::*;
use crate::engine::{EngineFrame, PixelFormat};

verus! {

/// `x`, or `usize::MAX` where `x` is larger: what a saturating operation gives.
pub open spec fn sat(x: int) -> int {
    if x > usize::MAX { usize::MAX as int } else { x }
}

/// Bytes in one tightly packed row of a frame.
pub open spec fn row_bytes(frame: EngineFrame) -> int {
    sat(frame.width * 4)
}

/// The distance between the starts of two rows of the source pixels.
pub open spec fn stride_of(frame: EngineFrame) -> int {
    if frame.stride_bytes >= row_bytes(frame) { frame.stride_bytes as int } else { row_bytes(frame) }
}

/// Whether the source holds all of row `r`.
pub open spec fn row_fits(frame: EngineFrame, r: int) -> bool {
    sat(r * stride_of(frame)) + row_bytes(frame) <= frame.pixels@.len()
}

/// The first row at or after `r` that the source does not hold, or the
/// frame's height if it holds them all.
pub open spec fn rows_from(frame: EngineFrame, r: int) -> int
    decreases frame.height - r,
{
    if r >= frame.height {
        frame.height as int
    } else if !row_fits(frame, r) {
        r
    } else {
        rows_from(frame, r + 1)
    }
}

/// The number of rows that repacking copies: rows are copied until the
/// first one that the source does not hold.
pub open spec fn copied_rows(frame: EngineFrame) -> int {
    rows_from(frame, 0)
}

/// Whether the red and blue bytes of each pixel are swapped.
pub open spec fn needs_swizzle(frame: EngineFrame, bypass_swizzle: bool) -> bool {
    !bypass_swizzle && frame.pixel_format == PixelFormat::Bgra8
}

/// The byte of a pixel that lands at offset `c` once red and blue are
/// swapped (when `on` holds).
pub open spec fn swz(c: int, on: bool) -> int {
    if on && c % 4 == 0 {
        c + 2
    } else if on && c % 4 == 2 {
        c - 2
    } else {
        c
    }
}

/// Offset `c` of row `r` in rows of `width` bytes.
pub open spec fn at(r: int, width: int, c: int) -> int {
    r * width + c
}

/// Repacking would overflow the machine's address arithmetic, where the
/// computation panics: the first row the source lacks starts past the
/// addressable range, or the packed output cannot be allocated.
pub open spec fn repack_overflows(frame: EngineFrame) -> bool {
    let rb = row_bytes(frame);
    let k = copied_rows(frame);
    ||| (k < frame.height && sat(k * stride_of(frame)) + rb > usize::MAX)
    ||| (stride_of(frame) != rb && rb * frame.height > isize::MAX)
}

/// Swaps the first and third byte of each complete four-byte pixel.
pub fn swizzle_bgra_to_rgba_in_place(pixels: &mut Vec<u8>)
    ensures
        final(pixels)@.len() == old(pixels)@.len(),
        forall|i: int| 0 <= i < old(pixels)@.len() ==> #[trigger] final(pixels)@[i]
            == old(pixels)@[if i < (old(pixels)@.len() / 4) * 4 { swz(i, true) } else { i }],
{
    let n = pixels.len();
    let ghost orig = pixels@;
    let mut i: usize = 0;
    while n - i >= 4
        invariant
            n == orig.len(),
            pixels@.len() == n,
            i <= n,
            i % 4 == 0,
            forall|j: int| 0 <= j < i ==> #[trigger] pixels@[j] == orig[swz(j, true)],
            forall|j: int| i <= j < n ==> #[trigger] pixels@[j] == orig[j],
        decreases n - i,
    {
        let a = pixels[i];
        let b = pixels[i + 2];
        pixels.set(i, b);
        pixels.set(i + 2, a);
        i = i + 4;
    }
    assert(i == (n / 4) * 4);
}

proof fn lemma_row_step(r: int, w: int)
    requires
        0 <= r,
        0 <= w,
    ensures
        (r + 1) * w == r * w + w,
        r * w >= 0,
{
    assert((r + 1) * w == r * w + w) by (nonlinear_arith);
    assert(r * w >= 0) by (nonlinear_arith)
        requires 0 <= r, 0 <= w;
}

proof fn lemma_row_below(r: int, h: int, w: int)
    requires
        0 <= r < h,
        0 <= w,
    ensures
        r * w + w <= h * w,
        r * w + w <= w * h,
{
    assert(r * w + w <= h * w) by (nonlinear_arith)
        requires 0 <= r < h, 0 <= w;
    assert(h * w == w * h) by (nonlinear_arith);
}

proof fn lemma_rows_from_bound(frame: EngineFrame, r: int)
    requires
        0 <= r,
    ensures
        r <= frame.height ==> r <= rows_from(frame, r) <= frame.height,
        forall|q: int| r <= q < rows_from(frame, r) ==> row_fits(frame, q),
        rows_from(frame, r) < frame.height ==> !row_fits(frame, rows_from(frame, r)),
    decreases frame.height - r,
{
    if r < frame.height && row_fits(frame, r) {
        lemma_rows_from_bound(frame, r + 1);
    }
}

/// Repacks a frame's pixels row by row (see `normalize_pixels`).
fn repack_rows(frame: &EngineFrame, bypass_swizzle: bool) -> (out: Vec<u8>)
    requires
        !repack_overflows(*frame),
    ensures
        frame.width == 0 || frame.height == 0 ==> out@.len() == 0,
        frame.width != 0 && frame.height != 0 && stride_of(*frame) == row_bytes(*frame) ==> {
            &&& out@.len() == frame.pixels@.len()
            &&& forall|i: int| 0 <= i < out@.len() ==> #[trigger] out@[i] == frame.pixels@[
                if i < (frame.pixels@.len() / 4) * 4 { swz(i, needs_swizzle(*frame, bypass_swizzle)) } else { i }]
        },
        frame.width != 0 && frame.height != 0 && stride_of(*frame) != row_bytes(*frame) ==> {
            &&& out@.len() == row_bytes(*frame) * frame.height
            &&& forall|r: int, c: int| 0 <= r < copied_rows(*frame) && 0 <= c < row_bytes(*frame)
                ==> #[trigger] out@[at(r, row_bytes(*frame), c)]
                    == frame.pixels@[r * stride_of(*frame) + swz(c, needs_swizzle(*frame, bypass_swizzle))]
            &&& forall|i: int| copied_rows(*frame) * row_bytes(*frame) <= i < out@.len() ==> #[trigger] out@[i] == 0
        },
{
    let width = frame.width as usize;
    let height = frame.height as usize;
    if width == 0 || height == 0 {
        return Vec::new();
    }
    let rbytes = if width <= usize::MAX / 4 { width * 4 } else { usize::MAX };
    let stride = if frame.stride_bytes >= rbytes { frame.stride_bytes } else { rbytes };
    let swap = !bypass_swizzle && frame.pixel_format == PixelFormat::Bgra8;
    let ghost rb = rbytes as int;
    assert(rb == row_bytes(*frame));
    assert(stride as int == stride_of(*frame));
    let n = frame.pixels.len();

    if stride == rbytes {
        let mut out: Vec<u8> = Vec::new();
        let mut i: usize = 0;
        while i < n
            invariant
                n == frame.pixels@.len(),
                i <= n,
                out@ == frame.pixels@.subrange(0, i as int),
            decreases n - i,
        {
            out.push(frame.pixels[i]);
            i = i + 1;
        }
        if swap {
            swizzle_bgra_to_rgba_in_place(&mut out);
        }
        return out;
    }

    proof {
        lemma_row_step(height as int - 1, rb);
        assert(rb * height == height * rb) by (nonlinear_arith);
        assert(rb <= rb * height) by (nonlinear_arith)
            requires rb >= 0, height >= 1;
        assert(rbytes == width * 4);
    }
    let total = rbytes * height;
    let mut out: Vec<u8> = Vec::new();
    let mut z: usize = 0;
    while z < total
        invariant
            z <= total,
            out@.len() == z,
            forall|i: int| 0 <= i < z ==> #[trigger] out@[i] == 0,
        decreases total - z,
    {
        out.push(0);
        z = z + 1;
    }

    proof {
        lemma_rows_from_bound(*frame, 0);
    }
    let ghost k = copied_rows(*frame);
    let mut row: usize = 0;
    let mut src: usize = 0;
    let mut dst: usize = 0;
    while row < height
        invariant
            width == frame.width,
            height == frame.height,
            rb == rbytes as int,
            rb == row_bytes(*frame),
            rb > 0,
            stride as int == stride_of(*frame),
            stride != rbytes,
            swap == needs_swizzle(*frame, bypass_swizzle),
            n == frame.pixels@.len(),
            total == rb * height,
            out@.len() == total,
            k == copied_rows(*frame),
            0 <= k <= height,
            forall|q: int| 0 <= q < k ==> row_fits(*frame, q),
            k < height ==> !row_fits(*frame, k),
            row <= k,
            dst == row * rb,
            src == sat(row * stride_of(*frame)),
            forall|r: int, c: int| 0 <= r < row && 0 <= c < rb
                ==> #[trigger] out@[at(r, rb, c)] == frame.pixels@[r * stride_of(*frame) + swz(c, swap)],
            forall|i: int| row * rb <= i < total ==> #[trigger] out@[i] == 0,
        ensures
            row as int == k,
            forall|r: int, c: int| 0 <= r < row && 0 <= c < rb
                ==> #[trigger] out@[at(r, rb, c)] == frame.pixels@[r * stride_of(*frame) + swz(c, swap)],
            forall|i: int| row * rb <= i < total ==> #[trigger] out@[i] == 0,
            out@.len() == total,
        decreases height - row,
    {
        if src > n || rbytes > n - src {
            proof {
                assert(!row_fits(*frame, row as int));
                assert(row as int == k);
            }
            break;
        }
        proof {
            assert(row_fits(*frame, row as int));
            if (row as int) >= k {
                assert(row as int == k);
                assert(false);
            }
            lemma_row_below(row as int, height as int, rb);
            lemma_row_step(row as int, rb);
            assert(src as int == row * stride_of(*frame));
        }
        let ghost before = out@;
        let mut c: usize = 0;
        while c < rbytes
            invariant
                rb == rbytes as int,
                rb > 0,
                c <= rbytes,
                rbytes % 4 == 0,
                row < height,
                total == rb * height,
                dst == row * rb,
                dst + rb <= total,
                src + rb <= n,
                n == frame.pixels@.len(),
                out@.len() == total,
                forall|j: int| 0 <= j < c ==> #[trigger] out@[dst + j] == frame.pixels@[src + swz(j, swap)],
                forall|i: int| 0 <= i < total && !(dst <= i < dst + c) ==> out@[i] == before[i],
            decreases rbytes - c,
        {
            let from = if swap && c % 4 == 0 {
                c + 2
            } else if swap && c % 4 == 2 {
                c - 2
            } else {
                c
            };
            out.set(dst + c, frame.pixels[src + from]);
            c = c + 1;
        }
        proof {
            assert forall|r: int, cc: int| 0 <= r < row + 1 && 0 <= cc < rb
                implies #[trigger] out@[at(r, rb, cc)] == frame.pixels@[r * stride_of(*frame) + swz(cc, swap)] by {
                if r < row {
                    lemma_row_below(r, row as int, rb);
                    lemma_row_step(r, rb);
                    assert(out@[at(r, rb, cc)] == before[at(r, rb, cc)]);
                } else {
                    assert(at(r, rb, cc) == dst + cc);
                }
            }
            assert forall|i: int| (row + 1) * rb <= i < total implies #[trigger] out@[i] == 0 by {
                assert(out@[i] == before[i]);
            }
        }
        row = row + 1;
        dst = dst + rbytes;
        src = src.saturating_add(stride);
        proof {
            lemma_row_step(row as int - 1, stride as int);
        }
    }
    proof {
        assert(row as int == k);
    }
    out
}

/// The bytes of a frame repacked as tightly packed RGBA rows: none for an
/// empty frame; for rows already tightly packed, the frame's bytes with red
/// and blue swapped in each complete pixel where that is asked; otherwise
/// `height` rows of `4 * width` bytes, the leading rows that the source
/// holds copied (swapped as above) and the rest zero.
pub open spec fn normalized_pixels(frame: EngineFrame, bypass_swizzle: bool) -> Seq<u8> {
    let p = frame.pixels@;
    let on = needs_swizzle(frame, bypass_swizzle);
    let rb = row_bytes(frame);
    if frame.width == 0 || frame.height == 0 {
        Seq::empty()
    } else if stride_of(frame) == rb {
        Seq::new(p.len(), |i: int| p[if i < (p.len() / 4) * 4 { swz(i, on) } else { i }])
    } else {
        Seq::new((rb * frame.height) as nat, |i: int|
            if i < copied_rows(frame) * rb { p[(i / rb) * stride_of(frame) + swz(i % rb, on)] } else { 0u8 })
    }
}

proof fn lemma_repacked_is_normalized(frame: EngineFrame, bypass_swizzle: bool, out: Seq<u8>)
    requires
        !repack_overflows(frame),
        frame.width == 0 || frame.height == 0 ==> out.len() == 0,
        frame.width != 0 && frame.height != 0 && stride_of(frame) == row_bytes(frame) ==> {
            &&& out.len() == frame.pixels@.len()
            &&& forall|i: int| 0 <= i < out.len() ==> #[trigger] out[i] == frame.pixels@[
                if i < (frame.pixels@.len() / 4) * 4 { swz(i, needs_swizzle(frame, bypass_swizzle)) } else { i }]
        },
        frame.width != 0 && frame.height != 0 && stride_of(frame) != row_bytes(frame) ==> {
            &&& out.len() == row_bytes(frame) * frame.height
            &&& forall|r: int, c: int| 0 <= r < copied_rows(frame) && 0 <= c < row_bytes(frame)
                ==> #[trigger] out[at(r, row_bytes(frame), c)]
                    == frame.pixels@[r * stride_of(frame) + swz(c, needs_swizzle(frame, bypass_swizzle))]
            &&& forall|i: int| copied_rows(frame) * row_bytes(frame) <= i < out.len() ==> #[trigger] out[i] == 0
        },
    ensures
        out == normalized_pixels(frame, bypass_swizzle),
{
    let n = normalized_pixels(frame, bypass_swizzle);
    if frame.width == 0 || frame.height == 0 {
        assert(out =~= n);
    } else if stride_of(frame) == row_bytes(frame) {
        assert(out =~= n);
    } else {
        let rb = row_bytes(frame);
        let k = copied_rows(frame);
        assert(rb > 0);
        assert forall|i: int| 0 <= i < out.len() implies out[i] == n[i] by {
            if i < k * rb {
                let r = i / rb;
                let c = i % rb;
                vstd::arithmetic::div_mod::lemma_fundamental_div_mod(i, rb);
                vstd::arithmetic::div_mod::lemma_mod_pos_bound(i, rb);
                assert(i == r * rb + c) by (nonlinear_arith)
                    requires i == rb * (i / rb) + (i % rb), r == i / rb, c == i % rb;
                assert(0 <= r) by (nonlinear_arith)
                    requires i == r * rb + c, 0 <= c < rb, i >= 0, rb > 0;
                assert(r < k) by (nonlinear_arith)
                    requires i == r * rb + c, 0 <= c < rb, i < k * rb, rb > 0;
                assert(at(r, rb, c) == i);
                assert(out[at(r, rb, c)] == frame.pixels@[r * stride_of(frame) + swz(c, needs_swizzle(frame, bypass_swizzle))]);
            }
        }
        assert(out =~= n);
    }
}

/// Repacks a frame's pixels into tightly packed RGBA rows.
///
/// An empty frame gives no bytes. Rows that are already tightly packed are
/// kept as they are, with red and blue swapped in each complete pixel where
/// the frame is BGRA and the swap is not bypassed. Otherwise the output has
/// `height` rows of `4 * width` bytes: the leading rows that the source
/// holds are copied (and swapped as above), and the rest stay zero.
pub fn normalize_pixels(frame: &EngineFrame, bypass_swizzle: bool) -> (out: Vec<u8>)
    requires
        !repack_overflows(*frame),
    ensures
        out@ == normalized_pixels(*frame, bypass_swizzle),
        frame.width == 0 || frame.height == 0 ==> out@.len() == 0,
        frame.width != 0 && frame.height != 0 && stride_of(*frame) == row_bytes(*frame) ==> {
            &&& out@.len() == frame.pixels@.len()
            &&& forall|i: int| 0 <= i < out@.len() ==> #[trigger] out@[i] == frame.pixels@[
                if i < (frame.pixels@.len() / 4) * 4 { swz(i, needs_swizzle(*frame, bypass_swizzle)) } else { i }]
        },
        frame.width != 0 && frame.height != 0 && stride_of(*frame) != row_bytes(*frame) ==> {
            &&& out@.len() == row_bytes(*frame) * frame.height
            &&& forall|r: int, c: int| 0 <= r < copied_rows(*frame) && 0 <= c < row_bytes(*frame)
                ==> #[trigger] out@[at(r, row_bytes(*frame), c)]
                    == frame.pixels@[r * stride_of(*frame) + swz(c, needs_swizzle(*frame, bypass_swizzle))]
            &&& forall|i: int| copied_rows(*frame) * row_bytes(*frame) <= i < out@.len() ==> #[trigger] out@[i] == 0
        },
{
    let out = repack_rows(frame, bypass_swizzle);
    proof {
        lemma_repacked_is_normalized(*frame, bypass_swizzle, out@);
    }
    out
}

/// What std's `DefaultHasher`, created by `new`, finishes with after
/// hashing the byte slice `bytes` (length prefix, then the bytes).
pub uninterp spec fn default_hash_of_bytes(bytes: Seq<u8>) -> u64;

/// Hashes a byte slice with `std::collections::hash_map::DefaultHasher`.
/// Every hasher made by `DefaultHasher::new` starts from the same keys, so
/// the result depends on the bytes alone; nothing else is claimed of it.
#[verifier::external_body]
fn default_hash_bytes(bytes: &[u8]) -> (r: u64)
    ensures
        r == default_hash_of_bytes(bytes@),
{
    let mut hasher = std::collections::hash_map::DefaultHasher::new();
    std::hash::Hash::hash(bytes, &mut hasher);
    std::hash::Hasher::finish(&hasher)
}

/// A checksum of a frame's pixels, used to notice changed frames.
pub fn frame_checksum(pixels: &[u8]) -> (r: u64)
    ensures
        r == default_hash_of_bytes(pixels@),
{
    default_hash_bytes(pixels)
}


/// Bypassing the swap changes nothing for an RGBA frame, gives no bytes
/// either way for an empty frame, and for a BGRA frame gives the same
/// number of bytes with red and blue exchanged in every complete pixel.
pub proof fn law_bypass_only_swaps_red_and_blue(frame: EngineFrame)
    requires
        !repack_overflows(frame),
    ensures
        ({
            let a = normalized_pixels(frame, true);
            let b = normalized_pixels(frame, false);
            &&& (frame.width == 0 || frame.height == 0) ==> a.len() == 0 && b.len() == 0
            &&& frame.pixel_format == PixelFormat::Rgba8 ==> a == b
            &&& frame.pixel_format == PixelFormat::Bgra8 ==> {
                &&& a.len() == b.len()
                &&& forall|j: int| 0 <= j < a.len() / 4 ==> {
                    &&& #[trigger] b[4 * j] == a[4 * j + 2]
                    &&& b[4 * j + 1] == a[4 * j + 1]
                    &&& b[4 * j + 2] == a[4 * j]
                    &&& b[4 * j + 3] == a[4 * j + 3]
                }
            }
        }),
{
    let a = normalized_pixels(frame, true);
    let b = normalized_pixels(frame, false);
    if frame.pixel_format == PixelFormat::Rgba8 {
        assert(a =~= b);
    }
    if frame.pixel_format == PixelFormat::Bgra8 && frame.width != 0 && frame.height != 0
        && stride_of(frame) != row_bytes(frame) {
        let rb = row_bytes(frame);
        let k = copied_rows(frame);
        let st = stride_of(frame);
        let w = frame.width as int;
        assert(rb == 4 * w) by {
            assert(rb * frame.height <= isize::MAX);
            assert(rb <= rb * frame.height) by (nonlinear_arith)
                requires rb >= 0, frame.height >= 1;
        }
        assert forall|j: int| 0 <= j < a.len() / 4 implies {
            &&& #[trigger] b[4 * j] == a[4 * j + 2]
            &&& b[4 * j + 1] == a[4 * j + 1]
            &&& b[4 * j + 2] == a[4 * j]
            &&& b[4 * j + 3] == a[4 * j + 3]
        } by {
            let i = 4 * j;
            let r = i / rb;
            let c = i % rb;
            vstd::arithmetic::div_mod::lemma_fundamental_div_mod(i, rb);
            vstd::arithmetic::div_mod::lemma_mod_pos_bound(i, rb);
            assert(i == r * rb + c) by (nonlinear_arith)
                requires i == rb * (i / rb) + (i % rb), r == i / rb, c == i % rb;
            assert(r * rb == 4 * (r * w)) by (nonlinear_arith)
                requires rb == 4 * w;
            assert(c % 4 == 0);
            assert(c + 3 < rb);
            vstd::arithmetic::div_mod::lemma_fundamental_div_mod_converse(i + 1, rb, r, c + 1);
            vstd::arithmetic::div_mod::lemma_fundamental_div_mod_converse(i + 2, rb, r, c + 2);
            vstd::arithmetic::div_mod::lemma_fundamental_div_mod_converse(i + 3, rb, r, c + 3);
            assert(k * rb == 4 * (k * w)) by (nonlinear_arith)
                requires rb == 4 * w;
            assert((i < k * rb) == (i + 3 < k * rb));
            assert((i + 1) / rb == r && (i + 1) % rb == c + 1);
            assert((i + 2) / rb == r && (i + 2) % rb == c + 2);
            assert((i + 3) / rb == r && (i + 3) % rb == c + 3);
            assert(i / rb == r && i % rb == c);
        }
    }
}

/// Swapping red and blue twice puts every byte back where it was.
pub proof fn law_swizzle_involution(c: int, on: bool)
    requires
        c >= 0,
    ensures
        swz(swz(c, on), on) == c,
{
}

} // verus!
