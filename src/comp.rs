//! Compression-artifact simulation: per-byte quantisation and row blockiness.
use vstd::prelude::*;
use crate::buffer::RgbImage;
use vstd::arithmetic::div_mod::lemma_div_is_ordered;
use vstd::arithmetic::mul::lemma_mul_inequality;
use vstd::arithmetic::div_mod::lemma_fundamental_div_mod_converse;

verus! {

/// The number of intensity levels for a quality given in hundredths
/// (clamped to `0..=100`): `round(2 + 254 * quality / 100)`.
pub open spec fn levels_for(quality: u32) -> int {
    let q = if quality > 100 { 100int } else { quality as int };
    2 + (254 * q + 50) / 100
}

/// The level that byte `v` falls in when `[0, 256)` is cut into `n` levels.
pub open spec fn level_of(v: int, n: int) -> int {
    (v * n) / 256
}

/// The representative byte of level `l` out of `n`.
pub open spec fn level_value(l: int, n: int) -> int {
    let x = (l * 255) / (n - 1);
    if x > 255 { 255 } else { x }
}

/// The quantised value of byte `v` with `n` levels.
pub open spec fn quantized(v: int, n: int) -> int {
    level_value(level_of(v, n), n)
}

/// Every level's representative falls back into its own level, so that a
/// second quantisation with the same table changes nothing.
pub open spec fn levels_stable(n: int) -> bool {
    forall|l: int| 0 <= l < n ==> #[trigger] level_of(level_value(l, n), n) == l
}

/// Number of levels used for a quality given in hundredths.
pub fn num_levels(quality: u32) -> (r: u32)
    ensures
        r == levels_for(quality),
        2 <= r <= 256,
{
    let q: u32 = if quality > 100 { 100 } else { quality };
    2 + (254 * q + 50) / 100
}

/// The 256-entry table mapping each byte to its quantised value.
pub fn quantization_lut(n: u32) -> (lut: Vec<u8>)
    requires
        2 <= n <= 256,
    ensures
        lut@.len() == 256,
        forall|v: int| 0 <= v < 256 ==> lut@[v] as int == quantized(v, n as int),
{
    let mut lut: Vec<u8> = Vec::new();
    let mut v: u32 = 0;
    while v < 256
        invariant
            2 <= n <= 256,
            v <= 256,
            lut@.len() == v,
            forall|j: int| 0 <= j < v ==> lut@[j] as int == quantized(j, n as int),
        decreases 256 - v,
    {
        assert(v * n <= 255 * 256) by (nonlinear_arith)
            requires
                v < 256,
                n <= 256,
        ;
        let level = (v * n) / 256;
        assert(level * 255 <= 256 * 255) by (nonlinear_arith)
            requires
                level <= 256,
        ;
        let x = (level * 255) / (n - 1);
        let out: u32 = if x > 255 { 255 } else { x };
        lut.push(out as u8);
        v = v + 1;
    }
    lut
}

/// Maps every byte of the buffer through the quantisation table of
/// `quality` (in hundredths, clamped to `0..=100`).
pub fn jpeg_quantization(img: &mut RgbImage, quality: u32)
    ensures
        final(img).width == old(img).width,
        final(img).height == old(img).height,
        final(img).data@.len() == old(img).data@.len(),
        forall|i: int|
            0 <= i < old(img).data@.len() ==> #[trigger] final(img).data@[i] as int == quantized(
                old(img).data@[i] as int,
                levels_for(quality),
            ),
{
    let n = num_levels(quality);
    let lut = quantization_lut(n);
    let len = img.data.len();
    let mut i: usize = 0;
    while i < len
        invariant
            len == old(img).data@.len(),
            img.data@.len() == len,
            img.width == old(img).width,
            img.height == old(img).height,
            lut@.len() == 256,
            n as int == levels_for(quality),
            forall|v: int| 0 <= v < 256 ==> lut@[v] as int == quantized(v, n as int),
            i <= len,
            forall|j: int| 0 <= j < i ==> #[trigger] img.data@[j] as int == quantized(
                old(img).data@[j] as int,
                n as int,
            ),
            forall|j: int| i <= j < len ==> img.data@[j] == old(img).data@[j],
        decreases len - i,
    {
        let b = img.data[i];
        img.data.set(i, lut[b as usize]);
        i = i + 1;
    }
}

/// Quantisation never reverses the order of two bytes: the table of any
/// quality is monotonic non-decreasing.
pub proof fn lemma_quantization_monotonic(quality: u32, v1: int, v2: int)
    requires
        0 <= v1 <= v2 < 256,
    ensures
        quantized(v1, levels_for(quality)) <= quantized(v2, levels_for(quality)),
{
    let n = levels_for(quality);
    lemma_mul_inequality(v1, v2, n);
    lemma_div_is_ordered(v1 * n, v2 * n, 256);
    let l1 = level_of(v1, n);
    let l2 = level_of(v2, n);
    lemma_mul_inequality(l1, l2, 255);
    lemma_div_is_ordered(l1 * 255, l2 * 255, n - 1);
}

/// Byte `v` lands in one of the `n` levels.
proof fn lemma_level_in_range(v: int, n: int)
    requires
        0 <= v < 256,
        2 <= n <= 256,
    ensures
        0 <= level_of(v, n) < n,
{
    assert(0 <= (v * n) / 256 < n) by (nonlinear_arith)
        requires
            0 <= v < 256,
            2 <= n,
    ;
}

/// Where every level's representative stays in its level, quantising a byte
/// that is already quantised with the same quality changes nothing.
pub proof fn lemma_quantization_idempotent(quality: u32, v: int)
    requires
        0 <= v < 256,
        levels_stable(levels_for(quality)),
    ensures
        quantized(quantized(v, levels_for(quality)), levels_for(quality)) == quantized(
            v,
            levels_for(quality),
        ),
{
    let n = levels_for(quality);
    lemma_level_in_range(v, n);
    let l = level_of(v, n);
    assert(level_of(level_value(l, n), n) == l);
}

/// Sum of channel `c` over the `count` pixels that start at pixel `start`.
pub open spec fn channel_sum(s: Seq<u8>, start: int, count: int, c: int) -> int
    decreases count,
{
    if count <= 0 {
        0
    } else {
        channel_sum(s, start, count - 1, c) + s[(start + count - 1) * 3 + c] as int
    }
}

/// Column where the block holding column `x` starts.
pub open spec fn block_start(x: int, bs: int) -> int {
    (x / bs) * bs
}

/// Number of pixels in the block holding column `x`: `bs`, or fewer for the
/// trailing block of a row.
pub open spec fn block_len(x: int, bs: int, width: int) -> int {
    let b = block_start(x, bs);
    if b + bs <= width { bs } else { width - b }
}

/// Byte `i` of the blocky image: the truncated mean of its channel over the
/// block of its row that holds its pixel, taken from the incoming bytes `s`.
pub open spec fn blocky_byte(s: Seq<u8>, width: int, bs: int, i: int) -> int {
    let p = i / 3;
    let c = i % 3;
    let y = p / width;
    let x = p % width;
    channel_sum(s, y * width + block_start(x, bs), block_len(x, bs, width), c) / block_len(
        x,
        bs,
        width,
    )
}

/// Where byte `(y * width + x + t) * 3 + c` sits, for `x` a block start.
proof fn lemma_block_index(width: int, bs: int, y: int, x: int, m: int, t: int, c: int)
    requires
        0 < bs,
        0 <= y,
        0 <= m,
        x == m * bs,
        0 <= t < bs,
        x + t < width,
        0 <= c < 3,
    ensures
        ((y * width + x + t) * 3 + c) / 3 == y * width + x + t,
        ((y * width + x + t) * 3 + c) % 3 == c,
        (y * width + x + t) / width == y,
        (y * width + x + t) % width == x + t,
        block_start(x + t, bs) == x,
{
    lemma_fundamental_div_mod_converse((y * width + x + t) * 3 + c, 3, y * width + x + t, c);
    lemma_fundamental_div_mod_converse(y * width + x + t, width, y, x + t);
    lemma_fundamental_div_mod_converse(x + t, bs, m, t);
}

/// A channel sum over `count` pixels is at most `255 * count`.
proof fn lemma_channel_sum_step(s: Seq<u8>, start: int, count: int, c: int)
    requires
        0 <= count,
    ensures
        0 <= channel_sum(s, start, count, c) <= 255 * count,
    decreases count,
{
    if count > 0 {
        lemma_channel_sum_step(s, start, count - 1, c);
    }
}

/// Truncated mean of the block of `k` pixels that starts at pixel `start`.
fn block_mean(s: &Vec<u8>, start: usize, k: usize, c: usize) -> (r: u8)
    requires
        0 < k <= 0xffff_ffff,
        c < 3,
        (start + k) * 3 <= s@.len(),
    ensures
        r as int == channel_sum(s@, start as int, k as int, c as int) / (k as int),
{
    let n = s.len();
    let mut sum: u64 = 0;
    let mut t: usize = 0;
    while t < k
        invariant
            0 < k <= 0xffff_ffff,
            c < 3,
            (start + k) * 3 <= s@.len(),
            n == s@.len(),
            t <= k,
            sum as int == channel_sum(s@, start as int, t as int, c as int),
            sum <= 255 * t,
        decreases k - t,
    {
        sum = sum + s[(start + t) * 3 + c] as u64;
        t = t + 1;
    }
    let kk = k as u64;
    assert(sum / kk <= 255) by (nonlinear_arith)
        requires
            sum <= 255 * kk,
            kk > 0,
    ;
    (sum / kk) as u8
}

/// Replaces each run of `block_size` pixels within a row (and the shorter
/// trailing run of the row) by the truncated mean of its incoming pixels;
/// a `block_size` of 0 or 1 leaves the image as it is.
pub fn jpeg_blockiness(img: &mut RgbImage, block_size: u32)
    requires
        old(img).wf(),
    ensures
        final(img).width == old(img).width,
        final(img).height == old(img).height,
        final(img).wf(),
        block_size <= 1 ==> final(img).data@ == old(img).data@,
        block_size > 1 ==> forall|i: int|
            0 <= i < old(img).data@.len() ==> #[trigger] final(img).data@[i] as int
                == blocky_byte(old(img).data@, old(img).width as int, block_size as int, i),
{
    if block_size <= 1 {
        return;
    }
    let width = img.width as usize;
    let height = img.height as usize;
    let bs = block_size as usize;
    let ghost s = img.data@;
    let len = img.data.len();
    let ghost w = width as int;
    let mut out: Vec<u8> = Vec::new();
    let mut y: usize = 0;
    while y < height
        invariant
            s == img.data@,
            s == old(img).data@,
            img.width == old(img).width,
            img.height == old(img).height,
            width == img.width,
            height == img.height,
            bs == block_size,
            1 < bs <= 0xffff_ffff,
            s.len() == w * height * 3,
            s.len() == len,
            w == width,
            y <= height,
            out@.len() == y * w * 3,
            forall|j: int| 0 <= j < out@.len() ==> #[trigger] out@[j] as int == blocky_byte(s, w, bs as int, j),
        decreases height - y,
    {
        proof {
            assert((y + 1) * w <= height * w && (y + 1) * w == y * w + w && height * w * 3 == w * height * 3) by (nonlinear_arith)
                requires y + 1 <= height, w >= 0;
        }
        let row = y * width;
        let mut x: usize = 0;
        let ghost mut m: int = 0;
        while x < width
            invariant
                s == img.data@,
                1 < bs <= 0xffff_ffff,
                s.len() == w * height * 3,
                w == width,
                y < height,
                y * w + w <= height * w,
                height * w * 3 == s.len(),
                s.len() <= usize::MAX,
                row == y * w,
                x <= width,
                0 <= m,
                x == m * bs || x == width,
                out@.len() == (row + x) * 3,
                forall|j: int| 0 <= j < out@.len() ==> #[trigger] out@[j] as int == blocky_byte(s, w, bs as int, j),
            decreases width - x,
        {
            let k: usize = if bs <= width - x { bs } else { width - x };
            proof {
                lemma_block_index(w, bs as int, y as int, x as int, m, 0, 0);
            }
            let ar = block_mean(&img.data, row + x, k, 0);
            let ag = block_mean(&img.data, row + x, k, 1);
            let ab = block_mean(&img.data, row + x, k, 2);
            let mut t: usize = 0;
            while t < k
                invariant
                    1 < bs <= 0xffff_ffff,
                    w == width,
                    row == y * w,
                    x == m * bs,
                    0 <= m,
                    x < width,
                    k == (if bs <= width - x { bs } else { (width - x) as usize }),
                    block_start(x as int, bs as int) == x,
                    ar as int == channel_sum(s, row + x, k as int, 0) / (k as int),
                    ag as int == channel_sum(s, row + x, k as int, 1) / (k as int),
                    ab as int == channel_sum(s, row + x, k as int, 2) / (k as int),
                    t <= k,
                    out@.len() == (row + x + t) * 3,
                    forall|j: int| 0 <= j < out@.len() ==> #[trigger] out@[j] as int == blocky_byte(s, w, bs as int, j),
                decreases k - t,
            {
                proof {
                    lemma_block_index(w, bs as int, y as int, x as int, m, t as int, 0);
                    lemma_block_index(w, bs as int, y as int, x as int, m, t as int, 1);
                    lemma_block_index(w, bs as int, y as int, x as int, m, t as int, 2);
                }
                let ghost n0 = out@.len() as int;
                out.push(ar);
                out.push(ag);
                out.push(ab);
                assert(out@[n0] as int == blocky_byte(s, w, bs as int, n0));
                assert(out@[n0 + 1] as int == blocky_byte(s, w, bs as int, n0 + 1));
                assert(out@[n0 + 2] as int == blocky_byte(s, w, bs as int, n0 + 2));
                t = t + 1;
            }
            proof {
                assert((m + 1) * bs == m * bs + bs) by (nonlinear_arith);
            }
            x = x + k;
            proof {
                m = m + 1;
            }
        }
        assert(out@.len() == (y + 1) * w * 3) by (nonlinear_arith)
            requires out@.len() == (row + width) * 3, row == y * w, w == width;
        y = y + 1;
    }
    assert(out@.len() == s.len()) by (nonlinear_arith)
        requires out@.len() == y * w * 3, y == height, s.len() == w * height * 3;
    img.data = out;
}

/// Quality in hundredths for a compression strength: `100 - comp`, never
/// below 5.
pub open spec fn quality_of(comp: u8) -> u32 {
    if comp >= 95 { 5 } else { (100 - comp) as u32 }
}

/// Block size derived from a compression strength (clamped to `0..=100`):
/// `round(comp * 7 / 100)` clamped to `1..=8`.
pub open spec fn auto_block_size(comp: u8) -> u32 {
    let c: int = if comp > 100 { 100 } else { comp as int };
    let r = (c * 7 + 50) / 100;
    if r < 1 { 1 } else if r > 8 { 8 } else { r as u32 }
}

/// The bytes `s` after quantisation with `quality`.
pub open spec fn quantized_seq(s: Seq<u8>, quality: u32) -> Seq<u8> {
    Seq::new(s.len(), |i: int| quantized(s[i] as int, levels_for(quality)) as u8)
}

/// The bytes `s` of an image `width` pixels wide after blockiness with
/// blocks of `bs` pixels.
pub open spec fn blocky_seq(s: Seq<u8>, width: int, bs: u32) -> Seq<u8> {
    if bs <= 1 {
        s
    } else {
        Seq::new(s.len(), |i: int| blocky_byte(s, width, bs as int, i) as u8)
    }
}

/// Quality in hundredths for a compression strength.
pub fn quality_for(comp: u8) -> (r: u32)
    ensures
        r == quality_of(comp),
{
    if comp >= 95 { 5 } else { (100 - comp) as u32 }
}

/// Block size derived from a compression strength.
pub fn auto_block(comp: u8) -> (r: u32)
    ensures
        r == auto_block_size(comp),
        1 <= r <= 8,
{
    let c: u32 = if comp > 100 { 100 } else { comp as u32 };
    let x: u32 = (c * 7 + 50) / 100;
    if x < 1 { 1 } else if x > 8 { 8 } else { x }
}

} // verus!
