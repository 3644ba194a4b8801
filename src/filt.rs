//! The colour-bucket filter: each pixel's brightness picks one of six
//! buckets, and each bucket one of three palette colours.
use vstd::prelude::*;
use crate::buffer::RgbImage;
use crate::codec::{decode, decodable, decodes_to, CodecError};
use crate::comp::{
    auto_block, auto_block_size, blocky_seq, jpeg_blockiness, jpeg_quantization, quality_for,
    quality_of, quantized_seq,
};

verus! {

#[verifier::external_type_specification]
#[verifier::external_body]
pub struct ExSmallRng(rand::rngs::SmallRng);

/// Relies on rand's `SeedableRng::seed_from_u64` for `SmallRng`: a generator
/// whose stream is fixed by the seed.
#[verifier::external_body]
fn seeded_rng(seed: u64) -> (r: rand::rngs::SmallRng) {
    rand::SeedableRng::seed_from_u64(seed)
}

/// Relies on rand's `RngCore::next_u64` for `SmallRng`: one draw from the
/// generator, advancing it by one step.
#[verifier::external_body]
fn next_draw(rng: &mut rand::rngs::SmallRng) -> (r: u64) {
    rand::RngCore::next_u64(rng)
}

/// Number of distinct draws: a draw `d` stands for the value `d / DRAW_SPAN`.
pub const DRAW_SPAN: u128 = 0x1_0000_0000_0000_0000;

/// Whether the uniform value `draw / 2^64` in `[0, 1)` lies below the chance
/// `numerator / denominator`.
pub open spec fn draw_below(draw: u64, numerator: u32, denominator: u32) -> bool {
    (draw as int) * (denominator as int) < (numerator as int) * (DRAW_SPAN as int)
}

/// Whether the uniform value `draw / 2^64` lies below `numerator / denominator`.
pub fn below_chance(draw: u64, numerator: u32, denominator: u32) -> (r: bool)
    ensures
        r == draw_below(draw, numerator, denominator),
{
    let d = draw as u128;
    let den = denominator as u128;
    let num = numerator as u128;
    assert(d * den < 0x1_0000_0000_0000_0000_0000_0000u128 && num * DRAW_SPAN
        < 0x1_0000_0000_0000_0000_0000_0000u128) by (nonlinear_arith)
        requires
            d < 0x1_0000_0000_0000_0000u128,
            den < 0x1_0000_0000u128,
            num < 0x1_0000_0000u128,
            DRAW_SPAN == 0x1_0000_0000_0000_0000u128,
    ;
    d * den < num * DRAW_SPAN
}

/// Draws one value from `rng` and answers whether it, read as a uniform value
/// in `[0, 1)`, lies below the chance `numerator / denominator`: always when
/// the chance is 1 or more, never when it is 0.
fn probably(rng: &mut rand::rngs::SmallRng, numerator: u32, denominator: u32) -> (r: bool)
    requires
        0 < denominator,
    ensures
        numerator >= denominator ==> r,
        numerator == 0 ==> !r,
{
    let draw = next_draw(rng);
    proof {
        assert((draw as int) * (denominator as int) < (DRAW_SPAN as int) * (denominator as int))
            by (nonlinear_arith)
            requires (draw as int) < (DRAW_SPAN as int), denominator > 0;
        assert(numerator >= denominator ==> (numerator as int) * (DRAW_SPAN as int) >= (
            DRAW_SPAN as int) * (denominator as int)) by (nonlinear_arith);
    }
    below_chance(draw, numerator, denominator)
}

/// Value mixed into every per-row seed.
pub const ROW_SEED_MASK: u64 = 0x123456789abcdef0;

/// Live settings of the pipeline. Nothing is rejected: out-of-range values
/// are clamped where used (`comp` to 100, `block_size` to 64, an override
/// index to the palette's last colour).
pub struct MilkConfig {
    pub alt: bool,
    pub pointism: bool,
    pub comp: u8,
    pub enabled: bool,
    pub quant: bool,
    pub block: bool,
    pub block_size: u32,
    pub eff: u8,
    pub s1: Option<usize>,
    pub s2: Option<usize>,
    pub s3: Option<usize>,
    pub s4: Option<usize>,
    pub s5: Option<usize>,
    pub s6: Option<usize>,
}

impl MilkConfig {
    /// The override of bucket `k` (1 to 6).
    pub open spec fn override_of(&self, k: int) -> Option<usize> {
        if k == 1 {
            self.s1
        } else if k == 2 {
            self.s2
        } else if k == 3 {
            self.s3
        } else if k == 4 {
            self.s4
        } else if k == 5 {
            self.s5
        } else {
            self.s6
        }
    }

    /// The default settings: filter and both artifact passes on, no
    /// compression, automatic block size, no overrides.
    pub fn new() -> (r: Self)
        ensures
            !r.alt && !r.pointism && r.comp == 0 && r.enabled && r.quant && r.block,
            r.block_size == 0 && r.eff == 0,
            r.s1 is None && r.s2 is None && r.s3 is None,
            r.s4 is None && r.s5 is None && r.s6 is None,
    {
        MilkConfig {
            alt: false,
            pointism: false,
            comp: 0,
            enabled: true,
            quant: true,
            block: true,
            block_size: 0,
            eff: 0,
            s1: None,
            s2: None,
            s3: None,
            s4: None,
            s5: None,
            s6: None,
        }
    }

    fn override_for(&self, k: u8) -> (r: Option<usize>)
        ensures
            r == self.override_of(k as int),
    {
        if k == 1 {
            self.s1
        } else if k == 2 {
            self.s2
        } else if k == 3 {
            self.s3
        } else if k == 4 {
            self.s4
        } else if k == 5 {
            self.s5
        } else {
            self.s6
        }
    }
}

/// Colour `i` of the palette that `alt` selects.
pub open spec fn palette(alt: bool, i: int) -> (u8, u8, u8) {
    if i == 0 {
        (0u8, 0u8, 0u8)
    } else if !alt {
        if i == 1 { (102u8, 0u8, 31u8) } else { (137u8, 0u8, 146u8) }
    } else {
        if i == 1 { (92u8, 36u8, 60u8) } else { (203u8, 43u8, 43u8) }
    }
}

/// Brightness of a pixel: the truncated mean of its three channels.
pub open spec fn brightness(r: u8, g: u8, b: u8) -> int {
    (r as int + g as int + b as int) / 3
}

/// The bucket (1 to 6) of a brightness; the two middle thresholds depend on
/// the palette.
pub open spec fn bucket_of(bright: int, alt: bool) -> int {
    let mid1: int = if alt { 90 } else { 120 };
    let mid2: int = if alt { 150 } else { 200 };
    if bright <= 25 {
        1
    } else if bright <= 70 {
        2
    } else if bright < mid1 {
        3
    } else if bright < mid2 {
        4
    } else if bright < 230 {
        5
    } else {
        6
    }
}

/// Whether a bucket without override asks the generator for a coin.
pub open spec fn bucket_draws(k: int, eff: u8) -> bool {
    k == 2 || (k == 3 && eff != 1) || (k == 4 && eff == 1) || (k == 5 && eff != 1)
}

/// Palette index a bucket without override picks, given the coin drawn
/// (ignored by the buckets that draw none).
pub open spec fn default_index(k: int, eff: u8, coin: bool) -> int {
    if k == 1 {
        0
    } else if k == 2 {
        if eff == 1 { if coin { 1 } else { 0 } } else { if coin { 0 } else { 1 } }
    } else if k == 3 {
        if eff == 1 { 0 } else { if coin { 1 } else { 0 } }
    } else if k == 4 {
        if eff == 1 { if coin { 0 } else { 1 } } else { 1 }
    } else if k == 5 {
        if eff == 1 { 2 } else { if coin { 2 } else { 1 } }
    } else {
        2
    }
}

/// Palette index for a brightness: the bucket's override when set (an index
/// past the palette's end counts as its last colour), else its default for
/// the coin.
pub open spec fn color_index(conf: MilkConfig, bright: int, coin: bool) -> int {
    let k = bucket_of(bright, conf.alt);
    match conf.override_of(k) {
        Some(i) => if i > 2 { 2 } else { i as int },
        None => default_index(k, conf.eff, coin),
    }
}

/// The colour a pixel of brightness `bright` becomes with the coin `coin`.
pub open spec fn pixel_color(conf: MilkConfig, bright: int, coin: bool) -> (u8, u8, u8) {
    palette(conf.alt, color_index(conf, bright, coin))
}

/// Whether a pixel of brightness `bright` consumes a draw from its row's
/// generator.
pub open spec fn consumes_draw(conf: MilkConfig, bright: int) -> bool {
    let k = bucket_of(bright, conf.alt);
    conf.override_of(k) is None && bucket_draws(k, conf.eff)
}

/// The seed of row `y` of an image `width` pixels wide.
pub open spec fn row_seed_of(width: int, y: int) -> u64 {
    ((width * 3 + y) as u64) ^ ROW_SEED_MASK
}

/// Colour `i` of the palette that `alt` selects.
pub fn palette_color(alt: bool, i: usize) -> (r: (u8, u8, u8))
    requires
        i < 3,
    ensures
        r == palette(alt, i as int),
{
    if i == 0 {
        (0u8, 0u8, 0u8)
    } else if !alt {
        if i == 1 { (102u8, 0u8, 31u8) } else { (137u8, 0u8, 146u8) }
    } else {
        if i == 1 { (92u8, 36u8, 60u8) } else { (203u8, 43u8, 43u8) }
    }
}

/// The bucket (1 to 6) of a brightness.
pub fn bucket(bright: u16, alt: bool) -> (r: u8)
    ensures
        r as int == bucket_of(bright as int, alt),
        1 <= r <= 6,
{
    let (mid1, mid2): (u16, u16) = if alt { (90, 150) } else { (120, 200) };
    if bright <= 25 {
        1
    } else if bright <= 70 {
        2
    } else if bright < mid1 {
        3
    } else if bright < mid2 {
        4
    } else if bright < 230 {
        5
    } else {
        6
    }
}

fn draws(k: u8, eff: u8) -> (r: bool)
    ensures
        r == bucket_draws(k as int, eff),
{
    k == 2 || (k == 3 && eff != 1) || (k == 4 && eff == 1) || (k == 5 && eff != 1)
}

fn default_for(k: u8, eff: u8, coin: bool) -> (r: usize)
    ensures
        r as int == default_index(k as int, eff, coin),
        r < 3,
{
    if k == 1 {
        0
    } else if k == 2 {
        if eff == 1 { if coin { 1 } else { 0 } } else { if coin { 0 } else { 1 } }
    } else if k == 3 {
        if eff == 1 { 0 } else { if coin { 1 } else { 0 } }
    } else if k == 4 {
        if eff == 1 { if coin { 0 } else { 1 } } else { 1 }
    } else if k == 5 {
        if eff == 1 { 2 } else { if coin { 2 } else { 1 } }
    } else {
        2
    }
}

/// Brightness of a pixel.
pub fn pixel_brightness(r: u8, g: u8, b: u8) -> (res: u16)
    ensures
        res as int == brightness(r, g, b),
{
    (r as u16 + g as u16 + b as u16) / 3
}

/// The colour of a pixel of brightness `bright`, given the outcome `coin` of
/// the draw that its bucket may ask for.
pub fn color_for(conf: &MilkConfig, bright: u16, coin: bool) -> (r: (u8, u8, u8))
    ensures
        r == pixel_color(*conf, bright as int, coin),
{
    let k = bucket(bright, conf.alt);
    match conf.override_for(k) {
        Some(i) => palette_color(conf.alt, if i > 2 { 2 } else { i }),
        None => palette_color(conf.alt, default_for(k, conf.eff, coin)),
    }
}

/// Whether a pixel of brightness `bright` asks its row's generator for a coin.
pub fn needs_draw(conf: &MilkConfig, bright: u16) -> (r: bool)
    ensures
        r == consumes_draw(*conf, bright as int),
{
    let k = bucket(bright, conf.alt);
    conf.override_for(k).is_none() && draws(k, conf.eff)
}

/// The seed of the generator of row `y` of an image `width` pixels wide.
pub fn row_seed(width: usize, y: usize) -> (r: u64)
    requires
        width * 3 + y <= usize::MAX,
    ensures
        r == row_seed_of(width as int, y as int),
{
    ((width * 3 + y) as u64) ^ ROW_SEED_MASK
}

/// Pixel `p` of a row-major RGB byte sequence.
pub open spec fn pixel_at(s: Seq<u8>, p: int) -> (u8, u8, u8) {
    (s[p * 3], s[p * 3 + 1], s[p * 3 + 2])
}

/// Pixel `p` of `after` is the colour of pixel `p` of `before` for one of the
/// two coins, and for the coin `true` when dithering is off.
pub open spec fn filtered_pixel(conf: MilkConfig, before: Seq<u8>, after: Seq<u8>, p: int) -> bool {
    let (r, g, b) = pixel_at(before, p);
    let bright = brightness(r, g, b);
    &&& (pixel_at(after, p) == pixel_color(conf, bright, true) || pixel_at(after, p)
        == pixel_color(conf, bright, false))
    &&& (!conf.pointism ==> pixel_at(after, p) == pixel_color(conf, bright, true))
}

/// `after` is `before` with every pixel passed through the colour-bucket filter.
pub open spec fn filtered(conf: MilkConfig, before: Seq<u8>, after: Seq<u8>) -> bool {
    &&& after.len() == before.len()
    &&& forall|p: int| 0 <= p < before.len() / 3 ==> #[trigger] filtered_pixel(conf, before, after, p)
}

/// Recolours every pixel by its brightness bucket. Each row draws its coins,
/// left to right, from a fresh generator seeded with `row_seed(width, y)`,
/// one draw for each pixel whose bucket asks for one. A coin is `true` when
/// its draw, read as a uniform value in `[0, 1)`, lies below the chance: 7/10
/// with `pointism`, else 1, so that without `pointism` every coin is `true`.
pub fn apply_filter(img: &mut RgbImage, conf: &MilkConfig)
    requires
        old(img).wf(),
    ensures
        final(img).width == old(img).width,
        final(img).height == old(img).height,
        final(img).wf(),
        filtered(*conf, old(img).data@, final(img).data@),
{
    let ghost s = img.data@;
    let width = img.width as usize;
    let height = img.height as usize;
    let len = img.data.len();
    let ghost w = width as int;
    let (num, den): (u32, u32) = if conf.pointism { (7, 10) } else { (1, 1) };
    let mut y: usize = 0;
    let mut p: usize = 0;
    while y < height
        invariant
            img.width == old(img).width,
            img.height == old(img).height,
            s == old(img).data@,
            width == img.width,
            height == img.height,
            w == width,
            len == s.len(),
            s.len() == w * height * 3,
            img.data@.len() == len,
            0 < den,
            num <= den,
            conf.pointism ==> num == 7 && den == 10,
            !conf.pointism ==> num == den,
            y <= height,
            p == y * w,
            forall|q: int| 0 <= q < p ==> #[trigger] filtered_pixel(*conf, s, img.data@, q),
            forall|j: int| p * 3 <= j < len ==> img.data@[j] == s[j],
        decreases height - y,
    {
        proof {
            assert((y + 1) * w <= height * w && (y + 1) * w == y * w + w && height * w * 3 == w * height * 3) by (nonlinear_arith)
                requires y + 1 <= height, w >= 0;
        }
        proof {
            if w >= 1 {
                assert(w * 3 + y <= len) by (nonlinear_arith)
                    requires y < height, w >= 1, len == w * height * 3;
            }
        }
        let mut rng = seeded_rng(row_seed(width, y));
        let mut x: usize = 0;
        while x < width
            invariant
                img.width == old(img).width,
                img.height == old(img).height,
                width == img.width,
                w == width,
                len == s.len(),
                height * w * 3 == s.len(),
                y * w + w <= height * w,
                img.data@.len() == len,
                0 < den,
                num <= den,
                !conf.pointism ==> num == den,
                x <= width,
                p == y * w + x,
                forall|q: int| 0 <= q < p ==> #[trigger] filtered_pixel(*conf, s, img.data@, q),
                forall|j: int| p * 3 <= j < len ==> img.data@[j] == s[j],
            decreases width - x,
        {
            let r = img.data[p * 3];
            let g = img.data[p * 3 + 1];
            let b = img.data[p * 3 + 2];
            let bright = pixel_brightness(r, g, b);
            let coin = if needs_draw(conf, bright) {
                probably(&mut rng, num, den)
            } else {
                true
            };
            let c = color_for(conf, bright, coin);
            let ghost before = img.data@;
            img.data.set(p * 3, c.0);
            img.data.set(p * 3 + 1, c.1);
            img.data.set(p * 3 + 2, c.2);
            proof {
                assert forall|q: int| 0 <= q < p + 1 implies #[trigger] filtered_pixel(
                    *conf,
                    s,
                    img.data@,
                    q,
                ) by {
                    if q < p {
                        assert(filtered_pixel(*conf, s, before, q));
                        assert(pixel_at(img.data@, q) == pixel_at(before, q));
                    } else {
                        assert(pixel_at(s, q) == (r, g, b));
                        assert(pixel_at(img.data@, q) == c);
                    }
                }
            }
            p = p + 1;
            x = x + 1;
        }
        y = y + 1;
    }
    assert(p == len / 3) by (nonlinear_arith)
        requires p == y * w, y == height, len == w * height * 3;
}

/// Largest block size the blockiness pass uses.
pub const MAX_BLOCK_SIZE: u32 = 64;

/// The block size that the blockiness pass uses: the configured one clamped
/// to `MAX_BLOCK_SIZE`, or the one derived from `comp` when it is 0.
pub open spec fn block_size_of(conf: MilkConfig) -> u32 {
    if conf.block_size == 0 {
        auto_block_size(conf.comp)
    } else if conf.block_size > MAX_BLOCK_SIZE {
        MAX_BLOCK_SIZE
    } else {
        conf.block_size
    }
}

/// The bytes `s` of an image `width` pixels wide after the artifact passes
/// that `conf` turns on: nothing when `comp` is 0, else quantisation, then
/// blockiness.
pub open spec fn artifacts(conf: MilkConfig, width: int, s: Seq<u8>) -> Seq<u8> {
    if conf.comp == 0 {
        s
    } else {
        let q = if conf.quant { quantized_seq(s, quality_of(conf.comp)) } else { s };
        if conf.block { blocky_seq(q, width, block_size_of(conf)) } else { q }
    }
}

/// `out` is what processing `src` under `conf` gives: the artifact passes,
/// then the colour-bucket filter when it is enabled.
pub open spec fn processed_from(conf: MilkConfig, src: RgbImage, out: RgbImage) -> bool {
    let mid = artifacts(conf, src.width as int, src.data@);
    &&& out.width == src.width && out.height == src.height && out.wf()
    &&& if conf.enabled { filtered(conf, mid, out.data@) } else { out.data@ == mid }
}

/// Runs the artifact passes that `conf` turns on.
pub fn simulate_artifacts(img: &mut RgbImage, conf: &MilkConfig)
    requires
        old(img).wf(),
    ensures
        final(img).width == old(img).width,
        final(img).height == old(img).height,
        final(img).wf(),
        final(img).data@ == artifacts(*conf, old(img).width as int, old(img).data@),
{
    if conf.comp == 0 {
        return;
    }
    let ghost s = img.data@;
    let block_size = if conf.block_size == 0 {
        auto_block(conf.comp)
    } else if conf.block_size > MAX_BLOCK_SIZE {
        MAX_BLOCK_SIZE
    } else {
        conf.block_size
    };
    if conf.quant {
        jpeg_quantization(img, quality_for(conf.comp));
        assert(img.data@ =~= quantized_seq(s, quality_of(conf.comp)));
    }
    let ghost q = img.data@;
    if conf.block {
        jpeg_blockiness(img, block_size);
        assert(img.data@ =~= blocky_seq(q, img.width as int, block_size));
    }
}

/// Without dithering the colour-bucket filter leaves nothing to chance: two
/// filtered versions of one image are byte for byte the same, and where all six
/// buckets are pinned to palette index `k` every pixel becomes that colour.
pub proof fn lemma_filter_repeatable(
    conf: MilkConfig,
    img: RgbImage,
    a: Seq<u8>,
    b: Seq<u8>,
    k: usize,
)
    requires
        img.wf(),
        !conf.pointism,
        k < 3,
        conf.s1 == Some(k) && conf.s2 == Some(k) && conf.s3 == Some(k),
        conf.s4 == Some(k) && conf.s5 == Some(k) && conf.s6 == Some(k),
        filtered(conf, img.data@, a),
        filtered(conf, img.data@, b),
    ensures
        a == b,
        forall|p: int| 0 <= p < img.data@.len() / 3 ==> #[trigger] pixel_at(a, p) == palette(conf.alt, k as int),
{
    let s = img.data@;
    assert(s.len() == (s.len() / 3) * 3) by (nonlinear_arith)
        requires s.len() == img.width as int * img.height as int * 3;
    assert forall|j: int| 0 <= j < a.len() implies a[j] == b[j] by {
        let p = j / 3;
        assert(j == p * 3 + j % 3);
        assert(0 <= p < s.len() / 3) by (nonlinear_arith)
            requires p == j / 3, 0 <= j < s.len(), s.len() == (s.len() / 3) * 3;
        assert(filtered_pixel(conf, s, a, p));
        assert(filtered_pixel(conf, s, b, p));
    }
    assert(a =~= b);
    assert forall|p: int| 0 <= p < s.len() / 3 implies #[trigger] pixel_at(a, p) == palette(conf.alt, k as int) by {
        assert(filtered_pixel(conf, s, a, p));
    }
}

/// With the filter disabled and no compression, processing hands back the
/// source image unchanged.
pub proof fn lemma_disabled_pipeline_is_identity(conf: MilkConfig, src: RgbImage, out: RgbImage)
    requires
        src.wf(),
        !conf.enabled,
        conf.comp == 0,
        processed_from(conf, src, out),
    ensures
        out.width == src.width,
        out.height == src.height,
        out.data@ == src.data@,
{
}

/// An image pipeline: the decoded source, the live configuration and the
/// last processed result.
pub struct MilkImage {
    img: Option<RgbImage>,
    pub processed: Option<RgbImage>,
    conf: MilkConfig,
}

impl MilkImage {
    /// The decoded source image, if one was loaded.
    pub closed spec fn source(&self) -> Option<RgbImage> {
        self.img
    }

    /// The last processed image, if any.
    pub closed spec fn result(&self) -> Option<RgbImage> {
        self.processed
    }

    /// The current configuration.
    pub closed spec fn config(&self) -> MilkConfig {
        self.conf
    }

    /// The source, when there is one, is a consistent buffer.
    pub open spec fn wf(&self) -> bool {
        self.source() matches Some(i) ==> i.wf()
    }

    /// An empty pipeline with the default configuration.
    pub fn new() -> (r: Self)
        ensures
            r.wf(),
            r.source() is None,
            r.result() is None,
            !r.config().alt && !r.config().pointism && r.config().comp == 0,
            r.config().enabled && r.config().quant && r.config().block,
            r.config().block_size == 0 && r.config().eff == 0,
            r.config().s1 is None && r.config().s2 is None && r.config().s3 is None,
            r.config().s4 is None && r.config().s5 is None && r.config().s6 is None,
    {
        MilkImage { img: None, processed: None, conf: MilkConfig::new() }
    }

    /// Decodes `data` and makes it the source, discarding the last result;
    /// on a decode failure nothing changes.
    pub fn open(&mut self, data: &[u8]) -> (r: Result<(), CodecError>)
        requires
            old(self).wf(),
        ensures
            final(self).wf(),
            final(self).config() == old(self).config(),
            r is Ok <==> decodable(data@),
            r is Ok ==> final(self).result() is None && (final(self).source() matches Some(
                img,
            ) && decodes_to(data@, img)),
            r matches Err(e) ==> e == CodecError::Decode && final(self).source() == old(
                self,
            ).source() && final(self).result() == old(self).result(),
    {
        match decode(data) {
            Ok(img) => {
                self.img = Some(img);
                self.processed = None;
                Ok(())
            },
            Err(e) => Err(e),
        }
    }

    /// Processes a copy of the source under the current configuration and
    /// keeps it as the result; without a source nothing changes.
    pub fn process(&mut self)
        requires
            old(self).wf(),
        ensures
            final(self).wf(),
            final(self).source() == old(self).source(),
            final(self).config() == old(self).config(),
            old(self).source() is None ==> final(self).result() == old(self).result(),
            old(self).source() matches Some(src) ==> (final(self).result() matches Some(out)
                && processed_from(old(self).config(), src, out)),
    {
        match &self.img {
            None => {},
            Some(src) => {
                let mut img = RgbImage { width: src.width, height: src.height, data: src.data.clone() };
                simulate_artifacts(&mut img, &self.conf);
                if self.conf.enabled {
                    apply_filter(&mut img, &self.conf);
                }
                self.processed = Some(img);
            },
        }
    }

    /// The configuration, for the caller to edit in place.
    pub fn get_config(&mut self) -> (r: &mut MilkConfig)
        ensures
            *r == old(self).config(),
            final(self).config() == *final(r),
            final(self).source() == old(self).source(),
            final(self).result() == old(self).result(),
    {
        &mut self.conf
    }
}

} // verus!
