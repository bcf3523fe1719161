//! Packing of RGB pixels into the byte layouts that LCD drivers read.

use vstd::arithmetic::power2::{lemma_pow2_pos, lemma_pow2_strictly_increases, lemma_pow2_unfold, pow2};
use vstd::prelude::*;

verus! {

/// A channel above this value makes a pixel light.
pub const LIGHT_THRESHOLD: u8 = 130;

/// The bit a light pixel gets in a monochrome bitmap. The panel's polarity is
/// inverted: lit pixels are written as 0.
pub const LIGHT_BIT: u8 = 0;

/// The bit a dark pixel gets in a monochrome bitmap.
pub const DARK_BIT: u8 = 1;

/// One pixel with eight bits per channel.
#[derive(Clone, Copy, Debug, PartialEq, Eq, Structural)]
pub struct Pixel {
    pub red: u8,
    pub green: u8,
    pub blue: u8,
}

/// The byte layout a picture is packed into.
#[derive(Clone, Copy, Debug, PartialEq, Eq, Structural)]
pub enum OutputFormat {
    /// One bit per pixel, eight pixels per byte, first pixel in the top bit.
    Monochrome,
    /// Sixteen bits per pixel, high byte first.
    Rgb565,
}

/// The name of an output format.
pub open spec fn format_name(f: OutputFormat) -> Seq<char> {
    match f {
        OutputFormat::Monochrome => "Monochrome"@,
        OutputFormat::Rgb565 => "Rgb565"@,
    }
}

impl OutputFormat {
    /// The name of the format as it appears in a generated header.
    pub fn name(&self) -> (r: &'static str)
        ensures
            r@ == format_name(*self),
    {
        match self {
            OutputFormat::Monochrome => "Monochrome",
            OutputFormat::Rgb565 => "Rgb565",
        }
    }
}

/// A pixel is light when any of its channels exceeds the threshold.
pub open spec fn is_light(p: Pixel) -> bool {
    p.red > LIGHT_THRESHOLD || p.green > LIGHT_THRESHOLD || p.blue > LIGHT_THRESHOLD
}

/// The monochrome bit of a pixel.
pub open spec fn mono_bit(p: Pixel) -> u8 {
    if is_light(p) {
        LIGHT_BIT
    } else {
        DARK_BIT
    }
}

/// The bit at position `k` of the bitmap of `px`; positions past the last
/// pixel are 0.
pub open spec fn bit_at(px: Seq<Pixel>, k: int) -> nat {
    if 0 <= k < px.len() {
        mono_bit(px[k]) as nat
    } else {
        0
    }
}

/// The number whose binary digits, most significant first, are the bits at
/// positions `start` .. `start + count` of the bitmap of `px`.
pub open spec fn pack_bits(px: Seq<Pixel>, start: int, count: nat) -> nat
    decreases count,
{
    if count == 0 {
        0
    } else {
        pack_bits(px, start, (count - 1) as nat) * 2 + bit_at(px, start + count - 1)
    }
}

/// The number of bytes a bitmap of `n` pixels takes: one per eight pixels,
/// with a last, partly used byte when `n` is not a multiple of eight.
pub open spec fn mono_len(n: nat) -> nat {
    (n + 7) / 8
}

/// Byte `i` of the bitmap of `px`: the bits of pixels `8 * i` .. `8 * i + 8`.
pub open spec fn mono_byte(px: Seq<Pixel>, i: int) -> u8 {
    pack_bits(px, 8 * i, 8) as u8
}

/// The monochrome bitmap of `px`, pixels taken in the order given.
pub open spec fn monochrome_of(px: Seq<Pixel>) -> Seq<u8> {
    Seq::new(mono_len(px.len()), |i: int| mono_byte(px, i))
}

/// The RGB565 word of a colour: the top five bits of red, the top six of
/// green and the top five of blue, in that order from the most significant bit.
pub open spec fn rgb565_word(red: u8, green: u8, blue: u8) -> u16 {
    ((red & 0xf8) as u16) << 8u16 | ((green & 0xfc) as u16) << 3u16 | (blue as u16) >> 3u16
}

pub open spec fn rgb565_of(p: Pixel) -> u16 {
    rgb565_word(p.red, p.green, p.blue)
}

/// The first byte written for a pixel in RGB565.
pub open spec fn rgb565_high(p: Pixel) -> u8 {
    (rgb565_of(p) >> 8u16) as u8
}

/// The second byte written for a pixel in RGB565.
pub open spec fn rgb565_low(p: Pixel) -> u8 {
    (rgb565_of(p) & 0xffu16) as u8
}

/// `out` is the RGB565 encoding of `px`: two bytes per pixel, high byte first.
pub open spec fn is_rgb565_of(out: Seq<u8>, px: Seq<Pixel>) -> bool {
    &&& out.len() == 2 * px.len()
    &&& forall|k: int|
        0 <= k < px.len() ==> #[trigger] out[2 * k] == rgb565_high(px[k]) && out[2 * k + 1]
            == rgb565_low(px[k])
}

/// `out` is the encoding of `px` in `format`.
pub open spec fn is_encoding_of(out: Seq<u8>, px: Seq<Pixel>, format: OutputFormat) -> bool {
    match format {
        OutputFormat::Monochrome => out == monochrome_of(px),
        OutputFormat::Rgb565 => is_rgb565_of(out, px),
    }
}

/// Whether a pixel is light.
pub fn pixel_is_light(p: Pixel) -> (r: bool)
    ensures
        r == is_light(p),
{
    p.red > LIGHT_THRESHOLD || p.green > LIGHT_THRESHOLD || p.blue > LIGHT_THRESHOLD
}

proof fn lemma_pack_bound(px: Seq<Pixel>, start: int, count: nat)
    ensures
        pack_bits(px, start, count) < pow2(count),
    decreases count,
{
    if count > 0 {
        lemma_pack_bound(px, start, (count - 1) as nat);
        lemma_pow2_unfold(count);
    } else {
        lemma_pow2_pos(0);
    }
}

proof fn lemma_pow2_small(e: nat)
    requires
        e <= 7,
    ensures
        pow2(e) <= 128,
        pow2(8) == 256,
{
    vstd::arithmetic::power2::lemma2_to64();
    if e < 7 {
        lemma_pow2_strictly_increases(e, 7);
    }
}

/// Packs the pixels into a bitmap, one bit per pixel, most significant bit
/// first; the unused low bits of a last partial byte are 0.
pub fn encode_monochrome(pixels: &[Pixel]) -> (out: Vec<u8>)
    ensures
        out@ == monochrome_of(pixels@),
{
    let n = pixels.len();
    let ghost px = pixels@;
    let mut out: Vec<u8> = Vec::new();
    let mut byte: u8 = 0;
    let mut filled: u8 = 0;
    let mut k: usize = 0;
    while k < n
        invariant
            n == px.len(),
            px == pixels@,
            k <= n,
            filled < 8,
            filled as int == k as int % 8,
            byte as nat == pack_bits(px, k - filled, filled as nat),
            out@.len() == k as int / 8,
            forall|q: int| 0 <= q < out@.len() ==> #[trigger] out@[q] == mono_byte(px, q),
        decreases n - k,
    {
        proof {
            lemma_pack_bound(px, k - filled, filled as nat);
            lemma_pow2_small(filled as nat);
        }
        let bit: u8 = if pixel_is_light(pixels[k]) {
            LIGHT_BIT
        } else {
            DARK_BIT
        };
        byte = byte * 2 + bit;
        filled = filled + 1;
        k = k + 1;
        if filled == 8 {
            proof {
                assert(k - 8 == 8 * (out@.len() as int));
            }
            out.push(byte);
            byte = 0;
            filled = 0;
        }
    }
    if filled > 0 {
        let ghost start: int = n - filled;
        while filled < 8
            invariant
                n == px.len(),
                0 < filled <= 8,
                start + 8 > n,
                start <= n,
                start + filled >= n,
                byte as nat == pack_bits(px, start, filled as nat),
            decreases 8 - filled,
        {
            proof {
                lemma_pack_bound(px, start, filled as nat);
                lemma_pow2_small(filled as nat);
            }
            byte = byte * 2;
            filled = filled + 1;
        }
        proof {
            assert(start == 8 * (out@.len() as int));
        }
        out.push(byte);
    }
    proof {
        assert(out@ =~= monochrome_of(px));
    }
    out
}

/// The RGB565 word of a pixel.
pub fn pixel_to_rgb565(p: Pixel) -> (r: u16)
    ensures
        r == rgb565_of(p),
{
    ((p.red & 0xf8) as u16) << 8u16 | ((p.green & 0xfc) as u16) << 3u16 | (p.blue as u16) >> 3u16
}

/// Packs each pixel into an RGB565 word written as two bytes, high byte first.
pub fn encode_rgb565(pixels: &[Pixel]) -> (out: Vec<u8>)
    ensures
        is_rgb565_of(out@, pixels@),
{
    let n = pixels.len();
    let mut out: Vec<u8> = Vec::new();
    let mut k: usize = 0;
    while k < n
        invariant
            n == pixels@.len(),
            k <= n,
            out@.len() == 2 * k,
            forall|q: int|
                0 <= q < k ==> #[trigger] out@[2 * q] == rgb565_high(pixels@[q]) && out@[2 * q
                    + 1] == rgb565_low(pixels@[q]),
        decreases n - k,
    {
        let word = pixel_to_rgb565(pixels[k]);
        proof {
            assert(word >> 8u16 < 256u16) by (bit_vector);
            assert(word & 0xffu16 < 256u16) by (bit_vector);
        }
        let ghost prev = out@;
        out.push((word >> 8u16) as u8);
        out.push((word & 0xffu16) as u8);
        proof {
            assert forall|q: int| 0 <= q < k + 1 implies #[trigger] out@[2 * q] == rgb565_high(
                pixels@[q],
            ) && out@[2 * q + 1] == rgb565_low(pixels@[q]) by {
                if q < k {
                    assert(out@[2 * q] == prev[2 * q]);
                    assert(out@[2 * q + 1] == prev[2 * q + 1]);
                }
            }
        }
        k = k + 1;
    }
    out
}

/// Encodes the pixels in the given format.
pub fn encode(pixels: &[Pixel], format: OutputFormat) -> (out: Vec<u8>)
    ensures
        is_encoding_of(out@, pixels@, format),
{
    match format {
        OutputFormat::Monochrome => encode_monochrome(pixels),
        OutputFormat::Rgb565 => encode_rgb565(pixels),
    }
}

/// The five red, six green and five blue bits carried by the RGB565 bytes
/// `high`, `low`.
pub open spec fn rgb565_fields(high: u8, low: u8) -> (u8, u8, u8) {
    (high >> 3u8, ((high & 7u8) << 3u8) | (low >> 5u8), low & 0x1fu8)
}

/// Splits the two RGB565 bytes of a pixel, high byte first, into its red
/// (five bits), green (six bits) and blue (five bits) fields.
pub fn rgb565_components(high: u8, low: u8) -> (r: (u8, u8, u8))
    ensures
        r == rgb565_fields(high, low),
{
    (high >> 3u8, ((high & 7u8) << 3u8) | (low >> 5u8), low & 0x1fu8)
}

/// The pixel whose channels have the given RGB565 fields in their top bits and
/// zeros below.
pub open spec fn pixel_of_fields(f: (u8, u8, u8)) -> Pixel {
    Pixel { red: f.0 << 3u8, green: f.1 << 2u8, blue: f.2 << 3u8 }
}

/// Reading the fields back from the bytes written for a pixel gives the
/// pixel's channels cut to their top five, six and five bits; writing the
/// pixel made of those fields again gives the same two bytes, so a second
/// encoding loses nothing more.
pub proof fn lemma_rgb565_round_trip(p: Pixel)
    ensures
        rgb565_fields(rgb565_high(p), rgb565_low(p)) == (p.red >> 3u8, p.green >> 2u8, p.blue >> 3u8),
        rgb565_high(pixel_of_fields(rgb565_fields(rgb565_high(p), rgb565_low(p)))) == rgb565_high(p),
        rgb565_low(pixel_of_fields(rgb565_fields(rgb565_high(p), rgb565_low(p)))) == rgb565_low(p),
{
    let r = p.red;
    let g = p.green;
    let b = p.blue;
    let w = rgb565_word(r, g, b);
    let hi = (w >> 8u16) as u8;
    let lo = (w & 0xffu16) as u8;
    assert(w == ((r & 0xf8) as u16) << 8u16 | ((g & 0xfc) as u16) << 3u16 | (b as u16) >> 3u16);
    assert(hi >> 3u8 == r >> 3u8 && ((hi & 7u8) << 3u8) | (lo >> 5u8) == g >> 2u8 && lo & 0x1fu8
        == b >> 3u8) by (bit_vector)
        requires
            w == ((r & 0xf8) as u16) << 8u16 | ((g & 0xfc) as u16) << 3u16 | (b as u16) >> 3u16,
            hi == (w >> 8u16) as u8,
            lo == (w & 0xffu16) as u8,
    ;
    let r2 = (r >> 3u8) << 3u8;
    let g2 = (g >> 2u8) << 2u8;
    let b2 = (b >> 3u8) << 3u8;
    let w2 = rgb565_word(r2, g2, b2);
    assert(w2 == ((r2 & 0xf8) as u16) << 8u16 | ((g2 & 0xfc) as u16) << 3u16 | (b2 as u16) >> 3u16);
    assert(w2 == w) by (bit_vector)
        requires
            w == ((r & 0xf8) as u16) << 8u16 | ((g & 0xfc) as u16) << 3u16 | (b as u16) >> 3u16,
            w2 == ((r2 & 0xf8) as u16) << 8u16 | ((g2 & 0xfc) as u16) << 3u16 | (b2 as u16) >> 3u16,
            r2 == (r >> 3u8) << 3u8,
            g2 == (g >> 2u8) << 2u8,
            b2 == (b >> 3u8) << 3u8,
    ;
}

proof fn lemma_pack_zero_tail(px: Seq<Pixel>, start: int, m: nat, count: nat)
    requires
        m <= count,
        start + m >= px.len(),
    ensures
        pack_bits(px, start, count) == pack_bits(px, start, m) * pow2((count - m) as nat),
    decreases count,
{
    vstd::arithmetic::power2::lemma2_to64();
    if count > m {
        lemma_pack_zero_tail(px, start, m, (count - 1) as nat);
        lemma_pow2_unfold((count - m) as nat);
        let a = pack_bits(px, start, m);
        let e = pow2((count - 1 - m) as nat);
        assert(bit_at(px, start + count - 1) == 0);
        assert(pack_bits(px, start, count) == pack_bits(px, start, (count - 1) as nat) * 2);
        assert(pack_bits(px, start, (count - 1) as nat) == a * e);
        assert(pow2((count - m) as nat) == 2 * e);
        assert(a * e * 2 == a * (2 * e)) by (nonlinear_arith);
        assert(pack_bits(px, start, count) == a * pow2((count - m) as nat));
    } else {
        assert(count == m);
        assert(pow2((count - m) as nat) == 1);
    }
}

/// When the pixel count is not a multiple of eight, the last byte of the
/// bitmap holds the remaining pixels in its top bits and zeros in the
/// `8 - n % 8` bits below them.
pub proof fn lemma_last_byte_padded(px: Seq<Pixel>)
    requires
        px.len() % 8 != 0,
    ensures
        ({
            let out = monochrome_of(px);
            let m = px.len() % 8;
            &&& out.len() == px.len() / 8 + 1
            &&& (out.last() as nat) % pow2((8 - m) as nat) == 0
        }),
{
    let n = px.len();
    let m = (n % 8) as nat;
    let i = (n / 8) as int;
    let start = 8 * i;
    lemma_pow2_small(0);
    lemma_pack_bound(px, start, 8);
    lemma_pack_zero_tail(px, start, m, 8);
    lemma_pow2_pos((8 - m) as nat);
    vstd::arithmetic::div_mod::lemma_mod_multiples_basic(
        pack_bits(px, start, m) as int,
        pow2((8 - m) as nat) as int,
    );
    assert(monochrome_of(px).last() == mono_byte(px, i));
}

} // verus!
