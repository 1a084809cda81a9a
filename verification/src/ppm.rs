//! The plain-text image format the renderer writes.
//!
//! An image is three header lines, `P3`, `<width> <height>` and `255`,
//! followed by one line per pixel in row-major order, each holding the red,
//! green and blue channel as decimal numbers separated by one space. The
//! functions here produce the bytes; sending them anywhere is the caller's
//! business.

use crate::framebuffer::Framebuffer;
use crate::vector::{lemma_clamp_holds, lemma_rank_of_positive_word, Scalar, MAGNITUDE_MASK, ZERO_BITS};
use vstd::prelude::*;

verus! {

/// The largest value of a colour channel, as the header announces it.
pub const MAX_VAL: u8 = 255;

/// The letter `P`, which opens the format tag.
pub const LETTER_P: u8 = 80;

/// The digit `0`; the other digits follow it in order.
pub const DIGIT_ZERO: u8 = 48;

/// The digit `3`, which closes the tag of the plain colour format.
pub const DIGIT_THREE: u8 = 51;

/// The space that separates the numbers of a line.
pub const SPACE: u8 = 32;

/// The line feed that ends every line.
pub const LINE_FEED: u8 = 10;

/// The word of 0.999, the largest value a channel is let through with, so
/// that scaling it to the range of a byte stays below 255.
pub const CHANNEL_CEILING_BITS: u64 = 0x3FEF_F7CE_D916_872B;

/// The gamma-corrected value of a linear channel, given its square root: the
/// root for a channel above zero, zero for any other.
pub open spec fn gamma_of(linear: Scalar, root: Scalar) -> Scalar {
    if (Scalar { bits: ZERO_BITS }).lt_spec(linear) {
        root
    } else {
        Scalar { bits: ZERO_BITS }
    }
}

/// A channel held to the range from zero to 0.999.
pub open spec fn clamped_channel(channel: Scalar) -> Scalar {
    channel.clamp_spec(Scalar { bits: ZERO_BITS }, Scalar { bits: CHANNEL_CEILING_BITS })
}

/// The decimal digits of `n` as ASCII bytes, most significant first, without
/// leading zeros.
pub open spec fn decimal(n: nat) -> Seq<u8>
    decreases n,
{
    if n < 10 {
        seq![(DIGIT_ZERO + n) as u8]
    } else {
        decimal(n / 10).push((DIGIT_ZERO + n % 10) as u8)
    }
}

/// The three header lines of a `width` by `height` image.
pub open spec fn header(width: nat, height: nat) -> Seq<u8> {
    seq![LETTER_P, DIGIT_THREE, LINE_FEED] + decimal(width) + seq![SPACE] + decimal(height)
        + seq![LINE_FEED] + decimal(MAX_VAL as nat) + seq![LINE_FEED]
}

/// The line of one pixel.
pub open spec fn pixel_line(r: u8, g: u8, b: u8) -> Seq<u8> {
    decimal(r as nat) + seq![SPACE] + decimal(g as nat) + seq![SPACE] + decimal(b as nat)
        + seq![LINE_FEED]
}

/// The lines of `pixels`, one after another; the fourth channel of a pixel is
/// not written.
pub open spec fn body(pixels: Seq<[u8; 4]>) -> Seq<u8>
    decreases pixels.len(),
{
    if pixels.len() == 0 {
        Seq::empty()
    } else {
        body(pixels.drop_last()) + pixel_line(pixels.last()[0], pixels.last()[1], pixels.last()[2])
    }
}

/// The whole text of an image.
pub open spec fn image_text(width: nat, height: nat, pixels: Seq<[u8; 4]>) -> Seq<u8> {
    header(width, height) + body(pixels)
}

/// The number that a string of decimal digits denotes.
pub open spec fn decimal_value(digits: Seq<u8>) -> nat
    decreases digits.len(),
{
    if digits.len() == 0 {
        0
    } else {
        decimal_value(digits.drop_last()) * 10 + (digits.last() - DIGIT_ZERO) as nat
    }
}

/// How often `byte` occurs in `text`.
pub open spec fn occurrences(text: Seq<u8>, byte: u8) -> nat
    decreases text.len(),
{
    if text.len() == 0 {
        0
    } else {
        occurrences(text.drop_last(), byte) + if text.last() == byte {
            1nat
        } else {
            0nat
        }
    }
}

/// Moves a linear channel to gamma space with a gamma of two: its square
/// root, which the caller supplies, where the channel is positive. A channel
/// that is not, or no number, carries no light.
pub fn linear_to_gamma(linear_component: Scalar, root: Scalar) -> (gamma: Scalar)
    ensures
        gamma == gamma_of(linear_component, root),
{
    if Scalar::from_bits(ZERO_BITS).lt(linear_component) {
        return root;
    }
    Scalar::from_bits(ZERO_BITS)
}

/// Holds a gamma-corrected channel to the range that is written: what is
/// below zero becomes zero, what is above 0.999 becomes 0.999.
pub fn clamp_channel(channel: Scalar) -> (held: Scalar)
    ensures
        held == clamped_channel(channel),
        !channel.is_nan_spec() ==> (Scalar { bits: ZERO_BITS }).le_spec(held) && held.le_spec(
            Scalar { bits: CHANNEL_CEILING_BITS },
        ),
{
    proof {
        lemma_rank_of_positive_word(ZERO_BITS);
        lemma_rank_of_positive_word(CHANNEL_CEILING_BITS);
        if !channel.is_nan_spec() {
            lemma_clamp_holds(
                channel,
                Scalar { bits: ZERO_BITS },
                Scalar { bits: CHANNEL_CEILING_BITS },
            );
        }
    }
    channel.clamp(Scalar::from_bits(ZERO_BITS), Scalar::from_bits(CHANNEL_CEILING_BITS))
}

/// The byte of a channel that was scaled to the range of a byte: its whole
/// part.
pub fn channel_byte(scaled: Scalar) -> (byte: u8)
    ensures
        byte == scaled.whole_part(MAX_VAL as u64),
{
    scaled.to_u8()
}

fn push_decimal(out: &mut Vec<u8>, n: u64)
    ensures
        final(out)@ == old(out)@ + decimal(n as nat),
    decreases n,
{
    if n >= 10 {
        push_decimal(out, n / 10);
    }
    let digit: u8 = (n % 10) as u8;
    out.push(DIGIT_ZERO + digit);
    assert(final(out)@ =~= old(out)@ + decimal(n as nat));
}

fn push_pixel(out: &mut Vec<u8>, r: u8, g: u8, b: u8)
    ensures
        final(out)@ == old(out)@ + pixel_line(r, g, b),
{
    push_decimal(out, r as u64);
    out.push(SPACE);
    push_decimal(out, g as u64);
    out.push(SPACE);
    push_decimal(out, b as u64);
    out.push(LINE_FEED);
    assert(final(out)@ =~= old(out)@ + pixel_line(r, g, b));
}

fn push_header(out: &mut Vec<u8>, width: u64, height: u64)
    ensures
        final(out)@ == old(out)@ + header(width as nat, height as nat),
{
    out.push(LETTER_P);
    out.push(DIGIT_THREE);
    out.push(LINE_FEED);
    push_decimal(out, width);
    out.push(SPACE);
    push_decimal(out, height);
    out.push(LINE_FEED);
    push_decimal(out, MAX_VAL as u64);
    out.push(LINE_FEED);
    assert(final(out)@ =~= old(out)@ + header(width as nat, height as nat));
}

/// The header of a `width` by `height` image.
pub fn write_ppm_header(width: u32, height: u32) -> (text: Vec<u8>)
    ensures
        text@ == header(width as nat, height as nat),
{
    let mut text: Vec<u8> = Vec::new();
    push_header(&mut text, width as u64, height as u64);
    assert(text@ =~= header(width as nat, height as nat));
    text
}

/// The line of a pixel with the given channels.
pub fn write_color(r: u8, g: u8, b: u8) -> (text: Vec<u8>)
    ensures
        text@ == pixel_line(r, g, b),
{
    let mut text: Vec<u8> = Vec::new();
    push_pixel(&mut text, r, g, b);
    assert(text@ =~= pixel_line(r, g, b));
    text
}

/// The text of the image that `frame` holds: the header for its size, then
/// its pixels in storage order, which is row-major.
pub fn encode(frame: &Framebuffer) -> (text: Vec<u8>)
    ensures
        text@ == image_text(frame.width as nat, frame.height as nat, frame.pixels@),
{
    let mut text: Vec<u8> = Vec::new();
    push_header(&mut text, frame.width as u64, frame.height as u64);
    let n: usize = frame.pixels.len();
    for i in 0..n
        invariant
            n == frame.pixels@.len(),
            text@ == header(frame.width as nat, frame.height as nat) + body(
                frame.pixels@.take(i as int),
            ),
    {
        let pixel: [u8; 4] = frame.pixels[i];
        push_pixel(&mut text, pixel[0], pixel[1], pixel[2]);
        assert(frame.pixels@.take(i + 1).drop_last() =~= frame.pixels@.take(i as int));
        assert(text@ =~= header(frame.width as nat, frame.height as nat) + body(
            frame.pixels@.take(i + 1),
        ));
    }
    assert(frame.pixels@.take(n as int) =~= frame.pixels@);
    text
}

/// A number is written with digits only, at least one, and with no leading
/// zero but for zero itself.
pub proof fn lemma_decimal_shape(n: nat)
    ensures
        decimal(n).len() >= 1,
        forall|i: int| 0 <= i < decimal(n).len() ==> DIGIT_ZERO <= #[trigger] decimal(n)[i] <= DIGIT_ZERO + 9,
        decimal(n)[0] == DIGIT_ZERO <==> n == 0,
    decreases n,
{
    if n >= 10 {
        lemma_decimal_shape(n / 10);
    }
}

/// Reading a written number gives the number back.
pub proof fn lemma_decimal_round_trip(n: nat)
    ensures
        decimal_value(decimal(n)) == n,
    decreases n,
{
    if n < 10 {
        reveal_with_fuel(decimal_value, 2);
        assert(decimal(n).drop_last() =~= Seq::<u8>::empty());
        assert(decimal(n).last() == (DIGIT_ZERO + n) as u8);
    } else {
        lemma_decimal_round_trip(n / 10);
        assert(decimal(n).drop_last() =~= decimal(n / 10));
        assert(decimal(n).last() == (DIGIT_ZERO + n % 10) as u8);
        assert(n == (n / 10) * 10 + n % 10);
    }
}

/// Two numbers are written alike only if they are the same number.
pub proof fn lemma_decimal_is_injective(a: nat, b: nat)
    requires
        decimal(a) == decimal(b),
    ensures
        a == b,
{
    lemma_decimal_round_trip(a);
    lemma_decimal_round_trip(b);
}

/// Occurrences add up over concatenation.
pub proof fn lemma_occurrences_concat(a: Seq<u8>, b: Seq<u8>, byte: u8)
    ensures
        occurrences(a + b, byte) == occurrences(a, byte) + occurrences(b, byte),
    decreases b.len(),
{
    if b.len() == 0 {
        assert(a + b =~= a);
    } else {
        assert((a + b).drop_last() =~= a + b.drop_last());
        lemma_occurrences_concat(a, b.drop_last(), byte);
    }
}

/// A text of one byte holds that byte once and no other.
pub proof fn lemma_occurrences_single(only: u8, byte: u8)
    ensures
        occurrences(seq![only], byte) == if only == byte {
            1nat
        } else {
            0nat
        },
{
    reveal_with_fuel(occurrences, 2);
    assert(seq![only].drop_last() =~= Seq::<u8>::empty());
}

/// A written number holds neither a space nor a line feed.
pub proof fn lemma_decimal_has_no_separator(n: nat)
    ensures
        occurrences(decimal(n), SPACE) == 0,
        occurrences(decimal(n), LINE_FEED) == 0,
    decreases n,
{
    if n < 10 {
        lemma_occurrences_single((DIGIT_ZERO + n) as u8, SPACE);
        lemma_occurrences_single((DIGIT_ZERO + n) as u8, LINE_FEED);
    } else {
        lemma_decimal_has_no_separator(n / 10);
        assert(decimal(n).drop_last() =~= decimal(n / 10));
    }
}

/// A pixel is one line: three numbers, two spaces between them, and a
/// single line feed, which ends it.
pub proof fn lemma_pixel_is_one_line(r: u8, g: u8, b: u8)
    ensures
        occurrences(pixel_line(r, g, b), LINE_FEED) == 1,
        occurrences(pixel_line(r, g, b), SPACE) == 2,
        pixel_line(r, g, b).last() == LINE_FEED,
{
    let space = seq![SPACE];
    let feed = seq![LINE_FEED];
    lemma_occurrences_single(SPACE, LINE_FEED);
    lemma_occurrences_single(SPACE, SPACE);
    lemma_occurrences_single(LINE_FEED, LINE_FEED);
    lemma_occurrences_single(LINE_FEED, SPACE);
    lemma_decimal_has_no_separator(r as nat);
    lemma_decimal_has_no_separator(g as nat);
    lemma_decimal_has_no_separator(b as nat);
    let through_red = decimal(r as nat) + space;
    let upto_green = through_red + decimal(g as nat);
    let through_green = upto_green + space;
    let upto_blue = through_green + decimal(b as nat);
    assert(pixel_line(r, g, b) == upto_blue + feed);
    lemma_occurrences_concat(decimal(r as nat), space, LINE_FEED);
    lemma_occurrences_concat(through_red, decimal(g as nat), LINE_FEED);
    lemma_occurrences_concat(upto_green, space, LINE_FEED);
    lemma_occurrences_concat(through_green, decimal(b as nat), LINE_FEED);
    lemma_occurrences_concat(upto_blue, feed, LINE_FEED);
    lemma_occurrences_concat(decimal(r as nat), space, SPACE);
    lemma_occurrences_concat(through_red, decimal(g as nat), SPACE);
    lemma_occurrences_concat(upto_green, space, SPACE);
    lemma_occurrences_concat(through_green, decimal(b as nat), SPACE);
    lemma_occurrences_concat(upto_blue, feed, SPACE);
}

/// The header is three lines, and the pixels follow one per line: an image
/// of `n` pixels is a text of `n + 3` lines.
pub proof fn lemma_image_line_count(width: nat, height: nat, pixels: Seq<[u8; 4]>)
    ensures
        occurrences(header(width, height), LINE_FEED) == 3,
        occurrences(body(pixels), LINE_FEED) == pixels.len(),
        occurrences(image_text(width, height, pixels), LINE_FEED) == pixels.len() + 3,
    decreases pixels.len(),
{
    let feed = seq![LINE_FEED];
    let space = seq![SPACE];
    let magic = seq![LETTER_P, DIGIT_THREE, LINE_FEED];
    lemma_occurrences_single(SPACE, LINE_FEED);
    lemma_occurrences_single(LINE_FEED, LINE_FEED);
    assert(occurrences(magic, LINE_FEED) == 1) by {
        lemma_occurrences_single(LETTER_P, LINE_FEED);
        lemma_occurrences_single(DIGIT_THREE, LINE_FEED);
        assert(magic =~= seq![LETTER_P] + seq![DIGIT_THREE] + feed);
        lemma_occurrences_concat(seq![LETTER_P], seq![DIGIT_THREE], LINE_FEED);
        lemma_occurrences_concat(seq![LETTER_P] + seq![DIGIT_THREE], feed, LINE_FEED);
    }
    lemma_decimal_has_no_separator(width);
    lemma_decimal_has_no_separator(height);
    lemma_decimal_has_no_separator(MAX_VAL as nat);
    let upto_width = magic + decimal(width);
    let through_width = upto_width + space;
    let upto_height = through_width + decimal(height);
    let size_line = upto_height + feed;
    let upto_max = size_line + decimal(MAX_VAL as nat);
    assert(header(width, height) == upto_max + feed);
    lemma_occurrences_concat(magic, decimal(width), LINE_FEED);
    lemma_occurrences_concat(upto_width, space, LINE_FEED);
    lemma_occurrences_concat(through_width, decimal(height), LINE_FEED);
    lemma_occurrences_concat(upto_height, feed, LINE_FEED);
    lemma_occurrences_concat(size_line, decimal(MAX_VAL as nat), LINE_FEED);
    lemma_occurrences_concat(upto_max, feed, LINE_FEED);
    lemma_body_line_count(pixels);
    lemma_occurrences_concat(header(width, height), body(pixels), LINE_FEED);
}

/// The body holds one line feed per pixel.
pub proof fn lemma_body_line_count(pixels: Seq<[u8; 4]>)
    ensures
        occurrences(body(pixels), LINE_FEED) == pixels.len(),
    decreases pixels.len(),
{
    if pixels.len() > 0 {
        let last = pixels.last();
        lemma_body_line_count(pixels.drop_last());
        lemma_pixel_is_one_line(last[0], last[1], last[2]);
        lemma_occurrences_concat(body(pixels.drop_last()), pixel_line(last[0], last[1], last[2]), LINE_FEED);
    }
}

/// A channel that is not above zero carries no light, whatever stands for
/// its root: it is moved to zero, held there, and its byte is nought, and a
/// pixel of three such channels is the line `0 0 0`.
pub proof fn lemma_lightless_channel_is_nought(linear: Scalar, root: Scalar)
    requires
        !(Scalar { bits: ZERO_BITS }).lt_spec(linear),
    ensures
        clamped_channel(gamma_of(linear, root)) == (Scalar { bits: ZERO_BITS }),
        clamped_channel(gamma_of(linear, root)).whole_part(MAX_VAL as u64) == 0,
        pixel_line(0, 0, 0) == seq![DIGIT_ZERO, SPACE, DIGIT_ZERO, SPACE, DIGIT_ZERO, LINE_FEED],
{
    lemma_rank_of_positive_word(ZERO_BITS);
    lemma_rank_of_positive_word(CHANNEL_CEILING_BITS);
    assert((0u64 & MAGNITUDE_MASK) >> 52 == 0) by (bit_vector);
    assert(pixel_line(0, 0, 0) =~= seq![DIGIT_ZERO, SPACE, DIGIT_ZERO, SPACE, DIGIT_ZERO, LINE_FEED]);
}

} // verus!
