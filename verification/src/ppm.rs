//! Plain-text pixel output: a `P3` header and one line of three decimal
//! channel values for every pixel.

use vstd::prelude::*;

verus! {

/// The byte that ends a line.
pub const NEWLINE: u8 = 10;

/// The byte that separates two numbers on a line.
pub const SPACE: u8 = 32;

/// The largest value of a colour channel.
pub const MAX_CHANNEL: u8 = 255;

/// The ASCII digit for `d`.
pub open spec fn digit(d: nat) -> u8
    recommends
        d < 10,
{
    (48 + d) as u8
}

/// `n` in decimal, without leading zeros.
pub open spec fn decimal(n: nat) -> Seq<u8>
    decreases n,
{
    if n < 10 {
        seq![digit(n)]
    } else {
        decimal(n / 10).push(digit(n % 10))
    }
}

/// The number that a sequence of ASCII digits writes.
pub open spec fn value_of(digits: Seq<u8>) -> nat
    decreases digits.len(),
{
    if digits.len() == 0 {
        0
    } else {
        10 * value_of(digits.drop_last()) + (digits.last() - 48) as nat
    }
}

/// The header of an image of `width` by `height` pixels: the format line, the
/// dimensions and the largest channel value.
pub open spec fn header_text(width: nat, height: nat) -> Seq<u8> {
    seq![80u8, 51u8, NEWLINE] + decimal(width) + seq![SPACE] + decimal(height) + seq![NEWLINE]
        + decimal(MAX_CHANNEL as nat) + seq![NEWLINE]
}

/// The line of one pixel: red, green and blue, separated by single spaces.
pub open spec fn pixel_text(pixel: [u8; 3]) -> Seq<u8> {
    decimal(pixel[0] as nat) + seq![SPACE] + decimal(pixel[1] as nat) + seq![SPACE] + decimal(
        pixel[2] as nat,
    ) + seq![NEWLINE]
}

/// The lines of the first `upto` pixels, one after the other.
pub open spec fn pixel_lines(pixels: Seq<[u8; 3]>, upto: int) -> Seq<u8>
    decreases upto,
{
    if upto <= 0 {
        Seq::empty()
    } else {
        pixel_lines(pixels, upto - 1) + pixel_text(pixels[upto - 1])
    }
}

/// The whole image: the header, then every pixel in order.
pub open spec fn image_text(width: nat, height: nat, pixels: Seq<[u8; 3]>) -> Seq<u8> {
    header_text(width, height) + pixel_lines(pixels, pixels.len() as int)
}

/// Appends `n` in decimal to `out`.
pub fn push_decimal(out: &mut Vec<u8>, n: u64)
    ensures
        final(out)@ == old(out)@ + decimal(n as nat),
    decreases n,
{
    if n >= 10 {
        push_decimal(out, n / 10);
    }
    let low: u8 = (n % 10) as u8;
    out.push(48 + low);
}

/// Appends the header of an image of `width` by `height` pixels to `out`.
pub fn push_header(out: &mut Vec<u8>, width: u64, height: u64)
    ensures
        final(out)@ == old(out)@ + header_text(width as nat, height as nat),
{
    out.push(80);
    out.push(51);
    out.push(NEWLINE);
    push_decimal(out, width);
    out.push(SPACE);
    push_decimal(out, height);
    out.push(NEWLINE);
    push_decimal(out, MAX_CHANNEL as u64);
    out.push(NEWLINE);
}

/// Appends the line of one pixel to `out`.
pub fn push_pixel(out: &mut Vec<u8>, pixel: [u8; 3])
    ensures
        final(out)@ == old(out)@ + pixel_text(pixel),
{
    push_decimal(out, pixel[0] as u64);
    out.push(SPACE);
    push_decimal(out, pixel[1] as u64);
    out.push(SPACE);
    push_decimal(out, pixel[2] as u64);
    out.push(NEWLINE);
}

/// The header of an image of `width` by `height` pixels.
pub fn header(width: u64, height: u64) -> (text: Vec<u8>)
    ensures
        text@ == header_text(width as nat, height as nat),
{
    let mut text: Vec<u8> = Vec::new();
    push_header(&mut text, width, height);
    text
}

/// The line of one pixel.
pub fn pixel_line(pixel: [u8; 3]) -> (text: Vec<u8>)
    ensures
        text@ == pixel_text(pixel),
{
    let mut text: Vec<u8> = Vec::new();
    push_pixel(&mut text, pixel);
    text
}

/// The whole image: the header, then the line of every pixel in order.
pub fn image(width: u64, height: u64, pixels: &[[u8; 3]]) -> (text: Vec<u8>)
    ensures
        text@ == image_text(width as nat, height as nat, pixels@),
{
    let mut text = header(width, height);
    let mut i: usize = 0;
    while i < pixels.len()
        invariant
            i <= pixels@.len(),
            text@ == header_text(width as nat, height as nat) + pixel_lines(pixels@, i as int),
        decreases pixels@.len() - i,
    {
        push_pixel(&mut text, pixels[i]);
        i += 1;
    }
    text
}

/// Decimal text reads back as the number it was written from: digits only,
/// no leading zero but for zero itself.
pub proof fn lemma_decimal_reads_back(n: nat)
    ensures
        value_of(decimal(n)) == n,
        decimal(n).len() >= 1,
        forall|i: int| 0 <= i < decimal(n).len() ==> 48 <= #[trigger] decimal(n)[i] <= 57,
        n > 0 ==> decimal(n)[0] != 48,
    decreases n,
{
    if n >= 10 {
        lemma_decimal_reads_back(n / 10);
        assert(decimal(n).drop_last() =~= decimal(n / 10));
    } else {
        assert(decimal(n).drop_last() =~= Seq::<u8>::empty());
        assert(value_of(Seq::<u8>::empty()) == 0);
    }
}

} // verus!
