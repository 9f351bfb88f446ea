//! Byte encodings of finished images, from 24-bit channel values: a frame of
//! colored half-block characters for a true-color terminal, and plain PPM.
use vstd::prelude::*;
use crate::grid::has_shape;

verus! {

/// Red, green and blue channel values, 0 to 255 for colors within range.
pub type Rgb = (usize, usize, usize);

/// The decimal digits of `n`, most significant first, in ASCII.
pub open spec fn decimal(n: nat) -> Seq<u8>
    decreases n,
{
    if n < 10 {
        seq![(48 + n) as u8]
    } else {
        decimal(n / 10) + seq![(48 + n % 10) as u8]
    }
}

/// Appends the decimal digits of `n`.
pub fn push_decimal(out: &mut Vec<u8>, n: usize)
    ensures
        final(out)@ == old(out)@ + decimal(n as nat),
    decreases n,
{
    if n >= 10 {
        push_decimal(out, n / 10);
    }
    let d: u8 = (n % 10) as u8;
    out.push(48u8 + d);
    assert(final(out)@ =~= old(out)@ + decimal(n as nat));
}

fn push_bytes(out: &mut Vec<u8>, bytes: &[u8])
    ensures
        final(out)@ == old(out)@ + bytes@,
{
    let mut i: usize = 0;
    while i < bytes.len()
        invariant
            i <= bytes@.len(),
            out@ == old(out)@ + bytes@.take(i as int),
        decreases bytes.len() - i,
    {
        out.push(bytes[i]);
        assert(bytes@.take(i as int + 1) =~= bytes@.take(i as int).push(bytes@[i as int]));
        assert(out@ =~= old(out)@ + bytes@.take(i as int + 1));
        i += 1;
    }
    assert(bytes@.take(i as int) =~= bytes@);
}

/// The escape sequence that sets the foreground (`layer` 3) or background
/// (`layer` 4) to the true color `c`: `ESC [ 38;2;r;g;b m` and the like.
pub open spec fn set_color(layer: u8, c: Rgb) -> Seq<u8> {
    seq![27u8, 91u8, layer, 56u8, 59u8, 50u8, 59u8] + decimal(c.0 as nat) + seq![59u8] + decimal(
        c.1 as nat,
    ) + seq![59u8] + decimal(c.2 as nat) + seq![109u8]
}

/// One character cell standing for two pixels, one above the other: an
/// upper half block in the top pixel's color on the bottom pixel's color,
/// followed by a reset of the colors.
pub open spec fn cell_text(top: Rgb, bottom: Rgb) -> Seq<u8> {
    set_color(51u8, top) + set_color(52u8, bottom) + seq![0xe2u8, 0x96u8, 0x80u8] + seq![
        27u8,
        91u8,
        48u8,
        109u8,
    ]
}

/// The first `w` cells of the line that shows pixel rows `h` and `h + 1`.
pub open spec fn line_text(px: Seq<Vec<Rgb>>, h: int, w: nat) -> Seq<u8>
    decreases w,
{
    if w == 0 {
        seq![]
    } else {
        line_text(px, h, (w - 1) as nat) + cell_text(px[h]@[w - 1], px[h + 1]@[w - 1])
    }
}

/// The first `lines` lines of a terminal frame of `width` columns, each line
/// showing two pixel rows and ending in a newline.
pub open spec fn frame_text(px: Seq<Vec<Rgb>>, width: nat, lines: nat) -> Seq<u8>
    decreases lines,
{
    if lines == 0 {
        seq![]
    } else {
        frame_text(px, width, (lines - 1) as nat) + line_text(px, 2 * (lines - 1), width) + seq![10u8]
    }
}

fn push_color(out: &mut Vec<u8>, layer: u8, c: Rgb)
    ensures
        final(out)@ == old(out)@ + set_color(layer, c),
{
    push_bytes(out, &[27u8, 91u8, layer, 56u8, 59u8, 50u8, 59u8]);
    push_decimal(out, c.0);
    out.push(59u8);
    push_decimal(out, c.1);
    out.push(59u8);
    push_decimal(out, c.2);
    out.push(109u8);
    assert(final(out)@ =~= old(out)@ + set_color(layer, c));
}

/// The pixel buffer `px` as text for a true-color terminal: each line shows
/// two pixel rows as half-block characters, top row in the foreground color.
pub fn terminal_frame(px: &Vec<Vec<Rgb>>, width: usize, height: usize) -> (out: Vec<u8>)
    requires
        has_shape(px@, width as nat, height as nat),
        height % 2 == 0,
    ensures
        out@ == frame_text(px@, width as nat, (height / 2) as nat),
{
    let mut out: Vec<u8> = Vec::new();
    let mut h: usize = 0;
    while h < height
        invariant
            has_shape(px@, width as nat, height as nat),
            height % 2 == 0,
            h % 2 == 0,
            h <= height,
            out@ == frame_text(px@, width as nat, (h / 2) as nat),
        decreases height - h,
    {
        let ghost start = out@;
        let mut w: usize = 0;
        while w < width
            invariant
                has_shape(px@, width as nat, height as nat),
                h + 1 < height,
                w <= width,
                out@ == start + line_text(px@, h as int, w as nat),
            decreases width - w,
        {
            push_color(&mut out, 51u8, px[h][w]);
            push_color(&mut out, 52u8, px[h + 1][w]);
            push_bytes(&mut out, &[0xe2u8, 0x96u8, 0x80u8, 27u8, 91u8, 48u8, 109u8]);
            assert(out@ =~= start + line_text(px@, h as int, (w + 1) as nat));
            w += 1;
        }
        out.push(10u8);
        assert(out@ =~= frame_text(px@, width as nat, ((h + 2) / 2) as nat));
        h += 2;
    }
    out
}

/// The header of a plain PPM image: its magic number, width, height and a
/// maximum value of 255, apart by spaces, then a newline.
pub open spec fn ppm_header(width: nat, height: nat) -> Seq<u8> {
    seq![80u8, 51u8, 32u8] + decimal(width) + seq![32u8] + decimal(height) + seq![32u8, 50u8, 53u8, 53u8, 10u8]
}

/// One pixel of a plain PPM image: its three channels, each followed by a space.
pub open spec fn ppm_pixel(c: Rgb) -> Seq<u8> {
    decimal(c.0 as nat) + seq![32u8] + decimal(c.1 as nat) + seq![32u8] + decimal(c.2 as nat) + seq![32u8]
}

/// The first `w` pixels of row `h`.
pub open spec fn ppm_row(px: Seq<Vec<Rgb>>, h: int, w: nat) -> Seq<u8>
    decreases w,
{
    if w == 0 {
        seq![]
    } else {
        ppm_row(px, h, (w - 1) as nat) + ppm_pixel(px[h]@[w - 1])
    }
}

/// The first `rows` rows of `width` pixels, each ending in a newline.
pub open spec fn ppm_rows(px: Seq<Vec<Rgb>>, width: nat, rows: nat) -> Seq<u8>
    decreases rows,
{
    if rows == 0 {
        seq![]
    } else {
        ppm_rows(px, width, (rows - 1) as nat) + ppm_row(px, rows - 1, width) + seq![10u8]
    }
}

/// The image `px` of `width` by `height` pixels as a plain (text) PPM file,
/// one line per row of pixels.
pub fn ppm_text(px: &Vec<Vec<Rgb>>, width: usize, height: usize) -> (out: Vec<u8>)
    requires
        has_shape(px@, width as nat, height as nat),
    ensures
        out@ == ppm_header(width as nat, height as nat) + ppm_rows(px@, width as nat, height as nat),
{
    let mut out: Vec<u8> = Vec::new();
    push_bytes(&mut out, &[80u8, 51u8, 32u8]);
    push_decimal(&mut out, width);
    out.push(32u8);
    push_decimal(&mut out, height);
    push_bytes(&mut out, &[32u8, 50u8, 53u8, 53u8, 10u8]);
    let ghost header = out@;
    assert(header =~= ppm_header(width as nat, height as nat));
    let mut h: usize = 0;
    while h < height
        invariant
            has_shape(px@, width as nat, height as nat),
            h <= height,
            out@ == header + ppm_rows(px@, width as nat, h as nat),
        decreases height - h,
    {
        let ghost start = out@;
        let mut w: usize = 0;
        while w < width
            invariant
                has_shape(px@, width as nat, height as nat),
                h < height,
                w <= width,
                out@ == start + ppm_row(px@, h as int, w as nat),
            decreases width - w,
        {
            let c = px[h][w];
            push_decimal(&mut out, c.0);
            out.push(32u8);
            push_decimal(&mut out, c.1);
            out.push(32u8);
            push_decimal(&mut out, c.2);
            out.push(32u8);
            assert(out@ =~= start + ppm_row(px@, h as int, (w + 1) as nat));
            w += 1;
        }
        out.push(10u8);
        assert(out@ =~= header + ppm_rows(px@, width as nat, (h + 1) as nat));
        h += 1;
    }
    out
}

} // verus!
