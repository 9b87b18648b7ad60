//! Byte-exact assembly of the textual portable-pixmap image: a three-line
//! header and one whitespace-separated decimal triple per pixel.
use vstd::prelude::*;
use crate::color::{Color, spec_channel_byte, pixel_bytes};
use crate::vec3::vec_ok;

verus! {

/// The decimal digits of a nonnegative number, most significant first.
pub open spec fn spec_dec(n: int) -> Seq<u8>
    decreases n,
{
    if n < 10 {
        seq![(48 + (if n >= 0 { n } else { 0 })) as u8]
    } else {
        spec_dec(n / 10).push((48 + n % 10) as u8)
    }
}

/// Append the decimal digits of `n`.
pub fn push_decimal(out: &mut Vec<u8>, n: u64)
    ensures
        final (out)@ == old(out)@ + spec_dec(n as int),
    decreases n,
{
    if n < 10 {
        out.push(48 + (n as u8));
        proof {
            assert(out@ =~= old(out)@ + spec_dec(n as int));
        }
    } else {
        push_decimal(out, n / 10);
        out.push(48 + ((n % 10) as u8));
        proof {
            assert(out@ =~= old(out)@ + spec_dec(n as int));
        }
    }
}

/// The line of one finished pixel: the three quantized channels as
/// decimals, space-separated, newline-terminated.
pub open spec fn spec_pixel_line(pixel: Color, n_samples: int) -> Seq<u8> {
    spec_dec(spec_channel_byte(pixel.x as int, n_samples)) + seq![32u8] + spec_dec(
        spec_channel_byte(pixel.y as int, n_samples),
    ) + seq![32u8] + spec_dec(spec_channel_byte(pixel.z as int, n_samples)) + seq![10u8]
}

/// Append the line of one finished pixel.
pub fn push_pixel_line(out: &mut Vec<u8>, pixel: &Color, n_samples: i64)
    requires
        vec_ok(*pixel),
        1 <= n_samples <= 0x4000_0000,
    ensures
        final (out)@ == old(out)@ + spec_pixel_line(*pixel, n_samples as int),
{
    let bytes = pixel_bytes(pixel, n_samples);
    push_decimal(out, bytes.0 as u64);
    out.push(32);
    push_decimal(out, bytes.1 as u64);
    out.push(32);
    push_decimal(out, bytes.2 as u64);
    out.push(10);
    proof {
        assert(out@ =~= old(out)@ + spec_pixel_line(*pixel, n_samples as int));
    }
}

/// The three-line header: the magic number, the dimensions, the maximum
/// channel value.
pub open spec fn spec_ppm_header(width: int, height: int) -> Seq<u8> {
    seq![80u8, 51u8, 10u8] + spec_dec(width) + seq![32u8] + spec_dec(height) + seq![
        10u8,
        50u8,
        53u8,
        53u8,
        10u8,
    ]
}

/// Append the header for an image of the given dimensions.
pub fn push_ppm_header(out: &mut Vec<u8>, width: u64, height: u64)
    ensures
        final (out)@ == old(out)@ + spec_ppm_header(width as int, height as int),
{
    out.push(80);
    out.push(51);
    out.push(10);
    push_decimal(out, width);
    out.push(32);
    push_decimal(out, height);
    out.push(10);
    out.push(50);
    out.push(53);
    out.push(53);
    out.push(10);
    proof {
        assert(out@ =~= old(out)@ + spec_ppm_header(width as int, height as int));
    }
}

/// The pixel lines of the rows from `i` on, appended to `acc`.
pub open spec fn spec_pixel_lines_from(pixels: Seq<Color>, i: int, n_samples: int, acc: Seq<
    u8,
>) -> Seq<u8>
    decreases pixels.len() - i,
{
    if i < 0 || i >= pixels.len() {
        acc
    } else {
        spec_pixel_lines_from(pixels, i + 1, n_samples, acc + spec_pixel_line(pixels[i], n_samples))
    }
}

/// The whole image: header, then every pixel's line in row-major order.
pub open spec fn spec_ppm_image(width: int, height: int, pixels: Seq<Color>, n_samples: int) -> Seq<
    u8,
> {
    spec_pixel_lines_from(pixels, 0, n_samples, spec_ppm_header(width, height))
}

/// Serialize a finished row-major pixel buffer as a textual pixmap.
pub fn ppm_image(width: u64, height: u64, pixels: &Vec<Color>, n_samples: i64) -> (r: Vec<u8>)
    requires
        forall|i: int| 0 <= i < pixels@.len() ==> vec_ok(#[trigger] pixels@[i]),
        1 <= n_samples <= 0x4000_0000,
    ensures
        r@ == spec_ppm_image(width as int, height as int, pixels@, n_samples as int),
{
    let mut out: Vec<u8> = Vec::new();
    push_ppm_header(&mut out, width, height);
    let mut i: usize = 0;
    while i < pixels.len()
        invariant
            forall|k: int| 0 <= k < pixels@.len() ==> vec_ok(#[trigger] pixels@[k]),
            1 <= n_samples <= 0x4000_0000,
            0 <= i <= pixels@.len(),
            spec_pixel_lines_from(pixels@, i as int, n_samples as int, out@) == spec_ppm_image(
                width as int,
                height as int,
                pixels@,
                n_samples as int,
            ),
        decreases pixels@.len() - i,
    {
        push_pixel_line(&mut out, &pixels[i], n_samples);
        i = i + 1;
    }
    out
}

} // verus!
