//! A test-card image: a horizontal red and vertical green ramp, serialized
//! as a textual pixmap. The file writing itself stays with the caller; this
//! module produces the exact bytes.
use vstd::prelude::*;
use crate::color::Color;
use crate::ppm::{ppm_image, spec_ppm_image};
use crate::vec3::{Vec3, vec_ok};
use crate::fx::{fx_div, fx_of_int, div_fx, int_to_fx};

verus! {

/// The gradient pixel at index `i` of a row-major image `w` wide: red
/// rises with the column, green with the row, blue stays zero.
pub open spec fn spec_gradient_pixel(i: int, w: int, h: int) -> Color {
    Vec3 {
        x: fx_div(fx_of_int(i % w), fx_of_int(w)) as i64,
        y: fx_div(fx_of_int(i / w), fx_of_int(h)) as i64,
        z: 0,
    }
}

/// The bytes of the gradient image: every pixel is the ramp of its own
/// coordinates, quantized with a single sample.
pub fn gradient_image_bytes(image_width: u64, image_height: u64) -> (r: Vec<u8>)
    requires
        1 <= image_width <= 8192,
        1 <= image_height <= 8192,
    ensures
        r@ == spec_ppm_image(
            image_width as int,
            image_height as int,
            Seq::new(
                (image_width * image_height) as nat,
                |i: int| spec_gradient_pixel(i, image_width as int, image_height as int),
            ),
            1,
        ),
{
    proof {
        assert((image_width as int) * (image_height as int) <= 8192 * 8192) by (nonlinear_arith)
            requires
                1 <= image_width <= 8192,
                1 <= image_height <= 8192,
        ;
    }
    let total: u64 = image_width * image_height;
    let mut pixels: Vec<Color> = Vec::new();
    let mut i: u64 = 0;
    while i < total
        invariant
            1 <= image_width <= 8192,
            1 <= image_height <= 8192,
            total == image_width * image_height,
            0 <= i <= total,
            pixels@.len() == i,
            forall|k: int|
                0 <= k < pixels@.len() ==> #[trigger] pixels@[k] == spec_gradient_pixel(
                    k,
                    image_width as int,
                    image_height as int,
                ),
            forall|k: int| 0 <= k < pixels@.len() ==> vec_ok(#[trigger] pixels@[k]),
        decreases total - i,
    {
        let x: u64 = i % image_width;
        let y: u64 = i / image_width;
        proof {
            assert(y <= 8192) by (nonlinear_arith)
                requires
                    y == (i as int) / (image_width as int),
                    (i as int) < (image_width as int) * (image_height as int),
                    1 <= image_width <= 8192,
                    1 <= image_height <= 8192,
            ;
        }
        let color = Color::new(
            div_fx(int_to_fx(x as i64), int_to_fx(image_width as i64)),
            div_fx(int_to_fx(y as i64), int_to_fx(image_height as i64)),
            0,
        );
        pixels.push(color);
        i = i + 1;
    }
    proof {
        assert(pixels@ =~= Seq::new(
            (image_width * image_height) as nat,
            |i: int| spec_gradient_pixel(i, image_width as int, image_height as int),
        ));
    }
    ppm_image(image_width, image_height, &pixels, 1)
}

} // verus!
