//! The decoded RGBA image of the `image` crate, as the tile slicer reads it.

use vstd::prelude::*;

verus! {

/// An image of eight-bit RGBA pixels, held by the `image` crate.
#[verifier::external_body]
pub struct Picture {
    buffer: image::RgbaImage,
}

/// Width and height of a picture, in pixels.
pub uninterp spec fn image_dimensions(picture: Picture) -> (nat, nat);

/// The samples of a picture: four bytes per pixel (red, green, blue, alpha), the
/// pixels of a row from left to right, the rows from top to bottom.
pub uninterp spec fn image_samples(picture: Picture) -> Seq<u8>;

/// Index in the samples of the first byte of the pixel at `(x, y)`.
pub open spec fn sample_index(width: nat, x: int, y: int) -> int {
    (y * width + x) * 4
}

/// `ImageBuffer::from_raw`: an image over the given samples, if they are enough
/// for `width * height` pixels of four bytes each. The number of samples that
/// are needed is computed in `usize`, four times the width first, and an
/// overflow there gives no image.
#[verifier::external_body]
fn image_from_raw(width: u32, height: u32, samples: Vec<u8>) -> (r: Option<Picture>)
    ensures
        r.is_some() == (4 * width <= usize::MAX && 4 * width * height <= samples@.len()),
        r matches Some(p) ==> image_dimensions(p) == (width as nat, height as nat),
        r matches Some(p) ==> image_samples(p) == samples@,
{
    match image::RgbaImage::from_raw(width, height, samples) {
        Some(buffer) => Some(Picture { buffer }),
        None => None,
    }
}

/// `ImageBuffer::width`: the first of the image's dimensions.
#[verifier::external_body]
fn image_width(picture: &Picture) -> (w: u32)
    ensures
        w == image_dimensions(*picture).0,
{
    picture.buffer.width()
}

/// `ImageBuffer::height`: the second of the image's dimensions.
#[verifier::external_body]
fn image_height(picture: &Picture) -> (h: u32)
    ensures
        h == image_dimensions(*picture).1,
{
    picture.buffer.height()
}

/// `ImageBuffer::get_pixel`, which panics outside the image: inside it, the four
/// channels of the pixel are the four samples from the pixel's index on.
#[verifier::external_body]
fn image_get_pixel(picture: &Picture, x: u32, y: u32) -> (p: [u8; 4])
    requires
        x < image_dimensions(*picture).0,
        y < image_dimensions(*picture).1,
    ensures
        forall|c: int|
            0 <= c < 4 ==> #[trigger] p@[c] == image_samples(*picture)[sample_index(
                image_dimensions(*picture).0,
                x as int,
                y as int,
            ) + c],
{
    picture.buffer.get_pixel(x, y).0
}

impl Picture {
    /// Width in pixels.
    pub open spec fn spec_width(self) -> nat {
        image_dimensions(self).0
    }

    /// Height in pixels.
    pub open spec fn spec_height(self) -> nat {
        image_dimensions(self).1
    }

    /// Channel `c` of the pixel at `(x, y)`.
    pub open spec fn channel(self, x: int, y: int, c: int) -> u8 {
        image_samples(self)[sample_index(image_dimensions(self).0, x, y) + c]
    }

    /// The samples, row by row.
    pub open spec fn samples(self) -> Seq<u8> {
        image_samples(self)
    }

    /// A picture of `width` by `height` pixels over `samples`, or `None` where
    /// the samples are too few, or a `usize` does not hold four times the width.
    pub fn from_raw(width: u32, height: u32, samples: Vec<u8>) -> (r: Option<Picture>)
        ensures
            r.is_some() == (4 * width <= usize::MAX && 4 * width * height <= samples@.len()),
            r matches Some(p) ==> p.spec_width() == width && p.spec_height() == height
                && p.samples() == samples@,
    {
        image_from_raw(width, height, samples)
    }

    /// Width in pixels.
    pub fn width(&self) -> (w: u32)
        ensures
            w == self.spec_width(),
    {
        image_width(self)
    }

    /// Height in pixels.
    pub fn height(&self) -> (h: u32)
        ensures
            h == self.spec_height(),
    {
        image_height(self)
    }

    /// The four channels of the pixel at `(x, y)`.
    pub fn get_pixel(&self, x: u32, y: u32) -> (p: [u8; 4])
        requires
            x < self.spec_width(),
            y < self.spec_height(),
        ensures
            forall|c: int| 0 <= c < 4 ==> #[trigger] p@[c] == self.channel(x as int, y as int, c),
    {
        image_get_pixel(self, x, y)
    }
}

} // verus!
