//! The rasterizer: fills an RGB image buffer column by column.
//!
//! The buffer itself is `image::ImageBuffer`, reached through trusted
//! wrappers; its contents are modelled as a map from coordinates to RGB
//! triples. For a column of height `h`, the rows `IMAGE_HEIGHT - h .. IMAGE_HEIGHT`
//! carry the column's color and every other row keeps the default fill, which
//! is black (`(0, 0, 0)`), the zero value the buffer is allocated with.
//! Serializing the finished buffer to a file is the caller's business.

use vstd::prelude::*;
use crate::color::{color_of, get_color, lemma_color_in_range, lemma_color_not_black};
use crate::{WaveformError, IMAGE_HEIGHT, IMAGE_WIDTH};

verus! {

/// The output raster: an RGB image buffer of the `image` crate. The buffer
/// type itself carries trait bounds Verus does not take, so it sits in a
/// hidden field here and is reached only through the trusted wrappers below,
/// which state what they do over `image_pixels` and `image_dims`.
#[verifier::external_body]
pub struct Raster {
    buf: image::ImageBuffer<image::Rgb<u8>, Vec<u8>>,
}

/// What the image buffer holds: each coordinate inside the dimensions maps to
/// the RGB triple of its pixel.
pub uninterp spec fn image_pixels(img: Raster) -> Map<(int, int), (u8, u8, u8)>;

/// The dimensions (width, height) the image buffer was made with.
pub uninterp spec fn image_dims(img: Raster) -> (int, int);

/// All coordinates inside a width-by-height raster.
pub open spec fn pixel_domain(w: int, h: int) -> Set<(int, int)> {
    Set::new(|p: (int, int)| 0 <= p.0 < w && 0 <= p.1 < h)
}

/// Relies on `image::ImageBuffer::new`: it allocates a width-by-height buffer
/// whose every channel is zero, so every pixel starts out black. It panics
/// only when the byte count `3 * width * height` overflows `usize`.
#[verifier::external_body]
fn new_image(width: u32, height: u32) -> (img: Raster)
    requires
        3 * width * height <= usize::MAX,
    ensures
        image_dims(img) == (width as int, height as int),
        image_pixels(img).dom() == pixel_domain(width as int, height as int),
        forall|x: int, y: int|
            0 <= x < width && 0 <= y < height ==> #[trigger] image_pixels(img)[(x, y)] == (
            0u8,
            0u8,
            0u8,
            ),
{
    Raster { buf: image::ImageBuffer::new(width, height) }
}

/// Relies on `image::ImageBuffer::put_pixel`: it stores the given pixel at
/// `(x, y)` and touches nothing else; out of the dimensions it panics, so the
/// coordinates are required to lie inside them.
#[verifier::external_body]
fn put_image_pixel(
    img: &mut Raster,
    x: u32,
    y: u32,
    r: u8,
    g: u8,
    b: u8,
)
    requires
        x < image_dims(*old(img)).0,
        y < image_dims(*old(img)).1,
    ensures
        image_dims(*final(img)) == image_dims(*old(img)),
        image_pixels(*final(img)) == image_pixels(*old(img)).insert(
            (x as int, y as int),
            (r, g, b),
        ),
{
    img.buf.put_pixel(x, y, image::Rgb([r, g, b]));
}

impl Raster {
    /// Relies on `image::ImageBuffer::into_raw` and the buffer's row-major
    /// layout: the container `new` allocates holds exactly
    /// `3 * width * height` bytes, and channel `c` of the pixel at `(x, y)`
    /// is the byte at `(y * width + x) * 3 + c`.
    #[verifier::external_body]
    pub fn into_bytes(self) -> (bytes: Vec<u8>)
        ensures
            bytes@.len() == 3 * image_dims(self).0 * image_dims(self).1,
            (forall|x: int, y: int|
                0 <= x < image_dims(self).0 && 0 <= y < image_dims(self).1
                    ==> bytes@[3 * (y * image_dims(self).0 + x)] == (#[trigger] image_pixels(
                    self,
                )[(x, y)]).0),
            (forall|x: int, y: int|
                0 <= x < image_dims(self).0 && 0 <= y < image_dims(self).1
                    ==> bytes@[3 * (y * image_dims(self).0 + x) + 1] == (#[trigger] image_pixels(
                    self,
                )[(x, y)]).1),
            (forall|x: int, y: int|
                0 <= x < image_dims(self).0 && 0 <= y < image_dims(self).1
                    ==> bytes@[3 * (y * image_dims(self).0 + x) + 2] == (#[trigger] image_pixels(
                    self,
                )[(x, y)]).2),
    {
        self.buf.into_raw()
    }
}

/// The pixel a finished raster holds at `(x, y)` for the given column
/// heights: the column's color on the bottom `hs[x]` rows, black above them.
pub open spec fn rendered_pixel(hs: Seq<u128>, x: int, y: int) -> (u8, u8, u8) {
    if (IMAGE_HEIGHT as int) - hs[x] <= y {
        color_of(hs[x] as int, IMAGE_HEIGHT as int)
    } else {
        (0u8, 0u8, 0u8)
    }
}

/// The raster relation: `img` is exactly the waveform image for the column
/// heights `hs` — right dimensions, one pixel per coordinate, each pixel as
/// `rendered_pixel` says.
pub open spec fn waveform_raster_ok(
    hs: Seq<u128>,
    img: Raster,
) -> bool {
    &&& image_dims(img) == (IMAGE_WIDTH as int, IMAGE_HEIGHT as int)
    &&& image_pixels(img).dom() == pixel_domain(IMAGE_WIDTH as int, IMAGE_HEIGHT as int)
    &&& forall|x: int, y: int|
        0 <= x < IMAGE_WIDTH as int && 0 <= y < IMAGE_HEIGHT as int
            ==> #[trigger] image_pixels(img)[(x, y)] == rendered_pixel(hs, x, y)
}

/// In a rendered raster, a row of column `x` differs from the black default
/// fill exactly when it is one of the bottom `hs[x]` rows: the colored-row
/// count of every column equals its computed height.
pub proof fn lemma_column_colored_rows(hs: Seq<u128>, x: int, y: int)
    requires
        0 <= x < IMAGE_WIDTH as int,
        hs[x] <= IMAGE_HEIGHT,
        0 <= y < IMAGE_HEIGHT as int,
    ensures
        rendered_pixel(hs, x, y) != (0u8, 0u8, 0u8) <==> (IMAGE_HEIGHT as int) - hs[x] <= y,
{
    if (IMAGE_HEIGHT as int) - hs[x] <= y {
        lemma_color_in_range(hs[x] as int, IMAGE_HEIGHT as int);
        lemma_color_not_black(hs[x] as int, IMAGE_HEIGHT as int);
    }
}

/// Rasterizes the columns: each column `x` gets its bottom `heights[x]` rows
/// colored by the fixed color function, on a black default fill. A height
/// over the image height cannot be drawn and is reported, not clamped.
pub fn render_columns(heights: &Vec<u128>) -> (r: Result<Raster, WaveformError>)
    requires
        heights@.len() == IMAGE_WIDTH,
    ensures
        match r {
            Ok(img) => {
                &&& forall|x: int|
                    0 <= x < IMAGE_WIDTH as int ==> #[trigger] heights@[x] <= IMAGE_HEIGHT
                &&& waveform_raster_ok(heights@, img)
            },
            Err(e) => {
                &&& e == WaveformError::OutOfRangeError
                &&& exists|x: int|
                    0 <= x < IMAGE_WIDTH as int && #[trigger] heights@[x] > IMAGE_HEIGHT
            },
        },
{
    let mut x: usize = 0;
    while x < IMAGE_WIDTH
        invariant
            heights@.len() == IMAGE_WIDTH,
            x <= IMAGE_WIDTH,
            forall|k: int| 0 <= k < x ==> #[trigger] heights@[k] <= IMAGE_HEIGHT,
        decreases IMAGE_WIDTH - x,
    {
        if heights[x] > IMAGE_HEIGHT as u128 {
            return Err(WaveformError::OutOfRangeError);
        }
        x = x + 1;
    }
    let mut img = new_image(IMAGE_WIDTH as u32, IMAGE_HEIGHT as u32);
    let mut x: usize = 0;
    while x < IMAGE_WIDTH
        invariant
            heights@.len() == IMAGE_WIDTH,
            forall|k: int| 0 <= k < IMAGE_WIDTH as int ==> #[trigger] heights@[k] <= IMAGE_HEIGHT,
            x <= IMAGE_WIDTH,
            image_dims(img) == (IMAGE_WIDTH as int, IMAGE_HEIGHT as int),
            image_pixels(img).dom() == pixel_domain(IMAGE_WIDTH as int, IMAGE_HEIGHT as int),
            forall|px: int, py: int|
                0 <= px < IMAGE_WIDTH as int && 0 <= py < IMAGE_HEIGHT as int
                    ==> #[trigger] image_pixels(img)[(px, py)] == (if px < x {
                    rendered_pixel(heights@, px, py)
                } else {
                    (0u8, 0u8, 0u8)
                }),
        decreases IMAGE_WIDTH - x,
    {
        let ph: u64 = heights[x] as u64;
        let color = get_color(ph, IMAGE_HEIGHT as u64);
        let mut y: usize = IMAGE_HEIGHT - (ph as usize);
        while y < IMAGE_HEIGHT
            invariant
                heights@.len() == IMAGE_WIDTH,
                forall|k: int|
                    0 <= k < IMAGE_WIDTH as int ==> #[trigger] heights@[k] <= IMAGE_HEIGHT,
                x < IMAGE_WIDTH,
                ph == heights@[x as int],
                ph <= IMAGE_HEIGHT,
                (color[0], color[1], color[2]) == color_of(ph as int, IMAGE_HEIGHT as int),
                IMAGE_HEIGHT - ph <= y <= IMAGE_HEIGHT,
                image_dims(img) == (IMAGE_WIDTH as int, IMAGE_HEIGHT as int),
                image_pixels(img).dom() == pixel_domain(IMAGE_WIDTH as int, IMAGE_HEIGHT as int),
                forall|px: int, py: int|
                    0 <= px < IMAGE_WIDTH as int && 0 <= py < IMAGE_HEIGHT as int
                        ==> #[trigger] image_pixels(img)[(px, py)] == (if px < x {
                        rendered_pixel(heights@, px, py)
                    } else if px == x && (IMAGE_HEIGHT as int) - ph <= py < y {
                        color_of(ph as int, IMAGE_HEIGHT as int)
                    } else {
                        (0u8, 0u8, 0u8)
                    }),
            decreases IMAGE_HEIGHT - y,
        {
            put_image_pixel(&mut img, x as u32, y as u32, color[0], color[1], color[2]);
            y = y + 1;
        }
        x = x + 1;
    }
    Ok(img)
}

} // verus!
