use vstd::prelude::*;
use image::RgbaImage;

verus! {

/// An RGBA image of the `image` crate. Verus sees no field of it: its
/// pixels are read through `pixel_rows`, and only the functions below
/// change them.
#[verifier::external_body]
pub struct Raster {
    pub image: RgbaImage,
}

/// The pixels of an RGBA image: one sequence per row, top to bottom, each
/// holding one pixel per column, left to right, as its four channels.
pub uninterp spec fn pixel_rows(img: Raster) -> Seq<Seq<Seq<u8>>>;

/// What `image::imageops::overlay` makes of the pixels `bottom` when it
/// pastes the pixels `top` with their top-left corner at (`x`, `y`).
pub uninterp spec fn overlaid(
    bottom: Seq<Seq<Seq<u8>>>,
    top: Seq<Seq<Seq<u8>>>,
    x: int,
    y: int,
) -> Seq<Seq<Seq<u8>>>;

/// A `size` by `size` square of one colour.
pub open spec fn solid(size: nat, color: Seq<u8>) -> Seq<Seq<Seq<u8>>> {
    Seq::new(size, |r: int| Seq::new(size, |c: int| color))
}

/// Relies on `ImageBuffer::from_pixel`: a `size` by `size` image whose every
/// pixel is `color`. It panics when the buffer's length overflows.
#[verifier::external_body]
pub(crate) fn solid_image(size: u32, color: [u8; 4]) -> (r: Raster)
    requires
        4 * (size as int) * (size as int) <= isize::MAX as int,
    ensures
        pixel_rows(r) == solid(size as nat, color@),
{
    Raster { image: RgbaImage::from_pixel(size, size, image::Rgba(color)) }
}

/// The width of an image's pixels: the length of its rows, if it has any.
pub open spec fn width_of(p: Seq<Seq<Seq<u8>>>) -> int {
    if p.len() > 0 {
        p[0].len() as int
    } else {
        0
    }
}

/// Relies on `image::imageops::overlay`: pastes `tile` onto `canvas` at
/// (`x`, `y`), clipped to the canvas. It writes only pixels of the canvas
/// under the tile, so the canvas keeps its size and every other pixel.
#[verifier::external_body]
pub(crate) fn overlay_at(canvas: &mut Raster, tile: &Raster, x: i64, y: i64)
    ensures
        pixel_rows(*final(canvas)) == overlaid(
            pixel_rows(*old(canvas)),
            pixel_rows(*tile),
            x as int,
            y as int,
        ),
        pixel_rows(*final(canvas)).len() == pixel_rows(*old(canvas)).len(),
        forall|r: int|
            0 <= r < pixel_rows(*old(canvas)).len() ==> (#[trigger] pixel_rows(*final(canvas))[r]).len()
                == pixel_rows(*old(canvas))[r].len(),
        forall|r: int, c: int|
            0 <= r < pixel_rows(*old(canvas)).len() && 0 <= c < pixel_rows(*old(canvas))[r].len()
                && !(y <= r < y + pixel_rows(*tile).len() && x <= c < x + width_of(
                pixel_rows(*tile),
            )) ==> #[trigger] pixel_rows(*final(canvas))[r][c] == pixel_rows(*old(canvas))[r][c],
{
    image::imageops::overlay(&mut canvas.image, &tile.image, x, y)
}

/// Relies on `ImageBuffer`'s `Clone`: the same size and pixels.
#[verifier::external_body]
pub(crate) fn copy_image(img: &Raster) -> (r: Raster)
    ensures
        pixel_rows(r) == pixel_rows(*img),
{
    Raster { image: img.image.clone() }
}

} // verus!
