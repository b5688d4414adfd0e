//! Trusted view of the RGB canvas the renderer paints into.
//!
//! The canvas is an `image::RgbImage` held in a [`Canvas`] wrapper, because
//! the buffer type itself cannot be declared to the verifier.  A canvas is
//! given a mathematical face: a map from pixel coordinates to channel triples
//! together with the dimensions it was created with, and each buffer
//! operation the renderer uses is a thin wrapper whose contract states, over
//! that map, what the `image` crate documents.  Everything painting-related
//! elsewhere in the crate is verified against these contracts.

use vstd::prelude::*;

verus! {

/// Declares `image::Rgb` to the verifier.  Values of it are opaque; the
/// [`rgb_channels`] name gives contracts a way to speak about them.
#[verifier::external_type_specification]
#[verifier::external_body]
#[verifier::reject_recursive_types(T)]
pub struct ExRgb<T>(image::Rgb<T>);

/// The three channel values an `image::Rgb<u8>` colour holds, as `(r, g, b)`.
pub uninterp spec fn rgb_channels(color: image::Rgb<u8>) -> (u8, u8, u8);

/// An RGB canvas.  Holds the `image` crate's pixel buffer, which the
/// verifier cannot look inside; contracts speak about it through
/// [`canvas_pixels`] and [`canvas_dims`].
#[verifier::external_body]
pub struct Canvas {
    buffer: image::RgbImage,
}

/// The pixels a canvas holds: every in-range coordinate pair maps to the
/// channels of the pixel stored there.
pub uninterp spec fn canvas_pixels(canvas: Canvas) -> Map<(int, int), (u8, u8, u8)>;

/// The width and height a canvas was created with.
pub uninterp spec fn canvas_dims(canvas: Canvas) -> (u32, u32);

/// The pixel map of a freshly created canvas: every in-range coordinate
/// holds black.
pub open spec fn blank_canvas(width: int, height: int) -> Map<(int, int), (u8, u8, u8)> {
    Map::new(
        |p: (int, int)| 0 <= p.0 < width && 0 <= p.1 < height,
        |p: (int, int)| (0u8, 0u8, 0u8),
    )
}

/// Relies on `image::Rgb`'s public channel array: a colour holds exactly the
/// three channels it is built from.
#[verifier::external_body]
pub(crate) fn rgb_new(r: u8, g: u8, b: u8) -> (color: image::Rgb<u8>)
    ensures
        rgb_channels(color) == (r, g, b),
{
    image::Rgb([r, g, b])
}

impl Canvas {
    /// Relies on `image::ImageBuffer::new`: a fresh buffer of the given size
    /// in which every pixel has all channels zero.
    #[verifier::external_body]
    pub fn new(width: u32, height: u32) -> (canvas: Canvas)
        requires
            width as int * height as int * 3 <= usize::MAX as int,
        ensures
            canvas_dims(canvas) == (width, height),
            canvas_pixels(canvas) == blank_canvas(width as int, height as int),
    {
        Canvas { buffer: image::ImageBuffer::new(width, height) }
    }

    /// Relies on `image::ImageBuffer::width`.
    #[verifier::external_body]
    pub fn width(&self) -> (w: u32)
        ensures
            w == canvas_dims(*self).0,
    {
        self.buffer.width()
    }

    /// Relies on `image::ImageBuffer::height`.
    #[verifier::external_body]
    pub fn height(&self) -> (h: u32)
        ensures
            h == canvas_dims(*self).1,
    {
        self.buffer.height()
    }

    /// Relies on `image::ImageBuffer::put_pixel`: overwrites the pixel at
    /// `(x, y)` and nothing else.  The call panics out of bounds, which the
    /// precondition excludes.
    #[verifier::external_body]
    pub(crate) fn put_pixel(&mut self, x: u32, y: u32, color: image::Rgb<u8>)
        requires
            x < canvas_dims(*old(self)).0,
            y < canvas_dims(*old(self)).1,
        ensures
            canvas_dims(*final(self)) == canvas_dims(*old(self)),
            canvas_pixels(*final(self)) == canvas_pixels(*old(self)).insert(
                (x as int, y as int),
                rgb_channels(color),
            ),
    {
        self.buffer.put_pixel(x, y, color);
    }

    /// Relies on `image::ImageBuffer::get_pixel`: returns the pixel stored
    /// at `(x, y)`.  The call panics out of bounds, which the precondition
    /// excludes.
    #[verifier::external_body]
    pub fn get_pixel(&self, x: u32, y: u32) -> (color: image::Rgb<u8>)
        requires
            x < canvas_dims(*self).0,
            y < canvas_dims(*self).1,
        ensures
            rgb_channels(color) == canvas_pixels(*self)[(x as int, y as int)],
    {
        *self.buffer.get_pixel(x, y)
    }
}

/// The pixel map after performing `writes` in order on `m`: each write
/// overwrites one coordinate, and a later write to the same coordinate wins.
pub open spec fn write_seq(
    m: Map<(int, int), (u8, u8, u8)>,
    writes: Seq<((int, int), (u8, u8, u8))>,
) -> Map<(int, int), (u8, u8, u8)>
    decreases writes.len(),
{
    if writes.len() == 0 {
        m
    } else {
        write_seq(m.insert(writes[0].0, writes[0].1), writes.drop_first())
    }
}

/// `m2` agrees with `m1` at `q`: it holds `q` exactly when `m1` does, with
/// the same channels.
pub open spec fn unchanged_at(
    m1: Map<(int, int), (u8, u8, u8)>,
    m2: Map<(int, int), (u8, u8, u8)>,
    q: (int, int),
) -> bool {
    &&& m2.dom().contains(q) == m1.dom().contains(q)
    &&& m1.dom().contains(q) ==> m2[q] == m1[q]
}

} // verus!
