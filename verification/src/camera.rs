//! Assembling a frame: one colour for every pixel of the raster.

use vstd::prelude::*;
use crate::canvas::Canvas;

verus! {

/// A camera: the size of its frame in pixels, its field of view with the
/// measures derived from it, and its placement.
#[derive(Clone, Copy, Debug)]
pub struct Camera<S: Copy, M: Copy> {
    /// Pixels in a row.
    pub hsize: usize,
    /// Rows.
    pub vsize: usize,
    pub field_of_view: S,
    pub half_height: S,
    pub half_width: S,
    pub pixel_size: S,
    pub transform: M,
    pub inverse_transform: M,
}

impl<S: Copy, M: Copy> Camera<S, M> {
    /// A camera for frames of `hsize` by `vsize` pixels with the given
    /// measures, placed by `identity`, which is its own inverse.
    pub fn new(
        hsize: usize,
        vsize: usize,
        field_of_view: S,
        half_width: S,
        half_height: S,
        pixel_size: S,
        identity: M,
    ) -> (c: Self)
        ensures
            c.hsize == hsize,
            c.vsize == vsize,
            c.field_of_view == field_of_view,
            c.half_width == half_width,
            c.half_height == half_height,
            c.pixel_size == pixel_size,
            c.transform == identity,
            c.inverse_transform == identity,
    {
        Camera {
            hsize,
            vsize,
            field_of_view,
            half_height,
            half_width,
            pixel_size,
            transform: identity,
            inverse_transform: identity,
        }
    }

    /// The same camera placed by `transform`, whose inverse is `inverse`.
    pub fn transform(self, transform: M, inverse: M) -> (c: Self)
        ensures
            c.hsize == self.hsize,
            c.vsize == self.vsize,
            c.field_of_view == self.field_of_view,
            c.half_width == self.half_width,
            c.half_height == self.half_height,
            c.pixel_size == self.pixel_size,
            c.transform == transform,
            c.inverse_transform == inverse,
    {
        Camera { transform, inverse_transform: inverse, ..self }
    }

    /// The frame in which the pixel in column `x` of row `y` is what
    /// `shade` gives for `(x, y)`, for every column and every row. `shade` is
    /// called once for each pixel, row by row from the top, and in each row
    /// from the left.
    pub fn render<P: Copy, F: Fn(usize, usize) -> P>(&self, fill: P, shade: F) -> (image: Canvas<P>)
        requires
            self.hsize * self.vsize <= usize::MAX,
            forall|x: usize, y: usize|
                x < self.hsize && y < self.vsize ==> #[trigger] shade.requires((x, y)),
        ensures
            image.wf(),
            image.width == self.hsize,
            image.height == self.vsize,
            forall|x: usize, y: usize|
                x < self.hsize && y < self.vsize ==> shade.ensures(
                    (x, y),
                    #[trigger] image.pixel_at(x as int, y as int),
                ),
    {
        let mut image: Canvas<P> = Canvas::new(self.hsize, self.vsize, fill);
        let mut y: usize = 0;
        while y < self.vsize
            invariant
                y <= self.vsize,
                image.wf(),
                image.width == self.hsize,
                image.height == self.vsize,
                forall|x: usize, y: usize|
                    x < self.hsize && y < self.vsize ==> #[trigger] shade.requires((x, y)),
                forall|a: usize, b: usize|
                    a < self.hsize && b < y ==> shade.ensures(
                        (a, b),
                        #[trigger] image.pixel_at(a as int, b as int),
                    ),
            decreases self.vsize - y,
        {
            let mut x: usize = 0;
            while x < self.hsize
                invariant
                    x <= self.hsize,
                    y < self.vsize,
                    image.wf(),
                    image.width == self.hsize,
                    image.height == self.vsize,
                    forall|x: usize, y: usize|
                        x < self.hsize && y < self.vsize ==> #[trigger] shade.requires((x, y)),
                    forall|a: usize, b: usize|
                        a < self.hsize && (b < y || (b == y && a < x)) ==> shade.ensures(
                            (a, b),
                            #[trigger] image.pixel_at(a as int, b as int),
                        ),
                decreases self.hsize - x,
            {
                let color: P = shade(x, y);
                image.set(x, y, color);
                x += 1;
            }
            y += 1;
        }
        image
    }
}

} // verus!
