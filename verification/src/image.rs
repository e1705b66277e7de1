//! Render-target images, modelled as row-major pixel arrays.
//!
//! The raster pass writes packed geometry ids into an `Image2d<u32>`; the
//! shading pass reads them back and writes colors into an image of the
//! caller's pixel type. Depth attachments are single-channel values carried
//! as raw IEEE-754 bit patterns.

use vstd::prelude::*;

verus! {

/// Distinct pixel coordinates have distinct row-major indices.
pub proof fn lemma_row_major_injective(w: int, x1: int, y1: int, x2: int, y2: int)
    by (nonlinear_arith)
    requires
        0 <= x1 < w,
        0 <= x2 < w,
        0 <= y1,
        0 <= y2,
        !(x1 == x2 && y1 == y2),
    ensures
        y1 * w + x1 != y2 * w + x2,
{
}

/// A pixel inside the image maps to an index inside the data array.
pub proof fn lemma_row_major_in_range(w: int, h: int, x: int, y: int)
    by (nonlinear_arith)
    requires
        0 <= x < w,
        0 <= y < h,
    ensures
        0 <= y * w + x < h * w,
        h * w == w * h,
{
}

/// A two-dimensional image: `width * height` pixels in row-major order.
pub struct Image2d<P> {
    width: u32,
    height: u32,
    data: Vec<P>,
}

impl<P> Image2d<P> {
    pub closed spec fn spec_width(self) -> u32 {
        self.width
    }

    pub closed spec fn spec_height(self) -> u32 {
        self.height
    }

    pub closed spec fn spec_data(self) -> Seq<P> {
        self.data@
    }

    /// The data array holds exactly one element per pixel.
    pub open spec fn wf(self) -> bool {
        self.spec_data().len() == self.spec_width() * self.spec_height()
    }

    pub open spec fn in_bounds(self, x: int, y: int) -> bool {
        0 <= x < self.spec_width() && 0 <= y < self.spec_height()
    }

    /// The pixel at column `x` of row `y`.
    pub open spec fn pixel(self, x: int, y: int) -> P {
        self.spec_data()[y * self.spec_width() + x]
    }

    /// Two images have the same dimensions.
    pub open spec fn same_dims(self, other: Self) -> bool {
        self.spec_width() == other.spec_width() && self.spec_height() == other.spec_height()
    }

    pub fn width(&self) -> (r: u32)
        ensures
            r == self.spec_width(),
    {
        self.width
    }

    pub fn height(&self) -> (r: u32)
        ensures
            r == self.spec_height(),
    {
        self.height
    }

    fn index_of(&self, x: u32, y: u32) -> (r: usize)
        requires
            self.wf(),
            self.in_bounds(x as int, y as int),
        ensures
            r == y * self.spec_width() + x,
            r < self.spec_data().len(),
    {
        let n = self.data.len();
        proof {
            lemma_row_major_in_range(
                self.spec_width() as int,
                self.spec_height() as int,
                x as int,
                y as int,
            );
            assert(y * self.spec_width() + x < n);
        }
        (y as usize) * (self.width as usize) + (x as usize)
    }

    /// Reads one pixel back, a direct texel fetch.
    pub fn fetch(&self, x: u32, y: u32) -> (r: P)
        where P: Copy
        requires
            self.wf(),
            self.in_bounds(x as int, y as int),
        ensures
            r == self.pixel(x as int, y as int),
    {
        let i = self.index_of(x, y);
        self.data[i]
    }

    /// Writes one pixel; every other pixel keeps its value.
    pub fn write(&mut self, x: u32, y: u32, value: P)
        requires
            old(self).wf(),
            old(self).in_bounds(x as int, y as int),
        ensures
            final(self).wf(),
            final(self).same_dims(*old(self)),
            final(self).spec_data() == old(self).spec_data().update(
                y * old(self).spec_width() + x,
                value,
            ),
            final(self).pixel(x as int, y as int) == value,
            forall|x2: int, y2: int|
                old(self).in_bounds(x2, y2) && !(x2 == x as int && y2 == y as int)
                    ==> #[trigger] final(self).pixel(x2, y2) == old(self).pixel(x2, y2),
    {
        let i = self.index_of(x, y);
        self.data[i] = value;
        proof {
            assert forall|x2: int, y2: int|
                old(self).in_bounds(x2, y2) && !(x2 == x as int && y2 == y as int) implies #[trigger] self.pixel(
                x2,
                y2,
            ) == old(self).pixel(x2, y2) by {
                lemma_row_major_injective(
                    self.spec_width() as int,
                    x2,
                    y2,
                    x as int,
                    y as int,
                );
                lemma_row_major_in_range(
                    self.spec_width() as int,
                    self.spec_height() as int,
                    x2,
                    y2,
                );
            }
        }
    }

    /// Sets every pixel to `value`: the clear operation a render target
    /// undergoes at the start of its pass.
    pub fn fill(&mut self, value: P)
        where P: Copy
        requires
            old(self).wf(),
        ensures
            final(self).wf(),
            final(self).same_dims(*old(self)),
            final(self).spec_data() == Seq::new(old(self).spec_data().len(), |i: int| value),
            forall|x: int, y: int|
                final(self).in_bounds(x, y) ==> #[trigger] final(self).pixel(x, y) == value,
    {
        let n = self.data.len();
        let mut i: usize = 0;
        while i < n
            invariant
                n == self.spec_data().len(),
                i <= n,
                self.same_dims(*old(self)),
                self.wf(),
                forall|k: int| 0 <= k < i ==> #[trigger] self.spec_data()[k] == value,
            decreases n - i,
        {
            self.data[i] = value;
            i += 1;
        }
        proof {
            assert(self.spec_data() =~= Seq::new(old(self).spec_data().len(), |i: int| value));
            assert forall|x: int, y: int| self.in_bounds(x, y) implies #[trigger] self.pixel(x, y)
                == value by {
                lemma_row_major_in_range(
                    self.spec_width() as int,
                    self.spec_height() as int,
                    x,
                    y,
                );
            }
        }
    }

    /// An image with every pixel set to `fill` — how a render target looks
    /// after its clear operation.
    pub fn new_filled(width: u32, height: u32, fill: P) -> (r: Self)
        where P: Copy
        requires
            width * height <= usize::MAX,
        ensures
            r.wf(),
            r.spec_width() == width,
            r.spec_height() == height,
            forall|x: int, y: int| r.in_bounds(x, y) ==> #[trigger] r.pixel(x, y) == fill,
    {
        let len = (width as usize) * (height as usize);
        let mut data: Vec<P> = Vec::new();
        let mut i: usize = 0;
        while i < len
            invariant
                i == data.len(),
                i <= len,
                forall|k: int| 0 <= k < i ==> #[trigger] data@[k] == fill,
            decreases len - i,
        {
            data.push(fill);
            i += 1;
        }
        let r = Image2d { width, height, data };
        proof {
            assert forall|x: int, y: int| r.in_bounds(x, y) implies #[trigger] r.pixel(x, y)
                == fill by {
                lemma_row_major_in_range(width as int, height as int, x, y);
            }
        }
        r
    }
}

} // verus!
