//! The output surface: a grid of packed colours, stored row by row.

use vstd::prelude::*;
use crate::color::Rgb;
use crate::pixel::{column, component, row};

verus! {

/// A `width` by `height` grid of packed colours in row-major order.
pub struct Framebuffer {
    buffer: Vec<u32>,
    width: usize,
    height: usize,
}

impl Framebuffer {
    #[verifier::type_invariant]
    spec fn well_formed(self) -> bool {
        self.buffer@.len() == self.width * self.height
    }

    /// The stored words, row after row from the top.
    pub closed spec fn view(&self) -> Seq<u32> {
        self.buffer@
    }

    pub closed spec fn spec_width(&self) -> usize {
        self.width
    }

    pub closed spec fn spec_height(&self) -> usize {
        self.height
    }

    /// The word stored for column `x` of row `y`.
    pub open spec fn pixel(&self, x: int, y: int) -> u32 {
        self@[x + y * self.spec_width()]
    }

    /// A surface of `width * height` words, every one zero.
    pub fn new(width: usize, height: usize) -> (fb: Self)
        requires
            width * height <= usize::MAX,
        ensures
            fb.spec_width() == width,
            fb.spec_height() == height,
            fb@ == Seq::new((width * height) as nat, |i: int| 0u32),
    {
        let buffer: Vec<u32> = vec![0u32; width * height];
        assert(buffer@ =~= Seq::new((width * height) as nat, |i: int| 0u32));
        Framebuffer { buffer, width, height }
    }

    /// Stores `color` at `pos`, at index `x + y * width` of the buffer.
    pub fn set_pixel(&mut self, pos: nalgebra::Vector2<usize>, color: Rgb)
        requires
            column(pos) + row(pos) * old(self).spec_width() < old(self)@.len(),
        ensures
            final(self)@ == old(self)@.update(
                column(pos) + row(pos) * old(self).spec_width(),
                color.packed(),
            ),
            final(self).spec_width() == old(self).spec_width(),
            final(self).spec_height() == old(self).spec_height(),
    {
        proof {
            use_type_invariant(&*self);
        }
        let x: usize = component(&pos, 0);
        let y: usize = component(&pos, 1);
        let len: usize = self.buffer.len();
        assert(0 <= y * self.width) by (nonlinear_arith);
        let index: usize = x + y * self.width;
        self.buffer[index] = color.pack();
    }

    #[verifier::when_used_as_spec(spec_width)]
    pub fn width(&self) -> (w: usize)
        ensures
            w == self.spec_width(),
    {
        self.width
    }

    #[verifier::when_used_as_spec(spec_height)]
    pub fn height(&self) -> (h: usize)
        ensures
            h == self.spec_height(),
    {
        self.height
    }

    /// The number of stored words: the area of the grid.
    pub fn len(&self) -> (n: usize)
        ensures
            n == self@.len(),
            n == self.spec_width() * self.spec_height(),
    {
        proof {
            use_type_invariant(self);
        }
        self.buffer.len()
    }

    /// The stored words, for presenting the surface.
    pub fn buffer(&self) -> (words: &Vec<u32>)
        ensures
            words@ == self@,
    {
        &self.buffer
    }
}

impl std::ops::Deref for Framebuffer {
    type Target = Vec<u32>;

    fn deref(&self) -> (words: &Vec<u32>)
        ensures
            words@ == self@,
    {
        &self.buffer
    }
}

/// The index of a pixel inside a `w` by `h` grid lies inside the
/// buffer.
pub proof fn lemma_index_in_range(w: int, h: int, x: int, y: int)
    requires
        0 <= x < w,
        0 <= y < h,
    ensures
        0 <= x + y * w < w * h,
{
    assert(y * w + w <= h * w) by (nonlinear_arith)
        requires
            0 <= y < h,
            0 <= w,
    ;
    assert(0 <= y * w) by (nonlinear_arith)
        requires
            0 <= y,
            0 <= w,
    ;
    assert(h * w == w * h) by (nonlinear_arith);
}

/// Two pixels inside the grid that share an index are the same pixel.
pub proof fn lemma_index_injective(w: int, x1: int, y1: int, x2: int, y2: int)
    requires
        0 <= x1 < w,
        0 <= x2 < w,
        x1 + y1 * w == x2 + y2 * w,
    ensures
        x1 == x2,
        y1 == y2,
{
    if y1 < y2 {
        assert(y2 * w >= y1 * w + w) by (nonlinear_arith)
            requires
                y1 < y2,
                0 <= w,
        ;
    } else if y2 < y1 {
        assert(y1 * w >= y2 * w + w) by (nonlinear_arith)
            requires
                y2 < y1,
                0 <= w,
        ;
    }
}

} // verus!
