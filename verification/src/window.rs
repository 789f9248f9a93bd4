//! The surface that a window presents: a grid of packed colours that
//! ignores a write outside its buffer.

use vstd::prelude::*;
use crate::color::Rgb;
use crate::pixel::{column, component, row};

verus! {

/// A `width` by `height` grid of packed colours in row-major order.
#[derive(Debug, PartialEq)]
pub struct Framebuffer {
    buffer: Vec<u32>,
    width: usize,
    height: usize,
}

impl Framebuffer {
    #[verifier::type_invariant]
    spec fn well_formed(self) -> bool {
        self.buffer@.len() == self.width * self.height
    }

    /// The stored words, row after row from the top.
    pub closed spec fn view(&self) -> Seq<u32> {
        self.buffer@
    }

    pub closed spec fn spec_width(&self) -> usize {
        self.width
    }

    pub closed spec fn spec_height(&self) -> usize {
        self.height
    }

    /// The word stored for column `x` of row `y`.
    pub open spec fn pixel(&self, x: int, y: int) -> u32 {
        self@[x + y * self.spec_width()]
    }

    /// A black surface.
    pub fn new(width: usize, height: usize) -> (fb: Self)
        requires
            width * height <= usize::MAX,
        ensures
            fb.spec_width() == width,
            fb.spec_height() == height,
            fb@ == Seq::new((width * height) as nat, |i: int| 0u32),
    {
        Self::with_color(width, height, Rgb { r: 0, g: 0, b: 0 })
    }

    /// A surface that shows `color` in every pixel.
    pub fn with_color(width: usize, height: usize, color: Rgb) -> (fb: Self)
        requires
            width * height <= usize::MAX,
        ensures
            fb.spec_width() == width,
            fb.spec_height() == height,
            fb@ == Seq::new((width * height) as nat, |i: int| color.packed()),
    {
        let word: u32 = color.pack();
        let buffer: Vec<u32> = vec![word; width * height];
        assert(buffer@ =~= Seq::new((width * height) as nat, |i: int| color.packed()));
        Framebuffer { buffer, width, height }
    }

    /// Stores `color` at index `x + y * width` of the buffer; a position
    /// whose index lies outside the buffer is ignored.
    pub fn set_pixel(&mut self, pos: nalgebra::Vector2<usize>, color: Rgb)
        requires
            column(pos) + row(pos) * old(self).spec_width() <= usize::MAX,
        ensures
            final(self)@ == if column(pos) + row(pos) * old(self).spec_width() < old(self)@.len() {
                old(self)@.update(column(pos) + row(pos) * old(self).spec_width(), color.packed())
            } else {
                old(self)@
            },
            final(self).spec_width() == old(self).spec_width(),
            final(self).spec_height() == old(self).spec_height(),
    {
        proof {
            use_type_invariant(&*self);
        }
        let x: usize = component(&pos, 0);
        let y: usize = component(&pos, 1);
        assert(0 <= y * self.width) by (nonlinear_arith);
        let index: usize = x + y * self.width;
        if index < self.buffer.len() {
            self.buffer[index] = color.pack();
        }
    }

    #[verifier::when_used_as_spec(spec_width)]
    pub fn width(&self) -> (w: usize)
        ensures
            w == self.spec_width(),
    {
        self.width
    }

    #[verifier::when_used_as_spec(spec_height)]
    pub fn height(&self) -> (h: usize)
        ensures
            h == self.spec_height(),
    {
        self.height
    }

    /// The stored words, for presenting the surface.
    pub fn buffer(&self) -> (words: &Vec<u32>)
        ensures
            words@ == self@,
            words@.len() == self.spec_width() * self.spec_height(),
    {
        proof {
            use_type_invariant(self);
        }
        &self.buffer
    }
}

impl std::ops::Deref for Framebuffer {
    type Target = Vec<u32>;

    fn deref(&self) -> (words: &Vec<u32>)
        ensures
            words@ == self@,
    {
        &self.buffer
    }
}

impl Default for Framebuffer {
    /// The surface without pixels.
    fn default() -> (fb: Self)
        ensures
            fb.spec_width() == 0,
            fb.spec_height() == 0,
            fb@.len() == 0,
    {
        Framebuffer { buffer: Vec::new(), width: 0, height: 0 }
    }
}

impl Clone for Framebuffer {
    fn clone(&self) -> (copy: Self)
        ensures
            copy@ == self@,
            copy.spec_width() == self.spec_width(),
            copy.spec_height() == self.spec_height(),
    {
        proof {
            use_type_invariant(self);
        }
        let buffer: Vec<u32> = self.buffer.clone();
        assert(buffer@ =~= self.buffer@);
        Framebuffer { buffer, width: self.width, height: self.height }
    }
}

} // verus!
