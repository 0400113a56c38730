//! An owned pixel buffer the size of the screen. Writes outside its
//! bounds are silently ignored, so the per-column renderer needs no
//! bounds branching on its hot path.

use vstd::prelude::*;
use crate::color::Color;

verus! {

/// A width x height pixel buffer, row-major, with a background color it
/// is cleared to.
pub struct Framebuffer {
    width: usize,
    height: usize,
    pixels: Vec<Color>,
    background: Color,
}

impl View for Framebuffer {
    type V = Seq<Color>;

    closed spec fn view(&self) -> Seq<Color> {
        self.pixels@
    }
}

impl Framebuffer {
    /// The buffer holds exactly one pixel per screen cell.
    pub closed spec fn wf(&self) -> bool {
        self.pixels@.len() == self.width * self.height
            && self.width * self.height <= usize::MAX
    }

    pub closed spec fn width_spec(&self) -> int {
        self.width as int
    }

    pub closed spec fn height_spec(&self) -> int {
        self.height as int
    }

    pub closed spec fn background_spec(&self) -> Color {
        self.background
    }

    /// The pixel at column `x`, row `y` of the buffer.
    pub open spec fn pixel_at(&self, x: int, y: int) -> Color {
        self@[y * self.width_spec() + x]
    }

    /// Allocates a `width` x `height` buffer with every pixel set to
    /// `background`.
    pub fn new(width: usize, height: usize, background: Color) -> (fb: Framebuffer)
        requires
            width * height <= usize::MAX,
        ensures
            fb.wf(),
            fb.width_spec() == width,
            fb.height_spec() == height,
            fb.background_spec() == background,
            fb@.len() == width * height,
            forall|i: int| 0 <= i < fb@.len() ==> fb@[i] == background,
    {
        let n: usize = width * height;
        let mut pixels: Vec<Color> = Vec::new();
        let mut i: usize = 0;
        while i < n
            invariant
                i <= n,
                pixels@.len() == i,
                forall|j: int| 0 <= j < i ==> pixels@[j] == background,
            decreases n - i,
        {
            pixels.push(background);
            i = i + 1;
        }
        Framebuffer { width, height, pixels, background }
    }

    /// Width of the buffer in pixels.
    pub fn width(&self) -> (w: usize)
        ensures
            w == self.width_spec(),
    {
        self.width
    }

    /// Height of the buffer in pixels.
    pub fn height(&self) -> (h: usize)
        ensures
            h == self.height_spec(),
    {
        self.height
    }

    /// Resets every pixel to the background color.
    pub fn clear(&mut self)
        requires
            old(self).wf(),
        ensures
            final(self).wf(),
            final(self).width_spec() == old(self).width_spec(),
            final(self).height_spec() == old(self).height_spec(),
            final(self).background_spec() == old(self).background_spec(),
            final(self)@.len() == old(self)@.len(),
            forall|i: int| 0 <= i < final(self)@.len()
                ==> final(self)@[i] == old(self).background_spec(),
    {
        let bg: Color = self.background;
        let n: usize = self.pixels.len();
        let mut i: usize = 0;
        while i < n
            invariant
                i <= n,
                self.pixels@.len() == n,
                self.width == old(self).width,
                self.height == old(self).height,
                self.background == old(self).background,
                bg == old(self).background,
                forall|j: int| 0 <= j < i ==> self.pixels@[j] == bg,
            decreases n - i,
        {
            self.pixels[i] = bg;
            i = i + 1;
        }
    }

    /// Writes one pixel. A write outside the bounds changes nothing and
    /// raises no error.
    pub fn set(&mut self, x: usize, y: usize, color: Color)
        requires
            old(self).wf(),
        ensures
            final(self).wf(),
            final(self).width_spec() == old(self).width_spec(),
            final(self).height_spec() == old(self).height_spec(),
            final(self).background_spec() == old(self).background_spec(),
            x < old(self).width_spec() && y < old(self).height_spec()
                ==> final(self)@ == old(self)@.update(
                    y * old(self).width_spec() + x, color),
            !(x < old(self).width_spec() && y < old(self).height_spec())
                ==> final(self)@ == old(self)@,
    {
        if x < self.width && y < self.height {
            proof {
                assert(y * self.width + x < self.width * self.height) by (nonlinear_arith)
                    requires y < self.height && x < self.width;
            }
            self.pixels[y * self.width + x] = color;
            proof {
                assert(self.pixels@ =~= old(self).pixels@.update(
                    y as int * self.width as int + x as int, color));
            }
        }
    }

    /// Reads one pixel inside the bounds.
    pub fn get(&self, x: usize, y: usize) -> (c: Color)
        requires
            self.wf(),
            x < self.width_spec(),
            y < self.height_spec(),
        ensures
            c == self.pixel_at(x as int, y as int),
    {
        proof {
            assert((y as int) * (self.width as int) + (x as int)
                < (self.width as int) * (self.height as int)) by (nonlinear_arith)
                requires (y as int) < (self.height as int) && (x as int) < (self.width as int);
        }
        self.pixels[y * self.width + x]
    }
}

/// A well-formed buffer holds exactly width times height pixels.
pub proof fn lemma_wf_len(fb: &Framebuffer)
    requires
        fb.wf(),
    ensures
        fb@.len() == fb.width_spec() * fb.height_spec(),
{
}

/// Distinct in-bounds pixel coordinates have distinct row-major indices.
pub proof fn lemma_rowmajor_distinct(w: int, x1: int, y1: int, x2: int, y2: int)
    requires
        0 <= x1 < w,
        0 <= x2 < w,
        !(x1 == x2 && y1 == y2),
    ensures
        y1 * w + x1 != y2 * w + x2,
{
    if y1 != y2 {
        assert(y1 * w + x1 != y2 * w + x2) by (nonlinear_arith)
            requires 0 <= x1 < w && 0 <= x2 < w && y1 != y2;
    }
}

} // verus!
