//! The texture store: owned RGBA pixel grids keyed by the wall symbol
//! they are bound to. Out-of-range texel lookups clamp to the last valid
//! row or column, and a symbol with no bound texture samples as white, so
//! a malformed maze symbol degrades instead of stopping the render loop.

use vstd::prelude::*;
use crate::color::{Color, white, white_spec};

verus! {

/// A fixed-size grid of RGBA pixels with known width and height,
/// addressable by integer coordinates.
pub struct Texture {
    width: u32,
    height: u32,
    pixels: Vec<Color>,
}

impl View for Texture {
    type V = Seq<Color>;

    closed spec fn view(&self) -> Seq<Color> {
        self.pixels@
    }
}

impl Texture {
    /// The texture is non-degenerate and holds one pixel per cell.
    pub closed spec fn wf(&self) -> bool {
        self.pixels@.len() == self.width * self.height
            && self.width * self.height <= usize::MAX
            && 0 < self.width
            && 0 < self.height
    }

    pub closed spec fn width_spec(&self) -> int {
        self.width as int
    }

    pub closed spec fn height_spec(&self) -> int {
        self.height as int
    }

    /// The texel at `(x, y)`, with each coordinate clamped to the last
    /// valid column or row.
    pub open spec fn texel_spec(&self, x: int, y: int) -> Color {
        let cx = if x < self.width_spec() - 1 { x } else { self.width_spec() - 1 };
        let cy = if y < self.height_spec() - 1 { y } else { self.height_spec() - 1 };
        self@[cy * self.width_spec() + cx]
    }

    /// Builds a texture from a row-major pixel array.
    pub fn new(width: u32, height: u32, pixels: Vec<Color>) -> (t: Texture)
        requires
            0 < width,
            0 < height,
            width * height <= usize::MAX,
            pixels@.len() == width * height,
        ensures
            t.wf(),
            t.width_spec() == width,
            t.height_spec() == height,
            t@ == pixels@,
    {
        Texture { width, height, pixels }
    }

    /// Width of the texture in pixels.
    pub fn width(&self) -> (w: u32)
        ensures
            w == self.width_spec(),
    {
        self.width
    }

    /// Height of the texture in pixels.
    pub fn height(&self) -> (h: u32)
        ensures
            h == self.height_spec(),
    {
        self.height
    }

    /// Reads the texel at `(x, y)`, clamping out-of-range coordinates to
    /// the last valid column or row.
    pub fn texel(&self, x: u32, y: u32) -> (c: Color)
        requires
            self.wf(),
        ensures
            c == self.texel_spec(x as int, y as int),
    {
        let cx: u32 = if x < self.width - 1 { x } else { self.width - 1 };
        let cy: u32 = if y < self.height - 1 { y } else { self.height - 1 };
        proof {
            assert((cy as int) * (self.width as int) + (cx as int)
                < (self.width as int) * (self.height as int)) by (nonlinear_arith)
                requires
                    (cy as int) < (self.height as int),
                    (cx as int) < (self.width as int),
                    0 < self.width as int,
            ;
        }
        self.pixels[(cy as usize) * (self.width as usize) + (cx as usize)]
    }
}

/// The texture bound to `ch` among `entries`: the first entry with that
/// symbol, if any.
pub open spec fn lookup_spec(entries: Seq<(u8, Texture)>, ch: u8) -> Option<Texture>
    decreases entries.len(),
{
    if entries.len() == 0 {
        None
    } else if entries[0].0 == ch {
        Some(entries[0].1)
    } else {
        lookup_spec(entries.drop_first(), ch)
    }
}

/// Maps each wall symbol to the texture sampled for it during wall
/// rendering.
pub struct TextureManager {
    entries: Vec<(u8, Texture)>,
}

impl View for TextureManager {
    type V = Seq<(u8, Texture)>;

    closed spec fn view(&self) -> Seq<(u8, Texture)> {
        self.entries@
    }
}

/// The color `(tx, ty)` samples for `ch`: the clamped texel of the bound
/// texture, or white when `ch` has no bound texture.
pub open spec fn sample_spec(entries: Seq<(u8, Texture)>, ch: u8, tx: int, ty: int) -> Color {
    match lookup_spec(entries, ch) {
        Some(t) => t.texel_spec(tx, ty),
        None => white_spec(),
    }
}

impl TextureManager {
    /// Every stored texture is well-formed.
    pub open spec fn wf(&self) -> bool {
        forall|i: int| 0 <= i < self@.len() ==> (#[trigger] self@[i]).1.wf()
    }

    /// Builds the store from symbol-to-texture bindings. When a symbol
    /// appears twice, the first binding wins.
    pub fn new(entries: Vec<(u8, Texture)>) -> (tm: TextureManager)
        requires
            forall|i: int| 0 <= i < entries@.len() ==> (#[trigger] entries@[i]).1.wf(),
        ensures
            tm.wf(),
            tm@ == entries@,
    {
        TextureManager { entries }
    }

    /// The texture bound to `ch`, if any.
    pub fn get_texture(&self, ch: u8) -> (r: Option<&Texture>)
        ensures
            match r {
                Some(t) => lookup_spec(self@, ch) == Some(*t),
                None => lookup_spec(self@, ch) is None,
            },
    {
        let n: usize = self.entries.len();
        let mut i: usize = 0;
        proof {
            assert(self@.subrange(0, n as int) =~= self@);
        }
        while i < n
            invariant
                i <= n,
                n == self@.len(),
                lookup_spec(self@, ch) == lookup_spec(self@.subrange(i as int, n as int), ch),
            decreases n - i,
        {
            proof {
                assert(self@.subrange(i as int, n as int).drop_first()
                    =~= self@.subrange(i as int + 1, n as int));
            }
            if self.entries[i].0 == ch {
                return Some(&self.entries[i].1);
            }
            i = i + 1;
        }
        None
    }

    /// Width and height of the texture bound to `ch`, or `(1, 1)` when
    /// there is none: the degenerate size every white fallback sample
    /// fits in.
    pub fn texture_size(&self, ch: u8) -> (wh: (u32, u32))
        requires
            self.wf(),
        ensures
            match lookup_spec(self@, ch) {
                Some(t) => wh.0 == t.width_spec() && wh.1 == t.height_spec(),
                None => wh == (1u32, 1u32),
            },
            0 < wh.0 && 0 < wh.1,
    {
        match self.get_texture(ch) {
            Some(t) => {
                proof {
                    lemma_lookup_wf(self@, ch);
                }
                (t.width(), t.height())
            },
            None => (1, 1),
        }
    }

    /// Samples the RGBA color at texel `(tx, ty)` of the texture bound to
    /// `ch`, clamping the coordinates into its bounds; a symbol with no
    /// bound texture samples as white.
    pub fn get_pixel_color(&self, ch: u8, tx: u32, ty: u32) -> (c: Color)
        requires
            self.wf(),
        ensures
            c == sample_spec(self@, ch, tx as int, ty as int),
    {
        match self.get_texture(ch) {
            Some(t) => {
                proof {
                    lemma_lookup_wf(self@, ch);
                }
                t.texel(tx, ty)
            },
            None => white(),
        }
    }
}

/// A texture found by lookup in a well-formed store is well-formed.
pub proof fn lemma_lookup_wf(entries: Seq<(u8, Texture)>, ch: u8)
    requires
        forall|i: int| 0 <= i < entries.len() ==> (#[trigger] entries[i]).1.wf(),
        lookup_spec(entries, ch) is Some,
    ensures
        lookup_spec(entries, ch)->Some_0.wf(),
    decreases entries.len(),
{
    if entries.len() == 0 {
    } else if entries[0].0 == ch {
    } else {
        assert(forall|i: int| 0 <= i < entries.drop_first().len()
            ==> (#[trigger] entries.drop_first()[i]).1.wf());
        lemma_lookup_wf(entries.drop_first(), ch);
    }
}

} // verus!
