//! The raster the frame is drawn into. Its size follows the display's, scaled
//! down by tenths until it holds no more than `MAX_PIXELS` pixels, so that the
//! work of one frame stays bounded whatever the display.
use vstd::prelude::*;
use crate::gradient::Rgba;

verus! {

/// Largest number of pixels a canvas may hold.
pub const MAX_PIXELS: u64 = 660680;

/// One side scaled down by a tenth, rounded down.
pub open spec fn shrink(v: nat) -> nat {
    v * 9 / 10
}

proof fn lemma_fitted_decreases(width: nat, height: nat)
    ensures
        width * height > MAX_PIXELS ==> shrink(width) + shrink(height) < width + height,
{
    if width * height > MAX_PIXELS {
        if width == 0 {
            assert(width * height == 0);
        }
        if height == 0 {
            assert(width * height == 0);
        }
    }
}

#[via_fn]
proof fn fitted_decreases(width: nat, height: nat) {
    lemma_fitted_decreases(width, height);
}

/// Size of the canvas for a display of `width` by `height`: both sides
/// scaled down by a tenth until their product fits the budget.
pub open spec fn fitted(width: nat, height: nat) -> (nat, nat)
    decreases width + height
    via fitted_decreases
{
    if width * height <= MAX_PIXELS {
        (width, height)
    } else {
        fitted(shrink(width), shrink(height))
    }
}

proof fn lemma_fitted_bounds(width: nat, height: nat)
    ensures
        fitted(width, height).0 * fitted(width, height).1 <= MAX_PIXELS,
        fitted(width, height).0 <= width,
        fitted(width, height).1 <= height,
    decreases width + height,
{
    if width * height > MAX_PIXELS {
        lemma_fitted_decreases(width, height);
        lemma_fitted_bounds(shrink(width), shrink(height));
    }
}

/// Canvas size for a display of `width` by `height`.
pub fn fit_to_budget(width: u32, height: u32) -> (r: (u32, u32))
    ensures
        (r.0 as nat, r.1 as nat) == fitted(width as nat, height as nat),
        r.0 * r.1 <= MAX_PIXELS,
        r.0 <= width,
        r.1 <= height,
        width * height <= MAX_PIXELS ==> r == (width, height),
{
    let mut w: u32 = width;
    let mut h: u32 = height;
    proof {
        lemma_fitted_bounds(width as nat, height as nat);
    }
    loop
        invariant
            fitted(w as nat, h as nat) == fitted(width as nat, height as nat),
        ensures
            fitted(width as nat, height as nat) == (w as nat, h as nat),
        decreases w + h,
    {
        proof {
            assert((w as nat) * (h as nat) <= u32::MAX * u32::MAX) by (nonlinear_arith)
                requires
                    w <= u32::MAX,
                    h <= u32::MAX,
            ;
            lemma_fitted_decreases(w as nat, h as nat);
        }
        if (w as u64) * (h as u64) <= MAX_PIXELS {
            assert(fitted(w as nat, h as nat) == (w as nat, h as nat));
            break;
        }
        w = ((w as u64) * 9 / 10) as u32;
        h = ((h as u64) * 9 / 10) as u32;
    }
    (w, h)
}

/// Byte `k % 4` of the colour: red, green, blue, then alpha.
pub open spec fn channel(c: Rgba, k: int) -> u8 {
    if k == 0 {
        c.r
    } else if k == 1 {
        c.g
    } else if k == 2 {
        c.b
    } else {
        c.a
    }
}

/// Pixels laid out as RGBA bytes, four per pixel, in pixel order.
pub open spec fn rgba_bytes(pixels: Seq<Rgba>) -> Seq<u8> {
    Seq::new(4 * pixels.len(), |k: int| channel(pixels[k / 4], k % 4))
}

proof fn lemma_cell_in_bounds(x: nat, y: nat, width: nat, height: nat)
    requires
        x < width,
        y < height,
    ensures
        y * width + x < width * height,
{
    assert(y * width + x < width * height) by (nonlinear_arith)
        requires
            x < width,
            y < height,
    ;
}

/// A row-major raster of colours whose area stays within `MAX_PIXELS`.
pub struct Canvas {
    width: u32,
    height: u32,
    pixels: Vec<Rgba>,
}

impl Canvas {
    pub closed spec fn spec_width(&self) -> nat {
        self.width as nat
    }

    pub closed spec fn spec_height(&self) -> nat {
        self.height as nat
    }

    /// The pixels, row after row.
    pub closed spec fn spec_pixels(&self) -> Seq<Rgba> {
        self.pixels@
    }

    pub open spec fn wf(&self) -> bool {
        &&& self.spec_width() * self.spec_height() <= MAX_PIXELS
        &&& self.spec_pixels().len() == self.spec_width() * self.spec_height()
    }

    /// Position of pixel `(x, y)` among the pixels.
    pub open spec fn cell(&self, x: nat, y: nat) -> int {
        (y * self.spec_width() + x) as int
    }

    /// A canvas sized for a display of `display_width` by
    /// `display_height` (see `fit_to_budget`), every pixel set to `fill`.
    pub fn for_display(display_width: u32, display_height: u32, fill: Rgba) -> (c: Canvas)
        ensures
            c.wf(),
            (c.spec_width(), c.spec_height()) == fitted(display_width as nat, display_height as nat),
            c.spec_pixels() == Seq::new(c.spec_width() * c.spec_height(), |_i: int| fill),
    {
        let (w, h) = fit_to_budget(display_width, display_height);
        let area: usize = ((w as u64) * (h as u64)) as usize;
        let mut pixels: Vec<Rgba> = Vec::new();
        let mut i: usize = 0;
        while i < area
            invariant
                i <= area,
                area == w * h,
                pixels@ == Seq::new(i as nat, |_i: int| fill),
            decreases area - i,
        {
            pixels.push(fill);
            i = i + 1;
            proof {
                assert(pixels@ =~= Seq::new(i as nat, |_i: int| fill));
            }
        }
        Canvas { width: w, height: h, pixels }
    }

    pub fn width(&self) -> (r: u32)
        ensures
            r == self.spec_width(),
    {
        self.width
    }

    pub fn height(&self) -> (r: u32)
        ensures
            r == self.spec_height(),
    {
        self.height
    }

    /// Whether the canvas has no pixel at all, so that a frame has nothing
    /// to draw.
    pub fn is_empty(&self) -> (r: bool)
        requires
            self.wf(),
        ensures
            r == (self.spec_pixels().len() == 0),
            r == (self.spec_width() == 0 || self.spec_height() == 0),
    {
        proof {
            if self.spec_width() != 0 && self.spec_height() != 0 {
                lemma_cell_in_bounds(0, 0, self.spec_width(), self.spec_height());
            }
        }
        self.pixels.len() == 0
    }

    /// The colour of pixel `(x, y)`.
    pub fn pixel(&self, x: u32, y: u32) -> (c: Rgba)
        requires
            self.wf(),
            x < self.spec_width(),
            y < self.spec_height(),
        ensures
            c == self.spec_pixels()[self.cell(x as nat, y as nat)],
    {
        proof {
            lemma_cell_in_bounds(x as nat, y as nat, self.spec_width(), self.spec_height());
        }
        self.pixels[(y as usize) * (self.width as usize) + (x as usize)]
    }

    /// Sets pixel `(x, y)` to `c` and leaves the others as they were.
    pub fn set_pixel(&mut self, x: u32, y: u32, c: Rgba)
        requires
            old(self).wf(),
            x < old(self).spec_width(),
            y < old(self).spec_height(),
        ensures
            final(self).wf(),
            final(self).spec_width() == old(self).spec_width(),
            final(self).spec_height() == old(self).spec_height(),
            final(self).spec_pixels() == old(self).spec_pixels().update(
                old(self).cell(x as nat, y as nat),
                c,
            ),
    {
        proof {
            lemma_cell_in_bounds(x as nat, y as nat, self.spec_width(), self.spec_height());
        }
        let k = (y as usize) * (self.width as usize) + (x as usize);
        self.pixels.set(k, c);
    }

    /// The pixels as RGBA bytes, ready to upload as a texture.
    pub fn to_rgba_bytes(&self) -> (r: Vec<u8>)
        requires
            self.wf(),
        ensures
            r@ == rgba_bytes(self.spec_pixels()),
    {
        let n = self.pixels.len();
        let mut out: Vec<u8> = Vec::new();
        let mut i: usize = 0;
        while i < n
            invariant
                n == self.spec_pixels().len(),
                n <= MAX_PIXELS,
                i <= n,
                out@.len() == 4 * i,
                forall|k: int| 0 <= k < 4 * i ==> #[trigger] out@[k] == channel(self.spec_pixels()[k / 4], k % 4),
            decreases n - i,
        {
            let p = self.pixels[i];
            out.push(p.r);
            out.push(p.g);
            out.push(p.b);
            out.push(p.a);
            i = i + 1;
        }
        proof {
            assert(out@ =~= rgba_bytes(self.spec_pixels()));
        }
        out
    }
}

} // verus!
