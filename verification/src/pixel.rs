//! Pixel buffers: a grid of RGBA pixels, stored row by row.

use vstd::prelude::*;

verus! {

/// One pixel: red, green, blue and alpha. An alpha of zero means that the
/// pixel is fully transparent.
#[derive(Clone, Copy, Debug, PartialEq, Eq, Structural)]
pub struct Rgba {
    pub r: u8,
    pub g: u8,
    pub b: u8,
    pub a: u8,
}

/// The mathematical content of a [`PixelBuffer`]: its size and its bytes,
/// four for each pixel, the rows from top to bottom and each row from left to
/// right.
pub struct Grid {
    pub width: nat,
    pub height: nat,
    pub data: Seq<u8>,
}

impl Grid {
    /// The bytes are exactly those of `width * height` pixels, and both
    /// sides fit in 32 bits.
    pub open spec fn wf(self) -> bool {
        &&& self.width <= u32::MAX
        &&& self.height <= u32::MAX
        &&& self.data.len() == 4 * (self.width * self.height)
    }

    /// Where the pixel in column `x` of row `y` begins in the bytes.
    pub open spec fn offset(self, x: int, y: int) -> int {
        4 * (y * self.width + x)
    }

    /// The pixel in column `x` of row `y`.
    pub open spec fn pixel(self, x: int, y: int) -> Rgba {
        let at: int = self.offset(x, y);
        Rgba {
            r: self.data[at],
            g: self.data[at + 1],
            b: self.data[at + 2],
            a: self.data[at + 3],
        }
    }

    /// Whether `(x, y)` is a place in the grid.
    pub open spec fn holds(self, x: int, y: int) -> bool {
        0 <= x < self.width && 0 <= y < self.height
    }

    /// No pixel is transparent.
    pub open spec fn opaque(self) -> bool {
        forall|x: int, y: int| self.holds(x, y) ==> (#[trigger] self.pixel(x, y)).a != 0
    }

    /// Every pixel is transparent.
    pub open spec fn transparent(self) -> bool {
        forall|x: int, y: int| self.holds(x, y) ==> (#[trigger] self.pixel(x, y)).a == 0
    }

    /// The grid without its bottom row.
    pub open spec fn without_last_row(self) -> Grid {
        Grid {
            width: self.width,
            height: (self.height - 1) as nat,
            data: self.data.take(4 * (self.width * (self.height - 1))),
        }
    }
}

/// Every pixel of a well-formed grid lies wholly inside its bytes.
pub proof fn lemma_pixel_in_bounds(g: Grid, x: int, y: int)
    requires
        g.wf(),
        g.holds(x, y),
    ensures
        0 <= g.offset(x, y),
        g.offset(x, y) + 4 <= g.data.len(),
        y * g.width + x < g.width * g.height,
{
    let w: int = g.width as int;
    let h: int = g.height as int;
    assert(y * w + x < w * h) by (nonlinear_arith)
        requires
            0 <= x < w,
            0 <= y < h,
    ;
    assert(0 <= y * w) by (nonlinear_arith)
        requires
            0 <= y,
            0 <= w,
    ;
}

/// A grid of RGBA pixels that never changes once it is made.
#[derive(Debug)]
pub struct PixelBuffer {
    width: u32,
    height: u32,
    data: Vec<u8>,
}

impl View for PixelBuffer {
    type V = Grid;

    closed spec fn view(&self) -> Grid {
        Grid { width: self.width as nat, height: self.height as nat, data: self.data@ }
    }
}

impl PixelBuffer {
    #[verifier::type_invariant]
    pub open spec fn inv(self) -> bool {
        self@.wf()
    }

    /// A buffer of `width` by `height` pixels over `data`, or `None` when
    /// `data` is not exactly four bytes for each pixel.
    pub fn from_raw(width: u32, height: u32, data: Vec<u8>) -> (buffer: Option<PixelBuffer>)
        ensures
            buffer is Some <==> data@.len() == 4 * (width * height),
            buffer matches Some(b) ==> b@ == (Grid {
                width: width as nat,
                height: height as nat,
                data: data@,
            }) && b@.wf(),
    {
        assert(width * height <= 0xffff_ffff * 0xffff_ffff) by (nonlinear_arith)
            requires
                width <= 0xffff_ffff,
                height <= 0xffff_ffff,
        ;
        let need: u128 = 4 * ((width as u128) * (height as u128));
        if data.len() as u128 == need {
            Some(PixelBuffer { width, height, data })
        } else {
            None
        }
    }

    /// The number of pixels in a row.
    pub fn width(&self) -> (w: u32)
        ensures
            w == self@.width,
    {
        self.width
    }

    /// The number of rows.
    pub fn height(&self) -> (h: u32)
        ensures
            h == self@.height,
    {
        self.height
    }

    /// The bytes of the buffer, four for each pixel.
    pub fn as_raw(&self) -> (data: &[u8])
        ensures
            data@ == self@.data,
            self@.wf(),
    {
        proof {
            use_type_invariant(self);
        }
        self.data.as_slice()
    }

    /// The pixel in column `x` of row `y`.
    pub fn get_pixel(&self, x: u32, y: u32) -> (p: Rgba)
        requires
            self@.holds(x as int, y as int),
        ensures
            p == self@.pixel(x as int, y as int),
    {
        proof {
            use_type_invariant(self);
            lemma_pixel_in_bounds(self@, x as int, y as int);
            let w: int = self.width as int;
            let h: int = self.height as int;
            assert(0 <= (y as int) * w && (y as int) * w + x < w * h) by (nonlinear_arith)
                requires
                    0 <= x < w,
                    0 <= y < h,
            ;
            assert(self.data@.len() == 4 * (w * h));
            assert(self.data.len() == self.data@.len());
            assert(self@.offset(x as int, y as int) == 4 * ((y as int) * w + x));
        }
        let at: usize = 4 * ((y as usize) * (self.width as usize) + (x as usize));
        Rgba { r: self.data[at], g: self.data[at + 1], b: self.data[at + 2], a: self.data[at + 3] }
    }
}

} // verus!
