//! The 64x32 monochrome framebuffer.
//!
//! Pixels are stored row-major: the pixel at column `c`, row `r` sits at
//! index `c + r * SCREEN_WIDTH`.  The engine toggles pixels through XOR when
//! sprites are drawn; an external display adapter reads the grid and renders
//! it at whatever scale and colors it likes.

use vstd::prelude::*;

verus! {

use vstd::pervasive::VecAdditionalExecFns;

/// Width of the display, in pixels.
pub const SCREEN_WIDTH: usize = 64;

/// Height of the display, in pixels.
pub const SCREEN_HEIGHT: usize = 32;

/// Number of pixels in the display.
pub const NUM_PIXELS: usize = 2048;

/// A 64x32 grid of on/off pixels, indexed row-major.
pub struct Screen {
    pixels: Vec<bool>,
}

impl View for Screen {
    type V = Seq<bool>;

    closed spec fn view(&self) -> Seq<bool> {
        self.pixels@
    }
}

impl Screen {
    /// The framebuffer is always exactly 64x32 pixels.
    pub open spec fn wf(&self) -> bool {
        self@.len() == NUM_PIXELS
    }

    /// A fresh framebuffer with every pixel off.
    pub fn new() -> (s: Screen)
        ensures
            s.wf(),
            s@ == Seq::new(NUM_PIXELS as nat, |p: int| false),
    {
        let mut pixels: Vec<bool> = Vec::new();
        while pixels.len() < NUM_PIXELS
            invariant
                pixels@.len() <= NUM_PIXELS,
                forall|p: int| 0 <= p < pixels@.len() ==> !pixels@[p],
            decreases NUM_PIXELS - pixels@.len(),
        {
            pixels.push(false);
        }
        let s = Screen { pixels };
        proof {
            assert(s@ =~= Seq::new(NUM_PIXELS as nat, |p: int| false));
        }
        s
    }

    /// Turn every pixel off.
    pub fn clear_screen(&mut self)
        requires
            old(self).wf(),
        ensures
            final(self).wf(),
            final(self)@ == Seq::new(NUM_PIXELS as nat, |p: int| false),
    {
        let mut i: usize = 0;
        while i < self.pixels.len()
            invariant
                self.pixels@.len() == NUM_PIXELS,
                i <= self.pixels@.len(),
                forall|p: int| 0 <= p < i ==> !self.pixels@[p],
            decreases self.pixels@.len() - i,
        {
            self.pixels.set(i, false);
            i = i + 1;
        }
        proof {
            assert(self@ =~= Seq::new(NUM_PIXELS as nat, |p: int| false));
        }
    }

    /// Read one pixel.
    pub fn get_pixel(&self, idx: usize) -> (on: bool)
        requires
            idx < self@.len(),
        ensures
            on == self@[idx as int],
    {
        self.pixels[idx]
    }

    /// Write one pixel.
    pub fn set_pixel(&mut self, idx: usize, on: bool)
        requires
            idx < old(self)@.len(),
        ensures
            final(self)@ == old(self)@.update(idx as int, on),
    {
        self.pixels.set(idx, on);
    }
}

} // verus!
