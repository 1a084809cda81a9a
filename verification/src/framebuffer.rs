//! A row-major buffer of RGBA pixels.

use vstd::prelude::*;

verus! {

/// The pixel every slot of a fresh buffer holds: opaque black.
pub open spec fn blank_pixel() -> Seq<u8> {
    seq![0u8, 0u8, 0u8, 255u8]
}

/// A `width` by `height` image, one `[r, g, b, a]` quadruple per pixel,
/// rows stored one after another from the top.
pub struct Framebuffer {
    pub width: usize,
    pub height: usize,
    pub pixels: Vec<[u8; 4]>,
}

impl Framebuffer {
    /// The buffer holds exactly one slot per pixel.
    pub open spec fn wf(&self) -> bool {
        self.pixels@.len() == self.width * self.height
    }

    /// The slot of pixel `(x, y)` in row-major order.
    pub open spec fn slot(&self, x: int, y: int) -> int {
        y * self.width + x
    }

    /// A buffer of the given size, every pixel opaque black.
    pub fn new(width: usize, height: usize) -> (fb: Self)
        requires
            width * height <= usize::MAX,
        ensures
            fb.width == width,
            fb.height == height,
            fb.wf(),
            forall|i: int| 0 <= i < width * height ==> (#[trigger] fb.pixels@[i])@ == blank_pixel(),
    {
        let blank: [u8; 4] = [0, 0, 0, 255];
        let fb = Framebuffer { width, height, pixels: vec![blank; width * height] };
        assert forall|i: int| 0 <= i < width * height implies (#[trigger] fb.pixels@[i])@
            == blank_pixel() by {
            assert(cloned(blank, fb.pixels@[i]));
            assert(fb.pixels@[i]@ =~= blank_pixel());
        }
        fb
    }

    /// Stores `color` in the slot of pixel `(x, y)` and leaves every other
    /// slot, and the size, as it was.
    pub fn set_pixel(&mut self, x: usize, y: usize, color: [u8; 4])
        requires
            old(self).slot(x as int, y as int) < old(self).pixels@.len(),
        ensures
            final(self).width == old(self).width,
            final(self).height == old(self).height,
            final(self).pixels@ == old(self).pixels@.update(old(self).slot(x as int, y as int), color),
    {
        proof {
            let w = self.width as int;
            assert(0 <= y * w) by (nonlinear_arith)
                requires
                    0 <= y,
                    0 <= w,
            ;
            assert(self.pixels@.len() == self.pixels.len());
        }
        let idx: usize = y * self.width + x;
        self.pixels[idx] = color;
    }
}

/// Every pixel inside the image has a slot inside the buffer.
pub proof fn lemma_slot_in_bounds(frame: Framebuffer, x: int, y: int)
    requires
        frame.wf(),
        0 <= x < frame.width,
        0 <= y < frame.height,
    ensures
        0 <= frame.slot(x, y) < frame.pixels@.len(),
{
    let w = frame.width as int;
    let h = frame.height as int;
    assert(0 <= y * w && y * w + w <= h * w) by (nonlinear_arith)
        requires
            0 <= y < h,
            0 <= w,
    ;
}

/// Slots run in raster order: two pixels inside the image share a slot only
/// if they are the same pixel, and a pixel further down or, in the same row,
/// further right has the larger slot.
pub proof fn lemma_slot_is_raster_order(frame: Framebuffer, x1: int, y1: int, x2: int, y2: int)
    requires
        0 <= x1 < frame.width,
        0 <= x2 < frame.width,
        0 <= y1,
        0 <= y2,
    ensures
        frame.slot(x1, y1) < frame.slot(x2, y2) <==> (y1 < y2 || (y1 == y2 && x1 < x2)),
        frame.slot(x1, y1) == frame.slot(x2, y2) <==> (x1 == x2 && y1 == y2),
{
    let w = frame.width as int;
    if y1 < y2 {
        assert(y1 * w + w <= y2 * w) by (nonlinear_arith)
            requires
                y1 < y2,
                0 <= w,
        ;
    } else if y2 < y1 {
        assert(y2 * w + w <= y1 * w) by (nonlinear_arith)
            requires
                y2 < y1,
                0 <= w,
        ;
    }
}

} // verus!
