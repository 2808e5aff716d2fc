//! The logical pixel buffer: a row-major grid, origin top-left, holding
//! exactly `width * height` entries.
//!
//! The grid is generic in the pixel type: the runtime resizes and hands
//! the storage around without ever reading a pixel's channels, and the
//! shell instantiates it with its concrete (float-channel) pixel type.

use vstd::prelude::*;

verus! {

/// A logical pixel buffer of `width * height` entries, row-major with the
/// origin in the upper left: entry `x + y * width` is the `x`-th pixel of
/// the `y`-th row.
pub struct PixelGrid<P> {
    /// The pixel storage.  The shell hands this buffer to the program's
    /// `render`, which fills it in place without changing its length.
    pub pixels: Vec<P>,
    /// Logical width in pixels; changed only by `resize`.
    pub width: usize,
    /// Logical height in pixels; changed only by `resize`.
    pub height: usize,
}

impl<P: Copy> PixelGrid<P> {
    /// Logical width in pixels.
    pub open spec fn width(self) -> usize {
        self.width
    }

    /// Logical height in pixels.
    pub open spec fn height(self) -> usize {
        self.height
    }

    /// The grid invariant: the storage holds exactly one entry per pixel.
    pub open spec fn wf(self) -> bool {
        self.pixels@.len() == self.width() * self.height()
    }

    /// An empty grid of size 0 by 0.
    pub fn new() -> (grid: PixelGrid<P>)
        ensures
            grid.wf(),
            grid.width() == 0,
            grid.height() == 0,
            grid.pixels@.len() == 0,
    {
        PixelGrid { pixels: Vec::new(), width: 0, height: 0 }
    }

    /// The logical dimensions.
    pub fn dimensions(&self) -> (d: (usize, usize))
        ensures
            d == (self.width(), self.height()),
    {
        (self.width, self.height)
    }

    /// Resize the grid to the given dimensions.  When the required entry
    /// count is unchanged the storage is left exactly as it is; otherwise
    /// it is truncated or grown to the exact count, surviving entries kept
    /// and new entries filled with `default`.
    pub fn resize(&mut self, width: usize, height: usize, default: P)
        requires
            width * height <= usize::MAX,
        ensures
            final(self).wf(),
            final(self).width() == width,
            final(self).height() == height,
            final(self).pixels@.len() == width * height,
            old(self).pixels@.len() == width * height ==> final(self).pixels@ == old(self).pixels@,
            forall|i: int|
                0 <= i < old(self).pixels@.len() && i < width * height ==> final(self).pixels@[i] == old(self).pixels@[i],
            forall|i: int|
                old(self).pixels@.len() <= i < width * height ==> final(self).pixels@[i]
                    == default,
    {
        let count = width * height;
        if self.pixels.len() != count {
            self.pixels.truncate(count);
            while self.pixels.len() < count
                invariant
                    self.pixels@.len() <= count,
                    old(self).pixels@.len() < count ==> self.pixels@.len() >= old(self).pixels@.len(),
                    old(self).pixels@.len() >= count ==> self.pixels@.len() == count,
                    forall|i: int|
                        0 <= i < old(self).pixels@.len() && i < self.pixels@.len() ==> #[trigger] self.pixels@[i] == old(self).pixels@[i],
                    forall|i: int|
                        old(self).pixels@.len() <= i < self.pixels@.len()
                            ==> #[trigger] self.pixels@[i] == default,
                decreases count - self.pixels@.len(),
            {
                self.pixels.push(default);
            }
        }
        self.width = width;
        self.height = height;
    }
}

} // verus!
