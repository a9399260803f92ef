//! What drawing needs: the surface drawn on and the fonts.

use vstd::prelude::*;
use crate::font::{FontFactory, FontLoader};
use crate::image::{ImageSize, ImageViewMut};

verus! {

/// The surface drawn on and the font factory that draws text.
pub struct DrawContext<L: FontLoader> {
    pub buffer: ImageViewMut<u32>,
    pub font_factory: FontFactory<L>,
}

impl<L: FontLoader> DrawContext<L> {
    /// Narrows the surface's window to its part from `left_top` to `right_bottom`; gives the
    /// window it had, for `ImageViewMut::restore_window`.
    pub fn window(&mut self, left_top: ImageSize, right_bottom: ImageSize) -> (r: (ImageSize, ImageSize))
        requires
            left_top.0 <= right_bottom.0 <= old(self).buffer.spec_size().0,
            left_top.1 <= right_bottom.1 <= old(self).buffer.spec_size().1,
        ensures
            r == (old(self).buffer.spec_left_top(), old(self).buffer.spec_size()),
            final(self).buffer.spec_image() == old(self).buffer.spec_image(),
            final(self).buffer.spec_left_top() == (
                (old(self).buffer.spec_left_top().0 + left_top.0) as usize,
                (old(self).buffer.spec_left_top().1 + left_top.1) as usize,
            ),
            final(self).buffer.spec_size() == (
                (right_bottom.0 - left_top.0) as usize,
                (right_bottom.1 - left_top.1) as usize,
            ),
            final(self).font_factory == old(self).font_factory,
    {
        self.buffer.window_mut(left_top, right_bottom)
    }
}

} // verus!
