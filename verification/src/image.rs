//! Images stored row by row, read-only windows into them, and a drawing surface that can be
//! narrowed to a window, filled and drawn on with clipping.

use vstd::prelude::*;

verus! {

/// Width and height of an image, or a position inside one.
pub type ImageSize = (usize, usize);

/// A signed position, which may lie outside the image it refers to.
pub type Position = (i32, i32);

/// Reinterprets a signed position as an image size (a negative coordinate wraps as `as` does).
pub fn position_to_image_size(position: Position) -> (r: ImageSize)
    ensures
        r.0 == position.0 as usize,
        r.1 == position.1 as usize,
{
    (position.0 as usize, position.1 as usize)
}

/// Reinterprets an image size as a signed position (a coordinate above `i32::MAX` wraps as
/// `as` does).
pub fn image_size_to_position(image_size: ImageSize) -> (r: Position)
    ensures
        r.0 == image_size.0 as i32,
        r.1 == image_size.1 as i32,
{
    (image_size.0 as i32, image_size.1 as i32)
}

/// Whether `(x, y)` lies in an image of the given size.
pub open spec fn in_size(size: ImageSize, x: int, y: int) -> bool {
    0 <= x < size.0 && 0 <= y < size.1
}

/// Whether `(x, y)` lies in the window of size `size` whose left-top corner is `left_top`.
pub open spec fn in_window(left_top: ImageSize, size: ImageSize, x: int, y: int) -> bool {
    left_top.0 <= x < left_top.0 + size.0 && left_top.1 <= y < left_top.1 + size.1
}

proof fn lemma_pixel_index(x: int, y: int, w: int, h: int)
    requires
        0 <= x < w,
        0 <= y < h,
    ensures
        0 <= y * w + x < w * h,
{
    assert(0 <= y * w + x < w * h) by (nonlinear_arith)
        requires
            0 <= x < w,
            0 <= y < h,
    ;
}

proof fn lemma_pixel_index_injective(x1: int, y1: int, x2: int, y2: int, w: int)
    requires
        0 <= x1 < w,
        0 <= x2 < w,
        0 <= y1,
        0 <= y2,
        y1 * w + x1 == y2 * w + x2,
    ensures
        x1 == x2,
        y1 == y2,
{
    if y1 < y2 {
        assert(y1 * w + w <= y2 * w) by (nonlinear_arith)
            requires
                y1 < y2,
                0 < w,
        ;
    } else if y2 < y1 {
        assert(y2 * w + w <= y1 * w) by (nonlinear_arith)
            requires
                y2 < y1,
                0 < w,
        ;
    }
}

/// An image of `size.0` columns and `size.1` rows, stored row by row.
pub struct Image<Pixel> {
    data: Vec<Pixel>,
    size: ImageSize,
}

impl<Pixel> Image<Pixel> {
    #[verifier::type_invariant]
    spec fn inv(self) -> bool {
        self.data.len() == self.size.0 * self.size.1
    }

    /// The image's width and height.
    pub closed spec fn spec_size(&self) -> ImageSize {
        self.size
    }

    /// The pixel in column `x` of row `y`.
    pub closed spec fn spec_at(&self, x: int, y: int) -> Pixel {
        self.data@[y * self.size.0 + x]
    }

    /// The pixels row by row.
    pub closed spec fn spec_pixels(&self) -> Seq<Pixel> {
        self.data@
    }

    fn empty() -> (r: Self)
        ensures
            r.spec_size() == (0usize, 0usize),
    {
        Image { data: Vec::new(), size: (0, 0) }
    }

    /// A new image of the given size whose every pixel is `Pixel::default()`.
    pub fn new(size: ImageSize) -> (r: Self) where Pixel: Default
        requires
            size.0 * size.1 <= usize::MAX,
        ensures
            r.spec_size() == size,
            forall|x: int, y: int|
                #![trigger r.spec_at(x, y)]
                in_size(size, x, y) ==> call_ensures(Pixel::default, (), r.spec_at(x, y)),
    {
        let n = size.0 * size.1;
        let mut data: Vec<Pixel> = Vec::new();
        let mut i: usize = 0;
        while i < n
            invariant
                i <= n,
                data.len() == i,
                forall|j: int| 0 <= j < i ==> call_ensures(Pixel::default, (), #[trigger] data@[j]),
            decreases n - i,
        {
            data.push(Pixel::default());
            i += 1;
        }
        let r = Image { data, size };
        proof {
            assert forall|x: int, y: int|
                #![trigger r.spec_at(x, y)]
                in_size(size, x, y) implies call_ensures(Pixel::default, (), r.spec_at(x, y)) by {
                lemma_pixel_index(x, y, size.0 as int, size.1 as int);
            }
        }
        r
    }

    /// The image's width and height.
    pub fn get_size(&self) -> (r: ImageSize)
        ensures
            r == self.spec_size(),
            self.spec_pixels().len() == r.0 * r.1,
    {
        proof {
            use_type_invariant(self);
        }
        self.size
    }

    /// The pixels row by row.
    pub fn get_data(&self) -> (r: &[Pixel])
        ensures
            r@ == self.spec_pixels(),
            forall|x: int, y: int|
                #![trigger self.spec_at(x, y)]
                in_size(self.spec_size(), x, y) ==> r@[y * self.spec_size().0 + x] == self.spec_at(x, y),
    {
        self.data.as_slice()
    }

    /// A read-only view of the whole image.
    pub fn as_view(&self) -> (r: ImageView<'_, Pixel>)
        ensures
            *r.spec_image() == *self,
            r.spec_left_top() == (0usize, 0usize),
            r.spec_size() == self.spec_size(),
    {
        ImageView { image: self, left_top: (0, 0), size: self.size }
    }

    /// A drawing surface over the whole image, which it owns until `into_image`.
    pub fn view_mut(self) -> (r: ImageViewMut<Pixel>)
        ensures
            r.spec_image() == self,
            r.spec_left_top() == (0usize, 0usize),
            r.spec_size() == self.spec_size(),
    {
        let size = self.size;
        ImageViewMut { image: self, left_top: (0, 0), size }
    }
}

impl<Pixel: Copy> Image<Pixel> {
    /// A copy of the image.
    pub fn duplicate(&self) -> (r: Self)
        ensures
            r.spec_size() == self.spec_size(),
            r.spec_pixels() == self.spec_pixels(),
    {
        proof {
            use_type_invariant(self);
        }
        let mut data: Vec<Pixel> = Vec::new();
        let mut i: usize = 0;
        while i < self.data.len()
            invariant
                i <= self.data.len(),
                data@ == self.data@.take(i as int),
            decreases self.data.len() - i,
        {
            data.push(self.data[i]);
            i += 1;
        }
        assert(data@ == self.data@);
        Image { data, size: self.size }
    }

    /// The pixel in column `x` of row `y`.
    pub fn get(&self, x: usize, y: usize) -> (r: Pixel)
        requires
            in_size(self.spec_size(), x as int, y as int),
        ensures
            r == self.spec_at(x as int, y as int),
    {
        proof {
            use_type_invariant(self);
            lemma_pixel_index(x as int, y as int, self.size.0 as int, self.size.1 as int);
        }
        self.data[y * self.size.0 + x]
    }

    /// Replaces the pixel in column `x` of row `y`; every other pixel stays.
    pub fn set(&mut self, x: usize, y: usize, pixel: Pixel)
        requires
            in_size(old(self).spec_size(), x as int, y as int),
        ensures
            final(self).spec_size() == old(self).spec_size(),
            forall|xx: int, yy: int|
                #![trigger final(self).spec_at(xx, yy)]
                in_size(old(self).spec_size(), xx, yy) ==> final(self).spec_at(xx, yy) == if xx
                    == x && yy == y {
                    pixel
                } else {
                    old(self).spec_at(xx, yy)
                },
    {
        proof {
            use_type_invariant(&*self);
            lemma_pixel_index(x as int, y as int, self.size.0 as int, self.size.1 as int);
        }
        let ghost before = *self;
        let mut tmp = Image::empty();
        std::mem::swap(self, &mut tmp);
        let Image { mut data, size } = tmp;
        data.set(y * size.0 + x, pixel);
        *self = Image { data, size };
        proof {
            assert forall|xx: int, yy: int|
                #![trigger self.spec_at(xx, yy)]
                in_size(before.spec_size(), xx, yy) implies self.spec_at(xx, yy) == if xx == x
                && yy == y {
                pixel
            } else {
                before.spec_at(xx, yy)
            } by {
                lemma_pixel_index(xx, yy, size.0 as int, size.1 as int);
                if yy * size.0 + xx == y * size.0 + x {
                    lemma_pixel_index_injective(xx, yy, x as int, y as int, size.0 as int);
                }
            }
        }
    }
}

/// A read-only window of size `size` into an image, with its left-top corner at `left_top`.
pub struct ImageView<'i, Pixel> {
    image: &'i Image<Pixel>,
    left_top: ImageSize,
    size: ImageSize,
}

impl<'i, Pixel> ImageView<'i, Pixel> {
    #[verifier::type_invariant]
    spec fn inv(self) -> bool {
        &&& self.left_top.0 + self.size.0 <= self.image.size.0
        &&& self.left_top.1 + self.size.1 <= self.image.size.1
    }

    /// The image the window looks into.
    pub closed spec fn spec_image(&self) -> &'i Image<Pixel> {
        self.image
    }

    /// The window's left-top corner in the image.
    pub closed spec fn spec_left_top(&self) -> ImageSize {
        self.left_top
    }

    /// The window's width and height.
    pub closed spec fn spec_size(&self) -> ImageSize {
        self.size
    }

    /// The pixel in column `x` of row `y` of the window.
    pub open spec fn spec_at(&self, x: int, y: int) -> Pixel {
        self.spec_image().spec_at(self.spec_left_top().0 + x, self.spec_left_top().1 + y)
    }

    /// The window's width and height; the window lies inside its image.
    pub fn get_size(&self) -> (r: ImageSize)
        ensures
            r == self.spec_size(),
            self.spec_left_top().0 + r.0 <= self.spec_image().spec_size().0,
            self.spec_left_top().1 + r.1 <= self.spec_image().spec_size().1,
    {
        proof {
            use_type_invariant(self);
        }
        self.size
    }

    /// The part of this window from `left_top` (included) to `right_bottom` (excluded).
    pub fn window(&self, left_top: ImageSize, right_bottom: ImageSize) -> (r: ImageView<'i, Pixel>)
        requires
            left_top.0 <= right_bottom.0 <= self.spec_size().0,
            left_top.1 <= right_bottom.1 <= self.spec_size().1,
        ensures
            r.spec_image() == self.spec_image(),
            r.spec_left_top() == (
                (self.spec_left_top().0 + left_top.0) as usize,
                (self.spec_left_top().1 + left_top.1) as usize,
            ),
            r.spec_size() == (
                (right_bottom.0 - left_top.0) as usize,
                (right_bottom.1 - left_top.1) as usize,
            ),
    {
        proof {
            use_type_invariant(self);
        }
        ImageView {
            image: self.image,
            left_top: (self.left_top.0 + left_top.0, self.left_top.1 + left_top.1),
            size: (right_bottom.0 - left_top.0, right_bottom.1 - left_top.1),
        }
    }
}

impl<'i, Pixel: Copy> ImageView<'i, Pixel> {
    /// The pixel in column `x` of row `y` of the window.
    pub fn get(&self, x: usize, y: usize) -> (r: Pixel)
        requires
            in_size(self.spec_size(), x as int, y as int),
        ensures
            r == self.spec_at(x as int, y as int),
    {
        proof {
            use_type_invariant(self);
        }
        self.image.get(self.left_top.0 + x, self.left_top.1 + y)
    }

    /// The pixels of row `y` of the window, from left to right.
    pub fn line(&self, y: usize) -> (r: Vec<Pixel>)
        requires
            y < self.spec_size().1,
        ensures
            r.len() == self.spec_size().0,
            forall|x: int| 0 <= x < r.len() ==> #[trigger] r@[x] == self.spec_at(x, y as int),
    {
        let mut r: Vec<Pixel> = Vec::new();
        let mut x: usize = 0;
        while x < self.size.0
            invariant
                x <= self.spec_size().0,
                r.len() == x,
                y < self.spec_size().1,
                forall|xx: int| 0 <= xx < x ==> #[trigger] r@[xx] == self.spec_at(xx, y as int),
            decreases self.spec_size().0 - x,
        {
            r.push(self.get(x, y));
            x += 1;
        }
        r
    }

    /// The rows `first` (included) to `last` (excluded) of the window, each from left to right.
    pub fn lines(&self, first: usize, last: usize) -> (r: Vec<Vec<Pixel>>)
        requires
            first <= last <= self.spec_size().1,
        ensures
            r.len() == last - first,
            forall|i: int|
                #![trigger r@[i]]
                0 <= i < r.len() ==> r@[i].len() == self.spec_size().0 && forall|x: int|
                    0 <= x < self.spec_size().0 ==> #[trigger] r@[i]@[x] == self.spec_at(
                        x,
                        first + i,
                    ),
    {
        let mut r: Vec<Vec<Pixel>> = Vec::new();
        let mut y: usize = first;
        while y < last
            invariant
                first <= y <= last,
                last <= self.spec_size().1,
                r.len() == y - first,
                forall|i: int|
                    #![trigger r@[i]]
                    0 <= i < r.len() ==> r@[i].len() == self.spec_size().0 && forall|x: int|
                        0 <= x < self.spec_size().0 ==> #[trigger] r@[i]@[x] == self.spec_at(
                            x,
                            first + i,
                        ),
            decreases last - y,
        {
            r.push(self.line(y));
            y += 1;
        }
        r
    }
}

/// What a drawing operation does to one destination pixel, given one source pixel.
pub trait PixelOp<Dst, Src> {
    /// The new destination pixel.
    spec fn spec_apply(&self, dst: Dst, src: Src) -> Dst;

    /// Computes the new destination pixel.
    fn apply(&self, dst: Dst, src: Src) -> (r: Dst)
        ensures
            r == self.spec_apply(dst, src),
    ;
}

/// What a fill that knows the coordinates does to the pixel at column `x` of row `y`.
pub trait CoordOp<Pixel> {
    /// The new pixel.
    spec fn spec_apply_at(&self, pixel: Pixel, x: usize, y: usize) -> Pixel;

    /// Computes the new pixel.
    fn apply_at(&self, pixel: Pixel, x: usize, y: usize) -> (r: Pixel)
        ensures
            r == self.spec_apply_at(pixel, x, y),
    ;
}

/// Copies the source pixel.
pub struct CopyPixel;

impl<P: Copy> PixelOp<P, P> for CopyPixel {
    open spec fn spec_apply(&self, dst: P, src: P) -> P {
        src
    }

    fn apply(&self, dst: P, src: P) -> (r: P) {
        src
    }
}

/// Writes the given pixel whatever was there.
pub struct SetPixel<P>(pub P);

impl<P: Copy> PixelOp<P, ()> for SetPixel<P> {
    open spec fn spec_apply(&self, dst: P, src: ()) -> P {
        self.0
    }

    fn apply(&self, dst: P, src: ()) -> (r: P) {
        self.0
    }
}

/// A drawing surface: an image it owns, and the window of it that drawing goes to.
pub struct ImageViewMut<Pixel> {
    image: Image<Pixel>,
    left_top: ImageSize,
    size: ImageSize,
}

/// `after` differs from `before` at most inside `before`'s window: same image size, same
/// window, same pixels elsewhere.
pub open spec fn same_outside<Pixel>(before: &ImageViewMut<Pixel>, after: &ImageViewMut<Pixel>) -> bool {
    &&& after.spec_image().spec_size() == before.spec_image().spec_size()
    &&& after.spec_left_top() == before.spec_left_top()
    &&& after.spec_size() == before.spec_size()
    &&& forall|x: int, y: int|
        #![trigger after.spec_image().spec_at(x, y)]
        in_size(before.spec_image().spec_size(), x, y) && !in_window(
            before.spec_left_top(),
            before.spec_size(),
            x,
            y,
        ) ==> after.spec_image().spec_at(x, y) == before.spec_image().spec_at(x, y)
}

/// Leaving the pixels outside a window alone is kept by doing it twice.
pub proof fn lemma_same_outside_trans<Pixel>(
    a: &ImageViewMut<Pixel>,
    b: &ImageViewMut<Pixel>,
    c: &ImageViewMut<Pixel>,
)
    requires
        same_outside(a, b),
        same_outside(b, c),
    ensures
        same_outside(a, c),
{
    assert forall|x: int, y: int|
        #![trigger c.spec_image().spec_at(x, y)]
        in_size(a.spec_image().spec_size(), x, y) && !in_window(
            a.spec_left_top(),
            a.spec_size(),
            x,
            y,
        ) implies c.spec_image().spec_at(x, y) == a.spec_image().spec_at(x, y) by {
        assert(b.spec_image().spec_at(x, y) == a.spec_image().spec_at(x, y));
    }
}

/// Drawing in a part of the window and then setting the window back changes nothing
/// outside the window.
pub proof fn lemma_window_same_outside<Pixel>(
    before: &ImageViewMut<Pixel>,
    narrowed: &ImageViewMut<Pixel>,
    drawn: &ImageViewMut<Pixel>,
    restored: &ImageViewMut<Pixel>,
)
    requires
        narrowed.spec_image() == before.spec_image(),
        before.spec_left_top().0 <= narrowed.spec_left_top().0,
        before.spec_left_top().1 <= narrowed.spec_left_top().1,
        narrowed.spec_left_top().0 + narrowed.spec_size().0 <= before.spec_left_top().0
            + before.spec_size().0,
        narrowed.spec_left_top().1 + narrowed.spec_size().1 <= before.spec_left_top().1
            + before.spec_size().1,
        same_outside(narrowed, drawn),
        restored.spec_image() == drawn.spec_image(),
        restored.spec_left_top() == before.spec_left_top(),
        restored.spec_size() == before.spec_size(),
    ensures
        same_outside(before, restored),
{
    assert forall|x: int, y: int|
        #![trigger restored.spec_image().spec_at(x, y)]
        in_size(before.spec_image().spec_size(), x, y) && !in_window(
            before.spec_left_top(),
            before.spec_size(),
            x,
            y,
        ) implies restored.spec_image().spec_at(x, y) == before.spec_image().spec_at(x, y) by {
        assert(drawn.spec_image().spec_at(x, y) == narrowed.spec_image().spec_at(x, y));
    }
}

/// Whether the part of `view`'s window from `left_top` to `right_bottom` lies in it.
pub open spec fn fits<Pixel>(view: &ImageViewMut<Pixel>, left_top: ImageSize, right_bottom: ImageSize) -> bool {
    left_top.0 <= right_bottom.0 <= view.spec_size().0 && left_top.1 <= right_bottom.1
        <= view.spec_size().1
}

impl<Pixel> ImageViewMut<Pixel> {
    /// Whether the part of the window from `left_top` to `right_bottom` lies in it.
    pub fn fits(&self, left_top: ImageSize, right_bottom: ImageSize) -> (r: bool)
        ensures
            r == fits(self, left_top, right_bottom),
    {
        proof {
            use_type_invariant(self);
        }
        left_top.0 <= right_bottom.0 && right_bottom.0 <= self.size.0 && left_top.1 <= right_bottom.1
            && right_bottom.1 <= self.size.1
    }

    /// Applies `op` to the part of the window from `left_top` to `right_bottom`, if it lies in
    /// the window; nothing changes outside the window.
    pub fn fill_part<O: PixelOp<Pixel, ()>>(&mut self, left_top: ImageSize, right_bottom: ImageSize, op: &O)
        where Pixel: Copy
        ensures
            same_outside(old(self), final(self)),
            !fits(old(self), left_top, right_bottom) ==> *final(self) == *old(self),
            fits(old(self), left_top, right_bottom) ==> forall|x: int, y: int|
                #![trigger final(self).spec_at(x, y)]
                in_size(old(self).spec_size(), x, y) ==> final(self).spec_at(x, y) == if left_top.0
                    <= x < right_bottom.0 && left_top.1 <= y < right_bottom.1 {
                    op.spec_apply(old(self).spec_at(x, y), ())
                } else {
                    old(self).spec_at(x, y)
                },
    {
        if !self.fits(left_top, right_bottom) {
            return;
        }
        proof {
            use_type_invariant(&*self);
        }
        let ghost before = *self;
        let prev = self.window_mut(left_top, right_bottom);
        let ghost narrowed = *self;
        self.fill(op);
        let ghost drawn = *self;
        self.restore_window(prev);
        proof {
            lemma_window_same_outside(&before, &narrowed, &drawn, self);
            assert forall|x: int, y: int|
                #![trigger self.spec_at(x, y)]
                in_size(before.spec_size(), x, y) implies self.spec_at(x, y) == if left_top.0
                    <= x < right_bottom.0 && left_top.1 <= y < right_bottom.1 {
                    op.spec_apply(before.spec_at(x, y), ())
                } else {
                    before.spec_at(x, y)
                } by {
                if left_top.0 <= x < right_bottom.0 && left_top.1 <= y < right_bottom.1 {
                    assert(drawn.spec_at(x - left_top.0, y - left_top.1) == op.spec_apply(
                        narrowed.spec_at(x - left_top.0, y - left_top.1),
                        (),
                    ));
                } else {
                    let ax = before.spec_left_top().0 + x;
                    let ay = before.spec_left_top().1 + y;
                    assert(drawn.spec_image().spec_at(ax, ay) == narrowed.spec_image().spec_at(ax, ay));
                }
            }
        }
    }
}

impl<Pixel> ImageViewMut<Pixel> {
    #[verifier::type_invariant]
    spec fn inv(self) -> bool {
        &&& self.left_top.0 + self.size.0 <= self.image.size.0
        &&& self.left_top.1 + self.size.1 <= self.image.size.1
    }

    /// The image drawn on.
    pub closed spec fn spec_image(&self) -> Image<Pixel> {
        self.image
    }

    /// The window's left-top corner in the image.
    pub closed spec fn spec_left_top(&self) -> ImageSize {
        self.left_top
    }

    /// The window's width and height.
    pub closed spec fn spec_size(&self) -> ImageSize {
        self.size
    }

    /// The pixel in column `x` of row `y` of the window.
    pub open spec fn spec_at(&self, x: int, y: int) -> Pixel {
        self.spec_image().spec_at(self.spec_left_top().0 + x, self.spec_left_top().1 + y)
    }

    /// The part of the window from `left_top` (included) to `right_bottom` (excluded), as
    /// `window_mut` narrows it to.
    pub closed spec fn spec_window(&self, left_top: ImageSize, right_bottom: ImageSize) -> Self {
        ImageViewMut {
            image: self.image,
            left_top: ((self.left_top.0 + left_top.0) as usize, (self.left_top.1 + left_top.1) as usize),
            size: ((right_bottom.0 - left_top.0) as usize, (right_bottom.1 - left_top.1) as usize),
        }
    }

    /// An empty window on an empty image.
    fn empty() -> (r: Self)
        ensures
            r.spec_image().spec_size() == (0usize, 0usize),
            r.spec_left_top() == (0usize, 0usize),
            r.spec_size() == (0usize, 0usize),
    {
        ImageViewMut { image: Image::empty(), left_top: (0, 0), size: (0, 0) }
    }

    /// The window's width and height; the window lies inside the image.
    pub fn get_size(&self) -> (r: ImageSize)
        ensures
            r == self.spec_size(),
            self.spec_left_top().0 + r.0 <= self.spec_image().spec_size().0,
            self.spec_left_top().1 + r.1 <= self.spec_image().spec_size().1,
    {
        proof {
            use_type_invariant(self);
        }
        self.size
    }

    /// Gives the image back.
    pub fn into_image(self) -> (r: Image<Pixel>)
        ensures
            r == self.spec_image(),
    {
        self.image
    }

    /// A read-only view of the current window.
    pub fn as_view(&self) -> (r: ImageView<'_, Pixel>)
        ensures
            *r.spec_image() == self.spec_image(),
            r.spec_left_top() == self.spec_left_top(),
            r.spec_size() == self.spec_size(),
    {
        proof {
            use_type_invariant(self);
        }
        ImageView { image: &self.image, left_top: self.left_top, size: self.size }
    }

    /// The rows `first` (included) to `last` (excluded) of the window, each from left to right.
    pub fn lines(&self, first: usize, last: usize) -> (r: Vec<Vec<Pixel>>)
        where Pixel: Copy
        requires
            first <= last <= self.spec_size().1,
        ensures
            r.len() == last - first,
            forall|i: int|
                #![trigger r@[i]]
                0 <= i < r.len() ==> r@[i].len() == self.spec_size().0 && forall|x: int|
                    0 <= x < self.spec_size().0 ==> #[trigger] r@[i]@[x] == self.spec_at(x, first + i),
    {
        let v = self.as_view();
        v.lines(first, last)
    }

    /// A read-only view of the part of the current window from `left_top` (included) to
    /// `right_bottom` (excluded).
    pub fn window(&self, left_top: ImageSize, right_bottom: ImageSize) -> (r: ImageView<'_, Pixel>)
        requires
            left_top.0 <= right_bottom.0 <= self.spec_size().0,
            left_top.1 <= right_bottom.1 <= self.spec_size().1,
        ensures
            *r.spec_image() == self.spec_image(),
            r.spec_left_top() == (
                (self.spec_left_top().0 + left_top.0) as usize,
                (self.spec_left_top().1 + left_top.1) as usize,
            ),
            r.spec_size() == (
                (right_bottom.0 - left_top.0) as usize,
                (right_bottom.1 - left_top.1) as usize,
            ),
    {
        proof {
            use_type_invariant(self);
        }
        ImageView {
            image: &self.image,
            left_top: (self.left_top.0 + left_top.0, self.left_top.1 + left_top.1),
            size: (right_bottom.0 - left_top.0, right_bottom.1 - left_top.1),
        }
    }

    /// Narrows the window to its part from `left_top` (included) to `right_bottom`
    /// (excluded), and returns the window it had, for `restore_window`.
    pub fn window_mut(&mut self, left_top: ImageSize, right_bottom: ImageSize) -> (r: (
        ImageSize,
        ImageSize,
    ))
        requires
            left_top.0 <= right_bottom.0 <= old(self).spec_size().0,
            left_top.1 <= right_bottom.1 <= old(self).spec_size().1,
        ensures
            r == (old(self).spec_left_top(), old(self).spec_size()),
            *final(self) == old(self).spec_window(left_top, right_bottom),
            final(self).spec_image() == old(self).spec_image(),
            final(self).spec_left_top() == (
                (old(self).spec_left_top().0 + left_top.0) as usize,
                (old(self).spec_left_top().1 + left_top.1) as usize,
            ),
            final(self).spec_size() == (
                (right_bottom.0 - left_top.0) as usize,
                (right_bottom.1 - left_top.1) as usize,
            ),
    {
        proof {
            use_type_invariant(&*self);
        }
        let previous = (self.left_top, self.size);
        let mut tmp = ImageViewMut::empty();
        std::mem::swap(self, &mut tmp);
        let ImageViewMut { image, left_top: old_left_top, size: _ } = tmp;
        *self = ImageViewMut {
            image,
            left_top: (old_left_top.0 + left_top.0, old_left_top.1 + left_top.1),
            size: (right_bottom.0 - left_top.0, right_bottom.1 - left_top.1),
        };
        previous
    }

    /// Sets the window back to `window`, as `window_mut` returned it.
    pub fn restore_window(&mut self, window: (ImageSize, ImageSize))
        requires
            window.0.0 + window.1.0 <= old(self).spec_image().spec_size().0,
            window.0.1 + window.1.1 <= old(self).spec_image().spec_size().1,
        ensures
            final(self).spec_image() == old(self).spec_image(),
            final(self).spec_left_top() == window.0,
            final(self).spec_size() == window.1,
    {
        let mut tmp = ImageViewMut::empty();
        std::mem::swap(self, &mut tmp);
        let ImageViewMut { image, left_top: _, size: _ } = tmp;
        *self = ImageViewMut { image, left_top: window.0, size: window.1 };
    }
}

impl<Pixel: Copy> ImageViewMut<Pixel> {
    /// The pixel in column `x` of row `y` of the window.
    pub fn get(&self, x: usize, y: usize) -> (r: Pixel)
        requires
            in_size(self.spec_size(), x as int, y as int),
        ensures
            r == self.spec_at(x as int, y as int),
    {
        proof {
            use_type_invariant(self);
        }
        self.image.get(self.left_top.0 + x, self.left_top.1 + y)
    }

    /// Replaces the pixel in column `x` of row `y` of the window; every other pixel stays.
    pub fn set(&mut self, x: usize, y: usize, pixel: Pixel)
        requires
            in_size(old(self).spec_size(), x as int, y as int),
        ensures
            same_outside(old(self), final(self)),
            forall|xx: int, yy: int|
                #![trigger final(self).spec_at(xx, yy)]
                in_size(old(self).spec_size(), xx, yy) ==> final(self).spec_at(xx, yy) == if xx == x
                    && yy == y {
                    pixel
                } else {
                    old(self).spec_at(xx, yy)
                },
    {
        proof {
            use_type_invariant(&*self);
        }
        let mut v = Self::empty();
        std::mem::swap(self, &mut v);
        let ImageViewMut { image: mut img, left_top, size } = v;
        img.set(left_top.0 + x, left_top.1 + y, pixel);
        *self = ImageViewMut { image: img, left_top, size };
    }

    /// Applies `op` to every pixel of the window; the pixels outside it stay.
    pub fn fill<O: PixelOp<Pixel, ()>>(&mut self, op: &O)
        ensures
            same_outside(old(self), final(self)),
            forall|x: int, y: int|
                #![trigger final(self).spec_at(x, y)]
                in_size(old(self).spec_size(), x, y) ==> final(self).spec_at(x, y) == op.spec_apply(
                    old(self).spec_at(x, y),
                    (),
                ),
    {
        proof {
            use_type_invariant(&*self);
        }
        let ghost before = *self;
        let mut tmp = ImageViewMut::empty();
        std::mem::swap(self, &mut tmp);
        let ImageViewMut { mut image, left_top, size } = tmp;
        let ghost image0 = image;
        let mut y: usize = 0;
        while y < size.1
            invariant
                y <= size.1,
                image.spec_size() == image0.spec_size(),
                left_top.0 + size.0 <= image0.spec_size().0,
                left_top.1 + size.1 <= image0.spec_size().1,
                forall|ax: int, ay: int|
                    #![trigger image.spec_at(ax, ay)]
                    in_size(image0.spec_size(), ax, ay) ==> image.spec_at(ax, ay) == if in_window(
                        left_top,
                        (size.0, y),
                        ax,
                        ay,
                    ) {
                        op.spec_apply(image0.spec_at(ax, ay), ())
                    } else {
                        image0.spec_at(ax, ay)
                    },
            decreases size.1 - y,
        {
            let mut x: usize = 0;
            while x < size.0
                invariant
                    x <= size.0,
                    y < size.1,
                    image.spec_size() == image0.spec_size(),
                    left_top.0 + size.0 <= image0.spec_size().0,
                    left_top.1 + size.1 <= image0.spec_size().1,
                    forall|ax: int, ay: int|
                        #![trigger image.spec_at(ax, ay)]
                        in_size(image0.spec_size(), ax, ay) ==> image.spec_at(ax, ay) == if in_window(
                            left_top,
                            (size.0, y),
                            ax,
                            ay,
                        ) || (ay == left_top.1 + y && left_top.0 <= ax < left_top.0 + x) {
                            op.spec_apply(image0.spec_at(ax, ay), ())
                        } else {
                            image0.spec_at(ax, ay)
                        },
                decreases size.0 - x,
            {
                let ax = left_top.0 + x;
                let ay = left_top.1 + y;
                let old_pixel = image.get(ax, ay);
                let new_pixel = op.apply(old_pixel, ());
                image.set(ax, ay, new_pixel);
                x += 1;
            }
            y += 1;
        }
        *self = ImageViewMut { image, left_top, size };
    }

    /// Draws `src` with its left-top corner at `position` of the window: every pixel of the
    /// window that `src` covers becomes `op` of the pixel and the source pixel over it; the
    /// pixels of the window that `src` does not cover, and those outside the window, stay.
    pub fn draw<Src: Copy, O: PixelOp<Pixel, Src>>(
        &mut self,
        src: &ImageView<Src>,
        position: Position,
        op: &O,
    )
        ensures
            same_outside(old(self), final(self)),
            forall|x: int, y: int|
                #![trigger final(self).spec_at(x, y)]
                in_size(old(self).spec_size(), x, y) ==> final(self).spec_at(x, y) == if in_size(
                    src.spec_size(),
                    x - position.0,
                    y - position.1,
                ) {
                    op.spec_apply(
                        old(self).spec_at(x, y),
                        src.spec_at(x - position.0, y - position.1),
                    )
                } else {
                    old(self).spec_at(x, y)
                },
    {
        proof {
            use_type_invariant(&*self);
        }
        let src_size = src.get_size();
        let px: i128 = position.0 as i128;
        let py: i128 = position.1 as i128;
        let x0: i128 = if px < 0 { 0 } else { px };
        let y0: i128 = if py < 0 { 0 } else { py };
        let x1: i128 = if px + (src_size.0 as i128) < (self.size.0 as i128) {
            px + (src_size.0 as i128)
        } else {
            self.size.0 as i128
        };
        let y1: i128 = if py + (src_size.1 as i128) < (self.size.1 as i128) {
            py + (src_size.1 as i128)
        } else {
            self.size.1 as i128
        };
        if x0 >= x1 || y0 >= y1 {
            return ;
        }
        let x_begin = x0 as usize;
        let x_end = x1 as usize;
        let y_begin = y0 as usize;
        let y_end = y1 as usize;
        let mut tmp = ImageViewMut::empty();
        std::mem::swap(self, &mut tmp);
        let ImageViewMut { mut image, left_top, size } = tmp;
        let ghost image0 = image;
        let mut y: usize = y_begin;
        while y < y_end
            invariant
                y_begin <= y <= y_end,
                x_begin < x_end <= size.0,
                y_end <= size.1,
                x_begin == x0,
                x_end == x1,
                y_begin == y0,
                y_end == y1,
                x0 == (if px < 0 { 0 } else { px }),
                y0 == (if py < 0 { 0 } else { py }),
                x1 == (if px + src_size.0 < size.0 { px + src_size.0 } else { size.0 as int }),
                y1 == (if py + src_size.1 < size.1 { py + src_size.1 } else { size.1 as int }),
                px == position.0,
                py == position.1,
                src_size == src.spec_size(),
                image.spec_size() == image0.spec_size(),
                left_top.0 + size.0 <= image0.spec_size().0,
                left_top.1 + size.1 <= image0.spec_size().1,
                forall|ax: int, ay: int|
                    #![trigger image.spec_at(ax, ay)]
                    in_size(image0.spec_size(), ax, ay) ==> image.spec_at(ax, ay) == if left_top.0
                        + x_begin <= ax < left_top.0 + x_end && left_top.1 + y_begin <= ay
                        < left_top.1 + y {
                        op.spec_apply(
                            image0.spec_at(ax, ay),
                            src.spec_at(ax - left_top.0 - px, ay - left_top.1 - py),
                        )
                    } else {
                        image0.spec_at(ax, ay)
                    },
            decreases y_end - y,
        {
            let mut x: usize = x_begin;
            while x < x_end
                invariant
                    x_begin <= x <= x_end,
                    y_begin <= y < y_end,
                    x_end <= size.0,
                    y_end <= size.1,
                    x_begin == x0,
                    y_begin == y0,
                    x_end == x1,
                    y_end == y1,
                    x0 == (if px < 0 { 0 } else { px }),
                    y0 == (if py < 0 { 0 } else { py }),
                    x1 == (if px + src_size.0 < size.0 { px + src_size.0 } else { size.0 as int }),
                    y1 == (if py + src_size.1 < size.1 { py + src_size.1 } else { size.1 as int }),
                    px == position.0,
                    py == position.1,
                    src_size == src.spec_size(),
                    image.spec_size() == image0.spec_size(),
                    left_top.0 + size.0 <= image0.spec_size().0,
                    left_top.1 + size.1 <= image0.spec_size().1,
                    forall|ax: int, ay: int|
                        #![trigger image.spec_at(ax, ay)]
                        in_size(image0.spec_size(), ax, ay) ==> image.spec_at(ax, ay) == if (left_top.0
                            + x_begin <= ax < left_top.0 + x_end && left_top.1 + y_begin <= ay
                            < left_top.1 + y) || (ay == left_top.1 + y && left_top.0 + x_begin
                            <= ax < left_top.0 + x) {
                            op.spec_apply(
                                image0.spec_at(ax, ay),
                                src.spec_at(ax - left_top.0 - px, ay - left_top.1 - py),
                            )
                        } else {
                            image0.spec_at(ax, ay)
                        },
                decreases x_end - x,
            {
                let ax = left_top.0 + x;
                let ay = left_top.1 + y;
                let sx = (x as i128 - px) as usize;
                let sy = (y as i128 - py) as usize;
                let old_pixel = image.get(ax, ay);
                let src_pixel = src.get(sx, sy);
                let new_pixel = op.apply(old_pixel, src_pixel);
                image.set(ax, ay, new_pixel);
                x += 1;
            }
            y += 1;
        }
        *self = ImageViewMut { image, left_top, size };
    }

    /// Calls `op` with the coordinates, in the window, of every pixel of the window; the pixels
    /// outside it stay.
    pub fn fill_with_coord<O: CoordOp<Pixel>>(&mut self, op: &O)
        ensures
            same_outside(old(self), final(self)),
            forall|x: int, y: int|
                #![trigger final(self).spec_at(x, y)]
                in_size(old(self).spec_size(), x, y) ==> final(self).spec_at(x, y)
                    == op.spec_apply_at(old(self).spec_at(x, y), x as usize, y as usize),
    {
        proof {
            use_type_invariant(&*self);
        }
        let mut tmp = ImageViewMut::empty();
        std::mem::swap(self, &mut tmp);
        let ImageViewMut { mut image, left_top, size } = tmp;
        let ghost image0 = image;
        let mut y: usize = 0;
        while y < size.1
            invariant
                y <= size.1,
                image.spec_size() == image0.spec_size(),
                left_top.0 + size.0 <= image0.spec_size().0,
                left_top.1 + size.1 <= image0.spec_size().1,
                forall|ax: int, ay: int|
                    #![trigger image.spec_at(ax, ay)]
                    in_size(image0.spec_size(), ax, ay) ==> image.spec_at(ax, ay) == if in_window(
                        left_top,
                        (size.0, y),
                        ax,
                        ay,
                    ) {
                        op.spec_apply_at(
                            image0.spec_at(ax, ay),
                            (ax - left_top.0) as usize,
                            (ay - left_top.1) as usize,
                        )
                    } else {
                        image0.spec_at(ax, ay)
                    },
            decreases size.1 - y,
        {
            let mut x: usize = 0;
            while x < size.0
                invariant
                    x <= size.0,
                    y < size.1,
                    image.spec_size() == image0.spec_size(),
                    left_top.0 + size.0 <= image0.spec_size().0,
                    left_top.1 + size.1 <= image0.spec_size().1,
                    forall|ax: int, ay: int|
                        #![trigger image.spec_at(ax, ay)]
                        in_size(image0.spec_size(), ax, ay) ==> image.spec_at(ax, ay) == if in_window(
                            left_top,
                            (size.0, y),
                            ax,
                            ay,
                        ) || (ay == left_top.1 + y && left_top.0 <= ax < left_top.0 + x) {
                            op.spec_apply_at(
                                image0.spec_at(ax, ay),
                                (ax - left_top.0) as usize,
                                (ay - left_top.1) as usize,
                            )
                        } else {
                            image0.spec_at(ax, ay)
                        },
                decreases size.0 - x,
            {
                let ax = left_top.0 + x;
                let ay = left_top.1 + y;
                let old_pixel = image.get(ax, ay);
                let new_pixel = op.apply_at(old_pixel, x, y);
                image.set(ax, ay, new_pixel);
                x += 1;
            }
            y += 1;
        }
        *self = ImageViewMut { image, left_top, size };
    }
}

} // verus!
