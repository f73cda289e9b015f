//! Pixel addressing: the capability that frames and their rectangular
//! views share, and the views themselves.

use crate::frame::format::PixelFormat;
use crate::frame::pixel::{Pixel, PixelMut};
use std::marker::PhantomData;
use std::ops::Bound;
use vstd::arithmetic::div_mod::{
    lemma_fundamental_div_mod, lemma_fundamental_div_mod_converse, lemma_mod_bound,
    lemma_multiply_divide_lt,
};
use vstd::prelude::*;

verus! {

/// `std::ops::Bound`, an endpoint of a range, with its three variants.
#[verifier::external_type_specification]
#[verifier::reject_recursive_types(T)]
pub struct ExBound<T>(Bound<T>);

/// Extents whose pixel count and byte count both fit the address space.
pub open spec fn extents_fit(width: nat, height: nat, bpp: nat) -> bool {
    &&& width * height <= usize::MAX
    &&& width * height * bpp <= usize::MAX
}

/// Something whose pixels can be addressed by position.
pub trait Pixelate<F: PixelFormat> {
    /// The invariant of the implementing type.
    spec fn sound(&self) -> bool;

    /// The width in pixels.
    spec fn pixels_wide(&self) -> nat;

    /// The height in pixels.
    spec fn pixels_high(&self) -> nat;

    /// The column of the underlying frame at which this area begins.
    spec fn left(&self) -> nat;

    /// The row of the underlying frame at which this area begins.
    spec fn top(&self) -> nat;

    /// The bytes of the pixel with row-major index `index`, where that
    /// pixel can be addressed.
    spec fn pixel_at(&self, index: int) -> Option<Seq<u8>>;

    /// What soundness means for every implementation: the extents fit the
    /// address space, and only positions inside them hold a pixel.
    proof fn lemma_sound(&self)
        requires
            self.sound(),
        ensures
            extents_fit(self.pixels_wide(), self.pixels_high(), F::bytes_per_pixel()),
            forall|i: int| #[trigger]
                self.pixel_at(i) is Some ==> 0 <= i < self.pixels_wide() * self.pixels_high(),
    ;

    /// The pixel with row-major index `index`, or nothing where `index` is
    /// outside the area or the buffer.
    fn get_pixel_index<'a>(&'a self, index: usize) -> (pixel: Option<Pixel<'a, F>>)
        requires
            self.sound(),
        ensures
            match pixel {
                Some(p) => p.wf() && self.pixel_at(index as int) == Some(p@),
                None => self.pixel_at(index as int) is None,
            },
    ;

    /// The first row of the underlying frame that this area covers.
    fn row_offset(&self) -> (n: usize)
        requires
            self.sound(),
        ensures
            n == self.top(),
    ;

    /// The first column of the underlying frame that this area covers.
    fn col_offset(&self) -> (n: usize)
        requires
            self.sound(),
        ensures
            n == self.left(),
    ;

    /// The width in pixels.
    fn width(&self) -> (n: usize)
        requires
            self.sound(),
        ensures
            n == self.pixels_wide(),
    ;

    /// The height in pixels.
    fn height(&self) -> (n: usize)
        requires
            self.sound(),
        ensures
            n == self.pixels_high(),
    ;

    /// The pixel in column `x` of row `y`, or nothing where the position is
    /// outside the area or the buffer.
    fn get_pixel<'a>(&'a self, x: usize, y: usize) -> (pixel: Option<Pixel<'a, F>>)
        requires
            self.sound(),
        ensures
            match pixel {
                Some(p) => x < self.pixels_wide() && y < self.pixels_high() && p.wf()
                    && self.pixel_at(y * self.pixels_wide() + x) == Some(p@),
                None => !(x < self.pixels_wide() && y < self.pixels_high()) || self.pixel_at(
                    y * self.pixels_wide() + x,
                ) is None,
            },
    {
        let w = self.width();
        if x < w && y < self.height() {
            proof {
                self.lemma_sound();
                lemma_row_major(w as int, self.pixels_high() as int, x as int, y as int);
            }
            self.get_pixel_index(y * w + x)
        } else {
            None
        }
    }

    /// The number of pixels.
    fn len(&self) -> (n: usize)
        requires
            self.sound(),
        ensures
            n == self.pixels_wide() * self.pixels_high(),
    {
        proof {
            self.lemma_sound();
        }
        self.width() * self.height()
    }

    /// The number of bytes that the pixels take.
    fn byte_len(&self) -> (n: usize)
        requires
            self.sound(),
        ensures
            n == self.pixels_wide() * self.pixels_high() * F::bytes_per_pixel(),
    {
        proof {
            self.lemma_sound();
        }
        self.len() * F::byte_count()
    }

    /// The column and row of the pixel with row-major index `index`, or
    /// nothing where the area has no such pixel.
    fn coord(&self, index: usize) -> (at: Option<(usize, usize)>)
        requires
            self.sound(),
        ensures
            match at {
                Some((x, y)) => index < self.pixels_wide() * self.pixels_high() && x
                    < self.pixels_wide() && y < self.pixels_high() && y * self.pixels_wide() + x
                    == index,
                None => index >= self.pixels_wide() * self.pixels_high(),
            },
    {
        if index < self.len() {
            let w = self.width();
            proof {
                lemma_row_major_inverse(w as int, self.pixels_high() as int, index as int);
            }
            Some((index % w, index / w))
        } else {
            None
        }
    }
}

/// A position inside a `w` by `h` area has a row-major index inside it, from
/// which division by `w` gives the position back.
pub proof fn lemma_row_major(w: int, h: int, x: int, y: int)
    requires
        0 <= x < w,
        0 <= y < h,
    ensures
        0 <= y * w + x < w * h,
        (y * w + x) / w == y,
        (y * w + x) % w == x,
{
    assert(0 <= y * w && y * w + w <= h * w) by (nonlinear_arith)
        requires
            0 <= y < h,
            0 < w,
    ;
    assert(h * w == w * h) by (nonlinear_arith);
    lemma_fundamental_div_mod_converse(y * w + x, w, y, x);
}

/// A row-major index inside a `w` by `h` area names a position inside it.
pub proof fn lemma_row_major_inverse(w: int, h: int, index: int)
    requires
        0 <= w,
        0 <= h,
        0 <= index < w * h,
    ensures
        0 < w,
        0 <= index % w < w,
        0 <= index / w < h,
        (index / w) * w + index % w == index,
{
    assert(w > 0) by (nonlinear_arith)
        requires
            0 <= index < w * h,
            0 <= w,
            0 <= h,
    ;
    lemma_fundamental_div_mod(index, w);
    lemma_mod_bound(index, w);
    lemma_multiply_divide_lt(index, w, h);
    assert(0 <= index / w) by (nonlinear_arith)
        requires
            index == w * (index / w) + index % w,
            0 <= index,
            0 <= index % w < w,
            0 < w,
    ;
    assert((index / w) * w == w * (index / w)) by (nonlinear_arith);
}

/// Walks over the pixels of an area in row-major order.
pub struct PixelIter<'a, F: PixelFormat, P: Pixelate<F>> {
    source: &'a P,
    index: usize,
    _format: PhantomData<F>,
}

impl<'a, F: PixelFormat, P: Pixelate<F>> PixelIter<'a, F, P> {
    /// The area walked over.
    pub closed spec fn source(&self) -> &'a P {
        self.source
    }

    /// The row-major index of the pixel that comes next.
    pub closed spec fn position(&self) -> nat {
        self.index as nat
    }

    /// A walk over `source` that starts at its first pixel.
    pub fn new(source: &'a P) -> (iter: PixelIter<'a, F, P>)
        ensures
            iter.source() == source,
            iter.position() == 0,
    {
        PixelIter { source, index: 0, _format: PhantomData }
    }

    /// The next pixel, or nothing once the walk is over.
    pub fn next(&mut self) -> (pixel: Option<Pixel<'a, F>>)
        requires
            old(self).source().sound(),
        ensures
            final(self).source() == old(self).source(),
            match pixel {
                Some(p) => p.wf() && old(self).source().pixel_at(old(self).position() as int)
                    == Some(p@) && final(self).position() == old(self).position() + 1,
                None => old(self).source().pixel_at(old(self).position() as int) is None
                    && final(self).position() == old(self).position(),
            },
    {
        let res = self.source.get_pixel_index(self.index);
        if res.is_some() {
            proof {
                self.source.lemma_sound();
            }
            self.index += 1;
        }
        res
    }
}

/// The rows and columns of its source that a view covers: rows from
/// `start_row` up to, not including, `end_row`, and columns likewise.
#[derive(Clone, Copy, Debug, PartialEq, Eq, Structural)]
pub struct Window {
    pub start_row: usize,
    pub end_row: usize,
    pub start_col: usize,
    pub end_col: usize,
}

impl Window {
    /// The window lies inside a `width` by `height` area.
    pub open spec fn within(self, width: nat, height: nat) -> bool {
        &&& self.start_row <= self.end_row <= height
        &&& self.start_col <= self.end_col <= width
    }

    /// The number of columns covered.
    pub open spec fn wide(self) -> nat {
        (self.end_col - self.start_col) as nat
    }

    /// The number of rows covered.
    pub open spec fn high(self) -> nat {
        (self.end_row - self.start_row) as nat
    }

    /// The row-major index in a source `source_wide` pixels wide of the
    /// pixel that has row-major index `index` in the window.
    pub open spec fn resolve(self, source_wide: nat, index: int) -> int {
        (self.start_row + index / self.wide() as int) * source_wide + self.start_col + index
            % self.wide() as int
    }
}

/// Where a range with the lower bound `bound` begins. A bound that leaves
/// its endpoint out begins one before it.
pub open spec fn span_start(bound: Bound<usize>) -> int {
    match bound {
        Bound::Included(n) => n as int,
        Bound::Excluded(n) => n - 1,
        Bound::Unbounded => 0,
    }
}

/// Where a range with the upper bound `bound` ends, the end itself left
/// out, in an area of `extent` rows or columns.
pub open spec fn span_end(bound: Bound<usize>, extent: nat) -> int {
    match bound {
        Bound::Included(n) => n + 1,
        Bound::Excluded(n) => n as int,
        Bound::Unbounded => extent as int,
    }
}

/// The rows or columns that `bounds` select from an area of `extent`, where
/// they lie inside it.
pub open spec fn span(bounds: (Bound<usize>, Bound<usize>), extent: nat) -> Option<
    (usize, usize),
> {
    let start = span_start(bounds.0);
    let end = span_end(bounds.1, extent);
    if 0 <= start <= end <= extent && extent <= usize::MAX {
        Some((start as usize, end as usize))
    } else {
        None
    }
}

/// The window that `rows` and `cols` select from a `width` by `height`
/// area, where both lie inside it.
pub open spec fn select(
    rows: (Bound<usize>, Bound<usize>),
    cols: (Bound<usize>, Bound<usize>),
    width: nat,
    height: nat,
) -> Option<Window> {
    match (span(rows, height), span(cols, width)) {
        (Some(r), Some(c)) => Some(
            Window { start_row: r.0, end_row: r.1, start_col: c.0, end_col: c.1 },
        ),
        _ => None,
    }
}

/// Computes `span`.
fn span_of(bounds: (Bound<usize>, Bound<usize>), extent: usize) -> (found: Option<(usize, usize)>)
    ensures
        found == span(bounds, extent as nat),
{
    let start = match bounds.0 {
        Bound::Included(n) => Some(n),
        Bound::Excluded(n) => n.checked_sub(1),
        Bound::Unbounded => Some(0),
    };
    let end = match bounds.1 {
        Bound::Included(n) => n.checked_add(1),
        Bound::Excluded(n) => Some(n),
        Bound::Unbounded => Some(extent),
    };
    match (start, end) {
        (Some(s), Some(e)) => if s <= e && e <= extent {
            Some((s, e))
        } else {
            None
        },
        _ => None,
    }
}

/// Computes `select`.
fn select_window(
    rows: (Bound<usize>, Bound<usize>),
    cols: (Bound<usize>, Bound<usize>),
    width: usize,
    height: usize,
) -> (found: Option<Window>)
    ensures
        found == select(rows, cols, width as nat, height as nat),
{
    match (span_of(rows, height), span_of(cols, width)) {
        (Some(r), Some(c)) => Some(
            Window { start_row: r.0, end_row: r.1, start_col: c.0, end_col: c.1 },
        ),
        _ => None,
    }
}

/// Both bounds left open.
pub open spec fn whole() -> (Bound<usize>, Bound<usize>) {
    (Bound::Unbounded, Bound::Unbounded)
}

/// Both bounds left open: every row, or every column.
#[verifier::when_used_as_spec(whole)]
pub fn all() -> (bounds: (Bound<usize>, Bound<usize>))
    ensures
        bounds == whole(),
{
    (Bound::Unbounded, Bound::Unbounded)
}

/// Inside a sound source, the pixels of a window have indices inside the
/// source, and different pixels of the window are different pixels of the
/// source.
pub proof fn lemma_resolve(win: Window, source_wide: nat, source_high: nat, index: int)
    requires
        win.within(source_wide, source_high),
        0 <= index < win.wide() * win.high(),
    ensures
        0 <= win.resolve(source_wide, index) < source_wide * source_high,
        win.resolve(source_wide, index) / source_wide as int == win.start_row + index / win.wide() as int,
        win.resolve(source_wide, index) % source_wide as int == win.start_col + index % win.wide() as int,
{
    let w = win.wide() as int;
    let h = win.high() as int;
    lemma_row_major_inverse(w, h, index);
    let x = win.start_col + index % w;
    let y = win.start_row + index / w;
    lemma_row_major(source_wide as int, source_high as int, x, y);
}

/// A rectangular part of something pixel-addressable, borrowed for reading.
pub struct FrameView<'a, F: PixelFormat, P: Pixelate<F>> {
    source: &'a P,
    window: Window,
    _format: PhantomData<F>,
}

impl<'a, F: PixelFormat, P: Pixelate<F>> FrameView<'a, F, P> {
    /// What the view is a part of.
    pub closed spec fn source(&self) -> &'a P {
        self.source
    }

    /// The rows and columns of the source that the view covers.
    pub closed spec fn window(&self) -> Window {
        self.window
    }

    /// The view's invariant: a sound source, and a window inside it.
    pub open spec fn wf(&self) -> bool {
        &&& self.source().sound()
        &&& self.window().within(self.source().pixels_wide(), self.source().pixels_high())
    }

    /// The part of `source` that `rows` and `cols` select, or nothing where
    /// they do not lie inside `source`.
    pub fn new(
        source: &'a P,
        rows: (Bound<usize>, Bound<usize>),
        cols: (Bound<usize>, Bound<usize>),
    ) -> (view: Option<FrameView<'a, F, P>>)
        requires
            source.sound(),
        ensures
            match select(rows, cols, source.pixels_wide(), source.pixels_high()) {
                Some(w) => view is Some && view->0.wf() && view->0.source() == source
                    && view->0.window() == w,
                None => view is None,
            },
    {
        match select_window(rows, cols, source.width(), source.height()) {
            Some(window) => Some(FrameView { source, window, _format: PhantomData }),
            None => None,
        }
    }

    /// A walk over the view's pixels.
    pub fn pixels(&'a self) -> (iter: PixelIter<'a, F, Self>)
        ensures
            iter.source() == self,
            iter.position() == 0,
    {
        PixelIter::new(self)
    }

    /// A part of this view.
    pub fn view(
        &'a self,
        rows: (Bound<usize>, Bound<usize>),
        cols: (Bound<usize>, Bound<usize>),
    ) -> (view: Option<FrameView<'a, F, Self>>)
        requires
            self.wf(),
        ensures
            match select(rows, cols, self.window().wide(), self.window().high()) {
                Some(w) => view is Some && view->0.wf() && view->0.source() == self
                    && view->0.window() == w,
                None => view is None,
            },
    {
        FrameView::new(self, rows, cols)
    }

    /// Some rows of this view, in their full width.
    pub fn rows(&'a self, rows: (Bound<usize>, Bound<usize>)) -> (view: Option<
        FrameView<'a, F, Self>,
    >)
        requires
            self.wf(),
        ensures
            match select(rows, all(), self.window().wide(), self.window().high()) {
                Some(w) => view is Some && view->0.wf() && view->0.source() == self
                    && view->0.window() == w,
                None => view is None,
            },
    {
        self.view(rows, all())
    }

    /// Some columns of this view, in their full height.
    pub fn cols(&'a self, cols: (Bound<usize>, Bound<usize>)) -> (view: Option<
        FrameView<'a, F, Self>,
    >)
        requires
            self.wf(),
        ensures
            match select(all(), cols, self.window().wide(), self.window().high()) {
                Some(w) => view is Some && view->0.wf() && view->0.source() == self
                    && view->0.window() == w,
                None => view is None,
            },
    {
        self.view(all(), cols)
    }

    /// The row-major index in the source of the view's pixel with row-major
    /// index `index`.
    pub fn resolve_index(&self, index: usize) -> (at: usize)
        requires
            self.wf(),
            index < self.window().wide() * self.window().high(),
        ensures
            at == self.window().resolve(self.source().pixels_wide(), index as int),
            at < self.source().pixels_wide() * self.source().pixels_high(),
    {
        let w = self.window.end_col - self.window.start_col;
        let source_width = self.source.width();
        proof {
            self.source.lemma_sound();
            lemma_row_major_inverse(
                self.window().wide() as int,
                self.window().high() as int,
                index as int,
            );
            lemma_resolve(
                self.window,
                self.source.pixels_wide(),
                self.source.pixels_high(),
                index as int,
            );
            lemma_row_major(
                source_width as int,
                self.source.pixels_high() as int,
                self.window.start_col + index % w,
                self.window.start_row + index / w,
            );
            assert(0 <= (self.window.start_row + index / w) * source_width) by (nonlinear_arith)
                requires
                    0 <= self.window.start_row + index / w,
                    0 <= source_width,
            ;
        }
        let col_offset = index % w;
        let row_offset = index / w;
        (self.window.start_row + row_offset) * source_width + self.window.start_col + col_offset
    }
}

impl<'a, F: PixelFormat, P: Pixelate<F>> Pixelate<F> for FrameView<'a, F, P> {
    open spec fn sound(&self) -> bool {
        self.wf()
    }

    open spec fn pixels_wide(&self) -> nat {
        self.window().wide()
    }

    open spec fn pixels_high(&self) -> nat {
        self.window().high()
    }

    open spec fn left(&self) -> nat {
        self.window().start_col as nat
    }

    open spec fn top(&self) -> nat {
        self.window().start_row as nat
    }

    open spec fn pixel_at(&self, index: int) -> Option<Seq<u8>> {
        if 0 <= index < self.window().wide() * self.window().high() {
            self.source().pixel_at(self.window().resolve(self.source().pixels_wide(), index))
        } else {
            None
        }
    }

    proof fn lemma_sound(&self) {
        self.source().lemma_sound();
        lemma_window_fits(
            self.window(),
            self.source().pixels_wide(),
            self.source().pixels_high(),
            F::bytes_per_pixel(),
        );
    }

    fn get_pixel_index<'b>(&'b self, index: usize) -> (pixel: Option<Pixel<'b, F>>) {
        if index < self.len() {
            let index = self.resolve_index(index);
            self.source.get_pixel_index(index)
        } else {
            None
        }
    }

    fn row_offset(&self) -> (n: usize) {
        self.window.start_row
    }

    fn col_offset(&self) -> (n: usize) {
        self.window.start_col
    }

    fn width(&self) -> (n: usize) {
        self.window.end_col - self.window.start_col
    }

    fn height(&self) -> (n: usize) {
        self.window.end_row - self.window.start_row
    }
}

/// A window inside extents that fit the address space has extents that fit
/// it too.
pub proof fn lemma_window_fits(win: Window, width: nat, height: nat, bpp: nat)
    requires
        win.within(width, height),
        extents_fit(width, height, bpp),
    ensures
        extents_fit(win.wide(), win.high(), bpp),
{
    let w = win.wide() as int;
    let h = win.high() as int;
    assert(w * h <= width * height) by (nonlinear_arith)
        requires
            0 <= w <= width,
            0 <= h <= height,
    ;
    assert(w * h * bpp <= width * height * bpp) by (nonlinear_arith)
        requires
            0 <= w * h <= width * height,
            0 <= bpp,
    ;
}

/// `after` has the extents and the pixels of `before`, but for the pixel
/// with index `index`, which holds `bytes`.
pub open spec fn rewritten<F: PixelFormat, P: Pixelate<F> + ?Sized>(
    before: &P,
    after: &P,
    index: int,
    bytes: Seq<u8>,
) -> bool {
    &&& after.sound()
    &&& after.pixels_wide() == before.pixels_wide()
    &&& after.pixels_high() == before.pixels_high()
    &&& after.left() == before.left()
    &&& after.top() == before.top()
    &&& forall|i: int| #[trigger]
        after.pixel_at(i) == if i == index {
            Some(bytes)
        } else {
            before.pixel_at(i)
        }
}

/// `after` has the extents and the pixels of `before`.
pub open spec fn same_pixels<F: PixelFormat, P: Pixelate<F> + ?Sized>(before: &P, after: &P) -> bool {
    &&& after.sound()
    &&& after.pixels_wide() == before.pixels_wide()
    &&& after.pixels_high() == before.pixels_high()
    &&& after.left() == before.left()
    &&& after.top() == before.top()
    &&& forall|i: int| #[trigger] after.pixel_at(i) == before.pixel_at(i)
}

/// Something whose pixels can be addressed by position and written.
pub trait PixelateMut<F: PixelFormat>: Pixelate<F> {
    /// The pixel with row-major index `index`, open for writing, or nothing
    /// where `index` is outside the area or the buffer. What is written
    /// through the handle is what the pixel holds afterwards; every other
    /// pixel keeps its bytes.
    fn get_pixel_index_mut<'a>(&'a mut self, index: usize) -> (pixel: Option<PixelMut<'a, F>>)
        requires
            old(self).sound(),
        ensures
            match pixel {
                Some(p) => p.wf() && old(self).pixel_at(index as int) == Some(p@) && (final(p.data)@.len() == p@.len() ==> rewritten(
                    old(self),
                    final(self),
                    index as int,
                    final(p.data)@,
                )),
                None => old(self).pixel_at(index as int) is None && same_pixels(
                    old(self),
                    final(self),
                ),
            },
    ;

    /// The pixel in column `x` of row `y`, open for writing, or nothing
    /// where the position is outside the area or the buffer.
    fn get_pixel_mut<'a>(&'a mut self, x: usize, y: usize) -> (pixel: Option<PixelMut<'a, F>>)
        requires
            old(self).sound(),
        ensures
            match pixel {
                Some(p) => x < old(self).pixels_wide() && y < old(self).pixels_high() && p.wf()
                    && old(self).pixel_at(y * old(self).pixels_wide() + x) == Some(p@) && (final(p.data)@.len() == p@.len() ==> rewritten(
                    old(self),
                    final(self),
                    y * old(self).pixels_wide() + x,
                    final(p.data)@,
                )),
                None => (!(x < old(self).pixels_wide() && y < old(self).pixels_high()) || old(self).pixel_at(y * old(self).pixels_wide() + x) is None) && same_pixels(
                    old(self),
                    final(self),
                ),
            },
    {
        let w = self.width();
        if x < w && y < self.height() {
            proof {
                self.lemma_sound();
                lemma_row_major(w as int, self.pixels_high() as int, x as int, y as int);
            }
            self.get_pixel_index_mut(y * w + x)
        } else {
            None
        }
    }
}

/// Walks over the pixels of an area in row-major order, handing each out
/// for writing.
pub struct PixelIterMut<'a, F: PixelFormat, P: PixelateMut<F>> {
    pub source: &'a mut P,
    pub index: usize,
    pub _format: PhantomData<F>,
}

impl<'a, F: PixelFormat, P: PixelateMut<F>> PixelIterMut<'a, F, P> {
    /// A walk over `source` that starts at its first pixel.
    pub fn new(source: &'a mut P) -> (iter: PixelIterMut<'a, F, P>)
        ensures
            *iter.source == *old(source),
            iter.index == 0,
            *final(source) == *final(iter.source),
    {
        PixelIterMut { source, index: 0, _format: PhantomData }
    }

    /// The next pixel, open for writing, or nothing once the walk is over.
    pub fn next<'b>(&'b mut self) -> (pixel: Option<PixelMut<'b, F>>)
        requires
            old(self).source.sound(),
        ensures
            match pixel {
                Some(p) => p.wf() && old(self).source.pixel_at(old(self).index as int) == Some(p@)
                    && final(self).index == old(self).index + 1 && (final(p.data)@.len()
                    == p@.len() ==> rewritten(
                    old(self).source,
                    final(self).source,
                    old(self).index as int,
                    final(p.data)@,
                )),
                None => old(self).source.pixel_at(old(self).index as int) is None && final(self).index == old(self).index && same_pixels(old(self).source, final(self).source),
            },
            *final(final(self).source) == *final(old(self).source),
    {
        proof {
            self.source.lemma_sound();
        }
        let pixel = self.source.get_pixel_index_mut(self.index);
        if pixel.is_some() {
            self.index += 1;
        }
        pixel
    }
}

/// A rectangular part of something pixel-addressable, borrowed for writing.
pub struct FrameViewMut<'a, F: PixelFormat, P: PixelateMut<F>> {
    pub source: &'a mut P,
    pub window: Window,
    pub _format: PhantomData<F>,
}

impl<'a, F: PixelFormat, P: PixelateMut<F>> FrameViewMut<'a, F, P> {
    /// What the view is a part of, as it stands.
    pub open spec fn target(&self) -> &P {
        &*self.source
    }

    /// The view's invariant: a sound source, and a window inside it.
    pub open spec fn wf(&self) -> bool {
        &&& self.source.sound()
        &&& self.window.within(self.source.pixels_wide(), self.source.pixels_high())
    }

    /// The part of `source` that `rows` and `cols` select, or nothing where
    /// they do not lie inside `source`. What is written through the view is
    /// written to `source`.
    pub fn new(
        source: &'a mut P,
        rows: (Bound<usize>, Bound<usize>),
        cols: (Bound<usize>, Bound<usize>),
    ) -> (view: Option<FrameViewMut<'a, F, P>>)
        requires
            old(source).sound(),
        ensures
            match select(rows, cols, old(source).pixels_wide(), old(source).pixels_high()) {
                Some(w) => view is Some && view->0.wf() && *view->0.source == *old(source)
                    && view->0.window == w && *final(source) == *final(view->0.source),
                None => view is None && *final(source) == *old(source),
            },
    {
        match select_window(rows, cols, source.width(), source.height()) {
            Some(window) => Some(FrameViewMut { source, window, _format: PhantomData }),
            None => None,
        }
    }

    /// A walk over the view's pixels.
    pub fn pixels<'b>(&'b self) -> (iter: PixelIter<'b, F, Self>)
        ensures
            iter.source() == self,
            iter.position() == 0,
    {
        PixelIter::new(self)
    }

    /// A walk over the view's pixels that can write them.
    pub fn pixels_mut<'b>(&'b mut self) -> (iter: PixelIterMut<'b, F, Self>)
        ensures
            *iter.source == *old(self),
            iter.index == 0,
            *final(self) == *final(iter.source),
    {
        PixelIterMut::new(self)
    }

    /// A part of this view.
    pub fn view<'b>(
        &'b self,
        rows: (Bound<usize>, Bound<usize>),
        cols: (Bound<usize>, Bound<usize>),
    ) -> (view: Option<FrameView<'b, F, Self>>)
        requires
            self.wf(),
        ensures
            match select(rows, cols, self.window.wide(), self.window.high()) {
                Some(w) => view is Some && view->0.wf() && view->0.source() == self
                    && view->0.window() == w,
                None => view is None,
            },
    {
        FrameView::new(self, rows, cols)
    }

    /// Some rows of this view, in their full width.
    pub fn rows<'b>(&'b self, rows: (Bound<usize>, Bound<usize>)) -> (view: Option<
        FrameView<'b, F, Self>,
    >)
        requires
            self.wf(),
        ensures
            match select(rows, all(), self.window.wide(), self.window.high()) {
                Some(w) => view is Some && view->0.wf() && view->0.source() == self
                    && view->0.window() == w,
                None => view is None,
            },
    {
        self.view(rows, all())
    }

    /// Some columns of this view, in their full height.
    pub fn cols<'b>(&'b self, cols: (Bound<usize>, Bound<usize>)) -> (view: Option<
        FrameView<'b, F, Self>,
    >)
        requires
            self.wf(),
        ensures
            match select(all(), cols, self.window.wide(), self.window.high()) {
                Some(w) => view is Some && view->0.wf() && view->0.source() == self
                    && view->0.window() == w,
                None => view is None,
            },
    {
        self.view(all(), cols)
    }

    /// A part of this view, open for writing.
    pub fn view_mut<'b>(
        &'b mut self,
        rows: (Bound<usize>, Bound<usize>),
        cols: (Bound<usize>, Bound<usize>),
    ) -> (view: Option<FrameViewMut<'b, F, Self>>)
        requires
            old(self).wf(),
        ensures
            match select(rows, cols, old(self).window.wide(), old(self).window.high()) {
                Some(w) => view is Some && view->0.wf() && *view->0.source == *old(self)
                    && view->0.window == w && *final(self) == *final(view->0.source),
                None => view is None && *final(self) == *old(self),
            },
    {
        FrameViewMut::new(self, rows, cols)
    }

    /// Some rows of this view, in their full width, open for writing.
    pub fn rows_mut<'b>(&'b mut self, rows: (Bound<usize>, Bound<usize>)) -> (view: Option<
        FrameViewMut<'b, F, Self>,
    >)
        requires
            old(self).wf(),
        ensures
            match select(rows, all(), old(self).window.wide(), old(self).window.high()) {
                Some(w) => view is Some && view->0.wf() && *view->0.source == *old(self)
                    && view->0.window == w && *final(self) == *final(view->0.source),
                None => view is None && *final(self) == *old(self),
            },
    {
        self.view_mut(rows, all())
    }

    /// Some columns of this view, in their full height, open for writing.
    pub fn cols_mut<'b>(&'b mut self, cols: (Bound<usize>, Bound<usize>)) -> (view: Option<
        FrameViewMut<'b, F, Self>,
    >)
        requires
            old(self).wf(),
        ensures
            match select(all(), cols, old(self).window.wide(), old(self).window.high()) {
                Some(w) => view is Some && view->0.wf() && *view->0.source == *old(self)
                    && view->0.window == w && *final(self) == *final(view->0.source),
                None => view is None && *final(self) == *old(self),
            },
    {
        self.view_mut(all(), cols)
    }

    /// The row-major index in the source of the view's pixel with row-major
    /// index `index`.
    pub fn resolve_index(&self, index: usize) -> (at: usize)
        requires
            self.wf(),
            index < self.window.wide() * self.window.high(),
        ensures
            at == self.window.resolve(self.target().pixels_wide(), index as int),
            at < self.target().pixels_wide() * self.target().pixels_high(),
    {
        let w = self.window.end_col - self.window.start_col;
        let source_width = self.source.width();
        proof {
            self.source.lemma_sound();
            lemma_row_major_inverse(
                self.window.wide() as int,
                self.window.high() as int,
                index as int,
            );
            lemma_resolve(
                self.window,
                self.source.pixels_wide(),
                self.source.pixels_high(),
                index as int,
            );
            lemma_row_major(
                source_width as int,
                self.source.pixels_high() as int,
                self.window.start_col + index % w,
                self.window.start_row + index / w,
            );
            assert(0 <= (self.window.start_row + index / w) * source_width) by (nonlinear_arith)
                requires
                    0 <= self.window.start_row + index / w,
                    0 <= source_width,
            ;
        }
        let col_offset = index % w;
        let row_offset = index / w;
        (self.window.start_row + row_offset) * source_width + self.window.start_col + col_offset
    }
}

impl<'a, F: PixelFormat, P: PixelateMut<F>> Pixelate<F> for FrameViewMut<'a, F, P> {
    open spec fn sound(&self) -> bool {
        self.wf()
    }

    open spec fn pixels_wide(&self) -> nat {
        self.window.wide()
    }

    open spec fn pixels_high(&self) -> nat {
        self.window.high()
    }

    open spec fn left(&self) -> nat {
        self.window.start_col as nat
    }

    open spec fn top(&self) -> nat {
        self.window.start_row as nat
    }

    open spec fn pixel_at(&self, index: int) -> Option<Seq<u8>> {
        if 0 <= index < self.window.wide() * self.window.high() {
            self.source.pixel_at(self.window.resolve(self.source.pixels_wide(), index))
        } else {
            None
        }
    }

    proof fn lemma_sound(&self) {
        self.source.lemma_sound();
        lemma_window_fits(
            self.window,
            self.source.pixels_wide(),
            self.source.pixels_high(),
            F::bytes_per_pixel(),
        );
    }

    fn get_pixel_index<'b>(&'b self, index: usize) -> (pixel: Option<Pixel<'b, F>>) {
        if index < self.len() {
            let index = self.resolve_index(index);
            self.source.get_pixel_index(index)
        } else {
            None
        }
    }

    fn row_offset(&self) -> (n: usize) {
        self.window.start_row
    }

    fn col_offset(&self) -> (n: usize) {
        self.window.start_col
    }

    fn width(&self) -> (n: usize) {
        self.window.end_col - self.window.start_col
    }

    fn height(&self) -> (n: usize) {
        self.window.end_row - self.window.start_row
    }
}

impl<'a, F: PixelFormat, P: PixelateMut<F>> PixelateMut<F> for FrameViewMut<'a, F, P> {
    /// What is written through the handle goes to one pixel of the source,
    /// the one that the window resolves `index` to. Every other pixel of
    /// the source, inside the window and outside it, keeps its bytes, and
    /// the window stays where it is.
    fn get_pixel_index_mut<'b>(&'b mut self, index: usize) -> (pixel: Option<PixelMut<'b, F>>)
        ensures
            final(self).window == old(self).window,
            match pixel {
                Some(p) => index < old(self).window.wide() * old(self).window.high() && (final(p.data)@.len() == p@.len() ==> rewritten(
                    old(self).target(),
                    final(self).target(),
                    old(self).window.resolve(old(self).target().pixels_wide(), index as int),
                    final(p.data)@,
                )),
                None => same_pixels(old(self).target(), final(self).target()),
            },
    {
        if index < self.len() {
            let at = self.resolve_index(index);
            let ghost win = self.window;
            let ghost wide = self.source.pixels_wide();
            let ghost high = self.source.pixels_high();
            let pixel = self.source.get_pixel_index_mut(at);
            proof {
                assert forall|i: int| 0 <= i < win.wide() * win.high() && i != index implies win.resolve(
                    wide,
                    i,
                ) != at by {
                    lemma_resolve(win, wide, high, i);
                    lemma_resolve(win, wide, high, index as int);
                    lemma_row_major_inverse(win.wide() as int, win.high() as int, i);
                    lemma_row_major_inverse(win.wide() as int, win.high() as int, index as int);
                }
            }
            pixel
        } else {
            None
        }
    }

    /// What is written through the handle goes to one pixel of the source,
    /// the one in column `x` of row `y` of the window. Every other pixel
    /// of the source keeps its bytes, and the window stays where it is.
    fn get_pixel_mut<'b>(&'b mut self, x: usize, y: usize) -> (pixel: Option<PixelMut<'b, F>>)
        ensures
            final(self).window == old(self).window,
            match pixel {
                Some(p) => x < old(self).window.wide() && y < old(self).window.high() && (final(p.data)@.len() == p@.len() ==> rewritten(
                    old(self).target(),
                    final(self).target(),
                    old(self).window.resolve(
                        old(self).target().pixels_wide(),
                        y * old(self).window.wide() + x,
                    ),
                    final(p.data)@,
                )),
                None => same_pixels(old(self).target(), final(self).target()),
            },
    {
        let w = self.width();
        if x < w && y < self.height() {
            proof {
                self.lemma_sound();
                lemma_row_major(w as int, self.pixels_high() as int, x as int, y as int);
            }
            self.get_pixel_index_mut(y * w + x)
        } else {
            None
        }
    }
}

} // verus!
