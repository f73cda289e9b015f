//! Typed frames and the geometry on them.

pub mod format;
pub mod pixel;
pub mod raster;
pub mod view;

pub use crate::frame::format::{OnWire, PixelFormat, BGR, BGRA, Luma, MJPG, RGB, RGBA, Raw, YUYV};
pub use crate::frame::pixel::{Pixel, PixelMut};
pub use crate::frame::view::{
    all, extents_fit, rewritten, same_pixels, select, span, whole, FrameView, FrameViewMut,
    PixelIter, PixelIterMut, Pixelate, PixelateMut, Window,
};

use crate::frame::raster::{
    lemma_flip_horizontal_at, lemma_flip_vertical_at, lemma_offset,
    lemma_rotate180_at, lemma_rotate270_at, lemma_rotate90_at, lemma_same_bytes, lemma_turned_len,
    Raster,
};
use std::marker::PhantomData;
use std::ops::Bound;
use vstd::slice::slice_subrange;
use vstd::prelude::*;

verus! {

/// Why an operation on a frame was refused.
#[derive(Debug)]
pub enum FrameError {
    /// The buffer does not hold one pixel per position.
    DataFormat,
}

impl FrameError {
    /// The text shown to a user for this error.
    pub fn message(&self) -> (text: String)
        ensures
            text@ == "frame data is not in a pixelatable format (probably MJPG)"@,
    {
        match self {
            FrameError::DataFormat => "frame data is not in a pixelatable format (probably MJPG)".to_owned(),
        }
    }
}

/// One image: extents, a byte buffer, and the cached answer to whether the
/// buffer holds exactly one pixel of format `F` per position.
pub struct Frame<F: PixelFormat> {
    width: usize,
    height: usize,
    data: Vec<u8>,
    data_valid: bool,
    _format: PhantomData<F>,
}

impl<F: PixelFormat> Frame<F> {
    /// What the frame holds.
    pub closed spec fn raster(&self) -> Raster {
        Raster {
            width: self.width as nat,
            height: self.height as nat,
            bpp: F::bytes_per_pixel(),
            bytes: self.data@,
        }
    }

    /// The frame's invariant: the extents fit the address space and the
    /// cached flag tells the truth.
    pub closed spec fn wf(&self) -> bool {
        &&& extents_fit(self.width as nat, self.height as nat, F::bytes_per_pixel())
        &&& self.data_valid == self.raster().pixelable()
    }

    /// What the invariant says to the outside.
    pub proof fn lemma_wf(&self)
        requires
            self.wf(),
        ensures
            extents_fit(self.raster().width, self.raster().height, self.raster().bpp),
            self.raster().bpp == F::bytes_per_pixel(),
    {
    }

    /// Tells whether frames of these extents can be built.
    pub fn size_fits(width: usize, height: usize) -> (ok: bool)
        ensures
            ok == extents_fit(width as nat, height as nat, F::bytes_per_pixel()),
    {
        match width.checked_mul(height) {
            Some(n) => n.checked_mul(F::byte_count()).is_some(),
            None => false,
        }
    }

    /// Builds a frame around `data`. Whether the frame is pixelable is
    /// decided here, once, from the length of `data`.
    pub fn new(data: Vec<u8>, width: usize, height: usize) -> (frame: Frame<F>)
        requires
            extents_fit(width as nat, height as nat, F::bytes_per_pixel()),
        ensures
            frame.wf(),
            frame.raster() == (Raster {
                width: width as nat,
                height: height as nat,
                bpp: F::bytes_per_pixel(),
                bytes: data@,
            }),
    {
        let data_valid = data.len() == width * height * F::byte_count();
        Frame { width, height, data_valid, data, _format: PhantomData }
    }

    /// Tells whether the buffer holds exactly one pixel per position.
    pub fn is_pixelable(&self) -> (b: bool)
        requires
            self.wf(),
        ensures
            b == self.raster().pixelable(),
    {
        self.data_valid
    }

    /// The buffer.
    pub fn bytes(&self) -> (data: &Vec<u8>)
        ensures
            data@ == self.raster().bytes,
    {
        &self.data
    }

    /// The buffer, open for writing. Its length cannot change.
    pub fn bytes_mut(&mut self) -> (data: &mut [u8])
        ensures
            data@ == old(self).raster().bytes,
            final(self).raster() == old(self).raster().with_bytes(final(data)@),
            old(self).wf() && final(data)@.len() == data@.len() ==> final(self).wf(),
    {
        self.data.as_mut_slice()
    }
}

impl<F: PixelFormat> Clone for Frame<F> {
    fn clone(&self) -> (copy: Self)
        ensures
            copy.raster() == self.raster(),
            copy.wf() == self.wf(),
    {
        let data = self.data.clone();
        assert(data@ =~= self.data@);
        Frame {
            width: self.width,
            height: self.height,
            data,
            data_valid: self.data_valid,
            _format: PhantomData,
        }
    }
}

impl<F: PixelFormat> Frame<F> {
    /// Copies this frame's pixels into `out` under `map`.
    fn map_into(&self, map: Remap, out: &mut Frame<F>) -> (done: Result<(), FrameError>)
        requires
            self.wf(),
            old(out).wf(),
            old(out).raster().width == map.shape(self.raster(), self.raster().bytes).width,
            old(out).raster().height == map.shape(self.raster(), self.raster().bytes).height,
        ensures
            final(out).wf(),
            done is Ok <==> self.raster().pixelable() && old(out).raster().pixelable(),
            done is Ok ==> final(out).raster() == map.apply(self.raster()),
            done is Err ==> final(out).raster() == old(out).raster(),
    {
        if !self.data_valid || !out.data_valid {
            return Err(FrameError::DataFormat);
        }
        proof {
            lemma_turned_len(self.raster());
        }
        remap_into(map, &self.data, &mut out.data, self.width, self.height, F::byte_count());
        Ok(())
    }

    /// Builds the frame that `map` makes of this one.
    fn mapped(&self, map: Remap) -> (made: Result<Frame<F>, FrameError>)
        requires
            self.wf(),
        ensures
            made is Ok <==> self.raster().pixelable(),
            made is Ok ==> made->Ok_0.wf() && made->Ok_0.raster() == map.apply(self.raster()),
    {
        if !self.data_valid {
            return Err(FrameError::DataFormat);
        }
        proof {
            lemma_turned_len(self.raster());
        }
        let mut data: Vec<u8> = vec![0u8; self.data.len()];
        remap_into(map, &self.data, &mut data, self.width, self.height, F::byte_count());
        let (width, height) = match map {
            Remap::Rotate90 => (self.height, self.width),
            Remap::Rotate270 => (self.height, self.width),
            _ => (self.width, self.height),
        };
        Ok(Frame { width, height, data, data_valid: true, _format: PhantomData })
    }

    /// A new frame holding this one turned a quarter clockwise. Fails on a
    /// frame that is not pixelable.
    pub fn rotate90(&self) -> (made: Result<Frame<F>, FrameError>)
        requires
            self.wf(),
        ensures
            made is Ok <==> self.raster().pixelable(),
            made is Ok ==> made->Ok_0.wf() && made->Ok_0.raster() == self.raster().rotate90(),
    {
        self.mapped(Remap::Rotate90)
    }

    /// Writes this frame, turned a quarter clockwise, into `out`, which has
    /// this frame's height as its width and its width as its height. Fails,
    /// leaving `out` as it was, unless both frames are pixelable.
    pub fn rotate90_in(&self, out: &mut Frame<F>) -> (done: Result<(), FrameError>)
        requires
            self.wf(),
            old(out).wf(),
            old(out).raster().width == self.raster().height,
            old(out).raster().height == self.raster().width,
        ensures
            final(out).wf(),
            done is Ok <==> self.raster().pixelable() && old(out).raster().pixelable(),
            done is Ok ==> final(out).raster() == self.raster().rotate90(),
            done is Err ==> final(out).raster() == old(out).raster(),
    {
        self.map_into(Remap::Rotate90, out)
    }

    /// Writes this frame, turned by a half turn, into `out`, which has this
    /// frame's extents. Fails, leaving `out` as it was, unless both frames
    /// are pixelable.
    pub fn rotate180_in(&self, out: &mut Frame<F>) -> (done: Result<(), FrameError>)
        requires
            self.wf(),
            old(out).wf(),
            old(out).raster().width == self.raster().width,
            old(out).raster().height == self.raster().height,
        ensures
            final(out).wf(),
            done is Ok <==> self.raster().pixelable() && old(out).raster().pixelable(),
            done is Ok ==> final(out).raster() == self.raster().rotate180(),
            done is Err ==> final(out).raster() == old(out).raster(),
    {
        self.map_into(Remap::Rotate180, out)
    }

    /// A new frame holding this one turned by a half turn. Fails on a frame
    /// that is not pixelable.
    pub fn rotate180(&self) -> (made: Result<Frame<F>, FrameError>)
        requires
            self.wf(),
        ensures
            made is Ok <==> self.raster().pixelable(),
            made is Ok ==> made->Ok_0.wf() && made->Ok_0.raster() == self.raster().rotate180(),
    {
        let mut out = self.clone();
        match self.rotate180_in(&mut out) {
            Ok(()) => Ok(out),
            Err(e) => Err(e),
        }
    }

    /// A new frame holding this one turned a quarter counter-clockwise.
    /// Fails on a frame that is not pixelable.
    pub fn rotate270(&self) -> (made: Result<Frame<F>, FrameError>)
        requires
            self.wf(),
        ensures
            made is Ok <==> self.raster().pixelable(),
            made is Ok ==> made->Ok_0.wf() && made->Ok_0.raster() == self.raster().rotate270(),
    {
        self.mapped(Remap::Rotate270)
    }

    /// Writes this frame, turned a quarter counter-clockwise, into `out`,
    /// which has this frame's height as its width and its width as its
    /// height. Fails, leaving `out` as it was, unless both frames are
    /// pixelable.
    pub fn rotate270_in(&self, out: &mut Frame<F>) -> (done: Result<(), FrameError>)
        requires
            self.wf(),
            old(out).wf(),
            old(out).raster().width == self.raster().height,
            old(out).raster().height == self.raster().width,
        ensures
            final(out).wf(),
            done is Ok <==> self.raster().pixelable() && old(out).raster().pixelable(),
            done is Ok ==> final(out).raster() == self.raster().rotate270(),
            done is Err ==> final(out).raster() == old(out).raster(),
    {
        self.map_into(Remap::Rotate270, out)
    }

    /// Writes this frame, top and bottom exchanged, into `out`, which has
    /// this frame's extents. Fails, leaving `out` as it was, unless both
    /// frames are pixelable.
    pub fn flip_vertical_in(&self, out: &mut Frame<F>) -> (done: Result<(), FrameError>)
        requires
            self.wf(),
            old(out).wf(),
            old(out).raster().width == self.raster().width,
            old(out).raster().height == self.raster().height,
        ensures
            final(out).wf(),
            done is Ok <==> self.raster().pixelable() && old(out).raster().pixelable(),
            done is Ok ==> final(out).raster() == self.raster().flip_vertical(),
            done is Err ==> final(out).raster() == old(out).raster(),
    {
        self.map_into(Remap::FlipVertical, out)
    }

    /// A new frame holding this one with top and bottom exchanged. Fails on
    /// a frame that is not pixelable.
    pub fn flip_vertical(&self) -> (made: Result<Frame<F>, FrameError>)
        requires
            self.wf(),
        ensures
            made is Ok <==> self.raster().pixelable(),
            made is Ok ==> made->Ok_0.wf() && made->Ok_0.raster() == self.raster().flip_vertical(),
    {
        let mut out = self.clone();
        match self.flip_vertical_in(&mut out) {
            Ok(()) => Ok(out),
            Err(e) => Err(e),
        }
    }

    /// Writes this frame, left and right exchanged, into `out`, which has
    /// this frame's extents. Fails, leaving `out` as it was, unless both
    /// frames are pixelable.
    pub fn flip_horizontal_in(&self, out: &mut Frame<F>) -> (done: Result<(), FrameError>)
        requires
            self.wf(),
            old(out).wf(),
            old(out).raster().width == self.raster().width,
            old(out).raster().height == self.raster().height,
        ensures
            final(out).wf(),
            done is Ok <==> self.raster().pixelable() && old(out).raster().pixelable(),
            done is Ok ==> final(out).raster() == self.raster().flip_horizontal(),
            done is Err ==> final(out).raster() == old(out).raster(),
    {
        self.map_into(Remap::FlipHorizontal, out)
    }

    /// A new frame holding this one with left and right exchanged. Fails on
    /// a frame that is not pixelable.
    pub fn flip_horizontal(&self) -> (made: Result<Frame<F>, FrameError>)
        requires
            self.wf(),
        ensures
            made is Ok <==> self.raster().pixelable(),
            made is Ok ==> made->Ok_0.wf() && made->Ok_0.raster() == self.raster().flip_horizontal(),
    {
        let mut out = self.clone();
        match self.flip_horizontal_in(&mut out) {
            Ok(()) => Ok(out),
            Err(e) => Err(e),
        }
    }
}

impl<F: PixelFormat> Frame<F> {
    /// Turns this frame by a half turn where it stands: the upper half is
    /// exchanged with the lower half, pixel by pixel, and where the height
    /// is odd the left half of the middle row with its right half. Fails,
    /// leaving the frame as it was, on a frame that is not pixelable.
    pub fn rotate180_in_place(&mut self) -> (done: Result<(), FrameError>)
        requires
            old(self).wf(),
        ensures
            final(self).wf(),
            done is Ok <==> old(self).raster().pixelable(),
            done is Ok ==> final(self).raster() == old(self).raster().rotate180(),
            done is Err ==> final(self).raster() == old(self).raster(),
    {
        if !self.data_valid {
            return Err(FrameError::DataFormat);
        }
        let width = self.width;
        let height = self.height;
        let bpp = F::byte_count();
        let ghost start = self.raster();
        let ghost w = width as int;
        let ghost h = height as int;
        let map = Remap::Rotate180;
        assert(start.with_bytes(self.data@) == start);
        let mut y: usize = 0;
        while y < height / 2
            invariant
                y <= height / 2,
                width == self.width == start.width,
                height == self.height == start.height,
                bpp == start.bpp == F::bytes_per_pixel(),
                w == width,
                h == height,
                map is Rotate180,
                self.data_valid,
                start.pixelable(),
                extents_fit(start.width, start.height, start.bpp),
                exchanged(map, start, self.data@, false, 0, y as int),
            decreases height / 2 - y,
        {
            let mut x: usize = 0;
            while x < width
                invariant
                    x <= width,
                    y < height / 2,
                    width == self.width == start.width,
                    height == self.height == start.height,
                    bpp == start.bpp == F::bytes_per_pixel(),
                    w == width,
                    h == height,
                    map is Rotate180,
                    self.data_valid,
                    start.pixelable(),
                    extents_fit(start.width, start.height, start.bpp),
                    exchanged(map, start, self.data@, false, x as int, y as int),
                decreases width - x,
            {
                let x2 = width - x - 1;
                let y2 = height - y - 1;
                proof {
                    lemma_pixel_span(w, h, bpp as int, x as int, y as int);
                    lemma_pixel_span(w, h, bpp as int, x2 as int, y2 as int);
                    assert(y * w + w <= y2 * w) by (nonlinear_arith)
                        requires
                            y + 1 <= y2,
                            0 <= w,
                    ;
                }
                let i = y * width + x;
                let j = y2 * width + x2;
                let ghost prev = self.data@;
                swap_pixels(&mut self.data, i, j, bpp);
                proof {
                    lemma_exchange_step(
                        map,
                        start,
                        prev,
                        self.data@,
                        false,
                        x as int,
                        y as int,
                        x + 1,
                        y as int,
                    );
                }
                x += 1;
            }
            y += 1;
        }
        // The middle row, where there is one.
        if height % 2 != 0 {
            let mid = height / 2;
            let mut x: usize = 0;
            while x < width / 2
                invariant
                    x <= width / 2,
                    mid == height / 2,
                    height % 2 != 0,
                    width == self.width == start.width,
                    height == self.height == start.height,
                    bpp == start.bpp == F::bytes_per_pixel(),
                    w == width,
                    h == height,
                    map is Rotate180,
                    self.data_valid,
                    start.pixelable(),
                    extents_fit(start.width, start.height, start.bpp),
                    exchanged(map, start, self.data@, false, x as int, mid as int),
                decreases width / 2 - x,
            {
                let x2 = width - x - 1;
                proof {
                    lemma_pixel_span(w, h, bpp as int, x as int, mid as int);
                    lemma_pixel_span(w, h, bpp as int, x2 as int, mid as int);
                }
                let i = mid * width + x;
                let j = mid * width + x2;
                let ghost prev = self.data@;
                swap_pixels(&mut self.data, i, j, bpp);
                proof {
                    lemma_exchange_step(
                        map,
                        start,
                        prev,
                        self.data@,
                        false,
                        x as int,
                        mid as int,
                        x + 1,
                        mid as int,
                    );
                }
                x += 1;
            }
            proof {
                lemma_exchange_done(map, start, self.data@, false, (width / 2) as int, mid as int);
            }
        } else {
            proof {
                lemma_exchange_done(map, start, self.data@, false, 0, (height / 2) as int);
            }
        }
        Ok(())
    }

    /// Exchanges top and bottom where the frame stands, column after
    /// column. Fails, leaving the frame as it was, on a frame that is not
    /// pixelable.
    pub fn flip_vertical_in_place(&mut self) -> (done: Result<(), FrameError>)
        requires
            old(self).wf(),
        ensures
            final(self).wf(),
            done is Ok <==> old(self).raster().pixelable(),
            done is Ok ==> final(self).raster() == old(self).raster().flip_vertical(),
            done is Err ==> final(self).raster() == old(self).raster(),
    {
        if !self.data_valid {
            return Err(FrameError::DataFormat);
        }
        let width = self.width;
        let height = self.height;
        let bpp = F::byte_count();
        let ghost start = self.raster();
        let ghost w = width as int;
        let ghost h = height as int;
        let map = Remap::FlipVertical;
        assert(start.with_bytes(self.data@) == start);
        let mut x: usize = 0;
        while x < width
            invariant
                x <= width,
                width == self.width == start.width,
                height == self.height == start.height,
                bpp == start.bpp == F::bytes_per_pixel(),
                w == width,
                h == height,
                map is FlipVertical,
                self.data_valid,
                start.pixelable(),
                extents_fit(start.width, start.height, start.bpp),
                exchanged(map, start, self.data@, true, x as int, 0),
            decreases width - x,
        {
            let mut y: usize = 0;
            while y < height / 2
                invariant
                    x < width,
                    y <= height / 2,
                    width == self.width == start.width,
                    height == self.height == start.height,
                    bpp == start.bpp == F::bytes_per_pixel(),
                    w == width,
                    h == height,
                    map is FlipVertical,
                    self.data_valid,
                    start.pixelable(),
                    extents_fit(start.width, start.height, start.bpp),
                    exchanged(map, start, self.data@, true, x as int, y as int),
                decreases height / 2 - y,
            {
                let y2 = height - y - 1;
                proof {
                    lemma_pixel_span(w, h, bpp as int, x as int, y as int);
                    lemma_pixel_span(w, h, bpp as int, x as int, y2 as int);
                    assert(y * w + w <= y2 * w) by (nonlinear_arith)
                        requires
                            y + 1 <= y2,
                            0 <= w,
                    ;
                }
                let i = y * width + x;
                let j = y2 * width + x;
                let ghost prev = self.data@;
                swap_pixels(&mut self.data, i, j, bpp);
                proof {
                    lemma_exchange_step(
                        map,
                        start,
                        prev,
                        self.data@,
                        true,
                        x as int,
                        y as int,
                        x as int,
                        y + 1,
                    );
                }
                y += 1;
            }
            proof {
                // Past the upper half of a column, every pixel of it has
                // been exchanged.
                assert(exchanged(map, start, self.data@, true, x + 1, 0));
            }
            x += 1;
        }
        proof {
            lemma_exchange_done(map, start, self.data@, true, w, 0);
        }
        Ok(())
    }

    /// Exchanges left and right where the frame stands, column after
    /// column. Fails, leaving the frame as it was, on a frame that is not
    /// pixelable.
    pub fn flip_horizontal_in_place(&mut self) -> (done: Result<(), FrameError>)
        requires
            old(self).wf(),
        ensures
            final(self).wf(),
            done is Ok <==> old(self).raster().pixelable(),
            done is Ok ==> final(self).raster() == old(self).raster().flip_horizontal(),
            done is Err ==> final(self).raster() == old(self).raster(),
    {
        if !self.data_valid {
            return Err(FrameError::DataFormat);
        }
        let width = self.width;
        let height = self.height;
        let bpp = F::byte_count();
        let ghost start = self.raster();
        let ghost w = width as int;
        let ghost h = height as int;
        let map = Remap::FlipHorizontal;
        assert(start.with_bytes(self.data@) == start);
        let mut x: usize = 0;
        while x < width / 2
            invariant
                x <= width / 2,
                width == self.width == start.width,
                height == self.height == start.height,
                bpp == start.bpp == F::bytes_per_pixel(),
                w == width,
                h == height,
                map is FlipHorizontal,
                self.data_valid,
                start.pixelable(),
                extents_fit(start.width, start.height, start.bpp),
                exchanged(map, start, self.data@, true, x as int, 0),
            decreases width / 2 - x,
        {
            let mut y: usize = 0;
            while y < height
                invariant
                    x < width / 2,
                    y <= height,
                    width == self.width == start.width,
                    height == self.height == start.height,
                    bpp == start.bpp == F::bytes_per_pixel(),
                    w == width,
                    h == height,
                    map is FlipHorizontal,
                    self.data_valid,
                    start.pixelable(),
                    extents_fit(start.width, start.height, start.bpp),
                    exchanged(map, start, self.data@, true, x as int, y as int),
                decreases height - y,
            {
                let x2 = width - x - 1;
                proof {
                    lemma_pixel_span(w, h, bpp as int, x as int, y as int);
                    lemma_pixel_span(w, h, bpp as int, x2 as int, y as int);
                }
                let i = y * width + x;
                let j = y * width + x2;
                let ghost prev = self.data@;
                swap_pixels(&mut self.data, i, j, bpp);
                proof {
                    lemma_exchange_step(
                        map,
                        start,
                        prev,
                        self.data@,
                        true,
                        x as int,
                        y as int,
                        x as int,
                        y + 1,
                    );
                }
                y += 1;
            }
            proof {
                assert(exchanged(map, start, self.data@, true, x + 1, 0));
            }
            x += 1;
        }
        proof {
            lemma_exchange_done(map, start, self.data@, true, (width / 2) as int, 0);
        }
        Ok(())
    }
}

impl<F: PixelFormat> Pixelate<F> for Frame<F> {
    open spec fn sound(&self) -> bool {
        self.wf()
    }

    open spec fn pixels_wide(&self) -> nat {
        self.raster().width
    }

    open spec fn pixels_high(&self) -> nat {
        self.raster().height
    }

    open spec fn left(&self) -> nat {
        0
    }

    open spec fn top(&self) -> nat {
        0
    }

    open spec fn pixel_at(&self, index: int) -> Option<Seq<u8>> {
        if 0 <= index < self.raster().pixel_count() && (index + 1) * self.raster().bpp <= self.raster().bytes.len() {
            Some(self.raster().pixel(index))
        } else {
            None
        }
    }

    proof fn lemma_sound(&self) {
    }

    fn get_pixel_index<'a>(&'a self, index: usize) -> (pixel: Option<Pixel<'a, F>>) {
        if index < self.len() {
            let bpp = F::byte_count();
            assert(index * bpp + bpp <= self.width * self.height * bpp) by (nonlinear_arith)
                requires
                    index < self.width * self.height,
                    0 <= bpp,
            ;
            let start = index * bpp;
            assert((index + 1) * bpp == start + bpp) by (nonlinear_arith)
                requires
                    start == index * bpp,
            ;
            if start + bpp <= self.data.len() {
                Some(Pixel::new(slice_subrange(self.data.as_slice(), start, start + bpp)))
            } else {
                None
            }
        } else {
            None
        }
    }

    fn row_offset(&self) -> (n: usize) {
        0
    }

    fn col_offset(&self) -> (n: usize) {
        0
    }

    fn width(&self) -> (n: usize) {
        self.width
    }

    fn height(&self) -> (n: usize) {
        self.height
    }
}

impl<F: PixelFormat> Frame<F> {
    /// A walk over the frame's pixels. Fails on a frame that is not
    /// pixelable.
    pub fn pixels<'a>(&'a self) -> (iter: Result<PixelIter<'a, F, Self>, FrameError>)
        requires
            self.wf(),
        ensures
            iter is Ok <==> self.raster().pixelable(),
            iter is Ok ==> iter->Ok_0.source() == self && iter->Ok_0.position() == 0,
    {
        if !self.is_pixelable() {
            Err(FrameError::DataFormat)
        } else {
            Ok(PixelIter::new(self))
        }
    }

    /// The part of the frame that `rows` and `cols` select, or nothing
    /// where they do not lie inside it. Fails on a frame that is not
    /// pixelable.
    pub fn view<'a>(
        &'a self,
        rows: (Bound<usize>, Bound<usize>),
        cols: (Bound<usize>, Bound<usize>),
    ) -> (view: Result<Option<FrameView<'a, F, Self>>, FrameError>)
        requires
            self.wf(),
        ensures
            view is Ok <==> self.raster().pixelable(),
            view is Ok ==> match select(rows, cols, self.raster().width, self.raster().height) {
                Some(w) => view->Ok_0 is Some && view->Ok_0->0.wf() && view->Ok_0->0.source()
                    == self && view->Ok_0->0.window() == w,
                None => view->Ok_0 is None,
            },
    {
        if !self.is_pixelable() {
            Err(FrameError::DataFormat)
        } else {
            Ok(FrameView::new(self, rows, cols))
        }
    }

    /// Some rows of the frame, in their full width.
    pub fn rows<'a>(&'a self, rows: (Bound<usize>, Bound<usize>)) -> (view: Result<
        Option<FrameView<'a, F, Self>>,
        FrameError,
    >)
        requires
            self.wf(),
        ensures
            view is Ok <==> self.raster().pixelable(),
            view is Ok ==> match select(rows, all(), self.raster().width, self.raster().height) {
                Some(w) => view->Ok_0 is Some && view->Ok_0->0.wf() && view->Ok_0->0.source()
                    == self && view->Ok_0->0.window() == w,
                None => view->Ok_0 is None,
            },
    {
        self.view(rows, all())
    }

    /// Some columns of the frame, in their full height.
    pub fn cols<'a>(&'a self, cols: (Bound<usize>, Bound<usize>)) -> (view: Result<
        Option<FrameView<'a, F, Self>>,
        FrameError,
    >)
        requires
            self.wf(),
        ensures
            view is Ok <==> self.raster().pixelable(),
            view is Ok ==> match select(all(), cols, self.raster().width, self.raster().height) {
                Some(w) => view->Ok_0 is Some && view->Ok_0->0.wf() && view->Ok_0->0.source()
                    == self && view->Ok_0->0.window() == w,
                None => view->Ok_0 is None,
            },
    {
        self.view(all(), cols)
    }
}

/// `bytes` with the part that begins at `start` replaced by `part`.
pub open spec fn splice(bytes: Seq<u8>, start: int, part: Seq<u8>) -> Seq<u8> {
    bytes.subrange(0, start) + part + bytes.subrange(start + part.len(), bytes.len() as int)
}

impl<F: PixelFormat> Frame<F> {
    /// Replacing the bytes of one pixel rewrites that pixel and no other.
    proof fn lemma_splice(&self, index: int)
        requires
            self.wf(),
            0 <= index < self.raster().pixel_count(),
            (index + 1) * self.raster().bpp <= self.raster().bytes.len(),
        ensures
            forall|after: Frame<F>, part: Seq<u8>|
                after.width == self.width && after.height == self.height && after.data_valid
                    == self.data_valid && part.len() == F::bytes_per_pixel() && after.data@
                    == #[trigger] splice(self.data@, index * F::bytes_per_pixel(), part)
                    ==> #[trigger] rewritten::<F, Frame<F>>(self, &after, index, part),
    {
        let bpp = F::bytes_per_pixel() as int;
        let start = index * bpp;
        assert(start + bpp == (index + 1) * bpp) by (nonlinear_arith)
            requires
                start == index * bpp,
        ;
        assert forall|after: Frame<F>, part: Seq<u8>|
            after.width == self.width && after.height == self.height && after.data_valid
                == self.data_valid && part.len() == F::bytes_per_pixel() && after.data@
                == #[trigger] splice(self.data@, index * F::bytes_per_pixel(), part)
                implies #[trigger] rewritten::<F, Frame<F>>(self, &after, index, part) by {
            assert(after.data@.len() == self.data@.len());
            assert forall|i: int| #[trigger]
                after.pixel_at(i) == if i == index {
                    Some(part)
                } else {
                    self.pixel_at(i)
                } by {
                if 0 <= i < self.raster().pixel_count() && (i + 1) * bpp <= self.data@.len() {
                    assert(i * bpp + bpp == (i + 1) * bpp) by (nonlinear_arith);
                    if i < index {
                        assert((i + 1) * bpp <= index * bpp) by (nonlinear_arith)
                            requires
                                i + 1 <= index,
                                0 <= bpp,
                        ;
                    }
                    if i > index {
                        assert((index + 1) * bpp <= i * bpp) by (nonlinear_arith)
                            requires
                                index + 1 <= i,
                                0 <= bpp,
                        ;
                    }
                    assert(0 <= i * bpp) by (nonlinear_arith)
                        requires
                            0 <= i,
                            0 <= bpp,
                    ;
                    assert(after.raster().pixel(i) =~= if i == index {
                        part
                    } else {
                        self.raster().pixel(i)
                    });
                }
            }
        }
    }
}

impl<F: PixelFormat> PixelateMut<F> for Frame<F> {
    fn get_pixel_index_mut<'a>(&'a mut self, index: usize) -> (pixel: Option<PixelMut<'a, F>>) {
        if index < self.len() {
            let bpp = F::byte_count();
            assert(index * bpp + bpp <= self.width * self.height * bpp) by (nonlinear_arith)
                requires
                    index < self.width * self.height,
                    0 <= bpp,
            ;
            let start = index * bpp;
            assert((index + 1) * bpp == start + bpp) by (nonlinear_arith)
                requires
                    start == index * bpp,
            ;
            if start + bpp <= self.data.len() {
                let ghost before = *self;
                proof {
                    before.lemma_splice(index as int);
                }
                let whole = self.data.as_mut_slice();
                let (head, rest) = whole.split_at_mut(start);
                let (span, tail) = rest.split_at_mut(bpp);
                let pixel = PixelMut::new(span);
                assert(final(pixel.data)@.len() == bpp ==> splice(
                    before.data@,
                    start as int,
                    final(pixel.data)@,
                ) =~= head@ + (final(pixel.data)@ + tail@));
                Some(pixel)
            } else {
                None
            }
        } else {
            None
        }
    }
}

impl<F: PixelFormat> Frame<F> {
    /// A walk over the frame's pixels that can write them. Fails on a frame
    /// that is not pixelable.
    pub fn pixels_mut<'a>(&'a mut self) -> (iter: Result<PixelIterMut<'a, F, Self>, FrameError>)
        requires
            old(self).wf(),
        ensures
            iter is Ok <==> old(self).raster().pixelable(),
            iter is Ok ==> *iter->Ok_0.source == *old(self) && iter->Ok_0.index == 0 && *final(self) == *final(iter->Ok_0.source),
            iter is Err ==> *final(self) == *old(self),
    {
        if !self.is_pixelable() {
            Err(FrameError::DataFormat)
        } else {
            Ok(PixelIterMut::new(self))
        }
    }

    /// The part of the frame that `rows` and `cols` select, open for
    /// writing, or nothing where they do not lie inside the frame. Fails on
    /// a frame that is not pixelable.
    pub fn view_mut<'a>(
        &'a mut self,
        rows: (Bound<usize>, Bound<usize>),
        cols: (Bound<usize>, Bound<usize>),
    ) -> (view: Result<Option<FrameViewMut<'a, F, Self>>, FrameError>)
        requires
            old(self).wf(),
        ensures
            view is Ok <==> old(self).raster().pixelable(),
            view is Ok ==> match select(
                rows,
                cols,
                old(self).raster().width,
                old(self).raster().height,
            ) {
                Some(w) => view->Ok_0 is Some && view->Ok_0->0.wf() && *view->Ok_0->0.source
                    == *old(self) && view->Ok_0->0.window == w && *final(self) == *final(view->Ok_0->0.source),
                None => view->Ok_0 is None && *final(self) == *old(self),
            },
            view is Err ==> *final(self) == *old(self),
    {
        if !self.is_pixelable() {
            Err(FrameError::DataFormat)
        } else {
            Ok(FrameViewMut::new(self, rows, cols))
        }
    }

    /// Some rows of the frame, in their full width, open for writing.
    pub fn rows_mut<'a>(&'a mut self, rows: (Bound<usize>, Bound<usize>)) -> (view: Result<
        Option<FrameViewMut<'a, F, Self>>,
        FrameError,
    >)
        requires
            old(self).wf(),
        ensures
            view is Ok <==> old(self).raster().pixelable(),
            view is Ok ==> match select(
                rows,
                all(),
                old(self).raster().width,
                old(self).raster().height,
            ) {
                Some(w) => view->Ok_0 is Some && view->Ok_0->0.wf() && *view->Ok_0->0.source
                    == *old(self) && view->Ok_0->0.window == w && *final(self) == *final(view->Ok_0->0.source),
                None => view->Ok_0 is None && *final(self) == *old(self),
            },
            view is Err ==> *final(self) == *old(self),
    {
        self.view_mut(rows, all())
    }

    /// Some columns of the frame, in their full height, open for writing.
    pub fn cols_mut<'a>(&'a mut self, cols: (Bound<usize>, Bound<usize>)) -> (view: Result<
        Option<FrameViewMut<'a, F, Self>>,
        FrameError,
    >)
        requires
            old(self).wf(),
        ensures
            view is Ok <==> old(self).raster().pixelable(),
            view is Ok ==> match select(
                all(),
                cols,
                old(self).raster().width,
                old(self).raster().height,
            ) {
                Some(w) => view->Ok_0 is Some && view->Ok_0->0.wf() && *view->Ok_0->0.source
                    == *old(self) && view->Ok_0->0.window == w && *final(self) == *final(view->Ok_0->0.source),
                None => view->Ok_0 is None && *final(self) == *old(self),
            },
            view is Err ==> *final(self) == *old(self),
    {
        self.view_mut(all(), cols)
    }
}

/// The five maps, as the shared copying loop sees them.
#[derive(Clone, Copy)]
enum Remap {
    Rotate90,
    Rotate180,
    Rotate270,
    FlipVertical,
    FlipHorizontal,
}

impl Remap {
    /// Whether the map exchanges width and height.
    spec fn turns(self) -> bool {
        self is Rotate90 || self is Rotate270
    }

    /// Where the pixel at `(x, y)` of a `w` by `h` raster goes.
    spec fn dest(self, w: int, h: int, x: int, y: int) -> (int, int) {
        match self {
            Remap::Rotate90 => (h - 1 - y, x),
            Remap::Rotate180 => (w - 1 - x, h - 1 - y),
            Remap::Rotate270 => (y, w - 1 - x),
            Remap::FlipVertical => (x, h - 1 - y),
            Remap::FlipHorizontal => (w - 1 - x, y),
        }
    }

    /// The shape of the result for a `w` by `h` raster around `bytes`.
    spec fn shape(self, r: Raster, bytes: Seq<u8>) -> Raster {
        if self.turns() {
            r.turned().with_bytes(bytes)
        } else {
            r.with_bytes(bytes)
        }
    }

    /// The raster that the map makes of `r`.
    spec fn apply(self, r: Raster) -> Raster {
        match self {
            Remap::Rotate90 => r.rotate90(),
            Remap::Rotate180 => r.rotate180(),
            Remap::Rotate270 => r.rotate270(),
            Remap::FlipVertical => r.flip_vertical(),
            Remap::FlipHorizontal => r.flip_horizontal(),
        }
    }
}

/// Copies the pixel with index `si` of `src` over the pixel with index `di`
/// of `dst`.
fn copy_pixel(src: &Vec<u8>, si: usize, dst: &mut Vec<u8>, di: usize, bpp: usize)
    requires
        si * bpp + bpp <= src.len(),
        di * bpp + bpp <= old(dst).len(),
    ensures
        final(dst).len() == old(dst).len(),
        forall|k: int|
            0 <= k < old(dst).len() ==> #[trigger] final(dst)[k] == if di * bpp <= k < di * bpp
                + bpp {
                src[si * bpp + (k - di * bpp)]
            } else {
                old(dst)[k]
            },
{
    let sbase = si * bpp;
    let dbase = di * bpp;
    let mut c: usize = 0;
    while c < bpp
        invariant
            c <= bpp,
            sbase == si * bpp,
            dbase == di * bpp,
            sbase + bpp <= src.len(),
            dbase + bpp <= dst.len(),
            dst.len() == old(dst).len(),
            forall|k: int|
                0 <= k < dst.len() ==> #[trigger] dst[k] == if dbase <= k < dbase + c {
                    src[sbase + (k - dbase)]
                } else {
                    old(dst)[k]
                },
        decreases bpp - c,
    {
        dst.set(dbase + c, src[sbase + c]);
        c += 1;
    }
}

/// Exchanges the pixels with index `i` and `j`.
fn swap_pixels(data: &mut Vec<u8>, i: usize, j: usize, bpp: usize)
    requires
        i != j,
        i * bpp + bpp <= old(data).len(),
        j * bpp + bpp <= old(data).len(),
    ensures
        final(data).len() == old(data).len(),
        forall|k: int|
            0 <= k < old(data).len() ==> #[trigger] final(data)[k] == if i * bpp <= k < i * bpp
                + bpp {
                old(data)[j * bpp + (k - i * bpp)]
            } else if j * bpp <= k < j * bpp + bpp {
                old(data)[i * bpp + (k - j * bpp)]
            } else {
                old(data)[k]
            },
{
    let ibase = i * bpp;
    let jbase = j * bpp;
    assert(ibase + bpp <= jbase || jbase + bpp <= ibase) by (nonlinear_arith)
        requires
            i != j,
            ibase == i * bpp,
            jbase == j * bpp,
    ;
    let mut c: usize = 0;
    while c < bpp
        invariant
            c <= bpp,
            ibase == i * bpp,
            jbase == j * bpp,
            ibase + bpp <= jbase || jbase + bpp <= ibase,
            ibase + bpp <= data.len(),
            jbase + bpp <= data.len(),
            data.len() == old(data).len(),
            forall|k: int|
                0 <= k < data.len() ==> #[trigger] data[k] == if ibase <= k < ibase + c {
                    old(data)[jbase + (k - ibase)]
                } else if jbase <= k < jbase + c {
                    old(data)[ibase + (k - jbase)]
                } else {
                    old(data)[k]
                },
        decreases bpp - c,
    {
        let a = data[ibase + c];
        let b = data[jbase + c];
        data.set(ibase + c, b);
        data.set(jbase + c, a);
        c += 1;
    }
}

/// Every pixel inside the extents has its bytes inside the buffer.
proof fn lemma_pixel_span(w: int, h: int, bpp: int, x: int, y: int)
    requires
        0 <= x < w,
        0 <= y < h,
        0 <= bpp,
    ensures
        0 <= y * w + x < w * h,
        0 <= (y * w + x) * bpp,
        (y * w + x) * bpp + bpp <= w * h * bpp,
{
    assert(0 <= y * w && y * w + w <= h * w) by (nonlinear_arith)
        requires
            0 <= y < h,
            0 < w,
    ;
    assert(h * w == w * h) by (nonlinear_arith);
    let p = y * w + x;
    assert(0 <= p * bpp && p * bpp + bpp <= w * h * bpp) by (nonlinear_arith)
        requires
            0 <= p < w * h,
            0 <= bpp,
    ;
}

/// Writes into `dst` what `map` makes of the `width` by `height` pixels in
/// `src`, pixel by pixel, column after column.
fn remap_into(map: Remap, src: &Vec<u8>, dst: &mut Vec<u8>, width: usize, height: usize, bpp: usize)
    requires
        extents_fit(width as nat, height as nat, bpp as nat),
        src.len() == width * height * bpp,
        old(dst).len() == src.len(),
    ensures
        final(dst).len() == old(dst).len(),
        final(dst)@ == map.apply(
            Raster { width: width as nat, height: height as nat, bpp: bpp as nat, bytes: src@ },
        ).bytes,
{
    let ghost sr = Raster {
        width: width as nat,
        height: height as nat,
        bpp: bpp as nat,
        bytes: src@,
    };
    let ghost w = width as int;
    let ghost h = height as int;
    let dw = match map {
        Remap::Rotate90 => height,
        Remap::Rotate270 => height,
        _ => width,
    };
    proof {
        lemma_turned_len(sr);
    }
    let mut x: usize = 0;
    while x < width
        invariant
            x <= width,
            sr.width == width,
            sr.height == height,
            sr.bpp == bpp,
            sr.bytes == src@,
            w == width,
            h == height,
            dw == map.shape(sr, dst@).width,
            extents_fit(width as nat, height as nat, bpp as nat),
            src.len() == width * height * bpp,
            dst.len() == src.len(),
            forall|px: int, py: int, c: int|
                0 <= px < x && 0 <= py < h && 0 <= c < bpp ==> map.shape(sr, dst@).byte(
                    map.dest(w, h, px, py).0,
                    map.dest(w, h, px, py).1,
                    c,
                ) == #[trigger] sr.byte(px, py, c),
        decreases width - x,
    {
        let mut y: usize = 0;
        while y < height
            invariant
                x < width,
                y <= height,
                sr.width == width,
                sr.height == height,
                sr.bpp == bpp,
                sr.bytes == src@,
                w == width,
                h == height,
                dw == map.shape(sr, dst@).width,
                extents_fit(width as nat, height as nat, bpp as nat),
                src.len() == width * height * bpp,
                dst.len() == src.len(),
                forall|px: int, py: int, c: int|
                    (0 <= px < x && 0 <= py < h || px == x && 0 <= py < y) && 0 <= c < bpp
                        ==> map.shape(sr, dst@).byte(
                        map.dest(w, h, px, py).0,
                        map.dest(w, h, px, py).1,
                        c,
                    ) == #[trigger] sr.byte(px, py, c),
            decreases height - y,
        {
            let (dx, dy) = match map {
                Remap::Rotate90 => (height - y - 1, x),
                Remap::Rotate180 => (width - x - 1, height - y - 1),
                Remap::Rotate270 => (y, width - x - 1),
                Remap::FlipVertical => (x, height - y - 1),
                Remap::FlipHorizontal => (width - x - 1, y),
            };
            let ghost shape = map.shape(sr, dst@);
            proof {
                lemma_turned_len(sr);
                lemma_pixel_span(w, h, bpp as int, x as int, y as int);
                lemma_pixel_span(
                    shape.width as int,
                    shape.height as int,
                    bpp as int,
                    dx as int,
                    dy as int,
                );
            }
            let si = y * width + x;
            let di = dy * dw + dx;
            let ghost prev = dst@;
            copy_pixel(src, si, dst, di, bpp);
            proof {
                let now = map.shape(sr, dst@);
                assert forall|px: int, py: int, c: int|
                    (0 <= px < x && 0 <= py < h || px == x && 0 <= py < y + 1) && 0 <= c
                        < bpp implies now.byte(
                    map.dest(w, h, px, py).0,
                    map.dest(w, h, px, py).1,
                    c,
                ) == #[trigger] sr.byte(px, py, c) by {
                    let ex = map.dest(w, h, px, py).0;
                    let ey = map.dest(w, h, px, py).1;
                    lemma_offset(shape, ex, ey, c);
                    let ko = shape.offset(ex, ey, c);
                    assert(ko == now.offset(ex, ey, c));
                    if px == x && py == y {
                        assert(ko == di * bpp + c);
                        assert(sr.offset(px, py, c) == si * bpp + c);
                    } else {
                        if di * bpp <= ko < di * bpp + bpp {
                            lemma_offset(shape, dx as int, dy as int, ko - di * bpp);
                            assert(false);
                        }
                        assert(dst@[ko] == prev[ko]);
                        assert(shape.byte(ex, ey, c) == sr.byte(px, py, c));
                    }
                }
            }
            y += 1;
        }
        x += 1;
    }
    proof {
        let out = map.shape(sr, dst@);
        let want = map.apply(sr);
        assert(out.pixelable());
        assert(sr.pixelable());
        assert forall|ex: int, ey: int, c: int|
            0 <= ex < out.width && 0 <= ey < out.height && 0 <= c < out.bpp implies out.byte(
            ex,
            ey,
            c,
        ) == want.byte(ex, ey, c) by {
            match map {
                Remap::Rotate90 => {
                    lemma_rotate90_at(sr, ex, ey, c);
                    assert(out.byte(ex, ey, c) == sr.byte(ey, h - 1 - ex, c));
                },
                Remap::Rotate180 => {
                    lemma_rotate180_at(sr, ex, ey, c);
                    assert(out.byte(ex, ey, c) == sr.byte(w - 1 - ex, h - 1 - ey, c));
                },
                Remap::Rotate270 => {
                    lemma_rotate270_at(sr, ex, ey, c);
                    assert(out.byte(ex, ey, c) == sr.byte(w - 1 - ey, ex, c));
                },
                Remap::FlipVertical => {
                    lemma_flip_vertical_at(sr, ex, ey, c);
                    assert(out.byte(ex, ey, c) == sr.byte(ex, h - 1 - ey, c));
                },
                Remap::FlipHorizontal => {
                    lemma_flip_horizontal_at(sr, ex, ey, c);
                    assert(out.byte(ex, ey, c) == sr.byte(w - 1 - ex, ey, c));
                },
            }
        }
        lemma_same_bytes(out, want);
    }
}

/// In a walk over the pixel positions, whether `(a, b)` comes before
/// `(x, y)`: column after column, or row after row.
spec fn before(by_column: bool, a: int, b: int, x: int, y: int) -> bool {
    if by_column {
        a < x || (a == x && b < y)
    } else {
        b < y || (b == y && a < x)
    }
}

/// The state of an exchange in place that has reached `(x, y)`: a pixel
/// holds what its partner held at the start if the walk has passed either
/// of the two, and what it held itself otherwise.
spec fn exchanged(map: Remap, start: Raster, cur: Seq<u8>, by_column: bool, x: int, y: int) -> bool {
    let w = start.width as int;
    let h = start.height as int;
    &&& cur.len() == start.bytes.len()
    &&& forall|a: int, b: int, c: int|
        0 <= a < w && 0 <= b < h && 0 <= c < start.bpp ==> #[trigger] start.with_bytes(cur).byte(
            a,
            b,
            c,
        ) == if before(by_column, a, b, x, y) || before(
            by_column,
            map.dest(w, h, a, b).0,
            map.dest(w, h, a, b).1,
            x,
            y,
        ) {
            start.byte(map.dest(w, h, a, b).0, map.dest(w, h, a, b).1, c)
        } else {
            start.byte(a, b, c)
        }
}

/// Exchanging the pixel at `(x, y)` with its partner carries the walk from
/// `(x, y)` to the next position.
proof fn lemma_exchange_step(
    map: Remap,
    start: Raster,
    prev: Seq<u8>,
    now: Seq<u8>,
    by_column: bool,
    x: int,
    y: int,
    x2: int,
    y2: int,
)
    requires
        !map.turns(),
        start.pixelable(),
        0 <= x < start.width,
        0 <= y < start.height,
        exchanged(map, start, prev, by_column, x, y),
        ({
            let w = start.width as int;
            let h = start.height as int;
            let px = map.dest(w, h, x, y).0;
            let py = map.dest(w, h, x, y).1;
            let i = y * w + x;
            let j = py * w + px;
            let bpp = start.bpp as int;
            &&& !before(by_column, px, py, x, y)
            &&& (px != x || py != y)
            &&& now.len() == prev.len()
            &&& forall|k: int|
                0 <= k < prev.len() ==> #[trigger] now[k] == if i * bpp <= k < i * bpp + bpp {
                    prev[j * bpp + (k - i * bpp)]
                } else if j * bpp <= k < j * bpp + bpp {
                    prev[i * bpp + (k - j * bpp)]
                } else {
                    prev[k]
                }
            &&& forall|a: int, b: int|
                0 <= a < w && 0 <= b < h ==> #[trigger] before(by_column, a, b, x2, y2) == (before(
                    by_column,
                    a,
                    b,
                    x,
                    y,
                ) || (a == x && b == y))
        }),
    ensures
        exchanged(map, start, now, by_column, x2, y2),
{
    let w = start.width as int;
    let h = start.height as int;
    let bpp = start.bpp as int;
    let px = map.dest(w, h, x, y).0;
    let py = map.dest(w, h, x, y).1;
    let i = y * w + x;
    let j = py * w + px;
    let before_r = start.with_bytes(prev);
    let after_r = start.with_bytes(now);
    assert forall|a: int, b: int, c: int|
        0 <= a < w && 0 <= b < h && 0 <= c < bpp implies #[trigger] after_r.byte(a, b, c) == if before(
        by_column,
        a,
        b,
        x2,
        y2,
    ) || before(by_column, map.dest(w, h, a, b).0, map.dest(w, h, a, b).1, x2, y2) {
        start.byte(map.dest(w, h, a, b).0, map.dest(w, h, a, b).1, c)
    } else {
        start.byte(a, b, c)
    } by {
        let qa = map.dest(w, h, a, b).0;
        let qb = map.dest(w, h, a, b).1;
        lemma_offset(start, a, b, c);
        lemma_offset(start, qa, qb, c);
        let k = start.offset(a, b, c);
        assert(before(by_column, qa, qb, x2, y2) == (before(by_column, qa, qb, x, y) || (qa == x
            && qb == y)));
        if a == x && b == y {
            assert(k == i * bpp + c);
            assert(now[k] == prev[j * bpp + c]);
            assert(before_r.byte(px, py, c) == prev[j * bpp + c]);
            assert(map.dest(w, h, px, py) == (x, y));
        } else if a == px && b == py {
            assert(k == j * bpp + c);
            assert(qa == x && qb == y);
            if i * bpp <= k < i * bpp + bpp {
                lemma_offset(start, x, y, k - i * bpp);
                assert(false);
            }
            assert(now[k] == prev[i * bpp + c]);
            assert(before_r.byte(x, y, c) == prev[i * bpp + c]);
        } else {
            if i * bpp <= k < i * bpp + bpp {
                lemma_offset(start, x, y, k - i * bpp);
                assert(false);
            }
            if j * bpp <= k < j * bpp + bpp {
                lemma_offset(start, px, py, k - j * bpp);
                assert(false);
            }
            assert(now[k] == prev[k]);
            assert(after_r.byte(a, b, c) == before_r.byte(a, b, c));
        }
    }
}

/// Once the walk has passed one pixel of every pair, the buffer holds what
/// the map makes of the start.
proof fn lemma_exchange_done(
    map: Remap,
    start: Raster,
    cur: Seq<u8>,
    by_column: bool,
    x: int,
    y: int,
)
    requires
        !map.turns(),
        start.pixelable(),
        exchanged(map, start, cur, by_column, x, y),
        forall|a: int, b: int|
            0 <= a < start.width && 0 <= b < start.height ==> #[trigger] before(
                by_column,
                a,
                b,
                x,
                y,
            ) || before(
                by_column,
                map.dest(start.width as int, start.height as int, a, b).0,
                map.dest(start.width as int, start.height as int, a, b).1,
                x,
                y,
            ) || map.dest(start.width as int, start.height as int, a, b) == (a, b),
    ensures
        start.with_bytes(cur) == map.apply(start),
{
    let w = start.width as int;
    let h = start.height as int;
    let out = start.with_bytes(cur);
    let want = map.apply(start);
    assert forall|a: int, b: int, c: int|
        0 <= a < out.width && 0 <= b < out.height && 0 <= c < out.bpp implies out.byte(a, b, c)
        == want.byte(a, b, c) by {
        assert(before(by_column, a, b, x, y) || before(
            by_column,
            map.dest(w, h, a, b).0,
            map.dest(w, h, a, b).1,
            x,
            y,
        ) || map.dest(w, h, a, b) == (a, b));
        match map {
            Remap::Rotate180 => {
                lemma_rotate180_at(start, a, b, c);
            },
            Remap::FlipVertical => {
                lemma_flip_vertical_at(start, a, b, c);
            },
            Remap::FlipHorizontal => {
                lemma_flip_horizontal_at(start, a, b, c);
            },
            _ => {},
        }
    }
    lemma_same_bytes(out, want);
}

} // verus!
