//! Sources that change the frames of another source on their way through.

use crate::camera::FrameSource;
use crate::error::{Error, Result};
use crate::frame::raster::Raster;
use crate::frame::{Frame, FrameError, Luma, PixelFormat, Pixelate, RGB};
use std::marker::PhantomData;
use std::sync::Arc;
use vstd::prelude::*;

verus! {

/// The turns a `Rotate` can make.
#[derive(Clone, Copy, Debug, PartialEq, Eq, Structural)]
pub enum Rotation {
    Clockwise90,
    Clockwise180,
    Clockwise270,
    /// The same as `Clockwise270`.
    Counter90,
    /// The same as `Clockwise180`.
    Counter180,
    /// The same as `Clockwise90`.
    Counter270,
}

impl Rotation {
    /// What the turn makes of a raster.
    pub open spec fn apply(self, r: Raster) -> Raster {
        match self {
            Rotation::Clockwise90 | Rotation::Counter270 => r.rotate90(),
            Rotation::Clockwise180 | Rotation::Counter180 => r.rotate180(),
            Rotation::Clockwise270 | Rotation::Counter90 => r.rotate270(),
        }
    }

    /// Turns `frame`. Fails on a frame that is not pixelable.
    pub fn turn<F: PixelFormat>(self, frame: &Frame<F>) -> (made: core::result::Result<
        Frame<F>,
        FrameError,
    >)
        requires
            frame.wf(),
        ensures
            made is Ok <==> frame.raster().pixelable(),
            made is Ok ==> made->Ok_0.wf() && made->Ok_0.raster() == self.apply(frame.raster()),
    {
        match self {
            Rotation::Clockwise90 | Rotation::Counter270 => frame.rotate90(),
            Rotation::Clockwise180 | Rotation::Counter180 => frame.rotate180(),
            Rotation::Clockwise270 | Rotation::Counter90 => frame.rotate270(),
        }
    }
}

/// The mirrorings a `Reflect` can make.
#[derive(Clone, Copy, Debug, PartialEq, Eq, Structural)]
pub enum Reflection {
    Vertical,
    Horizontal,
}

impl Reflection {
    /// What the mirroring makes of a raster.
    pub open spec fn apply(self, r: Raster) -> Raster {
        match self {
            Reflection::Vertical => r.flip_vertical(),
            Reflection::Horizontal => r.flip_horizontal(),
        }
    }

    /// Mirrors `frame`. Fails on a frame that is not pixelable.
    pub fn mirror<F: PixelFormat>(self, frame: &Frame<F>) -> (made: core::result::Result<
        Frame<F>,
        FrameError,
    >)
        requires
            frame.wf(),
        ensures
            made is Ok <==> frame.raster().pixelable(),
            made is Ok ==> made->Ok_0.wf() && made->Ok_0.raster() == self.apply(frame.raster()),
    {
        match self {
            Reflection::Vertical => frame.flip_vertical(),
            Reflection::Horizontal => frame.flip_horizontal(),
        }
    }
}

/// What a transform returns for what its source returned, where `made`
/// says what becomes of a frame: errors and empty pulls pass through, a
/// frame that can be changed is changed, and a frame that cannot be is
/// answered with `FrameData`.
pub open spec fn passes<F: PixelFormat, T: PixelFormat>(
    upstream: Result<Option<Arc<Frame<F>>>>,
    made: spec_fn(Raster) -> Raster,
    out: Result<Option<Arc<Frame<T>>>>,
) -> bool {
    match upstream {
        Err(e) => out == Err::<Option<Arc<Frame<T>>>, Error>(e),
        Ok(None) => out matches Ok(None),
        Ok(Some(frame)) => if frame.raster().pixelable() {
            out matches Ok(Some(changed)) && changed.wf() && changed.raster() == made(
                frame.raster(),
            )
        } else {
            out matches Err(Error::FrameData)
        },
    }
}

/// Hands on what `upstream` returned, with `made` in place of the frame.
fn pass<F: PixelFormat, T: PixelFormat>(
    upstream: Result<Option<Arc<Frame<F>>>>,
    made: Option<core::result::Result<Frame<T>, FrameError>>,
    Ghost(change): Ghost<spec_fn(Raster) -> Raster>,
) -> (out: Result<Option<Arc<Frame<T>>>>)
    requires
        upstream matches Ok(Some(frame)) ==> made is Some && (made->0 is Ok
            <==> frame.raster().pixelable()) && (made->0 is Ok ==> made->0->Ok_0.wf()
            && made->0->Ok_0.raster() == change(frame.raster())),
    ensures
        passes(upstream, change, out),
        out matches Ok(Some(frame)) ==> frame.wf(),
{
    match upstream {
        Err(e) => Err(e),
        Ok(None) => Ok(None),
        Ok(Some(_)) => match made {
            Some(Ok(changed)) => Ok(Some(Arc::new(changed))),
            _ => Err(Error::FrameData),
        },
    }
}

/// Turns every frame of its source.
pub struct Rotate<F: PixelFormat, S: FrameSource<F>> {
    method: Rotation,
    source: S,
    _format: PhantomData<F>,
}

impl<F: PixelFormat, S: FrameSource<F>> Rotate<F, S> {
    /// The source behind the transform.
    pub closed spec fn source(&self) -> &S {
        &self.source
    }

    /// The turn that is made.
    pub closed spec fn method(&self) -> Rotation {
        self.method
    }

    /// A source of the frames of `source`, turned by `method`.
    pub fn new(method: Rotation, source: S) -> (rotate: Rotate<F, S>)
        ensures
            rotate.method() == method,
            *rotate.source() == source,
    {
        Rotate { method, source, _format: PhantomData }
    }
}

impl<F: PixelFormat, S: FrameSource<F>> FrameSource<F> for Rotate<F, S> {
    open spec fn inv(&self) -> bool {
        self.source().inv()
    }

    open spec fn frame_id(&self) -> usize {
        self.source().frame_id()
    }

    open spec fn pulls(&self, next: &Self, out: Result<Option<Arc<Frame<F>>>>) -> bool {
        &&& next.method() == self.method()
        &&& exists|upstream: Result<Option<Arc<Frame<F>>>>|
            {
                &&& #[trigger] self.source().pulls(next.source(), upstream)
                &&& passes(upstream, |r: Raster| self.method().apply(r), out)
            }
    }

    open spec fn starts(&self, next: &Self, out: Result<()>) -> bool {
        next.method() == self.method() && self.source().starts(next.source(), out)
    }

    open spec fn stops(&self, next: &Self, out: Result<()>) -> bool {
        next.method() == self.method() && self.source().stops(next.source(), out)
    }

    fn get_frame(&mut self) -> (out: Result<Option<Arc<Frame<F>>>>) {
        let upstream = self.source.get_frame();
        let made = match &upstream {
            Ok(Some(frame)) => Some(self.method.turn(&**frame)),
            _ => None,
        };
        pass(upstream, made, Ghost(|r: Raster| self.method().apply(r)))
    }

    fn start(&mut self) -> (out: Result<()>) {
        self.source.start()
    }

    fn stop(&mut self) -> (out: Result<()>) {
        self.source.stop()
    }

    fn last_frame_id(&self) -> (id: usize) {
        self.source.last_frame_id()
    }
}

/// Mirrors every frame of its source.
pub struct Reflect<F: PixelFormat, S: FrameSource<F>> {
    method: Reflection,
    source: S,
    _format: PhantomData<F>,
}

impl<F: PixelFormat, S: FrameSource<F>> Reflect<F, S> {
    /// The source behind the transform.
    pub closed spec fn source(&self) -> &S {
        &self.source
    }

    /// The mirroring that is made.
    pub closed spec fn method(&self) -> Reflection {
        self.method
    }

    /// A source of the frames of `source`, mirrored by `method`.
    pub fn new(method: Reflection, source: S) -> (reflect: Reflect<F, S>)
        ensures
            reflect.method() == method,
            *reflect.source() == source,
    {
        Reflect { method, source, _format: PhantomData }
    }
}

impl<F: PixelFormat, S: FrameSource<F>> FrameSource<F> for Reflect<F, S> {
    open spec fn inv(&self) -> bool {
        self.source().inv()
    }

    open spec fn frame_id(&self) -> usize {
        self.source().frame_id()
    }

    open spec fn pulls(&self, next: &Self, out: Result<Option<Arc<Frame<F>>>>) -> bool {
        &&& next.method() == self.method()
        &&& exists|upstream: Result<Option<Arc<Frame<F>>>>|
            {
                &&& #[trigger] self.source().pulls(next.source(), upstream)
                &&& passes(upstream, |r: Raster| self.method().apply(r), out)
            }
    }

    open spec fn starts(&self, next: &Self, out: Result<()>) -> bool {
        next.method() == self.method() && self.source().starts(next.source(), out)
    }

    open spec fn stops(&self, next: &Self, out: Result<()>) -> bool {
        next.method() == self.method() && self.source().stops(next.source(), out)
    }

    fn get_frame(&mut self) -> (out: Result<Option<Arc<Frame<F>>>>) {
        let upstream = self.source.get_frame();
        let made = match &upstream {
            Ok(Some(frame)) => Some(self.method.mirror(&**frame)),
            _ => None,
        };
        pass(upstream, made, Ghost(|r: Raster| self.method().apply(r)))
    }

    fn start(&mut self) -> (out: Result<()>) {
        self.source.start()
    }

    fn stop(&mut self) -> (out: Result<()>) {
        self.source.stop()
    }

    fn last_frame_id(&self) -> (id: usize) {
        self.source.last_frame_id()
    }
}

/// The grey value of a colour: 0.299 of its red, 0.597 of its green and
/// 0.114 of its blue, the fraction dropped, and at most 255.
pub open spec fn luma_of(r: u8, g: u8, b: u8) -> u8 {
    let weighted = (299 * r + 597 * g + 114 * b) / 1000;
    if weighted > 255 {
        255u8
    } else {
        weighted as u8
    }
}

/// Returns the grey value of a colour.
pub fn luma(r: u8, g: u8, b: u8) -> (grey: u8)
    ensures
        grey == luma_of(r, g, b),
{
    let weighted: u32 = (299 * (r as u32) + 597 * (g as u32) + 114 * (b as u32)) / 1000;
    if weighted > 255 {
        255
    } else {
        weighted as u8
    }
}

/// What the conversion to grey makes of a raster of three-byte pixels.
pub open spec fn grey_of(r: Raster) -> Raster {
    Raster {
        width: r.width,
        height: r.height,
        bpp: 1,
        bytes: Seq::new(
            r.pixel_count(),
            |i: int| luma_of(r.bytes[3 * i], r.bytes[3 * i + 1], r.bytes[3 * i + 2]),
        ),
    }
}

/// The grey frame of a colour frame. Fails on a frame that is not
/// pixelable.
pub fn to_luma(frame: &Frame<RGB>) -> (made: core::result::Result<Frame<Luma>, FrameError>)
    requires
        frame.wf(),
    ensures
        made is Ok <==> frame.raster().pixelable(),
        made is Ok ==> made->Ok_0.wf() && made->Ok_0.raster() == grey_of(frame.raster())
            && made->Ok_0.raster().pixelable(),
{
    if !frame.is_pixelable() {
        return Err(FrameError::DataFormat);
    }
    proof {
        frame.lemma_wf();
    }
    let width = frame.width();
    let height = frame.height();
    let len = width * height;
    let src = frame.bytes();
    assert(width * height * 3 == 3 * len) by (nonlinear_arith)
        requires
            len == width * height,
    ;
    let mut data: Vec<u8> = Vec::with_capacity(len);
    let mut i: usize = 0;
    while i < len
        invariant
            i <= len,
            len == width * height,
            src@ == frame.raster().bytes,
            src@.len() == 3 * len,
            3 * len <= usize::MAX,
            data@.len() == i,
            forall|k: int|
                0 <= k < i ==> data@[k] == luma_of(src@[3 * k], src@[3 * k + 1], src@[3 * k + 2]),
        decreases len - i,
    {
        data.push(luma(src[3 * i], src[3 * i + 1], src[3 * i + 2]));
        i += 1;
    }
    assert(data@ =~= grey_of(frame.raster()).bytes);
    Ok(Frame::new(data, width, height))
}

/// Changes the pixel format of every frame of its source.
pub struct Convert<F: PixelFormat, T: PixelFormat, S: FrameSource<F>> {
    source: S,
    _from_format: PhantomData<F>,
    _to_format: PhantomData<T>,
}

impl<F: PixelFormat, T: PixelFormat, S: FrameSource<F>> Convert<F, T, S> {
    /// The source behind the transform.
    pub closed spec fn source(&self) -> &S {
        &self.source
    }

    /// A source of the frames of `source` in the format `T`.
    pub fn new(source: S) -> (convert: Convert<F, T, S>)
        ensures
            *convert.source() == source,
    {
        Convert { source, _from_format: PhantomData, _to_format: PhantomData }
    }
}

impl<S: FrameSource<RGB>> FrameSource<Luma> for Convert<RGB, Luma, S> {
    open spec fn inv(&self) -> bool {
        self.source().inv()
    }

    open spec fn frame_id(&self) -> usize {
        self.source().frame_id()
    }

    open spec fn pulls(&self, next: &Self, out: Result<Option<Arc<Frame<Luma>>>>) -> bool {
        exists|upstream: Result<Option<Arc<Frame<RGB>>>>|
            {
                &&& #[trigger] self.source().pulls(next.source(), upstream)
                &&& passes(upstream, |r: Raster| grey_of(r), out)
            }
    }

    open spec fn starts(&self, next: &Self, out: Result<()>) -> bool {
        self.source().starts(next.source(), out)
    }

    open spec fn stops(&self, next: &Self, out: Result<()>) -> bool {
        self.source().stops(next.source(), out)
    }

    fn get_frame(&mut self) -> (out: Result<Option<Arc<Frame<Luma>>>>) {
        let upstream = self.source.get_frame();
        let made = match &upstream {
            Ok(Some(frame)) => Some(to_luma(&**frame)),
            _ => None,
        };
        pass(upstream, made, Ghost(|r: Raster| grey_of(r)))
    }

    fn start(&mut self) -> (out: Result<()>) {
        self.source.start()
    }

    fn stop(&mut self) -> (out: Result<()>) {
        self.source.stop()
    }

    fn last_frame_id(&self) -> (id: usize) {
        self.source.last_frame_id()
    }
}

} // verus!
