//! What surrounds a JPEG codec: how a frame is described to it, how its
//! buffers are sized, and what becomes of what it returns. The codec itself
//! is the caller's.

use crate::error::{Error, Result};
use crate::frame::raster::Raster;
use crate::frame::{extents_fit, Frame, Luma, PixelFormat, Pixelate, BGR, BGRA, MJPG, RGB, RGBA};
use vstd::prelude::*;

verus! {

/// The pixel layouts that the codec reads and writes.
#[derive(Clone, Copy, Debug, PartialEq, Eq, Structural)]
pub enum JpegLayout {
    RGB,
    BGR,
    RGBA,
    BGRA,
    GRAY,
}

/// The pixel formats that can be compressed from and decompressed to.
pub trait JpegPixels: PixelFormat {
    /// The layout by which the codec knows the format.
    spec fn layout_spec() -> JpegLayout;

    /// Returns the layout by which the codec knows the format.
    fn layout() -> (layout: JpegLayout)
        ensures
            layout == Self::layout_spec(),
    ;
}

impl JpegPixels for RGB {
    open spec fn layout_spec() -> JpegLayout {
        JpegLayout::RGB
    }

    fn layout() -> (layout: JpegLayout) {
        JpegLayout::RGB
    }
}

impl JpegPixels for BGR {
    open spec fn layout_spec() -> JpegLayout {
        JpegLayout::BGR
    }

    fn layout() -> (layout: JpegLayout) {
        JpegLayout::BGR
    }
}

impl JpegPixels for RGBA {
    open spec fn layout_spec() -> JpegLayout {
        JpegLayout::RGBA
    }

    fn layout() -> (layout: JpegLayout) {
        JpegLayout::RGBA
    }
}

impl JpegPixels for BGRA {
    open spec fn layout_spec() -> JpegLayout {
        JpegLayout::BGRA
    }

    fn layout() -> (layout: JpegLayout) {
        JpegLayout::BGRA
    }
}

impl JpegPixels for Luma {
    open spec fn layout_spec() -> JpegLayout {
        JpegLayout::GRAY
    }

    fn layout() -> (layout: JpegLayout) {
        JpegLayout::GRAY
    }
}

/// An image as the codec wants it described: its extents, the number of
/// bytes from one row to the next, and the layout of a pixel.
#[derive(Clone, Copy, Debug, PartialEq, Eq, Structural)]
pub struct ImagePlan {
    pub width: usize,
    pub height: usize,
    pub pitch: usize,
    pub layout: JpegLayout,
}

/// Describes the rows of an image of format `F` that is `width` pixels
/// wide and `height` high. There is no description where a row does not
/// fit the address space.
pub fn plan_image<F: JpegPixels>(width: usize, height: usize) -> (plan: Option<ImagePlan>)
    ensures
        plan is Some <==> width * F::bytes_per_pixel() <= usize::MAX,
        plan matches Some(p) ==> p == (ImagePlan {
            width,
            height,
            pitch: (width * F::bytes_per_pixel()) as usize,
            layout: F::layout_spec(),
        }),
{
    match width.checked_mul(F::byte_count()) {
        Some(pitch) => Some(ImagePlan { width, height, pitch, layout: F::layout() }),
        None => None,
    }
}

/// Describes `frame` to the codec. Fails with `FrameData` on a frame that
/// is not pixelable.
pub fn describe<F: JpegPixels>(frame: &Frame<F>) -> (plan: Result<ImagePlan>)
    requires
        frame.wf(),
    ensures
        plan is Ok <==> frame.raster().pixelable() && frame.raster().width
            * F::bytes_per_pixel() <= usize::MAX,
        plan matches Ok(p) ==> p == (ImagePlan {
            width: frame.raster().width as usize,
            height: frame.raster().height as usize,
            pitch: (frame.raster().width * F::bytes_per_pixel()) as usize,
            layout: F::layout_spec(),
        }),
        plan matches Err(e) ==> e is FrameData,
{
    if !frame.is_pixelable() {
        return Err(Error::FrameData);
    }
    match plan_image::<F>(frame.width(), frame.height()) {
        Some(plan) => Ok(plan),
        None => Err(Error::FrameData),
    }
}

/// The number of bytes that a decompressed image of format `F` takes, where
/// that fits the address space.
pub fn unpacked_len<F: JpegPixels>(width: usize, height: usize) -> (len: Option<usize>)
    ensures
        len is Some <==> extents_fit(width as nat, height as nat, F::bytes_per_pixel()),
        len matches Some(n) ==> n == width * height * F::bytes_per_pixel(),
{
    match width.checked_mul(height) {
        Some(n) => n.checked_mul(F::byte_count()),
        None => None,
    }
}

/// Makes the compressed frame out of what the codec wrote: the first
/// `size` bytes of `buf`, with the extents of the image that went in.
/// Fails with `Unknown` where the codec failed, which `size` tells by
/// holding nothing, or claims more than the buffer holds, or where the
/// extents do not fit the address space.
pub fn packed(buf: &Vec<u8>, size: Option<usize>, width: usize, height: usize) -> (frame: Result<
    Frame<MJPG>,
>)
    ensures
        frame is Ok <==> size is Some && size->0 <= buf@.len() && extents_fit(
            width as nat,
            height as nat,
            1,
        ),
        frame matches Ok(f) ==> f.wf() && f.raster() == (Raster {
            width: width as nat,
            height: height as nat,
            bpp: 1,
            bytes: buf@.subrange(0, size->0 as int),
        }),
        frame matches Err(e) ==> e is Unknown,
{
    let size = match size {
        Some(size) => size,
        None => {
            return Err(Error::Unknown);
        },
    };
    if size > buf.len() || !Frame::<MJPG>::size_fits(width, height) {
        return Err(Error::Unknown);
    }
    let mut data: Vec<u8> = Vec::with_capacity(size);
    let mut i: usize = 0;
    while i < size
        invariant
            i <= size <= buf@.len(),
            data@ == buf@.subrange(0, i as int),
        decreases size - i,
    {
        data.push(buf[i]);
        assert(data@ =~= buf@.subrange(0, i + 1));
        i += 1;
    }
    Ok(Frame::new(data, width, height))
}

/// Makes the frame out of what the codec decompressed into `buf`. Fails
/// with `FrameData` where the codec failed, which `decoded` tells, or
/// where the extents do not fit the address space.
pub fn unpacked<F: JpegPixels>(buf: Vec<u8>, decoded: bool, width: usize, height: usize) -> (frame:
    Result<Frame<F>>)
    ensures
        frame is Ok <==> decoded && extents_fit(width as nat, height as nat, F::bytes_per_pixel()),
        frame matches Ok(f) ==> f.wf() && f.raster() == (Raster {
            width: width as nat,
            height: height as nat,
            bpp: F::bytes_per_pixel(),
            bytes: buf@,
        }),
        frame matches Err(e) ==> e is FrameData,
{
    if !decoded || !Frame::<F>::size_fits(width, height) {
        return Err(Error::FrameData);
    }
    Ok(Frame::new(buf, width, height))
}

} // verus!
