//! Pixel layouts known at compile time.

use crate::protocol::camera::PixelFormat as WireFormat;
use vstd::prelude::*;

verus! {

/// A pixel layout known at compile time.
pub trait PixelFormat: Clone {
    /// The number of bytes one pixel takes.
    spec fn bytes_per_pixel() -> nat;

    /// Returns the number of bytes one pixel takes.
    fn byte_count() -> (n: usize)
        ensures
            n == Self::bytes_per_pixel(),
    ;
}

/// A pixel layout that travels over the wire. The layouts that only exist
/// inside a process are none.
pub trait OnWire: PixelFormat {
    /// The format's tag on the wire.
    spec fn wire_format() -> WireFormat;

    /// Returns the format's tag on the wire.
    fn proto_format() -> (f: WireFormat)
        ensures
            f == Self::wire_format(),
    ;
}

#[derive(Clone, Copy)]
pub struct RGB;

impl PixelFormat for RGB {
    open spec fn bytes_per_pixel() -> nat {
        3
    }

    fn byte_count() -> (n: usize) {
        3
    }
}

impl OnWire for RGB {
    open spec fn wire_format() -> WireFormat {
        WireFormat::RGB
    }

    fn proto_format() -> (f: WireFormat) {
        WireFormat::RGB
    }
}

#[derive(Clone, Copy)]
pub struct BGR;

impl PixelFormat for BGR {
    open spec fn bytes_per_pixel() -> nat {
        3
    }

    fn byte_count() -> (n: usize) {
        3
    }
}

impl OnWire for BGR {
    open spec fn wire_format() -> WireFormat {
        WireFormat::BGR
    }

    fn proto_format() -> (f: WireFormat) {
        WireFormat::BGR
    }
}

#[derive(Clone, Copy)]
pub struct RGBA;

impl PixelFormat for RGBA {
    open spec fn bytes_per_pixel() -> nat {
        4
    }

    fn byte_count() -> (n: usize) {
        4
    }
}

impl OnWire for RGBA {
    open spec fn wire_format() -> WireFormat {
        WireFormat::RGBA
    }

    fn proto_format() -> (f: WireFormat) {
        WireFormat::RGBA
    }
}

#[derive(Clone, Copy)]
pub struct BGRA;

impl PixelFormat for BGRA {
    open spec fn bytes_per_pixel() -> nat {
        4
    }

    fn byte_count() -> (n: usize) {
        4
    }
}

impl OnWire for BGRA {
    open spec fn wire_format() -> WireFormat {
        WireFormat::BGRA
    }

    fn proto_format() -> (f: WireFormat) {
        WireFormat::BGRA
    }
}

#[derive(Clone, Copy)]
pub struct YUYV;

impl PixelFormat for YUYV {
    open spec fn bytes_per_pixel() -> nat {
        4
    }

    fn byte_count() -> (n: usize) {
        4
    }
}

impl OnWire for YUYV {
    open spec fn wire_format() -> WireFormat {
        WireFormat::YUYV
    }

    fn proto_format() -> (f: WireFormat) {
        WireFormat::YUYV
    }
}

/// Compressed frames: one byte per unit, and the buffer of such a frame is
/// as long as the codec made it.
#[derive(Clone, Copy)]
pub struct MJPG;

impl PixelFormat for MJPG {
    open spec fn bytes_per_pixel() -> nat {
        1
    }

    fn byte_count() -> (n: usize) {
        1
    }
}

impl OnWire for MJPG {
    open spec fn wire_format() -> WireFormat {
        WireFormat::MJPEG
    }

    fn proto_format() -> (f: WireFormat) {
        WireFormat::MJPEG
    }
}

/// One grey byte per pixel. Never sent over the wire.
#[derive(Clone, Copy)]
pub struct Luma;

impl PixelFormat for Luma {
    open spec fn bytes_per_pixel() -> nat {
        1
    }

    fn byte_count() -> (n: usize) {
        1
    }
}

/// `N` uninterpreted bytes per pixel. Never sent over the wire.
#[derive(Clone, Copy)]
pub struct Raw<const N: usize>;

impl<const N: usize> PixelFormat for Raw<N> {
    open spec fn bytes_per_pixel() -> nat {
        N as nat
    }

    fn byte_count() -> (n: usize) {
        N
    }
}

} // verus!
