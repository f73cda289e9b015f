//! Handles on the bytes of one pixel.

use crate::frame::format::PixelFormat;
use std::marker::PhantomData;
use vstd::prelude::*;
use vstd::slice::slice_index_get;

verus! {

/// The bytes of one pixel, borrowed for reading.
pub struct Pixel<'a, F: PixelFormat> {
    pub data: &'a [u8],
    pub _format: PhantomData<F>,
}

impl<'a, F: PixelFormat> View for Pixel<'a, F> {
    type V = Seq<u8>;

    open spec fn view(&self) -> Seq<u8> {
        self.data@
    }
}

impl<'a, F: PixelFormat> Pixel<'a, F> {
    /// A handle spans exactly the bytes of one pixel.
    pub open spec fn wf(&self) -> bool {
        self@.len() == F::bytes_per_pixel()
    }

    /// A handle on `data`, which holds one pixel.
    pub fn new(data: &'a [u8]) -> (pixel: Pixel<'a, F>)
        requires
            data@.len() == F::bytes_per_pixel(),
        ensures
            pixel.wf(),
            pixel@ == data@,
    {
        Pixel { data, _format: PhantomData }
    }

    /// The channel at `index`, where the pixel has one.
    pub fn get(&self, index: usize) -> (byte: Option<&'a u8>)
        requires
            self.wf(),
        ensures
            index < F::bytes_per_pixel() ==> byte == Some(&self@[index as int]),
            index >= F::bytes_per_pixel() ==> byte is None,
    {
        if index < F::byte_count() {
            Some(slice_index_get(self.data, index))
        } else {
            None
        }
    }

    /// The channel at `index`.
    pub fn index(&self, index: usize) -> (byte: &'a u8)
        requires
            self.wf(),
            index < F::bytes_per_pixel(),
        ensures
            *byte == self@[index as int],
    {
        slice_index_get(self.data, index)
    }
}

/// The bytes of one pixel, borrowed for writing.
pub struct PixelMut<'a, F: PixelFormat> {
    pub data: &'a mut [u8],
    pub _format: PhantomData<F>,
}

impl<'a, F: PixelFormat> View for PixelMut<'a, F> {
    type V = Seq<u8>;

    open spec fn view(&self) -> Seq<u8> {
        self.data@
    }
}

impl<'a, F: PixelFormat> PixelMut<'a, F> {
    /// A handle spans exactly the bytes of one pixel.
    pub open spec fn wf(&self) -> bool {
        self@.len() == F::bytes_per_pixel()
    }

    /// A handle on `data`, which holds one pixel.
    pub fn new(data: &'a mut [u8]) -> (pixel: PixelMut<'a, F>)
        requires
            old(data)@.len() == F::bytes_per_pixel(),
        ensures
            pixel.wf(),
            pixel@ == old(data)@,
            final(data)@ == final(pixel.data)@,
    {
        PixelMut { data, _format: PhantomData }
    }

    /// The channel at `index`, where the pixel has one.
    pub fn get(&self, index: usize) -> (byte: Option<u8>)
        requires
            self.wf(),
        ensures
            index < F::bytes_per_pixel() ==> byte == Some(self@[index as int]),
            index >= F::bytes_per_pixel() ==> byte is None,
    {
        if index < F::byte_count() {
            Some(self.data[index])
        } else {
            None
        }
    }

    /// The channel at `index`.
    pub fn index(&self, index: usize) -> (byte: u8)
        requires
            self.wf(),
            index < F::bytes_per_pixel(),
        ensures
            byte == self@[index as int],
    {
        self.data[index]
    }

    /// Sets the channel at `index`.
    pub fn set(&mut self, index: usize, byte: u8)
        requires
            old(self).wf(),
            index < F::bytes_per_pixel(),
        ensures
            final(self).wf(),
            final(self)@ == old(self)@.update(index as int, byte),
            final(final(self).data)@ == final(old(self).data)@,
    {
        self.data[index] = byte;
    }

    /// Copies every channel of `other` into this pixel.
    pub fn write_pixel(&mut self, other: Pixel<'_, F>)
        requires
            old(self).wf(),
            other.wf(),
        ensures
            final(self).wf(),
            final(self)@ == other@,
            final(final(self).data)@ == final(old(self).data)@,
    {
        let n = F::byte_count();
        let mut i: usize = 0;
        while i < n
            invariant
                i <= n,
                n == F::bytes_per_pixel(),
                self.wf(),
                other.wf(),
                final(self.data)@ == final(old(self).data)@,
                forall|k: int| 0 <= k < i ==> self@[k] == other@[k],
            decreases n - i,
        {
            self.data[i] = *other.index(i);
            i += 1;
        }
        assert(self@ =~= other@);
    }
}

} // verus!
