//! The supervisor's side of a background reader: what a pull does while
//! the reader runs and after it has ended, and which records the reader
//! takes for frames.

use crate::error::{Error, Result};
use crate::frame::raster::Raster;
use crate::frame::{extents_fit, Frame, PixelFormat, Pixelate, MJPG};
use crate::protocol::camera::Frame as CameraRecord;
use crate::protocol::stream::Frame as StreamRecord;
use std::sync::Arc;
use vstd::prelude::*;

verus! {

/// How a worker ended, as joining it tells.
#[derive(Debug)]
pub enum Ended {
    /// It returned without an error.
    Clean,
    /// It returned the error.
    Failed(Error),
    /// It panicked.
    Panicked,
}

/// What the supervisor knows of its worker.
#[derive(Clone, Copy, Debug, PartialEq, Eq, Structural)]
pub struct WorkerState {
    joined: bool,
    kill_flag: bool,
}

/// What a pull does.
#[derive(Clone, Copy, Debug, PartialEq, Eq, Structural)]
pub enum Pull {
    /// The reader runs: hand out the latest frame, if there is one.
    Snapshot,
    /// The reader has ended and was not joined: tell the server
    /// `Disconnect`, join the reader, and return its error if it had one.
    Reap,
    /// The reader has ended and was joined: there is nothing to hand out.
    Absent,
}

impl WorkerState {
    /// Whether the worker is still to be joined.
    pub closed spec fn joinable(self) -> bool {
        !self.joined
    }

    /// Whether the worker was told to end.
    pub closed spec fn killed(self) -> bool {
        self.kill_flag
    }

    /// What a pull does, given whether the worker's thread has ended.
    pub open spec fn plan(self, thread_finished: bool) -> Pull {
        if self.joinable() && !thread_finished {
            Pull::Snapshot
        } else if self.joinable() {
            Pull::Reap
        } else {
            Pull::Absent
        }
    }

    /// The state of a worker that has just been spawned.
    pub fn spawned() -> (state: WorkerState)
        ensures
            state.joinable(),
            !state.killed(),
    {
        WorkerState { joined: false, kill_flag: false }
    }

    /// Tells whether the worker is still to be joined.
    pub fn is_joinable(&self) -> (joinable: bool)
        ensures
            joinable == self.joinable(),
    {
        !self.joined
    }

    /// Tells whether the worker has ended, given whether its thread has.
    /// A worker that was joined has ended.
    pub fn is_finished(&self, thread_finished: bool) -> (finished: bool)
        ensures
            finished == (!self.joinable() || thread_finished),
    {
        self.joined || thread_finished
    }

    /// Tells the worker to end. A worker that was joined is past telling.
    pub fn kill(&mut self)
        ensures
            final(self).joinable() == old(self).joinable(),
            final(self).killed() == (old(self).killed() || old(self).joinable()),
    {
        if !self.joined {
            self.kill_flag = true;
        }
    }

    /// Notes that the worker was joined and ended as `ended` tells, and
    /// returns the error to surface. Only the first join of a worker
    /// surfaces an error; `ended` of a worker that was joined before is
    /// passed over.
    pub fn join(&mut self, ended: Ended) -> (surfaced: Option<Error>)
        ensures
            !final(self).joinable(),
            final(self).killed() == (old(self).killed() || old(self).joinable()),
            surfaced == (if old(self).joinable() {
                match ended {
                    Ended::Failed(e) => Some(e),
                    _ => None,
                }
            } else {
                None
            }),
    {
        if self.joined {
            return None;
        }
        self.kill_flag = true;
        self.joined = true;
        match ended {
            Ended::Failed(e) => Some(e),
            _ => None,
        }
    }

    /// Decides what a pull does, given whether the worker's thread has
    /// ended.
    pub fn plan_pull(&self, thread_finished: bool) -> (pull: Pull)
        ensures
            pull == self.plan(thread_finished),
    {
        if self.is_finished(thread_finished) {
            if self.is_joinable() {
                Pull::Reap
            } else {
                Pull::Absent
            }
        } else {
            Pull::Snapshot
        }
    }
}

/// What a pull returns once the reader was joined: the error that the
/// join surfaced, or nothing.
pub fn reaped<F: PixelFormat>(surfaced: Option<Error>) -> (out: Result<Option<Arc<Frame<F>>>>)
    ensures
        out == (match surfaced {
            Some(e) => Err::<Option<Arc<Frame<F>>>, Error>(e),
            None => Ok::<Option<Arc<Frame<F>>>, Error>(None),
        }),
{
    match surfaced {
        Some(e) => Err(e),
        None => Ok(None),
    }
}

/// The error of a reader surfaces once: a pull that finds the reader ended
/// joins it, and after a join no pull joins again: every pull returns
/// nothing.
pub proof fn lemma_error_surfaces_once(state: WorkerState, thread_finished: bool)
    ensures
        state.joinable() && thread_finished ==> state.plan(thread_finished) == Pull::Reap,
        !state.joinable() ==> state.plan(thread_finished) == Pull::Absent,
{
}

/// Whether a record with the extents `width` and `height` is a frame of a
/// stream whose frames are `expected_width` by `expected_height`.
pub open spec fn fits_stream<F: PixelFormat>(
    width: u32,
    height: u32,
    expected_width: usize,
    expected_height: usize,
) -> bool {
    &&& width as usize == expected_width
    &&& height as usize == expected_height
    &&& extents_fit(expected_width as nat, expected_height as nat, F::bytes_per_pixel())
}

/// Takes a record from the capture server for a frame. Fails with
/// `FrameData` where its extents are not those the server announced.
pub fn accept_frame<F: PixelFormat>(record: CameraRecord, width: usize, height: usize) -> (frame:
    Result<Frame<F>>)
    ensures
        frame is Ok <==> fits_stream::<F>(record.width, record.height, width, height),
        frame matches Ok(f) ==> f.wf() && f.raster() == (Raster {
            width: width as nat,
            height: height as nat,
            bpp: F::bytes_per_pixel(),
            bytes: record.data@,
        }),
        frame matches Err(e) ==> e is FrameData,
{
    if record.width as usize != width || record.height as usize != height {
        return Err(Error::FrameData);
    }
    if !Frame::<F>::size_fits(width, height) {
        return Err(Error::FrameData);
    }
    Ok(Frame::new(record.data, width, height))
}

/// Takes a record from a network stream for a frame of its own extents.
/// Fails with `FrameData` where the extents do not fit the address space.
pub fn accept_stream_frame(record: StreamRecord) -> (frame: Result<Frame<MJPG>>)
    ensures
        frame is Ok <==> extents_fit(record.width as nat, record.height as nat, 1),
        frame matches Ok(f) ==> f.wf() && f.raster() == (Raster {
            width: record.width as nat,
            height: record.height as nat,
            bpp: 1,
            bytes: record.data@,
        }),
        frame matches Err(e) ==> e is FrameData,
{
    let width = record.width as usize;
    let height = record.height as usize;
    if !Frame::<MJPG>::size_fits(width, height) {
        return Err(Error::FrameData);
    }
    Ok(Frame::new(record.data, width, height))
}

/// Makes the record that carries `frame` to a network client. Fails with
/// `FrameData` where an extent does not fit the record.
pub fn stream_record<F: PixelFormat>(frame: &Frame<F>) -> (record: Result<StreamRecord>)
    requires
        frame.wf(),
    ensures
        record is Ok <==> frame.raster().width <= u32::MAX && frame.raster().height <= u32::MAX,
        record matches Ok(r) ==> r.width == frame.raster().width && r.height
            == frame.raster().height && r.data@ == frame.raster().bytes,
        record matches Err(e) ==> e is FrameData,
{
    let width = frame.width();
    let height = frame.height();
    if width > u32::MAX as usize || height > u32::MAX as usize {
        return Err(Error::FrameData);
    }
    let data = frame.bytes().clone();
    assert(data@ =~= frame.raster().bytes);
    Ok(StreamRecord { width: width as u32, height: height as u32, data })
}

} // verus!
