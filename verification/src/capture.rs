//! A camera that is captured inside the process: the frame it publishes,
//! what a control message does to its loop, and what the loop does next.

use vstd::prelude::*;
use vstd::slice::slice_to_vec;

verus! {

/// A frame as the capture loop publishes it: extents and the bytes that
/// the camera filled, of whatever format.
#[derive(Clone, Debug)]
pub struct Frame {
    pub width: usize,
    pub height: usize,
    pub data: Vec<u8>,
}

impl Frame {
    /// A frame of the given extents around a copy of `data`.
    pub fn new(width: usize, height: usize, data: &[u8]) -> (frame: Frame)
        ensures
            frame.width == width,
            frame.height == height,
            frame.data@ == data@,
    {
        Frame { width, height, data: slice_to_vec(data) }
    }

    /// A frame of the given extents that holds one zero byte per pixel:
    /// what stands in the slot before the camera has delivered anything.
    pub fn blank(width: usize, height: usize) -> (frame: Frame)
        requires
            width * height <= usize::MAX,
        ensures
            frame.width == width,
            frame.height == height,
            frame.data@ == Seq::new((width * height) as nat, |i: int| 0u8),
    {
        let data: Vec<u8> = vec![0u8; width * height];
        assert(data@ =~= Seq::new((width * height) as nat, |i: int| 0u8));
        Frame { width, height, data }
    }

    /// Tells whether the frame holds no bytes.
    pub fn is_valid(&self) -> (empty: bool)
        ensures
            empty == (self.data@.len() == 0),
    {
        self.data.len() == 0
    }
}

/// What the owner of a camera tells its capture loop.
#[derive(Clone, Copy, Debug, PartialEq, Eq, Structural)]
pub enum Control {
    Start,
    Stop,
    Shutdown,
}

/// What the control channel held when the loop looked.
#[derive(Clone, Copy, Debug, PartialEq, Eq, Structural)]
pub enum Inbox {
    /// A message.
    Message(Control),
    /// Nothing.
    Empty,
    /// Nothing, and nobody is left to send anything.
    Disconnected,
}

/// What the loop does to the camera on a turn.
#[derive(Clone, Copy, Debug, PartialEq, Eq, Structural)]
pub enum CameraOp {
    /// Allocate the buffers, start the camera and queue a request for each
    /// buffer.
    Start,
    /// Stop the camera and drop what it had finished.
    Stop,
    /// Leave the camera as it is.
    Keep,
}

/// What the loop does after that.
#[derive(Clone, Copy, Debug, PartialEq, Eq, Structural)]
pub enum Next {
    /// Rest for ten milliseconds.
    Rest,
    /// Take a finished request, if there is one, publish its frame and
    /// queue the request again.
    Poll,
    /// Leave the loop.
    Exit,
}

/// Whether the camera runs, and whether the loop is to end.
#[derive(Clone, Copy, Debug, PartialEq, Eq, Structural)]
pub struct CaptureState {
    pub running: bool,
    pub term_flag: bool,
}

impl CaptureState {
    /// The state a turn leaves. `Start` sets the camera running and `Stop`
    /// stops it; `Shutdown` stops a running camera and ends the loop, and
    /// means nothing to a camera that does not run.
    pub open spec fn after(self, inbox: Inbox) -> CaptureState {
        match inbox {
            Inbox::Message(Control::Start) => CaptureState { running: true, ..self },
            Inbox::Message(Control::Stop) => CaptureState { running: false, ..self },
            Inbox::Message(Control::Shutdown) => if self.running {
                CaptureState { running: false, term_flag: true }
            } else {
                self
            },
            _ => self,
        }
    }

    /// What a turn does to the camera.
    pub open spec fn camera_op(self, inbox: Inbox) -> CameraOp {
        match inbox {
            Inbox::Message(Control::Start) => CameraOp::Start,
            Inbox::Message(Control::Stop) => CameraOp::Stop,
            Inbox::Message(Control::Shutdown) => if self.running {
                CameraOp::Stop
            } else {
                CameraOp::Keep
            },
            _ => CameraOp::Keep,
        }
    }

    /// What the loop does after a turn: it leaves where nobody can reach
    /// it any more or where it was told to end, rests while the camera
    /// does not run, and polls the camera else.
    pub open spec fn next(self, inbox: Inbox) -> Next {
        if inbox is Disconnected || self.after(inbox).term_flag {
            Next::Exit
        } else if !self.after(inbox).running {
            Next::Rest
        } else {
            Next::Poll
        }
    }

    /// The state of a loop that has not begun.
    pub fn new() -> (state: CaptureState)
        ensures
            state == (CaptureState { running: false, term_flag: false }),
    {
        CaptureState { running: false, term_flag: false }
    }

    /// Takes one turn of the loop on what the control channel held.
    pub fn turn(&mut self, inbox: Inbox) -> (plan: (CameraOp, Next))
        ensures
            *final(self) == old(self).after(inbox),
            plan == (old(self).camera_op(inbox), old(self).next(inbox)),
    {
        let op = match inbox {
            Inbox::Message(Control::Start) => {
                self.running = true;
                CameraOp::Start
            },
            Inbox::Message(Control::Stop) => {
                self.running = false;
                CameraOp::Stop
            },
            Inbox::Message(Control::Shutdown) => {
                if self.running {
                    self.running = false;
                    self.term_flag = true;
                    CameraOp::Stop
                } else {
                    CameraOp::Keep
                }
            },
            _ => CameraOp::Keep,
        };
        let next = match inbox {
            Inbox::Disconnected => Next::Exit,
            _ => if self.term_flag {
                Next::Exit
            } else if !self.running {
                Next::Rest
            } else {
                Next::Poll
            },
        };
        (op, next)
    }
}

} // verus!
