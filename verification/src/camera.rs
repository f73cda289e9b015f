//! Frame sources: the capability that a camera and every transform over it
//! share, and the two sources that thin a stream of frames out.

use crate::error::Result;
use crate::frame::{Frame, PixelFormat};
use std::marker::PhantomData;
use std::sync::Arc;
use std::time::{Duration, Instant};
use vstd::prelude::*;

verus! {

/// Something that hands out the latest frame of a stream.
///
/// The three relations say what a call may do to the source and return;
/// a source that wraps another states its own in terms of the other's.
pub trait FrameSource<F: PixelFormat> {
    /// The invariant of the implementing type. Where nothing else is
    /// said, there is none.
    open spec fn inv(&self) -> bool {
        true
    }

    /// The id of the frame that was delivered last. Where nothing else is
    /// said, it is not known.
    open spec fn frame_id(&self) -> usize {
        arbitrary()
    }

    /// A call of `get_frame` may take the source from `self` to `next` and
    /// return `out`. Where nothing else is said, it may do anything.
    open spec fn pulls(&self, next: &Self, out: Result<Option<Arc<Frame<F>>>>) -> bool {
        true
    }

    /// A call of `start` may take the source from `self` to `next` and
    /// return `out`. Where nothing else is said, it may do anything.
    open spec fn starts(&self, next: &Self, out: Result<()>) -> bool {
        true
    }

    /// A call of `stop` may take the source from `self` to `next` and
    /// return `out`. Where nothing else is said, it may do anything.
    open spec fn stops(&self, next: &Self, out: Result<()>) -> bool {
        true
    }

    /// The latest frame, nothing where there is none to hand out, or the
    /// error that ended the stream.
    fn get_frame(&mut self) -> (out: Result<Option<Arc<Frame<F>>>>)
        requires
            old(self).inv(),
        ensures
            final(self).inv(),
            old(self).pulls(final(self), out),
            out matches Ok(Some(frame)) ==> frame.wf(),
    ;

    /// Asks for frames to be delivered.
    fn start(&mut self) -> (out: Result<()>)
        requires
            old(self).inv(),
        ensures
            final(self).inv(),
            old(self).starts(final(self), out),
    ;

    /// Asks for the delivery of frames to pause.
    fn stop(&mut self) -> (out: Result<()>)
        requires
            old(self).inv(),
        ensures
            final(self).inv(),
            old(self).stops(final(self), out),
    ;

    /// The id of the frame that was delivered last.
    fn last_frame_id(&self) -> (id: usize)
        requires
            self.inv(),
        ensures
            id == self.frame_id(),
    ;
}

/// What a client asks of the capture server it starts.
#[derive(Clone, Debug)]
pub struct CameraConfig {
    buffer_count: Option<u32>,
    width: Option<u32>,
    height: Option<u32>,
    resize: bool,
    server_exe: Option<String>,
    conn_timeout: Option<u128>,
}

/// What a `CameraConfig` holds.
pub struct CameraConfigView {
    pub buffer_count: Option<u32>,
    pub width: Option<u32>,
    pub height: Option<u32>,
    pub resize: bool,
    pub server_exe: Option<Seq<char>>,
    pub conn_timeout: Option<u128>,
}

/// A number to ask for, or nothing where the number is zero.
pub open spec fn nonzero(n: u32) -> Option<u32> {
    if n != 0 {
        Some(n)
    } else {
        None
    }
}

impl View for CameraConfig {
    type V = CameraConfigView;

    closed spec fn view(&self) -> CameraConfigView {
        CameraConfigView {
            buffer_count: self.buffer_count,
            width: self.width,
            height: self.height,
            resize: self.resize,
            server_exe: match self.server_exe {
                Some(exe) => Some(exe@),
                None => None,
            },
            conn_timeout: self.conn_timeout,
        }
    }
}

impl Default for CameraConfig {
    fn default() -> (cfg: CameraConfig)
        ensures
            cfg@ == CameraConfig::empty(),
    {
        CameraConfig {
            buffer_count: None,
            width: None,
            height: None,
            resize: false,
            server_exe: None,
            conn_timeout: None,
        }
    }
}

impl CameraConfig {
    /// Nothing asked for.
    pub open spec fn empty() -> CameraConfigView {
        CameraConfigView {
            buffer_count: None,
            width: None,
            height: None,
            resize: false,
            server_exe: None,
            conn_timeout: None,
        }
    }

    /// A configuration that asks for nothing.
    pub fn new() -> (cfg: CameraConfig)
        ensures
            cfg@ == Self::empty(),
    {
        CameraConfig::default()
    }

    /// Asks for `count` buffers; zero takes the request back.
    pub fn buffer_count(&mut self, count: u32) -> (cfg: &mut Self)
        ensures
            cfg@ == (CameraConfigView { buffer_count: nonzero(count), ..old(self)@ }),
            final(self)@ == final(cfg)@,
    {
        self.buffer_count = if count != 0 {
            Some(count)
        } else {
            None
        };
        self
    }

    /// Asks for frames `width` pixels wide; zero takes the request back.
    pub fn width(&mut self, width: u32) -> (cfg: &mut Self)
        ensures
            cfg@ == (CameraConfigView { width: nonzero(width), ..old(self)@ }),
            final(self)@ == final(cfg)@,
    {
        self.width = if width != 0 {
            Some(width)
        } else {
            None
        };
        self
    }

    /// Asks for frames `height` pixels high; zero takes the request back.
    pub fn height(&mut self, height: u32) -> (cfg: &mut Self)
        ensures
            cfg@ == (CameraConfigView { height: nonzero(height), ..old(self)@ }),
            final(self)@ == final(cfg)@,
    {
        self.height = if height != 0 {
            Some(height)
        } else {
            None
        };
        self
    }

    /// Says whether frames of another size than asked for are to be resized.
    pub fn resize(&mut self, resize_if_wrong: bool) -> (cfg: &mut Self)
        ensures
            cfg@ == (CameraConfigView { resize: resize_if_wrong, ..old(self)@ }),
            final(self)@ == final(cfg)@,
    {
        self.resize = resize_if_wrong;
        self
    }

    /// Names the server program to run.
    pub fn server_exe(&mut self, exe_name: &str) -> (cfg: &mut Self)
        ensures
            cfg@ == (CameraConfigView { server_exe: Some(exe_name@), ..old(self)@ }),
            final(self)@ == final(cfg)@,
    {
        self.server_exe = Some(exe_name.to_owned());
        self
    }

    /// Limits the time spent on reaching the server, in nanoseconds.
    pub fn conn_timeout(&mut self, timeout: u128) -> (cfg: &mut Self)
        ensures
            cfg@ == (CameraConfigView { conn_timeout: Some(timeout), ..old(self)@ }),
            final(self)@ == final(cfg)@,
    {
        self.conn_timeout = Some(timeout);
        self
    }

    /// The number of buffers asked for.
    pub fn requested_buffer_count(&self) -> (count: Option<u32>)
        ensures
            count == self@.buffer_count,
    {
        self.buffer_count
    }

    /// The width asked for.
    pub fn requested_width(&self) -> (width: Option<u32>)
        ensures
            width == self@.width,
    {
        self.width
    }

    /// The height asked for.
    pub fn requested_height(&self) -> (height: Option<u32>)
        ensures
            height == self@.height,
    {
        self.height
    }

    /// Whether frames of another size are to be resized.
    pub fn resizes(&self) -> (resize: bool)
        ensures
            resize == self@.resize,
    {
        self.resize
    }

    /// The server program to run, where one was named.
    pub fn requested_server_exe(&self) -> (exe: Option<&String>)
        ensures
            match exe {
                Some(name) => self@.server_exe == Some(name@),
                None => self@.server_exe is None,
            },
    {
        self.server_exe.as_ref()
    }

    /// The limit on the time spent on reaching the server, in nanoseconds.
    pub fn requested_conn_timeout(&self) -> (timeout: Option<u128>)
        ensures
            timeout == self@.conn_timeout,
    {
        self.conn_timeout
    }
}

/// Delivers each frame of its source at most once: a pull that finds the
/// id of the last pull answers with nothing.
pub struct FrameSequencer<F: PixelFormat, S: FrameSource<F>> {
    source: S,
    last_seen_id: Option<usize>,
    _format: PhantomData<F>,
}

/// Whether a sequencer that saw `last_seen` at its last pull forwards a
/// pull that finds `id`.
pub open spec fn forwards(last_seen: Option<usize>, id: usize) -> bool {
    last_seen != Some(id)
}

impl<F: PixelFormat, S: FrameSource<F>> FrameSequencer<F, S> {
    /// The source behind the sequencer.
    pub closed spec fn source(&self) -> &S {
        &self.source
    }

    /// The id that the last pull found, if there was a pull.
    pub closed spec fn last_seen(&self) -> Option<usize> {
        self.last_seen_id
    }

    /// A sequencer over `source` that has seen nothing yet.
    pub fn new(source: S) -> (sequencer: FrameSequencer<F, S>)
        ensures
            *sequencer.source() == source,
            sequencer.last_seen() is None,
    {
        FrameSequencer { source, last_seen_id: None, _format: PhantomData }
    }
}

impl<F: PixelFormat, S: FrameSource<F>> FrameSource<F> for FrameSequencer<F, S> {
    open spec fn inv(&self) -> bool {
        self.source().inv()
    }

    open spec fn frame_id(&self) -> usize {
        self.source().frame_id()
    }

    /// A pull remembers the id it finds. It is handed on to the source
    /// where that id was not the one remembered; else nothing is returned
    /// and the source is not asked.
    open spec fn pulls(&self, next: &Self, out: Result<Option<Arc<Frame<F>>>>) -> bool {
        &&& next.last_seen() == Some(self.source().frame_id())
        &&& if forwards(self.last_seen(), self.source().frame_id()) {
            self.source().pulls(next.source(), out)
        } else {
            out matches Ok(None) && next.source() == self.source()
        }
    }

    open spec fn starts(&self, next: &Self, out: Result<()>) -> bool {
        next.last_seen() == self.last_seen() && self.source().starts(next.source(), out)
    }

    open spec fn stops(&self, next: &Self, out: Result<()>) -> bool {
        next.last_seen() == self.last_seen() && self.source().stops(next.source(), out)
    }

    fn get_frame(&mut self) -> (out: Result<Option<Arc<Frame<F>>>>) {
        let last_id = self.source.last_frame_id();
        if let Some(id) = self.last_seen_id {
            if id == last_id {
                return Ok(None);
            }
        }
        self.last_seen_id = Some(last_id);
        self.source.get_frame()
    }

    fn start(&mut self) -> (out: Result<()>) {
        self.source.start()
    }

    fn stop(&mut self) -> (out: Result<()>) {
        self.source.stop()
    }

    fn last_frame_id(&self) -> (id: usize) {
        self.source.last_frame_id()
    }
}

/// What a sequencer remembers before pull `k` of a run whose pulls find the
/// upstream ids `ids`, one after the other.
pub open spec fn seen_before(ids: Seq<usize>, k: int) -> Option<usize>
    decreases k,
{
    if k <= 0 {
        None
    } else if forwards(seen_before(ids, k - 1), ids[k - 1]) {
        Some(ids[k - 1])
    } else {
        seen_before(ids, k - 1)
    }
}

/// Whether pull `k` of such a run is handed on to the source.
pub open spec fn delivered(ids: Seq<usize>, k: int) -> bool {
    forwards(seen_before(ids, k), ids[k])
}

/// The ids never go down.
pub open spec fn rising(ids: Seq<usize>) -> bool {
    forall|a: int, b: int| 0 <= a <= b < ids.len() ==> ids[a] <= ids[b]
}

/// After a pull the sequencer remembers the id that the pull found.
pub proof fn lemma_seen_before(ids: Seq<usize>, k: int)
    requires
        0 < k <= ids.len(),
    ensures
        seen_before(ids, k) == Some(ids[k - 1]),
    decreases k,
{
    if k > 1 {
        lemma_seen_before(ids, k - 1);
    }
}

/// While the ids of the source never go down, every id is delivered at
/// most once: of two pulls that are handed on, the later carries the
/// greater id.
pub proof fn lemma_each_id_once(ids: Seq<usize>, i: int, j: int)
    requires
        rising(ids),
        0 <= i < j < ids.len(),
        delivered(ids, i),
        delivered(ids, j),
    ensures
        ids[i] < ids[j],
{
    lemma_seen_before(ids, j);
    assert(ids[i] <= ids[j - 1]);
    assert(ids[j - 1] <= ids[j]);
}

/// While the ids of the source never go down, an id that the pulls passed
/// over is not delivered later: whatever is delivered from pull `k` on
/// carries an id no smaller than the one pull `k` found.
pub proof fn lemma_skipped_ids_stay_skipped(ids: Seq<usize>, skipped: usize, k: int, later: int)
    requires
        rising(ids),
        0 <= k <= later < ids.len(),
        skipped < ids[k],
    ensures
        ids[later] != skipped,
{
}

/// `std::time::Instant`, a reading of the monotonic clock.
#[verifier::external_type_specification]
#[verifier::external_body]
pub struct ExInstant(Instant);

/// `std::time::Instant::now`: the monotonic clock as it stands.
#[verifier::external_body]
fn clock_now() -> (now: Instant) {
    Instant::now()
}

/// `std::time::Instant::elapsed`: the time that has passed since `origin`
/// was read.
#[verifier::external_body]
fn clock_elapsed(origin: &Instant) -> (elapsed: Duration) {
    origin.elapsed()
}

/// `std::time::Duration::as_nanos`: the span in nanoseconds.
#[verifier::external_body]
fn span_nanos(span: &Duration) -> (nanos: u128) {
    span.as_nanos()
}

/// A span of `nanos` nanoseconds as a reading of a limiter's clock: the
/// span itself, or the last instant of the clock where the span lies past
/// it.
pub open spec fn reading_of(nanos: u128) -> u64 {
    if nanos > u64::MAX {
        u64::MAX
    } else {
        nanos as u64
    }
}

/// Turns a span of nanoseconds into a reading of a limiter's clock.
pub fn clock_reading(nanos: u128) -> (now: u64)
    ensures
        now == reading_of(nanos),
{
    if nanos > u64::MAX as u128 {
        u64::MAX
    } else {
        nanos as u64
    }
}

/// Lets frames through no faster than one per `frame_delay`, measured on a
/// clock of its own that starts at zero when the limiter is made and counts
/// nanoseconds.
pub struct FrameRateLimiter<F: PixelFormat, S: FrameSource<F>> {
    source: S,
    frame_delay: u64,
    origin: Instant,
    next_frame_time: i128,
    last_id: usize,
    _format: PhantomData<F>,
}

/// An instant on the limiter's clock, kept inside what the limiter can hold.
pub open spec fn clamped(t: int) -> int {
    if t < i128::MIN {
        i128::MIN as int
    } else if t > i128::MAX {
        i128::MAX as int
    } else {
        t
    }
}

/// Adds on the limiter's clock.
fn clamped_add(t: i128, d: u64) -> (sum: i128)
    ensures
        sum == clamped(t + d),
{
    match t.checked_add(d as i128) {
        Some(sum) => sum,
        None => i128::MAX,
    }
}

/// Subtracts on the limiter's clock.
fn clamped_sub(t: i128, d: u64) -> (difference: i128)
    ensures
        difference == clamped(t - d),
{
    match t.checked_sub(d as i128) {
        Some(difference) => difference,
        None => i128::MIN,
    }
}

impl<F: PixelFormat, S: FrameSource<F>> FrameRateLimiter<F, S> {
    /// The source behind the limiter.
    pub closed spec fn source(&self) -> &S {
        &self.source
    }

    /// The least time between two frames, in nanoseconds.
    pub closed spec fn delay(&self) -> u64 {
        self.frame_delay
    }

    /// The instant from which the next frame is let through.
    pub closed spec fn next_time(&self) -> int {
        self.next_frame_time as int
    }

    /// The id of the frame that was let through last.
    pub closed spec fn forwarded_id(&self) -> usize {
        self.last_id
    }

    /// The instant at which the limiter's clock began.
    pub closed spec fn origin(&self) -> Instant {
        self.origin
    }

    /// A pull at the instant `now` may take the limiter from `self` to
    /// `next` and return `out`.
    ///
    /// Before the target the limiter answers with nothing and stays as it
    /// is. From the target on, the pull is handed on to the source, the
    /// target moves on by one delay, counted from the target and not from
    /// `now`, and the id that the source showed is kept. Either way the
    /// clock goes on as it was: it never begins again.
    pub open spec fn pulls_at(
        &self,
        now: u64,
        next: &Self,
        out: Result<Option<Arc<Frame<F>>>>,
    ) -> bool {
        if now < self.next_time() {
            &&& out matches Ok(None)
            &&& next.source() == self.source()
            &&& next.origin() == self.origin()
            &&& next.delay() == self.delay()
            &&& next.next_time() == self.next_time()
            &&& next.forwarded_id() == self.forwarded_id()
        } else {
            &&& self.source().pulls(next.source(), out)
            &&& next.origin() == self.origin()
            &&& next.delay() == self.delay()
            &&& next.next_time() == clamped(self.next_time() + self.delay())
            &&& next.forwarded_id() == self.source().frame_id()
        }
    }

    /// A limiter over `source` that lets the first frame through at once.
    pub fn new(source: S, frame_delay: u64) -> (limiter: FrameRateLimiter<F, S>)
        requires
            source.inv(),
        ensures
            *limiter.source() == source,
            limiter.delay() == frame_delay,
            limiter.next_time() == 0,
            limiter.forwarded_id() == source.frame_id(),
    {
        let last_id = source.last_frame_id();
        FrameRateLimiter {
            source,
            frame_delay,
            origin: clock_now(),
            next_frame_time: 0,
            last_id,
            _format: PhantomData,
        }
    }

    /// Changes the delay. The target moves as if the new delay had held
    /// since the frame before; the clock goes on as it was.
    pub fn set_frame_delay(&mut self, frame_delay: u64)
        ensures
            final(self).source() == old(self).source(),
            final(self).origin() == old(self).origin(),
            final(self).delay() == frame_delay,
            final(self).next_time() == clamped(
                clamped(old(self).next_time() - old(self).delay()) + frame_delay,
            ),
            final(self).forwarded_id() == old(self).forwarded_id(),
    {
        self.next_frame_time = clamped_add(
            clamped_sub(self.next_frame_time, self.frame_delay),
            frame_delay,
        );
        self.frame_delay = frame_delay;
    }

    /// The time since the limiter was made, in nanoseconds, as a reading
    /// of the limiter's clock.
    pub fn clock(&self) -> (now: u64) {
        clock_reading(span_nanos(&clock_elapsed(&self.origin)))
    }

    /// Pulls at the instant `now` of the limiter's clock.
    pub fn get_frame_at(&mut self, now: u64) -> (out: Result<Option<Arc<Frame<F>>>>)
        requires
            old(self).source().inv(),
        ensures
            final(self).source().inv(),
            old(self).pulls_at(now, final(self), out),
            out matches Ok(Some(frame)) ==> frame.wf(),
    {
        if (now as i128) < self.next_frame_time {
            return Ok(None);
        }
        self.next_frame_time = clamped_add(self.next_frame_time, self.frame_delay);
        self.last_id = self.source.last_frame_id();
        self.source.get_frame()
    }
}

impl<F: PixelFormat, S: FrameSource<F>> FrameSource<F> for FrameRateLimiter<F, S> {
    open spec fn inv(&self) -> bool {
        self.source().inv()
    }

    open spec fn frame_id(&self) -> usize {
        self.forwarded_id()
    }

    open spec fn pulls(&self, next: &Self, out: Result<Option<Arc<Frame<F>>>>) -> bool {
        exists|now: u64| self.pulls_at(now, next, out)
    }

    open spec fn starts(&self, next: &Self, out: Result<()>) -> bool {
        &&& self.source().starts(next.source(), out)
        &&& next.origin() == self.origin()
        &&& next.delay() == self.delay()
        &&& next.next_time() == self.next_time()
        &&& next.forwarded_id() == self.forwarded_id()
    }

    open spec fn stops(&self, next: &Self, out: Result<()>) -> bool {
        &&& self.source().stops(next.source(), out)
        &&& next.origin() == self.origin()
        &&& next.delay() == self.delay()
        &&& next.next_time() == self.next_time()
        &&& next.forwarded_id() == self.forwarded_id()
    }

    fn get_frame(&mut self) -> (out: Result<Option<Arc<Frame<F>>>>) {
        let now = self.clock();
        self.get_frame_at(now)
    }

    fn start(&mut self) -> (out: Result<()>) {
        self.source.start()
    }

    fn stop(&mut self) -> (out: Result<()>) {
        self.source.stop()
    }

    fn last_frame_id(&self) -> (id: usize) {
        self.last_id
    }
}

/// The target of a limiter after `k` frames were let through, where the
/// first target was `start` and the delay stayed `delay`.
pub open spec fn target_after(start: int, delay: u64, k: nat) -> int
    decreases k,
{
    if k == 0 {
        start
    } else {
        clamped(target_after(start, delay, (k - 1) as nat) + delay)
    }
}

/// Short of the end of the clock, the targets lie one delay apart.
pub proof fn lemma_targets_one_delay_apart(start: int, delay: u64, k: nat)
    requires
        i128::MIN <= start,
        start + k * delay <= i128::MAX,
    ensures
        target_after(start, delay, k) == start + k * delay,
    decreases k,
{
    if k > 0 {
        assert((k - 1) * delay + delay == k * delay) by (nonlinear_arith);
        assert(0 <= (k - 1) * delay) by (nonlinear_arith)
            requires
                k >= 1,
                delay >= 0,
        ;
        lemma_targets_one_delay_apart(start, delay, (k - 1) as nat);
    } else {
        assert(k * delay == 0) by (nonlinear_arith)
            requires
                k == 0,
        ;
    }
}

/// Frames are let through at least one delay apart on the limiter's own
/// schedule: a frame that is let through at `first` moves the target to one
/// delay past the target it met, and no later frame is let through before
/// that; so the frame after it comes no sooner than one delay after the
/// first frame's target, which the first frame itself did not precede.
pub proof fn lemma_frames_one_delay_apart<F: PixelFormat, S: FrameSource<F>>(
    before: FrameRateLimiter<F, S>,
    between: FrameRateLimiter<F, S>,
    after: FrameRateLimiter<F, S>,
    first: u64,
    second: u64,
    out1: Result<Option<Arc<Frame<F>>>>,
    out2: Result<Option<Arc<Frame<F>>>>,
)
    requires
        before.pulls_at(first, &between, out1),
        between.pulls_at(second, &after, out2),
        first >= before.next_time(),
        second >= between.next_time(),
        before.next_time() + before.delay() <= i128::MAX,
    ensures
        before.next_time() <= first,
        second >= before.next_time() + before.delay(),
        after.next_time() == clamped(before.next_time() + 2 * before.delay()),
{
}

} // verus!
