//! Fan-out: the state of each client connection, what a command does to
//! it, and what a server owes its connections on every round.

use crate::protocol::camera::ClientMessage;
use crate::protocol::stream::Status;
use vstd::prelude::*;

verus! {

/// How long a capture server rests on a round without an active client, in
/// milliseconds.
pub const IDLE_REST_MS: u64 = 20;

/// How long a capture server waits for the camera on a round with an
/// active client, in milliseconds.
pub const COMPLETION_WAIT_MS: u64 = 10;

/// How long a network stream rests on a round without an active client, in
/// milliseconds.
pub const STREAM_REST_MS: u64 = 16;

/// The state of one client connection.
///
/// A connection begins healthy and inactive. `Start` makes a healthy
/// connection active, `Stop` makes it inactive, and poisoning, by
/// `Disconnect` or by an error, ends it for good.
#[derive(Clone, Copy, Debug, PartialEq, Eq, Structural)]
pub struct Connection {
    healthy: bool,
    active: bool,
}

/// What an attempt to read a command from a connection brought.
#[derive(Clone, Copy, Debug, PartialEq, Eq, Structural)]
pub enum Read {
    /// One byte.
    Opcode(u8),
    /// Nothing: the client has sent nothing, or the read would block.
    Empty,
    /// An error.
    Failed,
}

impl Connection {
    /// Whether the connection is still served.
    pub closed spec fn healthy(self) -> bool {
        self.healthy
    }

    /// Whether frames are delivered on the connection.
    pub closed spec fn active(self) -> bool {
        self.healthy && self.active
    }

    /// The invariant of the two flags.
    pub closed spec fn wf(self) -> bool {
        self.active ==> self.healthy
    }

    /// The state of a connection that has just been accepted.
    pub closed spec fn fresh() -> Connection {
        Connection { healthy: true, active: false }
    }

    /// The state after poisoning.
    pub closed spec fn poisoned(self) -> Connection {
        Connection { healthy: false, active: false }
    }

    /// The state after `Start`.
    pub closed spec fn activated(self) -> Connection {
        Connection { healthy: self.healthy, active: self.healthy }
    }

    /// The state after `Stop`.
    pub closed spec fn deactivated(self) -> Connection {
        Connection { healthy: self.healthy, active: false }
    }

    /// The state that a command leaves.
    pub open spec fn after_command(self, message: ClientMessage) -> Connection {
        match message {
            ClientMessage::Start => self.activated(),
            ClientMessage::Stop => self.deactivated(),
            ClientMessage::Disconnect => self.poisoned(),
            ClientMessage::Status => self,
        }
    }

    /// The state that an attempt to read leaves: a command acts, a byte
    /// that is no command is passed over, and an error poisons.
    pub open spec fn after(self, read: Read) -> Connection {
        match read {
            Read::Opcode(id) => match ClientMessage::from_id_spec(id) {
                Some(message) => self.after_command(message),
                None => self,
            },
            Read::Empty => self,
            Read::Failed => self.poisoned(),
        }
    }

    /// What is owed in answer to an attempt to read: the state, to a
    /// `Status` command, and nothing to anything else.
    pub open spec fn reply_to(self, read: Read) -> Option<Status> {
        if read == Read::Opcode(3) {
            Some(Status { enabled: self.active(), healthy: self.healthy() })
        } else {
            None
        }
    }

    /// The state after a run of attempts to read.
    pub open spec fn after_all(self, reads: Seq<Read>) -> Connection
        decreases reads.len(),
    {
        if reads.len() == 0 {
            self
        } else {
            self.after(reads[0]).after_all(reads.drop_first())
        }
    }

    /// A connection that has just been accepted.
    pub fn new() -> (conn: Connection)
        ensures
            conn == Self::fresh(),
            conn.healthy(),
            !conn.active(),
            conn.wf(),
    {
        Connection { healthy: true, active: false }
    }

    /// Ends the connection for good.
    pub fn poison(&mut self)
        ensures
            *final(self) == old(self).poisoned(),
            !final(self).healthy(),
            !final(self).active(),
            final(self).wf(),
    {
        self.healthy = false;
        self.active = false;
    }

    /// Tells whether the connection is still served.
    pub fn is_healthy(&self) -> (healthy: bool)
        ensures
            healthy == self.healthy(),
    {
        self.healthy
    }

    /// Lets frames be delivered, if the connection is healthy.
    pub fn activate(&mut self)
        ensures
            *final(self) == old(self).activated(),
            final(self).healthy() == old(self).healthy(),
            final(self).active() == old(self).healthy(),
            final(self).wf(),
    {
        self.active = self.healthy;
    }

    /// Pauses the delivery of frames.
    pub fn deactivate(&mut self)
        ensures
            *final(self) == old(self).deactivated(),
            final(self).healthy() == old(self).healthy(),
            !final(self).active(),
            final(self).wf(),
    {
        self.active = false;
    }

    /// Tells whether frames are delivered on the connection.
    pub fn is_active(&self) -> (active: bool)
        ensures
            active == self.active(),
    {
        self.healthy && self.active
    }

    /// Acts on what an attempt to read a command brought, and returns the
    /// status to send where it was asked for.
    pub fn on_read(&mut self, read: Read) -> (reply: Option<Status>)
        ensures
            *final(self) == old(self).after(read),
            reply == old(self).reply_to(read),
            old(self).wf() ==> final(self).wf(),
    {
        match read {
            Read::Opcode(id) => match ClientMessage::from_id(id) {
                Some(ClientMessage::Start) => {
                    self.activate();
                    None
                },
                Some(ClientMessage::Stop) => {
                    self.deactivate();
                    None
                },
                Some(ClientMessage::Disconnect) => {
                    self.poison();
                    None
                },
                Some(ClientMessage::Status) => Some(
                    Status { enabled: self.is_active(), healthy: self.is_healthy() },
                ),
                None => None,
            },
            Read::Empty => None,
            Read::Failed => {
                self.poison();
                None
            },
        }
    }
}

/// A connection on which frames are delivered is a healthy one.
pub proof fn lemma_active_is_healthy(conn: Connection)
    ensures
        conn.active() ==> conn.healthy(),
        Connection::fresh().wf(),
        forall|read: Read| conn.wf() ==> #[trigger] conn.after(read).wf(),
{
}

/// What the commands do: `Start` makes a healthy connection active and
/// nothing else does, `Stop` makes it inactive, `Disconnect` and errors end
/// it, and all else leaves it as it is.
pub proof fn lemma_transitions(conn: Connection)
    ensures
        Connection::fresh().healthy() && !Connection::fresh().active(),
        conn.after(Read::Opcode(0)).active() == conn.healthy(),
        conn.after(Read::Opcode(0)).healthy() == conn.healthy(),
        !conn.after(Read::Opcode(1)).active(),
        conn.after(Read::Opcode(1)).healthy() == conn.healthy(),
        !conn.after(Read::Opcode(2)).healthy(),
        !conn.after(Read::Failed).healthy(),
        conn.after(Read::Opcode(3)) == conn,
        conn.after(Read::Empty) == conn,
        forall|id: u8| id > 3 ==> #[trigger] conn.after(Read::Opcode(id)) == conn,
{
}

/// Poisoning is final: whatever is read from a connection that is not
/// healthy, it stays so.
pub proof fn lemma_dead_stays_dead(conn: Connection, reads: Seq<Read>)
    requires
        !conn.healthy(),
    ensures
        !conn.after_all(reads).healthy(),
        !conn.after_all(reads).active(),
    decreases reads.len(),
{
    if reads.len() > 0 {
        lemma_dead_stays_dead(conn.after(reads[0]), reads.drop_first());
    }
}

/// After `Stop` no frame is delivered until a `Start` is read: while the
/// reads that follow hold no `Start`, the connection stays inactive.
pub proof fn lemma_stopped_until_start(conn: Connection, reads: Seq<Read>)
    requires
        forall|i: int| 0 <= i < reads.len() ==> reads[i] != Read::Opcode(0),
    ensures
        !conn.after(Read::Opcode(1)).after_all(reads).active(),
{
    lemma_inactive_until_start(conn.after(Read::Opcode(1)), reads);
}

/// An inactive connection stays inactive while no `Start` is read.
pub proof fn lemma_inactive_until_start(conn: Connection, reads: Seq<Read>)
    requires
        !conn.active(),
        forall|i: int| 0 <= i < reads.len() ==> reads[i] != Read::Opcode(0),
    ensures
        !conn.after_all(reads).active(),
    decreases reads.len(),
{
    if reads.len() > 0 {
        let rest = reads.drop_first();
        assert(reads[0] != Read::Opcode(0));
        assert forall|i: int| 0 <= i < rest.len() implies rest[i] != Read::Opcode(0) by {
            assert(rest[i] == reads[i + 1]);
        }
        lemma_inactive_until_start(conn.after(reads[0]), rest);
    }
}

/// After `Start` on a healthy connection frames are delivered until a
/// `Stop`, a `Disconnect` or an error is read.
pub proof fn lemma_started_until_stop(conn: Connection, reads: Seq<Read>)
    requires
        conn.healthy(),
        forall|i: int|
            0 <= i < reads.len() ==> reads[i] != Read::Opcode(1) && reads[i] != Read::Opcode(2)
                && reads[i] != Read::Failed,
    ensures
        conn.after(Read::Opcode(0)).after_all(reads).active(),
{
    lemma_active_until_stop(conn.after(Read::Opcode(0)), reads);
}

/// An active connection stays active while no `Stop`, no `Disconnect` and
/// no error is read.
pub proof fn lemma_active_until_stop(conn: Connection, reads: Seq<Read>)
    requires
        conn.active(),
        forall|i: int|
            0 <= i < reads.len() ==> reads[i] != Read::Opcode(1) && reads[i] != Read::Opcode(2)
                && reads[i] != Read::Failed,
    ensures
        conn.after_all(reads).active(),
    decreases reads.len(),
{
    if reads.len() > 0 {
        let rest = reads.drop_first();
        assert(reads[0] != Read::Opcode(1) && reads[0] != Read::Opcode(2) && reads[0]
            != Read::Failed);
        assert forall|i: int| 0 <= i < rest.len() implies rest[i] != Read::Opcode(1) && rest[i]
            != Read::Opcode(2) && rest[i] != Read::Failed by {
            assert(rest[i] == reads[i + 1]);
        }
        lemma_active_until_stop(conn.after(reads[0]), rest);
    }
}

/// What a big-endian `u32` looks like on the wire.
pub open spec fn be32(n: u32) -> Seq<u8> {
    seq![
        (n / 0x100_0000) as u8,
        (n / 0x1_0000 % 0x100) as u8,
        (n / 0x100 % 0x100) as u8,
        (n % 0x100) as u8,
    ]
}

/// A response on the wire: the opcode, the length of the payload as a
/// big-endian `u32`, and the payload.
pub open spec fn response(kind: ClientMessage, payload: Seq<u8>) -> Seq<u8> {
    seq![kind.id_spec()] + be32(payload.len() as u32) + payload
}

/// Frames `payload` as a response to `kind`. Fails where the length of the
/// payload does not fit a `u32`.
pub fn make_response(kind: ClientMessage, payload: Vec<u8>) -> (framed: Result<Vec<u8>, ()>)
    ensures
        framed is Ok <==> payload@.len() <= u32::MAX,
        framed is Ok ==> framed->Ok_0@ == response(kind, payload@),
{
    let len = payload.len();
    if len > u32::MAX as usize {
        return Err(());
    }
    let n = len as u32;
    let mut out: Vec<u8> = Vec::new();
    out.push(kind.id());
    out.push((n / 0x100_0000) as u8);
    out.push((n / 0x1_0000 % 0x100) as u8);
    out.push((n / 0x100 % 0x100) as u8);
    out.push((n % 0x100) as u8);
    let mut payload = payload;
    let ghost body = payload@;
    out.append(&mut payload);
    assert(out@ =~= response(kind, body));
    Ok(out)
}

/// The connections of one server, in the order in which they were
/// accepted.
pub struct Hub {
    connections: Vec<Connection>,
}

/// What a capture server does on a round.
#[derive(Clone, Copy, Debug, PartialEq, Eq, Structural)]
pub enum Round {
    /// No client is active: take at most one finished request from the
    /// camera, give it back unused, and rest for `IDLE_REST_MS`.
    Idle,
    /// A client is active: wait up to `COMPLETION_WAIT_MS` for a finished
    /// request and send its frame to the active clients.
    Serve,
}

/// What the camera had for the server when it asked.
#[derive(Clone, Copy, Debug, PartialEq, Eq, Structural)]
pub enum Completion {
    /// A finished request.
    Ready,
    /// Nothing yet.
    Pending,
    /// The camera has gone.
    Closed,
}

/// What a capture server does with what the camera had.
#[derive(Clone, Copy, Debug, PartialEq, Eq, Structural)]
pub enum Step {
    /// Give the request back to the camera without reading its frame.
    ReturnUnused,
    /// Send the frame to every active client, then give the request back.
    Deliver,
    /// Go on to the next round.
    Continue,
    /// Give up: the camera is disconnected.
    Disconnected,
}

/// What a network stream does on a round.
#[derive(Clone, Copy, Debug, PartialEq, Eq, Structural)]
pub enum StreamRound {
    /// No client is connected: rest for `STREAM_REST_MS`.
    Rest,
    /// Clients are connected but none is active: rest for
    /// `STREAM_REST_MS`, then read their commands.
    Listen,
    /// A client is active: fetch the latest frame, read the commands, and
    /// send the frame to the active clients.
    Serve,
}

/// Decides what to do with what the camera had on a round.
pub fn on_completion(round: Round, completion: Completion) -> (step: Step)
    ensures
        step == match (round, completion) {
            (_, Completion::Closed) => Step::Disconnected,
            (_, Completion::Pending) => Step::Continue,
            (Round::Idle, Completion::Ready) => Step::ReturnUnused,
            (Round::Serve, Completion::Ready) => Step::Deliver,
        },
{
    match completion {
        Completion::Closed => Step::Disconnected,
        Completion::Pending => Step::Continue,
        Completion::Ready => match round {
            Round::Idle => Step::ReturnUnused,
            Round::Serve => Step::Deliver,
        },
    }
}

/// Some connection of `conns` is active.
pub open spec fn some_active(conns: Seq<Connection>) -> bool {
    exists|i: int| 0 <= i < conns.len() && #[trigger] conns[i].active()
}

/// The healthy connections of `conns`, in their order.
pub open spec fn living(conns: Seq<Connection>) -> Seq<Connection> {
    conns.filter(|c: Connection| c.healthy())
}

impl View for Hub {
    type V = Seq<Connection>;

    closed spec fn view(&self) -> Seq<Connection> {
        self.connections@
    }
}

impl Hub {
    /// A hub without connections.
    pub fn new() -> (hub: Hub)
        ensures
            hub@ == Seq::<Connection>::empty(),
    {
        Hub { connections: Vec::new() }
    }

    /// The number of connections.
    pub fn len(&self) -> (n: usize)
        ensures
            n == self@.len(),
    {
        self.connections.len()
    }

    /// The state of the connection at `index`.
    pub fn connection(&self, index: usize) -> (conn: Connection)
        requires
            index < self@.len(),
        ensures
            conn == self@[index as int],
    {
        self.connections[index]
    }

    /// Takes in a connection that has just been accepted, and returns its
    /// index.
    pub fn accept(&mut self) -> (index: usize)
        ensures
            final(self)@ == old(self)@.push(Connection::fresh()),
            index == old(self)@.len(),
    {
        let index = self.connections.len();
        self.connections.push(Connection::new());
        index
    }

    /// Acts on what an attempt to read a command from the connection at
    /// `index` brought, and returns the status to send where it was asked
    /// for.
    pub fn on_read(&mut self, index: usize, read: Read) -> (reply: Option<Status>)
        requires
            index < old(self)@.len(),
        ensures
            final(self)@ == old(self)@.update(index as int, old(self)@[index as int].after(read)),
            reply == old(self)@[index as int].reply_to(read),
    {
        let mut conn = self.connections[index];
        let reply = conn.on_read(read);
        self.connections.set(index, conn);
        reply
    }

    /// Tells whether a frame is owed to the connection at `index`.
    pub fn wants_frame(&self, index: usize) -> (wanted: bool)
        requires
            index < self@.len(),
        ensures
            wanted == self@[index as int].active(),
    {
        self.connections[index].is_active()
    }

    /// Poisons the connection at `index`, on which a write has failed.
    pub fn write_failed(&mut self, index: usize)
        requires
            index < old(self)@.len(),
        ensures
            final(self)@ == old(self)@.update(index as int, old(self)@[index as int].poisoned()),
    {
        let mut conn = self.connections[index];
        conn.poison();
        self.connections.set(index, conn);
    }

    /// Tells whether some connection is active.
    pub fn any_active(&self) -> (any: bool)
        ensures
            any == some_active(self@),
    {
        let mut i: usize = 0;
        while i < self.connections.len()
            invariant
                i <= self.connections.len(),
                forall|k: int| 0 <= k < i ==> !(#[trigger] self.connections@[k].active()),
            decreases self.connections.len() - i,
        {
            if self.connections[i].is_active() {
                return true;
            }
            i += 1;
        }
        false
    }

    /// What a capture server does on this round.
    pub fn round(&self) -> (round: Round)
        ensures
            round == if some_active(self@) {
                Round::Serve
            } else {
                Round::Idle
            },
    {
        if self.any_active() {
            Round::Serve
        } else {
            Round::Idle
        }
    }

    /// What a network stream does on this round.
    pub fn stream_round(&self) -> (round: StreamRound)
        ensures
            round == if self@.len() == 0 {
                StreamRound::Rest
            } else if some_active(self@) {
                StreamRound::Serve
            } else {
                StreamRound::Listen
            },
    {
        if self.connections.len() == 0 {
            StreamRound::Rest
        } else if self.any_active() {
            StreamRound::Serve
        } else {
            StreamRound::Listen
        }
    }

    /// Drops the connections that are not healthy. The result tells, for
    /// each connection there was, whether it stays; those that stay keep
    /// their order.
    pub fn prune(&mut self) -> (kept: Vec<bool>)
        ensures
            kept@.len() == old(self)@.len(),
            forall|i: int| 0 <= i < kept@.len() ==> kept@[i] == old(self)@[i].healthy(),
            final(self)@ == living(old(self)@),
            forall|i: int| 0 <= i < final(self)@.len() ==> (#[trigger] final(self)@[i]).healthy(),
    {
        let mut kept: Vec<bool> = Vec::new();
        let mut live: Vec<Connection> = Vec::new();
        let mut i: usize = 0;
        let n = self.connections.len();
        while i < n
            invariant
                i <= n,
                n == self.connections@.len(),
                self.connections@ == old(self)@,
                kept@.len() == i,
                forall|k: int| 0 <= k < i ==> kept@[k] == old(self)@[k].healthy(),
                live@ == living(old(self)@.subrange(0, i as int)),
            decreases n - i,
        {
            let conn = self.connections[i];
            proof {
                let pred = |c: Connection| c.healthy();
                let before = old(self)@.subrange(0, i as int);
                let upto = old(self)@.subrange(0, i + 1);
                assert(upto =~= before.push(conn));
                assert(upto.drop_last() =~= before);
                reveal(Seq::filter);
                assert(upto.filter(pred) == if pred(conn) {
                    before.filter(pred).push(conn)
                } else {
                    before.filter(pred)
                });
            }
            if conn.is_healthy() {
                live.push(conn);
                kept.push(true);
            } else {
                kept.push(false);
            }
            i += 1;
        }
        assert(old(self)@.subrange(0, n as int) =~= old(self)@);
        proof {
            lemma_pruned(old(self)@);
        }
        self.connections = live;
        kept
    }
}

/// Among the healthy connections of a list all are healthy, and they are
/// no more than the list holds.
pub proof fn lemma_pruned(conns: Seq<Connection>)
    ensures
        forall|i: int| 0 <= i < living(conns).len() ==> (#[trigger] living(conns)[i]).healthy(),
        living(conns).len() <= conns.len(),
{
    let pred = |c: Connection| c.healthy();
    conns.lemma_filter_len(pred);
    assert forall|i: int| 0 <= i < living(conns).len() implies (#[trigger] living(
        conns,
    )[i]).healthy() by {
        conns.lemma_filter_pred(pred, i);
    }
}

} // verus!
