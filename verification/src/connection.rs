//! The bridge of one intercepted descriptor: two queues of byte chunks between
//! the process that reads and writes the descriptor and the pump that moves
//! the bytes through the tunnel.
//!
//! Inbound chunks flow from the process to the peer: the interposed `write`
//! sends them, the pump polls them out through the [`Reader`]. Outbound chunks
//! flow from the peer to the process: the pump sends them through the
//! [`Writer`], the interposed `read` takes them.

use vstd::prelude::*;

use crate::address::Endpoint;
use crate::channel::Channel;

verus! {

/// What a poll found.
#[derive(Debug, PartialEq, Eq, Structural)]
pub enum Poll<T> {
    Ready(T),
    Pending,
}

/// Why a poll of the bridge failed.
#[derive(Clone, Copy, Debug, PartialEq, Eq, Structural)]
pub enum BridgeError {
    /// The chunk at the head of the queue does not fit the buffer. The chunk
    /// is lost.
    ChunkTooLarge,
}

/// The contents of queued chunks.
pub open spec fn chunk_bytes(chunks: Seq<Vec<u8>>) -> Seq<Seq<u8>> {
    chunks.map_values(|chunk: Vec<u8>| chunk@)
}

/// The contents of a queue that got one more chunk, or lost its first.
pub proof fn lemma_chunk_bytes(chunks: Seq<Vec<u8>>, chunk: Vec<u8>)
    ensures
        chunk_bytes(chunks.push(chunk)) == chunk_bytes(chunks).push(chunk@),
        chunks.len() > 0 ==> chunk_bytes(chunks.drop_first()) == chunk_bytes(chunks).drop_first(),
        chunks.len() > 0 ==> chunk_bytes(chunks)[0] == chunks[0]@,
        chunk_bytes(chunks).len() == chunks.len(),
{
    assert(chunk_bytes(chunks.push(chunk)) =~= chunk_bytes(chunks).push(chunk@));
    if chunks.len() > 0 {
        assert(chunk_bytes(chunks.drop_first()) =~= chunk_bytes(chunks).drop_first());
    }
}

/// A buffer after `chunk` was copied to its front: as much of the chunk as
/// fits, then the buffer as it was.
pub open spec fn filled(buf: Seq<u8>, chunk: Seq<u8>) -> Seq<u8> {
    if chunk.len() <= buf.len() {
        chunk + buf.skip(chunk.len() as int)
    } else {
        chunk.take(buf.len() as int)
    }
}

/// Copies `chunk` to the front of `buf`, as much of it as fits.
pub fn fill(buf: &mut [u8], chunk: &Vec<u8>) -> (copied: usize)
    ensures
        final(buf)@ == filled(old(buf)@, chunk@),
        copied == if chunk@.len() <= old(buf)@.len() {
            chunk@.len()
        } else {
            old(buf)@.len()
        },
{
    let room = buf.len();
    let count = if chunk.len() <= room {
        chunk.len()
    } else {
        room
    };
    let mut i: usize = 0;
    while i < count
        invariant
            i <= count,
            count <= chunk@.len(),
            count <= room,
            buf@.len() == room,
            room == old(buf)@.len(),
            forall|j: int| 0 <= j < i ==> buf@[j] == chunk@[j],
            forall|j: int| i <= j < room ==> buf@[j] == old(buf)@[j],
        decreases count - i,
    {
        buf[i] = chunk[i];
        i += 1;
    }
    assert(buf@ =~= filled(old(buf)@, chunk@));
    count
}

/// The pump's end of the inbound queue.
#[derive(Debug)]
pub struct Reader {
    /// Whether the pump has published its waker. Until then nothing that the
    /// process writes is queued.
    pub waker: bool,
    /// The chunks that the process has written and the pump has not taken.
    pub receiver: Channel<Vec<u8>>,
}

/// The state of a [`Reader`], as a value.
pub struct ReaderView {
    pub waker: bool,
    pub pending: Seq<Seq<u8>>,
}

impl ReaderView {
    /// Whether a poll takes a chunk off the queue.
    pub open spec fn takes(self) -> bool {
        self.waker && self.pending.len() > 0
    }

    /// The state after a poll: the first poll publishes the waker, every later
    /// one takes the chunk at the head, if there is one.
    pub open spec fn polled(self) -> ReaderView {
        if !self.waker {
            ReaderView { waker: true, ..self }
        } else if self.pending.len() > 0 {
            ReaderView { pending: self.pending.drop_first(), ..self }
        } else {
            self
        }
    }

    /// What a poll with a buffer of `room` bytes reports.
    pub open spec fn poll_result(self, room: nat) -> Poll<Result<usize, BridgeError>> {
        if !self.takes() {
            Poll::Pending
        } else if self.pending[0].len() <= room {
            Poll::Ready(Ok(self.pending[0].len() as usize))
        } else {
            Poll::Ready(Err(BridgeError::ChunkTooLarge))
        }
    }

    /// The buffer after a poll: the chunk at its front where one was taken and
    /// fits, else untouched.
    pub open spec fn poll_buffer(self, buf: Seq<u8>) -> Seq<u8> {
        if self.takes() && self.pending[0].len() <= buf.len() {
            filled(buf, self.pending[0])
        } else {
            buf
        }
    }
}

impl View for Reader {
    type V = ReaderView;

    open spec fn view(&self) -> ReaderView {
        ReaderView { waker: self.waker, pending: chunk_bytes(self.receiver@) }
    }
}

impl Reader {
    /// Polls for the next inbound chunk. The first poll publishes the waker
    /// and reports nothing ready. Every later poll takes the chunk at the head
    /// of the queue without waiting, copies it to the front of `buf` and
    /// reports its length; with an empty queue nothing is ready.
    pub fn poll_read(&mut self, buf: &mut [u8]) -> (polled: Poll<Result<usize, BridgeError>>)
        ensures
            final(self)@ == old(self)@.polled(),
            polled == old(self)@.poll_result(old(buf)@.len()),
            final(buf)@ == old(self)@.poll_buffer(old(buf)@),
    {
        if !self.waker {
            self.waker = true;
            return Poll::Pending;
        }
        let ghost queued = self.receiver@;
        match self.receiver.try_recv() {
            Some(data) => {
                proof {
                    lemma_chunk_bytes(queued, data);
                }
                if data.len() > buf.len() {
                    return Poll::Ready(Err(BridgeError::ChunkTooLarge));
                }
                let copied = fill(buf, &data);
                Poll::Ready(Ok(copied))
            },
            None => Poll::Pending,
        }
    }
}

/// The pump's end of the outbound queue.
#[derive(Debug)]
pub struct Writer {
    sender: Channel<Vec<u8>>,
}

impl View for Writer {
    type V = Seq<Seq<u8>>;

    /// The chunks that the pump has sent and the process has not read.
    closed spec fn view(&self) -> Seq<Seq<u8>> {
        chunk_bytes(self.sender@)
    }
}

impl Writer {
    /// Queues a copy of `buf` as one chunk for the process to read, and
    /// reports all of it written. The writer is always ready.
    pub fn poll_write(&mut self, buf: &[u8]) -> (polled: Poll<Result<usize, BridgeError>>)
        ensures
            final(self)@ == old(self)@.push(buf@),
            polled == Poll::Ready(Ok::<usize, BridgeError>(buf@.len() as usize)),
    {
        let data = vstd::slice::slice_to_vec(buf);
        let len = data.len();
        let ghost queued = self.sender@;
        self.sender.send(data);
        proof {
            lemma_chunk_bytes(queued, data);
        }
        Poll::Ready(Ok(len))
    }

    /// Nothing is held back, so there is nothing to flush.
    pub fn poll_flush(&mut self) -> (polled: Poll<Result<(), BridgeError>>)
        ensures
            final(self)@ == old(self)@,
            polled == Poll::Ready(Ok::<(), BridgeError>(())),
    {
        Poll::Ready(Ok(()))
    }

    /// Shutting down does nothing: chunks that wait stay readable.
    pub fn poll_shutdown(&mut self) -> (polled: Poll<Result<(), BridgeError>>)
        ensures
            final(self)@ == old(self)@,
            polled == Poll::Ready(Ok::<(), BridgeError>(())),
    {
        Poll::Ready(Ok(()))
    }
}

/// The bridge of one descriptor.
#[derive(Debug)]
pub struct Connection {
    pub fd: u32,
    pub target_addr: Endpoint,
    pub reader: Reader,
    pub writer: Writer,
}

/// The state of a bridge, as a value.
pub struct ConnectionView {
    pub fd: u32,
    pub target_addr: Endpoint,
    /// Whether the pump has published its waker.
    pub waker: bool,
    /// Chunks on their way from the process to the peer, oldest first.
    pub inbound: Seq<Seq<u8>>,
    /// Chunks on their way from the peer to the process, oldest first.
    pub outbound: Seq<Seq<u8>>,
}

impl ConnectionView {
    /// A bridge on which nothing has happened yet.
    pub open spec fn fresh(fd: u32, target_addr: Endpoint) -> ConnectionView {
        ConnectionView {
            fd,
            target_addr,
            waker: false,
            inbound: Seq::empty(),
            outbound: Seq::empty(),
        }
    }

    /// The pump's end of the inbound queue.
    pub open spec fn reader(self) -> ReaderView {
        ReaderView { waker: self.waker, pending: self.inbound }
    }

    /// The bridge after the process wrote `chunk`: queued where the pump has
    /// published its waker, dropped where it has not.
    pub open spec fn written(self, chunk: Seq<u8>) -> ConnectionView {
        if self.waker {
            ConnectionView { inbound: self.inbound.push(chunk), ..self }
        } else {
            self
        }
    }

    /// The bridge after the pump polled its reader.
    pub open spec fn polled(self) -> ConnectionView {
        ConnectionView {
            waker: self.reader().polled().waker,
            inbound: self.reader().polled().pending,
            ..self
        }
    }

    /// The bridge after the pump sent `chunk` towards the process.
    pub open spec fn pumped(self, chunk: Seq<u8>) -> ConnectionView {
        ConnectionView { outbound: self.outbound.push(chunk), ..self }
    }

    /// The bridge after the process read: the chunk at the head of the
    /// outbound queue is gone, if there was one.
    pub open spec fn read(self) -> ConnectionView {
        if self.outbound.len() > 0 {
            ConnectionView { outbound: self.outbound.drop_first(), ..self }
        } else {
            self
        }
    }
}

impl View for Connection {
    type V = ConnectionView;

    open spec fn view(&self) -> ConnectionView {
        ConnectionView {
            fd: self.fd,
            target_addr: self.target_addr,
            waker: self.reader.waker,
            inbound: chunk_bytes(self.reader.receiver@),
            outbound: self.writer@,
        }
    }
}

impl Connection {
    /// The bridge of descriptor `fd`, whose process wants to reach
    /// `socket_addr`. Both queues are empty and no waker is published.
    pub fn new(fd: u32, socket_addr: Endpoint) -> (connection: Connection)
        ensures
            connection@ == ConnectionView::fresh(fd, socket_addr),
    {
        let connection = Connection {
            fd,
            target_addr: socket_addr,
            reader: Reader { waker: false, receiver: Channel::new() },
            writer: Writer { sender: Channel::new() },
        };
        assert(connection@.inbound =~= Seq::empty());
        assert(connection@.outbound =~= Seq::empty());
        connection
    }

    /// Whether the pump has published its waker.
    pub fn get_reader_waker(&mut self) -> (published: bool)
        ensures
            published == old(self)@.waker,
            final(self)@ == old(self)@,
    {
        self.reader.waker
    }

    /// The sending end of the inbound queue.
    pub fn get_reader_sender(&mut self) -> (sender: &mut Channel<Vec<u8>>)
        ensures
            chunk_bytes(sender@) == old(self)@.inbound,
            final(self)@ == (ConnectionView {
                inbound: chunk_bytes(final(sender)@),
                ..old(self)@
            }),
    {
        &mut self.reader.receiver
    }

    /// The receiving end of the outbound queue.
    pub fn get_writer_receiver(&mut self) -> (receiver: &mut Channel<Vec<u8>>)
        ensures
            chunk_bytes(receiver@) == old(self)@.outbound,
            final(self)@ == (ConnectionView {
                outbound: chunk_bytes(final(receiver)@),
                ..old(self)@
            }),
    {
        &mut self.writer.sender
    }

    /// The pump's two ends of the bridge.
    pub fn split(&mut self) -> (ends: (&mut Reader, &mut Writer))
        ensures
            ends.0@ == old(self)@.reader(),
            ends.1@ == old(self)@.outbound,
            final(self)@ == (ConnectionView {
                waker: final(ends.0)@.waker,
                inbound: final(ends.0)@.pending,
                outbound: final(ends.1)@,
                ..old(self)@
            }),
    {
        (&mut self.reader, &mut self.writer)
    }
}

/// Something that happens at one end of a bridge.
pub enum Traffic {
    /// The process writes a chunk to the descriptor.
    Write(Seq<u8>),
    /// The pump polls its reader, with room for any chunk.
    Poll,
    /// The pump sends a chunk that arrived from the peer.
    Pump(Seq<u8>),
    /// The process reads from the descriptor into a buffer of this many bytes.
    Read(nat),
}

/// The first bytes of `chunk` that a buffer of `room` bytes takes.
pub open spec fn piece(chunk: Seq<u8>, room: nat) -> Seq<u8> {
    if chunk.len() <= room {
        chunk
    } else {
        chunk.take(room as int)
    }
}

impl ConnectionView {
    /// The bridge after one event.
    pub open spec fn after(self, event: Traffic) -> ConnectionView {
        match event {
            Traffic::Write(chunk) => self.written(chunk),
            Traffic::Poll => self.polled(),
            Traffic::Pump(chunk) => self.pumped(chunk),
            Traffic::Read(room) => self.read(),
        }
    }

    /// The bridge after the events of `history`, in order.
    pub open spec fn after_all(self, history: Seq<Traffic>) -> ConnectionView
        decreases history.len(),
    {
        if history.len() == 0 {
            self
        } else {
            self.after_all(history.drop_last()).after(history.last())
        }
    }

    /// The bytes that one event hands to the peer's side: the chunk that a
    /// poll takes.
    pub open spec fn hands_to_peer(self, event: Traffic) -> Seq<u8> {
        match event {
            Traffic::Poll => if self.reader().takes() {
                self.inbound[0]
            } else {
                Seq::empty()
            },
            _ => Seq::empty(),
        }
    }

    /// The bytes that one event hands to the process: the front of the chunk
    /// that a read takes, as far as the buffer has room.
    pub open spec fn hands_to_process(self, event: Traffic) -> Seq<u8> {
        match event {
            Traffic::Read(room) => if self.outbound.len() > 0 {
                piece(self.outbound[0], room)
            } else {
                Seq::empty()
            },
            _ => Seq::empty(),
        }
    }

    /// All bytes that the pump took from the bridge during `history`, in the
    /// order in which it took them.
    pub open spec fn reached_peer(self, history: Seq<Traffic>) -> Seq<u8>
        decreases history.len(),
    {
        if history.len() == 0 {
            Seq::empty()
        } else {
            self.reached_peer(history.drop_last()) + self.after_all(
                history.drop_last(),
            ).hands_to_peer(history.last())
        }
    }

    /// All bytes that reads handed to the process during `history`, in the
    /// order in which they were read.
    pub open spec fn reached_process(self, history: Seq<Traffic>) -> Seq<u8>
        decreases history.len(),
    {
        if history.len() == 0 {
            Seq::empty()
        } else {
            self.reached_process(history.drop_last()) + self.after_all(
                history.drop_last(),
            ).hands_to_process(history.last())
        }
    }

    /// The chunks that reads took off the outbound queue during `history`,
    /// whole, in the order in which they were taken.
    pub open spec fn taken_by_process(self, history: Seq<Traffic>) -> Seq<Seq<u8>>
        decreases history.len(),
    {
        if history.len() == 0 {
            Seq::empty()
        } else {
            let before = self.after_all(history.drop_last());
            let taken = self.taken_by_process(history.drop_last());
            match history.last() {
                Traffic::Read(room) => if before.outbound.len() > 0 {
                    taken.push(before.outbound[0])
                } else {
                    taken
                },
                _ => taken,
            }
        }
    }
}

/// The bytes that the process wrote during `history`, in the order written.
pub open spec fn written_by_process(history: Seq<Traffic>) -> Seq<u8>
    decreases history.len(),
{
    if history.len() == 0 {
        Seq::empty()
    } else {
        written_by_process(history.drop_last()) + match history.last() {
            Traffic::Write(chunk) => chunk,
            _ => Seq::empty(),
        }
    }
}

/// The chunks that the pump sent towards the process during `history`, in the
/// order in which they arrived.
pub open spec fn sent_by_peer(history: Seq<Traffic>) -> Seq<Seq<u8>>
    decreases history.len(),
{
    if history.len() == 0 {
        Seq::empty()
    } else {
        match history.last() {
            Traffic::Pump(chunk) => sent_by_peer(history.drop_last()).push(chunk),
            _ => sent_by_peer(history.drop_last()),
        }
    }
}

/// Once the pump has published its waker, the bytes that the process writes
/// reach the pump in the order written, none lost, none added and none twice:
/// at any time, what waited at the start followed by what was written is what
/// the pump has taken followed by what still waits. Chunk boundaries are not
/// part of the statement.
pub proof fn lemma_inbound_in_order(bridge: ConnectionView, history: Seq<Traffic>)
    requires
        bridge.waker,
    ensures
        bridge.after_all(history).waker,
        bridge.inbound.flatten() + written_by_process(history) == bridge.reached_peer(history)
            + bridge.after_all(history).inbound.flatten(),
    decreases history.len(),
{
    let waited = bridge.inbound.flatten();
    if history.len() > 0 {
        let earlier = history.drop_last();
        lemma_inbound_in_order(bridge, earlier);
        let before = bridge.after_all(earlier);
        let written = written_by_process(earlier);
        let reached = bridge.reached_peer(earlier);
        let waiting = before.inbound.flatten();
        assert(waited + written == reached + waiting);
        match history.last() {
            Traffic::Write(chunk) => {
                before.inbound.lemma_flatten_push(chunk);
                assert(waited + (written + chunk) =~= (waited + written) + chunk);
                assert((reached + Seq::<u8>::empty()) + (waiting + chunk) =~= (reached + waiting)
                    + chunk);
            },
            Traffic::Poll => {
                if before.inbound.len() > 0 {
                    let head = before.inbound[0];
                    let rest = before.inbound.drop_first().flatten();
                    assert(waiting == head + rest);
                    assert((reached + head) + rest =~= reached + (head + rest));
                    assert(waited + (written + Seq::<u8>::empty()) =~= waited + written);
                } else {
                    assert(waited + (written + Seq::<u8>::empty()) =~= waited + written);
                    assert((reached + Seq::<u8>::empty()) + waiting =~= reached + waiting);
                }
            },
            _ => {
                assert(waited + (written + Seq::<u8>::empty()) =~= waited + written);
                assert((reached + Seq::<u8>::empty()) + waiting =~= reached + waiting);
            },
        }
    } else {
        assert(waited + Seq::<u8>::empty() =~= Seq::<u8>::empty() + waited);
    }
}

/// Before the pump has published its waker, what the process writes is
/// dropped: the bridge stays as it was.
pub proof fn lemma_write_before_waker(bridge: ConnectionView, chunk: Seq<u8>)
    requires
        !bridge.waker,
    ensures
        bridge.written(chunk) == bridge,
{
}

/// The chunks that arrive from the peer are read in arrival order: at any
/// time, what waited at the start followed by what arrived is what reads have
/// taken followed by what still waits. A read hands the process the front of
/// the chunk it takes and nothing else, so the process never gets more bytes
/// than the chunks taken hold.
pub proof fn lemma_outbound_in_order(bridge: ConnectionView, history: Seq<Traffic>)
    ensures
        bridge.outbound + sent_by_peer(history) == bridge.taken_by_process(history)
            + bridge.after_all(history).outbound,
        bridge.reached_process(history).len() <= bridge.taken_by_process(history).flatten().len(),
        bridge.taken_by_process(history).flatten().len() <= bridge.outbound.flatten().len()
            + sent_by_peer(history).flatten().len(),
    decreases history.len(),
{
    let waited = bridge.outbound;
    if history.len() > 0 {
        let earlier = history.drop_last();
        lemma_outbound_in_order(bridge, earlier);
        let before = bridge.after_all(earlier);
        let sent = sent_by_peer(earlier);
        let taken = bridge.taken_by_process(earlier);
        assert(waited + sent == taken + before.outbound);
        match history.last() {
            Traffic::Pump(chunk) => {
                sent.lemma_flatten_push(chunk);
                assert(waited + sent.push(chunk) =~= (waited + sent).push(chunk));
                assert(taken + before.outbound.push(chunk) =~= (taken + before.outbound).push(
                    chunk,
                ));
            },
            Traffic::Read(room) => {
                if before.outbound.len() > 0 {
                    let head = before.outbound[0];
                    taken.lemma_flatten_push(head);
                    assert(taken.push(head) + before.outbound.drop_first() =~= taken
                        + before.outbound);
                    assert(piece(head, room).len() <= head.len());
                }
            },
            _ => {},
        }
    } else {
        assert(waited + Seq::<Seq<u8>>::empty() =~= Seq::<Seq<u8>>::empty() + waited);
    }
    vstd::seq_lib::lemma_flatten_concat(bridge.outbound, sent_by_peer(history));
    vstd::seq_lib::lemma_flatten_concat(
        bridge.taken_by_process(history),
        bridge.after_all(history).outbound,
    );
}

} // verus!
