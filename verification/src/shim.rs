//! The decisions of the interposed `connect`, `write` and `read`, and the
//! state they share with the worker: the configured proxies, the bridges by
//! descriptor, and the listener on newly intercepted connections.
//!
//! The shim decides and keeps the books. The caller makes the real system
//! call where the shim says `Forward`, wakes the worker and the pump where it
//! says so, and waits where it says `Pending`.

use std::collections::HashMap;
use vstd::prelude::*;
use vstd::std_specs::iter::IteratorSpec;

use crate::address::{unpacked, Endpoint};
use crate::channel::Channel;
use crate::connection::{
    fill, filled, lemma_chunk_bytes, BridgeError, Connection, ConnectionView, Poll,
};
use crate::connection_listener::{ConnectionListener, ListenerView, Listening};
use crate::proxychains::{lists_endpoint, Proxy, ProxyChainsConf};
use crate::unpack;

verus! {

/// What the interposed `write` does with a call.
#[derive(Clone, Copy, Debug, PartialEq, Eq, Structural)]
pub enum Written {
    /// The descriptor has no bridge: make the real call with the same
    /// arguments and return what it returns.
    Forward,
    /// The descriptor has a bridge: report `count` bytes written. With `wake`
    /// the chunk was queued and the pump's waker is to be fired; without, the
    /// pump had not published a waker and the chunk was dropped.
    Taken { count: usize, wake: bool },
}

/// What the interposed `read` does with a call.
#[derive(Clone, Copy, Debug, PartialEq, Eq, Structural)]
pub enum ReadOutcome {
    /// The descriptor has no bridge: make the real call with the same
    /// arguments and return what it returns.
    Forward,
    /// The descriptor has a bridge and nothing has arrived from the peer:
    /// wait, and ask again.
    Pending,
    /// A chunk of `len` bytes was taken and copied to the front of the buffer,
    /// as much of it as fits: report `len`.
    Taken { len: usize },
}

/// What the worker finds when it asks for the next intercepted connection.
#[derive(Clone, Copy, Debug, PartialEq, Eq, Structural)]
pub enum Accepted {
    /// See [`Listening::Publish`].
    Publish,
    /// Nothing has been intercepted since the last poll.
    Pending,
    /// The descriptor `fd` now has a bridge: dial `target_addr` and pump.
    Ready { fd: u32, target_addr: Endpoint },
    /// The shim has shut down.
    Finished,
}

/// The state that the interposed calls and the worker share.
pub struct Shim {
    config: ProxyChainsConf,
    connections: HashMap<u32, Connection>,
    listener: ConnectionListener,
}

/// The state of a shim, as a value.
pub struct ShimView {
    /// The configuration that the shim was made with.
    pub config: ProxyChainsConf,
    /// The bridges, by descriptor.
    pub bridges: Map<u32, ConnectionView>,
    /// The intercepted connections that wait for their bridge.
    pub listener: ListenerView,
}

impl ShimView {
    /// The configured proxies.
    pub open spec fn proxies(self) -> Seq<Proxy> {
        self.config.proxies@
    }

    /// Every bridge is registered under its own descriptor.
    pub open spec fn keyed(self) -> bool {
        forall|fd: u32| self.bridges.contains_key(fd) ==> (#[trigger] self.bridges[fd]).fd == fd
    }

    /// Whether some bridge leads to `addr`.
    pub open spec fn bridged(self, addr: Endpoint) -> bool {
        exists|fd: u32| self.bridges.contains_key(fd) && (#[trigger] self.bridges[fd]).target_addr == addr
    }

    /// Whether `addr` is the endpoint of a configured proxy.
    pub open spec fn is_proxy(self, addr: Endpoint) -> bool {
        lists_endpoint(self.proxies(), addr)
    }

    /// Whether a `connect` to `addr` is intercepted: not where `addr` is a
    /// proxy, which would redirect the dialer's own connection, and not where
    /// a bridge leads there already.
    pub open spec fn intercepts(self, addr: Endpoint) -> bool {
        !self.bridged(addr) && !self.is_proxy(addr)
    }

    /// The state after `connect(fd, addr)`.
    pub open spec fn connected(self, fd: u32, addr: Endpoint) -> ShimView {
        if self.intercepts(addr) {
            ShimView { listener: self.listener.announced(fd, addr), ..self }
        } else {
            self
        }
    }

    /// What `write` on `fd` with `count` bytes reports.
    pub open spec fn write_result(self, fd: u32, count: usize) -> Written {
        if self.bridges.contains_key(fd) {
            Written::Taken { count, wake: self.bridges[fd].waker }
        } else {
            Written::Forward
        }
    }

    /// The state after `write(fd, chunk)`.
    pub open spec fn wrote(self, fd: u32, chunk: Seq<u8>) -> ShimView {
        if self.bridges.contains_key(fd) {
            ShimView { bridges: self.bridges.insert(fd, self.bridges[fd].written(chunk)), ..self }
        } else {
            self
        }
    }

    /// What `read` on `fd` reports.
    pub open spec fn read_result(self, fd: u32) -> ReadOutcome {
        if !self.bridges.contains_key(fd) {
            ReadOutcome::Forward
        } else if self.bridges[fd].outbound.len() > 0 {
            ReadOutcome::Taken { len: self.bridges[fd].outbound[0].len() as usize }
        } else {
            ReadOutcome::Pending
        }
    }

    /// The buffer after `read` on `fd`.
    pub open spec fn read_buffer(self, fd: u32, buf: Seq<u8>) -> Seq<u8> {
        if self.bridges.contains_key(fd) && self.bridges[fd].outbound.len() > 0 {
            filled(buf, self.bridges[fd].outbound[0])
        } else {
            buf
        }
    }

    /// The state after `read` on `fd`.
    pub open spec fn took(self, fd: u32) -> ShimView {
        if self.bridges.contains_key(fd) {
            ShimView { bridges: self.bridges.insert(fd, self.bridges[fd].read()), ..self }
        } else {
            self
        }
    }

    /// What the worker finds when it asks for the next connection.
    pub open spec fn accept_result(self) -> Accepted {
        if !self.listener.waker_sent {
            Accepted::Publish
        } else if self.listener.pending.len() > 0 {
            Accepted::Ready {
                fd: self.listener.pending[0].0,
                target_addr: self.listener.pending[0].1,
            }
        } else if self.listener.closed {
            Accepted::Finished
        } else {
            Accepted::Pending
        }
    }

    /// The state after the worker asked for the next connection: the one that
    /// has waited longest gets a fresh bridge under its descriptor.
    pub open spec fn accepted(self) -> ShimView {
        if self.listener.yields() {
            let (fd, target_addr) = self.listener.pending[0];
            ShimView {
                bridges: self.bridges.insert(fd, ConnectionView::fresh(fd, target_addr)),
                listener: self.listener.polled(),
                ..self
            }
        } else {
            self
        }
    }

    /// The state after the pump of `fd` polled for an inbound chunk.
    pub open spec fn pump_polled(self, fd: u32) -> ShimView {
        if self.bridges.contains_key(fd) {
            ShimView { bridges: self.bridges.insert(fd, self.bridges[fd].polled()), ..self }
        } else {
            self
        }
    }

    /// The state after the pump of `fd` sent `chunk` towards the process.
    pub open spec fn pump_wrote(self, fd: u32, chunk: Seq<u8>) -> ShimView {
        if self.bridges.contains_key(fd) {
            ShimView { bridges: self.bridges.insert(fd, self.bridges[fd].pumped(chunk)), ..self }
        } else {
            self
        }
    }

    /// The state after the bridge of `fd` was released.
    pub open spec fn released(self, fd: u32) -> ShimView {
        ShimView { bridges: self.bridges.remove(fd), ..self }
    }
}

impl ShimView {
    /// The state after the worker asked for the next connection `count` times.
    pub open spec fn accepted_times(self, count: nat) -> ShimView
        decreases count,
    {
        if count == 0 {
            self
        } else {
            self.accepted_times((count - 1) as nat).accepted()
        }
    }
}

/// The worker gives the connections that wait their bridges in the order in
/// which they were announced: after `count` polls the first `count` are off
/// the queue, and the one announced last among them has a fresh bridge under
/// its descriptor.
pub proof fn lemma_accepted_in_order(shim: ShimView, count: nat)
    requires
        shim.listener.waker_sent,
        count <= shim.listener.pending.len(),
    ensures
        shim.accepted_times(count).config == shim.config,
        shim.accepted_times(count).listener == (ListenerView {
            pending: shim.listener.pending.skip(count as int),
            ..shim.listener
        }),
        count >= 1 ==> {
            let (fd, target_addr) = shim.listener.pending[count - 1];
            &&& shim.accepted_times(count).bridges.contains_key(fd)
            &&& shim.accepted_times(count).bridges[fd] == ConnectionView::fresh(fd, target_addr)
        },
    decreases count,
{
    let pending = shim.listener.pending;
    if count == 0 {
        assert(pending.skip(0) =~= pending);
    } else {
        let fewer = (count - 1) as nat;
        lemma_accepted_in_order(shim, fewer);
        let before = shim.accepted_times(fewer);
        assert(before.listener.pending[0] == pending[count - 1]);
        assert(pending.skip(fewer as int).drop_first() =~= pending.skip(count as int));
    }
}

/// What becomes of a `connect`. To the endpoint of a configured proxy it
/// changes nothing: no bridge is made and nothing is announced. To any other
/// endpoint, while the shim is running, either a bridge leads there already,
/// or the descriptor is queued behind those that wait, and once the worker has
/// polled for each of them the descriptor has a bridge to that endpoint.
pub proof fn lemma_connect_gets_bridge(shim: ShimView, fd: u32, addr: Endpoint)
    requires
        shim.listener.waker_sent,
        !shim.listener.closed,
    ensures
        shim.is_proxy(addr) ==> shim.connected(fd, addr) == shim,
        !shim.is_proxy(addr) ==> shim.bridged(addr) || {
            let later = shim.connected(fd, addr).accepted_times(shim.listener.pending.len() + 1);
            &&& later.bridges.contains_key(fd)
            &&& later.bridges[fd].target_addr == addr
        },
{
    if shim.intercepts(addr) {
        let queued = shim.connected(fd, addr);
        let count = shim.listener.pending.len() + 1;
        lemma_accepted_in_order(queued, count);
        assert(queued.listener.pending[count - 1] == (fd, addr));
    }
}

/// Whatever the interposed calls, the worker and the pumps do, every bridge
/// stays registered under its own descriptor.
pub proof fn lemma_bridges_stay_keyed(shim: ShimView, fd: u32, addr: Endpoint, chunk: Seq<u8>)
    requires
        shim.keyed(),
    ensures
        shim.connected(fd, addr).keyed(),
        shim.wrote(fd, chunk).keyed(),
        shim.took(fd).keyed(),
        shim.accepted().keyed(),
        shim.pump_polled(fd).keyed(),
        shim.pump_wrote(fd, chunk).keyed(),
        shim.released(fd).keyed(),
{
}

/// A descriptor without a bridge is none of the shim's business: `write` and
/// `read` on it are forwarded, and neither the shim nor the buffer changes.
pub proof fn lemma_unbridged_is_forwarded(shim: ShimView, fd: u32, chunk: Seq<u8>, buf: Seq<u8>)
    requires
        !shim.bridges.contains_key(fd),
    ensures
        shim.write_result(fd, chunk.len() as usize) == Written::Forward,
        shim.wrote(fd, chunk) == shim,
        shim.read_result(fd) == ReadOutcome::Forward,
        shim.read_buffer(fd, buf) == buf,
        shim.took(fd) == shim,
{
}

/// A `write` on a descriptor with a bridge is never forwarded and always
/// reports every byte written, whether the chunk was queued or dropped.
pub proof fn lemma_bridged_write_is_full(shim: ShimView, fd: u32, chunk: Seq<u8>)
    requires
        shim.bridges.contains_key(fd),
        chunk.len() <= usize::MAX,
    ensures
        shim.write_result(fd, chunk.len() as usize) == (Written::Taken {
            count: chunk.len() as usize,
            wake: shim.bridges[fd].waker,
        }),
        shim.wrote(fd, chunk).bridges[fd] == shim.bridges[fd].written(chunk),
        !shim.bridges[fd].waker ==> shim.wrote(fd, chunk) == shim,
{
    if !shim.bridges[fd].waker {
        assert(shim.bridges.insert(fd, shim.bridges[fd]) =~= shim.bridges);
    }
}

impl View for Shim {
    type V = ShimView;

    closed spec fn view(&self) -> ShimView {
        ShimView {
            config: self.config,
            bridges: self.connections@.map_values(|connection: Connection| connection@),
            listener: self.listener@,
        }
    }
}

impl Shim {
    /// A shim with the given configuration, no bridge, and a listener on which
    /// nothing waits.
    pub fn new(config: ProxyChainsConf) -> (shim: Shim)
        ensures
            shim@ == (ShimView {
                config,
                bridges: Map::empty(),
                listener: ListenerView { waker_sent: false, pending: Seq::empty(), closed: false },
            }),
    {
        let shim = Shim {
            config,
            connections: HashMap::new(),
            listener: ConnectionListener::new(Channel::new()),
        };
        assert(shim@.bridges =~= Map::empty());
        shim
    }

    /// The configuration.
    pub fn config(&self) -> (config: &ProxyChainsConf)
        ensures
            *config == self@.config,
    {
        &self.config
    }

    /// The configured proxies.
    pub fn proxies(&self) -> (proxies: &Vec<Proxy>)
        ensures
            proxies@ == self@.proxies(),
    {
        &self.config.proxies
    }

    /// Whether some bridge leads to `sockaddr`.
    pub fn is_bridged(&self, sockaddr: Endpoint) -> (found: bool)
        ensures
            found == self@.bridged(sockaddr),
    {
        broadcast use vstd::std_specs::hash::group_hash_axioms;

        let mut found = false;
        for entry in walk: self.connections.iter()
            invariant
                walk.seq() == vstd::std_specs::hash::spec_hash_map_iter(
                    &self.connections,
                ).remaining(),
                found == exists|i: int|
                    0 <= i < walk.index() && (#[trigger] walk.seq()[i]).1.target_addr == sockaddr,
        {
            if entry.1.target_addr == sockaddr {
                found = true;
            }
        }
        proof {
            let entries = vstd::std_specs::hash::spec_hash_map_iter(&self.connections).remaining();
            if found {
                let i = choose|i: int|
                    0 <= i < entries.len() && (#[trigger] entries[i]).1.target_addr == sockaddr;
                let fd = *entries[i].0;
                assert(self.connections@.contains_key(fd));
                assert(self@.bridges.contains_key(fd));
                assert(self@.bridges[fd].target_addr == sockaddr);
            }
            if self@.bridged(sockaddr) {
                let fd = choose|fd: u32|
                    self@.bridges.contains_key(fd) && (#[trigger] self@.bridges[fd]).target_addr
                        == sockaddr;
                assert(self.connections@.contains_key(fd));
                assert(entries.contains((&fd, &self.connections@[fd])));
                let i = choose|i: int|
                    0 <= i < entries.len() && entries[i] == (&fd, &self.connections@[fd]);
                assert(entries[i].1.target_addr == sockaddr);
            }
        }
        found
    }

    /// Whether `addr` is the endpoint of a configured proxy. This is what
    /// keeps the dialer's own connections out of the tunnel.
    pub fn is_proxy(&self, addr: &Endpoint) -> (listed: bool)
        ensures
            listed == self@.is_proxy(*addr),
    {
        self.config.is_proxy(addr)
    }

    /// The interposed `connect`. Reads the endpoint from the raw socket
    /// address; unless it is a proxy's or a bridge leads there already, the
    /// descriptor is announced to the worker. Returns whether the worker is to
    /// be woken. The real `connect` is made in every case.
    pub fn connect(&mut self, socket: i32, sa_data: &[i8; 14]) -> (wake: bool)
        ensures
            final(self)@ == old(self)@.connected(socket as u32, unpacked(sa_data@)),
            wake == (old(self)@.intercepts(unpacked(sa_data@)) && !old(self)@.listener.closed),
    {
        let socket_addr = unpack(sa_data);
        if !self.is_bridged(socket_addr) && !self.is_proxy(&socket_addr) {
            self.listener.announce(socket as u32, socket_addr)
        } else {
            false
        }
    }

    /// The interposed `write`. Without a bridge on `fd` the call is forwarded
    /// and nothing changes. With one, the bytes are copied into a chunk of
    /// their own and queued for the pump, which is then to be woken, and all
    /// of them are reported written: also where the pump has not published
    /// its waker yet, in which case the chunk is dropped.
    pub fn write(&mut self, fd: i32, content: &[u8]) -> (written: Written)
        ensures
            written == old(self)@.write_result(fd as u32, content@.len() as usize),
            final(self)@ == old(self)@.wrote(fd as u32, content@),
    {
        let key = fd as u32;
        let ghost before = self.connections@;
        match self.connections.remove(&key) {
            Some(mut connection) => {
                let count = content.len();
                let data = vstd::slice::slice_to_vec(content);
                let wake = connection.get_reader_waker();
                if wake {
                    let sender = connection.get_reader_sender();
                    proof {
                        lemma_chunk_bytes(sender@, data);
                    }
                    sender.send(data);
                }
                self.connections.insert(key, connection);
                assert(self@.bridges =~= old(self)@.wrote(key, content@).bridges);
                Written::Taken { count, wake }
            },
            None => {
                assert(self.connections@ =~= before);
                Written::Forward
            },
        }
    }

    /// The interposed `read`. Without a bridge on `fd` the call is forwarded
    /// and nothing changes. With one, the chunk that arrived first is taken
    /// and copied to the front of `buf`, as much of it as fits, and its whole
    /// length is reported; where none has arrived the caller is to wait.
    pub fn read(&mut self, fd: i32, buf: &mut [u8]) -> (outcome: ReadOutcome)
        ensures
            outcome == old(self)@.read_result(fd as u32),
            final(buf)@ == old(self)@.read_buffer(fd as u32, old(buf)@),
            final(self)@ == old(self)@.took(fd as u32),
    {
        let key = fd as u32;
        let ghost before = self.connections@;
        match self.connections.remove(&key) {
            Some(mut connection) => {
                let receiver = connection.get_writer_receiver();
                let ghost waiting = receiver@;
                let outcome = match receiver.try_recv() {
                    Some(data) => {
                        proof {
                            lemma_chunk_bytes(waiting, data);
                        }
                        fill(buf, &data);
                        ReadOutcome::Taken { len: data.len() }
                    },
                    None => ReadOutcome::Pending,
                };
                self.connections.insert(key, connection);
                assert(self@.bridges =~= old(self)@.took(key).bridges);
                outcome
            },
            None => {
                assert(self.connections@ =~= before);
                ReadOutcome::Forward
            },
        }
    }

    /// Takes note that the worker's waker has reached the interposed
    /// `connect`, which fires it after each announcement.
    pub fn waker_sent(&mut self)
        ensures
            final(self)@ == (ShimView {
                listener: ListenerView { waker_sent: true, ..old(self)@.listener },
                ..old(self)@
            }),
    {
        self.listener.waker_sent();
    }

    /// Shuts the listener: connections that wait still get their bridge, no
    /// further one is announced, and then the worker's sequence ends.
    pub fn close(&mut self)
        ensures
            final(self)@ == (ShimView {
                listener: ListenerView { closed: true, ..old(self)@.listener },
                ..old(self)@
            }),
    {
        self.listener.close();
    }

    /// The worker's poll for the next intercepted connection. The connection
    /// that has waited longest gets a fresh bridge, registered under its
    /// descriptor; a bridge that was there under that descriptor is replaced.
    pub fn poll_next(&mut self) -> (accepted: Accepted)
        ensures
            accepted == old(self)@.accept_result(),
            final(self)@ == old(self)@.accepted(),
    {
        match self.listener.poll_next() {
            Listening::Publish => Accepted::Publish,
            Listening::Pending => Accepted::Pending,
            Listening::Finished => Accepted::Finished,
            Listening::Ready(connection) => {
                let fd = connection.fd;
                let target_addr = connection.target_addr;
                self.connections.insert(fd, connection);
                assert(self@.bridges =~= old(self)@.accepted().bridges);
                Accepted::Ready { fd, target_addr }
            },
        }
    }

    /// The pump's poll for the next inbound chunk of `fd`: see
    /// [`crate::connection::Reader::poll_read`]. `None` without a bridge.
    pub fn poll_read(&mut self, fd: u32, buf: &mut [u8]) -> (polled: Option<
        Poll<Result<usize, BridgeError>>,
    >)
        ensures
            final(self)@ == old(self)@.pump_polled(fd),
            polled == if old(self)@.bridges.contains_key(fd) {
                Some(old(self)@.bridges[fd].reader().poll_result(old(buf)@.len()))
            } else {
                None
            },
            final(buf)@ == if old(self)@.bridges.contains_key(fd) {
                old(self)@.bridges[fd].reader().poll_buffer(old(buf)@)
            } else {
                old(buf)@
            },
    {
        let ghost before = self.connections@;
        match self.connections.remove(&fd) {
            Some(mut connection) => {
                let (reader, _) = connection.split();
                let polled = reader.poll_read(buf);
                self.connections.insert(fd, connection);
                assert(self@.bridges =~= old(self)@.pump_polled(fd).bridges);
                Some(polled)
            },
            None => {
                assert(self.connections@ =~= before);
                None
            },
        }
    }

    /// The pump's write of a chunk from the peer for `fd`: see
    /// [`crate::connection::Writer::poll_write`]. `None` without a bridge.
    pub fn poll_write(&mut self, fd: u32, buf: &[u8]) -> (polled: Option<
        Poll<Result<usize, BridgeError>>,
    >)
        ensures
            final(self)@ == old(self)@.pump_wrote(fd, buf@),
            polled == if old(self)@.bridges.contains_key(fd) {
                Some(Poll::Ready(Ok::<usize, BridgeError>(buf@.len() as usize)))
            } else {
                None
            },
    {
        let ghost before = self.connections@;
        match self.connections.remove(&fd) {
            Some(mut connection) => {
                let (_, writer) = connection.split();
                let polled = writer.poll_write(buf);
                self.connections.insert(fd, connection);
                assert(self@.bridges =~= old(self)@.pump_wrote(fd, buf@).bridges);
                Some(polled)
            },
            None => {
                assert(self.connections@ =~= before);
                None
            },
        }
    }

    /// Releases the bridge of `fd`, with what its queues hold: the pump has
    /// ended or the descriptor was closed. Returns whether there was one.
    pub fn release(&mut self, fd: u32) -> (released: bool)
        ensures
            released == old(self)@.bridges.contains_key(fd),
            final(self)@ == old(self)@.released(fd),
    {
        let removed = self.connections.remove(&fd);
        assert(self@.bridges =~= old(self)@.released(fd).bridges);
        removed.is_some()
    }
}

} // verus!
