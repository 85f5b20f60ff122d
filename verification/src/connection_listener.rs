//! The sequence of newly intercepted connections, as the worker polls it.

use vstd::prelude::*;

use crate::address::Endpoint;
use crate::channel::Channel;
use crate::connection::{Connection, ConnectionView};

verus! {

/// What a poll of the listener found.
#[derive(Debug)]
pub enum Listening {
    /// The listener has no waker on record. The caller hands its waker to the
    /// side that announces connections, reports with
    /// [`ConnectionListener::waker_sent`] that it got there, and has nothing
    /// ready this time.
    Publish,
    /// Nothing has been announced since the last poll.
    Pending,
    /// The bridge for the connection that has waited longest.
    Ready(Connection),
    /// Nothing waits and nothing will be announced any more.
    Finished,
}

/// The connections that were intercepted and wait for their bridge.
#[derive(Debug)]
pub struct ConnectionListener {
    is_waker_sent: bool,
    connection_receiver: Channel<(u32, Endpoint)>,
    closed: bool,
}

/// The state of a listener, as a value.
pub struct ListenerView {
    /// Whether the worker's waker has reached the announcing side.
    pub waker_sent: bool,
    /// Descriptor and target of the connections that wait, oldest first.
    pub pending: Seq<(u32, Endpoint)>,
    /// Whether the announcing side has hung up.
    pub closed: bool,
}

/// What a poll reports, without the bridge that `Listening::Ready` carries.
pub enum ListeningView {
    Publish,
    Pending,
    Ready(ConnectionView),
    Finished,
}

impl View for Listening {
    type V = ListeningView;

    open spec fn view(&self) -> ListeningView {
        match self {
            Listening::Publish => ListeningView::Publish,
            Listening::Pending => ListeningView::Pending,
            Listening::Ready(connection) => ListeningView::Ready(connection@),
            Listening::Finished => ListeningView::Finished,
        }
    }
}

impl ListenerView {
    /// Whether a poll hands out a bridge.
    pub open spec fn yields(self) -> bool {
        self.waker_sent && self.pending.len() > 0
    }

    /// The listener after `(fd, target_addr)` was announced: queued last,
    /// unless the announcing side has hung up.
    pub open spec fn announced(self, fd: u32, target_addr: Endpoint) -> ListenerView {
        if self.closed {
            self
        } else {
            ListenerView { pending: self.pending.push((fd, target_addr)), ..self }
        }
    }

    /// The listener after a poll.
    pub open spec fn polled(self) -> ListenerView {
        if self.yields() {
            ListenerView { pending: self.pending.drop_first(), ..self }
        } else {
            self
        }
    }

    /// What a poll reports.
    pub open spec fn poll_result(self) -> ListeningView {
        if !self.waker_sent {
            ListeningView::Publish
        } else if self.pending.len() > 0 {
            ListeningView::Ready(ConnectionView::fresh(self.pending[0].0, self.pending[0].1))
        } else if self.closed {
            ListeningView::Finished
        } else {
            ListeningView::Pending
        }
    }
}

impl View for ConnectionListener {
    type V = ListenerView;

    closed spec fn view(&self) -> ListenerView {
        ListenerView {
            waker_sent: self.is_waker_sent,
            pending: self.connection_receiver@,
            closed: self.closed,
        }
    }
}

impl ConnectionListener {
    /// A listener on the connections that `receiver` holds and will be sent.
    /// No waker is on record yet.
    pub fn new(receiver: Channel<(u32, Endpoint)>) -> (listener: Self)
        ensures
            listener@ == (ListenerView { waker_sent: false, pending: receiver@, closed: false }),
    {
        ConnectionListener { is_waker_sent: false, connection_receiver: receiver, closed: false }
    }

    /// Whether the worker's waker has reached the announcing side.
    pub fn is_waker_sent(&self) -> (sent: bool)
        ensures
            sent == self@.waker_sent,
    {
        self.is_waker_sent
    }

    /// Takes note that the worker's waker has reached the announcing side.
    pub fn waker_sent(&mut self)
        ensures
            final(self)@ == (ListenerView { waker_sent: true, ..old(self)@ }),
    {
        self.is_waker_sent = true;
    }

    /// Announces an intercepted connection. Returns whether it was queued, and
    /// so whether the worker is to be woken: it is not after `close`.
    pub fn announce(&mut self, fd: u32, target_addr: Endpoint) -> (queued: bool)
        ensures
            final(self)@ == old(self)@.announced(fd, target_addr),
            queued == !old(self)@.closed,
    {
        if self.closed {
            return false;
        }
        self.connection_receiver.send((fd, target_addr));
        true
    }

    /// The announcing side hangs up: what waits is still handed out, then the
    /// sequence ends.
    pub fn close(&mut self)
        ensures
            final(self)@ == (ListenerView { closed: true, ..old(self)@ }),
    {
        self.closed = true;
    }

    /// Polls for the next intercepted connection. Until a waker is on record
    /// the poll asks for it and takes nothing. After that it hands out a fresh
    /// bridge for the connection that has waited longest; with nothing waiting
    /// it reports the end of the sequence once the announcing side has hung
    /// up, and nothing ready before.
    pub fn poll_next(&mut self) -> (polled: Listening)
        ensures
            final(self)@ == old(self)@.polled(),
            polled@ == old(self)@.poll_result(),
    {
        if !self.is_waker_sent {
            return Listening::Publish;
        }
        match self.connection_receiver.try_recv() {
            Some(socket) => Listening::Ready(Connection::new(socket.0, socket.1)),
            None => {
                if self.closed {
                    Listening::Finished
                } else {
                    Listening::Pending
                }
            },
        }
    }
}

} // verus!
