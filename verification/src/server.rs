//! The server: the dispatcher's decisions and the shared registry.
//!
//! The dispatcher accepts connections, registers each peer, hands it to a
//! handler, and deregisters the peer exactly once when its handler reaches a
//! terminal state.  The accept loop itself — sockets, binding, blocking —
//! lives outside the library; this module states and proves what each of its
//! decisions does to the registry.

use vstd::prelude::*;

use crate::addr::PeerAddr;
use crate::addr::addr_key;
use crate::codec::complete_prefix_len;
use crate::codec::frames_of;
use crate::handler::Connection;
use crate::handler::HandlerState;
use crate::handler::run_connection;
use crate::registry::ConnectionRegistry;

verus! {

/// The outcome of one accept attempt, as the listener reports it.
pub enum AcceptEvent {
    /// A connection from this peer was accepted.
    Accepted(PeerAddr),
    /// The accept failed but the listener still stands (say, a transient
    /// resource shortage): the loop must go on.
    RecoverableFailure,
    /// The listener itself is gone: the server has failed its serving duty.
    FatalFailure,
}

/// What the dispatcher does after one accept attempt.
pub enum DispatchDecision {
    /// Run this freshly registered handler to completion, independently of
    /// every other connection.
    Handle(Connection),
    /// Keep accepting: a recoverable accept failure stops nothing.
    KeepAccepting,
    /// Stop serving: the listener failed fatally.
    Shutdown,
}

/// The server: the registry of open connections, shared by the dispatcher
/// and every handler.
pub struct Server {
    registry: ConnectionRegistry,
}

impl View for Server {
    type V = Set<u64>;

    closed spec fn view(&self) -> Set<u64> {
        self.registry@
    }
}

impl Server {
    /// The server's registry is well formed.
    pub closed spec fn wf(&self) -> bool {
        self.registry.wf()
    }

    /// A fresh server: nothing is connected.
    pub fn new() -> (s: Server)
        ensures
            s@ == Set::<u64>::empty(),
            s.wf(),
    {
        Server { registry: ConnectionRegistry::new() }
    }

    /// How many connections are open right now.
    pub fn conns_num(&self) -> (n: usize)
        ensures
            n == self@.len(),
    {
        self.registry.count()
    }

    /// A well-formed server tracks finitely many peers, so its count is
    /// meaningful.
    pub proof fn lemma_finite(&self)
        requires
            self.wf(),
        ensures
            self@.finite(),
    {
        self.registry.lemma_finite();
    }

    /// Whether a peer is currently tracked as connected.
    pub fn is_connected(&self, addr: PeerAddr) -> (b: bool)
        ensures
            b == self@.contains(addr_key(addr)),
    {
        self.registry.contains(addr.key())
    }

    /// Accept-time wiring: tracks the peer in the registry and hands back a
    /// fresh handler for it.
    pub fn client_connected(&mut self, addr: PeerAddr) -> (c: Connection)
        ensures
            final(self)@ == old(self)@.insert(addr_key(addr)),
            old(self).wf() ==> final(self).wf(),
            c.addr == addr,
            c.state is Receiving,
    {
        self.registry.add(addr.key());
        Connection::new(addr)
    }

    /// Terminal cleanup: deregisters the peer of a closed handler.  Taking
    /// the handler by value consumes it, so each connection's removal happens
    /// exactly once, whether its termination was clean or erroneous.
    pub fn connection_closed(&mut self, conn: Connection)
        requires
            conn.state matches HandlerState::Closed(_),
        ensures
            final(self)@ == old(self)@.remove(addr_key(conn.addr)),
            old(self).wf() ==> final(self).wf(),
    {
        self.registry.remove(conn.addr.key());
    }

    /// One decision of the accept loop: an accepted peer is registered and
    /// handed to a handler, a recoverable failure changes nothing and the
    /// loop goes on, and only a fatal listener failure shuts the server down.
    pub fn on_accept(&mut self, ev: AcceptEvent) -> (d: DispatchDecision)
        ensures
            old(self).wf() ==> final(self).wf(),
            (match ev {
                AcceptEvent::Accepted(a) => final(self)@ == old(self)@.insert(addr_key(a)) && (
                d matches DispatchDecision::Handle(c) && c.addr == a && c.state is Receiving),
                AcceptEvent::RecoverableFailure => final(self)@ == old(self)@ && d
                    == DispatchDecision::KeepAccepting,
                AcceptEvent::FatalFailure => final(self)@ == old(self)@ && d
                    == DispatchDecision::Shutdown,
            }),
    {
        match ev {
            AcceptEvent::Accepted(a) => DispatchDecision::Handle(self.client_connected(a)),
            AcceptEvent::RecoverableFailure => DispatchDecision::KeepAccepting,
            AcceptEvent::FatalFailure => DispatchDecision::Shutdown,
        }
    }

    /// The whole lifecycle of one connection over the recorded bytes of its
    /// peer's stream: accept registers the peer, the handler echoes every
    /// complete frame back unchanged and in order, and termination — clean
    /// disconnect and transport error alike — deregisters the peer exactly
    /// once.  A lifecycle that starts and ends leaves the registry where a
    /// single removal of that peer would.
    pub fn serve_connection(&mut self, addr: PeerAddr, input: &Vec<u8>) -> (out: Vec<u8>)
        ensures
            final(self)@ == old(self)@.remove(addr_key(addr)),
            old(self).wf() ==> final(self).wf(),
            out@ == input@.take(complete_prefix_len(input@)),
            frames_of(input@) is Some ==> out@ == input@,
            frames_of(input@) is Some ==> frames_of(out@) == frames_of(input@),
    {
        let conn = self.client_connected(addr);
        let (out, conn) = run_connection(conn, input);
        self.connection_closed(conn);
        proof {
            assert(old(self)@.insert(addr_key(addr)).remove(addr_key(addr)) =~= old(
                self,
            )@.remove(addr_key(addr)));
        }
        out
    }
}

} // verus!
