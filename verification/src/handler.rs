//! The per-connection handler: a finite state machine that receives one
//! frame at a time and echoes it back unchanged until the peer disconnects
//! or a transport error occurs.
//!
//! The handler owns no socket here: the caller performs the reads and writes
//! and feeds their outcomes in, and the transitions say exactly what must
//! happen on each outcome.  A terminal transition is reached exactly once
//! per connection, and the state it carries says whether termination was a
//! clean disconnect or an error.

use vstd::prelude::*;

use crate::addr::PeerAddr;
use crate::codec::Decoded;
use crate::codec::TransportError;
use crate::codec::complete_prefix_len;
use crate::codec::decode_next;
use crate::codec::encode;
use crate::codec::frame_len_at;
use crate::codec::frames_of;
use crate::codec::lemma_be32_bytes_roundtrip;
use crate::codec::lemma_stream_step;
use crate::codec::lemma_stream_truncated;
use crate::codec::spec_encode;
use crate::codec::be32_of;
use crate::codec::be32_value;

verus! {

/// Why a connection reached its terminal state.
#[derive(PartialEq, Eq, Structural, Clone, Copy, Debug)]
pub enum CloseReason {
    /// The peer closed its side at a frame boundary: normal termination.
    CleanDisconnect,
    /// A transport error ended the connection: error termination.
    Failure,
}

/// The state of one connection's receive-then-echo cycle.
pub enum HandlerState {
    /// Awaiting the next frame from the peer.
    Receiving,
    /// Holding one received frame, to be written back unchanged.
    Sending(Vec<u8>),
    /// The socket is released; no further operation is permitted.
    Closed(CloseReason),
}

/// One active connection: the peer's address and the handler's state.
pub struct Connection {
    /// The remote endpoint, fixed when the connection is accepted.
    pub addr: PeerAddr,
    /// Where the handler stands in its receive-then-echo cycle.
    pub state: HandlerState,
}

impl Connection {
    /// A fresh handler for a just-accepted socket: it starts by receiving.
    pub fn new(addr: PeerAddr) -> (c: Connection)
        ensures
            c.addr == addr,
            c.state is Receiving,
    {
        Connection { addr, state: HandlerState::Receiving }
    }

    /// The transition out of `Receiving`, on the outcome of one read: a frame
    /// moves the handler to `Sending` with that very payload, the peer's
    /// clean close at a frame boundary closes the connection cleanly, and a
    /// transport error closes it as a failure.
    pub fn on_recv(&mut self, ev: Result<Decoded, TransportError>)
        requires
            old(self).state is Receiving,
        ensures
            final(self).addr == old(self).addr,
            (match ev {
                Ok(Decoded::Frame(p)) => final(self).state matches HandlerState::Sending(q) && q@
                    == p@,
                Ok(Decoded::EndOfStream) => final(self).state == HandlerState::Closed(
                    CloseReason::CleanDisconnect,
                ),
                Err(_) => final(self).state == HandlerState::Closed(CloseReason::Failure),
            }),
    {
        match ev {
            Ok(Decoded::Frame(p)) => {
                self.state = HandlerState::Sending(p);
            },
            Ok(Decoded::EndOfStream) => {
                self.state = HandlerState::Closed(CloseReason::CleanDisconnect);
            },
            Err(_) => {
                self.state = HandlerState::Closed(CloseReason::Failure);
            },
        }
    }

    /// The frame a `Sending` handler owes the peer, unchanged from receipt.
    pub fn frame_to_send(&self) -> (p: &Vec<u8>)
        requires
            self.state is Sending,
        ensures
            p@ == self.state->Sending_0@,
    {
        match &self.state {
            HandlerState::Sending(p) => p,
            _ => vstd::pervasive::unreached(),
        }
    }

    /// The transition out of `Sending`, on the outcome of the write: success
    /// resumes receiving, and a transport error closes the connection as a
    /// failure.
    pub fn on_send_done(&mut self, r: Result<(), TransportError>)
        requires
            old(self).state is Sending,
        ensures
            final(self).addr == old(self).addr,
            (match r {
                Ok(_) => final(self).state is Receiving,
                Err(_) => final(self).state == HandlerState::Closed(CloseReason::Failure),
            }),
    {
        match r {
            Ok(_) => {
                self.state = HandlerState::Receiving;
            },
            Err(_) => {
                self.state = HandlerState::Closed(CloseReason::Failure);
            },
        }
    }
}

/// Drives one connection over the recorded bytes of a peer's stream and
/// returns the bytes echoed back together with the closed handler.
///
/// Exactly the complete frames at the front of the stream are echoed, byte
/// for byte and in order.  The handler closes cleanly exactly when the whole
/// stream parses into complete frames — and then the echo is the entire
/// stream — and closes as a failure exactly when the stream ends inside a
/// prefix or a payload.
#[verifier::loop_isolation(false)]
pub fn run_connection(conn: Connection, input: &Vec<u8>) -> (r: (Vec<u8>, Connection))
    requires
        conn.state is Receiving,
    ensures
        r.1.addr == conn.addr,
        r.1.state matches HandlerState::Closed(_),
        r.0@ == input@.take(complete_prefix_len(input@)),
        frames_of(input@) is Some <==> r.1.state == HandlerState::Closed(
            CloseReason::CleanDisconnect,
        ),
        frames_of(input@) is Some ==> r.0@ == input@,
        frames_of(input@) is Some ==> frames_of(r.0@) == frames_of(input@),
{
    let ghost addr0 = conn.addr;
    let total = input.len();
    let mut c = conn;
    let mut out: Vec<u8> = Vec::new();
    let mut pos: usize = 0;
    proof {
        assert(input@.skip(0) =~= input@);
        assert(input@.take(0) =~= out@);
    }
    loop
        invariant
            pos <= total,
            total == input@.len(),
            c.addr == addr0,
            c.state is Receiving,
            out@ == input@.take(pos as int),
            complete_prefix_len(input@) == pos + complete_prefix_len(input@.skip(pos as int)),
            frames_of(input@) is Some <==> frames_of(input@.skip(pos as int)) is Some,
        decreases total - pos,
    {
        let ev = decode_next(input, pos);
        match ev {
            Ok(Decoded::Frame(p)) => {
                let ghost flen = frame_len_at(input@, pos as int);
                proof {
                    lemma_stream_step(input@, pos as int);
                    lemma_be32_bytes_roundtrip(input@.subrange(pos as int, pos as int + 4));
                    assert(be32_value(input@.subrange(pos as int, pos as int + 4)) == p@.len());
                    assert(be32_of(p@.len() as u32) =~= input@.subrange(pos as int, pos as int + 4));
                    assert(spec_encode(p@) =~= input@.subrange(pos as int, pos as int + 4 + flen));
                }
                let step = 4 + p.len();
                c.on_recv(Ok(Decoded::Frame(p)));
                let mut enc = encode(c.frame_to_send());
                out.append(&mut enc);
                c.on_send_done(Ok(()));
                proof {
                    assert(input@.take(pos as int) + input@.subrange(
                        pos as int,
                        pos as int + step,
                    ) =~= input@.take(pos as int + step));
                }
                pos = pos + step;
            },
            Ok(Decoded::EndOfStream) => {
                c.on_recv(Ok(Decoded::EndOfStream));
                proof {
                    assert(input@.skip(pos as int) =~= Seq::<u8>::empty());
                    assert(input@.take(pos as int) =~= input@);
                }
                return (out, c);
            },
            Err(e) => {
                c.on_recv(Err(e));
                proof {
                    lemma_stream_truncated(input@, pos as int);
                }
                return (out, c);
            },
        }
    }
}

} // verus!
