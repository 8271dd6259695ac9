//! The client side of a session: the correlation counter and the decisions
//! taken while waiting for a response. Reading and writing the link is left to
//! the caller, who hands the bytes it read to these functions.

use vstd::prelude::*;

use crate::protocol::{
    encode_frame, frame_bytes, frame_len, frame_payload, lemma_frame_round_trip, parse_frame,
    parse_response_frame, FrameView, ProtocolError, ResponsePacket,
};
use crate::responses::{lemma_response_round_trip, Response, ResponseView};
use crate::traits::Serializable;
use crate::wire::{be32, lemma_be32_value, put_u32, u32_at};

verus! {

/// The counter value that follows `c`; after the largest value it starts over at 0.
pub open spec fn next_query_id(c: u32) -> u32 {
    if c == u32::MAX {
        0
    } else {
        (c + 1) as u32
    }
}

/// The correlation id `q` is four bytes that read, big-endian, as `expected`.
pub open spec fn correlates(q: Option<Seq<u8>>, expected: u32) -> bool {
    match q {
        Some(s) => s.len() == 4 && u32_at(s, 0) == expected,
        None => false,
    }
}

/// What the response to the request with correlation id `expected` is, given
/// the frame `b` read while waiting for it: `None` when `b` is no response
/// frame at all, so that waiting goes on.
pub open spec fn awaited(expected: u32, b: Seq<u8>) -> Option<Result<ResponseView, ProtocolError>> {
    match parse_response_frame(b) {
        Err(_) => None,
        Ok((f, r)) => Some(
            if correlates(f.query_id, expected) {
                Ok(r)
            } else {
                Err(ProtocolError::IncorrectQueryId)
            },
        ),
    }
}

/// A response framed with the correlation id `echoed` is the response to the
/// request with correlation id `sent` exactly when the two ids are equal; any
/// other id gives `IncorrectQueryId`.
pub proof fn lemma_correlation_matching(r: ResponseView, sent: u32, echoed: u32)
    requires
        r.wf(),
        frame_len(4, r.payload().len()) <= 0xFFFF,
    ensures
        awaited(sent, frame_bytes(r.tag(), be32(echoed), r.payload())) == Some(
            if sent == echoed {
                Ok::<ResponseView, ProtocolError>(r)
            } else {
                Err(ProtocolError::IncorrectQueryId)
            },
        ),
{
    let b = frame_bytes(r.tag(), be32(echoed), r.payload());
    lemma_frame_round_trip(r.tag(), be32(echoed), r.payload());
    lemma_response_round_trip(r);
    lemma_be32_value(echoed);
    let f = parse_frame(b)->Ok_0;
    assert(frame_payload(f) =~= r.payload());
    assert(u32_at(be32(echoed), 0) == echoed);
}

/// The correlation counter of a client. Each request takes the current value
/// as its correlation id and advances the counter, whether a response is
/// awaited or not.
pub struct ClientSession {
    query_id: u32,
}

impl ClientSession {
    /// The current value of the counter.
    pub closed spec fn counter(&self) -> u32 {
        self.query_id
    }

    pub fn new() -> (r: ClientSession)
        ensures
            r.counter() == 0,
    {
        ClientSession { query_id: 0 }
    }

    /// The correlation id that the next request takes.
    pub fn query_id(&self) -> (r: u32)
        ensures
            r == self.counter(),
    {
        self.query_id
    }

    /// Frames a request with the current counter value as a 4-byte big-endian
    /// correlation id, then advances the counter. Returns the correlation id
    /// used and the frame to write.
    pub fn prepare_request<T: Serializable>(&mut self, cmd: &T) -> (r: (u32, Vec<u8>))
        requires
            frame_len(4, cmd.spec_data().len()) <= 0xFFFF,
        ensures
            r.0 == old(self).counter(),
            r.1@ == frame_bytes(cmd.spec_id(), be32(r.0), cmd.spec_data()),
            final(self).counter() == next_query_id(old(self).counter()),
    {
        let id = self.query_id;
        let mut qid: Vec<u8> = Vec::new();
        put_u32(&mut qid, id);
        let payload = cmd.data_bytes().unwrap();
        let frame = encode_frame(cmd.id().unwrap(), qid.as_slice(), payload.as_slice());
        self.query_id = if id == u32::MAX { 0 } else { id + 1 };
        (id, frame)
    }
}

/// Reads the frame `bytes` as the response to the request with correlation id
/// `expected`: the response when its correlation id is four bytes that read,
/// big-endian, as `expected`; `IncorrectQueryId` for any other response
/// frame; the framing or decoding error when `bytes` is no response frame.
pub fn match_response(expected: u32, bytes: &[u8]) -> (r: Result<Response, ProtocolError>)
    ensures
        match awaited(expected, bytes@) {
            Some(Ok(v)) => r matches Ok(x) && x@ == v,
            Some(Err(e)) => r == Err::<Response, ProtocolError>(e),
            None => r matches Err(e) && parse_response_frame(bytes@) == Err::<
                (FrameView, ResponseView),
                ProtocolError,
            >(e),
        },
{
    let packet: ResponsePacket = ResponsePacket::from_bytes(bytes)?;
    match packet.query_id {
        Some(id) => {
            if id.len() != 4 {
                return Err(ProtocolError::IncorrectQueryId);
            }
            let received = crate::wire::get_u32(id.as_slice(), 0);
            if received == expected {
                Ok(packet.data)
            } else {
                Err(ProtocolError::IncorrectQueryId)
            }
        },
        None => Err(ProtocolError::IncorrectQueryId),
    }
}

/// What to do after one read of the notification stream while waiting for a
/// response.
pub enum AwaitStep {
    /// The awaited response arrived.
    Deliver(Response),
    /// Waiting ends with this error.
    Fail(ProtocolError),
    /// Nothing usable was read: read again.
    Retry,
}

/// Decides on the read number `attempt` (counted from 1) while waiting for the
/// response with correlation id `expected`. `read` is what the read gave, if
/// anything. Garbage on the link is tolerated: a read that holds no response
/// frame means reading again, unless `max_attempts` reads were made, in
/// which case waiting ends with `Empty`. Without `max_attempts` waiting never
/// gives up.
pub fn await_step(
    expected: u32,
    read: Option<&[u8]>,
    attempt: u32,
    max_attempts: Option<u32>,
) -> (r: AwaitStep)
    ensures
        match read {
            Some(b) => match awaited(expected, b@) {
                Some(Ok(v)) => r matches AwaitStep::Deliver(x) && x@ == v,
                Some(Err(e)) => r == AwaitStep::Fail(e),
                None => r == give_up_or_retry(attempt, max_attempts),
            },
            None => r == give_up_or_retry(attempt, max_attempts),
        },
{
    match read {
        Some(b) => match match_response(expected, b) {
            Ok(resp) => AwaitStep::Deliver(resp),
            Err(e) => {
                if let ProtocolError::IncorrectQueryId = e {
                    AwaitStep::Fail(e)
                } else {
                    retry_or_give_up(attempt, max_attempts)
                }
            },
        },
        None => retry_or_give_up(attempt, max_attempts),
    }
}

/// `Retry`, or `Fail(Empty)` once `max_attempts` reads were made.
pub open spec fn give_up_or_retry(attempt: u32, max_attempts: Option<u32>) -> AwaitStep {
    match max_attempts {
        Some(m) => if attempt >= m {
            AwaitStep::Fail(ProtocolError::Empty)
        } else {
            AwaitStep::Retry
        },
        None => AwaitStep::Retry,
    }
}

fn retry_or_give_up(attempt: u32, max_attempts: Option<u32>) -> (r: AwaitStep)
    ensures
        r == give_up_or_retry(attempt, max_attempts),
{
    match max_attempts {
        Some(m) => if attempt >= m {
            AwaitStep::Fail(ProtocolError::Empty)
        } else {
            AwaitStep::Retry
        },
        None => AwaitStep::Retry,
    }
}

} // verus!
