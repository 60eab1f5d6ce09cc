use vstd::prelude::*;

use crate::error::{Error, FrameParseError, SessionError};
use crate::frame::{adu_bytes, after_first_frame, first_frame, format_frame, FrameHeader, FramedReader};
use crate::pdu::{
    lemma_request_pdu_len, lemma_request_round_trip, parse_request_spec, request_pdu, valid_details,
    DetailsView,
};
use crate::error::ProtocolError;
use crate::request::Request;
use crate::response::{parse_response_spec, ResponseView};
use crate::types::{next_tx, TxId};

verus! {

/// What the embedder reports to a client session.
#[derive(Debug)]
pub enum ClientEvent {
    /// A request came out of the queue.
    Request(Request),
    /// The queue is closed and empty.
    QueueClosed,
    /// The bytes of the last `Write` action went out.
    Written,
    /// Writing to the transport failed.
    WriteFailed,
    /// Bytes arrived from the transport.
    Data(Vec<u8>),
    /// Reading from the transport failed.
    ReadFailed,
    /// The deadline of the request in flight passed.
    DeadlineElapsed,
}

/// What a client session asks the embedder to do next.
#[derive(Debug)]
pub enum ClientAction {
    /// Take the next request from the queue.
    Receive,
    /// Write these bytes; the reply is due within `timeout_ms` of the write.
    Write { bytes: Vec<u8>, timeout_ms: u64 },
    /// Wait for bytes from the transport or for the deadline.
    Read,
    /// The session is over.
    Stop(SessionError),
}

/// The result of one event: a request whose slot was just resolved, to be
/// delivered to its producer, and the next action.
#[derive(Debug)]
pub struct ClientStep {
    pub done: Option<Request>,
    pub next: ClientAction,
}

/// What the embedder reports to a session that is failing the requests
/// still queued after its transport died.
#[derive(Debug)]
pub enum DrainEvent {
    /// A request came out of the queue.
    Request(Request),
    /// The queue is closed and empty.
    QueueClosed,
    /// The drain period is over.
    DeadlineElapsed,
}

/// How a drain period ends, if it does.
#[derive(Clone, Copy, Debug, PartialEq, Eq, Structural)]
pub enum DrainOutcome {
    /// Keep receiving.
    Continue,
    /// The period is over; the queue is still open.
    Elapsed,
    /// The queue was closed.
    Closed,
}

/// The result of one drain event: the request just failed, and whether the
/// drain goes on.
#[derive(Debug)]
pub struct DrainStep {
    pub done: Option<Request>,
    pub outcome: DrainOutcome,
}

/// Where a client session stands.
#[derive(Clone, Copy, Debug, PartialEq, Eq, Structural)]
pub enum Phase {
    /// No request in flight; waiting on the queue.
    Idle,
    /// A request's bytes are being written.
    Writing,
    /// Waiting for the reply to the request in flight.
    Reading,
    /// The session has ended.
    Stopped,
}

/// The events that a session in `phase` is waiting for.
pub open spec fn accepts(phase: Phase, ev: ClientEvent) -> bool {
    match phase {
        Phase::Idle => ev is Request || ev is QueueClosed,
        Phase::Writing => ev is Written || ev is WriteFailed,
        Phase::Reading => ev is Data || ev is ReadFailed || ev is DeadlineElapsed,
        Phase::Stopped => false,
    }
}

/// How a search of the received bytes for the reply ended.
pub enum Scan {
    /// A frame with the awaited transaction id, and its PDU.
    Matched(Seq<u8>),
    /// More bytes are needed.
    Incomplete,
    /// The bytes cannot be framed.
    Invalid(FrameParseError),
}

/// Taking a frame shortens the stream.
pub proof fn lemma_after_first_frame_shorter(b: Seq<u8>)
    requires
        first_frame(b) matches Ok(Some(_)),
    ensures
        after_first_frame(b).len() < b.len(),
{
}

/// Frames are taken from `b` until one carries transaction id `tx`, the bytes
/// run out, or they cannot be framed; frames with another id are dropped.
/// Gives the outcome and the bytes left over.
pub open spec fn scan_frames(b: Seq<u8>, tx: u16) -> (Scan, Seq<u8>)
    decreases b.len(),
{
    match first_frame(b) {
        Err(e) => (Scan::Invalid(e), b),
        Ok(None) => (Scan::Incomplete, b),
        Ok(Some((h, p))) => if h.tx_id.value == tx {
            (Scan::Matched(p), after_first_frame(b))
        } else if after_first_frame(b).len() < b.len() {
            scan_frames(after_first_frame(b), tx)
        } else {
            (Scan::Incomplete, b)
        },
    }
}

/// A frame whose transaction id is not the awaited one never resolves the
/// request in flight: the search goes on past it as if it had not come.
pub proof fn lemma_stale_frame_skipped(h: FrameHeader, pdu: Seq<u8>, rest: Seq<u8>, tx: u16)
    requires
        pdu.len() <= crate::frame::MAX_PDU_LEN,
        h.tx_id.value != tx,
    ensures
        scan_frames(adu_bytes(h, pdu) + rest, tx) == scan_frames(rest, tx),
{
    crate::frame::lemma_frame_round_trip(h, pdu, rest);
    lemma_after_first_frame_shorter(adu_bytes(h, pdu) + rest);
}

/// The frame that a session writes for a valid request parses back to its
/// header, and its PDU decodes to the same operation.
pub proof fn lemma_written_frame_round_trip(h: FrameHeader, d: DetailsView)
    requires
        valid_details(d),
    ensures
        first_frame(adu_bytes(h, request_pdu(d))) == Ok::<Option<(FrameHeader, Seq<u8>)>, FrameParseError>(
            Some((h, request_pdu(d))),
        ),
        parse_request_spec(request_pdu(d)) == Ok::<DetailsView, ProtocolError>(d),
{
    lemma_request_pdu_len(d);
    crate::frame::lemma_frame_round_trip(h, request_pdu(d), Seq::<u8>::empty());
    assert(adu_bytes(h, request_pdu(d)) + Seq::<u8>::empty() =~= adu_bytes(h, request_pdu(d)));
    lemma_request_round_trip(d);
}

/// `q` is `prev` with its slot resolved to `outcome`.
pub open spec fn resolved_as(q: Request, prev: Request, outcome: Result<ResponseView, Error>) -> bool {
    &&& q.wf() == prev.wf()
    &&& q.unit() == prev.unit()
    &&& q.timeout() == prev.timeout()
    &&& q.operation() == prev.operation()
    &&& q.slot() == Some(outcome)
}

/// One client session: it sends the queued requests one at a time, each with
/// the next transaction id, and matches each reply to its request.
pub struct ClientLoop {
    reader: FramedReader,
    tx_id: TxId,
    current: Option<Request>,
    current_tx: u16,
    phase: Phase,
}

impl ClientLoop {
    pub closed spec fn phase(&self) -> Phase {
        self.phase
    }

    /// The transaction id that the next request will carry.
    pub closed spec fn next_tx_id(&self) -> u16 {
        self.tx_id.value
    }

    /// The transaction id of the request in flight.
    pub closed spec fn awaited_tx_id(&self) -> u16 {
        self.current_tx
    }

    /// The request in flight.
    pub closed spec fn in_flight(&self) -> Option<Request> {
        self.current
    }

    /// Bytes received and not yet consumed.
    pub closed spec fn received(&self) -> Seq<u8> {
        self.reader.pending()
    }

    pub closed spec fn wf(&self) -> bool {
        &&& self.reader.wf()
        &&& (self.phase == Phase::Writing || self.phase == Phase::Reading) <==> self.current is Some
        &&& self.current matches Some(q) ==> q.wf() && q.slot() is None
    }

    /// A session with no request in flight, whose first transaction id is 0.
    pub fn new() -> (r: ClientLoop)
        ensures
            r.wf(),
            r.phase() == Phase::Idle,
            r.next_tx_id() == 0,
            r.received() == Seq::<u8>::empty(),
    {
        ClientLoop {
            reader: FramedReader::new(),
            tx_id: TxId::zero(),
            current: None,
            current_tx: 0,
            phase: Phase::Idle,
        }
    }

    pub fn current_phase(&self) -> (r: Phase)
        ensures
            r == self.phase(),
    {
        self.phase
    }

    fn finish(&mut self, err: Error, next: ClientAction) -> (r: ClientStep)
        requires
            old(self).wf(),
            old(self).current is Some,
        ensures
            final(self).current is None,
            final(self).reader == old(self).reader,
            final(self).tx_id == old(self).tx_id,
            final(self).current_tx == old(self).current_tx,
            final(self).phase == old(self).phase,
            r.next == next,
            r.done matches Some(q) && resolved_as(q, old(self).current->Some_0, Err(err)),
    {
        let mut q = self.current.take().unwrap();
        q.fail(err);
        ClientStep { done: Some(q), next }
    }

    /// One event of a drain period: each request that comes out of the queue
    /// is failed at once with `NoConnection`, so that no producer waits on a
    /// dead session.
    pub fn drain(ev: DrainEvent) -> (r: DrainStep)
        ensures
            match ev {
                DrainEvent::Request(q) => r.outcome == DrainOutcome::Continue && (r.done matches Some(
                    d,
                ) && d.unit() == q.unit() && d.timeout() == q.timeout() && d.operation()
                    == q.operation() && (q.slot() is None ==> d.slot() == Some(
                    Err::<ResponseView, Error>(Error::NoConnection),
                )) && (q.slot() is Some ==> d.slot() == q.slot())),
                DrainEvent::QueueClosed => r.outcome == DrainOutcome::Closed && r.done is None,
                DrainEvent::DeadlineElapsed => r.outcome == DrainOutcome::Elapsed && r.done is None,
            },
    {
        match ev {
            DrainEvent::Request(mut q) => {
                q.fail(Error::NoConnection);
                DrainStep { done: Some(q), outcome: DrainOutcome::Continue }
            },
            DrainEvent::QueueClosed => DrainStep { done: None, outcome: DrainOutcome::Closed },
            DrainEvent::DeadlineElapsed => DrainStep { done: None, outcome: DrainOutcome::Elapsed },
        }
    }

    /// Advances the session by one event from the embedder.
    pub fn handle(&mut self, ev: ClientEvent) -> (r: ClientStep)
        requires
            old(self).wf(),
            accepts(old(self).phase(), ev),
        ensures
            final(self).wf(),
            match ev {
                ClientEvent::Request(q) => if q.slot() is Some {
                    // a request resolved before it came is handed back unsent
                    r.done == Some(q) && r.next is Receive && *final(self) == *old(self)
                } else {
                    &&& r.done is None
                    &&& final(self).phase() == Phase::Writing
                    &&& final(self).in_flight() == Some(q)
                    &&& final(self).awaited_tx_id() == old(self).next_tx_id()
                    &&& final(self).next_tx_id() == next_tx(old(self).next_tx_id())
                    &&& final(self).received() == old(self).received()
                    &&& r.next matches ClientAction::Write { bytes, timeout_ms }
                        && timeout_ms == q.timeout() && bytes@ == adu_bytes(
                        FrameHeader { unit_id: q.unit(), tx_id: TxId { value: old(self).next_tx_id() } },
                        request_pdu(q.operation()),
                    )
                },
                ClientEvent::QueueClosed => {
                    &&& r.done is None
                    &&& r.next == ClientAction::Stop(SessionError::Shutdown)
                    &&& final(self).phase() == Phase::Stopped
                },
                ClientEvent::Written => {
                    &&& r.done is None
                    &&& r.next is Read
                    &&& final(self).phase() == Phase::Reading
                    &&& final(self).in_flight() == old(self).in_flight()
                    &&& final(self).awaited_tx_id() == old(self).awaited_tx_id()
                    &&& final(self).next_tx_id() == old(self).next_tx_id()
                    &&& final(self).received() == old(self).received()
                },
                ClientEvent::WriteFailed | ClientEvent::ReadFailed => {
                    &&& r.done matches Some(q) && resolved_as(q, old(self).in_flight()->Some_0, Err(Error::Io))
                    &&& r.next == ClientAction::Stop(SessionError::IoError)
                    &&& final(self).phase() == Phase::Stopped
                },
                ClientEvent::DeadlineElapsed => {
                    &&& r.done matches Some(q) && resolved_as(q, old(self).in_flight()->Some_0, Err(Error::ResponseTimeout))
                    &&& r.next is Receive
                    &&& final(self).phase() == Phase::Idle
                    &&& final(self).next_tx_id() == old(self).next_tx_id()
                    &&& final(self).received() == old(self).received()
                },
                ClientEvent::Data(bytes) => {
                    let (scan, rest) = scan_frames(old(self).received() + bytes@, old(self).awaited_tx_id());
                    let prev = old(self).in_flight()->Some_0;
                    match scan {
                        Scan::Matched(pdu) => {
                            &&& r.done matches Some(q) && resolved_as(q, prev, parse_response_spec(prev.operation(), pdu))
                            &&& r.next is Receive
                            &&& final(self).phase() == Phase::Idle
                            &&& final(self).next_tx_id() == old(self).next_tx_id()
                            &&& final(self).received() == rest
                        },
                        Scan::Incomplete => {
                            &&& r.done is None
                            &&& r.next is Read
                            &&& final(self).phase() == Phase::Reading
                            &&& final(self).in_flight() == old(self).in_flight()
                            &&& final(self).awaited_tx_id() == old(self).awaited_tx_id()
                            &&& final(self).next_tx_id() == old(self).next_tx_id()
                            &&& final(self).received() == rest
                        },
                        Scan::Invalid(e) => {
                            &&& r.done matches Some(q) && resolved_as(q, prev, Err(Error::BadFrame(e)))
                            &&& r.next == ClientAction::Stop(SessionError::BadFrame)
                            &&& final(self).phase() == Phase::Stopped
                        },
                    }
                },
            },
    {
        match ev {
            ClientEvent::Request(q) => {
                if q.is_resolved() {
                    return ClientStep { done: Some(q), next: ClientAction::Receive };
                }
                let tx = self.tx_id.next();
                let pdu = q.details().encode();
                proof {
                    lemma_request_pdu_len(q.operation());
                }
                let bytes = format_frame(FrameHeader::new(q.unit_id(), tx), pdu.as_slice()).unwrap();
                let timeout_ms = q.timeout_ms();
                self.current = Some(q);
                self.current_tx = tx.value;
                self.phase = Phase::Writing;
                ClientStep { done: None, next: ClientAction::Write { bytes, timeout_ms } }
            },
            ClientEvent::QueueClosed => {
                self.phase = Phase::Stopped;
                ClientStep { done: None, next: ClientAction::Stop(SessionError::Shutdown) }
            },
            ClientEvent::Written => {
                self.phase = Phase::Reading;
                ClientStep { done: None, next: ClientAction::Read }
            },
            ClientEvent::WriteFailed | ClientEvent::ReadFailed => {
                let r = self.finish(Error::Io, ClientAction::Stop(SessionError::IoError));
                self.phase = Phase::Stopped;
                r
            },
            ClientEvent::DeadlineElapsed => {
                let r = self.finish(Error::ResponseTimeout, ClientAction::Receive);
                self.phase = Phase::Idle;
                r
            },
            ClientEvent::Data(bytes) => {
                self.reader.push(bytes.as_slice());
                let ghost start = self.reader.pending();
                loop
                    invariant
                        ev matches ClientEvent::Data(b) && start == old(self).reader.pending() + b@,
                        old(self).wf(),
                        accepts(old(self).phase(), ev),
                        self.reader.wf(),
                        self.current == old(self).current,
                        self.current is Some,
                        self.current->Some_0.wf(),
                        self.current->Some_0.slot() is None,
                        self.current_tx == old(self).current_tx,
                        self.tx_id == old(self).tx_id,
                        self.phase == Phase::Reading,
                        scan_frames(self.reader.pending(), self.current_tx) == scan_frames(start, self.current_tx),
                    decreases self.reader.pending().len(),
                {
                    let ghost before = self.reader.pending();
                    match self.reader.next_frame() {
                        Ok(None) => {
                            return ClientStep { done: None, next: ClientAction::Read };
                        },
                        Ok(Some(frame)) => {
                            proof {
                                lemma_after_first_frame_shorter(before);
                            }
                            if frame.header.tx_id.value == self.current_tx {
                                let mut q = self.current.take().unwrap();
                                q.handle_response(frame.payload.as_slice());
                                self.phase = Phase::Idle;
                                return ClientStep { done: Some(q), next: ClientAction::Receive };
                            }
                        },
                        Err(e) => {
                            let r = self.finish(Error::BadFrame(e), ClientAction::Stop(SessionError::BadFrame));
                            self.phase = Phase::Stopped;
                            return r;
                        },
                    }
                }
            },
        }
    }
}

} // verus!
