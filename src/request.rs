use vstd::prelude::*;

use crate::error::{Error, ProtocolError};
use crate::pdu::{valid_details, DetailsView, RequestDetails};
use crate::response::{parse_response, parse_response_spec, Response, ResponseView};
use crate::types::UnitId;

verus! {

/// A job handed to a client session: the device, how long to wait for the
/// reply, the operation, and a reply slot that is resolved once.
#[derive(Debug)]
pub struct Request {
    id: UnitId,
    timeout_ms: u64,
    details: RequestDetails,
    reply: Option<Result<Response, Error>>,
}

/// A reply slot's content as a value.
pub open spec fn outcome_view(o: Option<Result<Response, Error>>) -> Option<Result<ResponseView, Error>> {
    match o {
        None => None,
        Some(Ok(r)) => Some(Ok(r@)),
        Some(Err(e)) => Some(Err(e)),
    }
}

impl Request {
    pub closed spec fn unit(&self) -> UnitId {
        self.id
    }

    pub closed spec fn timeout(&self) -> u64 {
        self.timeout_ms
    }

    pub closed spec fn operation(&self) -> DetailsView {
        self.details@
    }

    /// The reply slot: `None` while pending.
    pub closed spec fn slot(&self) -> Option<Result<ResponseView, Error>> {
        outcome_view(self.reply)
    }

    pub closed spec fn wf(&self) -> bool {
        valid_details(self.details@)
    }

    #[verifier::type_invariant]
    spec fn inv(&self) -> bool {
        valid_details(self.details@)
    }

    /// A pending request; `BadRange` when the operation's quantity or
    /// addresses are out of bounds.
    pub fn new(id: UnitId, timeout_ms: u64, details: RequestDetails) -> (r: Result<Request, ProtocolError>)
        ensures
            r is Ok <==> valid_details(details@),
            r matches Ok(q) ==> q.wf() && q.unit() == id && q.timeout() == timeout_ms
                && q.operation() == details@ && q.slot() is None,
            r matches Err(e) ==> e == ProtocolError::BadRange,
    {
        if details.is_valid() {
            Ok(Request { id, timeout_ms, details, reply: None })
        } else {
            Err(ProtocolError::BadRange)
        }
    }

    pub fn unit_id(&self) -> (r: UnitId)
        ensures
            r == self.unit(),
    {
        self.id
    }

    pub fn timeout_ms(&self) -> (r: u64)
        ensures
            r == self.timeout(),
    {
        self.timeout_ms
    }

    /// The operation; every request holds a valid one.
    pub fn details(&self) -> (r: &RequestDetails)
        ensures
            r@ == self.operation(),
            valid_details(r@),
            self.wf(),
    {
        proof {
            use_type_invariant(self);
        }
        &self.details
    }

    pub fn is_resolved(&self) -> (r: bool)
        ensures
            r == self.slot() is Some,
    {
        self.reply.is_some()
    }

    /// Resolves the slot with `err` if it is still pending; otherwise does nothing.
    pub fn fail(&mut self, err: Error)
        ensures
            final(self).wf() == old(self).wf(),
            final(self).unit() == old(self).unit(),
            final(self).timeout() == old(self).timeout(),
            final(self).operation() == old(self).operation(),
            old(self).slot() is None ==> final(self).slot() == Some(Err::<ResponseView, Error>(err)),
            old(self).slot() is Some ==> final(self).slot() == old(self).slot(),
    {
        proof {
            use_type_invariant(&*self);
        }
        if self.reply.is_none() {
            self.reply = Some(Err(err));
        }
    }

    /// Resolves a pending slot with what the reply PDU `pdu` decodes to;
    /// a resolved slot is left as it is.
    pub fn handle_response(&mut self, pdu: &[u8])
        requires
            old(self).wf(),
        ensures
            final(self).wf(),
            final(self).unit() == old(self).unit(),
            final(self).timeout() == old(self).timeout(),
            final(self).operation() == old(self).operation(),
            old(self).slot() is None ==> final(self).slot() == Some(parse_response_spec(old(self).operation(), pdu@)),
            old(self).slot() is Some ==> final(self).slot() == old(self).slot(),
    {
        proof {
            use_type_invariant(&*self);
        }
        if self.reply.is_none() {
            let r = parse_response(&self.details, pdu);
            self.reply = Some(r);
        }
    }

    /// Gives up the request, handing out what its slot holds.
    pub fn into_reply(self) -> (r: Option<Result<Response, Error>>)
        ensures
            outcome_view(r) == self.slot(),
    {
        self.reply
    }
}

} // verus!
