use vstd::prelude::*;

use crate::error::{Exception, FrameParseError, ProtocolError};
use crate::frame::{adu_bytes, after_first_frame, first_frame, format_frame, FrameHeader, FramedReader, MAX_PDU_LEN};
use crate::pdu::{parse_request_spec, AddressRange, DetailsView, RequestDetails};
use crate::response::{
    bits_reply, exception_pdu, format_bits_reply, format_exception, format_registers_reply,
    format_write_multiple_reply, registers_reply, write_multiple_reply,
};

verus! {

/// What a handler answers to a read of one bit.
#[derive(Clone, Copy, Debug, PartialEq, Eq, Structural)]
pub struct BitRead {
    /// Whether the value exists; if not, `exception` says why.
    pub success: bool,
    pub value: bool,
    pub exception: Option<Exception>,
}

/// What a handler answers to a read of one register.
#[derive(Clone, Copy, Debug, PartialEq, Eq, Structural)]
pub struct RegisterRead {
    /// Whether the value exists; if not, `exception` says why.
    pub success: bool,
    pub value: u16,
    pub exception: Option<Exception>,
}

/// The operations that a device behind a server implements. A handler may
/// be called from several sessions, so it serialises its own state.
pub trait RequestHandler {
    fn read_coil(&self, index: u16) -> BitRead;

    fn read_discrete_input(&self, index: u16) -> BitRead;

    fn read_holding_register(&self, index: u16) -> RegisterRead;

    fn read_input_register(&self, index: u16) -> RegisterRead;

    /// `true` if the coil exists and was written.
    fn write_single_coil(&self, value: bool, index: u16) -> bool;

    /// `true` if the register exists and was written.
    fn write_single_register(&self, value: u16, index: u16) -> bool;

    /// `true` if the coils from `start` exist and were written.
    fn write_multiple_coils(&self, start: u16, values: &[bool]) -> bool;

    /// `true` if the registers from `start` exist and were written.
    fn write_multiple_registers(&self, start: u16, values: &[u16]) -> bool;

    /// Called once, when the server lets go of the handler.
    fn destroy(&self);
}

/// The exception that a failed read reports: the handler's, or
/// `IllegalDataAddress` when it gave none.
pub open spec fn failure_exception(e: Option<Exception>) -> Exception {
    match e {
        Some(x) => x,
        None => Exception::IllegalDataAddress,
    }
}

pub fn failure_exception_exec(e: Option<Exception>) -> (r: Exception)
    ensures
        r == failure_exception(e),
{
    match e {
        Some(x) => x,
        None => Exception::IllegalDataAddress,
    }
}

/// Number of unit ids.
pub const UNIT_IDS: usize = 256;

/// The handlers of a server, one at most for each unit id.
pub struct DeviceMap<H> {
    handlers: Vec<Option<H>>,
}

impl<H> DeviceMap<H> {
    /// The handler bound to each unit id, indexed by unit id.
    pub closed spec fn entries(&self) -> Seq<Option<H>> {
        self.handlers@
    }

    pub closed spec fn wf(&self) -> bool {
        self.handlers@.len() == UNIT_IDS
    }

    fn empty_slots() -> (r: Vec<Option<H>>)
        ensures
            r@ == Seq::new(UNIT_IDS as nat, |i: int| None::<H>),
    {
        let mut v: Vec<Option<H>> = Vec::new();
        let mut i: usize = 0;
        while i < UNIT_IDS
            invariant
                i <= UNIT_IDS,
                v@ == Seq::new(i as nat, |k: int| None::<H>),
            decreases UNIT_IDS - i,
        {
            v.push(None);
            i = i + 1;
            assert(v@ =~= Seq::new(i as nat, |k: int| None::<H>));
        }
        v
    }

    /// A map with no endpoint.
    pub fn new() -> (r: DeviceMap<H>)
        ensures
            r.wf(),
            r.entries().len() == UNIT_IDS,
            r.entries() == Seq::new(UNIT_IDS as nat, |i: int| None::<H>),
    {
        DeviceMap { handlers: Self::empty_slots() }
    }

    /// Binds `handler` to `unit_id`; `false`, and no change, when the unit id
    /// is already bound.
    pub fn add_endpoint(&mut self, unit_id: u8, handler: H) -> (r: bool)
        requires
            old(self).wf(),
        ensures
            final(self).wf(),
            final(self).entries().len() == UNIT_IDS,
            r == (old(self).entries()[unit_id as int] is None),
            r ==> final(self).entries() == old(self).entries().update(unit_id as int, Some(handler)),
            !r ==> final(self).entries() == old(self).entries(),
    {
        let i = unit_id as usize;
        if self.handlers[i].is_some() {
            return false;
        }
        self.handlers[i] = Some(handler);
        true
    }

    /// The handler bound to `unit_id`.
    pub fn get(&self, unit_id: u8) -> (r: Option<&H>)
        requires
            self.wf(),
        ensures
            self.entries().len() == UNIT_IDS,
            r matches Some(h) ==> self.entries()[unit_id as int] == Some(*h),
            r is None <==> self.entries()[unit_id as int] is None,
    {
        self.handlers[unit_id as usize].as_ref()
    }

    /// Moves the endpoints out into a new map, leaving this one empty, so
    /// that one set of endpoints serves one server.
    pub fn take(&mut self) -> (r: DeviceMap<H>)
        requires
            old(self).wf(),
        ensures
            r.wf(),
            r.entries() == old(self).entries(),
            r.entries().len() == UNIT_IDS,
            final(self).wf(),
            final(self).entries().len() == UNIT_IDS,
            final(self).entries() == Seq::new(UNIT_IDS as nat, |i: int| None::<H>),
    {
        let handlers = self.handlers.split_off(0);
        self.handlers = Self::empty_slots();
        assert(handlers@ =~= old(self).handlers@);
        DeviceMap { handlers }
    }
}

/// The function code that a reply to `s` carries.
pub open spec fn request_function(s: Seq<u8>) -> u8 {
    if s.len() > 0 {
        s[0]
    } else {
        0
    }
}

/// The exception that answers a request PDU that cannot be decoded.
pub open spec fn decode_failure_exception(e: ProtocolError) -> Exception {
    match e {
        ProtocolError::UnknownFunction(_) => Exception::IllegalFunction,
        _ => Exception::IllegalDataValue,
    }
}

/// The exception of the first failed answer among bit reads, if one failed.
pub open spec fn first_bit_failure(reads: Seq<BitRead>) -> Option<Exception>
    decreases reads.len(),
{
    if reads.len() == 0 {
        None
    } else if !reads[0].success {
        Some(failure_exception(reads[0].exception))
    } else {
        first_bit_failure(reads.drop_first())
    }
}

/// The exception of the first failed answer among register reads, if one failed.
pub open spec fn first_register_failure(reads: Seq<RegisterRead>) -> Option<Exception>
    decreases reads.len(),
{
    if reads.len() == 0 {
        None
    } else if !reads[0].success {
        Some(failure_exception(reads[0].exception))
    } else {
        first_register_failure(reads.drop_first())
    }
}

/// The reply to a bit read, given the handler's answers in address order:
/// the exception of the first failed answer, or else all the values.
pub open spec fn bit_reads_reply(fc: u8, reads: Seq<BitRead>) -> Seq<u8> {
    match first_bit_failure(reads) {
        Some(e) => exception_pdu(fc, e),
        None => bits_reply(fc, reads.map_values(|r: BitRead| r.value)),
    }
}

/// The reply to a register read, given the handler's answers in address
/// order: the exception of the first failed answer, or else all the values.
pub open spec fn register_reads_reply(fc: u8, reads: Seq<RegisterRead>) -> Seq<u8> {
    match first_register_failure(reads) {
        Some(e) => exception_pdu(fc, e),
        None => registers_reply(fc, reads.map_values(|r: RegisterRead| r.value)),
    }
}

/// The reply to a write: `accepted` when the handler wrote the values,
/// `IllegalDataAddress` when it refused.
pub open spec fn write_outcome(fc: u8, accepted: Seq<u8>, ok: bool) -> Seq<u8> {
    if ok {
        accepted
    } else {
        exception_pdu(fc, Exception::IllegalDataAddress)
    }
}

/// The address of the `i`-th value of a read of `r`.
pub open spec fn read_address(r: AddressRange, i: int) -> u16 {
    (r.start + i) as u16
}

/// The replies that a request may get from a handler: the reply built from
/// some answers of the handler, one for each address of a read, or from its
/// verdict on a write.
pub open spec fn reply_allowed(d: DetailsView, pdu: Seq<u8>, reply: Seq<u8>) -> bool {
    let fc = pdu[0];
    match d {
        DetailsView::ReadCoils(r) | DetailsView::ReadDiscreteInputs(r) => exists|reads: Seq<BitRead>|
            reads.len() == r.count && reply == #[trigger] bit_reads_reply(fc, reads),
        DetailsView::ReadHoldingRegisters(r) | DetailsView::ReadInputRegisters(r) => exists|
            reads: Seq<RegisterRead>,
        | reads.len() == r.count && reply == #[trigger] register_reads_reply(fc, reads),
        DetailsView::WriteSingleCoil(_) | DetailsView::WriteSingleRegister(_) => exists|ok: bool|
            reply == #[trigger] write_outcome(fc, pdu, ok),
        DetailsView::WriteMultipleCoils { start, values } => {
            let accepted = write_multiple_reply(fc, start, values.len() as u16);
            reply == write_outcome(fc, accepted, true) || reply == write_outcome(fc, accepted, false)
        },
        DetailsView::WriteMultipleRegisters { start, values } => {
            let accepted = write_multiple_reply(fc, start, values.len() as u16);
            reply == write_outcome(fc, accepted, true) || reply == write_outcome(fc, accepted, false)
        },
    }
}

fn copy_bytes(s: &[u8]) -> (r: Vec<u8>)
    ensures
        r@ == s@,
{
    let mut out: Vec<u8> = Vec::new();
    let mut i: usize = 0;
    while i < s.len()
        invariant
            i <= s@.len(),
            out@ == s@.subrange(0, i as int),
        decreases s@.len() - i,
    {
        out.push(s[i]);
        i = i + 1;
        assert(out@ =~= s@.subrange(0, i as int));
    }
    assert(s@.subrange(0, i as int) =~= s@);
    out
}

/// The reply to a bit read from the handler's answers, in address order.
pub fn bits_reply_from(fc: u8, reads: &[BitRead]) -> (r: Vec<u8>)
    requires
        reads@.len() <= 2000,
    ensures
        r@ == bit_reads_reply(fc, reads@),
        r@.len() <= MAX_PDU_LEN,
{
    let n = reads.len();
    let mut values: Vec<bool> = Vec::new();
    let mut i: usize = 0;
    assert(reads@.subrange(0, n as int) =~= reads@);
    while i < n
        invariant
            n == reads@.len() <= 2000,
            i <= n,
            values@ == reads@.subrange(0, i as int).map_values(|r: BitRead| r.value),
            first_bit_failure(reads@) == first_bit_failure(reads@.subrange(i as int, n as int)),
        decreases n - i,
    {
        let rd = reads[i];
        if !rd.success {
            return format_exception(fc, failure_exception_exec(rd.exception));
        }
        values.push(rd.value);
        assert(reads@.subrange(i as int, n as int).drop_first() =~= reads@.subrange(i + 1, n as int));
        i = i + 1;
        assert(values@ =~= reads@.subrange(0, i as int).map_values(|r: BitRead| r.value));
    }
    assert(reads@.subrange(n as int, n as int).len() == 0);
    let reply = format_bits_reply(fc, values.as_slice());
    assert(crate::pdu::packed_len(values@.len() as int) <= 250);
    reply
}

/// The reply to a register read from the handler's answers, in address order.
pub fn registers_reply_from(fc: u8, reads: &[RegisterRead]) -> (r: Vec<u8>)
    requires
        reads@.len() <= 125,
    ensures
        r@ == register_reads_reply(fc, reads@),
        r@.len() <= MAX_PDU_LEN,
{
    let n = reads.len();
    let mut values: Vec<u16> = Vec::new();
    let mut i: usize = 0;
    assert(reads@.subrange(0, n as int) =~= reads@);
    while i < n
        invariant
            n == reads@.len() <= 125,
            i <= n,
            values@ == reads@.subrange(0, i as int).map_values(|r: RegisterRead| r.value),
            first_register_failure(reads@) == first_register_failure(reads@.subrange(i as int, n as int)),
        decreases n - i,
    {
        let rd = reads[i];
        if !rd.success {
            return format_exception(fc, failure_exception_exec(rd.exception));
        }
        values.push(rd.value);
        assert(reads@.subrange(i as int, n as int).drop_first() =~= reads@.subrange(i + 1, n as int));
        i = i + 1;
        assert(values@ =~= reads@.subrange(0, i as int).map_values(|r: RegisterRead| r.value));
    }
    assert(reads@.subrange(n as int, n as int).len() == 0);
    format_registers_reply(fc, values.as_slice())
}

/// The reply to a write: `accepted` when the handler wrote the values
/// (`ok`), `IllegalDataAddress` otherwise.
pub fn write_reply(fc: u8, accepted: Vec<u8>, ok: bool) -> (r: Vec<u8>)
    ensures
        r@ == write_outcome(fc, accepted@, ok),
{
    if ok {
        accepted
    } else {
        format_exception(fc, Exception::IllegalDataAddress)
    }
}

/// The addresses that a read of `r` asks the handler for, in order.
pub fn read_addresses(r: AddressRange) -> (a: Vec<u16>)
    requires
        r.start + r.count <= 65536,
    ensures
        a@ == Seq::new(r.count as nat, |i: int| read_address(r, i)),
{
    let mut out: Vec<u16> = Vec::new();
    let mut i: u16 = 0;
    while i < r.count
        invariant
            i <= r.count,
            r.start + r.count <= 65536,
            out@ == Seq::new(i as nat, |k: int| read_address(r, k)),
        decreases r.count - i,
    {
        out.push(r.start + i);
        i = i + 1;
        assert(out@ =~= Seq::new(i as nat, |k: int| read_address(r, k)));
    }
    out
}

/// Asks the handler for the bit at each address of `r`.
fn collect_bits<H: RequestHandler>(h: &H, r: AddressRange, coils: bool) -> (reads: Vec<BitRead>)
    requires
        r.start + r.count <= 65536,
    ensures
        reads@.len() == r.count,
{
    let addresses = read_addresses(r);
    let mut reads: Vec<BitRead> = Vec::new();
    let mut i: usize = 0;
    while i < addresses.len()
        invariant
            addresses@.len() == r.count,
            i <= addresses@.len(),
            reads@.len() == i,
        decreases addresses@.len() - i,
    {
        let index = addresses[i];
        let b = if coils { h.read_coil(index) } else { h.read_discrete_input(index) };
        reads.push(b);
        i = i + 1;
    }
    reads
}

/// Asks the handler for the register at each address of `r`.
fn collect_registers<H: RequestHandler>(h: &H, r: AddressRange, holding: bool) -> (reads: Vec<RegisterRead>)
    requires
        r.start + r.count <= 65536,
    ensures
        reads@.len() == r.count,
{
    let addresses = read_addresses(r);
    let mut reads: Vec<RegisterRead> = Vec::new();
    let mut i: usize = 0;
    while i < addresses.len()
        invariant
            addresses@.len() == r.count,
            i <= addresses@.len(),
            reads@.len() == i,
        decreases addresses@.len() - i,
    {
        let index = addresses[i];
        let v = if holding { h.read_holding_register(index) } else { h.read_input_register(index) };
        reads.push(v);
        i = i + 1;
    }
    reads
}

/// The reply PDU to the request PDU `pdu` sent to a unit whose handler is
/// `handler` (`None` when the unit id is not bound). A read asks the handler
/// for every address of its range and answers through `bits_reply_from` or
/// `registers_reply_from`; a write answers through `write_reply`.
pub fn dispatch<H: RequestHandler>(handler: Option<&H>, pdu: &[u8]) -> (reply: Vec<u8>)
    ensures
        handler is None ==> reply@ == exception_pdu(
            request_function(pdu@),
            Exception::GatewayTargetFailedToRespond,
        ),
        handler is Some ==> match parse_request_spec(pdu@) {
            Err(e) => reply@ == exception_pdu(request_function(pdu@), decode_failure_exception(e)),
            Ok(d) => reply_allowed(d, pdu@, reply@),
        },
        reply@.len() <= MAX_PDU_LEN,
{
    let fc: u8 = if pdu.len() > 0 { pdu[0] } else { 0 };
    let h = match handler {
        None => {
            return format_exception(fc, Exception::GatewayTargetFailedToRespond);
        },
        Some(h) => h,
    };
    let details = match RequestDetails::parse(pdu) {
        Err(e) => {
            let ex = match e {
                ProtocolError::UnknownFunction(_) => Exception::IllegalFunction,
                _ => Exception::IllegalDataValue,
            };
            return format_exception(fc, ex);
        },
        Ok(d) => d,
    };
    let ghost d = details@;
    assert(fc == pdu@[0]);
    let reply = match details {
        RequestDetails::ReadCoils(r) | RequestDetails::ReadDiscreteInputs(r) => {
            let reads = collect_bits(h, r, fc == crate::pdu::READ_COILS);
            let reply = bits_reply_from(fc, reads.as_slice());
            assert(reads@.len() == r.count && reply@ == bit_reads_reply(fc, reads@));
            assert(reply_allowed(d, pdu@, reply@));
            reply
        },
        RequestDetails::ReadHoldingRegisters(r) | RequestDetails::ReadInputRegisters(r) => {
            let reads = collect_registers(h, r, fc == crate::pdu::READ_HOLDING_REGISTERS);
            let reply = registers_reply_from(fc, reads.as_slice());
            assert(reads@.len() == r.count && reply@ == register_reads_reply(fc, reads@));
            assert(reply_allowed(d, pdu@, reply@));
            reply
        },
        RequestDetails::WriteSingleCoil(v) => {
            let ok = h.write_single_coil(v.value, v.index);
            let reply = write_reply(fc, copy_bytes(pdu), ok);
            assert(reply@ == write_outcome(fc, pdu@, ok));
            assert(reply_allowed(d, pdu@, reply@));
            reply
        },
        RequestDetails::WriteSingleRegister(v) => {
            let ok = h.write_single_register(v.value, v.index);
            let reply = write_reply(fc, copy_bytes(pdu), ok);
            assert(reply@ == write_outcome(fc, pdu@, ok));
            assert(reply_allowed(d, pdu@, reply@));
            reply
        },
        RequestDetails::WriteMultipleCoils { start, values } => {
            assert(d == DetailsView::WriteMultipleCoils { start, values: values@ });
            let ok = h.write_multiple_coils(start, values.as_slice());
            let reply = write_reply(fc, format_write_multiple_reply(fc, start, values.len() as u16), ok);
            assert(reply@ == write_outcome(fc, write_multiple_reply(fc, start, values@.len() as u16), ok));
            assert(reply_allowed(d, pdu@, reply@));
            reply
        },
        RequestDetails::WriteMultipleRegisters { start, values } => {
            assert(d == DetailsView::WriteMultipleRegisters { start, values: values@ });
            let ok = h.write_multiple_registers(start, values.as_slice());
            let reply = write_reply(fc, format_write_multiple_reply(fc, start, values.len() as u16), ok);
            assert(reply@ == write_outcome(fc, write_multiple_reply(fc, start, values@.len() as u16), ok));
            assert(reply_allowed(d, pdu@, reply@));
            reply
        },
    };
    reply
}

/// The replies that dispatch may give to `pdu` for a unit that is bound
/// (`bound`) or not.
pub open spec fn dispatch_allowed(bound: bool, pdu: Seq<u8>, reply: Seq<u8>) -> bool {
    if !bound {
        reply == exception_pdu(request_function(pdu), Exception::GatewayTargetFailedToRespond)
    } else {
        match parse_request_spec(pdu) {
            Err(e) => reply == exception_pdu(request_function(pdu), decode_failure_exception(e)),
            Ok(d) => reply_allowed(d, pdu, reply),
        }
    }
}

/// One connection of a server: it frames the requests that arrive and
/// answers each through the handler bound to its unit id.
pub struct ServerSession<H> {
    map: DeviceMap<H>,
    reader: FramedReader,
}

impl<H: RequestHandler> ServerSession<H> {
    pub closed spec fn wf(&self) -> bool {
        self.map.wf() && self.reader.wf()
    }

    pub closed spec fn endpoints(&self) -> Seq<Option<H>> {
        self.map.entries()
    }

    /// Bytes received and not yet answered.
    pub closed spec fn received(&self) -> Seq<u8> {
        self.reader.pending()
    }

    /// A session serving the endpoints of `map`, which is left empty.
    pub fn new(map: &mut DeviceMap<H>) -> (r: ServerSession<H>)
        requires
            old(map).wf(),
        ensures
            r.wf(),
            r.endpoints() == old(map).entries(),
            r.endpoints().len() == UNIT_IDS,
            r.received() == Seq::<u8>::empty(),
            final(map).wf(),
            final(map).entries().len() == UNIT_IDS,
            final(map).entries() == Seq::new(UNIT_IDS as nat, |i: int| None::<H>),
    {
        ServerSession { map: map.take(), reader: FramedReader::new() }
    }

    /// Appends bytes read from the connection.
    pub fn push(&mut self, bytes: &[u8])
        requires
            old(self).wf(),
        ensures
            final(self).wf(),
            final(self).endpoints() == old(self).endpoints(),
            final(self).received() == old(self).received() + bytes@,
    {
        self.reader.push(bytes);
    }

    /// Answers the next complete request frame: the reply frame to write,
    /// `Ok(None)` while none is complete, or the framing error on which the
    /// connection closes.
    pub fn next_reply(&mut self) -> (r: Result<Option<Vec<u8>>, FrameParseError>)
        requires
            old(self).wf(),
        ensures
            final(self).wf(),
            final(self).endpoints() == old(self).endpoints(),
            match first_frame(old(self).received()) {
                Err(e) => r == Err::<Option<Vec<u8>>, FrameParseError>(e),
                Ok(None) => r matches Ok(None) && final(self).received() == old(self).received(),
                Ok(Some((h, pdu))) => r matches Ok(Some(bytes)) && final(self).received()
                    == after_first_frame(old(self).received()) && exists|reply: Seq<u8>|
                    dispatch_allowed(
                        old(self).endpoints()[h.unit_id.value as int] is Some,
                        pdu,
                        reply,
                    ) && bytes@ == #[trigger] adu_bytes(h, reply),
            },
    {
        match self.reader.next_frame() {
            Err(e) => Err(e),
            Ok(None) => Ok(None),
            Ok(Some(frame)) => {
                let handler = self.map.get(frame.header.unit_id.value);
                let reply = dispatch(handler, frame.payload.as_slice());
                let header = FrameHeader::new(frame.header.unit_id, frame.header.tx_id);
                let bytes = format_frame(header, reply.as_slice()).unwrap();
                assert(dispatch_allowed(
                    old(self).endpoints()[frame.header.unit_id.value as int] is Some,
                    frame.payload@,
                    reply@,
                ));
                assert(bytes@ == adu_bytes(frame.header, reply@));
                assert(exists|rep: Seq<u8>|
                    dispatch_allowed(
                        old(self).endpoints()[frame.header.unit_id.value as int] is Some,
                        frame.payload@,
                        rep,
                    ) && bytes@ == #[trigger] adu_bytes(frame.header, rep));
                let ghost ff = first_frame(old(self).received());
                assert(ff matches Ok(Some((h, p))) && h == frame.header && p == frame.payload@);
                Ok(Some(bytes))
            },
        }
    }

    /// Ends the session, calling each handler's release hook once.
    pub fn close(self)
        requires
            self.wf(),
    {
        let mut i: usize = 0;
        while i < UNIT_IDS
            invariant
                self.map.wf(),
            decreases UNIT_IDS - i,
        {
            if let Some(h) = self.map.get(i as u8) {
                h.destroy();
            }
            i = i + 1;
        }
    }
}

} // verus!
