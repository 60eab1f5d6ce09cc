use vstd::prelude::*;

use crate::error::FrameParseError;
use crate::types::{TxId, UnitId};

verus! {

/// Length of an MBAP header on the wire.
pub const HEADER_LEN: usize = 7;

/// Largest PDU that one frame carries.
pub const MAX_PDU_LEN: usize = 253;

/// Big-endian bytes of a 16-bit value.
pub open spec fn be_u16(v: u16) -> Seq<u8> {
    seq![(v / 256) as u8, (v % 256) as u8]
}

/// The 16-bit value of two big-endian bytes.
pub open spec fn u16_of(hi: u8, lo: u8) -> u16 {
    (hi as int * 256 + lo as int) as u16
}

/// The addressing part of an MBAP header.
#[derive(Clone, Copy, Debug, PartialEq, Eq, Structural)]
pub struct FrameHeader {
    pub unit_id: UnitId,
    pub tx_id: TxId,
}

impl FrameHeader {
    pub fn new(unit_id: UnitId, tx_id: TxId) -> (r: FrameHeader)
        ensures
            r.unit_id == unit_id,
            r.tx_id == tx_id,
    {
        FrameHeader { unit_id, tx_id }
    }
}

/// A header and the PDU that follows it.
#[derive(Debug)]
pub struct Frame {
    pub header: FrameHeader,
    pub payload: Vec<u8>,
}

/// The seven header bytes in front of a PDU of `pdu_len` bytes.
pub open spec fn header_bytes(h: FrameHeader, pdu_len: nat) -> Seq<u8> {
    be_u16(h.tx_id.value) + seq![0u8, 0u8] + be_u16((pdu_len + 1) as u16) + seq![h.unit_id.value]
}

/// The whole frame on the wire: header, then PDU.
pub open spec fn adu_bytes(h: FrameHeader, pdu: Seq<u8>) -> Seq<u8> {
    header_bytes(h, pdu.len()) + pdu
}

/// What the first seven bytes of `b` say: a header and the PDU length it
/// announces, or why they are not a header.
pub open spec fn parse_header(b: Seq<u8>) -> Result<(FrameHeader, nat), FrameParseError> {
    let pid = u16_of(b[2], b[3]);
    let len = u16_of(b[4], b[5]);
    if pid != 0 {
        Err(FrameParseError::UnknownProtocolId(pid))
    } else if len == 0 || len > 254 {
        Err(FrameParseError::FrameLengthInvalid(len))
    } else {
        Ok(
            (
                FrameHeader {
                    unit_id: UnitId { value: b[6] },
                    tx_id: TxId { value: u16_of(b[0], b[1]) },
                },
                (len - 1) as nat,
            ),
        )
    }
}

/// The first frame of a byte stream: `Ok(None)` while it is incomplete.
pub open spec fn first_frame(b: Seq<u8>) -> Result<Option<(FrameHeader, Seq<u8>)>, FrameParseError> {
    if b.len() < 7 {
        Ok(None)
    } else {
        match parse_header(b) {
            Err(e) => Err(e),
            Ok((h, n)) => if b.len() < 7 + n {
                Ok(None)
            } else {
                Ok(Some((h, b.subrange(7, 7 + n as int))))
            },
        }
    }
}

/// What remains of a byte stream once its first frame has been taken.
pub open spec fn after_first_frame(b: Seq<u8>) -> Seq<u8> {
    match parse_header(b) {
        Ok((h, n)) => b.subrange(7 + n as int, b.len() as int),
        Err(_) => b,
    }
}

proof fn lemma_be_u16(v: u16)
    ensures
        u16_of(be_u16(v)[0], be_u16(v)[1]) == v,
{
}

proof fn lemma_u16_of(hi: u8, lo: u8)
    ensures
        be_u16(u16_of(hi, lo)) == seq![hi, lo],
{
    let v = u16_of(hi, lo);
    assert(v / 256 == hi && v % 256 == lo);
    assert(be_u16(v) =~= seq![hi, lo]);
}

/// The header in front of a PDU reads back as that header and length, whatever follows.
pub proof fn lemma_header_round_trip(h: FrameHeader, n: nat, rest: Seq<u8>)
    requires
        n <= MAX_PDU_LEN,
    ensures
        parse_header(header_bytes(h, n) + rest) == Ok::<(FrameHeader, nat), FrameParseError>((h, n)),
{
    let b = header_bytes(h, n) + rest;
    lemma_be_u16(h.tx_id.value);
    lemma_be_u16((n + 1) as u16);
    assert(b[0] == be_u16(h.tx_id.value)[0]);
    assert(b[1] == be_u16(h.tx_id.value)[1]);
    assert(b[2] == 0 && b[3] == 0);
    assert(b[4] == be_u16((n + 1) as u16)[0]);
    assert(b[5] == be_u16((n + 1) as u16)[1]);
    assert(b[6] == h.unit_id.value);
    assert(u16_of(b[2], b[3]) == 0);
}

/// Seven bytes that parse as a header are exactly that header's bytes.
proof fn lemma_header_bytes_of_parse(b: Seq<u8>)
    requires
        b.len() >= 7,
        parse_header(b) is Ok,
    ensures
        header_bytes(parse_header(b)->Ok_0.0, parse_header(b)->Ok_0.1) == b.subrange(0, 7),
{
    let (h, n) = parse_header(b)->Ok_0;
    lemma_u16_of(b[0], b[1]);
    lemma_u16_of(b[4], b[5]);
    assert(((n + 1) as u16) == u16_of(b[4], b[5]));
    assert(u16_of(b[2], b[3]) == 0);
    assert(b[2] == 0 && b[3] == 0);
    assert(header_bytes(h, n) =~= b.subrange(0, 7));
}

/// Frames `pdu` behind a header; `None` when the PDU is too long for one frame.
pub fn format_frame(header: FrameHeader, pdu: &[u8]) -> (r: Option<Vec<u8>>)
    ensures
        pdu@.len() <= MAX_PDU_LEN <==> r is Some,
        r matches Some(bytes) ==> bytes@ == adu_bytes(header, pdu@),
{
    if pdu.len() > MAX_PDU_LEN {
        return None;
    }
    let len: u16 = (pdu.len() + 1) as u16;
    let mut out: Vec<u8> = Vec::with_capacity(HEADER_LEN + pdu.len());
    out.push((header.tx_id.value / 256) as u8);
    out.push((header.tx_id.value % 256) as u8);
    out.push(0);
    out.push(0);
    out.push((len / 256) as u8);
    out.push((len % 256) as u8);
    out.push(header.unit_id.value);
    assert(out@ =~= header_bytes(header, pdu@.len()));
    let mut i: usize = 0;
    while i < pdu.len()
        invariant
            i <= pdu@.len(),
            out@ == header_bytes(header, pdu@.len()) + pdu@.subrange(0, i as int),
        decreases pdu@.len() - i,
    {
        out.push(pdu[i]);
        i = i + 1;
        assert(out@ =~= header_bytes(header, pdu@.len()) + pdu@.subrange(0, i as int));
    }
    assert(pdu@.subrange(0, pdu@.len() as int) =~= pdu@);
    Some(out)
}

/// Framing then parsing gives back the header and the PDU, and leaves
/// whatever followed the frame in the stream.
pub proof fn lemma_frame_round_trip(h: FrameHeader, pdu: Seq<u8>, rest: Seq<u8>)
    requires
        pdu.len() <= MAX_PDU_LEN,
    ensures
        first_frame(adu_bytes(h, pdu) + rest) == Ok::<Option<(FrameHeader, Seq<u8>)>, FrameParseError>(Some((h, pdu))),
        after_first_frame(adu_bytes(h, pdu) + rest) == rest,
{
    let b = adu_bytes(h, pdu) + rest;
    assert(b =~= header_bytes(h, pdu.len()) + (pdu + rest));
    lemma_header_round_trip(h, pdu.len(), pdu + rest);
    assert(b.subrange(7, 7 + pdu.len() as int) =~= pdu);
    assert(b.subrange(7 + pdu.len() as int, b.len() as int) =~= rest);
}

/// Where the framer stands in the stream.
#[derive(Clone, Copy, Debug, PartialEq, Eq, Structural)]
pub enum ParseState {
    /// The next bytes are a header.
    WaitHeader,
    /// A header has been read; `len` bytes of PDU follow.
    WaitBody { header: FrameHeader, len: usize },
}

/// Cuts a byte stream, handed over in pieces, into frames.
pub struct FramedReader {
    state: ParseState,
    buffer: Vec<u8>,
}

impl FramedReader {
    pub closed spec fn wf(&self) -> bool {
        match self.state {
            ParseState::WaitHeader => true,
            ParseState::WaitBody { len, .. } => len <= MAX_PDU_LEN,
        }
    }

    /// The bytes received and not yet handed out in a frame, including those
    /// of a header already read.
    pub closed spec fn pending(&self) -> Seq<u8> {
        match self.state {
            ParseState::WaitHeader => self.buffer@,
            ParseState::WaitBody { header, len } => header_bytes(header, len as nat) + self.buffer@,
        }
    }

    pub fn new() -> (r: FramedReader)
        ensures
            r.wf(),
            r.pending() == Seq::<u8>::empty(),
    {
        FramedReader { state: ParseState::WaitHeader, buffer: Vec::new() }
    }

    /// Appends bytes read from the transport.
    pub fn push(&mut self, bytes: &[u8])
        requires
            old(self).wf(),
        ensures
            final(self).wf(),
            final(self).pending() == old(self).pending() + bytes@,
    {
        let ghost start = self.buffer@;
        let mut i: usize = 0;
        while i < bytes.len()
            invariant
                i <= bytes@.len(),
                self.state == old(self).state,
                self.buffer@ == start + bytes@.subrange(0, i as int),
            decreases bytes@.len() - i,
        {
            self.buffer.push(bytes[i]);
            i = i + 1;
            assert(self.buffer@ =~= start + bytes@.subrange(0, i as int));
        }
        assert(bytes@.subrange(0, bytes@.len() as int) =~= bytes@);
        assert(self.pending() =~= old(self).pending() + bytes@);
    }

    /// Takes the next complete frame out of the stream: `Ok(None)` while it
    /// has not all arrived, an error where the stream cannot be framed.
    pub fn next_frame(&mut self) -> (r: Result<Option<Frame>, FrameParseError>)
        requires
            old(self).wf(),
        ensures
            final(self).wf(),
            match r {
                Ok(None) => first_frame(old(self).pending()) == Ok::<
                    Option<(FrameHeader, Seq<u8>)>,
                    FrameParseError,
                >(None) && final(self).pending() == old(self).pending(),
                Ok(Some(f)) => first_frame(old(self).pending()) == Ok::<
                    Option<(FrameHeader, Seq<u8>)>,
                    FrameParseError,
                >(Some((f.header, f.payload@))) && final(self).pending() == after_first_frame(
                    old(self).pending(),
                ),
                Err(e) => first_frame(old(self).pending()) == Err::<
                    Option<(FrameHeader, Seq<u8>)>,
                    FrameParseError,
                >(e),
            },
    {
        let ghost p = self.pending();
        if let ParseState::WaitHeader = self.state {
            if self.buffer.len() < HEADER_LEN {
                return Ok(None);
            }
            let pid: u16 = (self.buffer[2] as u16) * 256 + self.buffer[3] as u16;
            let len: u16 = (self.buffer[4] as u16) * 256 + self.buffer[5] as u16;
            if pid != 0 {
                return Err(FrameParseError::UnknownProtocolId(pid));
            }
            if len == 0 || len > 254 {
                return Err(FrameParseError::FrameLengthInvalid(len));
            }
            let header = FrameHeader {
                unit_id: UnitId { value: self.buffer[6] },
                tx_id: TxId { value: (self.buffer[0] as u16) * 256 + self.buffer[1] as u16 },
            };
            proof {
                lemma_header_bytes_of_parse(p);
            }
            let rest = self.buffer.split_off(HEADER_LEN);
            self.buffer = rest;
            self.state = ParseState::WaitBody { header, len: (len - 1) as usize };
            assert(self.pending() =~= p);
        }
        match self.state {
            ParseState::WaitHeader => {
                // unreachable: the header was read just above
                Ok(None)
            },
            ParseState::WaitBody { header, len } => {
                proof {
                    lemma_header_round_trip(header, len as nat, self.buffer@);
                }
                if self.buffer.len() < len {
                    return Ok(None);
                }
                let mut payload = self.buffer.split_off(0);
                let rest = payload.split_off(len);
                self.buffer = rest;
                self.state = ParseState::WaitHeader;
                assert(p.subrange(7, 7 + len as int) =~= payload@);
                assert(p.subrange(7 + len as int, p.len() as int) =~= self.buffer@);
                Ok(Some(Frame { header, payload }))
            },
        }
    }
}

} // verus!
