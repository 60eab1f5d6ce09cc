use vstd::prelude::*;

use crate::error::{exception_code, exception_of, Error, Exception, ProtocolError};
use crate::frame::{be_u16, u16_of};
use crate::pdu::{
    function_of, pack_bits, packed_len, push_packed_bits, push_registers, push_u16, read_packed_bits,
    read_registers, read_u16, register_bytes, request_pdu, unpack_bits, unpack_registers,
    valid_details, AddressRange, DetailsView, Indexed, RequestDetails, lemma_bits_round_trip,
    lemma_registers_round_trip, range_ok, MAX_READ_BITS, MAX_READ_REGISTERS,
};

verus! {

/// What a successful reply delivers.
#[derive(Debug, PartialEq)]
pub enum Response {
    Bits(Vec<Indexed<bool>>),
    Registers(Vec<Indexed<u16>>),
    SingleCoil(Indexed<bool>),
    SingleRegister(Indexed<u16>),
    MultipleWrite(AddressRange),
}

/// A reply's values as sequences.
pub enum ResponseView {
    Bits(Seq<Indexed<bool>>),
    Registers(Seq<Indexed<u16>>),
    SingleCoil(Indexed<bool>),
    SingleRegister(Indexed<u16>),
    MultipleWrite(AddressRange),
}

impl View for Response {
    type V = ResponseView;

    open spec fn view(&self) -> ResponseView {
        match self {
            Response::Bits(v) => ResponseView::Bits(v@),
            Response::Registers(v) => ResponseView::Registers(v@),
            Response::SingleCoil(v) => ResponseView::SingleCoil(*v),
            Response::SingleRegister(v) => ResponseView::SingleRegister(*v),
            Response::MultipleWrite(r) => ResponseView::MultipleWrite(*r),
        }
    }
}

/// Values numbered with consecutive addresses from `start`.
pub open spec fn indexed_from<T>(start: u16, values: Seq<T>) -> Seq<Indexed<T>> {
    Seq::new(values.len(), |i: int| Indexed { index: (start + i) as u16, value: values[i] })
}

/// The function code of an exception reply to function `fc`.
pub open spec fn exception_function(fc: u8) -> u8 {
    if fc < 128 {
        (fc + 128) as u8
    } else {
        fc
    }
}

/// The PDU of an exception reply.
pub open spec fn exception_pdu(fc: u8, e: Exception) -> Seq<u8> {
    seq![exception_function(fc), exception_code(e)]
}

/// The PDU of a reply to a bit read.
pub open spec fn bits_reply(fc: u8, values: Seq<bool>) -> Seq<u8> {
    seq![fc, packed_len(values.len() as int) as u8] + pack_bits(values)
}

/// The PDU of a reply to a register read.
pub open spec fn registers_reply(fc: u8, values: Seq<u16>) -> Seq<u8> {
    seq![fc, (2 * values.len()) as u8] + register_bytes(values)
}

/// The PDU of a reply to a multiple write.
pub open spec fn write_multiple_reply(fc: u8, start: u16, count: u16) -> Seq<u8> {
    seq![fc] + be_u16(start) + be_u16(count)
}

/// A reply to a read of `r`, bits when `bits` holds, registers otherwise.
pub open spec fn parse_read_reply(s: Seq<u8>, r: AddressRange, bits: bool) -> Result<ResponseView, Error> {
    let bc = if bits { packed_len(r.count as int) } else { 2 * r.count };
    if s.len() < 2 {
        Err(Error::ProtocolError(ProtocolError::BadLength))
    } else if s[1] != bc {
        Err(Error::ProtocolError(ProtocolError::BadByteCount))
    } else if s.len() != 2 + bc {
        Err(Error::ProtocolError(ProtocolError::BadLength))
    } else if bits {
        Ok(ResponseView::Bits(indexed_from(r.start, unpack_bits(s.subrange(2, s.len() as int), r.count as nat))))
    } else {
        Ok(ResponseView::Registers(indexed_from(r.start, unpack_registers(s.subrange(2, s.len() as int), r.count as nat))))
    }
}

/// A reply to a multiple write from `start` of `count` values.
pub open spec fn parse_write_multiple_reply(s: Seq<u8>, start: u16, count: int) -> Result<ResponseView, Error> {
    if s.len() != 5 {
        Err(Error::ProtocolError(ProtocolError::BadLength))
    } else if u16_of(s[1], s[2]) != start || u16_of(s[3], s[4]) != count {
        Err(Error::ProtocolError(ProtocolError::EchoMismatch))
    } else {
        Ok(ResponseView::MultipleWrite(AddressRange { start, count: count as u16 }))
    }
}

/// What a reply PDU `s` to the operation `d` delivers, or the error it resolves the request with.
pub open spec fn parse_response_spec(d: DetailsView, s: Seq<u8>) -> Result<ResponseView, Error> {
    let fc = function_of(d);
    if s.len() == 0 {
        Err(Error::ProtocolError(ProtocolError::BadLength))
    } else if s[0] == fc + 128 {
        if s.len() != 2 {
            Err(Error::ProtocolError(ProtocolError::BadLength))
        } else {
            Err(Error::ExceptionResponse(exception_of(s[1])))
        }
    } else if s[0] != fc {
        Err(Error::ProtocolError(ProtocolError::UnexpectedFunction(s[0])))
    } else {
        match d {
            DetailsView::ReadCoils(r) => parse_read_reply(s, r, true),
            DetailsView::ReadDiscreteInputs(r) => parse_read_reply(s, r, true),
            DetailsView::ReadHoldingRegisters(r) => parse_read_reply(s, r, false),
            DetailsView::ReadInputRegisters(r) => parse_read_reply(s, r, false),
            DetailsView::WriteSingleCoil(v) => if s.len() != 5 {
                Err(Error::ProtocolError(ProtocolError::BadLength))
            } else if s != request_pdu(d) {
                Err(Error::ProtocolError(ProtocolError::EchoMismatch))
            } else {
                Ok(ResponseView::SingleCoil(v))
            },
            DetailsView::WriteSingleRegister(v) => if s.len() != 5 {
                Err(Error::ProtocolError(ProtocolError::BadLength))
            } else if s != request_pdu(d) {
                Err(Error::ProtocolError(ProtocolError::EchoMismatch))
            } else {
                Ok(ResponseView::SingleRegister(v))
            },
            DetailsView::WriteMultipleCoils { start, values } => parse_write_multiple_reply(
                s,
                start,
                values.len() as int,
            ),
            DetailsView::WriteMultipleRegisters { start, values } => parse_write_multiple_reply(
                s,
                start,
                values.len() as int,
            ),
        }
    }
}

/// A server's reply to a read of coils decodes, at the client that sent the
/// read, to the values the server put in it, each with its address.
pub proof fn lemma_bits_reply_round_trip(r: AddressRange, values: Seq<bool>)
    requires
        range_ok(r.start, r.count as int, MAX_READ_BITS),
        values.len() == r.count,
    ensures
        parse_response_spec(DetailsView::ReadCoils(r), bits_reply(1, values)) == Ok::<ResponseView, Error>(
            ResponseView::Bits(indexed_from(r.start, values)),
        ),
{
    let s = bits_reply(1, values);
    assert(packed_len(values.len() as int) <= 250);
    assert(s.subrange(2, s.len() as int) =~= pack_bits(values));
    lemma_bits_round_trip(values);
}

/// A server's reply to a read of holding registers decodes, at the client
/// that sent the read, to the values the server put in it.
pub proof fn lemma_registers_reply_round_trip(r: AddressRange, values: Seq<u16>)
    requires
        range_ok(r.start, r.count as int, MAX_READ_REGISTERS),
        values.len() == r.count,
    ensures
        parse_response_spec(DetailsView::ReadHoldingRegisters(r), registers_reply(3, values)) == Ok::<
            ResponseView,
            Error,
        >(ResponseView::Registers(indexed_from(r.start, values))),
{
    let s = registers_reply(3, values);
    assert(s.subrange(2, s.len() as int) =~= register_bytes(values));
    lemma_registers_round_trip(values);
}

/// Whether two byte sequences are equal.
pub fn bytes_equal(a: &[u8], b: &[u8]) -> (r: bool)
    ensures
        r == (a@ == b@),
{
    if a.len() != b.len() {
        return false;
    }
    let mut i: usize = 0;
    while i < a.len()
        invariant
            a@.len() == b@.len(),
            i <= a@.len(),
            a@.subrange(0, i as int) == b@.subrange(0, i as int),
        decreases a@.len() - i,
    {
        if a[i] != b[i] {
            assert(a@.subrange(0, i as int + 1)[i as int] != b@.subrange(0, i as int + 1)[i as int]);
            return false;
        }
        i = i + 1;
        assert(a@.subrange(0, i as int) =~= b@.subrange(0, i as int));
    }
    assert(a@ =~= a@.subrange(0, i as int));
    assert(b@ =~= b@.subrange(0, i as int));
    true
}

/// Numbers `values` with consecutive addresses from `start`.
pub fn index_values<T: Copy>(start: u16, values: &Vec<T>) -> (r: Vec<Indexed<T>>)
    requires
        start + values@.len() <= 65536,
    ensures
        r@ == indexed_from(start, values@),
{
    let mut out: Vec<Indexed<T>> = Vec::new();
    let mut i: usize = 0;
    while i < values.len()
        invariant
            start + values@.len() <= 65536,
            i <= values@.len(),
            out@ == indexed_from(start, values@).subrange(0, i as int),
        decreases values@.len() - i,
    {
        out.push(Indexed { index: (start as usize + i) as u16, value: values[i] });
        i = i + 1;
        assert(out@ =~= indexed_from(start, values@).subrange(0, i as int));
    }
    assert(indexed_from(start, values@).subrange(0, i as int) =~= indexed_from(start, values@));
    out
}

fn parse_read_reply_exec(s: &[u8], r: AddressRange, bits: bool) -> (res: Result<Response, Error>)
    requires
        s@.len() >= 1,
        r.start + r.count <= 65536,
    ensures
        match (res, parse_read_reply(s@, r, bits)) {
            (Ok(v), Ok(m)) => v@ == m,
            (Err(e), Err(m)) => e == m,
            _ => false,
        },
{
    let bc: usize = if bits { (r.count as usize + 7) / 8 } else { 2 * r.count as usize };
    if s.len() < 2 {
        return Err(Error::ProtocolError(ProtocolError::BadLength));
    }
    if s[1] as usize != bc {
        return Err(Error::ProtocolError(ProtocolError::BadByteCount));
    }
    if s.len() != 2 + bc {
        return Err(Error::ProtocolError(ProtocolError::BadLength));
    }
    if bits {
        let values = read_packed_bits(s, 2, r.count as usize);
        Ok(Response::Bits(index_values(r.start, &values)))
    } else {
        let values = read_registers(s, 2, r.count as usize);
        Ok(Response::Registers(index_values(r.start, &values)))
    }
}

fn parse_write_multiple_reply_exec(s: &[u8], start: u16, count: usize) -> (res: Result<Response, Error>)
    requires
        count <= 0xFFFF,
    ensures
        match (res, parse_write_multiple_reply(s@, start, count as int)) {
            (Ok(v), Ok(m)) => v@ == m,
            (Err(e), Err(m)) => e == m,
            _ => false,
        },
{
    if s.len() != 5 {
        return Err(Error::ProtocolError(ProtocolError::BadLength));
    }
    if read_u16(s, 1) != start || read_u16(s, 3) as usize != count {
        return Err(Error::ProtocolError(ProtocolError::EchoMismatch));
    }
    Ok(Response::MultipleWrite(AddressRange { start, count: count as u16 }))
}

/// Decodes the reply PDU `s` to the operation `details`.
pub fn parse_response(details: &RequestDetails, s: &[u8]) -> (r: Result<Response, Error>)
    requires
        valid_details(details@),
    ensures
        match (r, parse_response_spec(details@, s@)) {
            (Ok(v), Ok(m)) => v@ == m,
            (Err(e), Err(m)) => e == m,
            _ => false,
        },
{
    let fc = details.function();
    if s.len() == 0 {
        return Err(Error::ProtocolError(ProtocolError::BadLength));
    }
    if s[0] == fc + 128 {
        if s.len() != 2 {
            return Err(Error::ProtocolError(ProtocolError::BadLength));
        }
        return Err(Error::ExceptionResponse(Exception::from_u8(s[1])));
    }
    if s[0] != fc {
        return Err(Error::ProtocolError(ProtocolError::UnexpectedFunction(s[0])));
    }
    match details {
        RequestDetails::ReadCoils(r) | RequestDetails::ReadDiscreteInputs(r) => parse_read_reply_exec(s, *r, true),
        RequestDetails::ReadHoldingRegisters(r) | RequestDetails::ReadInputRegisters(r) => parse_read_reply_exec(s, *r, false),
        RequestDetails::WriteSingleCoil(v) => {
            if s.len() != 5 {
                return Err(Error::ProtocolError(ProtocolError::BadLength));
            }
            let expected = details.encode();
            if !bytes_equal(s, expected.as_slice()) {
                return Err(Error::ProtocolError(ProtocolError::EchoMismatch));
            }
            Ok(Response::SingleCoil(*v))
        },
        RequestDetails::WriteSingleRegister(v) => {
            if s.len() != 5 {
                return Err(Error::ProtocolError(ProtocolError::BadLength));
            }
            let expected = details.encode();
            if !bytes_equal(s, expected.as_slice()) {
                return Err(Error::ProtocolError(ProtocolError::EchoMismatch));
            }
            Ok(Response::SingleRegister(*v))
        },
        RequestDetails::WriteMultipleCoils { start, values } => parse_write_multiple_reply_exec(s, *start, values.len()),
        RequestDetails::WriteMultipleRegisters { start, values } => parse_write_multiple_reply_exec(s, *start, values.len()),
    }
}

/// The function code of an exception reply to function `fc`: its high bit set.
pub fn exception_function_exec(fc: u8) -> (r: u8)
    ensures
        r == exception_function(fc),
{
    if fc < 128 {
        fc + 128
    } else {
        fc
    }
}

/// The PDU of an exception reply to function `fc`.
pub fn format_exception(fc: u8, e: Exception) -> (r: Vec<u8>)
    ensures
        r@ == exception_pdu(fc, e),
{
    let mut out: Vec<u8> = Vec::new();
    out.push(exception_function_exec(fc));
    out.push(e.code());
    assert(out@ =~= exception_pdu(fc, e));
    out
}

/// The PDU of a reply to a read of bits.
pub fn format_bits_reply(fc: u8, values: &[bool]) -> (r: Vec<u8>)
    requires
        values@.len() <= 2000,
    ensures
        r@ == bits_reply(fc, values@),
{
    let mut out: Vec<u8> = Vec::new();
    out.push(fc);
    out.push(((values.len() + 7) / 8) as u8);
    push_packed_bits(&mut out, values);
    assert(out@ =~= bits_reply(fc, values@));
    out
}

/// The PDU of a reply to a read of registers.
pub fn format_registers_reply(fc: u8, values: &[u16]) -> (r: Vec<u8>)
    requires
        values@.len() <= 125,
    ensures
        r@ == registers_reply(fc, values@),
{
    let mut out: Vec<u8> = Vec::new();
    out.push(fc);
    out.push((2 * values.len()) as u8);
    push_registers(&mut out, values);
    assert(out@ =~= registers_reply(fc, values@));
    out
}

/// The PDU of a reply to a multiple write.
pub fn format_write_multiple_reply(fc: u8, start: u16, count: u16) -> (r: Vec<u8>)
    ensures
        r@ == write_multiple_reply(fc, start, count),
{
    let mut out: Vec<u8> = Vec::new();
    out.push(fc);
    push_u16(&mut out, start);
    push_u16(&mut out, count);
    assert(out@ =~= write_multiple_reply(fc, start, count));
    out
}

} // verus!
