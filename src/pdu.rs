use vstd::prelude::*;

use crate::error::ProtocolError;
use crate::frame::{be_u16, u16_of, MAX_PDU_LEN};

verus! {

/// Function codes of the requests that this library speaks.
pub const READ_COILS: u8 = 1;
pub const READ_DISCRETE_INPUTS: u8 = 2;
pub const READ_HOLDING_REGISTERS: u8 = 3;
pub const READ_INPUT_REGISTERS: u8 = 4;
pub const WRITE_SINGLE_COIL: u8 = 5;
pub const WRITE_SINGLE_REGISTER: u8 = 6;
pub const WRITE_MULTIPLE_COILS: u8 = 15;
pub const WRITE_MULTIPLE_REGISTERS: u8 = 16;

/// Most bits that one read asks for.
pub const MAX_READ_BITS: u16 = 2000;
/// Most registers that one read asks for.
pub const MAX_READ_REGISTERS: u16 = 125;
/// Most coils that one write carries.
pub const MAX_WRITE_COILS: u16 = 1968;
/// Most registers that one write carries.
pub const MAX_WRITE_REGISTERS: u16 = 123;

/// A run of `count` addresses from `start`.
#[derive(Clone, Copy, Debug, PartialEq, Eq, Structural)]
pub struct AddressRange {
    pub start: u16,
    pub count: u16,
}

/// A range of at least one address that ends within the address space.
pub open spec fn range_ok(start: u16, count: int, limit: u16) -> bool {
    1 <= count <= limit && start + count <= 65536
}

impl AddressRange {
    /// A range of `count` addresses from `start`; `BadRange` when it is empty
    /// or runs past address 65535.
    pub fn try_from(start: u16, count: u16) -> (r: Result<AddressRange, ProtocolError>)
        ensures
            r is Ok <==> range_ok(start, count as int, 0xFFFF),
            r matches Ok(a) ==> a.start == start && a.count == count,
            r matches Err(e) ==> e == ProtocolError::BadRange,
    {
        if count == 0 || start as u32 + count as u32 > 65536 {
            Err(ProtocolError::BadRange)
        } else {
            Ok(AddressRange { start, count })
        }
    }
}

/// A value with its address.
#[derive(Clone, Copy, Debug, PartialEq, Eq, Structural)]
pub struct Indexed<T> {
    pub index: u16,
    pub value: T,
}

impl<T> Indexed<T> {
    pub fn new(index: u16, value: T) -> (r: Indexed<T>)
        ensures
            r.index == index,
            r.value == value,
    {
        Indexed { index, value }
    }
}

/// The operation of a request, with its input.
#[derive(Debug, PartialEq)]
#[allow(inconsistent_fields)]
pub enum RequestDetails {
    ReadCoils(AddressRange),
    ReadDiscreteInputs(AddressRange),
    ReadHoldingRegisters(AddressRange),
    ReadInputRegisters(AddressRange),
    WriteSingleCoil(Indexed<bool>),
    WriteSingleRegister(Indexed<u16>),
    WriteMultipleCoils { start: u16, values: Vec<bool> },
    WriteMultipleRegisters { start: u16, values: Vec<u16> },
}

/// A request's operation with its values as sequences.
#[allow(inconsistent_fields)]
pub enum DetailsView {
    ReadCoils(AddressRange),
    ReadDiscreteInputs(AddressRange),
    ReadHoldingRegisters(AddressRange),
    ReadInputRegisters(AddressRange),
    WriteSingleCoil(Indexed<bool>),
    WriteSingleRegister(Indexed<u16>),
    WriteMultipleCoils { start: u16, values: Seq<bool> },
    WriteMultipleRegisters { start: u16, values: Seq<u16> },
}

impl View for RequestDetails {
    type V = DetailsView;

    open spec fn view(&self) -> DetailsView {
        match self {
            RequestDetails::ReadCoils(r) => DetailsView::ReadCoils(*r),
            RequestDetails::ReadDiscreteInputs(r) => DetailsView::ReadDiscreteInputs(*r),
            RequestDetails::ReadHoldingRegisters(r) => DetailsView::ReadHoldingRegisters(*r),
            RequestDetails::ReadInputRegisters(r) => DetailsView::ReadInputRegisters(*r),
            RequestDetails::WriteSingleCoil(v) => DetailsView::WriteSingleCoil(*v),
            RequestDetails::WriteSingleRegister(v) => DetailsView::WriteSingleRegister(*v),
            RequestDetails::WriteMultipleCoils { start, values } => DetailsView::WriteMultipleCoils {
                start: *start,
                values: values@,
            },
            RequestDetails::WriteMultipleRegisters {
                start,
                values,
            } => DetailsView::WriteMultipleRegisters { start: *start, values: values@ },
        }
    }
}

/// The function code of an operation.
pub open spec fn function_of(d: DetailsView) -> u8 {
    match d {
        DetailsView::ReadCoils(_) => READ_COILS,
        DetailsView::ReadDiscreteInputs(_) => READ_DISCRETE_INPUTS,
        DetailsView::ReadHoldingRegisters(_) => READ_HOLDING_REGISTERS,
        DetailsView::ReadInputRegisters(_) => READ_INPUT_REGISTERS,
        DetailsView::WriteSingleCoil(_) => WRITE_SINGLE_COIL,
        DetailsView::WriteSingleRegister(_) => WRITE_SINGLE_REGISTER,
        DetailsView::WriteMultipleCoils { .. } => WRITE_MULTIPLE_COILS,
        DetailsView::WriteMultipleRegisters { .. } => WRITE_MULTIPLE_REGISTERS,
    }
}

/// An operation whose quantity is within its function's limit and whose
/// addresses stay within the address space.
pub open spec fn valid_details(d: DetailsView) -> bool {
    match d {
        DetailsView::ReadCoils(r) => range_ok(r.start, r.count as int, MAX_READ_BITS),
        DetailsView::ReadDiscreteInputs(r) => range_ok(r.start, r.count as int, MAX_READ_BITS),
        DetailsView::ReadHoldingRegisters(r) => range_ok(r.start, r.count as int, MAX_READ_REGISTERS),
        DetailsView::ReadInputRegisters(r) => range_ok(r.start, r.count as int, MAX_READ_REGISTERS),
        DetailsView::WriteSingleCoil(_) => true,
        DetailsView::WriteSingleRegister(_) => true,
        DetailsView::WriteMultipleCoils { start, values } => range_ok(
            start,
            values.len() as int,
            MAX_WRITE_COILS,
        ),
        DetailsView::WriteMultipleRegisters { start, values } => range_ok(
            start,
            values.len() as int,
            MAX_WRITE_REGISTERS,
        ),
    }
}

/// 1 for a set bit, 0 otherwise; 0 past the end of `v`.
pub open spec fn bit_value(v: Seq<bool>, i: int) -> int {
    if 0 <= i < v.len() && v[i] {
        1
    } else {
        0
    }
}

/// The byte that packs bits `base..base + 8` of `v`, least significant first.
pub open spec fn packed_byte(v: Seq<bool>, base: int) -> u8 {
    (bit_value(v, base) + 2 * bit_value(v, base + 1) + 4 * bit_value(v, base + 2) + 8
        * bit_value(v, base + 3) + 16 * bit_value(v, base + 4) + 32 * bit_value(v, base + 5) + 64
        * bit_value(v, base + 6) + 128 * bit_value(v, base + 7)) as u8
}

/// Number of bytes that carry `n` packed bits.
pub open spec fn packed_len(n: int) -> int {
    (n + 7) / 8
}

/// Bits packed eight to a byte, the first bit in the low bit of the first byte.
pub open spec fn pack_bits(v: Seq<bool>) -> Seq<u8> {
    Seq::new(packed_len(v.len() as int) as nat, |i: int| packed_byte(v, 8 * i))
}

/// Bit `j` of a byte, counting from the least significant.
pub open spec fn bit_of_byte(x: u8, j: int) -> bool {
    (x as int / pow2_small(j)) % 2 == 1
}

/// 2 to the power `j`, for `j` in 0..8.
pub open spec fn pow2_small(j: int) -> int {
    if j <= 0 {
        1
    } else if j == 1 {
        2
    } else if j == 2 {
        4
    } else if j == 3 {
        8
    } else if j == 4 {
        16
    } else if j == 5 {
        32
    } else if j == 6 {
        64
    } else {
        128
    }
}

/// The first `n` bits packed in `p`.
pub open spec fn unpack_bits(p: Seq<u8>, n: nat) -> Seq<bool> {
    Seq::new(n, |k: int| bit_of_byte(p[k / 8], k % 8))
}

/// Registers as big-endian byte pairs.
pub open spec fn register_bytes(v: Seq<u16>) -> Seq<u8> {
    Seq::new(
        2 * v.len(),
        |i: int|
            if i % 2 == 0 {
                (v[i / 2] / 256) as u8
            } else {
                (v[i / 2] % 256) as u8
            },
    )
}

/// The first `n` registers held as big-endian pairs in `p`.
pub open spec fn unpack_registers(p: Seq<u8>, n: nat) -> Seq<u16> {
    Seq::new(n, |i: int| u16_of(p[2 * i], p[2 * i + 1]))
}

/// The PDU of a request.
pub open spec fn request_pdu(d: DetailsView) -> Seq<u8> {
    match d {
        DetailsView::ReadCoils(r) => seq![READ_COILS] + be_u16(r.start) + be_u16(r.count),
        DetailsView::ReadDiscreteInputs(r) => seq![READ_DISCRETE_INPUTS] + be_u16(r.start) + be_u16(
            r.count,
        ),
        DetailsView::ReadHoldingRegisters(r) => seq![READ_HOLDING_REGISTERS] + be_u16(r.start)
            + be_u16(r.count),
        DetailsView::ReadInputRegisters(r) => seq![READ_INPUT_REGISTERS] + be_u16(r.start) + be_u16(
            r.count,
        ),
        DetailsView::WriteSingleCoil(v) => seq![WRITE_SINGLE_COIL] + be_u16(v.index) + if v.value {
            seq![0xFFu8, 0x00u8]
        } else {
            seq![0x00u8, 0x00u8]
        },
        DetailsView::WriteSingleRegister(v) => seq![WRITE_SINGLE_REGISTER] + be_u16(v.index)
            + be_u16(v.value),
        DetailsView::WriteMultipleCoils { start, values } => seq![WRITE_MULTIPLE_COILS] + be_u16(
            start,
        ) + be_u16(values.len() as u16) + seq![packed_len(values.len() as int) as u8] + pack_bits(
            values,
        ),
        DetailsView::WriteMultipleRegisters { start, values } => seq![WRITE_MULTIPLE_REGISTERS]
            + be_u16(start) + be_u16(values.len() as u16) + seq![(2 * values.len()) as u8]
            + register_bytes(values),
    }
}

/// A read request PDU of function `fc`, with the quantity limit `limit`.
pub open spec fn parse_read(s: Seq<u8>, fc: u8, limit: u16) -> Result<AddressRange, ProtocolError> {
    if s.len() != 5 {
        Err(ProtocolError::BadLength)
    } else {
        let start = u16_of(s[1], s[2]);
        let count = u16_of(s[3], s[4]);
        if !range_ok(start, count as int, limit) {
            Err(ProtocolError::BadRange)
        } else {
            Ok(AddressRange { start, count })
        }
    }
}

/// What a request PDU asks for, or why it cannot be decoded.
pub open spec fn parse_request_spec(s: Seq<u8>) -> Result<DetailsView, ProtocolError> {
    if s.len() == 0 {
        Err(ProtocolError::BadLength)
    } else {
        let fc = s[0];
        if fc == READ_COILS {
            match parse_read(s, fc, MAX_READ_BITS) {
                Ok(r) => Ok(DetailsView::ReadCoils(r)),
                Err(e) => Err(e),
            }
        } else if fc == READ_DISCRETE_INPUTS {
            match parse_read(s, fc, MAX_READ_BITS) {
                Ok(r) => Ok(DetailsView::ReadDiscreteInputs(r)),
                Err(e) => Err(e),
            }
        } else if fc == READ_HOLDING_REGISTERS {
            match parse_read(s, fc, MAX_READ_REGISTERS) {
                Ok(r) => Ok(DetailsView::ReadHoldingRegisters(r)),
                Err(e) => Err(e),
            }
        } else if fc == READ_INPUT_REGISTERS {
            match parse_read(s, fc, MAX_READ_REGISTERS) {
                Ok(r) => Ok(DetailsView::ReadInputRegisters(r)),
                Err(e) => Err(e),
            }
        } else if fc == WRITE_SINGLE_COIL {
            if s.len() != 5 {
                Err(ProtocolError::BadLength)
            } else {
                let v = u16_of(s[3], s[4]);
                if v == 0xFF00 {
                    Ok(DetailsView::WriteSingleCoil(Indexed { index: u16_of(s[1], s[2]), value: true }))
                } else if v == 0 {
                    Ok(DetailsView::WriteSingleCoil(Indexed { index: u16_of(s[1], s[2]), value: false }))
                } else {
                    Err(ProtocolError::BadCoilValue(v))
                }
            }
        } else if fc == WRITE_SINGLE_REGISTER {
            if s.len() != 5 {
                Err(ProtocolError::BadLength)
            } else {
                Ok(DetailsView::WriteSingleRegister(Indexed { index: u16_of(s[1], s[2]), value: u16_of(s[3], s[4]) }))
            }
        } else if fc == WRITE_MULTIPLE_COILS || fc == WRITE_MULTIPLE_REGISTERS {
            if s.len() < 6 {
                Err(ProtocolError::BadLength)
            } else {
                let start = u16_of(s[1], s[2]);
                let count = u16_of(s[3], s[4]);
                let coils = fc == WRITE_MULTIPLE_COILS;
                let limit = if coils { MAX_WRITE_COILS } else { MAX_WRITE_REGISTERS };
                let bc = if coils { packed_len(count as int) } else { 2 * count };
                if !range_ok(start, count as int, limit) {
                    Err(ProtocolError::BadRange)
                } else if s[5] != bc {
                    Err(ProtocolError::BadByteCount)
                } else if s.len() != 6 + bc {
                    Err(ProtocolError::BadLength)
                } else if coils {
                    Ok(DetailsView::WriteMultipleCoils { start, values: unpack_bits(s.subrange(6, s.len() as int), count as nat) })
                } else {
                    Ok(DetailsView::WriteMultipleRegisters { start, values: unpack_registers(s.subrange(6, s.len() as int), count as nat) })
                }
            }
        } else {
            Err(ProtocolError::UnknownFunction(fc))
        }
    }
}

/// The PDU of a valid request fits in one frame.
pub proof fn lemma_request_pdu_len(d: DetailsView)
    requires
        valid_details(d),
    ensures
        request_pdu(d).len() <= MAX_PDU_LEN,
{
    match d {
        DetailsView::WriteMultipleCoils { start, values } => {
            assert(packed_len(values.len() as int) <= 247);
        },
        _ => {},
    }
}

proof fn lemma_byte_bits(v: Seq<bool>, base: int)
    ensures
        forall|j: int|
            0 <= j < 8 ==> (bit_of_byte(packed_byte(v, base), j) <==> bit_value(v, base + j) == 1),
{
    let b0 = bit_value(v, base);
    let b1 = bit_value(v, base + 1);
    let b2 = bit_value(v, base + 2);
    let b3 = bit_value(v, base + 3);
    let b4 = bit_value(v, base + 4);
    let b5 = bit_value(v, base + 5);
    let b6 = bit_value(v, base + 6);
    let b7 = bit_value(v, base + 7);
    let x = b0 + 2 * b1 + 4 * b2 + 8 * b3 + 16 * b4 + 32 * b5 + 64 * b6 + 128 * b7;
    assert(0 <= x < 256);
    assert(packed_byte(v, base) as int == x);
    assert(x % 2 == b0);
    assert((x / 2) % 2 == b1);
    assert((x / 4) % 2 == b2);
    assert((x / 8) % 2 == b3);
    assert((x / 16) % 2 == b4);
    assert((x / 32) % 2 == b5);
    assert((x / 64) % 2 == b6);
    assert((x / 128) % 2 == b7);
}

/// Unpacking packed bits gives the bits back.
pub proof fn lemma_bits_round_trip(v: Seq<bool>)
    ensures
        unpack_bits(pack_bits(v), v.len()) == v,
{
    assert forall|k: int| 0 <= k < v.len() implies #[trigger] unpack_bits(pack_bits(v), v.len())[k]
        == v[k] by {
        lemma_byte_bits(v, 8 * (k / 8));
        assert(8 * (k / 8) + k % 8 == k);
        assert(k / 8 < packed_len(v.len() as int));
    }
    assert(unpack_bits(pack_bits(v), v.len()) =~= v);
}

/// Reading registers back from their bytes gives the registers.
pub proof fn lemma_registers_round_trip(v: Seq<u16>)
    ensures
        unpack_registers(register_bytes(v), v.len()) == v,
{
    assert forall|k: int| 0 <= k < v.len() implies #[trigger] unpack_registers(register_bytes(v), v.len())[k]
        == v[k] by {
        assert((2 * k) % 2 == 0 && (2 * k) / 2 == k);
        assert((2 * k + 1) % 2 == 1 && (2 * k + 1) / 2 == k);
    }
    assert(unpack_registers(register_bytes(v), v.len()) =~= v);
}

proof fn lemma_coils_round_trip(start: u16, values: Seq<bool>)
    requires
        range_ok(start, values.len() as int, MAX_WRITE_COILS),
    ensures
        parse_request_spec(request_pdu(DetailsView::WriteMultipleCoils { start, values }))
            == Ok::<DetailsView, ProtocolError>(DetailsView::WriteMultipleCoils { start, values }),
{
    let s = request_pdu(DetailsView::WriteMultipleCoils { start, values });
    assert(packed_len(values.len() as int) <= 247);
    assert(u16_of(s[1], s[2]) == start);
    assert(u16_of(s[3], s[4]) == values.len());
    lemma_bits_round_trip(values);
    assert(s.subrange(6, s.len() as int) =~= pack_bits(values));
}

proof fn lemma_multiple_registers_round_trip(start: u16, values: Seq<u16>)
    requires
        range_ok(start, values.len() as int, MAX_WRITE_REGISTERS),
    ensures
        parse_request_spec(request_pdu(DetailsView::WriteMultipleRegisters { start, values }))
            == Ok::<DetailsView, ProtocolError>(DetailsView::WriteMultipleRegisters { start, values }),
{
    let s = request_pdu(DetailsView::WriteMultipleRegisters { start, values });
    assert(u16_of(s[1], s[2]) == start);
    assert(u16_of(s[3], s[4]) == values.len());
    lemma_registers_round_trip(values);
    assert(s.subrange(6, s.len() as int) =~= register_bytes(values));
}

/// Decoding the PDU of a valid request gives the request back.
#[verifier::spinoff_prover]
#[verifier::rlimit(50)]
pub proof fn lemma_request_round_trip(d: DetailsView)
    requires
        valid_details(d),
    ensures
        parse_request_spec(request_pdu(d)) == Ok::<DetailsView, ProtocolError>(d),
{
    let s = request_pdu(d);
    match d {
        DetailsView::WriteSingleCoil(v) => {
            assert(u16_of(s[3], s[4]) == if v.value { 0xFF00u16 } else { 0u16 });
            assert(u16_of(s[1], s[2]) == v.index);
        },
        DetailsView::WriteSingleRegister(v) => {
            assert(u16_of(s[1], s[2]) == v.index);
            assert(u16_of(s[3], s[4]) == v.value);
        },
        DetailsView::WriteMultipleCoils { start, values } => {
            lemma_coils_round_trip(start, values);
        },
        DetailsView::WriteMultipleRegisters { start, values } => {
            lemma_multiple_registers_round_trip(start, values);
        },
        _ => {
            assert(u16_of(s[1], s[2]) == request_range(d).start);
            assert(u16_of(s[3], s[4]) == request_range(d).count);
        },
    }
}

/// The range of a read request.
spec fn request_range(d: DetailsView) -> AddressRange {
    match d {
        DetailsView::ReadCoils(r) => r,
        DetailsView::ReadDiscreteInputs(r) => r,
        DetailsView::ReadHoldingRegisters(r) => r,
        DetailsView::ReadInputRegisters(r) => r,
        _ => AddressRange { start: 0, count: 0 },
    }
}

/// Appends the big-endian bytes of `v`.
pub fn push_u16(out: &mut Vec<u8>, v: u16)
    ensures
        final(out)@ == old(out)@ + be_u16(v),
{
    out.push((v / 256) as u8);
    out.push((v % 256) as u8);
    assert(final(out)@ =~= old(out)@ + be_u16(v));
}

/// The 16-bit value of the big-endian pair at `i`.
pub fn read_u16(s: &[u8], i: usize) -> (r: u16)
    requires
        i + 1 < s@.len(),
    ensures
        r == u16_of(s@[i as int], s@[i + 1]),
{
    (s[i] as u16) * 256 + s[i + 1] as u16
}

fn bit_at(values: &[bool], i: usize) -> (r: u32)
    ensures
        r as int == bit_value(values@, i as int),
{
    if i < values.len() && values[i] {
        1
    } else {
        0
    }
}

/// Appends the bits of `values`, packed eight to a byte.
pub fn push_packed_bits(out: &mut Vec<u8>, values: &[bool])
    requires
        values@.len() <= 0xFFFF,
    ensures
        final(out)@ == old(out)@ + pack_bits(values@),
{
    let n_bytes: usize = (values.len() + 7) / 8;
    let mut i: usize = 0;
    while i < n_bytes
        invariant
            values@.len() <= 0xFFFF,
            n_bytes == packed_len(values@.len() as int),
            i <= n_bytes,
            out@ == old(out)@ + pack_bits(values@).subrange(0, i as int),
        decreases n_bytes - i,
    {
        let b = 8 * i;
        let byte: u32 = bit_at(values, b) + 2 * bit_at(values, b + 1) + 4 * bit_at(values, b + 2)
            + 8 * bit_at(values, b + 3) + 16 * bit_at(values, b + 4) + 32 * bit_at(values, b + 5)
            + 64 * bit_at(values, b + 6) + 128 * bit_at(values, b + 7);
        out.push(byte as u8);
        assert(byte as u8 == packed_byte(values@, 8 * i));
        i = i + 1;
        assert(out@ =~= old(out)@ + pack_bits(values@).subrange(0, i as int));
    }
    assert(pack_bits(values@).subrange(0, n_bytes as int) =~= pack_bits(values@));
}

/// Appends each register as a big-endian pair.
pub fn push_registers(out: &mut Vec<u8>, values: &[u16])
    requires
        values@.len() <= 0xFFFF,
    ensures
        final(out)@ == old(out)@ + register_bytes(values@),
{
    let mut i: usize = 0;
    while i < values.len()
        invariant
            values@.len() <= 0xFFFF,
            i <= values@.len(),
            out@ == old(out)@ + register_bytes(values@).subrange(0, 2 * i as int),
        decreases values@.len() - i,
    {
        out.push((values[i] / 256) as u8);
        out.push((values[i] % 256) as u8);
        i = i + 1;
        assert(out@ =~= old(out)@ + register_bytes(values@).subrange(0, 2 * i as int));
    }
    assert(register_bytes(values@).subrange(0, 2 * values@.len() as int) =~= register_bytes(values@));
}

/// Bit `j` of `x`, counting from the least significant.
pub fn bit_of(x: u8, j: usize) -> (r: bool)
    requires
        j < 8,
    ensures
        r == bit_of_byte(x, j as int),
{
    let p: u8 = if j == 0 {
        1
    } else if j == 1 {
        2
    } else if j == 2 {
        4
    } else if j == 3 {
        8
    } else if j == 4 {
        16
    } else if j == 5 {
        32
    } else if j == 6 {
        64
    } else {
        128
    };
    (x / p) % 2 == 1
}

/// The first `n` bits packed in `s` from byte `from` on.
pub fn read_packed_bits(s: &[u8], from: usize, n: usize) -> (r: Vec<bool>)
    requires
        from + packed_len(n as int) <= s@.len(),
    ensures
        r@ == unpack_bits(s@.subrange(from as int, s@.len() as int), n as nat),
{
    let ghost p = s@.subrange(from as int, s@.len() as int);
    let mut out: Vec<bool> = Vec::new();
    let mut k: usize = 0;
    let slen = s.len();
    while k < n
        invariant
            slen == s@.len(),
            from + packed_len(n as int) <= s@.len(),
            p == s@.subrange(from as int, s@.len() as int),
            k <= n,
            out@ == unpack_bits(p, n as nat).subrange(0, k as int),
        decreases n - k,
    {
        assert(k / 8 < packed_len(n as int)) by (nonlinear_arith)
            requires
                k < n,
        ;
        out.push(bit_of(s[from + k / 8], k % 8));
        k = k + 1;
        assert(out@ =~= unpack_bits(p, n as nat).subrange(0, k as int));
    }
    assert(unpack_bits(p, n as nat).subrange(0, n as int) =~= unpack_bits(p, n as nat));
    out
}

/// The first `n` registers held as pairs in `s` from byte `from` on.
pub fn read_registers(s: &[u8], from: usize, n: usize) -> (r: Vec<u16>)
    requires
        from + 2 * n <= s@.len(),
    ensures
        r@ == unpack_registers(s@.subrange(from as int, s@.len() as int), n as nat),
{
    let ghost p = s@.subrange(from as int, s@.len() as int);
    let mut out: Vec<u16> = Vec::new();
    let mut k: usize = 0;
    let slen = s.len();
    while k < n
        invariant
            slen == s@.len(),
            from + 2 * n <= s@.len(),
            p == s@.subrange(from as int, s@.len() as int),
            k <= n,
            out@ == unpack_registers(p, n as nat).subrange(0, k as int),
        decreases n - k,
    {
        out.push(read_u16(s, from + 2 * k));
        k = k + 1;
        assert(out@ =~= unpack_registers(p, n as nat).subrange(0, k as int));
    }
    assert(unpack_registers(p, n as nat).subrange(0, n as int) =~= unpack_registers(p, n as nat));
    out
}

impl RequestDetails {
    /// The function code of this operation.
    pub fn function(&self) -> (r: u8)
        ensures
            r == function_of(self@),
    {
        match self {
            RequestDetails::ReadCoils(_) => READ_COILS,
            RequestDetails::ReadDiscreteInputs(_) => READ_DISCRETE_INPUTS,
            RequestDetails::ReadHoldingRegisters(_) => READ_HOLDING_REGISTERS,
            RequestDetails::ReadInputRegisters(_) => READ_INPUT_REGISTERS,
            RequestDetails::WriteSingleCoil(_) => WRITE_SINGLE_COIL,
            RequestDetails::WriteSingleRegister(_) => WRITE_SINGLE_REGISTER,
            RequestDetails::WriteMultipleCoils { .. } => WRITE_MULTIPLE_COILS,
            RequestDetails::WriteMultipleRegisters { .. } => WRITE_MULTIPLE_REGISTERS,
        }
    }

    /// Whether the quantity is within the function's limit and the addresses
    /// stay within the address space.
    pub fn is_valid(&self) -> (r: bool)
        ensures
            r == valid_details(self@),
    {
        match self {
            RequestDetails::ReadCoils(r) => range_check(r.start, r.count as usize, MAX_READ_BITS),
            RequestDetails::ReadDiscreteInputs(r) => range_check(r.start, r.count as usize, MAX_READ_BITS),
            RequestDetails::ReadHoldingRegisters(r) => range_check(r.start, r.count as usize, MAX_READ_REGISTERS),
            RequestDetails::ReadInputRegisters(r) => range_check(r.start, r.count as usize, MAX_READ_REGISTERS),
            RequestDetails::WriteSingleCoil(_) => true,
            RequestDetails::WriteSingleRegister(_) => true,
            RequestDetails::WriteMultipleCoils { start, values } => range_check(*start, values.len(), MAX_WRITE_COILS),
            RequestDetails::WriteMultipleRegisters { start, values } => range_check(*start, values.len(), MAX_WRITE_REGISTERS),
        }
    }

    /// The request PDU of a valid operation.
    pub fn encode(&self) -> (r: Vec<u8>)
        requires
            valid_details(self@),
        ensures
            r@ == request_pdu(self@),
    {
        let mut out: Vec<u8> = Vec::new();
        out.push(self.function());
        match self {
            RequestDetails::ReadCoils(r) | RequestDetails::ReadDiscreteInputs(r)
            | RequestDetails::ReadHoldingRegisters(r) | RequestDetails::ReadInputRegisters(r) => {
                push_u16(&mut out, r.start);
                push_u16(&mut out, r.count);
            },
            RequestDetails::WriteSingleCoil(v) => {
                push_u16(&mut out, v.index);
                push_u16(&mut out, if v.value { 0xFF00 } else { 0 });
                assert(be_u16(0xFF00) =~= seq![0xFFu8, 0x00u8]);
                assert(be_u16(0) =~= seq![0x00u8, 0x00u8]);
            },
            RequestDetails::WriteSingleRegister(v) => {
                push_u16(&mut out, v.index);
                push_u16(&mut out, v.value);
            },
            RequestDetails::WriteMultipleCoils { start, values } => {
                push_u16(&mut out, *start);
                push_u16(&mut out, values.len() as u16);
                out.push(((values.len() + 7) / 8) as u8);
                push_packed_bits(&mut out, values.as_slice());
            },
            RequestDetails::WriteMultipleRegisters { start, values } => {
                push_u16(&mut out, *start);
                push_u16(&mut out, values.len() as u16);
                out.push((2 * values.len()) as u8);
                push_registers(&mut out, values.as_slice());
            },
        }
        assert(out@ =~= request_pdu(self@));
        out
    }

    /// Decodes a request PDU.
    pub fn parse(s: &[u8]) -> (r: Result<RequestDetails, ProtocolError>)
        ensures
            match (r, parse_request_spec(s@)) {
                (Ok(d), Ok(m)) => d@ == m,
                (Err(e), Err(m)) => e == m,
                _ => false,
            },
    {
        if s.len() == 0 {
            return Err(ProtocolError::BadLength);
        }
        let fc = s[0];
        if fc >= 1 && fc <= 4 {
            if s.len() != 5 {
                return Err(ProtocolError::BadLength);
            }
            let start = read_u16(s, 1);
            let count = read_u16(s, 3);
            let limit = if fc <= 2 { MAX_READ_BITS } else { MAX_READ_REGISTERS };
            if !range_check(start, count as usize, limit) {
                return Err(ProtocolError::BadRange);
            }
            let r = AddressRange { start, count };
            if fc == READ_COILS {
                Ok(RequestDetails::ReadCoils(r))
            } else if fc == READ_DISCRETE_INPUTS {
                Ok(RequestDetails::ReadDiscreteInputs(r))
            } else if fc == READ_HOLDING_REGISTERS {
                Ok(RequestDetails::ReadHoldingRegisters(r))
            } else {
                Ok(RequestDetails::ReadInputRegisters(r))
            }
        } else if fc == WRITE_SINGLE_COIL {
            if s.len() != 5 {
                return Err(ProtocolError::BadLength);
            }
            let index = read_u16(s, 1);
            let v = read_u16(s, 3);
            if v == 0xFF00 {
                Ok(RequestDetails::WriteSingleCoil(Indexed { index, value: true }))
            } else if v == 0 {
                Ok(RequestDetails::WriteSingleCoil(Indexed { index, value: false }))
            } else {
                Err(ProtocolError::BadCoilValue(v))
            }
        } else if fc == WRITE_SINGLE_REGISTER {
            if s.len() != 5 {
                return Err(ProtocolError::BadLength);
            }
            Ok(RequestDetails::WriteSingleRegister(Indexed { index: read_u16(s, 1), value: read_u16(s, 3) }))
        } else if fc == WRITE_MULTIPLE_COILS || fc == WRITE_MULTIPLE_REGISTERS {
            if s.len() < 6 {
                return Err(ProtocolError::BadLength);
            }
            let start = read_u16(s, 1);
            let count = read_u16(s, 3);
            let coils = fc == WRITE_MULTIPLE_COILS;
            let limit = if coils { MAX_WRITE_COILS } else { MAX_WRITE_REGISTERS };
            let bc: usize = if coils { (count as usize + 7) / 8 } else { 2 * count as usize };
            if !range_check(start, count as usize, limit) {
                return Err(ProtocolError::BadRange);
            }
            if s[5] as usize != bc {
                return Err(ProtocolError::BadByteCount);
            }
            if s.len() != 6 + bc {
                return Err(ProtocolError::BadLength);
            }
            if coils {
                let values = read_packed_bits(s, 6, count as usize);
                Ok(RequestDetails::WriteMultipleCoils { start, values })
            } else {
                let values = read_registers(s, 6, count as usize);
                Ok(RequestDetails::WriteMultipleRegisters { start, values })
            }
        } else {
            Err(ProtocolError::UnknownFunction(fc))
        }
    }
}

/// Whether `count` addresses from `start` form a range within `limit`.
pub fn range_check(start: u16, count: usize, limit: u16) -> (r: bool)
    ensures
        r == range_ok(start, count as int, limit),
{
    count >= 1 && count <= limit as usize && start as usize + count <= 65536
}

} // verus!
