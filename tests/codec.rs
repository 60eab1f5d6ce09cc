use rodbus::error::{Exception, FrameParseError, ProtocolError};
use rodbus::frame::{format_frame, FrameHeader, FramedReader};
use rodbus::pdu::{AddressRange, Indexed, RequestDetails};
use rodbus::response::{format_bits_reply, format_exception, format_registers_reply};
use rodbus::types::{TxId, UnitId};

#[test]
fn frame_round_trip() {
    let header = FrameHeader::new(UnitId::new(0x11), TxId::new(0x1234));
    let pdu = [0x03, 0x00, 0x10, 0x00, 0x02];
    let bytes = format_frame(header, &pdu).unwrap();
    assert_eq!(bytes, vec![0x12, 0x34, 0x00, 0x00, 0x00, 0x06, 0x11, 0x03, 0x00, 0x10, 0x00, 0x02]);
    let mut reader = FramedReader::new();
    reader.push(&bytes);
    reader.push(&[0x00]);
    let frame = reader.next_frame().unwrap().unwrap();
    assert_eq!(frame.header, header);
    assert_eq!(frame.payload, pdu.to_vec());
    assert!(reader.next_frame().unwrap().is_none());
}

#[test]
fn oversized_pdu_is_not_framed() {
    let header = FrameHeader::new(UnitId::new(1), TxId::new(0));
    assert!(format_frame(header, &[0u8; 253]).is_some());
    assert!(format_frame(header, &[0u8; 254]).is_none());
}

#[test]
fn frame_length_is_checked() {
    let mut reader = FramedReader::new();
    reader.push(&[0x00, 0x00, 0x00, 0x00, 0x00, 0x00, 0x01]);
    assert_eq!(reader.next_frame().unwrap_err(), FrameParseError::FrameLengthInvalid(0));
    let mut reader = FramedReader::new();
    reader.push(&[0x00, 0x00, 0x00, 0x00, 0x00, 0xFF, 0x01]);
    assert_eq!(reader.next_frame().unwrap_err(), FrameParseError::FrameLengthInvalid(255));
}

#[test]
fn request_encodings() {
    let r = AddressRange::try_from(7, 2).unwrap();
    assert_eq!(RequestDetails::ReadCoils(r).encode(), vec![1, 0, 7, 0, 2]);
    assert_eq!(RequestDetails::ReadInputRegisters(r).encode(), vec![4, 0, 7, 0, 2]);
    assert_eq!(
        RequestDetails::WriteSingleCoil(Indexed::new(3, true)).encode(),
        vec![5, 0, 3, 0xFF, 0x00]
    );
    assert_eq!(
        RequestDetails::WriteSingleRegister(Indexed::new(3, 0xABCD)).encode(),
        vec![6, 0, 3, 0xAB, 0xCD]
    );
    let coils = RequestDetails::WriteMultipleCoils {
        start: 1,
        values: vec![true, false, true, true, false, false, false, false, true],
    };
    assert_eq!(coils.encode(), vec![15, 0, 1, 0, 9, 2, 0x0D, 0x01]);
    let regs = RequestDetails::WriteMultipleRegisters { start: 2, values: vec![0x0102, 0xFFFF] };
    assert_eq!(regs.encode(), vec![16, 0, 2, 0, 2, 4, 1, 2, 0xFF, 0xFF]);
}

#[test]
fn request_decode_round_trip() {
    let coils = RequestDetails::WriteMultipleCoils {
        start: 1,
        values: vec![true, false, true, true, false, false, false, false, true],
    };
    assert_eq!(RequestDetails::parse(&coils.encode()), Ok(coils));
    let regs = RequestDetails::WriteMultipleRegisters { start: 2, values: vec![0x0102, 0xFFFF] };
    assert_eq!(RequestDetails::parse(&regs.encode()), Ok(regs));
}

#[test]
fn request_decode_errors() {
    assert_eq!(RequestDetails::parse(&[]), Err(ProtocolError::BadLength));
    assert_eq!(RequestDetails::parse(&[0x2B, 0x00]), Err(ProtocolError::UnknownFunction(0x2B)));
    assert_eq!(RequestDetails::parse(&[5, 0, 1, 0x12, 0x34]), Err(ProtocolError::BadCoilValue(0x1234)));
    assert_eq!(RequestDetails::parse(&[1, 0, 0, 0x07, 0xD1]), Err(ProtocolError::BadRange));
    assert_eq!(RequestDetails::parse(&[15, 0, 0, 0, 9, 1, 0xFF]), Err(ProtocolError::BadByteCount));
    assert_eq!(RequestDetails::parse(&[16, 0, 0, 0, 1, 2, 0xFF]), Err(ProtocolError::BadLength));
}

#[test]
fn reply_encodings() {
    assert_eq!(format_bits_reply(1, &[true, false]), vec![1, 1, 1]);
    assert_eq!(format_registers_reply(3, &[0x1234]), vec![3, 2, 0x12, 0x34]);
    assert_eq!(format_exception(3, Exception::IllegalDataAddress), vec![0x83, 2]);
    assert_eq!(Exception::from_u8(11), Exception::GatewayTargetFailedToRespond);
    assert_eq!(Exception::from_u8(7), Exception::Unknown(7));
    assert_eq!(Exception::MemoryParityError.code(), 8);
}
