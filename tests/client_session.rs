use rodbus::client::{ClientAction, ClientEvent, ClientLoop, DrainEvent, DrainOutcome, Phase};
use rodbus::error::{Error, Exception, FrameParseError, ProtocolError, SessionError};
use rodbus::frame::{format_frame, FrameHeader};
use rodbus::pdu::{AddressRange, Indexed, RequestDetails};
use rodbus::request::Request;
use rodbus::response::Response;
use rodbus::types::{TxId, UnitId};

fn read_coils(start: u16, count: u16, timeout_ms: u64) -> Request {
    let range = AddressRange::try_from(start, count).unwrap();
    Request::new(UnitId::new(1), timeout_ms, RequestDetails::ReadCoils(range)).unwrap()
}

fn framed(tx: u16, pdu: &[u8]) -> Vec<u8> {
    format_frame(FrameHeader::new(UnitId::new(1), TxId::new(tx)), pdu).unwrap()
}

fn send(client: &mut ClientLoop, request: Request) -> Vec<u8> {
    let step = client.handle(ClientEvent::Request(request));
    assert!(step.done.is_none());
    let bytes = match step.next {
        ClientAction::Write { bytes, .. } => bytes,
        other => panic!("expected a write, got {:?}", other),
    };
    let step = client.handle(ClientEvent::Written);
    assert!(matches!(step.next, ClientAction::Read));
    bytes
}

#[test]
fn task_completes_with_shutdown_error_when_sender_dropped() {
    let mut client = ClientLoop::new();
    let step = client.handle(ClientEvent::QueueClosed);
    assert!(step.done.is_none());
    assert!(matches!(step.next, ClientAction::Stop(SessionError::Shutdown)));
    assert_eq!(client.current_phase(), Phase::Stopped);
}

#[test]
fn returns_timeout_when_no_response() {
    let mut client = ClientLoop::new();
    let bytes = send(&mut client, read_coils(7, 2, 0));
    assert_eq!(bytes, framed(0, &[0x01, 0x00, 0x07, 0x00, 0x02]));

    let step = client.handle(ClientEvent::DeadlineElapsed);
    assert!(matches!(step.next, ClientAction::Receive));
    let reply = step.done.unwrap().into_reply();
    assert_eq!(reply, Some(Err(Error::ResponseTimeout)));

    let step = client.handle(ClientEvent::QueueClosed);
    assert!(matches!(step.next, ClientAction::Stop(SessionError::Shutdown)));
}

#[test]
fn framing_errors_kill_the_session() {
    let mut client = ClientLoop::new();
    let bytes = send(&mut client, read_coils(7, 2, 5000));
    assert_eq!(bytes, framed(0, &[0x01, 0x00, 0x07, 0x00, 0x02]));

    let step = client.handle(ClientEvent::Data(vec![0x00, 0x00, 0xCA, 0xFE, 0x00, 0x01, 0x01]));
    assert!(matches!(step.next, ClientAction::Stop(SessionError::BadFrame)));
    let reply = step.done.unwrap().into_reply();
    assert_eq!(
        reply,
        Some(Err(Error::BadFrame(FrameParseError::UnknownProtocolId(0xCAFE))))
    );
}

#[test]
fn transmit_read_coils_when_requested() {
    let mut client = ClientLoop::new();
    let bytes = send(&mut client, read_coils(7, 2, 1000));
    assert_eq!(bytes, framed(0, &[0x01, 0x00, 0x07, 0x00, 0x02]));

    let response = framed(0, &[0x01, 0x01, 0x01]);
    assert_eq!(response, vec![0, 0, 0, 0, 0, 4, 1, 1, 1, 1]);
    let step = client.handle(ClientEvent::Data(response));
    assert!(matches!(step.next, ClientAction::Receive));
    let reply = step.done.unwrap().into_reply();
    assert_eq!(
        reply,
        Some(Ok(Response::Bits(vec![Indexed::new(7, true), Indexed::new(8, false)])))
    );

    let step = client.handle(ClientEvent::QueueClosed);
    assert!(matches!(step.next, ClientAction::Stop(SessionError::Shutdown)));
}

#[test]
fn reply_split_across_reads_is_reassembled() {
    let mut client = ClientLoop::new();
    send(&mut client, read_coils(7, 2, 1000));
    let response = framed(0, &[0x01, 0x01, 0x01]);
    let step = client.handle(ClientEvent::Data(response[..4].to_vec()));
    assert!(step.done.is_none());
    assert!(matches!(step.next, ClientAction::Read));
    let step = client.handle(ClientEvent::Data(response[4..].to_vec()));
    let reply = step.done.unwrap().into_reply();
    assert_eq!(
        reply,
        Some(Ok(Response::Bits(vec![Indexed::new(7, true), Indexed::new(8, false)])))
    );
}

#[test]
fn stale_frame_is_discarded() {
    let mut client = ClientLoop::new();
    send(&mut client, read_coils(7, 2, 0));
    let step = client.handle(ClientEvent::DeadlineElapsed);
    assert_eq!(step.done.unwrap().into_reply(), Some(Err(Error::ResponseTimeout)));

    // the second request carries id 1; a late reply to id 0 comes first
    let bytes = send(&mut client, read_coils(0, 1, 1000));
    assert_eq!(bytes, framed(1, &[0x01, 0x00, 0x00, 0x00, 0x01]));
    let step = client.handle(ClientEvent::Data(framed(0, &[0x01, 0x01, 0x03])));
    assert!(step.done.is_none());
    assert!(matches!(step.next, ClientAction::Read));
    let step = client.handle(ClientEvent::Data(framed(1, &[0x01, 0x01, 0x00])));
    assert_eq!(
        step.done.unwrap().into_reply(),
        Some(Ok(Response::Bits(vec![Indexed::new(0, false)])))
    );
}

#[test]
fn tx_ids_increase_per_request() {
    let mut client = ClientLoop::new();
    for tx in 0u16..3 {
        let bytes = send(&mut client, read_coils(0, 1, 0));
        assert_eq!(bytes[0..2], [0, tx as u8]);
        let step = client.handle(ClientEvent::DeadlineElapsed);
        assert!(step.done.unwrap().is_resolved());
    }
}

#[test]
fn tx_id_wraps_to_zero() {
    let mut t = TxId::new(0xFFFF);
    assert_eq!(t.next(), TxId::new(0xFFFF));
    assert_eq!(t, TxId::new(0));
}

#[test]
fn exception_reply_resolves_without_killing_session() {
    let mut client = ClientLoop::new();
    send(&mut client, read_coils(7, 2, 1000));
    let step = client.handle(ClientEvent::Data(framed(0, &[0x81, 0x02])));
    assert!(matches!(step.next, ClientAction::Receive));
    assert_eq!(
        step.done.unwrap().into_reply(),
        Some(Err(Error::ExceptionResponse(Exception::IllegalDataAddress)))
    );
}

#[test]
fn mismatched_function_is_a_protocol_error() {
    let mut client = ClientLoop::new();
    send(&mut client, read_coils(7, 2, 1000));
    let step = client.handle(ClientEvent::Data(framed(0, &[0x03, 0x02, 0x00, 0x01])));
    assert!(matches!(step.next, ClientAction::Receive));
    assert_eq!(
        step.done.unwrap().into_reply(),
        Some(Err(Error::ProtocolError(ProtocolError::UnexpectedFunction(0x03))))
    );
}

#[test]
fn io_errors_kill_the_session() {
    let mut client = ClientLoop::new();
    let step = client.handle(ClientEvent::Request(read_coils(7, 2, 1000)));
    assert!(matches!(step.next, ClientAction::Write { .. }));
    let step = client.handle(ClientEvent::WriteFailed);
    assert!(matches!(step.next, ClientAction::Stop(SessionError::IoError)));
    assert_eq!(step.done.unwrap().into_reply(), Some(Err(Error::Io)));

    let mut client = ClientLoop::new();
    send(&mut client, read_coils(7, 2, 1000));
    let step = client.handle(ClientEvent::ReadFailed);
    assert!(matches!(step.next, ClientAction::Stop(SessionError::IoError)));
    assert_eq!(step.done.unwrap().into_reply(), Some(Err(Error::Io)));
}

#[test]
fn drain_fails_requests_with_no_connection() {
    let step = ClientLoop::drain(DrainEvent::Request(read_coils(0, 1, 0)));
    assert_eq!(step.outcome, DrainOutcome::Continue);
    assert_eq!(step.done.unwrap().into_reply(), Some(Err(Error::NoConnection)));
    assert_eq!(ClientLoop::drain(DrainEvent::QueueClosed).outcome, DrainOutcome::Closed);
    assert_eq!(ClientLoop::drain(DrainEvent::DeadlineElapsed).outcome, DrainOutcome::Elapsed);
}

#[test]
fn fail_resolves_only_once() {
    let mut q = read_coils(0, 1, 0);
    assert!(!q.is_resolved());
    q.fail(Error::ResponseTimeout);
    q.fail(Error::Io);
    q.handle_response(&[0x01, 0x01, 0x01]);
    assert_eq!(q.into_reply(), Some(Err(Error::ResponseTimeout)));
}

#[test]
fn session_error_from_error() {
    assert_eq!(SessionError::from(&Error::Io), Some(SessionError::IoError));
    assert_eq!(
        SessionError::from(&Error::BadFrame(FrameParseError::FrameLengthInvalid(0))),
        Some(SessionError::BadFrame)
    );
    assert_eq!(SessionError::from(&Error::ResponseTimeout), None);
    assert_eq!(SessionError::from(&Error::NoConnection), None);
}

#[test]
fn invalid_ranges_are_rejected() {
    assert_eq!(AddressRange::try_from(0, 0), Err(ProtocolError::BadRange));
    assert_eq!(AddressRange::try_from(65535, 2), Err(ProtocolError::BadRange));
    assert!(AddressRange::try_from(65535, 1).is_ok());
    let range = AddressRange::try_from(0, 2001).unwrap();
    assert!(Request::new(UnitId::new(1), 0, RequestDetails::ReadCoils(range)).is_err());
}
