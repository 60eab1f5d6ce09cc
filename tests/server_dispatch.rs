use std::cell::Cell;

use rodbus::error::Exception;
use rodbus::frame::{format_frame, FrameHeader};
use rodbus::pdu::AddressRange;
use rodbus::server::{
    bits_reply_from, dispatch, read_addresses, registers_reply_from, write_reply, BitRead, DeviceMap,
    RegisterRead, RequestHandler, ServerSession,
};
use rodbus::types::{TxId, UnitId};

struct Device {
    coil: bool,
    writes: Cell<u32>,
}

impl Device {
    fn new(coil: bool) -> Self {
        Device { coil, writes: Cell::new(0) }
    }
}

impl RequestHandler for Device {
    fn read_coil(&self, index: u16) -> BitRead {
        if index == 0 {
            BitRead { success: true, value: self.coil, exception: None }
        } else {
            BitRead { success: false, value: false, exception: None }
        }
    }

    fn read_discrete_input(&self, _index: u16) -> BitRead {
        BitRead { success: false, value: false, exception: Some(Exception::ServerDeviceBusy) }
    }

    fn read_holding_register(&self, index: u16) -> RegisterRead {
        RegisterRead { success: true, value: index * 2, exception: None }
    }

    fn read_input_register(&self, _index: u16) -> RegisterRead {
        RegisterRead { success: true, value: 0, exception: None }
    }

    fn write_single_coil(&self, _value: bool, index: u16) -> bool {
        self.writes.set(self.writes.get() + 1);
        index == 0
    }

    fn write_single_register(&self, _value: u16, _index: u16) -> bool {
        true
    }

    fn write_multiple_coils(&self, _start: u16, values: &[bool]) -> bool {
        values.len() == 3
    }

    fn write_multiple_registers(&self, _start: u16, _values: &[u16]) -> bool {
        false
    }

    fn destroy(&self) {}
}

#[test]
fn server_dispatch_read_coil() {
    let mut map = DeviceMap::new();
    assert!(map.add_endpoint(1, Device::new(true)));
    let reply = dispatch(map.get(1), &[0x01, 0x00, 0x00, 0x00, 0x01]);
    assert_eq!(reply, vec![0x01, 0x01, 0x01]);
}

#[test]
fn server_session_answers_framed_request() {
    let mut map = DeviceMap::new();
    assert!(map.add_endpoint(1, Device::new(true)));
    let mut session = ServerSession::new(&mut map);
    assert!(map.get(1).is_none());
    let header = FrameHeader::new(UnitId::new(1), TxId::new(9));
    session.push(&format_frame(header, &[0x01, 0x00, 0x00, 0x00, 0x01]).unwrap());
    let reply = session.next_reply().unwrap().unwrap();
    assert_eq!(reply, format_frame(header, &[0x01, 0x01, 0x01]).unwrap());
    assert!(session.next_reply().unwrap().is_none());
    session.close();
}

#[test]
fn duplicate_add_endpoint_keeps_first() {
    let mut map = DeviceMap::new();
    assert!(map.add_endpoint(1, Device::new(true)));
    assert!(!map.add_endpoint(1, Device::new(false)));
    let reply = dispatch(map.get(1), &[0x01, 0x00, 0x00, 0x00, 0x01]);
    assert_eq!(reply, vec![0x01, 0x01, 0x01]);
}

#[test]
fn unknown_unit_gets_gateway_exception() {
    let map: DeviceMap<Device> = DeviceMap::new();
    assert_eq!(dispatch(map.get(7), &[0x01, 0x00, 0x00, 0x00, 0x01]), vec![0x81, 11]);
}

#[test]
fn dispatch_exceptions() {
    let d = Device::new(true);
    // unknown function code
    assert_eq!(dispatch(Some(&d), &[0x2B, 0x0E]), vec![0xAB, 1]);
    // malformed request
    assert_eq!(dispatch(Some(&d), &[0x01, 0x00]), vec![0x81, 3]);
    // failed read without an exception defaults to IllegalDataAddress
    assert_eq!(dispatch(Some(&d), &[0x01, 0x00, 0x00, 0x00, 0x02]), vec![0x81, 2]);
    // failed read with its own exception
    assert_eq!(dispatch(Some(&d), &[0x02, 0x00, 0x00, 0x00, 0x01]), vec![0x82, 6]);
    // failed write
    assert_eq!(dispatch(Some(&d), &[0x05, 0x00, 0x01, 0xFF, 0x00]), vec![0x85, 2]);
    assert_eq!(dispatch(Some(&d), &[0x10, 0x00, 0x01, 0x00, 0x01, 0x02, 0x00, 0x05]), vec![0x90, 2]);
}

#[test]
fn dispatch_writes_and_registers() {
    let d = Device::new(true);
    assert_eq!(dispatch(Some(&d), &[0x05, 0x00, 0x00, 0xFF, 0x00]), vec![0x05, 0x00, 0x00, 0xFF, 0x00]);
    assert_eq!(d.writes.get(), 1);
    assert_eq!(
        dispatch(Some(&d), &[0x0F, 0x00, 0x04, 0x00, 0x03, 0x01, 0x05]),
        vec![0x0F, 0x00, 0x04, 0x00, 0x03]
    );
    assert_eq!(dispatch(Some(&d), &[0x03, 0x00, 0x02, 0x00, 0x02]), vec![0x03, 0x04, 0x00, 0x04, 0x00, 0x06]);
}

#[test]
fn bits_reply_from_answers() {
    let ok = |value| BitRead { success: true, value, exception: None };
    assert_eq!(bits_reply_from(1, &[ok(true), ok(false), ok(true)]), vec![1, 1, 0b101]);
    let failed = BitRead { success: false, value: true, exception: Some(Exception::ServerDeviceFailure) };
    assert_eq!(bits_reply_from(2, &[ok(true), failed, ok(true)]), vec![0x82, 4]);
    let bare = BitRead { success: false, value: false, exception: None };
    assert_eq!(bits_reply_from(1, &[bare]), vec![0x81, 2]);
}

#[test]
fn registers_reply_from_answers() {
    let ok = |value| RegisterRead { success: true, value, exception: None };
    assert_eq!(registers_reply_from(3, &[ok(0x0102), ok(0xFFEE)]), vec![3, 4, 1, 2, 0xFF, 0xEE]);
    let failed = RegisterRead { success: false, value: 0, exception: None };
    assert_eq!(registers_reply_from(4, &[ok(1), failed]), vec![0x84, 2]);
}

#[test]
fn write_reply_echo_or_exception() {
    assert_eq!(write_reply(6, vec![6, 0, 1, 0, 2], true), vec![6, 0, 1, 0, 2]);
    assert_eq!(write_reply(6, vec![6, 0, 1, 0, 2], false), vec![0x86, 2]);
}

#[test]
fn read_addresses_cover_range() {
    let r = AddressRange::try_from(65533, 3).unwrap();
    assert_eq!(read_addresses(r), vec![65533, 65534, 65535]);
}

#[test]
fn device_map_take_empties_map() {
    let mut map = DeviceMap::new();
    assert!(map.add_endpoint(4, Device::new(false)));
    let taken = map.take();
    assert!(map.get(4).is_none());
    assert!(taken.get(4).is_some());
    assert!(map.add_endpoint(4, Device::new(true)));
}
