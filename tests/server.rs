use gatt_mux::database::{
    Characteristic, GattDatabase, Service, PROP_INDICATE, PROP_NOTIFY, PROP_READ, PROP_WRITE, PROP_WRITE_NO_RESPONSE,
};
use gatt_mux::att::CodecError;
use gatt_mux::server::{
    Connection, Continuation, Dispatch, Failure, PendingIndication, SendError, ServerEvent, TransactionError,
    DEFAULT_INDICATION_TIMEOUT_MS,
};

/// Handles 1..=10 are the native side's; one platform service holds 11..=13.
fn native_and_platform() -> GattDatabase {
    let mut db = GattDatabase::with_native_handles(10);
    let s = db.register_server().unwrap();
    let svc = Service {
        uuid: 0x1234,
        characteristics: vec![Characteristic { uuid: 0x5678, properties: PROP_READ, value: vec![1], descriptors: vec![] }],
    };
    db.add_service(s, &svc).unwrap();
    db
}

/// A database with one service whose only characteristic's value is at handle 3.
fn setup(properties: u8, value: Vec<u8>) -> GattDatabase {
    let mut db = GattDatabase::new();
    let s = db.register_server().unwrap();
    let svc = Service {
        uuid: 0x1234,
        characteristics: vec![Characteristic { uuid: 0x5678, properties, value, descriptors: vec![] }],
    };
    db.add_service(s, &svc).unwrap();
    db
}

#[test]
fn read_request_returns_value() {
    let mut db = setup(PROP_READ, vec![0x01, 0x02]);
    let mut c = Connection::new(DEFAULT_INDICATION_TIMEOUT_MS);
    assert_eq!(c.on_inbound(&mut db, &[0x0A, 0x03, 0x00]), Dispatch::ReplyAndDeliver(vec![0x0B, 0x01, 0x02], ServerEvent::CharacteristicReadRequest { handle: 3, offset: 0, status: 0 }));
    assert_eq!(c.continuation(), None);
}

#[test]
fn long_read_continues_with_read_blob() {
    let value: Vec<u8> = (0..30u8).collect();
    let mut db = setup(PROP_READ, value.clone());
    let mut c = Connection::new(DEFAULT_INDICATION_TIMEOUT_MS);
    assert_eq!(c.on_mtu_negotiated(23), 23);
    let mut first = vec![0x0B];
    first.extend_from_slice(&value[..22]);
    assert_eq!(c.on_inbound(&mut db, &[0x0A, 0x03, 0x00]), Dispatch::ReplyAndDeliver(first, ServerEvent::CharacteristicReadRequest { handle: 3, offset: 0, status: 0 }));
    assert_eq!(c.continuation(), Some(Continuation { handle: 3, offset: 22 }));
    let mut rest = vec![0x0D];
    rest.extend_from_slice(&value[22..]);
    assert_eq!(c.on_inbound(&mut db, &[0x0C, 0x03, 0x00, 22, 0x00]), Dispatch::ReplyAndDeliver(rest, ServerEvent::CharacteristicReadRequest { handle: 3, offset: 22, status: 0 }));
    assert_eq!(c.continuation(), None);
}

#[test]
fn read_blob_past_end_is_invalid_offset() {
    let mut db = setup(PROP_READ, vec![1, 2, 3]);
    let mut c = Connection::new(DEFAULT_INDICATION_TIMEOUT_MS);
    assert_eq!(
        c.on_inbound(&mut db, &[0x0C, 0x03, 0x00, 4, 0x00]),
        Dispatch::ReplyAndDeliver(vec![0x01, 0x0C, 0x03, 0x00, 0x07], ServerEvent::CharacteristicReadRequest { handle: 3, offset: 4, status: 0x07 })
    );
}

#[test]
fn read_not_permitted() {
    let mut db = setup(PROP_WRITE, vec![1]);
    let mut c = Connection::new(DEFAULT_INDICATION_TIMEOUT_MS);
    assert_eq!(c.on_inbound(&mut db, &[0x0A, 0x03, 0x00]), Dispatch::ReplyAndDeliver(vec![0x01, 0x0A, 0x03, 0x00, 0x02], ServerEvent::CharacteristicReadRequest { handle: 3, offset: 0, status: 0x02 }));
    // A declaration is not served by reads.
    assert_eq!(c.on_inbound(&mut db, &[0x0A, 0x02, 0x00]), Dispatch::ReplyAndDeliver(vec![0x01, 0x0A, 0x02, 0x00, 0x02], ServerEvent::CharacteristicReadRequest { handle: 2, offset: 0, status: 0x02 }));
}

#[test]
fn foreign_handle_goes_to_native() {
    let mut db = setup(PROP_READ, vec![1]);
    let mut c = Connection::new(DEFAULT_INDICATION_TIMEOUT_MS);
    assert_eq!(c.on_inbound(&mut db, &[0x0A, 0x00, 0x01]), Dispatch::ToNative);
    assert_eq!(c.on_inbound(&mut db, &[0x0B, 0x09]), Dispatch::ToNative);
    assert_eq!(c.on_inbound(&mut db, &[0x1B, 0x03, 0x00, 0x01]), Dispatch::ToNative);
    // No indication is pending, so a confirmation is the native side's.
    assert_eq!(c.on_inbound(&mut db, &[0x1E]), Dispatch::ToNative);
}

#[test]
fn malformed_request_gets_error_response() {
    let mut db = setup(PROP_READ, vec![1]);
    let mut c = Connection::new(DEFAULT_INDICATION_TIMEOUT_MS);
    assert_eq!(c.on_inbound(&mut db, &[0x0A, 0x03]), Dispatch::Reply(vec![0x01, 0x0A, 0x00, 0x00, 0x04]));
    assert_eq!(c.on_inbound(&mut db, &[0x3E]), Dispatch::Reply(vec![0x01, 0x3E, 0x00, 0x00, 0x06]));
    // Commands are never answered.
    assert_eq!(c.on_inbound(&mut db, &[0x7E, 0x00]), Dispatch::Ignore);
    // A truncated command is no request: it is left to the native side.
    assert_eq!(c.on_inbound(&mut db, &[0x52, 0x03]), Dispatch::ToNative);
    assert_eq!(c.on_inbound(&mut db, &[]), Dispatch::Ignore);
}

#[test]
fn write_request_waits_for_application() {
    let mut db = setup(PROP_READ | PROP_WRITE, vec![1]);
    let mut c = Connection::new(DEFAULT_INDICATION_TIMEOUT_MS);
    assert_eq!(
        c.on_inbound(&mut db, &[0x12, 0x03, 0x00, 0x07, 0x08]),
        Dispatch::Deliver(ServerEvent::WriteRequest { transaction_id: 0, handle: 3, value: vec![7, 8] })
    );
    assert_eq!(c.pending_transaction(), Some(0));
    assert_eq!(c.send_response(&mut db, 5, 0), Err(TransactionError::UnknownTransaction));
    assert_eq!(c.send_response(&mut db, 0, 0), Ok(vec![0x13]));
    assert_eq!(c.pending_transaction(), None);
    assert_eq!(db.lookup(3).unwrap().value, vec![7, 8]);
    assert_eq!(
        c.on_inbound(&mut db, &[0x12, 0x03, 0x00, 0x09]),
        Dispatch::Deliver(ServerEvent::WriteRequest { transaction_id: 1, handle: 3, value: vec![9] })
    );
    assert_eq!(c.send_response(&mut db, 1, 0x80), Ok(vec![0x01, 0x12, 0x03, 0x00, 0x80]));
    assert_eq!(db.lookup(3).unwrap().value, vec![7, 8]);
}

#[test]
fn second_request_while_one_is_pending_is_not_served() {
    let mut db = setup(PROP_READ | PROP_WRITE, vec![1]);
    let mut c = Connection::new(DEFAULT_INDICATION_TIMEOUT_MS);
    assert!(matches!(c.on_inbound(&mut db, &[0x12, 0x03, 0x00, 0x07]), Dispatch::Deliver(_)));
    assert_eq!(c.on_inbound(&mut db, &[0x0A, 0x03, 0x00]), Dispatch::Ignore);
    assert_eq!(c.on_inbound(&mut db, &[0x12, 0x03, 0x00, 0x08]), Dispatch::Ignore);
    assert_eq!(c.pending_transaction(), Some(0));
    assert_eq!(c.send_response(&mut db, 0, 0), Ok(vec![0x13]));
    assert_eq!(c.on_inbound(&mut db, &[0x0A, 0x03, 0x00]), Dispatch::ReplyAndDeliver(vec![0x0B, 0x07], ServerEvent::CharacteristicReadRequest { handle: 3, offset: 0, status: 0 }));
}

#[test]
fn write_not_permitted() {
    let mut db = setup(PROP_READ, vec![1]);
    let mut c = Connection::new(DEFAULT_INDICATION_TIMEOUT_MS);
    assert_eq!(
        c.on_inbound(&mut db, &[0x12, 0x03, 0x00, 0x07]),
        Dispatch::Reply(vec![0x01, 0x12, 0x03, 0x00, 0x03])
    );
    assert_eq!(c.pending_transaction(), None);
}

#[test]
fn write_command_is_stored_without_response() {
    let mut db = setup(PROP_READ | PROP_WRITE_NO_RESPONSE, vec![1]);
    let mut c = Connection::new(DEFAULT_INDICATION_TIMEOUT_MS);
    assert_eq!(
        c.on_inbound(&mut db, &[0x52, 0x03, 0x00, 0x05, 0x06]),
        Dispatch::Deliver(ServerEvent::WriteCommand { handle: 3, value: vec![5, 6] })
    );
    assert_eq!(db.lookup(3).unwrap().value, vec![5, 6]);
    let mut db2 = setup(PROP_READ, vec![1]);
    assert_eq!(c.on_inbound(&mut db2, &[0x52, 0x03, 0x00, 0x05]), Dispatch::Ignore);
    assert_eq!(db2.lookup(3).unwrap().value, vec![1]);
}

#[test]
fn indication_timeout_frees_the_slot() {
    let db = setup(PROP_READ | PROP_INDICATE, vec![1]);
    let mut c = Connection::new(DEFAULT_INDICATION_TIMEOUT_MS);
    assert_eq!(c.send_notification(&db, 3, &vec![0xAA], true, 1000), Ok(vec![0x1D, 0x03, 0x00, 0xAA]));
    assert_eq!(c.pending_indication(), Some(PendingIndication { handle: 3, deadline: 31000 }));
    assert_eq!(c.send_notification(&db, 3, &vec![0xBB], true, 2000), Err(SendError::IndicationPending));
    assert_eq!(c.poll_timeout(30999), None);
    assert_eq!(
        c.poll_timeout(31000),
        Some(Failure::Indication { handle: 3, error: TransactionError::IndicationTimeout })
    );
    assert_eq!(c.pending_indication(), None);
    assert_eq!(c.send_notification(&db, 3, &vec![0xBB], true, 31001), Ok(vec![0x1D, 0x03, 0x00, 0xBB]));
}

#[test]
fn confirmation_resolves_indication() {
    let mut db = setup(PROP_READ | PROP_INDICATE, vec![1]);
    let mut c = Connection::new(DEFAULT_INDICATION_TIMEOUT_MS);
    c.send_notification(&db, 3, &vec![1], true, 0).unwrap();
    assert_eq!(c.on_inbound(&mut db, &[0x1E]), Dispatch::Deliver(ServerEvent::IndicationConfirmed { handle: 3 }));
    assert_eq!(c.pending_indication(), None);
}

#[test]
fn notification_needs_no_confirmation() {
    let db = setup(PROP_READ | PROP_NOTIFY, vec![1]);
    let mut c = Connection::new(DEFAULT_INDICATION_TIMEOUT_MS);
    assert_eq!(c.send_notification(&db, 3, &vec![1, 2], false, 0), Ok(vec![0x1B, 0x03, 0x00, 0x01, 0x02]));
    assert_eq!(c.send_notification(&db, 3, &vec![3], false, 0), Ok(vec![0x1B, 0x03, 0x00, 0x03]));
    assert_eq!(c.pending_indication(), None);
}

#[test]
fn notification_errors() {
    let db = setup(PROP_READ | PROP_NOTIFY, vec![1]);
    let mut c = Connection::new(DEFAULT_INDICATION_TIMEOUT_MS);
    assert_eq!(c.send_notification(&db, 2, &vec![1], false, 0), Err(SendError::InvalidHandle));
    assert_eq!(c.send_notification(&db, 40, &vec![1], false, 0), Err(SendError::InvalidHandle));
    assert_eq!(
        c.send_notification(&db, 3, &vec![0; 21], false, 0),
        Err(SendError::Codec(CodecError::ExceedsMtu { length: 24, mtu: 23 }))
    );
    assert_eq!(c.send_notification(&db, 3, &vec![1], true, 0), Err(SendError::NotPermitted));
    c.on_mtu_negotiated(64);
    assert!(c.send_notification(&db, 3, &vec![0; 21], false, 0).is_ok());
    let plain = setup(PROP_READ, vec![1]);
    assert_eq!(c.send_notification(&plain, 3, &vec![1], false, 0), Err(SendError::NotPermitted));
}

#[test]
fn mtu_below_minimum_counts_as_minimum() {
    let mut c = Connection::new(DEFAULT_INDICATION_TIMEOUT_MS);
    assert_eq!(c.on_mtu_negotiated(10), 23);
    assert_eq!(c.mtu(), 23);
    assert_eq!(c.on_mtu_negotiated(185), 185);
}

#[test]
fn disconnect_fails_pending_write_request() {
    let mut db = setup(PROP_READ | PROP_WRITE | PROP_INDICATE, vec![1]);
    let mut c = Connection::new(DEFAULT_INDICATION_TIMEOUT_MS);
    assert!(matches!(c.on_inbound(&mut db, &[0x12, 0x03, 0x00, 0x07]), Dispatch::Deliver(_)));
    c.send_notification(&db, 3, &vec![1], true, 0).unwrap();
    assert_eq!(
        c.on_disconnected(),
        vec![
            Failure::WriteRequest { transaction_id: 0, error: TransactionError::ConnectionLost },
            Failure::Indication { handle: 3, error: TransactionError::ConnectionLost },
        ]
    );
    assert!(!c.is_connected());
    assert_eq!(c.send_response(&mut db, 0, 0), Err(TransactionError::ConnectionLost));
    assert_eq!(db.lookup(3).unwrap().value, vec![1]);
    assert_eq!(c.on_inbound(&mut db, &[0x0A, 0x03, 0x00]), Dispatch::Ignore);
    assert_eq!(c.send_notification(&db, 3, &vec![1], false, 0), Err(SendError::NotConnected));
}

#[test]
fn service_changed_indication_carries_range() {
    let mut db = setup(PROP_READ | PROP_INDICATE, vec![]);
    let s = db.register_server().unwrap();
    let h = db
        .add_service(
            s,
            &Service {
                uuid: 0xFEED,
                characteristics: vec![Characteristic { uuid: 1, properties: PROP_READ, value: vec![], descriptors: vec![] }],
            },
        )
        .unwrap();
    let (start, end) = db.range_of(h).unwrap();
    assert_eq!((start, end), (4, 6));
    let mut c = Connection::new(DEFAULT_INDICATION_TIMEOUT_MS);
    assert_eq!(
        c.indicate_service_changed(&db, 3, start, end, 0),
        Ok(vec![0x1D, 0x03, 0x00, 0x04, 0x00, 0x06, 0x00])
    );
    assert_eq!(c.pending_indication(), Some(PendingIndication { handle: 3, deadline: DEFAULT_INDICATION_TIMEOUT_MS }));
    db.remove_service(h);
    assert_eq!(db.range_of(h), None);
}

#[test]
fn defined_opcodes_the_server_does_not_serve_go_to_native() {
    let mut db = native_and_platform();
    let mut c = Connection::new(DEFAULT_INDICATION_TIMEOUT_MS);
    // Discovery over the native side's handles 1..=10.
    assert_eq!(c.on_inbound(&mut db, &[0x10, 0x01, 0x00, 0x0A, 0x00, 0x00, 0x28]), Dispatch::ToNative);
    assert_eq!(c.on_inbound(&mut db, &[0x08, 0x01, 0x00, 0x0A, 0x00, 0x03, 0x28]), Dispatch::ToNative);
    assert_eq!(c.on_inbound(&mut db, &[0x04, 0x01, 0x00, 0x0A, 0x00]), Dispatch::ToNative);
    assert_eq!(c.on_inbound(&mut db, &[0x06, 0x01, 0x00, 0x0A, 0x00, 0x00, 0x28, 0x00, 0x18]), Dispatch::ToNative);
    // Responses to the native client's requests, and requests without handles.
    assert_eq!(c.on_inbound(&mut db, &[0x05, 0x01, 0x03, 0x00, 0x02, 0x29]), Dispatch::ToNative);
    assert_eq!(c.on_inbound(&mut db, &[0x09, 0x04, 0x0A, 0x00, 0x01, 0x02]), Dispatch::ToNative);
    assert_eq!(c.on_inbound(&mut db, &[0x11, 0x06, 0x01, 0x00, 0x05, 0x00, 0x00, 0x18]), Dispatch::ToNative);
    assert_eq!(c.on_inbound(&mut db, &[0x17, 0x03, 0x00, 0x00, 0x00]), Dispatch::ToNative);
    assert_eq!(c.on_inbound(&mut db, &[0x19]), Dispatch::ToNative);
    assert_eq!(c.on_inbound(&mut db, &[0x21, 0x01]), Dispatch::ToNative);
    assert_eq!(c.on_inbound(&mut db, &[0x18, 0x01]), Dispatch::ToNative);
}

#[test]
fn truncated_non_requests_are_not_answered() {
    let mut db = setup(PROP_READ, vec![1]);
    let mut c = Connection::new(DEFAULT_INDICATION_TIMEOUT_MS);
    assert_eq!(c.on_inbound(&mut db, &[0x01, 0x0A]), Dispatch::ToNative);
    assert_eq!(c.on_inbound(&mut db, &[0x1B, 0x03]), Dispatch::ToNative);
    assert_eq!(c.on_inbound(&mut db, &[0x1D]), Dispatch::ToNative);
    assert_eq!(c.on_inbound(&mut db, &[0x03, 0x17]), Dispatch::ToNative);
    // A truncated request is answered.
    assert_eq!(c.on_inbound(&mut db, &[0x12, 0x03]), Dispatch::Reply(vec![0x01, 0x12, 0x00, 0x00, 0x04]));
}

#[test]
fn prepare_write_on_platform_handle_is_refused() {
    let mut db = setup(PROP_READ | PROP_WRITE, vec![1]);
    let mut c = Connection::new(DEFAULT_INDICATION_TIMEOUT_MS);
    assert_eq!(
        c.on_inbound(&mut db, &[0x16, 0x03, 0x00, 0x00, 0x00, 0x01]),
        Dispatch::Reply(vec![0x01, 0x16, 0x03, 0x00, 0x06])
    );
    assert_eq!(c.on_inbound(&mut db, &[0x16, 0x40, 0x00, 0x00, 0x00, 0x01]), Dispatch::ToNative);
}

#[test]
fn native_handles_stay_with_native_side() {
    let mut db = GattDatabase::with_native_handles(10);
    let s = db.register_server().unwrap();
    let h = db
        .add_service(
            s,
            &Service {
                uuid: 0x1234,
                characteristics: vec![Characteristic { uuid: 1, properties: PROP_READ, value: vec![7], descriptors: vec![] }],
            },
        )
        .unwrap();
    assert_eq!(h.start, 11);
    assert!(db.lookup(10).is_none());
    let mut c = Connection::new(DEFAULT_INDICATION_TIMEOUT_MS);
    assert_eq!(c.on_inbound(&mut db, &[0x0A, 0x03, 0x00]), Dispatch::ToNative);
    assert_eq!(c.on_inbound(&mut db, &[0x0A, 0x0D, 0x00]), Dispatch::ReplyAndDeliver(vec![0x0B, 0x07], ServerEvent::CharacteristicReadRequest { handle: 13, offset: 0, status: 0 }));
}

#[test]
fn read_multiple_naming_platform_handle_is_refused() {
    let mut db = setup(PROP_READ, vec![1]);
    let mut c = Connection::new(DEFAULT_INDICATION_TIMEOUT_MS);
    assert_eq!(
        c.on_inbound(&mut db, &[0x0E, 0x40, 0x00, 0x03, 0x00]),
        Dispatch::Reply(vec![0x01, 0x0E, 0x03, 0x00, 0x06])
    );
    assert_eq!(
        c.on_inbound(&mut db, &[0x20, 0x02, 0x00, 0x03, 0x00]),
        Dispatch::Reply(vec![0x01, 0x20, 0x02, 0x00, 0x06])
    );
    assert_eq!(c.on_inbound(&mut db, &[0x0E, 0x40, 0x00, 0x41, 0x00]), Dispatch::ToNative);
}

#[test]
fn range_requests_naming_platform_handles_never_go_native() {
    let mut db = native_and_platform();
    let mut c = Connection::new(DEFAULT_INDICATION_TIMEOUT_MS);
    // The range lies inside the platform's handles.
    assert_eq!(
        c.on_inbound(&mut db, &[0x08, 0x0D, 0x00, 0x0D, 0x00, 0x03, 0x28]),
        Dispatch::Reply(vec![0x01, 0x08, 0x0D, 0x00, 0x06])
    );
    // The range spans both sides.
    assert_eq!(
        c.on_inbound(&mut db, &[0x10, 0x01, 0x00, 0xFF, 0xFF, 0x00, 0x28]),
        Dispatch::Reply(vec![0x01, 0x10, 0x01, 0x00, 0x06])
    );
    assert_eq!(c.on_inbound(&mut db, &[0x04, 0x0A, 0x00, 0x0B, 0x00]), Dispatch::Reply(vec![0x01, 0x04, 0x0A, 0x00, 0x06]));
    assert_eq!(
        c.on_inbound(&mut db, &[0x06, 0x0C, 0x00, 0x20, 0x00, 0x00, 0x28, 0x00, 0x18]),
        Dispatch::Reply(vec![0x01, 0x06, 0x0C, 0x00, 0x06])
    );
    // Past the platform's last handle.
    assert_eq!(c.on_inbound(&mut db, &[0x08, 0x0E, 0x00, 0xFF, 0xFF, 0x03, 0x28]), Dispatch::ToNative);
}

#[test]
fn unanswered_write_request_expires() {
    let mut db = setup(PROP_READ | PROP_WRITE, vec![1]);
    let mut c = Connection::new(DEFAULT_INDICATION_TIMEOUT_MS);
    assert!(matches!(c.on_inbound(&mut db, &[0x12, 0x03, 0x00, 0x07]), Dispatch::Deliver(_)));
    assert_eq!(c.expire_request(9), None);
    assert_eq!(
        c.expire_request(0),
        Some((
            Failure::WriteRequest { transaction_id: 0, error: TransactionError::ResponseTimeout },
            vec![0x01, 0x12, 0x03, 0x00, 0x0E]
        ))
    );
    assert_eq!(c.pending_transaction(), None);
    assert_eq!(c.expire_request(0), None);
    assert_eq!(c.send_response(&mut db, 0, 0), Err(TransactionError::UnknownTransaction));
    assert_eq!(db.lookup(3).unwrap().value, vec![1]);
    // The next request is served again.
    assert!(matches!(c.on_inbound(&mut db, &[0x0A, 0x03, 0x00]), Dispatch::ReplyAndDeliver(_, _)));
}

#[test]
fn service_changed_debt_is_cleared_only_when_sent() {
    // The Service Changed value is at handle 3 and allows indications.
    let mut db = setup(PROP_INDICATE, vec![]);
    assert!(db.connect_link(7));
    let s = db.register_server().unwrap();
    db.add_service(
        s,
        &Service {
            uuid: 0xFEED,
            characteristics: vec![Characteristic { uuid: 1, properties: PROP_READ, value: vec![], descriptors: vec![] }],
        },
    )
    .unwrap();
    let mut c = Connection::new(DEFAULT_INDICATION_TIMEOUT_MS);
    // A wrong handle fails, and the debt stays.
    assert_eq!(c.send_service_changed(&mut db, 7, 5, 0), Some(Err(SendError::InvalidHandle)));
    assert_eq!(db.service_changed_owed(7), Some((4, 6)));
    assert_eq!(c.send_service_changed(&mut db, 7, 3, 0), Some(Ok(vec![0x1D, 0x03, 0x00, 0x04, 0x00, 0x06, 0x00])));
    assert_eq!(db.service_changed_owed(7), None);
    assert_eq!(c.send_service_changed(&mut db, 7, 3, 0), None);
    // While an indication waits, nothing is taken.
    db.add_service(
        s,
        &Service {
            uuid: 0xFEEE,
            characteristics: vec![Characteristic { uuid: 2, properties: PROP_READ, value: vec![], descriptors: vec![] }],
        },
    )
    .unwrap();
    assert_eq!(c.send_service_changed(&mut db, 7, 3, 1), None);
    assert_eq!(db.service_changed_owed(7), Some((7, 9)));
}

#[test]
fn shared_path_serves_all_but_write_commands() {
    let mut db = setup(PROP_READ | PROP_WRITE_NO_RESPONSE, vec![1, 2]);
    let mut c = Connection::new(DEFAULT_INDICATION_TIMEOUT_MS);
    assert_eq!(
        c.on_inbound_shared(&db, &[0x0A, 0x03, 0x00]),
        Some(Dispatch::ReplyAndDeliver(vec![0x0B, 0x01, 0x02], ServerEvent::CharacteristicReadRequest { handle: 3, offset: 0, status: 0 }))
    );
    assert_eq!(c.on_inbound_shared(&db, &[0x52, 0x03, 0x00, 0x09]), None);
    assert_eq!(
        c.on_inbound(&mut db, &[0x52, 0x03, 0x00, 0x09]),
        Dispatch::Deliver(ServerEvent::WriteCommand { handle: 3, value: vec![9] })
    );
    assert_eq!(db.lookup(3).unwrap().value, vec![9]);
}
