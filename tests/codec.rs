use gatt_mux::att::{decode, encode, encode_pdu, AttPdu, CodecError};

#[test]
fn read_request_bytes_are_little_endian() {
    let b = encode_pdu(&AttPdu::ReadRequest { handle: 0x1234 });
    assert_eq!(b, vec![0x0A, 0x34, 0x12]);
}

#[test]
fn error_response_bytes() {
    let b = encode_pdu(&AttPdu::ErrorResponse { request_opcode: 0x0A, handle: 0x0003, error_code: 0x01 });
    assert_eq!(b, vec![0x01, 0x0A, 0x03, 0x00, 0x01]);
}

#[test]
fn round_trip_of_each_kind() {
    let pdus = vec![
        AttPdu::ErrorResponse { request_opcode: 0x12, handle: 0xBEEF, error_code: 0x03 },
        AttPdu::ExchangeMtuRequest { mtu: 517 },
        AttPdu::ExchangeMtuResponse { mtu: 23 },
        AttPdu::ReadRequest { handle: 7 },
        AttPdu::ReadResponse { value: vec![1, 2, 3] },
        AttPdu::ReadBlobRequest { handle: 7, offset: 300 },
        AttPdu::ReadBlobResponse { value: vec![] },
        AttPdu::WriteRequest { handle: 9, value: vec![0xFF; 10] },
        AttPdu::WriteResponse,
        AttPdu::WriteCommand { handle: 0xFFFF, value: vec![5] },
        AttPdu::HandleValueNotification { handle: 3, value: vec![9, 8] },
        AttPdu::HandleValueIndication { handle: 3, value: vec![] },
        AttPdu::HandleValueConfirmation,
        AttPdu::Other { opcode: 0x10, params: vec![0x01, 0x00, 0xFF, 0xFF, 0x00, 0x28] },
        AttPdu::Other { opcode: 0x19, params: vec![] },
    ];
    for p in pdus {
        let b = encode(&p, 23).unwrap();
        assert_eq!(decode(&b), Ok(p));
    }
}

#[test]
fn decode_empty_is_truncated() {
    assert_eq!(decode(&[]), Err(CodecError::TruncatedPdu { opcode: 0 }));
}

#[test]
fn decode_short_read_request_is_truncated() {
    assert_eq!(decode(&[0x0A, 0x01]), Err(CodecError::TruncatedPdu { opcode: 0x0A }));
}

#[test]
fn decode_unknown_opcode() {
    assert_eq!(decode(&[0x7F, 0, 0]), Err(CodecError::UnknownOpcode { opcode: 0x7F }));
}

#[test]
fn decode_write_request_takes_rest_as_value() {
    assert_eq!(
        decode(&[0x12, 0x05, 0x00, 0xAA, 0xBB]),
        Ok(AttPdu::WriteRequest { handle: 5, value: vec![0xAA, 0xBB] })
    );
}

#[test]
fn encode_over_mtu_fails() {
    let p = AttPdu::HandleValueNotification { handle: 1, value: vec![0; 21] };
    assert_eq!(encode(&p, 23), Err(CodecError::ExceedsMtu { length: 24, mtu: 23 }));
    let q = AttPdu::HandleValueNotification { handle: 1, value: vec![0; 20] };
    assert_eq!(encode(&q, 23).unwrap().len(), 23);
}

#[test]
fn decode_defined_unmodeled_opcode_is_opaque() {
    assert_eq!(
        decode(&[0x08, 0x01, 0x00, 0xFF, 0xFF, 0x03, 0x28]),
        Ok(AttPdu::Other { opcode: 0x08, params: vec![0x01, 0x00, 0xFF, 0xFF, 0x03, 0x28] })
    );
    assert_eq!(decode(&[0xD2, 0x01]), Ok(AttPdu::Other { opcode: 0xD2, params: vec![0x01] }));
}
