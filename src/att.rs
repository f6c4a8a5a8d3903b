//! Encoding and decoding of Attribute Protocol PDUs.
use vstd::prelude::*;

verus! {

pub const OP_ERROR_RESPONSE: u8 = 0x01;
pub const OP_EXCHANGE_MTU_REQUEST: u8 = 0x02;
pub const OP_EXCHANGE_MTU_RESPONSE: u8 = 0x03;
pub const OP_READ_REQUEST: u8 = 0x0A;
pub const OP_READ_RESPONSE: u8 = 0x0B;
pub const OP_READ_BLOB_REQUEST: u8 = 0x0C;
pub const OP_READ_BLOB_RESPONSE: u8 = 0x0D;
pub const OP_WRITE_REQUEST: u8 = 0x12;
pub const OP_WRITE_RESPONSE: u8 = 0x13;
pub const OP_HANDLE_VALUE_NOTIFICATION: u8 = 0x1B;
pub const OP_HANDLE_VALUE_INDICATION: u8 = 0x1D;
pub const OP_HANDLE_VALUE_CONFIRMATION: u8 = 0x1E;
pub const OP_WRITE_COMMAND: u8 = 0x52;

/// ATT error codes carried by an Error Response.
pub const ERR_INVALID_HANDLE: u8 = 0x01;
pub const ERR_READ_NOT_PERMITTED: u8 = 0x02;
pub const ERR_WRITE_NOT_PERMITTED: u8 = 0x03;
pub const ERR_INVALID_PDU: u8 = 0x04;
pub const ERR_REQUEST_NOT_SUPPORTED: u8 = 0x06;
pub const ERR_INVALID_OFFSET: u8 = 0x07;
pub const ERR_UNLIKELY_ERROR: u8 = 0x0E;

/// The smallest MTU of an ATT bearer, and the one a link starts with.
pub const DEFAULT_MTU: u16 = 23;

/// One ATT PDU, opcode and parameters.
#[derive(Debug, Clone, PartialEq, Eq)]
pub enum AttPdu {
    ErrorResponse { request_opcode: u8, handle: u16, error_code: u8 },
    ExchangeMtuRequest { mtu: u16 },
    ExchangeMtuResponse { mtu: u16 },
    ReadRequest { handle: u16 },
    ReadResponse { value: Vec<u8> },
    ReadBlobRequest { handle: u16, offset: u16 },
    ReadBlobResponse { value: Vec<u8> },
    WriteRequest { handle: u16, value: Vec<u8> },
    WriteResponse,
    WriteCommand { handle: u16, value: Vec<u8> },
    HandleValueNotification { handle: u16, value: Vec<u8> },
    HandleValueIndication { handle: u16, value: Vec<u8> },
    HandleValueConfirmation,
    /// A PDU whose opcode ATT defines and this codec does not take apart:
    /// the opcode and the parameter bytes as they came.
    Other { opcode: u8, params: Vec<u8> },
}

/// The mathematical value of an [`AttPdu`]: byte vectors become sequences.
pub enum AttPduView {
    ErrorResponse { request_opcode: u8, handle: u16, error_code: u8 },
    ExchangeMtuRequest { mtu: u16 },
    ExchangeMtuResponse { mtu: u16 },
    ReadRequest { handle: u16 },
    ReadResponse { value: Seq<u8> },
    ReadBlobRequest { handle: u16, offset: u16 },
    ReadBlobResponse { value: Seq<u8> },
    WriteRequest { handle: u16, value: Seq<u8> },
    WriteResponse,
    WriteCommand { handle: u16, value: Seq<u8> },
    HandleValueNotification { handle: u16, value: Seq<u8> },
    HandleValueIndication { handle: u16, value: Seq<u8> },
    HandleValueConfirmation,
    Other { opcode: u8, params: Seq<u8> },
}

impl View for AttPdu {
    type V = AttPduView;

    open spec fn view(&self) -> AttPduView {
        match self {
            AttPdu::ErrorResponse { request_opcode, handle, error_code } => AttPduView::ErrorResponse {
                request_opcode: *request_opcode,
                handle: *handle,
                error_code: *error_code,
            },
            AttPdu::ExchangeMtuRequest { mtu } => AttPduView::ExchangeMtuRequest { mtu: *mtu },
            AttPdu::ExchangeMtuResponse { mtu } => AttPduView::ExchangeMtuResponse { mtu: *mtu },
            AttPdu::ReadRequest { handle } => AttPduView::ReadRequest { handle: *handle },
            AttPdu::ReadResponse { value } => AttPduView::ReadResponse { value: value@ },
            AttPdu::ReadBlobRequest { handle, offset } => AttPduView::ReadBlobRequest {
                handle: *handle,
                offset: *offset,
            },
            AttPdu::ReadBlobResponse { value } => AttPduView::ReadBlobResponse { value: value@ },
            AttPdu::WriteRequest { handle, value } => AttPduView::WriteRequest {
                handle: *handle,
                value: value@,
            },
            AttPdu::WriteResponse => AttPduView::WriteResponse,
            AttPdu::WriteCommand { handle, value } => AttPduView::WriteCommand {
                handle: *handle,
                value: value@,
            },
            AttPdu::HandleValueNotification { handle, value } => AttPduView::HandleValueNotification {
                handle: *handle,
                value: value@,
            },
            AttPdu::HandleValueIndication { handle, value } => AttPduView::HandleValueIndication {
                handle: *handle,
                value: value@,
            },
            AttPdu::HandleValueConfirmation => AttPduView::HandleValueConfirmation,
            AttPdu::Other { opcode, params } => AttPduView::Other { opcode: *opcode, params: params@ },
        }
    }
}

/// Why a byte buffer is not a PDU, or a PDU does not fit the link.
#[derive(Debug, Clone, Copy, PartialEq, Eq, Structural)]
pub enum CodecError {
    /// Fewer bytes than the opcode needs (an empty buffer has opcode 0 here).
    TruncatedPdu { opcode: u8 },
    /// An opcode that ATT does not define.
    UnknownOpcode { opcode: u8 },
    /// The encoded PDU is longer than the negotiated MTU.
    ExceedsMtu { length: usize, mtu: u16 },
}

/// Little-endian encoding of a 16-bit field.
pub open spec fn le16(v: u16) -> Seq<u8> {
    seq![(v % 256) as u8, (v / 256) as u8]
}

/// The 16-bit value of two little-endian bytes.
pub open spec fn from_le16(lo: u8, hi: u8) -> u16 {
    (lo as int + 256 * hi as int) as u16
}

/// The wire bytes of a PDU.
pub open spec fn encode_spec(p: AttPduView) -> Seq<u8> {
    match p {
        AttPduView::ErrorResponse { request_opcode, handle, error_code } => seq![
            OP_ERROR_RESPONSE,
            request_opcode,
        ] + le16(handle) + seq![error_code],
        AttPduView::ExchangeMtuRequest { mtu } => seq![OP_EXCHANGE_MTU_REQUEST] + le16(mtu),
        AttPduView::ExchangeMtuResponse { mtu } => seq![OP_EXCHANGE_MTU_RESPONSE] + le16(mtu),
        AttPduView::ReadRequest { handle } => seq![OP_READ_REQUEST] + le16(handle),
        AttPduView::ReadResponse { value } => seq![OP_READ_RESPONSE] + value,
        AttPduView::ReadBlobRequest { handle, offset } => seq![OP_READ_BLOB_REQUEST] + le16(handle)
            + le16(offset),
        AttPduView::ReadBlobResponse { value } => seq![OP_READ_BLOB_RESPONSE] + value,
        AttPduView::WriteRequest { handle, value } => seq![OP_WRITE_REQUEST] + le16(handle) + value,
        AttPduView::WriteResponse => seq![OP_WRITE_RESPONSE],
        AttPduView::WriteCommand { handle, value } => seq![OP_WRITE_COMMAND] + le16(handle) + value,
        AttPduView::HandleValueNotification { handle, value } => seq![OP_HANDLE_VALUE_NOTIFICATION]
            + le16(handle) + value,
        AttPduView::HandleValueIndication { handle, value } => seq![OP_HANDLE_VALUE_INDICATION]
            + le16(handle) + value,
        AttPduView::HandleValueConfirmation => seq![OP_HANDLE_VALUE_CONFIRMATION],
        AttPduView::Other { opcode, params } => seq![opcode] + params,
    }
}

/// The least length of a PDU with the given opcode, or 0 for an unknown opcode.
pub open spec fn min_len(opcode: u8) -> nat {
    if opcode == OP_ERROR_RESPONSE {
        5
    } else if opcode == OP_EXCHANGE_MTU_REQUEST || opcode == OP_EXCHANGE_MTU_RESPONSE
        || opcode == OP_READ_REQUEST || opcode == OP_WRITE_REQUEST || opcode == OP_WRITE_COMMAND
        || opcode == OP_HANDLE_VALUE_NOTIFICATION || opcode == OP_HANDLE_VALUE_INDICATION {
        3
    } else if opcode == OP_READ_BLOB_REQUEST {
        5
    } else if opcode == OP_READ_RESPONSE || opcode == OP_READ_BLOB_RESPONSE
        || opcode == OP_WRITE_RESPONSE || opcode == OP_HANDLE_VALUE_CONFIRMATION {
        1
    } else {
        0
    }
}

/// The opcodes whose parameters this codec takes apart.
pub open spec fn is_modeled_opcode(opcode: u8) -> bool {
    min_len(opcode) > 0
}

/// The opcodes that ATT defines.
pub open spec fn is_defined_opcode(op: u8) -> bool {
    (0x01 <= op <= 0x13) || (0x16 <= op <= 0x19) || op == 0x1B || op == 0x1D || op == 0x1E || op == 0x20
        || op == 0x21 || op == 0x23 || op == 0x52 || op == 0xD2
}

/// ATT request opcodes: each expects one response from the other side.
pub open spec fn is_request_opcode(op: u8) -> bool {
    op == 0x02 || op == 0x04 || op == 0x06 || op == 0x08 || op == 0x0A || op == 0x0C || op == 0x0E
        || op == 0x10 || op == 0x12 || op == 0x16 || op == 0x18 || op == 0x20
}

/// ATT response opcodes, the Error Response included.
pub open spec fn is_response_opcode(op: u8) -> bool {
    op == 0x01 || op == 0x03 || op == 0x05 || op == 0x07 || op == 0x09 || op == 0x0B || op == 0x0D
        || op == 0x0F || op == 0x11 || op == 0x13 || op == 0x17 || op == 0x19 || op == 0x21
}

pub fn defined_opcode(op: u8) -> (r: bool)
    ensures
        r == is_defined_opcode(op),
{
    (0x01 <= op && op <= 0x13) || (0x16 <= op && op <= 0x19) || op == 0x1B || op == 0x1D || op == 0x1E
        || op == 0x20 || op == 0x21 || op == 0x23 || op == 0x52 || op == 0xD2
}

pub fn request_opcode(op: u8) -> (r: bool)
    ensures
        r == is_request_opcode(op),
{
    op == 0x02 || op == 0x04 || op == 0x06 || op == 0x08 || op == 0x0A || op == 0x0C || op == 0x0E
        || op == 0x10 || op == 0x12 || op == 0x16 || op == 0x18 || op == 0x20
}

pub fn response_opcode(op: u8) -> (r: bool)
    ensures
        r == is_response_opcode(op),
{
    op == 0x01 || op == 0x03 || op == 0x05 || op == 0x07 || op == 0x09 || op == 0x0B || op == 0x0D
        || op == 0x0F || op == 0x11 || op == 0x13 || op == 0x17 || op == 0x19 || op == 0x21
}

/// A PDU that encoding and decoding carry through unchanged: an opaque PDU
/// must have an opcode that ATT defines and this codec does not take apart.
pub open spec fn representable(p: AttPduView) -> bool {
    p matches AttPduView::Other { opcode, .. } ==> is_defined_opcode(opcode) && !is_modeled_opcode(opcode)
}

/// What a byte buffer decodes to. Bytes past a fixed-size PDU's end are ignored;
/// a PDU that carries a value takes all remaining bytes as the value. A PDU
/// whose opcode ATT defines and this codec does not take apart is kept whole.
pub open spec fn decode_spec(b: Seq<u8>) -> Result<AttPduView, CodecError> {
    if b.len() == 0 {
        Err(CodecError::TruncatedPdu { opcode: 0 })
    } else if !is_defined_opcode(b[0]) {
        Err(CodecError::UnknownOpcode { opcode: b[0] })
    } else if !is_modeled_opcode(b[0]) {
        Ok(AttPduView::Other { opcode: b[0], params: b.subrange(1, b.len() as int) })
    } else if b.len() < min_len(b[0]) {
        Err(CodecError::TruncatedPdu { opcode: b[0] })
    } else {
        let op = b[0];
        if op == OP_ERROR_RESPONSE {
            Ok(AttPduView::ErrorResponse {
                request_opcode: b[1],
                handle: from_le16(b[2], b[3]),
                error_code: b[4],
            })
        } else if op == OP_EXCHANGE_MTU_REQUEST {
            Ok(AttPduView::ExchangeMtuRequest { mtu: from_le16(b[1], b[2]) })
        } else if op == OP_EXCHANGE_MTU_RESPONSE {
            Ok(AttPduView::ExchangeMtuResponse { mtu: from_le16(b[1], b[2]) })
        } else if op == OP_READ_REQUEST {
            Ok(AttPduView::ReadRequest { handle: from_le16(b[1], b[2]) })
        } else if op == OP_READ_RESPONSE {
            Ok(AttPduView::ReadResponse { value: b.subrange(1, b.len() as int) })
        } else if op == OP_READ_BLOB_REQUEST {
            Ok(AttPduView::ReadBlobRequest {
                handle: from_le16(b[1], b[2]),
                offset: from_le16(b[3], b[4]),
            })
        } else if op == OP_READ_BLOB_RESPONSE {
            Ok(AttPduView::ReadBlobResponse { value: b.subrange(1, b.len() as int) })
        } else if op == OP_WRITE_REQUEST {
            Ok(AttPduView::WriteRequest {
                handle: from_le16(b[1], b[2]),
                value: b.subrange(3, b.len() as int),
            })
        } else if op == OP_WRITE_RESPONSE {
            Ok(AttPduView::WriteResponse)
        } else if op == OP_WRITE_COMMAND {
            Ok(AttPduView::WriteCommand {
                handle: from_le16(b[1], b[2]),
                value: b.subrange(3, b.len() as int),
            })
        } else if op == OP_HANDLE_VALUE_NOTIFICATION {
            Ok(AttPduView::HandleValueNotification {
                handle: from_le16(b[1], b[2]),
                value: b.subrange(3, b.len() as int),
            })
        } else if op == OP_HANDLE_VALUE_INDICATION {
            Ok(AttPduView::HandleValueIndication {
                handle: from_le16(b[1], b[2]),
                value: b.subrange(3, b.len() as int),
            })
        } else {
            Ok(AttPduView::HandleValueConfirmation)
        }
    }
}

/// What encoding a PDU for a link with the given MTU yields.
pub open spec fn encode_for_mtu(p: AttPduView, mtu: u16) -> Result<Seq<u8>, CodecError> {
    if encode_spec(p).len() <= mtu {
        Ok(encode_spec(p))
    } else {
        Err(CodecError::ExceedsMtu { length: encode_spec(p).len() as usize, mtu })
    }
}

proof fn lemma_le16(v: u16)
    ensures
        from_le16(le16(v)[0], le16(v)[1]) == v,
{
}

/// Decoding what was encoded gives the PDU back.
pub proof fn lemma_decode_encode(p: AttPduView)
    requires
        representable(p),
    ensures
        decode_spec(encode_spec(p)) == Ok::<AttPduView, CodecError>(p),
{
    let b = encode_spec(p);
    match p {
        AttPduView::ErrorResponse { request_opcode, handle, error_code } => {
            lemma_le16(handle);
        },
        AttPduView::ExchangeMtuRequest { mtu } => {
            lemma_le16(mtu);
        },
        AttPduView::ExchangeMtuResponse { mtu } => {
            lemma_le16(mtu);
        },
        AttPduView::ReadRequest { handle } => {
            lemma_le16(handle);
        },
        AttPduView::ReadResponse { value } => {
            assert(b.subrange(1, b.len() as int) =~= value);
        },
        AttPduView::ReadBlobRequest { handle, offset } => {
            lemma_le16(handle);
            lemma_le16(offset);
        },
        AttPduView::ReadBlobResponse { value } => {
            assert(b.subrange(1, b.len() as int) =~= value);
        },
        AttPduView::WriteRequest { handle, value } => {
            lemma_le16(handle);
            assert(b.subrange(3, b.len() as int) =~= value);
        },
        AttPduView::WriteResponse => {},
        AttPduView::WriteCommand { handle, value } => {
            lemma_le16(handle);
            assert(b.subrange(3, b.len() as int) =~= value);
        },
        AttPduView::HandleValueNotification { handle, value } => {
            lemma_le16(handle);
            assert(b.subrange(3, b.len() as int) =~= value);
        },
        AttPduView::HandleValueIndication { handle, value } => {
            lemma_le16(handle);
            assert(b.subrange(3, b.len() as int) =~= value);
        },
        AttPduView::HandleValueConfirmation => {},
        AttPduView::Other { opcode, params } => {
            assert(b.subrange(1, b.len() as int) =~= params);
        },
    }
}

/// Encoding for a link and decoding gives the PDU back, whenever it fits the MTU.
pub proof fn lemma_round_trip(p: AttPduView, mtu: u16)
    requires
        representable(p),
        encode_for_mtu(p, mtu) is Ok,
    ensures
        decode_spec(encode_for_mtu(p, mtu)->Ok_0) == Ok::<AttPduView, CodecError>(p),
{
    lemma_decode_encode(p);
}

pub(crate) fn push_le16(out: &mut Vec<u8>, v: u16)
    ensures
        final(out)@ == old(out)@ + le16(v),
{
    out.push((v % 256) as u8);
    out.push((v / 256) as u8);
    assert(final(out)@ =~= old(out)@ + le16(v));
}

pub(crate) fn append_bytes(out: &mut Vec<u8>, value: &Vec<u8>)
    ensures
        final(out)@ == old(out)@ + value@,
{
    let mut i: usize = 0;
    while i < value.len()
        invariant
            i <= value@.len(),
            out@ == old(out)@ + value@.subrange(0, i as int),
        decreases value@.len() - i,
    {
        out.push(value[i]);
        i = i + 1;
        assert(out@ =~= old(out)@ + value@.subrange(0, i as int));
    }
    assert(value@.subrange(0, value@.len() as int) =~= value@);
}

/// The bytes of `b` from `start` to the end.
pub(crate) fn copy_tail(b: &[u8], start: usize) -> (r: Vec<u8>)
    requires
        start <= b@.len(),
    ensures
        r@ == b@.subrange(start as int, b@.len() as int),
{
    copy_range(b, start, b.len())
}

/// The bytes of `b` from `start` up to, not including, `end`.
pub(crate) fn copy_range(b: &[u8], start: usize, end: usize) -> (r: Vec<u8>)
    requires
        start <= end <= b@.len(),
    ensures
        r@ == b@.subrange(start as int, end as int),
{
    let mut r: Vec<u8> = Vec::new();
    let mut i: usize = start;
    while i < end
        invariant
            start <= i <= end,
            end <= b@.len(),
            r@ == b@.subrange(start as int, i as int),
        decreases end - i,
    {
        r.push(b[i]);
        i = i + 1;
        assert(r@ =~= b@.subrange(start as int, i as int));
    }
    r
}

pub(crate) fn read_le16(lo: u8, hi: u8) -> (r: u16)
    ensures
        r == from_le16(lo, hi),
{
    lo as u16 + 256 * (hi as u16)
}

/// The wire bytes of a PDU, whatever its length.
pub fn encode_pdu(p: &AttPdu) -> (r: Vec<u8>)
    ensures
        r@ == encode_spec(p@),
{
    let mut out: Vec<u8> = Vec::new();
    match p {
        AttPdu::ErrorResponse { request_opcode, handle, error_code } => {
            out.push(OP_ERROR_RESPONSE);
            out.push(*request_opcode);
            push_le16(&mut out, *handle);
            out.push(*error_code);
        },
        AttPdu::ExchangeMtuRequest { mtu } => {
            out.push(OP_EXCHANGE_MTU_REQUEST);
            push_le16(&mut out, *mtu);
        },
        AttPdu::ExchangeMtuResponse { mtu } => {
            out.push(OP_EXCHANGE_MTU_RESPONSE);
            push_le16(&mut out, *mtu);
        },
        AttPdu::ReadRequest { handle } => {
            out.push(OP_READ_REQUEST);
            push_le16(&mut out, *handle);
        },
        AttPdu::ReadResponse { value } => {
            out.push(OP_READ_RESPONSE);
            append_bytes(&mut out, value);
        },
        AttPdu::ReadBlobRequest { handle, offset } => {
            out.push(OP_READ_BLOB_REQUEST);
            push_le16(&mut out, *handle);
            push_le16(&mut out, *offset);
        },
        AttPdu::ReadBlobResponse { value } => {
            out.push(OP_READ_BLOB_RESPONSE);
            append_bytes(&mut out, value);
        },
        AttPdu::WriteRequest { handle, value } => {
            out.push(OP_WRITE_REQUEST);
            push_le16(&mut out, *handle);
            append_bytes(&mut out, value);
        },
        AttPdu::WriteResponse => {
            out.push(OP_WRITE_RESPONSE);
        },
        AttPdu::WriteCommand { handle, value } => {
            out.push(OP_WRITE_COMMAND);
            push_le16(&mut out, *handle);
            append_bytes(&mut out, value);
        },
        AttPdu::HandleValueNotification { handle, value } => {
            out.push(OP_HANDLE_VALUE_NOTIFICATION);
            push_le16(&mut out, *handle);
            append_bytes(&mut out, value);
        },
        AttPdu::HandleValueIndication { handle, value } => {
            out.push(OP_HANDLE_VALUE_INDICATION);
            push_le16(&mut out, *handle);
            append_bytes(&mut out, value);
        },
        AttPdu::HandleValueConfirmation => {
            out.push(OP_HANDLE_VALUE_CONFIRMATION);
        },
        AttPdu::Other { opcode, params } => {
            out.push(*opcode);
            append_bytes(&mut out, params);
        },
    }
    assert(out@ =~= encode_spec(p@));
    out
}

/// Encodes a PDU for a link whose negotiated MTU is `mtu`.
pub fn encode(p: &AttPdu, mtu: u16) -> (r: Result<Vec<u8>, CodecError>)
    ensures
        r matches Ok(b) ==> encode_for_mtu(p@, mtu) == Ok::<Seq<u8>, CodecError>(b@),
        r matches Err(e) ==> encode_for_mtu(p@, mtu) == Err::<Seq<u8>, CodecError>(e),
{
    let b = encode_pdu(p);
    if b.len() <= mtu as usize {
        Ok(b)
    } else {
        Err(CodecError::ExceedsMtu { length: b.len(), mtu })
    }
}

fn opcode_min_len(opcode: u8) -> (r: usize)
    ensures
        r == min_len(opcode),
{
    if opcode == OP_ERROR_RESPONSE {
        5
    } else if opcode == OP_EXCHANGE_MTU_REQUEST || opcode == OP_EXCHANGE_MTU_RESPONSE
        || opcode == OP_READ_REQUEST || opcode == OP_WRITE_REQUEST || opcode == OP_WRITE_COMMAND
        || opcode == OP_HANDLE_VALUE_NOTIFICATION || opcode == OP_HANDLE_VALUE_INDICATION {
        3
    } else if opcode == OP_READ_BLOB_REQUEST {
        5
    } else if opcode == OP_READ_RESPONSE || opcode == OP_READ_BLOB_RESPONSE
        || opcode == OP_WRITE_RESPONSE || opcode == OP_HANDLE_VALUE_CONFIRMATION {
        1
    } else {
        0
    }
}

/// Decodes one PDU from the bytes the transport delivered.
pub fn decode(b: &[u8]) -> (r: Result<AttPdu, CodecError>)
    ensures
        r matches Ok(p) ==> decode_spec(b@) == Ok::<AttPduView, CodecError>(p@),
        r matches Err(e) ==> decode_spec(b@) == Err::<AttPduView, CodecError>(e),
{
    if b.len() == 0 {
        return Err(CodecError::TruncatedPdu { opcode: 0 });
    }
    let op = b[0];
    if !defined_opcode(op) {
        return Err(CodecError::UnknownOpcode { opcode: op });
    }
    let need = opcode_min_len(op);
    if need == 0 {
        return Ok(AttPdu::Other { opcode: op, params: copy_tail(b, 1) });
    }
    if b.len() < need {
        return Err(CodecError::TruncatedPdu { opcode: op });
    }
    if op == OP_ERROR_RESPONSE {
        Ok(AttPdu::ErrorResponse {
            request_opcode: b[1],
            handle: read_le16(b[2], b[3]),
            error_code: b[4],
        })
    } else if op == OP_EXCHANGE_MTU_REQUEST {
        Ok(AttPdu::ExchangeMtuRequest { mtu: read_le16(b[1], b[2]) })
    } else if op == OP_EXCHANGE_MTU_RESPONSE {
        Ok(AttPdu::ExchangeMtuResponse { mtu: read_le16(b[1], b[2]) })
    } else if op == OP_READ_REQUEST {
        Ok(AttPdu::ReadRequest { handle: read_le16(b[1], b[2]) })
    } else if op == OP_READ_RESPONSE {
        Ok(AttPdu::ReadResponse { value: copy_tail(b, 1) })
    } else if op == OP_READ_BLOB_REQUEST {
        Ok(AttPdu::ReadBlobRequest { handle: read_le16(b[1], b[2]), offset: read_le16(b[3], b[4]) })
    } else if op == OP_READ_BLOB_RESPONSE {
        Ok(AttPdu::ReadBlobResponse { value: copy_tail(b, 1) })
    } else if op == OP_WRITE_REQUEST {
        Ok(AttPdu::WriteRequest { handle: read_le16(b[1], b[2]), value: copy_tail(b, 3) })
    } else if op == OP_WRITE_RESPONSE {
        Ok(AttPdu::WriteResponse)
    } else if op == OP_WRITE_COMMAND {
        Ok(AttPdu::WriteCommand { handle: read_le16(b[1], b[2]), value: copy_tail(b, 3) })
    } else if op == OP_HANDLE_VALUE_NOTIFICATION {
        Ok(AttPdu::HandleValueNotification { handle: read_le16(b[1], b[2]), value: copy_tail(b, 3) })
    } else if op == OP_HANDLE_VALUE_INDICATION {
        Ok(AttPdu::HandleValueIndication { handle: read_le16(b[1], b[2]), value: copy_tail(b, 3) })
    } else {
        Ok(AttPdu::HandleValueConfirmation)
    }
}

} // verus!
