//! Per-connection routing of inbound PDUs between the platform server and the
//! native client, and the platform server's transaction state.
use vstd::prelude::*;
use crate::att::{
    copy_range, from_le16, is_request_opcode, le16, push_le16, read_le16, request_opcode, AttPdu, AttPduView, CodecError, decode, decode_spec, encode, encode_for_mtu, encode_pdu,
    encode_spec, DEFAULT_MTU, ERR_INVALID_HANDLE, ERR_INVALID_OFFSET, ERR_INVALID_PDU,
    ERR_READ_NOT_PERMITTED, ERR_REQUEST_NOT_SUPPORTED, ERR_UNLIKELY_ERROR, ERR_WRITE_NOT_PERMITTED,
    OP_READ_BLOB_REQUEST, OP_READ_REQUEST, OP_WRITE_COMMAND, OP_WRITE_REQUEST,
};
use crate::database::{
    copy_bytes, AttributeKind, AttributeView, DatabaseView, GattDatabase, PROP_INDICATE, PROP_NOTIFY, PROP_READ, PROP_WRITE,
    PROP_WRITE_NO_RESPONSE,
};

verus! {

/// The time an indication waits for its confirmation unless configured otherwise.
pub const DEFAULT_INDICATION_TIMEOUT_MS: u64 = 30000;

/// Opcodes with this bit set are commands: they are never answered.
pub const COMMAND_FLAG: u8 = 0x40;

/// Prepare Write Request: the first step of a queued write, which this server does not support.
pub const OP_PREPARE_WRITE_REQUEST: u8 = 0x16;

/// Read Multiple Request and Read Multiple Variable Request, which this server does not serve.
pub const OP_READ_MULTIPLE_REQUEST: u8 = 0x0E;
pub const OP_READ_MULTIPLE_VARIABLE_REQUEST: u8 = 0x20;

/// Requests that name a range of handles: Find Information, Find By Type
/// Value, Read By Type and Read By Group Type. This server does not answer
/// discovery over its own handles.
pub const OP_FIND_INFORMATION_REQUEST: u8 = 0x04;
pub const OP_FIND_BY_TYPE_VALUE_REQUEST: u8 = 0x06;
pub const OP_READ_BY_TYPE_REQUEST: u8 = 0x08;
pub const OP_READ_BY_GROUP_TYPE_REQUEST: u8 = 0x10;

/// An indication sent and not yet confirmed.
#[derive(Debug, Clone, Copy, PartialEq, Eq, Structural)]
pub struct PendingIndication {
    pub handle: u16,
    /// The time, in milliseconds, at which it times out.
    pub deadline: u64,
}

/// Where the next Read Blob Request of a long read is expected to continue.
#[derive(Debug, Clone, Copy, PartialEq, Eq, Structural)]
pub struct Continuation {
    pub handle: u16,
    pub offset: usize,
}

#[derive(Debug, Clone, Copy, PartialEq, Eq, Structural)]
pub enum TransactionError {
    /// No confirmation came for an indication within the timeout.
    IndicationTimeout,
    /// The link went down while the transaction was open.
    ConnectionLost,
    /// The application did not answer a peer request in time.
    ResponseTimeout,
    /// No open transaction has this identifier.
    UnknownTransaction,
}

#[derive(Debug, Clone, Copy, PartialEq, Eq, Structural)]
pub enum SendError {
    /// The link is down.
    NotConnected,
    /// The handle is not a value of a registered characteristic.
    InvalidHandle,
    /// An indication is still waiting for its confirmation.
    IndicationPending,
    /// The characteristic's properties do not allow this kind of update.
    NotPermitted,
    /// The PDU does not fit the link's MTU.
    Codec(CodecError),
}

/// A transaction that ended without its answer.
#[derive(Debug, Clone, Copy, PartialEq, Eq, Structural)]
pub enum Failure {
    WriteRequest { transaction_id: u64, error: TransactionError },
    Indication { handle: u16, error: TransactionError },
}

/// What the server hands to the application.
#[derive(Debug, Clone, PartialEq, Eq)]
pub enum ServerEvent {
    /// A peer's Write Request; answer it with `send_response`.
    WriteRequest { transaction_id: u64, handle: u16, value: Vec<u8> },
    /// A peer's Write Command, already stored.
    WriteCommand { handle: u16, value: Vec<u8> },
    /// The peer confirmed the pending indication.
    IndicationConfirmed { handle: u16 },
    /// A peer's Read or Read Blob Request, already answered from the
    /// database: `status` is 0 when the value was sent, else the ATT error
    /// code of the Error Response that was sent.
    CharacteristicReadRequest { handle: u16, offset: usize, status: u8 },
}

pub ghost enum ServerEventView {
    WriteRequest { transaction_id: u64, handle: u16, value: Seq<u8> },
    WriteCommand { handle: u16, value: Seq<u8> },
    IndicationConfirmed { handle: u16 },
    CharacteristicReadRequest { handle: u16, offset: usize, status: u8 },
}

impl View for ServerEvent {
    type V = ServerEventView;

    open spec fn view(&self) -> ServerEventView {
        match self {
            ServerEvent::WriteRequest { transaction_id, handle, value } => ServerEventView::WriteRequest {
                transaction_id: *transaction_id,
                handle: *handle,
                value: value@,
            },
            ServerEvent::WriteCommand { handle, value } => ServerEventView::WriteCommand {
                handle: *handle,
                value: value@,
            },
            ServerEvent::IndicationConfirmed { handle } => ServerEventView::IndicationConfirmed { handle: *handle },
            ServerEvent::CharacteristicReadRequest { handle, offset, status } => ServerEventView::CharacteristicReadRequest {
                handle: *handle,
                offset: *offset,
                status: *status,
            },
        }
    }
}

/// What to do with one inbound PDU.
#[derive(Debug, Clone, PartialEq, Eq)]
pub enum Dispatch {
    /// Pass the bytes, unchanged, to the native client.
    ToNative,
    /// Write these bytes to the transport.
    Reply(Vec<u8>),
    /// Write these bytes to the transport, and hand this event to the application.
    ReplyAndDeliver(Vec<u8>, ServerEvent),
    /// Hand this event to the application.
    Deliver(ServerEvent),
    /// Nothing is to be done.
    Ignore,
}

pub ghost enum DispatchView {
    ToNative,
    Reply(Seq<u8>),
    ReplyAndDeliver(Seq<u8>, ServerEventView),
    Deliver(ServerEventView),
    Ignore,
}

impl View for Dispatch {
    type V = DispatchView;

    open spec fn view(&self) -> DispatchView {
        match self {
            Dispatch::ToNative => DispatchView::ToNative,
            Dispatch::Reply(b) => DispatchView::Reply(b@),
            Dispatch::ReplyAndDeliver(b, e) => DispatchView::ReplyAndDeliver(b@, e@),
            Dispatch::Deliver(e) => DispatchView::Deliver(e@),
            Dispatch::Ignore => DispatchView::Ignore,
        }
    }
}

/// A peer's Write Request that awaits the application's answer.
struct PendingRequest {
    transaction_id: u64,
    handle: u16,
    value: Vec<u8>,
}

/// One ATT link, as the platform server sees it.
pub struct Connection {
    connected: bool,
    mtu: u16,
    pending_request: Option<PendingRequest>,
    indication: Option<PendingIndication>,
    continuation: Option<Continuation>,
    next_transaction: u64,
    indication_timeout: u64,
}

pub ghost struct ConnectionView {
    pub connected: bool,
    pub mtu: u16,
    /// Transaction id, handle and value of the peer request awaiting an answer.
    pub pending_request: Option<(u64, u16, Seq<u8>)>,
    pub indication: Option<PendingIndication>,
    pub continuation: Option<Continuation>,
    pub next_transaction: u64,
    pub indication_timeout: u64,
}

impl View for Connection {
    type V = ConnectionView;

    closed spec fn view(&self) -> ConnectionView {
        ConnectionView {
            connected: self.connected,
            mtu: self.mtu,
            pending_request: match self.pending_request {
                Some(p) => Some((p.transaction_id, p.handle, p.value@)),
                None => None,
            },
            indication: self.indication,
            continuation: self.continuation,
            next_transaction: self.next_transaction,
            indication_timeout: self.indication_timeout,
        }
    }
}

impl ConnectionView {
    /// The MTU is at least the minimum, and a link that is down holds no
    /// open transaction and no continuation.
    pub open spec fn wf(self) -> bool {
        &&& self.mtu >= DEFAULT_MTU
        &&& !self.connected ==> {
            &&& self.pending_request is None
            &&& self.indication is None
            &&& self.continuation is None
        }
    }
}

pub open spec fn error_reply(opcode: u8, handle: u16, code: u8) -> Seq<u8> {
    encode_spec(AttPduView::ErrorResponse { request_opcode: opcode, handle, error_code: code })
}

pub open spec fn is_value_kind(a: AttributeView) -> bool {
    a.kind == AttributeKind::CharacteristicValue || a.kind == AttributeKind::Descriptor
}

pub open spec fn readable(a: AttributeView) -> bool {
    is_value_kind(a) && a.properties & PROP_READ != 0
}

pub open spec fn writable(a: AttributeView, flag: u8) -> bool {
    is_value_kind(a) && a.properties & flag != 0
}

pub open spec fn min(a: int, b: int) -> int {
    if a <= b { a } else { b }
}

/// The answer to a Read (`opcode` is a Read Request) or Read Blob Request at
/// `offset`, and the continuation it leaves: at most MTU - 1 bytes of the
/// value are sent, and a continuation is kept while bytes remain.
pub open spec fn read_outcome(c: ConnectionView, db: DatabaseView, opcode: u8, h: u16, offset: int) -> (
    Option<Continuation>,
    Seq<u8>,
) {
    match db.attribute_at(h as int) {
        None => (None, error_reply(opcode, h, ERR_INVALID_HANDLE)),
        Some(a) => if !readable(a) {
            (None, error_reply(opcode, h, ERR_READ_NOT_PERMITTED))
        } else if offset > a.value.len() {
            (None, error_reply(opcode, h, ERR_INVALID_OFFSET))
        } else {
            let end = min(a.value.len() as int, offset + c.mtu - 1);
            let part = a.value.subrange(offset, end);
            let resp = if opcode == OP_READ_REQUEST {
                AttPduView::ReadResponse { value: part }
            } else {
                AttPduView::ReadBlobResponse { value: part }
            };
            (
                if end < a.value.len() { Some(Continuation { handle: h, offset: end as usize }) } else { None },
                encode_spec(resp),
            )
        },
    }
}

/// The first handle of a registered service in a list of little-endian handles.
pub open spec fn first_platform_handle(db: DatabaseView, handles: Seq<u8>) -> Option<u16>
    decreases handles.len(),
{
    if handles.len() < 2 {
        None
    } else if db.owner_of(from_le16(handles[0], handles[1]) as int) is Some {
        Some(from_le16(handles[0], handles[1]))
    } else {
        first_platform_handle(db, handles.subrange(2, handles.len() as int))
    }
}

pub open spec fn is_range_request(opcode: u8) -> bool {
    opcode == OP_FIND_INFORMATION_REQUEST || opcode == OP_FIND_BY_TYPE_VALUE_REQUEST
        || opcode == OP_READ_BY_TYPE_REQUEST || opcode == OP_READ_BY_GROUP_TYPE_REQUEST
}

/// The platform handle that a request this server does not serve names: the
/// handle of a Prepare Write Request, the first platform handle of a Read
/// Multiple (Variable) Request, or the starting handle of a range request
/// whose range reaches a platform service (whether the range lies inside the
/// platform's handles or spans both sides). Such a request is answered by the
/// platform with an Error Response, never passed on.
pub open spec fn platform_target(db: DatabaseView, opcode: u8, params: Seq<u8>) -> Option<u16> {
    if is_range_request(opcode) {
        if params.len() >= 4 && db.overlaps(
            from_le16(params[0], params[1]) as int,
            from_le16(params[2], params[3]) as int,
        ) {
            Some(from_le16(params[0], params[1]))
        } else {
            None
        }
    } else if opcode == OP_PREPARE_WRITE_REQUEST && params.len() >= 2 && db.owner_of(
        from_le16(params[0], params[1]) as int,
    ) is Some {
        Some(from_le16(params[0], params[1]))
    } else if opcode == OP_READ_MULTIPLE_REQUEST || opcode == OP_READ_MULTIPLE_VARIABLE_REQUEST {
        first_platform_handle(db, params)
    } else {
        None
    }
}

/// The status of a read at `offset`: 0 when the value is sent, else the
/// error code that `read_outcome` answers with.
pub open spec fn read_status(db: DatabaseView, h: u16, offset: int) -> u8 {
    match db.attribute_at(h as int) {
        None => ERR_INVALID_HANDLE,
        Some(a) => if !readable(a) {
            ERR_READ_NOT_PERMITTED
        } else if offset > a.value.len() {
            ERR_INVALID_OFFSET
        } else {
            0
        },
    }
}

/// Whether an inbound PDU belongs to the platform server: a request or command
/// on a handle of a registered service, or the confirmation of a pending
/// indication. Everything else belongs to the native client.
pub open spec fn routes_to_platform(c: ConnectionView, db: DatabaseView, p: AttPduView) -> bool {
    match p {
        AttPduView::Other { opcode, params } => platform_target(db, opcode, params) is Some,
        AttPduView::ReadRequest { handle } => db.owner_of(handle as int) is Some,
        AttPduView::ReadBlobRequest { handle, .. } => db.owner_of(handle as int) is Some,
        AttPduView::WriteRequest { handle, .. } => db.owner_of(handle as int) is Some,
        AttPduView::WriteCommand { handle, .. } => db.owner_of(handle as int) is Some,
        AttPduView::HandleValueConfirmation => c.indication is Some,
        _ => false,
    }
}

/// A peer request that expects a response from the platform server.
pub open spec fn is_platform_request(c: ConnectionView, db: DatabaseView, b: Seq<u8>) -> bool {
    c.connected && decode_spec(b) is Ok && routes_to_platform(c, db, decode_spec(b)->Ok_0) && (
    decode_spec(b)->Ok_0 is ReadRequest || decode_spec(b)->Ok_0 is ReadBlobRequest
        || decode_spec(b)->Ok_0 is WriteRequest || decode_spec(b)->Ok_0 is Other)
}

/// How the platform server handles a PDU routed to it.
pub open spec fn platform_step(c: ConnectionView, db: DatabaseView, p: AttPduView) -> (
    ConnectionView,
    DatabaseView,
    DispatchView,
) {
    match p {
        AttPduView::ReadRequest { handle } => if c.pending_request is Some {
            (c, db, DispatchView::Ignore)
        } else {
            let (cont, bytes) = read_outcome(c, db, OP_READ_REQUEST, handle, 0);
            (
                ConnectionView { continuation: cont, ..c },
                db,
                DispatchView::ReplyAndDeliver(
                    bytes,
                    ServerEventView::CharacteristicReadRequest { handle, offset: 0, status: read_status(db, handle, 0) },
                ),
            )
        },
        AttPduView::ReadBlobRequest { handle, offset } => if c.pending_request is Some {
            (c, db, DispatchView::Ignore)
        } else {
            let (cont, bytes) = read_outcome(c, db, OP_READ_BLOB_REQUEST, handle, offset as int);
            (
                ConnectionView { continuation: cont, ..c },
                db,
                DispatchView::ReplyAndDeliver(
                    bytes,
                    ServerEventView::CharacteristicReadRequest {
                        handle,
                        offset: offset as usize,
                        status: read_status(db, handle, offset as int),
                    },
                ),
            )
        },
        AttPduView::WriteRequest { handle, value } => if c.pending_request is Some {
            (c, db, DispatchView::Ignore)
        } else {
            let c2 = ConnectionView { continuation: None, ..c };
            match db.attribute_at(handle as int) {
                None => (c2, db, DispatchView::Reply(error_reply(OP_WRITE_REQUEST, handle, ERR_INVALID_HANDLE))),
                Some(a) => if !writable(a, PROP_WRITE) {
                    (c2, db, DispatchView::Reply(error_reply(OP_WRITE_REQUEST, handle, ERR_WRITE_NOT_PERMITTED)))
                } else if c.next_transaction == u64::MAX {
                    (c2, db, DispatchView::Reply(error_reply(OP_WRITE_REQUEST, handle, ERR_UNLIKELY_ERROR)))
                } else {
                    (
                        ConnectionView {
                            pending_request: Some((c.next_transaction, handle, value)),
                            next_transaction: (c.next_transaction + 1) as u64,
                            ..c2
                        },
                        db,
                        DispatchView::Deliver(
                            ServerEventView::WriteRequest { transaction_id: c.next_transaction, handle, value },
                        ),
                    )
                },
            }
        },
        AttPduView::WriteCommand { handle, value } => {
            let c2 = ConnectionView { continuation: None, ..c };
            match db.attribute_at(handle as int) {
                Some(a) => if writable(a, PROP_WRITE_NO_RESPONSE) {
                    (
                        c2,
                        db.with_value(handle as int, value),
                        DispatchView::Deliver(ServerEventView::WriteCommand { handle, value }),
                    )
                } else {
                    (c2, db, DispatchView::Ignore)
                },
                None => (c2, db, DispatchView::Ignore),
            }
        },
        AttPduView::Other { opcode, params } => if c.pending_request is Some {
            (c, db, DispatchView::Ignore)
        } else {
            match platform_target(db, opcode, params) {
                Some(handle) => (
                    ConnectionView { continuation: None, ..c },
                    db,
                    DispatchView::Reply(error_reply(opcode, handle, ERR_REQUEST_NOT_SUPPORTED)),
                ),
                None => (c, db, DispatchView::ToNative),
            }
        },
        AttPduView::HandleValueConfirmation => match c.indication {
            Some(ind) => (
                ConnectionView { indication: None, ..c },
                db,
                DispatchView::Deliver(ServerEventView::IndicationConfirmed { handle: ind.handle }),
            ),
            None => (c, db, DispatchView::Ignore),
        },
        _ => (c, db, DispatchView::ToNative),
    }
}

/// How one inbound PDU changes the connection and the database, and what is
/// done with it. An opcode that ATT does not define is answered with an Error
/// Response unless it is a command; a truncated request is answered with an
/// Error Response, any other truncated PDU goes to the native client.
pub open spec fn step(c: ConnectionView, db: DatabaseView, b: Seq<u8>) -> (
    ConnectionView,
    DatabaseView,
    DispatchView,
) {
    if !c.connected || b.len() == 0 {
        (c, db, DispatchView::Ignore)
    } else {
        match decode_spec(b) {
            Err(CodecError::UnknownOpcode { opcode }) => if opcode & COMMAND_FLAG != 0 {
                (c, db, DispatchView::Ignore)
            } else {
                (c, db, DispatchView::Reply(error_reply(opcode, 0, ERR_REQUEST_NOT_SUPPORTED)))
            },
            Err(CodecError::TruncatedPdu { opcode }) => if is_request_opcode(opcode) {
                (c, db, DispatchView::Reply(error_reply(opcode, 0, ERR_INVALID_PDU)))
            } else {
                (c, db, DispatchView::ToNative)
            },
            Err(CodecError::ExceedsMtu { .. }) => (c, db, DispatchView::Ignore),
            Ok(p) => if routes_to_platform(c, db, p) {
                platform_step(c, db, p)
            } else {
                (c, db, DispatchView::ToNative)
            },
        }
    }
}

/// The database after a dispatch: a delivered Write Command stores its value.
pub open spec fn stores(db: DatabaseView, d: DispatchView) -> DatabaseView {
    match d {
        DispatchView::Deliver(ServerEventView::WriteCommand { handle, value }) => db.with_value(handle as int, value),
        _ => db,
    }
}

/// The PDU that carries a notification, or an indication when `confirm` holds.
pub open spec fn value_update_pdu(handle: u16, value: Seq<u8>, confirm: bool) -> AttPduView {
    if confirm {
        AttPduView::HandleValueIndication { handle, value }
    } else {
        AttPduView::HandleValueNotification { handle, value }
    }
}

/// Whether `h` is the value of a registered characteristic.
pub open spec fn is_value_handle(db: DatabaseView, h: u16) -> bool {
    match db.attribute_at(h as int) {
        Some(a) => a.kind == AttributeKind::CharacteristicValue,
        None => false,
    }
}

/// Whether the attribute at `h` allows an indication (`confirm`) or a notification.
pub open spec fn permits_update(db: DatabaseView, h: u16, confirm: bool) -> bool {
    match db.attribute_at(h as int) {
        Some(a) => a.properties & (if confirm { PROP_INDICATE } else { PROP_NOTIFY }) != 0,
        None => false,
    }
}

pub open spec fn result_view(r: Result<Vec<u8>, SendError>) -> Result<Seq<u8>, SendError> {
    match r {
        Ok(b) => Ok(b@),
        Err(e) => Err(e),
    }
}

/// The outcome of sending `value` at `handle` as a notification, or as an
/// indication when `confirm` holds: the connection after it, and the bytes to
/// write or the reason nothing is written.
pub open spec fn notify_outcome(
    c: ConnectionView,
    db: DatabaseView,
    handle: u16,
    value: Seq<u8>,
    confirm: bool,
    now: u64,
) -> (ConnectionView, Result<Seq<u8>, SendError>) {
    if !c.connected {
        (c, Err(SendError::NotConnected))
    } else if !is_value_handle(db, handle) {
        (c, Err(SendError::InvalidHandle))
    } else if !permits_update(db, handle, confirm) {
        (c, Err(SendError::NotPermitted))
    } else if confirm && c.indication is Some {
        (c, Err(SendError::IndicationPending))
    } else {
        match encode_for_mtu(value_update_pdu(handle, value, confirm), c.mtu) {
            Err(e) => (c, Err(SendError::Codec(e))),
            Ok(b) => (
                if confirm {
                    ConnectionView {
                        indication: Some(
                            PendingIndication { handle, deadline: saturating_add(now, c.indication_timeout) },
                        ),
                        ..c
                    }
                } else {
                    c
                },
                Ok(b),
            ),
        }
    }
}

/// The value of a Service Changed indication: the first and last handle of
/// the range that changed, little-endian.
pub open spec fn service_changed_spec(start: u16, end: u16) -> Seq<u8> {
    le16(start) + le16(end)
}

pub open spec fn saturating_add(a: u64, b: u64) -> u64 {
    if a + b > u64::MAX { u64::MAX } else { (a + b) as u64 }
}

/// The transactions a lost link fails: the pending peer request, then the pending indication.
pub open spec fn failures_on_loss(c: ConnectionView) -> Seq<Failure> {
    (match c.pending_request {
        Some((tid, _, _)) => seq![Failure::WriteRequest { transaction_id: tid, error: TransactionError::ConnectionLost }],
        None => Seq::empty(),
    }) + (match c.indication {
        Some(ind) => seq![Failure::Indication { handle: ind.handle, error: TransactionError::ConnectionLost }],
        None => Seq::empty(),
    })
}

proof fn lemma_error_reply_len(opcode: u8, h: u16, code: u8)
    ensures
        error_reply(opcode, h, code).len() == 5,
{
}

proof fn lemma_read_outcome_fits(c: ConnectionView, db: DatabaseView, opcode: u8, h: u16, offset: int)
    requires
        c.wf(),
        0 <= offset,
    ensures
        read_outcome(c, db, opcode, h, offset).1.len() <= c.mtu,
{
    lemma_error_reply_len(opcode, h, ERR_INVALID_HANDLE);
    lemma_error_reply_len(opcode, h, ERR_READ_NOT_PERMITTED);
    lemma_error_reply_len(opcode, h, ERR_INVALID_OFFSET);
    match db.attribute_at(h as int) {
        None => {},
        Some(a) => if readable(a) && offset <= a.value.len() {
            let end = min(a.value.len() as int, offset + c.mtu - 1);
            let part = a.value.subrange(offset, end);
            if opcode == OP_READ_REQUEST {
                assert(encode_spec(AttPduView::ReadResponse { value: part }).len() == 1 + part.len());
            } else {
                assert(encode_spec(AttPduView::ReadBlobResponse { value: part }).len() == 1 + part.len());
            }
        },
    }
}

/// Every reply the server writes fits the link's MTU.
pub proof fn lemma_replies_fit(c: ConnectionView, db: DatabaseView, b: Seq<u8>)
    requires
        c.wf(),
    ensures
        step(c, db, b).2 is Reply ==> step(c, db, b).2->Reply_0.len() <= step(c, db, b).0.mtu,
        step(c, db, b).2 is ReplyAndDeliver ==> step(c, db, b).2->ReplyAndDeliver_0.len() <= step(c, db, b).0.mtu,
{
    if c.connected {
        match decode_spec(b) {
            Ok(p) => {
                match p {
                    AttPduView::ReadRequest { handle } => {
                        lemma_read_outcome_fits(c, db, OP_READ_REQUEST, handle, 0);
                    },
                    AttPduView::ReadBlobRequest { handle, offset } => {
                        lemma_read_outcome_fits(c, db, OP_READ_BLOB_REQUEST, handle, offset as int);
                    },
                    _ => {},
                }
            },
            _ => {},
        }
    }
}

/// At most one peer request awaits the application at any time: while one is
/// pending, another peer request for the platform is neither answered nor
/// delivered, and the pending one stays as it is; a Write Request is delivered
/// only when none is pending.
pub proof fn lemma_alternation(c: ConnectionView, db: DatabaseView, b: Seq<u8>)
    requires
        c.wf(),
    ensures
        c.pending_request is Some && is_platform_request(c, db, b) ==> step(c, db, b) == (
            c,
            db,
            DispatchView::Ignore,
        ),
        c.pending_request is Some ==> step(c, db, b).0.pending_request == c.pending_request,
        step(c, db, b).2 is Deliver && step(c, db, b).2->Deliver_0 is WriteRequest ==> c.pending_request is None,
{
}

fn first_platform_handle_exec(db: &GattDatabase, handles: &Vec<u8>) -> (r: Option<u16>)
    requires
        db@.wf(),
    ensures
        r == first_platform_handle(db@, handles@),
{
    let mut i: usize = 0;
    assert(handles@.subrange(0, handles@.len() as int) =~= handles@);
    while handles.len() - i >= 2
        invariant
            db@.wf(),
            i <= handles@.len(),
            first_platform_handle(db@, handles@) == first_platform_handle(
                db@,
                handles@.subrange(i as int, handles@.len() as int),
            ),
        decreases handles@.len() - i,
    {
        let h = read_le16(handles[i], handles[i + 1]);
        let ghost rest = handles@.subrange(i as int, handles@.len() as int);
        assert(rest[0] == handles@[i as int] && rest[1] == handles@[i + 1]);
        if db.lookup(h).is_some() {
            return Some(h);
        }
        assert(rest.subrange(2, rest.len() as int) =~= handles@.subrange(i + 2, handles@.len() as int));
        i = i + 2;
    }
    None
}

fn target_of(db: &GattDatabase, opcode: u8, params: &Vec<u8>) -> (r: Option<u16>)
    requires
        db@.wf(),
    ensures
        r == platform_target(db@, opcode, params@),
{
    if opcode == OP_FIND_INFORMATION_REQUEST || opcode == OP_FIND_BY_TYPE_VALUE_REQUEST
        || opcode == OP_READ_BY_TYPE_REQUEST || opcode == OP_READ_BY_GROUP_TYPE_REQUEST {
        if params.len() >= 4 {
            let start = read_le16(params[0], params[1]);
            let end = read_le16(params[2], params[3]);
            if db.overlaps(start, end) {
                return Some(start);
            }
        }
        return None;
    }
    if opcode == OP_PREPARE_WRITE_REQUEST && params.len() >= 2 {
        let h = read_le16(params[0], params[1]);
        if db.lookup(h).is_some() {
            return Some(h);
        }
    }
    if opcode == OP_READ_MULTIPLE_REQUEST || opcode == OP_READ_MULTIPLE_VARIABLE_REQUEST {
        first_platform_handle_exec(db, params)
    } else {
        None
    }
}

fn error_pdu(opcode: u8, handle: u16, code: u8) -> (r: Vec<u8>)
    ensures
        r@ == error_reply(opcode, handle, code),
{
    encode_pdu(&AttPdu::ErrorResponse { request_opcode: opcode, handle, error_code: code })
}

impl Connection {
    /// A connected link at the default MTU, whose indications time out after
    /// `indication_timeout` milliseconds.
    pub fn new(indication_timeout: u64) -> (r: Self)
        ensures
            r@.wf(),
            r@ == (ConnectionView {
                connected: true,
                mtu: DEFAULT_MTU,
                pending_request: None,
                indication: None,
                continuation: None,
                next_transaction: 0,
                indication_timeout,
            }),
    {
        Connection {
            connected: true,
            mtu: DEFAULT_MTU,
            pending_request: None,
            indication: None,
            continuation: None,
            next_transaction: 0,
            indication_timeout,
        }
    }

    pub fn mtu(&self) -> (r: u16)
        ensures
            r == self@.mtu,
    {
        self.mtu
    }

    pub fn is_connected(&self) -> (r: bool)
        ensures
            r == self@.connected,
    {
        self.connected
    }

    /// The transaction id of the peer request awaiting an answer, if any.
    pub fn pending_transaction(&self) -> (r: Option<u64>)
        ensures
            r == (match self@.pending_request {
                Some((tid, _, _)) => Some(tid),
                None => None::<u64>,
            }),
    {
        match &self.pending_request {
            Some(p) => Some(p.transaction_id),
            None => None,
        }
    }

    pub fn pending_indication(&self) -> (r: Option<PendingIndication>)
        ensures
            r == self@.indication,
    {
        self.indication
    }

    pub fn continuation(&self) -> (r: Option<Continuation>)
        ensures
            r == self@.continuation,
    {
        self.continuation
    }

    /// Takes the MTU the link negotiated; one below the minimum counts as the minimum.
    pub fn on_mtu_negotiated(&mut self, mtu: u16) -> (r: u16)
        requires
            old(self)@.wf(),
        ensures
            final(self)@.wf(),
            r == (if mtu < DEFAULT_MTU { DEFAULT_MTU } else { mtu }),
            final(self)@ == (ConnectionView { mtu: r, ..old(self)@ }),
    {
        let m = if mtu < DEFAULT_MTU { DEFAULT_MTU } else { mtu };
        self.mtu = m;
        m
    }

    /// The application's answer to the peer request `transaction_id`: a
    /// status of 0 stores the written value and yields a Write Response, any
    /// other status yields an Error Response carrying it.
    pub fn send_response(&mut self, db: &mut GattDatabase, transaction_id: u64, status: u8) -> (r: Result<
        Vec<u8>,
        TransactionError,
    >)
        requires
            old(self)@.wf(),
            old(db)@.wf(),
        ensures
            final(self)@.wf(),
            final(db)@.wf(),
            !old(self)@.connected ==> {
                &&& r == Err::<Vec<u8>, TransactionError>(TransactionError::ConnectionLost)
                &&& final(self)@ == old(self)@
                &&& final(db)@ == old(db)@
            },
            old(self)@.connected && !(old(self)@.pending_request matches Some((tid, _, _)) && tid == transaction_id) ==> {
                &&& r == Err::<Vec<u8>, TransactionError>(TransactionError::UnknownTransaction)
                &&& final(self)@ == old(self)@
                &&& final(db)@ == old(db)@
            },
            old(self)@.connected ==> match old(self)@.pending_request {
                Some((tid, h, v)) => tid == transaction_id ==> {
                    &&& final(self)@ == (ConnectionView { pending_request: None, ..old(self)@ })
                    &&& status == 0 ==> (r matches Ok(b) && b@ == encode_spec(AttPduView::WriteResponse))
                    &&& status != 0 ==> (r matches Ok(b) && b@ == error_reply(OP_WRITE_REQUEST, h, status))
                    &&& final(db)@ == (if status == 0 && old(db)@.attribute_at(h as int) is Some {
                        old(db)@.with_value(h as int, v)
                    } else {
                        old(db)@
                    })
                },
                None => true,
            },
    {
        if !self.connected {
            return Err(TransactionError::ConnectionLost);
        }
        let matches = match &self.pending_request {
            Some(p) => p.transaction_id == transaction_id,
            None => false,
        };
        if !matches {
            return Err(TransactionError::UnknownTransaction);
        }
        match self.pending_request.take() {
            Some(p) => {
                if status == 0 {
                    if db.lookup(p.handle).is_some() {
                        db.set_value(p.handle, p.value);
                    }
                    Ok(encode_pdu(&AttPdu::WriteResponse))
                } else {
                    Ok(error_pdu(OP_WRITE_REQUEST, p.handle, status))
                }
            },
            None => Err(TransactionError::UnknownTransaction),
        }
    }

    /// Builds a notification, or an indication when `confirm` holds, of
    /// `value` at `handle`; an indication then waits for its confirmation
    /// until `now` plus the indication timeout.
    pub fn send_notification(
        &mut self,
        db: &GattDatabase,
        handle: u16,
        value: &Vec<u8>,
        confirm: bool,
        now: u64,
    ) -> (r: Result<Vec<u8>, SendError>)
        requires
            old(self)@.wf(),
            db@.wf(),
        ensures
            final(self)@.wf(),
            (final(self)@, result_view(r)) == notify_outcome(old(self)@, db@, handle, value@, confirm, now),
    {
        if !self.connected {
            return Err(SendError::NotConnected);
        }
        let (is_value, permitted) = match db.lookup(handle) {
            Some(a) => (
                a.kind == AttributeKind::CharacteristicValue,
                a.properties & (if confirm { PROP_INDICATE } else { PROP_NOTIFY }) != 0,
            ),
            None => (false, false),
        };
        if !is_value {
            return Err(SendError::InvalidHandle);
        }
        if !permitted {
            return Err(SendError::NotPermitted);
        }
        if confirm && self.indication.is_some() {
            return Err(SendError::IndicationPending);
        }
        let v = copy_bytes(value);
        let pdu = if confirm {
            AttPdu::HandleValueIndication { handle, value: v }
        } else {
            AttPdu::HandleValueNotification { handle, value: v }
        };
        match encode(&pdu, self.mtu) {
            Err(e) => Err(SendError::Codec(e)),
            Ok(b) => {
                if confirm {
                    let deadline = if now > u64::MAX - self.indication_timeout {
                        u64::MAX
                    } else {
                        now + self.indication_timeout
                    };
                    self.indication = Some(PendingIndication { handle, deadline });
                }
                Ok(b)
            },
        }
    }

    /// Resolves the pending indication as timed out once `now` reaches its
    /// deadline, which frees the slot for the next one.
    pub fn poll_timeout(&mut self, now: u64) -> (r: Option<Failure>)
        requires
            old(self)@.wf(),
        ensures
            final(self)@.wf(),
            match old(self)@.indication {
                Some(ind) => if now >= ind.deadline {
                    &&& r == Some(Failure::Indication { handle: ind.handle, error: TransactionError::IndicationTimeout })
                    &&& final(self)@ == (ConnectionView { indication: None, ..old(self)@ })
                } else {
                    r is None && final(self)@ == old(self)@
                },
                None => r is None && final(self)@ == old(self)@,
            },
    {
        match self.indication {
            Some(ind) => {
                if now >= ind.deadline {
                    self.indication = None;
                    Some(Failure::Indication { handle: ind.handle, error: TransactionError::IndicationTimeout })
                } else {
                    None
                }
            },
            None => None,
        }
    }

    /// The link went down: every open transaction fails with `ConnectionLost`,
    /// and nothing more is sent or served on this connection.
    pub fn on_disconnected(&mut self) -> (r: Vec<Failure>)
        requires
            old(self)@.wf(),
        ensures
            final(self)@.wf(),
            r@ == failures_on_loss(old(self)@),
            final(self)@ == (ConnectionView {
                connected: false,
                pending_request: None,
                indication: None,
                continuation: None,
                ..old(self)@
            }),
    {
        let mut failures: Vec<Failure> = Vec::new();
        match self.pending_request.take() {
            Some(p) => {
                failures.push(Failure::WriteRequest { transaction_id: p.transaction_id, error: TransactionError::ConnectionLost });
            },
            None => {},
        }
        match self.indication {
            Some(ind) => {
                failures.push(Failure::Indication { handle: ind.handle, error: TransactionError::ConnectionLost });
            },
            None => {},
        }
        self.indication = None;
        self.continuation = None;
        self.connected = false;
        assert(failures@ =~= failures_on_loss(old(self)@));
        failures
    }

    /// Tells the peer that the handles from `start` to `end` changed, by an
    /// indication of the Service Changed characteristic value at `sc_handle`.
    pub fn indicate_service_changed(&mut self, db: &GattDatabase, sc_handle: u16, start: u16, end: u16, now: u64) -> (r:
        Result<Vec<u8>, SendError>)
        requires
            old(self)@.wf(),
            db@.wf(),
        ensures
            final(self)@.wf(),
            (final(self)@, result_view(r)) == notify_outcome(
                old(self)@,
                db@,
                sc_handle,
                service_changed_spec(start, end),
                true,
                now,
            ),
    {
        let mut value: Vec<u8> = Vec::new();
        push_le16(&mut value, start);
        push_le16(&mut value, end);
        assert(value@ =~= service_changed_spec(start, end));
        self.send_notification(db, sc_handle, &value, true, now)
    }

    /// The application did not answer the pending peer request
    /// `transaction_id` in time: the request fails with `ResponseTimeout`, the
    /// peer gets an Error Response so that the link can take its next request,
    /// and the slot is free.
    pub fn expire_request(&mut self, transaction_id: u64) -> (r: Option<(Failure, Vec<u8>)>)
        requires
            old(self)@.wf(),
        ensures
            final(self)@.wf(),
            match old(self)@.pending_request {
                Some((tid, h, _)) => if tid == transaction_id {
                    &&& (r matches Some((f, b)) && f == Failure::WriteRequest {
                        transaction_id,
                        error: TransactionError::ResponseTimeout,
                    } && b@ == error_reply(OP_WRITE_REQUEST, h, ERR_UNLIKELY_ERROR))
                    &&& final(self)@ == (ConnectionView { pending_request: None, ..old(self)@ })
                } else {
                    r is None && final(self)@ == old(self)@
                },
                None => r is None && final(self)@ == old(self)@,
            },
    {
        let matches = match &self.pending_request {
            Some(p) => p.transaction_id == transaction_id,
            None => false,
        };
        if !matches {
            return None;
        }
        match self.pending_request.take() {
            Some(p) => Some((
                Failure::WriteRequest { transaction_id, error: TransactionError::ResponseTimeout },
                error_pdu(OP_WRITE_REQUEST, p.handle, ERR_UNLIKELY_ERROR),
            )),
            None => None,
        }
    }

    /// Sends the Service Changed indication that `link` is owed, at the
    /// Service Changed value handle `sc_handle`, once no other indication
    /// waits for its confirmation. The debt is cleared only when the
    /// indication was built; otherwise it stays for a later attempt.
    pub fn send_service_changed(&mut self, db: &mut GattDatabase, link: u64, sc_handle: u16, now: u64) -> (r:
        Option<Result<Vec<u8>, SendError>>)
        requires
            old(self)@.wf(),
            old(db)@.wf(),
        ensures
            final(self)@.wf(),
            final(db)@.wf(),
            old(self)@.indication is Some || old(db)@.owed_to(link) is None ==> {
                &&& r is None
                &&& final(self)@ == old(self)@
                &&& final(db)@ == old(db)@
            },
            old(self)@.indication is None ==> match old(db)@.owed_to(link) {
                Some((start, end)) => {
                    &&& r is Some
                    &&& (final(self)@, result_view(r->Some_0)) == notify_outcome(
                        old(self)@,
                        old(db)@,
                        sc_handle,
                        service_changed_spec(start, end),
                        true,
                        now,
                    )
                    &&& final(db)@ == (if r->Some_0 is Ok {
                        DatabaseView {
                            links: old(db)@.links.update(old(db)@.link_index(link)->Some_0, (link, None)),
                            ..old(db)@
                        }
                    } else {
                        old(db)@
                    })
                },
                None => true,
            },
    {
        if self.indication.is_some() {
            return None;
        }
        match db.service_changed_owed(link) {
            None => None,
            Some((start, end)) => {
                let sent = self.indicate_service_changed(db, sc_handle, start, end, now);
                if sent.is_ok() {
                    db.take_service_changed(link);
                }
                Some(sent)
            },
        }
    }

    fn read_reply(&self, db: &GattDatabase, opcode: u8, h: u16, offset: usize) -> (r: (Option<Continuation>, Vec<u8>, u8))
        requires
            self@.wf(),
            db@.wf(),
        ensures
            (r.0, r.1@) == read_outcome(self@, db@, opcode, h, offset as int),
            r.2 == read_status(db@, h, offset as int),
    {
        match db.lookup(h) {
            None => (None, error_pdu(opcode, h, ERR_INVALID_HANDLE), ERR_INVALID_HANDLE),
            Some(a) => {
                if !((a.kind == AttributeKind::CharacteristicValue || a.kind == AttributeKind::Descriptor)
                    && a.properties & PROP_READ != 0) {
                    (None, error_pdu(opcode, h, ERR_READ_NOT_PERMITTED), ERR_READ_NOT_PERMITTED)
                } else if offset > a.value.len() {
                    (None, error_pdu(opcode, h, ERR_INVALID_OFFSET), ERR_INVALID_OFFSET)
                } else {
                    let room = (self.mtu - 1) as usize;
                    let len = a.value.len();
                    let end = if len - offset <= room { len } else { offset + room };
                    let part = copy_range(a.value.as_slice(), offset, end);
                    let resp = if opcode == OP_READ_REQUEST {
                        AttPdu::ReadResponse { value: part }
                    } else {
                        AttPdu::ReadBlobResponse { value: part }
                    };
                    let cont = if end < len { Some(Continuation { handle: h, offset: end }) } else { None };
                    (cont, encode_pdu(&resp), 0)
                }
            },
        }
    }

    /// Handles one PDU the transport delivered: routes it to the native client
    /// or serves it, and says what is to be done with it.
    pub fn on_inbound(&mut self, db: &mut GattDatabase, bytes: &[u8]) -> (r: Dispatch)
        requires
            old(self)@.wf(),
            old(db)@.wf(),
        ensures
            final(self)@.wf(),
            final(db)@.wf(),
            (final(self)@, final(db)@, r@) == step(old(self)@, old(db)@, bytes@),
            old(self)@.pending_request is Some && is_platform_request(old(self)@, old(db)@, bytes@) ==> {
                &&& r@ == DispatchView::Ignore
                &&& final(self)@ == old(self)@
                &&& final(db)@ == old(db)@
            },
            old(self)@.pending_request is Some ==> final(self)@.pending_request == old(self)@.pending_request,
            r@ is Deliver && r@->Deliver_0 is WriteRequest ==> old(self)@.pending_request is None,
            r@ is Reply ==> r@->Reply_0.len() <= final(self)@.mtu,
            r@ is ReplyAndDeliver ==> r@->ReplyAndDeliver_0.len() <= final(self)@.mtu,
    {
        proof {
            lemma_replies_fit(old(self)@, old(db)@, bytes@);
        }
        let d = self.inbound_core(db, bytes);
        match &d {
            Dispatch::Deliver(ServerEvent::WriteCommand { handle, value }) => {
                db.set_value(*handle, copy_bytes(value));
            },
            _ => {},
        }
        d
    }

    /// Handles one PDU that leaves the database as it is, so that a caller
    /// needs only shared access to it; a Write Command (`None`) is left for
    /// `on_inbound`, with the connection unchanged.
    pub fn on_inbound_shared(&mut self, db: &GattDatabase, bytes: &[u8]) -> (r: Option<Dispatch>)
        requires
            old(self)@.wf(),
            db@.wf(),
        ensures
            final(self)@.wf(),
            r is None <==> (bytes@.len() > 0 && bytes@[0] == OP_WRITE_COMMAND),
            r is None ==> final(self)@ == old(self)@,
            r matches Some(d) ==> (final(self)@, db@, d@) == step(old(self)@, db@, bytes@),
    {
        if bytes.len() > 0 && bytes[0] == OP_WRITE_COMMAND {
            return None;
        }
        let d = self.inbound_core(db, bytes);
        Some(d)
    }

    fn inbound_core(&mut self, db: &GattDatabase, bytes: &[u8]) -> (r: Dispatch)
        requires
            old(self)@.wf(),
            db@.wf(),
        ensures
            final(self)@.wf(),
            (final(self)@, stores(db@, r@), r@) == step(old(self)@, db@, bytes@),
            r@ matches DispatchView::Deliver(ServerEventView::WriteCommand { handle, .. }) ==> {
                &&& db@.attribute_at(handle as int) is Some
                &&& bytes@.len() > 0
                &&& bytes@[0] == OP_WRITE_COMMAND
            },
    {
        if !self.connected || bytes.len() == 0 {
            return Dispatch::Ignore;
        }
        match decode(bytes) {
            Err(CodecError::UnknownOpcode { opcode }) => {
                if opcode & COMMAND_FLAG != 0 {
                    Dispatch::Ignore
                } else {
                    Dispatch::Reply(error_pdu(opcode, 0, ERR_REQUEST_NOT_SUPPORTED))
                }
            },
            Err(CodecError::TruncatedPdu { opcode }) => {
                if request_opcode(opcode) {
                    Dispatch::Reply(error_pdu(opcode, 0, ERR_INVALID_PDU))
                } else {
                    Dispatch::ToNative
                }
            },
            Err(CodecError::ExceedsMtu { .. }) => Dispatch::Ignore,
            Ok(p) => self.dispatch_pdu(db, p),
        }
    }

    fn dispatch_pdu(&mut self, db: &GattDatabase, p: AttPdu) -> (r: Dispatch)
        requires
            old(self)@.wf(),
            db@.wf(),
            old(self)@.connected,
        ensures
            final(self)@.wf(),
            (final(self)@, stores(db@, r@), r@) == (if routes_to_platform(old(self)@, db@, p@) {
                platform_step(old(self)@, db@, p@)
            } else {
                (old(self)@, db@, DispatchView::ToNative)
            }),
            r@ matches DispatchView::Deliver(ServerEventView::WriteCommand { handle, .. }) ==> {
                &&& db@.attribute_at(handle as int) is Some
                &&& p@ is WriteCommand
            },
    {
        match p {
            AttPdu::ReadRequest { handle } => {
                if db.lookup(handle).is_none() {
                    Dispatch::ToNative
                } else if self.pending_request.is_some() {
                    Dispatch::Ignore
                } else {
                    let (cont, bytes, status) = self.read_reply(db, OP_READ_REQUEST, handle, 0);
                    self.continuation = cont;
                    Dispatch::ReplyAndDeliver(bytes, ServerEvent::CharacteristicReadRequest { handle, offset: 0, status })
                }
            },
            AttPdu::ReadBlobRequest { handle, offset } => {
                if db.lookup(handle).is_none() {
                    Dispatch::ToNative
                } else if self.pending_request.is_some() {
                    Dispatch::Ignore
                } else {
                    let (cont, bytes, status) = self.read_reply(db, OP_READ_BLOB_REQUEST, handle, offset as usize);
                    self.continuation = cont;
                    Dispatch::ReplyAndDeliver(
                        bytes,
                        ServerEvent::CharacteristicReadRequest { handle, offset: offset as usize, status },
                    )
                }
            },
            AttPdu::WriteRequest { handle, value } => {
                let allowed = match db.lookup(handle) {
                    None => {
                        return Dispatch::ToNative;
                    },
                    Some(a) => (a.kind == AttributeKind::CharacteristicValue || a.kind == AttributeKind::Descriptor)
                        && a.properties & PROP_WRITE != 0,
                };
                if self.pending_request.is_some() {
                    return Dispatch::Ignore;
                }
                self.continuation = None;
                if !allowed {
                    Dispatch::Reply(error_pdu(OP_WRITE_REQUEST, handle, ERR_WRITE_NOT_PERMITTED))
                } else if self.next_transaction == u64::MAX {
                    Dispatch::Reply(error_pdu(OP_WRITE_REQUEST, handle, ERR_UNLIKELY_ERROR))
                } else {
                    let tid = self.next_transaction;
                    let event_value = copy_bytes(&value);
                    self.pending_request = Some(PendingRequest { transaction_id: tid, handle, value });
                    self.next_transaction = tid + 1;
                    Dispatch::Deliver(ServerEvent::WriteRequest { transaction_id: tid, handle, value: event_value })
                }
            },
            AttPdu::WriteCommand { handle, value } => {
                let allowed = match db.lookup(handle) {
                    None => {
                        return Dispatch::ToNative;
                    },
                    Some(a) => (a.kind == AttributeKind::CharacteristicValue || a.kind == AttributeKind::Descriptor)
                        && a.properties & PROP_WRITE_NO_RESPONSE != 0,
                };
                self.continuation = None;
                if allowed {
                    Dispatch::Deliver(ServerEvent::WriteCommand { handle, value })
                } else {
                    Dispatch::Ignore
                }
            },
            AttPdu::Other { opcode, params } => {
                let handle = match target_of(db, opcode, &params) {
                    Some(h) => h,
                    None => {
                        return Dispatch::ToNative;
                    },
                };
                if self.pending_request.is_some() {
                    Dispatch::Ignore
                } else {
                    self.continuation = None;
                    Dispatch::Reply(error_pdu(opcode, handle, ERR_REQUEST_NOT_SUPPORTED))
                }
            },
            AttPdu::HandleValueConfirmation => {
                match self.indication {
                    Some(ind) => {
                        self.indication = None;
                        Dispatch::Deliver(ServerEvent::IndicationConfirmed { handle: ind.handle })
                    },
                    None => Dispatch::ToNative,
                }
            },
            _ => Dispatch::ToNative,
        }
    }
}

} // verus!
