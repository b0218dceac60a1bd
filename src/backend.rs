use vstd::prelude::*;
use crate::wire::{take_u8, take_u16, take_u32, take_i16, take_i32, take_bytes, take_cstr};

verus! {

/// Metadata of one column of a row description.
#[derive(Debug)]
pub struct RowDescriptionEntry {
    pub name: String,
    pub table_oid: u32,
    pub column_id: i16,
    pub type_oid: u32,
    pub type_size: i16,
    pub type_modifier: i32,
    pub format: i16,
}

/// A message from server to client, owning the data decoded for it.
#[derive(Debug)]
pub enum BackendMessage {
    AuthenticationCleartextPassword,
    AuthenticationGSS,
    AuthenticationKerberosV5,
    AuthenticationMD5Password { salt: [u8; 4] },
    AuthenticationOk,
    AuthenticationSCMCredential,
    AuthenticationSSPI,
    BackendKeyData { process_id: u32, secret_key: u32 },
    BindComplete,
    CloseComplete,
    CommandComplete { tag: String },
    CopyInResponse { format: u8, column_formats: Vec<u16> },
    DataRow { row: Vec<Option<Vec<u8>>> },
    EmptyQueryResponse,
    ErrorResponse { fields: Vec<(u8, String)> },
    NoData,
    NoticeResponse { fields: Vec<(u8, String)> },
    NotificationResponse { pid: u32, channel: String, payload: String },
    ParameterDescription { types: Vec<u32> },
    ParameterStatus { parameter: String, value: String },
    ParseComplete,
    PortalSuspended,
    ReadyForQuery { _state: u8 },
    RowDescription { descriptions: Vec<RowDescriptionEntry> },
}

/// Why bytes from the server could not be decoded.
#[derive(Debug, Clone, Copy, PartialEq, Eq, Structural)]
pub enum DecodeError {
    /// The tag byte names no backend message.
    UnexpectedTag,
    /// An authentication request with a sub-code this layer does not know.
    UnknownAuthentication,
    /// The payload ends early, a C-string lacks its terminator or is not
    /// UTF-8, or a value length is negative and not -1.
    Malformed,
    /// The message was decoded before the payload's end.
    TrailingBytes,
    /// The length field is smaller than itself.
    BadLength,
    /// The buffer ends before the message does.
    Incomplete,
}

// ---------------------------------------------------------------------------
// The mathematical model of a decoded message.
// ---------------------------------------------------------------------------

pub struct ColumnView {
    pub name: Seq<char>,
    pub table_oid: u32,
    pub column_id: i16,
    pub type_oid: u32,
    pub type_size: i16,
    pub type_modifier: i32,
    pub format: i16,
}

pub enum BackendView {
    AuthenticationCleartextPassword,
    AuthenticationGSS,
    AuthenticationKerberosV5,
    AuthenticationMD5Password { salt: Seq<u8> },
    AuthenticationOk,
    AuthenticationSCMCredential,
    AuthenticationSSPI,
    BackendKeyData { process_id: u32, secret_key: u32 },
    BindComplete,
    CloseComplete,
    CommandComplete { tag: Seq<char> },
    CopyInResponse { format: u8, column_formats: Seq<u16> },
    DataRow { row: Seq<Option<Seq<u8>>> },
    EmptyQueryResponse,
    ErrorResponse { fields: Seq<(u8, Seq<char>)> },
    NoData,
    NoticeResponse { fields: Seq<(u8, Seq<char>)> },
    NotificationResponse { pid: u32, channel: Seq<char>, payload: Seq<char> },
    ParameterDescription { types: Seq<u32> },
    ParameterStatus { parameter: Seq<char>, value: Seq<char> },
    ParseComplete,
    PortalSuspended,
    ReadyForQuery { state: u8 },
    RowDescription { descriptions: Seq<ColumnView> },
}

impl View for RowDescriptionEntry {
    type V = ColumnView;

    open spec fn view(&self) -> ColumnView {
        ColumnView {
            name: self.name@,
            table_oid: self.table_oid,
            column_id: self.column_id,
            type_oid: self.type_oid,
            type_size: self.type_size,
            type_modifier: self.type_modifier,
            format: self.format,
        }
    }
}

pub open spec fn value_view(v: Option<Vec<u8>>) -> Option<Seq<u8>> {
    match v {
        Some(d) => Some(d@),
        None => None,
    }
}

pub open spec fn field_view(f: (u8, String)) -> (u8, Seq<char>) {
    (f.0, f.1@)
}

pub open spec fn row_view(row: Seq<Option<Vec<u8>>>) -> Seq<Option<Seq<u8>>> {
    row.map_values(|v: Option<Vec<u8>>| value_view(v))
}

pub open spec fn fields_view(fields: Seq<(u8, String)>) -> Seq<(u8, Seq<char>)> {
    fields.map_values(|f: (u8, String)| field_view(f))
}

pub open spec fn columns_view(cols: Seq<RowDescriptionEntry>) -> Seq<ColumnView> {
    cols.map_values(|c: RowDescriptionEntry| c@)
}

impl View for BackendMessage {
    type V = BackendView;

    open spec fn view(&self) -> BackendView {
        match self {
            BackendMessage::AuthenticationCleartextPassword => BackendView::AuthenticationCleartextPassword,
            BackendMessage::AuthenticationGSS => BackendView::AuthenticationGSS,
            BackendMessage::AuthenticationKerberosV5 => BackendView::AuthenticationKerberosV5,
            BackendMessage::AuthenticationMD5Password { salt } => BackendView::AuthenticationMD5Password {
                salt: salt@,
            },
            BackendMessage::AuthenticationOk => BackendView::AuthenticationOk,
            BackendMessage::AuthenticationSCMCredential => BackendView::AuthenticationSCMCredential,
            BackendMessage::AuthenticationSSPI => BackendView::AuthenticationSSPI,
            BackendMessage::BackendKeyData { process_id, secret_key } => BackendView::BackendKeyData {
                process_id: *process_id,
                secret_key: *secret_key,
            },
            BackendMessage::BindComplete => BackendView::BindComplete,
            BackendMessage::CloseComplete => BackendView::CloseComplete,
            BackendMessage::CommandComplete { tag } => BackendView::CommandComplete { tag: tag@ },
            BackendMessage::CopyInResponse { format, column_formats } => BackendView::CopyInResponse {
                format: *format,
                column_formats: column_formats@,
            },
            BackendMessage::DataRow { row } => BackendView::DataRow { row: row_view(row@) },
            BackendMessage::EmptyQueryResponse => BackendView::EmptyQueryResponse,
            BackendMessage::ErrorResponse { fields } => BackendView::ErrorResponse {
                fields: fields_view(fields@),
            },
            BackendMessage::NoData => BackendView::NoData,
            BackendMessage::NoticeResponse { fields } => BackendView::NoticeResponse {
                fields: fields_view(fields@),
            },
            BackendMessage::NotificationResponse { pid, channel, payload } => BackendView::NotificationResponse {
                pid: *pid,
                channel: channel@,
                payload: payload@,
            },
            BackendMessage::ParameterDescription { types } => BackendView::ParameterDescription {
                types: types@,
            },
            BackendMessage::ParameterStatus { parameter, value } => BackendView::ParameterStatus {
                parameter: parameter@,
                value: value@,
            },
            BackendMessage::ParseComplete => BackendView::ParseComplete,
            BackendMessage::PortalSuspended => BackendView::PortalSuspended,
            BackendMessage::ReadyForQuery { _state } => BackendView::ReadyForQuery { state: *_state },
            BackendMessage::RowDescription { descriptions } => BackendView::RowDescription {
                descriptions: columns_view(descriptions@),
            },
        }
    }
}

// ---------------------------------------------------------------------------
// The grammar of a payload, as readers from the front of a byte sequence.
// ---------------------------------------------------------------------------

/// `n` items read one after another by `item`.
pub open spec fn take_n<T>(b: Seq<u8>, n: nat, item: spec_fn(Seq<u8>) -> Option<(T, Seq<u8>)>) -> Option<
    (Seq<T>, Seq<u8>),
>
    decreases n,
{
    if n == 0 {
        Some((seq![], b))
    } else {
        match take_n(b, (n - 1) as nat, item) {
            Some((xs, r)) => match item(r) {
                Some((x, r2)) => Some((xs.push(x), r2)),
                None => None,
            },
            None => None,
        }
    }
}

pub proof fn lemma_take_n_fails<T>(
    b: Seq<u8>,
    k: nat,
    n: nat,
    item: spec_fn(Seq<u8>) -> Option<(T, Seq<u8>)>,
)
    requires
        k <= n,
        take_n(b, k, item) is None,
    ensures
        take_n(b, n, item) is None,
    decreases n - k,
{
    if k < n {
        lemma_take_n_fails(b, k, (n - 1) as nat, item);
    }
}

pub open spec fn u16_item() -> spec_fn(Seq<u8>) -> Option<(u16, Seq<u8>)> {
    |r: Seq<u8>| take_u16(r)
}

pub open spec fn u32_item() -> spec_fn(Seq<u8>) -> Option<(u32, Seq<u8>)> {
    |r: Seq<u8>| take_u32(r)
}

pub open spec fn value_item() -> spec_fn(Seq<u8>) -> Option<(Option<Seq<u8>>, Seq<u8>)> {
    |r: Seq<u8>| take_value(r)
}

pub open spec fn column_item() -> spec_fn(Seq<u8>) -> Option<(ColumnView, Seq<u8>)> {
    |r: Seq<u8>| take_column(r)
}

pub open spec fn u16_items(b: Seq<u8>, n: nat) -> Option<(Seq<u16>, Seq<u8>)> {
    take_n(b, n, u16_item())
}

pub open spec fn u32_items(b: Seq<u8>, n: nat) -> Option<(Seq<u32>, Seq<u8>)> {
    take_n(b, n, u32_item())
}

/// One column value of a data row: length -1 is NULL, a length `n >= 0` is
/// followed by `n` raw bytes.
pub open spec fn take_value(b: Seq<u8>) -> Option<(Option<Seq<u8>>, Seq<u8>)> {
    match take_i32(b) {
        Some((len, r)) => if len == -1 {
            Some((None, r))
        } else if len >= 0 {
            match take_bytes(r, len as nat) {
                Some((d, r2)) => Some((Some(d), r2)),
                None => None,
            }
        } else {
            None
        },
        None => None,
    }
}

pub open spec fn value_items(b: Seq<u8>, n: nat) -> Option<(Seq<Option<Seq<u8>>>, Seq<u8>)> {
    take_n(b, n, value_item())
}

/// One column of a row description.
pub open spec fn take_column(b: Seq<u8>) -> Option<(ColumnView, Seq<u8>)> {
    match take_cstr(b) {
        Some((name, r1)) => match take_u32(r1) {
            Some((table_oid, r2)) => match take_i16(r2) {
                Some((column_id, r3)) => match take_u32(r3) {
                    Some((type_oid, r4)) => match take_i16(r4) {
                        Some((type_size, r5)) => match take_i32(r5) {
                            Some((type_modifier, r6)) => match take_i16(r6) {
                                Some((format, r7)) => Some(
                                    (
                                        ColumnView {
                                            name,
                                            table_oid,
                                            column_id,
                                            type_oid,
                                            type_size,
                                            type_modifier,
                                            format,
                                        },
                                        r7,
                                    ),
                                ),
                                None => None,
                            },
                            None => None,
                        },
                        None => None,
                    },
                    None => None,
                },
                None => None,
            },
            None => None,
        },
        None => None,
    }
}

pub open spec fn column_items(b: Seq<u8>, n: nat) -> Option<(Seq<ColumnView>, Seq<u8>)> {
    take_n(b, n, column_item())
}

/// A list of (kind, text) fields ended by a zero kind byte.
pub open spec fn take_fields(b: Seq<u8>) -> Option<(Seq<(u8, Seq<char>)>, Seq<u8>)>
    decreases b.len(),
{
    match take_u8(b) {
        Some((kind, r)) => if kind == 0 {
            Some((seq![], r))
        } else {
            match take_cstr(r) {
                Some((text, r2)) => if r2.len() < b.len() {
                    match take_fields(r2) {
                        Some((fs, r3)) => Some((seq![(kind, text)] + fs, r3)),
                        None => None,
                    }
                } else {
                    None
                },
                None => None,
            }
        },
        None => None,
    }
}

/// The authentication sub-codes this layer knows.
pub open spec fn known_auth(code: i32) -> bool {
    code == 0 || code == 2 || code == 3 || code == 5 || code == 6 || code == 7 || code == 9
}

pub open spec fn take_auth(b: Seq<u8>) -> Option<(BackendView, Seq<u8>)> {
    match take_i32(b) {
        Some((code, r)) => if code == 0 {
            Some((BackendView::AuthenticationOk, r))
        } else if code == 2 {
            Some((BackendView::AuthenticationKerberosV5, r))
        } else if code == 3 {
            Some((BackendView::AuthenticationCleartextPassword, r))
        } else if code == 5 {
            match take_bytes(r, 4) {
                Some((salt, r2)) => Some((BackendView::AuthenticationMD5Password { salt }, r2)),
                None => None,
            }
        } else if code == 6 {
            Some((BackendView::AuthenticationSCMCredential, r))
        } else if code == 7 {
            Some((BackendView::AuthenticationGSS, r))
        } else if code == 9 {
            Some((BackendView::AuthenticationSSPI, r))
        } else {
            None
        },
        None => None,
    }
}

pub open spec fn take_data_row(b: Seq<u8>) -> Option<(BackendView, Seq<u8>)> {
    match take_u16(b) {
        Some((n, r)) => match value_items(r, n as nat) {
            Some((row, r2)) => Some((BackendView::DataRow { row }, r2)),
            None => None,
        },
        None => None,
    }
}

pub open spec fn take_parameter_description(b: Seq<u8>) -> Option<(BackendView, Seq<u8>)> {
    match take_u16(b) {
        Some((n, r)) => match u32_items(r, n as nat) {
            Some((types, r2)) => Some((BackendView::ParameterDescription { types }, r2)),
            None => None,
        },
        None => None,
    }
}

pub open spec fn take_row_description(b: Seq<u8>) -> Option<(BackendView, Seq<u8>)> {
    match take_u16(b) {
        Some((n, r)) => match column_items(r, n as nat) {
            Some((descriptions, r2)) => Some((BackendView::RowDescription { descriptions }, r2)),
            None => None,
        },
        None => None,
    }
}

pub open spec fn take_copy_in_response(b: Seq<u8>) -> Option<(BackendView, Seq<u8>)> {
    match take_u8(b) {
        Some((format, r)) => match take_u16(r) {
            Some((n, r2)) => match u16_items(r2, n as nat) {
                Some((column_formats, r3)) => Some(
                    (BackendView::CopyInResponse { format, column_formats }, r3),
                ),
                None => None,
            },
            None => None,
        },
        None => None,
    }
}

pub open spec fn take_two_cstrs(b: Seq<u8>) -> Option<(Seq<char>, Seq<char>, Seq<u8>)> {
    match take_cstr(b) {
        Some((s1, r1)) => match take_cstr(r1) {
            Some((s2, r2)) => Some((s1, s2, r2)),
            None => None,
        },
        None => None,
    }
}

/// The tag bytes of the backend messages.
pub open spec fn known_tag(tag: u8) -> bool {
    tag == 0x31 || tag == 0x32 || tag == 0x33 || tag == 0x41 || tag == 0x43 || tag == 0x44
        || tag == 0x45 || tag == 0x47 || tag == 0x49 || tag == 0x4b || tag == 0x6e || tag == 0x4e
        || tag == 0x52 || tag == 0x73 || tag == 0x53 || tag == 0x74 || tag == 0x54 || tag == 0x5a
}

/// The message that a payload with tag `tag` starts with, and what follows it.
pub open spec fn take_body(tag: u8, b: Seq<u8>) -> Option<(BackendView, Seq<u8>)> {
    if tag == 0x31 {
        Some((BackendView::ParseComplete, b))
    } else if tag == 0x32 {
        Some((BackendView::BindComplete, b))
    } else if tag == 0x33 {
        Some((BackendView::CloseComplete, b))
    } else if tag == 0x41 {
        match take_u32(b) {
            Some((pid, r)) => match take_two_cstrs(r) {
                Some((channel, payload, r2)) => Some(
                    (BackendView::NotificationResponse { pid, channel, payload }, r2),
                ),
                None => None,
            },
            None => None,
        }
    } else if tag == 0x43 {
        match take_cstr(b) {
            Some((t, r)) => Some((BackendView::CommandComplete { tag: t }, r)),
            None => None,
        }
    } else if tag == 0x44 {
        take_data_row(b)
    } else if tag == 0x45 {
        match take_fields(b) {
            Some((fields, r)) => Some((BackendView::ErrorResponse { fields }, r)),
            None => None,
        }
    } else if tag == 0x47 {
        take_copy_in_response(b)
    } else if tag == 0x49 {
        Some((BackendView::EmptyQueryResponse, b))
    } else if tag == 0x4b {
        match take_u32(b) {
            Some((process_id, r)) => match take_u32(r) {
                Some((secret_key, r2)) => Some(
                    (BackendView::BackendKeyData { process_id, secret_key }, r2),
                ),
                None => None,
            },
            None => None,
        }
    } else if tag == 0x6e {
        Some((BackendView::NoData, b))
    } else if tag == 0x4e {
        match take_fields(b) {
            Some((fields, r)) => Some((BackendView::NoticeResponse { fields }, r)),
            None => None,
        }
    } else if tag == 0x52 {
        take_auth(b)
    } else if tag == 0x73 {
        Some((BackendView::PortalSuspended, b))
    } else if tag == 0x53 {
        match take_two_cstrs(b) {
            Some((parameter, value, r)) => Some(
                (BackendView::ParameterStatus { parameter, value }, r),
            ),
            None => None,
        }
    } else if tag == 0x74 {
        take_parameter_description(b)
    } else if tag == 0x54 {
        take_row_description(b)
    } else if tag == 0x5a {
        match take_u8(b) {
            Some((state, r)) => Some((BackendView::ReadyForQuery { state }, r)),
            None => None,
        }
    } else {
        None
    }
}

/// What decoding the payload `b` of a message with tag `tag` gives: the
/// message, which must take up the whole payload, or why there is none.
pub open spec fn body_message(tag: u8, b: Seq<u8>) -> Result<BackendView, DecodeError> {
    if !known_tag(tag) {
        Err(DecodeError::UnexpectedTag)
    } else if tag == 0x52 && (match take_i32(b) {
        Some((code, _)) => !known_auth(code),
        None => false,
    }) {
        Err(DecodeError::UnknownAuthentication)
    } else {
        match take_body(tag, b) {
            Some((m, r)) => if r.len() == 0 {
                Ok(m)
            } else {
                Err(DecodeError::TrailingBytes)
            },
            None => Err(DecodeError::Malformed),
        }
    }
}

/// The payload length that a length field declares.
pub open spec fn declared_body_len(len: u32) -> Option<nat> {
    if len >= 4 {
        Some((len - 4) as nat)
    } else {
        None
    }
}

/// What decoding the message at the front of `b` gives: the message and the
/// number of bytes it takes up (tag, length field and payload), or why there
/// is none.
pub open spec fn frame_message(b: Seq<u8>) -> Result<(BackendView, nat), DecodeError> {
    if b.len() < 5 {
        Err(DecodeError::Incomplete)
    } else {
        let len = u32_of_at(b, 1);
        match declared_body_len(len) {
            None => Err(DecodeError::BadLength),
            Some(n) => if b.len() < 5 + n {
                Err(DecodeError::Incomplete)
            } else {
                match body_message(b[0], b.subrange(5, 5 + n as int)) {
                    Ok(m) => Ok((m, 5 + n)),
                    Err(e) => Err(e),
                }
            },
        }
    }
}

pub open spec fn u32_of_at(b: Seq<u8>, i: int) -> u32 {
    crate::wire::u32_of(b[i], b[i + 1], b[i + 2], b[i + 3])
}

} // verus!
