use vstd::prelude::*;
use crate::wire::{
    be_u16, be_u32, be_i16, be_i32, cstr, nul_free, lemma_u8_round_trip, lemma_u16_round_trip,
    lemma_i16_round_trip, lemma_cstr_round_trip, take_u8, take_u16, take_u32, take_i16, take_i32, take_cstr,
    lemma_u8_extends, lemma_u16_extends, lemma_u32_extends, lemma_bytes_extends,
    lemma_cstr_extends, lemma_u32_round_trip, lemma_i32_round_trip, lemma_bytes_round_trip,
};
use crate::frontend::{FrontendMessage, value_list, frontend_bytes, frontend_payload, frontend_tag, frontend_fits};
use crate::backend::{
    BackendView, ColumnView, DecodeError, known_auth, take_n, take_value, take_column, take_fields, take_auth, take_data_row,
    take_parameter_description, take_row_description, take_copy_in_response, take_two_cstrs,
    take_body, body_message, u16_items, u32_items, value_items, column_items, u16_item,
    u32_item, value_item, column_item, row_view, value_view,
};
use crate::connect::{SslMode, SslStep, NegotiationError, response_step};

verus! {

// ---------------------------------------------------------------------------
// Readers of whole payloads look only at what they take.
// ---------------------------------------------------------------------------

/// `item` reads the same from `s + e` as from `s`, leaving `e` behind.
pub open spec fn extends_by<T>(item: spec_fn(Seq<u8>) -> Option<(T, Seq<u8>)>, e: Seq<u8>) -> bool {
    forall|s: Seq<u8>|
        (#[trigger] item(s) matches Some((x, r)) ==> item(s + e) == Some((x, r + e)))
}

proof fn lemma_take_n_extends<T>(
    b: Seq<u8>,
    e: Seq<u8>,
    n: nat,
    item: spec_fn(Seq<u8>) -> Option<(T, Seq<u8>)>,
)
    requires
        extends_by(item, e),
    ensures
        take_n(b, n, item) matches Some((xs, r)) ==> take_n(b + e, n, item) == Some((xs, r + e)),
    decreases n,
{
    if n > 0 {
        lemma_take_n_extends(b, e, (n - 1) as nat, item);
        match take_n(b, (n - 1) as nat, item) {
            Some((xs, r)) => {
                let _ = item(r);
            },
            None => {},
        }
    }
}

proof fn lemma_value_extends(b: Seq<u8>, e: Seq<u8>)
    ensures
        take_value(b) matches Some((v, r)) ==> take_value(b + e) == Some((v, r + e)),
{
    lemma_u32_extends(b, e);
    match take_i32(b) {
        Some((len, r)) => {
            if len >= 0 {
                lemma_bytes_extends(r, e, len as nat);
            }
        },
        None => {},
    }
}

proof fn lemma_column_extends(b: Seq<u8>, e: Seq<u8>)
    ensures
        take_column(b) matches Some((v, r)) ==> take_column(b + e) == Some((v, r + e)),
{
    lemma_cstr_extends(b, e);
    if let Some((_, r1)) = take_cstr(b) {
        lemma_u32_extends(r1, e);
        if let Some((_, r2)) = take_u32(r1) {
            lemma_u16_extends(r2, e);
            if let Some((_, r3)) = take_i16(r2) {
                lemma_u32_extends(r3, e);
                if let Some((_, r4)) = take_u32(r3) {
                    lemma_u16_extends(r4, e);
                    if let Some((_, r5)) = take_i16(r4) {
                        lemma_u32_extends(r5, e);
                        if let Some((_, r6)) = take_i32(r5) {
                            lemma_u16_extends(r6, e);
                        }
                    }
                }
            }
        }
    }
}

proof fn lemma_lists_extend(b: Seq<u8>, e: Seq<u8>, n: nat)
    ensures
        u16_items(b, n) matches Some((xs, r)) ==> u16_items(b + e, n) == Some((xs, r + e)),
        u32_items(b, n) matches Some((xs, r)) ==> u32_items(b + e, n) == Some((xs, r + e)),
        value_items(b, n) matches Some((xs, r)) ==> value_items(b + e, n) == Some((xs, r + e)),
        column_items(b, n) matches Some((xs, r)) ==> column_items(b + e, n) == Some((xs, r + e)),
{
    assert forall|s: Seq<u8>| (#[trigger] u16_item()(s) matches Some((x, r)) ==> u16_item()(s + e) == Some((x, r + e))) by {
        lemma_u16_extends(s, e);
    }
    assert forall|s: Seq<u8>| (#[trigger] u32_item()(s) matches Some((x, r)) ==> u32_item()(s + e) == Some((x, r + e))) by {
        lemma_u32_extends(s, e);
    }
    assert forall|s: Seq<u8>| (#[trigger] value_item()(s) matches Some((x, r)) ==> value_item()(s + e) == Some((x, r + e))) by {
        lemma_value_extends(s, e);
    }
    assert forall|s: Seq<u8>| (#[trigger] column_item()(s) matches Some((x, r)) ==> column_item()(s + e) == Some((x, r + e))) by {
        lemma_column_extends(s, e);
    }
    lemma_take_n_extends(b, e, n, u16_item());
    lemma_take_n_extends(b, e, n, u32_item());
    lemma_take_n_extends(b, e, n, value_item());
    lemma_take_n_extends(b, e, n, column_item());
}

proof fn lemma_fields_extend(b: Seq<u8>, e: Seq<u8>)
    ensures
        take_fields(b) matches Some((fs, r)) ==> take_fields(b + e) == Some((fs, r + e)),
    decreases b.len(),
{
    lemma_u8_extends(b, e);
    if let Some((kind, r)) = take_u8(b) {
        if kind != 0 {
            lemma_cstr_extends(r, e);
            if let Some((_, r2)) = take_cstr(r) {
                if r2.len() < b.len() {
                    lemma_fields_extend(r2, e);
                }
            }
        }
    }
}

proof fn lemma_two_cstrs_extend(b: Seq<u8>, e: Seq<u8>)
    ensures
        take_two_cstrs(b) matches Some((s1, s2, r)) ==> take_two_cstrs(b + e) == Some(
            (s1, s2, r + e),
        ),
{
    lemma_cstr_extends(b, e);
    if let Some((_, r)) = take_cstr(b) {
        lemma_cstr_extends(r, e);
    }
}

proof fn lemma_counted_extend(b: Seq<u8>, e: Seq<u8>)
    ensures
        take_data_row(b) matches Some((m, r)) ==> take_data_row(b + e) == Some((m, r + e)),
        take_parameter_description(b) matches Some((m, r)) ==> take_parameter_description(b + e)
            == Some((m, r + e)),
        take_row_description(b) matches Some((m, r)) ==> take_row_description(b + e) == Some(
            (m, r + e),
        ),
{
    lemma_u16_extends(b, e);
    if let Some((n, r)) = take_u16(b) {
        lemma_lists_extend(r, e, n as nat);
    }
}

proof fn lemma_copy_in_extends(b: Seq<u8>, e: Seq<u8>)
    ensures
        take_copy_in_response(b) matches Some((m, r)) ==> take_copy_in_response(b + e) == Some(
            (m, r + e),
        ),
{
    lemma_u8_extends(b, e);
    if let Some((_, r)) = take_u8(b) {
        lemma_u16_extends(r, e);
        if let Some((n, r2)) = take_u16(r) {
            lemma_lists_extend(r2, e, n as nat);
        }
    }
}

proof fn lemma_auth_extends(b: Seq<u8>, e: Seq<u8>)
    ensures
        take_auth(b) matches Some((m, r)) ==> take_auth(b + e) == Some((m, r + e)),
{
    lemma_u32_extends(b, e);
    if let Some((_, r)) = take_i32(b) {
        lemma_bytes_extends(r, e, 4);
    }
}

proof fn lemma_pair_u32_extends(b: Seq<u8>, e: Seq<u8>)
    ensures
        take_u32(b) matches Some((_, r)) ==> (take_u32(r) matches Some((v, r2)) ==> take_u32(
            r + e,
        ) == Some((v, r2 + e))),
        take_u32(b) matches Some((_, r)) ==> (take_two_cstrs(r) matches Some((s1, s2, r2))
            ==> take_two_cstrs(r + e) == Some((s1, s2, r2 + e))),
{
    if let Some((_, r)) = take_u32(b) {
        lemma_u32_extends(r, e);
        lemma_two_cstrs_extend(r, e);
    }
}

proof fn lemma_body_extends(tag: u8, b: Seq<u8>, e: Seq<u8>)
    ensures
        take_body(tag, b) matches Some((m, r)) ==> take_body(tag, b + e) == Some((m, r + e)),
{
    if tag == 0x41 || tag == 0x4b {
        lemma_u32_extends(b, e);
        lemma_pair_u32_extends(b, e);
    } else if tag == 0x43 {
        lemma_cstr_extends(b, e);
    } else if tag == 0x44 || tag == 0x74 || tag == 0x54 {
        lemma_counted_extend(b, e);
    } else if tag == 0x45 || tag == 0x4e {
        lemma_fields_extend(b, e);
    } else if tag == 0x47 {
        lemma_copy_in_extends(b, e);
    } else if tag == 0x52 {
        lemma_auth_extends(b, e);
    } else if tag == 0x53 {
        lemma_two_cstrs_extend(b, e);
    } else if tag == 0x5a {
        lemma_u8_extends(b, e);
    }
}

// ---------------------------------------------------------------------------
// Framing.
// ---------------------------------------------------------------------------

/// Whatever a frontend message is, its length field, which follows the tag
/// byte if there is one, holds 4 plus the number of payload bytes, and the
/// payload runs to the end of the encoding.
pub proof fn law_frontend_length_field(m: FrontendMessage)
    requires
        frontend_fits(m),
    ensures
        ({
            let head = if frontend_tag(m) is Some {
                1int
            } else {
                0int
            };
            &&& take_u32(frontend_bytes(m).skip(head)) == Some(
                ((frontend_payload(m).len() + 4) as u32, frontend_payload(m)),
            )
            &&& (frontend_payload(m).len() + 4) as u32 == frontend_payload(m).len() + 4
            &&& frontend_bytes(m).len() == head + 4 + frontend_payload(m).len()
        }),
{
    let p = frontend_payload(m);
    let head = if frontend_tag(m) is Some {
        1int
    } else {
        0int
    };
    lemma_u32_round_trip((p.len() + 4) as u32, p);
    assert(frontend_bytes(m).skip(head) =~= be_u32((p.len() + 4) as u32) + p);
}

/// A payload that decodes to a message no longer decodes once bytes are
/// added to its end: the decoder reports the bytes it did not use.
pub proof fn law_extra_bytes_rejected(tag: u8, b: Seq<u8>, e: Seq<u8>)
    requires
        body_message(tag, b) is Ok,
        e.len() > 0,
    ensures
        body_message(tag, b + e) == Err::<crate::backend::BackendView, DecodeError>(
            DecodeError::TrailingBytes,
        ),
{
    lemma_body_extends(tag, b, e);
    lemma_u32_extends(b, e);
}

/// A payload that decodes to a message no longer decodes once its last
/// byte is taken away.
pub proof fn law_missing_byte_rejected(tag: u8, b: Seq<u8>)
    requires
        body_message(tag, b) is Ok,
        b.len() > 0,
    ensures
        body_message(tag, b.drop_last()) is Err,
{
    let s = b.drop_last();
    let e = seq![b.last()];
    assert(s + e =~= b);
    if body_message(tag, s) is Ok {
        law_extra_bytes_rejected(tag, s, e);
    }
}

// ---------------------------------------------------------------------------
// Values of a value list.
// ---------------------------------------------------------------------------

/// NULL is sent as the length -1 with no bytes after it, and the length -1
/// reads back as NULL.
pub proof fn law_null_value(rest: Seq<u8>)
    ensures
        crate::frontend::value_bytes(None) == be_i32(-1i32),
        take_i32(crate::frontend::value_bytes(None)) == Some((-1i32, Seq::<u8>::empty())),
        take_value(be_i32(-1i32) + rest) == Some((None::<Seq<u8>>, rest)),
{
    lemma_i32_round_trip(-1i32, Seq::<u8>::empty());
    assert(be_i32(-1i32) + Seq::<u8>::empty() =~= be_i32(-1i32));
    lemma_i32_round_trip(-1i32, rest);
}

/// A non-negative length `n` followed by `n` bytes reads back as exactly
/// those bytes.
pub proof fn law_value_bytes(data: Seq<u8>, rest: Seq<u8>)
    requires
        data.len() <= i32::MAX,
    ensures
        take_value(be_i32(data.len() as i32) + data + rest) == Some((Some(data), rest)),
{
    let b = be_i32(data.len() as i32) + data + rest;
    assert(b =~= be_i32(data.len() as i32) + (data + rest));
    lemma_i32_round_trip(data.len() as i32, data + rest);
    lemma_bytes_round_trip(data, rest);
}

// ---------------------------------------------------------------------------
// What a server sends, and decoding it back.
// ---------------------------------------------------------------------------

/// The encodings of `xs`, one after another.
pub open spec fn concat_map<T>(xs: Seq<T>, f: spec_fn(T) -> Seq<u8>) -> Seq<u8>
    decreases xs.len(),
{
    if xs.len() == 0 {
        seq![]
    } else {
        concat_map(xs.drop_last(), f) + f(xs.last())
    }
}

pub open spec fn u16_bytes() -> spec_fn(u16) -> Seq<u8> {
    |x: u16| be_u16(x)
}

pub open spec fn u32_bytes() -> spec_fn(u32) -> Seq<u8> {
    |x: u32| be_u32(x)
}

/// A column value: length -1 for NULL, else the length and the bytes.
pub open spec fn value_encoding(v: Option<Seq<u8>>) -> Seq<u8> {
    match v {
        None => be_i32(-1i32),
        Some(d) => be_i32(d.len() as i32) + d,
    }
}

pub open spec fn value_bytes_fn() -> spec_fn(Option<Seq<u8>>) -> Seq<u8> {
    |v: Option<Seq<u8>>| value_encoding(v)
}

pub open spec fn column_encoding(c: ColumnView) -> Seq<u8> {
    cstr(c.name) + (be_u32(c.table_oid) + (be_i16(c.column_id) + (be_u32(c.type_oid) + (be_i16(
        c.type_size,
    ) + (be_i32(c.type_modifier) + be_i16(c.format))))))
}

pub open spec fn column_bytes_fn() -> spec_fn(ColumnView) -> Seq<u8> {
    |c: ColumnView| column_encoding(c)
}

/// A field list: each kind byte and text, then a zero byte.
pub open spec fn fields_encoding(fs: Seq<(u8, Seq<char>)>) -> Seq<u8>
    decreases fs.len(),
{
    if fs.len() == 0 {
        seq![0u8]
    } else {
        seq![fs[0].0] + (cstr(fs[0].1) + fields_encoding(fs.drop_first()))
    }
}

/// The tag byte of a backend message.
pub open spec fn backend_tag(m: BackendView) -> u8 {
    match m {
        BackendView::AuthenticationCleartextPassword => 0x52,
        BackendView::AuthenticationGSS => 0x52,
        BackendView::AuthenticationKerberosV5 => 0x52,
        BackendView::AuthenticationMD5Password { .. } => 0x52,
        BackendView::AuthenticationOk => 0x52,
        BackendView::AuthenticationSCMCredential => 0x52,
        BackendView::AuthenticationSSPI => 0x52,
        BackendView::BackendKeyData { .. } => 0x4b,
        BackendView::BindComplete => 0x32,
        BackendView::CloseComplete => 0x33,
        BackendView::CommandComplete { .. } => 0x43,
        BackendView::CopyInResponse { .. } => 0x47,
        BackendView::DataRow { .. } => 0x44,
        BackendView::EmptyQueryResponse => 0x49,
        BackendView::ErrorResponse { .. } => 0x45,
        BackendView::NoData => 0x6e,
        BackendView::NoticeResponse { .. } => 0x4e,
        BackendView::NotificationResponse { .. } => 0x41,
        BackendView::ParameterDescription { .. } => 0x74,
        BackendView::ParameterStatus { .. } => 0x53,
        BackendView::ParseComplete => 0x31,
        BackendView::PortalSuspended => 0x73,
        BackendView::ReadyForQuery { .. } => 0x5a,
        BackendView::RowDescription { .. } => 0x54,
    }
}

/// The payload a server sends for a backend message.
pub open spec fn backend_payload(m: BackendView) -> Seq<u8> {
    match m {
        BackendView::AuthenticationCleartextPassword => be_i32(3),
        BackendView::AuthenticationGSS => be_i32(7),
        BackendView::AuthenticationKerberosV5 => be_i32(2),
        BackendView::AuthenticationMD5Password { salt } => be_i32(5) + salt,
        BackendView::AuthenticationOk => be_i32(0),
        BackendView::AuthenticationSCMCredential => be_i32(6),
        BackendView::AuthenticationSSPI => be_i32(9),
        BackendView::BackendKeyData { process_id, secret_key } => be_u32(process_id) + be_u32(
            secret_key,
        ),
        BackendView::CommandComplete { tag } => cstr(tag),
        BackendView::CopyInResponse { format, column_formats } => seq![format] + (be_u16(
            column_formats.len() as u16,
        ) + concat_map(column_formats, u16_bytes())),
        BackendView::DataRow { row } => be_u16(row.len() as u16) + concat_map(row, value_bytes_fn()),
        BackendView::ErrorResponse { fields } => fields_encoding(fields),
        BackendView::NoticeResponse { fields } => fields_encoding(fields),
        BackendView::NotificationResponse { pid, channel, payload } => be_u32(pid) + (cstr(channel)
            + cstr(payload)),
        BackendView::ParameterDescription { types } => be_u16(types.len() as u16) + concat_map(
            types,
            u32_bytes(),
        ),
        BackendView::ParameterStatus { parameter, value } => cstr(parameter) + cstr(value),
        BackendView::ReadyForQuery { state } => seq![state],
        BackendView::RowDescription { descriptions } => be_u16(descriptions.len() as u16)
            + concat_map(descriptions, column_bytes_fn()),
        _ => seq![],
    }
}

pub open spec fn fields_encodable(fs: Seq<(u8, Seq<char>)>) -> bool {
    forall|i: int| 0 <= i < fs.len() ==> #[trigger] fs[i].0 != 0 && nul_free(fs[i].1)
}

/// The message can travel on the wire: no string holds a zero byte, no field
/// kind is zero, every list has at most 65535 entries, every column value at
/// most `i32::MAX` bytes, and a salt has 4 bytes.
pub open spec fn backend_encodable(m: BackendView) -> bool {
    match m {
        BackendView::AuthenticationMD5Password { salt } => salt.len() == 4,
        BackendView::CommandComplete { tag } => nul_free(tag),
        BackendView::CopyInResponse { column_formats, .. } => column_formats.len() <= 0xffff,
        BackendView::DataRow { row } => row.len() <= 0xffff && forall|i: int|
            0 <= i < row.len() ==> (#[trigger] row[i] matches Some(d) ==> d.len() <= i32::MAX),
        BackendView::ErrorResponse { fields } => fields_encodable(fields),
        BackendView::NoticeResponse { fields } => fields_encodable(fields),
        BackendView::NotificationResponse { channel, payload, .. } => nul_free(channel) && nul_free(
            payload,
        ),
        BackendView::ParameterDescription { types } => types.len() <= 0xffff,
        BackendView::ParameterStatus { parameter, value } => nul_free(parameter) && nul_free(value),
        BackendView::RowDescription { descriptions } => descriptions.len() <= 0xffff && forall|
            i: int,
        |
            0 <= i < descriptions.len() ==> nul_free(#[trigger] descriptions[i].name),
        _ => true,
    }
}

proof fn lemma_take_n_concat<T>(
    xs: Seq<T>,
    f: spec_fn(T) -> Seq<u8>,
    item: spec_fn(Seq<u8>) -> Option<(T, Seq<u8>)>,
    r: Seq<u8>,
)
    requires
        forall|i: int, r2: Seq<u8>|
            0 <= i < xs.len() ==> #[trigger] item(f(xs[i]) + r2) == Some((xs[i], r2)),
    ensures
        take_n(concat_map(xs, f) + r, xs.len(), item) == Some((xs, r)),
    decreases xs.len(),
{
    if xs.len() == 0 {
        assert(concat_map(xs, f) + r =~= r);
        assert(xs =~= Seq::<T>::empty());
    } else {
        let init = xs.drop_last();
        let last = xs.last();
        assert forall|i: int, r2: Seq<u8>|
            0 <= i < init.len() implies #[trigger] item(f(init[i]) + r2) == Some((init[i], r2)) by {
            assert(init[i] == xs[i]);
        }
        lemma_take_n_concat(init, f, item, f(last) + r);
        assert(concat_map(xs, f) + r =~= concat_map(init, f) + (f(last) + r));
        assert(item(f(xs[xs.len() - 1]) + r) == Some((xs[xs.len() - 1], r)));
        assert(init.push(last) =~= xs);
    }
}

proof fn lemma_column_round_trip(c: ColumnView, r: Seq<u8>)
    requires
        nul_free(c.name),
    ensures
        take_column(column_encoding(c) + r) == Some((c, r)),
{
    let r6 = be_i16(c.format) + r;
    let r5 = be_i32(c.type_modifier) + r6;
    let r4 = be_i16(c.type_size) + r5;
    let r3 = be_u32(c.type_oid) + r4;
    let r2 = be_i16(c.column_id) + r3;
    let r1 = be_u32(c.table_oid) + r2;
    assert(column_encoding(c) + r =~= cstr(c.name) + r1);
    lemma_cstr_round_trip(c.name, r1);
    lemma_u32_round_trip(c.table_oid, r2);
    lemma_i16_round_trip(c.column_id, r3);
    lemma_u32_round_trip(c.type_oid, r4);
    lemma_i16_round_trip(c.type_size, r5);
    lemma_i32_round_trip(c.type_modifier, r6);
    lemma_i16_round_trip(c.format, r);
}

proof fn lemma_fields_round_trip(fs: Seq<(u8, Seq<char>)>, r: Seq<u8>)
    requires
        fields_encodable(fs),
    ensures
        take_fields(fields_encoding(fs) + r) == Some((fs, r)),
    decreases fs.len(),
{
    let b = fields_encoding(fs) + r;
    if fs.len() == 0 {
        lemma_u8_round_trip(0u8, r);
        assert(b =~= seq![0u8] + r);
        assert(fs =~= Seq::<(u8, Seq<char>)>::empty());
    } else {
        let rest = fs.drop_first();
        assert(fields_encodable(rest)) by {
            assert forall|i: int| 0 <= i < rest.len() implies #[trigger] rest[i].0 != 0 && nul_free(
                rest[i].1,
            ) by {
                assert(rest[i] == fs[i + 1]);
            }
        }
        let tail = fields_encoding(rest) + r;
        assert(b =~= seq![fs[0].0] + (cstr(fs[0].1) + tail));
        lemma_u8_round_trip(fs[0].0, cstr(fs[0].1) + tail);
        lemma_cstr_round_trip(fs[0].1, tail);
        assert(fs[0].0 != 0 && nul_free(fs[0].1));
        lemma_fields_round_trip(rest, r);
        assert(seq![(fs[0].0, fs[0].1)] + rest =~= fs);
    }
}

proof fn lemma_counted_round_trip(m: BackendView)
    requires
        backend_encodable(m),
        m is DataRow || m is ParameterDescription || m is RowDescription || m is CopyInResponse,
    ensures
        take_body(backend_tag(m), backend_payload(m)) == Some((m, Seq::<u8>::empty())),
{
    let e = Seq::<u8>::empty();
    match m {
        BackendView::DataRow { row } => {
            assert forall|i: int, r2: Seq<u8>|
                0 <= i < row.len() implies #[trigger] value_item()(value_bytes_fn()(row[i]) + r2)
                == Some((row[i], r2)) by {
                match row[i] {
                    None => law_null_value(r2),
                    Some(d) => {
                        law_value_bytes(d, r2);
                        assert(be_i32(d.len() as i32) + d + r2 =~= value_encoding(row[i]) + r2);
                    },
                }
            }
            lemma_take_n_concat(row, value_bytes_fn(), value_item(), e);
            let body = concat_map(row, value_bytes_fn());
            lemma_u16_round_trip(row.len() as u16, body);
            assert(body + e =~= body);
        },
        BackendView::ParameterDescription { types } => {
            assert forall|i: int, r2: Seq<u8>|
                0 <= i < types.len() implies #[trigger] u32_item()(u32_bytes()(types[i]) + r2)
                == Some((types[i], r2)) by {
                lemma_u32_round_trip(types[i], r2);
            }
            lemma_take_n_concat(types, u32_bytes(), u32_item(), e);
            let body = concat_map(types, u32_bytes());
            lemma_u16_round_trip(types.len() as u16, body);
            assert(body + e =~= body);
        },
        BackendView::RowDescription { descriptions } => {
            assert forall|i: int, r2: Seq<u8>|
                0 <= i < descriptions.len() implies #[trigger] column_item()(
                column_bytes_fn()(descriptions[i]) + r2,
            ) == Some((descriptions[i], r2)) by {
                lemma_column_round_trip(descriptions[i], r2);
            }
            lemma_take_n_concat(descriptions, column_bytes_fn(), column_item(), e);
            let body = concat_map(descriptions, column_bytes_fn());
            lemma_u16_round_trip(descriptions.len() as u16, body);
            assert(body + e =~= body);
        },
        BackendView::CopyInResponse { format, column_formats } => {
            assert forall|i: int, r2: Seq<u8>|
                0 <= i < column_formats.len() implies #[trigger] u16_item()(
                u16_bytes()(column_formats[i]) + r2,
            ) == Some((column_formats[i], r2)) by {
                lemma_u16_round_trip(column_formats[i], r2);
            }
            lemma_take_n_concat(column_formats, u16_bytes(), u16_item(), e);
            let body = concat_map(column_formats, u16_bytes());
            assert(body + e =~= body);
            lemma_u16_round_trip(column_formats.len() as u16, body);
            lemma_u8_round_trip(format, be_u16(column_formats.len() as u16) + body);
        },
        _ => {},
    }
}

proof fn lemma_auth_round_trip(m: BackendView)
    requires
        backend_encodable(m),
        backend_tag(m) == 0x52,
    ensures
        take_body(backend_tag(m), backend_payload(m)) == Some((m, Seq::<u8>::empty())),
        take_i32(backend_payload(m)) matches Some((code, _)) && known_auth(code),
{
    let e = Seq::<u8>::empty();
    match m {
        BackendView::AuthenticationMD5Password { salt } => {
            lemma_i32_round_trip(5, salt);
            lemma_bytes_round_trip(salt, e);
            assert(salt + e =~= salt);
        },
        _ => {
            let p = backend_payload(m);
            assert(p + e =~= p);
            lemma_i32_round_trip(take_i32(p + e)->Some_0.0, e);
            lemma_i32_round_trip(0, e);
            lemma_i32_round_trip(2, e);
            lemma_i32_round_trip(3, e);
            lemma_i32_round_trip(6, e);
            lemma_i32_round_trip(7, e);
            lemma_i32_round_trip(9, e);
        },
    }
}

proof fn lemma_strings_round_trip(m: BackendView)
    requires
        backend_encodable(m),
        m is CommandComplete || m is NotificationResponse || m is ParameterStatus
            || m is BackendKeyData || m is ReadyForQuery || m is ErrorResponse
            || m is NoticeResponse,
    ensures
        take_body(backend_tag(m), backend_payload(m)) == Some((m, Seq::<u8>::empty())),
{
    let e = Seq::<u8>::empty();
    match m {
        BackendView::CommandComplete { tag } => {
            lemma_cstr_round_trip(tag, e);
            assert(cstr(tag) + e =~= cstr(tag));
        },
        BackendView::NotificationResponse { pid, channel, payload } => {
            lemma_u32_round_trip(pid, cstr(channel) + cstr(payload));
            lemma_cstr_round_trip(channel, cstr(payload));
            lemma_cstr_round_trip(payload, e);
            assert(cstr(payload) + e =~= cstr(payload));
        },
        BackendView::ParameterStatus { parameter, value } => {
            lemma_cstr_round_trip(parameter, cstr(value));
            lemma_cstr_round_trip(value, e);
            assert(cstr(value) + e =~= cstr(value));
        },
        BackendView::BackendKeyData { process_id, secret_key } => {
            lemma_u32_round_trip(process_id, be_u32(secret_key));
            lemma_u32_round_trip(secret_key, e);
            assert(be_u32(secret_key) + e =~= be_u32(secret_key));
        },
        BackendView::ReadyForQuery { state } => {
            lemma_u8_round_trip(state, e);
            assert(seq![state] + e =~= seq![state]);
        },
        BackendView::ErrorResponse { fields } => {
            lemma_fields_round_trip(fields, e);
            assert(fields_encoding(fields) + e =~= fields_encoding(fields));
        },
        BackendView::NoticeResponse { fields } => {
            lemma_fields_round_trip(fields, e);
            assert(fields_encoding(fields) + e =~= fields_encoding(fields));
        },
        _ => {},
    }
}

/// Decoding the payload a server sends for a message, under that message's
/// tag, gives the message back.
pub proof fn law_backend_round_trip(m: BackendView)
    requires
        backend_encodable(m),
    ensures
        body_message(backend_tag(m), backend_payload(m)) == Ok::<BackendView, DecodeError>(m),
{
    if backend_tag(m) == 0x52 {
        lemma_auth_round_trip(m);
    } else if m is DataRow || m is ParameterDescription || m is RowDescription
        || m is CopyInResponse {
        lemma_counted_round_trip(m);
    } else if m is CommandComplete || m is NotificationResponse || m is ParameterStatus
        || m is BackendKeyData || m is ReadyForQuery || m is ErrorResponse || m is NoticeResponse {
        lemma_strings_round_trip(m);
    }
}

proof fn lemma_value_list_concat(vs: Seq<Option<Vec<u8>>>)
    ensures
        value_list(vs) == concat_map(row_view(vs), value_bytes_fn()),
    decreases vs.len(),
{
    if vs.len() > 0 {
        lemma_value_list_concat(vs.drop_last());
        assert(row_view(vs).drop_last() =~= row_view(vs.drop_last()));
        assert(crate::frontend::value_bytes(vs.last()) == value_encoding(value_view(vs.last())));
    }
}

/// The values a client binds, read back with the reader of a data row's
/// values, are the same values in the same order, NULLs included.
pub proof fn law_bound_values_read_back(vs: Seq<Option<Vec<u8>>>)
    requires
        forall|i: int| 0 <= i < vs.len() ==> (#[trigger] vs[i] matches Some(d) ==> d@.len() <= i32::MAX),
    ensures
        value_items(value_list(vs), vs.len()) == Some((row_view(vs), Seq::<u8>::empty())),
{
    let row = row_view(vs);
    assert forall|i: int, r2: Seq<u8>|
        0 <= i < row.len() implies #[trigger] value_item()(value_bytes_fn()(row[i]) + r2) == Some(
        (row[i], r2),
    ) by {
        match row[i] {
            None => law_null_value(r2),
            Some(d) => {
                assert(vs[i] is Some);
                law_value_bytes(d, r2);
                assert(be_i32(d.len() as i32) + d + r2 =~= value_encoding(row[i]) + r2);
            },
        }
    }
    lemma_take_n_concat(row, value_bytes_fn(), value_item(), Seq::<u8>::empty());
    lemma_value_list_concat(vs);
    assert(value_list(vs) + Seq::<u8>::empty() =~= value_list(vs));
}

// ---------------------------------------------------------------------------
// Encryption negotiation.
// ---------------------------------------------------------------------------

/// Whatever the mode, an answer other than `S` or `N` to the encryption
/// request ends the attempt as a protocol violation.
pub proof fn law_unexpected_answer_fails(mode: SslMode, byte: u8)
    requires
        byte != 0x53 && byte != 0x4e,
    ensures
        response_step(mode, byte) == SslStep::Fail(NegotiationError::BadResponse),
{
}

} // verus!
