use vstd::prelude::*;
use crate::wire::{take_u16, take_u32, read_u8, read_u16, read_u32, read_i16, read_i32, read_bytes, read_cstr};
use crate::backend::{
    BackendMessage, BackendView, ColumnView, DecodeError, RowDescriptionEntry, take_fields,
    fields_view, value_view, row_view, columns_view, take_value, take_data_row, take_column,
    take_row_description, take_parameter_description, take_copy_in_response, take_auth,
    take_two_cstrs, take_body, body_message, declared_body_len, frame_message, known_tag,
    u16_items, u32_items, value_items, column_items, u16_item, u32_item, value_item, column_item,
    lemma_take_n_fails,
};

verus! {

/// The field list that follows after the fields `acc`, given what the reader
/// finds after them.
pub open spec fn after_fields(
    acc: Seq<(u8, Seq<char>)>,
    res: Option<(Seq<(u8, Seq<char>)>, Seq<u8>)>,
) -> Option<(Seq<(u8, Seq<char>)>, Seq<u8>)> {
    match res {
        Some((fs, r)) => Some((acc + fs, r)),
        None => None,
    }
}

/// Reads (kind, text) fields up to and including the terminating zero byte.
pub fn read_fields(b: &[u8], pos: usize) -> (r: Option<(Vec<(u8, String)>, usize)>)
    requires
        pos <= b@.len(),
    ensures
        match r {
            Some((fs, p)) => pos <= p <= b@.len() && take_fields(b@.skip(pos as int)) == Some(
                (fields_view(fs@), b@.skip(p as int)),
            ),
            None => take_fields(b@.skip(pos as int)) is None,
        },
{
    let ghost start = b@.skip(pos as int);
    let mut fields: Vec<(u8, String)> = Vec::new();
    let mut p: usize = pos;
    assert(fields_view(fields@) + Seq::<(u8, Seq<char>)>::empty() =~= fields_view(fields@));
    assert(fields_view(fields@) =~= Seq::<(u8, Seq<char>)>::empty());
    loop
        invariant
            pos <= p <= b@.len(),
            start == b@.skip(pos as int),
            take_fields(start) == after_fields(fields_view(fields@), take_fields(b@.skip(p as int))),
        decreases b@.len() - p,
    {
        let ghost here = b@.skip(p as int);
        let (kind, at1) = match read_u8(b, p) {
            Some(x) => x,
            None => {
                assert(take_fields(here) is None);
                return None;
            },
        };
        if kind == 0 {
            assert(fields_view(fields@) + Seq::<(u8, Seq<char>)>::empty() =~= fields_view(fields@));
            return Some((fields, at1));
        }
        let (text, at2) = match read_cstr(b, at1) {
            Some(x) => x,
            None => {
                assert(take_fields(here) is None);
                return None;
            },
        };
        assert(b@.skip(at2 as int).len() < here.len());
        let ghost before = fields_view(fields@);
        let ghost text_view = text@;
        fields.push((kind, text));
        assert(fields_view(fields@) =~= before.push((kind, text_view)));
        assert forall|fs: Seq<(u8, Seq<char>)>|
            #![auto]
            before + (seq![(kind, text_view)] + fs) == before.push((kind, text_view)) + fs by {
            assert(before + (seq![(kind, text_view)] + fs) =~= before.push((kind, text_view)) + fs);
        }
        p = at2;
    }
}

proof fn lemma_u16_items_fail(b: Seq<u8>, k: nat, n: nat)
    requires
        k <= n,
        u16_items(b, k) is None,
    ensures
        u16_items(b, n) is None,
{
    lemma_take_n_fails(b, k, n, u16_item());
}

proof fn lemma_u32_items_fail(b: Seq<u8>, k: nat, n: nat)
    requires
        k <= n,
        u32_items(b, k) is None,
    ensures
        u32_items(b, n) is None,
{
    lemma_take_n_fails(b, k, n, u32_item());
}

proof fn lemma_value_items_fail(b: Seq<u8>, k: nat, n: nat)
    requires
        k <= n,
        value_items(b, k) is None,
    ensures
        value_items(b, n) is None,
{
    lemma_take_n_fails(b, k, n, value_item());
}

proof fn lemma_column_items_fail(b: Seq<u8>, k: nat, n: nat)
    requires
        k <= n,
        column_items(b, k) is None,
    ensures
        column_items(b, n) is None,
{
    lemma_take_n_fails(b, k, n, column_item());
}

/// Reads `n` 16-bit integers.
fn read_u16_list(b: &[u8], pos: usize, n: u16) -> (r: Option<(Vec<u16>, usize)>)
    requires
        pos <= b@.len(),
    ensures
        match r {
            Some((xs, p)) => pos <= p <= b@.len() && u16_items(b@.skip(pos as int), n as nat)
                == Some((xs@, b@.skip(p as int))),
            None => u16_items(b@.skip(pos as int), n as nat) is None,
        },
{
    let ghost start = b@.skip(pos as int);
    let mut xs: Vec<u16> = Vec::new();
    let mut p: usize = pos;
    let mut i: u16 = 0;
    while i < n
        invariant
            i <= n,
            pos <= p <= b@.len(),
            start == b@.skip(pos as int),
            u16_items(start, i as nat) == Some((xs@, b@.skip(p as int))),
        decreases n - i,
    {
        match read_u16(b, p) {
            Some((x, at1)) => {
                xs.push(x);
                p = at1;
            },
            None => {
                proof {
                    assert(u16_item()(b@.skip(p as int)) == take_u16(b@.skip(p as int)));
                    assert(u16_items(start, (i + 1) as nat) is None);
                    lemma_u16_items_fail(start, (i + 1) as nat, n as nat);
                }
                return None;
            },
        }
        i = i + 1;
    }
    Some((xs, p))
}

/// Reads `n` 32-bit integers.
fn read_u32_list(b: &[u8], pos: usize, n: u16) -> (r: Option<(Vec<u32>, usize)>)
    requires
        pos <= b@.len(),
    ensures
        match r {
            Some((xs, p)) => pos <= p <= b@.len() && u32_items(b@.skip(pos as int), n as nat)
                == Some((xs@, b@.skip(p as int))),
            None => u32_items(b@.skip(pos as int), n as nat) is None,
        },
{
    let ghost start = b@.skip(pos as int);
    let mut xs: Vec<u32> = Vec::new();
    let mut p: usize = pos;
    let mut i: u16 = 0;
    while i < n
        invariant
            i <= n,
            pos <= p <= b@.len(),
            start == b@.skip(pos as int),
            u32_items(start, i as nat) == Some((xs@, b@.skip(p as int))),
        decreases n - i,
    {
        match read_u32(b, p) {
            Some((x, at1)) => {
                xs.push(x);
                p = at1;
            },
            None => {
                proof {
                    assert(u32_item()(b@.skip(p as int)) == take_u32(b@.skip(p as int)));
                    assert(u32_items(start, (i + 1) as nat) is None);
                    lemma_u32_items_fail(start, (i + 1) as nat, n as nat);
                }
                return None;
            },
        }
        i = i + 1;
    }
    Some((xs, p))
}

/// Reads one column value of a data row.
pub fn read_value(b: &[u8], pos: usize) -> (r: Option<(Option<Vec<u8>>, usize)>)
    requires
        pos <= b@.len(),
    ensures
        match r {
            Some((v, p)) => pos <= p <= b@.len() && take_value(b@.skip(pos as int)) == Some(
                (value_view(v), b@.skip(p as int)),
            ),
            None => take_value(b@.skip(pos as int)) is None,
        },
{
    let (len, at1) = match read_i32(b, pos) {
        Some(x) => x,
        None => {
            return None;
        },
    };
    if len == -1 {
        Some((None, at1))
    } else if len >= 0 {
        match read_bytes(b, at1, len as usize) {
            Some((d, at2)) => Some((Some(d), at2)),
            None => None,
        }
    } else {
        None
    }
}

/// Reads a data row: a count, then that many column values.
pub fn read_data_row(b: &[u8], pos: usize) -> (r: Option<(BackendMessage, usize)>)
    requires
        pos <= b@.len(),
    ensures
        match r {
            Some((m, p)) => pos <= p <= b@.len() && take_data_row(b@.skip(pos as int)) == Some(
                (m@, b@.skip(p as int)),
            ),
            None => take_data_row(b@.skip(pos as int)) is None,
        },
{
    let (n, at0) = match read_u16(b, pos) {
        Some(x) => x,
        None => {
            return None;
        },
    };
    let ghost start = b@.skip(at0 as int);
    let mut values: Vec<Option<Vec<u8>>> = Vec::new();
    let mut p: usize = at0;
    let mut i: u16 = 0;
    assert(row_view(values@) =~= Seq::<Option<Seq<u8>>>::empty());
    while i < n
        invariant
            i <= n,
            at0 <= p <= b@.len(),
            start == b@.skip(at0 as int),
            take_u16(b@.skip(pos as int)) == Some((n, start)),
            value_items(start, i as nat) == Some((row_view(values@), b@.skip(p as int))),
        decreases n - i,
    {
        match read_value(b, p) {
            Some((v, at1)) => {
                let ghost before = row_view(values@);
                values.push(v);
                assert(row_view(values@) =~= before.push(value_view(v)));
                p = at1;
            },
            None => {
                proof {
                    assert(value_item()(b@.skip(p as int)) == take_value(b@.skip(p as int)));
                    assert(value_items(start, (i + 1) as nat) is None);
                    lemma_value_items_fail(start, (i + 1) as nat, n as nat);
                }
                return None;
            },
        }
        i = i + 1;
    }
    Some((BackendMessage::DataRow { row: values }, p))
}

/// Reads one column of a row description.
pub fn read_row_description_entry(b: &[u8], pos: usize) -> (r: Option<(RowDescriptionEntry, usize)>)
    requires
        pos <= b@.len(),
    ensures
        match r {
            Some((c, p)) => pos <= p <= b@.len() && take_column(b@.skip(pos as int)) == Some(
                (c@, b@.skip(p as int)),
            ),
            None => take_column(b@.skip(pos as int)) is None,
        },
{
    let (name, at1) = match read_cstr(b, pos) {
        Some(x) => x,
        None => {
            return None;
        },
    };
    let (table_oid, at2) = match read_u32(b, at1) {
        Some(x) => x,
        None => {
            return None;
        },
    };
    let (column_id, at3) = match read_i16(b, at2) {
        Some(x) => x,
        None => {
            return None;
        },
    };
    let (type_oid, at4) = match read_u32(b, at3) {
        Some(x) => x,
        None => {
            return None;
        },
    };
    let (type_size, at5) = match read_i16(b, at4) {
        Some(x) => x,
        None => {
            return None;
        },
    };
    let (type_modifier, at6) = match read_i32(b, at5) {
        Some(x) => x,
        None => {
            return None;
        },
    };
    let (format, at7) = match read_i16(b, at6) {
        Some(x) => x,
        None => {
            return None;
        },
    };
    Some(
        (
            RowDescriptionEntry {
                name,
                table_oid,
                column_id,
                type_oid,
                type_size,
                type_modifier,
                format,
            },
            at7,
        ),
    )
}

/// Reads a row description: a count, then that many column entries.
pub fn read_row_description(b: &[u8], pos: usize) -> (r: Option<(BackendMessage, usize)>)
    requires
        pos <= b@.len(),
    ensures
        match r {
            Some((m, p)) => pos <= p <= b@.len() && take_row_description(b@.skip(pos as int))
                == Some((m@, b@.skip(p as int))),
            None => take_row_description(b@.skip(pos as int)) is None,
        },
{
    let (n, at0) = match read_u16(b, pos) {
        Some(x) => x,
        None => {
            return None;
        },
    };
    let ghost start = b@.skip(at0 as int);
    let mut cols: Vec<RowDescriptionEntry> = Vec::new();
    let mut p: usize = at0;
    let mut i: u16 = 0;
    assert(columns_view(cols@) =~= Seq::<ColumnView>::empty());
    while i < n
        invariant
            i <= n,
            at0 <= p <= b@.len(),
            start == b@.skip(at0 as int),
            take_u16(b@.skip(pos as int)) == Some((n, start)),
            column_items(start, i as nat) == Some((columns_view(cols@), b@.skip(p as int))),
        decreases n - i,
    {
        match read_row_description_entry(b, p) {
            Some((c, at1)) => {
                let ghost before = columns_view(cols@);
                let ghost cv = c@;
                cols.push(c);
                assert(columns_view(cols@) =~= before.push(cv));
                p = at1;
            },
            None => {
                proof {
                    assert(column_item()(b@.skip(p as int)) == take_column(b@.skip(p as int)));
                    assert(column_items(start, (i + 1) as nat) is None);
                    lemma_column_items_fail(start, (i + 1) as nat, n as nat);
                }
                return None;
            },
        }
        i = i + 1;
    }
    Some((BackendMessage::RowDescription { descriptions: cols }, p))
}

/// Reads a parameter description: a count, then that many type ids.
pub fn read_parameter_description(b: &[u8], pos: usize) -> (r: Option<(BackendMessage, usize)>)
    requires
        pos <= b@.len(),
    ensures
        match r {
            Some((m, p)) => pos <= p <= b@.len() && take_parameter_description(
                b@.skip(pos as int),
            ) == Some((m@, b@.skip(p as int))),
            None => take_parameter_description(b@.skip(pos as int)) is None,
        },
{
    let (n, at0) = match read_u16(b, pos) {
        Some(x) => x,
        None => {
            return None;
        },
    };
    match read_u32_list(b, at0, n) {
        Some((types, p)) => Some((BackendMessage::ParameterDescription { types }, p)),
        None => None,
    }
}

/// Reads a copy-in response: a format byte, a count, then that many format
/// codes.
pub fn read_copy_in_response(b: &[u8], pos: usize) -> (r: Option<(BackendMessage, usize)>)
    requires
        pos <= b@.len(),
    ensures
        match r {
            Some((m, p)) => pos <= p <= b@.len() && take_copy_in_response(b@.skip(pos as int))
                == Some((m@, b@.skip(p as int))),
            None => take_copy_in_response(b@.skip(pos as int)) is None,
        },
{
    let (format, at0) = match read_u8(b, pos) {
        Some(x) => x,
        None => {
            return None;
        },
    };
    let (n, at1) = match read_u16(b, at0) {
        Some(x) => x,
        None => {
            return None;
        },
    };
    match read_u16_list(b, at1, n) {
        Some((column_formats, p)) => Some(
            (BackendMessage::CopyInResponse { format, column_formats }, p),
        ),
        None => None,
    }
}

/// Reads an authentication request: a sub-code, and for an MD5 request a
/// 4-byte salt. An unknown sub-code reads as nothing.
pub fn read_auth_message(b: &[u8], pos: usize) -> (r: Option<(BackendMessage, usize)>)
    requires
        pos <= b@.len(),
    ensures
        match r {
            Some((m, p)) => pos <= p <= b@.len() && take_auth(b@.skip(pos as int)) == Some(
                (m@, b@.skip(p as int)),
            ),
            None => take_auth(b@.skip(pos as int)) is None,
        },
{
    let (code, p) = match read_i32(b, pos) {
        Some(x) => x,
        None => {
            return None;
        },
    };
    if code == 0 {
        Some((BackendMessage::AuthenticationOk, p))
    } else if code == 2 {
        Some((BackendMessage::AuthenticationKerberosV5, p))
    } else if code == 3 {
        Some((BackendMessage::AuthenticationCleartextPassword, p))
    } else if code == 5 {
        match read_bytes(b, p, 4) {
            Some((v, at2)) => {
                let salt: [u8; 4] = [v[0], v[1], v[2], v[3]];
                assert(salt@ =~= v@);
                Some((BackendMessage::AuthenticationMD5Password { salt }, at2))
            },
            None => None,
        }
    } else if code == 6 {
        Some((BackendMessage::AuthenticationSCMCredential, p))
    } else if code == 7 {
        Some((BackendMessage::AuthenticationGSS, p))
    } else if code == 9 {
        Some((BackendMessage::AuthenticationSSPI, p))
    } else {
        None
    }
}

/// Reads two C-style strings.
fn read_two_cstrs(b: &[u8], pos: usize) -> (r: Option<(String, String, usize)>)
    requires
        pos <= b@.len(),
    ensures
        match r {
            Some((s1, s2, p)) => pos <= p <= b@.len() && take_two_cstrs(b@.skip(pos as int))
                == Some((s1@, s2@, b@.skip(p as int))),
            None => take_two_cstrs(b@.skip(pos as int)) is None,
        },
{
    let (s1, at1) = match read_cstr(b, pos) {
        Some(x) => x,
        None => {
            return None;
        },
    };
    match read_cstr(b, at1) {
        Some((s2, at2)) => Some((s1, s2, at2)),
        None => None,
    }
}

/// Whether `tag` names a backend message.
pub fn is_backend_tag(tag: u8) -> (r: bool)
    ensures
        r == known_tag(tag),
{
    tag == 0x31 || tag == 0x32 || tag == 0x33 || tag == 0x41 || tag == 0x43 || tag == 0x44 || tag
        == 0x45 || tag == 0x47 || tag == 0x49 || tag == 0x4b || tag == 0x6e || tag == 0x4e || tag
        == 0x52 || tag == 0x73 || tag == 0x53 || tag == 0x74 || tag == 0x54 || tag == 0x5a
}

/// Reads the message with tag `tag` from the front of `b`.
fn read_body(tag: u8, b: &[u8]) -> (r: Option<(BackendMessage, usize)>)
    ensures
        match r {
            Some((m, p)) => p <= b@.len() && take_body(tag, b@) == Some((m@, b@.skip(p as int))),
            None => take_body(tag, b@) is None,
        },
{
    assert(b@.skip(0) =~= b@);
    if tag == 0x31 {
        Some((BackendMessage::ParseComplete, 0))
    } else if tag == 0x32 {
        Some((BackendMessage::BindComplete, 0))
    } else if tag == 0x33 {
        Some((BackendMessage::CloseComplete, 0))
    } else if tag == 0x41 {
        let (pid, p) = match read_u32(b, 0) {
            Some(x) => x,
            None => {
                return None;
            },
        };
        match read_two_cstrs(b, p) {
            Some((channel, payload, at2)) => Some(
                (BackendMessage::NotificationResponse { pid, channel, payload }, at2),
            ),
            None => None,
        }
    } else if tag == 0x43 {
        match read_cstr(b, 0) {
            Some((t, p)) => Some((BackendMessage::CommandComplete { tag: t }, p)),
            None => None,
        }
    } else if tag == 0x44 {
        read_data_row(b, 0)
    } else if tag == 0x45 {
        match read_fields(b, 0) {
            Some((fields, p)) => Some((BackendMessage::ErrorResponse { fields }, p)),
            None => None,
        }
    } else if tag == 0x47 {
        read_copy_in_response(b, 0)
    } else if tag == 0x49 {
        Some((BackendMessage::EmptyQueryResponse, 0))
    } else if tag == 0x4b {
        let (process_id, p) = match read_u32(b, 0) {
            Some(x) => x,
            None => {
                return None;
            },
        };
        match read_u32(b, p) {
            Some((secret_key, at2)) => Some(
                (BackendMessage::BackendKeyData { process_id, secret_key }, at2),
            ),
            None => None,
        }
    } else if tag == 0x6e {
        Some((BackendMessage::NoData, 0))
    } else if tag == 0x4e {
        match read_fields(b, 0) {
            Some((fields, p)) => Some((BackendMessage::NoticeResponse { fields }, p)),
            None => None,
        }
    } else if tag == 0x52 {
        read_auth_message(b, 0)
    } else if tag == 0x73 {
        Some((BackendMessage::PortalSuspended, 0))
    } else if tag == 0x53 {
        match read_two_cstrs(b, 0) {
            Some((parameter, value, p)) => Some(
                (BackendMessage::ParameterStatus { parameter, value }, p),
            ),
            None => None,
        }
    } else if tag == 0x74 {
        read_parameter_description(b, 0)
    } else if tag == 0x54 {
        read_row_description(b, 0)
    } else if tag == 0x5a {
        match read_u8(b, 0) {
            Some((state, p)) => Some((BackendMessage::ReadyForQuery { _state: state }, p)),
            None => None,
        }
    } else {
        None
    }
}

/// Decodes the payload `body` of a message with tag `tag`. The message must
/// take up the whole payload.
pub fn decode_body(tag: u8, body: &[u8]) -> (r: Result<BackendMessage, DecodeError>)
    ensures
        match r {
            Ok(m) => body_message(tag, body@) == Ok::<BackendView, DecodeError>(m@),
            Err(e) => body_message(tag, body@) == Err::<BackendView, DecodeError>(e),
        },
{
    if !is_backend_tag(tag) {
        return Err(DecodeError::UnexpectedTag);
    }
    if tag == 0x52 {
        assert(body@.skip(0) =~= body@);
        match read_i32(body, 0) {
            Some((code, _)) => {
                if !(code == 0 || code == 2 || code == 3 || code == 5 || code == 6 || code == 7
                    || code == 9) {
                    return Err(DecodeError::UnknownAuthentication);
                }
            },
            None => {},
        }
    }
    match read_body(tag, body) {
        Some((m, p)) => {
            if p == body.len() {
                Ok(m)
            } else {
                Err(DecodeError::TrailingBytes)
            }
        },
        None => Err(DecodeError::Malformed),
    }
}

/// The payload length declared by a length field, which counts itself.
pub fn body_len(len: u32) -> (r: Option<u32>)
    ensures
        match r {
            Some(n) => declared_body_len(len) == Some(n as nat),
            None => declared_body_len(len) is None,
        },
{
    if len >= 4 {
        Some(len - 4)
    } else {
        None
    }
}

/// Decodes the message at the front of `buf`: tag byte, length field and
/// payload. Returns it with the number of bytes it took up.
pub fn read_message(buf: &[u8]) -> (r: Result<(BackendMessage, usize), DecodeError>)
    ensures
        match r {
            Ok((m, n)) => frame_message(buf@) == Ok::<(BackendView, nat), DecodeError>(
                (m@, n as nat),
            ),
            Err(e) => frame_message(buf@) == Err::<(BackendView, nat), DecodeError>(e),
        },
{
    if buf.len() < 5 {
        return Err(DecodeError::Incomplete);
    }
    let len = ((buf[1] as u32) << 24u32) | ((buf[2] as u32) << 16u32) | ((buf[3] as u32) << 8u32)
        | (buf[4] as u32);
    let n = match body_len(len) {
        Some(n) => n as usize,
        None => {
            return Err(DecodeError::BadLength);
        },
    };
    if buf.len() - 5 < n {
        return Err(DecodeError::Incomplete);
    }
    let body = vstd::slice::slice_subrange(buf, 5, 5 + n);
    assert(body@ =~= buf@.subrange(5, 5 + n as int));
    match decode_body(buf[0], body) {
        Ok(m) => Ok((m, 5 + n)),
        Err(e) => Err(e),
    }
}

} // verus!
