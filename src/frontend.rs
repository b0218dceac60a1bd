use vstd::prelude::*;
use crate::wire::{be_u16, be_u32, be_i16, be_i32, cstr, push_u16, push_u32, push_i16, push_i32, push_bytes, push_cstr};

verus! {

/// Protocol version sent in a startup message.
pub const PROTOCOL_VERSION: u32 = 0x0003_0000;

/// Request code of a cancel request.
pub const CANCEL_CODE: u32 = 80877102;

/// Request code of an encryption request.
pub const SSL_CODE: u32 = 80877103;

/// A message from client to server. Each variant borrows its data for the
/// length of one encoding.
pub enum FrontendMessage<'a> {
    Bind {
        portal: &'a str,
        statement: &'a str,
        formats: &'a [i16],
        values: &'a [Option<Vec<u8>>],
        result_formats: &'a [i16],
    },
    CancelRequest { code: u32, process_id: u32, secret_key: u32 },
    Close { variant: u8, name: &'a str },
    CopyData { data: &'a [u8] },
    CopyDone,
    CopyFail { message: &'a str },
    Describe { variant: u8, name: &'a str },
    Execute { portal: &'a str, max_rows: i32 },
    Parse { name: &'a str, query: &'a str, param_types: &'a [u32] },
    PasswordMessage { password: &'a str },
    Query { query: &'a str },
    SslRequest { code: u32 },
    StartupMessage { version: u32, parameters: &'a [(String, String)] },
    Sync,
    Terminate,
}

/// Why a message could not be encoded.
#[derive(Debug, Clone, Copy, PartialEq, Eq, Structural)]
pub enum EncodeError {
    /// A list has more than 65535 entries, a value more than `i32::MAX` bytes,
    /// or the whole message more than `u32::MAX` bytes.
    TooLarge,
}

// ---------------------------------------------------------------------------
// The bytes of a message.
// ---------------------------------------------------------------------------

pub open spec fn i16_list(xs: Seq<i16>) -> Seq<u8>
    decreases xs.len(),
{
    if xs.len() == 0 {
        seq![]
    } else {
        i16_list(xs.drop_last()) + be_i16(xs.last())
    }
}

pub open spec fn u32_list(xs: Seq<u32>) -> Seq<u8>
    decreases xs.len(),
{
    if xs.len() == 0 {
        seq![]
    } else {
        u32_list(xs.drop_last()) + be_u32(xs.last())
    }
}

/// One bound value: its length and its bytes, or the length -1 for NULL.
pub open spec fn value_bytes(v: Option<Vec<u8>>) -> Seq<u8> {
    match v {
        None => be_i32(-1i32),
        Some(d) => be_i32(d@.len() as i32) + d@,
    }
}

pub open spec fn value_list(vs: Seq<Option<Vec<u8>>>) -> Seq<u8>
    decreases vs.len(),
{
    if vs.len() == 0 {
        seq![]
    } else {
        value_list(vs.drop_last()) + value_bytes(vs.last())
    }
}

/// Startup parameters: each name and value as a C-style string.
pub open spec fn parameter_list(ps: Seq<(String, String)>) -> Seq<u8>
    decreases ps.len(),
{
    if ps.len() == 0 {
        seq![]
    } else {
        parameter_list(ps.drop_last()) + cstr(ps.last().0@) + cstr(ps.last().1@)
    }
}

/// The tag byte that leads the message, if its kind has one.
pub open spec fn frontend_tag(m: FrontendMessage) -> Option<u8> {
    match m {
        FrontendMessage::Bind { .. } => Some(0x42u8),
        FrontendMessage::Close { .. } => Some(0x43u8),
        FrontendMessage::CopyData { .. } => Some(0x64u8),
        FrontendMessage::CopyDone => Some(0x63u8),
        FrontendMessage::CopyFail { .. } => Some(0x66u8),
        FrontendMessage::Describe { .. } => Some(0x44u8),
        FrontendMessage::Execute { .. } => Some(0x45u8),
        FrontendMessage::Parse { .. } => Some(0x50u8),
        FrontendMessage::PasswordMessage { .. } => Some(0x70u8),
        FrontendMessage::Query { .. } => Some(0x51u8),
        FrontendMessage::Sync => Some(0x53u8),
        FrontendMessage::Terminate => Some(0x58u8),
        FrontendMessage::CancelRequest { .. } => None,
        FrontendMessage::SslRequest { .. } => None,
        FrontendMessage::StartupMessage { .. } => None,
    }
}

/// The bytes that follow the length field.
pub open spec fn frontend_payload(m: FrontendMessage) -> Seq<u8> {
    match m {
        FrontendMessage::Bind { portal, statement, formats, values, result_formats } => cstr(
            portal@,
        ) + cstr(statement@) + be_u16(formats@.len() as u16) + i16_list(formats@) + be_u16(
            values@.len() as u16,
        ) + value_list(values@) + be_u16(result_formats@.len() as u16) + i16_list(
            result_formats@,
        ),
        FrontendMessage::CancelRequest { code, process_id, secret_key } => be_u32(code) + be_u32(
            process_id,
        ) + be_u32(secret_key),
        FrontendMessage::Close { variant, name } => seq![variant] + cstr(name@),
        FrontendMessage::CopyData { data } => data@,
        FrontendMessage::CopyDone => seq![],
        FrontendMessage::CopyFail { message } => cstr(message@),
        FrontendMessage::Describe { variant, name } => seq![variant] + cstr(name@),
        FrontendMessage::Execute { portal, max_rows } => cstr(portal@) + be_i32(max_rows),
        FrontendMessage::Parse { name, query, param_types } => cstr(name@) + cstr(query@) + be_u16(
            param_types@.len() as u16,
        ) + u32_list(param_types@),
        FrontendMessage::PasswordMessage { password } => cstr(password@),
        FrontendMessage::Query { query } => cstr(query@),
        FrontendMessage::SslRequest { code } => be_u32(code),
        FrontendMessage::StartupMessage { version, parameters } => be_u32(version)
            + parameter_list(parameters@) + seq![0u8],
        FrontendMessage::Sync => seq![],
        FrontendMessage::Terminate => seq![],
    }
}

/// The whole message on the wire: tag byte if any, then the length, which
/// counts itself and the payload, then the payload.
pub open spec fn frontend_bytes(m: FrontendMessage) -> Seq<u8> {
    let p = frontend_payload(m);
    let head = match frontend_tag(m) {
        Some(t) => seq![t],
        None => seq![],
    };
    head + be_u32((p.len() + 4) as u32) + p
}

/// Every count fits in 16 bits and every bound value's length in a
/// non-negative 32-bit integer.
pub open spec fn counts_fit(m: FrontendMessage) -> bool {
    match m {
        FrontendMessage::Bind { formats, values, result_formats, .. } => formats@.len() <= 0xffff
            && values@.len() <= 0xffff && result_formats@.len() <= 0xffff && forall|i: int|
            0 <= i < values@.len() ==> match #[trigger] values@[i] {
                Some(d) => d@.len() <= i32::MAX,
                None => true,
            },
        FrontendMessage::Parse { param_types, .. } => param_types@.len() <= 0xffff,
        _ => true,
    }
}

/// The message can be encoded.
pub open spec fn frontend_fits(m: FrontendMessage) -> bool {
    counts_fit(m) && frontend_payload(m).len() + 4 <= u32::MAX
}

// ---------------------------------------------------------------------------
// Encoding.
// ---------------------------------------------------------------------------

fn push_i16_list(buf: &mut Vec<u8>, xs: &[i16])
    ensures
        final(buf)@ == old(buf)@ + i16_list(xs@),
{
    let mut i: usize = 0;
    while i < xs.len()
        invariant
            i <= xs@.len(),
            buf@ == old(buf)@ + i16_list(xs@.take(i as int)),
        decreases xs@.len() - i,
    {
        push_i16(buf, xs[i]);
        i = i + 1;
        assert(xs@.take(i as int).drop_last() =~= xs@.take(i - 1));
        assert(buf@ =~= old(buf)@ + i16_list(xs@.take(i as int)));
    }
    assert(xs@.take(i as int) =~= xs@);
}

fn push_u32_list(buf: &mut Vec<u8>, xs: &[u32])
    ensures
        final(buf)@ == old(buf)@ + u32_list(xs@),
{
    let mut i: usize = 0;
    while i < xs.len()
        invariant
            i <= xs@.len(),
            buf@ == old(buf)@ + u32_list(xs@.take(i as int)),
        decreases xs@.len() - i,
    {
        push_u32(buf, xs[i]);
        i = i + 1;
        assert(xs@.take(i as int).drop_last() =~= xs@.take(i - 1));
        assert(buf@ =~= old(buf)@ + u32_list(xs@.take(i as int)));
    }
    assert(xs@.take(i as int) =~= xs@);
}

/// Appends the bound values; fails, leaving `buf` with some of them, when
/// one is longer than `i32::MAX` bytes.
fn push_value_list(buf: &mut Vec<u8>, vs: &[Option<Vec<u8>>]) -> (r: bool)
    ensures
        r == (forall|i: int|
            0 <= i < vs@.len() ==> match #[trigger] vs@[i] {
                Some(d) => d@.len() <= i32::MAX,
                None => true,
            }),
        r ==> final(buf)@ == old(buf)@ + value_list(vs@),
{
    let mut i: usize = 0;
    while i < vs.len()
        invariant
            i <= vs@.len(),
            buf@ == old(buf)@ + value_list(vs@.take(i as int)),
            forall|j: int|
                0 <= j < i ==> match #[trigger] vs@[j] {
                    Some(d) => d@.len() <= i32::MAX,
                    None => true,
                },
        decreases vs@.len() - i,
    {
        match &vs[i] {
            None => push_i32(buf, -1),
            Some(d) => {
                if d.len() > 0x7fff_ffff {
                    return false;
                }
                push_i32(buf, d.len() as i32);
                push_bytes(buf, d.as_slice());
            },
        }
        i = i + 1;
        assert(vs@.take(i as int).drop_last() =~= vs@.take(i - 1));
        assert(buf@ =~= old(buf)@ + value_list(vs@.take(i as int)));
    }
    assert(vs@.take(i as int) =~= vs@);
    true
}

fn push_parameter_list(buf: &mut Vec<u8>, ps: &[(String, String)])
    ensures
        final(buf)@ == old(buf)@ + parameter_list(ps@),
{
    let mut i: usize = 0;
    while i < ps.len()
        invariant
            i <= ps@.len(),
            buf@ == old(buf)@ + parameter_list(ps@.take(i as int)),
        decreases ps@.len() - i,
    {
        let (k, v) = &ps[i];
        push_cstr(buf, k.as_str());
        push_cstr(buf, v.as_str());
        i = i + 1;
        assert(ps@.take(i as int).drop_last() =~= ps@.take(i - 1));
        assert(buf@ =~= old(buf)@ + parameter_list(ps@.take(i as int)));
    }
    assert(ps@.take(i as int) =~= ps@);
}

/// Builds the payload of a message; `None` when a count or a value length
/// does not fit its field.
fn build_payload(message: &FrontendMessage) -> (r: Option<Vec<u8>>)
    ensures
        r is Some <==> counts_fit(*message),
        r matches Some(p) ==> p@ == frontend_payload(*message),
{
    let mut p: Vec<u8> = Vec::new();
    match message {
        FrontendMessage::Bind { portal, statement, formats, values, result_formats } => {
            if formats.len() > 0xffff || values.len() > 0xffff || result_formats.len() > 0xffff {
                return None;
            }
            push_cstr(&mut p, portal);
            push_cstr(&mut p, statement);
            push_u16(&mut p, formats.len() as u16);
            push_i16_list(&mut p, formats);
            push_u16(&mut p, values.len() as u16);
            if !push_value_list(&mut p, values) {
                return None;
            }
            push_u16(&mut p, result_formats.len() as u16);
            push_i16_list(&mut p, result_formats);
        },
        FrontendMessage::CancelRequest { code, process_id, secret_key } => {
            push_u32(&mut p, *code);
            push_u32(&mut p, *process_id);
            push_u32(&mut p, *secret_key);
        },
        FrontendMessage::Close { variant, name } => {
            p.push(*variant);
            push_cstr(&mut p, name);
        },
        FrontendMessage::CopyData { data } => {
            push_bytes(&mut p, data);
        },
        FrontendMessage::CopyDone => {},
        FrontendMessage::CopyFail { message } => {
            push_cstr(&mut p, message);
        },
        FrontendMessage::Describe { variant, name } => {
            p.push(*variant);
            push_cstr(&mut p, name);
        },
        FrontendMessage::Execute { portal, max_rows } => {
            push_cstr(&mut p, portal);
            push_i32(&mut p, *max_rows);
        },
        FrontendMessage::Parse { name, query, param_types } => {
            if param_types.len() > 0xffff {
                return None;
            }
            push_cstr(&mut p, name);
            push_cstr(&mut p, query);
            push_u16(&mut p, param_types.len() as u16);
            push_u32_list(&mut p, param_types);
        },
        FrontendMessage::PasswordMessage { password } => {
            push_cstr(&mut p, password);
        },
        FrontendMessage::Query { query } => {
            push_cstr(&mut p, query);
        },
        FrontendMessage::SslRequest { code } => {
            push_u32(&mut p, *code);
        },
        FrontendMessage::StartupMessage { version, parameters } => {
            push_u32(&mut p, *version);
            push_parameter_list(&mut p, parameters);
            p.push(0u8);
        },
        FrontendMessage::Sync => {},
        FrontendMessage::Terminate => {},
    }
    assert(p@ =~= frontend_payload(*message));
    Some(p)
}

/// The tag byte of a message, if its kind has one.
fn tag_of(message: &FrontendMessage) -> (r: Option<u8>)
    ensures
        r == frontend_tag(*message),
{
    match message {
        FrontendMessage::Bind { .. } => Some(0x42u8),
        FrontendMessage::Close { .. } => Some(0x43u8),
        FrontendMessage::CopyData { .. } => Some(0x64u8),
        FrontendMessage::CopyDone => Some(0x63u8),
        FrontendMessage::CopyFail { .. } => Some(0x66u8),
        FrontendMessage::Describe { .. } => Some(0x44u8),
        FrontendMessage::Execute { .. } => Some(0x45u8),
        FrontendMessage::Parse { .. } => Some(0x50u8),
        FrontendMessage::PasswordMessage { .. } => Some(0x70u8),
        FrontendMessage::Query { .. } => Some(0x51u8),
        FrontendMessage::Sync => Some(0x53u8),
        FrontendMessage::Terminate => Some(0x58u8),
        FrontendMessage::CancelRequest { .. } => None,
        FrontendMessage::SslRequest { .. } => None,
        FrontendMessage::StartupMessage { .. } => None,
    }
}

/// Appends the encoding of `message` to `buf`. On failure `buf` is left as
/// it was.
pub fn write_message(buf: &mut Vec<u8>, message: &FrontendMessage) -> (r: Result<(), EncodeError>)
    ensures
        r is Ok <==> frontend_fits(*message),
        r is Ok ==> final(buf)@ == old(buf)@ + frontend_bytes(*message),
        r is Err ==> final(buf)@ == old(buf)@,
{
    let p = match build_payload(message) {
        Some(p) => p,
        None => {
            return Err(EncodeError::TooLarge);
        },
    };
    if p.len() > 0xffff_fffb {
        return Err(EncodeError::TooLarge);
    }
    match tag_of(message) {
        Some(t) => buf.push(t),
        None => {},
    }
    push_u32(buf, (p.len() + 4) as u32);
    push_bytes(buf, p.as_slice());
    assert(buf@ =~= old(buf)@ + frontend_bytes(*message));
    Ok(())
}

} // verus!
