use vstd::prelude::*;
use vstd::utf8::{encode_utf8, valid_utf8, decode_utf8};

verus! {

broadcast use vstd::utf8::encode_utf8_valid_utf8, vstd::utf8::encode_utf8_decode_utf8;

// ---------------------------------------------------------------------------
// Encodings of the wire's field types.
// ---------------------------------------------------------------------------

/// Big-endian bytes of a 16-bit integer.
pub open spec fn be_u16(v: u16) -> Seq<u8> {
    seq![(v >> 8u16) as u8, v as u8]
}

/// Big-endian bytes of a 32-bit integer.
pub open spec fn be_u32(v: u32) -> Seq<u8> {
    seq![(v >> 24u32) as u8, (v >> 16u32) as u8, (v >> 8u32) as u8, v as u8]
}

pub open spec fn be_i16(v: i16) -> Seq<u8> {
    be_u16(v as u16)
}

pub open spec fn be_i32(v: i32) -> Seq<u8> {
    be_u32(v as u32)
}

/// A C-style string: its UTF-8 bytes and one zero byte.
pub open spec fn cstr(s: Seq<char>) -> Seq<u8> {
    encode_utf8(s).push(0)
}

/// The string can travel as a C-style string: its UTF-8 bytes hold no zero.
pub open spec fn nul_free(s: Seq<char>) -> bool {
    forall|i: int| 0 <= i < encode_utf8(s).len() ==> #[trigger] encode_utf8(s)[i] != 0
}

// ---------------------------------------------------------------------------
// Reading the field types from the front of a byte sequence. Each reader
// yields the value and what is left after it, or `None` when the bytes do not
// hold one.
// ---------------------------------------------------------------------------

pub open spec fn u16_of(b0: u8, b1: u8) -> u16 {
    ((b0 as u16) << 8u16) | (b1 as u16)
}

pub open spec fn u32_of(b0: u8, b1: u8, b2: u8, b3: u8) -> u32 {
    ((b0 as u32) << 24u32) | ((b1 as u32) << 16u32) | ((b2 as u32) << 8u32) | (b3 as u32)
}

pub open spec fn take_u8(b: Seq<u8>) -> Option<(u8, Seq<u8>)> {
    if b.len() >= 1 {
        Some((b[0], b.skip(1)))
    } else {
        None
    }
}

pub open spec fn take_u16(b: Seq<u8>) -> Option<(u16, Seq<u8>)> {
    if b.len() >= 2 {
        Some((u16_of(b[0], b[1]), b.skip(2)))
    } else {
        None
    }
}

pub open spec fn take_u32(b: Seq<u8>) -> Option<(u32, Seq<u8>)> {
    if b.len() >= 4 {
        Some((u32_of(b[0], b[1], b[2], b[3]), b.skip(4)))
    } else {
        None
    }
}

pub open spec fn take_i16(b: Seq<u8>) -> Option<(i16, Seq<u8>)> {
    match take_u16(b) {
        Some((v, rest)) => Some((v as i16, rest)),
        None => None,
    }
}

pub open spec fn take_i32(b: Seq<u8>) -> Option<(i32, Seq<u8>)> {
    match take_u32(b) {
        Some((v, rest)) => Some((v as i32, rest)),
        None => None,
    }
}

/// `n` raw bytes.
pub open spec fn take_bytes(b: Seq<u8>, n: nat) -> Option<(Seq<u8>, Seq<u8>)> {
    if n <= b.len() {
        Some((b.take(n as int), b.skip(n as int)))
    } else {
        None
    }
}

/// `i` is the position of the first zero byte of `b`.
pub open spec fn first_nul(b: Seq<u8>, i: int) -> bool {
    0 <= i < b.len() && b[i] == 0 && forall|j: int| 0 <= j < i ==> #[trigger] b[j] != 0
}

/// A C-style string: the bytes before the first zero, which must be UTF-8.
pub open spec fn take_cstr(b: Seq<u8>) -> Option<(Seq<char>, Seq<u8>)> {
    if exists|i: int| first_nul(b, i) {
        let i = choose|i: int| first_nul(b, i);
        if valid_utf8(b.take(i)) {
            Some((decode_utf8(b.take(i)), b.skip(i + 1)))
        } else {
            None
        }
    } else {
        None
    }
}

// ---------------------------------------------------------------------------
// Reading and writing them.
// ---------------------------------------------------------------------------

/// Appends `v` in big-endian order.
pub fn push_u16(buf: &mut Vec<u8>, v: u16)
    ensures
        final(buf)@ == old(buf)@ + be_u16(v),
{
    buf.push((v >> 8u16) as u8);
    buf.push(v as u8);
    assert(buf@ =~= old(buf)@ + be_u16(v));
}

/// Appends `v` in big-endian order.
pub fn push_u32(buf: &mut Vec<u8>, v: u32)
    ensures
        final(buf)@ == old(buf)@ + be_u32(v),
{
    buf.push((v >> 24u32) as u8);
    buf.push((v >> 16u32) as u8);
    buf.push((v >> 8u32) as u8);
    buf.push(v as u8);
    assert(buf@ =~= old(buf)@ + be_u32(v));
}

pub fn push_i16(buf: &mut Vec<u8>, v: i16)
    ensures
        final(buf)@ == old(buf)@ + be_i16(v),
{
    push_u16(buf, v as u16);
}

pub fn push_i32(buf: &mut Vec<u8>, v: i32)
    ensures
        final(buf)@ == old(buf)@ + be_i32(v),
{
    push_u32(buf, v as u32);
}

/// Appends raw bytes.
pub fn push_bytes(buf: &mut Vec<u8>, data: &[u8])
    ensures
        final(buf)@ == old(buf)@ + data@,
{
    let mut i: usize = 0;
    while i < data.len()
        invariant
            i <= data@.len(),
            buf@ == old(buf)@ + data@.take(i as int),
        decreases data@.len() - i,
    {
        buf.push(data[i]);
        i = i + 1;
        assert(buf@ =~= old(buf)@ + data@.take(i as int));
    }
    assert(data@.take(i as int) =~= data@);
}

/// Appends `s` as a C-style string.
pub fn push_cstr(buf: &mut Vec<u8>, s: &str)
    ensures
        final(buf)@ == old(buf)@ + cstr(s@),
{
    let bytes = s.as_bytes();
    push_bytes(buf, bytes);
    buf.push(0u8);
    assert(buf@ =~= old(buf)@ + cstr(s@));
}

pub fn read_u8(b: &[u8], pos: usize) -> (r: Option<(u8, usize)>)
    requires
        pos <= b@.len(),
    ensures
        match r {
            Some((v, p)) => pos <= p <= b@.len() && take_u8(b@.skip(pos as int)) == Some(
                (v, b@.skip(p as int)),
            ),
            None => take_u8(b@.skip(pos as int)) is None,
        },
{
    if b.len() - pos >= 1 {
        assert(b@.skip(pos as int).skip(1) =~= b@.skip(pos + 1));
        Some((b[pos], pos + 1))
    } else {
        None
    }
}

pub fn read_u16(b: &[u8], pos: usize) -> (r: Option<(u16, usize)>)
    requires
        pos <= b@.len(),
    ensures
        match r {
            Some((v, p)) => pos <= p <= b@.len() && take_u16(b@.skip(pos as int)) == Some(
                (v, b@.skip(p as int)),
            ),
            None => take_u16(b@.skip(pos as int)) is None,
        },
{
    if b.len() - pos >= 2 {
        assert(b@.skip(pos as int).skip(2) =~= b@.skip(pos + 2));
        let v = ((b[pos] as u16) << 8u16) | (b[pos + 1] as u16);
        Some((v, pos + 2))
    } else {
        None
    }
}

pub fn read_u32(b: &[u8], pos: usize) -> (r: Option<(u32, usize)>)
    requires
        pos <= b@.len(),
    ensures
        match r {
            Some((v, p)) => pos <= p <= b@.len() && take_u32(b@.skip(pos as int)) == Some(
                (v, b@.skip(p as int)),
            ),
            None => take_u32(b@.skip(pos as int)) is None,
        },
{
    if b.len() - pos >= 4 {
        assert(b@.skip(pos as int).skip(4) =~= b@.skip(pos + 4));
        let v = ((b[pos] as u32) << 24u32) | ((b[pos + 1] as u32) << 16u32) | ((b[pos + 2] as u32)
            << 8u32) | (b[pos + 3] as u32);
        Some((v, pos + 4))
    } else {
        None
    }
}

pub fn read_i16(b: &[u8], pos: usize) -> (r: Option<(i16, usize)>)
    requires
        pos <= b@.len(),
    ensures
        match r {
            Some((v, p)) => pos <= p <= b@.len() && take_i16(b@.skip(pos as int)) == Some(
                (v, b@.skip(p as int)),
            ),
            None => take_i16(b@.skip(pos as int)) is None,
        },
{
    match read_u16(b, pos) {
        Some((v, p)) => Some((v as i16, p)),
        None => None,
    }
}

pub fn read_i32(b: &[u8], pos: usize) -> (r: Option<(i32, usize)>)
    requires
        pos <= b@.len(),
    ensures
        match r {
            Some((v, p)) => pos <= p <= b@.len() && take_i32(b@.skip(pos as int)) == Some(
                (v, b@.skip(p as int)),
            ),
            None => take_i32(b@.skip(pos as int)) is None,
        },
{
    match read_u32(b, pos) {
        Some((v, p)) => Some((v as i32, p)),
        None => None,
    }
}

/// Copies `n` raw bytes.
pub fn read_bytes(b: &[u8], pos: usize, n: usize) -> (r: Option<(Vec<u8>, usize)>)
    requires
        pos <= b@.len(),
    ensures
        match r {
            Some((v, p)) => pos <= p <= b@.len() && take_bytes(b@.skip(pos as int), n as nat)
                == Some((v@, b@.skip(p as int))),
            None => take_bytes(b@.skip(pos as int), n as nat) is None,
        },
{
    if b.len() - pos < n {
        return None;
    }
    let mut out: Vec<u8> = Vec::new();
    let mut i: usize = 0;
    while i < n
        invariant
            i <= n,
            pos + n <= b@.len(),
            b@.len() <= usize::MAX,
            out@ == b@.subrange(pos as int, pos + i),
        decreases n - i,
    {
        out.push(b[pos + i]);
        i = i + 1;
        assert(out@ =~= b@.subrange(pos as int, pos + i));
    }
    assert(out@ =~= b@.skip(pos as int).take(n as int));
    assert(b@.skip(pos as int).skip(n as int) =~= b@.skip(pos + n));
    Some((out, pos + n))
}

/// Relies on String::from_utf8: it accepts exactly the well-formed UTF-8
/// byte sequences, and the string it returns holds those bytes.
#[verifier::external_body]
fn string_from_utf8(bytes: Vec<u8>) -> (r: Option<String>)
    ensures
        r is Some <==> valid_utf8(bytes@),
        r matches Some(s) ==> encode_utf8(s@) == bytes@,
{
    String::from_utf8(bytes).ok()
}

/// Reads a C-style string.
pub fn read_cstr(b: &[u8], pos: usize) -> (r: Option<(String, usize)>)
    requires
        pos <= b@.len(),
    ensures
        match r {
            Some((s, p)) => pos <= p <= b@.len() && take_cstr(b@.skip(pos as int)) == Some(
                (s@, b@.skip(p as int)),
            ),
            None => take_cstr(b@.skip(pos as int)) is None,
        },
{
    let ghost rest = b@.skip(pos as int);
    let mut i: usize = pos;
    while i < b.len() && b[i] != 0
        invariant
            pos <= i <= b@.len(),
            forall|j: int| pos <= j < i ==> b@[j] != 0,
        decreases b@.len() - i,
    {
        i = i + 1;
    }
    if i == b.len() {
        assert(!exists|k: int| first_nul(rest, k)) by {
            assert forall|k: int| !first_nul(rest, k) by {
                if 0 <= k < rest.len() {
                    assert(rest[k] == b@[pos + k]);
                }
            }
        }
        return None;
    }
    let ghost k = i - pos;
    assert(first_nul(rest, k)) by {
        assert forall|j: int| 0 <= j < k implies #[trigger] rest[j] != 0 by {
            assert(rest[j] == b@[pos + j]);
        }
    }
    assert forall|k2: int| first_nul(rest, k2) implies k2 == k by {
        if k2 < k {
            assert(rest[k2] == 0);
        } else if k < k2 {
            assert(rest[k] != 0);
        }
    }
    let (bytes, _) = match read_bytes(b, pos, i - pos) {
        Some(x) => x,
        None => {
            return None;
        },
    };
    assert(bytes@ =~= rest.take(k));
    assert(b@.skip(i + 1) =~= rest.skip(k + 1));
    match string_from_utf8(bytes) {
        Some(s) => {
            proof {
                vstd::utf8::decode_utf8_encode_utf8(bytes@);
                vstd::utf8::encode_utf8_decode_utf8(s@);
            }
            Some((s, i + 1))
        },
        None => None,
    }
}

// ---------------------------------------------------------------------------
// Each reader undoes the matching encoding.
// ---------------------------------------------------------------------------

pub proof fn lemma_u16_round_trip(v: u16, rest: Seq<u8>)
    ensures
        take_u16(be_u16(v) + rest) == Some((v, rest)),
{
    let b = be_u16(v) + rest;
    assert(u16_of((v >> 8u16) as u8, v as u8) == v) by (bit_vector);
    assert(b.skip(2) =~= rest);
}

pub proof fn lemma_u32_round_trip(v: u32, rest: Seq<u8>)
    ensures
        take_u32(be_u32(v) + rest) == Some((v, rest)),
{
    let b = be_u32(v) + rest;
    assert(u32_of((v >> 24u32) as u8, (v >> 16u32) as u8, (v >> 8u32) as u8, v as u8) == v)
        by (bit_vector);
    assert(b.skip(4) =~= rest);
}

pub proof fn lemma_i16_round_trip(v: i16, rest: Seq<u8>)
    ensures
        take_i16(be_i16(v) + rest) == Some((v, rest)),
{
    lemma_u16_round_trip(v as u16, rest);
    assert((v as u16) as i16 == v) by (bit_vector);
}

pub proof fn lemma_i32_round_trip(v: i32, rest: Seq<u8>)
    ensures
        take_i32(be_i32(v) + rest) == Some((v, rest)),
{
    lemma_u32_round_trip(v as u32, rest);
    assert((v as u32) as i32 == v) by (bit_vector);
}

pub proof fn lemma_u8_round_trip(v: u8, rest: Seq<u8>)
    ensures
        take_u8(seq![v] + rest) == Some((v, rest)),
{
    assert((seq![v] + rest).skip(1) =~= rest);
}

pub proof fn lemma_bytes_round_trip(data: Seq<u8>, rest: Seq<u8>)
    ensures
        take_bytes(data + rest, data.len()) == Some((data, rest)),
{
    assert((data + rest).take(data.len() as int) =~= data);
    assert((data + rest).skip(data.len() as int) =~= rest);
}

pub proof fn lemma_cstr_round_trip(s: Seq<char>, rest: Seq<u8>)
    requires
        nul_free(s),
    ensures
        take_cstr(cstr(s) + rest) == Some((s, rest)),
{
    let e = encode_utf8(s);
    let b = cstr(s) + rest;
    let n = e.len() as int;
    assert(b[n] == 0);
    assert forall|j: int| 0 <= j < n implies #[trigger] b[j] != 0 by {
        assert(b[j] == e[j]);
    }
    assert(first_nul(b, n));
    assert forall|k: int| first_nul(b, k) implies k == n by {
        if k < n {
            assert(b[k] == e[k]);
        } else if n < k {
            assert(b[n] == 0);
        }
    }
    assert(b.take(n) =~= e);
    assert(b.skip(n + 1) =~= rest);
}

// ---------------------------------------------------------------------------
// A reader looks only at what it takes: bytes added after the input end up
// after what is left.
// ---------------------------------------------------------------------------

pub proof fn lemma_skip_append(b: Seq<u8>, e: Seq<u8>, k: int)
    requires
        0 <= k <= b.len(),
    ensures
        (b + e).skip(k) == b.skip(k) + e,
{
    assert((b + e).skip(k) =~= b.skip(k) + e);
}

pub proof fn lemma_u8_extends(b: Seq<u8>, e: Seq<u8>)
    ensures
        take_u8(b) matches Some((v, r)) ==> take_u8(b + e) == Some((v, r + e)),
{
    if b.len() >= 1 {
        lemma_skip_append(b, e, 1);
    }
}

pub proof fn lemma_u16_extends(b: Seq<u8>, e: Seq<u8>)
    ensures
        take_u16(b) matches Some((v, r)) ==> take_u16(b + e) == Some((v, r + e)),
        take_i16(b) matches Some((v, r)) ==> take_i16(b + e) == Some((v, r + e)),
{
    if b.len() >= 2 {
        lemma_skip_append(b, e, 2);
    }
}

pub proof fn lemma_u32_extends(b: Seq<u8>, e: Seq<u8>)
    ensures
        take_u32(b) matches Some((v, r)) ==> take_u32(b + e) == Some((v, r + e)),
        take_i32(b) matches Some((v, r)) ==> take_i32(b + e) == Some((v, r + e)),
{
    if b.len() >= 4 {
        lemma_skip_append(b, e, 4);
    }
}

pub proof fn lemma_bytes_extends(b: Seq<u8>, e: Seq<u8>, n: nat)
    ensures
        take_bytes(b, n) matches Some((v, r)) ==> take_bytes(b + e, n) == Some((v, r + e)),
{
    if n <= b.len() {
        lemma_skip_append(b, e, n as int);
        assert((b + e).take(n as int) =~= b.take(n as int));
    }
}

pub proof fn lemma_cstr_extends(b: Seq<u8>, e: Seq<u8>)
    ensures
        take_cstr(b) matches Some((v, r)) ==> take_cstr(b + e) == Some((v, r + e)),
{
    if exists|i: int| first_nul(b, i) {
        let i = choose|i: int| first_nul(b, i);
        let be = b + e;
        assert forall|j: int| 0 <= j < i implies #[trigger] be[j] != 0 by {
            assert(be[j] == b[j]);
        }
        assert(first_nul(be, i));
        assert forall|k: int| first_nul(be, k) implies k == i by {
            if k < i {
                assert(be[k] == b[k]);
            } else if i < k {
                assert(be[i] == 0);
            }
        }
        assert(be.take(i) =~= b.take(i));
        lemma_skip_append(b, e, i + 1);
    }
}

} // verus!
