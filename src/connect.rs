use vstd::prelude::*;
use vstd::utf8::encode_utf8;

verus! {

/// Port used when the parameters name none.
pub const DEFAULT_PORT: u16 = 5432;

/// Where the server listens.
pub enum ConnectTarget {
    /// A TCP host name or address.
    Tcp(String),
    /// The directory holding the server's local socket.
    Unix(String),
}

/// Whether to ask the server for an encrypted channel, and whether one is
/// required.
#[derive(Debug, Clone, Copy, PartialEq, Eq, Structural)]
pub enum SslMode {
    Disable,
    Prefer,
    Require,
}

/// Why the encryption negotiation failed.
#[derive(Debug, Clone, Copy, PartialEq, Eq, Structural)]
pub enum NegotiationError {
    /// The server declined and a secure channel is required.
    NoSslSupport,
    /// The server answered with something other than `S` or `N`, or a
    /// secure channel was required over a local socket.
    BadResponse,
}

/// What the connection does next while negotiating encryption.
#[derive(Debug, Clone, Copy, PartialEq, Eq, Structural)]
pub enum SslStep {
    /// Use the transport as it is, unencrypted.
    UsePlain,
    /// Send the encryption request, flush, and read one byte.
    SendRequest,
    /// Run the TLS handshake over the transport.
    Handshake,
    /// Give the connection up.
    Fail(NegotiationError),
}

// ---------------------------------------------------------------------------
// The local socket's path.
// ---------------------------------------------------------------------------

pub open spec fn digit_char(d: nat) -> char {
    (d + 48) as char
}

/// Decimal digits of `n`, without leading zeros.
pub open spec fn decimal(n: nat) -> Seq<char>
    decreases n,
{
    if n < 10 {
        seq![digit_char(n)]
    } else {
        decimal(n / 10).push(digit_char(n % 10))
    }
}

/// The socket file's name for a port.
pub open spec fn socket_file_name(port: u16) -> Seq<char> {
    seq!['.', 's', '.', 'P', 'G', 'S', 'Q', 'L', '.'] + decimal(port as nat)
}

/// The directory ends in `/`: its UTF-8 form ends in the byte `/`, which in
/// UTF-8 stands for that character alone.
pub open spec fn ends_in_slash(dir: Seq<char>) -> bool {
    encode_utf8(dir).len() > 0 && encode_utf8(dir).last() == 0x2f
}

/// The file name joined to the directory, with one `/` between them unless
/// the directory is empty or already ends in one.
pub open spec fn socket_path(dir: Seq<char>, port: u16) -> Seq<char> {
    if dir.len() == 0 || ends_in_slash(dir) {
        dir + socket_file_name(port)
    } else {
        dir.push('/') + socket_file_name(port)
    }
}

/// Relies on String::push: appends one character.
#[verifier::external_body]
fn string_push(s: &mut String, c: char)
    ensures
        final(s)@ == old(s)@.push(c),
{
    s.push(c)
}

/// Relies on String::push_str: appends the characters of `t`.
#[verifier::external_body]
fn string_push_str(s: &mut String, t: &str)
    ensures
        final(s)@ == old(s)@ + t@,
{
    s.push_str(t)
}

/// Appends the decimal digits of `n`.
fn push_decimal(s: &mut String, n: u16)
    ensures
        final(s)@ == old(s)@ + decimal(n as nat),
    decreases n,
{
    if n >= 10 {
        push_decimal(s, n / 10);
    }
    string_push(s, ((n % 10) as u8 + 48) as char);
    assert(s@ =~= old(s)@ + decimal(n as nat));
}

/// The path of the server's local socket in directory `dir` for `port`:
/// `<dir>/.s.PGSQL.<port>`.
pub fn unix_socket_path(dir: &str, port: u16) -> (r: String)
    ensures
        r@ == socket_path(dir@, port),
{
    let mut path = String::new();
    string_push_str(&mut path, dir);
    let bytes = dir.as_bytes();
    let n = bytes.len();
    proof {
        if dir@.len() > 0 {
            vstd::utf8::encode_utf8_first_scalar(dir@);
        }
    }
    if n > 0 && bytes[n - 1] != 0x2f {
        string_push(&mut path, '/');
    }
    string_push_str(&mut path, ".s.PGSQL.");
    proof {
        reveal_strlit(".s.PGSQL.");
    }
    push_decimal(&mut path, port);
    path
}

/// The port to connect to.
pub fn effective_port(port: Option<u16>) -> (r: u16)
    ensures
        r == match port {
            Some(p) => p,
            None => DEFAULT_PORT,
        },
{
    match port {
        Some(p) => p,
        None => DEFAULT_PORT,
    }
}

// ---------------------------------------------------------------------------
// Encryption negotiation.
// ---------------------------------------------------------------------------

/// The first step after the transport is open. With no encryption asked for
/// nothing is sent; a local socket is never encrypted.
pub open spec fn first_step(mode: SslMode, unix: bool) -> SslStep {
    match mode {
        SslMode::Disable => SslStep::UsePlain,
        SslMode::Prefer => if unix {
            SslStep::UsePlain
        } else {
            SslStep::SendRequest
        },
        SslMode::Require => if unix {
            SslStep::Fail(NegotiationError::BadResponse)
        } else {
            SslStep::SendRequest
        },
    }
}

/// The step after the server answered the encryption request with `byte`.
pub open spec fn response_step(mode: SslMode, byte: u8) -> SslStep {
    if byte == 0x53 && mode != SslMode::Disable {
        SslStep::Handshake
    } else if byte == 0x4e && mode == SslMode::Prefer {
        SslStep::UsePlain
    } else if byte == 0x4e && mode == SslMode::Require {
        SslStep::Fail(NegotiationError::NoSslSupport)
    } else {
        SslStep::Fail(NegotiationError::BadResponse)
    }
}

/// Decides the first step of encryption negotiation.
pub fn ssl_first_step(mode: SslMode, unix: bool) -> (r: SslStep)
    ensures
        r == first_step(mode, unix),
{
    match mode {
        SslMode::Disable => SslStep::UsePlain,
        SslMode::Prefer => if unix {
            SslStep::UsePlain
        } else {
            SslStep::SendRequest
        },
        SslMode::Require => if unix {
            SslStep::Fail(NegotiationError::BadResponse)
        } else {
            SslStep::SendRequest
        },
    }
}

/// Decides what follows the server's one-byte answer to the encryption
/// request.
pub fn ssl_response_step(mode: SslMode, byte: u8) -> (r: SslStep)
    ensures
        r == response_step(mode, byte),
{
    if byte == 0x53 && !matches!(mode, SslMode::Disable) {
        SslStep::Handshake
    } else if byte == 0x4e && matches!(mode, SslMode::Prefer) {
        SslStep::UsePlain
    } else if byte == 0x4e && matches!(mode, SslMode::Require) {
        SslStep::Fail(NegotiationError::NoSslSupport)
    } else {
        SslStep::Fail(NegotiationError::BadResponse)
    }
}

} // verus!
