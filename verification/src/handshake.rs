//! The connection handshake: building the connection-initiation message
//! (byte-order marker, protocol version, optional authorization name and
//! data, each padded to a 4-byte boundary) and classifying the server's
//! connection response.

use vstd::prelude::*;
use crate::codec::be16_bytes;
use crate::codec::push_all;
use crate::codec::push_be16;
use crate::display::DisplayNameParseError;

verus! {

/// The major version of the protocol this layer speaks.
pub const PROTOCOL_MAJOR_VERSION: u16 = 11;

/// The minor version of the protocol this layer speaks.
pub const PROTOCOL_MINOR_VERSION: u16 = 0;

/// The byte-order marker sent first in the initiation message: the wire
/// format is big-endian ("network order") throughout.
pub const BYTE_ORDER_MARKER: u8 = 0x42;

/// Authorization name and data handed to the handshake, empty strings when
/// none are supplied.
#[derive(Clone, Debug, PartialEq, Eq)]
pub struct AuthInfo {
    pub protocol_name: String,
    pub protocol_data: String,
}

/// A request to initialize a connection with the X server, with no
/// authorization supplied.
#[derive(Clone, Copy, Debug, PartialEq, Eq, Structural)]
pub struct InitConnectionRequest {}

/// How many zero bytes pad a field of `n` bytes to the next 4-byte
/// boundary.
pub open spec fn pad4(n: int) -> int {
    (4 - n % 4) % 4
}

/// `n` zero bytes.
pub open spec fn zeros(n: int) -> Seq<u8> {
    Seq::new(n as nat, |i: int| 0u8)
}

/// The connection-initiation message: byte-order marker, two reserved
/// bytes, major and minor version, the two authorization field lengths,
/// two reserved bytes, then the authorization name and data, each padded
/// with zeros to a 4-byte boundary.
pub open spec fn spec_init_message(name: Seq<u8>, data: Seq<u8>) -> Seq<u8>
    recommends
        name.len() <= 0xFFFF,
        data.len() <= 0xFFFF,
{
    seq![BYTE_ORDER_MARKER, 0u8, 0u8] + be16_bytes(PROTOCOL_MAJOR_VERSION) + be16_bytes(
        PROTOCOL_MINOR_VERSION,
    ) + be16_bytes(name.len() as u16) + be16_bytes(data.len() as u16) + seq![0u8, 0u8] + name
        + zeros(pad4(name.len() as int)) + data + zeros(pad4(data.len() as int))
}

/// Appends the zero padding that takes a field of `n` bytes to the next
/// 4-byte boundary.
fn push_pad(out: &mut Vec<u8>, n: usize)
    ensures
        final(out)@ == old(out)@ + zeros(pad4(n as int)),
{
    let pad: usize = (4 - n % 4) % 4;
    let mut i: usize = 0;
    while i < pad
        invariant
            i <= pad,
            pad == pad4(n as int),
            out@ == old(out)@ + zeros(i as int),
        decreases pad - i,
    {
        out.push(0);
        i = i + 1;
        proof {
            assert(out@ =~= old(out)@ + zeros(i as int));
        }
    }
    proof {
        assert(out@ =~= old(out)@ + zeros(pad4(n as int)));
    }
}

/// Builds the connection-initiation message for the given authorization
/// name and data; their lengths must fit the message's 16-bit length
/// fields.
pub fn build_init_message(auth_name: &[u8], auth_data: &[u8]) -> (r: Vec<u8>)
    requires
        auth_name@.len() <= 0xFFFF,
        auth_data@.len() <= 0xFFFF,
    ensures
        r@ == spec_init_message(auth_name@, auth_data@),
{
    let mut out: Vec<u8> = Vec::new();
    out.push(BYTE_ORDER_MARKER);
    out.push(0);
    out.push(0);
    push_be16(&mut out, PROTOCOL_MAJOR_VERSION);
    push_be16(&mut out, PROTOCOL_MINOR_VERSION);
    push_be16(&mut out, auth_name.len() as u16);
    push_be16(&mut out, auth_data.len() as u16);
    out.push(0);
    out.push(0);
    push_all(&mut out, auth_name);
    push_pad(&mut out, auth_name.len());
    push_all(&mut out, auth_data);
    push_pad(&mut out, auth_data.len());
    proof {
        assert(out@ =~= spec_init_message(auth_name@, auth_data@));
    }
    out
}

impl InitConnectionRequest {
    /// The wire bytes of the initiation message this request stands for:
    /// no authorization name or data.
    pub fn wire_bytes(&self) -> (r: Vec<u8>)
        ensures
            r@ == spec_init_message(Seq::<u8>::empty(), Seq::<u8>::empty()),
    {
        let empty: Vec<u8> = Vec::new();
        build_init_message(empty.as_slice(), empty.as_slice())
    }
}

/// The server's connection response, classified by its discriminant byte;
/// each variant carries the response body, opaque to this layer beyond
/// storage.
#[derive(Clone, Debug, PartialEq, Eq)]
pub enum HandshakeResponse {
    /// The server rejected the connection; the body carries the reason.
    Failed(Vec<u8>),
    /// The server accepted; the body carries its capability data.
    Success(Vec<u8>),
    /// The server requires authorization this client did not supply or
    /// supplied incorrectly.
    Authenticate(Vec<u8>),
}

/// Why a connection attempt failed; every variant is terminal, and the
/// caller must re-attempt the connection from scratch.
#[derive(Clone, Debug, PartialEq, Eq)]
pub enum ConnectError {
    /// The display specifier could not be parsed.
    Parse(DisplayNameParseError),
    /// Opening the transport or exchanging the handshake failed; the text
    /// describes the underlying stream error.
    Io(String),
    /// The server declined the connection.
    Failed(Vec<u8>),
    /// The server demands authorization.
    Auth(Vec<u8>),
}

/// Classifies a connection response by its first byte: 0 is a failure, 1 a
/// success, 2 an authentication challenge; anything else (or an empty
/// response) is no response at all.
pub fn classify_response(bytes: &[u8]) -> (r: Option<HandshakeResponse>)
    ensures
        match r {
            Some(HandshakeResponse::Failed(body)) => bytes@.len() >= 1 && bytes@[0] == 0 && body@
                == bytes@.skip(1),
            Some(HandshakeResponse::Success(body)) => bytes@.len() >= 1 && bytes@[0] == 1 && body@
                == bytes@.skip(1),
            Some(HandshakeResponse::Authenticate(body)) => bytes@.len() >= 1 && bytes@[0] == 2
                && body@ == bytes@.skip(1),
            None => bytes@.len() == 0 || (bytes@[0] != 0 && bytes@[0] != 1 && bytes@[0] != 2),
        },
{
    if bytes.len() == 0 {
        return None;
    }
    let discriminant: u8 = *vstd::slice::slice_index_get(bytes, 0);
    let body_slice = vstd::slice::slice_subrange(bytes, 1, bytes.len());
    let body: Vec<u8> = vstd::slice::slice_to_vec(body_slice);
    proof {
        assert(body@ =~= bytes@.skip(1));
    }
    match discriminant {
        0u8 => Some(HandshakeResponse::Failed(body)),
        1u8 => Some(HandshakeResponse::Success(body)),
        2u8 => Some(HandshakeResponse::Authenticate(body)),
        _ => None,
    }
}

/// The outcome a classified response dictates: success hands back the
/// server's capability data to store; a rejection or an authentication
/// challenge is a terminal error carrying the response body.
pub fn response_outcome(response: HandshakeResponse) -> (r: Result<Vec<u8>, ConnectError>)
    ensures
        match response {
            HandshakeResponse::Success(body) => r == Ok::<Vec<u8>, ConnectError>(body),
            HandshakeResponse::Failed(body) => r == Err::<Vec<u8>, ConnectError>(
                ConnectError::Failed(body),
            ),
            HandshakeResponse::Authenticate(body) => r == Err::<Vec<u8>, ConnectError>(
                ConnectError::Auth(body),
            ),
        },
{
    match response {
        HandshakeResponse::Success(body) => Ok(body),
        HandshakeResponse::Failed(body) => Err(ConnectError::Failed(body)),
        HandshakeResponse::Authenticate(body) => Err(ConnectError::Auth(body)),
    }
}

} // verus!
