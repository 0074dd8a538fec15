//! The caller-owned receive buffer and the incremental frame reader over it.
//!
//! The buffer is a growable byte buffer ([`bytes::BytesMut`]); only two
//! operations ever mutate it: appending freshly-read bytes, and discarding a
//! prefix once a frame has been fully decoded from it.

use vstd::prelude::*;
use crate::codec::frame_size;
use crate::codec::parse_front;
use crate::codec::Cursor;
use crate::codec::FrameError;
use crate::codec::X11Frame;

verus! {

#[verifier::external_type_specification]
#[verifier::external_body]
pub struct ExBytesMut(bytes::BytesMut);

/// The bytes a [`bytes::BytesMut`] holds, front to back.
pub uninterp spec fn buffer_bytes(b: bytes::BytesMut) -> Seq<u8>;

/// Relies on `bytes::BytesMut::with_capacity`: the returned buffer has
/// length 0.
#[verifier::external_body]
fn buffer_new() -> (b: bytes::BytesMut)
    ensures
        buffer_bytes(b) == Seq::<u8>::empty(),
{
    bytes::BytesMut::with_capacity(4096)
}

/// Relies on the `Deref<Target = [u8]>` impl of `bytes::BytesMut`: the
/// slice of everything the buffer holds.
#[verifier::external_body]
fn buffer_as_slice(b: &bytes::BytesMut) -> (s: &[u8])
    ensures
        s@ == buffer_bytes(*b),
{
    &b[..]
}

/// Relies on `bytes::Buf::advance` for `BytesMut`: discards `count` bytes
/// from the front. It panics when `count` exceeds the length, so that case
/// is excluded here.
#[verifier::external_body]
fn buffer_advance(b: &mut bytes::BytesMut, count: usize)
    requires
        count <= buffer_bytes(*old(b)).len(),
    ensures
        buffer_bytes(*final(b)) == buffer_bytes(*old(b)).skip(count as int),
{
    bytes::Buf::advance(b, count)
}

/// Relies on `bytes::BytesMut::extend_from_slice`: appends the bytes of
/// `data` at the back.
#[verifier::external_body]
fn buffer_extend(b: &mut bytes::BytesMut, data: &[u8])
    ensures
        buffer_bytes(*final(b)) == buffer_bytes(*old(b)) + data@,
{
    b.extend_from_slice(data)
}

/// The receive half of a client: a growable buffer of not-yet-decoded
/// bytes, from whose front complete frames are split off one at a time.
pub struct FrameReader {
    buffer: bytes::BytesMut,
}

impl FrameReader {
    /// The bytes currently buffered and not yet decoded.
    pub closed spec fn bytes(&self) -> Seq<u8> {
        buffer_bytes(self.buffer)
    }

    pub fn new() -> (r: FrameReader)
        ensures
            r.bytes() == Seq::<u8>::empty(),
    {
        FrameReader { buffer: buffer_new() }
    }

    /// How many bytes are buffered and not yet decoded.
    pub fn buffered_len(&self) -> (r: usize)
        ensures
            r == self.bytes().len(),
    {
        let slice = buffer_as_slice(&self.buffer);
        slice.len()
    }

    /// Appends freshly-read bytes at the back of the buffer.
    pub fn append(&mut self, data: &[u8])
        ensures
            final(self).bytes() == old(self).bytes() + data@,
    {
        buffer_extend(&mut self.buffer, data);
    }

    /// Splits one complete frame off the front of the buffer, if one is
    /// fully present: `Ok(Some(frame))` consumes exactly that frame's
    /// bytes, `Ok(None)` means more bytes must be read first and leaves the
    /// buffer untouched. It never fails.
    pub fn parse_frame(&mut self) -> (r: Result<Option<X11Frame>, FrameError>)
        ensures
            match r {
                Ok(Some(frame)) => frame_size(old(self).bytes()) matches Some(n) && frame@
                    == parse_front(old(self).bytes()) && final(self).bytes() == old(
                    self,
                ).bytes().skip(n),
                Ok(None) => frame_size(old(self).bytes()) is None && final(self).bytes() == old(
                    self,
                ).bytes(),
                Err(_) => false,
            },
    {
        let slice = buffer_as_slice(&self.buffer);
        let mut cur = Cursor::new(slice);
        proof {
            assert(slice@.skip(0) =~= slice@);
        }

        match X11Frame::check(&mut cur) {
            Ok(()) => {},
            Err(_) => {
                return Ok(None);
            },
        }
        let length = cur.position();

        cur.pos = 0;
        let frame = match X11Frame::parse(&mut cur) {
            Ok(frame) => frame,
            Err(e) => {
                return Err(e);
            },
        };

        buffer_advance(&mut self.buffer, length);
        Ok(Some(frame))
    }

    /// The classification when the stream has ended: a clean "no more
    /// frames" if nothing is buffered, a connection reset if a partial,
    /// undecodable frame remains with no more bytes coming.
    pub fn end_of_stream(&self) -> (r: Result<Option<X11Frame>, FrameError>)
        ensures
            self.bytes().len() == 0 ==> r == Ok::<Option<X11Frame>, FrameError>(None),
            self.bytes().len() > 0 ==> r == Err::<Option<X11Frame>, FrameError>(
                FrameError::ConnectionReset,
            ),
    {
        let slice = buffer_as_slice(&self.buffer);
        if slice.len() == 0 {
            Ok(None)
        } else {
            Err(FrameError::ConnectionReset)
        }
    }
}

} // verus!
