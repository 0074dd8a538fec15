//! The incremental binary frame codec: a bounds-checked cursor over a byte
//! slice, a two-phase (`check`, then `parse`) decoder for the wire-frame
//! kinds, and the inverse serializer.
//!
//! All multi-byte integer fields are big-endian ("network order").

use vstd::prelude::*;

verus! {

/// Signalled by the codec while decoding.
///
/// `Incomplete` is an internal signal only: it means "read more bytes and
/// retry", never a user-visible failure. `ConnectionReset` is fatal: the
/// stream ended while a partial frame was still buffered.
#[derive(Clone, Copy, Debug, PartialEq, Eq, Structural)]
pub enum FrameError {
    Incomplete,
    ConnectionReset,
}

/// A read position over a borrowed byte slice. Every accessor is
/// bounds-checked and fails with [`FrameError::Incomplete`] rather than ever
/// reading out of range.
pub struct Cursor<'a> {
    pub bytes: &'a [u8],
    pub pos: usize,
}

impl<'a> Cursor<'a> {
    /// The cursor never points past the end of the slice.
    pub open spec fn wf(self) -> bool {
        self.pos <= self.bytes@.len()
    }

    /// The bytes not yet consumed.
    pub open spec fn rest(self) -> Seq<u8> {
        self.bytes@.skip(self.pos as int)
    }

    pub fn new(bytes: &'a [u8]) -> (r: Cursor<'a>)
        ensures
            r.wf(),
            r.bytes@ == bytes@,
            r.pos == 0,
    {
        Cursor { bytes, pos: 0 }
    }

    pub fn position(&self) -> (r: usize)
        ensures
            r == self.pos,
    {
        self.pos
    }

    pub fn remaining(&self) -> (r: usize)
        requires
            self.wf(),
        ensures
            r == self.rest().len(),
    {
        self.bytes.len() - self.pos
    }
}

/// The big-endian value of two bytes.
pub open spec fn be16(hi: u8, lo: u8) -> u16 {
    (hi * 256 + lo) as u16
}

/// The big-endian value of four bytes.
pub open spec fn be32(b0: u8, b1: u8, b2: u8, b3: u8) -> u32 {
    (b0 * 0x1000000 + b1 * 0x10000 + b2 * 0x100 + b3) as u32
}

/// The two big-endian bytes of a 16-bit value, most significant first.
pub open spec fn be16_bytes(v: u16) -> Seq<u8> {
    seq![(v / 256) as u8, (v % 256) as u8]
}

/// The four big-endian bytes of a 32-bit value, most significant first.
pub open spec fn be32_bytes(v: u32) -> Seq<u8> {
    seq![
        (v / 0x1000000) as u8,
        ((v / 0x10000) % 256) as u8,
        ((v / 0x100) % 256) as u8,
        (v % 256) as u8,
    ]
}

/// Reads the next byte without consuming it.
pub fn peek_u8(buf: &mut Cursor) -> (r: Result<u8, FrameError>)
    requires
        old(buf).wf(),
    ensures
        *final(buf) == *old(buf),
        match r {
            Ok(v) => old(buf).rest().len() >= 1 && v == old(buf).rest()[0],
            Err(e) => e == FrameError::Incomplete && old(buf).rest().len() == 0,
        },
{
    if buf.pos >= buf.bytes.len() {
        return Err(FrameError::Incomplete);
    }
    let b: u8 = *vstd::slice::slice_index_get(buf.bytes, buf.pos);
    Ok(b)
}

/// Consumes and returns the next byte.
pub fn get_u8(buf: &mut Cursor) -> (r: Result<u8, FrameError>)
    requires
        old(buf).wf(),
    ensures
        final(buf).wf(),
        final(buf).bytes@ == old(buf).bytes@,
        match r {
            Ok(v) => old(buf).rest().len() >= 1 && v == old(buf).rest()[0] && final(buf).pos == old(
                buf,
            ).pos + 1,
            Err(e) => e == FrameError::Incomplete && old(buf).rest().len() == 0 && final(buf).pos == old(
                buf,
            ).pos,
        },
{
    if buf.pos >= buf.bytes.len() {
        return Err(FrameError::Incomplete);
    }
    let b: u8 = *vstd::slice::slice_index_get(buf.bytes, buf.pos);
    buf.pos = buf.pos + 1;
    Ok(b)
}

/// Reads the next two bytes as a big-endian 16-bit value without consuming
/// them.
pub fn peek_u16(buf: &mut Cursor) -> (r: Result<u16, FrameError>)
    requires
        old(buf).wf(),
    ensures
        *final(buf) == *old(buf),
        match r {
            Ok(v) => old(buf).rest().len() >= 2 && v == be16(
                old(buf).rest()[0],
                old(buf).rest()[1],
            ),
            Err(e) => e == FrameError::Incomplete && old(buf).rest().len() < 2,
        },
{
    if buf.bytes.len() - buf.pos < 2 {
        return Err(FrameError::Incomplete);
    }
    let hi: u8 = *vstd::slice::slice_index_get(buf.bytes, buf.pos);
    let lo: u8 = *vstd::slice::slice_index_get(buf.bytes, buf.pos + 1);
    Ok((hi as u16) * 256 + (lo as u16))
}

/// Consumes the next two bytes and returns their big-endian 16-bit value.
pub fn get_u16(buf: &mut Cursor) -> (r: Result<u16, FrameError>)
    requires
        old(buf).wf(),
    ensures
        final(buf).wf(),
        final(buf).bytes@ == old(buf).bytes@,
        match r {
            Ok(v) => old(buf).rest().len() >= 2 && v == be16(
                old(buf).rest()[0],
                old(buf).rest()[1],
            ) && final(buf).pos == old(buf).pos + 2,
            Err(e) => e == FrameError::Incomplete && old(buf).rest().len() < 2 && final(buf).pos == old(
                buf,
            ).pos,
        },
{
    if buf.bytes.len() - buf.pos < 2 {
        return Err(FrameError::Incomplete);
    }
    let hi: u8 = *vstd::slice::slice_index_get(buf.bytes, buf.pos);
    let lo: u8 = *vstd::slice::slice_index_get(buf.bytes, buf.pos + 1);
    buf.pos = buf.pos + 2;
    Ok((hi as u16) * 256 + (lo as u16))
}

/// Reads the next four bytes as a big-endian 32-bit value without consuming
/// them.
pub fn peek_u32(buf: &mut Cursor) -> (r: Result<u32, FrameError>)
    requires
        old(buf).wf(),
    ensures
        *final(buf) == *old(buf),
        match r {
            Ok(v) => old(buf).rest().len() >= 4 && v == be32(
                old(buf).rest()[0],
                old(buf).rest()[1],
                old(buf).rest()[2],
                old(buf).rest()[3],
            ),
            Err(e) => e == FrameError::Incomplete && old(buf).rest().len() < 4,
        },
{
    if buf.bytes.len() - buf.pos < 4 {
        return Err(FrameError::Incomplete);
    }
    let b0: u8 = *vstd::slice::slice_index_get(buf.bytes, buf.pos);
    let b1: u8 = *vstd::slice::slice_index_get(buf.bytes, buf.pos + 1);
    let b2: u8 = *vstd::slice::slice_index_get(buf.bytes, buf.pos + 2);
    let b3: u8 = *vstd::slice::slice_index_get(buf.bytes, buf.pos + 3);
    Ok((b0 as u32) * 0x1000000 + (b1 as u32) * 0x10000 + (b2 as u32) * 0x100 + (b3 as u32))
}

/// Consumes the next four bytes and returns their big-endian 32-bit value.
pub fn get_u32(buf: &mut Cursor) -> (r: Result<u32, FrameError>)
    requires
        old(buf).wf(),
    ensures
        final(buf).wf(),
        final(buf).bytes@ == old(buf).bytes@,
        match r {
            Ok(v) => old(buf).rest().len() >= 4 && v == be32(
                old(buf).rest()[0],
                old(buf).rest()[1],
                old(buf).rest()[2],
                old(buf).rest()[3],
            ) && final(buf).pos == old(buf).pos + 4,
            Err(e) => e == FrameError::Incomplete && old(buf).rest().len() < 4 && final(buf).pos == old(
                buf,
            ).pos,
        },
{
    if buf.bytes.len() - buf.pos < 4 {
        return Err(FrameError::Incomplete);
    }
    let b0: u8 = *vstd::slice::slice_index_get(buf.bytes, buf.pos);
    let b1: u8 = *vstd::slice::slice_index_get(buf.bytes, buf.pos + 1);
    let b2: u8 = *vstd::slice::slice_index_get(buf.bytes, buf.pos + 2);
    let b3: u8 = *vstd::slice::slice_index_get(buf.bytes, buf.pos + 3);
    buf.pos = buf.pos + 4;
    Ok((b0 as u32) * 0x1000000 + (b1 as u32) * 0x10000 + (b2 as u32) * 0x100 + (b3 as u32))
}

/// The mathematical model of a wire frame: the same four kinds as
/// [`X11Frame`], with every byte field a `Seq<u8>`.
#[allow(inconsistent_fields)]
pub enum FrameModel {
    Request { major_opcode: u8, metabyte: u8, length: u16, chunk: Seq<u8> },
    Reply { metabyte: u8, sequence: u16, length: u32, chunk: Seq<u8> },
    Event { code: u8, chunk: Seq<u8> },
    Error {
        code: u8,
        sequence: u16,
        metablock: Seq<u8>,
        minor_opcode: u16,
        major_opcode: u8,
        chunk: Seq<u8>,
    },
}

impl FrameModel {
    /// Structural validity: every variable-length field has the length the
    /// wire layout gives it, and an event's code is distinct from the error
    /// and reply discriminants.
    pub open spec fn wf(self) -> bool {
        match self {
            FrameModel::Request { length, chunk, .. } => chunk.len() == 4 * length,
            FrameModel::Reply { length, chunk, .. } => chunk.len() == 24 + 4 * length,
            FrameModel::Event { code, chunk } => chunk.len() == 31 && code != 0 && code != 1,
            FrameModel::Error { metablock, chunk, .. } => metablock.len() == 4 && chunk.len()
                == 21,
        }
    }

    /// The exact bytes of the frame on the wire, big-endian throughout.
    pub open spec fn wire(self) -> Seq<u8> {
        match self {
            FrameModel::Request { major_opcode, metabyte, length, chunk } => seq![
                major_opcode,
                metabyte,
            ] + be16_bytes(length) + chunk,
            FrameModel::Reply { metabyte, sequence, length, chunk } => seq![1u8, metabyte]
                + be16_bytes(sequence) + be32_bytes(length) + chunk,
            FrameModel::Event { code, chunk } => seq![code] + chunk,
            FrameModel::Error {
                code,
                sequence,
                metablock,
                minor_opcode,
                major_opcode,
                chunk,
            } => seq![0u8, code] + be16_bytes(sequence) + metablock + be16_bytes(minor_opcode)
                + seq![major_opcode] + chunk,
        }
    }
}

/// The number of bytes of the complete frame at the front of `b`, if one is
/// fully present: a reply's size is taken from its 32-bit extra-length field
/// (counting additional 4-byte blocks beyond the fixed 32); an error or event
/// frame is always exactly 32 bytes.
pub open spec fn frame_size(b: Seq<u8>) -> Option<int> {
    if b.len() < 1 {
        None
    } else if b[0] == 1 {
        if b.len() < 8 {
            None
        } else {
            let n = 32 + 4 * (be32(b[4], b[5], b[6], b[7]) as int);
            if b.len() >= n {
                Some(n)
            } else {
                None
            }
        }
    } else {
        if b.len() >= 32 {
            Some(32int)
        } else {
            None
        }
    }
}

/// The frame decoded from the front of `b`. Meaningful only when
/// [`frame_size`] finds a complete frame there. The first byte is the
/// discriminant: 0 is an error, 1 a reply, anything else an event code.
pub open spec fn parse_front(b: Seq<u8>) -> FrameModel
    recommends
        frame_size(b) is Some,
{
    if b[0] == 0 {
        FrameModel::Error {
            code: b[1],
            sequence: be16(b[2], b[3]),
            metablock: b.subrange(4, 8),
            minor_opcode: be16(b[8], b[9]),
            major_opcode: b[10],
            chunk: b.subrange(11, 32),
        }
    } else if b[0] == 1 {
        let length = be32(b[4], b[5], b[6], b[7]);
        FrameModel::Reply {
            metabyte: b[1],
            sequence: be16(b[2], b[3]),
            length,
            chunk: b.subrange(8, 32 + 4 * (length as int)),
        }
    } else {
        FrameModel::Event { code: b[0], chunk: b.subrange(1, 32) }
    }
}

/// One decoded wire message. Requests are only ever sent by this client
/// role; replies, events and errors are only ever received.
#[derive(Clone, Debug, PartialEq, Eq)]
#[allow(inconsistent_fields)]
pub enum X11Frame {
    /// Layout: `major_opcode` (1 byte), `metabyte` (1), `length` (2), then
    /// `chunk`; `length` counts the whole request in 4-byte blocks.
    Request { major_opcode: u8, metabyte: u8, length: u16, chunk: Vec<u8> },
    /// Layout: discriminant `1` (1 byte), `metabyte` (1), `sequence` (2),
    /// `length` (4), then `chunk`; `length` counts the 4-byte blocks beyond
    /// the fixed 32-byte base, so `chunk` holds `24 + 4 * length` bytes.
    Reply { metabyte: u8, sequence: u16, length: u32, chunk: Vec<u8> },
    /// Layout: `code` (1 byte) then 31 bytes of `chunk`; 32 bytes in all.
    Event { code: u8, chunk: Vec<u8> },
    /// Layout: discriminant `0` (1 byte), `code` (1), `sequence` (2),
    /// `metablock` (4), `minor_opcode` (2), `major_opcode` (1), then 21
    /// bytes of `chunk`; 32 bytes in all.
    Error {
        code: u8,
        sequence: u16,
        metablock: Vec<u8>,
        minor_opcode: u16,
        major_opcode: u8,
        chunk: Vec<u8>,
    },
}

impl View for X11Frame {
    type V = FrameModel;

    open spec fn view(&self) -> FrameModel {
        match self {
            X11Frame::Request { major_opcode, metabyte, length, chunk } => FrameModel::Request {
                major_opcode: *major_opcode,
                metabyte: *metabyte,
                length: *length,
                chunk: chunk@,
            },
            X11Frame::Reply { metabyte, sequence, length, chunk } => FrameModel::Reply {
                metabyte: *metabyte,
                sequence: *sequence,
                length: *length,
                chunk: chunk@,
            },
            X11Frame::Event { code, chunk } => FrameModel::Event {
                code: *code,
                chunk: chunk@,
            },
            X11Frame::Error {
                code,
                sequence,
                metablock,
                minor_opcode,
                major_opcode,
                chunk,
            } => FrameModel::Error {
                code: *code,
                sequence: *sequence,
                metablock: metablock@,
                minor_opcode: *minor_opcode,
                major_opcode: *major_opcode,
                chunk: chunk@,
            },
        }
    }
}

/// Consumes `count` bytes, verifying that they are present.
pub fn skip(buf: &mut Cursor, count: usize) -> (r: Result<(), FrameError>)
    requires
        old(buf).wf(),
    ensures
        final(buf).wf(),
        final(buf).bytes@ == old(buf).bytes@,
        match r {
            Ok(()) => old(buf).rest().len() >= count && final(buf).pos == old(buf).pos + count,
            Err(e) => e == FrameError::Incomplete && old(buf).rest().len() < count && final(buf).pos
                == old(buf).pos,
        },
{
    if buf.bytes.len() - buf.pos < count {
        return Err(FrameError::Incomplete);
    }
    buf.pos = buf.pos + count;
    Ok(())
}

/// Appends every byte of `src` to `dst`.
pub fn push_all(dst: &mut Vec<u8>, src: &[u8])
    ensures
        final(dst)@ == old(dst)@ + src@,
{
    let mut i: usize = 0;
    while i < src.len()
        invariant
            i <= src@.len(),
            dst@ == old(dst)@ + src@.subrange(0, i as int),
        decreases src@.len() - i,
    {
        let b: u8 = *vstd::slice::slice_index_get(src, i);
        dst.push(b);
        i = i + 1;
        proof {
            assert(dst@ == old(dst)@ + src@.subrange(0, i as int)) by {
                assert(src@.subrange(0, i as int) == src@.subrange(0, i - 1) + seq![
                    src@[i - 1],
                ]);
            }
        }
    }
    proof {
        assert(src@.subrange(0, src@.len() as int) == src@);
    }
}

/// Appends the two big-endian bytes of `v` to `dst`.
pub(crate) fn push_be16(dst: &mut Vec<u8>, v: u16)
    ensures
        final(dst)@ == old(dst)@ + be16_bytes(v),
{
    dst.push((v / 256) as u8);
    dst.push((v % 256) as u8);
    proof {
        assert(dst@ == old(dst)@ + be16_bytes(v));
    }
}

/// Appends the four big-endian bytes of `v` to `dst`.
fn push_be32(dst: &mut Vec<u8>, v: u32)
    ensures
        final(dst)@ == old(dst)@ + be32_bytes(v),
{
    dst.push((v / 0x1000000) as u8);
    dst.push(((v / 0x10000) % 256) as u8);
    dst.push(((v / 0x100) % 256) as u8);
    dst.push((v % 256) as u8);
    proof {
        assert(dst@ == old(dst)@ + be32_bytes(v));
    }
}

impl X11Frame {
    /// First phase of decoding: determines, without allocating or copying,
    /// whether a complete frame is present at the front of the remaining
    /// bytes. On success the cursor stands exactly past that frame; on
    /// `Incomplete` more bytes must be read before retrying.
    pub fn check(buf: &mut Cursor) -> (r: Result<(), FrameError>)
        requires
            old(buf).wf(),
        ensures
            final(buf).wf(),
            final(buf).bytes@ == old(buf).bytes@,
            match r {
                Ok(()) => frame_size(old(buf).rest()) == Some(
                    final(buf).pos - old(buf).pos,
                ),
                Err(e) => e == FrameError::Incomplete && frame_size(old(buf).rest()) is None,
            },
    {
        match get_u8(buf)? {
            // Reply: the 32-bit extra-length field says how many 4-byte
            // blocks follow the fixed 32-byte base.
            1u8 => {
                // The rest of the first block cannot be invalid at this
                // level of abstraction.
                skip(buf, 3)?;
                let length = get_u32(buf)?;
                let needed: u64 = 24 + 4 * (length as u64);
                let avail: u64 = (buf.bytes.len() - buf.pos) as u64;
                if avail < needed {
                    return Err(FrameError::Incomplete);
                }
                skip(buf, needed as usize)
            },
            // Error or event: always exactly 32 bytes, none of which can be
            // invalid at this level of abstraction.
            _ => skip(buf, 31),
        }
    }

    /// Second phase of decoding: consumes exactly one complete frame from
    /// the front of the remaining bytes (so [`X11Frame::check`] must have
    /// succeeded there) and returns it as a fully-owned value.
    pub fn parse(buf: &mut Cursor) -> (r: Result<X11Frame, FrameError>)
        requires
            old(buf).wf(),
            frame_size(old(buf).rest()) is Some,
        ensures
            final(buf).wf(),
            final(buf).bytes@ == old(buf).bytes@,
            match r {
                Ok(frame) => frame@ == parse_front(old(buf).rest()) && frame_size(
                    old(buf).rest(),
                ) == Some(final(buf).pos - old(buf).pos),
                Err(_) => false,
            },
    {
        match get_u8(buf)? {
            // Error
            0u8 => {
                let code = get_u8(buf)?;
                let sequence = get_u16(buf)?;
                let b0 = get_u8(buf)?;
                let b1 = get_u8(buf)?;
                let b2 = get_u8(buf)?;
                let b3 = get_u8(buf)?;
                let metablock: Vec<u8> = vec![b0, b1, b2, b3];

                let minor_opcode = get_u16(buf)?;
                let major_opcode = get_u8(buf)?;

                // An executable length read bounds the slice length by usize.
                let _total: usize = buf.bytes.len();
                proof {
                    assert(old(buf).rest().len() >= 32);
                    assert(buf.pos + 21 <= buf.bytes@.len());
                }
                let chunk_slice = vstd::slice::slice_subrange(buf.bytes, buf.pos, buf.pos + 21);
                let chunk: Vec<u8> = vstd::slice::slice_to_vec(chunk_slice);
                skip(buf, 21)?;

                proof {
                    assert(metablock@ =~= old(buf).rest().subrange(4, 8));
                    assert(chunk@ =~= old(buf).rest().subrange(11, 32));
                }
                Ok(X11Frame::Error {
                    code,
                    sequence,
                    metablock,
                    minor_opcode,
                    major_opcode,
                    chunk,
                })
            },
            // Reply
            1u8 => {
                let metabyte = get_u8(buf)?;
                let sequence = get_u16(buf)?;
                let length = get_u32(buf)?;

                // An executable length read bounds the slice length by usize.
                let _total: usize = buf.bytes.len();
                proof {
                    assert(old(buf).rest().len() >= 32 + 4 * (length as int));
                    assert(24 + 4 * (length as int) <= buf.bytes@.len());
                }
                let bytes_needed: usize = 24 + 4 * (length as usize);
                let chunk_slice = vstd::slice::slice_subrange(
                    buf.bytes,
                    buf.pos,
                    buf.pos + bytes_needed,
                );
                let chunk: Vec<u8> = vstd::slice::slice_to_vec(chunk_slice);
                skip(buf, bytes_needed)?;

                proof {
                    assert(chunk@ =~= old(buf).rest().subrange(8, 32 + 4 * (length as int)));
                }
                Ok(X11Frame::Reply { metabyte, sequence, length, chunk })
            },
            // Event
            event_code => {
                // An executable length read bounds the slice length by usize.
                let _total: usize = buf.bytes.len();
                proof {
                    assert(old(buf).rest().len() >= 32);
                    assert(buf.pos + 31 <= buf.bytes@.len());
                }
                let chunk_slice = vstd::slice::slice_subrange(buf.bytes, buf.pos, buf.pos + 31);
                let chunk: Vec<u8> = vstd::slice::slice_to_vec(chunk_slice);
                skip(buf, 31)?;

                proof {
                    assert(chunk@ =~= old(buf).rest().subrange(1, 32));
                }
                Ok(X11Frame::Event { code: event_code, chunk })
            },
        }
    }

    /// The inverse of the decoder: the exact wire bytes of this frame,
    /// every multi-byte field big-endian.
    pub fn serialize(&self) -> (r: Vec<u8>)
        ensures
            r@ == self@.wire(),
    {
        let mut out: Vec<u8> = Vec::new();
        match self {
            X11Frame::Request { major_opcode, metabyte, length, chunk } => {
                out.push(*major_opcode);
                out.push(*metabyte);
                push_be16(&mut out, *length);
                push_all(&mut out, chunk.as_slice());
            },
            X11Frame::Reply { metabyte, sequence, length, chunk } => {
                out.push(1);
                out.push(*metabyte);
                push_be16(&mut out, *sequence);
                push_be32(&mut out, *length);
                push_all(&mut out, chunk.as_slice());
            },
            X11Frame::Event { code, chunk } => {
                out.push(*code);
                push_all(&mut out, chunk.as_slice());
            },
            X11Frame::Error {
                code,
                sequence,
                metablock,
                minor_opcode,
                major_opcode,
                chunk,
            } => {
                out.push(0);
                out.push(*code);
                push_be16(&mut out, *sequence);
                push_all(&mut out, metablock.as_slice());
                push_be16(&mut out, *minor_opcode);
                out.push(*major_opcode);
                push_all(&mut out, chunk.as_slice());
            },
        }
        proof {
            assert(out@ =~= self@.wire());
        }
        out
    }
}

proof fn lemma_be16_round(v: u16)
    ensures
        be16(be16_bytes(v)[0], be16_bytes(v)[1]) == v,
{
    assert(v / 256 < 256);
    assert((v / 256) * 256 + v % 256 == v) by (nonlinear_arith);
}

proof fn lemma_be32_round(v: u32)
    ensures
        be32(be32_bytes(v)[0], be32_bytes(v)[1], be32_bytes(v)[2], be32_bytes(v)[3]) == v,
{
    let b0 = v / 0x1000000;
    let b1 = (v / 0x10000) % 256;
    let b2 = (v / 0x100) % 256;
    let b3 = v % 256;
    assert(b0 < 256);
    assert((v / 0x100) / 0x100 == v / 0x10000) by (nonlinear_arith);
    assert((v / 0x10000) / 0x100 == v / 0x1000000) by (nonlinear_arith);
    assert(v == (v / 0x100) * 0x100 + v % 0x100) by (nonlinear_arith);
    assert(v / 0x100 == ((v / 0x100) / 0x100) * 0x100 + (v / 0x100) % 0x100) by (nonlinear_arith);
    assert(v / 0x10000 == ((v / 0x10000) / 0x100) * 0x100 + (v / 0x10000) % 0x100)
        by (nonlinear_arith);
    assert(v == b0 * 0x1000000 + b1 * 0x10000 + b2 * 0x100 + b3) by (nonlinear_arith)
        requires
            v / 0x100 / 0x100 == v / 0x10000,
            v / 0x10000 / 0x100 == v / 0x1000000,
            v == (v / 0x100) * 0x100 + v % 0x100,
            v / 0x100 == ((v / 0x100) / 0x100) * 0x100 + (v / 0x100) % 0x100,
            v / 0x10000 == ((v / 0x10000) / 0x100) * 0x100 + (v / 0x10000) % 0x100,
            b0 == v / 0x1000000,
            b1 == (v / 0x10000) % 256,
            b2 == (v / 0x100) % 256,
            b3 == v % 256,
    ;
}

/// The exact size of each frame kind on the wire: a request occupies
/// `4 + 4 * length` bytes, a reply `32 + 4 * length`, an event or error
/// exactly 32; every frame's total length is a multiple of 4.
pub proof fn lemma_wire_length(m: FrameModel)
    requires
        m.wf(),
    ensures
        m.wire().len() == match m {
            FrameModel::Request { length, .. } => 4 + 4 * (length as int),
            FrameModel::Reply { length, .. } => 32 + 4 * (length as int),
            FrameModel::Event { .. } => 32int,
            FrameModel::Error { .. } => 32int,
        },
        m.wire().len() % 4 == 0,
{
}

/// Round trip of the codec: for every well-formed reply, event or error
/// frame (the kinds a client receives), the serialized bytes check as one
/// complete frame of exactly their own length, and decoding them gives the
/// original frame back.
pub proof fn lemma_frame_round_trip(m: FrameModel)
    requires
        m.wf(),
        !(m is Request),
    ensures
        frame_size(m.wire()) == Some(m.wire().len() as int),
        parse_front(m.wire()) == m,
{
    let w = m.wire();
    match m {
        FrameModel::Reply { metabyte, sequence, length, chunk } => {
            assert(w.len() == 32 + 4 * (length as int));
            lemma_be16_round(sequence);
            lemma_be32_round(length);
            assert(w[0] == 1);
            assert(w[1] == metabyte);
            assert(w[2] == be16_bytes(sequence)[0] && w[3] == be16_bytes(sequence)[1]);
            assert(w[4] == be32_bytes(length)[0] && w[5] == be32_bytes(length)[1] && w[6]
                == be32_bytes(length)[2] && w[7] == be32_bytes(length)[3]);
            assert(be32(w[4], w[5], w[6], w[7]) == length);
            assert(w.subrange(8, 32 + 4 * (length as int)) =~= chunk);
        },
        FrameModel::Event { code, chunk } => {
            assert(w.len() == 32);
            assert(w[0] == code);
            assert(w.subrange(1, 32) =~= chunk);
        },
        FrameModel::Error { code, sequence, metablock, minor_opcode, major_opcode, chunk } => {
            assert(w.len() == 32);
            lemma_be16_round(sequence);
            lemma_be16_round(minor_opcode);
            assert(w[0] == 0);
            assert(w[1] == code);
            assert(w[2] == be16_bytes(sequence)[0] && w[3] == be16_bytes(sequence)[1]);
            assert(w.subrange(4, 8) =~= metablock);
            assert(w[8] == be16_bytes(minor_opcode)[0] && w[9] == be16_bytes(minor_opcode)[1]);
            assert(w[10] == major_opcode);
            assert(w.subrange(11, 32) =~= chunk);
        },
        FrameModel::Request { .. } => {
        },
    }
}

/// Decoding is incremental: once a complete frame stands at the front of a
/// buffer, appending more bytes behind it changes neither the frame's
/// recognized size nor its decoded value.
pub proof fn lemma_frame_front_stable(b: Seq<u8>, rest: Seq<u8>)
    requires
        frame_size(b) is Some,
    ensures
        frame_size(b + rest) == frame_size(b),
        parse_front(b + rest) == parse_front(b),
{
    let c = b + rest;
    assert(c[0] == b[0]);
    if b[0] == 1 {
        assert(c[1] == b[1] && c[2] == b[2] && c[3] == b[3]);
        assert(c[4] == b[4] && c[5] == b[5] && c[6] == b[6] && c[7] == b[7]);
        let n = 32 + 4 * (be32(b[4], b[5], b[6], b[7]) as int);
        assert(c.subrange(8, n) =~= b.subrange(8, n));
    } else if b[0] == 0 {
        assert(c[1] == b[1] && c[2] == b[2] && c[3] == b[3]);
        assert(c.subrange(4, 8) =~= b.subrange(4, 8));
        assert(c[8] == b[8] && c[9] == b[9] && c[10] == b[10]);
        assert(c.subrange(11, 32) =~= b.subrange(11, 32));
    } else {
        assert(c.subrange(1, 32) =~= b.subrange(1, 32));
    }
}

/// No early completion: every strict prefix of a serialized reply, event or
/// error frame is reported incomplete by the length check, however long it
/// already is.
pub proof fn lemma_prefix_incomplete(m: FrameModel, n: int)
    requires
        m.wf(),
        !(m is Request),
        0 <= n < m.wire().len(),
    ensures
        frame_size(m.wire().subrange(0, n)) is None,
{
    let w = m.wire();
    let p = w.subrange(0, n);
    if n > 0 {
        assert(p[0] == w[0]);
        match m {
            FrameModel::Reply { metabyte, sequence, length, chunk } => {
                assert(w.len() == 32 + 4 * (length as int));
                assert(w[0] == 1);
                if n >= 8 {
                    lemma_be32_round(length);
                    assert(p[4] == w[4] && p[5] == w[5] && p[6] == w[6] && p[7] == w[7]);
                    assert(w[4] == be32_bytes(length)[0] && w[5] == be32_bytes(length)[1] && w[6]
                        == be32_bytes(length)[2] && w[7] == be32_bytes(length)[3]);
                    assert(be32(p[4], p[5], p[6], p[7]) == length);
                }
            },
            FrameModel::Event { code, chunk } => {
                assert(w[0] == code && code != 1);
            },
            FrameModel::Error { .. } => {
                assert(w[0] == 0);
            },
            FrameModel::Request { .. } => {
            },
        }
    }
}

} // verus!
