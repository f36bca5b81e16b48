//! Network framing: a `VarInt` length in front of each packet, optional zlib
//! compression inside the frame, and optional encryption over it.

use vstd::prelude::*;

use std::io::Read;

use bytes::{Bytes, BytesMut};
use flate2::Compression;
use flate2::bufread::ZlibEncoder;
use flate2::read::ZlibDecoder;

use crate::buffer::{WriteError, extend_bytes};
use crate::bytes_buf::{
    bytes_as_slice, bytes_contents, bytes_copy_from_slice, bytes_from_vec, bytes_mut_advance,
    bytes_mut_as_slice, bytes_mut_capacity, bytes_mut_clear, bytes_mut_contents, bytes_mut_extend,
    bytes_mut_freeze, bytes_mut_from_slice, bytes_mut_new, bytes_mut_reserve, bytes_mut_split_to,
};
use crate::encrypt::{AesEncryptor, encrypt_data, spec_cfb8_encrypt};
use crate::field::{Field, layout_may_overflow, read_fields, write_fields};
use crate::roundtrip::{fields_read_back, lemma_protocol_packet_roundtrip, trailing_bytes_last};
use crate::packet::ProtocolPacket;
use crate::read::{Cursor, lemma_pos_in_bounds, lemma_rest_advance};
use crate::varint::{VarI32, lemma_varint_len, lemma_varint_roundtrip, spec_read_varint, spec_varint};

verus! {

/// The largest packet, in bytes, that is sent or inflated.
pub const MAX_PACKET_SIZE: usize = 8388608;

/// Why a packet could not be put on the wire.
#[derive(Debug, Clone, Copy, PartialEq, Eq, Structural)]
pub enum FrameError {
    /// A field could not be written.
    Write(WriteError),
    /// The packet is larger than `MAX_PACKET_SIZE`.
    PacketTooLarge,
    /// The compressor reported an error.
    Compression,
}

/// The zlib stream that `flate2` makes of `data` at the default level.
pub uninterp spec fn spec_zlib_compress(data: Seq<u8>) -> Seq<u8>;

/// What `flate2` inflates from the zlib stream at the front of `data`, or
/// `None` when it is not a valid stream.
pub uninterp spec fn spec_zlib_decompress(data: Seq<u8>) -> Option<Seq<u8>>;

/// Deflates `data` with `flate2::bufread::ZlibEncoder` at the default level,
/// reading the encoder to the end.
///
/// Claims that this succeeds (the in-memory `miniz_oxide` backend reports no
/// error when compressing a slice), that the stream is a function of the input
/// alone, and that inflating it gives the input back, as zlib documents.
#[verifier::external_body]
fn zlib_compress(data: &[u8]) -> (res: Option<Vec<u8>>)
    ensures
        res is Some,
        res matches Some(v) ==> v@ == spec_zlib_compress(data@) && spec_zlib_decompress(v@) == Some(
            data@,
        ),
{
    let mut out = Vec::new();
    match ZlibEncoder::new(data, Compression::default()).read_to_end(&mut out) {
        Ok(_) => Some(out),
        Err(_) => None,
    }
}

/// Inflates the zlib stream at the front of `data` with
/// `flate2::read::ZlibDecoder`, reading it to the end into a vector made with
/// the given capacity.
///
/// Claims that the result, or the refusal, is a function of the input alone.
#[verifier::external_body]
fn zlib_decompress(data: &[u8], capacity: usize) -> (res: Option<Vec<u8>>)
    ensures
        match res {
            Some(v) => spec_zlib_decompress(data@) == Some(v@),
            None => spec_zlib_decompress(data@) is None,
        },
{
    let mut out = Vec::with_capacity(capacity);
    match ZlibDecoder::new(data).read_to_end(&mut out) {
        Ok(_) => Some(out),
        Err(_) => None,
    }
}

/// The frame at the front of `s`: its body and what is left after it; `None`
/// while the length prefix or the body is incomplete.
pub open spec fn spec_parse_frame(s: Seq<u8>) -> Option<(Seq<u8>, Seq<u8>)> {
    let (r, n) = spec_read_varint(s);
    match r {
        None => None,
        Some(l) => {
            let len = (l as usize) as nat;
            if s.len() < n + len {
                None
            } else {
                Some((s.subrange(n as int, (n + len) as int), s.skip((n + len) as int)))
            }
        },
    }
}

/// A frame whose length prefix reads as a negative number so close to zero
/// that adding the prefix's own length to it overflows.
pub open spec fn frame_header_overflows(s: Seq<u8>) -> bool {
    spec_read_varint(s).0 matches Some(l) && spec_read_varint(s).1 + (l as usize) > usize::MAX
}

/// Whether the length prefix at the front of the buffer can be taken as a
/// frame length: `false` exactly when `frame_header_overflows` holds.
pub fn frame_header_fits(buf: &BytesMut) -> (r: bool)
    ensures
        r == !frame_header_overflows(bytes_mut_contents(*buf)),
{
    let mut cursor = Cursor::new(bytes_mut_as_slice(buf));
    assert(cursor.rest() =~= bytes_mut_contents(*buf));
    match i32::read_var(&mut cursor) {
        Some(l) => {
            let length: usize = #[verifier::truncate] (l as usize);
            cursor.position().checked_add(length).is_some()
        },
        None => true,
    }
}

/// Takes the frame at the front of the buffer out: its body, with the length
/// prefix dropped. While the frame is incomplete the buffer stays as it is and
/// `None` comes back.
pub fn parse_frame(buf: &mut BytesMut) -> (res: Option<Bytes>)
    requires
        !frame_header_overflows(bytes_mut_contents(*old(buf))),
    ensures
        match spec_parse_frame(bytes_mut_contents(*old(buf))) {
            None => res is None && bytes_mut_contents(*final(buf)) == bytes_mut_contents(*old(buf)),
            Some((body, left)) => res matches Some(b) && bytes_contents(b) == body
                && bytes_mut_contents(*final(buf)) == left,
        },
{
    let ghost s = bytes_mut_contents(*buf);
    let mut temp_buf = Cursor::new(bytes_mut_as_slice(buf));
    assert(temp_buf.rest() =~= s);
    let length = match i32::read_var(&mut temp_buf) {
        Some(l) => #[verifier::truncate] (l as usize),
        None => return None,
    };
    let varint_length = temp_buf.position();
    let total = varint_length + length;
    if bytes_mut_as_slice(buf).len() < total {
        return None;
    }
    bytes_mut_advance(buf, varint_length);
    let data = bytes_mut_freeze(bytes_mut_split_to(buf, length));
    assert(s.skip(varint_length as int).take(length as int) =~= s.subrange(
        varint_length as int,
        total as int,
    ));
    assert(s.skip(varint_length as int).skip(length as int) =~= s.skip(total as int));
    if bytes_mut_as_slice(buf).len() == 0 && bytes_mut_capacity(buf) > 64 * 1024 {
        bytes_mut_clear(buf);
        bytes_mut_reserve(buf, 64 * 1024);
        assert(bytes_mut_contents(*buf) =~= s.skip(total as int));
    }
    Some(data)
}

/// What a frame body holds: a `VarInt` length of the inflated packet, 0 when
/// the rest is not compressed; then the packet, or its zlib stream. `None`
/// when the length is below the threshold or above `MAX_PACKET_SIZE`, or the
/// stream does not inflate.
pub open spec fn spec_decompress_body(data: Seq<u8>, compression_threshold: i32) -> Option<Seq<u8>> {
    let (r, k) = spec_read_varint(data);
    match r {
        None => None,
        Some(n) => if n == 0 {
            Some(data.skip(k as int))
        } else if n < compression_threshold || n > MAX_PACKET_SIZE {
            None
        } else {
            spec_zlib_decompress(data.skip(k as int))
        },
    }
}

/// Reads a frame body that compression may have touched. A negative length
/// that a negative threshold lets through would ask the allocator for more
/// than it gives and panic, so it is left out.
pub fn compression_decoder(data: &[u8], compression_threshold: i32) -> (res: Option<Bytes>)
    requires
        !(spec_read_varint(data@).0 matches Some(n) && n < 0 && n >= compression_threshold),
    ensures
        match spec_decompress_body(data@, compression_threshold) {
            Some(p) => res matches Some(b) && bytes_contents(b) == p,
            None => res is None,
        },
{
    let mut cursor = Cursor::new(data);
    assert(cursor.rest() =~= data@);
    let n = match i32::read_var(&mut cursor) {
        Some(n) => n,
        None => return None,
    };
    let start = cursor.position();
    proof {
        lemma_pos_in_bounds(&cursor);
    }
    let remaining = vstd::slice::slice_subrange(data, start, data.len());
    assert(remaining@ =~= data@.skip(start as int));
    if n == 0 {
        return Some(bytes_copy_from_slice(remaining));
    }
    if n < compression_threshold || n > MAX_PACKET_SIZE as i32 {
        return None;
    }
    match zlib_decompress(remaining, n as usize) {
        Some(buf) => Some(bytes_from_vec(buf)),
        None => None,
    }
}

/// What a frame body carries, given the compression threshold: the body
/// itself when compression is off (a negative threshold).
pub open spec fn spec_frame_payload(body: Seq<u8>, compression_threshold: i32) -> Option<Seq<u8>> {
    if compression_threshold >= 0 {
        spec_decompress_body(body, compression_threshold)
    } else {
        Some(body)
    }
}

/// Takes the next frame out of the buffer and gives the packet it carries.
/// While the frame is incomplete the buffer stays as it is and `None` comes
/// back; a complete frame is taken out even when its body is refused.
pub fn read_raw_packet_from_buffer(buf: &mut BytesMut, compression_threshold: i32) -> (res: Option<
    Bytes,
>)
    requires
        !frame_header_overflows(bytes_mut_contents(*old(buf))),
    ensures
        match spec_parse_frame(bytes_mut_contents(*old(buf))) {
            None => res is None && bytes_mut_contents(*final(buf)) == bytes_mut_contents(*old(buf)),
            Some((body, left)) => bytes_mut_contents(*final(buf)) == left && match spec_frame_payload(
                body,
                compression_threshold,
            ) {
                Some(p) => res matches Some(b) && bytes_contents(b) == p,
                None => res is None,
            },
        },
{
    let frame = match parse_frame(buf) {
        Some(f) => f,
        None => return None,
    };
    if compression_threshold >= 0 {
        compression_decoder(bytes_as_slice(&frame), compression_threshold)
    } else {
        Some(frame)
    }
}

/// The frame body for a packet: below the threshold, a 0 and the packet as it
/// is; from the threshold on, the packet's length and its zlib stream.
pub open spec fn spec_compress_body(data: Seq<u8>, compression_threshold: i32) -> Seq<u8> {
    if data.len() < (compression_threshold as usize) {
        spec_varint(0) + data
    } else {
        spec_varint(data.len() as i32) + spec_zlib_compress(data)
    }
}

/// Appends the frame body for a packet, compressing it from the threshold on.
pub fn compression_encoder(data: &[u8], compression_threshold: i32, buf: &mut BytesMut) -> (res:
    Result<(), FrameError>)
    ensures
        res is Ok,
        bytes_mut_contents(*final(buf)) == bytes_mut_contents(*old(buf)) + spec_compress_body(
            data@,
            compression_threshold,
        ),
        data@.len() >= (compression_threshold as usize) ==> spec_zlib_decompress(
            spec_zlib_compress(data@),
        ) == Some(data@),
{
    let n = data.len();
    let threshold: usize = #[verifier::truncate] (compression_threshold as usize);
    if n < threshold {
        let mut temp: Vec<u8> = Vec::new();
        let _ = 0i32.write_var(&mut temp);
        bytes_mut_extend(buf, temp.as_slice());
        bytes_mut_extend(buf, data);
        assert(bytes_mut_contents(*buf) =~= bytes_mut_contents(*old(buf)) + spec_compress_body(
            data@,
            compression_threshold,
        ));
    } else {
        let compressed = match zlib_compress(data) {
            Some(c) => c,
            None => return Err(FrameError::Compression),
        };
        let mut length: Vec<u8> = Vec::new();
        let _ = (#[verifier::truncate] (n as i32)).write_var(&mut length);
        bytes_mut_extend(buf, length.as_slice());
        bytes_mut_extend(buf, compressed.as_slice());
        assert(bytes_mut_contents(*buf) =~= bytes_mut_contents(*old(buf)) + spec_compress_body(
            data@,
            compression_threshold,
        ));
    }
    Ok(())
}

/// The frame body for a packet: compressed as `spec_compress_body` says when
/// the threshold is set (not negative), the packet itself otherwise.
pub open spec fn spec_frame_body(raw_packet: Seq<u8>, compression_threshold: i32) -> Seq<u8> {
    if compression_threshold >= 0 {
        spec_compress_body(raw_packet, compression_threshold)
    } else {
        raw_packet
    }
}

/// A whole frame: the body's length as a `VarInt`, then the body.
pub open spec fn spec_frame(body: Seq<u8>) -> Seq<u8> {
    spec_varint(body.len() as i32) + body
}

/// Puts a packet into a frame for the wire: the body as compression makes it,
/// with its length in front, all of it encrypted when a cipher is set (the
/// cipher's stream then goes on past the frame). From the threshold on, the
/// packet's zlib stream inflates back to it.
pub fn encode_to_network_packet(
    raw_packet: &[u8],
    compression_threshold: i32,
    cipher: &mut Option<AesEncryptor>,
) -> (res: Result<BytesMut, FrameError>)
    ensures
        res matches Ok(b) && (match *old(cipher) {
            Some(c) => (*final(cipher)) matches Some(f) && bytes_mut_contents(b) == spec_cfb8_encrypt(
                c.key(),
                c.history(),
                spec_frame(spec_frame_body(raw_packet@, compression_threshold)),
            ) && f.key() == c.key() && f.history() == c.history() + bytes_mut_contents(b),
            None => *final(cipher) == *old(cipher) && bytes_mut_contents(b) == spec_frame(
                spec_frame_body(raw_packet@, compression_threshold),
            ),
        }),
        compression_threshold >= 0 && raw_packet@.len() >= (compression_threshold as usize)
            ==> spec_zlib_decompress(spec_zlib_compress(raw_packet@)) == Some(raw_packet@),
{
    let mut buf = bytes_mut_new();
    if compression_threshold >= 0 {
        match compression_encoder(raw_packet, compression_threshold, &mut buf) {
            Ok(()) => {},
            Err(e) => return Err(e),
        }
        assert(bytes_mut_contents(buf) =~= spec_frame_body(raw_packet@, compression_threshold));
    } else {
        bytes_mut_extend(&mut buf, raw_packet);
        assert(bytes_mut_contents(buf) =~= spec_frame_body(raw_packet@, compression_threshold));
    }
    let body = bytes_mut_as_slice(&buf);
    let mut frame: Vec<u8> = Vec::new();
    let _ = (#[verifier::truncate] (body.len() as i32)).write_var(&mut frame);
    extend_bytes(&mut frame, body);
    assert(frame@ =~= spec_frame(spec_frame_body(raw_packet@, compression_threshold)));
    match cipher {
        Some(c) => encrypt_data(c, frame.as_mut_slice()),
        None => {},
    }
    Ok(bytes_mut_from_slice(frame.as_slice()))
}

/// The bytes of a packet of a family: its id as a `VarInt`, then its fields.
pub open spec fn spec_packet_bytes<P: ProtocolPacket>(p: P) -> Seq<u8> {
    spec_varint(p.spec_id() as i32) + write_fields(p.spec_fields(), p.spec_fields().len()).0
}

/// Writes a packet of a family: its id as a `VarInt`, then its fields. A field
/// that cannot be written, or a packet larger than `MAX_PACKET_SIZE`, is
/// refused.
pub fn serialize_packet<P: ProtocolPacket>(packet: &P) -> (res: Result<Bytes, FrameError>)
    ensures
        match res {
            Ok(b) => write_fields(packet.spec_fields(), packet.spec_fields().len()).1
                && bytes_contents(b) == spec_packet_bytes(*packet) && spec_packet_bytes(
                *packet,
            ).len() <= MAX_PACKET_SIZE,
            Err(FrameError::Write(_)) => !write_fields(
                packet.spec_fields(),
                packet.spec_fields().len(),
            ).1,
            Err(FrameError::PacketTooLarge) => write_fields(
                packet.spec_fields(),
                packet.spec_fields().len(),
            ).1 && spec_packet_bytes(*packet).len() > MAX_PACKET_SIZE,
            Err(FrameError::Compression) => false,
        },
{
    let mut buf: Vec<u8> = Vec::new();
    let id: i32 = #[verifier::truncate] (packet.id() as i32);
    let _ = id.write_var(&mut buf);
    match packet.write(&mut buf) {
        Ok(()) => {},
        Err(e) => return Err(FrameError::Write(e)),
    }
    assert(buf@ =~= spec_packet_bytes(*packet));
    if buf.len() > MAX_PACKET_SIZE {
        return Err(FrameError::PacketTooLarge);
    }
    Ok(bytes_from_vec(buf))
}

/// What reading a packet of a family from `s` gives: its id and field values,
/// or `None` when the id does not read, names no packet of the family, or the
/// body does not read; and how far the cursor moves.
pub open spec fn spec_read_packet<P: ProtocolPacket>(s: Seq<u8>) -> (Option<(u32, Seq<Field>)>, nat) {
    let (r, n) = spec_read_varint(s);
    match r {
        None => (None, n),
        Some(i) => match P::spec_layout(i as u32) {
            None => (None, n),
            Some(k) => {
                let (fs, m) = read_fields(k, s.skip(n as int), 0);
                (
                    match fs {
                        Some(f) => Some((i as u32, f)),
                        None => None,
                    },
                    n + m,
                )
            },
        },
    }
}

/// Reading the packet in `s` reaches a list whose count asks for more memory
/// than a vector may hold.
pub open spec fn packet_may_overflow<P: ProtocolPacket>(s: Seq<u8>) -> bool {
    spec_read_varint(s).0 matches Some(i) && P::spec_layout(i as u32) matches Some(k)
        && layout_may_overflow(k, s.skip(spec_read_varint(s).1 as int), 0)
}

/// Reads a packet of a family: its id as a `VarInt`, then the body that the
/// id calls for.
pub fn deserialize_packet<P: ProtocolPacket>(buf: &mut Cursor) -> (res: Option<P>)
    requires
        !packet_may_overflow::<P>(old(buf).rest()),
    ensures
        final(buf).data() == old(buf).data(),
        final(buf).pos() == old(buf).pos() + spec_read_packet::<P>(old(buf).rest()).1,
        match spec_read_packet::<P>(old(buf).rest()).0 {
            Some((id, fs)) => res matches Some(p) && p.spec_id() == id && p.spec_fields() == fs,
            None => res is None,
        },
{
    let packet_id = match i32::read_var(buf) {
        Some(i) => #[verifier::truncate] (i as u32),
        None => return None,
    };
    P::read(packet_id, buf)
}

/// A frame reads back as the body it was made of, leaving what followed it,
/// when the body has at most `i32::MAX` bytes.
pub proof fn lemma_frame_roundtrip(body: Seq<u8>, t: Seq<u8>)
    requires
        body.len() <= i32::MAX,
    ensures
        spec_parse_frame(spec_frame(body) + t) == Some((body, t)),
        !frame_header_overflows(spec_frame(body) + t),
{
    let l = body.len() as i32;
    let s = spec_frame(body) + t;
    assert(s =~= spec_varint(l) + (body + t));
    lemma_varint_roundtrip(l, body + t);
    lemma_varint_len(l);
    let n = spec_varint(l).len();
    assert((l as usize) as nat == body.len());
    assert(s.subrange(n as int, (n + body.len()) as int) =~= body);
    assert(s.skip((n + body.len()) as int) =~= t);
}

/// A frame body reads back as the packet it was made of, when compression is
/// off; or the packet is shorter than the threshold; or the packet is not
/// empty, at most `MAX_PACKET_SIZE` bytes, and its zlib stream inflates back
/// to it (as the compressor's successful calls guarantee). An empty packet
/// written with a threshold of 0 does not read back: its stream is taken as
/// the packet.
pub proof fn lemma_payload_roundtrip(raw: Seq<u8>, compression_threshold: i32)
    requires
        compression_threshold < 0 || raw.len() < compression_threshold || (0 < raw.len()
            <= MAX_PACKET_SIZE && spec_zlib_decompress(spec_zlib_compress(raw)) == Some(raw)),
    ensures
        spec_frame_payload(spec_frame_body(raw, compression_threshold), compression_threshold)
            == Some(raw),
{
    if compression_threshold >= 0 {
        assert((compression_threshold as usize) as int == compression_threshold);
        let body = spec_compress_body(raw, compression_threshold);
        if raw.len() < compression_threshold {
            lemma_varint_roundtrip(0, raw);
            assert(body.skip(spec_varint(0).len() as int) =~= raw);
        } else {
            let l = raw.len() as i32;
            let c = spec_zlib_compress(raw);
            lemma_varint_roundtrip(l, c);
            assert(body.skip(spec_varint(l).len() as int) =~= c);
        }
    }
}

/// A packet written to the wire reads back as a frame whose payload is the
/// packet, leaving what followed the frame, when the payload reads back (see
/// `lemma_payload_roundtrip`) and the frame body has at most `i32::MAX` bytes.
pub proof fn lemma_network_roundtrip(raw: Seq<u8>, compression_threshold: i32, t: Seq<u8>)
    requires
        compression_threshold < 0 || raw.len() < compression_threshold || (0 < raw.len()
            <= MAX_PACKET_SIZE && spec_zlib_decompress(spec_zlib_compress(raw)) == Some(raw)),
        spec_frame_body(raw, compression_threshold).len() <= i32::MAX,
    ensures
        spec_parse_frame(spec_frame(spec_frame_body(raw, compression_threshold)) + t) == Some(
            (spec_frame_body(raw, compression_threshold), t),
        ),
        !frame_header_overflows(spec_frame(spec_frame_body(raw, compression_threshold)) + t),
        spec_frame_payload(spec_frame_body(raw, compression_threshold), compression_threshold)
            == Some(raw),
{
    lemma_frame_roundtrip(spec_frame_body(raw, compression_threshold), t);
    lemma_payload_roundtrip(raw, compression_threshold);
}

/// A packet of a family that is written reads back with its id and field
/// values, consuming exactly its bytes, whatever follows (nothing, when it ends
/// with trailing bytes), when none of its fields is an oversized list.
pub proof fn lemma_packet_bytes_roundtrip<P: ProtocolPacket>(p: P, t: Seq<u8>)
    requires
        write_fields(p.spec_fields(), p.spec_fields().len()).1,
        fields_read_back(p.spec_fields()),
        trailing_bytes_last(p.spec_fields(), t),
    ensures
        spec_read_packet::<P>(spec_packet_bytes(p) + t) == (
            Some((p.spec_id(), p.spec_fields())),
            spec_packet_bytes(p).len(),
        ),
        !packet_may_overflow::<P>(spec_packet_bytes(p) + t),
{
    let id = p.spec_id();
    let i = id as i32;
    let body = write_fields(p.spec_fields(), p.spec_fields().len()).0;
    let s = spec_packet_bytes(p) + t;
    assert(s =~= spec_varint(i) + (body + t));
    lemma_varint_roundtrip(i, body + t);
    assert((i as u32) == id) by (bit_vector)
        requires
            i == id as i32,
    ;
    assert(s.skip(spec_varint(i).len() as int) =~= body + t);
    lemma_protocol_packet_roundtrip(p, t);
}

/// A packet of a family that is written, put into a frame and read back out
/// of it, gives its id and field values again, when none of its fields is an
/// oversized list, trailing bytes come last, and its payload reads back (see
/// `lemma_payload_roundtrip`).
pub proof fn lemma_wire_roundtrip<P: ProtocolPacket>(p: P, compression_threshold: i32, t: Seq<u8>)
    requires
        write_fields(p.spec_fields(), p.spec_fields().len()).1,
        fields_read_back(p.spec_fields()),
        trailing_bytes_last(p.spec_fields(), Seq::empty()),
        compression_threshold < 0 || spec_packet_bytes(p).len() < compression_threshold || (0
            < spec_packet_bytes(p).len() <= MAX_PACKET_SIZE && spec_zlib_decompress(
            spec_zlib_compress(spec_packet_bytes(p)),
        ) == Some(spec_packet_bytes(p))),
        spec_frame_body(spec_packet_bytes(p), compression_threshold).len() <= i32::MAX,
    ensures
        spec_parse_frame(spec_frame(spec_frame_body(spec_packet_bytes(p), compression_threshold))
            + t) == Some((spec_frame_body(spec_packet_bytes(p), compression_threshold), t)),
        spec_frame_payload(spec_frame_body(spec_packet_bytes(p), compression_threshold), compression_threshold)
            == Some(spec_packet_bytes(p)),
        spec_read_packet::<P>(spec_packet_bytes(p)).0 == Some((p.spec_id(), p.spec_fields())),
{
    lemma_network_roundtrip(spec_packet_bytes(p), compression_threshold, t);
    lemma_packet_bytes_roundtrip(p, Seq::empty());
    assert(spec_packet_bytes(p) + Seq::<u8>::empty() =~= spec_packet_bytes(p));
}

} // verus!
