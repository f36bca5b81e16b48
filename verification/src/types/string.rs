use vstd::prelude::*;
use vstd::utf8::{
    decode_utf8, encode_utf8, encode_utf8_decode_utf8, encode_utf8_valid_utf8, valid_utf8,
};

use crate::buffer::{Buffer, WriteError, extend_bytes};
use crate::read::{Cursor, lemma_pos_in_bounds, lemma_rest_advance, read_bytes};
use crate::varint::{VarI32, lemma_varint_roundtrip, spec_read_varint, spec_varint};

verus! {

/// The longest string, in UTF-8 bytes, that is written.
pub const MAX_STRING_BYTES: usize = 32767;

/// The longest string, in UTF-8 bytes, that is read.
pub const MAX_READ_STRING_BYTES: u32 = 131068;

/// Decodes UTF-8 with `std::str::from_utf8` and copies the text out.
///
/// Claims what the standard library documents: the bytes are accepted exactly
/// when they are valid UTF-8, and then the text is their decoding.
#[verifier::external_body]
fn utf8_to_string(bytes: &[u8]) -> (res: Option<String>)
    ensures
        res is Some <==> valid_utf8(bytes@),
        res matches Some(s) ==> s@ == decode_utf8(bytes@),
{
    match std::str::from_utf8(bytes) {
        Ok(s) => Some(s.to_string()),
        Err(_) => None,
    }
}

impl Buffer for String {
    /// A `VarInt` byte length of at most 131068, then that many bytes of valid
    /// UTF-8.
    open spec fn spec_read(s: Seq<u8>) -> (Option<Seq<char>>, nat) {
        let (r, n) = spec_read_varint(s);
        match r {
            None => (None, n),
            Some(l) => {
                let len = (l as u32) as nat;
                if len > MAX_READ_STRING_BYTES {
                    (None, n)
                } else if n + len > s.len() {
                    (None, n)
                } else {
                    let bytes = s.subrange(n as int, (n + len) as int);
                    if valid_utf8(bytes) {
                        (Some(decode_utf8(bytes)), n + len)
                    } else {
                        (None, n + len)
                    }
                }
            },
        }
    }

    /// The UTF-8 byte length as a `VarInt`, then the bytes; refused, with
    /// nothing written, past 32767 bytes.
    open spec fn spec_write(v: Seq<char>) -> (Seq<u8>, bool) {
        let b = encode_utf8(v);
        if b.len() > MAX_STRING_BYTES {
            (Seq::empty(), false)
        } else {
            (spec_varint(b.len() as i32) + b, true)
        }
    }

    fn read_buf(buffer: &mut Cursor) -> (res: Option<String>) {
        let ghost s = buffer.rest();
        let ghost start = *buffer;
        let r = i32::read_var(buffer);
        let ghost n = spec_read_varint(s).1;
        proof {
            lemma_rest_advance(&start, &*buffer, n);
            lemma_pos_in_bounds(&*buffer);
        }
        let length = match r {
            Some(l) => #[verifier::truncate] (l as u32),
            None => return None,
        };
        if length > MAX_READ_STRING_BYTES {
            return None;
        }
        let bytes = match read_bytes(buffer, length as usize) {
            Some(b) => b,
            None => return None,
        };
        assert(bytes@ =~= s.subrange(n as int, (n + length) as int));
        assert(buffer.rest() =~= s.skip((n + length) as int));
        utf8_to_string(bytes)
    }

    fn write_buf(&self, buffer: &mut Vec<u8>) -> (res: Result<(), WriteError>) {
        let bytes = self.as_str().as_bytes();
        let len = bytes.len();
        if len > MAX_STRING_BYTES {
            assert(buffer@ =~= old(buffer)@ + Seq::<u8>::empty());
            return Err(WriteError::StringTooLong);
        }
        let _ = (len as i32).write_var(buffer);
        extend_bytes(buffer, bytes);
        assert(buffer@ =~= old(buffer)@ + (spec_varint(len as i32) + bytes@));
        Ok(())
    }
}

/// A string that is written can be read back, whatever follows it, and the
/// read consumes exactly the bytes written.
pub proof fn lemma_string_roundtrip(v: Seq<char>, t: Seq<u8>)
    requires
        <String as Buffer>::spec_write(v).1,
    ensures
        <String as Buffer>::spec_read(<String as Buffer>::spec_write(v).0 + t) == (
            Some(v),
            <String as Buffer>::spec_write(v).0.len(),
        ),
{
    let b = encode_utf8(v);
    let len = b.len();
    let l = len as i32;
    let s = spec_varint(l) + b + t;
    assert(s =~= spec_varint(l) + (b + t));
    lemma_varint_roundtrip(l, b + t);
    let n = spec_varint(l).len();
    assert((l as u32) as nat == len);
    assert(s.subrange(n as int, (n + len) as int) =~= b);
    encode_utf8_valid_utf8(v);
    encode_utf8_decode_utf8(v);
}

} // verus!
