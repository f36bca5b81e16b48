use vstd::prelude::*;

use crate::buffer::{Buffer, WriteError};
use crate::read::{Cursor, lemma_pos_in_bounds, lemma_rest_advance};
use crate::types::uint::{be32, be32_bytes, lemma_be32_roundtrip};

verus! {

/// A 128-bit universally unique identifier.
#[derive(Clone, Copy, Debug, PartialEq, Eq, Structural)]
pub struct Uuid {
    bits: u128,
}

impl View for Uuid {
    type V = u128;

    open spec fn view(&self) -> u128 {
        self.value()
    }
}

impl DeepView for Uuid {
    type V = u128;

    open spec fn deep_view(&self) -> u128 {
        self.value()
    }
}

impl Uuid {
    /// The identifier's 128 bits.
    pub closed spec fn value(&self) -> u128 {
        self.bits
    }

    /// The identifier with the given bits.
    pub fn from_u128(v: u128) -> (u: Uuid)
        ensures
            u@ == v,
    {
        Uuid { bits: v }
    }

    /// The identifier's bits.
    pub fn as_u128(&self) -> (v: u128)
        ensures
            v == self@,
    {
        self.bits
    }

    /// The identifier whose bits are all zero.
    pub fn nil() -> (u: Uuid)
        ensures
            u@ == 0,
    {
        Uuid { bits: 0 }
    }
}

/// The identifier made of four 32-bit words, most significant first.
pub open spec fn uuid_value(a: u32, b: u32, c: u32, d: u32) -> u128 {
    ((a as u128) << 96) | ((b as u128) << 64) | ((c as u128) << 32) | (d as u128)
}

/// The sixteen big-endian bytes of an identifier.
pub open spec fn uuid_bytes(v: u128) -> Seq<u8> {
    be32_bytes((v >> 96) as u32) + be32_bytes((v >> 64) as u32) + be32_bytes((v >> 32) as u32)
        + be32_bytes(v as u32)
}

impl Buffer for Uuid {
    /// Sixteen bytes, big-endian; a short read moves to the end of the data.
    open spec fn spec_read(s: Seq<u8>) -> (Option<u128>, nat) {
        if s.len() >= 16 {
            (
                Some(
                    uuid_value(
                        be32(s.subrange(0, 4)),
                        be32(s.subrange(4, 8)),
                        be32(s.subrange(8, 12)),
                        be32(s.subrange(12, 16)),
                    ),
                ),
                16,
            )
        } else {
            (None, s.len())
        }
    }

    open spec fn spec_write(v: u128) -> (Seq<u8>, bool) {
        (uuid_bytes(v), true)
    }

    fn read_buf(buffer: &mut Cursor) -> (res: Option<Uuid>) {
        let ghost s = buffer.rest();
        let ghost c0 = *buffer;
        proof {
            lemma_pos_in_bounds(&c0);
        }
        let a = match u32::read_buf(buffer) {
            Some(x) => x,
            None => return None,
        };
        assert(s.take(4) =~= s.subrange(0, 4));
        let b = match u32::read_buf(buffer) {
            Some(x) => x,
            None => {
                proof {
                    lemma_rest_advance(&c0, &*buffer, s.len());
                }
                return None;
            },
        };
        assert(s.skip(4).take(4) =~= s.subrange(4, 8));
        assert(s.skip(4).skip(4) =~= s.skip(8));
        let c = match u32::read_buf(buffer) {
            Some(x) => x,
            None => {
                proof {
                    lemma_rest_advance(&c0, &*buffer, s.len());
                }
                return None;
            },
        };
        assert(s.skip(8).take(4) =~= s.subrange(8, 12));
        assert(s.skip(8).skip(4) =~= s.skip(12));
        let d = match u32::read_buf(buffer) {
            Some(x) => x,
            None => {
                proof {
                    lemma_rest_advance(&c0, &*buffer, s.len());
                }
                return None;
            },
        };
        assert(s.skip(12).take(4) =~= s.subrange(12, 16));
        assert(s.skip(12).skip(4) =~= s.skip(16));
        let most = ((a as u64) << 32) | ((b as u64) & 0xffffffff);
        let least = ((c as u64) << 32) | ((d as u64) & 0xffffffff);
        let v = ((most as u128) << 64) | (least as u128);
        assert(v == uuid_value(a, b, c, d)) by (bit_vector)
            requires
                most == ((a as u64) << 32) | ((b as u64) & 0xffffffff),
                least == ((c as u64) << 32) | ((d as u64) & 0xffffffff),
                v == ((most as u128) << 64) | (least as u128),
        ;
        Some(Uuid { bits: v })
    }

    fn write_buf(&self, buffer: &mut Vec<u8>) -> (res: Result<(), WriteError>) {
        let v = self.bits;
        let most = (v >> 64) as u64;
        let least = (v & 0xffffffffffffffff) as u64;
        let a = (most >> 32) as u32;
        let b = most as u32;
        let c = (least >> 32) as u32;
        let d = least as u32;
        assert(a == (v >> 96) as u32 && b == (v >> 64) as u32 && c == (v >> 32) as u32 && d
            == v as u32) by (bit_vector)
            requires
                most == (v >> 64) as u64,
                least == (v & 0xffffffffffffffff) as u64,
                a == (most >> 32) as u32,
                b == most as u32,
                c == (least >> 32) as u32,
                d == least as u32,
        ;
        let _ = a.write_buf(buffer);
        let _ = b.write_buf(buffer);
        let _ = c.write_buf(buffer);
        let _ = d.write_buf(buffer);
        assert(buffer@ =~= old(buffer)@ + uuid_bytes(v));
        Ok(())
    }
}

/// A written identifier reads back as itself, consuming its sixteen bytes.
pub proof fn lemma_uuid_roundtrip(v: u128, t: Seq<u8>)
    ensures
        <Uuid as Buffer>::spec_read(uuid_bytes(v) + t) == (Some(v), 16nat),
{
    let s = uuid_bytes(v) + t;
    let a = (v >> 96) as u32;
    let b = (v >> 64) as u32;
    let c = (v >> 32) as u32;
    let d = v as u32;
    assert(s.subrange(0, 4) =~= be32_bytes(a));
    assert(s.subrange(4, 8) =~= be32_bytes(b));
    assert(s.subrange(8, 12) =~= be32_bytes(c));
    assert(s.subrange(12, 16) =~= be32_bytes(d));
    lemma_be32_roundtrip(a);
    lemma_be32_roundtrip(b);
    lemma_be32_roundtrip(c);
    lemma_be32_roundtrip(d);
    assert(uuid_value(a, b, c, d) == v) by (bit_vector)
        requires
            a == (v >> 96) as u32,
            b == (v >> 64) as u32,
            c == (v >> 32) as u32,
            d == v as u32,
    ;
}

} // verus!
