use vstd::prelude::*;

use crate::buffer::{Buffer, WriteError};
use crate::read::{Cursor, read_exact, spec_read_exact};

verus! {

/// A big-endian `u16` from its two bytes.
pub open spec fn be16(b: Seq<u8>) -> u16 {
    ((b[0] as u16) << 8) | (b[1] as u16)
}

/// The two big-endian bytes of `x`.
pub open spec fn be16_bytes(x: u16) -> Seq<u8> {
    seq![(x >> 8) as u8, x as u8]
}

/// A big-endian `u32` from its four bytes.
pub open spec fn be32(b: Seq<u8>) -> u32 {
    ((b[0] as u32) << 24) | ((b[1] as u32) << 16) | ((b[2] as u32) << 8) | (b[3] as u32)
}

/// The four big-endian bytes of `x`.
pub open spec fn be32_bytes(x: u32) -> Seq<u8> {
    seq![(x >> 24) as u8, (x >> 16) as u8, (x >> 8) as u8, x as u8]
}

/// A big-endian `u64` from its eight bytes.
pub open spec fn be64(b: Seq<u8>) -> u64 {
    ((b[0] as u64) << 56) | ((b[1] as u64) << 48) | ((b[2] as u64) << 40) | ((b[3] as u64) << 32)
        | ((b[4] as u64) << 24) | ((b[5] as u64) << 16) | ((b[6] as u64) << 8) | (b[7] as u64)
}

/// The eight big-endian bytes of `x`.
pub open spec fn be64_bytes(x: u64) -> Seq<u8> {
    seq![
        (x >> 56) as u8,
        (x >> 48) as u8,
        (x >> 40) as u8,
        (x >> 32) as u8,
        (x >> 24) as u8,
        (x >> 16) as u8,
        (x >> 8) as u8,
        x as u8,
    ]
}

impl Buffer for u8 {
    open spec fn spec_read(s: Seq<u8>) -> (Option<u8>, nat) {
        match spec_read_exact(s, 1) {
            (Some(b), n) => (Some(b[0]), n),
            (None, n) => (None, n),
        }
    }

    open spec fn spec_write(v: u8) -> (Seq<u8>, bool) {
        (seq![v], true)
    }

    fn read_buf(buffer: &mut Cursor) -> (res: Option<u8>) {
        match read_exact(buffer, 1) {
            Some(b) => Some(b[0]),
            None => None,
        }
    }

    fn write_buf(&self, buffer: &mut Vec<u8>) -> (res: Result<(), WriteError>) {
        buffer.push(*self);
        Ok(())
    }
}

impl Buffer for u16 {
    open spec fn spec_read(s: Seq<u8>) -> (Option<u16>, nat) {
        match spec_read_exact(s, 2) {
            (Some(b), n) => (Some(be16(b)), n),
            (None, n) => (None, n),
        }
    }

    open spec fn spec_write(v: u16) -> (Seq<u8>, bool) {
        (be16_bytes(v), true)
    }

    fn read_buf(buffer: &mut Cursor) -> (res: Option<u16>) {
        let ghost s = buffer.rest();
        let r = read_exact(buffer, 2);
        assert(<u16 as Buffer>::spec_read(s).1 == spec_read_exact(s, 2).1);
        match r {
            Some(b) => Some(((b[0] as u16) << 8) | (b[1] as u16)),
            None => None,
        }
    }

    fn write_buf(&self, buffer: &mut Vec<u8>) -> (res: Result<(), WriteError>) {
        let x = *self;
        buffer.push((x >> 8) as u8);
        buffer.push(x as u8);
        assert(buffer@ =~= old(buffer)@ + be16_bytes(x));
        Ok(())
    }
}

impl Buffer for u32 {
    open spec fn spec_read(s: Seq<u8>) -> (Option<u32>, nat) {
        match spec_read_exact(s, 4) {
            (Some(b), n) => (Some(be32(b)), n),
            (None, n) => (None, n),
        }
    }

    open spec fn spec_write(v: u32) -> (Seq<u8>, bool) {
        (be32_bytes(v), true)
    }

    fn read_buf(buffer: &mut Cursor) -> (res: Option<u32>) {
        let ghost s = buffer.rest();
        let r = read_exact(buffer, 4);
        assert(<u32 as Buffer>::spec_read(s).1 == spec_read_exact(s, 4).1);
        match r {
            Some(b) => Some(
                ((b[0] as u32) << 24) | ((b[1] as u32) << 16) | ((b[2] as u32) << 8) | (b[3] as u32),
            ),
            None => None,
        }
    }

    fn write_buf(&self, buffer: &mut Vec<u8>) -> (res: Result<(), WriteError>) {
        let x = *self;
        buffer.push((x >> 24) as u8);
        buffer.push((x >> 16) as u8);
        buffer.push((x >> 8) as u8);
        buffer.push(x as u8);
        assert(buffer@ =~= old(buffer)@ + be32_bytes(x));
        Ok(())
    }
}

impl Buffer for u64 {
    open spec fn spec_read(s: Seq<u8>) -> (Option<u64>, nat) {
        match spec_read_exact(s, 8) {
            (Some(b), n) => (Some(be64(b)), n),
            (None, n) => (None, n),
        }
    }

    open spec fn spec_write(v: u64) -> (Seq<u8>, bool) {
        (be64_bytes(v), true)
    }

    fn read_buf(buffer: &mut Cursor) -> (res: Option<u64>) {
        let ghost s = buffer.rest();
        let r = read_exact(buffer, 8);
        assert(<u64 as Buffer>::spec_read(s).1 == spec_read_exact(s, 8).1);
        match r {
            Some(b) => Some(
                ((b[0] as u64) << 56) | ((b[1] as u64) << 48) | ((b[2] as u64) << 40) | ((b[3] as u64)
                    << 32) | ((b[4] as u64) << 24) | ((b[5] as u64) << 16) | ((b[6] as u64) << 8) | (
                b[7] as u64),
            ),
            None => None,
        }
    }

    fn write_buf(&self, buffer: &mut Vec<u8>) -> (res: Result<(), WriteError>) {
        let x = *self;
        buffer.push((x >> 56) as u8);
        buffer.push((x >> 48) as u8);
        buffer.push((x >> 40) as u8);
        buffer.push((x >> 32) as u8);
        buffer.push((x >> 24) as u8);
        buffer.push((x >> 16) as u8);
        buffer.push((x >> 8) as u8);
        buffer.push(x as u8);
        assert(buffer@ =~= old(buffer)@ + be64_bytes(x));
        Ok(())
    }
}

/// Reading back the two bytes written for a `u16` gives it.
pub proof fn lemma_be16_roundtrip(x: u16)
    ensures
        be16(be16_bytes(x)) == x,
{
    let b0 = (x >> 8) as u8;
    let b1 = x as u8;
    assert((((b0 as u16) << 8) | (b1 as u16)) == x) by (bit_vector)
        requires
            b0 == (x >> 8) as u8,
            b1 == x as u8,
    ;
}

/// Reading back the four bytes written for a `u32` gives it.
pub proof fn lemma_be32_roundtrip(x: u32)
    ensures
        be32(be32_bytes(x)) == x,
{
    let b0 = (x >> 24) as u8;
    let b1 = (x >> 16) as u8;
    let b2 = (x >> 8) as u8;
    let b3 = x as u8;
    assert((((b0 as u32) << 24) | ((b1 as u32) << 16) | ((b2 as u32) << 8) | (b3 as u32)) == x)
        by (bit_vector)
        requires
            b0 == (x >> 24) as u8,
            b1 == (x >> 16) as u8,
            b2 == (x >> 8) as u8,
            b3 == x as u8,
    ;
}

/// Reading back the eight bytes written for a `u64` gives it.
pub proof fn lemma_be64_roundtrip(x: u64)
    ensures
        be64(be64_bytes(x)) == x,
{
    let b0 = (x >> 56) as u8;
    let b1 = (x >> 48) as u8;
    let b2 = (x >> 40) as u8;
    let b3 = (x >> 32) as u8;
    let b4 = (x >> 24) as u8;
    let b5 = (x >> 16) as u8;
    let b6 = (x >> 8) as u8;
    let b7 = x as u8;
    assert((((b0 as u64) << 56) | ((b1 as u64) << 48) | ((b2 as u64) << 40) | ((b3 as u64) << 32)
        | ((b4 as u64) << 24) | ((b5 as u64) << 16) | ((b6 as u64) << 8) | (b7 as u64)) == x)
        by (bit_vector)
        requires
            b0 == (x >> 56) as u8,
            b1 == (x >> 48) as u8,
            b2 == (x >> 40) as u8,
            b3 == (x >> 32) as u8,
            b4 == (x >> 24) as u8,
            b5 == (x >> 16) as u8,
            b6 == (x >> 8) as u8,
            b7 == x as u8,
    ;
}

/// A written `u8` reads back as itself, consuming one byte.
pub proof fn lemma_u8_roundtrip(v: u8, t: Seq<u8>)
    ensures
        <u8 as Buffer>::spec_read(seq![v] + t) == (Some(v), 1nat),
{
    assert((seq![v] + t).take(1) =~= seq![v]);
}

/// A written `u16` reads back as itself, consuming its two bytes.
pub proof fn lemma_u16_roundtrip(v: u16, t: Seq<u8>)
    ensures
        <u16 as Buffer>::spec_read(be16_bytes(v) + t) == (Some(v), 2nat),
{
    assert((be16_bytes(v) + t).take(2) =~= be16_bytes(v));
    lemma_be16_roundtrip(v);
}

/// A written `u32` reads back as itself, consuming its four bytes.
pub proof fn lemma_u32_roundtrip(v: u32, t: Seq<u8>)
    ensures
        <u32 as Buffer>::spec_read(be32_bytes(v) + t) == (Some(v), 4nat),
{
    assert((be32_bytes(v) + t).take(4) =~= be32_bytes(v));
    lemma_be32_roundtrip(v);
}

/// A written `u64` reads back as itself, consuming its eight bytes.
pub proof fn lemma_u64_roundtrip(v: u64, t: Seq<u8>)
    ensures
        <u64 as Buffer>::spec_read(be64_bytes(v) + t) == (Some(v), 8nat),
{
    assert((be64_bytes(v) + t).take(8) =~= be64_bytes(v));
    lemma_be64_roundtrip(v);
}

} // verus!
