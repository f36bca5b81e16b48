use vstd::prelude::*;

use crate::buffer::{Buffer, WriteError};
use crate::read::{Cursor, read_exact, spec_read_exact};
use crate::types::uint::{
    be16, be16_bytes, be32, be32_bytes, be64, be64_bytes, lemma_be16_roundtrip, lemma_be32_roundtrip,
    lemma_be64_roundtrip,
};

verus! {

impl Buffer for i8 {
    open spec fn spec_read(s: Seq<u8>) -> (Option<i8>, nat) {
        match spec_read_exact(s, 1) {
            (Some(b), n) => (Some(b[0] as i8), n),
            (None, n) => (None, n),
        }
    }

    open spec fn spec_write(v: i8) -> (Seq<u8>, bool) {
        (seq![v as u8], true)
    }

    fn read_buf(buffer: &mut Cursor) -> (res: Option<i8>) {
        match read_exact(buffer, 1) {
            Some(b) => Some(b[0] as i8),
            None => None,
        }
    }

    fn write_buf(&self, buffer: &mut Vec<u8>) -> (res: Result<(), WriteError>) {
        buffer.push(*self as u8);
        Ok(())
    }
}

impl Buffer for i16 {
    open spec fn spec_read(s: Seq<u8>) -> (Option<i16>, nat) {
        match spec_read_exact(s, 2) {
            (Some(b), n) => (Some(be16(b) as i16), n),
            (None, n) => (None, n),
        }
    }

    open spec fn spec_write(v: i16) -> (Seq<u8>, bool) {
        (be16_bytes(v as u16), true)
    }

    fn read_buf(buffer: &mut Cursor) -> (res: Option<i16>) {
        match u16::read_buf(buffer) {
            Some(x) => Some(x as i16),
            None => None,
        }
    }

    fn write_buf(&self, buffer: &mut Vec<u8>) -> (res: Result<(), WriteError>) {
        (*self as u16).write_buf(buffer)
    }
}

impl Buffer for i32 {
    open spec fn spec_read(s: Seq<u8>) -> (Option<i32>, nat) {
        match spec_read_exact(s, 4) {
            (Some(b), n) => (Some(be32(b) as i32), n),
            (None, n) => (None, n),
        }
    }

    open spec fn spec_write(v: i32) -> (Seq<u8>, bool) {
        (be32_bytes(v as u32), true)
    }

    fn read_buf(buffer: &mut Cursor) -> (res: Option<i32>) {
        match u32::read_buf(buffer) {
            Some(x) => Some(x as i32),
            None => None,
        }
    }

    fn write_buf(&self, buffer: &mut Vec<u8>) -> (res: Result<(), WriteError>) {
        (*self as u32).write_buf(buffer)
    }
}

impl Buffer for i64 {
    open spec fn spec_read(s: Seq<u8>) -> (Option<i64>, nat) {
        match spec_read_exact(s, 8) {
            (Some(b), n) => (Some(be64(b) as i64), n),
            (None, n) => (None, n),
        }
    }

    open spec fn spec_write(v: i64) -> (Seq<u8>, bool) {
        (be64_bytes(v as u64), true)
    }

    fn read_buf(buffer: &mut Cursor) -> (res: Option<i64>) {
        match u64::read_buf(buffer) {
            Some(x) => Some(x as i64),
            None => None,
        }
    }

    fn write_buf(&self, buffer: &mut Vec<u8>) -> (res: Result<(), WriteError>) {
        (*self as u64).write_buf(buffer)
    }
}

/// A written `i8` reads back as itself, consuming one byte.
pub proof fn lemma_i8_roundtrip(v: i8, t: Seq<u8>)
    ensures
        <i8 as Buffer>::spec_read(seq![v as u8] + t) == (Some(v), 1nat),
{
    assert((seq![v as u8] + t).take(1) =~= seq![v as u8]);
    assert(((v as u8) as i8) == v) by (bit_vector);
}

/// A written `i16` reads back as itself, consuming its two bytes.
pub proof fn lemma_i16_roundtrip(v: i16, t: Seq<u8>)
    ensures
        <i16 as Buffer>::spec_read(be16_bytes(v as u16) + t) == (Some(v), 2nat),
{
    assert((be16_bytes(v as u16) + t).take(2) =~= be16_bytes(v as u16));
    lemma_be16_roundtrip(v as u16);
    assert(((v as u16) as i16) == v) by (bit_vector);
}

/// A written `i32` reads back as itself, consuming its four bytes.
pub proof fn lemma_i32_roundtrip(v: i32, t: Seq<u8>)
    ensures
        <i32 as Buffer>::spec_read(be32_bytes(v as u32) + t) == (Some(v), 4nat),
{
    assert((be32_bytes(v as u32) + t).take(4) =~= be32_bytes(v as u32));
    lemma_be32_roundtrip(v as u32);
    assert(((v as u32) as i32) == v) by (bit_vector);
}

/// A written `i64` reads back as itself, consuming its eight bytes.
pub proof fn lemma_i64_roundtrip(v: i64, t: Seq<u8>)
    ensures
        <i64 as Buffer>::spec_read(be64_bytes(v as u64) + t) == (Some(v), 8nat),
{
    assert((be64_bytes(v as u64) + t).take(8) =~= be64_bytes(v as u64));
    lemma_be64_roundtrip(v as u64);
    assert(((v as u64) as i64) == v) by (bit_vector);
}

} // verus!
