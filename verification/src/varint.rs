use vstd::prelude::*;

use crate::buffer::WriteError;
use crate::read::{Cursor, lemma_rest_advance, read_byte};

verus! {

/// The bits that each byte of a variable-length integer carries.
pub const SEGMENT_BITS: u8 = 0x7F;

/// The bit that says another byte follows.
pub const CONTINUE_BIT: u8 = 0x80;

/// Base-128 little-endian encoding of `x`: seven bits per byte, low groups
/// first, the high bit set on every byte but the last.
pub open spec fn varint_bytes(x: u64) -> Seq<u8>
    decreases x,
    via varint_bytes_decreases
{
    if x < 0x80 {
        seq![x as u8]
    } else {
        seq![((x & 0x7f) | 0x80) as u8] + varint_bytes(x >> 7)
    }
}

#[via_fn]
proof fn varint_bytes_decreases(x: u64) {
    assert(!(x < 0x80) ==> (x >> 7) < x) by (bit_vector);
}

/// Decodes a base-128 number from the front of `s`, reading at most `budget`
/// bytes. Gives the value (`None` when the data ends first or the last byte
/// allowed still has its high bit set) and the number of bytes consumed.
/// Groups that pass bit 63 are cut off.
pub open spec fn varint_value(s: Seq<u8>, budget: nat) -> (Option<u64>, nat)
    decreases s.len(),
{
    if s.len() == 0 {
        (None, 0)
    } else if s[0] < 0x80 {
        (Some(s[0] as u64), 1)
    } else if budget <= 1 {
        (None, 1)
    } else {
        let (r, n) = varint_value(s.drop_first(), (budget - 1) as nat);
        match r {
            Some(v) => (Some(((s[0] & 0x7f) as u64) | (v << 7)), n + 1),
            None => (None, n + 1),
        }
    }
}

/// What reading a `VarInt` from `s` gives, and how many bytes it consumes.
pub open spec fn spec_read_varint(s: Seq<u8>) -> (Option<i32>, nat) {
    let (r, n) = varint_value(s, 5);
    match r {
        Some(v) => (Some((v as u32) as i32), n),
        None => (None, n),
    }
}

/// The bytes of `v` as a `VarInt`: its 32 bits, unsigned, in base 128.
pub open spec fn spec_varint(v: i32) -> Seq<u8> {
    varint_bytes((v as u32) as u64)
}

/// What reading a `VarLong` from `s` gives, and how many bytes it consumes.
pub open spec fn spec_read_varlong(s: Seq<u8>) -> (Option<i64>, nat) {
    let (r, n) = varint_value(s, 10);
    match r {
        Some(v) => (Some(v as i64), n),
        None => (None, n),
    }
}

/// The bytes of `v` as a `VarLong`: its 64 bits, unsigned, in base 128.
pub open spec fn spec_varlong(v: i64) -> Seq<u8> {
    varint_bytes(v as u64)
}

fn read_varint_bits(buffer: &mut Cursor, budget: usize) -> (res: Option<u64>)
    requires
        1 <= budget <= 10,
    ensures
        final(buffer).data() == old(buffer).data(),
        res == varint_value(old(buffer).rest(), budget as nat).0,
        final(buffer).pos() == old(buffer).pos() + varint_value(old(buffer).rest(), budget as nat).1,
    decreases budget,
{
    let ghost s = buffer.rest();
    let b = match read_byte(buffer) {
        Some(b) => b,
        None => return None,
    };
    if b < CONTINUE_BIT {
        return Some(b as u64);
    }
    if budget <= 1 {
        return None;
    }
    match read_varint_bits(buffer, budget - 1) {
        Some(v) => Some(((b & SEGMENT_BITS) as u64) | (v << 7)),
        None => None,
    }
}

fn write_varint_bits(x: u64, buffer: &mut Vec<u8>)
    ensures
        final(buffer)@ == old(buffer)@ + varint_bytes(x),
{
    let mut value = x;
    loop
        invariant
            old(buffer)@ + varint_bytes(x) == buffer@ + varint_bytes(value),
        decreases value,
    {
        if value < 0x80 {
            buffer.push(value as u8);
            assert(buffer@ =~= old(buffer)@ + varint_bytes(x));
            return;
        }
        let byte = ((value & 0x7f) | 0x80) as u8;
        let ghost before = buffer@;
        buffer.push(byte);
        assert(before + varint_bytes(value) =~= buffer@ + varint_bytes(value >> 7));
        assert((value >> 7) < value) by (bit_vector)
            requires
                !(value < 0x80),
        ;
        value = value >> 7;
    }
}

/// `i32` written as a `VarInt`: 1 to 5 bytes, seven bits each.
pub trait VarI32: Sized {
    /// What reading from `s` gives and how many bytes it consumes.
    spec fn spec_read_var(s: Seq<u8>) -> (Option<Self>, nat);

    /// The bytes written for `self`.
    spec fn spec_write_var(&self) -> Seq<u8>;

    /// Reads a `VarInt` at the cursor.
    fn read_var(buffer: &mut Cursor) -> (res: Option<Self>)
        ensures
            final(buffer).data() == old(buffer).data(),
            res == Self::spec_read_var(old(buffer).rest()).0,
            final(buffer).pos() == old(buffer).pos() + Self::spec_read_var(old(buffer).rest()).1,
            final(buffer).rest() == old(buffer).rest().skip(
                Self::spec_read_var(old(buffer).rest()).1 as int,
            ),
    ;

    /// Appends `self` as a `VarInt`.
    fn write_var(&self, buffer: &mut Vec<u8>) -> (res: Result<(), WriteError>)
        ensures
            res is Ok,
            final(buffer)@ == old(buffer)@ + self.spec_write_var(),
    ;
}

impl VarI32 for i32 {
    open spec fn spec_read_var(s: Seq<u8>) -> (Option<i32>, nat) {
        spec_read_varint(s)
    }

    open spec fn spec_write_var(&self) -> Seq<u8> {
        spec_varint(*self)
    }

    #[verifier::spinoff_prover]
    fn read_var(buffer: &mut Cursor) -> (res: Option<i32>) {
        let ghost c0 = *buffer;
        let r = read_varint_bits(buffer, 5);
        proof {
            lemma_rest_advance(&c0, &*buffer, varint_value(c0.rest(), 5).1);
        }
        assert(spec_read_varint(c0.rest()).1 == varint_value(c0.rest(), 5).1);
        match r {
            Some(v) => {
                let x: u32 = #[verifier::truncate] (v as u32);
                let y: i32 = #[verifier::truncate] (x as i32);
                assert(spec_read_varint(c0.rest()).0 == Some(y));
                assert(<i32 as VarI32>::spec_read_var(c0.rest()) == spec_read_varint(c0.rest()));
                assert(c0 == *old(buffer));
                Some(y)
            },
            None => None,
        }
    }

    fn write_var(&self, buffer: &mut Vec<u8>) -> (res: Result<(), WriteError>) {
        write_varint_bits((*self as u32) as u64, buffer);
        Ok(())
    }
}

/// `i64` written as a `VarLong`: 1 to 10 bytes, seven bits each.
pub trait VarI64: Sized {
    /// What reading from `s` gives and how many bytes it consumes.
    spec fn spec_read_var(s: Seq<u8>) -> (Option<Self>, nat);

    /// The bytes written for `self`.
    spec fn spec_write_var(&self) -> Seq<u8>;

    /// Reads a `VarLong` at the cursor.
    fn read_var(buffer: &mut Cursor) -> (res: Option<Self>)
        ensures
            final(buffer).data() == old(buffer).data(),
            res == Self::spec_read_var(old(buffer).rest()).0,
            final(buffer).pos() == old(buffer).pos() + Self::spec_read_var(old(buffer).rest()).1,
            final(buffer).rest() == old(buffer).rest().skip(
                Self::spec_read_var(old(buffer).rest()).1 as int,
            ),
    ;

    /// Appends `self` as a `VarLong`.
    fn write_var(&self, buffer: &mut Vec<u8>) -> (res: Result<(), WriteError>)
        ensures
            res is Ok,
            final(buffer)@ == old(buffer)@ + self.spec_write_var(),
    ;
}

impl VarI64 for i64 {
    open spec fn spec_read_var(s: Seq<u8>) -> (Option<i64>, nat) {
        spec_read_varlong(s)
    }

    open spec fn spec_write_var(&self) -> Seq<u8> {
        spec_varlong(*self)
    }

    #[verifier::spinoff_prover]
    fn read_var(buffer: &mut Cursor) -> (res: Option<i64>) {
        let ghost c0 = *buffer;
        let r = read_varint_bits(buffer, 10);
        proof {
            lemma_rest_advance(&c0, &*buffer, varint_value(c0.rest(), 10).1);
        }
        assert(spec_read_varlong(c0.rest()).1 == varint_value(c0.rest(), 10).1);
        match r {
            Some(v) => {
                let y: i64 = #[verifier::truncate] (v as i64);
                assert(spec_read_varlong(c0.rest()).0 == Some(y));
                assert(<i64 as VarI64>::spec_read_var(c0.rest()) == spec_read_varlong(c0.rest()));
                assert(c0 == *old(buffer));
                Some(y)
            },
            None => None,
        }
    }

    fn write_var(&self, buffer: &mut Vec<u8>) -> (res: Result<(), WriteError>) {
        write_varint_bits(*self as u64, buffer);
        Ok(())
    }
}

/// Decoding the base-128 bytes of `x`, with anything after them, gives back `x`
/// and consumes exactly those bytes, when the budget covers them.
pub proof fn lemma_varint_bits_roundtrip(x: u64, t: Seq<u8>, budget: nat)
    requires
        varint_bytes(x).len() <= budget,
    ensures
        varint_value(varint_bytes(x) + t, budget) == (Some(x), varint_bytes(x).len()),
    decreases x,
{
    let s = varint_bytes(x) + t;
    if x < 0x80 {
        assert(s[0] == x as u8);
    } else {
        let b = ((x & 0x7f) | 0x80) as u8;
        assert(b >= 0x80) by (bit_vector)
            requires
                b == ((x & 0x7f) | 0x80) as u8,
        ;
        assert((x >> 7) < x) by (bit_vector)
            requires
                !(x < 0x80),
        ;
        assert(s[0] == b);
        assert(s.drop_first() =~= varint_bytes(x >> 7) + t);
        lemma_varint_bits_roundtrip(x >> 7, t, (budget - 1) as nat);
        assert((((b & 0x7f) as u64) | ((x >> 7) << 7)) == x) by (bit_vector)
            requires
                b == ((x & 0x7f) | 0x80) as u8,
        ;
    }
}

/// A number whose bits above `7 * k` are zero takes at most `k` bytes.
pub proof fn lemma_varint_bits_len(x: u64, k: u64)
    requires
        1 <= k <= 9,
        (x >> (7 * k)) == 0,
    ensures
        varint_bytes(x).len() <= k,
    decreases k,
{
    if x >= 0x80 {
        assert(k >= 2) by (bit_vector)
            requires
                x >= 0x80,
                (x >> (7 * k)) == 0,
                1 <= k <= 9,
        ;
        assert(((x >> 7) >> ((7 * (k - 1)) as u64)) == 0) by (bit_vector)
            requires
                (x >> (7 * k)) == 0,
                2 <= k <= 9,
        ;
        assert((x >> 7) < x) by (bit_vector)
            requires
                x >= 0x80,
        ;
        lemma_varint_bits_len(x >> 7, (k - 1) as u64);
    }
}

/// A `VarInt` takes 1 to 5 bytes.
pub proof fn lemma_varint_len(v: i32)
    ensures
        1 <= spec_varint(v).len() <= 5,
{
    let x = (v as u32) as u64;
    assert((x >> 35) == 0) by (bit_vector)
        requires
            x == (v as u32) as u64,
    ;
    lemma_varint_bits_len(x, 5);
    reveal_with_fuel(varint_bytes, 1);
}

/// A `VarLong` takes 1 to 10 bytes.
pub proof fn lemma_varlong_len(v: i64)
    ensures
        1 <= spec_varlong(v).len() <= 10,
{
    let x = v as u64;
    if x >= 0x80 {
        assert(((x >> 7) >> 63) == 0) by (bit_vector);
        lemma_varint_bits_len(x >> 7, 9);
    }
}

/// Reading back a written `VarInt` gives the value, and consumes exactly the
/// bytes written, whatever follows them.
pub proof fn lemma_varint_roundtrip(v: i32, t: Seq<u8>)
    ensures
        spec_read_varint(spec_varint(v) + t) == (Some(v), spec_varint(v).len()),
{
    lemma_varint_len(v);
    let x = (v as u32) as u64;
    lemma_varint_bits_roundtrip(x, t, 5);
    assert(((x as u32) as i32) == v) by (bit_vector)
        requires
            x == (v as u32) as u64,
    ;
}

/// Reading back a written `VarLong` gives the value, and consumes exactly the
/// bytes written, whatever follows them.
pub proof fn lemma_varlong_roundtrip(v: i64, t: Seq<u8>)
    ensures
        spec_read_varlong(spec_varlong(v) + t) == (Some(v), spec_varlong(v).len()),
{
    lemma_varlong_len(v);
    let x = v as u64;
    lemma_varint_bits_roundtrip(x, t, 10);
    assert((x as i64) == v) by (bit_vector)
        requires
            x == v as u64,
    ;
}

} // verus!
