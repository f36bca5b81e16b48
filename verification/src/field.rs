//! The wire layout of a packet: a sequence of typed fields, read and written
//! one after another.

use vstd::prelude::*;

use crate::buffer::{Buffer, WriteError, extend_bytes};
use crate::read::{Cursor, lemma_pos_in_bounds, lemma_rest_advance, read_bytes};
use crate::types::intention::ClientIntention;
use crate::types::known_pack::KnownPack;
use crate::types::property::Property;
use crate::types::uuid::Uuid;
use crate::types::vector::after_items;
use crate::varint::{VarI32, VarI64, spec_read_varint, spec_read_varlong, spec_varint, spec_varlong};

verus! {

/// How one field of a packet is put on the wire.
pub enum FieldKind {
    /// `i32` as a `VarInt`.
    VarInt,
    /// `i64` as a `VarLong`.
    VarLong,
    /// `i8`, one byte.
    Byte,
    /// `i16`, big-endian.
    Short,
    /// `i32`, big-endian.
    Int,
    /// `i64`, big-endian.
    Long,
    /// `bool`, one byte.
    Bool,
    /// A string: `VarInt` byte length and UTF-8.
    Text,
    /// A 128-bit identifier, big-endian.
    Uuid,
    /// Bytes with a `VarInt` count.
    ByteArray,
    /// All bytes left in the packet, written as they are.
    RemainingBytes,
    /// Strings with a `VarInt` count.
    TextList,
    /// `VarInt`s with a `VarInt` count.
    VarIntList,
    /// `VarLong`s with a `VarInt` count.
    VarLongList,
    /// A presence flag, then a string when present.
    OptionalText,
    /// A presence flag, then an identifier when present.
    OptionalUuid,
    /// A presence flag, then bytes with a `VarInt` count when present.
    OptionalByteArray,
    /// `u16`, big-endian.
    UShort,
    /// What the client means to do after the handshake, as a `VarInt`.
    Intention,
    /// Profile properties with a `VarInt` count.
    PropertyList,
    /// `u8`, one byte.
    UByte,
    /// A `VarInt` code from 0 to one less than the bound.
    Code(u8),
    /// Known data packs with a `VarInt` count.
    KnownPackList,
}

/// The value of one field, as the layout sees it.
pub enum Field {
    VarInt(i32),
    VarLong(i64),
    Byte(i8),
    Short(i16),
    Int(i32),
    Long(i64),
    Bool(bool),
    Text(Seq<char>),
    Uuid(u128),
    ByteArray(Seq<u8>),
    RemainingBytes(Seq<u8>),
    TextList(Seq<Seq<char>>),
    VarIntList(Seq<i32>),
    VarLongList(Seq<i64>),
    OptionalText(Option<Seq<char>>),
    OptionalUuid(Option<u128>),
    OptionalByteArray(Option<Seq<u8>>),
    UShort(u16),
    Intention(ClientIntention),
    PropertyList(Seq<(Seq<char>, Seq<char>, Option<Seq<char>>)>),
    UByte(u8),
    Code(u8, i32),
    KnownPackList(Seq<(Seq<char>, Seq<char>, Seq<char>)>),
}

/// The kind of a field value.
pub open spec fn kind_of(f: Field) -> FieldKind {
    match f {
        Field::VarInt(_) => FieldKind::VarInt,
        Field::VarLong(_) => FieldKind::VarLong,
        Field::Byte(_) => FieldKind::Byte,
        Field::Short(_) => FieldKind::Short,
        Field::Int(_) => FieldKind::Int,
        Field::Long(_) => FieldKind::Long,
        Field::Bool(_) => FieldKind::Bool,
        Field::Text(_) => FieldKind::Text,
        Field::Uuid(_) => FieldKind::Uuid,
        Field::ByteArray(_) => FieldKind::ByteArray,
        Field::RemainingBytes(_) => FieldKind::RemainingBytes,
        Field::TextList(_) => FieldKind::TextList,
        Field::VarIntList(_) => FieldKind::VarIntList,
        Field::VarLongList(_) => FieldKind::VarLongList,
        Field::OptionalText(_) => FieldKind::OptionalText,
        Field::OptionalUuid(_) => FieldKind::OptionalUuid,
        Field::OptionalByteArray(_) => FieldKind::OptionalByteArray,
        Field::UShort(_) => FieldKind::UShort,
        Field::Intention(_) => FieldKind::Intention,
        Field::PropertyList(_) => FieldKind::PropertyList,
        Field::UByte(_) => FieldKind::UByte,
        Field::Code(n, _) => FieldKind::Code(n),
        Field::KnownPackList(_) => FieldKind::KnownPackList,
    }
}

/// The field values match the layout, one kind per value.
pub open spec fn fits(kinds: Seq<FieldKind>, fs: Seq<Field>) -> bool {
    &&& kinds.len() == fs.len()
    &&& forall|i: int| 0 <= i < fs.len() ==> kind_of(#[trigger] fs[i]) == kinds[i]
}

/// Reads `count` `VarInt`s one after another.
pub open spec fn read_varints(s: Seq<u8>, count: nat) -> (Option<Seq<i32>>, nat)
    decreases count,
{
    if count == 0 {
        (Some(Seq::empty()), 0)
    } else {
        let (r, n) = spec_read_varint(s);
        match r {
            None => (None, n),
            Some(v) => {
                let (rs, m) = read_varints(s.skip(n as int), (count - 1) as nat);
                match rs {
                    Some(vs) => (Some(seq![v] + vs), n + m),
                    None => (None, n + m),
                }
            },
        }
    }
}

/// Reads `count` `VarLong`s one after another.
pub open spec fn read_varlongs(s: Seq<u8>, count: nat) -> (Option<Seq<i64>>, nat)
    decreases count,
{
    if count == 0 {
        (Some(Seq::empty()), 0)
    } else {
        let (r, n) = spec_read_varlong(s);
        match r {
            None => (None, n),
            Some(v) => {
                let (rs, m) = read_varlongs(s.skip(n as int), (count - 1) as nat);
                match rs {
                    Some(vs) => (Some(seq![v] + vs), n + m),
                    None => (None, n + m),
                }
            },
        }
    }
}

/// The `VarInt` bytes of each value, one after another.
pub open spec fn varints_bytes(vs: Seq<i32>) -> Seq<u8>
    decreases vs.len(),
{
    if vs.len() == 0 {
        Seq::empty()
    } else {
        spec_varint(vs[0]) + varints_bytes(vs.drop_first())
    }
}

/// The `VarLong` bytes of each value, one after another.
pub open spec fn varlongs_bytes(vs: Seq<i64>) -> Seq<u8>
    decreases vs.len(),
{
    if vs.len() == 0 {
        Seq::empty()
    } else {
        spec_varlong(vs[0]) + varlongs_bytes(vs.drop_first())
    }
}

/// A `VarInt` count read from `s` asks for more than `isize::MAX` bytes of
/// `size`-byte items.
pub open spec fn count_overflows(s: Seq<u8>, size: nat) -> bool {
    spec_read_varint(s).0 matches Some(l) && (l as usize) * size > isize::MAX
}

/// Reads a presence flag and, when it is set, a value with `inner`.
pub open spec fn read_flagged<V>(s: Seq<u8>, inner: (Option<V>, nat)) -> (Option<Option<V>>, nat) {
    let (f, n) = <bool as Buffer>::spec_read(s);
    match f {
        None => (None, n),
        Some(false) => (Some(None), n),
        Some(true) => match inner.0 {
            Some(v) => (Some(Some(v)), n + inner.1),
            None => (None, n + inner.1),
        },
    }
}

/// What reading one field of the given kind from `s` yields, and how far the
/// cursor moves.
#[verifier::opaque]
pub open spec fn read_field(kind: FieldKind, s: Seq<u8>) -> (Option<Field>, nat) {
    match kind {
        FieldKind::VarInt => {
            let (r, n) = spec_read_varint(s);
            (if let Some(v) = r { Some(Field::VarInt(v)) } else { None }, n)
        },
        FieldKind::VarLong => {
            let (r, n) = spec_read_varlong(s);
            (if let Some(v) = r { Some(Field::VarLong(v)) } else { None }, n)
        },
        FieldKind::Byte => {
            let (r, n) = <i8 as Buffer>::spec_read(s);
            (if let Some(v) = r { Some(Field::Byte(v)) } else { None }, n)
        },
        FieldKind::Short => {
            let (r, n) = <i16 as Buffer>::spec_read(s);
            (if let Some(v) = r { Some(Field::Short(v)) } else { None }, n)
        },
        FieldKind::Int => {
            let (r, n) = <i32 as Buffer>::spec_read(s);
            (if let Some(v) = r { Some(Field::Int(v)) } else { None }, n)
        },
        FieldKind::Long => {
            let (r, n) = <i64 as Buffer>::spec_read(s);
            (if let Some(v) = r { Some(Field::Long(v)) } else { None }, n)
        },
        FieldKind::Bool => {
            let (r, n) = <bool as Buffer>::spec_read(s);
            (if let Some(v) = r { Some(Field::Bool(v)) } else { None }, n)
        },
        FieldKind::Text => {
            let (r, n) = <String as Buffer>::spec_read(s);
            (if let Some(v) = r { Some(Field::Text(v)) } else { None }, n)
        },
        FieldKind::Uuid => {
            let (r, n) = <Uuid as Buffer>::spec_read(s);
            (if let Some(v) = r { Some(Field::Uuid(v)) } else { None }, n)
        },
        FieldKind::ByteArray => {
            let (r, n) = <Vec<u8> as Buffer>::spec_read(s);
            (if let Some(v) = r { Some(Field::ByteArray(v)) } else { None }, n)
        },
        FieldKind::RemainingBytes => (Some(Field::RemainingBytes(s)), s.len()),
        FieldKind::TextList => {
            let (r, n) = <Vec<String> as Buffer>::spec_read(s);
            (if let Some(v) = r { Some(Field::TextList(v)) } else { None }, n)
        },
        FieldKind::VarIntList => {
            let (c, n) = spec_read_varint(s);
            match c {
                None => (None, n),
                Some(l) => {
                    let (r, m) = read_varints(s.skip(n as int), (l as usize) as nat);
                    (if let Some(v) = r { Some(Field::VarIntList(v)) } else { None }, n + m)
                },
            }
        },
        FieldKind::VarLongList => {
            let (c, n) = spec_read_varint(s);
            match c {
                None => (None, n),
                Some(l) => {
                    let (r, m) = read_varlongs(s.skip(n as int), (l as usize) as nat);
                    (if let Some(v) = r { Some(Field::VarLongList(v)) } else { None }, n + m)
                },
            }
        },
        FieldKind::OptionalText => {
            let n = <bool as Buffer>::spec_read(s).1;
            let (r, m) = read_flagged(s, <String as Buffer>::spec_read(s.skip(n as int)));
            (if let Some(v) = r { Some(Field::OptionalText(v)) } else { None }, m)
        },
        FieldKind::OptionalUuid => {
            let n = <bool as Buffer>::spec_read(s).1;
            let (r, m) = read_flagged(s, <Uuid as Buffer>::spec_read(s.skip(n as int)));
            (if let Some(v) = r { Some(Field::OptionalUuid(v)) } else { None }, m)
        },
        FieldKind::OptionalByteArray => {
            let n = <bool as Buffer>::spec_read(s).1;
            let (r, m) = read_flagged(s, <Vec<u8> as Buffer>::spec_read(s.skip(n as int)));
            (if let Some(v) = r { Some(Field::OptionalByteArray(v)) } else { None }, m)
        },
        FieldKind::UShort => {
            let (r, n) = <u16 as Buffer>::spec_read(s);
            (if let Some(v) = r { Some(Field::UShort(v)) } else { None }, n)
        },
        FieldKind::Intention => {
            let (r, n) = <ClientIntention as Buffer>::spec_read(s);
            (if let Some(v) = r { Some(Field::Intention(v)) } else { None }, n)
        },
        FieldKind::PropertyList => {
            let (r, n) = <Vec<Property> as Buffer>::spec_read(s);
            (if let Some(v) = r { Some(Field::PropertyList(v)) } else { None }, n)
        },
        FieldKind::UByte => {
            let (r, n) = <u8 as Buffer>::spec_read(s);
            (if let Some(v) = r { Some(Field::UByte(v)) } else { None }, n)
        },
        FieldKind::Code(bound) => {
            let (r, n) = spec_read_varint(s);
            (
                if let Some(v) = r {
                    if 0 <= v < bound {
                        Some(Field::Code(bound, v))
                    } else {
                        None
                    }
                } else {
                    None
                },
                n,
            )
        },
        FieldKind::KnownPackList => {
            let (r, n) = <Vec<KnownPack> as Buffer>::spec_read(s);
            (if let Some(v) = r { Some(Field::KnownPackList(v)) } else { None }, n)
        },
    }
}

/// A presence flag, then the value's bytes when present.
pub open spec fn write_flagged<V>(v: Option<V>, inner: (Seq<u8>, bool)) -> (Seq<u8>, bool) {
    match v {
        Some(_) => (seq![1u8] + inner.0, inner.1),
        None => (seq![0u8], true),
    }
}

/// The bytes written for one field, and whether the write succeeds.
#[verifier::opaque]
pub open spec fn write_field(f: Field) -> (Seq<u8>, bool) {
    match f {
        Field::VarInt(v) => (spec_varint(v), true),
        Field::VarLong(v) => (spec_varlong(v), true),
        Field::Byte(v) => <i8 as Buffer>::spec_write(v),
        Field::Short(v) => <i16 as Buffer>::spec_write(v),
        Field::Int(v) => <i32 as Buffer>::spec_write(v),
        Field::Long(v) => <i64 as Buffer>::spec_write(v),
        Field::Bool(v) => <bool as Buffer>::spec_write(v),
        Field::Text(v) => <String as Buffer>::spec_write(v),
        Field::Uuid(v) => <Uuid as Buffer>::spec_write(v),
        Field::ByteArray(v) => <Vec<u8> as Buffer>::spec_write(v),
        Field::RemainingBytes(v) => (v, true),
        Field::TextList(v) => <Vec<String> as Buffer>::spec_write(v),
        Field::VarIntList(v) => (spec_varint(v.len() as i32) + varints_bytes(v), true),
        Field::VarLongList(v) => (spec_varint(v.len() as i32) + varlongs_bytes(v), true),
        Field::OptionalText(o) => write_flagged(
            o,
            <String as Buffer>::spec_write(if let Some(x) = o { x } else { Seq::empty() }),
        ),
        Field::OptionalUuid(o) => write_flagged(
            o,
            <Uuid as Buffer>::spec_write(if let Some(x) = o { x } else { 0 }),
        ),
        Field::OptionalByteArray(o) => write_flagged(
            o,
            <Vec<u8> as Buffer>::spec_write(if let Some(x) = o { x } else { Seq::empty() }),
        ),
        Field::UShort(v) => <u16 as Buffer>::spec_write(v),
        Field::Intention(v) => <ClientIntention as Buffer>::spec_write(v),
        Field::PropertyList(v) => <Vec<Property> as Buffer>::spec_write(v),
        Field::UByte(v) => <u8 as Buffer>::spec_write(v),
        Field::Code(_, v) => (spec_varint(v), true),
        Field::KnownPackList(v) => <Vec<KnownPack> as Buffer>::spec_write(v),
    }
}

/// Reads the fields of `kinds` from index `i` on, one after another: all of
/// them, or `None` at the first that fails; and how far the cursor moves.
pub open spec fn read_fields(kinds: Seq<FieldKind>, s: Seq<u8>, i: nat) -> (Option<Seq<Field>>, nat)
    decreases kinds.len() - i,
{
    if i >= kinds.len() {
        (Some(Seq::empty()), 0)
    } else {
        let (r, n) = read_field(kinds[i as int], s);
        match r {
            None => (None, n),
            Some(f) => {
                let (rs, m) = read_fields(kinds, s.skip(n as int), i + 1);
                match rs {
                    Some(fs) => (Some(seq![f] + fs), n + m),
                    None => (None, n + m),
                }
            },
        }
    }
}

/// Writes the first `k` fields one after another, stopping after the first
/// that fails.
pub open spec fn write_fields(fs: Seq<Field>, k: nat) -> (Seq<u8>, bool)
    decreases k,
{
    if k == 0 {
        (Seq::empty(), true)
    } else {
        let (b, ok) = write_fields(fs, (k - 1) as nat);
        if !ok {
            (b, false)
        } else {
            let (c, okc) = write_field(fs[k - 1]);
            (b + c, okc)
        }
    }
}

/// Once writing stops at some field, the fields after it write nothing more.
pub proof fn lemma_write_fields_stopped(fs: Seq<Field>, k: nat, n: nat)
    requires
        k <= n,
        !write_fields(fs, k).1,
    ensures
        write_fields(fs, n) == write_fields(fs, k),
    decreases n - k,
{
    if k < n {
        lemma_write_fields_stopped(fs, k, (n - 1) as nat);
    }
}

/// Reading the fields from index `i` on reaches a list whose count asks for
/// more memory than a vector may hold.
pub open spec fn layout_may_overflow(kinds: Seq<FieldKind>, s: Seq<u8>, i: nat) -> bool
    decreases kinds.len() - i,
{
    if i >= kinds.len() {
        false
    } else {
        let here = match kinds[i as int] {
            FieldKind::VarIntList => count_overflows(s, 4),
            FieldKind::VarLongList => count_overflows(s, 8),
            _ => false,
        };
        if here {
            true
        } else {
            let (r, n) = read_field(kinds[i as int], s);
            match r {
                None => false,
                Some(_) => layout_may_overflow(kinds, s.skip(n as int), i + 1),
            }
        }
    }
}

/// The layout has no list of `VarInt`s or `VarLong`s.
pub open spec fn no_number_lists(kinds: Seq<FieldKind>) -> bool {
    forall|i: int|
        0 <= i < kinds.len() ==> !(#[trigger] kinds[i] is VarIntList) && !(kinds[i] is VarLongList)
}

/// Without lists of numbers, reading a layout never asks for too much memory.
pub proof fn lemma_no_lists_no_overflow(kinds: Seq<FieldKind>, s: Seq<u8>, i: nat)
    requires
        no_number_lists(kinds),
    ensures
        !layout_may_overflow(kinds, s, i),
    decreases kinds.len() - i,
{
    reveal(read_field);
    if i < kinds.len() {
        let (r, n) = read_field(kinds[i as int], s);
        if r is Some {
            lemma_no_lists_no_overflow(kinds, s.skip(n as int), i + 1);
        }
    }
}


/// Writing one more `VarInt` appends its bytes.
pub proof fn lemma_varints_push(vs: Seq<i32>, x: i32)
    ensures
        varints_bytes(vs.push(x)) == varints_bytes(vs) + spec_varint(x),
    decreases vs.len(),
{
    if vs.len() == 0 {
        assert(vs.push(x).drop_first() =~= Seq::<i32>::empty());
        assert(vs.push(x)[0] == x);
        assert(varints_bytes(Seq::<i32>::empty()) == Seq::<u8>::empty());
        assert(varints_bytes(vs) == Seq::<u8>::empty());
        assert(varints_bytes(vs.push(x)) == spec_varint(x) + varints_bytes(Seq::<i32>::empty()));
        assert(spec_varint(x) + Seq::<u8>::empty() =~= Seq::<u8>::empty() + spec_varint(x));
    } else {
        assert(vs.push(x).drop_first() =~= vs.drop_first().push(x));
        assert(vs.push(x)[0] == vs[0]);
        lemma_varints_push(vs.drop_first(), x);
        assert(spec_varint(vs[0]) + (varints_bytes(vs.drop_first()) + spec_varint(x)) =~= (
        spec_varint(vs[0]) + varints_bytes(vs.drop_first())) + spec_varint(x));
    }
}

/// Writing one more `VarLong` appends its bytes.
pub proof fn lemma_varlongs_push(vs: Seq<i64>, x: i64)
    ensures
        varlongs_bytes(vs.push(x)) == varlongs_bytes(vs) + spec_varlong(x),
    decreases vs.len(),
{
    if vs.len() == 0 {
        assert(vs.push(x).drop_first() =~= Seq::<i64>::empty());
        assert(vs.push(x)[0] == x);
        assert(varlongs_bytes(Seq::<i64>::empty()) == Seq::<u8>::empty());
        assert(varlongs_bytes(vs) == Seq::<u8>::empty());
        assert(varlongs_bytes(vs.push(x)) == spec_varlong(x) + varlongs_bytes(Seq::<i64>::empty()));
        assert(spec_varlong(x) + Seq::<u8>::empty() =~= Seq::<u8>::empty() + spec_varlong(x));
    } else {
        assert(vs.push(x).drop_first() =~= vs.drop_first().push(x));
        assert(vs.push(x)[0] == vs[0]);
        lemma_varlongs_push(vs.drop_first(), x);
        assert(spec_varlong(vs[0]) + (varlongs_bytes(vs.drop_first()) + spec_varlong(x)) =~= (
        spec_varlong(vs[0]) + varlongs_bytes(vs.drop_first())) + spec_varlong(x));
    }
}

/// Reads every byte left: the field that ends a packet.
pub fn read_remaining_bytes(buffer: &mut Cursor) -> (res: Vec<u8>)
    ensures
        final(buffer).data() == old(buffer).data(),
        final(buffer).pos() == old(buffer).pos() + old(buffer).rest().len(),
        final(buffer).rest() == old(buffer).rest().skip(old(buffer).rest().len() as int),
        res@ == old(buffer).rest(),
{
    let remaining = buffer.remaining();
    let bytes = read_bytes(buffer, remaining).unwrap();
    assert(bytes@ =~= old(buffer).rest());
    vstd::slice::slice_to_vec(bytes)
}

/// Reads a `VarInt` count, then that many `VarInt`s.
pub fn read_varint_list(buffer: &mut Cursor) -> (res: Option<Vec<i32>>)
    requires
        !count_overflows(old(buffer).rest(), 4),
    ensures
        final(buffer).data() == old(buffer).data(),
        final(buffer).pos() == old(buffer).pos() + read_field(
            FieldKind::VarIntList,
            old(buffer).rest(),
        ).1,
        final(buffer).rest() == old(buffer).rest().skip(
            read_field(FieldKind::VarIntList, old(buffer).rest()).1 as int,
        ),
        match read_field(FieldKind::VarIntList, old(buffer).rest()).0 {
            Some(Field::VarIntList(v)) => res matches Some(r) && r@ == v,
            _ => res is None,
        },
{
    reveal(read_field);
    let ghost c0 = *buffer;
    let r = i32::read_var(buffer);
    let count = match r {
        Some(l) => #[verifier::truncate] (l as usize),
        None => return None,
    };
    let ghost c1 = *buffer;
    let ghost s1 = buffer.rest();
    proof {
        lemma_pos_in_bounds(&c0);
    }
    let mut vec: Vec<i32> = Vec::with_capacity(count);
    assert(after_items(vec@, read_varints(s1, count as nat), 0) == read_varints(s1, count as nat))
        by {
        let r = read_varints(s1, count as nat);
        if r.0 is Some {
            assert(vec@ + r.0->0 =~= r.0->0);
        }
    }
    let mut i: usize = 0;
    while i < count
        invariant
            i <= count,
            c0 == *old(buffer),
            c1.data() == c0.data(),
            c1.pos() == c0.pos() + spec_read_varint(c0.rest()).1,
            s1 == c0.rest().skip(spec_read_varint(c0.rest()).1 as int),
            spec_read_varint(c0.rest()).0 matches Some(l) && (l as usize) == count,
            buffer.data() == c1.data(),
            c1.pos() <= buffer.pos(),
            read_varints(s1, count as nat) == after_items(
                vec@,
                read_varints(buffer.rest(), (count - i) as nat),
                (buffer.pos() - c1.pos()) as nat,
            ),
        decreases count - i,
    {
        let ghost pre = vec@;
        let ghost ri = buffer.rest();
        match i32::read_var(buffer) {
            Some(x) => {
                vec.push(x);
                proof {
                    let n = spec_read_varint(ri).1;
                    let tail = read_varints(ri.skip(n as int), (count - i - 1) as nat);
                    if tail.0 is Some {
                        assert(pre.push(x) + tail.0->0 =~= pre + (seq![x] + tail.0->0));
                    }
                }
            },
            None => {
                proof {
                    reveal(read_field);
                    lemma_rest_advance(&c0, &*buffer, (buffer.pos() - c0.pos()) as nat);
                }
                return None;
            },
        }
        i = i + 1;
    }
    assert(vec@ + Seq::<i32>::empty() =~= vec@);
    proof {
        lemma_rest_advance(&c0, &*buffer, (buffer.pos() - c0.pos()) as nat);
    }
    Some(vec)
}

/// Reads a `VarInt` count, then that many `VarLong`s.
pub fn read_varlong_list(buffer: &mut Cursor) -> (res: Option<Vec<i64>>)
    requires
        !count_overflows(old(buffer).rest(), 8),
    ensures
        final(buffer).data() == old(buffer).data(),
        final(buffer).pos() == old(buffer).pos() + read_field(
            FieldKind::VarLongList,
            old(buffer).rest(),
        ).1,
        final(buffer).rest() == old(buffer).rest().skip(
            read_field(FieldKind::VarLongList, old(buffer).rest()).1 as int,
        ),
        match read_field(FieldKind::VarLongList, old(buffer).rest()).0 {
            Some(Field::VarLongList(v)) => res matches Some(r) && r@ == v,
            _ => res is None,
        },
{
    reveal(read_field);
    let ghost c0 = *buffer;
    let r = i32::read_var(buffer);
    let count = match r {
        Some(l) => #[verifier::truncate] (l as usize),
        None => return None,
    };
    let ghost c1 = *buffer;
    let ghost s1 = buffer.rest();
    proof {
        lemma_pos_in_bounds(&c0);
    }
    let mut vec: Vec<i64> = Vec::with_capacity(count);
    assert(after_items(vec@, read_varlongs(s1, count as nat), 0) == read_varlongs(s1, count as nat))
        by {
        let r = read_varlongs(s1, count as nat);
        if r.0 is Some {
            assert(vec@ + r.0->0 =~= r.0->0);
        }
    }
    let mut i: usize = 0;
    while i < count
        invariant
            i <= count,
            c0 == *old(buffer),
            c1.data() == c0.data(),
            c1.pos() == c0.pos() + spec_read_varint(c0.rest()).1,
            s1 == c0.rest().skip(spec_read_varint(c0.rest()).1 as int),
            spec_read_varint(c0.rest()).0 matches Some(l) && (l as usize) == count,
            buffer.data() == c1.data(),
            c1.pos() <= buffer.pos(),
            read_varlongs(s1, count as nat) == after_items(
                vec@,
                read_varlongs(buffer.rest(), (count - i) as nat),
                (buffer.pos() - c1.pos()) as nat,
            ),
        decreases count - i,
    {
        let ghost pre = vec@;
        let ghost ri = buffer.rest();
        match i64::read_var(buffer) {
            Some(x) => {
                vec.push(x);
                proof {
                    let n = spec_read_varlong(ri).1;
                    let tail = read_varlongs(ri.skip(n as int), (count - i - 1) as nat);
                    if tail.0 is Some {
                        assert(pre.push(x) + tail.0->0 =~= pre + (seq![x] + tail.0->0));
                    }
                }
            },
            None => {
                proof {
                    reveal(read_field);
                    lemma_rest_advance(&c0, &*buffer, (buffer.pos() - c0.pos()) as nat);
                }
                return None;
            },
        }
        i = i + 1;
    }
    assert(vec@ + Seq::<i64>::empty() =~= vec@);
    proof {
        lemma_rest_advance(&c0, &*buffer, (buffer.pos() - c0.pos()) as nat);
    }
    Some(vec)
}

/// Writes a `VarInt` count, then each value as a `VarInt`.
pub fn write_varint_list(values: &Vec<i32>, buffer: &mut Vec<u8>)
    ensures
        final(buffer)@ == old(buffer)@ + (spec_varint(values@.len() as i32) + varints_bytes(values@)),
{
    let _ = (values.len() as i32).write_var(buffer);
    let ghost head = buffer@;
    assert(values@.take(0) =~= Seq::<i32>::empty());
    let mut i: usize = 0;
    while i < values.len()
        invariant
            i <= values.len(),
            head == old(buffer)@ + spec_varint(values@.len() as i32),
            buffer@ == head + varints_bytes(values@.take(i as int)),
        decreases values.len() - i,
    {
        proof {
            lemma_varints_push(values@.take(i as int), values@[i as int]);
            assert(values@.take(i as int).push(values@[i as int]) =~= values@.take((i + 1) as int));
        }
        let _ = values[i].write_var(buffer);
        assert(buffer@ =~= head + varints_bytes(values@.take((i + 1) as int)));
        i = i + 1;
    }
    assert(values@.take(i as int) =~= values@);
    assert(buffer@ =~= old(buffer)@ + (spec_varint(values@.len() as i32) + varints_bytes(values@)));
}

/// Writes a `VarInt` count, then each value as a `VarLong`.
pub fn write_varlong_list(values: &Vec<i64>, buffer: &mut Vec<u8>)
    ensures
        final(buffer)@ == old(buffer)@ + (spec_varint(values@.len() as i32) + varlongs_bytes(
            values@,
        )),
{
    let _ = (values.len() as i32).write_var(buffer);
    let ghost head = buffer@;
    assert(values@.take(0) =~= Seq::<i64>::empty());
    let mut i: usize = 0;
    while i < values.len()
        invariant
            i <= values.len(),
            head == old(buffer)@ + spec_varint(values@.len() as i32),
            buffer@ == head + varlongs_bytes(values@.take(i as int)),
        decreases values.len() - i,
    {
        proof {
            lemma_varlongs_push(values@.take(i as int), values@[i as int]);
            assert(values@.take(i as int).push(values@[i as int]) =~= values@.take((i + 1) as int));
        }
        let _ = values[i].write_var(buffer);
        assert(buffer@ =~= head + varlongs_bytes(values@.take((i + 1) as int)));
        i = i + 1;
    }
    assert(values@.take(i as int) =~= values@);
    assert(buffer@ =~= old(buffer)@ + (spec_varint(values@.len() as i32) + varlongs_bytes(
        values@,
    )));
}

/// Reads a presence flag and, when it is set, a value. A read that fails fails
/// the whole field.
pub fn read_flagged_value<T: Buffer>(buffer: &mut Cursor) -> (res: Option<Option<T>>)
    ensures
        final(buffer).data() == old(buffer).data(),
        final(buffer).pos() == old(buffer).pos() + read_flagged(
            old(buffer).rest(),
            T::spec_read(old(buffer).rest().skip(<bool as Buffer>::spec_read(old(buffer).rest()).1 as int)),
        ).1,
        final(buffer).rest() == old(buffer).rest().skip(
            read_flagged(
                old(buffer).rest(),
                T::spec_read(old(buffer).rest().skip(<bool as Buffer>::spec_read(old(buffer).rest()).1 as int)),
            ).1 as int,
        ),
        match read_flagged(
            old(buffer).rest(),
            T::spec_read(old(buffer).rest().skip(<bool as Buffer>::spec_read(old(buffer).rest()).1 as int)),
        ).0 {
            Some(o) => res matches Some(r) && r.deep_view() == o,
            None => res is None,
        },
{
    let ghost c0 = *buffer;
    let present = match bool::read_buf(buffer) {
        Some(p) => p,
        None => return None,
    };
    if !present {
        return Some(None);
    }
    let value = T::read_buf(buffer);
    proof {
        lemma_pos_in_bounds(&c0);
        lemma_rest_advance(&c0, &*buffer, (buffer.pos() - c0.pos()) as nat);
    }
    match value {
        Some(v) => Some(Some(v)),
        None => None,
    }
}

/// Writes a presence flag and, when present, the value.
pub fn write_flagged_value<T: Buffer>(value: &Option<T>, buffer: &mut Vec<u8>) -> (res: Result<
    (),
    WriteError,
>)
    ensures
        match value.deep_view() {
            Some(x) => final(buffer)@ == old(buffer)@ + (seq![1u8] + T::spec_write(x).0) && (res is Ok
                <==> T::spec_write(x).1),
            None => final(buffer)@ == old(buffer)@ + seq![0u8] && res is Ok,
        },
{
    match value {
        Some(v) => {
            let _ = true.write_buf(buffer);
            let r = v.write_buf(buffer);
            assert(buffer@ =~= old(buffer)@ + (seq![1u8] + T::spec_write(v.deep_view()).0));
            r
        },
        None => false.write_buf(buffer),
    }
}

} // verus!
