//! What reading gives back of a write: the wire forms of fields, layouts and
//! packets read back as the values written.

use vstd::prelude::*;

use crate::buffer::Buffer;
use crate::field::{
    Field, FieldKind, count_overflows, fits, kind_of, layout_may_overflow, read_field, read_fields,
    read_flagged, read_varints, read_varlongs, varints_bytes, varlongs_bytes, write_field,
    write_fields,
};
use crate::packet::{Packet, ProtocolPacket};
use crate::types::boolean::lemma_bool_roundtrip;
use crate::types::sint::{lemma_i16_roundtrip, lemma_i32_roundtrip, lemma_i64_roundtrip, lemma_i8_roundtrip};
use crate::types::string::lemma_string_roundtrip;
use crate::types::intention::lemma_intention_roundtrip;
use crate::types::known_pack::{KnownPack, lemma_known_pack_reads_back};
use crate::types::property::{Property, lemma_property_reads_back};
use crate::types::uint::{lemma_u16_roundtrip, lemma_u8_roundtrip};
use crate::types::uuid::{Uuid, lemma_uuid_roundtrip};
use crate::types::vector::lemma_vec_roundtrip;
use crate::varint::{lemma_varint_roundtrip, lemma_varlong_roundtrip, spec_varint};

verus! {

/// A field whose written form reads back as itself: no list or byte array of
/// more than `i32::MAX` items or of more than `isize::MAX` bytes of numbers,
/// and no code outside its bound.
pub open spec fn field_reads_back(f: Field) -> bool {
    match f {
        Field::ByteArray(v) => v.len() <= i32::MAX,
        Field::TextList(v) => v.len() <= i32::MAX,
        Field::VarIntList(v) => v.len() <= i32::MAX && v.len() * 4 <= isize::MAX,
        Field::VarLongList(v) => v.len() <= i32::MAX && v.len() * 8 <= isize::MAX,
        Field::OptionalByteArray(Some(v)) => v.len() <= i32::MAX,
        Field::PropertyList(v) => v.len() <= i32::MAX,
        Field::KnownPackList(v) => v.len() <= i32::MAX,
        Field::Code(n, v) => 0 <= v < n,
        _ => true,
    }
}

/// Every field of `fs` reads back as itself.
pub open spec fn fields_read_back(fs: Seq<Field>) -> bool {
    forall|i: int| 0 <= i < fs.len() ==> field_reads_back(#[trigger] fs[i])
}

/// Trailing bytes, where the fields have them, end what is read: they are the
/// last field, and nothing follows (`t` is empty).
pub open spec fn trailing_bytes_last(fs: Seq<Field>, t: Seq<u8>) -> bool {
    forall|i: int|
        0 <= i < fs.len() && (#[trigger] fs[i]) is RemainingBytes ==> i == fs.len() - 1 && t.len()
            == 0
}

proof fn lemma_varints_roundtrip(vs: Seq<i32>, t: Seq<u8>)
    ensures
        read_varints(varints_bytes(vs) + t, vs.len()) == (Some(vs), varints_bytes(vs).len()),
    decreases vs.len(),
{
    if vs.len() > 0 {
        let b = spec_varint(vs[0]);
        let rest = varints_bytes(vs.drop_first());
        assert(varints_bytes(vs) + t =~= b + (rest + t));
        lemma_varint_roundtrip(vs[0], rest + t);
        assert((b + (rest + t)).skip(b.len() as int) =~= rest + t);
        lemma_varints_roundtrip(vs.drop_first(), t);
        assert(seq![vs[0]] + vs.drop_first() =~= vs);
    }
}

proof fn lemma_varlongs_roundtrip(vs: Seq<i64>, t: Seq<u8>)
    ensures
        read_varlongs(varlongs_bytes(vs) + t, vs.len()) == (Some(vs), varlongs_bytes(vs).len()),
    decreases vs.len(),
{
    if vs.len() > 0 {
        let b = crate::varint::spec_varlong(vs[0]);
        let rest = varlongs_bytes(vs.drop_first());
        assert(varlongs_bytes(vs) + t =~= b + (rest + t));
        lemma_varlong_roundtrip(vs[0], rest + t);
        assert((b + (rest + t)).skip(b.len() as int) =~= rest + t);
        lemma_varlongs_roundtrip(vs.drop_first(), t);
        assert(seq![vs[0]] + vs.drop_first() =~= vs);
    }
}

proof fn lemma_u8_reads_back()
    ensures
        forall|x: u8, u: Seq<u8>|
            <u8 as Buffer>::spec_write(x).1 ==> #[trigger] <u8 as Buffer>::spec_read(
                <u8 as Buffer>::spec_write(x).0 + u,
            ) == (Some(x), <u8 as Buffer>::spec_write(x).0.len()),
{
    assert forall|x: u8, u: Seq<u8>|
        <u8 as Buffer>::spec_write(x).1 implies #[trigger] <u8 as Buffer>::spec_read(
        <u8 as Buffer>::spec_write(x).0 + u,
    ) == (Some(x), <u8 as Buffer>::spec_write(x).0.len()) by {
        lemma_u8_roundtrip(x, u);
    }
}

proof fn lemma_string_reads_back()
    ensures
        forall|x: Seq<char>, u: Seq<u8>|
            <String as Buffer>::spec_write(x).1 ==> #[trigger] <String as Buffer>::spec_read(
                <String as Buffer>::spec_write(x).0 + u,
            ) == (Some(x), <String as Buffer>::spec_write(x).0.len()),
{
    assert forall|x: Seq<char>, u: Seq<u8>|
        <String as Buffer>::spec_write(x).1 implies #[trigger] <String as Buffer>::spec_read(
        <String as Buffer>::spec_write(x).0 + u,
    ) == (Some(x), <String as Buffer>::spec_write(x).0.len()) by {
        lemma_string_roundtrip(x, u);
    }
}

proof fn lemma_flagged_roundtrip<V>(x: V, inner_bytes: Seq<u8>, inner: (Option<V>, nat), t: Seq<u8>)
    requires
        inner == (Some(x), inner_bytes.len()),
    ensures
        read_flagged(seq![1u8] + inner_bytes + t, inner) == (Some(Some(x)), 1 + inner_bytes.len()),
{
    let s = seq![1u8] + inner_bytes + t;
    lemma_bool_roundtrip(true, inner_bytes + t);
    assert(s =~= <bool as Buffer>::spec_write(true).0 + (inner_bytes + t));
}

proof fn lemma_flagged_none<V>(inner: (Option<V>, nat), t: Seq<u8>)
    ensures
        read_flagged(seq![0u8] + t, inner) == (Some(None::<V>), 1nat),
{
    lemma_bool_roundtrip(false, t);
    assert(seq![0u8] + t =~= <bool as Buffer>::spec_write(false).0 + t);
}

proof fn lemma_varint_field_roundtrip(v: i32, t: Seq<u8>)
    requires
        write_field(Field::VarInt(v)).1,
        field_reads_back(Field::VarInt(v)),
    ensures
        read_field(FieldKind::VarInt, write_field(Field::VarInt(v)).0 + t) == (
            Some(Field::VarInt(v)),
            write_field(Field::VarInt(v)).0.len(),
        ),
{
    reveal(read_field);
    reveal(write_field);
    lemma_varint_roundtrip(v, t);
}

proof fn lemma_varlong_field_roundtrip(v: i64, t: Seq<u8>)
    requires
        write_field(Field::VarLong(v)).1,
        field_reads_back(Field::VarLong(v)),
    ensures
        read_field(FieldKind::VarLong, write_field(Field::VarLong(v)).0 + t) == (
            Some(Field::VarLong(v)),
            write_field(Field::VarLong(v)).0.len(),
        ),
{
    reveal(read_field);
    reveal(write_field);
    lemma_varlong_roundtrip(v, t);
}

proof fn lemma_byte_field_roundtrip(v: i8, t: Seq<u8>)
    requires
        write_field(Field::Byte(v)).1,
        field_reads_back(Field::Byte(v)),
    ensures
        read_field(FieldKind::Byte, write_field(Field::Byte(v)).0 + t) == (
            Some(Field::Byte(v)),
            write_field(Field::Byte(v)).0.len(),
        ),
{
    reveal(read_field);
    reveal(write_field);
    lemma_i8_roundtrip(v, t);
}

proof fn lemma_short_field_roundtrip(v: i16, t: Seq<u8>)
    requires
        write_field(Field::Short(v)).1,
        field_reads_back(Field::Short(v)),
    ensures
        read_field(FieldKind::Short, write_field(Field::Short(v)).0 + t) == (
            Some(Field::Short(v)),
            write_field(Field::Short(v)).0.len(),
        ),
{
    reveal(read_field);
    reveal(write_field);
    lemma_i16_roundtrip(v, t);
}

proof fn lemma_int_field_roundtrip(v: i32, t: Seq<u8>)
    requires
        write_field(Field::Int(v)).1,
        field_reads_back(Field::Int(v)),
    ensures
        read_field(FieldKind::Int, write_field(Field::Int(v)).0 + t) == (
            Some(Field::Int(v)),
            write_field(Field::Int(v)).0.len(),
        ),
{
    reveal(read_field);
    reveal(write_field);
    lemma_i32_roundtrip(v, t);
}

proof fn lemma_long_field_roundtrip(v: i64, t: Seq<u8>)
    requires
        write_field(Field::Long(v)).1,
        field_reads_back(Field::Long(v)),
    ensures
        read_field(FieldKind::Long, write_field(Field::Long(v)).0 + t) == (
            Some(Field::Long(v)),
            write_field(Field::Long(v)).0.len(),
        ),
{
    reveal(read_field);
    reveal(write_field);
    lemma_i64_roundtrip(v, t);
}

proof fn lemma_bool_field_roundtrip(v: bool, t: Seq<u8>)
    requires
        write_field(Field::Bool(v)).1,
        field_reads_back(Field::Bool(v)),
    ensures
        read_field(FieldKind::Bool, write_field(Field::Bool(v)).0 + t) == (
            Some(Field::Bool(v)),
            write_field(Field::Bool(v)).0.len(),
        ),
{
    reveal(read_field);
    reveal(write_field);
    lemma_bool_roundtrip(v, t);
}

proof fn lemma_text_field_roundtrip(v: Seq<char>, t: Seq<u8>)
    requires
        write_field(Field::Text(v)).1,
        field_reads_back(Field::Text(v)),
    ensures
        read_field(FieldKind::Text, write_field(Field::Text(v)).0 + t) == (
            Some(Field::Text(v)),
            write_field(Field::Text(v)).0.len(),
        ),
{
    reveal(read_field);
    reveal(write_field);
    lemma_string_roundtrip(v, t);
}

proof fn lemma_uuid_field_roundtrip(v: u128, t: Seq<u8>)
    requires
        write_field(Field::Uuid(v)).1,
        field_reads_back(Field::Uuid(v)),
    ensures
        read_field(FieldKind::Uuid, write_field(Field::Uuid(v)).0 + t) == (
            Some(Field::Uuid(v)),
            write_field(Field::Uuid(v)).0.len(),
        ),
{
    reveal(read_field);
    reveal(write_field);
    lemma_uuid_roundtrip(v, t);
}

proof fn lemma_bytearray_field_roundtrip(v: Seq<u8>, t: Seq<u8>)
    requires
        write_field(Field::ByteArray(v)).1,
        field_reads_back(Field::ByteArray(v)),
    ensures
        read_field(FieldKind::ByteArray, write_field(Field::ByteArray(v)).0 + t) == (
            Some(Field::ByteArray(v)),
            write_field(Field::ByteArray(v)).0.len(),
        ),
{
    reveal(read_field);
    reveal(write_field);
    lemma_u8_reads_back();
    lemma_vec_roundtrip::<u8>(v, t);
}

proof fn lemma_textlist_field_roundtrip(v: Seq<Seq<char>>, t: Seq<u8>)
    requires
        write_field(Field::TextList(v)).1,
        field_reads_back(Field::TextList(v)),
    ensures
        read_field(FieldKind::TextList, write_field(Field::TextList(v)).0 + t) == (
            Some(Field::TextList(v)),
            write_field(Field::TextList(v)).0.len(),
        ),
{
    reveal(read_field);
    reveal(write_field);
    lemma_string_reads_back();
    lemma_vec_roundtrip::<String>(v, t);
}

proof fn lemma_varintlist_field_roundtrip(v: Seq<i32>, t: Seq<u8>)
    requires
        write_field(Field::VarIntList(v)).1,
        field_reads_back(Field::VarIntList(v)),
    ensures
        read_field(FieldKind::VarIntList, write_field(Field::VarIntList(v)).0 + t) == (
            Some(Field::VarIntList(v)),
            write_field(Field::VarIntList(v)).0.len(),
        ),
        !count_overflows(write_field(Field::VarIntList(v)).0 + t, 4),
{
    reveal(read_field);
    reveal(write_field);
    let l = v.len() as i32;
    let b = varints_bytes(v);
    let s = spec_varint(l) + b + t;
    assert(s =~= spec_varint(l) + (b + t));
    lemma_varint_roundtrip(l, b + t);
    assert(s.skip(spec_varint(l).len() as int) =~= b + t);
    assert((l as usize) as nat == v.len());
    lemma_varints_roundtrip(v, t);
}

proof fn lemma_varlonglist_field_roundtrip(v: Seq<i64>, t: Seq<u8>)
    requires
        write_field(Field::VarLongList(v)).1,
        field_reads_back(Field::VarLongList(v)),
    ensures
        read_field(FieldKind::VarLongList, write_field(Field::VarLongList(v)).0 + t) == (
            Some(Field::VarLongList(v)),
            write_field(Field::VarLongList(v)).0.len(),
        ),
        !count_overflows(write_field(Field::VarLongList(v)).0 + t, 8),
{
    reveal(read_field);
    reveal(write_field);
    let l = v.len() as i32;
    let b = varlongs_bytes(v);
    let s = spec_varint(l) + b + t;
    assert(s =~= spec_varint(l) + (b + t));
    lemma_varint_roundtrip(l, b + t);
    assert(s.skip(spec_varint(l).len() as int) =~= b + t);
    assert((l as usize) as nat == v.len());
    lemma_varlongs_roundtrip(v, t);
}

proof fn lemma_optionaltext_field_roundtrip(o: Option<Seq<char>>, t: Seq<u8>)
    requires
        write_field(Field::OptionalText(o)).1,
        field_reads_back(Field::OptionalText(o)),
    ensures
        read_field(FieldKind::OptionalText, write_field(Field::OptionalText(o)).0 + t) == (
            Some(Field::OptionalText(o)),
            write_field(Field::OptionalText(o)).0.len(),
        ),
{
    reveal(read_field);
    reveal(write_field);
    match o {
        Some(x) => {
            let b = <String as Buffer>::spec_write(x).0;
            lemma_string_roundtrip(x, t);
            lemma_flagged_roundtrip(x, b, <String as Buffer>::spec_read(b + t), t);
            assert((seq![1u8] + b + t).skip(1) =~= b + t);
        },
        None => {
            lemma_flagged_none(<String as Buffer>::spec_read(t), t);
            assert((seq![0u8] + t).skip(1) =~= t);
        },
    }
}

proof fn lemma_optionaluuid_field_roundtrip(o: Option<u128>, t: Seq<u8>)
    requires
        write_field(Field::OptionalUuid(o)).1,
        field_reads_back(Field::OptionalUuid(o)),
    ensures
        read_field(FieldKind::OptionalUuid, write_field(Field::OptionalUuid(o)).0 + t) == (
            Some(Field::OptionalUuid(o)),
            write_field(Field::OptionalUuid(o)).0.len(),
        ),
{
    reveal(read_field);
    reveal(write_field);
    match o {
        Some(x) => {
            let b = <Uuid as Buffer>::spec_write(x).0;
            lemma_uuid_roundtrip(x, t);
            lemma_flagged_roundtrip(x, b, <Uuid as Buffer>::spec_read(b + t), t);
            assert((seq![1u8] + b + t).skip(1) =~= b + t);
        },
        None => {
            lemma_flagged_none(<Uuid as Buffer>::spec_read(t), t);
            assert((seq![0u8] + t).skip(1) =~= t);
        },
    }
}

proof fn lemma_optionalbytearray_field_roundtrip(o: Option<Seq<u8>>, t: Seq<u8>)
    requires
        write_field(Field::OptionalByteArray(o)).1,
        field_reads_back(Field::OptionalByteArray(o)),
    ensures
        read_field(FieldKind::OptionalByteArray, write_field(Field::OptionalByteArray(o)).0 + t) == (
            Some(Field::OptionalByteArray(o)),
            write_field(Field::OptionalByteArray(o)).0.len(),
        ),
{
    reveal(read_field);
    reveal(write_field);
    match o {
        Some(x) => {
            let b = <Vec<u8> as Buffer>::spec_write(x).0;
            lemma_u8_reads_back();
            lemma_vec_roundtrip::<u8>(x, t);
            lemma_flagged_roundtrip(x, b, <Vec<u8> as Buffer>::spec_read(b + t), t);
            assert((seq![1u8] + b + t).skip(1) =~= b + t);
        },
        None => {
            lemma_flagged_none(<Vec<u8> as Buffer>::spec_read(t), t);
            assert((seq![0u8] + t).skip(1) =~= t);
        },
    }
}

/// A field that is written, and that reads back, reads back as itself and
/// consumes exactly the bytes written, whatever follows them (nothing, for
/// trailing bytes); a list it holds asks for no more memory than a vector may
/// hold.
pub proof fn lemma_field_roundtrip(f: Field, t: Seq<u8>)
    requires
        write_field(f).1,
        field_reads_back(f),
        f is RemainingBytes ==> t.len() == 0,
    ensures
        read_field(kind_of(f), write_field(f).0 + t) == (Some(f), write_field(f).0.len()),
        kind_of(f) is VarIntList ==> !count_overflows(write_field(f).0 + t, 4),
        kind_of(f) is VarLongList ==> !count_overflows(write_field(f).0 + t, 8),
{
    match f {
        Field::VarInt(v) => lemma_varint_field_roundtrip(v, t),
        Field::VarLong(v) => lemma_varlong_field_roundtrip(v, t),
        Field::Byte(v) => lemma_byte_field_roundtrip(v, t),
        Field::Short(v) => lemma_short_field_roundtrip(v, t),
        Field::Int(v) => lemma_int_field_roundtrip(v, t),
        Field::Long(v) => lemma_long_field_roundtrip(v, t),
        Field::Bool(v) => lemma_bool_field_roundtrip(v, t),
        Field::Text(v) => lemma_text_field_roundtrip(v, t),
        Field::Uuid(v) => lemma_uuid_field_roundtrip(v, t),
        Field::ByteArray(v) => lemma_bytearray_field_roundtrip(v, t),
        Field::TextList(v) => lemma_textlist_field_roundtrip(v, t),
        Field::VarIntList(v) => lemma_varintlist_field_roundtrip(v, t),
        Field::VarLongList(v) => lemma_varlonglist_field_roundtrip(v, t),
        Field::OptionalText(o) => lemma_optionaltext_field_roundtrip(o, t),
        Field::OptionalUuid(o) => lemma_optionaluuid_field_roundtrip(o, t),
        Field::OptionalByteArray(o) => lemma_optionalbytearray_field_roundtrip(o, t),
        Field::UShort(v) => {
            reveal(read_field);
            reveal(write_field);
            lemma_u16_roundtrip(v, t);
        },
        Field::Intention(v) => {
            reveal(read_field);
            reveal(write_field);
            lemma_intention_roundtrip(v, t);
        },
        Field::PropertyList(v) => {
            reveal(read_field);
            reveal(write_field);
            lemma_property_reads_back();
            lemma_vec_roundtrip::<Property>(v, t);
        },
        Field::UByte(v) => {
            reveal(read_field);
            reveal(write_field);
            lemma_u8_roundtrip(v, t);
        },
        Field::Code(n, v) => {
            reveal(read_field);
            reveal(write_field);
            lemma_varint_roundtrip(v, t);
        },
        Field::KnownPackList(v) => {
            reveal(read_field);
            reveal(write_field);
            lemma_known_pack_reads_back();
            lemma_vec_roundtrip::<KnownPack>(v, t);
        },
        Field::RemainingBytes(v) => {
            reveal(read_field);
            reveal(write_field);
            assert(v + t =~= v);
        },
    }
}

/// The bytes of the fields from index `i` on, one after another.
pub open spec fn tail_bytes(fs: Seq<Field>, i: nat) -> Seq<u8>
    decreases fs.len() - i,
{
    if i >= fs.len() {
        Seq::empty()
    } else {
        write_field(fs[i as int]).0 + tail_bytes(fs, i + 1)
    }
}

proof fn lemma_write_fields_ok_each(fs: Seq<Field>, k: nat, j: nat)
    requires
        j < k,
        write_fields(fs, k).1,
    ensures
        write_field(fs[j as int]).1,
    decreases k,
{
    if j < k - 1 {
        lemma_write_fields_ok_each(fs, (k - 1) as nat, j);
    }
}

proof fn lemma_write_fields_tail(fs: Seq<Field>, k: nat)
    requires
        k <= fs.len(),
        write_fields(fs, k).1,
    ensures
        write_fields(fs, k).0 + tail_bytes(fs, k) == tail_bytes(fs, 0),
    decreases k,
{
    if k == 0 {
        assert(Seq::<u8>::empty() + tail_bytes(fs, 0) =~= tail_bytes(fs, 0));
    } else {
        let j = (k - 1) as nat;
        lemma_write_fields_tail(fs, j);
        assert(write_fields(fs, k).0 + tail_bytes(fs, k) =~= write_fields(fs, j).0 + (write_field(
            fs[j as int],
        ).0 + tail_bytes(fs, k)));
    }
}

proof fn lemma_read_tail(kinds: Seq<FieldKind>, fs: Seq<Field>, i: nat, t: Seq<u8>)
    requires
        fits(kinds, fs),
        i <= fs.len(),
        forall|j: int| i <= j < fs.len() ==> #[trigger] write_field(fs[j]).1,
        fields_read_back(fs),
        trailing_bytes_last(fs, t),
    ensures
        read_fields(kinds, tail_bytes(fs, i) + t, i) == (Some(fs.skip(i as int)), tail_bytes(
            fs,
            i,
        ).len()),
        !layout_may_overflow(kinds, tail_bytes(fs, i) + t, i),
    decreases fs.len() - i,
{
    if i == fs.len() {
        assert(fs.skip(i as int) =~= Seq::<Field>::empty());
    } else {
        let f = fs[i as int];
        let b = write_field(f).0;
        let rest = tail_bytes(fs, i + 1);
        let s = tail_bytes(fs, i) + t;
        assert(s =~= b + (rest + t));
        assert(write_field(fs[i as int]).1);
        assert(field_reads_back(fs[i as int]));
        if f is RemainingBytes {
            assert(i == fs.len() - 1 && t.len() == 0);
            assert(rest =~= Seq::<u8>::empty());
            assert(rest + t =~= Seq::<u8>::empty());
        }
        lemma_field_roundtrip(f, rest + t);
        assert(kinds[i as int] == kind_of(f));
        assert(s.skip(b.len() as int) =~= rest + t);
        lemma_read_tail(kinds, fs, i + 1, t);
        assert(seq![f] + fs.skip((i + 1) as int) =~= fs.skip(i as int));
    }
}

/// Fields that are written, each of which reads back, read back as themselves
/// under their layout, consuming exactly the bytes written, whatever follows
/// them (nothing, when they end with trailing bytes); and reading them asks for no more memory than a vector may hold.
pub proof fn lemma_layout_roundtrip(kinds: Seq<FieldKind>, fs: Seq<Field>, t: Seq<u8>)
    requires
        fits(kinds, fs),
        write_fields(fs, fs.len()).1,
        fields_read_back(fs),
        trailing_bytes_last(fs, t),
    ensures
        read_fields(kinds, write_fields(fs, fs.len()).0 + t, 0) == (
            Some(fs),
            write_fields(fs, fs.len()).0.len(),
        ),
        !layout_may_overflow(kinds, write_fields(fs, fs.len()).0 + t, 0),
{
    assert forall|j: int| 0 <= j < fs.len() implies #[trigger] write_field(fs[j]).1 by {
        lemma_write_fields_ok_each(fs, fs.len(), j as nat);
    }
    lemma_write_fields_tail(fs, fs.len());
    assert(tail_bytes(fs, fs.len()) =~= Seq::<u8>::empty());
    assert(write_fields(fs, fs.len()).0 + Seq::<u8>::empty() =~= write_fields(fs, fs.len()).0);
    lemma_read_tail(kinds, fs, 0, t);
    assert(fs.skip(0) =~= fs);
}

/// A packet that is written reads back with the same field values and
/// consumes exactly the bytes written, whatever follows them (nothing, when it
/// ends with trailing bytes), when none of its fields is an oversized list.
pub proof fn lemma_packet_roundtrip<P: Packet>(p: P, t: Seq<u8>)
    requires
        write_fields(p.fields(), p.fields().len()).1,
        fields_read_back(p.fields()),
        trailing_bytes_last(p.fields(), t),
    ensures
        read_fields(P::layout(), write_fields(p.fields(), p.fields().len()).0 + t, 0) == (
            Some(p.fields()),
            write_fields(p.fields(), p.fields().len()).0.len(),
        ),
        !layout_may_overflow(P::layout(), write_fields(p.fields(), p.fields().len()).0 + t, 0),
{
    p.lemma_fields_fit();
    lemma_layout_roundtrip(P::layout(), p.fields(), t);
}

/// A packet of a family that is written reads back, under its id, with the
/// same field values, consuming exactly the bytes written, whatever follows
/// (nothing, when it ends with trailing bytes), when none of its fields is an
/// oversized list.
pub proof fn lemma_protocol_packet_roundtrip<P: ProtocolPacket>(p: P, t: Seq<u8>)
    requires
        write_fields(p.spec_fields(), p.spec_fields().len()).1,
        fields_read_back(p.spec_fields()),
        trailing_bytes_last(p.spec_fields(), t),
    ensures
        P::spec_layout(p.spec_id()) matches Some(k) && read_fields(
            k,
            write_fields(p.spec_fields(), p.spec_fields().len()).0 + t,
            0,
        ) == (Some(p.spec_fields()), write_fields(p.spec_fields(), p.spec_fields().len()).0.len())
            && !layout_may_overflow(
            k,
            write_fields(p.spec_fields(), p.spec_fields().len()).0 + t,
            0,
        ),
{
    p.lemma_layout();
    let k = P::spec_layout(p.spec_id())->0;
    lemma_layout_roundtrip(k, p.spec_fields(), t);
}

} // verus!
