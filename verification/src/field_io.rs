//! Reading and writing single fields, stated against the layout model.

use vstd::prelude::*;

use crate::buffer::{Buffer, WriteError, extend_bytes};
use crate::field::{
    Field, FieldKind, count_overflows, read_field, read_flagged_value, read_remaining_bytes,
    read_varint_list, read_varlong_list, write_field, write_flagged_value,
    write_varint_list, write_varlong_list,
};
use crate::read::Cursor;
use crate::types::intention::ClientIntention;
use crate::types::known_pack::KnownPack;
use crate::types::property::Property;
use crate::types::uuid::Uuid;
use crate::varint::{VarI32, VarI64};

verus! {

/// Moving from cursor `c0` to `c1` read one field of `kind`, yielding `got`.
pub open spec fn read_as(kind: FieldKind, c0: Cursor, c1: Cursor, got: Option<Field>) -> bool {
    &&& c1.data() == c0.data()
    &&& c1.pos() == c0.pos() + read_field(kind, c0.rest()).1
    &&& c1.rest() == c0.rest().skip(read_field(kind, c0.rest()).1 as int)
    &&& got == read_field(kind, c0.rest()).0
}

/// Going from `before` to `after` wrote the field `f`, with the result `res`.
pub open spec fn wrote(f: Field, before: Seq<u8>, after: Seq<u8>, res: Result<(), WriteError>) -> bool {
    &&& after == before + write_field(f).0
    &&& (res is Ok <==> write_field(f).1)
}

/// Reads a `VarInt` field.
pub fn read_varint_field(buffer: &mut Cursor) -> (res: Option<i32>)
    ensures
        read_as(
            FieldKind::VarInt,
            *old(buffer),
            *final(buffer),
            if let Some(v) = res {
                Some(Field::VarInt(v))
            } else {
                None
            },
        ),
{
    proof {
        reveal(read_field);
    }
    <i32 as VarI32>::read_var(buffer)
}

/// Writes a `VarInt` field.
pub fn write_varint_field(v: i32, buffer: &mut Vec<u8>) -> (res: Result<(), WriteError>)
    ensures
        wrote(Field::VarInt(v), old(buffer)@, final(buffer)@, res),
{
    proof {
        reveal(write_field);
    }
    v.write_var(buffer)
}

/// Reads a `VarLong` field.
pub fn read_varlong_field(buffer: &mut Cursor) -> (res: Option<i64>)
    ensures
        read_as(
            FieldKind::VarLong,
            *old(buffer),
            *final(buffer),
            if let Some(v) = res {
                Some(Field::VarLong(v))
            } else {
                None
            },
        ),
{
    proof {
        reveal(read_field);
    }
    <i64 as VarI64>::read_var(buffer)
}

/// Writes a `VarLong` field.
pub fn write_varlong_field(v: i64, buffer: &mut Vec<u8>) -> (res: Result<(), WriteError>)
    ensures
        wrote(Field::VarLong(v), old(buffer)@, final(buffer)@, res),
{
    proof {
        reveal(write_field);
    }
    v.write_var(buffer)
}

/// Reads a byte field.
pub fn read_byte_field(buffer: &mut Cursor) -> (res: Option<i8>)
    ensures
        read_as(
            FieldKind::Byte,
            *old(buffer),
            *final(buffer),
            if let Some(v) = res {
                Some(Field::Byte(v))
            } else {
                None
            },
        ),
{
    proof {
        reveal(read_field);
    }
    <i8 as Buffer>::read_buf(buffer)
}

/// Writes a byte field.
pub fn write_byte_field(v: i8, buffer: &mut Vec<u8>) -> (res: Result<(), WriteError>)
    ensures
        wrote(Field::Byte(v), old(buffer)@, final(buffer)@, res),
{
    proof {
        reveal(write_field);
    }
    v.write_buf(buffer)
}

/// Reads a big-endian `i16` field.
pub fn read_short_field(buffer: &mut Cursor) -> (res: Option<i16>)
    ensures
        read_as(
            FieldKind::Short,
            *old(buffer),
            *final(buffer),
            if let Some(v) = res {
                Some(Field::Short(v))
            } else {
                None
            },
        ),
{
    proof {
        reveal(read_field);
    }
    <i16 as Buffer>::read_buf(buffer)
}

/// Writes a big-endian `i16` field.
pub fn write_short_field(v: i16, buffer: &mut Vec<u8>) -> (res: Result<(), WriteError>)
    ensures
        wrote(Field::Short(v), old(buffer)@, final(buffer)@, res),
{
    proof {
        reveal(write_field);
    }
    v.write_buf(buffer)
}

/// Reads a big-endian `i32` field.
pub fn read_int_field(buffer: &mut Cursor) -> (res: Option<i32>)
    ensures
        read_as(
            FieldKind::Int,
            *old(buffer),
            *final(buffer),
            if let Some(v) = res {
                Some(Field::Int(v))
            } else {
                None
            },
        ),
{
    proof {
        reveal(read_field);
    }
    <i32 as Buffer>::read_buf(buffer)
}

/// Writes a big-endian `i32` field.
pub fn write_int_field(v: i32, buffer: &mut Vec<u8>) -> (res: Result<(), WriteError>)
    ensures
        wrote(Field::Int(v), old(buffer)@, final(buffer)@, res),
{
    proof {
        reveal(write_field);
    }
    v.write_buf(buffer)
}

/// Reads a big-endian `i64` field.
pub fn read_long_field(buffer: &mut Cursor) -> (res: Option<i64>)
    ensures
        read_as(
            FieldKind::Long,
            *old(buffer),
            *final(buffer),
            if let Some(v) = res {
                Some(Field::Long(v))
            } else {
                None
            },
        ),
{
    proof {
        reveal(read_field);
    }
    <i64 as Buffer>::read_buf(buffer)
}

/// Writes a big-endian `i64` field.
pub fn write_long_field(v: i64, buffer: &mut Vec<u8>) -> (res: Result<(), WriteError>)
    ensures
        wrote(Field::Long(v), old(buffer)@, final(buffer)@, res),
{
    proof {
        reveal(write_field);
    }
    v.write_buf(buffer)
}

/// Reads a `bool` field.
pub fn read_bool_field(buffer: &mut Cursor) -> (res: Option<bool>)
    ensures
        read_as(
            FieldKind::Bool,
            *old(buffer),
            *final(buffer),
            if let Some(v) = res {
                Some(Field::Bool(v))
            } else {
                None
            },
        ),
{
    proof {
        reveal(read_field);
    }
    <bool as Buffer>::read_buf(buffer)
}

/// Writes a `bool` field.
pub fn write_bool_field(v: bool, buffer: &mut Vec<u8>) -> (res: Result<(), WriteError>)
    ensures
        wrote(Field::Bool(v), old(buffer)@, final(buffer)@, res),
{
    proof {
        reveal(write_field);
    }
    v.write_buf(buffer)
}

/// Reads a string field.
pub fn read_text_field(buffer: &mut Cursor) -> (res: Option<String>)
    ensures
        read_as(
            FieldKind::Text,
            *old(buffer),
            *final(buffer),
            if let Some(v) = res {
                Some(Field::Text(v.deep_view()))
            } else {
                None
            },
        ),
{
    proof {
        reveal(read_field);
    }
    <String as Buffer>::read_buf(buffer)
}

/// Writes a string field.
pub fn write_text_field(v: &String, buffer: &mut Vec<u8>) -> (res: Result<(), WriteError>)
    ensures
        wrote(Field::Text(v.deep_view()), old(buffer)@, final(buffer)@, res),
{
    proof {
        reveal(write_field);
    }
    v.write_buf(buffer)
}

/// Reads a identifier field.
pub fn read_uuid_field(buffer: &mut Cursor) -> (res: Option<Uuid>)
    ensures
        read_as(
            FieldKind::Uuid,
            *old(buffer),
            *final(buffer),
            if let Some(v) = res {
                Some(Field::Uuid(v.deep_view()))
            } else {
                None
            },
        ),
{
    proof {
        reveal(read_field);
    }
    <Uuid as Buffer>::read_buf(buffer)
}

/// Writes a identifier field.
pub fn write_uuid_field(v: Uuid, buffer: &mut Vec<u8>) -> (res: Result<(), WriteError>)
    ensures
        wrote(Field::Uuid(v.deep_view()), old(buffer)@, final(buffer)@, res),
{
    proof {
        reveal(write_field);
    }
    v.write_buf(buffer)
}

/// Reads a counted byte array field.
pub fn read_byte_array_field(buffer: &mut Cursor) -> (res: Option<Vec<u8>>)
    ensures
        read_as(
            FieldKind::ByteArray,
            *old(buffer),
            *final(buffer),
            if let Some(v) = res {
                Some(Field::ByteArray(v.deep_view()))
            } else {
                None
            },
        ),
{
    proof {
        reveal(read_field);
    }
    <Vec<u8> as Buffer>::read_buf(buffer)
}

/// Writes a counted byte array field.
pub fn write_byte_array_field(v: &Vec<u8>, buffer: &mut Vec<u8>) -> (res: Result<(), WriteError>)
    ensures
        wrote(Field::ByteArray(v.deep_view()), old(buffer)@, final(buffer)@, res),
{
    proof {
        reveal(write_field);
    }
    v.write_buf(buffer)
}

/// Reads a counted list of strings field.
pub fn read_text_list_field(buffer: &mut Cursor) -> (res: Option<Vec<String>>)
    ensures
        read_as(
            FieldKind::TextList,
            *old(buffer),
            *final(buffer),
            if let Some(v) = res {
                Some(Field::TextList(v.deep_view()))
            } else {
                None
            },
        ),
{
    proof {
        reveal(read_field);
    }
    <Vec<String> as Buffer>::read_buf(buffer)
}

/// Writes a counted list of strings field.
pub fn write_text_list_field(v: &Vec<String>, buffer: &mut Vec<u8>) -> (res: Result<(), WriteError>)
    ensures
        wrote(Field::TextList(v.deep_view()), old(buffer)@, final(buffer)@, res),
{
    proof {
        reveal(write_field);
    }
    v.write_buf(buffer)
}

/// Reads a counted list of `VarInt`s field.
pub fn read_varint_list_field(buffer: &mut Cursor) -> (res: Option<Vec<i32>>)
    requires
        !count_overflows(old(buffer).rest(), 4),
    ensures
        read_as(
            FieldKind::VarIntList,
            *old(buffer),
            *final(buffer),
            if let Some(v) = res {
                Some(Field::VarIntList(v@))
            } else {
                None
            },
        ),
{
    proof {
        reveal(read_field);
    }
    read_varint_list(buffer)
}

/// Writes a counted list of `VarInt`s field.
pub fn write_varint_list_field(v: &Vec<i32>, buffer: &mut Vec<u8>) -> (res: Result<(), WriteError>)
    ensures
        wrote(Field::VarIntList(v@), old(buffer)@, final(buffer)@, res),
{
    proof {
        reveal(write_field);
    }
    write_varint_list(v, buffer);
    Ok(())
}

/// Reads a counted list of `VarLong`s field.
pub fn read_varlong_list_field(buffer: &mut Cursor) -> (res: Option<Vec<i64>>)
    requires
        !count_overflows(old(buffer).rest(), 8),
    ensures
        read_as(
            FieldKind::VarLongList,
            *old(buffer),
            *final(buffer),
            if let Some(v) = res {
                Some(Field::VarLongList(v@))
            } else {
                None
            },
        ),
{
    proof {
        reveal(read_field);
    }
    read_varlong_list(buffer)
}

/// Writes a counted list of `VarLong`s field.
pub fn write_varlong_list_field(v: &Vec<i64>, buffer: &mut Vec<u8>) -> (res: Result<(), WriteError>)
    ensures
        wrote(Field::VarLongList(v@), old(buffer)@, final(buffer)@, res),
{
    proof {
        reveal(write_field);
    }
    write_varlong_list(v, buffer);
    Ok(())
}

/// Reads a flagged optional string field.
pub fn read_optional_text_field(buffer: &mut Cursor) -> (res: Option<Option<String>>)
    ensures
        read_as(
            FieldKind::OptionalText,
            *old(buffer),
            *final(buffer),
            if let Some(v) = res {
                Some(Field::OptionalText(v.deep_view()))
            } else {
                None
            },
        ),
{
    proof {
        reveal(read_field);
    }
    read_flagged_value::<String>(buffer)
}

/// Writes a flagged optional string field.
pub fn write_optional_text_field(v: &Option<String>, buffer: &mut Vec<u8>) -> (res: Result<(), WriteError>)
    ensures
        wrote(Field::OptionalText(v.deep_view()), old(buffer)@, final(buffer)@, res),
{
    proof {
        reveal(write_field);
    }
    write_flagged_value(v, buffer)
}

/// Reads a flagged optional identifier field.
pub fn read_optional_uuid_field(buffer: &mut Cursor) -> (res: Option<Option<Uuid>>)
    ensures
        read_as(
            FieldKind::OptionalUuid,
            *old(buffer),
            *final(buffer),
            if let Some(v) = res {
                Some(Field::OptionalUuid(v.deep_view()))
            } else {
                None
            },
        ),
{
    proof {
        reveal(read_field);
    }
    read_flagged_value::<Uuid>(buffer)
}

/// Writes a flagged optional identifier field.
pub fn write_optional_uuid_field(v: &Option<Uuid>, buffer: &mut Vec<u8>) -> (res: Result<(), WriteError>)
    ensures
        wrote(Field::OptionalUuid(v.deep_view()), old(buffer)@, final(buffer)@, res),
{
    proof {
        reveal(write_field);
    }
    write_flagged_value(v, buffer)
}

/// Reads a flagged optional byte array field.
pub fn read_optional_byte_array_field(buffer: &mut Cursor) -> (res: Option<Option<Vec<u8>>>)
    ensures
        read_as(
            FieldKind::OptionalByteArray,
            *old(buffer),
            *final(buffer),
            if let Some(v) = res {
                Some(Field::OptionalByteArray(v.deep_view()))
            } else {
                None
            },
        ),
{
    proof {
        reveal(read_field);
    }
    read_flagged_value::<Vec<u8>>(buffer)
}

/// Writes a flagged optional byte array field.
pub fn write_optional_byte_array_field(v: &Option<Vec<u8>>, buffer: &mut Vec<u8>) -> (res: Result<(), WriteError>)
    ensures
        wrote(Field::OptionalByteArray(v.deep_view()), old(buffer)@, final(buffer)@, res),
{
    proof {
        reveal(write_field);
    }
    write_flagged_value(v, buffer)
}

/// Reads the bytes left in the packet as its last field.
pub fn read_remaining_field(buffer: &mut Cursor) -> (res: Vec<u8>)
    ensures
        read_as(FieldKind::RemainingBytes, *old(buffer), *final(buffer), Some(Field::RemainingBytes(res@))),
{
    proof {
        reveal(read_field);
    }
    read_remaining_bytes(buffer)
}

/// Writes a trailing byte field: the bytes alone.
pub fn write_remaining_field(v: &Vec<u8>, buffer: &mut Vec<u8>) -> (res: Result<(), WriteError>)
    ensures
        wrote(Field::RemainingBytes(v@), old(buffer)@, final(buffer)@, res),
{
    proof {
        reveal(write_field);
    }
    extend_bytes(buffer, v.as_slice());
    Ok(())
}

/// Reads a big-endian `u16` field.
pub fn read_ushort_field(buffer: &mut Cursor) -> (res: Option<u16>)
    ensures
        read_as(
            FieldKind::UShort,
            *old(buffer),
            *final(buffer),
            if let Some(v) = res {
                Some(Field::UShort(v))
            } else {
                None
            },
        ),
{
    proof {
        reveal(read_field);
    }
    <u16 as Buffer>::read_buf(buffer)
}

/// Writes a big-endian `u16` field.
pub fn write_ushort_field(v: u16, buffer: &mut Vec<u8>) -> (res: Result<(), WriteError>)
    ensures
        wrote(Field::UShort(v), old(buffer)@, final(buffer)@, res),
{
    proof {
        reveal(write_field);
    }
    v.write_buf(buffer)
}

/// Reads a client intention field.
pub fn read_intention_field(buffer: &mut Cursor) -> (res: Option<ClientIntention>)
    ensures
        read_as(
            FieldKind::Intention,
            *old(buffer),
            *final(buffer),
            if let Some(v) = res {
                Some(Field::Intention(v))
            } else {
                None
            },
        ),
{
    proof {
        reveal(read_field);
    }
    <ClientIntention as Buffer>::read_buf(buffer)
}

/// Writes a client intention field.
pub fn write_intention_field(v: ClientIntention, buffer: &mut Vec<u8>) -> (res: Result<(), WriteError>)
    ensures
        wrote(Field::Intention(v), old(buffer)@, final(buffer)@, res),
{
    proof {
        reveal(write_field);
    }
    v.write_buf(buffer)
}

/// Reads a counted list of profile properties field.
pub fn read_property_list_field(buffer: &mut Cursor) -> (res: Option<Vec<Property>>)
    ensures
        read_as(
            FieldKind::PropertyList,
            *old(buffer),
            *final(buffer),
            if let Some(v) = res {
                Some(Field::PropertyList(v.deep_view()))
            } else {
                None
            },
        ),
{
    proof {
        reveal(read_field);
    }
    <Vec<Property> as Buffer>::read_buf(buffer)
}

/// Writes a counted list of profile properties field.
pub fn write_property_list_field(v: &Vec<Property>, buffer: &mut Vec<u8>) -> (res: Result<(), WriteError>)
    ensures
        wrote(Field::PropertyList(v.deep_view()), old(buffer)@, final(buffer)@, res),
{
    proof {
        reveal(write_field);
    }
    v.write_buf(buffer)
}

/// Reads a one-byte `u8` field.
pub fn read_ubyte_field(buffer: &mut Cursor) -> (res: Option<u8>)
    ensures
        read_as(
            FieldKind::UByte,
            *old(buffer),
            *final(buffer),
            if let Some(v) = res {
                Some(Field::UByte(v))
            } else {
                None
            },
        ),
{
    proof {
        reveal(read_field);
    }
    <u8 as Buffer>::read_buf(buffer)
}

/// Writes a one-byte `u8` field.
pub fn write_ubyte_field(v: u8, buffer: &mut Vec<u8>) -> (res: Result<(), WriteError>)
    ensures
        wrote(Field::UByte(v), old(buffer)@, final(buffer)@, res),
{
    proof {
        reveal(write_field);
    }
    v.write_buf(buffer)
}

/// Reads a `VarInt` code below `bound`; a code out of range fails the read.
pub fn read_code_field(buffer: &mut Cursor, bound: u8) -> (res: Option<i32>)
    ensures
        read_as(
            FieldKind::Code(bound),
            *old(buffer),
            *final(buffer),
            if let Some(v) = res {
                Some(Field::Code(bound, v))
            } else {
                None
            },
        ),
        res matches Some(v) ==> 0 <= v < bound,
{
    proof {
        reveal(read_field);
    }
    match <i32 as VarI32>::read_var(buffer) {
        Some(v) => if 0 <= v && v < bound as i32 {
            Some(v)
        } else {
            None
        },
        None => None,
    }
}

/// Writes a `VarInt` code.
pub fn write_code_field(bound: u8, v: i32, buffer: &mut Vec<u8>) -> (res: Result<(), WriteError>)
    ensures
        wrote(Field::Code(bound, v), old(buffer)@, final(buffer)@, res),
{
    proof {
        reveal(write_field);
    }
    v.write_var(buffer)
}

/// Reads a counted list of known packs.
pub fn read_known_pack_list_field(buffer: &mut Cursor) -> (res: Option<Vec<KnownPack>>)
    ensures
        read_as(
            FieldKind::KnownPackList,
            *old(buffer),
            *final(buffer),
            if let Some(v) = res {
                Some(Field::KnownPackList(v.deep_view()))
            } else {
                None
            },
        ),
{
    proof {
        reveal(read_field);
    }
    <Vec<KnownPack> as Buffer>::read_buf(buffer)
}

/// Writes a counted list of known packs.
pub fn write_known_pack_list_field(v: &Vec<KnownPack>, buffer: &mut Vec<u8>) -> (res: Result<(), WriteError>)
    ensures
        wrote(Field::KnownPackList(v.deep_view()), old(buffer)@, final(buffer)@, res),
{
    proof {
        reveal(write_field);
    }
    v.write_buf(buffer)
}

} // verus!
