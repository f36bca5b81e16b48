//! The wire form of packets whose fields are easy to swap, byte for byte.

use vstd::prelude::*;

use crate::field::{Field, read_fields, write_field, write_fields};
use crate::packet::Packet;
use crate::packets::play::{
    ClientsideChunkCacheCenter, ClientsideUpdateEntityRot, lemma_clientside_chunk_cache_center_reads_back,
    lemma_clientside_chunk_cache_center_wire, lemma_clientside_update_entity_rot_reads_back,
    lemma_clientside_update_entity_rot_wire,
};
use crate::roundtrip::fields_read_back;
use crate::varint::spec_varint;

verus! {

/// The on-ground flag as a byte.
pub open spec fn flag_byte(b: bool) -> u8 {
    if b {
        1
    } else {
        0
    }
}

/// An entity's rotation on the wire: the entity id as a `VarInt`, then the
/// yaw byte, then the pitch byte, then the on-ground flag. Reading those bytes
/// gives the id, the yaw and the pitch back in that order.
pub proof fn lemma_entity_rotation_bytes(entity_id: i32, yaw: i8, pitch: i8, on_ground: bool, t: Seq<u8>)
    ensures
        write_fields(
            (ClientsideUpdateEntityRot { entity_id, yaw_angle: yaw, pitch_angle: pitch, on_ground }).fields(),
            4,
        ) == (spec_varint(entity_id) + seq![yaw as u8, pitch as u8, flag_byte(on_ground)], true),
        read_fields(
            ClientsideUpdateEntityRot::layout(),
            spec_varint(entity_id) + seq![yaw as u8, pitch as u8, flag_byte(on_ground)] + t,
            0,
        ) == (
            Some(
                seq![
                    Field::VarInt(entity_id),
                    Field::Byte(yaw),
                    Field::Byte(pitch),
                    Field::Bool(on_ground),
                ],
            ),
            spec_varint(entity_id).len() + 3,
        ),
        (ClientsideUpdateEntityRot { entity_id, yaw_angle: yaw, pitch_angle: pitch, on_ground }).fields()
            == seq![
            Field::VarInt(entity_id),
            Field::Byte(yaw),
            Field::Byte(pitch),
            Field::Bool(on_ground),
        ],
{
    let p = ClientsideUpdateEntityRot { entity_id, yaw_angle: yaw, pitch_angle: pitch, on_ground };
    reveal(write_field);
    assert(fields_read_back(p.fields())) by {
        reveal(write_field);
    }
    lemma_clientside_update_entity_rot_wire(entity_id, yaw, pitch, on_ground);
    lemma_clientside_update_entity_rot_reads_back(entity_id, yaw, pitch, on_ground, t);
    assert(write_field(Field::VarInt(entity_id)).0 == spec_varint(entity_id));
    assert(write_field(Field::Byte(yaw)).0 == seq![yaw as u8]);
    assert(write_field(Field::Byte(pitch)).0 == seq![pitch as u8]);
    assert(write_field(Field::Bool(on_ground)).0 == seq![flag_byte(on_ground)]);
    assert(write_field(Field::VarInt(entity_id)).0 + write_field(Field::Byte(yaw)).0 + write_field(
        Field::Byte(pitch),
    ).0 + write_field(Field::Bool(on_ground)).0 =~= spec_varint(entity_id) + seq![
        yaw as u8,
        pitch as u8,
        flag_byte(on_ground),
    ]);
}

/// The chunk at the center of the view on the wire: its x as a `VarInt`,
/// then its z as a `VarInt`. Reading those bytes gives x, then z.
pub proof fn lemma_chunk_center_bytes(chunk_x: i32, chunk_z: i32, t: Seq<u8>)
    ensures
        write_fields((ClientsideChunkCacheCenter { chunk_x, chunk_z }).fields(), 2) == (spec_varint(
            chunk_x,
        ) + spec_varint(chunk_z), true),
        read_fields(
            ClientsideChunkCacheCenter::layout(),
            spec_varint(chunk_x) + spec_varint(chunk_z) + t,
            0,
        ) == (
            Some(seq![Field::VarInt(chunk_x), Field::VarInt(chunk_z)]),
            spec_varint(chunk_x).len() + spec_varint(chunk_z).len(),
        ),
        (ClientsideChunkCacheCenter { chunk_x, chunk_z }).fields() == seq![
            Field::VarInt(chunk_x),
            Field::VarInt(chunk_z),
        ],
{
    reveal(write_field);
    lemma_clientside_chunk_cache_center_wire(chunk_x, chunk_z);
    lemma_clientside_chunk_cache_center_reads_back(chunk_x, chunk_z, t);
    assert(write_field(Field::VarInt(chunk_x)).0 == spec_varint(chunk_x));
    assert(write_field(Field::VarInt(chunk_z)).0 == spec_varint(chunk_z));
}

} // verus!
