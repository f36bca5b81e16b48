use vstd::prelude::*;

use crate::buffer::WriteError;
use crate::field::{Field, FieldKind, layout_may_overflow, lemma_write_fields_stopped, read_fields, write_field, write_fields};
use crate::field_io::{read_bool_field, read_byte_array_field, read_byte_field, read_int_field, read_long_field, read_optional_byte_array_field, read_optional_text_field, read_short_field, read_text_field, read_text_list_field, read_uuid_field, read_varint_field, read_varint_list_field, read_varlong_field, read_varlong_list_field, write_bool_field, write_byte_array_field, write_byte_field, write_int_field, write_long_field, write_optional_byte_array_field, write_optional_text_field, write_short_field, write_text_field, write_text_list_field, write_uuid_field, write_varint_field, write_varint_list_field, write_varlong_field, write_varlong_list_field};
use crate::packet::Packet;
use crate::read::Cursor;
use crate::roundtrip::{fields_read_back, lemma_packet_roundtrip, trailing_bytes_last};
use crate::types::uuid::Uuid;

verus! {

/// Keep-alive, sent both ways.
#[derive(Clone, Debug, PartialEq)]
pub struct MultisideKeepAlive {
    pub id: i64,
}

impl Packet for MultisideKeepAlive {
    open spec fn layout() -> Seq<FieldKind> {
        seq![FieldKind::Long]
    }

    open spec fn fields(&self) -> Seq<Field> {
        seq![Field::Long(self.id)]
    }

    proof fn lemma_fields_fit(&self) {
    }

    fn read(buffer: &mut Cursor) -> (res: Option<Self>) {
        proof {
            reveal_with_fuel(read_fields, 2);
        }
        let id = match read_long_field(buffer) {
            Some(v) => v,
            None => return None,
        };
        Some(MultisideKeepAlive { id })
    }

    fn write(&self, buffer: &mut Vec<u8>) -> (res: Result<(), WriteError>) {
        let ghost fs = self.fields();
        assert(write_fields(fs, 0) == (Seq::<u8>::empty(), true));
        let r = write_long_field(self.id, buffer);
        assert(buffer@ =~= old(buffer)@ + write_fields(fs, 1).0);
        if r.is_err() {
            proof {
                lemma_write_fields_stopped(fs, 1, 1);
            }
            return r;
        }
        Ok(())
    }
}

/// Writing a `MultisideKeepAlive` puts its fields on the wire one after another, in this
/// order: `id`.
#[verifier::spinoff_prover]
pub proof fn lemma_multiside_keep_alive_wire(id: i64)
    ensures
        write_fields((MultisideKeepAlive { id }).fields(), 1) == (write_field(Field::Long(id)).0, true),
{
    reveal_with_fuel(write_fields, 2);
    reveal(write_field);
}

/// Reading the fields of a `MultisideKeepAlive` written one after another, in the order
/// `id`, gives back a packet with those values, whatever
/// follows (nothing, after trailing bytes), when no list is oversized.
#[verifier::spinoff_prover]
pub proof fn lemma_multiside_keep_alive_reads_back(id: i64, t: Seq<u8>)
    requires
        fields_read_back((MultisideKeepAlive { id }).fields()),
        trailing_bytes_last((MultisideKeepAlive { id }).fields(), t),
    ensures
        read_fields(MultisideKeepAlive::layout(), write_field(Field::Long(id)).0 + t, 0) == (Some((MultisideKeepAlive { id }).fields()), (write_field(Field::Long(id)).0).len()),
{
    lemma_multiside_keep_alive_wire(id);
    lemma_packet_roundtrip((MultisideKeepAlive { id }), t);
}

/// A ping from the server.
#[derive(Clone, Debug, PartialEq)]
pub struct ClientsidePing {
    pub id: i32,
}

impl Packet for ClientsidePing {
    open spec fn layout() -> Seq<FieldKind> {
        seq![FieldKind::Int]
    }

    open spec fn fields(&self) -> Seq<Field> {
        seq![Field::Int(self.id)]
    }

    proof fn lemma_fields_fit(&self) {
    }

    fn read(buffer: &mut Cursor) -> (res: Option<Self>) {
        proof {
            reveal_with_fuel(read_fields, 2);
        }
        let id = match read_int_field(buffer) {
            Some(v) => v,
            None => return None,
        };
        Some(ClientsidePing { id })
    }

    fn write(&self, buffer: &mut Vec<u8>) -> (res: Result<(), WriteError>) {
        let ghost fs = self.fields();
        assert(write_fields(fs, 0) == (Seq::<u8>::empty(), true));
        let r = write_int_field(self.id, buffer);
        assert(buffer@ =~= old(buffer)@ + write_fields(fs, 1).0);
        if r.is_err() {
            proof {
                lemma_write_fields_stopped(fs, 1, 1);
            }
            return r;
        }
        Ok(())
    }
}

/// Writing a `ClientsidePing` puts its fields on the wire one after another, in this
/// order: `id`.
#[verifier::spinoff_prover]
pub proof fn lemma_clientside_ping_wire(id: i32)
    ensures
        write_fields((ClientsidePing { id }).fields(), 1) == (write_field(Field::Int(id)).0, true),
{
    reveal_with_fuel(write_fields, 2);
    reveal(write_field);
}

/// Reading the fields of a `ClientsidePing` written one after another, in the order
/// `id`, gives back a packet with those values, whatever
/// follows (nothing, after trailing bytes), when no list is oversized.
#[verifier::spinoff_prover]
pub proof fn lemma_clientside_ping_reads_back(id: i32, t: Seq<u8>)
    requires
        fields_read_back((ClientsidePing { id }).fields()),
        trailing_bytes_last((ClientsidePing { id }).fields(), t),
    ensures
        read_fields(ClientsidePing::layout(), write_field(Field::Int(id)).0 + t, 0) == (Some((ClientsidePing { id }).fields()), (write_field(Field::Int(id)).0).len()),
{
    lemma_clientside_ping_wire(id);
    lemma_packet_roundtrip((ClientsidePing { id }), t);
}

/// Answer to a ping request.
#[derive(Clone, Debug, PartialEq)]
pub struct ClientsidePingResponse {
    pub timestamp: i64,
}

impl Packet for ClientsidePingResponse {
    open spec fn layout() -> Seq<FieldKind> {
        seq![FieldKind::Long]
    }

    open spec fn fields(&self) -> Seq<Field> {
        seq![Field::Long(self.timestamp)]
    }

    proof fn lemma_fields_fit(&self) {
    }

    fn read(buffer: &mut Cursor) -> (res: Option<Self>) {
        proof {
            reveal_with_fuel(read_fields, 2);
        }
        let timestamp = match read_long_field(buffer) {
            Some(v) => v,
            None => return None,
        };
        Some(ClientsidePingResponse { timestamp })
    }

    fn write(&self, buffer: &mut Vec<u8>) -> (res: Result<(), WriteError>) {
        let ghost fs = self.fields();
        assert(write_fields(fs, 0) == (Seq::<u8>::empty(), true));
        let r = write_long_field(self.timestamp, buffer);
        assert(buffer@ =~= old(buffer)@ + write_fields(fs, 1).0);
        if r.is_err() {
            proof {
                lemma_write_fields_stopped(fs, 1, 1);
            }
            return r;
        }
        Ok(())
    }
}

/// Writing a `ClientsidePingResponse` puts its fields on the wire one after another, in this
/// order: `timestamp`.
#[verifier::spinoff_prover]
pub proof fn lemma_clientside_ping_response_wire(timestamp: i64)
    ensures
        write_fields((ClientsidePingResponse { timestamp }).fields(), 1) == (write_field(Field::Long(timestamp)).0, true),
{
    reveal_with_fuel(write_fields, 2);
    reveal(write_field);
}

/// Reading the fields of a `ClientsidePingResponse` written one after another, in the order
/// `timestamp`, gives back a packet with those values, whatever
/// follows (nothing, after trailing bytes), when no list is oversized.
#[verifier::spinoff_prover]
pub proof fn lemma_clientside_ping_response_reads_back(timestamp: i64, t: Seq<u8>)
    requires
        fields_read_back((ClientsidePingResponse { timestamp }).fields()),
        trailing_bytes_last((ClientsidePingResponse { timestamp }).fields(), t),
    ensures
        read_fields(ClientsidePingResponse::layout(), write_field(Field::Long(timestamp)).0 + t, 0) == (Some((ClientsidePingResponse { timestamp }).fields()), (write_field(Field::Long(timestamp)).0).len()),
{
    lemma_clientside_ping_response_wire(timestamp);
    lemma_packet_roundtrip((ClientsidePingResponse { timestamp }), t);
}

/// An entity moved.
#[derive(Clone, Debug, PartialEq)]
pub struct ClientsideUpdateEntityPos {
    pub entity_id: i32,
    pub delta_x: i16,
    pub delta_y: i16,
    pub delta_z: i16,
    pub on_ground: bool,
}

impl Packet for ClientsideUpdateEntityPos {
    open spec fn layout() -> Seq<FieldKind> {
        seq![FieldKind::VarInt, FieldKind::Short, FieldKind::Short, FieldKind::Short, FieldKind::Bool]
    }

    open spec fn fields(&self) -> Seq<Field> {
        seq![Field::VarInt(self.entity_id), Field::Short(self.delta_x), Field::Short(self.delta_y), Field::Short(self.delta_z), Field::Bool(self.on_ground)]
    }

    proof fn lemma_fields_fit(&self) {
    }

    fn read(buffer: &mut Cursor) -> (res: Option<Self>) {
        proof {
            reveal_with_fuel(read_fields, 6);
        }
        let entity_id = match read_varint_field(buffer) {
            Some(v) => v,
            None => return None,
        };
        let delta_x = match read_short_field(buffer) {
            Some(v) => v,
            None => return None,
        };
        let delta_y = match read_short_field(buffer) {
            Some(v) => v,
            None => return None,
        };
        let delta_z = match read_short_field(buffer) {
            Some(v) => v,
            None => return None,
        };
        let on_ground = match read_bool_field(buffer) {
            Some(v) => v,
            None => return None,
        };
        Some(ClientsideUpdateEntityPos { entity_id, delta_x, delta_y, delta_z, on_ground })
    }

    fn write(&self, buffer: &mut Vec<u8>) -> (res: Result<(), WriteError>) {
        let ghost fs = self.fields();
        assert(write_fields(fs, 0) == (Seq::<u8>::empty(), true));
        let r = write_varint_field(self.entity_id, buffer);
        assert(buffer@ =~= old(buffer)@ + write_fields(fs, 1).0);
        if r.is_err() {
            proof {
                lemma_write_fields_stopped(fs, 1, 5);
            }
            return r;
        }
        let r = write_short_field(self.delta_x, buffer);
        assert(buffer@ =~= old(buffer)@ + write_fields(fs, 2).0);
        if r.is_err() {
            proof {
                lemma_write_fields_stopped(fs, 2, 5);
            }
            return r;
        }
        let r = write_short_field(self.delta_y, buffer);
        assert(buffer@ =~= old(buffer)@ + write_fields(fs, 3).0);
        if r.is_err() {
            proof {
                lemma_write_fields_stopped(fs, 3, 5);
            }
            return r;
        }
        let r = write_short_field(self.delta_z, buffer);
        assert(buffer@ =~= old(buffer)@ + write_fields(fs, 4).0);
        if r.is_err() {
            proof {
                lemma_write_fields_stopped(fs, 4, 5);
            }
            return r;
        }
        let r = write_bool_field(self.on_ground, buffer);
        assert(buffer@ =~= old(buffer)@ + write_fields(fs, 5).0);
        if r.is_err() {
            proof {
                lemma_write_fields_stopped(fs, 5, 5);
            }
            return r;
        }
        Ok(())
    }
}

/// Writing a `ClientsideUpdateEntityPos` puts its fields on the wire one after another, in this
/// order: `entity_id`, `delta_x`, `delta_y`, `delta_z`, `on_ground`.
#[verifier::spinoff_prover]
pub proof fn lemma_clientside_update_entity_pos_wire(entity_id: i32, delta_x: i16, delta_y: i16, delta_z: i16, on_ground: bool)
    ensures
        write_fields((ClientsideUpdateEntityPos { entity_id, delta_x, delta_y, delta_z, on_ground }).fields(), 5) == (write_field(Field::VarInt(entity_id)).0 + write_field(Field::Short(delta_x)).0 + write_field(Field::Short(delta_y)).0 + write_field(Field::Short(delta_z)).0 + write_field(Field::Bool(on_ground)).0, true),
{
    reveal_with_fuel(write_fields, 6);
    reveal(write_field);
}

/// Reading the fields of a `ClientsideUpdateEntityPos` written one after another, in the order
/// `entity_id`, `delta_x`, `delta_y`, `delta_z`, `on_ground`, gives back a packet with those values, whatever
/// follows (nothing, after trailing bytes), when no list is oversized.
#[verifier::spinoff_prover]
pub proof fn lemma_clientside_update_entity_pos_reads_back(entity_id: i32, delta_x: i16, delta_y: i16, delta_z: i16, on_ground: bool, t: Seq<u8>)
    requires
        fields_read_back((ClientsideUpdateEntityPos { entity_id, delta_x, delta_y, delta_z, on_ground }).fields()),
        trailing_bytes_last((ClientsideUpdateEntityPos { entity_id, delta_x, delta_y, delta_z, on_ground }).fields(), t),
    ensures
        read_fields(ClientsideUpdateEntityPos::layout(), write_field(Field::VarInt(entity_id)).0 + write_field(Field::Short(delta_x)).0 + write_field(Field::Short(delta_y)).0 + write_field(Field::Short(delta_z)).0 + write_field(Field::Bool(on_ground)).0 + t, 0) == (Some((ClientsideUpdateEntityPos { entity_id, delta_x, delta_y, delta_z, on_ground }).fields()), (write_field(Field::VarInt(entity_id)).0 + write_field(Field::Short(delta_x)).0 + write_field(Field::Short(delta_y)).0 + write_field(Field::Short(delta_z)).0 + write_field(Field::Bool(on_ground)).0).len()),
{
    lemma_clientside_update_entity_pos_wire(entity_id, delta_x, delta_y, delta_z, on_ground);
    lemma_packet_roundtrip((ClientsideUpdateEntityPos { entity_id, delta_x, delta_y, delta_z, on_ground }), t);
}

/// An entity turned.
#[derive(Clone, Debug, PartialEq)]
pub struct ClientsideUpdateEntityRot {
    pub entity_id: i32,
    pub yaw_angle: i8,
    pub pitch_angle: i8,
    pub on_ground: bool,
}

impl Packet for ClientsideUpdateEntityRot {
    open spec fn layout() -> Seq<FieldKind> {
        seq![FieldKind::VarInt, FieldKind::Byte, FieldKind::Byte, FieldKind::Bool]
    }

    open spec fn fields(&self) -> Seq<Field> {
        seq![Field::VarInt(self.entity_id), Field::Byte(self.yaw_angle), Field::Byte(self.pitch_angle), Field::Bool(self.on_ground)]
    }

    proof fn lemma_fields_fit(&self) {
    }

    fn read(buffer: &mut Cursor) -> (res: Option<Self>) {
        proof {
            reveal_with_fuel(read_fields, 5);
        }
        let entity_id = match read_varint_field(buffer) {
            Some(v) => v,
            None => return None,
        };
        let yaw_angle = match read_byte_field(buffer) {
            Some(v) => v,
            None => return None,
        };
        let pitch_angle = match read_byte_field(buffer) {
            Some(v) => v,
            None => return None,
        };
        let on_ground = match read_bool_field(buffer) {
            Some(v) => v,
            None => return None,
        };
        Some(ClientsideUpdateEntityRot { entity_id, yaw_angle, pitch_angle, on_ground })
    }

    fn write(&self, buffer: &mut Vec<u8>) -> (res: Result<(), WriteError>) {
        let ghost fs = self.fields();
        assert(write_fields(fs, 0) == (Seq::<u8>::empty(), true));
        let r = write_varint_field(self.entity_id, buffer);
        assert(buffer@ =~= old(buffer)@ + write_fields(fs, 1).0);
        if r.is_err() {
            proof {
                lemma_write_fields_stopped(fs, 1, 4);
            }
            return r;
        }
        let r = write_byte_field(self.yaw_angle, buffer);
        assert(buffer@ =~= old(buffer)@ + write_fields(fs, 2).0);
        if r.is_err() {
            proof {
                lemma_write_fields_stopped(fs, 2, 4);
            }
            return r;
        }
        let r = write_byte_field(self.pitch_angle, buffer);
        assert(buffer@ =~= old(buffer)@ + write_fields(fs, 3).0);
        if r.is_err() {
            proof {
                lemma_write_fields_stopped(fs, 3, 4);
            }
            return r;
        }
        let r = write_bool_field(self.on_ground, buffer);
        assert(buffer@ =~= old(buffer)@ + write_fields(fs, 4).0);
        if r.is_err() {
            proof {
                lemma_write_fields_stopped(fs, 4, 4);
            }
            return r;
        }
        Ok(())
    }
}

/// Writing a `ClientsideUpdateEntityRot` puts its fields on the wire one after another, in this
/// order: `entity_id`, `yaw_angle`, `pitch_angle`, `on_ground`.
#[verifier::spinoff_prover]
pub proof fn lemma_clientside_update_entity_rot_wire(entity_id: i32, yaw_angle: i8, pitch_angle: i8, on_ground: bool)
    ensures
        write_fields((ClientsideUpdateEntityRot { entity_id, yaw_angle, pitch_angle, on_ground }).fields(), 4) == (write_field(Field::VarInt(entity_id)).0 + write_field(Field::Byte(yaw_angle)).0 + write_field(Field::Byte(pitch_angle)).0 + write_field(Field::Bool(on_ground)).0, true),
{
    reveal_with_fuel(write_fields, 5);
    reveal(write_field);
}

/// Reading the fields of a `ClientsideUpdateEntityRot` written one after another, in the order
/// `entity_id`, `yaw_angle`, `pitch_angle`, `on_ground`, gives back a packet with those values, whatever
/// follows (nothing, after trailing bytes), when no list is oversized.
#[verifier::spinoff_prover]
pub proof fn lemma_clientside_update_entity_rot_reads_back(entity_id: i32, yaw_angle: i8, pitch_angle: i8, on_ground: bool, t: Seq<u8>)
    requires
        fields_read_back((ClientsideUpdateEntityRot { entity_id, yaw_angle, pitch_angle, on_ground }).fields()),
        trailing_bytes_last((ClientsideUpdateEntityRot { entity_id, yaw_angle, pitch_angle, on_ground }).fields(), t),
    ensures
        read_fields(ClientsideUpdateEntityRot::layout(), write_field(Field::VarInt(entity_id)).0 + write_field(Field::Byte(yaw_angle)).0 + write_field(Field::Byte(pitch_angle)).0 + write_field(Field::Bool(on_ground)).0 + t, 0) == (Some((ClientsideUpdateEntityRot { entity_id, yaw_angle, pitch_angle, on_ground }).fields()), (write_field(Field::VarInt(entity_id)).0 + write_field(Field::Byte(yaw_angle)).0 + write_field(Field::Byte(pitch_angle)).0 + write_field(Field::Bool(on_ground)).0).len()),
{
    lemma_clientside_update_entity_rot_wire(entity_id, yaw_angle, pitch_angle, on_ground);
    lemma_packet_roundtrip((ClientsideUpdateEntityRot { entity_id, yaw_angle, pitch_angle, on_ground }), t);
}

/// An entity moved and turned.
#[derive(Clone, Debug, PartialEq)]
pub struct ClientsideUpdateEntityPosRot {
    pub entity_id: i32,
    pub delta_x: i16,
    pub delta_y: i16,
    pub delta_z: i16,
    pub yaw_angle: i8,
    pub pitch_angle: i8,
    pub on_ground: bool,
}

impl Packet for ClientsideUpdateEntityPosRot {
    open spec fn layout() -> Seq<FieldKind> {
        seq![FieldKind::VarInt, FieldKind::Short, FieldKind::Short, FieldKind::Short, FieldKind::Byte, FieldKind::Byte, FieldKind::Bool]
    }

    open spec fn fields(&self) -> Seq<Field> {
        seq![Field::VarInt(self.entity_id), Field::Short(self.delta_x), Field::Short(self.delta_y), Field::Short(self.delta_z), Field::Byte(self.yaw_angle), Field::Byte(self.pitch_angle), Field::Bool(self.on_ground)]
    }

    proof fn lemma_fields_fit(&self) {
    }

    fn read(buffer: &mut Cursor) -> (res: Option<Self>) {
        proof {
            reveal_with_fuel(read_fields, 8);
        }
        let entity_id = match read_varint_field(buffer) {
            Some(v) => v,
            None => return None,
        };
        let delta_x = match read_short_field(buffer) {
            Some(v) => v,
            None => return None,
        };
        let delta_y = match read_short_field(buffer) {
            Some(v) => v,
            None => return None,
        };
        let delta_z = match read_short_field(buffer) {
            Some(v) => v,
            None => return None,
        };
        let yaw_angle = match read_byte_field(buffer) {
            Some(v) => v,
            None => return None,
        };
        let pitch_angle = match read_byte_field(buffer) {
            Some(v) => v,
            None => return None,
        };
        let on_ground = match read_bool_field(buffer) {
            Some(v) => v,
            None => return None,
        };
        Some(ClientsideUpdateEntityPosRot { entity_id, delta_x, delta_y, delta_z, yaw_angle, pitch_angle, on_ground })
    }

    fn write(&self, buffer: &mut Vec<u8>) -> (res: Result<(), WriteError>) {
        let ghost fs = self.fields();
        assert(write_fields(fs, 0) == (Seq::<u8>::empty(), true));
        let r = write_varint_field(self.entity_id, buffer);
        assert(buffer@ =~= old(buffer)@ + write_fields(fs, 1).0);
        if r.is_err() {
            proof {
                lemma_write_fields_stopped(fs, 1, 7);
            }
            return r;
        }
        let r = write_short_field(self.delta_x, buffer);
        assert(buffer@ =~= old(buffer)@ + write_fields(fs, 2).0);
        if r.is_err() {
            proof {
                lemma_write_fields_stopped(fs, 2, 7);
            }
            return r;
        }
        let r = write_short_field(self.delta_y, buffer);
        assert(buffer@ =~= old(buffer)@ + write_fields(fs, 3).0);
        if r.is_err() {
            proof {
                lemma_write_fields_stopped(fs, 3, 7);
            }
            return r;
        }
        let r = write_short_field(self.delta_z, buffer);
        assert(buffer@ =~= old(buffer)@ + write_fields(fs, 4).0);
        if r.is_err() {
            proof {
                lemma_write_fields_stopped(fs, 4, 7);
            }
            return r;
        }
        let r = write_byte_field(self.yaw_angle, buffer);
        assert(buffer@ =~= old(buffer)@ + write_fields(fs, 5).0);
        if r.is_err() {
            proof {
                lemma_write_fields_stopped(fs, 5, 7);
            }
            return r;
        }
        let r = write_byte_field(self.pitch_angle, buffer);
        assert(buffer@ =~= old(buffer)@ + write_fields(fs, 6).0);
        if r.is_err() {
            proof {
                lemma_write_fields_stopped(fs, 6, 7);
            }
            return r;
        }
        let r = write_bool_field(self.on_ground, buffer);
        assert(buffer@ =~= old(buffer)@ + write_fields(fs, 7).0);
        if r.is_err() {
            proof {
                lemma_write_fields_stopped(fs, 7, 7);
            }
            return r;
        }
        Ok(())
    }
}

/// Writing a `ClientsideUpdateEntityPosRot` puts its fields on the wire one after another, in this
/// order: `entity_id`, `delta_x`, `delta_y`, `delta_z`, `yaw_angle`, `pitch_angle`, `on_ground`.
#[verifier::spinoff_prover]
pub proof fn lemma_clientside_update_entity_pos_rot_wire(entity_id: i32, delta_x: i16, delta_y: i16, delta_z: i16, yaw_angle: i8, pitch_angle: i8, on_ground: bool)
    ensures
        write_fields((ClientsideUpdateEntityPosRot { entity_id, delta_x, delta_y, delta_z, yaw_angle, pitch_angle, on_ground }).fields(), 7) == (write_field(Field::VarInt(entity_id)).0 + write_field(Field::Short(delta_x)).0 + write_field(Field::Short(delta_y)).0 + write_field(Field::Short(delta_z)).0 + write_field(Field::Byte(yaw_angle)).0 + write_field(Field::Byte(pitch_angle)).0 + write_field(Field::Bool(on_ground)).0, true),
{
    reveal_with_fuel(write_fields, 8);
    reveal(write_field);
}

/// Reading the fields of a `ClientsideUpdateEntityPosRot` written one after another, in the order
/// `entity_id`, `delta_x`, `delta_y`, `delta_z`, `yaw_angle`, `pitch_angle`, `on_ground`, gives back a packet with those values, whatever
/// follows (nothing, after trailing bytes), when no list is oversized.
#[verifier::spinoff_prover]
pub proof fn lemma_clientside_update_entity_pos_rot_reads_back(entity_id: i32, delta_x: i16, delta_y: i16, delta_z: i16, yaw_angle: i8, pitch_angle: i8, on_ground: bool, t: Seq<u8>)
    requires
        fields_read_back((ClientsideUpdateEntityPosRot { entity_id, delta_x, delta_y, delta_z, yaw_angle, pitch_angle, on_ground }).fields()),
        trailing_bytes_last((ClientsideUpdateEntityPosRot { entity_id, delta_x, delta_y, delta_z, yaw_angle, pitch_angle, on_ground }).fields(), t),
    ensures
        read_fields(ClientsideUpdateEntityPosRot::layout(), write_field(Field::VarInt(entity_id)).0 + write_field(Field::Short(delta_x)).0 + write_field(Field::Short(delta_y)).0 + write_field(Field::Short(delta_z)).0 + write_field(Field::Byte(yaw_angle)).0 + write_field(Field::Byte(pitch_angle)).0 + write_field(Field::Bool(on_ground)).0 + t, 0) == (Some((ClientsideUpdateEntityPosRot { entity_id, delta_x, delta_y, delta_z, yaw_angle, pitch_angle, on_ground }).fields()), (write_field(Field::VarInt(entity_id)).0 + write_field(Field::Short(delta_x)).0 + write_field(Field::Short(delta_y)).0 + write_field(Field::Short(delta_z)).0 + write_field(Field::Byte(yaw_angle)).0 + write_field(Field::Byte(pitch_angle)).0 + write_field(Field::Bool(on_ground)).0).len()),
{
    lemma_clientside_update_entity_pos_rot_wire(entity_id, delta_x, delta_y, delta_z, yaw_angle, pitch_angle, on_ground);
    lemma_packet_roundtrip((ClientsideUpdateEntityPosRot { entity_id, delta_x, delta_y, delta_z, yaw_angle, pitch_angle, on_ground }), t);
}

/// The player died.
#[derive(Clone, Debug, PartialEq)]
pub struct ClientsidePlayerCombatKill {
    pub player_id: i32,
}

impl Packet for ClientsidePlayerCombatKill {
    open spec fn layout() -> Seq<FieldKind> {
        seq![FieldKind::VarInt]
    }

    open spec fn fields(&self) -> Seq<Field> {
        seq![Field::VarInt(self.player_id)]
    }

    proof fn lemma_fields_fit(&self) {
    }

    fn read(buffer: &mut Cursor) -> (res: Option<Self>) {
        proof {
            reveal_with_fuel(read_fields, 2);
        }
        let player_id = match read_varint_field(buffer) {
            Some(v) => v,
            None => return None,
        };
        Some(ClientsidePlayerCombatKill { player_id })
    }

    fn write(&self, buffer: &mut Vec<u8>) -> (res: Result<(), WriteError>) {
        let ghost fs = self.fields();
        assert(write_fields(fs, 0) == (Seq::<u8>::empty(), true));
        let r = write_varint_field(self.player_id, buffer);
        assert(buffer@ =~= old(buffer)@ + write_fields(fs, 1).0);
        if r.is_err() {
            proof {
                lemma_write_fields_stopped(fs, 1, 1);
            }
            return r;
        }
        Ok(())
    }
}

/// Writing a `ClientsidePlayerCombatKill` puts its fields on the wire one after another, in this
/// order: `player_id`.
#[verifier::spinoff_prover]
pub proof fn lemma_clientside_player_combat_kill_wire(player_id: i32)
    ensures
        write_fields((ClientsidePlayerCombatKill { player_id }).fields(), 1) == (write_field(Field::VarInt(player_id)).0, true),
{
    reveal_with_fuel(write_fields, 2);
    reveal(write_field);
}

/// Reading the fields of a `ClientsidePlayerCombatKill` written one after another, in the order
/// `player_id`, gives back a packet with those values, whatever
/// follows (nothing, after trailing bytes), when no list is oversized.
#[verifier::spinoff_prover]
pub proof fn lemma_clientside_player_combat_kill_reads_back(player_id: i32, t: Seq<u8>)
    requires
        fields_read_back((ClientsidePlayerCombatKill { player_id }).fields()),
        trailing_bytes_last((ClientsidePlayerCombatKill { player_id }).fields(), t),
    ensures
        read_fields(ClientsidePlayerCombatKill::layout(), write_field(Field::VarInt(player_id)).0 + t, 0) == (Some((ClientsidePlayerCombatKill { player_id }).fields()), (write_field(Field::VarInt(player_id)).0).len()),
{
    lemma_clientside_player_combat_kill_wire(player_id);
    lemma_packet_roundtrip((ClientsidePlayerCombatKill { player_id }), t);
}

/// The passengers of an entity.
#[derive(Clone, Debug, PartialEq)]
pub struct ClientsideSetPassengers {
    pub entity_id: i32,
    pub passengers: Vec<i32>,
}

impl Packet for ClientsideSetPassengers {
    open spec fn layout() -> Seq<FieldKind> {
        seq![FieldKind::VarInt, FieldKind::VarIntList]
    }

    open spec fn fields(&self) -> Seq<Field> {
        seq![Field::VarInt(self.entity_id), Field::VarIntList(self.passengers@)]
    }

    proof fn lemma_fields_fit(&self) {
    }

    fn read(buffer: &mut Cursor) -> (res: Option<Self>) {
        proof {
            reveal_with_fuel(read_fields, 3);
            reveal_with_fuel(layout_may_overflow, 3);
        }
        let entity_id = match read_varint_field(buffer) {
            Some(v) => v,
            None => return None,
        };
        let passengers = match read_varint_list_field(buffer) {
            Some(v) => v,
            None => return None,
        };
        Some(ClientsideSetPassengers { entity_id, passengers })
    }

    fn write(&self, buffer: &mut Vec<u8>) -> (res: Result<(), WriteError>) {
        let ghost fs = self.fields();
        assert(write_fields(fs, 0) == (Seq::<u8>::empty(), true));
        let r = write_varint_field(self.entity_id, buffer);
        assert(buffer@ =~= old(buffer)@ + write_fields(fs, 1).0);
        if r.is_err() {
            proof {
                lemma_write_fields_stopped(fs, 1, 2);
            }
            return r;
        }
        let r = write_varint_list_field(&self.passengers, buffer);
        assert(buffer@ =~= old(buffer)@ + write_fields(fs, 2).0);
        if r.is_err() {
            proof {
                lemma_write_fields_stopped(fs, 2, 2);
            }
            return r;
        }
        Ok(())
    }
}

/// Writing a `ClientsideSetPassengers` puts its fields on the wire one after another, in this
/// order: `entity_id`, `passengers`.
#[verifier::spinoff_prover]
pub proof fn lemma_clientside_set_passengers_wire(entity_id: i32, passengers: Vec<i32>)
    ensures
        write_fields((ClientsideSetPassengers { entity_id, passengers }).fields(), 2) == (write_field(Field::VarInt(entity_id)).0 + write_field(Field::VarIntList(passengers@)).0, true),
{
    reveal_with_fuel(write_fields, 3);
    reveal(write_field);
}

/// Reading the fields of a `ClientsideSetPassengers` written one after another, in the order
/// `entity_id`, `passengers`, gives back a packet with those values, whatever
/// follows (nothing, after trailing bytes), when no list is oversized.
#[verifier::spinoff_prover]
pub proof fn lemma_clientside_set_passengers_reads_back(entity_id: i32, passengers: Vec<i32>, t: Seq<u8>)
    requires
        fields_read_back((ClientsideSetPassengers { entity_id, passengers }).fields()),
        trailing_bytes_last((ClientsideSetPassengers { entity_id, passengers }).fields(), t),
    ensures
        read_fields(ClientsideSetPassengers::layout(), write_field(Field::VarInt(entity_id)).0 + write_field(Field::VarIntList(passengers@)).0 + t, 0) == (Some((ClientsideSetPassengers { entity_id, passengers }).fields()), (write_field(Field::VarInt(entity_id)).0 + write_field(Field::VarIntList(passengers@)).0).len()),
{
    lemma_clientside_set_passengers_wire(entity_id, passengers);
    lemma_packet_roundtrip((ClientsideSetPassengers { entity_id, passengers }), t);
}

/// Entities that are gone.
#[derive(Clone, Debug, PartialEq)]
pub struct ClientsideRemoveEntities {
    pub entities: Vec<i32>,
}

impl Packet for ClientsideRemoveEntities {
    open spec fn layout() -> Seq<FieldKind> {
        seq![FieldKind::VarIntList]
    }

    open spec fn fields(&self) -> Seq<Field> {
        seq![Field::VarIntList(self.entities@)]
    }

    proof fn lemma_fields_fit(&self) {
    }

    fn read(buffer: &mut Cursor) -> (res: Option<Self>) {
        proof {
            reveal_with_fuel(read_fields, 2);
            reveal_with_fuel(layout_may_overflow, 2);
        }
        let entities = match read_varint_list_field(buffer) {
            Some(v) => v,
            None => return None,
        };
        Some(ClientsideRemoveEntities { entities })
    }

    fn write(&self, buffer: &mut Vec<u8>) -> (res: Result<(), WriteError>) {
        let ghost fs = self.fields();
        assert(write_fields(fs, 0) == (Seq::<u8>::empty(), true));
        let r = write_varint_list_field(&self.entities, buffer);
        assert(buffer@ =~= old(buffer)@ + write_fields(fs, 1).0);
        if r.is_err() {
            proof {
                lemma_write_fields_stopped(fs, 1, 1);
            }
            return r;
        }
        Ok(())
    }
}

/// Writing a `ClientsideRemoveEntities` puts its fields on the wire one after another, in this
/// order: `entities`.
#[verifier::spinoff_prover]
pub proof fn lemma_clientside_remove_entities_wire(entities: Vec<i32>)
    ensures
        write_fields((ClientsideRemoveEntities { entities }).fields(), 1) == (write_field(Field::VarIntList(entities@)).0, true),
{
    reveal_with_fuel(write_fields, 2);
    reveal(write_field);
}

/// Reading the fields of a `ClientsideRemoveEntities` written one after another, in the order
/// `entities`, gives back a packet with those values, whatever
/// follows (nothing, after trailing bytes), when no list is oversized.
#[verifier::spinoff_prover]
pub proof fn lemma_clientside_remove_entities_reads_back(entities: Vec<i32>, t: Seq<u8>)
    requires
        fields_read_back((ClientsideRemoveEntities { entities }).fields()),
        trailing_bytes_last((ClientsideRemoveEntities { entities }).fields(), t),
    ensures
        read_fields(ClientsideRemoveEntities::layout(), write_field(Field::VarIntList(entities@)).0 + t, 0) == (Some((ClientsideRemoveEntities { entities }).fields()), (write_field(Field::VarIntList(entities@)).0).len()),
{
    lemma_clientside_remove_entities_wire(entities);
    lemma_packet_roundtrip((ClientsideRemoveEntities { entities }), t);
}

/// The server disconnects the client.
#[derive(Clone, Copy, Debug, PartialEq, Eq)]
pub struct ClientsideDisconnect;

impl Packet for ClientsideDisconnect {
    open spec fn layout() -> Seq<FieldKind> {
        Seq::empty()
    }

    open spec fn fields(&self) -> Seq<Field> {
        Seq::empty()
    }

    proof fn lemma_fields_fit(&self) {
    }

    fn read(buffer: &mut Cursor) -> (res: Option<Self>) {
        proof {
            reveal_with_fuel(read_fields, 1);
        }
        Some(ClientsideDisconnect)
    }

    fn write(&self, buffer: &mut Vec<u8>) -> (res: Result<(), WriteError>) {
        let ghost fs = self.fields();
        assert(write_fields(fs, 0) == (Seq::<u8>::empty(), true));
        assert(buffer@ =~= old(buffer)@ + Seq::<u8>::empty());
        Ok(())
    }
}


/// A chat message from a player.
#[derive(Clone, Debug, PartialEq)]
pub struct ClientsidePlayerChat {
    pub global_index: i32,
    pub sender_uuid: Uuid,
    pub index: i32,
    pub message_signature: Option<Vec<u8>>,
    pub message: String,
    pub timestamp: i64,
    pub salt: i64,
    pub message_id: i32,
    pub signature: Option<Vec<u8>>,
}

impl Packet for ClientsidePlayerChat {
    open spec fn layout() -> Seq<FieldKind> {
        seq![FieldKind::VarInt, FieldKind::Uuid, FieldKind::VarInt, FieldKind::OptionalByteArray, FieldKind::Text, FieldKind::Long, FieldKind::Long, FieldKind::VarInt, FieldKind::OptionalByteArray]
    }

    open spec fn fields(&self) -> Seq<Field> {
        seq![Field::VarInt(self.global_index), Field::Uuid(self.sender_uuid.deep_view()), Field::VarInt(self.index), Field::OptionalByteArray(self.message_signature.deep_view()), Field::Text(self.message.deep_view()), Field::Long(self.timestamp), Field::Long(self.salt), Field::VarInt(self.message_id), Field::OptionalByteArray(self.signature.deep_view())]
    }

    proof fn lemma_fields_fit(&self) {
    }

    fn read(buffer: &mut Cursor) -> (res: Option<Self>) {
        proof {
            reveal_with_fuel(read_fields, 10);
        }
        let global_index = match read_varint_field(buffer) {
            Some(v) => v,
            None => return None,
        };
        let sender_uuid = match read_uuid_field(buffer) {
            Some(v) => v,
            None => return None,
        };
        let index = match read_varint_field(buffer) {
            Some(v) => v,
            None => return None,
        };
        let message_signature = match read_optional_byte_array_field(buffer) {
            Some(v) => v,
            None => return None,
        };
        let message = match read_text_field(buffer) {
            Some(v) => v,
            None => return None,
        };
        let timestamp = match read_long_field(buffer) {
            Some(v) => v,
            None => return None,
        };
        let salt = match read_long_field(buffer) {
            Some(v) => v,
            None => return None,
        };
        let message_id = match read_varint_field(buffer) {
            Some(v) => v,
            None => return None,
        };
        let signature = match read_optional_byte_array_field(buffer) {
            Some(v) => v,
            None => return None,
        };
        Some(ClientsidePlayerChat { global_index, sender_uuid, index, message_signature, message, timestamp, salt, message_id, signature })
    }

    fn write(&self, buffer: &mut Vec<u8>) -> (res: Result<(), WriteError>) {
        let ghost fs = self.fields();
        assert(write_fields(fs, 0) == (Seq::<u8>::empty(), true));
        let r = write_varint_field(self.global_index, buffer);
        assert(buffer@ =~= old(buffer)@ + write_fields(fs, 1).0);
        if r.is_err() {
            proof {
                lemma_write_fields_stopped(fs, 1, 9);
            }
            return r;
        }
        let r = write_uuid_field(self.sender_uuid, buffer);
        assert(buffer@ =~= old(buffer)@ + write_fields(fs, 2).0);
        if r.is_err() {
            proof {
                lemma_write_fields_stopped(fs, 2, 9);
            }
            return r;
        }
        let r = write_varint_field(self.index, buffer);
        assert(buffer@ =~= old(buffer)@ + write_fields(fs, 3).0);
        if r.is_err() {
            proof {
                lemma_write_fields_stopped(fs, 3, 9);
            }
            return r;
        }
        let r = write_optional_byte_array_field(&self.message_signature, buffer);
        assert(buffer@ =~= old(buffer)@ + write_fields(fs, 4).0);
        if r.is_err() {
            proof {
                lemma_write_fields_stopped(fs, 4, 9);
            }
            return r;
        }
        let r = write_text_field(&self.message, buffer);
        assert(buffer@ =~= old(buffer)@ + write_fields(fs, 5).0);
        if r.is_err() {
            proof {
                lemma_write_fields_stopped(fs, 5, 9);
            }
            return r;
        }
        let r = write_long_field(self.timestamp, buffer);
        assert(buffer@ =~= old(buffer)@ + write_fields(fs, 6).0);
        if r.is_err() {
            proof {
                lemma_write_fields_stopped(fs, 6, 9);
            }
            return r;
        }
        let r = write_long_field(self.salt, buffer);
        assert(buffer@ =~= old(buffer)@ + write_fields(fs, 7).0);
        if r.is_err() {
            proof {
                lemma_write_fields_stopped(fs, 7, 9);
            }
            return r;
        }
        let r = write_varint_field(self.message_id, buffer);
        assert(buffer@ =~= old(buffer)@ + write_fields(fs, 8).0);
        if r.is_err() {
            proof {
                lemma_write_fields_stopped(fs, 8, 9);
            }
            return r;
        }
        let r = write_optional_byte_array_field(&self.signature, buffer);
        assert(buffer@ =~= old(buffer)@ + write_fields(fs, 9).0);
        if r.is_err() {
            proof {
                lemma_write_fields_stopped(fs, 9, 9);
            }
            return r;
        }
        Ok(())
    }
}

/// Writing a `ClientsidePlayerChat` puts its fields on the wire one after another, in this
/// order: `global_index`, `sender_uuid`, `index`, `message_signature`, `message`, `timestamp`, `salt`, `message_id`, `signature`.
#[verifier::spinoff_prover]
pub proof fn lemma_clientside_player_chat_wire(global_index: i32, sender_uuid: Uuid, index: i32, message_signature: Option<Vec<u8>>, message: String, timestamp: i64, salt: i64, message_id: i32, signature: Option<Vec<u8>>)
    requires
        write_field(Field::OptionalByteArray(message_signature.deep_view())).1,
        write_field(Field::Text(message.deep_view())).1,
        write_field(Field::OptionalByteArray(signature.deep_view())).1,
    ensures
        write_fields((ClientsidePlayerChat { global_index, sender_uuid, index, message_signature, message, timestamp, salt, message_id, signature }).fields(), 9) == (write_field(Field::VarInt(global_index)).0 + write_field(Field::Uuid(sender_uuid.deep_view())).0 + write_field(Field::VarInt(index)).0 + write_field(Field::OptionalByteArray(message_signature.deep_view())).0 + write_field(Field::Text(message.deep_view())).0 + write_field(Field::Long(timestamp)).0 + write_field(Field::Long(salt)).0 + write_field(Field::VarInt(message_id)).0 + write_field(Field::OptionalByteArray(signature.deep_view())).0, true),
{
    reveal_with_fuel(write_fields, 10);
    reveal(write_field);
}

/// Reading the fields of a `ClientsidePlayerChat` written one after another, in the order
/// `global_index`, `sender_uuid`, `index`, `message_signature`, `message`, `timestamp`, `salt`, `message_id`, `signature`, gives back a packet with those values, whatever
/// follows (nothing, after trailing bytes), when no list is oversized.
#[verifier::spinoff_prover]
pub proof fn lemma_clientside_player_chat_reads_back(global_index: i32, sender_uuid: Uuid, index: i32, message_signature: Option<Vec<u8>>, message: String, timestamp: i64, salt: i64, message_id: i32, signature: Option<Vec<u8>>, t: Seq<u8>)
    requires
        write_field(Field::OptionalByteArray(message_signature.deep_view())).1,
        write_field(Field::Text(message.deep_view())).1,
        write_field(Field::OptionalByteArray(signature.deep_view())).1,
        fields_read_back((ClientsidePlayerChat { global_index, sender_uuid, index, message_signature, message, timestamp, salt, message_id, signature }).fields()),
        trailing_bytes_last((ClientsidePlayerChat { global_index, sender_uuid, index, message_signature, message, timestamp, salt, message_id, signature }).fields(), t),
    ensures
        read_fields(ClientsidePlayerChat::layout(), write_field(Field::VarInt(global_index)).0 + write_field(Field::Uuid(sender_uuid.deep_view())).0 + write_field(Field::VarInt(index)).0 + write_field(Field::OptionalByteArray(message_signature.deep_view())).0 + write_field(Field::Text(message.deep_view())).0 + write_field(Field::Long(timestamp)).0 + write_field(Field::Long(salt)).0 + write_field(Field::VarInt(message_id)).0 + write_field(Field::OptionalByteArray(signature.deep_view())).0 + t, 0) == (Some((ClientsidePlayerChat { global_index, sender_uuid, index, message_signature, message, timestamp, salt, message_id, signature }).fields()), (write_field(Field::VarInt(global_index)).0 + write_field(Field::Uuid(sender_uuid.deep_view())).0 + write_field(Field::VarInt(index)).0 + write_field(Field::OptionalByteArray(message_signature.deep_view())).0 + write_field(Field::Text(message.deep_view())).0 + write_field(Field::Long(timestamp)).0 + write_field(Field::Long(salt)).0 + write_field(Field::VarInt(message_id)).0 + write_field(Field::OptionalByteArray(signature.deep_view())).0).len()),
{
    lemma_clientside_player_chat_wire(global_index, sender_uuid, index, message_signature, message, timestamp, salt, message_id, signature);
    lemma_packet_roundtrip((ClientsidePlayerChat { global_index, sender_uuid, index, message_signature, message, timestamp, salt, message_id, signature }), t);
}

/// Moves the client to another server.
#[derive(Clone, Debug, PartialEq)]
pub struct ClientsideTransfer {
    pub server_host: String,
    pub server_port: i32,
}

impl Packet for ClientsideTransfer {
    open spec fn layout() -> Seq<FieldKind> {
        seq![FieldKind::Text, FieldKind::VarInt]
    }

    open spec fn fields(&self) -> Seq<Field> {
        seq![Field::Text(self.server_host.deep_view()), Field::VarInt(self.server_port)]
    }

    proof fn lemma_fields_fit(&self) {
    }

    fn read(buffer: &mut Cursor) -> (res: Option<Self>) {
        proof {
            reveal_with_fuel(read_fields, 3);
        }
        let server_host = match read_text_field(buffer) {
            Some(v) => v,
            None => return None,
        };
        let server_port = match read_varint_field(buffer) {
            Some(v) => v,
            None => return None,
        };
        Some(ClientsideTransfer { server_host, server_port })
    }

    fn write(&self, buffer: &mut Vec<u8>) -> (res: Result<(), WriteError>) {
        let ghost fs = self.fields();
        assert(write_fields(fs, 0) == (Seq::<u8>::empty(), true));
        let r = write_text_field(&self.server_host, buffer);
        assert(buffer@ =~= old(buffer)@ + write_fields(fs, 1).0);
        if r.is_err() {
            proof {
                lemma_write_fields_stopped(fs, 1, 2);
            }
            return r;
        }
        let r = write_varint_field(self.server_port, buffer);
        assert(buffer@ =~= old(buffer)@ + write_fields(fs, 2).0);
        if r.is_err() {
            proof {
                lemma_write_fields_stopped(fs, 2, 2);
            }
            return r;
        }
        Ok(())
    }
}

/// Writing a `ClientsideTransfer` puts its fields on the wire one after another, in this
/// order: `server_host`, `server_port`.
#[verifier::spinoff_prover]
pub proof fn lemma_clientside_transfer_wire(server_host: String, server_port: i32)
    requires
        write_field(Field::Text(server_host.deep_view())).1,
    ensures
        write_fields((ClientsideTransfer { server_host, server_port }).fields(), 2) == (write_field(Field::Text(server_host.deep_view())).0 + write_field(Field::VarInt(server_port)).0, true),
{
    reveal_with_fuel(write_fields, 3);
    reveal(write_field);
}

/// Reading the fields of a `ClientsideTransfer` written one after another, in the order
/// `server_host`, `server_port`, gives back a packet with those values, whatever
/// follows (nothing, after trailing bytes), when no list is oversized.
#[verifier::spinoff_prover]
pub proof fn lemma_clientside_transfer_reads_back(server_host: String, server_port: i32, t: Seq<u8>)
    requires
        write_field(Field::Text(server_host.deep_view())).1,
        fields_read_back((ClientsideTransfer { server_host, server_port }).fields()),
        trailing_bytes_last((ClientsideTransfer { server_host, server_port }).fields(), t),
    ensures
        read_fields(ClientsideTransfer::layout(), write_field(Field::Text(server_host.deep_view())).0 + write_field(Field::VarInt(server_port)).0 + t, 0) == (Some((ClientsideTransfer { server_host, server_port }).fields()), (write_field(Field::Text(server_host.deep_view())).0 + write_field(Field::VarInt(server_port)).0).len()),
{
    lemma_clientside_transfer_wire(server_host, server_port);
    lemma_packet_roundtrip((ClientsideTransfer { server_host, server_port }), t);
}

/// The server selects a hotbar slot.
#[derive(Clone, Debug, PartialEq)]
pub struct ClientsideSetHeldItem {
    pub slot: i32,
}

impl Packet for ClientsideSetHeldItem {
    open spec fn layout() -> Seq<FieldKind> {
        seq![FieldKind::VarInt]
    }

    open spec fn fields(&self) -> Seq<Field> {
        seq![Field::VarInt(self.slot)]
    }

    proof fn lemma_fields_fit(&self) {
    }

    fn read(buffer: &mut Cursor) -> (res: Option<Self>) {
        proof {
            reveal_with_fuel(read_fields, 2);
        }
        let slot = match read_varint_field(buffer) {
            Some(v) => v,
            None => return None,
        };
        Some(ClientsideSetHeldItem { slot })
    }

    fn write(&self, buffer: &mut Vec<u8>) -> (res: Result<(), WriteError>) {
        let ghost fs = self.fields();
        assert(write_fields(fs, 0) == (Seq::<u8>::empty(), true));
        let r = write_varint_field(self.slot, buffer);
        assert(buffer@ =~= old(buffer)@ + write_fields(fs, 1).0);
        if r.is_err() {
            proof {
                lemma_write_fields_stopped(fs, 1, 1);
            }
            return r;
        }
        Ok(())
    }
}

/// Writing a `ClientsideSetHeldItem` puts its fields on the wire one after another, in this
/// order: `slot`.
#[verifier::spinoff_prover]
pub proof fn lemma_clientside_set_held_item_wire(slot: i32)
    ensures
        write_fields((ClientsideSetHeldItem { slot }).fields(), 1) == (write_field(Field::VarInt(slot)).0, true),
{
    reveal_with_fuel(write_fields, 2);
    reveal(write_field);
}

/// Reading the fields of a `ClientsideSetHeldItem` written one after another, in the order
/// `slot`, gives back a packet with those values, whatever
/// follows (nothing, after trailing bytes), when no list is oversized.
#[verifier::spinoff_prover]
pub proof fn lemma_clientside_set_held_item_reads_back(slot: i32, t: Seq<u8>)
    requires
        fields_read_back((ClientsideSetHeldItem { slot }).fields()),
        trailing_bytes_last((ClientsideSetHeldItem { slot }).fields(), t),
    ensures
        read_fields(ClientsideSetHeldItem::layout(), write_field(Field::VarInt(slot)).0 + t, 0) == (Some((ClientsideSetHeldItem { slot }).fields()), (write_field(Field::VarInt(slot)).0).len()),
{
    lemma_clientside_set_held_item_wire(slot);
    lemma_packet_roundtrip((ClientsideSetHeldItem { slot }), t);
}

/// An entity is leashed to another.
#[derive(Clone, Debug, PartialEq)]
pub struct ClientsideSetEntityLink {
    pub attached_entity_id: i32,
    pub holding_entity_id: i32,
}

impl Packet for ClientsideSetEntityLink {
    open spec fn layout() -> Seq<FieldKind> {
        seq![FieldKind::VarInt, FieldKind::VarInt]
    }

    open spec fn fields(&self) -> Seq<Field> {
        seq![Field::VarInt(self.attached_entity_id), Field::VarInt(self.holding_entity_id)]
    }

    proof fn lemma_fields_fit(&self) {
    }

    fn read(buffer: &mut Cursor) -> (res: Option<Self>) {
        proof {
            reveal_with_fuel(read_fields, 3);
        }
        let attached_entity_id = match read_varint_field(buffer) {
            Some(v) => v,
            None => return None,
        };
        let holding_entity_id = match read_varint_field(buffer) {
            Some(v) => v,
            None => return None,
        };
        Some(ClientsideSetEntityLink { attached_entity_id, holding_entity_id })
    }

    fn write(&self, buffer: &mut Vec<u8>) -> (res: Result<(), WriteError>) {
        let ghost fs = self.fields();
        assert(write_fields(fs, 0) == (Seq::<u8>::empty(), true));
        let r = write_varint_field(self.attached_entity_id, buffer);
        assert(buffer@ =~= old(buffer)@ + write_fields(fs, 1).0);
        if r.is_err() {
            proof {
                lemma_write_fields_stopped(fs, 1, 2);
            }
            return r;
        }
        let r = write_varint_field(self.holding_entity_id, buffer);
        assert(buffer@ =~= old(buffer)@ + write_fields(fs, 2).0);
        if r.is_err() {
            proof {
                lemma_write_fields_stopped(fs, 2, 2);
            }
            return r;
        }
        Ok(())
    }
}

/// Writing a `ClientsideSetEntityLink` puts its fields on the wire one after another, in this
/// order: `attached_entity_id`, `holding_entity_id`.
#[verifier::spinoff_prover]
pub proof fn lemma_clientside_set_entity_link_wire(attached_entity_id: i32, holding_entity_id: i32)
    ensures
        write_fields((ClientsideSetEntityLink { attached_entity_id, holding_entity_id }).fields(), 2) == (write_field(Field::VarInt(attached_entity_id)).0 + write_field(Field::VarInt(holding_entity_id)).0, true),
{
    reveal_with_fuel(write_fields, 3);
    reveal(write_field);
}

/// Reading the fields of a `ClientsideSetEntityLink` written one after another, in the order
/// `attached_entity_id`, `holding_entity_id`, gives back a packet with those values, whatever
/// follows (nothing, after trailing bytes), when no list is oversized.
#[verifier::spinoff_prover]
pub proof fn lemma_clientside_set_entity_link_reads_back(attached_entity_id: i32, holding_entity_id: i32, t: Seq<u8>)
    requires
        fields_read_back((ClientsideSetEntityLink { attached_entity_id, holding_entity_id }).fields()),
        trailing_bytes_last((ClientsideSetEntityLink { attached_entity_id, holding_entity_id }).fields(), t),
    ensures
        read_fields(ClientsideSetEntityLink::layout(), write_field(Field::VarInt(attached_entity_id)).0 + write_field(Field::VarInt(holding_entity_id)).0 + t, 0) == (Some((ClientsideSetEntityLink { attached_entity_id, holding_entity_id }).fields()), (write_field(Field::VarInt(attached_entity_id)).0 + write_field(Field::VarInt(holding_entity_id)).0).len()),
{
    lemma_clientside_set_entity_link_wire(attached_entity_id, holding_entity_id);
    lemma_packet_roundtrip((ClientsideSetEntityLink { attached_entity_id, holding_entity_id }), t);
}

/// The view distance.
#[derive(Clone, Debug, PartialEq)]
pub struct ClientsideChunkCacheRadius {
    pub view_distance: i32,
}

impl Packet for ClientsideChunkCacheRadius {
    open spec fn layout() -> Seq<FieldKind> {
        seq![FieldKind::VarInt]
    }

    open spec fn fields(&self) -> Seq<Field> {
        seq![Field::VarInt(self.view_distance)]
    }

    proof fn lemma_fields_fit(&self) {
    }

    fn read(buffer: &mut Cursor) -> (res: Option<Self>) {
        proof {
            reveal_with_fuel(read_fields, 2);
        }
        let view_distance = match read_varint_field(buffer) {
            Some(v) => v,
            None => return None,
        };
        Some(ClientsideChunkCacheRadius { view_distance })
    }

    fn write(&self, buffer: &mut Vec<u8>) -> (res: Result<(), WriteError>) {
        let ghost fs = self.fields();
        assert(write_fields(fs, 0) == (Seq::<u8>::empty(), true));
        let r = write_varint_field(self.view_distance, buffer);
        assert(buffer@ =~= old(buffer)@ + write_fields(fs, 1).0);
        if r.is_err() {
            proof {
                lemma_write_fields_stopped(fs, 1, 1);
            }
            return r;
        }
        Ok(())
    }
}

/// Writing a `ClientsideChunkCacheRadius` puts its fields on the wire one after another, in this
/// order: `view_distance`.
#[verifier::spinoff_prover]
pub proof fn lemma_clientside_chunk_cache_radius_wire(view_distance: i32)
    ensures
        write_fields((ClientsideChunkCacheRadius { view_distance }).fields(), 1) == (write_field(Field::VarInt(view_distance)).0, true),
{
    reveal_with_fuel(write_fields, 2);
    reveal(write_field);
}

/// Reading the fields of a `ClientsideChunkCacheRadius` written one after another, in the order
/// `view_distance`, gives back a packet with those values, whatever
/// follows (nothing, after trailing bytes), when no list is oversized.
#[verifier::spinoff_prover]
pub proof fn lemma_clientside_chunk_cache_radius_reads_back(view_distance: i32, t: Seq<u8>)
    requires
        fields_read_back((ClientsideChunkCacheRadius { view_distance }).fields()),
        trailing_bytes_last((ClientsideChunkCacheRadius { view_distance }).fields(), t),
    ensures
        read_fields(ClientsideChunkCacheRadius::layout(), write_field(Field::VarInt(view_distance)).0 + t, 0) == (Some((ClientsideChunkCacheRadius { view_distance }).fields()), (write_field(Field::VarInt(view_distance)).0).len()),
{
    lemma_clientside_chunk_cache_radius_wire(view_distance);
    lemma_packet_roundtrip((ClientsideChunkCacheRadius { view_distance }), t);
}

/// The chunk at the center of the view.
#[derive(Clone, Debug, PartialEq)]
pub struct ClientsideChunkCacheCenter {
    pub chunk_x: i32,
    pub chunk_z: i32,
}

impl Packet for ClientsideChunkCacheCenter {
    open spec fn layout() -> Seq<FieldKind> {
        seq![FieldKind::VarInt, FieldKind::VarInt]
    }

    open spec fn fields(&self) -> Seq<Field> {
        seq![Field::VarInt(self.chunk_x), Field::VarInt(self.chunk_z)]
    }

    proof fn lemma_fields_fit(&self) {
    }

    fn read(buffer: &mut Cursor) -> (res: Option<Self>) {
        proof {
            reveal_with_fuel(read_fields, 3);
        }
        let chunk_x = match read_varint_field(buffer) {
            Some(v) => v,
            None => return None,
        };
        let chunk_z = match read_varint_field(buffer) {
            Some(v) => v,
            None => return None,
        };
        Some(ClientsideChunkCacheCenter { chunk_x, chunk_z })
    }

    fn write(&self, buffer: &mut Vec<u8>) -> (res: Result<(), WriteError>) {
        let ghost fs = self.fields();
        assert(write_fields(fs, 0) == (Seq::<u8>::empty(), true));
        let r = write_varint_field(self.chunk_x, buffer);
        assert(buffer@ =~= old(buffer)@ + write_fields(fs, 1).0);
        if r.is_err() {
            proof {
                lemma_write_fields_stopped(fs, 1, 2);
            }
            return r;
        }
        let r = write_varint_field(self.chunk_z, buffer);
        assert(buffer@ =~= old(buffer)@ + write_fields(fs, 2).0);
        if r.is_err() {
            proof {
                lemma_write_fields_stopped(fs, 2, 2);
            }
            return r;
        }
        Ok(())
    }
}

/// Writing a `ClientsideChunkCacheCenter` puts its fields on the wire one after another, in this
/// order: `chunk_x`, `chunk_z`.
#[verifier::spinoff_prover]
pub proof fn lemma_clientside_chunk_cache_center_wire(chunk_x: i32, chunk_z: i32)
    ensures
        write_fields((ClientsideChunkCacheCenter { chunk_x, chunk_z }).fields(), 2) == (write_field(Field::VarInt(chunk_x)).0 + write_field(Field::VarInt(chunk_z)).0, true),
{
    reveal_with_fuel(write_fields, 3);
    reveal(write_field);
}

/// Reading the fields of a `ClientsideChunkCacheCenter` written one after another, in the order
/// `chunk_x`, `chunk_z`, gives back a packet with those values, whatever
/// follows (nothing, after trailing bytes), when no list is oversized.
#[verifier::spinoff_prover]
pub proof fn lemma_clientside_chunk_cache_center_reads_back(chunk_x: i32, chunk_z: i32, t: Seq<u8>)
    requires
        fields_read_back((ClientsideChunkCacheCenter { chunk_x, chunk_z }).fields()),
        trailing_bytes_last((ClientsideChunkCacheCenter { chunk_x, chunk_z }).fields(), t),
    ensures
        read_fields(ClientsideChunkCacheCenter::layout(), write_field(Field::VarInt(chunk_x)).0 + write_field(Field::VarInt(chunk_z)).0 + t, 0) == (Some((ClientsideChunkCacheCenter { chunk_x, chunk_z }).fields()), (write_field(Field::VarInt(chunk_x)).0 + write_field(Field::VarInt(chunk_z)).0).len()),
{
    lemma_clientside_chunk_cache_center_wire(chunk_x, chunk_z);
    lemma_packet_roundtrip((ClientsideChunkCacheCenter { chunk_x, chunk_z }), t);
}

/// The entity the camera follows.
#[derive(Clone, Debug, PartialEq)]
pub struct ClientsideSetCamera {
    pub camera_id: i32,
}

impl Packet for ClientsideSetCamera {
    open spec fn layout() -> Seq<FieldKind> {
        seq![FieldKind::VarInt]
    }

    open spec fn fields(&self) -> Seq<Field> {
        seq![Field::VarInt(self.camera_id)]
    }

    proof fn lemma_fields_fit(&self) {
    }

    fn read(buffer: &mut Cursor) -> (res: Option<Self>) {
        proof {
            reveal_with_fuel(read_fields, 2);
        }
        let camera_id = match read_varint_field(buffer) {
            Some(v) => v,
            None => return None,
        };
        Some(ClientsideSetCamera { camera_id })
    }

    fn write(&self, buffer: &mut Vec<u8>) -> (res: Result<(), WriteError>) {
        let ghost fs = self.fields();
        assert(write_fields(fs, 0) == (Seq::<u8>::empty(), true));
        let r = write_varint_field(self.camera_id, buffer);
        assert(buffer@ =~= old(buffer)@ + write_fields(fs, 1).0);
        if r.is_err() {
            proof {
                lemma_write_fields_stopped(fs, 1, 1);
            }
            return r;
        }
        Ok(())
    }
}

/// Writing a `ClientsideSetCamera` puts its fields on the wire one after another, in this
/// order: `camera_id`.
#[verifier::spinoff_prover]
pub proof fn lemma_clientside_set_camera_wire(camera_id: i32)
    ensures
        write_fields((ClientsideSetCamera { camera_id }).fields(), 1) == (write_field(Field::VarInt(camera_id)).0, true),
{
    reveal_with_fuel(write_fields, 2);
    reveal(write_field);
}

/// Reading the fields of a `ClientsideSetCamera` written one after another, in the order
/// `camera_id`, gives back a packet with those values, whatever
/// follows (nothing, after trailing bytes), when no list is oversized.
#[verifier::spinoff_prover]
pub proof fn lemma_clientside_set_camera_reads_back(camera_id: i32, t: Seq<u8>)
    requires
        fields_read_back((ClientsideSetCamera { camera_id }).fields()),
        trailing_bytes_last((ClientsideSetCamera { camera_id }).fields(), t),
    ensures
        read_fields(ClientsideSetCamera::layout(), write_field(Field::VarInt(camera_id)).0 + t, 0) == (Some((ClientsideSetCamera { camera_id }).fields()), (write_field(Field::VarInt(camera_id)).0).len()),
{
    lemma_clientside_set_camera_wire(camera_id);
    lemma_packet_roundtrip((ClientsideSetCamera { camera_id }), t);
}

/// An entity turned its head.
#[derive(Clone, Debug, PartialEq)]
pub struct ClientsideRotateHead {
    pub entity_id: i32,
    pub head_yaw: i8,
}

impl Packet for ClientsideRotateHead {
    open spec fn layout() -> Seq<FieldKind> {
        seq![FieldKind::VarInt, FieldKind::Byte]
    }

    open spec fn fields(&self) -> Seq<Field> {
        seq![Field::VarInt(self.entity_id), Field::Byte(self.head_yaw)]
    }

    proof fn lemma_fields_fit(&self) {
    }

    fn read(buffer: &mut Cursor) -> (res: Option<Self>) {
        proof {
            reveal_with_fuel(read_fields, 3);
        }
        let entity_id = match read_varint_field(buffer) {
            Some(v) => v,
            None => return None,
        };
        let head_yaw = match read_byte_field(buffer) {
            Some(v) => v,
            None => return None,
        };
        Some(ClientsideRotateHead { entity_id, head_yaw })
    }

    fn write(&self, buffer: &mut Vec<u8>) -> (res: Result<(), WriteError>) {
        let ghost fs = self.fields();
        assert(write_fields(fs, 0) == (Seq::<u8>::empty(), true));
        let r = write_varint_field(self.entity_id, buffer);
        assert(buffer@ =~= old(buffer)@ + write_fields(fs, 1).0);
        if r.is_err() {
            proof {
                lemma_write_fields_stopped(fs, 1, 2);
            }
            return r;
        }
        let r = write_byte_field(self.head_yaw, buffer);
        assert(buffer@ =~= old(buffer)@ + write_fields(fs, 2).0);
        if r.is_err() {
            proof {
                lemma_write_fields_stopped(fs, 2, 2);
            }
            return r;
        }
        Ok(())
    }
}

/// Writing a `ClientsideRotateHead` puts its fields on the wire one after another, in this
/// order: `entity_id`, `head_yaw`.
#[verifier::spinoff_prover]
pub proof fn lemma_clientside_rotate_head_wire(entity_id: i32, head_yaw: i8)
    ensures
        write_fields((ClientsideRotateHead { entity_id, head_yaw }).fields(), 2) == (write_field(Field::VarInt(entity_id)).0 + write_field(Field::Byte(head_yaw)).0, true),
{
    reveal_with_fuel(write_fields, 3);
    reveal(write_field);
}

/// Reading the fields of a `ClientsideRotateHead` written one after another, in the order
/// `entity_id`, `head_yaw`, gives back a packet with those values, whatever
/// follows (nothing, after trailing bytes), when no list is oversized.
#[verifier::spinoff_prover]
pub proof fn lemma_clientside_rotate_head_reads_back(entity_id: i32, head_yaw: i8, t: Seq<u8>)
    requires
        fields_read_back((ClientsideRotateHead { entity_id, head_yaw }).fields()),
        trailing_bytes_last((ClientsideRotateHead { entity_id, head_yaw }).fields(), t),
    ensures
        read_fields(ClientsideRotateHead::layout(), write_field(Field::VarInt(entity_id)).0 + write_field(Field::Byte(head_yaw)).0 + t, 0) == (Some((ClientsideRotateHead { entity_id, head_yaw }).fields()), (write_field(Field::VarInt(entity_id)).0 + write_field(Field::Byte(head_yaw)).0).len()),
{
    lemma_clientside_rotate_head_wire(entity_id, head_yaw);
    lemma_packet_roundtrip((ClientsideRotateHead { entity_id, head_yaw }), t);
}

/// Blocks changed in a chunk section.
#[derive(Clone, Debug, PartialEq)]
pub struct ClientsideSectionBlocksUpdate {
    pub chunk_section_position: i64,
    pub head_yaw: Vec<i64>,
}

impl Packet for ClientsideSectionBlocksUpdate {
    open spec fn layout() -> Seq<FieldKind> {
        seq![FieldKind::Long, FieldKind::VarLongList]
    }

    open spec fn fields(&self) -> Seq<Field> {
        seq![Field::Long(self.chunk_section_position), Field::VarLongList(self.head_yaw@)]
    }

    proof fn lemma_fields_fit(&self) {
    }

    fn read(buffer: &mut Cursor) -> (res: Option<Self>) {
        proof {
            reveal_with_fuel(read_fields, 3);
            reveal_with_fuel(layout_may_overflow, 3);
        }
        let chunk_section_position = match read_long_field(buffer) {
            Some(v) => v,
            None => return None,
        };
        let head_yaw = match read_varlong_list_field(buffer) {
            Some(v) => v,
            None => return None,
        };
        Some(ClientsideSectionBlocksUpdate { chunk_section_position, head_yaw })
    }

    fn write(&self, buffer: &mut Vec<u8>) -> (res: Result<(), WriteError>) {
        let ghost fs = self.fields();
        assert(write_fields(fs, 0) == (Seq::<u8>::empty(), true));
        let r = write_long_field(self.chunk_section_position, buffer);
        assert(buffer@ =~= old(buffer)@ + write_fields(fs, 1).0);
        if r.is_err() {
            proof {
                lemma_write_fields_stopped(fs, 1, 2);
            }
            return r;
        }
        let r = write_varlong_list_field(&self.head_yaw, buffer);
        assert(buffer@ =~= old(buffer)@ + write_fields(fs, 2).0);
        if r.is_err() {
            proof {
                lemma_write_fields_stopped(fs, 2, 2);
            }
            return r;
        }
        Ok(())
    }
}

/// Writing a `ClientsideSectionBlocksUpdate` puts its fields on the wire one after another, in this
/// order: `chunk_section_position`, `head_yaw`.
#[verifier::spinoff_prover]
pub proof fn lemma_clientside_section_blocks_update_wire(chunk_section_position: i64, head_yaw: Vec<i64>)
    ensures
        write_fields((ClientsideSectionBlocksUpdate { chunk_section_position, head_yaw }).fields(), 2) == (write_field(Field::Long(chunk_section_position)).0 + write_field(Field::VarLongList(head_yaw@)).0, true),
{
    reveal_with_fuel(write_fields, 3);
    reveal(write_field);
}

/// Reading the fields of a `ClientsideSectionBlocksUpdate` written one after another, in the order
/// `chunk_section_position`, `head_yaw`, gives back a packet with those values, whatever
/// follows (nothing, after trailing bytes), when no list is oversized.
#[verifier::spinoff_prover]
pub proof fn lemma_clientside_section_blocks_update_reads_back(chunk_section_position: i64, head_yaw: Vec<i64>, t: Seq<u8>)
    requires
        fields_read_back((ClientsideSectionBlocksUpdate { chunk_section_position, head_yaw }).fields()),
        trailing_bytes_last((ClientsideSectionBlocksUpdate { chunk_section_position, head_yaw }).fields(), t),
    ensures
        read_fields(ClientsideSectionBlocksUpdate::layout(), write_field(Field::Long(chunk_section_position)).0 + write_field(Field::VarLongList(head_yaw@)).0 + t, 0) == (Some((ClientsideSectionBlocksUpdate { chunk_section_position, head_yaw }).fields()), (write_field(Field::Long(chunk_section_position)).0 + write_field(Field::VarLongList(head_yaw@)).0).len()),
{
    lemma_clientside_section_blocks_update_wire(chunk_section_position, head_yaw);
    lemma_packet_roundtrip((ClientsideSectionBlocksUpdate { chunk_section_position, head_yaw }), t);
}

/// Offers a resource pack.
#[derive(Clone, Debug, PartialEq)]
pub struct ClientsideAddResourcePack {
    pub uuid: Uuid,
    pub url: String,
    pub hash: String,
    pub forced: bool,
}

impl Packet for ClientsideAddResourcePack {
    open spec fn layout() -> Seq<FieldKind> {
        seq![FieldKind::Uuid, FieldKind::Text, FieldKind::Text, FieldKind::Bool]
    }

    open spec fn fields(&self) -> Seq<Field> {
        seq![Field::Uuid(self.uuid.deep_view()), Field::Text(self.url.deep_view()), Field::Text(self.hash.deep_view()), Field::Bool(self.forced)]
    }

    proof fn lemma_fields_fit(&self) {
    }

    fn read(buffer: &mut Cursor) -> (res: Option<Self>) {
        proof {
            reveal_with_fuel(read_fields, 5);
        }
        let uuid = match read_uuid_field(buffer) {
            Some(v) => v,
            None => return None,
        };
        let url = match read_text_field(buffer) {
            Some(v) => v,
            None => return None,
        };
        let hash = match read_text_field(buffer) {
            Some(v) => v,
            None => return None,
        };
        let forced = match read_bool_field(buffer) {
            Some(v) => v,
            None => return None,
        };
        Some(ClientsideAddResourcePack { uuid, url, hash, forced })
    }

    fn write(&self, buffer: &mut Vec<u8>) -> (res: Result<(), WriteError>) {
        let ghost fs = self.fields();
        assert(write_fields(fs, 0) == (Seq::<u8>::empty(), true));
        let r = write_uuid_field(self.uuid, buffer);
        assert(buffer@ =~= old(buffer)@ + write_fields(fs, 1).0);
        if r.is_err() {
            proof {
                lemma_write_fields_stopped(fs, 1, 4);
            }
            return r;
        }
        let r = write_text_field(&self.url, buffer);
        assert(buffer@ =~= old(buffer)@ + write_fields(fs, 2).0);
        if r.is_err() {
            proof {
                lemma_write_fields_stopped(fs, 2, 4);
            }
            return r;
        }
        let r = write_text_field(&self.hash, buffer);
        assert(buffer@ =~= old(buffer)@ + write_fields(fs, 3).0);
        if r.is_err() {
            proof {
                lemma_write_fields_stopped(fs, 3, 4);
            }
            return r;
        }
        let r = write_bool_field(self.forced, buffer);
        assert(buffer@ =~= old(buffer)@ + write_fields(fs, 4).0);
        if r.is_err() {
            proof {
                lemma_write_fields_stopped(fs, 4, 4);
            }
            return r;
        }
        Ok(())
    }
}

/// Writing a `ClientsideAddResourcePack` puts its fields on the wire one after another, in this
/// order: `uuid`, `url`, `hash`, `forced`.
#[verifier::spinoff_prover]
pub proof fn lemma_clientside_add_resource_pack_wire(uuid: Uuid, url: String, hash: String, forced: bool)
    requires
        write_field(Field::Text(url.deep_view())).1,
        write_field(Field::Text(hash.deep_view())).1,
    ensures
        write_fields((ClientsideAddResourcePack { uuid, url, hash, forced }).fields(), 4) == (write_field(Field::Uuid(uuid.deep_view())).0 + write_field(Field::Text(url.deep_view())).0 + write_field(Field::Text(hash.deep_view())).0 + write_field(Field::Bool(forced)).0, true),
{
    reveal_with_fuel(write_fields, 5);
    reveal(write_field);
}

/// Reading the fields of a `ClientsideAddResourcePack` written one after another, in the order
/// `uuid`, `url`, `hash`, `forced`, gives back a packet with those values, whatever
/// follows (nothing, after trailing bytes), when no list is oversized.
#[verifier::spinoff_prover]
pub proof fn lemma_clientside_add_resource_pack_reads_back(uuid: Uuid, url: String, hash: String, forced: bool, t: Seq<u8>)
    requires
        write_field(Field::Text(url.deep_view())).1,
        write_field(Field::Text(hash.deep_view())).1,
        fields_read_back((ClientsideAddResourcePack { uuid, url, hash, forced }).fields()),
        trailing_bytes_last((ClientsideAddResourcePack { uuid, url, hash, forced }).fields(), t),
    ensures
        read_fields(ClientsideAddResourcePack::layout(), write_field(Field::Uuid(uuid.deep_view())).0 + write_field(Field::Text(url.deep_view())).0 + write_field(Field::Text(hash.deep_view())).0 + write_field(Field::Bool(forced)).0 + t, 0) == (Some((ClientsideAddResourcePack { uuid, url, hash, forced }).fields()), (write_field(Field::Uuid(uuid.deep_view())).0 + write_field(Field::Text(url.deep_view())).0 + write_field(Field::Text(hash.deep_view())).0 + write_field(Field::Bool(forced)).0).len()),
{
    lemma_clientside_add_resource_pack_wire(uuid, url, hash, forced);
    lemma_packet_roundtrip((ClientsideAddResourcePack { uuid, url, hash, forced }), t);
}

/// Removes a resource pack.
#[derive(Clone, Debug, PartialEq)]
pub struct ClientsideRemoveResourcePack {
    pub uuid: Uuid,
}

impl Packet for ClientsideRemoveResourcePack {
    open spec fn layout() -> Seq<FieldKind> {
        seq![FieldKind::Uuid]
    }

    open spec fn fields(&self) -> Seq<Field> {
        seq![Field::Uuid(self.uuid.deep_view())]
    }

    proof fn lemma_fields_fit(&self) {
    }

    fn read(buffer: &mut Cursor) -> (res: Option<Self>) {
        proof {
            reveal_with_fuel(read_fields, 2);
        }
        let uuid = match read_uuid_field(buffer) {
            Some(v) => v,
            None => return None,
        };
        Some(ClientsideRemoveResourcePack { uuid })
    }

    fn write(&self, buffer: &mut Vec<u8>) -> (res: Result<(), WriteError>) {
        let ghost fs = self.fields();
        assert(write_fields(fs, 0) == (Seq::<u8>::empty(), true));
        let r = write_uuid_field(self.uuid, buffer);
        assert(buffer@ =~= old(buffer)@ + write_fields(fs, 1).0);
        if r.is_err() {
            proof {
                lemma_write_fields_stopped(fs, 1, 1);
            }
            return r;
        }
        Ok(())
    }
}

/// Writing a `ClientsideRemoveResourcePack` puts its fields on the wire one after another, in this
/// order: `uuid`.
#[verifier::spinoff_prover]
pub proof fn lemma_clientside_remove_resource_pack_wire(uuid: Uuid)
    ensures
        write_fields((ClientsideRemoveResourcePack { uuid }).fields(), 1) == (write_field(Field::Uuid(uuid.deep_view())).0, true),
{
    reveal_with_fuel(write_fields, 2);
    reveal(write_field);
}

/// Reading the fields of a `ClientsideRemoveResourcePack` written one after another, in the order
/// `uuid`, gives back a packet with those values, whatever
/// follows (nothing, after trailing bytes), when no list is oversized.
#[verifier::spinoff_prover]
pub proof fn lemma_clientside_remove_resource_pack_reads_back(uuid: Uuid, t: Seq<u8>)
    requires
        fields_read_back((ClientsideRemoveResourcePack { uuid }).fields()),
        trailing_bytes_last((ClientsideRemoveResourcePack { uuid }).fields(), t),
    ensures
        read_fields(ClientsideRemoveResourcePack::layout(), write_field(Field::Uuid(uuid.deep_view())).0 + t, 0) == (Some((ClientsideRemoveResourcePack { uuid }).fields()), (write_field(Field::Uuid(uuid.deep_view())).0).len()),
{
    lemma_clientside_remove_resource_pack_wire(uuid);
    lemma_packet_roundtrip((ClientsideRemoveResourcePack { uuid }), t);
}

/// An effect left an entity.
#[derive(Clone, Debug, PartialEq)]
pub struct ClientsideRemoveEntityEffect {
    pub entity_id: i32,
    pub effect_id: i32,
}

impl Packet for ClientsideRemoveEntityEffect {
    open spec fn layout() -> Seq<FieldKind> {
        seq![FieldKind::VarInt, FieldKind::VarInt]
    }

    open spec fn fields(&self) -> Seq<Field> {
        seq![Field::VarInt(self.entity_id), Field::VarInt(self.effect_id)]
    }

    proof fn lemma_fields_fit(&self) {
    }

    fn read(buffer: &mut Cursor) -> (res: Option<Self>) {
        proof {
            reveal_with_fuel(read_fields, 3);
        }
        let entity_id = match read_varint_field(buffer) {
            Some(v) => v,
            None => return None,
        };
        let effect_id = match read_varint_field(buffer) {
            Some(v) => v,
            None => return None,
        };
        Some(ClientsideRemoveEntityEffect { entity_id, effect_id })
    }

    fn write(&self, buffer: &mut Vec<u8>) -> (res: Result<(), WriteError>) {
        let ghost fs = self.fields();
        assert(write_fields(fs, 0) == (Seq::<u8>::empty(), true));
        let r = write_varint_field(self.entity_id, buffer);
        assert(buffer@ =~= old(buffer)@ + write_fields(fs, 1).0);
        if r.is_err() {
            proof {
                lemma_write_fields_stopped(fs, 1, 2);
            }
            return r;
        }
        let r = write_varint_field(self.effect_id, buffer);
        assert(buffer@ =~= old(buffer)@ + write_fields(fs, 2).0);
        if r.is_err() {
            proof {
                lemma_write_fields_stopped(fs, 2, 2);
            }
            return r;
        }
        Ok(())
    }
}

/// Writing a `ClientsideRemoveEntityEffect` puts its fields on the wire one after another, in this
/// order: `entity_id`, `effect_id`.
#[verifier::spinoff_prover]
pub proof fn lemma_clientside_remove_entity_effect_wire(entity_id: i32, effect_id: i32)
    ensures
        write_fields((ClientsideRemoveEntityEffect { entity_id, effect_id }).fields(), 2) == (write_field(Field::VarInt(entity_id)).0 + write_field(Field::VarInt(effect_id)).0, true),
{
    reveal_with_fuel(write_fields, 3);
    reveal(write_field);
}

/// Reading the fields of a `ClientsideRemoveEntityEffect` written one after another, in the order
/// `entity_id`, `effect_id`, gives back a packet with those values, whatever
/// follows (nothing, after trailing bytes), when no list is oversized.
#[verifier::spinoff_prover]
pub proof fn lemma_clientside_remove_entity_effect_reads_back(entity_id: i32, effect_id: i32, t: Seq<u8>)
    requires
        fields_read_back((ClientsideRemoveEntityEffect { entity_id, effect_id }).fields()),
        trailing_bytes_last((ClientsideRemoveEntityEffect { entity_id, effect_id }).fields(), t),
    ensures
        read_fields(ClientsideRemoveEntityEffect::layout(), write_field(Field::VarInt(entity_id)).0 + write_field(Field::VarInt(effect_id)).0 + t, 0) == (Some((ClientsideRemoveEntityEffect { entity_id, effect_id }).fields()), (write_field(Field::VarInt(entity_id)).0 + write_field(Field::VarInt(effect_id)).0).len()),
{
    lemma_clientside_remove_entity_effect_wire(entity_id, effect_id);
    lemma_packet_roundtrip((ClientsideRemoveEntityEffect { entity_id, effect_id }), t);
}

/// A container window opened.
#[derive(Clone, Debug, PartialEq)]
pub struct ClientsideOpenContainer {
    pub window_id: i32,
    pub window_type: i32,
}

impl Packet for ClientsideOpenContainer {
    open spec fn layout() -> Seq<FieldKind> {
        seq![FieldKind::VarInt, FieldKind::VarInt]
    }

    open spec fn fields(&self) -> Seq<Field> {
        seq![Field::VarInt(self.window_id), Field::VarInt(self.window_type)]
    }

    proof fn lemma_fields_fit(&self) {
    }

    fn read(buffer: &mut Cursor) -> (res: Option<Self>) {
        proof {
            reveal_with_fuel(read_fields, 3);
        }
        let window_id = match read_varint_field(buffer) {
            Some(v) => v,
            None => return None,
        };
        let window_type = match read_varint_field(buffer) {
            Some(v) => v,
            None => return None,
        };
        Some(ClientsideOpenContainer { window_id, window_type })
    }

    fn write(&self, buffer: &mut Vec<u8>) -> (res: Result<(), WriteError>) {
        let ghost fs = self.fields();
        assert(write_fields(fs, 0) == (Seq::<u8>::empty(), true));
        let r = write_varint_field(self.window_id, buffer);
        assert(buffer@ =~= old(buffer)@ + write_fields(fs, 1).0);
        if r.is_err() {
            proof {
                lemma_write_fields_stopped(fs, 1, 2);
            }
            return r;
        }
        let r = write_varint_field(self.window_type, buffer);
        assert(buffer@ =~= old(buffer)@ + write_fields(fs, 2).0);
        if r.is_err() {
            proof {
                lemma_write_fields_stopped(fs, 2, 2);
            }
            return r;
        }
        Ok(())
    }
}

/// Writing a `ClientsideOpenContainer` puts its fields on the wire one after another, in this
/// order: `window_id`, `window_type`.
#[verifier::spinoff_prover]
pub proof fn lemma_clientside_open_container_wire(window_id: i32, window_type: i32)
    ensures
        write_fields((ClientsideOpenContainer { window_id, window_type }).fields(), 2) == (write_field(Field::VarInt(window_id)).0 + write_field(Field::VarInt(window_type)).0, true),
{
    reveal_with_fuel(write_fields, 3);
    reveal(write_field);
}

/// Reading the fields of a `ClientsideOpenContainer` written one after another, in the order
/// `window_id`, `window_type`, gives back a packet with those values, whatever
/// follows (nothing, after trailing bytes), when no list is oversized.
#[verifier::spinoff_prover]
pub proof fn lemma_clientside_open_container_reads_back(window_id: i32, window_type: i32, t: Seq<u8>)
    requires
        fields_read_back((ClientsideOpenContainer { window_id, window_type }).fields()),
        trailing_bytes_last((ClientsideOpenContainer { window_id, window_type }).fields(), t),
    ensures
        read_fields(ClientsideOpenContainer::layout(), write_field(Field::VarInt(window_id)).0 + write_field(Field::VarInt(window_type)).0 + t, 0) == (Some((ClientsideOpenContainer { window_id, window_type }).fields()), (write_field(Field::VarInt(window_id)).0 + write_field(Field::VarInt(window_type)).0).len()),
{
    lemma_clientside_open_container_wire(window_id, window_type);
    lemma_packet_roundtrip((ClientsideOpenContainer { window_id, window_type }), t);
}

/// The player joined the world.
#[derive(Clone, Debug, PartialEq)]
pub struct ClientsideLogin {
    pub entity_id: i32,
    pub is_hardcore: bool,
    pub dimension_names: Vec<String>,
    pub max_players: i32,
    pub view_distance: i32,
    pub simulation_distance: i32,
    pub reduced_debug_info: bool,
    pub enable_respawn_screen: bool,
    pub dimension_type: i32,
    pub dimension_name: String,
    pub hashed_seed: i64,
}

impl Packet for ClientsideLogin {
    open spec fn layout() -> Seq<FieldKind> {
        seq![FieldKind::Int, FieldKind::Bool, FieldKind::TextList, FieldKind::VarInt, FieldKind::VarInt, FieldKind::VarInt, FieldKind::Bool, FieldKind::Bool, FieldKind::VarInt, FieldKind::Text, FieldKind::Long]
    }

    open spec fn fields(&self) -> Seq<Field> {
        seq![Field::Int(self.entity_id), Field::Bool(self.is_hardcore), Field::TextList(self.dimension_names.deep_view()), Field::VarInt(self.max_players), Field::VarInt(self.view_distance), Field::VarInt(self.simulation_distance), Field::Bool(self.reduced_debug_info), Field::Bool(self.enable_respawn_screen), Field::VarInt(self.dimension_type), Field::Text(self.dimension_name.deep_view()), Field::Long(self.hashed_seed)]
    }

    proof fn lemma_fields_fit(&self) {
    }

    fn read(buffer: &mut Cursor) -> (res: Option<Self>) {
        proof {
            reveal_with_fuel(read_fields, 12);
        }
        let entity_id = match read_int_field(buffer) {
            Some(v) => v,
            None => return None,
        };
        let is_hardcore = match read_bool_field(buffer) {
            Some(v) => v,
            None => return None,
        };
        let dimension_names = match read_text_list_field(buffer) {
            Some(v) => v,
            None => return None,
        };
        let max_players = match read_varint_field(buffer) {
            Some(v) => v,
            None => return None,
        };
        let view_distance = match read_varint_field(buffer) {
            Some(v) => v,
            None => return None,
        };
        let simulation_distance = match read_varint_field(buffer) {
            Some(v) => v,
            None => return None,
        };
        let reduced_debug_info = match read_bool_field(buffer) {
            Some(v) => v,
            None => return None,
        };
        let enable_respawn_screen = match read_bool_field(buffer) {
            Some(v) => v,
            None => return None,
        };
        let dimension_type = match read_varint_field(buffer) {
            Some(v) => v,
            None => return None,
        };
        let dimension_name = match read_text_field(buffer) {
            Some(v) => v,
            None => return None,
        };
        let hashed_seed = match read_long_field(buffer) {
            Some(v) => v,
            None => return None,
        };
        Some(ClientsideLogin { entity_id, is_hardcore, dimension_names, max_players, view_distance, simulation_distance, reduced_debug_info, enable_respawn_screen, dimension_type, dimension_name, hashed_seed })
    }

    fn write(&self, buffer: &mut Vec<u8>) -> (res: Result<(), WriteError>) {
        let ghost fs = self.fields();
        assert(write_fields(fs, 0) == (Seq::<u8>::empty(), true));
        let r = write_int_field(self.entity_id, buffer);
        assert(buffer@ =~= old(buffer)@ + write_fields(fs, 1).0);
        if r.is_err() {
            proof {
                lemma_write_fields_stopped(fs, 1, 11);
            }
            return r;
        }
        let r = write_bool_field(self.is_hardcore, buffer);
        assert(buffer@ =~= old(buffer)@ + write_fields(fs, 2).0);
        if r.is_err() {
            proof {
                lemma_write_fields_stopped(fs, 2, 11);
            }
            return r;
        }
        let r = write_text_list_field(&self.dimension_names, buffer);
        assert(buffer@ =~= old(buffer)@ + write_fields(fs, 3).0);
        if r.is_err() {
            proof {
                lemma_write_fields_stopped(fs, 3, 11);
            }
            return r;
        }
        let r = write_varint_field(self.max_players, buffer);
        assert(buffer@ =~= old(buffer)@ + write_fields(fs, 4).0);
        if r.is_err() {
            proof {
                lemma_write_fields_stopped(fs, 4, 11);
            }
            return r;
        }
        let r = write_varint_field(self.view_distance, buffer);
        assert(buffer@ =~= old(buffer)@ + write_fields(fs, 5).0);
        if r.is_err() {
            proof {
                lemma_write_fields_stopped(fs, 5, 11);
            }
            return r;
        }
        let r = write_varint_field(self.simulation_distance, buffer);
        assert(buffer@ =~= old(buffer)@ + write_fields(fs, 6).0);
        if r.is_err() {
            proof {
                lemma_write_fields_stopped(fs, 6, 11);
            }
            return r;
        }
        let r = write_bool_field(self.reduced_debug_info, buffer);
        assert(buffer@ =~= old(buffer)@ + write_fields(fs, 7).0);
        if r.is_err() {
            proof {
                lemma_write_fields_stopped(fs, 7, 11);
            }
            return r;
        }
        let r = write_bool_field(self.enable_respawn_screen, buffer);
        assert(buffer@ =~= old(buffer)@ + write_fields(fs, 8).0);
        if r.is_err() {
            proof {
                lemma_write_fields_stopped(fs, 8, 11);
            }
            return r;
        }
        let r = write_varint_field(self.dimension_type, buffer);
        assert(buffer@ =~= old(buffer)@ + write_fields(fs, 9).0);
        if r.is_err() {
            proof {
                lemma_write_fields_stopped(fs, 9, 11);
            }
            return r;
        }
        let r = write_text_field(&self.dimension_name, buffer);
        assert(buffer@ =~= old(buffer)@ + write_fields(fs, 10).0);
        if r.is_err() {
            proof {
                lemma_write_fields_stopped(fs, 10, 11);
            }
            return r;
        }
        let r = write_long_field(self.hashed_seed, buffer);
        assert(buffer@ =~= old(buffer)@ + write_fields(fs, 11).0);
        if r.is_err() {
            proof {
                lemma_write_fields_stopped(fs, 11, 11);
            }
            return r;
        }
        Ok(())
    }
}

/// Writing a `ClientsideLogin` puts its fields on the wire one after another, in this
/// order: `entity_id`, `is_hardcore`, `dimension_names`, `max_players`, `view_distance`, `simulation_distance`, `reduced_debug_info`, `enable_respawn_screen`, `dimension_type`, `dimension_name`, `hashed_seed`.
#[verifier::spinoff_prover]
pub proof fn lemma_clientside_login_wire(entity_id: i32, is_hardcore: bool, dimension_names: Vec<String>, max_players: i32, view_distance: i32, simulation_distance: i32, reduced_debug_info: bool, enable_respawn_screen: bool, dimension_type: i32, dimension_name: String, hashed_seed: i64)
    requires
        write_field(Field::TextList(dimension_names.deep_view())).1,
        write_field(Field::Text(dimension_name.deep_view())).1,
    ensures
        write_fields((ClientsideLogin { entity_id, is_hardcore, dimension_names, max_players, view_distance, simulation_distance, reduced_debug_info, enable_respawn_screen, dimension_type, dimension_name, hashed_seed }).fields(), 11) == (write_field(Field::Int(entity_id)).0 + write_field(Field::Bool(is_hardcore)).0 + write_field(Field::TextList(dimension_names.deep_view())).0 + write_field(Field::VarInt(max_players)).0 + write_field(Field::VarInt(view_distance)).0 + write_field(Field::VarInt(simulation_distance)).0 + write_field(Field::Bool(reduced_debug_info)).0 + write_field(Field::Bool(enable_respawn_screen)).0 + write_field(Field::VarInt(dimension_type)).0 + write_field(Field::Text(dimension_name.deep_view())).0 + write_field(Field::Long(hashed_seed)).0, true),
{
    reveal_with_fuel(write_fields, 12);
    reveal(write_field);
}

/// Reading the fields of a `ClientsideLogin` written one after another, in the order
/// `entity_id`, `is_hardcore`, `dimension_names`, `max_players`, `view_distance`, `simulation_distance`, `reduced_debug_info`, `enable_respawn_screen`, `dimension_type`, `dimension_name`, `hashed_seed`, gives back a packet with those values, whatever
/// follows (nothing, after trailing bytes), when no list is oversized.
#[verifier::spinoff_prover]
pub proof fn lemma_clientside_login_reads_back(entity_id: i32, is_hardcore: bool, dimension_names: Vec<String>, max_players: i32, view_distance: i32, simulation_distance: i32, reduced_debug_info: bool, enable_respawn_screen: bool, dimension_type: i32, dimension_name: String, hashed_seed: i64, t: Seq<u8>)
    requires
        write_field(Field::TextList(dimension_names.deep_view())).1,
        write_field(Field::Text(dimension_name.deep_view())).1,
        fields_read_back((ClientsideLogin { entity_id, is_hardcore, dimension_names, max_players, view_distance, simulation_distance, reduced_debug_info, enable_respawn_screen, dimension_type, dimension_name, hashed_seed }).fields()),
        trailing_bytes_last((ClientsideLogin { entity_id, is_hardcore, dimension_names, max_players, view_distance, simulation_distance, reduced_debug_info, enable_respawn_screen, dimension_type, dimension_name, hashed_seed }).fields(), t),
    ensures
        read_fields(ClientsideLogin::layout(), write_field(Field::Int(entity_id)).0 + write_field(Field::Bool(is_hardcore)).0 + write_field(Field::TextList(dimension_names.deep_view())).0 + write_field(Field::VarInt(max_players)).0 + write_field(Field::VarInt(view_distance)).0 + write_field(Field::VarInt(simulation_distance)).0 + write_field(Field::Bool(reduced_debug_info)).0 + write_field(Field::Bool(enable_respawn_screen)).0 + write_field(Field::VarInt(dimension_type)).0 + write_field(Field::Text(dimension_name.deep_view())).0 + write_field(Field::Long(hashed_seed)).0 + t, 0) == (Some((ClientsideLogin { entity_id, is_hardcore, dimension_names, max_players, view_distance, simulation_distance, reduced_debug_info, enable_respawn_screen, dimension_type, dimension_name, hashed_seed }).fields()), (write_field(Field::Int(entity_id)).0 + write_field(Field::Bool(is_hardcore)).0 + write_field(Field::TextList(dimension_names.deep_view())).0 + write_field(Field::VarInt(max_players)).0 + write_field(Field::VarInt(view_distance)).0 + write_field(Field::VarInt(simulation_distance)).0 + write_field(Field::Bool(reduced_debug_info)).0 + write_field(Field::Bool(enable_respawn_screen)).0 + write_field(Field::VarInt(dimension_type)).0 + write_field(Field::Text(dimension_name.deep_view())).0 + write_field(Field::Long(hashed_seed)).0).len()),
{
    lemma_clientside_login_wire(entity_id, is_hardcore, dimension_names, max_players, view_distance, simulation_distance, reduced_debug_info, enable_respawn_screen, dimension_type, dimension_name, hashed_seed);
    lemma_packet_roundtrip((ClientsideLogin { entity_id, is_hardcore, dimension_names, max_players, view_distance, simulation_distance, reduced_debug_info, enable_respawn_screen, dimension_type, dimension_name, hashed_seed }), t);
}

/// A chunk left the view.
#[derive(Clone, Debug, PartialEq)]
pub struct ClientsideUnloadChunk {
    pub chunk_x: i32,
    pub chunk_z: i32,
}

impl Packet for ClientsideUnloadChunk {
    open spec fn layout() -> Seq<FieldKind> {
        seq![FieldKind::Int, FieldKind::Int]
    }

    open spec fn fields(&self) -> Seq<Field> {
        seq![Field::Int(self.chunk_x), Field::Int(self.chunk_z)]
    }

    proof fn lemma_fields_fit(&self) {
    }

    fn read(buffer: &mut Cursor) -> (res: Option<Self>) {
        proof {
            reveal_with_fuel(read_fields, 3);
        }
        let chunk_x = match read_int_field(buffer) {
            Some(v) => v,
            None => return None,
        };
        let chunk_z = match read_int_field(buffer) {
            Some(v) => v,
            None => return None,
        };
        Some(ClientsideUnloadChunk { chunk_x, chunk_z })
    }

    fn write(&self, buffer: &mut Vec<u8>) -> (res: Result<(), WriteError>) {
        let ghost fs = self.fields();
        assert(write_fields(fs, 0) == (Seq::<u8>::empty(), true));
        let r = write_int_field(self.chunk_x, buffer);
        assert(buffer@ =~= old(buffer)@ + write_fields(fs, 1).0);
        if r.is_err() {
            proof {
                lemma_write_fields_stopped(fs, 1, 2);
            }
            return r;
        }
        let r = write_int_field(self.chunk_z, buffer);
        assert(buffer@ =~= old(buffer)@ + write_fields(fs, 2).0);
        if r.is_err() {
            proof {
                lemma_write_fields_stopped(fs, 2, 2);
            }
            return r;
        }
        Ok(())
    }
}

/// Writing a `ClientsideUnloadChunk` puts its fields on the wire one after another, in this
/// order: `chunk_x`, `chunk_z`.
#[verifier::spinoff_prover]
pub proof fn lemma_clientside_unload_chunk_wire(chunk_x: i32, chunk_z: i32)
    ensures
        write_fields((ClientsideUnloadChunk { chunk_x, chunk_z }).fields(), 2) == (write_field(Field::Int(chunk_x)).0 + write_field(Field::Int(chunk_z)).0, true),
{
    reveal_with_fuel(write_fields, 3);
    reveal(write_field);
}

/// Reading the fields of a `ClientsideUnloadChunk` written one after another, in the order
/// `chunk_x`, `chunk_z`, gives back a packet with those values, whatever
/// follows (nothing, after trailing bytes), when no list is oversized.
#[verifier::spinoff_prover]
pub proof fn lemma_clientside_unload_chunk_reads_back(chunk_x: i32, chunk_z: i32, t: Seq<u8>)
    requires
        fields_read_back((ClientsideUnloadChunk { chunk_x, chunk_z }).fields()),
        trailing_bytes_last((ClientsideUnloadChunk { chunk_x, chunk_z }).fields(), t),
    ensures
        read_fields(ClientsideUnloadChunk::layout(), write_field(Field::Int(chunk_x)).0 + write_field(Field::Int(chunk_z)).0 + t, 0) == (Some((ClientsideUnloadChunk { chunk_x, chunk_z }).fields()), (write_field(Field::Int(chunk_x)).0 + write_field(Field::Int(chunk_z)).0).len()),
{
    lemma_clientside_unload_chunk_wire(chunk_x, chunk_z);
    lemma_packet_roundtrip((ClientsideUnloadChunk { chunk_x, chunk_z }), t);
}

/// A chat message is removed.
#[derive(Clone, Debug, PartialEq)]
pub struct ClientsideClearChat {
    pub message_id: i32,
    pub signature: Option<Vec<u8>>,
}

impl Packet for ClientsideClearChat {
    open spec fn layout() -> Seq<FieldKind> {
        seq![FieldKind::VarInt, FieldKind::OptionalByteArray]
    }

    open spec fn fields(&self) -> Seq<Field> {
        seq![Field::VarInt(self.message_id), Field::OptionalByteArray(self.signature.deep_view())]
    }

    proof fn lemma_fields_fit(&self) {
    }

    fn read(buffer: &mut Cursor) -> (res: Option<Self>) {
        proof {
            reveal_with_fuel(read_fields, 3);
        }
        let message_id = match read_varint_field(buffer) {
            Some(v) => v,
            None => return None,
        };
        let signature = match read_optional_byte_array_field(buffer) {
            Some(v) => v,
            None => return None,
        };
        Some(ClientsideClearChat { message_id, signature })
    }

    fn write(&self, buffer: &mut Vec<u8>) -> (res: Result<(), WriteError>) {
        let ghost fs = self.fields();
        assert(write_fields(fs, 0) == (Seq::<u8>::empty(), true));
        let r = write_varint_field(self.message_id, buffer);
        assert(buffer@ =~= old(buffer)@ + write_fields(fs, 1).0);
        if r.is_err() {
            proof {
                lemma_write_fields_stopped(fs, 1, 2);
            }
            return r;
        }
        let r = write_optional_byte_array_field(&self.signature, buffer);
        assert(buffer@ =~= old(buffer)@ + write_fields(fs, 2).0);
        if r.is_err() {
            proof {
                lemma_write_fields_stopped(fs, 2, 2);
            }
            return r;
        }
        Ok(())
    }
}

/// Writing a `ClientsideClearChat` puts its fields on the wire one after another, in this
/// order: `message_id`, `signature`.
#[verifier::spinoff_prover]
pub proof fn lemma_clientside_clear_chat_wire(message_id: i32, signature: Option<Vec<u8>>)
    requires
        write_field(Field::OptionalByteArray(signature.deep_view())).1,
    ensures
        write_fields((ClientsideClearChat { message_id, signature }).fields(), 2) == (write_field(Field::VarInt(message_id)).0 + write_field(Field::OptionalByteArray(signature.deep_view())).0, true),
{
    reveal_with_fuel(write_fields, 3);
    reveal(write_field);
}

/// Reading the fields of a `ClientsideClearChat` written one after another, in the order
/// `message_id`, `signature`, gives back a packet with those values, whatever
/// follows (nothing, after trailing bytes), when no list is oversized.
#[verifier::spinoff_prover]
pub proof fn lemma_clientside_clear_chat_reads_back(message_id: i32, signature: Option<Vec<u8>>, t: Seq<u8>)
    requires
        write_field(Field::OptionalByteArray(signature.deep_view())).1,
        fields_read_back((ClientsideClearChat { message_id, signature }).fields()),
        trailing_bytes_last((ClientsideClearChat { message_id, signature }).fields(), t),
    ensures
        read_fields(ClientsideClearChat::layout(), write_field(Field::VarInt(message_id)).0 + write_field(Field::OptionalByteArray(signature.deep_view())).0 + t, 0) == (Some((ClientsideClearChat { message_id, signature }).fields()), (write_field(Field::VarInt(message_id)).0 + write_field(Field::OptionalByteArray(signature.deep_view())).0).len()),
{
    lemma_clientside_clear_chat_wire(message_id, signature);
    lemma_packet_roundtrip((ClientsideClearChat { message_id, signature }), t);
}

/// A chunk with its light, kept raw.
#[derive(Clone, Debug, PartialEq)]
pub struct ClientsideLoadChunkWithLight {
    pub chunk_x: i32,
    pub chunk_z: i32,
    pub chunk_data: Vec<u8>,
    pub light_data: Vec<u8>,
}

impl Packet for ClientsideLoadChunkWithLight {
    open spec fn layout() -> Seq<FieldKind> {
        seq![FieldKind::Int, FieldKind::Int, FieldKind::ByteArray, FieldKind::ByteArray]
    }

    open spec fn fields(&self) -> Seq<Field> {
        seq![Field::Int(self.chunk_x), Field::Int(self.chunk_z), Field::ByteArray(self.chunk_data.deep_view()), Field::ByteArray(self.light_data.deep_view())]
    }

    proof fn lemma_fields_fit(&self) {
    }

    fn read(buffer: &mut Cursor) -> (res: Option<Self>) {
        proof {
            reveal_with_fuel(read_fields, 5);
        }
        let chunk_x = match read_int_field(buffer) {
            Some(v) => v,
            None => return None,
        };
        let chunk_z = match read_int_field(buffer) {
            Some(v) => v,
            None => return None,
        };
        let chunk_data = match read_byte_array_field(buffer) {
            Some(v) => v,
            None => return None,
        };
        let light_data = match read_byte_array_field(buffer) {
            Some(v) => v,
            None => return None,
        };
        Some(ClientsideLoadChunkWithLight { chunk_x, chunk_z, chunk_data, light_data })
    }

    fn write(&self, buffer: &mut Vec<u8>) -> (res: Result<(), WriteError>) {
        let ghost fs = self.fields();
        assert(write_fields(fs, 0) == (Seq::<u8>::empty(), true));
        let r = write_int_field(self.chunk_x, buffer);
        assert(buffer@ =~= old(buffer)@ + write_fields(fs, 1).0);
        if r.is_err() {
            proof {
                lemma_write_fields_stopped(fs, 1, 4);
            }
            return r;
        }
        let r = write_int_field(self.chunk_z, buffer);
        assert(buffer@ =~= old(buffer)@ + write_fields(fs, 2).0);
        if r.is_err() {
            proof {
                lemma_write_fields_stopped(fs, 2, 4);
            }
            return r;
        }
        let r = write_byte_array_field(&self.chunk_data, buffer);
        assert(buffer@ =~= old(buffer)@ + write_fields(fs, 3).0);
        if r.is_err() {
            proof {
                lemma_write_fields_stopped(fs, 3, 4);
            }
            return r;
        }
        let r = write_byte_array_field(&self.light_data, buffer);
        assert(buffer@ =~= old(buffer)@ + write_fields(fs, 4).0);
        if r.is_err() {
            proof {
                lemma_write_fields_stopped(fs, 4, 4);
            }
            return r;
        }
        Ok(())
    }
}

/// Writing a `ClientsideLoadChunkWithLight` puts its fields on the wire one after another, in this
/// order: `chunk_x`, `chunk_z`, `chunk_data`, `light_data`.
#[verifier::spinoff_prover]
pub proof fn lemma_clientside_load_chunk_with_light_wire(chunk_x: i32, chunk_z: i32, chunk_data: Vec<u8>, light_data: Vec<u8>)
    requires
        write_field(Field::ByteArray(chunk_data.deep_view())).1,
        write_field(Field::ByteArray(light_data.deep_view())).1,
    ensures
        write_fields((ClientsideLoadChunkWithLight { chunk_x, chunk_z, chunk_data, light_data }).fields(), 4) == (write_field(Field::Int(chunk_x)).0 + write_field(Field::Int(chunk_z)).0 + write_field(Field::ByteArray(chunk_data.deep_view())).0 + write_field(Field::ByteArray(light_data.deep_view())).0, true),
{
    reveal_with_fuel(write_fields, 5);
    reveal(write_field);
}

/// Reading the fields of a `ClientsideLoadChunkWithLight` written one after another, in the order
/// `chunk_x`, `chunk_z`, `chunk_data`, `light_data`, gives back a packet with those values, whatever
/// follows (nothing, after trailing bytes), when no list is oversized.
#[verifier::spinoff_prover]
pub proof fn lemma_clientside_load_chunk_with_light_reads_back(chunk_x: i32, chunk_z: i32, chunk_data: Vec<u8>, light_data: Vec<u8>, t: Seq<u8>)
    requires
        write_field(Field::ByteArray(chunk_data.deep_view())).1,
        write_field(Field::ByteArray(light_data.deep_view())).1,
        fields_read_back((ClientsideLoadChunkWithLight { chunk_x, chunk_z, chunk_data, light_data }).fields()),
        trailing_bytes_last((ClientsideLoadChunkWithLight { chunk_x, chunk_z, chunk_data, light_data }).fields(), t),
    ensures
        read_fields(ClientsideLoadChunkWithLight::layout(), write_field(Field::Int(chunk_x)).0 + write_field(Field::Int(chunk_z)).0 + write_field(Field::ByteArray(chunk_data.deep_view())).0 + write_field(Field::ByteArray(light_data.deep_view())).0 + t, 0) == (Some((ClientsideLoadChunkWithLight { chunk_x, chunk_z, chunk_data, light_data }).fields()), (write_field(Field::Int(chunk_x)).0 + write_field(Field::Int(chunk_z)).0 + write_field(Field::ByteArray(chunk_data.deep_view())).0 + write_field(Field::ByteArray(light_data.deep_view())).0).len()),
{
    lemma_clientside_load_chunk_with_light_wire(chunk_x, chunk_z, chunk_data, light_data);
    lemma_packet_roundtrip((ClientsideLoadChunkWithLight { chunk_x, chunk_z, chunk_data, light_data }), t);
}

/// A batch of chunks begins.
#[derive(Clone, Copy, Debug, PartialEq, Eq)]
pub struct ClientsideChunkBatchStart;

impl Packet for ClientsideChunkBatchStart {
    open spec fn layout() -> Seq<FieldKind> {
        Seq::empty()
    }

    open spec fn fields(&self) -> Seq<Field> {
        Seq::empty()
    }

    proof fn lemma_fields_fit(&self) {
    }

    fn read(buffer: &mut Cursor) -> (res: Option<Self>) {
        proof {
            reveal_with_fuel(read_fields, 1);
        }
        Some(ClientsideChunkBatchStart)
    }

    fn write(&self, buffer: &mut Vec<u8>) -> (res: Result<(), WriteError>) {
        let ghost fs = self.fields();
        assert(write_fields(fs, 0) == (Seq::<u8>::empty(), true));
        assert(buffer@ =~= old(buffer)@ + Seq::<u8>::empty());
        Ok(())
    }
}


/// A batch of chunks ended.
#[derive(Clone, Debug, PartialEq)]
pub struct ClientsideChunkBatchFinished {
    pub batch_size: i32,
}

impl Packet for ClientsideChunkBatchFinished {
    open spec fn layout() -> Seq<FieldKind> {
        seq![FieldKind::VarInt]
    }

    open spec fn fields(&self) -> Seq<Field> {
        seq![Field::VarInt(self.batch_size)]
    }

    proof fn lemma_fields_fit(&self) {
    }

    fn read(buffer: &mut Cursor) -> (res: Option<Self>) {
        proof {
            reveal_with_fuel(read_fields, 2);
        }
        let batch_size = match read_varint_field(buffer) {
            Some(v) => v,
            None => return None,
        };
        Some(ClientsideChunkBatchFinished { batch_size })
    }

    fn write(&self, buffer: &mut Vec<u8>) -> (res: Result<(), WriteError>) {
        let ghost fs = self.fields();
        assert(write_fields(fs, 0) == (Seq::<u8>::empty(), true));
        let r = write_varint_field(self.batch_size, buffer);
        assert(buffer@ =~= old(buffer)@ + write_fields(fs, 1).0);
        if r.is_err() {
            proof {
                lemma_write_fields_stopped(fs, 1, 1);
            }
            return r;
        }
        Ok(())
    }
}

/// Writing a `ClientsideChunkBatchFinished` puts its fields on the wire one after another, in this
/// order: `batch_size`.
#[verifier::spinoff_prover]
pub proof fn lemma_clientside_chunk_batch_finished_wire(batch_size: i32)
    ensures
        write_fields((ClientsideChunkBatchFinished { batch_size }).fields(), 1) == (write_field(Field::VarInt(batch_size)).0, true),
{
    reveal_with_fuel(write_fields, 2);
    reveal(write_field);
}

/// Reading the fields of a `ClientsideChunkBatchFinished` written one after another, in the order
/// `batch_size`, gives back a packet with those values, whatever
/// follows (nothing, after trailing bytes), when no list is oversized.
#[verifier::spinoff_prover]
pub proof fn lemma_clientside_chunk_batch_finished_reads_back(batch_size: i32, t: Seq<u8>)
    requires
        fields_read_back((ClientsideChunkBatchFinished { batch_size }).fields()),
        trailing_bytes_last((ClientsideChunkBatchFinished { batch_size }).fields(), t),
    ensures
        read_fields(ClientsideChunkBatchFinished::layout(), write_field(Field::VarInt(batch_size)).0 + t, 0) == (Some((ClientsideChunkBatchFinished { batch_size }).fields()), (write_field(Field::VarInt(batch_size)).0).len()),
{
    lemma_clientside_chunk_batch_finished_wire(batch_size);
    lemma_packet_roundtrip((ClientsideChunkBatchFinished { batch_size }), t);
}

/// Light of a chunk, kept raw.
#[derive(Clone, Debug, PartialEq)]
pub struct ClientsideLightUpdate {
    pub chunk_x: i32,
    pub chunk_z: i32,
    pub light_data: Vec<u8>,
}

impl Packet for ClientsideLightUpdate {
    open spec fn layout() -> Seq<FieldKind> {
        seq![FieldKind::VarInt, FieldKind::VarInt, FieldKind::ByteArray]
    }

    open spec fn fields(&self) -> Seq<Field> {
        seq![Field::VarInt(self.chunk_x), Field::VarInt(self.chunk_z), Field::ByteArray(self.light_data.deep_view())]
    }

    proof fn lemma_fields_fit(&self) {
    }

    fn read(buffer: &mut Cursor) -> (res: Option<Self>) {
        proof {
            reveal_with_fuel(read_fields, 4);
        }
        let chunk_x = match read_varint_field(buffer) {
            Some(v) => v,
            None => return None,
        };
        let chunk_z = match read_varint_field(buffer) {
            Some(v) => v,
            None => return None,
        };
        let light_data = match read_byte_array_field(buffer) {
            Some(v) => v,
            None => return None,
        };
        Some(ClientsideLightUpdate { chunk_x, chunk_z, light_data })
    }

    fn write(&self, buffer: &mut Vec<u8>) -> (res: Result<(), WriteError>) {
        let ghost fs = self.fields();
        assert(write_fields(fs, 0) == (Seq::<u8>::empty(), true));
        let r = write_varint_field(self.chunk_x, buffer);
        assert(buffer@ =~= old(buffer)@ + write_fields(fs, 1).0);
        if r.is_err() {
            proof {
                lemma_write_fields_stopped(fs, 1, 3);
            }
            return r;
        }
        let r = write_varint_field(self.chunk_z, buffer);
        assert(buffer@ =~= old(buffer)@ + write_fields(fs, 2).0);
        if r.is_err() {
            proof {
                lemma_write_fields_stopped(fs, 2, 3);
            }
            return r;
        }
        let r = write_byte_array_field(&self.light_data, buffer);
        assert(buffer@ =~= old(buffer)@ + write_fields(fs, 3).0);
        if r.is_err() {
            proof {
                lemma_write_fields_stopped(fs, 3, 3);
            }
            return r;
        }
        Ok(())
    }
}

/// Writing a `ClientsideLightUpdate` puts its fields on the wire one after another, in this
/// order: `chunk_x`, `chunk_z`, `light_data`.
#[verifier::spinoff_prover]
pub proof fn lemma_clientside_light_update_wire(chunk_x: i32, chunk_z: i32, light_data: Vec<u8>)
    requires
        write_field(Field::ByteArray(light_data.deep_view())).1,
    ensures
        write_fields((ClientsideLightUpdate { chunk_x, chunk_z, light_data }).fields(), 3) == (write_field(Field::VarInt(chunk_x)).0 + write_field(Field::VarInt(chunk_z)).0 + write_field(Field::ByteArray(light_data.deep_view())).0, true),
{
    reveal_with_fuel(write_fields, 4);
    reveal(write_field);
}

/// Reading the fields of a `ClientsideLightUpdate` written one after another, in the order
/// `chunk_x`, `chunk_z`, `light_data`, gives back a packet with those values, whatever
/// follows (nothing, after trailing bytes), when no list is oversized.
#[verifier::spinoff_prover]
pub proof fn lemma_clientside_light_update_reads_back(chunk_x: i32, chunk_z: i32, light_data: Vec<u8>, t: Seq<u8>)
    requires
        write_field(Field::ByteArray(light_data.deep_view())).1,
        fields_read_back((ClientsideLightUpdate { chunk_x, chunk_z, light_data }).fields()),
        trailing_bytes_last((ClientsideLightUpdate { chunk_x, chunk_z, light_data }).fields(), t),
    ensures
        read_fields(ClientsideLightUpdate::layout(), write_field(Field::VarInt(chunk_x)).0 + write_field(Field::VarInt(chunk_z)).0 + write_field(Field::ByteArray(light_data.deep_view())).0 + t, 0) == (Some((ClientsideLightUpdate { chunk_x, chunk_z, light_data }).fields()), (write_field(Field::VarInt(chunk_x)).0 + write_field(Field::VarInt(chunk_z)).0 + write_field(Field::ByteArray(light_data.deep_view())).0).len()),
{
    lemma_clientside_light_update_wire(chunk_x, chunk_z, light_data);
    lemma_packet_roundtrip((ClientsideLightUpdate { chunk_x, chunk_z, light_data }), t);
}

/// A container window closed.
#[derive(Clone, Debug, PartialEq)]
pub struct ClientsideCloseContainer {
    pub container_id: i32,
}

impl Packet for ClientsideCloseContainer {
    open spec fn layout() -> Seq<FieldKind> {
        seq![FieldKind::VarInt]
    }

    open spec fn fields(&self) -> Seq<Field> {
        seq![Field::VarInt(self.container_id)]
    }

    proof fn lemma_fields_fit(&self) {
    }

    fn read(buffer: &mut Cursor) -> (res: Option<Self>) {
        proof {
            reveal_with_fuel(read_fields, 2);
        }
        let container_id = match read_varint_field(buffer) {
            Some(v) => v,
            None => return None,
        };
        Some(ClientsideCloseContainer { container_id })
    }

    fn write(&self, buffer: &mut Vec<u8>) -> (res: Result<(), WriteError>) {
        let ghost fs = self.fields();
        assert(write_fields(fs, 0) == (Seq::<u8>::empty(), true));
        let r = write_varint_field(self.container_id, buffer);
        assert(buffer@ =~= old(buffer)@ + write_fields(fs, 1).0);
        if r.is_err() {
            proof {
                lemma_write_fields_stopped(fs, 1, 1);
            }
            return r;
        }
        Ok(())
    }
}

/// Writing a `ClientsideCloseContainer` puts its fields on the wire one after another, in this
/// order: `container_id`.
#[verifier::spinoff_prover]
pub proof fn lemma_clientside_close_container_wire(container_id: i32)
    ensures
        write_fields((ClientsideCloseContainer { container_id }).fields(), 1) == (write_field(Field::VarInt(container_id)).0, true),
{
    reveal_with_fuel(write_fields, 2);
    reveal(write_field);
}

/// Reading the fields of a `ClientsideCloseContainer` written one after another, in the order
/// `container_id`, gives back a packet with those values, whatever
/// follows (nothing, after trailing bytes), when no list is oversized.
#[verifier::spinoff_prover]
pub proof fn lemma_clientside_close_container_reads_back(container_id: i32, t: Seq<u8>)
    requires
        fields_read_back((ClientsideCloseContainer { container_id }).fields()),
        trailing_bytes_last((ClientsideCloseContainer { container_id }).fields(), t),
    ensures
        read_fields(ClientsideCloseContainer::layout(), write_field(Field::VarInt(container_id)).0 + t, 0) == (Some((ClientsideCloseContainer { container_id }).fields()), (write_field(Field::VarInt(container_id)).0).len()),
{
    lemma_clientside_close_container_wire(container_id);
    lemma_packet_roundtrip((ClientsideCloseContainer { container_id }), t);
}

/// A property of a container window.
#[derive(Clone, Debug, PartialEq)]
pub struct ClientsideContainerSetData {
    pub container_id: i32,
    pub property: i32,
    pub value: i32,
}

impl Packet for ClientsideContainerSetData {
    open spec fn layout() -> Seq<FieldKind> {
        seq![FieldKind::VarInt, FieldKind::VarInt, FieldKind::VarInt]
    }

    open spec fn fields(&self) -> Seq<Field> {
        seq![Field::VarInt(self.container_id), Field::VarInt(self.property), Field::VarInt(self.value)]
    }

    proof fn lemma_fields_fit(&self) {
    }

    fn read(buffer: &mut Cursor) -> (res: Option<Self>) {
        proof {
            reveal_with_fuel(read_fields, 4);
        }
        let container_id = match read_varint_field(buffer) {
            Some(v) => v,
            None => return None,
        };
        let property = match read_varint_field(buffer) {
            Some(v) => v,
            None => return None,
        };
        let value = match read_varint_field(buffer) {
            Some(v) => v,
            None => return None,
        };
        Some(ClientsideContainerSetData { container_id, property, value })
    }

    fn write(&self, buffer: &mut Vec<u8>) -> (res: Result<(), WriteError>) {
        let ghost fs = self.fields();
        assert(write_fields(fs, 0) == (Seq::<u8>::empty(), true));
        let r = write_varint_field(self.container_id, buffer);
        assert(buffer@ =~= old(buffer)@ + write_fields(fs, 1).0);
        if r.is_err() {
            proof {
                lemma_write_fields_stopped(fs, 1, 3);
            }
            return r;
        }
        let r = write_varint_field(self.property, buffer);
        assert(buffer@ =~= old(buffer)@ + write_fields(fs, 2).0);
        if r.is_err() {
            proof {
                lemma_write_fields_stopped(fs, 2, 3);
            }
            return r;
        }
        let r = write_varint_field(self.value, buffer);
        assert(buffer@ =~= old(buffer)@ + write_fields(fs, 3).0);
        if r.is_err() {
            proof {
                lemma_write_fields_stopped(fs, 3, 3);
            }
            return r;
        }
        Ok(())
    }
}

/// Writing a `ClientsideContainerSetData` puts its fields on the wire one after another, in this
/// order: `container_id`, `property`, `value`.
#[verifier::spinoff_prover]
pub proof fn lemma_clientside_container_set_data_wire(container_id: i32, property: i32, value: i32)
    ensures
        write_fields((ClientsideContainerSetData { container_id, property, value }).fields(), 3) == (write_field(Field::VarInt(container_id)).0 + write_field(Field::VarInt(property)).0 + write_field(Field::VarInt(value)).0, true),
{
    reveal_with_fuel(write_fields, 4);
    reveal(write_field);
}

/// Reading the fields of a `ClientsideContainerSetData` written one after another, in the order
/// `container_id`, `property`, `value`, gives back a packet with those values, whatever
/// follows (nothing, after trailing bytes), when no list is oversized.
#[verifier::spinoff_prover]
pub proof fn lemma_clientside_container_set_data_reads_back(container_id: i32, property: i32, value: i32, t: Seq<u8>)
    requires
        fields_read_back((ClientsideContainerSetData { container_id, property, value }).fields()),
        trailing_bytes_last((ClientsideContainerSetData { container_id, property, value }).fields(), t),
    ensures
        read_fields(ClientsideContainerSetData::layout(), write_field(Field::VarInt(container_id)).0 + write_field(Field::VarInt(property)).0 + write_field(Field::VarInt(value)).0 + t, 0) == (Some((ClientsideContainerSetData { container_id, property, value }).fields()), (write_field(Field::VarInt(container_id)).0 + write_field(Field::VarInt(property)).0 + write_field(Field::VarInt(value)).0).len()),
{
    lemma_clientside_container_set_data_wire(container_id, property, value);
    lemma_packet_roundtrip((ClientsideContainerSetData { container_id, property, value }), t);
}

/// Answer to a ping.
#[derive(Clone, Debug, PartialEq)]
pub struct ServersidePong {
    pub id: i32,
}

impl Packet for ServersidePong {
    open spec fn layout() -> Seq<FieldKind> {
        seq![FieldKind::Int]
    }

    open spec fn fields(&self) -> Seq<Field> {
        seq![Field::Int(self.id)]
    }

    proof fn lemma_fields_fit(&self) {
    }

    fn read(buffer: &mut Cursor) -> (res: Option<Self>) {
        proof {
            reveal_with_fuel(read_fields, 2);
        }
        let id = match read_int_field(buffer) {
            Some(v) => v,
            None => return None,
        };
        Some(ServersidePong { id })
    }

    fn write(&self, buffer: &mut Vec<u8>) -> (res: Result<(), WriteError>) {
        let ghost fs = self.fields();
        assert(write_fields(fs, 0) == (Seq::<u8>::empty(), true));
        let r = write_int_field(self.id, buffer);
        assert(buffer@ =~= old(buffer)@ + write_fields(fs, 1).0);
        if r.is_err() {
            proof {
                lemma_write_fields_stopped(fs, 1, 1);
            }
            return r;
        }
        Ok(())
    }
}

/// Writing a `ServersidePong` puts its fields on the wire one after another, in this
/// order: `id`.
#[verifier::spinoff_prover]
pub proof fn lemma_serverside_pong_wire(id: i32)
    ensures
        write_fields((ServersidePong { id }).fields(), 1) == (write_field(Field::Int(id)).0, true),
{
    reveal_with_fuel(write_fields, 2);
    reveal(write_field);
}

/// Reading the fields of a `ServersidePong` written one after another, in the order
/// `id`, gives back a packet with those values, whatever
/// follows (nothing, after trailing bytes), when no list is oversized.
#[verifier::spinoff_prover]
pub proof fn lemma_serverside_pong_reads_back(id: i32, t: Seq<u8>)
    requires
        fields_read_back((ServersidePong { id }).fields()),
        trailing_bytes_last((ServersidePong { id }).fields(), t),
    ensures
        read_fields(ServersidePong::layout(), write_field(Field::Int(id)).0 + t, 0) == (Some((ServersidePong { id }).fields()), (write_field(Field::Int(id)).0).len()),
{
    lemma_serverside_pong_wire(id);
    lemma_packet_roundtrip((ServersidePong { id }), t);
}

/// A ping to the server.
#[derive(Clone, Debug, PartialEq)]
pub struct ServersidePingRequest {
    pub timestamp: i64,
}

impl Packet for ServersidePingRequest {
    open spec fn layout() -> Seq<FieldKind> {
        seq![FieldKind::Long]
    }

    open spec fn fields(&self) -> Seq<Field> {
        seq![Field::Long(self.timestamp)]
    }

    proof fn lemma_fields_fit(&self) {
    }

    fn read(buffer: &mut Cursor) -> (res: Option<Self>) {
        proof {
            reveal_with_fuel(read_fields, 2);
        }
        let timestamp = match read_long_field(buffer) {
            Some(v) => v,
            None => return None,
        };
        Some(ServersidePingRequest { timestamp })
    }

    fn write(&self, buffer: &mut Vec<u8>) -> (res: Result<(), WriteError>) {
        let ghost fs = self.fields();
        assert(write_fields(fs, 0) == (Seq::<u8>::empty(), true));
        let r = write_long_field(self.timestamp, buffer);
        assert(buffer@ =~= old(buffer)@ + write_fields(fs, 1).0);
        if r.is_err() {
            proof {
                lemma_write_fields_stopped(fs, 1, 1);
            }
            return r;
        }
        Ok(())
    }
}

/// Writing a `ServersidePingRequest` puts its fields on the wire one after another, in this
/// order: `timestamp`.
#[verifier::spinoff_prover]
pub proof fn lemma_serverside_ping_request_wire(timestamp: i64)
    ensures
        write_fields((ServersidePingRequest { timestamp }).fields(), 1) == (write_field(Field::Long(timestamp)).0, true),
{
    reveal_with_fuel(write_fields, 2);
    reveal(write_field);
}

/// Reading the fields of a `ServersidePingRequest` written one after another, in the order
/// `timestamp`, gives back a packet with those values, whatever
/// follows (nothing, after trailing bytes), when no list is oversized.
#[verifier::spinoff_prover]
pub proof fn lemma_serverside_ping_request_reads_back(timestamp: i64, t: Seq<u8>)
    requires
        fields_read_back((ServersidePingRequest { timestamp }).fields()),
        trailing_bytes_last((ServersidePingRequest { timestamp }).fields(), t),
    ensures
        read_fields(ServersidePingRequest::layout(), write_field(Field::Long(timestamp)).0 + t, 0) == (Some((ServersidePingRequest { timestamp }).fields()), (write_field(Field::Long(timestamp)).0).len()),
{
    lemma_serverside_ping_request_wire(timestamp);
    lemma_packet_roundtrip((ServersidePingRequest { timestamp }), t);
}

/// Confirms a teleport.
#[derive(Clone, Debug, PartialEq)]
pub struct ServersideAcceptTeleportation {
    pub teleport_id: i64,
}

impl Packet for ServersideAcceptTeleportation {
    open spec fn layout() -> Seq<FieldKind> {
        seq![FieldKind::VarLong]
    }

    open spec fn fields(&self) -> Seq<Field> {
        seq![Field::VarLong(self.teleport_id)]
    }

    proof fn lemma_fields_fit(&self) {
    }

    fn read(buffer: &mut Cursor) -> (res: Option<Self>) {
        proof {
            reveal_with_fuel(read_fields, 2);
        }
        let teleport_id = match read_varlong_field(buffer) {
            Some(v) => v,
            None => return None,
        };
        Some(ServersideAcceptTeleportation { teleport_id })
    }

    fn write(&self, buffer: &mut Vec<u8>) -> (res: Result<(), WriteError>) {
        let ghost fs = self.fields();
        assert(write_fields(fs, 0) == (Seq::<u8>::empty(), true));
        let r = write_varlong_field(self.teleport_id, buffer);
        assert(buffer@ =~= old(buffer)@ + write_fields(fs, 1).0);
        if r.is_err() {
            proof {
                lemma_write_fields_stopped(fs, 1, 1);
            }
            return r;
        }
        Ok(())
    }
}

/// Writing a `ServersideAcceptTeleportation` puts its fields on the wire one after another, in this
/// order: `teleport_id`.
#[verifier::spinoff_prover]
pub proof fn lemma_serverside_accept_teleportation_wire(teleport_id: i64)
    ensures
        write_fields((ServersideAcceptTeleportation { teleport_id }).fields(), 1) == (write_field(Field::VarLong(teleport_id)).0, true),
{
    reveal_with_fuel(write_fields, 2);
    reveal(write_field);
}

/// Reading the fields of a `ServersideAcceptTeleportation` written one after another, in the order
/// `teleport_id`, gives back a packet with those values, whatever
/// follows (nothing, after trailing bytes), when no list is oversized.
#[verifier::spinoff_prover]
pub proof fn lemma_serverside_accept_teleportation_reads_back(teleport_id: i64, t: Seq<u8>)
    requires
        fields_read_back((ServersideAcceptTeleportation { teleport_id }).fields()),
        trailing_bytes_last((ServersideAcceptTeleportation { teleport_id }).fields(), t),
    ensures
        read_fields(ServersideAcceptTeleportation::layout(), write_field(Field::VarLong(teleport_id)).0 + t, 0) == (Some((ServersideAcceptTeleportation { teleport_id }).fields()), (write_field(Field::VarLong(teleport_id)).0).len()),
{
    lemma_serverside_accept_teleportation_wire(teleport_id);
    lemma_packet_roundtrip((ServersideAcceptTeleportation { teleport_id }), t);
}

/// A chat command.
#[derive(Clone, Debug, PartialEq)]
pub struct ServersideChatCommand {
    pub command: String,
}

impl Packet for ServersideChatCommand {
    open spec fn layout() -> Seq<FieldKind> {
        seq![FieldKind::Text]
    }

    open spec fn fields(&self) -> Seq<Field> {
        seq![Field::Text(self.command.deep_view())]
    }

    proof fn lemma_fields_fit(&self) {
    }

    fn read(buffer: &mut Cursor) -> (res: Option<Self>) {
        proof {
            reveal_with_fuel(read_fields, 2);
        }
        let command = match read_text_field(buffer) {
            Some(v) => v,
            None => return None,
        };
        Some(ServersideChatCommand { command })
    }

    fn write(&self, buffer: &mut Vec<u8>) -> (res: Result<(), WriteError>) {
        let ghost fs = self.fields();
        assert(write_fields(fs, 0) == (Seq::<u8>::empty(), true));
        let r = write_text_field(&self.command, buffer);
        assert(buffer@ =~= old(buffer)@ + write_fields(fs, 1).0);
        if r.is_err() {
            proof {
                lemma_write_fields_stopped(fs, 1, 1);
            }
            return r;
        }
        Ok(())
    }
}

/// Writing a `ServersideChatCommand` puts its fields on the wire one after another, in this
/// order: `command`.
#[verifier::spinoff_prover]
pub proof fn lemma_serverside_chat_command_wire(command: String)
    requires
        write_field(Field::Text(command.deep_view())).1,
    ensures
        write_fields((ServersideChatCommand { command }).fields(), 1) == (write_field(Field::Text(command.deep_view())).0, true),
{
    reveal_with_fuel(write_fields, 2);
    reveal(write_field);
}

/// Reading the fields of a `ServersideChatCommand` written one after another, in the order
/// `command`, gives back a packet with those values, whatever
/// follows (nothing, after trailing bytes), when no list is oversized.
#[verifier::spinoff_prover]
pub proof fn lemma_serverside_chat_command_reads_back(command: String, t: Seq<u8>)
    requires
        write_field(Field::Text(command.deep_view())).1,
        fields_read_back((ServersideChatCommand { command }).fields()),
        trailing_bytes_last((ServersideChatCommand { command }).fields(), t),
    ensures
        read_fields(ServersideChatCommand::layout(), write_field(Field::Text(command.deep_view())).0 + t, 0) == (Some((ServersideChatCommand { command }).fields()), (write_field(Field::Text(command.deep_view())).0).len()),
{
    lemma_serverside_chat_command_wire(command);
    lemma_packet_roundtrip((ServersideChatCommand { command }), t);
}

/// Selects a hotbar slot.
#[derive(Clone, Debug, PartialEq)]
pub struct ServersideSetHeldItem {
    pub slot: i16,
}

impl Packet for ServersideSetHeldItem {
    open spec fn layout() -> Seq<FieldKind> {
        seq![FieldKind::Short]
    }

    open spec fn fields(&self) -> Seq<Field> {
        seq![Field::Short(self.slot)]
    }

    proof fn lemma_fields_fit(&self) {
    }

    fn read(buffer: &mut Cursor) -> (res: Option<Self>) {
        proof {
            reveal_with_fuel(read_fields, 2);
        }
        let slot = match read_short_field(buffer) {
            Some(v) => v,
            None => return None,
        };
        Some(ServersideSetHeldItem { slot })
    }

    fn write(&self, buffer: &mut Vec<u8>) -> (res: Result<(), WriteError>) {
        let ghost fs = self.fields();
        assert(write_fields(fs, 0) == (Seq::<u8>::empty(), true));
        let r = write_short_field(self.slot, buffer);
        assert(buffer@ =~= old(buffer)@ + write_fields(fs, 1).0);
        if r.is_err() {
            proof {
                lemma_write_fields_stopped(fs, 1, 1);
            }
            return r;
        }
        Ok(())
    }
}

/// Writing a `ServersideSetHeldItem` puts its fields on the wire one after another, in this
/// order: `slot`.
#[verifier::spinoff_prover]
pub proof fn lemma_serverside_set_held_item_wire(slot: i16)
    ensures
        write_fields((ServersideSetHeldItem { slot }).fields(), 1) == (write_field(Field::Short(slot)).0, true),
{
    reveal_with_fuel(write_fields, 2);
    reveal(write_field);
}

/// Reading the fields of a `ServersideSetHeldItem` written one after another, in the order
/// `slot`, gives back a packet with those values, whatever
/// follows (nothing, after trailing bytes), when no list is oversized.
#[verifier::spinoff_prover]
pub proof fn lemma_serverside_set_held_item_reads_back(slot: i16, t: Seq<u8>)
    requires
        fields_read_back((ServersideSetHeldItem { slot }).fields()),
        trailing_bytes_last((ServersideSetHeldItem { slot }).fields(), t),
    ensures
        read_fields(ServersideSetHeldItem::layout(), write_field(Field::Short(slot)).0 + t, 0) == (Some((ServersideSetHeldItem { slot }).fields()), (write_field(Field::Short(slot)).0).len()),
{
    lemma_serverside_set_held_item_wire(slot);
    lemma_packet_roundtrip((ServersideSetHeldItem { slot }), t);
}

/// Closes a container window.
#[derive(Clone, Debug, PartialEq)]
pub struct ServersideContainerClose {
    pub container_id: i32,
}

impl Packet for ServersideContainerClose {
    open spec fn layout() -> Seq<FieldKind> {
        seq![FieldKind::VarInt]
    }

    open spec fn fields(&self) -> Seq<Field> {
        seq![Field::VarInt(self.container_id)]
    }

    proof fn lemma_fields_fit(&self) {
    }

    fn read(buffer: &mut Cursor) -> (res: Option<Self>) {
        proof {
            reveal_with_fuel(read_fields, 2);
        }
        let container_id = match read_varint_field(buffer) {
            Some(v) => v,
            None => return None,
        };
        Some(ServersideContainerClose { container_id })
    }

    fn write(&self, buffer: &mut Vec<u8>) -> (res: Result<(), WriteError>) {
        let ghost fs = self.fields();
        assert(write_fields(fs, 0) == (Seq::<u8>::empty(), true));
        let r = write_varint_field(self.container_id, buffer);
        assert(buffer@ =~= old(buffer)@ + write_fields(fs, 1).0);
        if r.is_err() {
            proof {
                lemma_write_fields_stopped(fs, 1, 1);
            }
            return r;
        }
        Ok(())
    }
}

/// Writing a `ServersideContainerClose` puts its fields on the wire one after another, in this
/// order: `container_id`.
#[verifier::spinoff_prover]
pub proof fn lemma_serverside_container_close_wire(container_id: i32)
    ensures
        write_fields((ServersideContainerClose { container_id }).fields(), 1) == (write_field(Field::VarInt(container_id)).0, true),
{
    reveal_with_fuel(write_fields, 2);
    reveal(write_field);
}

/// Reading the fields of a `ServersideContainerClose` written one after another, in the order
/// `container_id`, gives back a packet with those values, whatever
/// follows (nothing, after trailing bytes), when no list is oversized.
#[verifier::spinoff_prover]
pub proof fn lemma_serverside_container_close_reads_back(container_id: i32, t: Seq<u8>)
    requires
        fields_read_back((ServersideContainerClose { container_id }).fields()),
        trailing_bytes_last((ServersideContainerClose { container_id }).fields(), t),
    ensures
        read_fields(ServersideContainerClose::layout(), write_field(Field::VarInt(container_id)).0 + t, 0) == (Some((ServersideContainerClose { container_id }).fields()), (write_field(Field::VarInt(container_id)).0).len()),
{
    lemma_serverside_container_close_wire(container_id);
    lemma_packet_roundtrip((ServersideContainerClose { container_id }), t);
}

/// Edits or signs a book.
#[derive(Clone, Debug, PartialEq)]
pub struct ServersideEditBook {
    pub slot: i32,
    pub pages: Vec<String>,
    pub title: Option<String>,
}

impl Packet for ServersideEditBook {
    open spec fn layout() -> Seq<FieldKind> {
        seq![FieldKind::Int, FieldKind::TextList, FieldKind::OptionalText]
    }

    open spec fn fields(&self) -> Seq<Field> {
        seq![Field::Int(self.slot), Field::TextList(self.pages.deep_view()), Field::OptionalText(self.title.deep_view())]
    }

    proof fn lemma_fields_fit(&self) {
    }

    fn read(buffer: &mut Cursor) -> (res: Option<Self>) {
        proof {
            reveal_with_fuel(read_fields, 4);
        }
        let slot = match read_int_field(buffer) {
            Some(v) => v,
            None => return None,
        };
        let pages = match read_text_list_field(buffer) {
            Some(v) => v,
            None => return None,
        };
        let title = match read_optional_text_field(buffer) {
            Some(v) => v,
            None => return None,
        };
        Some(ServersideEditBook { slot, pages, title })
    }

    fn write(&self, buffer: &mut Vec<u8>) -> (res: Result<(), WriteError>) {
        let ghost fs = self.fields();
        assert(write_fields(fs, 0) == (Seq::<u8>::empty(), true));
        let r = write_int_field(self.slot, buffer);
        assert(buffer@ =~= old(buffer)@ + write_fields(fs, 1).0);
        if r.is_err() {
            proof {
                lemma_write_fields_stopped(fs, 1, 3);
            }
            return r;
        }
        let r = write_text_list_field(&self.pages, buffer);
        assert(buffer@ =~= old(buffer)@ + write_fields(fs, 2).0);
        if r.is_err() {
            proof {
                lemma_write_fields_stopped(fs, 2, 3);
            }
            return r;
        }
        let r = write_optional_text_field(&self.title, buffer);
        assert(buffer@ =~= old(buffer)@ + write_fields(fs, 3).0);
        if r.is_err() {
            proof {
                lemma_write_fields_stopped(fs, 3, 3);
            }
            return r;
        }
        Ok(())
    }
}

/// Writing a `ServersideEditBook` puts its fields on the wire one after another, in this
/// order: `slot`, `pages`, `title`.
#[verifier::spinoff_prover]
pub proof fn lemma_serverside_edit_book_wire(slot: i32, pages: Vec<String>, title: Option<String>)
    requires
        write_field(Field::TextList(pages.deep_view())).1,
        write_field(Field::OptionalText(title.deep_view())).1,
    ensures
        write_fields((ServersideEditBook { slot, pages, title }).fields(), 3) == (write_field(Field::Int(slot)).0 + write_field(Field::TextList(pages.deep_view())).0 + write_field(Field::OptionalText(title.deep_view())).0, true),
{
    reveal_with_fuel(write_fields, 4);
    reveal(write_field);
}

/// Reading the fields of a `ServersideEditBook` written one after another, in the order
/// `slot`, `pages`, `title`, gives back a packet with those values, whatever
/// follows (nothing, after trailing bytes), when no list is oversized.
#[verifier::spinoff_prover]
pub proof fn lemma_serverside_edit_book_reads_back(slot: i32, pages: Vec<String>, title: Option<String>, t: Seq<u8>)
    requires
        write_field(Field::TextList(pages.deep_view())).1,
        write_field(Field::OptionalText(title.deep_view())).1,
        fields_read_back((ServersideEditBook { slot, pages, title }).fields()),
        trailing_bytes_last((ServersideEditBook { slot, pages, title }).fields(), t),
    ensures
        read_fields(ServersideEditBook::layout(), write_field(Field::Int(slot)).0 + write_field(Field::TextList(pages.deep_view())).0 + write_field(Field::OptionalText(title.deep_view())).0 + t, 0) == (Some((ServersideEditBook { slot, pages, title }).fields()), (write_field(Field::Int(slot)).0 + write_field(Field::TextList(pages.deep_view())).0 + write_field(Field::OptionalText(title.deep_view())).0).len()),
{
    lemma_serverside_edit_book_wire(slot, pages, title);
    lemma_packet_roundtrip((ServersideEditBook { slot, pages, title }), t);
}
} // verus!
