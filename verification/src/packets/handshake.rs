use vstd::prelude::*;

use crate::buffer::WriteError;
use crate::field::{Field, FieldKind, lemma_write_fields_stopped, read_fields, write_field, write_fields};
use crate::field_io::{read_intention_field, read_text_field, read_ushort_field, read_varint_field, write_intention_field, write_text_field, write_ushort_field, write_varint_field};
use crate::packet::{IntoPacket, Packet, ProtocolPacket};
use crate::read::Cursor;
use crate::roundtrip::{fields_read_back, lemma_packet_roundtrip, trailing_bytes_last};
use crate::types::intention::ClientIntention;

verus! {

/// Opens the connection: the protocol version, the address the client used, and what it means to do next.
#[derive(Clone, Debug, PartialEq)]
pub struct ServersideGreet {
    pub protocol_version: i32,
    pub server_host: String,
    pub server_port: u16,
    pub intention: ClientIntention,
}

impl Packet for ServersideGreet {
    open spec fn layout() -> Seq<FieldKind> {
        seq![FieldKind::VarInt, FieldKind::Text, FieldKind::UShort, FieldKind::Intention]
    }

    open spec fn fields(&self) -> Seq<Field> {
        seq![Field::VarInt(self.protocol_version), Field::Text(self.server_host.deep_view()), Field::UShort(self.server_port), Field::Intention(self.intention)]
    }

    proof fn lemma_fields_fit(&self) {
    }

    fn read(buffer: &mut Cursor) -> (res: Option<Self>) {
        proof {
            reveal_with_fuel(read_fields, 5);
        }
        let protocol_version = match read_varint_field(buffer) {
            Some(v) => v,
            None => return None,
        };
        let server_host = match read_text_field(buffer) {
            Some(v) => v,
            None => return None,
        };
        let server_port = match read_ushort_field(buffer) {
            Some(v) => v,
            None => return None,
        };
        let intention = match read_intention_field(buffer) {
            Some(v) => v,
            None => return None,
        };
        Some(ServersideGreet { protocol_version, server_host, server_port, intention })
    }

    fn write(&self, buffer: &mut Vec<u8>) -> (res: Result<(), WriteError>) {
        let ghost fs = self.fields();
        assert(write_fields(fs, 0) == (Seq::<u8>::empty(), true));
        let r = write_varint_field(self.protocol_version, buffer);
        assert(buffer@ =~= old(buffer)@ + write_fields(fs, 1).0);
        if r.is_err() {
            proof {
                lemma_write_fields_stopped(fs, 1, 4);
            }
            return r;
        }
        let r = write_text_field(&self.server_host, buffer);
        assert(buffer@ =~= old(buffer)@ + write_fields(fs, 2).0);
        if r.is_err() {
            proof {
                lemma_write_fields_stopped(fs, 2, 4);
            }
            return r;
        }
        let r = write_ushort_field(self.server_port, buffer);
        assert(buffer@ =~= old(buffer)@ + write_fields(fs, 3).0);
        if r.is_err() {
            proof {
                lemma_write_fields_stopped(fs, 3, 4);
            }
            return r;
        }
        let r = write_intention_field(self.intention, buffer);
        assert(buffer@ =~= old(buffer)@ + write_fields(fs, 4).0);
        if r.is_err() {
            proof {
                lemma_write_fields_stopped(fs, 4, 4);
            }
            return r;
        }
        Ok(())
    }
}

/// Writing a `ServersideGreet` puts its fields on the wire one after another, in this
/// order: `protocol_version`, `server_host`, `server_port`, `intention`.
#[verifier::spinoff_prover]
pub proof fn lemma_serverside_greet_wire(protocol_version: i32, server_host: String, server_port: u16, intention: ClientIntention)
    requires
        write_field(Field::Text(server_host.deep_view())).1,
    ensures
        write_fields((ServersideGreet { protocol_version, server_host, server_port, intention }).fields(), 4) == (write_field(Field::VarInt(protocol_version)).0 + write_field(Field::Text(server_host.deep_view())).0 + write_field(Field::UShort(server_port)).0 + write_field(Field::Intention(intention)).0, true),
{
    reveal_with_fuel(write_fields, 5);
    reveal(write_field);
}

/// Reading the fields of a `ServersideGreet` written one after another, in the order
/// `protocol_version`, `server_host`, `server_port`, `intention`, gives back a packet with those values, whatever
/// follows (nothing, after trailing bytes), when no list is oversized.
#[verifier::spinoff_prover]
pub proof fn lemma_serverside_greet_reads_back(protocol_version: i32, server_host: String, server_port: u16, intention: ClientIntention, t: Seq<u8>)
    requires
        write_field(Field::Text(server_host.deep_view())).1,
        fields_read_back((ServersideGreet { protocol_version, server_host, server_port, intention }).fields()),
        trailing_bytes_last((ServersideGreet { protocol_version, server_host, server_port, intention }).fields(), t),
    ensures
        read_fields(ServersideGreet::layout(), write_field(Field::VarInt(protocol_version)).0 + write_field(Field::Text(server_host.deep_view())).0 + write_field(Field::UShort(server_port)).0 + write_field(Field::Intention(intention)).0 + t, 0) == (Some((ServersideGreet { protocol_version, server_host, server_port, intention }).fields()), (write_field(Field::VarInt(protocol_version)).0 + write_field(Field::Text(server_host.deep_view())).0 + write_field(Field::UShort(server_port)).0 + write_field(Field::Intention(intention)).0).len()),
{
    lemma_serverside_greet_wire(protocol_version, server_host, server_port, intention);
    lemma_packet_roundtrip((ServersideGreet { protocol_version, server_host, server_port, intention }), t);
}
/// The packets the client sends in the handshake state.
#[derive(Clone, Debug, PartialEq)]
pub enum ServersideHandshakePacket {
    Greet(ServersideGreet),
}

impl ProtocolPacket for ServersideHandshakePacket {
    open spec fn spec_id(&self) -> u32 {
        match self {
            ServersideHandshakePacket::Greet(_) => 0x00,
        }
    }

    open spec fn spec_fields(&self) -> Seq<Field> {
        match self {
            ServersideHandshakePacket::Greet(p) => p.fields(),
        }
    }

    open spec fn spec_layout(id: u32) -> Option<Seq<FieldKind>> {
        if id == 0x00 {
            Some(ServersideGreet::layout())
        } else {
            None
        }
    }

    proof fn lemma_layout(&self) {
        match self {
            ServersideHandshakePacket::Greet(p) => p.lemma_fields_fit(),
        }
    }

    fn id(&self) -> (r: u32)
        ensures
            *self is Greet ==> r == 0x00,
    {
        match self {
            ServersideHandshakePacket::Greet(_) => 0x00,
        }
    }

    fn read(id: u32, buffer: &mut Cursor) -> (res: Option<Self>)
        ensures
            id == 0x00 ==> match read_fields(ServersideGreet::layout(), old(buffer).rest(), 0).0 {
                Some(fs) => res matches Some(ServersideHandshakePacket::Greet(q)) && q.fields() == fs,
                None => res is None,
            },
            !(id == 0x00) ==> res is None,
    {
        match id {
            0x00 => match ServersideGreet::read(buffer) {
                Some(p) => Some(ServersideHandshakePacket::Greet(p)),
                None => None,
            },
            _ => None,
        }
    }

    fn write(&self, buffer: &mut Vec<u8>) -> (res: Result<(), WriteError>) {
        match self {
            ServersideHandshakePacket::Greet(p) => p.write(buffer),
        }
    }
}

/// The id of each packet of the family, and the layout each id is read with: Greet 0x00.
pub proof fn lemma_serverside_handshake_packet_ids(p: ServersideHandshakePacket)
    ensures
        p is Greet ==> p.spec_id() == 0x00,
        ServersideHandshakePacket::spec_layout(0x00) == Some(ServersideGreet::layout()),
{
}

impl IntoPacket<ServersideHandshakePacket> for ServersideHandshakePacket {
    fn into_packet(self) -> (res: ServersideHandshakePacket)
        ensures
            res == self,
    {
        self
    }
}

impl IntoPacket<ServersideHandshakePacket> for ServersideGreet {
    fn into_packet(self) -> (res: ServersideHandshakePacket)
        ensures
            res == ServersideHandshakePacket::Greet(self),
    {
        ServersideHandshakePacket::Greet(self)
    }
}
} // verus!
