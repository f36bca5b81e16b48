use vstd::prelude::*;

use crate::buffer::WriteError;
use crate::field::{Field, FieldKind, lemma_write_fields_stopped, read_fields, write_field, write_fields};
use crate::field_io::{read_bool_field, read_byte_field, read_code_field, read_int_field, read_known_pack_list_field, read_long_field, read_optional_byte_array_field, read_optional_text_field, read_optional_uuid_field, read_remaining_field, read_text_field, read_text_list_field, read_ubyte_field, read_uuid_field, read_varint_field, write_bool_field, write_byte_field, write_code_field, write_int_field, write_known_pack_list_field, write_long_field, write_optional_byte_array_field, write_optional_text_field, write_optional_uuid_field, write_remaining_field, write_text_field, write_text_list_field, write_ubyte_field, write_uuid_field, write_varint_field};
use crate::packet::{IntoPacket, Packet, ProtocolPacket};
use crate::read::Cursor;
use crate::roundtrip::{fields_read_back, lemma_packet_roundtrip, trailing_bytes_last};
use crate::types::known_pack::KnownPack;
use crate::types::settings::{AccurateHand, ChatMode, ParticleStatus, ResourcePackState};
use crate::types::uuid::Uuid;

verus! {

/// Keep-alive, sent both ways.
#[derive(Clone, Debug, PartialEq)]
pub struct MultisideKeepAlive {
    pub id: i64,
}

impl Packet for MultisideKeepAlive {
    open spec fn layout() -> Seq<FieldKind> {
        seq![FieldKind::Long]
    }

    open spec fn fields(&self) -> Seq<Field> {
        seq![Field::Long(self.id)]
    }

    proof fn lemma_fields_fit(&self) {
    }

    fn read(buffer: &mut Cursor) -> (res: Option<Self>) {
        proof {
            reveal_with_fuel(read_fields, 2);
        }
        let id = match read_long_field(buffer) {
            Some(v) => v,
            None => return None,
        };
        Some(MultisideKeepAlive { id })
    }

    fn write(&self, buffer: &mut Vec<u8>) -> (res: Result<(), WriteError>) {
        let ghost fs = self.fields();
        assert(write_fields(fs, 0) == (Seq::<u8>::empty(), true));
        let r = write_long_field(self.id, buffer);
        assert(buffer@ =~= old(buffer)@ + write_fields(fs, 1).0);
        if r.is_err() {
            proof {
                lemma_write_fields_stopped(fs, 1, 1);
            }
            return r;
        }
        Ok(())
    }
}

/// Writing a `MultisideKeepAlive` puts its fields on the wire one after another, in this
/// order: `id`.
#[verifier::spinoff_prover]
pub proof fn lemma_multiside_keep_alive_wire(id: i64)
    ensures
        write_fields((MultisideKeepAlive { id }).fields(), 1) == (write_field(Field::Long(id)).0, true),
{
    reveal_with_fuel(write_fields, 2);
    reveal(write_field);
}

/// Reading the fields of a `MultisideKeepAlive` written one after another, in the order
/// `id`, gives back a packet with those values, whatever
/// follows (nothing, after trailing bytes), when no list is oversized.
#[verifier::spinoff_prover]
pub proof fn lemma_multiside_keep_alive_reads_back(id: i64, t: Seq<u8>)
    requires
        fields_read_back((MultisideKeepAlive { id }).fields()),
        trailing_bytes_last((MultisideKeepAlive { id }).fields(), t),
    ensures
        read_fields(MultisideKeepAlive::layout(), write_field(Field::Long(id)).0 + t, 0) == (Some((MultisideKeepAlive { id }).fields()), (write_field(Field::Long(id)).0).len()),
{
    lemma_multiside_keep_alive_wire(id);
    lemma_packet_roundtrip((MultisideKeepAlive { id }), t);
}

/// A ping from the server.
#[derive(Clone, Debug, PartialEq)]
pub struct ClientsidePing {
    pub id: i32,
}

impl Packet for ClientsidePing {
    open spec fn layout() -> Seq<FieldKind> {
        seq![FieldKind::Int]
    }

    open spec fn fields(&self) -> Seq<Field> {
        seq![Field::Int(self.id)]
    }

    proof fn lemma_fields_fit(&self) {
    }

    fn read(buffer: &mut Cursor) -> (res: Option<Self>) {
        proof {
            reveal_with_fuel(read_fields, 2);
        }
        let id = match read_int_field(buffer) {
            Some(v) => v,
            None => return None,
        };
        Some(ClientsidePing { id })
    }

    fn write(&self, buffer: &mut Vec<u8>) -> (res: Result<(), WriteError>) {
        let ghost fs = self.fields();
        assert(write_fields(fs, 0) == (Seq::<u8>::empty(), true));
        let r = write_int_field(self.id, buffer);
        assert(buffer@ =~= old(buffer)@ + write_fields(fs, 1).0);
        if r.is_err() {
            proof {
                lemma_write_fields_stopped(fs, 1, 1);
            }
            return r;
        }
        Ok(())
    }
}

/// Writing a `ClientsidePing` puts its fields on the wire one after another, in this
/// order: `id`.
#[verifier::spinoff_prover]
pub proof fn lemma_clientside_ping_wire(id: i32)
    ensures
        write_fields((ClientsidePing { id }).fields(), 1) == (write_field(Field::Int(id)).0, true),
{
    reveal_with_fuel(write_fields, 2);
    reveal(write_field);
}

/// Reading the fields of a `ClientsidePing` written one after another, in the order
/// `id`, gives back a packet with those values, whatever
/// follows (nothing, after trailing bytes), when no list is oversized.
#[verifier::spinoff_prover]
pub proof fn lemma_clientside_ping_reads_back(id: i32, t: Seq<u8>)
    requires
        fields_read_back((ClientsidePing { id }).fields()),
        trailing_bytes_last((ClientsidePing { id }).fields(), t),
    ensures
        read_fields(ClientsidePing::layout(), write_field(Field::Int(id)).0 + t, 0) == (Some((ClientsidePing { id }).fields()), (write_field(Field::Int(id)).0).len()),
{
    lemma_clientside_ping_wire(id);
    lemma_packet_roundtrip((ClientsidePing { id }), t);
}

/// The server asks for a stored cookie.
#[derive(Clone, Debug, PartialEq)]
pub struct ClientsideCookieRequest {
    pub key: String,
}

impl Packet for ClientsideCookieRequest {
    open spec fn layout() -> Seq<FieldKind> {
        seq![FieldKind::Text]
    }

    open spec fn fields(&self) -> Seq<Field> {
        seq![Field::Text(self.key.deep_view())]
    }

    proof fn lemma_fields_fit(&self) {
    }

    fn read(buffer: &mut Cursor) -> (res: Option<Self>) {
        proof {
            reveal_with_fuel(read_fields, 2);
        }
        let key = match read_text_field(buffer) {
            Some(v) => v,
            None => return None,
        };
        Some(ClientsideCookieRequest { key })
    }

    fn write(&self, buffer: &mut Vec<u8>) -> (res: Result<(), WriteError>) {
        let ghost fs = self.fields();
        assert(write_fields(fs, 0) == (Seq::<u8>::empty(), true));
        let r = write_text_field(&self.key, buffer);
        assert(buffer@ =~= old(buffer)@ + write_fields(fs, 1).0);
        if r.is_err() {
            proof {
                lemma_write_fields_stopped(fs, 1, 1);
            }
            return r;
        }
        Ok(())
    }
}

/// Writing a `ClientsideCookieRequest` puts its fields on the wire one after another, in this
/// order: `key`.
#[verifier::spinoff_prover]
pub proof fn lemma_clientside_cookie_request_wire(key: String)
    requires
        write_field(Field::Text(key.deep_view())).1,
    ensures
        write_fields((ClientsideCookieRequest { key }).fields(), 1) == (write_field(Field::Text(key.deep_view())).0, true),
{
    reveal_with_fuel(write_fields, 2);
    reveal(write_field);
}

/// Reading the fields of a `ClientsideCookieRequest` written one after another, in the order
/// `key`, gives back a packet with those values, whatever
/// follows (nothing, after trailing bytes), when no list is oversized.
#[verifier::spinoff_prover]
pub proof fn lemma_clientside_cookie_request_reads_back(key: String, t: Seq<u8>)
    requires
        write_field(Field::Text(key.deep_view())).1,
        fields_read_back((ClientsideCookieRequest { key }).fields()),
        trailing_bytes_last((ClientsideCookieRequest { key }).fields(), t),
    ensures
        read_fields(ClientsideCookieRequest::layout(), write_field(Field::Text(key.deep_view())).0 + t, 0) == (Some((ClientsideCookieRequest { key }).fields()), (write_field(Field::Text(key.deep_view())).0).len()),
{
    lemma_clientside_cookie_request_wire(key);
    lemma_packet_roundtrip((ClientsideCookieRequest { key }), t);
}

/// A plugin message from the server.
#[derive(Clone, Debug, PartialEq)]
pub struct ClientsidePluginMessage {
    pub channel: String,
    pub data: Vec<u8>,
}

impl Packet for ClientsidePluginMessage {
    open spec fn layout() -> Seq<FieldKind> {
        seq![FieldKind::Text, FieldKind::RemainingBytes]
    }

    open spec fn fields(&self) -> Seq<Field> {
        seq![Field::Text(self.channel.deep_view()), Field::RemainingBytes(self.data@)]
    }

    proof fn lemma_fields_fit(&self) {
    }

    fn read(buffer: &mut Cursor) -> (res: Option<Self>) {
        proof {
            reveal_with_fuel(read_fields, 3);
        }
        let channel = match read_text_field(buffer) {
            Some(v) => v,
            None => return None,
        };
        let data = read_remaining_field(buffer);
        Some(ClientsidePluginMessage { channel, data })
    }

    fn write(&self, buffer: &mut Vec<u8>) -> (res: Result<(), WriteError>) {
        let ghost fs = self.fields();
        assert(write_fields(fs, 0) == (Seq::<u8>::empty(), true));
        let r = write_text_field(&self.channel, buffer);
        assert(buffer@ =~= old(buffer)@ + write_fields(fs, 1).0);
        if r.is_err() {
            proof {
                lemma_write_fields_stopped(fs, 1, 2);
            }
            return r;
        }
        let r = write_remaining_field(&self.data, buffer);
        assert(buffer@ =~= old(buffer)@ + write_fields(fs, 2).0);
        if r.is_err() {
            proof {
                lemma_write_fields_stopped(fs, 2, 2);
            }
            return r;
        }
        Ok(())
    }
}

/// Writing a `ClientsidePluginMessage` puts its fields on the wire one after another, in this
/// order: `channel`, `data`.
#[verifier::spinoff_prover]
pub proof fn lemma_clientside_plugin_message_wire(channel: String, data: Vec<u8>)
    requires
        write_field(Field::Text(channel.deep_view())).1,
    ensures
        write_fields((ClientsidePluginMessage { channel, data }).fields(), 2) == (write_field(Field::Text(channel.deep_view())).0 + write_field(Field::RemainingBytes(data@)).0, true),
{
    reveal_with_fuel(write_fields, 3);
    reveal(write_field);
}

/// Reading the fields of a `ClientsidePluginMessage` written one after another, in the order
/// `channel`, `data`, gives back a packet with those values, whatever
/// follows (nothing, after trailing bytes), when no list is oversized.
#[verifier::spinoff_prover]
pub proof fn lemma_clientside_plugin_message_reads_back(channel: String, data: Vec<u8>, t: Seq<u8>)
    requires
        write_field(Field::Text(channel.deep_view())).1,
        fields_read_back((ClientsidePluginMessage { channel, data }).fields()),
        trailing_bytes_last((ClientsidePluginMessage { channel, data }).fields(), t),
    ensures
        read_fields(ClientsidePluginMessage::layout(), write_field(Field::Text(channel.deep_view())).0 + write_field(Field::RemainingBytes(data@)).0 + t, 0) == (Some((ClientsidePluginMessage { channel, data }).fields()), (write_field(Field::Text(channel.deep_view())).0 + write_field(Field::RemainingBytes(data@)).0).len()),
{
    lemma_clientside_plugin_message_wire(channel, data);
    lemma_packet_roundtrip((ClientsidePluginMessage { channel, data }), t);
}

/// The server ends the configuration.
#[derive(Clone, Copy, Debug, PartialEq, Eq)]
pub struct ClientsideFinishConfiguration;

impl Packet for ClientsideFinishConfiguration {
    open spec fn layout() -> Seq<FieldKind> {
        Seq::empty()
    }

    open spec fn fields(&self) -> Seq<Field> {
        Seq::empty()
    }

    proof fn lemma_fields_fit(&self) {
    }

    fn read(buffer: &mut Cursor) -> (res: Option<Self>) {
        proof {
            reveal_with_fuel(read_fields, 1);
        }
        Some(ClientsideFinishConfiguration)
    }

    fn write(&self, buffer: &mut Vec<u8>) -> (res: Result<(), WriteError>) {
        let ghost fs = self.fields();
        assert(write_fields(fs, 0) == (Seq::<u8>::empty(), true));
        assert(buffer@ =~= old(buffer)@ + Seq::<u8>::empty());
        Ok(())
    }
}


/// The server resets the chat.
#[derive(Clone, Copy, Debug, PartialEq, Eq)]
pub struct ClientsideResetChat;

impl Packet for ClientsideResetChat {
    open spec fn layout() -> Seq<FieldKind> {
        Seq::empty()
    }

    open spec fn fields(&self) -> Seq<Field> {
        Seq::empty()
    }

    proof fn lemma_fields_fit(&self) {
    }

    fn read(buffer: &mut Cursor) -> (res: Option<Self>) {
        proof {
            reveal_with_fuel(read_fields, 1);
        }
        Some(ClientsideResetChat)
    }

    fn write(&self, buffer: &mut Vec<u8>) -> (res: Result<(), WriteError>) {
        let ghost fs = self.fields();
        assert(write_fields(fs, 0) == (Seq::<u8>::empty(), true));
        assert(buffer@ =~= old(buffer)@ + Seq::<u8>::empty());
        Ok(())
    }
}


/// Registry data, kept raw.
#[derive(Clone, Debug, PartialEq)]
pub struct ClientsideRegistryData {
    pub registry_id: String,
    pub raw_data: Vec<u8>,
}

impl Packet for ClientsideRegistryData {
    open spec fn layout() -> Seq<FieldKind> {
        seq![FieldKind::Text, FieldKind::RemainingBytes]
    }

    open spec fn fields(&self) -> Seq<Field> {
        seq![Field::Text(self.registry_id.deep_view()), Field::RemainingBytes(self.raw_data@)]
    }

    proof fn lemma_fields_fit(&self) {
    }

    fn read(buffer: &mut Cursor) -> (res: Option<Self>) {
        proof {
            reveal_with_fuel(read_fields, 3);
        }
        let registry_id = match read_text_field(buffer) {
            Some(v) => v,
            None => return None,
        };
        let raw_data = read_remaining_field(buffer);
        Some(ClientsideRegistryData { registry_id, raw_data })
    }

    fn write(&self, buffer: &mut Vec<u8>) -> (res: Result<(), WriteError>) {
        let ghost fs = self.fields();
        assert(write_fields(fs, 0) == (Seq::<u8>::empty(), true));
        let r = write_text_field(&self.registry_id, buffer);
        assert(buffer@ =~= old(buffer)@ + write_fields(fs, 1).0);
        if r.is_err() {
            proof {
                lemma_write_fields_stopped(fs, 1, 2);
            }
            return r;
        }
        let r = write_remaining_field(&self.raw_data, buffer);
        assert(buffer@ =~= old(buffer)@ + write_fields(fs, 2).0);
        if r.is_err() {
            proof {
                lemma_write_fields_stopped(fs, 2, 2);
            }
            return r;
        }
        Ok(())
    }
}

/// Writing a `ClientsideRegistryData` puts its fields on the wire one after another, in this
/// order: `registry_id`, `raw_data`.
#[verifier::spinoff_prover]
pub proof fn lemma_clientside_registry_data_wire(registry_id: String, raw_data: Vec<u8>)
    requires
        write_field(Field::Text(registry_id.deep_view())).1,
    ensures
        write_fields((ClientsideRegistryData { registry_id, raw_data }).fields(), 2) == (write_field(Field::Text(registry_id.deep_view())).0 + write_field(Field::RemainingBytes(raw_data@)).0, true),
{
    reveal_with_fuel(write_fields, 3);
    reveal(write_field);
}

/// Reading the fields of a `ClientsideRegistryData` written one after another, in the order
/// `registry_id`, `raw_data`, gives back a packet with those values, whatever
/// follows (nothing, after trailing bytes), when no list is oversized.
#[verifier::spinoff_prover]
pub proof fn lemma_clientside_registry_data_reads_back(registry_id: String, raw_data: Vec<u8>, t: Seq<u8>)
    requires
        write_field(Field::Text(registry_id.deep_view())).1,
        fields_read_back((ClientsideRegistryData { registry_id, raw_data }).fields()),
        trailing_bytes_last((ClientsideRegistryData { registry_id, raw_data }).fields(), t),
    ensures
        read_fields(ClientsideRegistryData::layout(), write_field(Field::Text(registry_id.deep_view())).0 + write_field(Field::RemainingBytes(raw_data@)).0 + t, 0) == (Some((ClientsideRegistryData { registry_id, raw_data }).fields()), (write_field(Field::Text(registry_id.deep_view())).0 + write_field(Field::RemainingBytes(raw_data@)).0).len()),
{
    lemma_clientside_registry_data_wire(registry_id, raw_data);
    lemma_packet_roundtrip((ClientsideRegistryData { registry_id, raw_data }), t);
}

/// Removes one resource pack, or all.
#[derive(Clone, Debug, PartialEq)]
pub struct ClientsideRemoveResourcePack {
    pub uuid: Option<Uuid>,
}

impl Packet for ClientsideRemoveResourcePack {
    open spec fn layout() -> Seq<FieldKind> {
        seq![FieldKind::OptionalUuid]
    }

    open spec fn fields(&self) -> Seq<Field> {
        seq![Field::OptionalUuid(self.uuid.deep_view())]
    }

    proof fn lemma_fields_fit(&self) {
    }

    fn read(buffer: &mut Cursor) -> (res: Option<Self>) {
        proof {
            reveal_with_fuel(read_fields, 2);
        }
        let uuid = match read_optional_uuid_field(buffer) {
            Some(v) => v,
            None => return None,
        };
        Some(ClientsideRemoveResourcePack { uuid })
    }

    fn write(&self, buffer: &mut Vec<u8>) -> (res: Result<(), WriteError>) {
        let ghost fs = self.fields();
        assert(write_fields(fs, 0) == (Seq::<u8>::empty(), true));
        let r = write_optional_uuid_field(&self.uuid, buffer);
        assert(buffer@ =~= old(buffer)@ + write_fields(fs, 1).0);
        if r.is_err() {
            proof {
                lemma_write_fields_stopped(fs, 1, 1);
            }
            return r;
        }
        Ok(())
    }
}

/// Writing a `ClientsideRemoveResourcePack` puts its fields on the wire one after another, in this
/// order: `uuid`.
#[verifier::spinoff_prover]
pub proof fn lemma_clientside_remove_resource_pack_wire(uuid: Option<Uuid>)
    requires
        write_field(Field::OptionalUuid(uuid.deep_view())).1,
    ensures
        write_fields((ClientsideRemoveResourcePack { uuid }).fields(), 1) == (write_field(Field::OptionalUuid(uuid.deep_view())).0, true),
{
    reveal_with_fuel(write_fields, 2);
    reveal(write_field);
}

/// Reading the fields of a `ClientsideRemoveResourcePack` written one after another, in the order
/// `uuid`, gives back a packet with those values, whatever
/// follows (nothing, after trailing bytes), when no list is oversized.
#[verifier::spinoff_prover]
pub proof fn lemma_clientside_remove_resource_pack_reads_back(uuid: Option<Uuid>, t: Seq<u8>)
    requires
        write_field(Field::OptionalUuid(uuid.deep_view())).1,
        fields_read_back((ClientsideRemoveResourcePack { uuid }).fields()),
        trailing_bytes_last((ClientsideRemoveResourcePack { uuid }).fields(), t),
    ensures
        read_fields(ClientsideRemoveResourcePack::layout(), write_field(Field::OptionalUuid(uuid.deep_view())).0 + t, 0) == (Some((ClientsideRemoveResourcePack { uuid }).fields()), (write_field(Field::OptionalUuid(uuid.deep_view())).0).len()),
{
    lemma_clientside_remove_resource_pack_wire(uuid);
    lemma_packet_roundtrip((ClientsideRemoveResourcePack { uuid }), t);
}

/// Offers a resource pack.
#[derive(Clone, Debug, PartialEq)]
pub struct ClientsideAddResourcePack {
    pub uuid: Uuid,
    pub url: String,
    pub hash: String,
    pub forced: bool,
    pub prompt_message: Option<String>,
}

impl Packet for ClientsideAddResourcePack {
    open spec fn layout() -> Seq<FieldKind> {
        seq![FieldKind::Uuid, FieldKind::Text, FieldKind::Text, FieldKind::Bool, FieldKind::OptionalText]
    }

    open spec fn fields(&self) -> Seq<Field> {
        seq![Field::Uuid(self.uuid.deep_view()), Field::Text(self.url.deep_view()), Field::Text(self.hash.deep_view()), Field::Bool(self.forced), Field::OptionalText(self.prompt_message.deep_view())]
    }

    proof fn lemma_fields_fit(&self) {
    }

    fn read(buffer: &mut Cursor) -> (res: Option<Self>) {
        proof {
            reveal_with_fuel(read_fields, 6);
        }
        let uuid = match read_uuid_field(buffer) {
            Some(v) => v,
            None => return None,
        };
        let url = match read_text_field(buffer) {
            Some(v) => v,
            None => return None,
        };
        let hash = match read_text_field(buffer) {
            Some(v) => v,
            None => return None,
        };
        let forced = match read_bool_field(buffer) {
            Some(v) => v,
            None => return None,
        };
        let prompt_message = match read_optional_text_field(buffer) {
            Some(v) => v,
            None => return None,
        };
        Some(ClientsideAddResourcePack { uuid, url, hash, forced, prompt_message })
    }

    fn write(&self, buffer: &mut Vec<u8>) -> (res: Result<(), WriteError>) {
        let ghost fs = self.fields();
        assert(write_fields(fs, 0) == (Seq::<u8>::empty(), true));
        let r = write_uuid_field(self.uuid, buffer);
        assert(buffer@ =~= old(buffer)@ + write_fields(fs, 1).0);
        if r.is_err() {
            proof {
                lemma_write_fields_stopped(fs, 1, 5);
            }
            return r;
        }
        let r = write_text_field(&self.url, buffer);
        assert(buffer@ =~= old(buffer)@ + write_fields(fs, 2).0);
        if r.is_err() {
            proof {
                lemma_write_fields_stopped(fs, 2, 5);
            }
            return r;
        }
        let r = write_text_field(&self.hash, buffer);
        assert(buffer@ =~= old(buffer)@ + write_fields(fs, 3).0);
        if r.is_err() {
            proof {
                lemma_write_fields_stopped(fs, 3, 5);
            }
            return r;
        }
        let r = write_bool_field(self.forced, buffer);
        assert(buffer@ =~= old(buffer)@ + write_fields(fs, 4).0);
        if r.is_err() {
            proof {
                lemma_write_fields_stopped(fs, 4, 5);
            }
            return r;
        }
        let r = write_optional_text_field(&self.prompt_message, buffer);
        assert(buffer@ =~= old(buffer)@ + write_fields(fs, 5).0);
        if r.is_err() {
            proof {
                lemma_write_fields_stopped(fs, 5, 5);
            }
            return r;
        }
        Ok(())
    }
}

/// Writing a `ClientsideAddResourcePack` puts its fields on the wire one after another, in this
/// order: `uuid`, `url`, `hash`, `forced`, `prompt_message`.
#[verifier::spinoff_prover]
pub proof fn lemma_clientside_add_resource_pack_wire(uuid: Uuid, url: String, hash: String, forced: bool, prompt_message: Option<String>)
    requires
        write_field(Field::Text(url.deep_view())).1,
        write_field(Field::Text(hash.deep_view())).1,
        write_field(Field::OptionalText(prompt_message.deep_view())).1,
    ensures
        write_fields((ClientsideAddResourcePack { uuid, url, hash, forced, prompt_message }).fields(), 5) == (write_field(Field::Uuid(uuid.deep_view())).0 + write_field(Field::Text(url.deep_view())).0 + write_field(Field::Text(hash.deep_view())).0 + write_field(Field::Bool(forced)).0 + write_field(Field::OptionalText(prompt_message.deep_view())).0, true),
{
    reveal_with_fuel(write_fields, 6);
    reveal(write_field);
}

/// Reading the fields of a `ClientsideAddResourcePack` written one after another, in the order
/// `uuid`, `url`, `hash`, `forced`, `prompt_message`, gives back a packet with those values, whatever
/// follows (nothing, after trailing bytes), when no list is oversized.
#[verifier::spinoff_prover]
pub proof fn lemma_clientside_add_resource_pack_reads_back(uuid: Uuid, url: String, hash: String, forced: bool, prompt_message: Option<String>, t: Seq<u8>)
    requires
        write_field(Field::Text(url.deep_view())).1,
        write_field(Field::Text(hash.deep_view())).1,
        write_field(Field::OptionalText(prompt_message.deep_view())).1,
        fields_read_back((ClientsideAddResourcePack { uuid, url, hash, forced, prompt_message }).fields()),
        trailing_bytes_last((ClientsideAddResourcePack { uuid, url, hash, forced, prompt_message }).fields(), t),
    ensures
        read_fields(ClientsideAddResourcePack::layout(), write_field(Field::Uuid(uuid.deep_view())).0 + write_field(Field::Text(url.deep_view())).0 + write_field(Field::Text(hash.deep_view())).0 + write_field(Field::Bool(forced)).0 + write_field(Field::OptionalText(prompt_message.deep_view())).0 + t, 0) == (Some((ClientsideAddResourcePack { uuid, url, hash, forced, prompt_message }).fields()), (write_field(Field::Uuid(uuid.deep_view())).0 + write_field(Field::Text(url.deep_view())).0 + write_field(Field::Text(hash.deep_view())).0 + write_field(Field::Bool(forced)).0 + write_field(Field::OptionalText(prompt_message.deep_view())).0).len()),
{
    lemma_clientside_add_resource_pack_wire(uuid, url, hash, forced, prompt_message);
    lemma_packet_roundtrip((ClientsideAddResourcePack { uuid, url, hash, forced, prompt_message }), t);
}

/// Stores a cookie.
#[derive(Clone, Debug, PartialEq)]
pub struct ClientsideStoreCookie {
    pub key: String,
    pub payload: Vec<u8>,
}

impl Packet for ClientsideStoreCookie {
    open spec fn layout() -> Seq<FieldKind> {
        seq![FieldKind::Text, FieldKind::RemainingBytes]
    }

    open spec fn fields(&self) -> Seq<Field> {
        seq![Field::Text(self.key.deep_view()), Field::RemainingBytes(self.payload@)]
    }

    proof fn lemma_fields_fit(&self) {
    }

    fn read(buffer: &mut Cursor) -> (res: Option<Self>) {
        proof {
            reveal_with_fuel(read_fields, 3);
        }
        let key = match read_text_field(buffer) {
            Some(v) => v,
            None => return None,
        };
        let payload = read_remaining_field(buffer);
        Some(ClientsideStoreCookie { key, payload })
    }

    fn write(&self, buffer: &mut Vec<u8>) -> (res: Result<(), WriteError>) {
        let ghost fs = self.fields();
        assert(write_fields(fs, 0) == (Seq::<u8>::empty(), true));
        let r = write_text_field(&self.key, buffer);
        assert(buffer@ =~= old(buffer)@ + write_fields(fs, 1).0);
        if r.is_err() {
            proof {
                lemma_write_fields_stopped(fs, 1, 2);
            }
            return r;
        }
        let r = write_remaining_field(&self.payload, buffer);
        assert(buffer@ =~= old(buffer)@ + write_fields(fs, 2).0);
        if r.is_err() {
            proof {
                lemma_write_fields_stopped(fs, 2, 2);
            }
            return r;
        }
        Ok(())
    }
}

/// Writing a `ClientsideStoreCookie` puts its fields on the wire one after another, in this
/// order: `key`, `payload`.
#[verifier::spinoff_prover]
pub proof fn lemma_clientside_store_cookie_wire(key: String, payload: Vec<u8>)
    requires
        write_field(Field::Text(key.deep_view())).1,
    ensures
        write_fields((ClientsideStoreCookie { key, payload }).fields(), 2) == (write_field(Field::Text(key.deep_view())).0 + write_field(Field::RemainingBytes(payload@)).0, true),
{
    reveal_with_fuel(write_fields, 3);
    reveal(write_field);
}

/// Reading the fields of a `ClientsideStoreCookie` written one after another, in the order
/// `key`, `payload`, gives back a packet with those values, whatever
/// follows (nothing, after trailing bytes), when no list is oversized.
#[verifier::spinoff_prover]
pub proof fn lemma_clientside_store_cookie_reads_back(key: String, payload: Vec<u8>, t: Seq<u8>)
    requires
        write_field(Field::Text(key.deep_view())).1,
        fields_read_back((ClientsideStoreCookie { key, payload }).fields()),
        trailing_bytes_last((ClientsideStoreCookie { key, payload }).fields(), t),
    ensures
        read_fields(ClientsideStoreCookie::layout(), write_field(Field::Text(key.deep_view())).0 + write_field(Field::RemainingBytes(payload@)).0 + t, 0) == (Some((ClientsideStoreCookie { key, payload }).fields()), (write_field(Field::Text(key.deep_view())).0 + write_field(Field::RemainingBytes(payload@)).0).len()),
{
    lemma_clientside_store_cookie_wire(key, payload);
    lemma_packet_roundtrip((ClientsideStoreCookie { key, payload }), t);
}

/// Moves the client to another server.
#[derive(Clone, Debug, PartialEq)]
pub struct ClientsideTransfer {
    pub server_host: String,
    pub server_port: i32,
}

impl Packet for ClientsideTransfer {
    open spec fn layout() -> Seq<FieldKind> {
        seq![FieldKind::Text, FieldKind::VarInt]
    }

    open spec fn fields(&self) -> Seq<Field> {
        seq![Field::Text(self.server_host.deep_view()), Field::VarInt(self.server_port)]
    }

    proof fn lemma_fields_fit(&self) {
    }

    fn read(buffer: &mut Cursor) -> (res: Option<Self>) {
        proof {
            reveal_with_fuel(read_fields, 3);
        }
        let server_host = match read_text_field(buffer) {
            Some(v) => v,
            None => return None,
        };
        let server_port = match read_varint_field(buffer) {
            Some(v) => v,
            None => return None,
        };
        Some(ClientsideTransfer { server_host, server_port })
    }

    fn write(&self, buffer: &mut Vec<u8>) -> (res: Result<(), WriteError>) {
        let ghost fs = self.fields();
        assert(write_fields(fs, 0) == (Seq::<u8>::empty(), true));
        let r = write_text_field(&self.server_host, buffer);
        assert(buffer@ =~= old(buffer)@ + write_fields(fs, 1).0);
        if r.is_err() {
            proof {
                lemma_write_fields_stopped(fs, 1, 2);
            }
            return r;
        }
        let r = write_varint_field(self.server_port, buffer);
        assert(buffer@ =~= old(buffer)@ + write_fields(fs, 2).0);
        if r.is_err() {
            proof {
                lemma_write_fields_stopped(fs, 2, 2);
            }
            return r;
        }
        Ok(())
    }
}

/// Writing a `ClientsideTransfer` puts its fields on the wire one after another, in this
/// order: `server_host`, `server_port`.
#[verifier::spinoff_prover]
pub proof fn lemma_clientside_transfer_wire(server_host: String, server_port: i32)
    requires
        write_field(Field::Text(server_host.deep_view())).1,
    ensures
        write_fields((ClientsideTransfer { server_host, server_port }).fields(), 2) == (write_field(Field::Text(server_host.deep_view())).0 + write_field(Field::VarInt(server_port)).0, true),
{
    reveal_with_fuel(write_fields, 3);
    reveal(write_field);
}

/// Reading the fields of a `ClientsideTransfer` written one after another, in the order
/// `server_host`, `server_port`, gives back a packet with those values, whatever
/// follows (nothing, after trailing bytes), when no list is oversized.
#[verifier::spinoff_prover]
pub proof fn lemma_clientside_transfer_reads_back(server_host: String, server_port: i32, t: Seq<u8>)
    requires
        write_field(Field::Text(server_host.deep_view())).1,
        fields_read_back((ClientsideTransfer { server_host, server_port }).fields()),
        trailing_bytes_last((ClientsideTransfer { server_host, server_port }).fields(), t),
    ensures
        read_fields(ClientsideTransfer::layout(), write_field(Field::Text(server_host.deep_view())).0 + write_field(Field::VarInt(server_port)).0 + t, 0) == (Some((ClientsideTransfer { server_host, server_port }).fields()), (write_field(Field::Text(server_host.deep_view())).0 + write_field(Field::VarInt(server_port)).0).len()),
{
    lemma_clientside_transfer_wire(server_host, server_port);
    lemma_packet_roundtrip((ClientsideTransfer { server_host, server_port }), t);
}

/// The enabled feature flags.
#[derive(Clone, Debug, PartialEq)]
pub struct ClientsideFeatureFlags {
    pub features: Vec<String>,
}

impl Packet for ClientsideFeatureFlags {
    open spec fn layout() -> Seq<FieldKind> {
        seq![FieldKind::TextList]
    }

    open spec fn fields(&self) -> Seq<Field> {
        seq![Field::TextList(self.features.deep_view())]
    }

    proof fn lemma_fields_fit(&self) {
    }

    fn read(buffer: &mut Cursor) -> (res: Option<Self>) {
        proof {
            reveal_with_fuel(read_fields, 2);
        }
        let features = match read_text_list_field(buffer) {
            Some(v) => v,
            None => return None,
        };
        Some(ClientsideFeatureFlags { features })
    }

    fn write(&self, buffer: &mut Vec<u8>) -> (res: Result<(), WriteError>) {
        let ghost fs = self.fields();
        assert(write_fields(fs, 0) == (Seq::<u8>::empty(), true));
        let r = write_text_list_field(&self.features, buffer);
        assert(buffer@ =~= old(buffer)@ + write_fields(fs, 1).0);
        if r.is_err() {
            proof {
                lemma_write_fields_stopped(fs, 1, 1);
            }
            return r;
        }
        Ok(())
    }
}

/// Writing a `ClientsideFeatureFlags` puts its fields on the wire one after another, in this
/// order: `features`.
#[verifier::spinoff_prover]
pub proof fn lemma_clientside_feature_flags_wire(features: Vec<String>)
    requires
        write_field(Field::TextList(features.deep_view())).1,
    ensures
        write_fields((ClientsideFeatureFlags { features }).fields(), 1) == (write_field(Field::TextList(features.deep_view())).0, true),
{
    reveal_with_fuel(write_fields, 2);
    reveal(write_field);
}

/// Reading the fields of a `ClientsideFeatureFlags` written one after another, in the order
/// `features`, gives back a packet with those values, whatever
/// follows (nothing, after trailing bytes), when no list is oversized.
#[verifier::spinoff_prover]
pub proof fn lemma_clientside_feature_flags_reads_back(features: Vec<String>, t: Seq<u8>)
    requires
        write_field(Field::TextList(features.deep_view())).1,
        fields_read_back((ClientsideFeatureFlags { features }).fields()),
        trailing_bytes_last((ClientsideFeatureFlags { features }).fields(), t),
    ensures
        read_fields(ClientsideFeatureFlags::layout(), write_field(Field::TextList(features.deep_view())).0 + t, 0) == (Some((ClientsideFeatureFlags { features }).fields()), (write_field(Field::TextList(features.deep_view())).0).len()),
{
    lemma_clientside_feature_flags_wire(features);
    lemma_packet_roundtrip((ClientsideFeatureFlags { features }), t);
}

/// Answer to a cookie request.
#[derive(Clone, Debug, PartialEq)]
pub struct ServersideCookieResponse {
    pub key: String,
    pub payload: Option<Vec<u8>>,
}

impl Packet for ServersideCookieResponse {
    open spec fn layout() -> Seq<FieldKind> {
        seq![FieldKind::Text, FieldKind::OptionalByteArray]
    }

    open spec fn fields(&self) -> Seq<Field> {
        seq![Field::Text(self.key.deep_view()), Field::OptionalByteArray(self.payload.deep_view())]
    }

    proof fn lemma_fields_fit(&self) {
    }

    fn read(buffer: &mut Cursor) -> (res: Option<Self>) {
        proof {
            reveal_with_fuel(read_fields, 3);
        }
        let key = match read_text_field(buffer) {
            Some(v) => v,
            None => return None,
        };
        let payload = match read_optional_byte_array_field(buffer) {
            Some(v) => v,
            None => return None,
        };
        Some(ServersideCookieResponse { key, payload })
    }

    fn write(&self, buffer: &mut Vec<u8>) -> (res: Result<(), WriteError>) {
        let ghost fs = self.fields();
        assert(write_fields(fs, 0) == (Seq::<u8>::empty(), true));
        let r = write_text_field(&self.key, buffer);
        assert(buffer@ =~= old(buffer)@ + write_fields(fs, 1).0);
        if r.is_err() {
            proof {
                lemma_write_fields_stopped(fs, 1, 2);
            }
            return r;
        }
        let r = write_optional_byte_array_field(&self.payload, buffer);
        assert(buffer@ =~= old(buffer)@ + write_fields(fs, 2).0);
        if r.is_err() {
            proof {
                lemma_write_fields_stopped(fs, 2, 2);
            }
            return r;
        }
        Ok(())
    }
}

/// Writing a `ServersideCookieResponse` puts its fields on the wire one after another, in this
/// order: `key`, `payload`.
#[verifier::spinoff_prover]
pub proof fn lemma_serverside_cookie_response_wire(key: String, payload: Option<Vec<u8>>)
    requires
        write_field(Field::Text(key.deep_view())).1,
        write_field(Field::OptionalByteArray(payload.deep_view())).1,
    ensures
        write_fields((ServersideCookieResponse { key, payload }).fields(), 2) == (write_field(Field::Text(key.deep_view())).0 + write_field(Field::OptionalByteArray(payload.deep_view())).0, true),
{
    reveal_with_fuel(write_fields, 3);
    reveal(write_field);
}

/// Reading the fields of a `ServersideCookieResponse` written one after another, in the order
/// `key`, `payload`, gives back a packet with those values, whatever
/// follows (nothing, after trailing bytes), when no list is oversized.
#[verifier::spinoff_prover]
pub proof fn lemma_serverside_cookie_response_reads_back(key: String, payload: Option<Vec<u8>>, t: Seq<u8>)
    requires
        write_field(Field::Text(key.deep_view())).1,
        write_field(Field::OptionalByteArray(payload.deep_view())).1,
        fields_read_back((ServersideCookieResponse { key, payload }).fields()),
        trailing_bytes_last((ServersideCookieResponse { key, payload }).fields(), t),
    ensures
        read_fields(ServersideCookieResponse::layout(), write_field(Field::Text(key.deep_view())).0 + write_field(Field::OptionalByteArray(payload.deep_view())).0 + t, 0) == (Some((ServersideCookieResponse { key, payload }).fields()), (write_field(Field::Text(key.deep_view())).0 + write_field(Field::OptionalByteArray(payload.deep_view())).0).len()),
{
    lemma_serverside_cookie_response_wire(key, payload);
    lemma_packet_roundtrip((ServersideCookieResponse { key, payload }), t);
}

/// Answer to a ping.
#[derive(Clone, Debug, PartialEq)]
pub struct ServersidePong {
    pub id: i32,
}

impl Packet for ServersidePong {
    open spec fn layout() -> Seq<FieldKind> {
        seq![FieldKind::Int]
    }

    open spec fn fields(&self) -> Seq<Field> {
        seq![Field::Int(self.id)]
    }

    proof fn lemma_fields_fit(&self) {
    }

    fn read(buffer: &mut Cursor) -> (res: Option<Self>) {
        proof {
            reveal_with_fuel(read_fields, 2);
        }
        let id = match read_int_field(buffer) {
            Some(v) => v,
            None => return None,
        };
        Some(ServersidePong { id })
    }

    fn write(&self, buffer: &mut Vec<u8>) -> (res: Result<(), WriteError>) {
        let ghost fs = self.fields();
        assert(write_fields(fs, 0) == (Seq::<u8>::empty(), true));
        let r = write_int_field(self.id, buffer);
        assert(buffer@ =~= old(buffer)@ + write_fields(fs, 1).0);
        if r.is_err() {
            proof {
                lemma_write_fields_stopped(fs, 1, 1);
            }
            return r;
        }
        Ok(())
    }
}

/// Writing a `ServersidePong` puts its fields on the wire one after another, in this
/// order: `id`.
#[verifier::spinoff_prover]
pub proof fn lemma_serverside_pong_wire(id: i32)
    ensures
        write_fields((ServersidePong { id }).fields(), 1) == (write_field(Field::Int(id)).0, true),
{
    reveal_with_fuel(write_fields, 2);
    reveal(write_field);
}

/// Reading the fields of a `ServersidePong` written one after another, in the order
/// `id`, gives back a packet with those values, whatever
/// follows (nothing, after trailing bytes), when no list is oversized.
#[verifier::spinoff_prover]
pub proof fn lemma_serverside_pong_reads_back(id: i32, t: Seq<u8>)
    requires
        fields_read_back((ServersidePong { id }).fields()),
        trailing_bytes_last((ServersidePong { id }).fields(), t),
    ensures
        read_fields(ServersidePong::layout(), write_field(Field::Int(id)).0 + t, 0) == (Some((ServersidePong { id }).fields()), (write_field(Field::Int(id)).0).len()),
{
    lemma_serverside_pong_wire(id);
    lemma_packet_roundtrip((ServersidePong { id }), t);
}

/// A plugin message to the server.
#[derive(Clone, Debug, PartialEq)]
pub struct ServersidePluginMessage {
    pub channel: String,
    pub data: Vec<u8>,
}

impl Packet for ServersidePluginMessage {
    open spec fn layout() -> Seq<FieldKind> {
        seq![FieldKind::Text, FieldKind::RemainingBytes]
    }

    open spec fn fields(&self) -> Seq<Field> {
        seq![Field::Text(self.channel.deep_view()), Field::RemainingBytes(self.data@)]
    }

    proof fn lemma_fields_fit(&self) {
    }

    fn read(buffer: &mut Cursor) -> (res: Option<Self>) {
        proof {
            reveal_with_fuel(read_fields, 3);
        }
        let channel = match read_text_field(buffer) {
            Some(v) => v,
            None => return None,
        };
        let data = read_remaining_field(buffer);
        Some(ServersidePluginMessage { channel, data })
    }

    fn write(&self, buffer: &mut Vec<u8>) -> (res: Result<(), WriteError>) {
        let ghost fs = self.fields();
        assert(write_fields(fs, 0) == (Seq::<u8>::empty(), true));
        let r = write_text_field(&self.channel, buffer);
        assert(buffer@ =~= old(buffer)@ + write_fields(fs, 1).0);
        if r.is_err() {
            proof {
                lemma_write_fields_stopped(fs, 1, 2);
            }
            return r;
        }
        let r = write_remaining_field(&self.data, buffer);
        assert(buffer@ =~= old(buffer)@ + write_fields(fs, 2).0);
        if r.is_err() {
            proof {
                lemma_write_fields_stopped(fs, 2, 2);
            }
            return r;
        }
        Ok(())
    }
}

/// Writing a `ServersidePluginMessage` puts its fields on the wire one after another, in this
/// order: `channel`, `data`.
#[verifier::spinoff_prover]
pub proof fn lemma_serverside_plugin_message_wire(channel: String, data: Vec<u8>)
    requires
        write_field(Field::Text(channel.deep_view())).1,
    ensures
        write_fields((ServersidePluginMessage { channel, data }).fields(), 2) == (write_field(Field::Text(channel.deep_view())).0 + write_field(Field::RemainingBytes(data@)).0, true),
{
    reveal_with_fuel(write_fields, 3);
    reveal(write_field);
}

/// Reading the fields of a `ServersidePluginMessage` written one after another, in the order
/// `channel`, `data`, gives back a packet with those values, whatever
/// follows (nothing, after trailing bytes), when no list is oversized.
#[verifier::spinoff_prover]
pub proof fn lemma_serverside_plugin_message_reads_back(channel: String, data: Vec<u8>, t: Seq<u8>)
    requires
        write_field(Field::Text(channel.deep_view())).1,
        fields_read_back((ServersidePluginMessage { channel, data }).fields()),
        trailing_bytes_last((ServersidePluginMessage { channel, data }).fields(), t),
    ensures
        read_fields(ServersidePluginMessage::layout(), write_field(Field::Text(channel.deep_view())).0 + write_field(Field::RemainingBytes(data@)).0 + t, 0) == (Some((ServersidePluginMessage { channel, data }).fields()), (write_field(Field::Text(channel.deep_view())).0 + write_field(Field::RemainingBytes(data@)).0).len()),
{
    lemma_serverside_plugin_message_wire(channel, data);
    lemma_packet_roundtrip((ServersidePluginMessage { channel, data }), t);
}

/// Confirms the end of the configuration.
#[derive(Clone, Copy, Debug, PartialEq, Eq)]
pub struct ServersideAcknowledgeFinishConfiguration;

impl Packet for ServersideAcknowledgeFinishConfiguration {
    open spec fn layout() -> Seq<FieldKind> {
        Seq::empty()
    }

    open spec fn fields(&self) -> Seq<Field> {
        Seq::empty()
    }

    proof fn lemma_fields_fit(&self) {
    }

    fn read(buffer: &mut Cursor) -> (res: Option<Self>) {
        proof {
            reveal_with_fuel(read_fields, 1);
        }
        Some(ServersideAcknowledgeFinishConfiguration)
    }

    fn write(&self, buffer: &mut Vec<u8>) -> (res: Result<(), WriteError>) {
        let ghost fs = self.fields();
        assert(write_fields(fs, 0) == (Seq::<u8>::empty(), true));
        assert(buffer@ =~= old(buffer)@ + Seq::<u8>::empty());
        Ok(())
    }
}


/// The client's settings.
#[derive(Clone, Debug, PartialEq)]
pub struct ServersideClientInformation {
    pub locale: String,
    pub view_distance: i8,
    pub chat_mode: ChatMode,
    pub chat_colors: bool,
    pub displayed_skin_parts: u8,
    pub main_hand: AccurateHand,
    pub enable_text_filtering: bool,
    pub allow_server_listings: bool,
    pub particle_status: ParticleStatus,
}

impl Packet for ServersideClientInformation {
    open spec fn layout() -> Seq<FieldKind> {
        seq![FieldKind::Text, FieldKind::Byte, FieldKind::Code(3), FieldKind::Bool, FieldKind::UByte, FieldKind::Code(2), FieldKind::Bool, FieldKind::Bool, FieldKind::Code(3)]
    }

    open spec fn fields(&self) -> Seq<Field> {
        seq![Field::Text(self.locale.deep_view()), Field::Byte(self.view_distance), Field::Code(3, self.chat_mode.spec_id()), Field::Bool(self.chat_colors), Field::UByte(self.displayed_skin_parts), Field::Code(2, self.main_hand.spec_id()), Field::Bool(self.enable_text_filtering), Field::Bool(self.allow_server_listings), Field::Code(3, self.particle_status.spec_id())]
    }

    proof fn lemma_fields_fit(&self) {
    }

    fn read(buffer: &mut Cursor) -> (res: Option<Self>) {
        proof {
            reveal_with_fuel(read_fields, 10);
        }
        let locale = match read_text_field(buffer) {
            Some(v) => v,
            None => return None,
        };
        let view_distance = match read_byte_field(buffer) {
            Some(v) => v,
            None => return None,
        };
        let chat_mode = match read_code_field(buffer, 3) {
            Some(v) => ChatMode::from_id(v),
            None => return None,
        };
        let chat_colors = match read_bool_field(buffer) {
            Some(v) => v,
            None => return None,
        };
        let displayed_skin_parts = match read_ubyte_field(buffer) {
            Some(v) => v,
            None => return None,
        };
        let main_hand = match read_code_field(buffer, 2) {
            Some(v) => AccurateHand::from_id(v),
            None => return None,
        };
        let enable_text_filtering = match read_bool_field(buffer) {
            Some(v) => v,
            None => return None,
        };
        let allow_server_listings = match read_bool_field(buffer) {
            Some(v) => v,
            None => return None,
        };
        let particle_status = match read_code_field(buffer, 3) {
            Some(v) => ParticleStatus::from_id(v),
            None => return None,
        };
        Some(ServersideClientInformation { locale, view_distance, chat_mode, chat_colors, displayed_skin_parts, main_hand, enable_text_filtering, allow_server_listings, particle_status })
    }

    #[verifier::spinoff_prover]
    #[verifier::rlimit(50)]
    fn write(&self, buffer: &mut Vec<u8>) -> (res: Result<(), WriteError>) {
        let ghost fs = self.fields();
        assert(write_fields(fs, 0) == (Seq::<u8>::empty(), true));
        let r = write_text_field(&self.locale, buffer);
        assert(buffer@ =~= old(buffer)@ + write_fields(fs, 1).0);
        if r.is_err() {
            proof {
                lemma_write_fields_stopped(fs, 1, 9);
            }
            return r;
        }
        let r = write_byte_field(self.view_distance, buffer);
        assert(buffer@ =~= old(buffer)@ + write_fields(fs, 2).0);
        if r.is_err() {
            proof {
                lemma_write_fields_stopped(fs, 2, 9);
            }
            return r;
        }
        let r = write_code_field(3, self.chat_mode.id(), buffer);
        assert(buffer@ =~= old(buffer)@ + write_fields(fs, 3).0);
        if r.is_err() {
            proof {
                lemma_write_fields_stopped(fs, 3, 9);
            }
            return r;
        }
        let r = write_bool_field(self.chat_colors, buffer);
        assert(buffer@ =~= old(buffer)@ + write_fields(fs, 4).0);
        if r.is_err() {
            proof {
                lemma_write_fields_stopped(fs, 4, 9);
            }
            return r;
        }
        let r = write_ubyte_field(self.displayed_skin_parts, buffer);
        assert(buffer@ =~= old(buffer)@ + write_fields(fs, 5).0);
        if r.is_err() {
            proof {
                lemma_write_fields_stopped(fs, 5, 9);
            }
            return r;
        }
        let r = write_code_field(2, self.main_hand.id(), buffer);
        assert(buffer@ =~= old(buffer)@ + write_fields(fs, 6).0);
        if r.is_err() {
            proof {
                lemma_write_fields_stopped(fs, 6, 9);
            }
            return r;
        }
        let r = write_bool_field(self.enable_text_filtering, buffer);
        assert(buffer@ =~= old(buffer)@ + write_fields(fs, 7).0);
        if r.is_err() {
            proof {
                lemma_write_fields_stopped(fs, 7, 9);
            }
            return r;
        }
        let r = write_bool_field(self.allow_server_listings, buffer);
        assert(buffer@ =~= old(buffer)@ + write_fields(fs, 8).0);
        if r.is_err() {
            proof {
                lemma_write_fields_stopped(fs, 8, 9);
            }
            return r;
        }
        let r = write_code_field(3, self.particle_status.id(), buffer);
        assert(buffer@ =~= old(buffer)@ + write_fields(fs, 9).0);
        if r.is_err() {
            proof {
                lemma_write_fields_stopped(fs, 9, 9);
            }
            return r;
        }
        Ok(())
    }
}

/// Writing a `ServersideClientInformation` puts its fields on the wire one after another, in this
/// order: `locale`, `view_distance`, `chat_mode`, `chat_colors`, `displayed_skin_parts`, `main_hand`, `enable_text_filtering`, `allow_server_listings`, `particle_status`.
#[verifier::spinoff_prover]
pub proof fn lemma_serverside_client_information_wire(locale: String, view_distance: i8, chat_mode: ChatMode, chat_colors: bool, displayed_skin_parts: u8, main_hand: AccurateHand, enable_text_filtering: bool, allow_server_listings: bool, particle_status: ParticleStatus)
    requires
        write_field(Field::Text(locale.deep_view())).1,
    ensures
        write_fields((ServersideClientInformation { locale, view_distance, chat_mode, chat_colors, displayed_skin_parts, main_hand, enable_text_filtering, allow_server_listings, particle_status }).fields(), 9) == (write_field(Field::Text(locale.deep_view())).0 + write_field(Field::Byte(view_distance)).0 + write_field(Field::Code(3, chat_mode.spec_id())).0 + write_field(Field::Bool(chat_colors)).0 + write_field(Field::UByte(displayed_skin_parts)).0 + write_field(Field::Code(2, main_hand.spec_id())).0 + write_field(Field::Bool(enable_text_filtering)).0 + write_field(Field::Bool(allow_server_listings)).0 + write_field(Field::Code(3, particle_status.spec_id())).0, true),
{
    reveal_with_fuel(write_fields, 10);
    reveal(write_field);
}

/// Reading the fields of a `ServersideClientInformation` written one after another, in the order
/// `locale`, `view_distance`, `chat_mode`, `chat_colors`, `displayed_skin_parts`, `main_hand`, `enable_text_filtering`, `allow_server_listings`, `particle_status`, gives back a packet with those values, whatever
/// follows (nothing, after trailing bytes), when no list is oversized.
#[verifier::spinoff_prover]
pub proof fn lemma_serverside_client_information_reads_back(locale: String, view_distance: i8, chat_mode: ChatMode, chat_colors: bool, displayed_skin_parts: u8, main_hand: AccurateHand, enable_text_filtering: bool, allow_server_listings: bool, particle_status: ParticleStatus, t: Seq<u8>)
    requires
        write_field(Field::Text(locale.deep_view())).1,
        fields_read_back((ServersideClientInformation { locale, view_distance, chat_mode, chat_colors, displayed_skin_parts, main_hand, enable_text_filtering, allow_server_listings, particle_status }).fields()),
        trailing_bytes_last((ServersideClientInformation { locale, view_distance, chat_mode, chat_colors, displayed_skin_parts, main_hand, enable_text_filtering, allow_server_listings, particle_status }).fields(), t),
    ensures
        read_fields(ServersideClientInformation::layout(), write_field(Field::Text(locale.deep_view())).0 + write_field(Field::Byte(view_distance)).0 + write_field(Field::Code(3, chat_mode.spec_id())).0 + write_field(Field::Bool(chat_colors)).0 + write_field(Field::UByte(displayed_skin_parts)).0 + write_field(Field::Code(2, main_hand.spec_id())).0 + write_field(Field::Bool(enable_text_filtering)).0 + write_field(Field::Bool(allow_server_listings)).0 + write_field(Field::Code(3, particle_status.spec_id())).0 + t, 0) == (Some((ServersideClientInformation { locale, view_distance, chat_mode, chat_colors, displayed_skin_parts, main_hand, enable_text_filtering, allow_server_listings, particle_status }).fields()), (write_field(Field::Text(locale.deep_view())).0 + write_field(Field::Byte(view_distance)).0 + write_field(Field::Code(3, chat_mode.spec_id())).0 + write_field(Field::Bool(chat_colors)).0 + write_field(Field::UByte(displayed_skin_parts)).0 + write_field(Field::Code(2, main_hand.spec_id())).0 + write_field(Field::Bool(enable_text_filtering)).0 + write_field(Field::Bool(allow_server_listings)).0 + write_field(Field::Code(3, particle_status.spec_id())).0).len()),
{
    lemma_serverside_client_information_wire(locale, view_distance, chat_mode, chat_colors, displayed_skin_parts, main_hand, enable_text_filtering, allow_server_listings, particle_status);
    lemma_packet_roundtrip((ServersideClientInformation { locale, view_distance, chat_mode, chat_colors, displayed_skin_parts, main_hand, enable_text_filtering, allow_server_listings, particle_status }), t);
}

/// What became of an offered resource pack.
#[derive(Clone, Debug, PartialEq)]
pub struct ServersideResourcePackResponse {
    pub uuid: Uuid,
    pub state: ResourcePackState,
}

impl Packet for ServersideResourcePackResponse {
    open spec fn layout() -> Seq<FieldKind> {
        seq![FieldKind::Uuid, FieldKind::Code(8)]
    }

    open spec fn fields(&self) -> Seq<Field> {
        seq![Field::Uuid(self.uuid.deep_view()), Field::Code(8, self.state.spec_id())]
    }

    proof fn lemma_fields_fit(&self) {
    }

    fn read(buffer: &mut Cursor) -> (res: Option<Self>) {
        proof {
            reveal_with_fuel(read_fields, 3);
        }
        let uuid = match read_uuid_field(buffer) {
            Some(v) => v,
            None => return None,
        };
        let state = match read_code_field(buffer, 8) {
            Some(v) => ResourcePackState::from_id(v),
            None => return None,
        };
        Some(ServersideResourcePackResponse { uuid, state })
    }

    #[verifier::spinoff_prover]
    #[verifier::rlimit(50)]
    fn write(&self, buffer: &mut Vec<u8>) -> (res: Result<(), WriteError>) {
        let ghost fs = self.fields();
        assert(write_fields(fs, 0) == (Seq::<u8>::empty(), true));
        let r = write_uuid_field(self.uuid, buffer);
        assert(buffer@ =~= old(buffer)@ + write_fields(fs, 1).0);
        if r.is_err() {
            proof {
                lemma_write_fields_stopped(fs, 1, 2);
            }
            return r;
        }
        let r = write_code_field(8, self.state.id(), buffer);
        assert(buffer@ =~= old(buffer)@ + write_fields(fs, 2).0);
        if r.is_err() {
            proof {
                lemma_write_fields_stopped(fs, 2, 2);
            }
            return r;
        }
        Ok(())
    }
}

/// Writing a `ServersideResourcePackResponse` puts its fields on the wire one after another, in this
/// order: `uuid`, `state`.
#[verifier::spinoff_prover]
pub proof fn lemma_serverside_resource_pack_response_wire(uuid: Uuid, state: ResourcePackState)
    ensures
        write_fields((ServersideResourcePackResponse { uuid, state }).fields(), 2) == (write_field(Field::Uuid(uuid.deep_view())).0 + write_field(Field::Code(8, state.spec_id())).0, true),
{
    reveal_with_fuel(write_fields, 3);
    reveal(write_field);
}

/// Reading the fields of a `ServersideResourcePackResponse` written one after another, in the order
/// `uuid`, `state`, gives back a packet with those values, whatever
/// follows (nothing, after trailing bytes), when no list is oversized.
#[verifier::spinoff_prover]
pub proof fn lemma_serverside_resource_pack_response_reads_back(uuid: Uuid, state: ResourcePackState, t: Seq<u8>)
    requires
        fields_read_back((ServersideResourcePackResponse { uuid, state }).fields()),
        trailing_bytes_last((ServersideResourcePackResponse { uuid, state }).fields(), t),
    ensures
        read_fields(ServersideResourcePackResponse::layout(), write_field(Field::Uuid(uuid.deep_view())).0 + write_field(Field::Code(8, state.spec_id())).0 + t, 0) == (Some((ServersideResourcePackResponse { uuid, state }).fields()), (write_field(Field::Uuid(uuid.deep_view())).0 + write_field(Field::Code(8, state.spec_id())).0).len()),
{
    lemma_serverside_resource_pack_response_wire(uuid, state);
    lemma_packet_roundtrip((ServersideResourcePackResponse { uuid, state }), t);
}

/// The data packs the client knows.
#[derive(Clone, Debug, PartialEq)]
pub struct ServersideKnownPacks {
    pub known_packs: Vec<KnownPack>,
}

impl Packet for ServersideKnownPacks {
    open spec fn layout() -> Seq<FieldKind> {
        seq![FieldKind::KnownPackList]
    }

    open spec fn fields(&self) -> Seq<Field> {
        seq![Field::KnownPackList(self.known_packs.deep_view())]
    }

    proof fn lemma_fields_fit(&self) {
    }

    fn read(buffer: &mut Cursor) -> (res: Option<Self>) {
        proof {
            reveal_with_fuel(read_fields, 2);
        }
        let known_packs = match read_known_pack_list_field(buffer) {
            Some(v) => v,
            None => return None,
        };
        Some(ServersideKnownPacks { known_packs })
    }

    fn write(&self, buffer: &mut Vec<u8>) -> (res: Result<(), WriteError>) {
        let ghost fs = self.fields();
        assert(write_fields(fs, 0) == (Seq::<u8>::empty(), true));
        let r = write_known_pack_list_field(&self.known_packs, buffer);
        assert(buffer@ =~= old(buffer)@ + write_fields(fs, 1).0);
        if r.is_err() {
            proof {
                lemma_write_fields_stopped(fs, 1, 1);
            }
            return r;
        }
        Ok(())
    }
}

/// Writing a `ServersideKnownPacks` puts its fields on the wire one after another, in this
/// order: `known_packs`.
#[verifier::spinoff_prover]
pub proof fn lemma_serverside_known_packs_wire(known_packs: Vec<KnownPack>)
    requires
        write_field(Field::KnownPackList(known_packs.deep_view())).1,
    ensures
        write_fields((ServersideKnownPacks { known_packs }).fields(), 1) == (write_field(Field::KnownPackList(known_packs.deep_view())).0, true),
{
    reveal_with_fuel(write_fields, 2);
    reveal(write_field);
}

/// Reading the fields of a `ServersideKnownPacks` written one after another, in the order
/// `known_packs`, gives back a packet with those values, whatever
/// follows (nothing, after trailing bytes), when no list is oversized.
#[verifier::spinoff_prover]
pub proof fn lemma_serverside_known_packs_reads_back(known_packs: Vec<KnownPack>, t: Seq<u8>)
    requires
        write_field(Field::KnownPackList(known_packs.deep_view())).1,
        fields_read_back((ServersideKnownPacks { known_packs }).fields()),
        trailing_bytes_last((ServersideKnownPacks { known_packs }).fields(), t),
    ensures
        read_fields(ServersideKnownPacks::layout(), write_field(Field::KnownPackList(known_packs.deep_view())).0 + t, 0) == (Some((ServersideKnownPacks { known_packs }).fields()), (write_field(Field::KnownPackList(known_packs.deep_view())).0).len()),
{
    lemma_serverside_known_packs_wire(known_packs);
    lemma_packet_roundtrip((ServersideKnownPacks { known_packs }), t);
}
/// The packets the client sends in the configuration state.
#[derive(Clone, Debug, PartialEq)]
pub enum ServersideConfigurationPacket {
    ClientInformation(ServersideClientInformation),
    CookieResponse(ServersideCookieResponse),
    PluginMessage(ServersidePluginMessage),
    AcknowledgeFinishConfiguration(ServersideAcknowledgeFinishConfiguration),
    KeepAlive(MultisideKeepAlive),
    Pong(ServersidePong),
    ResourcePackResponse(ServersideResourcePackResponse),
    KnownPacks(ServersideKnownPacks),
}

impl ProtocolPacket for ServersideConfigurationPacket {
    open spec fn spec_id(&self) -> u32 {
        match self {
            ServersideConfigurationPacket::ClientInformation(_) => 0x00,
            ServersideConfigurationPacket::CookieResponse(_) => 0x01,
            ServersideConfigurationPacket::PluginMessage(_) => 0x02,
            ServersideConfigurationPacket::AcknowledgeFinishConfiguration(_) => 0x03,
            ServersideConfigurationPacket::KeepAlive(_) => 0x04,
            ServersideConfigurationPacket::Pong(_) => 0x05,
            ServersideConfigurationPacket::ResourcePackResponse(_) => 0x06,
            ServersideConfigurationPacket::KnownPacks(_) => 0x07,
        }
    }

    open spec fn spec_fields(&self) -> Seq<Field> {
        match self {
            ServersideConfigurationPacket::ClientInformation(p) => p.fields(),
            ServersideConfigurationPacket::CookieResponse(p) => p.fields(),
            ServersideConfigurationPacket::PluginMessage(p) => p.fields(),
            ServersideConfigurationPacket::AcknowledgeFinishConfiguration(p) => p.fields(),
            ServersideConfigurationPacket::KeepAlive(p) => p.fields(),
            ServersideConfigurationPacket::Pong(p) => p.fields(),
            ServersideConfigurationPacket::ResourcePackResponse(p) => p.fields(),
            ServersideConfigurationPacket::KnownPacks(p) => p.fields(),
        }
    }

    open spec fn spec_layout(id: u32) -> Option<Seq<FieldKind>> {
        if id == 0x00 {
            Some(ServersideClientInformation::layout())
        } else if id == 0x01 {
            Some(ServersideCookieResponse::layout())
        } else if id == 0x02 {
            Some(ServersidePluginMessage::layout())
        } else if id == 0x03 {
            Some(ServersideAcknowledgeFinishConfiguration::layout())
        } else if id == 0x04 {
            Some(MultisideKeepAlive::layout())
        } else if id == 0x05 {
            Some(ServersidePong::layout())
        } else if id == 0x06 {
            Some(ServersideResourcePackResponse::layout())
        } else if id == 0x07 {
            Some(ServersideKnownPacks::layout())
        } else {
            None
        }
    }

    proof fn lemma_layout(&self) {
        match self {
            ServersideConfigurationPacket::ClientInformation(p) => p.lemma_fields_fit(),
            ServersideConfigurationPacket::CookieResponse(p) => p.lemma_fields_fit(),
            ServersideConfigurationPacket::PluginMessage(p) => p.lemma_fields_fit(),
            ServersideConfigurationPacket::AcknowledgeFinishConfiguration(p) => p.lemma_fields_fit(),
            ServersideConfigurationPacket::KeepAlive(p) => p.lemma_fields_fit(),
            ServersideConfigurationPacket::Pong(p) => p.lemma_fields_fit(),
            ServersideConfigurationPacket::ResourcePackResponse(p) => p.lemma_fields_fit(),
            ServersideConfigurationPacket::KnownPacks(p) => p.lemma_fields_fit(),
        }
    }

    fn id(&self) -> (r: u32)
        ensures
            *self is ClientInformation ==> r == 0x00,
            *self is CookieResponse ==> r == 0x01,
            *self is PluginMessage ==> r == 0x02,
            *self is AcknowledgeFinishConfiguration ==> r == 0x03,
            *self is KeepAlive ==> r == 0x04,
            *self is Pong ==> r == 0x05,
            *self is ResourcePackResponse ==> r == 0x06,
            *self is KnownPacks ==> r == 0x07,
    {
        match self {
            ServersideConfigurationPacket::ClientInformation(_) => 0x00,
            ServersideConfigurationPacket::CookieResponse(_) => 0x01,
            ServersideConfigurationPacket::PluginMessage(_) => 0x02,
            ServersideConfigurationPacket::AcknowledgeFinishConfiguration(_) => 0x03,
            ServersideConfigurationPacket::KeepAlive(_) => 0x04,
            ServersideConfigurationPacket::Pong(_) => 0x05,
            ServersideConfigurationPacket::ResourcePackResponse(_) => 0x06,
            ServersideConfigurationPacket::KnownPacks(_) => 0x07,
        }
    }

    fn read(id: u32, buffer: &mut Cursor) -> (res: Option<Self>)
        ensures
            id == 0x00 ==> match read_fields(ServersideClientInformation::layout(), old(buffer).rest(), 0).0 {
                Some(fs) => res matches Some(ServersideConfigurationPacket::ClientInformation(q)) && q.fields() == fs,
                None => res is None,
            },
            id == 0x01 ==> match read_fields(ServersideCookieResponse::layout(), old(buffer).rest(), 0).0 {
                Some(fs) => res matches Some(ServersideConfigurationPacket::CookieResponse(q)) && q.fields() == fs,
                None => res is None,
            },
            id == 0x02 ==> match read_fields(ServersidePluginMessage::layout(), old(buffer).rest(), 0).0 {
                Some(fs) => res matches Some(ServersideConfigurationPacket::PluginMessage(q)) && q.fields() == fs,
                None => res is None,
            },
            id == 0x03 ==> match read_fields(ServersideAcknowledgeFinishConfiguration::layout(), old(buffer).rest(), 0).0 {
                Some(fs) => res matches Some(ServersideConfigurationPacket::AcknowledgeFinishConfiguration(q)) && q.fields() == fs,
                None => res is None,
            },
            id == 0x04 ==> match read_fields(MultisideKeepAlive::layout(), old(buffer).rest(), 0).0 {
                Some(fs) => res matches Some(ServersideConfigurationPacket::KeepAlive(q)) && q.fields() == fs,
                None => res is None,
            },
            id == 0x05 ==> match read_fields(ServersidePong::layout(), old(buffer).rest(), 0).0 {
                Some(fs) => res matches Some(ServersideConfigurationPacket::Pong(q)) && q.fields() == fs,
                None => res is None,
            },
            id == 0x06 ==> match read_fields(ServersideResourcePackResponse::layout(), old(buffer).rest(), 0).0 {
                Some(fs) => res matches Some(ServersideConfigurationPacket::ResourcePackResponse(q)) && q.fields() == fs,
                None => res is None,
            },
            id == 0x07 ==> match read_fields(ServersideKnownPacks::layout(), old(buffer).rest(), 0).0 {
                Some(fs) => res matches Some(ServersideConfigurationPacket::KnownPacks(q)) && q.fields() == fs,
                None => res is None,
            },
            !(id == 0x00 || id == 0x01 || id == 0x02 || id == 0x03 || id == 0x04 || id == 0x05 || id == 0x06 || id == 0x07) ==> res is None,
    {
        match id {
            0x00 => match ServersideClientInformation::read(buffer) {
                Some(p) => Some(ServersideConfigurationPacket::ClientInformation(p)),
                None => None,
            },
            0x01 => match ServersideCookieResponse::read(buffer) {
                Some(p) => Some(ServersideConfigurationPacket::CookieResponse(p)),
                None => None,
            },
            0x02 => match ServersidePluginMessage::read(buffer) {
                Some(p) => Some(ServersideConfigurationPacket::PluginMessage(p)),
                None => None,
            },
            0x03 => match ServersideAcknowledgeFinishConfiguration::read(buffer) {
                Some(p) => Some(ServersideConfigurationPacket::AcknowledgeFinishConfiguration(p)),
                None => None,
            },
            0x04 => match MultisideKeepAlive::read(buffer) {
                Some(p) => Some(ServersideConfigurationPacket::KeepAlive(p)),
                None => None,
            },
            0x05 => match ServersidePong::read(buffer) {
                Some(p) => Some(ServersideConfigurationPacket::Pong(p)),
                None => None,
            },
            0x06 => match ServersideResourcePackResponse::read(buffer) {
                Some(p) => Some(ServersideConfigurationPacket::ResourcePackResponse(p)),
                None => None,
            },
            0x07 => match ServersideKnownPacks::read(buffer) {
                Some(p) => Some(ServersideConfigurationPacket::KnownPacks(p)),
                None => None,
            },
            _ => None,
        }
    }

    fn write(&self, buffer: &mut Vec<u8>) -> (res: Result<(), WriteError>) {
        match self {
            ServersideConfigurationPacket::ClientInformation(p) => p.write(buffer),
            ServersideConfigurationPacket::CookieResponse(p) => p.write(buffer),
            ServersideConfigurationPacket::PluginMessage(p) => p.write(buffer),
            ServersideConfigurationPacket::AcknowledgeFinishConfiguration(p) => p.write(buffer),
            ServersideConfigurationPacket::KeepAlive(p) => p.write(buffer),
            ServersideConfigurationPacket::Pong(p) => p.write(buffer),
            ServersideConfigurationPacket::ResourcePackResponse(p) => p.write(buffer),
            ServersideConfigurationPacket::KnownPacks(p) => p.write(buffer),
        }
    }
}

/// The id of each packet of the family, and the layout each id is read with: ClientInformation 0x00, CookieResponse 0x01, PluginMessage 0x02, AcknowledgeFinishConfiguration 0x03, KeepAlive 0x04, Pong 0x05, ResourcePackResponse 0x06, KnownPacks 0x07.
pub proof fn lemma_serverside_configuration_packet_ids(p: ServersideConfigurationPacket)
    ensures
        p is ClientInformation ==> p.spec_id() == 0x00,
        p is CookieResponse ==> p.spec_id() == 0x01,
        p is PluginMessage ==> p.spec_id() == 0x02,
        p is AcknowledgeFinishConfiguration ==> p.spec_id() == 0x03,
        p is KeepAlive ==> p.spec_id() == 0x04,
        p is Pong ==> p.spec_id() == 0x05,
        p is ResourcePackResponse ==> p.spec_id() == 0x06,
        p is KnownPacks ==> p.spec_id() == 0x07,
        ServersideConfigurationPacket::spec_layout(0x00) == Some(ServersideClientInformation::layout()),
        ServersideConfigurationPacket::spec_layout(0x01) == Some(ServersideCookieResponse::layout()),
        ServersideConfigurationPacket::spec_layout(0x02) == Some(ServersidePluginMessage::layout()),
        ServersideConfigurationPacket::spec_layout(0x03) == Some(ServersideAcknowledgeFinishConfiguration::layout()),
        ServersideConfigurationPacket::spec_layout(0x04) == Some(MultisideKeepAlive::layout()),
        ServersideConfigurationPacket::spec_layout(0x05) == Some(ServersidePong::layout()),
        ServersideConfigurationPacket::spec_layout(0x06) == Some(ServersideResourcePackResponse::layout()),
        ServersideConfigurationPacket::spec_layout(0x07) == Some(ServersideKnownPacks::layout()),
{
}

impl IntoPacket<ServersideConfigurationPacket> for ServersideConfigurationPacket {
    fn into_packet(self) -> (res: ServersideConfigurationPacket)
        ensures
            res == self,
    {
        self
    }
}

impl IntoPacket<ServersideConfigurationPacket> for ServersideClientInformation {
    fn into_packet(self) -> (res: ServersideConfigurationPacket)
        ensures
            res == ServersideConfigurationPacket::ClientInformation(self),
    {
        ServersideConfigurationPacket::ClientInformation(self)
    }
}

impl IntoPacket<ServersideConfigurationPacket> for ServersideCookieResponse {
    fn into_packet(self) -> (res: ServersideConfigurationPacket)
        ensures
            res == ServersideConfigurationPacket::CookieResponse(self),
    {
        ServersideConfigurationPacket::CookieResponse(self)
    }
}

impl IntoPacket<ServersideConfigurationPacket> for ServersidePluginMessage {
    fn into_packet(self) -> (res: ServersideConfigurationPacket)
        ensures
            res == ServersideConfigurationPacket::PluginMessage(self),
    {
        ServersideConfigurationPacket::PluginMessage(self)
    }
}

impl IntoPacket<ServersideConfigurationPacket> for ServersideAcknowledgeFinishConfiguration {
    fn into_packet(self) -> (res: ServersideConfigurationPacket)
        ensures
            res == ServersideConfigurationPacket::AcknowledgeFinishConfiguration(self),
    {
        ServersideConfigurationPacket::AcknowledgeFinishConfiguration(self)
    }
}

impl IntoPacket<ServersideConfigurationPacket> for MultisideKeepAlive {
    fn into_packet(self) -> (res: ServersideConfigurationPacket)
        ensures
            res == ServersideConfigurationPacket::KeepAlive(self),
    {
        ServersideConfigurationPacket::KeepAlive(self)
    }
}

impl IntoPacket<ServersideConfigurationPacket> for ServersidePong {
    fn into_packet(self) -> (res: ServersideConfigurationPacket)
        ensures
            res == ServersideConfigurationPacket::Pong(self),
    {
        ServersideConfigurationPacket::Pong(self)
    }
}

impl IntoPacket<ServersideConfigurationPacket> for ServersideResourcePackResponse {
    fn into_packet(self) -> (res: ServersideConfigurationPacket)
        ensures
            res == ServersideConfigurationPacket::ResourcePackResponse(self),
    {
        ServersideConfigurationPacket::ResourcePackResponse(self)
    }
}

impl IntoPacket<ServersideConfigurationPacket> for ServersideKnownPacks {
    fn into_packet(self) -> (res: ServersideConfigurationPacket)
        ensures
            res == ServersideConfigurationPacket::KnownPacks(self),
    {
        ServersideConfigurationPacket::KnownPacks(self)
    }
}
} // verus!
