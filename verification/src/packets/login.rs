use vstd::prelude::*;

use crate::buffer::WriteError;
use crate::field::{Field, FieldKind, lemma_write_fields_stopped, read_fields, write_field, write_fields};
use crate::field_io::{read_bool_field, read_byte_array_field, read_optional_byte_array_field, read_property_list_field, read_text_field, read_uuid_field, read_varint_field, write_bool_field, write_byte_array_field, write_optional_byte_array_field, write_property_list_field, write_text_field, write_uuid_field, write_varint_field};
use crate::packet::{IntoPacket, Packet, ProtocolPacket};
use crate::read::Cursor;
use crate::roundtrip::{fields_read_back, lemma_packet_roundtrip, trailing_bytes_last};
use crate::types::property::Property;
use crate::types::uuid::Uuid;

verus! {

/// The server refuses the login; the reason as JSON text.
#[derive(Clone, Debug, PartialEq)]
pub struct ClientsideLoginDisconnect {
    pub reason: String,
}

impl Packet for ClientsideLoginDisconnect {
    open spec fn layout() -> Seq<FieldKind> {
        seq![FieldKind::Text]
    }

    open spec fn fields(&self) -> Seq<Field> {
        seq![Field::Text(self.reason.deep_view())]
    }

    proof fn lemma_fields_fit(&self) {
    }

    fn read(buffer: &mut Cursor) -> (res: Option<Self>) {
        proof {
            reveal_with_fuel(read_fields, 2);
        }
        let reason = match read_text_field(buffer) {
            Some(v) => v,
            None => return None,
        };
        Some(ClientsideLoginDisconnect { reason })
    }

    fn write(&self, buffer: &mut Vec<u8>) -> (res: Result<(), WriteError>) {
        let ghost fs = self.fields();
        assert(write_fields(fs, 0) == (Seq::<u8>::empty(), true));
        let r = write_text_field(&self.reason, buffer);
        assert(buffer@ =~= old(buffer)@ + write_fields(fs, 1).0);
        if r.is_err() {
            proof {
                lemma_write_fields_stopped(fs, 1, 1);
            }
            return r;
        }
        Ok(())
    }
}

/// Writing a `ClientsideLoginDisconnect` puts its fields on the wire one after another, in this
/// order: `reason`.
#[verifier::spinoff_prover]
pub proof fn lemma_clientside_login_disconnect_wire(reason: String)
    requires
        write_field(Field::Text(reason.deep_view())).1,
    ensures
        write_fields((ClientsideLoginDisconnect { reason }).fields(), 1) == (write_field(Field::Text(reason.deep_view())).0, true),
{
    reveal_with_fuel(write_fields, 2);
    reveal(write_field);
}

/// Reading the fields of a `ClientsideLoginDisconnect` written one after another, in the order
/// `reason`, gives back a packet with those values, whatever
/// follows (nothing, after trailing bytes), when no list is oversized.
#[verifier::spinoff_prover]
pub proof fn lemma_clientside_login_disconnect_reads_back(reason: String, t: Seq<u8>)
    requires
        write_field(Field::Text(reason.deep_view())).1,
        fields_read_back((ClientsideLoginDisconnect { reason }).fields()),
        trailing_bytes_last((ClientsideLoginDisconnect { reason }).fields(), t),
    ensures
        read_fields(ClientsideLoginDisconnect::layout(), write_field(Field::Text(reason.deep_view())).0 + t, 0) == (Some((ClientsideLoginDisconnect { reason }).fields()), (write_field(Field::Text(reason.deep_view())).0).len()),
{
    lemma_clientside_login_disconnect_wire(reason);
    lemma_packet_roundtrip((ClientsideLoginDisconnect { reason }), t);
}

/// The login succeeded: the player's profile.
#[derive(Clone, Debug, PartialEq)]
pub struct ClientsideLoginSuccess {
    pub uuid: Uuid,
    pub username: String,
    pub properties: Vec<Property>,
}

impl Packet for ClientsideLoginSuccess {
    open spec fn layout() -> Seq<FieldKind> {
        seq![FieldKind::Uuid, FieldKind::Text, FieldKind::PropertyList]
    }

    open spec fn fields(&self) -> Seq<Field> {
        seq![Field::Uuid(self.uuid.deep_view()), Field::Text(self.username.deep_view()), Field::PropertyList(self.properties.deep_view())]
    }

    proof fn lemma_fields_fit(&self) {
    }

    fn read(buffer: &mut Cursor) -> (res: Option<Self>) {
        proof {
            reveal_with_fuel(read_fields, 4);
        }
        let uuid = match read_uuid_field(buffer) {
            Some(v) => v,
            None => return None,
        };
        let username = match read_text_field(buffer) {
            Some(v) => v,
            None => return None,
        };
        let properties = match read_property_list_field(buffer) {
            Some(v) => v,
            None => return None,
        };
        Some(ClientsideLoginSuccess { uuid, username, properties })
    }

    fn write(&self, buffer: &mut Vec<u8>) -> (res: Result<(), WriteError>) {
        let ghost fs = self.fields();
        assert(write_fields(fs, 0) == (Seq::<u8>::empty(), true));
        let r = write_uuid_field(self.uuid, buffer);
        assert(buffer@ =~= old(buffer)@ + write_fields(fs, 1).0);
        if r.is_err() {
            proof {
                lemma_write_fields_stopped(fs, 1, 3);
            }
            return r;
        }
        let r = write_text_field(&self.username, buffer);
        assert(buffer@ =~= old(buffer)@ + write_fields(fs, 2).0);
        if r.is_err() {
            proof {
                lemma_write_fields_stopped(fs, 2, 3);
            }
            return r;
        }
        let r = write_property_list_field(&self.properties, buffer);
        assert(buffer@ =~= old(buffer)@ + write_fields(fs, 3).0);
        if r.is_err() {
            proof {
                lemma_write_fields_stopped(fs, 3, 3);
            }
            return r;
        }
        Ok(())
    }
}

/// Writing a `ClientsideLoginSuccess` puts its fields on the wire one after another, in this
/// order: `uuid`, `username`, `properties`.
#[verifier::spinoff_prover]
pub proof fn lemma_clientside_login_success_wire(uuid: Uuid, username: String, properties: Vec<Property>)
    requires
        write_field(Field::Text(username.deep_view())).1,
        write_field(Field::PropertyList(properties.deep_view())).1,
    ensures
        write_fields((ClientsideLoginSuccess { uuid, username, properties }).fields(), 3) == (write_field(Field::Uuid(uuid.deep_view())).0 + write_field(Field::Text(username.deep_view())).0 + write_field(Field::PropertyList(properties.deep_view())).0, true),
{
    reveal_with_fuel(write_fields, 4);
    reveal(write_field);
}

/// Reading the fields of a `ClientsideLoginSuccess` written one after another, in the order
/// `uuid`, `username`, `properties`, gives back a packet with those values, whatever
/// follows (nothing, after trailing bytes), when no list is oversized.
#[verifier::spinoff_prover]
pub proof fn lemma_clientside_login_success_reads_back(uuid: Uuid, username: String, properties: Vec<Property>, t: Seq<u8>)
    requires
        write_field(Field::Text(username.deep_view())).1,
        write_field(Field::PropertyList(properties.deep_view())).1,
        fields_read_back((ClientsideLoginSuccess { uuid, username, properties }).fields()),
        trailing_bytes_last((ClientsideLoginSuccess { uuid, username, properties }).fields(), t),
    ensures
        read_fields(ClientsideLoginSuccess::layout(), write_field(Field::Uuid(uuid.deep_view())).0 + write_field(Field::Text(username.deep_view())).0 + write_field(Field::PropertyList(properties.deep_view())).0 + t, 0) == (Some((ClientsideLoginSuccess { uuid, username, properties }).fields()), (write_field(Field::Uuid(uuid.deep_view())).0 + write_field(Field::Text(username.deep_view())).0 + write_field(Field::PropertyList(properties.deep_view())).0).len()),
{
    lemma_clientside_login_success_wire(uuid, username, properties);
    lemma_packet_roundtrip((ClientsideLoginSuccess { uuid, username, properties }), t);
}

/// The server asks for encryption.
#[derive(Clone, Debug, PartialEq)]
pub struct ClientsideEncryptionRequest {
    pub server_id: String,
    pub public_key: Vec<u8>,
    pub verify_token: Vec<u8>,
    pub should_authenticate: bool,
}

impl Packet for ClientsideEncryptionRequest {
    open spec fn layout() -> Seq<FieldKind> {
        seq![FieldKind::Text, FieldKind::ByteArray, FieldKind::ByteArray, FieldKind::Bool]
    }

    open spec fn fields(&self) -> Seq<Field> {
        seq![Field::Text(self.server_id.deep_view()), Field::ByteArray(self.public_key.deep_view()), Field::ByteArray(self.verify_token.deep_view()), Field::Bool(self.should_authenticate)]
    }

    proof fn lemma_fields_fit(&self) {
    }

    fn read(buffer: &mut Cursor) -> (res: Option<Self>) {
        proof {
            reveal_with_fuel(read_fields, 5);
        }
        let server_id = match read_text_field(buffer) {
            Some(v) => v,
            None => return None,
        };
        let public_key = match read_byte_array_field(buffer) {
            Some(v) => v,
            None => return None,
        };
        let verify_token = match read_byte_array_field(buffer) {
            Some(v) => v,
            None => return None,
        };
        let should_authenticate = match read_bool_field(buffer) {
            Some(v) => v,
            None => return None,
        };
        Some(ClientsideEncryptionRequest { server_id, public_key, verify_token, should_authenticate })
    }

    fn write(&self, buffer: &mut Vec<u8>) -> (res: Result<(), WriteError>) {
        let ghost fs = self.fields();
        assert(write_fields(fs, 0) == (Seq::<u8>::empty(), true));
        let r = write_text_field(&self.server_id, buffer);
        assert(buffer@ =~= old(buffer)@ + write_fields(fs, 1).0);
        if r.is_err() {
            proof {
                lemma_write_fields_stopped(fs, 1, 4);
            }
            return r;
        }
        let r = write_byte_array_field(&self.public_key, buffer);
        assert(buffer@ =~= old(buffer)@ + write_fields(fs, 2).0);
        if r.is_err() {
            proof {
                lemma_write_fields_stopped(fs, 2, 4);
            }
            return r;
        }
        let r = write_byte_array_field(&self.verify_token, buffer);
        assert(buffer@ =~= old(buffer)@ + write_fields(fs, 3).0);
        if r.is_err() {
            proof {
                lemma_write_fields_stopped(fs, 3, 4);
            }
            return r;
        }
        let r = write_bool_field(self.should_authenticate, buffer);
        assert(buffer@ =~= old(buffer)@ + write_fields(fs, 4).0);
        if r.is_err() {
            proof {
                lemma_write_fields_stopped(fs, 4, 4);
            }
            return r;
        }
        Ok(())
    }
}

/// Writing a `ClientsideEncryptionRequest` puts its fields on the wire one after another, in this
/// order: `server_id`, `public_key`, `verify_token`, `should_authenticate`.
#[verifier::spinoff_prover]
pub proof fn lemma_clientside_encryption_request_wire(server_id: String, public_key: Vec<u8>, verify_token: Vec<u8>, should_authenticate: bool)
    requires
        write_field(Field::Text(server_id.deep_view())).1,
        write_field(Field::ByteArray(public_key.deep_view())).1,
        write_field(Field::ByteArray(verify_token.deep_view())).1,
    ensures
        write_fields((ClientsideEncryptionRequest { server_id, public_key, verify_token, should_authenticate }).fields(), 4) == (write_field(Field::Text(server_id.deep_view())).0 + write_field(Field::ByteArray(public_key.deep_view())).0 + write_field(Field::ByteArray(verify_token.deep_view())).0 + write_field(Field::Bool(should_authenticate)).0, true),
{
    reveal_with_fuel(write_fields, 5);
    reveal(write_field);
}

/// Reading the fields of a `ClientsideEncryptionRequest` written one after another, in the order
/// `server_id`, `public_key`, `verify_token`, `should_authenticate`, gives back a packet with those values, whatever
/// follows (nothing, after trailing bytes), when no list is oversized.
#[verifier::spinoff_prover]
pub proof fn lemma_clientside_encryption_request_reads_back(server_id: String, public_key: Vec<u8>, verify_token: Vec<u8>, should_authenticate: bool, t: Seq<u8>)
    requires
        write_field(Field::Text(server_id.deep_view())).1,
        write_field(Field::ByteArray(public_key.deep_view())).1,
        write_field(Field::ByteArray(verify_token.deep_view())).1,
        fields_read_back((ClientsideEncryptionRequest { server_id, public_key, verify_token, should_authenticate }).fields()),
        trailing_bytes_last((ClientsideEncryptionRequest { server_id, public_key, verify_token, should_authenticate }).fields(), t),
    ensures
        read_fields(ClientsideEncryptionRequest::layout(), write_field(Field::Text(server_id.deep_view())).0 + write_field(Field::ByteArray(public_key.deep_view())).0 + write_field(Field::ByteArray(verify_token.deep_view())).0 + write_field(Field::Bool(should_authenticate)).0 + t, 0) == (Some((ClientsideEncryptionRequest { server_id, public_key, verify_token, should_authenticate }).fields()), (write_field(Field::Text(server_id.deep_view())).0 + write_field(Field::ByteArray(public_key.deep_view())).0 + write_field(Field::ByteArray(verify_token.deep_view())).0 + write_field(Field::Bool(should_authenticate)).0).len()),
{
    lemma_clientside_encryption_request_wire(server_id, public_key, verify_token, should_authenticate);
    lemma_packet_roundtrip((ClientsideEncryptionRequest { server_id, public_key, verify_token, should_authenticate }), t);
}

/// The server sets the compression threshold.
#[derive(Clone, Debug, PartialEq)]
pub struct ClientsideSetCompression {
    pub compression_threshold: i32,
}

impl Packet for ClientsideSetCompression {
    open spec fn layout() -> Seq<FieldKind> {
        seq![FieldKind::VarInt]
    }

    open spec fn fields(&self) -> Seq<Field> {
        seq![Field::VarInt(self.compression_threshold)]
    }

    proof fn lemma_fields_fit(&self) {
    }

    fn read(buffer: &mut Cursor) -> (res: Option<Self>) {
        proof {
            reveal_with_fuel(read_fields, 2);
        }
        let compression_threshold = match read_varint_field(buffer) {
            Some(v) => v,
            None => return None,
        };
        Some(ClientsideSetCompression { compression_threshold })
    }

    fn write(&self, buffer: &mut Vec<u8>) -> (res: Result<(), WriteError>) {
        let ghost fs = self.fields();
        assert(write_fields(fs, 0) == (Seq::<u8>::empty(), true));
        let r = write_varint_field(self.compression_threshold, buffer);
        assert(buffer@ =~= old(buffer)@ + write_fields(fs, 1).0);
        if r.is_err() {
            proof {
                lemma_write_fields_stopped(fs, 1, 1);
            }
            return r;
        }
        Ok(())
    }
}

/// Writing a `ClientsideSetCompression` puts its fields on the wire one after another, in this
/// order: `compression_threshold`.
#[verifier::spinoff_prover]
pub proof fn lemma_clientside_set_compression_wire(compression_threshold: i32)
    ensures
        write_fields((ClientsideSetCompression { compression_threshold }).fields(), 1) == (write_field(Field::VarInt(compression_threshold)).0, true),
{
    reveal_with_fuel(write_fields, 2);
    reveal(write_field);
}

/// Reading the fields of a `ClientsideSetCompression` written one after another, in the order
/// `compression_threshold`, gives back a packet with those values, whatever
/// follows (nothing, after trailing bytes), when no list is oversized.
#[verifier::spinoff_prover]
pub proof fn lemma_clientside_set_compression_reads_back(compression_threshold: i32, t: Seq<u8>)
    requires
        fields_read_back((ClientsideSetCompression { compression_threshold }).fields()),
        trailing_bytes_last((ClientsideSetCompression { compression_threshold }).fields(), t),
    ensures
        read_fields(ClientsideSetCompression::layout(), write_field(Field::VarInt(compression_threshold)).0 + t, 0) == (Some((ClientsideSetCompression { compression_threshold }).fields()), (write_field(Field::VarInt(compression_threshold)).0).len()),
{
    lemma_clientside_set_compression_wire(compression_threshold);
    lemma_packet_roundtrip((ClientsideSetCompression { compression_threshold }), t);
}

/// A plugin request during login.
#[derive(Clone, Debug, PartialEq)]
pub struct ClientsidePluginRequest {
    pub message_id: i32,
    pub channel: String,
    pub data: Vec<u8>,
}

impl Packet for ClientsidePluginRequest {
    open spec fn layout() -> Seq<FieldKind> {
        seq![FieldKind::VarInt, FieldKind::Text, FieldKind::ByteArray]
    }

    open spec fn fields(&self) -> Seq<Field> {
        seq![Field::VarInt(self.message_id), Field::Text(self.channel.deep_view()), Field::ByteArray(self.data.deep_view())]
    }

    proof fn lemma_fields_fit(&self) {
    }

    fn read(buffer: &mut Cursor) -> (res: Option<Self>) {
        proof {
            reveal_with_fuel(read_fields, 4);
        }
        let message_id = match read_varint_field(buffer) {
            Some(v) => v,
            None => return None,
        };
        let channel = match read_text_field(buffer) {
            Some(v) => v,
            None => return None,
        };
        let data = match read_byte_array_field(buffer) {
            Some(v) => v,
            None => return None,
        };
        Some(ClientsidePluginRequest { message_id, channel, data })
    }

    fn write(&self, buffer: &mut Vec<u8>) -> (res: Result<(), WriteError>) {
        let ghost fs = self.fields();
        assert(write_fields(fs, 0) == (Seq::<u8>::empty(), true));
        let r = write_varint_field(self.message_id, buffer);
        assert(buffer@ =~= old(buffer)@ + write_fields(fs, 1).0);
        if r.is_err() {
            proof {
                lemma_write_fields_stopped(fs, 1, 3);
            }
            return r;
        }
        let r = write_text_field(&self.channel, buffer);
        assert(buffer@ =~= old(buffer)@ + write_fields(fs, 2).0);
        if r.is_err() {
            proof {
                lemma_write_fields_stopped(fs, 2, 3);
            }
            return r;
        }
        let r = write_byte_array_field(&self.data, buffer);
        assert(buffer@ =~= old(buffer)@ + write_fields(fs, 3).0);
        if r.is_err() {
            proof {
                lemma_write_fields_stopped(fs, 3, 3);
            }
            return r;
        }
        Ok(())
    }
}

/// Writing a `ClientsidePluginRequest` puts its fields on the wire one after another, in this
/// order: `message_id`, `channel`, `data`.
#[verifier::spinoff_prover]
pub proof fn lemma_clientside_plugin_request_wire(message_id: i32, channel: String, data: Vec<u8>)
    requires
        write_field(Field::Text(channel.deep_view())).1,
        write_field(Field::ByteArray(data.deep_view())).1,
    ensures
        write_fields((ClientsidePluginRequest { message_id, channel, data }).fields(), 3) == (write_field(Field::VarInt(message_id)).0 + write_field(Field::Text(channel.deep_view())).0 + write_field(Field::ByteArray(data.deep_view())).0, true),
{
    reveal_with_fuel(write_fields, 4);
    reveal(write_field);
}

/// Reading the fields of a `ClientsidePluginRequest` written one after another, in the order
/// `message_id`, `channel`, `data`, gives back a packet with those values, whatever
/// follows (nothing, after trailing bytes), when no list is oversized.
#[verifier::spinoff_prover]
pub proof fn lemma_clientside_plugin_request_reads_back(message_id: i32, channel: String, data: Vec<u8>, t: Seq<u8>)
    requires
        write_field(Field::Text(channel.deep_view())).1,
        write_field(Field::ByteArray(data.deep_view())).1,
        fields_read_back((ClientsidePluginRequest { message_id, channel, data }).fields()),
        trailing_bytes_last((ClientsidePluginRequest { message_id, channel, data }).fields(), t),
    ensures
        read_fields(ClientsidePluginRequest::layout(), write_field(Field::VarInt(message_id)).0 + write_field(Field::Text(channel.deep_view())).0 + write_field(Field::ByteArray(data.deep_view())).0 + t, 0) == (Some((ClientsidePluginRequest { message_id, channel, data }).fields()), (write_field(Field::VarInt(message_id)).0 + write_field(Field::Text(channel.deep_view())).0 + write_field(Field::ByteArray(data.deep_view())).0).len()),
{
    lemma_clientside_plugin_request_wire(message_id, channel, data);
    lemma_packet_roundtrip((ClientsidePluginRequest { message_id, channel, data }), t);
}

/// The server asks for a stored cookie.
#[derive(Clone, Debug, PartialEq)]
pub struct ClientsideCookieRequest {
    pub key: String,
}

impl Packet for ClientsideCookieRequest {
    open spec fn layout() -> Seq<FieldKind> {
        seq![FieldKind::Text]
    }

    open spec fn fields(&self) -> Seq<Field> {
        seq![Field::Text(self.key.deep_view())]
    }

    proof fn lemma_fields_fit(&self) {
    }

    fn read(buffer: &mut Cursor) -> (res: Option<Self>) {
        proof {
            reveal_with_fuel(read_fields, 2);
        }
        let key = match read_text_field(buffer) {
            Some(v) => v,
            None => return None,
        };
        Some(ClientsideCookieRequest { key })
    }

    fn write(&self, buffer: &mut Vec<u8>) -> (res: Result<(), WriteError>) {
        let ghost fs = self.fields();
        assert(write_fields(fs, 0) == (Seq::<u8>::empty(), true));
        let r = write_text_field(&self.key, buffer);
        assert(buffer@ =~= old(buffer)@ + write_fields(fs, 1).0);
        if r.is_err() {
            proof {
                lemma_write_fields_stopped(fs, 1, 1);
            }
            return r;
        }
        Ok(())
    }
}

/// Writing a `ClientsideCookieRequest` puts its fields on the wire one after another, in this
/// order: `key`.
#[verifier::spinoff_prover]
pub proof fn lemma_clientside_cookie_request_wire(key: String)
    requires
        write_field(Field::Text(key.deep_view())).1,
    ensures
        write_fields((ClientsideCookieRequest { key }).fields(), 1) == (write_field(Field::Text(key.deep_view())).0, true),
{
    reveal_with_fuel(write_fields, 2);
    reveal(write_field);
}

/// Reading the fields of a `ClientsideCookieRequest` written one after another, in the order
/// `key`, gives back a packet with those values, whatever
/// follows (nothing, after trailing bytes), when no list is oversized.
#[verifier::spinoff_prover]
pub proof fn lemma_clientside_cookie_request_reads_back(key: String, t: Seq<u8>)
    requires
        write_field(Field::Text(key.deep_view())).1,
        fields_read_back((ClientsideCookieRequest { key }).fields()),
        trailing_bytes_last((ClientsideCookieRequest { key }).fields(), t),
    ensures
        read_fields(ClientsideCookieRequest::layout(), write_field(Field::Text(key.deep_view())).0 + t, 0) == (Some((ClientsideCookieRequest { key }).fields()), (write_field(Field::Text(key.deep_view())).0).len()),
{
    lemma_clientside_cookie_request_wire(key);
    lemma_packet_roundtrip((ClientsideCookieRequest { key }), t);
}

/// Starts the login.
#[derive(Clone, Debug, PartialEq)]
pub struct ServersideLoginStart {
    pub username: String,
    pub uuid: Uuid,
}

impl Packet for ServersideLoginStart {
    open spec fn layout() -> Seq<FieldKind> {
        seq![FieldKind::Text, FieldKind::Uuid]
    }

    open spec fn fields(&self) -> Seq<Field> {
        seq![Field::Text(self.username.deep_view()), Field::Uuid(self.uuid.deep_view())]
    }

    proof fn lemma_fields_fit(&self) {
    }

    fn read(buffer: &mut Cursor) -> (res: Option<Self>) {
        proof {
            reveal_with_fuel(read_fields, 3);
        }
        let username = match read_text_field(buffer) {
            Some(v) => v,
            None => return None,
        };
        let uuid = match read_uuid_field(buffer) {
            Some(v) => v,
            None => return None,
        };
        Some(ServersideLoginStart { username, uuid })
    }

    fn write(&self, buffer: &mut Vec<u8>) -> (res: Result<(), WriteError>) {
        let ghost fs = self.fields();
        assert(write_fields(fs, 0) == (Seq::<u8>::empty(), true));
        let r = write_text_field(&self.username, buffer);
        assert(buffer@ =~= old(buffer)@ + write_fields(fs, 1).0);
        if r.is_err() {
            proof {
                lemma_write_fields_stopped(fs, 1, 2);
            }
            return r;
        }
        let r = write_uuid_field(self.uuid, buffer);
        assert(buffer@ =~= old(buffer)@ + write_fields(fs, 2).0);
        if r.is_err() {
            proof {
                lemma_write_fields_stopped(fs, 2, 2);
            }
            return r;
        }
        Ok(())
    }
}

/// Writing a `ServersideLoginStart` puts its fields on the wire one after another, in this
/// order: `username`, `uuid`.
#[verifier::spinoff_prover]
pub proof fn lemma_serverside_login_start_wire(username: String, uuid: Uuid)
    requires
        write_field(Field::Text(username.deep_view())).1,
    ensures
        write_fields((ServersideLoginStart { username, uuid }).fields(), 2) == (write_field(Field::Text(username.deep_view())).0 + write_field(Field::Uuid(uuid.deep_view())).0, true),
{
    reveal_with_fuel(write_fields, 3);
    reveal(write_field);
}

/// Reading the fields of a `ServersideLoginStart` written one after another, in the order
/// `username`, `uuid`, gives back a packet with those values, whatever
/// follows (nothing, after trailing bytes), when no list is oversized.
#[verifier::spinoff_prover]
pub proof fn lemma_serverside_login_start_reads_back(username: String, uuid: Uuid, t: Seq<u8>)
    requires
        write_field(Field::Text(username.deep_view())).1,
        fields_read_back((ServersideLoginStart { username, uuid }).fields()),
        trailing_bytes_last((ServersideLoginStart { username, uuid }).fields(), t),
    ensures
        read_fields(ServersideLoginStart::layout(), write_field(Field::Text(username.deep_view())).0 + write_field(Field::Uuid(uuid.deep_view())).0 + t, 0) == (Some((ServersideLoginStart { username, uuid }).fields()), (write_field(Field::Text(username.deep_view())).0 + write_field(Field::Uuid(uuid.deep_view())).0).len()),
{
    lemma_serverside_login_start_wire(username, uuid);
    lemma_packet_roundtrip((ServersideLoginStart { username, uuid }), t);
}

/// The encrypted shared secret and verify token.
#[derive(Clone, Debug, PartialEq)]
pub struct ServersideEncryptionResponse {
    pub shared_secret: Vec<u8>,
    pub verify_token: Vec<u8>,
}

impl Packet for ServersideEncryptionResponse {
    open spec fn layout() -> Seq<FieldKind> {
        seq![FieldKind::ByteArray, FieldKind::ByteArray]
    }

    open spec fn fields(&self) -> Seq<Field> {
        seq![Field::ByteArray(self.shared_secret.deep_view()), Field::ByteArray(self.verify_token.deep_view())]
    }

    proof fn lemma_fields_fit(&self) {
    }

    fn read(buffer: &mut Cursor) -> (res: Option<Self>) {
        proof {
            reveal_with_fuel(read_fields, 3);
        }
        let shared_secret = match read_byte_array_field(buffer) {
            Some(v) => v,
            None => return None,
        };
        let verify_token = match read_byte_array_field(buffer) {
            Some(v) => v,
            None => return None,
        };
        Some(ServersideEncryptionResponse { shared_secret, verify_token })
    }

    fn write(&self, buffer: &mut Vec<u8>) -> (res: Result<(), WriteError>) {
        let ghost fs = self.fields();
        assert(write_fields(fs, 0) == (Seq::<u8>::empty(), true));
        let r = write_byte_array_field(&self.shared_secret, buffer);
        assert(buffer@ =~= old(buffer)@ + write_fields(fs, 1).0);
        if r.is_err() {
            proof {
                lemma_write_fields_stopped(fs, 1, 2);
            }
            return r;
        }
        let r = write_byte_array_field(&self.verify_token, buffer);
        assert(buffer@ =~= old(buffer)@ + write_fields(fs, 2).0);
        if r.is_err() {
            proof {
                lemma_write_fields_stopped(fs, 2, 2);
            }
            return r;
        }
        Ok(())
    }
}

/// Writing a `ServersideEncryptionResponse` puts its fields on the wire one after another, in this
/// order: `shared_secret`, `verify_token`.
#[verifier::spinoff_prover]
pub proof fn lemma_serverside_encryption_response_wire(shared_secret: Vec<u8>, verify_token: Vec<u8>)
    requires
        write_field(Field::ByteArray(shared_secret.deep_view())).1,
        write_field(Field::ByteArray(verify_token.deep_view())).1,
    ensures
        write_fields((ServersideEncryptionResponse { shared_secret, verify_token }).fields(), 2) == (write_field(Field::ByteArray(shared_secret.deep_view())).0 + write_field(Field::ByteArray(verify_token.deep_view())).0, true),
{
    reveal_with_fuel(write_fields, 3);
    reveal(write_field);
}

/// Reading the fields of a `ServersideEncryptionResponse` written one after another, in the order
/// `shared_secret`, `verify_token`, gives back a packet with those values, whatever
/// follows (nothing, after trailing bytes), when no list is oversized.
#[verifier::spinoff_prover]
pub proof fn lemma_serverside_encryption_response_reads_back(shared_secret: Vec<u8>, verify_token: Vec<u8>, t: Seq<u8>)
    requires
        write_field(Field::ByteArray(shared_secret.deep_view())).1,
        write_field(Field::ByteArray(verify_token.deep_view())).1,
        fields_read_back((ServersideEncryptionResponse { shared_secret, verify_token }).fields()),
        trailing_bytes_last((ServersideEncryptionResponse { shared_secret, verify_token }).fields(), t),
    ensures
        read_fields(ServersideEncryptionResponse::layout(), write_field(Field::ByteArray(shared_secret.deep_view())).0 + write_field(Field::ByteArray(verify_token.deep_view())).0 + t, 0) == (Some((ServersideEncryptionResponse { shared_secret, verify_token }).fields()), (write_field(Field::ByteArray(shared_secret.deep_view())).0 + write_field(Field::ByteArray(verify_token.deep_view())).0).len()),
{
    lemma_serverside_encryption_response_wire(shared_secret, verify_token);
    lemma_packet_roundtrip((ServersideEncryptionResponse { shared_secret, verify_token }), t);
}

/// Answer to a plugin request.
#[derive(Clone, Debug, PartialEq)]
pub struct ServersidePluginResponse {
    pub message_id: i32,
    pub data: Option<Vec<u8>>,
}

impl Packet for ServersidePluginResponse {
    open spec fn layout() -> Seq<FieldKind> {
        seq![FieldKind::VarInt, FieldKind::OptionalByteArray]
    }

    open spec fn fields(&self) -> Seq<Field> {
        seq![Field::VarInt(self.message_id), Field::OptionalByteArray(self.data.deep_view())]
    }

    proof fn lemma_fields_fit(&self) {
    }

    fn read(buffer: &mut Cursor) -> (res: Option<Self>) {
        proof {
            reveal_with_fuel(read_fields, 3);
        }
        let message_id = match read_varint_field(buffer) {
            Some(v) => v,
            None => return None,
        };
        let data = match read_optional_byte_array_field(buffer) {
            Some(v) => v,
            None => return None,
        };
        Some(ServersidePluginResponse { message_id, data })
    }

    fn write(&self, buffer: &mut Vec<u8>) -> (res: Result<(), WriteError>) {
        let ghost fs = self.fields();
        assert(write_fields(fs, 0) == (Seq::<u8>::empty(), true));
        let r = write_varint_field(self.message_id, buffer);
        assert(buffer@ =~= old(buffer)@ + write_fields(fs, 1).0);
        if r.is_err() {
            proof {
                lemma_write_fields_stopped(fs, 1, 2);
            }
            return r;
        }
        let r = write_optional_byte_array_field(&self.data, buffer);
        assert(buffer@ =~= old(buffer)@ + write_fields(fs, 2).0);
        if r.is_err() {
            proof {
                lemma_write_fields_stopped(fs, 2, 2);
            }
            return r;
        }
        Ok(())
    }
}

/// Writing a `ServersidePluginResponse` puts its fields on the wire one after another, in this
/// order: `message_id`, `data`.
#[verifier::spinoff_prover]
pub proof fn lemma_serverside_plugin_response_wire(message_id: i32, data: Option<Vec<u8>>)
    requires
        write_field(Field::OptionalByteArray(data.deep_view())).1,
    ensures
        write_fields((ServersidePluginResponse { message_id, data }).fields(), 2) == (write_field(Field::VarInt(message_id)).0 + write_field(Field::OptionalByteArray(data.deep_view())).0, true),
{
    reveal_with_fuel(write_fields, 3);
    reveal(write_field);
}

/// Reading the fields of a `ServersidePluginResponse` written one after another, in the order
/// `message_id`, `data`, gives back a packet with those values, whatever
/// follows (nothing, after trailing bytes), when no list is oversized.
#[verifier::spinoff_prover]
pub proof fn lemma_serverside_plugin_response_reads_back(message_id: i32, data: Option<Vec<u8>>, t: Seq<u8>)
    requires
        write_field(Field::OptionalByteArray(data.deep_view())).1,
        fields_read_back((ServersidePluginResponse { message_id, data }).fields()),
        trailing_bytes_last((ServersidePluginResponse { message_id, data }).fields(), t),
    ensures
        read_fields(ServersidePluginResponse::layout(), write_field(Field::VarInt(message_id)).0 + write_field(Field::OptionalByteArray(data.deep_view())).0 + t, 0) == (Some((ServersidePluginResponse { message_id, data }).fields()), (write_field(Field::VarInt(message_id)).0 + write_field(Field::OptionalByteArray(data.deep_view())).0).len()),
{
    lemma_serverside_plugin_response_wire(message_id, data);
    lemma_packet_roundtrip((ServersidePluginResponse { message_id, data }), t);
}

/// Confirms a successful login.
#[derive(Clone, Copy, Debug, PartialEq, Eq)]
pub struct ServersideLoginAcknowledged;

impl Packet for ServersideLoginAcknowledged {
    open spec fn layout() -> Seq<FieldKind> {
        Seq::empty()
    }

    open spec fn fields(&self) -> Seq<Field> {
        Seq::empty()
    }

    proof fn lemma_fields_fit(&self) {
    }

    fn read(buffer: &mut Cursor) -> (res: Option<Self>) {
        proof {
            reveal_with_fuel(read_fields, 1);
        }
        Some(ServersideLoginAcknowledged)
    }

    fn write(&self, buffer: &mut Vec<u8>) -> (res: Result<(), WriteError>) {
        let ghost fs = self.fields();
        assert(write_fields(fs, 0) == (Seq::<u8>::empty(), true));
        assert(buffer@ =~= old(buffer)@ + Seq::<u8>::empty());
        Ok(())
    }
}


/// Answer to a cookie request.
#[derive(Clone, Debug, PartialEq)]
pub struct ServersideCookieResponse {
    pub key: String,
    pub payload: Option<Vec<u8>>,
}

impl Packet for ServersideCookieResponse {
    open spec fn layout() -> Seq<FieldKind> {
        seq![FieldKind::Text, FieldKind::OptionalByteArray]
    }

    open spec fn fields(&self) -> Seq<Field> {
        seq![Field::Text(self.key.deep_view()), Field::OptionalByteArray(self.payload.deep_view())]
    }

    proof fn lemma_fields_fit(&self) {
    }

    fn read(buffer: &mut Cursor) -> (res: Option<Self>) {
        proof {
            reveal_with_fuel(read_fields, 3);
        }
        let key = match read_text_field(buffer) {
            Some(v) => v,
            None => return None,
        };
        let payload = match read_optional_byte_array_field(buffer) {
            Some(v) => v,
            None => return None,
        };
        Some(ServersideCookieResponse { key, payload })
    }

    fn write(&self, buffer: &mut Vec<u8>) -> (res: Result<(), WriteError>) {
        let ghost fs = self.fields();
        assert(write_fields(fs, 0) == (Seq::<u8>::empty(), true));
        let r = write_text_field(&self.key, buffer);
        assert(buffer@ =~= old(buffer)@ + write_fields(fs, 1).0);
        if r.is_err() {
            proof {
                lemma_write_fields_stopped(fs, 1, 2);
            }
            return r;
        }
        let r = write_optional_byte_array_field(&self.payload, buffer);
        assert(buffer@ =~= old(buffer)@ + write_fields(fs, 2).0);
        if r.is_err() {
            proof {
                lemma_write_fields_stopped(fs, 2, 2);
            }
            return r;
        }
        Ok(())
    }
}

/// Writing a `ServersideCookieResponse` puts its fields on the wire one after another, in this
/// order: `key`, `payload`.
#[verifier::spinoff_prover]
pub proof fn lemma_serverside_cookie_response_wire(key: String, payload: Option<Vec<u8>>)
    requires
        write_field(Field::Text(key.deep_view())).1,
        write_field(Field::OptionalByteArray(payload.deep_view())).1,
    ensures
        write_fields((ServersideCookieResponse { key, payload }).fields(), 2) == (write_field(Field::Text(key.deep_view())).0 + write_field(Field::OptionalByteArray(payload.deep_view())).0, true),
{
    reveal_with_fuel(write_fields, 3);
    reveal(write_field);
}

/// Reading the fields of a `ServersideCookieResponse` written one after another, in the order
/// `key`, `payload`, gives back a packet with those values, whatever
/// follows (nothing, after trailing bytes), when no list is oversized.
#[verifier::spinoff_prover]
pub proof fn lemma_serverside_cookie_response_reads_back(key: String, payload: Option<Vec<u8>>, t: Seq<u8>)
    requires
        write_field(Field::Text(key.deep_view())).1,
        write_field(Field::OptionalByteArray(payload.deep_view())).1,
        fields_read_back((ServersideCookieResponse { key, payload }).fields()),
        trailing_bytes_last((ServersideCookieResponse { key, payload }).fields(), t),
    ensures
        read_fields(ServersideCookieResponse::layout(), write_field(Field::Text(key.deep_view())).0 + write_field(Field::OptionalByteArray(payload.deep_view())).0 + t, 0) == (Some((ServersideCookieResponse { key, payload }).fields()), (write_field(Field::Text(key.deep_view())).0 + write_field(Field::OptionalByteArray(payload.deep_view())).0).len()),
{
    lemma_serverside_cookie_response_wire(key, payload);
    lemma_packet_roundtrip((ServersideCookieResponse { key, payload }), t);
}
/// The packets the server sends in the login state.
#[derive(Clone, Debug, PartialEq)]
pub enum ClientsideLoginPacket {
    Disconnect(ClientsideLoginDisconnect),
    EncryptionRequest(ClientsideEncryptionRequest),
    LoginSuccess(ClientsideLoginSuccess),
    Compression(ClientsideSetCompression),
    PluginRequest(ClientsidePluginRequest),
    CookieRequest(ClientsideCookieRequest),
}

impl ProtocolPacket for ClientsideLoginPacket {
    open spec fn spec_id(&self) -> u32 {
        match self {
            ClientsideLoginPacket::Disconnect(_) => 0x00,
            ClientsideLoginPacket::EncryptionRequest(_) => 0x01,
            ClientsideLoginPacket::LoginSuccess(_) => 0x02,
            ClientsideLoginPacket::Compression(_) => 0x03,
            ClientsideLoginPacket::PluginRequest(_) => 0x04,
            ClientsideLoginPacket::CookieRequest(_) => 0x05,
        }
    }

    open spec fn spec_fields(&self) -> Seq<Field> {
        match self {
            ClientsideLoginPacket::Disconnect(p) => p.fields(),
            ClientsideLoginPacket::EncryptionRequest(p) => p.fields(),
            ClientsideLoginPacket::LoginSuccess(p) => p.fields(),
            ClientsideLoginPacket::Compression(p) => p.fields(),
            ClientsideLoginPacket::PluginRequest(p) => p.fields(),
            ClientsideLoginPacket::CookieRequest(p) => p.fields(),
        }
    }

    open spec fn spec_layout(id: u32) -> Option<Seq<FieldKind>> {
        if id == 0x00 {
            Some(ClientsideLoginDisconnect::layout())
        } else if id == 0x01 {
            Some(ClientsideEncryptionRequest::layout())
        } else if id == 0x02 {
            Some(ClientsideLoginSuccess::layout())
        } else if id == 0x03 {
            Some(ClientsideSetCompression::layout())
        } else if id == 0x04 {
            Some(ClientsidePluginRequest::layout())
        } else if id == 0x05 {
            Some(ClientsideCookieRequest::layout())
        } else {
            None
        }
    }

    proof fn lemma_layout(&self) {
        match self {
            ClientsideLoginPacket::Disconnect(p) => p.lemma_fields_fit(),
            ClientsideLoginPacket::EncryptionRequest(p) => p.lemma_fields_fit(),
            ClientsideLoginPacket::LoginSuccess(p) => p.lemma_fields_fit(),
            ClientsideLoginPacket::Compression(p) => p.lemma_fields_fit(),
            ClientsideLoginPacket::PluginRequest(p) => p.lemma_fields_fit(),
            ClientsideLoginPacket::CookieRequest(p) => p.lemma_fields_fit(),
        }
    }

    fn id(&self) -> (r: u32)
        ensures
            *self is Disconnect ==> r == 0x00,
            *self is EncryptionRequest ==> r == 0x01,
            *self is LoginSuccess ==> r == 0x02,
            *self is Compression ==> r == 0x03,
            *self is PluginRequest ==> r == 0x04,
            *self is CookieRequest ==> r == 0x05,
    {
        match self {
            ClientsideLoginPacket::Disconnect(_) => 0x00,
            ClientsideLoginPacket::EncryptionRequest(_) => 0x01,
            ClientsideLoginPacket::LoginSuccess(_) => 0x02,
            ClientsideLoginPacket::Compression(_) => 0x03,
            ClientsideLoginPacket::PluginRequest(_) => 0x04,
            ClientsideLoginPacket::CookieRequest(_) => 0x05,
        }
    }

    fn read(id: u32, buffer: &mut Cursor) -> (res: Option<Self>)
        ensures
            id == 0x00 ==> match read_fields(ClientsideLoginDisconnect::layout(), old(buffer).rest(), 0).0 {
                Some(fs) => res matches Some(ClientsideLoginPacket::Disconnect(q)) && q.fields() == fs,
                None => res is None,
            },
            id == 0x01 ==> match read_fields(ClientsideEncryptionRequest::layout(), old(buffer).rest(), 0).0 {
                Some(fs) => res matches Some(ClientsideLoginPacket::EncryptionRequest(q)) && q.fields() == fs,
                None => res is None,
            },
            id == 0x02 ==> match read_fields(ClientsideLoginSuccess::layout(), old(buffer).rest(), 0).0 {
                Some(fs) => res matches Some(ClientsideLoginPacket::LoginSuccess(q)) && q.fields() == fs,
                None => res is None,
            },
            id == 0x03 ==> match read_fields(ClientsideSetCompression::layout(), old(buffer).rest(), 0).0 {
                Some(fs) => res matches Some(ClientsideLoginPacket::Compression(q)) && q.fields() == fs,
                None => res is None,
            },
            id == 0x04 ==> match read_fields(ClientsidePluginRequest::layout(), old(buffer).rest(), 0).0 {
                Some(fs) => res matches Some(ClientsideLoginPacket::PluginRequest(q)) && q.fields() == fs,
                None => res is None,
            },
            id == 0x05 ==> match read_fields(ClientsideCookieRequest::layout(), old(buffer).rest(), 0).0 {
                Some(fs) => res matches Some(ClientsideLoginPacket::CookieRequest(q)) && q.fields() == fs,
                None => res is None,
            },
            !(id == 0x00 || id == 0x01 || id == 0x02 || id == 0x03 || id == 0x04 || id == 0x05) ==> res is None,
    {
        match id {
            0x00 => match ClientsideLoginDisconnect::read(buffer) {
                Some(p) => Some(ClientsideLoginPacket::Disconnect(p)),
                None => None,
            },
            0x01 => match ClientsideEncryptionRequest::read(buffer) {
                Some(p) => Some(ClientsideLoginPacket::EncryptionRequest(p)),
                None => None,
            },
            0x02 => match ClientsideLoginSuccess::read(buffer) {
                Some(p) => Some(ClientsideLoginPacket::LoginSuccess(p)),
                None => None,
            },
            0x03 => match ClientsideSetCompression::read(buffer) {
                Some(p) => Some(ClientsideLoginPacket::Compression(p)),
                None => None,
            },
            0x04 => match ClientsidePluginRequest::read(buffer) {
                Some(p) => Some(ClientsideLoginPacket::PluginRequest(p)),
                None => None,
            },
            0x05 => match ClientsideCookieRequest::read(buffer) {
                Some(p) => Some(ClientsideLoginPacket::CookieRequest(p)),
                None => None,
            },
            _ => None,
        }
    }

    fn write(&self, buffer: &mut Vec<u8>) -> (res: Result<(), WriteError>) {
        match self {
            ClientsideLoginPacket::Disconnect(p) => p.write(buffer),
            ClientsideLoginPacket::EncryptionRequest(p) => p.write(buffer),
            ClientsideLoginPacket::LoginSuccess(p) => p.write(buffer),
            ClientsideLoginPacket::Compression(p) => p.write(buffer),
            ClientsideLoginPacket::PluginRequest(p) => p.write(buffer),
            ClientsideLoginPacket::CookieRequest(p) => p.write(buffer),
        }
    }
}

/// The id of each packet of the family, and the layout each id is read with: Disconnect 0x00, EncryptionRequest 0x01, LoginSuccess 0x02, Compression 0x03, PluginRequest 0x04, CookieRequest 0x05.
pub proof fn lemma_clientside_login_packet_ids(p: ClientsideLoginPacket)
    ensures
        p is Disconnect ==> p.spec_id() == 0x00,
        p is EncryptionRequest ==> p.spec_id() == 0x01,
        p is LoginSuccess ==> p.spec_id() == 0x02,
        p is Compression ==> p.spec_id() == 0x03,
        p is PluginRequest ==> p.spec_id() == 0x04,
        p is CookieRequest ==> p.spec_id() == 0x05,
        ClientsideLoginPacket::spec_layout(0x00) == Some(ClientsideLoginDisconnect::layout()),
        ClientsideLoginPacket::spec_layout(0x01) == Some(ClientsideEncryptionRequest::layout()),
        ClientsideLoginPacket::spec_layout(0x02) == Some(ClientsideLoginSuccess::layout()),
        ClientsideLoginPacket::spec_layout(0x03) == Some(ClientsideSetCompression::layout()),
        ClientsideLoginPacket::spec_layout(0x04) == Some(ClientsidePluginRequest::layout()),
        ClientsideLoginPacket::spec_layout(0x05) == Some(ClientsideCookieRequest::layout()),
{
}

impl IntoPacket<ClientsideLoginPacket> for ClientsideLoginPacket {
    fn into_packet(self) -> (res: ClientsideLoginPacket)
        ensures
            res == self,
    {
        self
    }
}

impl IntoPacket<ClientsideLoginPacket> for ClientsideLoginDisconnect {
    fn into_packet(self) -> (res: ClientsideLoginPacket)
        ensures
            res == ClientsideLoginPacket::Disconnect(self),
    {
        ClientsideLoginPacket::Disconnect(self)
    }
}

impl IntoPacket<ClientsideLoginPacket> for ClientsideEncryptionRequest {
    fn into_packet(self) -> (res: ClientsideLoginPacket)
        ensures
            res == ClientsideLoginPacket::EncryptionRequest(self),
    {
        ClientsideLoginPacket::EncryptionRequest(self)
    }
}

impl IntoPacket<ClientsideLoginPacket> for ClientsideLoginSuccess {
    fn into_packet(self) -> (res: ClientsideLoginPacket)
        ensures
            res == ClientsideLoginPacket::LoginSuccess(self),
    {
        ClientsideLoginPacket::LoginSuccess(self)
    }
}

impl IntoPacket<ClientsideLoginPacket> for ClientsideSetCompression {
    fn into_packet(self) -> (res: ClientsideLoginPacket)
        ensures
            res == ClientsideLoginPacket::Compression(self),
    {
        ClientsideLoginPacket::Compression(self)
    }
}

impl IntoPacket<ClientsideLoginPacket> for ClientsidePluginRequest {
    fn into_packet(self) -> (res: ClientsideLoginPacket)
        ensures
            res == ClientsideLoginPacket::PluginRequest(self),
    {
        ClientsideLoginPacket::PluginRequest(self)
    }
}

impl IntoPacket<ClientsideLoginPacket> for ClientsideCookieRequest {
    fn into_packet(self) -> (res: ClientsideLoginPacket)
        ensures
            res == ClientsideLoginPacket::CookieRequest(self),
    {
        ClientsideLoginPacket::CookieRequest(self)
    }
}
/// The packets the client sends in the login state.
#[derive(Clone, Debug, PartialEq)]
pub enum ServersideLoginPacket {
    LoginStart(ServersideLoginStart),
    EncryptionResponse(ServersideEncryptionResponse),
    PluginResponse(ServersidePluginResponse),
    LoginAcknowledged(ServersideLoginAcknowledged),
    CookieResponse(ServersideCookieResponse),
}

impl ProtocolPacket for ServersideLoginPacket {
    open spec fn spec_id(&self) -> u32 {
        match self {
            ServersideLoginPacket::LoginStart(_) => 0x00,
            ServersideLoginPacket::EncryptionResponse(_) => 0x01,
            ServersideLoginPacket::PluginResponse(_) => 0x02,
            ServersideLoginPacket::LoginAcknowledged(_) => 0x03,
            ServersideLoginPacket::CookieResponse(_) => 0x04,
        }
    }

    open spec fn spec_fields(&self) -> Seq<Field> {
        match self {
            ServersideLoginPacket::LoginStart(p) => p.fields(),
            ServersideLoginPacket::EncryptionResponse(p) => p.fields(),
            ServersideLoginPacket::PluginResponse(p) => p.fields(),
            ServersideLoginPacket::LoginAcknowledged(p) => p.fields(),
            ServersideLoginPacket::CookieResponse(p) => p.fields(),
        }
    }

    open spec fn spec_layout(id: u32) -> Option<Seq<FieldKind>> {
        if id == 0x00 {
            Some(ServersideLoginStart::layout())
        } else if id == 0x01 {
            Some(ServersideEncryptionResponse::layout())
        } else if id == 0x02 {
            Some(ServersidePluginResponse::layout())
        } else if id == 0x03 {
            Some(ServersideLoginAcknowledged::layout())
        } else if id == 0x04 {
            Some(ServersideCookieResponse::layout())
        } else {
            None
        }
    }

    proof fn lemma_layout(&self) {
        match self {
            ServersideLoginPacket::LoginStart(p) => p.lemma_fields_fit(),
            ServersideLoginPacket::EncryptionResponse(p) => p.lemma_fields_fit(),
            ServersideLoginPacket::PluginResponse(p) => p.lemma_fields_fit(),
            ServersideLoginPacket::LoginAcknowledged(p) => p.lemma_fields_fit(),
            ServersideLoginPacket::CookieResponse(p) => p.lemma_fields_fit(),
        }
    }

    fn id(&self) -> (r: u32)
        ensures
            *self is LoginStart ==> r == 0x00,
            *self is EncryptionResponse ==> r == 0x01,
            *self is PluginResponse ==> r == 0x02,
            *self is LoginAcknowledged ==> r == 0x03,
            *self is CookieResponse ==> r == 0x04,
    {
        match self {
            ServersideLoginPacket::LoginStart(_) => 0x00,
            ServersideLoginPacket::EncryptionResponse(_) => 0x01,
            ServersideLoginPacket::PluginResponse(_) => 0x02,
            ServersideLoginPacket::LoginAcknowledged(_) => 0x03,
            ServersideLoginPacket::CookieResponse(_) => 0x04,
        }
    }

    fn read(id: u32, buffer: &mut Cursor) -> (res: Option<Self>)
        ensures
            id == 0x00 ==> match read_fields(ServersideLoginStart::layout(), old(buffer).rest(), 0).0 {
                Some(fs) => res matches Some(ServersideLoginPacket::LoginStart(q)) && q.fields() == fs,
                None => res is None,
            },
            id == 0x01 ==> match read_fields(ServersideEncryptionResponse::layout(), old(buffer).rest(), 0).0 {
                Some(fs) => res matches Some(ServersideLoginPacket::EncryptionResponse(q)) && q.fields() == fs,
                None => res is None,
            },
            id == 0x02 ==> match read_fields(ServersidePluginResponse::layout(), old(buffer).rest(), 0).0 {
                Some(fs) => res matches Some(ServersideLoginPacket::PluginResponse(q)) && q.fields() == fs,
                None => res is None,
            },
            id == 0x03 ==> match read_fields(ServersideLoginAcknowledged::layout(), old(buffer).rest(), 0).0 {
                Some(fs) => res matches Some(ServersideLoginPacket::LoginAcknowledged(q)) && q.fields() == fs,
                None => res is None,
            },
            id == 0x04 ==> match read_fields(ServersideCookieResponse::layout(), old(buffer).rest(), 0).0 {
                Some(fs) => res matches Some(ServersideLoginPacket::CookieResponse(q)) && q.fields() == fs,
                None => res is None,
            },
            !(id == 0x00 || id == 0x01 || id == 0x02 || id == 0x03 || id == 0x04) ==> res is None,
    {
        match id {
            0x00 => match ServersideLoginStart::read(buffer) {
                Some(p) => Some(ServersideLoginPacket::LoginStart(p)),
                None => None,
            },
            0x01 => match ServersideEncryptionResponse::read(buffer) {
                Some(p) => Some(ServersideLoginPacket::EncryptionResponse(p)),
                None => None,
            },
            0x02 => match ServersidePluginResponse::read(buffer) {
                Some(p) => Some(ServersideLoginPacket::PluginResponse(p)),
                None => None,
            },
            0x03 => match ServersideLoginAcknowledged::read(buffer) {
                Some(p) => Some(ServersideLoginPacket::LoginAcknowledged(p)),
                None => None,
            },
            0x04 => match ServersideCookieResponse::read(buffer) {
                Some(p) => Some(ServersideLoginPacket::CookieResponse(p)),
                None => None,
            },
            _ => None,
        }
    }

    fn write(&self, buffer: &mut Vec<u8>) -> (res: Result<(), WriteError>) {
        match self {
            ServersideLoginPacket::LoginStart(p) => p.write(buffer),
            ServersideLoginPacket::EncryptionResponse(p) => p.write(buffer),
            ServersideLoginPacket::PluginResponse(p) => p.write(buffer),
            ServersideLoginPacket::LoginAcknowledged(p) => p.write(buffer),
            ServersideLoginPacket::CookieResponse(p) => p.write(buffer),
        }
    }
}

/// The id of each packet of the family, and the layout each id is read with: LoginStart 0x00, EncryptionResponse 0x01, PluginResponse 0x02, LoginAcknowledged 0x03, CookieResponse 0x04.
pub proof fn lemma_serverside_login_packet_ids(p: ServersideLoginPacket)
    ensures
        p is LoginStart ==> p.spec_id() == 0x00,
        p is EncryptionResponse ==> p.spec_id() == 0x01,
        p is PluginResponse ==> p.spec_id() == 0x02,
        p is LoginAcknowledged ==> p.spec_id() == 0x03,
        p is CookieResponse ==> p.spec_id() == 0x04,
        ServersideLoginPacket::spec_layout(0x00) == Some(ServersideLoginStart::layout()),
        ServersideLoginPacket::spec_layout(0x01) == Some(ServersideEncryptionResponse::layout()),
        ServersideLoginPacket::spec_layout(0x02) == Some(ServersidePluginResponse::layout()),
        ServersideLoginPacket::spec_layout(0x03) == Some(ServersideLoginAcknowledged::layout()),
        ServersideLoginPacket::spec_layout(0x04) == Some(ServersideCookieResponse::layout()),
{
}

impl IntoPacket<ServersideLoginPacket> for ServersideLoginPacket {
    fn into_packet(self) -> (res: ServersideLoginPacket)
        ensures
            res == self,
    {
        self
    }
}

impl IntoPacket<ServersideLoginPacket> for ServersideLoginStart {
    fn into_packet(self) -> (res: ServersideLoginPacket)
        ensures
            res == ServersideLoginPacket::LoginStart(self),
    {
        ServersideLoginPacket::LoginStart(self)
    }
}

impl IntoPacket<ServersideLoginPacket> for ServersideEncryptionResponse {
    fn into_packet(self) -> (res: ServersideLoginPacket)
        ensures
            res == ServersideLoginPacket::EncryptionResponse(self),
    {
        ServersideLoginPacket::EncryptionResponse(self)
    }
}

impl IntoPacket<ServersideLoginPacket> for ServersidePluginResponse {
    fn into_packet(self) -> (res: ServersideLoginPacket)
        ensures
            res == ServersideLoginPacket::PluginResponse(self),
    {
        ServersideLoginPacket::PluginResponse(self)
    }
}

impl IntoPacket<ServersideLoginPacket> for ServersideLoginAcknowledged {
    fn into_packet(self) -> (res: ServersideLoginPacket)
        ensures
            res == ServersideLoginPacket::LoginAcknowledged(self),
    {
        ServersideLoginPacket::LoginAcknowledged(self)
    }
}

impl IntoPacket<ServersideLoginPacket> for ServersideCookieResponse {
    fn into_packet(self) -> (res: ServersideLoginPacket)
        ensures
            res == ServersideLoginPacket::CookieResponse(self),
    {
        ServersideLoginPacket::CookieResponse(self)
    }
}
} // verus!
