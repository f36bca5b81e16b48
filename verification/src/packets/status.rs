use vstd::prelude::*;

use crate::buffer::WriteError;
use crate::field::{Field, FieldKind, lemma_write_fields_stopped, read_fields, write_field, write_fields};
use crate::field_io::{read_text_field, read_varlong_field, write_text_field, write_varlong_field};
use crate::packet::{IntoPacket, Packet, ProtocolPacket};
use crate::read::Cursor;
use crate::roundtrip::{fields_read_back, lemma_packet_roundtrip, trailing_bytes_last};

verus! {

/// Answer to a ping in the status state.
#[derive(Clone, Debug, PartialEq)]
pub struct ClientsidePongResponse {
    pub timestamp: i64,
}

impl Packet for ClientsidePongResponse {
    open spec fn layout() -> Seq<FieldKind> {
        seq![FieldKind::VarLong]
    }

    open spec fn fields(&self) -> Seq<Field> {
        seq![Field::VarLong(self.timestamp)]
    }

    proof fn lemma_fields_fit(&self) {
    }

    fn read(buffer: &mut Cursor) -> (res: Option<Self>) {
        proof {
            reveal_with_fuel(read_fields, 2);
        }
        let timestamp = match read_varlong_field(buffer) {
            Some(v) => v,
            None => return None,
        };
        Some(ClientsidePongResponse { timestamp })
    }

    fn write(&self, buffer: &mut Vec<u8>) -> (res: Result<(), WriteError>) {
        let ghost fs = self.fields();
        assert(write_fields(fs, 0) == (Seq::<u8>::empty(), true));
        let r = write_varlong_field(self.timestamp, buffer);
        assert(buffer@ =~= old(buffer)@ + write_fields(fs, 1).0);
        if r.is_err() {
            proof {
                lemma_write_fields_stopped(fs, 1, 1);
            }
            return r;
        }
        Ok(())
    }
}

/// Writing a `ClientsidePongResponse` puts its fields on the wire one after another, in this
/// order: `timestamp`.
#[verifier::spinoff_prover]
pub proof fn lemma_clientside_pong_response_wire(timestamp: i64)
    ensures
        write_fields((ClientsidePongResponse { timestamp }).fields(), 1) == (write_field(Field::VarLong(timestamp)).0, true),
{
    reveal_with_fuel(write_fields, 2);
    reveal(write_field);
}

/// Reading the fields of a `ClientsidePongResponse` written one after another, in the order
/// `timestamp`, gives back a packet with those values, whatever
/// follows (nothing, after trailing bytes), when no list is oversized.
#[verifier::spinoff_prover]
pub proof fn lemma_clientside_pong_response_reads_back(timestamp: i64, t: Seq<u8>)
    requires
        fields_read_back((ClientsidePongResponse { timestamp }).fields()),
        trailing_bytes_last((ClientsidePongResponse { timestamp }).fields(), t),
    ensures
        read_fields(ClientsidePongResponse::layout(), write_field(Field::VarLong(timestamp)).0 + t, 0) == (Some((ClientsidePongResponse { timestamp }).fields()), (write_field(Field::VarLong(timestamp)).0).len()),
{
    lemma_clientside_pong_response_wire(timestamp);
    lemma_packet_roundtrip((ClientsidePongResponse { timestamp }), t);
}

/// The server status, as JSON text.
#[derive(Clone, Debug, PartialEq)]
pub struct ClientsideStatusResponse {
    pub response: String,
}

impl Packet for ClientsideStatusResponse {
    open spec fn layout() -> Seq<FieldKind> {
        seq![FieldKind::Text]
    }

    open spec fn fields(&self) -> Seq<Field> {
        seq![Field::Text(self.response.deep_view())]
    }

    proof fn lemma_fields_fit(&self) {
    }

    fn read(buffer: &mut Cursor) -> (res: Option<Self>) {
        proof {
            reveal_with_fuel(read_fields, 2);
        }
        let response = match read_text_field(buffer) {
            Some(v) => v,
            None => return None,
        };
        Some(ClientsideStatusResponse { response })
    }

    fn write(&self, buffer: &mut Vec<u8>) -> (res: Result<(), WriteError>) {
        let ghost fs = self.fields();
        assert(write_fields(fs, 0) == (Seq::<u8>::empty(), true));
        let r = write_text_field(&self.response, buffer);
        assert(buffer@ =~= old(buffer)@ + write_fields(fs, 1).0);
        if r.is_err() {
            proof {
                lemma_write_fields_stopped(fs, 1, 1);
            }
            return r;
        }
        Ok(())
    }
}

/// Writing a `ClientsideStatusResponse` puts its fields on the wire one after another, in this
/// order: `response`.
#[verifier::spinoff_prover]
pub proof fn lemma_clientside_status_response_wire(response: String)
    requires
        write_field(Field::Text(response.deep_view())).1,
    ensures
        write_fields((ClientsideStatusResponse { response }).fields(), 1) == (write_field(Field::Text(response.deep_view())).0, true),
{
    reveal_with_fuel(write_fields, 2);
    reveal(write_field);
}

/// Reading the fields of a `ClientsideStatusResponse` written one after another, in the order
/// `response`, gives back a packet with those values, whatever
/// follows (nothing, after trailing bytes), when no list is oversized.
#[verifier::spinoff_prover]
pub proof fn lemma_clientside_status_response_reads_back(response: String, t: Seq<u8>)
    requires
        write_field(Field::Text(response.deep_view())).1,
        fields_read_back((ClientsideStatusResponse { response }).fields()),
        trailing_bytes_last((ClientsideStatusResponse { response }).fields(), t),
    ensures
        read_fields(ClientsideStatusResponse::layout(), write_field(Field::Text(response.deep_view())).0 + t, 0) == (Some((ClientsideStatusResponse { response }).fields()), (write_field(Field::Text(response.deep_view())).0).len()),
{
    lemma_clientside_status_response_wire(response);
    lemma_packet_roundtrip((ClientsideStatusResponse { response }), t);
}

/// Asks for the server status.
#[derive(Clone, Copy, Debug, PartialEq, Eq)]
pub struct ServersideStatusRequest;

impl Packet for ServersideStatusRequest {
    open spec fn layout() -> Seq<FieldKind> {
        Seq::empty()
    }

    open spec fn fields(&self) -> Seq<Field> {
        Seq::empty()
    }

    proof fn lemma_fields_fit(&self) {
    }

    fn read(buffer: &mut Cursor) -> (res: Option<Self>) {
        proof {
            reveal_with_fuel(read_fields, 1);
        }
        Some(ServersideStatusRequest)
    }

    fn write(&self, buffer: &mut Vec<u8>) -> (res: Result<(), WriteError>) {
        let ghost fs = self.fields();
        assert(write_fields(fs, 0) == (Seq::<u8>::empty(), true));
        assert(buffer@ =~= old(buffer)@ + Seq::<u8>::empty());
        Ok(())
    }
}


/// A ping in the status state.
#[derive(Clone, Debug, PartialEq)]
pub struct ServersidePingRequest {
    pub timestamp: i64,
}

impl Packet for ServersidePingRequest {
    open spec fn layout() -> Seq<FieldKind> {
        seq![FieldKind::VarLong]
    }

    open spec fn fields(&self) -> Seq<Field> {
        seq![Field::VarLong(self.timestamp)]
    }

    proof fn lemma_fields_fit(&self) {
    }

    fn read(buffer: &mut Cursor) -> (res: Option<Self>) {
        proof {
            reveal_with_fuel(read_fields, 2);
        }
        let timestamp = match read_varlong_field(buffer) {
            Some(v) => v,
            None => return None,
        };
        Some(ServersidePingRequest { timestamp })
    }

    fn write(&self, buffer: &mut Vec<u8>) -> (res: Result<(), WriteError>) {
        let ghost fs = self.fields();
        assert(write_fields(fs, 0) == (Seq::<u8>::empty(), true));
        let r = write_varlong_field(self.timestamp, buffer);
        assert(buffer@ =~= old(buffer)@ + write_fields(fs, 1).0);
        if r.is_err() {
            proof {
                lemma_write_fields_stopped(fs, 1, 1);
            }
            return r;
        }
        Ok(())
    }
}

/// Writing a `ServersidePingRequest` puts its fields on the wire one after another, in this
/// order: `timestamp`.
#[verifier::spinoff_prover]
pub proof fn lemma_serverside_ping_request_wire(timestamp: i64)
    ensures
        write_fields((ServersidePingRequest { timestamp }).fields(), 1) == (write_field(Field::VarLong(timestamp)).0, true),
{
    reveal_with_fuel(write_fields, 2);
    reveal(write_field);
}

/// Reading the fields of a `ServersidePingRequest` written one after another, in the order
/// `timestamp`, gives back a packet with those values, whatever
/// follows (nothing, after trailing bytes), when no list is oversized.
#[verifier::spinoff_prover]
pub proof fn lemma_serverside_ping_request_reads_back(timestamp: i64, t: Seq<u8>)
    requires
        fields_read_back((ServersidePingRequest { timestamp }).fields()),
        trailing_bytes_last((ServersidePingRequest { timestamp }).fields(), t),
    ensures
        read_fields(ServersidePingRequest::layout(), write_field(Field::VarLong(timestamp)).0 + t, 0) == (Some((ServersidePingRequest { timestamp }).fields()), (write_field(Field::VarLong(timestamp)).0).len()),
{
    lemma_serverside_ping_request_wire(timestamp);
    lemma_packet_roundtrip((ServersidePingRequest { timestamp }), t);
}
/// The packets the server sends in the status state.
#[derive(Clone, Debug, PartialEq)]
pub enum ClientsideStatusPacket {
    StatusResponse(ClientsideStatusResponse),
    PongResponse(ClientsidePongResponse),
}

impl ProtocolPacket for ClientsideStatusPacket {
    open spec fn spec_id(&self) -> u32 {
        match self {
            ClientsideStatusPacket::StatusResponse(_) => 0x00,
            ClientsideStatusPacket::PongResponse(_) => 0x01,
        }
    }

    open spec fn spec_fields(&self) -> Seq<Field> {
        match self {
            ClientsideStatusPacket::StatusResponse(p) => p.fields(),
            ClientsideStatusPacket::PongResponse(p) => p.fields(),
        }
    }

    open spec fn spec_layout(id: u32) -> Option<Seq<FieldKind>> {
        if id == 0x00 {
            Some(ClientsideStatusResponse::layout())
        } else if id == 0x01 {
            Some(ClientsidePongResponse::layout())
        } else {
            None
        }
    }

    proof fn lemma_layout(&self) {
        match self {
            ClientsideStatusPacket::StatusResponse(p) => p.lemma_fields_fit(),
            ClientsideStatusPacket::PongResponse(p) => p.lemma_fields_fit(),
        }
    }

    fn id(&self) -> (r: u32)
        ensures
            *self is StatusResponse ==> r == 0x00,
            *self is PongResponse ==> r == 0x01,
    {
        match self {
            ClientsideStatusPacket::StatusResponse(_) => 0x00,
            ClientsideStatusPacket::PongResponse(_) => 0x01,
        }
    }

    fn read(id: u32, buffer: &mut Cursor) -> (res: Option<Self>)
        ensures
            id == 0x00 ==> match read_fields(ClientsideStatusResponse::layout(), old(buffer).rest(), 0).0 {
                Some(fs) => res matches Some(ClientsideStatusPacket::StatusResponse(q)) && q.fields() == fs,
                None => res is None,
            },
            id == 0x01 ==> match read_fields(ClientsidePongResponse::layout(), old(buffer).rest(), 0).0 {
                Some(fs) => res matches Some(ClientsideStatusPacket::PongResponse(q)) && q.fields() == fs,
                None => res is None,
            },
            !(id == 0x00 || id == 0x01) ==> res is None,
    {
        match id {
            0x00 => match ClientsideStatusResponse::read(buffer) {
                Some(p) => Some(ClientsideStatusPacket::StatusResponse(p)),
                None => None,
            },
            0x01 => match ClientsidePongResponse::read(buffer) {
                Some(p) => Some(ClientsideStatusPacket::PongResponse(p)),
                None => None,
            },
            _ => None,
        }
    }

    fn write(&self, buffer: &mut Vec<u8>) -> (res: Result<(), WriteError>) {
        match self {
            ClientsideStatusPacket::StatusResponse(p) => p.write(buffer),
            ClientsideStatusPacket::PongResponse(p) => p.write(buffer),
        }
    }
}

/// The id of each packet of the family, and the layout each id is read with: StatusResponse 0x00, PongResponse 0x01.
pub proof fn lemma_clientside_status_packet_ids(p: ClientsideStatusPacket)
    ensures
        p is StatusResponse ==> p.spec_id() == 0x00,
        p is PongResponse ==> p.spec_id() == 0x01,
        ClientsideStatusPacket::spec_layout(0x00) == Some(ClientsideStatusResponse::layout()),
        ClientsideStatusPacket::spec_layout(0x01) == Some(ClientsidePongResponse::layout()),
{
}

impl IntoPacket<ClientsideStatusPacket> for ClientsideStatusPacket {
    fn into_packet(self) -> (res: ClientsideStatusPacket)
        ensures
            res == self,
    {
        self
    }
}

impl IntoPacket<ClientsideStatusPacket> for ClientsideStatusResponse {
    fn into_packet(self) -> (res: ClientsideStatusPacket)
        ensures
            res == ClientsideStatusPacket::StatusResponse(self),
    {
        ClientsideStatusPacket::StatusResponse(self)
    }
}

impl IntoPacket<ClientsideStatusPacket> for ClientsidePongResponse {
    fn into_packet(self) -> (res: ClientsideStatusPacket)
        ensures
            res == ClientsideStatusPacket::PongResponse(self),
    {
        ClientsideStatusPacket::PongResponse(self)
    }
}
/// The packets the client sends in the status state.
#[derive(Clone, Debug, PartialEq)]
pub enum ServersideStatusPacket {
    StatusRequest(ServersideStatusRequest),
    PingRequest(ServersidePingRequest),
}

impl ProtocolPacket for ServersideStatusPacket {
    open spec fn spec_id(&self) -> u32 {
        match self {
            ServersideStatusPacket::StatusRequest(_) => 0x00,
            ServersideStatusPacket::PingRequest(_) => 0x01,
        }
    }

    open spec fn spec_fields(&self) -> Seq<Field> {
        match self {
            ServersideStatusPacket::StatusRequest(p) => p.fields(),
            ServersideStatusPacket::PingRequest(p) => p.fields(),
        }
    }

    open spec fn spec_layout(id: u32) -> Option<Seq<FieldKind>> {
        if id == 0x00 {
            Some(ServersideStatusRequest::layout())
        } else if id == 0x01 {
            Some(ServersidePingRequest::layout())
        } else {
            None
        }
    }

    proof fn lemma_layout(&self) {
        match self {
            ServersideStatusPacket::StatusRequest(p) => p.lemma_fields_fit(),
            ServersideStatusPacket::PingRequest(p) => p.lemma_fields_fit(),
        }
    }

    fn id(&self) -> (r: u32)
        ensures
            *self is StatusRequest ==> r == 0x00,
            *self is PingRequest ==> r == 0x01,
    {
        match self {
            ServersideStatusPacket::StatusRequest(_) => 0x00,
            ServersideStatusPacket::PingRequest(_) => 0x01,
        }
    }

    fn read(id: u32, buffer: &mut Cursor) -> (res: Option<Self>)
        ensures
            id == 0x00 ==> match read_fields(ServersideStatusRequest::layout(), old(buffer).rest(), 0).0 {
                Some(fs) => res matches Some(ServersideStatusPacket::StatusRequest(q)) && q.fields() == fs,
                None => res is None,
            },
            id == 0x01 ==> match read_fields(ServersidePingRequest::layout(), old(buffer).rest(), 0).0 {
                Some(fs) => res matches Some(ServersideStatusPacket::PingRequest(q)) && q.fields() == fs,
                None => res is None,
            },
            !(id == 0x00 || id == 0x01) ==> res is None,
    {
        match id {
            0x00 => match ServersideStatusRequest::read(buffer) {
                Some(p) => Some(ServersideStatusPacket::StatusRequest(p)),
                None => None,
            },
            0x01 => match ServersidePingRequest::read(buffer) {
                Some(p) => Some(ServersideStatusPacket::PingRequest(p)),
                None => None,
            },
            _ => None,
        }
    }

    fn write(&self, buffer: &mut Vec<u8>) -> (res: Result<(), WriteError>) {
        match self {
            ServersideStatusPacket::StatusRequest(p) => p.write(buffer),
            ServersideStatusPacket::PingRequest(p) => p.write(buffer),
        }
    }
}

/// The id of each packet of the family, and the layout each id is read with: StatusRequest 0x00, PingRequest 0x01.
pub proof fn lemma_serverside_status_packet_ids(p: ServersideStatusPacket)
    ensures
        p is StatusRequest ==> p.spec_id() == 0x00,
        p is PingRequest ==> p.spec_id() == 0x01,
        ServersideStatusPacket::spec_layout(0x00) == Some(ServersideStatusRequest::layout()),
        ServersideStatusPacket::spec_layout(0x01) == Some(ServersidePingRequest::layout()),
{
}

impl IntoPacket<ServersideStatusPacket> for ServersideStatusPacket {
    fn into_packet(self) -> (res: ServersideStatusPacket)
        ensures
            res == self,
    {
        self
    }
}

impl IntoPacket<ServersideStatusPacket> for ServersideStatusRequest {
    fn into_packet(self) -> (res: ServersideStatusPacket)
        ensures
            res == ServersideStatusPacket::StatusRequest(self),
    {
        ServersideStatusPacket::StatusRequest(self)
    }
}

impl IntoPacket<ServersideStatusPacket> for ServersidePingRequest {
    fn into_packet(self) -> (res: ServersideStatusPacket)
        ensures
            res == ServersideStatusPacket::PingRequest(self),
    {
        ServersideStatusPacket::PingRequest(self)
    }
}
} // verus!
