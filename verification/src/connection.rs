//! The state of a connection, and the client's answer to an encryption
//! request.

use vstd::prelude::*;

use crate::encrypt::{EncryptResult, rsa_key_takes, spec_rsa_pkcs1_encrypts, try_encrypt};
use crate::field::{lemma_no_lists_no_overflow, no_number_lists};
use crate::frame::{deserialize_packet, spec_read_packet};
use crate::packet::ProtocolPacket;
use crate::packets::login::{ClientsideEncryptionRequest, ClientsideLoginPacket, ServersideEncryptionResponse};
use crate::packets::status::ClientsideStatusPacket;
use crate::read::Cursor;
use crate::varint::spec_read_varint;

verus! {

/// The state of a connection, which decides how packet ids are read.
#[derive(Debug, Clone, Copy, PartialEq, Eq, Structural)]
pub enum ConnectionState {
    Handshake,
    Status,
    Login,
    Configuration,
    Play,
}

impl ConnectionState {
    /// The state a stored number stands for; an unknown number is the
    /// handshake.
    pub open spec fn spec_from_id(value: i8) -> ConnectionState {
        match value {
            -1 => ConnectionState::Status,
            0 => ConnectionState::Handshake,
            1 => ConnectionState::Login,
            2 => ConnectionState::Configuration,
            3 => ConnectionState::Play,
            _ => ConnectionState::Handshake,
        }
    }

    /// The number stored for a state.
    pub open spec fn spec_id(self) -> i8 {
        match self {
            ConnectionState::Status => -1i8,
            ConnectionState::Handshake => 0i8,
            ConnectionState::Login => 1i8,
            ConnectionState::Configuration => 2i8,
            ConnectionState::Play => 3i8,
        }
    }

    /// The number stored for a state.
    pub fn id(self) -> (r: i8)
        ensures
            r == self.spec_id(),
            self == ConnectionState::Status ==> r == -1,
            self == ConnectionState::Handshake ==> r == 0,
            self == ConnectionState::Login ==> r == 1,
            self == ConnectionState::Configuration ==> r == 2,
            self == ConnectionState::Play ==> r == 3,
    {
        match self {
            ConnectionState::Status => -1,
            ConnectionState::Handshake => 0,
            ConnectionState::Login => 1,
            ConnectionState::Configuration => 2,
            ConnectionState::Play => 3,
        }
    }
}

impl From<i8> for ConnectionState {
    fn from(value: i8) -> (r: Self) {
        match value {
            -1 => ConnectionState::Status,
            0 => ConnectionState::Handshake,
            1 => ConnectionState::Login,
            2 => ConnectionState::Configuration,
            3 => ConnectionState::Play,
            _ => ConnectionState::Handshake,
        }
    }
}

impl vstd::std_specs::convert::FromSpecImpl<i8> for ConnectionState {
    open spec fn obeys_from_spec() -> bool {
        true
    }

    open spec fn from_spec(value: i8) -> Self {
        ConnectionState::spec_from_id(value)
    }
}

/// The stored numbers of the states: status -1, handshake 0, login 1,
/// configuration 2, play 3; any other number reads as the handshake.
pub proof fn lemma_state_numbers(value: i8)
    ensures
        ConnectionState::spec_from_id(-1i8) == ConnectionState::Status,
        ConnectionState::spec_from_id(0i8) == ConnectionState::Handshake,
        ConnectionState::spec_from_id(1i8) == ConnectionState::Login,
        ConnectionState::spec_from_id(2i8) == ConnectionState::Configuration,
        ConnectionState::spec_from_id(3i8) == ConnectionState::Play,
        !(-1 <= value <= 3) ==> ConnectionState::spec_from_id(value) == ConnectionState::Handshake,
{
}

/// Storing a state and reading it back gives the same state.
pub proof fn lemma_state_id_roundtrip(state: ConnectionState)
    ensures
        ConnectionState::spec_from_id(state.spec_id()) == state,
{
}

/// The numbers from -1 to 3 are the stored numbers of the five states, and
/// reading one back and storing it again gives the same number.
pub proof fn lemma_id_state_roundtrip(value: i8)
    requires
        -1 <= value <= 3,
    ensures
        ConnectionState::spec_from_id(value).spec_id() == value,
{
}

/// The encryption response for a drawn secret and its ciphertexts: the
/// encrypted secret and the encrypted challenge, beside the secret itself.
pub fn encryption_response(encryption: EncryptResult) -> (res: (ServersideEncryptionResponse, [u8; 16]))
    ensures
        res.0.shared_secret@ == encryption.encrypted_public_key@,
        res.0.verify_token@ == encryption.encrypted_challenge@,
        res.1@ == encryption.secret_key@,
{
    let response = ServersideEncryptionResponse {
        shared_secret: encryption.encrypted_public_key,
        verify_token: encryption.encrypted_challenge,
    };
    (response, encryption.secret_key)
}

/// Answers an encryption request: a fresh secret, encrypted with the server's
/// public key, and the server's verify token, encrypted likewise; `None` when
/// the RSA call refuses either message, or the key is one on which the call
/// could panic.
pub fn handle_encryption_request(request: &ClientsideEncryptionRequest) -> (res: Option<
    (ServersideEncryptionResponse, [u8; 16]),
>)
    ensures
        res is Some <==> rsa_key_takes(request.public_key@, 16) && rsa_key_takes(
            request.public_key@,
            request.verify_token@.len(),
        ),
        res matches Some((resp, key)) ==> spec_rsa_pkcs1_encrypts(
            request.public_key@,
            key@,
            resp.shared_secret@,
        ) && spec_rsa_pkcs1_encrypts(request.public_key@, request.verify_token@, resp.verify_token@),
{
    match try_encrypt(request.public_key.as_slice(), request.verify_token.as_slice()) {
        Some(encryption) => Some(encryption_response(encryption)),
        None => None,
    }
}

} // verus!

verus! {

/// Reads a status packet from the server: its id as a `VarInt`, then the body
/// that the id calls for. Status packets hold no list of numbers, so the read
/// never asks for an oversized vector.
pub fn deserialize_status_packet(buf: &mut Cursor) -> (res: Option<ClientsideStatusPacket>)
    ensures
        final(buf).data() == old(buf).data(),
        final(buf).pos() == old(buf).pos() + spec_read_packet::<ClientsideStatusPacket>(
            old(buf).rest(),
        ).1,
        match spec_read_packet::<ClientsideStatusPacket>(old(buf).rest()).0 {
            Some((id, fs)) => res matches Some(p) && p.spec_id() == id && p.spec_fields() == fs,
            None => res is None,
        },
{
    proof {
        let s = buf.rest();
        if spec_read_varint(s).0 is Some {
            let i = spec_read_varint(s).0->0;
            if ClientsideStatusPacket::spec_layout(i as u32) is Some {
                let k = ClientsideStatusPacket::spec_layout(i as u32)->0;
                assert(no_number_lists(k));
                lemma_no_lists_no_overflow(k, s.skip(spec_read_varint(s).1 as int), 0);
            }
        }
    }
    deserialize_packet::<ClientsideStatusPacket>(buf)
}

/// Reads a login packet from the server: its id as a `VarInt`, then the body
/// that the id calls for. Login packets hold no list of numbers, so the read
/// never asks for an oversized vector.
pub fn deserialize_login_packet(buf: &mut Cursor) -> (res: Option<ClientsideLoginPacket>)
    ensures
        final(buf).data() == old(buf).data(),
        final(buf).pos() == old(buf).pos() + spec_read_packet::<ClientsideLoginPacket>(
            old(buf).rest(),
        ).1,
        match spec_read_packet::<ClientsideLoginPacket>(old(buf).rest()).0 {
            Some((id, fs)) => res matches Some(p) && p.spec_id() == id && p.spec_fields() == fs,
            None => res is None,
        },
{
    proof {
        let s = buf.rest();
        if spec_read_varint(s).0 is Some {
            let i = spec_read_varint(s).0->0;
            if ClientsideLoginPacket::spec_layout(i as u32) is Some {
                let k = ClientsideLoginPacket::spec_layout(i as u32)->0;
                assert(no_number_lists(k));
                lemma_no_lists_no_overflow(k, s.skip(spec_read_varint(s).1 as int), 0);
            }
        }
    }
    deserialize_packet::<ClientsideLoginPacket>(buf)
}

} // verus!
