use nurtex::buffer::WriteError;
use nurtex::packet::{IntoPacket, Packet, ProtocolPacket};
use nurtex::packets::configuration::{
    ServersideAcknowledgeFinishConfiguration, ServersideClientInformation, ServersideConfigurationPacket,
    ServersideKnownPacks, ServersideResourcePackResponse,
    ClientsideAddResourcePack, ClientsidePluginMessage, ClientsideTransfer, ServersideCookieResponse,
};
use nurtex::packets::handshake::{ServersideGreet, ServersideHandshakePacket};
use nurtex::packets::login::{
    ClientsideLoginDisconnect, ClientsideLoginPacket, ClientsideLoginSuccess, ClientsideSetCompression,
    ClientsideEncryptionRequest, ServersideEncryptionResponse, ServersideLoginAcknowledged,
    ServersideLoginPacket, ServersideLoginStart, ServersidePluginResponse,
};
use nurtex::packets::play::{
    ClientsidePlayerChat, ClientsideRemoveEntities, ClientsideSectionBlocksUpdate,
    ClientsideUpdateEntityPos,
};
use nurtex::packets::status::{
    ClientsidePongResponse, ClientsideStatusPacket, ClientsideStatusResponse, ServersidePingRequest,
    ServersideStatusPacket, ServersideStatusRequest,
};
use nurtex::read::Cursor;
use nurtex::types::intention::ClientIntention;
use nurtex::types::known_pack::KnownPack;
use nurtex::types::settings::{AccurateHand, ChatMode, ParticleStatus, ResourcePackState};
use nurtex::types::property::Property;
use nurtex::types::uuid::Uuid;

fn body<P: Packet>(p: &P) -> Vec<u8> {
    let mut out = Vec::new();
    p.write(&mut out).unwrap();
    out
}

fn family<P: ProtocolPacket>(p: &P) -> Vec<u8> {
    let mut out = Vec::new();
    ProtocolPacket::write(p, &mut out).unwrap();
    out
}

#[test]
fn pong_is_a_varlong() {
    let p = ClientsidePongResponse { timestamp: 300 };
    assert_eq!(body(&p), vec![0xac, 0x02]);
    let b = body(&p);
    let mut c = Cursor::new(&b);
    assert_eq!(ClientsidePongResponse::read(&mut c), Some(p));
    assert_eq!(c.position(), 2);
    let ping = ServersidePingRequest { timestamp: -1 };
    let b = body(&ping);
    assert_eq!(b.len(), 10);
    assert_eq!(ServersidePingRequest::read(&mut Cursor::new(&b)), Some(ping));
}

#[test]
fn empty_packets_take_no_bytes() {
    assert!(body(&ServersideStatusRequest).is_empty());
    let mut c = Cursor::new(&[9u8, 9]);
    assert_eq!(ServersideStatusRequest::read(&mut c), Some(ServersideStatusRequest));
    assert_eq!(c.position(), 0);
}

#[test]
fn status_family_dispatches_on_the_id() {
    let resp = ClientsideStatusResponse { response: "{}".to_string() };
    let p = ClientsideStatusPacket::StatusResponse(resp.clone());
    assert_eq!(p.id(), 0);
    assert_eq!(family(&p), vec![2, b'{', b'}']);
    let b = family(&p);
    assert_eq!(ClientsideStatusPacket::read(0, &mut Cursor::new(&b)), Some(p));
    let pong = ClientsidePongResponse { timestamp: 7 };
    assert_eq!(
        ClientsideStatusPacket::read(1, &mut Cursor::new(&[7])),
        Some(ClientsideStatusPacket::PongResponse(pong))
    );
    assert_eq!(ClientsideStatusPacket::read(2, &mut Cursor::new(&[7])), None);
    assert_eq!(ServersideStatusPacket::read(5, &mut Cursor::new(&[])), None);
    assert_eq!(
        ServersideStatusPacket::read(0, &mut Cursor::new(&[])),
        Some(ServersideStatusPacket::StatusRequest(ServersideStatusRequest))
    );
}

#[test]
fn into_packet_wraps_in_the_family() {
    let p: ServersideStatusPacket = ServersidePingRequest { timestamp: 5 }.into_packet();
    assert_eq!(p, ServersideStatusPacket::PingRequest(ServersidePingRequest { timestamp: 5 }));
    assert_eq!(p.id(), 1);
    let l: ServersideLoginPacket = ServersideLoginAcknowledged.into_packet();
    assert_eq!(l.id(), 3);
    let same: ServersideLoginPacket = l.clone().into_packet();
    assert_eq!(same, l);
}

#[test]
fn login_start_layout() {
    let p = ServersideLoginStart { username: "bot".to_string(), uuid: Uuid::from_u128(1) };
    let b = body(&p);
    let mut want = vec![3, b'b', b'o', b't'];
    want.extend_from_slice(&[0; 15]);
    want.push(1);
    assert_eq!(b, want);
    let back = ServersideLoginStart::read(&mut Cursor::new(&b)).unwrap();
    assert_eq!(back.username, "bot");
    assert_eq!(back.uuid.as_u128(), 1);
    let l = ServersideLoginPacket::LoginStart(p);
    assert_eq!(l.id(), 0);
}

#[test]
fn encryption_packets() {
    let req = ClientsideEncryptionRequest {
        server_id: String::new(),
        public_key: vec![1, 2, 3],
        verify_token: vec![9, 8, 7, 6],
        should_authenticate: true,
    };
    let b = body(&req);
    assert_eq!(b, vec![0, 3, 1, 2, 3, 4, 9, 8, 7, 6, 1]);
    assert_eq!(ClientsideEncryptionRequest::read(&mut Cursor::new(&b)), Some(req));
    // A byte array whose count runs past the end is refused.
    assert_eq!(ClientsideEncryptionRequest::read(&mut Cursor::new(&[0, 5, 1])), None);
    let resp = ServersideEncryptionResponse { shared_secret: vec![5; 2], verify_token: vec![] };
    assert_eq!(body(&resp), vec![2, 5, 5, 0]);
    assert_eq!(ServersideLoginPacket::EncryptionResponse(resp).id(), 1);
}

#[test]
fn optional_fields_carry_a_flag() {
    let none = ServersidePluginResponse { message_id: 4, data: None };
    assert_eq!(body(&none), vec![4, 0]);
    assert_eq!(ServersidePluginResponse::read(&mut Cursor::new(&[4, 0])), Some(none));
    let some = ServersidePluginResponse { message_id: 4, data: Some(vec![0xaa]) };
    assert_eq!(body(&some), vec![4, 1, 1, 0xaa]);
    assert_eq!(ServersidePluginResponse::read(&mut Cursor::new(&[4, 1, 1, 0xaa])), Some(some));
    // A set flag with nothing after it is refused.
    assert_eq!(ServersidePluginResponse::read(&mut Cursor::new(&[4, 1])), None);
    // A flag byte other than 0 or 1 is refused.
    assert_eq!(ServersidePluginResponse::read(&mut Cursor::new(&[4, 2])), None);
    let cookie = ServersideCookieResponse { key: "k".to_string(), payload: None };
    assert_eq!(body(&cookie), vec![1, b'k', 0]);
}

#[test]
fn trailing_bytes_are_the_rest_of_the_packet() {
    let p = ClientsidePluginMessage { channel: "a".to_string(), data: vec![1, 2] };
    let b = body(&p);
    assert_eq!(b, vec![0x01, 0x61, 0x01, 0x02]);
    let mut c = Cursor::new(&b);
    assert_eq!(ClientsidePluginMessage::read(&mut c), Some(p));
    assert_eq!(c.position(), 4);
    let empty = ClientsidePluginMessage { channel: "a".to_string(), data: vec![] };
    let b = body(&empty);
    assert_eq!(b, vec![0x01, 0x61]);
    assert_eq!(ClientsidePluginMessage::read(&mut Cursor::new(&b)), Some(empty));
}

#[test]
fn resource_pack_with_optional_prompt() {
    let p = ClientsideAddResourcePack {
        uuid: Uuid::nil(),
        url: "u".to_string(),
        hash: String::new(),
        forced: false,
        prompt_message: Some("hi".to_string()),
    };
    let b = body(&p);
    let mut want = vec![0u8; 16];
    want.extend_from_slice(&[1, b'u', 0, 0, 1, 2, b'h', b'i']);
    assert_eq!(b, want);
    let back = ClientsideAddResourcePack::read(&mut Cursor::new(&b)).unwrap();
    assert_eq!(back.prompt_message, Some("hi".to_string()));
    assert!(!back.forced);
}

#[test]
fn transfer_port_is_a_varint() {
    let p = ClientsideTransfer { server_host: "h".to_string(), server_port: 25565 };
    assert_eq!(body(&p), vec![1, b'h', 0xdd, 0xc7, 0x01]);
}

#[test]
fn entity_movement_uses_fixed_width_deltas() {
    let p = ClientsideUpdateEntityPos {
        entity_id: 300,
        delta_x: -1,
        delta_y: 2,
        delta_z: 0x0102,
        on_ground: true,
    };
    let b = body(&p);
    assert_eq!(b, vec![0xac, 0x02, 0xff, 0xff, 0x00, 0x02, 0x01, 0x02, 0x01]);
    assert_eq!(ClientsideUpdateEntityPos::read(&mut Cursor::new(&b)), Some(p));
    assert_eq!(ClientsideUpdateEntityPos::read(&mut Cursor::new(&b[..5])), None);
}

#[test]
fn counted_lists() {
    let p = ClientsideRemoveEntities { entities: vec![1, 128, -1] };
    let b = body(&p);
    assert_eq!(b, vec![3, 1, 0x80, 0x01, 0xff, 0xff, 0xff, 0xff, 0x0f]);
    assert_eq!(ClientsideRemoveEntities::read(&mut Cursor::new(&b)), Some(p));
    assert_eq!(ClientsideRemoveEntities::read(&mut Cursor::new(&[2, 1])), None);
    let s = ClientsideSectionBlocksUpdate { chunk_section_position: 1, head_yaw: vec![5] };
    let b = body(&s);
    assert_eq!(b, vec![0, 0, 0, 0, 0, 0, 0, 1, 1, 5]);
    assert_eq!(ClientsideSectionBlocksUpdate::read(&mut Cursor::new(&b)), Some(s));
}

#[test]
fn player_chat_reads_back() {
    let p = ClientsidePlayerChat {
        global_index: 1,
        sender_uuid: Uuid::from_u128(42),
        index: 0,
        message_signature: None,
        message: "hello".to_string(),
        timestamp: 1_700_000_000_000,
        salt: -5,
        message_id: 3,
        signature: Some(vec![1, 2]),
    };
    let b = body(&p);
    let back = ClientsidePlayerChat::read(&mut Cursor::new(&b)).unwrap();
    assert_eq!(back.message, "hello");
    assert_eq!(back.sender_uuid.as_u128(), 42);
    assert_eq!(back.salt, -5);
    assert_eq!(back.signature, Some(vec![1, 2]));
    assert_eq!(back.message_signature, None);
}

#[test]
fn a_field_too_long_stops_the_write() {
    let p = ClientsideStatusResponse { response: "x".repeat(40000) };
    let mut out = Vec::new();
    assert_eq!(p.write(&mut out), Err(WriteError::StringTooLong));
    let p = ClientsideStatusPacket::StatusResponse(p);
    let mut out = Vec::new();
    assert_eq!(ProtocolPacket::write(&p, &mut out), Err(WriteError::StringTooLong));
}

#[test]
fn greet_opens_the_connection() {
    let g = ServersideGreet {
        protocol_version: 774,
        server_host: "localhost".to_string(),
        server_port: 25565,
        intention: ClientIntention::Login,
    };
    let p = ServersideHandshakePacket::Greet(g.clone());
    assert_eq!(p.id(), 0);
    let b = family(&p);
    let mut want = vec![0x86, 0x06, 9];
    want.extend_from_slice(b"localhost");
    want.extend_from_slice(&[0x63, 0xdd, 2]);
    assert_eq!(b, want);
    assert_eq!(ServersideHandshakePacket::read(0, &mut Cursor::new(&b)), Some(p));
    // An intention other than 1, 2 or 3 is refused.
    let mut bad = b.clone();
    *bad.last_mut().unwrap() = 4;
    assert_eq!(ServersideGreet::read(&mut Cursor::new(&bad)), None);
    assert_eq!(ClientIntention::Status.id(), 1);
    assert_eq!(ClientIntention::Transfer.id(), 3);
}

#[test]
fn login_answers_from_the_server() {
    let success = ClientsideLoginSuccess {
        uuid: Uuid::from_u128(7),
        username: "bot".to_string(),
        properties: vec![
            Property { name: "textures".to_string(), value: "abc".to_string(), signature: None },
            Property { name: "x".to_string(), value: String::new(), signature: Some("s".to_string()) },
        ],
    };
    let p = ClientsideLoginPacket::LoginSuccess(success.clone());
    assert_eq!(p.id(), 2);
    let b = family(&p);
    let mut want = vec![0u8; 15];
    want.push(7);
    want.extend_from_slice(&[3, b'b', b'o', b't', 2]);
    want.extend_from_slice(&[8]);
    want.extend_from_slice(b"textures");
    want.extend_from_slice(&[3, b'a', b'b', b'c', 0]);
    want.extend_from_slice(&[1, b'x', 0, 1, 1, b's']);
    assert_eq!(b, want);
    assert_eq!(ClientsideLoginPacket::read(2, &mut Cursor::new(&b)), Some(p));
    let d = ClientsideLoginPacket::Disconnect(ClientsideLoginDisconnect { reason: "{\"text\":\"bye\"}".to_string() });
    let b = family(&d);
    assert_eq!(ClientsideLoginPacket::read(0, &mut Cursor::new(&b)), Some(d));
    assert_eq!(
        ClientsideLoginPacket::read(3, &mut Cursor::new(&[0x80, 0x02])),
        Some(ClientsideLoginPacket::Compression(ClientsideSetCompression { compression_threshold: 256 }))
    );
    assert_eq!(ClientsideLoginPacket::read(6, &mut Cursor::new(&[])), None);
}

#[test]
fn configuration_answers_from_the_client() {
    let info = ServersideClientInformation {
        locale: "en_us".to_string(),
        view_distance: 10,
        chat_mode: ChatMode::Enabled,
        chat_colors: true,
        displayed_skin_parts: 0x7f,
        main_hand: AccurateHand::Right,
        enable_text_filtering: false,
        allow_server_listings: true,
        particle_status: ParticleStatus::Minimal,
    };
    let p = ServersideConfigurationPacket::ClientInformation(info);
    assert_eq!(p.id(), 0);
    let b = family(&p);
    let mut want = vec![5];
    want.extend_from_slice(b"en_us");
    want.extend_from_slice(&[10, 0, 1, 0x7f, 1, 0, 1, 2]);
    assert_eq!(b, want);
    assert_eq!(ServersideConfigurationPacket::read(0, &mut Cursor::new(&b)), Some(p));
    // A chat mode code past the last mode is refused.
    let mut bad = want.clone();
    bad[7] = 3;
    assert_eq!(ServersideConfigurationPacket::read(0, &mut Cursor::new(&bad)), None);

    let packs = ServersideConfigurationPacket::KnownPacks(ServersideKnownPacks {
        known_packs: vec![KnownPack { namespace: "minecraft".to_string(), id: "core".to_string(), version: "1.21".to_string() }],
    });
    assert_eq!(packs.id(), 7);
    let b = family(&packs);
    assert_eq!(b[0], 1);
    assert_eq!(ServersideConfigurationPacket::read(7, &mut Cursor::new(&b)), Some(packs));

    let r = ServersideConfigurationPacket::ResourcePackResponse(ServersideResourcePackResponse {
        uuid: Uuid::nil(),
        state: ResourcePackState::Discarded,
    });
    let b = family(&r);
    assert_eq!(b.len(), 17);
    assert_eq!(b[16], 7);
    assert_eq!(ServersideConfigurationPacket::read(6, &mut Cursor::new(&b)), Some(r));
    assert_eq!(
        ServersideConfigurationPacket::AcknowledgeFinishConfiguration(ServersideAcknowledgeFinishConfiguration).id(),
        3
    );
}
