use bytes::BytesMut;
use nurtex::encrypt::{AesEncryptor, create_cipher, decrypt_data};
use nurtex::frame::{
    FrameError, MAX_PACKET_SIZE, compression_decoder, compression_encoder, deserialize_packet,
    encode_to_network_packet, parse_frame, read_raw_packet_from_buffer, serialize_packet,
};
use nurtex::packets::status::{
    ClientsidePongResponse, ClientsideStatusPacket, ClientsideStatusResponse, ServersidePingRequest,
    ServersideStatusPacket,
};
use nurtex::read::Cursor;
use nurtex::varint::VarI32;

fn wire(raw: &[u8], threshold: i32) -> Vec<u8> {
    let mut none: Option<AesEncryptor> = None;
    encode_to_network_packet(raw, threshold, &mut none).unwrap().to_vec()
}

#[test]
fn frame_without_compression() {
    assert_eq!(wire(&[0x01, 0x05], -1), vec![2, 0x01, 0x05]);
    let mut buf = BytesMut::from(&[2u8, 0x01, 0x05, 0x09][..]);
    let p = read_raw_packet_from_buffer(&mut buf, -1).unwrap();
    assert_eq!(&p[..], &[0x01, 0x05]);
    assert_eq!(&buf[..], &[0x09]);
}

#[test]
fn incomplete_frames_stay_in_the_buffer() {
    let mut buf = BytesMut::from(&[3u8, 0x01, 0x05][..]);
    assert!(parse_frame(&mut buf).is_none());
    assert_eq!(&buf[..], &[3, 0x01, 0x05]);
    let mut buf = BytesMut::from(&[0x80u8][..]);
    assert!(read_raw_packet_from_buffer(&mut buf, -1).is_none());
    assert_eq!(&buf[..], &[0x80]);
    let mut buf = BytesMut::new();
    assert!(parse_frame(&mut buf).is_none());
}

#[test]
fn two_frames_come_out_one_by_one() {
    let mut bytes = wire(&[7], -1);
    bytes.extend(wire(&[8, 9], -1));
    let mut buf = BytesMut::from(&bytes[..]);
    assert_eq!(&parse_frame(&mut buf).unwrap()[..], &[7]);
    assert_eq!(&parse_frame(&mut buf).unwrap()[..], &[8, 9]);
    assert!(buf.is_empty());
    assert!(parse_frame(&mut buf).is_none());
}

#[test]
fn below_the_threshold_the_body_is_marked_uncompressed() {
    assert_eq!(wire(&[0x01, 0x05], 256), vec![3, 0, 0x01, 0x05]);
    let mut buf = BytesMut::from(&[3u8, 0, 0x01, 0x05][..]);
    let p = read_raw_packet_from_buffer(&mut buf, 256).unwrap();
    assert_eq!(&p[..], &[0x01, 0x05]);
}

#[test]
fn from_the_threshold_on_the_body_is_compressed() {
    let raw: Vec<u8> = (0..600u32).map(|i| (i % 7) as u8).collect();
    let frame = wire(&raw, 256);
    // The frame body starts with the inflated length, 600, as a VarInt.
    let mut c = Cursor::new(&frame);
    let body_len = i32::read_var(&mut c).unwrap() as usize;
    assert_eq!(body_len, frame.len() - c.position());
    assert_eq!(&frame[c.position()..c.position() + 2], &[0xd8, 0x04]);
    // The compressor did shrink such a regular packet.
    assert!(frame.len() < raw.len());
    let mut buf = BytesMut::from(&frame[..]);
    let back = read_raw_packet_from_buffer(&mut buf, 256).unwrap();
    assert_eq!(&back[..], &raw[..]);
    assert!(buf.is_empty());
}

#[test]
fn a_compressed_length_below_the_threshold_is_refused() {
    let raw: Vec<u8> = vec![1; 300];
    let mut body = BytesMut::new();
    compression_encoder(&raw, 0, &mut body).unwrap();
    assert!(compression_decoder(&body, 0).is_some());
    assert!(compression_decoder(&body, 301).is_none());
    assert_eq!(&compression_decoder(&body, 300).unwrap()[..], &raw[..]);
    // Not a zlib stream.
    assert!(compression_decoder(&[5, 1, 2, 3], 0).is_none());
    // An empty body has no length.
    assert!(compression_decoder(&[], 0).is_none());
    // A length above the largest packet is refused.
    let mut big = Vec::new();
    ((MAX_PACKET_SIZE as i32) + 1).write_var(&mut big).unwrap();
    big.extend_from_slice(&body[2..]);
    assert!(compression_decoder(&big, 0).is_none());
}

#[test]
fn compression_encoder_appends() {
    let mut buf = BytesMut::from(&[0xeeu8][..]);
    compression_encoder(&[1, 2], 10, &mut buf).unwrap();
    assert_eq!(&buf[..], &[0xee, 0, 1, 2]);
}

#[test]
fn an_empty_packet_at_threshold_zero_does_not_read_back() {
    let frame = wire(&[], 0);
    let mut buf = BytesMut::from(&frame[..]);
    let back = read_raw_packet_from_buffer(&mut buf, 0).unwrap();
    // The length 0 says "not compressed", so the zlib stream is handed on.
    assert!(!back.is_empty());
}

#[test]
fn packets_through_the_whole_pipeline() {
    for threshold in [-1, 0, 2, 256] {
        let p = ClientsideStatusPacket::StatusResponse(ClientsideStatusResponse {
            response: "{\"version\":{\"protocol\":769}}".to_string(),
        });
        let raw = serialize_packet(&p).unwrap();
        assert_eq!(raw[0], 0x00);
        let frame = wire(&raw, threshold);
        let mut buf = BytesMut::from(&frame[..]);
        let payload = read_raw_packet_from_buffer(&mut buf, threshold).unwrap();
        assert_eq!(&payload[..], &raw[..]);
        let back: ClientsideStatusPacket = deserialize_packet(&mut Cursor::new(&payload)).unwrap();
        assert_eq!(back, p);
    }
}

#[test]
fn serialize_puts_the_id_first() {
    let p = ServersideStatusPacket::PingRequest(ServersidePingRequest { timestamp: 1 });
    assert_eq!(&serialize_packet(&p).unwrap()[..], &[0x01, 0x01]);
    let p = ClientsideStatusPacket::PongResponse(ClientsidePongResponse { timestamp: 2 });
    assert_eq!(&serialize_packet(&p).unwrap()[..], &[0x01, 0x02]);
    let too_long = ClientsideStatusPacket::StatusResponse(ClientsideStatusResponse {
        response: "y".repeat(32768),
    });
    assert!(matches!(serialize_packet(&too_long), Err(FrameError::Write(_))));
}

#[test]
fn deserialize_refuses_unknown_ids_and_short_bodies() {
    let mut c = Cursor::new(&[0x05, 0x00]);
    assert_eq!(deserialize_packet::<ServersideStatusPacket>(&mut c), None);
    assert_eq!(c.position(), 1);
    let mut c = Cursor::new(&[0x01]);
    assert_eq!(deserialize_packet::<ServersideStatusPacket>(&mut c), None);
    let mut c = Cursor::new(&[]);
    assert_eq!(deserialize_packet::<ServersideStatusPacket>(&mut c), None);
}

#[test]
fn encrypted_frames_decrypt_back() {
    let key = [7u8; 16];
    let (enc, mut dec) = create_cipher(&key);
    let mut cipher = Some(enc);
    let raw = [0x01u8, 0x02, 0x03];
    let frame = encode_to_network_packet(&raw, -1, &mut cipher).unwrap();
    assert!(cipher.is_some());
    assert_eq!(frame.len(), 4);
    assert_ne!(&frame[..], &[3, 1, 2, 3]);
    let mut plain = frame.to_vec();
    decrypt_data(&mut dec, &mut plain);
    assert_eq!(plain, vec![3, 1, 2, 3]);
}
