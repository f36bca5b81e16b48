use nurtex::connection::{ConnectionState, encryption_response, handle_encryption_request};
use nurtex::encrypt::{EncryptResult, create_cipher, decrypt_data, encrypt_data, try_encrypt};
use nurtex::entity::EntityId;
use nurtex::packets::login::ClientsideEncryptionRequest;
use nurtex::rsa_key::{rsa_call_is_safe, rsa_modulus_len};
use nurtex::reconnect::{FailureKind, ReconnectPolicy, ReconnectStep, SessionEnd, reconnect_decision, session_end};

const PUBLIC_KEY: [u8; 162] = [
    48, 129, 159, 48, 13, 6, 9, 42, 134, 72, 134, 247, 13, 1, 1, 1, 5, 0, 3, 129, 141, 0, 48, 129,
    137, 2, 129, 129, 0, 149, 92, 126, 71, 214, 186, 100, 139, 40, 104, 65, 254, 200, 105, 71, 66,
    241, 84, 172, 206, 206, 217, 49, 214, 16, 50, 6, 234, 97, 21, 170, 139, 234, 88, 220, 105, 27,
    115, 56, 103, 53, 234, 84, 255, 129, 147, 41, 146, 68, 39, 120, 208, 141, 142, 39, 242, 182, 97,
    4, 204, 236, 190, 104, 101, 234, 46, 71, 248, 55, 88, 213, 56, 145, 154, 142, 184, 144, 55, 105,
    241, 179, 205, 174, 107, 40, 77, 46, 201, 197, 51, 20, 246, 95, 207, 227, 5, 210, 42, 107, 135,
    219, 126, 207, 216, 181, 2, 130, 57, 203, 239, 232, 68, 220, 131, 211, 86, 168, 125, 193, 91,
    148, 153, 109, 76, 109, 50, 2, 139, 2, 3, 1, 0, 1,
];

#[test]
fn connection_state_numbers() {
    let all = [
        (ConnectionState::Status, -1i8),
        (ConnectionState::Handshake, 0),
        (ConnectionState::Login, 1),
        (ConnectionState::Configuration, 2),
        (ConnectionState::Play, 3),
    ];
    for (state, id) in all {
        assert_eq!(state.id(), id);
        assert_eq!(ConnectionState::from(id), state);
        assert_eq!(ConnectionState::from(state.id()), state);
    }
    assert_eq!(ConnectionState::from(4), ConnectionState::Handshake);
    assert_eq!(ConnectionState::from(-2), ConnectionState::Handshake);
}

#[test]
fn entity_id_starts_negative_and_holds_what_is_set() {
    let mut id = EntityId::negative();
    assert_eq!(id.get(), -1);
    id.set(1234);
    assert_eq!(id.get(), 1234);
    id.set(-7);
    assert_eq!(id.get(), -7);
}

fn policy(enabled: bool, max_attempts: i32) -> ReconnectPolicy {
    ReconnectPolicy { enabled, reconnect_delay: 1000, max_attempts }
}

#[test]
fn retryable_errors_are_retried_up_to_the_limit() {
    let p = policy(true, 3);
    let mut attempts = 0;
    let mut retries = 0;
    loop {
        let (step, next) = reconnect_decision(SessionEnd::Retryable, &p, attempts);
        attempts = next;
        if step == ReconnectStep::Stop {
            break;
        }
        retries += 1;
    }
    assert_eq!(retries, 3);
    assert_eq!(attempts, 3);
}

#[test]
fn no_limit_keeps_retrying() {
    let p = policy(true, -1);
    assert_eq!(reconnect_decision(SessionEnd::Retryable, &p, 1000), (ReconnectStep::Retry, 1001));
}

#[test]
fn finished_fatal_or_disabled_stop() {
    let p = policy(true, 5);
    assert_eq!(reconnect_decision(SessionEnd::Finished, &p, 0), (ReconnectStep::Stop, 0));
    assert_eq!(reconnect_decision(SessionEnd::Fatal, &p, 2), (ReconnectStep::Stop, 2));
    let off = policy(false, 5);
    assert_eq!(reconnect_decision(SessionEnd::Retryable, &off, 0), (ReconnectStep::Stop, 0));
    let zero = policy(true, 0);
    assert_eq!(reconnect_decision(SessionEnd::Retryable, &zero, 0), (ReconnectStep::Stop, 0));
}

#[test]
fn cipher_pair_roundtrips_a_stream() {
    let key = [0x42u8; 16];
    let (mut enc, mut dec) = create_cipher(&key);
    let plain = b"hello, server".to_vec();
    let mut data = plain.clone();
    encrypt_data(&mut enc, &mut data);
    assert_eq!(data.len(), plain.len());
    assert_ne!(data, plain);
    decrypt_data(&mut dec, &mut data);
    assert_eq!(data, plain);
}

#[test]
fn try_encrypt_with_a_real_key() {
    let res = try_encrypt(&PUBLIC_KEY, &[1, 2, 3, 4]).unwrap();
    assert!((100..=128).contains(&res.encrypted_public_key.len()));
    assert!((100..=128).contains(&res.encrypted_challenge.len()));
    assert_ne!(res.encrypted_public_key, res.secret_key.to_vec());
}

#[test]
fn try_encrypt_refuses_bad_input() {
    assert!(try_encrypt(&[], &[1]).is_none());
    // A challenge longer than the key allows.
    assert!(try_encrypt(&PUBLIC_KEY, &[0; 128]).is_none());
}

#[test]
fn encryption_response_puts_the_ciphertexts_in_place() {
    let r = EncryptResult {
        secret_key: [3; 16],
        encrypted_public_key: vec![1, 2],
        encrypted_challenge: vec![9],
    };
    let (resp, secret) = encryption_response(r);
    assert_eq!(resp.shared_secret, vec![1, 2]);
    assert_eq!(resp.verify_token, vec![9]);
    assert_eq!(secret, [3; 16]);
}

#[test]
fn handle_encryption_request_answers_or_refuses() {
    let req = ClientsideEncryptionRequest {
        server_id: String::new(),
        public_key: PUBLIC_KEY.to_vec(),
        verify_token: vec![5, 6, 7, 8],
        should_authenticate: false,
    };
    let (resp, _secret) = handle_encryption_request(&req).unwrap();
    assert!(!resp.shared_secret.is_empty());
    assert!(!resp.verify_token.is_empty());
    let bad = ClientsideEncryptionRequest { public_key: vec![], ..req };
    assert!(handle_encryption_request(&bad).is_none());
}

#[test]
fn rsa_key_layout_is_checked() {
    assert_eq!(rsa_modulus_len(&PUBLIC_KEY), Some(129));
    assert_eq!(rsa_modulus_len(&[]), None);
    assert_eq!(rsa_modulus_len(&[1]), None);
    // Cut short, or with a byte after it, the key is refused.
    assert_eq!(rsa_modulus_len(&PUBLIC_KEY[..161]), None);
    let mut longer = PUBLIC_KEY.to_vec();
    longer.push(0);
    assert_eq!(rsa_modulus_len(&longer), None);
    assert!(try_encrypt(&longer, &[1]).is_none());
    // A key followed by a DER NULL still parses, and is used.
    let mut with_null = PUBLIC_KEY.to_vec();
    with_null.extend_from_slice(&[0x05, 0x00]);
    assert_eq!(rsa_modulus_len(&with_null), None);
    assert!(rsa_call_is_safe(&with_null));
    assert!(try_encrypt(&with_null, &[1, 2, 3]).is_some());
    // The longest challenge the 1024-bit key takes is 117 bytes.
    assert!(try_encrypt(&PUBLIC_KEY, &[7; 117]).is_some());
    assert!(try_encrypt(&PUBLIC_KEY, &[7; 118]).is_none());
}

#[test]
fn cipher_streams_stay_in_step_across_chunks() {
    let key = [9u8; 16];
    let (mut enc, mut dec) = create_cipher(&key);
    let plain: Vec<u8> = (0..100u8).collect();
    let mut a = plain[..30].to_vec();
    let mut b = plain[30..].to_vec();
    encrypt_data(&mut enc, &mut a);
    encrypt_data(&mut enc, &mut b);
    let mut wire = a.clone();
    wire.extend_from_slice(&b);
    // Decrypted in other chunk sizes, the stream still comes back.
    let (mut x, mut y) = (wire[..55].to_vec(), wire[55..].to_vec());
    decrypt_data(&mut dec, &mut x);
    decrypt_data(&mut dec, &mut y);
    x.extend_from_slice(&y);
    assert_eq!(x, plain);
}

#[test]
fn which_failures_are_retried() {
    assert_eq!(session_end(None), SessionEnd::Finished);
    assert_eq!(session_end(Some(FailureKind::ConnectionRefused)), SessionEnd::Retryable);
    assert_eq!(session_end(Some(FailureKind::NotConnected)), SessionEnd::Retryable);
    assert_eq!(session_end(Some(FailureKind::Other)), SessionEnd::Fatal);
}

fn small_key(modulus: &[u8], exponent: &[u8]) -> Vec<u8> {
    let mut ints = vec![0x02, modulus.len() as u8];
    ints.extend_from_slice(modulus);
    ints.push(0x02);
    ints.push(exponent.len() as u8);
    ints.extend_from_slice(exponent);
    let mut inner = vec![0x30, ints.len() as u8];
    inner.extend_from_slice(&ints);
    let mut bits = vec![0x03, (inner.len() + 1) as u8, 0x00];
    bits.extend_from_slice(&inner);
    let alg = [0x30u8, 0x0d, 0x06, 0x09, 0x2a, 0x86, 0x48, 0x86, 0xf7, 0x0d, 0x01, 0x01, 0x01, 0x05, 0x00];
    let mut body = alg.to_vec();
    body.extend_from_slice(&bits);
    let mut key = vec![0x30, body.len() as u8];
    key.extend_from_slice(&body);
    key
}

#[test]
fn keys_that_could_panic_are_left_out() {
    // A 40-bit modulus would underflow the crate's length check.
    let tiny = small_key(&[0x7f, 1, 2, 3, 4], &[3]);
    assert!(!rsa_call_is_safe(&tiny));
    assert!(try_encrypt(&tiny, &[]).is_none());
    // A negative exponent would make the power panic.
    let modulus = [0x7fu8; 20];
    let negative = small_key(&modulus, &[0x80]);
    assert!(!rsa_call_is_safe(&negative));
    let fine = small_key(&modulus, &[3]);
    assert!(rsa_call_is_safe(&fine));
    // A 159-bit modulus takes at most 19 - 11 = 8 bytes: not the 16-byte secret.
    assert!(try_encrypt(&fine, &[1; 8]).is_none());
    // Not DER at all: the call fails without panicking.
    assert!(rsa_call_is_safe(&[0x30, 0x05]));
    assert!(try_encrypt(&[0x30, 0x05], &[1]).is_none());
}
