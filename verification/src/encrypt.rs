//! The client's side of protocol encryption: the shared secret and the AES
//! stream cipher that covers the connection once it is set.

use vstd::prelude::*;

use aes::Aes128;
use aes::cipher::{BlockDecryptMut, BlockEncryptMut, KeyIvInit};
use aes::cipher::inout::InOutBuf;
use rand::Rng;

use crate::rsa_key::{rsa_call_is_safe, spec_rsa_call_safe, spec_rsa_modulus_len};

verus! {

/// The `cfb8::Encryptor<Aes128>` state; opaque to verification.
#[verifier::external_body]
struct Cfb8Encryptor {
    cipher: cfb8::Encryptor<Aes128>,
}

/// The `cfb8::Decryptor<Aes128>` state; opaque to verification.
#[verifier::external_body]
struct Cfb8Decryptor {
    cipher: cfb8::Decryptor<Aes128>,
}

/// The AES-128 encryption of one 16-byte block under a 16-byte key.
pub uninterp spec fn spec_aes128_encrypt_block(key: Seq<u8>, block: Seq<u8>) -> Seq<u8>;

/// The CFB-8 shift register of a cipher started with `iv` after the
/// ciphertext bytes `history`: the last 16 bytes of the two.
pub open spec fn cfb8_register(iv: Seq<u8>, history: Seq<u8>) -> Seq<u8> {
    let s = iv + history;
    s.subrange(s.len() - 16, s.len() as int)
}

/// The key-stream byte that the next byte is combined with: the first byte of
/// the register encrypted. The key serves as the initial vector too.
pub open spec fn cfb8_keystream(key: Seq<u8>, history: Seq<u8>) -> u8 {
    spec_aes128_encrypt_block(key, cfb8_register(key, history))[0]
}

/// CFB-8 encryption of `data` by a cipher keyed (and started) with `key` that
/// has already produced the ciphertext `history`: each byte is combined with
/// the key stream, and the ciphertext byte enters the register.
pub open spec fn spec_cfb8_encrypt(key: Seq<u8>, history: Seq<u8>, data: Seq<u8>) -> Seq<u8>
    decreases data.len(),
{
    if data.len() == 0 {
        Seq::empty()
    } else {
        let c = data[0] ^ cfb8_keystream(key, history);
        seq![c] + spec_cfb8_encrypt(key, history.push(c), data.drop_first())
    }
}

/// CFB-8 decryption of `data` by a cipher keyed (and started) with `key` that
/// has already taken in the ciphertext `history`: each byte is combined with
/// the key stream, and the ciphertext byte enters the register.
pub open spec fn spec_cfb8_decrypt(key: Seq<u8>, history: Seq<u8>, data: Seq<u8>) -> Seq<u8>
    decreases data.len(),
{
    if data.len() == 0 {
        Seq::empty()
    } else {
        seq![data[0] ^ cfb8_keystream(key, history)] + spec_cfb8_decrypt(
            key,
            history.push(data[0]),
            data.drop_first(),
        )
    }
}

/// Decrypting what was encrypted, with the same key and from the same point
/// of the stream, gives the plaintext back: what an encryptor sends, a
/// decryptor with the same key and history turns back into the plaintext, and
/// both histories then grow by the same ciphertext.
pub proof fn lemma_cfb8_roundtrip(key: Seq<u8>, history: Seq<u8>, data: Seq<u8>)
    ensures
        spec_cfb8_decrypt(key, history, spec_cfb8_encrypt(key, history, data)) == data,
    decreases data.len(),
{
    if data.len() > 0 {
        let k = cfb8_keystream(key, history);
        let p = data[0];
        let c = p ^ k;
        let e = spec_cfb8_encrypt(key, history, data);
        let tail = spec_cfb8_encrypt(key, history.push(c), data.drop_first());
        assert(e == seq![c] + tail);
        assert(e[0] == c);
        assert(e.drop_first() =~= tail);
        assert((p ^ k) ^ k == p) by (bit_vector);
        lemma_cfb8_roundtrip(key, history.push(c), data.drop_first());
        assert(spec_cfb8_decrypt(key, history, e) =~= seq![p] + data.drop_first());
        assert(seq![p] + data.drop_first() =~= data);
    }
}

/// AES-128 in CFB-8 mode, encrypting, under the key it was made with, and
/// the ciphertext it has produced so far.
pub struct AesEncryptor {
    inner: Cfb8Encryptor,
    key: Ghost<Seq<u8>>,
    sent: Ghost<Seq<u8>>,
}

/// AES-128 in CFB-8 mode, decrypting, under the key it was made with, and
/// the ciphertext it has taken in so far.
pub struct AesDecryptor {
    inner: Cfb8Decryptor,
    key: Ghost<Seq<u8>>,
    received: Ghost<Seq<u8>>,
}

impl AesEncryptor {
    /// The key (and initial vector) the cipher was made with.
    pub closed spec fn key(&self) -> Seq<u8> {
        self.key@
    }

    /// The ciphertext the cipher has produced so far.
    pub closed spec fn history(&self) -> Seq<u8> {
        self.sent@
    }
}

impl AesDecryptor {
    /// The key (and initial vector) the cipher was made with.
    pub closed spec fn key(&self) -> Seq<u8> {
        self.key@
    }

    /// The ciphertext the cipher has taken in so far.
    pub closed spec fn history(&self) -> Seq<u8> {
        self.received@
    }
}

/// A `cfb8::Encryptor<Aes128>` from `KeyIvInit::new_from_slices`, the key
/// serving as the initial vector too, recorded with that key and an empty
/// history. Any key length but 16 makes the call fail, so it is left out.
#[verifier::external_body]
fn new_encryptor(key: &[u8]) -> (r: AesEncryptor)
    requires
        key@.len() == 16,
    ensures
        r.key() == key@,
        r.history() == Seq::<u8>::empty(),
{
    AesEncryptor {
        inner: Cfb8Encryptor { cipher: cfb8::Encryptor::<Aes128>::new_from_slices(key, key).unwrap() },
        key: Ghost(key@),
        sent: Ghost(Seq::empty()),
    }
}

/// A `cfb8::Decryptor<Aes128>` from `KeyIvInit::new_from_slices`, the key
/// serving as the initial vector too, recorded with that key and an empty
/// history. Any key length but 16 makes the call fail, so it is left out.
#[verifier::external_body]
fn new_decryptor(key: &[u8]) -> (r: AesDecryptor)
    requires
        key@.len() == 16,
    ensures
        r.key() == key@,
        r.history() == Seq::<u8>::empty(),
{
    AesDecryptor {
        inner: Cfb8Decryptor { cipher: cfb8::Decryptor::<Aes128>::new_from_slices(key, key).unwrap() },
        key: Ghost(key@),
        received: Ghost(Seq::empty()),
    }
}

/// The pair of ciphers for a shared secret: one that encrypts what is sent
/// and one that decrypts what is received, both keyed (and started) with the
/// secret and at the start of their streams. The secret is 16 bytes.
pub fn create_cipher(key: &[u8]) -> (res: (AesEncryptor, AesDecryptor))
    requires
        key@.len() == 16,
    ensures
        res.0.key() == key@,
        res.1.key() == key@,
        res.0.history() == Seq::<u8>::empty(),
        res.1.history() == Seq::<u8>::empty(),
{
    (new_encryptor(key), new_decryptor(key))
}

/// Encrypts `buf` in place with `encrypt_blocks_inout_mut` of
/// `cfb8::Encryptor<Aes128>` over all of it (the mode's blocks are single
/// bytes), and records the ciphertext in the cipher's history.
///
/// Claims that the bytes are the CFB-8 encryption of the input under AES-128
/// (`spec_cfb8_encrypt`) from the cipher's state, which is its key and the
/// ciphertext it has produced; only this function and `new_encryptor` set
/// that record.
#[verifier::external_body]
fn cfb8_encrypt(cipher: &mut AesEncryptor, buf: &mut [u8])
    ensures
        final(buf)@ == spec_cfb8_encrypt(old(cipher).key(), old(cipher).history(), old(buf)@),
        old(buf)@.len() > 0 ==> final(buf)@[0] == old(buf)@[0] ^ spec_aes128_encrypt_block(
            old(cipher).key(),
            cfb8_register(old(cipher).key(), old(cipher).history()),
        )[0],
        final(cipher).key() == old(cipher).key(),
        final(cipher).history() == old(cipher).history() + final(buf)@,
{
    let (blocks, _) = InOutBuf::from(&mut *buf).into_chunks();
    cipher.inner.cipher.encrypt_blocks_inout_mut(blocks);
    cipher.sent = Ghost(cipher.sent@ + buf@);
}

/// Decrypts `buf` in place with `decrypt_blocks_inout_mut` of
/// `cfb8::Decryptor<Aes128>` over all of it, and records the ciphertext in
/// the cipher's history.
///
/// Claims that the bytes are the CFB-8 decryption of the input under AES-128
/// (`spec_cfb8_decrypt`) from the cipher's state, which is its key and the
/// ciphertext it has taken in; only this function and `new_decryptor` set
/// that record.
#[verifier::external_body]
fn cfb8_decrypt(cipher: &mut AesDecryptor, buf: &mut [u8])
    ensures
        final(buf)@ == spec_cfb8_decrypt(old(cipher).key(), old(cipher).history(), old(buf)@),
        final(cipher).key() == old(cipher).key(),
        final(cipher).history() == old(cipher).history() + old(buf)@,
{
    let ghost input = buf@;
    let (blocks, _) = InOutBuf::from(&mut *buf).into_chunks();
    cipher.inner.cipher.decrypt_blocks_inout_mut(blocks);
    cipher.received = Ghost(cipher.received@ + input);
}

/// Encrypts `buf` in place, continuing the cipher's stream: the bytes become
/// their CFB-8 encryption, and the ciphertext joins the cipher's history.
pub fn encrypt_data(cipher: &mut AesEncryptor, buf: &mut [u8])
    ensures
        final(buf)@ == spec_cfb8_encrypt(old(cipher).key(), old(cipher).history(), old(buf)@),
        final(cipher).key() == old(cipher).key(),
        final(cipher).history() == old(cipher).history() + final(buf)@,
{
    cfb8_encrypt(cipher, buf);
}

/// Decrypts `buf` in place, continuing the cipher's stream: the bytes become
/// their CFB-8 decryption, and the ciphertext joins the cipher's history.
pub fn decrypt_data(cipher: &mut AesDecryptor, buf: &mut [u8])
    ensures
        final(buf)@ == spec_cfb8_decrypt(old(cipher).key(), old(cipher).history(), old(buf)@),
        final(cipher).key() == old(cipher).key(),
        final(cipher).history() == old(cipher).history() + old(buf)@,
{
    cfb8_decrypt(cipher, buf);
}

/// The shared secret and the two RSA ciphertexts of the encryption
/// handshake.
#[derive(Debug)]
pub struct EncryptResult {
    pub secret_key: [u8; 16],
    pub encrypted_public_key: Vec<u8>,
    pub encrypted_challenge: Vec<u8>,
}

/// Sixteen random bytes, filled by `rand::thread_rng().fill`.
///
/// Claims nothing of the bytes: they are random.
#[verifier::external_body]
fn generate_secret_key() -> [u8; 16] {
    let mut key = [0u8; 16];
    rand::thread_rng().fill(&mut key);
    key
}

/// `ciphertext` is an RSA encryption with PKCS#1 v1.5 padding of `message`
/// under the DER public key `public_key`: some padding makes it so.
pub uninterp spec fn spec_rsa_pkcs1_encrypts(public_key: Seq<u8>, message: Seq<u8>, ciphertext: Seq<u8>) -> bool;

/// Whether `rsa_public_encrypt_pkcs1::encrypt` accepts a message of
/// `message_len` bytes under the DER public key `public_key`: the key parses,
/// holds a modulus and an exponent, and the message fits the modulus less 11
/// bytes.
pub uninterp spec fn spec_rsa_accepts(public_key: Seq<u8>, message_len: nat) -> bool;

/// RSA encryption with PKCS#1 v1.5 padding by
/// `rsa_public_encrypt_pkcs1::encrypt`, under a DER-encoded public key.
///
/// Keys on which the crate can panic (a modulus under 88 bits, which
/// underflows `k - 11`, or a negative exponent, which `modpow` refuses) are
/// left out. Whether the call succeeds then depends on the key and the
/// message's length alone (the padding does not decide it); for a key in the
/// standard layout it succeeds exactly when the message is at most the
/// modulus's bytes less 11, the modulus having one byte fewer than its DER
/// contents. What it returns is a ciphertext of the message under the key;
/// the padding is random, so which one is not claimed.
#[verifier::external_body]
fn rsa_encrypt(public_key: &[u8], message: &[u8]) -> (res: Result<Vec<u8>, String>)
    requires
        spec_rsa_call_safe(public_key@),
    ensures
        res is Ok <==> spec_rsa_accepts(public_key@, message@.len()),
        spec_rsa_modulus_len(public_key@) matches Some(l) ==> (res is Ok <==> message@.len() + 12
            <= l),
        res matches Ok(c) ==> spec_rsa_pkcs1_encrypts(public_key@, message@, c@),
{
    rsa_public_encrypt_pkcs1::encrypt(public_key, message)
}

/// The server's key is one the client uses for a message of `len` bytes: it
/// cannot make the RSA call panic, and the call accepts the message.
pub open spec fn rsa_key_takes(public_key: Seq<u8>, len: nat) -> bool {
    spec_rsa_call_safe(public_key) && spec_rsa_accepts(public_key, len)
}

/// Draws a random shared secret and encrypts it, and the server's challenge,
/// with the server's public key. `None` when the RSA call refuses either
/// message, or the key is one on which the call could panic.
///
/// The secret comes back as drawn, beside its ciphertext.
pub fn try_encrypt(public_key: &[u8], challenge: &[u8]) -> (res: Option<EncryptResult>)
    ensures
        res is Some <==> rsa_key_takes(public_key@, 16) && rsa_key_takes(public_key@, challenge@.len()),
        res matches Some(r) ==> spec_rsa_pkcs1_encrypts(
            public_key@,
            r.secret_key@,
            r.encrypted_public_key@,
        ) && spec_rsa_pkcs1_encrypts(public_key@, challenge@, r.encrypted_challenge@),
{
    if !rsa_call_is_safe(public_key) {
        return None;
    }
    let secret_key = generate_secret_key();
    let encrypted_public_key = match rsa_encrypt(public_key, secret_key.as_slice()) {
        Ok(v) => v,
        Err(_) => return None,
    };
    let encrypted_challenge = match rsa_encrypt(public_key, challenge) {
        Ok(v) => v,
        Err(_) => return None,
    };
    Some(EncryptResult { secret_key, encrypted_public_key, encrypted_challenge })
}

} // verus!
