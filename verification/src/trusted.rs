//! The boundary of the verified code: every call into another crate is made
//! here, in a function whose body Verus does not read and whose contract it
//! assumes. Each doc comment names the function called and says what is
//! assumed of it.

use vstd::prelude::*;
use crate::types::be_bytes;

verus! {

/// Calls `chrono::Utc::now().timestamp()`: the current time in seconds since
/// the Unix epoch. Nothing is assumed of the value.
#[verifier::external_body]
pub(crate) fn unix_now() -> (secs: i64) {
    chrono::Utc::now().timestamp()
}

/// Calls `uuid::Uuid::new_v4().as_u128()`: a random 128-bit identifier.
/// Nothing is assumed of the value.
#[verifier::external_body]
pub(crate) fn random_id() -> (id: u128) {
    uuid::Uuid::new_v4().as_u128()
}

/// Calls `zeroize::Zeroize::zeroize` on the buffer, which overwrites its
/// bytes with zeros and then truncates it: afterwards the buffer is empty.
/// It neither panics nor touches shared state.
#[verifier::external_body]
pub(crate) fn wipe_bytes(buffer: &mut Vec<u8>)
    ensures
        final(buffer)@.len() == 0,
    opens_invariants none
    no_unwind
{
    zeroize::Zeroize::zeroize(buffer);
}

/// The lowercase hexadecimal digit for a value below sixteen.
pub open spec fn hex_digit(nibble: u8) -> char {
    if nibble < 10 {
        (48 + nibble) as u8 as char
    } else {
        (87 + nibble) as u8 as char
    }
}

/// The lowercase hexadecimal text of a sequence of bytes: two digits for each
/// byte, the high half first.
pub open spec fn hex_text(bytes: Seq<u8>) -> Seq<char> {
    Seq::new(
        2 * bytes.len(),
        |i: int|
            if i % 2 == 0 {
                hex_digit(bytes[i / 2] / 16)
            } else {
                hex_digit(bytes[i / 2] % 16)
            },
    )
}

/// The value of one hexadecimal digit given as an ASCII byte, in either case.
pub open spec fn hex_value(c: u8) -> Option<u8> {
    if 48 <= c <= 57 {
        Some((c - 48) as u8)
    } else if 97 <= c <= 102 {
        Some((c - 87) as u8)
    } else if 65 <= c <= 70 {
        Some((c - 55) as u8)
    } else {
        None
    }
}

/// The bytes that a hexadecimal text spells, if it has an even length and
/// holds hexadecimal digits only.
pub open spec fn hex_bytes(text: Seq<u8>) -> Option<Seq<u8>> {
    if text.len() % 2 == 0 && (forall|i: int| 0 <= i < text.len() ==> hex_value(#[trigger] text[i]).is_some()) {
        Some(
            Seq::new(
                text.len() / 2,
                |i: int| (hex_value(text[2 * i]).unwrap() * 16 + hex_value(text[2 * i + 1]).unwrap()) as u8,
            ),
        )
    } else {
        None
    }
}

/// Calls `zeroize::Zeroize::zeroize` on the array, which overwrites every
/// byte with zero. It neither panics nor touches shared state.
#[verifier::external_body]
pub(crate) fn wipe_array(buffer: &mut [u8; 32])
    ensures
        forall|i: int| 0 <= i < 32 ==> #[trigger] final(buffer)@[i] == 0u8,
    opens_invariants none
    no_unwind
{
    zeroize::Zeroize::zeroize(buffer);
}

/// Calls `rand::RngCore::fill_bytes` on `rand::rngs::OsRng`: `count` bytes
/// from the operating system's random source. Only the length is assumed.
#[verifier::external_body]
pub(crate) fn random_bytes(count: usize) -> (bytes: Vec<u8>)
    ensures
        bytes@.len() == count,
{
    let mut bytes = vec![0u8; count];
    rand::RngCore::fill_bytes(&mut rand::rngs::OsRng, &mut bytes);
    bytes
}

/// What `argon2::PasswordHasher::hash_password` yields for Argon2id, version
/// 0x13, with the given password, salt, memory in KiB, passes, lanes and
/// output length; `None` where it reports an error.
pub uninterp spec fn argon2id(
    password: Seq<u8>,
    salt: Seq<u8>,
    m_cost: u32,
    t_cost: u32,
    p_cost: u32,
    len: usize,
) -> Option<Seq<u8>>;

/// The least number of salt bytes that can be handed to the hasher: fewer
/// encode to a salt string that it refuses to borrow.
pub const SALT_FLOOR: usize = 3;

/// Calls `argon2::Params::new`, `argon2::Argon2::new` for Argon2id version
/// 0x13, `SaltString::encode_b64` and `PasswordHasher::hash_password`, and
/// takes the raw hash. Assumed: the outcome depends on the arguments alone,
/// and a hash has the length asked for. A salt of fewer than three bytes is
/// left out: its encoding is shorter than the four characters below which
/// `hash_password` panics.
#[verifier::external_body]
pub(crate) fn argon2id_hash(
    password: &[u8],
    salt: &[u8],
    m_cost: u32,
    t_cost: u32,
    p_cost: u32,
    len: usize,
) -> (hash: Option<Vec<u8>>)
    requires
        salt@.len() >= SALT_FLOOR,
    ensures
        hash.is_some() <==> argon2id(password@, salt@, m_cost, t_cost, p_cost, len).is_some(),
        hash matches Some(h) ==> h@ == argon2id(password@, salt@, m_cost, t_cost, p_cost, len).unwrap()
            && h@.len() == len,
{
    let params = argon2::Params::new(m_cost, t_cost, p_cost, Some(len)).ok()?;
    let hasher = argon2::Argon2::new(argon2::Algorithm::Argon2id, argon2::Version::V0x13, params);
    let salt = argon2::password_hash::SaltString::encode_b64(salt).ok()?;
    let hash = argon2::PasswordHasher::hash_password(&hasher, password, &salt).ok()?;
    Some(hash.hash?.as_bytes().to_vec())
}

/// The output of HKDF with SHA-256 and no salt: extract from `ikm`, then
/// expand under `info` to `len` bytes.
pub uninterp spec fn hkdf_sha256(ikm: Seq<u8>, info: Seq<u8>, len: usize) -> Seq<u8>;

/// The output of HKDF with SHA-512 and no salt: extract from `ikm`, then
/// expand under `info` to `len` bytes.
pub uninterp spec fn hkdf_sha512(ikm: Seq<u8>, info: Seq<u8>, len: usize) -> Seq<u8>;

/// Calls `hkdf::Hkdf::<sha2::Sha256>::new(None, ikm)` and `expand`. Assumed:
/// `expand` fails exactly when more than 255 blocks of 32 bytes are asked
/// for, and otherwise fills `len` bytes that depend on the arguments alone.
#[verifier::external_body]
pub(crate) fn hkdf_sha256_expand(ikm: &[u8], info: &[u8], len: usize) -> (okm: Option<Vec<u8>>)
    ensures
        okm.is_some() <==> len <= 255 * 32,
        okm matches Some(k) ==> k@ == hkdf_sha256(ikm@, info@, len) && k@.len() == len,
{
    let mut okm = vec![0u8; len];
    hkdf::Hkdf::<sha2::Sha256>::new(None, ikm).expand(info, &mut okm).ok()?;
    Some(okm)
}

/// Calls `hkdf::Hkdf::<sha2::Sha512>::new(None, ikm)` and `expand`. Assumed:
/// `expand` fails exactly when more than 255 blocks of 64 bytes are asked
/// for, and otherwise fills `len` bytes that depend on the arguments alone.
#[verifier::external_body]
pub(crate) fn hkdf_sha512_expand(ikm: &[u8], info: &[u8], len: usize) -> (okm: Option<Vec<u8>>)
    ensures
        okm.is_some() <==> len <= 255 * 64,
        okm matches Some(k) ==> k@ == hkdf_sha512(ikm@, info@, len) && k@.len() == len,
{
    let mut okm = vec![0u8; len];
    hkdf::Hkdf::<sha2::Sha512>::new(None, ikm).expand(info, &mut okm).ok()?;
    Some(okm)
}

/// The BLAKE3 digest of the data: 32 bytes.
pub uninterp spec fn blake3_digest(data: Seq<u8>) -> Seq<u8>;

/// Calls `blake3::Hasher::new`, `update` and `finalize`. Assumed: 32 bytes
/// that depend on the data alone.
#[verifier::external_body]
pub(crate) fn blake3_hash(data: &[u8]) -> (digest: [u8; 32])
    ensures
        digest@ == blake3_digest(data@),
{
    let mut hasher = blake3::Hasher::new();
    hasher.update(data);
    *hasher.finalize().as_bytes()
}

/// The SHA-256 digest of the data.
pub uninterp spec fn sha256_digest(data: Seq<u8>) -> Seq<u8>;

/// Calls `sha2::Sha256::digest`. Assumed: 32 bytes that depend on the data alone.
#[verifier::external_body]
pub(crate) fn sha256(data: &[u8]) -> (digest: Vec<u8>)
    ensures
        digest@ == sha256_digest(data@),
        digest@.len() == 32,
{
    <sha2::Sha256 as sha2::Digest>::digest(data).to_vec()
}

/// The public key that belongs to a 32-byte Ed25519 secret key.
pub uninterp spec fn ed25519_public_key(secret: Seq<u8>) -> Seq<u8>;

/// The Ed25519 signature of the message under a 32-byte secret key.
pub uninterp spec fn ed25519_signature(secret: Seq<u8>, message: Seq<u8>) -> Seq<u8>;

/// Whether 32 bytes decode to a point of the curve, so that they can serve
/// as an Ed25519 public key.
pub uninterp spec fn ed25519_key_decodes(public: Seq<u8>) -> bool;

/// Whether the 64-byte signature passes strict verification for the message
/// under the public key.
pub uninterp spec fn ed25519_strictly_valid(public: Seq<u8>, message: Seq<u8>, signature: Seq<u8>) -> bool;

/// Calls `ed25519_dalek::SigningKey::from_bytes` and `verifying_key`.
/// Assumed: 32 bytes that depend on the secret key alone, and that decode
/// as a public key again, being the compressed form of a point of the curve.
#[verifier::external_body]
pub(crate) fn ed25519_public(secret: &[u8]) -> (public: Vec<u8>)
    requires
        secret@.len() == 32,
    ensures
        public@ == ed25519_public_key(secret@),
        public@.len() == 32,
        ed25519_key_decodes(public@),
{
    let mut key = [0u8; 32];
    key.copy_from_slice(secret);
    ed25519_dalek::SigningKey::from_bytes(&key).verifying_key().to_bytes().to_vec()
}

/// Calls `ed25519_dalek::SigningKey::from_bytes` and `Signer::sign`.
/// Assumed: 64 bytes that depend on secret key and message alone.
#[verifier::external_body]
pub(crate) fn ed25519_sign(secret: &[u8], message: &[u8]) -> (signature: Vec<u8>)
    requires
        secret@.len() == 32,
    ensures
        signature@ == ed25519_signature(secret@, message@),
        signature@.len() == 64,
{
    let mut key = [0u8; 32];
    key.copy_from_slice(secret);
    let signature = ed25519_dalek::Signer::sign(&ed25519_dalek::SigningKey::from_bytes(&key), message);
    signature.to_bytes().to_vec()
}

/// Calls `ed25519_dalek::VerifyingKey::from_bytes` and `verify_strict`.
/// `None` where the public key does not decode; otherwise whether the
/// signature passes strict verification. Assumed: both depend on the
/// arguments alone.
#[verifier::external_body]
pub(crate) fn ed25519_verify_strict(public: &[u8], message: &[u8], signature: &[u8]) -> (valid: Option<bool>)
    requires
        public@.len() == 32,
        signature@.len() == 64,
    ensures
        valid.is_some() <==> ed25519_key_decodes(public@),
        valid matches Some(v) ==> v == ed25519_strictly_valid(public@, message@, signature@),
{
    let mut key = [0u8; 32];
    key.copy_from_slice(public);
    let mut bytes = [0u8; 64];
    bytes.copy_from_slice(signature);
    let key = ed25519_dalek::VerifyingKey::from_bytes(&key).ok()?;
    Some(key.verify_strict(message, &ed25519_dalek::Signature::from_bytes(&bytes)).is_ok())
}

/// The X25519 function of a 32-byte scalar and a 32-byte point.
pub uninterp spec fn x25519_product(scalar: Seq<u8>, point: Seq<u8>) -> Seq<u8>;

/// The X25519 base point: the byte 9 followed by 31 zero bytes.
pub open spec fn x25519_basepoint() -> Seq<u8> {
    Seq::new(32, |i: int| if i == 0 { 9u8 } else { 0u8 })
}

/// Calls `x25519_dalek::x25519`. Assumed: 32 bytes that depend on scalar and
/// point alone; and, for the base point, that the result is a public key
/// with which any other scalar arrives at the secret that this scalar shares
/// with the other's public key.
#[verifier::external_body]
pub(crate) fn x25519(scalar: &[u8], point: &[u8]) -> (product: Vec<u8>)
    requires
        scalar@.len() == 32,
        point@.len() == 32,
    ensures
        product@ == x25519_product(scalar@, point@),
        product@.len() == 32,
        point@ == x25519_basepoint() ==> forall|other: Seq<u8>|
            other.len() == 32 ==> #[trigger] x25519_product(other, product@) == x25519_product(
                scalar@,
                x25519_product(other, x25519_basepoint()),
            ),
{
    let mut k = [0u8; 32];
    k.copy_from_slice(scalar);
    let mut u = [0u8; 32];
    u.copy_from_slice(point);
    x25519_dalek::x25519(k, u).to_vec()
}

/// What ChaCha20-Poly1305 encryption yields for a 32-byte key, a 12-byte
/// nonce and a plaintext, without associated data: the ciphertext followed by
/// its 16-byte tag; `None` where the plaintext is too long.
pub uninterp spec fn chacha20poly1305_sealed(key: Seq<u8>, nonce: Seq<u8>, plaintext: Seq<u8>) -> Option<Seq<u8>>;

/// What ChaCha20-Poly1305 decryption yields for a 32-byte key, a 12-byte
/// nonce and a ciphertext with its tag: the plaintext, or `None` where the
/// tag does not match.
pub uninterp spec fn chacha20poly1305_opened(key: Seq<u8>, nonce: Seq<u8>, sealed: Seq<u8>) -> Option<Seq<u8>>;

/// Whether a plaintext of `len` bytes can be sealed under one nonce: it
/// must have fewer than 2^32 - 1 whole blocks of 64 bytes.
pub open spec fn sealable(len: nat) -> bool {
    len / 64 < u32::MAX
}

/// Calls `chacha20poly1305::ChaCha20Poly1305::new` and `Aead::encrypt`.
/// Assumed: sealing is refused exactly where the plaintext has 2^32 - 1
/// whole blocks of 64 bytes or more; the outcome depends on the arguments
/// alone; what was sealed is the ciphertext, as long as the plaintext, with
/// its tag of 16 bytes; and it opens again to the plaintext under the same
/// key and nonce.
#[verifier::external_body]
pub(crate) fn aead_seal(key: &[u8], nonce: &[u8], plaintext: &[u8]) -> (sealed: Option<Vec<u8>>)
    requires
        key@.len() == 32,
        nonce@.len() == 12,
    ensures
        sealed.is_some() <==> sealable(plaintext@.len()),
        sealed.is_some() <==> chacha20poly1305_sealed(key@, nonce@, plaintext@).is_some(),
        sealed matches Some(c) ==> c@ == chacha20poly1305_sealed(key@, nonce@, plaintext@).unwrap()
            && c@.len() == plaintext@.len() + 16 && chacha20poly1305_opened(key@, nonce@, c@) == Some(plaintext@),
{
    let cipher = <chacha20poly1305::ChaCha20Poly1305 as chacha20poly1305::KeyInit>::new_from_slice(key).ok()?;
    chacha20poly1305::aead::Aead::encrypt(&cipher, chacha20poly1305::Nonce::from_slice(nonce), plaintext).ok()
}

/// Calls `chacha20poly1305::ChaCha20Poly1305::new` and `Aead::decrypt`.
/// Assumed: the outcome depends on the arguments alone.
#[verifier::external_body]
pub(crate) fn aead_open(key: &[u8], nonce: &[u8], sealed: &[u8]) -> (plaintext: Option<Vec<u8>>)
    requires
        key@.len() == 32,
        nonce@.len() == 12,
    ensures
        plaintext.is_some() <==> chacha20poly1305_opened(key@, nonce@, sealed@).is_some(),
        plaintext matches Some(p) ==> p@ == chacha20poly1305_opened(key@, nonce@, sealed@).unwrap(),
{
    let cipher = <chacha20poly1305::ChaCha20Poly1305 as chacha20poly1305::KeyInit>::new_from_slice(key).ok()?;
    chacha20poly1305::aead::Aead::decrypt(&cipher, chacha20poly1305::Nonce::from_slice(nonce), sealed).ok()
}

/// The length of a Kyber1024 public key.
pub const KYBER_PUBLIC_LEN: usize = 1568;

/// The length of a Kyber1024 secret key.
pub const KYBER_SECRET_LEN: usize = 3168;

/// The length of a Kyber1024 ciphertext.
pub const KYBER_CIPHERTEXT_LEN: usize = 1568;

/// The length of a Kyber1024 shared secret.
pub const KYBER_SHARED_LEN: usize = 32;

/// The shared secret that Kyber1024 decapsulation yields for a ciphertext
/// and a secret key.
pub uninterp spec fn kyber1024_decapsulated(ciphertext: Seq<u8>, secret: Seq<u8>) -> Seq<u8>;

/// Calls `pqcrypto_kyber::kyber1024::keypair`: a fresh public key and secret
/// key. Only the lengths are assumed.
#[verifier::external_body]
pub(crate) fn kyber_keypair() -> (pair: (Vec<u8>, Vec<u8>))
    ensures
        pair.0@.len() == KYBER_PUBLIC_LEN,
        pair.1@.len() == KYBER_SECRET_LEN,
{
    let (public, secret) = pqcrypto_kyber::kyber1024::keypair();
    (
        pqcrypto_traits::kem::PublicKey::as_bytes(&public).to_vec(),
        pqcrypto_traits::kem::SecretKey::as_bytes(&secret).to_vec(),
    )
}

/// Calls `PublicKey::from_bytes` and `pqcrypto_kyber::kyber1024::encapsulate`:
/// a fresh shared secret and the ciphertext that carries it. Assumed: it
/// fails exactly on a public key of the wrong length; the lengths of what it
/// yields.
#[verifier::external_body]
pub(crate) fn kyber_encapsulate(public: &[u8]) -> (made: Option<(Vec<u8>, Vec<u8>)>)
    ensures
        made.is_some() <==> public@.len() == KYBER_PUBLIC_LEN,
        made matches Some(pair) ==> pair.0@.len() == KYBER_SHARED_LEN && pair.1@.len() == KYBER_CIPHERTEXT_LEN,
{
    let key = <pqcrypto_kyber::kyber1024::PublicKey as pqcrypto_traits::kem::PublicKey>::from_bytes(public).ok()?;
    let (shared, ciphertext) = pqcrypto_kyber::kyber1024::encapsulate(&key);
    Some((
        pqcrypto_traits::kem::SharedSecret::as_bytes(&shared).to_vec(),
        pqcrypto_traits::kem::Ciphertext::as_bytes(&ciphertext).to_vec(),
    ))
}

/// Calls `Ciphertext::from_bytes`, `SecretKey::from_bytes` and
/// `pqcrypto_kyber::kyber1024::decapsulate`. Assumed: it fails exactly on a
/// ciphertext or secret key of the wrong length, and otherwise yields 32
/// bytes that depend on the arguments alone.
#[verifier::external_body]
pub(crate) fn kyber_decapsulate(ciphertext: &[u8], secret: &[u8]) -> (agreed: Option<Vec<u8>>)
    ensures
        agreed.is_some() <==> (ciphertext@.len() == KYBER_CIPHERTEXT_LEN && secret@.len() == KYBER_SECRET_LEN),
        agreed matches Some(s) ==> s@ == kyber1024_decapsulated(ciphertext@, secret@) && s@.len()
            == KYBER_SHARED_LEN,
{
    let ct = <pqcrypto_kyber::kyber1024::Ciphertext as pqcrypto_traits::kem::Ciphertext>::from_bytes(ciphertext).ok()?;
    let sk = <pqcrypto_kyber::kyber1024::SecretKey as pqcrypto_traits::kem::SecretKey>::from_bytes(secret).ok()?;
    let shared = pqcrypto_kyber::kyber1024::decapsulate(&ct, &sk);
    Some(pqcrypto_traits::kem::SharedSecret::as_bytes(&shared).to_vec())
}

/// The standard base64 text of the bytes, with padding.
pub uninterp spec fn base64_text(bytes: Seq<u8>) -> Seq<char>;

/// The bytes that a standard base64 text spells; `None` where it is not
/// valid base64.
pub uninterp spec fn base64_bytes(text: Seq<char>) -> Option<Seq<u8>>;

/// Calls `base64::encode`. Assumed: the text depends on the bytes alone and
/// decodes to them again.
#[verifier::external_body]
#[allow(deprecated)]
pub(crate) fn base64_encode(bytes: &[u8]) -> (text: String)
    ensures
        text@ == base64_text(bytes@),
        base64_bytes(text@) == Some(bytes@),
{
    base64::encode(bytes)
}

/// Calls `base64::decode`. Assumed: the outcome depends on the text alone.
#[verifier::external_body]
#[allow(deprecated)]
pub(crate) fn base64_decode(text: &str) -> (bytes: Option<Vec<u8>>)
    ensures
        bytes.is_some() <==> base64_bytes(text@).is_some(),
        bytes matches Some(b) ==> b@ == base64_bytes(text@).unwrap(),
{
    base64::decode(text).ok()
}

/// The JSON text that stands for a list of strings.
pub uninterp spec fn json_text(list: Seq<Seq<char>>) -> Seq<char>;

/// The list of strings that a JSON text stands for; `None` where the text is
/// not a JSON array of strings.
pub uninterp spec fn json_list(text: Seq<char>) -> Option<Seq<Seq<char>>>;

/// The texts of a list of strings.
pub open spec fn texts(list: Seq<String>) -> Seq<Seq<char>> {
    Seq::new(list.len(), |i: int| list[i]@)
}

/// Calls `serde_json::to_string` on a list of strings. Assumed: writing a
/// list of strings does not fail, since neither documented cause can occur
/// (an implementation of `Serialize` that fails, a map whose keys are not
/// strings); the text depends on the list alone, and reads back as the same
/// list.
#[verifier::external_body]
pub(crate) fn json_encode(list: &Vec<String>) -> (text: String)
    ensures
        text@ == json_text(texts(list@)),
        json_list(text@) == Some(texts(list@)),
{
    serde_json::to_string(list).unwrap_or_default()
}

/// Calls `serde_json::from_str` for a list of strings. Assumed: the outcome
/// depends on the text alone.
#[verifier::external_body]
pub(crate) fn json_decode(text: &str) -> (list: Option<Vec<String>>)
    ensures
        list.is_some() <==> json_list(text@).is_some(),
        list matches Some(l) ==> texts(l@) == json_list(text@).unwrap(),
{
    serde_json::from_str::<Vec<String>>(text).ok()
}


/// Calls `String::from_utf8`. Assumed, as its documentation says: it
/// succeeds exactly on valid UTF-8, and the string then holds the
/// characters that the bytes encode.
#[verifier::external_body]
pub(crate) fn string_from_utf8(bytes: Vec<u8>) -> (text: Option<String>)
    ensures
        text.is_some() <==> vstd::utf8::valid_utf8(bytes@),
        text matches Some(s) ==> s@ == vstd::utf8::decode_utf8(bytes@),
{
    String::from_utf8(bytes).ok()
}


/// The text of a 128-bit identifier in the usual form of a UUID: the
/// sixteen bytes, most significant first, as 32 lowercase hexadecimal digits
/// in groups of 8, 4, 4, 4 and 12, with hyphens between.
pub open spec fn uuid_text(id: u128) -> Seq<char> {
    let bytes = be_bytes(id);
    hex_text(bytes.subrange(0, 4)) + seq!['-'] + hex_text(bytes.subrange(4, 6)) + seq!['-'] + hex_text(
        bytes.subrange(6, 8),
    ) + seq!['-'] + hex_text(bytes.subrange(8, 10)) + seq!['-'] + hex_text(bytes.subrange(10, 16))
}

/// The 128-bit identifier that a text spells as a UUID; `None` where the
/// text spells none.
pub uninterp spec fn uuid_value(text: Seq<char>) -> Option<u128>;

/// Calls `uuid::Uuid::from_u128` and `to_string`. Assumed: the text is the
/// hyphenated lowercase form, and is read back as the identifier.
#[verifier::external_body]
pub(crate) fn uuid_to_string(id: u128) -> (text: String)
    ensures
        text@ == uuid_text(id),
        uuid_value(text@) == Some(id),
{
    uuid::Uuid::from_u128(id).to_string()
}

/// Calls `uuid::Uuid::parse_str` and `as_u128`. Assumed: the outcome
/// depends on the text alone.
#[verifier::external_body]
pub(crate) fn uuid_parse(text: &str) -> (id: Option<u128>)
    ensures
        id == uuid_value(text@),
{
    match uuid::Uuid::parse_str(text) {
        Ok(parsed) => Some(parsed.as_u128()),
        Err(_) => None,
    }
}

} // verus!
