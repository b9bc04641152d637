//! Identities: keypairs, personas and contact cards.
//!
//! A person may keep several identities, so that what is known of one does
//! not lead to the others.

use vstd::prelude::*;
use vstd::string::StringSliceAdditionalSpecFns;
use crate::crypto::keys::{derive_master_key, derive_master_key_salted, spec_master_key};
use crate::error::{Error, ErrorKind};
use crate::text::{append_bytes, array32, join_bytes, slice_bytes};
use crate::trusted::{
    aead_open, aead_seal, chacha20poly1305_opened, chacha20poly1305_sealed, ed25519_key_decodes, ed25519_public_key,
    ed25519_signature, ed25519_strictly_valid, random_bytes, sealable, string_from_utf8, x25519_product,
    KYBER_PUBLIC_LEN, KYBER_SECRET_LEN,
};
use crate::types::{coarsen, spec_verification_word, CoarseTimestamp, Fingerprint, PersonId};
use crate::wire::{
    be_encode, blob_bytes, lemma_parse_be, lemma_parse_blob, lemma_parse_option_blob, lemma_parse_raw,
    lemma_pow256_values, option_blob_bytes, parse_be, parse_blob, parse_option_blob, parse_raw, put_be, put_blob,
    put_option_blob, Reader,
};

pub mod keypair;
pub mod persona;
pub mod qr;

pub use keypair::{EncryptionKey, IdentityKeypair, SigningKey};
pub use persona::{PersonaBuilder, PersonaManager, PersonaSummary};
pub use qr::{ContactCard, ContactQR};

verus! {

/// The length of the salt at the front of a backup.
pub const BACKUP_SALT_LEN: usize = 32;

/// The length of the nonce that follows the salt.
pub const BACKUP_NONCE_LEN: usize = 12;

/// An identity with its keypairs.
#[derive(Clone)]
pub struct Identity {
    /// Identifies the person.
    pub id: PersonId,
    /// Display name; may be a pseudonym.
    pub name: String,
    /// The keys for signing and encryption.
    pub keypair: IdentityKeypair,
    /// The fingerprint of the public signing key.
    pub fingerprint: Fingerprint,
    /// When the identity was created.
    pub created_at: CoarseTimestamp,
    /// Whether this is the primary identity.
    pub is_primary: bool,
    /// The descriptor of the identity's mailbox, once it has one.
    pub mailbox_descriptor: Option<Vec<u8>>,
}

/// What an identity holds, as plain values.
pub struct IdentityData {
    pub name: Seq<char>,
    pub id: u128,
    pub signing_secret: Seq<u8>,
    pub x25519_secret: Seq<u8>,
    pub kyber_public: Seq<u8>,
    pub kyber_secret: Seq<u8>,
    pub fingerprint: Seq<u8>,
    pub created_at: int,
    pub is_primary: bool,
    pub mailbox_descriptor: Option<Seq<u8>>,
}

impl View for Identity {
    type V = IdentityData;

    open spec fn view(&self) -> IdentityData {
        IdentityData {
            name: self.name@,
            id: self.id.0,
            signing_secret: self.keypair.spec_signing().secret(),
            x25519_secret: self.keypair.spec_encryption().secret(),
            kyber_public: self.keypair.spec_encryption().lattice_public(),
            kyber_secret: self.keypair.spec_encryption().lattice_secret(),
            fingerprint: self.fingerprint@,
            created_at: self.created_at@,
            is_primary: self.is_primary,
            mailbox_descriptor: match self.mailbox_descriptor {
                Some(descriptor) => Some(descriptor@),
                None => None,
            },
        }
    }
}

/// 1 for true, 0 for false.
pub open spec fn flag(value: bool) -> nat {
    if value {
        1
    } else {
        0
    }
}

/// The bytes of an identity, as they are sealed in a backup.
pub open spec fn identity_bytes(identity: IdentityData) -> Seq<u8> {
    blob_bytes(vstd::utf8::encode_utf8(identity.name)) + be_encode(identity.id as nat, 16) + identity.signing_secret
        + identity.x25519_secret + blob_bytes(identity.kyber_public) + blob_bytes(identity.kyber_secret)
        + identity.fingerprint + be_encode((identity.created_at + 0x8000_0000_0000_0000) as nat, 8) + be_encode(
        flag(identity.is_primary),
        1,
    ) + option_blob_bytes(identity.mailbox_descriptor)
}

/// The identity that the bytes hold, if they hold exactly one.
pub open spec fn parse_identity(bytes: Seq<u8>) -> Option<IdentityData> {
    match parse_blob(bytes) {
        Some((name, b1)) => match parse_be(b1, 16) {
            Some((id, b2)) => match parse_raw(b2, 32) {
                Some((signing_secret, b3)) => match parse_raw(b3, 32) {
                    Some((x25519_secret, b4)) => match parse_blob(b4) {
                        Some((kyber_public, b5)) => match parse_blob(b5) {
                            Some((kyber_secret, b6)) => match parse_raw(b6, 32) {
                                Some((fingerprint, b7)) => match parse_be(b7, 8) {
                                    Some((created, b8)) => match parse_be(b8, 1) {
                                        Some((primary, b9)) => match parse_option_blob(b9) {
                                            Some((mailbox_descriptor, rest)) => if rest.len() == 0
                                                && vstd::utf8::valid_utf8(name) && kyber_public.len()
                                                == KYBER_PUBLIC_LEN && kyber_secret.len() == KYBER_SECRET_LEN
                                                && primary <= 1 {
                                                Some(
                                                    IdentityData {
                                                        name: vstd::utf8::decode_utf8(name),
                                                        id: id as u128,
                                                        signing_secret,
                                                        x25519_secret,
                                                        kyber_public,
                                                        kyber_secret,
                                                        fingerprint,
                                                        created_at: coarsen(created - 0x8000_0000_0000_0000),
                                                        is_primary: primary == 1,
                                                        mailbox_descriptor,
                                                    },
                                                )
                                            } else {
                                                None
                                            },
                                            None => None,
                                        },
                                        None => None,
                                    },
                                    None => None,
                                },
                                None => None,
                            },
                            None => None,
                        },
                        None => None,
                    },
                    None => None,
                },
                None => None,
            },
            None => None,
        },
        None => None,
    }
}

/// Whether the identity is as its keys and its timestamp require, and every
/// part is short enough to be written.
pub open spec fn identity_fits(identity: IdentityData) -> bool {
    &&& vstd::utf8::encode_utf8(identity.name).len() <= u32::MAX
    &&& identity.signing_secret.len() == 32
    &&& identity.x25519_secret.len() == 32
    &&& identity.kyber_public.len() == KYBER_PUBLIC_LEN
    &&& identity.kyber_secret.len() == KYBER_SECRET_LEN
    &&& identity.fingerprint.len() == 32
    &&& i64::MIN <= identity.created_at <= i64::MAX
    &&& identity.created_at % 300 == 0
    &&& (identity.mailbox_descriptor matches Some(descriptor) ==> descriptor.len() <= u32::MAX)
}

/// An identity that was written is read back as it was.
#[verifier::rlimit(60)]
#[verifier::spinoff_prover]
pub proof fn lemma_identity_round_trip(identity: IdentityData)
    requires
        identity_fits(identity),
    ensures
        parse_identity(identity_bytes(identity)) == Some(identity),
{
    let name = vstd::utf8::encode_utf8(identity.name);
    let created = (identity.created_at + 0x8000_0000_0000_0000) as nat;
    let t9 = option_blob_bytes(identity.mailbox_descriptor);
    let t8 = be_encode(flag(identity.is_primary), 1) + t9;
    let t7 = be_encode(created, 8) + t8;
    let t6 = identity.fingerprint + t7;
    let t5 = blob_bytes(identity.kyber_secret) + t6;
    let t4 = blob_bytes(identity.kyber_public) + t5;
    let t3 = identity.x25519_secret + t4;
    let t2 = identity.signing_secret + t3;
    let t1 = be_encode(identity.id as nat, 16) + t2;
    assert(identity_bytes(identity) =~= blob_bytes(name) + t1);
    lemma_pow256_values();
    lemma_parse_blob(name, t1);
    lemma_parse_be(identity.id as nat, 16, t2);
    lemma_parse_raw(identity.signing_secret, t3);
    lemma_parse_raw(identity.x25519_secret, t4);
    lemma_parse_blob(identity.kyber_public, t5);
    lemma_parse_blob(identity.kyber_secret, t6);
    lemma_parse_raw(identity.fingerprint, t7);
    lemma_parse_be(created, 8, t8);
    lemma_parse_be(flag(identity.is_primary), 1, t9);
    lemma_parse_option_blob(identity.mailbox_descriptor, Seq::<u8>::empty());
    assert(t9 =~= option_blob_bytes(identity.mailbox_descriptor) + Seq::<u8>::empty());
    vstd::utf8::encode_utf8_valid_utf8(identity.name);
    vstd::utf8::encode_utf8_decode_utf8(identity.name);
}

/// What a backup holds once the password has opened it; why it does not
/// open otherwise.
pub enum Restored {
    /// The backup is too short to hold salt and nonce.
    TooShort,
    /// The key could not be derived, or the password is wrong, or the backup
    /// was changed.
    Locked,
    /// What was sealed is not an identity.
    Garbled,
    /// The identity.
    Opened(IdentityData),
}

/// What the backup holds for the password.
pub open spec fn spec_restore(backup: Seq<u8>, password: Seq<u8>) -> Restored {
    if backup.len() < BACKUP_SALT_LEN + BACKUP_NONCE_LEN {
        Restored::TooShort
    } else {
        match spec_master_key(password, backup.subrange(0, BACKUP_SALT_LEN as int)) {
            Some(key) => match chacha20poly1305_opened(
                key,
                backup.subrange(BACKUP_SALT_LEN as int, BACKUP_SALT_LEN + BACKUP_NONCE_LEN),
                backup.subrange(BACKUP_SALT_LEN + BACKUP_NONCE_LEN, backup.len() as int),
            ) {
                Some(plain) => match parse_identity(plain) {
                    Some(identity) => Restored::Opened(identity),
                    None => Restored::Garbled,
                },
                None => Restored::Locked,
            },
            None => Restored::Locked,
        }
    }
}

/// Whether the outcome is that of backing the identity up under the
/// password when `salt` and `nonce` are drawn: a backup is made exactly
/// where the identity can be written, the password gives a key with the
/// salt, and the written identity can be sealed; and it is the salt, the
/// nonce, then the identity sealed under that key and nonce.
pub open spec fn backed_up_with(
    identity: Identity,
    password: Seq<u8>,
    salt: Seq<u8>,
    nonce: Seq<u8>,
    backup: Result<Vec<u8>, Error>,
) -> bool {
    &&& salt.len() == BACKUP_SALT_LEN
    &&& nonce.len() == BACKUP_NONCE_LEN
    &&& backup.is_ok() <==> identity_fits(identity@) && spec_master_key(password, salt).is_some() && sealable(
        identity_bytes(identity@).len(),
    )
    &&& backup matches Ok(b) ==> b@ == salt + nonce + chacha20poly1305_sealed(
        spec_master_key(password, salt).unwrap(),
        nonce,
        identity_bytes(identity@),
    ).unwrap()
}

impl Identity {
    /// An identity with the given keypairs, created at time `created_at`. Its
    /// fingerprint is that of the signing key, and it has no mailbox yet.
    pub fn with_keypair(id: PersonId, name: &str, keypair: IdentityKeypair, is_primary: bool, created_at: CoarseTimestamp) -> (identity:
        Self)
        ensures
            identity.id == id,
            identity.name@ == name@,
            identity.keypair == keypair,
            identity.fingerprint@ == crate::trusted::sha256_digest(keypair.spec_signing().public()),
            identity.created_at == created_at,
            identity.is_primary == is_primary,
            identity.mailbox_descriptor.is_none(),
    {
        let fingerprint = keypair.fingerprint();
        Identity { id, name: name.to_owned(), keypair, fingerprint, created_at, is_primary, mailbox_descriptor: None }
    }

    /// The identity that belongs to a seed, under a fresh identifier. The
    /// same seed gives the same signing key and fingerprint.
    pub fn from_seed(name: &str, seed: &[u8; 32], is_primary: bool) -> (identity: Result<Self, Error>)
        ensures
            identity matches Ok(i) && i.name@ == name@ && i.is_primary == is_primary && i.mailbox_descriptor.is_none()
                && i.keypair.spec_signing().public() == ed25519_public_key(
                crate::trusted::hkdf_sha512(seed@, keypair::signing_label(), 32),
            ) && i.fingerprint@ == crate::trusted::sha256_digest(i.keypair.spec_signing().public()),
            identity matches Ok(i) && keypair::seeded(i.keypair, seed@),
    {
        let keypair = match IdentityKeypair::from_seed(seed) {
            Ok(keypair) => keypair,
            Err(e) => {
                return Err(e);
            },
        };
        Ok(Self::with_keypair(PersonId::new(), name, keypair, is_primary, CoarseTimestamp::now()))
    }

    /// A new identity with fresh random keys, under a fresh identifier.
    pub fn generate(name: &str, is_primary: bool) -> (identity: Result<Self, Error>)
        ensures
            identity matches Ok(i) && i.name@ == name@ && i.is_primary == is_primary && i.mailbox_descriptor.is_none()
                && i.fingerprint@ == crate::trusted::sha256_digest(i.keypair.spec_signing().public()),
    {
        let keypair = match IdentityKeypair::generate() {
            Ok(keypair) => keypair,
            Err(e) => {
                return Err(e);
            },
        };
        Ok(Self::with_keypair(PersonId::new(), name, keypair, is_primary, CoarseTimestamp::now()))
    }

    /// The public signing key, 32 bytes.
    pub fn public_key_bytes(&self) -> (bytes: &[u8])
        ensures
            bytes@ == self.keypair.spec_signing().public(),
            bytes@.len() == 32,
    {
        self.keypair.signing_key().public_key_bytes()
    }

    /// The three words of the identity's fingerprint.
    pub fn verification_words(&self) -> (words: [&'static str; 3])
        ensures
            forall|k: int| 0 <= k < 3 ==> #[trigger] words@[k]@ == spec_verification_word(
                self.fingerprint.spec_word_index(k),
            ),
    {
        self.fingerprint.to_words()
    }

    /// Changes the name.
    pub fn set_name(&mut self, name: &str)
        ensures
            final(self).name@ == name@,
            *final(self) == (Identity { name: final(self).name, ..*old(self) }),
    {
        self.name = name.to_owned();
    }

    /// Binds the identity to its mailbox.
    pub fn bind_mailbox(&mut self, descriptor: Vec<u8>)
        ensures
            *final(self) == (Identity { mailbox_descriptor: Some(descriptor), ..*old(self) }),
    {
        self.mailbox_descriptor = Some(descriptor);
    }

    /// Signs the message with the identity's signing key.
    pub fn sign(&self, message: &[u8]) -> (signature: Result<Vec<u8>, Error>)
        ensures
            signature matches Ok(s) && s@ == ed25519_signature(self.keypair.spec_signing().secret(), message@)
                && s@.len() == 64,
    {
        self.keypair.signing_key().sign(message)
    }

    /// Whether the signature is a valid signature of the message under the
    /// identity's signing key; see [`SigningKey::verify`].
    pub fn verify(&self, message: &[u8], signature: &[u8]) -> (valid: Result<bool, Error>)
        ensures
            valid.is_ok() <==> signature@.len() == 64,
            ed25519_key_decodes(self.keypair.spec_signing().public()),
            valid matches Ok(v) ==> v == ed25519_strictly_valid(
                self.keypair.spec_signing().public(),
                message@,
                signature@,
            ),
            valid matches Err(e) ==> e.spec_kind() == ErrorKind::Crypto,
    {
        self.keypair.signing_key().verify(message, signature)
    }

    /// Seals the plaintext for the holder of `recipient_public_key`; see
    /// [`EncryptionKey::encrypt_for`].
    pub fn encrypt_for(&self, recipient_public_key: &[u8], plaintext: &[u8]) -> (sealed: Result<Vec<u8>, Error>)
        ensures
            sealed matches Err(e) ==> e.spec_kind() == ErrorKind::Crypto,
            sealed.is_ok() <==> recipient_public_key@.len() == 32 && sealable(plaintext@.len()),
            sealed matches Ok(out) ==> out@.len() >= 12 && out@ == keypair::framed(
                out@.take(12),
                chacha20poly1305_sealed(
                    x25519_product(self.keypair.spec_encryption().secret(), recipient_public_key@),
                    out@.take(12),
                    plaintext@,
                ).unwrap(),
            ),
            sealed matches Ok(out) ==> keypair::spec_open_framed(
                x25519_product(self.keypair.spec_encryption().secret(), recipient_public_key@),
                out@,
            ) == Some(plaintext@),
    {
        self.keypair.encryption_key().encrypt_for(recipient_public_key, plaintext)
    }

    /// Opens what the holder of `sender_public_key` sealed for this
    /// identity; see [`EncryptionKey::decrypt_from`].
    pub fn decrypt_from(&self, sender_public_key: &[u8], ciphertext: &[u8]) -> (opened: Result<Vec<u8>, Error>)
        ensures
            opened.is_ok() <==> sender_public_key@.len() == 32 && keypair::spec_open_framed(
                x25519_product(self.keypair.spec_encryption().secret(), sender_public_key@),
                ciphertext@,
            ).is_some(),
            opened matches Ok(p) ==> Some(p@) == keypair::spec_open_framed(
                x25519_product(self.keypair.spec_encryption().secret(), sender_public_key@),
                ciphertext@,
            ),
            opened matches Err(e) ==> e.spec_kind() == ErrorKind::Crypto,
    {
        self.keypair.encryption_key().decrypt_from(sender_public_key, ciphertext)
    }

    /// The bytes of the identity. An identity with a part too long to be
    /// written gives `None`.
    pub fn to_bytes(&self) -> (bytes: Option<Vec<u8>>)
        ensures
            bytes.is_some() <==> identity_fits(self@),
            bytes matches Some(b) ==> b@ == identity_bytes(self@),
    {
        let mut out: Vec<u8> = Vec::new();
        if !put_blob(&mut out, self.name.as_str().as_bytes()) {
            return None;
        }
        put_be(&mut out, self.id.0, 16);
        append_bytes(&mut out, self.keypair.signing_key().secret_key_bytes());
        append_bytes(&mut out, self.keypair.encryption_key().x25519_secret());
        let fits_public = put_blob(&mut out, self.keypair.encryption_key().kyber_public_key_bytes());
        let fits_secret = put_blob(&mut out, self.keypair.encryption_key().kyber_secret());
        append_bytes(&mut out, self.fingerprint.as_bytes().as_slice());
        put_be(&mut out, (self.created_at.as_secs() as i128 + 0x8000_0000_0000_0000) as u128, 8);
        put_be(&mut out, if self.is_primary { 1 } else { 0 }, 1);
        if !put_option_blob(&mut out, &self.mailbox_descriptor) {
            return None;
        }
        proof {
            assert(out@ =~= identity_bytes(self@));
        }
        Some(out)
    }

    /// The identity that the bytes hold, if they hold exactly one.
    pub fn from_bytes(bytes: &[u8]) -> (identity: Option<Self>)
        ensures
            identity.is_some() <==> parse_identity(bytes@).is_some(),
            identity matches Some(i) ==> Some(i@) == parse_identity(bytes@),
    {
        let mut reader = Reader::new(bytes);
        let name = match reader.take_blob() {
            Some(v) => v,
            None => {
                return None;
            },
        };
        let id = match reader.take_be(16) {
            Some(v) => v,
            None => {
                return None;
            },
        };
        let signing_secret = match reader.take_raw(32) {
            Some(v) => v,
            None => {
                return None;
            },
        };
        let x25519_secret = match reader.take_raw(32) {
            Some(v) => v,
            None => {
                return None;
            },
        };
        let kyber_public = match reader.take_blob() {
            Some(v) => v,
            None => {
                return None;
            },
        };
        let kyber_secret = match reader.take_blob() {
            Some(v) => v,
            None => {
                return None;
            },
        };
        let fingerprint = match reader.take_raw(32) {
            Some(v) => v,
            None => {
                return None;
            },
        };
        let created = match reader.take_be(8) {
            Some(v) => v,
            None => {
                return None;
            },
        };
        let primary = match reader.take_be(1) {
            Some(v) => v,
            None => {
                return None;
            },
        };
        let mailbox_descriptor = match reader.take_option_blob() {
            Some(v) => v,
            None => {
                return None;
            },
        };
        if !reader.is_done() || primary > 1 {
            return None;
        }
        let encryption = match EncryptionKey::from_parts(
            x25519_secret.as_slice(),
            kyber_public.as_slice(),
            kyber_secret.as_slice(),
        ) {
            Ok(key) => key,
            Err(e) => {
                return None;
            },
        };
        let name = match string_from_utf8(name) {
            Some(name) => name,
            None => {
                return None;
            },
        };
        let signing = match SigningKey::from_seed(&array32(signing_secret.as_slice())) {
            Ok(key) => key,
            Err(e) => {
                return None;
            },
        };
        proof {
            lemma_pow256_values();
        }
        Some(
            Identity {
                id: PersonId(id),
                name,
                keypair: IdentityKeypair::from_keys(signing, encryption),
                fingerprint: Fingerprint::new(array32(fingerprint.as_slice())),
                created_at: CoarseTimestamp::from_secs((created as i128 - 0x8000_0000_0000_0000) as i64),
                is_primary: primary == 1,
                mailbox_descriptor,
            },
        )
    }

    /// A backup of the identity, sealed under the password with the given
    /// salt and nonce: the salt, the nonce, then the sealed identity. The
    /// password opens it again to the same identity.
    pub fn export_encrypted_with(&self, password: &str, salt: &[u8; 32], nonce: &[u8]) -> (backup: Result<
        Vec<u8>,
        Error,
    >)
        ensures
            backup.is_ok() <==> nonce@.len() == BACKUP_NONCE_LEN && identity_fits(self@) && spec_master_key(
                password.spec_bytes(),
                salt@,
            ).is_some() && sealable(identity_bytes(self@).len()),
            backup.is_ok() <==> nonce@.len() == BACKUP_NONCE_LEN && identity_fits(self@) && (spec_master_key(
                password.spec_bytes(),
                salt@,
            ) matches Some(key) && chacha20poly1305_sealed(key, nonce@, identity_bytes(self@)).is_some()),
            backup matches Ok(b) ==> b@ == salt@ + nonce@ + chacha20poly1305_sealed(
                spec_master_key(password.spec_bytes(), salt@).unwrap(),
                nonce@,
                identity_bytes(self@),
            ).unwrap(),
            backup matches Ok(b) ==> spec_restore(b@, password.spec_bytes()) == Restored::Opened(self@),
            backup matches Err(e) ==> e.spec_kind() == ErrorKind::Crypto || e.spec_kind() == ErrorKind::Serialization,
    {
        if nonce.len() != BACKUP_NONCE_LEN {
            return Err(Error::Crypto("invalid nonce length".to_owned()));
        }
        let plain = match self.to_bytes() {
            Some(plain) => plain,
            None => {
                return Err(Error::Serialization("identity too long".to_owned()));
            },
        };
        let key = match derive_master_key(password, salt) {
            Ok(key) => key,
            Err(e) => {
                return Err(e);
            },
        };
        let sealed = match aead_seal(key.as_bytes().as_slice(), nonce, plain.as_slice()) {
            Some(sealed) => sealed,
            None => {
                return Err(Error::Crypto("encryption failed".to_owned()));
            },
        };
        let mut out = join_bytes(salt.as_slice(), nonce);
        append_bytes(&mut out, sealed.as_slice());
        proof {
            lemma_identity_round_trip(self@);
            assert(out@.subrange(0, BACKUP_SALT_LEN as int) =~= salt@);
            assert(out@.subrange(BACKUP_SALT_LEN as int, BACKUP_SALT_LEN + BACKUP_NONCE_LEN) =~= nonce@);
            assert(out@.subrange(BACKUP_SALT_LEN + BACKUP_NONCE_LEN, out@.len() as int) =~= sealed@);
        }
        Ok(out)
    }

    /// A backup of the identity, sealed under the password with a fresh
    /// random salt and nonce. The password opens it again to the same
    /// identity.
    pub fn export_encrypted(&self, password: &str) -> (backup: Result<Vec<u8>, Error>)
        ensures
            exists|salt: Seq<u8>, nonce: Seq<u8>| #[trigger]
                backed_up_with(*self, password.spec_bytes(), salt, nonce, backup),
            backup matches Ok(b) ==> spec_restore(b@, password.spec_bytes()) == Restored::Opened(self@),
            backup matches Err(e) ==> e.spec_kind() == ErrorKind::Crypto || e.spec_kind() == ErrorKind::Serialization,
    {
        let salt = random_bytes(BACKUP_SALT_LEN);
        let nonce = random_bytes(BACKUP_NONCE_LEN);
        let backup = self.export_encrypted_with(password, &array32(salt.as_slice()), nonce.as_slice());
        proof {
            assert(backed_up_with(*self, password.spec_bytes(), salt@, nonce@, backup));
        }
        backup
    }

    /// The identity that a backup holds. A backup too short to hold salt
    /// and nonce is invalid; a wrong password or a changed backup is a
    /// cryptographic error; sealed bytes that are no identity are a
    /// serialization error.
    pub fn import_encrypted(data: &[u8], password: &str) -> (identity: Result<Self, Error>)
        ensures
            match spec_restore(data@, password.spec_bytes()) {
                Restored::TooShort => identity matches Err(e) && e.spec_kind() == ErrorKind::Invalid,
                Restored::Locked => identity matches Err(e) && e.spec_kind() == ErrorKind::Crypto,
                Restored::Garbled => identity matches Err(e) && e.spec_kind() == ErrorKind::Serialization,
                Restored::Opened(held) => identity matches Ok(i) && i@ == held,
            },
    {
        if data.len() < BACKUP_SALT_LEN + BACKUP_NONCE_LEN {
            return Err(Error::Invalid("Invalid backup data".to_owned()));
        }
        let salt = slice_bytes(data, 0, BACKUP_SALT_LEN);
        let nonce = slice_bytes(data, BACKUP_SALT_LEN, BACKUP_SALT_LEN + BACKUP_NONCE_LEN);
        let sealed = slice_bytes(data, BACKUP_SALT_LEN + BACKUP_NONCE_LEN, data.len());
        let key = match derive_master_key_salted(password, salt.as_slice()) {
            Ok(key) => key,
            Err(e) => {
                return Err(Error::Crypto("Decryption failed (wrong password?)".to_owned()));
            },
        };
        let plain = match aead_open(key.as_bytes().as_slice(), nonce.as_slice(), sealed.as_slice()) {
            Some(plain) => plain,
            None => {
                return Err(Error::Crypto("Decryption failed (wrong password?)".to_owned()));
            },
        };
        match Self::from_bytes(plain.as_slice()) {
            Some(identity) => Ok(identity),
            None => Err(Error::Serialization("not an identity".to_owned())),
        }
    }
}

} // verus!
