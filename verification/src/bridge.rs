//! What a front end sees: records as plain text and numbers, and how what
//! the user types is read.

use vstd::prelude::*;
use crate::text::{hex_encode};
use crate::assistance::EmergencyNeed;
use crate::error::{Error, ErrorKind};
use crate::messaging::{Message, MessageStatus, MessageType};
use crate::storage::MessageDirection;
use crate::text::{array32, same_text, slice_bytes, spec_words, split_words};
use crate::crypto::keys::{ARGON2_LANES, ARGON2_MEMORY_KIB, ARGON2_PASSES, KEY_LEN};
use crate::identity::keypair::{framed, spec_open_framed};
use crate::text::{copy_bytes, join_bytes};
use crate::trust::Contact;
use crate::trusted::{aead_open, aead_seal, argon2id, argon2id_hash, sealable, SALT_FLOOR, blake3_digest, blake3_hash, chacha20poly1305_sealed, hex_text, random_bytes, string_from_utf8, texts, uuid_parse, uuid_text, uuid_to_string, uuid_value, wipe_bytes};
use vstd::utf8::{decode_utf8, encode_utf8, valid_utf8};
use vstd::string::StringSliceAdditionalSpecFns;
use crate::types::{
    be_bytes, coarsen, id_to_bytes, spec_verification_word, CoarseTimestamp, Fingerprint, MessageId, PersonId,
    SecureBytes, TrustLevel, Urgency,
};

verus! {

/// The state of the node, in numbers.
#[derive(Clone, Debug)]
pub struct NetworkStatus {
    pub veilid_connected: bool,
    pub contacts_count: u32,
    pub emergencies_count: u32,
    pub safe_houses_count: u32,
}

/// A contact as the front end shows it.
#[derive(Clone, Debug)]
pub struct ContactInfo {
    pub id: String,
    pub name: String,
    pub fingerprint: String,
}

/// A message as the front end shows it.
#[derive(Clone, Debug)]
pub struct MessageInfo {
    pub id: String,
    pub sender_id: String,
    pub recipient_id: String,
    pub content: String,
    pub status: String,
    pub direction: String,
    pub created_at: i64,
    pub is_read: bool,
}

/// A conversation as the front end lists it.
#[derive(Clone, Debug)]
pub struct ConversationInfo {
    pub contact_id: String,
    pub contact_name: String,
    pub message_count: u32,
    pub unread_count: u32,
    pub last_message: Option<String>,
    pub last_message_time: Option<i64>,
}

/// An identity on the overlay as the front end holds it.
#[derive(Clone, Debug)]
pub struct VeilidIdentityData {
    pub public_key: String,
    pub secret_key: String,
    pub dht_key: String,
    pub route: String,
}

/// A buffer that is overwritten when it is dropped.
pub struct SecureBuffer(Vec<u8>);

impl View for SecureBuffer {
    type V = Seq<u8>;

    closed spec fn view(&self) -> Seq<u8> {
        self.0@
    }
}

impl SecureBuffer {
    /// A buffer of the given bytes.
    pub fn new(data: Vec<u8>) -> (buffer: Self)
        ensures
            buffer@ == data@,
    {
        SecureBuffer(data)
    }

    /// The bytes of the buffer.
    pub fn as_slice(&self) -> (bytes: &[u8])
        ensures
            bytes@ == self@,
    {
        self.0.as_slice()
    }

    /// The number of bytes.
    pub fn len(&self) -> (n: usize)
        ensures
            n == self@.len(),
    {
        self.0.len()
    }

    /// Whether the buffer holds nothing.
    pub fn is_empty(&self) -> (empty: bool)
        ensures
            empty == (self@.len() == 0),
    {
        self.0.len() == 0
    }
}

impl Drop for SecureBuffer {
    fn drop(&mut self)
        opens_invariants none
        no_unwind
    {
        wipe_bytes(&mut self.0);
    }
}

/// What [`derive_key`] derives: nothing from a salt of fewer than three
/// bytes, and otherwise what Argon2id yields with 64 MiB of memory, three
/// passes, four lanes and 32 bytes of output.
pub open spec fn spec_derive_key(password: Seq<u8>, salt: Seq<u8>) -> Option<Seq<u8>> {
    if salt.len() < SALT_FLOOR {
        None
    } else {
        argon2id(password, salt, ARGON2_MEMORY_KIB, ARGON2_PASSES, ARGON2_LANES, KEY_LEN)
    }
}

/// The key that Argon2id derives from a password and a salt of any length:
/// 64 MiB of memory, three passes, four lanes, 32 bytes. A failure of the
/// derivation, as for a salt that is too short, is a cryptographic error.
pub fn derive_key(password: &str, salt: &[u8]) -> (key: Result<SecureBuffer, Error>)
    ensures
        match spec_derive_key(password.spec_bytes(), salt@) {
            Some(k) => key matches Ok(buffer) && buffer@ == k,
            None => key matches Err(e) && e.spec_kind() == ErrorKind::Crypto,
        },
{
    if salt.len() < SALT_FLOOR {
        return Err(Error::Crypto("salt too short".to_owned()));
    }
    match argon2id_hash(password.as_bytes(), salt, ARGON2_MEMORY_KIB, ARGON2_PASSES, ARGON2_LANES, KEY_LEN) {
        Some(hash) => Ok(SecureBuffer::new(hash)),
        None => Err(Error::Crypto("key derivation failed".to_owned())),
    }
}

/// Random bytes from the operating system.
pub fn generate_random_bytes(len: usize) -> (bytes: Vec<u8>)
    ensures
        bytes@.len() == len,
{
    random_bytes(len)
}

/// A random salt for key derivation.
pub fn generate_salt() -> (salt: [u8; 32]) {
    let bytes = random_bytes(32);
    array32(bytes.as_slice())
}

/// Seals the plaintext under a 32-byte key and the given 12-byte nonce: the
/// output is the nonce followed by the sealed content, and opens again
/// under the same key. A key or a nonce of another length, or a plaintext
/// too long to seal, is a cryptographic error.
pub fn encrypt_data_with_nonce(key: &[u8], nonce: &[u8], plaintext: &[u8]) -> (sealed: Result<Vec<u8>, Error>)
    ensures
        sealed.is_ok() <==> key@.len() == 32 && nonce@.len() == 12 && sealable(plaintext@.len()),
        sealed.is_ok() <==> key@.len() == 32 && nonce@.len() == 12 && chacha20poly1305_sealed(
            key@,
            nonce@,
            plaintext@,
        ).is_some(),
        sealed matches Ok(out) ==> out@ == framed(nonce@, chacha20poly1305_sealed(key@, nonce@, plaintext@).unwrap())
            && spec_open_framed(key@, out@) == Some(plaintext@),
        sealed matches Err(e) ==> e.spec_kind() == ErrorKind::Crypto,
{
    if key.len() != 32 {
        return Err(Error::Crypto("Key must be 32 bytes".to_owned()));
    }
    if nonce.len() != 12 {
        return Err(Error::Crypto("Nonce must be 12 bytes".to_owned()));
    }
    match aead_seal(key, nonce, plaintext) {
        Some(content) => {
            let out = join_bytes(nonce, content.as_slice());
            proof {
                assert(out@.subrange(0, 12) =~= nonce@);
                assert(out@.subrange(12, out@.len() as int) =~= content@);
            }
            Ok(out)
        },
        None => Err(Error::Crypto("encryption failed".to_owned())),
    }
}

/// Seals the plaintext under a 32-byte key and a fresh random nonce: the
/// output is the nonce followed by the sealed content, and opens again
/// under the same key. A key of another length is a cryptographic error.
pub fn encrypt_data(key: &[u8], plaintext: &[u8]) -> (sealed: Result<Vec<u8>, Error>)
    ensures
        sealed.is_ok() <==> key@.len() == 32 && sealable(plaintext@.len()),
        sealed matches Ok(out) ==> out@.len() >= 12 && out@ == framed(
            out@.take(12),
            chacha20poly1305_sealed(key@, out@.take(12), plaintext@).unwrap(),
        ),
        sealed matches Ok(out) ==> spec_open_framed(key@, out@) == Some(plaintext@),
        sealed matches Err(e) ==> e.spec_kind() == ErrorKind::Crypto,
{
    let nonce = random_bytes(12);
    let sealed = encrypt_data_with_nonce(key, nonce.as_slice(), plaintext);
    proof {
        if sealed.is_ok() {
            let out = sealed.unwrap();
            assert(out@.take(12) =~= nonce@);
        }
    }
    sealed
}

/// Opens what was sealed under a 32-byte key. A key of another length, a
/// ciphertext shorter than a nonce, or a tag that does not match is a
/// cryptographic error.
pub fn decrypt_data(key: &[u8], ciphertext: &[u8]) -> (opened: Result<Vec<u8>, Error>)
    ensures
        opened.is_ok() <==> key@.len() == 32 && spec_open_framed(key@, ciphertext@).is_some(),
        opened matches Ok(p) ==> Some(p@) == spec_open_framed(key@, ciphertext@),
        opened matches Err(e) ==> e.spec_kind() == ErrorKind::Crypto,
{
    if key.len() != 32 {
        return Err(Error::Crypto("Key must be 32 bytes".to_owned()));
    }
    if ciphertext.len() < 12 {
        return Err(Error::Crypto("Invalid ciphertext".to_owned()));
    }
    let nonce = slice_bytes(ciphertext, 0, 12);
    let content = slice_bytes(ciphertext, 12, ciphertext.len());
    match aead_open(key, nonce.as_slice(), content.as_slice()) {
        Some(plaintext) => Ok(plaintext),
        None => Err(Error::Crypto("decryption failed".to_owned())),
    }
}

/// A result whose error is the error's text.
pub fn to_string_err<T>(result: Result<T, Error>) -> (text: Result<T, String>)
    ensures
        match result {
            Ok(value) => text == Ok::<T, String>(value),
            Err(e) => text matches Err(t) && t@ == Error::spec_prefix(e.spec_kind()) + e.spec_message(),
        },
{
    match result {
        Ok(value) => Ok(value),
        Err(e) => Err(e.to_string()),
    }
}

/// The need that a word of the front end stands for.
pub open spec fn spec_parse_need(word: Seq<char>) -> Option<EmergencyNeed> {
    if word == "shelter"@ {
        Some(EmergencyNeed::SafeShelter)
    } else if word == "transport"@ {
        Some(EmergencyNeed::Transportation)
    } else if word == "medical"@ {
        Some(EmergencyNeed::Medical)
    } else if word == "food"@ {
        Some(EmergencyNeed::Supplies)
    } else if word == "financial"@ {
        Some(EmergencyNeed::Financial)
    } else if word == "danger"@ {
        Some(EmergencyNeed::ImmediateDanger)
    } else {
        None
    }
}

/// The need that a word of the front end stands for.
pub fn parse_need(word: &String) -> (need: Option<EmergencyNeed>)
    ensures
        need == spec_parse_need(word@),
{
    if same_text(word, "shelter") {
        Some(EmergencyNeed::SafeShelter)
    } else if same_text(word, "transport") {
        Some(EmergencyNeed::Transportation)
    } else if same_text(word, "medical") {
        Some(EmergencyNeed::Medical)
    } else if same_text(word, "food") {
        Some(EmergencyNeed::Supplies)
    } else if same_text(word, "financial") {
        Some(EmergencyNeed::Financial)
    } else if same_text(word, "danger") {
        Some(EmergencyNeed::ImmediateDanger)
    } else {
        None
    }
}

/// The needs that the words stand for, in order; words that stand for none
/// are left out.
pub open spec fn spec_parse_needs(words: Seq<String>) -> Seq<EmergencyNeed>
    decreases words.len(),
{
    if words.len() == 0 {
        Seq::empty()
    } else {
        match spec_parse_need(words.last()@) {
            Some(need) => spec_parse_needs(words.drop_last()).push(need),
            None => spec_parse_needs(words.drop_last()),
        }
    }
}

/// The needs that the words stand for, in order; words that stand for none
/// are left out.
pub fn parse_needs(words: &Vec<String>) -> (needs: Vec<EmergencyNeed>)
    ensures
        needs@ == spec_parse_needs(words@),
{
    let mut needs: Vec<EmergencyNeed> = Vec::new();
    let mut i: usize = 0;
    while i < words.len()
        invariant
            i <= words@.len(),
            needs@ == spec_parse_needs(words@.take(i as int)),
        decreases words@.len() - i,
    {
        proof {
            assert(words@.take(i + 1).drop_last() =~= words@.take(i as int));
        }
        match parse_need(&words[i]) {
            Some(need) => {
                needs.push(need);
            },
            None => {},
        }
        i += 1;
    }
    proof {
        assert(words@.take(words@.len() as int) =~= words@);
    }
    needs
}

/// The urgency that a word of the front end stands for; any other word
/// stands for `Low`.
pub fn parse_urgency(word: &String) -> (urgency: Urgency)
    ensures
        urgency == if word@ == "critical"@ {
            Urgency::Critical
        } else if word@ == "high"@ {
            Urgency::High
        } else if word@ == "medium"@ {
            Urgency::Medium
        } else {
            Urgency::Low
        },
{
    if same_text(word, "critical") {
        Urgency::Critical
    } else if same_text(word, "high") {
        Urgency::High
    } else if same_text(word, "medium") {
        Urgency::Medium
    } else {
        Urgency::Low
    }
}

/// The identifier as text, in the usual form of a UUID.
pub fn id_text(id: u128) -> (text: String)
    ensures
        text@ == uuid_text(id),
        uuid_value(text@) == Some(id),
{
    uuid_to_string(id)
}

/// The person whom the text names. Text that is no identifier is invalid.
pub fn parse_person_id(text: &str) -> (id: Result<PersonId, Error>)
    ensures
        match uuid_value(text@) {
            Some(value) => id == Ok::<PersonId, Error>(PersonId(value)),
            None => id matches Err(e) && e.spec_kind() == ErrorKind::Invalid,
        },
{
    match uuid_parse(text) {
        Some(value) => Ok(PersonId(value)),
        None => Err(Error::Invalid("Invalid contact ID".to_owned())),
    }
}

/// The name of the directory that holds the data of a user: the first
/// sixteen hexadecimal digits of the user's identifier.
pub fn user_dir_name(id: PersonId) -> (name: String)
    ensures
        name@ == hex_text(be_bytes(id.0).subrange(0, 8)),
{
    let bytes = id_to_bytes(id.0);
    let front = slice_bytes(bytes.as_slice(), 0, 8);
    hex_encode(front.as_slice())
}

/// The salt that the salt file holds. A file that does not hold exactly 32
/// bytes is a cryptographic error.
pub fn read_salt(file: &[u8]) -> (salt: Result<[u8; 32], Error>)
    ensures
        salt.is_ok() <==> file@.len() == 32,
        salt matches Ok(s) ==> s@ == file@,
        salt matches Err(e) ==> e.spec_kind() == ErrorKind::Crypto,
{
    if file.len() != 32 {
        return Err(Error::Crypto("Invalid salt file".to_owned()));
    }
    Ok(array32(file))
}

/// The name of a status as the front end shows it.
pub open spec fn spec_status_name(status: MessageStatus) -> Seq<char> {
    match status {
        MessageStatus::Draft => "Draft"@,
        MessageStatus::Queued => "Queued"@,
        MessageStatus::Sending => "Sending"@,
        MessageStatus::Sent => "Sent"@,
        MessageStatus::Delivered => "Delivered"@,
        MessageStatus::Read => "Read"@,
        MessageStatus::Failed => "Failed"@,
        MessageStatus::Expired => "Expired"@,
    }
}

/// The name of a status as the front end shows it.
pub fn status_name(status: MessageStatus) -> (name: &'static str)
    ensures
        name@ == spec_status_name(status),
{
    match status {
        MessageStatus::Draft => "Draft",
        MessageStatus::Queued => "Queued",
        MessageStatus::Sending => "Sending",
        MessageStatus::Sent => "Sent",
        MessageStatus::Delivered => "Delivered",
        MessageStatus::Read => "Read",
        MessageStatus::Failed => "Failed",
        MessageStatus::Expired => "Expired",
    }
}

/// A text message as the front end shows it; `None` for a message that
/// carries no text.
pub fn message_info(message: &Message, direction: MessageDirection) -> (info: Option<MessageInfo>)
    ensures
        info.is_some() <==> message.message_type is Text,
        info matches Some(i) ==> {
            &&& i.id@ == uuid_text(message.id.0)
            &&& i.sender_id@ == uuid_text(message.sender.0)
            &&& i.recipient_id@ == uuid_text(message.recipient.0)
            &&& message.message_type matches MessageType::Text { content } && i.content == content
            &&& i.direction@ == match direction {
                MessageDirection::Sent => "sent"@,
                MessageDirection::Received => "received"@,
            }
            &&& i.status@ == spec_status_name(message.status)
            &&& i.created_at == message.created_at@
            &&& i.is_read == (message.status == MessageStatus::Read)
        },
{
    match &message.message_type {
        MessageType::Text { content } => Some(
            MessageInfo {
                id: id_text(message.id.0),
                sender_id: id_text(message.sender.0),
                recipient_id: id_text(message.recipient.0),
                content: content.clone(),
                status: status_name(message.status).to_owned(),
                direction: match direction {
                    MessageDirection::Sent => "sent".to_owned(),
                    MessageDirection::Received => "received".to_owned(),
                },
                created_at: message.created_at.as_secs(),
                is_read: message.status == MessageStatus::Read,
            },
        ),
        _ => None,
    }
}

/// Whether a received message may be taken in by the identity `own`: it
/// must be addressed to it. Any other message is refused: permission denied.
pub fn accept_for(message: &Message, own: PersonId) -> (accepted: Result<(), Error>)
    ensures
        accepted.is_ok() <==> message.recipient == own,
        accepted matches Err(e) ==> e.spec_kind() == ErrorKind::PermissionDenied,
{
    if message.recipient == own {
        Ok(())
    } else {
        Err(Error::PermissionDenied("Message not intended for this recipient".to_owned()))
    }
}

/// The line of the conversation list for a contact: the name under which
/// the contact is known, or `Unknown`; the number of messages; and the text
/// and time of the last message, where there is one. A last message that
/// carries no text is shown as a placeholder. Unread messages are not
/// counted.
pub fn conversation_info(contact_id: PersonId, contact_name: Option<String>, message_count: u32, last: Option<&Message>) -> (info:
    ConversationInfo)
    ensures
        info.contact_id@ == uuid_text(contact_id.0),
        info.contact_name@ == match contact_name {
            Some(name) => name@,
            None => "Unknown"@,
        },
        info.message_count == message_count,
        info.unread_count == 0,
        match last {
            Some(message) => {
                &&& info.last_message matches Some(text) && text@ == match message.message_type {
                    MessageType::Text { content } => content@,
                    _ => "[Non-text message]"@,
                }
                &&& info.last_message_time matches Some(at) && at == message.created_at@
            },
            None => info.last_message.is_none() && info.last_message_time.is_none(),
        },
{
    let contact_name = match contact_name {
        Some(name) => name,
        None => "Unknown".to_owned(),
    };
    let (last_message, last_message_time) = match last {
        Some(message) => {
            let text = match &message.message_type {
                MessageType::Text { content } => content.clone(),
                _ => "[Non-text message]".to_owned(),
            };
            (Some(text), Some(message.created_at.as_secs()))
        },
        None => (None, None),
    };
    ConversationInfo {
        contact_id: id_text(contact_id.0),
        contact_name,
        message_count,
        unread_count: 0,
        last_message,
        last_message_time,
    }
}

/// The mailbox key that a contact was added with: none where the contact
/// has no route, the text of the route where it is UTF-8, and otherwise
/// invalid.
pub fn contact_mailbox_key(contact: &Contact) -> (key: Result<Option<String>, Error>)
    ensures
        if contact.veilid_route@.len() == 0 {
            key matches Ok(None)
        } else if valid_utf8(contact.veilid_route@) {
            key matches Ok(Some(text)) && text@ == decode_utf8(contact.veilid_route@)
        } else {
            key matches Err(e) && e.spec_kind() == ErrorKind::Invalid
        },
{
    if contact.veilid_route.is_empty() {
        return Ok(None);
    }
    match string_from_utf8(copy_bytes(contact.veilid_route.as_bytes())) {
        Some(text) => Ok(Some(text)),
        None => Err(Error::Invalid("Invalid mailbox key".to_owned())),
    }
}

/// Whether the text is that of a cryptographic error.
pub open spec fn says_crypto(text: Seq<char>) -> bool {
    exists|e: Error| e.spec_kind() == ErrorKind::Crypto && text == #[trigger] Error::spec_prefix(e.spec_kind())
        + e.spec_message()
}

/// The key of [`derive_key`] as plain bytes, and its error as text.
pub fn derive_encryption_key(password: String, salt: Vec<u8>) -> (key: Result<Vec<u8>, String>)
    ensures
        match spec_derive_key(encode_utf8(password@), salt@) {
            Some(k) => key matches Ok(bytes) && bytes@ == k,
            None => key matches Err(text) && says_crypto(text@),
        },
{
    match derive_key(password.as_str(), salt.as_slice()) {
        Ok(buffer) => Ok(copy_bytes(buffer.as_slice())),
        Err(e) => Err(e.to_string()),
    }
}

/// A random salt for key derivation, as plain bytes.
pub fn generate_key_salt() -> (salt: Result<Vec<u8>, String>)
    ensures
        salt matches Ok(bytes) && bytes@.len() == 32,
{
    Ok(random_bytes(32))
}

/// Random bytes from the operating system.
pub fn generate_secure_random(length: usize) -> (bytes: Result<Vec<u8>, String>)
    ensures
        bytes matches Ok(b) && b@.len() == length,
{
    Ok(random_bytes(length))
}

/// [`encrypt_data`] with its error as text.
pub fn encrypt_bytes(key: Vec<u8>, plaintext: Vec<u8>) -> (sealed: Result<Vec<u8>, String>)
    ensures
        sealed.is_ok() <==> key@.len() == 32 && sealable(plaintext@.len()),
        sealed matches Ok(out) ==> out@.len() >= 12 && out@ == framed(
            out@.take(12),
            chacha20poly1305_sealed(key@, out@.take(12), plaintext@).unwrap(),
        ),
        sealed matches Ok(out) ==> spec_open_framed(key@, out@) == Some(plaintext@),
        sealed matches Err(text) ==> says_crypto(text@),
{
    match encrypt_data(key.as_slice(), plaintext.as_slice()) {
        Ok(out) => Ok(out),
        Err(e) => Err(e.to_string()),
    }
}

/// [`decrypt_data`] with its error as text.
pub fn decrypt_bytes(key: Vec<u8>, ciphertext: Vec<u8>) -> (opened: Result<Vec<u8>, String>)
    ensures
        opened.is_ok() <==> key@.len() == 32 && spec_open_framed(key@, ciphertext@).is_some(),
        opened matches Ok(p) ==> Some(p@) == spec_open_framed(key@, ciphertext@),
        opened matches Err(text) ==> says_crypto(text@),
{
    match decrypt_data(key.as_slice(), ciphertext.as_slice()) {
        Ok(plaintext) => Ok(plaintext),
        Err(e) => Err(e.to_string()),
    }
}

/// The BLAKE3 digest of the data.
pub fn hash_blake3(data: &[u8]) -> (digest: [u8; 32])
    ensures
        digest@ == blake3_digest(data@),
{
    blake3_hash(data)
}

/// The BLAKE3 digest of the data, as plain bytes.
pub fn hash_data(data: Vec<u8>) -> (digest: Result<Vec<u8>, String>)
    ensures
        digest matches Ok(d) && d@ == blake3_digest(data@) && d@.len() == 32,
{
    let digest = blake3_hash(data.as_slice());
    Ok(copy_bytes(digest.as_slice()))
}

/// The words with which the library answers that it is there.
pub const HEALTH_OK: &'static str = "Underground Railroad Rust Core: OK";

/// Says that the library is there.
pub fn health_check() -> (answer: Result<String, String>)
    ensures
        answer matches Ok(text) && text@ == HEALTH_OK@,
{
    Ok(HEALTH_OK.to_owned())
}

/// A text that arrived from `sender`, written at `created_at` (seconds since
/// the epoch): delivered, never relayed, and never lapsing.
pub fn received_text(id: MessageId, sender: PersonId, recipient: PersonId, content: &str, created_at: i64) -> (message:
    Message)
    ensures
        message.id == id,
        message.sender == sender,
        message.recipient == recipient,
        message.message_type matches MessageType::Text { content: held } && held@ == content@,
        message.created_at@ == coarsen(created_at as int),
        message.expires_at.is_none(),
        message.status == MessageStatus::Delivered,
        message.hop_count == 0,
{
    Message {
        id,
        sender,
        recipient,
        message_type: MessageType::Text { content: content.to_owned() },
        created_at: CoarseTimestamp::from_secs(created_at),
        expires_at: None,
        status: MessageStatus::Delivered,
        hop_count: 0,
    }
}

/// The sum of the bytes, counted in eight bits.
pub open spec fn word_sum(bytes: Seq<u8>) -> u8
    decreases bytes.len(),
{
    if bytes.len() == 0 {
        0
    } else {
        ((word_sum(bytes.drop_last()) + bytes.last()) % 256) as u8
    }
}

/// The sum of the bytes, counted in eight bits.
pub fn sum_of_bytes(bytes: &[u8]) -> (sum: u8)
    ensures
        sum == word_sum(bytes@),
{
    let mut sum: u8 = 0;
    let mut i: usize = 0;
    proof {
        assert(bytes@.take(0) =~= Seq::<u8>::empty());
    }
    while i < bytes.len()
        invariant
            i <= bytes@.len(),
            sum == word_sum(bytes@.take(i as int)),
        decreases bytes@.len() - i,
    {
        proof {
            let grown = bytes@.take(i + 1);
            assert(grown.drop_last() =~= bytes@.take(i as int));
            assert(grown.last() == bytes@[i as int]);
        }
        sum = ((sum as u16 + bytes[i] as u16) % 256) as u8;
        i += 1;
    }
    proof {
        assert(bytes@.take(bytes@.len() as int) =~= bytes@);
    }
    sum
}

/// The fingerprint that stands for words until the keys behind them are
/// known: one byte for each of the first 32 words, the sum of the bytes of
/// the word, and zero where there is no word.
pub open spec fn words_fingerprint(words: Seq<Seq<char>>) -> Seq<u8> {
    Seq::new(
        32,
        |i: int|
            if i < words.len() {
                word_sum(encode_utf8(words[i]))
            } else {
                0u8
            },
    )
}

/// The tag under which a contact keeps the words that it was added with.
pub const WORDS_TAG: &'static str = "fp:";

/// The contact that is added by the words of a fingerprint and a mailbox
/// key: not yet trusted, with a fingerprint that stands for the words, the
/// mailbox key as its route, and the words kept as a tag. Fewer than three
/// words are refused as invalid.
pub fn contact_from_words(id: PersonId, name: &str, fingerprint_words: &str, mailbox_key: &str, added_at: CoarseTimestamp) -> (made:
    Result<Contact, Error>)
    ensures
        made.is_ok() <==> spec_words(fingerprint_words@).len() >= 3,
        made matches Err(e) ==> e.spec_kind() == ErrorKind::Invalid,
        made matches Ok(contact) ==> {
            &&& contact.id == id
            &&& contact.info.name@ == name@
            &&& contact.info.region.is_none()
            &&& contact.info.languages@.len() == 0
            &&& contact.info.capabilities@.len() == 0
            &&& contact.trust_level == TrustLevel::Unknown
            &&& contact.fingerprint@ == words_fingerprint(spec_words(fingerprint_words@))
            &&& contact.veilid_route@ == mailbox_key.spec_bytes()
            &&& contact.added_at == added_at
            &&& contact.last_contact.is_none()
            &&& contact.introduced_by.is_none()
            &&& contact.notes.is_none()
            &&& contact.available
            &&& contact.tags@.len() == 1
            &&& contact.tags@[0]@ == WORDS_TAG@ + fingerprint_words@
        },
{
    let words = split_words(fingerprint_words);
    if words.len() < 3 {
        return Err(Error::Invalid("Fingerprint must be at least 3 words".to_owned()));
    }
    let mut bytes: [u8; 32] = [0u8; 32];
    let mut i: usize = 0;
    while i < 32 && i < words.len()
        invariant
            i <= 32,
            i <= words@.len(),
            texts(words@) == spec_words(fingerprint_words@),
            forall|t: int| 0 <= t < i ==> #[trigger] bytes@[t] == word_sum(encode_utf8(words@[t]@)),
            forall|t: int| i <= t < 32 ==> #[trigger] bytes@[t] == 0u8,
        decreases 32 - i,
    {
        let sum = sum_of_bytes(words[i].as_str().as_bytes());
        bytes.set(i, sum);
        i += 1;
    }
    proof {
        let listed = spec_words(fingerprint_words@);
        assert forall|t: int| 0 <= t < 32 implies bytes@[t] == words_fingerprint(listed)[t] by {
            if t < listed.len() {
                assert(listed[t] == texts(words@)[t]);
                assert(t < i);
            }
        }
        assert(bytes@ =~= words_fingerprint(listed));
    }
    let route = SecureBytes::new(copy_bytes(mailbox_key.as_bytes()));
    let mut contact = Contact::new_at(id, name, Fingerprint::new(bytes), route, TrustLevel::Unknown, added_at);
    let tag = WORDS_TAG.to_owned().concat(fingerprint_words);
    contact.add_tag(tag.as_str());
    proof {
        assert(contact.tags@.drop_last().len() == 0);
    }
    Ok(contact)
}

/// Whether the tag keeps the words that a contact was added with.
pub open spec fn keeps_words(tag: Seq<char>) -> bool {
    tag.len() >= 3 && tag.take(3) == WORDS_TAG@
}

/// The words shown for a contact: those that it was added with, kept in the
/// first tag that holds any; or else the three words of its fingerprint.
pub open spec fn shown_words(contact: Contact, k: int) -> Seq<char>
    decreases contact.tags@.len() - k,
{
    if k < 0 || k >= contact.tags@.len() {
        spec_verification_word(contact.fingerprint.spec_word_index(0)) + " "@ + spec_verification_word(
            contact.fingerprint.spec_word_index(1),
        ) + " "@ + spec_verification_word(contact.fingerprint.spec_word_index(2))
    } else if keeps_words(contact.tags@[k]@) {
        contact.tags@[k]@.skip(3)
    } else {
        shown_words(contact, k + 1)
    }
}

/// A contact as the front end shows it: its identifier as text, its name,
/// and the words for its fingerprint.
pub fn contact_info(contact: &Contact) -> (info: ContactInfo)
    ensures
        info.id@ == uuid_text(contact.id.0),
        info.name@ == contact.info.name@,
        info.fingerprint@ == shown_words(*contact, 0),
{
    proof {
        reveal_strlit("fp:");
    }
    let mut found: Option<String> = None;
    let mut k: usize = 0;
    while k < contact.tags.len() && found.is_none()
        invariant
            k <= contact.tags@.len(),
            match found {
                Some(text) => text@ == shown_words(*contact, 0),
                None => shown_words(*contact, 0) == shown_words(*contact, k as int),
            },
        decreases contact.tags@.len() - k + (if found.is_none() { 1int } else { 0int }),
    {
        let tag = contact.tags[k].as_str();
        let len = tag.unicode_len();
        if len >= 3 {
            let head = tag.substring_char(0, 3).to_owned();
            proof {
                assert(tag@.take(3) =~= tag@.subrange(0, 3));
            }
            if same_text(&head, WORDS_TAG) {
                proof {
                    assert(tag@.skip(3) =~= tag@.subrange(3, len as int));
                }
                found = Some(tag.substring_char(3, len).to_owned());
            }
        }
        if found.is_none() {
            k += 1;
        }
    }
    let fingerprint = match found {
        Some(text) => text,
        None => {
            let words = contact.verification_words();
            words[0].to_owned().concat(" ").concat(words[1]).concat(" ").concat(words[2])
        },
    };
    ContactInfo { id: id_text(contact.id.0), name: contact.info.name.clone(), fingerprint }
}

} // verus!
