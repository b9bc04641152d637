use underground_railroad_core::assistance::emergency::{EmergencyNeed, EmergencyRequest, EmergencyResponse};
use underground_railroad_core::assistance::intelligence::{IntelligenceCategory, IntelligenceReport};
use underground_railroad_core::error::ErrorKind;
use underground_railroad_core::identity::keypair::SigningKey;
use underground_railroad_core::messaging::encryption::{
    decrypt_message_hybrid, derive_hybrid_message_key, derive_message_key, encrypt_message_hybrid, seal_hybrid,
    x25519_public_key, MessageKey, RecipientPublicKeys,
};
use underground_railroad_core::identity::keypair::EncryptionKey;
use underground_railroad_core::messaging::protocol::{Message, MessageEnvelope, MessageStatus, MessageType};
use underground_railroad_core::messaging::routing::{MessageRouter, Route};
use underground_railroad_core::types::{CoarseTimestamp, EmergencyId, Fingerprint, MessageId, PersonId, Region, Urgency};

#[test]
fn test_message_key_encrypt_decrypt() {
    let key = MessageKey::from_bytes([42u8; 32]);
    let plaintext = b"Secret message";

    let encrypted = key.encrypt(plaintext).unwrap();
    let decrypted = key.decrypt(&encrypted).unwrap();

    assert_eq!(decrypted, plaintext);
}

#[test]
fn encryption_test_wrong_key_fails() {
    let key1 = MessageKey::from_bytes([1u8; 32]);
    let key2 = MessageKey::from_bytes([2u8; 32]);

    let plaintext = b"Secret message";
    let encrypted = key1.encrypt(plaintext).unwrap();

    // Decryption with wrong key should fail
    let result = key2.decrypt(&encrypted);
    assert!(result.is_err());
    assert_eq!(result.unwrap_err().kind(), ErrorKind::Crypto);
}

#[test]
fn test_key_exchange() {
    // Alice's keypair
    let alice_secret = [1u8; 32];
    let alice_public = x25519_dalek::x25519(alice_secret, x25519_dalek::X25519_BASEPOINT_BYTES);

    // Bob's keypair
    let bob_secret = [2u8; 32];
    let bob_public = x25519_dalek::x25519(bob_secret, x25519_dalek::X25519_BASEPOINT_BYTES);
    assert_eq!(x25519_public_key(&alice_secret), alice_public);

    // Derive shared keys
    let alice_key = derive_message_key(&alice_secret, &bob_public).unwrap();

    let bob_key = derive_message_key(&bob_secret, &alice_public).unwrap();

    // Both should derive the same key
    assert_eq!(alice_key.as_bytes(), bob_key.as_bytes());

    // Verify encryption works both ways
    let plaintext = b"Test message";

    let encrypted_by_alice = alice_key.encrypt(plaintext).unwrap();
    let decrypted_by_bob = bob_key.decrypt(&encrypted_by_alice).unwrap();

    assert_eq!(decrypted_by_bob, plaintext);
}

#[test]
fn test_encrypted_message_has_nonce() {
    let key = MessageKey::from_bytes([42u8; 32]);
    let encrypted = key.encrypt(b"test").unwrap();

    assert!(!encrypted.nonce.is_empty());
    assert!(!encrypted.ciphertext.is_empty());
    assert_eq!(encrypted.nonce.len(), 12);
    assert_eq!(encrypted.ciphertext.len(), 4 + 16);
    assert!(encrypted.tag.is_empty());
}

#[test]
fn a_nonce_of_the_wrong_length_is_refused() {
    let key = MessageKey::from_bytes([42u8; 32]);
    assert_eq!(key.encrypt_with_nonce(b"test", &[0u8; 11]).unwrap_err().kind(), ErrorKind::Crypto);
    let sealed = key.encrypt_with_nonce(b"test", &[7u8; 12]).unwrap();
    assert_eq!(sealed.nonce, vec![7u8; 12]);
    let again = key.encrypt_with_nonce(b"test", &[7u8; 12]).unwrap();
    assert_eq!(sealed.ciphertext, again.ciphertext);
    assert_ne!(sealed.ciphertext[..4], b"test"[..]);
    let mut short = sealed.clone();
    short.nonce.pop();
    assert_eq!(key.decrypt(&short).unwrap_err().kind(), ErrorKind::Crypto);
}

#[test]
fn hybrid_round_trip_and_tampering() {
    let bob = EncryptionKey::generate().unwrap();
    let plaintext = b"meet at green door 19:00";
    let sealed = encrypt_message_hybrid(plaintext, &bob.get_public_keys()).unwrap();
    assert_eq!(sealed.nonce.len(), 12);
    assert_eq!(sealed.ephemeral_x25519_public_key.len(), 32);
    assert_eq!(sealed.kyber_ciphertext.len(), 1568);
    assert_eq!(sealed.ciphertext.len(), plaintext.len() + 16);
    let secret: [u8; 32] = bob.x25519_secret().try_into().unwrap();
    let opened = decrypt_message_hybrid(&sealed, &secret, bob.kyber_secret()).unwrap();
    assert_eq!(opened, plaintext);

    // flip bit 7 of the tenth byte of the ciphertext
    let mut tampered = sealed.clone();
    tampered.ciphertext[9] ^= 0x80;
    let failure = decrypt_message_hybrid(&tampered, &secret, bob.kyber_secret()).unwrap_err();
    assert_eq!(failure.kind(), ErrorKind::Crypto);

    let mut tampered = sealed.clone();
    tampered.nonce[0] ^= 1;
    assert_eq!(decrypt_message_hybrid(&tampered, &secret, bob.kyber_secret()).unwrap_err().kind(), ErrorKind::Crypto);

    let mut tampered = sealed.clone();
    tampered.ephemeral_x25519_public_key[3] ^= 1;
    assert_eq!(decrypt_message_hybrid(&tampered, &secret, bob.kyber_secret()).unwrap_err().kind(), ErrorKind::Crypto);

    let mut tampered = sealed.clone();
    tampered.kyber_ciphertext[100] ^= 1;
    assert_eq!(decrypt_message_hybrid(&tampered, &secret, bob.kyber_secret()).unwrap_err().kind(), ErrorKind::Crypto);

    let mut tampered = sealed.clone();
    tampered.kyber_ciphertext.pop();
    assert_eq!(decrypt_message_hybrid(&tampered, &secret, bob.kyber_secret()).unwrap_err().kind(), ErrorKind::Crypto);

    // nobody else opens it
    let eve = EncryptionKey::generate().unwrap();
    let eve_secret: [u8; 32] = eve.x25519_secret().try_into().unwrap();
    assert_eq!(decrypt_message_hybrid(&sealed, &eve_secret, eve.kyber_secret()).unwrap_err().kind(), ErrorKind::Crypto);
    assert_eq!(decrypt_message_hybrid(&sealed, &secret, eve.kyber_secret()).unwrap_err().kind(), ErrorKind::Crypto);
    assert_eq!(decrypt_message_hybrid(&sealed, &eve_secret, bob.kyber_secret()).unwrap_err().kind(), ErrorKind::Crypto);
    assert_eq!(decrypt_message_hybrid(&sealed, &secret, &[0u8; 7]).unwrap_err().kind(), ErrorKind::Crypto);

    // a recipient key of the wrong length
    let broken = RecipientPublicKeys { x25519: [1u8; 32], kyber: vec![0u8; 10] };
    assert_eq!(encrypt_message_hybrid(plaintext, &broken).unwrap_err().kind(), ErrorKind::Crypto);
    // every message is sealed afresh
    let second = encrypt_message_hybrid(plaintext, &bob.get_public_keys()).unwrap();
    assert_ne!(second.ciphertext, sealed.ciphertext);
    assert_ne!(second.ephemeral_x25519_public_key, sealed.ephemeral_x25519_public_key);
}

#[test]
fn hybrid_key_mixes_both_secrets() {
    let a = derive_hybrid_message_key(&[1u8; 32], &[9u8; 32], &[3u8; 32]).unwrap();
    let b = derive_hybrid_message_key(&[1u8; 32], &[9u8; 32], &[3u8; 32]).unwrap();
    let c = derive_hybrid_message_key(&[1u8; 32], &[9u8; 32], &[4u8; 32]).unwrap();
    let d = derive_hybrid_message_key(&[2u8; 32], &[9u8; 32], &[3u8; 32]).unwrap();
    assert_eq!(a.as_bytes(), b.as_bytes());
    assert_ne!(a.as_bytes(), c.as_bytes());
    assert_ne!(a.as_bytes(), d.as_bytes());
    assert_ne!(a.as_bytes(), &[1u8; 32]);
    let recipient_secret = [5u8; 32];
    let recipient = x25519_public_key(&recipient_secret);
    let sealed = seal_hybrid(b"hello", &recipient, &[6u8; 32], &[3u8; 32], vec![0u8; 1568], &[0u8; 12]).unwrap();
    assert_eq!(sealed.ephemeral_x25519_public_key, x25519_public_key(&[6u8; 32]).to_vec());
    let key = derive_hybrid_message_key(&recipient_secret, &x25519_public_key(&[6u8; 32]), &[3u8; 32]).unwrap();
    assert_eq!(key.decrypt(&sealed).unwrap(), b"hello");
}

#[test]
fn test_text_message() {
    let sender = PersonId::new();
    let recipient = PersonId::new();

    let msg = Message::new_text(sender, recipient, "Hello, world!");

    assert_eq!(msg.sender, sender);
    assert_eq!(msg.recipient, recipient);
    assert!(matches!(msg.message_type, MessageType::Text { .. }));
    assert_eq!(msg.status, MessageStatus::Draft);
}

#[test]
fn test_emergency_message() {
    let sender = PersonId::new();
    let recipient = PersonId::new();
    let emergency = EmergencyRequest::new(
        Some(sender),
        vec![EmergencyNeed::SafeShelter],
        Region::new("Test"),
        Urgency::Critical,
        2,
    );

    let msg = Message::new_emergency(sender, recipient, emergency);

    assert!(msg.is_emergency());
    assert!(msg.expires_at.is_some());
}

#[test]
fn test_message_status_transitions() {
    let mut msg = Message::new_text(PersonId::new(), PersonId::new(), "Test");

    assert_eq!(msg.status, MessageStatus::Draft);

    msg.mark_sent();
    assert_eq!(msg.status, MessageStatus::Sent);

    msg.mark_delivered();
    assert_eq!(msg.status, MessageStatus::Delivered);

    msg.mark_read();
    assert_eq!(msg.status, MessageStatus::Read);
}

#[test]
fn message_status_only_moves_forward() {
    let mut msg = Message::new_text(PersonId(1), PersonId(2), "Test");
    msg.mark_delivered();
    msg.mark_read();
    assert_eq!(msg.status, MessageStatus::Draft);
    msg.update_status(MessageStatus::Queued).unwrap();
    msg.update_status(MessageStatus::Sending).unwrap();
    assert_eq!(msg.update_status(MessageStatus::Draft).unwrap_err().kind(), ErrorKind::PermissionDenied);
    assert_eq!(msg.status, MessageStatus::Sending);
    msg.mark_sent();
    msg.mark_delivered();
    msg.mark_sent();
    assert_eq!(msg.status, MessageStatus::Delivered);
    msg.mark_read();
    msg.mark_failed();
    msg.expire_at(i64::MAX);
    assert_eq!(msg.status, MessageStatus::Read);
    assert!(msg.update_status(MessageStatus::Failed).is_err());

    let mut lost = Message::new_text(PersonId(1), PersonId(2), "Test");
    lost.mark_failed();
    assert_eq!(lost.status, MessageStatus::Failed);
    lost.mark_sent();
    assert_eq!(lost.status, MessageStatus::Failed);
    assert!(MessageStatus::Draft.may_become(MessageStatus::Expired));
    assert!(!MessageStatus::Expired.may_become(MessageStatus::Draft));
    assert!(!MessageStatus::Sent.may_become(MessageStatus::Sent));
    assert_eq!(MessageStatus::from_code(MessageStatus::Read.code()), MessageStatus::Read);
}

#[test]
fn test_message_priority() {
    let sender = PersonId::new();
    let recipient = PersonId::new();

    let text = Message::new_text(sender, recipient, "Hello");
    let emergency = Message::new_emergency(
        sender,
        recipient,
        EmergencyRequest::new(
            Some(sender),
            vec![EmergencyNeed::ImmediateDanger],
            Region::new("Test"),
            Urgency::Critical,
            1,
        ),
    );

    assert!(emergency.priority() > text.priority());
}

#[test]
fn message_priorities_by_kind() {
    let a = PersonId(1);
    let b = PersonId(2);
    let now: i64 = 1_700_000_100;
    let request = |urgency| EmergencyRequest::new_at(EmergencyId(1), None, vec![], Region::new("X"), urgency, 1, now);
    assert_eq!(Message::new_emergency_at(MessageId(1), a, b, request(Urgency::Critical), now).priority(), 4000);
    assert_eq!(Message::new_emergency_at(MessageId(1), a, b, request(Urgency::Low), now).priority(), 1000);
    let emergency = Message::new_emergency_at(MessageId(1), a, b, request(Urgency::Low), now);
    assert_eq!(emergency.expires_at.unwrap().as_secs(), now + 6 * 3600);
    let report = IntelligenceReport::new(a, IntelligenceCategory::AllClear, Region::new("X"), "ok", Urgency::High);
    let expires = report.expires_at;
    let intelligence = Message::new_intelligence(a, b, report);
    assert_eq!(intelligence.priority(), 300);
    assert_eq!(intelligence.expires_at, Some(expires));
    assert!(!intelligence.is_emergency());
    let t = CoarseTimestamp::from_secs(now);
    let response = EmergencyResponse::new_at(EmergencyId(1), a, vec![], t);
    let answer = Message::draft(
        MessageId(2),
        a,
        b,
        MessageType::EmergencyResponse { emergency_id: EmergencyId(1), response },
        t,
        None,
    );
    assert_eq!(answer.priority(), 3000);
    assert!(answer.is_emergency());
    let request = Message::new_connection_request_at(MessageId(3), a, b, Fingerprint::new([0u8; 32]), vec![1], None, now);
    assert_eq!(request.priority(), 500);
    assert_eq!(request.expires_at.unwrap().as_secs(), now + 7 * 86400);
    let accepted = Message::draft(
        MessageId(4),
        a,
        b,
        MessageType::ConnectionAccepted { fingerprint: Fingerprint::new([0u8; 32]), public_key: vec![] },
        t,
        None,
    );
    assert_eq!(accepted.priority(), 400);
    assert_eq!(Message::new_text(a, b, "hi").priority(), 100);
    let relay = Message::draft(MessageId(5), a, b, MessageType::Relay { target: b, encrypted_payload: vec![] }, t, None);
    assert_eq!(relay.priority(), 100);
}

#[test]
fn test_hop_count() {
    let mut msg = Message::new_text(PersonId::new(), PersonId::new(), "Test");

    assert_eq!(msg.hop_count, 0);

    msg.increment_hops();
    assert_eq!(msg.hop_count, 1);

    msg.increment_hops();
    assert_eq!(msg.hop_count, 2);
    msg.hop_count = 255;
    msg.increment_hops();
    assert_eq!(msg.hop_count, 255);
}

#[test]
fn test_connection_request() {
    let sender = PersonId::new();
    let recipient = PersonId::new();
    let fingerprint = Fingerprint::new([0u8; 32]);
    let public_key = vec![1, 2, 3, 4];

    let msg = Message::new_connection_request(sender, recipient, fingerprint, public_key, None);

    assert!(matches!(msg.message_type, MessageType::ConnectionRequest { .. }));
    assert!(msg.expires_at.is_some());
}

#[test]
fn test_message_expiration() {
    let sender = PersonId::new();
    let recipient = PersonId::new();

    // Create message that expires in the past
    let mut msg = Message::new_text(sender, recipient, "Test");
    msg.expires_at = Some(CoarseTimestamp::from_secs(chrono::Utc::now().timestamp() - 3600));

    assert!(msg.is_expired());

    // Create message that expires in the future
    let mut msg2 = Message::new_text(sender, recipient, "Test");
    msg2.expires_at = Some(CoarseTimestamp::from_secs(chrono::Utc::now().timestamp() + 3600));

    assert!(!msg2.is_expired());
    assert!(!Message::new_text(sender, recipient, "Test").is_expired());
}

#[test]
fn envelope_signature() {
    let key = SigningKey::from_seed(&[3u8; 32]).unwrap();
    let message = Message::new_text(PersonId(1), PersonId(2), "Test");
    let content = vec![9u8, 8, 7];
    let mut envelope = MessageEnvelope::new(&message, content.clone(), vec![], vec![0u8; 12]);
    assert_eq!(envelope.id, message.id);
    assert_eq!(envelope.hop_count, 0);
    let data = envelope.signed_data();
    assert_eq!(data.len(), 16 * 3 + 3);
    assert_eq!(&data[16..32], &PersonId(1).to_bytes()[..]);
    assert_eq!(&data[48..], &content[..]);
    // no signature yet
    assert_eq!(envelope.verify_signature(key.public_key_bytes()).unwrap_err().kind(), ErrorKind::Crypto);
    envelope.signature = key.sign(&data).unwrap();
    assert!(envelope.verify_signature(key.public_key_bytes()).unwrap());
    assert_eq!(envelope.verify_signature(&[1u8; 5]).unwrap_err().kind(), ErrorKind::Crypto);
    let other = SigningKey::from_seed(&[4u8; 32]).unwrap();
    assert!(!envelope.verify_signature(other.public_key_bytes()).unwrap());
    envelope.encrypted_content[0] ^= 1;
    assert!(!envelope.verify_signature(key.public_key_bytes()).unwrap());
}

#[test]
fn test_direct_route() {
    let recipient = PersonId::new();
    let route = Route::direct(recipient);

    assert!(route.is_direct());
    assert_eq!(route.hop_count(), 0);
    assert_eq!(route.next_hop(), Some(recipient));
    assert_eq!(route.destination(), Some(recipient));
}

#[test]
fn test_multi_hop_route() {
    let node1 = PersonId::new();
    let node2 = PersonId::new();
    let node3 = PersonId::new();

    let mut route = Route::new(vec![node1, node2, node3]);

    assert!(!route.is_direct());
    assert_eq!(route.hop_count(), 2);

    assert_eq!(route.next_hop(), Some(node1));
    route.advance().unwrap();

    assert_eq!(route.next_hop(), Some(node2));
    route.advance().unwrap();

    assert_eq!(route.next_hop(), Some(node3));
    assert!(route.is_complete());

    assert_eq!(route.destination(), Some(node3));
}

#[test]
fn test_route_exhaustion() {
    let node = PersonId::new();
    let mut route = Route::direct(node);

    // Already at destination
    let result = route.advance();
    assert!(result.is_err());
    assert_eq!(result.unwrap_err().kind(), ErrorKind::Invalid);
    let mut nowhere = Route::new(vec![]);
    assert!(nowhere.advance().is_err());
    assert!(nowhere.is_complete());
    assert_eq!(nowhere.hop_count(), 0);
    assert_eq!(nowhere.next_hop(), None);
    assert_eq!(nowhere.destination(), None);
}

#[test]
fn test_message_router() {
    let router = MessageRouter::new();
    let sender = PersonId::new();
    let recipient = PersonId::new();

    let route = router.find_route(sender, recipient).unwrap();
    assert!(route.is_direct());
    assert_eq!(route.destination(), Some(recipient));
    let relay = router.find_relay_route(sender, recipient, 3).unwrap();
    assert_eq!(relay.nodes, vec![recipient]);
}
