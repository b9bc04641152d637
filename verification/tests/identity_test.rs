use underground_railroad_core::error::ErrorKind;
use underground_railroad_core::identity::persona::{PersonaBuilder, PersonaManager};
use underground_railroad_core::identity::qr::{generate_ascii_qr, link_payload, ContactCard, ContactQR};
use underground_railroad_core::identity::Identity;
use underground_railroad_core::types::{Fingerprint, PersonId};

#[test]
fn test_identity_creation() {
    let identity = Identity::generate("Alice", true).unwrap();

    assert_eq!(identity.name, "Alice");
    assert!(identity.is_primary);
    assert!(identity.public_key_bytes().len() > 0);
}

#[test]
fn test_identity_from_seed() {
    let seed = [42u8; 32];

    let id1 = Identity::from_seed("Test", &seed, false).unwrap();
    let id2 = Identity::from_seed("Test", &seed, false).unwrap();

    // Same seed should produce same keypair (but different ID)
    assert_eq!(id1.public_key_bytes(), id2.public_key_bytes());
    assert_ne!(id1.id, id2.id);
    assert_eq!(id1.fingerprint, id2.fingerprint);
}

#[test]
fn test_signing_and_verification() {
    let identity = Identity::generate("Bob", false).unwrap();
    let message = b"Hello, world!";

    let signature = identity.sign(message).unwrap();
    assert!(identity.verify(message, &signature).unwrap());

    // Wrong message should fail
    let wrong_message = b"Different message";
    assert!(!identity.verify(wrong_message, &signature).unwrap());
}

#[test]
fn test_encryption_and_decryption() {
    let alice = Identity::generate("Alice", false).unwrap();
    let bob = Identity::generate("Bob", false).unwrap();

    let plaintext = b"Secret message from Alice to Bob";

    // Alice encrypts for Bob
    let ciphertext = alice.encrypt_for(bob.keypair.encryption_key().public_key_bytes(), plaintext).unwrap();

    // Bob decrypts from Alice
    let decrypted = bob.decrypt_from(alice.keypair.encryption_key().public_key_bytes(), &ciphertext).unwrap();

    assert_eq!(decrypted, plaintext);
}

#[test]
fn mod_test_verification_words() {
    let identity = Identity::generate("Charlie", false).unwrap();
    let words = identity.verification_words();

    assert_eq!(words.len(), 3);
    // Words should be from the verification word list
    for word in words {
        assert!(!word.is_empty());
    }
}

#[test]
fn test_export_import() {
    let original = Identity::generate("David", true).unwrap();
    let password = "strong password 12345";

    // Export
    let encrypted = original.export_encrypted(password).unwrap();
    assert!(encrypted.len() > 0);

    // Import
    let imported = Identity::import_encrypted(&encrypted, password).unwrap();

    assert_eq!(original.id, imported.id);
    assert_eq!(original.name, imported.name);
    assert_eq!(original.public_key_bytes(), imported.public_key_bytes());
}

#[test]
fn test_import_wrong_password() {
    let original = Identity::generate("Eve", false).unwrap();
    let correct_password = "correct password";
    let wrong_password = "wrong password";

    let encrypted = original.export_encrypted(correct_password).unwrap();

    // Should fail with wrong password
    let result = Identity::import_encrypted(&encrypted, wrong_password);
    assert!(result.is_err());
    assert_eq!(result.err().map(|e| e.kind()), Some(ErrorKind::Crypto));
}

#[test]
fn a_backup_holds_the_whole_identity() {
    let mut original = Identity::from_seed("Grace", &[5u8; 32], true).unwrap();
    original.bind_mailbox(vec![1, 2, 3]);
    original.set_name("Grace H.");
    let backup = original.export_encrypted_with("pw", &[9u8; 32], &[1u8; 12]).unwrap();
    assert_eq!(&backup[..32], &[9u8; 32]);
    assert_eq!(&backup[32..44], &[1u8; 12]);
    let restored = Identity::import_encrypted(&backup, "pw").unwrap();
    assert_eq!(restored.id, original.id);
    assert_eq!(restored.name, "Grace H.");
    assert_eq!(restored.fingerprint, original.fingerprint);
    assert_eq!(restored.created_at, original.created_at);
    assert!(restored.is_primary);
    assert_eq!(restored.mailbox_descriptor, Some(vec![1, 2, 3]));
    assert_eq!(
        restored.keypair.encryption_key().kyber_secret(),
        original.keypair.encryption_key().kyber_secret()
    );
    assert_eq!(restored.keypair.signing_key().secret_key_bytes(), original.keypair.signing_key().secret_key_bytes());
    // too short, changed, and garbled backups
    assert_eq!(Identity::import_encrypted(&backup[..43], "pw").err().map(|e| e.kind()), Some(ErrorKind::Invalid));
    let mut changed = backup.clone();
    changed[50] ^= 1;
    assert_eq!(Identity::import_encrypted(&changed, "pw").err().map(|e| e.kind()), Some(ErrorKind::Crypto));
    assert!(original.export_encrypted_with("pw", &[9u8; 32], &[1u8; 11]).is_err());
    let bytes = original.to_bytes().unwrap();
    assert!(Identity::from_bytes(&bytes).is_some());
    assert!(Identity::from_bytes(&bytes[..bytes.len() - 1]).is_none());
    let mut longer = bytes.clone();
    longer.push(0);
    assert!(Identity::from_bytes(&longer).is_none());
}

#[test]
fn test_persona_manager_creation() {
    let manager = PersonaManager::new();
    assert_eq!(manager.count(), 0);
    assert!(manager.active_persona().is_none());
    assert!(manager.primary_persona().is_none());
}

#[test]
fn test_create_persona() {
    let mut manager = PersonaManager::new();

    let id = manager.create_persona("Alice", true).unwrap();

    assert_eq!(manager.count(), 1);
    assert!(manager.has_persona(id));
    assert_eq!(manager.active_persona().unwrap().name, "Alice");
    assert_eq!(manager.primary_persona().unwrap().name, "Alice");
}

#[test]
fn test_multiple_personas() {
    let mut manager = PersonaManager::new();

    let _alice_id = manager.create_persona("Alice", true).unwrap();
    let bob_id = manager.create_persona("Bob", false).unwrap();
    let _charlie_id = manager.create_persona("Charlie", false).unwrap();

    assert_eq!(manager.count(), 3);

    // Alice should be active (first one)
    assert_eq!(manager.active_persona().unwrap().name, "Alice");

    // Switch to Bob
    manager.switch_persona(bob_id).unwrap();
    assert_eq!(manager.active_persona().unwrap().name, "Bob");

    // Alice should still be primary
    assert_eq!(manager.primary_persona().unwrap().name, "Alice");
}

#[test]
fn test_delete_persona() {
    let mut manager = PersonaManager::new();

    let alice_id = manager.create_persona("Alice", true).unwrap();
    let bob_id = manager.create_persona("Bob", false).unwrap();

    // Can't delete primary
    assert!(manager.delete_persona(alice_id).is_err());

    // Can't delete active (Alice is active)
    assert!(manager.delete_persona(alice_id).is_err());

    // Switch to Bob
    manager.switch_persona(bob_id).unwrap();

    // Still can't delete primary
    assert!(manager.delete_persona(alice_id).is_err());

    // Bob IS active now, so can't delete
    assert!(manager.delete_persona(bob_id).is_err());
}

#[test]
fn test_list_personas() {
    let mut manager = PersonaManager::new();

    manager.create_persona("Alice", true).unwrap();
    manager.create_persona("Bob", false).unwrap();
    manager.create_persona("Charlie", false).unwrap();

    let list = manager.list_personas();
    assert_eq!(list.len(), 3);

    // One should be primary
    assert_eq!(list.iter().filter(|p| p.is_primary).count(), 1);

    // One should be active
    assert_eq!(list.iter().filter(|p| p.is_active).count(), 1);
}

#[test]
fn at_most_one_persona_is_primary() {
    let mut manager = PersonaManager::new();
    let alice = manager.create_persona("Alice", true).unwrap();
    let bob = manager.create_persona("Bob", true).unwrap();
    let carol = manager.create_persona("Carol", false).unwrap();
    manager.check();
    let list = manager.list_personas();
    assert_eq!(list.iter().filter(|p| p.is_primary).count(), 1);
    assert_eq!(manager.primary_persona().unwrap().id, bob);
    assert!(!manager.get_persona(alice).unwrap().is_primary);
    // Alice came into use first and stays in use
    assert_eq!(manager.active_persona().unwrap().id, alice);

    manager.set_primary(carol).unwrap();
    let list = manager.list_personas();
    assert_eq!(list.iter().filter(|p| p.is_primary).count(), 1);
    assert_eq!(manager.primary_persona().unwrap().id, carol);
    assert_eq!(list.iter().map(|p| p.name.clone()).collect::<Vec<_>>(), vec!["Alice", "Bob", "Carol"]);

    // an unknown persona cannot become primary, and nothing changes
    assert_eq!(manager.set_primary(PersonId(1)).unwrap_err().kind(), ErrorKind::NotFound);
    assert_eq!(manager.primary_persona().unwrap().id, carol);

    // the primary persona cannot be deleted, another can
    assert_eq!(manager.delete_persona(carol).unwrap_err().kind(), ErrorKind::PermissionDenied);
    assert_eq!(manager.delete_persona(alice).unwrap_err().kind(), ErrorKind::PermissionDenied);
    assert_eq!(manager.delete_persona(PersonId(1)).unwrap_err().kind(), ErrorKind::NotFound);
    manager.delete_persona(bob).unwrap();
    assert_eq!(manager.count(), 2);
    assert!(!manager.has_persona(bob));

    // an identity that is added again takes the place of the old one
    let mut again = manager.get_persona(alice).unwrap().clone();
    again.set_name("Alice II");
    again.is_primary = true;
    manager.add_persona(again).unwrap();
    assert_eq!(manager.count(), 2);
    let list = manager.list_personas();
    assert_eq!(list[0].name, "Alice II");
    assert_eq!(list.iter().filter(|p| p.is_primary).count(), 1);
    assert!(list[0].is_primary);
}

#[test]
fn test_persona_builder() {
    let persona = PersonaBuilder::new("Test User").primary().build().unwrap();

    assert_eq!(persona.name, "Test User");
    assert!(persona.is_primary);
}

#[test]
fn test_persona_builder_from_seed() {
    let seed = [42u8; 32];

    let persona1 = PersonaBuilder::new("Test").from_seed(seed).build().unwrap();

    let persona2 = PersonaBuilder::new("Test").from_seed(seed).build().unwrap();

    // Same seed = same keys (but different IDs)
    assert_eq!(persona1.public_key_bytes(), persona2.public_key_bytes());
    assert_ne!(persona1.id, persona2.id);
    assert!(!persona1.is_primary);
}

#[test]
fn test_switch_invalid_persona() {
    let mut manager = PersonaManager::new();

    let fake_id = PersonId::new();
    assert!(manager.switch_persona(fake_id).is_err());
}

fn sample_card() -> ContactCard {
    ContactCard::new("Alice", PersonId::new(), vec![1, 2, 3, 4], Fingerprint::new([0u8; 32]))
}

#[test]
fn test_contact_card_encode_decode() {
    let card = sample_card();

    let encoded = card.encode().unwrap();
    assert!(!encoded.is_empty());

    let decoded = ContactCard::decode(&encoded).unwrap();
    assert_eq!(decoded.name, card.name);
    assert_eq!(decoded.id, card.id);
    assert_eq!(decoded.public_key, card.public_key);
}

#[test]
fn test_contact_card_expiration() {
    let past = chrono::Utc::now().timestamp() - 3600; // 1 hour ago
    let future = chrono::Utc::now().timestamp() + 3600; // 1 hour from now

    let expired = sample_card().with_expiration(past);
    assert!(expired.is_expired());

    let valid = sample_card().with_expiration(future);
    assert!(!valid.is_expired());
}

#[test]
fn test_contact_card_expiration_check_on_decode() {
    let past = chrono::Utc::now().timestamp() - 3600;
    let expired_card = sample_card().with_expiration(past);

    let encoded = expired_card.encode().unwrap();

    // Should fail to decode expired card
    let result = ContactCard::decode(&encoded);
    assert!(result.is_err());
}

#[test]
fn test_contact_qr_format() {
    let card = sample_card();
    let qr = ContactQR::new(card);

    let data = qr.data().unwrap();
    assert!(data.starts_with("railroad://contact/"));
}

#[test]
fn test_contact_qr_parse() {
    let card = sample_card();
    let qr = ContactQR::new(card.clone());

    let data = qr.data().unwrap();

    let parsed_card = ContactQR::parse(&data).unwrap();
    assert_eq!(parsed_card.name, card.name);
    assert_eq!(parsed_card.id, card.id);
}

#[test]
fn test_contact_qr_invalid_prefix() {
    let result = ContactQR::parse("invalid://data");
    assert!(result.is_err());
    assert_eq!(result.err().map(|e| e.kind()), Some(ErrorKind::Invalid));
}

#[test]
fn qr_test_verification_words() {
    let card = sample_card();
    let words = card.verification_words();

    assert_eq!(words.len(), 3);
}

#[test]
fn test_ascii_qr_generation() {
    let ascii = generate_ascii_qr("test data");
    assert!(ascii.contains("QR CODE"));
    assert!(ascii.contains("test"));
}

#[test]
fn the_picture_shows_twenty_bytes() {
    let ascii = generate_ascii_qr("0123456789abcdefghijKLMN");
    assert!(ascii.contains("Data: 0123456789abcdefghij..."));
    assert!(!ascii.contains("K"));
    let short = generate_ascii_qr("");
    assert!(short.contains("Data: ..."));
    // eleven characters of two bytes: ten of them are the first twenty bytes
    let umlauts = generate_ascii_qr("äöüäöüäöüäö");
    assert!(umlauts.contains("Data: äöüäöüäöüä..."));
    assert!(!umlauts.contains("äöüäöüäöüäö"));
    // the twentieth byte lies within a character: the text ends before it
    let split = generate_ascii_qr("0123456789abcdefghiäK");
    assert!(split.contains("Data: 0123456789abcdefghi..."));
    assert!(!split.contains("ä"));
    let wide = generate_ascii_qr("0123456789abcdefg\u{1F600}K");
    assert!(wide.contains("Data: 0123456789abcdefg..."));
}

#[test]
fn a_card_reads_back_as_it_was_written() {
    let card = ContactCard::new("Zoë", PersonId(77), vec![5; 32], Fingerprint::new([9u8; 32]))
        .with_veilid_route(vec![1, 2, 3])
        .with_expiration(2_000_000_000);
    let bytes = card.to_bytes().unwrap();
    // name behind its length, then the identifier
    assert_eq!(&bytes[..4], &[0, 0, 0, 4]);
    assert_eq!(&bytes[4..8], "Zoë".as_bytes());
    assert_eq!(bytes[8 + 15], 77);
    let back = ContactCard::from_bytes(&bytes).unwrap();
    assert_eq!(back.name, "Zoë");
    assert_eq!(back.id, PersonId(77));
    assert_eq!(back.public_key, vec![5; 32]);
    assert_eq!(back.fingerprint, Fingerprint::new([9u8; 32]));
    assert_eq!(back.veilid_route, Some(vec![1, 2, 3]));
    assert_eq!(back.expires_at, Some(2_000_000_000));
    assert!(ContactCard::from_bytes(&bytes[..bytes.len() - 1]).is_none());
    let mut longer = bytes.clone();
    longer.push(0);
    assert!(ContactCard::from_bytes(&longer).is_none());
    let mut bad_name = bytes.clone();
    bad_name[4] = 0xff;
    assert!(ContactCard::from_bytes(&bad_name).is_none());

    let encoded = card.encode().unwrap();
    assert!(ContactCard::decode_at(&encoded, 2_000_000_000).is_ok());
    assert_eq!(ContactCard::decode_at(&encoded, 2_000_000_001).unwrap_err().kind(), ErrorKind::Invalid);
    assert_eq!(ContactCard::decode_at("not base64!", 0).unwrap_err().kind(), ErrorKind::Serialization);
    assert_eq!(ContactCard::decode_at("AAAA", 0).unwrap_err().kind(), ErrorKind::Serialization);
    let negative = ContactCard::new("n", PersonId(1), vec![], Fingerprint::new([0u8; 32])).with_expiration(-5);
    let back = ContactCard::from_bytes(&negative.to_bytes().unwrap()).unwrap();
    assert_eq!(back.expires_at, Some(-5));
    assert!(back.is_expired_at(-4));
    assert!(!back.is_expired_at(-5));

    let link = ContactQR::new(card).data().unwrap();
    assert_eq!(link_payload(&link), Some(encoded));
    assert_eq!(link_payload("railroad://contact"), None);
    assert_eq!(link_payload("railroad://contact/"), Some(String::new()));
    assert_eq!(link_payload("Railroad://contact/abc"), None);
    assert_eq!(ContactQR::parse_at(&link, 0).unwrap().name, "Zoë");
    assert_eq!(ContactQR::parse_at("railroad://contact/%%%", 0).unwrap_err().kind(), ErrorKind::Serialization);
}
