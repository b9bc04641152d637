use underground_railroad_core::bridge::{
    contact_from_words, contact_info, contact_mailbox_key, conversation_info, received_text, sum_of_bytes, decrypt_bytes, decrypt_data, derive_encryption_key, derive_key,
    encrypt_bytes, encrypt_data_with_nonce, generate_key_salt, generate_secure_random, hash_blake3, hash_data,
    health_check,
};
use underground_railroad_core::error::ErrorKind;
use underground_railroad_core::messaging::{Message, MessageStatus, MessageType};
use underground_railroad_core::trust::Contact;
use underground_railroad_core::types::{
    CoarseTimestamp, Fingerprint, MessageId, PersonId, SafeHouseId, SecureBytes, TrustLevel,
};
use underground_railroad_core::text::{is_space, split_words};
use underground_railroad_core::veilid_manager::{fresh_key, TextMap, UndergroundError, VeilidManager};

#[test]
fn test_blake3_hash() {
    let data = b"test data";
    let hash1 = hash_blake3(data);
    let hash2 = hash_blake3(data);

    assert_eq!(hash1, hash2);
}

#[test]
fn blake3_of_nothing_is_the_published_digest() {
    let expected: [u8; 32] = [
        0xaf, 0x13, 0x49, 0xb9, 0xf5, 0xf9, 0xa1, 0xa6, 0xa0, 0x40, 0x4d, 0xea, 0x36, 0xdc, 0xc9, 0x49, 0x9b, 0xcb,
        0x25, 0xc9, 0xad, 0xc1, 0x12, 0xb7, 0xcc, 0x9a, 0x93, 0xca, 0xe4, 0x1f, 0x32, 0x62,
    ];
    assert_eq!(hash_blake3(b""), expected);
    assert_ne!(hash_blake3(b"a"), expected);
}

#[test]
fn hash_data_is_the_digest_as_bytes() {
    let digest = hash_data(b"test data".to_vec()).unwrap();
    assert_eq!(digest.len(), 32);
    assert_eq!(digest.as_slice(), hash_blake3(b"test data").as_slice());
    assert_ne!(digest.as_slice(), b"test data".as_slice());
}

#[test]
fn test_veilid_manager_lifecycle() {
    let manager = VeilidManager::new();

    assert!(!manager.is_initialized());
}

#[test]
fn a_node_refuses_until_it_is_started() {
    let mut node = VeilidManager::new();
    assert!(matches!(node.dht_set("k", vec![1]), Err(UndergroundError::NotInitialized)));
    assert!(matches!(node.dht_get("k"), Err(UndergroundError::NotInitialized)));
    assert!(matches!(node.create_identity(), Err(UndergroundError::NotInitialized)));
    assert!(matches!(node.create_private_route(), Err(UndergroundError::NotInitialized)));
    assert!(matches!(node.send_via_private_route("r", vec![1]), Err(UndergroundError::NotInitialized)));

    node.initialize("/tmp/node".to_string()).unwrap();
    assert!(node.is_initialized());
    node.initialize("/tmp/other".to_string()).unwrap();
    assert!(node.is_initialized());
    assert_eq!(node.dht_get("k").unwrap(), None);
}

#[test]
fn records_are_kept_by_key() {
    let mut node = VeilidManager::new();
    node.initialize("/tmp/node".to_string()).unwrap();

    node.dht_set("first", vec![1, 2, 3]).unwrap();
    node.dht_set("second", vec![4]).unwrap();
    assert_eq!(node.dht_get("first").unwrap(), Some(vec![1, 2, 3]));
    assert_eq!(node.dht_get("second").unwrap(), Some(vec![4]));
    assert_eq!(node.dht_get("third").unwrap(), None);

    node.dht_set("first", vec![9]).unwrap();
    assert_eq!(node.dht_get("first").unwrap(), Some(vec![9]));
    assert_eq!(node.dht_get("second").unwrap(), Some(vec![4]));

    node.shutdown().unwrap();
    assert!(!node.is_initialized());
    assert!(node.dht_get("first").is_err());
    node.initialize("/tmp/node".to_string()).unwrap();
    assert_eq!(node.dht_get("first").unwrap(), Some(vec![9]));
}

#[test]
fn identities_and_routes_carry_their_tags() {
    let mut node = VeilidManager::new();
    node.initialize("/tmp/node".to_string()).unwrap();

    let identity = node.create_identity().unwrap();
    assert!(identity.public_key.starts_with("VLD1:pub:"));
    assert!(identity.secret_key.starts_with("VLD1:sec:"));
    assert!(identity.dht_key.starts_with("VLD1:dht:"));
    assert!(identity.route.starts_with("VLD1:route:"));
    assert_eq!(identity.public_key.len(), "VLD1:pub:".len() + 64);
    assert_eq!(identity.route.len(), "VLD1:route:".len() + 64);
    assert!(identity.dht_key["VLD1:dht:".len()..].chars().all(|c| c.is_ascii_hexdigit()));

    let route = node.create_private_route().unwrap();
    assert!(route.starts_with("VLD1:route:"));
    assert_eq!(route.len(), "VLD1:route:".len() + 64);
    node.send_via_private_route(&route, vec![1, 2]).unwrap();
    node.send_via_private_route(&route, vec![3]).unwrap();
    node.send_via_private_route("VLD1:route:unknown", vec![7]).unwrap();

    let key = fresh_key("tag:");
    assert!(key.starts_with("tag:"));
    assert_eq!(key.len(), 4 + 64);
    assert_ne!(key, fresh_key("tag:"));
}

#[test]
fn a_table_keeps_one_value_for_each_key() {
    let mut table: TextMap<u32> = TextMap::new();
    assert_eq!(table.get("a"), None);
    table.insert("a", 1);
    table.insert("b", 2);
    table.insert("a", 3);
    assert_eq!(table.get("a"), Some(&3));
    assert_eq!(table.get("b"), Some(&2));
    assert_eq!(table.get("c"), None);
}

#[test]
fn errors_of_the_node_read_as_text() {
    assert_eq!(UndergroundError::NotInitialized.to_string(), "Not initialized");
    assert_eq!(UndergroundError::InvalidKey.to_string(), "Invalid key");
    assert_eq!(UndergroundError::AuthenticationFailed.to_string(), "Authentication failed");
    assert_eq!(UndergroundError::Veilid("down".to_string()).to_string(), "Veilid error: down");
    assert_eq!(UndergroundError::Crypto("bad".to_string()).to_string(), "Crypto error: bad");
    assert_eq!(UndergroundError::Storage("full".to_string()).to_string(), "Storage error: full");
    assert_eq!(UndergroundError::Io("gone".to_string()).to_string(), "IO error: gone");
    assert_eq!(UndergroundError::Serialization("eof".to_string()).to_string(), "Serialization error: eof");
    assert_eq!(UndergroundError::Unknown("?".to_string()).to_string(), "Unknown error: ?");
}

#[test]
fn a_conversation_shows_its_last_message() {
    let contact = PersonId(7);
    let text = Message::draft(
        MessageId(1),
        PersonId(1),
        contact,
        MessageType::Text { content: "see you at nine".to_string() },
        CoarseTimestamp::from_secs(1_700_000_350),
        None,
    );
    let info = conversation_info(contact, Some("Harriet".to_string()), 3, Some(&text));
    assert_eq!(info.contact_id, "00000000-0000-0000-0000-000000000007");
    assert_eq!(info.contact_name, "Harriet");
    assert_eq!(info.message_count, 3);
    assert_eq!(info.unread_count, 0);
    assert_eq!(info.last_message.as_deref(), Some("see you at nine"));
    assert_eq!(info.last_message_time, Some(1_700_000_100));

    let update = Message::draft(
        MessageId(2),
        PersonId(1),
        contact,
        MessageType::SafeHouseUpdate { safe_house_id: SafeHouseId(5), available: true, capacity: 2 },
        CoarseTimestamp::from_secs(1_700_000_400),
        None,
    );
    let info = conversation_info(contact, None, 1, Some(&update));
    assert_eq!(info.contact_name, "Unknown");
    assert_eq!(info.last_message.as_deref(), Some("[Non-text message]"));
    assert_eq!(info.last_message_time, Some(1_700_000_400));

    let info = conversation_info(contact, None, 0, None);
    assert_eq!(info.message_count, 0);
    assert_eq!(info.last_message, None);
    assert_eq!(info.last_message_time, None);
}

#[test]
fn the_mailbox_key_of_a_contact_is_its_route_as_text() {
    let with = |route: Vec<u8>| {
        Contact::new(PersonId(3), "Moses", Fingerprint::new([0u8; 32]), SecureBytes::new(route), TrustLevel::Unknown)
    };
    assert_eq!(contact_mailbox_key(&with(Vec::new())).ok(), Some(None));
    assert_eq!(contact_mailbox_key(&with(b"VLD0:abc".to_vec())).ok(), Some(Some("VLD0:abc".to_string())));
    assert_eq!(
        contact_mailbox_key(&with(vec![0xff, 0xfe])).err().map(|e| e.kind()),
        Some(ErrorKind::Invalid)
    );
}

#[test]
fn sealing_under_a_given_nonce_is_repeatable() {
    let key = [7u8; 32];
    let nonce = [9u8; 12];
    let one = encrypt_data_with_nonce(&key, &nonce, b"north star").unwrap();
    let two = encrypt_data_with_nonce(&key, &nonce, b"north star").unwrap();
    assert_eq!(one, two);
    assert_eq!(one.len(), 12 + 10 + 16);
    assert_eq!(&one[..12], &nonce);
    assert_ne!(&one[12..22], b"north star");
    assert_eq!(decrypt_data(&key, &one).unwrap(), b"north star");

    let other = encrypt_data_with_nonce(&key, &[8u8; 12], b"north star").unwrap();
    assert_ne!(one[12..], other[12..]);

    assert_eq!(
        encrypt_data_with_nonce(&key, &[9u8; 11], b"x").err().map(|e| e.kind()),
        Some(ErrorKind::Crypto)
    );
    assert_eq!(
        encrypt_data_with_nonce(&key[..31], &nonce, b"x").err().map(|e| e.kind()),
        Some(ErrorKind::Crypto)
    );
}

#[test]
fn the_front_end_gets_plain_bytes_and_text() {
    let salt = vec![5u8; 32];
    let key = derive_encryption_key("test_password_123".to_string(), salt.clone()).unwrap();
    assert_eq!(key.as_slice(), derive_key("test_password_123", &salt).unwrap().as_slice());
    assert_eq!(key.len(), 32);

    for salt in [vec![], vec![1], vec![1, 2], vec![1, 2, 3], vec![1, 2, 3, 4, 5, 6, 7]] {
        let short = derive_encryption_key("test_password_123".to_string(), salt).unwrap_err();
        assert!(short.starts_with("Cryptographic error: "));
    }
    assert!(derive_encryption_key("test_password_123".to_string(), vec![1u8; 8]).is_ok());
    assert!(derive_encryption_key("test_password_123".to_string(), vec![1u8; 48]).is_ok());
    assert!(derive_encryption_key("test_password_123".to_string(), vec![1u8; 49]).is_err());

    assert_eq!(generate_key_salt().unwrap().len(), 32);
    assert_eq!(generate_secure_random(48).unwrap().len(), 48);
    assert_eq!(generate_secure_random(0).unwrap().len(), 0);

    let sealed = encrypt_bytes(key.clone(), b"hello".to_vec()).unwrap();
    assert_eq!(decrypt_bytes(key.clone(), sealed.clone()).unwrap(), b"hello");
    let mut damaged = sealed.clone();
    damaged[14] ^= 0x80;
    assert!(decrypt_bytes(key.clone(), damaged).unwrap_err().starts_with("Cryptographic error: "));
    assert!(encrypt_bytes(vec![1u8; 16], b"hello".to_vec()).unwrap_err().starts_with("Cryptographic error: "));
    assert!(decrypt_bytes(key, vec![1, 2, 3]).unwrap_err().starts_with("Cryptographic error: "));

    assert_eq!(health_check().unwrap(), "Underground Railroad Rust Core: OK");
}

#[test]
fn a_text_is_split_at_white_space() {
    assert_eq!(split_words("able baker charlie"), vec!["able", "baker", "charlie"]);
    assert_eq!(split_words("  able\tbaker\n\ncharlie \r\n"), vec!["able", "baker", "charlie"]);
    assert_eq!(split_words("able\u{a0}baker\u{3000}charlie\u{2003}dog"), vec!["able", "baker", "charlie", "dog"]);
    assert_eq!(split_words("able-baker,charlie"), vec!["able-baker,charlie"]);
    assert_eq!(split_words("x"), vec!["x"]);
    assert_eq!(split_words(""), Vec::<String>::new());
    assert_eq!(split_words(" \t "), Vec::<String>::new());
    for text in ["a b", " \u{85}x\u{1680}y\u{2028}z\u{2029}w\u{202f}v\u{205f}u ", "\u{b}a\u{c}b", "a\u{200b}b\u{feff}c"] {
        let expected: Vec<String> = text.split_whitespace().map(|w| w.to_string()).collect();
        assert_eq!(split_words(text), expected);
    }
    for code in 0u32..0x3100 {
        if let Some(c) = char::from_u32(code) {
            assert_eq!(is_space(c), c.is_whitespace());
        }
    }
}

#[test]
fn a_contact_is_added_by_its_words() {
    let at = CoarseTimestamp::from_secs(1_700_000_100);
    let contact = contact_from_words(PersonId(9), "Harriet", "able  baker charlie", "VLD0:box", at).unwrap();
    assert_eq!(contact.id, PersonId(9));
    assert_eq!(contact.info.name, "Harriet");
    assert_eq!(contact.trust_level, TrustLevel::Unknown);
    assert_eq!(contact.added_at, at);
    let mut expected = [0u8; 32];
    expected[0] = 148;
    expected[1] = 5;
    expected[2] = 216;
    assert_eq!(contact.fingerprint.as_bytes(), &expected);
    assert_eq!(contact.veilid_route.as_bytes(), b"VLD0:box");
    assert_eq!(contact.tags, vec!["fp:able  baker charlie".to_string()]);
    assert_eq!(contact_mailbox_key(&contact).ok(), Some(Some("VLD0:box".to_string())));
    assert_eq!(sum_of_bytes("é".as_bytes()), 108);
    assert_eq!(sum_of_bytes(b""), 0);

    let info = contact_info(&contact);
    assert_eq!(info.id, "00000000-0000-0000-0000-000000000009");
    assert_eq!(info.name, "Harriet");
    assert_eq!(info.fingerprint, "able  baker charlie");

    let many: Vec<String> = (0..40).map(|_| "x".to_string()).collect();
    let crowded = contact_from_words(PersonId(9), "Harriet", &many.join(" "), "", at).unwrap();
    assert_eq!(crowded.fingerprint.as_bytes(), &[120u8; 32]);

    for words in ["", "able", "able baker", " able \n baker "] {
        assert_eq!(
            contact_from_words(PersonId(9), "Harriet", words, "VLD0:box", at).err().map(|e| e.kind()),
            Some(ErrorKind::Invalid)
        );
    }
}

#[test]
fn a_contact_without_kept_words_shows_the_words_of_its_fingerprint() {
    let mut contact =
        Contact::new(PersonId(3), "Moses", Fingerprint::new([0u8; 32]), SecureBytes::new(Vec::new()), TrustLevel::Unknown);
    let words = contact.verification_words();
    assert_eq!(contact_info(&contact).fingerprint, format!("{} {} {}", words[0], words[1], words[2]));
    contact.add_tag("driver");
    contact.add_tag("fp");
    assert_eq!(contact_info(&contact).fingerprint, format!("{} {} {}", words[0], words[1], words[2]));
    contact.add_tag("fp:one two three");
    contact.add_tag("fp:four five six");
    assert_eq!(contact_info(&contact).fingerprint, "one two three");
    contact.add_tag("fp:");
    assert_eq!(contact_info(&contact).fingerprint, "one two three");
}

#[test]
fn a_text_that_arrived_is_delivered() {
    let message = received_text(MessageId(4), PersonId(1), PersonId(2), "on my way", 1_700_000_350);
    assert_eq!(message.id, MessageId(4));
    assert_eq!(message.sender, PersonId(1));
    assert_eq!(message.recipient, PersonId(2));
    assert!(matches!(&message.message_type, MessageType::Text { content } if content == "on my way"));
    assert_eq!(message.created_at.as_secs(), 1_700_000_100);
    assert!(message.expires_at.is_none());
    assert_eq!(message.status, MessageStatus::Delivered);
    assert_eq!(message.hop_count, 0);
    assert_eq!(received_text(MessageId(4), PersonId(1), PersonId(2), "", i64::MIN).created_at.as_secs() % 300, 0);
}
