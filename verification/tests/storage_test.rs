use underground_railroad_core::assistance::emergency::{EmergencyNeed, EmergencyRequest, EmergencyStatus};
use underground_railroad_core::assistance::intelligence::{DangerLevel, IntelligenceCategory, IntelligenceReport};
use underground_railroad_core::assistance::safe_house::{Accommodation, SafeHouse, SafeHouseCapability, SafeHouseStatus};
use underground_railroad_core::bridge::{
    accept_for, id_text, message_info, parse_need, parse_needs, parse_person_id, parse_urgency, read_salt,
    to_string_err, user_dir_name,
};
use underground_railroad_core::crypto::keys::StorageKey;
use underground_railroad_core::error::{Error, ErrorKind};
use underground_railroad_core::identity::Identity;
use underground_railroad_core::messaging::protocol::{Message, MessageStatus};
use underground_railroad_core::storage::database::{
    cipher_pragmas, companion_extensions, config_pragmas, key_text, open_plan, overwrite_block, overwrite_fill,
    DatabaseConfig, Fill, OpenPlan, PragmaValue, OVERWRITE_PASSES,
};
use underground_railroad_core::storage::migrations::{pending_migrations, version_after, Migration, MIGRATIONS};
use underground_railroad_core::storage::repository::{
    contact_of, is_to_expire, lists_as_active, lists_as_available, lists_as_high_danger, lists_as_relevant,
    waits_to_be_sent, MessageDirection,
};
use underground_railroad_core::storage::rows::{
    contact_to_row, emergency_to_row, identity_to_row, intelligence_to_row, read_names, row_to_contact,
    row_to_emergency, row_to_identity, row_to_intelligence, row_to_safe_house, safe_house_to_row, write_names,
};
use underground_railroad_core::storage::schema::{schema_version, table_name, SCHEMA_VERSION, TABLE_COUNT};
use underground_railroad_core::storage::DatabasePaths;
use underground_railroad_core::trust::contact::{Capability, Contact};
use underground_railroad_core::types::{
    CoarseTimestamp, EmergencyId, Fingerprint, IntelReportId, PersonId, Region, SafeHouseId, SecureBytes, TrustLevel,
    Urgency,
};

#[test]
fn test_migrations_empty() {
    // With no migrations defined, this should be a no-op
    assert_eq!(MIGRATIONS.len(), 0);
}

#[test]
fn only_later_migrations_are_pending() {
    let all = [
        Migration { version: 2, description: "two" },
        Migration { version: 3, description: "three" },
        Migration { version: 5, description: "five" },
    ];
    let versions = |current| pending_migrations(&all, current).iter().map(|m| m.version).collect::<Vec<_>>();
    assert_eq!(versions(1), vec![2, 3, 5]);
    assert_eq!(versions(2), vec![3, 5]);
    assert_eq!(versions(4), vec![5]);
    assert_eq!(versions(5), Vec::<i32>::new());
    assert_eq!(version_after(&pending_migrations(&all, 2), 2), 5);
    assert_eq!(version_after(&pending_migrations(&all, 7), 7), 7);
    assert!(pending_migrations(&MIGRATIONS, 0).is_empty());
}

#[test]
fn test_database_paths() {
    let paths = DatabasePaths::from_dir("/tmp/urr-data");

    assert!(paths.database.ends_with("underground-railroad.db"));
    assert!(paths.journal.ends_with("underground-railroad.db-journal"));
    assert!(paths.backup.is_some());

    let all = paths.all_paths();
    assert!(all.len() >= 2);
    assert_eq!(all, vec![
        "/tmp/urr-data/underground-railroad.db",
        "/tmp/urr-data/underground-railroad.db-journal",
        "/tmp/urr-data/underground-railroad.db.backup",
    ]);
    let mut without = paths.clone();
    without.backup = None;
    assert_eq!(without.all_paths().len(), 2);
}

#[test]
fn settings_of_the_store() {
    let config = DatabaseConfig::new("/tmp/urr-data/railroad.db");
    assert_eq!(config.path, "/tmp/urr-data/railroad.db");
    assert!(config.wal_mode && config.auto_vacuum);
    assert_eq!(config.cache_size, 2000);
    let key = StorageKey::new([0xABu8; 32]);
    assert_eq!(key_text(&key), format!("\"x'{}'\"", "ab".repeat(32)));
    let pragmas = cipher_pragmas(&key);
    let names: Vec<&str> = pragmas.iter().map(|p| p.name).collect();
    assert_eq!(names, vec!["key", "cipher_page_size", "kdf_iter", "cipher_hmac_algorithm", "cipher_kdf_algorithm"]);
    assert!(matches!(pragmas[1].value, PragmaValue::Number(4096)));
    assert!(matches!(pragmas[2].value, PragmaValue::Number(256000)));
    assert!(matches!(&pragmas[3].value, PragmaValue::Text(t) if t == "HMAC_SHA512"));
    assert!(matches!(&pragmas[4].value, PragmaValue::Text(t) if t == "PBKDF2_HMAC_SHA512"));
    let names: Vec<&str> = config_pragmas(&config).iter().map(|p| p.name).collect();
    assert_eq!(names, vec!["journal_mode", "auto_vacuum", "cache_size", "foreign_keys"]);
    let mut plain = config.clone();
    plain.wal_mode = false;
    plain.auto_vacuum = false;
    plain.cache_size = 10;
    let pragmas = config_pragmas(&plain);
    assert_eq!(pragmas.len(), 2);
    assert!(matches!(pragmas[0].value, PragmaValue::Number(10)));
}

#[test]
fn schema_and_opening() {
    assert_eq!(SCHEMA_VERSION, 1);
    assert_eq!(TABLE_COUNT, 10);
    let names: Vec<&str> = (0..TABLE_COUNT).map(table_name).collect();
    assert_eq!(
        names,
        vec![
            "identity",
            "contacts",
            "safe_houses",
            "transportation",
            "emergencies",
            "intelligence",
            "messages",
            "trust_relationships",
            "settings",
            "metadata"
        ]
    );
    assert_eq!(schema_version(None), 0);
    assert_eq!(schema_version(Some("1")), 1);
    assert_eq!(schema_version(Some("-3")), -3);
    assert_eq!(schema_version(Some("one")), 0);
    assert_eq!(schema_version(Some("99999999999")), 0);
    assert_eq!(open_plan(0), OpenPlan::CreateSchema);
    assert_eq!(open_plan(1), OpenPlan::Ready);
    assert_eq!(open_plan(2), OpenPlan::Ready);
    assert_eq!(open_plan(-1), OpenPlan::Migrate(-1));
}

#[test]
fn three_passes_of_overwriting() {
    assert_eq!(OVERWRITE_PASSES, 3);
    assert_eq!(overwrite_fill(0), Some(Fill::Random));
    assert_eq!(overwrite_fill(1), Some(Fill::Byte(0x00)));
    assert_eq!(overwrite_fill(2), Some(Fill::Byte(0xFF)));
    assert_eq!(overwrite_fill(3), None);
    assert_eq!(overwrite_block(0, 64).unwrap().len(), 64);
    assert_ne!(overwrite_block(0, 64).unwrap(), overwrite_block(0, 64).unwrap());
    assert_eq!(overwrite_block(1, 5), Some(vec![0u8; 5]));
    assert_eq!(overwrite_block(2, 5), Some(vec![0xFFu8; 5]));
    assert_eq!(overwrite_block(3, 5), None);
    assert_eq!(companion_extensions(), vec!["db-wal", "db-shm"]);
}

#[test]
fn a_contact_goes_through_its_row() {
    let mut contact = Contact::new_at(
        PersonId(0x1122),
        "Test Contact",
        Fingerprint::new([3u8; 32]),
        SecureBytes::new(vec![1, 2, 3, 4]),
        TrustLevel::VerifiedRemote,
        CoarseTimestamp::from_secs(600),
    );
    contact.add_tag("driver");
    contact.add_tag("fp:a b c");
    contact.info.add_language("en");
    contact.add_capability(Capability::Medical);
    contact.add_capability(Capability::Relay);
    contact.info.region = Some(Region::new("North"));
    contact.introduced_by = Some(PersonId(9));
    contact.notes = Some(SecureBytes::new(vec![7]));
    contact.update_last_contact_at(CoarseTimestamp::from_secs(900));
    let row = contact_to_row(&contact);
    assert_eq!(row.id.len(), 16);
    assert_eq!(row.id[14..], [0x11, 0x22]);
    assert_eq!(row.trust_level, 3);
    assert_eq!(row.capabilities.as_deref(), Some("[\"Medical\",\"Relay\"]"));
    assert_eq!(row.tags.as_deref(), Some("[\"driver\",\"fp:a b c\"]"));
    assert_eq!(row.added_at, 600);
    assert_eq!(row.last_contact, Some(900));
    let back = row_to_contact(&row).unwrap();
    assert_eq!(back.id, contact.id);
    assert_eq!(back.info.name, "Test Contact");
    assert_eq!(back.info.region, Some(Region::new("North")));
    assert_eq!(back.info.languages, vec!["en".to_string()]);
    assert_eq!(back.info.capabilities, vec![Capability::Medical, Capability::Relay]);
    assert_eq!(back.tags, contact.tags);
    assert_eq!(back.trust_level, TrustLevel::VerifiedRemote);
    assert_eq!(back.fingerprint, contact.fingerprint);
    assert_eq!(back.veilid_route.as_bytes(), &[1, 2, 3, 4]);
    assert_eq!(back.added_at, contact.added_at);
    assert_eq!(back.last_contact, contact.last_contact);
    assert_eq!(back.introduced_by, Some(PersonId(9)));
    assert_eq!(back.notes.map(|n| n.as_bytes().to_vec()), Some(vec![7]));
    assert!(back.available);

    // what cannot be read
    let mut odd = row.clone();
    odd.trust_level = 42;
    odd.capabilities = Some("[\"Medical\",\"Flying\"]".to_string());
    odd.languages = Some("not json".to_string());
    odd.tags = None;
    odd.added_at = 601;
    let read = row_to_contact(&odd).unwrap();
    assert_eq!(read.trust_level, TrustLevel::Unknown);
    assert!(read.info.capabilities.is_empty());
    assert!(read.info.languages.is_empty());
    assert!(read.tags.is_empty());
    assert_eq!(read.added_at.as_secs(), 600);
    let mut broken = row.clone();
    broken.id.pop();
    assert_eq!(row_to_contact(&broken).err().map(|e| e.kind()), Some(ErrorKind::Serialization));
    let mut broken = row.clone();
    broken.fingerprint.push(0);
    assert!(row_to_contact(&broken).is_err());
    let mut broken = row.clone();
    broken.introduced_by = Some(vec![1, 2]);
    assert!(row_to_contact(&broken).is_err());
    assert_eq!(read_names(&write_names(&vec!["a\"b".to_string(), "ü".to_string()])), vec!["a\"b", "ü"]);
    assert!(read_names(&Some("[1,2]".to_string())).is_empty());
}

#[test]
fn a_shelter_goes_through_its_row() {
    let t = CoarseTimestamp::from_secs(1200);
    let mut house = SafeHouse::new_at(SafeHouseId(5), PersonId(6), "Green House", Region::new("Northeast"), 4, t);
    house.add_capability_at(SafeHouseCapability::Shelter, t);
    house.add_capability_at(SafeHouseCapability::ChildCare, t);
    house.add_accommodation_at(Accommodation::GroundFloor, t);
    house.set_occupancy_at(4, t).unwrap();
    house.max_stay_days = Some(14);
    let row = safe_house_to_row(&house);
    assert_eq!(row.status, 2);
    assert_eq!(row.capabilities.as_deref(), Some("[\"Shelter\",\"ChildCare\"]"));
    let back = row_to_safe_house(&row).unwrap();
    assert_eq!(back.id, SafeHouseId(5));
    assert_eq!(back.operator, PersonId(6));
    assert_eq!(back.name, "Green House");
    assert_eq!(back.region.name, "Northeast");
    assert_eq!(back.capabilities, house.capabilities);
    assert_eq!(back.accommodations, vec![Accommodation::GroundFloor]);
    assert_eq!(back.status, SafeHouseStatus::Occupied);
    assert_eq!(back.current_occupancy, 4);
    assert_eq!(back.max_stay_days, Some(14));
    assert_eq!(back.registered_at, t);
    let mut odd = row.clone();
    odd.status = 9;
    assert_eq!(row_to_safe_house(&odd).unwrap().status, SafeHouseStatus::TemporarilyUnavailable);
    odd.operator_id = vec![];
    assert!(row_to_safe_house(&odd).is_err());
    // a row that breaks the rule of shelters is refused
    let mut crowded = row.clone();
    crowded.current_occupancy = 5;
    assert_eq!(row_to_safe_house(&crowded).err().map(|e| e.kind()), Some(ErrorKind::Serialization));
    crowded.status = 4;
    assert_eq!(row_to_safe_house(&crowded).err().map(|e| e.kind()), Some(ErrorKind::Serialization));
    let mut full_but_open = row.clone();
    full_but_open.status = 0;
    assert!(row_to_safe_house(&full_but_open).is_err());
    let mut room_but_occupied = row.clone();
    room_but_occupied.current_occupancy = 1;
    assert!(row_to_safe_house(&room_but_occupied).is_err());
    room_but_occupied.status = 0;
    assert!(row_to_safe_house(&room_but_occupied).unwrap().keeps_occupancy_rule());
    let mut withdrawn = row.clone();
    withdrawn.current_occupancy = 1;
    withdrawn.status = 3;
    assert!(row_to_safe_house(&withdrawn).is_ok());
    assert!(!lists_as_available(&back));
    house.set_occupancy_at(3, t).unwrap();
    assert!(lists_as_available(&house));
}

#[test]
fn an_emergency_goes_through_its_row() {
    let now = 1_700_000_100;
    let mut request = EmergencyRequest::new_at(
        EmergencyId(8),
        Some(PersonId(2)),
        vec![EmergencyNeed::SafeShelter, EmergencyNeed::ImmediateDanger],
        Region::new("Harbour"),
        Urgency::Critical,
        2,
        now,
    );
    request.num_children = 1;
    request.special_needs = Some(SecureBytes::new(vec![4, 2]));
    let row = emergency_to_row(&request);
    assert_eq!(row.urgency, 4);
    assert_eq!(row.status, 0);
    assert_eq!(row.needs.as_deref(), Some("[\"SafeShelter\",\"ImmediateDanger\"]"));
    let back = row_to_emergency(&row).unwrap();
    assert_eq!(back.id, EmergencyId(8));
    assert_eq!(back.requester, Some(PersonId(2)));
    assert_eq!(back.needs, request.needs);
    assert_eq!(back.urgency, Urgency::Critical);
    assert_eq!(back.num_children, 1);
    assert_eq!(back.status, EmergencyStatus::Active);
    assert_eq!(back.expires_at, request.expires_at);
    assert_eq!(back.special_needs.map(|n| n.as_bytes().to_vec()), Some(vec![4, 2]));
    assert!(lists_as_active(&request, now));
    assert!(!lists_as_active(&request, now + 6 * 3600));
    assert!(is_to_expire(&request, now + 6 * 3600));
    request.resolve();
    assert!(!is_to_expire(&request, now + 6 * 3600));
    let mut odd = row.clone();
    odd.urgency = 0;
    odd.requester_id = None;
    assert_eq!(row_to_emergency(&odd).unwrap().urgency, Urgency::Medium);
    odd.id = vec![0; 17];
    assert!(row_to_emergency(&odd).is_err());
}

#[test]
fn a_report_goes_through_its_row() {
    let now = 1_700_000_100;
    let mut report = IntelligenceReport::new_at(
        IntelReportId(3),
        PersonId(4),
        IntelligenceCategory::DangerZone,
        Region::new("Bridge"),
        "Road blocked",
        Urgency::High,
        now,
    )
    .with_danger_level(DangerLevel::Critical);
    report.increment_hops();
    report.add_confirmation();
    let row = intelligence_to_row(&report);
    assert_eq!(row.category, 8);
    assert_eq!(row.danger_level, Some(4));
    assert_eq!(row.hop_count, 1);
    let back = row_to_intelligence(&row).unwrap();
    assert_eq!(back.id, IntelReportId(3));
    assert_eq!(back.category, IntelligenceCategory::DangerZone);
    assert_eq!(back.danger_level, Some(DangerLevel::Critical));
    assert_eq!(back.summary, "Road blocked");
    assert_eq!(back.hop_count, 1);
    assert_eq!(back.confirmations, 1);
    assert!(!back.verified);
    assert!(lists_as_relevant(&back, now));
    assert!(lists_as_high_danger(&back, now));
    assert!(!lists_as_high_danger(&back, now + 3 * 86400));
    let mut odd = row.clone();
    odd.hop_count = 300;
    odd.danger_level = Some(-1);
    odd.category = -1;
    let read = row_to_intelligence(&odd).unwrap();
    assert_eq!(read.hop_count, 255);
    assert_eq!(read.danger_level, Some(DangerLevel::Moderate));
    assert_eq!(read.category, IntelligenceCategory::SafetyUpdate);
    odd.hop_count = -1;
    assert_eq!(row_to_intelligence(&odd).unwrap().hop_count, 0);
    odd.reporter_id = vec![1];
    assert!(row_to_intelligence(&odd).is_err());
}

#[test]
fn an_identity_goes_through_its_row() {
    let identity = Identity::from_seed("Alice", &[1u8; 32], true).unwrap();
    let mut row = identity_to_row(&identity).unwrap();
    assert_eq!(row.id, identity.id.to_bytes());
    assert_eq!(row.fingerprint, identity.fingerprint.as_bytes().to_vec());
    let back = row_to_identity(&row).unwrap();
    assert_eq!(back.id, identity.id);
    assert_eq!(back.name, "Alice");
    assert!(back.is_primary);
    assert_eq!(back.public_key_bytes(), identity.public_key_bytes());
    // the columns of the row are what counts
    row.name = "Alicia".to_string();
    row.is_primary = false;
    let renamed = row_to_identity(&row).unwrap();
    assert_eq!(renamed.name, "Alicia");
    assert!(!renamed.is_primary);
    row.id[0] ^= 1;
    assert_eq!(row_to_identity(&row).err().map(|e| e.kind()), Some(ErrorKind::Serialization));
    row.keypair_encrypted.clear();
    assert!(row_to_identity(&row).is_err());
}

#[test]
fn queries_on_messages() {
    let mut message = Message::new_text(PersonId(1), PersonId(2), "hi");
    assert_eq!(contact_of(&message, MessageDirection::Sent), PersonId(2));
    assert_eq!(contact_of(&message, MessageDirection::Received), PersonId(1));
    assert!(!waits_to_be_sent(&message));
    message.update_status(MessageStatus::Queued).unwrap();
    assert!(waits_to_be_sent(&message));
    assert_eq!(MessageDirection::from_code(0), MessageDirection::Sent);
    assert_eq!(MessageDirection::from_code(5), MessageDirection::Received);
    assert_eq!(MessageDirection::Received.code(), 1);
    let info = message_info(&message, MessageDirection::Sent).unwrap();
    assert_eq!(info.content, "hi");
    assert_eq!(info.status, "Queued");
    assert_eq!(info.direction, "sent");
    assert_eq!(info.sender_id, "00000000-0000-0000-0000-000000000001");
    assert!(!info.is_read);
    assert!(accept_for(&message, PersonId(2)).is_ok());
    assert_eq!(accept_for(&message, PersonId(1)).unwrap_err().kind(), ErrorKind::PermissionDenied);
}

#[test]
fn what_the_front_end_types() {
    assert_eq!(parse_need(&"shelter".to_string()), Some(EmergencyNeed::SafeShelter));
    assert_eq!(parse_need(&"danger".to_string()), Some(EmergencyNeed::ImmediateDanger));
    assert_eq!(parse_need(&"Shelter".to_string()), None);
    let words: Vec<String> = ["food", "music", "medical", "transport", "financial"].iter().map(|w| w.to_string()).collect();
    assert_eq!(
        parse_needs(&words),
        vec![EmergencyNeed::Supplies, EmergencyNeed::Medical, EmergencyNeed::Transportation, EmergencyNeed::Financial]
    );
    assert_eq!(parse_urgency(&"critical".to_string()), Urgency::Critical);
    assert_eq!(parse_urgency(&"high".to_string()), Urgency::High);
    assert_eq!(parse_urgency(&"medium".to_string()), Urgency::Medium);
    assert_eq!(parse_urgency(&"whatever".to_string()), Urgency::Low);
    let id = PersonId(0x0123_4567_89ab_cdef_0011_2233_4455_6677);
    assert_eq!(id_text(id.0), "01234567-89ab-cdef-0011-223344556677");
    assert_eq!(parse_person_id("01234567-89ab-cdef-0011-223344556677").unwrap(), id);
    assert_eq!(parse_person_id("nobody").unwrap_err().kind(), ErrorKind::Invalid);
    assert_eq!(user_dir_name(id), "0123456789abcdef");
    assert_eq!(read_salt(&[7u8; 32]).unwrap(), [7u8; 32]);
    assert_eq!(read_salt(&[7u8; 31]).unwrap_err().kind(), ErrorKind::Crypto);
    assert_eq!(to_string_err(Ok::<u8, Error>(3)), Ok(3));
    assert_eq!(
        to_string_err(Err::<u8, Error>(Error::Network("Mailbox full".to_string()))),
        Err("Network error: Mailbox full".to_string())
    );
}

#[test]
fn every_error_says_its_kind() {
    let cases = [
        (Error::Crypto("m".to_string()), ErrorKind::Crypto, "Cryptographic error: m"),
        (Error::Storage("m".to_string()), ErrorKind::Storage, "Database error: m"),
        (Error::Network("m".to_string()), ErrorKind::Network, "Network error: m"),
        (Error::Identity("m".to_string()), ErrorKind::Identity, "Identity error: m"),
        (Error::Trust("m".to_string()), ErrorKind::Trust, "Trust error: m"),
        (Error::Invalid("m".to_string()), ErrorKind::Invalid, "Invalid: m"),
        (Error::NotFound("m".to_string()), ErrorKind::NotFound, "Not found: m"),
        (Error::PermissionDenied("m".to_string()), ErrorKind::PermissionDenied, "Permission denied: m"),
        (Error::Timeout("m".to_string()), ErrorKind::Timeout, "Timeout: m"),
        (Error::Serialization("m".to_string()), ErrorKind::Serialization, "Serialization error: m"),
        (Error::Internal("m".to_string()), ErrorKind::Internal, "Internal error: m"),
    ];
    for (error, kind, text) in cases {
        assert_eq!(error.kind(), kind);
        assert_eq!(error.message(), "m");
        assert_eq!(error.to_string(), text);
    }
}
