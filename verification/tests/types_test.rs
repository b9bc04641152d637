use underground_railroad_core::types::{
    CoarseTimestamp, EmergencyId, Fingerprint, PersonId, Region, SecureBytes, TrustLevel, Urgency,
};
use underground_railroad_core::{APP_ID, VERSION};

#[test]
fn test_version() {
    assert!(!VERSION.is_empty());
}

#[test]
fn test_app_id() {
    assert_eq!(APP_ID, "underground-railroad");
}

#[test]
fn test_person_id() {
    let id1 = PersonId::new();
    let id2 = PersonId::new();
    assert_ne!(id1, id2);
}

#[test]
fn test_region_distance() {
    let seattle = Region {
        name: "Seattle".to_string(),
        lat: Some(47_606_000),
        lon: Some(-122_332_000),
        radius_km: Some(10),
    };

    let portland = Region {
        name: "Portland".to_string(),
        lat: Some(45_505_000),
        lon: Some(-122_675_000),
        radius_km: Some(10),
    };

    let distance = seattle.distance_sq(&portland).map(|sq| (sq as f64).sqrt() / 1_000_000.0 * 111.0);
    assert!(distance.is_some());
    // Seattle to Portland is ~233km
    let dist = distance.unwrap();
    assert!(dist > 200.0 && dist < 300.0);
}

#[test]
fn test_trust_level_ordering() {
    assert!(TrustLevel::VerifiedInPerson > TrustLevel::VerifiedRemote);
    assert!(TrustLevel::VerifiedRemote > TrustLevel::Introduced);
    assert!(TrustLevel::Introduced > TrustLevel::Unknown);
    assert!(TrustLevel::Unknown > TrustLevel::Blocked);
}

#[test]
fn test_coarse_timestamp() {
    let ts1 = CoarseTimestamp::now();
    let ts2 = CoarseTimestamp::now();
    // Should be same or very close (5min intervals)
    assert_eq!(ts1, ts2);
}

#[test]
fn test_fingerprint_words() {
    let fp = Fingerprint::new([0u8; 32]);
    let words = fp.to_words();
    assert_eq!(words.len(), 3);
    assert_eq!(words[0], "dolphin");
}

#[test]
fn test_urgency_propagation() {
    assert_eq!(Urgency::Critical.propagation_hops(), 5);
    assert_eq!(Urgency::High.propagation_hops(), 3);
    assert_eq!(Urgency::Low.propagation_hops(), 1);
}

#[test]
fn urgency_budget_and_expiry_of_every_level() {
    assert_eq!(Urgency::Low.propagation_hops(), 1);
    assert_eq!(Urgency::Medium.propagation_hops(), 2);
    assert_eq!(Urgency::High.propagation_hops(), 3);
    assert_eq!(Urgency::Critical.propagation_hops(), 5);
    assert_eq!(Urgency::Low.default_expiry(), 7 * 86400);
    assert_eq!(Urgency::Medium.default_expiry(), 3 * 86400);
    assert_eq!(Urgency::High.default_expiry(), 24 * 3600);
    assert_eq!(Urgency::Critical.default_expiry(), 6 * 3600);
    assert!(Urgency::Low < Urgency::Medium && Urgency::Medium < Urgency::High && Urgency::High < Urgency::Critical);
}

#[test]
fn trust_level_permissions() {
    assert!(!TrustLevel::Blocked.can_see_activity());
    assert!(!TrustLevel::Unknown.can_see_activity());
    assert!(TrustLevel::Introduced.can_see_activity());
    assert!(TrustLevel::VerifiedRemote.can_see_activity());
    assert!(TrustLevel::VerifiedInPerson.can_see_activity());
    assert!(!TrustLevel::Introduced.can_relay());
    assert!(TrustLevel::VerifiedRemote.can_relay());
    assert!(TrustLevel::VerifiedInPerson.can_relay());
}

#[test]
fn codes_of_levels_read_back() {
    for level in [
        TrustLevel::Blocked,
        TrustLevel::Unknown,
        TrustLevel::Introduced,
        TrustLevel::VerifiedRemote,
        TrustLevel::VerifiedInPerson,
    ] {
        assert_eq!(TrustLevel::from_code(level.code()), level);
    }
    assert_eq!(TrustLevel::from_code(17), TrustLevel::Unknown);
    assert_eq!(TrustLevel::from_code(-1), TrustLevel::Unknown);
    for urgency in [Urgency::Low, Urgency::Medium, Urgency::High, Urgency::Critical] {
        assert_eq!(Urgency::from_code(urgency.code()), urgency);
    }
    assert_eq!(Urgency::from_code(0), Urgency::Medium);
    assert_eq!(Urgency::Critical.code(), 4);
}

#[test]
fn coarse_timestamp_lies_on_the_grid() {
    assert_eq!(CoarseTimestamp::from_secs(0).as_secs(), 0);
    assert_eq!(CoarseTimestamp::from_secs(299).as_secs(), 0);
    assert_eq!(CoarseTimestamp::from_secs(300).as_secs(), 300);
    assert_eq!(CoarseTimestamp::from_secs(1_700_000_123).as_secs(), 1_700_000_100);
    assert_eq!(CoarseTimestamp::from_secs(-1).as_secs(), 0);
    assert_eq!(CoarseTimestamp::from_secs(-300).as_secs(), -300);
    assert_eq!(CoarseTimestamp::from_secs(-301).as_secs(), -300);
    assert_eq!(CoarseTimestamp::from_secs(i64::MIN).as_secs() % 300, 0);
    assert_eq!(CoarseTimestamp::after(i64::MAX, 10).as_secs(), i64::MAX - i64::MAX % 300);
    assert_eq!(CoarseTimestamp::now().as_secs() % 300, 0);
}

#[test]
fn coarse_timestamp_expiry() {
    let t = CoarseTimestamp::from_secs(1_000_200);
    assert!(!t.is_expired_at(0, 1_000_200));
    assert!(t.is_expired_at(0, 1_000_201));
    assert!(!t.is_expired_at(60, 1_000_260));
    assert!(t.is_expired_at(60, 1_000_261));
    assert!(!t.is_expired_at(i64::MAX, i64::MAX));
}

#[test]
fn fingerprint_words_follow_the_first_six_bytes() {
    let mut bytes = [0u8; 32];
    bytes[1] = 1; // 1 % 24 = 1
    bytes[2] = 1; // 256 % 24 = 16
    bytes[3] = 0;
    bytes[4] = 0xff; // 65535 % 24 = 15
    bytes[5] = 0xff;
    let words = Fingerprint::new(bytes).to_words();
    assert_eq!(words, ["mountain", "compass", "willow"]);
}

#[test]
fn fingerprint_hex_is_lowercase() {
    let mut bytes = [0u8; 32];
    bytes[0] = 0xAB;
    bytes[31] = 0x0F;
    let hex = Fingerprint::new(bytes).to_hex();
    assert_eq!(hex.len(), 64);
    assert!(hex.starts_with("ab00"));
    assert!(hex.ends_with("0f"));
}

#[test]
fn identifiers_are_stored_as_sixteen_bytes() {
    let id = PersonId(0x0102_0304_0506_0708_090a_0b0c_0d0e_0f10);
    let bytes = id.to_bytes();
    assert_eq!(bytes, vec![1, 2, 3, 4, 5, 6, 7, 8, 9, 10, 11, 12, 13, 14, 15, 16]);
    assert_eq!(PersonId::from_bytes(&bytes), Some(id));
    assert_eq!(PersonId::from_bytes(&bytes[..15]), None);
    assert_ne!(EmergencyId::new(), EmergencyId::new());
}

#[test]
fn regions_near_and_far() {
    let mut a = Region::new("A");
    let mut b = Region::new("B");
    a.lat = Some(47_000_000);
    a.lon = Some(8_000_000);
    b.lat = Some(47_400_000);
    b.lon = Some(8_000_000);
    // 0.4 degrees are 44.4 km
    assert!(a.is_within_km(&b, 50));
    assert!(!a.is_within_km(&b, 44));
    b.lat = Some(47_500_000);
    // 0.5 degrees are 55.5 km
    assert!(!a.is_within_km(&b, 50));
    // without coordinates the name decides
    assert!(Region::new("North").is_within_km(&Region::new("North"), 50));
    assert!(!Region::new("North").is_within_km(&Region::new("South"), 50));
    assert_eq!(Region::new("North").distance_sq(&a), None);
    let far = Region { name: "far".to_string(), lat: Some(i32::MAX), lon: Some(i32::MIN), radius_km: None };
    let near = Region { name: "near".to_string(), lat: Some(i32::MIN), lon: Some(i32::MAX), radius_km: None };
    // the two are 6074 degrees apart
    assert!(far.is_within_km(&near, u32::MAX));
    assert!(far.is_within_km(&near, 700_000));
    assert!(!far.is_within_km(&near, 600_000));
}

#[test]
fn secure_bytes_hold_and_wipe() {
    let mut sealed = SecureBytes::new(vec![1, 2, 3]);
    assert_eq!(sealed.as_bytes(), &[1, 2, 3]);
    assert_eq!(sealed.len(), 3);
    assert!(!sealed.is_empty());
    assert_eq!(sealed.duplicate().as_bytes(), &[1, 2, 3]);
    sealed.wipe();
    assert!(sealed.is_empty());
}

#[test]
fn errors_end_a_command_with_their_code() {
    let code = |e: underground_railroad_core::error::Error| e.exit_code();
    assert_eq!(code(underground_railroad_core::error::Error::Network("down".to_string())), 2);
    assert_eq!(code(underground_railroad_core::error::Error::Timeout("late".to_string())), 2);
    assert_eq!(code(underground_railroad_core::error::Error::Crypto("bad tag".to_string())), 3);
    assert_eq!(code(underground_railroad_core::error::Error::Storage("full".to_string())), 4);
    assert_eq!(code(underground_railroad_core::error::Error::Serialization("short".to_string())), 4);
    assert_eq!(code(underground_railroad_core::error::Error::Internal("bug".to_string())), 64);
    assert_eq!(code(underground_railroad_core::error::Error::Invalid("no".to_string())), 1);
    assert_eq!(code(underground_railroad_core::error::Error::NotFound("no".to_string())), 1);
    assert_eq!(code(underground_railroad_core::error::Error::PermissionDenied("no".to_string())), 1);
    assert_eq!(code(underground_railroad_core::error::Error::Identity("no".to_string())), 1);
    assert_eq!(code(underground_railroad_core::error::Error::Trust("no".to_string())), 1);
}

#[test]
fn decimal_texts_read_as_the_standard_parser_reads_them() {
    let texts = [
        "", "0", "1", "-3", "+7", "007", "-0", "+0", "-", "+", "--1", "+-1", "1-", " 1", "1 ", "one", "1e3", "1_000",
        "2147483647", "2147483648", "-2147483648", "-2147483649", "+2147483647", "+2147483648", "99999999999",
        "000000000000000000000000000002147483647", "-000000000000000000000000000002147483648",
        "18446744073709551616", "184467440737095516160000000000000000000", "١٢٣", "１２", "0x10", "٣", "1\u{0}",
    ];
    for text in texts {
        assert_eq!(underground_railroad_core::text::parse_i32(text), text.parse::<i32>().ok(), "{text:?}");
    }
    assert_eq!(underground_railroad_core::text::parse_i32("1"), Some(1));
    assert_eq!(underground_railroad_core::text::parse_i32("-2147483648"), Some(i32::MIN));
    assert_eq!(underground_railroad_core::text::parse_i32("2147483648"), None);
}

#[test]
fn hexadecimal_texts_read_and_write_as_the_hex_crate_does() {
    let all: Vec<u8> = (0u8..=255).collect();
    assert_eq!(underground_railroad_core::text::hex_encode(&all), hex::encode(&all));
    assert_eq!(underground_railroad_core::text::hex_encode(&[]), "");
    assert_eq!(underground_railroad_core::text::hex_encode(&[0, 1, 0xab, 0xff]), "0001abff");
    for text in ["", "00", "0001abff", "0001ABFF", "aBcD", "0", "012", "0g", "g0", " 00", "00 ", "0x00", "zz", "äö"] {
        assert_eq!(underground_railroad_core::text::hex_decode(text.as_bytes()), hex::decode(text).ok(), "{text:?}");
    }
    assert_eq!(underground_railroad_core::text::hex_decode(hex::encode(&all).as_bytes()), Some(all.clone()));
    assert_eq!(underground_railroad_core::text::hex_decode(hex::encode_upper(&all).as_bytes()), Some(all));
}
