use underground_railroad_core::assistance::emergency::{EmergencyNeed, EmergencyRequest, EmergencyResponse};
use underground_railroad_core::assistance::intelligence::{DangerLevel, IntelligenceCategory, IntelligenceReport};
use underground_railroad_core::error::ErrorKind;
use underground_railroad_core::identity::keypair::EncryptionKey;
use underground_railroad_core::messaging::codec::{
    emergency_from_bytes, emergency_to_bytes, need_codes, needs_from_codes, open_message, payload_tag_of,
    region_from_bytes, region_to_bytes, report_from_bytes, report_to_bytes, response_from_bytes, response_to_bytes,
    seal_message, sealed_from_bytes, sealed_to_bytes, urgency_from_wire, urgency_wire,
};
use underground_railroad_core::messaging::encryption::MessageKey;
use underground_railroad_core::messaging::protocol::{Message, MessageStatus, MessageType};
use underground_railroad_core::storage::repository::MessageDirection;
use underground_railroad_core::storage::rows::{message_to_row, row_to_message};
use underground_railroad_core::types::{
    CoarseTimestamp, EmergencyId, Fingerprint, IntelReportId, MessageId, PersonId, Region, SafeHouseId, SecureBytes,
    Urgency,
};
use underground_railroad_core::veilid_client::messaging::{take_in, Mailbox, SeenMessages, MAILBOX_SLOTS};
use underground_railroad_core::wire::{put_be, put_blob, put_option_be, put_option_blob, put_option_i64, Reader};

fn sample_request() -> EmergencyRequest {
    let mut request = EmergencyRequest::new_at(
        EmergencyId(11),
        Some(PersonId(12)),
        vec![EmergencyNeed::Medical, EmergencyNeed::ImmediateDanger],
        Region { name: "Hafen".to_string(), lat: Some(-47_000_000), lon: Some(8_000_000), radius_km: Some(3) },
        Urgency::Critical,
        3,
        1_700_000_100,
    );
    request.num_children = 1;
    request.notes = Some(SecureBytes::new(vec![1, 2, 3]));
    request
}

fn sample_report() -> IntelligenceReport {
    let mut report = IntelligenceReport::new_at(
        IntelReportId(21),
        PersonId(22),
        IntelligenceCategory::Surveillance,
        Region::new("Brücke"),
        "Kameras am Südufer",
        Urgency::Medium,
        1_700_000_100,
    )
    .with_danger_level(DangerLevel::High);
    report.increment_hops();
    report.add_confirmation();
    report.add_confirmation();
    report
}

fn same_request(a: &EmergencyRequest, b: &EmergencyRequest) -> bool {
    a.id == b.id
        && a.requester == b.requester
        && a.needs == b.needs
        && a.region == b.region
        && a.urgency == b.urgency
        && a.num_people == b.num_people
        && a.num_children == b.num_children
        && a.special_needs.as_ref().map(|s| s.as_bytes().to_vec()) == b.special_needs.as_ref().map(|s| s.as_bytes().to_vec())
        && a.notes.as_ref().map(|s| s.as_bytes().to_vec()) == b.notes.as_ref().map(|s| s.as_bytes().to_vec())
        && a.created_at == b.created_at
        && a.expires_at == b.expires_at
        && a.status == b.status
}

fn same_report(a: &IntelligenceReport, b: &IntelligenceReport) -> bool {
    a.id == b.id
        && a.reporter == b.reporter
        && a.category == b.category
        && a.danger_level == b.danger_level
        && a.region == b.region
        && a.summary == b.summary
        && a.details.as_ref().map(|s| s.as_bytes().to_vec()) == b.details.as_ref().map(|s| s.as_bytes().to_vec())
        && a.urgency == b.urgency
        && a.reported_at == b.reported_at
        && a.expires_at == b.expires_at
        && a.hop_count == b.hop_count
        && a.verified == b.verified
        && a.confirmations == b.confirmations
}

fn same_content(a: &MessageType, b: &MessageType) -> bool {
    match (a, b) {
        (MessageType::Text { content: x }, MessageType::Text { content: y }) => x == y,
        (MessageType::Emergency { request: x }, MessageType::Emergency { request: y }) => same_request(x, y),
        (
            MessageType::EmergencyResponse { emergency_id: i, response: x },
            MessageType::EmergencyResponse { emergency_id: j, response: y },
        ) => {
            i == j
                && x.emergency_id == y.emergency_id
                && x.responder == y.responder
                && x.can_provide == y.can_provide
                && x.estimated_time_mins == y.estimated_time_mins
                && x.distance_m == y.distance_m
                && x.responded_at == y.responded_at
        },
        (MessageType::Intelligence { report: x }, MessageType::Intelligence { report: y }) => same_report(x, y),
        (
            MessageType::ConnectionRequest { fingerprint: f, public_key: k, introduction: i },
            MessageType::ConnectionRequest { fingerprint: g, public_key: l, introduction: j },
        ) => f == g && k == l && i == j,
        (
            MessageType::ConnectionAccepted { fingerprint: f, public_key: k },
            MessageType::ConnectionAccepted { fingerprint: g, public_key: l },
        ) => f == g && k == l,
        (MessageType::ConnectionRejected { reason: x }, MessageType::ConnectionRejected { reason: y }) => x == y,
        (
            MessageType::SafeHouseUpdate { safe_house_id: a, available: b, capacity: c },
            MessageType::SafeHouseUpdate { safe_house_id: d, available: e, capacity: f },
        ) => a == d && b == e && c == f,
        (
            MessageType::Relay { target: a, encrypted_payload: b },
            MessageType::Relay { target: c, encrypted_payload: d },
        ) => a == c && b == d,
        (
            MessageType::ReadReceipt { message_id: a, read_at: b },
            MessageType::ReadReceipt { message_id: c, read_at: d },
        ) => a == c && b == d,
        (
            MessageType::DeliveryConfirmation { message_id: a, delivered_at: b },
            MessageType::DeliveryConfirmation { message_id: c, delivered_at: d },
        ) => a == c && b == d,
        _ => false,
    }
}

fn same_message(a: &Message, b: &Message) -> bool {
    a.id == b.id
        && a.sender == b.sender
        && a.recipient == b.recipient
        && same_content(&a.message_type, &b.message_type)
        && a.created_at == b.created_at
        && a.expires_at == b.expires_at
        && a.status == b.status
        && a.hop_count == b.hop_count
}

fn every_kind_of_message() -> Vec<Message> {
    let t = CoarseTimestamp::from_secs(1_700_000_100);
    let later = Some(CoarseTimestamp::from_secs(1_700_003_700));
    let a = PersonId(1);
    let b = PersonId(u128::MAX);
    let response = EmergencyResponse::new_at(EmergencyId(11), a, vec![EmergencyNeed::SafeShelter], t)
        .with_eta(15)
        .with_distance_m(5000)
        .with_details(SecureBytes::new(vec![9]));
    let contents = vec![
        MessageType::Text { content: "Grüße 👋".to_string() },
        MessageType::Emergency { request: sample_request() },
        MessageType::EmergencyResponse { emergency_id: EmergencyId(11), response },
        MessageType::Intelligence { report: sample_report() },
        MessageType::ConnectionRequest {
            fingerprint: Fingerprint::new([7u8; 32]),
            public_key: vec![1; 32],
            introduction: Some(PersonId(5)),
        },
        MessageType::ConnectionAccepted { fingerprint: Fingerprint::new([8u8; 32]), public_key: vec![] },
        MessageType::ConnectionRejected { reason: Some("unbekannt".to_string()) },
        MessageType::ConnectionRejected { reason: None },
        MessageType::SafeHouseUpdate { safe_house_id: SafeHouseId(3), available: true, capacity: 4 },
        MessageType::Relay { target: b, encrypted_payload: vec![0, 255, 0] },
        MessageType::ReadReceipt { message_id: MessageId(4), read_at: t },
        MessageType::DeliveryConfirmation { message_id: MessageId(4), delivered_at: t },
    ];
    contents
        .into_iter()
        .enumerate()
        .map(|(i, content)| {
            let mut message = Message::draft(MessageId(100 + i as u128), a, b, content, t, if i % 2 == 0 { later } else { None });
            message.hop_count = i as u8;
            if i == 3 {
                message.status = MessageStatus::Delivered;
            }
            message
        })
        .collect()
}

#[test]
fn every_message_is_read_back_as_it_was_written() {
    let messages = every_kind_of_message();
    let tags: Vec<u8> = messages.iter().map(|m| payload_tag_of(&m.message_type)).collect();
    assert_eq!(tags, vec![0, 1, 2, 3, 4, 5, 6, 6, 7, 8, 9, 10]);
    for message in &messages {
        let bytes = message.to_wire().unwrap();
        let back = Message::from_wire(&bytes).unwrap();
        assert!(same_message(message, &back));
        assert_eq!(back.to_wire().unwrap(), bytes);
        // nothing may be missing and nothing may follow
        assert!(Message::from_wire(&bytes[..bytes.len() - 1]).is_none());
        let mut longer = bytes.clone();
        longer.push(0);
        assert!(Message::from_wire(&longer).is_none());
    }
    assert!(Message::from_wire(&[]).is_none());
}

#[test]
fn the_layout_of_a_text_message() {
    let t = CoarseTimestamp::from_secs(600);
    let mut message =
        Message::draft(MessageId(1), PersonId(2), PersonId(3), MessageType::Text { content: "hi".to_string() }, t, None);
    message.hop_count = 7;
    message.status = MessageStatus::Sent;
    let bytes = message.to_wire().unwrap();
    let mut expected = Vec::new();
    expected.extend_from_slice(&1u128.to_be_bytes());
    expected.extend_from_slice(&2u128.to_be_bytes());
    expected.extend_from_slice(&3u128.to_be_bytes());
    expected.push(0); // the tag of a text
    expected.extend_from_slice(&[0, 0, 0, 6]); // the length of the content
    expected.extend_from_slice(&[0, 0, 0, 2]); // the length of the text
    expected.extend_from_slice(b"hi");
    expected.extend_from_slice(&(600u64 + (1 << 63)).to_be_bytes());
    expected.push(0); // no expiry
    expected.push(3); // sent
    expected.push(7); // hops
    assert_eq!(bytes, expected);
    // an unknown tag, an unknown status and a text that is no UTF-8 are refused
    let mut unknown = bytes.clone();
    unknown[48] = 11;
    assert!(Message::from_wire(&unknown).is_none());
    let mut unknown = bytes.clone();
    let status_at = bytes.len() - 2;
    unknown[status_at] = 8;
    assert!(Message::from_wire(&unknown).is_none());
    let mut garbled = bytes.clone();
    garbled[57] = 0xff;
    assert!(Message::from_wire(&garbled).is_none());
    // a time off the grid is moved onto it
    let mut off_grid = bytes.clone();
    let time_at = bytes.len() - 3 - 8;
    off_grid[time_at..time_at + 8].copy_from_slice(&(601u64 + (1 << 63)).to_be_bytes());
    assert_eq!(Message::from_wire(&off_grid).unwrap().created_at, t);
}

#[test]
fn records_are_read_back_as_they_were_written() {
    let request = sample_request();
    let bytes = emergency_to_bytes(&request).unwrap();
    assert!(same_request(&emergency_from_bytes(&bytes).unwrap(), &request));
    let report = sample_report();
    let bytes = report_to_bytes(&report).unwrap();
    assert!(same_report(&report_from_bytes(&bytes).unwrap(), &report));
    let t = CoarseTimestamp::from_secs(-600);
    let response = EmergencyResponse::new_at(EmergencyId(1), PersonId(2), vec![], t);
    let back = response_from_bytes(&response_to_bytes(&response).unwrap()).unwrap();
    assert_eq!(back.responded_at, t);
    assert_eq!(back.estimated_time_mins, None);
    for region in [
        Region::new(""),
        Region { name: "x".to_string(), lat: Some(i32::MIN), lon: Some(i32::MAX), radius_km: Some(u32::MAX) },
        Region { name: "y".to_string(), lat: None, lon: Some(0), radius_km: None },
    ] {
        assert_eq!(region_from_bytes(&region_to_bytes(&region).unwrap()), Some(region));
    }
    assert_eq!(region_to_bytes(&Region::new("ab")).unwrap(), vec![0, 0, 0, 2, b'a', b'b', 0, 0, 0]);
    assert!(region_from_bytes(&[0, 0, 0, 2, b'a', b'b', 0, 0, 2]).is_none());
    assert_eq!(need_codes(&vec![EmergencyNeed::SafeShelter, EmergencyNeed::Other]), vec![0, 8]);
    assert_eq!(needs_from_codes(&[8, 0]), Some(vec![EmergencyNeed::Other, EmergencyNeed::SafeShelter]));
    assert_eq!(needs_from_codes(&[9]), None);
    assert_eq!(urgency_wire(Urgency::Critical), 3);
    assert_eq!(urgency_from_wire(3), Some(Urgency::Critical));
    assert_eq!(urgency_from_wire(4), None);
}

#[test]
fn numbers_and_byte_strings_on_the_wire() {
    let mut out = vec![0xEE];
    put_be(&mut out, 0x0102, 2);
    put_be(&mut out, 5, 0);
    assert!(put_blob(&mut out, b"abc"));
    put_option_be(&mut out, Some(7), 1);
    put_option_be(&mut out, None, 4);
    assert!(put_option_blob(&mut out, &Some(vec![9])));
    assert!(put_option_blob(&mut out, &None));
    put_option_i64(&mut out, Some(-1));
    put_option_i64(&mut out, None);
    assert_eq!(
        out,
        vec![0xEE, 1, 2, 0, 0, 0, 3, b'a', b'b', b'c', 1, 7, 0, 1, 0, 0, 0, 1, 9, 0, 1, 0x7f, 0xff, 0xff, 0xff, 0xff, 0xff, 0xff, 0xff, 0]
    );
    let mut reader = Reader::new(&out);
    assert_eq!(reader.take_be(1), Some(0xEE));
    assert_eq!(reader.take_be(2), Some(0x0102));
    assert_eq!(reader.take_blob(), Some(b"abc".to_vec()));
    assert_eq!(reader.take_option_be(1), Some(Some(7)));
    assert_eq!(reader.take_option_be(4), Some(None));
    assert_eq!(reader.take_option_blob(), Some(Some(vec![9])));
    assert_eq!(reader.take_option_blob(), Some(None));
    assert_eq!(reader.take_option_i64(), Some(Some(-1)));
    assert!(!reader.is_done());
    assert_eq!(reader.take_be(2), None);
    assert_eq!(reader.take_raw(2), None);
    assert_eq!(reader.take_option_i64(), Some(None));
    assert!(reader.is_done());
    assert_eq!(reader.take_be(0), Some(0));
    assert_eq!(Reader::new(&[2]).take_option_blob(), None);
    assert_eq!(Reader::new(&[0, 0, 0, 5, 1]).take_blob(), None);
    assert_eq!(Reader::new(&[0xff; 16]).take_be(16), Some(u128::MAX));
}

#[test]
fn delivered_messages_are_collected_once() {
    let messages = every_kind_of_message();
    let mut mailbox = Mailbox::new();
    for (i, message) in messages.iter().enumerate() {
        assert_eq!(mailbox.deliver(message).unwrap(), i as u32);
    }
    // something that is no message lies in between and stays there
    mailbox.write(30, vec![1, 2, 3]);
    let collected = mailbox.collect();
    assert_eq!(collected.len(), messages.len());
    for (sent, received) in messages.iter().zip(collected.iter()) {
        assert!(same_message(sent, received));
    }
    assert_eq!(mailbox.read(0), None);
    assert_eq!(mailbox.read(30), Some(vec![1, 2, 3]));
    assert!(mailbox.collect().is_empty());

    // a full mailbox takes no message
    let mut full = Mailbox::new();
    for _ in 0..MAILBOX_SLOTS {
        full.deliver(&messages[0]).unwrap();
    }
    assert_eq!(full.deliver(&messages[1]).unwrap_err().kind(), ErrorKind::Network);
    assert_eq!(full.collect().len(), 50);
}

#[test]
fn a_replayed_message_gives_one_row() {
    let own = PersonId(u128::MAX);
    let message = &every_kind_of_message()[0];
    let mut seen = SeenMessages::new();
    let mut rows = Vec::new();
    for _ in 0..3 {
        if take_in(&mut seen, own, message).unwrap() {
            rows.push(message_to_row(message, MessageDirection::Received).unwrap());
        }
    }
    assert_eq!(rows.len(), 1);
    assert_eq!(seen.count(), 1);
    assert_eq!(take_in(&mut seen, PersonId(5), message).unwrap_err().kind(), ErrorKind::PermissionDenied);
    assert_eq!(seen.count(), 1);
    let row = &rows[0];
    assert_eq!(row.id, message.id.0.to_be_bytes().to_vec());
    assert_eq!(row.contact_id, message.sender.to_bytes());
    assert_eq!(row.direction, 1);
    assert_eq!(row.status, 0);
    assert_eq!(row.created_at, 1_700_000_100);
    assert_eq!(row.expires_at, Some(1_700_003_700));
    let (back, direction) = row_to_message(row).unwrap();
    assert!(same_message(&back, message));
    assert_eq!(direction, MessageDirection::Received);
    let sent = message_to_row(message, MessageDirection::Sent).unwrap();
    assert_eq!(sent.contact_id, message.recipient.to_bytes());
    let mut broken = row.clone();
    broken.content.truncate(10);
    assert_eq!(row_to_message(&broken).err().map(|e| e.kind()), Some(ErrorKind::Serialization));
}

#[test]
fn a_sealed_message_opens_for_its_recipient_only() {
    let bob = EncryptionKey::generate().unwrap();
    let eve = EncryptionKey::generate().unwrap();
    let message = &every_kind_of_message()[1];
    let bytes = seal_message(message, &bob.get_public_keys()).unwrap();
    let secret: [u8; 32] = bob.x25519_secret().try_into().unwrap();
    let opened = open_message(&bytes, &secret, bob.kyber_secret()).unwrap();
    assert!(same_message(&opened, message));
    let eve_secret: [u8; 32] = eve.x25519_secret().try_into().unwrap();
    assert_eq!(open_message(&bytes, &eve_secret, eve.kyber_secret()).err().map(|e| e.kind()), Some(ErrorKind::Crypto));
    assert_eq!(open_message(&bytes[..20], &secret, bob.kyber_secret()).err().map(|e| e.kind()), Some(ErrorKind::Serialization));
    let mut changed = bytes.clone();
    changed[10] ^= 0x80;
    assert_eq!(open_message(&changed, &secret, bob.kyber_secret()).err().map(|e| e.kind()), Some(ErrorKind::Crypto));
    // what is sealed must be a message
    let sealed = sealed_from_bytes(&bytes).unwrap();
    assert_eq!(sealed_to_bytes(&sealed).unwrap(), bytes);
    let key = MessageKey::from_bytes([1u8; 32]);
    let other = key.encrypt(b"no message").unwrap();
    assert!(sealed_from_bytes(&sealed_to_bytes(&other).unwrap()).is_some());
    // through the mailbox
    let mut mailbox = Mailbox::new();
    assert_eq!(mailbox.send(&bytes).unwrap(), 0);
    let taken = mailbox.poll();
    assert_eq!(taken.len(), 1);
    assert!(same_message(&open_message(&taken[0].1, &secret, bob.kyber_secret()).unwrap(), message));
}
