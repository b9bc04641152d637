use underground_railroad_core::assistance::emergency::{EmergencyNeed, EmergencyRequest, EmergencyResponse, EmergencyStatus};
use underground_railroad_core::assistance::intelligence::{
    default_expiry, on_receipt, DangerLevel, IntelligenceCategory, IntelligenceReport, Receipt,
};
use underground_railroad_core::assistance::safe_house::{Accommodation, SafeHouse, SafeHouseCapability, SafeHouseStatus};
use underground_railroad_core::assistance::transportation::{
    TransportCapability, TransportOffer, TransportRequest, TransportRequirement, TransportStatus, TravelTiming,
    VehicleType,
};
use underground_railroad_core::error::ErrorKind;
use underground_railroad_core::types::{
    CoarseTimestamp, EmergencyId, IntelReportId, PersonId, Region, SafeHouseId, TransportId, Urgency,
};

#[test]
fn test_emergency_request_creation() {
    let region = Region::new("Test Area");
    let request = EmergencyRequest::new(None, vec![EmergencyNeed::SafeShelter], region, Urgency::Critical, 2);

    assert!(request.is_active());
    assert!(!request.is_expired());
    assert_eq!(request.needs.len(), 1);
    assert_eq!(request.status, EmergencyStatus::Active);
}

#[test]
fn test_emergency_priority() {
    let region = Region::new("Test");

    let critical = EmergencyRequest::new(
        None,
        vec![EmergencyNeed::ImmediateDanger],
        region.clone(),
        Urgency::Critical,
        1,
    );

    let low = EmergencyRequest::new(None, vec![EmergencyNeed::Supplies], region, Urgency::Low, 1);

    assert!(critical.priority_score() > low.priority_score());
}

#[test]
fn test_emergency_response() {
    let response = EmergencyResponse::new(
        EmergencyId::new(),
        PersonId::new(),
        vec![EmergencyNeed::SafeShelter, EmergencyNeed::Supplies],
    )
    .with_eta(15)
    .with_distance_m((5.0_f64 * 1000.0) as u32);

    assert_eq!(response.estimated_time_mins, Some(15));
    assert_eq!(response.distance_m.map(|m| m as f64 / 1000.0), Some(5.0));
}

#[test]
fn emergency_priority_formula() {
    let now: i64 = 1_700_000_100;
    let request = EmergencyRequest::new_at(
        EmergencyId(1),
        Some(PersonId(2)),
        vec![EmergencyNeed::Medical, EmergencyNeed::ImmediateDanger],
        Region::new("Harbour"),
        Urgency::High,
        3,
        now,
    );
    assert_eq!(request.created_at.as_secs(), now);
    assert_eq!(request.expires_at.as_secs(), now + 24 * 3600);
    // 3 * 1000 + 0 minutes + 5000
    assert_eq!(request.priority_score_at(now), 8000);
    // 30 minutes later
    assert_eq!(request.priority_score_at(now + 1800), 8030);
    // age counts up to a hundred minutes
    assert_eq!(request.priority_score_at(now + 100 * 60), 8100);
    assert_eq!(request.priority_score_at(now + 1_000_000), 8100);
    // a request from the future has no age
    assert_eq!(request.priority_score_at(now - 5000), 8000);
    assert_eq!(request.priority_score_at(i64::MIN), 8000);
    assert_eq!(request.priority_score_at(i64::MAX), 8100);
    let calm = EmergencyRequest::new_at(
        EmergencyId(3),
        None,
        vec![EmergencyNeed::Supplies],
        Region::new("Harbour"),
        Urgency::Low,
        1,
        now,
    );
    assert_eq!(calm.priority_score_at(now + 60), 1001);
}

#[test]
fn emergency_lifecycle() {
    let now: i64 = 1_700_000_100;
    let mut request = EmergencyRequest::new_at(
        EmergencyId(1),
        None,
        vec![EmergencyNeed::SafeShelter],
        Region::new("Harbour"),
        Urgency::Critical,
        2,
        now,
    );
    assert_eq!(request.expires_at.as_secs(), now + 6 * 3600);
    assert!(request.is_active_at(now + 6 * 3600));
    assert!(!request.is_active_at(now + 6 * 3600 + 1));
    request.start_helping();
    assert_eq!(request.status, EmergencyStatus::InProgress);
    request.start_helping();
    assert_eq!(request.status, EmergencyStatus::InProgress);
    request.expire_at(now);
    assert_eq!(request.status, EmergencyStatus::InProgress);
    request.resolve();
    assert_eq!(request.status, EmergencyStatus::Resolved);
    // a resolved request is never expired, cancelled or reopened
    request.expire_at(now + 10 * 86400);
    assert_eq!(request.status, EmergencyStatus::Resolved);
    request.cancel();
    assert_eq!(request.status, EmergencyStatus::Resolved);
    request.start_helping();
    assert_eq!(request.status, EmergencyStatus::Resolved);
    assert!(!request.is_active_at(now));

    let mut lapsed = EmergencyRequest::new_at(
        EmergencyId(2),
        None,
        vec![],
        Region::new("Harbour"),
        Urgency::Low,
        1,
        now,
    );
    assert_eq!(lapsed.expires_at.as_secs(), now + 7 * 86400);
    lapsed.expire_at(now + 7 * 86400 + 1);
    assert_eq!(lapsed.status, EmergencyStatus::Expired);
    lapsed.resolve();
    assert_eq!(lapsed.status, EmergencyStatus::Expired);
    assert_eq!(EmergencyStatus::from_code(EmergencyStatus::Cancelled.code()), EmergencyStatus::Cancelled);
    assert_eq!(EmergencyStatus::from_code(77), EmergencyStatus::Active);
}

#[test]
fn test_intelligence_report() {
    let reporter = PersonId::new();
    let region = Region::new("Downtown");

    let report = IntelligenceReport::new(
        reporter,
        IntelligenceCategory::PoliceActivity,
        region,
        "Checkpoint on Main St",
        Urgency::High,
    );

    assert!(report.is_relevant());
    assert!(!report.is_expired());
    assert_eq!(report.hop_count, 0);
}

#[test]
fn test_intelligence_propagation() {
    let reporter = PersonId::new();
    let region = Region::new("Test");

    let mut critical = IntelligenceReport::new(
        reporter,
        IntelligenceCategory::PoliceActivity,
        region.clone(),
        "Raid in progress",
        Urgency::Critical,
    );

    assert!(critical.should_propagate());

    // Simulate propagation
    for _ in 0..5 {
        critical.increment_hops();
    }

    // Critical has 5 hops max
    assert!(!critical.should_propagate());

    let mut low = IntelligenceReport::new(
        reporter,
        IntelligenceCategory::Resource,
        region,
        "Legal aid available",
        Urgency::Low,
    );

    // Low only propagates 1 hop
    low.increment_hops();
    assert!(!low.should_propagate());
}

#[test]
fn test_intelligence_verification() {
    let reporter = PersonId::new();
    let region = Region::new("Test");

    let mut report = IntelligenceReport::new(
        reporter,
        IntelligenceCategory::PoliceActivity,
        region,
        "Checkpoint reported",
        Urgency::High,
    );

    assert!(!report.verified);

    report.add_confirmation();
    assert!(!report.verified); // Need 2 confirmations

    report.add_confirmation();
    assert!(report.verified); // Now verified
    assert_eq!(report.confirmations, 2);
}

#[test]
fn test_priority_scoring() {
    let reporter = PersonId::new();
    let region = Region::new("Test");

    let critical = IntelligenceReport::new(
        reporter,
        IntelligenceCategory::DangerZone,
        region.clone(),
        "Critical danger",
        Urgency::Critical,
    )
    .with_danger_level(DangerLevel::Critical);

    let low = IntelligenceReport::new(reporter, IntelligenceCategory::Resource, region, "Info available", Urgency::Low);

    assert!(critical.priority_score() > low.priority_score());
}

#[test]
fn intelligence_priority_formula() {
    let now: i64 = 1_700_000_100;
    let mut report = IntelligenceReport::new_at(
        IntelReportId(9),
        PersonId(1),
        IntelligenceCategory::DangerZone,
        Region::new("Bridge"),
        "Road blocked",
        Urgency::High,
        now,
    )
    .with_danger_level(DangerLevel::High);
    // 3 * 1000 + 3 * 500 + 0 + 100
    assert_eq!(report.priority_score_at(now), 4600);
    // ten hours later
    assert_eq!(report.priority_score_at(now + 36000), 4590);
    // after a hundred hours nothing is left of the recency
    assert_eq!(report.priority_score_at(now + 100 * 3600), 4500);
    assert_eq!(report.priority_score_at(i64::MAX), 4500);
    assert_eq!(report.priority_score_at(now - 999), 4600);
    report.add_confirmation();
    report.add_confirmation();
    assert_eq!(report.priority_score_at(now), 4800);
    report.confirmations = u32::MAX;
    report.add_confirmation();
    assert_eq!(report.confirmations, u32::MAX);
    assert!(report.verified);
}

#[test]
fn intelligence_expiry_by_category() {
    let h = 3600;
    let d = 86400;
    assert_eq!(default_expiry(IntelligenceCategory::PoliceActivity, Urgency::Critical), 2 * h);
    assert_eq!(default_expiry(IntelligenceCategory::ImmigrationEnforcement, Urgency::High), 6 * h);
    assert_eq!(default_expiry(IntelligenceCategory::PoliceActivity, Urgency::Medium), 12 * h);
    assert_eq!(default_expiry(IntelligenceCategory::PoliceActivity, Urgency::Low), 12 * h);
    assert_eq!(default_expiry(IntelligenceCategory::Surveillance, Urgency::Low), 3 * d);
    assert_eq!(default_expiry(IntelligenceCategory::DangerZone, Urgency::Critical), 3 * d);
    assert_eq!(default_expiry(IntelligenceCategory::Resource, Urgency::Low), 30 * d);
    assert_eq!(default_expiry(IntelligenceCategory::SafeRoute, Urgency::High), 30 * d);
    assert_eq!(default_expiry(IntelligenceCategory::Compromise, Urgency::Low), 365 * d);
    assert_eq!(default_expiry(IntelligenceCategory::AllClear, Urgency::Low), 24 * h);
    assert_eq!(default_expiry(IntelligenceCategory::BorderCrossing, Urgency::Low), 7 * d);
    assert_eq!(default_expiry(IntelligenceCategory::SafetyUpdate, Urgency::Critical), 7 * d);
}

#[test]
fn reports_stay_within_their_budget_of_hops() {
    let now: i64 = 1_700_000_100;
    for urgency in [Urgency::Low, Urgency::Medium, Urgency::High, Urgency::Critical] {
        let mut report = IntelligenceReport::new_at(
            IntelReportId(1),
            PersonId(1),
            IntelligenceCategory::SafeRoute,
            Region::new("Pass"),
            "Open",
            urgency,
            now,
        );
        let mut relays = 0;
        while on_receipt(&report, false, now) == Receipt::Relay {
            report.increment_hops();
            relays += 1;
            assert!(report.hop_count <= urgency.propagation_hops());
        }
        assert_eq!(relays, urgency.propagation_hops());
        assert_eq!(report.hop_count, urgency.propagation_hops());
        assert!(!report.should_propagate_at(now));

        report.hop_count = 254;
        report.increment_hops();
        assert_eq!(report.hop_count, 255);
        report.increment_hops();
        assert_eq!(report.hop_count, 255);
    }
}

#[test]
fn what_to_do_with_a_received_report() {
    let now: i64 = 1_700_000_100;
    let mut report = IntelligenceReport::new_at(
        IntelReportId(1),
        PersonId(1),
        IntelligenceCategory::AllClear,
        Region::new("Pass"),
        "Open",
        Urgency::Medium,
        now,
    );
    assert_eq!(on_receipt(&report, true, now), Receipt::Confirm);
    assert_eq!(on_receipt(&report, false, now), Receipt::Relay);
    assert_eq!(on_receipt(&report, false, now + 24 * 3600 + 1), Receipt::Keep);
    report.increment_hops();
    report.increment_hops();
    assert_eq!(on_receipt(&report, false, now), Receipt::Keep);
    assert!(report.is_relevant_at(now + 24 * 3600));
    assert!(report.is_expired_at(now + 24 * 3600 + 1));
    assert!(DangerLevel::NoDanger < DangerLevel::Low && DangerLevel::High < DangerLevel::Critical);
    assert_eq!(DangerLevel::from_code(9), DangerLevel::Moderate);
    assert_eq!(IntelligenceCategory::from_code(9), IntelligenceCategory::AllClear);
    assert_eq!(IntelligenceCategory::from_code(10), IntelligenceCategory::SafetyUpdate);
}

#[test]
fn test_safe_house_creation() {
    let operator = PersonId::new();
    let region = Region::new("Test Area");
    let house = SafeHouse::new(operator, "Green House", region, 4);

    assert_eq!(house.capacity, 4);
    assert_eq!(house.current_occupancy, 0);
    assert!(house.is_available());
    assert!(house.has_capacity(4));
}

#[test]
fn test_safe_house_occupancy() {
    let mut house = SafeHouse::new(PersonId::new(), "Test House", Region::new("Test"), 2);

    assert!(house.has_capacity(2));
    assert!(house.is_available());

    house.set_occupancy(2).unwrap();
    assert!(!house.has_capacity(1));
    assert_eq!(house.status, SafeHouseStatus::Occupied);
    assert!(!house.is_available());
}

#[test]
fn test_safe_house_capabilities() {
    let mut house = SafeHouse::new(PersonId::new(), "Test House", Region::new("Test"), 4);

    house.add_capability(SafeHouseCapability::Shelter);
    house.add_capability(SafeHouseCapability::Food);
    house.add_capability(SafeHouseCapability::Medical);

    assert!(house.meets_needs(&[SafeHouseCapability::Shelter, SafeHouseCapability::Food]));

    assert!(!house.meets_needs(&[SafeHouseCapability::Shelter, SafeHouseCapability::Transportation]));
}

#[test]
fn test_safe_house_accommodations() {
    let mut house = SafeHouse::new(PersonId::new(), "Test House", Region::new("Test"), 4);

    house.add_accommodation(Accommodation::WheelchairAccessible);
    house.add_accommodation(Accommodation::FamilyFriendly);

    assert!(house.has_accommodation(Accommodation::WheelchairAccessible));
    assert!(house.has_accommodation(Accommodation::FamilyFriendly));
    assert!(!house.has_accommodation(Accommodation::PetFriendly));
}

#[test]
fn test_safe_house_matching_algorithm() {
    let mut house1 = SafeHouse::new(PersonId::new(), "House Alpha", Region::new("Northeast"), 4);
    house1.add_capability(SafeHouseCapability::Shelter);
    house1.add_capability(SafeHouseCapability::Food);
    house1.add_accommodation(Accommodation::WheelchairAccessible);

    let mut house2 = SafeHouse::new(PersonId::new(), "House Beta", Region::new("Northeast"), 2);
    house2.add_capability(SafeHouseCapability::Shelter);

    let mut house3 = SafeHouse::new(PersonId::new(), "House Gamma", Region::new("Downtown"), 6);
    house3.add_capability(SafeHouseCapability::Shelter);
    house3.add_capability(SafeHouseCapability::Medical);

    let houses = vec![house1, house2, house3];
    let northeast: Vec<&SafeHouse> = houses.iter().filter(|h| h.region.name == "Northeast").collect();
    assert_eq!(northeast.len(), 2);

    let wheelchair =
        northeast.iter().filter(|h| h.has_accommodation(Accommodation::WheelchairAccessible)).count();
    assert_eq!(wheelchair, 1);

    let capacity_3 = northeast.iter().filter(|h| h.has_capacity(3)).count();
    assert_eq!(capacity_3, 1); // Only House Alpha (4 capacity)
}

#[test]
fn shelter_alpha_matches_three_but_not_four() {
    let now = CoarseTimestamp::from_secs(1_700_000_100);
    let mut alpha = SafeHouse::new_at(SafeHouseId(1), PersonId(1), "Alpha", Region::new("Northeast"), 4, now);
    alpha.set_occupancy_at(1, now).unwrap();
    alpha.add_capability_at(SafeHouseCapability::Shelter, now);
    alpha.add_capability_at(SafeHouseCapability::Food, now);
    alpha.add_capability_at(SafeHouseCapability::Medical, now);
    alpha.add_accommodation_at(Accommodation::WheelchairAccessible, now);

    let need = [SafeHouseCapability::Shelter, SafeHouseCapability::Food];
    let region = Region::new("Northeast");
    let matches = |house: &SafeHouse, n: u32| {
        house.region.name == region.name
            && house.meets_needs(&need)
            && house.has_capacity(n)
            && house.has_accommodation(Accommodation::WheelchairAccessible)
    };
    assert!(matches(&alpha, 3));
    assert!(!matches(&alpha, 4));
}

#[test]
fn occupancy_rules_of_a_shelter() {
    let t0 = CoarseTimestamp::from_secs(0);
    let t1 = CoarseTimestamp::from_secs(600);
    let mut house = SafeHouse::new_at(SafeHouseId(1), PersonId(1), "Attic", Region::new("Old Town"), 3, t0);
    assert_eq!(house.status, SafeHouseStatus::Available);
    // more than the capacity is refused and changes nothing
    let refused = house.set_occupancy_at(4, t1).unwrap_err();
    assert_eq!(refused.kind(), ErrorKind::Invalid);
    assert_eq!(house.current_occupancy, 0);
    assert_eq!(house.updated_at, t0);
    // full means occupied
    house.set_occupancy_at(3, t1).unwrap();
    assert_eq!(house.status, SafeHouseStatus::Occupied);
    assert_eq!(house.updated_at, t1);
    assert!(house.set_status_at(SafeHouseStatus::Available, t1).is_err());
    assert_eq!(house.status, SafeHouseStatus::Occupied);
    // room again means available
    house.set_occupancy_at(2, t1).unwrap();
    assert_eq!(house.status, SafeHouseStatus::Available);
    assert!(house.set_status_at(SafeHouseStatus::Occupied, t1).is_err());
    house.set_status_at(SafeHouseStatus::AvailableWithNotice, t1).unwrap();
    assert!(house.is_available());
    // a closed shelter stays closed while it has room
    house.set_status_at(SafeHouseStatus::Closed, t1).unwrap();
    house.set_occupancy_at(1, t1).unwrap();
    assert_eq!(house.status, SafeHouseStatus::Closed);
    assert!(!house.is_available());
    house.verify_at(t1);
    assert!(house.verified);
    // a shelter without capacity is full from the start
    let none = SafeHouse::new_at(SafeHouseId(2), PersonId(1), "None", Region::new("Old Town"), 0, t0);
    assert_eq!(none.status, SafeHouseStatus::Occupied);
    assert!(!none.has_capacity(1));
    assert!(none.has_capacity(0));
    let mut big = SafeHouse::new_at(SafeHouseId(3), PersonId(1), "Hall", Region::new("Old Town"), u32::MAX, t0);
    big.set_occupancy_at(u32::MAX - 1, t0).unwrap();
    assert!(big.has_capacity(1));
    assert!(!big.has_capacity(u32::MAX));
    assert_eq!(SafeHouseStatus::from_code(SafeHouseStatus::Closed.code()), SafeHouseStatus::Closed);
    assert_eq!(SafeHouseStatus::from_code(12), SafeHouseStatus::TemporarilyUnavailable);
}

#[test]
fn test_transport_offer() {
    let driver = PersonId::new();
    let region = Region::new("Test City");

    let mut offer = TransportOffer::new(driver, VehicleType::Van, 5, vec![region]);

    offer.add_capability(TransportCapability::WheelchairAccessible);
    offer.add_capability(TransportCapability::ChildSeats);

    assert_eq!(offer.capacity, 5);
    assert_eq!(offer.vehicle_type, VehicleType::Van);
    assert!(offer.capabilities.contains(&TransportCapability::WheelchairAccessible));
}

#[test]
fn test_transport_matching() {
    let driver = PersonId::new();
    let requester = PersonId::new();
    let from = Region::new("City A");
    let to = Region::new("City B");

    let mut offer = TransportOffer::new(driver, VehicleType::Van, 5, vec![from.clone(), to.clone()]);
    offer.add_capability(TransportCapability::ChildSeats);

    let mut request = TransportRequest::new(requester, from, to, 3, TravelTiming::WithinDay);
    request.add_requirement(TransportRequirement::ChildSafety);

    assert!(offer.can_serve(&request));
}

#[test]
fn test_transport_mismatch_capacity() {
    let driver = PersonId::new();
    let requester = PersonId::new();
    let region = Region::new("Test");

    let offer = TransportOffer::new(
        driver,
        VehicleType::Car,
        2, // Only 2 seats
        vec![region.clone()],
    );

    let request = TransportRequest::new(
        requester,
        region.clone(),
        region,
        5, // Need 5 seats
        TravelTiming::Immediate,
    );

    assert!(!offer.can_serve(&request));
}

#[test]
fn what_an_offer_can_serve() {
    let now: i64 = 1_700_000_100;
    let town = Region { name: "Town".to_string(), lat: Some(47_000_000), lon: Some(8_000_000), radius_km: None };
    let near = Region { name: "Village".to_string(), lat: Some(47_300_000), lon: Some(8_000_000), radius_km: None };
    let far = Region { name: "Coast".to_string(), lat: Some(44_000_000), lon: Some(8_000_000), radius_km: None };
    let mut offer = TransportOffer::new_at(TransportId(1), PersonId(1), VehicleType::Car, 4, vec![town.clone()], now);
    assert_eq!(offer.expires_at.as_secs(), now + 7 * 86400);
    let mut request =
        TransportRequest::new_at(TransportId(2), PersonId(2), near.clone(), far.clone(), 4, TravelTiming::Flexible, now);
    assert_eq!(request.expires_at.as_secs(), now + 3 * 86400);
    assert!(request.is_active_at(now + 3 * 86400));
    assert!(!request.is_active_at(now + 3 * 86400 + 1));
    // the start of the journey is 33 km from town
    assert!(offer.can_serve(&request));
    // neither end is near
    let nowhere = TransportRequest::new_at(TransportId(3), PersonId(2), far.clone(), far, 1, TravelTiming::Flexible, now);
    assert!(!offer.can_serve(&nowhere));
    // every requirement needs its capability
    request.add_requirement(TransportRequirement::Pets);
    request.add_requirement(TransportRequirement::Pets);
    assert_eq!(request.requirements, vec![TransportRequirement::Pets]);
    assert!(!offer.can_serve(&request));
    offer.add_capability(TransportCapability::PetFriendly);
    assert!(offer.can_serve(&request));
    request.add_requirement(TransportRequirement::AvoidCheckpoints);
    assert!(!offer.can_serve(&request));
    offer.add_capability(TransportCapability::SafeRoutes);
    assert!(offer.can_serve(&request));
    assert_eq!(TransportRequirement::Urgent.capability(), TransportCapability::Immediate);
    assert_eq!(TransportRequirement::WheelchairAccess.capability(), TransportCapability::WheelchairAccessible);
    // only an active offer serves
    offer.status = TransportStatus::Matched;
    assert!(!offer.can_serve(&request));
    assert_eq!(TransportStatus::from_code(5), Some(TransportStatus::Expired));
    assert_eq!(TransportStatus::from_code(6), None);
    assert_eq!(VehicleType::Boat.code(), 7);
}
