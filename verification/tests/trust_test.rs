use underground_railroad_core::trust::contact::{Capability, Contact, ContactInfo};
use underground_railroad_core::trust::graph::{explore, shortest_path, weakest, TrustEdge, TrustGraph, MAX_CACHED_PATHS};
use underground_railroad_core::trust::verification::{
    VerificationChecklist, VerificationMethod, VerificationProof, VerificationRequest, VerificationStatus,
};
use underground_railroad_core::trust::TrustRelationship;
use underground_railroad_core::types::{Fingerprint, PersonId, SecureBytes, TrustLevel};

#[test]
fn test_contact_creation() {
    let id = PersonId::new();
    let fingerprint = Fingerprint::new([0u8; 32]);
    let route = SecureBytes::new(vec![1, 2, 3, 4]);

    let contact = Contact::new(id, "Alice", fingerprint, route, TrustLevel::VerifiedInPerson);

    assert_eq!(contact.info.name, "Alice");
    assert_eq!(contact.trust_level, TrustLevel::VerifiedInPerson);
    assert!(contact.can_see_activity());
}

#[test]
fn test_contact_capabilities() {
    let mut contact = Contact::new(
        PersonId::new(),
        "Bob",
        Fingerprint::new([0u8; 32]),
        SecureBytes::new(vec![]),
        TrustLevel::VerifiedRemote,
    );

    assert!(!contact.has_capability(Capability::SafeHouse));

    contact.add_capability(Capability::SafeHouse);
    contact.add_capability(Capability::Transportation);

    assert!(contact.has_capability(Capability::SafeHouse));
    assert!(contact.has_capability(Capability::Transportation));
    assert!(!contact.has_capability(Capability::Medical));
}

#[test]
fn test_contact_tags() {
    let mut contact = Contact::new(
        PersonId::new(),
        "Charlie",
        Fingerprint::new([0u8; 32]),
        SecureBytes::new(vec![]),
        TrustLevel::Introduced,
    );

    contact.add_tag("trusted");
    contact.add_tag("driver");

    assert!(contact.has_tag("trusted"));
    assert!(contact.has_tag("driver"));
    assert!(!contact.has_tag("unknown"));
}

#[test]
fn test_contact_languages() {
    let mut info = ContactInfo::new("David");

    info.add_language("en");
    info.add_language("es");
    info.add_language("zh");

    assert!(info.speaks("en"));
    assert!(info.speaks("es"));
    assert!(info.speaks("zh"));
    assert!(!info.speaks("fr"));
}

#[test]
fn contact_lists_hold_nothing_twice() {
    let mut contact = Contact::new(
        PersonId::new(),
        "Dora",
        Fingerprint::new([7u8; 32]),
        SecureBytes::new(vec![9]),
        TrustLevel::Unknown,
    );
    contact.add_tag("driver");
    contact.add_tag("driver");
    contact.add_capability(Capability::Relay);
    contact.add_capability(Capability::Relay);
    contact.info.add_language("en");
    contact.info.add_language("en");
    assert_eq!(contact.tags, vec!["driver".to_string()]);
    assert_eq!(contact.info.capabilities, vec![Capability::Relay]);
    assert_eq!(contact.info.languages, vec!["en".to_string()]);
    assert!(!contact.can_see_activity());
    assert!(!contact.can_relay_messages());
    contact.update_trust(TrustLevel::VerifiedRemote);
    assert!(contact.can_relay_messages());
    assert!(contact.last_contact.is_none());
    contact.update_last_contact();
    assert!(contact.last_contact.is_some());
    assert_eq!(contact.verification_words().len(), 3);
    assert_eq!(Capability::from_name(&"Relay".to_string()), Some(Capability::Relay));
    assert_eq!(Capability::from_name(&"relay".to_string()), None);
    assert_eq!(Capability::Documents.name(), "Documents");
}

#[test]
fn test_trust_graph_basic() {
    let mut graph = TrustGraph::new();

    let alice = PersonId::new();
    let bob = PersonId::new();

    graph.add_trust(alice, bob, TrustLevel::VerifiedInPerson);

    assert_eq!(graph.get_trust(alice, bob), Some(TrustLevel::VerifiedInPerson));
    assert_eq!(graph.get_trust(bob, alice), None);
}

#[test]
fn test_trust_path_finding() {
    let mut graph = TrustGraph::new();

    let alice = PersonId::new();
    let bob = PersonId::new();
    let charlie = PersonId::new();

    // Alice trusts Bob, Bob trusts Charlie
    graph.add_trust(alice, bob, TrustLevel::VerifiedInPerson);
    graph.add_trust(bob, charlie, TrustLevel::VerifiedRemote);

    // Find path from Alice to Charlie
    let path = graph.find_path(alice, charlie, 5);
    assert!(path.is_some());

    let path = path.unwrap();
    assert_eq!(path.nodes.len(), 3);
    assert_eq!(path.nodes[0], alice);
    assert_eq!(path.nodes[1], bob);
    assert_eq!(path.nodes[2], charlie);
    assert_eq!(path.hops, 2);
    assert_eq!(path.strength, TrustLevel::VerifiedRemote); // Weakest link
}

#[test]
fn test_trust_network() {
    let mut graph = TrustGraph::new();

    let alice = PersonId::new();
    let bob = PersonId::new();
    let charlie = PersonId::new();
    let david = PersonId::new();

    // Create network: Alice -> Bob -> Charlie -> David
    graph.add_trust(alice, bob, TrustLevel::VerifiedInPerson);
    graph.add_trust(bob, charlie, TrustLevel::VerifiedRemote);
    graph.add_trust(charlie, david, TrustLevel::Introduced);

    let network = graph.get_network(alice, 2);
    assert_eq!(network.len(), 2); // Bob (1 hop) and Charlie (2 hops)

    let network_3 = graph.get_network(alice, 3);
    assert_eq!(network_3.len(), 3); // Bob, Charlie, and David
}

#[test]
fn test_trust_graph_stats() {
    let mut graph = TrustGraph::new();

    let alice = PersonId::new();
    let bob = PersonId::new();
    let charlie = PersonId::new();

    graph.add_trust(alice, bob, TrustLevel::VerifiedInPerson);
    graph.add_trust(alice, charlie, TrustLevel::VerifiedRemote);
    graph.add_trust(bob, charlie, TrustLevel::Introduced);

    let stats = graph.stats();
    assert_eq!(stats.total_people, 3);
    assert_eq!(stats.total_relationships, 3);
}

#[test]
fn test_trust_removal() {
    let mut graph = TrustGraph::new();

    let alice = PersonId::new();
    let bob = PersonId::new();

    graph.add_trust(alice, bob, TrustLevel::VerifiedInPerson);
    assert!(graph.get_trust(alice, bob).is_some());

    graph.remove_trust(alice, bob);
    assert!(graph.get_trust(alice, bob).is_none());
}

#[test]
fn test_path_strength() {
    let mut graph = TrustGraph::new();

    let alice = PersonId::new();
    let bob = PersonId::new();
    let charlie = PersonId::new();

    graph.add_trust(alice, bob, TrustLevel::VerifiedInPerson);
    graph.add_trust(bob, charlie, TrustLevel::Unknown);

    let path = graph.find_path(alice, charlie, 5).unwrap();

    // Path strength is the weakest link
    assert_eq!(path.strength, TrustLevel::Unknown);
    assert!(!path.is_strong_enough(TrustLevel::Introduced));
}

#[test]
fn test_trust_graph_pathfinding() {
    let alice = PersonId(1);
    let bob = PersonId(2);
    let charlie = PersonId(3);
    let david = PersonId(4);

    let mut graph = TrustGraph::new();

    // Build trust network: Alice -> Bob -> Charlie -> David
    graph.add_trust(alice, bob, TrustLevel::VerifiedInPerson);
    graph.add_trust(bob, charlie, TrustLevel::VerifiedRemote);
    graph.add_trust(charlie, david, TrustLevel::Introduced);

    // Find path from Alice to David
    let path = graph.find_path(alice, david, 5);
    assert!(path.is_some());

    let path = path.unwrap();
    assert_eq!(path.nodes, vec![alice, bob, charlie, david]);
    assert_eq!(path.trust_levels, vec![TrustLevel::VerifiedInPerson, TrustLevel::VerifiedRemote, TrustLevel::Introduced]);
    assert_eq!(path.hops, 3);
    assert_eq!(path.strength, TrustLevel::Introduced); // Weakest link
    assert_eq!(path.weakest_link(), (charlie, david, TrustLevel::Introduced));

    // Find network within 2 hops
    let network = graph.get_network(alice, 2);
    assert_eq!(network, vec![(bob, 1), (charlie, 2)]); // Bob (1 hop) + Charlie (2 hops)
}

#[test]
fn shortest_path_wins_and_hop_limit_holds() {
    let a = PersonId(1);
    let b = PersonId(2);
    let c = PersonId(3);
    let d = PersonId(4);
    let mut graph = TrustGraph::new();
    graph.add_trust(a, b, TrustLevel::Introduced);
    graph.add_trust(b, c, TrustLevel::Introduced);
    graph.add_trust(c, d, TrustLevel::Introduced);
    graph.add_trust(a, c, TrustLevel::VerifiedRemote);
    // a -> c -> d is shorter than a -> b -> c -> d
    let path = graph.find_path(a, d, 5).unwrap();
    assert_eq!(path.nodes, vec![a, c, d]);
    assert_eq!(path.hops, 2);
    assert_eq!(path.strength, TrustLevel::Introduced);
    // a path may have as many hops as the limit allows, and no more
    graph.clear_cache();
    assert!(graph.find_path(a, d, 1).is_none());
    graph.clear_cache();
    assert_eq!(graph.find_path(a, d, 2).unwrap().nodes, vec![a, c, d]);
    graph.clear_cache();
    assert!(graph.find_path(a, d, 3).is_some());
    // a direct edge is one hop: a limit of none does not allow it
    graph.clear_cache();
    assert!(graph.find_path(a, b, 0).is_none());
    graph.clear_cache();
    let direct = graph.find_path(a, b, 1).unwrap();
    assert_eq!(direct.nodes, vec![a, b]);
    assert_eq!(direct.hops, 1);
    graph.clear_cache();
    let own = graph.find_path(a, a, 0).unwrap();
    assert_eq!(own.nodes, vec![a]);
    // nobody leads back
    assert!(graph.find_path(d, a, 10).is_none());
    // from a person to themselves
    let own = graph.find_path(a, a, 1).unwrap();
    assert_eq!(own.nodes, vec![a]);
    assert_eq!(own.hops, 0);
    assert_eq!(own.strength, TrustLevel::Unknown);
}

#[test]
fn ties_are_broken_by_the_order_of_edges() {
    let a = PersonId(1);
    let b = PersonId(2);
    let c = PersonId(3);
    let d = PersonId(4);
    let mut graph = TrustGraph::new();
    graph.add_trust(a, c, TrustLevel::Introduced);
    graph.add_trust(a, b, TrustLevel::VerifiedInPerson);
    graph.add_trust(b, d, TrustLevel::VerifiedInPerson);
    graph.add_trust(c, d, TrustLevel::Introduced);
    let path = graph.find_path(a, d, 5).unwrap();
    assert_eq!(path.nodes, vec![a, c, d]);
    // changing the level of an edge keeps its place
    graph.add_trust(a, c, TrustLevel::Unknown);
    let path = graph.find_path(a, d, 5).unwrap();
    assert_eq!(path.nodes, vec![a, c, d]);
    assert_eq!(path.strength, TrustLevel::Unknown);
    assert_eq!(graph.get_trusted(a), vec![(c, TrustLevel::Unknown), (b, TrustLevel::VerifiedInPerson)]);
    assert_eq!(graph.get_trusters(d), vec![(b, TrustLevel::VerifiedInPerson), (c, TrustLevel::Introduced)]);
}

#[test]
fn the_cache_answers_until_the_graph_changes() {
    let a = PersonId(1);
    let b = PersonId(2);
    let c = PersonId(3);
    let mut graph = TrustGraph::new();
    graph.add_trust(a, b, TrustLevel::Introduced);
    graph.add_trust(b, c, TrustLevel::Introduced);
    assert!(graph.find_path(a, c, 1).is_none());
    // the remembered answer comes back whatever the limit says
    assert!(graph.find_path(a, c, 5).is_none());
    // any change forgets it
    graph.add_trust(a, b, TrustLevel::VerifiedRemote);
    let path = graph.find_path(a, c, 5).unwrap();
    assert_eq!(path.hops, 2);
    graph.remove_trust(b, c);
    assert!(graph.find_path(a, c, 5).is_none());
    assert!(MAX_CACHED_PATHS == 10_000);
}

#[test]
fn graph_counts() {
    let a = PersonId(1);
    let b = PersonId(2);
    let c = PersonId(3);
    let mut graph = TrustGraph::new();
    assert_eq!(graph.total_people(), 0);
    assert_eq!(graph.stats().avg_connections_milli, 0);
    graph.add_trust(a, b, TrustLevel::VerifiedInPerson);
    graph.add_trust(a, c, TrustLevel::VerifiedRemote);
    graph.add_trust(b, c, TrustLevel::Introduced);
    graph.add_trust(c, c, TrustLevel::Introduced);
    let stats = graph.stats();
    assert_eq!(stats.total_people, 3);
    assert_eq!(stats.total_relationships, 4);
    assert_eq!(stats.avg_connections_milli, 1333);
    assert_eq!(stats.by_trust_level, [0, 0, 2, 1, 1]);
    assert_eq!(graph.total_relationships(), 4);
}

#[test]
fn search_on_bare_edges() {
    let edges = vec![
        TrustEdge { from: PersonId(1), to: PersonId(2), level: TrustLevel::VerifiedRemote },
        TrustEdge { from: PersonId(2), to: PersonId(1), level: TrustLevel::Blocked },
        TrustEdge { from: PersonId(2), to: PersonId(3), level: TrustLevel::Introduced },
    ];
    let order = explore(&edges, PersonId(1), 2);
    assert_eq!(order.len(), 3);
    assert_eq!(order[2].id, PersonId(3));
    assert_eq!(order[2].depth, 2);
    let path = shortest_path(&edges, PersonId(1), PersonId(3), 3).unwrap();
    assert_eq!(path.nodes, vec![PersonId(1), PersonId(2), PersonId(3)]);
    assert_eq!(shortest_path(&edges, PersonId(1), PersonId(3), 2).unwrap().hops, 2);
    assert!(shortest_path(&edges, PersonId(1), PersonId(3), 1).is_none());
    assert_eq!(weakest(&vec![]), TrustLevel::Unknown);
    assert_eq!(weakest(&vec![TrustLevel::VerifiedInPerson, TrustLevel::Blocked]), TrustLevel::Blocked);
    let copy = path.duplicate();
    assert_eq!(copy.nodes, path.nodes);
    assert_eq!(copy.strength, TrustLevel::Introduced);
}

#[test]
fn test_trust_relationship() {
    let alice = PersonId::new();
    let bob = PersonId::new();

    let mut trust = TrustRelationship::new(alice, bob, TrustLevel::VerifiedRemote, VerificationMethod::VideoCall);

    assert_eq!(trust.level, TrustLevel::VerifiedRemote);
    assert!(trust.allows_activity());
    assert!(trust.allows_relay());

    trust.update_level(TrustLevel::VerifiedInPerson);
    assert_eq!(trust.level, TrustLevel::VerifiedInPerson);
    trust.set_introducer(PersonId(5));
    assert_eq!(trust.introduced_by, Some(PersonId(5)));
}

#[test]
fn test_verification_proof() {
    let verifier = PersonId::new();
    let verified = PersonId::new();
    let fingerprint = Fingerprint::new([0u8; 32]);

    let proof = VerificationProof::new(verifier, verified, VerificationMethod::InPerson, fingerprint)
        .with_location("Coffee Shop");

    assert!(proof.is_in_person());
    assert_eq!(proof.location, Some("Coffee Shop".to_string()));
    assert!(!proof.is_signed());
    let signed = proof.with_signature(SecureBytes::new(vec![1])).with_proof_data(SecureBytes::new(vec![2]));
    assert!(signed.is_signed());
}

#[test]
fn test_verification_request() {
    let requester = PersonId::new();
    let verifier = PersonId::new();
    let fingerprint = Fingerprint::new([0u8; 32]);

    let mut request = VerificationRequest::new(requester, verifier, VerificationMethod::VideoCall, fingerprint);

    assert!(request.is_pending());

    request.accept();
    assert_eq!(request.status, VerificationStatus::Accepted);

    request.complete();
    assert!(request.is_completed());
}

#[test]
fn test_verification_checklist() {
    let mut checklist = VerificationChecklist::new();

    assert!(!checklist.is_valid());
    assert_eq!(checklist.completion_percentage(), 0);

    checklist.met_in_person = true;
    checklist.fingerprint_verified = true;
    checklist.words_compared = true;

    assert!(checklist.is_valid());
    assert_eq!(checklist.completion_percentage(), 50);

    checklist.identity_checked = true;
    checklist.security_discussed = true;
    checklist.secure_channel_established = true;

    assert!(checklist.is_complete());
    assert_eq!(checklist.completion_percentage(), 100);
}

#[test]
fn checklist_percentages_round_down() {
    let mut checklist = VerificationChecklist::default();
    checklist.met_in_person = true;
    assert_eq!(checklist.completion_percentage(), 16);
    checklist.identity_checked = true;
    assert_eq!(checklist.completion_percentage(), 33);
    checklist.words_compared = true;
    checklist.security_discussed = true;
    assert_eq!(checklist.completion_percentage(), 66);
    checklist.secure_channel_established = true;
    assert_eq!(checklist.completion_percentage(), 83);
    assert!(!checklist.is_valid());
}

#[test]
fn test_verification_request_rejection() {
    let requester = PersonId::new();
    let verifier = PersonId::new();
    let fingerprint = Fingerprint::new([0u8; 32]);

    let mut request = VerificationRequest::new(requester, verifier, VerificationMethod::PhoneCall, fingerprint);

    request.reject();
    assert_eq!(request.status, VerificationStatus::Rejected);
    assert!(!request.is_completed());
    request.accept();
    assert_eq!(request.status, VerificationStatus::Rejected);
    assert_eq!(VerificationMethod::from_code(VerificationMethod::PhoneCall.code()), VerificationMethod::PhoneCall);
    assert_eq!(VerificationMethod::from_code(99), VerificationMethod::Unverified);
}

#[test]
fn of_two_shortest_paths_the_one_over_the_edge_added_first_is_taken() {
    let (a, b, c, d) = (PersonId(1), PersonId(2), PersonId(3), PersonId(4));

    let mut graph = TrustGraph::new();
    graph.add_trust(a, b, TrustLevel::Introduced);
    graph.add_trust(a, c, TrustLevel::VerifiedInPerson);
    graph.add_trust(b, d, TrustLevel::VerifiedRemote);
    graph.add_trust(c, d, TrustLevel::VerifiedInPerson);
    let path = graph.find_path(a, d, 5).unwrap();
    assert_eq!(path.nodes, vec![a, b, d]);
    assert_eq!(path.trust_levels, vec![TrustLevel::Introduced, TrustLevel::VerifiedRemote]);
    assert_eq!(path.strength, TrustLevel::Introduced);
    assert_eq!(path.hops, 2);

    // an edge that is set again keeps its place
    graph.add_trust(a, b, TrustLevel::VerifiedRemote);
    assert_eq!(graph.find_path(a, d, 5).unwrap().nodes, vec![a, b, d]);

    // an edge that is removed and added again comes last
    graph.remove_trust(a, b);
    graph.add_trust(a, b, TrustLevel::VerifiedRemote);
    assert_eq!(graph.find_path(a, d, 5).unwrap().nodes, vec![a, c, d]);

    let mut other = TrustGraph::new();
    other.add_trust(c, d, TrustLevel::Introduced);
    other.add_trust(b, d, TrustLevel::Introduced);
    other.add_trust(a, c, TrustLevel::Introduced);
    other.add_trust(a, b, TrustLevel::Introduced);
    assert_eq!(other.find_path(a, d, 5).unwrap().nodes, vec![a, c, d]);
}

#[test]
fn the_network_lists_the_nearest_first() {
    let (a, b, c, d, e) = (PersonId(1), PersonId(2), PersonId(3), PersonId(4), PersonId(5));
    let mut graph = TrustGraph::new();
    graph.add_trust(b, d, TrustLevel::Introduced);
    graph.add_trust(d, e, TrustLevel::Introduced);
    graph.add_trust(a, c, TrustLevel::Introduced);
    graph.add_trust(a, b, TrustLevel::Introduced);
    graph.add_trust(c, a, TrustLevel::Introduced);
    assert_eq!(graph.get_network(a, 3), vec![(c, 1), (b, 1), (d, 2), (e, 3)]);
    assert_eq!(graph.get_network(a, 2), vec![(c, 1), (b, 1), (d, 2)]);
    assert_eq!(graph.get_network(a, 0), vec![]);
    assert_eq!(graph.get_network(e, 3), vec![]);
}
