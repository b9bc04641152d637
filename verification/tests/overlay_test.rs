use underground_railroad_core::error::ErrorKind;
use underground_railroad_core::types::{MessageId, PersonId};
use underground_railroad_core::veilid_client::client::{next_state, LifecycleEvent, VeilidClient, VeilidState};
use underground_railroad_core::veilid_client::config::VeilidConfig;
use underground_railroad_core::veilid_client::dht::{DHTKey, DHTRecord};
use underground_railroad_core::veilid_client::messaging::{
    look_begin, look_next, poll_step, retry_delay_secs, send_begin, send_next, slot_state, LookStep, Mailbox,
    PollStep, SeenMessages, SendStep, SlotState, MAILBOX_SLOTS, QUICK_LOOK_SLOTS,
};
use underground_railroad_core::veilid_client::routes::{PrivateRoute, RouteId, RouteManager};

#[test]
fn test_client_creation() {
    let config = VeilidConfig::for_testing("/tmp/urr-test".to_string());
    let client = VeilidClient::new(config);

    assert_eq!(client.state(), VeilidState::Uninitialized);
    assert!(!client.is_connected());
}

#[test]
fn test_client_start_stop() {
    let config = VeilidConfig::for_testing("/tmp/urr-test".to_string());
    let mut client = VeilidClient::new(config);

    // Start
    client.start().unwrap();
    assert_eq!(client.state(), VeilidState::Starting);
    client.attached().unwrap();
    assert_eq!(client.state(), VeilidState::Connected);
    assert!(client.is_connected());

    // Stop
    assert!(client.stop());
    assert_eq!(client.state(), VeilidState::Stopping);
    client.stopped().unwrap();
    assert_eq!(client.state(), VeilidState::Stopped);
    assert!(!client.is_connected());
    // stopping again changes nothing
    assert!(!client.stop());
    assert_eq!(client.state(), VeilidState::Stopped);
}

#[test]
fn test_cannot_start_twice() {
    let config = VeilidConfig::for_testing("/tmp/urr-test".to_string());
    let mut client = VeilidClient::new(config);

    client.start().unwrap();
    client.attached().unwrap();

    // Second start should fail
    let result = client.start();
    assert!(result.is_err());
    assert_eq!(result.unwrap_err().kind(), ErrorKind::Invalid);
    assert_eq!(client.state(), VeilidState::Connected);
}

#[test]
fn test_operations_require_connection() {
    let config = VeilidConfig::for_testing("/tmp/urr-test".to_string());
    let mut client = VeilidClient::new(config);

    // Should fail when not connected
    let result = client.require_connected();
    assert!(result.is_err());
    assert_eq!(result.unwrap_err().kind(), ErrorKind::Network);
    client.start().unwrap();
    assert!(client.require_connected().is_err());
    client.attached().unwrap();
    assert!(client.require_connected().is_ok());
    client.apply(LifecycleEvent::ConnectionLost).unwrap();
    assert_eq!(client.state(), VeilidState::Disconnected);
    assert!(client.require_connected().is_err());
    client.apply(LifecycleEvent::ConnectionRestored).unwrap();
    assert!(client.require_connected().is_ok());
    assert!(client.apply(LifecycleEvent::Attached).is_err());
}

#[test]
fn lifecycle_table() {
    let states = [
        VeilidState::Uninitialized,
        VeilidState::Starting,
        VeilidState::Connected,
        VeilidState::Disconnected,
        VeilidState::Stopping,
        VeilidState::Stopped,
    ];
    for state in states {
        assert_eq!(
            next_state(state, LifecycleEvent::Start),
            if state == VeilidState::Uninitialized { Some(VeilidState::Starting) } else { None }
        );
        assert_eq!(
            next_state(state, LifecycleEvent::Attached),
            if state == VeilidState::Starting { Some(VeilidState::Connected) } else { None }
        );
        assert_eq!(
            next_state(state, LifecycleEvent::ConnectionLost),
            if state == VeilidState::Connected { Some(VeilidState::Disconnected) } else { None }
        );
        assert_eq!(
            next_state(state, LifecycleEvent::ConnectionRestored),
            if state == VeilidState::Disconnected { Some(VeilidState::Connected) } else { None }
        );
        assert_eq!(
            next_state(state, LifecycleEvent::Stop),
            if state == VeilidState::Stopped { Some(VeilidState::Stopped) } else { Some(VeilidState::Stopping) }
        );
        assert_eq!(
            next_state(state, LifecycleEvent::ShutDown),
            if state == VeilidState::Stopping { Some(VeilidState::Stopped) } else { None }
        );
    }
}

#[test]
fn test_default_config() {
    let config = VeilidConfig::default();

    // Should use maximum privacy by default
    assert!(config.network.use_tor);
    assert!(config.network.use_i2p);
    assert!(!config.network.enable_upnp);
    assert!(config.privacy.default_routing_private);
    assert!(config.privacy.enable_cover_traffic);
    assert!(config.enable_relay);
    assert_eq!(config.storage_path, ".veilid");
}

#[test]
fn test_private_config() {
    let config = VeilidConfig::default_private("/test".to_string());

    assert_eq!(config.privacy.min_relay_count, 3);
    assert_eq!(config.privacy.max_relay_count, 5);
    assert!(config.privacy.default_routing_private);
    assert!(!config.network.use_tor);
    assert_eq!(config.network.max_peers, 16);
    assert_eq!(config.storage_path, "/test");
}

#[test]
fn test_testing_config() {
    let config = VeilidConfig::for_testing("/test".to_string());

    // Testing config should be faster (less anonymous)
    assert!(!config.network.use_tor);
    assert!(!config.privacy.enable_cover_traffic);
    assert!(!config.enable_relay);
    assert_eq!(config.privacy.max_relay_count, 2);
}

#[test]
fn test_dht_key_random() {
    let key1 = DHTKey::random();
    let key2 = DHTKey::random();

    // Should be different
    assert_ne!(key1, key2);
}

#[test]
fn test_dht_key_hex() {
    let key = DHTKey::from_bytes([42u8; 32]);
    let hex = key.to_hex();

    let parsed = DHTKey::from_hex(&hex).unwrap();
    assert_eq!(parsed, key);
    assert_eq!(hex, "2a".repeat(32));
    assert_eq!(DHTKey::from_hex(&"2A".repeat(32)).unwrap(), key);
}

#[test]
fn test_dht_key_invalid_hex() {
    let result = DHTKey::from_hex("invalid");
    assert!(result.is_err());
    assert_eq!(result.unwrap_err().kind(), ErrorKind::Serialization);

    // Too short
    let result = DHTKey::from_hex("0123");
    assert!(result.is_err());
    assert_eq!(result.unwrap_err().kind(), ErrorKind::Invalid);
    assert_eq!(DHTKey::from_hex("012").unwrap_err().kind(), ErrorKind::Serialization);
}

#[test]
fn test_dht_record() {
    let key = DHTKey::random();
    let data = vec![1, 2, 3, 4];

    let record = DHTRecord::new(key.clone(), data.clone(), true);

    assert_eq!(record.key(), &key);
    assert_eq!(record.data(), &data);
    assert!(record.is_private());
}

#[test]
fn dht_test_private_route() {
    let id = RouteId("test-route-123".to_string());
    let blob = vec![1, 2, 3, 4, 5, 6, 7, 8];

    let route = PrivateRoute::new(id.clone(), blob);

    assert_eq!(route.id, id);
    assert!(route.is_valid());
}

#[test]
fn dht_test_route_export_import() {
    let id = RouteId("test".to_string());
    let blob = vec![1, 2, 3, 4, 5];
    let route = PrivateRoute::new(id.clone(), blob.clone());

    let exported = route.export().unwrap();
    let imported = PrivateRoute::import(id, &exported).unwrap();

    assert_eq!(imported.route_blob(), &blob);
}

#[test]
fn dht_test_route_manager() {
    let mut manager = RouteManager::new();

    let persona1 = PersonId::new();
    let persona2 = PersonId::new();

    let route1 = PrivateRoute::new(RouteId("r1".to_string()), vec![1]);
    let route2 = PrivateRoute::new(RouteId("r2".to_string()), vec![2]);

    manager.add_route(persona1, route1);
    manager.add_route(persona2, route2);

    assert_eq!(manager.count(), 2);

    let routes = manager.list_routes();
    assert_eq!(routes.len(), 2);
}

#[test]
fn test_route_manager_invalidate_all() {
    let mut manager = RouteManager::new();

    let persona = PersonId::new();
    let route = PrivateRoute::new(RouteId("test".to_string()), vec![1]);

    manager.add_route(persona, route);
    assert!(manager.get_route(persona).unwrap().is_valid());

    manager.invalidate_all();
    assert!(!manager.get_route(persona).unwrap().is_valid());
}

#[test]
fn routes_test_private_route() {
    let id = RouteId("test-route".to_string());
    let blob = vec![1, 2, 3, 4, 5];

    let route = PrivateRoute::new(id.clone(), blob.clone());

    assert_eq!(route.id, id);
    assert_eq!(route.route_blob(), &blob);
    assert!(route.is_valid());
}

#[test]
fn test_route_invalidation() {
    let id = RouteId("test".to_string());
    let mut route = PrivateRoute::new(id, vec![1, 2, 3]);

    assert!(route.is_valid());

    route.invalidate();
    assert!(!route.is_valid());
}

#[test]
fn routes_test_route_export_import() {
    let id = RouteId("test".to_string());
    let blob = vec![1, 2, 3, 4, 5];
    let route = PrivateRoute::new(id.clone(), blob);

    let exported = route.export().unwrap();
    assert!(!exported.is_empty());
    assert_eq!(exported, "AQIDBAU=");

    let imported = PrivateRoute::import(id.clone(), &exported).unwrap();
    assert_eq!(imported.route_blob(), route.route_blob());
    assert_eq!(PrivateRoute::import(id, "*").err().map(|e| e.kind()), Some(ErrorKind::Serialization));
}

#[test]
fn routes_test_route_manager() {
    let mut manager = RouteManager::new();

    let persona = PersonId::new();
    let route = PrivateRoute::new(RouteId("test".to_string()), vec![1, 2, 3]);

    assert_eq!(manager.count(), 0);

    manager.add_route(persona, route.clone());
    assert_eq!(manager.count(), 1);

    let retrieved = manager.get_route(persona);
    assert!(retrieved.is_some());

    manager.remove_route(persona);
    assert_eq!(manager.count(), 0);
}

#[test]
fn test_invalidate_all() {
    let mut manager = RouteManager::new();

    let p1 = PersonId::new();
    let p2 = PersonId::new();

    manager.add_route(p1, PrivateRoute::new(RouteId("r1".to_string()), vec![1]));
    manager.add_route(p2, PrivateRoute::new(RouteId("r2".to_string()), vec![2]));

    // All routes valid
    assert!(manager.get_route(p1).unwrap().is_valid());
    assert!(manager.get_route(p2).unwrap().is_valid());

    // Invalidate all
    manager.invalidate_all();

    // All routes now invalid
    assert!(!manager.get_route(p1).unwrap().is_valid());
    assert!(!manager.get_route(p2).unwrap().is_valid());
    assert_eq!(manager.get_route(p1).unwrap().route_blob(), &[1]);
    assert_eq!(manager.get_route(p2).unwrap().id, RouteId("r2".to_string()));
}

#[test]
fn one_route_for_each_persona() {
    let mut manager = RouteManager::default();
    let p = PersonId(1);
    manager.add_route(p, PrivateRoute::new(RouteId("old".to_string()), vec![1]));
    manager.add_route(p, PrivateRoute::new(RouteId("new".to_string()), vec![2]));
    assert_eq!(manager.count(), 1);
    assert_eq!(manager.get_route(p).unwrap().id, RouteId("new".to_string()));
    assert!(manager.get_route(PersonId(2)).is_none());
    assert!(manager.remove_route(PersonId(2)).is_none());
    let taken = manager.remove_route(p).unwrap();
    assert_eq!(taken.route_blob(), &[2]);
    assert!(manager.get_route(p).is_none());
}

#[test]
fn a_full_mailbox_refuses_until_a_slot_is_tombstoned() {
    let mut mailbox = Mailbox::new();
    for slot in 0..MAILBOX_SLOTS {
        assert_eq!(mailbox.send(&[slot as u8 + 1]).unwrap(), slot);
    }
    // every subkey is taken: the send fails and writes nothing
    let failure = mailbox.send(b"one more").unwrap_err();
    assert_eq!(failure.kind(), ErrorKind::Network);
    for slot in 0..MAILBOX_SLOTS {
        assert_eq!(mailbox.read(slot), Some(vec![slot as u8 + 1]));
    }
    // the owner tombstones subkey 7; the next send writes there
    mailbox.tombstone(7);
    assert_eq!(mailbox.read(7), None);
    assert_eq!(mailbox.send(b"one more").unwrap(), 7);
    assert_eq!(mailbox.read(7), Some(b"one more".to_vec()));
    assert!(mailbox.send(b"and another").is_err());
}

#[test]
fn what_was_sent_is_polled_once() {
    let mut mailbox = Mailbox::new();
    assert!(mailbox.poll().is_empty());
    assert_eq!(mailbox.send(b"first").unwrap(), 0);
    assert_eq!(mailbox.send(b"second").unwrap(), 1);
    mailbox.write(40, b"late".to_vec());
    assert_eq!(mailbox.send(&[]).unwrap_err().kind(), ErrorKind::Invalid);
    let taken = mailbox.poll();
    assert_eq!(taken, vec![(0, b"first".to_vec()), (1, b"second".to_vec()), (40, b"late".to_vec())]);
    assert!(mailbox.poll().is_empty());
    assert_eq!(mailbox.send(b"third").unwrap(), 0);
}

#[test]
fn steps_of_sending_and_polling() {
    assert_eq!(send_begin(), SendStep::Probe(0));
    assert_eq!(send_next(0, SlotState::Free), SendStep::Write(0));
    assert_eq!(send_next(0, SlotState::Occupied), SendStep::Probe(1));
    assert_eq!(send_next(12, SlotState::Unreadable), SendStep::Probe(13));
    assert_eq!(send_next(48, SlotState::Occupied), SendStep::Probe(49));
    assert_eq!(send_next(49, SlotState::Occupied), SendStep::Full);
    assert_eq!(send_next(49, SlotState::Free), SendStep::Write(49));
    assert_eq!(slot_state(&None), SlotState::Free);
    assert_eq!(slot_state(&Some(vec![])), SlotState::Free);
    assert_eq!(slot_state(&Some(vec![0])), SlotState::Occupied);
    assert_eq!(poll_step(&None, true), PollStep::Skip);
    assert_eq!(poll_step(&Some(vec![]), true), PollStep::Skip);
    assert_eq!(poll_step(&Some(vec![1]), true), PollStep::Take);
    assert_eq!(poll_step(&Some(vec![1]), false), PollStep::Leave);
}

#[test]
fn retries_back_off() {
    let delays: Vec<Option<u64>> = (0..10).map(retry_delay_secs).collect();
    assert_eq!(
        delays,
        vec![Some(1), Some(2), Some(4), Some(8), Some(16), Some(32), Some(64), Some(128), None, None]
    );
    assert_eq!(retry_delay_secs(u32::MAX), None);
}

#[test]
fn a_replayed_message_is_taken_in_once() {
    let mut seen = SeenMessages::new();
    assert!(seen.accept(MessageId(1)));
    assert!(!seen.accept(MessageId(1)));
    assert!(seen.accept(MessageId(2)));
    assert!(!seen.accept(MessageId(1)));
    assert_eq!(seen.count(), 2);
    assert!(seen.contains(MessageId(2)));
    assert!(!seen.contains(MessageId(3)));
}

#[test]
fn nothing_arrives_outside_the_mailbox() {
    let mut client = VeilidClient::new(VeilidConfig::for_testing("/tmp/node".to_string()));
    assert_eq!(client.receive_message().unwrap_err().kind(), ErrorKind::Network);
    client.start().unwrap();
    assert_eq!(client.receive_message().unwrap_err().kind(), ErrorKind::Network);
    client.attached().unwrap();
    assert_eq!(client.receive_message().unwrap(), None);
}

#[test]
fn a_quick_look_reads_ten_subkeys_and_stops_where_it_cannot_read() {
    assert_eq!(QUICK_LOOK_SLOTS, 10);
    assert_eq!(look_begin(), LookStep::Read(0));
    assert_eq!(look_next(0, true), LookStep::Read(1));
    assert_eq!(look_next(8, true), LookStep::Read(9));
    assert_eq!(look_next(9, true), LookStep::Stop);
    assert_eq!(look_next(3, false), LookStep::Stop);
    assert_eq!(look_next(u32::MAX, true), LookStep::Stop);
    let mut read = 0;
    let mut step = look_begin();
    while let LookStep::Read(subkey) = step {
        read += 1;
        step = look_next(subkey, true);
    }
    assert_eq!(read, 10);
}
