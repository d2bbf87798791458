use mijia_bridge::address::SensorAddress;
use mijia_bridge::bridge::{
    finish_connect, handle_event, node_id_name_for_sensor, report_readings, SensorEvent,
};
use mijia_bridge::homie::{HomieDevice, HomieError};
use mijia_bridge::manager::SensorManager;
use mijia_bridge::names::SensorNames;
use mijia_bridge::readings::decode_value;

fn addr(last: u8) -> SensorAddress {
    SensorAddress::new(0xA4, 0xC1, 0x38, 0x01, 0x02, last)
}

fn named(addresses: &[SensorAddress]) -> SensorNames {
    let mut names = SensorNames::new();
    for (k, a) in addresses.iter().enumerate() {
        names.insert(*a, format!("Sensor {}", k));
    }
    names
}

fn ready_device() -> HomieDevice {
    let mut homie = HomieDevice::new("homie/bridge", "Bridge");
    homie.start().unwrap();
    homie.ready().unwrap();
    homie
}

#[test]
fn discovery_enqueues_only_known_unseen_addresses() {
    let names = named(&[addr(1)]);
    let mut mgr = SensorManager::new();
    let mut homie = ready_device();

    // Unknown address: ignored.
    handle_event(&mut mgr, &mut homie, &names, SensorEvent::Discovered(addr(9))).unwrap();
    assert_eq!(mgr.queue_len(), 0);

    // Known address: enqueued once, duplicates suppressed.
    handle_event(&mut mgr, &mut homie, &names, SensorEvent::Discovered(addr(1))).unwrap();
    handle_event(&mut mgr, &mut homie, &names, SensorEvent::Discovered(addr(1))).unwrap();
    assert_eq!(mgr.queue_len(), 1);
}

#[test]
fn an_address_is_never_queued_and_connected_at_once() {
    let names = named(&[addr(1)]);
    let mut mgr = SensorManager::new();
    let mut homie = ready_device();

    handle_event(&mut mgr, &mut homie, &names, SensorEvent::Discovered(addr(1))).unwrap();
    assert_eq!(mgr.begin_connect(), Some(addr(1)));
    finish_connect(&mut mgr, &mut homie, &names, true);
    assert!(mgr.connected_contains(&addr(1)));
    assert_eq!(mgr.queue_len(), 0);

    // A further discovery of the connected address must not requeue it.
    handle_event(&mut mgr, &mut homie, &names, SensorEvent::Discovered(addr(1))).unwrap();
    assert_eq!(mgr.queue_len(), 0);
    assert!(mgr.connected_contains(&addr(1)));
}

#[test]
fn failed_connect_requeues_at_the_back() {
    let names = named(&[addr(1), addr(2), addr(3)]);
    let mut mgr = SensorManager::new();
    let mut homie = ready_device();

    for a in [addr(1), addr(2), addr(3)] {
        handle_event(&mut mgr, &mut homie, &names, SensorEvent::Discovered(a)).unwrap();
    }
    // The attempt on addr(1) fails: it goes to the back, behind the
    // other queued addresses, and is not discarded.
    assert_eq!(mgr.begin_connect(), Some(addr(1)));
    let msgs = finish_connect(&mut mgr, &mut homie, &names, false);
    assert!(msgs.is_empty());
    assert_eq!(mgr.queue_len(), 3);
    assert_eq!(mgr.begin_connect(), Some(addr(2)));
    finish_connect(&mut mgr, &mut homie, &names, true);
    assert_eq!(mgr.begin_connect(), Some(addr(3)));
    finish_connect(&mut mgr, &mut homie, &names, true);
    assert_eq!(mgr.begin_connect(), Some(addr(1)));
    finish_connect(&mut mgr, &mut homie, &names, true);
    assert_eq!(mgr.begin_connect(), None);
}

#[test]
fn node_id_and_name_for_sensor() {
    let a = addr(0x42);
    let mut names = SensorNames::new();
    names.insert(a, "Kitchen".to_string());
    let (id, name) = node_id_name_for_sensor(&a, &names);
    assert_eq!(id, "A4C138010242");
    assert_eq!(name, "Kitchen");
    // An unnamed sensor falls back to the address string form.
    let (id, name) = node_id_name_for_sensor(&addr(0x43), &names);
    assert_eq!(id, "A4C138010243");
    assert_eq!(name, "A4:C1:38:01:02:43");
}

#[test]
fn report_readings_publishes_three_values() {
    let a = addr(1);
    let names = named(&[a]);
    let mut mgr = SensorManager::new();
    let mut homie = ready_device();
    handle_event(&mut mgr, &mut homie, &names, SensorEvent::Discovered(a)).unwrap();
    mgr.begin_connect().unwrap();
    finish_connect(&mut mgr, &mut homie, &names, true);

    let readings = decode_value(&[0xE8, 0x00, 0x38, 0x0C, 0x0C]).unwrap();
    let msgs = report_readings(&homie, &a, &readings).unwrap();
    let got: Vec<(String, String)> =
        msgs.iter().map(|m| (m.topic.clone(), m.payload.clone())).collect();
    assert_eq!(
        got,
        vec![
            ("homie/bridge/A4C138010201/temperature".to_string(), "2.32".to_string()),
            ("homie/bridge/A4C138010201/humidity".to_string(), "56".to_string()),
            ("homie/bridge/A4C138010201/battery".to_string(), "98".to_string()),
        ]
    );
}

#[test]
fn report_readings_for_unregistered_sensor_fails() {
    let homie = ready_device();
    let readings = decode_value(&[0xE8, 0x00, 0x38, 0x0C, 0x0C]).unwrap();
    assert_eq!(
        report_readings(&homie, &addr(7), &readings).unwrap_err(),
        HomieError::UnknownNodeOrProperty
    );
}

#[test]
fn end_to_end_discovery_connect_disconnect() {
    let a = addr(1);
    let names = named(&[a]);
    let mut mgr = SensorManager::new();
    let mut homie = ready_device();

    // A discovery event for a named, unqueued, unconnected address
    // enqueues it.
    handle_event(&mut mgr, &mut homie, &names, SensorEvent::Discovered(a)).unwrap();
    assert_eq!(mgr.queue_len(), 1);
    assert!(!mgr.connected_contains(&a));

    // The next loop iteration dequeues it and, with the transport's
    // connect succeeding, registers its node and moves it to the
    // connected set; the queue empties.
    assert_eq!(mgr.begin_connect(), Some(a));
    let msgs = finish_connect(&mut mgr, &mut homie, &names, true);
    assert!(!msgs.is_empty());
    assert!(homie.contains_node("A4C138010201"));
    assert!(mgr.connected_contains(&a));
    assert_eq!(mgr.queue_len(), 0);

    // A subsequent disconnect event removes its node and re-enqueues it.
    let msgs =
        handle_event(&mut mgr, &mut homie, &names, SensorEvent::Disconnected(a)).unwrap();
    assert!(!msgs.is_empty());
    assert!(!homie.contains_node("A4C138010201"));
    assert!(!mgr.connected_contains(&a));
    assert_eq!(mgr.queue_len(), 1);

    // Other event kinds change nothing.
    handle_event(&mut mgr, &mut homie, &names, SensorEvent::Connected(a)).unwrap();
    handle_event(&mut mgr, &mut homie, &names, SensorEvent::Updated(a)).unwrap();
    assert_eq!(mgr.queue_len(), 1);
}

#[test]
fn disconnect_for_unconnected_address_changes_nothing() {
    let names = named(&[addr(1)]);
    let mut mgr = SensorManager::new();
    let mut homie = ready_device();
    let msgs =
        handle_event(&mut mgr, &mut homie, &names, SensorEvent::Disconnected(addr(1))).unwrap();
    assert!(msgs.is_empty());
    assert_eq!(mgr.queue_len(), 0);
}
