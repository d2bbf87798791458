use mijia_bridge::homie::{
    Datatype, HomieDevice, HomieError, LifecycleState, Node, Property, PublishMessage,
};

fn sensor_node(id: &str, name: &str) -> Node {
    Node::new(
        id.to_string(),
        name.to_string(),
        "Mijia sensor".to_string(),
        vec![
            Property::new("temperature", "Temperature", Datatype::Float, Some("\u{00ba}C")),
            Property::new("humidity", "Humidity", Datatype::Integer, Some("%")),
            Property::new("battery", "Battery level", Datatype::Integer, Some("%")),
        ],
    )
}

fn ready_device() -> HomieDevice {
    let mut homie = HomieDevice::new("homie/bridge", "Bridge");
    homie.start().unwrap();
    homie.ready().unwrap();
    homie
}

fn topics_and_payloads(msgs: &[PublishMessage]) -> Vec<(String, String)> {
    msgs.iter().map(|m| (m.topic.clone(), m.payload.clone())).collect()
}

#[test]
fn start_publishes_device_metadata() {
    let mut homie = HomieDevice::new("homie/bridge", "Bridge");
    let msgs = homie.start().unwrap();
    assert_eq!(
        topics_and_payloads(&msgs),
        vec![
            ("homie/bridge/$name".to_string(), "Bridge".to_string()),
            ("homie/bridge/$nodes".to_string(), "".to_string()),
            ("homie/bridge/$state".to_string(), "init".to_string()),
        ]
    );
    assert_eq!(homie.lifecycle_state(), LifecycleState::Init);
}

#[test]
fn ready_before_start_is_an_invalid_transition() {
    let mut homie = HomieDevice::new("homie/bridge", "Bridge");
    assert_eq!(homie.ready().unwrap_err(), HomieError::InvalidState);
    assert_eq!(homie.lifecycle_state(), LifecycleState::Init);
}

#[test]
fn lifecycle_only_moves_forward() {
    let mut homie = HomieDevice::new("homie/bridge", "Bridge");
    let _ = homie.start().unwrap();
    // A second start is refused.
    assert_eq!(homie.start().unwrap_err(), HomieError::InvalidState);
    let msgs = homie.ready().unwrap();
    assert_eq!(
        topics_and_payloads(&msgs),
        vec![("homie/bridge/$state".to_string(), "ready".to_string())]
    );
    assert_eq!(homie.lifecycle_state(), LifecycleState::Ready);
    // Neither start nor ready can run again once the device is live.
    assert_eq!(homie.start().unwrap_err(), HomieError::InvalidState);
    assert_eq!(homie.ready().unwrap_err(), HomieError::InvalidState);
    let msgs = homie.disconnect().unwrap();
    assert_eq!(
        topics_and_payloads(&msgs),
        vec![("homie/bridge/$state".to_string(), "disconnected".to_string())]
    );
    assert_eq!(homie.lifecycle_state(), LifecycleState::Disconnected);
    // Disconnected is terminal.
    assert_eq!(homie.start().unwrap_err(), HomieError::InvalidState);
    assert_eq!(homie.ready().unwrap_err(), HomieError::InvalidState);
    assert_eq!(homie.disconnect().unwrap_err(), HomieError::InvalidState);
}

#[test]
fn add_node_publishes_node_and_property_metadata() {
    let mut homie = ready_device();
    let msgs = homie.add_node(sensor_node("a4c138010203", "Kitchen")).unwrap();
    assert_eq!(
        topics_and_payloads(&msgs),
        vec![
            ("homie/bridge/a4c138010203/$name".to_string(), "Kitchen".to_string()),
            ("homie/bridge/a4c138010203/$type".to_string(), "Mijia sensor".to_string()),
            (
                "homie/bridge/a4c138010203/$properties".to_string(),
                "temperature,humidity,battery".to_string()
            ),
            (
                "homie/bridge/a4c138010203/temperature/$name".to_string(),
                "Temperature".to_string()
            ),
            (
                "homie/bridge/a4c138010203/temperature/$datatype".to_string(),
                "float".to_string()
            ),
            (
                "homie/bridge/a4c138010203/temperature/$unit".to_string(),
                "\u{00ba}C".to_string()
            ),
            ("homie/bridge/a4c138010203/temperature".to_string(), "".to_string()),
            ("homie/bridge/a4c138010203/humidity/$name".to_string(), "Humidity".to_string()),
            ("homie/bridge/a4c138010203/humidity/$datatype".to_string(), "integer".to_string()),
            ("homie/bridge/a4c138010203/humidity/$unit".to_string(), "%".to_string()),
            ("homie/bridge/a4c138010203/humidity".to_string(), "".to_string()),
            ("homie/bridge/a4c138010203/battery/$name".to_string(), "Battery level".to_string()),
            ("homie/bridge/a4c138010203/battery/$datatype".to_string(), "integer".to_string()),
            ("homie/bridge/a4c138010203/battery/$unit".to_string(), "%".to_string()),
            ("homie/bridge/a4c138010203/battery".to_string(), "".to_string()),
            ("homie/bridge/$nodes".to_string(), "a4c138010203".to_string()),
        ]
    );
    assert!(homie.contains_node("a4c138010203"));
    assert_eq!(homie.node_count(), 1);
}

#[test]
fn add_node_requires_a_live_device() {
    let mut homie = HomieDevice::new("homie/bridge", "Bridge");
    assert_eq!(
        homie.add_node(sensor_node("n1", "One")).unwrap_err(),
        HomieError::InvalidState
    );
}

#[test]
fn re_adding_a_node_replaces_it() {
    let mut homie = ready_device();
    homie.add_node(sensor_node("n1", "One")).unwrap();
    homie.add_node(sensor_node("n2", "Two")).unwrap();
    let msgs = homie.add_node(sensor_node("n1", "Renamed")).unwrap();
    assert_eq!(homie.node_count(), 2);
    // The advertised node list holds each id once, in stable order.
    let nodes_msg = msgs.last().unwrap();
    assert_eq!(nodes_msg.topic, "homie/bridge/$nodes");
    assert_eq!(nodes_msg.payload, "n1,n2");
    // And the replaced node's metadata was republished.
    assert_eq!(msgs[0].topic, "homie/bridge/n1/$name");
    assert_eq!(msgs[0].payload, "Renamed");
}

#[test]
fn remove_node_retracts_topics_and_updates_node_list() {
    let mut homie = ready_device();
    homie.add_node(sensor_node("n1", "One")).unwrap();
    homie.add_node(sensor_node("n2", "Two")).unwrap();
    let msgs = homie.remove_node("n1").unwrap();
    assert_eq!(homie.node_count(), 1);
    assert!(!homie.contains_node("n1"));
    assert!(homie.contains_node("n2"));
    // Every retraction carries an empty retained payload, and the final
    // message re-advertises the remaining node list.
    for m in &msgs[..msgs.len() - 1] {
        assert_eq!(m.payload, "");
        assert!(m.topic.starts_with("homie/bridge/n1"));
    }
    let nodes_msg = msgs.last().unwrap();
    assert_eq!(nodes_msg.topic, "homie/bridge/$nodes");
    assert_eq!(nodes_msg.payload, "n2");
}

#[test]
fn removing_an_absent_node_is_a_silent_no_op() {
    let mut homie = ready_device();
    homie.add_node(sensor_node("n1", "One")).unwrap();
    let msgs = homie.remove_node("never-added").unwrap();
    assert!(msgs.is_empty());
    assert_eq!(homie.node_count(), 1);
}

#[test]
fn publish_value_publishes_under_the_property_topic() {
    let mut homie = ready_device();
    homie.add_node(sensor_node("n1", "One")).unwrap();
    let msg = homie.publish_value("n1", "temperature", "21.50").unwrap();
    assert_eq!(msg.topic, "homie/bridge/n1/temperature");
    assert_eq!(msg.payload, "21.50");
}

#[test]
fn publish_value_for_unregistered_ids_fails_without_publishing() {
    let mut homie = ready_device();
    homie.add_node(sensor_node("n1", "One")).unwrap();
    assert_eq!(
        homie.publish_value("n2", "temperature", "1.00").unwrap_err(),
        HomieError::UnknownNodeOrProperty
    );
    assert_eq!(
        homie.publish_value("n1", "pressure", "1.00").unwrap_err(),
        HomieError::UnknownNodeOrProperty
    );
}
