//! The bridge's per-event decisions: turning transport events into
//! connection-manager updates and publisher operations, and turning
//! decoded readings into publish messages. The surrounding loop — BLE
//! scanning, the bounded event-draining window, and the reading channel
//! — performs I/O and lives outside this crate; it hands plain events
//! and readings in and carries publish messages out.

use vstd::prelude::*;
use vstd::string::*;

use crate::address::{
    lemma_node_id_injective, spec_address_chars, spec_node_id_chars, SensorAddress,
};
use crate::homie::{
    lemma_remove_node_has, lemma_upsert_node_has, spec_add_node_messages, spec_msg,
    spec_msgs_view, spec_props_view, spec_remove_node_messages, spec_sub_topic, spec_upsert_node,
    Datatype, HomieDevice, HomieError, LifecycleState, MessageView, Node, NodeView, Property,
    PropertyView, PublishMessage,
};
use crate::manager::SensorManager;
use crate::names::SensorNames;
use crate::readings::Readings;
use crate::text::{decimal_string, spec_decimal, spec_fixed_point};

verus! {

/// One event observed on the BLE transport, reduced to the address it
/// concerns.
#[derive(Clone, Copy, PartialEq, Eq, Structural, Debug)]
pub enum SensorEvent {
    Discovered(SensorAddress),
    Connected(SensorAddress),
    Disconnected(SensorAddress),
    Updated(SensorAddress),
}

/// The fixed property list every sensor node advertises: temperature,
/// humidity, and battery level.
pub open spec fn spec_sensor_properties() -> Seq<PropertyView> {
    seq![
        (PropertyView {
            id: "temperature"@,
            name: "Temperature"@,
            datatype: Datatype::Float,
            unit: Some("\u{00ba}C"@),
        }),
        (PropertyView {
            id: "humidity"@,
            name: "Humidity"@,
            datatype: Datatype::Integer,
            unit: Some("%"@),
        }),
        (PropertyView {
            id: "battery"@,
            name: "Battery level"@,
            datatype: Datatype::Integer,
            unit: Some("%"@),
        }),
    ]
}

/// The fixed property list, as values.
pub fn sensor_properties() -> (r: Vec<Property>)
    ensures
        spec_props_view(r@) == spec_sensor_properties(),
{
    let mut v: Vec<Property> = Vec::new();
    v.push(Property::new("temperature", "Temperature", Datatype::Float, Some("\u{00ba}C")));
    v.push(Property::new("humidity", "Humidity", Datatype::Integer, Some("%")));
    v.push(Property::new("battery", "Battery level", Datatype::Integer, Some("%")));
    proof {
        assert(spec_props_view(v@) =~~= spec_sensor_properties());
    }
    v
}

/// The display name used for a sensor: its configured name when it has
/// one, else the string form of its address.
pub open spec fn spec_sensor_name(
    names: Map<SensorAddress, Seq<char>>,
    addr: SensorAddress,
) -> Seq<char> {
    if names.contains_key(addr) {
        names[addr]
    } else {
        spec_address_chars(addr)
    }
}

/// The node id and display name used for a sensor: the id is the
/// address with its separators stripped, the name falls back to the
/// address string form when the sensor has no configured name.
pub fn node_id_name_for_sensor(addr: &SensorAddress, sensor_names: &SensorNames) -> (r: (
    String,
    String,
))
    requires
        sensor_names.wf(),
    ensures
        r.0@ == spec_node_id_chars(*addr),
        r.1@ == spec_sensor_name(sensor_names@, *addr),
{
    let node_id = addr.to_node_id_string();
    let node_name = match sensor_names.get(addr) {
        Some(name) => name.clone(),
        None => addr.to_address_string(),
    };
    (node_id, node_name)
}

/// The node a sensor publishes as.
pub open spec fn spec_node_for_sensor(
    names: Map<SensorAddress, Seq<char>>,
    addr: SensorAddress,
) -> NodeView {
    NodeView {
        id: spec_node_id_chars(addr),
        name: spec_sensor_name(names, addr),
        device_type: "Mijia sensor"@,
        properties: spec_sensor_properties(),
    }
}

/// Builds the node registered for a sensor when it connects.
pub fn node_for_sensor(addr: &SensorAddress, sensor_names: &SensorNames) -> (r: Node)
    requires
        sensor_names.wf(),
    ensures
        r@ == spec_node_for_sensor(sensor_names@, *addr),
{
    let (node_id, node_name) = node_id_name_for_sensor(addr, sensor_names);
    let r = Node::new(
        node_id,
        node_name,
        String::from_str("Mijia sensor"),
        sensor_properties(),
    );
    proof {
        assert(r@ =~~= spec_node_for_sensor(sensor_names@, *addr));
    }
    r
}

/// The three value messages published for one reading of a sensor with
/// node id `nid` under base topic `base`.
pub open spec fn spec_reading_messages(
    base: Seq<char>,
    nid: Seq<char>,
    r: Readings,
) -> Seq<MessageView> {
    seq![
        spec_msg(
            spec_sub_topic(spec_sub_topic(base, nid), "temperature"@),
            spec_fixed_point(r.temperature_centi as int),
        ),
        spec_msg(
            spec_sub_topic(spec_sub_topic(base, nid), "humidity"@),
            spec_decimal(r.humidity as int),
        ),
        spec_msg(
            spec_sub_topic(spec_sub_topic(base, nid), "battery"@),
            spec_decimal(r.battery_percent as int),
        ),
    ]
}

/// Whether the publisher knows all three reading properties of the node
/// with id `nid`.
pub open spec fn spec_has_reading_properties(homie: HomieDevice, nid: Seq<char>) -> bool {
    &&& homie.has_property(nid, "temperature"@)
    &&& homie.has_property(nid, "humidity"@)
    &&& homie.has_property(nid, "battery"@)
}

/// The pairing invariant between the connection manager and the
/// publisher: an address is connected exactly when the publisher holds
/// a node registered under that address's node id. An address is
/// connected (subscribed) if and only if its node is registered.
pub open spec fn spec_bridge_inv(mgr: SensorManager, homie: HomieDevice) -> bool {
    forall|a: SensorAddress|
        (#[trigger] mgr.is_connected(a)) == homie.has_node(spec_node_id_chars(a))
}

/// A fresh manager (nothing connected) and a device with no registered
/// nodes satisfy the pairing invariant.
pub proof fn lemma_bridge_inv_empty(mgr: SensorManager, homie: HomieDevice)
    requires
        forall|a: SensorAddress| !mgr.is_connected(a),
        homie.nodes().len() == 0,
    ensures
        spec_bridge_inv(mgr, homie),
{
}

/// Turns one decoded reading into the three value messages for the
/// sensor's node. Fails with `UnknownNodeOrProperty` — and publishes
/// nothing — when the sensor's node is not registered with its reading
/// properties, and with `InvalidState` when the device is not live.
pub fn report_readings(
    homie: &HomieDevice,
    addr: &SensorAddress,
    readings: &Readings,
) -> (r: Result<Vec<PublishMessage>, HomieError>)
    requires
        homie.wf(),
    ensures
        homie.state() != LifecycleState::Ready ==> r == Err::<
            Vec<PublishMessage>,
            HomieError,
        >(HomieError::InvalidState),
        homie.state() == LifecycleState::Ready ==> {
            &&& (r is Ok <==> spec_has_reading_properties(*homie, spec_node_id_chars(*addr)))
            &&& (r matches Ok(msgs) ==> spec_msgs_view(msgs@) == spec_reading_messages(
                homie.base(),
                spec_node_id_chars(*addr),
                *readings,
            ))
            &&& (r is Err ==> r == Err::<Vec<PublishMessage>, HomieError>(
                HomieError::UnknownNodeOrProperty,
            ))
        },
{
    let node_id = addr.to_node_id_string();
    let mut msgs: Vec<PublishMessage> = Vec::new();
    let temperature = readings.temperature_string();
    match homie.publish_value(node_id.as_str(), "temperature", temperature.as_str()) {
        Ok(m) => {
            msgs.push(m);
        },
        Err(e) => {
            return Err(e);
        },
    }
    let humidity = decimal_string(readings.humidity as u32);
    match homie.publish_value(node_id.as_str(), "humidity", humidity.as_str()) {
        Ok(m) => {
            msgs.push(m);
        },
        Err(e) => {
            return Err(e);
        },
    }
    let battery = decimal_string(readings.battery_percent as u32);
    match homie.publish_value(node_id.as_str(), "battery", battery.as_str()) {
        Ok(m) => {
            msgs.push(m);
        },
        Err(e) => {
            return Err(e);
        },
    }
    proof {
        assert(spec_msgs_view(msgs@) =~~= spec_reading_messages(
            homie.base(),
            spec_node_id_chars(*addr),
            *readings,
        ));
    }
    Ok(msgs)
}

/// Handles one transport event between connection attempts.
///
/// A discovery event for a known, unqueued, unconnected address
/// enqueues it. A disconnect event for a connected address removes the
/// sensor's node from the publisher and requeues the address at the
/// back; for any other address it is ignored. Connected and updated
/// events change nothing here. The returned messages must be handed to
/// the broker in order; an error from the publisher is fatal to the
/// bridge and leaves the manager untouched.
pub fn handle_event(
    mgr: &mut SensorManager,
    homie: &mut HomieDevice,
    sensor_names: &SensorNames,
    event: SensorEvent,
) -> (r: Result<Vec<PublishMessage>, HomieError>)
    requires
        old(mgr).wf(),
        old(homie).wf(),
        sensor_names.wf(),
        old(mgr).connecting() is None,
    ensures
        final(mgr).wf(),
        final(homie).wf(),
        final(mgr).connecting() is None,
        spec_bridge_inv(*old(mgr), *old(homie)) ==> spec_bridge_inv(*final(mgr), *final(homie)),
        event matches SensorEvent::Discovered(a) ==> {
            &&& r matches Ok(msgs) && msgs@.len() == 0
            &&& *final(homie) == *old(homie)
            &&& (old(mgr).should_enqueue(a, sensor_names@.contains_key(a)) ==> final(mgr).queue()
                == old(mgr).queue().push(a))
            &&& (!old(mgr).should_enqueue(a, sensor_names@.contains_key(a)) ==> *final(mgr)
                == *old(mgr))
            &&& forall|x: SensorAddress| final(mgr).is_connected(x) == old(mgr).is_connected(x)
        },
        event matches SensorEvent::Connected(_) ==> (r matches Ok(msgs) && msgs@.len() == 0
            && *final(mgr) == *old(mgr) && *final(homie) == *old(homie)),
        event matches SensorEvent::Updated(_) ==> (r matches Ok(msgs) && msgs@.len() == 0
            && *final(mgr) == *old(mgr) && *final(homie) == *old(homie)),
        event matches SensorEvent::Disconnected(a) ==> {
            &&& (!old(mgr).is_connected(a) ==> (r matches Ok(msgs) && msgs@.len() == 0
                && *final(mgr) == *old(mgr) && *final(homie) == *old(homie)))
            &&& (old(mgr).is_connected(a) && old(homie).state() != LifecycleState::Ready ==> r
                == Err::<Vec<PublishMessage>, HomieError>(HomieError::InvalidState) && *final(mgr)
                == *old(mgr) && *final(homie) == *old(homie))
            &&& (old(mgr).is_connected(a) && old(homie).state() == LifecycleState::Ready ==> {
                &&& r is Ok
                &&& final(mgr).queue() == old(mgr).queue().push(a)
                &&& (forall|x: SensorAddress|
                    final(mgr).is_connected(x) <==> (old(mgr).is_connected(x) && x != a))
                &&& (old(homie).has_node(spec_node_id_chars(a)) ==> {
                    &&& final(homie).nodes() == old(homie).nodes().remove(
                        old(homie).node_index(spec_node_id_chars(a)),
                    )
                    &&& r matches Ok(msgs) && spec_msgs_view(msgs@) == spec_remove_node_messages(
                        old(homie).base(),
                        old(homie).node_with_id(spec_node_id_chars(a)),
                        old(homie).nodes().remove(old(homie).node_index(spec_node_id_chars(a))),
                    )
                })
                &&& (!old(homie).has_node(spec_node_id_chars(a)) ==> *final(homie) == *old(homie)
                    && (r matches Ok(msgs) && msgs@.len() == 0))
            })
        },
{
    match event {
        SensorEvent::Discovered(a) => {
            let known = sensor_names.contains(&a);
            mgr.handle_discovery(a, known);
            proof {
                if spec_bridge_inv(*old(mgr), *old(homie)) {
                    assert forall|x: SensorAddress| (#[trigger] mgr.is_connected(x))
                        == homie.has_node(spec_node_id_chars(x)) by {
                        assert(old(mgr).is_connected(x) == old(homie).has_node(
                            spec_node_id_chars(x),
                        ));
                    }
                }
            }
            Ok(Vec::new())
        },
        SensorEvent::Disconnected(a) => {
            if !mgr.connected_contains(&a) {
                return Ok(Vec::new());
            }
            let node_id = a.to_node_id_string();
            let msgs = match homie.remove_node(node_id.as_str()) {
                Ok(msgs) => msgs,
                Err(e) => {
                    return Err(e);
                },
            };
            mgr.handle_disconnect(a);
            proof {
                if spec_bridge_inv(*old(mgr), *old(homie)) {
                    assert(old(homie).has_node(spec_node_id_chars(a))) by {
                        assert(old(mgr).is_connected(a) == old(homie).has_node(
                            spec_node_id_chars(a),
                        ));
                    }
                    let idx = old(homie).node_index(spec_node_id_chars(a));
                    assert(old(homie).nodes()[idx].id == spec_node_id_chars(a));
                    assert forall|x: SensorAddress| (#[trigger] mgr.is_connected(x))
                        == homie.has_node(spec_node_id_chars(x)) by {
                        assert(old(mgr).is_connected(x) == old(homie).has_node(
                            spec_node_id_chars(x),
                        ));
                        lemma_remove_node_has(old(homie).nodes(), idx, spec_node_id_chars(x));
                        if spec_node_id_chars(x) == spec_node_id_chars(a) {
                            lemma_node_id_injective(x, a);
                        }
                    }
                }
            }
            Ok(msgs)
        },
        SensorEvent::Connected(_) => Ok(Vec::new()),
        SensorEvent::Updated(_) => Ok(Vec::new()),
    }
}

/// Finishes the one in-flight connection attempt, given whether the
/// transport's connect-and-subscribe succeeded.
///
/// On success the sensor's node is registered with the publisher and
/// the address joins the connected set; the returned messages advertise
/// the node. On failure — of the transport, or of the publisher when it
/// is not live — the address is requeued at the back and nothing is
/// published: a per-sensor failure is never fatal and never discards
/// the address.
pub fn finish_connect(
    mgr: &mut SensorManager,
    homie: &mut HomieDevice,
    sensor_names: &SensorNames,
    success: bool,
) -> (r: Vec<PublishMessage>)
    requires
        old(mgr).wf(),
        old(homie).wf(),
        sensor_names.wf(),
        old(mgr).connecting() is Some,
    ensures
        final(mgr).wf(),
        final(homie).wf(),
        final(mgr).connecting() is None,
        spec_bridge_inv(*old(mgr), *old(homie)) ==> spec_bridge_inv(*final(mgr), *final(homie)),
        success && old(homie).state() == LifecycleState::Ready ==> {
            &&& final(mgr).queue() == old(mgr).queue()
            &&& (forall|x: SensorAddress|
                final(mgr).is_connected(x) <==> (old(mgr).is_connected(x) || Some(x) == old(
                    mgr,
                ).connecting()))
            &&& final(homie).nodes() == spec_upsert_node(
                old(homie).nodes(),
                spec_node_for_sensor(sensor_names@, old(mgr).connecting()->Some_0),
            )
            &&& spec_msgs_view(r@) == spec_add_node_messages(
                old(homie).base(),
                spec_node_for_sensor(sensor_names@, old(mgr).connecting()->Some_0),
                spec_upsert_node(
                    old(homie).nodes(),
                    spec_node_for_sensor(sensor_names@, old(mgr).connecting()->Some_0),
                ),
            )
        },
        !(success && old(homie).state() == LifecycleState::Ready) ==> {
            &&& final(mgr).queue() == old(mgr).queue().push(old(mgr).connecting()->Some_0)
            &&& (forall|x: SensorAddress|
                final(mgr).is_connected(x) == old(mgr).is_connected(x))
            &&& *final(homie) == *old(homie)
            &&& r@.len() == 0
        },
{
    if !success {
        mgr.connect_failed();
        return Vec::new();
    }
    let addr = match mgr.current_attempt() {
        Some(a) => a,
        None => {
            proof {
                assert(false);
            }
            SensorAddress::new(0, 0, 0, 0, 0, 0)
        },
    };
    let node = node_for_sensor(&addr, sensor_names);
    match homie.add_node(node) {
        Ok(msgs) => {
            mgr.connect_succeeded();
            proof {
                if spec_bridge_inv(*old(mgr), *old(homie)) {
                    let ghost nv = spec_node_for_sensor(sensor_names@, addr);
                    assert forall|x: SensorAddress| (#[trigger] mgr.is_connected(x))
                        == homie.has_node(spec_node_id_chars(x)) by {
                        assert(old(mgr).is_connected(x) == old(homie).has_node(
                            spec_node_id_chars(x),
                        ));
                        lemma_upsert_node_has(old(homie).nodes(), nv, spec_node_id_chars(x));
                        if spec_node_id_chars(x) == spec_node_id_chars(addr) {
                            lemma_node_id_injective(x, addr);
                        }
                    }
                }
            }
            msgs
        },
        Err(_) => {
            mgr.connect_failed();
            Vec::new()
        },
    }
}

} // verus!
