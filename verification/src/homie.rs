//! The device lifecycle publisher: a topic-based device model with an
//! explicit state machine (`Init -> Ready -> Disconnected`), a node per
//! connected sensor, and a fixed property list per node.
//!
//! The publisher itself performs no I/O: every operation returns the
//! publish messages it requires, in the order they must be handed to the
//! broker (the broker session preserves per-connection publish
//! ordering). All messages are retained; a topic is retracted by
//! publishing an empty retained payload to it.

use vstd::prelude::*;
use vstd::string::*;

use crate::text::str_eq;

verus! {

/// The datatype a property advertises for its values.
#[derive(Clone, Copy, PartialEq, Eq, Structural, Debug)]
pub enum Datatype {
    Float,
    Integer,
    String,
    Boolean,
    Enum,
}

/// The payload a property's datatype is advertised with.
pub open spec fn spec_datatype_payload(d: Datatype) -> Seq<char> {
    match d {
        Datatype::Float => "float"@,
        Datatype::Integer => "integer"@,
        Datatype::String => "string"@,
        Datatype::Boolean => "boolean"@,
        Datatype::Enum => "enum"@,
    }
}

fn datatype_payload(d: Datatype) -> (r: &'static str)
    ensures
        r@ == spec_datatype_payload(d),
{
    match d {
        Datatype::Float => "float",
        Datatype::Integer => "integer",
        Datatype::String => "string",
        Datatype::Boolean => "boolean",
        Datatype::Enum => "enum",
    }
}

/// One advertised property of a node: static per sensor type, never
/// mutated after the node is created.
#[derive(Debug)]
pub struct Property {
    pub id: String,
    pub name: String,
    pub datatype: Datatype,
    pub unit: Option<String>,
}

/// The mathematical shape of a property.
#[verifier::ext_equal]
pub struct PropertyView {
    pub id: Seq<char>,
    pub name: Seq<char>,
    pub datatype: Datatype,
    pub unit: Option<Seq<char>>,
}

impl View for Property {
    type V = PropertyView;

    open spec fn view(&self) -> PropertyView {
        PropertyView {
            id: self.id@,
            name: self.name@,
            datatype: self.datatype,
            unit: match self.unit {
                Some(u) => Some(u@),
                None => None,
            },
        }
    }
}

impl Property {
    pub fn new(id: &str, name: &str, datatype: Datatype, unit: Option<&str>) -> (r: Property)
        ensures
            r@.id == id@,
            r@.name == name@,
            r@.datatype == datatype,
            r@.unit == (match unit {
                Some(s) => Some(s@),
                None => None::<Seq<char>>,
            }),
    {
        Property {
            id: String::from_str(id),
            name: String::from_str(name),
            datatype,
            unit: match unit {
                Some(u) => Some(String::from_str(u)),
                None => None,
            },
        }
    }
}

/// One connected sensor's published surface: an id, a display name, a
/// device-type string, and an ordered list of properties.
#[derive(Debug)]
pub struct Node {
    pub id: String,
    pub name: String,
    pub device_type: String,
    pub properties: Vec<Property>,
}

/// The mathematical shape of a node.
#[verifier::ext_equal]
pub struct NodeView {
    pub id: Seq<char>,
    pub name: Seq<char>,
    pub device_type: Seq<char>,
    pub properties: Seq<PropertyView>,
}

impl View for Node {
    type V = NodeView;

    open spec fn view(&self) -> NodeView {
        NodeView {
            id: self.id@,
            name: self.name@,
            device_type: self.device_type@,
            properties: spec_props_view(self.properties@),
        }
    }
}

impl Node {
    pub fn new(id: String, name: String, device_type: String, properties: Vec<Property>) -> (r:
        Node)
        ensures
            r@.id == id@,
            r@.name == name@,
            r@.device_type == device_type@,
            r@.properties.len() == properties@.len(),
            forall|i: int| 0 <= i < properties@.len() ==> r@.properties[i] == properties@[i]@,
    {
        Node { id, name, device_type, properties }
    }
}

/// One retained message for the broker: a topic and its payload.
#[derive(Debug)]
pub struct PublishMessage {
    pub topic: String,
    pub payload: String,
}

/// The mathematical shape of a publish message.
#[verifier::ext_equal]
pub struct MessageView {
    pub topic: Seq<char>,
    pub payload: Seq<char>,
}

impl View for PublishMessage {
    type V = MessageView;

    open spec fn view(&self) -> MessageView {
        MessageView { topic: self.topic@, payload: self.payload@ }
    }
}

/// A message value in specifications.
pub open spec fn spec_msg(topic: Seq<char>, payload: Seq<char>) -> MessageView {
    MessageView { topic, payload }
}

/// The views of a sequence of messages.
pub open spec fn spec_msgs_view(s: Seq<PublishMessage>) -> Seq<MessageView> {
    Seq::new(s.len(), |i: int| s[i]@)
}

/// The views of a sequence of nodes.
pub open spec fn spec_nodes_view(s: Seq<Node>) -> Seq<NodeView> {
    Seq::new(s.len(), |i: int| s[i]@)
}

/// The views of a sequence of properties.
pub open spec fn spec_props_view(s: Seq<Property>) -> Seq<PropertyView> {
    Seq::new(s.len(), |i: int| s[i]@)
}

/// `<parent>/<child>`.
pub open spec fn spec_sub_topic(parent: Seq<char>, child: Seq<char>) -> Seq<char> {
    parent + "/"@ + child
}

/// The ids of a sequence of nodes, in order.
pub open spec fn spec_node_ids(nodes: Seq<NodeView>) -> Seq<Seq<char>> {
    nodes.map_values(|n: NodeView| n.id)
}

/// The ids of a sequence of properties, in order.
pub open spec fn spec_property_ids(props: Seq<PropertyView>) -> Seq<Seq<char>> {
    props.map_values(|p: PropertyView| p.id)
}

/// The comma-joined form of a list of ids, as advertised in the device's
/// node list and each node's property list.
pub open spec fn spec_comma_join(ids: Seq<Seq<char>>) -> Seq<char>
    decreases ids.len(),
{
    if ids.len() == 0 {
        Seq::empty()
    } else if ids.len() == 1 {
        ids[0]
    } else {
        spec_comma_join(ids.drop_last()) + ","@ + ids.last()
    }
}

/// The lifecycle state of the device, advertised on its `$state` topic.
/// It only ever moves forward, in the order given here.
#[derive(Clone, Copy, PartialEq, Eq, Structural, Debug)]
pub enum LifecycleState {
    Init,
    Ready,
    Disconnected,
}

/// The position of a lifecycle state in the forward order
/// `Init -> Ready -> Disconnected`.
pub open spec fn spec_lifecycle_rank(s: LifecycleState) -> int {
    match s {
        LifecycleState::Init => 0,
        LifecycleState::Ready => 1,
        LifecycleState::Disconnected => 2,
    }
}

/// Why a publisher operation was refused. No messages are published
/// when an operation fails.
#[derive(Clone, Copy, PartialEq, Eq, Structural, Debug)]
pub enum HomieError {
    /// The operation is not valid in the device's current lifecycle
    /// state (for example `ready` before `start`).
    InvalidState,
    /// `publish_value` named a node or property id that was never
    /// registered.
    UnknownNodeOrProperty,
}

/// `<parent>/<child>` as an owned string.
fn sub_topic(parent: &str, child: &str) -> (r: String)
    ensures
        r@ == spec_sub_topic(parent@, child@),
{
    let mut s = String::from_str(parent);
    s.append("/");
    s.append(child);
    proof {
        assert(s@ =~= spec_sub_topic(parent@, child@));
    }
    s
}

fn make_msg(topic: String, payload: String) -> (r: PublishMessage)
    ensures
        r@ == spec_msg(topic@, payload@),
{
    PublishMessage { topic, payload }
}

/// The messages `start` publishes: the static device metadata and the
/// `init` state.
pub open spec fn spec_start_messages(base: Seq<char>, device_name: Seq<char>) -> Seq<MessageView> {
    seq![
        spec_msg(spec_sub_topic(base, "$name"@), device_name),
        spec_msg(spec_sub_topic(base, "$nodes"@), ""@),
        spec_msg(spec_sub_topic(base, "$state"@), "init"@),
    ]
}

/// The single message announcing a lifecycle state on `$state`.
pub open spec fn spec_state_message(base: Seq<char>, payload: Seq<char>) -> Seq<MessageView> {
    seq![spec_msg(spec_sub_topic(base, "$state"@), payload)]
}

/// The node list with `n` added: a node with the same id is replaced in
/// place (never duplicated); a new id is appended.
pub open spec fn spec_upsert_node(nodes: Seq<NodeView>, n: NodeView) -> Seq<NodeView> {
    if exists|i: int| 0 <= i < nodes.len() && (#[trigger] nodes[i]).id == n.id {
        nodes.update(choose|i: int| 0 <= i < nodes.len() && (#[trigger] nodes[i]).id == n.id, n)
    } else {
        nodes.push(n)
    }
}

/// The metadata messages introducing a node: its name, its device-type
/// string, and its comma-joined property list.
pub open spec fn spec_node_intro_messages(base: Seq<char>, n: NodeView) -> Seq<MessageView> {
    let nb = spec_sub_topic(base, n.id);
    seq![
        spec_msg(spec_sub_topic(nb, "$name"@), n.name),
        spec_msg(spec_sub_topic(nb, "$type"@), n.device_type),
        spec_msg(
            spec_sub_topic(nb, "$properties"@),
            spec_comma_join(spec_property_ids(n.properties)),
        ),
    ]
}

/// The messages advertising one property: its metadata and a retained
/// empty placeholder on its value topic.
pub open spec fn spec_property_messages(node_base: Seq<char>, p: PropertyView) -> Seq<MessageView> {
    let pt = spec_sub_topic(node_base, p.id);
    seq![
        spec_msg(spec_sub_topic(pt, "$name"@), p.name),
        spec_msg(spec_sub_topic(pt, "$datatype"@), spec_datatype_payload(p.datatype)),
    ] + (match p.unit {
        Some(u) => seq![spec_msg(spec_sub_topic(pt, "$unit"@), u)],
        None => Seq::<MessageView>::empty(),
    }) + seq![spec_msg(pt, ""@)]
}

/// The property messages of a node's property list, in order.
pub open spec fn spec_properties_messages(node_base: Seq<char>, props: Seq<PropertyView>) -> Seq<
    MessageView,
>
    decreases props.len(),
{
    if props.len() == 0 {
        Seq::empty()
    } else {
        spec_properties_messages(node_base, props.drop_last()) + spec_property_messages(
            node_base,
            props.last(),
        )
    }
}

/// Whether the node list holds a node with this id.
pub open spec fn spec_has_node_id(nodes: Seq<NodeView>, id: Seq<char>) -> bool {
    exists|i: int| 0 <= i < nodes.len() && (#[trigger] nodes[i]).id == id
}

/// Whether the ids in a node list are pairwise distinct.
pub open spec fn spec_node_ids_unique(nodes: Seq<NodeView>) -> bool {
    forall|i: int, j: int| 0 <= i < j < nodes.len() ==> nodes[i].id != nodes[j].id
}

/// What adding a node does to membership by id.
pub proof fn lemma_upsert_node_has(nodes: Seq<NodeView>, n: NodeView, id: Seq<char>)
    requires
        spec_node_ids_unique(nodes),
    ensures
        spec_has_node_id(spec_upsert_node(nodes, n), id) <==> (spec_has_node_id(nodes, id) || id
            == n.id),
{
    let t = spec_upsert_node(nodes, n);
    if exists|i: int| 0 <= i < nodes.len() && (#[trigger] nodes[i]).id == n.id {
        let k = choose|i: int| 0 <= i < nodes.len() && (#[trigger] nodes[i]).id == n.id;
        assert(t == nodes.update(k, n));
        if spec_has_node_id(t, id) {
            let j = choose|j: int| 0 <= j < t.len() && (#[trigger] t[j]).id == id;
            if j != k {
                assert(nodes[j].id == id);
            }
        }
        if spec_has_node_id(nodes, id) {
            let j = choose|j: int| 0 <= j < nodes.len() && (#[trigger] nodes[j]).id == id;
            if j == k {
                assert(t[k].id == n.id);
                assert(nodes[k].id == id);
            } else {
                assert(t[j].id == id);
            }
        }
        if id == n.id {
            assert(t[k].id == id);
        }
    } else {
        assert(t == nodes.push(n));
        if spec_has_node_id(t, id) {
            let j = choose|j: int| 0 <= j < t.len() && (#[trigger] t[j]).id == id;
            if j < nodes.len() {
                assert(nodes[j].id == id);
            }
        }
        if spec_has_node_id(nodes, id) {
            let j = choose|j: int| 0 <= j < nodes.len() && (#[trigger] nodes[j]).id == id;
            assert(t[j].id == id);
        }
        if id == n.id {
            assert(t[nodes.len() as int].id == id);
        }
    }
}

/// What removing the node at `k` does to membership by id, given that
/// ids are pairwise distinct.
pub proof fn lemma_remove_node_has(nodes: Seq<NodeView>, k: int, id: Seq<char>)
    requires
        spec_node_ids_unique(nodes),
        0 <= k < nodes.len(),
    ensures
        spec_has_node_id(nodes.remove(k), id) <==> (spec_has_node_id(nodes, id) && id
            != nodes[k].id),
{
    let t = nodes.remove(k);
    assert(forall|j: int| 0 <= j < t.len() ==> t[j] == (if j < k {
        nodes[j]
    } else {
        nodes[j + 1]
    }));
    if spec_has_node_id(t, id) {
        let j = choose|j: int| 0 <= j < t.len() && (#[trigger] t[j]).id == id;
        if j < k {
            assert(nodes[j].id == id);
        } else {
            assert(nodes[j + 1].id == id);
        }
    }
    if spec_has_node_id(nodes, id) && id != nodes[k].id {
        let j = choose|j: int| 0 <= j < nodes.len() && (#[trigger] nodes[j]).id == id;
        if j < k {
            assert(t[j].id == id);
        } else {
            assert(j != k);
            assert(t[j - 1].id == id);
        }
    }
}

/// The message updating the device's advertised node list.
pub open spec fn spec_node_list_message(base: Seq<char>, nodes: Seq<NodeView>) -> MessageView {
    spec_msg(spec_sub_topic(base, "$nodes"@), spec_comma_join(spec_node_ids(nodes)))
}

/// Everything `add_node` publishes: the node's metadata, each
/// property's metadata and value placeholder, and the updated node
/// list (`new_nodes` is the node list after the addition).
pub open spec fn spec_add_node_messages(
    base: Seq<char>,
    n: NodeView,
    new_nodes: Seq<NodeView>,
) -> Seq<MessageView> {
    spec_node_intro_messages(base, n) + spec_properties_messages(
        spec_sub_topic(base, n.id),
        n.properties,
    ) + seq![spec_node_list_message(base, new_nodes)]
}

/// The retraction messages for a node's metadata topics: empty retained
/// payloads.
pub open spec fn spec_node_retract_intro_messages(base: Seq<char>, n: NodeView) -> Seq<
    MessageView,
> {
    let nb = spec_sub_topic(base, n.id);
    seq![
        spec_msg(spec_sub_topic(nb, "$name"@), ""@),
        spec_msg(spec_sub_topic(nb, "$type"@), ""@),
        spec_msg(spec_sub_topic(nb, "$properties"@), ""@),
    ]
}

/// The retraction messages for one property's topics.
pub open spec fn spec_property_retract_messages(node_base: Seq<char>, p: PropertyView) -> Seq<
    MessageView,
> {
    let pt = spec_sub_topic(node_base, p.id);
    seq![
        spec_msg(spec_sub_topic(pt, "$name"@), ""@),
        spec_msg(spec_sub_topic(pt, "$datatype"@), ""@),
    ] + (match p.unit {
        Some(u) => seq![spec_msg(spec_sub_topic(pt, "$unit"@), ""@)],
        None => Seq::<MessageView>::empty(),
    }) + seq![spec_msg(pt, ""@)]
}

/// The retraction messages of a node's property list, in order.
pub open spec fn spec_properties_retract_messages(
    node_base: Seq<char>,
    props: Seq<PropertyView>,
) -> Seq<MessageView>
    decreases props.len(),
{
    if props.len() == 0 {
        Seq::empty()
    } else {
        spec_properties_retract_messages(node_base, props.drop_last())
            + spec_property_retract_messages(node_base, props.last())
    }
}

/// Everything `remove_node` publishes for a registered node: empty
/// retained payloads for every topic the node was advertised under, and
/// the updated node list (`new_nodes` is the node list after the
/// removal).
pub open spec fn spec_remove_node_messages(
    base: Seq<char>,
    n: NodeView,
    new_nodes: Seq<NodeView>,
) -> Seq<MessageView> {
    spec_node_retract_intro_messages(base, n) + spec_properties_retract_messages(
        spec_sub_topic(base, n.id),
        n.properties,
    ) + seq![spec_node_list_message(base, new_nodes)]
}

/// The process-wide device lifecycle publisher: the device's base topic
/// (`<prefix>/<device id>`), its display name, its lifecycle state, and
/// the map from node id to node, kept as an ordered list with pairwise
/// distinct ids. The set of advertised node ids always equals the ids
/// of this list.
pub struct HomieDevice {
    base: String,
    device_name: String,
    state: LifecycleState,
    started: bool,
    nodes: Vec<Node>,
}

impl HomieDevice {
    /// The device's base topic.
    pub closed spec fn base(self) -> Seq<char> {
        self.base@
    }

    /// The device's display name.
    pub closed spec fn device_name(self) -> Seq<char> {
        self.device_name@
    }

    /// The device's lifecycle state.
    pub closed spec fn state(self) -> LifecycleState {
        self.state
    }

    /// Whether `start` has published the static device metadata.
    pub closed spec fn started(self) -> bool {
        self.started
    }

    /// The registered nodes, in insertion order.
    pub closed spec fn nodes(self) -> Seq<NodeView> {
        spec_nodes_view(self.nodes@)
    }

    /// Whether a node with this id is registered.
    pub open spec fn has_node(self, id: Seq<char>) -> bool {
        spec_has_node_id(self.nodes(), id)
    }

    /// The position of the node with this id.
    pub open spec fn node_index(self, id: Seq<char>) -> int {
        choose|i: int| 0 <= i < self.nodes().len() && (#[trigger] self.nodes()[i]).id == id
    }

    /// The registered node with this id.
    pub open spec fn node_with_id(self, id: Seq<char>) -> NodeView {
        self.nodes()[self.node_index(id)]
    }

    /// Whether the node with id `node_id` is registered and advertises a
    /// property with id `property_id`.
    pub open spec fn has_property(self, node_id: Seq<char>, property_id: Seq<char>) -> bool {
        &&& self.has_node(node_id)
        &&& exists|j: int|
            0 <= j < self.node_with_id(node_id).properties.len() && (#[trigger] self.node_with_id(
                node_id,
            ).properties[j]).id == property_id
    }

    /// Node ids are pairwise distinct: the advertised node list is a
    /// faithful image of the node map's keys.
    pub open spec fn wf(self) -> bool {
        spec_node_ids_unique(self.nodes())
    }

    /// Whether `start` is allowed: only once, from the initial state.
    pub open spec fn can_start(self) -> bool {
        self.state() == LifecycleState::Init && !self.started()
    }

    /// Whether `ready` is allowed: only after `start`, from the initial
    /// state.
    pub open spec fn can_ready(self) -> bool {
        self.state() == LifecycleState::Init && self.started()
    }

    /// A fresh device: initial state, nothing started, no nodes.
    pub fn new(base: &str, device_name: &str) -> (r: HomieDevice)
        ensures
            r.wf(),
            r.base() == base@,
            r.device_name() == device_name@,
            r.state() == LifecycleState::Init,
            !r.started(),
            r.nodes() == Seq::<NodeView>::empty(),
    {
        let r = HomieDevice {
            base: String::from_str(base),
            device_name: String::from_str(device_name),
            state: LifecycleState::Init,
            started: false,
            nodes: Vec::new(),
        };
        proof {
            assert(r.nodes() =~= Seq::<NodeView>::empty());
        }
        r
    }

    /// Publishes the static device metadata: the display name, the
    /// (initially empty) node list, and the `init` state. Allowed once,
    /// before `ready`; any other use is an invalid transition and
    /// changes nothing.
    pub fn start(&mut self) -> (r: Result<Vec<PublishMessage>, HomieError>)
        requires
            old(self).wf(),
        ensures
            final(self).wf(),
            final(self).base() == old(self).base(),
            final(self).device_name() == old(self).device_name(),
            final(self).nodes() == old(self).nodes(),
            spec_lifecycle_rank(final(self).state()) >= spec_lifecycle_rank(old(self).state()),
            old(self).can_start() ==> {
                &&& r matches Ok(msgs) && spec_msgs_view(msgs@) == spec_start_messages(
                    old(self).base(),
                    old(self).device_name(),
                )
                &&& final(self).state() == LifecycleState::Init
                &&& final(self).started()
            },
            !old(self).can_start() ==> r == Err::<Vec<PublishMessage>, HomieError>(
                HomieError::InvalidState,
            ) && *final(self) == *old(self),
    {
        if !(matches!(self.state, LifecycleState::Init) && !self.started) {
            return Err(HomieError::InvalidState);
        }
        let mut msgs: Vec<PublishMessage> = Vec::new();
        msgs.push(make_msg(sub_topic(self.base.as_str(), "$name"), self.device_name.clone()));
        msgs.push(make_msg(sub_topic(self.base.as_str(), "$nodes"), String::new()));
        msgs.push(make_msg(sub_topic(self.base.as_str(), "$state"), String::from_str("init")));
        self.started = true;
        proof {
            reveal_strlit("");
            assert(""@ =~= Seq::<char>::empty());
            assert(spec_msgs_view(msgs@) =~~= spec_start_messages(
                old(self).base(),
                old(self).device_name(),
            ));
            assert(self.nodes() =~= old(self).nodes());
        }
        Ok(msgs)
    }

    /// Publishes the `ready` state: the device is now live. Allowed only
    /// after `start`, from the initial state; any other use is an
    /// invalid transition and changes nothing.
    pub fn ready(&mut self) -> (r: Result<Vec<PublishMessage>, HomieError>)
        requires
            old(self).wf(),
        ensures
            final(self).wf(),
            final(self).base() == old(self).base(),
            final(self).device_name() == old(self).device_name(),
            final(self).nodes() == old(self).nodes(),
            final(self).started() == old(self).started(),
            spec_lifecycle_rank(final(self).state()) >= spec_lifecycle_rank(old(self).state()),
            old(self).can_ready() ==> {
                &&& r matches Ok(msgs) && spec_msgs_view(msgs@) == spec_state_message(
                    old(self).base(),
                    "ready"@,
                )
                &&& final(self).state() == LifecycleState::Ready
            },
            !old(self).can_ready() ==> r == Err::<Vec<PublishMessage>, HomieError>(
                HomieError::InvalidState,
            ) && *final(self) == *old(self),
    {
        if !(matches!(self.state, LifecycleState::Init) && self.started) {
            return Err(HomieError::InvalidState);
        }
        let mut msgs: Vec<PublishMessage> = Vec::new();
        msgs.push(make_msg(sub_topic(self.base.as_str(), "$state"), String::from_str("ready")));
        self.state = LifecycleState::Ready;
        proof {
            assert(spec_msgs_view(msgs@) =~~= spec_state_message(old(self).base(), "ready"@));
            assert(self.nodes() =~= old(self).nodes());
        }
        Ok(msgs)
    }

    /// Publishes the terminal `disconnected` state, on shutdown of the
    /// broker loop. Allowed only while the device is live; any other use
    /// is an invalid transition and changes nothing.
    pub fn disconnect(&mut self) -> (r: Result<Vec<PublishMessage>, HomieError>)
        requires
            old(self).wf(),
        ensures
            final(self).wf(),
            final(self).base() == old(self).base(),
            final(self).device_name() == old(self).device_name(),
            final(self).nodes() == old(self).nodes(),
            final(self).started() == old(self).started(),
            spec_lifecycle_rank(final(self).state()) >= spec_lifecycle_rank(old(self).state()),
            old(self).state() == LifecycleState::Ready ==> {
                &&& r matches Ok(msgs) && spec_msgs_view(msgs@) == spec_state_message(
                    old(self).base(),
                    "disconnected"@,
                )
                &&& final(self).state() == LifecycleState::Disconnected
            },
            old(self).state() != LifecycleState::Ready ==> r == Err::<
                Vec<PublishMessage>,
                HomieError,
            >(HomieError::InvalidState) && *final(self) == *old(self),
    {
        if !matches!(self.state, LifecycleState::Ready) {
            return Err(HomieError::InvalidState);
        }
        let mut msgs: Vec<PublishMessage> = Vec::new();
        msgs.push(
            make_msg(sub_topic(self.base.as_str(), "$state"), String::from_str("disconnected")),
        );
        self.state = LifecycleState::Disconnected;
        proof {
            assert(spec_msgs_view(msgs@) =~~= spec_state_message(
                old(self).base(),
                "disconnected"@,
            ));
            assert(self.nodes() =~= old(self).nodes());
        }
        Ok(msgs)
    }

    /// The device's current lifecycle state.
    pub fn lifecycle_state(&self) -> (r: LifecycleState)
        ensures
            r == self.state(),
    {
        self.state
    }

    /// The number of registered nodes.
    pub fn node_count(&self) -> (r: usize)
        ensures
            r == self.nodes().len(),
    {
        self.nodes.len()
    }

    /// Whether a node with this id is registered.
    #[verifier::loop_isolation(false)]
    pub fn contains_node(&self, node_id: &str) -> (r: bool)
        requires
            self.wf(),
        ensures
            r == self.has_node(node_id@),
    {
        let mut i: usize = 0;
        while i < self.nodes.len()
            invariant
                i <= self.nodes().len(),
                forall|j: int| 0 <= j < i ==> self.nodes()[j].id != node_id@,
            decreases self.nodes().len() - i,
        {
            if str_eq(self.nodes[i].id.as_str(), node_id) {
                proof {
                    assert(self.nodes()[i as int].id == node_id@);
                }
                return true;
            }
            i += 1;
        }
        proof {
            assert(!self.has_node(node_id@));
        }
        false
    }

    /// Each registered node is found at its own index by id.
    proof fn lemma_node_at(self, i: int)
        requires
            self.wf(),
            0 <= i < self.nodes().len(),
        ensures
            self.has_node(self.nodes()[i].id),
            self.node_index(self.nodes()[i].id) == i,
            self.node_with_id(self.nodes()[i].id) == self.nodes()[i],
    {
        let id = self.nodes()[i].id;
        assert(self.has_node(id)) by {
            assert(0 <= i < self.nodes().len() && self.nodes()[i].id == id);
        }
        let ci = self.node_index(id);
        assert(0 <= ci < self.nodes().len() && self.nodes()[ci].id == id);
        if ci < i {
            assert(self.nodes()[ci].id != self.nodes()[i].id);
        } else if i < ci {
            assert(self.nodes()[i].id != self.nodes()[ci].id);
        }
    }

    /// Registers a node while the device is live, publishing its
    /// metadata, its properties, and the updated node list.
    /// Re-adding an id that is already registered replaces that node in
    /// place: the node list never holds a duplicate entry.
    #[verifier::loop_isolation(false)]
    pub fn add_node(&mut self, node: Node) -> (r: Result<Vec<PublishMessage>, HomieError>)
        requires
            old(self).wf(),
        ensures
            final(self).wf(),
            final(self).base() == old(self).base(),
            final(self).device_name() == old(self).device_name(),
            final(self).state() == old(self).state(),
            final(self).started() == old(self).started(),
            old(self).state() != LifecycleState::Ready ==> r == Err::<
                Vec<PublishMessage>,
                HomieError,
            >(HomieError::InvalidState) && *final(self) == *old(self),
            old(self).state() == LifecycleState::Ready ==> {
                &&& final(self).nodes() == spec_upsert_node(old(self).nodes(), node@)
                &&& r matches Ok(msgs) && spec_msgs_view(msgs@) == spec_add_node_messages(
                    old(self).base(),
                    node@,
                    spec_upsert_node(old(self).nodes(), node@),
                )
            },
    {
        if !matches!(self.state, LifecycleState::Ready) {
            return Err(HomieError::InvalidState);
        }
        let ghost nv = node@;
        let ghost base0 = self.base@;
        let ghost old_nodes = self.nodes();
        let node_base = sub_topic(self.base.as_str(), node.id.as_str());
        let ghost nb0 = spec_sub_topic(base0, nv.id);
        let mut msgs: Vec<PublishMessage> = Vec::new();
        msgs.push(make_msg(sub_topic(node_base.as_str(), "$name"), node.name.clone()));
        msgs.push(make_msg(sub_topic(node_base.as_str(), "$type"), node.device_type.clone()));
        msgs.push(
            make_msg(
                sub_topic(node_base.as_str(), "$properties"),
                join_property_ids(&node.properties),
            ),
        );
        proof {
            assert(spec_msgs_view(msgs@) =~~= spec_node_intro_messages(base0, nv)
                + spec_properties_messages(nb0, nv.properties.take(0)));
        }
        let mut pi: usize = 0;
        while pi < node.properties.len()
            invariant
                pi <= nv.properties.len(),
                node@ == nv,
                node_base@ == nb0,
                spec_msgs_view(msgs@) == spec_node_intro_messages(base0, nv)
                    + spec_properties_messages(nb0, nv.properties.take(pi as int)),
            decreases nv.properties.len() - pi,
        {
            let prop_topic = sub_topic(node_base.as_str(), node.properties[pi].id.as_str());
            msgs.push(
                make_msg(sub_topic(prop_topic.as_str(), "$name"), node.properties[pi].name.clone()),
            );
            msgs.push(
                make_msg(
                    sub_topic(prop_topic.as_str(), "$datatype"),
                    String::from_str(datatype_payload(node.properties[pi].datatype)),
                ),
            );
            match &node.properties[pi].unit {
                Some(u) => {
                    msgs.push(make_msg(sub_topic(prop_topic.as_str(), "$unit"), u.clone()));
                },
                None => {},
            }
            msgs.push(make_msg(prop_topic, String::new()));
            proof {
                reveal_strlit("");
                assert(""@ =~= Seq::<char>::empty());
                assert(nv.properties.take(pi + 1).drop_last() =~= nv.properties.take(pi as int));
                assert(nv.properties.take(pi + 1).last() == nv.properties[pi as int]);
                assert(spec_properties_messages(nb0, nv.properties.take(pi + 1))
                    =~~= spec_properties_messages(nb0, nv.properties.take(pi as int))
                    + spec_property_messages(nb0, nv.properties[pi as int]));
                assert(spec_msgs_view(msgs@) =~~= spec_node_intro_messages(base0, nv)
                    + spec_properties_messages(nb0, nv.properties.take(pi as int))
                    + spec_property_messages(nb0, nv.properties[pi as int]));
                assert(spec_msgs_view(msgs@) =~~= spec_node_intro_messages(base0, nv)
                    + spec_properties_messages(nb0, nv.properties.take(pi + 1)));
            }
            pi += 1;
        }
        proof {
            assert(nv.properties.take(nv.properties.len() as int) =~= nv.properties);
        }
        let mut found: Option<usize> = None;
        let mut i: usize = 0;
        while i < self.nodes.len()
            invariant
                *self == *old(self),
                i <= old_nodes.len(),
                found matches Some(k) ==> 0 <= k < old_nodes.len() && old_nodes[k as int].id
                    == nv.id,
                found is None ==> forall|j: int| 0 <= j < i ==> old_nodes[j].id != nv.id,
            decreases old_nodes.len() - i,
        {
            if found.is_none() && str_eq(self.nodes[i].id.as_str(), node.id.as_str()) {
                found = Some(i);
            }
            i += 1;
        }
        match found {
            Some(k) => {
                proof {
                    old(self).lemma_node_at(k as int);
                }
                self.nodes.set(k, node);
                proof {
                    assert(self.nodes() =~~= old_nodes.update(k as int, nv));
                    assert(spec_upsert_node(old_nodes, nv) == old_nodes.update(
                        old(self).node_index(nv.id),
                        nv,
                    ));
                    assert(self.nodes() =~~= spec_upsert_node(old_nodes, nv));
                    assert forall|p: int, q: int|
                        0 <= p < q < self.nodes().len() implies self.nodes()[p].id
                        != self.nodes()[q].id by {
                        assert(old_nodes[p].id == self.nodes()[p].id || p == k);
                        assert(old_nodes[q].id == self.nodes()[q].id || q == k);
                        assert(old_nodes[p].id != old_nodes[q].id);
                    }
                }
            },
            None => {
                self.nodes.push(node);
                proof {
                    assert(!(exists|j: int|
                        0 <= j < old_nodes.len() && (#[trigger] old_nodes[j]).id == nv.id));
                    assert(self.nodes() =~~= old_nodes.push(nv));
                    assert(self.nodes() =~~= spec_upsert_node(old_nodes, nv));
                    assert forall|p: int, q: int|
                        0 <= p < q < self.nodes().len() implies self.nodes()[p].id
                        != self.nodes()[q].id by {
                        if q < self.nodes().len() - 1 {
                            assert(old_nodes[p].id != old_nodes[q].id);
                        } else {
                            assert(old_nodes[p].id != nv.id);
                        }
                    }
                }
            },
        }
        msgs.push(make_msg(sub_topic(self.base.as_str(), "$nodes"), join_node_ids(&self.nodes)));
        proof {
            assert(spec_msgs_view(msgs@) =~~= spec_add_node_messages(
                base0,
                nv,
                spec_upsert_node(old_nodes, nv),
            ));
        }
        Ok(msgs)
    }

    /// Unregisters the node with this id while the device is live,
    /// retracting every topic it was advertised under and publishing the
    /// updated node list. Removing an id that was never added is a
    /// harmless no-op, not an error: nothing is published and nothing
    /// changes.
    #[verifier::loop_isolation(false)]
    pub fn remove_node(&mut self, node_id: &str) -> (r: Result<Vec<PublishMessage>, HomieError>)
        requires
            old(self).wf(),
        ensures
            final(self).wf(),
            final(self).base() == old(self).base(),
            final(self).device_name() == old(self).device_name(),
            final(self).state() == old(self).state(),
            final(self).started() == old(self).started(),
            old(self).state() != LifecycleState::Ready ==> r == Err::<
                Vec<PublishMessage>,
                HomieError,
            >(HomieError::InvalidState) && *final(self) == *old(self),
            old(self).state() == LifecycleState::Ready && !old(self).has_node(node_id@) ==> {
                &&& r matches Ok(msgs) && msgs@.len() == 0
                &&& *final(self) == *old(self)
            },
            old(self).state() == LifecycleState::Ready && old(self).has_node(node_id@) ==> {
                &&& final(self).nodes() == old(self).nodes().remove(old(self).node_index(node_id@))
                &&& r matches Ok(msgs) && spec_msgs_view(msgs@) == spec_remove_node_messages(
                    old(self).base(),
                    old(self).node_with_id(node_id@),
                    old(self).nodes().remove(old(self).node_index(node_id@)),
                )
            },
    {
        if !matches!(self.state, LifecycleState::Ready) {
            return Err(HomieError::InvalidState);
        }
        let ghost base0 = self.base@;
        let ghost old_nodes = self.nodes();
        let mut i: usize = 0;
        while i < self.nodes.len()
            invariant
                *self == *old(self),
                i <= old_nodes.len(),
                forall|j: int| 0 <= j < i ==> old_nodes[j].id != node_id@,
            decreases old_nodes.len() - i,
        {
            if str_eq(self.nodes[i].id.as_str(), node_id) {
                proof {
                    old(self).lemma_node_at(i as int);
                }
                let node = self.nodes.remove(i);
                let ghost nv = node@;
                let ghost nb0 = spec_sub_topic(base0, nv.id);
                proof {
                    assert(nv == old_nodes[i as int]);
                    assert(self.nodes() =~~= old_nodes.remove(i as int));
                    assert forall|p: int, q: int|
                        0 <= p < q < self.nodes().len() implies self.nodes()[p].id
                        != self.nodes()[q].id by {
                        let p0: int = if p < i { p } else { p + 1 };
                        let q0: int = if q < i { q } else { q + 1 };
                        assert(self.nodes()[p] == old_nodes[p0]);
                        assert(self.nodes()[q] == old_nodes[q0]);
                        assert(old_nodes[p0].id != old_nodes[q0].id);
                    }
                }
                let node_base = sub_topic(self.base.as_str(), node.id.as_str());
                let mut msgs: Vec<PublishMessage> = Vec::new();
                let empty1 = String::new();
                let empty2 = String::new();
                let empty3 = String::new();
                msgs.push(make_msg(sub_topic(node_base.as_str(), "$name"), empty1));
                msgs.push(make_msg(sub_topic(node_base.as_str(), "$type"), empty2));
                msgs.push(make_msg(sub_topic(node_base.as_str(), "$properties"), empty3));
                proof {
                    reveal_strlit("");
                    assert(""@ =~= Seq::<char>::empty());
                    assert(spec_msgs_view(msgs@) =~~= spec_node_retract_intro_messages(base0, nv)
                        + spec_properties_retract_messages(nb0, nv.properties.take(0)));
                }
                let mut pi: usize = 0;
                while pi < node.properties.len()
                    invariant
                        pi <= nv.properties.len(),
                        node@ == nv,
                        node_base@ == nb0,
                        spec_msgs_view(msgs@) == spec_node_retract_intro_messages(base0, nv)
                            + spec_properties_retract_messages(
                            nb0,
                            nv.properties.take(pi as int),
                        ),
                    decreases nv.properties.len() - pi,
                {
                    let prop_topic = sub_topic(
                        node_base.as_str(),
                        node.properties[pi].id.as_str(),
                    );
                    msgs.push(make_msg(sub_topic(prop_topic.as_str(), "$name"), String::new()));
                    msgs.push(
                        make_msg(sub_topic(prop_topic.as_str(), "$datatype"), String::new()),
                    );
                    match &node.properties[pi].unit {
                        Some(_) => {
                            msgs.push(
                                make_msg(sub_topic(prop_topic.as_str(), "$unit"), String::new()),
                            );
                        },
                        None => {},
                    }
                    msgs.push(make_msg(prop_topic, String::new()));
                    proof {
                        reveal_strlit("");
                        assert(""@ =~= Seq::<char>::empty());
                        assert(nv.properties.take(pi + 1).drop_last() =~= nv.properties.take(
                            pi as int,
                        ));
                        assert(nv.properties.take(pi + 1).last() == nv.properties[pi as int]);
                        assert(spec_properties_retract_messages(nb0, nv.properties.take(pi + 1))
                            =~~= spec_properties_retract_messages(
                            nb0,
                            nv.properties.take(pi as int),
                        ) + spec_property_retract_messages(nb0, nv.properties[pi as int]));
                        assert(spec_msgs_view(msgs@) =~~= spec_node_retract_intro_messages(
                            base0,
                            nv,
                        ) + spec_properties_retract_messages(nb0, nv.properties.take(pi as int))
                            + spec_property_retract_messages(nb0, nv.properties[pi as int]));
                        assert(spec_msgs_view(msgs@) =~~= spec_node_retract_intro_messages(
                            base0,
                            nv,
                        ) + spec_properties_retract_messages(nb0, nv.properties.take(pi + 1)));
                    }
                    pi += 1;
                }
                proof {
                    assert(nv.properties.take(nv.properties.len() as int) =~= nv.properties);
                }
                msgs.push(
                    make_msg(sub_topic(self.base.as_str(), "$nodes"), join_node_ids(&self.nodes)),
                );
                proof {
                    assert(spec_msgs_view(msgs@) =~~= spec_remove_node_messages(
                        base0,
                        nv,
                        old_nodes.remove(i as int),
                    ));
                }
                return Ok(msgs);
            }
            i += 1;
        }
        proof {
            assert(!old(self).has_node(node_id@));
        }
        Ok(Vec::new())
    }

    /// The single message publishing a value under a registered node and
    /// property. Fails with `UnknownNodeOrProperty` — and publishes
    /// nothing — exactly when no node with `node_id` advertising a
    /// property with `property_id` is registered.
    #[verifier::loop_isolation(false)]
    pub fn publish_value(&self, node_id: &str, property_id: &str, value: &str) -> (r: Result<
        PublishMessage,
        HomieError,
    >)
        requires
            self.wf(),
        ensures
            self.state() != LifecycleState::Ready ==> r == Err::<PublishMessage, HomieError>(
                HomieError::InvalidState,
            ),
            self.state() == LifecycleState::Ready ==> {
                &&& (r is Ok <==> self.has_property(node_id@, property_id@))
                &&& (r matches Ok(m) ==> m@ == spec_msg(
                    spec_sub_topic(spec_sub_topic(self.base(), node_id@), property_id@),
                    value@,
                ))
                &&& (!self.has_property(node_id@, property_id@) ==> r == Err::<
                    PublishMessage,
                    HomieError,
                >(HomieError::UnknownNodeOrProperty))
            },
    {
        if !matches!(self.state, LifecycleState::Ready) {
            return Err(HomieError::InvalidState);
        }
        let mut ni: usize = 0;
        while ni < self.nodes.len()
            invariant
                ni <= self.nodes().len(),
                forall|j: int| 0 <= j < ni ==> self.nodes()[j].id != node_id@,
            decreases self.nodes().len() - ni,
        {
            if str_eq(self.nodes[ni].id.as_str(), node_id) {
                proof {
                    self.lemma_node_at(ni as int);
                }
                let mut pi: usize = 0;
                while pi < self.nodes[ni].properties.len()
                    invariant
                        ni < self.nodes().len(),
                        self.nodes()[ni as int].id == node_id@,
                        pi <= self.nodes()[ni as int].properties.len(),
                        forall|k: int|
                            0 <= k < pi ==> self.nodes()[ni as int].properties[k].id
                                != property_id@,
                    decreases self.nodes()[ni as int].properties.len() - pi,
                {
                    if str_eq(self.nodes[ni].properties[pi].id.as_str(), property_id) {
                        proof {
                            assert(self.nodes()[ni as int].properties[pi as int].id
                                == property_id@);
                            assert(self.has_property(node_id@, property_id@));
                        }
                        return Ok(
                            make_msg(
                                sub_topic(
                                    sub_topic(self.base.as_str(), node_id).as_str(),
                                    property_id,
                                ),
                                String::from_str(value),
                            ),
                        );
                    }
                    pi += 1;
                }
                proof {
                    assert(!self.has_property(node_id@, property_id@));
                }
                return Err(HomieError::UnknownNodeOrProperty);
            }
            ni += 1;
        }
        proof {
            assert(!self.has_node(node_id@));
        }
        Err(HomieError::UnknownNodeOrProperty)
    }
}

/// The comma-joined property ids of a property list.
#[verifier::loop_isolation(false)]
fn join_property_ids(props: &Vec<Property>) -> (r: String)
    ensures
        r@ == spec_comma_join(spec_property_ids(spec_props_view(props@))),
{
    let ghost ids = spec_property_ids(spec_props_view(props@));
    let mut s = String::new();
    let mut i: usize = 0;
    while i < props.len()
        invariant
            i <= ids.len(),
            s@ == spec_comma_join(ids.take(i as int)),
        decreases ids.len() - i,
    {
        if i > 0 {
            s.append(",");
        }
        s.append(props[i].id.as_str());
        proof {
            assert(ids[i as int] == props@[i as int]@.id);
            if i == 0 {
                assert(s@ =~= spec_comma_join(ids.take(1)));
            } else {
                assert(ids.take(i + 1).drop_last() =~= ids.take(i as int));
                assert(ids.take(i + 1).last() == ids[i as int]);
                assert(s@ =~= spec_comma_join(ids.take(i + 1)));
            }
        }
        i += 1;
    }
    proof {
        assert(ids.take(ids.len() as int) =~= ids);
    }
    s
}

/// The comma-joined node ids of the registered node list.
#[verifier::loop_isolation(false)]
fn join_node_ids(nodes: &Vec<Node>) -> (r: String)
    ensures
        r@ == spec_comma_join(spec_node_ids(spec_nodes_view(nodes@))),
{
    let ghost ids = spec_node_ids(spec_nodes_view(nodes@));
    let mut s = String::new();
    let mut i: usize = 0;
    while i < nodes.len()
        invariant
            i <= ids.len(),
            s@ == spec_comma_join(ids.take(i as int)),
        decreases ids.len() - i,
    {
        if i > 0 {
            s.append(",");
        }
        s.append(nodes[i].id.as_str());
        proof {
            assert(ids[i as int] == nodes@[i as int]@.id);
            if i == 0 {
                assert(s@ =~= spec_comma_join(ids.take(1)));
            } else {
                assert(ids.take(i + 1).drop_last() =~= ids.take(i as int));
                assert(ids.take(i + 1).last() == ids[i as int]);
                assert(s@ =~= spec_comma_join(ids.take(i + 1)));
            }
        }
        i += 1;
    }
    proof {
        assert(ids.take(ids.len() as int) =~= ids);
    }
    s
}

} // verus!
