use crate::message::{reply_to, MessageView, PayloadView};
use crate::selector::{has_news, valid_selection};
use crate::unique::is_generated_id;
use vstd::prelude::*;

verus! {

/// What the handshake assigns to a node: its own name and the names of all
/// members of the cluster.
pub struct IdentityView {
    pub node_id: Seq<char>,
    pub node_ids: Seq<Seq<char>>,
}

/// The state of a node as mathematics.
#[verifier::ext_equal]
pub struct NodeState {
    /// Absent until the handshake.
    pub identity: Option<IdentityView>,
    /// For each node, the neighbours that it gossips with.
    pub topology: Map<Seq<char>, Set<Seq<char>>>,
    /// Every value that the node has observed.
    pub values: Set<usize>,
    /// For each neighbour, the values of its latest report.
    pub seen: Map<Seq<char>, Set<usize>>,
}

/// The state of a node that has received nothing yet.
pub open spec fn initial() -> NodeState {
    NodeState { identity: None, topology: Map::empty(), values: Set::empty(), seen: Map::empty() }
}

/// The state after `message` has been received in state `s`.
pub open spec fn after_recv(s: NodeState, message: MessageView) -> NodeState {
    match message.body.message {
        PayloadView::Init { node_id, node_ids } => if s.identity is None {
            NodeState { identity: Some(IdentityView { node_id, node_ids }), ..s }
        } else {
            s
        },
        PayloadView::Topology { topology } => NodeState { topology, ..s },
        PayloadView::Broadcast { message } => NodeState { values: s.values.insert(message), ..s },
        PayloadView::Gossip { has_seen } => NodeState {
            values: s.values.union(has_seen),
            seen: s.seen.insert(message.src, has_seen),
            ..s
        },
        _ => s,
    }
}

/// Whether `request` is one of the payloads that a node answers.
pub open spec fn expects_reply(request: PayloadView) -> bool {
    request is Init || request is Echo || request is Generate || request is Topology
        || request is Broadcast || request is Read
}

/// Whether a node in state `s` can handle `message`: a generate request
/// needs the handshake to have happened, and a request that is answered
/// needs an identifier that has a successor among the machine integers.
pub open spec fn can_receive(s: NodeState, message: MessageView) -> bool {
    &&& message.body.message is Generate ==> s.identity is Some
    &&& expects_reply(message.body.message) ==> (message.body.msg_id matches Some(id) ==> id
        < usize::MAX)
}

/// Whether `response` is what a node in state `s` answers to `request`.
pub open spec fn answers(s: NodeState, request: PayloadView, response: PayloadView) -> bool {
    match request {
        PayloadView::Init { .. } => response == PayloadView::InitOk,
        PayloadView::Echo { echo } => response == (PayloadView::EchoOk { echo }),
        PayloadView::Generate => s.identity is Some && response is GenerateOk && is_generated_id(
            s.identity->0.node_id,
            response->id,
        ),
        PayloadView::Topology { .. } => response == PayloadView::TopologyOk,
        PayloadView::Broadcast { .. } => response == PayloadView::BroadcastOk,
        PayloadView::Read => response == (PayloadView::ReadOk { messages: s.values }),
        _ => false,
    }
}

/// Whether `reply` is the envelope that a node in state `s` sends back on
/// receiving `request`.
pub open spec fn is_reply(s: NodeState, request: MessageView, reply: MessageView) -> bool {
    &&& reply == reply_to(request, reply.body.message)
    &&& answers(s, request.body.message, reply.body.message)
}

/// The latest report of `neighbor`; empty if it has never reported.
pub open spec fn seen_by(s: NodeState, neighbor: Seq<char>) -> Set<usize> {
    if s.seen.contains_key(neighbor) {
        s.seen[neighbor]
    } else {
        Set::empty()
    }
}

/// The nodes that a node in state `s` gossips with: its own entry of the
/// topology, and nobody before the handshake or without such an entry.
pub open spec fn neighbors(s: NodeState) -> Set<Seq<char>> {
    if s.identity is Some && s.topology.contains_key(s.identity->0.node_id) {
        s.topology[s.identity->0.node_id]
    } else {
        Set::empty()
    }
}

/// Whether `envelope` is a gossip push that a node in state `s` may send
/// on a tick of its timer.
pub open spec fn is_gossip(s: NodeState, envelope: MessageView) -> bool {
    &&& s.identity is Some
    &&& envelope.src == s.identity->0.node_id
    &&& neighbors(s).contains(envelope.dest)
    &&& envelope.body.msg_id is None
    &&& envelope.body.in_reply_to is None
    &&& envelope.body.message is Gossip
    &&& envelope.body.message->has_seen != Set::<usize>::empty()
    &&& valid_selection(s.values, seen_by(s, envelope.dest), envelope.body.message->has_seen)
}

/// Whether a node in state `s` owes `neighbor` a gossip push on a tick.
pub open spec fn owes_gossip(s: NodeState, neighbor: Seq<char>) -> bool {
    neighbors(s).contains(neighbor) && has_news(s.values, seen_by(s, neighbor))
}

/// What the event loop hands to a node.
pub enum EventView {
    TransportMessage(MessageView),
    Gossip,
}

/// The state after `event` in state `s`: a tick of the timer changes
/// nothing.
pub open spec fn after_event(s: NodeState, event: EventView) -> NodeState {
    match event {
        EventView::TransportMessage(message) => after_recv(s, message),
        EventView::Gossip => s,
    }
}

/// The state after all of `events`, first to last, from state `s`.
pub open spec fn after_events(s: NodeState, events: Seq<EventView>) -> NodeState
    decreases events.len(),
{
    if events.len() == 0 {
        s
    } else {
        after_event(after_events(s, events.drop_last()), events.last())
    }
}

} // verus!
