use crate::message::{Message, MessageBody, Payload};
use crate::model::{
    after_event, after_recv, can_receive, expects_reply, is_gossip, is_reply, neighbors,
    owes_gossip, seen_by, EventView, IdentityView, NodeState,
};
use crate::node_map::NodeMap;
use crate::node_set::{names, NodeSet};
use crate::selector::{
    extend, lemma_selection_empty_iff_no_news, lemma_set_is_finite, select, snapshot,
    valid_selection,
};
use crate::unique::{fresh_token, make_id};
use std::collections::HashSet;
use vstd::pervasive::unreached;
use vstd::prelude::*;

verus! {

broadcast use vstd::std_specs::hash::group_hash_axioms;

/// One participant of the cluster: the values it has observed, the
/// topology it was given, and what each neighbour last reported.
#[derive(Debug)]
pub struct Node {
    identity: Option<(String, Vec<String>)>,
    topology: NodeMap<NodeSet>,
    messages: HashSet<usize>,
    node_has_seen: NodeMap<HashSet<usize>>,
}

impl View for Node {
    type V = NodeState;

    closed spec fn view(&self) -> NodeState {
        NodeState {
            identity: match self.identity {
                Some(identity) => Some(
                    IdentityView { node_id: identity.0@, node_ids: names(identity.1@) },
                ),
                None => None,
            },
            topology: self.topology@,
            values: self.messages@,
            seen: self.node_has_seen@,
        }
    }
}

/// What the event loop hands to the node: a message from the transport, or
/// a tick of the gossip timer.
#[derive(Debug)]
pub enum Event {
    TransportMessage(Message),
    Gossip,
}

impl View for Event {
    type V = EventView;

    open spec fn view(&self) -> EventView {
        match *self {
            Event::TransportMessage(message) => EventView::TransportMessage(message@),
            Event::Gossip => EventView::Gossip,
        }
    }
}

/// Whether `out` is what one tick of the gossip timer sends in state `s`:
/// gossip pushes only, at most one to a neighbour, and one to each
/// neighbour that is owed one.
pub open spec fn is_gossip_round(s: NodeState, out: Seq<Message>) -> bool {
    &&& forall|j: int| 0 <= j < out.len() ==> is_gossip(s, #[trigger] out[j]@)
    &&& forall|i: int, j: int|
        0 <= i < j < out.len() ==> (#[trigger] out[i]@).dest != (#[trigger] out[j]@).dest
    &&& forall|n: Seq<char>| #[trigger]
        owes_gossip(s, n) ==> exists|j: int| 0 <= j < out.len() && (#[trigger] out[j]@).dest == n
}

impl Node {
    /// A node that has received nothing yet.
    pub fn new() -> (node: Self)
        ensures
            node@ == crate::model::initial(),
    {
        Node {
            identity: None,
            topology: NodeMap::new(),
            messages: HashSet::new(),
            node_has_seen: NodeMap::new(),
        }
    }

    /// The node's own name, once the handshake has assigned it.
    pub fn node_id(&self) -> (id: Option<&String>)
        ensures
            match id {
                Some(id) => self@.identity is Some && self@.identity->0.node_id == id@,
                None => self@.identity is None,
            },
    {
        match &self.identity {
            Some(identity) => Some(&identity.0),
            None => None,
        }
    }

    /// The names of all members of the cluster, once the handshake has
    /// assigned them.
    pub fn node_ids(&self) -> (ids: Option<&Vec<String>>)
        ensures
            match ids {
                Some(ids) => self@.identity is Some && self@.identity->0.node_ids == names(ids@),
                None => self@.identity is None,
            },
    {
        match &self.identity {
            Some(identity) => Some(&identity.1),
            None => None,
        }
    }

    /// Every value that the node has observed.
    pub fn messages(&self) -> (values: &HashSet<usize>)
        ensures
            values@ == self@.values,
    {
        &self.messages
    }

    /// The topology that the node was given.
    pub fn topology(&self) -> (topology: &NodeMap<NodeSet>)
        ensures
            topology@ == self@.topology,
    {
        &self.topology
    }

    /// The latest report of `neighbor`, if it has ever reported.
    pub fn has_seen(&self, neighbor: &String) -> (report: Option<&HashSet<usize>>)
        ensures
            match report {
                Some(seen) => self@.seen.contains_key(neighbor@) && self@.seen[neighbor@] == seen@,
                None => !self@.seen.contains_key(neighbor@),
            },
    {
        self.node_has_seen.get(neighbor)
    }

    /// Whether the node can handle `msg`.
    pub open spec fn accepts(&self, msg: &Message) -> bool {
        can_receive(self@, msg@)
    }

    /// Tests whether the node can handle `msg`.
    pub fn can_handle(&self, msg: &Message) -> (ok: bool)
        ensures
            ok == self.accepts(msg),
    {
        let answered = match &msg.body.message {
            Payload::Init { .. }
            | Payload::Echo { .. }
            | Payload::Generate
            | Payload::Topology { .. }
            | Payload::Broadcast { .. }
            | Payload::Read => true,
            _ => false,
        };
        let numbered = match msg.body.msg_id {
            Some(id) => id < usize::MAX,
            None => true,
        };
        let named = match &msg.body.message {
            Payload::Generate => self.identity.is_some(),
            _ => true,
        };
        named && (!answered || numbered)
    }

    /// Handles one message from the transport: updates the state and
    /// returns the reply, if the message is one that is answered.
    pub fn recv(&mut self, msg: Message) -> (reply: Option<Message>)
        requires
            old(self).accepts(&msg),
        ensures
            final(self)@ == after_recv(old(self)@, msg@),
            old(self)@.values.subset_of(final(self)@.values),
            match reply {
                Some(r) => expects_reply(msg@.body.message) && is_reply(old(self)@, msg@, r@),
                None => !expects_reply(msg@.body.message),
            },
    {
        let Message { src, dest, body } = msg;
        let MessageBody { msg_id, in_reply_to: _, message } = body;
        match message {
            Payload::Init { node_id, node_ids } => {
                if self.identity.is_none() {
                    self.identity = Some((node_id, node_ids));
                }
                Some(Message::reply(&src, &dest, msg_id, Payload::InitOk))
            },
            Payload::Echo { echo } => Some(
                Message::reply(&src, &dest, msg_id, Payload::EchoOk { echo }),
            ),
            Payload::Generate => {
                let token = fresh_token();
                let id = match &self.identity {
                    Some(identity) => make_id(&identity.0, &token),
                    None => unreached(),
                };
                Some(Message::reply(&src, &dest, msg_id, Payload::GenerateOk { id }))
            },
            Payload::Topology { topology } => {
                self.topology = topology;
                Some(Message::reply(&src, &dest, msg_id, Payload::TopologyOk))
            },
            Payload::Broadcast { message } => {
                self.messages.insert(message);
                Some(Message::reply(&src, &dest, msg_id, Payload::BroadcastOk))
            },
            Payload::Read => {
                let messages = snapshot(&self.messages);
                Some(Message::reply(&src, &dest, msg_id, Payload::ReadOk { messages }))
            },
            Payload::Gossip { has_seen } => {
                extend(&mut self.messages, &has_seen);
                self.node_has_seen.insert(src, has_seen);
                None
            },
            Payload::InitOk
            | Payload::EchoOk { .. }
            | Payload::GenerateOk { .. }
            | Payload::TopologyOk
            | Payload::BroadcastOk
            | Payload::ReadOk { .. } => None,
        }
    }

    /// The values to gossip to a neighbour whose latest report is
    /// `has_seen`.
    pub fn find_gossip_messages(&self, has_seen: &HashSet<usize>) -> (chosen: HashSet<usize>)
        ensures
            valid_selection(self@.values, has_seen@, chosen@),
    {
        select(&self.messages, has_seen)
    }

    /// The values to gossip to `neighbor`, by its latest report; a
    /// neighbour that has never reported is taken to have seen nothing.
    pub fn select_for_neighbor(&self, neighbor: &String) -> (chosen: HashSet<usize>)
        ensures
            valid_selection(self@.values, seen_by(self@, neighbor@), chosen@),
    {
        match self.node_has_seen.get(neighbor) {
            Some(has_seen) => self.find_gossip_messages(has_seen),
            None => {
                let nobody: HashSet<usize> = HashSet::new();
                self.find_gossip_messages(&nobody)
            },
        }
    }

    /// The gossip pushes of one tick of the timer: one envelope to each
    /// neighbour for which there is news, and none to anybody else.
    pub fn gossip(&self) -> (out: Vec<Message>)
        ensures
            is_gossip_round(self@, out@),
    {
        let mut out: Vec<Message> = Vec::new();
        let node_id = match &self.identity {
            Some(identity) => &identity.0,
            None => {
                return out;
            },
        };
        let nodes = match self.topology.get(node_id) {
            Some(nodes) => nodes.ids(),
            None => {
                return out;
            },
        };
        let ghost order = names(nodes@);
        assert(order.to_set() == neighbors(self@));
        let mut i: usize = 0;
        while i < nodes.len()
            invariant
                0 <= i <= nodes.len(),
                order == names(nodes@),
                order.no_duplicates(),
                order.to_set() == neighbors(self@),
                self@.identity is Some,
                self@.identity->0.node_id == node_id@,
                forall|j: int| 0 <= j < out.len() ==> is_gossip(self@, #[trigger] out[j]@),
                forall|j: int|
                    0 <= j < out.len() ==> exists|k: int|
                        0 <= k < i && #[trigger] order[k] == (#[trigger] out[j]@).dest,
                forall|a: int, b: int|
                    0 <= a < b < out.len() ==> (#[trigger] out[a]@).dest != (#[trigger] out[b]@).dest,
                forall|k: int|
                    0 <= k < i && owes_gossip(self@, #[trigger] order[k]) ==> exists|j: int|
                        0 <= j < out.len() && (#[trigger] out[j]@).dest == order[k],
            decreases nodes.len() - i,
        {
            let node = &nodes[i];
            assert(order[i as int] == node@);
            let messages = self.select_for_neighbor(node);
            proof {
                lemma_set_is_finite(&self.messages);
                lemma_selection_empty_iff_no_news(
                    self@.values,
                    seen_by(self@, node@),
                    messages@,
                );
            }
            let ghost before = out@;
            if !messages.is_empty() {
                let envelope = Message::send_message(
                    node_id.clone(),
                    node.clone(),
                    MessageBody {
                        msg_id: None,
                        in_reply_to: None,
                        message: Payload::Gossip { has_seen: messages },
                    },
                );
                out.push(envelope);
                assert(forall|j: int| 0 <= j < before.len() ==> out[j] == before[j]);
                assert(out[before.len() as int]@.dest == order[i as int]);
            }
            i += 1;
        }
        proof {
            assert forall|n: Seq<char>| #[trigger] owes_gossip(self@, n) implies exists|j: int|
                0 <= j < out.len() && (#[trigger] out[j]@).dest == n by {
                assert(order.contains(n));
                let k = choose|k: int| 0 <= k < order.len() && order[k] == n;
                assert(owes_gossip(self@, order[k]));
            }
        }
        out
    }

    /// Handles one event of the loop and returns the envelopes to write,
    /// in the order in which they are to be written.
    pub fn step(&mut self, event: Event) -> (out: Vec<Message>)
        requires
            event matches Event::TransportMessage(msg) ==> old(self).accepts(&msg),
        ensures
            final(self)@ == after_event(old(self)@, event@),
            old(self)@.values.subset_of(final(self)@.values),
            match event {
                Event::TransportMessage(msg) => if expects_reply(msg@.body.message) {
                    out.len() == 1 && is_reply(old(self)@, msg@, out[0]@)
                } else {
                    out.len() == 0
                },
                Event::Gossip => is_gossip_round(old(self)@, out@),
            },
    {
        match event {
            Event::TransportMessage(msg) => {
                let mut out: Vec<Message> = Vec::new();
                match self.recv(msg) {
                    Some(reply) => {
                        out.push(reply);
                    },
                    None => {},
                }
                out
            },
            Event::Gossip => self.gossip(),
        }
    }
}

} // verus!
