use crate::node_map::NodeMap;
use crate::node_set::{names, NodeSet};
use std::collections::HashSet;
use vstd::prelude::*;

verus! {

/// What a message carries: one of the requests, their replies, or a gossip
/// push, which has no reply.
#[derive(Debug, PartialEq, Eq)]
pub enum Payload {
    Init { node_id: String, node_ids: Vec<String> },
    InitOk,
    Echo { echo: String },
    EchoOk { echo: String },
    Generate,
    GenerateOk { id: String },
    Topology { topology: NodeMap<NodeSet> },
    TopologyOk,
    Broadcast { message: usize },
    BroadcastOk,
    Read,
    ReadOk { messages: HashSet<usize> },
    Gossip { has_seen: HashSet<usize> },
}

#[derive(Debug, PartialEq, Eq)]
pub struct MessageBody {
    pub msg_id: Option<usize>,
    pub in_reply_to: Option<usize>,
    pub message: Payload,
}

#[derive(Debug, PartialEq, Eq)]
pub struct Message {
    pub src: String,
    pub dest: String,
    pub body: MessageBody,
}

/// The mathematical content of a [`Payload`].
pub enum PayloadView {
    Init { node_id: Seq<char>, node_ids: Seq<Seq<char>> },
    InitOk,
    Echo { echo: Seq<char> },
    EchoOk { echo: Seq<char> },
    Generate,
    GenerateOk { id: Seq<char> },
    Topology { topology: Map<Seq<char>, Set<Seq<char>>> },
    TopologyOk,
    Broadcast { message: usize },
    BroadcastOk,
    Read,
    ReadOk { messages: Set<usize> },
    Gossip { has_seen: Set<usize> },
}

/// The mathematical content of a [`MessageBody`].
pub struct BodyView {
    pub msg_id: Option<nat>,
    pub in_reply_to: Option<nat>,
    pub message: PayloadView,
}

/// The mathematical content of a [`Message`].
pub struct MessageView {
    pub src: Seq<char>,
    pub dest: Seq<char>,
    pub body: BodyView,
}

/// An optional machine integer as an optional natural number.
pub open spec fn id_view(id: Option<usize>) -> Option<nat> {
    match id {
        Some(n) => Some(n as nat),
        None => None,
    }
}

impl View for Payload {
    type V = PayloadView;

    open spec fn view(&self) -> PayloadView {
        match *self {
            Payload::Init { node_id, node_ids } => PayloadView::Init {
                node_id: node_id@,
                node_ids: names(node_ids@),
            },
            Payload::InitOk => PayloadView::InitOk,
            Payload::Echo { echo } => PayloadView::Echo { echo: echo@ },
            Payload::EchoOk { echo } => PayloadView::EchoOk { echo: echo@ },
            Payload::Generate => PayloadView::Generate,
            Payload::GenerateOk { id } => PayloadView::GenerateOk { id: id@ },
            Payload::Topology { topology } => PayloadView::Topology { topology: topology@ },
            Payload::TopologyOk => PayloadView::TopologyOk,
            Payload::Broadcast { message } => PayloadView::Broadcast { message },
            Payload::BroadcastOk => PayloadView::BroadcastOk,
            Payload::Read => PayloadView::Read,
            Payload::ReadOk { messages } => PayloadView::ReadOk { messages: messages@ },
            Payload::Gossip { has_seen } => PayloadView::Gossip { has_seen: has_seen@ },
        }
    }
}

impl View for MessageBody {
    type V = BodyView;

    open spec fn view(&self) -> BodyView {
        BodyView {
            msg_id: id_view(self.msg_id),
            in_reply_to: id_view(self.in_reply_to),
            message: self.message@,
        }
    }
}

impl View for Message {
    type V = MessageView;

    open spec fn view(&self) -> MessageView {
        MessageView { src: self.src@, dest: self.dest@, body: self.body@ }
    }
}

/// The identifier a reply carries when the request carried `id`: the next
/// number, and none where the request had none.
pub open spec fn next_id(id: Option<nat>) -> Option<nat> {
    match id {
        Some(n) => Some(n + 1),
        None => None,
    }
}

/// Whether the reply to a request with the identifier `id` can be numbered:
/// the request has none, or one below the largest machine integer.
pub open spec fn has_successor(id: Option<usize>) -> bool {
    id matches Some(n) ==> n < usize::MAX
}

/// The reply to `request` that carries `payload`: it travels the other way,
/// names the request in `in_reply_to`, and has the next identifier.
pub open spec fn reply_to(request: MessageView, payload: PayloadView) -> MessageView {
    MessageView {
        src: request.dest,
        dest: request.src,
        body: BodyView {
            msg_id: next_id(request.body.msg_id),
            in_reply_to: request.body.msg_id,
            message: payload,
        },
    }
}

impl Message {
    /// The envelope that carries `message` from `src` to `dest`.
    pub fn send_message(src: String, dest: String, message: MessageBody) -> (output: Message)
        ensures
            output.src == src,
            output.dest == dest,
            output.body == message,
    {
        Message { src, dest, body: message }
    }

    /// The reply that carries `payload` to a request which came from `src`
    /// to `dest` under the identifier `msg_id`.
    pub fn reply(src: &String, dest: &String, msg_id: Option<usize>, payload: Payload) -> (reply:
        Message)
        requires
            has_successor(msg_id),
        ensures
            reply@.src == dest@,
            reply@.dest == src@,
            reply@.body.msg_id == next_id(id_view(msg_id)),
            reply@.body.in_reply_to == id_view(msg_id),
            reply.body.message == payload,
    {
        let next = match msg_id {
            Some(id) => Some(id + 1),
            None => None,
        };
        Self::send_message(
            dest.clone(),
            src.clone(),
            MessageBody { msg_id: next, in_reply_to: msg_id, message: payload },
        )
    }

    /// Whether a reply to this message can be numbered.
    pub open spec fn can_reply(&self) -> bool {
        has_successor(self.body.msg_id)
    }

    /// The reply to this message that carries `payload`.
    pub fn send(&self, payload: Payload) -> (reply: Message)
        requires
            self.can_reply(),
        ensures
            reply@ == reply_to(self@, payload@),
            reply.body.message == payload,
    {
        Self::reply(&self.src, &self.dest, self.body.msg_id, payload)
    }
}

} // verus!
