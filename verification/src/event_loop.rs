use crate::message::Message;
use crate::model::{after_event, can_receive, expects_reply, is_reply, EventView, NodeState};
use crate::node::{is_gossip_round, Event, Node};
use vstd::prelude::*;

verus! {

/// The life of the event loop: it waits to be started, then handles events
/// until its input is closed.
#[derive(Debug, Clone, Copy, PartialEq, Eq, Structural)]
pub enum LoopState {
    Idle,
    Running,
    Terminated,
}

/// What the merged sources hand to the loop.
#[derive(Debug)]
pub enum Input {
    /// A message from the transport, or a tick of the timer.
    Event(Event),
    /// The transport's input is exhausted, or a line of it could not be
    /// read or decoded.
    Closed,
}

/// The mathematical content of an [`Input`].
pub enum InputView {
    Event(EventView),
    Closed,
}

impl View for Input {
    type V = InputView;

    open spec fn view(&self) -> InputView {
        match *self {
            Input::Event(event) => InputView::Event(event@),
            Input::Closed => InputView::Closed,
        }
    }
}

/// The loop as mathematics: the state of its node and where it is in its
/// life.
#[verifier::ext_equal]
pub struct LoopView {
    pub node: NodeState,
    pub state: LoopState,
}

/// The loop after `input`. Only a running loop takes input: an event goes
/// to the node, and the closing of the input ends the loop.
pub open spec fn after_input(l: LoopView, input: InputView) -> LoopView {
    match (l.state, input) {
        (LoopState::Running, InputView::Event(event)) => LoopView {
            node: after_event(l.node, event),
            state: LoopState::Running,
        },
        (LoopState::Running, InputView::Closed) => LoopView {
            node: l.node,
            state: LoopState::Terminated,
        },
        _ => l,
    }
}

/// A node together with the state of the loop that drives it.
#[derive(Debug)]
pub struct EventLoop {
    node: Node,
    state: LoopState,
}

impl View for EventLoop {
    type V = LoopView;

    closed spec fn view(&self) -> LoopView {
        LoopView { node: self.node@, state: self.state }
    }
}

impl EventLoop {
    /// An idle loop around a node that has received nothing yet.
    pub fn new() -> (event_loop: Self)
        ensures
            event_loop@ == (LoopView { node: crate::model::initial(), state: LoopState::Idle }),
    {
        EventLoop { node: Node::new(), state: LoopState::Idle }
    }

    /// Starts an idle loop; a loop that runs or has ended stays as it is.
    pub fn start(&mut self)
        ensures
            final(self)@.node == old(self)@.node,
            final(self)@.state == if old(self)@.state == LoopState::Idle {
                LoopState::Running
            } else {
                old(self)@.state
            },
    {
        match self.state {
            LoopState::Idle => {
                self.state = LoopState::Running;
            },
            _ => {},
        }
    }

    /// Where the loop is in its life.
    pub fn state(&self) -> (state: LoopState)
        ensures
            state == self@.state,
    {
        self.state
    }

    /// The node that the loop drives.
    pub fn node(&self) -> (node: &Node)
        ensures
            node@ == self@.node,
    {
        &self.node
    }

    /// Whether the loop can take `input`: a running loop hands a message
    /// to its node, which has to accept it.
    pub open spec fn accepts(&self, input: &Input) -> bool {
        self@.state == LoopState::Running ==> (input@ matches InputView::Event(
            EventView::TransportMessage(message),
        ) ==> can_receive(self@.node, message))
    }

    /// Tests whether the loop can take `input`.
    pub fn can_handle(&self, input: &Input) -> (ok: bool)
        ensures
            ok == self.accepts(input),
    {
        match self.state {
            LoopState::Running => match input {
                Input::Event(Event::TransportMessage(msg)) => self.node.can_handle(msg),
                _ => true,
            },
            _ => true,
        }
    }

    /// Takes one input and returns the envelopes to write, in the order in
    /// which they are to be written. A loop that does not run writes
    /// nothing.
    pub fn handle(&mut self, input: Input) -> (out: Vec<Message>)
        requires
            old(self).accepts(&input),
        ensures
            final(self)@ == after_input(old(self)@, input@),
            match input {
                Input::Event(Event::TransportMessage(msg)) if old(self)@.state
                    == LoopState::Running => if expects_reply(msg@.body.message) {
                    out.len() == 1 && is_reply(old(self)@.node, msg@, out[0]@)
                } else {
                    out.len() == 0
                },
                Input::Event(Event::Gossip) if old(self)@.state == LoopState::Running => {
                    is_gossip_round(old(self)@.node, out@)
                },
                _ => out.len() == 0,
            },
    {
        match self.state {
            LoopState::Running => match input {
                Input::Event(event) => self.node.step(event),
                Input::Closed => {
                    self.state = LoopState::Terminated;
                    Vec::new()
                },
            },
            _ => Vec::new(),
        }
    }
}

} // verus!
