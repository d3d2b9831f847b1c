use gossip_node::event_loop::{EventLoop, Input, LoopState};
use gossip_node::message::{Message, MessageBody, Payload};
use gossip_node::node::Event;
use std::collections::HashSet;

fn message(src: &str, msg_id: Option<usize>, message: Payload) -> Input {
    Input::Event(Event::TransportMessage(Message {
        src: src.to_string(),
        dest: "n1".to_string(),
        body: MessageBody { msg_id, in_reply_to: None, message },
    }))
}

fn tick() -> Input {
    Input::Event(Event::Gossip)
}

#[test]
fn a_new_loop_is_idle() {
    let event_loop = EventLoop::new();
    assert_eq!(event_loop.state(), LoopState::Idle);
    assert!(event_loop.node().messages().is_empty());
    assert_eq!(event_loop.node().node_id(), None);
}

#[test]
fn an_idle_loop_takes_nothing() {
    let mut event_loop = EventLoop::new();
    let out = event_loop.handle(message("c1", Some(1), Payload::Broadcast { message: 4 }));
    assert!(out.is_empty());
    assert!(event_loop.node().messages().is_empty());
    assert!(event_loop.handle(Input::Closed).is_empty());
    assert_eq!(event_loop.state(), LoopState::Idle);
}

#[test]
fn start_moves_an_idle_loop_to_running_and_no_other() {
    let mut event_loop = EventLoop::new();
    event_loop.start();
    assert_eq!(event_loop.state(), LoopState::Running);
    event_loop.start();
    assert_eq!(event_loop.state(), LoopState::Running);
    event_loop.handle(Input::Closed);
    assert_eq!(event_loop.state(), LoopState::Terminated);
    event_loop.start();
    assert_eq!(event_loop.state(), LoopState::Terminated);
}

#[test]
fn a_running_loop_answers_and_gossips() {
    let mut event_loop = EventLoop::new();
    event_loop.start();
    let out = event_loop.handle(message(
        "c1",
        Some(1),
        Payload::Init { node_id: "n1".to_string(), node_ids: vec!["n1".to_string()] },
    ));
    assert_eq!(out.len(), 1);
    assert_eq!(out[0].body.message, Payload::InitOk);
    let out = event_loop.handle(message("c1", Some(2), Payload::Broadcast { message: 4 }));
    assert_eq!(
        out,
        vec![Message {
            src: "n1".to_string(),
            dest: "c1".to_string(),
            body: MessageBody {
                msg_id: Some(3),
                in_reply_to: Some(2),
                message: Payload::BroadcastOk
            },
        }]
    );
    let seen: HashSet<usize> = [5].into_iter().collect();
    let out = event_loop.handle(message("n2", None, Payload::Gossip { has_seen: seen }));
    assert!(out.is_empty());
    let expected: HashSet<usize> = [4, 5].into_iter().collect();
    assert_eq!(event_loop.node().messages(), &expected);
    assert_eq!(event_loop.state(), LoopState::Running);
}

#[test]
fn ticks_never_end_the_loop() {
    let mut event_loop = EventLoop::new();
    event_loop.start();
    for _ in 0..10 {
        assert!(event_loop.handle(tick()).is_empty());
        assert_eq!(event_loop.state(), LoopState::Running);
    }
}

#[test]
fn closing_the_input_ends_the_loop_for_good() {
    let mut event_loop = EventLoop::new();
    event_loop.start();
    event_loop.handle(message("c1", Some(1), Payload::Broadcast { message: 4 }));
    assert!(event_loop.handle(Input::Closed).is_empty());
    assert_eq!(event_loop.state(), LoopState::Terminated);
    let out = event_loop.handle(message("c1", Some(2), Payload::Broadcast { message: 5 }));
    assert!(out.is_empty());
    assert!(event_loop.handle(tick()).is_empty());
    assert!(event_loop.handle(Input::Closed).is_empty());
    assert_eq!(event_loop.state(), LoopState::Terminated);
    let expected: HashSet<usize> = [4].into_iter().collect();
    assert_eq!(event_loop.node().messages(), &expected);
}

#[test]
fn the_loop_tells_what_it_can_take() {
    let mut event_loop = EventLoop::new();
    assert!(event_loop.can_handle(&message("c1", Some(1), Payload::Generate)));
    event_loop.start();
    assert!(!event_loop.can_handle(&message("c1", Some(1), Payload::Generate)));
    assert!(!event_loop.can_handle(&message("c1", Some(usize::MAX), Payload::Read)));
    assert!(event_loop.can_handle(&message("c1", Some(1), Payload::Read)));
    assert!(event_loop.can_handle(&tick()));
    assert!(event_loop.can_handle(&Input::Closed));
    event_loop.handle(Input::Closed);
    assert!(event_loop.can_handle(&message("c1", Some(1), Payload::Generate)));
}
