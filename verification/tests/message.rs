use gossip_node::message::{Message, MessageBody, Payload};

fn echo_request(msg_id: Option<usize>) -> Message {
    Message {
        src: "c1".to_string(),
        dest: "n1".to_string(),
        body: MessageBody {
            msg_id,
            in_reply_to: None,
            message: Payload::Echo { echo: "Please echo 35".to_string() },
        },
    }
}

#[test]
fn send_message_builds_the_envelope() {
    let output = Message::send_message(
        "n1".to_string(),
        "c1".to_string(),
        MessageBody { msg_id: Some(1), in_reply_to: Some(1), message: Payload::InitOk },
    );
    assert_eq!(output.src, "n1");
    assert_eq!(output.dest, "c1");
    assert_eq!(
        output.body,
        MessageBody { msg_id: Some(1), in_reply_to: Some(1), message: Payload::InitOk }
    );
}

#[test]
fn send_swaps_the_ends_and_numbers_the_reply() {
    let reply = echo_request(Some(1)).send(Payload::EchoOk { echo: "Please echo 35".to_string() });
    let expected = Message {
        src: "n1".to_string(),
        dest: "c1".to_string(),
        body: MessageBody {
            msg_id: Some(2),
            in_reply_to: Some(usize::MIN + 1),
            message: Payload::EchoOk { echo: "Please echo 35".to_string() },
        },
    };
    assert_eq!(reply, expected);
}

#[test]
fn send_to_a_request_without_identifier_has_none_either() {
    let reply = echo_request(None).send(Payload::InitOk);
    assert_eq!(reply.body.msg_id, None);
    assert_eq!(reply.body.in_reply_to, None);
    assert_eq!(reply.src, "n1");
    assert_eq!(reply.dest, "c1");
}

#[test]
fn send_correlates_with_request_five() {
    let reply = echo_request(Some(5)).send(Payload::BroadcastOk);
    assert_eq!(reply.body.in_reply_to, Some(5));
    assert_eq!(reply.body.msg_id, Some(6));
    assert_eq!(reply.src, "n1");
    assert_eq!(reply.dest, "c1");
    assert_eq!(reply.body.message, Payload::BroadcastOk);
}

#[test]
fn reply_answers_the_sender() {
    let reply = Message::reply(&"c9".to_string(), &"n3".to_string(), Some(0), Payload::TopologyOk);
    assert_eq!(
        reply,
        Message {
            src: "n3".to_string(),
            dest: "c9".to_string(),
            body: MessageBody {
                msg_id: Some(1),
                in_reply_to: Some(0),
                message: Payload::TopologyOk
            },
        }
    );
}

#[test]
fn send_numbers_up_to_the_largest_integer() {
    let reply = echo_request(Some(usize::MAX - 1)).send(Payload::InitOk);
    assert_eq!(reply.body.msg_id, Some(usize::MAX));
    assert_eq!(reply.body.in_reply_to, Some(usize::MAX - 1));
}

#[test]
fn messages_compare_by_value() {
    assert_eq!(echo_request(Some(1)), echo_request(Some(1)));
    assert_ne!(echo_request(Some(1)), echo_request(Some(2)));
    assert_ne!(Payload::Read, Payload::Generate);
    assert_eq!(
        Payload::Gossip { has_seen: [1, 2, 3].into_iter().collect() },
        Payload::Gossip { has_seen: [3, 2, 1].into_iter().collect() }
    );
}
