use crate::event_loop::{after_input, InputView, LoopState, LoopView};
use crate::message::{MessageView, PayloadView};
use crate::model::{
    after_event, after_events, after_recv, answers, is_gossip, is_reply, neighbors,
    owes_gossip, seen_by, EventView, NodeState,
};
use crate::selector::{has_news, lemma_selection_empty_iff_no_news, valid_selection};
use vstd::prelude::*;

verus! {

/// Receiving a message never removes a value from the store.
pub proof fn lemma_recv_keeps_values(s: NodeState, message: MessageView)
    ensures
        s.values.subset_of(after_recv(s, message).values),
{
}

/// No event removes a value from the store.
pub proof fn lemma_event_keeps_values(s: NodeState, event: EventView)
    ensures
        s.values.subset_of(after_event(s, event).values),
{
}

/// The store only grows: of two moments in a run of events, the later one
/// holds every value that the earlier one held.
pub proof fn lemma_values_only_grow(s: NodeState, events: Seq<EventView>, earlier: int, later: int)
    requires
        0 <= earlier <= later <= events.len(),
    ensures
        after_events(s, events.take(earlier)).values.subset_of(
            after_events(s, events.take(later)).values,
        ),
    decreases later - earlier,
{
    if earlier < later {
        lemma_values_only_grow(s, events, earlier, later - 1);
        let longer = events.take(later);
        assert(longer.drop_last() =~= events.take(later - 1));
        lemma_event_keeps_values(after_events(s, events.take(later - 1)), longer.last());
    }
}

/// Broadcasting a value a second time changes nothing, and both requests
/// are answered with `BroadcastOk` and nothing else.
pub proof fn lemma_broadcast_is_idempotent(
    s: NodeState,
    first: MessageView,
    second: MessageView,
    value: usize,
)
    requires
        first.body.message == (PayloadView::Broadcast { message: value }),
        second.body.message == (PayloadView::Broadcast { message: value }),
    ensures
        after_recv(after_recv(s, first), second) == after_recv(s, first),
        after_recv(s, first).values == s.values.insert(value),
        forall|r: PayloadView|
            answers(s, first.body.message, r) <==> r == PayloadView::BroadcastOk,
        forall|r: PayloadView|
            answers(after_recv(s, first), second.body.message, r) <==> r
                == PayloadView::BroadcastOk,
{
    assert(after_recv(after_recv(s, first), second) =~= after_recv(s, first));
}

/// The values that a sequence of broadcast requests carries.
pub open spec fn broadcasts(events: Seq<EventView>, values: Seq<usize>) -> bool {
    &&& events.len() == values.len()
    &&& forall|i: int|
        0 <= i < events.len() ==> (#[trigger] events[i] matches EventView::TransportMessage(m)
            && m.body.message == (PayloadView::Broadcast { message: values[i] }))
}

/// A read returns the store: after the values of `values` have been
/// broadcast to a node that held `s.values`, the one answer to a read is
/// the set of those and these values.
pub proof fn lemma_read_reflects_store(
    s: NodeState,
    events: Seq<EventView>,
    values: Seq<usize>,
    response: PayloadView,
)
    requires
        broadcasts(events, values),
    ensures
        after_events(s, events).values == s.values.union(values.to_set()),
        answers(after_events(s, events), PayloadView::Read, response) <==> response == (
            PayloadView::ReadOk { messages: s.values.union(values.to_set()) }),
    decreases events.len(),
{
    if events.len() == 0 {
        assert(values.to_set() =~= Set::<usize>::empty());
        assert(s.values.union(values.to_set()) =~= s.values);
    } else {
        let front = events.drop_last();
        let shorter = values.drop_last();
        assert(broadcasts(front, shorter));
        lemma_read_reflects_store(s, front, shorter, response);
        assert(events.last() == events[events.len() - 1]);
        assert(values =~= shorter.push(values.last()));
        shorter.lemma_push_to_set_commute(values.last());
        assert(after_events(s, events).values =~= s.values.union(values.to_set()));
    }
}

/// Receiving gossip adds the reported values to the store and replaces the
/// sender's earlier report; nothing else changes and nothing is sent back.
pub proof fn lemma_gossip_unions_and_replaces(s: NodeState, message: MessageView)
    requires
        message.body.message is Gossip,
    ensures
        after_recv(s, message).values == s.values.union(message.body.message->has_seen),
        seen_by(after_recv(s, message), message.src) == message.body.message->has_seen,
        forall|n: Seq<char>|
            n != message.src ==> seen_by(after_recv(s, message), n) == #[trigger] seen_by(s, n),
        after_recv(s, message).identity == s.identity,
        after_recv(s, message).topology == s.topology,
        forall|r: MessageView| !is_reply(s, message, r),
{
}

/// Where there is no news for a neighbour, no gossip push to it is valid:
/// every value is acknowledged and the redundancy sample is empty.
pub proof fn lemma_no_gossip_without_news(s: NodeState, envelope: MessageView)
    requires
        s.values.finite(),
        !has_news(s.values, seen_by(s, envelope.dest)),
    ensures
        !is_gossip(s, envelope),
{
    if is_gossip(s, envelope) {
        lemma_selection_empty_iff_no_news(
            s.values,
            seen_by(s, envelope.dest),
            envelope.body.message->has_seen,
        );
    }
}

/// A gossip push to a neighbour that has reported nothing yet (or nothing
/// at all) carries the whole store.
pub proof fn lemma_first_contact_sends_everything(s: NodeState, envelope: MessageView)
    requires
        is_gossip(s, envelope),
        seen_by(s, envelope.dest) == Set::<usize>::empty(),
    ensures
        envelope.body.message->has_seen == s.values,
{
    assert(envelope.body.message->has_seen =~= s.values);
}

/// A gossip push carries every value that its receiver has not reported,
/// and only values of the store.
pub proof fn lemma_gossip_covers_unseen(s: NodeState, envelope: MessageView)
    requires
        is_gossip(s, envelope),
    ensures
        s.values.difference(seen_by(s, envelope.dest)).subset_of(envelope.body.message->has_seen),
        envelope.body.message->has_seen.subset_of(s.values),
{
}

/// A delivered gossip push leaves its receiver with every value that the
/// sender held and the receiver had not reported, and records what was
/// pushed as the sender's report.
pub proof fn lemma_delivered_gossip_spreads(
    sender: NodeState,
    receiver: NodeState,
    envelope: MessageView,
)
    requires
        is_gossip(sender, envelope),
    ensures
        sender.values.difference(seen_by(sender, envelope.dest)).subset_of(
            after_recv(receiver, envelope).values,
        ),
        seen_by(after_recv(receiver, envelope), envelope.src).subset_of(sender.values),
        seen_by(sender, envelope.dest) == Set::<usize>::empty() ==> sender.values.subset_of(
            after_recv(receiver, envelope).values,
        ),
{
}

/// A reply names the request it answers and travels the other way.
pub proof fn lemma_reply_correlation(s: NodeState, request: MessageView, reply: MessageView)
    requires
        is_reply(s, request, reply),
    ensures
        reply.body.in_reply_to == request.body.msg_id,
        reply.src == request.dest,
        reply.dest == request.src,
        request.body.msg_id is Some ==> reply.body.msg_id == Some(
            (request.body.msg_id->0 + 1) as nat,
        ),
{
}

/// After a topology message, the node gossips with exactly the nodes that
/// the message lists for it, and with nobody else.
pub proof fn lemma_gossip_stays_in_topology(
    s: NodeState,
    message: MessageView,
    envelope: MessageView,
)
    requires
        message.body.message is Topology,
        is_gossip(after_recv(s, message), envelope),
    ensures
        s.identity is Some,
        message.body.message->topology.contains_key(s.identity->0.node_id),
        message.body.message->topology[s.identity->0.node_id].contains(envelope.dest),
{
}

/// Before the handshake, and without an entry of its own in the topology,
/// a node gossips with nobody.
pub proof fn lemma_no_gossip_without_neighbors(s: NodeState, envelope: MessageView)
    requires
        s.identity is None || !s.topology.contains_key(s.identity->0.node_id),
    ensures
        !is_gossip(s, envelope),
        !owes_gossip(s, envelope.dest),
        neighbors(s) == Set::<Seq<char>>::empty(),
{
}

/// The handshake assigns the identity once: a second one changes nothing.
pub proof fn lemma_first_init_wins(s: NodeState, first: MessageView, second: MessageView)
    requires
        first.body.message is Init,
        second.body.message is Init,
    ensures
        after_recv(after_recv(s, first), second) == after_recv(s, first),
        after_recv(s, first).identity is Some,
{
}

/// The loop ends only when its input is closed while it runs: no event,
/// and so no tick of the timer, ends it.
pub proof fn lemma_only_closing_ends_the_loop(l: LoopView, input: InputView)
    requires
        l.state != LoopState::Terminated,
    ensures
        after_input(l, input).state == LoopState::Terminated <==> l.state == LoopState::Running
            && input is Closed,
        input is Event ==> after_input(l, input).state == l.state,
{
}

/// A loop that has ended stays as it is, whatever it is handed.
pub proof fn lemma_an_ended_loop_stays(l: LoopView, input: InputView)
    requires
        l.state == LoopState::Terminated,
    ensures
        after_input(l, input) == l,
{
}

/// No input removes a value from the store of the loop's node.
pub proof fn lemma_input_keeps_values(l: LoopView, input: InputView)
    ensures
        l.node.values.subset_of(after_input(l, input).node.values),
{
}

} // verus!
