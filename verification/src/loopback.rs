//! A transport within one process, for tests and examples.
//!
//! Two transports are joined by a queue each way: what one sends, the other reports as events.

use vstd::prelude::*;

use crate::channel::{try_send, unbounded_queue, waiting, Inbox, SendOutcome};
use crate::error::{CoreError, CoreResult};
use crate::ids::PeerId;
use crate::messages::{ControlMsg, TransportEvent};
use crate::model::{DataFrame, NetworkType};

verus! {

/// What passes between two joined transports.
#[derive(Debug)]
pub enum LoopbackMsg {
    Data(DataFrame),
    /// A control message and its sender.
    Control(ControlMsg, PeerId),
    NetworkChanged { online: bool, net_type: NetworkType },
    Reconnect,
}

/// One of two joined transports.
pub struct LoopbackTransport {
    tx: crossbeam_channel::Sender<LoopbackMsg>,
    inbox: Inbox<LoopbackMsg>,
    local_peer_id: PeerId,
}

/// The peer in whose name a control message speaks, where it names one.
pub open spec fn named_peer(msg: ControlMsg) -> Option<PeerId> {
    match msg {
        ControlMsg::Capabilities(m) => Some(m.peer_id),
        ControlMsg::KnownCheckpoint { peer_id, .. } => Some(peer_id),
        ControlMsg::AckSummary(m) => Some(m.peer_id),
        ControlMsg::NeedRanges(_) => None,
        ControlMsg::SyncIntent { peer_id, .. } => Some(peer_id),
        ControlMsg::TransportHints(m) => Some(m.peer_id),
        ControlMsg::RelayHints(m) => Some(m.peer_id),
        ControlMsg::Introduce(m) => Some(m.introducer),
        ControlMsg::Revoke(m) => Some(m.revoker),
        ControlMsg::KeyRotate(m) => Some(m.peer_id),
    }
}

/// The event that a message becomes; a request to reconnect becomes none.
pub open spec fn event_of(msg: LoopbackMsg) -> Option<TransportEvent> {
    match msg {
        LoopbackMsg::Data(frame) => Some(
            TransportEvent::Data { peer_id: frame.actor_id, frame },
        ),
        LoopbackMsg::Control(msg, sender) => Some(
            TransportEvent::Control {
                peer_id: match named_peer(msg) {
                    Some(p) => p,
                    None => sender,
                },
                msg,
            },
        ),
        LoopbackMsg::NetworkChanged { online, .. } => Some(
            TransportEvent::NetworkChanged { online },
        ),
        LoopbackMsg::Reconnect => None,
    }
}

/// The events that messages become, in order.
pub open spec fn events_of(msgs: Seq<LoopbackMsg>) -> Seq<TransportEvent>
    decreases msgs.len(),
{
    if msgs.len() == 0 {
        Seq::empty()
    } else {
        match event_of(msgs.last()) {
            Some(e) => events_of(msgs.drop_last()).push(e),
            None => events_of(msgs.drop_last()),
        }
    }
}

/// The peer in whose name a control message speaks, where it names one.
pub fn extract_peer_id(msg: &ControlMsg) -> (r: Option<PeerId>)
    ensures
        r == named_peer(*msg),
{
    match msg {
        ControlMsg::Capabilities(m) => Some(m.peer_id.clone()),
        ControlMsg::KnownCheckpoint { peer_id, .. } => Some(peer_id.clone()),
        ControlMsg::AckSummary(m) => Some(m.peer_id.clone()),
        ControlMsg::NeedRanges(_) => None,
        ControlMsg::SyncIntent { peer_id, .. } => Some(peer_id.clone()),
        ControlMsg::TransportHints(m) => Some(m.peer_id.clone()),
        ControlMsg::RelayHints(m) => Some(m.peer_id.clone()),
        ControlMsg::Introduce(m) => Some(m.introducer.clone()),
        ControlMsg::Revoke(m) => Some(m.revoker.clone()),
        ControlMsg::KeyRotate(m) => Some(m.peer_id.clone()),
    }
}

/// The event that a message becomes.
pub fn to_event(msg: LoopbackMsg) -> (r: Option<TransportEvent>)
    ensures
        r == event_of(msg),
{
    match msg {
        LoopbackMsg::Data(frame) => Some(
            TransportEvent::Data { peer_id: frame.actor_id.clone(), frame },
        ),
        LoopbackMsg::Control(msg, sender) => {
            let peer_id = match extract_peer_id(&msg) {
                Some(p) => p,
                None => sender,
            };
            Some(TransportEvent::Control { peer_id, msg })
        },
        LoopbackMsg::NetworkChanged { online, net_type: _ } => Some(
            TransportEvent::NetworkChanged { online },
        ),
        LoopbackMsg::Reconnect => None,
    }
}

/// The events that messages become, in order.
pub fn events_from(msgs: Vec<LoopbackMsg>) -> (r: Vec<TransportEvent>)
    ensures
        r@ == events_of(msgs@),
{
    let ghost all = msgs@;
    let mut forward = msgs;
    let mut rest: Vec<LoopbackMsg> = Vec::new();
    // Turn the list round, so that messages can be taken from its end.
    while forward.len() > 0
        invariant
            forward@ + rest@.reverse() == all,
        decreases forward@.len(),
    {
        let ghost f0 = forward@;
        let ghost r0 = rest@;
        let msg = forward.pop().unwrap();
        rest.push(msg);
        assert(f0 =~= forward@.push(msg));
        assert(forward@ + rest@.reverse() =~= f0 + r0.reverse());
    }
    assert(rest@.reverse() =~= all);
    let mut events: Vec<TransportEvent> = Vec::new();
    let ghost mut done: int = 0;
    assert(all.take(0) =~= Seq::<LoopbackMsg>::empty());
    while rest.len() > 0
        invariant
            0 <= done,
            done + rest@.len() == all.len(),
            forall|i: int| 0 <= i < rest@.len() ==> #[trigger] rest@[i] == all[all.len() - 1 - i],
            events@ == events_of(all.take(done)),
        decreases rest@.len(),
    {
        let msg = rest.pop().unwrap();
        proof {
            assert(msg == all[done]);
            assert(all.take(done + 1).drop_last() =~= all.take(done));
            assert(all.take(done + 1).last() == msg);
            done = done + 1;
        }
        if let Some(event) = to_event(msg) {
            events.push(event);
        }
    }
    assert(all.take(done) =~= all);
    events
}

/// Messages as a queue gave them.
pub open spec fn given_as(msgs: Seq<LoopbackMsg>) -> Seq<Option<LoopbackMsg>> {
    msgs.map_values(|m: LoopbackMsg| Some(m))
}

/// Whether `r` is what a send with this outcome leads to: it fails exactly where the message was
/// not taken.
pub open spec fn is_send_result(outcome: SendOutcome<LoopbackMsg>, r: CoreResult<()>) -> bool {
    match outcome {
        SendOutcome::Sent => r is Ok,
        _ => r matches Err(CoreError::Internal(m)) && m@ == "loopback channel 已关闭"@,
    }
}

/// What a send with this outcome leads to.
pub fn send_result(outcome: SendOutcome<LoopbackMsg>) -> (r: CoreResult<()>)
    ensures
        is_send_result(outcome, r),
{
    match outcome {
        SendOutcome::Sent => Ok(()),
        _ => Err(CoreError::Internal("loopback channel 已关闭".to_owned())),
    }
}

impl LoopbackTransport {
    /// The peer that this transport belongs to.
    pub closed spec fn local(&self) -> PeerId {
        self.local_peer_id
    }

    /// What the incoming queue gave, in the order in which it was asked: messages, and nothing
    /// where none was waiting.
    pub closed spec fn given(&self) -> Seq<Option<LoopbackMsg>> {
        self.inbox.given()
    }

    /// Whether two transports hold the same ends of the same queues, for the same peer.
    pub closed spec fn same_place(&self, other: &LoopbackTransport) -> bool {
        &&& self.tx == other.tx
        &&& self.inbox.end() == other.inbox.end()
        &&& self.local_peer_id == other.local_peer_id
    }

    /// Whether what this transport sends comes out at `other`: they hold the two ends of one
    /// queue.
    pub closed spec fn leads_to(&self, other: LoopbackTransport) -> bool {
        call_ensures(unbounded_queue::<LoopbackMsg>, (), (self.tx, other.inbox.end()))
    }

    /// Whether a message was handed to the outgoing queue with this outcome.
    pub closed spec fn handed(&self, msg: LoopbackMsg, outcome: SendOutcome<LoopbackMsg>) -> bool {
        call_ensures(try_send::<LoopbackMsg>, (&self.tx, msg), outcome)
    }

    /// Whether the incoming queue told that this many messages were waiting.
    pub closed spec fn told(&self, count: usize) -> bool {
        call_ensures(waiting::<LoopbackMsg>, (&self.inbox.end(),), count)
    }

    /// Whether the incoming queue gave `msgs` and then nothing, which left the transport as
    /// `after`. After as many messages as can be counted it is not asked again.
    pub open spec fn drained(&self, msgs: Seq<LoopbackMsg>, after: LoopbackTransport) -> bool {
        after.given() == self.given() + (if msgs.len() < usize::MAX {
            given_as(msgs).push(None)
        } else {
            given_as(msgs)
        })
    }

    /// Two joined transports.
    pub fn pair_with_ids(peer_a: PeerId, peer_b: PeerId) -> (r: (Self, Self))
        ensures
            r.0.local() == peer_a,
            r.1.local() == peer_b,
            r.0.leads_to(r.1),
            r.1.leads_to(r.0),
            r.0.given() == Seq::<Option<LoopbackMsg>>::empty(),
            r.1.given() == Seq::<Option<LoopbackMsg>>::empty(),
    {
        let (tx_a, rx_b) = unbounded_queue();
        let (tx_b, rx_a) = unbounded_queue();
        let a = LoopbackTransport { tx: tx_a, inbox: Inbox::new(rx_a), local_peer_id: peer_a };
        let b = LoopbackTransport { tx: tx_b, inbox: Inbox::new(rx_b), local_peer_id: peer_b };
        (a, b)
    }

    /// The events of all messages that are waiting, in the order in which they come out. Messages
    /// are taken until none is waiting, or as many were taken as can be counted.
    pub fn drain_events(&mut self) -> (r: Vec<TransportEvent>)
        ensures
            final(self).same_place(old(self)),
            exists|msgs: Seq<LoopbackMsg>| #[trigger]
                old(self).drained(msgs, *final(self)) && r@ == events_of(msgs),
    {
        let mut msgs: Vec<LoopbackMsg> = Vec::new();
        let mut left: usize = usize::MAX;
        assert(given_as(msgs@) =~= Seq::<Option<LoopbackMsg>>::empty());
        assert(self.given() =~= old(self).given() + given_as(msgs@));
        while left > 0
            invariant_except_break
                self.given() == old(self).given() + given_as(msgs@),
                msgs@.len() + left == usize::MAX,
            invariant
                self.same_place(old(self)),
            ensures
                old(self).drained(msgs@, *self),
            decreases left,
        {
            left = left - 1;
            let ghost before = msgs@;
            match self.inbox.take() {
                Some(msg) => {
                    msgs.push(msg);
                    assert(given_as(msgs@) =~= given_as(before).push(Some(msg)));
                    assert(self.given() =~= old(self).given() + given_as(msgs@));
                },
                None => {
                    assert(self.given() =~= old(self).given() + given_as(msgs@).push(None));
                    break;
                },
            }
        }
        let ghost taken = msgs@;
        let events = events_from(msgs);
        assert(old(self).drained(taken, *self));
        events
    }

    /// Whether messages are waiting.
    pub fn has_pending(&self) -> (r: bool)
        ensures
            exists|count: usize| #[trigger] self.told(count) && r == (count > 0),
    {
        let count: usize = self.inbox.waiting();
        assert(self.told(count));
        count > 0
    }

    /// Sends a data frame.
    pub fn send_data(&self, frame: DataFrame) -> (r: CoreResult<()>)
        ensures
            exists|outcome: SendOutcome<LoopbackMsg>| #[trigger]
                self.handed(LoopbackMsg::Data(frame), outcome) && is_send_result(outcome, r),
    {
        let msg = LoopbackMsg::Data(frame);
        let outcome = try_send(&self.tx, msg);
        assert(self.handed(msg, outcome));
        send_result(outcome)
    }

    /// Sends a control message in the name of the local peer.
    pub fn send_control(&self, msg: ControlMsg) -> (r: CoreResult<()>)
        ensures
            exists|outcome: SendOutcome<LoopbackMsg>| #[trigger]
                self.handed(LoopbackMsg::Control(msg, self.local()), outcome) && is_send_result(
                    outcome,
                    r,
                ),
    {
        let msg = LoopbackMsg::Control(msg, self.local_peer_id.clone());
        let outcome = try_send(&self.tx, msg);
        assert(self.handed(msg, outcome));
        send_result(outcome)
    }

    /// Asks the other transport to reconnect. That it may be gone does not matter.
    pub fn reconnect_peer(&self) -> (r: CoreResult<()>)
        ensures
            r is Ok,
            exists|outcome: SendOutcome<LoopbackMsg>| #[trigger]
                self.handed(LoopbackMsg::Reconnect, outcome),
    {
        let outcome = try_send(&self.tx, LoopbackMsg::Reconnect);
        assert(self.handed(LoopbackMsg::Reconnect, outcome));
        Ok(())
    }

    /// Tells the other transport of a change of network. That it may be gone does not matter.
    pub fn notify_network_changed(&self, online: bool, net_type: NetworkType) -> (r: CoreResult<()>)
        ensures
            r is Ok,
            exists|outcome: SendOutcome<LoopbackMsg>| #[trigger]
                self.handed(LoopbackMsg::NetworkChanged { online, net_type }, outcome),
    {
        let msg = LoopbackMsg::NetworkChanged { online, net_type };
        let outcome = try_send(&self.tx, msg);
        assert(self.handed(msg, outcome));
        Ok(())
    }
}

/// Data frames that come out of the queue are reported all, once each, in their order and in the
/// name of their senders, whatever comes before them.
pub proof fn law_frames_are_reported(before: Seq<LoopbackMsg>, frames: Seq<DataFrame>)
    ensures
        events_of(before + frames.map_values(|f: DataFrame| LoopbackMsg::Data(f))) == events_of(
            before,
        ) + frames.map_values(
            |f: DataFrame| TransportEvent::Data { peer_id: f.actor_id, frame: f },
        ),
    decreases frames.len(),
{
    let msgs = frames.map_values(|f: DataFrame| LoopbackMsg::Data(f));
    let events = frames.map_values(
        |f: DataFrame| TransportEvent::Data { peer_id: f.actor_id, frame: f },
    );
    if frames.len() == 0 {
        assert(before + msgs =~= before);
        assert(events_of(before) + events =~= events_of(before));
    } else {
        let front = frames.drop_last();
        law_frames_are_reported(before, front);
        let front_msgs = front.map_values(|f: DataFrame| LoopbackMsg::Data(f));
        let front_events = front.map_values(
            |f: DataFrame| TransportEvent::Data { peer_id: f.actor_id, frame: f },
        );
        assert((before + msgs).drop_last() =~= before + front_msgs);
        assert((before + msgs).last() == LoopbackMsg::Data(frames.last()));
        assert(events_of(before) + events =~= (events_of(before) + front_events).push(
            TransportEvent::Data { peer_id: frames.last().actor_id, frame: frames.last() },
        ));
    }
}

/// What is sent is handed to the queue that leads to the other side, control messages in the name of the
/// local peer; sending fails just where the queue did not take it.
pub proof fn law_sending_hands_over(
    transport: &LoopbackTransport,
    frame: DataFrame,
    msg: ControlMsg,
    data_sent: CoreResult<()>,
    control_sent: CoreResult<()>,
)
    requires
        call_ensures(LoopbackTransport::send_data, (transport, frame), data_sent),
        call_ensures(LoopbackTransport::send_control, (transport, msg), control_sent),
    ensures
        data_sent is Ok ==> transport.handed(LoopbackMsg::Data(frame), SendOutcome::Sent),
        data_sent is Err ==> exists|back: SendOutcome<LoopbackMsg>| #[trigger]
            transport.handed(LoopbackMsg::Data(frame), back) && !(back is Sent),
        control_sent is Ok ==> transport.handed(
            LoopbackMsg::Control(msg, transport.local()),
            SendOutcome::Sent,
        ),
        control_sent is Err ==> exists|back: SendOutcome<LoopbackMsg>| #[trigger]
            transport.handed(LoopbackMsg::Control(msg, transport.local()), back) && !(back is Sent),
{
    let a = choose|outcome: SendOutcome<LoopbackMsg>| #[trigger]
        transport.handed(LoopbackMsg::Data(frame), outcome) && is_send_result(outcome, data_sent);
    let b = choose|outcome: SendOutcome<LoopbackMsg>| #[trigger]
        transport.handed(LoopbackMsg::Control(msg, transport.local()), outcome) && is_send_result(
            outcome,
            control_sent,
        );
    assert(transport.handed(LoopbackMsg::Data(frame), a));
    assert(transport.handed(LoopbackMsg::Control(msg, transport.local()), b));
}

/// A send succeeds just where the message was taken.
pub proof fn law_send_fails_where_not_taken(outcome: SendOutcome<LoopbackMsg>, r: CoreResult<()>)
    requires
        call_ensures(send_result, (outcome,), r),
    ensures
        r is Ok <==> outcome is Sent,
        r matches Err(e) ==> e is Internal,
{
}

/// A frame is reported in the name of its author; a control message in the name of the peer that it names,
/// or of its sender where it names none; a change of the network as it was told; and a request to
/// reconnect is not reported.
pub proof fn law_messages_are_reported(
    msg: LoopbackMsg,
    r: Option<TransportEvent>,
    named: Option<PeerId>,
)
    requires
        call_ensures(to_event, (msg,), r),
        msg matches LoopbackMsg::Control(m, _) ==> call_ensures(extract_peer_id, (&m,), named),
    ensures
        r is None <==> msg is Reconnect,
        msg matches LoopbackMsg::Data(f) ==> (r matches Some(TransportEvent::Data { peer_id, frame })
            && peer_id == f.actor_id && frame == f),
        msg matches LoopbackMsg::Control(m, sender) ==> (r matches Some(
            TransportEvent::Control { peer_id, msg: said },
        ) && said == m && peer_id == (match named {
            Some(p) => p,
            None => sender,
        })),
        msg matches LoopbackMsg::NetworkChanged { online, .. } ==> (r matches Some(
            TransportEvent::NetworkChanged { online: told },
        ) && told == online),
{
}

/// Every control message but a request for ranges names the peer that it is from.
pub proof fn law_message_names_its_peer(msg: &ControlMsg, r: Option<PeerId>)
    requires
        call_ensures(extract_peer_id, (msg,), r),
    ensures
        r is None <==> msg is NeedRanges,
        *msg matches ControlMsg::Capabilities(m) ==> r == Some(m.peer_id),
        *msg matches ControlMsg::KnownCheckpoint { peer_id, .. } ==> r == Some(peer_id),
        *msg matches ControlMsg::AckSummary(m) ==> r == Some(m.peer_id),
        *msg matches ControlMsg::SyncIntent { peer_id, .. } ==> r == Some(peer_id),
        *msg matches ControlMsg::TransportHints(m) ==> r == Some(m.peer_id),
        *msg matches ControlMsg::RelayHints(m) ==> r == Some(m.peer_id),
        *msg matches ControlMsg::Introduce(m) ==> r == Some(m.introducer),
        *msg matches ControlMsg::Revoke(m) ==> r == Some(m.revoker),
        *msg matches ControlMsg::KeyRotate(m) ==> r == Some(m.peer_id),
{
}

/// Messages are reported one by one, in the order in which they came out; one that is added is reported
/// last.
pub proof fn law_reports_follow_messages(
    msgs: Vec<LoopbackMsg>,
    more: Vec<LoopbackMsg>,
    last: LoopbackMsg,
    reports: Vec<TransportEvent>,
    more_reports: Vec<TransportEvent>,
    report: Option<TransportEvent>,
)
    requires
        more@ == msgs@.push(last),
        call_ensures(events_from, (msgs,), reports),
        call_ensures(events_from, (more,), more_reports),
        call_ensures(to_event, (last,), report),
    ensures
        msgs@.len() == 0 ==> reports@.len() == 0,
        more_reports@ == (match report {
            Some(e) => reports@.push(e),
            None => reports@,
        }),
{
    assert(more@.drop_last() =~= msgs@);
}

/// Draining takes out what the queue gives and reports all of it, in order.
pub proof fn law_drained_messages_are_reported(
    transport: &mut LoopbackTransport,
    r: Vec<TransportEvent>,
)
    requires
        call_ensures(LoopbackTransport::drain_events, (transport,), r),
    ensures
        exists|msgs: Seq<LoopbackMsg>| #[trigger]
            old(transport).drained(msgs, *final(transport)) && ((forall|i: int|
                0 <= i < msgs.len() ==> !(#[trigger] msgs[i] is Reconnect)) ==> r@.len()
                == msgs.len() && forall|i: int|
                0 <= i < msgs.len() ==> event_of(#[trigger] msgs[i]) == Some(r@[i])),
{
    let msgs = choose|msgs: Seq<LoopbackMsg>| #[trigger]
        old(transport).drained(msgs, *final(transport)) && r@ == events_of(msgs);
    if forall|i: int| 0 <= i < msgs.len() ==> !(#[trigger] msgs[i] is Reconnect) {
        lemma_all_are_reported(msgs);
    }
}

proof fn lemma_all_are_reported(msgs: Seq<LoopbackMsg>)
    requires
        forall|i: int| 0 <= i < msgs.len() ==> !(#[trigger] msgs[i] is Reconnect),
    ensures
        events_of(msgs).len() == msgs.len(),
        forall|i: int|
            0 <= i < msgs.len() ==> event_of(#[trigger] msgs[i]) == Some(events_of(msgs)[i]),
    decreases msgs.len(),
{
    if msgs.len() > 0 {
        let front = msgs.drop_last();
        assert forall|i: int| 0 <= i < front.len() implies !(#[trigger] front[i] is Reconnect) by {
            assert(!(msgs[i] is Reconnect));
        }
        lemma_all_are_reported(front);
        assert(!(msgs[msgs.len() - 1] is Reconnect));
        assert forall|i: int| 0 <= i < msgs.len() implies event_of(#[trigger] msgs[i]) == Some(
            events_of(msgs)[i],
        ) by {
            if i < front.len() {
                assert(event_of(front[i]) == Some(events_of(front)[i]));
            }
        }
    }
}

/// Two transports that are joined lead to each other, each for its own peer.
pub proof fn law_joined_transports_lead_to_each_other(
    a: PeerId,
    b: PeerId,
    r: (LoopbackTransport, LoopbackTransport),
)
    requires
        call_ensures(LoopbackTransport::pair_with_ids, (a, b), r),
    ensures
        r.0.leads_to(r.1) && r.1.leads_to(r.0),
        r.0.local() == a && r.1.local() == b,
        r.0.given().len() == 0 && r.1.given().len() == 0,
{
}

/// A request to reconnect, and a change of the network, are handed to the other side, and succeed whether or
/// not it is there.
pub proof fn law_notices_are_handed_over(
    transport: &LoopbackTransport,
    reconnected: CoreResult<()>,
    online: bool,
    net_type: NetworkType,
    notified: CoreResult<()>,
)
    requires
        call_ensures(LoopbackTransport::reconnect_peer, (transport,), reconnected),
        call_ensures(
            LoopbackTransport::notify_network_changed,
            (transport, online, net_type),
            notified,
        ),
    ensures
        reconnected is Ok && notified is Ok,
        exists|outcome: SendOutcome<LoopbackMsg>| #[trigger]
            transport.handed(LoopbackMsg::Reconnect, outcome),
        exists|outcome: SendOutcome<LoopbackMsg>| #[trigger]
            transport.handed(LoopbackMsg::NetworkChanged { online, net_type }, outcome),
{
}

/// Messages are pending just where the queue told that some are waiting.
pub proof fn law_pending_as_the_queue_tells(transport: &LoopbackTransport, r: bool)
    requires
        call_ensures(LoopbackTransport::has_pending, (transport,), r),
    ensures
        exists|count: usize| #[trigger] transport.told(count) && (r <==> count != 0),
{
    let count = choose|count: usize| #[trigger] transport.told(count) && r == (count > 0);
    assert(transport.told(count));
}

} // verus!
