//! The wiring between the synchronisation engine and the transport.
//!
//! Outbound, the engine's actions become frames and control messages for the transport. Inbound,
//! the transport's events become tasks for the engine, once the sender has been checked. What
//! sends and what carries out a task stands outside; here it is decided what to send, what to
//! do, and what an answer leads to.

use vstd::prelude::*;
use vstd::utf8::*;

use crate::codec::{decode_payload, encode_payload, payload_bytes, payload_decoded, MAX_BLOCK_ID_LEN};
use crate::error::{CoreError, CoreResult};
use crate::event::SyncReason;
use crate::frontier::Frontier;
use crate::ids::{BlockId, DocId, PeerId, SessionId};
use crate::messages::{
    ControlMsg, IntroduceMsg, KeyRotateMsg, NeedRanges, PathPreference, SyncAction, TransportEvent,
};
use crate::model::{AckSummary, DataFrame, DataFrameKind, PeerSummary, Priority};

verus! {

/// One thing for the transport to do.
#[derive(Debug, PartialEq, Eq)]
pub enum OutboundStep {
    SendData {
        peer_id: PeerId,
        frame: DataFrame,
        priority: Priority,
        path: PathPreference,
        /// Counts as delivered once the frame is sent.
        entry_id: Option<String>,
    },
    SendControl { peer_id: PeerId, msg: ControlMsg, priority: Priority },
    /// Nothing to send. An entry whose payload cannot be written counts as delivered, so that
    /// it is not tried for ever.
    Nothing { delivered: Option<String> },
}

/// Whether a payload can carry the identifier.
pub open spec fn carriable(block_id: Option<BlockId>) -> bool {
    match block_id {
        Some(b) => encode_utf8(b@).len() <= 0xFFFF,
        None => true,
    }
}

/// The text of an optional identifier.
pub open spec fn block_text(block_id: Option<BlockId>) -> Option<Seq<char>> {
    match block_id {
        Some(b) => Some(b@),
        None => None,
    }
}

/// Whether `step` is what `action` comes to for sender `actor` and frame number `seq`.
pub open spec fn step_for(
    action: SyncAction,
    actor: PeerId,
    seq: u32,
    step: OutboundStep,
) -> bool {
    match action {
        SyncAction::SendData { peer_id, doc_id, block_id, bytes, priority, path, entry_id } => {
            if carriable(block_id) {
                &&& step matches OutboundStep::SendData {
                    peer_id: to,
                    frame,
                    priority: urgency,
                    path: way,
                    entry_id: entry,
                }
                &&& to == peer_id
                &&& urgency == priority
                &&& way == path
                &&& entry == entry_id
                &&& frame.doc_id == doc_id
                &&& frame.actor_id == actor
                &&& frame.seq == seq
                &&& frame.kind == DataFrameKind::Delta
                &&& frame.payload@ == payload_bytes(block_text(block_id), bytes@)
                &&& frame.session_id == SessionId(0)
            } else {
                step == (OutboundStep::Nothing { delivered: entry_id })
            }
        },
        SyncAction::SendControl { peer_id, msg, priority } => step == (OutboundStep::SendControl {
            peer_id,
            msg,
            priority,
        }),
        SyncAction::RequestDelta { peer_id, doc_id, block_id, since, priority } => {
            &&& step matches OutboundStep::SendControl { peer_id: to, msg, priority: urgency }
            &&& to == peer_id
            &&& urgency == priority
            &&& msg matches ControlMsg::NeedRanges(need)
            &&& need.doc_id == doc_id
            &&& need.since == since
            &&& match (block_id, need.block_id) {
                (Some(b), Some(s)) => s@ == b@,
                (None, None) => true,
                _ => false,
            }
        },
        SyncAction::EmitEvent(_) => step == (OutboundStep::Nothing { delivered: None }),
    }
}

/// Whether `action` takes a frame number.
pub open spec fn takes_seq(action: SyncAction) -> bool {
    action matches SyncAction::SendData { block_id, .. } && carriable(block_id)
}

/// How many of `actions` take a frame number.
pub open spec fn frames_in(actions: Seq<SyncAction>) -> nat
    decreases actions.len(),
{
    if actions.len() == 0 {
        0
    } else {
        frames_in(actions.drop_last()) + if takes_seq(actions.last()) {
            1nat
        } else {
            0nat
        }
    }
}

/// The frame number `n` places after `seq`; numbers wrap round.
pub open spec fn seq_after(seq: u32, n: nat) -> u32 {
    ((seq + n) % 0x1_0000_0000) as u32
}

/// What counts as delivered once a step was taken, given whether its sending worked.
pub open spec fn step_delivers(step: OutboundStep, sent: bool) -> Option<String> {
    match step {
        OutboundStep::SendData { entry_id, .. } => if sent {
            entry_id
        } else {
            None
        },
        OutboundStep::SendControl { .. } => None,
        OutboundStep::Nothing { delivered } => delivered,
    }
}

/// Whether `id` counts as delivered once a step was taken.
pub open spec fn delivers(step: OutboundStep, sent: bool, id: Seq<char>) -> bool {
    step_delivers(step, sent) matches Some(e) && e@ == id
}

/// The entries that count as delivered after all steps, in order.
pub open spec fn delivered(steps: Seq<OutboundStep>, sent: Seq<bool>) -> Seq<Seq<char>>
    decreases steps.len(),
{
    if steps.len() == 0 {
        Seq::empty()
    } else {
        let before = delivered(steps.drop_last(), sent);
        match step_delivers(steps.last(), sent[steps.len() - 1]) {
            Some(id) => before.push(id@),
            None => before,
        }
    }
}

/// Texts taken as their characters.
pub open spec fn texts(s: Seq<String>) -> Seq<Seq<char>> {
    s.map_values(|x: String| x@)
}

/// A session: the local peer, and the number of the next frame.
#[derive(Debug)]
pub struct SyncSession {
    peer_id: PeerId,
    seq: u32,
}

impl SyncSession {
    /// The local peer.
    pub closed spec fn local(&self) -> PeerId {
        self.peer_id
    }

    /// The number that the next frame will bear.
    pub closed spec fn upcoming(&self) -> u32 {
        self.seq
    }

    /// A session of the engine of `peer_id`. Frames are numbered from zero.
    pub fn new(peer_id: PeerId) -> (r: Self)
        ensures
            r.local() == peer_id,
            r.upcoming() == 0,
    {
        SyncSession { peer_id, seq: 0 }
    }

    fn next_seq(&mut self) -> (r: u32)
        ensures
            r == old(self).upcoming(),
            final(self).upcoming() == seq_after(old(self).upcoming(), 1),
            final(self).local() == old(self).local(),
    {
        let r: u32 = self.seq;
        self.seq = if r == u32::MAX {
            0
        } else {
            r + 1
        };
        r
    }

    /// What one action comes to.
    pub fn plan_action(&mut self, action: SyncAction) -> (r: OutboundStep)
        ensures
            step_for(action, old(self).local(), old(self).upcoming(), r),
            final(self).local() == old(self).local(),
            final(self).upcoming() == (if takes_seq(action) {
                seq_after(old(self).upcoming(), 1)
            } else {
                old(self).upcoming()
            }),
    {
        match action {
            SyncAction::SendData { peer_id, doc_id, block_id, bytes, priority, path, entry_id } => {
                let fits = match &block_id {
                    Some(b) => b.as_str().as_bytes().len() <= MAX_BLOCK_ID_LEN,
                    None => true,
                };
                if !fits {
                    return OutboundStep::Nothing { delivered: entry_id };
                }
                let payload = encode_payload(block_id.as_ref(), bytes.as_slice());
                let frame = DataFrame {
                    doc_id,
                    actor_id: self.peer_id.clone(),
                    seq: self.next_seq(),
                    kind: DataFrameKind::Delta,
                    payload,
                    session_id: SessionId(0),
                };
                OutboundStep::SendData { peer_id, frame, priority, path, entry_id }
            },
            SyncAction::SendControl { peer_id, msg, priority } => OutboundStep::SendControl {
                peer_id,
                msg,
                priority,
            },
            SyncAction::RequestDelta { peer_id, doc_id, block_id, since, priority } => {
                let block_id = match block_id {
                    Some(b) => Some(b.0),
                    None => None,
                };
                OutboundStep::SendControl {
                    peer_id,
                    msg: ControlMsg::NeedRanges(NeedRanges { doc_id, block_id, since }),
                    priority,
                }
            },
            SyncAction::EmitEvent(_) => OutboundStep::Nothing { delivered: None },
        }
    }

    /// What the engine's pending actions come to: one step for each, in order. No action keeps
    /// another from its step.
    pub fn drive_outbound(&mut self, actions: Vec<SyncAction>) -> (r: Vec<OutboundStep>)
        ensures
            r@.len() == actions@.len(),
            forall|i: int|
                0 <= i < r@.len() ==> step_for(
                    actions@[i],
                    old(self).local(),
                    seq_after(old(self).upcoming(), frames_in(actions@.take(i))),
                    #[trigger] r@[i],
                ),
            final(self).local() == old(self).local(),
            final(self).upcoming() == seq_after(old(self).upcoming(), frames_in(actions@)),
    {
        let ghost all = actions@;
        let ghost start = self.upcoming();
        let mut steps: Vec<OutboundStep> = Vec::new();
        let mut rest = actions;
        let mut queue: Vec<SyncAction> = Vec::new();
        // Turn the list round, so that actions can be taken from its end.
        while rest.len() > 0
            invariant
                rest@ + queue@.reverse() == all,
            decreases rest@.len(),
        {
            let ghost r0 = rest@;
            let ghost q0 = queue@;
            let a = rest.pop().unwrap();
            queue.push(a);
            assert(r0 =~= rest@.push(a));
            assert(rest@ + queue@.reverse() =~= r0 + q0.reverse());
        }
        assert(queue@.reverse() =~= all);
        assert(all.take(0) =~= Seq::<SyncAction>::empty());
        while queue.len() > 0
            invariant
                steps@.len() + queue@.len() == all.len(),
                queue@.reverse() == all.skip(steps@.len() as int),
                self.local() == old(self).local(),
                self.upcoming() == seq_after(start, frames_in(all.take(steps@.len() as int))),
                start == old(self).upcoming(),
                forall|i: int|
                    0 <= i < steps@.len() ==> step_for(
                        all[i],
                        old(self).local(),
                        seq_after(start, frames_in(all.take(i))),
                        #[trigger] steps@[i],
                    ),
            decreases queue@.len(),
        {
            let ghost n = steps@.len() as int;
            let ghost q0 = queue@;
            let action = queue.pop().unwrap();
            proof {
                assert(q0.reverse()[0] == action);
                assert(all.skip(n)[0] == all[n]);
                assert(queue@.reverse() =~= q0.reverse().skip(1));
                assert(all.skip(n).skip(1) =~= all.skip(n + 1));
                assert(all.take(n + 1).drop_last() =~= all.take(n));
                assert(all.take(n + 1).last() == action);
            }
            let step = self.plan_action(action);
            steps.push(step);
        }
        assert(all.take(all.len() as int) =~= all);
        steps
    }

    /// The entries to mark as delivered, given for each step whether its sending worked.
    pub fn delivered_ids(steps: &Vec<OutboundStep>, sent: &Vec<bool>) -> (r: Vec<String>)
        requires
            sent@.len() == steps@.len(),
        ensures
            texts(r@) == delivered(steps@, sent@),
    {
        let mut ids: Vec<String> = Vec::new();
        let mut i: usize = 0;
        assert(steps@.take(0) =~= Seq::<OutboundStep>::empty());
        assert(texts(ids@) =~= Seq::<Seq<char>>::empty());
        while i < steps.len()
            invariant
                i <= steps@.len(),
                sent@.len() == steps@.len(),
                texts(ids@) == delivered(steps@.take(i as int), sent@),
            decreases steps@.len() - i,
        {
            let ghost before = ids@;
            assert(steps@.take(i + 1).drop_last() =~= steps@.take(i as int));
            match &steps[i] {
                OutboundStep::SendData { entry_id, .. } => {
                    if sent[i] {
                        if let Some(id) = entry_id {
                            ids.push(id.clone());
                            assert(texts(ids@) =~= texts(before).push(id@));
                        }
                    }
                },
                OutboundStep::SendControl { .. } => {},
                OutboundStep::Nothing { delivered } => {
                    if let Some(id) = delivered {
                        ids.push(id.clone());
                        assert(texts(ids@) =~= texts(before).push(id@));
                    }
                },
            }
            i = i + 1;
        }
        assert(steps@.take(i as int) =~= steps@);
        ids
    }
}

/// An entry counts as delivered only where its frame was sent or its payload cannot be written.
pub proof fn law_delivered_only_if_sent(steps: Seq<OutboundStep>, sent: Seq<bool>, id: Seq<char>)
    requires
        sent.len() == steps.len(),
        delivered(steps, sent).contains(id),
    ensures
        exists|i: int|
            0 <= i < steps.len() && #[trigger] delivers(steps[i], sent[i], id),
    decreases steps.len(),
{
    if steps.len() > 0 {
        let front = steps.drop_last();
        let n = steps.len() - 1;
        lemma_delivered_prefix(front, sent, sent.drop_last());
        if delivered(front, sent).contains(id) {
            law_delivered_only_if_sent(front, sent.drop_last(), id);
            let i = choose|i: int|
                0 <= i < front.len() && #[trigger] delivers(front[i], sent.drop_last()[i], id);
            assert(delivers(steps[i], sent[i], id));
        } else {
            let k = choose|k: int|
                0 <= k < delivered(steps, sent).len() && delivered(steps, sent)[k] == id;
            assert(k == delivered(front, sent).len());
            assert(delivers(steps[n], sent[n], id));
        }
    }
}

proof fn lemma_delivered_prefix(steps: Seq<OutboundStep>, a: Seq<bool>, b: Seq<bool>)
    requires
        steps.len() <= a.len(),
        steps.len() <= b.len(),
        forall|i: int| 0 <= i < steps.len() ==> a[i] == b[i],
    ensures
        delivered(steps, a) == delivered(steps, b),
    decreases steps.len(),
{
    if steps.len() > 0 {
        lemma_delivered_prefix(steps.drop_last(), a, b);
    }
}

/// Something for the engine to do.
#[allow(inconsistent_fields)]
#[derive(Debug, PartialEq, Eq)]
pub enum InboundTask {
    /// Drop what came in.
    Ignore,
    RequestSync { peer_id: PeerId, reason: SyncReason },
    FastResume,
    ApplyBlockDelta { doc_id: DocId, block_id: BlockId, delta: Vec<u8>, from: PeerId },
    ApplyMetaDelta { doc_id: DocId, delta: Vec<u8>, from: PeerId },
    Introduce { msg: IntroduceMsg, from: PeerId },
    KeyRotate { msg: KeyRotateMsg },
    Revoke { peer_id: PeerId, reason: String },
    Acknowledge { ack: AckSummary },
    ExportRanges { peer_id: PeerId, need: NeedRanges },
    Summarise { peer_id: PeerId, summary: PeerSummary },
}

/// Which failures of a task do not go further.
#[derive(Debug, Clone, Copy, PartialEq, Eq, Structural)]
pub enum Tolerance {
    /// Every failure goes further.
    Nothing,
    /// What a peer can bring about by a bad message stays here; failures of the store or of the
    /// program itself go further.
    PeerFaults,
    /// No failure goes further.
    Everything,
}

/// A task, and which failures of it are not the session's failure.
#[derive(Debug, PartialEq, Eq)]
pub struct Routed {
    pub task: InboundTask,
    pub tolerance: Tolerance,
}

/// Whether an error is one of the store or of the program itself.
pub open spec fn is_grave(e: CoreError) -> bool {
    e is Store || e is Internal
}

/// What the engine's answer to a task leads to.
pub open spec fn settlement(tolerance: Tolerance, answer: CoreResult<()>) -> CoreResult<()> {
    match answer {
        Ok(()) => Ok(()),
        Err(e) => match tolerance {
            Tolerance::Nothing => Err(e),
            Tolerance::PeerFaults => if is_grave(e) {
                Err(e)
            } else {
                Ok(())
            },
            Tolerance::Everything => Ok(()),
        },
    }
}

/// Whether `task` is right for a data frame of `peer_id`.
pub open spec fn data_task(
    peer_id: PeerId,
    frame: DataFrame,
    trusted: bool,
    task: InboundTask,
) -> bool {
    if !trusted {
        task == InboundTask::Ignore
    } else {
        match payload_decoded(frame.payload@) {
            Err(_) => task == InboundTask::Ignore,
            Ok((Some(block), change)) => {
                &&& task matches InboundTask::ApplyBlockDelta { doc_id, block_id, delta, from }
                &&& doc_id == frame.doc_id
                &&& block_id@ == block
                &&& delta@ == change
                &&& from == peer_id
            },
            Ok((None, change)) => {
                &&& task matches InboundTask::ApplyMetaDelta { doc_id, delta, from }
                &&& doc_id == frame.doc_id
                &&& delta@ == change
                &&& from == peer_id
            },
        }
    }
}

/// Whether a control message is looked at only if its sender is trusted. The others carry
/// their own proof, or are how a peer comes to be known.
pub open spec fn needs_trust(msg: ControlMsg) -> bool {
    !(msg is Introduce || msg is KeyRotate || msg is Capabilities)
}

/// Whether `task` is right for a control message of `peer_id`.
pub open spec fn control_task(
    peer_id: PeerId,
    msg: ControlMsg,
    trusted: bool,
    task: InboundTask,
) -> bool {
    if needs_trust(msg) && !trusted {
        task == InboundTask::Ignore
    } else {
        match msg {
            ControlMsg::Introduce(m) => task == (InboundTask::Introduce { msg: m, from: peer_id }),
            ControlMsg::KeyRotate(m) => task == (InboundTask::KeyRotate { msg: m }),
            ControlMsg::Revoke(m) => if m.revoker@ == peer_id@ && m.revoked_peer@ == m.revoker@ {
                task == (InboundTask::Revoke { peer_id: m.revoked_peer, reason: m.reason })
            } else {
                task == InboundTask::Ignore
            },
            ControlMsg::AckSummary(m) => if m.peer_id@ == peer_id@ {
                task == (InboundTask::Acknowledge { ack: m })
            } else {
                task == InboundTask::Ignore
            },
            ControlMsg::NeedRanges(m) => task == (InboundTask::ExportRanges {
                peer_id,
                need: m,
            }),
            ControlMsg::Capabilities(m) => if m.peer_id@ == peer_id@ {
                task == (InboundTask::Summarise {
                    peer_id,
                    summary: PeerSummary {
                        peer_id,
                        online: true,
                        frontier: m.frontier,
                        capabilities: m.capabilities,
                    },
                })
            } else {
                task == InboundTask::Ignore
            },
            ControlMsg::SyncIntent { peer_id: claimed, .. } => if claimed@ == peer_id@ {
                task == (InboundTask::RequestSync {
                    peer_id: claimed,
                    reason: SyncReason::PeerOnline,
                })
            } else {
                task == InboundTask::Ignore
            },
            ControlMsg::KnownCheckpoint { .. } | ControlMsg::TransportHints(_)
            | ControlMsg::RelayHints(_) => task == InboundTask::Ignore,
        }
    }
}

/// Whether `routed` is right for an event.
pub open spec fn event_task(event: TransportEvent, trusted: bool, routed: Routed) -> bool {
    match event {
        TransportEvent::PeerOnline { peer_id } => routed == (Routed {
            task: InboundTask::RequestSync { peer_id, reason: SyncReason::PeerOnline },
            tolerance: Tolerance::Nothing,
        }),
        TransportEvent::PeerOffline { .. } | TransportEvent::DocSynced { .. } => routed.task
            == InboundTask::Ignore && routed.tolerance is Nothing,
        TransportEvent::Data { peer_id, frame } => routed.tolerance is Everything && data_task(
            peer_id,
            frame,
            trusted,
            routed.task,
        ),
        TransportEvent::Control { peer_id, msg } => routed.tolerance is PeerFaults && control_task(
            peer_id,
            msg,
            trusted,
            routed.task,
        ),
        TransportEvent::NetworkChanged { online } => routed.tolerance is Nothing && routed.task
            == if online {
            InboundTask::FastResume
        } else {
            InboundTask::Ignore
        },
    }
}

/// Whatever a data frame holds, and whatever the engine answers to it, the session goes on.
pub proof fn law_no_frame_ends_a_session(
    event: TransportEvent,
    trusted: bool,
    routed: Routed,
    answer: CoreResult<()>,
)
    requires
        event is Data,
        event_task(event, trusted, routed),
    ensures
        settlement(routed.tolerance, answer) is Ok,
{
}

/// Whatever a control message holds, the session goes on unless the store or the program itself
/// fails.
pub proof fn law_no_message_of_a_peer_ends_a_session(
    event: TransportEvent,
    trusted: bool,
    routed: Routed,
    answer: CoreResult<()>,
)
    requires
        event is Control,
        event_task(event, trusted, routed),
    ensures
        settlement(routed.tolerance, answer) is Err ==> answer is Err && is_grave(answer->Err_0),
{
}

impl SyncSession {
    /// What a data frame asks of the engine. Frames of peers that are not trusted, and frames
    /// that cannot be read, are dropped.
    pub fn handle_inbound_data(peer_id: PeerId, frame: DataFrame, trusted: bool) -> (r: InboundTask)
        ensures
            data_task(peer_id, frame, trusted, r),
    {
        if !trusted {
            return InboundTask::Ignore;
        }
        match decode_payload(frame.payload.as_slice()) {
            Err(_) => InboundTask::Ignore,
            Ok((block_id, delta)) => match block_id {
                Some(block_id) => InboundTask::ApplyBlockDelta {
                    doc_id: frame.doc_id,
                    block_id,
                    delta,
                    from: peer_id,
                },
                None => InboundTask::ApplyMetaDelta { doc_id: frame.doc_id, delta, from: peer_id },
            },
        }
    }

    /// What a control message asks of the engine. A message that speaks for another peer than
    /// its sender is dropped, and so is the revocation of another peer.
    pub fn handle_inbound_control(peer_id: PeerId, msg: ControlMsg, trusted: bool) -> (r:
        InboundTask)
        ensures
            control_task(peer_id, msg, trusted, r),
    {
        let exempt = match &msg {
            ControlMsg::Introduce(_) => true,
            ControlMsg::KeyRotate(_) => true,
            ControlMsg::Capabilities(_) => true,
            _ => false,
        };
        if !exempt && !trusted {
            return InboundTask::Ignore;
        }
        match msg {
            ControlMsg::Introduce(m) => InboundTask::Introduce { msg: m, from: peer_id },
            ControlMsg::KeyRotate(m) => InboundTask::KeyRotate { msg: m },
            ControlMsg::Revoke(m) => {
                if !m.revoker.same(&peer_id) || !m.revoker.same(&m.revoked_peer) {
                    return InboundTask::Ignore;
                }
                InboundTask::Revoke { peer_id: m.revoked_peer, reason: m.reason }
            },
            ControlMsg::AckSummary(m) => {
                if !m.peer_id.same(&peer_id) {
                    return InboundTask::Ignore;
                }
                InboundTask::Acknowledge { ack: m }
            },
            ControlMsg::NeedRanges(m) => InboundTask::ExportRanges { peer_id, need: m },
            ControlMsg::Capabilities(m) => {
                if !m.peer_id.same(&peer_id) {
                    return InboundTask::Ignore;
                }
                let summary = PeerSummary {
                    peer_id: peer_id.clone(),
                    online: true,
                    frontier: m.frontier,
                    capabilities: m.capabilities,
                };
                InboundTask::Summarise { peer_id, summary }
            },
            ControlMsg::SyncIntent { peer_id: claimed, .. } => {
                if !claimed.same(&peer_id) {
                    return InboundTask::Ignore;
                }
                InboundTask::RequestSync { peer_id: claimed, reason: SyncReason::PeerOnline }
            },
            ControlMsg::KnownCheckpoint { .. } => InboundTask::Ignore,
            ControlMsg::TransportHints(_) => InboundTask::Ignore,
            ControlMsg::RelayHints(_) => InboundTask::Ignore,
        }
    }

    /// What an event of the transport asks of the engine. `trusted` says whether the engine
    /// knows the sender of a frame or message as trusted.
    pub fn handle_transport_event(event: TransportEvent, trusted: bool) -> (r: Routed)
        ensures
            event_task(event, trusted, r),
    {
        match event {
            TransportEvent::PeerOnline { peer_id } => Routed {
                task: InboundTask::RequestSync { peer_id, reason: SyncReason::PeerOnline },
                tolerance: Tolerance::Nothing,
            },
            TransportEvent::PeerOffline { .. } => Routed {
                task: InboundTask::Ignore,
                tolerance: Tolerance::Nothing,
            },
            TransportEvent::Data { peer_id, frame } => Routed {
                task: SyncSession::handle_inbound_data(peer_id, frame, trusted),
                tolerance: Tolerance::Everything,
            },
            TransportEvent::Control { peer_id, msg } => Routed {
                task: SyncSession::handle_inbound_control(peer_id, msg, trusted),
                tolerance: Tolerance::PeerFaults,
            },
            TransportEvent::NetworkChanged { online } => Routed {
                task: if online {
                    InboundTask::FastResume
                } else {
                    InboundTask::Ignore
                },
                tolerance: Tolerance::Nothing,
            },
            TransportEvent::DocSynced { .. } => Routed {
                task: InboundTask::Ignore,
                tolerance: Tolerance::Nothing,
            },
        }
    }

    /// What the engine's answer to a task leads to.
    pub fn settle(tolerance: Tolerance, answer: CoreResult<()>) -> (r: CoreResult<()>)
        ensures
            r == settlement(tolerance, answer),
    {
        match answer {
            Ok(()) => Ok(()),
            Err(e) => match tolerance {
                Tolerance::Nothing => Err(e),
                Tolerance::PeerFaults => match e {
                    CoreError::Store(m) => Err(CoreError::Store(m)),
                    CoreError::Internal(m) => Err(CoreError::Internal(m)),
                    _ => Ok(()),
                },
                Tolerance::Everything => Ok(()),
            },
        }
    }
}

/// What to ask the document store for.
#[derive(Debug, PartialEq, Eq)]
pub struct ExportRequest {
    pub doc_id: DocId,
    /// Where absent, the block list is exported.
    pub block_id: Option<BlockId>,
    /// The changes since then; where absent, a snapshot.
    pub since: Option<Frontier>,
}

/// What to do with the document store's answer.
#[derive(Debug)]
pub enum ExportOutcome {
    /// Ask again.
    Retry(ExportRequest),
    /// Put this action into the engine's queue.
    Push(SyncAction),
    /// Drop the request.
    Drop,
    Fail(CoreError),
}

/// Whether `request` is what `need` asks for first.
pub open spec fn first_export(need: NeedRanges, request: ExportRequest) -> bool {
    &&& request.doc_id == need.doc_id
    &&& match (need.block_id, request.block_id) {
        (Some(s), Some(b)) => b@ == s@,
        (None, None) => true,
        _ => false,
    }
    &&& request.since == if need.since@ == Map::<Seq<char>, u64>::empty() {
        None
    } else {
        Some(need.since)
    }
}

/// What an answer leads to: changes that cannot be had are replaced by a snapshot, and whatever
/// can be had goes to the peer that asked.
pub open spec fn export_outcome(
    peer_id: PeerId,
    request: ExportRequest,
    answer: CoreResult<Vec<u8>>,
) -> ExportOutcome {
    match answer {
        Ok(bytes) => ExportOutcome::Push(
            SyncAction::SendData {
                peer_id,
                doc_id: request.doc_id,
                block_id: request.block_id,
                bytes,
                priority: Priority::Medium,
                path: PathPreference::Any,
                entry_id: None,
            },
        ),
        Err(e) => if request.since is Some {
            ExportOutcome::Retry(
                ExportRequest { doc_id: request.doc_id, block_id: request.block_id, since: None },
            )
        } else if is_grave(e) {
            ExportOutcome::Fail(e)
        } else {
            ExportOutcome::Drop
        },
    }
}

impl SyncSession {
    /// What a request for ranges asks of the document store: a snapshot where the peer has
    /// nothing, else the changes since what it has.
    pub fn handle_need_ranges(need: NeedRanges) -> (r: ExportRequest)
        requires
            need.since.wf(),
        ensures
            first_export(need, r),
    {
        let block_id = match need.block_id {
            Some(s) => Some(BlockId(s)),
            None => None,
        };
        let since = if need.since.is_empty() {
            None
        } else {
            Some(need.since)
        };
        ExportRequest { doc_id: need.doc_id, block_id, since }
    }

    /// What the document store's answer leads to.
    pub fn settle_export(
        peer_id: PeerId,
        request: ExportRequest,
        answer: CoreResult<Vec<u8>>,
    ) -> (r: ExportOutcome)
        ensures
            r == export_outcome(peer_id, request, answer),
    {
        match answer {
            Ok(bytes) => ExportOutcome::Push(
                SyncAction::SendData {
                    peer_id,
                    doc_id: request.doc_id,
                    block_id: request.block_id,
                    bytes,
                    priority: Priority::Medium,
                    path: PathPreference::Any,
                    entry_id: None,
                },
            ),
            Err(e) => {
                if request.since.is_some() {
                    return ExportOutcome::Retry(
                        ExportRequest {
                            doc_id: request.doc_id,
                            block_id: request.block_id,
                            since: None,
                        },
                    );
                }
                match e {
                    CoreError::Store(m) => ExportOutcome::Fail(CoreError::Store(m)),
                    CoreError::Internal(m) => ExportOutcome::Fail(CoreError::Internal(m)),
                    _ => ExportOutcome::Drop,
                }
            },
        }
    }
}

/// What a peer that is not trusted sends changes nothing, but for the three kinds of message
/// that are exempt.
pub proof fn law_untrusted_is_ignored(event: TransportEvent, routed: Routed)
    requires
        event_task(event, false, routed),
    ensures
        event is Data ==> routed.task == InboundTask::Ignore,
        (event matches TransportEvent::Control { msg, .. } && needs_trust(msg)) ==> routed.task
            == InboundTask::Ignore,
{
}

/// A peer can only revoke itself, and only acknowledge, announce and ask in its own name.
pub proof fn law_no_spoofing(peer_id: PeerId, msg: ControlMsg, trusted: bool, task: InboundTask)
    requires
        control_task(peer_id, msg, trusted, task),
    ensures
        task matches InboundTask::Revoke { peer_id: gone, .. } ==> gone@ == peer_id@,
        task matches InboundTask::Acknowledge { ack } ==> ack.peer_id@ == peer_id@,
        task matches InboundTask::Summarise { peer_id: who, .. } ==> who@ == peer_id@,
        task matches InboundTask::RequestSync { peer_id: who, .. } ==> who@ == peer_id@,
{
}

/// What one session sends of a change, the other session hands to its engine: the same document,
/// block and bytes.
pub proof fn law_delivery(
    action: SyncAction,
    actor: PeerId,
    seq: u32,
    step: OutboundStep,
    task: InboundTask,
)
    requires
        step_for(action, actor, seq, step),
        takes_seq(action),
        step matches OutboundStep::SendData { frame, .. } && data_task(actor, frame, true, task),
    ensures
        action matches SyncAction::SendData { doc_id, block_id, bytes, .. } && match block_id {
            Some(b) => task matches InboundTask::ApplyBlockDelta { doc_id: d, block_id: k, delta, from }
                && d == doc_id && k@ == b@ && delta@ == bytes@ && from == actor,
            None => task matches InboundTask::ApplyMetaDelta { doc_id: d, delta, from } && d
                == doc_id && delta@ == bytes@ && from == actor,
        },
{
    match action {
        SyncAction::SendData { block_id, bytes, .. } => {
            crate::codec::law_payload_roundtrip(block_text(block_id), bytes@);
        },
        _ => {},
    }
}

/// A request for ranges is answered after at most two exports.
pub proof fn law_export_ends(
    peer_id: PeerId,
    request: ExportRequest,
    first: CoreResult<Vec<u8>>,
    second: CoreResult<Vec<u8>>,
)
    ensures
        export_outcome(peer_id, request, first) matches ExportOutcome::Retry(again)
            ==> !(export_outcome(peer_id, again, second) is Retry),
{
}

/// Whatever the document store can export goes to the peer that asked: the very bytes, with the
/// document and the block that the request names.
pub proof fn law_export_reaches_the_peer(
    peer_id: PeerId,
    request: ExportRequest,
    bytes: Vec<u8>,
    outcome: ExportOutcome,
)
    requires
        call_ensures(SyncSession::settle_export, (peer_id, request, Ok(bytes)), outcome),
    ensures
        outcome matches ExportOutcome::Push(
            SyncAction::SendData {
                peer_id: to,
                doc_id,
                block_id,
                bytes: sent,
                priority,
                path,
                entry_id,
            },
        ) && to == peer_id && doc_id == request.doc_id && block_id == request.block_id && sent
            == bytes && priority is Medium && path is Any && entry_id is None,
{
}

/// A peer that comes online is synchronised with: the engine is asked for a synchronisation with
/// that very peer, because it is online.
pub proof fn law_online_peer_is_synchronised_with(peer_id: PeerId, trusted: bool, routed: Routed)
    requires
        call_ensures(
            SyncSession::handle_transport_event,
            (TransportEvent::PeerOnline { peer_id }, trusted),
            routed,
        ),
    ensures
        routed.task matches InboundTask::RequestSync { peer_id: with, reason } && with == peer_id
            && reason is PeerOnline,
{
}

/// A peer that is offline, and a document that is synchronised, ask nothing of the engine; a network
/// that is there again does, and one that is gone does not.
pub proof fn law_network_wakes_the_engine(event: TransportEvent, trusted: bool, routed: Routed)
    requires
        call_ensures(SyncSession::handle_transport_event, (event, trusted), routed),
    ensures
        event is PeerOffline || event is DocSynced ==> routed.task is Ignore,
        event matches TransportEvent::NetworkChanged { online } ==> (online <==> routed.task
            is FastResume) && (!online <==> routed.task is Ignore),
{
}

/// Of a peer that is not trusted, nothing is looked at but introductions, changes of keys and
/// announcements.
pub proof fn law_strangers_are_not_heard(event: TransportEvent, routed: Routed)
    requires
        call_ensures(SyncSession::handle_transport_event, (event, false), routed),
        event is Data || event is Control,
    ensures
        !(routed.task is Ignore) ==> (event matches TransportEvent::Control { msg, .. } && (
        msg is Introduce || msg is KeyRotate || msg is Capabilities)),
{
}

/// What a trusted peer says in its own name reaches the engine as it was said.
pub proof fn law_trusted_messages_are_heard(peer_id: PeerId, msg: ControlMsg, routed: Routed)
    requires
        call_ensures(
            SyncSession::handle_transport_event,
            (TransportEvent::Control { peer_id, msg }, true),
            routed,
        ),
    ensures
        msg matches ControlMsg::NeedRanges(m) ==> (routed.task matches InboundTask::ExportRanges {
            peer_id: to,
            need,
        } && to == peer_id && need == m),
        msg matches ControlMsg::Revoke(m) ==> (if m.revoker@ == peer_id@ && m.revoked_peer@
            == peer_id@ {
            routed.task matches InboundTask::Revoke { peer_id: gone, reason } && gone@ == peer_id@
                && reason == m.reason
        } else {
            routed.task is Ignore
        }),
        msg matches ControlMsg::AckSummary(m) ==> (if m.peer_id@ == peer_id@ {
            routed.task matches InboundTask::Acknowledge { ack } && ack == m
        } else {
            routed.task is Ignore
        }),
        msg matches ControlMsg::SyncIntent { peer_id: claimed, .. } ==> (if claimed@ == peer_id@ {
            routed.task matches InboundTask::RequestSync { peer_id: with, reason } && with@
                == peer_id@ && reason is PeerOnline
        } else {
            routed.task is Ignore
        }),
        msg is KnownCheckpoint || msg is TransportHints || msg is RelayHints ==> routed.task
            is Ignore,
{
}

/// Introductions, changes of keys and announcements of the sender itself reach the engine whether
/// or not the sender is trusted, since they are how a peer comes to be known.
pub proof fn law_first_contact_is_heard(
    peer_id: PeerId,
    msg: ControlMsg,
    trusted: bool,
    routed: Routed,
)
    requires
        call_ensures(
            SyncSession::handle_transport_event,
            (TransportEvent::Control { peer_id, msg }, trusted),
            routed,
        ),
    ensures
        msg matches ControlMsg::Introduce(m) ==> (routed.task matches InboundTask::Introduce {
            msg: said,
            from,
        } && said == m && from == peer_id),
        msg matches ControlMsg::KeyRotate(m) ==> (routed.task matches InboundTask::KeyRotate {
            msg: said,
        } && said == m),
        msg matches ControlMsg::Capabilities(m) ==> (if m.peer_id@ == peer_id@ {
            routed.task matches InboundTask::Summarise { peer_id: who, summary } && who == peer_id
                && summary.peer_id == peer_id && summary.online && summary.frontier == m.frontier
                && summary.capabilities == m.capabilities
        } else {
            routed.task is Ignore
        }),
{
}

/// A change that one session sends to a peer goes there with its urgency, path and entry, and is
/// handed to the engine of the peer, where that one trusts the sender: the same document, block and
/// bytes.
pub proof fn law_change_travels(
    session: &mut SyncSession,
    peer_id: PeerId,
    doc_id: DocId,
    block_id: Option<BlockId>,
    bytes: Vec<u8>,
    priority: Priority,
    path: PathPreference,
    entry_id: Option<String>,
    step: OutboundStep,
)
    requires
        call_ensures(
            SyncSession::plan_action,
            (
                session,
                SyncAction::SendData { peer_id, doc_id, block_id, bytes, priority, path, entry_id },
            ),
            step,
        ),
        block_id matches Some(b) ==> encode_utf8(b@).len() <= 65535,
    ensures
        step matches OutboundStep::SendData {
            peer_id: to,
            frame,
            priority: urgency,
            path: way,
            entry_id: entry,
        } && to == peer_id && urgency == priority && way == path && entry == entry_id
            && frame.actor_id == old(session).local() && frame.doc_id == doc_id && frame.kind is Delta
            && frame.seq == old(session).upcoming() && forall|
            from: PeerId,
            routed: Routed,
        | #[trigger]
            call_ensures(
                SyncSession::handle_transport_event,
                (TransportEvent::Data { peer_id: from, frame }, true),
                routed,
            ) ==> match block_id {
                Some(b) => routed.task matches InboundTask::ApplyBlockDelta {
                    doc_id: d,
                    block_id: k,
                    delta,
                    from: f,
                } && d == doc_id && k@ == b@ && delta@ == bytes@ && f == from,
                None => routed.task matches InboundTask::ApplyMetaDelta {
                    doc_id: d,
                    delta,
                    from: f,
                } && d == doc_id && delta@ == bytes@ && f == from,
            },
{
    crate::codec::law_payload_roundtrip(block_text(block_id), bytes@);
}

/// A change whose block has too long an identifier is not sent; its entry counts as delivered, so
/// that it is not tried for ever.
pub proof fn law_unsendable_change_is_given_up(
    session: &mut SyncSession,
    action: SyncAction,
    step: OutboundStep,
)
    requires
        call_ensures(SyncSession::plan_action, (session, action), step),
        action matches SyncAction::SendData { block_id: Some(b), .. } && encode_utf8(b@).len()
            > 65535,
    ensures
        step matches OutboundStep::Nothing { delivered } && delivered == action->SendData_entry_id,
        final(session).upcoming() == old(session).upcoming(),
{
}

/// Control messages go out as they are, and events ask nothing of the transport.
pub proof fn law_messages_go_out_as_they_are(
    session: &mut SyncSession,
    action: SyncAction,
    step: OutboundStep,
)
    requires
        call_ensures(SyncSession::plan_action, (session, action), step),
    ensures
        action matches SyncAction::SendControl { peer_id, msg, priority } ==> (
        step matches OutboundStep::SendControl { peer_id: to, msg: said, priority: urgency } && to
            == peer_id && said == msg && urgency == priority),
        action is EmitEvent ==> (step matches OutboundStep::Nothing { delivered } && delivered
            is None),
        !(action is SendData) ==> final(session).upcoming() == old(session).upcoming(),
        final(session).local() == old(session).local(),
{
}

/// A request for changes goes to the peer that has them; there it becomes a request to the document
/// store for just those changes, or for a snapshot where nothing is known yet.
pub proof fn law_request_travels(
    session: &mut SyncSession,
    peer_id: PeerId,
    doc_id: DocId,
    block_id: Option<BlockId>,
    since: Frontier,
    priority: Priority,
    step: OutboundStep,
    from: PeerId,
)
    requires
        call_ensures(
            SyncSession::plan_action,
            (session, SyncAction::RequestDelta { peer_id, doc_id, block_id, since, priority }),
            step,
        ),
    ensures
        step matches OutboundStep::SendControl { peer_id: to, msg, priority: urgency } && to
            == peer_id && urgency == priority && forall|routed: Routed| #[trigger]
            call_ensures(
                SyncSession::handle_transport_event,
                (TransportEvent::Control { peer_id: from, msg }, true),
                routed,
            ) ==> (routed.task matches InboundTask::ExportRanges { peer_id: back, need } && back
                == from && forall|request: ExportRequest| #[trigger]
                call_ensures(SyncSession::handle_need_ranges, (need,), request) ==> {
                    &&& request.doc_id == doc_id
                    &&& request.block_id is Some <==> block_id is Some
                    &&& block_id matches Some(b) ==> request.block_id->Some_0@ == b@
                    &&& request.since is None <==> forall|k: Seq<char>|
                        !(#[trigger] since@.contains_key(k))
                    &&& request.since matches Some(f) ==> f == since
                }),
{
    assert((forall|k: Seq<char>| !(#[trigger] since@.contains_key(k))) ==> since@
        =~= Map::<Seq<char>, u64>::empty());
}

/// Whether a step does what an action asks for, and nothing else.
pub open spec fn carries_out(action: SyncAction, step: OutboundStep) -> bool {
    match action {
        SyncAction::SendData { peer_id, doc_id, block_id, bytes, priority, path, entry_id } => {
            if block_id is None || encode_utf8(block_id->Some_0@).len() <= 65535 {
                &&& step matches OutboundStep::SendData {
                    peer_id: to,
                    frame,
                    priority: urgency,
                    path: way,
                    entry_id: entry,
                }
                &&& to == peer_id
                &&& urgency == priority
                &&& way == path
                &&& entry == entry_id
                &&& frame.doc_id == doc_id
                &&& frame.payload@.len() >= bytes@.len()
                &&& frame.payload@.skip(frame.payload@.len() - bytes@.len()) == bytes@
            } else {
                step matches OutboundStep::Nothing { delivered } && delivered == entry_id
            }
        },
        SyncAction::SendControl { peer_id, msg, priority } => {
            &&& step matches OutboundStep::SendControl { peer_id: to, msg: said, priority: urgency }
            &&& to == peer_id
            &&& said == msg
            &&& urgency == priority
        },
        SyncAction::RequestDelta { peer_id, doc_id, block_id, since, priority } => {
            &&& step matches OutboundStep::SendControl { peer_id: to, msg, priority: urgency }
            &&& to == peer_id
            &&& urgency == priority
            &&& msg matches ControlMsg::NeedRanges(need)
            &&& need.doc_id == doc_id
            &&& need.since == since
            &&& need.block_id is Some <==> block_id is Some
            &&& block_id is Some ==> need.block_id->Some_0@ == block_id->Some_0@
        },
        SyncAction::EmitEvent(_) => step matches OutboundStep::Nothing { delivered } && delivered
            is None,
    }
}

/// The actions of the engine come to one step each, in their order, and the frames among them are
/// numbered one after the other.
pub proof fn law_steps_follow_actions(
    session: &mut SyncSession,
    actions: Vec<SyncAction>,
    steps: Vec<OutboundStep>,
)
    requires
        call_ensures(SyncSession::drive_outbound, (session, actions), steps),
    ensures
        steps@.len() == actions@.len(),
        forall|i: int| 0 <= i < actions@.len() ==> #[trigger] carries_out(actions@[i], steps@[i]),
        forall|i: int, j: int|
            0 <= i < j < steps@.len() && steps@[i] is SendData && steps@[j] is SendData && (
            forall|k: int| i < k < j ==> !(#[trigger] steps@[k] is SendData)) ==> (#[trigger] steps@[j])->SendData_frame.seq
                as int == ((#[trigger] steps@[i])->SendData_frame.seq + 1) % 0x1_0000_0000,
{
    let start = old(session).upcoming();
    assert forall|i: int| 0 <= i < actions@.len() implies #[trigger] carries_out(
        actions@[i],
        steps@[i],
    ) by {
        lemma_step_carries_out(
            actions@[i],
            old(session).local(),
            seq_after(start, frames_in(actions@.take(i))),
            steps@[i],
        );
    }
    assert forall|i: int, j: int|
        0 <= i < j < steps@.len() && steps@[i] is SendData && steps@[j] is SendData && (forall|
            k: int,
        |
            i < k < j ==> !(#[trigger] steps@[k] is SendData)) implies (
    #[trigger] steps@[j])->SendData_frame.seq as int == ((
    #[trigger] steps@[i])->SendData_frame.seq + 1) % 0x1_0000_0000 by {
        lemma_no_frames_between(actions@, steps@, old(session).local(), start, i, j);
        let n = frames_in(actions@.take(i)) as int;
        assert(actions@.take(i + 1).drop_last() =~= actions@.take(i));
        assert(frames_in(actions@.take(j)) == n + 1);
        assert((start + n + 1) % 0x1_0000_0000 == (((start + n) % 0x1_0000_0000) + 1)
            % 0x1_0000_0000) by (nonlinear_arith);
    }
}

proof fn lemma_step_carries_out(
    action: SyncAction,
    actor: PeerId,
    seq: u32,
    step: OutboundStep,
)
    requires
        step_for(action, actor, seq, step),
    ensures
        carries_out(action, step),
{
    match action {
        SyncAction::SendData { block_id, bytes, .. } => {
            if carriable(block_id) {
                let p = step->SendData_frame.payload@;
                assert(p.skip(p.len() - bytes@.len()) =~= bytes@);
            }
        },
        _ => {},
    }
}

proof fn lemma_no_frames_between(
    actions: Seq<SyncAction>,
    steps: Seq<OutboundStep>,
    actor: PeerId,
    start: u32,
    i: int,
    j: int,
)
    requires
        0 <= i < j < actions.len(),
        steps.len() == actions.len(),
        forall|k: int|
            0 <= k < steps.len() ==> step_for(
                actions[k],
                actor,
                seq_after(start, frames_in(actions.take(k))),
                #[trigger] steps[k],
            ),
        forall|k: int| i < k < j ==> !(#[trigger] steps[k] is SendData),
    ensures
        frames_in(actions.take(j)) == frames_in(actions.take(i + 1)),
    decreases j,
{
    if i + 1 < j {
        lemma_no_frames_between(actions, steps, actor, start, i, j - 1);
        assert(actions.take(j).drop_last() =~= actions.take(j - 1));
        assert(!(steps[j - 1] is SendData));
    }
}

/// The entries that are marked as delivered are those of the frames that were sent, and those that
/// were given up; none else.
pub proof fn law_entries_sent_are_delivered(
    steps: &Vec<OutboundStep>,
    sent: &Vec<bool>,
    marked: Vec<String>,
    id: Seq<char>,
)
    requires
        sent@.len() == steps@.len(),
        call_ensures(SyncSession::delivered_ids, (steps, sent), marked),
    ensures
        (exists|k: int| 0 <= k < marked@.len() && (#[trigger] marked@[k])@ == id) <==> exists|i: int|
            0 <= i < steps@.len() && match #[trigger] steps@[i] {
                OutboundStep::SendData { entry_id: Some(e), .. } => sent@[i] && e@ == id,
                OutboundStep::Nothing { delivered: Some(e) } => e@ == id,
                _ => false,
            },
{
    let all = delivered(steps@, sent@);
    assert(all == texts(marked@));
    if exists|k: int| 0 <= k < marked@.len() && (#[trigger] marked@[k])@ == id {
        let k = choose|k: int| 0 <= k < marked@.len() && (#[trigger] marked@[k])@ == id;
        assert(texts(marked@)[k] == id);
        assert(all.contains(id));
        law_delivered_only_if_sent(steps@, sent@, id);
        let i = choose|i: int| 0 <= i < steps@.len() && #[trigger] delivers(steps@[i], sent@[i], id);
        assert(step_delivers(steps@[i], sent@[i]) is Some);
    }
    if exists|i: int|
        0 <= i < steps@.len() && match #[trigger] steps@[i] {
            OutboundStep::SendData { entry_id: Some(e), .. } => sent@[i] && e@ == id,
            OutboundStep::Nothing { delivered: Some(e) } => e@ == id,
            _ => false,
        } {
        let i = choose|i: int|
            0 <= i < steps@.len() && match #[trigger] steps@[i] {
                OutboundStep::SendData { entry_id: Some(e), .. } => sent@[i] && e@ == id,
                OutboundStep::Nothing { delivered: Some(e) } => e@ == id,
                _ => false,
            };
        assert(delivers(steps@[i], sent@[i], id));
        lemma_delivered_is_listed(steps@, sent@, i, id);
        let k = choose|k: int| 0 <= k < all.len() && all[k] == id;
        assert(texts(marked@)[k] == marked@[k]@);
    }
}

proof fn lemma_delivered_is_listed(
    steps: Seq<OutboundStep>,
    sent: Seq<bool>,
    i: int,
    id: Seq<char>,
)
    requires
        0 <= i < steps.len(),
        delivers(steps[i], sent[i], id),
    ensures
        delivered(steps, sent).contains(id),
    decreases steps.len(),
{
    let n = steps.len() - 1;
    let before = delivered(steps.drop_last(), sent);
    if i == n {
        assert(delivered(steps, sent).last() == id);
    } else {
        lemma_delivered_is_listed(steps.drop_last(), sent, i, id);
        let k = choose|k: int| 0 <= k < before.len() && before[k] == id;
        assert(delivered(steps, sent)[k] == id);
    }
}

/// A task that went well is never taken for a failure, and what fails where nothing is tolerated, or
/// in the store or the program itself on a control message, is reported as it is. Other failures of
/// control messages, and all failures of data frames, end here.
pub proof fn law_failures_go_as_far_as_they_should(
    event: TransportEvent,
    trusted: bool,
    routed: Routed,
    answer: CoreResult<()>,
    r: CoreResult<()>,
)
    requires
        call_ensures(SyncSession::handle_transport_event, (event, trusted), routed),
        call_ensures(SyncSession::settle, (routed.tolerance, answer), r),
    ensures
        answer is Ok ==> r is Ok,
        event is Data ==> r is Ok,
        event is Control ==> (r is Err <==> (answer matches Err(e) && (e is Store || e is Internal))),
        !(event is Data) && !(event is Control) ==> (r is Err <==> answer is Err),
        r matches Err(e) ==> answer == Err::<(), CoreError>(e),
{
}

/// Nothing but a failed export is dropped. Changes that cannot be had are asked for again as a
/// snapshot of the same document and block; a snapshot that cannot be had is given up, unless the
/// store or the program itself failed, which is reported.
pub proof fn law_failed_export_is_tried_again(
    peer_id: PeerId,
    request: ExportRequest,
    answer: CoreResult<Vec<u8>>,
    outcome: ExportOutcome,
)
    requires
        call_ensures(SyncSession::settle_export, (peer_id, request, answer), outcome),
    ensures
        outcome is Drop || outcome is Fail || outcome is Retry ==> answer is Err,
        answer is Err && request.since is Some ==> (outcome matches ExportOutcome::Retry(again)
            && again.doc_id == request.doc_id && again.block_id == request.block_id
            && again.since is None),
        answer matches Err(e) && request.since is None && (e is Store || e is Internal) ==> (
        outcome matches ExportOutcome::Fail(said) && said == answer->Err_0),
        answer matches Err(e) && request.since is None && !(e is Store || e is Internal)
            ==> outcome is Drop,
{
}

/// A session of a peer sends in the name of that peer, and its first frame is numbered zero.
pub proof fn law_session_speaks_for_its_peer(
    peer_id: PeerId,
    made: SyncSession,
    session: &mut SyncSession,
    action: SyncAction,
    step: OutboundStep,
)
    requires
        call_ensures(SyncSession::new, (peer_id,), made),
        *old(session) == made,
        call_ensures(SyncSession::plan_action, (session, action), step),
    ensures
        step matches OutboundStep::SendData { frame, .. } ==> frame.actor_id == peer_id && frame.seq
            == 0 && final(session).upcoming() == 1,
        final(session).local() == peer_id,
{
}

/// A frame and a message lead to the same task whether they come as an event of the transport or by
/// themselves, as far as the task carries texts and bytes.
pub proof fn law_events_lead_to_the_same_tasks(
    peer_id: PeerId,
    frame: DataFrame,
    msg: ControlMsg,
    trusted: bool,
    data: InboundTask,
    data_routed: Routed,
    control: InboundTask,
    control_routed: Routed,
)
    requires
        call_ensures(SyncSession::handle_inbound_data, (peer_id, frame, trusted), data),
        call_ensures(
            SyncSession::handle_transport_event,
            (TransportEvent::Data { peer_id, frame }, trusted),
            data_routed,
        ),
        call_ensures(SyncSession::handle_inbound_control, (peer_id, msg, trusted), control),
        call_ensures(
            SyncSession::handle_transport_event,
            (TransportEvent::Control { peer_id, msg }, trusted),
            control_routed,
        ),
    ensures
        control == control_routed.task,
        data is Ignore <==> data_routed.task is Ignore,
        data matches InboundTask::ApplyBlockDelta { doc_id, block_id, delta, from } ==> (
        data_routed.task matches InboundTask::ApplyBlockDelta {
            doc_id: d,
            block_id: b,
            delta: c,
            from: f,
        } && d == doc_id && b@ == block_id@ && c@ == delta@ && f == from),
        data matches InboundTask::ApplyMetaDelta { doc_id, delta, from } ==> (
        data_routed.task matches InboundTask::ApplyMetaDelta { doc_id: d, delta: c, from: f } && d
            == doc_id && c@ == delta@ && f == from),
        !trusted ==> data is Ignore,
{
}

/// A frame of a trusted peer is dropped just where its payload cannot be taken apart; otherwise what it
/// carries is applied as it is, in the name of its sender and for its document.
pub proof fn law_readable_frames_are_applied(
    peer_id: PeerId,
    frame: DataFrame,
    routed: Routed,
    payload: &[u8],
    read: CoreResult<(Option<BlockId>, Vec<u8>)>,
)
    requires
        call_ensures(
            SyncSession::handle_transport_event,
            (TransportEvent::Data { peer_id, frame }, true),
            routed,
        ),
        payload@ == frame.payload@,
        call_ensures(decode_payload, (payload,), read),
    ensures
        routed.task is Ignore <==> read is Err,
        read matches Ok((Some(block), change)) ==> (
        routed.task matches InboundTask::ApplyBlockDelta { doc_id, block_id, delta, from } && doc_id
            == frame.doc_id && block_id@ == block@ && delta@ == change@ && from == peer_id),
        read matches Ok((None, change)) ==> (routed.task matches InboundTask::ApplyMetaDelta {
            doc_id,
            delta,
            from,
        } && doc_id == frame.doc_id && delta@ == change@ && from == peer_id),
{
}

} // verus!
