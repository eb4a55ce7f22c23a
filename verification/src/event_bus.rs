//! Events to any number of subscribers, each with its own queue and filter.

use vstd::prelude::*;

use crate::channel::{bounded_queue, try_send, SendOutcome};
use crate::event::CoreEvent;
use crate::ids::DocId;

verus! {

/// How many events wait for a subscriber at most; further ones are lost to it.
pub const SUBSCRIBER_CAPACITY: usize = 256;

/// Names a subscription.
#[derive(Debug, Clone, Copy, PartialEq, Eq, Hash, Structural)]
pub struct SubscriptionId(pub u64);

/// Says which events a subscriber wants. Platforms implement it.
pub trait EventPredicate {
    /// Whether the subscriber wants an event.
    fn wants(&self, event: &CoreEvent) -> bool;
}

/// Wants every event; stands where no predicate of a platform is used.
#[derive(Debug, Clone, Copy, PartialEq, Eq)]
pub struct EveryEvent;

impl EventPredicate for EveryEvent {
    fn wants(&self, event: &CoreEvent) -> (r: bool)
        ensures
            r,
    {
        true
    }
}

/// Which events a subscriber wants.
#[derive(Debug, PartialEq, Eq)]
pub enum EventFilter<P = EveryEvent> {
    /// Events of synchronisation.
    SyncOnly,
    PeerStatusOnly,
    ErrorsOnly,
    /// Events of one document.
    DocOnly(DocId),
    /// Events that a predicate wants.
    Where(P),
}

/// Whether a filter was asked of an event and answered this.
pub open spec fn answers<P: EventPredicate>(
    filter: EventFilter<P>,
    event: CoreEvent,
    answer: bool,
) -> bool {
    match filter {
        EventFilter::Where(p) => call_ensures(P::wants, (&p, &event), answer),
        _ => answer == passes(filter, event),
    }
}

/// Whether a filter of this library lets an event through.
pub open spec fn passes<P>(filter: EventFilter<P>, event: CoreEvent) -> bool {
    match filter {
        EventFilter::Where(_) => true,
        EventFilter::SyncOnly => event is SyncStarted || event is SyncProgress
            || event is SyncBlockedOnDependency || event is SyncCompleted,
        EventFilter::PeerStatusOnly => event is PeerStatusChanged,
        EventFilter::ErrorsOnly => event is ErrorRaised,
        EventFilter::DocOnly(doc) => match event {
            CoreEvent::SyncProgress { doc_id, .. } => doc_id@ == doc@,
            CoreEvent::SyncBlockedOnDependency { doc_id, .. } => doc_id@ == doc@,
            CoreEvent::ConflictMerged { doc_id, .. } => doc_id@ == doc@,
            _ => false,
        },
    }
}

/// Whether a subscriber with this filter, or none, wants an event, as its filter answered.
pub open spec fn wanted<P: EventPredicate>(
    filter: Option<EventFilter<P>>,
    event: CoreEvent,
    answer: bool,
) -> bool {
    match filter {
        Some(f) => answers(f, event, answer),
        None => answer,
    }
}

/// Events of synchronisation only.
pub fn sync_only<P>() -> (r: EventFilter<P>)
    ensures
        r == EventFilter::<P>::SyncOnly,
{
    EventFilter::SyncOnly
}

/// Changes of a peer's status only.
pub fn peer_status_only<P>() -> (r: EventFilter<P>)
    ensures
        r == EventFilter::<P>::PeerStatusOnly,
{
    EventFilter::PeerStatusOnly
}

/// Errors only.
pub fn errors_only<P>() -> (r: EventFilter<P>)
    ensures
        r == EventFilter::<P>::ErrorsOnly,
{
    EventFilter::ErrorsOnly
}

/// Those events only that a predicate wants.
pub fn only_where<P>(predicate: P) -> (r: EventFilter<P>)
    ensures
        r == EventFilter::Where(predicate),
{
    EventFilter::Where(predicate)
}

/// Events of `doc_id` only.
pub fn doc_only<P>(doc_id: DocId) -> (r: EventFilter<P>)
    ensures
        r == EventFilter::<P>::DocOnly(doc_id),
{
    EventFilter::DocOnly(doc_id)
}

impl<P: EventPredicate> EventFilter<P> {
    /// Whether the filter lets an event through.
    pub fn matches(&self, event: &CoreEvent) -> (r: bool)
        ensures
            answers(*self, *event, r),
    {
        match self {
            EventFilter::Where(p) => p.wants(event),
            EventFilter::SyncOnly => match event {
                CoreEvent::SyncStarted { .. } => true,
                CoreEvent::SyncProgress { .. } => true,
                CoreEvent::SyncBlockedOnDependency { .. } => true,
                CoreEvent::SyncCompleted { .. } => true,
                _ => false,
            },
            EventFilter::PeerStatusOnly => match event {
                CoreEvent::PeerStatusChanged { .. } => true,
                _ => false,
            },
            EventFilter::ErrorsOnly => match event {
                CoreEvent::ErrorRaised { .. } => true,
                _ => false,
            },
            EventFilter::DocOnly(doc) => match event {
                CoreEvent::SyncProgress { doc_id, .. } => doc_id.same(doc),
                CoreEvent::SyncBlockedOnDependency { doc_id, .. } => doc_id.same(doc),
                CoreEvent::ConflictMerged { doc_id, .. } => doc_id.same(doc),
                _ => false,
            },
        }
    }
}

/// A subscriber.
#[derive(Debug)]
struct Subscriber<P> {
    id: u64,
    filter: Option<EventFilter<P>>,
    tx: crossbeam_channel::Sender<CoreEvent>,
}

/// Sends events to subscribers.
#[derive(Debug)]
pub struct EventBus<P = EveryEvent> {
    subscribers: Vec<Subscriber<P>>,
    next_id: u64,
}

/// A subscription: its number, its filter, and the sending end of its queue.
pub type Subscription<P> = (u64, Option<EventFilter<P>>, crossbeam_channel::Sender<CoreEvent>);

/// Whether `tx` and `rx` are the two ends of a queue that was made for a subscriber.
pub closed spec fn joined(
    tx: crossbeam_channel::Sender<CoreEvent>,
    rx: crossbeam_channel::Receiver<CoreEvent>,
) -> bool {
    call_ensures(bounded_queue::<CoreEvent>, (SUBSCRIBER_CAPACITY,), (tx, rx))
}

/// Whether an event was handed to a queue with this outcome.
pub closed spec fn handed(
    tx: crossbeam_channel::Sender<CoreEvent>,
    event: CoreEvent,
    outcome: SendOutcome<CoreEvent>,
) -> bool {
    call_ensures(try_send::<CoreEvent>, (&tx, event), outcome)
}

/// What became of an event at each of some subscriptions: it was handed to the queues of those
/// that want it, and to no other.
pub open spec fn offered<P: EventPredicate>(
    subs: Seq<Subscription<P>>,
    event: CoreEvent,
    outcomes: Seq<Option<SendOutcome<CoreEvent>>>,
) -> bool {
    &&& outcomes.len() == subs.len()
    &&& forall|i: int|
        0 <= i < subs.len() ==> match #[trigger] outcomes[i] {
            Some(outcome) => wanted(subs[i].1, event, true) && handed(subs[i].2, event, outcome),
            None => wanted(subs[i].1, event, false),
        }
}

/// How many of the outcomes say that the event was sent.
pub open spec fn sent(outcomes: Seq<Option<SendOutcome<CoreEvent>>>) -> nat
    decreases outcomes.len(),
{
    if outcomes.len() == 0 {
        0
    } else {
        sent(outcomes.drop_last()) + if outcomes.last() == Some(SendOutcome::<CoreEvent>::Sent) {
            1nat
        } else {
            0nat
        }
    }
}

impl<P> View for EventBus<P> {
    type V = Seq<Subscription<P>>;

    /// The subscriptions, oldest first.
    closed spec fn view(&self) -> Seq<Subscription<P>> {
        self.subscribers@.map_values(|s: Subscriber<P>| (s.id, s.filter, s.tx))
    }
}

impl Default for EventBus {
    fn default() -> (r: Self)
        ensures
            r@ == Seq::<Subscription<EveryEvent>>::empty(),
            r.upcoming() == 0,
            r.wf(),
    {
        EventBus::new()
    }
}

impl EventBus {
    pub fn new() -> (r: Self)
        ensures
            r@ == Seq::<Subscription<EveryEvent>>::empty(),
            r.upcoming() == 0,
            r.wf(),
    {
        EventBus::with_predicates()
    }
}

impl<P: EventPredicate> EventBus<P> {
    /// The number that the next subscription gets.
    pub closed spec fn upcoming(&self) -> u64 {
        self.next_id
    }

    /// The numbers of the subscriptions ascend and are all below the next one.
    pub open spec fn wf(&self) -> bool {
        &&& forall|i: int, j: int| 0 <= i < j < self@.len() ==> (#[trigger] self@[i]).0 < (
        #[trigger] self@[j]).0
        &&& forall|i: int| 0 <= i < self@.len() ==> (#[trigger] self@[i]).0 < self.upcoming()
    }

    /// A bus whose subscribers may bring predicates of their own.
    pub fn with_predicates() -> (r: Self)
        ensures
            r@ == Seq::<Subscription<P>>::empty(),
            r.upcoming() == 0,
            r.wf(),
    {
        let r = EventBus { subscribers: Vec::new(), next_id: 0 };
        assert(r@ =~= Seq::<Subscription<P>>::empty());
        r
    }

    /// Subscribes to all events. Returns the number of the subscription and its queue.
    pub fn subscribe(&mut self) -> (r: (SubscriptionId, crossbeam_channel::Receiver<CoreEvent>))
        requires
            old(self).wf(),
            old(self).upcoming() < u64::MAX,
        ensures
            final(self).wf(),
            r.0 == SubscriptionId(old(self).upcoming()),
            final(self).upcoming() == old(self).upcoming() + 1,
            exists|tx: crossbeam_channel::Sender<CoreEvent>| #[trigger]
                joined(tx, r.1) && final(self)@ == old(self)@.push((old(self).upcoming(), None, tx)),
    {
        self.subscribe_with_filter(None)
    }

    /// Subscribes to the events that a filter lets through.
    pub fn subscribe_with_filter(&mut self, filter: Option<EventFilter<P>>) -> (r: (
        SubscriptionId,
        crossbeam_channel::Receiver<CoreEvent>,
    ))
        requires
            old(self).wf(),
            old(self).upcoming() < u64::MAX,
        ensures
            final(self).wf(),
            r.0 == SubscriptionId(old(self).upcoming()),
            final(self).upcoming() == old(self).upcoming() + 1,
            exists|tx: crossbeam_channel::Sender<CoreEvent>| #[trigger]
                joined(tx, r.1) && final(self)@ == old(self)@.push(
                    (old(self).upcoming(), filter, tx),
                ),
    {
        let (tx, rx) = bounded_queue(SUBSCRIBER_CAPACITY);
        let id: u64 = self.next_id;
        self.next_id = id + 1;
        self.subscribers.push(Subscriber { id, filter, tx });
        let r = (SubscriptionId(id), rx);
        assert(joined(tx, r.1));
        assert(self@ =~= old(self)@.push((id, filter, tx)));
        r
    }

    /// Ends a subscription. The others stay as they are.
    pub fn unsubscribe(&mut self, id: &SubscriptionId)
        requires
            old(self).wf(),
        ensures
            final(self).wf(),
            final(self).upcoming() == old(self).upcoming(),
            final(self)@ == old(self)@.filter(|s: Subscription<P>| s.0 != id.0),
    {
        let ghost start = self@;
        let ghost keep = |s: Subscription<P>| s.0 != id.0;
        let mut i: usize = 0;
        while i < self.subscribers.len()
            invariant
                i <= self.subscribers@.len(),
                self.wf(),
                self.upcoming() == old(self).upcoming(),
                keep == (|s: Subscription<P>| s.0 != id.0),
                self@.filter(keep) == start.filter(keep),
                forall|j: int| 0 <= j < i ==> keep(#[trigger] self@[j]),
            decreases self.subscribers@.len() - i,
        {
            let ghost before = self@;
            if self.subscribers[i].id == id.0 {
                let _ = self.subscribers.remove(i);
                proof {
                    assert(self@ =~= before.remove(i as int));
                    lemma_filter_remove(before, i as int, keep);
                    assert forall|a: int, b: int| 0 <= a < b < self@.len() implies (
                    #[trigger] self@[a]).0 < (#[trigger] self@[b]).0 by {
                        let a2 = if a < i {
                            a
                        } else {
                            a + 1
                        };
                        let b2 = if b < i {
                            b
                        } else {
                            b + 1
                        };
                        assert(before[a2].0 < before[b2].0);
                    }
                    assert forall|a: int| 0 <= a < self@.len() implies (#[trigger] self@[a]).0
                        < self.upcoming() by {
                        let a2 = if a < i {
                            a
                        } else {
                            a + 1
                        };
                        assert(before[a2].0 < self.upcoming());
                    }
                }
            } else {
                i = i + 1;
            }
        }
        proof {
            lemma_filter_all(self@, keep);
        }
    }

    /// Sends an event to every subscriber that wants it and has room, and tells to how many it
    /// was sent. A subscriber without room, or gone, does not hold up the others.
    pub fn publish(&self, event: &CoreEvent) -> (r: usize)
        ensures
            exists|outcomes: Seq<Option<SendOutcome<CoreEvent>>>| #[trigger]
                offered(self@, *event, outcomes) && r == sent(outcomes),
    {
        let mut count: usize = 0;
        let ghost mut outcomes: Seq<Option<SendOutcome<CoreEvent>>> = Seq::empty();
        let mut i: usize = 0;
        while i < self.subscribers.len()
            invariant
                i <= self.subscribers@.len(),
                count <= i,
                count == sent(outcomes),
                outcomes.len() == i,
                forall|j: int|
                    0 <= j < i ==> match #[trigger] outcomes[j] {
                        Some(outcome) => wanted(self@[j].1, *event, true) && handed(
                            self@[j].2,
                            *event,
                            outcome,
                        ),
                        None => wanted(self@[j].1, *event, false),
                    },
            decreases self.subscribers@.len() - i,
        {
            let sub = &self.subscribers[i];
            assert(self@[i as int] == (sub.id, sub.filter, sub.tx));
            let interested = match &sub.filter {
                Some(f) => f.matches(event),
                None => true,
            };
            assert(wanted(sub.filter, *event, interested));
            if interested {
                let outcome = try_send(&sub.tx, event.clone());
                assert(handed(sub.tx, *event, outcome));
                proof {
                    assert(outcomes.push(Some(outcome)).drop_last() =~= outcomes);
                    outcomes = outcomes.push(Some(outcome));
                }
                if let SendOutcome::Sent = outcome {
                    count = count + 1;
                }
            } else {
                proof {
                    assert(outcomes.push(None).drop_last() =~= outcomes);
                    outcomes = outcomes.push(None);
                }
            }
            i = i + 1;
        }
        assert(offered(self@, *event, outcomes));
        count
    }

    /// How many subscriptions there are.
    pub fn subscriber_count(&self) -> (r: usize)
        ensures
            r == self@.len(),
    {
        self.subscribers.len()
    }
}

proof fn lemma_filter_all<A>(s: Seq<A>, keep: spec_fn(A) -> bool)
    requires
        forall|i: int| 0 <= i < s.len() ==> keep(#[trigger] s[i]),
    ensures
        s.filter(keep) == s,
    decreases s.len(),
{
    reveal(Seq::filter);
    if s.len() > 0 {
        let front = s.drop_last();
        assert forall|i: int| 0 <= i < front.len() implies keep(#[trigger] front[i]) by {
            assert(front[i] == s[i]);
        }
        lemma_filter_all(front, keep);
        assert(keep(s[s.len() - 1]));
        assert(front.push(s.last()) =~= s);
    } else {
        assert(s.filter(keep) =~= s);
    }
}

proof fn lemma_filter_remove<A>(s: Seq<A>, i: int, keep: spec_fn(A) -> bool)
    requires
        0 <= i < s.len(),
        !keep(s[i]),
    ensures
        s.remove(i).filter(keep) == s.filter(keep),
    decreases s.len(),
{
    reveal(Seq::filter);
    let t = s.remove(i);
    if i == s.len() - 1 {
        assert(t =~= s.drop_last());
    } else {
        lemma_filter_remove(s.drop_last(), i, keep);
        assert(t.drop_last() =~= s.drop_last().remove(i));
        assert(t.last() == s.last());
    }
}

/// A subscription that ends is gone, and no other goes with it.
pub proof fn law_unsubscribe_is_exact<P>(
    subs: Seq<Subscription<P>>,
    id: u64,
    other: Subscription<P>,
)
    ensures
        subs.filter(|s: Subscription<P>| s.0 != id).contains(other) <==> subs.contains(
            other,
        ) && other.0 != id,
{
    let keep = |s: Subscription<P>| s.0 != id;
    let kept = subs.filter(keep);
    if kept.contains(other) {
        subs.lemma_filter_contains_rev(keep, other);
        let i = choose|i: int| 0 <= i < kept.len() && kept[i] == other;
        subs.lemma_filter_pred(keep, i);
    }
    if subs.contains(other) && other.0 != id {
        let i = choose|i: int| 0 <= i < subs.len() && subs[i] == other;
        subs.lemma_filter_contains(keep, i);
    }
}

/// A filter lets through what its name says: the four events of synchronisation, changes of a peer's
/// status, errors, or the events that name one document; and a predicate decides for itself.
pub proof fn law_filters_keep_their_word<P: EventPredicate>(
    event: &CoreEvent,
    doc: DocId,
    sync: EventFilter<P>,
    status: EventFilter<P>,
    errors: EventFilter<P>,
    of_doc: EventFilter<P>,
    to_sync: bool,
    to_status: bool,
    to_errors: bool,
    to_doc: bool,
)
    requires
        call_ensures(sync_only::<P>, (), sync),
        call_ensures(peer_status_only::<P>, (), status),
        call_ensures(errors_only::<P>, (), errors),
        call_ensures(doc_only::<P>, (doc,), of_doc),
        call_ensures(EventFilter::<P>::matches, (&sync, event), to_sync),
        call_ensures(EventFilter::<P>::matches, (&status, event), to_status),
        call_ensures(EventFilter::<P>::matches, (&errors, event), to_errors),
        call_ensures(EventFilter::<P>::matches, (&of_doc, event), to_doc),
    ensures
        to_sync <==> (event is SyncStarted || event is SyncProgress
            || event is SyncBlockedOnDependency || event is SyncCompleted),
        to_status <==> event is PeerStatusChanged,
        to_errors <==> event is ErrorRaised,
        to_doc <==> match *event {
            CoreEvent::SyncProgress { doc_id, .. } => doc_id@ == doc@,
            CoreEvent::SyncBlockedOnDependency { doc_id, .. } => doc_id@ == doc@,
            CoreEvent::ConflictMerged { doc_id, .. } => doc_id@ == doc@,
            _ => false,
        },
{
}

/// A predicate of the platform is asked of the event, and its answer is what counts.
pub proof fn law_predicate_decides<P: EventPredicate>(
    predicate: P,
    filter: EventFilter<P>,
    event: &CoreEvent,
    through: bool,
)
    requires
        call_ensures(only_where::<P>, (predicate,), filter),
        call_ensures(EventFilter::<P>::matches, (&filter, event), through),
    ensures
        call_ensures(P::wants, (&predicate, event), through),
{
}

/// A subscription without a filter gets a number and a queue of its own, and is counted; an event that is
/// published afterwards is handed to its queue, and the subscriptions before it stay as they were.
pub proof fn law_subscriber_is_handed_events<P: EventPredicate>(
    bus: &mut EventBus<P>,
    r: (SubscriptionId, crossbeam_channel::Receiver<CoreEvent>),
    event: &CoreEvent,
    reached: usize,
)
    requires
        old(bus).wf(),
        call_ensures(EventBus::<P>::subscribe, (bus,), r),
        call_ensures(EventBus::<P>::publish, (&*final(bus), event), reached),
    ensures
        final(bus)@.len() == old(bus)@.len() + 1,
        final(bus)@.drop_last() == old(bus)@,
        final(bus)@.last().0 == r.0.0,
        forall|i: int| 0 <= i < old(bus)@.len() ==> (#[trigger] old(bus)@[i]).0 != r.0.0,
        joined(final(bus)@.last().2, r.1),
        exists|outcome: SendOutcome<CoreEvent>| #[trigger]
            handed(final(bus)@.last().2, *event, outcome),
{
    assert(final(bus)@.drop_last() =~= old(bus)@);
    let outcomes = choose|outcomes: Seq<Option<SendOutcome<CoreEvent>>>| #[trigger]
        offered(final(bus)@, *event, outcomes) && reached == sent(outcomes);
    let n = old(bus)@.len() as int;
    assert(outcomes[n] is Some);
}

/// A subscription with a filter is handed the events that its filter lets through, and only those.
pub proof fn law_filter_guards_a_subscription<P: EventPredicate>(
    bus: &mut EventBus<P>,
    filter: EventFilter<P>,
    r: (SubscriptionId, crossbeam_channel::Receiver<CoreEvent>),
    event: &CoreEvent,
    reached: usize,
)
    requires
        old(bus).wf(),
        !(filter is Where),
        call_ensures(EventBus::<P>::subscribe_with_filter, (bus, Some(filter)), r),
        call_ensures(EventBus::<P>::publish, (&*final(bus), event), reached),
    ensures
        joined(final(bus)@.last().2, r.1),
        final(bus)@.last().0 == r.0.0,
        final(bus)@.last().1 == Some(filter),
        call_ensures(EventFilter::<P>::matches, (&filter, event), true) && !call_ensures(
            EventFilter::<P>::matches,
            (&filter, event),
            false,
        ) ==> exists|outcome: SendOutcome<CoreEvent>| #[trigger]
            handed(final(bus)@.last().2, *event, outcome),
        reached <= final(bus)@.len(),
        old(bus)@.len() == 0 && reached == 1 ==> handed(
            final(bus)@.last().2,
            *event,
            SendOutcome::Sent,
        ) && passes(filter, *event),
{
    let outcomes = choose|outcomes: Seq<Option<SendOutcome<CoreEvent>>>| #[trigger]
        offered(final(bus)@, *event, outcomes) && reached == sent(outcomes);
    let n = old(bus)@.len() as int;
    lemma_sent_at_most(outcomes);
    if old(bus)@.len() == 0 {
        assert(outcomes.drop_last() =~= Seq::<Option<SendOutcome<CoreEvent>>>::empty());
        assert(sent(outcomes.drop_last()) == 0);
        assert(outcomes.last() == outcomes[0]);
    }
    if call_ensures(EventFilter::<P>::matches, (&filter, event), true) {
        assert(passes(filter, *event));
        assert(outcomes[n] is Some);
    }
}

proof fn lemma_sent_at_most(outcomes: Seq<Option<SendOutcome<CoreEvent>>>)
    ensures
        sent(outcomes) <= outcomes.len(),
    decreases outcomes.len(),
{
    if outcomes.len() > 0 {
        lemma_sent_at_most(outcomes.drop_last());
    }
}

/// As many subscribers are told to be reached as have taken the event into their queues; where there are
/// none, none is.
pub proof fn law_reached_are_those_that_took_it<P: EventPredicate>(
    bus: &EventBus<P>,
    event: &CoreEvent,
    reached: usize,
)
    requires
        call_ensures(EventBus::<P>::publish, (bus, event), reached),
    ensures
        reached <= bus@.len(),
        reached == bus@.len() ==> forall|i: int|
            0 <= i < bus@.len() ==> handed((#[trigger] bus@[i]).2, *event, SendOutcome::Sent),
        reached > 0 ==> exists|i: int|
            0 <= i < bus@.len() && handed((#[trigger] bus@[i]).2, *event, SendOutcome::Sent),
{
    let outcomes = choose|outcomes: Seq<Option<SendOutcome<CoreEvent>>>| #[trigger]
        offered(bus@, *event, outcomes) && reached == sent(outcomes);
    lemma_sent_at_most(outcomes);
    lemma_sent_are_there(outcomes);
    if reached == bus@.len() {
        assert forall|i: int| 0 <= i < bus@.len() implies handed(
            (#[trigger] bus@[i]).2,
            *event,
            SendOutcome::Sent,
        ) by {
            assert(outcomes[i] == Some(SendOutcome::<CoreEvent>::Sent));
        }
    }
    if reached > 0 {
        let i = choose|i: int|
            0 <= i < outcomes.len() && #[trigger] outcomes[i] == Some(
                SendOutcome::<CoreEvent>::Sent,
            );
        assert(handed(bus@[i].2, *event, SendOutcome::Sent));
    }
}

proof fn lemma_sent_are_there(outcomes: Seq<Option<SendOutcome<CoreEvent>>>)
    ensures
        sent(outcomes) == outcomes.len() ==> forall|i: int|
            0 <= i < outcomes.len() ==> #[trigger] outcomes[i] == Some(
                SendOutcome::<CoreEvent>::Sent,
            ),
        sent(outcomes) > 0 ==> exists|i: int|
            0 <= i < outcomes.len() && #[trigger] outcomes[i] == Some(
                SendOutcome::<CoreEvent>::Sent,
            ),
    decreases outcomes.len(),
{
    if outcomes.len() > 0 {
        let front = outcomes.drop_last();
        let n = outcomes.len() - 1;
        lemma_sent_at_most(front);
        lemma_sent_are_there(front);
        if sent(outcomes) == outcomes.len() {
            assert forall|i: int| 0 <= i < outcomes.len() implies #[trigger] outcomes[i] == Some(
                SendOutcome::<CoreEvent>::Sent,
            ) by {
                if i < n {
                    assert(front[i] == outcomes[i]);
                }
            }
        }
        if sent(outcomes) > 0 {
            if sent(front) > 0 {
                let i = choose|i: int|
                    0 <= i < front.len() && #[trigger] front[i] == Some(
                        SendOutcome::<CoreEvent>::Sent,
                    );
                assert(outcomes[i] == Some(SendOutcome::<CoreEvent>::Sent));
            } else {
                assert(outcomes[n] == Some(SendOutcome::<CoreEvent>::Sent));
            }
        }
    }
}

/// A subscription that ends is gone, and the others stay as they were.
pub proof fn law_ended_subscription_is_gone<P: EventPredicate>(
    bus: &mut EventBus<P>,
    id: &SubscriptionId,
    other: Subscription<P>,
)
    requires
        call_ensures(EventBus::<P>::unsubscribe, (bus, id), ()),
    ensures
        final(bus)@.contains(other) <==> old(bus)@.contains(other) && other.0 != id.0,
{
    law_unsubscribe_is_exact(old(bus)@, id.0, other);
}

/// A new bus has no subscribers, and as many are counted as there are.
pub proof fn law_subscribers_are_counted<P: EventPredicate>(
    made: EventBus<P>,
    bus: &EventBus<P>,
    count: usize,
    plain: EventBus,
)
    requires
        call_ensures(EventBus::<P>::with_predicates, (), made),
        call_ensures(EventBus::<P>::subscriber_count, (bus,), count),
        call_ensures(EventBus::new, (), plain),
    ensures
        made@.len() == 0,
        plain@.len() == 0,
        count == bus@.len(),
{
}

/// The queue of a subscriber is made for 256 events.
pub(crate) proof fn law_subscribers_have_room(
    tx: crossbeam_channel::Sender<CoreEvent>,
    rx: crossbeam_channel::Receiver<CoreEvent>,
)
    requires
        joined(tx, rx),
    ensures
        call_ensures(bounded_queue::<CoreEvent>, (256usize,), (tx, rx)),
{
}

} // verus!
