//! Listeners that are told of each event at once.

use vstd::prelude::*;
use vstd::string::*;

use crate::event::CoreEvent;
use crate::json::{json_quote, json_quoted};
use crate::text::join2;

verus! {

/// Is told of events. Platforms implement it.
pub trait TacitEventListener {
    /// Tells the listener of an event.
    fn on_event(&self, event: CoreEvent);
}

/// Tells listeners of events.
#[derive(Debug)]
pub struct EventDispatcher<L> {
    listeners: Vec<L>,
}

/// Whether a listener was told of an event.
pub open spec fn told<L: TacitEventListener>(listener: L, event: CoreEvent) -> bool {
    call_ensures(L::on_event, (&listener, event), ())
}

/// Whether each of some listeners was told of an event.
pub open spec fn told_all<L: TacitEventListener>(listeners: Seq<L>, event: CoreEvent) -> bool {
    forall|i: int| 0 <= i < listeners.len() ==> #[trigger] told(listeners[i], event)
}

impl<L: TacitEventListener> EventDispatcher<L> {
    /// The listeners, in the order in which they were registered.
    pub closed spec fn listeners(&self) -> Seq<L> {
        self.listeners@
    }

    pub fn new() -> (r: Self)
        ensures
            r.listeners() == Seq::<L>::empty(),
    {
        EventDispatcher { listeners: Vec::new() }
    }

    /// Adds a listener.
    pub fn register(&mut self, listener: L)
        ensures
            final(self).listeners() == old(self).listeners().push(listener),
    {
        self.listeners.push(listener);
    }

    /// Tells every listener of an event, in the order in which they were registered.
    pub fn dispatch(&self, event: &CoreEvent)
        ensures
            told_all(self.listeners(), *event),
    {
        let mut i: usize = 0;
        while i < self.listeners.len()
            invariant
                i <= self.listeners@.len(),
                forall|j: int| 0 <= j < i ==> #[trigger] told(self.listeners()[j], *event),
            decreases self.listeners@.len() - i,
        {
            self.listeners[i].on_event(event.clone());
            assert(told(self.listeners()[i as int], *event));
            i = i + 1;
        }
    }
}

/// Is told of events as JSON. Platforms in other languages implement it.
pub trait ForeignEventListener {
    /// Tells the listener of an event.
    fn on_event(&self, event_json: String);
}

/// The event, as JSON, where an event could not be written.
pub open spec fn lost_event_text(why: Seq<char>) -> Seq<char> {
    "{\"ErrorRaised\":{\"message\":"@ + json_quoted("事件序列化失败: "@ + why)
        + ",\"scope\":\"Sync\"}}"@
}

/// The event, as JSON, where an event could not be written.
pub fn lost_event_json(why: &str) -> (r: String)
    ensures
        r@ == lost_event_text(why@),
{
    let mut out = "{\"ErrorRaised\":{\"message\":".to_owned();
    let text = join2("事件序列化失败: ", why);
    let quoted = json_quote(text.as_str());
    out.append(quoted.as_str());
    out.append(",\"scope\":\"Sync\"}}");
    out
}

/// What a foreign listener is told, where `json` is the event as JSON or why it could not be
/// written.
pub open spec fn event_text(json: Result<String, String>) -> Seq<char> {
    match json {
        Ok(text) => text@,
        Err(why) => lost_event_text(why@),
    }
}

/// Whether a foreign listener was told a text.
pub open spec fn told_text<F: ForeignEventListener>(listener: F, text: Seq<char>) -> bool {
    exists|t: String| t@ == text && #[trigger] call_ensures(F::on_event, (&listener, t), ())
}

/// Tells a foreign listener of events.
#[derive(Debug)]
pub struct ForeignListenerAdapter<F> {
    inner: F,
}

impl<F: ForeignEventListener> ForeignListenerAdapter<F> {
    /// The listener.
    pub closed spec fn listener(&self) -> F {
        self.inner
    }

    pub fn new(inner: F) -> (r: Self)
        ensures
            r.listener() == inner,
    {
        ForeignListenerAdapter { inner }
    }

    /// Tells the listener of an event that `json` writes. Where it could not be written, the
    /// listener is told that.
    pub fn on_event(&self, json: Result<String, String>)
        ensures
            told_text(self.listener(), event_text(json)),
    {
        let text = match json {
            Ok(text) => text,
            Err(why) => lost_event_json(why.as_str()),
        };
        let ghost said = text;
        self.inner.on_event(text);
        assert(call_ensures(F::on_event, (&self.inner, said), ()));
    }
}

/// A listener that was registered is told of an event that is dispatched afterwards, and so are those that
/// were registered before it.
pub proof fn law_registered_listener_is_told<L: TacitEventListener>(
    dispatcher: &mut EventDispatcher<L>,
    listener: L,
    event: &CoreEvent,
)
    requires
        call_ensures(EventDispatcher::<L>::register, (dispatcher, listener), ()),
        call_ensures(EventDispatcher::<L>::dispatch, (&*final(dispatcher), event), ()),
    ensures
        call_ensures(L::on_event, (&listener, *event), ()),
        forall|i: int|
            0 <= i < old(dispatcher).listeners().len() ==> call_ensures(
                L::on_event,
                (#[trigger] &old(dispatcher).listeners()[i], *event),
                (),
            ),
{
    let all = final(dispatcher).listeners();
    let n = old(dispatcher).listeners().len() as int;
    assert(all.len() == n + 1);
    assert(told_all(all, *event));
    assert(told(all[n], *event));
    assert forall|i: int| 0 <= i < n implies call_ensures(
        L::on_event,
        (#[trigger] &old(dispatcher).listeners()[i], *event),
        (),
    ) by {
        assert(told(all[i], *event));
    }
}

/// A foreign listener is told an event just as it was written; where it could not be written, it is told
/// so, with the reason.
pub proof fn law_foreign_listener_is_told<F: ForeignEventListener>(
    inner: F,
    adapter: ForeignListenerAdapter<F>,
    json: Result<String, String>,
    lost: String,
)
    requires
        call_ensures(ForeignListenerAdapter::<F>::new, (inner,), adapter),
        call_ensures(ForeignListenerAdapter::<F>::on_event, (&adapter, json), ()),
        json matches Err(why) ==> exists|w: &str|
            w@ == why@ && #[trigger] call_ensures(lost_event_json, (w,), lost),
    ensures
        exists|t: String| #[trigger]
            call_ensures(F::on_event, (&inner, t), ()) && t@ == (match json {
                Ok(text) => text@,
                Err(_) => lost@,
            }),
{
}

} // verus!
