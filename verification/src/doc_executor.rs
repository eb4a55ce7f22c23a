//! Which documents have an actor that makes their changes one after the other.
//!
//! An actor ends where nothing came for a while; the next change for its document starts another.

use vstd::prelude::*;
use vstd::string::*;

use crate::error::CoreError;
use crate::ids::DocId;
use crate::text::join2;
use crate::text_map::TextMap;

verus! {

/// How long an actor waits for work, in milliseconds, where nothing else is said.
pub const DEFAULT_IDLE_TIMEOUT: u64 = 300_000;

/// What came to an actor.
#[derive(Debug, Clone, Copy, PartialEq, Eq, Structural)]
pub enum ActorEvent {
    /// A change to be made.
    Work,
    /// Nobody can send it changes any more.
    Closed,
    /// Nothing came for as long as it waits.
    IdleTimeout,
}

/// Whether an actor makes a change and waits for the next; otherwise it ends.
pub fn actor_works(event: ActorEvent) -> (r: bool)
    ensures
        r == (event == ActorEvent::Work),
{
    match event {
        ActorEvent::Work => true,
        ActorEvent::Closed | ActorEvent::IdleTimeout => false,
    }
}

/// Whether `e` says that an actor takes no more changes.
pub open spec fn is_closed_error(e: CoreError, doc_id: Seq<char>) -> bool {
    e matches CoreError::Sync(t) && t@ == "DocActor 队列已关闭: doc_id="@ + doc_id
}

/// The error where an actor takes no more changes.
pub fn closed_error(doc_id: &DocId) -> (r: CoreError)
    ensures
        is_closed_error(r, doc_id@),
{
    CoreError::Sync(join2("DocActor 队列已关闭: doc_id=", doc_id.as_str()))
}

/// The actors of documents.
#[derive(Debug)]
pub struct DocExecutorRegistry<A> {
    actors: TextMap<A>,
    idle_timeout: u64,
}

impl<A> View for DocExecutorRegistry<A> {
    type V = Map<Seq<char>, A>;

    closed spec fn view(&self) -> Map<Seq<char>, A> {
        self.actors@
    }
}

impl<A> DocExecutorRegistry<A> {
    /// The documents are kept in order, each once.
    pub closed spec fn wf(&self) -> bool {
        self.actors.wf()
    }

    /// How long an actor waits for work, in milliseconds.
    pub closed spec fn patience(&self) -> u64 {
        self.idle_timeout
    }

    pub fn new() -> (r: Self)
        ensures
            r.wf(),
            r@ == Map::<Seq<char>, A>::empty(),
            r.patience() == DEFAULT_IDLE_TIMEOUT,
    {
        DocExecutorRegistry { actors: TextMap::new(), idle_timeout: DEFAULT_IDLE_TIMEOUT }
    }

    /// No actors yet; those to come wait `idle_timeout` milliseconds for work.
    pub fn with_idle_timeout(idle_timeout: u64) -> (r: Self)
        ensures
            r.wf(),
            r@ == Map::<Seq<char>, A>::empty(),
            r.patience() == idle_timeout,
    {
        DocExecutorRegistry { actors: TextMap::new(), idle_timeout }
    }

    /// The actor of a document, which `spawn` starts where there is none that is not closed.
    pub fn get_or_create<C: Fn(&A) -> bool, S: Fn(&DocId, u64) -> A>(
        &mut self,
        doc_id: &DocId,
        is_closed: C,
        spawn: S,
    ) -> (r: &A)
        requires
            old(self).wf(),
            forall|a: &A| call_requires(is_closed, (a,)),
            forall|d: &DocId, t: u64| call_requires(spawn, (d, t)),
        ensures
            final(self).wf(),
            final(self).patience() == old(self).patience(),
            final(self)@ == old(self)@.insert(doc_id@, *r),
            ({
                ||| old(self)@.contains_key(doc_id@) && *r == old(self)@[doc_id@] && call_ensures(
                    is_closed,
                    (r,),
                    false,
                )
                ||| (!old(self)@.contains_key(doc_id@) || call_ensures(
                    is_closed,
                    (&old(self)@[doc_id@],),
                    true,
                )) && call_ensures(spawn, (doc_id, old(self).patience()), *r)
            }),
    {
        let ghost before = self.actors@;
        let reuse = match self.actors.get(doc_id.as_str()) {
            Some(actor) => !is_closed(actor),
            None => false,
        };
        if !reuse {
            let actor = spawn(doc_id, self.idle_timeout);
            self.actors.insert(doc_id.0.clone(), actor);
        } else {
            assert(before =~= before.insert(doc_id@, before[doc_id@]));
        }
        match self.actors.get(doc_id.as_str()) {
            Some(actor) => actor,
            None => {
                proof {
                    assert(false);
                }
                self.actors.value_at(0)
            },
        }
    }

    /// The actor of a document, where there is one.
    pub fn get(&self, doc_id: &DocId) -> (r: Option<&A>)
        requires
            self.wf(),
        ensures
            match r {
                Some(a) => self@.contains_key(doc_id@) && *a == self@[doc_id@],
                None => !self@.contains_key(doc_id@),
            },
    {
        self.actors.get(doc_id.as_str())
    }

    /// Lets go of the actor of a document.
    pub fn remove(&mut self, doc_id: &DocId)
        requires
            old(self).wf(),
        ensures
            final(self).wf(),
            final(self).patience() == old(self).patience(),
            final(self)@ == old(self)@.remove(doc_id@),
    {
        self.actors.remove(doc_id.as_str());
    }

    pub fn len(&self) -> (r: usize)
        requires
            self.wf(),
        ensures
            r == self@.len(),
    {
        self.actors.len()
    }

    pub fn is_empty(&self) -> (r: bool)
        requires
            self.wf(),
        ensures
            r == (self@ == Map::<Seq<char>, A>::empty()),
    {
        self.actors.is_empty()
    }

    /// Lets go of the actors that are closed, and says how many they were.
    pub fn cleanup_closed<C: Fn(&A) -> bool>(&mut self, is_closed: C) -> (r: usize)
        requires
            old(self).wf(),
            forall|a: &A| call_requires(is_closed, (a,)),
        ensures
            final(self).wf(),
            final(self).patience() == old(self).patience(),
            final(self)@.submap_of(old(self)@),
            forall|k: Seq<char>| #[trigger]
                old(self)@.contains_key(k) ==> call_ensures(
                    is_closed,
                    (&old(self)@[k],),
                    !final(self)@.contains_key(k),
                ),
            r == old(self)@.len() - final(self)@.len(),
    {
        let before = self.actors.len();
        let ghost start = self.actors@;
        let mut i: usize = 0;
        proof {
            self.actors.lemma_len();
        }
        while i < self.actors.len()
            invariant
                self.actors.wf(),
                i <= self.actors.pairs().len(),
                self.idle_timeout == old(self).idle_timeout,
                start == old(self)@,
                forall|a: &A| call_requires(is_closed, (a,)),
                self.actors@.submap_of(start),
                forall|k: Seq<char>| #[trigger]
                    start.contains_key(k) && !self.actors@.contains_key(k) ==> call_ensures(
                        is_closed,
                        (&start[k],),
                        true,
                    ),
                forall|j: int|
                    0 <= j < i ==> call_ensures(
                        is_closed,
                        (&(#[trigger] self.actors.pairs()[j]).1,),
                        false,
                    ),
                self.actors@.dom().finite(),
                self.actors@.len() <= start.len(),
                start.len() == before,
            decreases self.actors.pairs().len() - i,
        {
            proof {
                self.actors.lemma_pairs();
                self.actors.lemma_len();
            }
            let ghost was = self.actors@;
            let ghost pairs = self.actors.pairs();
            let gone = is_closed(self.actors.value_at(i));
            if gone {
                let (key, a) = self.actors.remove_at(i);
                proof {
                    assert(was.contains_key(key@) && was[key@] == a);
                    assert(self.actors@ == was.remove(key@));
                    assert(forall|j: int| 0 <= j < i ==> self.actors.pairs()[j] == pairs[j]);
                }
            } else {
                i = i + 1;
            }
        }
        proof {
            self.actors.lemma_pairs();
            self.actors.lemma_len();
            assert forall|k: Seq<char>| #[trigger] start.contains_key(k) implies call_ensures(
                is_closed,
                (&start[k],),
                !self.actors@.contains_key(k),
            ) by {
                if self.actors@.contains_key(k) {
                    let j = choose|j: int|
                        0 <= j < self.actors.pairs().len() && (#[trigger] self.actors.pairs()[j]).0
                            == k;
                    assert(self.actors.pairs()[j].1 == start[k]);
                }
            }
        }
        before - self.actors.len()
    }
}

/// An actor makes a change that came, and ends where none can come or none came for long enough.
pub proof fn law_actor_ends_without_work(event: ActorEvent, works: bool)
    requires
        call_ensures(actor_works, (event,), works),
    ensures
        works <==> event is Work,
        event is Closed || event is IdleTimeout ==> !works,
{
}

/// Whoever asks for the actor of a document gets one that is looked up again afterwards, and the actors
/// of other documents stay. An actor that is not closed is kept, so that a document has one actor at a
/// time; a closed one, or none, is replaced by one that was just started for this document.
pub proof fn law_document_has_one_actor<A, C: Fn(&A) -> bool, S: Fn(&DocId, u64) -> A>(
    registry: &mut DocExecutorRegistry<A>,
    doc_id: &DocId,
    is_closed: C,
    spawn: S,
    actor: &A,
    found: Option<&A>,
    other: &DocId,
    before: Option<&A>,
    after: Option<&A>,
)
    requires
        call_ensures(
            DocExecutorRegistry::<A>::get_or_create::<C, S>,
            (registry, doc_id, is_closed, spawn),
            actor,
        ),
        call_ensures(DocExecutorRegistry::<A>::get, (&*final(registry), doc_id), found),
        other@ != doc_id@,
        call_ensures(DocExecutorRegistry::<A>::get, (&*old(registry), other), before),
        call_ensures(DocExecutorRegistry::<A>::get, (&*final(registry), other), after),
    ensures
        found matches Some(a) && *a == *actor,
        before is Some <==> after is Some,
        before is Some ==> *before->Some_0 == *after->Some_0,
        ({
            ||| call_ensures(spawn, (doc_id, old(registry).patience()), *actor)
            ||| old(registry)@.contains_key(doc_id@) && *actor == old(registry)@[doc_id@]
        }),
        old(registry)@.contains_key(doc_id@) && !call_ensures(
            is_closed,
            (&old(registry)@[doc_id@],),
            true,
        ) ==> *actor == old(registry)@[doc_id@],
        !old(registry)@.contains_key(doc_id@) || !call_ensures(
            is_closed,
            (&old(registry)@[doc_id@],),
            false,
        ) ==> call_ensures(spawn, (doc_id, old(registry).patience()), *actor),
{
}

/// The actor that was let go of is found no more, and the others are found as before.
pub proof fn law_removed_actor_is_gone<A>(
    registry: &mut DocExecutorRegistry<A>,
    doc_id: &DocId,
    other: &DocId,
    before: Option<&A>,
    after: Option<&A>,
)
    requires
        call_ensures(DocExecutorRegistry::<A>::remove, (registry, doc_id), ()),
        call_ensures(DocExecutorRegistry::<A>::get, (&*old(registry), other), before),
        call_ensures(DocExecutorRegistry::<A>::get, (&*final(registry), other), after),
    ensures
        other@ == doc_id@ ==> after is None,
        other@ != doc_id@ ==> (before is Some <==> after is Some) && (before is Some
            ==> *before->Some_0 == *after->Some_0),
{
}

/// A cleaning lets go of closed actors only, and of all of them; those that stay are the same.
pub proof fn law_cleaning_keeps_open_actors<A, C: Fn(&A) -> bool>(
    registry: &mut DocExecutorRegistry<A>,
    is_closed: C,
    gone: usize,
    doc_id: &DocId,
    before: Option<&A>,
    after: Option<&A>,
)
    requires
        call_ensures(DocExecutorRegistry::<A>::cleanup_closed::<C>, (registry, is_closed), gone),
        call_ensures(DocExecutorRegistry::<A>::get, (&*old(registry), doc_id), before),
        call_ensures(DocExecutorRegistry::<A>::get, (&*final(registry), doc_id), after),
    ensures
        after is Some ==> before is Some && *after->Some_0 == *before->Some_0 && call_ensures(
            is_closed,
            (before->Some_0,),
            false,
        ),
        before is Some && after is None ==> call_ensures(is_closed, (before->Some_0,), true),
{
}

/// A new registry has no actors, and one is empty just where it has none; those to come wait as long as was
/// said, or five minutes.
pub proof fn law_new_registry_has_no_actors<A>(
    plain: DocExecutorRegistry<A>,
    idle_timeout: u64,
    made: DocExecutorRegistry<A>,
    doc_id: &DocId,
    found: Option<&A>,
    registry: &DocExecutorRegistry<A>,
    empty: bool,
    len: usize,
    some: Option<&A>,
)
    requires
        call_ensures(DocExecutorRegistry::<A>::new, (), plain),
        call_ensures(DocExecutorRegistry::<A>::with_idle_timeout, (idle_timeout,), made),
        call_ensures(DocExecutorRegistry::<A>::get, (&made, doc_id), found),
        call_ensures(DocExecutorRegistry::<A>::is_empty, (registry,), empty),
        call_ensures(DocExecutorRegistry::<A>::len, (registry,), len),
        call_ensures(DocExecutorRegistry::<A>::get, (registry, doc_id), some),
    ensures
        plain.patience() == 300_000,
        plain@.len() == 0,
        made.patience() == idle_timeout,
        found is None,
        empty ==> some is None,
        len == registry@.len(),
{
    assert(Map::<Seq<char>, A>::empty().dom() =~= Set::empty());
}

/// The error where an actor takes no more changes ends with the document's identifier.
pub proof fn law_closed_actor_is_named(doc_id: &DocId, r: CoreError)
    requires
        call_ensures(closed_error, (doc_id,), r),
    ensures
        r matches CoreError::Sync(t) && t@.len() >= doc_id@.len() && t@.skip(
            t@.len() - doc_id@.len(),
        ) == doc_id@,
{
    let t = r->Sync_0@;
    assert(t.skip(t.len() - doc_id@.len()) =~= doc_id@);
}

} // verus!
