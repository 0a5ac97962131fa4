//! The pipeline: the owner of an ordered chain of contexts. It makes the
//! links between them and carries events along the links.

use vstd::prelude::*;
use super::event::{Cause, Event, InboundEvent, OutboundEvent, Record, Routed};
use super::handler::{Handler, HandlerDir, InboundHandler, OutboundHandler};
use super::handler_context::{Emitter, PipelineHandle};
use super::pipeline_context::{
    routed_back,
    ContextImpl,
    InboundContextImpl,
    OutboundContextImpl,
    PipelineContext,
};
use super::slot::Slot;
use super::walk::{enter, fan_out, lemma_replay_push, onward, records_of, replay, Report, Step};
use super::wiring::{
    first_inbound_from,
    head_inbound,
    inbound_link,
    inbound_links,
    last_outbound_before,
    lemma_next_inbound,
    lemma_prev_outbound,
    link,
    outbound_link,
    outbound_links,
    tail_outbound,
    Chain,
};

verus! {

/// Why a chain could not be assembled.
#[derive(Clone, Copy, PartialEq, Eq, Debug)]
pub enum PipelineError {
    /// The context at `position` does not belong to this pipeline.
    ForeignContext { position: usize },
}

/// An event on its way either goes to a position of the chain whose handler
/// takes it, or has reached the end.
pub open spec fn deliverable<R, W>(chain: Chain, routed: Routed<Event<R, W>>) -> bool {
    match routed {
        Routed::Deliver { target, event } => {
            &&& target < chain.dirs.len()
            &&& event is Inbound ==> chain.dirs[target as int].inbound()
            &&& event is Outbound ==> chain.dirs[target as int].outbound()
        },
        Routed::EndOfPipeline { kind } => true,
    }
}

/// Whatever enters a chain is deliverable.
pub proof fn lemma_enter_deliverable<R, W>(chain: Chain, event: Event<R, W>)
    requires
        chain.dirs.len() <= usize::MAX,
    ensures
        deliverable(chain, enter(chain, event)),
{
    lemma_next_inbound(chain.dirs, -1);
    lemma_prev_outbound(chain.dirs, chain.dirs.len() as int);
}

/// Whatever is fired at a position of a chain is deliverable.
pub proof fn lemma_onward_deliverable<R, W>(chain: Chain, position: int, event: Event<R, W>)
    requires
        0 <= position < chain.dirs.len() <= usize::MAX,
    ensures
        deliverable(chain, onward(chain, position, event)),
{
    lemma_next_inbound(chain.dirs, position);
    lemma_prev_outbound(chain.dirs, position);
}

/// A chain of contexts, from head to tail.
pub struct Pipeline<R, W, I, O, B> {
    handle: PipelineHandle,
    names: Vec<String>,
    slots: Vec<Slot<R, W, I, O, B>>,
    head: Option<usize>,
    tail: Option<usize>,
    finalized: bool,
}

impl<R, W, I, O, B> Pipeline<R, W, I, O, B> where
    I: InboundHandler<R, R, Emitter<InboundEvent<R>>>,
    O: OutboundHandler<W, W, Emitter<OutboundEvent<W>>>,
    B: Handler<R, R, W, W, Emitter<Event<R, W>>>,
 {
    /// The name by which the contexts of this pipeline refer to it.
    pub closed spec fn handle(&self) -> PipelineHandle {
        self.handle
    }

    /// The contexts, from head to tail.
    pub closed spec fn slots(&self) -> Seq<Slot<R, W, I, O, B>> {
        self.slots@
    }

    /// The names of the contexts, from head to tail.
    pub closed spec fn names(&self) -> Seq<Seq<char>> {
        Seq::new(self.names@.len(), |i: int| self.names@[i]@)
    }

    /// Whether the chain has been assembled since it last changed.
    pub closed spec fn is_finalized(&self) -> bool {
        self.finalized
    }

    /// The directions of the handlers, from head to tail.
    pub open spec fn dirs(&self) -> Seq<HandlerDir> {
        Seq::new(self.slots().len(), |i: int| self.slots()[i].direction())
    }

    /// The chain as the walk of an event sees it.
    pub open spec fn chain(&self) -> Chain {
        Chain { wired: self.is_finalized(), dirs: self.dirs() }
    }

    /// The position that inbound events enter at.
    pub closed spec fn head(&self) -> Option<usize> {
        self.head
    }

    /// The position that outbound events enter at.
    pub closed spec fn tail(&self) -> Option<usize> {
        self.tail
    }

    /// The context at `i` is as the chain needs it: it holds nothing that
    /// waits, its links are those of the chain, and in an assembled chain
    /// it belongs to this pipeline and is attached.
    pub open spec fn seated(&self, i: int) -> bool {
        let slot = self.slots()[i];
        &&& slot.idle()
        &&& link(slot.next_in()) == self.chain().next_in(i)
        &&& link(slot.next_out()) == self.chain().next_out(i)
        &&& self.is_finalized() ==> slot.pipeline() == Some(self.handle()) && slot.is_attached()
    }

    /// The pipeline is well formed: every context has a name and is as the
    /// chain needs it, and the entries are those of the chain.
    pub open spec fn wf(&self) -> bool {
        &&& self.names().len() == self.slots().len()
        &&& forall|i: int| 0 <= i < self.slots().len() ==> self.seated(i)
        &&& link(self.head()) == self.chain().head()
        &&& link(self.tail()) == self.chain().tail()
    }

    /// The pipeline has the contexts of `other` in the same places and under
    /// the same names, each of the same kind, with the same links and as
    /// attached; only the handlers may differ.
    pub open spec fn same_chain(&self, other: &Self) -> bool {
        &&& self.handle() == other.handle()
        &&& self.names() == other.names()
        &&& self.is_finalized() == other.is_finalized()
        &&& self.head() == other.head()
        &&& self.tail() == other.tail()
        &&& self.slots().len() == other.slots().len()
        &&& forall|i: int|
            0 <= i < self.slots().len() ==> (#[trigger] self.slots()[i]).same_seat(
                &other.slots()[i],
            ) && self.slots()[i].same_links(&other.slots()[i])
    }

    /// Pipelines with the same contexts in the same places are the same
    /// chain to an event.
    pub proof fn lemma_same_chain(&self, other: &Self)
        requires
            self.same_chain(other),
        ensures
            self.chain() == other.chain(),
    {
        assert(self.dirs() =~= other.dirs());
    }

    /// An empty pipeline.
    pub fn new(handle: PipelineHandle) -> (pipeline: Self)
        ensures
            pipeline.wf(),
            pipeline.handle() == handle,
            pipeline.slots().len() == 0,
            !pipeline.is_finalized(),
    {
        Pipeline {
            handle,
            names: Vec::new(),
            slots: Vec::new(),
            head: None,
            tail: None,
            finalized: false,
        }
    }

    pub fn get_handle(&self) -> (handle: PipelineHandle)
        ensures
            handle == self.handle(),
    {
        self.handle
    }

    /// The number of contexts.
    pub fn len(&self) -> (n: usize)
        ensures
            n == self.slots().len(),
    {
        self.slots.len()
    }

    pub fn is_empty(&self) -> (empty: bool)
        ensures
            empty == (self.slots().len() == 0),
    {
        self.slots.len() == 0
    }

    pub fn get_finalized(&self) -> (finalized: bool)
        ensures
            finalized == self.is_finalized(),
    {
        self.finalized
    }

    /// The context at `position`, if there is one.
    pub fn get(&self, position: usize) -> (slot: Option<&Slot<R, W, I, O, B>>)
        ensures
            match slot {
                Some(s) => position < self.slots().len() && *s == self.slots()[position as int],
                None => position >= self.slots().len(),
            },
    {
        if position < self.slots.len() {
            Some(&self.slots[position])
        } else {
            None
        }
    }

    /// The name of the context at `position`, if there is one.
    pub fn name_of(&self, position: usize) -> (name: Option<&String>)
        ensures
            match name {
                Some(n) => position < self.names().len() && n@ == self.names()[position as int],
                None => position >= self.names().len(),
            },
    {
        if position < self.names.len() {
            Some(&self.names[position])
        } else {
            None
        }
    }

    /// The first position whose context goes by `name`.
    pub fn find(&self, name: &String) -> (found: Option<usize>)
        ensures
            match found {
                Some(position) => {
                    &&& position < self.names().len()
                    &&& self.names()[position as int] == name@
                    &&& forall|i: int| 0 <= i < position ==> self.names()[i] != name@
                },
                None => forall|i: int| 0 <= i < self.names().len() ==> self.names()[i] != name@,
            },
    {
        let n: usize = self.names.len();
        let mut i: usize = 0;
        while i < n
            invariant
                i <= n,
                n == self.names().len(),
                forall|k: int| 0 <= k < i ==> self.names()[k] != name@,
            decreases n - i,
        {
            if self.names[i] == *name {
                return Some(i);
            }
            i = i + 1;
        }
        None
    }

    /// The first context that goes by `name`, if there is one.
    pub fn get_named(&self, name: &String) -> (slot: Option<&Slot<R, W, I, O, B>>)
        requires
            self.wf(),
        ensures
            match slot {
                Some(s) => exists|position: int|
                    {
                        &&& 0 <= position < self.slots().len()
                        &&& #[trigger] self.names()[position] == name@
                        &&& forall|i: int| 0 <= i < position ==> self.names()[i] != name@
                        &&& *s == self.slots()[position]
                    },
                None => forall|i: int| 0 <= i < self.names().len() ==> self.names()[i] != name@,
            },
    {
        match self.find(name) {
            Some(position) => self.get(position),
            None => None,
        }
    }

    /// Every context holds the handler that the context of `other` in its
    /// place holds.
    pub open spec fn same_handlers(&self, other: &Self) -> bool {
        &&& self.slots().len() == other.slots().len()
        &&& forall|i: int|
            0 <= i < self.slots().len() ==> (#[trigger] self.slots()[i]).same_handler(
                &other.slots()[i],
            )
    }

    /// Every context belongs to this pipeline.
    pub open spec fn all_belong(&self) -> bool {
        forall|i: int|
            0 <= i < self.slots().len() ==> (#[trigger] self.slots()[i]).pipeline() == Some(
                self.handle(),
            )
    }

    /// Takes the links out of the chain: a chain that has changed has none
    /// until it is assembled again.
    fn unwire(&mut self)
        requires
            forall|i: int|
                0 <= i < old(self).slots().len() ==> (#[trigger] old(self).slots()[i]).idle(),
        ensures
            final(self).names() == old(self).names(),
            final(self).names().len() == final(self).slots().len() ==> final(self).wf(),
            !final(self).is_finalized(),
            final(self).handle() == old(self).handle(),
            final(self).same_handlers(old(self)),
            forall|i: int|
                0 <= i < final(self).slots().len() ==> (
                #[trigger] final(self).slots()[i]).same_seat(&old(self).slots()[i]),
    {
        let n: usize = self.slots.len();
        let mut i: usize = 0;
        while i < n
            invariant
                i <= n,
                n == self.slots().len(),
                n == old(self).slots().len(),
                self.handle == old(self).handle,
                self.names == old(self).names,
                forall|k: int| 0 <= k < n ==> (#[trigger] self.slots()[k]).idle(),
                forall|k: int|
                    0 <= k < n ==> (#[trigger] self.slots()[k]).same_seat(&old(self).slots()[k])
                        && self.slots()[k].same_handler(&old(self).slots()[k]),
                forall|k: int|
                    0 <= k < i ==> (#[trigger] self.slots()[k]).next_in() is None
                        && self.slots()[k].next_out() is None,
            decreases n - i,
        {
            self.slots[i].set_next_in(None);
            self.slots[i].set_next_out(None);
            i = i + 1;
        }
        self.head = None;
        self.tail = None;
        self.finalized = false;
    }

    /// Adds a context at the tail, under `name`. What the context had
    /// waiting is discarded, and the chain is without links until it is
    /// assembled again.
    pub fn add_back(&mut self, name: String, slot: Slot<R, W, I, O, B>)
        requires
            old(self).wf(),
        ensures
            final(self).wf(),
            !final(self).is_finalized(),
            final(self).handle() == old(self).handle(),
            final(self).names() == old(self).names().push(name@),
            final(self).slots().len() == old(self).slots().len() + 1,
            forall|i: int|
                0 <= i < old(self).slots().len() ==> (#[trigger] final(self).slots()[i]).same_seat(
                    &old(self).slots()[i],
                ) && final(self).slots()[i].same_handler(&old(self).slots()[i]),
            final(self).slots().last().same_seat(&slot),
            final(self).slots().last().same_handler(&slot),
    {
        let mut added = slot;
        added.clear();
        self.slots.push(added);
        self.names.push(name);
        assert(self.names() =~= old(self).names().push(name@));
        assert forall|i: int| 0 <= i < self.slots().len() implies (
        #[trigger] self.slots()[i]).idle() by {
            if i < old(self).slots().len() {
                assert(old(self).seated(i));
            }
        }
        self.unwire();
    }

    /// Adds a handler of inbound events at the tail, under `name`, in a
    /// context of its own that belongs to this pipeline.
    pub fn add_inbound(&mut self, name: String, handler: I)
        requires
            old(self).wf(),
        ensures
            final(self).wf(),
            !final(self).is_finalized(),
            final(self).handle() == old(self).handle(),
            final(self).names() == old(self).names().push(name@),
            final(self).slots().len() == old(self).slots().len() + 1,
            forall|i: int|
                0 <= i < old(self).slots().len() ==> (#[trigger] final(self).slots()[i]).same_seat(
                    &old(self).slots()[i],
                ) && final(self).slots()[i].same_handler(&old(self).slots()[i]),
            final(self).slots().last().direction() == HandlerDir::IN,
            final(self).slots().last().pipeline() == Some(old(self).handle()),
            !final(self).slots().last().is_attached(),
            final(self).slots().last() matches Slot::Inbound(c) && c.handler() == handler,
    {
        let mut context = InboundContextImpl::new(handler);
        context.set_pipeline(self.handle);
        self.add_back(name, Slot::Inbound(context));
    }

    /// Adds a handler of outbound events at the tail, under `name`, in a
    /// context of its own that belongs to this pipeline.
    pub fn add_outbound(&mut self, name: String, handler: O)
        requires
            old(self).wf(),
        ensures
            final(self).wf(),
            !final(self).is_finalized(),
            final(self).handle() == old(self).handle(),
            final(self).names() == old(self).names().push(name@),
            final(self).slots().len() == old(self).slots().len() + 1,
            forall|i: int|
                0 <= i < old(self).slots().len() ==> (#[trigger] final(self).slots()[i]).same_seat(
                    &old(self).slots()[i],
                ) && final(self).slots()[i].same_handler(&old(self).slots()[i]),
            final(self).slots().last().direction() == HandlerDir::OUT,
            final(self).slots().last().pipeline() == Some(old(self).handle()),
            !final(self).slots().last().is_attached(),
            final(self).slots().last() matches Slot::Outbound(c) && c.handler() == handler,
    {
        let mut context = OutboundContextImpl::new(handler);
        context.set_pipeline(self.handle);
        self.add_back(name, Slot::Outbound(context));
    }

    /// Adds a handler of both directions at the tail, under `name`, in a
    /// context of its own that belongs to this pipeline.
    pub fn add_handler(&mut self, name: String, handler: B)
        requires
            old(self).wf(),
        ensures
            final(self).wf(),
            !final(self).is_finalized(),
            final(self).handle() == old(self).handle(),
            final(self).names() == old(self).names().push(name@),
            final(self).slots().len() == old(self).slots().len() + 1,
            forall|i: int|
                0 <= i < old(self).slots().len() ==> (#[trigger] final(self).slots()[i]).same_seat(
                    &old(self).slots()[i],
                ) && final(self).slots()[i].same_handler(&old(self).slots()[i]),
            final(self).slots().last().direction() == HandlerDir::BOTH,
            final(self).slots().last().pipeline() == Some(old(self).handle()),
            !final(self).slots().last().is_attached(),
            final(self).slots().last() matches Slot::Both(c) && c.handler() == handler,
    {
        let mut context = ContextImpl::new(handler);
        context.set_pipeline(self.handle);
        self.add_back(name, Slot::Both(context));
    }

    /// Puts a context in at `position`, under `name`, before the context
    /// that stood there. A position past the tail takes nothing: the name
    /// and the context come back.
    pub fn insert(&mut self, position: usize, name: String, slot: Slot<R, W, I, O, B>) -> (result:
        Result<(), (String, Slot<R, W, I, O, B>)>)
        requires
            old(self).wf(),
        ensures
            final(self).wf(),
            final(self).handle() == old(self).handle(),
            match result {
                Ok(_) => {
                    &&& position <= old(self).slots().len()
                    &&& !final(self).is_finalized()
                    &&& final(self).names() == old(self).names().insert(position as int, name@)
                    &&& final(self).slots().len() == old(self).slots().len() + 1
                    &&& final(self).slots()[position as int].same_seat(&slot)
                    &&& final(self).slots()[position as int].same_handler(&slot)
                    &&& forall|i: int|
                        0 <= i < position ==> (#[trigger] final(self).slots()[i]).same_seat(
                            &old(self).slots()[i],
                        ) && final(self).slots()[i].same_handler(&old(self).slots()[i])
                    &&& forall|i: int|
                        position < i <= old(self).slots().len() ==> (
                        #[trigger] final(self).slots()[i]).same_seat(&old(self).slots()[i - 1])
                            && final(self).slots()[i].same_handler(&old(self).slots()[i - 1])
                },
                Err(back) => {
                    &&& position > old(self).slots().len()
                    &&& back.0@ == name@
                    &&& back.1 == slot
                    &&& *final(self) == *old(self)
                },
            },
    {
        if position > self.slots.len() {
            return Err((name, slot));
        }
        let mut added = slot;
        added.clear();
        self.slots.insert(position, added);
        self.names.insert(position, name);
        assert(self.names() =~= old(self).names().insert(position as int, name@));
        assert forall|i: int| 0 <= i < self.slots().len() implies (
        #[trigger] self.slots()[i]).idle() by {
            if i < position {
                assert(old(self).seated(i));
            } else if i > position {
                assert(old(self).seated(i - 1));
            }
        }
        self.unwire();
        Ok(())
    }

    /// Takes the context at `position` out of the chain and detaches it.
    /// The chain is without links until it is assembled again.
    pub fn remove(&mut self, position: usize) -> (removed: Option<(String, Slot<R, W, I, O, B>)>)
        requires
            old(self).wf(),
        ensures
            final(self).wf(),
            final(self).handle() == old(self).handle(),
            match removed {
                Some((name, slot)) => {
                    &&& position < old(self).slots().len()
                    &&& !final(self).is_finalized()
                    &&& name@ == old(self).names()[position as int]
                    &&& final(self).names() == old(self).names().remove(position as int)
                    &&& slot.direction() == old(self).slots()[position as int].direction()
                    &&& slot.pipeline() == old(self).slots()[position as int].pipeline()
                    &&& !slot.is_attached()
                    &&& slot.idle()
                    &&& slot.next_in() is None
                    &&& slot.next_out() is None
                    &&& Self::taken_from(old(self).slots()[position as int], slot)
                    &&& final(self).slots().len() == old(self).slots().len() - 1
                    &&& forall|i: int|
                        0 <= i < position ==> (#[trigger] final(self).slots()[i]).same_seat(
                            &old(self).slots()[i],
                        ) && final(self).slots()[i].same_handler(&old(self).slots()[i])
                    &&& forall|i: int|
                        position <= i < final(self).slots().len() ==> (
                        #[trigger] final(self).slots()[i]).same_seat(&old(self).slots()[i + 1])
                            && final(self).slots()[i].same_handler(&old(self).slots()[i + 1])
                },
                None => position >= old(self).slots().len() && *final(self) == *old(self),
            },
    {
        if position >= self.slots.len() {
            return None;
        }
        let mut slot = self.slots.remove(position);
        let name = self.names.remove(position);
        assert(self.names() =~= old(self).names().remove(position as int));
        assert(old(self).seated(position as int));
        slot.detach_pipeline();
        let ghost detached = slot;
        assert(old(self).slots()[position as int].detaches(&detached));
        slot.set_next_in(None);
        slot.set_next_out(None);
        assert forall|i: int| 0 <= i < self.slots().len() implies (
        #[trigger] self.slots()[i]).idle() by {
            if i < position {
                assert(old(self).seated(i));
            } else {
                assert(old(self).seated(i + 1));
            }
        }
        self.unwire();
        Some((name, slot))
    }

    /// Puts a context in the place of the one at `position`, under `name`,
    /// and gives back the context that stood there, detached, with its
    /// name. Where no context stands at `position`, nothing changes, and
    /// the new name and context come back.
    pub fn replace(&mut self, position: usize, name: String, slot: Slot<R, W, I, O, B>) -> (result:
        Result<(String, Slot<R, W, I, O, B>), (String, Slot<R, W, I, O, B>)>)
        requires
            old(self).wf(),
        ensures
            final(self).wf(),
            final(self).handle() == old(self).handle(),
            match result {
                Ok((was_name, was)) => {
                    &&& position < old(self).slots().len()
                    &&& !final(self).is_finalized()
                    &&& was_name@ == old(self).names()[position as int]
                    &&& was.direction() == old(self).slots()[position as int].direction()
                    &&& was.pipeline() == old(self).slots()[position as int].pipeline()
                    &&& !was.is_attached()
                    &&& was.idle()
                    &&& was.next_in() is None
                    &&& was.next_out() is None
                    &&& Self::taken_from(old(self).slots()[position as int], was)
                    &&& final(self).names() == old(self).names().update(position as int, name@)
                    &&& final(self).slots().len() == old(self).slots().len()
                    &&& final(self).slots()[position as int].same_seat(&slot)
                    &&& final(self).slots()[position as int].same_handler(&slot)
                    &&& forall|i: int|
                        0 <= i < final(self).slots().len() && i != position ==> (
                        #[trigger] final(self).slots()[i]).same_seat(&old(self).slots()[i])
                            && final(self).slots()[i].same_handler(&old(self).slots()[i])
                },
                Err(back) => {
                    &&& position >= old(self).slots().len()
                    &&& back.0@ == name@
                    &&& back.1 == slot
                    &&& *final(self) == *old(self)
                },
            },
    {
        match self.remove(position) {
            Some(was) => {
                let ghost without = *self;
                let put = self.insert(position, name, slot);
                proof {
                    assert(put is Ok);
                    assert(self.names() =~= old(self).names().update(position as int, name@));
                    assert forall|i: int|
                        0 <= i < self.slots().len() && i != position implies (
                    #[trigger] self.slots()[i]).same_seat(&old(self).slots()[i])
                        && self.slots()[i].same_handler(&old(self).slots()[i]) by {
                        if i < position {
                            assert(without.slots()[i].same_seat(&old(self).slots()[i]));
                        } else {
                            assert(without.slots()[i - 1].same_seat(&old(self).slots()[i]));
                            assert(self.slots()[i].same_seat(&without.slots()[i - 1]));
                        }
                    }
                }
                Ok(was)
            },
            None => Err((name, slot)),
        }
    }

    /// Takes the first context that goes by `name` out of the chain and
    /// detaches it. Where no context goes by that name, nothing changes.
    pub fn remove_named(&mut self, name: &String) -> (removed: Option<
        (String, Slot<R, W, I, O, B>),
    >)
        requires
            old(self).wf(),
        ensures
            final(self).wf(),
            final(self).handle() == old(self).handle(),
            match removed {
                Some((taken, slot)) => exists|position: int|
                    {
                        &&& 0 <= position < old(self).slots().len()
                        &&& #[trigger] old(self).names()[position] == name@
                        &&& forall|i: int| 0 <= i < position ==> old(self).names()[i] != name@
                        &&& taken@ == name@
                        &&& final(self).names() == old(self).names().remove(position)
                        &&& final(self).slots().len() == old(self).slots().len() - 1
                        &&& !final(self).is_finalized()
                        &&& slot.direction() == old(self).slots()[position].direction()
                        &&& slot.pipeline() == old(self).slots()[position].pipeline()
                        &&& !slot.is_attached()
                        &&& slot.idle()
                        &&& slot.next_in() is None
                        &&& slot.next_out() is None
                        &&& Self::taken_from(old(self).slots()[position], slot)
                        &&& forall|i: int|
                            0 <= i < position ==> (#[trigger] final(self).slots()[i]).same_seat(
                                &old(self).slots()[i],
                            ) && final(self).slots()[i].same_handler(&old(self).slots()[i])
                        &&& forall|i: int|
                            position <= i < final(self).slots().len() ==> (
                            #[trigger] final(self).slots()[i]).same_seat(
                                &old(self).slots()[i + 1],
                            ) && final(self).slots()[i].same_handler(&old(self).slots()[i + 1])
                    },
                None => {
                    &&& forall|i: int|
                        0 <= i < old(self).names().len() ==> old(self).names()[i] != name@
                    &&& *final(self) == *old(self)
                },
            },
    {
        match self.find(name) {
            Some(position) => self.remove(position),
            None => None,
        }
    }

    /// The first context that does not belong to this pipeline.
    fn first_foreign(&self) -> (found: Option<usize>)
        ensures
            match found {
                Some(position) => {
                    &&& position < self.slots().len()
                    &&& self.slots()[position as int].pipeline() != Some(self.handle())
                    &&& forall|i: int|
                        0 <= i < position ==> (#[trigger] self.slots()[i]).pipeline() == Some(
                            self.handle(),
                        )
                },
                None => self.all_belong(),
            },
    {
        let n: usize = self.slots.len();
        let mut i: usize = 0;
        while i < n
            invariant
                i <= n,
                n == self.slots().len(),
                forall|k: int|
                    0 <= k < i ==> (#[trigger] self.slots()[k]).pipeline() == Some(self.handle()),
            decreases n - i,
        {
            if !self.slots[i].belongs_to(self.handle) {
                return Some(i);
            }
            i = i + 1;
        }
        None
    }

    /// The directions of the handlers, from head to tail.
    pub fn directions(&self) -> (dirs: Vec<HandlerDir>)
        ensures
            dirs@ == self.dirs(),
    {
        let n: usize = self.slots.len();
        let mut dirs: Vec<HandlerDir> = Vec::new();
        while dirs.len() < n
            invariant
                n == self.slots().len(),
                dirs.len() <= n,
                forall|k: int| 0 <= k < dirs.len() ==> dirs[k] == self.slots()[k].direction(),
            decreases n - dirs.len(),
        {
            let dir = self.slots[dirs.len()].get_direction();
            dirs.push(dir);
        }
        assert(dirs@ =~= self.dirs());
        dirs
    }

    /// Makes the links of the chain in two passes, one for each direction,
    /// and sets the entries.
    fn wire(&mut self)
        requires
            forall|i: int|
                0 <= i < old(self).slots().len() ==> (#[trigger] old(self).slots()[i]).idle(),
        ensures
            final(self).handle() == old(self).handle(),
            final(self).names() == old(self).names(),
            final(self).is_finalized() == old(self).is_finalized(),
            final(self).same_handlers(old(self)),
            final(self).dirs() == old(self).dirs(),
            forall|i: int|
                0 <= i < final(self).slots().len() ==> {
                    let slot = #[trigger] final(self).slots()[i];
                    &&& slot.same_seat(&old(self).slots()[i])
                    &&& slot.idle()
                    &&& link(slot.next_in()) == inbound_link(final(self).dirs(), i)
                    &&& link(slot.next_out()) == outbound_link(final(self).dirs(), i)
                },
            link(final(self).head()) == head_inbound(final(self).dirs()),
            link(final(self).tail()) == tail_outbound(final(self).dirs()),
    {
        let n: usize = self.slots.len();
        let dirs = self.directions();
        let ins = inbound_links(&dirs);
        let outs = outbound_links(&dirs);
        let mut i: usize = 0;
        while i < n
            invariant
                i <= n,
                n == self.slots().len(),
                n == old(self).slots().len(),
                n == ins.len(),
                n == outs.len(),
                dirs@ == old(self).dirs(),
                self.handle == old(self).handle,
                self.names == old(self).names,
                self.finalized == old(self).finalized,
                forall|k: int|
                    0 <= k < n ==> link(#[trigger] ins[k]) == inbound_link(dirs@, k) && link(
                        #[trigger] outs[k],
                    ) == outbound_link(dirs@, k),
                forall|k: int|
                    0 <= k < n ==> {
                        let slot = #[trigger] self.slots()[k];
                        &&& slot.same_seat(&old(self).slots()[k])
                        &&& slot.same_handler(&old(self).slots()[k])
                        &&& slot.idle()
                    },
                forall|k: int|
                    0 <= k < i ==> {
                        let slot = #[trigger] self.slots()[k];
                        &&& link(slot.next_in()) == inbound_link(dirs@, k)
                        &&& link(slot.next_out()) == outbound_link(dirs@, k)
                    },
            decreases n - i,
        {
            assert(dirs@[i as int] == old(self).slots()[i as int].direction());
            self.slots[i].set_next_in(ins[i]);
            self.slots[i].set_next_out(outs[i]);
            i = i + 1;
        }
        self.head = first_inbound_from(&dirs, 0);
        self.tail = last_outbound_before(&dirs, n);
        assert(self.dirs() =~= old(self).dirs());
    }

    /// Tells every handler of its context, from head to tail.
    fn attach_all(&mut self)
        ensures
            final(self).handle() == old(self).handle(),
            final(self).names() == old(self).names(),
            final(self).is_finalized() == old(self).is_finalized(),
            final(self).head() == old(self).head(),
            final(self).tail() == old(self).tail(),
            final(self).slots().len() == old(self).slots().len(),
            final(self).dirs() == old(self).dirs(),
            forall|i: int|
                0 <= i < final(self).slots().len() ==> {
                    let slot = #[trigger] final(self).slots()[i];
                    &&& slot.is_attached()
                    &&& slot.direction() == old(self).slots()[i].direction()
                    &&& slot.pipeline() == old(self).slots()[i].pipeline()
                    &&& slot.same_links(&old(self).slots()[i])
                    &&& slot.staged() == old(self).slots()[i].staged()
                    &&& slot.fired() == old(self).slots()[i].fired()
                    &&& old(self).slots()[i].is_attached() ==> slot == old(self).slots()[i]
                    &&& old(self).slots()[i].attaches(&slot)
                },
    {
        let n: usize = self.slots.len();
        let mut i: usize = 0;
        while i < n
            invariant
                i <= n,
                n == self.slots().len(),
                n == old(self).slots().len(),
                self.handle == old(self).handle,
                self.names == old(self).names,
                self.finalized == old(self).finalized,
                self.head == old(self).head,
                self.tail == old(self).tail,
                forall|k: int| i <= k < n ==> (#[trigger] self.slots()[k]) == old(self).slots()[k],
                forall|k: int|
                    0 <= k < i ==> {
                        let slot = #[trigger] self.slots()[k];
                        &&& slot.is_attached()
                        &&& slot.direction() == old(self).slots()[k].direction()
                        &&& slot.pipeline() == old(self).slots()[k].pipeline()
                        &&& slot.same_links(&old(self).slots()[k])
                        &&& slot.staged() == old(self).slots()[k].staged()
                        &&& slot.fired() == old(self).slots()[k].fired()
                        &&& old(self).slots()[k].is_attached() ==> slot == old(self).slots()[k]
                        &&& old(self).slots()[k].attaches(&slot)
                    },
            decreases n - i,
        {
            self.slots[i].attach_pipeline();
            i = i + 1;
        }
        assert(self.dirs() =~= old(self).dirs());
    }

    /// Assembles the chain: makes the links, then attaches every context,
    /// from head to tail. A chain with a context that does not belong to
    /// this pipeline is not assembled: it stays as it is, and the error
    /// names the first such context.
    pub fn finalize(&mut self) -> (result: Result<(), PipelineError>)
        requires
            old(self).wf(),
        ensures
            final(self).wf(),
            final(self).handle() == old(self).handle(),
            final(self).names() == old(self).names(),
            final(self).dirs() == old(self).dirs(),
            match result {
                Ok(_) => {
                    &&& old(self).all_belong()
                    &&& final(self).is_finalized()
                    &&& forall|i: int|
                        0 <= i < final(self).slots().len() ==> Self::assembled_from(
                            old(self).slots()[i],
                            #[trigger] final(self).slots()[i],
                        )
                    &&& forall|i: int|
                        0 <= i < final(self).slots().len() && (#[trigger] old(
                            self,
                        ).slots()[i]).is_attached() ==> final(self).slots()[i].same_handler(
                            &old(self).slots()[i],
                        )
                },
                Err(PipelineError::ForeignContext { position }) => {
                    &&& position < old(self).slots().len()
                    &&& old(self).slots()[position as int].pipeline() != Some(old(self).handle())
                    &&& forall|i: int|
                        0 <= i < position ==> (#[trigger] old(self).slots()[i]).pipeline() == Some(
                            old(self).handle(),
                        )
                    &&& *final(self) == *old(self)
                },
            },
    {
        match self.first_foreign() {
            Some(position) => {
                return Err(PipelineError::ForeignContext { position });
            },
            None => {},
        }
        assert forall|i: int| 0 <= i < self.slots().len() implies (
        #[trigger] self.slots()[i]).idle() by {
            assert(self.seated(i));
        }
        self.wire();
        let ghost wired = *self;
        self.attach_all();
        self.finalized = true;
        proof {
            assert forall|i: int| 0 <= i < self.slots().len() implies self.seated(i) by {
                assert(wired.slots()[i].idle());
                assert(self.slots()[i].is_attached());
            }
            assert forall|i: int| 0 <= i < self.slots().len() implies Self::assembled_from(
                old(self).slots()[i],
                #[trigger] self.slots()[i],
            ) by {
                assert(wired.slots()[i].same_seat(&old(self).slots()[i]));
                assert(wired.slots()[i].same_handler(&old(self).slots()[i]));
                assert(wired.slots()[i].attaches(&self.slots()[i]));
            }
            assert forall|i: int|
                0 <= i < self.slots().len() && (#[trigger] old(self).slots()[i]).is_attached()
            implies self.slots()[i].same_handler(&old(self).slots()[i]) by {
                assert(wired.slots()[i].same_seat(&old(self).slots()[i]));
                assert(self.slots()[i] == wired.slots()[i]);
            }
        }
        Ok(())
    }

    /// The context `after` is the context `before` assembled into the
    /// chain: given its links, with the same handler and nothing waiting,
    /// and then attached, which tells a handler that was not told yet of
    /// one more attachment.
    pub open spec fn assembled_from(
        before: Slot<R, W, I, O, B>,
        after: Slot<R, W, I, O, B>,
    ) -> bool {
        exists|wired: Slot<R, W, I, O, B>|
            {
                &&& wired.same_seat(&before)
                &&& wired.same_handler(&before)
                &&& wired.idle()
                &&& #[trigger] wired.attaches(&after)
            }
    }

    /// The context `taken` is the context `before` taken out of the chain:
    /// detached, which tells the handler of one attachment less and leaves
    /// it no live context, and then without links.
    pub open spec fn taken_from(before: Slot<R, W, I, O, B>, taken: Slot<R, W, I, O, B>) -> bool {
        exists|detached: Slot<R, W, I, O, B>|
            {
                &&& #[trigger] before.detaches(&detached)
                &&& taken.same_seat(&detached)
                &&& taken.same_handler(&detached)
                &&& taken.staged() == detached.staged()
                &&& taken.fired() == detached.fired()
                &&& taken.next_in() is None
                &&& taken.next_out() is None
            }
    }

    /// One step of a walk takes the contexts from `before` to `after`. A
    /// step that drops an event leaves them as they are. A step that
    /// visits a handler changes the context at its position and no other:
    /// the handler is handed the event in a context that takes it and
    /// holds nothing, what it fires is what the step says, and the context
    /// then sends all of it on and holds nothing again.
    pub open spec fn step_takes(
        before: Seq<Slot<R, W, I, O, B>>,
        step: Step<R, W>,
        after: Seq<Slot<R, W, I, O, B>>,
    ) -> bool {
        match step {
            Step::Dropped { kind } => after == before,
            Step::Handled { position, event, emitted } => {
                &&& position < before.len()
                &&& after.len() == before.len()
                &&& forall|i: int|
                    0 <= i < before.len() && i != position ==> #[trigger] after[i] == before[i]
                &&& before[position as int].idle()
                &&& before[position as int].takes(event)
                &&& exists|handled: Slot<R, W, I, O, B>|
                    {
                        &&& #[trigger] before[position as int].accepts(event, &handled)
                        &&& emitted == handled.fired()
                        &&& handled.settles(&after[position as int])
                    }
            },
        }
    }

    /// The contexts after each step of a walk: `history` begins with
    /// `start`, ends with `end`, and every step of `trace` takes the
    /// contexts from one entry to the next.
    pub open spec fn is_history(
        start: Seq<Slot<R, W, I, O, B>>,
        trace: Seq<Step<R, W>>,
        end: Seq<Slot<R, W, I, O, B>>,
        history: Seq<Seq<Slot<R, W, I, O, B>>>,
    ) -> bool {
        &&& history.len() == trace.len() + 1
        &&& history[0] == start
        &&& history.last() == end
        &&& forall|k: int|
            0 <= k < trace.len() ==> Self::step_takes(
                history[k],
                #[trigger] trace[k],
                history[k + 1],
            )
    }

    /// The steps of `trace` are what the handlers did: they take the
    /// contexts from `start` to `end`, each visit beginning with what the
    /// visit before left.
    pub open spec fn walked(
        start: Seq<Slot<R, W, I, O, B>>,
        trace: Seq<Step<R, W>>,
        end: Seq<Slot<R, W, I, O, B>>,
    ) -> bool {
        exists|history: Seq<Seq<Slot<R, W, I, O, B>>>|
            Self::is_history(start, trace, end, history)
    }

    /// A history goes on by one step: the step takes the contexts from
    /// where the history ended to `next`.
    pub proof fn lemma_history_goes_on(
        start: Seq<Slot<R, W, I, O, B>>,
        trace: Seq<Step<R, W>>,
        history: Seq<Seq<Slot<R, W, I, O, B>>>,
        step: Step<R, W>,
        next: Seq<Slot<R, W, I, O, B>>,
    )
        requires
            Self::is_history(start, trace, history.last(), history),
            Self::step_takes(history.last(), step, next),
        ensures
            Self::is_history(start, trace.push(step), next, history.push(next)),
    {
        let longer = trace.push(step);
        let told = history.push(next);
        assert forall|k: int| 0 <= k < longer.len() implies Self::step_takes(
            told[k],
            #[trigger] longer[k],
            told[k + 1],
        ) by {
            if k < trace.len() {
                assert(longer[k] == trace[k]);
                assert(told[k] == history[k]);
                assert(told[k + 1] == history[k + 1]);
            }
        }
    }

    /// Carries `first` through the chain: hands it to the handler that it
    /// goes to, then carries on what the handler fires, each event in turn
    /// with all that follows from it, until nothing is left to carry.
    fn run(&mut self, first: Routed<Event<R, W>>) -> (report: Report<R, W>)
        requires
            old(self).wf(),
            deliverable(old(self).chain(), first),
        ensures
            final(self).wf(),
            final(self).same_chain(old(self)),
            Self::walked(old(self).slots(), report.trace@, final(self).slots()),
            report.records@ == records_of(report.trace@),
            match replay(old(self).chain(), seq![first], report.trace@) {
                Some(left) => {
                    &&& report.complete == (left.len() == 0)
                    &&& !report.complete ==> report.trace@.len() == usize::MAX
                },
                None => false,
            },
    {
        let ghost chain = self.chain();
        let n: usize = self.slots.len();
        let mut stack: Vec<Routed<Event<R, W>>> = Vec::new();
        stack.push(first);
        let mut records: Vec<Record> = Vec::new();
        let ghost mut trace: Seq<Step<R, W>> = Seq::empty();
        let ghost mut history: Seq<Seq<Slot<R, W, I, O, B>>> = seq![self.slots()];
        assert(stack@ =~= seq![first]);
        assert(records@ =~= records_of(trace));
        while stack.len() > 0 && records.len() < usize::MAX
            invariant
                self.wf(),
                self.same_chain(old(self)),
                chain == old(self).chain(),
                chain == self.chain(),
                n == self.slots@.len(),
                records@ == records_of(trace),
                Self::is_history(old(self).slots(), trace, self.slots(), history),
                replay(chain, seq![first], trace) == Some(stack@),
                forall|k: int| 0 <= k < stack.len() ==> deliverable(chain, #[trigger] stack[k]),
            decreases usize::MAX - records.len(),
        {
            let ghost waiting = stack@;
            let ghost prior = *self;
            match stack.pop() {
                Some(Routed::EndOfPipeline { kind }) => {
                    records.push(Record::EndOfPipeline { kind });
                    proof {
                        let step = Step::<R, W>::Dropped { kind };
                        lemma_replay_push(chain, seq![first], trace, step);
                        Self::lemma_history_goes_on(
                            old(self).slots(),
                            trace,
                            history,
                            step,
                            self.slots(),
                        );
                        trace = trace.push(step);
                        history = history.push(self.slots());
                        assert(records@ =~= records_of(trace));
                    }
                },
                Some(Routed::Deliver { target, event }) => {
                    let kind = event.kind();
                    let ghost handed = event;
                    let ghost was = self.slots@;
                    assert(deliverable(chain, waiting[waiting.len() - 1]));
                    assert(self.seated(target as int));
                    self.slots[target].accept(event);
                    let ghost handled_slot = self.slots@[target as int];
                    let ghost emitted = self.slots@[target as int].fired();
                    self.slots[target].forward();
                    self.slots[target].release(&mut stack);
                    records.push(Record::Visited { position: target, kind });
                    proof {
                        let step = Step::Handled { position: target, event: handed, emitted };
                        lemma_replay_push(chain, seq![first], trace, step);
                        let now = self.slots@[target as int];
                        assert(prior.seated(target as int));
                        assert(was[target as int].takes(handed));
                        assert(was[target as int].accepts(handed, &handled_slot));
                        assert(handled_slot.settles(&now));
                        assert(Self::step_takes(was, step, self.slots()));
                        Self::lemma_history_goes_on(
                            old(self).slots(),
                            trace,
                            history,
                            step,
                            self.slots(),
                        );
                        trace = trace.push(step);
                        history = history.push(self.slots());
                        assert(records@ =~= records_of(trace));
                        assert(now.same_seat(&was[target as int]));
                        assert(now.same_links(&was[target as int]));
                        assert(forall|i: int|
                            0 <= i < self.slots@.len() && i != target ==> self.slots@[i] == was[i]);
                        assert(self.dirs() =~= chain.dirs);
                        assert(routed_back(now.next_in(), now.next_out(), emitted) =~= fan_out(
                            chain,
                            target as int,
                            emitted,
                        ));
                        assert forall|k: int| 0 <= k < stack.len() implies deliverable(
                            chain,
                            #[trigger] stack[k],
                        ) by {
                            if k >= waiting.len() - 1 {
                                let j = k - (waiting.len() - 1);
                                lemma_onward_deliverable(
                                    chain,
                                    target as int,
                                    emitted[emitted.len() - 1 - j],
                                );
                            } else {
                                assert(stack[k] == waiting[k]);
                            }
                        }
                        assert(self.chain() == chain);
                        assert forall|i: int| 0 <= i < self.slots().len() implies self.seated(
                            i,
                        ) by {
                            assert(prior.seated(i));
                            if i != target {
                                assert(self.slots@[i] == was[i]);
                            } else {
                                assert(now.idle());
                                assert(link(now.next_in()) == chain.next_in(i));
                                assert(link(now.next_out()) == chain.next_out(i));
                            }
                        }
                    }
                },
                None => {},
            }
        }
        let complete = stack.len() == 0;
        Report { records, complete, trace: Ghost(trace) }
    }

    /// Fires `event` into the chain from outside: an inbound event enters
    /// at the head, an outbound event at the tail.
    pub fn fire(&mut self, event: Event<R, W>) -> (report: Report<R, W>)
        requires
            old(self).wf(),
        ensures
            final(self).wf(),
            final(self).same_chain(old(self)),
            report.accounts_for(old(self).chain(), event),
            Self::walked(old(self).slots(), report.trace@, final(self).slots()),
    {
        let entry = match event {
            Event::Inbound(_) => self.head,
            Event::Outbound(_) => self.tail,
        };
        let first = match entry {
            Some(target) => Routed::Deliver { target, event },
            None => Routed::EndOfPipeline { kind: event.kind() },
        };
        proof {
            assert(self.dirs().len() == self.slots.len());
            lemma_enter_deliverable(self.chain(), event);
        }
        self.run(first)
    }

    /// Fires a message that was read into the head of the chain.
    pub fn fire_read(&mut self, msg: R) -> (report: Report<R, W>)
        requires
            old(self).wf(),
        ensures
            final(self).wf(),
            final(self).same_chain(old(self)),
            Self::walked(old(self).slots(), report.trace@, final(self).slots()),
            report.accounts_for(old(self).chain(), Event::Inbound(InboundEvent::Read(msg))),
    {
        self.fire(Event::Inbound(InboundEvent::Read(msg)))
    }

    /// Fires the end of the input into the head of the chain.
    pub fn fire_read_eof(&mut self) -> (report: Report<R, W>)
        requires
            old(self).wf(),
        ensures
            final(self).wf(),
            final(self).same_chain(old(self)),
            Self::walked(old(self).slots(), report.trace@, final(self).slots()),
            report.accounts_for(old(self).chain(), Event::Inbound(InboundEvent::ReadEof)),
    {
        self.fire(Event::Inbound(InboundEvent::ReadEof))
    }

    /// Fires a failure of reading into the head of the chain.
    pub fn fire_read_error(&mut self, err: Cause) -> (report: Report<R, W>)
        requires
            old(self).wf(),
        ensures
            final(self).wf(),
            final(self).same_chain(old(self)),
            Self::walked(old(self).slots(), report.trace@, final(self).slots()),
            report.accounts_for(old(self).chain(), Event::Inbound(InboundEvent::ReadError(err))),
    {
        self.fire(Event::Inbound(InboundEvent::ReadError(err)))
    }

    /// Tells the chain, from the head, that the transport is up.
    pub fn fire_transport_active(&mut self) -> (report: Report<R, W>)
        requires
            old(self).wf(),
        ensures
            final(self).wf(),
            final(self).same_chain(old(self)),
            Self::walked(old(self).slots(), report.trace@, final(self).slots()),
            report.accounts_for(old(self).chain(), Event::Inbound(InboundEvent::TransportActive)),
    {
        self.fire(Event::Inbound(InboundEvent::TransportActive))
    }

    /// Tells the chain, from the head, that the transport is down.
    pub fn fire_transport_inactive(&mut self) -> (report: Report<R, W>)
        requires
            old(self).wf(),
        ensures
            final(self).wf(),
            final(self).same_chain(old(self)),
            Self::walked(old(self).slots(), report.trace@, final(self).slots()),
            report.accounts_for(
                old(self).chain(),
                Event::Inbound(InboundEvent::TransportInactive),
            ),
    {
        self.fire(Event::Inbound(InboundEvent::TransportInactive))
    }

    /// Fires a message to be written into the tail of the chain.
    pub fn fire_write(&mut self, msg: W) -> (report: Report<R, W>)
        requires
            old(self).wf(),
        ensures
            final(self).wf(),
            final(self).same_chain(old(self)),
            Self::walked(old(self).slots(), report.trace@, final(self).slots()),
            report.accounts_for(old(self).chain(), Event::Outbound(OutboundEvent::Write(msg))),
    {
        self.fire(Event::Outbound(OutboundEvent::Write(msg)))
    }

    /// Fires a failure of writing into the tail of the chain.
    pub fn fire_write_error(&mut self, err: Cause) -> (report: Report<R, W>)
        requires
            old(self).wf(),
        ensures
            final(self).wf(),
            final(self).same_chain(old(self)),
            Self::walked(old(self).slots(), report.trace@, final(self).slots()),
            report.accounts_for(
                old(self).chain(),
                Event::Outbound(OutboundEvent::WriteError(err)),
            ),
    {
        self.fire(Event::Outbound(OutboundEvent::WriteError(err)))
    }

    /// Fires a request to close into the tail of the chain.
    pub fn fire_close(&mut self) -> (report: Report<R, W>)
        requires
            old(self).wf(),
        ensures
            final(self).wf(),
            final(self).same_chain(old(self)),
            Self::walked(old(self).slots(), report.trace@, final(self).slots()),
            report.accounts_for(old(self).chain(), Event::Outbound(OutboundEvent::Close)),
    {
        self.fire(Event::Outbound(OutboundEvent::Close))
    }
}

} // verus!
