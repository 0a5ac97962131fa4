//! Contexts: the nodes of a pipeline. A context holds one handler at one
//! position, knows the positions that its events go to next, and keeps
//! what it fires until the pipeline carries it there.

use vstd::prelude::*;
use super::event::{route, Cause, Event, EventKind, InboundEvent, OutboundEvent, Routed};
use super::handler::{
    context_after_attach,
    keeps_attachment,
    count_after_attach,
    count_after_detach,
    Handler,
    HandlerBase,
    HandlerDir,
    InboundHandler,
    OutboundHandler,
};
use super::handler_context::{
    Emitter,
    HandlerContext,
    InboundHandlerContext,
    OutboundHandlerContext,
    PipelineHandle,
};

verus! {

/// What a pipeline asks of each of its contexts.
pub trait PipelineContext: Sized {
    fn get_direction(&self) -> HandlerDir;

    fn attach_pipeline(&mut self);

    fn detach_pipeline(&mut self);

    fn set_next_in(&mut self, ctx: Option<usize>);

    fn set_next_out(&mut self, ctx: Option<usize>);
}

/// The face that a context shows to the one before it: it takes inbound
/// events.
pub trait InboundLink<In> {
    fn read(&mut self, msg: In);

    fn read_eof(&mut self);

    fn read_error(&mut self, err: Cause);

    fn transport_active(&mut self);

    fn transport_inactive(&mut self);
}

/// The face that a context shows to the one after it: it takes outbound
/// events.
pub trait OutboundLink<Out> {
    fn write(&mut self, msg: Out);

    fn write_error(&mut self, err: Cause);

    fn close(&mut self);
}

/// The events in `fired`, last fired first, each routed by the given links.
pub open spec fn routed_back<R, W>(
    next_in: Option<usize>,
    next_out: Option<usize>,
    fired: Seq<Event<R, W>>,
) -> Seq<Routed<Event<R, W>>> {
    Seq::new(fired.len(), |i: int| route(next_in, next_out, fired[fired.len() - 1 - i]))
}

/// The context of a handler that takes inbound events only.
pub struct InboundContextImpl<R, W, H> {
    ctx: Emitter<InboundEvent<R>>,
    pipeline: Option<PipelineHandle>,
    handler: H,
    next_in: Option<usize>,
    attached: bool,
    staged: Vec<Routed<Event<R, W>>>,
}

impl<R, W, H> InboundContextImpl<R, W, H> where
    H: InboundHandler<R, R, Emitter<InboundEvent<R>>>,
 {
    /// The handler that this context holds.
    pub closed spec fn handler(&self) -> H {
        self.handler
    }

    /// The pipeline that this context belongs to.
    pub closed spec fn pipeline(&self) -> Option<PipelineHandle> {
        self.pipeline
    }

    /// The position that inbound events fired here go to.
    pub closed spec fn next_in(&self) -> Option<usize> {
        self.next_in
    }

    /// Whether the handler has been told of this context.
    pub closed spec fn is_attached(&self) -> bool {
        self.attached
    }

    /// What the context has fired and the pipeline has not yet carried on,
    /// the next to go last.
    pub closed spec fn staged(&self) -> Seq<Routed<Event<R, W>>> {
        self.staged@
    }

    /// What the handler has fired and the context has not yet sent on.
    pub closed spec fn fired(&self) -> Seq<Event<R, W>> {
        Seq::new(self.ctx.fired().len(), |i: int| Event::Inbound(self.ctx.fired()[i]))
    }

    /// The context has the same links as `other`.
    pub open spec fn same_links(&self, other: &Self) -> bool {
        &&& self.next_in() == other.next_in()
    }

    /// The context belongs to the same pipeline as `other` and has the same
    /// links.
    pub open spec fn same_wiring(&self, other: &Self) -> bool {
        &&& self.pipeline() == other.pipeline()
        &&& self.same_links(other)
    }

    /// Nothing of the context but its handler and what the handler has
    /// fired differs from `other`.
    pub open spec fn same_place(&self, other: &Self) -> bool {
        &&& self.same_wiring(other)
        &&& self.is_attached() == other.is_attached()
        &&& self.staged() == other.staged()
    }

    /// The context holds the same handler in the same state of attachment
    /// as `other`.
    pub open spec fn same_handler(&self, other: &Self) -> bool {
        &&& self.handler() == other.handler()
        &&& self.is_attached() == other.is_attached()
    }

    /// The context is `before` after it has fired `event`: the routed event
    /// is staged, and nothing else differs.
    pub open spec fn has_fired(&self, before: &Self, event: Event<R, W>) -> bool {
        &&& self.staged() == before.staged().push(before.route_of(event))
        &&& self.same_wiring(before)
        &&& self.same_handler(before)
        &&& self.fired() == before.fired()
    }

    /// Where an event fired at this context goes.
    pub open spec fn route_of(&self, event: Event<R, W>) -> Routed<Event<R, W>> {
        route(self.next_in(), None, event)
    }

    /// The emitter that the handler fires through.
    pub closed spec fn emitter(&self) -> Emitter<InboundEvent<R>> {
        self.ctx
    }

    /// The emitter as the handler is handed it: it names the pipeline of
    /// this context.
    pub closed spec fn handed(&self) -> Emitter<InboundEvent<R>> {
        self.ctx.naming(self.pipeline)
    }

    /// The emitter that the handler is handed is the one that it fires
    /// through, naming the pipeline of this context; what waits in it is
    /// what the handler has fired.
    pub proof fn lemma_handed(&self)
        ensures
            self.handed() == self.emitter().naming(self.pipeline()),
            self.handed().pipeline() == self.pipeline(),
            self.handed().fired() == self.emitter().fired(),
            self.fired().len() == self.emitter().fired().len(),
            forall|i: int|
                0 <= i < self.fired().len() ==> #[trigger] self.fired()[i] == Event::<
                    R,
                    W,
                >::Inbound(self.emitter().fired()[i]),
    {
        self.ctx.lemma_naming(self.pipeline);
    }

    /// What may come of handing the handler the message `msg`: the context
    /// may become `after`, as far as the handler allows what it is left to
    /// fire through.
    pub open spec fn reads(&self, msg: R, after: &Self) -> bool {
        self.handler().reads(msg, &self.handed(), &after.emitter())
    }

    /// What attaching comes to. A context that is attached already stays as
    /// it is. Any other is attached, keeps its place, and its handler has
    /// counted one more attachment and been offered an emitter of its own
    /// that names the pipeline and holds nothing.
    pub open spec fn attaches(&self, after: &Self) -> bool {
        if self.is_attached() {
            *after == *self
        } else {
            &&& after.is_attached()
            &&& after.same_wiring(self)
            &&& after.staged() == self.staged()
            &&& after.fired() == self.fired()
            &&& exists|count: usize, offered: Emitter<InboundEvent<R>>|
                {
                    &&& self.handler().counts(count)
                    &&& offered.pipeline() == self.pipeline()
                    &&& offered.fired().len() == 0
                    &&& after.handler().counts(count_after_attach(count))
                    &&& #[trigger] after.handler().keeps(
                        context_after_attach(count, Some(offered)),
                    )
                }
        }
    }

    /// What detaching comes to: the context is detached and keeps its
    /// place, and its handler has counted one attachment less and keeps no
    /// live context.
    pub open spec fn detaches(&self, after: &Self) -> bool {
        &&& !after.is_attached()
        &&& after.same_wiring(self)
        &&& after.staged() == self.staged()
        &&& after.fired() == self.fired()
        &&& exists|count: usize|
            {
                &&& #[trigger] self.handler().counts(count)
                &&& after.handler().counts(count_after_detach(count))
            }
        &&& after.handler().keeps(None)
    }

    /// Whether the handler, handed `event`, passes it on as it is: an
    /// inbound event that is no message, of a kind that the handler leaves
    /// as the trait gives it.
    pub open spec fn passes(&self, event: Event<R, W>) -> bool {
        &&& event is Inbound
        &&& !(event.kind_of() is Read)
        &&& self.handler().passes_on(event.kind_of())
    }

    /// The handler, handed `event`, has left the context as `after`: where
    /// the handler passes the event on as it is, the event waits in the
    /// context after all that waited before, and the handler answers to
    /// every attachment that it answered to.
    pub open spec fn relays(&self, event: Event<R, W>, after: &Self) -> bool {
        self.passes(event) ==> {
            &&& after.fired() == self.fired().push(event)
            &&& keeps_attachment(&self.handler(), &after.handler())
        }
    }

    /// All that the handler of such a context fires is inbound.
    pub proof fn lemma_fired_inbound(&self)
        ensures
            forall|i: int| 0 <= i < self.fired().len() ==> (#[trigger] self.fired()[i]) is Inbound,
    {
    }

    /// A context for `handler` that belongs to no pipeline yet.
    pub fn new(handler: H) -> (context: Self)
        ensures
            context.handler() == handler,
            context.pipeline().is_none(),
            context.next_in().is_none(),
            !context.is_attached(),
            context.staged().len() == 0,
            context.fired().len() == 0,
    {
        InboundContextImpl {
            ctx: Emitter::new(None),
            pipeline: None,
            handler,
            next_in: None,
            attached: false,
            staged: Vec::new(),
        }
    }

    pub fn get_handler(&self) -> (handler: &H)
        ensures
            *handler == self.handler(),
    {
        &self.handler
    }

    /// Puts the context into `pipeline` and leaves the rest as it is.
    pub fn set_pipeline(&mut self, pipeline: PipelineHandle)
        ensures
            final(self).pipeline() == Some(pipeline),
            final(self).same_links(old(self)),
            final(self).same_handler(old(self)),
            final(self).staged() == old(self).staged(),
            final(self).fired() == old(self).fired(),
    {
        self.pipeline = Some(pipeline);
    }

    /// Puts the context into `pipeline`, with `handler` in place of the
    /// handler that it held.
    pub fn initialize(&mut self, pipeline: PipelineHandle, handler: H)
        ensures
            final(self).pipeline() == Some(pipeline),
            final(self).handler() == handler,
            final(self).next_in() == old(self).next_in(),
            final(self).is_attached() == old(self).is_attached(),
            final(self).staged() == old(self).staged(),
            final(self).fired() == old(self).fired(),
    {
        self.pipeline = Some(pipeline);
        self.handler = handler;
    }

    /// The position that inbound events fired here go to.
    pub fn get_next_in(&self) -> (next: Option<usize>)
        ensures
            next == self.next_in(),
    {
        self.next_in
    }

    /// The pipeline that this context belongs to.
    pub fn get_owner(&self) -> (pipeline: Option<PipelineHandle>)
        ensures
            pipeline == self.pipeline(),
    {
        self.pipeline
    }

    pub fn get_attached(&self) -> (attached: bool)
        ensures
            attached == self.is_attached(),
    {
        self.attached
    }

    /// Keeps `routed` for the pipeline to carry on.
    fn stage(&mut self, routed: Routed<Event<R, W>>)
        ensures
            final(self).staged() == old(self).staged().push(routed),
            final(self).same_wiring(old(self)),
            final(self).same_handler(old(self)),
            final(self).fired() == old(self).fired(),
    {
        self.staged.push(routed);
    }

    /// Sends an inbound event on: to the next inbound context if there is
    /// one, and to the end of the pipeline if there is none.
    pub fn fire(&mut self, event: InboundEvent<R>)
        ensures
            final(self).has_fired(old(self), Event::Inbound(event)),
    {
        match event {
            InboundEvent::Read(msg) => self.fire_read(msg),
            InboundEvent::ReadEof => self.fire_read_eof(),
            InboundEvent::ReadError(err) => self.fire_read_error(err),
            InboundEvent::TransportActive => self.fire_transport_active(),
            InboundEvent::TransportInactive => self.fire_transport_inactive(),
        }
    }

    /// Hands an inbound event to the handler. What the handler fires waits
    /// in the context: where the handler passes the event on as it is, that
    /// is the event itself, after all that waited before.
    pub fn accept(&mut self, event: InboundEvent<R>)
        ensures
            final(self).same_place(old(self)),
            old(self).relays(Event::Inbound(event), final(self)),
            event matches InboundEvent::Read(msg) ==> old(self).reads(msg, final(self)),
    {
        match event {
            InboundEvent::Read(msg) => self.read(msg),
            InboundEvent::ReadEof => self.read_eof(),
            InboundEvent::ReadError(err) => self.read_error(err),
            InboundEvent::TransportActive => self.transport_active(),
            InboundEvent::TransportInactive => self.transport_inactive(),
        }
    }

    /// Sends on all that the handler has fired, in the order fired.
    pub fn forward(&mut self)
        ensures
            final(self).staged() == old(self).staged() + routed_back(
                old(self).next_in(),
                None,
                old(self).fired(),
            ),
            final(self).fired().len() == 0,
            final(self).same_wiring(old(self)),
            final(self).same_handler(old(self)),
    {
        let ghost fired = self.fired();
        let ghost staged = self.staged();
        let ghost next = self.next_in();
        let mut left: usize = self.ctx.pending();
        while left > 0
            invariant
                left == self.ctx.fired().len(),
                left <= fired.len(),
                self.fired() == fired.take(left as int),
                self.staged() == staged + routed_back(next, None, fired).take(
                    fired.len() - left,
                ),
                self.same_wiring(old(self)),
                self.same_handler(old(self)),
                self.next_in() == next,
            decreases left,
        {
            let ghost before = self.staged();
            assert(self.fired()[left - 1] == fired[left - 1]);
            match self.ctx.take_last() {
                Some(event) => {
                    assert(Event::<R, W>::Inbound(event) == fired[left - 1]);
                    self.fire(event);
                    left = left - 1;
                    assert(self.staged() == staged + routed_back(next, None, fired).take(
                        fired.len() - left,
                    )) by {
                        assert(self.staged() =~= before.push(
                            route(next, None, fired[left as int]),
                        ));
                    }
                    assert(self.fired() =~= fired.take(left as int));
                },
                None => {},
            }
        }
        assert(routed_back(next, None, fired).take(fired.len() as int) =~= routed_back(
            next,
            None,
            fired,
        ));
    }

    /// Discards what waits in the context to be sent or carried on.
    pub fn clear(&mut self)
        ensures
            final(self).staged().len() == 0,
            final(self).fired().len() == 0,
            final(self).same_wiring(old(self)),
            final(self).same_handler(old(self)),
    {
        self.staged.clear();
        self.ctx.clear();
    }

    /// Moves what the context has staged onto `stack`, the next to go last.
    pub fn release(&mut self, stack: &mut Vec<Routed<Event<R, W>>>)
        ensures
            final(stack)@ == old(stack)@ + old(self).staged(),
            final(self).staged().len() == 0,
            final(self).same_wiring(old(self)),
            final(self).same_handler(old(self)),
            final(self).fired() == old(self).fired(),
    {
        stack.append(&mut self.staged);
    }
}

impl<R, W, H> PipelineContext for InboundContextImpl<R, W, H> where
    H: InboundHandler<R, R, Emitter<InboundEvent<R>>>,
 {
    fn get_direction(&self) -> (dir: HandlerDir)
        ensures
            dir == HandlerDir::IN,
    {
        self.handler.get_direction()
    }

    /// Tells the handler of this context, unless it has been told already:
    /// the handler is offered a context of its own that names the pipeline.
    fn attach_pipeline(&mut self)
        ensures
            old(self).attaches(final(self)),
            old(self).is_attached() ==> *final(self) == *old(self),
            final(self).is_attached(),
            final(self).same_wiring(old(self)),
            final(self).staged() == old(self).staged(),
            final(self).fired() == old(self).fired(),
    {
        if !self.attached {
            let offered = Emitter::new(self.pipeline);
            let ghost fresh = offered;
            self.handler.attach_context(Some(offered));
            self.attached = true;
            proof {
                let count = choose|count: usize|
                    {
                        &&& #[trigger] old(self).handler().counts(count)
                        &&& self.handler().counts(count_after_attach(count))
                        &&& self.handler().keeps(context_after_attach(count, Some(fresh)))
                    };
                assert(self.handler().keeps(context_after_attach(count, Some(fresh))));
            }
        }
    }

    /// Marks the context detached and tells the handler so.
    fn detach_pipeline(&mut self)
        ensures
            old(self).detaches(final(self)),
            !final(self).is_attached(),
            final(self).same_wiring(old(self)),
            final(self).staged() == old(self).staged(),
            final(self).fired() == old(self).fired(),
    {
        self.attached = false;
        self.handler.detach_context();
        proof {
            let count = choose|count: usize|
                {
                    &&& #[trigger] old(self).handler().counts(count)
                    &&& self.handler().counts(count_after_detach(count))
                };
            assert(old(self).handler().counts(count));
        }
    }

    fn set_next_in(&mut self, ctx: Option<usize>)
        ensures
            final(self).next_in() == ctx,
            final(self).pipeline() == old(self).pipeline(),
            final(self).same_handler(old(self)),
            final(self).staged() == old(self).staged(),
            final(self).fired() == old(self).fired(),
    {
        self.next_in = ctx;
    }

    fn set_next_out(&mut self, ctx: Option<usize>)
        ensures
            *final(self) == *old(self),
    {
    }
}

impl<R, W, H> InboundHandlerContext<R> for InboundContextImpl<R, W, H> where
    H: InboundHandler<R, R, Emitter<InboundEvent<R>>>,
 {
    open spec fn fires(&self, event: InboundEvent<R>, after: &Self) -> bool {
        after.has_fired(self, Event::Inbound(event))
    }

    fn fire_read(&mut self, msg: R)
        ensures
            final(self).has_fired(old(self), Event::Inbound(InboundEvent::Read(msg))),
    {
        match self.next_in {
            Some(target) => {
                self.stage(
                    Routed::Deliver { target, event: Event::Inbound(InboundEvent::Read(msg)) },
                );
            },
            None => {
                self.stage(Routed::EndOfPipeline { kind: EventKind::Read });
            },
        }
    }

    fn fire_read_eof(&mut self)
        ensures
            final(self).has_fired(old(self), Event::Inbound(InboundEvent::ReadEof)),
    {
        match self.next_in {
            Some(target) => {
                self.stage(
                    Routed::Deliver { target, event: Event::Inbound(InboundEvent::ReadEof) },
                );
            },
            None => {
                self.stage(Routed::EndOfPipeline { kind: EventKind::ReadEof });
            },
        }
    }

    fn fire_read_error(&mut self, err: Cause)
        ensures
            final(self).has_fired(old(self), Event::Inbound(InboundEvent::ReadError(err))),
    {
        match self.next_in {
            Some(target) => {
                self.stage(
                    Routed::Deliver {
                        target,
                        event: Event::Inbound(InboundEvent::ReadError(err)),
                    },
                );
            },
            None => {
                self.stage(Routed::EndOfPipeline { kind: EventKind::ReadError });
            },
        }
    }

    fn fire_transport_active(&mut self)
        ensures
            final(self).has_fired(old(self), Event::Inbound(InboundEvent::TransportActive)),
    {
        match self.next_in {
            Some(target) => {
                self.stage(
                    Routed::Deliver {
                        target,
                        event: Event::Inbound(InboundEvent::TransportActive),
                    },
                );
            },
            None => {
                self.stage(Routed::EndOfPipeline { kind: EventKind::TransportActive });
            },
        }
    }

    fn fire_transport_inactive(&mut self)
        ensures
            final(self).has_fired(old(self), Event::Inbound(InboundEvent::TransportInactive)),
    {
        match self.next_in {
            Some(target) => {
                self.stage(
                    Routed::Deliver {
                        target,
                        event: Event::Inbound(InboundEvent::TransportInactive),
                    },
                );
            },
            None => {
                self.stage(Routed::EndOfPipeline { kind: EventKind::TransportInactive });
            },
        }
    }

    fn get_pipeline(&self) -> (pipeline: Option<PipelineHandle>)
        ensures
            pipeline == self.pipeline(),
    {
        self.pipeline
    }
}

impl<R, W, H> InboundLink<R> for InboundContextImpl<R, W, H> where
    H: InboundHandler<R, R, Emitter<InboundEvent<R>>>,
 {
    /// Hands a message to the handler, with an emitter that names the
    /// pipeline of this context.
    fn read(&mut self, msg: R)
        ensures
            final(self).same_place(old(self)),
            old(self).reads(msg, final(self)),
    {
        self.ctx.set_pipeline(self.pipeline);
        self.handler.read(&mut self.ctx, msg);
    }

    fn read_eof(&mut self)
        ensures
            final(self).same_place(old(self)),
            old(self).relays(Event::Inbound(InboundEvent::ReadEof), final(self)),
    {
        let ghost event = Event::<R, W>::Inbound(InboundEvent::ReadEof);
        self.ctx.set_pipeline(self.pipeline);
        self.handler.read_eof(&mut self.ctx);
        assert(old(self).passes(event) ==> self.fired() =~= old(self).fired().push(event));
    }

    fn read_error(&mut self, err: Cause)
        ensures
            final(self).same_place(old(self)),
            old(self).relays(Event::Inbound(InboundEvent::ReadError(err)), final(self)),
    {
        let ghost event = Event::<R, W>::Inbound(InboundEvent::ReadError(err));
        self.ctx.set_pipeline(self.pipeline);
        self.handler.read_error(&mut self.ctx, err);
        assert(old(self).passes(event) ==> self.fired() =~= old(self).fired().push(event));
    }

    fn transport_active(&mut self)
        ensures
            final(self).same_place(old(self)),
            old(self).relays(Event::Inbound(InboundEvent::TransportActive), final(self)),
    {
        let ghost event = Event::<R, W>::Inbound(InboundEvent::TransportActive);
        self.ctx.set_pipeline(self.pipeline);
        self.handler.transport_active(&mut self.ctx);
        assert(old(self).passes(event) ==> self.fired() =~= old(self).fired().push(event));
    }

    fn transport_inactive(&mut self)
        ensures
            final(self).same_place(old(self)),
            old(self).relays(Event::Inbound(InboundEvent::TransportInactive), final(self)),
    {
        let ghost event = Event::<R, W>::Inbound(InboundEvent::TransportInactive);
        self.ctx.set_pipeline(self.pipeline);
        self.handler.transport_inactive(&mut self.ctx);
        assert(old(self).passes(event) ==> self.fired() =~= old(self).fired().push(event));
    }
}

/// The context of a handler that takes outbound events only.
pub struct OutboundContextImpl<R, W, H> {
    ctx: Emitter<OutboundEvent<W>>,
    pipeline: Option<PipelineHandle>,
    handler: H,
    next_out: Option<usize>,
    attached: bool,
    staged: Vec<Routed<Event<R, W>>>,
}

impl<R, W, H> OutboundContextImpl<R, W, H> where
    H: OutboundHandler<W, W, Emitter<OutboundEvent<W>>>,
 {
    /// The handler that this context holds.
    pub closed spec fn handler(&self) -> H {
        self.handler
    }

    /// The pipeline that this context belongs to.
    pub closed spec fn pipeline(&self) -> Option<PipelineHandle> {
        self.pipeline
    }

    /// The position that outbound events fired here go to.
    pub closed spec fn next_out(&self) -> Option<usize> {
        self.next_out
    }

    /// Whether the handler has been told of this context.
    pub closed spec fn is_attached(&self) -> bool {
        self.attached
    }

    /// What the context has fired and the pipeline has not yet carried on,
    /// the next to go last.
    pub closed spec fn staged(&self) -> Seq<Routed<Event<R, W>>> {
        self.staged@
    }

    /// What the handler has fired and the context has not yet sent on.
    pub closed spec fn fired(&self) -> Seq<Event<R, W>> {
        Seq::new(self.ctx.fired().len(), |i: int| Event::Outbound(self.ctx.fired()[i]))
    }

    /// The context has the same links as `other`.
    pub open spec fn same_links(&self, other: &Self) -> bool {
        &&& self.next_out() == other.next_out()
    }

    /// The context belongs to the same pipeline as `other` and has the same
    /// links.
    pub open spec fn same_wiring(&self, other: &Self) -> bool {
        &&& self.pipeline() == other.pipeline()
        &&& self.same_links(other)
    }

    /// Nothing of the context but its handler and what the handler has
    /// fired differs from `other`.
    pub open spec fn same_place(&self, other: &Self) -> bool {
        &&& self.same_wiring(other)
        &&& self.is_attached() == other.is_attached()
        &&& self.staged() == other.staged()
    }

    /// The context holds the same handler in the same state of attachment
    /// as `other`.
    pub open spec fn same_handler(&self, other: &Self) -> bool {
        &&& self.handler() == other.handler()
        &&& self.is_attached() == other.is_attached()
    }

    /// The context is `before` after it has fired `event`: the routed event
    /// is staged, and nothing else differs.
    pub open spec fn has_fired(&self, before: &Self, event: Event<R, W>) -> bool {
        &&& self.staged() == before.staged().push(before.route_of(event))
        &&& self.same_wiring(before)
        &&& self.same_handler(before)
        &&& self.fired() == before.fired()
    }

    /// Where an event fired at this context goes.
    pub open spec fn route_of(&self, event: Event<R, W>) -> Routed<Event<R, W>> {
        route(None, self.next_out(), event)
    }

    /// The emitter that the handler fires through.
    pub closed spec fn emitter(&self) -> Emitter<OutboundEvent<W>> {
        self.ctx
    }

    /// The emitter as the handler is handed it: it names the pipeline of
    /// this context.
    pub closed spec fn handed(&self) -> Emitter<OutboundEvent<W>> {
        self.ctx.naming(self.pipeline)
    }

    /// The emitter that the handler is handed is the one that it fires
    /// through, naming the pipeline of this context; what waits in it is
    /// what the handler has fired.
    pub proof fn lemma_handed(&self)
        ensures
            self.handed() == self.emitter().naming(self.pipeline()),
            self.handed().pipeline() == self.pipeline(),
            self.handed().fired() == self.emitter().fired(),
            self.fired().len() == self.emitter().fired().len(),
            forall|i: int|
                0 <= i < self.fired().len() ==> #[trigger] self.fired()[i] == Event::<
                    R,
                    W,
                >::Outbound(self.emitter().fired()[i]),
    {
        self.ctx.lemma_naming(self.pipeline);
    }

    /// What may come of handing the handler the message `msg` to write: the
    /// context may become `after`, as far as the handler allows what it is
    /// left to fire through.
    pub open spec fn writes(&self, msg: W, after: &Self) -> bool {
        self.handler().writes(msg, &self.handed(), &after.emitter())
    }

    /// What attaching comes to. A context that is attached already stays as
    /// it is. Any other is attached, keeps its place, and its handler has
    /// counted one more attachment and been offered an emitter of its own
    /// that names the pipeline and holds nothing.
    pub open spec fn attaches(&self, after: &Self) -> bool {
        if self.is_attached() {
            *after == *self
        } else {
            &&& after.is_attached()
            &&& after.same_wiring(self)
            &&& after.staged() == self.staged()
            &&& after.fired() == self.fired()
            &&& exists|count: usize, offered: Emitter<OutboundEvent<W>>|
                {
                    &&& self.handler().counts(count)
                    &&& offered.pipeline() == self.pipeline()
                    &&& offered.fired().len() == 0
                    &&& after.handler().counts(count_after_attach(count))
                    &&& #[trigger] after.handler().keeps(
                        context_after_attach(count, Some(offered)),
                    )
                }
        }
    }

    /// What detaching comes to: the context is detached and keeps its
    /// place, and its handler has counted one attachment less and keeps no
    /// live context.
    pub open spec fn detaches(&self, after: &Self) -> bool {
        &&& !after.is_attached()
        &&& after.same_wiring(self)
        &&& after.staged() == self.staged()
        &&& after.fired() == self.fired()
        &&& exists|count: usize|
            {
                &&& #[trigger] self.handler().counts(count)
                &&& after.handler().counts(count_after_detach(count))
            }
        &&& after.handler().keeps(None)
    }

    /// Whether the handler, handed `event`, passes it on as it is: an
    /// outbound event that is no message, of a kind that the handler leaves
    /// as the trait gives it.
    pub open spec fn passes(&self, event: Event<R, W>) -> bool {
        &&& event is Outbound
        &&& !(event.kind_of() is Write)
        &&& self.handler().passes_on(event.kind_of())
    }

    /// The handler, handed `event`, has left the context as `after`: where
    /// the handler passes the event on as it is, the event waits in the
    /// context after all that waited before, and the handler answers to
    /// every attachment that it answered to.
    pub open spec fn relays(&self, event: Event<R, W>, after: &Self) -> bool {
        self.passes(event) ==> {
            &&& after.fired() == self.fired().push(event)
            &&& keeps_attachment(&self.handler(), &after.handler())
        }
    }

    /// All that the handler of such a context fires is outbound.
    pub proof fn lemma_fired_outbound(&self)
        ensures
            forall|i: int| 0 <= i < self.fired().len() ==> (#[trigger] self.fired()[i]) is Outbound,
    {
    }

    /// A context for `handler` that belongs to no pipeline yet.
    pub fn new(handler: H) -> (context: Self)
        ensures
            context.handler() == handler,
            context.pipeline().is_none(),
            context.next_out().is_none(),
            !context.is_attached(),
            context.staged().len() == 0,
            context.fired().len() == 0,
    {
        OutboundContextImpl {
            ctx: Emitter::new(None),
            pipeline: None,
            handler,
            next_out: None,
            attached: false,
            staged: Vec::new(),
        }
    }

    pub fn get_handler(&self) -> (handler: &H)
        ensures
            *handler == self.handler(),
    {
        &self.handler
    }

    /// Puts the context into `pipeline` and leaves the rest as it is.
    pub fn set_pipeline(&mut self, pipeline: PipelineHandle)
        ensures
            final(self).pipeline() == Some(pipeline),
            final(self).same_links(old(self)),
            final(self).same_handler(old(self)),
            final(self).staged() == old(self).staged(),
            final(self).fired() == old(self).fired(),
    {
        self.pipeline = Some(pipeline);
    }

    /// Puts the context into `pipeline`, with `handler` in place of the
    /// handler that it held.
    pub fn initialize(&mut self, pipeline: PipelineHandle, handler: H)
        ensures
            final(self).pipeline() == Some(pipeline),
            final(self).handler() == handler,
            final(self).next_out() == old(self).next_out(),
            final(self).is_attached() == old(self).is_attached(),
            final(self).staged() == old(self).staged(),
            final(self).fired() == old(self).fired(),
    {
        self.pipeline = Some(pipeline);
        self.handler = handler;
    }

    /// The position that outbound events fired here go to.
    pub fn get_next_out(&self) -> (next: Option<usize>)
        ensures
            next == self.next_out(),
    {
        self.next_out
    }

    /// The pipeline that this context belongs to.
    pub fn get_owner(&self) -> (pipeline: Option<PipelineHandle>)
        ensures
            pipeline == self.pipeline(),
    {
        self.pipeline
    }

    pub fn get_attached(&self) -> (attached: bool)
        ensures
            attached == self.is_attached(),
    {
        self.attached
    }

    /// Keeps `routed` for the pipeline to carry on.
    fn stage(&mut self, routed: Routed<Event<R, W>>)
        ensures
            final(self).staged() == old(self).staged().push(routed),
            final(self).same_wiring(old(self)),
            final(self).same_handler(old(self)),
            final(self).fired() == old(self).fired(),
    {
        self.staged.push(routed);
    }

    /// Sends an outbound event on: to the next outbound context if there is
    /// one, and to the end of the pipeline if there is none.
    pub fn fire(&mut self, event: OutboundEvent<W>)
        ensures
            final(self).has_fired(old(self), Event::Outbound(event)),
    {
        match event {
            OutboundEvent::Write(msg) => self.fire_write(msg),
            OutboundEvent::WriteError(err) => self.fire_write_error(err),
            OutboundEvent::Close => self.fire_close(),
        }
    }

    /// Hands an outbound event to the handler. What the handler fires
    /// waits in the context: where the handler passes the event on as it
    /// is, that is the event itself, after all that waited before.
    pub fn accept(&mut self, event: OutboundEvent<W>)
        ensures
            final(self).same_place(old(self)),
            old(self).relays(Event::Outbound(event), final(self)),
            event matches OutboundEvent::Write(msg) ==> old(self).writes(msg, final(self)),
    {
        match event {
            OutboundEvent::Write(msg) => self.write(msg),
            OutboundEvent::WriteError(err) => self.write_error(err),
            OutboundEvent::Close => self.close(),
        }
    }

    /// Sends on all that the handler has fired, in the order fired.
    pub fn forward(&mut self)
        ensures
            final(self).staged() == old(self).staged() + routed_back(
                None,
                old(self).next_out(),
                old(self).fired(),
            ),
            final(self).fired().len() == 0,
            final(self).same_wiring(old(self)),
            final(self).same_handler(old(self)),
    {
        let ghost fired = self.fired();
        let ghost staged = self.staged();
        let ghost next = self.next_out();
        let mut left: usize = self.ctx.pending();
        while left > 0
            invariant
                left == self.ctx.fired().len(),
                left <= fired.len(),
                self.fired() == fired.take(left as int),
                self.staged() == staged + routed_back(None, next, fired).take(
                    fired.len() - left,
                ),
                self.same_wiring(old(self)),
                self.same_handler(old(self)),
                self.next_out() == next,
            decreases left,
        {
            let ghost before = self.staged();
            assert(self.fired()[left - 1] == fired[left - 1]);
            match self.ctx.take_last() {
                Some(event) => {
                    assert(Event::<R, W>::Outbound(event) == fired[left - 1]);
                    self.fire(event);
                    left = left - 1;
                    assert(self.staged() == staged + routed_back(None, next, fired).take(
                        fired.len() - left,
                    )) by {
                        assert(self.staged() =~= before.push(
                            route(None, next, fired[left as int]),
                        ));
                    }
                    assert(self.fired() =~= fired.take(left as int));
                },
                None => {},
            }
        }
        assert(routed_back(None, next, fired).take(fired.len() as int) =~= routed_back(
            None,
            next,
            fired,
        ));
    }

    /// Discards what waits in the context to be sent or carried on.
    pub fn clear(&mut self)
        ensures
            final(self).staged().len() == 0,
            final(self).fired().len() == 0,
            final(self).same_wiring(old(self)),
            final(self).same_handler(old(self)),
    {
        self.staged.clear();
        self.ctx.clear();
    }

    /// Moves what the context has staged onto `stack`, the next to go last.
    pub fn release(&mut self, stack: &mut Vec<Routed<Event<R, W>>>)
        ensures
            final(stack)@ == old(stack)@ + old(self).staged(),
            final(self).staged().len() == 0,
            final(self).same_wiring(old(self)),
            final(self).same_handler(old(self)),
            final(self).fired() == old(self).fired(),
    {
        stack.append(&mut self.staged);
    }
}

impl<R, W, H> PipelineContext for OutboundContextImpl<R, W, H> where
    H: OutboundHandler<W, W, Emitter<OutboundEvent<W>>>,
 {
    fn get_direction(&self) -> (dir: HandlerDir)
        ensures
            dir == HandlerDir::OUT,
    {
        self.handler.get_direction()
    }

    /// Tells the handler of this context, unless it has been told already:
    /// the handler is offered a context of its own that names the pipeline.
    fn attach_pipeline(&mut self)
        ensures
            old(self).attaches(final(self)),
            old(self).is_attached() ==> *final(self) == *old(self),
            final(self).is_attached(),
            final(self).same_wiring(old(self)),
            final(self).staged() == old(self).staged(),
            final(self).fired() == old(self).fired(),
    {
        if !self.attached {
            let offered = Emitter::new(self.pipeline);
            let ghost fresh = offered;
            self.handler.attach_context(Some(offered));
            self.attached = true;
            proof {
                let count = choose|count: usize|
                    {
                        &&& #[trigger] old(self).handler().counts(count)
                        &&& self.handler().counts(count_after_attach(count))
                        &&& self.handler().keeps(context_after_attach(count, Some(fresh)))
                    };
                assert(self.handler().keeps(context_after_attach(count, Some(fresh))));
            }
        }
    }

    /// Marks the context detached and tells the handler so.
    fn detach_pipeline(&mut self)
        ensures
            old(self).detaches(final(self)),
            !final(self).is_attached(),
            final(self).same_wiring(old(self)),
            final(self).staged() == old(self).staged(),
            final(self).fired() == old(self).fired(),
    {
        self.attached = false;
        self.handler.detach_context();
        proof {
            let count = choose|count: usize|
                {
                    &&& #[trigger] old(self).handler().counts(count)
                    &&& self.handler().counts(count_after_detach(count))
                };
            assert(old(self).handler().counts(count));
        }
    }

    fn set_next_in(&mut self, ctx: Option<usize>)
        ensures
            *final(self) == *old(self),
    {
    }

    fn set_next_out(&mut self, ctx: Option<usize>)
        ensures
            final(self).next_out() == ctx,
            final(self).pipeline() == old(self).pipeline(),
            final(self).same_handler(old(self)),
            final(self).staged() == old(self).staged(),
            final(self).fired() == old(self).fired(),
    {
        self.next_out = ctx;
    }
}

impl<R, W, H> OutboundHandlerContext<W> for OutboundContextImpl<R, W, H> where
    H: OutboundHandler<W, W, Emitter<OutboundEvent<W>>>,
 {
    open spec fn fires(&self, event: OutboundEvent<W>, after: &Self) -> bool {
        after.has_fired(self, Event::Outbound(event))
    }

    fn fire_write(&mut self, msg: W)
        ensures
            final(self).has_fired(old(self), Event::Outbound(OutboundEvent::Write(msg))),
    {
        match self.next_out {
            Some(target) => {
                self.stage(
                    Routed::Deliver { target, event: Event::Outbound(OutboundEvent::Write(msg)) },
                );
            },
            None => {
                self.stage(Routed::EndOfPipeline { kind: EventKind::Write });
            },
        }
    }

    fn fire_write_error(&mut self, err: Cause)
        ensures
            final(self).has_fired(old(self), Event::Outbound(OutboundEvent::WriteError(err))),
    {
        match self.next_out {
            Some(target) => {
                self.stage(
                    Routed::Deliver {
                        target,
                        event: Event::Outbound(OutboundEvent::WriteError(err)),
                    },
                );
            },
            None => {
                self.stage(Routed::EndOfPipeline { kind: EventKind::WriteError });
            },
        }
    }

    fn fire_close(&mut self)
        ensures
            final(self).has_fired(old(self), Event::Outbound(OutboundEvent::Close)),
    {
        match self.next_out {
            Some(target) => {
                self.stage(
                    Routed::Deliver { target, event: Event::Outbound(OutboundEvent::Close) },
                );
            },
            None => {
                self.stage(Routed::EndOfPipeline { kind: EventKind::Close });
            },
        }
    }

    fn get_pipeline(&self) -> (pipeline: Option<PipelineHandle>)
        ensures
            pipeline == self.pipeline(),
    {
        self.pipeline
    }
}

impl<R, W, H> OutboundLink<W> for OutboundContextImpl<R, W, H> where
    H: OutboundHandler<W, W, Emitter<OutboundEvent<W>>>,
 {
    /// Hands a message to the handler, with an emitter that names the
    /// pipeline of this context.
    fn write(&mut self, msg: W)
        ensures
            final(self).same_place(old(self)),
            old(self).writes(msg, final(self)),
    {
        self.ctx.set_pipeline(self.pipeline);
        self.handler.write(&mut self.ctx, msg);
    }

    fn write_error(&mut self, err: Cause)
        ensures
            final(self).same_place(old(self)),
            old(self).relays(Event::Outbound(OutboundEvent::WriteError(err)), final(self)),
    {
        let ghost event = Event::<R, W>::Outbound(OutboundEvent::WriteError(err));
        self.ctx.set_pipeline(self.pipeline);
        self.handler.write_error(&mut self.ctx, err);
        assert(old(self).passes(event) ==> self.fired() =~= old(self).fired().push(event));
    }

    fn close(&mut self)
        ensures
            final(self).same_place(old(self)),
            old(self).relays(Event::Outbound(OutboundEvent::Close), final(self)),
    {
        let ghost event = Event::<R, W>::Outbound(OutboundEvent::Close);
        self.ctx.set_pipeline(self.pipeline);
        self.handler.close(&mut self.ctx);
        assert(old(self).passes(event) ==> self.fired() =~= old(self).fired().push(event));
    }
}

/// The context of a handler that takes events of both directions.
pub struct ContextImpl<R, W, H> {
    ctx: Emitter<Event<R, W>>,
    pipeline: Option<PipelineHandle>,
    handler: H,
    next_in: Option<usize>,
    next_out: Option<usize>,
    attached: bool,
    staged: Vec<Routed<Event<R, W>>>,
}

impl<R, W, H> ContextImpl<R, W, H> where
    H: Handler<R, R, W, W, Emitter<Event<R, W>>>,
 {
    /// The handler that this context holds.
    pub closed spec fn handler(&self) -> H {
        self.handler
    }

    /// The pipeline that this context belongs to.
    pub closed spec fn pipeline(&self) -> Option<PipelineHandle> {
        self.pipeline
    }

    /// The position that inbound events fired here go to.
    pub closed spec fn next_in(&self) -> Option<usize> {
        self.next_in
    }

    /// The position that outbound events fired here go to.
    pub closed spec fn next_out(&self) -> Option<usize> {
        self.next_out
    }

    /// Whether the handler has been told of this context.
    pub closed spec fn is_attached(&self) -> bool {
        self.attached
    }

    /// What the context has fired and the pipeline has not yet carried on,
    /// the next to go last.
    pub closed spec fn staged(&self) -> Seq<Routed<Event<R, W>>> {
        self.staged@
    }

    /// What the handler has fired and the context has not yet sent on.
    pub closed spec fn fired(&self) -> Seq<Event<R, W>> {
        self.ctx.fired()
    }

    /// The context has the same links as `other`.
    pub open spec fn same_links(&self, other: &Self) -> bool {
        &&& self.next_in() == other.next_in()
        &&& self.next_out() == other.next_out()
    }

    /// The context belongs to the same pipeline as `other` and has the same
    /// links.
    pub open spec fn same_wiring(&self, other: &Self) -> bool {
        &&& self.pipeline() == other.pipeline()
        &&& self.same_links(other)
    }

    /// Nothing of the context but its handler and what the handler has
    /// fired differs from `other`.
    pub open spec fn same_place(&self, other: &Self) -> bool {
        &&& self.same_wiring(other)
        &&& self.is_attached() == other.is_attached()
        &&& self.staged() == other.staged()
    }

    /// The context holds the same handler in the same state of attachment
    /// as `other`.
    pub open spec fn same_handler(&self, other: &Self) -> bool {
        &&& self.handler() == other.handler()
        &&& self.is_attached() == other.is_attached()
    }

    /// The context is `before` after it has fired `event`: the routed event
    /// is staged, and nothing else differs.
    pub open spec fn has_fired(&self, before: &Self, event: Event<R, W>) -> bool {
        &&& self.staged() == before.staged().push(before.route_of(event))
        &&& self.same_wiring(before)
        &&& self.same_handler(before)
        &&& self.fired() == before.fired()
    }

    /// Where an event fired at this context goes.
    pub open spec fn route_of(&self, event: Event<R, W>) -> Routed<Event<R, W>> {
        route(self.next_in(), self.next_out(), event)
    }

    /// The emitter that the handler fires through.
    pub closed spec fn emitter(&self) -> Emitter<Event<R, W>> {
        self.ctx
    }

    /// The emitter as the handler is handed it: it names the pipeline of
    /// this context.
    pub closed spec fn handed(&self) -> Emitter<Event<R, W>> {
        self.ctx.naming(self.pipeline)
    }

    /// The emitter that the handler is handed is the one that it fires
    /// through, naming the pipeline of this context; what waits in it is
    /// what the handler has fired.
    pub proof fn lemma_handed(&self)
        ensures
            self.handed() == self.emitter().naming(self.pipeline()),
            self.handed().pipeline() == self.pipeline(),
            self.handed().fired() == self.emitter().fired(),
            self.fired().len() == self.emitter().fired().len(),
            forall|i: int|
                0 <= i < self.fired().len() ==> #[trigger] self.fired()[i]
                    == self.emitter().fired()[i],
    {
        self.ctx.lemma_naming(self.pipeline);
    }

    /// What may come of handing the handler the message `msg`: the context
    /// may become `after`, as far as the handler allows what it is left to
    /// fire through.
    pub open spec fn reads(&self, msg: R, after: &Self) -> bool {
        self.handler().reads(msg, &self.handed(), &after.emitter())
    }

    /// What may come of handing the handler the message `msg` to write: the
    /// context may become `after`, as far as the handler allows what it is
    /// left to fire through.
    pub open spec fn writes(&self, msg: W, after: &Self) -> bool {
        self.handler().writes(msg, &self.handed(), &after.emitter())
    }

    /// What attaching comes to. A context that is attached already stays as
    /// it is. Any other is attached, keeps its place, and its handler has
    /// counted one more attachment and been offered an emitter of its own
    /// that names the pipeline and holds nothing.
    pub open spec fn attaches(&self, after: &Self) -> bool {
        if self.is_attached() {
            *after == *self
        } else {
            &&& after.is_attached()
            &&& after.same_wiring(self)
            &&& after.staged() == self.staged()
            &&& after.fired() == self.fired()
            &&& exists|count: usize, offered: Emitter<Event<R, W>>|
                {
                    &&& self.handler().counts(count)
                    &&& offered.pipeline() == self.pipeline()
                    &&& offered.fired().len() == 0
                    &&& after.handler().counts(count_after_attach(count))
                    &&& #[trigger] after.handler().keeps(
                        context_after_attach(count, Some(offered)),
                    )
                }
        }
    }

    /// What detaching comes to: the context is detached and keeps its
    /// place, and its handler has counted one attachment less and keeps no
    /// live context.
    pub open spec fn detaches(&self, after: &Self) -> bool {
        &&& !after.is_attached()
        &&& after.same_wiring(self)
        &&& after.staged() == self.staged()
        &&& after.fired() == self.fired()
        &&& exists|count: usize|
            {
                &&& #[trigger] self.handler().counts(count)
                &&& after.handler().counts(count_after_detach(count))
            }
        &&& after.handler().keeps(None)
    }

    /// Whether the handler, handed `event`, passes it on as it is: an event
    /// that is no message, of a kind that the handler leaves as the trait
    /// gives it.
    pub open spec fn passes(&self, event: Event<R, W>) -> bool {
        &&& !(event.kind_of() is Read)
        &&& !(event.kind_of() is Write)
        &&& self.handler().passes_on(event.kind_of())
    }

    /// The handler, handed `event`, has left the context as `after`: where
    /// the handler passes the event on as it is, the event waits in the
    /// context after all that waited before, and the handler answers to
    /// every attachment that it answered to.
    pub open spec fn relays(&self, event: Event<R, W>, after: &Self) -> bool {
        self.passes(event) ==> {
            &&& after.fired() == self.fired().push(event)
            &&& keeps_attachment(&self.handler(), &after.handler())
        }
    }

    /// A context for `handler` that belongs to no pipeline yet.
    pub fn new(handler: H) -> (context: Self)
        ensures
            context.handler() == handler,
            context.pipeline().is_none(),
            context.next_in().is_none(),
            context.next_out().is_none(),
            !context.is_attached(),
            context.staged().len() == 0,
            context.fired().len() == 0,
    {
        ContextImpl {
            ctx: Emitter::new(None),
            pipeline: None,
            handler,
            next_in: None,
            next_out: None,
            attached: false,
            staged: Vec::new(),
        }
    }

    pub fn get_handler(&self) -> (handler: &H)
        ensures
            *handler == self.handler(),
    {
        &self.handler
    }

    /// Puts the context into `pipeline` and leaves the rest as it is.
    pub fn set_pipeline(&mut self, pipeline: PipelineHandle)
        ensures
            final(self).pipeline() == Some(pipeline),
            final(self).same_links(old(self)),
            final(self).same_handler(old(self)),
            final(self).staged() == old(self).staged(),
            final(self).fired() == old(self).fired(),
    {
        self.pipeline = Some(pipeline);
    }

    /// Puts the context into `pipeline`, with `handler` in place of the
    /// handler that it held.
    pub fn initialize(&mut self, pipeline: PipelineHandle, handler: H)
        ensures
            final(self).pipeline() == Some(pipeline),
            final(self).handler() == handler,
            final(self).next_in() == old(self).next_in(),
            final(self).next_out() == old(self).next_out(),
            final(self).is_attached() == old(self).is_attached(),
            final(self).staged() == old(self).staged(),
            final(self).fired() == old(self).fired(),
    {
        self.pipeline = Some(pipeline);
        self.handler = handler;
    }

    /// The position that inbound events fired here go to.
    pub fn get_next_in(&self) -> (next: Option<usize>)
        ensures
            next == self.next_in(),
    {
        self.next_in
    }

    /// The position that outbound events fired here go to.
    pub fn get_next_out(&self) -> (next: Option<usize>)
        ensures
            next == self.next_out(),
    {
        self.next_out
    }

    /// The pipeline that this context belongs to.
    pub fn get_owner(&self) -> (pipeline: Option<PipelineHandle>)
        ensures
            pipeline == self.pipeline(),
    {
        self.pipeline
    }

    pub fn get_attached(&self) -> (attached: bool)
        ensures
            attached == self.is_attached(),
    {
        self.attached
    }

    /// Keeps `routed` for the pipeline to carry on.
    fn stage(&mut self, routed: Routed<Event<R, W>>)
        ensures
            final(self).staged() == old(self).staged().push(routed),
            final(self).same_wiring(old(self)),
            final(self).same_handler(old(self)),
            final(self).fired() == old(self).fired(),
    {
        self.staged.push(routed);
    }

    /// Sends an event on: to the next context of its direction if there is
    /// one, and to the end of the pipeline if there is none.
    pub fn fire(&mut self, event: Event<R, W>)
        ensures
            final(self).has_fired(old(self), event),
    {
        match event {
            Event::Inbound(InboundEvent::Read(msg)) => self.fire_read(msg),
            Event::Inbound(InboundEvent::ReadEof) => self.fire_read_eof(),
            Event::Inbound(InboundEvent::ReadError(err)) => self.fire_read_error(err),
            Event::Inbound(InboundEvent::TransportActive) => self.fire_transport_active(),
            Event::Inbound(InboundEvent::TransportInactive) => self.fire_transport_inactive(),
            Event::Outbound(OutboundEvent::Write(msg)) => self.fire_write(msg),
            Event::Outbound(OutboundEvent::WriteError(err)) => self.fire_write_error(err),
            Event::Outbound(OutboundEvent::Close) => self.fire_close(),
        }
    }

    /// Hands an event to the handler. What the handler fires waits in the
    /// context: where the handler passes the event on as it is, that is the
    /// event itself, after all that waited before.
    pub fn accept(&mut self, event: Event<R, W>)
        ensures
            final(self).same_place(old(self)),
            old(self).relays(event, final(self)),
            event matches Event::Inbound(InboundEvent::Read(msg)) ==> old(self).reads(
                msg,
                final(self),
            ),
            event matches Event::Outbound(OutboundEvent::Write(msg)) ==> old(self).writes(
                msg,
                final(self),
            ),
    {
        match event {
            Event::Inbound(InboundEvent::Read(msg)) => InboundLink::read(self, msg),
            Event::Inbound(InboundEvent::ReadEof) => self.read_eof(),
            Event::Inbound(InboundEvent::ReadError(err)) => self.read_error(err),
            Event::Inbound(InboundEvent::TransportActive) => self.transport_active(),
            Event::Inbound(InboundEvent::TransportInactive) => self.transport_inactive(),
            Event::Outbound(OutboundEvent::Write(msg)) => self.write(msg),
            Event::Outbound(OutboundEvent::WriteError(err)) => self.write_error(err),
            Event::Outbound(OutboundEvent::Close) => self.close(),
        }
    }

    /// Sends on all that the handler has fired, in the order fired.
    pub fn forward(&mut self)
        ensures
            final(self).staged() == old(self).staged() + routed_back(
                old(self).next_in(),
                old(self).next_out(),
                old(self).fired(),
            ),
            final(self).fired().len() == 0,
            final(self).same_wiring(old(self)),
            final(self).same_handler(old(self)),
    {
        let ghost fired = self.fired();
        let ghost staged = self.staged();
        let ghost next_in = self.next_in();
        let ghost next_out = self.next_out();
        let mut left: usize = self.ctx.pending();
        while left > 0
            invariant
                left == self.ctx.fired().len(),
                left <= fired.len(),
                self.fired() == fired.take(left as int),
                self.staged() == staged + routed_back(next_in, next_out, fired).take(
                    fired.len() - left,
                ),
                self.same_wiring(old(self)),
                self.same_handler(old(self)),
                self.next_in() == next_in,
                self.next_out() == next_out,
            decreases left,
        {
            let ghost before = self.staged();
            assert(self.fired()[left - 1] == fired[left - 1]);
            match self.ctx.take_last() {
                Some(event) => {
                    assert(event == fired[left - 1]);
                    self.fire(event);
                    left = left - 1;
                    assert(self.staged() == staged + routed_back(next_in, next_out, fired).take(
                        fired.len() - left,
                    )) by {
                        assert(self.staged() =~= before.push(
                            route(next_in, next_out, fired[left as int]),
                        ));
                    }
                    assert(self.fired() =~= fired.take(left as int));
                },
                None => {},
            }
        }
        assert(routed_back(next_in, next_out, fired).take(fired.len() as int) =~= routed_back(
            next_in,
            next_out,
            fired,
        ));
    }

    /// Discards what waits in the context to be sent or carried on.
    pub fn clear(&mut self)
        ensures
            final(self).staged().len() == 0,
            final(self).fired().len() == 0,
            final(self).same_wiring(old(self)),
            final(self).same_handler(old(self)),
    {
        self.staged.clear();
        self.ctx.clear();
    }

    /// Moves what the context has staged onto `stack`, the next to go last.
    pub fn release(&mut self, stack: &mut Vec<Routed<Event<R, W>>>)
        ensures
            final(stack)@ == old(stack)@ + old(self).staged(),
            final(self).staged().len() == 0,
            final(self).same_wiring(old(self)),
            final(self).same_handler(old(self)),
            final(self).fired() == old(self).fired(),
    {
        stack.append(&mut self.staged);
    }
}

impl<R, W, H> PipelineContext for ContextImpl<R, W, H> where
    H: Handler<R, R, W, W, Emitter<Event<R, W>>>,
 {
    fn get_direction(&self) -> (dir: HandlerDir)
        ensures
            dir == HandlerDir::BOTH,
    {
        self.handler.get_direction()
    }

    /// Tells the handler of this context, unless it has been told already:
    /// the handler is offered a context of its own that names the pipeline.
    fn attach_pipeline(&mut self)
        ensures
            old(self).attaches(final(self)),
            old(self).is_attached() ==> *final(self) == *old(self),
            final(self).is_attached(),
            final(self).same_wiring(old(self)),
            final(self).staged() == old(self).staged(),
            final(self).fired() == old(self).fired(),
    {
        if !self.attached {
            let offered = Emitter::new(self.pipeline);
            let ghost fresh = offered;
            self.handler.attach_context(Some(offered));
            self.attached = true;
            proof {
                let count = choose|count: usize|
                    {
                        &&& #[trigger] old(self).handler().counts(count)
                        &&& self.handler().counts(count_after_attach(count))
                        &&& self.handler().keeps(context_after_attach(count, Some(fresh)))
                    };
                assert(self.handler().keeps(context_after_attach(count, Some(fresh))));
            }
        }
    }

    /// Marks the context detached and tells the handler so.
    fn detach_pipeline(&mut self)
        ensures
            old(self).detaches(final(self)),
            !final(self).is_attached(),
            final(self).same_wiring(old(self)),
            final(self).staged() == old(self).staged(),
            final(self).fired() == old(self).fired(),
    {
        self.attached = false;
        self.handler.detach_context();
        proof {
            let count = choose|count: usize|
                {
                    &&& #[trigger] old(self).handler().counts(count)
                    &&& self.handler().counts(count_after_detach(count))
                };
            assert(old(self).handler().counts(count));
        }
    }

    fn set_next_in(&mut self, ctx: Option<usize>)
        ensures
            final(self).next_in() == ctx,
            final(self).next_out() == old(self).next_out(),
            final(self).pipeline() == old(self).pipeline(),
            final(self).same_handler(old(self)),
            final(self).staged() == old(self).staged(),
            final(self).fired() == old(self).fired(),
    {
        self.next_in = ctx;
    }

    fn set_next_out(&mut self, ctx: Option<usize>)
        ensures
            final(self).next_out() == ctx,
            final(self).next_in() == old(self).next_in(),
            final(self).pipeline() == old(self).pipeline(),
            final(self).same_handler(old(self)),
            final(self).staged() == old(self).staged(),
            final(self).fired() == old(self).fired(),
    {
        self.next_out = ctx;
    }
}

impl<R, W, H> HandlerContext<R, W> for ContextImpl<R, W, H> where
    H: Handler<R, R, W, W, Emitter<Event<R, W>>>,
 {
    open spec fn fires(&self, event: Event<R, W>, after: &Self) -> bool {
        after.has_fired(self, event)
    }

    fn fire_read(&mut self, msg: R)
        ensures
            final(self).has_fired(old(self), Event::Inbound(InboundEvent::Read(msg))),
    {
        match self.next_in {
            Some(target) => {
                self.stage(
                    Routed::Deliver { target, event: Event::Inbound(InboundEvent::Read(msg)) },
                );
            },
            None => {
                self.stage(Routed::EndOfPipeline { kind: EventKind::Read });
            },
        }
    }

    fn fire_read_eof(&mut self)
        ensures
            final(self).has_fired(old(self), Event::Inbound(InboundEvent::ReadEof)),
    {
        match self.next_in {
            Some(target) => {
                self.stage(
                    Routed::Deliver { target, event: Event::Inbound(InboundEvent::ReadEof) },
                );
            },
            None => {
                self.stage(Routed::EndOfPipeline { kind: EventKind::ReadEof });
            },
        }
    }

    fn fire_read_error(&mut self, err: Cause)
        ensures
            final(self).has_fired(old(self), Event::Inbound(InboundEvent::ReadError(err))),
    {
        match self.next_in {
            Some(target) => {
                self.stage(
                    Routed::Deliver {
                        target,
                        event: Event::Inbound(InboundEvent::ReadError(err)),
                    },
                );
            },
            None => {
                self.stage(Routed::EndOfPipeline { kind: EventKind::ReadError });
            },
        }
    }

    fn fire_transport_active(&mut self)
        ensures
            final(self).has_fired(old(self), Event::Inbound(InboundEvent::TransportActive)),
    {
        match self.next_in {
            Some(target) => {
                self.stage(
                    Routed::Deliver {
                        target,
                        event: Event::Inbound(InboundEvent::TransportActive),
                    },
                );
            },
            None => {
                self.stage(Routed::EndOfPipeline { kind: EventKind::TransportActive });
            },
        }
    }

    fn fire_transport_inactive(&mut self)
        ensures
            final(self).has_fired(old(self), Event::Inbound(InboundEvent::TransportInactive)),
    {
        match self.next_in {
            Some(target) => {
                self.stage(
                    Routed::Deliver {
                        target,
                        event: Event::Inbound(InboundEvent::TransportInactive),
                    },
                );
            },
            None => {
                self.stage(Routed::EndOfPipeline { kind: EventKind::TransportInactive });
            },
        }
    }

    fn fire_write(&mut self, msg: W)
        ensures
            final(self).has_fired(old(self), Event::Outbound(OutboundEvent::Write(msg))),
    {
        match self.next_out {
            Some(target) => {
                self.stage(
                    Routed::Deliver { target, event: Event::Outbound(OutboundEvent::Write(msg)) },
                );
            },
            None => {
                self.stage(Routed::EndOfPipeline { kind: EventKind::Write });
            },
        }
    }

    fn fire_write_error(&mut self, err: Cause)
        ensures
            final(self).has_fired(old(self), Event::Outbound(OutboundEvent::WriteError(err))),
    {
        match self.next_out {
            Some(target) => {
                self.stage(
                    Routed::Deliver {
                        target,
                        event: Event::Outbound(OutboundEvent::WriteError(err)),
                    },
                );
            },
            None => {
                self.stage(Routed::EndOfPipeline { kind: EventKind::WriteError });
            },
        }
    }

    fn fire_close(&mut self)
        ensures
            final(self).has_fired(old(self), Event::Outbound(OutboundEvent::Close)),
    {
        match self.next_out {
            Some(target) => {
                self.stage(
                    Routed::Deliver { target, event: Event::Outbound(OutboundEvent::Close) },
                );
            },
            None => {
                self.stage(Routed::EndOfPipeline { kind: EventKind::Close });
            },
        }
    }

    fn get_pipeline(&self) -> (pipeline: Option<PipelineHandle>)
        ensures
            pipeline == self.pipeline(),
    {
        self.pipeline
    }
}

impl<R, W, H> InboundLink<R> for ContextImpl<R, W, H> where
    H: Handler<R, R, W, W, Emitter<Event<R, W>>>,
 {
    /// Hands a message to the handler, with an emitter that names the
    /// pipeline of this context.
    fn read(&mut self, msg: R)
        ensures
            final(self).same_place(old(self)),
            old(self).reads(msg, final(self)),
    {
        self.ctx.set_pipeline(self.pipeline);
        self.handler.read(&mut self.ctx, msg);
    }

    fn read_eof(&mut self)
        ensures
            final(self).same_place(old(self)),
            old(self).relays(Event::Inbound(InboundEvent::ReadEof), final(self)),
    {
        let ghost event = Event::<R, W>::Inbound(InboundEvent::ReadEof);
        self.ctx.set_pipeline(self.pipeline);
        self.handler.read_eof(&mut self.ctx);
        assert(old(self).passes(event) ==> self.fired() =~= old(self).fired().push(event));
    }

    fn read_error(&mut self, err: Cause)
        ensures
            final(self).same_place(old(self)),
            old(self).relays(Event::Inbound(InboundEvent::ReadError(err)), final(self)),
    {
        let ghost event = Event::<R, W>::Inbound(InboundEvent::ReadError(err));
        self.ctx.set_pipeline(self.pipeline);
        self.handler.read_error(&mut self.ctx, err);
        assert(old(self).passes(event) ==> self.fired() =~= old(self).fired().push(event));
    }

    fn transport_active(&mut self)
        ensures
            final(self).same_place(old(self)),
            old(self).relays(Event::Inbound(InboundEvent::TransportActive), final(self)),
    {
        let ghost event = Event::<R, W>::Inbound(InboundEvent::TransportActive);
        self.ctx.set_pipeline(self.pipeline);
        self.handler.transport_active(&mut self.ctx);
        assert(old(self).passes(event) ==> self.fired() =~= old(self).fired().push(event));
    }

    fn transport_inactive(&mut self)
        ensures
            final(self).same_place(old(self)),
            old(self).relays(Event::Inbound(InboundEvent::TransportInactive), final(self)),
    {
        let ghost event = Event::<R, W>::Inbound(InboundEvent::TransportInactive);
        self.ctx.set_pipeline(self.pipeline);
        self.handler.transport_inactive(&mut self.ctx);
        assert(old(self).passes(event) ==> self.fired() =~= old(self).fired().push(event));
    }
}

impl<R, W, H> OutboundLink<W> for ContextImpl<R, W, H> where
    H: Handler<R, R, W, W, Emitter<Event<R, W>>>,
 {
    /// Hands a message to the handler, with an emitter that names the
    /// pipeline of this context.
    fn write(&mut self, msg: W)
        ensures
            final(self).same_place(old(self)),
            old(self).writes(msg, final(self)),
    {
        self.ctx.set_pipeline(self.pipeline);
        self.handler.write(&mut self.ctx, msg);
    }

    fn write_error(&mut self, err: Cause)
        ensures
            final(self).same_place(old(self)),
            old(self).relays(Event::Outbound(OutboundEvent::WriteError(err)), final(self)),
    {
        let ghost event = Event::<R, W>::Outbound(OutboundEvent::WriteError(err));
        self.ctx.set_pipeline(self.pipeline);
        self.handler.write_error(&mut self.ctx, err);
        assert(old(self).passes(event) ==> self.fired() =~= old(self).fired().push(event));
    }

    fn close(&mut self)
        ensures
            final(self).same_place(old(self)),
            old(self).relays(Event::Outbound(OutboundEvent::Close), final(self)),
    {
        let ghost event = Event::<R, W>::Outbound(OutboundEvent::Close);
        self.ctx.set_pipeline(self.pipeline);
        self.handler.close(&mut self.ctx);
        assert(old(self).passes(event) ==> self.fired() =~= old(self).fired().push(event));
    }
}

} // verus!
