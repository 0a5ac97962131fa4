//! The three kinds of context as one type, so that a pipeline can hold them
//! in one sequence.

use vstd::prelude::*;
use super::event::{Cause, Event, InboundEvent, OutboundEvent, Routed};
use super::handler::{Handler, HandlerDir, InboundHandler, OutboundHandler};
use super::handler_context::{Emitter, PipelineHandle};
use super::pipeline_context::{
    routed_back,
    ContextImpl,
    InboundContextImpl,
    InboundLink,
    OutboundContextImpl,
    OutboundLink,
    PipelineContext,
};

verus! {

/// One position of a pipeline: a context of one of the three kinds.
pub enum Slot<R, W, I, O, B> {
    Inbound(InboundContextImpl<R, W, I>),
    Outbound(OutboundContextImpl<R, W, O>),
    Both(ContextImpl<R, W, B>),
}

impl<R, W, I, O, B> Slot<R, W, I, O, B> where
    I: InboundHandler<R, R, Emitter<InboundEvent<R>>>,
    O: OutboundHandler<W, W, Emitter<OutboundEvent<W>>>,
    B: Handler<R, R, W, W, Emitter<Event<R, W>>>,
 {
    /// The directions in which the handler of this position takes events.
    pub open spec fn direction(&self) -> HandlerDir {
        match self {
            Slot::Inbound(_) => HandlerDir::IN,
            Slot::Outbound(_) => HandlerDir::OUT,
            Slot::Both(_) => HandlerDir::BOTH,
        }
    }

    /// The position that inbound events fired here go to.
    pub open spec fn next_in(&self) -> Option<usize> {
        match self {
            Slot::Inbound(c) => c.next_in(),
            Slot::Outbound(_) => None,
            Slot::Both(c) => c.next_in(),
        }
    }

    /// The position that outbound events fired here go to.
    pub open spec fn next_out(&self) -> Option<usize> {
        match self {
            Slot::Inbound(_) => None,
            Slot::Outbound(c) => c.next_out(),
            Slot::Both(c) => c.next_out(),
        }
    }

    /// The pipeline that the context belongs to.
    pub open spec fn pipeline(&self) -> Option<PipelineHandle> {
        match self {
            Slot::Inbound(c) => c.pipeline(),
            Slot::Outbound(c) => c.pipeline(),
            Slot::Both(c) => c.pipeline(),
        }
    }

    /// Whether the handler has been told of the context.
    pub open spec fn is_attached(&self) -> bool {
        match self {
            Slot::Inbound(c) => c.is_attached(),
            Slot::Outbound(c) => c.is_attached(),
            Slot::Both(c) => c.is_attached(),
        }
    }

    /// What the context has fired and the pipeline has not yet carried on.
    pub open spec fn staged(&self) -> Seq<Routed<Event<R, W>>> {
        match self {
            Slot::Inbound(c) => c.staged(),
            Slot::Outbound(c) => c.staged(),
            Slot::Both(c) => c.staged(),
        }
    }

    /// What the handler has fired and the context has not yet sent on.
    pub open spec fn fired(&self) -> Seq<Event<R, W>> {
        match self {
            Slot::Inbound(c) => c.fired(),
            Slot::Outbound(c) => c.fired(),
            Slot::Both(c) => c.fired(),
        }
    }

    /// The context holds nothing that waits to be sent or carried on.
    pub open spec fn idle(&self) -> bool {
        self.staged().len() == 0 && self.fired().len() == 0
    }

    /// The context is of the same kind as `other`, in the same pipeline,
    /// and as attached as `other`.
    pub open spec fn same_seat(&self, other: &Self) -> bool {
        &&& self.direction() == other.direction()
        &&& self.pipeline() == other.pipeline()
        &&& self.is_attached() == other.is_attached()
    }

    /// The context holds the handler that `other` holds.
    pub open spec fn same_handler(&self, other: &Self) -> bool {
        match (*self, *other) {
            (Slot::Inbound(a), Slot::Inbound(b)) => a.handler() == b.handler(),
            (Slot::Outbound(a), Slot::Outbound(b)) => a.handler() == b.handler(),
            (Slot::Both(a), Slot::Both(b)) => a.handler() == b.handler(),
            _ => false,
        }
    }

    /// Nothing of the context but its handler and what the handler has
    /// fired differs from `other`.
    pub open spec fn same_place(&self, other: &Self) -> bool {
        &&& self.same_seat(other)
        &&& self.same_links(other)
        &&& self.staged() == other.staged()
    }

    /// The context has the same links as `other`.
    pub open spec fn same_links(&self, other: &Self) -> bool {
        &&& self.next_in() == other.next_in()
        &&& self.next_out() == other.next_out()
    }

    /// Whether the handler, handed `event`, passes it on as it is: an event
    /// that the handler takes and that is no message, of a kind that the
    /// handler leaves as its trait gives it.
    pub open spec fn passes(&self, event: Event<R, W>) -> bool {
        match self {
            Slot::Inbound(c) => c.passes(event),
            Slot::Outbound(c) => c.passes(event),
            Slot::Both(c) => c.passes(event),
        }
    }

    /// What may come of handing the position the message `msg`: a position
    /// whose handler takes inbound events may become `after`, as far as the
    /// handler allows; any other stays as it is.
    pub open spec fn reads(&self, msg: R, after: &Self) -> bool {
        match (*self, *after) {
            (Slot::Inbound(c), Slot::Inbound(d)) => c.reads(msg, &d),
            (Slot::Both(c), Slot::Both(d)) => c.reads(msg, &d),
            (Slot::Outbound(_), Slot::Outbound(_)) => *after == *self,
            _ => false,
        }
    }

    /// What may come of handing the position the message `msg` to write: a
    /// position whose handler takes outbound events may become `after`, as
    /// far as the handler allows; any other stays as it is.
    pub open spec fn writes(&self, msg: W, after: &Self) -> bool {
        match (*self, *after) {
            (Slot::Outbound(c), Slot::Outbound(d)) => c.writes(msg, &d),
            (Slot::Both(c), Slot::Both(d)) => c.writes(msg, &d),
            (Slot::Inbound(_), Slot::Inbound(_)) => *after == *self,
            _ => false,
        }
    }

    /// What attaching the context of this position comes to.
    pub open spec fn attaches(&self, after: &Self) -> bool {
        match (*self, *after) {
            (Slot::Inbound(c), Slot::Inbound(d)) => c.attaches(&d),
            (Slot::Outbound(c), Slot::Outbound(d)) => c.attaches(&d),
            (Slot::Both(c), Slot::Both(d)) => c.attaches(&d),
            _ => false,
        }
    }

    /// What detaching the context of this position comes to.
    pub open spec fn detaches(&self, after: &Self) -> bool {
        match (*self, *after) {
            (Slot::Inbound(c), Slot::Inbound(d)) => c.detaches(&d),
            (Slot::Outbound(c), Slot::Outbound(d)) => c.detaches(&d),
            (Slot::Both(c), Slot::Both(d)) => c.detaches(&d),
            _ => false,
        }
    }

    /// The handler, handed `event`, has left the position as `after`: where
    /// the handler passes the event on as it is, the event waits in the
    /// context after all that waited before, and the handler answers to
    /// every attachment that it answered to.
    pub open spec fn relays(&self, event: Event<R, W>, after: &Self) -> bool {
        match (*self, *after) {
            (Slot::Inbound(c), Slot::Inbound(d)) => c.relays(event, &d),
            (Slot::Outbound(c), Slot::Outbound(d)) => c.relays(event, &d),
            (Slot::Both(c), Slot::Both(d)) => c.relays(event, &d),
            _ => !self.passes(event),
        }
    }

    /// What handing `event` to the handler of this position comes to: the
    /// position keeps its place; a position that does not take the event
    /// stays as it is; a handler that passes the event on leaves it waiting
    /// in the context; and for a message the handler allows what it leaves
    /// there.
    pub open spec fn accepts(&self, event: Event<R, W>, after: &Self) -> bool {
        &&& after.same_place(self)
        &&& !self.takes(event) ==> *after == *self
        &&& self.relays(event, after)
        &&& event matches Event::Inbound(InboundEvent::Read(msg)) ==> self.reads(msg, after)
        &&& event matches Event::Outbound(OutboundEvent::Write(msg)) ==> self.writes(msg, after)
    }

    /// What sending on and handing over all that waits comes to: the
    /// position holds the same handler in the same place, and nothing
    /// waits in it.
    pub open spec fn settles(&self, after: &Self) -> bool {
        &&& after.same_seat(self)
        &&& after.same_links(self)
        &&& after.same_handler(self)
        &&& after.idle()
    }

    /// Whether the handler of this position takes `event`.
    pub open spec fn takes(&self, event: Event<R, W>) -> bool {
        if event is Inbound {
            self.direction().inbound()
        } else {
            self.direction().outbound()
        }
    }

    pub fn as_inbound(&self) -> (context: Option<&InboundContextImpl<R, W, I>>)
        ensures
            match context {
                Some(c) => *self == Slot::<R, W, I, O, B>::Inbound(*c),
                None => !(self is Inbound),
            },
    {
        match self {
            Slot::Inbound(c) => Some(c),
            _ => None,
        }
    }

    pub fn as_outbound(&self) -> (context: Option<&OutboundContextImpl<R, W, O>>)
        ensures
            match context {
                Some(c) => *self == Slot::<R, W, I, O, B>::Outbound(*c),
                None => !(self is Outbound),
            },
    {
        match self {
            Slot::Outbound(c) => Some(c),
            _ => None,
        }
    }

    pub fn as_both(&self) -> (context: Option<&ContextImpl<R, W, B>>)
        ensures
            match context {
                Some(c) => *self == Slot::<R, W, I, O, B>::Both(*c),
                None => !(self is Both),
            },
    {
        match self {
            Slot::Both(c) => Some(c),
            _ => None,
        }
    }

    pub fn get_next_in(&self) -> (next: Option<usize>)
        ensures
            next == self.next_in(),
    {
        match self {
            Slot::Inbound(c) => c.get_next_in(),
            Slot::Outbound(_) => None,
            Slot::Both(c) => c.get_next_in(),
        }
    }

    pub fn get_next_out(&self) -> (next: Option<usize>)
        ensures
            next == self.next_out(),
    {
        match self {
            Slot::Inbound(_) => None,
            Slot::Outbound(c) => c.get_next_out(),
            Slot::Both(c) => c.get_next_out(),
        }
    }

    pub fn get_attached(&self) -> (attached: bool)
        ensures
            attached == self.is_attached(),
    {
        match self {
            Slot::Inbound(c) => c.get_attached(),
            Slot::Outbound(c) => c.get_attached(),
            Slot::Both(c) => c.get_attached(),
        }
    }

    /// Whether the context belongs to the pipeline that `handle` names.
    pub fn belongs_to(&self, handle: PipelineHandle) -> (belongs: bool)
        ensures
            belongs == (self.pipeline() == Some(handle)),
    {
        let pipeline = match self {
            Slot::Inbound(c) => c.get_owner(),
            Slot::Outbound(c) => c.get_owner(),
            Slot::Both(c) => c.get_owner(),
        };
        match pipeline {
            Some(own) => own.id == handle.id,
            None => false,
        }
    }

    /// Puts the context into the pipeline that `handle` names.
    pub fn set_pipeline(&mut self, handle: PipelineHandle)
        ensures
            final(self).pipeline() == Some(handle),
            final(self).direction() == old(self).direction(),
            final(self).is_attached() == old(self).is_attached(),
            final(self).same_handler(old(self)),
            final(self).same_links(old(self)),
            final(self).staged() == old(self).staged(),
            final(self).fired() == old(self).fired(),
    {
        match self {
            Slot::Inbound(c) => c.set_pipeline(handle),
            Slot::Outbound(c) => c.set_pipeline(handle),
            Slot::Both(c) => c.set_pipeline(handle),
        }
    }

    /// Discards what waits in the context to be sent or carried on.
    pub fn clear(&mut self)
        ensures
            final(self).idle(),
            final(self).same_seat(old(self)),
            final(self).same_handler(old(self)),
            final(self).same_links(old(self)),
    {
        match self {
            Slot::Inbound(c) => c.clear(),
            Slot::Outbound(c) => c.clear(),
            Slot::Both(c) => c.clear(),
        }
    }

    /// Hands `event` to the handler. An event of a direction that the
    /// handler does not take is dropped, and the position stays as it is.
    /// What the handler fires waits in the context: where the handler
    /// passes the event on as it is, that is the event itself, after all
    /// that waited before.
    pub fn accept(&mut self, event: Event<R, W>)
        ensures
            old(self).accepts(event, final(self)),
            final(self).same_place(old(self)),
            !old(self).takes(event) ==> *final(self) == *old(self),
            old(self).relays(event, final(self)),
            event matches Event::Inbound(InboundEvent::Read(msg)) ==> old(self).reads(
                msg,
                final(self),
            ),
            event matches Event::Outbound(OutboundEvent::Write(msg)) ==> old(self).writes(
                msg,
                final(self),
            ),
    {
        match event {
            Event::Inbound(InboundEvent::Read(msg)) => self.read(msg),
            Event::Inbound(InboundEvent::ReadEof) => self.read_eof(),
            Event::Inbound(InboundEvent::ReadError(err)) => self.read_error(err),
            Event::Inbound(InboundEvent::TransportActive) => self.transport_active(),
            Event::Inbound(InboundEvent::TransportInactive) => self.transport_inactive(),
            Event::Outbound(OutboundEvent::Write(msg)) => self.write(msg),
            Event::Outbound(OutboundEvent::WriteError(err)) => self.write_error(err),
            Event::Outbound(OutboundEvent::Close) => self.close(),
        }
    }

    /// Sends on all that the handler has fired, in the order fired.
    pub fn forward(&mut self)
        ensures
            final(self).staged() == old(self).staged() + routed_back(
                old(self).next_in(),
                old(self).next_out(),
                old(self).fired(),
            ),
            final(self).fired().len() == 0,
            final(self).same_seat(old(self)),
            final(self).same_handler(old(self)),
            final(self).same_links(old(self)),
    {
        match self {
            Slot::Inbound(c) => {
                proof {
                    c.lemma_fired_inbound();
                }
                c.forward();
                assert(routed_back(old(self).next_in(), None, old(self).fired()) =~= routed_back(
                    old(self).next_in(),
                    old(self).next_out(),
                    old(self).fired(),
                ));
            },
            Slot::Outbound(c) => {
                proof {
                    c.lemma_fired_outbound();
                }
                c.forward();
                assert(routed_back(None, old(self).next_out(), old(self).fired()) =~= routed_back(
                    old(self).next_in(),
                    old(self).next_out(),
                    old(self).fired(),
                ));
            },
            Slot::Both(c) => c.forward(),
        }
    }

    /// Moves what the context has staged onto `stack`, the next to go last.
    pub fn release(&mut self, stack: &mut Vec<Routed<Event<R, W>>>)
        ensures
            final(stack)@ == old(stack)@ + old(self).staged(),
            final(self).staged().len() == 0,
            final(self).fired() == old(self).fired(),
            final(self).same_seat(old(self)),
            final(self).same_handler(old(self)),
            final(self).same_links(old(self)),
    {
        match self {
            Slot::Inbound(c) => c.release(stack),
            Slot::Outbound(c) => c.release(stack),
            Slot::Both(c) => c.release(stack),
        }
    }
}

impl<R, W, I, O, B> PipelineContext for Slot<R, W, I, O, B> where
    I: InboundHandler<R, R, Emitter<InboundEvent<R>>>,
    O: OutboundHandler<W, W, Emitter<OutboundEvent<W>>>,
    B: Handler<R, R, W, W, Emitter<Event<R, W>>>,
 {
    fn get_direction(&self) -> (dir: HandlerDir)
        ensures
            dir == self.direction(),
    {
        match self {
            Slot::Inbound(c) => c.get_direction(),
            Slot::Outbound(c) => c.get_direction(),
            Slot::Both(c) => c.get_direction(),
        }
    }

    fn attach_pipeline(&mut self)
        ensures
            old(self).attaches(final(self)),
            old(self).is_attached() ==> *final(self) == *old(self),
            final(self).is_attached(),
            final(self).direction() == old(self).direction(),
            final(self).pipeline() == old(self).pipeline(),
            final(self).same_links(old(self)),
            final(self).staged() == old(self).staged(),
            final(self).fired() == old(self).fired(),
    {
        match self {
            Slot::Inbound(c) => c.attach_pipeline(),
            Slot::Outbound(c) => c.attach_pipeline(),
            Slot::Both(c) => c.attach_pipeline(),
        }
    }

    fn detach_pipeline(&mut self)
        ensures
            old(self).detaches(final(self)),
            !final(self).is_attached(),
            final(self).direction() == old(self).direction(),
            final(self).pipeline() == old(self).pipeline(),
            final(self).same_links(old(self)),
            final(self).staged() == old(self).staged(),
            final(self).fired() == old(self).fired(),
    {
        match self {
            Slot::Inbound(c) => c.detach_pipeline(),
            Slot::Outbound(c) => c.detach_pipeline(),
            Slot::Both(c) => c.detach_pipeline(),
        }
    }

    /// Sets the inbound link. A context that takes no inbound events has no
    /// such link and stays as it is.
    fn set_next_in(&mut self, ctx: Option<usize>)
        ensures
            final(self).next_in() == if old(self).direction().inbound() {
                ctx
            } else {
                None
            },
            final(self).next_out() == old(self).next_out(),
            final(self).same_handler(old(self)),
            final(self).same_seat(old(self)),
            final(self).staged() == old(self).staged(),
            final(self).fired() == old(self).fired(),
    {
        match self {
            Slot::Inbound(c) => c.set_next_in(ctx),
            Slot::Outbound(c) => c.set_next_in(ctx),
            Slot::Both(c) => c.set_next_in(ctx),
        }
    }

    /// Sets the outbound link. A context that takes no outbound events has
    /// no such link and stays as it is.
    fn set_next_out(&mut self, ctx: Option<usize>)
        ensures
            final(self).next_out() == if old(self).direction().outbound() {
                ctx
            } else {
                None
            },
            final(self).next_in() == old(self).next_in(),
            final(self).same_handler(old(self)),
            final(self).same_seat(old(self)),
            final(self).staged() == old(self).staged(),
            final(self).fired() == old(self).fired(),
    {
        match self {
            Slot::Inbound(c) => c.set_next_out(ctx),
            Slot::Outbound(c) => c.set_next_out(ctx),
            Slot::Both(c) => c.set_next_out(ctx),
        }
    }
}

/// A position takes inbound events whatever the type of its handler. A
/// position whose handler takes none drops them.
impl<R, W, I, O, B> InboundLink<R> for Slot<R, W, I, O, B> where
    I: InboundHandler<R, R, Emitter<InboundEvent<R>>>,
    O: OutboundHandler<W, W, Emitter<OutboundEvent<W>>>,
    B: Handler<R, R, W, W, Emitter<Event<R, W>>>,
 {
    fn read(&mut self, msg: R)
        ensures
            final(self).same_place(old(self)),
            old(self).reads(msg, final(self)),
    {
        match self {
            Slot::Inbound(c) => c.read(msg),
            Slot::Outbound(_) => {},
            Slot::Both(c) => c.read(msg),
        }
    }

    fn read_eof(&mut self)
        ensures
            final(self).same_place(old(self)),
            !old(self).takes(Event::Inbound(InboundEvent::ReadEof)) ==> *final(self) == *old(self),
            old(self).relays(Event::Inbound(InboundEvent::ReadEof), final(self)),
    {
        match self {
            Slot::Inbound(c) => c.read_eof(),
            Slot::Outbound(_) => {},
            Slot::Both(c) => c.read_eof(),
        }
    }

    fn read_error(&mut self, err: Cause)
        ensures
            final(self).same_place(old(self)),
            !old(self).takes(
                Event::Inbound(InboundEvent::ReadError(err)),
            ) ==> *final(self) == *old(self),
            old(self).relays(Event::Inbound(InboundEvent::ReadError(err)), final(self)),
    {
        match self {
            Slot::Inbound(c) => c.read_error(err),
            Slot::Outbound(_) => {},
            Slot::Both(c) => c.read_error(err),
        }
    }

    fn transport_active(&mut self)
        ensures
            final(self).same_place(old(self)),
            !old(self).takes(
                Event::Inbound(InboundEvent::TransportActive),
            ) ==> *final(self) == *old(self),
            old(self).relays(Event::Inbound(InboundEvent::TransportActive), final(self)),
    {
        match self {
            Slot::Inbound(c) => c.transport_active(),
            Slot::Outbound(_) => {},
            Slot::Both(c) => c.transport_active(),
        }
    }

    fn transport_inactive(&mut self)
        ensures
            final(self).same_place(old(self)),
            !old(self).takes(
                Event::Inbound(InboundEvent::TransportInactive),
            ) ==> *final(self) == *old(self),
            old(self).relays(Event::Inbound(InboundEvent::TransportInactive), final(self)),
    {
        match self {
            Slot::Inbound(c) => c.transport_inactive(),
            Slot::Outbound(_) => {},
            Slot::Both(c) => c.transport_inactive(),
        }
    }
}

/// A position takes outbound events whatever the type of its handler. A
/// position whose handler takes none drops them.
impl<R, W, I, O, B> OutboundLink<W> for Slot<R, W, I, O, B> where
    I: InboundHandler<R, R, Emitter<InboundEvent<R>>>,
    O: OutboundHandler<W, W, Emitter<OutboundEvent<W>>>,
    B: Handler<R, R, W, W, Emitter<Event<R, W>>>,
 {
    fn write(&mut self, msg: W)
        ensures
            final(self).same_place(old(self)),
            old(self).writes(msg, final(self)),
    {
        match self {
            Slot::Inbound(_) => {},
            Slot::Outbound(c) => c.write(msg),
            Slot::Both(c) => c.write(msg),
        }
    }

    fn write_error(&mut self, err: Cause)
        ensures
            final(self).same_place(old(self)),
            !old(self).takes(
                Event::Outbound(OutboundEvent::WriteError(err)),
            ) ==> *final(self) == *old(self),
            old(self).relays(Event::Outbound(OutboundEvent::WriteError(err)), final(self)),
    {
        match self {
            Slot::Inbound(_) => {},
            Slot::Outbound(c) => c.write_error(err),
            Slot::Both(c) => c.write_error(err),
        }
    }

    fn close(&mut self)
        ensures
            final(self).same_place(old(self)),
            !old(self).takes(Event::Outbound(OutboundEvent::Close)) ==> *final(self) == *old(self),
            old(self).relays(Event::Outbound(OutboundEvent::Close), final(self)),
    {
        match self {
            Slot::Inbound(_) => {},
            Slot::Outbound(c) => c.close(),
            Slot::Both(c) => c.close(),
        }
    }
}

} // verus!
