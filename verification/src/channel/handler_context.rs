//! What a handler sees of the chain: the operations that fire an event
//! onwards.

use vstd::prelude::*;
use super::event::{Cause, Event, InboundEvent, OutboundEvent};

verus! {

/// A non-owning reference from a context back to the pipeline that owns it.
#[derive(Clone, Copy, PartialEq, Eq, Debug, Structural)]
pub struct PipelineHandle {
    pub id: u64,
}

/// What a handler of inbound events may do with the chain: fire an inbound
/// event on, towards the tail.
pub trait InboundHandlerContext<In> {
    /// The context, having fired `event`, is `after`.
    spec fn fires(&self, event: InboundEvent<In>, after: &Self) -> bool;

    fn fire_read(&mut self, msg: In)
        ensures
            old(self).fires(InboundEvent::Read(msg), final(self)),
    ;

    fn fire_read_eof(&mut self)
        ensures
            old(self).fires(InboundEvent::ReadEof, final(self)),
    ;

    fn fire_read_error(&mut self, err: Cause)
        ensures
            old(self).fires(InboundEvent::ReadError(err), final(self)),
    ;

    fn fire_transport_active(&mut self)
        ensures
            old(self).fires(InboundEvent::TransportActive, final(self)),
    ;

    fn fire_transport_inactive(&mut self)
        ensures
            old(self).fires(InboundEvent::TransportInactive, final(self)),
    ;

    fn get_pipeline(&self) -> Option<PipelineHandle>;
}

/// What a handler of outbound events may do with the chain: fire an
/// outbound event on, towards the head.
pub trait OutboundHandlerContext<Out> {
    /// The context, having fired `event`, is `after`.
    spec fn fires(&self, event: OutboundEvent<Out>, after: &Self) -> bool;

    fn fire_write(&mut self, msg: Out)
        ensures
            old(self).fires(OutboundEvent::Write(msg), final(self)),
    ;

    fn fire_write_error(&mut self, err: Cause)
        ensures
            old(self).fires(OutboundEvent::WriteError(err), final(self)),
    ;

    fn fire_close(&mut self)
        ensures
            old(self).fires(OutboundEvent::Close, final(self)),
    ;

    fn get_pipeline(&self) -> Option<PipelineHandle>;
}

/// What a handler of both directions may do with the chain: fire an event
/// on in either direction.
pub trait HandlerContext<In, Out> {
    /// The context, having fired `event`, is `after`.
    spec fn fires(&self, event: Event<In, Out>, after: &Self) -> bool;

    fn fire_read(&mut self, msg: In)
        ensures
            old(self).fires(Event::Inbound(InboundEvent::Read(msg)), final(self)),
    ;

    fn fire_read_eof(&mut self)
        ensures
            old(self).fires(Event::Inbound(InboundEvent::ReadEof), final(self)),
    ;

    fn fire_read_error(&mut self, err: Cause)
        ensures
            old(self).fires(Event::Inbound(InboundEvent::ReadError(err)), final(self)),
    ;

    fn fire_transport_active(&mut self)
        ensures
            old(self).fires(Event::Inbound(InboundEvent::TransportActive), final(self)),
    ;

    fn fire_transport_inactive(&mut self)
        ensures
            old(self).fires(Event::Inbound(InboundEvent::TransportInactive), final(self)),
    ;

    fn fire_write(&mut self, msg: Out)
        ensures
            old(self).fires(Event::Outbound(OutboundEvent::Write(msg)), final(self)),
    ;

    fn fire_write_error(&mut self, err: Cause)
        ensures
            old(self).fires(Event::Outbound(OutboundEvent::WriteError(err)), final(self)),
    ;

    fn fire_close(&mut self)
        ensures
            old(self).fires(Event::Outbound(OutboundEvent::Close), final(self)),
    ;

    fn get_pipeline(&self) -> Option<PipelineHandle>;
}

/// The context that a handler is handed while it handles an event: it keeps
/// what the handler fires, in the order fired, for the owning context to
/// send on once the handler has returned.
pub struct Emitter<E> {
    pipeline: Option<PipelineHandle>,
    events: Vec<E>,
}

impl<E> Emitter<E> {
    /// The pipeline that the owning context belongs to, if it has one.
    pub closed spec fn pipeline(&self) -> Option<PipelineHandle> {
        self.pipeline
    }

    /// The events fired and not yet taken, oldest first.
    pub closed spec fn fired(&self) -> Seq<E> {
        self.events@
    }

    pub fn new(pipeline: Option<PipelineHandle>) -> (emitter: Self)
        ensures
            emitter.pipeline() == pipeline,
            emitter.fired() == Seq::<E>::empty(),
    {
        Emitter { pipeline, events: Vec::new() }
    }

    /// This emitter with `pipeline` for the pipeline that it names.
    pub closed spec fn naming(self, pipeline: Option<PipelineHandle>) -> Self {
        Emitter { pipeline, events: self.events }
    }

    /// An emitter that is given a pipeline to name holds the events that it
    /// held.
    pub proof fn lemma_naming(self, pipeline: Option<PipelineHandle>)
        ensures
            self.naming(pipeline).pipeline() == pipeline,
            self.naming(pipeline).fired() == self.fired(),
    {
    }

    pub fn set_pipeline(&mut self, pipeline: Option<PipelineHandle>)
        ensures
            *final(self) == old(self).naming(pipeline),
            final(self).pipeline() == pipeline,
            final(self).fired() == old(self).fired(),
    {
        self.pipeline = pipeline;
    }

    pub fn pending(&self) -> (n: usize)
        ensures
            n == self.fired().len(),
    {
        self.events.len()
    }

    /// Discards the events fired and not yet taken.
    pub fn clear(&mut self)
        ensures
            final(self).pipeline() == old(self).pipeline(),
            final(self).fired().len() == 0,
    {
        self.events.clear();
    }

    /// Takes the event fired last.
    pub fn take_last(&mut self) -> (event: Option<E>)
        ensures
            final(self).pipeline() == old(self).pipeline(),
            old(self).fired().len() == 0 ==> event.is_none() && final(self).fired() == old(
                self,
            ).fired(),
            old(self).fired().len() > 0 ==> event == Some(old(self).fired().last())
                && final(self).fired() == old(self).fired().drop_last(),
    {
        self.events.pop()
    }

    fn emit(&mut self, event: E)
        ensures
            final(self).pipeline() == old(self).pipeline(),
            final(self).fired() == old(self).fired().push(event),
    {
        self.events.push(event);
    }
}

impl<R> InboundHandlerContext<R> for Emitter<InboundEvent<R>> {
    open spec fn fires(&self, event: InboundEvent<R>, after: &Self) -> bool {
        after.pipeline() == self.pipeline() && after.fired() == self.fired().push(event)
    }

    fn fire_read(&mut self, msg: R)
        ensures
            final(self).pipeline() == old(self).pipeline(),
            final(self).fired() == old(self).fired().push(InboundEvent::Read(msg)),
    {
        self.emit(InboundEvent::Read(msg));
    }

    fn fire_read_eof(&mut self)
        ensures
            final(self).pipeline() == old(self).pipeline(),
            final(self).fired() == old(self).fired().push(InboundEvent::ReadEof),
    {
        self.emit(InboundEvent::ReadEof);
    }

    fn fire_read_error(&mut self, err: Cause)
        ensures
            final(self).pipeline() == old(self).pipeline(),
            final(self).fired() == old(self).fired().push(InboundEvent::ReadError(err)),
    {
        self.emit(InboundEvent::ReadError(err));
    }

    fn fire_transport_active(&mut self)
        ensures
            final(self).pipeline() == old(self).pipeline(),
            final(self).fired() == old(self).fired().push(InboundEvent::TransportActive),
    {
        self.emit(InboundEvent::TransportActive);
    }

    fn fire_transport_inactive(&mut self)
        ensures
            final(self).pipeline() == old(self).pipeline(),
            final(self).fired() == old(self).fired().push(InboundEvent::TransportInactive),
    {
        self.emit(InboundEvent::TransportInactive);
    }

    fn get_pipeline(&self) -> (pipeline: Option<PipelineHandle>)
        ensures
            pipeline == self.pipeline(),
    {
        self.pipeline
    }
}

impl<W> OutboundHandlerContext<W> for Emitter<OutboundEvent<W>> {
    open spec fn fires(&self, event: OutboundEvent<W>, after: &Self) -> bool {
        after.pipeline() == self.pipeline() && after.fired() == self.fired().push(event)
    }

    fn fire_write(&mut self, msg: W)
        ensures
            final(self).pipeline() == old(self).pipeline(),
            final(self).fired() == old(self).fired().push(OutboundEvent::Write(msg)),
    {
        self.emit(OutboundEvent::Write(msg));
    }

    fn fire_write_error(&mut self, err: Cause)
        ensures
            final(self).pipeline() == old(self).pipeline(),
            final(self).fired() == old(self).fired().push(OutboundEvent::WriteError(err)),
    {
        self.emit(OutboundEvent::WriteError(err));
    }

    fn fire_close(&mut self)
        ensures
            final(self).pipeline() == old(self).pipeline(),
            final(self).fired() == old(self).fired().push(OutboundEvent::Close),
    {
        self.emit(OutboundEvent::Close);
    }

    fn get_pipeline(&self) -> (pipeline: Option<PipelineHandle>)
        ensures
            pipeline == self.pipeline(),
    {
        self.pipeline
    }
}

impl<R, W> HandlerContext<R, W> for Emitter<Event<R, W>> {
    open spec fn fires(&self, event: Event<R, W>, after: &Self) -> bool {
        after.pipeline() == self.pipeline() && after.fired() == self.fired().push(event)
    }

    fn fire_read(&mut self, msg: R)
        ensures
            final(self).pipeline() == old(self).pipeline(),
            final(self).fired() == old(self).fired().push(
                Event::Inbound(InboundEvent::Read(msg)),
            ),
    {
        self.emit(Event::Inbound(InboundEvent::Read(msg)));
    }

    fn fire_read_eof(&mut self)
        ensures
            final(self).pipeline() == old(self).pipeline(),
            final(self).fired() == old(self).fired().push(Event::Inbound(InboundEvent::ReadEof)),
    {
        self.emit(Event::Inbound(InboundEvent::ReadEof));
    }

    fn fire_read_error(&mut self, err: Cause)
        ensures
            final(self).pipeline() == old(self).pipeline(),
            final(self).fired() == old(self).fired().push(
                Event::Inbound(InboundEvent::ReadError(err)),
            ),
    {
        self.emit(Event::Inbound(InboundEvent::ReadError(err)));
    }

    fn fire_transport_active(&mut self)
        ensures
            final(self).pipeline() == old(self).pipeline(),
            final(self).fired() == old(self).fired().push(
                Event::Inbound(InboundEvent::TransportActive),
            ),
    {
        self.emit(Event::Inbound(InboundEvent::TransportActive));
    }

    fn fire_transport_inactive(&mut self)
        ensures
            final(self).pipeline() == old(self).pipeline(),
            final(self).fired() == old(self).fired().push(
                Event::Inbound(InboundEvent::TransportInactive),
            ),
    {
        self.emit(Event::Inbound(InboundEvent::TransportInactive));
    }

    fn fire_write(&mut self, msg: W)
        ensures
            final(self).pipeline() == old(self).pipeline(),
            final(self).fired() == old(self).fired().push(
                Event::Outbound(OutboundEvent::Write(msg)),
            ),
    {
        self.emit(Event::Outbound(OutboundEvent::Write(msg)));
    }

    fn fire_write_error(&mut self, err: Cause)
        ensures
            final(self).pipeline() == old(self).pipeline(),
            final(self).fired() == old(self).fired().push(
                Event::Outbound(OutboundEvent::WriteError(err)),
            ),
    {
        self.emit(Event::Outbound(OutboundEvent::WriteError(err)));
    }

    fn fire_close(&mut self)
        ensures
            final(self).pipeline() == old(self).pipeline(),
            final(self).fired() == old(self).fired().push(Event::Outbound(OutboundEvent::Close)),
    {
        self.emit(Event::Outbound(OutboundEvent::Close));
    }

    fn get_pipeline(&self) -> (pipeline: Option<PipelineHandle>)
        ensures
            pipeline == self.pipeline(),
    {
        self.pipeline
    }
}

} // verus!
