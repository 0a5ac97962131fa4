//! The events that travel through a pipeline and the records kept of them.

use vstd::prelude::*;

verus! {

/// The kind of an event, without its payload.
#[derive(Clone, Copy, PartialEq, Eq, Debug, Structural)]
pub enum EventKind {
    Read,
    ReadEof,
    ReadError,
    TransportActive,
    TransportInactive,
    Write,
    WriteError,
    Close,
}

impl EventKind {
    /// Inbound kinds travel from the head of a pipeline towards its tail.
    pub open spec fn inbound(self) -> bool {
        self is Read || self is ReadEof || self is ReadError || self is TransportActive
            || self is TransportInactive
    }

    /// Outbound kinds travel from the tail of a pipeline towards its head.
    pub open spec fn outbound(self) -> bool {
        !self.inbound()
    }

    pub fn is_inbound(self) -> (b: bool)
        ensures
            b == self.inbound(),
    {
        match self {
            EventKind::Read => true,
            EventKind::ReadEof => true,
            EventKind::ReadError => true,
            EventKind::TransportActive => true,
            EventKind::TransportInactive => true,
            EventKind::Write => false,
            EventKind::WriteError => false,
            EventKind::Close => false,
        }
    }

    pub fn is_outbound(self) -> (b: bool)
        ensures
            b == self.outbound(),
    {
        !self.is_inbound()
    }
}

/// The text of the notice given when an event of `kind` finds no further
/// context to visit.
pub open spec fn notice_text(kind: EventKind) -> Seq<char> {
    match kind {
        EventKind::Read => "read reached end of pipeline"@,
        EventKind::ReadEof => "read_eof reached end of pipeline"@,
        EventKind::ReadError => "read_error reached end of pipeline"@,
        EventKind::TransportActive => "transport_active reached end of pipeline"@,
        EventKind::TransportInactive => "transport_inactive reached end of pipeline"@,
        EventKind::Write => "write reached end of pipeline"@,
        EventKind::WriteError => "write_error reached end of pipeline"@,
        EventKind::Close => "close reached end of pipeline"@,
    }
}

/// The diagnostic for an event that fell off the end of the chain.
pub fn notice(kind: EventKind) -> (text: &'static str)
    ensures
        text@ == notice_text(kind),
{
    match kind {
        EventKind::Read => "read reached end of pipeline",
        EventKind::ReadEof => "read_eof reached end of pipeline",
        EventKind::ReadError => "read_error reached end of pipeline",
        EventKind::TransportActive => "transport_active reached end of pipeline",
        EventKind::TransportInactive => "transport_inactive reached end of pipeline",
        EventKind::Write => "write reached end of pipeline",
        EventKind::WriteError => "write_error reached end of pipeline",
        EventKind::Close => "close reached end of pipeline",
    }
}

/// What an error event carries: the description of the failure that a
/// handler caught.
#[derive(Clone, PartialEq, Eq, Debug)]
pub struct Cause {
    message: String,
}

impl View for Cause {
    type V = Seq<char>;

    closed spec fn view(&self) -> Seq<char> {
        self.message@
    }
}

impl Cause {
    pub fn new(message: String) -> (cause: Cause)
        ensures
            cause@ == message@,
    {
        Cause { message }
    }

    pub fn message(&self) -> (text: &str)
        ensures
            text@ == self@,
    {
        self.message.as_str()
    }
}

/// An event that travels from the head towards the tail.
#[derive(Debug)]
pub enum InboundEvent<R> {
    Read(R),
    ReadEof,
    ReadError(Cause),
    TransportActive,
    TransportInactive,
}

impl<R> InboundEvent<R> {
    pub open spec fn kind_of(self) -> EventKind {
        match self {
            InboundEvent::Read(_) => EventKind::Read,
            InboundEvent::ReadEof => EventKind::ReadEof,
            InboundEvent::ReadError(_) => EventKind::ReadError,
            InboundEvent::TransportActive => EventKind::TransportActive,
            InboundEvent::TransportInactive => EventKind::TransportInactive,
        }
    }

    pub fn kind(&self) -> (kind: EventKind)
        ensures
            kind == self.kind_of(),
            kind.inbound(),
    {
        match self {
            InboundEvent::Read(_) => EventKind::Read,
            InboundEvent::ReadEof => EventKind::ReadEof,
            InboundEvent::ReadError(_) => EventKind::ReadError,
            InboundEvent::TransportActive => EventKind::TransportActive,
            InboundEvent::TransportInactive => EventKind::TransportInactive,
        }
    }
}

/// An event that travels from the tail towards the head.
#[derive(Debug)]
pub enum OutboundEvent<W> {
    Write(W),
    WriteError(Cause),
    Close,
}

impl<W> OutboundEvent<W> {
    pub open spec fn kind_of(self) -> EventKind {
        match self {
            OutboundEvent::Write(_) => EventKind::Write,
            OutboundEvent::WriteError(_) => EventKind::WriteError,
            OutboundEvent::Close => EventKind::Close,
        }
    }

    pub fn kind(&self) -> (kind: EventKind)
        ensures
            kind == self.kind_of(),
            kind.outbound(),
    {
        match self {
            OutboundEvent::Write(_) => EventKind::Write,
            OutboundEvent::WriteError(_) => EventKind::WriteError,
            OutboundEvent::Close => EventKind::Close,
        }
    }
}

/// An event of either direction.
#[derive(Debug)]
pub enum Event<R, W> {
    Inbound(InboundEvent<R>),
    Outbound(OutboundEvent<W>),
}

impl<R, W> Event<R, W> {
    pub open spec fn kind_of(self) -> EventKind {
        match self {
            Event::Inbound(e) => e.kind_of(),
            Event::Outbound(e) => e.kind_of(),
        }
    }

    pub fn kind(&self) -> (kind: EventKind)
        ensures
            kind == self.kind_of(),
            kind.inbound() == (self is Inbound),
    {
        match self {
            Event::Inbound(e) => e.kind(),
            Event::Outbound(e) => e.kind(),
        }
    }
}

/// Where a fired event goes: to the context at `target`, or nowhere, because
/// no further context takes events of its direction.
#[derive(Debug)]
pub enum Routed<E> {
    Deliver { target: usize, event: E },
    EndOfPipeline { kind: EventKind },
}

/// Where an event fired at a position goes, given the position's links: an
/// inbound event to the inbound link, an outbound event to the outbound
/// link, and to the end of the pipeline where the link is absent.
pub open spec fn route<R, W>(
    next_in: Option<usize>,
    next_out: Option<usize>,
    event: Event<R, W>,
) -> Routed<Event<R, W>> {
    let next = if event is Inbound {
        next_in
    } else {
        next_out
    };
    match next {
        Some(target) => Routed::Deliver { target, event },
        None => Routed::EndOfPipeline { kind: event.kind_of() },
    }
}

/// One line of the account that a pipeline gives of a walk: a context was
/// visited, or an event reached the end of the chain and was dropped.
#[derive(Clone, Copy, PartialEq, Eq, Debug)]
pub enum Record {
    Visited { position: usize, kind: EventKind },
    EndOfPipeline { kind: EventKind },
}

} // verus!
