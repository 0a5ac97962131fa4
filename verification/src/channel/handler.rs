//! Handlers: the units of behaviour that a pipeline chains together, and the
//! bookkeeping that tells a handler how many chain positions hold it.
//!
//! What a handler does with an event is the handler's own to decide, so the
//! traits state it over what the handler says of itself: `counts` and
//! `keeps` for its attachment, `passes_on` for the events that the traits
//! pass on, `reads` and `writes` for messages. A handler that says nothing
//! promises nothing.

use vstd::prelude::*;
use super::event::{Cause, Event, EventKind, InboundEvent, OutboundEvent};
use super::handler_context::{HandlerContext, InboundHandlerContext, OutboundHandlerContext};

verus! {

/// The directions in which a handler takes events.
#[derive(Clone, Copy, PartialEq, Eq, Debug, Structural)]
pub enum HandlerDir {
    IN,
    OUT,
    BOTH,
}

impl HandlerDir {
    /// Whether a handler of this direction takes inbound events.
    pub open spec fn inbound(self) -> bool {
        self is IN || self is BOTH
    }

    /// Whether a handler of this direction takes outbound events.
    pub open spec fn outbound(self) -> bool {
        self is OUT || self is BOTH
    }

    pub fn is_inbound(self) -> (b: bool)
        ensures
            b == self.inbound(),
    {
        match self {
            HandlerDir::IN => true,
            HandlerDir::OUT => false,
            HandlerDir::BOTH => true,
        }
    }

    pub fn is_outbound(self) -> (b: bool)
        ensures
            b == self.outbound(),
    {
        match self {
            HandlerDir::IN => false,
            HandlerDir::OUT => true,
            HandlerDir::BOTH => true,
        }
    }
}

/// The attach count after one more attachment. The count is a machine
/// number: at its upper limit it stays.
pub open spec fn count_after_attach(count: usize) -> usize {
    if count < usize::MAX {
        (count + 1) as usize
    } else {
        count
    }
}

/// The live context after an attachment that offered `ctx` to a handler
/// that was held in `count` places: the offered context if this is the only
/// attachment, none if the handler is now held in more than one place.
pub open spec fn context_after_attach<Context>(count: usize, ctx: Option<Context>) -> Option<
    Context,
> {
    if count_after_attach(count) == 1 {
        ctx
    } else {
        None
    }
}

/// The attach count after a detachment: one less, and never below zero.
pub open spec fn count_after_detach(count: usize) -> usize {
    if count >= 1 {
        (count - 1) as usize
    } else {
        0
    }
}

/// What a handler that is held in `count` places and is offered `ctx` keeps
/// after the attachment: its new count and its new live context.
pub fn on_attach<Context>(count: usize, ctx: Option<Context>) -> (kept: (usize, Option<Context>))
    ensures
        kept.0 == count_after_attach(count),
        kept.1 == context_after_attach(count, ctx),
{
    if count < usize::MAX {
        let count: usize = count + 1;
        if count == 1 {
            (count, ctx)
        } else {
            (count, None)
        }
    } else {
        (count, None)
    }
}

/// The count that a handler held in `count` places keeps after a
/// detachment.
pub fn on_detach(count: usize) -> (kept: usize)
    ensures
        kept == count_after_detach(count),
{
    if count >= 1 {
        count - 1
    } else {
        count
    }
}

/// A handler that is attached to two contexts in a row counts two
/// attachments more and keeps no live context; detached once after that,
/// it counts one less and still keeps none. For a handler that was held
/// nowhere before, the counts are two and one.
pub proof fn lemma_shared_handler_keeps_no_context<Context>(
    count: usize,
    first: Option<Context>,
    second: Option<Context>,
)
    requires
        count + 2 <= usize::MAX,
    ensures
        count_after_attach(count_after_attach(count)) == count + 2,
        context_after_attach(count_after_attach(count), second) is None,
        count_after_detach(count_after_attach(count_after_attach(count))) == count + 1,
        count == 0 ==> context_after_attach(count, first) == first,
{
}

/// Only the first of several attachments leaves a live context: whatever a
/// handler is offered while it is held somewhere already, it keeps none.
pub proof fn lemma_live_context_needs_single_attachment<Context>(
    count: usize,
    ctx: Option<Context>,
)
    ensures
        context_after_attach(count, ctx) is Some ==> count == 0 && count_after_attach(count) == 1,
        count >= 1 ==> context_after_attach(count, ctx) is None,
{
}

/// The handler `after` answers to every attachment that the handler
/// `before` answered to: every count that held holds, and every live
/// context that was kept is kept.
pub open spec fn keeps_attachment<Context, H: HandlerBase<Context> + ?Sized>(
    before: &H,
    after: &H,
) -> bool {
    &&& forall|count: usize| before.counts(count) ==> after.counts(count)
    &&& forall|live: Option<Context>| before.keeps(live) ==> after.keeps(live)
}

/// What every handler keeps of its own attachment: how many chain positions
/// hold it, and the context of its position while there is exactly one.
/// The four accessors are the handler's; the two operations on them are
/// given.
pub trait HandlerBase<Context> {
    /// Whether `count` is the number of chain positions that hold the
    /// handler: what `get_attach_count` answers and `set_attach_count`
    /// sets. A handler that does not say which number it is allows every
    /// number, and so promises nothing of its accessors.
    open spec fn counts(&self, count: usize) -> bool {
        true
    }

    /// Whether `ctx` is the live context of the handler: what
    /// `get_context` answers and `set_context` sets. A handler that does
    /// not say allows every context.
    open spec fn keeps(&self, ctx: Option<Context>) -> bool {
        true
    }

    fn get_context(&self) -> (ctx: Option<&Context>)
        ensures
            self.keeps(
                match ctx {
                    Some(c) => Some(*c),
                    None => None,
                },
            ),
    ;

    fn set_context(&mut self, ctx: Option<Context>)
        ensures
            final(self).keeps(ctx),
            forall|count: usize| old(self).counts(count) ==> final(self).counts(count),
    ;

    fn get_attach_count(&self) -> (count: usize)
        ensures
            self.counts(count),
    ;

    fn set_attach_count(&mut self, count: usize)
        ensures
            final(self).counts(count),
            forall|ctx: Option<Context>| old(self).keeps(ctx) ==> final(self).keeps(ctx),
    ;

    /// Counts one more attachment. The handler keeps `ctx` only if this is
    /// its one attachment; a handler held in several places keeps none.
    fn attach_context(&mut self, ctx: Option<Context>)
        ensures
            exists|count: usize|
                {
                    &&& #[trigger] old(self).counts(count)
                    &&& final(self).counts(count_after_attach(count))
                    &&& final(self).keeps(context_after_attach(count, ctx))
                },
    {
        let (count, live) = on_attach(self.get_attach_count(), ctx);
        self.set_attach_count(count);
        self.set_context(live);
    }

    /// Counts one attachment less, never below zero, and forgets the live
    /// context whatever the count.
    fn detach_context(&mut self)
        ensures
            exists|count: usize|
                {
                    &&& #[trigger] old(self).counts(count)
                    &&& final(self).counts(count_after_detach(count))
                },
            final(self).keeps(None),
    {
        let count: usize = on_detach(self.get_attach_count());
        self.set_attach_count(count);
        self.set_context(None);
    }
}

/// A handler of inbound events. All but `read` pass the event on unless the
/// handler has a way of its own. What a handler does is its own to say:
/// `passes_on` for the events that the trait passes on, `reads` for
/// messages.
pub trait InboundHandler<Rin, Rout, Context: InboundHandlerContext<Rout>>: HandlerBase<Context> {
    /// Whether the handler says of itself that it passes events of `kind`
    /// on as they are, which is what this trait gives for every event but
    /// a message. A handler that does not say promises nothing; one that
    /// keeps what the trait gives for an event may answer `true` for its
    /// kind.
    open spec fn passes_on(&self, kind: EventKind) -> bool {
        false
    }

    /// What may come of handing the handler a message: the handler, handed
    /// `msg` and the context `ctx`, may leave the context as `ctx_after`. A
    /// handler that does not say allows everything.
    open spec fn reads(&self, msg: Rin, ctx: &Context, ctx_after: &Context) -> bool {
        true
    }

    fn get_direction(&self) -> (dir: HandlerDir)
        ensures
            dir == HandlerDir::IN,
    {
        HandlerDir::IN
    }

    fn read(&mut self, ctx: &mut Context, msg: Rin)
        ensures
            old(self).reads(msg, old(ctx), final(ctx)),
    ;

    fn read_eof(&mut self, ctx: &mut Context)
        ensures
            old(self).passes_on(EventKind::ReadEof) ==> old(ctx).fires(
                InboundEvent::ReadEof,
                final(ctx),
            ),
            old(self).passes_on(EventKind::ReadEof) ==> keeps_attachment(old(self), final(self)),
    {
        ctx.fire_read_eof();
    }

    fn read_error(&mut self, ctx: &mut Context, err: Cause)
        ensures
            old(self).passes_on(EventKind::ReadError) ==> old(ctx).fires(
                InboundEvent::ReadError(err),
                final(ctx),
            ),
            old(self).passes_on(EventKind::ReadError) ==> keeps_attachment(old(self), final(self)),
    {
        ctx.fire_read_error(err);
    }

    fn transport_active(&mut self, ctx: &mut Context)
        ensures
            old(self).passes_on(EventKind::TransportActive) ==> old(ctx).fires(
                InboundEvent::TransportActive,
                final(ctx),
            ),
            old(self).passes_on(EventKind::TransportActive) ==> keeps_attachment(
                old(self),
                final(self),
            ),
    {
        ctx.fire_transport_active();
    }

    fn transport_inactive(&mut self, ctx: &mut Context)
        ensures
            old(self).passes_on(EventKind::TransportInactive) ==> old(ctx).fires(
                InboundEvent::TransportInactive,
                final(ctx),
            ),
            old(self).passes_on(EventKind::TransportInactive) ==> keeps_attachment(
                old(self),
                final(self),
            ),
    {
        ctx.fire_transport_inactive();
    }
}

/// A handler of outbound events. All but `write` pass the event on unless
/// the handler has a way of its own. What a handler does is its own to
/// say: `passes_on` for the events that the trait passes on, `writes` for
/// messages.
pub trait OutboundHandler<Win, Wout, Context: OutboundHandlerContext<Wout>>: HandlerBase<
    Context,
> {
    /// Whether the handler says of itself that it passes events of `kind`
    /// on as they are, which is what this trait gives for every event but
    /// a message. A handler that does not say promises nothing; one that
    /// keeps what the trait gives for an event may answer `true` for its
    /// kind.
    open spec fn passes_on(&self, kind: EventKind) -> bool {
        false
    }

    /// What may come of handing the handler a message to write: the
    /// handler, handed `msg` and the context `ctx`, may leave the context
    /// as `ctx_after`. A handler that does not say allows everything.
    open spec fn writes(&self, msg: Win, ctx: &Context, ctx_after: &Context) -> bool {
        true
    }

    fn get_direction(&self) -> (dir: HandlerDir)
        ensures
            dir == HandlerDir::OUT,
    {
        HandlerDir::OUT
    }

    fn write(&mut self, ctx: &mut Context, msg: Win)
        ensures
            old(self).writes(msg, old(ctx), final(ctx)),
    ;

    fn write_error(&mut self, ctx: &mut Context, err: Cause)
        ensures
            old(self).passes_on(EventKind::WriteError) ==> old(ctx).fires(
                OutboundEvent::WriteError(err),
                final(ctx),
            ),
            old(self).passes_on(EventKind::WriteError) ==> keeps_attachment(old(self), final(self)),
    {
        ctx.fire_write_error(err);
    }

    fn close(&mut self, ctx: &mut Context)
        ensures
            old(self).passes_on(EventKind::Close) ==> old(ctx).fires(
                OutboundEvent::Close,
                final(ctx),
            ),
            old(self).passes_on(EventKind::Close) ==> keeps_attachment(old(self), final(self)),
    {
        ctx.fire_close();
    }
}

/// A handler of events of both directions. All but `read` and `write` pass
/// the event on unless the handler has a way of its own.
pub trait Handler<Rin, Rout, Win, Wout, Context: HandlerContext<Rout, Wout>>: HandlerBase<
    Context,
> {
    /// Whether the handler says of itself that it passes events of `kind`
    /// on as they are, which is what this trait gives for every event but
    /// a message, and what `HandlerAdapter` gives for messages too. A
    /// handler that does not say promises nothing; one that keeps what the
    /// traits give for an event may answer `true` for its kind.
    open spec fn passes_on(&self, kind: EventKind) -> bool {
        false
    }

    /// What may come of handing the handler a message: the handler, handed
    /// `msg` and the context `ctx`, may leave the context as `ctx_after`. A
    /// handler that does not say allows everything.
    open spec fn reads(&self, msg: Rin, ctx: &Context, ctx_after: &Context) -> bool {
        true
    }

    /// What may come of handing the handler a message to write: the
    /// handler, handed `msg` and the context `ctx`, may leave the context
    /// as `ctx_after`. A handler that does not say allows everything.
    open spec fn writes(&self, msg: Win, ctx: &Context, ctx_after: &Context) -> bool {
        true
    }

    fn get_direction(&self) -> (dir: HandlerDir)
        ensures
            dir == HandlerDir::BOTH,
    {
        HandlerDir::BOTH
    }

    fn read(&mut self, ctx: &mut Context, msg: Rin)
        ensures
            old(self).reads(msg, old(ctx), final(ctx)),
    ;

    fn read_eof(&mut self, ctx: &mut Context)
        ensures
            old(self).passes_on(EventKind::ReadEof) ==> old(ctx).fires(
                Event::Inbound(InboundEvent::ReadEof),
                final(ctx),
            ),
            old(self).passes_on(EventKind::ReadEof) ==> keeps_attachment(old(self), final(self)),
    {
        ctx.fire_read_eof();
    }

    fn read_error(&mut self, ctx: &mut Context, err: Cause)
        ensures
            old(self).passes_on(EventKind::ReadError) ==> old(ctx).fires(
                Event::Inbound(InboundEvent::ReadError(err)),
                final(ctx),
            ),
            old(self).passes_on(EventKind::ReadError) ==> keeps_attachment(old(self), final(self)),
    {
        ctx.fire_read_error(err);
    }

    fn transport_active(&mut self, ctx: &mut Context)
        ensures
            old(self).passes_on(EventKind::TransportActive) ==> old(ctx).fires(
                Event::Inbound(InboundEvent::TransportActive),
                final(ctx),
            ),
            old(self).passes_on(EventKind::TransportActive) ==> keeps_attachment(
                old(self),
                final(self),
            ),
    {
        ctx.fire_transport_active();
    }

    fn transport_inactive(&mut self, ctx: &mut Context)
        ensures
            old(self).passes_on(EventKind::TransportInactive) ==> old(ctx).fires(
                Event::Inbound(InboundEvent::TransportInactive),
                final(ctx),
            ),
            old(self).passes_on(EventKind::TransportInactive) ==> keeps_attachment(
                old(self),
                final(self),
            ),
    {
        ctx.fire_transport_inactive();
    }

    fn write(&mut self, ctx: &mut Context, msg: Win)
        ensures
            old(self).writes(msg, old(ctx), final(ctx)),
    ;

    fn write_error(&mut self, ctx: &mut Context, err: Cause)
        ensures
            old(self).passes_on(EventKind::WriteError) ==> old(ctx).fires(
                Event::Outbound(OutboundEvent::WriteError(err)),
                final(ctx),
            ),
            old(self).passes_on(EventKind::WriteError) ==> keeps_attachment(old(self), final(self)),
    {
        ctx.fire_write_error(err);
    }

    fn close(&mut self, ctx: &mut Context)
        ensures
            old(self).passes_on(EventKind::Close) ==> old(ctx).fires(
                Event::Outbound(OutboundEvent::Close),
                final(ctx),
            ),
            old(self).passes_on(EventKind::Close) ==> keeps_attachment(old(self), final(self)),
    {
        ctx.fire_close();
    }
}

/// A handler of both directions that passes messages on as they are.
pub trait HandlerAdapter<R, W, Context: HandlerContext<R, W>>: Handler<R, R, W, W, Context> {
    fn read(&mut self, ctx: &mut Context, msg: R)
        ensures
            old(self).passes_on(EventKind::Read) ==> old(ctx).fires(
                Event::Inbound(InboundEvent::Read(msg)),
                final(ctx),
            ),
            old(self).passes_on(EventKind::Read) ==> keeps_attachment(old(self), final(self)),
    {
        ctx.fire_read(msg);
    }

    fn write(&mut self, ctx: &mut Context, msg: W)
        ensures
            old(self).passes_on(EventKind::Write) ==> old(ctx).fires(
                Event::Outbound(OutboundEvent::Write(msg)),
                final(ctx),
            ),
            old(self).passes_on(EventKind::Write) ==> keeps_attachment(old(self), final(self)),
    {
        ctx.fire_write(msg);
    }
}

/// A boxed handler is the handler in the box: a pipeline whose handlers are
/// boxes holds handlers of many types side by side.
impl<Context, T: HandlerBase<Context> + ?Sized> HandlerBase<Context> for Box<T> {
    open spec fn counts(&self, count: usize) -> bool {
        (**self).counts(count)
    }

    open spec fn keeps(&self, ctx: Option<Context>) -> bool {
        (**self).keeps(ctx)
    }

    fn get_context(&self) -> Option<&Context> {
        (**self).get_context()
    }

    fn set_context(&mut self, ctx: Option<Context>) {
        (**self).set_context(ctx)
    }

    fn get_attach_count(&self) -> usize {
        (**self).get_attach_count()
    }

    fn set_attach_count(&mut self, count: usize) {
        (**self).set_attach_count(count)
    }

    fn attach_context(&mut self, ctx: Option<Context>) {
        let ghost offered = ctx;
        (**self).attach_context(ctx);
        proof {
            let count = choose|count: usize|
                {
                    &&& #[trigger] (**old(self)).counts(count)
                    &&& (**self).counts(count_after_attach(count))
                    &&& (**self).keeps(context_after_attach(count, offered))
                };
            assert(old(self).counts(count));
        }
    }

    fn detach_context(&mut self) {
        (**self).detach_context();
        proof {
            let count = choose|count: usize|
                {
                    &&& #[trigger] (**old(self)).counts(count)
                    &&& (**self).counts(count_after_detach(count))
                };
            assert(old(self).counts(count));
        }
    }
}

impl<Rin, Rout, Context, T> InboundHandler<Rin, Rout, Context> for Box<T> where
    Context: InboundHandlerContext<Rout>,
    T: InboundHandler<Rin, Rout, Context> + ?Sized,
 {
    open spec fn passes_on(&self, kind: EventKind) -> bool {
        (**self).passes_on(kind)
    }

    open spec fn reads(&self, msg: Rin, ctx: &Context, ctx_after: &Context) -> bool {
        (**self).reads(msg, ctx, ctx_after)
    }

    fn get_direction(&self) -> (dir: HandlerDir) {
        (**self).get_direction()
    }

    fn read(&mut self, ctx: &mut Context, msg: Rin) {
        (**self).read(ctx, msg)
    }

    fn read_eof(&mut self, ctx: &mut Context) {
        (**self).read_eof(ctx)
    }

    fn read_error(&mut self, ctx: &mut Context, err: Cause) {
        (**self).read_error(ctx, err)
    }

    fn transport_active(&mut self, ctx: &mut Context) {
        (**self).transport_active(ctx)
    }

    fn transport_inactive(&mut self, ctx: &mut Context) {
        (**self).transport_inactive(ctx)
    }
}

impl<Win, Wout, Context, T> OutboundHandler<Win, Wout, Context> for Box<T> where
    Context: OutboundHandlerContext<Wout>,
    T: OutboundHandler<Win, Wout, Context> + ?Sized,
 {
    open spec fn passes_on(&self, kind: EventKind) -> bool {
        (**self).passes_on(kind)
    }

    open spec fn writes(&self, msg: Win, ctx: &Context, ctx_after: &Context) -> bool {
        (**self).writes(msg, ctx, ctx_after)
    }

    fn get_direction(&self) -> (dir: HandlerDir) {
        (**self).get_direction()
    }

    fn write(&mut self, ctx: &mut Context, msg: Win) {
        (**self).write(ctx, msg)
    }

    fn write_error(&mut self, ctx: &mut Context, err: Cause) {
        (**self).write_error(ctx, err)
    }

    fn close(&mut self, ctx: &mut Context) {
        (**self).close(ctx)
    }
}

impl<Rin, Rout, Win, Wout, Context, T> Handler<Rin, Rout, Win, Wout, Context> for Box<T> where
    Context: HandlerContext<Rout, Wout>,
    T: Handler<Rin, Rout, Win, Wout, Context> + ?Sized,
 {
    open spec fn passes_on(&self, kind: EventKind) -> bool {
        (**self).passes_on(kind)
    }

    open spec fn reads(&self, msg: Rin, ctx: &Context, ctx_after: &Context) -> bool {
        (**self).reads(msg, ctx, ctx_after)
    }

    open spec fn writes(&self, msg: Win, ctx: &Context, ctx_after: &Context) -> bool {
        (**self).writes(msg, ctx, ctx_after)
    }

    fn get_direction(&self) -> (dir: HandlerDir) {
        (**self).get_direction()
    }

    fn read(&mut self, ctx: &mut Context, msg: Rin) {
        (**self).read(ctx, msg)
    }

    fn read_eof(&mut self, ctx: &mut Context) {
        (**self).read_eof(ctx)
    }

    fn read_error(&mut self, ctx: &mut Context, err: Cause) {
        (**self).read_error(ctx, err)
    }

    fn transport_active(&mut self, ctx: &mut Context) {
        (**self).transport_active(ctx)
    }

    fn transport_inactive(&mut self, ctx: &mut Context) {
        (**self).transport_inactive(ctx)
    }

    fn write(&mut self, ctx: &mut Context, msg: Win) {
        (**self).write(ctx, msg)
    }

    fn write_error(&mut self, ctx: &mut Context, err: Cause) {
        (**self).write_error(ctx, err)
    }

    fn close(&mut self, ctx: &mut Context) {
        (**self).close(ctx)
    }
}

/// The attachment bookkeeping by itself, for a handler to hold and to answer
/// with.
pub struct HandlerLifecycle<Context> {
    count: usize,
    context: Option<Context>,
}

impl<Context> HandlerLifecycle<Context> {
    /// The number of chain positions that hold the handler.
    pub closed spec fn attach_count(&self) -> usize {
        self.count
    }

    /// The context that the handler may use between events.
    pub closed spec fn live_context(&self) -> Option<Context> {
        self.context
    }

    pub fn new() -> (lifecycle: Self)
        ensures
            lifecycle.attach_count() == 0,
            lifecycle.live_context().is_none(),
    {
        HandlerLifecycle { count: 0, context: None }
    }
}

impl<Context> HandlerBase<Context> for HandlerLifecycle<Context> {
    open spec fn counts(&self, count: usize) -> bool {
        count == self.attach_count()
    }

    open spec fn keeps(&self, ctx: Option<Context>) -> bool {
        ctx == self.live_context()
    }

    fn get_context(&self) -> (ctx: Option<&Context>)
        ensures
            match ctx {
                Some(c) => self.live_context() == Some(*c),
                None => self.live_context().is_none(),
            },
    {
        self.context.as_ref()
    }

    fn set_context(&mut self, ctx: Option<Context>)
        ensures
            final(self).live_context() == ctx,
            final(self).attach_count() == old(self).attach_count(),
    {
        self.context = ctx;
    }

    fn get_attach_count(&self) -> (count: usize)
        ensures
            count == self.attach_count(),
    {
        assert(self.counts(self.count));
        self.count
    }

    fn set_attach_count(&mut self, count: usize)
        ensures
            final(self).attach_count() == count,
            final(self).live_context() == old(self).live_context(),
    {
        self.count = count;
    }

    fn attach_context(&mut self, ctx: Option<Context>)
        ensures
            final(self).attach_count() == count_after_attach(old(self).attach_count()),
            final(self).live_context() == context_after_attach(old(self).attach_count(), ctx),
    {
        let (count, live) = on_attach(self.get_attach_count(), ctx);
        self.set_attach_count(count);
        self.set_context(live);
    }

    fn detach_context(&mut self)
        ensures
            final(self).attach_count() == count_after_detach(old(self).attach_count()),
            final(self).live_context().is_none(),
    {
        let count: usize = on_detach(self.get_attach_count());
        self.set_attach_count(count);
        self.set_context(None);
    }
}

} // verus!
