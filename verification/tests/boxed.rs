use handler_pipeline::channel::event::{Event, EventKind, InboundEvent, OutboundEvent, Record};
use handler_pipeline::channel::handler::{
    Handler, HandlerAdapter, HandlerBase, HandlerLifecycle, InboundHandler, OutboundHandler,
};
use handler_pipeline::channel::handler_context::{
    Emitter, InboundHandlerContext, OutboundHandlerContext, PipelineHandle,
};
use handler_pipeline::channel::pipeline::Pipeline;

type InCtx = Emitter<InboundEvent<Vec<u8>>>;
type OutCtx = Emitter<OutboundEvent<Vec<u8>>>;
type BothCtx = Emitter<Event<Vec<u8>, Vec<u8>>>;

/// Cuts the input into lines and passes each line on by itself.
struct LineSplitter {
    lifecycle: HandlerLifecycle<InCtx>,
    rest: Vec<u8>,
}

impl HandlerBase<InCtx> for LineSplitter {
    fn get_context(&self) -> Option<&InCtx> {
        self.lifecycle.get_context()
    }

    fn set_context(&mut self, ctx: Option<InCtx>) {
        self.lifecycle.set_context(ctx)
    }

    fn get_attach_count(&self) -> usize {
        self.lifecycle.get_attach_count()
    }

    fn set_attach_count(&mut self, count: usize) {
        self.lifecycle.set_attach_count(count)
    }
}

impl InboundHandler<Vec<u8>, Vec<u8>, InCtx> for LineSplitter {
    fn read(&mut self, ctx: &mut InCtx, msg: Vec<u8>) {
        for byte in msg {
            if byte == b'\n' {
                ctx.fire_read(std::mem::take(&mut self.rest));
            } else {
                self.rest.push(byte);
            }
        }
    }
}

/// Counts the messages that pass.
struct Counter {
    lifecycle: HandlerLifecycle<InCtx>,
    count: usize,
}

impl HandlerBase<InCtx> for Counter {
    fn get_context(&self) -> Option<&InCtx> {
        self.lifecycle.get_context()
    }

    fn set_context(&mut self, ctx: Option<InCtx>) {
        self.lifecycle.set_context(ctx)
    }

    fn get_attach_count(&self) -> usize {
        self.lifecycle.get_attach_count()
    }

    fn set_attach_count(&mut self, count: usize) {
        self.lifecycle.set_attach_count(count)
    }
}

impl InboundHandler<Vec<u8>, Vec<u8>, InCtx> for Counter {
    fn read(&mut self, ctx: &mut InCtx, msg: Vec<u8>) {
        self.count += 1;
        ctx.fire_read(msg);
    }
}

/// Ends every message with a line feed.
struct LineEnder {
    lifecycle: HandlerLifecycle<OutCtx>,
}

impl HandlerBase<OutCtx> for LineEnder {
    fn get_context(&self) -> Option<&OutCtx> {
        self.lifecycle.get_context()
    }

    fn set_context(&mut self, ctx: Option<OutCtx>) {
        self.lifecycle.set_context(ctx)
    }

    fn get_attach_count(&self) -> usize {
        self.lifecycle.get_attach_count()
    }

    fn set_attach_count(&mut self, count: usize) {
        self.lifecycle.set_attach_count(count)
    }
}

impl OutboundHandler<Vec<u8>, Vec<u8>, OutCtx> for LineEnder {
    fn write(&mut self, ctx: &mut OutCtx, msg: Vec<u8>) {
        let mut line = msg;
        line.push(b'\n');
        ctx.fire_write(line);
    }
}

/// Passes everything on as it is.
struct Transparent {
    lifecycle: HandlerLifecycle<BothCtx>,
}

impl HandlerBase<BothCtx> for Transparent {
    fn get_context(&self) -> Option<&BothCtx> {
        self.lifecycle.get_context()
    }

    fn set_context(&mut self, ctx: Option<BothCtx>) {
        self.lifecycle.set_context(ctx)
    }

    fn get_attach_count(&self) -> usize {
        self.lifecycle.get_attach_count()
    }

    fn set_attach_count(&mut self, count: usize) {
        self.lifecycle.set_attach_count(count)
    }
}

impl Handler<Vec<u8>, Vec<u8>, Vec<u8>, Vec<u8>, BothCtx> for Transparent {
    fn read(&mut self, ctx: &mut BothCtx, msg: Vec<u8>) {
        HandlerAdapter::read(self, ctx, msg)
    }

    fn write(&mut self, ctx: &mut BothCtx, msg: Vec<u8>) {
        HandlerAdapter::write(self, ctx, msg)
    }
}

impl HandlerAdapter<Vec<u8>, Vec<u8>, BothCtx> for Transparent {}

type BoxedIn = Box<dyn InboundHandler<Vec<u8>, Vec<u8>, InCtx>>;
type BoxedOut = Box<dyn OutboundHandler<Vec<u8>, Vec<u8>, OutCtx>>;
type BoxedBoth = Box<dyn Handler<Vec<u8>, Vec<u8>, Vec<u8>, Vec<u8>, BothCtx>>;

fn visited(position: usize, kind: EventKind) -> Record {
    Record::Visited { position, kind }
}

fn ended(kind: EventKind) -> Record {
    Record::EndOfPipeline { kind }
}

#[test]
fn boxed_handlers_of_several_types_share_a_chain() {
    let mut chain: Pipeline<Vec<u8>, Vec<u8>, BoxedIn, BoxedOut, BoxedBoth> =
        Pipeline::new(PipelineHandle { id: 3 });
    chain.add_outbound(
        String::from("ender"),
        Box::new(LineEnder { lifecycle: HandlerLifecycle::new() }),
    );
    chain.add_inbound(
        String::from("splitter"),
        Box::new(LineSplitter { lifecycle: HandlerLifecycle::new(), rest: Vec::new() }),
    );
    chain.add_handler(
        String::from("transparent"),
        Box::new(Transparent { lifecycle: HandlerLifecycle::new() }),
    );
    chain.add_inbound(
        String::from("counter"),
        Box::new(Counter { lifecycle: HandlerLifecycle::new(), count: 0 }),
    );
    assert_eq!(chain.finalize(), Ok(()));

    let report = chain.fire_read(b"ab\ncd\nef".to_vec());
    assert!(report.complete);
    assert_eq!(
        report.records,
        vec![
            visited(1, EventKind::Read),
            visited(2, EventKind::Read),
            visited(3, EventKind::Read),
            ended(EventKind::Read),
            visited(2, EventKind::Read),
            visited(3, EventKind::Read),
            ended(EventKind::Read),
        ]
    );
    let report = chain.fire_read(b"\n".to_vec());
    assert_eq!(
        report.records,
        vec![
            visited(1, EventKind::Read),
            visited(2, EventKind::Read),
            visited(3, EventKind::Read),
            ended(EventKind::Read),
        ]
    );

    let report = chain.fire_write(b"out".to_vec());
    assert_eq!(
        report.records,
        vec![visited(2, EventKind::Write), visited(0, EventKind::Write), ended(EventKind::Write)]
    );
    let boxed = chain.get(3).unwrap().as_inbound().unwrap().get_handler();
    assert_eq!(boxed.get_attach_count(), 1);
}

#[test]
fn adapter_passes_messages_on_unchanged() {
    let mut handler = Transparent { lifecycle: HandlerLifecycle::new() };
    let mut ctx: BothCtx = Emitter::new(None);
    Handler::read(&mut handler, &mut ctx, vec![1, 2, 3]);
    Handler::write(&mut handler, &mut ctx, vec![4]);
    handler.read_eof(&mut ctx);
    handler.close(&mut ctx);
    assert_eq!(ctx.pending(), 4);
    assert!(matches!(ctx.take_last(), Some(Event::Outbound(OutboundEvent::Close))));
    assert!(matches!(ctx.take_last(), Some(Event::Inbound(InboundEvent::ReadEof))));
    match ctx.take_last() {
        Some(Event::Outbound(OutboundEvent::Write(msg))) => assert_eq!(msg, vec![4]),
        _ => panic!("the write was fired third from last"),
    }
    match ctx.take_last() {
        Some(Event::Inbound(InboundEvent::Read(msg))) => assert_eq!(msg, vec![1, 2, 3]),
        _ => panic!("the read was fired first"),
    }
    assert!(ctx.take_last().is_none());
}
