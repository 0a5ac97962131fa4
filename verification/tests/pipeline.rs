use handler_pipeline::channel::event::{
    Cause, Event, EventKind, InboundEvent, OutboundEvent, Record, Routed,
};
use handler_pipeline::channel::handler::{
    Handler, HandlerBase, HandlerDir, HandlerLifecycle, InboundHandler, OutboundHandler,
};
use handler_pipeline::channel::handler_context::{
    Emitter, HandlerContext, InboundHandlerContext, OutboundHandlerContext, PipelineHandle,
};
use handler_pipeline::channel::pipeline::{Pipeline, PipelineError};
use handler_pipeline::channel::pipeline_context::{
    InboundContextImpl, InboundLink, OutboundContextImpl, OutboundLink, PipelineContext,
};
use handler_pipeline::channel::slot::Slot;

type InCtx = Emitter<InboundEvent<String>>;
type OutCtx = Emitter<OutboundEvent<String>>;
type BothCtx = Emitter<Event<String, String>>;

/// What an inbound test handler does with a message.
#[derive(Clone, Copy, PartialEq, Eq, Debug)]
enum Mode {
    Forward,
    Swallow,
    Twice,
}

struct Decoder {
    lifecycle: HandlerLifecycle<InCtx>,
    mode: Mode,
    tag: &'static str,
    seen: Vec<String>,
    errors: Vec<String>,
}

impl Decoder {
    fn new(tag: &'static str, mode: Mode) -> Decoder {
        Decoder {
            lifecycle: HandlerLifecycle::new(),
            mode,
            tag,
            seen: Vec::new(),
            errors: Vec::new(),
        }
    }
}

impl HandlerBase<InCtx> for Decoder {
    fn get_context(&self) -> Option<&InCtx> {
        self.lifecycle.get_context()
    }

    fn set_context(&mut self, ctx: Option<InCtx>) {
        self.lifecycle.set_context(ctx)
    }

    fn get_attach_count(&self) -> usize {
        self.lifecycle.get_attach_count()
    }

    fn set_attach_count(&mut self, count: usize) {
        self.lifecycle.set_attach_count(count)
    }
}

impl InboundHandler<String, String, InCtx> for Decoder {
    fn read(&mut self, ctx: &mut InCtx, msg: String) {
        self.seen.push(msg.clone());
        match self.mode {
            Mode::Forward => ctx.fire_read(format!("{}>{}", msg, self.tag)),
            Mode::Swallow => {}
            Mode::Twice => {
                ctx.fire_read(format!("{}>{}1", msg, self.tag));
                ctx.fire_read(format!("{}>{}2", msg, self.tag));
            }
        }
    }

    fn read_error(&mut self, ctx: &mut InCtx, err: Cause) {
        self.errors.push(String::from(err.message()));
        if self.mode != Mode::Swallow {
            ctx.fire_read_error(Cause::new(format!("{} via {}", err.message(), self.tag)));
        }
    }
}

struct Encoder {
    lifecycle: HandlerLifecycle<OutCtx>,
    tag: &'static str,
    seen: Vec<String>,
    pipelines: Vec<Option<PipelineHandle>>,
}

impl Encoder {
    fn new(tag: &'static str) -> Encoder {
        Encoder {
            lifecycle: HandlerLifecycle::new(),
            tag,
            seen: Vec::new(),
            pipelines: Vec::new(),
        }
    }
}

impl HandlerBase<OutCtx> for Encoder {
    fn get_context(&self) -> Option<&OutCtx> {
        self.lifecycle.get_context()
    }

    fn set_context(&mut self, ctx: Option<OutCtx>) {
        self.lifecycle.set_context(ctx)
    }

    fn get_attach_count(&self) -> usize {
        self.lifecycle.get_attach_count()
    }

    fn set_attach_count(&mut self, count: usize) {
        self.lifecycle.set_attach_count(count)
    }
}

impl OutboundHandler<String, String, OutCtx> for Encoder {
    fn write(&mut self, ctx: &mut OutCtx, msg: String) {
        self.seen.push(msg.clone());
        self.pipelines.push(ctx.get_pipeline());
        ctx.fire_write(format!("{}>{}", msg, self.tag));
    }
}

struct Logger {
    lifecycle: HandlerLifecycle<BothCtx>,
    echo: bool,
    reads: Vec<String>,
    writes: Vec<String>,
    closes: usize,
}

impl Logger {
    fn new(echo: bool) -> Logger {
        Logger {
            lifecycle: HandlerLifecycle::new(),
            echo,
            reads: Vec::new(),
            writes: Vec::new(),
            closes: 0,
        }
    }
}

impl HandlerBase<BothCtx> for Logger {
    fn get_context(&self) -> Option<&BothCtx> {
        self.lifecycle.get_context()
    }

    fn set_context(&mut self, ctx: Option<BothCtx>) {
        self.lifecycle.set_context(ctx)
    }

    fn get_attach_count(&self) -> usize {
        self.lifecycle.get_attach_count()
    }

    fn set_attach_count(&mut self, count: usize) {
        self.lifecycle.set_attach_count(count)
    }
}

impl Handler<String, String, String, String, BothCtx> for Logger {
    fn read(&mut self, ctx: &mut BothCtx, msg: String) {
        self.reads.push(msg.clone());
        if self.echo {
            ctx.fire_write(format!("echo:{}", msg));
        }
        ctx.fire_read(format!("{}>logged", msg));
    }

    fn write(&mut self, ctx: &mut BothCtx, msg: String) {
        self.writes.push(msg.clone());
        ctx.fire_write(format!("{}>logged", msg));
    }

    fn close(&mut self, ctx: &mut BothCtx) {
        self.closes += 1;
        ctx.fire_close();
    }
}

type Chain = Pipeline<String, String, Decoder, Encoder, Logger>;

fn visited(position: usize, kind: EventKind) -> Record {
    Record::Visited { position, kind }
}

fn ended(kind: EventKind) -> Record {
    Record::EndOfPipeline { kind }
}

fn decoder_at(chain: &Chain, position: usize) -> &Decoder {
    chain.get(position).unwrap().as_inbound().unwrap().get_handler()
}

fn encoder_at(chain: &Chain, position: usize) -> &Encoder {
    chain.get(position).unwrap().as_outbound().unwrap().get_handler()
}

fn logger_at(chain: &Chain, position: usize) -> &Logger {
    chain.get(position).unwrap().as_both().unwrap().get_handler()
}

fn links(chain: &Chain) -> Vec<(Option<usize>, Option<usize>)> {
    (0..chain.len())
        .map(|i| {
            let slot = chain.get(i).unwrap();
            (slot.get_next_in(), slot.get_next_out())
        })
        .collect()
}

/// Decoder, Logger, Encoder, assembled.
fn codec_chain() -> Chain {
    let mut chain: Chain = Pipeline::new(PipelineHandle { id: 1 });
    chain.add_inbound(String::from("decoded"), Decoder::new("decoded", Mode::Forward));
    chain.add_handler(String::from("logger"), Logger::new(false));
    chain.add_outbound(String::from("encoded"), Encoder::new("encoded"));
    assert_eq!(chain.finalize(), Ok(()));
    chain
}

#[test]
fn read_visits_decoder_then_logger_and_skips_encoder() {
    let mut chain = codec_chain();
    let report = chain.fire_read(String::from("raw"));
    assert!(report.complete);
    assert_eq!(
        report.records,
        vec![visited(0, EventKind::Read), visited(1, EventKind::Read), ended(EventKind::Read)]
    );
    assert_eq!(decoder_at(&chain, 0).seen, vec![String::from("raw")]);
    assert_eq!(logger_at(&chain, 1).reads, vec![String::from("raw>decoded")]);
    assert!(logger_at(&chain, 1).writes.is_empty());
    assert!(encoder_at(&chain, 2).seen.is_empty());
}

#[test]
fn write_visits_encoder_then_logger_and_skips_decoder() {
    let mut chain = codec_chain();
    let report = chain.fire_write(String::from("msg"));
    assert!(report.complete);
    assert_eq!(
        report.records,
        vec![visited(2, EventKind::Write), visited(1, EventKind::Write), ended(EventKind::Write)]
    );
    assert_eq!(encoder_at(&chain, 2).seen, vec![String::from("msg")]);
    assert_eq!(logger_at(&chain, 1).writes, vec![String::from("msg>encoded")]);
    assert!(logger_at(&chain, 1).reads.is_empty());
    assert!(decoder_at(&chain, 0).seen.is_empty());
}

#[test]
fn links_of_the_codec_chain() {
    let chain = codec_chain();
    assert!(chain.get_finalized());
    assert_eq!(
        chain.directions(),
        vec![HandlerDir::IN, HandlerDir::BOTH, HandlerDir::OUT]
    );
    assert_eq!(links(&chain), vec![(Some(1), None), (None, None), (None, Some(1))]);
}

#[test]
fn removing_the_logger_leaves_both_ends_without_links() {
    let mut chain = codec_chain();
    let (name, removed) = chain.remove(1).expect("position 1 holds the logger");
    assert_eq!(name, "logger");
    assert!(removed.as_both().is_some());
    assert!(!removed.get_attached());
    assert_eq!(removed.as_both().unwrap().get_handler().get_attach_count(), 0);
    assert!(!chain.get_finalized());
    assert_eq!(chain.len(), 2);
    assert_eq!(chain.finalize(), Ok(()));
    assert_eq!(chain.get(0).unwrap().get_next_in(), None);
    assert_eq!(chain.get(1).unwrap().get_next_out(), None);
    assert_eq!(links(&chain), vec![(None, None), (None, None)]);
    let report = chain.fire_read(String::from("raw"));
    assert_eq!(report.records, vec![visited(0, EventKind::Read), ended(EventKind::Read)]);
    let report = chain.fire_write(String::from("msg"));
    assert_eq!(report.records, vec![visited(1, EventKind::Write), ended(EventKind::Write)]);
}

#[test]
fn chain_without_inbound_handlers_only_gives_the_notice() {
    let mut chain: Chain = Pipeline::new(PipelineHandle { id: 1 });
    chain.add_outbound(String::from("a"), Encoder::new("a"));
    chain.add_outbound(String::from("b"), Encoder::new("b"));
    assert_eq!(chain.finalize(), Ok(()));
    let report = chain.fire_read(String::from("raw"));
    assert!(report.complete);
    assert_eq!(report.records, vec![ended(EventKind::Read)]);
    assert!(encoder_at(&chain, 0).seen.is_empty());
    assert!(encoder_at(&chain, 1).seen.is_empty());
    let report = chain.fire_read_eof();
    assert_eq!(report.records, vec![ended(EventKind::ReadEof)]);
}

#[test]
fn empty_chain_drops_everything() {
    let mut chain: Chain = Pipeline::new(PipelineHandle { id: 1 });
    assert!(chain.is_empty());
    assert_eq!(chain.finalize(), Ok(()));
    assert_eq!(chain.fire_read(String::from("x")).records, vec![ended(EventKind::Read)]);
    assert_eq!(chain.fire_write(String::from("x")).records, vec![ended(EventKind::Write)]);
    assert_eq!(chain.fire_close().records, vec![ended(EventKind::Close)]);
}

#[test]
fn each_handler_gets_what_the_one_before_fired() {
    let mut chain: Chain = Pipeline::new(PipelineHandle { id: 1 });
    chain.add_inbound(String::from("a"), Decoder::new("a", Mode::Forward));
    chain.add_outbound(String::from("x"), Encoder::new("x"));
    chain.add_inbound(String::from("b"), Decoder::new("b", Mode::Forward));
    chain.add_inbound(String::from("c"), Decoder::new("c", Mode::Forward));
    assert_eq!(chain.finalize(), Ok(()));
    let report = chain.fire_read(String::from("m"));
    assert_eq!(
        report.records,
        vec![
            visited(0, EventKind::Read),
            visited(2, EventKind::Read),
            visited(3, EventKind::Read),
            ended(EventKind::Read),
        ]
    );
    assert_eq!(decoder_at(&chain, 0).seen, vec![String::from("m")]);
    assert_eq!(decoder_at(&chain, 2).seen, vec![String::from("m>a")]);
    assert_eq!(decoder_at(&chain, 3).seen, vec![String::from("m>a>b")]);
}

#[test]
fn writes_travel_towards_the_head() {
    let mut chain: Chain = Pipeline::new(PipelineHandle { id: 1 });
    chain.add_outbound(String::from("x"), Encoder::new("x"));
    chain.add_inbound(String::from("a"), Decoder::new("a", Mode::Forward));
    chain.add_outbound(String::from("y"), Encoder::new("y"));
    chain.add_outbound(String::from("z"), Encoder::new("z"));
    assert_eq!(chain.finalize(), Ok(()));
    let report = chain.fire_write(String::from("m"));
    assert_eq!(
        report.records,
        vec![
            visited(3, EventKind::Write),
            visited(2, EventKind::Write),
            visited(0, EventKind::Write),
            ended(EventKind::Write),
        ]
    );
    assert_eq!(encoder_at(&chain, 3).seen, vec![String::from("m")]);
    assert_eq!(encoder_at(&chain, 2).seen, vec![String::from("m>z")]);
    assert_eq!(encoder_at(&chain, 0).seen, vec![String::from("m>z>y")]);
}

#[test]
fn handler_that_does_not_forward_ends_the_walk() {
    let mut chain: Chain = Pipeline::new(PipelineHandle { id: 1 });
    chain.add_inbound(String::from("a"), Decoder::new("a", Mode::Swallow));
    chain.add_inbound(String::from("b"), Decoder::new("b", Mode::Forward));
    assert_eq!(chain.finalize(), Ok(()));
    let report = chain.fire_read(String::from("m"));
    assert!(report.complete);
    assert_eq!(report.records, vec![visited(0, EventKind::Read)]);
    assert!(decoder_at(&chain, 1).seen.is_empty());
}

#[test]
fn handler_that_fires_twice_is_followed_one_message_at_a_time() {
    let mut chain: Chain = Pipeline::new(PipelineHandle { id: 1 });
    chain.add_inbound(String::from("a"), Decoder::new("a", Mode::Twice));
    chain.add_inbound(String::from("b"), Decoder::new("b", Mode::Forward));
    chain.add_inbound(String::from("c"), Decoder::new("c", Mode::Forward));
    assert_eq!(chain.finalize(), Ok(()));
    let report = chain.fire_read(String::from("m"));
    assert_eq!(
        report.records,
        vec![
            visited(0, EventKind::Read),
            visited(1, EventKind::Read),
            visited(2, EventKind::Read),
            ended(EventKind::Read),
            visited(1, EventKind::Read),
            visited(2, EventKind::Read),
            ended(EventKind::Read),
        ]
    );
    assert_eq!(decoder_at(&chain, 1).seen, vec![String::from("m>a1"), String::from("m>a2")]);
    assert_eq!(
        decoder_at(&chain, 2).seen,
        vec![String::from("m>a1>b"), String::from("m>a2>b")]
    );
}

#[test]
fn echo_goes_back_before_the_read_goes_on() {
    let mut chain: Chain = Pipeline::new(PipelineHandle { id: 1 });
    chain.add_outbound(String::from("wire"), Encoder::new("wire"));
    chain.add_handler(String::from("echo"), Logger::new(true));
    chain.add_inbound(String::from("app"), Decoder::new("app", Mode::Swallow));
    assert_eq!(chain.finalize(), Ok(()));
    let report = chain.fire_read(String::from("ping"));
    assert_eq!(
        report.records,
        vec![
            visited(1, EventKind::Read),
            visited(0, EventKind::Write),
            ended(EventKind::Write),
            visited(2, EventKind::Read),
        ]
    );
    assert_eq!(encoder_at(&chain, 0).seen, vec![String::from("echo:ping")]);
    assert_eq!(decoder_at(&chain, 2).seen, vec![String::from("ping>logged")]);
}

#[test]
fn lifecycle_events_pass_through_by_default() {
    let mut chain = codec_chain();
    assert_eq!(
        chain.fire_read_eof().records,
        vec![
            visited(0, EventKind::ReadEof),
            visited(1, EventKind::ReadEof),
            ended(EventKind::ReadEof),
        ]
    );
    assert_eq!(
        chain.fire_transport_active().records,
        vec![
            visited(0, EventKind::TransportActive),
            visited(1, EventKind::TransportActive),
            ended(EventKind::TransportActive),
        ]
    );
    assert_eq!(
        chain.fire_transport_inactive().records,
        vec![
            visited(0, EventKind::TransportInactive),
            visited(1, EventKind::TransportInactive),
            ended(EventKind::TransportInactive),
        ]
    );
    assert_eq!(
        chain.fire_write_error(Cause::new(String::from("broken pipe"))).records,
        vec![
            visited(2, EventKind::WriteError),
            visited(1, EventKind::WriteError),
            ended(EventKind::WriteError),
        ]
    );
    assert_eq!(
        chain.fire_close().records,
        vec![visited(2, EventKind::Close), visited(1, EventKind::Close), ended(EventKind::Close)]
    );
    assert_eq!(logger_at(&chain, 1).closes, 1);
}

#[test]
fn errors_travel_like_their_events_and_can_be_absorbed() {
    let mut chain: Chain = Pipeline::new(PipelineHandle { id: 1 });
    chain.add_inbound(String::from("a"), Decoder::new("a", Mode::Forward));
    chain.add_inbound(String::from("b"), Decoder::new("b", Mode::Swallow));
    chain.add_inbound(String::from("c"), Decoder::new("c", Mode::Forward));
    assert_eq!(chain.finalize(), Ok(()));
    let report = chain.fire_read_error(Cause::new(String::from("timeout")));
    assert_eq!(
        report.records,
        vec![visited(0, EventKind::ReadError), visited(1, EventKind::ReadError)]
    );
    assert_eq!(decoder_at(&chain, 0).errors, vec![String::from("timeout")]);
    assert_eq!(decoder_at(&chain, 1).errors, vec![String::from("timeout via a")]);
    assert!(decoder_at(&chain, 2).errors.is_empty());
}

#[test]
fn general_entry_takes_events_of_both_directions() {
    let mut chain = codec_chain();
    let report = chain.fire(Event::Inbound(InboundEvent::Read(String::from("raw"))));
    assert_eq!(
        report.records,
        vec![visited(0, EventKind::Read), visited(1, EventKind::Read), ended(EventKind::Read)]
    );
    let report = chain.fire(Event::Outbound(OutboundEvent::Close));
    assert_eq!(
        report.records,
        vec![visited(2, EventKind::Close), visited(1, EventKind::Close), ended(EventKind::Close)]
    );
}

#[test]
fn chain_that_is_not_assembled_has_no_entry() {
    let mut chain: Chain = Pipeline::new(PipelineHandle { id: 1 });
    chain.add_inbound(String::from("a"), Decoder::new("a", Mode::Forward));
    chain.add_outbound(String::from("x"), Encoder::new("x"));
    assert!(!chain.get_finalized());
    assert_eq!(links(&chain), vec![(None, None), (None, None)]);
    assert_eq!(chain.fire_read(String::from("m")).records, vec![ended(EventKind::Read)]);
    assert_eq!(chain.fire_write(String::from("m")).records, vec![ended(EventKind::Write)]);
    assert!(decoder_at(&chain, 0).seen.is_empty());
    assert!(encoder_at(&chain, 1).seen.is_empty());
}

#[test]
fn finalize_attaches_every_context_once() {
    let mut chain = codec_chain();
    assert_eq!(decoder_at(&chain, 0).get_attach_count(), 1);
    assert_eq!(logger_at(&chain, 1).get_attach_count(), 1);
    assert_eq!(encoder_at(&chain, 2).get_attach_count(), 1);
    assert!(chain.get(0).unwrap().get_attached());
    assert_eq!(chain.finalize(), Ok(()));
    assert_eq!(decoder_at(&chain, 0).get_attach_count(), 1);
    assert_eq!(logger_at(&chain, 1).get_attach_count(), 1);
    assert_eq!(encoder_at(&chain, 2).get_attach_count(), 1);
    let live = decoder_at(&chain, 0).get_context().expect("attached once");
    assert_eq!(live.get_pipeline(), Some(PipelineHandle { id: 1 }));
}

#[test]
fn handler_sees_the_pipeline_of_its_context() {
    let mut chain = codec_chain();
    chain.fire_write(String::from("m"));
    assert_eq!(encoder_at(&chain, 2).pipelines, vec![Some(PipelineHandle { id: 1 })]);
    assert_eq!(chain.get_handle(), PipelineHandle { id: 1 });
}

#[test]
fn insert_puts_the_context_before_the_one_that_stood_there() {
    let mut chain = codec_chain();
    let mut context = InboundContextImpl::new(Decoder::new("framed", Mode::Forward));
    context.set_pipeline(PipelineHandle { id: 1 });
    assert!(chain.insert(1, String::from("framer"), Slot::Inbound(context)).is_ok());
    assert!(!chain.get_finalized());
    assert_eq!(
        chain.directions(),
        vec![HandlerDir::IN, HandlerDir::IN, HandlerDir::BOTH, HandlerDir::OUT]
    );
    assert_eq!(chain.finalize(), Ok(()));
    assert_eq!(
        links(&chain),
        vec![(Some(1), None), (Some(2), None), (None, None), (None, Some(2))]
    );
    let report = chain.fire_read(String::from("raw"));
    assert_eq!(
        report.records,
        vec![
            visited(0, EventKind::Read),
            visited(1, EventKind::Read),
            visited(2, EventKind::Read),
            ended(EventKind::Read),
        ]
    );
    assert_eq!(logger_at(&chain, 2).reads, vec![String::from("raw>decoded>framed")]);
}

#[test]
fn insert_past_the_tail_gives_the_context_back() {
    let mut chain = codec_chain();
    let context = InboundContextImpl::new(Decoder::new("late", Mode::Forward));
    let (name, back) = chain
        .insert(4, String::from("late"), Slot::Inbound(context))
        .err()
        .expect("position 4 is past the tail");
    assert_eq!(name, "late");
    assert_eq!(back.as_inbound().unwrap().get_handler().tag, "late");
    assert_eq!(chain.len(), 3);
    assert!(chain.get_finalized());
}

#[test]
fn insert_at_the_tail_appends() {
    let mut chain = codec_chain();
    let mut context = InboundContextImpl::new(Decoder::new("last", Mode::Forward));
    context.set_pipeline(PipelineHandle { id: 1 });
    assert!(chain.insert(3, String::from("last"), Slot::Inbound(context)).is_ok());
    assert_eq!(chain.len(), 4);
    assert_eq!(decoder_at(&chain, 3).tag, "last");
}

#[test]
fn remove_past_the_tail_changes_nothing() {
    let mut chain = codec_chain();
    assert!(chain.remove(3).is_none());
    assert_eq!(chain.len(), 3);
    assert!(chain.get_finalized());
    assert!(chain.get(3).is_none());
}

#[test]
fn finalize_names_the_first_foreign_context() {
    let mut chain: Chain = Pipeline::new(PipelineHandle { id: 1 });
    chain.add_inbound(String::from("a"), Decoder::new("a", Mode::Forward));
    let mut foreign = InboundContextImpl::new(Decoder::new("b", Mode::Forward));
    foreign.set_pipeline(PipelineHandle { id: 2 });
    chain.add_back(String::from("b"), Slot::Inbound(foreign));
    let unbound = InboundContextImpl::new(Decoder::new("c", Mode::Forward));
    chain.add_back(String::from("c"), Slot::Inbound(unbound));
    assert_eq!(chain.finalize(), Err(PipelineError::ForeignContext { position: 1 }));
    assert!(!chain.get_finalized());
    assert_eq!(decoder_at(&chain, 0).get_attach_count(), 0);
    assert_eq!(chain.fire_read(String::from("m")).records, vec![ended(EventKind::Read)]);
    assert!(chain.remove(1).is_some());
    assert_eq!(chain.finalize(), Err(PipelineError::ForeignContext { position: 1 }));
    assert!(chain.remove(1).is_some());
    assert_eq!(chain.finalize(), Ok(()));
    assert_eq!(decoder_at(&chain, 0).get_attach_count(), 1);
}

#[test]
fn context_fires_along_its_links() {
    let mut context: InboundContextImpl<String, String, Decoder> =
        InboundContextImpl::new(Decoder::new("a", Mode::Forward));
    context.fire_read(String::from("x"));
    context.fire_read_eof();
    let mut stack = Vec::new();
    context.release(&mut stack);
    assert_eq!(stack.len(), 2);
    assert!(matches!(stack[0], Routed::EndOfPipeline { kind: EventKind::Read }));
    assert!(matches!(stack[1], Routed::EndOfPipeline { kind: EventKind::ReadEof }));
}

#[test]
fn contexts_are_found_by_name() {
    let mut chain = codec_chain();
    assert_eq!(chain.find(&String::from("decoded")), Some(0));
    assert_eq!(chain.find(&String::from("logger")), Some(1));
    assert_eq!(chain.find(&String::from("encoded")), Some(2));
    assert_eq!(chain.find(&String::from("missing")), None);
    assert_eq!(chain.name_of(1), Some(&String::from("logger")));
    assert_eq!(chain.name_of(3), None);
    let slot = chain.get_named(&String::from("encoded")).expect("the encoder is in the chain");
    assert_eq!(slot.as_outbound().unwrap().get_handler().tag, "encoded");
    assert!(chain.get_named(&String::from("missing")).is_none());
    chain.add_inbound(String::from("logger"), Decoder::new("second", Mode::Forward));
    assert_eq!(chain.find(&String::from("logger")), Some(1));
}

#[test]
fn contexts_are_removed_by_name() {
    let mut chain = codec_chain();
    assert!(chain.remove_named(&String::from("missing")).is_none());
    assert_eq!(chain.len(), 3);
    assert!(chain.get_finalized());
    let (name, slot) = chain.remove_named(&String::from("logger")).expect("the logger is there");
    assert_eq!(name, "logger");
    assert!(slot.as_both().is_some());
    assert!(!slot.get_attached());
    assert_eq!(chain.len(), 2);
    assert!(!chain.get_finalized());
    assert_eq!(chain.find(&String::from("encoded")), Some(1));
    assert_eq!(chain.finalize(), Ok(()));
    assert_eq!(links(&chain), vec![(None, None), (None, None)]);
}

#[test]
fn replace_puts_a_context_in_the_place_of_another() {
    let mut chain = codec_chain();
    let mut context = InboundContextImpl::new(Decoder::new("plain", Mode::Forward));
    context.set_pipeline(PipelineHandle { id: 1 });
    let (name, was) = chain
        .replace(1, String::from("plain"), Slot::Inbound(context))
        .ok()
        .expect("position 1 holds the logger");
    assert_eq!(name, "logger");
    assert!(was.as_both().is_some());
    assert!(!was.get_attached());
    assert_eq!(was.as_both().unwrap().get_handler().get_attach_count(), 0);
    assert_eq!(chain.len(), 3);
    assert!(!chain.get_finalized());
    assert_eq!(chain.name_of(1), Some(&String::from("plain")));
    assert_eq!(chain.finalize(), Ok(()));
    assert_eq!(
        chain.directions(),
        vec![HandlerDir::IN, HandlerDir::IN, HandlerDir::OUT]
    );
    assert_eq!(links(&chain), vec![(Some(1), None), (None, None), (None, None)]);
    let report = chain.fire_write(String::from("m"));
    assert_eq!(report.records, vec![visited(2, EventKind::Write), ended(EventKind::Write)]);
}

#[test]
fn replace_past_the_tail_gives_the_context_back() {
    let mut chain = codec_chain();
    let context = InboundContextImpl::new(Decoder::new("late", Mode::Forward));
    let (name, back) = chain
        .replace(3, String::from("late"), Slot::Inbound(context))
        .err()
        .expect("no context stands at position 3");
    assert_eq!(name, "late");
    assert_eq!(back.as_inbound().unwrap().get_handler().tag, "late");
    assert_eq!(chain.len(), 3);
    assert!(chain.get_finalized());
}

#[test]
fn slot_drops_an_event_that_its_handler_does_not_take() {
    let mut slot: Slot<String, String, Decoder, Encoder, Logger> =
        Slot::Inbound(InboundContextImpl::new(Decoder::new("a", Mode::Forward)));
    slot.accept(Event::Outbound(OutboundEvent::Write(String::from("w"))));
    slot.forward();
    let mut stack = Vec::new();
    slot.release(&mut stack);
    assert!(stack.is_empty());
    assert!(slot.as_inbound().unwrap().get_handler().seen.is_empty());
    slot.accept(Event::Inbound(InboundEvent::Read(String::from("r"))));
    slot.forward();
    slot.release(&mut stack);
    assert_eq!(stack.len(), 1);
    assert_eq!(slot.as_inbound().unwrap().get_handler().seen, vec![String::from("r")]);
}

#[test]
fn context_sends_what_its_handler_fired_to_its_link() {
    let mut context: InboundContextImpl<String, String, Decoder> =
        InboundContextImpl::new(Decoder::new("a", Mode::Twice));
    context.set_next_in(Some(4));
    context.set_next_out(Some(9));
    assert_eq!(context.get_next_in(), Some(4));
    context.accept(InboundEvent::Read(String::from("m")));
    context.forward();
    let mut stack = Vec::new();
    context.release(&mut stack);
    assert_eq!(stack.len(), 2);
    match stack.pop() {
        Some(Routed::Deliver { target, event: Event::Inbound(InboundEvent::Read(msg)) }) => {
            assert_eq!(target, 4);
            assert_eq!(msg, "m>a1");
        }
        _ => panic!("the first message fired goes first"),
    }
    match stack.pop() {
        Some(Routed::Deliver { target, event: Event::Inbound(InboundEvent::Read(msg)) }) => {
            assert_eq!(target, 4);
            assert_eq!(msg, "m>a2");
        }
        _ => panic!("the second message fired goes second"),
    }
    context.clear();
    context.release(&mut stack);
    assert!(stack.is_empty());
}

#[test]
fn positions_are_links_whatever_their_handler() {
    let mut first: Slot<String, String, Decoder, Encoder, Logger> =
        Slot::Inbound(InboundContextImpl::new(Decoder::new("a", Mode::Forward)));
    let mut second: Slot<String, String, Decoder, Encoder, Logger> =
        Slot::Outbound(OutboundContextImpl::new(Encoder::new("x")));
    for slot in [&mut first, &mut second] {
        slot.read(String::from("r"));
        slot.read_eof();
        slot.write(String::from("w"));
        slot.close();
        slot.forward();
    }
    assert_eq!(first.as_inbound().unwrap().get_handler().seen, vec![String::from("r")]);
    assert_eq!(second.as_outbound().unwrap().get_handler().seen, vec![String::from("w")]);
    let mut stack = Vec::new();
    first.release(&mut stack);
    assert_eq!(stack.len(), 2);
    assert!(matches!(stack[0], Routed::EndOfPipeline { kind: EventKind::ReadEof }));
    assert!(matches!(stack[1], Routed::EndOfPipeline { kind: EventKind::Read }));
    second.release(&mut stack);
    assert_eq!(stack.len(), 4);
    assert!(matches!(stack[2], Routed::EndOfPipeline { kind: EventKind::Close }));
    assert!(matches!(stack[3], Routed::EndOfPipeline { kind: EventKind::Write }));
}
