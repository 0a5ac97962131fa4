use handler_pipeline::channel::event::InboundEvent;
use handler_pipeline::channel::handler::{
    on_attach, on_detach, HandlerBase, HandlerDir, HandlerLifecycle, InboundHandler,
};
use handler_pipeline::channel::handler_context::{
    Emitter, InboundHandlerContext, PipelineHandle,
};
use handler_pipeline::channel::pipeline_context::{InboundContextImpl, PipelineContext};

type Ctx = Emitter<InboundEvent<String>>;

struct Upper {
    lifecycle: HandlerLifecycle<Ctx>,
    seen: Vec<String>,
}

impl Upper {
    fn new() -> Upper {
        Upper { lifecycle: HandlerLifecycle::new(), seen: Vec::new() }
    }
}

impl HandlerBase<Ctx> for Upper {
    fn get_context(&self) -> Option<&Ctx> {
        self.lifecycle.get_context()
    }

    fn set_context(&mut self, ctx: Option<Ctx>) {
        self.lifecycle.set_context(ctx)
    }

    fn get_attach_count(&self) -> usize {
        self.lifecycle.get_attach_count()
    }

    fn set_attach_count(&mut self, count: usize) {
        self.lifecycle.set_attach_count(count)
    }
}

impl InboundHandler<String, String, Ctx> for Upper {
    fn read(&mut self, ctx: &mut Ctx, msg: String) {
        self.seen.push(msg.clone());
        ctx.fire_read(msg.to_uppercase());
    }
}

fn context_of(id: u64) -> Option<Ctx> {
    Some(Emitter::new(Some(PipelineHandle { id })))
}

#[test]
fn first_attachment_keeps_the_context() {
    let mut handler = Upper::new();
    assert_eq!(handler.get_attach_count(), 0);
    assert!(handler.get_context().is_none());
    handler.attach_context(context_of(7));
    assert_eq!(handler.get_attach_count(), 1);
    let live = handler.get_context().expect("one attachment leaves a live context");
    assert_eq!(live.get_pipeline(), Some(PipelineHandle { id: 7 }));
}

#[test]
fn second_attachment_clears_the_context() {
    let mut handler = Upper::new();
    handler.attach_context(context_of(1));
    handler.attach_context(context_of(2));
    assert_eq!(handler.get_attach_count(), 2);
    assert!(handler.get_context().is_none());
    handler.detach_context();
    assert_eq!(handler.get_attach_count(), 1);
    assert!(handler.get_context().is_none());
}

#[test]
fn detach_clears_the_context_of_a_single_attachment() {
    let mut handler = Upper::new();
    handler.attach_context(context_of(1));
    handler.detach_context();
    assert_eq!(handler.get_attach_count(), 0);
    assert!(handler.get_context().is_none());
}

#[test]
fn detach_of_an_unattached_handler_is_clamped() {
    let mut handler = Upper::new();
    handler.detach_context();
    handler.detach_context();
    assert_eq!(handler.get_attach_count(), 0);
    assert!(handler.get_context().is_none());
}

#[test]
fn lifecycle_alone_follows_the_same_rule() {
    let mut lifecycle: HandlerLifecycle<u32> = HandlerLifecycle::new();
    lifecycle.attach_context(Some(10));
    assert_eq!(lifecycle.get_attach_count(), 1);
    assert_eq!(lifecycle.get_context(), Some(&10));
    lifecycle.attach_context(Some(20));
    assert_eq!(lifecycle.get_attach_count(), 2);
    assert_eq!(lifecycle.get_context(), None);
    lifecycle.detach_context();
    assert_eq!(lifecycle.get_attach_count(), 1);
    assert_eq!(lifecycle.get_context(), None);
    lifecycle.attach_context(Some(30));
    assert_eq!(lifecycle.get_attach_count(), 2);
    assert_eq!(lifecycle.get_context(), None);
}

#[test]
fn on_attach_gives_count_and_context() {
    assert_eq!(on_attach(0, Some('a')), (1, Some('a')));
    assert_eq!(on_attach(0, None::<char>), (1, None));
    assert_eq!(on_attach(1, Some('a')), (2, None));
    assert_eq!(on_attach(41, Some('a')), (42, None));
    assert_eq!(on_attach(usize::MAX, Some('a')), (usize::MAX, None));
}

#[test]
fn on_detach_never_goes_below_zero() {
    assert_eq!(on_detach(0), 0);
    assert_eq!(on_detach(1), 0);
    assert_eq!(on_detach(2), 1);
    assert_eq!(on_detach(usize::MAX), usize::MAX - 1);
}

#[test]
fn attach_pipeline_twice_counts_once() {
    let mut context: InboundContextImpl<String, String, Upper> =
        InboundContextImpl::new(Upper::new());
    assert_eq!(context.get_direction(), HandlerDir::IN);
    assert!(!context.get_attached());
    context.attach_pipeline();
    assert!(context.get_attached());
    assert_eq!(context.get_handler().get_attach_count(), 1);
    context.attach_pipeline();
    assert!(context.get_attached());
    assert_eq!(context.get_handler().get_attach_count(), 1);
    assert!(context.get_handler().get_context().is_some());
}

#[test]
fn detach_pipeline_is_unconditional() {
    let mut context: InboundContextImpl<String, String, Upper> =
        InboundContextImpl::new(Upper::new());
    context.attach_pipeline();
    context.detach_pipeline();
    assert!(!context.get_attached());
    assert_eq!(context.get_handler().get_attach_count(), 0);
    assert!(context.get_handler().get_context().is_none());
    context.detach_pipeline();
    assert!(!context.get_attached());
    assert_eq!(context.get_handler().get_attach_count(), 0);
}

#[test]
fn attached_handler_is_offered_the_pipeline_of_its_context() {
    let mut context: InboundContextImpl<String, String, Upper> =
        InboundContextImpl::new(Upper::new());
    context.set_pipeline(PipelineHandle { id: 5 });
    context.attach_pipeline();
    let live = context.get_handler().get_context().expect("attached once");
    assert_eq!(live.get_pipeline(), Some(PipelineHandle { id: 5 }));
    assert_eq!(live.pending(), 0);
}

#[test]
fn initialize_replaces_pipeline_and_handler() {
    let mut context: InboundContextImpl<String, String, Upper> =
        InboundContextImpl::new(Upper::new());
    assert_eq!(context.get_owner(), None);
    let mut other = Upper::new();
    other.seen.push(String::from("marker"));
    context.initialize(PipelineHandle { id: 9 }, other);
    assert_eq!(context.get_owner(), Some(PipelineHandle { id: 9 }));
    assert_eq!(context.get_pipeline(), Some(PipelineHandle { id: 9 }));
    assert_eq!(context.get_handler().seen, vec![String::from("marker")]);
    assert_eq!(context.get_next_in(), None);
    assert!(!context.get_attached());
}
