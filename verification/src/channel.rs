//! The handler, context and pipeline abstractions.
//!
//! - [`event`]: the events, and the records kept of a walk.
//! - [`handler`]: the handler traits and the attachment bookkeeping.
//! - [`handler_context`]: what a handler fires events through.
//! - [`pipeline_context`]: the contexts that hold the handlers.
//! - [`slot`]: the three kinds of context as one type.
//! - [`wiring`]: the links of a chain, computed from the directions of its
//!   handlers.
//! - [`walk`]: the walk of an event through a chain, step by step.
//! - [`visits`]: which handlers a walk visits, in which order.
//! - [`pipeline`]: the chain itself.
//! - [`relay`]: what follows for a walk from what the handlers say of
//!   themselves.

pub mod event;
pub mod handler;
pub mod handler_context;
pub mod pipeline;
pub mod pipeline_context;
pub mod relay;
pub mod slot;
pub mod visits;
pub mod walk;
pub mod wiring;
