//! A composable, bidirectional event-processing chain for network
//! connections.
//!
//! Handlers are chained into a pipeline. Inbound events (data read, end of
//! input, read errors, the transport going up or down) enter at the head
//! and visit the handlers that take inbound events, from head to tail.
//! Outbound events (data to write, write errors, close) enter at the tail
//! and visit the handlers that take outbound events, from tail to head. A
//! handler sees only the context of its own position and fires through it
//! whatever is to go on.
//!
//! The library is verified with Verus. What a walk through the chain does
//! is stated over a model of the chain, [`channel::wiring::Chain`], and of
//! the walk, [`channel::walk::replay`]; what follows for the order of the
//! visits is proved in [`channel::visits`], and what follows from what the
//! handlers say of themselves in [`channel::relay`].

pub mod channel;
