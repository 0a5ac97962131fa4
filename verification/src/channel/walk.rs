//! The walk of an event through a chain, as a sequence of steps: which
//! context is visited with which event, what its handler fires, and where
//! that goes next.

use vstd::prelude::*;
use super::event::{Event, EventKind, Record, Routed};
use super::wiring::Chain;

verus! {

/// One step of a walk.
pub enum Step<R, W> {
    /// The handler at `position` was handed `event` and fired `emitted`, in
    /// that order.
    Handled { position: usize, event: Event<R, W>, emitted: Seq<Event<R, W>> },
    /// An event of `kind` reached the end of the chain and was dropped.
    Dropped { kind: EventKind },
}

/// `event` on its way to the position `next`, or to the end of the chain
/// where there is no such position.
pub open spec fn send<R, W>(next: Option<int>, event: Event<R, W>) -> Routed<Event<R, W>> {
    match next {
        Some(target) => Routed::Deliver { target: target as usize, event },
        None => Routed::EndOfPipeline { kind: event.kind_of() },
    }
}

/// Where an event that enters the chain from outside goes: an inbound event
/// to the head, an outbound event to the tail.
pub open spec fn enter<R, W>(chain: Chain, event: Event<R, W>) -> Routed<Event<R, W>> {
    if event is Inbound {
        send(chain.head(), event)
    } else {
        send(chain.tail(), event)
    }
}

/// Where an event fired at `position` goes: along the link of its
/// direction.
pub open spec fn onward<R, W>(chain: Chain, position: int, event: Event<R, W>) -> Routed<
    Event<R, W>,
> {
    if event is Inbound {
        send(chain.next_in(position), event)
    } else {
        send(chain.next_out(position), event)
    }
}

/// All that was fired at `position`, each event on its way, the first
/// fired last: the last of a stack is the next to go.
pub open spec fn fan_out<R, W>(chain: Chain, position: int, emitted: Seq<Event<R, W>>) -> Seq<
    Routed<Event<R, W>>,
> {
    Seq::new(emitted.len(), |i: int| onward(chain, position, emitted[emitted.len() - 1 - i]))
}

/// What is left to do after one step: the step takes the last of `stack`.
/// An event at the end of the chain is dropped. An event on its way to a
/// position is handled there, and what the handler fires goes before all
/// that was waiting. A step that does not fit the stack gives nothing.
pub open spec fn after_step<R, W>(
    chain: Chain,
    stack: Seq<Routed<Event<R, W>>>,
    step: Step<R, W>,
) -> Option<Seq<Routed<Event<R, W>>>> {
    if stack.len() == 0 {
        None
    } else {
        match (stack.last(), step) {
            (Routed::EndOfPipeline { kind }, Step::Dropped { kind: dropped }) => if kind
                == dropped {
                Some(stack.drop_last())
            } else {
                None
            },
            (
                Routed::Deliver { target, event },
                Step::Handled { position, event: handled, emitted },
            ) => if target == position && event == handled {
                Some(stack.drop_last() + fan_out(chain, position as int, emitted))
            } else {
                None
            },
            _ => None,
        }
    }
}

/// What is left to do after the steps of `trace`, taken in order from
/// `stack`; nothing if the steps are not those of a walk from `stack`.
pub open spec fn replay<R, W>(
    chain: Chain,
    stack: Seq<Routed<Event<R, W>>>,
    trace: Seq<Step<R, W>>,
) -> Option<Seq<Routed<Event<R, W>>>>
    decreases trace.len(),
{
    if trace.len() == 0 {
        Some(stack)
    } else {
        match replay(chain, stack, trace.drop_last()) {
            Some(left) => after_step(chain, left, trace.last()),
            None => None,
        }
    }
}

/// The steps of `trace` are a whole walk from `stack`: after them nothing
/// is left to do.
pub open spec fn completes<R, W>(
    chain: Chain,
    stack: Seq<Routed<Event<R, W>>>,
    trace: Seq<Step<R, W>>,
) -> bool {
    match replay(chain, stack, trace) {
        Some(left) => left.len() == 0,
        None => false,
    }
}

/// The line that a step leaves in the account of a walk.
pub open spec fn record_of<R, W>(step: Step<R, W>) -> Record {
    match step {
        Step::Handled { position, event, emitted } => Record::Visited {
            position,
            kind: event.kind_of(),
        },
        Step::Dropped { kind } => Record::EndOfPipeline { kind },
    }
}

/// The account of a walk: one line for each step.
pub open spec fn records_of<R, W>(trace: Seq<Step<R, W>>) -> Seq<Record> {
    Seq::new(trace.len(), |i: int| record_of(trace[i]))
}

/// The account of one walk through the chain.
pub struct Report<R, W> {
    /// What happened, in order: the contexts visited and the events that
    /// reached the end of the chain.
    pub records: Vec<Record>,
    /// Whether the walk came to its end. A walk is cut off only where its
    /// account cannot grow any more.
    pub complete: bool,
    /// The steps of the walk, with the events themselves.
    pub trace: Ghost<Seq<Step<R, W>>>,
}

impl<R, W> Report<R, W> {
    /// The report is the account of the walk that `event` makes through
    /// `chain`, entering from outside: its steps are those of the walk, its
    /// lines those of the steps, and it is complete if and only if the
    /// steps are the whole walk.
    pub open spec fn accounts_for(&self, chain: Chain, event: Event<R, W>) -> bool {
        &&& self.records@ == records_of(self.trace@)
        &&& replay(chain, seq![enter(chain, event)], self.trace@) is Some
        &&& self.complete == completes(chain, seq![enter(chain, event)], self.trace@)
        &&& !self.complete ==> self.trace@.len() == usize::MAX
    }
}

/// A walk goes on from where its beginning left off.
pub proof fn lemma_replay_push<R, W>(
    chain: Chain,
    stack: Seq<Routed<Event<R, W>>>,
    trace: Seq<Step<R, W>>,
    step: Step<R, W>,
)
    ensures
        replay(chain, stack, trace.push(step)) == match replay(chain, stack, trace) {
            Some(left) => after_step(chain, left, step),
            None => None,
        },
{
    assert(trace.push(step).drop_last() =~= trace);
}

} // verus!
