//! Walks through a chain whose handlers pass on what they are handed: what
//! the handlers say of themselves fixes which of them a walk visits.

use vstd::prelude::*;
use super::event::{Event, EventKind, InboundEvent, OutboundEvent, Routed};
use super::handler::{Handler, InboundHandler, OutboundHandler};
use super::handler_context::Emitter;
use super::pipeline::Pipeline;
use super::slot::Slot;
use super::visits::{
    forwards_once,
    is_relay,
    lemma_relayed_report_is_complete,
    lemma_report_of_head_event,
    lemma_report_of_tail_event,
    visits_inbound_after,
    visits_outbound_before,
};
use super::walk::{after_step, enter, fan_out, onward, replay, Report, Step};
use super::wiring::Chain;

verus! {

/// Every event on its way in `stack` is one of which `steady` holds.
pub open spec fn steady_stack<R, W>(
    steady: spec_fn(Event<R, W>) -> bool,
    stack: Seq<Routed<Event<R, W>>>,
) -> bool {
    forall|k: int|
        0 <= k < stack.len() ==> (#[trigger] stack[k] matches Routed::Deliver { target, event }
            ==> steady(event))
}

impl<R, W, I, O, B> Pipeline<R, W, I, O, B> where
    I: InboundHandler<R, R, Emitter<InboundEvent<R>>>,
    O: OutboundHandler<W, W, Emitter<OutboundEvent<W>>>,
    B: Handler<R, R, W, W, Emitter<Event<R, W>>>,
 {
    /// Whatever handler a context of this pipeline may hold: handed an
    /// event of which `steady` holds, in a context that takes the event and
    /// holds nothing, it fires exactly one event, which goes the same way
    /// and of which `steady` holds again.
    pub open spec fn relays_steadily(steady: spec_fn(Event<R, W>) -> bool) -> bool {
        forall|slot: Slot<R, W, I, O, B>, event: Event<R, W>, after: Slot<R, W, I, O, B>|
            steady(event) && slot.idle() && slot.takes(event) && #[trigger] slot.accepts(
                event,
                &after,
            ) ==> {
                &&& after.fired().len() == 1
                &&& steady(after.fired()[0])
                &&& (after.fired()[0] is Inbound) == (event is Inbound)
            }
    }

    /// Whatever handler a context of this pipeline may hold, it says of
    /// itself that it passes events of `kind` on as they are.
    pub open spec fn all_pass_on(kind: EventKind) -> bool {
        forall|slot: Slot<R, W, I, O, B>, event: Event<R, W>|
            event.kind_of() == kind && #[trigger] slot.takes(event) ==> slot.passes(event)
    }

    /// Handlers that pass events of a kind on as they are relay them
    /// steadily: the one event that each fires is the event that it was
    /// handed.
    pub proof fn lemma_passing_on_is_steady(kind: EventKind)
        requires
            Self::all_pass_on(kind),
        ensures
            Self::relays_steadily(|event: Event<R, W>| event.kind_of() == kind),
    {
        let steady = |event: Event<R, W>| event.kind_of() == kind;
        assert forall|slot: Slot<R, W, I, O, B>, event: Event<R, W>, after: Slot<R, W, I, O, B>|
            steady(event) && slot.idle() && slot.takes(event) && #[trigger] slot.accepts(
                event,
                &after,
            ) implies {
            &&& after.fired().len() == 1
            &&& steady(after.fired()[0])
            &&& (after.fired()[0] is Inbound) == (event is Inbound)
        } by {
            assert(slot.passes(event));
            assert(after.fired() == slot.fired().push(event));
            assert(slot.fired().push(event) =~= seq![event]);
        }
    }

    /// In a walk through handlers that relay steadily, begun with an event
    /// of which `steady` holds, every handler visited fired exactly one
    /// event, and `steady` holds of every event still on its way.
    pub proof fn lemma_steady_steps(
        steady: spec_fn(Event<R, W>) -> bool,
        chain: Chain,
        first: Routed<Event<R, W>>,
        start: Seq<Slot<R, W, I, O, B>>,
        trace: Seq<Step<R, W>>,
        end: Seq<Slot<R, W, I, O, B>>,
        history: Seq<Seq<Slot<R, W, I, O, B>>>,
    )
        requires
            Self::relays_steadily(steady),
            steady_stack(steady, seq![first]),
            replay(chain, seq![first], trace) is Some,
            Self::is_history(start, trace, end, history),
        ensures
            forwards_once(trace),
            steady_stack(steady, replay(chain, seq![first], trace)->0),
        decreases trace.len(),
    {
        if trace.len() > 0 {
            let front = trace.drop_last();
            let told = history.drop_last();
            let last = trace.len() - 1;
            assert forall|k: int| 0 <= k < front.len() implies Self::step_takes(
                told[k],
                #[trigger] front[k],
                told[k + 1],
            ) by {
                assert(front[k] == trace[k]);
            }
            assert(Self::is_history(start, front, told.last(), told));
            Self::lemma_steady_steps(steady, chain, first, start, front, told.last(), told);
            let left = replay(chain, seq![first], front)->0;
            let step = trace.last();
            assert(trace[last] == step);
            assert(Self::step_takes(history[last], step, history[last + 1]));
            assert(after_step(chain, left, step) is Some);
            let next = after_step(chain, left, step)->0;
            match step {
                Step::Dropped { kind } => {
                    assert(next == left.drop_last());
                },
                Step::Handled { position, event, emitted } => {
                    assert(left.last() == Routed::Deliver { target: position, event });
                    assert(steady(event));
                    let before = history[last][position as int];
                    let handled = choose|handled: Slot<R, W, I, O, B>|
                        {
                            &&& #[trigger] before.accepts(event, &handled)
                            &&& emitted == handled.fired()
                            &&& handled.settles(&history[last + 1][position as int])
                        };
                    assert(before.accepts(event, &handled));
                    assert(emitted.len() == 1);
                    assert(steady(emitted[0]));
                    assert(next == left.drop_last() + fan_out(chain, position as int, emitted));
                    assert forall|k: int| 0 <= k < next.len() implies (
                    #[trigger] next[k] matches Routed::Deliver { target, event } ==> steady(
                        event,
                    )) by {
                        if k < left.len() - 1 {
                            assert(next[k] == left[k]);
                        } else {
                            assert(next[k] == onward(chain, position as int, emitted[0]));
                        }
                    }
                },
            }
            assert forall|k: int| 0 <= k < trace.len() implies match #[trigger] trace[k] {
                Step::Handled { position, event, emitted } => emitted.len() == 1 && (emitted[0]
                    is Inbound) == (event is Inbound),
                Step::Dropped { kind } => true,
            } by {
                if k < last {
                    assert(trace[k] == front[k]);
                }
            }
        }
    }

    /// The account of an event fired into a chain whose handlers relay
    /// steadily: every handler visited passed on one event, and the walk is
    /// complete. If the chain is assembled, the handlers visited are
    /// exactly those that take events of the direction, in the order of
    /// the chain for an inbound event and in the reverse order for an
    /// outbound one, each handed what the one before fired, and the walk
    /// ends with the one notice that the event reached the end.
    pub proof fn lemma_steady_walk(
        steady: spec_fn(Event<R, W>) -> bool,
        report: Report<R, W>,
        chain: Chain,
        event: Event<R, W>,
        start: Seq<Slot<R, W, I, O, B>>,
        end: Seq<Slot<R, W, I, O, B>>,
    )
        requires
            report.accounts_for(chain, event),
            Self::walked(start, report.trace@, end),
            Self::relays_steadily(steady),
            steady(event),
            chain.dirs.len() < usize::MAX,
        ensures
            forwards_once(report.trace@),
            report.complete,
            chain.wired ==> is_relay(event, report.trace@),
            chain.wired && event is Inbound ==> visits_inbound_after(
                chain.dirs,
                -1,
                report.trace@,
            ),
            chain.wired && event is Outbound ==> visits_outbound_before(
                chain.dirs,
                chain.dirs.len() as int,
                report.trace@,
            ),
    {
        let history = choose|history: Seq<Seq<Slot<R, W, I, O, B>>>|
            Self::is_history(start, report.trace@, end, history);
        Self::lemma_steady_steps(
            steady,
            chain,
            enter(chain, event),
            start,
            report.trace@,
            end,
            history,
        );
        lemma_relayed_report_is_complete(report, chain, event);
        if chain.wired {
            if event is Inbound {
                lemma_report_of_head_event(report, chain, event);
            } else {
                lemma_report_of_tail_event(report, chain, event);
            }
        }
    }

    /// The account of an event fired into a chain whose handlers all pass
    /// events of its kind on as they are, as a close is passed on by
    /// handlers that keep what their trait gives: the walk is complete, and
    /// in an assembled chain it visits exactly the handlers that take
    /// events of the direction, in order, each with the event itself, and
    /// ends with the one notice that the event reached the end.
    pub proof fn lemma_passed_on_walk(
        report: Report<R, W>,
        chain: Chain,
        event: Event<R, W>,
        start: Seq<Slot<R, W, I, O, B>>,
        end: Seq<Slot<R, W, I, O, B>>,
    )
        requires
            report.accounts_for(chain, event),
            Self::walked(start, report.trace@, end),
            Self::all_pass_on(event.kind_of()),
            chain.dirs.len() < usize::MAX,
        ensures
            forwards_once(report.trace@),
            report.complete,
            chain.wired ==> is_relay(event, report.trace@),
            chain.wired && event is Inbound ==> visits_inbound_after(
                chain.dirs,
                -1,
                report.trace@,
            ),
            chain.wired && event is Outbound ==> visits_outbound_before(
                chain.dirs,
                chain.dirs.len() as int,
                report.trace@,
            ),
    {
        let kind = event.kind_of();
        Self::lemma_passing_on_is_steady(kind);
        Self::lemma_steady_walk(
            |e: Event<R, W>| e.kind_of() == kind,
            report,
            chain,
            event,
            start,
            end,
        );
    }
}

} // verus!
