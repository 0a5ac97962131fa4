//! Which contexts a walk visits, and in what order: what follows from the
//! links when every handler passes on what it is handed.

use vstd::prelude::*;
use super::event::{Event, Record, Routed};
use super::handler::HandlerDir;
use super::walk::{
    after_step,
    completes,
    enter,
    fan_out,
    records_of,
    replay,
    send,
    Report,
    Step,
};
use super::wiring::{
    lemma_next_inbound,
    lemma_prev_outbound,
    next_inbound,
    prev_outbound,
    Chain,
};

verus! {

/// Every handler of the walk fires exactly one event, of the direction of
/// the event that it was handed: it passes the event on, as it is or
/// changed.
pub open spec fn forwards_once<R, W>(trace: Seq<Step<R, W>>) -> bool {
    forall|k: int|
        0 <= k < trace.len() ==> match #[trigger] trace[k] {
            Step::Handled { position, event, emitted } => emitted.len() == 1 && (emitted[0]
                is Inbound) == (event is Inbound),
            Step::Dropped { kind } => true,
        }
}

/// The position of a step at which a handler was visited.
pub open spec fn position_of<R, W>(step: Step<R, W>) -> int {
    match step {
        Step::Handled { position, event, emitted } => position as int,
        Step::Dropped { kind } => -1,
    }
}

/// The event that a handler was handed at a step.
pub open spec fn handed<R, W>(step: Step<R, W>) -> Event<R, W>
    recommends
        step is Handled,
{
    step->event
}

/// The one event that a handler fired at a step.
pub open spec fn passed_on<R, W>(step: Step<R, W>) -> Event<R, W>
    recommends
        step is Handled,
{
    step->emitted[0]
}

/// The trace is that of an event which goes from handler to handler until
/// it falls off the end: all steps but the last visit a handler, the first
/// is handed `event`, each later one what the one before passed on, and
/// the last step drops what the last handler passed on.
pub open spec fn is_relay<R, W>(event: Event<R, W>, trace: Seq<Step<R, W>>) -> bool {
    let visits = trace.len() - 1;
    &&& trace.len() >= 1
    &&& forall|k: int|
        0 <= k < visits ==> (#[trigger] trace[k]) is Handled && trace[k]->emitted.len() == 1
    &&& visits > 0 ==> handed(trace[0]) == event
    &&& forall|k: int| 0 < k < visits ==> handed(#[trigger] trace[k]) == passed_on(trace[k - 1])
    &&& trace.last() == Step::<R, W>::Dropped {
        kind: if visits == 0 {
            event.kind_of()
        } else {
            passed_on(trace[visits - 1]).kind_of()
        },
    }
}

/// The handlers visited are exactly those after position `from` that take
/// inbound events, in the order of the chain.
pub open spec fn visits_inbound_after<R, W>(
    dirs: Seq<HandlerDir>,
    from: int,
    trace: Seq<Step<R, W>>,
) -> bool {
    let visits = trace.len() - 1;
    &&& forall|k: int|
        0 <= k < visits ==> from < position_of(#[trigger] trace[k]) < dirs.len()
            && dirs[position_of(trace[k])].inbound()
    &&& forall|k: int, l: int|
        0 <= k < l < visits ==> position_of(#[trigger] trace[k]) < position_of(
            #[trigger] trace[l],
        )
    &&& forall|i: int|
        from < i < dirs.len() && (#[trigger] dirs[i]).inbound() ==> exists|k: int|
            0 <= k < visits && position_of(#[trigger] trace[k]) == i
}

/// The handlers visited are exactly those before position `from` that take
/// outbound events, in the reverse of the order of the chain.
pub open spec fn visits_outbound_before<R, W>(
    dirs: Seq<HandlerDir>,
    from: int,
    trace: Seq<Step<R, W>>,
) -> bool {
    let visits = trace.len() - 1;
    &&& forall|k: int|
        0 <= k < visits ==> 0 <= position_of(#[trigger] trace[k]) < from && dirs[position_of(
            trace[k],
        )].outbound()
    &&& forall|k: int, l: int|
        0 <= k < l < visits ==> position_of(#[trigger] trace[k]) > position_of(
            #[trigger] trace[l],
        )
    &&& forall|i: int|
        0 <= i < from && (#[trigger] dirs[i]).outbound() ==> exists|k: int|
            0 <= k < visits && position_of(#[trigger] trace[k]) == i
}

/// A walk can be followed from its first step: what is left after the
/// whole is what is left after the rest, taken from what the first step
/// leaves.
pub proof fn lemma_replay_front<R, W>(
    chain: Chain,
    stack: Seq<Routed<Event<R, W>>>,
    trace: Seq<Step<R, W>>,
)
    requires
        trace.len() > 0,
    ensures
        replay(chain, stack, trace) == match after_step(chain, stack, trace[0]) {
            Some(left) => replay(chain, left, trace.drop_first()),
            None => None,
        },
    decreases trace.len(),
{
    if trace.len() == 1 {
        assert(trace.drop_last().len() == 0);
        assert(trace.drop_first().len() == 0);
        assert(trace.last() == trace[0]);
    } else {
        let front = trace.drop_last();
        lemma_replay_front(chain, stack, front);
        assert(front[0] == trace[0]);
        assert(front.drop_first() =~= trace.drop_first().drop_last());
        assert(trace.drop_first().last() == trace.last());
    }
}

/// Where nothing is left to do, no step can follow.
pub proof fn lemma_replay_done<R, W>(chain: Chain, trace: Seq<Step<R, W>>)
    requires
        replay(chain, Seq::<Routed<Event<R, W>>>::empty(), trace) is Some,
    ensures
        trace.len() == 0,
{
    if trace.len() > 0 {
        lemma_replay_front(chain, Seq::<Routed<Event<R, W>>>::empty(), trace);
    }
}

/// A relay goes on from the handler that passes its event on: if the rest
/// of the trace relays what the first step fired, the whole relays what
/// the first step was handed.
pub proof fn lemma_relay_goes_on<R, W>(event: Event<R, W>, trace: Seq<Step<R, W>>)
    requires
        trace.len() >= 2,
        trace[0] is Handled,
        handed(trace[0]) == event,
        trace[0]->emitted.len() == 1,
        is_relay(passed_on(trace[0]), trace.drop_first()),
    ensures
        is_relay(event, trace),
{
    let rest = trace.drop_first();
    let visits = trace.len() - 1;
    assert forall|k: int| 0 <= k < visits implies (#[trigger] trace[k]) is Handled
        && trace[k]->emitted.len() == 1 by {
        if k > 0 {
            assert(trace[k] == rest[k - 1]);
        }
    }
    assert forall|k: int| 0 < k < visits implies handed(#[trigger] trace[k]) == passed_on(
        trace[k - 1],
    ) by {
        assert(trace[k] == rest[k - 1]);
        if k > 1 {
            assert(trace[k - 1] == rest[k - 2]);
        }
    }
    assert(trace.last() == rest.last());
    if visits > 1 {
        assert(trace[visits - 1] == rest[visits - 2]);
    }
}

/// The first inbound position after `from` comes first, and the inbound
/// positions after it follow.
pub proof fn lemma_inbound_visits_go_on<R, W>(
    dirs: Seq<HandlerDir>,
    from: int,
    trace: Seq<Step<R, W>>,
)
    requires
        trace.len() >= 2,
        next_inbound(dirs, from) == Some(position_of(trace[0])),
        -1 <= from,
        visits_inbound_after(dirs, position_of(trace[0]), trace.drop_first()),
    ensures
        visits_inbound_after(dirs, from, trace),
{
    let rest = trace.drop_first();
    let visits = trace.len() - 1;
    let j = position_of(trace[0]);
    lemma_next_inbound(dirs, from);
    assert forall|k: int| 0 <= k < visits implies from < position_of(#[trigger] trace[k])
        < dirs.len() && dirs[position_of(trace[k])].inbound() by {
        if k > 0 {
            assert(trace[k] == rest[k - 1]);
        }
    }
    assert forall|k: int, l: int| 0 <= k < l < visits implies position_of(#[trigger] trace[k])
        < position_of(#[trigger] trace[l]) by {
        assert(trace[l] == rest[l - 1]);
        if k > 0 {
            assert(trace[k] == rest[k - 1]);
        }
    }
    assert forall|i: int| from < i < dirs.len() && (#[trigger] dirs[i]).inbound() implies exists|
        k: int,
    |
        0 <= k < visits && position_of(#[trigger] trace[k]) == i by {
        if i == j {
            assert(position_of(trace[0]) == i);
        } else {
            assert(i > j);
            let k = choose|k: int| 0 <= k < rest.len() - 1 && position_of(#[trigger] rest[k]) == i;
            assert(trace[k + 1] == rest[k]);
            assert(position_of(trace[k + 1]) == i);
        }
    }
}

/// The last outbound position before `from` comes first, and the outbound
/// positions before it follow.
pub proof fn lemma_outbound_visits_go_on<R, W>(
    dirs: Seq<HandlerDir>,
    from: int,
    trace: Seq<Step<R, W>>,
)
    requires
        trace.len() >= 2,
        prev_outbound(dirs, from) == Some(position_of(trace[0])),
        from <= dirs.len(),
        visits_outbound_before(dirs, position_of(trace[0]), trace.drop_first()),
    ensures
        visits_outbound_before(dirs, from, trace),
{
    let rest = trace.drop_first();
    let visits = trace.len() - 1;
    let j = position_of(trace[0]);
    lemma_prev_outbound(dirs, from);
    assert forall|k: int| 0 <= k < visits implies 0 <= position_of(#[trigger] trace[k]) < from
        && dirs[position_of(trace[k])].outbound() by {
        if k > 0 {
            assert(trace[k] == rest[k - 1]);
        }
    }
    assert forall|k: int, l: int| 0 <= k < l < visits implies position_of(#[trigger] trace[k])
        > position_of(#[trigger] trace[l]) by {
        assert(trace[l] == rest[l - 1]);
        if k > 0 {
            assert(trace[k] == rest[k - 1]);
        }
    }
    assert forall|i: int| 0 <= i < from && (#[trigger] dirs[i]).outbound() implies exists|k: int|
        0 <= k < visits && position_of(#[trigger] trace[k]) == i by {
        if i == j {
            assert(position_of(trace[0]) == i);
        } else {
            assert(i < j);
            let k = choose|k: int| 0 <= k < rest.len() - 1 && position_of(#[trigger] rest[k]) == i;
            assert(trace[k + 1] == rest[k]);
            assert(position_of(trace[k + 1]) == i);
        }
    }
}

/// The rest of a walk in which every handler passes its event on is such a
/// walk.
pub proof fn lemma_rest_forwards_once<R, W>(trace: Seq<Step<R, W>>)
    requires
        trace.len() > 0,
        forwards_once(trace),
    ensures
        forwards_once(trace.drop_first()),
{
    let rest = trace.drop_first();
    assert forall|k: int| 0 <= k < rest.len() implies match #[trigger] rest[k] {
        Step::Handled { position, event, emitted } => emitted.len() == 1 && (emitted[0]
            is Inbound) == (event is Inbound),
        Step::Dropped { kind } => true,
    } by {
        assert(rest[k] == trace[k + 1]);
    }
}

/// The first step of a walk from one waiting event: an event at the end of
/// the chain is dropped and the walk is over; an event on its way to a
/// position is handled there, and the rest of the walk starts from what the
/// handler fired.
pub proof fn lemma_first_step<R, W>(
    chain: Chain,
    next: Option<int>,
    event: Event<R, W>,
    trace: Seq<Step<R, W>>,
)
    requires
        next matches Some(j) ==> 0 <= j <= usize::MAX,
        completes(chain, seq![send(next, event)], trace),
    ensures
        trace.len() >= 1,
        match next {
            None => trace == seq![Step::<R, W>::Dropped { kind: event.kind_of() }],
            Some(j) => {
                &&& trace[0] is Handled
                &&& position_of(trace[0]) == j
                &&& handed(trace[0]) == event
                &&& completes(chain, fan_out(chain, j, trace[0]->emitted), trace.drop_first())
            },
        },
{
    let stack = seq![send(next, event)];
    assert(trace.len() > 0);
    lemma_replay_front(chain, stack, trace);
    assert(stack.last() == send(next, event));
    assert(stack.drop_last() =~= Seq::<Routed<Event<R, W>>>::empty());
    match next {
        None => {
            lemma_replay_done(chain, trace.drop_first());
            assert(trace =~= seq![Step::<R, W>::Dropped { kind: event.kind_of() }]);
        },
        Some(j) => {
            assert(stack.drop_last() + fan_out(chain, j, trace[0]->emitted) =~= fan_out(
                chain,
                j,
                trace[0]->emitted,
            ));
        },
    }
}

/// An inbound event on its way to the inbound position after `from`, passed
/// on by every handler that it visits, visits exactly the handlers after
/// `from` that take inbound events, in the order of the chain, each with
/// what the one before passed on, and then falls off the end.
pub proof fn lemma_inbound_relay<R, W>(
    chain: Chain,
    from: int,
    event: Event<R, W>,
    trace: Seq<Step<R, W>>,
)
    requires
        chain.wired,
        chain.dirs.len() <= usize::MAX,
        -1 <= from,
        event is Inbound,
        completes(chain, seq![send(next_inbound(chain.dirs, from), event)], trace),
        forwards_once(trace),
    ensures
        is_relay(event, trace),
        visits_inbound_after(chain.dirs, from, trace),
    decreases chain.dirs.len() - from,
{
    let dirs = chain.dirs;
    lemma_next_inbound(dirs, from);
    lemma_first_step(chain, next_inbound(dirs, from), event, trace);
    match next_inbound(dirs, from) {
        None => {},
        Some(j) => {
            let rest = trace.drop_first();
            let next_event = passed_on(trace[0]);
            assert(fan_out(chain, j, trace[0]->emitted) =~= seq![
                send(next_inbound(dirs, j), next_event),
            ]);
            lemma_rest_forwards_once(trace);
            lemma_inbound_relay(chain, j, next_event, rest);
            lemma_relay_goes_on(event, trace);
            lemma_inbound_visits_go_on(dirs, from, trace);
        },
    }
}

/// An outbound event on its way to the outbound position before `from`,
/// passed on by every handler that it visits, visits exactly the handlers
/// before `from` that take outbound events, in the reverse of the order of
/// the chain, each with what the one before passed on, and then falls off
/// the end.
pub proof fn lemma_outbound_relay<R, W>(
    chain: Chain,
    from: int,
    event: Event<R, W>,
    trace: Seq<Step<R, W>>,
)
    requires
        chain.wired,
        chain.dirs.len() <= usize::MAX,
        from <= chain.dirs.len(),
        event is Outbound,
        completes(chain, seq![send(prev_outbound(chain.dirs, from), event)], trace),
        forwards_once(trace),
    ensures
        is_relay(event, trace),
        visits_outbound_before(chain.dirs, from, trace),
    decreases from,
{
    let dirs = chain.dirs;
    lemma_prev_outbound(dirs, from);
    lemma_first_step(chain, prev_outbound(dirs, from), event, trace);
    match prev_outbound(dirs, from) {
        None => {},
        Some(j) => {
            let rest = trace.drop_first();
            let next_event = passed_on(trace[0]);
            assert(fan_out(chain, j, trace[0]->emitted) =~= seq![
                send(prev_outbound(dirs, j), next_event),
            ]);
            lemma_rest_forwards_once(trace);
            lemma_outbound_relay(chain, j, next_event, rest);
            lemma_relay_goes_on(event, trace);
            lemma_outbound_visits_go_on(dirs, from, trace);
        },
    }
}

/// A read fired at the head of an assembled chain, passed on by every
/// handler that it visits, visits exactly the handlers that take inbound
/// events, in the order of the chain: the first is handed what was fired,
/// each later one what the one before passed on, and what the last passes
/// on falls off the end.
pub proof fn lemma_head_event_visits_inbound_handlers<R, W>(
    chain: Chain,
    event: Event<R, W>,
    trace: Seq<Step<R, W>>,
)
    requires
        chain.wired,
        chain.dirs.len() <= usize::MAX,
        event is Inbound,
        completes(chain, seq![enter(chain, event)], trace),
        forwards_once(trace),
    ensures
        is_relay(event, trace),
        visits_inbound_after(chain.dirs, -1, trace),
{
    lemma_inbound_relay(chain, -1, event, trace);
}

/// A write or a close fired at the tail of an assembled chain, passed on by
/// every handler that it visits, visits exactly the handlers that take
/// outbound events, in the reverse of the order of the chain, and what the
/// last passes on falls off the end.
pub proof fn lemma_tail_event_visits_outbound_handlers<R, W>(
    chain: Chain,
    event: Event<R, W>,
    trace: Seq<Step<R, W>>,
)
    requires
        chain.wired,
        chain.dirs.len() <= usize::MAX,
        event is Outbound,
        completes(chain, seq![enter(chain, event)], trace),
        forwards_once(trace),
    ensures
        is_relay(event, trace),
        visits_outbound_before(chain.dirs, chain.dirs.len() as int, trace),
{
    lemma_outbound_relay(chain, chain.dirs.len() as int, event, trace);
}

/// A walk of an inbound event that every handler passes on, and that is
/// not over yet, has visited one handler after `from` at each step: it
/// has no more steps than there are positions after `from`.
pub proof fn lemma_unfinished_inbound_relay<R, W>(
    chain: Chain,
    from: int,
    event: Event<R, W>,
    trace: Seq<Step<R, W>>,
)
    requires
        chain.wired,
        chain.dirs.len() <= usize::MAX,
        -1 <= from <= chain.dirs.len() - 1,
        event is Inbound,
        forwards_once(trace),
        replay(chain, seq![send(next_inbound(chain.dirs, from), event)], trace) is Some,
        !completes(chain, seq![send(next_inbound(chain.dirs, from), event)], trace),
    ensures
        trace.len() <= chain.dirs.len() - 1 - from,
    decreases trace.len(),
{
    let dirs = chain.dirs;
    let stack = seq![send(next_inbound(dirs, from), event)];
    if trace.len() > 0 {
        lemma_next_inbound(dirs, from);
        lemma_replay_front(chain, stack, trace);
        let rest = trace.drop_first();
        assert(stack.last() == send(next_inbound(dirs, from), event));
        assert(stack.drop_last() =~= Seq::<Routed<Event<R, W>>>::empty());
        match next_inbound(dirs, from) {
            None => {
                lemma_replay_done(chain, rest);
            },
            Some(j) => {
                let next_event = passed_on(trace[0]);
                assert(stack.drop_last() + fan_out(chain, j, trace[0]->emitted) =~= seq![
                    send(next_inbound(dirs, j), next_event),
                ]);
                lemma_rest_forwards_once(trace);
                lemma_unfinished_inbound_relay(chain, j, next_event, rest);
            },
        }
    }
}

/// A walk of an outbound event that every handler passes on, and that is
/// not over yet, has visited one handler before `from` at each step: it
/// has no more steps than there are positions before `from`.
pub proof fn lemma_unfinished_outbound_relay<R, W>(
    chain: Chain,
    from: int,
    event: Event<R, W>,
    trace: Seq<Step<R, W>>,
)
    requires
        chain.wired,
        chain.dirs.len() <= usize::MAX,
        0 <= from <= chain.dirs.len(),
        event is Outbound,
        forwards_once(trace),
        replay(chain, seq![send(prev_outbound(chain.dirs, from), event)], trace) is Some,
        !completes(chain, seq![send(prev_outbound(chain.dirs, from), event)], trace),
    ensures
        trace.len() <= from,
    decreases trace.len(),
{
    let dirs = chain.dirs;
    let stack = seq![send(prev_outbound(dirs, from), event)];
    if trace.len() > 0 {
        lemma_prev_outbound(dirs, from);
        lemma_replay_front(chain, stack, trace);
        let rest = trace.drop_first();
        assert(stack.last() == send(prev_outbound(dirs, from), event));
        assert(stack.drop_last() =~= Seq::<Routed<Event<R, W>>>::empty());
        match prev_outbound(dirs, from) {
            None => {
                lemma_replay_done(chain, rest);
            },
            Some(j) => {
                let next_event = passed_on(trace[0]);
                assert(stack.drop_last() + fan_out(chain, j, trace[0]->emitted) =~= seq![
                    send(prev_outbound(dirs, j), next_event),
                ]);
                lemma_rest_forwards_once(trace);
                lemma_unfinished_outbound_relay(chain, j, next_event, rest);
            },
        }
    }
}

/// The account of a walk in which every handler passed on what it was
/// handed is complete: such a walk visits no position twice, so it is over
/// before its account is full. The one exception would be a chain of as
/// many contexts as a machine can count.
pub proof fn lemma_relayed_report_is_complete<R, W>(
    report: Report<R, W>,
    chain: Chain,
    event: Event<R, W>,
)
    requires
        report.accounts_for(chain, event),
        forwards_once(report.trace@),
        chain.dirs.len() < usize::MAX,
    ensures
        report.complete,
{
    if !chain.wired {
        lemma_report_without_takers(report, chain, event);
    } else if !report.complete {
        if event is Inbound {
            lemma_unfinished_inbound_relay(chain, -1, event, report.trace@);
        } else {
            lemma_unfinished_outbound_relay(
                chain,
                chain.dirs.len() as int,
                event,
                report.trace@,
            );
        }
    }
}

/// The account of a read fired at the head of an assembled chain whose
/// handlers all pass on what they are handed: the handlers that take
/// inbound events were visited, all of them and no others, in the order of
/// the chain, each with what the one before passed on, and the walk ended
/// with the notice that the event reached the end.
pub proof fn lemma_report_of_head_event<R, W>(
    report: Report<R, W>,
    chain: Chain,
    event: Event<R, W>,
)
    requires
        report.accounts_for(chain, event),
        report.complete,
        chain.wired,
        chain.dirs.len() <= usize::MAX,
        event is Inbound,
        forwards_once(report.trace@),
    ensures
        is_relay(event, report.trace@),
        visits_inbound_after(chain.dirs, -1, report.trace@),
{
    lemma_head_event_visits_inbound_handlers(chain, event, report.trace@);
}

/// The account of a write or a close fired at the tail of an assembled
/// chain whose handlers all pass on what they are handed: the handlers
/// that take outbound events were visited, all of them and no others, in
/// the reverse of the order of the chain.
pub proof fn lemma_report_of_tail_event<R, W>(
    report: Report<R, W>,
    chain: Chain,
    event: Event<R, W>,
)
    requires
        report.accounts_for(chain, event),
        report.complete,
        chain.wired,
        chain.dirs.len() <= usize::MAX,
        event is Outbound,
        forwards_once(report.trace@),
    ensures
        is_relay(event, report.trace@),
        visits_outbound_before(chain.dirs, chain.dirs.len() as int, report.trace@),
{
    lemma_tail_event_visits_outbound_handlers(chain, event, report.trace@);
}

/// The account of an event fired into a chain that has no handler for its
/// direction, or has not been assembled: the walk is complete, no handler
/// was visited, and the one line is the notice that the event reached the
/// end.
pub proof fn lemma_report_without_takers<R, W>(
    report: Report<R, W>,
    chain: Chain,
    event: Event<R, W>,
)
    requires
        report.accounts_for(chain, event),
        !chain.wired || (event is Inbound && forall|i: int|
            0 <= i < chain.dirs.len() ==> !(#[trigger] chain.dirs[i]).inbound()) || (event
            is Outbound && forall|i: int|
            0 <= i < chain.dirs.len() ==> !(#[trigger] chain.dirs[i]).outbound()),
    ensures
        report.complete,
        report.trace@ == seq![Step::<R, W>::Dropped { kind: event.kind_of() }],
        report.records@ == seq![Record::EndOfPipeline { kind: event.kind_of() }],
{
    let trace = report.trace@;
    let stack = seq![enter(chain, event)];
    lemma_next_inbound(chain.dirs, -1);
    lemma_prev_outbound(chain.dirs, chain.dirs.len() as int);
    assert(stack.last() == Routed::<Event<R, W>>::EndOfPipeline { kind: event.kind_of() });
    if trace.len() == 0 {
        assert(replay(chain, stack, trace) == Some(stack));
        assert(!report.complete);
    } else {
        lemma_replay_front(chain, stack, trace);
        assert(stack.drop_last() =~= Seq::<Routed<Event<R, W>>>::empty());
        lemma_replay_done(chain, trace.drop_first());
        assert(trace =~= seq![Step::<R, W>::Dropped { kind: event.kind_of() }]);
        assert(records_of(trace) =~= seq![Record::EndOfPipeline { kind: event.kind_of() }]);
    }
}

} // verus!
