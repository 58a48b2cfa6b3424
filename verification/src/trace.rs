use crate::coercion::{coerce_arguments_spec, CoercionErrorView, NamedValueView};
use crate::command::CommandView;
use crate::dispatch::{
    advance_spec, after_checks, begin, hook_result_spec, Event, InvocationView,
    OutcomeView, PipelineView, RequestView, StepView, WaitingView,
};
use vstd::prelude::*;

verus! {

/// Where the pipeline stands after the events have been fed to it one by one.
/// Events that arrive after the pipeline is done are not looked at.
pub open spec fn run<R, E>(step: StepView<R, E>, events: Seq<Event<R, E>>) -> StepView<R, E>
    decreases events.len(),
{
    match step {
        StepView::Done(_) => step,
        StepView::Pending(pipeline, _) => if events.len() == 0 {
            step
        } else {
            run(advance_spec(pipeline, events[0]), events.drop_first())
        },
    }
}

/// Every request that the pipeline makes while the events are fed to it, the
/// one it starts with included.
pub open spec fn requests<R, E>(step: StepView<R, E>, events: Seq<Event<R, E>>) -> Seq<
    RequestView<E>,
>
    decreases events.len(),
{
    match step {
        StepView::Done(_) => Seq::empty(),
        StepView::Pending(pipeline, request) => if events.len() == 0 {
            seq![request]
        } else {
            seq![request] + requests(advance_spec(pipeline, events[0]), events.drop_first())
        },
    }
}

/// A pipeline that waits on the check at position `i`.
pub open spec fn checking<R, E>(command: CommandView, invocation: InvocationView, i: usize) -> StepView<
    R,
    E,
> {
    StepView::Pending(
        PipelineView { command, invocation, waiting: WaitingView::Check(i) },
        RequestView::Check(i),
    )
}

/// The requests for `count` checks in a row, starting at position `from`.
pub open spec fn check_requests<E>(from: usize, count: nat) -> Seq<RequestView<E>> {
    Seq::new(count, |m: int| RequestView::Check((from + m) as usize))
}

/// Whether the first `count` events are passed checks.
pub open spec fn checks_pass<R, E>(events: Seq<Event<R, E>>, count: nat) -> bool {
    &&& events.len() >= count
    &&& forall|m: int| 0 <= m < count ==> events[m] == Event::<R, E>::Check(true)
}

proof fn lemma_failing_check_from<R, E>(
    command: CommandView,
    invocation: InvocationView,
    i: usize,
    events: Seq<Event<R, E>>,
    k: nat,
)
    requires
        command.checks <= usize::MAX,
        i + k < command.checks,
        checks_pass(events, k),
        events.len() > k,
        events[k as int] == Event::<R, E>::Check(false),
    ensures
        run(checking(command, invocation, i), events) == StepView::<R, E>::Done(
            OutcomeView::CheckFailed((i + k) as usize),
        ),
        requests(checking(command, invocation, i), events) == check_requests::<E>(i, k + 1),
    decreases k,
{
    reveal_with_fuel(run, 2);
    reveal_with_fuel(requests, 2);
    let rest = events.drop_first();
    if k == 0 {
        assert(requests(checking(command, invocation, i), events) =~= check_requests::<E>(i, 1));
    } else {
        assert(events[0] == Event::<R, E>::Check(true));
        assert forall|m: int| 0 <= m < k - 1 implies rest[m] == Event::<R, E>::Check(true) by {
            assert(rest[m] == events[m + 1]);
        }
        assert(rest[(k - 1) as int] == events[k as int]);
        lemma_failing_check_from(command, invocation, (i + 1) as usize, rest, (k - 1) as nat);
        assert(requests(checking(command, invocation, i), events) =~= check_requests::<E>(
            i,
            k + 1,
        ));
    }
}

proof fn lemma_passing_checks_from<R, E>(
    command: CommandView,
    invocation: InvocationView,
    i: usize,
    events: Seq<Event<R, E>>,
)
    requires
        command.checks <= usize::MAX,
        i < command.checks,
        checks_pass(events, (command.checks - i) as nat),
    ensures
        run(checking(command, invocation, i), events) == run(
            after_checks(command, invocation),
            events.skip(command.checks - i),
        ),
        requests(checking(command, invocation, i), events) == check_requests::<E>(
            i,
            (command.checks - i) as nat,
        ) + requests(after_checks(command, invocation), events.skip(command.checks - i)),
    decreases command.checks - i,
{
    let rest = events.drop_first();
    let left = command.checks - i;
    assert(events[0] == Event::<R, E>::Check(true));
    if i + 1 < command.checks {
        assert forall|m: int| 0 <= m < left - 1 implies rest[m] == Event::<R, E>::Check(true) by {
            assert(rest[m] == events[m + 1]);
        }
        lemma_passing_checks_from(command, invocation, (i + 1) as usize, rest);
        assert(rest.skip(left - 1) =~= events.skip(left));
        assert(seq![RequestView::<E>::Check(i)] + check_requests::<E>(
            (i + 1) as usize,
            (left - 1) as nat,
        ) =~= check_requests::<E>(i, left as nat));
        assert(requests(checking(command, invocation, i), events) =~= check_requests::<E>(
            i,
            left as nat,
        ) + requests(after_checks(command, invocation), events.skip(left)));
    } else {
        assert(rest =~= events.skip(1));
        assert(seq![RequestView::<E>::Check(i)] =~= check_requests::<E>(i, 1));
    }
}

/// While every check passes, the checks are requested one after the other in
/// declared order, and only then are the arguments coerced.
pub proof fn lemma_checks_run_in_order<R, E>(
    command: CommandView,
    invocation: InvocationView,
    events: Seq<Event<R, E>>,
)
    requires
        command.checks <= usize::MAX,
        checks_pass(events, command.checks),
    ensures
        run(begin(command, invocation), events) == run(
            after_checks(command, invocation),
            events.skip(command.checks as int),
        ),
        requests(begin(command, invocation), events) == check_requests::<E>(0, command.checks)
            + requests(after_checks(command, invocation), events.skip(command.checks as int)),
{
    if command.checks > 0 {
        lemma_passing_checks_from(command, invocation, 0, events);
    } else {
        assert(events.skip(0) =~= events);
        assert(check_requests::<E>(0, 0) + requests(after_checks(command, invocation), events)
            =~= requests(after_checks(command, invocation), events));
    }
}

/// A failing check ends the pipeline at once: the checks before it were the
/// only requests, so neither the before-hook nor the executor ever runs, and
/// the outcome names the check that failed.
pub proof fn lemma_failing_check_ends_run<R, E>(
    command: CommandView,
    invocation: InvocationView,
    events: Seq<Event<R, E>>,
    k: nat,
)
    requires
        command.checks <= usize::MAX,
        k < command.checks,
        checks_pass(events, k),
        events.len() > k,
        events[k as int] == Event::<R, E>::Check(false),
    ensures
        run(begin(command, invocation), events) == StepView::<R, E>::Done(
            OutcomeView::CheckFailed(k as usize),
        ),
        requests(begin(command, invocation), events) == check_requests::<E>(0, k + 1),
        forall|j: int|
            0 <= j < requests(begin(command, invocation), events).len() ==> requests(
                begin(command, invocation),
                events,
            )[j] is Check,
{
    lemma_failing_check_from(command, invocation, 0, events, k);
}

/// A before-hook that returns `false` ends the pipeline as skipped: after the
/// checks and the hook itself nothing is requested, so neither the executor
/// nor the after-hook runs.
pub proof fn lemma_veto_skips_executor<R, E>(
    command: CommandView,
    invocation: InvocationView,
    events: Seq<Event<R, E>>,
)
    requires
        command.checks <= usize::MAX,
        command.before_hook,
        coerce_arguments_spec(command.arguments, invocation.options, invocation.resolved) is Ok,
        checks_pass(events, command.checks),
        events.len() > command.checks,
        events[command.checks as int] == Event::<R, E>::BeforeHook(false),
    ensures
        run(begin(command, invocation), events) == StepView::<R, E>::Done(OutcomeView::Skipped),
        requests(begin(command, invocation), events) == check_requests::<E>(
            0,
            command.checks,
        ).push(RequestView::BeforeHook),
{
    reveal_with_fuel(run, 2);
    reveal_with_fuel(requests, 2);
    lemma_checks_run_in_order(command, invocation, events);
    let rest = events.skip(command.checks as int);
    assert(rest[0] == events[command.checks as int]);
    assert(requests(after_checks::<R, E>(command, invocation), rest) =~= seq![
        RequestView::<E>::BeforeHook,
    ]);
    assert(check_requests::<E>(0, command.checks) + seq![RequestView::<E>::BeforeHook]
        =~= check_requests::<E>(0, command.checks).push(RequestView::BeforeHook));
}

/// A failed coercion ends the pipeline before any hook or the executor runs.
pub proof fn lemma_coercion_failure_ends_run<R, E>(
    command: CommandView,
    invocation: InvocationView,
    events: Seq<Event<R, E>>,
    error: CoercionErrorView,
)
    requires
        command.checks <= usize::MAX,
        coerce_arguments_spec(command.arguments, invocation.options, invocation.resolved) == Err::<
            Seq<NamedValueView>,
            CoercionErrorView,
        >(error),
        checks_pass(events, command.checks),
    ensures
        run(begin(command, invocation), events) == StepView::<R, E>::Done(
            OutcomeView::Coercion(error),
        ),
        requests(begin(command, invocation), events) == check_requests::<E>(0, command.checks),
{
    lemma_checks_run_in_order(command, invocation, events);
    assert(check_requests::<E>(0, command.checks) + Seq::<RequestView<E>>::empty()
        =~= check_requests::<E>(0, command.checks));
}

/// A pipeline whose executor is running.
pub open spec fn executing<R, E>(pipeline: PipelineView<R, E>) -> bool {
    pipeline.waiting == WaitingView::<R, E>::Executor
}

/// The same interaction, waiting on something else.
pub open spec fn waiting_on<R, E>(
    pipeline: PipelineView<R, E>,
    waiting: WaitingView<R, E>,
) -> PipelineView<R, E> {
    PipelineView { command: pipeline.command, invocation: pipeline.invocation, waiting }
}

/// The last move of an interaction with the given outcome: through the
/// after-hook if the command has one, else done at once.
pub open spec fn last_move<R, E>(
    pipeline: PipelineView<R, E>,
    outcome: OutcomeView<R, E>,
) -> StepView<R, E> {
    if pipeline.command.after_hook {
        StepView::Pending(
            waiting_on(pipeline, WaitingView::AfterHook(outcome)),
            RequestView::AfterHook,
        )
    } else {
        StepView::Done(outcome)
    }
}

/// Once the after-hook has run, the outcome that was kept for it is
/// delivered; the hook was shown a result only if that outcome is a success.
pub proof fn lemma_after_hook_delivers<R, E>(
    pipeline: PipelineView<R, E>,
    outcome: OutcomeView<R, E>,
)
    ensures
        advance_spec(
            waiting_on(pipeline, WaitingView::AfterHook(outcome)),
            Event::AfterHookDone,
        ) == StepView::Done(outcome),
        hook_result_spec(waiting_on(pipeline, WaitingView::AfterHook(outcome))) is Some
            <==> outcome is Completed,
        outcome is Completed ==> hook_result_spec(
            waiting_on(pipeline, WaitingView::AfterHook(outcome)),
        ) == Some(outcome->Completed_0),
{
}

/// When the executor fails and the command has an error handler, the handler
/// is given the error. The after-hook, if there is one, then runs and is
/// shown no result, and the outcome says that the error was handled.
pub proof fn lemma_handled_error<R, E>(pipeline: PipelineView<R, E>, error: E)
    requires
        executing(pipeline),
        pipeline.command.error_handler,
    ensures
        advance_spec(pipeline, Event::Executed(Err(error))) == StepView::Pending(
            waiting_on(pipeline, WaitingView::ErrorHandler),
            RequestView::ErrorHandler(error),
        ),
        advance_spec(waiting_on(pipeline, WaitingView::ErrorHandler), Event::ErrorHandled)
            == last_move(pipeline, OutcomeView::ErrorHandled),
        hook_result_spec(
            waiting_on(pipeline, WaitingView::AfterHook(OutcomeView::ErrorHandled)),
        ) is None,
{
}

/// When the executor fails and the command has no error handler, the
/// after-hook, if there is one, runs and is shown no result, and the error is
/// the outcome that the caller receives.
pub proof fn lemma_unhandled_error<R, E>(pipeline: PipelineView<R, E>, error: E)
    requires
        executing(pipeline),
        !pipeline.command.error_handler,
    ensures
        advance_spec(pipeline, Event::Executed(Err(error))) == last_move(
            pipeline,
            OutcomeView::Failed(error),
        ),
        hook_result_spec(
            waiting_on(pipeline, WaitingView::AfterHook(OutcomeView::Failed(error))),
        ) is None,
{
}

/// When the executor succeeds, the after-hook, if there is one, runs and is
/// shown the value, and the value is the outcome.
pub proof fn lemma_success<R, E>(pipeline: PipelineView<R, E>, value: R)
    requires
        executing(pipeline),
    ensures
        advance_spec(pipeline, Event::Executed(Ok(value))) == last_move(
            pipeline,
            OutcomeView::Completed(value),
        ),
        hook_result_spec(
            waiting_on(pipeline, WaitingView::AfterHook(OutcomeView::Completed(value))),
        ) == Some(value),
{
}

/// The events of an interaction in which nothing stops the executor from
/// running, from the before-hook on: the before-hook, if there is one, lets
/// the command pass; the executor returns `executed`; the error handler, if
/// there is one and the executor failed, and the after-hook, if there is one,
/// run to their end.
pub open spec fn events_from_before_hook<R, E>(
    command: CommandView,
    executed: Result<R, E>,
) -> Seq<Event<R, E>> {
    (if command.before_hook {
        seq![Event::<R, E>::BeforeHook(true)]
    } else {
        Seq::empty()
    }) + seq![Event::Executed(executed)] + (if command.error_handler && executed is Err {
        seq![Event::<R, E>::ErrorHandled]
    } else {
        Seq::empty()
    }) + (if command.after_hook {
        seq![Event::<R, E>::AfterHookDone]
    } else {
        Seq::empty()
    })
}

/// The requests that answer to `events_from_before_hook`, in order: the
/// before-hook, the executor with the coerced arguments, the error handler
/// with the executor's error, and the after-hook.
pub open spec fn requests_from_before_hook<R, E>(
    command: CommandView,
    values: Seq<NamedValueView>,
    executed: Result<R, E>,
) -> Seq<RequestView<E>> {
    (if command.before_hook {
        seq![RequestView::<E>::BeforeHook]
    } else {
        Seq::empty()
    }) + seq![RequestView::Execute(values)] + (if command.error_handler && executed is Err {
        seq![RequestView::ErrorHandler(executed->Err_0)]
    } else {
        Seq::empty()
    }) + (if command.after_hook {
        seq![RequestView::<E>::AfterHook]
    } else {
        Seq::empty()
    })
}

/// The outcome of an interaction whose executor returned `executed`: its
/// value, or its error unless the command's error handler took it.
pub open spec fn outcome_of<R, E>(command: CommandView, executed: Result<R, E>) -> OutcomeView<
    R,
    E,
> {
    match executed {
        Ok(value) => OutcomeView::Completed(value),
        Err(error) => if command.error_handler {
            OutcomeView::ErrorHandled
        } else {
            OutcomeView::Failed(error)
        },
    }
}

/// The order of a whole interaction: every check in declared order, then the
/// before-hook, the executor with the coerced arguments, the error handler
/// if the executor failed, and the after-hook, each only where the command
/// has it; then the outcome is delivered.
pub proof fn lemma_whole_run<R, E>(
    command: CommandView,
    invocation: InvocationView,
    events: Seq<Event<R, E>>,
    values: Seq<NamedValueView>,
    executed: Result<R, E>,
)
    requires
        command.checks <= usize::MAX,
        coerce_arguments_spec(command.arguments, invocation.options, invocation.resolved) == Ok::<
            Seq<NamedValueView>,
            CoercionErrorView,
        >(values),
        checks_pass(events, command.checks),
        events.skip(command.checks as int) == events_from_before_hook(command, executed),
    ensures
        run(begin(command, invocation), events) == StepView::Done(outcome_of(command, executed)),
        requests(begin(command, invocation), events) == check_requests::<E>(0, command.checks)
            + requests_from_before_hook(command, values, executed),
{
    reveal_with_fuel(run, 5);
    reveal_with_fuel(requests, 5);
    lemma_checks_run_in_order(command, invocation, events);
    let rest = events.skip(command.checks as int);
    let first = after_checks::<R, E>(command, invocation);
    let wanted = requests_from_before_hook(command, values, executed);
    let handled = command.error_handler && executed is Err;
    assert(rest.len() == (if command.before_hook { 1int } else { 0 }) + 1 + (if handled { 1int } else { 0 })
        + (if command.after_hook { 1int } else { 0 }));
    let a = rest.drop_first();
    let b = a.drop_first();
    let c = b.drop_first();
    if command.before_hook {
        assert(rest[0] == Event::<R, E>::BeforeHook(true));
        assert(a[0] == Event::<R, E>::Executed(executed));
        if handled {
            assert(b[0] == Event::<R, E>::ErrorHandled);
            if command.after_hook {
                assert(c[0] == Event::<R, E>::AfterHookDone);
            }
        } else if command.after_hook {
            assert(b[0] == Event::<R, E>::AfterHookDone);
        }
    } else {
        assert(rest[0] == Event::<R, E>::Executed(executed));
        if handled {
            assert(a[0] == Event::<R, E>::ErrorHandled);
            if command.after_hook {
                assert(b[0] == Event::<R, E>::AfterHookDone);
            }
        } else if command.after_hook {
            assert(a[0] == Event::<R, E>::AfterHookDone);
        }
    }
    assert(run(first, rest) == StepView::Done(outcome_of(command, executed)));
    assert(requests(first, rest) =~= wanted);
}

} // verus!
