use crate::coercion::{
    coerce_arguments, coerce_arguments_spec, named_value_views, option_views, CoercionError,
    CoercionErrorView, NamedValue, NamedValueView, RawOption, RawOptionView, Resolved,
    ResolvedView,
};
use crate::command::{Command, CommandPath, CommandView, PathView};
use crate::hook::Hooks;
use crate::registry::{find, Registry};
use vstd::prelude::*;

verus! {

/// A command invocation as the transport decoded it.
#[derive(Clone, Debug, PartialEq, Eq)]
pub struct Invocation {
    pub path: CommandPath,
    pub options: Vec<RawOption>,
    pub resolved: Resolved,
}

pub struct InvocationView {
    pub path: PathView,
    pub options: Seq<RawOptionView>,
    pub resolved: ResolvedView,
}

impl View for Invocation {
    type V = InvocationView;

    open spec fn view(&self) -> InvocationView {
        InvocationView {
            path: self.path@,
            options: option_views(self.options@),
            resolved: self.resolved@,
        }
    }
}

/// The states an interaction passes through. A pending pipeline is observed
/// in `Resolved`, `Coerced`, `Executing` or `AfterHookOrErrorHandlerRun`; the
/// others are passed without outside work.
#[derive(Clone, Copy, Debug, PartialEq, Eq, Structural)]
pub enum Stage {
    Received,
    Resolved,
    PermissionChecked,
    Coerced,
    BeforeHookRun,
    Executing,
    AfterHookOrErrorHandlerRun,
    Completed,
}

/// Work that the pipeline asks the integrator to perform.
#[derive(Debug, PartialEq, Eq)]
pub enum Request<E> {
    /// Run the check at this position of the command's `checks`.
    Check(usize),
    /// Run the before-hook with the command's name.
    BeforeHook,
    /// Run the executor with these arguments.
    Execute(Vec<NamedValue>),
    /// Hand the executor's error to the command's error handler.
    ErrorHandler(E),
    /// Run the after-hook with the command's name and `Pipeline::hook_result`.
    AfterHook,
}

pub enum RequestView<E> {
    Check(usize),
    BeforeHook,
    Execute(Seq<NamedValueView>),
    ErrorHandler(E),
    AfterHook,
}

impl<E> View for Request<E> {
    type V = RequestView<E>;

    open spec fn view(&self) -> RequestView<E> {
        match self {
            Request::Check(i) => RequestView::Check(*i),
            Request::BeforeHook => RequestView::BeforeHook,
            Request::Execute(values) => RequestView::Execute(named_value_views(values@)),
            Request::ErrorHandler(error) => RequestView::ErrorHandler(*error),
            Request::AfterHook => RequestView::AfterHook,
        }
    }
}

/// What came back from the work that was asked for.
#[derive(Debug, PartialEq, Eq)]
pub enum Event<R, E> {
    Check(bool),
    BeforeHook(bool),
    Executed(Result<R, E>),
    ErrorHandled,
    AfterHookDone,
}

/// How the pipeline ended for one interaction.
#[derive(Debug, PartialEq, Eq)]
pub enum Outcome<R, E> {
    /// No command is registered under the interaction's path.
    UnknownCommand,
    /// The check at this position failed.
    CheckFailed(usize),
    /// An argument could not be coerced.
    Coercion(CoercionError),
    /// The before-hook vetoed the command; the executor did not run.
    Skipped,
    /// The executor succeeded with this value.
    Completed(R),
    /// The executor failed and the command's error handler took the error.
    ErrorHandled,
    /// The executor failed with this error and no handler was set.
    Failed(E),
    /// An event arrived that answers no pending request.
    UnexpectedEvent,
}

pub enum OutcomeView<R, E> {
    UnknownCommand,
    CheckFailed(usize),
    Coercion(CoercionErrorView),
    Skipped,
    Completed(R),
    ErrorHandled,
    Failed(E),
    UnexpectedEvent,
}

impl<R, E> View for Outcome<R, E> {
    type V = OutcomeView<R, E>;

    open spec fn view(&self) -> OutcomeView<R, E> {
        match self {
            Outcome::UnknownCommand => OutcomeView::UnknownCommand,
            Outcome::CheckFailed(i) => OutcomeView::CheckFailed(*i),
            Outcome::Coercion(error) => OutcomeView::Coercion(error@),
            Outcome::Skipped => OutcomeView::Skipped,
            Outcome::Completed(value) => OutcomeView::Completed(*value),
            Outcome::ErrorHandled => OutcomeView::ErrorHandled,
            Outcome::Failed(error) => OutcomeView::Failed(*error),
            Outcome::UnexpectedEvent => OutcomeView::UnexpectedEvent,
        }
    }
}

/// The request that a pending pipeline waits on, with what it keeps for later.
enum Waiting<R, E> {
    Check(usize),
    BeforeHook(Vec<NamedValue>),
    Executor,
    ErrorHandler,
    AfterHook(Outcome<R, E>),
}

pub enum WaitingView<R, E> {
    /// The check at this position is running.
    Check(usize),
    /// The before-hook is running; the coerced arguments are kept.
    BeforeHook(Seq<NamedValueView>),
    /// The executor is running.
    Executor,
    /// The error handler is running.
    ErrorHandler,
    /// The after-hook is running; the outcome to deliver is kept.
    AfterHook(OutcomeView<R, E>),
}

impl<R, E> View for Waiting<R, E> {
    type V = WaitingView<R, E>;

    closed spec fn view(&self) -> WaitingView<R, E> {
        match self {
            Waiting::Check(i) => WaitingView::Check(*i),
            Waiting::BeforeHook(values) => WaitingView::BeforeHook(named_value_views(values@)),
            Waiting::Executor => WaitingView::Executor,
            Waiting::ErrorHandler => WaitingView::ErrorHandler,
            Waiting::AfterHook(outcome) => WaitingView::AfterHook(outcome@),
        }
    }
}

/// An interaction on its way through the pipeline of one command.
pub struct Pipeline<'a, K: Hooks, R, E> {
    command: &'a Command<K>,
    invocation: &'a Invocation,
    waiting: Waiting<R, E>,
}

pub struct PipelineView<R, E> {
    pub command: CommandView,
    pub invocation: InvocationView,
    pub waiting: WaitingView<R, E>,
}

impl<'a, K: Hooks, R, E> View for Pipeline<'a, K, R, E> {
    type V = PipelineView<R, E>;

    closed spec fn view(&self) -> PipelineView<R, E> {
        PipelineView {
            command: self.command@,
            invocation: self.invocation@,
            waiting: self.waiting@,
        }
    }
}

/// The pipeline after one move: waiting on a request, or done.
pub enum Step<'a, K: Hooks, R, E> {
    Pending(Pipeline<'a, K, R, E>, Request<E>),
    Done(Outcome<R, E>),
}

pub enum StepView<R, E> {
    Pending(PipelineView<R, E>, RequestView<E>),
    Done(OutcomeView<R, E>),
}

impl<'a, K: Hooks, R, E> View for Step<'a, K, R, E> {
    type V = StepView<R, E>;

    open spec fn view(&self) -> StepView<R, E> {
        match self {
            Step::Pending(pipeline, request) => StepView::Pending(pipeline@, request@),
            Step::Done(outcome) => StepView::Done(outcome@),
        }
    }
}

/// The move once every check has passed: the arguments are coerced, and the
/// first failure ends the pipeline; otherwise the before-hook runs if there
/// is one, else the executor.
pub open spec fn after_checks<R, E>(
    command: CommandView,
    invocation: InvocationView,
) -> StepView<R, E> {
    match coerce_arguments_spec(command.arguments, invocation.options, invocation.resolved) {
        Err(error) => StepView::Done(OutcomeView::Coercion(error)),
        Ok(values) => if command.before_hook {
            StepView::Pending(
                PipelineView { command, invocation, waiting: WaitingView::BeforeHook(values) },
                RequestView::BeforeHook,
            )
        } else {
            StepView::Pending(
                PipelineView { command, invocation, waiting: WaitingView::Executor },
                RequestView::Execute(values),
            )
        },
    }
}

/// The first move for a resolved command: its first check, if it has any.
pub open spec fn begin<R, E>(command: CommandView, invocation: InvocationView) -> StepView<R, E> {
    if command.checks > 0 {
        StepView::Pending(
            PipelineView { command, invocation, waiting: WaitingView::Check(0) },
            RequestView::Check(0),
        )
    } else {
        after_checks(command, invocation)
    }
}

/// The first move for an interaction: an unknown path ends the pipeline.
pub open spec fn start_spec<K: Hooks, R, E>(
    commands: Seq<Command<K>>,
    invocation: InvocationView,
) -> StepView<R, E> {
    match find(commands, invocation.path) {
        None => StepView::Done(OutcomeView::UnknownCommand),
        Some(i) => begin(commands[i]@, invocation),
    }
}

/// The move once the executor, and the error handler if it ran, are through:
/// the after-hook runs if there is one, and the outcome is delivered after it.
pub open spec fn conclude<R, E>(
    command: CommandView,
    invocation: InvocationView,
    outcome: OutcomeView<R, E>,
) -> StepView<R, E> {
    if command.after_hook {
        StepView::Pending(
            PipelineView { command, invocation, waiting: WaitingView::AfterHook(outcome) },
            RequestView::AfterHook,
        )
    } else {
        StepView::Done(outcome)
    }
}

/// The move that an event causes in a pending pipeline.
pub open spec fn advance_spec<R, E>(pipeline: PipelineView<R, E>, event: Event<R, E>) -> StepView<
    R,
    E,
> {
    let command = pipeline.command;
    let invocation = pipeline.invocation;
    match (pipeline.waiting, event) {
        (WaitingView::Check(i), Event::Check(true)) => if i + 1 < command.checks {
            StepView::Pending(
                PipelineView { command, invocation, waiting: WaitingView::Check((i + 1) as usize) },
                RequestView::Check((i + 1) as usize),
            )
        } else {
            after_checks(command, invocation)
        },
        (WaitingView::Check(i), Event::Check(false)) => StepView::Done(OutcomeView::CheckFailed(i)),
        (WaitingView::BeforeHook(values), Event::BeforeHook(true)) => StepView::Pending(
            PipelineView { command, invocation, waiting: WaitingView::Executor },
            RequestView::Execute(values),
        ),
        (WaitingView::BeforeHook(_), Event::BeforeHook(false)) => StepView::Done(
            OutcomeView::Skipped,
        ),
        (WaitingView::Executor, Event::Executed(Ok(value))) => conclude(
            command,
            invocation,
            OutcomeView::Completed(value),
        ),
        (WaitingView::Executor, Event::Executed(Err(error))) => if command.error_handler {
            StepView::Pending(
                PipelineView { command, invocation, waiting: WaitingView::ErrorHandler },
                RequestView::ErrorHandler(error),
            )
        } else {
            conclude(command, invocation, OutcomeView::Failed(error))
        },
        (WaitingView::ErrorHandler, Event::ErrorHandled) => conclude(
            command,
            invocation,
            OutcomeView::ErrorHandled,
        ),
        (WaitingView::AfterHook(outcome), Event::AfterHookDone) => StepView::Done(outcome),
        _ => StepView::Done(OutcomeView::UnexpectedEvent),
    }
}

/// What the after-hook is shown: the executor's value if it succeeded, and
/// nothing if it failed, whether or not a handler took the error.
pub open spec fn hook_result_spec<R, E>(pipeline: PipelineView<R, E>) -> Option<R> {
    match pipeline.waiting {
        WaitingView::AfterHook(OutcomeView::Completed(value)) => Some(value),
        _ => None,
    }
}

/// The state in which a pending pipeline is observed.
pub open spec fn stage_spec<R, E>(pipeline: PipelineView<R, E>) -> Stage {
    match pipeline.waiting {
        WaitingView::Check(_) => Stage::Resolved,
        WaitingView::BeforeHook(_) => Stage::Coerced,
        WaitingView::Executor => Stage::Executing,
        WaitingView::ErrorHandler => Stage::AfterHookOrErrorHandlerRun,
        WaitingView::AfterHook(_) => Stage::AfterHookOrErrorHandlerRun,
    }
}

fn proceed<'a, K: Hooks, R, E>(command: &'a Command<K>, invocation: &'a Invocation) -> (step:
    Step<'a, K, R, E>)
    ensures
        step@ == after_checks::<R, E>(command@, invocation@),
        match step {
            Step::Pending(pipeline, _) => pipeline.target() == *command,
            Step::Done(_) => true,
        },
{
    match coerce_arguments(&command.arguments, &invocation.options, &invocation.resolved) {
        Err(error) => Step::Done(Outcome::Coercion(error)),
        Ok(values) => {
            if command.before_hook.is_some() {
                Step::Pending(
                    Pipeline { command, invocation, waiting: Waiting::BeforeHook(values) },
                    Request::BeforeHook,
                )
            } else {
                Step::Pending(
                    Pipeline { command, invocation, waiting: Waiting::Executor },
                    Request::Execute(values),
                )
            }
        },
    }
}

fn finish<'a, K: Hooks, R, E>(
    command: &'a Command<K>,
    invocation: &'a Invocation,
    outcome: Outcome<R, E>,
) -> (step: Step<'a, K, R, E>)
    ensures
        step@ == conclude(command@, invocation@, outcome@),
        match step {
            Step::Pending(pipeline, _) => pipeline.target() == *command,
            Step::Done(_) => true,
        },
{
    if command.after_hook.is_some() {
        Step::Pending(
            Pipeline { command, invocation, waiting: Waiting::AfterHook(outcome) },
            Request::AfterHook,
        )
    } else {
        Step::Done(outcome)
    }
}

/// Starts the pipeline of a resolved command.
pub fn begin_command<'a, K: Hooks, R, E>(
    command: &'a Command<K>,
    invocation: &'a Invocation,
) -> (step: Step<'a, K, R, E>)
    ensures
        step@ == begin::<R, E>(command@, invocation@),
        match step {
            Step::Pending(pipeline, _) => pipeline.target() == *command,
            Step::Done(_) => true,
        },
{
    if command.checks.len() > 0 {
        Step::Pending(
            Pipeline { command, invocation, waiting: Waiting::Check(0) },
            Request::Check(0),
        )
    } else {
        proceed(command, invocation)
    }
}

/// Resolves the interaction's path and starts the pipeline of its command.
pub fn start<'a, K: Hooks, R, E>(registry: &'a Registry<K>, invocation: &'a Invocation) -> (step:
    Step<'a, K, R, E>)
    ensures
        step@ == start_spec::<K, R, E>(registry@, invocation@),
        match step {
            Step::Pending(pipeline, _) => find(registry@, invocation@.path) matches Some(i)
                && pipeline.target() == registry@[i],
            Step::Done(_) => true,
        },
{
    match registry.lookup(&invocation.path) {
        Err(_) => Step::Done(Outcome::UnknownCommand),
        Ok(command) => begin_command(command, invocation),
    }
}

impl<'a, K: Hooks, R, E> Pipeline<'a, K, R, E> {
    /// The command that the interaction invokes: the very one that was
    /// registered, with the callbacks that the requests refer to.
    pub closed spec fn target(&self) -> Command<K> {
        *self.command
    }

    /// The plain data of the pipeline's command is the view of its target.
    pub proof fn lemma_target_view(self)
        ensures
            self@.command == self.target()@,
    {
    }

    /// The command whose callbacks the requests refer to.
    pub fn command(&self) -> (command: &'a Command<K>)
        ensures
            *command == self.target(),
            command@ == self@.command,
    {
        self.command
    }

    /// What to show the after-hook while it is the pending request.
    pub fn hook_result(&self) -> (result: Option<&R>)
        ensures
            match result {
                Some(value) => hook_result_spec(self@) == Some(*value),
                None => hook_result_spec(self@) is None,
            },
    {
        match &self.waiting {
            Waiting::AfterHook(Outcome::Completed(value)) => Some(value),
            _ => None,
        }
    }

    /// The state in which the interaction is.
    pub fn stage(&self) -> (stage: Stage)
        ensures
            stage == stage_spec(self@),
    {
        match &self.waiting {
            Waiting::Check(_) => Stage::Resolved,
            Waiting::BeforeHook(_) => Stage::Coerced,
            Waiting::Executor => Stage::Executing,
            Waiting::ErrorHandler => Stage::AfterHookOrErrorHandlerRun,
            Waiting::AfterHook(_) => Stage::AfterHookOrErrorHandlerRun,
        }
    }

    /// Takes the answer to the pending request and makes the next move.
    pub fn advance(self, event: Event<R, E>) -> (step: Step<'a, K, R, E>)
        ensures
            step@ == advance_spec(self@, event),
            match step {
                Step::Pending(pipeline, _) => pipeline.target() == self.target(),
                Step::Done(_) => true,
            },
    {
        let command = self.command;
        let invocation = self.invocation;
        match self.waiting {
            Waiting::Check(i) => match event {
                Event::Check(true) => {
                    if i < command.checks.len() && i + 1 < command.checks.len() {
                        Step::Pending(
                            Pipeline { command, invocation, waiting: Waiting::Check(i + 1) },
                            Request::Check(i + 1),
                        )
                    } else {
                        proceed(command, invocation)
                    }
                },
                Event::Check(false) => Step::Done(Outcome::CheckFailed(i)),
                _ => Step::Done(Outcome::UnexpectedEvent),
            },
            Waiting::BeforeHook(values) => match event {
                Event::BeforeHook(true) => Step::Pending(
                    Pipeline { command, invocation, waiting: Waiting::Executor },
                    Request::Execute(values),
                ),
                Event::BeforeHook(false) => Step::Done(Outcome::Skipped),
                _ => Step::Done(Outcome::UnexpectedEvent),
            },
            Waiting::Executor => match event {
                Event::Executed(Ok(value)) => finish(
                    command,
                    invocation,
                    Outcome::Completed(value),
                ),
                Event::Executed(Err(error)) => {
                    if command.error_handler.is_some() {
                        Step::Pending(
                            Pipeline { command, invocation, waiting: Waiting::ErrorHandler },
                            Request::ErrorHandler(error),
                        )
                    } else {
                        finish(command, invocation, Outcome::Failed(error))
                    }
                },
                _ => Step::Done(Outcome::UnexpectedEvent),
            },
            Waiting::ErrorHandler => match event {
                Event::ErrorHandled => finish(command, invocation, Outcome::ErrorHandled),
                _ => Step::Done(Outcome::UnexpectedEvent),
            },
            Waiting::AfterHook(outcome) => match event {
                Event::AfterHookDone => Step::Done(outcome),
                _ => Step::Done(Outcome::UnexpectedEvent),
            },
        }
    }
}

} // verus!
