use zephyrus::argument::{CommandArgument, CommandOptionChoice, CommandOptionType};
use zephyrus::coercion::{
    CoercionError, CoercionErrorKind, NamedValue, RawOption, RawValue, Resolved, Value,
};
use zephyrus::command::{Command, CommandPath};
use zephyrus::dispatch::{begin_command, start, Event, Invocation, Outcome, Request, Stage, Step};
use zephyrus::hook::Hooks;
use zephyrus::registry::Registry;

struct PipelineHooks;

impl Hooks for PipelineHooks {
    type Choices = fn() -> Option<Vec<CommandOptionChoice>>;
    type Autocomplete = u32;
    type Check = u32;
    type Before = u32;
    type After = u32;
    type ErrorHandler = u32;
    type Executor = u32;
}

fn pipeline_no_choices() -> Option<Vec<CommandOptionChoice>> {
    None
}

/// Plays the callbacks of one interaction and records what was run.
struct Spy {
    checks: Vec<bool>,
    before: bool,
    executed: Result<i32, String>,
    log: Vec<String>,
    stages: Vec<Stage>,
    arguments: Option<Vec<NamedValue>>,
}

impl Spy {
    fn new(checks: Vec<bool>, before: bool, executed: Result<i32, String>) -> Spy {
        Spy { checks, before, executed, log: Vec::new(), stages: Vec::new(), arguments: None }
    }

    fn ran(&self, what: &str) -> usize {
        self.log.iter().filter(|entry| entry.starts_with(what)).count()
    }
}

fn pipeline_drive(
    registry: &Registry<PipelineHooks>,
    invocation: &Invocation,
    spy: &mut Spy,
) -> Outcome<i32, String> {
    let mut step: Step<PipelineHooks, i32, String> = start(registry, invocation);
    loop {
        match step {
            Step::Done(outcome) => return outcome,
            Step::Pending(pipeline, request) => {
                spy.stages.push(pipeline.stage());
                let name = pipeline.command().name.clone();
                let event = match request {
                    Request::Check(i) => {
                        spy.log.push(format!("check {i} of {name}"));
                        Event::Check(spy.checks[i])
                    }
                    Request::BeforeHook => {
                        spy.log.push(format!("before {name}"));
                        Event::BeforeHook(spy.before)
                    }
                    Request::Execute(arguments) => {
                        spy.log.push(format!("execute {name}"));
                        spy.arguments = Some(arguments);
                        Event::Executed(spy.executed.clone())
                    }
                    Request::ErrorHandler(error) => {
                        spy.log.push(format!("handler {name} {error}"));
                        Event::ErrorHandled
                    }
                    Request::AfterHook => {
                        spy.log.push(format!("after {name} {:?}", pipeline.hook_result()));
                        Event::AfterHookDone
                    }
                };
                step = pipeline.advance(event);
            }
        }
    }
}

fn pipeline_command(checks: usize, before: bool, after: bool, handler: bool) -> Command<PipelineHooks> {
    let mut command = Command::new("greet".to_string(), "Greets".to_string(), 1)
        .argument(CommandArgument::from((
            "times",
            "",
            true,
            CommandOptionType::Integer,
            pipeline_no_choices as fn() -> Option<Vec<CommandOptionChoice>>,
            None,
        )))
        .checks((0..checks as u32).collect());
    if before {
        command = command.before(2);
    }
    if after {
        command = command.after(3);
    }
    if handler {
        command = command.error_handler(4);
    }
    command
}

fn pipeline_registry(command: Command<PipelineHooks>) -> Registry<PipelineHooks> {
    let mut registry = Registry::new();
    assert_eq!(registry.register(command), Ok(()));
    registry
}

fn pipeline_invocation(name: &str, times: RawValue) -> Invocation {
    Invocation {
        path: CommandPath { name: name.to_string(), group: None, subcommand: None },
        options: vec![RawOption { name: "times".to_string(), value: times, focused: false }],
        resolved: Resolved { users: Vec::new(), channels: Vec::new(), roles: Vec::new() },
    }
}

#[test]
fn unknown_command_ends_at_once() {
    let registry = pipeline_registry(pipeline_command(1, true, true, true));
    let invocation = pipeline_invocation("missing", RawValue::Integer(1));
    let mut spy = Spy::new(vec![true], true, Ok(1));
    assert_eq!(pipeline_drive(&registry, &invocation, &mut spy), Outcome::UnknownCommand);
    assert!(spy.log.is_empty());
}

#[test]
fn full_pipeline_runs_in_order() {
    let registry = pipeline_registry(pipeline_command(2, true, true, true));
    let invocation = pipeline_invocation("greet", RawValue::Integer(3));
    let mut spy = Spy::new(vec![true, true], true, Ok(7));
    assert_eq!(pipeline_drive(&registry, &invocation, &mut spy), Outcome::Completed(7));
    assert_eq!(
        spy.log,
        vec![
            "check 0 of greet",
            "check 1 of greet",
            "before greet",
            "execute greet",
            "after greet Some(7)",
        ]
    );
    assert_eq!(
        spy.stages,
        vec![
            Stage::Resolved,
            Stage::Resolved,
            Stage::Coerced,
            Stage::Executing,
            Stage::AfterHookOrErrorHandlerRun,
        ]
    );
    assert_eq!(
        spy.arguments,
        Some(vec![NamedValue { name: "times".to_string(), value: Value::Integer(3) }])
    );
}

#[test]
fn command_without_hooks_only_executes() {
    let registry = pipeline_registry(pipeline_command(0, false, false, false));
    let invocation = pipeline_invocation("greet", RawValue::Integer(3));
    let mut spy = Spy::new(Vec::new(), true, Ok(9));
    assert_eq!(pipeline_drive(&registry, &invocation, &mut spy), Outcome::Completed(9));
    assert_eq!(spy.log, vec!["execute greet"]);
}

#[test]
fn failing_check_stops_before_hook_and_executor() {
    let registry = pipeline_registry(pipeline_command(3, true, true, true));
    let invocation = pipeline_invocation("greet", RawValue::Integer(3));
    let mut spy = Spy::new(vec![true, false, true], true, Ok(7));
    assert_eq!(pipeline_drive(&registry, &invocation, &mut spy), Outcome::CheckFailed(1));
    assert_eq!(spy.log, vec!["check 0 of greet", "check 1 of greet"]);
    assert_eq!(spy.ran("before"), 0);
    assert_eq!(spy.ran("execute"), 0);
    assert_eq!(spy.ran("after"), 0);

    let mut spy = Spy::new(vec![false, true, true], true, Ok(7));
    assert_eq!(pipeline_drive(&registry, &invocation, &mut spy), Outcome::CheckFailed(0));
    assert_eq!(spy.log, vec!["check 0 of greet"]);
}

#[test]
fn failing_check_is_reported_before_any_coercion() {
    let registry = pipeline_registry(pipeline_command(1, true, true, true));
    let invocation = pipeline_invocation("greet", RawValue::String("three".to_string()));
    let mut spy = Spy::new(vec![false], true, Ok(7));
    assert_eq!(pipeline_drive(&registry, &invocation, &mut spy), Outcome::CheckFailed(0));
}

#[test]
fn coercion_failure_stops_before_hook_and_executor() {
    let registry = pipeline_registry(pipeline_command(1, true, true, true));
    let invocation = pipeline_invocation("greet", RawValue::String("three".to_string()));
    let mut spy = Spy::new(vec![true], true, Ok(7));
    assert_eq!(
        pipeline_drive(&registry, &invocation, &mut spy),
        Outcome::Coercion(CoercionError {
            kind: CoercionErrorKind::TypeMismatch,
            detail: "times".to_string()
        })
    );
    assert_eq!(spy.log, vec!["check 0 of greet"]);

    let mut invocation = pipeline_invocation("greet", RawValue::Integer(3));
    invocation.options.clear();
    let mut spy = Spy::new(vec![true], true, Ok(7));
    assert_eq!(
        pipeline_drive(&registry, &invocation, &mut spy),
        Outcome::Coercion(CoercionError {
            kind: CoercionErrorKind::MissingRequired,
            detail: "times".to_string()
        })
    );
}

#[test]
fn before_hook_veto_skips_executor_and_after_hook() {
    let registry = pipeline_registry(pipeline_command(1, true, true, true));
    let invocation = pipeline_invocation("greet", RawValue::Integer(3));
    let mut spy = Spy::new(vec![true], false, Ok(7));
    assert_eq!(pipeline_drive(&registry, &invocation, &mut spy), Outcome::Skipped);
    assert_eq!(spy.log, vec!["check 0 of greet", "before greet"]);
    assert_eq!(spy.ran("execute"), 0);
    assert_eq!(spy.ran("after"), 0);
    assert_eq!(spy.arguments, None);
}

#[test]
fn handled_error_shows_the_after_hook_nothing() {
    let registry = pipeline_registry(pipeline_command(0, false, true, true));
    let invocation = pipeline_invocation("greet", RawValue::Integer(3));
    let mut spy = Spy::new(Vec::new(), true, Err("boom".to_string()));
    assert_eq!(pipeline_drive(&registry, &invocation, &mut spy), Outcome::ErrorHandled);
    assert_eq!(spy.log, vec!["execute greet", "handler greet boom", "after greet None"]);
    assert_eq!(
        spy.stages,
        vec![
            Stage::Executing,
            Stage::AfterHookOrErrorHandlerRun,
            Stage::AfterHookOrErrorHandlerRun
        ]
    );
}

#[test]
fn unhandled_error_is_surfaced_to_the_caller() {
    let registry = pipeline_registry(pipeline_command(0, false, true, false));
    let invocation = pipeline_invocation("greet", RawValue::Integer(3));
    let mut spy = Spy::new(Vec::new(), true, Err("boom".to_string()));
    assert_eq!(
        pipeline_drive(&registry, &invocation, &mut spy),
        Outcome::Failed("boom".to_string())
    );
    assert_eq!(spy.log, vec!["execute greet", "after greet None"]);

    let registry = pipeline_registry(pipeline_command(0, false, false, false));
    let mut spy = Spy::new(Vec::new(), true, Err("boom".to_string()));
    assert_eq!(
        pipeline_drive(&registry, &invocation, &mut spy),
        Outcome::Failed("boom".to_string())
    );
    assert_eq!(spy.log, vec!["execute greet"]);
}

#[test]
fn handled_error_without_after_hook() {
    let registry = pipeline_registry(pipeline_command(0, false, false, true));
    let invocation = pipeline_invocation("greet", RawValue::Integer(3));
    let mut spy = Spy::new(Vec::new(), true, Err("boom".to_string()));
    assert_eq!(pipeline_drive(&registry, &invocation, &mut spy), Outcome::ErrorHandled);
    assert_eq!(spy.log, vec!["execute greet", "handler greet boom"]);
}

#[test]
fn event_that_answers_no_request_ends_the_pipeline() {
    let command = pipeline_command(1, true, true, true);
    let invocation = pipeline_invocation("greet", RawValue::Integer(3));
    let step: Step<PipelineHooks, i32, String> = begin_command(&command, &invocation);
    match step {
        Step::Pending(pipeline, request) => {
            assert_eq!(request, Request::Check(0));
            assert_eq!(pipeline.hook_result(), None);
            match pipeline.advance(Event::BeforeHook(true)) {
                Step::Done(outcome) => assert_eq!(outcome, Outcome::UnexpectedEvent),
                Step::Pending(..) => panic!("the pipeline went on"),
            }
        }
        Step::Done(_) => panic!("the pipeline did not start"),
    }
    let step: Step<PipelineHooks, i32, String> = begin_command(&command, &invocation);
    match step {
        Step::Pending(pipeline, _) => match pipeline.advance(Event::Check(true)) {
            Step::Pending(pipeline, request) => {
                assert_eq!(request, Request::BeforeHook);
                match pipeline.advance(Event::AfterHookDone) {
                    Step::Done(outcome) => assert_eq!(outcome, Outcome::UnexpectedEvent),
                    Step::Pending(..) => panic!("the pipeline went on"),
                }
            }
            Step::Done(_) => panic!("the pipeline ended early"),
        },
        Step::Done(_) => panic!("the pipeline did not start"),
    }
}
