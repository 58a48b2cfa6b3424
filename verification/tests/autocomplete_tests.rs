use zephyrus::argument::{CommandArgument, CommandOptionChoice, CommandOptionType};
use zephyrus::autocomplete::{
    find_argument, find_focused, resolve_autocomplete, suggestions, AutocompleteStep,
};
use zephyrus::coercion::{RawOption, RawValue, Resolved};
use zephyrus::command::{Command, CommandPath};
use zephyrus::dispatch::Invocation;
use zephyrus::hook::Hooks;
use zephyrus::registry::Registry;

struct AutocompleteHooks;

impl Hooks for AutocompleteHooks {
    type Choices = fn() -> Option<Vec<CommandOptionChoice>>;
    type Autocomplete = &'static str;
    type Check = u32;
    type Before = u32;
    type After = u32;
    type ErrorHandler = u32;
    type Executor = u32;
}

fn autocomplete_no_choices() -> Option<Vec<CommandOptionChoice>> {
    None
}

fn autocomplete_argument(
    name: &'static str,
    hook: Option<&'static str>,
) -> CommandArgument<AutocompleteHooks> {
    CommandArgument::from((
        name,
        "",
        false,
        CommandOptionType::String,
        autocomplete_no_choices as fn() -> Option<Vec<CommandOptionChoice>>,
        hook,
    ))
}

fn autocomplete_registry() -> Registry<AutocompleteHooks> {
    let mut registry = Registry::new();
    let command = Command::new("play".to_string(), "Plays".to_string(), 1)
        .argument(autocomplete_argument("song", Some("songs")))
        .argument(autocomplete_argument("volume", None));
    assert_eq!(registry.register(command), Ok(()));
    registry
}

fn autocomplete_invocation(name: &str, options: Vec<(&str, &str, bool)>) -> Invocation {
    Invocation {
        path: CommandPath { name: name.to_string(), group: None, subcommand: None },
        options: options
            .into_iter()
            .map(|(name, value, focused)| RawOption {
                name: name.to_string(),
                value: RawValue::String(value.to_string()),
                focused,
            })
            .collect(),
        resolved: Resolved { users: Vec::new(), channels: Vec::new(), roles: Vec::new() },
    }
}

fn autocomplete_is_empty_answer(step: AutocompleteStep<AutocompleteHooks>) -> bool {
    match step {
        AutocompleteStep::Respond(list) => list.is_empty(),
        AutocompleteStep::Ask(_) => false,
    }
}

#[test]
fn focused_argument_with_callback_is_asked() {
    let registry = autocomplete_registry();
    let invocation =
        autocomplete_invocation("play", vec![("volume", "3", false), ("song", "ab", true)]);
    match resolve_autocomplete(&registry, &invocation) {
        AutocompleteStep::Ask(focus) => {
            assert_eq!(focus.command.name, "play");
            assert_eq!(focus.argument.name, "song");
            assert_eq!(*focus.hook, "songs");
            assert_eq!(*focus.input, RawValue::String("ab".to_string()));
        }
        AutocompleteStep::Respond(_) => panic!("the callback was not found"),
    }
}

#[test]
fn focused_argument_without_callback_gets_an_empty_list() {
    let registry = autocomplete_registry();
    let invocation =
        autocomplete_invocation("play", vec![("volume", "3", true), ("song", "ab", false)]);
    assert!(autocomplete_is_empty_answer(resolve_autocomplete(&registry, &invocation)));
}

#[test]
fn autocomplete_failures_are_silent() {
    let registry = autocomplete_registry();
    let unknown = autocomplete_invocation("stop", vec![("song", "ab", true)]);
    assert!(autocomplete_is_empty_answer(resolve_autocomplete(&registry, &unknown)));
    let unfocused = autocomplete_invocation("play", vec![("song", "ab", false)]);
    assert!(autocomplete_is_empty_answer(resolve_autocomplete(&registry, &unfocused)));
    let no_options = autocomplete_invocation("play", Vec::new());
    assert!(autocomplete_is_empty_answer(resolve_autocomplete(&registry, &no_options)));
    let no_argument = autocomplete_invocation("play", vec![("artist", "ab", true)]);
    assert!(autocomplete_is_empty_answer(resolve_autocomplete(&registry, &no_argument)));
}

#[test]
fn first_focused_option_counts() {
    let registry = autocomplete_registry();
    let invocation =
        autocomplete_invocation("play", vec![("volume", "3", true), ("song", "ab", true)]);
    assert!(autocomplete_is_empty_answer(resolve_autocomplete(&registry, &invocation)));
    assert_eq!(find_focused(&invocation.options), Some(0));
    assert_eq!(find_focused(&Vec::new()), None);
    let command = registry.get(0).unwrap();
    assert_eq!(find_argument(&command.arguments, &"volume".to_string()), Some(1));
    assert_eq!(find_argument(&command.arguments, &"artist".to_string()), None);
}

#[test]
fn suggestions_are_what_the_callback_returned() {
    assert_eq!(suggestions(None), Vec::new());
    assert_eq!(suggestions(Some(Vec::new())), Vec::new());
    let list = vec![
        CommandOptionChoice::String { name: "Abba".to_string(), value: "abba".to_string() },
        CommandOptionChoice::Int { name: "One".to_string(), value: 1 },
    ];
    assert_eq!(suggestions(Some(list.clone())), list);
}
