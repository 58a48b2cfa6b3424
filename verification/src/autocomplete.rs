use crate::argument::{
    choice_views, listed_choices, ArgumentView, CommandArgument, CommandOptionChoice,
};
use crate::coercion::{option_views, RawOption, RawOptionView, RawValue};
use crate::command::{argument_views, Command};
use crate::dispatch::{Invocation, InvocationView};
use crate::hook::Hooks;
use crate::registry::{find, Registry};
use crate::search::{first_at, first_index, lemma_first_index_is, lemma_first_index_none, none_hit};
use vstd::prelude::*;

verus! {

/// The position of the field that the user is typing into.
pub open spec fn focused_option(options: Seq<RawOptionView>) -> Option<int> {
    first_index(options, |o: RawOptionView| o.focused)
}

/// The position of the argument with the given name.
pub open spec fn argument_named(arguments: Seq<ArgumentView>, name: Seq<char>) -> Option<int> {
    first_index(arguments, |a: ArgumentView| a.name == name)
}

/// Where an autocomplete request points: a registered command, one of its
/// arguments and the raw option that holds the partial input.
pub struct FocusAt {
    pub command: int,
    pub argument: int,
    pub option: int,
}

/// The target of an autocomplete request: the argument of the invoked command
/// that carries the name of the focused field, provided it has an
/// autocomplete callback. There is none if the command is unknown, no field
/// is focused, no argument has that name, or the argument has no callback.
pub open spec fn focus<K: Hooks>(commands: Seq<Command<K>>, invocation: InvocationView) -> Option<
    FocusAt,
> {
    match find(commands, invocation.path) {
        None => None,
        Some(c) => match focused_option(invocation.options) {
            None => None,
            Some(o) => match argument_named(commands[c]@.arguments, invocation.options[o].name) {
                None => None,
                Some(a) => if commands[c]@.arguments[a].autocomplete {
                    Some(FocusAt { command: c, argument: a, option: o })
                } else {
                    None
                },
            },
        },
    }
}

/// An autocomplete request has no target when the argument under the focused
/// field has no autocomplete callback.
pub proof fn lemma_no_callback_no_focus<K: Hooks>(
    commands: Seq<Command<K>>,
    invocation: InvocationView,
    c: int,
    o: int,
    a: int,
)
    requires
        find(commands, invocation.path) == Some(c),
        focused_option(invocation.options) == Some(o),
        argument_named(commands[c]@.arguments, invocation.options[o].name) == Some(a),
        !commands[c]@.arguments[a].autocomplete,
    ensures
        focus(commands, invocation) is None,
{
}

/// The callback to ask for suggestions, and what to hand to it.
pub struct Focus<'a, K: Hooks> {
    pub command: &'a Command<K>,
    pub argument: &'a CommandArgument<K>,
    pub hook: &'a K::Autocomplete,
    /// The partial input of the focused field.
    pub input: &'a RawValue,
}

/// What to do with an autocomplete request.
pub enum AutocompleteStep<'a, K: Hooks> {
    /// Answer with this list; it is always empty.
    Respond(Vec<CommandOptionChoice>),
    /// Run the callback and answer with `suggestions` of what it returns.
    Ask(Focus<'a, K>),
}

/// The position of the first focused option.
pub fn find_focused(options: &Vec<RawOption>) -> (found: Option<usize>)
    ensures
        match found {
            Some(i) => focused_option(option_views(options@)) == Some(i as int) && i
                < options.len(),
            None => focused_option(option_views(options@)) is None,
        },
{
    let ghost views = option_views(options@);
    let ghost hit = |o: RawOptionView| o.focused;
    let mut i: usize = 0;
    while i < options.len()
        invariant
            i <= options.len(),
            views == option_views(options@),
            hit == |o: RawOptionView| o.focused,
            forall|j: int| 0 <= j < i ==> !hit(#[trigger] views[j]),
        decreases options.len() - i,
    {
        assert(views[i as int] == options[i as int]@);
        if options[i].focused {
            proof {
                assert(first_at(views, hit, i as int));
                lemma_first_index_is(views, hit, i as int);
            }
            return Some(i);
        }
        i += 1;
    }
    proof {
        assert(none_hit(views, hit));
        lemma_first_index_none(views, hit);
    }
    None
}

/// The position of the first argument with the given name.
pub fn find_argument<K: Hooks>(arguments: &Vec<CommandArgument<K>>, name: &String) -> (found:
    Option<usize>)
    ensures
        match found {
            Some(i) => argument_named(argument_views(arguments@), name@) == Some(i as int) && i
                < arguments.len(),
            None => argument_named(argument_views(arguments@), name@) is None,
        },
{
    let ghost views = argument_views(arguments@);
    let ghost hit = |a: ArgumentView| a.name == name@;
    let mut i: usize = 0;
    while i < arguments.len()
        invariant
            i <= arguments.len(),
            views == argument_views(arguments@),
            hit == |a: ArgumentView| a.name == name@,
            forall|j: int| 0 <= j < i ==> !hit(#[trigger] views[j]),
        decreases arguments.len() - i,
    {
        assert(views[i as int] == arguments[i as int]@);
        if arguments[i].name.to_owned() == *name {
            proof {
                assert(first_at(views, hit, i as int));
                lemma_first_index_is(views, hit, i as int);
            }
            return Some(i);
        }
        i += 1;
    }
    proof {
        assert(none_hit(views, hit));
        lemma_first_index_none(views, hit);
    }
    None
}

/// Finds the callback that an autocomplete request is meant for. A request
/// without a target is answered with the empty list: it is never an error.
pub fn resolve_autocomplete<'a, K: Hooks>(
    registry: &'a Registry<K>,
    invocation: &'a Invocation,
) -> (step: AutocompleteStep<'a, K>)
    ensures
        match step {
            AutocompleteStep::Respond(list) => focus(registry@, invocation@) is None
                && list@.len() == 0,
            AutocompleteStep::Ask(target) => {
                &&& focus(registry@, invocation@) matches Some(at)
                &&& *target.command == registry@[at.command]
                &&& *target.argument == registry@[at.command].arguments@[at.argument]
                &&& target.argument.autocomplete == Some(*target.hook)
                &&& *target.input == invocation.options@[at.option].value
            },
        },
{
    let command = match registry.lookup(&invocation.path) {
        Ok(command) => command,
        Err(_) => {
            return AutocompleteStep::Respond(Vec::new());
        },
    };
    let o = match find_focused(&invocation.options) {
        Some(o) => o,
        None => {
            return AutocompleteStep::Respond(Vec::new());
        },
    };
    assert(invocation@.options[o as int] == invocation.options@[o as int]@);
    let a = match find_argument(&command.arguments, &invocation.options[o].name) {
        Some(a) => a,
        None => {
            return AutocompleteStep::Respond(Vec::new());
        },
    };
    let argument = &command.arguments[a];
    assert(command@.arguments[a as int] == argument@);
    match &argument.autocomplete {
        Some(hook) => AutocompleteStep::Ask(
            Focus { command, argument, hook, input: &invocation.options[o].value },
        ),
        None => AutocompleteStep::Respond(Vec::new()),
    }
}

/// The suggestion list to answer with, given what the callback returned: its
/// list as it is, or the empty list if it returned none.
pub fn suggestions(returned: Option<Vec<CommandOptionChoice>>) -> (list: Vec<CommandOptionChoice>)
    ensures
        choice_views(list@) == listed_choices(returned),
        returned is None ==> list@.len() == 0,
        returned matches Some(given) ==> list == given,
{
    match returned {
        Some(given) => given,
        None => {
            let list: Vec<CommandOptionChoice> = Vec::new();
            assert(choice_views(list@) =~= listed_choices(returned));
            list
        },
    }
}

} // verus!
