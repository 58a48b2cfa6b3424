use crate::argument::{ArgumentView, CommandArgument, CommandOption, OptionView};
use crate::hook::Hooks;
use vstd::prelude::*;

verus! {

/// The text behind an optional string.
pub open spec fn text_of(text: Option<String>) -> Option<Seq<char>> {
    match text {
        Some(t) => Some(t@),
        None => None,
    }
}

/// Whether two optional strings hold the same text.
pub fn same_text(a: &Option<String>, b: &Option<String>) -> (same: bool)
    ensures
        same == (text_of(*a) == text_of(*b)),
{
    match (a, b) {
        (Some(x), Some(y)) => *x == *y,
        (None, None) => true,
        _ => false,
    }
}

/// The name path of an interaction: a top-level name, then optionally a
/// group and a subcommand. The platform nests no deeper than this.
#[derive(Clone, Debug, PartialEq, Eq)]
pub struct CommandPath {
    pub name: String,
    pub group: Option<String>,
    pub subcommand: Option<String>,
}

pub struct PathView {
    pub name: Seq<char>,
    pub group: Option<Seq<char>>,
    pub subcommand: Option<Seq<char>>,
}

impl PathView {
    /// A path that names a command directly under its top-level name.
    pub open spec fn is_flat(self) -> bool {
        self.group is None && self.subcommand is None
    }

    /// A group is only ever named together with a subcommand.
    pub open spec fn well_formed(self) -> bool {
        self.group is Some ==> self.subcommand is Some
    }
}

impl View for CommandPath {
    type V = PathView;

    open spec fn view(&self) -> PathView {
        PathView {
            name: self.name@,
            group: text_of(self.group),
            subcommand: text_of(self.subcommand),
        }
    }
}

/// Where a nested command lives below its top-level name: in a group, or
/// directly as a subcommand.
#[derive(Clone, Debug, PartialEq, Eq)]
pub struct GroupPath {
    pub group: Option<String>,
    pub subcommand: String,
}

/// The registration record of one invocable command.
pub struct Command<K: Hooks> {
    /// The top-level name.
    pub name: String,
    pub description: String,
    /// Absent for a flat command.
    pub group_path: Option<GroupPath>,
    /// In the order in which the platform lists the options.
    pub arguments: Vec<CommandArgument<K>>,
    /// A permission bit set that the platform enforces.
    pub required_permissions: Option<u64>,
    pub nsfw: bool,
    pub only_guilds: bool,
    /// All of them must pass, in this order, before the command runs.
    pub checks: Vec<K::Check>,
    pub before_hook: Option<K::Before>,
    pub after_hook: Option<K::After>,
    pub error_handler: Option<K::ErrorHandler>,
    pub executor: K::Executor,
}

/// The plain data of a command: its callbacks are reduced to how many checks
/// there are and which of the optional hooks are set.
pub struct CommandView {
    pub path: PathView,
    pub description: Seq<char>,
    pub arguments: Seq<ArgumentView>,
    pub required_permissions: Option<u64>,
    pub nsfw: bool,
    pub only_guilds: bool,
    pub checks: nat,
    pub before_hook: bool,
    pub after_hook: bool,
    pub error_handler: bool,
}

pub open spec fn argument_views<K: Hooks>(arguments: Seq<CommandArgument<K>>) -> Seq<
    ArgumentView,
> {
    arguments.map_values(|a: CommandArgument<K>| a@)
}

pub open spec fn option_schema_views(options: Seq<CommandOption>) -> Seq<OptionView> {
    options.map_values(|o: CommandOption| o@)
}

impl<K: Hooks> View for Command<K> {
    type V = CommandView;

    open spec fn view(&self) -> CommandView {
        CommandView {
            path: self.path(),
            description: self.description@,
            arguments: argument_views(self.arguments@),
            required_permissions: self.required_permissions,
            nsfw: self.nsfw,
            only_guilds: self.only_guilds,
            checks: self.checks@.len(),
            before_hook: self.before_hook is Some,
            after_hook: self.after_hook is Some,
            error_handler: self.error_handler is Some,
        }
    }
}

impl<K: Hooks> Command<K> {
    /// The full name path under which the command is registered.
    pub open spec fn path(&self) -> PathView {
        match self.group_path {
            Some(nested) => PathView {
                name: self.name@,
                group: text_of(nested.group),
                subcommand: Some(nested.subcommand@),
            },
            None => PathView { name: self.name@, group: None, subcommand: None },
        }
    }

    /// Whether the choices callback of every argument that has choices may be
    /// called.
    pub open spec fn choices_callable(&self) -> bool {
        forall|i: int|
            0 <= i < self.arguments@.len() && (#[trigger] self.arguments@[i]).kind.supports_choices()
                ==> self.arguments@[i].choices_callable()
    }

    /// Whether `options` may be the schemas of the arguments, in declared
    /// order: one for each, as `CommandArgument::produces` allows.
    pub open spec fn yields(&self, options: Seq<OptionView>) -> bool {
        &&& options.len() == self.arguments@.len()
        &&& forall|i: int|
            0 <= i < options.len() ==> (#[trigger] self.arguments@[i]).produces(options[i])
    }

    /// A flat command without arguments, checks or hooks.
    pub fn new(name: String, description: String, executor: K::Executor) -> (command: Self)
        ensures
            command.name == name,
            command.description == description,
            command.executor == executor,
            command.group_path is None,
            command.arguments@.len() == 0,
            command.checks@.len() == 0,
            command.required_permissions is None,
            !command.nsfw,
            !command.only_guilds,
            command.before_hook is None,
            command.after_hook is None,
            command.error_handler is None,
    {
        Command {
            name,
            description,
            group_path: None,
            arguments: Vec::new(),
            required_permissions: None,
            nsfw: false,
            only_guilds: false,
            checks: Vec::new(),
            before_hook: None,
            after_hook: None,
            error_handler: None,
            executor,
        }
    }

    /// The same command with another description.
    pub fn description(self, description: String) -> (command: Self)
        ensures
            command == (Command { description, ..self }),
    {
        Command { description, ..self }
    }

    /// The same command nested below its top-level name.
    pub fn nested(self, group: Option<String>, subcommand: String) -> (command: Self)
        ensures
            command == (Command { group_path: Some(GroupPath { group, subcommand }), ..self }),
    {
        Command { group_path: Some(GroupPath { group, subcommand }), ..self }
    }

    /// The same command with one more argument at the end.
    pub fn argument(self, argument: CommandArgument<K>) -> (command: Self)
        ensures
            command.arguments@ == self.arguments@.push(argument),
            command == (Command { arguments: command.arguments, ..self }),
    {
        let mut command = self;
        command.arguments.push(argument);
        command
    }

    /// The same command with these required permissions.
    pub fn required_permissions(self, permissions: u64) -> (command: Self)
        ensures
            command == (Command { required_permissions: Some(permissions), ..self }),
    {
        Command { required_permissions: Some(permissions), ..self }
    }

    /// The same command with these checks in place of its own.
    pub fn checks(self, checks: Vec<K::Check>) -> (command: Self)
        ensures
            command == (Command { checks, ..self }),
    {
        Command { checks, ..self }
    }

    /// The same command with this before-hook.
    pub fn before(self, hook: K::Before) -> (command: Self)
        ensures
            command == (Command { before_hook: Some(hook), ..self }),
    {
        Command { before_hook: Some(hook), ..self }
    }

    /// The same command with this after-hook.
    pub fn after(self, hook: K::After) -> (command: Self)
        ensures
            command == (Command { after_hook: Some(hook), ..self }),
    {
        Command { after_hook: Some(hook), ..self }
    }

    /// The same command with this error handler.
    pub fn error_handler(self, handler: K::ErrorHandler) -> (command: Self)
        ensures
            command == (Command { error_handler: Some(handler), ..self }),
    {
        Command { error_handler: Some(handler), ..self }
    }

    /// The same command, marked age-restricted or not.
    pub fn nsfw(self, nsfw: bool) -> (command: Self)
        ensures
            command == (Command { nsfw, ..self }),
    {
        Command { nsfw, ..self }
    }

    /// The same command, restricted to guilds or not.
    pub fn only_guilds(self, only_guilds: bool) -> (command: Self)
        ensures
            command == (Command { only_guilds, ..self }),
    {
        Command { only_guilds, ..self }
    }

    /// Whether the command is registered under exactly this path.
    pub fn has_path(&self, path: &CommandPath) -> (same: bool)
        ensures
            same == (self.path() == path@),
    {
        if !(self.name == path.name) {
            return false;
        }
        match &self.group_path {
            None => path.group.is_none() && path.subcommand.is_none(),
            Some(nested) => {
                match &path.subcommand {
                    None => false,
                    Some(subcommand) => nested.subcommand == *subcommand && same_text(
                        &nested.group,
                        &path.group,
                    ),
                }
            },
        }
    }

    /// Whether two commands are registered under the same path.
    pub fn same_path(&self, other: &Command<K>) -> (same: bool)
        ensures
            same == (self.path() == other.path()),
    {
        if !(self.name == other.name) {
            return false;
        }
        match (&self.group_path, &other.group_path) {
            (None, None) => true,
            (Some(a), Some(b)) => a.subcommand == b.subcommand && same_text(&a.group, &b.group),
            _ => false,
        }
    }

    /// The schemas of the arguments in declared order.
    pub fn options(&self) -> (options: Vec<CommandOption>)
        requires
            self.choices_callable(),
        ensures
            self.yields(option_schema_views(options@)),
    {
        let mut options: Vec<CommandOption> = Vec::new();
        let mut i: usize = 0;
        while i < self.arguments.len()
            invariant
                i <= self.arguments.len(),
                self.choices_callable(),
                options@.len() == i,
                forall|j: int|
                    0 <= j < i ==> (#[trigger] self.arguments@[j]).produces(options@[j]@),
            decreases self.arguments.len() - i,
        {
            let option = self.arguments[i].as_option();
            options.push(option);
            i += 1;
        }
        options
    }
}

} // verus!
