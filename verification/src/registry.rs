use crate::command::{Command, CommandPath, PathView};
use crate::declaration::{all_callable, declaration_views, declare, declares, CommandDeclaration};
use crate::hook::Hooks;
use crate::search::{first_at, first_index, lemma_first_index_is, lemma_first_index_none, none_hit};
use vstd::prelude::*;

verus! {

/// Why a command could not be registered, or was not found.
#[derive(Clone, Copy, Debug, PartialEq, Eq, Structural)]
pub enum RegistryError {
    /// No command is registered under the path that was looked up.
    UnknownCommand,
    /// A command is already registered under the same path.
    DuplicatePath,
    /// The top-level name is already taken by a command of the other shape:
    /// a flat command cannot share its name with nested ones.
    ShapeConflict,
}

/// Whether two commands cannot live under one top-level name: they share it,
/// and one of them is flat.
pub open spec fn clashes<K: Hooks>(a: Command<K>, b: Command<K>) -> bool {
    a.name@ == b.name@ && (a.group_path is None || b.group_path is None)
}

/// Whether some command is registered under `path`.
pub open spec fn path_taken<K: Hooks>(commands: Seq<Command<K>>, path: PathView) -> bool {
    exists|i: int| 0 <= i < commands.len() && (#[trigger] commands[i]).path() == path
}

/// Whether some registered command clashes with `command`.
pub open spec fn shape_conflict<K: Hooks>(commands: Seq<Command<K>>, command: Command<K>) -> bool {
    exists|i: int| 0 <= i < commands.len() && clashes(#[trigger] commands[i], command)
}

/// No two commands share a path, and a top-level name holds either one flat
/// command or nested commands only.
pub open spec fn well_formed<K: Hooks>(commands: Seq<Command<K>>) -> bool {
    &&& forall|i: int, j: int|
        0 <= i < j < commands.len() ==> (#[trigger] commands[i]).path() != (
        #[trigger] commands[j]).path()
    &&& forall|i: int, j: int|
        0 <= i < commands.len() && 0 <= j < commands.len() && i != j ==> !clashes(
            #[trigger] commands[i],
            #[trigger] commands[j],
        )
}

/// The position of the command registered under `path`.
pub open spec fn find<K: Hooks>(commands: Seq<Command<K>>, path: PathView) -> Option<int> {
    first_index(commands, |c: Command<K>| c.path() == path)
}

/// Every registered command is found under its own path, and it is that very
/// command that is found.
pub proof fn lemma_registered_is_found<K: Hooks>(commands: Seq<Command<K>>, i: int)
    requires
        well_formed(commands),
        0 <= i < commands.len(),
    ensures
        find(commands, commands[i].path()) == Some(i),
{
    let hit = |c: Command<K>| c.path() == commands[i].path();
    assert(first_at(commands, hit, i));
    lemma_first_index_is(commands, hit, i);
}

/// A path under which nothing is registered finds nothing.
pub proof fn lemma_unregistered_is_unknown<K: Hooks>(commands: Seq<Command<K>>, path: PathView)
    requires
        !path_taken(commands, path),
    ensures
        find(commands, path) is None,
{
    let hit = |c: Command<K>| c.path() == path;
    assert(none_hit(commands, hit));
    lemma_first_index_none(commands, hit);
}

/// A path that names a group without a subcommand finds nothing, whatever is
/// registered: no command has such a path.
pub proof fn lemma_ill_formed_path_is_unknown<K: Hooks>(commands: Seq<Command<K>>, path: PathView)
    requires
        !path.well_formed(),
    ensures
        find(commands, path) is None,
{
    if path_taken(commands, path) {
        let i = choose|i: int| 0 <= i < commands.len() && (#[trigger] commands[i]).path() == path;
        assert(commands[i].path().well_formed());
    }
    lemma_unregistered_is_unknown(commands, path);
}

/// A nested command is found by its full path only: its top-level name alone,
/// and its name with the group but without the subcommand, find nothing.
pub proof fn lemma_partial_path_is_unknown<K: Hooks>(commands: Seq<Command<K>>, i: int)
    requires
        well_formed(commands),
        0 <= i < commands.len(),
        commands[i].group_path is Some,
    ensures
        find(commands, commands[i].path()) == Some(i),
        find(
            commands,
            PathView { name: commands[i].path().name, group: None, subcommand: None },
        ) is None,
        find(
            commands,
            PathView {
                name: commands[i].path().name,
                group: commands[i].path().group,
                subcommand: None,
            },
        ) is None,
{
    lemma_registered_is_found(commands, i);
    let bare = PathView { name: commands[i].path().name, group: None, subcommand: None };
    assert forall|j: int| 0 <= j < commands.len() implies (#[trigger] commands[j]).path()
        != bare by {
        if commands[j].path() == bare {
            assert(clashes(commands[j], commands[i]));
        }
    }
    lemma_unregistered_is_unknown(commands, bare);
    let partial = PathView {
        name: commands[i].path().name,
        group: commands[i].path().group,
        subcommand: None,
    };
    assert forall|j: int| 0 <= j < commands.len() implies (#[trigger] commands[j]).path()
        != partial by {
        if commands[j].path() == partial {
            assert(clashes(commands[j], commands[i]));
        }
    }
    lemma_unregistered_is_unknown(commands, partial);
}

/// Registering a command under a free path makes it the command found there
/// and changes what no other path finds.
pub proof fn lemma_register_then_find<K: Hooks>(
    commands: Seq<Command<K>>,
    command: Command<K>,
    path: PathView,
)
    requires
        !path_taken(commands, command.path()),
    ensures
        find(commands.push(command), command.path()) == Some(commands.len() as int),
        path != command.path() ==> find(commands.push(command), path) == find(commands, path),
{
    let grown = commands.push(command);
    let own = |c: Command<K>| c.path() == command.path();
    assert forall|j: int| 0 <= j < commands.len() implies !own(#[trigger] grown[j]) by {
        assert(grown[j] == commands[j]);
    }
    assert(first_at(grown, own, commands.len() as int));
    lemma_first_index_is(grown, own, commands.len() as int);
    if path != command.path() {
        let hit = |c: Command<K>| c.path() == path;
        crate::search::lemma_first_index_sound(commands, hit);
        match first_index(commands, hit) {
            Some(i) => {
                assert forall|j: int| 0 <= j < i implies !hit(#[trigger] grown[j]) by {
                    assert(grown[j] == commands[j]);
                }
                assert(grown[i] == commands[i]);
                assert(first_at(grown, hit, i));
                lemma_first_index_is(grown, hit, i);
            },
            None => {
                assert forall|j: int| 0 <= j < grown.len() implies !hit(#[trigger] grown[j]) by {
                    if j < commands.len() {
                        assert(grown[j] == commands[j]);
                    }
                }
                lemma_first_index_none(grown, hit);
            },
        }
    }
}

/// The commands of an application, each under its own name path.
pub struct Registry<K: Hooks> {
    commands: Vec<Command<K>>,
}

impl<K: Hooks> View for Registry<K> {
    type V = Seq<Command<K>>;

    /// The commands in the order in which they were registered.
    closed spec fn view(&self) -> Seq<Command<K>> {
        self.commands@
    }
}

impl<K: Hooks> Registry<K> {
    /// Whether the registry holds what `well_formed` asks of its commands.
    /// `new` establishes this and `register` keeps it.
    pub open spec fn well_formed(&self) -> bool {
        well_formed(self@)
    }

    /// A registry without commands.
    pub fn new() -> (registry: Self)
        ensures
            registry@.len() == 0,
            registry.well_formed(),
    {
        Registry { commands: Vec::new() }
    }

    /// The number of registered commands.
    pub fn len(&self) -> (n: usize)
        ensures
            n == self@.len(),
    {
        self.commands.len()
    }

    /// The command registered at a position, in order of registration.
    pub fn get(&self, index: usize) -> (command: Option<&Command<K>>)
        ensures
            index < self@.len() ==> command == Some(&self@[index as int]),
            index >= self@.len() ==> command is None,
    {
        if index < self.commands.len() {
            Some(&self.commands[index])
        } else {
            None
        }
    }

    /// Registers a command under its path. Fails, leaving the registry as it
    /// was, if the path is taken or the top-level name holds the other shape.
    pub fn register(&mut self, command: Command<K>) -> (result: Result<(), RegistryError>)
        requires
            old(self).well_formed(),
        ensures
            final(self).well_formed(),
            match result {
                Ok(()) => {
                    &&& !path_taken(old(self)@, command.path())
                    &&& !shape_conflict(old(self)@, command)
                    &&& final(self)@ == old(self)@.push(command)
                    &&& find(final(self)@, command.path()) == Some(old(self)@.len() as int)
                },
                Err(RegistryError::DuplicatePath) => {
                    &&& path_taken(old(self)@, command.path())
                    &&& final(self)@ == old(self)@
                },
                Err(RegistryError::ShapeConflict) => {
                    &&& !path_taken(old(self)@, command.path())
                    &&& shape_conflict(old(self)@, command)
                    &&& final(self)@ == old(self)@
                },
                Err(RegistryError::UnknownCommand) => false,
            },
    {
        let mut conflict = false;
        let mut i: usize = 0;
        while i < self.commands.len()
            invariant
                i <= self.commands.len(),
                self.commands@ == old(self).commands@,
                self.well_formed(),
                forall|j: int| 0 <= j < i ==> (#[trigger] self.commands@[j]).path() != command.path(),
                conflict <==> exists|j: int| 0 <= j < i && clashes(#[trigger] self.commands@[j], command),
            decreases self.commands.len() - i,
        {
            if self.commands[i].same_path(&command) {
                return Err(RegistryError::DuplicatePath);
            }
            if self.commands[i].name == command.name && (self.commands[i].group_path.is_none()
                || command.group_path.is_none()) {
                assert(clashes(self.commands@[i as int], command));
                conflict = true;
            }
            i += 1;
        }
        if conflict {
            return Err(RegistryError::ShapeConflict);
        }
        proof {
            let grown = self.commands@.push(command);
            assert forall|a: int, b: int| 0 <= a < b < grown.len() implies (#[trigger] grown[a]).path()
                != (#[trigger] grown[b]).path() by {
                if b < self.commands@.len() {
                    assert(grown[a] == self.commands@[a] && grown[b] == self.commands@[b]);
                } else {
                    assert(grown[a] == self.commands@[a]);
                }
            }
            assert forall|a: int, b: int|
                0 <= a < grown.len() && 0 <= b < grown.len() && a != b implies !clashes(
                #[trigger] grown[a],
                #[trigger] grown[b],
            ) by {
                if a < self.commands@.len() && b < self.commands@.len() {
                    assert(grown[a] == self.commands@[a] && grown[b] == self.commands@[b]);
                } else if a < self.commands@.len() {
                    assert(grown[a] == self.commands@[a]);
                    assert(!clashes(self.commands@[a], command));
                } else {
                    assert(grown[b] == self.commands@[b]);
                    assert(!clashes(self.commands@[b], command));
                }
            }
        }
        proof {
            assert(!path_taken(self.commands@, command.path())) by {
                if path_taken(self.commands@, command.path()) {
                    let j = choose|j: int|
                        0 <= j < self.commands@.len() && (#[trigger] self.commands@[j]).path()
                            == command.path();
                    assert(self.commands@[j].path() != command.path());
                }
            }
            lemma_register_then_find(self.commands@, command, command.path());
        }
        self.commands.push(command);
        Ok(())
    }

    /// What the platform is told about the registered commands: a declaration
    /// for each top-level name, in order of first registration, with the
    /// subcommands and groups below a name as nested options.
    pub fn list_top_level(&self) -> (declared: Vec<CommandDeclaration>)
        requires
            all_callable(self@),
        ensures
            declares(self@, declaration_views(declared@)),
    {
        declare(&self.commands)
    }

    /// The position of the command registered under `path`.
    pub fn position(&self, path: &CommandPath) -> (found: Option<usize>)
        ensures
            match found {
                Some(i) => find(self@, path@) == Some(i as int) && i < self@.len(),
                None => find(self@, path@) is None,
            },
    {
        let ghost hit = |c: Command<K>| c.path() == path@;
        let mut i: usize = 0;
        while i < self.commands.len()
            invariant
                i <= self.commands.len(),
                hit == |c: Command<K>| c.path() == path@,
                forall|j: int| 0 <= j < i ==> !hit(#[trigger] self.commands@[j]),
            decreases self.commands.len() - i,
        {
            if self.commands[i].has_path(path) {
                proof {
                    assert(first_at(self.commands@, hit, i as int));
                    lemma_first_index_is(self.commands@, hit, i as int);
                }
                return Some(i);
            }
            i += 1;
        }
        proof {
            assert(none_hit(self.commands@, hit));
            lemma_first_index_none(self.commands@, hit);
        }
        None
    }

    /// The command registered under `path`, or `UnknownCommand`.
    pub fn lookup(&self, path: &CommandPath) -> (result: Result<&Command<K>, RegistryError>)
        ensures
            match result {
                Ok(command) => find(self@, path@) matches Some(i) && *command == self@[i]
                    && command.path() == path@,
                Err(error) => error == RegistryError::UnknownCommand && find(self@, path@) is None
                    && !path_taken(self@, path@),
            },
    {
        match self.position(path) {
            Some(i) => {
                proof {
                    crate::search::lemma_first_index_sound(
                        self@,
                        |c: Command<K>| c.path() == path@,
                    );
                }
                Ok(&self.commands[i])
            },
            None => {
                proof {
                    crate::search::lemma_first_index_sound(
                        self@,
                        |c: Command<K>| c.path() == path@,
                    );
                    if path_taken(self@, path@) {
                        let j = choose|j: int| 0 <= j < self@.len() && (#[trigger] self@[j]).path() == path@;
                        assert((|c: Command<K>| c.path() == path@)(self@[j]));
                    }
                }
                Err(RegistryError::UnknownCommand)
            },
        }
    }
}

} // verus!
