use crate::argument::{
    choice_views, localization_views, BaseCommandOptionData, ChannelCommandOptionData,
    ChannelType, ChoiceCommandOptionData, CommandOption, CommandOptionChoice, Localizations,
    NumberCommandOptionData, OptionView,
};
use crate::command::{option_schema_views, Command, CommandView};
use crate::hook::Hooks;
use vstd::prelude::*;

verus! {

/// A subcommand as the platform sees it: an option that holds options.
#[derive(Clone, Debug, PartialEq, Eq)]
pub struct SubCommandOption {
    pub name: String,
    pub description: String,
    pub options: Vec<CommandOption>,
}

pub struct SubCommandView {
    pub name: Seq<char>,
    pub description: Seq<char>,
    pub options: Seq<OptionView>,
}

impl View for SubCommandOption {
    type V = SubCommandView;

    open spec fn view(&self) -> SubCommandView {
        SubCommandView {
            name: self.name@,
            description: self.description@,
            options: option_schema_views(self.options@),
        }
    }
}

pub open spec fn subcommand_views(subcommands: Seq<SubCommandOption>) -> Seq<SubCommandView> {
    subcommands.map_values(|s: SubCommandOption| s@)
}

/// A subcommand group as the platform sees it: an option that holds
/// subcommands.
#[derive(Clone, Debug, PartialEq, Eq)]
pub struct SubCommandGroupOption {
    pub name: String,
    pub description: String,
    pub subcommands: Vec<SubCommandOption>,
}

pub struct SubCommandGroupView {
    pub name: Seq<char>,
    pub description: Seq<char>,
    pub subcommands: Seq<SubCommandView>,
}

impl View for SubCommandGroupOption {
    type V = SubCommandGroupView;

    open spec fn view(&self) -> SubCommandGroupView {
        SubCommandGroupView {
            name: self.name@,
            description: self.description@,
            subcommands: subcommand_views(self.subcommands@),
        }
    }
}

/// One option of a top-level declaration.
#[derive(Clone, Debug, PartialEq, Eq)]
pub enum DeclaredOption {
    Value(CommandOption),
    SubCommand(SubCommandOption),
    SubCommandGroup(SubCommandGroupOption),
}

pub enum DeclaredOptionView {
    Value(OptionView),
    SubCommand(SubCommandView),
    SubCommandGroup(SubCommandGroupView),
}

impl View for DeclaredOption {
    type V = DeclaredOptionView;

    open spec fn view(&self) -> DeclaredOptionView {
        match self {
            DeclaredOption::Value(option) => DeclaredOptionView::Value(option@),
            DeclaredOption::SubCommand(subcommand) => DeclaredOptionView::SubCommand(subcommand@),
            DeclaredOption::SubCommandGroup(group) => DeclaredOptionView::SubCommandGroup(group@),
        }
    }
}

pub open spec fn declared_option_views(options: Seq<DeclaredOption>) -> Seq<DeclaredOptionView> {
    options.map_values(|o: DeclaredOption| o@)
}

/// What the platform is told about one top-level name.
#[derive(Clone, Debug, PartialEq, Eq)]
pub struct CommandDeclaration {
    pub name: String,
    pub description: String,
    pub options: Vec<DeclaredOption>,
    pub required_permissions: Option<u64>,
    pub nsfw: bool,
    pub only_guilds: bool,
}

pub struct DeclarationView {
    pub name: Seq<char>,
    pub description: Seq<char>,
    pub options: Seq<DeclaredOptionView>,
    pub required_permissions: Option<u64>,
    pub nsfw: bool,
    pub only_guilds: bool,
}

impl View for CommandDeclaration {
    type V = DeclarationView;

    open spec fn view(&self) -> DeclarationView {
        DeclarationView {
            name: self.name@,
            description: self.description@,
            options: declared_option_views(self.options@),
            required_permissions: self.required_permissions,
            nsfw: self.nsfw,
            only_guilds: self.only_guilds,
        }
    }
}

pub open spec fn declaration_views(declarations: Seq<CommandDeclaration>) -> Seq<
    DeclarationView,
> {
    declarations.map_values(|d: CommandDeclaration| d@)
}

pub open spec fn command_views<K: Hooks>(commands: Seq<Command<K>>) -> Seq<CommandView> {
    commands.map_values(|c: Command<K>| c@)
}

/// The positions below `n` that `keep` accepts, in ascending order.
pub open spec fn select(n: nat, keep: spec_fn(int) -> bool) -> Seq<int>
    decreases n,
{
    if n == 0 {
        Seq::empty()
    } else if keep(n - 1) {
        select((n - 1) as nat, keep).push(n - 1)
    } else {
        select((n - 1) as nat, keep)
    }
}

/// Whether the command at `i` is the first one registered under its
/// top-level name.
pub open spec fn is_root(commands: Seq<CommandView>, i: int) -> bool {
    forall|j: int| 0 <= j < i ==> (#[trigger] commands[j]).path.name != commands[i].path.name
}

pub open spec fn roots(commands: Seq<CommandView>) -> spec_fn(int) -> bool {
    |i: int| is_root(commands, i)
}

/// Whether the commands at `j` and `k` live in the same container: under the
/// same top-level name and in the same group, or both in none.
pub open spec fn in_group(commands: Seq<CommandView>, j: int, k: int) -> bool {
    commands[k].path.name == commands[j].path.name && commands[k].path.group
        == commands[j].path.group
}

/// The nested commands that share the container of the command at `j`.
pub open spec fn members(commands: Seq<CommandView>, j: int) -> spec_fn(int) -> bool {
    |k: int| commands[k].path.subcommand is Some && in_group(commands, j, k)
}

/// Whether the command at `j` opens a container: it is a nested command that
/// stands outside any group, or is the first one registered in its group.
pub open spec fn is_head(commands: Seq<CommandView>, j: int) -> bool {
    &&& commands[j].path.subcommand is Some
    &&& commands[j].path.group is Some ==> forall|k: int|
        0 <= k < j ==> !#[trigger] in_group(commands, j, k)
}

/// The commands that open a container below the top-level name of the
/// command at `i`.
pub open spec fn heads(commands: Seq<CommandView>, i: int) -> spec_fn(int) -> bool {
    |j: int| commands[j].path.name == commands[i].path.name && is_head(commands, j)
}

/// The subcommand that stands for the nested command at `k`.
pub open spec fn subcommand_at(
    commands: Seq<CommandView>,
    schemas: Seq<Seq<OptionView>>,
    k: int,
) -> SubCommandView {
    SubCommandView {
        name: commands[k].path.subcommand->Some_0,
        description: commands[k].description,
        options: schemas[k],
    }
}

/// The container that the command at `j` opens: itself as a subcommand, or
/// its group with every subcommand registered in it, in order of
/// registration. A group is described by the first command registered in it.
pub open spec fn container_at(
    commands: Seq<CommandView>,
    schemas: Seq<Seq<OptionView>>,
    j: int,
) -> DeclaredOptionView {
    match commands[j].path.group {
        None => DeclaredOptionView::SubCommand(subcommand_at(commands, schemas, j)),
        Some(group) => DeclaredOptionView::SubCommandGroup(
            SubCommandGroupView {
                name: group,
                description: commands[j].description,
                subcommands: select(commands.len(), members(commands, j)).map_values(
                    |k: int| subcommand_at(commands, schemas, k),
                ),
            },
        ),
    }
}

/// The options declared under the top-level name of the command at `i`: the
/// argument schemas of a flat command in declared order, or else the
/// containers below the name in order of registration.
pub open spec fn options_at(
    commands: Seq<CommandView>,
    schemas: Seq<Seq<OptionView>>,
    i: int,
) -> Seq<DeclaredOptionView> {
    if commands[i].path.is_flat() {
        schemas[i].map_values(|o: OptionView| DeclaredOptionView::Value(o))
    } else {
        select(commands.len(), heads(commands, i)).map_values(
            |j: int| container_at(commands, schemas, j),
        )
    }
}

/// The declaration of the top-level name of the command at `i`, which is the
/// first one registered under that name and lends the declaration its
/// description, permissions and flags.
pub open spec fn declaration_at(
    commands: Seq<CommandView>,
    schemas: Seq<Seq<OptionView>>,
    i: int,
) -> DeclarationView {
    DeclarationView {
        name: commands[i].path.name,
        description: commands[i].description,
        options: options_at(commands, schemas, i),
        required_permissions: commands[i].required_permissions,
        nsfw: commands[i].nsfw,
        only_guilds: commands[i].only_guilds,
    }
}

/// One declaration for each top-level name, in order of first registration,
/// given the argument schemas of every command.
pub open spec fn declarations(
    commands: Seq<CommandView>,
    schemas: Seq<Seq<OptionView>>,
) -> Seq<DeclarationView> {
    select(commands.len(), roots(commands)).map_values(
        |i: int| declaration_at(commands, schemas, i),
    )
}

/// Whether `schemas` holds, for each command, argument schemas that the
/// command may yield.
pub open spec fn yielded<K: Hooks>(commands: Seq<Command<K>>, schemas: Seq<Seq<OptionView>>) -> bool {
    &&& schemas.len() == commands.len()
    &&& forall|i: int| 0 <= i < commands.len() ==> (#[trigger] commands[i]).yields(schemas[i])
}

/// Whether `declared` is a list that `declare` may return for the commands:
/// the declarations for some argument schemas that the commands may yield.
pub open spec fn declares<K: Hooks>(
    commands: Seq<Command<K>>,
    declared: Seq<DeclarationView>,
) -> bool {
    exists|schemas: Seq<Seq<OptionView>>| #[trigger]
        yielded(commands, schemas) && declared == declarations(command_views(commands), schemas)
}

pub open spec fn schema_views(schemas: Seq<Vec<CommandOption>>) -> Seq<Seq<OptionView>> {
    schemas.map_values(|s: Vec<CommandOption>| option_schema_views(s@))
}

impl CommandOptionChoice {
    pub fn duplicate(&self) -> (copy: CommandOptionChoice)
        ensures
            copy@ == self@,
    {
        match self {
            CommandOptionChoice::String { name, value } => CommandOptionChoice::String {
                name: name.clone(),
                value: value.clone(),
            },
            CommandOptionChoice::Int { name, value } => CommandOptionChoice::Int {
                name: name.clone(),
                value: *value,
            },
            CommandOptionChoice::Number { name, value } => CommandOptionChoice::Number {
                name: name.clone(),
                value: *value,
            },
        }
    }
}

fn copy_choices(choices: &Vec<CommandOptionChoice>) -> (copy: Vec<CommandOptionChoice>)
    ensures
        choice_views(copy@) == choice_views(choices@),
{
    let mut copy: Vec<CommandOptionChoice> = Vec::new();
    let mut i: usize = 0;
    while i < choices.len()
        invariant
            i <= choices.len(),
            copy@.len() == i,
            forall|j: int| 0 <= j < i ==> (#[trigger] copy@[j])@ == choices@[j]@,
        decreases choices.len() - i,
    {
        copy.push(choices[i].duplicate());
        i += 1;
    }
    assert(choice_views(copy@) =~= choice_views(choices@));
    copy
}

fn copy_channel_types(types: &Vec<ChannelType>) -> (copy: Vec<ChannelType>)
    ensures
        copy@ == types@,
{
    let mut copy: Vec<ChannelType> = Vec::new();
    let mut i: usize = 0;
    while i < types.len()
        invariant
            i <= types.len(),
            copy@.len() == i,
            forall|j: int| 0 <= j < i ==> copy@[j] == types@[j],
        decreases types.len() - i,
    {
        copy.push(types[i]);
        i += 1;
    }
    assert(copy@ =~= types@);
    copy
}

fn copy_localizations(list: &Localizations) -> (copy: Localizations)
    ensures
        localization_views(copy) == localization_views(*list),
{
    match list {
        None => None,
        Some(list) => {
            let mut copy: Vec<(String, String)> = Vec::new();
            let mut i: usize = 0;
            while i < list.len()
                invariant
                    i <= list.len(),
                    copy@.len() == i,
                    forall|j: int|
                        0 <= j < i ==> (#[trigger] copy@[j]).0@ == list@[j].0@ && copy@[j].1@
                            == list@[j].1@,
                decreases list.len() - i,
            {
                copy.push((list[i].0.clone(), list[i].1.clone()));
                i += 1;
            }
            assert(localization_views(Some(copy)) =~= localization_views(Some(*list))) by {
                assert(copy@.map_values(|pair: (String, String)| (pair.0@, pair.1@))
                    =~= list@.map_values(|pair: (String, String)| (pair.0@, pair.1@)));
            }
            Some(copy)
        },
    }
}

impl BaseCommandOptionData {
    pub fn duplicate(&self) -> (copy: BaseCommandOptionData)
        ensures
            forall|kind| copy.as_view(kind) == self.as_view(kind),
    {
        BaseCommandOptionData {
            description: self.description.clone(),
            description_localizations: copy_localizations(&self.description_localizations),
            name: self.name.clone(),
            name_localizations: copy_localizations(&self.name_localizations),
            required: self.required,
        }
    }
}

impl ChoiceCommandOptionData {
    pub fn duplicate(&self) -> (copy: ChoiceCommandOptionData)
        ensures
            forall|kind| copy.as_view(kind) == self.as_view(kind),
    {
        ChoiceCommandOptionData {
            autocomplete: self.autocomplete,
            choices: copy_choices(&self.choices),
            description: self.description.clone(),
            description_localizations: copy_localizations(&self.description_localizations),
            max_length: self.max_length,
            min_length: self.min_length,
            name: self.name.clone(),
            name_localizations: copy_localizations(&self.name_localizations),
            required: self.required,
        }
    }
}

impl NumberCommandOptionData {
    pub fn duplicate(&self) -> (copy: NumberCommandOptionData)
        ensures
            forall|kind| copy.as_view(kind) == self.as_view(kind),
    {
        NumberCommandOptionData {
            autocomplete: self.autocomplete,
            choices: copy_choices(&self.choices),
            description: self.description.clone(),
            description_localizations: copy_localizations(&self.description_localizations),
            max_value: self.max_value,
            min_value: self.min_value,
            name: self.name.clone(),
            name_localizations: copy_localizations(&self.name_localizations),
            required: self.required,
        }
    }
}

impl ChannelCommandOptionData {
    pub fn duplicate(&self) -> (copy: ChannelCommandOptionData)
        ensures
            forall|kind| copy.as_view(kind) == self.as_view(kind),
    {
        ChannelCommandOptionData {
            channel_types: copy_channel_types(&self.channel_types),
            description: self.description.clone(),
            description_localizations: copy_localizations(&self.description_localizations),
            name: self.name.clone(),
            name_localizations: copy_localizations(&self.name_localizations),
            required: self.required,
        }
    }
}

impl CommandOption {
    pub fn duplicate(&self) -> (copy: CommandOption)
        ensures
            copy@ == self@,
    {
        match self {
            CommandOption::String(data) => CommandOption::String(data.duplicate()),
            CommandOption::Integer(data) => CommandOption::Integer(data.duplicate()),
            CommandOption::Boolean(data) => CommandOption::Boolean(data.duplicate()),
            CommandOption::User(data) => CommandOption::User(data.duplicate()),
            CommandOption::Channel(data) => CommandOption::Channel(data.duplicate()),
            CommandOption::Role(data) => CommandOption::Role(data.duplicate()),
            CommandOption::Mentionable(data) => CommandOption::Mentionable(data.duplicate()),
            CommandOption::Number(data) => CommandOption::Number(data.duplicate()),
        }
    }
}

fn copy_options(options: &Vec<CommandOption>) -> (copy: Vec<CommandOption>)
    ensures
        option_schema_views(copy@) == option_schema_views(options@),
{
    let mut copy: Vec<CommandOption> = Vec::new();
    let mut i: usize = 0;
    while i < options.len()
        invariant
            i <= options.len(),
            copy@.len() == i,
            forall|j: int| 0 <= j < i ==> (#[trigger] copy@[j])@ == options@[j]@,
        decreases options.len() - i,
    {
        copy.push(options[i].duplicate());
        i += 1;
    }
    assert(option_schema_views(copy@) =~= option_schema_views(options@));
    copy
}

fn value_options(options: &Vec<CommandOption>) -> (wrapped: Vec<DeclaredOption>)
    ensures
        declared_option_views(wrapped@) == option_schema_views(options@).map_values(
            |o: OptionView| DeclaredOptionView::Value(o),
        ),
{
    let mut wrapped: Vec<DeclaredOption> = Vec::new();
    let mut i: usize = 0;
    while i < options.len()
        invariant
            i <= options.len(),
            wrapped@.len() == i,
            forall|j: int|
                0 <= j < i ==> (#[trigger] wrapped@[j])@ == DeclaredOptionView::Value(
                    options@[j]@,
                ),
        decreases options.len() - i,
    {
        wrapped.push(DeclaredOption::Value(options[i].duplicate()));
        i += 1;
    }
    assert(declared_option_views(wrapped@) =~= option_schema_views(options@).map_values(
        |o: OptionView| DeclaredOptionView::Value(o),
    ));
    wrapped
}

/// Whether an earlier command carries the top-level name of the one at `i`.
fn has_earlier_name<K: Hooks>(commands: &Vec<Command<K>>, i: usize) -> (earlier: bool)
    requires
        i < commands.len(),
    ensures
        earlier == !is_root(command_views(commands@), i as int),
{
    let ghost views = command_views(commands@);
    let mut j: usize = 0;
    while j < i
        invariant
            j <= i,
            i < commands.len(),
            views == command_views(commands@),
            forall|m: int| 0 <= m < j ==> (#[trigger] views[m]).path.name != views[i as int].path.name,
        decreases i - j,
    {
        assert(views[j as int] == commands[j as int]@);
        assert(views[i as int] == commands[i as int]@);
        if commands[j].name == commands[i].name {
            return true;
        }
        j += 1;
    }
    false
}

/// Whether the command at `k` lives in the container of the one at `j`.
fn shares_group<K: Hooks>(commands: &Vec<Command<K>>, j: usize, k: usize) -> (same: bool)
    requires
        j < commands.len(),
        k < commands.len(),
    ensures
        same == in_group(command_views(commands@), j as int, k as int),
{
    let ghost views = command_views(commands@);
    assert(views[j as int] == commands[j as int]@);
    assert(views[k as int] == commands[k as int]@);
    if !(commands[k].name == commands[j].name) {
        return false;
    }
    match (&commands[k].group_path, &commands[j].group_path) {
        (None, None) => true,
        (Some(a), Some(b)) => crate::command::same_text(&a.group, &b.group),
        (Some(a), None) => a.group.is_none(),
        (None, Some(b)) => b.group.is_none(),
    }
}

/// Whether the command at `j` opens a container.
fn opens_container<K: Hooks>(commands: &Vec<Command<K>>, j: usize) -> (head: bool)
    requires
        j < commands.len(),
    ensures
        head == is_head(command_views(commands@), j as int),
{
    let ghost views = command_views(commands@);
    assert(views[j as int] == commands[j as int]@);
    match &commands[j].group_path {
        None => false,
        Some(nested) => {
            if nested.group.is_none() {
                return true;
            }
            let mut k: usize = 0;
            while k < j
                invariant
                    k <= j,
                    j < commands.len(),
                    views == command_views(commands@),
                    views[j as int].path.subcommand is Some,
                    views[j as int].path.group is Some,
                    forall|m: int| 0 <= m < k ==> !#[trigger] in_group(views, j as int, m),
                decreases j - k,
            {
                if shares_group(commands, j, k) {
                    return false;
                }
                k += 1;
            }
            true
        },
    }
}

/// The subcommand that stands for the nested command at `k`.
fn subcommand_of<K: Hooks>(
    commands: &Vec<Command<K>>,
    schemas: &Vec<Vec<CommandOption>>,
    k: usize,
) -> (subcommand: SubCommandOption)
    requires
        k < commands.len(),
        schemas.len() == commands.len(),
        commands[k as int].group_path is Some,
    ensures
        subcommand@ == subcommand_at(command_views(commands@), schema_views(schemas@), k as int),
{
    assert(command_views(commands@)[k as int] == commands[k as int]@);
    assert(schema_views(schemas@)[k as int] == option_schema_views(schemas[k as int]@));
    match &commands[k].group_path {
        Some(nested) => SubCommandOption {
            name: nested.subcommand.clone(),
            description: commands[k].description.clone(),
            options: copy_options(&schemas[k]),
        },
        None => SubCommandOption {
            name: String::new(),
            description: commands[k].description.clone(),
            options: Vec::new(),
        },
    }
}

/// Every subcommand in the container of the command at `j`.
fn group_members<K: Hooks>(
    commands: &Vec<Command<K>>,
    schemas: &Vec<Vec<CommandOption>>,
    j: usize,
) -> (subcommands: Vec<SubCommandOption>)
    requires
        j < commands.len(),
        schemas.len() == commands.len(),
    ensures
        subcommand_views(subcommands@) == select(
            commands@.len(),
            members(command_views(commands@), j as int),
        ).map_values(
            |k: int| subcommand_at(command_views(commands@), schema_views(schemas@), k),
        ),
{
    let ghost views = command_views(commands@);
    let ghost given = schema_views(schemas@);
    let ghost keep = members(views, j as int);
    let ghost make = |k: int| subcommand_at(views, given, k);
    let mut subcommands: Vec<SubCommandOption> = Vec::new();
    let mut k: usize = 0;
    while k < commands.len()
        invariant
            k <= commands.len(),
            j < commands.len(),
            schemas.len() == commands.len(),
            views == command_views(commands@),
            given == schema_views(schemas@),
            keep == members(views, j as int),
            make == |k: int| subcommand_at(views, given, k),
            subcommand_views(subcommands@) == select(k as nat, keep).map_values(make),
        decreases commands.len() - k,
    {
        assert(views[k as int] == commands[k as int]@);
        let ghost before = subcommand_views(subcommands@);
        if commands[k].group_path.is_some() && shares_group(commands, j, k) {
            let subcommand = subcommand_of(commands, schemas, k);
            subcommands.push(subcommand);
            assert(keep(k as int));
            assert(subcommand_views(subcommands@) =~= before.push(make(k as int)));
            assert(select((k + 1) as nat, keep).map_values(make) =~= select(
                k as nat,
                keep,
            ).map_values(make).push(make(k as int)));
        } else {
            assert(!keep(k as int));
        }
        k += 1;
    }
    subcommands
}

/// The container that the command at `j` opens.
fn container_of<K: Hooks>(
    commands: &Vec<Command<K>>,
    schemas: &Vec<Vec<CommandOption>>,
    j: usize,
) -> (container: DeclaredOption)
    requires
        j < commands.len(),
        schemas.len() == commands.len(),
        commands[j as int].group_path is Some,
    ensures
        container@ == container_at(command_views(commands@), schema_views(schemas@), j as int),
{
    assert(command_views(commands@)[j as int] == commands[j as int]@);
    match &commands[j].group_path {
        Some(nested) => match &nested.group {
            Some(group) => DeclaredOption::SubCommandGroup(
                SubCommandGroupOption {
                    name: group.clone(),
                    description: commands[j].description.clone(),
                    subcommands: group_members(commands, schemas, j),
                },
            ),
            None => DeclaredOption::SubCommand(subcommand_of(commands, schemas, j)),
        },
        None => DeclaredOption::SubCommand(subcommand_of(commands, schemas, j)),
    }
}

/// The containers below the top-level name of the command at `i`.
fn containers<K: Hooks>(
    commands: &Vec<Command<K>>,
    schemas: &Vec<Vec<CommandOption>>,
    i: usize,
) -> (options: Vec<DeclaredOption>)
    requires
        i < commands.len(),
        schemas.len() == commands.len(),
    ensures
        declared_option_views(options@) == select(
            commands@.len(),
            heads(command_views(commands@), i as int),
        ).map_values(
            |j: int| container_at(command_views(commands@), schema_views(schemas@), j),
        ),
{
    let ghost views = command_views(commands@);
    let ghost given = schema_views(schemas@);
    let ghost keep = heads(views, i as int);
    let ghost make = |j: int| container_at(views, given, j);
    let mut options: Vec<DeclaredOption> = Vec::new();
    let mut j: usize = 0;
    while j < commands.len()
        invariant
            j <= commands.len(),
            i < commands.len(),
            schemas.len() == commands.len(),
            views == command_views(commands@),
            given == schema_views(schemas@),
            keep == heads(views, i as int),
            make == |j: int| container_at(views, given, j),
            declared_option_views(options@) == select(j as nat, keep).map_values(make),
        decreases commands.len() - j,
    {
        assert(views[j as int] == commands[j as int]@);
        assert(views[i as int] == commands[i as int]@);
        let ghost before = declared_option_views(options@);
        if commands[j].name == commands[i].name && opens_container(commands, j) {
            let container = container_of(commands, schemas, j);
            options.push(container);
            assert(keep(j as int));
            assert(declared_option_views(options@) =~= before.push(make(j as int)));
            assert(select((j + 1) as nat, keep).map_values(make) =~= select(
                j as nat,
                keep,
            ).map_values(make).push(make(j as int)));
        } else {
            assert(!keep(j as int));
        }
        j += 1;
    }
    options
}

/// The declaration of the top-level name of the command at `i`.
fn declaration_of<K: Hooks>(
    commands: &Vec<Command<K>>,
    schemas: &Vec<Vec<CommandOption>>,
    i: usize,
) -> (declaration: CommandDeclaration)
    requires
        i < commands.len(),
        schemas.len() == commands.len(),
    ensures
        declaration@ == declaration_at(command_views(commands@), schema_views(schemas@), i as int),
{
    assert(command_views(commands@)[i as int] == commands[i as int]@);
    assert(schema_views(schemas@)[i as int] == option_schema_views(schemas[i as int]@));
    let command = &commands[i];
    let options = if command.group_path.is_none() {
        value_options(&schemas[i])
    } else {
        containers(commands, schemas, i)
    };
    CommandDeclaration {
        name: command.name.clone(),
        description: command.description.clone(),
        options,
        required_permissions: command.required_permissions,
        nsfw: command.nsfw,
        only_guilds: command.only_guilds,
    }
}

/// Whether the choices callbacks of all commands may be called.
pub open spec fn all_callable<K: Hooks>(commands: Seq<Command<K>>) -> bool {
    forall|i: int| 0 <= i < commands.len() ==> (#[trigger] commands[i]).choices_callable()
}

/// Builds what the platform is told about the commands: one declaration for
/// each top-level name, in order of first registration, with the subcommands
/// and groups below a name as nested options.
pub fn declare<K: Hooks>(commands: &Vec<Command<K>>) -> (declared: Vec<CommandDeclaration>)
    requires
        all_callable(commands@),
    ensures
        declares(commands@, declaration_views(declared@)),
{
    let mut schemas: Vec<Vec<CommandOption>> = Vec::new();
    let mut n: usize = 0;
    while n < commands.len()
        invariant
            n <= commands.len(),
            all_callable(commands@),
            schemas@.len() == n,
            forall|m: int|
                0 <= m < n ==> (#[trigger] commands@[m]).yields(
                    option_schema_views(schemas@[m]@),
                ),
        decreases commands.len() - n,
    {
        let options = commands[n].options();
        schemas.push(options);
        n += 1;
    }
    let ghost views = command_views(commands@);
    let ghost given = schema_views(schemas@);
    let ghost keep = roots(views);
    let ghost make = |i: int| declaration_at(views, given, i);
    let mut declared: Vec<CommandDeclaration> = Vec::new();
    let mut i: usize = 0;
    while i < commands.len()
        invariant
            i <= commands.len(),
            schemas.len() == commands.len(),
            views == command_views(commands@),
            given == schema_views(schemas@),
            keep == roots(views),
            make == |i: int| declaration_at(views, given, i),
            declaration_views(declared@) == select(i as nat, keep).map_values(make),
        decreases commands.len() - i,
    {
        let ghost before = declaration_views(declared@);
        if !has_earlier_name(commands, i) {
            let declaration = declaration_of(commands, &schemas, i);
            declared.push(declaration);
            assert(keep(i as int));
            assert(declaration_views(declared@) =~= before.push(make(i as int)));
            assert(select((i + 1) as nat, keep).map_values(make) =~= select(
                i as nat,
                keep,
            ).map_values(make).push(make(i as int)));
        } else {
            assert(!keep(i as int));
        }
        i += 1;
    }
    proof {
        assert forall|m: int| 0 <= m < commands@.len() implies (#[trigger] commands@[m]).yields(
            given[m],
        ) by {
            assert(given[m] == option_schema_views(schemas@[m]@));
        }
        assert(yielded(commands@, given));
    }
    declared
}

} // verus!
