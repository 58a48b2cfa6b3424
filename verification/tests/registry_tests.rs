use zephyrus::argument::{
    BaseCommandOptionData, ChoiceCommandOptionData, CommandArgument, CommandOption,
    CommandOptionChoice, CommandOptionType,
};
use zephyrus::command::{Command, CommandPath, GroupPath};
use zephyrus::declaration::{
    CommandDeclaration, DeclaredOption, SubCommandGroupOption, SubCommandOption,
};
use zephyrus::hook::Hooks;
use zephyrus::registry::{Registry, RegistryError};

struct RegistryHooks;

impl Hooks for RegistryHooks {
    type Choices = fn() -> Option<Vec<CommandOptionChoice>>;
    type Autocomplete = u32;
    type Check = u32;
    type Before = u32;
    type After = u32;
    type ErrorHandler = u32;
    type Executor = u32;
}

fn registry_no_choices() -> Option<Vec<CommandOptionChoice>> {
    None
}

fn registry_flat(name: &str, executor: u32) -> Command<RegistryHooks> {
    Command::new(name.to_string(), format!("{name} description"), executor)
}

fn registry_nested(
    name: &str,
    group: Option<&str>,
    subcommand: &str,
    executor: u32,
) -> Command<RegistryHooks> {
    Command::new(name.to_string(), format!("{subcommand} description"), executor)
        .nested(group.map(|g| g.to_string()), subcommand.to_string())
}

fn registry_path(name: &str, group: Option<&str>, subcommand: Option<&str>) -> CommandPath {
    CommandPath {
        name: name.to_string(),
        group: group.map(|g| g.to_string()),
        subcommand: subcommand.map(|s| s.to_string()),
    }
}

fn registry_argument(name: &'static str, kind: CommandOptionType) -> CommandArgument<RegistryHooks> {
    let description: &'static str = Box::leak(format!("{name} argument").into_boxed_str());
    CommandArgument::from((
        name,
        description,
        true,
        kind,
        registry_no_choices as fn() -> Option<Vec<CommandOptionChoice>>,
        None,
    ))
}

#[test]
fn new_registry_is_empty() {
    let registry: Registry<RegistryHooks> = Registry::new();
    assert_eq!(registry.len(), 0);
    assert!(registry.get(0).is_none());
    assert_eq!(
        registry.lookup(&registry_path("ping", None, None)).err(),
        Some(RegistryError::UnknownCommand)
    );
    assert!(registry.list_top_level().is_empty());
}

#[test]
fn lookup_returns_the_registered_flat_command() {
    let mut registry = Registry::new();
    assert_eq!(registry.register(registry_flat("ping", 1)), Ok(()));
    assert_eq!(registry.register(registry_flat("pong", 2)), Ok(()));
    assert_eq!(registry.len(), 2);
    let found = registry.lookup(&registry_path("ping", None, None)).ok().unwrap();
    assert_eq!(found.name, "ping");
    assert_eq!(found.executor, 1);
    let found = registry.lookup(&registry_path("pong", None, None)).ok().unwrap();
    assert_eq!(found.executor, 2);
    assert_eq!(registry.position(&registry_path("pong", None, None)), Some(1));
    assert_eq!(registry.get(1).unwrap().name, "pong");
    assert!(registry.get(2).is_none());
}

#[test]
fn duplicate_registration_fails_and_changes_nothing() {
    let mut registry = Registry::new();
    assert_eq!(registry.register(registry_flat("ping", 1)), Ok(()));
    assert_eq!(registry.register(registry_flat("ping", 2)), Err(RegistryError::DuplicatePath));
    assert_eq!(registry.len(), 1);
    assert_eq!(registry.lookup(&registry_path("ping", None, None)).ok().unwrap().executor, 1);

    assert_eq!(registry.register(registry_nested("admin", Some("user"), "ban", 3)), Ok(()));
    assert_eq!(
        registry.register(registry_nested("admin", Some("user"), "ban", 4)),
        Err(RegistryError::DuplicatePath)
    );
    assert_eq!(registry.len(), 2);
    let path = registry_path("admin", Some("user"), Some("ban"));
    assert_eq!(registry.lookup(&path).ok().unwrap().executor, 3);
}

#[test]
fn flat_and_nested_commands_cannot_share_a_name() {
    let mut registry = Registry::new();
    assert_eq!(registry.register(registry_flat("ping", 1)), Ok(()));
    assert_eq!(
        registry.register(registry_nested("ping", None, "now", 2)),
        Err(RegistryError::ShapeConflict)
    );
    assert_eq!(registry.register(registry_nested("admin", None, "kick", 3)), Ok(()));
    assert_eq!(registry.register(registry_flat("admin", 4)), Err(RegistryError::ShapeConflict));
    assert_eq!(registry.len(), 2);
}

#[test]
fn nested_command_is_found_by_its_full_path_only() {
    let mut registry = Registry::new();
    assert_eq!(registry.register(registry_nested("admin", Some("user"), "ban", 1)), Ok(()));
    assert_eq!(registry.register(registry_nested("admin", Some("user"), "kick", 2)), Ok(()));
    assert_eq!(registry.register(registry_nested("admin", None, "status", 3)), Ok(()));

    let full = registry_path("admin", Some("user"), Some("kick"));
    assert_eq!(registry.lookup(&full).ok().unwrap().executor, 2);
    let direct = registry_path("admin", None, Some("status"));
    assert_eq!(registry.lookup(&direct).ok().unwrap().executor, 3);

    let unknown = Some(RegistryError::UnknownCommand);
    assert_eq!(registry.lookup(&registry_path("admin", None, None)).err(), unknown);
    assert_eq!(registry.lookup(&registry_path("admin", Some("user"), None)).err(), unknown);
    assert_eq!(registry.lookup(&registry_path("admin", None, Some("ban"))).err(), unknown);
    assert_eq!(
        registry.lookup(&registry_path("admin", Some("role"), Some("ban"))).err(),
        unknown
    );
    assert_eq!(
        registry.lookup(&registry_path("other", Some("user"), Some("ban"))).err(),
        unknown
    );
    assert_eq!(registry.position(&registry_path("admin", Some("user"), Some("mute"))), None);
}

#[test]
fn command_paths_compare_by_every_part() {
    let command = registry_nested("admin", Some("user"), "ban", 1);
    assert!(command.has_path(&registry_path("admin", Some("user"), Some("ban"))));
    assert!(!command.has_path(&registry_path("admin", None, Some("ban"))));
    assert!(!command.has_path(&registry_path("admin", Some("user"), None)));
    assert!(command.same_path(&registry_nested("admin", Some("user"), "ban", 9)));
    assert!(!command.same_path(&registry_nested("admin", Some("role"), "ban", 9)));
    assert!(!command.same_path(&registry_flat("admin", 9)));
    assert!(registry_flat("admin", 1).same_path(&registry_flat("admin", 2)));
    assert_eq!(
        command.group_path,
        Some(GroupPath { group: Some("user".to_string()), subcommand: "ban".to_string() })
    );
}

#[test]
fn builder_sets_each_part() {
    let command = registry_flat("ban", 5)
        .description("Bans a member".to_string())
        .argument(registry_argument("member", CommandOptionType::User))
        .argument(registry_argument("reason", CommandOptionType::String))
        .required_permissions(4)
        .checks(vec![10, 11])
        .before(20)
        .after(21)
        .error_handler(22)
        .nsfw(true)
        .only_guilds(true);
    assert_eq!(command.name, "ban");
    assert_eq!(command.description, "Bans a member");
    assert_eq!(command.arguments.len(), 2);
    assert_eq!(command.arguments[0].name, "member");
    assert_eq!(command.arguments[1].name, "reason");
    assert_eq!(command.required_permissions, Some(4));
    assert_eq!(command.checks, vec![10, 11]);
    assert_eq!(command.before_hook, Some(20));
    assert_eq!(command.after_hook, Some(21));
    assert_eq!(command.error_handler, Some(22));
    assert!(command.nsfw);
    assert!(command.only_guilds);
    assert_eq!(command.executor, 5);
    assert_eq!(command.group_path, None);
}

#[test]
fn command_options_follow_declared_order() {
    let command = registry_flat("ban", 5)
        .argument(registry_argument("member", CommandOptionType::User))
        .argument(registry_argument("reason", CommandOptionType::String));
    assert_eq!(
        command.options(),
        vec![
            CommandOption::User(BaseCommandOptionData {
                description: "member argument".to_string(),
                name: "member".to_string(),
                required: true,
                ..Default::default()
            }),
            CommandOption::String(ChoiceCommandOptionData {
                autocomplete: false,
                choices: Vec::new(),
                description: "reason argument".to_string(),
                name: "reason".to_string(),
                required: true,
                ..Default::default()
            }),
        ]
    );
}

#[test]
fn declarations_nest_subcommands_and_groups() {
    let mut registry = Registry::new();
    let ping = registry_flat("ping", 1)
        .argument(registry_argument("times", CommandOptionType::Integer))
        .required_permissions(8)
        .nsfw(true);
    assert_eq!(registry.register(ping), Ok(()));
    assert_eq!(registry.register(registry_nested("admin", Some("user"), "ban", 2)), Ok(()));
    assert_eq!(registry.register(registry_nested("admin", None, "status", 3)), Ok(()));
    assert_eq!(registry.register(registry_flat("help", 4).only_guilds(true)), Ok(()));
    let kick = registry_nested("admin", Some("user"), "kick", 5)
        .argument(registry_argument("member", CommandOptionType::User));
    assert_eq!(registry.register(kick), Ok(()));
    assert_eq!(registry.register(registry_nested("admin", Some("role"), "add", 6)), Ok(()));

    let declared = registry.list_top_level();
    let expected = vec![
        CommandDeclaration {
            name: "ping".to_string(),
            description: "ping description".to_string(),
            options: vec![DeclaredOption::Value(CommandOption::Integer(
                zephyrus::argument::NumberCommandOptionData {
                    autocomplete: false,
                    choices: Vec::new(),
                    description: "times argument".to_string(),
                    name: "times".to_string(),
                    required: true,
                    ..Default::default()
                },
            ))],
            required_permissions: Some(8),
            nsfw: true,
            only_guilds: false,
        },
        CommandDeclaration {
            name: "admin".to_string(),
            description: "ban description".to_string(),
            options: vec![
                DeclaredOption::SubCommandGroup(SubCommandGroupOption {
                    name: "user".to_string(),
                    description: "ban description".to_string(),
                    subcommands: vec![
                        SubCommandOption {
                            name: "ban".to_string(),
                            description: "ban description".to_string(),
                            options: Vec::new(),
                        },
                        SubCommandOption {
                            name: "kick".to_string(),
                            description: "kick description".to_string(),
                            options: vec![CommandOption::User(BaseCommandOptionData {
                                description: "member argument".to_string(),
                                name: "member".to_string(),
                                required: true,
                                ..Default::default()
                            })],
                        },
                    ],
                }),
                DeclaredOption::SubCommand(SubCommandOption {
                    name: "status".to_string(),
                    description: "status description".to_string(),
                    options: Vec::new(),
                }),
                DeclaredOption::SubCommandGroup(SubCommandGroupOption {
                    name: "role".to_string(),
                    description: "add description".to_string(),
                    subcommands: vec![SubCommandOption {
                        name: "add".to_string(),
                        description: "add description".to_string(),
                        options: Vec::new(),
                    }],
                }),
            ],
            required_permissions: None,
            nsfw: false,
            only_guilds: false,
        },
        CommandDeclaration {
            name: "help".to_string(),
            description: "help description".to_string(),
            options: Vec::new(),
            required_permissions: None,
            nsfw: false,
            only_guilds: true,
        },
    ];
    assert_eq!(declared, expected);
}

#[test]
fn copies_of_schemas_are_equal() {
    let choice = CommandOptionChoice::Number { name: "half".to_string(), value: 0x3fe0000000000000 };
    assert_eq!(choice.duplicate(), choice);
    let option = CommandOption::String(ChoiceCommandOptionData {
        autocomplete: false,
        choices: vec![
            CommandOptionChoice::String { name: "Red".to_string(), value: "red".to_string() },
            CommandOptionChoice::Int { name: "One".to_string(), value: 1 },
        ],
        description: "d".to_string(),
        name: "n".to_string(),
        required: true,
        ..Default::default()
    });
    assert_eq!(option.duplicate(), option);
    let channel = CommandOption::Channel(zephyrus::argument::ChannelCommandOptionData {
        channel_types: vec![zephyrus::argument::ChannelType::GuildText],
        description: "d".to_string(),
        name: "n".to_string(),
        required: false,
        ..Default::default()
    });
    assert_eq!(channel.duplicate(), channel);
}
