use zephyrus::argument::{CommandArgument, CommandOptionChoice, CommandOptionType};
use zephyrus::coercion::{
    coerce, coerce_argument, coerce_arguments, find_option, Channel, CoercionError,
    CoercionErrorKind, NamedValue, RawOption, RawValue, Resolved, Role, User, Value,
};
use zephyrus::hook::Hooks;

struct CoercionHooks;

impl Hooks for CoercionHooks {
    type Choices = fn() -> Option<Vec<CommandOptionChoice>>;
    type Autocomplete = u32;
    type Check = u32;
    type Before = u32;
    type After = u32;
    type ErrorHandler = u32;
    type Executor = u32;
}

fn coercion_no_choices() -> Option<Vec<CommandOptionChoice>> {
    None
}

fn coercion_argument(
    name: &'static str,
    kind: CommandOptionType,
    required: bool,
) -> CommandArgument<CoercionHooks> {
    CommandArgument::from((
        name,
        "",
        required,
        kind,
        coercion_no_choices as fn() -> Option<Vec<CommandOptionChoice>>,
        None,
    ))
}

fn coercion_option(name: &str, value: RawValue) -> RawOption {
    RawOption { name: name.to_string(), value, focused: false }
}

fn coercion_resolved() -> Resolved {
    Resolved {
        users: vec![
            User { id: 1, name: "ann".to_string(), bot: false },
            User { id: 2, name: "bot".to_string(), bot: true },
            User { id: 1, name: "shadow".to_string(), bot: false },
        ],
        channels: vec![Channel { id: 10, name: "general".to_string() }],
        roles: vec![
            Role { id: 20, name: "admin".to_string() },
            Role { id: 2, name: "same id as a user".to_string() },
        ],
    }
}

fn coercion_empty() -> Resolved {
    Resolved { users: Vec::new(), channels: Vec::new(), roles: Vec::new() }
}

#[test]
fn integer_argument_takes_integer_and_rejects_string() {
    let resolved = coercion_empty();
    assert_eq!(
        coerce(CommandOptionType::Integer, &RawValue::Integer(-42), &resolved),
        Ok(Value::Integer(-42))
    );
    assert_eq!(
        coerce(CommandOptionType::Integer, &RawValue::String("42".to_string()), &resolved),
        Err(CoercionErrorKind::TypeMismatch)
    );
}

#[test]
fn plain_kinds_keep_their_value() {
    let resolved = coercion_empty();
    assert_eq!(
        coerce(CommandOptionType::String, &RawValue::String("hi".to_string()), &resolved),
        Ok(Value::String("hi".to_string()))
    );
    assert_eq!(
        coerce(CommandOptionType::Boolean, &RawValue::Boolean(true), &resolved),
        Ok(Value::Boolean(true))
    );
    let bits = 1.5f64.to_bits();
    assert_eq!(
        coerce(CommandOptionType::Number, &RawValue::Number(bits), &resolved),
        Ok(Value::Number(bits))
    );
    assert_eq!(
        coerce(CommandOptionType::Number, &RawValue::Integer(1), &resolved),
        Err(CoercionErrorKind::TypeMismatch)
    );
    assert_eq!(
        coerce(CommandOptionType::Boolean, &RawValue::Integer(1), &resolved),
        Err(CoercionErrorKind::TypeMismatch)
    );
    assert_eq!(
        coerce(CommandOptionType::String, &RawValue::User(1), &resolved),
        Err(CoercionErrorKind::TypeMismatch)
    );
}

#[test]
fn platform_objects_come_from_the_resolved_tables() {
    let resolved = coercion_resolved();
    assert_eq!(
        coerce(CommandOptionType::User, &RawValue::User(1), &resolved),
        Ok(Value::User(User { id: 1, name: "ann".to_string(), bot: false }))
    );
    assert_eq!(
        coerce(CommandOptionType::Channel, &RawValue::Channel(10), &resolved),
        Ok(Value::Channel(Channel { id: 10, name: "general".to_string() }))
    );
    assert_eq!(
        coerce(CommandOptionType::Role, &RawValue::Role(20), &resolved),
        Ok(Value::Role(Role { id: 20, name: "admin".to_string() }))
    );
    assert_eq!(
        coerce(CommandOptionType::User, &RawValue::User(3), &resolved),
        Err(CoercionErrorKind::Custom)
    );
    assert_eq!(
        coerce(CommandOptionType::Channel, &RawValue::Channel(11), &resolved),
        Err(CoercionErrorKind::Custom)
    );
    assert_eq!(
        coerce(CommandOptionType::Role, &RawValue::Role(1), &resolved),
        Err(CoercionErrorKind::Custom)
    );
    assert_eq!(
        coerce(CommandOptionType::User, &RawValue::Role(20), &resolved),
        Err(CoercionErrorKind::TypeMismatch)
    );
}

#[test]
fn mentionable_is_a_user_before_it_is_a_role() {
    let resolved = coercion_resolved();
    assert_eq!(
        coerce(CommandOptionType::Mentionable, &RawValue::Mentionable(2), &resolved),
        Ok(Value::User(User { id: 2, name: "bot".to_string(), bot: true }))
    );
    assert_eq!(
        coerce(CommandOptionType::Mentionable, &RawValue::Mentionable(20), &resolved),
        Ok(Value::Role(Role { id: 20, name: "admin".to_string() }))
    );
    assert_eq!(
        coerce(CommandOptionType::Mentionable, &RawValue::Mentionable(99), &resolved),
        Err(CoercionErrorKind::Custom)
    );
    assert_eq!(
        coerce(CommandOptionType::Mentionable, &RawValue::User(2), &resolved),
        Err(CoercionErrorKind::TypeMismatch)
    );
}

#[test]
fn resolved_lookups_return_the_first_match() {
    let resolved = coercion_resolved();
    assert_eq!(resolved.user(1).unwrap().name, "ann");
    assert_eq!(resolved.user(2).unwrap().name, "bot");
    assert!(resolved.user(7).is_none());
    assert_eq!(resolved.channel(10).unwrap().name, "general");
    assert!(resolved.channel(1).is_none());
    assert_eq!(resolved.role(2).unwrap().name, "same id as a user");
    assert!(resolved.role(10).is_none());
    let user = User { id: 5, name: "eve".to_string(), bot: false };
    assert_eq!(user.duplicate(), user);
    let channel = Channel { id: 5, name: "c".to_string() };
    assert_eq!(channel.duplicate(), channel);
    let role = Role { id: 5, name: "r".to_string() };
    assert_eq!(role.duplicate(), role);
}

#[test]
fn options_are_found_by_name() {
    let options = vec![
        coercion_option("a", RawValue::Integer(1)),
        coercion_option("b", RawValue::Integer(2)),
        coercion_option("a", RawValue::Integer(3)),
    ];
    assert_eq!(find_option(&options, &"a".to_string()), Some(0));
    assert_eq!(find_option(&options, &"b".to_string()), Some(1));
    assert_eq!(find_option(&options, &"c".to_string()), None);
    assert_eq!(find_option(&Vec::new(), &"a".to_string()), None);
}

#[test]
fn absent_optional_argument_is_absent_and_required_one_is_missing() {
    let resolved = coercion_empty();
    let options = vec![coercion_option("other", RawValue::Integer(1))];
    let optional = coercion_argument("count", CommandOptionType::Integer, false);
    assert_eq!(coerce_argument(&optional, &options, &resolved), Ok(Value::Absent));
    let required = coercion_argument("count", CommandOptionType::Integer, true);
    assert_eq!(
        coerce_argument(&required, &options, &resolved),
        Err(CoercionError {
            kind: CoercionErrorKind::MissingRequired,
            detail: "count".to_string()
        })
    );
}

#[test]
fn present_argument_is_coerced_and_errors_name_it() {
    let resolved = coercion_empty();
    let options = vec![
        coercion_option("count", RawValue::Integer(3)),
        coercion_option("label", RawValue::Integer(4)),
    ];
    let count = coercion_argument("count", CommandOptionType::Integer, false);
    assert_eq!(coerce_argument(&count, &options, &resolved), Ok(Value::Integer(3)));
    let label = coercion_argument("label", CommandOptionType::String, false);
    assert_eq!(
        coerce_argument(&label, &options, &resolved),
        Err(CoercionError { kind: CoercionErrorKind::TypeMismatch, detail: "label".to_string() })
    );
}

#[test]
fn arguments_are_coerced_in_declared_order() {
    let resolved = coercion_resolved();
    let arguments = vec![
        coercion_argument("who", CommandOptionType::User, true),
        coercion_argument("times", CommandOptionType::Integer, false),
        coercion_argument("why", CommandOptionType::String, true),
    ];
    let options = vec![
        coercion_option("why", RawValue::String("spam".to_string())),
        coercion_option("who", RawValue::User(2)),
    ];
    assert_eq!(
        coerce_arguments(&arguments, &options, &resolved),
        Ok(vec![
            NamedValue {
                name: "who".to_string(),
                value: Value::User(User { id: 2, name: "bot".to_string(), bot: true })
            },
            NamedValue { name: "times".to_string(), value: Value::Absent },
            NamedValue { name: "why".to_string(), value: Value::String("spam".to_string()) },
        ])
    );
    let none: Vec<CommandArgument<CoercionHooks>> = Vec::new();
    assert_eq!(coerce_arguments(&none, &options, &resolved), Ok(Vec::new()));
}

#[test]
fn first_failing_argument_decides_the_error() {
    let resolved = coercion_resolved();
    let arguments = vec![
        coercion_argument("times", CommandOptionType::Integer, false),
        coercion_argument("who", CommandOptionType::User, true),
        coercion_argument("why", CommandOptionType::String, true),
    ];
    let options = vec![
        coercion_option("who", RawValue::User(77)),
        coercion_option("times", RawValue::Integer(1)),
    ];
    assert_eq!(
        coerce_arguments(&arguments, &options, &resolved),
        Err(CoercionError { kind: CoercionErrorKind::Custom, detail: "who".to_string() })
    );
    let options = vec![coercion_option("who", RawValue::User(1))];
    assert_eq!(
        coerce_arguments(&arguments, &options, &resolved),
        Err(CoercionError { kind: CoercionErrorKind::MissingRequired, detail: "why".to_string() })
    );
}
