use crate::argument::{ArgumentView, CommandArgument, CommandOptionType};
use crate::command::argument_views;
use crate::hook::Hooks;
use crate::search::{first_at, first_index, lemma_first_index_is, lemma_first_index_none, none_hit};
use vstd::prelude::*;

verus! {

/// A raw option value as the platform sent it. Platform objects come as
/// their identifiers; a number comes as the bits of an IEEE-754 double.
#[derive(Clone, Debug, PartialEq, Eq)]
pub enum RawValue {
    String(String),
    Integer(i64),
    Boolean(bool),
    User(u64),
    Channel(u64),
    Role(u64),
    Mentionable(u64),
    Number(u64),
}

pub enum RawValueView {
    String(Seq<char>),
    Integer(i64),
    Boolean(bool),
    User(u64),
    Channel(u64),
    Role(u64),
    Mentionable(u64),
    Number(u64),
}

impl View for RawValue {
    type V = RawValueView;

    open spec fn view(&self) -> RawValueView {
        match self {
            RawValue::String(text) => RawValueView::String(text@),
            RawValue::Integer(n) => RawValueView::Integer(*n),
            RawValue::Boolean(b) => RawValueView::Boolean(*b),
            RawValue::User(id) => RawValueView::User(*id),
            RawValue::Channel(id) => RawValueView::Channel(*id),
            RawValue::Role(id) => RawValueView::Role(*id),
            RawValue::Mentionable(id) => RawValueView::Mentionable(*id),
            RawValue::Number(bits) => RawValueView::Number(*bits),
        }
    }
}

/// One named option of an interaction. `focused` marks the field that the
/// user is typing into when the interaction asks for autocomplete.
#[derive(Clone, Debug, PartialEq, Eq)]
pub struct RawOption {
    pub name: String,
    pub value: RawValue,
    pub focused: bool,
}

pub struct RawOptionView {
    pub name: Seq<char>,
    pub value: RawValueView,
    pub focused: bool,
}

impl View for RawOption {
    type V = RawOptionView;

    open spec fn view(&self) -> RawOptionView {
        RawOptionView { name: self.name@, value: self.value@, focused: self.focused }
    }
}

pub open spec fn option_views(options: Seq<RawOption>) -> Seq<RawOptionView> {
    options.map_values(|o: RawOption| o@)
}

/// A user that the interaction payload resolved.
#[derive(Clone, Debug, PartialEq, Eq)]
pub struct User {
    pub id: u64,
    pub name: String,
    pub bot: bool,
}

pub struct UserView {
    pub id: u64,
    pub name: Seq<char>,
    pub bot: bool,
}

impl View for User {
    type V = UserView;

    open spec fn view(&self) -> UserView {
        UserView { id: self.id, name: self.name@, bot: self.bot }
    }
}

/// A channel that the interaction payload resolved.
#[derive(Clone, Debug, PartialEq, Eq)]
pub struct Channel {
    pub id: u64,
    pub name: String,
}

pub struct ChannelView {
    pub id: u64,
    pub name: Seq<char>,
}

impl View for Channel {
    type V = ChannelView;

    open spec fn view(&self) -> ChannelView {
        ChannelView { id: self.id, name: self.name@ }
    }
}

/// A role that the interaction payload resolved.
#[derive(Clone, Debug, PartialEq, Eq)]
pub struct Role {
    pub id: u64,
    pub name: String,
}

pub struct RoleView {
    pub id: u64,
    pub name: Seq<char>,
}

impl View for Role {
    type V = RoleView;

    open spec fn view(&self) -> RoleView {
        RoleView { id: self.id, name: self.name@ }
    }
}

/// The resolved-object tables of an interaction.
#[derive(Clone, Debug, PartialEq, Eq)]
pub struct Resolved {
    pub users: Vec<User>,
    pub channels: Vec<Channel>,
    pub roles: Vec<Role>,
}

pub struct ResolvedView {
    pub users: Seq<UserView>,
    pub channels: Seq<ChannelView>,
    pub roles: Seq<RoleView>,
}

impl View for Resolved {
    type V = ResolvedView;

    open spec fn view(&self) -> ResolvedView {
        ResolvedView {
            users: self.users@.map_values(|u: User| u@),
            channels: self.channels@.map_values(|c: Channel| c@),
            roles: self.roles@.map_values(|r: Role| r@),
        }
    }
}

/// A typed argument value. `Absent` stands for an optional argument that the
/// interaction left out. A mentionable coerces to the user or role it names.
#[derive(Clone, Debug, PartialEq, Eq)]
pub enum Value {
    String(String),
    Integer(i64),
    Boolean(bool),
    User(User),
    Channel(Channel),
    Role(Role),
    Number(u64),
    Absent,
}

pub enum ValueView {
    String(Seq<char>),
    Integer(i64),
    Boolean(bool),
    User(UserView),
    Channel(ChannelView),
    Role(RoleView),
    Number(u64),
    Absent,
}

impl View for Value {
    type V = ValueView;

    open spec fn view(&self) -> ValueView {
        match self {
            Value::String(text) => ValueView::String(text@),
            Value::Integer(n) => ValueView::Integer(*n),
            Value::Boolean(b) => ValueView::Boolean(*b),
            Value::User(user) => ValueView::User(user@),
            Value::Channel(channel) => ValueView::Channel(channel@),
            Value::Role(role) => ValueView::Role(role@),
            Value::Number(bits) => ValueView::Number(*bits),
            Value::Absent => ValueView::Absent,
        }
    }
}

/// A coerced value under the name of the argument it belongs to.
#[derive(Clone, Debug, PartialEq, Eq)]
pub struct NamedValue {
    pub name: String,
    pub value: Value,
}

pub struct NamedValueView {
    pub name: Seq<char>,
    pub value: ValueView,
}

impl View for NamedValue {
    type V = NamedValueView;

    open spec fn view(&self) -> NamedValueView {
        NamedValueView { name: self.name@, value: self.value@ }
    }
}

pub open spec fn named_value_views(values: Seq<NamedValue>) -> Seq<NamedValueView> {
    values.map_values(|v: NamedValue| v@)
}

/// Why a raw value could not be turned into a typed one.
#[derive(Clone, Copy, Debug, PartialEq, Eq, Structural)]
pub enum CoercionErrorKind {
    /// The raw value is of another kind than the argument declares.
    TypeMismatch,
    /// A required argument has no raw value.
    MissingRequired,
    /// The raw value names a platform object that the payload did not resolve.
    Custom,
}

/// A failed coercion; `detail` is the name of the argument it failed for.
#[derive(Clone, Debug, PartialEq, Eq)]
pub struct CoercionError {
    pub kind: CoercionErrorKind,
    pub detail: String,
}

pub struct CoercionErrorView {
    pub kind: CoercionErrorKind,
    pub detail: Seq<char>,
}

impl View for CoercionError {
    type V = CoercionErrorView;

    open spec fn view(&self) -> CoercionErrorView {
        CoercionErrorView { kind: self.kind, detail: self.detail@ }
    }
}

/// The first resolved user with the given identifier.
pub open spec fn resolved_user(resolved: ResolvedView, id: u64) -> Option<UserView> {
    match first_index(resolved.users, |u: UserView| u.id == id) {
        Some(i) => Some(resolved.users[i]),
        None => None,
    }
}

/// The first resolved channel with the given identifier.
pub open spec fn resolved_channel(resolved: ResolvedView, id: u64) -> Option<ChannelView> {
    match first_index(resolved.channels, |c: ChannelView| c.id == id) {
        Some(i) => Some(resolved.channels[i]),
        None => None,
    }
}

/// The first resolved role with the given identifier.
pub open spec fn resolved_role(resolved: ResolvedView, id: u64) -> Option<RoleView> {
    match first_index(resolved.roles, |r: RoleView| r.id == id) {
        Some(i) => Some(resolved.roles[i]),
        None => None,
    }
}

/// The typed value of a raw value under a declared kind. A raw value of
/// another kind is a type mismatch; an identifier that the payload did not
/// resolve is a custom error.
pub open spec fn coerce_value(
    kind: CommandOptionType,
    raw: RawValueView,
    resolved: ResolvedView,
) -> Result<ValueView, CoercionErrorKind> {
    match (kind, raw) {
        (CommandOptionType::String, RawValueView::String(text)) => Ok(ValueView::String(text)),
        (CommandOptionType::Integer, RawValueView::Integer(n)) => Ok(ValueView::Integer(n)),
        (CommandOptionType::Boolean, RawValueView::Boolean(b)) => Ok(ValueView::Boolean(b)),
        (CommandOptionType::Number, RawValueView::Number(bits)) => Ok(ValueView::Number(bits)),
        (CommandOptionType::User, RawValueView::User(id)) => match resolved_user(resolved, id) {
            Some(user) => Ok(ValueView::User(user)),
            None => Err(CoercionErrorKind::Custom),
        },
        (CommandOptionType::Channel, RawValueView::Channel(id)) => match resolved_channel(
            resolved,
            id,
        ) {
            Some(channel) => Ok(ValueView::Channel(channel)),
            None => Err(CoercionErrorKind::Custom),
        },
        (CommandOptionType::Role, RawValueView::Role(id)) => match resolved_role(resolved, id) {
            Some(role) => Ok(ValueView::Role(role)),
            None => Err(CoercionErrorKind::Custom),
        },
        (CommandOptionType::Mentionable, RawValueView::Mentionable(id)) => match resolved_user(
            resolved,
            id,
        ) {
            Some(user) => Ok(ValueView::User(user)),
            None => match resolved_role(resolved, id) {
                Some(role) => Ok(ValueView::Role(role)),
                None => Err(CoercionErrorKind::Custom),
            },
        },
        _ => Err(CoercionErrorKind::TypeMismatch),
    }
}

/// The position of the first option named `name`.
pub open spec fn option_named(options: Seq<RawOptionView>, name: Seq<char>) -> Option<int> {
    first_index(options, |o: RawOptionView| o.name == name)
}

/// The typed value of one argument given the raw options of an interaction.
/// An optional argument that was left out is `Absent`; a required one is an
/// error. Errors carry the argument's name.
pub open spec fn coerce_argument_spec(
    argument: ArgumentView,
    options: Seq<RawOptionView>,
    resolved: ResolvedView,
) -> Result<ValueView, CoercionErrorView> {
    match option_named(options, argument.name) {
        None => if argument.required {
            Err(
                CoercionErrorView {
                    kind: CoercionErrorKind::MissingRequired,
                    detail: argument.name,
                },
            )
        } else {
            Ok(ValueView::Absent)
        },
        Some(i) => match coerce_value(argument.kind, options[i].value, resolved) {
            Ok(value) => Ok(value),
            Err(kind) => Err(CoercionErrorView { kind, detail: argument.name }),
        },
    }
}

/// The named values of all arguments in declared order, or the error of the
/// first argument that fails.
pub open spec fn coerce_arguments_spec(
    arguments: Seq<ArgumentView>,
    options: Seq<RawOptionView>,
    resolved: ResolvedView,
) -> Result<Seq<NamedValueView>, CoercionErrorView> {
    match first_index(
        arguments,
        |a: ArgumentView| coerce_argument_spec(a, options, resolved) is Err,
    ) {
        Some(i) => Err(coerce_argument_spec(arguments[i], options, resolved)->Err_0),
        None => Ok(
            Seq::new(
                arguments.len(),
                |i: int|
                    NamedValueView {
                        name: arguments[i].name,
                        value: coerce_argument_spec(arguments[i], options, resolved)->Ok_0,
                    },
            ),
        ),
    }
}

/// An integer argument takes a raw integer as it is and rejects a raw string.
pub proof fn lemma_integer_coercion(n: i64, text: Seq<char>, resolved: ResolvedView)
    ensures
        coerce_value(CommandOptionType::Integer, RawValueView::Integer(n), resolved) == Ok::<
            ValueView,
            CoercionErrorKind,
        >(ValueView::Integer(n)),
        coerce_value(CommandOptionType::Integer, RawValueView::String(text), resolved) == Err::<
            ValueView,
            CoercionErrorKind,
        >(CoercionErrorKind::TypeMismatch),
{
}

impl User {
    pub fn duplicate(&self) -> (copy: User)
        ensures
            copy@ == self@,
    {
        User { id: self.id, name: self.name.clone(), bot: self.bot }
    }
}

impl Channel {
    pub fn duplicate(&self) -> (copy: Channel)
        ensures
            copy@ == self@,
    {
        Channel { id: self.id, name: self.name.clone() }
    }
}

impl Role {
    pub fn duplicate(&self) -> (copy: Role)
        ensures
            copy@ == self@,
    {
        Role { id: self.id, name: self.name.clone() }
    }
}

impl Resolved {
    /// The first resolved user with the given identifier.
    pub fn user(&self, id: u64) -> (found: Option<&User>)
        ensures
            match found {
                Some(user) => resolved_user(self@, id) == Some(user@),
                None => resolved_user(self@, id) is None,
            },
    {
        let ghost hit = |u: UserView| u.id == id;
        let mut i: usize = 0;
        while i < self.users.len()
            invariant
                i <= self.users.len(),
                hit == |u: UserView| u.id == id,
                forall|j: int| 0 <= j < i ==> !hit(#[trigger] self@.users[j]),
            decreases self.users.len() - i,
        {
            if self.users[i].id == id {
                proof {
                    assert(self@.users[i as int] == self.users[i as int]@);
                    assert(first_at(self@.users, hit, i as int));
                    lemma_first_index_is(self@.users, hit, i as int);
                }
                return Some(&self.users[i]);
            }
            assert(self@.users[i as int] == self.users[i as int]@);
            i += 1;
        }
        proof {
            assert(none_hit(self@.users, hit));
            lemma_first_index_none(self@.users, hit);
        }
        None
    }

    /// The first resolved channel with the given identifier.
    pub fn channel(&self, id: u64) -> (found: Option<&Channel>)
        ensures
            match found {
                Some(channel) => resolved_channel(self@, id) == Some(channel@),
                None => resolved_channel(self@, id) is None,
            },
    {
        let ghost hit = |c: ChannelView| c.id == id;
        let mut i: usize = 0;
        while i < self.channels.len()
            invariant
                i <= self.channels.len(),
                hit == |c: ChannelView| c.id == id,
                forall|j: int| 0 <= j < i ==> !hit(#[trigger] self@.channels[j]),
            decreases self.channels.len() - i,
        {
            if self.channels[i].id == id {
                proof {
                    assert(self@.channels[i as int] == self.channels[i as int]@);
                    assert(first_at(self@.channels, hit, i as int));
                    lemma_first_index_is(self@.channels, hit, i as int);
                }
                return Some(&self.channels[i]);
            }
            assert(self@.channels[i as int] == self.channels[i as int]@);
            i += 1;
        }
        proof {
            assert(none_hit(self@.channels, hit));
            lemma_first_index_none(self@.channels, hit);
        }
        None
    }

    /// The first resolved role with the given identifier.
    pub fn role(&self, id: u64) -> (found: Option<&Role>)
        ensures
            match found {
                Some(role) => resolved_role(self@, id) == Some(role@),
                None => resolved_role(self@, id) is None,
            },
    {
        let ghost hit = |r: RoleView| r.id == id;
        let mut i: usize = 0;
        while i < self.roles.len()
            invariant
                i <= self.roles.len(),
                hit == |r: RoleView| r.id == id,
                forall|j: int| 0 <= j < i ==> !hit(#[trigger] self@.roles[j]),
            decreases self.roles.len() - i,
        {
            if self.roles[i].id == id {
                proof {
                    assert(self@.roles[i as int] == self.roles[i as int]@);
                    assert(first_at(self@.roles, hit, i as int));
                    lemma_first_index_is(self@.roles, hit, i as int);
                }
                return Some(&self.roles[i]);
            }
            assert(self@.roles[i as int] == self.roles[i as int]@);
            i += 1;
        }
        proof {
            assert(none_hit(self@.roles, hit));
            lemma_first_index_none(self@.roles, hit);
        }
        None
    }
}

/// Turns a raw value into the typed value of the declared kind.
pub fn coerce(kind: CommandOptionType, raw: &RawValue, resolved: &Resolved) -> (result: Result<
    Value,
    CoercionErrorKind,
>)
    ensures
        match result {
            Ok(value) => coerce_value(kind, raw@, resolved@) == Ok::<ValueView, CoercionErrorKind>(
                value@,
            ),
            Err(kind_of_error) => coerce_value(kind, raw@, resolved@) == Err::<
                ValueView,
                CoercionErrorKind,
            >(kind_of_error),
        },
{
    match (kind, raw) {
        (CommandOptionType::String, RawValue::String(text)) => Ok(Value::String(text.clone())),
        (CommandOptionType::Integer, RawValue::Integer(n)) => Ok(Value::Integer(*n)),
        (CommandOptionType::Boolean, RawValue::Boolean(b)) => Ok(Value::Boolean(*b)),
        (CommandOptionType::Number, RawValue::Number(bits)) => Ok(Value::Number(*bits)),
        (CommandOptionType::User, RawValue::User(id)) => match resolved.user(*id) {
            Some(user) => Ok(Value::User(user.duplicate())),
            None => Err(CoercionErrorKind::Custom),
        },
        (CommandOptionType::Channel, RawValue::Channel(id)) => match resolved.channel(*id) {
            Some(channel) => Ok(Value::Channel(channel.duplicate())),
            None => Err(CoercionErrorKind::Custom),
        },
        (CommandOptionType::Role, RawValue::Role(id)) => match resolved.role(*id) {
            Some(role) => Ok(Value::Role(role.duplicate())),
            None => Err(CoercionErrorKind::Custom),
        },
        (CommandOptionType::Mentionable, RawValue::Mentionable(id)) => match resolved.user(*id) {
            Some(user) => Ok(Value::User(user.duplicate())),
            None => match resolved.role(*id) {
                Some(role) => Ok(Value::Role(role.duplicate())),
                None => Err(CoercionErrorKind::Custom),
            },
        },
        _ => Err(CoercionErrorKind::TypeMismatch),
    }
}

/// The position of the first option named `name`.
pub fn find_option(options: &Vec<RawOption>, name: &str) -> (found: Option<usize>)
    ensures
        match found {
            Some(i) => option_named(option_views(options@), name@) == Some(i as int) && i
                < options.len(),
            None => option_named(option_views(options@), name@) is None,
        },
{
    let ghost views = option_views(options@);
    let ghost hit = |o: RawOptionView| o.name == name@;
    let wanted = name.to_owned();
    let mut i: usize = 0;
    while i < options.len()
        invariant
            i <= options.len(),
            wanted@ == name@,
            views == option_views(options@),
            hit == |o: RawOptionView| o.name == name@,
            forall|j: int| 0 <= j < i ==> !hit(#[trigger] views[j]),
        decreases options.len() - i,
    {
        if options[i].name == wanted {
            proof {
                assert(views[i as int] == options[i as int]@);
                assert(first_at(views, hit, i as int));
                lemma_first_index_is(views, hit, i as int);
            }
            return Some(i);
        }
        assert(views[i as int] == options[i as int]@);
        i += 1;
    }
    proof {
        assert(none_hit(views, hit));
        lemma_first_index_none(views, hit);
    }
    None
}

/// Coerces the raw option that carries an argument's name.
pub fn coerce_argument<K: Hooks>(
    argument: &CommandArgument<K>,
    options: &Vec<RawOption>,
    resolved: &Resolved,
) -> (result: Result<Value, CoercionError>)
    ensures
        match result {
            Ok(value) => coerce_argument_spec(argument@, option_views(options@), resolved@)
                == Ok::<ValueView, CoercionErrorView>(value@),
            Err(error) => coerce_argument_spec(argument@, option_views(options@), resolved@)
                == Err::<ValueView, CoercionErrorView>(error@),
        },
{
    match find_option(options, argument.name) {
        None => {
            if argument.required {
                Err(
                    CoercionError {
                        kind: CoercionErrorKind::MissingRequired,
                        detail: argument.name.to_owned(),
                    },
                )
            } else {
                Ok(Value::Absent)
            }
        },
        Some(i) => {
            assert(option_views(options@)[i as int] == options[i as int]@);
            match coerce(argument.kind, &options[i].value, resolved) {
                Ok(value) => Ok(value),
                Err(kind) => Err(CoercionError { kind, detail: argument.name.to_owned() }),
            }
        },
    }
}

/// Coerces every argument in declared order and stops at the first failure.
pub fn coerce_arguments<K: Hooks>(
    arguments: &Vec<CommandArgument<K>>,
    options: &Vec<RawOption>,
    resolved: &Resolved,
) -> (result: Result<Vec<NamedValue>, CoercionError>)
    ensures
        match result {
            Ok(values) => coerce_arguments_spec(
                argument_views(arguments@),
                option_views(options@),
                resolved@,
            ) == Ok::<Seq<NamedValueView>, CoercionErrorView>(named_value_views(values@)),
            Err(error) => coerce_arguments_spec(
                argument_views(arguments@),
                option_views(options@),
                resolved@,
            ) == Err::<Seq<NamedValueView>, CoercionErrorView>(error@),
        },
{
    let ghost views = argument_views(arguments@);
    let ghost raw = option_views(options@);
    let ghost fails = |a: ArgumentView| coerce_argument_spec(a, raw, resolved@) is Err;
    let mut values: Vec<NamedValue> = Vec::new();
    let mut i: usize = 0;
    while i < arguments.len()
        invariant
            i <= arguments.len(),
            views == argument_views(arguments@),
            raw == option_views(options@),
            fails == |a: ArgumentView| coerce_argument_spec(a, raw, resolved@) is Err,
            values@.len() == i,
            forall|j: int| 0 <= j < i ==> !fails(#[trigger] views[j]),
            forall|j: int|
                0 <= j < i ==> (#[trigger] values@[j])@ == (NamedValueView {
                    name: views[j].name,
                    value: coerce_argument_spec(views[j], raw, resolved@)->Ok_0,
                }),
        decreases arguments.len() - i,
    {
        assert(views[i as int] == arguments[i as int]@);
        match coerce_argument(&arguments[i], options, resolved) {
            Ok(value) => {
                values.push(NamedValue { name: arguments[i].name.to_owned(), value });
            },
            Err(error) => {
                proof {
                    assert(first_at(views, fails, i as int));
                    lemma_first_index_is(views, fails, i as int);
                }
                return Err(error);
            },
        }
        i += 1;
    }
    proof {
        assert(none_hit(views, fails));
        lemma_first_index_none(views, fails);
        assert(named_value_views(values@) =~= Seq::new(
            views.len(),
            |i: int|
                NamedValueView {
                    name: views[i].name,
                    value: coerce_argument_spec(views[i], raw, resolved@)->Ok_0,
                },
        ));
    }
    Ok(values)
}

} // verus!
