use crate::hook::Hooks;
use vstd::prelude::*;

verus! {

broadcast use vstd::string::to_string_from_display_ensures_for_str;

/// The kind of value a command argument takes.
#[derive(Clone, Copy, Debug, PartialEq, Eq, Structural)]
pub enum CommandOptionType {
    String,
    Integer,
    Boolean,
    User,
    Channel,
    Role,
    Mentionable,
    Number,
}

impl CommandOptionType {
    /// Whether the platform lets an option of this kind carry static choices
    /// or ask for autocomplete.
    pub open spec fn supports_choices(self) -> bool {
        self == CommandOptionType::String || self == CommandOptionType::Integer || self
            == CommandOptionType::Number
    }

    pub fn accepts_choices(&self) -> (yes: bool)
        ensures
            yes == self.supports_choices(),
    {
        match self {
            CommandOptionType::String | CommandOptionType::Integer | CommandOptionType::Number => true,
            _ => false,
        }
    }
}

/// One static choice of an argument: a display name and the value sent when
/// the user picks it. A `Number` value is an IEEE-754 double held by its bits.
#[allow(inconsistent_fields)]
#[derive(Clone, Debug, PartialEq, Eq)]
pub enum CommandOptionChoice {
    String { name: String, value: String },
    Int { name: String, value: i64 },
    Number { name: String, value: u64 },
}

pub enum ChoiceValue {
    String(Seq<char>),
    Int(int),
    Number(u64),
}

pub struct ChoiceView {
    pub name: Seq<char>,
    pub value: ChoiceValue,
}

impl View for CommandOptionChoice {
    type V = ChoiceView;

    open spec fn view(&self) -> ChoiceView {
        match self {
            CommandOptionChoice::String { name, value } => ChoiceView {
                name: name@,
                value: ChoiceValue::String(value@),
            },
            CommandOptionChoice::Int { name, value } => ChoiceView {
                name: name@,
                value: ChoiceValue::Int(*value as int),
            },
            CommandOptionChoice::Number { name, value } => ChoiceView {
                name: name@,
                value: ChoiceValue::Number(*value),
            },
        }
    }
}

/// The choices behind a list of choice values.
pub open spec fn choice_views(choices: Seq<CommandOptionChoice>) -> Seq<ChoiceView> {
    choices.map_values(|c: CommandOptionChoice| c@)
}

/// What a choices callback stands for: its list, or nothing at all.
pub open spec fn listed_choices(returned: Option<Vec<CommandOptionChoice>>) -> Seq<ChoiceView> {
    match returned {
        Some(list) => choice_views(list@),
        None => Seq::empty(),
    }
}

/// Kinds of channel an option may be restricted to.
#[derive(Clone, Copy, Debug, PartialEq, Eq, Structural)]
pub enum ChannelType {
    GuildText,
    Private,
    GuildVoice,
    Group,
    GuildCategory,
    GuildAnnouncement,
    GuildStageVoice,
    GuildForum,
}

/// A value that bounds an integer or number option; a number is an IEEE-754
/// double held by its bits.
#[derive(Clone, Copy, Debug, PartialEq, Eq, Structural)]
pub enum CommandOptionValue {
    Integer(i64),
    Number(u64),
}

/// Texts in other languages, each as a pair of locale and text.
pub type Localizations = Option<Vec<(String, String)>>;

pub type LocalizationsView = Option<Seq<(Seq<char>, Seq<char>)>>;

/// The texts behind a list of localizations.
pub open spec fn localization_views(list: Localizations) -> LocalizationsView {
    match list {
        Some(list) => Some(list@.map_values(|pair: (String, String)| (pair.0@, pair.1@))),
        None => None,
    }
}

/// Schema data of an option without choices.
#[derive(Clone, Debug, Default, PartialEq, Eq)]
pub struct BaseCommandOptionData {
    pub description: String,
    pub description_localizations: Localizations,
    pub name: String,
    pub name_localizations: Localizations,
    pub required: bool,
}

/// Schema data of a string option.
#[derive(Clone, Debug, Default, PartialEq, Eq)]
pub struct ChoiceCommandOptionData {
    pub autocomplete: bool,
    pub choices: Vec<CommandOptionChoice>,
    pub description: String,
    pub description_localizations: Localizations,
    /// The greatest length that the platform accepts.
    pub max_length: Option<u16>,
    /// The least length that the platform accepts.
    pub min_length: Option<u16>,
    pub name: String,
    pub name_localizations: Localizations,
    pub required: bool,
}

/// Schema data of an integer or number option.
#[derive(Clone, Debug, Default, PartialEq, Eq)]
pub struct NumberCommandOptionData {
    pub autocomplete: bool,
    pub choices: Vec<CommandOptionChoice>,
    pub description: String,
    pub description_localizations: Localizations,
    /// The greatest value that the platform accepts.
    pub max_value: Option<CommandOptionValue>,
    /// The least value that the platform accepts.
    pub min_value: Option<CommandOptionValue>,
    pub name: String,
    pub name_localizations: Localizations,
    pub required: bool,
}

/// Schema data of a channel option.
#[derive(Clone, Debug, Default, PartialEq, Eq)]
pub struct ChannelCommandOptionData {
    pub channel_types: Vec<ChannelType>,
    pub description: String,
    pub description_localizations: Localizations,
    pub name: String,
    pub name_localizations: Localizations,
    pub required: bool,
}

/// The schema of one argument as it is declared to the platform.
#[derive(Clone, Debug, PartialEq, Eq)]
pub enum CommandOption {
    String(ChoiceCommandOptionData),
    Integer(NumberCommandOptionData),
    Boolean(BaseCommandOptionData),
    User(BaseCommandOptionData),
    Channel(ChannelCommandOptionData),
    Role(BaseCommandOptionData),
    Mentionable(BaseCommandOptionData),
    Number(NumberCommandOptionData),
}

/// The schema of an argument as a flat record. Fields that a kind does not
/// have read as `false` or as the empty sequence.
pub struct OptionView {
    pub kind: CommandOptionType,
    pub name: Seq<char>,
    pub description: Seq<char>,
    pub required: bool,
    pub autocomplete: bool,
    pub choices: Seq<ChoiceView>,
    pub channel_types: Seq<ChannelType>,
    pub name_localizations: LocalizationsView,
    pub description_localizations: LocalizationsView,
    pub min_length: Option<u16>,
    pub max_length: Option<u16>,
    pub min_value: Option<CommandOptionValue>,
    pub max_value: Option<CommandOptionValue>,
}

impl BaseCommandOptionData {
    pub open spec fn as_view(&self, kind: CommandOptionType) -> OptionView {
        OptionView {
            kind,
            name: self.name@,
            description: self.description@,
            required: self.required,
            autocomplete: false,
            choices: Seq::empty(),
            channel_types: Seq::empty(),
            name_localizations: localization_views(self.name_localizations),
            description_localizations: localization_views(self.description_localizations),
            min_length: None,
            max_length: None,
            min_value: None,
            max_value: None,
        }
    }
}

impl ChoiceCommandOptionData {
    pub open spec fn as_view(&self, kind: CommandOptionType) -> OptionView {
        OptionView {
            kind,
            name: self.name@,
            description: self.description@,
            required: self.required,
            autocomplete: self.autocomplete,
            choices: choice_views(self.choices@),
            channel_types: Seq::empty(),
            name_localizations: localization_views(self.name_localizations),
            description_localizations: localization_views(self.description_localizations),
            min_length: self.min_length,
            max_length: self.max_length,
            min_value: None,
            max_value: None,
        }
    }
}

impl NumberCommandOptionData {
    pub open spec fn as_view(&self, kind: CommandOptionType) -> OptionView {
        OptionView {
            kind,
            name: self.name@,
            description: self.description@,
            required: self.required,
            autocomplete: self.autocomplete,
            choices: choice_views(self.choices@),
            channel_types: Seq::empty(),
            name_localizations: localization_views(self.name_localizations),
            description_localizations: localization_views(self.description_localizations),
            min_length: None,
            max_length: None,
            min_value: self.min_value,
            max_value: self.max_value,
        }
    }
}

impl ChannelCommandOptionData {
    pub open spec fn as_view(&self, kind: CommandOptionType) -> OptionView {
        OptionView {
            kind,
            name: self.name@,
            description: self.description@,
            required: self.required,
            autocomplete: false,
            choices: Seq::empty(),
            channel_types: self.channel_types@,
            name_localizations: localization_views(self.name_localizations),
            description_localizations: localization_views(self.description_localizations),
            min_length: None,
            max_length: None,
            min_value: None,
            max_value: None,
        }
    }
}

impl View for CommandOption {
    type V = OptionView;

    open spec fn view(&self) -> OptionView {
        match self {
            CommandOption::String(data) => data.as_view(CommandOptionType::String),
            CommandOption::Integer(data) => data.as_view(CommandOptionType::Integer),
            CommandOption::Boolean(data) => data.as_view(CommandOptionType::Boolean),
            CommandOption::User(data) => data.as_view(CommandOptionType::User),
            CommandOption::Channel(data) => data.as_view(CommandOptionType::Channel),
            CommandOption::Role(data) => data.as_view(CommandOptionType::Role),
            CommandOption::Mentionable(data) => data.as_view(CommandOptionType::Mentionable),
            CommandOption::Number(data) => data.as_view(CommandOptionType::Number),
        }
    }
}

impl CommandOption {
    /// The kind that this schema declares.
    pub fn kind(&self) -> (kind: CommandOptionType)
        ensures
            kind == self@.kind,
    {
        match self {
            CommandOption::String(_) => CommandOptionType::String,
            CommandOption::Integer(_) => CommandOptionType::Integer,
            CommandOption::Boolean(_) => CommandOptionType::Boolean,
            CommandOption::User(_) => CommandOptionType::User,
            CommandOption::Channel(_) => CommandOptionType::Channel,
            CommandOption::Role(_) => CommandOptionType::Role,
            CommandOption::Mentionable(_) => CommandOptionType::Mentionable,
            CommandOption::Number(_) => CommandOptionType::Number,
        }
    }

    /// Whether the schema asks the platform for autocomplete requests.
    pub fn autocomplete(&self) -> (on: bool)
        ensures
            on == self@.autocomplete,
    {
        match self {
            CommandOption::String(data) => data.autocomplete,
            CommandOption::Integer(data) => data.autocomplete,
            CommandOption::Number(data) => data.autocomplete,
            _ => false,
        }
    }
}

/// A command argument.
pub struct CommandArgument<K: Hooks> {
    /// Argument name.
    pub name: &'static str,
    /// Description of the argument.
    pub description: &'static str,
    /// Whether the argument is required.
    pub required: bool,
    /// The type this argument has.
    pub kind: CommandOptionType,
    /// A function that allows to set specific options to the command, disabling arbitrary values.
    pub choices_fn: K::Choices,
    /// A function used to autocomplete fields.
    pub autocomplete: Option<K::Autocomplete>,
}

/// The plain data of an argument: everything but its callbacks, of which only
/// the presence of the autocomplete callback is kept.
pub struct ArgumentView {
    pub name: Seq<char>,
    pub description: Seq<char>,
    pub required: bool,
    pub kind: CommandOptionType,
    pub autocomplete: bool,
}

impl<K: Hooks> View for CommandArgument<K> {
    type V = ArgumentView;

    open spec fn view(&self) -> ArgumentView {
        ArgumentView {
            name: self.name@,
            description: self.description@,
            required: self.required,
            kind: self.kind,
            autocomplete: self.autocomplete is Some,
        }
    }
}

/// The schema declared for an argument whose choices callback listed
/// `choices`. Only string, integer and number options carry choices; among
/// those, autocomplete is declared only while no static choice is listed.
/// No localization, channel type or bound is declared.
pub open spec fn schema(argument: ArgumentView, choices: Seq<ChoiceView>) -> OptionView {
    OptionView {
        kind: argument.kind,
        name: argument.name,
        description: argument.description,
        required: argument.required,
        autocomplete: argument.kind.supports_choices() && argument.autocomplete && choices.len()
            == 0,
        choices: if argument.kind.supports_choices() {
            choices
        } else {
            Seq::empty()
        },
        channel_types: Seq::empty(),
        name_localizations: None,
        description_localizations: None,
        min_length: None,
        max_length: None,
        min_value: None,
        max_value: None,
    }
}

/// Static choices take precedence over autocomplete: a schema that lists a
/// choice never declares autocomplete, whether or not a callback is set.
pub proof fn lemma_choices_disable_autocomplete(argument: ArgumentView, choices: Seq<ChoiceView>)
    requires
        choices.len() > 0,
    ensures
        !schema(argument, choices).autocomplete,
{
}

/// A schema never declares both autocomplete and static choices.
pub proof fn lemma_schema_is_exclusive(argument: ArgumentView, choices: Seq<ChoiceView>)
    ensures
        schema(argument, choices).autocomplete ==> schema(argument, choices).choices.len() == 0,
        schema(argument, choices).autocomplete ==> argument.autocomplete,
{
}

impl<K: Hooks> CommandArgument<K> {
    /// Whether the choices callback may be called.
    pub open spec fn choices_callable(&self) -> bool {
        call_requires(self.choices_fn, ())
    }

    /// Whether `option` is a schema that `as_option` may return: the schema of
    /// this argument for some list that the choices callback can produce. For
    /// a kind without choices the callback is not consulted.
    pub open spec fn produces(&self, option: OptionView) -> bool {
        if self.kind.supports_choices() {
            exists|returned: Option<Vec<CommandOptionChoice>>|
                call_ensures(self.choices_fn, (), returned) && option == schema(
                    self@,
                    #[trigger] listed_choices(returned),
                )
        } else {
            option == schema(self@, Seq::empty())
        }
    }

    /// Calls the choices callback; an absent list reads as the empty list.
    pub fn choices(&self) -> (choices: Vec<CommandOptionChoice>)
        requires
            self.choices_callable(),
        ensures
            exists|returned: Option<Vec<CommandOptionChoice>>|
                call_ensures(self.choices_fn, (), returned) && choice_views(choices@)
                    == #[trigger] listed_choices(returned),
    {
        let returned = (self.choices_fn)();
        let choices = match returned {
            Some(list) => list,
            None => Vec::new(),
        };
        proof {
            assert(choice_views(choices@) =~= listed_choices(returned));
        }
        choices
    }

    /// The schema that declares this argument to the platform.
    pub fn as_option(&self) -> (option: CommandOption)
        requires
            self.kind.supports_choices() ==> self.choices_callable(),
        ensures
            self.produces(option@),
            option@.kind == self.kind,
            option@.name == self.name@,
            option@.description == self.description@,
            option@.required == self.required,
            option@.autocomplete ==> self.autocomplete is Some && option@.choices.len() == 0,
            option@.choices.len() > 0 ==> !option@.autocomplete,
    {
        match self.kind {
            CommandOptionType::String => {
                let choices = self.choices();
                CommandOption::String(
                    ChoiceCommandOptionData {
                        autocomplete: self.autocomplete.is_some() && choices.len() == 0,
                        choices,
                        description: self.description.to_string(),
                        description_localizations: None,
                        max_length: None,
                        min_length: None,
                        name: self.name.to_string(),
                        name_localizations: None,
                        required: self.required,
                    },
                )
            },
            CommandOptionType::Integer => {
                let choices = self.choices();
                CommandOption::Integer(
                    NumberCommandOptionData {
                        autocomplete: self.autocomplete.is_some() && choices.len() == 0,
                        choices,
                        description: self.description.to_string(),
                        description_localizations: None,
                        max_value: None,
                        min_value: None,
                        name: self.name.to_string(),
                        name_localizations: None,
                        required: self.required,
                    },
                )
            },
            CommandOptionType::Boolean => CommandOption::Boolean(
                BaseCommandOptionData {
                    description: self.description.to_string(),
                    description_localizations: None,
                    name: self.name.to_string(),
                    name_localizations: None,
                    required: self.required,
                },
            ),
            CommandOptionType::User => CommandOption::User(
                BaseCommandOptionData {
                    description: self.description.to_string(),
                    description_localizations: None,
                    name: self.name.to_string(),
                    name_localizations: None,
                    required: self.required,
                },
            ),
            CommandOptionType::Channel => CommandOption::Channel(
                ChannelCommandOptionData {
                    channel_types: Vec::new(),
                    description: self.description.to_string(),
                    description_localizations: None,
                    name: self.name.to_string(),
                    name_localizations: None,
                    required: self.required,
                },
            ),
            CommandOptionType::Role => CommandOption::Role(
                BaseCommandOptionData {
                    description: self.description.to_string(),
                    description_localizations: None,
                    name: self.name.to_string(),
                    name_localizations: None,
                    required: self.required,
                },
            ),
            CommandOptionType::Mentionable => CommandOption::Mentionable(
                BaseCommandOptionData {
                    description: self.description.to_string(),
                    description_localizations: None,
                    name: self.name.to_string(),
                    name_localizations: None,
                    required: self.required,
                },
            ),
            CommandOptionType::Number => {
                let choices = self.choices();
                CommandOption::Number(
                    NumberCommandOptionData {
                        autocomplete: self.autocomplete.is_some() && choices.len() == 0,
                        choices,
                        description: self.description.to_string(),
                        description_localizations: None,
                        max_value: None,
                        min_value: None,
                        name: self.name.to_string(),
                        name_localizations: None,
                        required: self.required,
                    },
                )
            },
        }
    }
}

impl<K: Hooks> From<
    (&'static str, &'static str, bool, CommandOptionType, K::Choices, Option<K::Autocomplete>),
> for CommandArgument<K> {
    fn from(
        parts: (&'static str, &'static str, bool, CommandOptionType, K::Choices, Option<K::Autocomplete>),
    ) -> (argument: Self) {
        let (name, description, required, kind, fun, autocomplete) = parts;
        Self { name, description, required, kind, choices_fn: fun, autocomplete }
    }
}

impl<K: Hooks> vstd::std_specs::convert::FromSpecImpl<
    (&'static str, &'static str, bool, CommandOptionType, K::Choices, Option<K::Autocomplete>),
> for CommandArgument<K> {
    open spec fn obeys_from_spec() -> bool {
        true
    }

    open spec fn from_spec(
        parts: (&'static str, &'static str, bool, CommandOptionType, K::Choices, Option<K::Autocomplete>),
    ) -> Self {
        CommandArgument {
            name: parts.0,
            description: parts.1,
            required: parts.2,
            kind: parts.3,
            choices_fn: parts.4,
            autocomplete: parts.5,
        }
    }
}

} // verus!
