use crate::attribute::{
    attribute_views, into_nested, path_ident, read_item, single_ident, Shape,
};
use crate::command::text_of;
use proc_macro2::Ident;
use vstd::prelude::*;

verus! {

/// The attributes that describe a command.
#[derive(Clone, Copy, Debug, PartialEq, Eq, Structural)]
pub enum Field {
    Description,
    RequiredPermissions,
    Checks,
    ErrorHandler,
    Nsfw,
    OnlyGuilds,
}

/// One entry of a bracketed attribute list, as far as it could be read.
#[derive(Clone, Debug, PartialEq, Eq)]
pub enum ListItem {
    /// A string literal.
    Text(String),
    /// A bare path, whole as it was written.
    Path(syn::Path),
    /// Anything else.
    Other,
}

pub enum ListItemView {
    Text(Seq<char>),
    Path(syn::Path),
    Other,
}

impl View for ListItem {
    type V = ListItemView;

    open spec fn view(&self) -> ListItemView {
        match self {
            ListItem::Text(text) => ListItemView::Text(text@),
            ListItem::Path(path) => ListItemView::Path(*path),
            ListItem::Other => ListItemView::Other,
        }
    }
}

pub open spec fn list_item_views(items: Seq<ListItem>) -> Seq<ListItemView> {
    items.map_values(|i: ListItem| i@)
}

/// What stands behind the name of an attribute, as far as it could be read.
#[derive(Clone, Debug, PartialEq, Eq)]
pub enum MetaValue {
    /// Nothing: the attribute is a bare word.
    Word,
    /// `= value`, read as a string, as a truth value and as a string of
    /// paths separated by commas, each where it is one.
    NameValue { text: Option<String>, flag: Option<bool>, paths: Option<Vec<syn::Path>> },
    /// `(entries)`.
    List(Vec<ListItem>),
    /// Anything else.
    Other,
}

pub enum MetaValueView {
    Word,
    NameValue { text: Option<Seq<char>>, flag: Option<bool>, paths: Option<Seq<syn::Path>> },
    List(Seq<ListItemView>),
    Other,
}

/// The paths behind an optional list of paths.
pub open spec fn optional_paths(list: Option<Vec<syn::Path>>) -> Option<Seq<syn::Path>> {
    match list {
        Some(list) => Some(list@),
        None => None,
    }
}

/// The entries behind an optional list of list entries.
pub open spec fn optional_entries(list: Option<Vec<ListItem>>) -> Option<Seq<ListItemView>> {
    match list {
        Some(list) => Some(list_item_views(list@)),
        None => None,
    }
}

impl View for MetaValue {
    type V = MetaValueView;

    open spec fn view(&self) -> MetaValueView {
        match self {
            MetaValue::Word => MetaValueView::Word,
            MetaValue::NameValue { text, flag, paths } => MetaValueView::NameValue {
                text: text_of(*text),
                flag: *flag,
                paths: optional_paths(*paths),
            },
            MetaValue::List(items) => MetaValueView::List(list_item_views(items@)),
            MetaValue::Other => MetaValueView::Other,
        }
    }
}

/// One attribute: its name, if it has one, and what stands behind it.
#[derive(Clone, Debug, PartialEq, Eq)]
pub struct MetaItem {
    pub name: Option<String>,
    pub value: MetaValue,
}

pub struct MetaItemView {
    pub name: Option<Seq<char>>,
    pub value: MetaValueView,
}

impl View for MetaItem {
    type V = MetaItemView;

    open spec fn view(&self) -> MetaItemView {
        MetaItemView { name: text_of(self.name), value: self.value@ }
    }
}

pub open spec fn meta_item_views(items: Seq<MetaItem>) -> Seq<MetaItemView> {
    items.map_values(|i: MetaItem| i@)
}

/// What an entry of a bracketed list is taken for, given its form, the text
/// it was read as and the path it is: a literal that reads as a text is that
/// text, a bare path is that path, and anything else is `Other`.
pub open spec fn list_item_of(
    shape: Shape,
    text: Option<Seq<char>>,
    path: Option<syn::Path>,
) -> ListItemView {
    match shape {
        Shape::Literal => match text {
            Some(text) => ListItemView::Text(text),
            None => ListItemView::Other,
        },
        Shape::Word => match path {
            Some(path) => ListItemView::Path(path),
            None => ListItemView::Other,
        },
        _ => ListItemView::Other,
    }
}

/// What stands behind the name of an attribute, given its form and what it
/// was read as: nothing behind a bare word; behind `=`, the value as a text,
/// as a truth value and as paths, each where it reads as one; the entries of
/// a list that could be read; and `Other` for a literal or an unreadable list.
pub open spec fn meta_value_of(
    shape: Shape,
    text: Option<Seq<char>>,
    flag: Option<bool>,
    paths: Option<Seq<syn::Path>>,
    entries: Option<Seq<ListItemView>>,
) -> MetaValueView {
    match shape {
        Shape::Literal => MetaValueView::Other,
        Shape::Word => MetaValueView::Word,
        Shape::NameValue => MetaValueView::NameValue { text, flag, paths },
        Shape::List => match entries {
            Some(entries) => MetaValueView::List(entries),
            None => MetaValueView::Other,
        },
    }
}

/// Takes an entry of a bracketed list for what its form and readings say.
pub fn list_item_from(shape: Shape, text: Option<String>, path: Option<syn::Path>) -> (item:
    ListItem)
    ensures
        item@ == list_item_of(shape, text_of(text), path),
{
    match shape {
        Shape::Literal => match text {
            Some(text) => ListItem::Text(text),
            None => ListItem::Other,
        },
        Shape::Word => match path {
            Some(path) => ListItem::Path(path),
            None => ListItem::Other,
        },
        _ => ListItem::Other,
    }
}

/// Takes what stands behind an attribute's name for what its form and
/// readings say.
pub fn meta_value_from(
    shape: Shape,
    text: Option<String>,
    flag: Option<bool>,
    paths: Option<Vec<syn::Path>>,
    entries: Option<Vec<ListItem>>,
) -> (value: MetaValue)
    ensures
        value@ == meta_value_of(
            shape,
            text_of(text),
            flag,
            optional_paths(paths),
            optional_entries(entries),
        ),
{
    match shape {
        Shape::Literal => MetaValue::Other,
        Shape::Word => MetaValue::Word,
        Shape::NameValue => MetaValue::NameValue { text, flag, paths },
        Shape::List => match entries {
            Some(entries) => MetaValue::List(entries),
            None => MetaValue::Other,
        },
    }
}

/// Why an attribute is rejected, or what is wrong with the attributes as a
/// whole.
#[derive(Clone, Debug, PartialEq, Eq)]
pub enum DetailsError {
    /// An attribute has no name.
    Unnamed,
    /// An attribute has a name that describes nothing.
    UnknownField(String),
    /// An attribute is given again.
    DuplicateField(Field),
    /// What stands behind an attribute's name is not of a form it takes.
    UnexpectedFormat(Field),
    /// An attribute that every command needs is not given.
    MissingField(Field),
}

pub enum DetailsErrorView {
    Unnamed,
    UnknownField(Seq<char>),
    DuplicateField(Field),
    UnexpectedFormat(Field),
    MissingField(Field),
}

impl View for DetailsError {
    type V = DetailsErrorView;

    open spec fn view(&self) -> DetailsErrorView {
        match self {
            DetailsError::Unnamed => DetailsErrorView::Unnamed,
            DetailsError::UnknownField(name) => DetailsErrorView::UnknownField(name@),
            DetailsError::DuplicateField(field) => DetailsErrorView::DuplicateField(*field),
            DetailsError::UnexpectedFormat(field) => DetailsErrorView::UnexpectedFormat(*field),
            DetailsError::MissingField(field) => DetailsErrorView::MissingField(*field),
        }
    }
}

/// One rejection: what is wrong, and the position of the attribute that it
/// is wrong with. A missing attribute has no position.
#[derive(Clone, Debug, PartialEq, Eq)]
pub struct Rejection {
    pub attribute: Option<usize>,
    pub error: DetailsError,
}

pub struct RejectionView {
    pub attribute: Option<usize>,
    pub error: DetailsErrorView,
}

impl View for Rejection {
    type V = RejectionView;

    open spec fn view(&self) -> RejectionView {
        RejectionView { attribute: self.attribute, error: self.error@ }
    }
}

pub open spec fn rejection_views(errors: Seq<Rejection>) -> Seq<RejectionView> {
    errors.map_values(|e: Rejection| e@)
}

/// The details of a given command
#[derive(Clone, Debug, PartialEq, Eq)]
pub struct CommandDetails {
    /// The description of this command
    pub description: String,
    /// The permissions that the command requires, by their names.
    pub required_permissions: Option<Vec<Ident>>,
    /// The functions that build the command's checks.
    pub checks: Vec<syn::Path>,
    /// The function that builds the command's error handler.
    pub error_handler: Option<syn::Path>,
    pub nsfw: bool,
    pub only_guilds: bool,
}

pub struct DetailsView {
    pub description: Seq<char>,
    pub required_permissions: Option<Seq<Ident>>,
    pub checks: Seq<syn::Path>,
    pub error_handler: Option<syn::Path>,
    pub nsfw: bool,
    pub only_guilds: bool,
}

impl View for CommandDetails {
    type V = DetailsView;

    open spec fn view(&self) -> DetailsView {
        DetailsView {
            description: self.description@,
            required_permissions: match self.required_permissions {
                Some(names) => Some(names@),
                None => None,
            },
            checks: self.checks@,
            error_handler: self.error_handler,
            nsfw: self.nsfw,
            only_guilds: self.only_guilds,
        }
    }
}

/// The attribute that a name stands for.
pub open spec fn field_named(name: Seq<char>) -> Option<Field> {
    if name == "description"@ {
        Some(Field::Description)
    } else if name == "required_permissions"@ {
        Some(Field::RequiredPermissions)
    } else if name == "checks"@ {
        Some(Field::Checks)
    } else if name == "error_handler"@ {
        Some(Field::ErrorHandler)
    } else if name == "nsfw"@ {
        Some(Field::Nsfw)
    } else if name == "only_guilds"@ {
        Some(Field::OnlyGuilds)
    } else {
        None
    }
}

/// A text is given as `= "text"` or as `("text")`.
pub open spec fn text_value(value: MetaValueView) -> Option<Seq<char>> {
    match value {
        MetaValueView::NameValue { text: Some(text), .. } => Some(text),
        MetaValueView::List(items) => if items.len() == 1 && items[0] is Text {
            Some(items[0]->Text_0)
        } else {
            None
        },
        _ => None,
    }
}

/// A truth value is given as the bare word, which means `true`, or as
/// `= value`.
pub open spec fn flag_value(value: MetaValueView) -> Option<bool> {
    match value {
        MetaValueView::Word => Some(true),
        MetaValueView::NameValue { flag: Some(flag), .. } => Some(flag),
        _ => None,
    }
}

/// The paths of a bracketed list `(first, second::third, ...)` in which
/// every entry is a bare path.
pub open spec fn listed_paths(value: MetaValueView) -> Option<Seq<syn::Path>> {
    match value {
        MetaValueView::List(items) => if forall|i: int|
            0 <= i < items.len() ==> (#[trigger] items[i]) is Path {
            Some(Seq::new(items.len(), |i: int| items[i]->Path_0))
        } else {
            None
        },
        _ => None,
    }
}

/// Paths are given as a bracketed list of bare paths or as a string of
/// paths separated by commas, `= "first, second::third"`.
pub open spec fn paths_value(value: MetaValueView) -> Option<Seq<syn::Path>> {
    match value {
        MetaValueView::NameValue { paths: Some(paths), .. } => Some(paths),
        _ => listed_paths(value),
    }
}

/// Names are given as a bracketed list of paths that are one identifier each.
pub open spec fn names_value(value: MetaValueView) -> Option<Seq<Ident>> {
    match listed_paths(value) {
        Some(list) => if forall|i: int|
            0 <= i < list.len() ==> path_ident(#[trigger] list[i]) is Some {
            Some(Seq::new(list.len(), |i: int| path_ident(list[i])->Some_0))
        } else {
            None
        },
        None => None,
    }
}

/// One path is given as a bracketed list of exactly one bare path.
pub open spec fn path_value(value: MetaValueView) -> Option<syn::Path> {
    match listed_paths(value) {
        Some(list) => if list.len() == 1 {
            Some(list[0])
        } else {
            None
        },
        None => None,
    }
}

/// What is known of one attribute while the attributes are read.
pub enum Slot<T> {
    /// It was not given so far.
    Unseen,
    /// It was given in a form that it does not take.
    Rejected,
    /// It was given with this value.
    Given(T),
}

/// The value of a slot, if it was given one.
pub open spec fn given<T>(slot: Slot<T>) -> Option<T> {
    match slot {
        Slot::Given(value) => Some(value),
        _ => None,
    }
}

/// The attributes read so far, with every rejection in the order in which
/// it was met.
pub struct Partial {
    pub description: Slot<String>,
    pub required_permissions: Slot<Vec<Ident>>,
    pub checks: Slot<Vec<syn::Path>>,
    pub error_handler: Slot<syn::Path>,
    pub nsfw: Slot<bool>,
    pub only_guilds: Slot<bool>,
    pub errors: Vec<Rejection>,
}

pub struct PartialView {
    pub description: Slot<Seq<char>>,
    pub required_permissions: Slot<Seq<Ident>>,
    pub checks: Slot<Seq<syn::Path>>,
    pub error_handler: Slot<syn::Path>,
    pub nsfw: Slot<bool>,
    pub only_guilds: Slot<bool>,
    pub errors: Seq<RejectionView>,
}

impl View for Partial {
    type V = PartialView;

    open spec fn view(&self) -> PartialView {
        PartialView {
            description: match self.description {
                Slot::Unseen => Slot::Unseen,
                Slot::Rejected => Slot::Rejected,
                Slot::Given(text) => Slot::Given(text@),
            },
            required_permissions: match self.required_permissions {
                Slot::Unseen => Slot::Unseen,
                Slot::Rejected => Slot::Rejected,
                Slot::Given(names) => Slot::Given(names@),
            },
            checks: match self.checks {
                Slot::Unseen => Slot::Unseen,
                Slot::Rejected => Slot::Rejected,
                Slot::Given(list) => Slot::Given(list@),
            },
            error_handler: self.error_handler,
            nsfw: self.nsfw,
            only_guilds: self.only_guilds,
            errors: rejection_views(self.errors@),
        }
    }
}

impl PartialView {
    pub open spec fn empty() -> PartialView {
        PartialView {
            description: Slot::Unseen,
            required_permissions: Slot::Unseen,
            checks: Slot::Unseen,
            error_handler: Slot::Unseen,
            nsfw: Slot::Unseen,
            only_guilds: Slot::Unseen,
            errors: Seq::empty(),
        }
    }

    /// Whether the attribute has been given, in whatever form.
    pub open spec fn has(self, field: Field) -> bool {
        match field {
            Field::Description => !(self.description is Unseen),
            Field::RequiredPermissions => !(self.required_permissions is Unseen),
            Field::Checks => !(self.checks is Unseen),
            Field::ErrorHandler => !(self.error_handler is Unseen),
            Field::Nsfw => !(self.nsfw is Unseen),
            Field::OnlyGuilds => !(self.only_guilds is Unseen),
        }
    }

    /// The same, with one more rejection.
    pub open spec fn reject(self, attribute: Option<usize>, error: DetailsErrorView) -> PartialView {
        PartialView { errors: self.errors.push(RejectionView { attribute, error }), ..self }
    }

    /// The same, with the attribute given as `value`: its slot holds what the
    /// value reads as, and a value of a form that the attribute does not take
    /// is one more rejection.
    pub open spec fn put(self, field: Field, value: MetaValueView, position: usize) -> PartialView {
        match field {
            Field::Description => match text_value(value) {
                Some(text) => PartialView { description: Slot::Given(text), ..self },
                None => PartialView { description: Slot::Rejected, ..self }.reject(
                    Some(position),
                    DetailsErrorView::UnexpectedFormat(field),
                ),
            },
            Field::RequiredPermissions => match names_value(value) {
                Some(names) => PartialView { required_permissions: Slot::Given(names), ..self },
                None => PartialView { required_permissions: Slot::Rejected, ..self }.reject(
                    Some(position),
                    DetailsErrorView::UnexpectedFormat(field),
                ),
            },
            Field::Checks => match paths_value(value) {
                Some(list) => PartialView { checks: Slot::Given(list), ..self },
                None => PartialView { checks: Slot::Rejected, ..self }.reject(
                    Some(position),
                    DetailsErrorView::UnexpectedFormat(field),
                ),
            },
            Field::ErrorHandler => match path_value(value) {
                Some(path) => PartialView { error_handler: Slot::Given(path), ..self },
                None => PartialView { error_handler: Slot::Rejected, ..self }.reject(
                    Some(position),
                    DetailsErrorView::UnexpectedFormat(field),
                ),
            },
            Field::Nsfw => match flag_value(value) {
                Some(flag) => PartialView { nsfw: Slot::Given(flag), ..self },
                None => PartialView { nsfw: Slot::Rejected, ..self }.reject(
                    Some(position),
                    DetailsErrorView::UnexpectedFormat(field),
                ),
            },
            Field::OnlyGuilds => match flag_value(value) {
                Some(flag) => PartialView { only_guilds: Slot::Given(flag), ..self },
                None => PartialView { only_guilds: Slot::Rejected, ..self }.reject(
                    Some(position),
                    DetailsErrorView::UnexpectedFormat(field),
                ),
            },
        }
    }
}

/// What one more attribute makes of the attributes read so far. An attribute
/// without a name, with a name that stands for nothing, or given before is
/// rejected and changes nothing else; any other is put in its slot.
pub open spec fn accept(partial: PartialView, item: MetaItemView, position: usize) -> PartialView {
    match item.name {
        None => partial.reject(Some(position), DetailsErrorView::Unnamed),
        Some(name) => match field_named(name) {
            None => partial.reject(Some(position), DetailsErrorView::UnknownField(name)),
            Some(field) => if partial.has(field) {
                partial.reject(Some(position), DetailsErrorView::DuplicateField(field))
            } else {
                partial.put(field, item.value, position)
            },
        },
    }
}

/// What the first `n` attributes give; each is accepted under its position.
pub open spec fn collect(items: Seq<MetaItemView>, n: nat) -> PartialView
    decreases n,
{
    if n == 0 {
        PartialView::empty()
    } else {
        accept(collect(items, (n - 1) as nat), items[n - 1], (n - 1) as usize)
    }
}

/// Every rejection of the attributes, in the order of the attributes, and
/// last the missing description if none was given in any form.
pub open spec fn rejections(items: Seq<MetaItemView>) -> Seq<RejectionView> {
    let partial = collect(items, items.len());
    if partial.description is Unseen {
        partial.reject(None, DetailsErrorView::MissingField(Field::Description)).errors
    } else {
        partial.errors
    }
}

/// The details that the attributes describe, or every rejection if there is
/// any. The description must be given; the other attributes default to no
/// permissions, no checks, no error handler, and `false`.
pub open spec fn details_of(items: Seq<MetaItemView>) -> Result<DetailsView, Seq<RejectionView>> {
    let partial = collect(items, items.len());
    if rejections(items).len() > 0 {
        Err(rejections(items))
    } else {
        Ok(
            DetailsView {
                description: given(partial.description)->Some_0,
                required_permissions: given(partial.required_permissions),
                checks: match partial.checks {
                    Slot::Given(list) => list,
                    _ => Seq::empty(),
                },
                error_handler: given(partial.error_handler),
                nsfw: partial.nsfw == Slot::Given(true),
                only_guilds: partial.only_guilds == Slot::Given(true),
            },
        )
    }
}

/// A rejected description is among the rejections.
pub open spec fn accounted(partial: PartialView) -> bool {
    partial.description is Rejected ==> partial.errors.len() > 0
}

fn read_text(value: &MetaValue) -> (text: Option<String>)
    ensures
        text_of(text) == text_value(value@),
{
    match value {
        MetaValue::NameValue { text: Some(text), .. } => Some(text.clone()),
        MetaValue::List(items) => {
            if items.len() == 1 {
                assert(list_item_views(items@)[0] == items@[0]@);
                match &items[0] {
                    ListItem::Text(text) => Some(text.clone()),
                    _ => None,
                }
            } else {
                None
            }
        },
        _ => None,
    }
}

fn read_flag(value: &MetaValue) -> (flag: Option<bool>)
    ensures
        flag == flag_value(value@),
{
    match value {
        MetaValue::Word => Some(true),
        MetaValue::NameValue { flag: Some(flag), .. } => Some(*flag),
        _ => None,
    }
}

fn copy_paths(list: &Vec<syn::Path>) -> (copy: Vec<syn::Path>)
    ensures
        copy@ == list@,
{
    let mut copy: Vec<syn::Path> = Vec::new();
    let mut i: usize = 0;
    while i < list.len()
        invariant
            i <= list.len(),
            copy@.len() == i,
            forall|j: int| 0 <= j < i ==> copy@[j] == list@[j],
        decreases list.len() - i,
    {
        copy.push(list[i].clone());
        i += 1;
    }
    assert(copy@ =~= list@);
    copy
}

fn read_listed_paths(value: &MetaValue) -> (list: Option<Vec<syn::Path>>)
    ensures
        optional_paths(list) == listed_paths(value@),
{
    match value {
        MetaValue::List(items) => {
            let ghost views = list_item_views(items@);
            let mut list: Vec<syn::Path> = Vec::new();
            let mut i: usize = 0;
            while i < items.len()
                invariant
                    i <= items.len(),
                    views == list_item_views(items@),
                    value@ == MetaValueView::List(views),
                    list@.len() == i,
                    forall|j: int| 0 <= j < i ==> (#[trigger] views[j]) is Path,
                    forall|j: int| 0 <= j < i ==> list@[j] == views[j]->Path_0,
                decreases items.len() - i,
            {
                assert(views[i as int] == items@[i as int]@);
                match &items[i] {
                    ListItem::Path(path) => {
                        list.push(path.clone());
                    },
                    _ => {
                        return None;
                    },
                }
                i += 1;
            }
            assert(list@ =~= Seq::new(views.len(), |i: int| views[i]->Path_0));
            Some(list)
        },
        _ => None,
    }
}

fn read_paths(value: &MetaValue) -> (list: Option<Vec<syn::Path>>)
    ensures
        optional_paths(list) == paths_value(value@),
{
    match value {
        MetaValue::NameValue { paths: Some(paths), .. } => Some(copy_paths(paths)),
        _ => read_listed_paths(value),
    }
}

fn read_names(value: &MetaValue) -> (names: Option<Vec<Ident>>)
    ensures
        match names {
            Some(names) => names_value(value@) == Some(names@),
            None => names_value(value@) is None,
        },
{
    match read_listed_paths(value) {
        None => None,
        Some(list) => {
            let mut names: Vec<Ident> = Vec::new();
            let mut i: usize = 0;
            while i < list.len()
                invariant
                    i <= list.len(),
                    listed_paths(value@) == Some(list@),
                    names@.len() == i,
                    forall|j: int| 0 <= j < i ==> path_ident(#[trigger] list@[j]) is Some,
                    forall|j: int| 0 <= j < i ==> names@[j] == path_ident(list@[j])->Some_0,
                decreases list.len() - i,
            {
                match single_ident(&list[i]) {
                    Some(name) => {
                        names.push(name);
                    },
                    None => {
                        return None;
                    },
                }
                i += 1;
            }
            assert(names@ =~= Seq::new(list@.len(), |i: int| path_ident(list@[i])->Some_0));
            Some(names)
        },
    }
}

fn read_path(value: &MetaValue) -> (path: Option<syn::Path>)
    ensures
        path == path_value(value@),
{
    match read_listed_paths(value) {
        None => None,
        Some(list) => {
            if list.len() == 1 {
                Some(list[0].clone())
            } else {
                None
            }
        },
    }
}

/// The attribute that a name stands for.
pub fn field_of(name: &String) -> (field: Option<Field>)
    ensures
        field == field_named(name@),
{
    if *name == "description".to_owned() {
        Some(Field::Description)
    } else if *name == "required_permissions".to_owned() {
        Some(Field::RequiredPermissions)
    } else if *name == "checks".to_owned() {
        Some(Field::Checks)
    } else if *name == "error_handler".to_owned() {
        Some(Field::ErrorHandler)
    } else if *name == "nsfw".to_owned() {
        Some(Field::Nsfw)
    } else if *name == "only_guilds".to_owned() {
        Some(Field::OnlyGuilds)
    } else {
        None
    }
}

impl Partial {
    fn has(&self, field: Field) -> (yes: bool)
        ensures
            yes == self@.has(field),
    {
        match field {
            Field::Description => !matches!(self.description, Slot::Unseen),
            Field::RequiredPermissions => !matches!(self.required_permissions, Slot::Unseen),
            Field::Checks => !matches!(self.checks, Slot::Unseen),
            Field::ErrorHandler => !matches!(self.error_handler, Slot::Unseen),
            Field::Nsfw => !matches!(self.nsfw, Slot::Unseen),
            Field::OnlyGuilds => !matches!(self.only_guilds, Slot::Unseen),
        }
    }

    fn reject(self, attribute: Option<usize>, error: DetailsError) -> (next: Partial)
        ensures
            next@ == self@.reject(attribute, error@),
    {
        let mut next = self;
        let ghost before = rejection_views(next.errors@);
        let rejection = Rejection { attribute, error };
        next.errors.push(rejection);
        assert(rejection_views(next.errors@) =~= before.push(rejection@));
        next
    }

    fn put(self, field: Field, value: &MetaValue, position: usize) -> (next: Partial)
        ensures
            next@ == self@.put(field, value@, position),
    {
        let wrong = DetailsError::UnexpectedFormat(field);
        match field {
            Field::Description => match read_text(value) {
                Some(text) => Partial { description: Slot::Given(text), ..self },
                None => Partial { description: Slot::Rejected, ..self }.reject(Some(position), wrong),
            },
            Field::RequiredPermissions => match read_names(value) {
                Some(names) => Partial { required_permissions: Slot::Given(names), ..self },
                None => Partial { required_permissions: Slot::Rejected, ..self }.reject(Some(position), wrong),
            },
            Field::Checks => match read_paths(value) {
                Some(list) => Partial { checks: Slot::Given(list), ..self },
                None => Partial { checks: Slot::Rejected, ..self }.reject(Some(position), wrong),
            },
            Field::ErrorHandler => match read_path(value) {
                Some(path) => Partial { error_handler: Slot::Given(path), ..self },
                None => Partial { error_handler: Slot::Rejected, ..self }.reject(Some(position), wrong),
            },
            Field::Nsfw => match read_flag(value) {
                Some(flag) => Partial { nsfw: Slot::Given(flag), ..self },
                None => Partial { nsfw: Slot::Rejected, ..self }.reject(Some(position), wrong),
            },
            Field::OnlyGuilds => match read_flag(value) {
                Some(flag) => Partial { only_guilds: Slot::Given(flag), ..self },
                None => Partial { only_guilds: Slot::Rejected, ..self }.reject(Some(position), wrong),
            },
        }
    }

    fn take(self, item: &MetaItem, position: usize) -> (next: Partial)
        requires
            accounted(self@),
        ensures
            next@ == accept(self@, item@, position),
            accounted(next@),
    {
        match &item.name {
            None => self.reject(Some(position), DetailsError::Unnamed),
            Some(name) => match field_of(name) {
                None => self.reject(Some(position), DetailsError::UnknownField(name.clone())),
                Some(field) => {
                    if self.has(field) {
                        self.reject(Some(position), DetailsError::DuplicateField(field))
                    } else {
                        self.put(field, &item.value, position)
                    }
                },
            },
        }
    }
}

impl CommandDetails {
    /// Takes every attribute out of `attrs` and reads the details of a
    /// command from them: the result is what `details_of` makes of the
    /// attributes as they are read, one item for each and in their order.
    pub fn parse(attrs: &mut Vec<syn::Attribute>) -> (result: Result<
        CommandDetails,
        Vec<Rejection>,
    >)
        ensures
            final(attrs)@.len() == 0,
            match result {
                Ok(details) => details_of(attribute_views(old(attrs)@)) == Ok::<
                    DetailsView,
                    Seq<RejectionView>,
                >(details@),
                Err(errors) => details_of(attribute_views(old(attrs)@)) == Err::<
                    DetailsView,
                    Seq<RejectionView>,
                >(rejection_views(errors@)),
            },
    {
        let ghost given = old(attrs)@;
        let ghost wanted = attribute_views(given);
        let mut items: Vec<MetaItem> = Vec::new();
        while attrs.len() > 0
            invariant
                items@.len() <= given.len(),
                wanted == attribute_views(given),
                attrs@ == given.skip(items@.len() as int),
                forall|j: int| 0 <= j < items@.len() ==> (#[trigger] items@[j])@ == wanted[j],
            decreases attrs@.len(),
        {
            let ghost k = items@.len() as int;
            let attribute = attrs.remove(0);
            assert(attribute == given[k]);
            assert(attrs@ =~= given.skip(k + 1));
            let nested = into_nested(attribute);
            items.push(read_item(&nested));
        }
        assert(meta_item_views(items@) =~= wanted);
        CommandDetails::from_items(&items)
    }

    /// Reads the details of a command from its attributes, in order. Every
    /// attribute that is rejected is reported under its position, not only
    /// the first.
    pub fn from_items(items: &Vec<MetaItem>) -> (result: Result<CommandDetails, Vec<Rejection>>)
        ensures
            match result {
                Ok(details) => details_of(meta_item_views(items@)) == Ok::<
                    DetailsView,
                    Seq<RejectionView>,
                >(details@),
                Err(errors) => details_of(meta_item_views(items@)) == Err::<
                    DetailsView,
                    Seq<RejectionView>,
                >(rejection_views(errors@)),
            },
    {
        let ghost views = meta_item_views(items@);
        let mut partial = Partial {
            description: Slot::Unseen,
            required_permissions: Slot::Unseen,
            checks: Slot::Unseen,
            error_handler: Slot::Unseen,
            nsfw: Slot::Unseen,
            only_guilds: Slot::Unseen,
            errors: Vec::new(),
        };
        assert(partial@.errors =~= Seq::empty());
        let mut i: usize = 0;
        while i < items.len()
            invariant
                i <= items.len(),
                views == meta_item_views(items@),
                accounted(partial@),
                collect(views, i as nat) == partial@,
            decreases items.len() - i,
        {
            assert(views[i as int] == items@[i as int]@);
            partial = partial.take(&items[i], i);
            i += 1;
        }
        if matches!(partial.description, Slot::Unseen) {
            partial = partial.reject(None, DetailsError::MissingField(Field::Description));
        }
        if partial.errors.len() > 0 {
            return Err(partial.errors);
        }
        let description = match partial.description {
            Slot::Given(text) => text,
            _ => String::new(),
        };
        Ok(
            CommandDetails {
                description,
                required_permissions: match partial.required_permissions {
                    Slot::Given(names) => Some(names),
                    _ => None,
                },
                checks: match partial.checks {
                    Slot::Given(list) => list,
                    _ => Vec::new(),
                },
                error_handler: match partial.error_handler {
                    Slot::Given(path) => Some(path),
                    _ => None,
                },
                nsfw: match partial.nsfw {
                    Slot::Given(flag) => flag,
                    _ => false,
                },
                only_guilds: match partial.only_guilds {
                    Slot::Given(flag) => flag,
                    _ => false,
                },
            },
        )
    }
}

} // verus!
