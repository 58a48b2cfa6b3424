use crate::command::text_of;
use crate::details::{
    list_item_from, list_item_of, meta_value_from, meta_value_of, ListItem, ListItemView,
    MetaItem, MetaItemView,
};
use darling::ast::NestedMeta;
use darling::FromMeta;
use proc_macro2::Ident;
use syn::punctuated::Punctuated;
use vstd::prelude::*;

verus! {

#[verifier::external_type_specification]
#[verifier::external_body]
pub struct ExAttribute(syn::Attribute);

#[verifier::external_type_specification]
#[verifier::external_body]
pub struct ExNestedMeta(darling::ast::NestedMeta);

#[verifier::external_type_specification]
#[verifier::external_body]
pub struct ExMetaError(darling::Error);

#[verifier::external_type_specification]
#[verifier::external_body]
pub struct ExSyntaxError(syn::Error);

/// The form of an attribute or of an entry in an attribute's list.
#[derive(Clone, Copy, Debug, PartialEq, Eq, Structural)]
pub enum Shape {
    /// A bare literal.
    Literal,
    /// A bare path.
    Word,
    /// A path followed by a bracketed list.
    List,
    /// A path followed by `=` and a value.
    NameValue,
}

/// The item that an attribute holds.
pub uninterp spec fn attribute_meta(attribute: syn::Attribute) -> NestedMeta;

/// The form of an item.
pub uninterp spec fn item_shape(item: NestedMeta) -> Shape;

/// The name in front of an item: its path with `::` between the segments.
/// A literal has none.
pub uninterp spec fn item_name(item: NestedMeta) -> Option<Seq<char>>;

/// The text that an item reads as, where it reads as one.
pub uninterp spec fn item_text(item: NestedMeta) -> Option<Seq<char>>;

/// The truth value that an item reads as, where it reads as one.
pub uninterp spec fn item_flag(item: NestedMeta) -> Option<bool>;

/// The entries of the bracketed list of an item, where it has one that can
/// be read.
pub uninterp spec fn item_children(item: NestedMeta) -> Option<Seq<NestedMeta>>;

/// The path that an item is, where it is a bare path.
pub uninterp spec fn item_path(item: NestedMeta) -> Option<syn::Path>;

/// The paths that the string behind an item reads as, separated by commas,
/// where it is such a string.
pub uninterp spec fn item_paths(item: NestedMeta) -> Option<Seq<syn::Path>>;

/// The identifier that a path is, where it is no more than one.
pub uninterp spec fn path_ident(path: syn::Path) -> Option<Ident>;

/// `NestedMeta::Meta` around the `meta` field of an attribute: the item that
/// the attribute holds.
#[verifier::external_body]
pub(crate) fn into_nested(attribute: syn::Attribute) -> (item: NestedMeta)
    ensures
        item == attribute_meta(attribute),
{
    NestedMeta::Meta(attribute.meta)
}

/// Tells the variants of `NestedMeta` and of the `syn::Meta` inside it apart:
/// the form of the item.
#[verifier::external_body]
pub(crate) fn nested_shape(item: &NestedMeta) -> (shape: Shape)
    ensures
        shape == item_shape(*item),
{
    match item {
        NestedMeta::Lit(_) => Shape::Literal,
        NestedMeta::Meta(syn::Meta::Path(_)) => Shape::Word,
        NestedMeta::Meta(syn::Meta::List(_)) => Shape::List,
        NestedMeta::Meta(syn::Meta::NameValue(_)) => Shape::NameValue,
    }
}

/// `darling::util::path_to_string` of `syn::Meta::path`: the name in front of
/// an item, which a literal does not have.
#[verifier::external_body]
pub(crate) fn nested_name(item: &NestedMeta) -> (name: Option<String>)
    ensures
        text_of(name) == item_name(*item),
{
    match item {
        NestedMeta::Meta(meta) => Some(darling::util::path_to_string(meta.path())),
        NestedMeta::Lit(_) => None,
    }
}

/// `FromMeta::from_nested_meta` for `String`: the text that the item reads
/// as; an error means that it reads as none.
#[verifier::external_body]
pub(crate) fn nested_text(item: &NestedMeta) -> (text: Result<String, darling::Error>)
    ensures
        match text {
            Ok(text) => item_text(*item) == Some(text@),
            Err(_) => item_text(*item) is None,
        },
{
    <String as FromMeta>::from_nested_meta(item)
}

/// `FromMeta::from_nested_meta` for `bool`: the truth value that the item
/// reads as; an error means that it reads as none.
#[verifier::external_body]
pub(crate) fn nested_flag(item: &NestedMeta) -> (flag: Result<bool, darling::Error>)
    ensures
        match flag {
            Ok(flag) => item_flag(*item) == Some(flag),
            Err(_) => item_flag(*item) is None,
        },
{
    <bool as FromMeta>::from_nested_meta(item)
}

/// `NestedMeta::parse_meta_list` on the tokens of a `syn::Meta::List`: the
/// entries of the bracketed list; an item that is no list, or whose list
/// cannot be read, has none.
#[verifier::external_body]
pub(crate) fn nested_children(item: &NestedMeta) -> (children: Option<
    Result<Vec<NestedMeta>, syn::Error>,
>)
    ensures
        match children {
            Some(Ok(entries)) => item_children(*item) == Some(entries@),
            _ => item_children(*item) is None,
        },
{
    match item {
        NestedMeta::Meta(syn::Meta::List(list)) => Some(
            NestedMeta::parse_meta_list(list.tokens.clone()),
        ),
        _ => None,
    }
}

/// A copy of the `syn::Path` inside a bare path, whole as it was written; an
/// item of another form is no path.
#[verifier::external_body]
pub(crate) fn nested_path(item: &NestedMeta) -> (path: Option<syn::Path>)
    ensures
        path == item_path(*item),
{
    match item {
        NestedMeta::Meta(syn::Meta::Path(path)) => Some(path.clone()),
        _ => None,
    }
}

/// `FromMeta::from_nested_meta` for `Punctuated<syn::Path, Comma>`, which
/// parses the text of a string literal as paths separated by commas: those
/// paths in order; an error means that the item reads as none.
#[verifier::external_body]
pub(crate) fn nested_paths(item: &NestedMeta) -> (paths: Result<Vec<syn::Path>, darling::Error>)
    ensures
        match paths {
            Ok(paths) => item_paths(*item) == Some(paths@),
            Err(_) => item_paths(*item) is None,
        },
{
    <Punctuated<syn::Path, syn::token::Comma> as FromMeta>::from_nested_meta(item).map(
        |list| list.into_iter().collect(),
    )
}

/// A copy of `syn::Path::get_ident`: the identifier that the path is, where
/// it has no leading colon, one segment and no arguments.
#[verifier::external_body]
pub(crate) fn single_ident(path: &syn::Path) -> (ident: Option<Ident>)
    ensures
        ident == path_ident(*path),
{
    path.get_ident().cloned()
}

/// `Clone::clone` of a `syn::Path`: the same path.
pub assume_specification[ <syn::Path as Clone>::clone ](path: &syn::Path) -> (copy: syn::Path)
    ensures
        copy == *path,
;

/// `Clone::clone` of an `Ident`: the same identifier.
pub assume_specification[ <Ident as Clone>::clone ](ident: &Ident) -> (copy: Ident)
    ensures
        copy == *ident,
;

/// What an entry of a bracketed list is read as.
pub open spec fn entry_view(item: NestedMeta) -> ListItemView {
    list_item_of(item_shape(item), item_text(item), item_path(item))
}

/// The entries that a list of items is read as.
pub open spec fn entry_views(items: Seq<NestedMeta>) -> Seq<ListItemView> {
    items.map_values(|entry: NestedMeta| entry_view(entry))
}

/// What an item is read as: its name, and behind it what its form and its
/// readings make.
pub open spec fn item_view(item: NestedMeta) -> MetaItemView {
    MetaItemView {
        name: item_name(item),
        value: meta_value_of(
            item_shape(item),
            item_text(item),
            item_flag(item),
            item_paths(item),
            match item_children(item) {
                Some(entries) => Some(entry_views(entries)),
                None => None,
            },
        ),
    }
}

/// What a list of attributes is read as, one item for each, in order.
pub open spec fn attribute_views(attributes: Seq<syn::Attribute>) -> Seq<MetaItemView> {
    attributes.map_values(|attribute: syn::Attribute| item_view(attribute_meta(attribute)))
}

/// Reads one entry of a bracketed list into plain values.
pub(crate) fn read_list_item(item: &NestedMeta) -> (entry: ListItem)
    ensures
        entry@ == entry_view(*item),
{
    let shape = nested_shape(item);
    let text = match nested_text(item) {
        Ok(text) => Some(text),
        Err(_) => None,
    };
    let path = nested_path(item);
    list_item_from(shape, text, path)
}

/// Reads one attribute into plain values: its name, and behind it what its
/// form and its readings make.
pub(crate) fn read_item(item: &NestedMeta) -> (read: MetaItem)
    ensures
        read@ == item_view(*item),
{
    let name = nested_name(item);
    let shape = nested_shape(item);
    let text = match nested_text(item) {
        Ok(text) => Some(text),
        Err(_) => None,
    };
    let flag = match nested_flag(item) {
        Ok(flag) => Some(flag),
        Err(_) => None,
    };
    let paths = match nested_paths(item) {
        Ok(paths) => Some(paths),
        Err(_) => None,
    };
    let entries = match nested_children(item) {
        Some(Ok(children)) => {
            let ghost wanted = entry_views(children@);
            let mut entries: Vec<ListItem> = Vec::new();
            let mut i: usize = 0;
            while i < children.len()
                invariant
                    i <= children.len(),
                    wanted == entry_views(children@),
                    entries@.len() == i,
                    forall|j: int| 0 <= j < i ==> (#[trigger] entries@[j])@ == wanted[j],
                decreases children.len() - i,
            {
                entries.push(read_list_item(&children[i]));
                i += 1;
            }
            assert(crate::details::list_item_views(entries@) =~= wanted);
            Some(entries)
        },
        _ => None,
    };
    MetaItem { name, value: meta_value_from(shape, text, flag, paths, entries) }
}

} // verus!
