use crate::details::{CommandDetails, DetailsView};
use crate::tokens::{
    append_call, append_ident, append_joint_mark, append_mark, append_path, append_round,
    append_square, append_text, append_word, call, empty_stream, ident_text, is_identifier,
    path_tokens, stream_tokens, word_chars, Bracket, Token,
};
use proc_macro2::{Ident, TokenStream};
use vstd::prelude::*;

verus! {

/// The path separator `::`.
pub open spec fn separator() -> Seq<Token> {
    seq![Token::Mark { ch: ':', joint: true }, Token::Mark { ch: ':', joint: false }]
}

/// The path under which a permission with the given name is found.
pub open spec fn permission_path(name: Seq<char>) -> Seq<Token> {
    seq![Token::Word("zephyrus"@)] + separator() + seq![Token::Word("twilight_exports"@)]
        + separator() + seq![Token::Word("Permissions"@)] + separator() + seq![Token::Word(name)]
}

/// The first `n` permissions, joined by `|`.
pub open spec fn permission_tokens(names: Seq<Ident>, n: nat) -> Seq<Token>
    decreases n,
{
    if n == 0 {
        Seq::empty()
    } else if n == 1 {
        permission_path(ident_text(names[0]))
    } else {
        permission_tokens(names, (n - 1) as nat) + seq![Token::Mark { ch: '|', joint: false }]
            + permission_path(ident_text(names[n - 1]))
    }
}

/// A call of the function at `path` without arguments.
pub open spec fn builder_call(path: syn::Path) -> Seq<Token> {
    path_tokens(path) + seq![Token::Group(Bracket::Round, Seq::empty())]
}

/// Calls of the first `n` functions, separated by commas.
pub open spec fn check_tokens(list: Seq<syn::Path>, n: nat) -> Seq<Token>
    decreases n,
{
    if n == 0 {
        Seq::empty()
    } else if n == 1 {
        builder_call(list[0])
    } else {
        check_tokens(list, (n - 1) as nat) + seq![Token::Mark { ch: ',', joint: false }]
            + builder_call(list[n - 1])
    }
}

/// The word for a truth value.
pub open spec fn flag_word(flag: bool) -> Seq<char> {
    if flag {
        "true"@
    } else {
        "false"@
    }
}

/// The builder calls that set the details on a command: the description,
/// the permissions if any are given, the checks, the error handler if one is
/// given, and the two flags.
pub open spec fn details_tokens(details: DetailsView) -> Seq<Token> {
    call("description"@, seq![Token::Text(details.description)]) + (match details.required_permissions {
        Some(names) => call("required_permissions"@, permission_tokens(names, names.len())),
        None => Seq::empty(),
    }) + call(
        "checks"@,
        seq![
            Token::Word("vec"@),
            Token::Mark { ch: '!', joint: false },
            Token::Group(Bracket::Square, check_tokens(details.checks, details.checks.len())),
        ],
    ) + (match details.error_handler {
        Some(path) => call("error_handler"@, builder_call(path)),
        None => Seq::empty(),
    }) + call("nsfw"@, seq![Token::Word(flag_word(details.nsfw))]) + call(
        "only_guilds"@,
        seq![Token::Word(flag_word(details.only_guilds))],
    )
}

proof fn lemma_keywords()
    ensures
        is_identifier("description"@),
        is_identifier("required_permissions"@),
        is_identifier("checks"@),
        is_identifier("error_handler"@),
        is_identifier("nsfw"@),
        is_identifier("only_guilds"@),
        is_identifier("vec"@),
        is_identifier("true"@),
        is_identifier("false"@),
        is_identifier("zephyrus"@),
        is_identifier("twilight_exports"@),
        is_identifier("Permissions"@),
{
    reveal_with_fuel(word_chars, 21);
    reveal_strlit("description");
    reveal_strlit("required_permissions");
    reveal_strlit("checks");
    reveal_strlit("error_handler");
    reveal_strlit("nsfw");
    reveal_strlit("only_guilds");
    reveal_strlit("vec");
    reveal_strlit("true");
    reveal_strlit("false");
    reveal_strlit("zephyrus");
    reveal_strlit("twilight_exports");
    reveal_strlit("Permissions");
}

fn append_separator(stream: &mut TokenStream)
    ensures
        stream_tokens(*final(stream)) == stream_tokens(*old(stream)) + separator(),
{
    let ghost before = stream_tokens(*stream);
    append_joint_mark(stream, ':');
    append_mark(stream, ':');
    assert(stream_tokens(*stream) =~= before + separator());
}

fn append_permission(stream: &mut TokenStream, name: &Ident)
    ensures
        stream_tokens(*final(stream)) == stream_tokens(*old(stream)) + permission_path(
            ident_text(*name),
        ),
{
    let ghost before = stream_tokens(*stream);
    proof {
        lemma_keywords();
    }
    append_word(stream, "zephyrus");
    append_separator(stream);
    append_word(stream, "twilight_exports");
    append_separator(stream);
    append_word(stream, "Permissions");
    append_separator(stream);
    append_ident(stream, name);
    assert(stream_tokens(*stream) =~= before + permission_path(ident_text(*name)));
}

fn append_permissions(stream: &mut TokenStream, names: &Vec<Ident>)
    ensures
        stream_tokens(*final(stream)) == stream_tokens(*old(stream)) + permission_tokens(
            names@,
            names@.len(),
        ),
{
    let ghost before = stream_tokens(*stream);
    assert(stream_tokens(*stream) =~= before + permission_tokens(names@, 0));
    let mut i: usize = 0;
    while i < names.len()
        invariant
            i <= names.len(),
            stream_tokens(*stream) == before + permission_tokens(names@, i as nat),
        decreases names.len() - i,
    {
        if i > 0 {
            append_mark(stream, '|');
        }
        append_permission(stream, &names[i]);
        assert(stream_tokens(*stream) =~= before + permission_tokens(names@, (i + 1) as nat));
        i += 1;
    }
}

fn append_builder_call(stream: &mut TokenStream, path: &syn::Path)
    ensures
        stream_tokens(*final(stream)) == stream_tokens(*old(stream)) + builder_call(*path),
{
    let ghost before = stream_tokens(*stream);
    append_path(stream, path);
    append_round(stream, empty_stream());
    assert(stream_tokens(*stream) =~= before + builder_call(*path));
}

fn append_checks(stream: &mut TokenStream, list: &Vec<syn::Path>)
    ensures
        stream_tokens(*final(stream)) == stream_tokens(*old(stream)) + check_tokens(
            list@,
            list@.len(),
        ),
{
    let ghost before = stream_tokens(*stream);
    assert(stream_tokens(*stream) =~= before + check_tokens(list@, 0));
    let mut i: usize = 0;
    while i < list.len()
        invariant
            i <= list.len(),
            stream_tokens(*stream) == before + check_tokens(list@, i as nat),
        decreases list.len() - i,
    {
        if i > 0 {
            append_mark(stream, ',');
        }
        append_builder_call(stream, &list[i]);
        assert(stream_tokens(*stream) =~= before + check_tokens(list@, (i + 1) as nat));
        i += 1;
    }
}

fn append_flag(stream: &mut TokenStream, name: &str, flag: bool)
    requires
        is_identifier(name@),
    ensures
        stream_tokens(*final(stream)) == stream_tokens(*old(stream)) + call(
            name@,
            seq![Token::Word(flag_word(flag))],
        ),
{
    proof {
        lemma_keywords();
    }
    let mut inner = empty_stream();
    if flag {
        append_word(&mut inner, "true");
    } else {
        append_word(&mut inner, "false");
    }
    assert(stream_tokens(inner) =~= seq![Token::Word(flag_word(flag))]);
    append_call(stream, name, inner);
}

impl CommandDetails {
    /// Appends the builder calls that set these details on a command.
    pub fn to_tokens(&self, tokens: &mut TokenStream)
        ensures
            stream_tokens(*final(tokens)) == stream_tokens(*old(tokens)) + details_tokens(self@),
    {
        let ghost before = stream_tokens(*tokens);
        proof {
            lemma_keywords();
        }
        let mut description = empty_stream();
        append_text(&mut description, self.description.as_str());
        assert(stream_tokens(description) =~= seq![Token::Text(self@.description)]);
        append_call(tokens, "description", description);
        let ghost first = stream_tokens(*tokens);

        match &self.required_permissions {
            Some(names) => {
                let mut inner = empty_stream();
                append_permissions(&mut inner, names);
                assert(stream_tokens(inner) =~= permission_tokens(names@, names@.len()));
                append_call(tokens, "required_permissions", inner);
            },
            None => {
                assert(stream_tokens(*tokens) =~= first + Seq::<Token>::empty());
            },
        }

        let mut calls = empty_stream();
        append_checks(&mut calls, &self.checks);
        assert(stream_tokens(calls) =~= check_tokens(self@.checks, self@.checks.len()));
        let mut list = empty_stream();
        append_word(&mut list, "vec");
        append_mark(&mut list, '!');
        append_square(&mut list, calls);
        assert(stream_tokens(list) =~= seq![
            Token::Word("vec"@),
            Token::Mark { ch: '!', joint: false },
            Token::Group(Bracket::Square, check_tokens(self@.checks, self@.checks.len())),
        ]);
        append_call(tokens, "checks", list);
        let ghost third = stream_tokens(*tokens);

        match &self.error_handler {
            Some(path) => {
                let mut inner = empty_stream();
                append_builder_call(&mut inner, path);
                assert(stream_tokens(inner) =~= builder_call(*path));
                append_call(tokens, "error_handler", inner);
            },
            None => {
                assert(stream_tokens(*tokens) =~= third + Seq::<Token>::empty());
            },
        }
        append_flag(tokens, "nsfw", self.nsfw);
        append_flag(tokens, "only_guilds", self.only_guilds);
        assert(stream_tokens(*tokens) =~= before + details_tokens(self@));
    }
}

} // verus!
