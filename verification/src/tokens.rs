use proc_macro2::{Ident, Punct, Spacing, Span, TokenStream};
use quote::{ToTokens, TokenStreamExt};
use vstd::prelude::*;

verus! {

#[verifier::external_type_specification]
#[verifier::external_body]
pub struct ExTokenStream(proc_macro2::TokenStream);

#[verifier::external_type_specification]
#[verifier::external_body]
pub struct ExIdent(proc_macro2::Ident);

#[verifier::external_type_specification]
#[verifier::external_body]
pub struct ExPath(syn::Path);

/// The brackets around a group of tokens; `Unseen` brackets group tokens
/// without being written.
pub enum Bracket {
    Round,
    Square,
    Curly,
    Unseen,
}

/// One token of a stream, without its position in any source text.
pub enum Token {
    /// An identifier or keyword.
    Word(Seq<char>),
    /// A punctuation character; `joint` says that the next token is a
    /// punctuation character that belongs to the same operator.
    Mark { ch: char, joint: bool },
    /// A string literal with this content.
    Text(Seq<char>),
    /// Any other literal, as it is written.
    Literal(Seq<char>),
    /// Tokens within brackets.
    Group(Bracket, Seq<Token>),
}

/// The tokens that a stream holds, in order.
pub uninterp spec fn stream_tokens(stream: TokenStream) -> Seq<Token>;

/// The tokens that a path is written as.
pub uninterp spec fn path_tokens(path: syn::Path) -> Seq<Token>;

/// The text of an identifier.
pub uninterp spec fn ident_text(ident: Ident) -> Seq<char>;

/// Whether `c` may stand in an identifier: an ASCII letter, digit or underscore.
pub open spec fn word_char(c: char) -> bool {
    ||| 'a' <= c <= 'z'
    ||| 'A' <= c <= 'Z'
    ||| '0' <= c <= '9'
    ||| c == '_'
}

/// Whether the first `n` characters of `text` may all stand in an identifier.
pub open spec fn word_chars(text: Seq<char>, n: nat) -> bool
    decreases n,
{
    n == 0 || (word_char(text[n - 1]) && word_chars(text, (n - 1) as nat))
}

/// Whether `text` is a plain identifier: ASCII letters, digits and
/// underscores, not starting with a digit, and not the lone underscore.
pub open spec fn is_identifier(text: Seq<char>) -> bool {
    &&& text.len() > 0
    &&& !('0' <= text[0] <= '9')
    &&& !(text.len() == 1 && text[0] == '_')
    &&& word_chars(text, text.len())
}

/// Whether `ch` is one of the punctuation characters of the language.
pub open spec fn is_mark(ch: char) -> bool {
    ||| ch == '!' || ch == '#' || ch == '$' || ch == '%' || ch == '&' || ch == '\''
    ||| ch == '*' || ch == '+' || ch == ',' || ch == '-' || ch == '.' || ch == '/'
    ||| ch == ':' || ch == ';' || ch == '<' || ch == '=' || ch == '>' || ch == '?'
    ||| ch == '@' || ch == '^' || ch == '|' || ch == '~'
}

/// `TokenStream::new`: a stream that holds no token.
#[verifier::external_body]
pub(crate) fn empty_stream() -> (stream: TokenStream)
    ensures
        stream_tokens(stream) == Seq::<Token>::empty(),
{
    TokenStream::new()
}

/// `Ident::new` with the call-site span, then `TokenStreamExt::append`: the
/// stream gains one identifier at its end. `Ident::new` panics on text that is
/// not an identifier, which the precondition leaves out.
#[verifier::external_body]
pub(crate) fn append_word(stream: &mut TokenStream, name: &str)
    requires
        is_identifier(name@),
    ensures
        stream_tokens(*final(stream)) == stream_tokens(*old(stream)).push(Token::Word(name@)),
{
    stream.append(Ident::new(name, Span::call_site()));
}

/// `Punct::new` with `Spacing::Alone`, then `TokenStreamExt::append`: the
/// stream gains one punctuation character that ends its operator.
/// `Punct::new` panics on other characters, which the precondition leaves out.
#[verifier::external_body]
pub(crate) fn append_mark(stream: &mut TokenStream, ch: char)
    requires
        is_mark(ch),
    ensures
        stream_tokens(*final(stream)) == stream_tokens(*old(stream)).push(Token::Mark { ch, joint: false }),
{
    stream.append(Punct::new(ch, Spacing::Alone));
}

/// `Punct::new` with `Spacing::Joint`, then `TokenStreamExt::append`: the
/// stream gains one punctuation character that the next one continues.
#[verifier::external_body]
pub(crate) fn append_joint_mark(stream: &mut TokenStream, ch: char)
    requires
        is_mark(ch),
    ensures
        stream_tokens(*final(stream)) == stream_tokens(*old(stream)).push(Token::Mark { ch, joint: true }),
{
    stream.append(Punct::new(ch, Spacing::Joint));
}

/// `ToTokens::to_tokens` of a `str`: the stream gains one string literal with
/// the text as its content.
#[verifier::external_body]
pub(crate) fn append_text(stream: &mut TokenStream, text: &str)
    ensures
        stream_tokens(*final(stream)) == stream_tokens(*old(stream)).push(Token::Text(text@)),
{
    text.to_tokens(stream);
}

/// `Group::new` with `Delimiter::Parenthesis`, then `TokenStreamExt::append`:
/// the stream gains one group that holds the tokens of `inner` in round
/// brackets.
#[verifier::external_body]
pub(crate) fn append_round(stream: &mut TokenStream, inner: TokenStream)
    ensures
        stream_tokens(*final(stream)) == stream_tokens(*old(stream)).push(
            Token::Group(Bracket::Round, stream_tokens(inner)),
        ),
{
    stream.append(proc_macro2::Group::new(proc_macro2::Delimiter::Parenthesis, inner));
}

/// `Group::new` with `Delimiter::Bracket`, then `TokenStreamExt::append`: the
/// stream gains one group that holds the tokens of `inner` in square brackets.
#[verifier::external_body]
pub(crate) fn append_square(stream: &mut TokenStream, inner: TokenStream)
    ensures
        stream_tokens(*final(stream)) == stream_tokens(*old(stream)).push(
            Token::Group(Bracket::Square, stream_tokens(inner)),
        ),
{
    stream.append(proc_macro2::Group::new(proc_macro2::Delimiter::Bracket, inner));
}

/// `ToTokens::to_tokens` of a `syn::Path`: the stream gains the tokens that
/// the path is written as, at its end.
#[verifier::external_body]
pub(crate) fn append_path(stream: &mut TokenStream, path: &syn::Path)
    ensures
        stream_tokens(*final(stream)) == stream_tokens(*old(stream)) + path_tokens(*path),
{
    path.to_tokens(stream);
}

/// `ToTokens::to_tokens` of an `Ident`, which appends a copy of it: the
/// stream gains one identifier with the same text at its end.
#[verifier::external_body]
pub(crate) fn append_ident(stream: &mut TokenStream, ident: &Ident)
    ensures
        stream_tokens(*final(stream)) == stream_tokens(*old(stream)).push(
            Token::Word(ident_text(*ident)),
        ),
{
    ident.to_tokens(stream);
}

/// Appends `.name(inner)`.
pub(crate) fn append_call(stream: &mut TokenStream, name: &str, inner: TokenStream)
    requires
        is_identifier(name@),
    ensures
        stream_tokens(*final(stream)) == stream_tokens(*old(stream)) + call(name@, stream_tokens(inner)),
{
    let ghost before = stream_tokens(*stream);
    append_mark(stream, '.');
    append_word(stream, name);
    append_round(stream, inner);
    assert(stream_tokens(*stream) =~= before + call(name@, stream_tokens(inner)));
}

/// The tokens of a method call `.name(arguments)`.
pub open spec fn call(name: Seq<char>, arguments: Seq<Token>) -> Seq<Token> {
    seq![
        Token::Mark { ch: '.', joint: false },
        Token::Word(name),
        Token::Group(Bracket::Round, arguments),
    ]
}

} // verus!
