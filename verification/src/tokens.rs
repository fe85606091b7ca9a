//! Token streams: the types of `proc_macro2` that the derive handles, what a stream holds, and
//! the few calls that build one.

use crate::names::{all_ascii, ascii, legal_ident, legal_punct};
use proc_macro2::{Delimiter, Group, Ident, Literal, Punct, Spacing, Span, TokenStream, TokenTree};
use vstd::prelude::*;

verus! {

/// `proc_macro2::TokenStream`, the sequence of tokens that a macro takes and gives.
#[verifier::external_type_specification]
#[verifier::external_body]
pub struct ExTokenStream(TokenStream);

/// `proc_macro2::TokenTree`, one token of a stream.
#[verifier::external_type_specification]
#[verifier::external_body]
pub struct ExTokenTree(TokenTree);

/// `proc_macro2::Ident`, an identifier together with its place in the source.
#[verifier::external_type_specification]
#[verifier::external_body]
pub struct ExIdent(Ident);

/// `proc_macro2::Span`, a place in the source.
#[verifier::external_type_specification]
#[verifier::external_body]
pub struct ExSpan(Span);

/// The delimiters of a group of tokens.
#[derive(Clone, Copy, PartialEq, Eq, Structural)]
pub enum Delim {
    Paren,
    Bracket,
    Brace,
    /// Delimiters that are not written.
    Invisible,
}

/// Whether a punctuation character forms an operator with the one that follows it.
#[derive(Clone, Copy, PartialEq, Eq, Structural)]
pub enum Joining {
    Joined,
    Alone,
}

/// What one token of a stream is.
pub enum Leaf {
    /// An identifier, by its text (with `r#` where it is raw).
    Name(Seq<char>, Span),
    /// A punctuation character.
    Punct(char, Joining, Span),
    /// A string literal in the form that `Literal::string` writes it, by its value.
    Text(Seq<char>, Span),
    /// Any other literal, as it is spelled.
    Literal(Seq<char>, Span),
    /// A delimited group.
    Nest(Delim, Seq<Leaf>, Span),
}

impl Leaf {
    /// The place of the token.
    pub open spec fn span(self) -> Span {
        match self {
            Leaf::Name(_, span) => span,
            Leaf::Punct(_, _, span) => span,
            Leaf::Text(_, span) => span,
            Leaf::Literal(_, span) => span,
            Leaf::Nest(_, _, span) => span,
        }
    }
}

/// The tokens that a stream holds, in order.
pub uninterp spec fn stream_tokens(stream: TokenStream) -> Seq<Leaf>;

/// What a token is.
pub uninterp spec fn tree_leaf(tree: TokenTree) -> Leaf;

/// The text of an identifier, as `Display` writes it.
pub uninterp spec fn ident_text(ident: Ident) -> Seq<char>;

/// The place of an identifier.
pub uninterp spec fn ident_span(ident: Ident) -> Span;

/// The text of the identifier that `Ident::new` makes of a text at a place.
pub uninterp spec fn kept_text(text: Seq<char>, span: Span) -> Seq<char>;

/// The text of an identifier that is made of a text at a place: the text itself where it is ASCII,
/// else what `Ident::new` makes of it.
pub open spec fn made_text(text: Seq<char>, span: Span) -> Seq<char> {
    if all_ascii(text) {
        text
    } else {
        kept_text(text, span)
    }
}

/// `Ident::clone`: the clone is the same identifier at the same place.
pub assume_specification[ <Ident as Clone>::clone ](ident: &Ident) -> (res: Ident)
    ensures
        res == *ident,
;

/// `TokenStream::clone`: the clone is the same stream.
pub assume_specification[ <TokenStream as Clone>::clone ](stream: &TokenStream) -> (res:
    TokenStream)
    ensures
        res == *stream,
;

/// `Ident::span`: the place of the identifier.
pub assume_specification[ Ident::span ](ident: &Ident) -> (res: Span)
    ensures
        res == ident_span(*ident),
;

/// `Span::call_site`: the place of the macro's invocation. Nothing is claimed of it: it depends on
/// where the macro is called.
pub assume_specification[ Span::call_site ]() -> (res: Span)
;

/// `TokenStream::new`: the stream holds nothing.
pub assume_specification[ TokenStream::new ]() -> (res: TokenStream)
    ensures
        stream_tokens(res) == Seq::<Leaf>::empty(),
;

/// `Ident::to_string`: the text of the identifier, which is never empty.
#[verifier::external_body]
pub(crate) fn ident_to_string(ident: &Ident) -> (res: String)
    ensures
        res@ == ident_text(*ident),
        res@.len() > 0,
{
    ident.to_string()
}

/// `Ident::new`: an identifier at the given place. An ASCII text is kept as it is. Another text is
/// kept too where the place is one of `proc_macro2`'s own, and put in Unicode's normal form C where it
/// is one of the compiler's; of that form only the name is given. It panics on a text that is no
/// identifier, which the precondition leaves out.
#[verifier::external_body]
pub(crate) fn new_ident(text: &str, span: Span) -> (res: Ident)
    requires
        legal_ident(text@),
    ensures
        ident_text(res) == kept_text(text@, span),
        (forall|i: int| 0 <= i < text@.len() ==> ascii(#[trigger] text@[i])) ==> ident_text(res)
            == text@,
        ident_span(res) == span,
{
    Ident::new(text, span)
}

/// `TokenTree::from` an identifier: a token with its text and place.
#[verifier::external_body]
pub(crate) fn ident_tree(ident: Ident) -> (res: TokenTree)
    ensures
        tree_leaf(res) == Leaf::Name(ident_text(ident), ident_span(ident)),
{
    TokenTree::from(ident)
}

/// `Punct::new`, placed by `set_span`: a token of that character, spacing and place. `Punct::new`
/// panics on a character that is no punctuation, which the precondition leaves out.
#[verifier::external_body]
pub(crate) fn punct_tree(c: char, joining: Joining, span: Span) -> (res: TokenTree)
    requires
        legal_punct(c),
    ensures
        tree_leaf(res) == Leaf::Punct(c, joining, span),
{
    let spacing = match joining {
        Joining::Joined => Spacing::Joint,
        Joining::Alone => Spacing::Alone,
    };
    let mut punct = Punct::new(c, spacing);
    punct.set_span(span);
    TokenTree::from(punct)
}

/// `Literal::string`, placed by `set_span`: the string literal whose value is the text.
#[verifier::external_body]
pub(crate) fn text_tree(text: &str, span: Span) -> (res: TokenTree)
    ensures
        tree_leaf(res) == Leaf::Text(text@, span),
{
    let mut literal = Literal::string(text);
    literal.set_span(span);
    TokenTree::from(literal)
}

/// Whether a character may stand in the raw string literals that the derive writes: a printable ASCII
/// character that does not end the literal.
pub open spec fn raw_char(c: char) -> bool {
    ' ' <= c <= '~' && c != '"'
}

/// Whether a text may stand in the raw string literals that the derive writes.
pub open spec fn raw_text(text: Seq<char>) -> bool {
    forall|i: int| 0 <= i < text.len() ==> raw_char(#[trigger] text[i])
}

/// The raw string literal of a text, as it is spelled: `r"text"`.
pub open spec fn raw_spelling(text: Seq<char>) -> Seq<char> {
    seq!['r', '"'] + text + seq!['"']
}

/// `Literal::from_str`, placed by `set_span`: the literal that is spelled so. It gives an error for what
/// is no literal; the precondition leaves out all but raw string literals of a plain text.
#[verifier::external_body]
pub(crate) fn raw_tree(spelling: &str, span: Span) -> (res: TokenTree)
    requires
        exists|text: Seq<char>| raw_text(text) && spelling@ == #[trigger] raw_spelling(text),
    ensures
        tree_leaf(res) == Leaf::Literal(spelling@, span),
{
    let mut literal = spelling.parse::<Literal>().unwrap();
    literal.set_span(span);
    TokenTree::from(literal)
}

/// `Group::new`, placed by `set_span`: the stream between the delimiters.
#[verifier::external_body]
pub(crate) fn nest_tree(delim: Delim, inner: TokenStream, span: Span) -> (res: TokenTree)
    ensures
        tree_leaf(res) == Leaf::Nest(delim, stream_tokens(inner), span),
{
    let delimiter = match delim {
        Delim::Paren => Delimiter::Parenthesis,
        Delim::Bracket => Delimiter::Bracket,
        Delim::Brace => Delimiter::Brace,
        Delim::Invisible => Delimiter::None,
    };
    let mut group = Group::new(delimiter, inner);
    group.set_span(span);
    TokenTree::from(group)
}

/// `TokenStream::extend` with one token: the stream holds it behind what it held. A token that
/// stands for a negative number would be split in two; the precondition leaves it out.
#[verifier::external_body]
pub(crate) fn push_tree(stream: &mut TokenStream, tree: TokenTree)
    requires
        tree_leaf(tree) matches Leaf::Literal(spelling, _) ==> spelling.len() > 0 && spelling[0] != '-',
    ensures
        stream_tokens(*final(stream)) == stream_tokens(*old(stream)).push(tree_leaf(tree)),
{
    stream.extend(std::iter::once(tree))
}

/// `TokenStream::extend` with a stream: the stream holds the other's tokens behind what it held.
#[verifier::external_body]
pub(crate) fn push_stream(stream: &mut TokenStream, more: TokenStream)
    ensures
        stream_tokens(*final(stream)) == stream_tokens(*old(stream)) + stream_tokens(more),
{
    stream.extend(std::iter::once(more))
}

} // verus!
