//! Generated code: a list of tokens that is built from snippets of Rust text, names and streams of
//! the input, and then handed out as a token stream.

use crate::errors::enclosed;
use crate::names::{
    ascii_digit, ascii_letter, legal_ident, legal_punct, Name, NameView,
};
use crate::tokens::{
    ident_span, ident_text, ident_tree, made_text, nest_tree, new_ident, punct_tree, push_stream, push_tree,
    raw_spelling, raw_text, raw_tree, stream_tokens, text_tree, Delim, Joining, Leaf,
};
use proc_macro2::{Ident, Span, TokenStream};
use vstd::prelude::*;
use vstd::string::StrSliceExecFns;

verus! {

/// A token of the generated code.
pub enum Tok {
    /// A word of the derive's own text.
    Word(String),
    /// A punctuation character.
    Punct(char, Joining),
    /// A string literal.
    Text(String),
    /// A raw string literal.
    Raw(String),
    /// Code between delimiters.
    Nest(Delim, Code),
    /// A name.
    Name(Name),
    /// Tokens of the input, as they stand there.
    Splice(TokenStream),
}

/// Generated code.
pub struct Code {
    pub toks: Vec<Tok>,
}

/// What a token of the generated code is.
pub enum Token {
    Word(Seq<char>),
    Punct(char, Joining),
    Text(Seq<char>),
    Raw(Seq<char>),
    Nest(Delim, Seq<Token>),
    Name(NameView),
    Splice(TokenStream),
}

impl Tok {
    pub open spec fn view(self) -> Token
        decreases self,
    {
        match self {
            Tok::Word(text) => Token::Word(text@),
            Tok::Punct(c, joining) => Token::Punct(c, joining),
            Tok::Text(text) => Token::Text(text@),
            Tok::Raw(text) => Token::Raw(text@),
            Tok::Nest(delim, code) => Token::Nest(delim, code.view()),
            Tok::Name(name) => Token::Name(name.view()),
            Tok::Splice(stream) => Token::Splice(stream),
        }
    }
}

impl Code {
    pub open spec fn view(self) -> Seq<Token>
        decreases self,
    {
        Seq::new(
            self.toks@.len(),
            |i: int|
                if 0 <= i < self.toks@.len() {
                    self.toks@[i].view()
                } else {
                    arbitrary()
                },
        )
    }
}

/// A character that ends neither a word nor starts anything else than one.
pub open spec fn word_char(c: char) -> bool {
    ascii_letter(c) || ascii_digit(c) || c == '_'
}

/// How many characters of a text belong to the word that it starts with.
pub open spec fn word_len(text: Seq<char>) -> nat
    decreases text.len(),
{
    if text.len() > 0 && word_char(text[0]) {
        1 + word_len(text.drop_first())
    } else {
        0
    }
}

/// Whether the text starts with a two-character operator: `::`, `=>` or `->`.
pub open spec fn operator_pair(text: Seq<char>) -> bool {
    &&& text.len() >= 2
    &&& {
        ||| text[0] == ':' && text[1] == ':'
        ||| text[0] == '=' && text[1] == '>'
        ||| text[0] == '-' && text[1] == '>'
    }
}

/// The tokens of a snippet of Rust text: its words and its punctuation characters, in order.
/// Whatever is neither only separates them.
pub open spec fn lex(text: Seq<char>) -> Seq<Token>
    decreases text.len(),
    via lex_decreases
{
    if text.len() == 0 {
        Seq::empty()
    } else if word_char(text[0]) && !ascii_digit(text[0]) {
        seq![Token::Word(text.take(word_len(text) as int))] + lex(text.skip(word_len(text) as int))
    } else if legal_punct(text[0]) {
        seq![
            Token::Punct(
                text[0],
                if operator_pair(text) {
                    Joining::Joined
                } else {
                    Joining::Alone
                },
            ),
        ] + lex(text.drop_first())
    } else {
        lex(text.drop_first())
    }
}

#[via_fn]
proof fn lex_decreases(text: Seq<char>) {
    lemma_word_len(text);
}

/// The word at the start of a text is a prefix of word characters, as long as can be.
pub proof fn lemma_word_len(text: Seq<char>)
    ensures
        word_len(text) <= text.len(),
        forall|i: int| 0 <= i < word_len(text) ==> word_char(#[trigger] text[i]),
        word_len(text) < text.len() ==> !word_char(text[word_len(text) as int]),
        text.len() > 0 && word_char(text[0]) ==> word_len(text) > 0,
    decreases text.len(),
{
    if text.len() > 0 && word_char(text[0]) {
        let rest = text.drop_first();
        lemma_word_len(rest);
        assert forall|i: int| 0 <= i < word_len(text) implies word_char(#[trigger] text[i]) by {
            if i > 0 {
                assert(rest[i - 1] == text[i]);
            }
        }
    }
}

/// A prefix of word characters that cannot go on is the word at the start.
pub proof fn lemma_word_len_is(text: Seq<char>, n: int)
    requires
        0 <= n <= text.len(),
        forall|i: int| 0 <= i < n ==> word_char(#[trigger] text[i]),
        n < text.len() ==> !word_char(text[n]),
    ensures
        word_len(text) == n,
    decreases text.len(),
{
    if n > 0 {
        let rest = text.drop_first();
        assert(word_char(text[0]));
        assert forall|i: int| 0 <= i < n - 1 implies word_char(#[trigger] rest[i]) by {
            assert(rest[i] == text[i + 1]);
        }
        lemma_word_len_is(rest, n - 1);
    }
}

fn is_word_char(c: char) -> (res: bool)
    ensures
        res == word_char(c),
{
    ('a' <= c && c <= 'z') || ('A' <= c && c <= 'Z') || ('0' <= c && c <= '9') || c == '_'
}

fn is_legal_punct(c: char) -> (res: bool)
    ensures
        res == legal_punct(c),
{
    c == '!' || c == '#' || c == '$' || ('%' <= c && c <= '\'') || ('*' <= c && c <= '/') || c
        == ':' || c == ';' || ('<' <= c && c <= '@') || c == '^' || c == '|' || c == '~'
}

impl Code {
    /// Code without a token.
    pub fn new() -> (res: Code)
        ensures
            res@ == Seq::<Token>::empty(),
    {
        Code { toks: Vec::new() }
    }

    fn push(&mut self, tok: Tok)
        ensures
            final(self)@ == old(self)@.push(tok@),
    {
        let ghost before = *self;
        self.toks.push(tok);
        proof {
            assert(self@ =~= before@.push(tok@));
        }
    }

    /// Appends the tokens of a snippet of Rust text.
    pub fn quote(&mut self, text: &str)
        ensures
            final(self)@ == old(self)@ + lex(text@),
    {
        let n: usize = text.unicode_len();
        let mut i: usize = 0;
        let ghost start = self@;
        proof {
            assert(text@.skip(0) == text@);
        }
        while i < n
            invariant
                n == text@.len(),
                i <= n,
                self@ + lex(text@.skip(i as int)) == start + lex(text@),
            decreases n - i,
        {
            let ghost rest = text@.skip(i as int);
            let c: char = text.get_char(i);
            if is_word_char(c) && !('0' <= c && c <= '9') {
                let mut j: usize = i + 1;
                while j < n && is_word_char(text.get_char(j))
                    invariant
                        n == text@.len(),
                        i < j <= n,
                        forall|k: int| i <= k < j ==> word_char(#[trigger] text@[k]),
                    decreases n - j,
                {
                    j = j + 1;
                }
                proof {
                    assert forall|k: int| 0 <= k < j - i implies word_char(
                        #[trigger] rest[k],
                    ) by {
                        assert(rest[k] == text@[k + i]);
                    }
                    lemma_word_len_is(rest, j - i);
                    assert(rest.take(j - i) == text@.subrange(i as int, j as int));
                    assert(rest.skip(j - i) == text@.skip(j as int));
                }
                let ghost before = self@;
                self.push(Tok::Word(text.substring_char(i, j).to_owned()));
                proof {
                    let word = Token::Word(rest.take(j - i));
                    assert(before.push(word) + lex(text@.skip(j as int)) =~= before + (seq![word]
                        + lex(text@.skip(j as int))));
                }
                i = j;
            } else {
                proof {
                    assert(rest.drop_first() == text@.skip(i + 1));
                }
                if is_legal_punct(c) {
                    let pair: bool = i + 1 < n && ((c == ':' && text.get_char(i + 1) == ':') || (c
                        == '=' && text.get_char(i + 1) == '>') || (c == '-' && text.get_char(i + 1)
                        == '>'));
                    let joining: Joining = if pair {
                        Joining::Joined
                    } else {
                        Joining::Alone
                    };
                    let ghost before = self@;
                    self.push(Tok::Punct(c, joining));
                    proof {
                        let punct = Token::Punct(c, joining);
                        assert(before.push(punct) + lex(text@.skip(i + 1)) =~= before + (seq![
                            punct,
                        ] + lex(text@.skip(i + 1))));
                    }
                }
                i = i + 1;
            }
        }
        proof {
            assert(text@.skip(n as int) =~= Seq::<char>::empty());
            assert(self@ + Seq::<Token>::empty() =~= self@);
        }
    }

    /// Appends an identifier of the input.
    pub fn ident(&mut self, ident: &Ident)
        ensures
            final(self)@ == old(self)@ + given(*ident),
    {
        self.push(Tok::Name(Name::Given(ident.clone())));
    }

    /// Appends a name.
    pub fn name(&mut self, name: &Name)
        ensures
            final(self)@ == old(self)@ + named(name@),
    {
        self.push(Tok::Name(name.duplicate()));
    }

    /// Appends a string literal.
    pub fn text(&mut self, text: &str)
        ensures
            final(self)@ == old(self)@ + literal(text@),
    {
        self.push(Tok::Text(text.to_owned()));
    }

    /// Appends a raw string literal.
    pub fn raw(&mut self, text: &str)
        ensures
            final(self)@ == old(self)@ + raw_literal(text@),
    {
        self.push(Tok::Raw(text.to_owned()));
    }

    /// Appends code between parentheses.
    pub fn paren(&mut self, inner: Code)
        ensures
            final(self)@ == old(self)@ + paren(inner@),
    {
        self.push(Tok::Nest(Delim::Paren, inner));
    }

    /// Appends code between square brackets.
    pub fn bracket(&mut self, inner: Code)
        ensures
            final(self)@ == old(self)@ + bracket(inner@),
    {
        self.push(Tok::Nest(Delim::Bracket, inner));
    }

    /// Appends code between braces.
    pub fn brace(&mut self, inner: Code)
        ensures
            final(self)@ == old(self)@ + brace(inner@),
    {
        self.push(Tok::Nest(Delim::Brace, inner));
    }

    /// Appends tokens of the input.
    pub fn splice(&mut self, stream: &TokenStream)
        ensures
            final(self)@ == old(self)@ + splice(*stream),
    {
        self.push(Tok::Splice(stream.clone()));
    }

    /// Appends each of several streams of the input.
    pub fn splice_all(&mut self, streams: &Vec<TokenStream>)
        ensures
            final(self)@ == old(self)@ + splices(streams@),
    {
        let ghost start = self@;
        let mut i: usize = 0;
        proof {
            assert(start + splices(streams@.take(0)) =~= start);
        }
        while i < streams.len()
            invariant
                i <= streams.len(),
                self@ == start + splices(streams@.take(i as int)),
            decreases streams.len() - i,
        {
            self.splice(&streams[i]);
            proof {
                assert(streams@.take(i + 1) =~= streams@.take(i as int).push(streams@[i as int]));
                assert(splices(streams@.take(i + 1)) =~= splices(streams@.take(i as int)) + splice(
                    streams@[i as int],
                ));
            }
            i = i + 1;
        }
        proof {
            assert(streams@.take(i as int) =~= streams@);
        }
    }

    /// Appends other code.
    pub fn append(&mut self, mut other: Code)
        ensures
            final(self)@ == old(self)@ + other@,
    {
        let ghost before = self@;
        let ghost more = other@;
        self.toks.append(&mut other.toks);
        proof {
            assert(self@ =~= before + more);
        }
    }
}

/// An identifier of the input, as code.
pub open spec fn given(ident: Ident) -> Seq<Token> {
    seq![Token::Name(NameView::Given(ident))]
}

/// A name, as code.
pub open spec fn named(name: NameView) -> Seq<Token> {
    seq![Token::Name(name)]
}

/// A string literal, as code.
pub open spec fn literal(text: Seq<char>) -> Seq<Token> {
    seq![Token::Text(text)]
}

/// A raw string literal, as code.
pub open spec fn raw_literal(text: Seq<char>) -> Seq<Token> {
    seq![Token::Raw(text)]
}

/// Code between parentheses.
pub open spec fn paren(inner: Seq<Token>) -> Seq<Token> {
    seq![Token::Nest(Delim::Paren, inner)]
}

/// Code between square brackets.
pub open spec fn bracket(inner: Seq<Token>) -> Seq<Token> {
    seq![Token::Nest(Delim::Bracket, inner)]
}

/// Code between braces.
pub open spec fn brace(inner: Seq<Token>) -> Seq<Token> {
    seq![Token::Nest(Delim::Brace, inner)]
}

/// Tokens of the input, as code.
pub open spec fn splice(stream: TokenStream) -> Seq<Token> {
    seq![Token::Splice(stream)]
}

/// Several streams of the input, as code.
pub open spec fn splices(streams: Seq<TokenStream>) -> Seq<Token> {
    Seq::new(streams.len(), |i: int| Token::Splice(streams[i]))
}

/// Whether a token can stand in a token stream.
pub open spec fn legal_token(token: Token) -> bool
    decreases token,
{
    match token {
        Token::Word(text) => legal_ident(text),
        Token::Punct(c, _) => legal_punct(c),
        Token::Raw(text) => raw_text(text),
        Token::Nest(_, inner) => legal(inner),
        Token::Name(name) => name.legal(),
        Token::Text(_) | Token::Splice(_) => true,
    }
}

/// Whether all tokens of the code can stand in a token stream.
pub open spec fn legal(code: Seq<Token>) -> bool
    decreases code,
{
    forall|i: int| 0 <= i < code.len() ==> legal_token(#[trigger] code[i])
}

/// What a token of the generated code is in a token stream; `site` is the place of what stands
/// nowhere in the input.
pub open spec fn token_leaves(token: Token, site: Span) -> Seq<Leaf>
    decreases token,
{
    match token {
        Token::Word(text) => seq![Leaf::Name(made_text(text, site), site)],
        Token::Punct(c, joining) => seq![Leaf::Punct(c, joining, site)],
        Token::Text(text) => seq![Leaf::Text(text, site)],
        Token::Raw(text) => seq![Leaf::Literal(raw_spelling(text), site)],
        Token::Nest(delim, inner) => seq![Leaf::Nest(delim, leaves(inner, site), site)],
        Token::Name(NameView::Given(ident)) => seq![Leaf::Name(ident_text(ident), ident_span(ident))],
        Token::Name(NameView::Made(text, span)) => seq![Leaf::Name(made_text(text, span), span)],
        Token::Splice(stream) => stream_tokens(stream),
    }
}

/// The token stream that the code is.
pub open spec fn leaves(code: Seq<Token>, site: Span) -> Seq<Leaf>
    decreases code,
{
    if code.len() == 0 {
        Seq::empty()
    } else {
        leaves(code.drop_last(), site) + token_leaves(code.last(), site)
    }
}

impl Code {
    /// Hands the code out as a token stream. What does not come from the input is placed at `site`.
    pub fn to_stream(&self, site: Span) -> (res: TokenStream)
        requires
            legal(self@),
        ensures
            stream_tokens(res) == leaves(self@, site),
        decreases self,
    {
        let mut stream: TokenStream = TokenStream::new();
        let mut i: usize = 0;
        proof {
            assert(self@.take(0) =~= Seq::<Token>::empty());
        }
        while i < self.toks.len()
            invariant
                legal(self@),
                i <= self.toks.len(),
                stream_tokens(stream) == leaves(self@.take(i as int), site),
            decreases self.toks.len() - i,
        {
            let ghost before = stream_tokens(stream);
            proof {
                assert(self@[i as int] == self.toks@[i as int]@);
                assert(legal_token(self@[i as int]));
                assert(self@.take(i + 1).drop_last() =~= self@.take(i as int));
            }
            match &self.toks[i] {
                Tok::Word(text) => push_tree(&mut stream, ident_tree(new_ident(text.as_str(), site))),
                Tok::Punct(c, joining) => push_tree(&mut stream, punct_tree(*c, *joining, site)),
                Tok::Text(text) => push_tree(&mut stream, text_tree(text.as_str(), site)),
                Tok::Raw(text) => {
                    let spelling: String = enclosed("r\"", text.as_str(), "\"");
                    proof {
                        reveal_strlit("r\"");
                        reveal_strlit("\"");
                        assert(spelling@ =~= raw_spelling(text@));
                    }
                    push_tree(&mut stream, raw_tree(spelling.as_str(), site))
                },
                Tok::Nest(delim, inner) => push_tree(
                    &mut stream,
                    nest_tree(*delim, inner.to_stream(site), site),
                ),
                Tok::Name(Name::Given(ident)) => push_tree(&mut stream, ident_tree(ident.clone())),
                Tok::Name(Name::Made(text, span)) => push_tree(
                    &mut stream,
                    ident_tree(new_ident(text.as_str(), *span)),
                ),
                Tok::Splice(more) => push_stream(&mut stream, more.clone()),
            }
            proof {
                assert(stream_tokens(stream) =~= before + token_leaves(self@[i as int], site));
            }
            i = i + 1;
        }
        proof {
            assert(self@.take(i as int) =~= self@);
        }
        stream
    }
}

/// Code of two parts is legal where both are.
pub broadcast proof fn lemma_legal_concat(a: Seq<Token>, b: Seq<Token>)
    ensures
        #[trigger] legal(a + b) == (legal(a) && legal(b)),
{
    assert forall|i: int| 0 <= i < a.len() && legal(a + b) implies legal_token(#[trigger] a[i]) by {
        assert((a + b)[i] == a[i]);
    }
    assert forall|i: int| 0 <= i < b.len() && legal(a + b) implies legal_token(#[trigger] b[i]) by {
        assert((a + b)[i + a.len()] == b[i]);
    }
}

/// The tokens of every snippet are legal.
pub broadcast proof fn lemma_legal_lex(text: Seq<char>)
    ensures
        legal(#[trigger] lex(text)),
    decreases text.len(),
{
    broadcast use lemma_legal_concat;

    if text.len() > 0 {
        lemma_word_len(text);
        if word_char(text[0]) && !ascii_digit(text[0]) {
            let word = text.take(word_len(text) as int);
            assert forall|i: int| 0 <= i < word.len() implies word_char(#[trigger] word[i]) by {
                assert(word[i] == text[i]);
            }
            assert(word[0] == text[0]);
            assert(legal_token(Token::Word(word)));
            lemma_legal_lex(text.skip(word_len(text) as int));
        } else {
            lemma_legal_lex(text.drop_first());
        }
    }
}

/// What the input holds is legal, and so are string literals.
pub broadcast proof fn lemma_legal_given(ident: Ident)
    ensures
        legal(#[trigger] given(ident)),
{
}

pub broadcast proof fn lemma_legal_literal(text: Seq<char>)
    ensures
        legal(#[trigger] literal(text)),
{
}

/// A raw string literal is legal code where its text may stand in one.
pub broadcast proof fn lemma_legal_raw(text: Seq<char>)
    ensures
        legal(#[trigger] raw_literal(text)) == raw_text(text),
{
    assert(raw_literal(text)[0] == Token::Raw(text));
}

pub broadcast proof fn lemma_legal_splice(stream: TokenStream)
    ensures
        legal(#[trigger] splice(stream)),
{
}

pub broadcast proof fn lemma_legal_splices(streams: Seq<TokenStream>)
    ensures
        legal(#[trigger] splices(streams)),
{
}

/// A name is legal code where it is a legal name.
pub broadcast proof fn lemma_legal_named(name: NameView)
    ensures
        legal(#[trigger] named(name)) == name.legal(),
{
    assert(named(name)[0] == Token::Name(name));
}

/// Code between delimiters is legal where the code is.
pub broadcast proof fn lemma_legal_paren(inner: Seq<Token>)
    ensures
        legal(#[trigger] paren(inner)) == legal(inner),
{
    assert(paren(inner)[0] == Token::Nest(Delim::Paren, inner));
}

pub broadcast proof fn lemma_legal_bracket(inner: Seq<Token>)
    ensures
        legal(#[trigger] bracket(inner)) == legal(inner),
{
    assert(bracket(inner)[0] == Token::Nest(Delim::Bracket, inner));
}

pub broadcast proof fn lemma_legal_brace(inner: Seq<Token>)
    ensures
        legal(#[trigger] brace(inner)) == legal(inner),
{
    assert(brace(inner)[0] == Token::Nest(Delim::Brace, inner));
}

pub broadcast group group_legal {
    lemma_legal_concat,
    lemma_legal_lex,
    lemma_legal_given,
    lemma_legal_literal,
    lemma_legal_raw,
    lemma_legal_splice,
    lemma_legal_splices,
    lemma_legal_named,
    lemma_legal_paren,
    lemma_legal_bracket,
    lemma_legal_brace,
}

} // verus!
