//! What the generated methods do: which arm a variant takes, which field it sets, and what it reads.
//! Where fields are under `cfg` attributes, the arms that the compiler keeps are those of the fields
//! that are enabled, so what is stated of fields holds of these.

use crate::code::{
    brace, given, lemma_word_len, lemma_word_len_is, lex, named, operator_pair, paren, splices,
    word_char, word_len, Token,
};
use crate::config::SetterMode;
use crate::fields::{FieldAttrsView, FieldDefView};
use crate::generate::{
    comment_code, get_arm, get_arms, get_code, get_config_code, set_arm, set_arms, set_code,
    setter_body, setter_code, with_config_code,
};
use crate::infer::{Formatter, Strategy};
use crate::meaning::lemma_plain_lex;
use crate::names::{ascii_digit, legal_punct, NameView};
use crate::tokens::{Delim, Joining};
use proc_macro2::Ident;
use vstd::prelude::*;

verus! {

// ---------------------------------------------------------------------------
// Values
// ---------------------------------------------------------------------------

/// A value that the generated code handles.
pub enum Held {
    /// `None`
    Nothing,
    /// `Some(value)`
    Just(Box<Held>),
    /// A `String`.
    Text(Seq<char>),
    /// `ConfigValue::Deferred(value)`
    Deferred(Box<Held>),
    /// Any other value.
    Other(int),
}

/// What the fields of a struct hold, by their names.
pub type State = Map<Seq<char>, Held>;

/// The functions that the generated code calls and that are defined elsewhere.
pub struct Outside {
    /// What a field holds after `parse`, from what it held and the argument.
    pub parse: spec_fn(Held, Held) -> Held,
    /// What `into` makes of a value that is no text.
    pub into: spec_fn(Held) -> Held,
    /// The text that `to_string` writes.
    pub to_string: spec_fn(Held) -> Seq<char>,
    /// The text that `fmt_duration` writes.
    pub fmt_duration: spec_fn(Held) -> Seq<char>,
    /// What a method of the struct gives, by the method's name.
    pub getter: spec_fn(Seq<char>, State) -> Held,
}

/// What `into` makes of a value: a text stays what it is.
pub open spec fn converted(value: Held, outside: Outside) -> Held {
    if value is Text {
        value
    } else {
        (outside.into)(value)
    }
}

/// What a method gives for a value.
pub open spec fn called(
    value: Held,
    method: Seq<char>,
    args: Seq<Token>,
    outside: Outside,
) -> Option<Held> {
    if method == "map"@ {
        let written = if args == lex("crate::config::fmt_duration"@) {
            Some(outside.fmt_duration)
        } else if args == lex("|v| v.to_string"@) + paren(Seq::empty()) {
            Some(outside.to_string)
        } else {
            None
        };
        match (value, written) {
            (Held::Nothing, Some(_)) => Some(Held::Nothing),
            (Held::Just(inner), Some(write)) => Some(
                Held::Just(Box::new(Held::Text(write(*inner)))),
            ),
            _ => None,
        }
    } else if args.len() > 0 {
        None
    } else if method == "clone"@ || method == "as_ref"@ {
        Some(value)
    } else if method == "into"@ {
        Some(converted(value, outside))
    } else if method == "to_string"@ {
        Some(Held::Text((outside.to_string)(value)))
    } else {
        None
    }
}

/// What an expression gives: `value` is what the variable of that name holds. `None` for an expression
/// that is not among those that are generated.
pub open spec fn evaluated(
    code: Seq<Token>,
    value: Option<Held>,
    state: State,
    outside: Outside,
) -> Option<Held>
    decreases code,
{
    let n = code.len() as int;
    if code == lex("value"@) {
        value
    } else if n == 3 && code.take(2) == lex("self."@) && code[2] is Name {
        state.get(code[2]->Name_0.text())
    } else if n == 4 && code.take(2) == lex("self."@) && code[2] is Name && code[3] == Token::Nest(
        Delim::Paren,
        Seq::empty(),
    ) {
        Some((outside.getter)(code[2]->Name_0.text(), state))
    } else if n > 0 {
        match code[n - 1] {
            Token::Nest(Delim::Paren, args) => if code.take(n - 1) == lex(
                "::std::option::Option::Some"@,
            ) {
                match evaluated(args, value, state, outside) {
                    Some(inner) => Some(Held::Just(Box::new(inner))),
                    None => None,
                }
            } else if code.take(n - 1) == lex("crate::config::ConfigValue::Deferred"@) {
                match evaluated(args, value, state, outside) {
                    Some(inner) => Some(Held::Deferred(Box::new(inner))),
                    None => None,
                }
            } else if n > 3 && code[n - 2] is Word && code[n - 3] == dot() {
                match evaluated(code.take(n - 3), value, state, outside) {
                    Some(receiver) => called(receiver, code[n - 2]->Word_0, args, outside),
                    None => None,
                }
            } else {
                None
            },
            _ => None,
        }
    } else {
        None
    }
}

/// What the fields hold after a statement: `self.field = expression;` or `self.field.parse(value);`.
/// `None` for a statement of another form.
pub open spec fn executed(
    code: Seq<Token>,
    value: Held,
    state: State,
    outside: Outside,
) -> Option<State> {
    let n = code.len() as int;
    if n > 4 && code.take(2) == lex("self."@) && code[2] is Name {
        let name = code[2]->Name_0.text();
        if code[3] == Token::Punct('=', Joining::Alone) && code[n - 1] == Token::Punct(
            ';',
            Joining::Alone,
        ) {
            match evaluated(code.subrange(4, n - 1), Some(value), state, outside) {
                Some(assigned) => Some(state.insert(name, assigned)),
                None => None,
            }
        } else if code.skip(3) == lex(".parse"@) + paren(lex("value"@)) + lex(";"@)
            && state.contains_key(name) {
            Some(state.insert(name, (outside.parse)(state[name], value)))
        } else {
            None
        }
    } else {
        None
    }
}

/// The dot before a field or a method.
pub open spec fn dot() -> Token {
    Token::Punct('.', Joining::Alone)
}

// ---------------------------------------------------------------------------
// Methods
// ---------------------------------------------------------------------------

/// The body of a method.
pub open spec fn method_body(method: Seq<Token>) -> Option<Seq<Token>> {
    if method.len() > 0 {
        match method.last() {
            Token::Nest(Delim::Brace, body) => Some(body),
            _ => None,
        }
    } else {
        None
    }
}

/// What stands between the first delimiters of a kind.
pub open spec fn first_nest(code: Seq<Token>, delim: Delim) -> Option<Seq<Token>>
    decreases code.len(),
{
    if code.len() == 0 {
        None
    } else {
        match code[0] {
            Token::Nest(d, inner) if d == delim => Some(inner),
            _ => first_nest(code.drop_first(), delim),
        }
    }
}

/// The arms of the `match` in a method.
pub open spec fn match_arms(method: Seq<Token>) -> Option<Seq<Token>> {
    match method_body(method) {
        Some(body) => first_nest(body, Delim::Brace),
        None => None,
    }
}

/// Whether code starts with an arrow.
pub open spec fn starts_with_arrow(code: Seq<Token>) -> bool {
    code.len() >= 2 && code.take(2) == lex("=>"@)
}

/// What stands behind the arrow of the first arm whose pattern ends in the variant.
pub open spec fn behind_arrow(arms: Seq<Token>, variant: Seq<char>) -> Option<Seq<Token>>
    decreases arms.len(),
{
    if arms.len() == 0 {
        None
    } else {
        match arms[0] {
            Token::Name(name) if name.text() == variant && starts_with_arrow(
                arms.drop_first(),
            ) => Some(arms.skip(3)),
            _ => behind_arrow(arms.drop_first(), variant),
        }
    }
}

/// What stands before the first comma.
pub open spec fn before_comma(code: Seq<Token>) -> Seq<Token>
    decreases code.len(),
{
    if code.len() == 0 || code[0] == Token::Punct(',', Joining::Alone) {
        Seq::empty()
    } else {
        seq![code[0]] + before_comma(code.drop_first())
    }
}

/// What the fields hold after a method that sets a field by its key, like the generated `with_config`,
/// was called with a variant and a value.
pub open spec fn set_by_key(
    method: Seq<Token>,
    variant: Seq<char>,
    value: Held,
    state: State,
    outside: Outside,
) -> Option<State> {
    match match_arms(method) {
        Some(arms) => match behind_arrow(arms, variant) {
            Some(code) => match first_nest(code.take(1), Delim::Brace) {
                Some(block) => executed(block, value, state, outside),
                None => None,
            },
            None => None,
        },
        None => None,
    }
}

/// What a method that reads a field by its key, like the generated `get_config_value`, gives for a
/// variant.
pub open spec fn read_by_key(
    method: Seq<Token>,
    variant: Seq<char>,
    state: State,
    outside: Outside,
) -> Option<Held> {
    match match_arms(method) {
        Some(arms) => match behind_arrow(arms, variant) {
            Some(code) => evaluated(before_comma(code), None, state, outside),
            None => None,
        },
        None => None,
    }
}

/// What the fields hold after a setter was called: its body is a statement and `self`.
pub open spec fn set_by_setter(
    method: Seq<Token>,
    value: Held,
    state: State,
    outside: Outside,
) -> Option<State> {
    match method_body(method) {
        Some(body) => if body.len() > 0 && body.last() == Token::Word("self"@) {
            executed(body.drop_last(), value, state, outside)
        } else {
            None
        },
        None => None,
    }
}

// ---------------------------------------------------------------------------
// The tokens of snippets
// ---------------------------------------------------------------------------

/// Whether a text is a word.
pub open spec fn is_word(text: Seq<char>) -> bool {
    &&& text.len() > 0
    &&& !ascii_digit(text[0])
    &&& forall|i: int| 0 <= i < text.len() ==> word_char(#[trigger] text[i])
}

/// A word that ends before what follows is one token.
pub proof fn lemma_lex_word(word: Seq<char>, rest: Seq<char>)
    requires
        is_word(word),
        rest.len() > 0 ==> !word_char(rest[0]),
    ensures
        lex(word + rest) == seq![Token::Word(word)] + lex(rest),
{
    let text = word + rest;
    assert forall|i: int| 0 <= i < word.len() implies word_char(#[trigger] text[i]) by {
        assert(text[i] == word[i]);
    }
    lemma_word_len_is(text, word.len() as int);
    assert(text[0] == word[0]);
    assert(text.take(word.len() as int) =~= word);
    assert(text.skip(word.len() as int) =~= rest);
}

/// A word is one token.
pub proof fn lemma_lex_only_word(word: Seq<char>)
    requires
        is_word(word),
    ensures
        lex(word) == seq![Token::Word(word)],
{
    lemma_lex_word(word, Seq::empty());
    assert(word + Seq::<char>::empty() =~= word);
}

/// A punctuation character that forms no operator is one token.
pub proof fn lemma_lex_punct(c: char, rest: Seq<char>)
    requires
        legal_punct(c),
        !operator_pair(seq![c] + rest),
    ensures
        lex(seq![c] + rest) == seq![Token::Punct(c, Joining::Alone)] + lex(rest),
{
    let text = seq![c] + rest;
    assert(text[0] == c);
    assert(text.drop_first() =~= rest);
}

/// A space is no token.
pub proof fn lemma_lex_space(rest: Seq<char>)
    ensures
        lex(seq![' '] + rest) == lex(rest),
{
    let text = seq![' '] + rest;
    assert(text[0] == ' ');
    assert(text.drop_first() =~= rest);
}

/// A dot and a word are two tokens.
proof fn lemma_lex_dot_word(word: Seq<char>)
    requires
        is_word(word),
    ensures
        lex(seq!['.'] + word) == seq![dot(), Token::Word(word)],
{
    lemma_lex_punct('.', word);
    lemma_lex_only_word(word);
}

pub proof fn lemma_lex_self()
    ensures
        lex("self."@) == seq![Token::Word("self"@), dot()],
        lex("self"@) == seq![Token::Word("self"@)],
        lex(";"@) == seq![Token::Punct(';', Joining::Alone)],
        lex("; self"@) == seq![Token::Punct(';', Joining::Alone), Token::Word("self"@)],
{
    reveal_strlit("self");
    reveal_strlit("self.");
    reveal_strlit(";");
    reveal_strlit("; self");
    lemma_lex_only_word("self"@);
    lemma_lex_word("self"@, seq!['.']);
    assert("self."@ =~= "self"@ + seq!['.']);
    lemma_lex_punct('.', Seq::empty());
    assert(seq!['.'] + Seq::<char>::empty() =~= seq!['.']);
    lemma_lex_punct(';', Seq::empty());
    assert(";"@ =~= seq![';'] + Seq::<char>::empty());
    lemma_lex_punct(';', seq![' '] + "self"@);
    lemma_lex_space("self"@);
    assert("; self"@ =~= seq![';'] + (seq![' '] + "self"@));
}

proof fn lemma_lex_value()
    ensures
        lex("value"@) == seq![Token::Word("value"@)],
        lex("value.into"@) == seq![Token::Word("value"@), dot(), Token::Word("into"@)],
        lex("= value.into"@) == seq![Token::Punct('=', Joining::Alone)] + lex("value.into"@),
{
    reveal_strlit("value");
    reveal_strlit("into");
    reveal_strlit("value.into");
    reveal_strlit("= value.into");
    lemma_lex_only_word("value"@);
    lemma_lex_dot_word("into"@);
    lemma_lex_word("value"@, seq!['.'] + "into"@);
    assert("value.into"@ =~= "value"@ + (seq!['.'] + "into"@));
    lemma_lex_punct('=', seq![' '] + "value.into"@);
    lemma_lex_space("value.into"@);
    assert("= value.into"@ =~= seq!['='] + (seq![' '] + "value.into"@));
}

proof fn lemma_lex_methods()
    ensures
        lex(".clone"@) == seq![dot(), Token::Word("clone"@)],
        lex(".as_ref"@) == seq![dot(), Token::Word("as_ref"@)],
        lex(".to_string"@) == seq![dot(), Token::Word("to_string"@)],
        lex(".map"@) == seq![dot(), Token::Word("map"@)],
        lex(".parse"@) == seq![dot(), Token::Word("parse"@)],
{
    reveal_strlit("clone");
    reveal_strlit("as_ref");
    reveal_strlit("to_string");
    reveal_strlit("map");
    reveal_strlit("parse");
    reveal_strlit(".clone");
    reveal_strlit(".as_ref");
    reveal_strlit(".to_string");
    reveal_strlit(".map");
    reveal_strlit(".parse");
    lemma_lex_dot_word("clone"@);
    lemma_lex_dot_word("as_ref"@);
    lemma_lex_dot_word("to_string"@);
    lemma_lex_dot_word("map"@);
    lemma_lex_dot_word("parse"@);
    assert(".clone"@ =~= seq!['.'] + "clone"@);
    assert(".as_ref"@ =~= seq!['.'] + "as_ref"@);
    assert(".to_string"@ =~= seq!['.'] + "to_string"@);
    assert(".map"@ =~= seq!['.'] + "map"@);
    assert(".parse"@ =~= seq!['.'] + "parse"@);
}

pub proof fn lemma_lex_marks()
    ensures
        lex(","@) == seq![Token::Punct(',', Joining::Alone)],
        lex("=>"@) == seq![Token::Punct('=', Joining::Joined), Token::Punct('>', Joining::Alone)],
        lex("::"@).len() > 0,
        lex("::"@)[0] == Token::Punct(':', Joining::Joined),
{
    reveal_strlit(",");
    reveal_strlit("=>");
    reveal_strlit("::");
    lemma_lex_punct(',', Seq::empty());
    assert(","@ =~= seq![','] + Seq::<char>::empty());
    lemma_lex_punct('>', Seq::empty());
    assert("=>"@.drop_first() =~= seq!['>'] + Seq::<char>::empty());
    assert(lex("=>"@) =~= seq![Token::Punct('=', Joining::Joined)] + lex("=>"@.drop_first()));
}

/// How the paths start that the generated code calls.
proof fn lemma_lex_paths()
    ensures
        lex("= ::std::option::Option::Some"@) == seq![Token::Punct('=', Joining::Alone)] + lex(
            "::std::option::Option::Some"@,
        ),
        lex("::std::option::Option::Some"@).len() > 0,
        lex("::std::option::Option::Some"@)[0] == Token::Punct(':', Joining::Joined),
        lex("crate::config::ConfigValue::Deferred"@).len() > 0,
        lex("crate::config::ConfigValue::Deferred"@)[0] == Token::Word("crate"@),
{
    reveal_strlit("= ::std::option::Option::Some");
    reveal_strlit("::std::option::Option::Some");
    reveal_strlit("crate::config::ConfigValue::Deferred");
    reveal_strlit("crate");
    let some = "::std::option::Option::Some"@;
    lemma_lex_punct('=', seq![' '] + some);
    lemma_lex_space(some);
    assert("= ::std::option::Option::Some"@ =~= seq!['='] + (seq![' '] + some));
    let deferred = "crate::config::ConfigValue::Deferred"@;
    lemma_lex_word("crate"@, deferred.skip(5));
    assert(deferred =~= "crate"@ + deferred.skip(5));
}

/// Only characters of a snippet are among its tokens.
pub proof fn lemma_lex_without(text: Seq<char>, c: char)
    requires
        forall|i: int| 0 <= i < text.len() ==> #[trigger] text[i] != c,
    ensures
        without(lex(text), c),
    decreases text.len(),
{
    if text.len() > 0 {
        lemma_word_len(text);
        let n = if word_char(text[0]) && !ascii_digit(text[0]) {
            word_len(text) as int
        } else {
            1
        };
        let rest = text.skip(n);
        assert(text.skip(1) =~= text.drop_first());
        assert forall|i: int| 0 <= i < rest.len() implies #[trigger] rest[i] != c by {
            assert(rest[i] == text[i + n]);
        }
        lemma_lex_without(rest, c);
    }
}

/// Whether a punctuation character is not among the tokens of code, delimited ones left aside.
pub open spec fn without(code: Seq<Token>, c: char) -> bool {
    forall|i: int| 0 <= i < code.len() ==> match #[trigger] code[i] {
        Token::Punct(d, _) => d != c,
        _ => true,
    }
}

// ---------------------------------------------------------------------------
// Expressions and statements
// ---------------------------------------------------------------------------

/// A method that is called on `self.field` or `value`, or on what a method gave for these, gets what
/// stands before it.
proof fn lemma_call(
    receiver: Seq<Token>,
    method: Seq<char>,
    args: Seq<Token>,
    value: Option<Held>,
    state: State,
    outside: Outside,
)
    requires
        receiver.len() > 0,
        receiver[0] == Token::Word("self"@) || receiver[0] == Token::Word("value"@),
    ensures
        evaluated(
            receiver + seq![dot(), Token::Word(method)] + paren(args),
            value,
            state,
            outside,
        ) == match evaluated(receiver, value, state, outside) {
            Some(held) => called(held, method, args, outside),
            None => None,
        },
{
    let code = receiver + seq![dot(), Token::Word(method)] + paren(args);
    let n = code.len() as int;
    lemma_lex_value();
    lemma_lex_paths();
    reveal_strlit("self");
    reveal_strlit("value");
    reveal_strlit("crate");
    assert("self"@.len() != "crate"@.len());
    assert("value"@[0] != "crate"@[0]);
    assert(code.take(n - 1)[0] == receiver[0]);
    assert(code.take(n - 3) =~= receiver);
    assert(code[n - 1] == Token::Nest(Delim::Paren, args));
    assert(code[n - 2] == Token::Word(method));
    assert(code[n - 3] == dot());
}

proof fn lemma_names_of_methods()
    ensures
        "into"@ != "map"@,
        "into"@ != "clone"@,
        "into"@ != "as_ref"@,
        "clone"@ != "map"@,
        "as_ref"@ != "map"@,
        "to_string"@ != "map"@,
        "to_string"@ != "clone"@,
        "to_string"@ != "as_ref"@,
        "to_string"@ != "into"@,
{
    reveal_strlit("into");
    reveal_strlit("map");
    reveal_strlit("clone");
    reveal_strlit("as_ref");
    reveal_strlit("to_string");
    assert("into"@.len() == 4);
    assert("map"@.len() == 3);
    assert("clone"@.len() == 5);
    assert("as_ref"@.len() == 6);
    assert("to_string"@.len() == 9);
}

proof fn lemma_converted(value: Held, state: State, outside: Outside)
    ensures
        evaluated(lex("value.into"@) + paren(Seq::empty()), Some(value), state, outside) == Some(
            converted(value, outside),
        ),
{
    lemma_lex_value();
    lemma_names_of_methods();
    lemma_call(lex("value"@), "into"@, Seq::empty(), Some(value), state, outside);
    assert(lex("value.into"@) =~= lex("value"@) + seq![dot(), Token::Word("into"@)]);
}

/// A call of `Some` or `Deferred` gives what it is called with.
proof fn lemma_wrapped(args: Seq<Token>, value: Option<Held>, state: State, outside: Outside)
    ensures
        evaluated(lex("::std::option::Option::Some"@) + paren(args), value, state, outside)
            == match evaluated(args, value, state, outside) {
            Some(inner) => Some(Held::Just(Box::new(inner))),
            None => None,
        },
        evaluated(lex("crate::config::ConfigValue::Deferred"@) + paren(args), value, state, outside)
            == match evaluated(args, value, state, outside) {
            Some(inner) => Some(Held::Deferred(Box::new(inner))),
            None => None,
        },
{
    lemma_lex_value();
    lemma_lex_self();
    lemma_lex_paths();
    reveal_strlit("self");
    reveal_strlit("crate");
    assert("self"@.len() != "crate"@.len());
    let some = lex("::std::option::Option::Some"@);
    let deferred = lex("crate::config::ConfigValue::Deferred"@);
    let a = some + paren(args);
    let b = deferred + paren(args);
    assert(a[0] == some[0] && b[0] == deferred[0]);
    assert(a.take(a.len() - 1) =~= some);
    assert(b.take(b.len() - 1) =~= deferred);
    assert(a.len() >= 2 && b.len() >= 2);
    assert(a.take(2)[0] == some[0]);
    assert(b.take(2)[0] == deferred[0]);
}

/// `self.field` gives what the field holds.
proof fn lemma_field(field: Ident, value: Option<Held>, state: State, outside: Outside)
    ensures
        evaluated(lex("self."@) + given(field), value, state, outside) == state.get(
            NameView::Given(field).text(),
        ),
        lex("self."@) + given(field) == seq![
            Token::Word("self"@),
            dot(),
            Token::Name(NameView::Given(field)),
        ],
{
    lemma_lex_self();
    lemma_lex_value();
    let code = lex("self."@) + given(field);
    assert(code =~= seq![Token::Word("self"@), dot(), Token::Name(NameView::Given(field))]);
    assert(code.take(2) =~= lex("self."@));
}

/// What a field holds after it was set by its key.
pub open spec fn stored(
    strategy: Strategy,
    name: Seq<char>,
    value: Held,
    state: State,
    outside: Outside,
) -> Option<Held> {
    match strategy {
        Strategy::OptionString => Some(Held::Just(Box::new(converted(value, outside)))),
        Strategy::OptionConfigValueDeferred => Some(
            Held::Just(Box::new(Held::Deferred(Box::new(converted(value, outside))))),
        ),
        Strategy::ConfigValue => match state.get(name) {
            Some(held) => Some((outside.parse)(held, value)),
            None => None,
        },
    }
}

/// What is read of a field that holds a value.
pub open spec fn shown(attrs: FieldAttrsView, held: Held, outside: Outside) -> Option<Held> {
    match attrs.strategy {
        Strategy::OptionString => Some(held),
        Strategy::ConfigValue => Some(Held::Just(Box::new(Held::Text((outside.to_string)(held))))),
        Strategy::OptionConfigValueDeferred => match held {
            Held::Nothing => Some(Held::Nothing),
            Held::Just(inner) => Some(
                Held::Just(
                    Box::new(
                        Held::Text(
                            match attrs.formatter {
                                Formatter::Duration => (outside.fmt_duration)(*inner),
                                Formatter::ToString => (outside.to_string)(*inner),
                            },
                        ),
                    ),
                ),
            ),
            _ => None,
        },
    }
}

/// An assignment to a field.
proof fn lemma_assigned(
    field: Ident,
    expression: Seq<Token>,
    value: Held,
    state: State,
    outside: Outside,
)
    ensures
        executed(
            lex("self."@) + given(field) + (seq![Token::Punct('=', Joining::Alone)] + expression)
                + lex(";"@),
            value,
            state,
            outside,
        ) == match evaluated(expression, Some(value), state, outside) {
            Some(held) => Some(state.insert(NameView::Given(field).text(), held)),
            None => None,
        },
{
    lemma_lex_self();
    lemma_lex_value();
    let code = lex("self."@) + given(field) + (seq![Token::Punct('=', Joining::Alone)] + expression)
        + lex(";"@);
    let n = code.len() as int;
    assert(code.take(2) =~= lex("self."@));
    assert(code[2] == Token::Name(NameView::Given(field)));
    assert(code[3] == Token::Punct('=', Joining::Alone));
    assert(code[n - 1] == Token::Punct(';', Joining::Alone));
    assert(code.subrange(4, n - 1) =~= expression);
}

/// What the statement does that sets a field by its key.
proof fn lemma_set(field: Ident, strategy: Strategy, value: Held, state: State, outside: Outside)
    ensures
        executed(set_code(field, strategy), value, state, outside) == match stored(
            strategy,
            NameView::Given(field).text(),
            value,
            state,
            outside,
        ) {
            Some(held) => Some(state.insert(NameView::Given(field).text(), held)),
            None => None,
        },
{
    let set = set_code(field, strategy);
    let start = lex("self."@) + given(field);
    let text = lex("value.into"@) + paren(Seq::empty());
    let some = lex("::std::option::Option::Some"@);
    lemma_lex_self();
    lemma_lex_value();
    lemma_lex_paths();
    lemma_lex_methods();
    lemma_converted(value, state, outside);
    match strategy {
        Strategy::OptionString => {
            lemma_wrapped(text, Some(value), state, outside);
            lemma_assigned(field, some + paren(text), value, state, outside);
            assert(set =~= start + (seq![Token::Punct('=', Joining::Alone)] + (some + paren(text)))
                + lex(";"@));
        },
        Strategy::OptionConfigValueDeferred => {
            let deferred = lex("crate::config::ConfigValue::Deferred"@) + paren(text);
            lemma_wrapped(text, Some(value), state, outside);
            lemma_wrapped(deferred, Some(value), state, outside);
            lemma_assigned(field, some + paren(deferred), value, state, outside);
            assert(set =~= start + (seq![Token::Punct('=', Joining::Alone)] + (some + paren(
                deferred,
            ))) + lex(";"@));
        },
        Strategy::ConfigValue => {
            assert(set.take(2) =~= lex("self."@));
            assert(set[2] == Token::Name(NameView::Given(field)));
            assert(set[3] == dot());
            assert(set.skip(3) =~= lex(".parse"@) + paren(lex("value"@)) + lex(";"@));
        },
    }
}

/// What the expression gives that reads a field by its key.
proof fn lemma_get(field: Ident, attrs: FieldAttrsView, state: State, outside: Outside)
    ensures
        evaluated(get_code(field, attrs), None, state, outside) == match attrs.get_via {
            Some(getter) => Some((outside.getter)(NameView::Given(getter).text(), state)),
            None => match state.get(NameView::Given(field).text()) {
                Some(held) => shown(attrs, held, outside),
                None => None,
            },
        },
{
    let get = get_code(field, attrs);
    let start = lex("self."@) + given(field);
    let none = Seq::<Token>::empty();
    lemma_lex_self();
    lemma_lex_value();
    lemma_lex_methods();
    lemma_names_of_methods();
    lemma_field(field, None, state, outside);
    match attrs.get_via {
        Some(getter) => {
            lemma_field(getter, None, state, outside);
            assert(get.take(2) =~= lex("self."@));
            assert(get[2] == Token::Name(NameView::Given(getter)));
            assert(get[3] == Token::Nest(Delim::Paren, none));
        },
        None => match attrs.strategy {
            Strategy::OptionString => {
                lemma_call(start, "clone"@, none, None, state, outside);
            },
            Strategy::ConfigValue => {
                let inner = start + lex(".to_string"@) + paren(none);
                lemma_call(start, "to_string"@, none, None, state, outside);
                lemma_wrapped(inner, None, state, outside);
            },
            Strategy::OptionConfigValueDeferred => {
                let duration = lex("crate::config::fmt_duration"@);
                let closure = lex("|v| v.to_string"@) + paren(none);
                let borrowed = start + lex(".as_ref"@) + paren(none);
                lemma_call(start, "as_ref"@, none, None, state, outside);
                assert(borrowed[0] == start[0]);
                match attrs.formatter {
                    Formatter::Duration => {
                        lemma_call(borrowed, "map"@, duration, None, state, outside);
                    },
                    Formatter::ToString => {
                        lemma_call(borrowed, "map"@, closure, None, state, outside);
                        lemma_closure();
                    },
                }
            },
        },
    }
}

/// The two functions that are handed to `map` are not the same.
proof fn lemma_closure()
    ensures
        lex("|v| v.to_string"@) + paren(Seq::empty()) != lex("crate::config::fmt_duration"@),
{
    let closure = lex("|v| v.to_string"@) + paren(Seq::empty());
    let duration = lex("crate::config::fmt_duration"@);
    lemma_plain_lex("crate::config::fmt_duration"@);
    if closure == duration {
        assert(closure[closure.len() - 1] is Nest);
        assert(duration[duration.len() - 1] is Nest);
    }
}

// ---------------------------------------------------------------------------
// Arms
// ---------------------------------------------------------------------------

/// Code without a name on its own is no pattern.
proof fn lemma_no_pattern(a: Seq<Token>, b: Seq<Token>, variant: Seq<char>)
    requires
        forall|i: int| 0 <= i < a.len() ==> !(#[trigger] a[i] is Name),
    ensures
        behind_arrow(a + b, variant) == behind_arrow(b, variant),
    decreases a.len(),
{
    if a.len() == 0 {
        assert(a + b =~= b);
    } else {
        let rest = a.drop_first();
        assert((a + b)[0] == a[0]);
        assert((a + b).drop_first() =~= rest + b);
        assert(forall|i: int| 0 <= i < rest.len() ==> rest[i] == a[i + 1]);
        lemma_no_pattern(rest, b, variant);
    }
}

/// A name without an arrow behind it is no pattern.
proof fn lemma_no_arrow(name: NameView, b: Seq<Token>, variant: Seq<char>)
    requires
        b.len() > 0,
        b[0] != Token::Punct('=', Joining::Joined),
    ensures
        behind_arrow(named(name) + b, variant) == behind_arrow(b, variant),
{
    let code = named(name) + b;
    lemma_lex_marks();
    assert(code[0] == Token::Name(name));
    assert(code.drop_first() =~= b);
    if b.len() >= 2 {
        assert(b.take(2)[0] == b[0]);
    }
}

/// A name with an arrow behind it is the pattern of the variant of that name.
proof fn lemma_arrow(name: NameView, b: Seq<Token>, variant: Seq<char>)
    ensures
        behind_arrow(named(name) + lex("=>"@) + b, variant) == if name.text() == variant {
            Some(b)
        } else {
            behind_arrow(b, variant)
        },
{
    let arrow = lex("=>"@);
    let code = named(name) + arrow + b;
    lemma_lex_marks();
    assert(code[0] == Token::Name(name));
    assert(code.drop_first() =~= arrow + b);
    assert((arrow + b).take(2) =~= arrow);
    assert(code.skip(3) =~= b);
    lemma_no_pattern(arrow, b, variant);
}

/// The pattern of an arm, `Key::Variant =>`, is that of its variant.
proof fn lemma_pattern(config_key: Ident, attrs: FieldAttrsView, b: Seq<Token>, variant: Seq<char>)
    ensures
        behind_arrow(
            splices(attrs.cfg_attrs) + given(config_key) + lex("::"@) + named(attrs.variant) + lex(
                "=>"@,
            ) + b,
            variant,
        ) == if attrs.variant.text() == variant {
            Some(b)
        } else {
            behind_arrow(b, variant)
        },
{
    let cfgs = splices(attrs.cfg_attrs);
    let colons = lex("::"@);
    let tail = named(attrs.variant) + lex("=>"@) + b;
    assert(cfgs + given(config_key) + colons + named(attrs.variant) + lex("=>"@) + b =~= cfgs + (
    given(config_key) + (colons + tail)));
    lemma_lex_marks();
    lemma_plain_lex("::"@);
    lemma_no_pattern(cfgs, given(config_key) + (colons + tail), variant);
    assert((colons + tail)[0] == colons[0]);
    lemma_no_arrow(NameView::Given(config_key), colons + tail, variant);
    lemma_no_pattern(colons, tail, variant);
    lemma_arrow(attrs.variant, b, variant);
}

/// An arm that sets a field is taken by its own variant alone.
proof fn lemma_set_arm(config_key: Ident, field: FieldDefView, b: Seq<Token>, variant: Seq<char>)
    ensures
        behind_arrow(set_arm(config_key, field) + b, variant) == if field.attrs.variant.text()
            == variant {
            Some(brace(set_code(field.field_ident, field.attrs.strategy)) + b)
        } else {
            behind_arrow(b, variant)
        },
{
    let block = brace(set_code(field.field_ident, field.attrs.strategy));
    lemma_pattern(config_key, field.attrs, block + b, variant);
    assert(set_arm(config_key, field) + b =~= splices(field.attrs.cfg_attrs) + given(config_key)
        + lex("::"@) + named(field.attrs.variant) + lex("=>"@) + (block + b));
    lemma_no_pattern(block, b, variant);
}

/// An expression that reads a field holds no pattern and no comma.
pub proof fn lemma_get_code(field: Ident, attrs: FieldAttrsView, b: Seq<Token>, variant: Seq<char>)
    requires
        b.len() > 0,
        b[0] == Token::Punct(',', Joining::Alone),
    ensures
        behind_arrow(get_code(field, attrs) + b, variant) == behind_arrow(b, variant),
        without(get_code(field, attrs), ','),
{
    let get = get_code(field, attrs);
    lemma_lex_self();
    lemma_lex_methods();
    if attrs.get_via is None && attrs.strategy == Strategy::ConfigValue {
        lemma_plain_lex("::std::option::Option::Some"@);
        lemma_no_pattern(get, b, variant);
        reveal_strlit("::std::option::Option::Some");
        lemma_lex_without("::std::option::Option::Some"@, ',');
    } else {
        let name = get[2]->Name_0;
        let rest = get.skip(3);
        assert(get =~= lex("self."@) + named(name) + rest);
        assert(get + b =~= lex("self."@) + (named(name) + (rest + b)));
        assert forall|i: int| 0 <= i < rest.len() implies !(#[trigger] rest[i] is Name) by {
            assert(rest[i] == get[i + 3]);
        }
        lemma_no_pattern(lex("self."@), named(name) + (rest + b), variant);
        lemma_no_arrow(name, rest + b, variant);
        lemma_no_pattern(rest, b, variant);
    }
}

/// An arm that reads a field is taken by its own variant alone.
proof fn lemma_get_arm(config_key: Ident, field: FieldDefView, b: Seq<Token>, variant: Seq<char>)
    ensures
        behind_arrow(get_arm(config_key, field) + b, variant) == if field.attrs.variant.text()
            == variant {
            Some(get_code(field.field_ident, field.attrs) + (lex(","@) + b))
        } else {
            behind_arrow(b, variant)
        },
{
    let get = get_code(field.field_ident, field.attrs);
    let tail = get + (lex(","@) + b);
    lemma_lex_marks();
    lemma_pattern(config_key, field.attrs, tail, variant);
    assert(get_arm(config_key, field) + b =~= splices(field.attrs.cfg_attrs) + given(config_key)
        + lex("::"@) + named(field.attrs.variant) + lex("=>"@) + tail);
    lemma_get_code(field.field_ident, field.attrs, lex(","@) + b, variant);
    lemma_no_pattern(lex(","@), b, variant);
}

/// What stands before a comma.
pub proof fn lemma_before_comma(a: Seq<Token>, b: Seq<Token>)
    requires
        without(a, ','),
    ensures
        before_comma(a + (lex(","@) + b)) == a,
    decreases a.len(),
{
    let code = a + (lex(","@) + b);
    lemma_lex_marks();
    if a.len() == 0 {
        assert(code[0] == Token::Punct(',', Joining::Alone));
        assert(before_comma(code) =~= a);
    } else {
        let rest = a.drop_first();
        assert(code[0] == a[0]);
        assert(code.drop_first() =~= rest + (lex(","@) + b));
        assert(forall|i: int| 0 <= i < rest.len() ==> rest[i] == a[i + 1]);
        lemma_before_comma(rest, b);
        assert(seq![a[0]] + rest =~= a);
    }
}

/// Whether no field before one has the same variant.
pub open spec fn first_of_its_variant(fields: Seq<FieldDefView>, i: int) -> bool {
    &&& 0 <= i < fields.len()
    &&& forall|k: int|
        0 <= k < i ==> (#[trigger] fields[k]).attrs.variant.text() != fields[i].attrs.variant.text()
}

/// The arm that sets a field is the one that its variant takes.
proof fn lemma_set_arms(config_key: Ident, fields: Seq<FieldDefView>, b: Seq<Token>, i: int)
    requires
        first_of_its_variant(fields, i),
    ensures
        ({
            let field = fields[i];
            let behind = behind_arrow(set_arms(config_key, fields) + b, field.attrs.variant.text());
            behind is Some && behind.unwrap().len() > 0 && behind.unwrap()[0] == Token::Nest(
                Delim::Brace,
                set_code(field.field_ident, field.attrs.strategy),
            )
        }),
    decreases fields.len(),
{
    let first = fields.drop_last();
    let arm = set_arm(config_key, fields.last());
    assert(set_arms(config_key, fields) + b =~= set_arms(config_key, first) + (arm + b));
    if i < first.len() {
        assert(first[i] == fields[i]);
        assert(forall|k: int| 0 <= k < i ==> first[k] == fields[k]);
        lemma_set_arms(config_key, first, arm + b, i);
    } else {
        let variant = fields[i].attrs.variant.text();
        assert(forall|k: int| 0 <= k < first.len() ==> first[k] == fields[k]);
        lemma_other_set_arms(config_key, first, arm + b, variant);
        lemma_set_arm(config_key, fields.last(), b, variant);
    }
}

/// The arms of other variants are not taken.
proof fn lemma_other_set_arms(
    config_key: Ident,
    fields: Seq<FieldDefView>,
    b: Seq<Token>,
    variant: Seq<char>,
)
    requires
        forall|k: int| 0 <= k < fields.len() ==> (#[trigger] fields[k]).attrs.variant.text() != variant,
    ensures
        behind_arrow(set_arms(config_key, fields) + b, variant) == behind_arrow(b, variant),
    decreases fields.len(),
{
    if fields.len() == 0 {
        assert(set_arms(config_key, fields) + b =~= b);
    } else {
        let first = fields.drop_last();
        let arm = set_arm(config_key, fields.last());
        assert(set_arms(config_key, fields) + b =~= set_arms(config_key, first) + (arm + b));
        assert(forall|k: int| 0 <= k < first.len() ==> first[k] == fields[k]);
        assert(fields[fields.len() - 1] == fields.last());
        lemma_other_set_arms(config_key, first, arm + b, variant);
        lemma_set_arm(config_key, fields.last(), b, variant);
    }
}

/// The arm that reads a field is the one that its variant takes.
proof fn lemma_get_arms(config_key: Ident, fields: Seq<FieldDefView>, b: Seq<Token>, i: int)
    requires
        first_of_its_variant(fields, i),
    ensures
        ({
            let field = fields[i];
            let behind = behind_arrow(get_arms(config_key, fields) + b, field.attrs.variant.text());
            behind is Some && before_comma(behind.unwrap()) == get_code(
                field.field_ident,
                field.attrs,
            )
        }),
    decreases fields.len(),
{
    let first = fields.drop_last();
    let arm = get_arm(config_key, fields.last());
    assert(get_arms(config_key, fields) + b =~= get_arms(config_key, first) + (arm + b));
    if i < first.len() {
        assert(first[i] == fields[i]);
        assert(forall|k: int| 0 <= k < i ==> first[k] == fields[k]);
        lemma_get_arms(config_key, first, arm + b, i);
    } else {
        let field = fields[i];
        let variant = field.attrs.variant.text();
        assert(forall|k: int| 0 <= k < first.len() ==> first[k] == fields[k]);
        lemma_other_get_arms(config_key, first, arm + b, variant);
        lemma_get_arm(config_key, field, b, variant);
        lemma_lex_marks();
        lemma_get_code(field.field_ident, field.attrs, lex(","@), variant);
        lemma_before_comma(get_code(field.field_ident, field.attrs), b);
    }
}

/// The arms of other variants are not taken.
proof fn lemma_other_get_arms(
    config_key: Ident,
    fields: Seq<FieldDefView>,
    b: Seq<Token>,
    variant: Seq<char>,
)
    requires
        forall|k: int| 0 <= k < fields.len() ==> (#[trigger] fields[k]).attrs.variant.text() != variant,
    ensures
        behind_arrow(get_arms(config_key, fields) + b, variant) == behind_arrow(b, variant),
    decreases fields.len(),
{
    if fields.len() == 0 {
        assert(get_arms(config_key, fields) + b =~= b);
    } else {
        let first = fields.drop_last();
        let arm = get_arm(config_key, fields.last());
        assert(get_arms(config_key, fields) + b =~= get_arms(config_key, first) + (arm + b));
        assert(forall|k: int| 0 <= k < first.len() ==> first[k] == fields[k]);
        assert(fields[fields.len() - 1] == fields.last());
        lemma_other_get_arms(config_key, first, arm + b, variant);
        lemma_get_arm(config_key, fields.last(), b, variant);
    }
}

// ---------------------------------------------------------------------------
// The generated methods
// ---------------------------------------------------------------------------

/// Code without delimiters of a kind is passed over.
proof fn lemma_no_nest(a: Seq<Token>, b: Seq<Token>, delim: Delim)
    requires
        forall|i: int| 0 <= i < a.len() ==> match #[trigger] a[i] {
            Token::Nest(d, _) => d != delim,
            _ => true,
        },
    ensures
        first_nest(a + b, delim) == first_nest(b, delim),
    decreases a.len(),
{
    if a.len() == 0 {
        assert(a + b =~= b);
    } else {
        let rest = a.drop_first();
        assert((a + b)[0] == a[0]);
        assert((a + b).drop_first() =~= rest + b);
        assert(forall|i: int| 0 <= i < rest.len() ==> rest[i] == a[i + 1]);
        lemma_no_nest(rest, b, delim);
    }
}

/// The generated methods choose among the arms that are generated for the fields.
pub proof fn law_methods_hold_the_arms(config_key: Ident, fields: Seq<FieldDefView>)
    ensures
        match_arms(with_config_code(config_key, fields)) == Some(set_arms(config_key, fields)),
        match_arms(get_config_code(config_key, fields)) == Some(get_arms(config_key, fields)),
{
    let start = lex("let value: ::std::string::String = value.into"@) + paren(Seq::empty()) + lex(
        "; match key"@,
    );
    let set = brace(set_arms(config_key, fields)) + lex("self"@);
    lemma_plain_lex("let value: ::std::string::String = value.into"@);
    lemma_plain_lex("; match key"@);
    lemma_no_nest(start, set, Delim::Brace);
    assert(set[0] == Token::Nest(Delim::Brace, set_arms(config_key, fields)));
    let with_body = start + brace(set_arms(config_key, fields)) + lex("self"@);
    assert(with_body =~= start + set);
    assert(method_body(with_config_code(config_key, fields)) == Some(with_body));
    let get = brace(get_arms(config_key, fields));
    lemma_plain_lex("match key"@);
    lemma_no_nest(lex("match key"@), get, Delim::Brace);
    assert(get[0] == Token::Nest(Delim::Brace, get_arms(config_key, fields)));
    assert(method_body(get_config_code(config_key, fields)) == Some(lex("match key"@) + get));
}

/// The generated `with_config` takes the arm of the variant: it stores in the field of the variant what
/// the field's strategy makes of the value, and leaves every other field as it is.
pub proof fn law_with_config_sets_the_field(
    config_key: Ident,
    fields: Seq<FieldDefView>,
    i: int,
    value: Held,
    state: State,
    outside: Outside,
)
    requires
        first_of_its_variant(fields, i),
    ensures
        ({
            let field = fields[i];
            let name = NameView::Given(field.field_ident).text();
            set_by_key(
                with_config_code(config_key, fields),
                field.attrs.variant.text(),
                value,
                state,
                outside,
            ) == match stored(field.attrs.strategy, name, value, state, outside) {
                Some(held) => Some(state.insert(name, held)),
                None => None,
            }
        }),
{
    let field = fields[i];
    let arms = set_arms(config_key, fields);
    let none = Seq::<Token>::empty();
    law_methods_hold_the_arms(config_key, fields);
    lemma_set_arms(config_key, fields, none, i);
    assert(arms + none =~= arms);
    let behind = behind_arrow(arms, field.attrs.variant.text()).unwrap();
    assert(behind.take(1)[0] == behind[0]);
    lemma_set(field.field_ident, field.attrs.strategy, value, state, outside);
}

/// The generated `get_config_value` takes the arm of the variant: it gives what the field of the
/// variant holds, as the field's strategy and formatter write it, or what the given getter gives.
pub proof fn law_get_config_value_reads_the_field(
    config_key: Ident,
    fields: Seq<FieldDefView>,
    i: int,
    state: State,
    outside: Outside,
)
    requires
        first_of_its_variant(fields, i),
    ensures
        ({
            let field = fields[i];
            read_by_key(
                get_config_code(config_key, fields),
                field.attrs.variant.text(),
                state,
                outside,
            ) == match field.attrs.get_via {
                Some(getter) => Some((outside.getter)(NameView::Given(getter).text(), state)),
                None => match state.get(NameView::Given(field.field_ident).text()) {
                    Some(held) => shown(field.attrs, held, outside),
                    None => None,
                },
            }
        }),
{
    let field = fields[i];
    let arms = get_arms(config_key, fields);
    let none = Seq::<Token>::empty();
    law_methods_hold_the_arms(config_key, fields);
    lemma_get_arms(config_key, fields, none, i);
    assert(arms + none =~= arms);
    lemma_get(field.field_ident, field.attrs, state, outside);
}

/// The generated `get_config_value` takes `&self`, so it changes no field.
pub proof fn law_get_config_value_borrows(config_key: Ident, fields: Seq<FieldDefView>)
    ensures
        first_nest(get_config_code(config_key, fields), Delim::Paren) matches Some(parameters)
            && parameters.len() >= 2 && parameters[0] == Token::Punct('&', Joining::Alone)
            && parameters[1] == Token::Word("self"@),
{
    let receiver = lex("&self, key: &"@);
    let parameters = receiver + given(config_key);
    let start = comment_code(" Get a config value by key."@) + lex("pub fn get_config_value"@);
    lemma_plain_lex("#"@);
    lemma_plain_lex("pub fn get_config_value"@);
    let rest = get_config_code(config_key, fields).skip(start.len() as int);
    assert(get_config_code(config_key, fields) =~= start + rest);
    assert(rest[0] == Token::Nest(Delim::Paren, parameters));
    lemma_no_nest(start, rest, Delim::Paren);
    reveal_strlit("&self, key: &");
    reveal_strlit("self");
    let text = "&self, key: &"@;
    lemma_lex_punct('&', text.skip(1));
    assert(text =~= seq!['&'] + text.skip(1));
    lemma_lex_word("self"@, text.skip(5));
    assert(text.skip(1) =~= "self"@ + text.skip(5));
}

/// A field that is set by its key changes no other field of the struct, be it one with a variant or
/// not.
pub proof fn law_other_fields_stay(
    config_key: Ident,
    fields: Seq<FieldDefView>,
    i: int,
    value: Held,
    state: State,
    outside: Outside,
    other: Seq<char>,
)
    requires
        first_of_its_variant(fields, i),
        other != NameView::Given(fields[i].field_ident).text(),
    ensures
        set_by_key(
            with_config_code(config_key, fields),
            fields[i].attrs.variant.text(),
            value,
            state,
            outside,
        ) matches Some(after) ==> after.get(other) == state.get(other),
{
    law_with_config_sets_the_field(config_key, fields, i, value, state, outside);
}

/// What is read by a key depends on no other field of the struct, unless a getter is given.
pub proof fn law_other_fields_are_not_read(
    config_key: Ident,
    fields: Seq<FieldDefView>,
    i: int,
    a: State,
    b: State,
    outside: Outside,
)
    requires
        first_of_its_variant(fields, i),
        fields[i].attrs.get_via is None,
        a.get(NameView::Given(fields[i].field_ident).text()) == b.get(
            NameView::Given(fields[i].field_ident).text(),
        ),
    ensures
        ({
            let method = get_config_code(config_key, fields);
            let variant = fields[i].attrs.variant.text();
            read_by_key(method, variant, a, outside) == read_by_key(method, variant, b, outside)
        }),
{
    law_get_config_value_reads_the_field(config_key, fields, i, a, outside);
    law_get_config_value_reads_the_field(config_key, fields, i, b, outside);
}

/// What is read by a key behind a write by the key is what the write stored, as the field's strategy
/// and formatter write it. For a field that keeps the text itself it is the text that was written.
pub proof fn law_reads_give_back_writes(
    config_key: Ident,
    fields: Seq<FieldDefView>,
    i: int,
    value: Held,
    state: State,
    outside: Outside,
)
    requires
        first_of_its_variant(fields, i),
        fields[i].attrs.get_via is None,
    ensures
        ({
            let attrs = fields[i].attrs;
            let name = NameView::Given(fields[i].field_ident).text();
            let read = |after: State|
                read_by_key(
                    get_config_code(config_key, fields),
                    attrs.variant.text(),
                    after,
                    outside,
                );
            let after = set_by_key(
                with_config_code(config_key, fields),
                attrs.variant.text(),
                value,
                state,
                outside,
            );
            &&& after is Some <==> (attrs.strategy == Strategy::ConfigValue ==> state.contains_key(
                name,
            ))
            &&& after is Some ==> read(after.unwrap()) == shown(
                attrs,
                stored(attrs.strategy, name, value, state, outside).unwrap(),
                outside,
            )
            &&& attrs.strategy == Strategy::OptionString && value is Text ==> read(after.unwrap())
                == Some(Held::Just(Box::new(value)))
        }),
{
    let name = NameView::Given(fields[i].field_ident).text();
    law_with_config_sets_the_field(config_key, fields, i, value, state, outside);
    if let Some(held) = stored(fields[i].attrs.strategy, name, value, state, outside) {
        let after = state.insert(name, held);
        law_get_config_value_reads_the_field(config_key, fields, i, after, outside);
    }
}

/// The last of two writes by a key wins, where the field is not left to parse the value itself.
pub proof fn law_last_write_wins(
    config_key: Ident,
    fields: Seq<FieldDefView>,
    i: int,
    first: Held,
    last: Held,
    state: State,
    outside: Outside,
)
    requires
        first_of_its_variant(fields, i),
        fields[i].attrs.strategy != Strategy::ConfigValue,
    ensures
        ({
            let method = with_config_code(config_key, fields);
            let variant = fields[i].attrs.variant.text();
            set_by_key(method, variant, first, state, outside) matches Some(after) && set_by_key(
                method,
                variant,
                last,
                after,
                outside,
            ) == set_by_key(method, variant, last, state, outside)
        }),
{
    let name = NameView::Given(fields[i].field_ident).text();
    let strategy = fields[i].attrs.strategy;
    law_with_config_sets_the_field(config_key, fields, i, first, state, outside);
    law_with_config_sets_the_field(config_key, fields, i, last, state, outside);
    let after = state.insert(name, stored(strategy, name, first, state, outside).unwrap());
    law_with_config_sets_the_field(config_key, fields, i, last, after, outside);
    let held = stored(strategy, name, last, state, outside).unwrap();
    assert(after.insert(name, held) =~= state.insert(name, held));
}

/// What a setter stores in its field.
pub open spec fn assigned(strategy: Strategy, value: Held, outside: Outside) -> Held {
    match strategy {
        Strategy::ConfigValue => converted(value, outside),
        _ => Held::Just(Box::new(converted(value, outside))),
    }
}

/// The setter of a field stores the value in the field, and leaves every other field as it is.
pub proof fn law_setters_set_the_field(
    field: FieldDefView,
    value: Held,
    state: State,
    outside: Outside,
)
    requires
        field.attrs.setter == SetterMode::Auto,
        setter_code(field) is Ok,
    ensures
        set_by_setter(setter_code(field)->Ok_0, value, state, outside) == Some(
            state.insert(
                NameView::Given(field.field_ident).text(),
                assigned(field.attrs.strategy, value, outside),
            ),
        ),
{
    let body = setter_body(field);
    let text = lex("value.into"@) + paren(Seq::empty());
    let some = lex("::std::option::Option::Some"@);
    let equals = seq![Token::Punct('=', Joining::Alone)];
    let start = lex("self."@) + given(field.field_ident);
    lemma_lex_self();
    lemma_lex_value();
    lemma_lex_paths();
    lemma_converted(value, state, outside);
    lemma_wrapped(text, Some(value), state, outside);
    let method = setter_code(field)->Ok_0;
    assert(method.last() == Token::Nest(Delim::Brace, body));
    assert(body.last() == Token::Word("self"@));
    let expression = if field.attrs.strategy == Strategy::ConfigValue {
        text
    } else {
        some + paren(text)
    };
    lemma_assigned(field.field_ident, expression, value, state, outside);
    assert(body.drop_last() =~= start + (equals + expression) + lex(";"@));
}

/// For a field that keeps the text itself, the setter does what `with_config` does with the field's
/// variant: the same statement stands in both.
pub proof fn law_setters_agree_with_keys(
    config_key: Ident,
    fields: Seq<FieldDefView>,
    i: int,
    value: Held,
    state: State,
    outside: Outside,
)
    requires
        first_of_its_variant(fields, i),
        fields[i].attrs.strategy == Strategy::OptionString,
        fields[i].attrs.setter == SetterMode::Auto,
    ensures
        setter_body(fields[i]) == set_code(fields[i].field_ident, Strategy::OptionString) + lex(
            "self"@,
        ),
        setter_code(fields[i]) matches Ok(setter) && set_by_setter(setter, value, state, outside)
            == set_by_key(
            with_config_code(config_key, fields),
            fields[i].attrs.variant.text(),
            value,
            state,
            outside,
        ),
{
    lemma_lex_self();
    assert(setter_body(fields[i]) =~= set_code(fields[i].field_ident, Strategy::OptionString) + lex(
        "self"@,
    ));
    law_setters_set_the_field(fields[i], value, state, outside);
    law_with_config_sets_the_field(config_key, fields, i, value, state, outside);
}

} // verus!
