//! What can be wrong with a definition, and how it is told to the user.

use crate::tokens::{
    ident_text, ident_to_string, stream_tokens, Delim, Joining, Leaf,
};
use proc_macro2::{Ident, Span, TokenStream};
use vstd::prelude::*;
use vstd::string::StringExecFns;

verus! {

/// `syn::Error`, one or more messages with their places.
#[verifier::external_type_specification]
#[verifier::external_body]
pub struct ExSynError(syn::Error);

/// A message, and the range of the source that it is about.
pub struct Diagnostic {
    pub start: Span,
    pub end: Span,
    pub message: Seq<char>,
}

/// The messages of an error, in order.
pub uninterp spec fn error_parts(error: syn::Error) -> Seq<Diagnostic>;

/// `Error::new`: one message, at a span.
#[verifier::external_body]
pub(crate) fn error_at(span: Span, message: &str) -> (res: syn::Error)
    ensures
        error_parts(res) == seq![Diagnostic { start: span, end: span, message: message@ }],
{
    syn::Error::new(span, message)
}

/// `Error::new_spanned`: one message, about the range from the first to the last of the tokens.
/// Without a token it points to where the macro is called, of which nothing is claimed.
#[verifier::external_body]
pub(crate) fn error_over(tokens: &TokenStream, message: &str) -> (res: syn::Error)
    ensures
        error_parts(res).len() == 1,
        error_parts(res)[0].message == message@,
        stream_tokens(*tokens).len() > 0 ==> error_parts(res)[0].start == stream_tokens(
            *tokens,
        ).first().span(),
        stream_tokens(*tokens).len() > 0 ==> error_parts(res)[0].end == stream_tokens(
            *tokens,
        ).last().span(),
{
    syn::Error::new_spanned(tokens, message)
}

/// `Error::clone`: the same messages at the same places.
pub assume_specification[ <syn::Error as Clone>::clone ](error: &syn::Error) -> (res: syn::Error)
    ensures
        res == *error,
;

/// `Error::combine`: the other error's messages stand behind the error's own.
pub assume_specification[ syn::Error::combine ](error: &mut syn::Error, another: syn::Error)
    ensures
        error_parts(*final(error)) == error_parts(*old(error)) + error_parts(another),
;

/// `Error::to_compile_error`: one invocation of `compile_error!` for each message. (An error that
/// was handed to another thread has lost its places; the derive works on one thread.)
pub assume_specification[ syn::Error::to_compile_error ](error: &syn::Error) -> (res: TokenStream)
    ensures
        stream_tokens(res) == error_reports(error_parts(*error)),
;

/// The invocation of `compile_error!` that tells a message:
/// `::core::compile_error! { "message" }`.
pub open spec fn error_report(part: Diagnostic) -> Seq<Leaf> {
    seq![
        Leaf::Punct(':', Joining::Joined, part.start),
        Leaf::Punct(':', Joining::Alone, part.start),
        Leaf::Name("core"@, part.start),
        Leaf::Punct(':', Joining::Joined, part.start),
        Leaf::Punct(':', Joining::Alone, part.start),
        Leaf::Name("compile_error"@, part.start),
        Leaf::Punct('!', Joining::Alone, part.start),
        Leaf::Nest(Delim::Brace, seq![Leaf::Text(part.message, part.end)], part.end),
    ]
}

/// The invocations of `compile_error!` that tell several messages.
pub open spec fn error_reports(parts: Seq<Diagnostic>) -> Seq<Leaf>
    decreases parts.len(),
{
    if parts.len() == 0 {
        Seq::empty()
    } else {
        error_reports(parts.drop_last()) + error_report(parts.last())
    }
}

/// What is wrong with a definition.
pub enum Problem {
    /// No `config_key` in `#[object_store(...)]`.
    NoConfigKey,
    /// No `error_path` in `#[object_store(...)]`.
    NoErrorPath,
    /// A struct whose fields have no names.
    NamelessFields,
    /// Not a struct.
    NotStruct,
    /// No field takes part.
    NoConfigField,
    /// A field without a name.
    NamelessField,
    /// A second `#[config(...)]` on a field.
    SecondConfig,
    /// An empty key.
    EmptyKey,
    /// An alias that is no string literal.
    AliasNotText,
    UnknownStrategy(Ident),
    UnknownFormatter(Ident),
    UnknownSetter(Ident),
    /// No strategy is given, and the type of the field tells none.
    NoStrategy,
    /// A formatter for another strategy than `option_config_value_deferred`.
    MisplacedFormatter,
    /// A key that was given before, and the place where it was.
    RepeatedKey(String, Span),
    /// A field with strategy `config_value` that is no `ConfigValue<T>`.
    NotConfigValue,
    /// A field with strategy `option_config_value_deferred` that is no `Option<...>`.
    NotOption,
}

/// What is wrong with a definition, with the text of a repeated key.
pub enum ProblemView {
    NoConfigKey,
    NoErrorPath,
    NamelessFields,
    NotStruct,
    NoConfigField,
    NamelessField,
    SecondConfig,
    EmptyKey,
    AliasNotText,
    UnknownStrategy(Ident),
    UnknownFormatter(Ident),
    UnknownSetter(Ident),
    NoStrategy,
    MisplacedFormatter,
    RepeatedKey(Seq<char>, Span),
    NotConfigValue,
    NotOption,
}

/// Why a definition is refused.
pub enum DeriveError {
    /// The input, or an attribute, is not in the form that Rust or the attribute demands.
    Syntax(syn::Error),
    /// A problem at a span.
    At(Problem, Span),
    /// A problem with a part of the input.
    Over(Problem, TokenStream),
}

/// Why a definition is refused, with the text of a repeated key.
pub enum ErrorView {
    Syntax(syn::Error),
    At(ProblemView, Span),
    Over(ProblemView, TokenStream),
}

impl Problem {
    pub open spec fn view(self) -> ProblemView {
        match self {
            Problem::NoConfigKey => ProblemView::NoConfigKey,
            Problem::NoErrorPath => ProblemView::NoErrorPath,
            Problem::NamelessFields => ProblemView::NamelessFields,
            Problem::NotStruct => ProblemView::NotStruct,
            Problem::NoConfigField => ProblemView::NoConfigField,
            Problem::NamelessField => ProblemView::NamelessField,
            Problem::SecondConfig => ProblemView::SecondConfig,
            Problem::EmptyKey => ProblemView::EmptyKey,
            Problem::AliasNotText => ProblemView::AliasNotText,
            Problem::UnknownStrategy(ident) => ProblemView::UnknownStrategy(ident),
            Problem::UnknownFormatter(ident) => ProblemView::UnknownFormatter(ident),
            Problem::UnknownSetter(ident) => ProblemView::UnknownSetter(ident),
            Problem::NoStrategy => ProblemView::NoStrategy,
            Problem::MisplacedFormatter => ProblemView::MisplacedFormatter,
            Problem::RepeatedKey(key, previous) => ProblemView::RepeatedKey(key@, previous),
            Problem::NotConfigValue => ProblemView::NotConfigValue,
            Problem::NotOption => ProblemView::NotOption,
        }
    }

    /// What the user is told.
    pub fn message(&self) -> (res: String)
        ensures
            res@ == self@.message(),
    {
        match self {
            Problem::NoConfigKey =>
                "missing required attribute `#[object_store(config_key = ...)]`".to_owned(),
            Problem::NoErrorPath =>
                "missing required attribute `#[object_store(error_path = ...)]`".to_owned(),
            Problem::NamelessFields =>
                "ObjectStoreConfig requires a struct with named fields".to_owned(),
            Problem::NotStruct => "ObjectStoreConfig can only be derived on structs".to_owned(),
            Problem::NoConfigField =>
                "ObjectStoreConfig requires at least one field with #[config(...)]".to_owned(),
            Problem::NamelessField => "field must be named".to_owned(),
            Problem::SecondConfig => "duplicate #[config(...)] attribute on field".to_owned(),
            Problem::EmptyKey => "config key must be non-empty".to_owned(),
            Problem::AliasNotText => "aliases must be a list of string literals".to_owned(),
            Problem::UnknownStrategy(ident) => enclosed(
                "unknown strategy `",
                ident_to_string(ident).as_str(),
                "`; expected one of `option_string`, `config_value`, `option_config_value_deferred`",
            ),
            Problem::UnknownFormatter(ident) => enclosed(
                "unknown formatter `",
                ident_to_string(ident).as_str(),
                "`; expected `to_string` or `duration`",
            ),
            Problem::UnknownSetter(ident) => enclosed(
                "unknown setter mode `",
                ident_to_string(ident).as_str(),
                "`; expected `auto` or `skip`",
            ),
            Problem::NoStrategy =>
                "could not infer strategy from field type; expected `Option<String>`, `ConfigValue<T>`, or `Option<ConfigValue<T>>`. Specify explicitly with `#[config(strategy = ...)]`".to_owned(),
            Problem::MisplacedFormatter =>
                "`formatter` is only valid with `strategy = option_config_value_deferred`".to_owned(),
            Problem::RepeatedKey(key, _) => enclosed("duplicate config key `", key.as_str(), "`"),
            Problem::NotConfigValue =>
                "expected field type to be `ConfigValue<T>`".to_owned(),
            Problem::NotOption =>
                "expected field type to be `Option<ConfigValue<T>>` for strategy `option_config_value_deferred`".to_owned(),
        }
    }
}

impl ProblemView {
    /// What the user is told.
    pub open spec fn message(self) -> Seq<char> {
        match self {
            ProblemView::NoConfigKey =>
                "missing required attribute `#[object_store(config_key = ...)]`"@,
            ProblemView::NoErrorPath =>
                "missing required attribute `#[object_store(error_path = ...)]`"@,
            ProblemView::NamelessFields => "ObjectStoreConfig requires a struct with named fields"@,
            ProblemView::NotStruct => "ObjectStoreConfig can only be derived on structs"@,
            ProblemView::NoConfigField =>
                "ObjectStoreConfig requires at least one field with #[config(...)]"@,
            ProblemView::NamelessField => "field must be named"@,
            ProblemView::SecondConfig => "duplicate #[config(...)] attribute on field"@,
            ProblemView::EmptyKey => "config key must be non-empty"@,
            ProblemView::AliasNotText => "aliases must be a list of string literals"@,
            ProblemView::UnknownStrategy(ident) => "unknown strategy `"@ + ident_text(ident)
                + "`; expected one of `option_string`, `config_value`, `option_config_value_deferred`"@,
            ProblemView::UnknownFormatter(ident) => "unknown formatter `"@ + ident_text(ident)
                + "`; expected `to_string` or `duration`"@,
            ProblemView::UnknownSetter(ident) => "unknown setter mode `"@ + ident_text(ident)
                + "`; expected `auto` or `skip`"@,
            ProblemView::NoStrategy =>
                "could not infer strategy from field type; expected `Option<String>`, `ConfigValue<T>`, or `Option<ConfigValue<T>>`. Specify explicitly with `#[config(strategy = ...)]`"@,
            ProblemView::MisplacedFormatter =>
                "`formatter` is only valid with `strategy = option_config_value_deferred`"@,
            ProblemView::RepeatedKey(key, _) => "duplicate config key `"@ + key + "`"@,
            ProblemView::NotConfigValue => "expected field type to be `ConfigValue<T>`"@,
            ProblemView::NotOption =>
                "expected field type to be `Option<ConfigValue<T>>` for strategy `option_config_value_deferred`"@,
        }
    }
}

/// A text between two others.
pub(crate) fn enclosed(before: &str, text: &str, after: &str) -> (res: String)
    ensures
        res@ == before@ + text@ + after@,
{
    let mut out: String = before.to_owned();
    out.append(text);
    out.append(after);
    out
}

/// Whether the diagnostics tell of the refusal, in order: what is wrong and where, and for a
/// repeated key also where it was given first.
pub open spec fn tells(parts: Seq<Diagnostic>, error: ErrorView) -> bool {
    match error {
        ErrorView::Syntax(error) => parts == error_parts(error),
        ErrorView::At(problem, span) => parts == seq![
            Diagnostic { start: span, end: span, message: problem.message() },
        ] + first_given(problem),
        ErrorView::Over(problem, tokens) => {
            &&& parts.len() == 1 + first_given(problem).len()
            &&& parts.skip(1) == first_given(problem)
            &&& parts[0].message == problem.message()
            &&& stream_tokens(tokens).len() > 0 ==> {
                &&& parts[0].start == stream_tokens(tokens).first().span()
                &&& parts[0].end == stream_tokens(tokens).last().span()
            }
        },
    }
}

/// The diagnostic that points to where a repeated key was given first.
pub open spec fn first_given(problem: ProblemView) -> Seq<Diagnostic> {
    match problem {
        ProblemView::RepeatedKey(_, previous) => seq![
            Diagnostic { start: previous, end: previous, message: "previously defined here"@ },
        ],
        _ => Seq::empty(),
    }
}

impl DeriveError {
    pub open spec fn view(self) -> ErrorView {
        match self {
            DeriveError::Syntax(error) => ErrorView::Syntax(error),
            DeriveError::At(problem, span) => ErrorView::At(problem.view(), span),
            DeriveError::Over(problem, tokens) => ErrorView::Over(problem.view(), tokens),
        }
    }

    /// The error with its messages and places.
    pub fn to_syn_error(&self) -> (res: syn::Error)
        ensures
            tells(error_parts(res), self@),
    {
        match self {
            DeriveError::Syntax(error) => error.clone(),
            DeriveError::At(problem, span) => {
                let mut error: syn::Error = error_at(*span, problem.message().as_str());
                add_first_given(&mut error, problem);
                error
            },
            DeriveError::Over(problem, tokens) => {
                let mut error: syn::Error = error_over(tokens, problem.message().as_str());
                let ghost parts = error_parts(error);
                add_first_given(&mut error, problem);
                proof {
                    assert((parts + first_given(problem@)).skip(1) =~= first_given(problem@));
                    assert((parts + first_given(problem@))[0] == parts[0]);
                }
                error
            },
        }
    }
}

/// Appends the diagnostic that points to where a repeated key was given first.
fn add_first_given(error: &mut syn::Error, problem: &Problem)
    ensures
        error_parts(*final(error)) == error_parts(*old(error)) + first_given(problem@),
{
    if let Problem::RepeatedKey(_, previous) = problem {
        error.combine(error_at(*previous, "previously defined here"));
    } else {
        proof {
            assert(error_parts(*error) + Seq::<Diagnostic>::empty() =~= error_parts(*error));
        }
    }
}

/// The view of a result whose value is its own view.
pub open spec fn outcome<T>(res: Result<T, DeriveError>) -> Result<T, ErrorView> {
    match res {
        Ok(value) => Ok(value),
        Err(error) => Err(error@),
    }
}

} // verus!
