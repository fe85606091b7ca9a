//! What the plain values tell of what they stand for, and what the generated code, the errors and the
//! answers of the derive are made of.

use crate::code::{leaves, splices, token_leaves, Code, Tok, Token};
use crate::config::FieldOptions;
use crate::derive::{answers, derivable, derived};
use crate::errors::{
    error_parts, error_reports, tells, DeriveError, Diagnostic, ErrorView, ProblemView,
};
use crate::expand::{expansion, field_defs, Plan};
use crate::fields::{defs_view, field_attrs, FieldDef};
use crate::items::{Element, ElementView, Item, ItemView, Nested};
use crate::names::{legal_ident, Name, NameView};
use crate::store::struct_attrs;
use crate::syntax::{
    attr_view, field_shape, field_view, input_shape, input_view, parsed_input, type_view, Body,
    BodyShape, BodyView, Definition, FieldDecl, TypeInfo,
};
use crate::tokens::{ident_span, ident_text, made_text, stream_tokens, Leaf};
use proc_macro2::{Ident, Span, TokenStream};
use vstd::prelude::*;

verus! {

// ---------------------------------------------------------------------------
// The input
// ---------------------------------------------------------------------------

/// Of an item its name, its tokens, all its attributes and, of a struct with named fields, all its
/// fields are told, in order.
pub proof fn law_items_are_read_whole(input: syn::DeriveInput)
    ensures
        ({
            let shape = input_shape(input);
            let view = input_view(input);
            &&& view.ident == shape.ident
            &&& view.tokens == shape.tokens
            &&& view.attrs.len() == shape.attrs.len()
            &&& forall|i: int|
                0 <= i < shape.attrs.len() ==> view.attrs[i] == attr_view(#[trigger] shape.attrs[i])
            &&& shape.body is Nameless <==> view.body is Nameless
            &&& shape.body is NotStruct <==> view.body is NotStruct
            &&& shape.body matches BodyShape::Named(fields) ==> {
                &&& view.body matches BodyView::Named(views)
                &&& views.len() == fields.len()
                &&& forall|i: int|
                    0 <= i < fields.len() ==> views[i] == field_view(#[trigger] fields[i])
            }
        }),
{
}

/// Of a field its name, its place, its type and all its attributes are told, in order.
pub proof fn law_fields_are_read_whole(field: syn::Field)
    ensures
        ({
            let shape = field_shape(field);
            let view = field_view(field);
            &&& view.ident == shape.ident
            &&& view.span == shape.span
            &&& view.ty == type_view(shape.ty)
            &&& view.attrs.len() == shape.attrs.len()
            &&& forall|i: int|
                0 <= i < shape.attrs.len() ==> view.attrs[i] == attr_view(#[trigger] shape.attrs[i])
        }),
{
}

/// The view of a definition tells all that the definition holds.
pub proof fn law_definitions_are_told_whole(definition: Definition)
    ensures
        definition@.ident == definition.ident,
        definition@.tokens == definition.tokens,
        definition@.attrs.len() == definition.attrs@.len(),
        forall|i: int|
            0 <= i < definition.attrs@.len() ==> definition@.attrs[i] == (
            #[trigger] definition.attrs@[i])@,
        definition.body is Nameless <==> definition@.body is Nameless,
        definition.body is NotStruct <==> definition@.body is NotStruct,
        definition.body matches Body::Named(fields) ==> {
            &&& definition@.body matches BodyView::Named(views)
            &&& views.len() == fields@.len()
            &&& forall|i: int| 0 <= i < fields@.len() ==> views[i] == (#[trigger] fields@[i])@
        },
{
}

/// The view of a field tells all that the field holds.
pub proof fn law_declared_fields_are_told_whole(field: FieldDecl)
    ensures
        field@.ident == field.ident,
        field@.span == field.span,
        field@.ty == field.ty@,
        field@.attrs.len() == field.attrs@.len(),
        forall|i: int|
            0 <= i < field.attrs@.len() ==> field@.attrs[i] == (#[trigger] field.attrs@[i])@,
{
}

/// The view of a type tells all that the type holds.
pub proof fn law_types_are_told_whole(ty: TypeInfo)
    ensures
        ty@.tokens == ty.tokens,
        ty@.span == ty.span,
        ty.tail is None <==> ty@.tail is None,
        ty.tail matches Some(tail) ==> {
            &&& ty@.tail matches Some(view)
            &&& view.name == tail.name@
            &&& tail.args is None <==> view.args is None
            &&& tail.args matches Some(args) ==> {
                &&& view.args matches Some(views)
                &&& views.len() == args@.len()
                &&& forall|i: int|
                    0 <= i < args@.len() ==> match #[trigger] args@[i] {
                        Some(arg) => views[i] == Some(arg@),
                        None => views[i] is None,
                    }
            }
        },
{
}

// ---------------------------------------------------------------------------
// Items and what they ask for
// ---------------------------------------------------------------------------

/// The view of an item tells all that the item holds.
pub proof fn law_items_are_told_whole(item: Item)
    ensures
        match item {
            Item::ConfigKey(ident) => item@ == ItemView::ConfigKey(ident),
            Item::ErrorPath(path) => item@ == ItemView::ErrorPath(path),
            Item::ErrorStore(text) => item@ matches ItemView::ErrorStore(view) && view.value
                == text.value@ && view.span == text.span && view.tokens == text.tokens,
            Item::Skip => item@ is Skip,
            Item::Key(text) => item@ matches ItemView::Key(view) && view.value == text.value@
                && view.span == text.span && view.tokens == text.tokens,
            Item::Aliases(elements) => {
                &&& item@ matches ItemView::Aliases(views)
                &&& views.len() == elements@.len()
                &&& forall|i: int|
                    0 <= i < elements@.len() ==> match #[trigger] elements@[i] {
                        Element::Text(text) => views[i] == ElementView::Text(text@),
                        Element::Other(tokens) => views[i] == ElementView::Other(tokens),
                    }
            },
            Item::Strategy(ident) => item@ == ItemView::Strategy(ident),
            Item::GetVia(ident) => item@ == ItemView::GetVia(ident),
            Item::Formatter(ident) => item@ == ItemView::Formatter(ident),
            Item::Variant(ident) => item@ == ItemView::Variant(ident),
            Item::Setter(ident) => item@ == ItemView::Setter(ident),
            Item::SetterName(ident) => item@ == ItemView::SetterName(ident),
            Item::DocInherit(value) => item@ == ItemView::DocInherit(value),
            Item::Unknown(error) => item@ == ItemView::Unknown(error),
        },
{
}

/// The view of the items of an attribute tells each item, in order, and the error at the end.
pub proof fn law_readings_are_told_whole(nested: Nested)
    ensures
        nested@.items.len() == nested.items@.len(),
        forall|i: int|
            0 <= i < nested.items@.len() ==> nested@.items[i] == (#[trigger] nested.items@[i])@,
        nested@.end == nested.end,
{
}

/// The view of options tells all that the options hold.
pub proof fn law_options_are_told_whole(options: FieldOptions)
    ensures
        options@.skip == options.skip,
        options.key is None <==> options@.key is None,
        options.key matches Some(text) ==> options@.key == Some(text@),
        options@.aliases.len() == options.aliases@.len(),
        forall|i: int|
            0 <= i < options.aliases@.len() ==> options@.aliases[i] == (
            #[trigger] options.aliases@[i])@,
        options@.strategy == options.strategy,
        options@.formatter == options.formatter,
        options@.get_via == options.get_via,
        options@.variant == options.variant,
        options@.setter == options.setter,
        options@.setter_name == options.setter_name,
        options@.doc_inherit == options.doc_inherit,
{
}

/// The view of a field that takes part tells all that is planned for it.
pub proof fn law_planned_fields_are_told_whole(field: FieldDef<'_>)
    ensures
        field@.ty == field.ty@,
        field@.field_ident == field.field_ident,
        field@.attrs.key == field.attrs.key@,
        field@.attrs.key_span == field.attrs.key_span,
        field@.attrs.aliases.len() == field.attrs.aliases@.len(),
        forall|i: int|
            0 <= i < field.attrs.aliases@.len() ==> field@.attrs.aliases[i] == (
            #[trigger] field.attrs.aliases@[i])@,
        field@.attrs.strategy == field.attrs.strategy,
        field@.attrs.formatter == field.attrs.formatter,
        field@.attrs.get_via == field.attrs.get_via,
        field@.attrs.variant == field.attrs.variant@,
        field@.attrs.setter == field.attrs.setter,
        field@.attrs.setter_name == field.attrs.setter_name@,
        field@.attrs.doc_inherit == field.attrs.doc_inherit,
        field@.attrs.cfg_attrs == field.attrs.cfg_attrs@,
        field@.attrs.docs == field.attrs.docs@,
        field.attrs@ == field@.attrs,
{
}

/// The view of a plan tells the attributes of the struct and each field, in order.
pub proof fn law_plans_are_told_whole(plan: Plan<'_>)
    ensures
        plan@.struct_attrs == plan.struct_attrs,
        plan@.fields == defs_view(plan.fields@),
        defs_view(plan.fields@).len() == plan.fields@.len(),
        forall|i: int|
            0 <= i < plan.fields@.len() ==> defs_view(plan.fields@)[i] == (
            #[trigger] plan.fields@[i])@,
{
}

/// The view of a name tells whether it was given or made, and which it is.
pub proof fn law_names_are_told_whole(name: Name)
    ensures
        match name {
            Name::Given(ident) => name@ == NameView::Given(ident),
            Name::Made(text, span) => name@ == NameView::Made(text@, span),
        },
        name@.legal() <==> (name is Made ==> legal_ident(name->Made_0@)),
{
}

// ---------------------------------------------------------------------------
// Generated code
// ---------------------------------------------------------------------------

/// The view of code tells each of its tokens, in order.
pub proof fn law_code_is_told_whole(code: Code)
    ensures
        code@.len() == code.toks@.len(),
        forall|i: int|
            0 <= i < code.toks@.len() ==> match #[trigger] code.toks@[i] {
                Tok::Word(text) => code@[i] == Token::Word(text@),
                Tok::Punct(c, joining) => code@[i] == Token::Punct(c, joining),
                Tok::Text(text) => code@[i] == Token::Text(text@),
                Tok::Raw(text) => code@[i] == Token::Raw(text@),
                Tok::Nest(delim, inner) => code@[i] == Token::Nest(delim, inner@),
                Tok::Name(name) => code@[i] == Token::Name(name@),
                Tok::Splice(stream) => code@[i] == Token::Splice(stream),
            },
{
    assert forall|i: int| 0 <= i < code.toks@.len() implies match #[trigger] code.toks@[i] {
        Tok::Word(text) => code@[i] == Token::Word(text@),
        Tok::Punct(c, joining) => code@[i] == Token::Punct(c, joining),
        Tok::Text(text) => code@[i] == Token::Text(text@),
        Tok::Raw(text) => code@[i] == Token::Raw(text@),
        Tok::Nest(delim, inner) => code@[i] == Token::Nest(delim, inner@),
        Tok::Name(name) => code@[i] == Token::Name(name@),
        Tok::Splice(stream) => code@[i] == Token::Splice(stream),
    } by {
        assert(code@[i] == code.toks@[i]@);
    }
}

/// All of several streams of the input are handed on, in order.
pub proof fn law_all_streams_are_handed_on(streams: Seq<TokenStream>)
    ensures
        splices(streams).len() == streams.len(),
        forall|i: int|
            0 <= i < streams.len() ==> splices(streams)[i] == Token::Splice(#[trigger] streams[i]),
{
}

/// Code is handed out token by token.
pub proof fn law_code_is_handed_out_in_order(a: Seq<Token>, b: Seq<Token>, site: Span)
    ensures
        leaves(a + b, site) == leaves(a, site) + leaves(b, site),
    decreases b.len(),
{
    if b.len() == 0 {
        assert(a + b =~= a);
        assert(leaves(a, site) + leaves(b, site) =~= leaves(a, site));
    } else {
        law_code_is_handed_out_in_order(a, b.drop_last(), site);
        assert((a + b).drop_last() =~= a + b.drop_last());
        assert((a + b).last() == b.last());
        assert(leaves(a + b, site) =~= leaves(a, site) + leaves(b, site));
    }
}

/// What each token of the code is in the stream that is handed out: what the derive writes itself stands
/// at one site, what comes from the input is as it is there.
pub proof fn law_tokens_that_are_handed_out(token: Token, site: Span)
    ensures
        leaves(seq![token], site) == match token {
            Token::Word(text) => seq![Leaf::Name(made_text(text, site), site)],
            Token::Punct(c, joining) => seq![Leaf::Punct(c, joining, site)],
            Token::Text(text) => seq![Leaf::Text(text, site)],
            Token::Raw(text) => seq![Leaf::Literal(seq!['r', '"'] + text + seq!['"'], site)],
            Token::Nest(delim, inner) => seq![Leaf::Nest(delim, leaves(inner, site), site)],
            Token::Name(NameView::Given(ident)) => seq![
                Leaf::Name(ident_text(ident), ident_span(ident)),
            ],
            Token::Name(NameView::Made(text, span)) => seq![
                Leaf::Name(made_text(text, span), span),
            ],
            Token::Splice(stream) => stream_tokens(stream),
        },
{
    let code = seq![token];
    assert(code.drop_last() =~= Seq::<Token>::empty());
    assert(code.last() == token);
    assert(leaves(code.drop_last(), site) =~= Seq::<Leaf>::empty());
    assert(leaves(code, site) =~= token_leaves(token, site));
}

// ---------------------------------------------------------------------------
// Errors
// ---------------------------------------------------------------------------

/// The view of a refusal tells what is wrong and where.
pub proof fn law_refusals_are_told_whole(error: DeriveError)
    ensures
        match error {
            DeriveError::Syntax(inner) => error@ == ErrorView::Syntax(inner),
            DeriveError::At(problem, span) => error@ == ErrorView::At(problem@, span),
            DeriveError::Over(problem, tokens) => error@ == ErrorView::Over(problem@, tokens),
        },
{
}

/// The messages with a part of the input name that part.
pub proof fn law_messages(ident: Ident, key: Seq<char>, span: Span)
    ensures
        ProblemView::UnknownStrategy(ident).message() == "unknown strategy `"@ + ident_text(ident)
            + "`; expected one of `option_string`, `config_value`, `option_config_value_deferred`"@,
        ProblemView::UnknownFormatter(ident).message() == "unknown formatter `"@ + ident_text(ident)
            + "`; expected `to_string` or `duration`"@,
        ProblemView::UnknownSetter(ident).message() == "unknown setter mode `"@ + ident_text(ident)
            + "`; expected `auto` or `skip`"@,
        ProblemView::RepeatedKey(key, span).message() == "duplicate config key `"@ + key + "`"@,
{
}

/// A problem at a place is told there, and a repeated key also where it is given first; a problem with a
/// part of the input is told of the range of its tokens; an error of the syntax is told as it is.
pub proof fn law_what_is_told(parts: Seq<Diagnostic>, problem: ProblemView, span: Span)
    requires
        tells(parts, ErrorView::At(problem, span)),
    ensures
        parts.len() == if problem is RepeatedKey {
            2int
        } else {
            1
        },
        parts[0] == (Diagnostic { start: span, end: span, message: problem.message() }),
        problem matches ProblemView::RepeatedKey(_, previous) ==> parts[1] == (Diagnostic {
            start: previous,
            end: previous,
            message: "previously defined here"@,
        }),
{
}

/// A problem with a part of the input is told of the range of its tokens.
pub proof fn law_what_is_told_of_tokens(
    parts: Seq<Diagnostic>,
    problem: ProblemView,
    tokens: TokenStream,
)
    requires
        tells(parts, ErrorView::Over(problem, tokens)),
        !(problem is RepeatedKey),
    ensures
        parts.len() == 1,
        parts[0].message == problem.message(),
        stream_tokens(tokens).len() > 0 ==> parts[0].start == stream_tokens(tokens)[0].span()
            && parts[0].end == stream_tokens(tokens)[stream_tokens(tokens).len() - 1].span(),
{
}

/// An error of the syntax is told as it is.
pub proof fn law_what_is_told_of_syntax(parts: Seq<Diagnostic>, error: syn::Error)
    ensures
        tells(parts, ErrorView::Syntax(error)) <==> parts == error_parts(error),
{
}

// ---------------------------------------------------------------------------
// Answers
// ---------------------------------------------------------------------------

/// The derive answers with what the definition leads to; what is no item is refused as the parser says.
pub proof fn law_answers(input: TokenStream)
    ensures
        match parsed_input(input) {
            Ok(item) => derived(input) == expansion(input_view(item)),
            Err(error) => derived(input) == Err::<Seq<Token>, ErrorView>(ErrorView::Syntax(error)),
        },
{
}

/// An answer is the generated code, placed at one site, or the report of what is told of the error.
pub proof fn law_answers_are_code_or_reports(
    tokens: Seq<Leaf>,
    outcome: Result<Seq<Token>, ErrorView>,
)
    ensures
        answers(tokens, outcome) <==> match outcome {
            Ok(code) => exists|site: Span| tokens == #[trigger] leaves(code, site),
            Err(error) => exists|parts: Seq<Diagnostic>|
                tokens == error_reports(parts) && #[trigger] tells(parts, error),
        },
{
}

/// The derive has no answer only where a name that it makes is no identifier, for a field that takes part
/// and before which no field is refused, in a struct with named fields whose own attributes are in order.
pub proof fn law_when_there_is_an_answer(input: TokenStream)
    ensures
        !derivable(input) <==> {
            &&& parsed_input(input) matches Ok(item)
            &&& struct_attrs(input_view(item)) is Ok
            &&& input_view(item).body matches BodyView::Named(fields)
            &&& exists|i: int|
                #![trigger fields[i]]
                0 <= i < fields.len() && field_defs(fields.take(i)) is Ok && (field_attrs(
                    fields[i],
                ) matches Ok(Some(attrs)) && ((attrs.variant matches NameView::Made(text, _)
                    && !legal_ident(text)) || (attrs.setter_name matches NameView::Made(text, _)
                    && !legal_ident(text))))
        },
{
}

} // verus!
