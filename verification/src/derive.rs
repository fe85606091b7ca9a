//! The derive itself: from the tokens of an item to the tokens that are generated for it.

use crate::code::{group_legal, leaves, legal, Token};
use crate::errors::{error_parts, error_reports, tells, DeriveError, Diagnostic, ErrorView};
use crate::expand::{expand, expansion, field_defs, lemma_field_error, planned, PlanView};
use crate::fields::{field_attrs, parse_field_attrs, FieldAttrsView, FieldDefView};
use crate::generate::{
    asref_arms, asref_code, bullets, dispatch_code, enum_code, fromstr_arms, fromstr_code, get_arms,
    patterns, set_arms, setter_codes, variants_code,
};
use crate::keys::keys;
use crate::store::{parse_struct_attrs, struct_attrs, StructAttrs};
use crate::syntax::{
    fields_view, input_view, parse_input, parsed_input, read_input, Body, BodyView, Definition,
    DefinitionView, FieldDecl, FieldView,
};
use crate::tokens::{raw_text, stream_tokens, Leaf};
use proc_macro2::{Ident, Span, TokenStream};
use vstd::prelude::*;

verus! {

/// Whether the names that are made for a field can stand in the generated code.
pub open spec fn made_names_legal(attrs: FieldAttrsView) -> bool {
    attrs.variant.legal() && attrs.setter_name.legal()
}

/// Whether the names that are made for the fields that take part can stand in the generated code.
pub open spec fn names_legal(fields: Seq<FieldDefView>) -> bool {
    forall|i: int| 0 <= i < fields.len() ==> made_names_legal((#[trigger] fields[i]).attrs)
}

/// Whether the names that are made for the fields can stand in the generated code. The fields are
/// read in order; those behind one that is refused do not matter.
pub open spec fn read_names_legal(fields: Seq<FieldView>) -> bool {
    forall|i: int|
        0 <= i < fields.len() && field_defs(fields.take(i)) is Ok ==> (field_attrs(
            #[trigger] fields[i],
        ) matches Ok(Some(attrs)) ==> made_names_legal(attrs))
}

/// Whether the names that are made for a definition can stand in the generated code. They are made
/// only for a struct with named fields whose own attributes are in order.
pub open spec fn definition_names_legal(definition: DefinitionView) -> bool {
    struct_attrs(definition) is Ok ==> (definition.body matches BodyView::Named(fields)
        ==> read_names_legal(fields))
}

/// The code that is generated for the tokens of an item, or why it is refused.
pub open spec fn derived(input: TokenStream) -> Result<Seq<Token>, ErrorView> {
    match parsed_input(input) {
        Ok(item) => expansion(input_view(item)),
        Err(error) => Err(ErrorView::Syntax(error)),
    }
}

/// Whether the derive has an answer for the tokens: the names that it makes on the way, to the end or
/// to the first error, are identifiers.
pub open spec fn derivable(input: TokenStream) -> bool {
    parsed_input(input) matches Ok(item) ==> definition_names_legal(input_view(item))
}

/// Whether tokens are the answer of the derive: the generated code, with what does not come from the
/// input placed at one site, or the report of the error.
pub open spec fn answers(tokens: Seq<Leaf>, outcome: Result<Seq<Token>, ErrorView>) -> bool {
    match outcome {
        Ok(code) => exists|site: Span| tokens == #[trigger] leaves(code, site),
        Err(error) => exists|parts: Seq<Diagnostic>|
            tokens == error_reports(parts) && #[trigger] tells(parts, error),
    }
}

proof fn lemma_first_names(fields: Seq<FieldDefView>)
    requires
        names_legal(fields),
        fields.len() > 0,
    ensures
        names_legal(fields.drop_last()),
        made_names_legal(fields.last().attrs),
{
    assert forall|i: int| 0 <= i < fields.drop_last().len() implies made_names_legal(
        (#[trigger] fields.drop_last()[i]).attrs,
    ) by {
        assert(fields.drop_last()[i] == fields[i]);
    }
}

proof fn lemma_legal_empty()
    ensures
        legal(Seq::<Token>::empty()),
{
}

proof fn lemma_legal_bullets(keys: Seq<Seq<char>>)
    ensures
        legal(bullets(keys)),
    decreases keys.len(),
{
    broadcast use group_legal;

    if keys.len() > 0 {
        lemma_legal_bullets(keys.drop_last());
    }
}

proof fn lemma_legal_patterns(keys: Seq<Seq<char>>)
    ensures
        legal(patterns(keys)),
    decreases keys.len(),
{
    broadcast use group_legal;

    if keys.len() > 1 {
        lemma_legal_patterns(keys.drop_last());
    }
}

proof fn lemma_legal_variants(fields: Seq<FieldDefView>)
    requires
        names_legal(fields),
    ensures
        legal(variants_code(fields)),
    decreases fields.len(),
{
    broadcast use group_legal;

    if fields.len() > 0 {
        lemma_first_names(fields);
        lemma_legal_variants(fields.drop_last());
        lemma_legal_bullets(keys(fields.last().attrs));
    }
}

proof fn lemma_legal_enum(name: Ident, struct_attrs: StructAttrs, fields: Seq<FieldDefView>)
    requires
        names_legal(fields),
    ensures
        legal(enum_code(name, struct_attrs, fields)),
{
    broadcast use group_legal;

    lemma_legal_variants(fields);
}

proof fn lemma_legal_asref_arms(fields: Seq<FieldDefView>)
    requires
        names_legal(fields),
    ensures
        legal(asref_arms(fields)),
    decreases fields.len(),
{
    broadcast use group_legal;

    if fields.len() > 0 {
        lemma_first_names(fields);
        lemma_legal_asref_arms(fields.drop_last());
    }
}

proof fn lemma_legal_asref(struct_attrs: StructAttrs, fields: Seq<FieldDefView>)
    requires
        names_legal(fields),
    ensures
        legal(asref_code(struct_attrs, fields)),
{
    broadcast use group_legal;

    lemma_legal_asref_arms(fields);
}

proof fn lemma_legal_fromstr_arms(fields: Seq<FieldDefView>)
    requires
        names_legal(fields),
    ensures
        legal(fromstr_arms(fields)),
    decreases fields.len(),
{
    broadcast use group_legal;

    if fields.len() > 0 {
        lemma_first_names(fields);
        lemma_legal_fromstr_arms(fields.drop_last());
        lemma_legal_patterns(keys(fields.last().attrs));
    }
}

proof fn lemma_legal_fromstr(struct_attrs: StructAttrs, fields: Seq<FieldDefView>)
    requires
        names_legal(fields),
    ensures
        legal(fromstr_code(struct_attrs, fields)),
{
    broadcast use group_legal;

    lemma_legal_empty();
    lemma_legal_fromstr_arms(fields);
}

proof fn lemma_legal_set_arms(config_key: Ident, fields: Seq<FieldDefView>)
    requires
        names_legal(fields),
    ensures
        legal(set_arms(config_key, fields)),
    decreases fields.len(),
{
    broadcast use group_legal;

    lemma_legal_empty();
    if fields.len() > 0 {
        lemma_first_names(fields);
        lemma_legal_set_arms(config_key, fields.drop_last());
    }
}

proof fn lemma_legal_get_arms(config_key: Ident, fields: Seq<FieldDefView>)
    requires
        names_legal(fields),
    ensures
        legal(get_arms(config_key, fields)),
    decreases fields.len(),
{
    broadcast use group_legal;

    lemma_legal_empty();
    if fields.len() > 0 {
        lemma_first_names(fields);
        lemma_legal_get_arms(config_key, fields.drop_last());
    }
}

proof fn lemma_legal_comments()
    ensures
        raw_text(" Set a config option by key."@),
        raw_text(" Get a config value by key."@),
{
    reveal_strlit(" Set a config option by key.");
    reveal_strlit(" Get a config value by key.");
}

proof fn lemma_legal_dispatch(name: Ident, struct_attrs: StructAttrs, fields: Seq<FieldDefView>)
    requires
        names_legal(fields),
    ensures
        legal(dispatch_code(name, struct_attrs, fields)),
{
    broadcast use group_legal;

    lemma_legal_empty();
    lemma_legal_comments();
    lemma_legal_set_arms(struct_attrs.config_key, fields);
    lemma_legal_get_arms(struct_attrs.config_key, fields);
}

proof fn lemma_legal_setters(fields: Seq<FieldDefView>)
    requires
        names_legal(fields),
    ensures
        setter_codes(fields) matches Ok(code) ==> legal(code),
    decreases fields.len(),
{
    broadcast use group_legal;

    lemma_legal_empty();
    if fields.len() > 0 {
        lemma_first_names(fields);
        lemma_legal_setters(fields.drop_last());
    }
}

/// The names of the fields that take part are among those that are made.
proof fn lemma_read_names(fields: Seq<FieldView>)
    requires
        read_names_legal(fields),
    ensures
        field_defs(fields) matches Ok(defs) ==> names_legal(defs),
    decreases fields.len(),
{
    if fields.len() > 0 {
        let first = fields.drop_last();
        assert forall|i: int| 0 <= i < first.len() && field_defs(first.take(i)) is Ok implies (
        field_attrs(#[trigger] first[i]) matches Ok(Some(attrs)) ==> made_names_legal(attrs)) by {
            assert(first.take(i) =~= fields.take(i));
            assert(first[i] == fields[i]);
        }
        lemma_read_names(first);
        assert(fields.take(fields.len() - 1) =~= first);
        assert(fields[fields.len() - 1] == fields.last());
    }
}

/// The code that is generated for a definition can be handed out where the names that are made for
/// it can.
proof fn lemma_legal_expansion(definition: DefinitionView)
    requires
        definition_names_legal(definition),
    ensures
        expansion(definition) matches Ok(code) ==> legal(code),
{
    broadcast use group_legal;

    if let Ok(PlanView { struct_attrs, fields }) = planned(definition) {
        lemma_read_names(definition.body->Named_0);
        lemma_legal_enum(definition.ident, struct_attrs, fields);
        lemma_legal_asref(struct_attrs, fields);
        lemma_legal_fromstr(struct_attrs, fields);
        lemma_legal_dispatch(definition.ident, struct_attrs, fields);
        lemma_legal_setters(fields);
    }
}

/// Whether the names that are made for the fields can stand in the generated code.
fn are_read_names_legal(fields: &Vec<FieldDecl>) -> (res: bool)
    ensures
        res == read_names_legal(fields_view(fields@)),
{
    let ghost views = fields_view(fields@);
    let mut i: usize = 0;
    proof {
        assert(views.take(0) =~= Seq::<FieldView>::empty());
    }
    while i < fields.len()
        invariant
            i <= fields.len(),
            views == fields_view(fields@),
            field_defs(views.take(i as int)) is Ok,
            forall|k: int|
                0 <= k < i ==> (field_attrs(#[trigger] views[k]) matches Ok(Some(attrs))
                    ==> made_names_legal(attrs)),
        decreases fields.len() - i,
    {
        proof {
            assert(views[i as int] == fields@[i as int]@);
            assert(views.take(i + 1).drop_last() =~= views.take(i as int));
            assert(views.take(i + 1).last() == views[i as int]);
        }
        match parse_field_attrs(&fields[i]) {
            Ok(Some(attrs)) => {
                if !attrs.variant.is_legal() || !attrs.setter_name.is_legal() {
                    proof {
                        assert(!made_names_legal(attrs@));
                    }
                    return false;
                }
            },
            Ok(None) => {},
            Err(_) => {
                proof {
                    assert forall|k: int|
                        0 <= k < views.len() && field_defs(views.take(k)) is Ok implies (
                    field_attrs(#[trigger] views[k]) matches Ok(Some(attrs)) ==> made_names_legal(
                        attrs,
                    )) by {
                        if k > i {
                            assert(views.take(k).take(i + 1) =~= views.take(i + 1));
                            lemma_field_error(views.take(k), i + 1);
                        }
                    }
                }
                return true;
            },
        }
        i = i + 1;
    }
    true
}

/// Whether the names that are made for a definition can stand in the generated code.
pub fn are_names_legal(definition: &Definition) -> (res: bool)
    ensures
        res == definition_names_legal(definition@),
{
    match (parse_struct_attrs(definition), &definition.body) {
        (Ok(_), Body::Named(fields)) => are_read_names_legal(fields),
        _ => true,
    }
}

/// The report of an error.
pub fn report(error: &DeriveError) -> (res: TokenStream)
    ensures
        answers(stream_tokens(res), Err(error@)),
{
    let syn_error: syn::Error = error.to_syn_error();
    proof {
        assert(tells(error_parts(syn_error), error@));
    }
    syn_error.to_compile_error()
}

/// Derives `ObjectStoreConfig` for the tokens of an item. The names that are made on the way must be
/// identifiers.
pub fn derive_object_store_config(input: TokenStream) -> (res: TokenStream)
    requires
        derivable(input),
    ensures
        answers(stream_tokens(res), derived(input)),
{
    let item: syn::DeriveInput = match parse_input(input) {
        Ok(item) => item,
        Err(error) => {
            return report(&DeriveError::Syntax(error));
        },
    };
    let definition: Definition = read_input(&item);
    match expand(&definition) {
        Ok(code) => {
            proof {
                lemma_legal_expansion(definition@);
            }
            code.to_stream(Span::call_site())
        },
        Err(error) => report(&error),
    }
}

/// Derives `ObjectStoreConfig` for the tokens of an item; `None` where a name that is made on the way
/// is no identifier.
pub fn try_derive_object_store_config(input: TokenStream) -> (res: Option<TokenStream>)
    ensures
        res is Some == derivable(input),
        res matches Some(tokens) ==> answers(stream_tokens(tokens), derived(input)),
{
    if let Ok(item) = parse_input(input.clone()) {
        if !are_names_legal(&read_input(&item)) {
            return None;
        }
    }
    Some(derive_object_store_config(input))
}

} // verus!
