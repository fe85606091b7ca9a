//! What the attributes and the types of a definition lead to, told of every definition: which items are
//! accepted, which value counts, which strategy a type tells, and what becomes of a field.

use crate::code::Token;
use crate::config::{
    alias_texts, config_options, config_step, config_steps, formatter_named, setter_named,
    strategy_named, OptionsView, SetterMode,
};
use crate::errors::{ErrorView, ProblemView};
use crate::expand::{expansion, field_defs, planned, PlanView};
use crate::fields::{
    attr_options, config_attr, field_attrs, resolved, tokens_named, FieldAttrsView, FieldDefView,
};
use crate::generate::{
    asref_code, dispatch_code, enum_code, fromstr_code, setter_codes, setters_code,
};
use crate::infer::{
    config_value_inner, first_type, inferred_formatter, inferred_strategy,
    option_config_value_inner, type_argument, Formatter, Strategy,
};
use crate::items::{
    known_item, meta_array, meta_bool, meta_error, meta_ident, meta_key, meta_path, meta_text,
    nested_items, read_all, ElementView, ItemView, NestedView, Scope,
};
use crate::keys::{all_keys, keys, repeated};
use crate::laws::{
    distinct, law_repeated_keys, law_repeated_report, lemma_offset, lemma_offset_order, offset,
};
use crate::names::{
    ident_continue, legal_ident, pascal, unraw, upper, xid_continue, xid_start, NameView,
};
use crate::store::{store_options, store_steps, stores, struct_attrs, StoreOptions, StructAttrs};
use crate::syntax::{AttrView, BodyView, DefinitionView, FieldView, TypeView};
use crate::tokens::{ident_span, ident_text};
use proc_macro2::{Ident, TokenStream};
use syn::meta::ParseNestedMeta;
use vstd::prelude::*;

verus! {

// ---------------------------------------------------------------------------
// Words
// ---------------------------------------------------------------------------

/// Each strategy has one name, and no other text names it.
pub proof fn law_names_of_strategies(name: Seq<char>)
    ensures
        strategy_named(name) == Some(Strategy::OptionString) <==> name == "option_string"@,
        strategy_named(name) == Some(Strategy::ConfigValue) <==> name == "config_value"@,
        strategy_named(name) == Some(Strategy::OptionConfigValueDeferred) <==> name
            == "option_config_value_deferred"@,
{
    reveal_strlit("option_string");
    reveal_strlit("config_value");
    reveal_strlit("option_config_value_deferred");
    assert("option_string"@.len() == 13);
    assert("config_value"@.len() == 12);
    assert("option_config_value_deferred"@.len() == 28);
}

/// Each formatter has one name, and no other text names it.
pub proof fn law_names_of_formatters(name: Seq<char>)
    ensures
        formatter_named(name) == Some(Formatter::ToString) <==> name == "to_string"@,
        formatter_named(name) == Some(Formatter::Duration) <==> name == "duration"@,
{
    reveal_strlit("to_string");
    reveal_strlit("duration");
    assert("to_string"@.len() == 9);
    assert("duration"@.len() == 8);
}

/// Each setter mode has one name, and no other text names it.
pub proof fn law_names_of_setter_modes(name: Seq<char>)
    ensures
        setter_named(name) == Some(SetterMode::Auto) <==> name == "auto"@,
        setter_named(name) == Some(SetterMode::Skip) <==> name == "skip"@,
{
    reveal_strlit("auto");
    reveal_strlit("skip");
    assert("auto"@[0] == 'a');
    assert("skip"@[0] == 's');
}

// ---------------------------------------------------------------------------
// Aliases
// ---------------------------------------------------------------------------

/// A list of aliases that are all string literals gives exactly their values, as many as there are and
/// in their order.
pub proof fn law_alias_lists_are_kept_whole(elements: Seq<ElementView>)
    requires
        forall|i: int| 0 <= i < elements.len() ==> #[trigger] elements[i] is Text,
    ensures
        alias_texts(elements) matches Ok(aliases) && aliases.len() == elements.len() && forall|i: int|
            0 <= i < elements.len() ==> elements[i] == ElementView::Text(#[trigger] aliases[i]),
    decreases elements.len(),
{
    if elements.len() > 0 {
        let first = elements.drop_last();
        assert(forall|i: int| 0 <= i < first.len() ==> first[i] == elements[i]);
        law_alias_lists_are_kept_whole(first);
        assert(elements[elements.len() - 1] is Text);
        let aliases = alias_texts(elements)->Ok_0;
        let before = alias_texts(first)->Ok_0;
        assert forall|i: int| 0 <= i < elements.len() implies elements[i] == ElementView::Text(
            #[trigger] aliases[i],
        ) by {
            if i < first.len() {
                assert(aliases[i] == before[i]);
                assert(first[i] == ElementView::Text(before[i]));
            }
        }
    }
}

/// A list of aliases with another expression is refused for the first such expression.
pub proof fn law_other_aliases_are_refused(elements: Seq<ElementView>, i: int)
    requires
        0 <= i < elements.len(),
        elements[i] is Other,
        forall|k: int| 0 <= k < i ==> #[trigger] elements[k] is Text,
    ensures
        alias_texts(elements) == Err::<Seq<Seq<char>>, ErrorView>(
            ErrorView::Over(ProblemView::AliasNotText, elements[i]->Other_0),
        ),
    decreases elements.len(),
{
    let first = elements.drop_last();
    assert(forall|k: int| 0 <= k < first.len() ==> first[k] == elements[k]);
    if i == elements.len() - 1 {
        law_alias_lists_are_kept_whole(first);
    } else {
        law_other_aliases_are_refused(first, i);
    }
}

// ---------------------------------------------------------------------------
// The items of #[config(...)]
// ---------------------------------------------------------------------------

/// Why an item of `#[config(...)]` is refused, where it is.
pub open spec fn objection(item: ItemView) -> Option<ErrorView> {
    match item {
        ItemView::Key(text) if text.value.len() == 0 => Some(
            ErrorView::At(ProblemView::EmptyKey, text.span),
        ),
        ItemView::Aliases(elements) if exists|i: int|
            0 <= i < elements.len() && #[trigger] elements[i] is Other => Some(
            ErrorView::Over(
                ProblemView::AliasNotText,
                elements[first_other(elements)]->Other_0,
            ),
        ),
        ItemView::Strategy(ident) if ident_text(ident) != "option_string"@ && ident_text(ident)
            != "config_value"@ && ident_text(ident) != "option_config_value_deferred"@ => Some(
            ErrorView::At(ProblemView::UnknownStrategy(ident), ident_span(ident)),
        ),
        ItemView::Formatter(ident) if ident_text(ident) != "to_string"@ && ident_text(ident)
            != "duration"@ => Some(
            ErrorView::At(ProblemView::UnknownFormatter(ident), ident_span(ident)),
        ),
        ItemView::Setter(ident) if ident_text(ident) != "auto"@ && ident_text(ident)
            != "skip"@ => Some(ErrorView::At(ProblemView::UnknownSetter(ident), ident_span(ident))),
        ItemView::Unknown(error) => Some(ErrorView::Syntax(error)),
        _ => None,
    }
}

/// Where the first element stands that is no string literal.
pub open spec fn first_other(elements: Seq<ElementView>) -> int
    decreases elements.len(),
{
    if elements.len() == 0 || elements[0] is Other {
        0
    } else {
        1 + first_other(elements.drop_first())
    }
}

proof fn lemma_first_other(elements: Seq<ElementView>, j: int)
    requires
        0 <= j < elements.len(),
        elements[j] is Other,
    ensures
        0 <= first_other(elements) <= j,
        elements[first_other(elements)] is Other,
        forall|k: int| 0 <= k < first_other(elements) ==> #[trigger] elements[k] is Text,
    decreases elements.len(),
{
    if !(elements[0] is Other) {
        let rest = elements.drop_first();
        assert(rest[j - 1] == elements[j]);
        lemma_first_other(rest, j - 1);
        assert forall|k: int| 0 <= k < first_other(elements) implies #[trigger] elements[k] is Text by {
            if k > 0 {
                assert(rest[k - 1] == elements[k]);
            }
        }
        assert(rest[first_other(rest)] == elements[first_other(elements)]);
    }
}

proof fn lemma_one_item(options: OptionsView, item: ItemView)
    ensures
        match objection(item) {
            Some(error) => config_step(options, item) == Err::<OptionsView, ErrorView>(
                error,
            ),
            None => config_step(options, item) is Ok,
        },
{
    match item {
        ItemView::Strategy(ident) => {
            law_names_of_strategies(ident_text(ident));
        },
        ItemView::Formatter(ident) => {
            law_names_of_formatters(ident_text(ident));
        },
        ItemView::Setter(ident) => {
            law_names_of_setter_modes(ident_text(ident));
        },
        ItemView::Aliases(elements) => {
            if exists|i: int| 0 <= i < elements.len() && #[trigger] elements[i] is Other {
                let j = choose|i: int| 0 <= i < elements.len() && #[trigger] elements[i] is Other;
                lemma_first_other(elements, j);
                law_other_aliases_are_refused(elements, first_other(elements));
            } else {
                law_alias_lists_are_kept_whole(elements);
            }
        },
        _ => {},
    }
}

/// The items of `#[config(...)]` are accepted where there is no objection to any of them.
pub proof fn law_acceptable_items_are_accepted(items: Seq<ItemView>)
    requires
        forall|i: int| 0 <= i < items.len() ==> objection(#[trigger] items[i]) is None,
    ensures
        config_steps(items) is Ok,
    decreases items.len(),
{
    if items.len() > 0 {
        let first = items.drop_last();
        assert(forall|i: int| 0 <= i < first.len() ==> first[i] == items[i]);
        law_acceptable_items_are_accepted(first);
        assert(objection(items[items.len() - 1]) is None);
        lemma_one_item(config_steps(first)->Ok_0, items.last());
    }
}

/// The items of `#[config(...)]` are refused for the first one that there is an objection to, whatever
/// stands behind it.
pub proof fn law_first_objection_is_told(items: Seq<ItemView>, end: Option<syn::Error>, i: int)
    requires
        0 <= i < items.len(),
        objection(items[i]) is Some,
        forall|k: int| 0 <= k < i ==> objection(#[trigger] items[k]) is None,
    ensures
        config_steps(items) == Err::<OptionsView, ErrorView>(objection(items[i]).unwrap()),
        config_options(NestedView { items, end }) == Err::<OptionsView, ErrorView>(
            objection(items[i]).unwrap(),
        ),
    decreases items.len(),
{
    let first = items.drop_last();
    assert(forall|k: int| 0 <= k < first.len() ==> first[k] == items[k]);
    if i == items.len() - 1 {
        law_acceptable_items_are_accepted(first);
        lemma_one_item(config_steps(first)->Ok_0, items.last());
    } else {
        law_first_objection_is_told(first, end, i);
    }
}

/// An error of the reading is told where there is no objection to the items before it; where there is
/// no error either, the items count.
pub proof fn law_end_of_reading(items: Seq<ItemView>, end: Option<syn::Error>)
    requires
        forall|i: int| 0 <= i < items.len() ==> objection(#[trigger] items[i]) is None,
    ensures
        match end {
            Some(error) => config_options(NestedView { items, end }) == Err::<OptionsView, ErrorView>(
                ErrorView::Syntax(error),
            ),
            None => config_options(NestedView { items, end }) == config_steps(items)
                && config_steps(items) is Ok,
        },
{
    law_acceptable_items_are_accepted(items);
}

/// What no item asks for is left at its default.
pub proof fn law_defaults(items: Seq<ItemView>)
    ensures
        config_steps(items) matches Ok(options) ==> {
            &&& options.skip <==> exists|i: int| 0 <= i < items.len() && #[trigger] items[i] is Skip
            &&& (forall|i: int| 0 <= i < items.len() ==> !(#[trigger] items[i] is Key))
                ==> options.key is None
            &&& (forall|i: int| 0 <= i < items.len() ==> !(#[trigger] items[i] is Aliases))
                ==> options.aliases.len() == 0
            &&& (forall|i: int| 0 <= i < items.len() ==> !(#[trigger] items[i] is Strategy))
                ==> options.strategy is None
            &&& (forall|i: int| 0 <= i < items.len() ==> !(#[trigger] items[i] is Formatter))
                ==> options.formatter is None
            &&& (forall|i: int| 0 <= i < items.len() ==> !(#[trigger] items[i] is GetVia))
                ==> options.get_via is None
            &&& (forall|i: int| 0 <= i < items.len() ==> !(#[trigger] items[i] is Variant))
                ==> options.variant is None
            &&& (forall|i: int| 0 <= i < items.len() ==> !(#[trigger] items[i] is Setter))
                ==> options.setter == SetterMode::Auto
            &&& (forall|i: int| 0 <= i < items.len() ==> !(#[trigger] items[i] is SetterName))
                ==> options.setter_name is None
            &&& (forall|i: int| 0 <= i < items.len() ==> !(#[trigger] items[i] is DocInherit))
                ==> options.doc_inherit
        },
    decreases items.len(),
{
    if items.len() > 0 {
        let first = items.drop_last();
        let last = items.len() - 1;
        law_defaults(first);
        assert(forall|i: int| 0 <= i < first.len() ==> first[i] == items[i]);
        assert(items[last] == items.last());
        if let Ok(before) = config_steps(first) {
            if before.skip {
                let k = choose|k: int| 0 <= k < first.len() && #[trigger] first[k] is Skip;
                assert(items[k] is Skip);
            }
            if exists|i: int| 0 <= i < items.len() && #[trigger] items[i] is Skip {
                let k = choose|k: int| 0 <= k < items.len() && #[trigger] items[k] is Skip;
                if k < last {
                    assert(first[k] is Skip);
                }
            }
        }
    }
}

// ---------------------------------------------------------------------------
// The items of #[object_store(...)]
// ---------------------------------------------------------------------------

/// The items of `#[object_store(...)]` are refused only for one of an unknown name, and then for the
/// first such one.
pub proof fn law_store_items_are_accepted(options: StoreOptions, items: Seq<ItemView>)
    ensures
        (forall|i: int| 0 <= i < items.len() ==> !(#[trigger] items[i] is Unknown)) ==> store_steps(
            options,
            items,
        ) is Ok,
        forall|i: int|
            0 <= i < items.len() && #[trigger] items[i] is Unknown && (forall|k: int|
                0 <= k < i ==> !(#[trigger] items[k] is Unknown)) ==> store_steps(options, items)
                == Err::<StoreOptions, ErrorView>(ErrorView::Syntax(items[i]->Unknown_0)),
    decreases items.len(),
{
    if items.len() > 0 {
        let first = items.drop_last();
        law_store_items_are_accepted(options, first);
        assert(forall|i: int| 0 <= i < first.len() ==> first[i] == items[i]);
        assert(items[items.len() - 1] == items.last());
    }
}

/// What no item of `#[object_store(...)]` asks for stays what it was.
pub proof fn law_store_defaults(options: StoreOptions, items: Seq<ItemView>)
    ensures
        store_steps(options, items) matches Ok(after) ==> {
            &&& (forall|i: int| 0 <= i < items.len() ==> !(#[trigger] items[i] is ConfigKey))
                ==> after.config_key == options.config_key
            &&& (forall|i: int| 0 <= i < items.len() ==> !(#[trigger] items[i] is ErrorPath))
                ==> after.error_path == options.error_path
            &&& (forall|i: int| 0 <= i < items.len() ==> !(#[trigger] items[i] is ErrorStore))
                ==> after.error_store == options.error_store
        },
    decreases items.len(),
{
    if items.len() > 0 {
        let first = items.drop_last();
        law_store_defaults(options, first);
        assert(forall|i: int| 0 <= i < first.len() ==> first[i] == items[i]);
        assert(items[items.len() - 1] == items.last());
    }
}

/// The first error of an `#[object_store(...)]` is told: that of an item before that of the reading.
pub proof fn law_end_of_store_reading(options: StoreOptions, nested: NestedView)
    ensures
        match (store_steps(options, nested.items), nested.end) {
            (Err(error), _) => store_options(options, nested) == Err::<StoreOptions, ErrorView>(error),
            (Ok(_), Some(error)) => store_options(options, nested) == Err::<StoreOptions, ErrorView>(
                ErrorView::Syntax(error),
            ),
            (Ok(after), None) => store_options(options, nested) == Ok::<StoreOptions, ErrorView>(after),
        },
{
}

/// Each `#[object_store(...)]` goes on from what those before it ask for.
pub proof fn law_store_attributes_add_up(attrs: Seq<AttrView>, attr: AttrView)
    requires
        attr.name == Some("object_store"@),
    ensures
        match stores(attrs) {
            Ok(options) => stores(attrs.push(attr)) == store_options(
                options,
                nested_items(attr.attribute, Scope::Store),
            ),
            Err(error) => stores(attrs.push(attr)) == Err::<StoreOptions, ErrorView>(error),
        },
{
    assert(attrs.push(attr).drop_last() =~= attrs);
}

/// An attribute of another name changes nothing, wherever it stands.
pub proof fn law_other_attributes_are_passed_over(
    before: Seq<AttrView>,
    attr: AttrView,
    after: Seq<AttrView>,
)
    requires
        attr.name != Some("object_store"@),
    ensures
        stores(before.push(attr) + after) == stores(before + after),
        stores(Seq::empty()) == Ok::<StoreOptions, ErrorView>(
            StoreOptions { config_key: None, error_path: None, error_store: None },
        ),
    decreases after.len(),
{
    let with = before.push(attr) + after;
    let without = before + after;
    if after.len() == 0 {
        assert(with.drop_last() =~= before);
        assert(without =~= before);
    } else {
        law_other_attributes_are_passed_over(before, attr, after.drop_last());
        assert(with.drop_last() =~= before.push(attr) + after.drop_last());
        assert(without.drop_last() =~= before + after.drop_last());
        assert(with.last() == after.last() && without.last() == after.last());
    }
}

/// What the attributes of a struct lead to: the first error, or what is asked for, where both what is
/// required is there.
pub proof fn law_attributes_of_the_struct(definition: DefinitionView)
    ensures
        stores(definition.attrs) matches Err(error) ==> struct_attrs(definition) == Err::<
            StructAttrs,
            ErrorView,
        >(error),
        stores(definition.attrs) matches Ok(options) ==> {
            &&& options.config_key is None ==> struct_attrs(definition) == Err::<
                StructAttrs,
                ErrorView,
            >(ErrorView::Over(ProblemView::NoConfigKey, definition.tokens))
            &&& options.config_key is Some && options.error_path is None ==> struct_attrs(definition)
                == Err::<StructAttrs, ErrorView>(
                ErrorView::Over(ProblemView::NoErrorPath, definition.tokens),
            )
            &&& options.config_key is Some && options.error_path is Some ==> (struct_attrs(
                definition,
            ) matches Ok(attrs) && Some(attrs.config_key) == options.config_key && Some(
                attrs.error_path,
            ) == options.error_path && attrs.error_store == options.error_store)
        },
{
}

// ---------------------------------------------------------------------------
// Reading items
// ---------------------------------------------------------------------------

/// What a value is read as: the item that takes the value, or the value's error.
pub open spec fn as_item<T>(value: Result<T, syn::Error>, item: spec_fn(T) -> ItemView) -> Option<
    Result<ItemView, syn::Error>,
> {
    match value {
        Ok(value) => Some(Ok(item(value))),
        Err(error) => Some(Err(error)),
    }
}

/// The items of `#[object_store(...)]` by their names.
pub proof fn law_items_of_the_struct(meta: ParseNestedMeta<'static>)
    ensures
        ({
            let item = known_item(Scope::Store, meta);
            let key = meta_key(meta);
            &&& key == Some("config_key"@) ==> item == as_item(
                meta_ident(meta),
                |ident: Ident| ItemView::ConfigKey(ident),
            )
            &&& key == Some("error_path"@) ==> item == as_item(
                meta_path(meta),
                |path: TokenStream| ItemView::ErrorPath(path),
            )
            &&& key == Some("error_store"@) ==> item == as_item(
                meta_text(meta),
                |text| ItemView::ErrorStore(text),
            )
            &&& key != Some("config_key"@) && key != Some("error_path"@) && key != Some(
                "error_store"@,
            ) ==> item is None
        }),
{
    reveal_strlit("config_key");
    reveal_strlit("error_path");
    reveal_strlit("error_store");
    assert("config_key"@[0] == 'c');
    assert("error_path"@.len() == 10 && "error_path"@[0] == 'e');
    assert("error_store"@.len() == 11);
}

/// The items of `#[config(...)]` by their names.
pub proof fn law_items_of_a_field(meta: ParseNestedMeta<'static>)
    ensures
        ({
            let item = known_item(Scope::Config, meta);
            let key = meta_key(meta);
            &&& key == Some("skip"@) ==> item == Some(Ok::<ItemView, syn::Error>(ItemView::Skip))
            &&& key == Some("key"@) ==> item == as_item(meta_text(meta), |text| ItemView::Key(text))
            &&& key == Some("aliases"@) ==> item == as_item(
                meta_array(meta),
                |elements| ItemView::Aliases(elements),
            )
            &&& key == Some("strategy"@) ==> item == as_item(
                meta_ident(meta),
                |ident: Ident| ItemView::Strategy(ident),
            )
            &&& key == Some("get_via"@) ==> item == as_item(
                meta_ident(meta),
                |ident: Ident| ItemView::GetVia(ident),
            )
            &&& key == Some("formatter"@) ==> item == as_item(
                meta_ident(meta),
                |ident: Ident| ItemView::Formatter(ident),
            )
            &&& key == Some("variant"@) ==> item == as_item(
                meta_ident(meta),
                |ident: Ident| ItemView::Variant(ident),
            )
            &&& key == Some("setter"@) ==> item == as_item(
                meta_ident(meta),
                |ident: Ident| ItemView::Setter(ident),
            )
            &&& key == Some("setter_name"@) ==> item == as_item(
                meta_ident(meta),
                |ident: Ident| ItemView::SetterName(ident),
            )
            &&& key == Some("doc_inherit"@) ==> item == as_item(
                meta_bool(meta),
                |value: bool| ItemView::DocInherit(value),
            )
            &&& key != Some("skip"@) && key != Some("key"@) && key != Some("aliases"@) && key
                != Some("strategy"@) && key != Some("get_via"@) && key != Some("formatter"@) && key
                != Some("variant"@) && key != Some("setter"@) && key != Some("setter_name"@) && key
                != Some("doc_inherit"@) ==> item is None
        }),
{
    reveal_strlit("skip");
    reveal_strlit("key");
    reveal_strlit("aliases");
    reveal_strlit("strategy");
    reveal_strlit("get_via");
    reveal_strlit("formatter");
    reveal_strlit("variant");
    reveal_strlit("setter");
    reveal_strlit("setter_name");
    reveal_strlit("doc_inherit");
    assert("skip"@.len() == 4);
    assert("key"@.len() == 3);
    assert("aliases"@.len() == 7 && "aliases"@[0] == 'a');
    assert("strategy"@.len() == 8);
    assert("get_via"@.len() == 7 && "get_via"@[0] == 'g');
    assert("formatter"@.len() == 9);
    assert("variant"@.len() == 7 && "variant"@[0] == 'v');
    assert("setter"@.len() == 6);
    assert("setter_name"@.len() == 11 && "setter_name"@[0] == 's');
    assert("doc_inherit"@.len() == 11 && "doc_inherit"@[0] == 'd');
}

/// An attribute is read item by item: what is before the first item that cannot be read is kept, in
/// order and as it is read; an item that cannot be read ends the reading, one of an unknown name as an
/// item of its own; without one the attribute's own end counts.
pub proof fn law_reading_goes_on_to_the_first_error(
    scope: Scope,
    metas: Seq<ParseNestedMeta<'static>>,
    end: Option<syn::Error>,
    n: int,
)
    requires
        0 <= n <= metas.len(),
        forall|i: int| 0 <= i < n ==> (known_item(scope, #[trigger] metas[i]) matches Some(Ok(_))),
        n < metas.len() ==> !(known_item(scope, metas[n]) matches Some(Ok(_))),
    ensures
        ({
            let read = read_all(scope, metas, end);
            let message = match scope {
                Scope::Store => "unknown attribute on #[object_store(...)]"@,
                Scope::Config => "unknown attribute on #[config(...)]"@,
            };
            &&& read.items.len() >= n
            &&& forall|i: int|
                0 <= i < n ==> known_item(scope, #[trigger] metas[i]) == Some(
                    Ok::<ItemView, syn::Error>(read.items[i]),
                )
            &&& if n == metas.len() {
                read.items.len() == n && read.end == end
            } else {
                match known_item(scope, metas[n]) {
                    Some(Err(error)) => read.items.len() == n && read.end == Some(error),
                    _ => {
                        let error = meta_error(metas[n], message);
                        read.items.len() == n + 1 && read.items[n] == ItemView::Unknown(error)
                            && read.end == Some(error)
                    },
                }
            }
        }),
    decreases n,
{
    if n > 0 {
        let rest = metas.drop_first();
        assert(forall|i: int| 0 <= i < rest.len() ==> rest[i] == metas[i + 1]);
        assert(known_item(scope, metas[0]) matches Some(Ok(_)));
        law_reading_goes_on_to_the_first_error(scope, rest, end, n - 1);
        let read = read_all(scope, metas, end);
        let later = read_all(scope, rest, end);
        assert forall|i: int| 0 <= i < n implies known_item(scope, #[trigger] metas[i]) == Some(
            Ok::<ItemView, syn::Error>(read.items[i]),
        ) by {
            if i > 0 {
                assert(rest[i - 1] == metas[i]);
                assert(read.items[i] == later.items[i - 1]);
            }
        }
        if n < metas.len() {
            assert(rest[n - 1] == metas[n]);
        }
    }
}

// ---------------------------------------------------------------------------
// Types
// ---------------------------------------------------------------------------

/// Whether a type is a path that ends in `wrapper<...>` with `inner` for its first argument that is a
/// type.
pub open spec fn wraps(ty: TypeView, wrapper: Seq<char>, inner: TypeView) -> bool {
    &&& ty.tail matches Some(tail)
    &&& tail.name == wrapper
    &&& tail.args matches Some(args)
    &&& exists|i: int|
        0 <= i < args.len() && #[trigger] args[i] == Some(inner) && forall|k: int|
            0 <= k < i ==> #[trigger] args[k] is None
}

proof fn lemma_first_type(args: Seq<Option<TypeView>>, i: int)
    requires
        0 <= i < args.len(),
        args[i] is Some,
        forall|k: int| 0 <= k < i ==> #[trigger] args[k] is None,
    ensures
        first_type(args) == args[i],
    decreases args.len(),
{
    if i > 0 {
        let rest = args.drop_first();
        assert(args[0] is None);
        assert(forall|k: int| 0 <= k < rest.len() ==> rest[k] == args[k + 1]);
        lemma_first_type(rest, i - 1);
    }
}

proof fn lemma_no_type(args: Seq<Option<TypeView>>)
    ensures
        match first_type(args) {
            Some(inner) => exists|i: int|
                0 <= i < args.len() && #[trigger] args[i] == Some(inner) && forall|k: int|
                    0 <= k < i ==> #[trigger] args[k] is None,
            None => forall|i: int| 0 <= i < args.len() ==> #[trigger] args[i] is None,
        },
    decreases args.len(),
{
    if args.len() > 0 {
        let rest = args.drop_first();
        assert(forall|k: int| 0 <= k < rest.len() ==> rest[k] == args[k + 1]);
        if args[0] is Some {
            assert(args[0] == first_type(args));
        } else {
            lemma_no_type(rest);
            match first_type(rest) {
                Some(inner) => {
                    let i = choose|i: int|
                        0 <= i < rest.len() && #[trigger] rest[i] == Some(inner) && forall|k: int|
                            0 <= k < i ==> #[trigger] rest[k] is None;
                    assert(args[i + 1] == Some(inner));
                    assert forall|k: int| 0 <= k < i + 1 implies #[trigger] args[k] is None by {
                        if k > 0 {
                            assert(rest[k - 1] is None);
                        }
                    }
                },
                None => {
                    assert forall|i: int| 0 <= i < args.len() implies #[trigger] args[i] is None by {
                        if i > 0 {
                            assert(rest[i - 1] is None);
                        }
                    }
                },
            }
        }
    }
}

/// The argument of a type is found exactly where the type wraps one.
pub proof fn law_arguments_of_types(ty: TypeView, wrapper: Seq<char>, inner: TypeView)
    ensures
        type_argument(ty, wrapper) == Some(inner) <==> wraps(ty, wrapper, inner),
{
    if let Some(tail) = ty.tail {
        if let Some(args) = tail.args {
            lemma_no_type(args);
            if wraps(ty, wrapper, inner) {
                let i = choose|i: int|
                    0 <= i < args.len() && #[trigger] args[i] == Some(inner) && forall|k: int|
                        0 <= k < i ==> #[trigger] args[k] is None;
                lemma_first_type(args, i);
            }
        }
    }
}

/// `Option<ConfigValue<T>>` is kept to be parsed later, whatever `T` is; it is written as a duration
/// where `T` is a path that ends in `Duration`, and only there.
pub proof fn law_deferred_values_are_inferred(ty: TypeView, value: TypeView, inner: TypeView)
    requires
        wraps(ty, "Option"@, value),
        wraps(value, "ConfigValue"@, inner),
    ensures
        inferred_strategy(ty) == Some(Strategy::OptionConfigValueDeferred),
        inferred_formatter(Strategy::OptionConfigValueDeferred, ty) == Formatter::Duration <==> (
        inner.tail matches Some(tail) && tail.name == "Duration"@),
        option_config_value_inner(ty) == Ok::<TypeView, ErrorView>(inner),
{
    law_arguments_of_types(ty, "Option"@, value);
    law_arguments_of_types(value, "ConfigValue"@, inner);
}

/// `Option<String>` keeps the text itself.
pub proof fn law_texts_are_inferred(ty: TypeView, text: TypeView)
    requires
        wraps(ty, "Option"@, text),
        text.tail matches Some(tail) && tail.name == "String"@,
    ensures
        inferred_strategy(ty) == Some(Strategy::OptionString),
        forall|strategy: Strategy| inferred_formatter(strategy, ty) == Formatter::ToString,
{
    law_arguments_of_types(ty, "Option"@, text);
    reveal_strlit("String");
    reveal_strlit("ConfigValue");
    assert("String"@.len() == 6);
    assert("ConfigValue"@.len() == 11);
}

/// `ConfigValue<T>` is parsed by the value, whatever `T` is.
pub proof fn law_config_values_are_inferred(ty: TypeView, inner: TypeView)
    requires
        wraps(ty, "ConfigValue"@, inner),
    ensures
        inferred_strategy(ty) == Some(Strategy::ConfigValue),
        config_value_inner(ty) == Ok::<TypeView, ErrorView>(inner),
{
    law_arguments_of_types(ty, "ConfigValue"@, inner);
    reveal_strlit("Option");
    reveal_strlit("ConfigValue");
    assert("Option"@.len() == 6);
    assert("ConfigValue"@.len() == 11);
}

/// No other type tells a strategy.
pub proof fn law_other_types_tell_nothing(ty: TypeView)
    requires
        forall|inner: TypeView| !#[trigger] wraps(ty, "ConfigValue"@, inner),
        forall|value: TypeView, inner: TypeView|
            !(#[trigger] wraps(ty, "Option"@, value) && #[trigger] wraps(
                value,
                "ConfigValue"@,
                inner,
            )),
        forall|value: TypeView| #[trigger]
            wraps(ty, "Option"@, value) ==> !(value.tail matches Some(tail) && tail.name
                == "String"@),
    ensures
        inferred_strategy(ty) is None,
        forall|strategy: Strategy| inferred_formatter(strategy, ty) == Formatter::ToString,
        config_value_inner(ty) == Err::<TypeView, ErrorView>(
            ErrorView::Over(ProblemView::NotConfigValue, ty.tokens),
        ),
{
    if let Some(inner) = type_argument(ty, "ConfigValue"@) {
        law_arguments_of_types(ty, "ConfigValue"@, inner);
    }
    if let Some(value) = type_argument(ty, "Option"@) {
        law_arguments_of_types(ty, "Option"@, value);
        if let Some(inner) = type_argument(value, "ConfigValue"@) {
            law_arguments_of_types(value, "ConfigValue"@, inner);
        }
    }
}

/// Only a value that is kept to be parsed later is written as a duration.
pub proof fn law_other_strategies_write_no_duration(strategy: Strategy, ty: TypeView)
    requires
        strategy != Strategy::OptionConfigValueDeferred,
    ensures
        inferred_formatter(strategy, ty) == Formatter::ToString,
{
}

/// Where a setter cannot have its type, the type that is not as it should be is told.
pub proof fn law_types_without_an_argument(ty: TypeView)
    ensures
        (forall|inner: TypeView| !#[trigger] wraps(ty, "ConfigValue"@, inner)) ==> config_value_inner(ty)
            == Err::<TypeView, ErrorView>(ErrorView::Over(ProblemView::NotConfigValue, ty.tokens)),
        (forall|value: TypeView| !#[trigger] wraps(ty, "Option"@, value)) ==> option_config_value_inner(
            ty,
        ) == Err::<TypeView, ErrorView>(ErrorView::Over(ProblemView::NotOption, ty.tokens)),
        forall|value: TypeView| #[trigger]
            wraps(ty, "Option"@, value) && (forall|inner: TypeView|
                !#[trigger] wraps(value, "ConfigValue"@, inner)) ==> option_config_value_inner(ty)
                == Err::<TypeView, ErrorView>(
                ErrorView::Over(ProblemView::NotConfigValue, value.tokens),
            ),
{
    if let Some(inner) = type_argument(ty, "ConfigValue"@) {
        law_arguments_of_types(ty, "ConfigValue"@, inner);
    }
    if let Some(value) = type_argument(ty, "Option"@) {
        law_arguments_of_types(ty, "Option"@, value);
    }
    assert forall|value: TypeView| #[trigger]
        wraps(ty, "Option"@, value) && (forall|inner: TypeView|
            !#[trigger] wraps(value, "ConfigValue"@, inner)) implies option_config_value_inner(ty)
        == Err::<TypeView, ErrorView>(ErrorView::Over(ProblemView::NotConfigValue, value.tokens)) by {
        law_arguments_of_types(ty, "Option"@, value);
        if let Some(inner) = type_argument(value, "ConfigValue"@) {
            law_arguments_of_types(value, "ConfigValue"@, inner);
        }
    }
}

// ---------------------------------------------------------------------------
// Fields
// ---------------------------------------------------------------------------

/// A field has no `#[config]` exactly where no attribute has that name.
pub proof fn law_fields_without_config(attrs: Seq<AttrView>)
    ensures
        (forall|i: int| 0 <= i < attrs.len() ==> (#[trigger] attrs[i]).name != Some("config"@))
            <==> config_attr(attrs) == Ok::<Option<AttrView>, ErrorView>(None),
    decreases attrs.len(),
{
    if attrs.len() > 0 {
        let first = attrs.drop_last();
        let n = attrs.len() - 1;
        law_fields_without_config(first);
        assert(attrs[n] == attrs.last());
        if forall|i: int| 0 <= i < attrs.len() ==> (#[trigger] attrs[i]).name != Some("config"@) {
            assert forall|k: int| 0 <= k < first.len() implies (#[trigger] first[k]).name != Some(
                "config"@,
            ) by {
                assert(first[k] == attrs[k]);
            }
        }
        if config_attr(attrs) == Ok::<Option<AttrView>, ErrorView>(None) {
            assert forall|i: int| 0 <= i < attrs.len() implies (#[trigger] attrs[i]).name != Some(
                "config"@,
            ) by {
                if i < n {
                    assert(first[i] == attrs[i]);
                }
            }
        }
    }
}

/// The `#[config]` of a field is the only attribute of that name, wherever it stands.
pub proof fn law_only_config_counts(attrs: Seq<AttrView>, i: int)
    requires
        0 <= i < attrs.len(),
        attrs[i].name == Some("config"@),
        forall|k: int|
            0 <= k < attrs.len() && k != i ==> (#[trigger] attrs[k]).name != Some("config"@),
    ensures
        config_attr(attrs) == Ok::<Option<AttrView>, ErrorView>(Some(attrs[i])),
    decreases attrs.len(),
{
    let first = attrs.drop_last();
    let n = attrs.len() - 1;
    assert forall|k: int| 0 <= k < first.len() && k != i implies (#[trigger] first[k]).name != Some(
        "config"@,
    ) by {
        assert(first[k] == attrs[k]);
    }
    if i < n {
        assert(first[i] == attrs[i]);
        assert(attrs[n].name != Some("config"@));
        law_only_config_counts(first, i);
    } else {
        law_fields_without_config(first);
    }
}

/// A second `#[config]` is refused, whatever stands behind it.
pub proof fn law_second_config_is_refused(attrs: Seq<AttrView>, i: int, j: int)
    requires
        0 <= i < j < attrs.len(),
        attrs[i].name == Some("config"@),
        attrs[j].name == Some("config"@),
        forall|k: int| 0 <= k < j && k != i ==> (#[trigger] attrs[k]).name != Some("config"@),
    ensures
        config_attr(attrs) == Err::<Option<AttrView>, ErrorView>(
            ErrorView::Over(ProblemView::SecondConfig, attrs[j].tokens),
        ),
    decreases attrs.len(),
{
    let first = attrs.drop_last();
    assert forall|k: int| 0 <= k < j && k != i && k < first.len() implies (
    #[trigger] first[k]).name != Some("config"@) by {
        assert(first[k] == attrs[k]);
    }
    assert(first[i] == attrs[i]);
    if j < first.len() {
        assert(first[j] == attrs[j]);
        law_second_config_is_refused(first, i, j);
    } else {
        law_only_config_counts(first, i);
    }
}

/// What a `#[config]` asks for: nothing where there is none, nothing where it has no list of items,
/// else what its items ask for.
pub proof fn law_options_of_attributes(config: Option<AttrView>)
    ensures
        config is None ==> attr_options(config) == config_steps(Seq::empty()),
        config matches Some(attr) ==> {
            &&& !attr.list ==> attr_options(config) == config_steps(Seq::empty())
            &&& attr.list ==> attr_options(config) == config_options(
                nested_items(attr.attribute, Scope::Config),
            )
        },
{
}

/// What a field gets of its `#[config]`, whatever its strategy, its type and the other items are: each
/// value that is given counts, and where none is given the default does. The key is the field's name,
/// the variant its Pascal case, and the setter `with_` and the name, each at the name's place.
pub proof fn law_fields_get_what_is_asked_for(field: FieldView)
    ensures
        field_attrs(field) matches Ok(Some(attrs)) ==> {
            &&& field.ident matches Some(ident)
            &&& config_attr(field.attrs) matches Ok(config)
            &&& attr_options(config) matches Ok(options)
            &&& options.key matches Some(text) ==> attrs.key == text.value && attrs.key_span
                == text.span
            &&& options.key is None ==> attrs.key == ident_text(ident) && attrs.key_span
                == ident_span(ident)
            &&& attrs.aliases == options.aliases
            &&& options.strategy matches Some(given) ==> attrs.strategy == given.0
            &&& options.strategy is None ==> inferred_strategy(field.ty) == Some(attrs.strategy)
            &&& options.formatter matches Some(given) ==> attrs.formatter == given
            &&& options.formatter is None ==> attrs.formatter == inferred_formatter(
                attrs.strategy,
                field.ty,
            )
            &&& attrs.get_via == options.get_via
            &&& options.variant matches Some(given) ==> attrs.variant == NameView::Given(given)
            &&& options.variant is None ==> attrs.variant == NameView::Made(
                pascal(ident_text(ident)),
                ident_span(ident),
            )
            &&& attrs.setter == options.setter
            &&& options.setter_name matches Some(given) ==> attrs.setter_name == NameView::Given(
                given,
            )
            &&& options.setter_name is None ==> attrs.setter_name == NameView::Made(
                "with_"@ + unraw(ident_text(ident)),
                ident_span(ident),
            )
            &&& attrs.doc_inherit == options.doc_inherit
            &&& picks(field.attrs, "cfg"@, attrs.cfg_attrs)
            &&& picks(field.attrs, "doc"@, attrs.docs)
        },
{
    lemma_picks(field.attrs, "cfg"@);
    lemma_picks(field.attrs, "doc"@);
}

/// Whether the streams are the tokens of the attributes of a name: as many as there are such
/// attributes before each place, each at its place.
pub open spec fn picks(attrs: Seq<AttrView>, name: Seq<char>, streams: Seq<TokenStream>) -> bool {
    &&& streams.len() == occurrences(attrs, name)
    &&& forall|i: int|
        0 <= i < attrs.len() && (#[trigger] attrs[i]).name == Some(name) ==> 0 <= occurrences(
            attrs.take(i),
            name,
        ) < streams.len() && streams[occurrences(attrs.take(i), name)] == attrs[i].tokens
}

/// How many attributes have a name.
pub open spec fn occurrences(attrs: Seq<AttrView>, name: Seq<char>) -> int
    decreases attrs.len(),
{
    if attrs.len() == 0 {
        0
    } else if attrs.last().name == Some(name) {
        occurrences(attrs.drop_last(), name) + 1
    } else {
        occurrences(attrs.drop_last(), name)
    }
}

proof fn lemma_picks(attrs: Seq<AttrView>, name: Seq<char>)
    ensures
        picks(attrs, name, tokens_named(attrs, name)),
    decreases attrs.len(),
{
    if attrs.len() > 0 {
        let first = attrs.drop_last();
        lemma_picks(first, name);
        let streams = tokens_named(attrs, name);
        assert forall|i: int| 0 <= i < attrs.len() && (#[trigger] attrs[i]).name == Some(name) implies 0
            <= occurrences(attrs.take(i), name) < streams.len() && streams[occurrences(
            attrs.take(i),
            name,
        )] == attrs[i].tokens by {
            if i < first.len() {
                assert(first[i] == attrs[i]);
                assert(first.take(i) =~= attrs.take(i));
            } else {
                assert(attrs.take(i) =~= first);
            }
        }
    }
}

/// What becomes of a field, in the order in which it is decided: a field without a name is refused, so
/// is a second `#[config]`, so is what its items are refused for; a field that is to be skipped takes no
/// part; one without a strategy takes no part where it has no `#[config]` and is refused where it has
/// one; a formatter is refused for another strategy than `option_config_value_deferred`, at the place of
/// the given strategy or of the type; every other field takes part.
pub proof fn law_what_becomes_of_a_field(field: FieldView)
    ensures
        field.ident is None ==> field_attrs(field) == Err::<Option<FieldAttrsView>, ErrorView>(
            ErrorView::At(ProblemView::NamelessField, field.span),
        ),
        field.ident is Some ==> {
            let config = config_attr(field.attrs);
            &&& config matches Err(error) ==> field_attrs(field) == Err::<
                Option<FieldAttrsView>,
                ErrorView,
            >(error)
            &&& config matches Ok(config) ==> {
                &&& attr_options(config) matches Err(error) ==> field_attrs(field) == Err::<
                    Option<FieldAttrsView>,
                    ErrorView,
                >(error)
                &&& attr_options(config) matches Ok(options) ==> {
                    let told = options.strategy is Some || inferred_strategy(field.ty) is Some;
                    let deferred = match options.strategy {
                        Some(given) => given.0 == Strategy::OptionConfigValueDeferred,
                        None => inferred_strategy(field.ty) == Some(
                            Strategy::OptionConfigValueDeferred,
                        ),
                    };
                    &&& options.skip ==> field_attrs(field) == Ok::<
                        Option<FieldAttrsView>,
                        ErrorView,
                    >(None)
                    &&& !options.skip && !told && config is None ==> field_attrs(field) == Ok::<
                        Option<FieldAttrsView>,
                        ErrorView,
                    >(None)
                    &&& !options.skip && !told && config is Some ==> field_attrs(field) == Err::<
                        Option<FieldAttrsView>,
                        ErrorView,
                    >(ErrorView::Over(ProblemView::NoStrategy, field.ty.tokens))
                    &&& !options.skip && told && options.formatter is Some && !deferred
                        ==> field_attrs(field) == Err::<Option<FieldAttrsView>, ErrorView>(
                        ErrorView::At(
                            ProblemView::MisplacedFormatter,
                            if options.strategy is Some {
                                options.strategy.unwrap().1
                            } else {
                                field.ty.span
                            },
                        ),
                    )
                    &&& !options.skip && told && (options.formatter is None || deferred)
                        ==> field_attrs(field) matches Ok(Some(_))
                }
            }
        },
{
}

/// The same of the decision alone, which takes what a `#[config]` asks for, or the defaults.
pub proof fn law_decisions_give_what_is_asked_for(
    field: FieldView,
    ident: Ident,
    opted_in: bool,
    options: OptionsView,
)
    ensures
        resolved(field, ident, opted_in, options) matches Ok(Some(attrs)) ==> {
            &&& !options.skip
            &&& attrs.key == if options.key is Some {
                options.key.unwrap().value
            } else {
                ident_text(ident)
            }
            &&& attrs.aliases == options.aliases
            &&& attrs.get_via == options.get_via
            &&& attrs.setter == options.setter
            &&& attrs.doc_inherit == options.doc_inherit
            &&& options.variant matches Some(given) ==> attrs.variant == NameView::Given(given)
            &&& options.setter_name matches Some(given) ==> attrs.setter_name == NameView::Given(
                given,
            )
            &&& options.strategy matches Some(given) ==> attrs.strategy == given.0
            &&& options.formatter matches Some(given) ==> attrs.formatter == given
        },
        options.skip ==> resolved(field, ident, opted_in, options) == Ok::<
            Option<FieldAttrsView>,
            ErrorView,
        >(None),
        !options.skip && options.strategy is Some && options.formatter is None ==> (resolved(
            field,
            ident,
            opted_in,
            options,
        ) matches Ok(Some(_))),
{
}

// ---------------------------------------------------------------------------
// Keys
// ---------------------------------------------------------------------------

/// The keys of a field are its own key and then all its aliases, in order.
pub proof fn law_keys_of_a_field(attrs: FieldAttrsView)
    ensures
        keys(attrs).len() == attrs.aliases.len() + 1,
        keys(attrs)[0] == attrs.key,
        forall|i: int|
            0 <= i < attrs.aliases.len() ==> keys(attrs)[i + 1] == #[trigger] attrs.aliases[i],
{
}

/// The key at a place among the keys of several fields: that of the field and of the place in it.
proof fn lemma_placed(fields: Seq<FieldDefView>, p: int) -> (at: (int, int))
    requires
        0 <= p < all_keys(fields).len(),
    ensures
        0 <= at.0 < fields.len(),
        0 <= at.1 < keys(fields[at.0].attrs).len(),
        p == offset(fields, at.0) + at.1,
        all_keys(fields)[p] == (keys(fields[at.0].attrs)[at.1], fields[at.0].attrs.key_span),
    decreases fields.len(),
{
    let first = fields.drop_last();
    let n = fields.len() - 1;
    if p < all_keys(first).len() {
        let at = lemma_placed(first, p);
        assert(first.take(at.0) =~= fields.take(at.0));
        assert(first[at.0] == fields[at.0]);
        at
    } else {
        assert(fields.take(n) =~= first);
        (n, p - all_keys(first).len())
    }
}

/// Whether one key stands before another: in an earlier field, or earlier in the same field.
pub open spec fn before(i: int, a: int, j: int, b: int) -> bool {
    i < j || (i == j && a < b)
}

/// A repeated key is found exactly where two keys or aliases of the fields are the same, be it in one
/// field or in two.
pub proof fn law_repeated_keys_of_fields(fields: Seq<FieldDefView>)
    ensures
        repeated(all_keys(fields)) is Some <==> exists|i: int, a: int, j: int, b: int|
            same_keys(fields, i, a, j, b),
{
    let placed = all_keys(fields);
    law_repeated_keys(placed);
    if repeated(placed) is Some {
        let (p, q) = choose|p: int, q: int|
            0 <= p < q < placed.len() && (#[trigger] placed[p]).0 == (#[trigger] placed[q]).0;
        let (i, a) = lemma_placed(fields, p);
        let (j, b) = lemma_placed(fields, q);
        lemma_before(fields, i, a, j, b);
        assert(same_keys(fields, i, a, j, b));
    }
    if exists|i: int, a: int, j: int, b: int| same_keys(fields, i, a, j, b) {
        let (i, a, j, b) = choose|i: int, a: int, j: int, b: int| same_keys(fields, i, a, j, b);
        lemma_offset(fields, i);
        lemma_offset(fields, j);
        lemma_before(fields, i, a, j, b);
        let p = offset(fields, i) + a;
        let q = offset(fields, j) + b;
        assert(placed[p].0 == keys(fields[i].attrs)[a]);
        assert(placed[q].0 == keys(fields[j].attrs)[b]);
    }
}

/// Whether a key of one field is the same as a later one.
pub open spec fn same_keys(fields: Seq<FieldDefView>, i: int, a: int, j: int, b: int) -> bool {
    &&& 0 <= i < fields.len()
    &&& 0 <= j < fields.len()
    &&& 0 <= a <= fields[i].attrs.aliases.len()
    &&& 0 <= b <= fields[j].attrs.aliases.len()
    &&& before(i, a, j, b)
    &&& key_at(fields[i].attrs, a) == key_at(fields[j].attrs, b)
}

/// The key of a field, or one of its aliases, which are counted from one.
pub open spec fn key_at(attrs: FieldAttrsView, a: int) -> Seq<char> {
    if a == 0 {
        attrs.key
    } else {
        attrs.aliases[a - 1]
    }
}

/// Keys stand in the order of their fields and of their places in them.
proof fn lemma_before(fields: Seq<FieldDefView>, i: int, a: int, j: int, b: int)
    requires
        0 <= i < fields.len(),
        0 <= j < fields.len(),
        0 <= a < keys(fields[i].attrs).len(),
        0 <= b < keys(fields[j].attrs).len(),
    ensures
        before(i, a, j, b) <==> offset(fields, i) + a < offset(fields, j) + b,
        keys(fields[i].attrs)[a] == key_at(fields[i].attrs, a),
        keys(fields[j].attrs)[b] == key_at(fields[j].attrs, b),
{
    lemma_offset(fields, i);
    lemma_offset(fields, j);
    if i < j {
        lemma_offset_order(fields, i + 1, j);
    } else if j < i {
        lemma_offset_order(fields, j + 1, i);
    }
}

/// The report of a repeated key names the key, the place of the field that gives it again and the place
/// of the field that gives it first; no key before it is repeated.
pub proof fn law_report_of_repeated_keys(fields: Seq<FieldDefView>)
    ensures
        repeated(all_keys(fields)) matches Some(error) ==> exists|i: int, a: int, j: int, b: int|
            #[trigger] same_keys(fields, i, a, j, b) && error == ErrorView::At(
                ProblemView::RepeatedKey(
                    key_at(fields[j].attrs, b),
                    fields[i].attrs.key_span,
                ),
                fields[j].attrs.key_span,
            ) && (forall|k: int, c: int, l: int, d: int| #[trigger]
                same_keys(fields, k, c, l, d) ==> !before(l, d, j, b)),
{
    let placed = all_keys(fields);
    if let Some(error) = repeated(placed) {
        law_repeated_report(placed);
        let (p, q) = choose|p: int, q: int|
            0 <= p < q < placed.len() && (#[trigger] placed[p]).0 == (#[trigger] placed[q]).0
                && distinct(placed.take(q)) && error == ErrorView::At(
                ProblemView::RepeatedKey(placed[q].0, placed[p].1),
                placed[q].1,
            );
        let (i, a) = lemma_placed(fields, p);
        let (j, b) = lemma_placed(fields, q);
        lemma_before(fields, i, a, j, b);
        assert(same_keys(fields, i, a, j, b));
        assert forall|k: int, c: int, l: int, d: int| #[trigger]
            same_keys(fields, k, c, l, d) implies !before(l, d, j, b) by {
            lemma_before(fields, k, c, l, d);
            lemma_before(fields, l, d, j, b);
            lemma_offset(fields, k);
            lemma_offset(fields, l);
            if before(l, d, j, b) {
                let u = offset(fields, k) + c;
                let v = offset(fields, l) + d;
                assert(placed[u].0 == keys(fields[k].attrs)[c]);
                assert(placed[v].0 == keys(fields[l].attrs)[d]);
                assert(placed.take(q)[u] == placed[u] && placed.take(q)[v] == placed[v]);
            }
        }
    }
}

// ---------------------------------------------------------------------------
// Definitions
// ---------------------------------------------------------------------------

/// The fields of a definition are accepted where each of them is, and refused for the first that is
/// not.
pub proof fn law_first_refused_field_is_told(fields: Seq<FieldView>)
    ensures
        (forall|i: int| 0 <= i < fields.len() ==> field_attrs(#[trigger] fields[i]) is Ok)
            <==> field_defs(fields) is Ok,
        forall|i: int|
            0 <= i < fields.len() && field_attrs(#[trigger] fields[i]) is Err && (forall|k: int|
                0 <= k < i ==> field_attrs(#[trigger] fields[k]) is Ok) ==> field_defs(fields)
                == Err::<Seq<FieldDefView>, ErrorView>(field_attrs(fields[i])->Err_0),
    decreases fields.len(),
{
    if fields.len() > 0 {
        let first = fields.drop_last();
        let n = fields.len() - 1;
        law_first_refused_field_is_told(first);
        assert(forall|i: int| 0 <= i < first.len() ==> first[i] == fields[i]);
        assert(fields[n] == fields.last());
        assert forall|i: int|
            0 <= i < fields.len() && field_attrs(#[trigger] fields[i]) is Err && (forall|k: int|
                0 <= k < i ==> field_attrs(#[trigger] fields[k]) is Ok) implies field_defs(fields)
            == Err::<Seq<FieldDefView>, ErrorView>(field_attrs(fields[i])->Err_0) by {
            if i < n {
                assert(first[i] == fields[i]);
                assert forall|k: int| 0 <= k < i implies field_attrs(#[trigger] first[k]) is Ok by {
                    assert(first[k] == fields[k]);
                }
            } else {
                assert forall|k: int| 0 <= k < first.len() implies field_attrs(
                    #[trigger] first[k],
                ) is Ok by {
                    assert(first[k] == fields[k]);
                }
            }
        }
        if forall|i: int| 0 <= i < fields.len() ==> field_attrs(#[trigger] fields[i]) is Ok {
            assert forall|k: int| 0 <= k < first.len() implies field_attrs(
                #[trigger] first[k],
            ) is Ok by {
                assert(first[k] == fields[k]);
            }
            assert(field_attrs(fields[n]) is Ok);
        }
        if field_defs(fields) is Ok {
            assert forall|i: int| 0 <= i < fields.len() implies field_attrs(
                #[trigger] fields[i],
            ) is Ok by {
                if i < n {
                    assert(first[i] == fields[i]);
                }
            }
        }
    }
}

/// What becomes of a definition, in the order in which it is decided: the attributes of the struct, what
/// the item is, its fields, whether one takes part, whether a key is repeated. An accepted definition is
/// planned with the attributes of the struct and all fields that take part.
pub proof fn law_what_becomes_of_a_definition(definition: DefinitionView)
    ensures
        struct_attrs(definition) matches Err(error) ==> planned(definition) == Err::<
            PlanView,
            ErrorView,
        >(error),
        struct_attrs(definition) matches Ok(attrs) ==> {
            &&& definition.body is NotStruct ==> planned(definition) == Err::<PlanView, ErrorView>(
                ErrorView::Over(ProblemView::NotStruct, definition.tokens),
            )
            &&& definition.body is Nameless ==> planned(definition) == Err::<PlanView, ErrorView>(
                ErrorView::Over(ProblemView::NamelessFields, definition.tokens),
            )
            &&& definition.body matches BodyView::Named(fields) ==> {
                &&& field_defs(fields) matches Err(error) ==> planned(definition) == Err::<
                    PlanView,
                    ErrorView,
                >(error)
                &&& field_defs(fields) matches Ok(defs) ==> {
                    &&& defs.len() == 0 ==> planned(definition) == Err::<PlanView, ErrorView>(
                        ErrorView::Over(ProblemView::NoConfigField, definition.tokens),
                    )
                    &&& defs.len() > 0 ==> match repeated(all_keys(defs)) {
                        Some(error) => planned(definition) == Err::<PlanView, ErrorView>(error),
                        None => planned(definition) == Ok::<PlanView, ErrorView>(
                            PlanView { struct_attrs: attrs, fields: defs },
                        ),
                    }
                }
            }
        },
{
}

/// What is generated for a planned definition: the enum, `AsRef`, `FromStr`, the access by key and the
/// setters, in this order, for the attributes of the struct and the fields of the plan; or the first
/// error of a setter.
pub proof fn law_what_is_generated(definition: DefinitionView)
    ensures
        planned(definition) matches Err(error) ==> expansion(definition) == Err::<
            Seq<Token>,
            ErrorView,
        >(error),
        planned(definition) matches Ok(plan) ==> match setter_codes(plan.fields) {
            Err(error) => expansion(definition) == Err::<Seq<Token>, ErrorView>(error),
            Ok(_) => expansion(definition) == Ok::<Seq<Token>, ErrorView>(
                enum_code(definition.ident, plan.struct_attrs, plan.fields) + asref_code(
                    plan.struct_attrs,
                    plan.fields,
                ) + fromstr_code(plan.struct_attrs, plan.fields) + dispatch_code(
                    definition.ident,
                    plan.struct_attrs,
                    plan.fields,
                ) + setters_code(definition.ident, plan.fields)->Ok_0,
            ),
        },
{
}

// ---------------------------------------------------------------------------
// Names
// ---------------------------------------------------------------------------

/// The ASCII upper case of a character: of a lower-case letter the letter that stands as far behind
/// `A` as it stands behind `a`, of every other character the character itself.
pub proof fn law_upper_case(c: char)
    ensures
        'a' <= c <= 'z' ==> upper(c) as u32 - 'A' as u32 == c as u32 - 'a' as u32,
        !('a' <= c <= 'z') ==> upper(c) == c,
{
}

/// How many characters of a text are no underscore.
pub open spec fn letters(text: Seq<char>) -> int
    decreases text.len(),
{
    if text.len() == 0 {
        0
    } else if text.last() == '_' {
        letters(text.drop_last())
    } else {
        letters(text.drop_last()) + 1
    }
}

/// The Pascal case of a text keeps every character that is no underscore, in order; a character at the
/// start or behind an underscore in upper case, every other one as it is.
pub proof fn law_pascal_case_keeps_every_character(text: Seq<char>)
    ensures
        pascal(text).len() == letters(text),
        forall|i: int|
            0 <= i < text.len() && #[trigger] text[i] != '_' ==> 0 <= letters(text.take(i))
                < pascal(text).len() && pascal(text)[letters(text.take(i))] == if i == 0 || text[i
                - 1] == '_' {
                upper(text[i])
            } else {
                text[i]
            },
    decreases text.len(),
{
    if text.len() > 0 {
        let first = text.drop_last();
        law_pascal_case_keeps_every_character(first);
        assert forall|i: int| 0 <= i < text.len() && #[trigger] text[i] != '_' implies 0 <= letters(
            text.take(i),
        ) < pascal(text).len() && pascal(text)[letters(text.take(i))] == if i == 0 || text[i - 1]
            == '_' {
            upper(text[i])
        } else {
            text[i]
        } by {
            if i < first.len() {
                assert(first[i] == text[i]);
                assert(first.take(i) =~= text.take(i));
                if i > 0 {
                    assert(first[i - 1] == text[i - 1]);
                }
            } else {
                assert(text.take(i) =~= first);
            }
        }
    }
}

/// The `r#` of a raw identifier is taken off, and nothing else.
pub proof fn law_raw_names(text: Seq<char>)
    ensures
        unraw("r#"@ + text) == text,
        !(text.len() >= 2 && text[0] == 'r' && text[1] == '#') ==> unraw(text) == text,
{
    reveal_strlit("r#");
    assert(("r#"@ + text).skip(2) =~= text);
}

/// A text is an identifier exactly where it is not empty, starts with an underscore or a letter, and
/// goes on with underscores, letters and digits. Outside of ASCII the properties `XID_Start` and
/// `XID_Continue` tell the letters and digits.
pub proof fn law_identifiers(text: Seq<char>)
    ensures
        legal_ident(text) <==> text.len() > 0 && ({
            let c = text[0];
            c == '_' || 'a' <= c <= 'z' || 'A' <= c <= 'Z' || (c > '\x7f' && xid_start(c))
        }) && forall|i: int|
            0 < i < text.len() ==> ({
                let c = #[trigger] text[i];
                c == '_' || 'a' <= c <= 'z' || 'A' <= c <= 'Z' || '0' <= c <= '9' || (c > '\x7f'
                    && xid_continue(c))
            }),
{
    assert(forall|c: char| #[trigger] ident_continue(c) ==> (c == '_' || 'a' <= c <= 'z' || 'A' <= c
        <= 'Z' || '0' <= c <= '9' || (c > '\x7f' && xid_continue(c))));
    if legal_ident(text) {
        assert forall|i: int| 0 < i < text.len() implies ({
            let c = #[trigger] text[i];
            c == '_' || 'a' <= c <= 'z' || 'A' <= c <= 'Z' || '0' <= c <= '9' || (c > '\x7f'
                && xid_continue(c))
        }) by {
            assert(ident_continue(text[i]));
        }
    }
}

} // verus!
