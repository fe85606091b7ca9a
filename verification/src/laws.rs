//! What holds of every definition, and of the keys, names and attributes in it.

use crate::code::Token;
use crate::config::{
    alias_texts, config_options, config_step, config_steps, formatter_named, setter_named,
    strategy_named, OptionsView,
};
use crate::derive::{derivable, made_names_legal};
use crate::errors::{ErrorView, ProblemView};
use crate::expand::{expansion, field_defs, planned};
use crate::fields::{attr_options, config_attr, field_attrs, resolved, FieldAttrsView, FieldDefView};
use crate::generate::{setter_code, setter_type};
use crate::infer::{inferred_formatter, inferred_strategy, Formatter, Strategy};
use crate::items::{handed, known_item, nested_items, read_all, ItemView, NestedView, Scope};
use crate::keys::{all_keys, keys, place_of, placed_keys, repeated};
use crate::names::{ident_continue, legal_ident, pascal, unraw, upper};
use crate::store::{store_options, store_steps, stores, StoreOptions};
use crate::syntax::{input_view, parsed_input, AttrView, BodyView, DefinitionView, FieldView};
use crate::tokens::{ident_span, ident_text};
use proc_macro2::{Ident, Span, TokenStream};
use syn::meta::ParseNestedMeta;
use vstd::prelude::*;

verus! {

// ---------------------------------------------------------------------------
// Keys
// ---------------------------------------------------------------------------

/// Whether no two of several keys are the same.
pub open spec fn distinct(placed: Seq<(Seq<char>, Span)>) -> bool {
    forall|i: int, j: int|
        0 <= i < j < placed.len() ==> (#[trigger] placed[i]).0 != (#[trigger] placed[j]).0
}

/// A key has a place where it is one of the keys.
proof fn lemma_place(placed: Seq<(Seq<char>, Span)>, key: Seq<char>)
    ensures
        match place_of(placed, key) {
            Some(span) => exists|i: int|
                0 <= i < placed.len() && #[trigger] placed[i] == (key, span) && forall|k: int|
                    0 <= k < i ==> (#[trigger] placed[k]).0 != key,
            None => forall|i: int| 0 <= i < placed.len() ==> (#[trigger] placed[i]).0 != key,
        },
    decreases placed.len(),
{
    if placed.len() > 0 {
        let first = placed.drop_last();
        lemma_place(first, key);
        match place_of(first, key) {
            Some(span) => {
                let i = choose|i: int|
                    0 <= i < first.len() && #[trigger] first[i] == (key, span) && forall|k: int|
                        0 <= k < i ==> (#[trigger] first[k]).0 != key;
                assert(placed[i] == (key, span));
                assert forall|k: int| 0 <= k < i implies (#[trigger] placed[k]).0 != key by {
                    assert(first[k] == placed[k]);
                }
            },
            None => {
                assert forall|k: int| 0 <= k < first.len() implies (#[trigger] placed[k]).0
                    != key by {
                    assert(first[k] == placed[k]);
                }
                if placed.last().0 == key {
                    assert(placed[placed.len() - 1] == (key, placed.last().1));
                }
            },
        }
    }
}

/// Keys are found to be repeated exactly where two of them are the same.
pub proof fn law_repeated_keys(placed: Seq<(Seq<char>, Span)>)
    ensures
        repeated(placed) is None <==> distinct(placed),
    decreases placed.len(),
{
    if placed.len() > 0 {
        let first = placed.drop_last();
        law_repeated_keys(first);
        lemma_place(first, placed.last().0);
        if repeated(placed) is None {
            assert forall|i: int, j: int| 0 <= i < j < placed.len() implies (
            #[trigger] placed[i]).0 != (#[trigger] placed[j]).0 by {
                assert(first[i] == placed[i]);
                if j < first.len() {
                    assert(first[j] == placed[j]);
                }
            }
        }
        if distinct(placed) {
            assert forall|i: int, j: int| 0 <= i < j < first.len() implies (#[trigger] first[i]).0
                != (#[trigger] first[j]).0 by {
                assert(first[i] == placed[i] && first[j] == placed[j]);
            }
            assert forall|i: int| 0 <= i < first.len() implies (#[trigger] first[i]).0
                != placed.last().0 by {
                assert(first[i] == placed[i] && placed[placed.len() - 1] == placed.last());
            }
        }
    }
}

/// The report of a repeated key names the first key that is the same as an earlier one, at the place
/// where it is given again, and the place where it is given first.
pub proof fn law_repeated_report(placed: Seq<(Seq<char>, Span)>)
    ensures
        repeated(placed) matches Some(error) ==> exists|i: int, j: int|
            0 <= i < j < placed.len() && (#[trigger] placed[i]).0 == (#[trigger] placed[j]).0
                && distinct(placed.take(j)) && error == ErrorView::At(
                ProblemView::RepeatedKey(placed[j].0, placed[i].1),
                placed[j].1,
            ),
    decreases placed.len(),
{
    if let Some(error) = repeated(placed) {
        let first = placed.drop_last();
        match repeated(first) {
            Some(_) => {
                law_repeated_report(first);
                let (i, j) = choose|i: int, j: int|
                    0 <= i < j < first.len() && (#[trigger] first[i]).0 == (#[trigger] first[j]).0
                        && distinct(first.take(j)) && error == ErrorView::At(
                        ProblemView::RepeatedKey(first[j].0, first[i].1),
                        first[j].1,
                    );
                assert(placed[i] == first[i] && placed[j] == first[j]);
                assert(placed.take(j) =~= first.take(j));
            },
            None => {
                let j = placed.len() - 1;
                lemma_place(first, placed.last().0);
                law_repeated_keys(first);
                let span = place_of(first, placed.last().0).unwrap();
                let i = choose|i: int|
                    0 <= i < first.len() && #[trigger] first[i] == (placed.last().0, span)
                        && forall|k: int|
                        0 <= k < i ==> (#[trigger] first[k]).0 != placed.last().0;
                assert(placed[i] == first[i]);
                assert(placed[j] == placed.last());
                assert(placed.take(j) =~= first);
            },
        }
    }
}

/// How many keys the first fields have.
pub open spec fn offset(fields: Seq<FieldDefView>, i: int) -> int {
    all_keys(fields.take(i)).len() as int
}

/// Where the keys of a field stand among all keys.
pub proof fn lemma_offset(fields: Seq<FieldDefView>, i: int)
    requires
        0 <= i < fields.len(),
    ensures
        offset(fields, i + 1) == offset(fields, i) + keys(fields[i].attrs).len(),
        offset(fields, i + 1) <= all_keys(fields).len(),
        forall|a: int|
            0 <= a < keys(fields[i].attrs).len() ==> all_keys(fields)[offset(fields, i) + a].0
                == #[trigger] keys(fields[i].attrs)[a],
    decreases fields.len() - i,
{
    assert(fields.take(i + 1).drop_last() =~= fields.take(i));
    assert(fields.take(i + 1).last() == fields[i]);
    if i + 1 == fields.len() {
        assert(fields.take(i + 1) =~= fields);
    } else {
        let shorter = fields.drop_last();
        lemma_offset(shorter, i);
        assert(shorter.take(i) =~= fields.take(i));
        assert(shorter.take(i + 1) =~= fields.take(i + 1));
        assert(shorter[i] == fields[i]);
        assert(all_keys(fields) == all_keys(shorter) + placed_keys(fields.last().attrs));
    }
}

/// Keys of an earlier field stand before those of a later one.
pub proof fn lemma_offset_order(fields: Seq<FieldDefView>, i: int, j: int)
    requires
        0 <= i <= j <= fields.len(),
    ensures
        offset(fields, i) <= offset(fields, j),
    decreases j - i,
{
    if i < j {
        lemma_offset(fields, j - 1);
        lemma_offset_order(fields, i, j - 1);
    }
}

/// Where no key is found to be repeated, no two keys or aliases are the same, be it in one field or in
/// two.
pub proof fn law_keys_are_distinct(fields: Seq<FieldDefView>, i: int, a: int, j: int, b: int)
    requires
        repeated(all_keys(fields)) is None,
        0 <= i < fields.len(),
        0 <= j < fields.len(),
        0 <= a < keys(fields[i].attrs).len(),
        0 <= b < keys(fields[j].attrs).len(),
        keys(fields[i].attrs)[a] == keys(fields[j].attrs)[b],
    ensures
        i == j,
        a == b,
{
    let placed = all_keys(fields);
    law_repeated_keys(placed);
    lemma_offset(fields, i);
    lemma_offset(fields, j);
    let p = offset(fields, i) + a;
    let q = offset(fields, j) + b;
    assert(placed[p].0 == placed[q].0);
    if i < j {
        lemma_offset_order(fields, i + 1, j);
        assert(p < q);
    } else if j < i {
        lemma_offset_order(fields, j + 1, i);
        assert(q < p);
    }
}

/// The field whose variant the generated `FromStr` gives for a text: the first one that has the text
/// among its keys.
pub open spec fn found(fields: Seq<FieldDefView>, text: Seq<char>) -> Option<int>
    decreases fields.len(),
{
    if fields.len() == 0 {
        None
    } else {
        match found(fields.drop_last(), text) {
            Some(i) => Some(i),
            None => if keys(fields.last().attrs).contains(text) {
                Some(fields.len() - 1)
            } else {
                None
            },
        }
    }
}

/// What is found has the text among its keys, and nothing before it has.
proof fn lemma_found(fields: Seq<FieldDefView>, text: Seq<char>)
    ensures
        match found(fields, text) {
            Some(i) => 0 <= i < fields.len() && keys(fields[i].attrs).contains(text),
            None => forall|i: int|
                0 <= i < fields.len() ==> !keys((#[trigger] fields[i]).attrs).contains(text),
        },
    decreases fields.len(),
{
    if fields.len() > 0 {
        let first = fields.drop_last();
        lemma_found(first, text);
        match found(first, text) {
            Some(i) => {
                assert(first[i] == fields[i]);
            },
            None => {
                assert forall|i: int| 0 <= i < first.len() implies !keys(
                    (#[trigger] fields[i]).attrs,
                ).contains(text) by {
                    assert(first[i] == fields[i]);
                }
            },
        }
    }
}

/// Where no key is found to be repeated, every key and every alias leads back to its own field: the
/// generated `FromStr` gives the variant of the field that the key is given for. So it undoes the
/// generated `AsRef`, which gives the first key of the variant's field.
pub proof fn law_keys_lead_back(fields: Seq<FieldDefView>, i: int, a: int)
    requires
        repeated(all_keys(fields)) is None,
        0 <= i < fields.len(),
        0 <= a < keys(fields[i].attrs).len(),
    ensures
        found(fields, keys(fields[i].attrs)[a]) == Some(i),
        keys(fields[i].attrs)[0] == fields[i].attrs.key,
{
    let text = keys(fields[i].attrs)[a];
    lemma_found(fields, text);
    assert(keys(fields[i].attrs).contains(text));
    match found(fields, text) {
        Some(j) => {
            let b = keys(fields[j].attrs).index_of(text);
            law_keys_are_distinct(fields, i, a, j, b);
        },
        None => {},
    }
}

/// A text that is no key of a definition is no key for the generated `FromStr`.
pub proof fn law_other_texts_are_unknown(fields: Seq<FieldDefView>, text: Seq<char>)
    requires
        forall|i: int| 0 <= i < fields.len() ==> !keys((#[trigger] fields[i]).attrs).contains(text),
    ensures
        found(fields, text) is None,
{
    lemma_found(fields, text);
}

// ---------------------------------------------------------------------------
// Fields under `cfg` attributes
// ---------------------------------------------------------------------------

/// The fields whose `cfg` attributes all hold; `holds` tells of each whether it does. The compiler
/// keeps of the generated variants, arms and setters those of these fields.
pub open spec fn enabled(
    fields: Seq<FieldDefView>,
    holds: spec_fn(TokenStream) -> bool,
) -> Seq<FieldDefView>
    decreases fields.len(),
{
    if fields.len() == 0 {
        Seq::empty()
    } else if is_enabled(fields.last(), holds) {
        enabled(fields.drop_last(), holds).push(fields.last())
    } else {
        enabled(fields.drop_last(), holds)
    }
}

/// Whether the `cfg` attributes of a field all hold.
pub open spec fn is_enabled(field: FieldDefView, holds: spec_fn(TokenStream) -> bool) -> bool {
    forall|i: int|
        0 <= i < field.attrs.cfg_attrs.len() ==> holds(#[trigger] field.attrs.cfg_attrs[i])
}

/// Whether the key is among several.
spec fn placed_has(placed: Seq<(Seq<char>, Span)>, key: Seq<char>) -> bool {
    exists|i: int| 0 <= i < placed.len() && (#[trigger] placed[i]).0 == key
}

/// Keys of two parts are distinct where those of each are and no key is in both.
proof fn lemma_distinct_parts(a: Seq<(Seq<char>, Span)>, b: Seq<(Seq<char>, Span)>)
    ensures
        distinct(a + b) <==> {
            &&& distinct(a)
            &&& distinct(b)
            &&& forall|j: int| 0 <= j < b.len() ==> !placed_has(a, (#[trigger] b[j]).0)
        },
{
    let all = a + b;
    assert(forall|i: int| 0 <= i < a.len() ==> all[i] == a[i]);
    assert(forall|j: int| 0 <= j < b.len() ==> all[j + a.len()] == b[j]);
    if distinct(all) {
        assert forall|j: int| 0 <= j < b.len() implies !placed_has(a, (#[trigger] b[j]).0) by {
            assert(all[j + a.len()] == b[j]);
            assert forall|i: int| 0 <= i < a.len() implies (#[trigger] a[i]).0 != b[j].0 by {
                assert(all[i] == a[i]);
            }
        }
        assert forall|i: int, j: int| 0 <= i < j < a.len() implies (#[trigger] a[i]).0 != (
        #[trigger] a[j]).0 by {
            assert(all[i] == a[i] && all[j] == a[j]);
        }
        assert forall|i: int, j: int| 0 <= i < j < b.len() implies (#[trigger] b[i]).0 != (
        #[trigger] b[j]).0 by {
            assert(all[i + a.len()] == b[i] && all[j + a.len()] == b[j]);
        }
    }
    if distinct(a) && distinct(b) && (forall|j: int|
        0 <= j < b.len() ==> !placed_has(a, (#[trigger] b[j]).0)) {
        assert forall|i: int, j: int| 0 <= i < j < all.len() implies (#[trigger] all[i]).0 != (
        #[trigger] all[j]).0 by {
            if j < a.len() {
                assert(a[i].0 != a[j].0);
            } else if i >= a.len() {
                assert(b[i - a.len()].0 != b[j - a.len()].0);
            } else {
                assert(!placed_has(a, b[j - a.len()].0));
                assert(all[i] == a[i]);
            }
        }
    }
}

proof fn lemma_enabled_keys(fields: Seq<FieldDefView>, holds: spec_fn(TokenStream) -> bool)
    ensures
        forall|key: Seq<char>|
            placed_has(all_keys(enabled(fields, holds)), key) ==> #[trigger] placed_has(
                all_keys(fields),
                key,
            ),
        distinct(all_keys(fields)) ==> distinct(all_keys(enabled(fields, holds))),
    decreases fields.len(),
{
    if fields.len() > 0 {
        let first = fields.drop_last();
        let kept = enabled(first, holds);
        let more = placed_keys(fields.last().attrs);
        lemma_enabled_keys(first, holds);
        lemma_distinct_parts(all_keys(first), more);
        if is_enabled(fields.last(), holds) {
            assert(enabled(fields, holds).drop_last() =~= kept);
            lemma_distinct_parts(all_keys(kept), more);
        }
        assert forall|key: Seq<char>|
            placed_has(all_keys(enabled(fields, holds)), key) implies #[trigger] placed_has(
            all_keys(fields),
            key,
        ) by {
            let here = all_keys(enabled(fields, holds));
            let i = choose|i: int| 0 <= i < here.len() && (#[trigger] here[i]).0 == key;
            if i < all_keys(kept).len() {
                assert(here[i] == all_keys(kept)[i]);
                assert(placed_has(all_keys(kept), key));
                assert(placed_has(all_keys(first), key));
                let k = choose|k: int|
                    0 <= k < all_keys(first).len() && (#[trigger] all_keys(first)[k]).0 == key;
                assert(all_keys(fields)[k] == all_keys(first)[k]);
            } else {
                let k = i - all_keys(kept).len();
                assert(here[i] == more[k]);
                assert(all_keys(fields)[all_keys(first).len() + k] == more[k]);
            }
        }
    }
}

/// Where no key is repeated, none is among the fields that are enabled.
pub proof fn law_enabled_keys_are_distinct(
    fields: Seq<FieldDefView>,
    holds: spec_fn(TokenStream) -> bool,
)
    requires
        repeated(all_keys(fields)) is None,
    ensures
        repeated(all_keys(enabled(fields, holds))) is None,
{
    law_repeated_keys(all_keys(fields));
    law_repeated_keys(all_keys(enabled(fields, holds)));
    lemma_enabled_keys(fields, holds);
}

// ---------------------------------------------------------------------------
// The attributes of the struct
// ---------------------------------------------------------------------------

/// A definition without a `config_key` is refused for that.
pub proof fn law_config_key_is_required(definition: DefinitionView)
    requires
        stores(definition.attrs) matches Ok(options) && options.config_key is None,
    ensures
        expansion(definition) == Err::<Seq<Token>, ErrorView>(
            ErrorView::Over(ProblemView::NoConfigKey, definition.tokens),
        ),
{
}

/// A definition with a `config_key` but without an `error_path` is refused for that.
pub proof fn law_error_path_is_required(definition: DefinitionView)
    requires
        stores(definition.attrs) matches Ok(options) && options.config_key is Some
            && options.error_path is None,
    ensures
        expansion(definition) == Err::<Seq<Token>, ErrorView>(
            ErrorView::Over(ProblemView::NoErrorPath, definition.tokens),
        ),
{
}

/// Only a struct with named fields is accepted, and only with a field that takes part and without a
/// repeated key.
pub proof fn law_accepted_structs(definition: DefinitionView)
    requires
        expansion(definition) is Ok,
    ensures
        definition.body is Named,
        planned(definition) matches Ok(plan) && plan.fields.len() > 0 && repeated(
            all_keys(plan.fields),
        ) is None,
{
}

// ---------------------------------------------------------------------------
// The items of #[config(...)]
// ---------------------------------------------------------------------------

/// An item that cannot be read ends the reading with an error.
proof fn lemma_unreadable(
    scope: Scope,
    metas: Seq<ParseNestedMeta<'static>>,
    end: Option<syn::Error>,
    i: int,
)
    requires
        0 <= i < metas.len(),
        !(known_item(scope, metas[i]) matches Some(Ok(_))),
    ensures
        read_all(scope, metas, end).end is Some,
    decreases metas.len(),
{
    if i > 0 {
        assert(metas.drop_first()[i - 1] == metas[i]);
        lemma_unreadable(scope, metas.drop_first(), end, i - 1);
    }
}

/// A `#[config(...)]` with an item of an unknown name, or of a value that is not in the form that the
/// name demands, is refused.
pub proof fn law_unreadable_config_is_refused(attribute: syn::Attribute, i: int)
    requires
        0 <= i < handed(attribute, Scope::Config).metas.len(),
        !(known_item(Scope::Config, handed(attribute, Scope::Config).metas[i]) matches Some(Ok(_))),
    ensures
        config_options(nested_items(attribute, Scope::Config)) is Err,
{
    let given = handed(attribute, Scope::Config);
    lemma_unreadable(Scope::Config, given.metas, given.end, i);
}

/// An `#[object_store(...)]` with an item of an unknown name, or of a value that is not in the form
/// that the name demands, is refused, whatever was asked for before.
pub proof fn law_unreadable_store_is_refused(
    options: StoreOptions,
    attribute: syn::Attribute,
    i: int,
)
    requires
        0 <= i < handed(attribute, Scope::Store).metas.len(),
        !(known_item(Scope::Store, handed(attribute, Scope::Store).metas[i]) matches Some(Ok(_))),
    ensures
        store_options(options, nested_items(attribute, Scope::Store)) is Err,
{
    let given = handed(attribute, Scope::Store);
    lemma_unreadable(Scope::Store, given.metas, given.end, i);
}

/// A field that is to be skipped takes no part, wherever `skip` stands among the items and whatever
/// else they ask for.
pub proof fn law_skipped_fields_take_no_part(
    field: FieldView,
    ident: Ident,
    opted_in: bool,
    nested: NestedView,
    i: int,
)
    requires
        0 <= i < nested.items.len(),
        nested.items[i] is Skip,
    ensures
        config_options(nested) matches Ok(options) ==> resolved(field, ident, opted_in, options)
            == Ok::<Option<FieldAttrsView>, ErrorView>(None),
{
    lemma_skip(nested.items, i);
}

proof fn lemma_skip(items: Seq<ItemView>, i: int)
    requires
        0 <= i < items.len(),
        items[i] is Skip,
    ensures
        config_steps(items) matches Ok(options) ==> options.skip,
    decreases items.len(),
{
    if i < items.len() - 1 {
        assert(items.drop_last()[i] == items[i]);
        lemma_skip(items.drop_last(), i);
    }
}

/// A key that is given is not empty.
pub proof fn law_given_keys_are_not_empty(nested: NestedView)
    ensures
        config_options(nested) matches Ok(options) ==> (options.key matches Some(text)
            ==> text.value.len() > 0),
{
    lemma_key(nested.items);
}

proof fn lemma_key(items: Seq<ItemView>)
    ensures
        config_steps(items) matches Ok(options) ==> (options.key matches Some(text)
            ==> text.value.len() > 0),
    decreases items.len(),
{
    if items.len() > 0 {
        lemma_key(items.drop_last());
    }
}

/// Whether two items are for different things.
pub open spec fn unrelated(a: ItemView, b: ItemView) -> bool {
    &&& !(a is Skip && b is Skip)
    &&& !(a is Key && b is Key)
    &&& !(a is Aliases && b is Aliases)
    &&& !(a is Strategy && b is Strategy)
    &&& !(a is GetVia && b is GetVia)
    &&& !(a is Formatter && b is Formatter)
    &&& !(a is Variant && b is Variant)
    &&& !(a is Setter && b is Setter)
    &&& !(a is SetterName && b is SetterName)
    &&& !(a is DocInherit && b is DocInherit)
}

/// What is asked for with two items more.
pub open spec fn two_steps(options: OptionsView, a: ItemView, b: ItemView) -> Result<
    OptionsView,
    ErrorView,
> {
    match config_step(options, a) {
        Ok(next) => config_step(next, b),
        Err(error) => Err(error),
    }
}

/// The order of two items that are for different things does not matter where both are accepted.
pub proof fn law_items_commute(options: OptionsView, a: ItemView, b: ItemView)
    requires
        unrelated(a, b),
        two_steps(options, a, b) is Ok,
    ensures
        two_steps(options, b, a) == two_steps(options, a, b),
{
}

/// The aliases that several items give.
pub open spec fn given_aliases(items: Seq<ItemView>) -> Seq<Seq<char>>
    decreases items.len(),
{
    if items.len() == 0 {
        Seq::empty()
    } else {
        given_aliases(items.drop_last()) + match items.last() {
            ItemView::Aliases(elements) => alias_texts(elements)->Ok_0,
            _ => Seq::empty(),
        }
    }
}

/// All aliases that are given count, in the order in which they are given.
pub proof fn law_aliases_add_up(items: Seq<ItemView>)
    ensures
        config_steps(items) matches Ok(options) ==> options.aliases == given_aliases(items),
    decreases items.len(),
{
    if items.len() > 0 {
        law_aliases_add_up(items.drop_last());
    }
}

/// Whether what is asked for is what an item says (for aliases, it is part of it).
pub open spec fn agrees(options: OptionsView, item: ItemView) -> bool {
    match item {
        ItemView::Skip => options.skip,
        ItemView::Key(text) => options.key == Some(text),
        ItemView::Aliases(elements) => alias_texts(elements) matches Ok(aliases)
            && options.aliases.len() >= aliases.len() && options.aliases.skip(
            options.aliases.len() - aliases.len(),
        ) == aliases,
        ItemView::Strategy(ident) => strategy_named(ident_text(ident)) matches Some(strategy)
            && options.strategy == Some((strategy, ident_span(ident))),
        ItemView::GetVia(ident) => options.get_via == Some(ident),
        ItemView::Formatter(ident) => options.formatter is Some && options.formatter
            == formatter_named(ident_text(ident)),
        ItemView::Variant(ident) => options.variant == Some(ident),
        ItemView::Setter(ident) => setter_named(ident_text(ident)) == Some(options.setter),
        ItemView::SetterName(ident) => options.setter_name == Some(ident),
        ItemView::DocInherit(value) => options.doc_inherit == value,
        ItemView::ConfigKey(_) | ItemView::ErrorPath(_) | ItemView::ErrorStore(_) => true,
        ItemView::Unknown(_) => false,
    }
}

/// The last of several items of one name in `#[config(...)]` counts.
pub proof fn law_last_item_counts(items: Seq<ItemView>, i: int)
    requires
        0 <= i < items.len(),
        forall|k: int| i < k < items.len() ==> unrelated(items[i], #[trigger] items[k]),
    ensures
        config_steps(items) matches Ok(options) ==> agrees(options, items[i]),
    decreases items.len(),
{
    let first = items.drop_last();
    if i < items.len() - 1 {
        assert(first[i] == items[i]);
        assert forall|k: int| i < k < first.len() implies unrelated(
            first[i],
            #[trigger] first[k],
        ) by {
            assert(first[k] == items[k]);
        }
        law_last_item_counts(first, i);
        assert(unrelated(items[i], items[items.len() - 1]));
    } else if let Ok(before) = config_steps(first) {
        if let ItemView::Aliases(elements) = items[i] {
            if let Ok(aliases) = alias_texts(elements) {
                let all = before.aliases + aliases;
                assert(all.skip(before.aliases.len() as int) =~= aliases);
            }
        }
    }
}

/// Whether two items are for different things of the struct.
pub open spec fn store_unrelated(a: ItemView, b: ItemView) -> bool {
    &&& !(a is ConfigKey && b is ConfigKey)
    &&& !(a is ErrorPath && b is ErrorPath)
    &&& !(a is ErrorStore && b is ErrorStore)
}

/// The last of several items of one name in `#[object_store(...)]` counts, whatever was asked for
/// before.
pub proof fn law_last_store_item_counts(options: StoreOptions, items: Seq<ItemView>, i: int)
    requires
        0 <= i < items.len(),
        forall|k: int| i < k < items.len() ==> store_unrelated(items[i], #[trigger] items[k]),
    ensures
        store_steps(options, items) matches Ok(after) ==> match items[i] {
            ItemView::ConfigKey(ident) => after.config_key == Some(ident),
            ItemView::ErrorPath(path) => after.error_path == Some(path),
            ItemView::ErrorStore(text) => after.error_store == Some(text.tokens),
            _ => true,
        },
    decreases items.len(),
{
    if i < items.len() - 1 {
        let first = items.drop_last();
        assert(first[i] == items[i]);
        assert forall|k: int| i < k < first.len() implies store_unrelated(
            first[i],
            #[trigger] first[k],
        ) by {
            assert(first[k] == items[k]);
        }
        law_last_store_item_counts(options, first, i);
        assert(store_unrelated(items[i], items[items.len() - 1]));
    }
}

// ---------------------------------------------------------------------------
// Fields
// ---------------------------------------------------------------------------

/// A named field without `#[config]` is never refused: it takes part or it does not.
pub proof fn law_plain_fields_are_accepted(field: FieldView)
    requires
        field.ident is Some,
        config_attr(field.attrs) == Ok::<Option<AttrView>, ErrorView>(None),
    ensures
        field_attrs(field) is Ok,
        field_attrs(field)->Ok_0 is Some <==> inferred_strategy(field.ty) is Some,
{
}

/// A field with `#[config]` that is not skipped takes part or is refused, it is never passed over.
pub proof fn law_configured_fields_are_not_passed_over(field: FieldView)
    requires
        config_attr(field.attrs) matches Ok(Some(_)),
        attr_options(config_attr(field.attrs)->Ok_0) matches Ok(options) && !options.skip,
    ensures
        field_attrs(field) != Ok::<Option<FieldAttrsView>, ErrorView>(None),
{
}

/// A field that takes part is formatted as a duration only where it is kept to be parsed later.
pub proof fn law_formatter_needs_deferred_value(field: FieldView)
    ensures
        field_attrs(field) matches Ok(Some(attrs)) ==> (attrs.formatter == Formatter::Duration
            ==> attrs.strategy == Strategy::OptionConfigValueDeferred),
{
}

/// What a field that takes part gets, where its name is not empty: a key that is not empty; the
/// strategy that is given, whatever its type is, else the one that its type tells; the formatter that
/// is given, else the one that strategy and type tell.
pub proof fn law_accepted_fields(field: FieldView)
    requires
        field.ident matches Some(ident) ==> ident_text(ident).len() > 0,
    ensures
        field_attrs(field) matches Ok(Some(attrs)) ==> {
            &&& attrs.key.len() > 0
            &&& config_attr(field.attrs) matches Ok(config)
            &&& attr_options(config) matches Ok(options)
            &&& match options.strategy {
                Some((strategy, _)) => attrs.strategy == strategy,
                None => inferred_strategy(field.ty) == Some(attrs.strategy),
            }
            &&& match options.formatter {
                Some(formatter) => attrs.formatter == formatter,
                None => attrs.formatter == inferred_formatter(attrs.strategy, field.ty),
            }
        },
{
    if let Ok(Some(attr)) = config_attr(field.attrs) {
        law_given_keys_are_not_empty(nested_items(attr.attribute, Scope::Config));
    }
}

/// A field whose strategy is inferred can have a setter: only a strategy that is given by name can
/// disagree with the type.
pub proof fn law_inferred_strategies_have_setters(field: FieldDefView)
    requires
        inferred_strategy(field.ty) == Some(field.attrs.strategy),
    ensures
        setter_type(field) is Ok,
        setter_code(field) is Ok,
{
}

/// Where the fields that take part stand in the definition.
pub open spec fn stands_for(fields: Seq<FieldView>, defs: Seq<FieldDefView>, at: Seq<int>) -> bool {
    &&& at.len() == defs.len()
    &&& forall|k: int|
        0 <= k < at.len() ==> {
            &&& 0 <= #[trigger] at[k] < fields.len()
            &&& fields[at[k]].ident == Some(defs[k].field_ident)
            &&& fields[at[k]].ty == defs[k].ty
            &&& field_attrs(fields[at[k]]) == Ok::<Option<FieldAttrsView>, ErrorView>(
                Some(defs[k].attrs),
            )
        }
    &&& forall|k: int, l: int| 0 <= k < l < at.len() ==> #[trigger] at[k] < #[trigger] at[l]
    &&& forall|i: int|
        0 <= i < fields.len() && field_attrs(#[trigger] fields[i]) != Ok::<
            Option<FieldAttrsView>,
            ErrorView,
        >(None) ==> at.contains(i)
}

/// The fields that take part keep the order of the definition, none is left out and none is added.
pub proof fn law_fields_keep_their_order(fields: Seq<FieldView>) -> (at: Seq<int>)
    ensures
        field_defs(fields) matches Ok(defs) ==> stands_for(fields, defs, at),
    decreases fields.len(),
{
    if fields.len() == 0 {
        Seq::empty()
    } else {
        let first = fields.drop_last();
        let n = fields.len() - 1;
        let before = law_fields_keep_their_order(first);
        if let Ok(defs) = field_defs(fields) {
            let earlier = field_defs(first)->Ok_0;
            assert forall|k: int| 0 <= k < before.len() implies fields[#[trigger] before[k]]
                == first[before[k]] by {}
            assert forall|i: int| 0 <= i < n implies fields[i] == #[trigger] first[i] by {}
            match field_attrs(fields.last()) {
                Ok(Some(attrs)) => {
                    let at = before.push(n);
                    assert forall|i: int|
                        0 <= i < fields.len() && field_attrs(#[trigger] fields[i]) != Ok::<
                            Option<FieldAttrsView>,
                            ErrorView,
                        >(None) implies at.contains(i) by {
                        if i < n {
                            assert(before.contains(i)) by {
                                assert(first[i] == fields[i]);
                            }
                            let k = before.index_of(i);
                            assert(at[k] == i);
                        } else {
                            assert(at[before.len() as int] == n);
                        }
                    }
                    at
                },
                _ => {
                    assert forall|i: int|
                        0 <= i < fields.len() && field_attrs(#[trigger] fields[i]) != Ok::<
                            Option<FieldAttrsView>,
                            ErrorView,
                        >(None) implies before.contains(i) by {
                        assert(first[i] == fields[i]);
                    }
                    before
                },
            }
        } else {
            before
        }
    }
}

// ---------------------------------------------------------------------------
// Names
// ---------------------------------------------------------------------------

/// A variant's name has no underscore and does not start with an ASCII lower-case letter.
pub proof fn law_pascal_case(text: Seq<char>)
    ensures
        forall|i: int| 0 <= i < pascal(text).len() ==> #[trigger] pascal(text)[i] != '_',
        pascal(text).len() > 0 ==> !('a' <= pascal(text)[0] <= 'z'),
    decreases text.len(),
{
    if text.len() > 0 {
        law_pascal_case(text.drop_last());
        lemma_no_pascal(text.drop_last());
    }
}

/// Only underscores leave nothing of a text.
proof fn lemma_no_pascal(text: Seq<char>)
    ensures
        pascal(text).len() == 0 <==> forall|i: int| 0 <= i < text.len() ==> #[trigger] text[i] == '_',
    decreases text.len(),
{
    if text.len() > 0 {
        let first = text.drop_last();
        lemma_no_pascal(first);
        assert(forall|i: int| 0 <= i < first.len() ==> first[i] == text[i]);
        assert(text[text.len() - 1] == text.last());
    }
}

/// A field whose name is an identifier that does not start with an underscore gets a variant whose
/// name is an identifier.
pub proof fn law_variants_are_identifiers(text: Seq<char>)
    requires
        legal_ident(text),
        text[0] != '_',
    ensures
        legal_ident(pascal(text)),
        pascal(text)[0] == upper(text[0]),
    decreases text.len(),
{
    let first = text.drop_last();
    if text.len() == 1 {
        assert(pascal(first) =~= Seq::<char>::empty());
        assert(pascal(text) =~= seq![upper(text[0])]);
    } else {
        assert(first[0] == text[0]);
        assert(forall|i: int| 0 < i < first.len() ==> first[i] == text[i]);
        law_variants_are_identifiers(first);
        assert(ident_continue(text[text.len() - 1]));
    }
}

/// A field whose name, without the `r#` of a raw one, has only characters that may stand in an
/// identifier gets a setter whose name is an identifier.
pub proof fn law_setters_are_identifiers(text: Seq<char>)
    requires
        forall|i: int| 0 <= i < unraw(text).len() ==> ident_continue(#[trigger] unraw(text)[i]),
    ensures
        legal_ident("with_"@ + unraw(text)),
{
    reveal_strlit("with_");
    let name = "with_"@ + unraw(text);
    assert forall|i: int| 0 < i < name.len() implies ident_continue(#[trigger] name[i]) by {
        if i >= 5 {
            assert(name[i] == unraw(text)[i - 5]);
        }
    }
}

/// A text that is an identifier is not raw.
proof fn lemma_not_raw(text: Seq<char>)
    requires
        legal_ident(text),
    ensures
        unraw(text) == text,
{
    if text.len() >= 2 {
        assert(ident_continue(text[1]));
    }
}

/// Whether a name is an ordinary one: an identifier that does not start with an underscore, with a
/// first character that may also stand inside an identifier.
pub open spec fn ordinary(text: Seq<char>) -> bool {
    legal_ident(text) && text[0] != '_' && ident_continue(text[0])
}

/// The derive has an answer for every item whose fields have ordinary names.
pub proof fn law_ordinary_names_have_an_answer(input: TokenStream)
    requires
        parsed_input(input) matches Ok(item) ==> (input_view(item).body matches BodyView::Named(fields)
            ==> forall|k: int|
            0 <= k < fields.len() ==> ((#[trigger] fields[k]).ident matches Some(ident) ==> ordinary(
                ident_text(ident),
            ))),
    ensures
        derivable(input),
{
    if let Ok(item) = parsed_input(input) {
        if let BodyView::Named(fields) = input_view(item).body {
            assert forall|k: int| 0 <= k < fields.len() implies (field_attrs(
                #[trigger] fields[k],
            ) matches Ok(Some(attrs)) ==> made_names_legal(attrs)) by {
                if field_attrs(fields[k]) is Ok {
                    let text = ident_text(fields[k].ident->0);
                    law_variants_are_identifiers(text);
                    lemma_not_raw(text);
                    law_setters_are_identifiers(text);
                }
            }
        }
    }
}

} // verus!
