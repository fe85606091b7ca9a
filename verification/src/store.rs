//! `#[object_store(...)]`: what the attributes of the struct ask for.

use crate::errors::{outcome, DeriveError, ErrorView, Problem, ProblemView};
use crate::items::{items_view, nested_items, read_nested, Item, ItemView, Nested, NestedView, Scope};
use crate::syntax::{attrs_view, Attr, AttrView, Definition, DefinitionView};
use proc_macro2::{Ident, TokenStream};
use vstd::prelude::*;

verus! {

/// What the attributes of the struct ask for.
pub struct StructAttrs {
    /// The name of the enum of keys.
    pub config_key: Ident,
    /// The path of the error of an unknown key.
    pub error_path: TokenStream,
    /// The name of the store, for that error.
    pub error_store: Option<TokenStream>,
}

/// What the items of `#[object_store(...)]` ask for so far.
pub struct StoreOptions {
    pub config_key: Option<Ident>,
    pub error_path: Option<TokenStream>,
    pub error_store: Option<TokenStream>,
}

/// What is asked for without an item.
pub open spec fn no_store_options() -> StoreOptions {
    StoreOptions { config_key: None, error_path: None, error_store: None }
}

/// What is asked for with one item more: it takes the place of an earlier one of its name. An item of
/// another attribute says nothing.
pub open spec fn store_step(options: StoreOptions, item: ItemView) -> Result<
    StoreOptions,
    ErrorView,
> {
    match item {
        ItemView::ConfigKey(ident) => Ok(StoreOptions { config_key: Some(ident), ..options }),
        ItemView::ErrorPath(path) => Ok(StoreOptions { error_path: Some(path), ..options }),
        ItemView::ErrorStore(text) => Ok(
            StoreOptions { error_store: Some(text.tokens), ..options },
        ),
        ItemView::Unknown(error) => Err(ErrorView::Syntax(error)),
        _ => Ok(options),
    }
}

/// What is asked for with several items more, or the first error.
pub open spec fn store_steps(options: StoreOptions, items: Seq<ItemView>) -> Result<
    StoreOptions,
    ErrorView,
>
    decreases items.len(),
{
    if items.len() == 0 {
        Ok(options)
    } else {
        match store_steps(options, items.drop_last()) {
            Ok(before) => store_step(before, items.last()),
            Err(error) => Err(error),
        }
    }
}

/// What is asked for with the items of an attribute more, or the first error.
pub open spec fn store_options(options: StoreOptions, nested: NestedView) -> Result<
    StoreOptions,
    ErrorView,
> {
    match (store_steps(options, nested.items), nested.end) {
        (Err(error), _) => Err(error),
        (Ok(_), Some(error)) => Err(ErrorView::Syntax(error)),
        (Ok(options), None) => Ok(options),
    }
}

/// What the `#[object_store(...)]` among several attributes ask for together, or the first error.
pub open spec fn stores(attrs: Seq<AttrView>) -> Result<StoreOptions, ErrorView>
    decreases attrs.len(),
{
    if attrs.len() == 0 {
        Ok(no_store_options())
    } else {
        match stores(attrs.drop_last()) {
            Ok(before) => if attrs.last().name == Some("object_store"@) {
                store_options(before, nested_items(attrs.last().attribute, Scope::Store))
            } else {
                Ok(before)
            },
            Err(error) => Err(error),
        }
    }
}

/// What the attributes of the struct ask for, or why they are refused.
pub open spec fn struct_attrs(definition: DefinitionView) -> Result<StructAttrs, ErrorView> {
    match stores(definition.attrs) {
        Err(error) => Err(error),
        Ok(options) => match (options.config_key, options.error_path) {
            (None, _) => Err(ErrorView::Over(ProblemView::NoConfigKey, definition.tokens)),
            (_, None) => Err(ErrorView::Over(ProblemView::NoErrorPath, definition.tokens)),
            (Some(config_key), Some(error_path)) => Ok(
                StructAttrs { config_key, error_path, error_store: options.error_store },
            ),
        },
    }
}

/// Takes the items of one `#[object_store(...)]`.
pub fn take_store_items(start: StoreOptions, nested: Nested) -> (res: Result<
    StoreOptions,
    DeriveError,
>)
    ensures
        outcome(res) == store_options(start, nested@),
{
    let mut options: StoreOptions = start;
    let ghost items = nested@.items;
    let mut i: usize = 0;
    while i < nested.items.len()
        invariant
            i <= nested.items.len(),
            items == items_view(nested.items@),
            nested@.items == items,
            store_steps(start, items.take(i as int)) == Ok::<StoreOptions, ErrorView>(options),
        decreases nested.items.len() - i,
    {
        proof {
            assert(items.take(i + 1).drop_last() =~= items.take(i as int));
            assert(items.take(i + 1).last() == nested.items@[i as int]@);
        }
        match &nested.items[i] {
            Item::ConfigKey(ident) => {
                options.config_key = Some(ident.clone());
            },
            Item::ErrorPath(path) => {
                options.error_path = Some(path.clone());
            },
            Item::ErrorStore(text) => {
                options.error_store = Some(text.tokens.clone());
            },
            Item::Unknown(error) => {
                proof {
                    lemma_store_error(start, items, i + 1);
                }
                return Err(DeriveError::Syntax(error.clone()));
            },
            _ => {},
        }
        i = i + 1;
    }
    proof {
        assert(items.take(i as int) =~= items);
    }
    match nested.end {
        Some(error) => Err(DeriveError::Syntax(error)),
        None => Ok(options),
    }
}

/// An error among the first items is the error of them all.
proof fn lemma_store_error(options: StoreOptions, items: Seq<ItemView>, n: int)
    requires
        0 <= n <= items.len(),
        store_steps(options, items.take(n)) is Err,
    ensures
        store_steps(options, items) == store_steps(options, items.take(n)),
    decreases items.len() - n,
{
    if n == items.len() {
        assert(items.take(n) =~= items);
    } else {
        assert(items.take(n + 1).drop_last() =~= items.take(n));
        lemma_store_error(options, items, n + 1);
    }
}

/// An error among the first attributes is the error of them all.
proof fn lemma_stores_error(attrs: Seq<AttrView>, n: int)
    requires
        0 <= n <= attrs.len(),
        stores(attrs.take(n)) is Err,
    ensures
        stores(attrs) == stores(attrs.take(n)),
    decreases attrs.len() - n,
{
    if n == attrs.len() {
        assert(attrs.take(n) =~= attrs);
    } else {
        assert(attrs.take(n + 1).drop_last() =~= attrs.take(n));
        lemma_stores_error(attrs, n + 1);
    }
}

/// Reads what the attributes of the struct ask for.
pub fn parse_struct_attrs(definition: &Definition) -> (res: Result<StructAttrs, DeriveError>)
    ensures
        outcome(res) == struct_attrs(definition@),
{
    let mut options: StoreOptions = StoreOptions {
        config_key: None,
        error_path: None,
        error_store: None,
    };
    let ghost attrs = definition@.attrs;
    let mut i: usize = 0;
    while i < definition.attrs.len()
        invariant
            i <= definition.attrs.len(),
            attrs == attrs_view(definition.attrs@),
            attrs == definition@.attrs,
            stores(attrs.take(i as int)) == Ok::<StoreOptions, ErrorView>(options),
        decreases definition.attrs.len() - i,
    {
        proof {
            assert(attrs.take(i + 1).drop_last() =~= attrs.take(i as int));
            assert(attrs.take(i + 1).last() == definition.attrs@[i as int]@);
        }
        let attr: &Attr = &definition.attrs[i];
        if attr.is_named("object_store") {
            match take_store_items(options, read_nested(attr.attribute(), Scope::Store)) {
                Ok(next) => {
                    options = next;
                },
                Err(error) => {
                    proof {
                        lemma_stores_error(attrs, i + 1);
                    }
                    return Err(error);
                },
            }
        }
        i = i + 1;
    }
    proof {
        assert(attrs.take(i as int) =~= attrs);
    }
    let config_key: Ident = match options.config_key {
        Some(ident) => ident,
        None => {
            return Err(DeriveError::Over(Problem::NoConfigKey, definition.tokens.clone()));
        },
    };
    let error_path: TokenStream = match options.error_path {
        Some(path) => path,
        None => {
            return Err(DeriveError::Over(Problem::NoErrorPath, definition.tokens.clone()));
        },
    };
    Ok(StructAttrs { config_key, error_path, error_store: options.error_store })
}

} // verus!
