//! The items of `#[object_store(...)]` and `#[config(...)]`.

use crate::errors::{error_parts, Diagnostic};
use crate::names::same_text;
use crate::syntax::attr_view;
use proc_macro2::{Ident, Span, TokenStream};
use quote::ToTokens;
use syn::meta::ParseNestedMeta;
use vstd::prelude::*;

verus! {

/// `syn::meta::ParseNestedMeta`, an item of an attribute of which the name has been read.
#[verifier::external_type_specification]
#[verifier::external_body]
pub struct ExParseNestedMeta<'a>(ParseNestedMeta<'a>);

/// The attribute that an item stands in.
#[derive(Clone, Copy, PartialEq, Eq, Structural)]
pub enum Scope {
    /// `#[object_store(...)]`
    Store,
    /// `#[config(...)]`
    Config,
}

/// A string literal: its value, its place and its token.
pub struct Text {
    pub value: String,
    pub span: Span,
    pub tokens: TokenStream,
}

/// An element of an array: the value of a string literal, or the tokens of another expression.
pub enum Element {
    Text(String),
    Other(TokenStream),
}

/// An item of an attribute.
pub enum Item {
    /// `config_key = Name`
    ConfigKey(Ident),
    /// `error_path = some::path`
    ErrorPath(TokenStream),
    /// `error_store = "name"`
    ErrorStore(Text),
    /// `skip`
    Skip,
    /// `key = "key"`
    Key(Text),
    /// `aliases = ["key", ...]`
    Aliases(Vec<Element>),
    /// `strategy = name`
    Strategy(Ident),
    /// `get_via = method`
    GetVia(Ident),
    /// `formatter = name`
    Formatter(Ident),
    /// `variant = Name`
    Variant(Ident),
    /// `setter = mode`
    Setter(Ident),
    /// `setter_name = method`
    SetterName(Ident),
    /// `doc_inherit = true`
    DocInherit(bool),
    /// An item that the attribute does not know, as the error that says so.
    Unknown(syn::Error),
}

pub struct TextView {
    pub value: Seq<char>,
    pub span: Span,
    pub tokens: TokenStream,
}

pub enum ElementView {
    Text(Seq<char>),
    Other(TokenStream),
}

pub enum ItemView {
    ConfigKey(Ident),
    ErrorPath(TokenStream),
    ErrorStore(TextView),
    Skip,
    Key(TextView),
    Aliases(Seq<ElementView>),
    Strategy(Ident),
    GetVia(Ident),
    Formatter(Ident),
    Variant(Ident),
    Setter(Ident),
    SetterName(Ident),
    DocInherit(bool),
    Unknown(syn::Error),
}

impl Text {
    pub open spec fn view(self) -> TextView {
        TextView { value: self.value@, span: self.span, tokens: self.tokens }
    }
}

impl Element {
    pub open spec fn view(self) -> ElementView {
        match self {
            Element::Text(text) => ElementView::Text(text@),
            Element::Other(tokens) => ElementView::Other(tokens),
        }
    }
}

/// The views of several elements.
pub open spec fn elements_view(elements: Seq<Element>) -> Seq<ElementView> {
    Seq::new(elements.len(), |i: int| elements[i].view())
}

impl Item {
    pub open spec fn view(self) -> ItemView {
        match self {
            Item::ConfigKey(ident) => ItemView::ConfigKey(ident),
            Item::ErrorPath(path) => ItemView::ErrorPath(path),
            Item::ErrorStore(text) => ItemView::ErrorStore(text.view()),
            Item::Skip => ItemView::Skip,
            Item::Key(text) => ItemView::Key(text.view()),
            Item::Aliases(elements) => ItemView::Aliases(elements_view(elements@)),
            Item::Strategy(ident) => ItemView::Strategy(ident),
            Item::GetVia(ident) => ItemView::GetVia(ident),
            Item::Formatter(ident) => ItemView::Formatter(ident),
            Item::Variant(ident) => ItemView::Variant(ident),
            Item::Setter(ident) => ItemView::Setter(ident),
            Item::SetterName(ident) => ItemView::SetterName(ident),
            Item::DocInherit(value) => ItemView::DocInherit(value),
            Item::Unknown(error) => ItemView::Unknown(error),
        }
    }
}

/// The views of several items.
pub open spec fn items_view(items: Seq<Item>) -> Seq<ItemView> {
    Seq::new(items.len(), |i: int| items[i].view())
}

/// The name of an item, where its path is one identifier.
pub uninterp spec fn meta_key(meta: ParseNestedMeta<'_>) -> Option<Seq<char>>;

/// How many segments the path of an item has.
pub uninterp spec fn meta_segments(meta: ParseNestedMeta<'_>) -> nat;

/// The first and the last span of the name of an item.
pub uninterp spec fn meta_range(meta: ParseNestedMeta<'_>) -> (Span, Span);

/// The error that tells a message about the name of an item.
pub uninterp spec fn meta_error(meta: ParseNestedMeta<'_>, message: Seq<char>) -> syn::Error;

/// The identifier behind the `=` of an item.
pub uninterp spec fn meta_ident(meta: ParseNestedMeta<'_>) -> Result<Ident, syn::Error>;

/// The path behind the `=` of an item.
pub uninterp spec fn meta_path(meta: ParseNestedMeta<'_>) -> Result<TokenStream, syn::Error>;

/// The string literal behind the `=` of an item.
pub uninterp spec fn meta_text(meta: ParseNestedMeta<'_>) -> Result<TextView, syn::Error>;

/// The boolean behind the `=` of an item.
pub uninterp spec fn meta_bool(meta: ParseNestedMeta<'_>) -> Result<bool, syn::Error>;

/// The elements of the array behind the `=` of an item.
pub uninterp spec fn meta_array(meta: ParseNestedMeta<'_>) -> Result<Seq<ElementView>, syn::Error>;

/// `Path::get_ident` of the item's path: its text where the path is one identifier, which is a path of
/// one segment.
#[verifier::external_body]
fn read_key(meta: &ParseNestedMeta<'_>) -> (res: Option<String>)
    ensures
        res is Some == meta_key(*meta) is Some,
        res matches Some(key) ==> meta_key(*meta) == Some(key@),
        res is Some ==> meta_segments(*meta) == 1,
{
    meta.path.get_ident().map(|ident| ident.to_string())
}

/// `ParseNestedMeta::error` before a value is read: one message, about the name of the item. It panics
/// on a path without a segment, which the precondition leaves out.
#[verifier::external_body]
fn item_error(meta: &ParseNestedMeta<'_>, message: &str) -> (res: syn::Error)
    requires
        meta_segments(*meta) > 0,
    ensures
        res == meta_error(*meta, message@),
        error_parts(res) == seq![
            Diagnostic { start: meta_range(*meta).0, end: meta_range(*meta).1, message: message@ },
        ],
{
    meta.error(message)
}

/// `ParseNestedMeta::value`, then `ParseBuffer::parse` for an identifier. Reading moves on in the
/// attribute, so it takes the item.
#[verifier::external_body]
fn read_ident(meta: ParseNestedMeta<'_>) -> (res: Result<Ident, syn::Error>)
    ensures
        res == meta_ident(meta),
{
    meta.value()?.parse::<Ident>()
}

/// `ParseNestedMeta::value`, then `ParseBuffer::parse` for a path, as its tokens.
#[verifier::external_body]
fn read_path(meta: ParseNestedMeta<'_>) -> (res: Result<TokenStream, syn::Error>)
    ensures
        res == meta_path(meta),
{
    Ok(meta.value()?.parse::<syn::Path>()?.into_token_stream())
}

/// `ParseNestedMeta::value`, then `ParseBuffer::parse` for a string literal.
#[verifier::external_body]
fn read_text(meta: ParseNestedMeta<'_>) -> (res: Result<Text, syn::Error>)
    ensures
        match res {
            Ok(text) => meta_text(meta) == Ok::<TextView, syn::Error>(text@),
            Err(error) => meta_text(meta) == Err::<TextView, syn::Error>(error),
        },
{
    let literal = meta.value()?.parse::<syn::LitStr>()?;
    Ok(Text { value: literal.value(), span: literal.span(), tokens: literal.to_token_stream() })
}

/// `ParseNestedMeta::value`, then `ParseBuffer::parse` for a boolean.
#[verifier::external_body]
fn read_bool(meta: ParseNestedMeta<'_>) -> (res: Result<bool, syn::Error>)
    ensures
        res == meta_bool(meta),
{
    Ok(meta.value()?.parse::<syn::LitBool>()?.value)
}

/// `ParseNestedMeta::value`, then `ParseBuffer::parse` for an array: of each element the value where
/// it is a string literal (`Expr::Lit` with a `Lit::Str`), else its tokens.
#[verifier::external_body]
fn read_array(meta: ParseNestedMeta<'_>) -> (res: Result<Vec<Element>, syn::Error>)
    ensures
        match res {
            Ok(elements) => meta_array(meta) == Ok::<Seq<ElementView>, syn::Error>(
                elements_view(elements@),
            ),
            Err(error) => meta_array(meta) == Err::<Seq<ElementView>, syn::Error>(error),
        },
{
    let array = meta.value()?.parse::<syn::ExprArray>()?;
    let element = |expr: &syn::Expr| match expr {
        syn::Expr::Lit(syn::ExprLit { lit: syn::Lit::Str(text), .. }) => {
            Element::Text(text.value())
        },
        _ => Element::Other(expr.to_token_stream()),
    };
    Ok(array.elems.iter().map(element).collect())
}

/// The item with an identifier for its value.
pub open spec fn ident_item(
    meta: ParseNestedMeta<'_>,
    item: spec_fn(Ident) -> ItemView,
) -> Result<ItemView, syn::Error> {
    match meta_ident(meta) {
        Ok(ident) => Ok(item(ident)),
        Err(error) => Err(error),
    }
}

/// The item with a string literal for its value.
pub open spec fn text_item(
    meta: ParseNestedMeta<'_>,
    item: spec_fn(TextView) -> ItemView,
) -> Result<ItemView, syn::Error> {
    match meta_text(meta) {
        Ok(text) => Ok(item(text)),
        Err(error) => Err(error),
    }
}

/// The item that `#[object_store(...)]` holds under a key, or the error of its value; `None` under a
/// key that it does not know.
pub open spec fn store_item(key: Seq<char>, meta: ParseNestedMeta<'_>) -> Option<
    Result<ItemView, syn::Error>,
> {
    if key == "config_key"@ {
        Some(ident_item(meta, |ident: Ident| ItemView::ConfigKey(ident)))
    } else if key == "error_path"@ {
        Some(
            match meta_path(meta) {
                Ok(path) => Ok(ItemView::ErrorPath(path)),
                Err(error) => Err(error),
            },
        )
    } else if key == "error_store"@ {
        Some(text_item(meta, |text: TextView| ItemView::ErrorStore(text)))
    } else {
        None
    }
}

/// The item that `#[config(...)]` holds under a key, or the error of its value; `None` under a key
/// that it does not know.
pub open spec fn config_item(key: Seq<char>, meta: ParseNestedMeta<'_>) -> Option<
    Result<ItemView, syn::Error>,
> {
    if key == "skip"@ {
        Some(Ok(ItemView::Skip))
    } else if key == "key"@ {
        Some(text_item(meta, |text: TextView| ItemView::Key(text)))
    } else if key == "aliases"@ {
        Some(
            match meta_array(meta) {
                Ok(elements) => Ok(ItemView::Aliases(elements)),
                Err(error) => Err(error),
            },
        )
    } else if key == "strategy"@ {
        Some(ident_item(meta, |ident: Ident| ItemView::Strategy(ident)))
    } else if key == "get_via"@ {
        Some(ident_item(meta, |ident: Ident| ItemView::GetVia(ident)))
    } else if key == "formatter"@ {
        Some(ident_item(meta, |ident: Ident| ItemView::Formatter(ident)))
    } else if key == "variant"@ {
        Some(ident_item(meta, |ident: Ident| ItemView::Variant(ident)))
    } else if key == "setter"@ {
        Some(ident_item(meta, |ident: Ident| ItemView::Setter(ident)))
    } else if key == "setter_name"@ {
        Some(ident_item(meta, |ident: Ident| ItemView::SetterName(ident)))
    } else if key == "doc_inherit"@ {
        Some(
            match meta_bool(meta) {
                Ok(value) => Ok(ItemView::DocInherit(value)),
                Err(error) => Err(error),
            },
        )
    } else {
        None
    }
}

/// The item that the attribute holds, or the error of its value; `None` where it does not know the
/// item's name.
pub open spec fn known_item(scope: Scope, meta: ParseNestedMeta<'_>) -> Option<
    Result<ItemView, syn::Error>,
> {
    match (meta_key(meta), scope) {
        (Some(key), Scope::Store) => store_item(key, meta),
        (Some(key), Scope::Config) => config_item(key, meta),
        (None, _) => None,
    }
}

/// What the user is told of an item that the attribute does not know.
pub open spec fn unknown_message(scope: Scope) -> Seq<char> {
    match scope {
        Scope::Store => "unknown attribute on #[object_store(...)]"@,
        Scope::Config => "unknown attribute on #[config(...)]"@,
    }
}

/// The error of an item that the attribute does not know.
pub open spec fn unknown_error(scope: Scope, meta: ParseNestedMeta<'_>) -> syn::Error {
    meta_error(meta, unknown_message(scope))
}

/// The view of an item that was read.
pub open spec fn read_view(res: Option<Result<Item, syn::Error>>) -> Option<
    Result<ItemView, syn::Error>,
> {
    match res {
        Some(Ok(item)) => Some(Ok(item@)),
        Some(Err(error)) => Some(Err(error)),
        None => None,
    }
}

/// Reads an item of `#[object_store(...)]` under its key; hands the item back where the key is not
/// known.
fn read_store_item<'a>(key: &str, meta: ParseNestedMeta<'a>) -> (res: Result<
    Result<Item, syn::Error>,
    ParseNestedMeta<'a>,
>)
    ensures
        match res {
            Ok(read) => read_view(Some(read)) == store_item(key@, meta),
            Err(back) => store_item(key@, meta) is None && back == meta,
        },
{
    if same_text(key, "config_key") {
        Ok(
            match read_ident(meta) {
                Ok(ident) => Ok(Item::ConfigKey(ident)),
                Err(error) => Err(error),
            },
        )
    } else if same_text(key, "error_path") {
        Ok(
            match read_path(meta) {
                Ok(path) => Ok(Item::ErrorPath(path)),
                Err(error) => Err(error),
            },
        )
    } else if same_text(key, "error_store") {
        Ok(
            match read_text(meta) {
                Ok(text) => Ok(Item::ErrorStore(text)),
                Err(error) => Err(error),
            },
        )
    } else {
        Err(meta)
    }
}

/// Reads an item of `#[config(...)]` under its key; hands the item back where the key is not known.
fn read_config_item<'a>(key: &str, meta: ParseNestedMeta<'a>) -> (res: Result<
    Result<Item, syn::Error>,
    ParseNestedMeta<'a>,
>)
    ensures
        match res {
            Ok(read) => read_view(Some(read)) == config_item(key@, meta),
            Err(back) => config_item(key@, meta) is None && back == meta,
        },
{
    if same_text(key, "skip") {
        Ok(Ok(Item::Skip))
    } else if same_text(key, "key") {
        Ok(
            match read_text(meta) {
                Ok(text) => Ok(Item::Key(text)),
                Err(error) => Err(error),
            },
        )
    } else if same_text(key, "aliases") {
        Ok(
            match read_array(meta) {
                Ok(elements) => Ok(Item::Aliases(elements)),
                Err(error) => Err(error),
            },
        )
    } else if same_text(key, "strategy") {
        Ok(
            match read_ident(meta) {
                Ok(ident) => Ok(Item::Strategy(ident)),
                Err(error) => Err(error),
            },
        )
    } else if same_text(key, "get_via") {
        Ok(
            match read_ident(meta) {
                Ok(ident) => Ok(Item::GetVia(ident)),
                Err(error) => Err(error),
            },
        )
    } else if same_text(key, "formatter") {
        Ok(
            match read_ident(meta) {
                Ok(ident) => Ok(Item::Formatter(ident)),
                Err(error) => Err(error),
            },
        )
    } else if same_text(key, "variant") {
        Ok(
            match read_ident(meta) {
                Ok(ident) => Ok(Item::Variant(ident)),
                Err(error) => Err(error),
            },
        )
    } else if same_text(key, "setter") {
        Ok(
            match read_ident(meta) {
                Ok(ident) => Ok(Item::Setter(ident)),
                Err(error) => Err(error),
            },
        )
    } else if same_text(key, "setter_name") {
        Ok(
            match read_ident(meta) {
                Ok(ident) => Ok(Item::SetterName(ident)),
                Err(error) => Err(error),
            },
        )
    } else if same_text(key, "doc_inherit") {
        Ok(
            match read_bool(meta) {
                Ok(value) => Ok(Item::DocInherit(value)),
                Err(error) => Err(error),
            },
        )
    } else {
        Err(meta)
    }
}

/// Reads an item and appends it to those before it. An item that the attribute does not know is
/// appended as the error that says so, and ends the reading.
pub(crate) fn read_item(scope: Scope, meta: ParseNestedMeta<'_>, items: &mut Vec<Item>) -> (res: Result<
    (),
    syn::Error,
>)
    requires
        meta_segments(meta) > 0,
    ensures
        match known_item(scope, meta) {
            Some(Ok(item)) => {
                &&& res is Ok
                &&& items_view(final(items)@) == items_view(old(items)@).push(item)
            },
            Some(Err(error)) => {
                &&& res == Err::<(), syn::Error>(error)
                &&& final(items)@ == old(items)@
            },
            None => {
                &&& res == Err::<(), syn::Error>(unknown_error(scope, meta))
                &&& items_view(final(items)@) == items_view(old(items)@).push(
                    ItemView::Unknown(unknown_error(scope, meta)),
                )
                &&& error_parts(unknown_error(scope, meta)) == seq![
                    Diagnostic {
                        start: meta_range(meta).0,
                        end: meta_range(meta).1,
                        message: unknown_message(scope),
                    },
                ]
            },
        },
{
    let ghost before = items@;
    let read: Result<Result<Item, syn::Error>, ParseNestedMeta<'_>> = match read_key(&meta) {
        None => Err(meta),
        Some(key) => match scope {
            Scope::Store => read_store_item(key.as_str(), meta),
            Scope::Config => read_config_item(key.as_str(), meta),
        },
    };
    match read {
        Ok(Ok(item)) => {
            let ghost view = item@;
            items.push(item);
            proof {
                assert(items_view(items@) =~= items_view(before).push(view));
            }
            Ok(())
        },
        Ok(Err(error)) => Err(error),
        Err(meta) => {
            let message: &str = match scope {
                Scope::Store => "unknown attribute on #[object_store(...)]",
                Scope::Config => "unknown attribute on #[config(...)]",
            };
            let error: syn::Error = item_error(&meta, message);
            items.push(Item::Unknown(error.clone()));
            proof {
                assert(items_view(items@) =~= items_view(before).push(ItemView::Unknown(error)));
            }
            Err(error)
        },
    }
}

/// The items of an attribute that could be read, in order, and the error that ended the reading
/// where there was one.
pub struct Nested {
    pub items: Vec<Item>,
    pub end: Option<syn::Error>,
}

pub struct NestedView {
    pub items: Seq<ItemView>,
    pub end: Option<syn::Error>,
}

impl Nested {
    pub open spec fn view(self) -> NestedView {
        NestedView { items: items_view(self.items@), end: self.end }
    }
}

/// What `Attribute::parse_nested_meta` hands to `read_item`: the items of the attribute, in order,
/// and the error of its own that it ends with where the attribute is not a list of items.
pub struct Handed {
    pub metas: Seq<ParseNestedMeta<'static>>,
    pub end: Option<syn::Error>,
}

/// What is handed out of an attribute.
pub uninterp spec fn handed(attribute: syn::Attribute, scope: Scope) -> Handed;

/// The items that can be read before the first that cannot, and the error that ends the reading.
pub open spec fn read_all(
    scope: Scope,
    metas: Seq<ParseNestedMeta<'static>>,
    end: Option<syn::Error>,
) -> NestedView
    decreases metas.len(),
{
    if metas.len() == 0 {
        NestedView { items: Seq::empty(), end }
    } else {
        match known_item(scope, metas[0]) {
            Some(Ok(item)) => {
                let rest = read_all(scope, metas.drop_first(), end);
                NestedView { items: seq![item] + rest.items, end: rest.end }
            },
            Some(Err(error)) => NestedView { items: Seq::empty(), end: Some(error) },
            None => NestedView {
                items: seq![ItemView::Unknown(unknown_error(scope, metas[0]))],
                end: Some(unknown_error(scope, metas[0])),
            },
        }
    }
}

/// The items of an attribute.
pub open spec fn nested_items(attribute: syn::Attribute, scope: Scope) -> NestedView {
    read_all(scope, handed(attribute, scope).metas, handed(attribute, scope).end)
}

/// `Attribute::parse_nested_meta`: it hands the items of the attribute, one behind the other, to
/// `read_item`, until that returns an error or the attribute ends, and returns the first error of
/// either. The path of each item has a segment, for it was parsed. For an attribute without arguments
/// the error tells the attribute's name, so it panics where the attribute's path has no segment, which
/// the precondition leaves out.
#[verifier::external_body]
pub(crate) fn read_nested(attribute: &syn::Attribute, scope: Scope) -> (res: Nested)
    requires
        attr_view(*attribute).name is Some,
    ensures
        res@ == read_all(
            scope,
            handed(*attribute, scope).metas,
            handed(*attribute, scope).end,
        ),
{
    let mut items = Vec::new();
    let end = attribute.parse_nested_meta(|meta| read_item(scope, meta, &mut items)).err();
    Nested { items, end }
}

} // verus!
