//! The fields of a definition: which of them take part, and what is generated for each.

use crate::config::{
    config_options, no_field_options, no_options, take_config_items, texts, FieldOptions,
    OptionsView, SetterMode,
};
use crate::errors::{DeriveError, ErrorView, Problem, ProblemView};
use crate::infer::{
    infer_formatter, infer_strategy, inferred_formatter, inferred_strategy, Formatter, Strategy,
};
use crate::items::{nested_items, read_nested, Scope};
use crate::laws::law_given_keys_are_not_empty;
use crate::names::{pascal, setter_for, snake_to_pascal, unraw, Name, NameView};
use crate::syntax::{attrs_view, Attr, AttrView, FieldDecl, FieldView, TypeInfo, TypeView};
use crate::tokens::{ident_span, ident_text, ident_to_string};
use proc_macro2::{Ident, Span, TokenStream};
use vstd::prelude::*;

verus! {

/// What is generated for a field.
pub struct FieldAttrs {
    pub key: String,
    pub key_span: Span,
    pub aliases: Vec<String>,
    pub strategy: Strategy,
    pub formatter: Formatter,
    pub get_via: Option<Ident>,
    pub variant: Name,
    pub setter: SetterMode,
    pub setter_name: Name,
    pub doc_inherit: bool,
    pub cfg_attrs: Vec<TokenStream>,
    pub docs: Vec<TokenStream>,
}

pub struct FieldAttrsView {
    pub key: Seq<char>,
    pub key_span: Span,
    pub aliases: Seq<Seq<char>>,
    pub strategy: Strategy,
    pub formatter: Formatter,
    pub get_via: Option<Ident>,
    pub variant: NameView,
    pub setter: SetterMode,
    pub setter_name: NameView,
    pub doc_inherit: bool,
    pub cfg_attrs: Seq<TokenStream>,
    pub docs: Seq<TokenStream>,
}

impl FieldAttrs {
    pub open spec fn view(self) -> FieldAttrsView {
        FieldAttrsView {
            key: self.key@,
            key_span: self.key_span,
            aliases: texts(self.aliases@),
            strategy: self.strategy,
            formatter: self.formatter,
            get_via: self.get_via,
            variant: self.variant@,
            setter: self.setter,
            setter_name: self.setter_name@,
            doc_inherit: self.doc_inherit,
            cfg_attrs: self.cfg_attrs@,
            docs: self.docs@,
        }
    }
}

/// The only `#[config]` among several attributes, or the error of a second one.
pub open spec fn config_attr(attrs: Seq<AttrView>) -> Result<Option<AttrView>, ErrorView>
    decreases attrs.len(),
{
    if attrs.len() == 0 {
        Ok(None)
    } else {
        match config_attr(attrs.drop_last()) {
            Err(error) => Err(error),
            Ok(found) => if attrs.last().name != Some("config"@) {
                Ok(found)
            } else if found is Some {
                Err(ErrorView::Over(ProblemView::SecondConfig, attrs.last().tokens))
            } else {
                Ok(Some(attrs.last()))
            },
        }
    }
}

/// The tokens of the attributes of a name, in order.
pub open spec fn tokens_named(attrs: Seq<AttrView>, name: Seq<char>) -> Seq<TokenStream>
    decreases attrs.len(),
{
    if attrs.len() == 0 {
        Seq::empty()
    } else if attrs.last().name == Some(name) {
        tokens_named(attrs.drop_last(), name).push(attrs.last().tokens)
    } else {
        tokens_named(attrs.drop_last(), name)
    }
}

/// What is generated for a field of which the strategy is known.
pub open spec fn field_plan(
    field: FieldView,
    ident: Ident,
    options: OptionsView,
    strategy: Strategy,
) -> FieldAttrsView {
    FieldAttrsView {
        key: match options.key {
            Some(text) => text.value,
            None => ident_text(ident),
        },
        key_span: match options.key {
            Some(text) => text.span,
            None => ident_span(ident),
        },
        aliases: options.aliases,
        strategy,
        formatter: match options.formatter {
            Some(formatter) => formatter,
            None => inferred_formatter(strategy, field.ty),
        },
        get_via: options.get_via,
        variant: match options.variant {
            Some(variant) => NameView::Given(variant),
            None => NameView::Made(pascal(ident_text(ident)), ident_span(ident)),
        },
        setter: options.setter,
        setter_name: match options.setter_name {
            Some(name) => NameView::Given(name),
            None => NameView::Made("with_"@ + unraw(ident_text(ident)), ident_span(ident)),
        },
        doc_inherit: options.doc_inherit,
        cfg_attrs: tokens_named(field.attrs, "cfg"@),
        docs: tokens_named(field.attrs, "doc"@),
    }
}

/// What is generated for a field: nothing where it is skipped, and nothing where neither
/// `#[config]` nor its type says that it takes part.
pub open spec fn resolved(
    field: FieldView,
    ident: Ident,
    opted_in: bool,
    options: OptionsView,
) -> Result<Option<FieldAttrsView>, ErrorView> {
    let strategy = match options.strategy {
        Some((strategy, _)) => Some(strategy),
        None => inferred_strategy(field.ty),
    };
    if options.skip {
        Ok(None)
    } else {
        match strategy {
            None => if opted_in {
                Err(ErrorView::Over(ProblemView::NoStrategy, field.ty.tokens))
            } else {
                Ok(None)
            },
            Some(strategy) => if options.formatter is Some && strategy
                != Strategy::OptionConfigValueDeferred {
                Err(
                    ErrorView::At(
                        ProblemView::MisplacedFormatter,
                        match options.strategy {
                            Some((_, span)) => span,
                            None => field.ty.span,
                        },
                    ),
                )
            } else {
                Ok(Some(field_plan(field, ident, options, strategy)))
            },
        }
    }
}

/// What is asked for by the `#[config]` of a field, if it has one: without arguments in
/// parentheses it asks for nothing.
pub open spec fn attr_options(config: Option<AttrView>) -> Result<OptionsView, ErrorView> {
    match config {
        Some(attr) => if attr.list {
            config_options(nested_items(attr.attribute, Scope::Config))
        } else {
            Ok(no_options())
        },
        None => Ok(no_options()),
    }
}

/// What is generated for a field, or why it is refused.
pub open spec fn field_attrs(field: FieldView) -> Result<Option<FieldAttrsView>, ErrorView> {
    match field.ident {
        None => Err(ErrorView::At(ProblemView::NamelessField, field.span)),
        Some(ident) => match config_attr(field.attrs) {
            Err(error) => Err(error),
            Ok(config) => match attr_options(config) {
                Err(error) => Err(error),
                Ok(options) => resolved(field, ident, config is Some, options),
            },
        },
    }
}

/// The view of what is generated for a field, or of an error.
pub open spec fn field_outcome(res: Result<Option<FieldAttrs>, DeriveError>) -> Result<
    Option<FieldAttrsView>,
    ErrorView,
> {
    match res {
        Ok(Some(attrs)) => Ok(Some(attrs@)),
        Ok(None) => Ok(None),
        Err(error) => Err(error@),
    }
}

/// The tokens of the attributes of a name, in order.
pub fn collect_named(attrs: &Vec<Attr>, name: &str) -> (res: Vec<TokenStream>)
    ensures
        res@ == tokens_named(attrs_view(attrs@), name@),
{
    let ghost views = attrs_view(attrs@);
    let mut found: Vec<TokenStream> = Vec::new();
    let mut i: usize = 0;
    while i < attrs.len()
        invariant
            i <= attrs.len(),
            views == attrs_view(attrs@),
            found@ == tokens_named(views.take(i as int), name@),
        decreases attrs.len() - i,
    {
        proof {
            assert(views.take(i + 1).drop_last() =~= views.take(i as int));
            assert(views.take(i + 1).last() == attrs@[i as int]@);
        }
        if attrs[i].is_named(name) {
            found.push(attrs[i].tokens().clone());
        }
        i = i + 1;
    }
    proof {
        assert(views.take(i as int) =~= views);
    }
    found
}

/// Decides what is generated for a field from what its `#[config]` asks for; `opted_in` tells
/// whether it has one.
pub fn resolve_field(field: &FieldDecl, ident: &Ident, opted_in: bool, options: FieldOptions) -> (res:
    Result<Option<FieldAttrs>, DeriveError>)
    ensures
        field_outcome(res) == resolved(field@, *ident, opted_in, options@),
        options@.key is None ==> (res matches Ok(Some(attrs)) ==> attrs@.key.len() > 0),
{
    if options.skip {
        return Ok(None);
    }
    let strategy: Strategy = match options.strategy {
        Some((strategy, _)) => strategy,
        None => match infer_strategy(&field.ty) {
            Some(strategy) => strategy,
            None => {
                if opted_in {
                    return Err(DeriveError::Over(Problem::NoStrategy, field.ty.tokens.clone()));
                }
                return Ok(None);
            },
        },
    };
    if options.formatter.is_some() && strategy != Strategy::OptionConfigValueDeferred {
        let span: Span = match options.strategy {
            Some((_, span)) => span,
            None => field.ty.span,
        };
        return Err(DeriveError::At(Problem::MisplacedFormatter, span));
    }
    let formatter: Formatter = match options.formatter {
        Some(formatter) => formatter,
        None => infer_formatter(strategy, &field.ty),
    };
    let (key, key_span): (String, Span) = match options.key {
        Some(text) => (text.value, text.span),
        None => (ident_to_string(ident), ident.span()),
    };
    let variant: Name = match options.variant {
        Some(variant) => Name::Given(variant),
        None => snake_to_pascal(ident),
    };
    let setter_name: Name = match options.setter_name {
        Some(name) => Name::Given(name),
        None => setter_for(ident),
    };
    Ok(
        Some(
            FieldAttrs {
                key,
                key_span,
                aliases: options.aliases,
                strategy,
                formatter,
                get_via: options.get_via,
                variant,
                setter: options.setter,
                setter_name,
                doc_inherit: options.doc_inherit,
                cfg_attrs: collect_named(&field.attrs, "cfg"),
                docs: collect_named(&field.attrs, "doc"),
            },
        ),
    )
}

/// An error among the first attributes is the error of them all.
proof fn lemma_config_attr_error(attrs: Seq<AttrView>, n: int)
    requires
        0 <= n <= attrs.len(),
        config_attr(attrs.take(n)) is Err,
    ensures
        config_attr(attrs) == config_attr(attrs.take(n)),
    decreases attrs.len() - n,
{
    if n == attrs.len() {
        assert(attrs.take(n) =~= attrs);
    } else {
        assert(attrs.take(n + 1).drop_last() =~= attrs.take(n));
        lemma_config_attr_error(attrs, n + 1);
    }
}

/// Reads what is generated for a field.
pub fn parse_field_attrs(field: &FieldDecl) -> (res: Result<Option<FieldAttrs>, DeriveError>)
    ensures
        field_outcome(res) == field_attrs(field@),
        res matches Ok(Some(attrs)) ==> attrs@.key.len() > 0,
{
    let ident: &Ident = match &field.ident {
        Some(ident) => ident,
        None => {
            return Err(DeriveError::At(Problem::NamelessField, field.span));
        },
    };
    let ghost attrs = field@.attrs;
    let mut config: Option<&Attr> = None;
    let mut i: usize = 0;
    while i < field.attrs.len()
        invariant
            i <= field.attrs.len(),
            attrs == attrs_view(field.attrs@),
            attrs == field@.attrs,
            field@.ident == Some(*ident),
            config matches Some(attr) ==> attr@.name == Some("config"@),
            config_attr(attrs.take(i as int)) == Ok::<Option<AttrView>, ErrorView>(
                match config {
                    Some(attr) => Some(attr@),
                    None => None,
                },
            ),
        decreases field.attrs.len() - i,
    {
        proof {
            assert(attrs.take(i + 1).drop_last() =~= attrs.take(i as int));
            assert(attrs.take(i + 1).last() == field.attrs@[i as int]@);
        }
        if field.attrs[i].is_named("config") {
            if config.is_some() {
                proof {
                    lemma_config_attr_error(attrs, i + 1);
                }
                return Err(DeriveError::Over(Problem::SecondConfig, field.attrs[i].tokens().clone()));
            }
            config = Some(&field.attrs[i]);
        }
        i = i + 1;
    }
    proof {
        assert(attrs.take(i as int) =~= attrs);
    }
    let options: FieldOptions = match config {
        Some(attr) => {
            if attr.is_list() {
                match take_config_items(read_nested(attr.attribute(), Scope::Config)) {
                    Ok(options) => options,
                    Err(error) => {
                        return Err(error);
                    },
                }
            } else {
                no_field_options()
            }
        },
        None => no_field_options(),
    };
    proof {
        if let Some(attr) = config {
            law_given_keys_are_not_empty(nested_items(attr@.attribute, Scope::Config));
        }
    }
    resolve_field(field, ident, config.is_some(), options)
}

/// A field that takes part.
pub struct FieldDef<'a> {
    pub ty: &'a TypeInfo,
    pub field_ident: Ident,
    pub attrs: FieldAttrs,
}

pub struct FieldDefView {
    pub ty: TypeView,
    pub field_ident: Ident,
    pub attrs: FieldAttrsView,
}

impl<'a> FieldDef<'a> {
    pub open spec fn view(self) -> FieldDefView {
        FieldDefView { ty: self.ty@, field_ident: self.field_ident, attrs: self.attrs@ }
    }
}

/// The views of several fields.
pub open spec fn defs_view(fields: Seq<FieldDef<'_>>) -> Seq<FieldDefView> {
    Seq::new(fields.len(), |i: int| fields[i].view())
}

} // verus!
