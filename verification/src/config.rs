//! `#[config(...)]`: what the attribute of a field asks for.

use crate::errors::{DeriveError, ErrorView, Problem, ProblemView};
use crate::infer::{Formatter, Strategy};
use crate::items::{
    elements_view, items_view, Element, ElementView, Item, ItemView, Nested, NestedView, Text,
    TextView,
};
use crate::names::same_text;
use crate::tokens::{ident_span, ident_text, ident_to_string};
use proc_macro2::{Ident, Span};
use vstd::prelude::*;

verus! {

/// Whether a field gets a setter of its own.
#[derive(Clone, Copy, PartialEq, Eq, Structural)]
pub enum SetterMode {
    Auto,
    Skip,
}

/// What the items of `#[config(...)]` ask for so far.
pub struct FieldOptions {
    pub skip: bool,
    pub key: Option<Text>,
    pub aliases: Vec<String>,
    pub strategy: Option<(Strategy, Span)>,
    pub formatter: Option<Formatter>,
    pub get_via: Option<Ident>,
    pub variant: Option<Ident>,
    pub setter: SetterMode,
    pub setter_name: Option<Ident>,
    pub doc_inherit: bool,
}

pub struct OptionsView {
    pub skip: bool,
    pub key: Option<TextView>,
    pub aliases: Seq<Seq<char>>,
    pub strategy: Option<(Strategy, Span)>,
    pub formatter: Option<Formatter>,
    pub get_via: Option<Ident>,
    pub variant: Option<Ident>,
    pub setter: SetterMode,
    pub setter_name: Option<Ident>,
    pub doc_inherit: bool,
}

/// The texts of several strings.
pub open spec fn texts(strings: Seq<String>) -> Seq<Seq<char>> {
    Seq::new(strings.len(), |i: int| strings[i]@)
}

impl FieldOptions {
    pub open spec fn view(self) -> OptionsView {
        OptionsView {
            skip: self.skip,
            key: match self.key {
                Some(text) => Some(text@),
                None => None,
            },
            aliases: texts(self.aliases@),
            strategy: self.strategy,
            formatter: self.formatter,
            get_via: self.get_via,
            variant: self.variant,
            setter: self.setter,
            setter_name: self.setter_name,
            doc_inherit: self.doc_inherit,
        }
    }
}

/// What is asked for without an item.
pub open spec fn no_options() -> OptionsView {
    OptionsView {
        skip: false,
        key: None,
        aliases: Seq::empty(),
        strategy: None,
        formatter: None,
        get_via: None,
        variant: None,
        setter: SetterMode::Auto,
        setter_name: None,
        doc_inherit: true,
    }
}

/// The strategy of a name.
pub open spec fn strategy_named(name: Seq<char>) -> Option<Strategy> {
    if name == "option_string"@ {
        Some(Strategy::OptionString)
    } else if name == "config_value"@ {
        Some(Strategy::ConfigValue)
    } else if name == "option_config_value_deferred"@ {
        Some(Strategy::OptionConfigValueDeferred)
    } else {
        None
    }
}

/// The formatter of a name.
pub open spec fn formatter_named(name: Seq<char>) -> Option<Formatter> {
    if name == "to_string"@ {
        Some(Formatter::ToString)
    } else if name == "duration"@ {
        Some(Formatter::Duration)
    } else {
        None
    }
}

/// The setter mode of a name.
pub open spec fn setter_named(name: Seq<char>) -> Option<SetterMode> {
    if name == "auto"@ {
        Some(SetterMode::Auto)
    } else if name == "skip"@ {
        Some(SetterMode::Skip)
    } else {
        None
    }
}

/// The values of string literals, or the error of the first element that is none.
pub open spec fn alias_texts(elements: Seq<ElementView>) -> Result<Seq<Seq<char>>, ErrorView>
    decreases elements.len(),
{
    if elements.len() == 0 {
        Ok(Seq::empty())
    } else {
        match (alias_texts(elements.drop_last()), elements.last()) {
            (Err(error), _) => Err(error),
            (Ok(before), ElementView::Text(text)) => Ok(before.push(text)),
            (Ok(_), ElementView::Other(tokens)) => Err(
                ErrorView::Over(ProblemView::AliasNotText, tokens),
            ),
        }
    }
}

/// What is asked for with one item more: it takes the place of an earlier one of its name, but for
/// aliases, which add up. An item of another attribute says nothing.
pub open spec fn config_step(options: OptionsView, item: ItemView) -> Result<
    OptionsView,
    ErrorView,
> {
    match item {
        ItemView::Skip => Ok(OptionsView { skip: true, ..options }),
        ItemView::Key(text) => if text.value.len() == 0 {
            Err(ErrorView::At(ProblemView::EmptyKey, text.span))
        } else {
            Ok(OptionsView { key: Some(text), ..options })
        },
        ItemView::Aliases(elements) => match alias_texts(elements) {
            Ok(aliases) => Ok(OptionsView { aliases: options.aliases + aliases, ..options }),
            Err(error) => Err(error),
        },
        ItemView::Strategy(ident) => match strategy_named(ident_text(ident)) {
            Some(strategy) => Ok(
                OptionsView { strategy: Some((strategy, ident_span(ident))), ..options },
            ),
            None => Err(ErrorView::At(ProblemView::UnknownStrategy(ident), ident_span(ident))),
        },
        ItemView::GetVia(ident) => Ok(OptionsView { get_via: Some(ident), ..options }),
        ItemView::Formatter(ident) => match formatter_named(ident_text(ident)) {
            Some(formatter) => Ok(OptionsView { formatter: Some(formatter), ..options }),
            None => Err(ErrorView::At(ProblemView::UnknownFormatter(ident), ident_span(ident))),
        },
        ItemView::Variant(ident) => Ok(OptionsView { variant: Some(ident), ..options }),
        ItemView::Setter(ident) => match setter_named(ident_text(ident)) {
            Some(setter) => Ok(OptionsView { setter, ..options }),
            None => Err(ErrorView::At(ProblemView::UnknownSetter(ident), ident_span(ident))),
        },
        ItemView::SetterName(ident) => Ok(OptionsView { setter_name: Some(ident), ..options }),
        ItemView::DocInherit(value) => Ok(OptionsView { doc_inherit: value, ..options }),
        ItemView::Unknown(error) => Err(ErrorView::Syntax(error)),
        ItemView::ConfigKey(_) | ItemView::ErrorPath(_) | ItemView::ErrorStore(_) => Ok(options),
    }
}

/// What several items ask for, or the first error.
pub open spec fn config_steps(items: Seq<ItemView>) -> Result<OptionsView, ErrorView>
    decreases items.len(),
{
    if items.len() == 0 {
        Ok(no_options())
    } else {
        match config_steps(items.drop_last()) {
            Ok(before) => config_step(before, items.last()),
            Err(error) => Err(error),
        }
    }
}

/// What the items of a `#[config(...)]` ask for, or the first error.
pub open spec fn config_options(nested: NestedView) -> Result<OptionsView, ErrorView> {
    match (config_steps(nested.items), nested.end) {
        (Err(error), _) => Err(error),
        (Ok(_), Some(error)) => Err(ErrorView::Syntax(error)),
        (Ok(options), None) => Ok(options),
    }
}

/// The view of options or an error.
pub open spec fn options_outcome(res: Result<FieldOptions, DeriveError>) -> Result<
    OptionsView,
    ErrorView,
> {
    match res {
        Ok(options) => Ok(options@),
        Err(error) => Err(error@),
    }
}

/// The options of a field without an item.
pub fn no_field_options() -> (res: FieldOptions)
    ensures
        res@ == no_options(),
{
    let options: FieldOptions = FieldOptions {
        skip: false,
        key: None,
        aliases: Vec::new(),
        strategy: None,
        formatter: None,
        get_via: None,
        variant: None,
        setter: SetterMode::Auto,
        setter_name: None,
        doc_inherit: true,
    };
    proof {
        assert(options@.aliases =~= Seq::<Seq<char>>::empty());
    }
    options
}

/// Takes the elements of `aliases = [...]`.
fn take_aliases(aliases: &mut Vec<String>, elements: &Vec<Element>) -> (res: Result<(), DeriveError>)
    ensures
        match alias_texts(elements_view(elements@)) {
            Ok(more) => res is Ok && texts(final(aliases)@) == texts(old(aliases)@) + more,
            Err(error) => res matches Err(e) && e@ == error,
        },
{
    let ghost start = texts(aliases@);
    let ghost views = elements_view(elements@);
    let mut i: usize = 0;
    proof {
        assert(views.take(0) =~= Seq::<ElementView>::empty());
        assert(start + Seq::<Seq<char>>::empty() =~= start);
    }
    while i < elements.len()
        invariant
            i <= elements.len(),
            views == elements_view(elements@),
            match alias_texts(views.take(i as int)) {
                Ok(more) => texts(aliases@) == start + more,
                Err(_) => false,
            },
        decreases elements.len() - i,
    {
        let ghost before = aliases@;
        let ghost more = alias_texts(views.take(i as int))->Ok_0;
        proof {
            assert(views.take(i + 1).drop_last() =~= views.take(i as int));
            assert(views.take(i + 1).last() == elements@[i as int]@);
        }
        match &elements[i] {
            Element::Text(text) => {
                aliases.push(text.clone());
                proof {
                    assert(texts(aliases@) =~= texts(before).push(text@));
                    assert(texts(aliases@) =~= start + more.push(text@));
                }
            },
            Element::Other(tokens) => {
                proof {
                    lemma_alias_error(views, i + 1);
                }
                return Err(DeriveError::Over(Problem::AliasNotText, tokens.clone()));
            },
        }
        i = i + 1;
    }
    proof {
        assert(views.take(i as int) =~= views);
    }
    Ok(())
}

/// An error among the first elements is the error of them all.
proof fn lemma_alias_error(elements: Seq<ElementView>, n: int)
    requires
        0 <= n <= elements.len(),
        alias_texts(elements.take(n)) is Err,
    ensures
        alias_texts(elements) == alias_texts(elements.take(n)),
    decreases elements.len() - n,
{
    if n == elements.len() {
        assert(elements.take(n) =~= elements);
    } else {
        assert(elements.take(n + 1).drop_last() =~= elements.take(n));
        lemma_alias_error(elements, n + 1);
    }
}

/// The strategy of a name.
pub fn find_strategy(name: &str) -> (res: Option<Strategy>)
    ensures
        res == strategy_named(name@),
{
    if same_text(name, "option_string") {
        Some(Strategy::OptionString)
    } else if same_text(name, "config_value") {
        Some(Strategy::ConfigValue)
    } else if same_text(name, "option_config_value_deferred") {
        Some(Strategy::OptionConfigValueDeferred)
    } else {
        None
    }
}

/// The formatter of a name.
pub fn find_formatter(name: &str) -> (res: Option<Formatter>)
    ensures
        res == formatter_named(name@),
{
    if same_text(name, "to_string") {
        Some(Formatter::ToString)
    } else if same_text(name, "duration") {
        Some(Formatter::Duration)
    } else {
        None
    }
}

/// The setter mode of a name.
pub fn find_setter(name: &str) -> (res: Option<SetterMode>)
    ensures
        res == setter_named(name@),
{
    if same_text(name, "auto") {
        Some(SetterMode::Auto)
    } else if same_text(name, "skip") {
        Some(SetterMode::Skip)
    } else {
        None
    }
}

/// Takes one item of `#[config(...)]`.
pub fn take_config_item(options: &mut FieldOptions, item: Item) -> (res: Result<(), DeriveError>)
    ensures
        match config_step(old(options)@, item@) {
            Ok(next) => res is Ok && final(options)@ == next,
            Err(error) => res matches Err(e) && e@ == error,
        },
{
    match item {
        Item::Skip => {
            options.skip = true;
            Ok(())
        },
        Item::Key(text) => {
            if text.value.as_str().is_empty() {
                return Err(DeriveError::At(Problem::EmptyKey, text.span));
            }
            options.key = Some(text);
            Ok(())
        },
        Item::Aliases(elements) => take_aliases(&mut options.aliases, &elements),
        Item::Strategy(ident) => match find_strategy(ident_to_string(&ident).as_str()) {
            Some(strategy) => {
                options.strategy = Some((strategy, ident.span()));
                Ok(())
            },
            None => {
                let span: Span = ident.span();
                Err(DeriveError::At(Problem::UnknownStrategy(ident), span))
            },
        },
        Item::GetVia(ident) => {
            options.get_via = Some(ident);
            Ok(())
        },
        Item::Formatter(ident) => match find_formatter(ident_to_string(&ident).as_str()) {
            Some(formatter) => {
                options.formatter = Some(formatter);
                Ok(())
            },
            None => {
                let span: Span = ident.span();
                Err(DeriveError::At(Problem::UnknownFormatter(ident), span))
            },
        },
        Item::Variant(ident) => {
            options.variant = Some(ident);
            Ok(())
        },
        Item::Setter(ident) => match find_setter(ident_to_string(&ident).as_str()) {
            Some(setter) => {
                options.setter = setter;
                Ok(())
            },
            None => {
                let span: Span = ident.span();
                Err(DeriveError::At(Problem::UnknownSetter(ident), span))
            },
        },
        Item::SetterName(ident) => {
            options.setter_name = Some(ident);
            Ok(())
        },
        Item::DocInherit(value) => {
            options.doc_inherit = value;
            Ok(())
        },
        Item::Unknown(error) => Err(DeriveError::Syntax(error)),
        Item::ConfigKey(_) | Item::ErrorPath(_) | Item::ErrorStore(_) => Ok(()),
    }
}

/// An error among the first items is the error of them all.
proof fn lemma_config_error(items: Seq<ItemView>, n: int)
    requires
        0 <= n <= items.len(),
        config_steps(items.take(n)) is Err,
    ensures
        config_steps(items) == config_steps(items.take(n)),
    decreases items.len() - n,
{
    if n == items.len() {
        assert(items.take(n) =~= items);
    } else {
        assert(items.take(n + 1).drop_last() =~= items.take(n));
        lemma_config_error(items, n + 1);
    }
}

/// Takes the items of a `#[config(...)]`.
pub fn take_config_items(nested: Nested) -> (res: Result<FieldOptions, DeriveError>)
    ensures
        options_outcome(res) == config_options(nested@),
{
    let mut options: FieldOptions = no_field_options();
    let ghost items = nested@.items;
    let ghost given = nested.items@;
    let ghost end = nested.end;
    let mut rest: Vec<Item> = nested.items;
    let mut i: usize = 0;
    let n: usize = rest.len();
    proof {
        assert(items.take(0) =~= Seq::<ItemView>::empty());
    }
    while i < n
        invariant
            i <= n,
            n == items.len(),
            items == items_view(given),
            rest@ == given.skip(i as int),
            config_steps(items.take(i as int)) == Ok::<OptionsView, ErrorView>(options@),
            items == nested@.items,
        decreases n - i,
    {
        proof {
            assert(items.take(i + 1).drop_last() =~= items.take(i as int));
            assert(items.take(i + 1).last() == given[i as int]@);
            assert(given.skip(i as int)[0] == given[i as int]);
        }
        let item: Item = rest.remove(0);
        proof {
            assert(rest@ =~= given.skip(i + 1));
        }
        if let Err(error) = take_config_item(&mut options, item) {
            proof {
                lemma_config_error(items, i + 1);
            }
            return Err(error);
        }
        i = i + 1;
    }
    proof {
        assert(items.take(i as int) =~= items);
    }
    match nested.end {
        Some(error) => Err(DeriveError::Syntax(error)),
        None => Ok(options),
    }
}

} // verus!
