//! What the type of a field tells: the strategy, the formatter, and the type that a setter takes.

use crate::errors::{DeriveError, ErrorView, Problem, ProblemView};
use crate::names::same_text;
use crate::syntax::{TailView, TypeInfo, TypeView};
use vstd::prelude::*;

verus! {

/// How the value of a field is kept.
#[derive(Clone, Copy, PartialEq, Eq, Structural)]
pub enum Strategy {
    /// `Option<String>`: the text itself.
    OptionString,
    /// `ConfigValue<T>`: parsed by the value.
    ConfigValue,
    /// `Option<ConfigValue<T>>`: kept to be parsed later.
    OptionConfigValueDeferred,
}

/// How the value of a field is written.
#[derive(Clone, Copy, PartialEq, Eq, Structural)]
pub enum Formatter {
    ToString,
    Duration,
}

/// The first argument that is a type.
pub open spec fn first_type(args: Seq<Option<TypeView>>) -> Option<TypeView>
    decreases args.len(),
{
    if args.len() == 0 {
        None
    } else if args[0] is Some {
        args[0]
    } else {
        first_type(args.drop_first())
    }
}

/// The `T` of `wrapper<T>`: for a path whose last segment is `wrapper` with arguments between angle
/// brackets, the first of these that is a type.
pub open spec fn type_argument(ty: TypeView, wrapper: Seq<char>) -> Option<TypeView> {
    match ty.tail {
        Some(TailView { name, args: Some(args) }) if name == wrapper => first_type(args),
        _ => None,
    }
}

/// Whether the type is a path that ends in the name.
pub open spec fn ends_in(ty: TypeView, name: Seq<char>) -> bool {
    ty.tail matches Some(tail) && tail.name == name
}

/// The `T` of `Option<ConfigValue<T>>`.
pub open spec fn deferred_argument(ty: TypeView) -> Option<TypeView> {
    match type_argument(ty, "Option"@) {
        Some(inner) => type_argument(inner, "ConfigValue"@),
        None => None,
    }
}

/// The strategy that a type tells: `Option<ConfigValue<T>>`, `Option<String>` and `ConfigValue<T>`
/// tell one, every other type tells none.
pub open spec fn inferred_strategy(ty: TypeView) -> Option<Strategy> {
    match type_argument(ty, "Option"@) {
        Some(inner) => if type_argument(inner, "ConfigValue"@) is Some {
            Some(Strategy::OptionConfigValueDeferred)
        } else if ends_in(inner, "String"@) {
            Some(Strategy::OptionString)
        } else {
            None
        },
        None => if type_argument(ty, "ConfigValue"@) is Some {
            Some(Strategy::ConfigValue)
        } else {
            None
        },
    }
}

/// The formatter that a strategy and a type tell: `Duration` for an `Option<ConfigValue<Duration>>`
/// that is kept to be parsed later.
pub open spec fn inferred_formatter(strategy: Strategy, ty: TypeView) -> Formatter {
    if strategy == Strategy::OptionConfigValueDeferred && (deferred_argument(ty) matches Some(inner)
        && ends_in(inner, "Duration"@)) {
        Formatter::Duration
    } else {
        Formatter::ToString
    }
}

/// The view of a type, where there is one.
pub open spec fn type_ref_view(ty: Option<&TypeInfo>) -> Option<TypeView> {
    match ty {
        Some(ty) => Some(ty@),
        None => None,
    }
}

/// Whether the type is a path that ends in the name.
pub fn last_segment_is(ty: &TypeInfo, name: &str) -> (res: bool)
    ensures
        res == ends_in(ty@, name@),
{
    match &ty.tail {
        Some(tail) => same_text(tail.name.as_str(), name),
        None => false,
    }
}

/// The `T` of `wrapper<T>`.
pub fn extract_single_generic_arg_as_type<'a>(ty: &'a TypeInfo, wrapper: &str) -> (res: Option<
    &'a TypeInfo,
>)
    ensures
        type_ref_view(res) == type_argument(ty@, wrapper@),
{
    match &ty.tail {
        None => None,
        Some(tail) => {
            if !same_text(tail.name.as_str(), wrapper) {
                return None;
            }
            match &tail.args {
                None => None,
                Some(args) => {
                    let ghost views = ty@.tail.unwrap().args.unwrap();
                    let mut i: usize = 0;
                    proof {
                        assert(views.skip(0) =~= views);
                    }
                    while i < args.len()
                        invariant
                            i <= args.len(),
                            views == ty@.tail.unwrap().args.unwrap(),
                            ty.tail == Some(*tail),
                            tail.args == Some(*args),
                            views.len() == args.len(),
                            type_argument(ty@, wrapper@) == first_type(views),
                            first_type(views) == first_type(views.skip(i as int)),
                        decreases args.len() - i,
                    {
                        proof {
                            assert(views.skip(i as int)[0] == views[i as int]);
                            assert(views.skip(i as int).drop_first() =~= views.skip(i + 1));
                        }
                        if let Some(arg) = &args[i] {
                            return Some(arg);
                        }
                        i = i + 1;
                    }
                    None
                },
            }
        },
    }
}

/// Infers the strategy of a field from its type.
pub fn infer_strategy(ty: &TypeInfo) -> (res: Option<Strategy>)
    ensures
        res == inferred_strategy(ty@),
{
    if let Some(inner) = extract_single_generic_arg_as_type(ty, "Option") {
        if extract_single_generic_arg_as_type(inner, "ConfigValue").is_some() {
            return Some(Strategy::OptionConfigValueDeferred);
        }
        if last_segment_is(inner, "String") {
            return Some(Strategy::OptionString);
        }
        return None;
    }
    if extract_single_generic_arg_as_type(ty, "ConfigValue").is_some() {
        return Some(Strategy::ConfigValue);
    }
    None
}

/// Infers the formatter of a field from its strategy and its type.
pub fn infer_formatter(strategy: Strategy, ty: &TypeInfo) -> (res: Formatter)
    ensures
        res == inferred_formatter(strategy, ty@),
{
    if strategy != Strategy::OptionConfigValueDeferred {
        return Formatter::ToString;
    }
    match extract_single_generic_arg_as_type(ty, "Option") {
        Some(outer) => match extract_single_generic_arg_as_type(outer, "ConfigValue") {
            Some(inner) => {
                if last_segment_is(inner, "Duration") {
                    Formatter::Duration
                } else {
                    Formatter::ToString
                }
            },
            None => Formatter::ToString,
        },
        None => Formatter::ToString,
    }
}

/// The `T` of `ConfigValue<T>`, or the error that the type is none.
pub open spec fn config_value_inner(ty: TypeView) -> Result<TypeView, ErrorView> {
    match type_argument(ty, "ConfigValue"@) {
        Some(inner) => Ok(inner),
        None => Err(ErrorView::Over(ProblemView::NotConfigValue, ty.tokens)),
    }
}

/// The `T` of `Option<ConfigValue<T>>`, or the error that the type is none.
pub open spec fn option_config_value_inner(ty: TypeView) -> Result<TypeView, ErrorView> {
    match type_argument(ty, "Option"@) {
        Some(inner) => config_value_inner(inner),
        None => Err(ErrorView::Over(ProblemView::NotOption, ty.tokens)),
    }
}

/// The view of a type or an error.
pub open spec fn type_result_view(res: Result<&TypeInfo, DeriveError>) -> Result<
    TypeView,
    ErrorView,
> {
    match res {
        Ok(ty) => Ok(ty@),
        Err(error) => Err(error@),
    }
}

/// The `T` of `ConfigValue<T>`.
pub fn extract_config_value_inner<'a>(ty: &'a TypeInfo) -> (res: Result<&'a TypeInfo, DeriveError>)
    ensures
        type_result_view(res) == config_value_inner(ty@),
{
    match extract_single_generic_arg_as_type(ty, "ConfigValue") {
        Some(inner) => Ok(inner),
        None => Err(DeriveError::Over(Problem::NotConfigValue, ty.tokens.clone())),
    }
}

/// The `T` of `Option<ConfigValue<T>>`.
pub fn extract_option_config_value_inner<'a>(ty: &'a TypeInfo) -> (res: Result<
    &'a TypeInfo,
    DeriveError,
>)
    ensures
        type_result_view(res) == option_config_value_inner(ty@),
{
    match extract_single_generic_arg_as_type(ty, "Option") {
        Some(inner) => extract_config_value_inner(inner),
        None => Err(DeriveError::Over(Problem::NotOption, ty.tokens.clone())),
    }
}

} // verus!
