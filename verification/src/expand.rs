//! From a definition to the code that is generated for it.

use crate::code::{Code, Token};
use crate::errors::{DeriveError, ErrorView, Problem, ProblemView};
use crate::fields::{defs_view, field_attrs, parse_field_attrs, FieldDef, FieldDefView};
use crate::generate::{
    asref_code, code_outcome, dispatch_code, enum_code, fromstr_code, generate_asref,
    generate_dispatch, generate_enum, generate_fromstr, generate_setters, setters_code,
};
use crate::keys::{all_keys, check_duplicate_keys, repeated};
use crate::store::{parse_struct_attrs, struct_attrs, StructAttrs};
use crate::syntax::{fields_view, Body, BodyView, Definition, DefinitionView, FieldDecl, FieldView};
use proc_macro2::Ident;
use vstd::prelude::*;

verus! {

/// The fields that take part, or the first error.
pub open spec fn field_defs(fields: Seq<FieldView>) -> Result<Seq<FieldDefView>, ErrorView>
    decreases fields.len(),
{
    if fields.len() == 0 {
        Ok(Seq::empty())
    } else {
        match (field_defs(fields.drop_last()), field_attrs(fields.last())) {
            (Err(error), _) => Err(error),
            (_, Err(error)) => Err(error),
            (Ok(before), Ok(None)) => Ok(before),
            (Ok(before), Ok(Some(attrs))) => Ok(
                before.push(
                    FieldDefView {
                        ty: fields.last().ty,
                        field_ident: fields.last().ident.unwrap(),
                        attrs,
                    },
                ),
            ),
        }
    }
}

/// Whether no field has an empty key. (An alias may be empty.)
pub open spec fn keys_given(fields: Seq<FieldDefView>) -> bool {
    forall|i: int| 0 <= i < fields.len() ==> (#[trigger] fields[i]).attrs.key.len() > 0
}

/// A definition that was found to be in order.
pub struct Plan<'a> {
    pub struct_attrs: StructAttrs,
    pub fields: Vec<FieldDef<'a>>,
}

pub struct PlanView {
    pub struct_attrs: StructAttrs,
    pub fields: Seq<FieldDefView>,
}

impl<'a> Plan<'a> {
    pub open spec fn view(self) -> PlanView {
        PlanView { struct_attrs: self.struct_attrs, fields: defs_view(self.fields@) }
    }
}

/// What is to be generated for a definition, or why it is refused.
pub open spec fn planned(definition: DefinitionView) -> Result<PlanView, ErrorView> {
    match (struct_attrs(definition), definition.body) {
        (Err(error), _) => Err(error),
        (_, BodyView::NotStruct) => Err(
            ErrorView::Over(ProblemView::NotStruct, definition.tokens),
        ),
        (_, BodyView::Nameless) => Err(
            ErrorView::Over(ProblemView::NamelessFields, definition.tokens),
        ),
        (Ok(struct_attrs), BodyView::Named(fields)) => match field_defs(fields) {
            Err(error) => Err(error),
            Ok(fields) => if fields.len() == 0 {
                Err(ErrorView::Over(ProblemView::NoConfigField, definition.tokens))
            } else {
                match repeated(all_keys(fields)) {
                    Some(error) => Err(error),
                    None => Ok(PlanView { struct_attrs, fields }),
                }
            },
        },
    }
}

/// The code that is generated for a definition, or why it is refused.
pub open spec fn expansion(definition: DefinitionView) -> Result<Seq<Token>, ErrorView> {
    match planned(definition) {
        Err(error) => Err(error),
        Ok(PlanView { struct_attrs, fields }) => match setters_code(definition.ident, fields) {
            Err(error) => Err(error),
            Ok(setters) => Ok(
                enum_code(definition.ident, struct_attrs, fields) + asref_code(struct_attrs, fields)
                    + fromstr_code(struct_attrs, fields) + dispatch_code(
                    definition.ident,
                    struct_attrs,
                    fields,
                ) + setters,
            ),
        },
    }
}

/// An error among the first fields is the error of them all.
pub proof fn lemma_field_error(fields: Seq<FieldView>, n: int)
    requires
        0 <= n <= fields.len(),
        field_defs(fields.take(n)) is Err,
    ensures
        field_defs(fields) == field_defs(fields.take(n)),
    decreases fields.len() - n,
{
    if n == fields.len() {
        assert(fields.take(n) =~= fields);
    } else {
        assert(fields.take(n + 1).drop_last() =~= fields.take(n));
        lemma_field_error(fields, n + 1);
    }
}

/// Collects the fields that take part.
pub fn collect_fields<'a>(fields: &'a Vec<FieldDecl>) -> (res: Result<Vec<FieldDef<'a>>, DeriveError>)
    ensures
        match res {
            Ok(defs) => field_defs(fields_view(fields@)) == Ok::<Seq<FieldDefView>, ErrorView>(
                defs_view(defs@),
            ),
            Err(error) => field_defs(fields_view(fields@)) == Err::<Seq<FieldDefView>, ErrorView>(
                error@,
            ),
        },
        res matches Ok(defs) ==> keys_given(defs_view(defs@)),
{
    let ghost views = fields_view(fields@);
    let mut defs: Vec<FieldDef<'a>> = Vec::new();
    let mut i: usize = 0;
    proof {
        assert(views.take(0) =~= Seq::<FieldView>::empty());
        assert(defs_view(defs@) =~= Seq::<FieldDefView>::empty());
    }
    while i < fields.len()
        invariant
            i <= fields.len(),
            views == fields_view(fields@),
            field_defs(views.take(i as int)) == Ok::<Seq<FieldDefView>, ErrorView>(defs_view(defs@)),
            keys_given(defs_view(defs@)),
        decreases fields.len() - i,
    {
        let field: &FieldDecl = &fields[i];
        let ghost before = defs@;
        proof {
            assert(views.take(i + 1).drop_last() =~= views.take(i as int));
            assert(views.take(i + 1).last() == field@);
        }
        match (parse_field_attrs(field), &field.ident) {
            (Ok(Some(attrs)), Some(ident)) => {
                let def: FieldDef<'a> = FieldDef {
                    ty: &field.ty,
                    field_ident: ident.clone(),
                    attrs,
                };
                let ghost view = def@;
                defs.push(def);
                proof {
                    assert(defs_view(defs@) =~= defs_view(before).push(view));
                }
            },
            (Err(error), _) => {
                proof {
                    lemma_field_error(views, i + 1);
                }
                return Err(error);
            },
            _ => {},
        }
        i = i + 1;
    }
    proof {
        assert(views.take(i as int) =~= views);
    }
    Ok(defs)
}

/// Checks a definition.
pub fn plan<'a>(definition: &'a Definition) -> (res: Result<Plan<'a>, DeriveError>)
    ensures
        match res {
            Ok(plan) => planned(definition@) == Ok::<PlanView, ErrorView>(plan@),
            Err(error) => planned(definition@) == Err::<PlanView, ErrorView>(error@),
        },
        res matches Ok(plan) ==> keys_given(plan@.fields),
{
    let struct_attrs: StructAttrs = match parse_struct_attrs(definition) {
        Ok(struct_attrs) => struct_attrs,
        Err(error) => {
            return Err(error);
        },
    };
    let decls: &Vec<FieldDecl> = match &definition.body {
        Body::Named(decls) => decls,
        Body::Nameless => {
            return Err(DeriveError::Over(Problem::NamelessFields, definition.tokens.clone()));
        },
        Body::NotStruct => {
            return Err(DeriveError::Over(Problem::NotStruct, definition.tokens.clone()));
        },
    };
    let fields: Vec<FieldDef<'a>> = match collect_fields(decls) {
        Ok(fields) => fields,
        Err(error) => {
            return Err(error);
        },
    };
    if fields.len() == 0 {
        return Err(DeriveError::Over(Problem::NoConfigField, definition.tokens.clone()));
    }
    if let Err(error) = check_duplicate_keys(&fields) {
        return Err(error);
    }
    Ok(Plan { struct_attrs, fields })
}

/// Generates the code for a definition.
pub fn expand(definition: &Definition) -> (res: Result<Code, DeriveError>)
    ensures
        code_outcome(res) == expansion(definition@),
{
    let plan: Plan<'_> = match plan(definition) {
        Ok(plan) => plan,
        Err(error) => {
            return Err(error);
        },
    };
    let name: &Ident = &definition.ident;
    let mut code: Code = generate_enum(name, &plan.struct_attrs, &plan.fields);
    code.append(generate_asref(&plan.struct_attrs, &plan.fields));
    code.append(generate_fromstr(&plan.struct_attrs, &plan.fields));
    code.append(generate_dispatch(name, &plan.struct_attrs, &plan.fields));
    match generate_setters(name, &plan.fields) {
        Ok(setters) => {
            code.append(setters);
            Ok(code)
        },
        Err(error) => Err(error),
    }
}

} // verus!
