//! The input of the derive: what it reads of the syntax tree that `syn` parses, as plain values.

use crate::names::same_text;
use proc_macro2::{Ident, Span, TokenStream};
use quote::ToTokens;
use syn::spanned::Spanned;
use vstd::prelude::*;

verus! {

/// `syn::DeriveInput`, the item under the derive.
#[verifier::external_type_specification]
#[verifier::external_body]
pub struct ExDeriveInput(syn::DeriveInput);

/// `syn::Field`, a field of a struct.
#[verifier::external_type_specification]
#[verifier::external_body]
pub struct ExField(syn::Field);

/// `syn::Attribute`, an attribute of an item or a field.
#[verifier::external_type_specification]
#[verifier::external_body]
pub struct ExAttribute(syn::Attribute);

/// `syn::Type`, the type of a field.
#[verifier::external_type_specification]
#[verifier::external_body]
pub struct ExType(syn::Type);

/// The item that `syn::parse2` finds in a token stream, or its error.
pub uninterp spec fn parsed_input(tokens: TokenStream) -> Result<syn::DeriveInput, syn::Error>;

/// `syn::parse2` for a `DeriveInput`.
#[verifier::external_body]
pub(crate) fn parse_input(tokens: TokenStream) -> (res: Result<syn::DeriveInput, syn::Error>)
    ensures
        res == parsed_input(tokens),
{
    syn::parse2::<syn::DeriveInput>(tokens)
}

// ---------------------------------------------------------------------------
// Types
// ---------------------------------------------------------------------------

/// A type: its tokens, and the end of its path where it is one.
pub struct TypeInfo {
    pub tokens: TokenStream,
    pub span: Span,
    pub tail: Option<PathTail>,
}

/// The last segment of a path: its name, and its arguments where they stand between angle brackets.
/// An argument that is no type is `None`.
pub struct PathTail {
    pub name: String,
    pub args: Option<Vec<Option<TypeInfo>>>,
}

pub struct TypeView {
    pub tokens: TokenStream,
    pub span: Span,
    pub tail: Option<TailView>,
}

pub struct TailView {
    pub name: Seq<char>,
    pub args: Option<Seq<Option<TypeView>>>,
}

impl TypeInfo {
    pub open spec fn view(self) -> TypeView
        decreases self,
    {
        TypeView {
            tokens: self.tokens,
            span: self.span,
            tail: match self.tail {
                Some(tail) => Some(tail.view()),
                None => None,
            },
        }
    }
}

impl PathTail {
    pub open spec fn view(self) -> TailView
        decreases self,
    {
        TailView {
            name: self.name@,
            args: match self.args {
                Some(args) => Some(
                    Seq::new(
                        args@.len(),
                        |i: int|
                            if 0 <= i < args@.len() {
                                match args@[i] {
                                    Some(arg) => Some(arg.view()),
                                    None => None,
                                }
                            } else {
                                None
                            },
                    ),
                ),
                None => None,
            },
        }
    }
}

/// The parts of a type, as `syn` holds them.
pub struct TypeParts {
    pub tokens: TokenStream,
    pub span: Span,
    pub tail: Option<TailParts>,
}

/// The parts of the last segment of a path, as `syn` holds them.
pub struct TailParts {
    pub name: String,
    pub args: Option<Vec<Option<syn::Type>>>,
}

/// What a type is.
pub uninterp spec fn type_view(ty: syn::Type) -> TypeView;

/// Whether the parts are those of a path's last segment.
pub open spec fn tail_matches(parts: Option<TailParts>, tail: Option<TailView>) -> bool {
    match (parts, tail) {
        (Some(parts), Some(tail)) => parts.name@ == tail.name && args_match(parts.args, tail.args),
        (None, None) => true,
        _ => false,
    }
}

/// Whether the arguments are those of a path's last segment.
pub open spec fn args_match(
    parts: Option<Vec<Option<syn::Type>>>,
    args: Option<Seq<Option<TypeView>>>,
) -> bool {
    match (parts, args) {
        (Some(parts), Some(args)) => {
            &&& parts@.len() == args.len()
            &&& forall|i: int|
                0 <= i < parts@.len() ==> match #[trigger] parts@[i] {
                    Some(ty) => args[i] == Some(type_view(ty)),
                    None => args[i] is None,
                }
        },
        (None, None) => true,
        _ => false,
    }
}

/// Reads a `syn::Type`: its tokens (`to_token_stream`), its place (`Spanned::span`) and, for a
/// `Type::Path`, the name of the last segment and the arguments between its angle brackets.
#[verifier::external_body]
fn open_type(ty: &syn::Type) -> (res: TypeParts)
    ensures
        res.tokens == type_view(*ty).tokens,
        res.span == type_view(*ty).span,
        tail_matches(res.tail, type_view(*ty).tail),
{
    let types = |arg: &syn::GenericArgument| match arg {
        syn::GenericArgument::Type(ty) => Some(ty.clone()),
        _ => None,
    };
    let args = |arguments: &syn::PathArguments| match arguments {
        syn::PathArguments::AngleBracketed(list) => Some(list.args.iter().map(types).collect()),
        _ => None,
    };
    let tail = match ty {
        syn::Type::Path(path) => path.path.segments.last(),
        _ => None,
    };
    let tail = tail.map(|s| TailParts { name: s.ident.to_string(), args: args(&s.arguments) });
    TypeParts { tokens: ty.to_token_stream(), span: ty.span(), tail }
}

/// Reads a type.
pub fn read_type(ty: &syn::Type) -> (res: TypeInfo)
    ensures
        res@ == type_view(*ty),
    decreases type_view(*ty),
{
    let parts: TypeParts = open_type(ty);
    let tail: Option<PathTail> = match parts.tail {
        None => None,
        Some(tail) => {
            let args: Option<Vec<Option<TypeInfo>>> = match tail.args {
                None => None,
                Some(types) => {
                    let ghost views = type_view(*ty).tail.unwrap().args.unwrap();
                    let mut args: Vec<Option<TypeInfo>> = Vec::new();
                    let mut i: usize = 0;
                    while i < types.len()
                        invariant
                            i <= types.len(),
                            type_view(*ty).tail is Some,
                            type_view(*ty).tail.unwrap().args == Some(views),
                            args_match(Some(types), Some(views)),
                            args.len() == i,
                            forall|k: int|
                                0 <= k < i ==> match #[trigger] args@[k] {
                                    Some(arg) => views[k] == Some(arg@),
                                    None => views[k] is None,
                                },
                        decreases types.len() - i,
                    {
                        let arg: Option<TypeInfo> = match &types[i] {
                            Some(inner) => {
                                proof {
                                    assert(views[i as int] == Some(type_view(*inner)));
                                    assert(decreases_to!(type_view(*ty) => views[i as int]));
                                    assert(decreases_to!(views[i as int] => views[i as int]->0));
                                }
                                Some(read_type(inner))
                            },
                            None => None,
                        };
                        args.push(arg);
                        i = i + 1;
                    }
                    Some(args)
                },
            };
            Some(PathTail { name: tail.name, args })
        },
    };
    let res: TypeInfo = TypeInfo { tokens: parts.tokens, span: parts.span, tail };
    proof {
        if res.tail is Some && res.tail.unwrap().args is Some {
            assert(res@.tail.unwrap().args.unwrap() =~= type_view(
                *ty,
            ).tail.unwrap().args.unwrap());
        }
    }
    res
}

// ---------------------------------------------------------------------------
// Attributes
// ---------------------------------------------------------------------------

/// An attribute: its name where its path is one identifier, whether its arguments are a list, as in
/// `#[name(...)]`, and its tokens.
pub struct Attr {
    attribute: syn::Attribute,
    name: Option<String>,
    list: bool,
    tokens: TokenStream,
}

pub struct AttrView {
    pub attribute: syn::Attribute,
    pub name: Option<Seq<char>>,
    pub list: bool,
    pub tokens: TokenStream,
}

impl Attr {
    pub closed spec fn view(self) -> AttrView {
        AttrView {
            attribute: self.attribute,
            name: match self.name {
                Some(name) => Some(name@),
                None => None,
            },
            list: self.list,
            tokens: self.tokens,
        }
    }

    /// What is held of the attribute is what it is.
    #[verifier::type_invariant]
    spec fn well_formed(self) -> bool {
        self.view() == attr_view(self.attribute)
    }

    /// Whether the attribute has the name.
    pub fn is_named(&self, name: &str) -> (res: bool)
        ensures
            res == (self@.name == Some(name@)),
    {
        match &self.name {
            Some(text) => same_text(text.as_str(), name),
            None => false,
        }
    }

    /// Whether the arguments are a list.
    pub fn is_list(&self) -> (res: bool)
        ensures
            res == self@.list,
    {
        self.list
    }

    /// The tokens of the attribute.
    pub fn tokens(&self) -> (res: &TokenStream)
        ensures
            *res == self@.tokens,
    {
        &self.tokens
    }

    /// The attribute itself.
    pub fn attribute(&self) -> (res: &syn::Attribute)
        ensures
            *res == self@.attribute,
            attr_view(*res) == self@,
    {
        proof {
            use_type_invariant(self);
        }
        &self.attribute
    }
}

/// What an attribute is.
pub uninterp spec fn attr_view(attribute: syn::Attribute) -> AttrView;

/// The parts of an attribute, as `syn` holds them.
pub struct AttrParts {
    pub attribute: syn::Attribute,
    pub name: Option<String>,
    pub list: bool,
    pub tokens: TokenStream,
}

impl AttrParts {
    pub open spec fn view(self) -> AttrView {
        AttrView {
            attribute: self.attribute,
            name: match self.name {
                Some(name) => Some(name@),
                None => None,
            },
            list: self.list,
            tokens: self.tokens,
        }
    }
}

/// Reads a `syn::Attribute`: its path's only identifier (`Path::get_ident`), whether its `meta` is a
/// `Meta::List`, and its tokens (`to_token_stream`).
#[verifier::external_body]
fn open_attr(attribute: &syn::Attribute) -> (res: AttrParts)
    ensures
        res@ == attr_view(*attribute),
        res.attribute == *attribute,
{
    AttrParts {
        attribute: attribute.clone(),
        name: attribute.path().get_ident().map(|ident| ident.to_string()),
        list: matches!(attribute.meta, syn::Meta::List(_)),
        tokens: attribute.to_token_stream(),
    }
}

/// Reads an attribute.
fn read_attr(attribute: &syn::Attribute) -> (res: Attr)
    ensures
        res@ == attr_view(*attribute),
{
    let parts: AttrParts = open_attr(attribute);
    Attr {
        attribute: parts.attribute,
        name: parts.name,
        list: parts.list,
        tokens: parts.tokens,
    }
}

/// What several attributes are.
pub open spec fn attr_views(attributes: Seq<syn::Attribute>) -> Seq<AttrView> {
    Seq::new(attributes.len(), |i: int| attr_view(attributes[i]))
}

/// The views of several attributes.
pub open spec fn attrs_view(attrs: Seq<Attr>) -> Seq<AttrView> {
    Seq::new(attrs.len(), |i: int| attrs[i].view())
}

/// Reads attributes.
pub fn read_attrs(attributes: &Vec<syn::Attribute>) -> (res: Vec<Attr>)
    ensures
        attrs_view(res@) == attr_views(attributes@),
{
    let mut attrs: Vec<Attr> = Vec::new();
    let mut i: usize = 0;
    while i < attributes.len()
        invariant
            i <= attributes.len(),
            attrs.len() == i,
            forall|k: int| 0 <= k < i ==> #[trigger] attrs@[k]@ == attr_view(attributes@[k]),
        decreases attributes.len() - i,
    {
        attrs.push(read_attr(&attributes[i]));
        i = i + 1;
    }
    proof {
        assert(attrs_view(attrs@) =~= attr_views(attributes@));
    }
    attrs
}

// ---------------------------------------------------------------------------
// Fields
// ---------------------------------------------------------------------------

/// A field of a struct.
pub struct FieldDecl {
    pub ident: Option<Ident>,
    pub span: Span,
    pub ty: TypeInfo,
    pub attrs: Vec<Attr>,
}

pub struct FieldView {
    pub ident: Option<Ident>,
    pub span: Span,
    pub ty: TypeView,
    pub attrs: Seq<AttrView>,
}

impl FieldDecl {
    pub open spec fn view(self) -> FieldView {
        FieldView {
            ident: self.ident,
            span: self.span,
            ty: self.ty.view(),
            attrs: attrs_view(self.attrs@),
        }
    }
}

/// The parts of a field, as `syn` holds them.
pub struct FieldParts {
    pub ident: Option<Ident>,
    pub span: Span,
    pub ty: syn::Type,
    pub attrs: Vec<syn::Attribute>,
}

pub struct FieldShape {
    pub ident: Option<Ident>,
    pub span: Span,
    pub ty: syn::Type,
    pub attrs: Seq<syn::Attribute>,
}

impl FieldParts {
    pub open spec fn view(self) -> FieldShape {
        FieldShape { ident: self.ident, span: self.span, ty: self.ty, attrs: self.attrs@ }
    }
}

/// The parts of a field.
pub uninterp spec fn field_shape(field: syn::Field) -> FieldShape;

/// Reads a `syn::Field`: its name, its place (`Spanned::span`), its type and its attributes.
#[verifier::external_body]
fn open_field(field: &syn::Field) -> (res: FieldParts)
    ensures
        res@ == field_shape(*field),
{
    FieldParts {
        ident: field.ident.clone(),
        span: field.span(),
        ty: field.ty.clone(),
        attrs: field.attrs.clone(),
    }
}

/// What a field is.
pub open spec fn field_view(field: syn::Field) -> FieldView {
    let shape = field_shape(field);
    FieldView {
        ident: shape.ident,
        span: shape.span,
        ty: type_view(shape.ty),
        attrs: attr_views(shape.attrs),
    }
}

/// What several fields are.
pub open spec fn field_views(fields: Seq<syn::Field>) -> Seq<FieldView> {
    Seq::new(fields.len(), |i: int| field_view(fields[i]))
}

/// The views of several fields.
pub open spec fn fields_view(fields: Seq<FieldDecl>) -> Seq<FieldView> {
    Seq::new(fields.len(), |i: int| fields[i].view())
}

/// Reads fields.
pub fn read_fields(fields: &Vec<syn::Field>) -> (res: Vec<FieldDecl>)
    ensures
        fields_view(res@) == field_views(fields@),
{
    let mut decls: Vec<FieldDecl> = Vec::new();
    let mut i: usize = 0;
    while i < fields.len()
        invariant
            i <= fields.len(),
            decls.len() == i,
            forall|k: int| 0 <= k < i ==> #[trigger] decls@[k]@ == field_view(fields@[k]),
        decreases fields.len() - i,
    {
        let parts: FieldParts = open_field(&fields[i]);
        let decl: FieldDecl = FieldDecl {
            ident: parts.ident,
            span: parts.span,
            ty: read_type(&parts.ty),
            attrs: read_attrs(&parts.attrs),
        };
        decls.push(decl);
        i = i + 1;
    }
    proof {
        assert(fields_view(decls@) =~= field_views(fields@));
    }
    decls
}

// ---------------------------------------------------------------------------
// The item
// ---------------------------------------------------------------------------

/// The item under the derive.
pub struct Definition {
    pub ident: Ident,
    pub tokens: TokenStream,
    pub attrs: Vec<Attr>,
    pub body: Body,
}

/// What the item consists of: a struct with named fields, another struct, or no struct at all.
pub enum Body {
    Named(Vec<FieldDecl>),
    Nameless,
    NotStruct,
}

pub struct DefinitionView {
    pub ident: Ident,
    pub tokens: TokenStream,
    pub attrs: Seq<AttrView>,
    pub body: BodyView,
}

pub enum BodyView {
    Named(Seq<FieldView>),
    Nameless,
    NotStruct,
}

impl Definition {
    pub open spec fn view(self) -> DefinitionView {
        DefinitionView {
            ident: self.ident,
            tokens: self.tokens,
            attrs: attrs_view(self.attrs@),
            body: match self.body {
                Body::Named(fields) => BodyView::Named(fields_view(fields@)),
                Body::Nameless => BodyView::Nameless,
                Body::NotStruct => BodyView::NotStruct,
            },
        }
    }
}

/// The parts of an item, as `syn` holds them.
pub struct InputParts {
    pub ident: Ident,
    pub tokens: TokenStream,
    pub attrs: Vec<syn::Attribute>,
    pub body: BodyParts,
}

pub enum BodyParts {
    Named(Vec<syn::Field>),
    Nameless,
    NotStruct,
}

pub struct InputShape {
    pub ident: Ident,
    pub tokens: TokenStream,
    pub attrs: Seq<syn::Attribute>,
    pub body: BodyShape,
}

pub enum BodyShape {
    Named(Seq<syn::Field>),
    Nameless,
    NotStruct,
}

impl InputParts {
    pub open spec fn view(self) -> InputShape {
        InputShape {
            ident: self.ident,
            tokens: self.tokens,
            attrs: self.attrs@,
            body: match self.body {
                BodyParts::Named(fields) => BodyShape::Named(fields@),
                BodyParts::Nameless => BodyShape::Nameless,
                BodyParts::NotStruct => BodyShape::NotStruct,
            },
        }
    }
}

/// The parts of an item.
pub uninterp spec fn input_shape(input: syn::DeriveInput) -> InputShape;

/// Reads a `syn::DeriveInput`: its name, its tokens (`to_token_stream`), its attributes, and its
/// fields where it is a struct (`Data::Struct`) with named ones (`Fields::Named`).
#[verifier::external_body]
fn open_input(input: &syn::DeriveInput) -> (res: InputParts)
    ensures
        res@ == input_shape(*input),
{
    let body = match &input.data {
        syn::Data::Struct(data) => match &data.fields {
            syn::Fields::Named(named) => BodyParts::Named(named.named.iter().cloned().collect()),
            _ => BodyParts::Nameless,
        },
        _ => BodyParts::NotStruct,
    };
    let (ident, attrs) = (input.ident.clone(), input.attrs.clone());
    InputParts { ident, tokens: input.to_token_stream(), attrs, body }
}

/// What an item is.
pub open spec fn input_view(input: syn::DeriveInput) -> DefinitionView {
    let shape = input_shape(input);
    DefinitionView {
        ident: shape.ident,
        tokens: shape.tokens,
        attrs: attr_views(shape.attrs),
        body: match shape.body {
            BodyShape::Named(fields) => BodyView::Named(field_views(fields)),
            BodyShape::Nameless => BodyView::Nameless,
            BodyShape::NotStruct => BodyView::NotStruct,
        },
    }
}

/// Reads an item.
pub fn read_input(input: &syn::DeriveInput) -> (res: Definition)
    ensures
        res@ == input_view(*input),
{
    let parts: InputParts = open_input(input);
    let body: Body = match &parts.body {
        BodyParts::Named(fields) => Body::Named(read_fields(fields)),
        BodyParts::Nameless => Body::Nameless,
        BodyParts::NotStruct => Body::NotStruct,
    };
    Definition {
        ident: parts.ident.clone(),
        tokens: parts.tokens.clone(),
        attrs: read_attrs(&parts.attrs),
        body,
    }
}

} // verus!
