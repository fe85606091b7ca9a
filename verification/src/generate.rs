//! The code that is generated for a definition.

use crate::code::{
    brace, bracket, given, lex, literal, named, paren, raw_literal, splice, splices, Code, Token,
};
use crate::config::SetterMode;
use crate::errors::{enclosed, DeriveError, ErrorView};
use crate::fields::{defs_view, FieldAttrs, FieldAttrsView, FieldDef, FieldDefView};
use crate::infer::{
    config_value_inner, extract_config_value_inner, extract_option_config_value_inner,
    option_config_value_inner, Formatter, Strategy,
};
use crate::keys::keys;
use crate::store::StructAttrs;
use crate::tokens::{ident_text, ident_to_string};
use proc_macro2::Ident;
use vstd::prelude::*;

verus! {

// ---------------------------------------------------------------------------
// The enum of keys
// ---------------------------------------------------------------------------

/// A line of documentation: `#[doc = "line"]`.
pub open spec fn doc_code(line: Seq<char>) -> Seq<Token> {
    lex("#"@) + bracket(lex("doc ="@) + literal(line))
}

/// A line of documentation, as a doc comment gives it: `#[doc = r"line"]`.
pub open spec fn comment_code(line: Seq<char>) -> Seq<Token> {
    lex("#"@) + bracket(lex("doc ="@) + raw_literal(line))
}

/// The bullet of a key in the documentation.
pub open spec fn bullet(key: Seq<char>) -> Seq<char> {
    " - `"@ + key + "`"@
}

/// The bullets of several keys.
pub open spec fn bullets(keys: Seq<Seq<char>>) -> Seq<Token>
    decreases keys.len(),
{
    if keys.len() == 0 {
        Seq::empty()
    } else {
        bullets(keys.drop_last()) + doc_code(bullet(keys.last()))
    }
}

/// The documentation of the keys of a field: an empty line, a heading, and a bullet for each key;
/// nothing where `doc_inherit` is off.
pub open spec fn supported_keys_doc(attrs: FieldAttrsView) -> Seq<Token> {
    if attrs.doc_inherit {
        doc_code(""@) + doc_code(" Supported keys:"@) + bullets(keys(attrs))
    } else {
        Seq::empty()
    }
}

fn push_doc(code: &mut Code, line: &str)
    ensures
        final(code)@ == old(code)@ + doc_code(line@),
{
    let mut inner: Code = Code::new();
    inner.quote("doc =");
    inner.text(line);
    let ghost start = code@;
    code.quote("#");
    code.bracket(inner);
    proof {
        assert(inner@ =~= lex("doc ="@) + literal(line@));
        assert(code@ =~= start + doc_code(line@));
    }
}

fn push_comment(code: &mut Code, line: &str)
    ensures
        final(code)@ == old(code)@ + comment_code(line@),
{
    let mut inner: Code = Code::new();
    inner.quote("doc =");
    inner.raw(line);
    let ghost start = code@;
    code.quote("#");
    code.bracket(inner);
    proof {
        assert(inner@ =~= lex("doc ="@) + raw_literal(line@));
        assert(code@ =~= start + comment_code(line@));
    }
}

/// The documentation of the keys of a field.
pub fn build_supported_keys_doc(attrs: &FieldAttrs) -> (res: Code)
    ensures
        res@ == supported_keys_doc(attrs@),
{
    let mut code: Code = Code::new();
    if !attrs.doc_inherit {
        return code;
    }
    push_doc(&mut code, "");
    push_doc(&mut code, " Supported keys:");
    let ghost header = code@;
    let ghost all = keys(attrs@);
    push_doc(&mut code, enclosed(" - `", attrs.key.as_str(), "`").as_str());
    proof {
        assert(header =~= doc_code(""@) + doc_code(" Supported keys:"@));
        assert(all.take(1).last() == attrs.key@);
        assert(bullets(all.take(1).drop_last()) =~= Seq::<Token>::empty());
        assert(bullets(all.take(1)) =~= doc_code(bullet(attrs.key@)));
    }
    let mut i: usize = 0;
    while i < attrs.aliases.len()
        invariant
            i <= attrs.aliases.len(),
            all == keys(attrs@),
            code@ == header + bullets(all.take(i + 1)),
        decreases attrs.aliases.len() - i,
    {
        push_doc(&mut code, enclosed(" - `", attrs.aliases[i].as_str(), "`").as_str());
        proof {
            assert(all.take(i + 2).drop_last() =~= all.take(i + 1));
            assert(all.take(i + 2).last() == attrs.aliases@[i as int]@);
            assert(code@ =~= header + bullets(all.take(i + 2)));
        }
        i = i + 1;
    }
    proof {
        assert(all.take(i + 1) =~= all);
    }
    code
}

/// The variant of a field: its `cfg` attributes, its documentation and that of its keys, its name.
pub open spec fn variant_code(attrs: FieldAttrsView) -> Seq<Token> {
    splices(attrs.cfg_attrs) + splices(attrs.docs) + supported_keys_doc(attrs) + named(
        attrs.variant,
    ) + lex(","@)
}

/// The variants of several fields.
pub open spec fn variants_code(fields: Seq<FieldDefView>) -> Seq<Token>
    decreases fields.len(),
{
    if fields.len() == 0 {
        Seq::empty()
    } else {
        variants_code(fields.drop_last()) + variant_code(fields.last().attrs)
    }
}

/// The attributes of the enum of keys.
pub open spec fn enum_attributes(struct_name: Ident) -> Seq<Token> {
    doc_code(" Configuration keys for [`"@ + ident_text(struct_name) + "`]"@) + lex("#"@) + bracket(
        lex("derive"@) + paren(
            lex(
                "::std::cmp::PartialEq, ::std::cmp::Eq, ::std::hash::Hash, ::std::clone::Clone, ::std::fmt::Debug, ::std::marker::Copy, ::serde::Deserialize, ::serde::Serialize"@,
            ),
        ),
    ) + lex("#"@) + bracket(lex("non_exhaustive"@))
}

/// The enum of keys.
pub open spec fn enum_code(
    struct_name: Ident,
    struct_attrs: StructAttrs,
    fields: Seq<FieldDefView>,
) -> Seq<Token> {
    enum_attributes(struct_name) + lex("pub enum"@) + given(struct_attrs.config_key) + brace(
        variants_code(fields),
    )
}

fn generate_variants(fields: &Vec<FieldDef<'_>>) -> (res: Code)
    ensures
        res@ == variants_code(defs_view(fields@)),
{
    let ghost defs = defs_view(fields@);
    let mut code: Code = Code::new();
    let mut i: usize = 0;
    while i < fields.len()
        invariant
            i <= fields.len(),
            defs == defs_view(fields@),
            code@ == variants_code(defs.take(i as int)),
        decreases fields.len() - i,
    {
        let attrs: &FieldAttrs = &fields[i].attrs;
        let ghost before = code@;
        code.splice_all(&attrs.cfg_attrs);
        code.splice_all(&attrs.docs);
        code.append(build_supported_keys_doc(attrs));
        code.name(&attrs.variant);
        code.quote(",");
        proof {
            assert(defs.take(i + 1).drop_last() =~= defs.take(i as int));
            assert(defs.take(i + 1).last().attrs == attrs@);
            assert(code@ =~= before + variant_code(attrs@));
        }
        i = i + 1;
    }
    proof {
        assert(defs.take(i as int) =~= defs);
    }
    code
}

fn generate_enum_attributes(struct_name: &Ident) -> (res: Code)
    ensures
        res@ == enum_attributes(*struct_name),
{
    let mut code: Code = Code::new();
    push_doc(
        &mut code,
        enclosed(" Configuration keys for [`", ident_to_string(struct_name).as_str(), "`]").as_str(),
    );
    let mut traits: Code = Code::new();
    traits.quote(
        "::std::cmp::PartialEq, ::std::cmp::Eq, ::std::hash::Hash, ::std::clone::Clone, ::std::fmt::Debug, ::std::marker::Copy, ::serde::Deserialize, ::serde::Serialize",
    );
    let mut derive: Code = Code::new();
    derive.quote("derive");
    derive.paren(traits);
    code.quote("#");
    code.bracket(derive);
    let mut exhaustive: Code = Code::new();
    exhaustive.quote("non_exhaustive");
    code.quote("#");
    code.bracket(exhaustive);
    code
}

/// Generates the enum of keys.
pub fn generate_enum(
    struct_name: &Ident,
    struct_attrs: &StructAttrs,
    fields: &Vec<FieldDef<'_>>,
) -> (res: Code)
    ensures
        res@ == enum_code(*struct_name, *struct_attrs, defs_view(fields@)),
{
    let mut code: Code = generate_enum_attributes(struct_name);
    code.quote("pub enum");
    code.ident(&struct_attrs.config_key);
    code.brace(generate_variants(fields));
    code
}

// ---------------------------------------------------------------------------
// From a key to its text and back
// ---------------------------------------------------------------------------

/// The arm that gives the key of a variant.
pub open spec fn asref_arm(attrs: FieldAttrsView) -> Seq<Token> {
    splices(attrs.cfg_attrs) + lex("Self::"@) + named(attrs.variant) + lex("=>"@) + literal(
        attrs.key,
    ) + lex(","@)
}

/// The arms that give the keys of the variants.
pub open spec fn asref_arms(fields: Seq<FieldDefView>) -> Seq<Token>
    decreases fields.len(),
{
    if fields.len() == 0 {
        Seq::empty()
    } else {
        asref_arms(fields.drop_last()) + asref_arm(fields.last().attrs)
    }
}

/// `AsRef<str>` for the enum of keys.
pub open spec fn asref_code(struct_attrs: StructAttrs, fields: Seq<FieldDefView>) -> Seq<Token> {
    lex("impl ::std::convert::AsRef<str> for"@) + given(struct_attrs.config_key) + brace(
        lex("fn as_ref"@) + paren(lex("&self"@)) + lex("-> &str"@) + brace(
            lex("match self"@) + brace(asref_arms(fields)),
        ),
    )
}

fn generate_asref_arms(fields: &Vec<FieldDef<'_>>) -> (res: Code)
    ensures
        res@ == asref_arms(defs_view(fields@)),
{
    let ghost defs = defs_view(fields@);
    let mut code: Code = Code::new();
    let mut i: usize = 0;
    while i < fields.len()
        invariant
            i <= fields.len(),
            defs == defs_view(fields@),
            code@ == asref_arms(defs.take(i as int)),
        decreases fields.len() - i,
    {
        let attrs: &FieldAttrs = &fields[i].attrs;
        let ghost before = code@;
        code.splice_all(&attrs.cfg_attrs);
        code.quote("Self::");
        code.name(&attrs.variant);
        code.quote("=>");
        code.text(attrs.key.as_str());
        code.quote(",");
        proof {
            assert(defs.take(i + 1).drop_last() =~= defs.take(i as int));
            assert(defs.take(i + 1).last().attrs == attrs@);
            assert(code@ =~= before + asref_arm(attrs@));
        }
        i = i + 1;
    }
    proof {
        assert(defs.take(i as int) =~= defs);
    }
    code
}

/// Generates `AsRef<str>` for the enum of keys.
pub fn generate_asref(struct_attrs: &StructAttrs, fields: &Vec<FieldDef<'_>>) -> (res: Code)
    ensures
        res@ == asref_code(*struct_attrs, defs_view(fields@)),
{
    let mut matching: Code = Code::new();
    matching.quote("match self");
    matching.brace(generate_asref_arms(fields));
    let mut receiver: Code = Code::new();
    receiver.quote("&self");
    let mut function: Code = Code::new();
    function.quote("fn as_ref");
    function.paren(receiver);
    function.quote("-> &str");
    function.brace(matching);
    let mut code: Code = Code::new();
    code.quote("impl ::std::convert::AsRef<str> for");
    code.ident(&struct_attrs.config_key);
    code.brace(function);
    code
}

/// String literals with `|` between them.
pub open spec fn patterns(keys: Seq<Seq<char>>) -> Seq<Token>
    decreases keys.len(),
{
    if keys.len() == 0 {
        Seq::empty()
    } else if keys.len() == 1 {
        literal(keys[0])
    } else {
        patterns(keys.drop_last()) + lex("|"@) + literal(keys.last())
    }
}

/// The arm that gives the variant of the keys of a field.
pub open spec fn fromstr_arm(attrs: FieldAttrsView) -> Seq<Token> {
    splices(attrs.cfg_attrs) + patterns(keys(attrs)) + lex("=> ::std::result::Result::Ok"@) + paren(
        lex("Self::"@) + named(attrs.variant),
    ) + lex(","@)
}

/// The arms that give the variants of the keys.
pub open spec fn fromstr_arms(fields: Seq<FieldDefView>) -> Seq<Token>
    decreases fields.len(),
{
    if fields.len() == 0 {
        Seq::empty()
    } else {
        fromstr_arms(fields.drop_last()) + fromstr_arm(fields.last().attrs)
    }
}

/// The error of an unknown key.
pub open spec fn unknown_key_code(struct_attrs: StructAttrs) -> Seq<Token> {
    splice(struct_attrs.error_path) + brace(
        match struct_attrs.error_store {
            Some(store) => lex("store:"@) + splice(store) + lex(", key: s.into"@) + paren(
                Seq::empty(),
            ),
            None => lex("key: s.into"@) + paren(Seq::empty()),
        },
    )
}

/// The arms of the generated `FromStr`, with the last one, which refuses every other text.
pub open spec fn fromstr_match(struct_attrs: StructAttrs, fields: Seq<FieldDefView>) -> Seq<Token> {
    fromstr_arms(fields) + lex("_ => ::std::result::Result::Err"@) + paren(
        unknown_key_code(struct_attrs) + lex(".into"@) + paren(Seq::empty()),
    ) + lex(","@)
}

/// `FromStr` for the enum of keys.
pub open spec fn fromstr_code(struct_attrs: StructAttrs, fields: Seq<FieldDefView>) -> Seq<Token> {
    lex("impl ::std::str::FromStr for"@) + given(struct_attrs.config_key) + brace(
        lex("type Err = crate::Error; fn from_str"@) + paren(lex("s: &str"@)) + lex(
            "-> ::std::result::Result<Self, Self::Err>"@,
        ) + brace(
            lex("match s"@) + brace(fromstr_match(struct_attrs, fields)),
        ),
    )
}

fn generate_patterns(attrs: &FieldAttrs) -> (res: Code)
    ensures
        res@ == patterns(keys(attrs@)),
{
    let ghost all = keys(attrs@);
    let mut code: Code = Code::new();
    code.text(attrs.key.as_str());
    proof {
        assert(all.take(1)[0] == attrs.key@);
        assert(code@ =~= patterns(all.take(1)));
    }
    let mut i: usize = 0;
    while i < attrs.aliases.len()
        invariant
            i <= attrs.aliases.len(),
            all == keys(attrs@),
            code@ == patterns(all.take(i + 1)),
        decreases attrs.aliases.len() - i,
    {
        code.quote("|");
        code.text(attrs.aliases[i].as_str());
        proof {
            assert(all.take(i + 2).drop_last() =~= all.take(i + 1));
            assert(all.take(i + 2).last() == attrs.aliases@[i as int]@);
        }
        i = i + 1;
    }
    proof {
        assert(all.take(i + 1) =~= all);
    }
    code
}

fn generate_fromstr_arms(fields: &Vec<FieldDef<'_>>) -> (res: Code)
    ensures
        res@ == fromstr_arms(defs_view(fields@)),
{
    let ghost defs = defs_view(fields@);
    let mut code: Code = Code::new();
    let mut i: usize = 0;
    while i < fields.len()
        invariant
            i <= fields.len(),
            defs == defs_view(fields@),
            code@ == fromstr_arms(defs.take(i as int)),
        decreases fields.len() - i,
    {
        let attrs: &FieldAttrs = &fields[i].attrs;
        let ghost before = code@;
        let mut variant: Code = Code::new();
        variant.quote("Self::");
        variant.name(&attrs.variant);
        code.splice_all(&attrs.cfg_attrs);
        code.append(generate_patterns(attrs));
        code.quote("=> ::std::result::Result::Ok");
        proof {
            assert(variant@ =~= lex("Self::"@) + named(attrs@.variant));
        }
        code.paren(variant);
        code.quote(",");
        proof {
            assert(defs.take(i + 1).drop_last() =~= defs.take(i as int));
            assert(defs.take(i + 1).last().attrs == attrs@);
            assert(code@ =~= before + fromstr_arm(attrs@));
        }
        i = i + 1;
    }
    proof {
        assert(defs.take(i as int) =~= defs);
    }
    code
}

fn generate_unknown_key(struct_attrs: &StructAttrs) -> (res: Code)
    ensures
        res@ == unknown_key_code(*struct_attrs),
{
    let mut body: Code = Code::new();
    match &struct_attrs.error_store {
        Some(store) => {
            body.quote("store:");
            body.splice(store);
            body.quote(", key: s.into");
        },
        None => {
            body.quote("key: s.into");
        },
    }
    body.paren(Code::new());
    let mut code: Code = Code::new();
    code.splice(&struct_attrs.error_path);
    code.brace(body);
    code
}

/// Generates `FromStr` for the enum of keys.
pub fn generate_fromstr(struct_attrs: &StructAttrs, fields: &Vec<FieldDef<'_>>) -> (res: Code)
    ensures
        res@ == fromstr_code(*struct_attrs, defs_view(fields@)),
{
    let mut error: Code = generate_unknown_key(struct_attrs);
    error.quote(".into");
    error.paren(Code::new());
    let mut arms: Code = generate_fromstr_arms(fields);
    arms.quote("_ => ::std::result::Result::Err");
    arms.paren(error);
    arms.quote(",");
    let mut matching: Code = Code::new();
    matching.quote("match s");
    matching.brace(arms);
    let mut parameters: Code = Code::new();
    parameters.quote("s: &str");
    let mut body: Code = Code::new();
    body.quote("type Err = crate::Error; fn from_str");
    body.paren(parameters);
    body.quote("-> ::std::result::Result<Self, Self::Err>");
    body.brace(matching);
    let mut code: Code = Code::new();
    code.quote("impl ::std::str::FromStr for");
    code.ident(&struct_attrs.config_key);
    code.brace(body);
    code
}

// ---------------------------------------------------------------------------
// Access by key
// ---------------------------------------------------------------------------

/// What a field is set to by its key.
pub open spec fn set_code(field: Ident, strategy: Strategy) -> Seq<Token> {
    match strategy {
        Strategy::OptionString => lex("self."@) + given(field) + lex(
            "= ::std::option::Option::Some"@,
        ) + paren(lex("value.into"@) + paren(Seq::empty())) + lex(";"@),
        Strategy::ConfigValue => lex("self."@) + given(field) + lex(".parse"@) + paren(
            lex("value"@),
        ) + lex(";"@),
        Strategy::OptionConfigValueDeferred => lex("self."@) + given(field) + lex(
            "= ::std::option::Option::Some"@,
        ) + paren(
            lex("crate::config::ConfigValue::Deferred"@) + paren(
                lex("value.into"@) + paren(Seq::empty()),
            ),
        ) + lex(";"@),
    }
}

/// The value of a field that is read by its key.
pub open spec fn get_code(field: Ident, attrs: FieldAttrsView) -> Seq<Token> {
    match attrs.get_via {
        Some(getter) => lex("self."@) + given(getter) + paren(Seq::empty()),
        None => match (attrs.strategy, attrs.formatter) {
            (Strategy::OptionString, _) => lex("self."@) + given(field) + lex(".clone"@) + paren(
                Seq::empty(),
            ),
            (Strategy::ConfigValue, _) => lex("::std::option::Option::Some"@) + paren(
                lex("self."@) + given(field) + lex(".to_string"@) + paren(Seq::empty()),
            ),
            (Strategy::OptionConfigValueDeferred, Formatter::Duration) => lex("self."@) + given(
                field,
            ) + lex(".as_ref"@) + paren(Seq::empty()) + lex(".map"@) + paren(
                lex("crate::config::fmt_duration"@),
            ),
            (Strategy::OptionConfigValueDeferred, Formatter::ToString) => lex("self."@) + given(
                field,
            ) + lex(".as_ref"@) + paren(Seq::empty()) + lex(".map"@) + paren(
                lex("|v| v.to_string"@) + paren(Seq::empty()),
            ),
        },
    }
}

/// The arm that sets a field by its key.
pub open spec fn set_arm(config_key: Ident, field: FieldDefView) -> Seq<Token> {
    splices(field.attrs.cfg_attrs) + given(config_key) + lex("::"@) + named(field.attrs.variant)
        + lex("=>"@) + brace(set_code(field.field_ident, field.attrs.strategy))
}

/// The arm that reads a field by its key.
pub open spec fn get_arm(config_key: Ident, field: FieldDefView) -> Seq<Token> {
    splices(field.attrs.cfg_attrs) + given(config_key) + lex("::"@) + named(field.attrs.variant)
        + lex("=>"@) + get_code(field.field_ident, field.attrs) + lex(","@)
}

/// The arms that set the fields by their keys.
pub open spec fn set_arms(config_key: Ident, fields: Seq<FieldDefView>) -> Seq<Token>
    decreases fields.len(),
{
    if fields.len() == 0 {
        Seq::empty()
    } else {
        set_arms(config_key, fields.drop_last()) + set_arm(config_key, fields.last())
    }
}

/// The arms that read the fields by their keys.
pub open spec fn get_arms(config_key: Ident, fields: Seq<FieldDefView>) -> Seq<Token>
    decreases fields.len(),
{
    if fields.len() == 0 {
        Seq::empty()
    } else {
        get_arms(config_key, fields.drop_last()) + get_arm(config_key, fields.last())
    }
}

/// The method that sets a field by its key.
pub open spec fn with_config_code(config_key: Ident, fields: Seq<FieldDefView>) -> Seq<Token> {
    comment_code(" Set a config option by key."@) + lex("pub fn with_config"@) + paren(
        lex("mut self, key:"@) + given(config_key) + lex(
            ", value: impl ::std::convert::Into<::std::string::String>"@,
        ),
    ) + lex("-> Self"@) + brace(
        lex("let value: ::std::string::String = value.into"@) + paren(Seq::empty()) + lex(
            "; match key"@,
        ) + brace(set_arms(config_key, fields)) + lex("self"@),
    )
}

/// The method that reads a field by its key.
pub open spec fn get_config_code(config_key: Ident, fields: Seq<FieldDefView>) -> Seq<Token> {
    comment_code(" Get a config value by key."@) + lex("pub fn get_config_value"@) + paren(
        lex("&self, key: &"@) + given(config_key),
    ) + lex("-> ::std::option::Option<::std::string::String>"@) + brace(
        lex("match key"@) + brace(get_arms(config_key, fields)),
    )
}

/// The methods that set and read a field by its key.
pub open spec fn dispatch_code(
    struct_name: Ident,
    struct_attrs: StructAttrs,
    fields: Seq<FieldDefView>,
) -> Seq<Token> {
    lex("impl"@) + given(struct_name) + brace(
        with_config_code(struct_attrs.config_key, fields) + get_config_code(
            struct_attrs.config_key,
            fields,
        ),
    )
}

/// A call without arguments of a function whose path is appended: `()`.
fn push_call(code: &mut Code)
    ensures
        final(code)@ == old(code)@ + paren(Seq::empty()),
{
    code.paren(Code::new());
}

fn generate_set(field: &Ident, strategy: Strategy) -> (res: Code)
    ensures
        res@ == set_code(*field, strategy),
{
    let mut code: Code = Code::new();
    code.quote("self.");
    code.ident(field);
    match strategy {
        Strategy::OptionString => {
            let mut value: Code = Code::new();
            value.quote("value.into");
            push_call(&mut value);
            code.quote("= ::std::option::Option::Some");
            code.paren(value);
        },
        Strategy::ConfigValue => {
            let mut value: Code = Code::new();
            value.quote("value");
            code.quote(".parse");
            code.paren(value);
        },
        Strategy::OptionConfigValueDeferred => {
            let mut value: Code = Code::new();
            value.quote("value.into");
            push_call(&mut value);
            let mut deferred: Code = Code::new();
            deferred.quote("crate::config::ConfigValue::Deferred");
            deferred.paren(value);
            code.quote("= ::std::option::Option::Some");
            code.paren(deferred);
        },
    }
    code.quote(";");
    code
}

fn generate_get(field: &Ident, attrs: &FieldAttrs) -> (res: Code)
    ensures
        res@ == get_code(*field, attrs@),
{
    let mut code: Code = Code::new();
    if let Some(getter) = &attrs.get_via {
        code.quote("self.");
        code.ident(getter);
        push_call(&mut code);
        return code;
    }
    match attrs.strategy {
        Strategy::OptionString => {
            code.quote("self.");
            code.ident(field);
            code.quote(".clone");
            push_call(&mut code);
        },
        Strategy::ConfigValue => {
            let mut value: Code = Code::new();
            value.quote("self.");
            value.ident(field);
            value.quote(".to_string");
            push_call(&mut value);
            code.quote("::std::option::Option::Some");
            code.paren(value);
        },
        Strategy::OptionConfigValueDeferred => {
            let mut format: Code = Code::new();
            match attrs.formatter {
                Formatter::Duration => {
                    format.quote("crate::config::fmt_duration");
                },
                Formatter::ToString => {
                    format.quote("|v| v.to_string");
                    push_call(&mut format);
                },
            }
            code.quote("self.");
            code.ident(field);
            code.quote(".as_ref");
            push_call(&mut code);
            code.quote(".map");
            code.paren(format);
        },
    }
    code
}

fn generate_set_arms(config_key: &Ident, fields: &Vec<FieldDef<'_>>) -> (res: Code)
    ensures
        res@ == set_arms(*config_key, defs_view(fields@)),
{
    let ghost defs = defs_view(fields@);
    let mut code: Code = Code::new();
    let mut i: usize = 0;
    while i < fields.len()
        invariant
            i <= fields.len(),
            defs == defs_view(fields@),
            code@ == set_arms(*config_key, defs.take(i as int)),
        decreases fields.len() - i,
    {
        let field: &FieldDef<'_> = &fields[i];
        let ghost before = code@;
        code.splice_all(&field.attrs.cfg_attrs);
        code.ident(config_key);
        code.quote("::");
        code.name(&field.attrs.variant);
        code.quote("=>");
        code.brace(generate_set(&field.field_ident, field.attrs.strategy));
        proof {
            assert(defs.take(i + 1).drop_last() =~= defs.take(i as int));
            assert(defs.take(i + 1).last() == field@);
            assert(code@ =~= before + set_arm(*config_key, field@));
        }
        i = i + 1;
    }
    proof {
        assert(defs.take(i as int) =~= defs);
    }
    code
}

fn generate_get_arms(config_key: &Ident, fields: &Vec<FieldDef<'_>>) -> (res: Code)
    ensures
        res@ == get_arms(*config_key, defs_view(fields@)),
{
    let ghost defs = defs_view(fields@);
    let mut code: Code = Code::new();
    let mut i: usize = 0;
    while i < fields.len()
        invariant
            i <= fields.len(),
            defs == defs_view(fields@),
            code@ == get_arms(*config_key, defs.take(i as int)),
        decreases fields.len() - i,
    {
        let field: &FieldDef<'_> = &fields[i];
        let ghost before = code@;
        code.splice_all(&field.attrs.cfg_attrs);
        code.ident(config_key);
        code.quote("::");
        code.name(&field.attrs.variant);
        code.quote("=>");
        code.append(generate_get(&field.field_ident, &field.attrs));
        code.quote(",");
        proof {
            assert(defs.take(i + 1).drop_last() =~= defs.take(i as int));
            assert(defs.take(i + 1).last() == field@);
            assert(code@ =~= before + get_arm(*config_key, field@));
        }
        i = i + 1;
    }
    proof {
        assert(defs.take(i as int) =~= defs);
    }
    code
}

fn generate_with_config(config_key: &Ident, fields: &Vec<FieldDef<'_>>) -> (res: Code)
    ensures
        res@ == with_config_code(*config_key, defs_view(fields@)),
{
    let mut parameters: Code = Code::new();
    parameters.quote("mut self, key:");
    parameters.ident(config_key);
    parameters.quote(", value: impl ::std::convert::Into<::std::string::String>");
    let mut body: Code = Code::new();
    body.quote("let value: ::std::string::String = value.into");
    push_call(&mut body);
    body.quote("; match key");
    body.brace(generate_set_arms(config_key, fields));
    body.quote("self");
    let mut code: Code = Code::new();
    push_comment(&mut code, " Set a config option by key.");
    code.quote("pub fn with_config");
    code.paren(parameters);
    code.quote("-> Self");
    code.brace(body);
    code
}

fn generate_get_config(config_key: &Ident, fields: &Vec<FieldDef<'_>>) -> (res: Code)
    ensures
        res@ == get_config_code(*config_key, defs_view(fields@)),
{
    let mut parameters: Code = Code::new();
    parameters.quote("&self, key: &");
    parameters.ident(config_key);
    let mut body: Code = Code::new();
    body.quote("match key");
    body.brace(generate_get_arms(config_key, fields));
    let mut code: Code = Code::new();
    push_comment(&mut code, " Get a config value by key.");
    code.quote("pub fn get_config_value");
    code.paren(parameters);
    code.quote("-> ::std::option::Option<::std::string::String>");
    code.brace(body);
    code
}

/// Generates the methods that set and read a field by its key.
pub fn generate_dispatch(
    struct_name: &Ident,
    struct_attrs: &StructAttrs,
    fields: &Vec<FieldDef<'_>>,
) -> (res: Code)
    ensures
        res@ == dispatch_code(*struct_name, *struct_attrs, defs_view(fields@)),
{
    let mut body: Code = generate_with_config(&struct_attrs.config_key, fields);
    body.append(generate_get_config(&struct_attrs.config_key, fields));
    let mut code: Code = Code::new();
    code.quote("impl");
    code.ident(struct_name);
    code.brace(body);
    code
}

// ---------------------------------------------------------------------------
// Setters
// ---------------------------------------------------------------------------

/// The type that the setter of a field takes, or the error that the field's type has none.
pub open spec fn setter_type(field: FieldDefView) -> Result<Seq<Token>, ErrorView> {
    match field.attrs.strategy {
        Strategy::OptionString => Ok(lex("impl ::std::convert::Into<::std::string::String>"@)),
        Strategy::ConfigValue => match config_value_inner(field.ty) {
            Ok(inner) => Ok(splice(inner.tokens)),
            Err(error) => Err(error),
        },
        Strategy::OptionConfigValueDeferred => match option_config_value_inner(field.ty) {
            Ok(inner) => Ok(splice(inner.tokens)),
            Err(error) => Err(error),
        },
    }
}

/// What the setter of a field does.
pub open spec fn setter_body(field: FieldDefView) -> Seq<Token> {
    lex("self."@) + given(field.field_ident) + match field.attrs.strategy {
        Strategy::ConfigValue => lex("= value.into"@) + paren(Seq::empty()),
        _ => lex("= ::std::option::Option::Some"@) + paren(
            lex("value.into"@) + paren(Seq::empty()),
        ),
    } + lex("; self"@)
}

/// The setter of a field, nothing where it is to have none, or the error that it cannot have one.
pub open spec fn setter_code(field: FieldDefView) -> Result<Seq<Token>, ErrorView> {
    if field.attrs.setter == SetterMode::Skip {
        Ok(Seq::empty())
    } else {
        match setter_type(field) {
            Ok(ty) => Ok(
                splices(field.attrs.cfg_attrs) + splices(field.attrs.docs) + lex("pub fn"@) + named(
                    field.attrs.setter_name,
                ) + paren(lex("mut self, value:"@) + ty) + lex("-> Self"@) + brace(
                    setter_body(field),
                ),
            ),
            Err(error) => Err(error),
        }
    }
}

/// The setters of several fields, or the first error.
pub open spec fn setter_codes(fields: Seq<FieldDefView>) -> Result<Seq<Token>, ErrorView>
    decreases fields.len(),
{
    if fields.len() == 0 {
        Ok(Seq::empty())
    } else {
        match (setter_codes(fields.drop_last()), setter_code(fields.last())) {
            (Err(error), _) => Err(error),
            (_, Err(error)) => Err(error),
            (Ok(before), Ok(setter)) => Ok(before + setter),
        }
    }
}

/// The setters of a definition, or the first error.
pub open spec fn setters_code(struct_name: Ident, fields: Seq<FieldDefView>) -> Result<
    Seq<Token>,
    ErrorView,
> {
    match setter_codes(fields) {
        Ok(setters) => Ok(lex("impl"@) + given(struct_name) + brace(setters)),
        Err(error) => Err(error),
    }
}

/// The view of code or an error.
pub open spec fn code_outcome(res: Result<Code, DeriveError>) -> Result<Seq<Token>, ErrorView> {
    match res {
        Ok(code) => Ok(code@),
        Err(error) => Err(error@),
    }
}

fn generate_setter_type(field: &FieldDef<'_>) -> (res: Result<Code, DeriveError>)
    ensures
        code_outcome(res) == setter_type(field@),
{
    let mut code: Code = Code::new();
    match field.attrs.strategy {
        Strategy::OptionString => {
            code.quote("impl ::std::convert::Into<::std::string::String>");
        },
        Strategy::ConfigValue => match extract_config_value_inner(field.ty) {
            Ok(inner) => {
                code.splice(&inner.tokens);
            },
            Err(error) => {
                return Err(error);
            },
        },
        Strategy::OptionConfigValueDeferred => match extract_option_config_value_inner(field.ty) {
            Ok(inner) => {
                code.splice(&inner.tokens);
            },
            Err(error) => {
                return Err(error);
            },
        },
    }
    proof {
        assert(code@ =~= setter_type(field@)->Ok_0);
    }
    Ok(code)
}

fn generate_setter_body(field: &FieldDef<'_>) -> (res: Code)
    ensures
        res@ == setter_body(field@),
{
    let mut code: Code = Code::new();
    code.quote("self.");
    code.ident(&field.field_ident);
    match field.attrs.strategy {
        Strategy::ConfigValue => {
            code.quote("= value.into");
            push_call(&mut code);
        },
        _ => {
            let mut value: Code = Code::new();
            value.quote("value.into");
            push_call(&mut value);
            proof {
                assert(value@ =~= lex("value.into"@) + paren(Seq::empty()));
            }
            code.quote("= ::std::option::Option::Some");
            code.paren(value);
        },
    }
    code.quote("; self");
    proof {
        assert(code@ =~= setter_body(field@));
    }
    code
}

fn generate_setter(field: &FieldDef<'_>) -> (res: Result<Code, DeriveError>)
    ensures
        code_outcome(res) == setter_code(field@),
{
    let mut code: Code = Code::new();
    if field.attrs.setter == SetterMode::Skip {
        return Ok(code);
    }
    let ty: Code = match generate_setter_type(field) {
        Ok(ty) => ty,
        Err(error) => {
            return Err(error);
        },
    };
    let mut parameters: Code = Code::new();
    parameters.quote("mut self, value:");
    parameters.append(ty);
    code.splice_all(&field.attrs.cfg_attrs);
    code.splice_all(&field.attrs.docs);
    code.quote("pub fn");
    code.name(&field.attrs.setter_name);
    code.paren(parameters);
    code.quote("-> Self");
    code.brace(generate_setter_body(field));
    proof {
        assert(code@ =~= setter_code(field@)->Ok_0);
    }
    Ok(code)
}

/// An error among the first setters is the error of them all.
proof fn lemma_setter_error(fields: Seq<FieldDefView>, n: int)
    requires
        0 <= n <= fields.len(),
        setter_codes(fields.take(n)) is Err,
    ensures
        setter_codes(fields) == setter_codes(fields.take(n)),
    decreases fields.len() - n,
{
    if n == fields.len() {
        assert(fields.take(n) =~= fields);
    } else {
        assert(fields.take(n + 1).drop_last() =~= fields.take(n));
        lemma_setter_error(fields, n + 1);
    }
}

/// Generates a setter for each field that is to have one.
pub fn generate_setters(struct_name: &Ident, fields: &Vec<FieldDef<'_>>) -> (res: Result<
    Code,
    DeriveError,
>)
    ensures
        code_outcome(res) == setters_code(*struct_name, defs_view(fields@)),
{
    let ghost defs = defs_view(fields@);
    let mut setters: Code = Code::new();
    let mut i: usize = 0;
    while i < fields.len()
        invariant
            i <= fields.len(),
            defs == defs_view(fields@),
            setter_codes(defs.take(i as int)) == Ok::<Seq<Token>, ErrorView>(setters@),
        decreases fields.len() - i,
    {
        proof {
            assert(defs.take(i + 1).drop_last() =~= defs.take(i as int));
            assert(defs.take(i + 1).last() == fields@[i as int]@);
        }
        match generate_setter(&fields[i]) {
            Ok(setter) => {
                setters.append(setter);
            },
            Err(error) => {
                proof {
                    lemma_setter_error(defs, i + 1);
                }
                return Err(error);
            },
        }
        i = i + 1;
    }
    proof {
        assert(defs.take(i as int) =~= defs);
    }
    let mut code: Code = Code::new();
    code.quote("impl");
    code.ident(struct_name);
    code.brace(setters);
    proof {
        assert(code@ =~= setters_code(*struct_name, defs)->Ok_0);
    }
    Ok(code)
}

} // verus!
