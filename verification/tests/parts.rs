use object_store_macros::code::{Code, Tok};
use object_store_macros::config::{
    find_formatter, find_setter, find_strategy, no_field_options, take_config_item,
    take_config_items, FieldOptions, SetterMode,
};
use object_store_macros::derive::{are_names_legal, report};
use object_store_macros::errors::{DeriveError, Problem};
use object_store_macros::expand::{collect_fields, expand, plan};
use object_store_macros::fields::{collect_named, parse_field_attrs, resolve_field, FieldDef};
use object_store_macros::generate::{
    build_supported_keys_doc, generate_asref, generate_dispatch, generate_enum, generate_fromstr,
    generate_setters,
};
use object_store_macros::infer::{
    extract_config_value_inner, extract_option_config_value_inner,
    extract_single_generic_arg_as_type, infer_formatter, infer_strategy, last_segment_is, Formatter,
    Strategy,
};
use object_store_macros::items::{Element, Item, Nested, Text};
use object_store_macros::keys::check_duplicate_keys;
use object_store_macros::names::{
    is_ident_continue, is_ident_start, is_legal_ident, pascal_case, same_text, setter_for,
    snake_to_pascal, to_upper, Name,
};
use object_store_macros::store::{parse_struct_attrs, take_store_items, StoreOptions};
use object_store_macros::syntax::{read_attrs, read_fields, read_input, read_type, Definition, TypeInfo};
use object_store_macros::tokens::Delim;
use proc_macro2::{Delimiter, Ident, Spacing, Span, TokenStream, TokenTree};

fn tokens(text: &str) -> TokenStream {
    text.parse::<TokenStream>().unwrap()
}

fn ident(text: &str) -> Ident {
    syn::parse_str::<Ident>(text).unwrap()
}

fn ty(text: &str) -> TypeInfo {
    read_type(&syn::parse_str::<syn::Type>(text).unwrap())
}

fn definition(text: &str) -> Definition {
    read_input(&syn::parse_str::<syn::DeriveInput>(text).unwrap())
}

fn options(fields: &str) -> Definition {
    definition(&format!(
        "#[object_store(config_key = Key, error_path = Error::Unknown)] struct Opts {{ {} }}",
        fields
    ))
}

fn text(value: &str) -> Text {
    Text { value: value.to_string(), span: Span::call_site(), tokens: TokenStream::new() }
}

fn items(items: Vec<Item>) -> Nested {
    Nested { items, end: None }
}

fn written(code: &Code) -> String {
    code.to_stream(Span::call_site()).to_string()
}

fn made(name: &Name) -> String {
    match name {
        Name::Given(ident) => ident.to_string(),
        Name::Made(text, _) => text.clone(),
    }
}

fn messages(error: &DeriveError) -> Vec<String> {
    error.to_syn_error().into_iter().map(|part| part.to_string()).collect()
}

fn refusal<T>(res: Result<T, DeriveError>) -> String {
    match res {
        Ok(_) => panic!("accepted"),
        Err(error) => messages(&error).join("; "),
    }
}

fn accepted<T>(res: Result<T, DeriveError>) -> T {
    match res {
        Ok(value) => value,
        Err(error) => panic!("refused: {}", messages(&error).join("; ")),
    }
}

// ---------------------------------------------------------------------------
// Names
// ---------------------------------------------------------------------------

#[test]
fn pascal_case_of_texts() {
    assert_eq!(pascal_case("access_key_id"), "AccessKeyId");
    assert_eq!(pascal_case("s3"), "S3");
    assert_eq!(pascal_case("_private"), "Private");
    assert_eq!(pascal_case("a__b_"), "AB");
    assert_eq!(pascal_case("keepCase_here"), "KeepCaseHere");
    assert_eq!(pascal_case("r#type"), "R#type");
    assert_eq!(pascal_case("ä_ö"), "äö");
    assert_eq!(pascal_case("__"), "");
    assert_eq!(pascal_case(""), "");
}

#[test]
fn upper_case_of_characters() {
    assert_eq!(to_upper('a'), 'A');
    assert_eq!(to_upper('z'), 'Z');
    assert_eq!(to_upper('A'), 'A');
    assert_eq!(to_upper('1'), '1');
    assert_eq!(to_upper('ä'), 'ä');
    assert_eq!(to_upper('{'), '{');
    assert_eq!(to_upper('`'), '`');
}

#[test]
fn identifiers() {
    assert!(is_legal_ident("a"));
    assert!(is_legal_ident("_"));
    assert!(is_legal_ident("_1"));
    assert!(is_legal_ident("self"));
    assert!(is_legal_ident("Größe"));
    assert!(is_legal_ident("東京"));
    assert!(!is_legal_ident(""));
    assert!(!is_legal_ident("1"));
    assert!(!is_legal_ident("1a"));
    assert!(!is_legal_ident("r#type"));
    assert!(!is_legal_ident("a b"));
    assert!(!is_legal_ident("a-b"));
    assert!(!is_legal_ident("€"));
    // A combining accent can stand inside an identifier, not at its start.
    assert!(is_ident_continue('\u{301}'));
    assert!(!is_ident_start('\u{301}'));
    assert!(is_ident_start('_') && is_ident_continue('_'));
    assert!(!is_ident_start('7') && is_ident_continue('7'));
}

#[test]
fn same_texts() {
    assert!(same_text("key", "key"));
    assert!(same_text("", ""));
    assert!(!same_text("key", "keys"));
    assert!(!same_text("key", "Key"));
}

#[test]
fn variants_and_setters_of_fields() {
    let variant = snake_to_pascal(&ident("access_key"));
    assert_eq!(made(&variant), "AccessKey");
    assert!(variant.is_legal());
    assert_eq!(made(&variant.duplicate()), "AccessKey");
    assert_eq!(made(&setter_for(&ident("access_key"))), "with_access_key");
    let raw = snake_to_pascal(&ident("r#type"));
    assert_eq!(made(&raw), "R#type");
    assert!(!raw.is_legal());
    assert_eq!(made(&setter_for(&ident("r#type"))), "with_type");
    assert!(setter_for(&ident("r#type")).is_legal());
    assert_eq!(made(&setter_for(&ident("r"))), "with_r");
    assert!(Name::Given(ident("r#type")).is_legal());
}

// ---------------------------------------------------------------------------
// Code
// ---------------------------------------------------------------------------

#[test]
fn snippets() {
    let mut code = Code::new();
    assert_eq!(code.toks.len(), 0);
    code.quote("impl ::std::x<str> -> &_ => |v| a.b; #");
    let trees: Vec<TokenTree> = code.to_stream(Span::call_site()).into_iter().collect();
    let mut found = String::new();
    for tree in &trees {
        match tree {
            TokenTree::Ident(ident) => found.push_str(&format!("{} ", ident)),
            TokenTree::Punct(punct) => match punct.spacing() {
                Spacing::Joint => found.push_str(&format!("{}+", punct.as_char())),
                Spacing::Alone => found.push_str(&format!("{} ", punct.as_char())),
            },
            _ => panic!("unexpected token"),
        }
    }
    assert_eq!(found, "impl :+: std :+: x < str > -+> & _ =+> | v | a . b ; # ");
}

#[test]
fn parts_of_code() {
    let mut inner = Code::new();
    inner.text("say \"a\"\n");
    let mut code = Code::new();
    code.paren(Code::new());
    code.bracket(inner);
    let mut block = Code::new();
    block.ident(&ident("r#fn"));
    block.name(&Name::Made("made".to_string(), Span::call_site()));
    code.brace(block);
    code.splice(&tokens("a -1 + 'x'"));
    code.splice_all(&vec![tokens("b"), TokenStream::new(), tokens("c d")]);
    let mut more = Code::new();
    more.quote("end");
    code.append(more);
    let stream = code.to_stream(Span::call_site());
    assert_eq!(
        stream.to_string(),
        tokens("() [\"say \\\"a\\\"\\n\"] { r#fn made } a -1 + 'x' b c d end").to_string()
    );
    let trees: Vec<TokenTree> = stream.into_iter().collect();
    assert!(matches!(&trees[0], TokenTree::Group(group) if group.delimiter() == Delimiter::Parenthesis));
    assert!(matches!(&trees[1], TokenTree::Group(group) if group.delimiter() == Delimiter::Bracket));
    assert!(matches!(&trees[2], TokenTree::Group(group) if group.delimiter() == Delimiter::Brace));
    assert!(matches!(&code.toks[0], Tok::Nest(Delim::Paren, inner) if inner.toks.is_empty()));
}

#[test]
fn raw_literals() {
    let mut code = Code::new();
    code.raw(" a\\b 'c' #");
    code.raw("");
    code.text("");
    code.toks.push(Tok::Nest(Delim::Invisible, Code::new()));
    let trees: Vec<TokenTree> = code.to_stream(Span::call_site()).into_iter().collect();
    assert_eq!(trees.len(), 4);
    assert_eq!(trees[0].to_string(), "r\" a\\b 'c' #\"");
    assert_eq!(trees[1].to_string(), "r\"\"");
    assert_eq!(trees[2].to_string(), "\"\"");
    assert!(trees[..3].iter().all(|tree| matches!(tree, TokenTree::Literal(_))));
    assert!(matches!(&trees[3], TokenTree::Group(group) if group.delimiter() == Delimiter::None));
}

// ---------------------------------------------------------------------------
// Types
// ---------------------------------------------------------------------------

#[test]
fn strategies_of_types() {
    assert!(infer_strategy(&ty("Option<String>")) == Some(Strategy::OptionString));
    assert!(infer_strategy(&ty("std::option::Option<std::string::String>")) == Some(Strategy::OptionString));
    assert!(infer_strategy(&ty("ConfigValue<bool>")) == Some(Strategy::ConfigValue));
    assert!(infer_strategy(&ty("Option<ConfigValue<u8>>")) == Some(Strategy::OptionConfigValueDeferred));
    assert!(infer_strategy(&ty("Option<'a, 3, String>")) == Some(Strategy::OptionString));
    for other in [
        "String",
        "Option",
        "Option<>",
        "Option<u8>",
        "Option<Option<String>>",
        "ConfigValue",
        "ConfigValue<'a>",
        "Option<ConfigValue>",
        "impl Option(String)",
        "&Option<String>",
        "(Option<String>,)",
        "Vec<ConfigValue<u8>>",
        "r#Option<String>",
    ] {
        assert!(infer_strategy(&ty(other)).is_none(), "{}", other);
    }
}

#[test]
fn formatters_of_types() {
    let deferred = Strategy::OptionConfigValueDeferred;
    assert!(infer_formatter(deferred, &ty("Option<ConfigValue<Duration>>")) == Formatter::Duration);
    assert!(infer_formatter(deferred, &ty("Option<ConfigValue<std::time::Duration>>")) == Formatter::Duration);
    assert!(infer_formatter(deferred, &ty("Option<ConfigValue<u8>>")) == Formatter::ToString);
    assert!(infer_formatter(deferred, &ty("ConfigValue<Duration>")) == Formatter::ToString);
    assert!(infer_formatter(deferred, &ty("Option<Duration>")) == Formatter::ToString);
    assert!(infer_formatter(Strategy::ConfigValue, &ty("Option<ConfigValue<Duration>>")) == Formatter::ToString);
    assert!(infer_formatter(Strategy::OptionString, &ty("Option<String>")) == Formatter::ToString);
}

#[test]
fn arguments_of_types() {
    let map = ty("a::Map<'b, Vec<u8>, c::Value>");
    assert!(last_segment_is(&map, "Map"));
    assert!(!last_segment_is(&map, "a"));
    assert!(!last_segment_is(&ty("[u8; 4]"), "u8"));
    let first = extract_single_generic_arg_as_type(&map, "Map").unwrap();
    assert_eq!(first.tokens.to_string(), tokens("Vec<u8>").to_string());
    assert!(extract_single_generic_arg_as_type(&map, "Vec").is_none());
    let inner = accepted(extract_config_value_inner(&ty("x::ConfigValue<Vec<u8>>")).map(|ty| ty.tokens.to_string()));
    assert_eq!(inner, "Vec < u8 >");
    let deferred = ty("Option<ConfigValue<u16>>");
    assert_eq!(accepted(extract_option_config_value_inner(&deferred)).tokens.to_string(), "u16");
    assert_eq!(
        refusal(extract_config_value_inner(&deferred)),
        "expected field type to be `ConfigValue<T>`"
    );
    assert_eq!(
        refusal(extract_option_config_value_inner(&ty("Option<u8>"))),
        "expected field type to be `ConfigValue<T>`"
    );
    assert_eq!(
        refusal(extract_option_config_value_inner(&ty("ConfigValue<u8>"))),
        "expected field type to be `Option<ConfigValue<T>>` for strategy `option_config_value_deferred`"
    );
}

// ---------------------------------------------------------------------------
// Attributes
// ---------------------------------------------------------------------------

#[test]
fn names_of_attributes() {
    let item = syn::parse_str::<syn::DeriveInput>(
        "#[config] #[config(skip)] #[config = 1] #[a::config] #[r#config()] struct S;",
    )
    .unwrap();
    let attrs = read_attrs(&item.attrs);
    assert_eq!(attrs.len(), 5);
    assert!(attrs[0].is_named("config") && !attrs[0].is_list());
    assert!(attrs[1].is_named("config") && attrs[1].is_list());
    assert!(attrs[2].is_named("config") && !attrs[2].is_list());
    assert!(!attrs[3].is_named("config") && !attrs[3].is_named("a") && !attrs[3].is_named("a::config"));
    assert!(!attrs[4].is_named("config") && attrs[4].is_named("r#config"));
    assert_eq!(attrs[1].tokens().to_string(), tokens("#[config(skip)]").to_string());
    let named = collect_named(&attrs, "config");
    assert_eq!(named.len(), 3);
    assert_eq!(named[2].to_string(), tokens("#[config = 1]").to_string());
}

#[test]
fn attributes_without_a_path() {
    let mut item = syn::parse_str::<syn::DeriveInput>("#[object_store] struct S { #[config] a: Option<String> }").unwrap();
    let empty = || syn::Path { leading_colon: None, segments: syn::punctuated::Punctuated::new() };
    item.attrs[0].meta = syn::Meta::Path(empty());
    if let syn::Data::Struct(data) = &mut item.data {
        for field in data.fields.iter_mut() {
            field.attrs[0].meta = syn::Meta::Path(empty());
        }
    }
    let attrs = read_attrs(&item.attrs);
    assert!(!attrs[0].is_named("object_store") && !attrs[0].is_named(""));
    assert!(attrs[0].attribute().path().segments.is_empty());
    assert_eq!(
        refusal(parse_struct_attrs(&read_input(&item))),
        "missing required attribute `#[object_store(config_key = ...)]`"
    );
}

#[test]
fn words_of_items() {
    assert!(find_strategy("option_string") == Some(Strategy::OptionString));
    assert!(find_strategy("config_value") == Some(Strategy::ConfigValue));
    assert!(find_strategy("option_config_value_deferred") == Some(Strategy::OptionConfigValueDeferred));
    assert!(find_strategy("OptionString").is_none());
    assert!(find_formatter("to_string") == Some(Formatter::ToString));
    assert!(find_formatter("duration") == Some(Formatter::Duration));
    assert!(find_formatter("").is_none());
    assert!(find_setter("auto") == Some(SetterMode::Auto));
    assert!(find_setter("skip") == Some(SetterMode::Skip));
    assert!(find_setter("none").is_none());
}

#[test]
fn options_without_items() {
    let none = no_field_options();
    assert!(!none.skip && none.key.is_none() && none.aliases.is_empty() && none.strategy.is_none());
    assert!(none.formatter.is_none() && none.get_via.is_none() && none.variant.is_none());
    assert!(none.setter == SetterMode::Auto && none.setter_name.is_none() && none.doc_inherit);
}

#[test]
fn the_last_item_counts() {
    let given = accepted(take_config_items(items(vec![
        Item::Key(text("a")),
        Item::Strategy(ident("config_value")),
        Item::DocInherit(false),
        Item::Setter(ident("skip")),
        Item::Variant(ident("A")),
        Item::Key(text("b")),
        Item::Strategy(ident("option_string")),
        Item::DocInherit(true),
        Item::Setter(ident("auto")),
        Item::Variant(ident("B")),
        Item::GetVia(ident("get")),
        Item::SetterName(ident("set")),
        Item::Formatter(ident("duration")),
    ])));
    assert_eq!(given.key.unwrap().value, "b");
    assert!(given.strategy.unwrap().0 == Strategy::OptionString);
    assert!(given.doc_inherit && given.setter == SetterMode::Auto && !given.skip);
    assert_eq!(given.variant.unwrap().to_string(), "B");
    assert_eq!(given.get_via.unwrap().to_string(), "get");
    assert_eq!(given.setter_name.unwrap().to_string(), "set");
    assert!(given.formatter == Some(Formatter::Duration));

    let start = StoreOptions { config_key: Some(ident("Old")), error_path: Some(tokens("a::B")), error_store: None };
    let given = accepted(take_store_items(
        start,
        items(vec![
            Item::ConfigKey(ident("First")),
            Item::ErrorStore(Text { value: "s".to_string(), span: Span::call_site(), tokens: tokens("\"s\"") }),
            Item::ConfigKey(ident("Second")),
        ]),
    ));
    assert_eq!(given.config_key.unwrap().to_string(), "Second");
    assert_eq!(given.error_path.unwrap().to_string(), "a :: B");
    assert_eq!(given.error_store.unwrap().to_string(), "\"s\"");
}

#[test]
fn aliases_add_up() {
    let alias = |value: &str| Element::Text(value.to_string());
    let given = accepted(take_config_items(items(vec![
        Item::Aliases(vec![alias("a"), alias("")]),
        Item::Skip,
        Item::Aliases(vec![]),
        Item::Aliases(vec![alias("b")]),
    ])));
    assert_eq!(given.aliases, vec!["a", "", "b"]);
    assert!(given.skip);
    let mut kept: FieldOptions = no_field_options();
    assert!(take_config_item(&mut kept, Item::Aliases(vec![alias("c")])).is_ok());
    assert_eq!(kept.aliases, vec!["c"]);
}

#[test]
fn items_commute() {
    let one = accepted(take_config_items(items(vec![Item::Key(text("k")), Item::Skip])));
    let two = accepted(take_config_items(items(vec![Item::Skip, Item::Key(text("k"))])));
    assert_eq!(one.key.unwrap().value, two.key.unwrap().value);
    assert_eq!(one.skip, two.skip);
}

#[test]
fn refused_items_of_config() {
    let refused = |item: Item| refusal(take_config_items(items(vec![item])));
    assert_eq!(refused(Item::Key(text(""))), "config key must be non-empty");
    assert_eq!(
        refused(Item::Aliases(vec![Element::Text("a".to_string()), Element::Other(tokens("1 + 2"))])),
        "aliases must be a list of string literals"
    );
    assert_eq!(
        refused(Item::Strategy(ident("x"))),
        "unknown strategy `x`; expected one of `option_string`, `config_value`, `option_config_value_deferred`"
    );
    assert_eq!(refused(Item::Formatter(ident("x"))), "unknown formatter `x`; expected `to_string` or `duration`");
    assert_eq!(refused(Item::Setter(ident("x"))), "unknown setter mode `x`; expected `auto` or `skip`");
    let error = || syn::Error::new(Span::call_site(), "told");
    assert_eq!(refused(Item::Unknown(error())), "told");
    // An item that is wrong comes before the end of the reading, and the end before the options.
    let nested = Nested { items: vec![Item::Key(text(""))], end: Some(error()) };
    assert_eq!(refusal(take_config_items(nested)), "config key must be non-empty");
    let nested = Nested { items: vec![Item::Skip], end: Some(error()) };
    assert_eq!(refusal(take_config_items(nested)), "told");
    let nothing = || StoreOptions { config_key: None, error_path: None, error_store: None };
    assert_eq!(refusal(take_store_items(nothing(), items(vec![Item::Unknown(error())]))), "told");
    assert_eq!(refusal(take_store_items(nothing(), Nested { items: vec![], end: Some(error()) })), "told");
}

#[test]
fn attributes_of_the_struct() {
    let given = accepted(parse_struct_attrs(&definition(
        "#[object_store(config_key = A, error_path = x::Y)] #[other] #[object_store(config_key = B, error_store = \"S\")] struct S;",
    )));
    assert_eq!(given.config_key.to_string(), "B");
    assert_eq!(given.error_path.to_string(), "x :: Y");
    assert_eq!(given.error_store.unwrap().to_string(), "\"S\"");
    assert_eq!(
        refusal(parse_struct_attrs(&definition("#[object_store(error_path = x)] struct S;"))),
        "missing required attribute `#[object_store(config_key = ...)]`"
    );
    assert_eq!(
        refusal(parse_struct_attrs(&definition("#[object_store(config_key = K)] struct S;"))),
        "missing required attribute `#[object_store(error_path = ...)]`"
    );
}

// ---------------------------------------------------------------------------
// Fields
// ---------------------------------------------------------------------------

#[test]
fn fields_without_names() {
    let item = syn::parse_str::<syn::DeriveInput>("struct S(Option<String>);").unwrap();
    let fields: Vec<syn::Field> = match item.data {
        syn::Data::Struct(data) => data.fields.into_iter().collect(),
        _ => unreachable!(),
    };
    assert_eq!(refusal(parse_field_attrs(&read_fields(&fields)[0])), "field must be named");
}

#[test]
fn fields_that_take_part() {
    let definition = options(
        "/// Doc.\n #[cfg(unix)] #[config(key = \"k\", aliases = [\"l\"])] access_key: Option<String>, other: u8, #[config(skip)] hidden: u8, size: ConfigValue<u8>",
    );
    let plan = accepted(plan(&definition));
    assert_eq!(plan.fields.len(), 2);
    let first = &plan.fields[0];
    assert_eq!(first.field_ident.to_string(), "access_key");
    assert_eq!(first.attrs.key, "k");
    assert_eq!(first.attrs.aliases, vec!["l"]);
    assert_eq!(made(&first.attrs.variant), "AccessKey");
    assert_eq!(made(&first.attrs.setter_name), "with_access_key");
    assert_eq!(first.attrs.cfg_attrs.len(), 1);
    assert_eq!(first.attrs.cfg_attrs[0].to_string(), tokens("#[cfg(unix)]").to_string());
    assert_eq!(first.attrs.docs[0].to_string(), tokens("#[doc = \" Doc.\"]").to_string());
    assert!(first.attrs.strategy == Strategy::OptionString);
    let second = &plan.fields[1];
    assert_eq!(second.attrs.key, "size");
    assert!(second.attrs.strategy == Strategy::ConfigValue && second.attrs.aliases.is_empty());
    assert!(are_names_legal(&definition));
    assert!(!are_names_legal(&options("__: Option<String>")));
}

#[test]
fn decisions_on_a_field() {
    let item = syn::parse_str::<syn::DeriveInput>("struct S { a: Option<String>, b: u8, c: Option<ConfigValue<Duration>> }").unwrap();
    let fields: Vec<syn::Field> = match item.data {
        syn::Data::Struct(data) => data.fields.into_iter().collect(),
        _ => unreachable!(),
    };
    let decls = read_fields(&fields);
    // A field without `#[config]` is passed over where its type tells no strategy.
    assert!(accepted(resolve_field(&decls[1], &ident("b"), false, no_field_options())).is_none());
    assert!(refusal(resolve_field(&decls[1], &ident("b"), true, no_field_options())).starts_with("could not infer strategy"));
    let mut given = no_field_options();
    given.skip = true;
    given.formatter = Some(Formatter::Duration);
    assert!(accepted(resolve_field(&decls[0], &ident("a"), true, given)).is_none());
    let mut given = no_field_options();
    given.formatter = Some(Formatter::ToString);
    assert_eq!(
        refusal(resolve_field(&decls[0], &ident("a"), true, given)),
        "`formatter` is only valid with `strategy = option_config_value_deferred`"
    );
    let mut given = no_field_options();
    given.formatter = Some(Formatter::ToString);
    given.variant = Some(ident("V"));
    let attrs = accepted(resolve_field(&decls[2], &ident("c"), true, given)).unwrap();
    assert!(attrs.formatter == Formatter::ToString);
    assert_eq!(made(&attrs.variant), "V");
    let inferred = accepted(resolve_field(&decls[2], &ident("c"), false, no_field_options())).unwrap();
    assert!(inferred.formatter == Formatter::Duration);
}

/// The fields of a struct that take part.
fn with_fields<T>(fields: &str, check: impl Fn(&Vec<FieldDef<'_>>) -> T) -> T {
    let item = syn::parse_str::<syn::DeriveInput>(&format!("struct S {{ {} }}", fields)).unwrap();
    let fields: Vec<syn::Field> = match item.data {
        syn::Data::Struct(data) => data.fields.into_iter().collect(),
        _ => unreachable!(),
    };
    let decls = read_fields(&fields);
    let defs = accepted(collect_fields(&decls));
    check(&defs)
}

#[test]
fn repeated_keys() {
    let checked = |fields: &str| with_fields(fields, |defs| check_duplicate_keys(defs).map_err(|error| messages(&error)));
    assert_eq!(checked("a: Option<String>, b: Option<String>"), Ok(()));
    assert_eq!(checked(""), Ok(()));
    assert_eq!(
        checked("#[config(key = \"b\")] a: Option<String>, b: Option<String>"),
        Err(vec!["duplicate config key `b`".to_string(), "previously defined here".to_string()])
    );
    assert_eq!(
        checked("#[config(aliases = [\"x\", \"y\"])] a: Option<String>, #[config(aliases = [\"z\", \"y\", \"x\"])] b: Option<String>"),
        Err(vec!["duplicate config key `y`".to_string(), "previously defined here".to_string()])
    );
}

// ---------------------------------------------------------------------------
// Generated code
// ---------------------------------------------------------------------------

#[test]
fn documentation_of_keys() {
    let doc = |fields: &str| with_fields(fields, |defs| written(&build_supported_keys_doc(&defs[0].attrs)));
    assert_eq!(
        doc("#[config(key = \"a b \", aliases = [\"c\"])] a: Option<String>"),
        tokens("#[doc = \"\"] #[doc = \" Supported keys:\"] #[doc = \" - `a b `\"] #[doc = \" - `c`\"]").to_string()
    );
    assert_eq!(doc("#[config(doc_inherit = false)] a: Option<String>"), "");
}

#[test]
fn pieces_of_the_expansion() {
    let given = definition(
        "#[object_store(config_key = Key, error_path = Error::Unknown)] struct Opts { a: Option<String>, #[config(setter = skip)] b: ConfigValue<u8> }",
    );
    let plan = accepted(plan(&given));
    let name = ident("Opts");
    let mut whole = String::new();
    for piece in [
        generate_enum(&name, &plan.struct_attrs, &plan.fields),
        generate_asref(&plan.struct_attrs, &plan.fields),
        generate_fromstr(&plan.struct_attrs, &plan.fields),
        generate_dispatch(&name, &plan.struct_attrs, &plan.fields),
        accepted(generate_setters(&name, &plan.fields)),
    ] {
        whole.push_str(&written(&piece));
        whole.push(' ');
    }
    assert_eq!(written(&accepted(expand(&given))), tokens(&whole).to_string());
    assert_eq!(
        written(&generate_asref(&plan.struct_attrs, &plan.fields)),
        tokens("impl ::std::convert::AsRef<str> for Key { fn as_ref(&self) -> &str { match self { Self::A => \"a\", Self::B => \"b\", } } }").to_string()
    );
    assert_eq!(
        written(&accepted(generate_setters(&name, &plan.fields))),
        tokens("impl Opts { pub fn with_a(mut self, value: impl ::std::convert::Into< ::std::string::String>) -> Self { self.a = ::std::option::Option::Some(value.into()); self } }").to_string()
    );
}

#[test]
fn setters_that_cannot_be_had() {
    assert_eq!(
        refusal(expand(&options("#[config(strategy = config_value)] a: u8"))),
        "expected field type to be `ConfigValue<T>`"
    );
    assert_eq!(
        refusal(expand(&options("#[config(strategy = option_config_value_deferred)] a: u8"))),
        "expected field type to be `Option<ConfigValue<T>>` for strategy `option_config_value_deferred`"
    );
    assert!(expand(&options("#[config(strategy = option_string)] a: u8")).is_ok());
    assert!(expand(&options("#[config(strategy = config_value, setter = skip)] a: u8")).is_ok());
}

// ---------------------------------------------------------------------------
// Errors
// ---------------------------------------------------------------------------

#[test]
fn messages_of_problems() {
    assert_eq!(Problem::NotStruct.message(), "ObjectStoreConfig can only be derived on structs");
    assert_eq!(Problem::NamelessField.message(), "field must be named");
    assert_eq!(Problem::UnknownSetter(ident("r#fn")).message(), "unknown setter mode `r#fn`; expected `auto` or `skip`");
    assert_eq!(Problem::RepeatedKey("k".to_string(), Span::call_site()).message(), "duplicate config key `k`");
    let repeated = DeriveError::At(Problem::RepeatedKey("k".to_string(), Span::call_site()), Span::call_site());
    assert_eq!(messages(&repeated), vec!["duplicate config key `k`", "previously defined here"]);
    let over = DeriveError::Over(Problem::NoConfigKey, TokenStream::new());
    assert_eq!(messages(&over), vec!["missing required attribute `#[object_store(config_key = ...)]`"]);
}

#[test]
fn reports_of_errors() {
    let error = DeriveError::Over(Problem::EmptyKey, tokens("a b"));
    assert_eq!(
        report(&error).to_string(),
        tokens("::core::compile_error! { \"config key must be non-empty\" }").to_string()
    );
    let mut both = syn::Error::new(Span::call_site(), "one");
    both.combine(syn::Error::new(Span::call_site(), "two"));
    assert_eq!(
        report(&DeriveError::Syntax(both)).to_string(),
        tokens("::core::compile_error! { \"one\" } ::core::compile_error! { \"two\" }").to_string()
    );
}
