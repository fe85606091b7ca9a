use object_store_macros::{derive_object_store_config, try_derive_object_store_config};
use proc_macro2::{Literal, Spacing, TokenStream, TokenTree};

/// The tokens of a text.
fn tokens(text: &str) -> TokenStream {
    text.parse::<TokenStream>().unwrap()
}

/// What the derive answers to a text, as text.
fn derived(text: &str) -> String {
    derive_object_store_config(tokens(text)).to_string()
}

/// The reports of messages, as text.
fn reports(messages: &[&str]) -> String {
    let mut text = String::new();
    for message in messages {
        text.push_str("::core::compile_error! { ");
        text.push_str(&Literal::string(message).to_string());
        text.push_str(" } ");
    }
    tokens(&text).to_string()
}

/// A struct with the attributes that are required, and the given fields.
fn options(fields: &str) -> String {
    format!(
        "#[object_store(config_key = MyConfigKey, error_path = crate::Error::UnknownConfigurationKey)] struct MyOptions {{ {} }}",
        fields
    )
}

#[test]
fn duplicate_key() {
    let answer = derived(
        r#"
        #[object_store(
            config_key = MyConfigKey,
            error_path = crate::Error::UnknownConfigurationKey
        )]
        struct MyOptions {
            #[config(key = "foo", strategy = option_string)]
            a: Option<String>,
            #[config(key = "foo", strategy = option_string)]
            b: Option<String>,
        }
        "#,
    );
    assert_eq!(answer, reports(&["duplicate config key `foo`", "previously defined here"]));
}

#[test]
fn empty_key() {
    let answer = derived(
        r#"
        #[object_store(
            config_key = MyConfigKey,
            error_path = crate::Error::UnknownConfigurationKey
        )]
        struct MyOptions {
            #[config(key = "", strategy = option_string)]
            foo: Option<String>,
        }
        "#,
    );
    assert_eq!(answer, reports(&["config key must be non-empty"]));
}

#[test]
fn missing_error_path() {
    let answer = derived(
        r#"
        #[object_store(config_key = MyConfigKey)]
        struct MyOptions {
            #[config(strategy = option_string)]
            foo: Option<String>,
        }
        "#,
    );
    assert_eq!(
        answer,
        reports(&["missing required attribute `#[object_store(error_path = ...)]`"])
    );
}

#[test]
fn missing_config_key() {
    assert_eq!(
        derived("struct MyOptions { foo: Option<String> }"),
        reports(&["missing required attribute `#[object_store(config_key = ...)]`"])
    );
    assert_eq!(
        derived("#[object_store(error_path = Error::Unknown)] struct MyOptions { foo: Option<String> }"),
        reports(&["missing required attribute `#[object_store(config_key = ...)]`"])
    );
}

#[test]
fn one_text_field() {
    let answer = derived(&options(
        r#"
        /// The bucket.
        #[config(key = "aws_bucket", aliases = ["bucket", "bucket_name"])]
        pub bucket_name: Option<String>,
        "#,
    ));
    let expected = r#"
        #[doc = " Configuration keys for [`MyOptions`]"]
        #[derive(::std::cmp::PartialEq, ::std::cmp::Eq, ::std::hash::Hash, ::std::clone::Clone, ::std::fmt::Debug, ::std::marker::Copy, ::serde::Deserialize, ::serde::Serialize)]
        #[non_exhaustive]
        pub enum MyConfigKey {
            #[doc = " The bucket."]
            #[doc = ""]
            #[doc = " Supported keys:"]
            #[doc = " - `aws_bucket`"]
            #[doc = " - `bucket`"]
            #[doc = " - `bucket_name`"]
            BucketName,
        }
        impl ::std::convert::AsRef<str> for MyConfigKey {
            fn as_ref(&self) -> &str {
                match self {
                    Self::BucketName => "aws_bucket",
                }
            }
        }
        impl ::std::str::FromStr for MyConfigKey {
            type Err = crate::Error;
            fn from_str(s: &str) -> ::std::result::Result<Self, Self::Err> {
                match s {
                    "aws_bucket" | "bucket" | "bucket_name" => ::std::result::Result::Ok(Self::BucketName),
                    _ => ::std::result::Result::Err(crate::Error::UnknownConfigurationKey { key: s.into() }.into()),
                }
            }
        }
        impl MyOptions {
            #[doc = r" Set a config option by key."]
            pub fn with_config(mut self, key: MyConfigKey, value: impl ::std::convert::Into< ::std::string::String>) -> Self {
                let value: ::std::string::String = value.into();
                match key {
                    MyConfigKey::BucketName => {
                        self.bucket_name = ::std::option::Option::Some(value.into());
                    }
                }
                self
            }
            #[doc = r" Get a config value by key."]
            pub fn get_config_value(&self, key: &MyConfigKey) -> ::std::option::Option< ::std::string::String> {
                match key {
                    MyConfigKey::BucketName => self.bucket_name.clone(),
                }
            }
        }
        impl MyOptions {
            #[doc = " The bucket."]
            pub fn with_bucket_name(mut self, value: impl ::std::convert::Into< ::std::string::String>) -> Self {
                self.bucket_name = ::std::option::Option::Some(value.into());
                self
            }
        }
    "#;
    assert_eq!(answer, tokens(expected).to_string());
}

#[test]
fn every_strategy() {
    let answer = derived(
        r#"
        #[object_store(config_key = Key, error_path = Error::UnknownKey)]
        #[object_store(error_store = "S3")]
        struct Opts {
            #[cfg(feature = "a")]
            allow: ConfigValue<bool>,
            size: Option<ConfigValue<usize>>,
            wait_time: Option<ConfigValue<Duration>>,
            #[config(get_via = token_text, variant = Secret, setter_name = with_secret, doc_inherit = false)]
            token: Option<String>,
            #[config(setter = skip, formatter = duration)]
            limit: Option<ConfigValue<u32>>,
            #[config(skip)]
            hidden: Option<String>,
            plain: Vec<u8>,
        }
        "#,
    );
    let expected = r#"
        #[doc = " Configuration keys for [`Opts`]"]
        #[derive(::std::cmp::PartialEq, ::std::cmp::Eq, ::std::hash::Hash, ::std::clone::Clone, ::std::fmt::Debug, ::std::marker::Copy, ::serde::Deserialize, ::serde::Serialize)]
        #[non_exhaustive]
        pub enum Key {
            #[cfg(feature = "a")]
            #[doc = ""] #[doc = " Supported keys:"] #[doc = " - `allow`"]
            Allow,
            #[doc = ""] #[doc = " Supported keys:"] #[doc = " - `size`"]
            Size,
            #[doc = ""] #[doc = " Supported keys:"] #[doc = " - `wait_time`"]
            WaitTime,
            Secret,
            #[doc = ""] #[doc = " Supported keys:"] #[doc = " - `limit`"]
            Limit,
        }
        impl ::std::convert::AsRef<str> for Key {
            fn as_ref(&self) -> &str {
                match self {
                    #[cfg(feature = "a")]
                    Self::Allow => "allow",
                    Self::Size => "size",
                    Self::WaitTime => "wait_time",
                    Self::Secret => "token",
                    Self::Limit => "limit",
                }
            }
        }
        impl ::std::str::FromStr for Key {
            type Err = crate::Error;
            fn from_str(s: &str) -> ::std::result::Result<Self, Self::Err> {
                match s {
                    #[cfg(feature = "a")]
                    "allow" => ::std::result::Result::Ok(Self::Allow),
                    "size" => ::std::result::Result::Ok(Self::Size),
                    "wait_time" => ::std::result::Result::Ok(Self::WaitTime),
                    "token" => ::std::result::Result::Ok(Self::Secret),
                    "limit" => ::std::result::Result::Ok(Self::Limit),
                    _ => ::std::result::Result::Err(Error::UnknownKey { store: "S3", key: s.into() }.into()),
                }
            }
        }
        impl Opts {
            #[doc = r" Set a config option by key."]
            pub fn with_config(mut self, key: Key, value: impl ::std::convert::Into< ::std::string::String>) -> Self {
                let value: ::std::string::String = value.into();
                match key {
                    #[cfg(feature = "a")]
                    Key::Allow => { self.allow.parse(value); }
                    Key::Size => { self.size = ::std::option::Option::Some(crate::config::ConfigValue::Deferred(value.into())); }
                    Key::WaitTime => { self.wait_time = ::std::option::Option::Some(crate::config::ConfigValue::Deferred(value.into())); }
                    Key::Secret => { self.token = ::std::option::Option::Some(value.into()); }
                    Key::Limit => { self.limit = ::std::option::Option::Some(crate::config::ConfigValue::Deferred(value.into())); }
                }
                self
            }
            #[doc = r" Get a config value by key."]
            pub fn get_config_value(&self, key: &Key) -> ::std::option::Option< ::std::string::String> {
                match key {
                    #[cfg(feature = "a")]
                    Key::Allow => ::std::option::Option::Some(self.allow.to_string()),
                    Key::Size => self.size.as_ref().map(|v| v.to_string()),
                    Key::WaitTime => self.wait_time.as_ref().map(crate::config::fmt_duration),
                    Key::Secret => self.token_text(),
                    Key::Limit => self.limit.as_ref().map(crate::config::fmt_duration),
                }
            }
        }
        impl Opts {
            #[cfg(feature = "a")]
            pub fn with_allow(mut self, value: bool) -> Self {
                self.allow = value.into();
                self
            }
            pub fn with_size(mut self, value: usize) -> Self {
                self.size = ::std::option::Option::Some(value.into());
                self
            }
            pub fn with_wait_time(mut self, value: Duration) -> Self {
                self.wait_time = ::std::option::Option::Some(value.into());
                self
            }
            pub fn with_secret(mut self, value: impl ::std::convert::Into< ::std::string::String>) -> Self {
                self.token = ::std::option::Option::Some(value.into());
                self
            }
        }
    "#;
    assert_eq!(answer, tokens(expected).to_string());
}

#[test]
fn given_strategies() {
    let given = derived(&options(
        "#[config(strategy = option_string)] a: Text, #[config(strategy = config_value)] b: ConfigValue<u8>, #[config(strategy = option_config_value_deferred, formatter = to_string)] c: Option<ConfigValue<Duration>>",
    ));
    assert!(given.contains(&tokens("MyConfigKey::A => { self.a = ::std::option::Option::Some(value.into()); }").to_string()));
    assert!(given.contains(&tokens("MyConfigKey::B => { self.b.parse(value); }").to_string()));
    assert!(given.contains(&tokens("MyConfigKey::C => self.c.as_ref().map(|v| v.to_string()),").to_string()));
    assert!(given.contains(&tokens("pub fn with_c(mut self, value: Duration) -> Self").to_string()));
}

#[test]
fn the_generated_operators_are_joined() {
    let code = derive_object_store_config(tokens(&options("a: Option<String>")));
    let mut doubled: usize = 0;
    let mut previous: Option<proc_macro2::Punct> = None;
    for tree in code {
        let mut current = None;
        if let TokenTree::Punct(punct) = &tree {
            if let Some(before) = &previous {
                if before.as_char() == ':' && before.spacing() == Spacing::Joint {
                    assert_eq!(punct.as_char(), ':');
                    assert_eq!(punct.spacing(), Spacing::Alone);
                    doubled += 1;
                }
            }
            current = Some(punct.clone());
        }
        previous = current;
    }
    // `::std::convert::AsRef` and `::std::str::FromStr` stand outside of any group.
    assert_eq!(doubled, 6);
}

#[test]
fn the_last_of_several_items_counts() {
    let answer = derived(&options(
        r#"#[config(key = "a", aliases = ["x"], key = "b", aliases = ["y"], variant = V, variant = W, setter = skip, setter = auto, setter_name = s, setter_name = t)] foo: Option<String>"#,
    ));
    assert!(answer.contains(&tokens(r#""b" | "x" | "y" => ::std::result::Result::Ok(Self::W),"#).to_string()));
    assert!(answer.contains("pub fn t ("));
    assert!(!answer.contains("pub fn s ("));
}

#[test]
fn bare_config_and_empty_config() {
    let plain = derived(&options("foo: Option<String>"));
    assert_eq!(derived(&options("#[config] foo: Option<String>")), plain);
    assert_eq!(derived(&options("#[config()] foo: Option<String>")), plain);
    assert_eq!(derived(&options("#[config = \"x\"] foo: Option<String>")), plain);
}

#[test]
fn qualified_types_are_recognised() {
    let answer = derived(&options(
        "a: std::option::Option<std::string::String>, b: crate::config::ConfigValue<u8>, c: Option<crate::config::ConfigValue<std::time::Duration>>",
    ));
    assert!(answer.contains(&tokens("MyConfigKey::A => self.a.clone(),").to_string()));
    assert!(answer.contains(&tokens("MyConfigKey::B => ::std::option::Option::Some(self.b.to_string()),").to_string()));
    assert!(answer.contains(&tokens("MyConfigKey::C => self.c.as_ref().map(crate::config::fmt_duration),").to_string()));
}

#[test]
fn fields_of_other_types_are_passed_over() {
    assert_eq!(
        derived(&options("a: u32, b: Option<u32>, c: Vec<String>, d: (u8, u8), e: String")),
        reports(&["ObjectStoreConfig requires at least one field with #[config(...)]"])
    );
    assert_eq!(
        derived(&options("#[config(skip)] a: Option<String>")),
        reports(&["ObjectStoreConfig requires at least one field with #[config(...)]"])
    );
    assert_eq!(
        derived(&options("")),
        reports(&["ObjectStoreConfig requires at least one field with #[config(...)]"])
    );
}

#[test]
fn other_items_are_refused() {
    let attribute = "#[object_store(config_key = K, error_path = E)] ";
    assert_eq!(
        derived(&format!("{}enum Foo {{ A }}", attribute)),
        reports(&["ObjectStoreConfig can only be derived on structs"])
    );
    assert_eq!(
        derived(&format!("{}union Foo {{ a: u8 }}", attribute)),
        reports(&["ObjectStoreConfig can only be derived on structs"])
    );
    assert_eq!(
        derived(&format!("{}struct Foo(Option<String>);", attribute)),
        reports(&["ObjectStoreConfig requires a struct with named fields"])
    );
    assert_eq!(
        derived(&format!("{}struct Foo;", attribute)),
        reports(&["ObjectStoreConfig requires a struct with named fields"])
    );
}

#[test]
fn refused_fields() {
    assert_eq!(
        derived(&options("#[config] a: u32")),
        reports(&["could not infer strategy from field type; expected `Option<String>`, `ConfigValue<T>`, or `Option<ConfigValue<T>>`. Specify explicitly with `#[config(strategy = ...)]`"])
    );
    assert_eq!(
        derived(&options("#[config] #[config] a: Option<String>")),
        reports(&["duplicate #[config(...)] attribute on field"])
    );
    assert_eq!(
        derived(&options("#[config(formatter = duration)] a: Option<String>")),
        reports(&["`formatter` is only valid with `strategy = option_config_value_deferred`"])
    );
    assert_eq!(
        derived(&options("#[config(strategy = config_value, formatter = duration)] a: Option<ConfigValue<Duration>>")),
        reports(&["`formatter` is only valid with `strategy = option_config_value_deferred`"])
    );
    assert_eq!(
        derived(&options("#[config(strategy = config_value)] a: Option<String>")),
        reports(&["expected field type to be `ConfigValue<T>`"])
    );
    assert_eq!(
        derived(&options("#[config(strategy = option_config_value_deferred)] a: ConfigValue<u8>")),
        reports(&["expected field type to be `Option<ConfigValue<T>>` for strategy `option_config_value_deferred`"])
    );
    assert_eq!(
        derived(&options("#[config(strategy = option_config_value_deferred)] a: Option<String>")),
        reports(&["expected field type to be `ConfigValue<T>`"])
    );
    // Without a setter the type is not asked for.
    assert!(derived(&options("#[config(strategy = config_value, setter = skip)] a: Text")).contains("self . a . parse (value) ;"));
}

#[test]
fn refused_items() {
    assert_eq!(
        derived(&options("#[config(strategy = other)] a: Option<String>")),
        reports(&["unknown strategy `other`; expected one of `option_string`, `config_value`, `option_config_value_deferred`"])
    );
    assert_eq!(
        derived(&options("#[config(formatter = other)] a: Option<String>")),
        reports(&["unknown formatter `other`; expected `to_string` or `duration`"])
    );
    assert_eq!(
        derived(&options("#[config(setter = other)] a: Option<String>")),
        reports(&["unknown setter mode `other`; expected `auto` or `skip`"])
    );
    assert_eq!(
        derived(&options("#[config(aliases = [\"a\", b])] a: Option<String>")),
        reports(&["aliases must be a list of string literals"])
    );
    assert_eq!(
        derived(&options("#[config(other)] a: Option<String>")),
        reports(&["unknown attribute on #[config(...)]"])
    );
    assert_eq!(
        derived(&options("#[config(a::skip)] a: Option<String>")),
        reports(&["unknown attribute on #[config(...)]"])
    );
    assert_eq!(
        derived("#[object_store(other = 1)] struct Foo { a: Option<String> }"),
        reports(&["unknown attribute on #[object_store(...)]"])
    );
    // The items of the one attribute are unknown to the other.
    assert_eq!(
        derived(&options("#[config(config_key = A)] a: Option<String>")),
        reports(&["unknown attribute on #[config(...)]"])
    );
    assert_eq!(
        derived("#[object_store(skip)] struct Foo { a: Option<String> }"),
        reports(&["unknown attribute on #[object_store(...)]"])
    );
}

#[test]
fn malformed_items() {
    assert_eq!(
        derived(&options("#[config(strategy = 5)] a: Option<String>")),
        reports(&["expected identifier"])
    );
    assert_eq!(
        derived(&options("#[config(key)] a: Option<String>")),
        reports(&["expected `=`"])
    );
    assert_eq!(
        derived(&options("#[config(key = 5)] a: Option<String>")),
        reports(&["expected string literal"])
    );
    assert_eq!(
        derived(&options("#[config(doc_inherit = 5)] a: Option<String>")),
        reports(&["expected boolean literal"])
    );
    assert_eq!(
        derived(&options("#[config(skip = 5)] a: Option<String>")),
        reports(&["expected `,`"])
    );
    assert_eq!(
        derived("#[object_store] struct Foo { a: Option<String> }"),
        reports(&["expected attribute arguments in parentheses: #[object_store(...)]"])
    );
    assert_eq!(
        derived("#[object_store = \"x\"] struct Foo { a: Option<String> }"),
        reports(&["expected parentheses: #[object_store(...)]"])
    );
    assert_eq!(derived("fn main() {}"), reports(&["expected one of: `struct`, `enum`, `union`"]));
}

#[test]
fn the_first_error_is_told() {
    // Items are taken in their order, and before what is wrong behind them.
    assert_eq!(
        derived(&options("#[config(key = \"\", strategy = 5)] a: Option<String>")),
        reports(&["config key must be non-empty"])
    );
    assert_eq!(
        derived(&options("#[config(strategy = 5, key = \"\")] a: Option<String>")),
        reports(&["expected identifier"])
    );
    assert_eq!(
        derived(&options("#[config(other, strategy = 5)] a: Option<String>")),
        reports(&["unknown attribute on #[config(...)]"])
    );
    // What an item says is checked also where the field is skipped.
    assert_eq!(
        derived(&options("#[config(skip, strategy = other)] a: Option<String>")),
        reports(&["unknown strategy `other`; expected one of `option_string`, `config_value`, `option_config_value_deferred`"])
    );
    // The struct's own attributes come before its fields, the fields in their order.
    assert_eq!(
        derived("#[object_store(config_key = K)] enum Foo { A }"),
        reports(&["missing required attribute `#[object_store(error_path = ...)]`"])
    );
    assert_eq!(
        derived(&options("#[config(other)] a: Option<String>, #[config(key = \"\")] b: Option<String>")),
        reports(&["unknown attribute on #[config(...)]"])
    );
    // Repeated keys come before setters that cannot be had.
    assert_eq!(
        derived(&options("#[config(key = \"k\", strategy = config_value)] a: Text, #[config(key = \"k\")] b: Option<String>")),
        reports(&["duplicate config key `k`", "previously defined here"])
    );
}

#[test]
fn repeated_aliases() {
    assert_eq!(
        derived(&options("#[config(aliases = [\"a\"])] a: Option<String>")),
        reports(&["duplicate config key `a`", "previously defined here"])
    );
    assert_eq!(
        derived(&options("#[config(aliases = [\"x\", \"y\", \"x\"])] a: Option<String>")),
        reports(&["duplicate config key `x`", "previously defined here"])
    );
    assert_eq!(
        derived(&options("#[config(aliases = [\"x\"])] a: Option<String>, b: Option<String>, #[config(aliases = [\"x\", \"b\"])] c: Option<String>")),
        reports(&["duplicate config key `x`", "previously defined here"])
    );
}

#[test]
fn names_that_are_no_identifiers() {
    // `r#type` would need a variant `R#type`, `__` an empty one, `_1` a number.
    assert!(try_derive_object_store_config(tokens(&options("r#type: Option<String>"))).is_none());
    assert!(try_derive_object_store_config(tokens(&options("__: Option<String>"))).is_none());
    assert!(try_derive_object_store_config(tokens(&options("_1: Option<String>"))).is_none());
    let given = try_derive_object_store_config(tokens(&options(
        "#[config(variant = Kind)] r#type: Option<String>",
    )));
    let text = given.unwrap().to_string();
    assert!(text.contains("pub fn with_type ("));
    assert!(text.contains("self . r#type . clone ()"));
    assert!(text.contains("Self :: Kind => \"r#type\" ,"));
    let given = try_derive_object_store_config(tokens(&options("_foo: Option<String>")));
    assert!(given.unwrap().to_string().contains("pub fn with__foo ("));
    let given = try_derive_object_store_config(tokens(&options("größe_ä: Option<String>")));
    assert!(given.unwrap().to_string().contains("Self :: Größeä => \"größe_ä\" ,"));
    // An item that is refused before its name is made has an answer whatever the name is.
    assert!(try_derive_object_store_config(tokens("struct Foo { __: Option<String> }")).is_some());
    let late = options("#[config(other)] a: Option<String>, __: Option<String>");
    assert!(try_derive_object_store_config(tokens(&late)).is_some());
    // One that would be refused only behind the name has none.
    let early = options("__: Option<String>, #[config(other)] a: Option<String>");
    assert!(try_derive_object_store_config(tokens(&early)).is_none());
    // No name is made for a field that takes no part.
    let apart = options("__: u8, #[config(skip)] _1: Option<String>, a: Option<String>");
    assert!(try_derive_object_store_config(tokens(&apart)).is_some());
}

#[test]
fn both_ways_to_derive_agree() {
    let text = options("a: Option<String>, b: ConfigValue<u8>");
    assert_eq!(
        try_derive_object_store_config(tokens(&text)).unwrap().to_string(),
        derived(&text)
    );
}

#[test]
fn made_names_keep_their_characters() {
    // Outside of the compiler the text of a made name is kept as it is.
    let answer = derived(&options("e_\u{301}: Option<String>"));
    let key = Literal::string("e_\u{301}").to_string();
    assert!(answer.contains(&format!("Self :: E\u{301} => {} ,", key)));
    assert!(answer.contains("pub fn with_e_\u{301} ("));
}

#[test]
fn one_variant_under_exclusive_cfgs() {
    let answer = derived(&options(
        r#"
        #[cfg(unix)] #[config(key = "u", aliases = ["v"], variant = Os)] unix: Option<String>,
        #[cfg(not(unix))] #[config(key = "w", variant = Os)] windows: Option<String>,
        "#,
    ));
    for arm in [
        "#[cfg(unix)] Self::Os => \"u\",",
        "#[cfg(not(unix))] Self::Os => \"w\",",
        "#[cfg(unix)] \"u\" | \"v\" => ::std::result::Result::Ok(Self::Os),",
        "#[cfg(not(unix))] \"w\" => ::std::result::Result::Ok(Self::Os),",
        "#[cfg(unix)] MyConfigKey::Os => self.unix.clone(),",
        "#[cfg(not(unix))] MyConfigKey::Os => self.windows.clone(),",
    ] {
        assert!(answer.contains(&tokens(arm).to_string()), "{}", arm);
    }
    // Keys must differ under exclusive attributes too.
    assert_eq!(
        derived(&options(
            "#[cfg(unix)] #[config(key = \"k\")] a: Option<String>, #[cfg(not(unix))] #[config(key = \"k\")] b: Option<String>"
        )),
        reports(&["duplicate config key `k`", "previously defined here"])
    );
}

#[test]
fn setters_and_keys_store_by_the_same_statement() {
    let answer = derived(&options("a: Option<String>, b: Option<String>"));
    for field in ["a", "b"] {
        let statement = tokens(&format!("self.{} = ::std::option::Option::Some(value.into());", field)).to_string();
        // Once in `with_config` and once in the setter.
        assert_eq!(answer.matches(&statement).count(), 2);
        assert_eq!(answer.matches(&tokens(&format!("self.{}.clone()", field)).to_string()).count(), 1);
    }
}

#[test]
fn literals_of_the_input_keep_their_spelling() {
    let answer = derived(
        r##"
        #[object_store(config_key = Key, error_path = Error::Unknown, error_store = r"S\3")]
        struct Opts {
            #[doc = "\x41"]
            #[cfg(feature = r#"a"#)]
            #[cfg(version = 0x1F_u8)]
            a: Option<String>,
        }
        "##,
    );
    assert!(answer.contains("store : r\"S\\3\" , key"));
    for attribute in ["#[doc = \"\\x41\"]", "#[cfg(feature = r#\"a\"#)]", "#[cfg(version = 0x1F_u8)]"] {
        assert!(answer.contains(&tokens(attribute).to_string()), "{}", attribute);
    }
}

#[test]
fn comments_are_raw_literals() {
    let answer = derived(&options("a: Option<String>"));
    assert!(answer.contains("# [doc = r\" Set a config option by key.\"]"));
    assert!(answer.contains("# [doc = r\" Get a config value by key.\"]"));
    assert!(answer.contains("# [doc = \" Configuration keys for [`MyOptions`]\"]"));
}
