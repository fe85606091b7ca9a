# object_store_macros

The derive `ObjectStoreConfig`: for a struct of options it writes an enum of configuration keys, the
way from a key to its text (`AsRef<str>`) and back (`FromStr`), the methods `with_config` and
`get_config_value` that set and read a field by its key, and a setter for each field.

```rust
#[derive(ObjectStoreConfig)]
#[object_store(config_key = MyConfigKey, error_path = crate::Error::UnknownConfigurationKey)]
struct MyOptions {
    /// The bucket.
    #[config(key = "aws_bucket", aliases = ["bucket"])]
    bucket_name: Option<String>,
    timeout: Option<ConfigValue<Duration>>,
}
```

The library in `src/` is verified with Verus.

- `tokens`, `errors`, `syntax`, `items`: what is used of `proc_macro2` and `syn`, with the contracts
  that are trusted, and the plain values that the derive works on
- `names`, `code`: names, and code that is built from snippets of Rust text
- `store`, `config`, `infer`, `fields`, `keys`: what the attributes and the types ask for
- `generate`, `expand`, `derive`: the generated code, and the derive itself
- `laws`: what holds of every definition
- `meaning`, `effect`: what the generated code means: `FromStr` and `AsRef`, and the methods that set
  and read the fields

`app/` is the entry point that the compiler calls. Its answer to a field for which no variant can be
named (such as `__` or a raw identifier without `variant = ...`) is a panic.
