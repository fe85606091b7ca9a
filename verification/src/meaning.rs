//! What the generated `FromStr` and `AsRef` mean: which variant their arms give for a text, and which
//! key for a variant. Where fields are under `cfg` attributes, the arms that the compiler keeps are
//! those of the fields that are enabled.

use crate::code::{
    lemma_word_len, lex, literal, named, paren, splices, word_char, word_len, Token,
};
use crate::fields::{FieldAttrsView, FieldDefView};
use crate::generate::{
    asref_arm, asref_arms, fromstr_arm, fromstr_arms, fromstr_match, patterns, unknown_key_code,
};
use crate::keys::{all_keys, keys, repeated};
use crate::laws::{
    enabled, found, law_enabled_keys_are_distinct, law_keys_are_distinct, law_keys_lead_back,
    law_other_texts_are_unknown,
};
use crate::names::{ascii_digit, NameView};
use crate::store::StructAttrs;
use proc_macro2::TokenStream;
use vstd::prelude::*;

verus! {

/// The name that code ends in.
pub open spec fn last_name(code: Seq<Token>) -> Option<NameView> {
    if code.len() > 0 {
        match code.last() {
            Token::Name(name) => Some(name),
            _ => None,
        }
    } else {
        None
    }
}

/// The variant that arms `"a" | "b" => Ok(Self::Variant),` give for a text: that at the end of the
/// first parentheses behind a pattern that is the text. `hit` tells whether such a pattern was met.
pub open spec fn variant_from(arms: Seq<Token>, text: Seq<char>, hit: bool) -> Option<NameView>
    decreases arms.len(),
{
    if arms.len() == 0 {
        None
    } else {
        match arms[0] {
            Token::Text(pattern) => variant_from(arms.drop_first(), text, hit || pattern == text),
            Token::Nest(_, inner) if hit => last_name(inner),
            _ => variant_from(arms.drop_first(), text, hit),
        }
    }
}

/// The variant that arms give for a text.
pub open spec fn variant_for(arms: Seq<Token>, text: Seq<char>) -> Option<NameView> {
    variant_from(arms, text, false)
}

/// The key that arms `Self::Variant => "key",` give for a variant: the first string literal behind
/// the variant's name. `hit` tells whether that name was met.
pub open spec fn key_from(arms: Seq<Token>, variant: Seq<char>, hit: bool) -> Option<Seq<char>>
    decreases arms.len(),
{
    if arms.len() == 0 {
        None
    } else {
        match arms[0] {
            Token::Name(name) => key_from(arms.drop_first(), variant, hit || name.text() == variant),
            Token::Text(key) if hit => Some(key),
            _ => key_from(arms.drop_first(), variant, hit),
        }
    }
}

/// The key that arms give for a variant.
pub open spec fn key_for(arms: Seq<Token>, variant: Seq<char>) -> Option<Seq<char>> {
    key_from(arms, variant, false)
}

/// Code of words, punctuation and parts of the input alone.
pub open spec fn plain(code: Seq<Token>) -> bool {
    forall|i: int|
        0 <= i < code.len() ==> {
            ||| #[trigger] code[i] is Word
            ||| code[i] is Punct
            ||| code[i] is Splice
        }
}

/// The tokens of every snippet are words and punctuation.
pub proof fn lemma_plain_lex(text: Seq<char>)
    ensures
        plain(lex(text)),
    decreases text.len(),
{
    if text.len() > 0 {
        lemma_word_len(text);
        if word_char(text[0]) && !ascii_digit(text[0]) {
            lemma_plain_lex(text.skip(word_len(text) as int));
        } else {
            lemma_plain_lex(text.drop_first());
        }
    }
}

/// Plain code gives neither a pattern nor a variant.
proof fn lemma_variant_plain(a: Seq<Token>, b: Seq<Token>, text: Seq<char>, hit: bool)
    requires
        plain(a),
    ensures
        variant_from(a + b, text, hit) == variant_from(b, text, hit),
    decreases a.len(),
{
    if a.len() == 0 {
        assert(a + b =~= b);
    } else {
        let rest = a.drop_first();
        assert((a + b)[0] == a[0]);
        assert((a + b).drop_first() =~= rest + b);
        assert(forall|i: int| 0 <= i < rest.len() ==> rest[i] == a[i + 1]);
        lemma_variant_plain(rest, b, text, hit);
    }
}

proof fn lemma_variant_text(key: Seq<char>, b: Seq<Token>, text: Seq<char>, hit: bool)
    ensures
        variant_from(literal(key) + b, text, hit) == variant_from(b, text, hit || key == text),
{
    assert((literal(key) + b)[0] == Token::Text(key));
    assert((literal(key) + b).drop_first() =~= b);
}

proof fn lemma_variant_paren(inner: Seq<Token>, b: Seq<Token>, text: Seq<char>, hit: bool)
    ensures
        variant_from(paren(inner) + b, text, hit) == if hit {
            last_name(inner)
        } else {
            variant_from(b, text, false)
        },
{
    assert((paren(inner) + b)[0] == paren(inner)[0]);
    assert((paren(inner) + b).drop_first() =~= b);
}

/// Patterns are hit where the text is one of them.
proof fn lemma_variant_patterns(all: Seq<Seq<char>>, b: Seq<Token>, text: Seq<char>, hit: bool)
    ensures
        variant_from(patterns(all) + b, text, hit) == variant_from(
            b,
            text,
            hit || all.contains(text),
        ),
    decreases all.len(),
{
    if all.len() == 0 {
        assert(patterns(all) + b =~= b);
    } else if all.len() == 1 {
        lemma_variant_text(all[0], b, text, hit);
        if all.contains(text) {
            assert(all[0] == text);
        }
    } else {
        let first = all.drop_last();
        let bar = lex("|"@);
        let last = literal(all.last());
        assert(patterns(all) + b =~= patterns(first) + (bar + (last + b)));
        lemma_variant_patterns(first, bar + (last + b), text, hit);
        lemma_plain_lex("|"@);
        lemma_variant_plain(bar, last + b, text, hit || first.contains(text));
        lemma_variant_text(all.last(), b, text, hit || first.contains(text));
        if all.contains(text) && all.last() != text {
            let i = all.index_of(text);
            assert(first[i] == text);
        }
        if first.contains(text) {
            let i = first.index_of(text);
            assert(all[i] == text);
        }
        assert(all[all.len() - 1] == all.last());
    }
}

/// An arm gives its variant for its keys and leaves other texts to what follows.
proof fn lemma_variant_arm(attrs: FieldAttrsView, b: Seq<Token>, text: Seq<char>)
    ensures
        variant_for(fromstr_arm(attrs) + b, text) == if keys(attrs).contains(text) {
            Some(attrs.variant)
        } else {
            variant_for(b, text)
        },
{
    let hit = keys(attrs).contains(text);
    let cfgs = splices(attrs.cfg_attrs);
    let arrow = lex("=> ::std::result::Result::Ok"@);
    let inner = lex("Self::"@) + named(attrs.variant);
    let comma = lex(","@);
    let after = comma + b;
    assert(fromstr_arm(attrs) + b =~= cfgs + (patterns(keys(attrs)) + (arrow + (paren(inner)
        + after))));
    lemma_variant_plain(cfgs, patterns(keys(attrs)) + (arrow + (paren(inner) + after)), text, false);
    lemma_variant_patterns(keys(attrs), arrow + (paren(inner) + after), text, false);
    lemma_plain_lex("=> ::std::result::Result::Ok"@);
    lemma_variant_plain(arrow, paren(inner) + after, text, hit);
    lemma_variant_paren(inner, after, text, hit);
    assert(inner.last() == Token::Name(attrs.variant));
    lemma_plain_lex(","@);
    lemma_variant_plain(comma, b, text, false);
}

/// The arms give the variant of the field that is found.
proof fn lemma_variant_arms(fields: Seq<FieldDefView>, b: Seq<Token>, text: Seq<char>)
    ensures
        variant_for(fromstr_arms(fields) + b, text) == match found(fields, text) {
            Some(i) => Some(fields[i].attrs.variant),
            None => variant_for(b, text),
        },
        found(fields, text) matches Some(i) ==> 0 <= i < fields.len(),
    decreases fields.len(),
{
    if fields.len() == 0 {
        assert(fromstr_arms(fields) + b =~= b);
    } else {
        let first = fields.drop_last();
        let arm = fromstr_arm(fields.last().attrs);
        assert(fromstr_arms(fields) + b =~= fromstr_arms(first) + (arm + b));
        lemma_variant_arms(first, arm + b, text);
        lemma_variant_arm(fields.last().attrs, b, text);
    }
}

proof fn lemma_refusal(struct_attrs: StructAttrs, fields: Seq<FieldDefView>, text: Seq<char>)
    ensures
        variant_for(fromstr_match(struct_attrs, fields), text) == match found(fields, text) {
            Some(i) => Some(fields[i].attrs.variant),
            None => None,
        },
{
    let other = lex("_ => ::std::result::Result::Err"@);
    let refusal = unknown_key_code(struct_attrs) + lex(".into"@) + paren(Seq::empty());
    let comma = lex(","@);
    assert(fromstr_match(struct_attrs, fields) =~= fromstr_arms(fields) + (other + (paren(refusal)
        + comma)));
    lemma_variant_arms(fields, other + (paren(refusal) + comma), text);
    lemma_plain_lex("_ => ::std::result::Result::Err"@);
    lemma_variant_plain(other, paren(refusal) + comma, text, false);
    lemma_variant_paren(refusal, comma, text, false);
    lemma_plain_lex(","@);
    lemma_variant_plain(comma, Seq::empty(), text, false);
    assert(comma + Seq::<Token>::empty() =~= comma);
}

/// Where no key is repeated, the generated `FromStr` gives for every key and every alias the variant of
/// the field that the key is given for.
pub proof fn law_from_str_knows_every_key(
    struct_attrs: StructAttrs,
    fields: Seq<FieldDefView>,
    i: int,
    a: int,
)
    requires
        repeated(all_keys(fields)) is None,
        0 <= i < fields.len(),
        0 <= a < keys(fields[i].attrs).len(),
    ensures
        variant_for(fromstr_match(struct_attrs, fields), keys(fields[i].attrs)[a]) == Some(
            fields[i].attrs.variant,
        ),
{
    law_keys_lead_back(fields, i, a);
    lemma_refusal(struct_attrs, fields, keys(fields[i].attrs)[a]);
}

/// For a text that is no key, the generated `FromStr` gives no variant.
pub proof fn law_from_str_refuses_other_texts(
    struct_attrs: StructAttrs,
    fields: Seq<FieldDefView>,
    text: Seq<char>,
)
    requires
        forall|i: int| 0 <= i < fields.len() ==> !keys((#[trigger] fields[i]).attrs).contains(text),
    ensures
        variant_for(fromstr_match(struct_attrs, fields), text) is None,
{
    law_other_texts_are_unknown(fields, text);
    lemma_refusal(struct_attrs, fields, text);
}

/// Plain code gives neither a variant nor a key.
proof fn lemma_key_plain(a: Seq<Token>, b: Seq<Token>, variant: Seq<char>, hit: bool)
    requires
        plain(a),
    ensures
        key_from(a + b, variant, hit) == key_from(b, variant, hit),
    decreases a.len(),
{
    if a.len() == 0 {
        assert(a + b =~= b);
    } else {
        let rest = a.drop_first();
        assert((a + b)[0] == a[0]);
        assert((a + b).drop_first() =~= rest + b);
        assert(forall|i: int| 0 <= i < rest.len() ==> rest[i] == a[i + 1]);
        lemma_key_plain(rest, b, variant, hit);
    }
}

/// An arm gives its key for its variant and leaves other variants to what follows.
proof fn lemma_key_arm(attrs: FieldAttrsView, b: Seq<Token>, variant: Seq<char>)
    ensures
        key_for(asref_arm(attrs) + b, variant) == if attrs.variant.text() == variant {
            Some(attrs.key)
        } else {
            key_for(b, variant)
        },
{
    let hit = attrs.variant.text() == variant;
    let cfgs = splices(attrs.cfg_attrs);
    let path = lex("Self::"@);
    let name = named(attrs.variant);
    let arrow = lex("=>"@);
    let key = literal(attrs.key);
    let comma = lex(","@);
    assert(asref_arm(attrs) + b =~= cfgs + (path + (name + (arrow + (key + (comma + b))))));
    lemma_key_plain(cfgs, path + (name + (arrow + (key + (comma + b)))), variant, false);
    lemma_plain_lex("Self::"@);
    lemma_key_plain(path, name + (arrow + (key + (comma + b))), variant, false);
    assert((name + (arrow + (key + (comma + b))))[0] == Token::Name(attrs.variant));
    assert((name + (arrow + (key + (comma + b)))).drop_first() =~= arrow + (key + (comma + b)));
    lemma_plain_lex("=>"@);
    lemma_key_plain(arrow, key + (comma + b), variant, hit);
    assert((key + (comma + b))[0] == Token::Text(attrs.key));
    assert((key + (comma + b)).drop_first() =~= comma + b);
    lemma_plain_lex(","@);
    lemma_key_plain(comma, b, variant, false);
}

/// The arms of other variants leave a variant to what follows.
proof fn lemma_key_arms(fields: Seq<FieldDefView>, b: Seq<Token>, variant: Seq<char>)
    requires
        forall|i: int| 0 <= i < fields.len() ==> (#[trigger] fields[i]).attrs.variant.text() != variant,
    ensures
        key_for(asref_arms(fields) + b, variant) == key_for(b, variant),
    decreases fields.len(),
{
    if fields.len() == 0 {
        assert(asref_arms(fields) + b =~= b);
    } else {
        let first = fields.drop_last();
        let arm = asref_arm(fields.last().attrs);
        assert(asref_arms(fields) + b =~= asref_arms(first) + (arm + b));
        assert(forall|i: int| 0 <= i < first.len() ==> first[i] == fields[i]);
        assert(fields[fields.len() - 1] == fields.last());
        lemma_key_arms(first, arm + b, variant);
        lemma_key_arm(fields.last().attrs, b, variant);
    }
}

/// The arms after some fields are those of the later fields.
proof fn lemma_asref_split(fields: Seq<FieldDefView>, i: int) -> (later: Seq<Token>)
    requires
        0 <= i < fields.len(),
    ensures
        asref_arms(fields) == asref_arms(fields.take(i)) + (asref_arm(fields[i].attrs) + later),
    decreases fields.len(),
{
    let first = fields.drop_last();
    if i == fields.len() - 1 {
        let later = Seq::<Token>::empty();
        assert(fields.take(i) =~= first);
        assert(asref_arm(fields[i].attrs) + later =~= asref_arm(fields[i].attrs));
        later
    } else {
        let before = lemma_asref_split(first, i);
        assert(first.take(i) =~= fields.take(i));
        assert(first[i] == fields[i]);
        let later = before + asref_arm(fields.last().attrs);
        assert(asref_arms(fields) =~= asref_arms(fields.take(i)) + (asref_arm(fields[i].attrs)
            + later));
        later
    }
}

/// The generated `AsRef` gives the key of a field for the field's variant, where no field before it
/// has the same variant.
pub proof fn law_as_ref_gives_the_key(fields: Seq<FieldDefView>, i: int)
    requires
        0 <= i < fields.len(),
        forall|k: int|
            0 <= k < i ==> (#[trigger] fields[k]).attrs.variant.text()
                != fields[i].attrs.variant.text(),
    ensures
        key_for(asref_arms(fields), fields[i].attrs.variant.text()) == Some(fields[i].attrs.key),
{
    let later = lemma_asref_split(fields, i);
    let rest = asref_arm(fields[i].attrs) + later;
    assert(forall|k: int| 0 <= k < i ==> fields.take(i)[k] == fields[k]);
    lemma_key_arms(fields.take(i), rest, fields[i].attrs.variant.text());
    lemma_key_arm(fields[i].attrs, later, fields[i].attrs.variant.text());
}

/// Whether no two fields have the same variant. The compiler demands it of those that are enabled.
pub open spec fn variants_differ(fields: Seq<FieldDefView>) -> bool {
    forall|i: int, j: int|
        0 <= i < j < fields.len() ==> (#[trigger] fields[i]).attrs.variant.text() != (
        #[trigger] fields[j]).attrs.variant.text()
}

/// The generated `FromStr` takes every key and every alias of an enabled field to the variant of the
/// field, and the generated `AsRef` takes that variant to the field's own key.
pub proof fn law_aliases_lead_to_the_key(
    struct_attrs: StructAttrs,
    fields: Seq<FieldDefView>,
    holds: spec_fn(TokenStream) -> bool,
    i: int,
    a: int,
)
    requires
        repeated(all_keys(fields)) is None,
        variants_differ(enabled(fields, holds)),
        0 <= i < enabled(fields, holds).len(),
        0 <= a < keys(enabled(fields, holds)[i].attrs).len(),
    ensures
        ({
            let kept = enabled(fields, holds);
            let variant = kept[i].attrs.variant;
            &&& variant_for(fromstr_match(struct_attrs, kept), keys(kept[i].attrs)[a]) == Some(
                variant,
            )
            &&& key_for(asref_arms(kept), variant.text()) == Some(kept[i].attrs.key)
        }),
{
    let kept = enabled(fields, holds);
    law_enabled_keys_are_distinct(fields, holds);
    law_from_str_knows_every_key(struct_attrs, kept, i, a);
    law_as_ref_gives_the_key(kept, i);
}

/// The generated `FromStr` undoes the generated `AsRef`: the text that the one gives for a variant of
/// an enabled field leads the other back to the variant.
pub proof fn law_from_str_undoes_as_ref(
    struct_attrs: StructAttrs,
    fields: Seq<FieldDefView>,
    holds: spec_fn(TokenStream) -> bool,
    i: int,
)
    requires
        repeated(all_keys(fields)) is None,
        variants_differ(enabled(fields, holds)),
        0 <= i < enabled(fields, holds).len(),
    ensures
        ({
            let kept = enabled(fields, holds);
            let variant = kept[i].attrs.variant;
            key_for(asref_arms(kept), variant.text()) matches Some(text) && variant_for(
                fromstr_match(struct_attrs, kept),
                text,
            ) == Some(variant)
        }),
{
    let kept = enabled(fields, holds);
    law_aliases_lead_to_the_key(struct_attrs, fields, holds, i, 0);
    assert(keys(kept[i].attrs)[0] == kept[i].attrs.key);
}

/// The generated `AsRef` gives different texts for the variants of two enabled fields.
pub proof fn law_as_ref_tells_variants_apart(
    fields: Seq<FieldDefView>,
    holds: spec_fn(TokenStream) -> bool,
    i: int,
    j: int,
)
    requires
        repeated(all_keys(fields)) is None,
        variants_differ(enabled(fields, holds)),
        0 <= i < j < enabled(fields, holds).len(),
    ensures
        ({
            let kept = enabled(fields, holds);
            let arms = asref_arms(kept);
            &&& key_for(arms, kept[i].attrs.variant.text()) is Some
            &&& key_for(arms, kept[i].attrs.variant.text()) != key_for(
                arms,
                kept[j].attrs.variant.text(),
            )
        }),
{
    let kept = enabled(fields, holds);
    law_enabled_keys_are_distinct(fields, holds);
    law_as_ref_gives_the_key(kept, i);
    law_as_ref_gives_the_key(kept, j);
    assert(keys(kept[i].attrs)[0] == kept[i].attrs.key);
    assert(keys(kept[j].attrs)[0] == kept[j].attrs.key);
    if kept[i].attrs.key == kept[j].attrs.key {
        law_keys_are_distinct(kept, i, 0, j, 0);
    }
}

} // verus!
