//! What the generated code consists of, read back from its tokens: the arms and the attributes that
//! each stands under, the variants and their documentation, the setters, and what is around them.

use crate::code::{
    brace, bracket, given, lex, literal, named, paren, raw_literal, splice, splices, Token,
};
use crate::config::SetterMode;
use crate::decisions::{key_at, law_keys_of_a_field};
use crate::effect::{
    before_comma, lemma_before_comma, lemma_get_code, lemma_lex_marks, lemma_lex_only_word,
    lemma_lex_punct, lemma_lex_self, lemma_lex_space, lemma_lex_without, lemma_lex_word,
    method_body, without,
};
use crate::errors::ErrorView;
use crate::fields::{FieldAttrsView, FieldDefView};
use crate::generate::{
    asref_arm, asref_arms, asref_code, bullets, dispatch_code, doc_code, enum_code, fromstr_arm,
    fromstr_arms, fromstr_code, fromstr_match, get_arm, get_arms, get_code, get_config_code,
    patterns, set_arm, set_arms, set_code, setter_body, setter_code, setter_codes, setters_code,
    supported_keys_doc, unknown_key_code, variant_code, variants_code, with_config_code,
};
use crate::infer::{config_value_inner, option_config_value_inner, Strategy};
use crate::keys::keys;
use crate::laws::{enabled, is_enabled};
use crate::meaning::lemma_plain_lex;
use crate::names::NameView;
use crate::store::StructAttrs;
use crate::tokens::{ident_text, Delim, Joining};
use proc_macro2::{Ident, TokenStream};
use vstd::prelude::*;

verus! {

// ---------------------------------------------------------------------------
// Arms
// ---------------------------------------------------------------------------

/// An arm of a `match`: the attributes that it stands under, its pattern, and what it gives.
pub struct Arm {
    pub cfgs: Seq<TokenStream>,
    pub pattern: Seq<Token>,
    pub body: Seq<Token>,
}

/// The parts of the input that code starts with: attributes.
pub open spec fn leading(code: Seq<Token>) -> Seq<TokenStream>
    decreases code.len(),
{
    if code.len() == 0 {
        Seq::empty()
    } else {
        match code[0] {
            Token::Splice(stream) => seq![stream] + leading(code.drop_first()),
            _ => Seq::empty(),
        }
    }
}

/// What stands before the first arrow.
pub open spec fn before_arrow(code: Seq<Token>) -> Seq<Token>
    decreases code.len(),
{
    if code.len() == 0 || code[0] == Token::Punct('=', Joining::Joined) {
        Seq::empty()
    } else {
        seq![code[0]] + before_arrow(code.drop_first())
    }
}

/// The arms that code consists of: attributes, a pattern, an arrow, and either a block or an expression
/// and a comma.
pub open spec fn arms(code: Seq<Token>) -> Seq<Arm>
    decreases code.len(),
{
    let cfgs = leading(code);
    let rest = code.skip(cfgs.len() as int);
    let pattern = before_arrow(rest);
    let behind = rest.skip(pattern.len() as int + 2);
    proof {
        lemma_leading_len(code);
        lemma_before_arrow_len(rest);
    }
    if code.len() == 0 || rest.len() < pattern.len() + 3 {
        Seq::empty()
    } else if behind[0] is Nest && behind[0]->Nest_0 == Delim::Brace {
        seq![Arm { cfgs, pattern, body: seq![behind[0]] }] + arms(behind.skip(1))
    } else {
        let body = before_comma(behind);
        if behind.len() <= body.len() {
            seq![Arm { cfgs, pattern, body }]
        } else {
            seq![Arm { cfgs, pattern, body }] + arms(behind.skip(body.len() as int + 1))
        }
    }
}

pub proof fn lemma_leading_len(code: Seq<Token>)
    ensures
        leading(code).len() <= code.len(),
    decreases code.len(),
{
    if code.len() > 0 {
        lemma_leading_len(code.drop_first());
    }
}

pub proof fn lemma_before_arrow_len(code: Seq<Token>)
    ensures
        before_arrow(code).len() <= code.len(),
    decreases code.len(),
{
    if code.len() > 0 {
        lemma_before_arrow_len(code.drop_first());
    }
}

proof fn lemma_leading(streams: Seq<TokenStream>, b: Seq<Token>)
    requires
        b.len() > 0 ==> !(b[0] is Splice),
    ensures
        leading(splices(streams) + b) == streams,
    decreases streams.len(),
{
    let code = splices(streams) + b;
    if streams.len() == 0 {
        assert(code =~= b);
    } else {
        let rest = streams.drop_first();
        assert(code[0] == Token::Splice(streams[0]));
        assert(code.drop_first() =~= splices(rest) + b);
        lemma_leading(rest, b);
        assert(seq![streams[0]] + rest =~= streams);
    }
}

/// Whether no arrow is among tokens.
pub open spec fn arrowless(code: Seq<Token>) -> bool {
    forall|i: int| 0 <= i < code.len() ==> #[trigger] code[i] != Token::Punct('=', Joining::Joined)
}

proof fn lemma_before_arrow(pattern: Seq<Token>, b: Seq<Token>)
    requires
        arrowless(pattern),
    ensures
        before_arrow(pattern + (lex("=>"@) + b)) == pattern,
    decreases pattern.len(),
{
    let code = pattern + (lex("=>"@) + b);
    lemma_lex_marks();
    if pattern.len() == 0 {
        assert(code[0] == Token::Punct('=', Joining::Joined));
        assert(before_arrow(code) =~= pattern);
    } else {
        let rest = pattern.drop_first();
        assert(code[0] == pattern[0]);
        assert(code.drop_first() =~= rest + (lex("=>"@) + b));
        assert(forall|i: int| 0 <= i < rest.len() ==> rest[i] == pattern[i + 1]);
        lemma_before_arrow(rest, b);
        assert(seq![pattern[0]] + rest =~= pattern);
    }
}

/// Whether tokens can be a pattern.
spec fn patterned(pattern: Seq<Token>) -> bool {
    &&& pattern.len() > 0
    &&& !(pattern[0] is Splice)
    &&& arrowless(pattern)
}

proof fn lemma_arm_start(cfgs: Seq<TokenStream>, pattern: Seq<Token>, b: Seq<Token>)
    requires
        patterned(pattern),
    ensures
        ({
            let code = splices(cfgs) + (pattern + (lex("=>"@) + b));
            let rest = code.skip(cfgs.len() as int);
            &&& leading(code) == cfgs
            &&& rest == pattern + (lex("=>"@) + b)
            &&& before_arrow(rest) == pattern
            &&& rest.skip(pattern.len() as int + 2) == b
            &&& rest.len() == pattern.len() + 2 + b.len()
        }),
{
    let tail = pattern + (lex("=>"@) + b);
    lemma_lex_marks();
    assert(tail[0] == pattern[0]);
    lemma_leading(cfgs, tail);
    assert((splices(cfgs) + tail).skip(cfgs.len() as int) =~= tail);
    lemma_before_arrow(pattern, b);
    assert(tail.skip(pattern.len() as int + 2) =~= b);
}

/// An arm with a block.
proof fn lemma_block_arm(
    cfgs: Seq<TokenStream>,
    pattern: Seq<Token>,
    block: Seq<Token>,
    b: Seq<Token>,
)
    requires
        patterned(pattern),
    ensures
        arms(splices(cfgs) + (pattern + (lex("=>"@) + (brace(block) + b)))) == seq![
            Arm { cfgs, pattern, body: brace(block) },
        ] + arms(b),
{
    let tail = brace(block) + b;
    lemma_arm_start(cfgs, pattern, tail);
    assert(tail[0] == Token::Nest(Delim::Brace, block));
    assert(seq![tail[0]] =~= brace(block));
    assert(tail.skip(1) =~= b);
}

/// An arm with an expression.
proof fn lemma_expression_arm(
    cfgs: Seq<TokenStream>,
    pattern: Seq<Token>,
    body: Seq<Token>,
    b: Seq<Token>,
)
    requires
        patterned(pattern),
        body.len() > 0,
        !(body[0] is Nest),
        without(body, ','),
    ensures
        arms(splices(cfgs) + (pattern + (lex("=>"@) + (body + (lex(","@) + b))))) == seq![
            Arm { cfgs, pattern, body },
        ] + arms(b),
{
    let tail = body + (lex(","@) + b);
    lemma_lex_marks();
    lemma_arm_start(cfgs, pattern, tail);
    lemma_before_comma(body, b);
    assert(tail[0] == body[0]);
    assert(tail.skip(body.len() as int + 1) =~= b);
}

/// What is read for each of several fields.
pub open spec fn each(fields: Seq<FieldDefView>, read: spec_fn(FieldDefView) -> Arm) -> Seq<Arm> {
    Seq::new(fields.len(), |i: int| read(fields[i]))
}

proof fn lemma_each(fields: Seq<FieldDefView>, read: spec_fn(FieldDefView) -> Arm, b: Seq<Arm>)
    requires
        fields.len() > 0,
    ensures
        each(fields.drop_last(), read) + (seq![read(fields.last())] + b) == each(fields, read) + b,
{
    assert(each(fields.drop_last(), read) + (seq![read(fields.last())] + b) =~= each(fields, read)
        + b);
}

/// The pattern `Key::Variant`.
pub open spec fn key_pattern(config_key: Ident, variant: NameView) -> Seq<Token> {
    given(config_key) + lex("::"@) + named(variant)
}

proof fn lemma_key_pattern(config_key: Ident, variant: NameView)
    ensures
        patterned(key_pattern(config_key, variant)),
{
    let pattern = key_pattern(config_key, variant);
    lemma_colons();
    assert(pattern[0] == Token::Name(NameView::Given(config_key)));
}

proof fn lemma_colons()
    ensures
        lex("::"@) == seq![Token::Punct(':', Joining::Joined), Token::Punct(':', Joining::Alone)],
{
    reveal_strlit("::");
    lemma_lex_punct(':', Seq::empty());
    assert("::"@.drop_first() =~= seq![':'] + Seq::<char>::empty());
    assert(lex("::"@) =~= seq![Token::Punct(':', Joining::Joined)] + lex("::"@.drop_first()));
}

/// The arm that sets a field.
pub open spec fn setting(config_key: Ident) -> spec_fn(FieldDefView) -> Arm {
    |field: FieldDefView|
        Arm {
            cfgs: field.attrs.cfg_attrs,
            pattern: key_pattern(config_key, field.attrs.variant),
            body: brace(set_code(field.field_ident, field.attrs.strategy)),
        }
}

proof fn lemma_set_arms(config_key: Ident, fields: Seq<FieldDefView>, b: Seq<Token>)
    ensures
        arms(set_arms(config_key, fields) + b) == each(fields, setting(config_key)) + arms(b),
    decreases fields.len(),
{
    if fields.len() == 0 {
        assert(set_arms(config_key, fields) + b =~= b);
        assert(each(fields, setting(config_key)) + arms(b) =~= arms(b));
    } else {
        let first = fields.drop_last();
        let field = fields.last();
        let arm = set_arm(config_key, field);
        let block = set_code(field.field_ident, field.attrs.strategy);
        let pattern = key_pattern(config_key, field.attrs.variant);
        lemma_set_arms(config_key, first, arm + b);
        assert(set_arms(config_key, fields) + b =~= set_arms(config_key, first) + (arm + b));
        lemma_key_pattern(config_key, field.attrs.variant);
        lemma_block_arm(field.attrs.cfg_attrs, pattern, block, b);
        assert(arm + b =~= splices(field.attrs.cfg_attrs) + (pattern + (lex("=>"@) + (brace(block)
            + b))));
        lemma_each(fields, setting(config_key), arms(b));
    }
}

/// The arms of the generated `with_config` are one for each field, in order, each under exactly the
/// `cfg` attributes of its field, whatever the field is, with the field's variant for its pattern and,
/// in a block, the statement that stores in the field.
pub proof fn law_arms_that_set(config_key: Ident, fields: Seq<FieldDefView>)
    ensures
        ({
            let read = arms(set_arms(config_key, fields));
            &&& read.len() == fields.len()
            &&& forall|i: int|
                0 <= i < fields.len() ==> {
                    let arm = #[trigger] read[i];
                    &&& arm.cfgs == fields[i].attrs.cfg_attrs
                    &&& arm.pattern == given(config_key) + lex("::"@) + named(
                        fields[i].attrs.variant,
                    )
                    &&& arm.body == seq![
                        Token::Nest(
                            Delim::Brace,
                            set_code(fields[i].field_ident, fields[i].attrs.strategy),
                        ),
                    ]
                }
        }),
{
    lemma_arms_that_set(config_key, fields);
}

proof fn lemma_arms_that_set(config_key: Ident, fields: Seq<FieldDefView>)
    ensures
        arms(set_arms(config_key, fields)) == each(fields, setting(config_key)),
{
    lemma_set_arms(config_key, fields, Seq::empty());
    assert(set_arms(config_key, fields) + Seq::<Token>::empty() =~= set_arms(config_key, fields));
    assert(arms(Seq::empty()) =~= Seq::<Arm>::empty());
    assert(each(fields, setting(config_key)) + Seq::<Arm>::empty() =~= each(
        fields,
        setting(config_key),
    ));
}

/// The arm that reads a field.
pub open spec fn reading(config_key: Ident) -> spec_fn(FieldDefView) -> Arm {
    |field: FieldDefView|
        Arm {
            cfgs: field.attrs.cfg_attrs,
            pattern: key_pattern(config_key, field.attrs.variant),
            body: get_code(field.field_ident, field.attrs),
        }
}

proof fn lemma_get_start(field: Ident, attrs: FieldAttrsView)
    ensures
        get_code(field, attrs).len() > 0,
        !(get_code(field, attrs)[0] is Nest),
{
    lemma_lex_self();
    let some = lex("::std::option::Option::Some"@);
    lemma_plain_lex("::std::option::Option::Some"@);
    reveal_strlit("::std::option::Option::Some");
    assert(some.len() > 0);
    assert(some[0] is Word || some[0] is Punct || some[0] is Splice);
}

proof fn lemma_get_arms(config_key: Ident, fields: Seq<FieldDefView>, b: Seq<Token>)
    ensures
        arms(get_arms(config_key, fields) + b) == each(fields, reading(config_key)) + arms(b),
    decreases fields.len(),
{
    if fields.len() == 0 {
        assert(get_arms(config_key, fields) + b =~= b);
        assert(each(fields, reading(config_key)) + arms(b) =~= arms(b));
    } else {
        let first = fields.drop_last();
        let field = fields.last();
        let arm = get_arm(config_key, field);
        let body = get_code(field.field_ident, field.attrs);
        let pattern = key_pattern(config_key, field.attrs.variant);
        lemma_get_arms(config_key, first, arm + b);
        assert(get_arms(config_key, fields) + b =~= get_arms(config_key, first) + (arm + b));
        lemma_key_pattern(config_key, field.attrs.variant);
        lemma_lex_marks();
        lemma_get_code(field.field_ident, field.attrs, lex(","@), Seq::empty());
        lemma_get_start(field.field_ident, field.attrs);
        lemma_expression_arm(field.attrs.cfg_attrs, pattern, body, b);
        assert(arm + b =~= splices(field.attrs.cfg_attrs) + (pattern + (lex("=>"@) + (body + (lex(
            ","@,
        ) + b)))));
        lemma_each(fields, reading(config_key), arms(b));
    }
}

proof fn lemma_arms_that_read(config_key: Ident, fields: Seq<FieldDefView>)
    ensures
        arms(get_arms(config_key, fields)) == each(fields, reading(config_key)),
{
    lemma_get_arms(config_key, fields, Seq::empty());
    assert(get_arms(config_key, fields) + Seq::<Token>::empty() =~= get_arms(config_key, fields));
    assert(arms(Seq::empty()) =~= Seq::<Arm>::empty());
    assert(each(fields, reading(config_key)) + Seq::<Arm>::empty() =~= each(
        fields,
        reading(config_key),
    ));
}

/// The arms of the generated `get_config_value` are one for each field, in order, each under exactly
/// the `cfg` attributes of its field, whatever the field is, with the field's variant for its pattern
/// and the expression that reads the field.
pub proof fn law_arms_that_read(config_key: Ident, fields: Seq<FieldDefView>)
    ensures
        ({
            let read = arms(get_arms(config_key, fields));
            &&& read.len() == fields.len()
            &&& forall|i: int|
                0 <= i < fields.len() ==> {
                    let arm = #[trigger] read[i];
                    &&& arm.cfgs == fields[i].attrs.cfg_attrs
                    &&& arm.pattern == given(config_key) + lex("::"@) + named(
                        fields[i].attrs.variant,
                    )
                    &&& arm.body == get_code(fields[i].field_ident, fields[i].attrs)
                }
        }),
{
    lemma_arms_that_read(config_key, fields);
}

/// The arm that gives the key of a variant.
pub open spec fn keyed() -> spec_fn(FieldDefView) -> Arm {
    |field: FieldDefView|
        Arm {
            cfgs: field.attrs.cfg_attrs,
            pattern: lex("Self::"@) + named(field.attrs.variant),
            body: literal(field.attrs.key),
        }
}

proof fn lemma_self_path(variant: NameView)
    ensures
        patterned(lex("Self::"@) + named(variant)),
{
    reveal_strlit("Self::");
    reveal_strlit("Self");
    reveal_strlit("::");
    lemma_lex_word("Self"@, "::"@);
    assert("Self::"@ =~= "Self"@ + "::"@);
    lemma_colons();
}

proof fn lemma_asref_arms(fields: Seq<FieldDefView>, b: Seq<Token>)
    ensures
        arms(asref_arms(fields) + b) == each(fields, keyed()) + arms(b),
    decreases fields.len(),
{
    if fields.len() == 0 {
        assert(asref_arms(fields) + b =~= b);
        assert(each(fields, keyed()) + arms(b) =~= arms(b));
    } else {
        let first = fields.drop_last();
        let field = fields.last();
        let arm = asref_arm(field.attrs);
        let body = literal(field.attrs.key);
        let pattern = lex("Self::"@) + named(field.attrs.variant);
        lemma_asref_arms(first, arm + b);
        assert(asref_arms(fields) + b =~= asref_arms(first) + (arm + b));
        lemma_self_path(field.attrs.variant);
        lemma_expression_arm(field.attrs.cfg_attrs, pattern, body, b);
        assert(arm + b =~= splices(field.attrs.cfg_attrs) + (pattern + (lex("=>"@) + (body + (lex(
            ","@,
        ) + b)))));
        lemma_each(fields, keyed(), arms(b));
    }
}

proof fn lemma_arms_of_as_ref(fields: Seq<FieldDefView>)
    ensures
        arms(asref_arms(fields)) == each(fields, keyed()),
{
    lemma_asref_arms(fields, Seq::empty());
    assert(asref_arms(fields) + Seq::<Token>::empty() =~= asref_arms(fields));
    assert(arms(Seq::empty()) =~= Seq::<Arm>::empty());
    assert(each(fields, keyed()) + Seq::<Arm>::empty() =~= each(fields, keyed()));
}

/// The arms of the generated `AsRef` are one for each field, in order, each under exactly the `cfg`
/// attributes of its field, from the field's variant to the field's own key.
pub proof fn law_arms_of_as_ref(fields: Seq<FieldDefView>)
    ensures
        ({
            let read = arms(asref_arms(fields));
            &&& read.len() == fields.len()
            &&& forall|i: int|
                0 <= i < fields.len() ==> {
                    let arm = #[trigger] read[i];
                    &&& arm.cfgs == fields[i].attrs.cfg_attrs
                    &&& arm.pattern == lex("Self::"@) + named(fields[i].attrs.variant)
                    &&& arm.body == seq![Token::Text(fields[i].attrs.key)]
                }
        }),
{
    lemma_arms_of_as_ref(fields);
}

/// The arm that gives the variant of keys.
pub open spec fn found_by() -> spec_fn(FieldDefView) -> Arm {
    |field: FieldDefView|
        Arm {
            cfgs: field.attrs.cfg_attrs,
            pattern: patterns(keys(field.attrs)),
            body: lex("::std::result::Result::Ok"@) + paren(
                lex("Self::"@) + named(field.attrs.variant),
            ),
        }
}

proof fn lemma_alternatives(all: Seq<Seq<char>>)
    requires
        all.len() > 0,
    ensures
        patterns(all).len() == 2 * all.len() - 1,
        forall|i: int| 0 <= i < all.len() ==> #[trigger] patterns(all)[2 * i] == Token::Text(all[i]),
        forall|i: int|
            0 <= i < all.len() - 1 ==> #[trigger] patterns(all)[2 * i + 1] == Token::Punct(
                '|',
                Joining::Alone,
            ),
        patterned(patterns(all)),
    decreases all.len(),
{
    reveal_strlit("|");
    lemma_lex_punct('|', Seq::empty());
    assert("|"@ =~= seq!['|'] + Seq::<char>::empty());
    let bar = lex("|"@);
    assert(bar =~= seq![Token::Punct('|', Joining::Alone)]);
    if all.len() == 1 {
        assert(patterns(all)[0] == Token::Text(all[0]));
    } else {
        let first = all.drop_last();
        let n = all.len() - 1;
        lemma_alternatives(first);
        let code = patterns(all);
        let before = patterns(first);
        assert(code == before + bar + literal(all.last()));
        assert forall|i: int| 0 <= i < all.len() implies #[trigger] code[2 * i] == Token::Text(
            all[i],
        ) by {
            if i < n {
                assert(code[2 * i] == before[2 * i]);
                assert(first[i] == all[i]);
            } else {
                assert(code[2 * n] == Token::Text(all.last()));
            }
        }
        assert forall|i: int| 0 <= i < all.len() - 1 implies #[trigger] code[2 * i + 1]
            == Token::Punct('|', Joining::Alone) by {
            if i < n - 1 {
                assert(code[2 * i + 1] == before[2 * i + 1]);
            } else {
                assert(code[2 * n - 1] == bar[0]);
            }
        }
        assert(code[0] == before[0]);
    }
}

proof fn lemma_ok_arrow()
    ensures
        lex("=> ::std::result::Result::Ok"@) == lex("=>"@) + lex("::std::result::Result::Ok"@),
        lex("::std::result::Result::Ok"@).len() > 0,
        !(lex("::std::result::Result::Ok"@)[0] is Nest),
        without(lex("::std::result::Result::Ok"@), ','),
        lex("_ => ::std::result::Result::Err"@) == seq![Token::Word("_"@)] + (lex("=>"@) + lex(
            "::std::result::Result::Err"@,
        )),
        lex("::std::result::Result::Err"@).len() > 0,
        !(lex("::std::result::Result::Err"@)[0] is Nest),
        without(lex("::std::result::Result::Err"@), ','),
{
    reveal_strlit("=> ::std::result::Result::Ok");
    reveal_strlit("::std::result::Result::Ok");
    reveal_strlit("_ => ::std::result::Result::Err");
    reveal_strlit("::std::result::Result::Err");
    reveal_strlit("_");
    reveal_strlit("=>");
    lemma_lex_marks();
    let ok = "::std::result::Result::Ok"@;
    let err = "::std::result::Result::Err"@;
    lemma_arrow_before(ok);
    assert("=> ::std::result::Result::Ok"@ =~= "=>"@ + (seq![' '] + ok));
    lemma_arrow_before(err);
    lemma_lex_word("_"@, seq![' '] + ("=>"@ + (seq![' '] + err)));
    lemma_lex_space("=>"@ + (seq![' '] + err));
    assert("_ => ::std::result::Result::Err"@ =~= "_"@ + (seq![' '] + ("=>"@ + (seq![' '] + err))));
    lemma_lex_without(ok, ',');
    lemma_lex_without(err, ',');
    lemma_plain_lex(ok);
    lemma_plain_lex(err);
    assert(lex(ok).len() > 0 && lex(err).len() > 0);
    assert(lex(ok)[0] is Word || lex(ok)[0] is Punct || lex(ok)[0] is Splice);
    assert(lex(err)[0] is Word || lex(err)[0] is Punct || lex(err)[0] is Splice);
}

/// An arrow and a space before a text.
proof fn lemma_arrow_before(text: Seq<char>)
    ensures
        lex("=>"@ + (seq![' '] + text)) == lex("=>"@) + lex(text),
{
    reveal_strlit("=>");
    lemma_lex_marks();
    let code = "=>"@ + (seq![' '] + text);
    let rest = seq!['>'] + (seq![' '] + text);
    assert(code.drop_first() =~= rest);
    lemma_lex_punct('>', seq![' '] + text);
    lemma_lex_space(text);
    assert(lex(code) =~= seq![Token::Punct('=', Joining::Joined)] + lex(rest));
    assert(lex(code) =~= lex("=>"@) + lex(text));
}

proof fn lemma_fromstr_arms(fields: Seq<FieldDefView>, b: Seq<Token>)
    ensures
        arms(fromstr_arms(fields) + b) == each(fields, found_by()) + arms(b),
    decreases fields.len(),
{
    if fields.len() == 0 {
        assert(fromstr_arms(fields) + b =~= b);
        assert(each(fields, found_by()) + arms(b) =~= arms(b));
    } else {
        let first = fields.drop_last();
        let field = fields.last();
        let arm = fromstr_arm(field.attrs);
        let pattern = patterns(keys(field.attrs));
        let body = lex("::std::result::Result::Ok"@) + paren(
            lex("Self::"@) + named(field.attrs.variant),
        );
        lemma_fromstr_arms(first, arm + b);
        assert(fromstr_arms(fields) + b =~= fromstr_arms(first) + (arm + b));
        lemma_alternatives(keys(field.attrs));
        lemma_ok_arrow();
        lemma_expression_arm(field.attrs.cfg_attrs, pattern, body, b);
        assert(arm + b =~= splices(field.attrs.cfg_attrs) + (pattern + (lex("=>"@) + (body + (lex(
            ","@,
        ) + b)))));
        lemma_each(fields, found_by(), arms(b));
    }
}

/// What the generated `FromStr` gives for every other text.
pub open spec fn refusing(struct_attrs: StructAttrs) -> Arm {
    Arm {
        cfgs: Seq::empty(),
        pattern: seq![Token::Word("_"@)],
        body: lex("::std::result::Result::Err"@) + paren(
            unknown_key_code(struct_attrs) + lex(".into"@) + paren(Seq::empty()),
        ),
    }
}

proof fn lemma_arms_of_from_str(struct_attrs: StructAttrs, fields: Seq<FieldDefView>)
    ensures
        arms(fromstr_match(struct_attrs, fields)) == each(fields, found_by()).push(
            refusing(struct_attrs),
        ),
{
    let last = refusing(struct_attrs);
    let none = Seq::<Token>::empty();
    let tail = lex("_ => ::std::result::Result::Err"@) + paren(
        unknown_key_code(struct_attrs) + lex(".into"@) + paren(none),
    ) + lex(","@);
    lemma_ok_arrow();
    lemma_lex_marks();
    lemma_fromstr_arms(fields, tail);
    assert(fromstr_match(struct_attrs, fields) =~= fromstr_arms(fields) + tail);
    lemma_expression_arm(Seq::empty(), last.pattern, last.body, none);
    assert(tail =~= splices(Seq::empty()) + (last.pattern + (lex("=>"@) + (last.body + (lex(","@)
        + none)))));
    assert(arms(none) =~= Seq::<Arm>::empty());
    assert(each(fields, found_by()) + arms(tail) =~= each(fields, found_by()).push(last));
}

/// The arms of the generated `FromStr` are one for each field, in order, and one that refuses: each arm
/// of a field stands under exactly the `cfg` attributes of its field, has the field's key and all its
/// aliases for alternatives, and gives the field's variant.
pub proof fn law_arms_of_from_str(struct_attrs: StructAttrs, fields: Seq<FieldDefView>)
    ensures
        ({
            let read = arms(fromstr_match(struct_attrs, fields));
            &&& read.len() == fields.len() + 1
            &&& forall|i: int|
                0 <= i < fields.len() ==> {
                    let arm = #[trigger] read[i];
                    &&& arm.cfgs == fields[i].attrs.cfg_attrs
                    &&& arm.pattern.len() == 2 * fields[i].attrs.aliases.len() + 1
                    &&& forall|k: int|
                        0 <= k <= fields[i].attrs.aliases.len() ==> #[trigger] arm.pattern[2 * k]
                            == Token::Text(key_at(fields[i].attrs, k))
                    &&& arm.body == lex("::std::result::Result::Ok"@) + paren(
                        lex("Self::"@) + named(fields[i].attrs.variant),
                    )
                }
            &&& read[fields.len() as int].cfgs.len() == 0
            &&& read[fields.len() as int].pattern == seq![Token::Word("_"@)]
            &&& read[fields.len() as int].body == lex("::std::result::Result::Err"@) + paren(
                splice(struct_attrs.error_path) + brace(
                    match struct_attrs.error_store {
                        Some(store) => lex("store:"@) + splice(store) + lex(", key: s.into"@) + paren(
                            Seq::empty(),
                        ),
                        None => lex("key: s.into"@) + paren(Seq::empty()),
                    },
                ) + lex(".into"@) + paren(Seq::empty()),
            )
        }),
{
    lemma_arms_of_from_str(struct_attrs, fields);
    let read = arms(fromstr_match(struct_attrs, fields));
    assert forall|i: int| 0 <= i < fields.len() implies {
        let arm = #[trigger] read[i];
        &&& arm.pattern.len() == 2 * fields[i].attrs.aliases.len() + 1
        &&& forall|k: int|
            0 <= k <= fields[i].attrs.aliases.len() ==> #[trigger] arm.pattern[2 * k]
                == Token::Text(key_at(fields[i].attrs, k))
    } by {
        lemma_alternatives(keys(fields[i].attrs));
        law_keys_of_a_field(fields[i].attrs);
        assert forall|k: int| 0 <= k <= fields[i].attrs.aliases.len() implies #[trigger] read[i].pattern[2
            * k] == Token::Text(key_at(fields[i].attrs, k)) by {
            assert(keys(fields[i].attrs)[k] == key_at(fields[i].attrs, k)) by {
                if k > 0 {
                    assert(fields[i].attrs.aliases[k - 1] == keys(fields[i].attrs)[k]);
                }
            }
        }
    }
}

// ---------------------------------------------------------------------------
// What the compiler keeps under `cfg` attributes
// ---------------------------------------------------------------------------

/// The arms whose attributes all hold.
pub open spec fn kept(arms: Seq<Arm>, holds: spec_fn(TokenStream) -> bool) -> Seq<Arm>
    decreases arms.len(),
{
    if arms.len() == 0 {
        Seq::empty()
    } else if forall|i: int|
        0 <= i < arms.last().cfgs.len() ==> holds(#[trigger] arms.last().cfgs[i]) {
        kept(arms.drop_last(), holds).push(arms.last())
    } else {
        kept(arms.drop_last(), holds)
    }
}

proof fn lemma_kept(
    fields: Seq<FieldDefView>,
    read: spec_fn(FieldDefView) -> Arm,
    holds: spec_fn(TokenStream) -> bool,
)
    requires
        forall|field: FieldDefView| (#[trigger] read(field)).cfgs == field.attrs.cfg_attrs,
    ensures
        kept(each(fields, read), holds) == each(enabled(fields, holds), read),
    decreases fields.len(),
{
    if fields.len() == 0 {
        assert(each(enabled(fields, holds), read) =~= Seq::<Arm>::empty());
    } else {
        let first = fields.drop_last();
        lemma_kept(first, read, holds);
        assert(each(fields, read).drop_last() =~= each(first, read));
        assert(each(fields, read).last() == read(fields.last()));
        if is_enabled(fields.last(), holds) {
            assert(each(enabled(fields, holds), read) =~= each(enabled(first, holds), read).push(
                read(fields.last()),
            ));
        }
    }
}

/// Whatever `cfg` attributes hold, the arms that the compiler keeps, as their own attributes tell, are
/// those that are generated for the fields that are enabled: in `with_config`, in `get_config_value`, in
/// `AsRef` and in `FromStr`.
pub proof fn law_kept_arms_are_those_of_enabled_fields(
    config_key: Ident,
    struct_attrs: StructAttrs,
    fields: Seq<FieldDefView>,
    holds: spec_fn(TokenStream) -> bool,
)
    ensures
        kept(arms(set_arms(config_key, fields)), holds) == arms(
            set_arms(config_key, enabled(fields, holds)),
        ),
        kept(arms(get_arms(config_key, fields)), holds) == arms(
            get_arms(config_key, enabled(fields, holds)),
        ),
        kept(arms(asref_arms(fields)), holds) == arms(asref_arms(enabled(fields, holds))),
        kept(arms(fromstr_match(struct_attrs, fields)), holds) == arms(
            fromstr_match(struct_attrs, enabled(fields, holds)),
        ),
{
    let on = enabled(fields, holds);
    lemma_arms_that_set(config_key, fields);
    lemma_arms_that_set(config_key, on);
    lemma_kept(fields, setting(config_key), holds);
    lemma_arms_that_read(config_key, fields);
    lemma_arms_that_read(config_key, on);
    lemma_kept(fields, reading(config_key), holds);
    lemma_arms_of_as_ref(fields);
    lemma_arms_of_as_ref(on);
    lemma_kept(fields, keyed(), holds);
    lemma_arms_of_from_str(struct_attrs, fields);
    lemma_arms_of_from_str(struct_attrs, on);
    lemma_kept(fields, found_by(), holds);
    let all = each(fields, found_by()).push(refusing(struct_attrs));
    assert(all.drop_last() =~= each(fields, found_by()));
    assert(all.last() == refusing(struct_attrs));
}

// ---------------------------------------------------------------------------
// Variants and their documentation
// ---------------------------------------------------------------------------

/// What stands before each comma.
pub open spec fn items(code: Seq<Token>) -> Seq<Seq<Token>>
    decreases code.len(),
{
    let item = before_comma(code);
    if code.len() == 0 {
        Seq::empty()
    } else if code.len() <= item.len() {
        seq![item]
    } else {
        seq![item] + items(code.skip(item.len() as int + 1))
    }
}

/// The lines of the documentation that code consists of: `#[doc = "line"]`, one behind the other.
pub open spec fn doc_lines(code: Seq<Token>) -> Option<Seq<Seq<char>>>
    decreases code.len(),
{
    if code.len() == 0 {
        Some(Seq::empty())
    } else if code.len() == 1 || code[0] != Token::Punct('#', Joining::Alone) {
        None
    } else {
        match (code[1], doc_lines(code.skip(2))) {
            (Token::Nest(Delim::Bracket, inner), Some(later)) => if inner.len() == 3 && inner.take(2)
                == lex("doc ="@) && inner[2] is Text {
                Some(seq![inner[2]->Text_0] + later)
            } else {
                None
            },
            _ => None,
        }
    }
}

proof fn lemma_doc_tokens()
    ensures
        lex("#"@) == seq![Token::Punct('#', Joining::Alone)],
        lex("doc ="@) == seq![Token::Word("doc"@), Token::Punct('=', Joining::Alone)],
{
    reveal_strlit("#");
    reveal_strlit("doc =");
    reveal_strlit("doc");
    lemma_lex_punct('#', Seq::empty());
    assert("#"@ =~= seq!['#'] + Seq::<char>::empty());
    lemma_lex_punct('=', Seq::empty());
    let equals = seq!['='] + Seq::<char>::empty();
    lemma_lex_space(equals);
    lemma_lex_word("doc"@, seq![' '] + equals);
    assert("doc ="@ =~= "doc"@ + (seq![' '] + equals));
}

proof fn lemma_doc_line(line: Seq<char>, b: Seq<Token>)
    ensures
        doc_lines(doc_code(line) + b) == match doc_lines(b) {
            Some(later) => Some(seq![line] + later),
            None => None,
        },
        doc_code(line).len() == 2,
        without(doc_code(line), ','),
        doc_code(line)[0] == Token::Punct('#', Joining::Alone),
{
    lemma_doc_tokens();
    let code = doc_code(line) + b;
    let inner = lex("doc ="@) + literal(line);
    assert(code[0] == Token::Punct('#', Joining::Alone));
    assert(code[1] == Token::Nest(Delim::Bracket, inner));
    assert(code.skip(2) =~= b);
    assert(inner.take(2) =~= lex("doc ="@));
}

/// The bullets of keys: `- ` and the key between backquotes.
pub open spec fn bullet_lines(all: Seq<Seq<char>>) -> Seq<Seq<char>> {
    Seq::new(all.len(), |i: int| " - `"@ + all[i] + "`"@)
}

proof fn lemma_bullets(all: Seq<Seq<char>>, b: Seq<Token>)
    ensures
        doc_lines(bullets(all) + b) == match doc_lines(b) {
            Some(later) => Some(bullet_lines(all) + later),
            None => None,
        },
        without(bullets(all), ','),
        forall|i: int| 0 <= i < bullets(all).len() ==> !(#[trigger] bullets(all)[i] is Splice),
    decreases all.len(),
{
    if all.len() == 0 {
        assert(bullets(all) + b =~= b);
        if let Some(later) = doc_lines(b) {
            assert(bullet_lines(all) + later =~= later);
        }
    } else {
        let first = all.drop_last();
        let line = " - `"@ + all.last() + "`"@;
        lemma_bullets(first, doc_code(line) + b);
        lemma_doc_line(line, b);
        assert(bullets(all) + b =~= bullets(first) + (doc_code(line) + b));
        if let Some(later) = doc_lines(b) {
            assert(bullet_lines(first) + (seq![line] + later) =~= bullet_lines(all) + later);
        }
        lemma_doc_tokens();
    }
}

/// The lines that tell the keys of a field.
pub open spec fn key_lines(attrs: FieldAttrsView) -> Seq<Seq<char>> {
    if attrs.doc_inherit {
        seq![""@, " Supported keys:"@] + bullet_lines(seq![attrs.key] + attrs.aliases)
    } else {
        Seq::empty()
    }
}

proof fn lemma_supported(attrs: FieldAttrsView)
    ensures
        doc_lines(supported_keys_doc(attrs)) == Some(key_lines(attrs)),
        without(supported_keys_doc(attrs), ','),
        supported_keys_doc(attrs).len() > 0 ==> !(supported_keys_doc(attrs)[0] is Splice),
{
    let code = supported_keys_doc(attrs);
    let none = Seq::<Token>::empty();
    if attrs.doc_inherit {
        let all = keys(attrs);
        let rest = bullets(all) + none;
        lemma_bullets(all, none);
        assert(bullets(all) + none =~= bullets(all));
        lemma_doc_line(" Supported keys:"@, rest);
        lemma_doc_line(""@, doc_code(" Supported keys:"@) + rest);
        assert(code =~= doc_code(""@) + (doc_code(" Supported keys:"@) + rest));
        assert(all =~= seq![attrs.key] + attrs.aliases);
        assert(bullet_lines(all) + Seq::<Seq<char>>::empty() =~= bullet_lines(all));
        assert(seq![""@] + (seq![" Supported keys:"@] + bullet_lines(all)) =~= key_lines(attrs));
        lemma_doc_tokens();
    } else {
        assert(key_lines(attrs) =~= Seq::<Seq<char>>::empty());
    }
}

/// What stands for a field in the enum of keys.
spec fn variant_item(attrs: FieldAttrsView) -> Seq<Token> {
    splices(attrs.cfg_attrs + attrs.docs) + supported_keys_doc(attrs) + named(attrs.variant)
}

proof fn lemma_variants(fields: Seq<FieldDefView>, b: Seq<Token>)
    ensures
        items(variants_code(fields) + b) == Seq::new(
            fields.len(),
            |i: int| variant_item(fields[i].attrs),
        ) + items(b),
    decreases fields.len(),
{
    let read = Seq::new(fields.len(), |i: int| variant_item(fields[i].attrs));
    if fields.len() == 0 {
        assert(variants_code(fields) + b =~= b);
        assert(read + items(b) =~= items(b));
    } else {
        let first = fields.drop_last();
        let attrs = fields.last().attrs;
        let item = variant_item(attrs);
        lemma_variants(first, variant_code(attrs) + b);
        assert(variants_code(fields) + b =~= variants_code(first) + (variant_code(attrs) + b));
        lemma_supported(attrs);
        lemma_lex_marks();
        assert(splices(attrs.cfg_attrs + attrs.docs) =~= splices(attrs.cfg_attrs) + splices(
            attrs.docs,
        ));
        assert(variant_code(attrs) + b =~= item + (lex(","@) + b));
        lemma_before_comma(item, b);
        assert((item + (lex(","@) + b)).skip(item.len() as int + 1) =~= b);
        let earlier = Seq::new(first.len(), |i: int| variant_item(first[i].attrs));
        assert(earlier + (seq![item] + items(b)) =~= read + items(b));
    }
}

/// The enum of keys has one variant for each field, in order. Each stands under exactly the `cfg`
/// attributes of its field and then the field's documentation; behind them comes, unless it is switched
/// off, an empty line, a heading and a bullet for the field's key and each of its aliases; the name is
/// that of the field's variant.
pub proof fn law_variants(fields: Seq<FieldDefView>)
    ensures
        ({
            let read = items(variants_code(fields));
            &&& read.len() == fields.len()
            &&& forall|i: int|
                0 <= i < fields.len() ==> {
                    let item = #[trigger] read[i];
                    let attrs = fields[i].attrs;
                    let n = leading(item).len() as int;
                    &&& leading(item) == attrs.cfg_attrs + attrs.docs
                    &&& n < item.len()
                    &&& item.last() == Token::Name(attrs.variant)
                    &&& doc_lines(item.subrange(n, item.len() - 1)) matches Some(lines)
                    &&& if attrs.doc_inherit {
                        &&& lines.len() == attrs.aliases.len() + 3
                        &&& lines[0] == ""@
                        &&& lines[1] == " Supported keys:"@
                        &&& forall|k: int|
                            0 <= k <= attrs.aliases.len() ==> #[trigger] lines[k + 2] == " - `"@
                                + key_at(attrs, k) + "`"@
                    } else {
                        lines.len() == 0
                    }
                }
        }),
{
    lemma_variants(fields, Seq::empty());
    assert(variants_code(fields) + Seq::<Token>::empty() =~= variants_code(fields));
    let read = items(variants_code(fields));
    assert(items(Seq::empty()) =~= Seq::<Seq<Token>>::empty());
    assert(read =~= Seq::new(fields.len(), |i: int| variant_item(fields[i].attrs)));
    assert forall|i: int| 0 <= i < fields.len() implies {
        let item = #[trigger] read[i];
        let attrs = fields[i].attrs;
        let n = leading(item).len() as int;
        &&& leading(item) == attrs.cfg_attrs + attrs.docs
        &&& n < item.len()
        &&& item.last() == Token::Name(attrs.variant)
        &&& doc_lines(item.subrange(n, item.len() - 1)) == Some(key_lines(attrs))
    } by {
        let attrs = fields[i].attrs;
        let streams = attrs.cfg_attrs + attrs.docs;
        let tail = supported_keys_doc(attrs) + named(attrs.variant);
        lemma_supported(attrs);
        assert(read[i] =~= splices(streams) + tail);
        if supported_keys_doc(attrs).len() > 0 {
            assert(tail[0] == supported_keys_doc(attrs)[0]);
        }
        lemma_leading(streams, tail);
        assert(read[i].subrange(streams.len() as int, read[i].len() - 1) =~= supported_keys_doc(
            attrs,
        ));
    }
}

// ---------------------------------------------------------------------------
// Setters
// ---------------------------------------------------------------------------

/// A method: its attributes, its name, its parameters and its body.
pub struct Method {
    pub attrs: Seq<TokenStream>,
    pub name: NameView,
    pub parameters: Seq<Token>,
    pub body: Seq<Token>,
}

/// The methods that code consists of: attributes, `pub fn`, a name, parameters, `-> Self`, a body.
pub open spec fn methods(code: Seq<Token>) -> Option<Seq<Method>>
    decreases code.len(),
{
    let attrs = leading(code);
    let rest = code.skip(attrs.len() as int);
    proof {
        lemma_leading_len(code);
    }
    if code.len() == 0 {
        Some(Seq::empty())
    } else if rest.len() < 8 || rest.take(2) != lex("pub fn"@) || rest.subrange(4, 7) != lex(
        "-> Self"@,
    ) {
        None
    } else {
        match (rest[2], rest[3], rest[7], methods(rest.skip(8))) {
            (
                Token::Name(name),
                Token::Nest(Delim::Paren, parameters),
                Token::Nest(Delim::Brace, body),
                Some(later),
            ) => Some(seq![Method { attrs, name, parameters, body }] + later),
            _ => None,
        }
    }
}

proof fn lemma_method_tokens()
    ensures
        lex("pub fn"@) == seq![Token::Word("pub"@), Token::Word("fn"@)],
        lex("-> Self"@) == seq![
            Token::Punct('-', Joining::Joined),
            Token::Punct('>', Joining::Alone),
            Token::Word("Self"@),
        ],
{
    reveal_strlit("pub fn");
    reveal_strlit("pub");
    reveal_strlit("fn");
    reveal_strlit("-> Self");
    reveal_strlit("Self");
    lemma_lex_only_word("fn"@);
    lemma_lex_space("fn"@);
    lemma_lex_word("pub"@, seq![' '] + "fn"@);
    assert("pub fn"@ =~= "pub"@ + (seq![' '] + "fn"@));
    let rest = seq!['>'] + (seq![' '] + "Self"@);
    lemma_lex_only_word("Self"@);
    lemma_lex_space("Self"@);
    lemma_lex_punct('>', seq![' '] + "Self"@);
    assert("-> Self"@.drop_first() =~= rest);
    assert(lex("-> Self"@) =~= seq![Token::Punct('-', Joining::Joined)] + lex(rest));
}

/// The type that the setter of a field takes.
pub open spec fn parameter_type(field: FieldDefView) -> Seq<Token> {
    match field.attrs.strategy {
        Strategy::OptionString => lex("impl ::std::convert::Into<::std::string::String>"@),
        Strategy::ConfigValue => seq![Token::Splice(config_value_inner(field.ty)->Ok_0.tokens)],
        Strategy::OptionConfigValueDeferred => seq![
            Token::Splice(option_config_value_inner(field.ty)->Ok_0.tokens),
        ],
    }
}

/// The setter of a field.
spec fn setter_method(field: FieldDefView) -> Method {
    Method {
        attrs: field.attrs.cfg_attrs + field.attrs.docs,
        name: field.attrs.setter_name,
        parameters: lex("mut self, value:"@) + parameter_type(field),
        body: setter_body(field),
    }
}

/// The fields that are to have a setter.
pub open spec fn with_setter(fields: Seq<FieldDefView>) -> Seq<FieldDefView>
    decreases fields.len(),
{
    if fields.len() == 0 {
        Seq::empty()
    } else if fields.last().attrs.setter == SetterMode::Auto {
        with_setter(fields.drop_last()).push(fields.last())
    } else {
        with_setter(fields.drop_last())
    }
}

/// A field that is to have no setter adds no token to the setters, whatever its strategy and its type
/// are, and is never refused for its setter.
pub proof fn law_skipped_setters_leave_nothing(field: FieldDefView)
    requires
        field.attrs.setter == SetterMode::Skip,
    ensures
        setter_code(field) == Ok::<Seq<Token>, ErrorView>(Seq::empty()),
{
}

/// A field that is to have a setter has one, or is refused for the type that its strategy needs and the
/// field has not.
pub proof fn law_setters_are_had_or_refused(field: FieldDefView)
    requires
        field.attrs.setter == SetterMode::Auto,
    ensures
        field.attrs.strategy == Strategy::OptionString ==> setter_code(field) is Ok,
        field.attrs.strategy == Strategy::ConfigValue ==> match config_value_inner(field.ty) {
            Ok(_) => setter_code(field) is Ok,
            Err(error) => setter_code(field) == Err::<Seq<Token>, ErrorView>(error),
        },
        field.attrs.strategy == Strategy::OptionConfigValueDeferred
            ==> match option_config_value_inner(field.ty) {
            Ok(_) => setter_code(field) is Ok,
            Err(error) => setter_code(field) == Err::<Seq<Token>, ErrorView>(error),
        },
        setter_code(field) matches Ok(code) ==> code.len() > 0,
{
}

/// The setters of several fields are had where each is, and refused for the first that is not.
pub proof fn law_first_refused_setter_is_told(fields: Seq<FieldDefView>)
    ensures
        setter_codes(fields) is Ok <==> forall|i: int|
            0 <= i < fields.len() ==> setter_code(#[trigger] fields[i]) is Ok,
        forall|i: int|
            0 <= i < fields.len() && setter_code(#[trigger] fields[i]) is Err && (forall|k: int|
                0 <= k < i ==> setter_code(#[trigger] fields[k]) is Ok) ==> setter_codes(fields)
                == Err::<Seq<Token>, ErrorView>(setter_code(fields[i])->Err_0),
    decreases fields.len(),
{
    if fields.len() > 0 {
        let first = fields.drop_last();
        let n = fields.len() - 1;
        law_first_refused_setter_is_told(first);
        assert(forall|i: int| 0 <= i < first.len() ==> first[i] == fields[i]);
        assert(fields[n] == fields.last());
        assert forall|i: int|
            0 <= i < fields.len() && setter_code(#[trigger] fields[i]) is Err && (forall|k: int|
                0 <= k < i ==> setter_code(#[trigger] fields[k]) is Ok) implies setter_codes(fields)
            == Err::<Seq<Token>, ErrorView>(setter_code(fields[i])->Err_0) by {
            if i < n {
                assert(first[i] == fields[i]);
                assert forall|k: int| 0 <= k < i implies setter_code(#[trigger] first[k]) is Ok by {
                    assert(first[k] == fields[k]);
                }
            } else {
                assert forall|k: int| 0 <= k < first.len() implies setter_code(
                    #[trigger] first[k],
                ) is Ok by {
                    assert(first[k] == fields[k]);
                }
            }
        }
        if forall|i: int| 0 <= i < fields.len() ==> setter_code(#[trigger] fields[i]) is Ok {
            assert forall|k: int| 0 <= k < first.len() implies setter_code(
                #[trigger] first[k],
            ) is Ok by {
                assert(first[k] == fields[k]);
            }
            assert(setter_code(fields[n]) is Ok);
        }
        if setter_codes(fields) is Ok {
            assert forall|i: int| 0 <= i < fields.len() implies setter_code(
                #[trigger] fields[i],
            ) is Ok by {
                if i < n {
                    assert(first[i] == fields[i]);
                }
            }
        }
    }
}

proof fn lemma_setter(field: FieldDefView, b: Seq<Token>)
    requires
        field.attrs.setter == SetterMode::Auto,
        setter_code(field) is Ok,
    ensures
        methods(setter_code(field)->Ok_0 + b) == match methods(b) {
            Some(later) => Some(seq![setter_method(field)] + later),
            None => None,
        },
{
    let attrs = field.attrs;
    let streams = attrs.cfg_attrs + attrs.docs;
    let method = setter_method(field);
    let code = setter_code(field)->Ok_0 + b;
    let tail = lex("pub fn"@) + named(attrs.setter_name) + paren(method.parameters) + lex(
        "-> Self"@,
    ) + brace(setter_body(field)) + b;
    lemma_method_tokens();
    assert(splices(streams) =~= splices(attrs.cfg_attrs) + splices(attrs.docs));
    assert(code =~= splices(streams) + tail);
    lemma_leading(streams, tail);
    assert(code.skip(streams.len() as int) =~= tail);
    assert(tail.take(2) =~= lex("pub fn"@));
    assert(tail.subrange(4, 7) =~= lex("-> Self"@));
    assert(tail[2] == Token::Name(attrs.setter_name));
    assert(tail[3] == Token::Nest(Delim::Paren, method.parameters));
    assert(tail[7] == Token::Nest(Delim::Brace, setter_body(field)));
    assert(tail.skip(8) =~= b);
}

proof fn lemma_setters(fields: Seq<FieldDefView>, b: Seq<Token>)
    requires
        setter_codes(fields) is Ok,
    ensures
        methods(setter_codes(fields)->Ok_0 + b) == match methods(b) {
            Some(later) => Some(
                Seq::new(
                    with_setter(fields).len(),
                    |i: int| setter_method(with_setter(fields)[i]),
                ) + later,
            ),
            None => None,
        },
    decreases fields.len(),
{
    let read = Seq::new(with_setter(fields).len(), |i: int| setter_method(with_setter(fields)[i]));
    if fields.len() == 0 {
        assert(setter_codes(fields)->Ok_0 + b =~= b);
        if let Some(later) = methods(b) {
            assert(read + later =~= later);
        }
    } else {
        let first = fields.drop_last();
        let last = fields.last();
        let code = setter_code(last)->Ok_0;
        let earlier = Seq::new(
            with_setter(first).len(),
            |i: int| setter_method(with_setter(first)[i]),
        );
        lemma_setters(first, code + b);
        assert(setter_codes(fields)->Ok_0 + b =~= setter_codes(first)->Ok_0 + (code + b));
        if last.attrs.setter == SetterMode::Auto {
            lemma_setter(last, b);
            if let Some(later) = methods(b) {
                assert(earlier + (seq![setter_method(last)] + later) =~= read + later);
            }
        } else {
            assert(code + b =~= b);
            assert(earlier =~= read);
        }
    }
}

/// There is one setter for each field that is to have one, in order, and no other. Each stands under
/// exactly the `cfg` attributes of its field and then the field's documentation, has the field's setter
/// name, takes the struct and a value of the type that the field's strategy needs, and does what the
/// setter of the field does alone.
pub proof fn law_setters(fields: Seq<FieldDefView>)
    requires
        setter_codes(fields) is Ok,
    ensures
        ({
            let on = with_setter(fields);
            &&& methods(setter_codes(fields)->Ok_0) matches Some(read)
            &&& read.len() == on.len()
            &&& forall|i: int|
                0 <= i < on.len() ==> {
                    let method = #[trigger] read[i];
                    &&& method.attrs == on[i].attrs.cfg_attrs + on[i].attrs.docs
                    &&& method.name == on[i].attrs.setter_name
                    &&& method.parameters == lex("mut self, value:"@) + parameter_type(on[i])
                    &&& setter_code(on[i]) matches Ok(alone) && method_body(alone) == Some(
                        method.body,
                    )
                }
        }),
{
    lemma_setters(fields, Seq::empty());
    assert(setter_codes(fields)->Ok_0 + Seq::<Token>::empty() =~= setter_codes(fields)->Ok_0);
    let read = Seq::new(with_setter(fields).len(), |i: int| setter_method(with_setter(fields)[i]));
    assert(read + Seq::<Method>::empty() =~= read);
    assert forall|i: int| 0 <= i < with_setter(fields).len() implies (setter_code(
        #[trigger] with_setter(fields)[i],
    ) matches Ok(alone) && method_body(alone) == Some(setter_body(with_setter(fields)[i]))) by {
        lemma_with_setter(fields, i);
    }
    assert(forall|i: int| 0 <= i < read.len() ==> #[trigger] read[i] == setter_method(
        with_setter(fields)[i],
    ));
}

proof fn lemma_with_setter(fields: Seq<FieldDefView>, i: int)
    requires
        setter_codes(fields) is Ok,
        0 <= i < with_setter(fields).len(),
    ensures
        with_setter(fields)[i].attrs.setter == SetterMode::Auto,
        setter_code(with_setter(fields)[i]) is Ok,
    decreases fields.len(),
{
    let first = fields.drop_last();
    if i < with_setter(first).len() {
        lemma_with_setter(first, i);
    }
}

// ---------------------------------------------------------------------------
// What is around them
// ---------------------------------------------------------------------------

/// The enum of keys: its documentation, what it derives, `#[non_exhaustive]`, its name, and its
/// variants between braces. Only the name, the struct's name and the variants differ from one definition
/// to another.
pub proof fn law_enum(name: Ident, struct_attrs: StructAttrs, fields: Seq<FieldDefView>)
    ensures
        enum_code(name, struct_attrs, fields) == lex("#"@) + bracket(
            lex("doc ="@) + literal(" Configuration keys for [`"@ + ident_text(name) + "`]"@),
        ) + lex("#"@) + bracket(
            lex("derive"@) + paren(
                lex(
                    "::std::cmp::PartialEq, ::std::cmp::Eq, ::std::hash::Hash, ::std::clone::Clone, ::std::fmt::Debug, ::std::marker::Copy, ::serde::Deserialize, ::serde::Serialize"@,
                ),
            ),
        ) + lex("#"@) + bracket(lex("non_exhaustive"@)) + lex("pub enum"@) + given(
            struct_attrs.config_key,
        ) + brace(variants_code(fields)),
{
}

/// The impl of `AsRef<str>` is for the enum of keys and matches on the variant.
pub proof fn law_as_ref_impl(struct_attrs: StructAttrs, fields: Seq<FieldDefView>)
    ensures
        asref_code(struct_attrs, fields) == lex("impl ::std::convert::AsRef<str> for"@) + given(
            struct_attrs.config_key,
        ) + brace(
            lex("fn as_ref"@) + paren(lex("&self"@)) + lex("-> &str"@) + brace(
                lex("match self"@) + brace(asref_arms(fields)),
            ),
        ),
{
}

/// The impl of `FromStr` is for the enum of keys, has the crate's error, and matches on the text.
pub proof fn law_from_str_impl(struct_attrs: StructAttrs, fields: Seq<FieldDefView>)
    ensures
        fromstr_code(struct_attrs, fields) == lex("impl ::std::str::FromStr for"@) + given(
            struct_attrs.config_key,
        ) + brace(
            lex("type Err = crate::Error; fn from_str"@) + paren(lex("s: &str"@)) + lex(
                "-> ::std::result::Result<Self, Self::Err>"@,
            ) + brace(lex("match s"@) + brace(fromstr_match(struct_attrs, fields))),
        ),
{
}

/// The access by key is in an impl of the struct: `with_config` takes the struct, a key and a text, and
/// gives the struct back; `get_config_value` borrows the struct and a key, and may give a text.
pub proof fn law_access_impl(name: Ident, struct_attrs: StructAttrs, fields: Seq<FieldDefView>)
    ensures
        dispatch_code(name, struct_attrs, fields) == lex("impl"@) + given(name) + brace(
            with_config_code(struct_attrs.config_key, fields) + get_config_code(
                struct_attrs.config_key,
                fields,
            ),
        ),
        with_config_code(struct_attrs.config_key, fields) == lex("#"@) + bracket(
            lex("doc ="@) + raw_literal(" Set a config option by key."@),
        ) + lex("pub fn with_config"@) + paren(
            lex("mut self, key:"@) + given(struct_attrs.config_key) + lex(
                ", value: impl ::std::convert::Into<::std::string::String>"@,
            ),
        ) + lex("-> Self"@) + brace(
            lex("let value: ::std::string::String = value.into"@) + paren(Seq::empty()) + lex(
                "; match key"@,
            ) + brace(set_arms(struct_attrs.config_key, fields)) + lex("self"@),
        ),
        get_config_code(struct_attrs.config_key, fields) == lex("#"@) + bracket(
            lex("doc ="@) + raw_literal(" Get a config value by key."@),
        ) + lex("pub fn get_config_value"@) + paren(
            lex("&self, key: &"@) + given(struct_attrs.config_key),
        ) + lex("-> ::std::option::Option<::std::string::String>"@) + brace(
            lex("match key"@) + brace(get_arms(struct_attrs.config_key, fields)),
        ),
{
}

/// The setters are in an impl of the struct.
pub proof fn law_setters_impl(name: Ident, fields: Seq<FieldDefView>)
    ensures
        match setter_codes(fields) {
            Ok(setters) => setters_code(name, fields) == Ok::<Seq<Token>, ErrorView>(
                lex("impl"@) + given(name) + brace(setters),
            ),
            Err(error) => setters_code(name, fields) == Err::<Seq<Token>, ErrorView>(error),
        },
{
}

} // verus!
