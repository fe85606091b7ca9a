//! Names in the generated code: which texts are identifiers, and how the names of variants and
//! setters are made from the name of a field.

use crate::tokens::{ident_span, ident_text, ident_to_string, made_text};
use proc_macro2::{Ident, Span};
use vstd::prelude::*;
use vstd::string::{StrSliceExecFns, StringExecFns};

verus! {

/// Whether a character has the Unicode property `XID_Start`.
pub uninterp spec fn xid_start(c: char) -> bool;

/// Whether a character has the Unicode property `XID_Continue`.
pub uninterp spec fn xid_continue(c: char) -> bool;

/// `unicode_ident::is_xid_start`: whether the character has the property `XID_Start`.
pub assume_specification[ unicode_ident::is_xid_start ](ch: char) -> (res: bool)
    ensures
        res == xid_start(ch),
;

/// `unicode_ident::is_xid_continue`: whether the character has the property `XID_Continue`.
pub assume_specification[ unicode_ident::is_xid_continue ](ch: char) -> (res: bool)
    ensures
        res == xid_continue(ch),
;

pub open spec fn ascii(c: char) -> bool {
    c <= '\x7f'
}

pub open spec fn all_ascii(text: Seq<char>) -> bool {
    forall|i: int| 0 <= i < text.len() ==> ascii(#[trigger] text[i])
}

pub open spec fn ascii_letter(c: char) -> bool {
    'a' <= c <= 'z' || 'A' <= c <= 'Z'
}

pub open spec fn ascii_digit(c: char) -> bool {
    '0' <= c <= '9'
}

/// Whether an identifier may start with the character.
pub open spec fn ident_start(c: char) -> bool {
    if ascii(c) {
        ascii_letter(c) || c == '_'
    } else {
        xid_start(c)
    }
}

/// Whether the character may stand in an identifier behind its start.
pub open spec fn ident_continue(c: char) -> bool {
    if ascii(c) {
        ascii_letter(c) || ascii_digit(c) || c == '_'
    } else {
        xid_continue(c)
    }
}

/// Whether the text is an identifier (keywords and `_` are, raw identifiers are not).
pub open spec fn legal_ident(text: Seq<char>) -> bool {
    &&& text.len() > 0
    &&& ident_start(text[0])
    &&& forall|i: int| 0 < i < text.len() ==> ident_continue(#[trigger] text[i])
}

/// Whether the character is one of Rust's punctuation characters.
pub open spec fn legal_punct(c: char) -> bool {
    ||| c == '!'
    ||| c == '#'
    ||| c == '$'
    ||| '%' <= c <= '\''
    ||| '*' <= c <= '/'
    ||| c == ':'
    ||| c == ';'
    ||| '<' <= c <= '@'
    ||| c == '^'
    ||| c == '|'
    ||| c == '~'
}

/// Whether two texts are the same.
pub fn same_text(a: &str, b: &str) -> (res: bool)
    ensures
        res == (a@ == b@),
{
    a.to_owned() == b.to_owned()
}

/// Whether an identifier may start with the character.
pub fn is_ident_start(c: char) -> (res: bool)
    ensures
        res == ident_start(c),
{
    if c <= '\x7f' {
        ('a' <= c && c <= 'z') || ('A' <= c && c <= 'Z') || c == '_'
    } else {
        unicode_ident::is_xid_start(c)
    }
}

/// Whether the character may stand in an identifier behind its start.
pub fn is_ident_continue(c: char) -> (res: bool)
    ensures
        res == ident_continue(c),
{
    if c <= '\x7f' {
        ('a' <= c && c <= 'z') || ('A' <= c && c <= 'Z') || ('0' <= c && c <= '9') || c == '_'
    } else {
        unicode_ident::is_xid_continue(c)
    }
}

/// Whether the text is an identifier.
pub fn is_legal_ident(text: &str) -> (res: bool)
    ensures
        res == legal_ident(text@),
{
    let mut first: bool = true;
    for c in it: text.chars()
        invariant
            it.seq() == text@,
            first == (it.index() == 0),
            it.index() > 0 ==> ident_start(text@[0]),
            forall|i: int| 0 < i < it.index() ==> ident_continue(#[trigger] text@[i]),
    {
        let fits: bool = if first {
            is_ident_start(c)
        } else {
            is_ident_continue(c)
        };
        if !fits {
            return false;
        }
        first = false;
    }
    !first
}

/// A name in the generated code: one that stands in the input, or one that the derive makes.
pub enum Name {
    Given(Ident),
    Made(String, Span),
}

/// A name, with the text of a made one.
pub enum NameView {
    Given(Ident),
    Made(Seq<char>, Span),
}

impl NameView {
    /// Whether the name can stand in the generated code.
    pub open spec fn legal(self) -> bool {
        self matches NameView::Made(text, _) ==> legal_ident(text)
    }

    /// The text of the name in the generated code, without the `r#` of a raw one. Two names are the
    /// same in Rust where their texts are.
    pub open spec fn text(self) -> Seq<char> {
        match self {
            NameView::Given(ident) => unraw(ident_text(ident)),
            NameView::Made(text, span) => made_text(text, span),
        }
    }
}

impl Name {
    pub open spec fn view(self) -> NameView {
        match self {
            Name::Given(ident) => NameView::Given(ident),
            Name::Made(text, span) => NameView::Made(text@, span),
        }
    }

    /// A copy of the name.
    pub fn duplicate(&self) -> (res: Name)
        ensures
            res@ == self@,
    {
        match self {
            Name::Given(ident) => Name::Given(ident.clone()),
            Name::Made(text, span) => Name::Made(text.clone(), *span),
        }
    }

    /// Whether the name can stand in the generated code.
    pub fn is_legal(&self) -> (res: bool)
        ensures
            res == self@.legal(),
    {
        match self {
            Name::Given(_) => true,
            Name::Made(text, _) => is_legal_ident(text.as_str()),
        }
    }
}

/// The ASCII upper case of a character.
pub open spec fn upper(c: char) -> char {
    if 'a' <= c <= 'z' {
        ((c as u32) - 32) as char
    } else {
        c
    }
}

/// Whether a word of a snake-case text starts at `i`.
pub open spec fn word_start(text: Seq<char>, i: int) -> bool {
    i == 0 || text[i - 1] == '_'
}

/// The Pascal case of a snake-case text: its characters without the underscores, those at the start
/// of a word in ASCII upper case.
pub open spec fn pascal(text: Seq<char>) -> Seq<char>
    decreases text.len(),
{
    if text.len() == 0 {
        Seq::empty()
    } else if text.last() == '_' {
        pascal(text.drop_last())
    } else if word_start(text, text.len() - 1) {
        pascal(text.drop_last()).push(upper(text.last()))
    } else {
        pascal(text.drop_last()).push(text.last())
    }
}

/// The ASCII upper case of a character.
pub fn to_upper(c: char) -> (res: char)
    ensures
        res == upper(c),
{
    if 'a' <= c && c <= 'z' {
        ((c as u8) - 32u8) as char
    } else {
        c
    }
}

/// The Pascal case of a snake-case text.
pub fn pascal_case(text: &str) -> (res: String)
    ensures
        res@ == pascal(text@),
{
    let mut out: String = String::new();
    let mut next_upper: bool = true;
    for c in it: text.chars()
        invariant
            it.seq() == text@,
            out@ == pascal(text@.take(it.index())),
            next_upper == word_start(text@, it.index()),
    {
        let ghost before = text@.take(it.index());
        let ghost after = text@.take(it.index() + 1);
        proof {
            assert(after.drop_last() == before);
            assert(after.last() == c);
        }
        if c == '_' {
            next_upper = true;
        } else if next_upper {
            out.push(to_upper(c));
            next_upper = false;
        } else {
            out.push(c);
        }
    }
    proof {
        assert(text@.take(text@.len() as int) == text@);
    }
    out
}

/// `String::push`: the character stands behind what the string held.
pub assume_specification[ String::push ](text: &mut String, c: char)
    ensures
        final(text)@ == old(text)@.push(c),
;

/// The variant that stands for a field: the Pascal case of the field's name, at its place.
pub fn snake_to_pascal(ident: &Ident) -> (res: Name)
    ensures
        res@ == NameView::Made(pascal(ident_text(*ident)), ident_span(*ident)),
{
    let text: String = ident_to_string(ident);
    Name::Made(pascal_case(text.as_str()), ident.span())
}

/// The text of an identifier without the `r#` of a raw one.
pub open spec fn unraw(text: Seq<char>) -> Seq<char> {
    if text.len() >= 2 && text[0] == 'r' && text[1] == '#' {
        text.skip(2)
    } else {
        text
    }
}

/// The default name of a field's setter: `with_` and the field's name, at its place.
pub fn setter_for(ident: &Ident) -> (res: Name)
    ensures
        res@ == NameView::Made("with_"@ + unraw(ident_text(*ident)), ident_span(*ident)),
{
    let text: String = ident_to_string(ident);
    let raw: bool = text.as_str().unicode_len() >= 2 && text.as_str().get_char(0) == 'r'
        && text.as_str().get_char(1) == '#';
    let mut out: String = "with_".to_owned();
    if raw {
        out.append(text.as_str().substring_char(2, text.as_str().unicode_len()));
    } else {
        out.append(text.as_str());
    }
    Name::Made(out, ident.span())
}

} // verus!
