//! The keys of a definition: no key may be given twice.

use crate::errors::{DeriveError, ErrorView, Problem, ProblemView};
use crate::fields::{defs_view, FieldAttrs, FieldAttrsView, FieldDef, FieldDefView};
use crate::names::same_text;
use proc_macro2::Span;
use vstd::prelude::*;

verus! {

/// The keys of a field: its own key, then its aliases.
pub open spec fn keys(attrs: FieldAttrsView) -> Seq<Seq<char>> {
    seq![attrs.key] + attrs.aliases
}

/// The keys of a field, each with the place where they are given.
pub open spec fn placed_keys(attrs: FieldAttrsView) -> Seq<(Seq<char>, Span)> {
    Seq::new(keys(attrs).len(), |i: int| (keys(attrs)[i], attrs.key_span))
}

/// The keys of several fields, each with the place where they are given.
pub open spec fn all_keys(fields: Seq<FieldDefView>) -> Seq<(Seq<char>, Span)>
    decreases fields.len(),
{
    if fields.len() == 0 {
        Seq::empty()
    } else {
        all_keys(fields.drop_last()) + placed_keys(fields.last().attrs)
    }
}

/// The place where a key is given first.
pub open spec fn place_of(placed: Seq<(Seq<char>, Span)>, key: Seq<char>) -> Option<Span>
    decreases placed.len(),
{
    if placed.len() == 0 {
        None
    } else {
        match place_of(placed.drop_last(), key) {
            Some(span) => Some(span),
            None => if placed.last().0 == key {
                Some(placed.last().1)
            } else {
                None
            },
        }
    }
}

/// The error of the first key that was given before.
pub open spec fn repeated(placed: Seq<(Seq<char>, Span)>) -> Option<ErrorView>
    decreases placed.len(),
{
    if placed.len() == 0 {
        None
    } else {
        match repeated(placed.drop_last()) {
            Some(error) => Some(error),
            None => match place_of(placed.drop_last(), placed.last().0) {
                Some(previous) => Some(
                    ErrorView::At(
                        ProblemView::RepeatedKey(placed.last().0, previous),
                        placed.last().1,
                    ),
                ),
                None => None,
            },
        }
    }
}

/// The keys that were met, each with the place where it is given.
pub open spec fn seen_view(seen: Seq<(String, Span)>) -> Seq<(Seq<char>, Span)> {
    Seq::new(seen.len(), |i: int| (seen[i].0@, seen[i].1))
}

/// Finds the place where a key is given first.
fn find_key(seen: &Vec<(String, Span)>, key: &str) -> (res: Option<Span>)
    ensures
        res == place_of(seen_view(seen@), key@),
{
    let ghost placed = seen_view(seen@);
    let mut i: usize = 0;
    while i < seen.len()
        invariant
            i <= seen.len(),
            placed == seen_view(seen@),
            place_of(placed.take(i as int), key@) is None,
        decreases seen.len() - i,
    {
        proof {
            assert(placed.take(i + 1).drop_last() =~= placed.take(i as int));
        }
        if same_text(seen[i].0.as_str(), key) {
            proof {
                lemma_place_of(placed, key@, i + 1);
            }
            return Some(seen[i].1);
        }
        i = i + 1;
    }
    proof {
        assert(placed.take(i as int) =~= placed);
    }
    None
}

/// A place among the first keys is the first place of all.
proof fn lemma_place_of(placed: Seq<(Seq<char>, Span)>, key: Seq<char>, n: int)
    requires
        0 <= n <= placed.len(),
        place_of(placed.take(n), key) is Some,
    ensures
        place_of(placed, key) == place_of(placed.take(n), key),
    decreases placed.len() - n,
{
    if n == placed.len() {
        assert(placed.take(n) =~= placed);
    } else {
        assert(placed.take(n + 1).drop_last() =~= placed.take(n));
        lemma_place_of(placed, key, n + 1);
    }
}

/// A repeated key among the first ones is the first of all.
proof fn lemma_repeated(placed: Seq<(Seq<char>, Span)>, n: int)
    requires
        0 <= n <= placed.len(),
        repeated(placed.take(n)) is Some,
    ensures
        repeated(placed) == repeated(placed.take(n)),
    decreases placed.len() - n,
{
    if n == placed.len() {
        assert(placed.take(n) =~= placed);
    } else {
        assert(placed.take(n + 1).drop_last() =~= placed.take(n));
        lemma_repeated(placed, n + 1);
    }
}

/// The keys of the first fields come first.
proof fn lemma_all_keys_prefix(fields: Seq<FieldDefView>, n: int)
    requires
        0 <= n <= fields.len(),
    ensures
        all_keys(fields.take(n)).len() <= all_keys(fields).len(),
        all_keys(fields).take(all_keys(fields.take(n)).len() as int) == all_keys(fields.take(n)),
    decreases fields.len() - n,
{
    if n == fields.len() {
        assert(fields.take(n) =~= fields);
        assert(all_keys(fields).take(all_keys(fields).len() as int) =~= all_keys(fields));
    } else {
        lemma_all_keys_prefix(fields, n + 1);
        assert(fields.take(n + 1).drop_last() =~= fields.take(n));
        let part = all_keys(fields.take(n));
        assert(all_keys(fields).take(part.len() as int) =~= all_keys(fields.take(n + 1)).take(
            part.len() as int,
        ));
        assert(all_keys(fields.take(n + 1)).take(part.len() as int) =~= part);
    }
}

/// Meets one key more; it must not have been met before.
fn meet_key(seen: &mut Vec<(String, Span)>, key: &String, span: Span) -> (res: Result<
    (),
    DeriveError,
>)
    requires
        repeated(seen_view(old(seen)@)) is None,
    ensures
        match repeated(seen_view(old(seen)@).push((key@, span))) {
            None => res is Ok && seen_view(final(seen)@) == seen_view(old(seen)@).push((key@, span)),
            Some(error) => res matches Err(e) && e@ == error,
        },
{
    let ghost next = seen_view(seen@).push((key@, span));
    proof {
        assert(next.drop_last() =~= seen_view(seen@));
    }
    if let Some(previous) = find_key(seen, key.as_str()) {
        return Err(DeriveError::At(Problem::RepeatedKey(key.clone(), previous), span));
    }
    seen.push((key.clone(), span));
    proof {
        assert(seen_view(seen@) =~= next);
    }
    Ok(())
}

/// Checks that no key is given twice, be it as a key or as an alias.
pub fn check_duplicate_keys(fields: &Vec<FieldDef<'_>>) -> (res: Result<(), DeriveError>)
    ensures
        match repeated(all_keys(defs_view(fields@))) {
            None => res is Ok,
            Some(error) => res matches Err(e) && e@ == error,
        },
{
    let ghost defs = defs_view(fields@);
    let mut seen: Vec<(String, Span)> = Vec::new();
    let mut i: usize = 0;
    proof {
        assert(seen_view(seen@) =~= all_keys(defs.take(0)));
    }
    while i < fields.len()
        invariant
            i <= fields.len(),
            defs == defs_view(fields@),
            seen_view(seen@) == all_keys(defs.take(i as int)),
            repeated(seen_view(seen@)) is None,
        decreases fields.len() - i,
    {
        let attrs: &FieldAttrs = &fields[i].attrs;
        let ghost before = seen_view(seen@);
        let ghost more = placed_keys(attrs@);
        let ghost all = before + more;
        proof {
            assert(defs.take(i + 1).drop_last() =~= defs.take(i as int));
            assert(defs.take(i + 1).last() == fields@[i as int]@);
            assert(all == all_keys(defs.take(i + 1)));
            lemma_all_keys_prefix(defs, i + 1);
            assert(keys(attrs@)[0] == attrs.key@);
            assert(all.take(before.len() as int + 1) =~= before.push((attrs.key@, attrs.key_span)));
        }
        if let Err(error) = meet_key(&mut seen, &attrs.key, attrs.key_span) {
            proof {
                lemma_repeated(all, before.len() as int + 1);
                lemma_repeated(all_keys(defs), all.len() as int);
            }
            return Err(error);
        }
        let mut j: usize = 0;
        while j < attrs.aliases.len()
            invariant
                i < fields.len(),
                defs == defs_view(fields@),
                j <= attrs.aliases.len(),
                more == placed_keys(attrs@),
                all == before + more,
                all_keys(defs).len() >= all.len(),
                all_keys(defs).take(all.len() as int) == all,
                seen_view(seen@) == all.take(before.len() + 1 + j),
                repeated(seen_view(seen@)) is None,
            decreases attrs.aliases.len() - j,
        {
            proof {
                assert(keys(attrs@)[j + 1] == attrs.aliases@[j as int]@);
                assert(all.take(before.len() + 2 + j) =~= all.take(before.len() + 1 + j).push(
                    (attrs.aliases@[j as int]@, attrs.key_span),
                ));
            }
            if let Err(error) = meet_key(&mut seen, &attrs.aliases[j], attrs.key_span) {
                proof {
                    lemma_repeated(all, before.len() + 2 + j);
                    lemma_repeated(all_keys(defs), all.len() as int);
                }
                return Err(error);
            }
            j = j + 1;
        }
        proof {
            assert(all.take(before.len() + 1 + j) =~= all);
        }
        i = i + 1;
    }
    proof {
        assert(defs.take(i as int) =~= defs);
    }
    Ok(())
}

} // verus!
