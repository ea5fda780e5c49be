//! Association lists from names to values.
//!
//! The store's transaction and the registry both keep their entries as a
//! vector of `(String, value)` pairs with pairwise-distinct names, and state
//! their contracts over the `Map` those entries denote.  This module defines
//! that denotation - with each value read through a caller-chosen `denote`
//! function - and proves how lookup, in-place replacement and appending act
//! on it.

use vstd::prelude::*;

verus! {

/// The map denoted by a sequence of `(name, value)` entries, each value read
/// through `denote`.  A later entry would shadow an earlier one with the same
/// name; the holders of such sequences keep names distinct, so shadowing
/// never arises.
pub open spec fn assoc_map<T, W>(s: Seq<(String, T)>, denote: spec_fn(T) -> W) -> Map<
    Seq<char>,
    W,
>
    decreases s.len(),
{
    if s.len() == 0 {
        Map::empty()
    } else {
        assoc_map(s.drop_last(), denote).insert(s.last().0@, denote(s.last().1))
    }
}

/// Pairwise-distinct entry names.
pub open spec fn distinct_names<T>(s: Seq<(String, T)>) -> bool {
    forall|i: int, j: int| 0 <= i < j < s.len() ==> s[i].0@ != s[j].0@
}

/// A name is in the denoted map exactly when some entry carries it.
pub proof fn lemma_assoc_contains<T, W>(
    s: Seq<(String, T)>,
    denote: spec_fn(T) -> W,
    name: Seq<char>,
)
    ensures
        assoc_map(s, denote).contains_key(name) <==> exists|i: int|
            0 <= i < s.len() && s[i].0@ == name,
    decreases s.len(),
{
    if s.len() > 0 {
        let t = s.drop_last();
        lemma_assoc_contains(t, denote, name);
        if assoc_map(s, denote).contains_key(name) {
            if name == s.last().0@ {
                assert(s[s.len() - 1].0@ == name);
            } else {
                let i = choose|i: int| 0 <= i < t.len() && t[i].0@ == name;
                assert(s[i].0@ == name);
            }
        }
        if exists|i: int| 0 <= i < s.len() && s[i].0@ == name {
            let i = choose|i: int| 0 <= i < s.len() && s[i].0@ == name;
            if i < s.len() - 1 {
                assert(t[i].0@ == name);
            }
        }
    }
}

/// Under distinct names, the denoted map sends the `i`-th entry's name to the
/// `i`-th entry's value.
pub proof fn lemma_assoc_get<T, W>(s: Seq<(String, T)>, denote: spec_fn(T) -> W, i: int)
    requires
        distinct_names(s),
        0 <= i < s.len(),
    ensures
        assoc_map(s, denote).contains_key(s[i].0@),
        assoc_map(s, denote)[s[i].0@] == denote(s[i].1),
    decreases s.len(),
{
    if i < s.len() - 1 {
        lemma_assoc_get(s.drop_last(), denote, i);
        assert(s[i].0@ != s.last().0@);
    }
}

/// Replacing the `i`-th entry by one with the same name inserts the new value
/// into the denoted map and keeps the names distinct.
pub proof fn lemma_assoc_update<T, W>(
    s: Seq<(String, T)>,
    denote: spec_fn(T) -> W,
    i: int,
    e: (String, T),
)
    requires
        distinct_names(s),
        0 <= i < s.len(),
        e.0@ == s[i].0@,
    ensures
        assoc_map(s.update(i, e), denote) == assoc_map(s, denote).insert(e.0@, denote(e.1)),
        distinct_names(s.update(i, e)),
    decreases s.len(),
{
    let s2 = s.update(i, e);
    assert forall|a: int, b: int| 0 <= a < b < s2.len() implies s2[a].0@ != s2[b].0@ by {
        assert(s2[a].0@ == s[a].0@);
        assert(s2[b].0@ == s[b].0@);
    }
    if i == s.len() - 1 {
        assert(s2.drop_last() =~= s.drop_last());
        assert(assoc_map(s2, denote) =~= assoc_map(s, denote).insert(e.0@, denote(e.1)));
    } else {
        lemma_assoc_update(s.drop_last(), denote, i, e);
        assert(s2.drop_last() =~= s.drop_last().update(i, e));
        assert(s[i].0@ != s.last().0@);
        assert(assoc_map(s2, denote) =~= assoc_map(s, denote).insert(e.0@, denote(e.1)));
    }
}

/// Appending an entry whose name no other entry carries inserts its value
/// into the denoted map and keeps the names distinct.
pub proof fn lemma_assoc_push<T, W>(s: Seq<(String, T)>, denote: spec_fn(T) -> W, e: (String, T))
    requires
        distinct_names(s),
        forall|i: int| 0 <= i < s.len() ==> s[i].0@ != e.0@,
    ensures
        assoc_map(s.push(e), denote) == assoc_map(s, denote).insert(e.0@, denote(e.1)),
        distinct_names(s.push(e)),
{
    assert(s.push(e).drop_last() =~= s);
    assert(s.push(e).last() == e);
}

} // verus!
