//! The first element of a sequence with a property.
use vstd::prelude::*;

verus! {

/// The index of the first element of `s` with property `p`, if any.
pub open spec fn first_index<T>(s: Seq<T>, p: spec_fn(T) -> bool) -> Option<int> {
    if exists|i: int| 0 <= i < s.len() && #[trigger] p(s[i]) {
        Some(choose|i: int| 0 <= i < s.len() && #[trigger] p(s[i]) && forall|j: int| 0 <= j < i ==> !p(s[j]))
    } else {
        None
    }
}

/// An element with the property, after none with it, is the first one.
pub proof fn lemma_first_index<T>(s: Seq<T>, p: spec_fn(T) -> bool, i: int)
    requires
        0 <= i < s.len(),
        p(s[i]),
        forall|j: int| 0 <= j < i ==> !p(#[trigger] s[j]),
    ensures
        first_index(s, p) == Some(i),
{
    assert(0 <= i < s.len() && p(s[i]) && forall|j: int| 0 <= j < i ==> !p(s[j]));
    let k = choose|k: int| 0 <= k < s.len() && #[trigger] p(s[k]) && forall|j: int| 0 <= j < k ==> !p(s[j]);
    if k < i {
        assert(!p(s[k]));
    }
    if i < k {
        assert(!p(s[i]));
    }
}

/// The first element with the property is an element with it.
pub proof fn lemma_first_index_in<T>(s: Seq<T>, p: spec_fn(T) -> bool)
    ensures
        first_index(s, p) matches Some(i) ==> 0 <= i < s.len() && p(s[i]),
{
    if exists|i: int| 0 <= i < s.len() && #[trigger] p(s[i]) {
        let i = choose|i: int| 0 <= i < s.len() && #[trigger] p(s[i]);
        lemma_least_index(s, p, i);
    }
}

/// Where an element has the property, a first one has it.
proof fn lemma_least_index<T>(s: Seq<T>, p: spec_fn(T) -> bool, i: int)
    requires
        0 <= i < s.len(),
        p(s[i]),
    ensures
        exists|k: int| 0 <= k < s.len() && #[trigger] p(s[k]) && forall|j: int| 0 <= j < k ==> !p(s[j]),
    decreases i,
{
    if exists|j: int| 0 <= j < i && #[trigger] p(s[j]) {
        let j = choose|j: int| 0 <= j < i && #[trigger] p(s[j]);
        lemma_least_index(s, p, j);
    } else {
        assert(forall|j: int| 0 <= j < i ==> !p(#[trigger] s[j]));
    }
}

/// Two sequences whose elements have the property at the same places have
/// their first element with it at the same place.
pub proof fn lemma_first_index_same<T>(s1: Seq<T>, s2: Seq<T>, p: spec_fn(T) -> bool)
    requires
        s1.len() == s2.len(),
        forall|j: int| 0 <= j < s1.len() ==> p(#[trigger] s1[j]) == p(s2[j]),
    ensures
        first_index(s1, p) == first_index(s2, p),
{
    lemma_first_index_in(s1, p);
    match first_index(s1, p) {
        Some(i) => {
            assert forall|j: int| 0 <= j < i implies !p(#[trigger] s2[j]) by {
                if p(s2[j]) {
                    assert(p(s1[j]));
                    lemma_first_index_in(s2, p);
                    assert(first_index(s1, p) == Some(i));
                    first_index_is_first(s1, p, i, j);
                }
            }
            lemma_first_index(s2, p, i);
        },
        None => {
            assert forall|j: int| 0 <= j < s2.len() implies !p(#[trigger] s2[j]) by {
                if p(s2[j]) {
                    assert(p(s1[j]));
                    assert(0 <= j < s1.len() && p(s1[j]));
                }
            }
            lemma_no_index(s2, p);
        },
    }
}

/// No element before the first one with the property has it.
pub proof fn first_index_is_first<T>(s: Seq<T>, p: spec_fn(T) -> bool, i: int, j: int)
    requires
        first_index(s, p) == Some(i),
        0 <= j < i,
    ensures
        !p(s[j]),
{
    if exists|k: int| 0 <= k < s.len() && #[trigger] p(s[k]) {
        let k = choose|k: int| 0 <= k < s.len() && #[trigger] p(s[k]);
        lemma_least_index(s, p, k);
    }
}

/// Without an element with the property there is no first one.
pub proof fn lemma_no_index<T>(s: Seq<T>, p: spec_fn(T) -> bool)
    requires
        forall|j: int| 0 <= j < s.len() ==> !p(#[trigger] s[j]),
    ensures
        first_index(s, p) is None,
{
}

} // verus!
