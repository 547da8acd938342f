//! First and last positions in a sequence at which a predicate holds.

use vstd::prelude::*;

verus! {

/// The least index of `s` at which `p` holds.
pub open spec fn first_index<T>(s: Seq<T>, p: spec_fn(T) -> bool) -> Option<int>
    decreases s.len(),
{
    if s.len() == 0 {
        None
    } else {
        match first_index(s.drop_last(), p) {
            Some(i) => Some(i),
            None => if p(s.last()) {
                Some(s.len() - 1)
            } else {
                None
            },
        }
    }
}

/// The greatest index of `s` at which `p` holds.
pub open spec fn last_index<T>(s: Seq<T>, p: spec_fn(T) -> bool) -> Option<int>
    decreases s.len(),
{
    if s.len() == 0 {
        None
    } else if p(s.last()) {
        Some(s.len() - 1)
    } else {
        last_index(s.drop_last(), p)
    }
}

/// `first_index` returns an index at which `p` holds and before which it
/// does not; it returns `None` only where `p` holds nowhere.
pub proof fn lemma_first_index<T>(s: Seq<T>, p: spec_fn(T) -> bool)
    ensures
        match first_index(s, p) {
            Some(k) => 0 <= k < s.len() && p(s[k]) && forall|j: int| 0 <= j < k ==> !p(s[j]),
            None => forall|j: int| 0 <= j < s.len() ==> !p(s[j]),
        },
    decreases s.len(),
{
    if s.len() > 0 {
        let t = s.drop_last();
        lemma_first_index(t, p);
        assert forall|j: int| 0 <= j < t.len() implies (p(s[j]) <==> p(t[j])) by {
            assert(t[j] == s[j]);
        }
    }
}

/// An index at which `p` holds and before which it does not is what
/// `first_index` returns.
pub proof fn lemma_first_index_is<T>(s: Seq<T>, p: spec_fn(T) -> bool, k: int)
    requires
        0 <= k < s.len(),
        p(s[k]),
        forall|j: int| 0 <= j < k ==> !p(s[j]),
    ensures
        first_index(s, p) == Some(k),
{
    lemma_first_index(s, p);
}

/// Where `p` holds nowhere, `first_index` returns `None`.
pub proof fn lemma_first_index_none<T>(s: Seq<T>, p: spec_fn(T) -> bool)
    requires
        forall|j: int| 0 <= j < s.len() ==> !p(s[j]),
    ensures
        first_index(s, p) is None,
{
    lemma_first_index(s, p);
}

/// `last_index` returns an index at which `p` holds and after which it does
/// not; it returns `None` only where `p` holds nowhere.
pub proof fn lemma_last_index<T>(s: Seq<T>, p: spec_fn(T) -> bool)
    ensures
        match last_index(s, p) {
            Some(k) => 0 <= k < s.len() && p(s[k]) && forall|j: int|
                k < j < s.len() ==> !p(s[j]),
            None => forall|j: int| 0 <= j < s.len() ==> !p(s[j]),
        },
    decreases s.len(),
{
    if s.len() > 0 {
        let t = s.drop_last();
        lemma_last_index(t, p);
        assert forall|j: int| 0 <= j < t.len() implies (p(s[j]) <==> p(t[j])) by {
            assert(t[j] == s[j]);
        }
    }
}

/// An index at which `p` holds and after which it does not is what
/// `last_index` returns.
pub proof fn lemma_last_index_is<T>(s: Seq<T>, p: spec_fn(T) -> bool, k: int)
    requires
        0 <= k < s.len(),
        p(s[k]),
        forall|j: int| k < j < s.len() ==> !p(s[j]),
    ensures
        last_index(s, p) == Some(k),
{
    lemma_last_index(s, p);
}

/// Where `p` holds nowhere, `last_index` returns `None`.
pub proof fn lemma_last_index_none<T>(s: Seq<T>, p: spec_fn(T) -> bool)
    requires
        forall|j: int| 0 <= j < s.len() ==> !p(s[j]),
    ensures
        last_index(s, p) is None,
{
    lemma_last_index(s, p);
}

} // verus!
