//! The least index at which a predicate holds, and how loops establish it.

use vstd::prelude::*;

verus! {

/// The least `j` in `0..n` at which `p` holds, if there is one.
pub open spec fn least_index(n: int, p: spec_fn(int) -> bool) -> Option<int> {
    if exists|j: int| 0 <= j < n && #[trigger] p(j) {
        Some(choose|j: int| 0 <= j < n && #[trigger] p(j) && forall|i: int| 0 <= i < j ==> !#[trigger] p(i))
    } else {
        None
    }
}

/// A hit with no hit before it is the least index.
pub proof fn lemma_least_index_is(n: int, p: spec_fn(int) -> bool, j: int)
    requires
        0 <= j < n,
        p(j),
        forall|i: int| 0 <= i < j ==> !#[trigger] p(i),
    ensures
        least_index(n, p) == Some(j),
{
    let w = choose|w: int| 0 <= w < n && #[trigger] p(w) && forall|i: int| 0 <= i < w ==> !#[trigger] p(i);
    assert(0 <= w < n && p(w) && forall|i: int| 0 <= i < w ==> !#[trigger] p(i));
    if w < j {
        assert(!p(w));
    }
    if j < w {
        assert(!p(j));
    }
}

/// No hit in range means no least index.
pub proof fn lemma_least_index_none(n: int, p: spec_fn(int) -> bool)
    requires
        forall|i: int| 0 <= i < n ==> !#[trigger] p(i),
    ensures
        least_index(n, p) == None::<int>,
{
}

/// A hit in range means there is a least index.
pub proof fn lemma_least_index_exists_from(n: int, p: spec_fn(int) -> bool, j: int)
    requires
        0 <= j < n,
        p(j),
    ensures
        least_index(n, p) is Some,
{
}

/// The least index, when there is one, is a hit with no hit before it.
pub proof fn lemma_least_index_found(n: int, p: spec_fn(int) -> bool)
    requires
        least_index(n, p) is Some,
    ensures
        0 <= least_index(n, p)->0 < n,
        p(least_index(n, p)->0),
        forall|i: int| 0 <= i < least_index(n, p)->0 ==> !#[trigger] p(i),
{
    // a least hit exists by well-foundedness of the naturals
    let j0 = choose|j: int| 0 <= j < n && #[trigger] p(j);
    lemma_least_exists(n, p, j0);
}

proof fn lemma_least_exists(n: int, p: spec_fn(int) -> bool, j: int)
    requires
        0 <= j < n,
        p(j),
    ensures
        exists|w: int| 0 <= w < n && #[trigger] p(w) && forall|i: int| 0 <= i < w ==> !#[trigger] p(i),
    decreases j,
{
    if exists|i: int| 0 <= i < j && #[trigger] p(i) {
        let i = choose|i: int| 0 <= i < j && #[trigger] p(i);
        lemma_least_exists(n, p, i);
    } else {
        assert(0 <= j < n && p(j) && forall|i: int| 0 <= i < j ==> !#[trigger] p(i));
    }
}

} // verus!
