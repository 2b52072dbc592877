use vstd::prelude::*;

verus! {

/// The least index `k` in `i .. n` for which `p(k)` holds, if any.
pub open spec fn first_index_from(n: int, p: spec_fn(int) -> bool, i: int) -> Option<int>
    decreases n - i,
{
    if i >= n {
        None
    } else if p(i) {
        Some(i)
    } else {
        first_index_from(n, p, i + 1)
    }
}

/// The least index `k` in `0 .. n` for which `p(k)` holds, if any.
pub open spec fn first_index(n: int, p: spec_fn(int) -> bool) -> Option<int> {
    first_index_from(n, p, 0)
}

proof fn lemma_first_index_from_found(n: int, p: spec_fn(int) -> bool, i: int, k: int)
    requires
        0 <= i <= k < n,
        p(k),
        forall|j: int| i <= j < k ==> !#[trigger] p(j),
    ensures
        first_index_from(n, p, i) == Some(k),
    decreases k - i,
{
    if i < k {
        lemma_first_index_from_found(n, p, i + 1, k);
    }
}

proof fn lemma_first_index_from_none(n: int, p: spec_fn(int) -> bool, i: int)
    requires
        0 <= i,
        forall|j: int| i <= j < n ==> !#[trigger] p(j),
    ensures
        first_index_from(n, p, i) is None,
    decreases n - i,
{
    if i < n {
        lemma_first_index_from_none(n, p, i + 1);
    }
}

/// A search that stops at `k` because `p(k)` holds and held nowhere before
/// has found the first index.
pub proof fn lemma_first_index_found(n: int, p: spec_fn(int) -> bool, k: int)
    requires
        0 <= k < n,
        p(k),
        forall|j: int| 0 <= j < k ==> !#[trigger] p(j),
    ensures
        first_index(n, p) == Some(k),
{
    lemma_first_index_from_found(n, p, 0, k);
}

/// A search that finds `p` nowhere below `n` has no first index.
pub proof fn lemma_first_index_none(n: int, p: spec_fn(int) -> bool)
    requires
        forall|j: int| 0 <= j < n ==> !#[trigger] p(j),
    ensures
        first_index(n, p) is None,
{
    lemma_first_index_from_none(n, p, 0);
}

/// The first index, when there is one, is an index where `p` holds and
/// below which it holds nowhere; there is none exactly when `p` holds
/// nowhere below `n`.
pub proof fn lemma_first_index_characterized(n: int, p: spec_fn(int) -> bool)
    ensures
        first_index(n, p) is None <==> forall|j: int| 0 <= j < n ==> !#[trigger] p(j),
        first_index(n, p) matches Some(k) ==> 0 <= k < n && p(k) && forall|j: int|
            0 <= j < k ==> !#[trigger] p(j),
{
    lemma_first_index_from_characterized(n, p, 0);
}

proof fn lemma_first_index_from_characterized(n: int, p: spec_fn(int) -> bool, i: int)
    requires
        0 <= i,
    ensures
        first_index_from(n, p, i) is None <==> forall|j: int| i <= j < n ==> !#[trigger] p(j),
        first_index_from(n, p, i) matches Some(k) ==> i <= k < n && p(k) && forall|j: int|
            i <= j < k ==> !#[trigger] p(j),
    decreases n - i,
{
    if i < n && !p(i) {
        lemma_first_index_from_characterized(n, p, i + 1);
    }
}

} // verus!
