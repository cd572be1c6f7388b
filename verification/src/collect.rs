//! All-or-nothing extraction of repeated fields: a fallible per-item map
//! over a matched node sequence that keeps document order and propagates the
//! first failure.
use vstd::prelude::*;

use crate::errors::ErrorV;

verus! {

/// Maps a fallible extraction over a sequence: the results in order when
/// every item succeeds, otherwise the failure of the earliest failing item.
pub open spec fn map_all<A, B>(xs: Seq<A>, f: spec_fn(A) -> Result<B, ErrorV>) -> Result<
    Seq<B>,
    ErrorV,
>
    decreases xs.len(),
{
    if xs.len() == 0 {
        Ok(Seq::empty())
    } else {
        match map_all(xs.drop_last(), f) {
            Err(e) => Err(e),
            Ok(ys) => match f(xs.last()) {
                Err(e) => Err(e),
                Ok(y) => Ok(ys.push(y)),
            },
        }
    }
}

/// Unrolls `map_all` one item at a time over a growing prefix.
pub proof fn lemma_map_all_step<A, B>(xs: Seq<A>, f: spec_fn(A) -> Result<B, ErrorV>, i: int)
    requires
        0 <= i < xs.len(),
    ensures
        map_all(xs.take(i + 1), f) == (match map_all(xs.take(i), f) {
            Err(e) => Err::<Seq<B>, ErrorV>(e),
            Ok(ys) => match f(xs[i]) {
                Err(e) => Err::<Seq<B>, ErrorV>(e),
                Ok(y) => Ok::<Seq<B>, ErrorV>(ys.push(y)),
            },
        }),
{
    assert(xs.take(i + 1).drop_last() =~= xs.take(i));
    assert(xs.take(i + 1).last() == xs[i]);
}

/// A failure on some prefix is the failure of every longer prefix.
pub proof fn lemma_map_all_err_persists<A, B>(
    xs: Seq<A>,
    f: spec_fn(A) -> Result<B, ErrorV>,
    i: int,
    j: int,
)
    requires
        0 <= i <= j <= xs.len(),
        map_all(xs.take(i), f) is Err,
    ensures
        map_all(xs.take(j), f) == map_all(xs.take(i), f),
    decreases j - i,
{
    if i < j {
        lemma_map_all_err_persists(xs, f, i, j - 1);
        lemma_map_all_step(xs, f, j - 1);
    }
}

/// A successful map has one result per item.
pub proof fn lemma_map_all_len<A, B>(xs: Seq<A>, f: spec_fn(A) -> Result<B, ErrorV>)
    requires
        map_all(xs, f) is Ok,
    ensures
        map_all(xs, f)->Ok_0.len() == xs.len(),
    decreases xs.len(),
{
    if xs.len() > 0 {
        lemma_map_all_len(xs.drop_last(), f);
    }
}

/// In a successful map, the result at each position is the extraction of the
/// item at that position.
pub proof fn lemma_map_all_index<A, B>(xs: Seq<A>, f: spec_fn(A) -> Result<B, ErrorV>, i: int)
    requires
        map_all(xs, f) is Ok,
        0 <= i < xs.len(),
    ensures
        f(xs[i]) is Ok,
        map_all(xs, f)->Ok_0[i] == f(xs[i])->Ok_0,
    decreases xs.len(),
{
    lemma_map_all_len(xs, f);
    let prefix = xs.drop_last();
    if i == xs.len() - 1 {
        lemma_map_all_len(prefix, f);
    } else {
        lemma_map_all_len(prefix, f);
        lemma_map_all_index(prefix, f, i);
        assert(prefix[i] == xs[i]);
    }
}

} // verus!
