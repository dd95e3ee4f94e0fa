//! Small helpers on vectors of plain values.

use vstd::prelude::*;

verus! {

/// A copy of `items`.
pub fn copy_vec<T: Copy>(items: &Vec<T>) -> (r: Vec<T>)
    ensures
        r@ == items@,
{
    let mut r: Vec<T> = Vec::new();
    let mut i: usize = 0;
    while i < items.len()
        invariant
            0 <= i <= items.len(),
            r@ == items@.take(i as int),
        decreases items.len() - i,
    {
        r.push(items[i]);
        assert(items@.take(i + 1) =~= items@.take(i as int).push(items@[i as int]));
        i += 1;
    }
    assert(items@.take(items.len() as int) =~= items@);
    r
}

/// `true` when the two vectors hold equal items in the same order.
pub fn vec_eq<T: crate::payload::Payload>(a: &Vec<T>, b: &Vec<T>) -> (r: bool)
    ensures
        r == (a@ == b@),
{
    if a.len() != b.len() {
        return false;
    }
    let mut i: usize = 0;
    while i < a.len()
        invariant
            a.len() == b.len(),
            0 <= i <= a.len(),
            forall|j: int| 0 <= j < i ==> a@[j] == b@[j],
        decreases a.len() - i,
    {
        if !a[i].same(&b[i]) {
            return false;
        }
        i += 1;
    }
    assert(a@ =~= b@);
    true
}

/// The texts of a sequence of strings.
pub open spec fn texts(strings: Seq<String>) -> Seq<Seq<char>> {
    Seq::new(strings.len(), |i: int| strings[i]@)
}

/// A copy of `items`.
pub fn copy_strings(items: &Vec<String>) -> (r: Vec<String>)
    ensures
        r@ == items@,
{
    let mut r: Vec<String> = Vec::new();
    let mut i: usize = 0;
    while i < items.len()
        invariant
            0 <= i <= items.len(),
            r@ == items@.take(i as int),
        decreases items.len() - i,
    {
        r.push(items[i].clone());
        assert(items@.take(i + 1) =~= items@.take(i as int).push(items@[i as int]));
        i += 1;
    }
    assert(items@.take(items.len() as int) =~= items@);
    r
}

/// `true` when the two vectors hold the same texts in the same order.
pub fn strings_eq(a: &Vec<String>, b: &Vec<String>) -> (r: bool)
    ensures
        r == (texts(a@) == texts(b@)),
{
    if a.len() != b.len() {
        assert(texts(a@).len() != texts(b@).len());
        return false;
    }
    let mut i: usize = 0;
    while i < a.len()
        invariant
            a.len() == b.len(),
            0 <= i <= a.len(),
            forall|j: int| 0 <= j < i ==> a@[j]@ == b@[j]@,
        decreases a.len() - i,
    {
        if a[i] != b[i] {
            assert(texts(a@)[i as int] != texts(b@)[i as int]);
            return false;
        }
        i += 1;
    }
    assert(texts(a@) =~= texts(b@));
    true
}

/// The values of the results where all succeed, or else the error of the
/// first that fails.
pub open spec fn collect<T, E>(results: Seq<Result<T, E>>) -> Result<Seq<T>, E>
    decreases results.len(),
{
    if results.len() == 0 {
        Ok(Seq::empty())
    } else {
        match collect(results.drop_last()) {
            Err(e) => Err(e),
            Ok(front) => match results.last() {
                Err(e) => Err(e),
                Ok(value) => Ok(front.push(value)),
            },
        }
    }
}

/// Where every result succeeds, `collect` gives their values in order.
pub proof fn lemma_collect_ok<T, E>(results: Seq<Result<T, E>>)
    requires
        forall|i: int| 0 <= i < results.len() ==> (#[trigger] results[i]) is Ok,
    ensures
        collect(results) == Ok::<Seq<T>, E>(Seq::new(results.len(), |i: int| results[i]->Ok_0)),
    decreases results.len(),
{
    if results.len() > 0 {
        let front = results.drop_last();
        lemma_collect_ok(front);
        assert(Seq::new(front.len(), |i: int| front[i]->Ok_0).push(results.last()->Ok_0)
            =~= Seq::new(results.len(), |i: int| results[i]->Ok_0));
    } else {
        assert(Seq::<T>::empty() =~= Seq::new(results.len(), |i: int| results[i]->Ok_0));
    }
}

/// Where `collect` succeeds, every result succeeds, and the values are
/// theirs in order.
pub proof fn lemma_collect_values<T, E>(results: Seq<Result<T, E>>)
    requires
        collect(results) is Ok,
    ensures
        collect(results)->Ok_0.len() == results.len(),
        forall|i: int|
            0 <= i < results.len() ==> (#[trigger] results[i]) == Ok::<T, E>(
                collect(results)->Ok_0[i],
            ),
    decreases results.len(),
{
    if results.len() > 0 {
        let front = results.drop_last();
        lemma_collect_values(front);
        assert forall|i: int| 0 <= i < results.len() implies (#[trigger] results[i]) == Ok::<
            T,
            E,
        >(collect(results)->Ok_0[i]) by {
            if i < front.len() {
                assert(front[i] == results[i]);
            }
        }
    }
}

/// A failure among the first `k` results is the failure of the whole.
pub proof fn lemma_collect_prefix_err<T, E>(results: Seq<Result<T, E>>, k: int)
    requires
        0 <= k <= results.len(),
        collect(results.take(k)) is Err,
    ensures
        collect(results) == collect(results.take(k)),
    decreases results.len() - k,
{
    if k < results.len() {
        assert(results.take(k + 1).drop_last() =~= results.take(k));
        lemma_collect_prefix_err(results, k + 1);
    } else {
        assert(results.take(k) =~= results);
    }
}

} // verus!
