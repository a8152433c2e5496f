//! Bounded windows over sequences: the newest elements of a history.
use vstd::prelude::*;

verus! {

/// The number of elements of a sequence of length `len` that a window of size `at_most` keeps.
pub open spec fn kept(len: int, at_most: int) -> int {
    if len <= at_most {
        len
    } else {
        at_most
    }
}

/// The last `at_most` elements of `s`, or all of them when there are no more than that.
pub fn last_elements<T>(s: &[T], at_most: usize) -> (r: &[T])
    ensures
        r@ == s@.subrange(s@.len() - kept(s@.len() as int, at_most as int), s@.len() as int),
{
    if s.len() <= at_most {
        assert(s@.subrange(0, s@.len() as int) =~= s@);
        s
    } else {
        &s[s.len() - at_most..s.len()]
    }
}

/// The last `at_most - 1` elements of `s`, cloned, followed by `v`: a window of at most
/// `at_most` elements with `v` as the newest.
pub fn add_at_most<T: Clone>(s: &[T], v: T, at_most: usize) -> (r: Vec<T>)
    requires
        at_most >= 1,
    ensures
        r@.len() == kept(s@.len() as int, at_most - 1) + 1,
        s@.len() >= at_most - 1 ==> r@.len() == at_most,
        s@.len() < at_most - 1 ==> r@.len() == s@.len() + 1,
        forall|i: int|
            0 <= i < r@.len() - 1 ==> cloned::<T>(
                s@[s@.len() - kept(s@.len() as int, at_most - 1) + i],
                #[trigger] r@[i],
            ),
        r@[r@.len() - 1] == v,
        (forall|a: T, b: T| #[trigger] cloned::<T>(a, b) ==> a == b) ==> r@ == s@.subrange(
            s@.len() - kept(s@.len() as int, at_most - 1),
            s@.len() as int,
        ).push(v),
{
    let last = last_elements(s, at_most - 1);
    let mut r: Vec<T> = Vec::new();
    let n = last.len();
    for i in 0..n
        invariant
            n == last@.len(),
            last@ == s@.subrange(s@.len() - kept(s@.len() as int, at_most - 1), s@.len() as int),
            r@.len() == i,
            forall|j: int| 0 <= j < i ==> cloned::<T>(last@[j], #[trigger] r@[j]),
    {
        r.push(last[i].clone());
    }
    r.push(v);
    proof {
        if forall|a: T, b: T| #[trigger] cloned::<T>(a, b) ==> a == b {
            assert(r@ =~= last@.push(v)) by {
                assert forall|j: int| 0 <= j < last@.len() implies r@[j] == last@[j] by {
                    assert(cloned::<T>(last@[j], r@[j]));
                }
            }
        }
    }
    r
}

/// A window that holds at most `at_most` elements keeps that bound when an element is added:
/// below the bound nothing is dropped, at the bound only the oldest element is.
pub proof fn law_window_bound(len: int, at_most: int)
    requires
        at_most >= 1,
        0 <= len <= at_most,
    ensures
        kept(len, at_most - 1) + 1 <= at_most,
        len < at_most ==> kept(len, at_most - 1) == len,
        len == at_most ==> kept(len, at_most - 1) == len - 1,
{
}

} // verus!
