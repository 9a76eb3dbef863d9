//! Small helpers over vectors of copyable elements.

use vstd::prelude::*;

verus! {

/// A vector's view never exceeds the machine word range.
pub proof fn lemma_vec_len_bound<T>(v: &Vec<T>)
    ensures
        v@.len() <= usize::MAX,
{
    assert(vstd::std_specs::vec::spec_vec_len(v) == v@.len());
}

/// A fresh vector holding the first `n` elements of `v`.
pub fn copy_prefix<T: Copy>(v: &Vec<T>, n: usize) -> (r: Vec<T>)
    requires
        n <= v@.len(),
    ensures
        r@ == v@.take(n as int),
{
    let mut out: Vec<T> = Vec::new();
    let mut i: usize = 0;
    while i < n
        invariant
            i <= n <= v@.len(),
            out@ == v@.take(i as int),
        decreases n - i,
    {
        out.push(v[i]);
        assert(v@.take(i + 1 as int) == v@.take(i as int).push(v@[i as int]));
        i = i + 1;
    }
    out
}

/// A fresh vector holding all elements of `v`.
pub fn copy_all<T: Copy>(v: &Vec<T>) -> (r: Vec<T>)
    ensures
        r@ == v@,
{
    let r = copy_prefix(v, v.len());
    assert(v@.take(v@.len() as int) == v@);
    r
}

/// A fresh vector holding the elements `start .. start + cnt` of `v`.
pub fn copy_range<T: Copy>(v: &Vec<T>, start: usize, cnt: usize) -> (r: Vec<T>)
    requires
        start + cnt <= v@.len(),
    ensures
        r@ == v@.subrange(start as int, start + cnt),
{
    let n = v.len();
    let mut out: Vec<T> = Vec::new();
    let mut i: usize = 0;
    while i < cnt
        invariant
            i <= cnt,
            start + cnt <= n,
            n == v@.len(),
            out@ == v@.subrange(start as int, start + i),
        decreases cnt - i,
    {
        out.push(v[start + i]);
        assert(v@.subrange(start as int, start + i + 1) == v@.subrange(
            start as int,
            start + i,
        ).push(v@[start + i]));
        i = i + 1;
    }
    out
}

/// A vector holding `n` copies of `x`.
pub fn filled<T: Copy>(x: T, n: usize) -> (r: Vec<T>)
    ensures
        r@.len() == n,
        forall|i: int| 0 <= i < n ==> r@[i] == x,
{
    let mut out: Vec<T> = Vec::new();
    let mut i: usize = 0;
    while i < n
        invariant
            i <= n,
            out@.len() == i,
            forall|j: int| 0 <= j < i ==> out@[j] == x,
        decreases n - i,
    {
        out.push(x);
        i = i + 1;
    }
    out
}

} // verus!
