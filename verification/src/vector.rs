//! Arithmetic on vectors: slices of `i32`, seen as sequences.

use crate::arith::{add_wrap, lemma_wrap_add, mul_wrap, wrap};
use crate::error::LinalgError;
use vstd::prelude::*;

verus! {

/// The element-wise sum of `a` and `b`, which have one length.
pub open spec fn sum_of(a: Seq<i32>, b: Seq<i32>) -> Seq<i32> {
    Seq::new(a.len(), |i: int| wrap(a[i] + b[i]))
}

/// Every element of `a` multiplied by `k`.
pub open spec fn scaled(a: Seq<i32>, k: i32) -> Seq<i32> {
    Seq::new(a.len(), |i: int| wrap(a[i] * k))
}

/// The element-wise difference: `a` plus the negation of `b`.
pub open spec fn diff_of(a: Seq<i32>, b: Seq<i32>) -> Seq<i32> {
    sum_of(a, scaled(b, -1i32))
}

/// The sum of the element-wise products of `a` and `b`, as a mathematical
/// integer.
pub open spec fn dot(a: Seq<i32>, b: Seq<i32>) -> int
    decreases a.len(),
{
    if a.len() == 0 {
        0
    } else {
        dot(a.drop_last(), b.drop_last()) + a.last() * b.last()
    }
}

/// The error that two vectors of different lengths give.
pub open spec fn size_mismatch(a: Seq<i32>, b: Seq<i32>) -> LinalgError {
    LinalgError::SizeMismatch { left: a.len() as usize, right: b.len() as usize }
}

/// Each element of a difference is the wrapped difference of the elements.
pub proof fn lemma_diff_entries(a: Seq<i32>, b: Seq<i32>, i: int)
    requires
        a.len() == b.len(),
        0 <= i < a.len(),
    ensures
        diff_of(a, b).len() == a.len(),
        diff_of(a, b)[i] == wrap(a[i] - b[i]),
{
    lemma_wrap_add(a[i] as int, b[i] * -1);
}

/// An empty vector with room for `size` elements.
pub fn new(size: usize) -> (v: Vec<i32>)
    ensures
        v@.len() == 0,
{
    Vec::with_capacity(size)
}

/// Succeeds exactly when the two vectors have one length.
pub fn equal_size(vec1: &[i32], vec2: &[i32]) -> (r: Result<(), LinalgError>)
    ensures
        vec1@.len() == vec2@.len() ==> r is Ok,
        vec1@.len() != vec2@.len() ==> r == Err::<(), LinalgError>(size_mismatch(vec1@, vec2@)),
{
    if vec1.len() == vec2.len() {
        return Ok(());
    }
    Err(LinalgError::SizeMismatch { left: vec1.len(), right: vec2.len() })
}

/// The element-wise sum of two vectors of one length.
pub fn sum(vec1: &[i32], vec2: &[i32]) -> (r: Result<Vec<i32>, LinalgError>)
    ensures
        match r {
            Ok(v) => vec1@.len() == vec2@.len() && v@ == sum_of(vec1@, vec2@),
            Err(e) => vec1@.len() != vec2@.len() && e == size_mismatch(vec1@, vec2@),
        },
{
    match equal_size(vec1, vec2) {
        Ok(()) => {},
        Err(e) => {
            return Err(e);
        },
    }
    let n: usize = vec1.len();
    let mut res: Vec<i32> = new(n);
    let mut i: usize = 0;
    while i < n
        invariant
            n == vec1@.len(),
            n == vec2@.len(),
            i <= n,
            res@.len() == i,
            forall|k: int| 0 <= k < i ==> res@[k] == wrap(vec1@[k] + vec2@[k]),
        decreases n - i,
    {
        res.push(add_wrap(vec1[i], vec2[i]));
        i = i + 1;
    }
    assert(res@ =~= sum_of(vec1@, vec2@));
    Ok(res)
}

/// The element-wise difference of two vectors of one length.
pub fn diff(min: &[i32], subs: &[i32]) -> (r: Result<Vec<i32>, LinalgError>)
    ensures
        match r {
            Ok(v) => min@.len() == subs@.len() && v@ == diff_of(min@, subs@),
            Err(e) => min@.len() != subs@.len() && e == size_mismatch(min@, subs@),
        },
{
    let negated: Vec<i32> = scalar_mult(subs, -1);
    sum(min, negated.as_slice())
}

/// Every element of `vec` multiplied by `scalar`.
pub fn scalar_mult(vec: &[i32], scalar: i32) -> (r: Vec<i32>)
    ensures
        r@ == scaled(vec@, scalar),
{
    let n: usize = vec.len();
    let mut res: Vec<i32> = new(n);
    let mut i: usize = 0;
    while i < n
        invariant
            n == vec@.len(),
            i <= n,
            res@.len() == i,
            forall|k: int| 0 <= k < i ==> res@[k] == wrap(vec@[k] * scalar),
        decreases n - i,
    {
        res.push(mul_wrap(vec[i], scalar));
        i = i + 1;
    }
    assert(res@ =~= scaled(vec@, scalar));
    res
}

/// The dot product of two vectors of one length.
pub fn dot_prod(vec1: &[i32], vec2: &[i32]) -> (r: Result<i32, LinalgError>)
    ensures
        match r {
            Ok(d) => vec1@.len() == vec2@.len() && d == wrap(dot(vec1@, vec2@)),
            Err(e) => vec1@.len() != vec2@.len() && e == size_mismatch(vec1@, vec2@),
        },
{
    match equal_size(vec1, vec2) {
        Ok(()) => {},
        Err(e) => {
            return Err(e);
        },
    }
    let n: usize = vec1.len();
    let mut acc: i32 = 0;
    let mut i: usize = 0;
    while i < n
        invariant
            n == vec1@.len(),
            n == vec2@.len(),
            i <= n,
            acc == wrap(dot(vec1@.take(i as int), vec2@.take(i as int))),
        decreases n - i,
    {
        proof {
            let a: Seq<i32> = vec1@.take(i + 1);
            let b: Seq<i32> = vec2@.take(i + 1);
            assert(a.drop_last() =~= vec1@.take(i as int));
            assert(b.drop_last() =~= vec2@.take(i as int));
            lemma_wrap_add(dot(a.drop_last(), b.drop_last()), vec1@[i as int] * vec2@[i as int]);
        }
        acc = add_wrap(acc, mul_wrap(vec1[i], vec2[i]));
        i = i + 1;
    }
    assert(vec1@.take(n as int) =~= vec1@);
    assert(vec2@.take(n as int) =~= vec2@);
    Ok(acc)
}

} // verus!
