//! Small numeric helpers shared across the kernel.

use vstd::prelude::*;

verus! {

use crate::fx::{fx_near, Scalar};

/// Equality within the kernel's geometric tolerance.
pub fn equal(a: Scalar, b: Scalar) -> (r: bool)
    ensures
        r == fx_near(a@, b@),
{
    a.near(b)
}

/// `number` forced into `[min, max]`.
pub fn clamp(number: Scalar, min: Scalar, max: Scalar) -> (r: Scalar)
    ensures
        r@ == if number@ > max@ {
            max@
        } else if number@ < min@ {
            min@
        } else {
            number@
        },
{
    if number.gt(max) {
        max
    } else if number.lt(min) {
        min
    } else {
        number
    }
}

/// Smallest scalar in a non-empty slice.
pub fn min(xs: &[Scalar]) -> (r: Scalar)
    requires
        xs@.len() > 0,
    ensures
        forall|i: int| 0 <= i < xs@.len() ==> r@ <= xs@[i]@,
        exists|i: int| 0 <= i < xs@.len() && r@ == xs@[i]@,
{
    let mut r = xs[0];
    let mut k: usize = 1;
    while k < xs.len()
        invariant
            1 <= k <= xs@.len(),
            forall|i: int| 0 <= i < k ==> r@ <= xs@[i]@,
            exists|i: int| 0 <= i < k && r@ == xs@[i]@,
        decreases xs@.len() - k,
    {
        if xs[k].lt(r) {
            r = xs[k];
        }
        k = k + 1;
    }
    r
}

/// Largest scalar in a non-empty slice.
pub fn max(xs: &[Scalar]) -> (r: Scalar)
    requires
        xs@.len() > 0,
    ensures
        forall|i: int| 0 <= i < xs@.len() ==> r@ >= xs@[i]@,
        exists|i: int| 0 <= i < xs@.len() && r@ == xs@[i]@,
{
    let mut r = xs[0];
    let mut k: usize = 1;
    while k < xs.len()
        invariant
            1 <= k <= xs@.len(),
            forall|i: int| 0 <= i < k ==> r@ >= xs@[i]@,
            exists|i: int| 0 <= i < k && r@ == xs@[i]@,
        decreases xs@.len() - k,
    {
        if xs[k].gt(r) {
            r = xs[k];
        }
        k = k + 1;
    }
    r
}

} // verus!
