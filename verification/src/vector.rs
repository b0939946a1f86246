//! Reading a component vector as a point of 3-space.

use vstd::prelude::*;

verus! {

/// The `i`-th component of `a` when read as a point of 3-space: missing
/// components are `zero`, components past the third are ignored.
pub open spec fn component_or<T>(a: Seq<T>, i: int, zero: T) -> T {
    if 0 <= i < a.len() {
        a[i]
    } else {
        zero
    }
}

/// The three components `(x, y, z)` of `a`, as the cross product reads its
/// operands: a 2-component vector is `(x, y, zero)`, a 3-component vector is
/// taken as it is, and any other length takes its first three components,
/// `zero` standing for those it lacks.
pub fn padded_xyz<T: Copy>(a: &[T], zero: T) -> (r: (T, T, T))
    ensures
        r.0 == component_or(a@, 0, zero),
        r.1 == component_or(a@, 1, zero),
        r.2 == component_or(a@, 2, zero),
        r.0 == (if a@.len() > 0 { a@[0] } else { zero }),
        r.1 == (if a@.len() > 1 { a@[1] } else { zero }),
        r.2 == (if a@.len() > 2 { a@[2] } else { zero }),
        a@.len() == 2 ==> r == (a@[0], a@[1], zero),
        a@.len() == 3 ==> r == (a@[0], a@[1], a@[2]),
{
    let n = a.len();
    if n == 2 {
        (a[0], a[1], zero)
    } else if n == 3 {
        (a[0], a[1], a[2])
    } else {
        let x = if n > 0 { a[0] } else { zero };
        let y = if n > 1 { a[1] } else { zero };
        let z = if n > 2 { a[2] } else { zero };
        (x, y, z)
    }
}

} // verus!
