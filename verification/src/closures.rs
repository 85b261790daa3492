use vstd::prelude::*;
use vstd::std_specs::cmp::PartialEqSpec;

verus! {

/// A closure can read a variable of the surrounding scope: this one compares
/// its argument against the captured `x`.
pub fn first_closure_example() {
    let x: u32 = 4;
    let equal_to_x = |z: u32| -> (r: bool)
        ensures
            r == (z == x),
        { z == x };
    let y: u32 = 4;
    let result = equal_to_x(y);
    assert(result);
}

/// A closure can take ownership of a captured variable: this one moves the
/// vector `x` in and compares its argument against it.
pub fn second_closure_example() {
    // A vec is used because primitives like u32 would be copied.
    let mut x: Vec<u32> = Vec::new();
    x.push(1);
    x.push(2);
    x.push(3);
    let ghost x_snapshot = x@;
    let equal_to_x = move |z: Vec<u32>| -> (r: bool)
        ensures
            r == (z@ == x_snapshot),
        {
            let r = z == x;
            proof {
                if z.eq_spec(&x) {
                    assert(z@ =~= x@);
                }
                if z@ == x@ {
                    assert(z.eq_spec(&x));
                }
            }
            r
        };
    let mut y: Vec<u32> = Vec::new();
    y.push(1);
    y.push(2);
    y.push(3);
    proof {
        assert(y@ =~= x_snapshot);
    }
    let result = equal_to_x(y);
    assert(result);
}

} // verus!
