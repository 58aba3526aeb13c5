//! How many workgroups a compute pass dispatches to cover an image.
use vstd::prelude::*;

verus! {

/// `a / b`, rounded up.
pub fn div_up(a: u32, b: u32) -> (r: u32)
    requires
        b > 0,
    ensures
        r == (a + b - 1) / (b as int),
        (r - 1) * b < a <= r * b || (a == 0 && r == 0),
{
    let q = a / b;
    let m = a % b;
    proof {
        assert(a == q * b + m && 0 <= m < b) by (nonlinear_arith)
            requires
                q == a / b,
                m == a % b,
                b > 0,
        ;
        assert(m != 0 ==> q < u32::MAX) by (nonlinear_arith)
            requires
                a == q * b + m,
                0 <= m < b,
                a <= u32::MAX,
                q >= 0,
        ;
    }
    let r = if m != 0 { q + 1 } else { q };
    proof {
        assert(r == (a + b - 1) / (b as int) && ((r - 1) * b < a <= r * b || (a == 0 && r == 0))) by (nonlinear_arith)
            requires
                a == q * b + m,
                0 <= m < b,
                m != 0 ==> r == q + 1,
                m == 0 ==> r == q,
                q >= 0,
                b > 0,
        ;
    }
    r
}

/// The workgroups, of `workgroup_size` by `workgroup_size` pixels, that cover
/// an image of `dimensions`: enough in each direction to reach its edge.
pub fn num_workgroups(dimensions: (u32, u32), workgroup_size: u32) -> (r: (u32, u32))
    requires
        workgroup_size > 0,
    ensures
        r.0 == (dimensions.0 + workgroup_size - 1) / (workgroup_size as int),
        r.1 == (dimensions.1 + workgroup_size - 1) / (workgroup_size as int),
{
    (div_up(dimensions.0, workgroup_size), div_up(dimensions.1, workgroup_size))
}

} // verus!
