use vstd::prelude::*;

verus! {

/// Which root of the ray/sphere equation a hit is made at.
#[derive(Clone, Copy, Debug, PartialEq, Eq, Structural)]
pub enum Root {
    /// The smaller parameter, where the ray enters the sphere.
    Near,
    /// The larger parameter, where the ray leaves the sphere.
    Far,
}

/// The root a hit is made at, given whether the discriminant is negative
/// and whether each root lies strictly inside the query interval.
pub open spec fn spec_choose_root(discriminant_negative: bool, near_inside: bool, far_inside: bool) -> Option<Root> {
    if discriminant_negative {
        None
    } else if near_inside {
        Some(Root::Near)
    } else if far_inside {
        Some(Root::Far)
    } else {
        None
    }
}

/// Picks the root a ray/sphere hit is made at: none where the discriminant
/// is negative, else the near root where it lies inside the query interval,
/// else the far root where that one does, else none.
pub fn choose_root(discriminant_negative: bool, near_inside: bool, far_inside: bool) -> (r: Option<
    Root,
>)
    ensures
        r == spec_choose_root(discriminant_negative, near_inside, far_inside),
        discriminant_negative ==> r is None,
        !discriminant_negative && !near_inside && far_inside ==> r == Some(Root::Far),
        r == Some(Root::Near) ==> near_inside,
        r == Some(Root::Far) ==> far_inside && !near_inside,
{
    if discriminant_negative {
        None
    } else if near_inside {
        Some(Root::Near)
    } else if far_inside {
        Some(Root::Far)
    } else {
        None
    }
}

} // verus!
