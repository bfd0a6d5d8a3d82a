use vstd::prelude::*;
use crate::error::SlamError;
use crate::mask::{count_inliers, count_true};
use crate::payload::Payload;

verus! {

/// One candidate for the relative pose of two views, with what the
/// cheirality test said of each correspondence under it: whether the
/// correspondence is an inlier, and where its point was triangulated.
pub struct Hypothesis<T: Payload> {
    pub pose: T::Pose,
    pub mask: Vec<bool>,
    pub points3d: Vec<T::Position>,
}

impl<T: Payload> Hypothesis<T> {
    /// The number of inliers under this hypothesis.
    pub open spec fn inliers(self) -> nat {
        count_true(self.mask@)
    }
}

/// The largest of four counts.
pub open spec fn max4(a: nat, b: nat, c: nat, d: nat) -> nat {
    let ab = if a >= b { a } else { b };
    let cd = if c >= d { c } else { d };
    if ab >= cd { ab } else { cd }
}

/// The place, from zero, of the first of four counts that reaches the
/// largest of them.
pub open spec fn first_best(a: nat, b: nat, c: nat, d: nat) -> int {
    let m = max4(a, b, c, d);
    if a == m {
        0
    } else if b == m {
        1
    } else if c == m {
        2
    } else {
        3
    }
}

/// Whether `inliers` of `total` correspondences make a ratio of at least
/// one half.
pub open spec fn enough_inliers(inliers: nat, total: nat) -> bool {
    2 * inliers >= total
}

/// The best count is too low exactly when every single count is: a pairing
/// is refused if and only if fewer than half of its correspondences pass
/// under each of the four hypotheses.
pub proof fn lemma_refused_iff_every_hypothesis_fails(a: nat, b: nat, c: nat, d: nat, total: nat)
    ensures
        !enough_inliers(max4(a, b, c, d), total) <==> (2 * a < total && 2 * b < total && 2 * c < total
            && 2 * d < total),
{
}

/// Picks among the four pose hypotheses of an essential matrix, given in
/// their fixed order, the first one with the most inliers. Fails with
/// `InsufficientInliers` if even that one has fewer inliers than half of the
/// `total` correspondences.
pub fn from_essential<T: Payload>(
    h1: Hypothesis<T>,
    h2: Hypothesis<T>,
    h3: Hypothesis<T>,
    h4: Hypothesis<T>,
    total: usize,
) -> (r: Result<Hypothesis<T>, SlamError>)
    ensures
        match r {
            Ok(best) => {
                let place = first_best(h1.inliers(), h2.inliers(), h3.inliers(), h4.inliers());
                &&& enough_inliers(
                    max4(h1.inliers(), h2.inliers(), h3.inliers(), h4.inliers()),
                    total as nat,
                )
                &&& place == 0 ==> best == h1
                &&& place == 1 ==> best == h2
                &&& place == 2 ==> best == h3
                &&& place == 3 ==> best == h4
            },
            Err(e) => {
                &&& e == SlamError::InsufficientInliers
                &&& !enough_inliers(
                    max4(h1.inliers(), h2.inliers(), h3.inliers(), h4.inliers()),
                    total as nat,
                )
            },
        },
{
    let inliers1: usize = count_inliers(&h1.mask);
    let inliers2: usize = count_inliers(&h2.mask);
    let inliers3: usize = count_inliers(&h3.mask);
    let inliers4: usize = count_inliers(&h4.mask);
    let max12: usize = if inliers1 >= inliers2 {
        inliers1
    } else {
        inliers2
    };
    let max34: usize = if inliers3 >= inliers4 {
        inliers3
    } else {
        inliers4
    };
    let max_inliers: usize = if max12 >= max34 {
        max12
    } else {
        max34
    };
    if max_inliers < total && max_inliers < total - max_inliers {
        return Err(SlamError::InsufficientInliers);
    }
    if max_inliers == inliers1 {
        Ok(h1)
    } else if max_inliers == inliers2 {
        Ok(h2)
    } else if max_inliers == inliers3 {
        Ok(h3)
    } else {
        Ok(h4)
    }
}

} // verus!
