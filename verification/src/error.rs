use vstd::prelude::*;

verus! {

/// The ways in which an operation of the backend can fail.
#[derive(Clone, Copy, Debug, PartialEq, Eq, Structural)]
pub enum SlamError {
    /// The matching collaborator produced no usable pairing of the two frames.
    MatchFailed,
    /// Under every pose hypothesis fewer than half of the correspondences
    /// passed the cheirality test.
    InsufficientInliers,
    /// A keyframe or landmark identity is not present in the map graph.
    NotFound,
    /// The identity counter has passed half of the representable range.
    IdSpaceExhausted,
}

} // verus!
