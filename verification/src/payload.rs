use vstd::prelude::*;

verus! {

/// The numeric values that the backend stores and hands on without ever
/// looking inside them. An application picks one type for each.
pub trait Payload {
    /// A handle to the pixel data of a frame, owned by the feature extractor.
    type Image: Copy;

    /// The pixel keypoint of a feature.
    type KeyPoint: Copy;

    /// The descriptor of a feature.
    type Descriptor: Copy;

    /// The calibration of a camera.
    type Camera: Copy;

    /// A rigid transform, camera to world.
    type Pose: Copy;

    /// The position of a landmark.
    type Position: Copy;

    /// The weight of a pixel measurement: its information matrix.
    type Information: Copy;
}

} // verus!
