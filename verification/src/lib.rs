//! The bookkeeping core of a monocular SLAM backend, verified with Verus.
//!
//! The library owns the map graph of keyframes and landmarks, the counter
//! that numbers them, the two-frame bootstrap, the choice among the pose
//! hypotheses of an essential matrix, and the layout and write-back of
//! bundle adjustment. Poses, positions, pixels and descriptors pass through
//! it as the opaque types of a [`payload::Payload`]: everything numeric is
//! computed by the application around it.

pub mod error;
pub mod frame;
pub mod graph;
pub mod ids;
pub mod init;
pub mod keyframe;
pub mod load_data;
pub mod map_graph;
pub mod mappoint;
pub mod mask;
pub mod optimize;
pub mod payload;
pub mod recover_pose;
pub mod tracker;
