use std::time::Duration;
use vstd::prelude::*;
use crate::error::SlamError;
use crate::frame::{copy_features, Feature, Frame};
use crate::ids::{generate_id, spec_generate, IdAllocator};
use crate::mappoint::MapPointId;
use crate::payload::Payload;

verus! {

/// The identity of a keyframe. Keyframes and landmarks draw their
/// identities from one counter.
pub type KeyFrameId = usize;

/// A frame that the map keeps: an anchor for the landmarks it observes.
pub struct KeyFrame<T: Payload> {
    pub id: KeyFrameId,
    pub timestamp: Duration,
    pub img: T::Image,
    pub keypoints: Vec<Feature<T>>,
    pub intrinsics: T::Camera,
    pub pose: T::Pose,
    /// The landmarks that this keyframe sees, by identity.
    pub observations: Vec<MapPointId>,
    /// The keyframes that share landmarks with this one, by identity.
    pub connections: Vec<KeyFrameId>,
}

impl<T: Payload> KeyFrame<T> {
    /// Whether this keyframe carries the given identity and content.
    pub open spec fn carries(
        self,
        id: KeyFrameId,
        timestamp: Duration,
        img: T::Image,
        keypoints: Seq<Feature<T>>,
        intrinsics: T::Camera,
        pose: T::Pose,
    ) -> bool {
        &&& self.id == id
        &&& self.timestamp == timestamp
        &&& self.img == img
        &&& self.keypoints@ == keypoints
        &&& self.intrinsics == intrinsics
        &&& self.pose == pose
    }

    /// Whether this keyframe carries the given identity and content and has
    /// neither observations nor connections.
    pub open spec fn is_fresh(
        self,
        id: KeyFrameId,
        timestamp: Duration,
        img: T::Image,
        keypoints: Seq<Feature<T>>,
        intrinsics: T::Camera,
        pose: T::Pose,
    ) -> bool {
        &&& self.carries(id, timestamp, img, keypoints, intrinsics, pose)
        &&& self.observations@ == Seq::<MapPointId>::empty()
        &&& self.connections@ == Seq::<KeyFrameId>::empty()
    }

    /// Whether `self` and `other` differ in nothing but their observations
    /// and connections.
    pub open spec fn same_content(self, other: Self) -> bool {
        &&& self.id == other.id
        &&& self.timestamp == other.timestamp
        &&& self.img == other.img
        &&& self.keypoints == other.keypoints
        &&& self.intrinsics == other.intrinsics
        &&& self.pose == other.pose
    }

    /// A keyframe under the next identity of `ids`. Fails with
    /// `IdSpaceExhausted` when no identity is left.
    pub fn new(
        ids: &mut IdAllocator,
        timestamp: Duration,
        img: T::Image,
        keypoints: Vec<Feature<T>>,
        intrinsics: T::Camera,
        pose: T::Pose,
    ) -> (r: Result<Self, SlamError>)
        ensures
            final(ids)@ == spec_generate(old(ids)@).1,
            match r {
                Ok(kf) => {
                    &&& spec_generate(old(ids)@).0 == Ok::<usize, SlamError>(kf.id)
                    &&& kf.is_fresh(kf.id, timestamp, img, keypoints@, intrinsics, pose)
                },
                Err(e) => spec_generate(old(ids)@).0 == Err::<usize, SlamError>(e),
            },
    {
        match generate_id(ids) {
            Ok(id) => Ok(Self::new_with_id(id, timestamp, img, keypoints, intrinsics, pose)),
            Err(e) => Err(e),
        }
    }

    /// A keyframe under an identity that the caller chose.
    pub fn new_with_id(
        id: KeyFrameId,
        timestamp: Duration,
        img: T::Image,
        keypoints: Vec<Feature<T>>,
        intrinsics: T::Camera,
        pose: T::Pose,
    ) -> (kf: Self)
        ensures
            kf.is_fresh(id, timestamp, img, keypoints@, intrinsics, pose),
    {
        KeyFrame {
            id,
            timestamp,
            img,
            keypoints,
            intrinsics,
            pose,
            observations: Vec::new(),
            connections: Vec::new(),
        }
    }

    /// Promotes a frame to a keyframe under the next identity of `ids`. The
    /// keyframe owns copies of what the frame holds. Fails with
    /// `IdSpaceExhausted` when no identity is left.
    pub fn from_frame(ids: &mut IdAllocator, frame: &Frame<T>, intrinsics: &T::Camera) -> (r: Result<
        Self,
        SlamError,
    >)
        ensures
            final(ids)@ == spec_generate(old(ids)@).1,
            match r {
                Ok(kf) => {
                    &&& spec_generate(old(ids)@).0 == Ok::<usize, SlamError>(kf.id)
                    &&& kf.is_fresh(
                        kf.id,
                        frame.timestamp,
                        frame.img,
                        frame.keypoints@,
                        *intrinsics,
                        frame.pose,
                    )
                },
                Err(e) => spec_generate(old(ids)@).0 == Err::<usize, SlamError>(e),
            },
    {
        Self::new(
            ids,
            frame.timestamp,
            frame.img,
            copy_features(&frame.keypoints),
            *intrinsics,
            frame.pose,
        )
    }

    /// Records that this keyframe sees a landmark.
    pub fn add_observation(&mut self, observation: MapPointId)
        ensures
            final(self).observations@ == old(self).observations@.push(observation),
            final(self).connections == old(self).connections,
            final(self).same_content(*old(self)),
    {
        self.observations.push(observation);
    }

    /// Records that this keyframe sees each of the landmarks, in their order.
    pub fn add_observations(&mut self, observations: Vec<MapPointId>)
        ensures
            final(self).observations@ == old(self).observations@ + observations@,
            final(self).connections == old(self).connections,
            final(self).same_content(*old(self)),
    {
        let mut incoming = observations;
        self.observations.append(&mut incoming);
    }

    /// Records a keyframe that shares landmarks with this one.
    pub fn add_connection(&mut self, id: KeyFrameId)
        ensures
            final(self).connections@ == old(self).connections@.push(id),
            final(self).observations == old(self).observations,
            final(self).same_content(*old(self)),
    {
        self.connections.push(id);
    }

    /// Records each of the keyframes as connected, in their order.
    pub fn add_connections(&mut self, ids: Vec<KeyFrameId>)
        ensures
            final(self).connections@ == old(self).connections@ + ids@,
            final(self).observations == old(self).observations,
            final(self).same_content(*old(self)),
    {
        let mut incoming = ids;
        self.connections.append(&mut incoming);
    }

    /// The landmark of the given identity, if this keyframe sees it.
    pub fn observation(&self, id: MapPointId) -> (r: Option<MapPointId>)
        ensures
            self.observations@.contains(id) ==> r == Some(id),
            !self.observations@.contains(id) ==> r.is_none(),
    {
        let mut i: usize = 0;
        while i < self.observations.len()
            invariant
                i <= self.observations.len(),
                forall|j: int| 0 <= j < i ==> self.observations@[j] != id,
            decreases self.observations.len() - i,
        {
            if self.observations[i] == id {
                return Some(id);
            }
            i = i + 1;
        }
        None
    }
}

} // verus!
