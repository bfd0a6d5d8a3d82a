use vstd::prelude::*;
use crate::error::SlamError;
use crate::frame::Frame;
use crate::init::{is_bootstrap, Init, Pairing};
use crate::keyframe::{KeyFrame, KeyFrameId};
use crate::map_graph::MapGraph;
use crate::mappoint::{MapPoint, MapPointId};
use crate::payload::Payload;

verus! {

/// Feeds the frames of a stream to the initializer until the map stands,
/// and exposes that map.
pub struct Tracker<T: Payload> {
    pub initializer: Init<T>,
    /// The pose that `track` reports once the map stands.
    pub pose: T::Pose,
    pub camera: T::Camera,
    /// The pose that `track` reports while the map is being set up.
    pub origin: T::Pose,
}

impl<T: Payload> Tracker<T> {
    /// A tracker for the given camera that holds no frame and no map yet.
    /// `origin` is the pose of the first camera, the identity transform.
    pub fn new(camera: T::Camera, origin: T::Pose) -> (tracker: Self)
        ensures
            tracker.camera == camera,
            tracker.pose == origin,
            tracker.origin == origin,
            tracker.initializer.first_frame is None,
            tracker.initializer.intrinsics == camera,
            !tracker.initializer.done,
            tracker.initializer.map@.keyframes == Map::<KeyFrameId, KeyFrame<T>>::empty(),
            tracker.initializer.map@.mappoints == Map::<MapPointId, MapPoint<T>>::empty(),
            tracker.initializer.map@.next_id == 0,
    {
        Tracker { initializer: Init::new(&camera), pose: origin, camera, origin }
    }

    /// The map: empty until the initializer is done, then what it built.
    pub fn map(&self) -> (map: &MapGraph<T>)
        ensures
            *map == self.initializer.map,
    {
        &self.initializer.map
    }

    /// Takes the next frame of the stream, with what the collaborators found
    /// for it and the held first frame, and returns the pose of the camera.
    ///
    /// Until the initializer is done the frame goes to it and the origin is
    /// returned, also by the call that completes the map. After that the
    /// frame is not looked at, nothing changes, and the current pose is
    /// returned.
    pub fn track(&mut self, inframe: Frame<T>, pairing: Result<Pairing<T>, SlamError>) -> (pose: T::Pose)
        ensures
            final(self).pose == old(self).pose,
            final(self).camera == old(self).camera,
            final(self).origin == old(self).origin,
            old(self).initializer.done ==> pose == old(self).pose && final(self).initializer == old(
                self,
            ).initializer,
            !old(self).initializer.done ==> pose == old(self).origin,
            !old(self).initializer.done && old(self).initializer.first_frame is None ==> {
                &&& final(self).initializer.first_frame == Some(inframe)
                &&& final(self).initializer.intrinsics == old(self).initializer.intrinsics
                &&& final(self).initializer.map == old(self).initializer.map
                &&& !final(self).initializer.done
            },
            !old(self).initializer.done && old(self).initializer.first_frame is Some && pairing is Err
                ==> final(self).initializer == old(self).initializer,
            !old(self).initializer.done && old(self).initializer.first_frame is Some && pairing is Ok ==> {
                let bootstraps = pairing->Ok_0.fits(old(self).initializer.first_frame->0, inframe) && !old(
                    self,
                ).initializer.short_of_ids(pairing->Ok_0);
                &&& final(self).initializer.done == bootstraps
                &&& !bootstraps ==> final(self).initializer == old(self).initializer
                &&& bootstraps ==> {
                    &&& final(self).initializer.first_frame == old(self).initializer.first_frame
                    &&& final(self).initializer.intrinsics == old(self).initializer.intrinsics
                    &&& is_bootstrap(
                        final(self).initializer.map@,
                        old(self).initializer.first_frame->0,
                        inframe,
                        old(self).initializer.intrinsics,
                        pairing->Ok_0,
                        old(self).initializer.map@.next_id,
                    )
                    &&& final(self).initializer.map@.consistent()
                }
            },
    {
        if !self.initializer.done() {
            self.initializer.run(inframe, pairing);
            return self.origin;
        }
        self.pose
    }
}

} // verus!
