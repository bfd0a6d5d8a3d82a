use vstd::prelude::*;
use crate::error::SlamError;
use crate::ids::{generate_id, spec_generate, IdAllocator};
use crate::keyframe::{KeyFrame, KeyFrameId};
use crate::payload::Payload;

verus! {

/// The identity of a landmark. Landmarks and keyframes draw their
/// identities from one counter.
pub type MapPointId = usize;

/// One sighting of a landmark: the keyframe that saw it, by identity, and
/// the feature under which it appeared there.
pub struct MapPointReference<T: Payload> {
    pub id: KeyFrameId,
    pub keypoint: T::KeyPoint,
    pub descriptor: T::Descriptor,
}

impl<T: Payload> MapPointReference<T> {
    /// A sighting by the keyframe of the given identity.
    pub fn new(id: KeyFrameId, keypoint: &T::KeyPoint, descriptor: &T::Descriptor) -> (r: Self)
        ensures
            r == (MapPointReference::<T> { id, keypoint: *keypoint, descriptor: *descriptor }),
    {
        MapPointReference { id, keypoint: *keypoint, descriptor: *descriptor }
    }

    /// A sighting by the given keyframe.
    pub fn new_with_kf(keyframe: &KeyFrame<T>, keypoint: &T::KeyPoint, descriptor: &T::Descriptor) -> (r:
        Self)
        ensures
            r == (MapPointReference::<T> {
                id: keyframe.id,
                keypoint: *keypoint,
                descriptor: *descriptor,
            }),
    {
        MapPointReference::new(keyframe.id, keypoint, descriptor)
    }
}

/// A landmark: a triangulated point with the sightings that support it.
pub struct MapPoint<T: Payload> {
    pub id: MapPointId,
    pub position: T::Position,
    /// The descriptor that stands for the landmark.
    pub descriptor: T::Descriptor,
    /// One entry for each keyframe that sees the landmark.
    pub references: Vec<MapPointReference<T>>,
}

impl<T: Payload> MapPoint<T> {
    /// Whether this landmark carries the given identity and content and has
    /// no sightings.
    pub open spec fn is_fresh(self, id: MapPointId, position: T::Position, descriptor: T::Descriptor) -> bool {
        &&& self.id == id
        &&& self.position == position
        &&& self.descriptor == descriptor
        &&& self.references@ == Seq::<MapPointReference<T>>::empty()
    }

    /// Whether `self` and `other` differ in nothing but their sightings.
    pub open spec fn same_content(self, other: Self) -> bool {
        &&& self.id == other.id
        &&& self.position == other.position
        &&& self.descriptor == other.descriptor
    }

    /// A landmark under the next identity of `ids`. Fails with
    /// `IdSpaceExhausted` when no identity is left.
    pub fn new(ids: &mut IdAllocator, position: T::Position, descriptor: T::Descriptor) -> (r: Result<
        Self,
        SlamError,
    >)
        ensures
            final(ids)@ == spec_generate(old(ids)@).1,
            match r {
                Ok(mp) => {
                    &&& spec_generate(old(ids)@).0 == Ok::<usize, SlamError>(mp.id)
                    &&& mp.is_fresh(mp.id, position, descriptor)
                },
                Err(e) => spec_generate(old(ids)@).0 == Err::<usize, SlamError>(e),
            },
    {
        match generate_id(ids) {
            Ok(id) => Ok(Self::new_with_id(id, position, descriptor)),
            Err(e) => Err(e),
        }
    }

    /// A landmark under an identity that the caller chose.
    pub fn new_with_id(id: MapPointId, position: T::Position, descriptor: T::Descriptor) -> (mp: Self)
        ensures
            mp.is_fresh(id, position, descriptor),
    {
        MapPoint { id, position, descriptor, references: Vec::new() }
    }

    /// Records one more sighting.
    pub fn add_reference(&mut self, reference: MapPointReference<T>)
        ensures
            final(self).references@ == old(self).references@.push(reference),
            final(self).same_content(*old(self)),
    {
        self.references.push(reference);
    }

    /// Records each of the sightings, in their order.
    pub fn add_references(&mut self, references: Vec<MapPointReference<T>>)
        ensures
            final(self).references@ == old(self).references@ + references@,
            final(self).same_content(*old(self)),
    {
        let mut incoming = references;
        self.references.append(&mut incoming);
    }
}

} // verus!
