//! The rigid-body simulation, held by the physics engine, and the few of its calls that the
//! world makes.

use vstd::prelude::*;
use rapier3d::prelude::{Collider, PhysicsWorld, RigidBody, RigidBodyHandle};

verus! {

#[verifier::external_type_specification]
#[verifier::external_body]
pub struct ExPhysicsWorld(PhysicsWorld);

#[verifier::external_type_specification]
#[verifier::external_body]
pub struct ExRigidBody(RigidBody);

#[verifier::external_type_specification]
#[verifier::external_body]
pub struct ExCollider(Collider);

/// A rigid body's handle, as the engine's generational arena numbers it: the slot index and
/// the generation of that slot.
#[derive(Clone, Copy, Debug, PartialEq, Eq, Structural)]
pub struct BodyHandle {
    pub index: u32,
    pub generation: u32,
}

impl BodyHandle {
    /// The handle as the pair of integers that the engine's body set is keyed by.
    pub open spec fn key(self) -> (u32, u32) {
        (self.index, self.generation)
    }
}

/// The handles, as `(index, generation)` pairs, of the rigid bodies that a physics world holds.
pub uninterp spec fn rigid_bodies(world: PhysicsWorld) -> Set<(u32, u32)>;

/// The colliders of a physics world that are attached to a rigid body of the world: each
/// collider's handle, as an `(index, generation)` pair, mapped to the handle of the body in
/// whose collider list it stands.
pub uninterp spec fn attached_colliders(world: PhysicsWorld) -> Map<(u32, u32), (u32, u32)>;

/// `colliders` without those attached to a body of `gone`.
pub open spec fn detached(colliders: Map<(u32, u32), (u32, u32)>, gone: Set<(u32, u32)>) -> Map<
    (u32, u32),
    (u32, u32),
> {
    colliders.restrict(colliders.dom().filter(|c: (u32, u32)| !gone.contains(colliders[c])))
}

/// Calls `PhysicsWorld::insert`, which adds the body to the world's body set and attaches the
/// collider to it. The body set allocates the handle in a free slot with the arena's current
/// generation, so the handle is not that of a body already in the world, and the body set
/// afterwards holds exactly the bodies it held before and the new one. The collider set likewise
/// stores the collider in a free slot, and the new body's collider list, emptied on insertion,
/// receives it; no other body's collider list changes.
#[verifier::external_body]
pub(crate) fn insert_body(world: &mut PhysicsWorld, body: RigidBody, collider: Collider) -> (h:
    BodyHandle)
    ensures
        !rigid_bodies(*old(world)).contains(h.key()),
        rigid_bodies(*final(world)) == rigid_bodies(*old(world)).insert(h.key()),
        exists|c: (u32, u32)|
            !attached_colliders(*old(world)).dom().contains(c) && attached_colliders(*final(world))
                == attached_colliders(*old(world)).insert(c, h.key()),
{
    let (handle, _collider) = world.insert(body, collider);
    let (index, generation) = handle.into_raw_parts();
    BodyHandle { index, generation }
}

/// Calls `PhysicsWorld::remove_body`, which takes the entry with that handle out of the body
/// set, together with the body's colliders and joints, and gives the body back when the handle
/// named a body of the world. No other body leaves or enters the body set (dissolving a
/// soft-body cluster, for a cluster's proxy, removes soft-body state only). The colliders
/// removed are those in the body's collider list; the other bodies' collider lists are left as
/// they were. An unknown handle changes nothing.
#[verifier::external_body]
pub(crate) fn remove_body(world: &mut PhysicsWorld, h: BodyHandle) -> (removed: Option<RigidBody>)
    ensures
        removed is Some <==> rigid_bodies(*old(world)).contains(h.key()),
        rigid_bodies(*final(world)) == rigid_bodies(*old(world)).remove(h.key()),
        attached_colliders(*final(world)) == (if rigid_bodies(*old(world)).contains(h.key()) {
            detached(attached_colliders(*old(world)), set![h.key()])
        } else {
            attached_colliders(*old(world))
        }),
{
    world.remove_body(RigidBodyHandle::from_raw_parts(h.index, h.generation))
}

} // verus!
