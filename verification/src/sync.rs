//! The pose-synchronization stage's per-step work.
//!
//! Once per step, strictly after solving, each collision-participating
//! entity's pose is copied one-directionally into the entity's host
//! transform.  Pose and transform are separate representations: the
//! dimension-appropriate value conversion between them is supplied by the
//! caller, and this module owns which entities are written and which are
//! left untouched.

use vstd::prelude::*;

verus! {

/// The per-entity state the synchronization stage reads and writes: the
/// entity's pose, where it participates in collision, and its host
/// transform, where it has one.
///
/// An entity with a pose but no transform is physics-only (not renderable);
/// one with a transform but no pose does not participate in collision.
#[derive(Clone, Copy)]
pub struct BodyState<P, T> {
    pub pose: Option<P>,
    pub transform: Option<T>,
}

/// Whether the synchronization stage writes the entity: it does exactly when
/// the entity holds both a pose and a transform.
pub open spec fn synchronized<P, T>(b: BodyState<P, T>) -> bool {
    b.pose is Some && b.transform is Some
}

/// Copies each entity's pose into its host transform through `convert`, the
/// dimension-appropriate conversion from the physics engine's pose
/// representation to the host's transform representation.
///
/// For every entity holding both a pose and a transform, the transform is
/// overwritten with a conversion of the pose.  Every other entity — in
/// particular one lacking a transform — is left untouched, and no transform
/// is created for it.  No pose is ever mutated.  This cannot fail: it only
/// converts values and assigns fields.
pub fn synchronize<P: Copy, T: Copy, F: Fn(P) -> T>(
    bodies: &mut Vec<BodyState<P, T>>,
    convert: &F,
)
    requires
        forall|i: int|
            0 <= i < old(bodies)@.len() && synchronized(#[trigger] old(bodies)@[i])
                ==> call_requires(*convert, (old(bodies)@[i].pose->0,)),
    ensures
        final(bodies)@.len() == old(bodies)@.len(),
        forall|i: int|
            0 <= i < old(bodies)@.len() ==> (#[trigger] final(bodies)@[i]).pose == old(
                bodies,
            )@[i].pose,
        forall|i: int|
            0 <= i < old(bodies)@.len() && !synchronized(old(bodies)@[i])
                ==> #[trigger] final(bodies)@[i] == old(bodies)@[i],
        forall|i: int|
            0 <= i < old(bodies)@.len() && synchronized(old(bodies)@[i])
                ==> (#[trigger] final(bodies)@[i]).transform is Some && call_ensures(
                *convert,
                (old(bodies)@[i].pose->0,),
                final(bodies)@[i].transform->0,
            ),
{
    let n = bodies.len();
    let mut i: usize = 0;
    while i < n
        invariant
            0 <= i <= n,
            n == bodies@.len(),
            bodies@.len() == old(bodies)@.len(),
            forall|j: int|
                0 <= j < old(bodies)@.len() && synchronized(#[trigger] old(bodies)@[j])
                    ==> call_requires(*convert, (old(bodies)@[j].pose->0,)),
            forall|j: int| i <= j < n ==> #[trigger] bodies@[j] == old(bodies)@[j],
            forall|j: int|
                0 <= j < i ==> (#[trigger] bodies@[j]).pose == old(bodies)@[j].pose,
            forall|j: int|
                0 <= j < i && !synchronized(old(bodies)@[j]) ==> #[trigger] bodies@[j] == old(
                    bodies,
                )@[j],
            forall|j: int|
                0 <= j < i && synchronized(old(bodies)@[j]) ==> (#[trigger] bodies@[j]).transform
                    is Some && call_ensures(
                    *convert,
                    (old(bodies)@[j].pose->0,),
                    bodies@[j].transform->0,
                ),
        decreases n - i,
    {
        if bodies[i].pose.is_some() && bodies[i].transform.is_some() {
            let p = bodies[i].pose.unwrap();
            let t = convert(p);
            bodies[i].transform = Some(t);
        }
        i += 1;
    }
}

} // verus!
