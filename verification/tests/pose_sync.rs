//! Per-step behaviour of the pose-synchronization work: which entities are
//! written, which are left untouched, and that the written transform is the
//! conversion of the pose.

use amethyst_rhusics::bundle::PhysicsBundle2;
use amethyst_rhusics::stage::StageGraph;
use amethyst_rhusics::sync::{synchronize, BodyState};

/// A 2D pose: position x, position y, rotation angle (radians).
type Pose2 = (f32, f32, f32);

/// A 2D host transform: translation x, translation y, and the rotation as
/// the basis column (cos a, sin a).
type Transform2 = (f32, f32, f32, f32);

/// The dimension-appropriate conversion: the angle becomes a rotation basis.
fn convert2(p: Pose2) -> Transform2 {
    (p.0, p.1, p.2.cos(), p.2.sin())
}

#[test]
fn transform_matches_pose_after_synchronization() {
    let mut bodies = vec![BodyState::<Pose2, Transform2> {
        pose: Some((1.5, -2.0, 0.0)),
        transform: Some((9.0, 9.0, 0.0, 1.0)),
    }];
    synchronize(&mut bodies, &convert2);
    let t = bodies[0].transform.unwrap();
    assert!((t.0 - 1.5).abs() < 1e-6);
    assert!((t.1 - -2.0).abs() < 1e-6);
    assert!((t.2 - 1.0).abs() < 1e-6);
    assert!((t.3 - 0.0).abs() < 1e-6);
    // the pose itself is never mutated
    assert_eq!(bodies[0].pose, Some((1.5, -2.0, 0.0)));
}

#[test]
fn rotation_is_converted_through_the_basis_representation() {
    let angle = std::f32::consts::FRAC_PI_2;
    let mut bodies = vec![BodyState::<Pose2, Transform2> {
        pose: Some((0.0, 0.0, angle)),
        transform: Some((0.0, 0.0, 1.0, 0.0)),
    }];
    synchronize(&mut bodies, &convert2);
    let t = bodies[0].transform.unwrap();
    assert!((t.2 - 0.0).abs() < 1e-6);
    assert!((t.3 - 1.0).abs() < 1e-6);
}

#[test]
fn entities_without_a_transform_are_left_untouched() {
    let mut bodies = vec![
        BodyState::<Pose2, Transform2> { pose: Some((3.0, 4.0, 0.5)), transform: None },
        BodyState::<Pose2, Transform2> { pose: Some((1.0, 1.0, 0.0)), transform: Some((0.0, 0.0, 1.0, 0.0)) },
    ];
    synchronize(&mut bodies, &convert2);
    // no transform was created for the physics-only entity
    assert_eq!(bodies[0].transform, None);
    assert_eq!(bodies[0].pose, Some((3.0, 4.0, 0.5)));
    // the entity with both was written
    let t = bodies[1].transform.unwrap();
    assert!((t.0 - 1.0).abs() < 1e-6);
}

#[test]
fn entities_without_a_pose_are_left_untouched() {
    let mut bodies = vec![BodyState::<Pose2, Transform2> {
        pose: None,
        transform: Some((7.0, 8.0, 1.0, 0.0)),
    }];
    synchronize(&mut bodies, &convert2);
    assert_eq!(bodies[0].transform, Some((7.0, 8.0, 1.0, 0.0)));
}

#[test]
fn empty_world_synchronizes_without_effect() {
    let mut bodies: Vec<BodyState<Pose2, Transform2>> = Vec::new();
    synchronize(&mut bodies, &convert2);
    assert!(bodies.is_empty());
}

#[test]
fn unit_disc_at_identity_stays_at_identity() {
    // one entity, shape a unit disc at the origin with rotation zero, a
    // default collider tag, an identity transform, and no other entity to
    // collide with: the build succeeds and one synchronization leaves the
    // transform at the pose-derived identity
    let mut g = StageGraph::new();
    assert!(PhysicsBundle2::new().build(&mut g).is_ok());

    let identity_pose: Pose2 = (0.0, 0.0, 0.0);
    let mut bodies = vec![BodyState::<Pose2, Transform2> {
        pose: Some(identity_pose),
        transform: Some((0.0, 0.0, 1.0, 0.0)),
    }];
    synchronize(&mut bodies, &convert2);
    let t = bodies[0].transform.unwrap();
    assert_eq!(t.0, 0.0);
    assert_eq!(t.1, 0.0);
    assert!((t.2 - 1.0).abs() < 1e-6);
    assert!((t.3 - 0.0).abs() < 1e-6);
}
