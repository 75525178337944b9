//! Configuration-time behaviour of the pipeline configurators: which stages
//! a build registers, in which order, with which dependency edges, and when
//! a build is refused.

use amethyst_rhusics::bundle::{install_detection_and_solver, PhysicsBundle2, PhysicsBundle3};
use amethyst_rhusics::stage::{ConfigError, StageGraph, StageKind};

fn name(x: &str) -> String {
    x.to_string()
}

fn stage_names(g: &StageGraph) -> Vec<String> {
    let mut out = Vec::new();
    let mut i = 0;
    while i < g.len() {
        out.push(g.stage_name(i).clone());
        i += 1;
    }
    out
}

#[test]
fn build_2d_succeeds_on_empty_graph() {
    let mut g = StageGraph::new();
    assert!(PhysicsBundle2::new().build(&mut g).is_ok());
    assert_eq!(g.len(), 4);
    assert_eq!(g.stage_name(0).as_str(), "broad_phase_system");
    assert_eq!(g.stage_name(1).as_str(), "narrow_phase_system");
    assert_eq!(g.stage_name(2).as_str(), "physics_solver_system");
    assert_eq!(g.stage_name(3).as_str(), "sync_system");
    assert_eq!(g.stage_kind(0), StageKind::BroadPhaseBasic);
    assert_eq!(g.stage_kind(1), StageKind::NarrowPhase);
    assert_eq!(g.stage_kind(2), StageKind::ContactSolver);
    assert_eq!(g.stage_kind(3), StageKind::PoseSync);
}

#[test]
fn build_3d_succeeds_on_empty_graph() {
    let mut g = StageGraph::new();
    assert!(PhysicsBundle3::new().build(&mut g).is_ok());
    assert_eq!(g.len(), 4);
    assert_eq!(g.stage_name(2).as_str(), "physics_solver_system");
    assert_eq!(g.stage_name(3).as_str(), "sync_system");
}

#[test]
fn build_succeeds_for_all_dimensions_and_spatial_settings() {
    for spatial in [false, true] {
        let mut g2 = StageGraph::new();
        let b2 = if spatial {
            PhysicsBundle2::new().with_spatial()
        } else {
            PhysicsBundle2::new()
        };
        assert!(b2.build(&mut g2).is_ok());
        assert_eq!(g2.len(), 4);

        let mut g3 = StageGraph::new();
        let b3 = if spatial {
            PhysicsBundle3::new().with_spatial()
        } else {
            PhysicsBundle3::new()
        };
        assert!(b3.build(&mut g3).is_ok());
        assert_eq!(g3.len(), 4);
    }
}

#[test]
fn spatial_option_selects_tree_accelerated_broad_phase() {
    let mut g = StageGraph::new();
    assert!(PhysicsBundle2::new().with_spatial().build(&mut g).is_ok());
    assert_eq!(g.stage_kind(0), StageKind::BroadPhaseSpatial);

    let mut g3 = StageGraph::new();
    assert!(PhysicsBundle3::new().with_spatial().build(&mut g3).is_ok());
    assert_eq!(g3.stage_kind(0), StageKind::BroadPhaseSpatial);
}

#[test]
fn sync_system_depends_on_physics_solver_system() {
    let mut g = StageGraph::new();
    assert!(PhysicsBundle2::new().build(&mut g).is_ok());
    assert!(g.stage_has_dep(&name("sync_system"), &name("physics_solver_system")));
    assert_eq!(g.dep_count(3), 1);
    assert_eq!(g.dep_at(3, 0).as_str(), "physics_solver_system");
}

#[test]
fn with_spatial_twice_builds_the_same_graph_as_once() {
    let once = PhysicsBundle2::new().with_spatial();
    let twice = PhysicsBundle2::new().with_spatial().with_spatial();
    assert_eq!(once.spatial(), twice.spatial());

    let mut g_once = StageGraph::new();
    let mut g_twice = StageGraph::new();
    assert!(once.build(&mut g_once).is_ok());
    assert!(twice.build(&mut g_twice).is_ok());
    assert_eq!(g_once.len(), g_twice.len());
    assert_eq!(stage_names(&g_once), stage_names(&g_twice));
    let mut i = 0;
    while i < g_once.len() {
        assert_eq!(g_once.stage_kind(i), g_twice.stage_kind(i));
        i += 1;
    }
}

#[test]
fn pre_registered_sync_system_name_fails_the_build() {
    let mut g = StageGraph::new();
    assert!(g.add_stage(name("sync_system"), Vec::new(), StageKind::Host).is_ok());
    let r = PhysicsBundle2::new().build(&mut g);
    assert_eq!(r, Err(ConfigError::DuplicateStage));
    // no silent overwrite: the graph still holds only the host's stage
    assert_eq!(g.len(), 1);
    assert_eq!(g.stage_kind(0), StageKind::Host);
}

#[test]
fn pre_registered_solver_name_fails_the_build() {
    let mut g = StageGraph::new();
    assert!(g.add_stage(name("physics_solver_system"), Vec::new(), StageKind::Host).is_ok());
    let r = PhysicsBundle3::new().build(&mut g);
    assert_eq!(r, Err(ConfigError::DuplicateStage));
    assert_eq!(g.len(), 1);
}

#[test]
fn duplicate_registration_is_an_error() {
    let mut g = StageGraph::new();
    assert!(PhysicsBundle2::new().build(&mut g).is_ok());
    let r = PhysicsBundle2::new().build(&mut g);
    assert_eq!(r, Err(ConfigError::DuplicateStage));
    assert_eq!(g.len(), 4);
}

#[test]
fn unknown_predecessor_is_an_error() {
    let mut g = StageGraph::new();
    let r = g.add_stage(
        name("render_system"),
        vec![name("sync_system")],
        StageKind::Host,
    );
    assert_eq!(r, Err(ConfigError::MissingDependency));
    assert_eq!(g.len(), 0);
}

#[test]
fn host_stage_after_sync_chains_through_the_solver() {
    let mut g = StageGraph::new();
    assert!(PhysicsBundle2::new().build(&mut g).is_ok());
    assert!(g
        .add_stage(name("render_system"), vec![name("sync_system")], StageKind::Host)
        .is_ok());
    // transitive chain: physics_solver_system before sync_system before
    // render_system, linked by recorded dependency edges
    assert!(g.stage_has_dep(&name("render_system"), &name("sync_system")));
    assert!(g.stage_has_dep(&name("sync_system"), &name("physics_solver_system")));
    assert_eq!(g.stage_name(2).as_str(), "physics_solver_system");
    assert_eq!(g.stage_name(3).as_str(), "sync_system");
    assert_eq!(g.stage_name(4).as_str(), "render_system");
    // the same chain through the transitive query
    assert!(g.runs_after(&name("render_system"), &name("sync_system")));
    assert!(g.runs_after(&name("render_system"), &name("physics_solver_system")));
    assert!(g.runs_after(&name("sync_system"), &name("physics_solver_system")));
    assert!(g.runs_after(&name("render_system"), &name("broad_phase_system")));
    // and never backwards
    assert!(!g.runs_after(&name("physics_solver_system"), &name("sync_system")));
    assert!(!g.runs_after(&name("sync_system"), &name("render_system")));
    assert!(!g.runs_after(&name("sync_system"), &name("sync_system")));
    assert!(!g.runs_after(&name("sync_system"), &name("absent_system")));
}

#[test]
fn config_errors_describe_themselves() {
    let mut g = StageGraph::new();
    assert!(g.add_stage(name("sync_system"), Vec::new(), StageKind::Host).is_ok());
    let duplicate = PhysicsBundle2::new().build(&mut g).unwrap_err();
    assert_eq!(duplicate.message(), "duplicate stage name");
    let missing = g
        .add_stage(name("render_system"), vec![name("absent_system")], StageKind::Host)
        .unwrap_err();
    assert_eq!(missing.message(), "dependency on an unregistered stage");
}

#[test]
fn detection_and_solver_setup_installs_three_stages() {
    let mut g = StageGraph::new();
    assert!(install_detection_and_solver(&mut g, false).is_ok());
    assert_eq!(g.len(), 3);
    assert!(g.has_stage(&name("physics_solver_system")));
    assert!(g.stage_has_dep(&name("narrow_phase_system"), &name("broad_phase_system")));
    assert!(g.stage_has_dep(&name("physics_solver_system"), &name("narrow_phase_system")));
}
