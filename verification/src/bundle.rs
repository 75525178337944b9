//! Pipeline configurators.
//!
//! A configurator assembles the detect–solve–synchronize pipeline: it has the
//! detection and solver stages installed (broad phase, narrow phase, contact
//! solver), then registers the pose-synchronization stage with an explicit
//! predecessor dependency on the solver stage, so that synchronization never
//! observes a pose from before solving.
//!
//! Two structurally identical configurators exist, one per dimensionality:
//! [`PhysicsBundle2`] and [`PhysicsBundle3`].  They differ only in which
//! geometric value types the host binds to the stages, which is invisible at
//! the registration boundary, so they share one stage-graph model.

use vstd::prelude::*;
use vstd::string::StringExecFns;

use crate::stage::{
    stage_named, stage_depends_on, ConfigError, StageGraph, StageKind, StageModel,
};

verus! {

/// Name of the broad-phase stage: cheap pruning over bounds.
pub open spec fn broad_phase_name() -> Seq<char> {
    "broad_phase_system"@
}

/// Name of the narrow-phase stage: exact detection over candidate pairs.
pub open spec fn narrow_phase_name() -> Seq<char> {
    "narrow_phase_system"@
}

/// Name of the contact-solver stage.  Fixed: the synchronization stage binds
/// its predecessor dependency to this name.
pub open spec fn solver_name() -> Seq<char> {
    "physics_solver_system"@
}

/// Name of the pose-synchronization stage.  Fixed: host stages that must run
/// after physics synchronization declare a dependency on this name.
pub open spec fn sync_name() -> Seq<char> {
    "sync_system"@
}

/// The broad-phase stage: a basic pairwise sweep, or a tree-accelerated sweep
/// over the spatial index when spatial indexing is enabled.
pub open spec fn broad_stage_model(spatial: bool) -> StageModel {
    StageModel {
        name: broad_phase_name(),
        deps: Seq::<Seq<char>>::empty(),
        kind: if spatial {
            StageKind::BroadPhaseSpatial
        } else {
            StageKind::BroadPhaseBasic
        },
    }
}

/// The narrow-phase stage; consumes the broad phase's candidate pairs.
pub open spec fn narrow_stage_model() -> StageModel {
    StageModel {
        name: narrow_phase_name(),
        deps: seq![broad_phase_name()],
        kind: StageKind::NarrowPhase,
    }
}

/// The contact-solver stage; consumes the narrow phase's contact manifolds.
pub open spec fn solver_stage_model() -> StageModel {
    StageModel {
        name: solver_name(),
        deps: seq![narrow_phase_name()],
        kind: StageKind::ContactSolver,
    }
}

/// The pose-synchronization stage; runs strictly after the solver stage.
pub open spec fn sync_stage_model() -> StageModel {
    StageModel { name: sync_name(), deps: seq![solver_name()], kind: StageKind::PoseSync }
}

/// The stages the detection-and-solver setup installs, in dependency order.
pub open spec fn detection_solver_models(spatial: bool) -> Seq<StageModel> {
    seq![broad_stage_model(spatial), narrow_stage_model(), solver_stage_model()]
}

/// Every stage a build appends, in dependency order.
pub open spec fn pipeline_models(spatial: bool) -> Seq<StageModel> {
    detection_solver_models(spatial).push(sync_stage_model())
}

/// Whether the detection-and-solver setup accepts a graph: none of its own
/// stage names is already taken.
pub open spec fn detection_solver_accepts(s: Seq<StageModel>) -> bool {
    &&& !stage_named(s, broad_phase_name())
    &&& !stage_named(s, narrow_phase_name())
    &&& !stage_named(s, solver_name())
}

/// Whether a build accepts a graph: no stage name of the whole pipeline is
/// already taken.
pub open spec fn pipeline_accepts(s: Seq<StageModel>) -> bool {
    detection_solver_accepts(s) && !stage_named(s, sync_name())
}

/// The four pipeline stage names are pairwise distinct.
proof fn lemma_pipeline_names_distinct()
    ensures
        broad_phase_name() != narrow_phase_name(),
        broad_phase_name() != solver_name(),
        broad_phase_name() != sync_name(),
        narrow_phase_name() != solver_name(),
        narrow_phase_name() != sync_name(),
        solver_name() != sync_name(),
{
    reveal_strlit("broad_phase_system");
    reveal_strlit("narrow_phase_system");
    reveal_strlit("physics_solver_system");
    reveal_strlit("sync_system");
    assert(broad_phase_name().len() == 18);
    assert(narrow_phase_name().len() == 19);
    assert(solver_name().len() == 21);
    assert(sync_name().len() == 11);
}

/// Law: a build succeeds on every graph that holds none of the pipeline's
/// four stage names — whatever the dimension and whatever the
/// spatial-indexing setting, since acceptance depends on neither.
pub proof fn lemma_build_succeeds_on_free_names(s: Seq<StageModel>)
    requires
        !stage_named(s, broad_phase_name()),
        !stage_named(s, narrow_phase_name()),
        !stage_named(s, solver_name()),
        !stage_named(s, sync_name()),
    ensures
        pipeline_accepts(s),
{
}

/// Law: after every successful build, `"sync_system"` is registered, with
/// `"physics_solver_system"` among its recorded predecessors.
pub proof fn lemma_sync_depends_on_solver(s: Seq<StageModel>, spatial: bool)
    ensures
        stage_named(s + pipeline_models(spatial), sync_name()),
        stage_depends_on(s + pipeline_models(spatial), sync_name(), solver_name()),
{
    let t = s + pipeline_models(spatial);
    assert(t[s.len() as int + 3] == sync_stage_model());
    assert(sync_stage_model().deps[0] == solver_name());
    assert(sync_stage_model().deps.contains(solver_name()));
}

/// Law: enabling spatial indexing twice on the 2D configurator has the same
/// effect as enabling it once.
pub proof fn lemma_with_spatial_idempotent_2(b: PhysicsBundle2)
    ensures
        b.spec_with_spatial().spec_with_spatial() == b.spec_with_spatial(),
{
}

/// Law: enabling spatial indexing twice on the 3D configurator has the same
/// effect as enabling it once.
pub proof fn lemma_with_spatial_idempotent_3(b: PhysicsBundle3)
    ensures
        b.spec_with_spatial().spec_with_spatial() == b.spec_with_spatial(),
{
}

/// Law: a host stage registered after a successful build with a dependency
/// on `"sync_system"` stands later in the graph than the synchronization
/// stage, which stands later than the solver stage, and the dependency
/// edges host → `"sync_system"` → `"physics_solver_system"` are recorded:
/// the host stage's transitive predecessors include the solver before the
/// synchronization stage before the host stage itself.
pub proof fn lemma_host_stage_ordering(s: Seq<StageModel>, spatial: bool, host: StageModel)
    requires
        pipeline_accepts(s),
        host.deps.contains(sync_name()),
        !stage_named(s, host.name),
        host.name != broad_phase_name(),
        host.name != narrow_phase_name(),
        host.name != solver_name(),
        host.name != sync_name(),
    ensures
        ({
            let t = (s + pipeline_models(spatial)).push(host);
            &&& t[t.len() - 1] == host
            &&& stage_depends_on(t, host.name, sync_name())
            &&& stage_depends_on(t, sync_name(), solver_name())
            &&& crate::stage::stage_index(t, solver_name()) == s.len() + 2
            &&& crate::stage::stage_index(t, sync_name()) == s.len() + 3
            &&& crate::stage::stage_index(t, host.name) == t.len() - 1
            &&& crate::stage::stage_index(t, solver_name()) < crate::stage::stage_index(
                t,
                sync_name(),
            ) < crate::stage::stage_index(t, host.name)
            &&& crate::stage::transitively_depends(t, host.name, sync_name())
            &&& crate::stage::transitively_depends(t, sync_name(), solver_name())
            &&& crate::stage::transitively_depends(t, host.name, solver_name())
        }),
{
    lemma_pipeline_names_distinct();
    let t = (s + pipeline_models(spatial)).push(host);
    assert(t.len() == s.len() + 5);
    assert(t[s.len() as int] == broad_stage_model(spatial));
    assert(t[s.len() as int + 1] == narrow_stage_model());
    assert(t[s.len() as int + 2] == solver_stage_model());
    assert(t[s.len() as int + 3] == sync_stage_model());
    assert(t[t.len() - 1] == host);
    assert(stage_depends_on(t, host.name, sync_name())) by {
        assert(t[t.len() - 1].name == host.name && t[t.len() - 1].deps.contains(sync_name()));
    }
    assert(stage_depends_on(t, sync_name(), solver_name())) by {
        assert(sync_stage_model().deps[0] == solver_name());
        assert(t[s.len() as int + 3].name == sync_name() && t[s.len() as int + 3].deps.contains(
            solver_name(),
        ));
    }
    assert forall|i: int| 0 <= i < t.len() && t[i].name == solver_name() implies i == s.len()
        + 2 by {
        if i < s.len() {
            assert(stage_named(s, solver_name()));
        }
    }
    assert(crate::stage::stage_index(t, solver_name()) == s.len() + 2) by {
        assert(0 <= s.len() + 2 < t.len() && t[s.len() as int + 2].name == solver_name());
        let j = crate::stage::stage_index(t, solver_name());
        assert(0 <= j < t.len() && t[j].name == solver_name());
    }
    assert forall|i: int| 0 <= i < t.len() && t[i].name == sync_name() implies i == s.len()
        + 3 by {
        if i < s.len() {
            assert(stage_named(s, sync_name()));
        }
    }
    assert(crate::stage::stage_index(t, sync_name()) == s.len() + 3) by {
        assert(0 <= s.len() + 3 < t.len() && t[s.len() as int + 3].name == sync_name());
        let j = crate::stage::stage_index(t, sync_name());
        assert(0 <= j < t.len() && t[j].name == sync_name());
    }
    let ih = t.len() - 1;
    assert forall|i: int| 0 <= i < t.len() && t[i].name == host.name implies i == ih by {
        if i < s.len() {
            assert(stage_named(s, host.name));
        }
    }
    assert(crate::stage::stage_index(t, host.name) == ih) by {
        assert(0 <= ih < t.len() && t[ih].name == host.name);
        let j = crate::stage::stage_index(t, host.name);
        assert(0 <= j < t.len() && t[j].name == host.name);
    }
    let isolver = s.len() as int + 2;
    let isync = s.len() as int + 3;
    assert(t[isync].deps.contains(t[isolver].name)) by {
        assert(sync_stage_model().deps[0] == solver_name());
    }
    assert(crate::stage::dep_edge(t, isync, isolver));
    assert(t[ih].deps.contains(t[isync].name));
    assert(crate::stage::dep_edge(t, ih, isync));
    assert(crate::stage::reaches_within(t, ih, isync, 0));
    assert(crate::stage::reaches_within(t, isync, isolver, 0));
    crate::stage::lemma_reaches_step(t, ih, isync, isolver, 0);
    assert(crate::stage::reaches(t, ih, isync));
    assert(crate::stage::reaches(t, isync, isolver));
    assert(crate::stage::reaches(t, ih, isolver));
}

/// Installs the detection and solver stages: broad phase (basic or
/// tree-accelerated, by `spatial`), narrow phase, and the contact solver
/// named `"physics_solver_system"`, in dependency order.
///
/// Fails, leaving the graph unchanged, exactly when one of the three stage
/// names is already registered.
pub fn install_detection_and_solver(graph: &mut StageGraph, spatial: bool) -> (r: Result<
    (),
    ConfigError,
>)
    requires
        old(graph).wf(),
    ensures
        final(graph).wf(),
        r is Ok <==> detection_solver_accepts(old(graph)@),
        r is Ok ==> final(graph)@ == old(graph)@ + detection_solver_models(spatial),
        r is Err ==> final(graph)@ == old(graph)@ && r == Err::<(), ConfigError>(
            ConfigError::DuplicateStage,
        ),
{
    let broad = String::from_str("broad_phase_system");
    let narrow = String::from_str("narrow_phase_system");
    let solver = String::from_str("physics_solver_system");
    if graph.has_stage(&broad) || graph.has_stage(&narrow) || graph.has_stage(&solver) {
        return Err(ConfigError::DuplicateStage);
    }
    let ghost g0 = graph@;
    proof {
        lemma_pipeline_names_distinct();
    }
    let kind = if spatial {
        StageKind::BroadPhaseSpatial
    } else {
        StageKind::BroadPhaseBasic
    };
    match graph.add_stage(broad, Vec::new(), kind) {
        Ok(()) => {}
        Err(e) => {
            proof {
                assert(false);
            }
            return Err(e);
        }
    }
    proof {
        assert(graph@ =~~= g0.push(broad_stage_model(spatial)));
        crate::stage::lemma_stage_named_push(g0, broad_stage_model(spatial), narrow_phase_name());
        crate::stage::lemma_stage_named_push(g0, broad_stage_model(spatial), broad_phase_name());
    }
    let mut narrow_deps: Vec<String> = Vec::new();
    narrow_deps.push(String::from_str("broad_phase_system"));
    assert(narrow_deps@.len() == 1 && narrow_deps@[0]@ == broad_phase_name());
    let ghost g1 = graph@;
    match graph.add_stage(narrow, narrow_deps, StageKind::NarrowPhase) {
        Ok(()) => {}
        Err(e) => {
            proof {
                assert(false);
            }
            return Err(e);
        }
    }
    proof {
        assert(graph@[g1.len() as int].deps =~~= seq![broad_phase_name()]);
        assert(graph@ =~~= g1.push(narrow_stage_model()));
        crate::stage::lemma_stage_named_push(g0, broad_stage_model(spatial), solver_name());
        crate::stage::lemma_stage_named_push(g1, narrow_stage_model(), solver_name());
        crate::stage::lemma_stage_named_push(g1, narrow_stage_model(), narrow_phase_name());
    }
    let mut solver_deps: Vec<String> = Vec::new();
    solver_deps.push(String::from_str("narrow_phase_system"));
    assert(solver_deps@.len() == 1 && solver_deps@[0]@ == narrow_phase_name());
    let ghost g2 = graph@;
    match graph.add_stage(solver, solver_deps, StageKind::ContactSolver) {
        Ok(()) => {}
        Err(e) => {
            proof {
                assert(false);
            }
            return Err(e);
        }
    }
    proof {
        assert(graph@[g2.len() as int].deps =~~= seq![narrow_phase_name()]);
        assert(graph@ =~~= g2.push(solver_stage_model()));
        assert(graph@ =~~= g0 + detection_solver_models(spatial));
    }
    Ok(())
}

/// Installs the whole pipeline: the detection and solver stages, then the
/// pose-synchronization stage named `"sync_system"` with an explicit
/// predecessor dependency on `"physics_solver_system"`.
fn install_pipeline(graph: &mut StageGraph, spatial: bool) -> (r: Result<(), ConfigError>)
    requires
        old(graph).wf(),
    ensures
        final(graph).wf(),
        r is Ok <==> pipeline_accepts(old(graph)@),
        r is Ok ==> final(graph)@ == old(graph)@ + pipeline_models(spatial),
        r is Err ==> final(graph)@ == old(graph)@ && r == Err::<(), ConfigError>(
            ConfigError::DuplicateStage,
        ),
{
    let sync = String::from_str("sync_system");
    if graph.has_stage(&sync) {
        return Err(ConfigError::DuplicateStage);
    }
    let ghost g0 = graph@;
    match install_detection_and_solver(graph, spatial) {
        Ok(()) => {}
        Err(e) => {
            return Err(e);
        }
    }
    proof {
        lemma_pipeline_names_distinct();
        crate::stage::lemma_stage_named_concat(g0, detection_solver_models(spatial), sync_name());
        assert(detection_solver_models(spatial)[0].name == broad_phase_name());
        assert(detection_solver_models(spatial)[1].name == narrow_phase_name());
        assert(detection_solver_models(spatial)[2].name == solver_name());
        assert forall|k: int|
            0 <= k < detection_solver_models(spatial).len() implies detection_solver_models(
            spatial,
        )[k].name != sync_name() by {
            assert(k == 0 || k == 1 || k == 2);
        }
        assert(!stage_named(graph@, sync_name()));
        assert(stage_named(graph@, solver_name())) by {
            assert(graph@[g0.len() as int + 2].name == solver_name());
        }
    }
    let mut sync_deps: Vec<String> = Vec::new();
    sync_deps.push(String::from_str("physics_solver_system"));
    assert(sync_deps@.len() == 1 && sync_deps@[0]@ == solver_name());
    let ghost g3 = graph@;
    match graph.add_stage(sync, sync_deps, StageKind::PoseSync) {
        Ok(()) => {}
        Err(e) => {
            proof {
                assert(false);
            }
            return Err(e);
        }
    }
    proof {
        assert(graph@[g3.len() as int].deps =~~= seq![solver_name()]);
        assert(graph@ =~~= g3.push(sync_stage_model()));
        assert(graph@ =~~= g0 + pipeline_models(spatial));
    }
    Ok(())
}

/// Configurator for the 2D physics pipeline.
///
/// The host binds 2D geometry to the stages it installs: a 2D collision
/// primitive, its bounding volume, and a pose made of a 2D position and a 2D
/// rotation basis.
pub struct PhysicsBundle2 {
    spatial: bool,
}

/// Configurator for the 3D physics pipeline.
///
/// The host binds 3D geometry to the stages it installs: a 3D collision
/// primitive, its bounding volume, and a pose made of a 3D position and a
/// quaternion.
pub struct PhysicsBundle3 {
    spatial: bool,
}

impl PhysicsBundle2 {
    /// Whether spatial indexing is enabled.
    pub closed spec fn spec_spatial(self) -> bool {
        self.spatial
    }

    /// The configurator `with_spatial` returns, whatever it is called on.
    pub closed spec fn spec_with_spatial(self) -> Self {
        PhysicsBundle2 { spatial: true }
    }

    /// Creates a configurator with spatial indexing disabled.
    pub fn new() -> (b: Self)
        ensures
            !b.spec_spatial(),
    {
        PhysicsBundle2 { spatial: false }
    }

    /// Whether spatial indexing is enabled.
    pub fn spatial(&self) -> (r: bool)
        ensures
            r == self.spec_spatial(),
    {
        self.spatial
    }

    /// Enables spatial indexing: the build then installs the tree-accelerated
    /// broad phase in place of the basic one.  Pure option mutation;
    /// idempotent.
    pub fn with_spatial(self) -> (b: Self)
        ensures
            b == self.spec_with_spatial(),
            b.spec_spatial(),
    {
        PhysicsBundle2 { spatial: true }
    }

    /// Builds the 2D pipeline into `graph`: the broad-phase, narrow-phase and
    /// solver stages in dependency order, then the pose-synchronization stage
    /// `"sync_system"` depending on `"physics_solver_system"`.
    ///
    /// Succeeds exactly when no pipeline stage name is already registered;
    /// fails with a configuration error, leaving the graph unchanged,
    /// otherwise.
    pub fn build(self, graph: &mut StageGraph) -> (r: Result<(), ConfigError>)
        requires
            old(graph).wf(),
        ensures
            final(graph).wf(),
            r is Ok <==> pipeline_accepts(old(graph)@),
            r is Ok ==> final(graph)@ == old(graph)@ + pipeline_models(self.spec_spatial()),
            r is Err ==> final(graph)@ == old(graph)@ && r == Err::<(), ConfigError>(
                ConfigError::DuplicateStage,
            ),
    {
        install_pipeline(graph, self.spatial)
    }
}

impl PhysicsBundle3 {
    /// Whether spatial indexing is enabled.
    pub closed spec fn spec_spatial(self) -> bool {
        self.spatial
    }

    /// The configurator `with_spatial` returns, whatever it is called on.
    pub closed spec fn spec_with_spatial(self) -> Self {
        PhysicsBundle3 { spatial: true }
    }

    /// Creates a configurator with spatial indexing disabled.
    pub fn new() -> (b: Self)
        ensures
            !b.spec_spatial(),
    {
        PhysicsBundle3 { spatial: false }
    }

    /// Whether spatial indexing is enabled.
    pub fn spatial(&self) -> (r: bool)
        ensures
            r == self.spec_spatial(),
    {
        self.spatial
    }

    /// Enables spatial indexing: the build then installs the tree-accelerated
    /// broad phase in place of the basic one.  Pure option mutation;
    /// idempotent.
    pub fn with_spatial(self) -> (b: Self)
        ensures
            b == self.spec_with_spatial(),
            b.spec_spatial(),
    {
        PhysicsBundle3 { spatial: true }
    }

    /// Builds the 3D pipeline into `graph`.  The 3D pipeline registers the
    /// same stage graph as the 2D one: the dimensions differ only in the
    /// geometric types the host binds to the stages.
    ///
    /// Succeeds exactly when no pipeline stage name is already registered;
    /// fails with a configuration error, leaving the graph unchanged,
    /// otherwise.
    pub fn build(self, graph: &mut StageGraph) -> (r: Result<(), ConfigError>)
        requires
            old(graph).wf(),
        ensures
            final(graph).wf(),
            r is Ok <==> pipeline_accepts(old(graph)@),
            r is Ok ==> final(graph)@ == old(graph)@ + pipeline_models(self.spec_spatial()),
            r is Err ==> final(graph)@ == old(graph)@ && r == Err::<(), ConfigError>(
                ConfigError::DuplicateStage,
            ),
    {
        install_pipeline(graph, self.spatial)
    }
}

} // verus!
