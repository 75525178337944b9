//! The stage graph: the model of the scheduler's registration boundary.
//!
//! The host scheduler is consumed only through one operation: register a
//! named unit of work together with the names of the stages that must run
//! before it.  A [`StageGraph`] records exactly those registrations, in
//! order, and rejects a duplicate stage name or a predecessor that names no
//! registered stage.

use vstd::prelude::*;
use vstd::string::StringExecFns;

verus! {

/// Error raised while wiring the stage graph at configuration time.
///
/// There is no per-step error: once the graph is built, stepping is
/// unconditional, so every failure surfaces here, at build time.
#[derive(Clone, Copy, Debug, PartialEq, Eq, Structural)]
pub enum ConfigError {
    /// A stage with the same name is already registered.
    DuplicateStage,
    /// A declared predecessor names no registered stage.
    MissingDependency,
}

impl ConfigError {
    /// A short description of the error.
    pub fn message(&self) -> (m: String)
        ensures
            *self == ConfigError::DuplicateStage ==> m@ == "duplicate stage name"@,
            *self == ConfigError::MissingDependency ==> m@
                == "dependency on an unregistered stage"@,
    {
        match self {
            ConfigError::DuplicateStage => String::from_str("duplicate stage name"),
            ConfigError::MissingDependency => String::from_str(
                "dependency on an unregistered stage",
            ),
        }
    }
}

/// The unit of work a registered stage performs.
#[derive(Clone, Copy, Debug, PartialEq, Eq, Structural)]
pub enum StageKind {
    /// Pairwise sweep over bounds, producing candidate overlapping pairs.
    BroadPhaseBasic,
    /// Tree-accelerated sweep over a spatial index, producing candidate pairs.
    BroadPhaseSpatial,
    /// Exact detection over candidate pairs, producing contact manifolds.
    NarrowPhase,
    /// Contact solving; the unique writer of poses for the step.
    ContactSolver,
    /// One-directional copy of each pose into the host transform.
    PoseSync,
    /// A stage owned by the host, outside this pipeline.
    Host,
}

/// A named unit of scheduled work together with the names of the stages that
/// must run before it.
pub struct Stage {
    pub name: String,
    pub deps: Vec<String>,
    pub kind: StageKind,
}

/// Mathematical model of one registered stage.
#[verifier::ext_equal]
pub ghost struct StageModel {
    pub name: Seq<char>,
    pub deps: Seq<Seq<char>>,
    pub kind: StageKind,
}

impl View for Stage {
    type V = StageModel;

    open spec fn view(&self) -> StageModel {
        StageModel { name: self.name@, deps: self.deps.deep_view(), kind: self.kind }
    }
}

impl DeepView for Stage {
    type V = StageModel;

    open spec fn deep_view(&self) -> StageModel {
        self.view()
    }
}

/// Whether some stage of `s` bears the name `name`.
pub open spec fn stage_named(s: Seq<StageModel>, name: Seq<char>) -> bool {
    exists|i: int| 0 <= i < s.len() && s[i].name == name
}

/// Whether the stage of `s` named `name` lists `dep` among its predecessors.
pub open spec fn stage_depends_on(s: Seq<StageModel>, name: Seq<char>, dep: Seq<char>) -> bool {
    exists|i: int| 0 <= i < s.len() && s[i].name == name && s[i].deps.contains(dep)
}

/// The position of the stage of `s` named `name`; meaningful when exactly
/// one stage bears the name.
pub open spec fn stage_index(s: Seq<StageModel>, name: Seq<char>) -> int {
    choose|i: int| 0 <= i < s.len() && s[i].name == name
}

/// Whether some stage among the first `i` stages of `s` bears the name `name`.
pub open spec fn stage_named_before(s: Seq<StageModel>, i: int, name: Seq<char>) -> bool {
    exists|j: int| 0 <= j < i && s[j].name == name
}

/// No two stages of `s` bear the same name.
pub open spec fn names_unique(s: Seq<StageModel>) -> bool {
    forall|i: int, j: int| 0 <= i < j < s.len() ==> s[i].name != s[j].name
}

/// Every declared predecessor names a stage registered earlier.
pub open spec fn deps_registered_earlier(s: Seq<StageModel>) -> bool {
    forall|i: int, k: int|
        0 <= i < s.len() && 0 <= k < s[i].deps.len() ==> stage_named_before(
            s,
            i,
            #[trigger] s[i].deps[k],
        )
}

/// Well-formedness of a recorded graph: stage names are unique, and every
/// declared predecessor names a stage registered earlier.  In particular the
/// dependency relation is acyclic.
pub open spec fn graph_wf(s: Seq<StageModel>) -> bool {
    names_unique(s) && deps_registered_earlier(s)
}

/// A direct dependency edge: the stage at `i` lists the name of the stage
/// at `j` among its predecessors.
pub open spec fn dep_edge(s: Seq<StageModel>, i: int, j: int) -> bool {
    &&& 0 <= i < s.len()
    &&& 0 <= j < s.len()
    &&& s[i].deps.contains(s[j].name)
}

/// Whether a chain of one or more dependency edges, at most `fuel` + 1 of
/// them, leads from the stage at `i` to the stage at `j`.
pub open spec fn reaches_within(s: Seq<StageModel>, i: int, j: int, fuel: nat) -> bool
    decreases fuel,
{
    dep_edge(s, i, j) || (fuel > 0 && exists|k: int|
        #[trigger] dep_edge(s, i, k) && reaches_within(s, k, j, (fuel - 1) as nat))
}

/// Whether the stage at `i` transitively depends on the stage at `j`: a
/// chain of one or more dependency edges leads from `i` to `j`.
pub open spec fn reaches(s: Seq<StageModel>, i: int, j: int) -> bool {
    exists|fuel: nat| reaches_within(s, i, j, fuel)
}

/// Whether the stage named `name` transitively depends on the stage named
/// `pred`; meaningful in a well-formed graph, where names are unique.
pub open spec fn transitively_depends(s: Seq<StageModel>, name: Seq<char>, pred: Seq<char>) -> bool {
    &&& stage_named(s, name)
    &&& stage_named(s, pred)
    &&& reaches(s, stage_index(s, name), stage_index(s, pred))
}

/// In a well-formed graph a dependency edge points to a strictly earlier
/// stage.
proof fn lemma_dep_edge_descends(s: Seq<StageModel>, i: int, j: int)
    requires
        graph_wf(s),
        dep_edge(s, i, j),
    ensures
        j < i,
{
    let k = choose|k: int| 0 <= k < s[i].deps.len() && s[i].deps[k] == s[j].name;
    assert(stage_named_before(s, i, s[i].deps[k]));
    let j2 = choose|j2: int| 0 <= j2 < i && s[j2].name == s[i].deps[k];
    assert(names_unique(s));
    if j2 < j {
        assert(s[j2].name != s[j].name);
    } else if j < j2 {
        assert(s[j].name != s[j2].name);
    }
}

/// In a well-formed graph every dependency chain descends: its target
/// stands strictly earlier than its source.
proof fn lemma_reaches_within_descends(s: Seq<StageModel>, i: int, j: int, fuel: nat)
    requires
        graph_wf(s),
        reaches_within(s, i, j, fuel),
    ensures
        j < i,
    decreases fuel,
{
    if dep_edge(s, i, j) {
        lemma_dep_edge_descends(s, i, j);
    } else {
        let k = choose|k: int|
            dep_edge(s, i, k) && reaches_within(s, k, j, (fuel - 1) as nat);
        lemma_dep_edge_descends(s, i, k);
        lemma_reaches_within_descends(s, k, j, (fuel - 1) as nat);
    }
}

/// A dependency chain extended by one more edge at its end is still a
/// dependency chain.
pub proof fn lemma_reaches_step(s: Seq<StageModel>, i: int, x: int, j: int, fuel: nat)
    requires
        reaches_within(s, i, x, fuel),
        dep_edge(s, x, j),
    ensures
        reaches_within(s, i, j, (fuel + 1) as nat),
    decreases fuel,
{
    if dep_edge(s, i, x) {
        assert(reaches_within(s, x, j, fuel));
        assert(dep_edge(s, i, x) && reaches_within(s, x, j, fuel));
    } else {
        let k = choose|k: int|
            dep_edge(s, i, k) && reaches_within(s, k, x, (fuel - 1) as nat);
        lemma_reaches_step(s, k, x, j, (fuel - 1) as nat);
        assert(dep_edge(s, i, k) && reaches_within(s, k, j, fuel));
    }
}

/// Whether `mark` is closed under dependency edges: every dependency target
/// of a marked stage is marked.
spec fn marks_closed(s: Seq<StageModel>, mark: Seq<bool>) -> bool {
    forall|x: int, y: int|
        #![trigger mark[x], dep_edge(s, x, y)]
        0 <= x < mark.len() && mark.len() == s.len() && mark[x] && dep_edge(s, x, y) ==> mark[y]
}

/// Every stage reachable from a marked stage is marked, when the marking is
/// closed under dependency edges.
proof fn lemma_closed_marks_reachable(
    s: Seq<StageModel>,
    mark: Seq<bool>,
    i: int,
    j: int,
    fuel: nat,
)
    requires
        mark.len() == s.len(),
        marks_closed(s, mark),
        0 <= i < s.len(),
        mark[i],
        reaches_within(s, i, j, fuel),
    ensures
        0 <= j < s.len(),
        mark[j],
    decreases fuel,
{
    if dep_edge(s, i, j) {
    } else {
        let k = choose|k: int|
            dep_edge(s, i, k) && reaches_within(s, k, j, (fuel - 1) as nat);
        lemma_closed_marks_reachable(s, mark, k, j, (fuel - 1) as nat);
    }
}

/// Among names drawn from the first `k` predecessors of the stage at `x`.
spec fn dep_name_among(s: Seq<StageModel>, x: int, k: int, name: Seq<char>) -> bool {
    exists|m: int| 0 <= m < k && s[x].deps[m] == name
}

/// Law: in a well-formed graph a stage name determines its position.
pub proof fn lemma_stage_index_unique(s: Seq<StageModel>, i: int, name: Seq<char>)
    requires
        graph_wf(s),
        0 <= i < s.len(),
        s[i].name == name,
    ensures
        stage_index(s, name) == i,
{
    assert(stage_named(s, name));
    let q = stage_index(s, name);
    assert(0 <= q < s.len() && s[q].name == name);
    assert(names_unique(s));
    if q < i {
        assert(s[q].name != s[i].name);
    } else if i < q {
        assert(s[i].name != s[q].name);
    }
}

/// Law: in a well-formed graph every recorded dependency edge points to an
/// earlier stage: whenever the stage named `a` lists `b` among its
/// predecessors, both are registered and `b` stands strictly before `a`.
/// Registration order is therefore a valid execution order, and no
/// dependency chain can cycle.
pub proof fn lemma_dependency_points_earlier(s: Seq<StageModel>, a: Seq<char>, b: Seq<char>)
    requires
        graph_wf(s),
        stage_depends_on(s, a, b),
    ensures
        stage_named(s, a),
        stage_named(s, b),
        stage_index(s, b) < stage_index(s, a),
{
    let i = choose|i: int| 0 <= i < s.len() && s[i].name == a && s[i].deps.contains(b);
    assert(stage_named(s, a));
    let k = choose|k: int| 0 <= k < s[i].deps.len() && s[i].deps[k] == b;
    assert(stage_named_before(s, i, s[i].deps[k]));
    let j = choose|j: int| 0 <= j < i && s[j].name == s[i].deps[k];
    assert(s[j].name == b);
    assert(stage_named(s, b));
    let ia = stage_index(s, a);
    assert(0 <= ia < s.len() && s[ia].name == a);
    assert(names_unique(s));
    assert(ia == i) by {
        if ia < i {
            assert(s[ia].name != s[i].name);
        } else if i < ia {
            assert(s[i].name != s[ia].name);
        }
    }
    let ib = stage_index(s, b);
    assert(0 <= ib < s.len() && s[ib].name == b);
    assert(ib == j) by {
        if ib < j {
            assert(s[ib].name != s[j].name);
        } else if j < ib {
            assert(s[j].name != s[ib].name);
        }
    }
}

/// A pushed stage is named `name` exactly when the pushed model bears the
/// name or some earlier stage does.
pub proof fn lemma_stage_named_push(s: Seq<StageModel>, m: StageModel, name: Seq<char>)
    ensures
        stage_named(s.push(m), name) <==> (stage_named(s, name) || m.name == name),
{
    let t = s.push(m);
    if stage_named(t, name) {
        let i = choose|i: int| 0 <= i < t.len() && t[i].name == name;
        if i < s.len() {
            assert(s[i].name == name);
        } else {
            assert(t[i] == m);
        }
    }
    if stage_named(s, name) {
        let i = choose|i: int| 0 <= i < s.len() && s[i].name == name;
        assert(t[i].name == name);
    }
    if m.name == name {
        assert(t[s.len() as int].name == name);
    }
}

/// A stage of a concatenation is named `name` exactly when one of the parts
/// holds a stage of that name.
pub proof fn lemma_stage_named_concat(s: Seq<StageModel>, t: Seq<StageModel>, name: Seq<char>)
    ensures
        stage_named(s + t, name) <==> (stage_named(s, name) || stage_named(t, name)),
{
    let u = s + t;
    if stage_named(u, name) {
        let i = choose|i: int| 0 <= i < u.len() && u[i].name == name;
        if i < s.len() {
            assert(s[i].name == name);
        } else {
            assert(t[i - s.len()].name == name);
        }
    }
    if stage_named(s, name) {
        let i = choose|i: int| 0 <= i < s.len() && s[i].name == name;
        assert(u[i].name == name);
    }
    if stage_named(t, name) {
        let i = choose|i: int| 0 <= i < t.len() && t[i].name == name;
        assert(u[s.len() + i].name == name);
    }
}

/// The record of every stage registered with the scheduler, in registration
/// order.
pub struct StageGraph {
    stages: Vec<Stage>,
}

impl View for StageGraph {
    type V = Seq<StageModel>;

    closed spec fn view(&self) -> Seq<StageModel> {
        self.stages.deep_view()
    }
}

impl StageGraph {
    /// Well-formedness: established by `new` and preserved by `add_stage`.
    pub open spec fn wf(&self) -> bool {
        graph_wf(self@)
    }

    /// An empty graph: no stage registered yet.
    pub fn new() -> (g: Self)
        ensures
            g@ == Seq::<StageModel>::empty(),
            g.wf(),
    {
        let g = StageGraph { stages: Vec::new() };
        proof {
            assert(g@ =~= Seq::<StageModel>::empty());
        }
        g
    }

    /// How many stages are registered.
    pub fn len(&self) -> (n: usize)
        ensures
            n == self@.len(),
    {
        self.stages.len()
    }

    /// Whether a stage named `name` is registered.
    pub fn has_stage(&self, name: &String) -> (r: bool)
        ensures
            r == stage_named(self@, name@),
    {
        let n = self.stages.len();
        let mut i: usize = 0;
        while i < n
            invariant
                0 <= i <= n,
                n == self@.len(),
                self@.len() == self.stages@.len(),
                forall|j: int| 0 <= j < i ==> self@[j].name != name@,
            decreases n - i,
        {
            if self.stages[i].name == *name {
                assert(self@[i as int].name == name@);
                return true;
            }
            i += 1;
        }
        false
    }

    /// The name of the stage at position `i`.
    pub fn stage_name(&self, i: usize) -> (name: &String)
        requires
            i < self@.len(),
        ensures
            name@ == self@[i as int].name,
    {
        &self.stages[i].name
    }

    /// The kind of the stage at position `i`.
    pub fn stage_kind(&self, i: usize) -> (k: StageKind)
        requires
            i < self@.len(),
        ensures
            k == self@[i as int].kind,
    {
        self.stages[i].kind
    }

    /// How many predecessors the stage at position `i` declares.
    pub fn dep_count(&self, i: usize) -> (n: usize)
        requires
            i < self@.len(),
        ensures
            n == self@[i as int].deps.len(),
    {
        self.stages[i].deps.len()
    }

    /// The name of the `j`th declared predecessor of the stage at position
    /// `i`.
    pub fn dep_at(&self, i: usize, j: usize) -> (dep: &String)
        requires
            i < self@.len(),
            j < self@[i as int].deps.len(),
        ensures
            dep@ == self@[i as int].deps[j as int],
    {
        &self.stages[i].deps[j]
    }

    /// The position of the registered stage named `name`, if any.
    fn find_stage(&self, name: &String) -> (r: Option<usize>)
        ensures
            match r {
                Some(i) => i < self@.len() && self@[i as int].name == name@,
                None => !stage_named(self@, name@),
            },
    {
        let n = self.stages.len();
        let mut i: usize = 0;
        while i < n
            invariant
                0 <= i <= n,
                n == self@.len(),
                self@.len() == self.stages@.len(),
                forall|j: int| 0 <= j < i ==> self@[j].name != name@,
            decreases n - i,
        {
            if self.stages[i].name == *name {
                return Some(i);
            }
            i += 1;
        }
        None
    }

    /// Whether the stage named `name` transitively depends on the stage
    /// named `pred`: a chain of one or more recorded dependency edges leads
    /// from the one to the other.
    pub fn runs_after(&self, name: &String, pred: &String) -> (r: bool)
        requires
            self.wf(),
        ensures
            r == transitively_depends(self@, name@, pred@),
    {
        let ghost s = self@;
        let ia: usize = match self.find_stage(name) {
            Some(i) => i,
            None => {
                return false;
            }
        };
        let ib: usize = match self.find_stage(pred) {
            Some(i) => i,
            None => {
                return false;
            }
        };
        proof {
            lemma_stage_index_unique(s, ia as int, name@);
            lemma_stage_index_unique(s, ib as int, pred@);
        }
        if ia == ib {
            proof {
                if reaches(s, ia as int, ib as int) {
                    let fuel = choose|fuel: nat| reaches_within(s, ia as int, ib as int, fuel);
                    lemma_reaches_within_descends(s, ia as int, ib as int, fuel);
                }
            }
            return false;
        }
        let n = self.stages.len();
        let mut mark: Vec<bool> = Vec::new();
        let mut z: usize = 0;
        while z < n
            invariant
                0 <= z <= n,
                mark@.len() == z,
                forall|t: int| 0 <= t < z ==> !mark@[t],
            decreases n - z,
        {
            mark.push(false);
            z += 1;
        }
        mark[ia] = true;
        let mut step: usize = 0;
        while step <= ia
            invariant
                self.wf(),
                s == self@,
                n == s.len(),
                self@.len() == self.stages@.len(),
                ia < n,
                ib < n,
                ia != ib,
                s[ia as int].name == name@,
                s[ib as int].name == pred@,
                0 <= step <= ia + 1,
                mark@.len() == n,
                mark@[ia as int],
                forall|t: int| 0 <= t < n && #[trigger] mark@[t] ==> t <= ia,
                forall|t: int|
                    0 <= t < n && #[trigger] mark@[t] ==> t == ia || reaches(s, ia as int, t),
                forall|x: int, y: int|
                    #![trigger mark@[x], dep_edge(s, x, y)]
                    ia - step < x <= ia && 0 <= x < n && mark@[x] && dep_edge(s, x, y)
                        ==> mark@[y],
            decreases ia + 1 - step,
        {
            let x = ia - step;
            if mark[x] {
                let dcount = self.stages[x].deps.len();
                let mut k: usize = 0;
                while k < dcount
                    invariant
                        self.wf(),
                        s == self@,
                        n == s.len(),
                        self@.len() == self.stages@.len(),
                        ia < n,
                        ib < n,
                        ia != ib,
                        step <= ia,
                        x == ia - step,
                        dcount == s[x as int].deps.len(),
                        0 <= k <= dcount,
                        mark@.len() == n,
                        mark@[ia as int],
                        mark@[x as int],
                        forall|t: int| 0 <= t < n && #[trigger] mark@[t] ==> t <= ia,
                        forall|t: int|
                            0 <= t < n && #[trigger] mark@[t] ==> t == ia || reaches(
                                s,
                                ia as int,
                                t,
                            ),
                        forall|x2: int, y: int|
                            #![trigger mark@[x2], dep_edge(s, x2, y)]
                            ia - step < x2 <= ia && 0 <= x2 < n && mark@[x2] && dep_edge(
                                s,
                                x2,
                                y,
                            ) ==> mark@[y],
                        forall|j2: int|
                            0 <= j2 < n && dep_name_among(s, x as int, k as int, #[trigger] s[j2].name)
                                ==> mark@[j2],
                    decreases dcount - k,
                {
                    let jd: usize = match self.find_stage(&self.stages[x].deps[k]) {
                        Some(j) => j,
                        None => {
                            proof {
                                assert(deps_registered_earlier(s));
                                assert(stage_named_before(s, x as int, s[x as int].deps[k as int]));
                                let jw = choose|j: int|
                                    0 <= j < x as int && s[j].name == s[x as int].deps[k as int];
                                assert(self.stages@[x as int].deps@[k as int]@
                                    == s[x as int].deps[k as int]);
                                assert(stage_named(s, s[jw].name));
                                assert(false);
                            }
                            return false;
                        }
                    };
                    let ghost pre_mark = mark@;
                    mark[jd] = true;
                    proof {
                        assert(self.stages@[x as int].deps@[k as int]@
                            == s[x as int].deps[k as int]);
                        assert(s[jd as int].name == s[x as int].deps[k as int]);
                        assert(s[x as int].deps.contains(s[jd as int].name));
                        assert(dep_edge(s, x as int, jd as int));
                        lemma_dep_edge_descends(s, x as int, jd as int);
                        if x == ia {
                            assert(reaches_within(s, ia as int, jd as int, 0));
                            assert(reaches(s, ia as int, jd as int));
                        } else {
                            assert(reaches(s, ia as int, x as int));
                            let fuel = choose|fuel: nat|
                                reaches_within(s, ia as int, x as int, fuel);
                            lemma_reaches_step(s, ia as int, x as int, jd as int, fuel);
                            assert(reaches(s, ia as int, jd as int));
                        }
                        assert(mark@ =~= pre_mark.update(jd as int, true));
                        assert forall|j2: int|
                            0 <= j2 < n && dep_name_among(
                                s,
                                x as int,
                                k as int + 1,
                                #[trigger] s[j2].name,
                            ) implies mark@[j2] by {
                            let m = choose|m: int|
                                0 <= m < k as int + 1 && s[x as int].deps[m] == s[j2].name;
                            if m < k as int {
                                assert(dep_name_among(s, x as int, k as int, s[j2].name));
                                assert(pre_mark[j2]);
                            } else {
                                assert(s[j2].name == s[jd as int].name);
                                assert(names_unique(s));
                                if j2 < jd as int {
                                    assert(s[j2].name != s[jd as int].name);
                                } else if (jd as int) < j2 {
                                    assert(s[jd as int].name != s[j2].name);
                                }
                                assert(j2 == jd as int);
                            }
                        }
                    }
                    k += 1;
                }
                proof {
                    assert forall|y: int| dep_edge(s, x as int, y) implies mark@[y] by {
                        let m = choose|m: int|
                            0 <= m < s[x as int].deps.len() && s[x as int].deps[m] == s[y].name;
                        assert(dep_name_among(s, x as int, dcount as int, s[y].name));
                    }
                }
            }
            step += 1;
        }
        let result = mark[ib];
        proof {
            assert(marks_closed(s, mark@)) by {
                assert forall|x2: int, y: int|
                    0 <= x2 < mark@.len() && mark@.len() == s.len() && mark@[x2] && dep_edge(
                        s,
                        x2,
                        y,
                    ) implies mark@[y] by {
                    assert(x2 <= ia);
                    assert(ia - step < x2);
                }
            }
            if !result && reaches(s, ia as int, ib as int) {
                let fuel = choose|fuel: nat| reaches_within(s, ia as int, ib as int, fuel);
                lemma_closed_marks_reachable(s, mark@, ia as int, ib as int, fuel);
            }
        }
        result
    }

    /// Whether the stage named `name` is registered and lists `dep` among
    /// its predecessors.
    pub fn stage_has_dep(&self, name: &String, dep: &String) -> (r: bool)
        requires
            self.wf(),
        ensures
            r == stage_depends_on(self@, name@, dep@),
    {
        let n = self.stages.len();
        let mut i: usize = 0;
        while i < n
            invariant
                0 <= i <= n,
                n == self@.len(),
                self@.len() == self.stages@.len(),
                self.wf(),
                forall|j: int| 0 <= j < i ==> self@[j].name != name@,
            decreases n - i,
        {
            if self.stages[i].name == *name {
                let ndeps = self.stages[i].deps.len();
                let mut k: usize = 0;
                while k < ndeps
                    invariant
                        0 <= k <= ndeps,
                        i < n,
                        n == self@.len(),
                        self@.len() == self.stages@.len(),
                        self.wf(),
                        ndeps == self@[i as int].deps.len(),
                        self@[i as int].name == name@,
                        forall|m: int| 0 <= m < k ==> self@[i as int].deps[m] != dep@,
                    decreases ndeps - k,
                {
                    if self.stages[i].deps[k] == *dep {
                        assert(self@[i as int].deps[k as int] == dep@);
                        assert(self@[i as int].deps.contains(dep@));
                        return true;
                    }
                    k += 1;
                }
                proof {
                    assert(!self@[i as int].deps.contains(dep@));
                    assert forall|j: int|
                        0 <= j < self@.len() && self@[j].name == name@ implies !self@[j].deps.contains(
                        dep@,
                    ) by {
                        assert(names_unique(self@));
                        if j < i as int {
                        } else if j > i as int {
                            assert(self@[i as int].name != self@[j].name);
                        }
                    }
                }
                return false;
            }
            i += 1;
        }
        false
    }

    /// Registers a stage: `name` as a new unit of work of kind `kind`, to run
    /// after every stage named in `deps`.
    ///
    /// Fails, leaving the graph unchanged, when `name` is already registered
    /// (`DuplicateStage`) or, failing that, when some entry of `deps` names no
    /// registered stage (`MissingDependency`).
    pub fn add_stage(&mut self, name: String, deps: Vec<String>, kind: StageKind) -> (r: Result<
        (),
        ConfigError,
    >)
        requires
            old(self).wf(),
        ensures
            final(self).wf(),
            r is Ok <==> !stage_named(old(self)@, name@) && (forall|k: int|
                0 <= k < deps@.len() ==> stage_named(old(self)@, #[trigger] deps@[k]@)),
            r is Ok ==> final(self)@ == old(self)@.push(
                StageModel { name: name@, deps: deps.deep_view(), kind },
            ),
            r is Err ==> final(self)@ == old(self)@,
            r == Err::<(), ConfigError>(ConfigError::DuplicateStage) <==> stage_named(
                old(self)@,
                name@,
            ),
            r == Err::<(), ConfigError>(ConfigError::MissingDependency) <==> (!stage_named(
                old(self)@,
                name@,
            ) && exists|k: int|
                0 <= k < deps@.len() && !stage_named(old(self)@, #[trigger] deps@[k]@)),
    {
        if self.has_stage(&name) {
            return Err(ConfigError::DuplicateStage);
        }
        let n = deps.len();
        let mut k: usize = 0;
        while k < n
            invariant
                0 <= k <= n,
                n == deps@.len(),
                self@ == old(self)@,
                self.wf(),
                !stage_named(self@, name@),
                forall|m: int| 0 <= m < k ==> stage_named(self@, #[trigger] deps@[m]@),
            decreases n - k,
        {
            if !self.has_stage(&deps[k]) {
                return Err(ConfigError::MissingDependency);
            }
            k += 1;
        }
        let ghost pre = self@;
        let ghost model = StageModel { name: name@, deps: deps.deep_view(), kind };
        let stage = Stage { name, deps, kind };
        self.stages.push(stage);
        proof {
            assert(self@ =~= pre.push(model));
            assert forall|i: int, j: int| 0 <= i < j < self@.len() implies self@[i].name
                != self@[j].name by {
                if j < pre.len() {
                    assert(pre[i].name != pre[j].name);
                } else {
                    assert(self@[j].name == model.name);
                    assert(!stage_named(pre, model.name));
                    assert(pre[i].name != model.name);
                }
            }
            assert(names_unique(self@));
            assert forall|i: int, k2: int|
                0 <= i < self@.len() && 0 <= k2 < self@[i].deps.len() implies stage_named_before(
                self@,
                i,
                #[trigger] self@[i].deps[k2],
            ) by {
                if i < pre.len() {
                    assert(deps_registered_earlier(pre));
                    assert(stage_named_before(pre, i, pre[i].deps[k2]));
                    let j = choose|j: int| 0 <= j < i && pre[j].name == pre[i].deps[k2];
                    assert(self@[j].name == self@[i].deps[k2]);
                } else {
                    assert(self@[i].deps =~= model.deps);
                    assert(model.deps[k2] == deps@[k2]@);
                    assert(stage_named(pre, deps@[k2]@));
                    let j = choose|j: int| 0 <= j < pre.len() && pre[j].name == deps@[k2]@;
                    assert(self@[j].name == self@[i].deps[k2]);
                }
            }
            assert(deps_registered_earlier(self@));
        }
        Ok(())
    }
}

} // verus!
