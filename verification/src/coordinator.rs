//! The build coordinator: one pipeline per component, each on its own, and
//! one outcome per component whatever became of the others.

use vstd::prelude::*;
use crate::component::{resolve_git_ref, resolved_ref, ComponentSpec, ComponentSpecView};
use crate::config::{component_config, find_component, ComponentConfig, ComponentConfigView};
use crate::text::{
    concat2, first_index, lemma_first_index, lemma_first_index_bounds, opt_text, pairs_view,
    seq_view, str_eq, string_views,
};

verus! {

/// The two build systems.
#[derive(Debug, Clone, Copy, PartialEq, Eq, Structural)]
pub enum BuildSystem {
    /// The Go-ecosystem builder: one image per import path.
    Ko,
    /// The generic container builder: builds, then pushes, each declared image.
    Container,
}

/// The build system that a configuration names.
pub open spec fn build_system_model(build_system: Option<Seq<char>>) -> BuildSystem {
    if build_system == Some("docker"@) {
        BuildSystem::Container
    } else {
        BuildSystem::Ko
    }
}

/// The build system that `cfg` names: the container builder for "docker",
/// the Go-ecosystem builder otherwise.
pub fn build_system_of(cfg: &ComponentConfig) -> (r: BuildSystem)
    ensures
        r == build_system_model(cfg@.build_system),
{
    match &cfg.build_system {
        Some(s) => {
            if str_eq(s.as_str(), "docker") {
                BuildSystem::Container
            } else {
                BuildSystem::Ko
            }
        },
        None => BuildSystem::Ko,
    }
}

/// How the source of a component is brought into its workspace.
#[derive(Debug, Clone)]
pub enum ClonePlan {
    /// A shallow clone of the default branch.
    DefaultBranch,
    /// An empty workspace, a shallow fetch of exactly this refspec, and a
    /// checkout of what was fetched.
    FetchRef { refspec: String },
}

/// What a `ClonePlan` holds, as plain sequences.
pub enum ClonePlanView {
    DefaultBranch,
    FetchRef { refspec: Seq<char> },
}

impl View for ClonePlan {
    type V = ClonePlanView;

    open spec fn view(&self) -> ClonePlanView {
        match self {
            ClonePlan::DefaultBranch => ClonePlanView::DefaultBranch,
            ClonePlan::FetchRef { refspec } => ClonePlanView::FetchRef { refspec: refspec@ },
        }
    }
}

/// The clone plan for an optional ref: with a ref, a fetch of its refspec;
/// without one, the default branch.
pub open spec fn clone_plan_model(git_ref: Option<Seq<char>>) -> ClonePlanView {
    match git_ref {
        Some(r) => ClonePlanView::FetchRef { refspec: resolved_ref(r) },
        None => ClonePlanView::DefaultBranch,
    }
}

/// The clone plan for an optional ref.
pub fn clone_plan(git_ref: &Option<String>) -> (r: ClonePlan)
    ensures
        r@ == clone_plan_model(opt_text(*git_ref)),
{
    match git_ref {
        Some(r) => ClonePlan::FetchRef { refspec: resolve_git_ref(r.as_str()) },
        None => ClonePlan::DefaultBranch,
    }
}

/// All that one build pipeline needs to run.
#[derive(Debug, Clone)]
pub struct BuildJob {
    pub component: String,
    pub repo: String,
    pub clone: ClonePlan,
    pub system: BuildSystem,
    pub import_paths: Vec<String>,
    pub images: Vec<(String, String)>,
    pub registry: String,
}

/// What a `BuildJob` holds, as plain sequences.
pub struct BuildJobView {
    pub component: Seq<char>,
    pub repo: Seq<char>,
    pub clone: ClonePlanView,
    pub system: BuildSystem,
    pub import_paths: Seq<Seq<char>>,
    pub images: Seq<(Seq<char>, Seq<char>)>,
    pub registry: Seq<char>,
}

impl View for BuildJob {
    type V = BuildJobView;

    open spec fn view(&self) -> BuildJobView {
        BuildJobView {
            component: self.component@,
            repo: self.repo@,
            clone: self.clone@,
            system: self.system,
            import_paths: string_views(self.import_paths@),
            images: pairs_view(self.images@),
            registry: self.registry@,
        }
    }
}

/// The job of a component with the configuration `cfg`.
pub open spec fn job_model(
    spec: ComponentSpecView,
    cfg: ComponentConfigView,
    registry: Seq<char>,
) -> BuildJobView {
    BuildJobView {
        component: spec.name,
        repo: cfg.repo,
        clone: clone_plan_model(spec.git_ref),
        system: build_system_model(cfg.build_system),
        import_paths: cfg.import_paths,
        images: cfg.images,
        registry,
    }
}

/// A copy of `v`.
pub fn copy_strings(v: &Vec<String>) -> (r: Vec<String>)
    ensures
        string_views(r@) == string_views(v@),
{
    let mut r: Vec<String> = Vec::new();
    let mut i: usize = 0;
    while i < v.len()
        invariant
            i <= v.len(),
            r.len() == i,
            forall|j: int| 0 <= j < i ==> (#[trigger] r@[j])@ == v@[j]@,
        decreases v.len() - i,
    {
        r.push(v[i].clone());
        i = i + 1;
    }
    assert(string_views(r@) == string_views(v@));
    r
}

/// A copy of `v`.
pub fn copy_pairs(v: &Vec<(String, String)>) -> (r: Vec<(String, String)>)
    ensures
        pairs_view(r@) == pairs_view(v@),
{
    let mut r: Vec<(String, String)> = Vec::new();
    let mut i: usize = 0;
    while i < v.len()
        invariant
            i <= v.len(),
            r.len() == i,
            forall|j: int|
                0 <= j < i ==> (#[trigger] r@[j]).0@ == v@[j].0@ && r@[j].1@ == v@[j].1@,
        decreases v.len() - i,
    {
        r.push((v[i].0.clone(), v[i].1.clone()));
        i = i + 1;
    }
    assert(pairs_view(r@) == pairs_view(v@));
    r
}

/// Plans the pipeline of one component. A component that the configuration
/// lacks gets no job: nothing is to be run for it.
pub fn plan_build(
    spec: &ComponentSpec,
    configs: &Vec<(String, ComponentConfig)>,
    registry: &str,
) -> (r: Option<BuildJob>)
    ensures
        match (r, component_config(configs@, spec@.name)) {
            (Some(job), Some(cfg)) => job@ == job_model(spec@, cfg@, registry@),
            (None, None) => true,
            _ => false,
        },
{
    match find_component(configs, spec.name.as_str()) {
        None => None,
        Some(cfg) => Some(
            BuildJob {
                component: spec.name.clone(),
                repo: cfg.repo.clone(),
                clone: clone_plan(&spec.git_ref),
                system: build_system_of(cfg),
                import_paths: copy_strings(&cfg.import_paths),
                images: copy_pairs(&cfg.images),
                registry: registry.to_owned(),
            },
        ),
    }
}

/// The phases that a pipeline passes through, as an observer sees them.
#[derive(Debug, Clone, Copy, PartialEq, Eq, Structural)]
pub enum BuildPhase {
    Queued,
    Cloning,
    Building,
    Done,
    Failed,
}

/// The phase that follows `phase` when its stage ended well, or did not.
pub open spec fn next_phase_model(phase: BuildPhase, stage_ok: bool) -> BuildPhase {
    match phase {
        BuildPhase::Queued => if stage_ok {
            BuildPhase::Cloning
        } else {
            BuildPhase::Failed
        },
        BuildPhase::Cloning => if stage_ok {
            BuildPhase::Building
        } else {
            BuildPhase::Failed
        },
        BuildPhase::Building => if stage_ok {
            BuildPhase::Done
        } else {
            BuildPhase::Failed
        },
        BuildPhase::Done => BuildPhase::Done,
        BuildPhase::Failed => BuildPhase::Failed,
    }
}

/// The phase that follows `phase`: the next one where its stage ended well,
/// `Failed` where it did not; `Done` and `Failed` are final.
pub fn next_phase(phase: BuildPhase, stage_ok: bool) -> (r: BuildPhase)
    ensures
        r == next_phase_model(phase, stage_ok),
{
    match phase {
        BuildPhase::Queued => if stage_ok {
            BuildPhase::Cloning
        } else {
            BuildPhase::Failed
        },
        BuildPhase::Cloning => if stage_ok {
            BuildPhase::Building
        } else {
            BuildPhase::Failed
        },
        BuildPhase::Building => if stage_ok {
            BuildPhase::Done
        } else {
            BuildPhase::Failed
        },
        BuildPhase::Done => BuildPhase::Done,
        BuildPhase::Failed => BuildPhase::Failed,
    }
}

/// How far one pipeline got, and what stopped it.
#[derive(Debug, Clone)]
pub enum PipelineTrace {
    /// No private workspace could be had.
    WorkspaceFailed(String),
    /// The source could not be brought in.
    CloneFailed(String),
    /// The build system failed.
    BuildFailed(String),
    /// The images that were built: short name and pinned reference.
    Built(Vec<(String, String)>),
}

/// What a `PipelineTrace` holds, as plain sequences.
pub enum PipelineTraceView {
    WorkspaceFailed(Seq<char>),
    CloneFailed(Seq<char>),
    BuildFailed(Seq<char>),
    Built(Seq<(Seq<char>, Seq<char>)>),
}

impl View for PipelineTrace {
    type V = PipelineTraceView;

    open spec fn view(&self) -> PipelineTraceView {
        match self {
            PipelineTrace::WorkspaceFailed(e) => PipelineTraceView::WorkspaceFailed(e@),
            PipelineTrace::CloneFailed(e) => PipelineTraceView::CloneFailed(e@),
            PipelineTrace::BuildFailed(e) => PipelineTraceView::BuildFailed(e@),
            PipelineTrace::Built(images) => PipelineTraceView::Built(pairs_view(images@)),
        }
    }
}

/// What one finished pipeline hands back: the position of its component
/// among the specs, how far it got, and the time it took.
#[derive(Debug, Clone)]
pub struct Completion {
    pub index: usize,
    pub trace: PipelineTrace,
    pub elapsed_millis: u64,
}

/// What a `Completion` holds, as plain values.
pub struct CompletionView {
    pub index: int,
    pub trace: PipelineTraceView,
    pub elapsed_millis: int,
}

impl View for Completion {
    type V = CompletionView;

    open spec fn view(&self) -> CompletionView {
        CompletionView {
            index: self.index as int,
            trace: self.trace@,
            elapsed_millis: self.elapsed_millis as int,
        }
    }
}

/// The outcome of one component's build.
#[derive(Debug)]
pub struct BuildOutcome {
    pub component: String,
    /// The images built, short name and pinned reference, or why none was.
    pub result: Result<Vec<(String, String)>, String>,
    pub elapsed_millis: u64,
}

/// What a `BuildOutcome` holds, as plain values.
pub struct BuildOutcomeView {
    pub component: Seq<char>,
    pub result: Result<Seq<(Seq<char>, Seq<char>)>, Seq<char>>,
    pub elapsed_millis: int,
}

impl View for BuildOutcome {
    type V = BuildOutcomeView;

    open spec fn view(&self) -> BuildOutcomeView {
        BuildOutcomeView {
            component: self.component@,
            result: match self.result {
                Ok(images) => Ok(pairs_view(images@)),
                Err(e) => Err(e@),
            },
            elapsed_millis: self.elapsed_millis as int,
        }
    }
}

/// The result that a trace stands for: the images where the build was
/// reached and ended well, else the failure of the stage that stopped it.
pub open spec fn trace_result(trace: PipelineTraceView) -> Result<
    Seq<(Seq<char>, Seq<char>)>,
    Seq<char>,
> {
    match trace {
        PipelineTraceView::WorkspaceFailed(e) => Err("temp dir: "@ + e),
        PipelineTraceView::CloneFailed(e) => Err(e),
        PipelineTraceView::BuildFailed(e) => Err(e),
        PipelineTraceView::Built(images) => Ok(images),
    }
}

/// The positions that the completions name, in the order they came in.
pub open spec fn completion_indices(completions: Seq<CompletionView>) -> Seq<int> {
    Seq::new(completions.len(), |i: int| completions[i].index)
}

/// The outcome of the component at position `i`:
/// a failure without a trace where the configuration lacks it, else what the
/// first completion for `i` reports, else a failure for want of a report.
pub open spec fn outcome_model(
    name: Seq<char>,
    configured: bool,
    i: int,
    completions: Seq<CompletionView>,
) -> BuildOutcomeView {
    let at = first_index(completion_indices(completions), i);
    if !configured {
        BuildOutcomeView {
            component: name,
            result: Err("component not in config"@),
            elapsed_millis: 0,
        }
    } else if at < completions.len() {
        BuildOutcomeView {
            component: name,
            result: trace_result(completions[at].trace),
            elapsed_millis: completions[at].elapsed_millis,
        }
    } else {
        BuildOutcomeView {
            component: name,
            result: Err("no outcome reported"@),
            elapsed_millis: 0,
        }
    }
}

/// The outcomes of all components: one per spec, in the order of the specs.
pub open spec fn outcomes_model(
    specs: Seq<ComponentSpecView>,
    configured: Seq<bool>,
    completions: Seq<CompletionView>,
) -> Seq<BuildOutcomeView> {
    Seq::new(
        specs.len(),
        |i: int| outcome_model(specs[i].name, configured[i], i, completions),
    )
}

/// For each spec, whether the configuration holds its component.
pub open spec fn configured_model(
    specs: Seq<ComponentSpec>,
    configs: Seq<(String, ComponentConfig)>,
) -> Seq<bool> {
    Seq::new(specs.len(), |i: int| component_config(configs, specs[i]@.name) is Some)
}

/// The result that `trace` stands for.
pub fn result_of_trace(trace: &PipelineTrace) -> (r: Result<Vec<(String, String)>, String>)
    ensures
        match (r, trace_result(trace@)) {
            (Ok(images), Ok(m)) => pairs_view(images@) == m,
            (Err(e), Err(m)) => e@ == m,
            _ => false,
        },
{
    match trace {
        PipelineTrace::WorkspaceFailed(e) => Err(concat2("temp dir: ", e.as_str())),
        PipelineTrace::CloneFailed(e) => Err(e.clone()),
        PipelineTrace::BuildFailed(e) => Err(e.clone()),
        PipelineTrace::Built(images) => Ok(copy_pairs(images)),
    }
}

/// The index of the first completion for the position `i`.
pub fn find_completion(completions: &Vec<Completion>, i: usize) -> (r: Option<usize>)
    ensures
        match r {
            Some(at) => at < completions.len() && at == first_index(
                completion_indices(seq_view(completions@)),
                i as int,
            ),
            None => first_index(completion_indices(seq_view(completions@)), i as int)
                == completions.len(),
        },
{
    let ghost indices = completion_indices(seq_view(completions@));
    let mut at: usize = 0;
    while at < completions.len()
        invariant
            at <= completions.len(),
            indices == completion_indices(seq_view(completions@)),
            forall|j: int| 0 <= j < at ==> indices[j] != i as int,
        decreases completions.len() - at,
    {
        if completions[at].index == i {
            proof {
                lemma_first_index(indices, i as int, at as int);
            }
            return Some(at);
        }
        at = at + 1;
    }
    proof {
        lemma_first_index(indices, i as int, at as int);
    }
    None
}

/// Collects the outcomes of a set of concurrent build pipelines: one outcome
/// per spec, in the order of the specs, whatever the order in which the
/// pipelines ended. A component that the configuration lacks fails at once;
/// a pipeline that stopped at a stage fails with that stage's error; no
/// outcome depends on the trace of another pipeline.
pub fn build_components_parallel(
    specs: &Vec<ComponentSpec>,
    configs: &Vec<(String, ComponentConfig)>,
    completions: &Vec<Completion>,
) -> (r: Vec<BuildOutcome>)
    ensures
        seq_view(r@) == outcomes_model(
            seq_view(specs@),
            configured_model(specs@, configs@),
            seq_view(completions@),
        ),
{
    let mut out: Vec<BuildOutcome> = Vec::new();
    let mut i: usize = 0;
    let ghost model = outcomes_model(
        seq_view(specs@),
        configured_model(specs@, configs@),
        seq_view(completions@),
    );
    while i < specs.len()
        invariant
            i <= specs.len(),
            out.len() == i,
            model == outcomes_model(
                seq_view(specs@),
                configured_model(specs@, configs@),
                seq_view(completions@),
            ),
            forall|j: int| 0 <= j < i ==> (#[trigger] out@[j])@ == model[j],
        decreases specs.len() - i,
    {
        let spec = &specs[i];
        let outcome = match find_component(configs, spec.name.as_str()) {
            None => BuildOutcome {
                component: spec.name.clone(),
                result: Err("component not in config".to_owned()),
                elapsed_millis: 0,
            },
            Some(_) => match find_completion(completions, i) {
                Some(at) => BuildOutcome {
                    component: spec.name.clone(),
                    result: result_of_trace(&completions[at].trace),
                    elapsed_millis: completions[at].elapsed_millis,
                },
                None => BuildOutcome {
                    component: spec.name.clone(),
                    result: Err("no outcome reported".to_owned()),
                    elapsed_millis: 0,
                },
            },
        };
        assert(outcome@ == model[i as int]);
        out.push(outcome);
        i = i + 1;
    }
    assert(seq_view(out@) == model);
    out
}

/// Whether no outcome of `outcomes` is a failure.
pub open spec fn none_failed(outcomes: Seq<BuildOutcomeView>) -> bool {
    forall|i: int| 0 <= i < outcomes.len() ==> (#[trigger] outcomes[i]).result is Ok
}

/// Whether the deploy phase may follow: only where no build failed.
pub fn all_succeeded(outcomes: &Vec<BuildOutcome>) -> (r: bool)
    ensures
        r == none_failed(seq_view(outcomes@)),
{
    let mut i: usize = 0;
    while i < outcomes.len()
        invariant
            i <= outcomes.len(),
            forall|j: int| 0 <= j < i ==> (#[trigger] seq_view(outcomes@)[j]).result is Ok,
        decreases outcomes.len() - i,
    {
        if outcomes[i].result.is_err() {
            assert(seq_view(outcomes@)[i as int].result is Err);
            return false;
        }
        assert(seq_view(outcomes@)[i as int].result is Ok);
        i = i + 1;
    }
    true
}

/// Whether a trace is that of a pipeline that failed.
pub open spec fn trace_failed(trace: PipelineTraceView) -> bool {
    !(trace is Built)
}

/// There is one outcome per spec, and each bears its component's name.
pub proof fn lemma_one_outcome_per_spec(
    specs: Seq<ComponentSpecView>,
    configured: Seq<bool>,
    completions: Seq<CompletionView>,
)
    ensures
        outcomes_model(specs, configured, completions).len() == specs.len(),
        forall|i: int|
            0 <= i < specs.len() ==> (#[trigger] outcomes_model(
                specs,
                configured,
                completions,
            )[i]).component == specs[i].name,
{
}

/// A failing pipeline fails its own outcome and no other: where every
/// component is configured and every position has its completion, the
/// outcome at a position is a failure exactly where that position's trace
/// is one, and a success carries that position's images.
pub proof fn lemma_failure_is_isolated(
    specs: Seq<ComponentSpecView>,
    configured: Seq<bool>,
    completions: Seq<CompletionView>,
    k: int,
)
    requires
        configured.len() == specs.len(),
        forall|i: int| 0 <= i < specs.len() ==> configured[i],
        completions.len() == specs.len(),
        forall|i: int| 0 <= i < specs.len() ==> (#[trigger] completions[i]).index == i,
        0 <= k < specs.len(),
        trace_failed(completions[k].trace),
        forall|i: int| 0 <= i < specs.len() && i != k ==> !trace_failed(completions[i].trace),
    ensures
        outcomes_model(specs, configured, completions).len() == specs.len(),
        outcomes_model(specs, configured, completions)[k].result is Err,
        forall|i: int|
            0 <= i < specs.len() && i != k ==> (#[trigger] outcomes_model(
                specs,
                configured,
                completions,
            )[i]).result == Ok::<Seq<(Seq<char>, Seq<char>)>, Seq<char>>(
                completions[i].trace->Built_0,
            ),
{
    let indices = completion_indices(completions);
    assert forall|i: int| 0 <= i < specs.len() implies first_index(indices, i) == i by {
        assert forall|j: int| 0 <= j < i implies indices[j] != i by {
            assert(completions[j].index == j);
        }
        assert(completions[i].index == i);
        lemma_first_index(indices, i, i);
    }
}

/// What a pipeline did cannot reach another's outcome: two runs whose
/// completions differ only in those for position `k` give the same outcome
/// at every other position.
pub proof fn lemma_outcome_depends_on_own_trace(
    specs: Seq<ComponentSpecView>,
    configured: Seq<bool>,
    a: Seq<CompletionView>,
    b: Seq<CompletionView>,
    k: int,
)
    requires
        a.len() == b.len(),
        forall|j: int| 0 <= j < a.len() ==> (#[trigger] a[j]).index == b[j].index,
        forall|j: int| 0 <= j < a.len() && a[j].index != k ==> a[j] == b[j],
    ensures
        forall|i: int|
            0 <= i < specs.len() && i != k ==> #[trigger] outcomes_model(specs, configured, a)[i]
                == outcomes_model(specs, configured, b)[i],
{
    assert(completion_indices(a) == completion_indices(b));
    assert forall|i: int| 0 <= i < specs.len() && i != k implies #[trigger] outcomes_model(
        specs,
        configured,
        a,
    )[i] == outcomes_model(specs, configured, b)[i] by {
        lemma_first_index_bounds(completion_indices(a), i);
    }
}

/// The order in which the pipelines end does not matter: where no position
/// is named twice, two orders of the same completions give the same
/// outcomes.
pub proof fn lemma_outcomes_ignore_order(
    specs: Seq<ComponentSpecView>,
    configured: Seq<bool>,
    a: Seq<CompletionView>,
    b: Seq<CompletionView>,
)
    requires
        forall|p: int, q: int| 0 <= p < q < a.len() ==> a[p].index != a[q].index,
        forall|p: int, q: int| 0 <= p < q < b.len() ==> b[p].index != b[q].index,
        forall|p: int| 0 <= p < a.len() ==> b.contains(#[trigger] a[p]),
        forall|q: int| 0 <= q < b.len() ==> a.contains(#[trigger] b[q]),
    ensures
        outcomes_model(specs, configured, a) == outcomes_model(specs, configured, b),
{
    assert forall|i: int| 0 <= i < specs.len() implies outcome_model(
        specs[i].name,
        configured[i],
        i,
        a,
    ) == outcome_model(specs[i].name, configured[i], i, b) by {
        let ia = completion_indices(a);
        let ib = completion_indices(b);
        lemma_first_index_bounds(ia, i);
        lemma_first_index_bounds(ib, i);
        let pa = first_index(ia, i);
        let pb = first_index(ib, i);
        if pa < a.len() {
            assert(b.contains(a[pa]));
            let q = choose|q: int| 0 <= q < b.len() && b[q] == a[pa];
            assert(ib[q] == i);
            assert(pb < b.len());
            assert(a.contains(b[pb]));
            let p = choose|p: int| 0 <= p < a.len() && a[p] == b[pb];
            assert(ia[p] == i);
            assert(ia[pa] == i);
            if p != pa {
                if p < pa {
                    assert(a[p].index != a[pa].index);
                } else {
                    assert(a[pa].index != a[p].index);
                }
            }
        } else {
            if pb < b.len() {
                assert(a.contains(b[pb]));
                let p = choose|p: int| 0 <= p < a.len() && a[p] == b[pb];
                assert(ia[p] == i);
            }
        }
    }
}

} // verus!
