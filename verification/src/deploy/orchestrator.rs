//! The deploy orchestrator: the stages of one component's deployment, in
//! order, and what a failure at each of them means for the run.

use vstd::prelude::*;
use crate::config::{component_config, Config};
use crate::text::{
    append_chars, concat2, contains, contains_sub, find_char, first_index, from_chars, last_piece,
    opt_text, rfind_piece_start, starts_with, sub_vec, to_chars,
};

verus! {

/// The address of the registry as the cluster's own workloads reach it.
pub open spec fn internal_registry() -> Seq<char> {
    "image-registry.openshift-image-registry.svc:5000"@
}

/// The address of the registry as the cluster's own workloads reach it.
pub fn internal_registry_host() -> (r: String)
    ensures
        r@ == internal_registry(),
{
    "image-registry.openshift-image-registry.svc:5000".to_owned()
}

/// The internal address that stands for the registry address `registry`:
/// the internal host with the path of `registry`, and with the default
/// namespace where `registry` has no path.
pub open spec fn internal_registry_model(registry: Seq<char>) -> Seq<char> {
    if internal_registry().is_prefix_of(registry) {
        if contains_sub(registry, "/tekton-upstream"@) {
            registry
        } else {
            internal_registry() + "/tekton-upstream"@
        }
    } else {
        let slash = first_index(registry, '/');
        if slash < registry.len() {
            internal_registry() + registry.skip(slash)
        } else {
            internal_registry() + "/tekton-upstream"@
        }
    }
}

/// Turns the registry's outside address into the one that workloads in the
/// cluster pull from.
pub fn to_internal_registry(registry: &str) -> (r: String)
    ensures
        r@ == internal_registry_model(registry@),
{
    let chars = to_chars(registry);
    let host = to_chars("image-registry.openshift-image-registry.svc:5000");
    if starts_with(&chars, &host) {
        let namespace = to_chars("/tekton-upstream");
        if !contains(&chars, &namespace) {
            return concat2("image-registry.openshift-image-registry.svc:5000", "/tekton-upstream");
        }
        return registry.to_owned();
    }
    let slash = find_char(&chars, '/');
    if slash < chars.len() {
        let mut out = host;
        append_chars(&mut out, &sub_vec(&chars, slash, chars.len()));
        from_chars(&out)
    } else {
        concat2("image-registry.openshift-image-registry.svc:5000", "/tekton-upstream")
    }
}

/// The namespace of the images in a registry address: its last path
/// segment.
pub fn image_namespace(registry: &str) -> (r: String)
    ensures
        r@ == last_piece(registry@, '/'),
{
    let chars = to_chars(registry);
    let at = rfind_piece_start(&chars, '/');
    from_chars(&sub_vec(&chars, at, chars.len()))
}

/// The prefix override of the installer sets of `component`, where the
/// configuration holds one.
pub fn installer_set_prefix(config: &Config, component: &str) -> (r: Option<String>)
    ensures
        opt_text(r) == match component_config(config.components@, component@) {
            Some(c) => c@.installer_set_prefix,
            None => None,
        },
{
    match config.get(component) {
        Some(c) => match &c.installer_set_prefix {
            Some(p) => Some(p.clone()),
            None => None,
        },
        None => None,
    }
}

/// The stages of the deployment of one component, in order.
#[derive(Debug, Clone, Copy, PartialEq, Eq, Structural)]
pub enum DeployStage {
    Connect,
    VerifyOperator,
    LoadConfig,
    MapImages,
    FindDeployment,
    PatchDeployment,
    EnsureRbac,
    DeleteInstallerSets,
    WaitForReconciliation,
}

/// The number of stages of a deployment.
pub const STAGE_COUNT: usize = 9;

/// The stage at position `i`.
pub open spec fn stage_model(i: int) -> DeployStage {
    if i == 0 {
        DeployStage::Connect
    } else if i == 1 {
        DeployStage::VerifyOperator
    } else if i == 2 {
        DeployStage::LoadConfig
    } else if i == 3 {
        DeployStage::MapImages
    } else if i == 4 {
        DeployStage::FindDeployment
    } else if i == 5 {
        DeployStage::PatchDeployment
    } else if i == 6 {
        DeployStage::EnsureRbac
    } else if i == 7 {
        DeployStage::DeleteInstallerSets
    } else {
        DeployStage::WaitForReconciliation
    }
}

/// The stage at position `i`.
pub fn stage_at(i: usize) -> (r: DeployStage)
    requires
        i < STAGE_COUNT,
    ensures
        r == stage_model(i as int),
{
    if i == 0 {
        DeployStage::Connect
    } else if i == 1 {
        DeployStage::VerifyOperator
    } else if i == 2 {
        DeployStage::LoadConfig
    } else if i == 3 {
        DeployStage::MapImages
    } else if i == 4 {
        DeployStage::FindDeployment
    } else if i == 5 {
        DeployStage::PatchDeployment
    } else if i == 6 {
        DeployStage::EnsureRbac
    } else if i == 7 {
        DeployStage::DeleteInstallerSets
    } else {
        DeployStage::WaitForReconciliation
    }
}

/// How a deployment ended, or that it has not yet.
#[derive(Debug, Clone)]
pub enum DeployStatus {
    /// The stage at this position is due.
    Running(usize),
    /// The workload was patched and the cluster converged.
    Converged,
    /// The workload was patched; the cluster did not converge in time, which
    /// is a warning and no failure.
    Unconverged(String),
    /// A stage before the wait failed: nothing after it ran.
    Failed(usize, String),
}

/// What a `DeployStatus` holds, as plain values.
pub enum DeployStatusView {
    Running(int),
    Converged,
    Unconverged(Seq<char>),
    Failed(int, Seq<char>),
}

impl View for DeployStatus {
    type V = DeployStatusView;

    open spec fn view(&self) -> DeployStatusView {
        match self {
            DeployStatus::Running(i) => DeployStatusView::Running(*i as int),
            DeployStatus::Converged => DeployStatusView::Converged,
            DeployStatus::Unconverged(w) => DeployStatusView::Unconverged(w@),
            DeployStatus::Failed(i, e) => DeployStatusView::Failed(*i as int, e@),
        }
    }
}

/// The status after the stage that was due has ended with `result`: the
/// next stage is due where it went well; a failure of the wait, the last
/// stage, leaves the deployment done with a warning; any other failure
/// ends it. A deployment that has ended stays as it is.
pub open spec fn after_stage(status: DeployStatusView, result: Option<Seq<char>>) -> DeployStatusView {
    match status {
        DeployStatusView::Running(i) => {
            if i >= STAGE_COUNT as int - 1 {
                match result {
                    None => DeployStatusView::Converged,
                    Some(e) => DeployStatusView::Unconverged(e),
                }
            } else {
                match result {
                    None => DeployStatusView::Running(i + 1),
                    Some(e) => DeployStatusView::Failed(i, e),
                }
            }
        },
        _ => status,
    }
}

/// The status of a deployment after the stage that was due has ended.
pub fn advance(status: DeployStatus, result: &Result<(), String>) -> (r: DeployStatus)
    ensures
        r@ == after_stage(
            status@,
            match *result {
                Ok(_) => None,
                Err(e) => Some(e@),
            },
        ),
{
    match status {
        DeployStatus::Running(i) => {
            if i >= STAGE_COUNT - 1 {
                match result {
                    Ok(_) => DeployStatus::Converged,
                    Err(e) => DeployStatus::Unconverged(e.clone()),
                }
            } else {
                match result {
                    Ok(_) => DeployStatus::Running(i + 1),
                    Err(e) => DeployStatus::Failed(i, e.clone()),
                }
            }
        },
        DeployStatus::Converged => DeployStatus::Converged,
        DeployStatus::Unconverged(w) => DeployStatus::Unconverged(w),
        DeployStatus::Failed(i, e) => DeployStatus::Failed(i, e),
    }
}

/// Whether the deployment counts as a success for the run: it does unless
/// a stage before the wait failed. That the cluster did not converge does
/// not change the run's result.
pub open spec fn deploy_succeeded(status: DeployStatusView) -> bool {
    status is Converged || status is Unconverged
}

/// The status after the stages have ended with `results`, in order.
pub open spec fn status_after(results: Seq<Option<Seq<char>>>) -> DeployStatusView
    decreases results.len(),
{
    if results.len() == 0 {
        DeployStatusView::Running(0)
    } else {
        after_stage(status_after(results.drop_last()), results.last())
    }
}

/// The result of a stage, as plain sequences: nothing where it went
/// through, else its error.
pub open spec fn stage_results(results: Seq<Result<(), String>>) -> Seq<Option<Seq<char>>> {
    Seq::new(
        results.len(),
        |i: int|
            match results[i] {
                Ok(_) => None,
                Err(e) => Some(e@),
            },
    )
}

/// Runs the deployment of one component over the results of its stages,
/// taken in order.
pub fn run_deploy(results: &Vec<Result<(), String>>) -> (r: DeployStatus)
    ensures
        r@ == status_after(stage_results(results@)),
{
    let mut status = DeployStatus::Running(0);
    let mut i: usize = 0;
    let ghost all = stage_results(results@);
    assert(all.take(0) == Seq::<Option<Seq<char>>>::empty());
    while i < results.len()
        invariant
            i <= results.len(),
            all == stage_results(results@),
            status@ == status_after(all.take(i as int)),
        decreases results.len() - i,
    {
        proof {
            assert(all.take(i + 1).drop_last() == all.take(i as int));
        }
        status = advance(status, &results[i]);
        i = i + 1;
    }
    assert(all.take(results.len() as int) == all);
    status
}

/// A failure of the wait alone never fails the deployment: where every
/// stage before the wait went through, the deployment succeeds whatever
/// the wait's result.
pub proof fn lemma_wait_failure_is_a_warning(results: Seq<Option<Seq<char>>>)
    requires
        results.len() == STAGE_COUNT,
        forall|i: int| 0 <= i < STAGE_COUNT - 1 ==> results[i] is None,
    ensures
        deploy_succeeded(status_after(results)),
        results[STAGE_COUNT - 1] is None ==> status_after(results) is Converged,
        results[STAGE_COUNT - 1] is Some ==> status_after(results)
            == DeployStatusView::Unconverged(results[STAGE_COUNT - 1]->Some_0),
{
    lemma_running_while_ok(results, STAGE_COUNT as int - 1);
    assert(results.take(STAGE_COUNT as int) == results);
    assert(results.take(STAGE_COUNT as int).drop_last() == results.take(STAGE_COUNT as int - 1));
}

/// As long as every stage goes through, the next one is due.
pub proof fn lemma_running_while_ok(results: Seq<Option<Seq<char>>>, n: int)
    requires
        0 <= n <= results.len(),
        n <= STAGE_COUNT - 1,
        forall|i: int| 0 <= i < n ==> results[i] is None,
    ensures
        status_after(results.take(n)) == DeployStatusView::Running(n),
    decreases n,
{
    if n > 0 {
        lemma_running_while_ok(results, n - 1);
        assert(results.take(n).drop_last() == results.take(n - 1));
        assert(results.take(n).last() == results[n - 1]);
    }
}

} // verus!
