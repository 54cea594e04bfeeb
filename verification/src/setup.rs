//! Cluster bootstrap: six idempotent steps in a fixed order, each on its
//! own, so that a step that fails leaves a warning and the next one still
//! runs.

use vstd::prelude::*;
use crate::deploy::operator::ApiFailure;
use crate::document::{lemma_object_view, members_view, Document, DocumentView, Member};
use crate::deploy::wait::{condition_holds, has_condition, BackoffPolicy, Condition};
use crate::text::{concat2, concat3, contains, contains_sub, seq_view, str_eq, string_views, to_chars};

verus! {

/// The steps of the bootstrap, in the order in which they run.
#[derive(Debug, Clone, Copy, PartialEq, Eq, Structural)]
pub enum BootstrapStep {
    /// The registry is exposed and managed, and has a storage backend.
    RegistryRoute,
    /// The registry's route exists.
    RegistryRouteWait,
    /// The target namespace exists and grants the right to pull images.
    NamespaceRbac,
    /// The operator is installed, or on its way.
    OperatorInstall,
    /// The operator's workload is available.
    OperatorReady,
    /// The baseline configuration resource exists.
    TektonConfig,
}

/// The number of steps of the bootstrap.
pub const STEP_COUNT: usize = 6;

/// The step at position `i`.
pub open spec fn step_model(i: int) -> BootstrapStep {
    if i == 0 {
        BootstrapStep::RegistryRoute
    } else if i == 1 {
        BootstrapStep::RegistryRouteWait
    } else if i == 2 {
        BootstrapStep::NamespaceRbac
    } else if i == 3 {
        BootstrapStep::OperatorInstall
    } else if i == 4 {
        BootstrapStep::OperatorReady
    } else {
        BootstrapStep::TektonConfig
    }
}

/// The words under which a step's failure is reported.
pub open spec fn label_model(step: BootstrapStep) -> Seq<char> {
    match step {
        BootstrapStep::RegistryRoute => "Registry route setup"@,
        BootstrapStep::RegistryRouteWait => "Registry route wait"@,
        BootstrapStep::NamespaceRbac => "Namespace/RBAC setup"@,
        BootstrapStep::OperatorInstall => "Operator install"@,
        BootstrapStep::OperatorReady => "Operator ready wait"@,
        BootstrapStep::TektonConfig => "TektonConfig setup"@,
    }
}

/// The step at position `i`.
pub fn step_at(i: usize) -> (r: BootstrapStep)
    requires
        i < STEP_COUNT,
    ensures
        r == step_model(i as int),
{
    if i == 0 {
        BootstrapStep::RegistryRoute
    } else if i == 1 {
        BootstrapStep::RegistryRouteWait
    } else if i == 2 {
        BootstrapStep::NamespaceRbac
    } else if i == 3 {
        BootstrapStep::OperatorInstall
    } else if i == 4 {
        BootstrapStep::OperatorReady
    } else {
        BootstrapStep::TektonConfig
    }
}

impl BootstrapStep {
    /// The words under which the step's failure is reported.
    pub fn label(&self) -> (r: String)
        ensures
            r@ == label_model(*self),
    {
        match self {
            BootstrapStep::RegistryRoute => "Registry route setup".to_owned(),
            BootstrapStep::RegistryRouteWait => "Registry route wait".to_owned(),
            BootstrapStep::NamespaceRbac => "Namespace/RBAC setup".to_owned(),
            BootstrapStep::OperatorInstall => "Operator install".to_owned(),
            BootstrapStep::OperatorReady => "Operator ready wait".to_owned(),
            BootstrapStep::TektonConfig => "TektonConfig setup".to_owned(),
        }
    }

    /// What to do by hand where the step fails, as far as a remedy is
    /// known: how to expose the registry, and what the caller must be
    /// allowed to do.
    pub fn fix_hint(&self) -> (r: Option<String>)
        ensures
            match self {
                BootstrapStep::RegistryRoute | BootstrapStep::RegistryRouteWait => r is Some
                    && r->Some_0@
                    == "Run: oc patch configs.imageregistry.operator.openshift.io/cluster --patch '{\"spec\":{\"defaultRoute\":true}}' --type=merge"@,
                BootstrapStep::NamespaceRbac => r is Some && r->Some_0@
                    == "Ensure you have cluster-admin or appropriate RBAC."@,
                _ => r is None,
            },
    {
        match self {
            BootstrapStep::RegistryRoute | BootstrapStep::RegistryRouteWait => Some(
                "Run: oc patch configs.imageregistry.operator.openshift.io/cluster --patch '{\"spec\":{\"defaultRoute\":true}}' --type=merge".to_owned(),
            ),
            BootstrapStep::NamespaceRbac => Some(
                "Ensure you have cluster-admin or appropriate RBAC.".to_owned(),
            ),
            _ => None,
        }
    }

    /// What the step shows while it runs.
    pub fn title(&self) -> (r: String)
        ensures
            r@ == match self {
                BootstrapStep::RegistryRoute => "Ensuring image registry route"@,
                BootstrapStep::RegistryRouteWait => "Waiting for registry route"@,
                BootstrapStep::NamespaceRbac => "Ensuring namespace and RBAC"@,
                BootstrapStep::OperatorInstall => "Ensuring OpenShift Pipelines operator"@,
                BootstrapStep::OperatorReady => "Waiting for operator ready (up to 5 min)"@,
                BootstrapStep::TektonConfig => "Ensuring TektonConfig CR"@,
            },
    {
        match self {
            BootstrapStep::RegistryRoute => "Ensuring image registry route".to_owned(),
            BootstrapStep::RegistryRouteWait => "Waiting for registry route".to_owned(),
            BootstrapStep::NamespaceRbac => "Ensuring namespace and RBAC".to_owned(),
            BootstrapStep::OperatorInstall => "Ensuring OpenShift Pipelines operator".to_owned(),
            BootstrapStep::OperatorReady => "Waiting for operator ready (up to 5 min)".to_owned(),
            BootstrapStep::TektonConfig => "Ensuring TektonConfig CR".to_owned(),
        }
    }
}

/// The result of one step, or of the whole bootstrap: whether it went
/// through, and the warnings it leaves.
#[derive(Debug, Clone)]
pub struct Outcome {
    pub ok: bool,
    pub warnings: Vec<String>,
}

/// The result of a step, as plain sequences: nothing where it went through,
/// else its error.
pub open spec fn step_results(results: Seq<Result<(), String>>) -> Seq<Option<Seq<char>>> {
    Seq::new(
        results.len(),
        |i: int|
            match results[i] {
                Ok(_) => None,
                Err(e) => Some(e@),
            },
    )
}

/// The warning that a failed step leaves.
pub open spec fn warning_model(step: BootstrapStep, error: Seq<char>) -> Seq<char> {
    label_model(step) + ": "@ + error
}

/// The warnings that the first `n` steps leave, given their results: one
/// for each step that failed, in the order of the steps.
pub open spec fn warnings_model(results: Seq<Option<Seq<char>>>, n: int) -> Seq<Seq<char>>
    decreases n,
{
    if n <= 0 {
        seq![]
    } else {
        let before = warnings_model(results, n - 1);
        match results[n - 1] {
            Some(e) => before.push(warning_model(step_model(n - 1), e)),
            None => before,
        }
    }
}

/// The bootstrap under way: which step is next, and the warnings so far.
#[derive(Debug, Clone)]
pub struct Bootstrapper {
    pub next: usize,
    pub warnings: Vec<String>,
}

impl Bootstrapper {
    /// A bootstrap before its first step.
    pub fn new() -> (r: Bootstrapper)
        ensures
            r.next == 0,
            r.warnings@.len() == 0,
    {
        Bootstrapper { next: 0, warnings: Vec::new() }
    }

    /// The step to run now: the steps come strictly in their order, and
    /// after the sixth none is left.
    pub fn next_step(&self) -> (r: Option<BootstrapStep>)
        ensures
            r == if self.next < STEP_COUNT {
                Some(step_model(self.next as int))
            } else {
                None
            },
    {
        if self.next < STEP_COUNT {
            Some(step_at(self.next))
        } else {
            None
        }
    }

    /// Takes in the result of the step that ran. A failure leaves a warning
    /// and the next step is due all the same. Once all steps have run,
    /// nothing changes any more.
    pub fn record(&mut self, result: &Result<(), String>)
        ensures
            old(self).next >= STEP_COUNT ==> *final(self) == *old(self),
            old(self).next < STEP_COUNT ==> {
                &&& final(self).next == old(self).next + 1
                &&& string_views(final(self).warnings@) == match *result {
                    Ok(_) => string_views(old(self).warnings@),
                    Err(e) => string_views(old(self).warnings@).push(
                        warning_model(step_model(old(self).next as int), e@),
                    ),
                }
            },
    {
        if self.next < STEP_COUNT {
            match result {
                Ok(_) => {},
                Err(e) => {
                    let label = step_at(self.next).label();
                    let ghost before = string_views(self.warnings@);
                    let warning = concat3(label.as_str(), ": ", e.as_str());
                    self.warnings.push(warning);
                    assert(string_views(self.warnings@) == before.push(warning@));
                },
            }
            self.next = self.next + 1;
        }
    }

    /// Whether all steps have run.
    pub fn finished(&self) -> (r: bool)
        ensures
            r == (self.next >= STEP_COUNT),
    {
        self.next >= STEP_COUNT
    }
}

/// The number of steps that run, given the results of so many: all six,
/// unless fewer results are at hand.
pub open spec fn steps_run(results: int) -> int {
    if results < STEP_COUNT as int {
        results
    } else {
        STEP_COUNT as int
    }
}

/// Runs the bootstrap over the results of its steps, taken in order. Every
/// step is tried, whatever became of those before it; each failure leaves
/// one warning; and the bootstrap itself succeeds once all six steps have
/// run, whatever their results.
pub fn run_auto_setup(results: &Vec<Result<(), String>>) -> (r: Outcome)
    ensures
        r.ok == (results.len() >= STEP_COUNT),
        string_views(r.warnings@) == warnings_model(
            step_results(results@),
            steps_run(results.len() as int),
        ),
{
    let mut b = Bootstrapper::new();
    let mut i: usize = 0;
    assert(string_views(b.warnings@) == Seq::<Seq<char>>::empty());
    while i < results.len() && i < STEP_COUNT
        invariant
            i <= results.len(),
            i <= STEP_COUNT,
            b.next == i,
            string_views(b.warnings@) == warnings_model(step_results(results@), i as int),
        decreases results.len() - i,
    {
        b.record(&results[i]);
        i = i + 1;
    }
    Outcome { ok: b.finished(), warnings: b.warnings }
}

/// What the registry's configuration says of the fields that matter.
#[derive(Debug, Clone)]
pub struct RegistryState {
    /// The management state; empty where none is given.
    pub management_state: String,
    /// Whether the default route is switched on.
    pub default_route: bool,
    /// Whether no storage backend is configured.
    pub storage_empty: bool,
}

/// The fields of the registry's configuration to set.
#[derive(Debug, Clone, Copy, PartialEq, Eq, Structural)]
pub struct RegistryPatch {
    /// Set the management state to "Managed".
    pub set_managed: bool,
    /// Switch the default route on.
    pub set_default_route: bool,
    /// Configure an empty-directory storage backend.
    pub set_empty_dir_storage: bool,
}

impl RegistryPatch {
    /// Whether the patch sets nothing.
    pub open spec fn is_noop(&self) -> bool {
        !self.set_managed && !self.set_default_route && !self.set_empty_dir_storage
    }

    /// Whether the patch sets nothing: the registry is as it should be.
    pub fn is_empty(&self) -> (r: bool)
        ensures
            r == self.is_noop(),
    {
        !self.set_managed && !self.set_default_route && !self.set_empty_dir_storage
    }
}

/// Decides which fields of the registry's configuration to patch: only
/// those that are wrong. A registry that has been removed is set to
/// managed, a default route that is off is switched on, and a registry
/// without storage gets an empty-directory backend.
pub fn ensure_registry_route(state: &RegistryState) -> (r: RegistryPatch)
    ensures
        r.set_managed == (state.management_state@ == "Removed"@),
        r.set_default_route == !state.default_route,
        r.set_empty_dir_storage == state.storage_empty,
{
    RegistryPatch {
        set_managed: str_eq(state.management_state.as_str(), "Removed"),
        set_default_route: !state.default_route,
        set_empty_dir_storage: state.storage_empty,
    }
}

/// A poll with a fixed pause and an overall time limit.
#[derive(Debug, Clone, Copy, PartialEq, Eq, Structural)]
pub struct PollPolicy {
    pub timeout_secs: u64,
    pub interval_secs: u64,
}

/// What to do after one look.
#[derive(Debug, Clone, Copy, PartialEq, Eq, Structural)]
pub enum PollStep {
    /// What was waited for is there.
    Done,
    /// Pause for so many seconds, then look again.
    Sleep(u64),
    /// The time is up.
    TimedOut,
}

/// What follows one look, `elapsed_secs` after the poll began.
pub open spec fn poll_step_model(policy: PollPolicy, satisfied: bool, elapsed_secs: u64) -> PollStep {
    if satisfied {
        PollStep::Done
    } else if elapsed_secs > policy.timeout_secs {
        PollStep::TimedOut
    } else {
        PollStep::Sleep(policy.interval_secs)
    }
}

/// Decides what follows one look: done where what was waited for is there;
/// a failure once more time has passed than the policy allows; else a
/// pause of the fixed length.
pub fn poll_step(policy: PollPolicy, satisfied: bool, elapsed_secs: u64) -> (r: PollStep)
    ensures
        r == poll_step_model(policy, satisfied, elapsed_secs),
{
    if satisfied {
        PollStep::Done
    } else if elapsed_secs > policy.timeout_secs {
        PollStep::TimedOut
    } else {
        PollStep::Sleep(policy.interval_secs)
    }
}

/// The policy of the wait for the registry's route.
pub fn registry_route_policy() -> (r: PollPolicy)
    ensures
        r == (PollPolicy { timeout_secs: 30, interval_secs: 2 }),
{
    PollPolicy { timeout_secs: 30, interval_secs: 2 }
}

/// The policy of the wait for the operator's workload.
pub fn operator_ready_policy() -> (r: PollPolicy)
    ensures
        r == (PollPolicy { timeout_secs: 300, interval_secs: 5 }),
{
    PollPolicy { timeout_secs: 300, interval_secs: 5 }
}

/// Whether a query for the registry's route shows that it exists: the query
/// ended well and what it printed names a route.
pub open spec fn route_available(exit_code: i32, stdout: Seq<char>) -> bool {
    exit_code == 0 && contains_sub(stdout, "route"@)
}

/// One look of the wait for the registry's route.
pub fn wait_for_registry_route(exit_code: i32, stdout: &str, elapsed_secs: u64) -> (r: PollStep)
    ensures
        r == poll_step_model(
            PollPolicy { timeout_secs: 30, interval_secs: 2 },
            route_available(exit_code, stdout@),
            elapsed_secs,
        ),
{
    let out = to_chars(stdout);
    let word = to_chars("route");
    let available = exit_code == 0 && contains(&out, &word);
    poll_step(registry_route_policy(), available, elapsed_secs)
}

/// One look of the wait for the operator's workload, given the status
/// conditions of every candidate workload that was found: it is ready where
/// one of them is "Available".
pub fn wait_for_operator_ready(conditions: &Vec<Condition>, elapsed_secs: u64) -> (r: PollStep)
    ensures
        r == poll_step_model(
            PollPolicy { timeout_secs: 300, interval_secs: 5 },
            condition_holds(seq_view(conditions@), "Available"@),
            elapsed_secs,
        ),
{
    let available = has_condition(conditions, "Available");
    poll_step(operator_ready_policy(), available, elapsed_secs)
}

/// The message of a wait whose time is up.
pub fn timeout_message(step: BootstrapStep) -> (r: String)
    ensures
        r@ == match step {
            BootstrapStep::RegistryRouteWait => "Timed out waiting for registry route (30s)"@,
            BootstrapStep::OperatorReady =>
                "Timed out waiting for operator deployment to become Available (5 min)"@,
            _ => "Timed out"@,
        },
{
    match step {
        BootstrapStep::RegistryRouteWait => "Timed out waiting for registry route (30s)".to_owned(),
        BootstrapStep::OperatorReady =>
            "Timed out waiting for operator deployment to become Available (5 min)".to_owned(),
        _ => "Timed out".to_owned(),
    }
}

/// What to do about the target namespace.
#[derive(Debug, Clone)]
pub enum NamespaceAction {
    /// It exists: go on to the role binding.
    Exists,
    /// It is missing: create it, then go on to the role binding.
    Create,
    /// It could not be looked up: stop with this error.
    Fail(String),
}

/// Decides what to do about the target namespace from the attempt to read
/// it: nothing where it was read, creation where the cluster says it does
/// not exist, a failure on any other error.
pub fn ensure_namespace_rbac(read: &Result<(), ApiFailure>) -> (r: NamespaceAction)
    ensures
        match *read {
            Ok(_) => r is Exists,
            Err(f) => if f.code == Some(404u16) {
                r is Create
            } else {
                r is Fail && r->Fail_0@ == "Failed to check namespace tekton-upstream: "@
                    + f.message@
            },
        },
{
    match read {
        Ok(_) => NamespaceAction::Exists,
        Err(f) => match f.code {
            Some(404) => NamespaceAction::Create,
            _ => NamespaceAction::Fail(
                concat2("Failed to check namespace tekton-upstream: ", f.message.as_str()),
            ),
        },
    }
}

/// What to do about the operator's installation.
#[derive(Debug, Clone, Copy, PartialEq, Eq, Structural)]
pub enum InstallAction {
    /// Its configuration resource exists: it is installed.
    AlreadyInstalled,
    /// A subscription exists: the installation is under way.
    InProgress,
    /// Neither exists: create the subscription.
    CreateSubscription,
}

/// Decides what to do about the operator's installation: nothing where its
/// configuration resource exists; nothing where a subscription exists; else
/// the subscription is created.
pub fn ensure_operator_installed(config_exists: bool, subscription_exists: bool) -> (r:
    InstallAction)
    ensures
        r == if config_exists {
            InstallAction::AlreadyInstalled
        } else if subscription_exists {
            InstallAction::InProgress
        } else {
            InstallAction::CreateSubscription
        },
{
    if config_exists {
        InstallAction::AlreadyInstalled
    } else if subscription_exists {
        InstallAction::InProgress
    } else {
        InstallAction::CreateSubscription
    }
}

/// Whether the subscription needs to be looked up at all: only where the
/// operator's configuration resource is missing.
pub fn needs_subscription_probe(config_exists: bool) -> (r: bool)
    ensures
        r == !config_exists,
{
    !config_exists
}

/// A subscription to an operator.
#[derive(Debug, Clone)]
pub struct Subscription {
    pub name: String,
    pub namespace: String,
    pub channel: String,
    pub package: String,
    pub source: String,
    pub source_namespace: String,
    pub install_plan_approval: String,
}

/// The subscription that installs the operator, with install plans approved
/// automatically.
pub fn operator_subscription() -> (r: Subscription)
    ensures
        r.name@ == "openshift-pipelines-operator"@,
        r.namespace@ == "openshift-operators"@,
        r.channel@ == "latest"@,
        r.package@ == "openshift-pipelines-operator-rh"@,
        r.source@ == "redhat-operators"@,
        r.source_namespace@ == "openshift-marketplace"@,
        r.install_plan_approval@ == "Automatic"@,
{
    Subscription {
        name: "openshift-pipelines-operator".to_owned(),
        namespace: "openshift-operators".to_owned(),
        channel: "latest".to_owned(),
        package: "openshift-pipelines-operator-rh".to_owned(),
        source: "redhat-operators".to_owned(),
        source_namespace: "openshift-marketplace".to_owned(),
        install_plan_approval: "Automatic".to_owned(),
    }
}

/// The baseline configuration resource of the operator.
#[derive(Debug, Clone)]
pub struct TektonConfigSpec {
    pub name: String,
    pub target_namespace: String,
    pub profile: String,
}

/// The baseline configuration resource to create; none where it exists.
pub fn ensure_tektonconfig(exists: bool) -> (r: Option<TektonConfigSpec>)
    ensures
        exists ==> r is None,
        !exists ==> r is Some && r->Some_0.name@ == "config"@ && r->Some_0.target_namespace@
            == "openshift-pipelines"@ && r->Some_0.profile@ == "all"@,
{
    if exists {
        None
    } else {
        Some(
            TektonConfigSpec {
                name: "config".to_owned(),
                target_namespace: "openshift-pipelines".to_owned(),
                profile: "all".to_owned(),
            },
        )
    }
}

/// The policy of the retries when the baseline resource cannot be created
/// yet, its type having only just been registered: six attempts, the pause
/// doubling from five seconds, and no ceiling on the time.
pub fn crd_retry_policy() -> (r: BackoffPolicy)
    ensures
        r == (BackoffPolicy {
            initial_secs: 5,
            cap_secs: 80,
            max_attempts: 6,
            ceiling_secs: None,
        }),
{
    BackoffPolicy { initial_secs: 5, cap_secs: 80, max_attempts: 6, ceiling_secs: None }
}

/// What is under `key` of an optional document.
pub open spec fn under(doc: Option<DocumentView>, key: Seq<char>) -> Option<DocumentView> {
    match doc {
        Some(d) => d.member(key),
        None => None,
    }
}

/// The management state that the registry's configuration names; empty
/// where it names none.
pub open spec fn management_state_model(config: DocumentView) -> Seq<char> {
    match under(config.member("spec"@), "managementState"@) {
        Some(DocumentView::Text(t)) => t,
        _ => Seq::<char>::empty(),
    }
}

/// Whether the registry's configuration switches the default route on.
pub open spec fn default_route_model(config: DocumentView) -> bool {
    match under(config.member("spec"@), "defaultRoute"@) {
        Some(DocumentView::Bool(b)) => b,
        _ => false,
    }
}

/// Whether the registry's configuration names no storage backend: none at
/// all, null, or an object without members.
pub open spec fn storage_empty_model(config: DocumentView) -> bool {
    match under(config.member("spec"@), "storage"@) {
        None => true,
        Some(DocumentView::Null) => true,
        Some(DocumentView::Object(m)) => m.len() == 0,
        Some(_) => false,
    }
}

/// Reads from the registry's configuration the fields that matter.
pub fn registry_state_of(config: &Document) -> (r: RegistryState)
    ensures
        r.management_state@ == management_state_model(config@),
        r.default_route == default_route_model(config@),
        r.storage_empty == storage_empty_model(config@),
{
    match config.get("spec") {
        None => RegistryState {
            management_state: String::new(),
            default_route: false,
            storage_empty: true,
        },
        Some(spec) => {
            let management_state = match spec.get("managementState") {
                Some(Document::Text(t)) => t.clone(),
                _ => String::new(),
            };
            let default_route = match spec.get("defaultRoute") {
                Some(Document::Bool(b)) => *b,
                _ => false,
            };
            let storage_empty = match spec.get("storage") {
                None => true,
                Some(Document::Null) => true,
                Some(Document::Object(m)) => {
                    proof {
                        lemma_object_view(*m);
                    }
                    m.len() == 0
                },
                Some(_) => false,
            };
            RegistryState { management_state, default_route, storage_empty }
        },
    }
}

/// The members that a patch of the registry's configuration sets.
pub open spec fn patch_members(patch: RegistryPatch) -> Seq<(Seq<char>, DocumentView)> {
    let managed: Seq<(Seq<char>, DocumentView)> = if patch.set_managed {
        seq![("managementState"@, DocumentView::Text("Managed"@))]
    } else {
        seq![]
    };
    let route: Seq<(Seq<char>, DocumentView)> = if patch.set_default_route {
        seq![("defaultRoute"@, DocumentView::Bool(true))]
    } else {
        seq![]
    };
    let storage: Seq<(Seq<char>, DocumentView)> = if patch.set_empty_dir_storage {
        seq![
            (
                "storage"@,
                DocumentView::Object(seq![("emptyDir"@, DocumentView::Object(seq![]))]),
            ),
        ]
    } else {
        seq![]
    };
    managed + route + storage
}

/// The merge patch that sets the fields of `patch`, and no other.
pub fn registry_patch_document(patch: RegistryPatch) -> (r: Document)
    ensures
        r@ == DocumentView::Object(seq![("spec"@, DocumentView::Object(patch_members(patch)))]),
{
    let mut members: Vec<Member> = Vec::new();
    assert(members_view(members@) =~= Seq::<(Seq<char>, DocumentView)>::empty());
    if patch.set_managed {
        members.push(
            Member { key: "managementState".to_owned(), value: Document::Text("Managed".to_owned()) },
        );
        assert(members_view(members@) =~= seq![
            ("managementState"@, DocumentView::Text("Managed"@)),
        ]);
    }
    if patch.set_default_route {
        let ghost before = members_view(members@);
        members.push(Member { key: "defaultRoute".to_owned(), value: Document::Bool(true) });
        assert(members_view(members@) =~= before + seq![
            ("defaultRoute"@, DocumentView::Bool(true)),
        ]);
    }
    if patch.set_empty_dir_storage {
        let ghost before = members_view(members@);
        let nothing: Vec<Member> = Vec::new();
        proof {
            lemma_object_view(nothing);
            assert(members_view(nothing@) =~= Seq::<(Seq<char>, DocumentView)>::empty());
        }
        let mut storage: Vec<Member> = Vec::new();
        storage.push(Member { key: "emptyDir".to_owned(), value: Document::Object(nothing) });
        proof {
            lemma_object_view(storage);
            assert(members_view(storage@) =~= seq![("emptyDir"@, DocumentView::Object(seq![]))]);
        }
        members.push(Member { key: "storage".to_owned(), value: Document::Object(storage) });
        assert(members_view(members@) =~= before + seq![
            (
                "storage"@,
                DocumentView::Object(seq![("emptyDir"@, DocumentView::Object(seq![]))]),
            ),
        ]);
    }
    assert(members_view(members@) =~= patch_members(patch));
    proof {
        lemma_object_view(members);
    }
    let mut top: Vec<Member> = Vec::new();
    top.push(Member { key: "spec".to_owned(), value: Document::Object(members) });
    proof {
        lemma_object_view(top);
        assert(members_view(top@) =~= seq![("spec"@, DocumentView::Object(patch_members(patch)))]);
    }
    Document::Object(top)
}

} // verus!
