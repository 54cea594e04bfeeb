use ocp_midstreamer::deploy::operator::ApiFailure;
use ocp_midstreamer::deploy::wait::{Condition, WaitStep, Waiter};
use ocp_midstreamer::document::{parse_document, render_document};
use ocp_midstreamer::setup::{
    crd_retry_policy, ensure_namespace_rbac, ensure_operator_installed, ensure_registry_route,
    ensure_tektonconfig, needs_subscription_probe, operator_ready_policy, operator_subscription,
    poll_step, registry_patch_document, registry_route_policy, registry_state_of, run_auto_setup,
    step_at, timeout_message, wait_for_operator_ready, wait_for_registry_route, BootstrapStep,
    Bootstrapper, InstallAction, NamespaceAction, PollPolicy, PollStep, RegistryPatch,
    RegistryState,
};

#[test]
fn the_six_steps_come_in_their_order() {
    let mut b = Bootstrapper::new();
    let mut seen = Vec::new();
    while let Some(step) = b.next_step() {
        seen.push(step);
        b.record(&Err("x".to_string()));
    }
    assert_eq!(
        seen,
        vec![
            BootstrapStep::RegistryRoute,
            BootstrapStep::RegistryRouteWait,
            BootstrapStep::NamespaceRbac,
            BootstrapStep::OperatorInstall,
            BootstrapStep::OperatorReady,
            BootstrapStep::TektonConfig,
        ]
    );
    assert!(b.finished());
    assert_eq!(b.warnings.len(), 6);
    b.record(&Err("late".to_string()));
    assert_eq!(b.warnings.len(), 6);
    assert_eq!(b.next, 6);
    assert_eq!(step_at(2), BootstrapStep::NamespaceRbac);
}

#[test]
fn a_failed_step_leaves_a_warning_and_the_rest_runs() {
    let results = vec![
        Ok(()),
        Err("Timed out waiting for registry route (30s)".to_string()),
        Ok(()),
        Err("forbidden".to_string()),
        Ok(()),
        Ok(()),
    ];
    let outcome = run_auto_setup(&results);
    assert!(outcome.ok);
    assert_eq!(
        outcome.warnings,
        vec![
            "Registry route wait: Timed out waiting for registry route (30s)",
            "Operator install: forbidden",
        ]
    );
}

#[test]
fn the_bootstrap_succeeds_whatever_its_steps_did() {
    let all_failed: Vec<Result<(), String>> = (0..6).map(|i| Err(format!("e{i}"))).collect();
    let outcome = run_auto_setup(&all_failed);
    assert!(outcome.ok);
    assert_eq!(
        outcome.warnings,
        vec![
            "Registry route setup: e0",
            "Registry route wait: e1",
            "Namespace/RBAC setup: e2",
            "Operator install: e3",
            "Operator ready wait: e4",
            "TektonConfig setup: e5",
        ]
    );
    let all_ok: Vec<Result<(), String>> = (0..6).map(|_| Ok(())).collect();
    let outcome = run_auto_setup(&all_ok);
    assert!(outcome.ok);
    assert!(outcome.warnings.is_empty());
    let outcome = run_auto_setup(&all_ok[..3].to_vec());
    assert!(!outcome.ok);
}

#[test]
fn steps_name_a_remedy_where_one_is_known() {
    assert_eq!(
        BootstrapStep::RegistryRoute.fix_hint(),
        Some("Run: oc patch configs.imageregistry.operator.openshift.io/cluster --patch '{\"spec\":{\"defaultRoute\":true}}' --type=merge".to_string())
    );
    assert_eq!(BootstrapStep::RegistryRoute.fix_hint(), BootstrapStep::RegistryRouteWait.fix_hint());
    assert_eq!(
        BootstrapStep::NamespaceRbac.fix_hint(),
        Some("Ensure you have cluster-admin or appropriate RBAC.".to_string())
    );
    assert_eq!(BootstrapStep::OperatorInstall.fix_hint(), None);
    assert_eq!(BootstrapStep::TektonConfig.fix_hint(), None);
}

#[test]
fn steps_have_titles_and_labels() {
    assert_eq!(BootstrapStep::RegistryRoute.title(), "Ensuring image registry route");
    assert_eq!(BootstrapStep::OperatorReady.title(), "Waiting for operator ready (up to 5 min)");
    assert_eq!(BootstrapStep::TektonConfig.label(), "TektonConfig setup");
}

fn state(management: &str, default_route: bool, storage_empty: bool) -> RegistryState {
    RegistryState { management_state: management.to_string(), default_route, storage_empty }
}

#[test]
fn only_wrong_registry_fields_are_patched() {
    let patch = ensure_registry_route(&state("Managed", true, false));
    assert!(patch.is_empty());
    assert_eq!(
        ensure_registry_route(&state("Removed", false, true)),
        RegistryPatch { set_managed: true, set_default_route: true, set_empty_dir_storage: true }
    );
    assert_eq!(
        ensure_registry_route(&state("", true, false)),
        RegistryPatch { set_managed: false, set_default_route: false, set_empty_dir_storage: false }
    );
    assert_eq!(
        ensure_registry_route(&state("Unmanaged", false, false)),
        RegistryPatch { set_managed: false, set_default_route: true, set_empty_dir_storage: false }
    );
}

#[test]
fn the_registry_state_is_read_from_its_configuration() {
    let doc = parse_document(
        "{\"spec\":{\"managementState\":\"Removed\",\"defaultRoute\":true,\"storage\":{\"pvc\":{}}}}",
    )
    .unwrap();
    let s = registry_state_of(&doc);
    assert_eq!(s.management_state, "Removed");
    assert!(s.default_route);
    assert!(!s.storage_empty);
    for (text, empty) in [
        ("{\"spec\":{\"storage\":{}}}", true),
        ("{\"spec\":{\"storage\":null}}", true),
        ("{\"spec\":{}}", true),
        ("{}", true),
        ("{\"spec\":{\"storage\":\"x\"}}", false),
        ("{\"spec\":{\"storage\":[]}}", false),
    ] {
        let s = registry_state_of(&parse_document(text).unwrap());
        assert_eq!(s.storage_empty, empty);
        assert_eq!(s.management_state, "");
        assert!(!s.default_route);
    }
}

#[test]
fn the_registry_patch_sets_what_it_names() {
    let compact = |p: RegistryPatch| {
        render_document(&registry_patch_document(p)).split_whitespace().collect::<Vec<&str>>().join("")
    };
    assert_eq!(
        compact(RegistryPatch { set_managed: true, set_default_route: true, set_empty_dir_storage: true }),
        "{\"spec\":{\"defaultRoute\":true,\"managementState\":\"Managed\",\"storage\":{\"emptyDir\":{}}}}"
    );
    assert_eq!(
        compact(RegistryPatch { set_managed: false, set_default_route: true, set_empty_dir_storage: false }),
        "{\"spec\":{\"defaultRoute\":true}}"
    );
}

#[test]
fn polls_stop_when_done_or_out_of_time() {
    let policy = PollPolicy { timeout_secs: 30, interval_secs: 2 };
    assert_eq!(poll_step(policy, true, 0), PollStep::Done);
    assert_eq!(poll_step(policy, true, 31), PollStep::Done);
    assert_eq!(poll_step(policy, false, 30), PollStep::Sleep(2));
    assert_eq!(poll_step(policy, false, 31), PollStep::TimedOut);
    assert_eq!(registry_route_policy(), policy);
    assert_eq!(operator_ready_policy(), PollPolicy { timeout_secs: 300, interval_secs: 5 });
}

#[test]
fn the_route_wait_looks_for_a_route() {
    assert_eq!(wait_for_registry_route(0, "route.route.openshift.io/default-route\n", 0), PollStep::Done);
    assert_eq!(wait_for_registry_route(1, "route", 0), PollStep::Sleep(2));
    assert_eq!(wait_for_registry_route(0, "", 10), PollStep::Sleep(2));
    assert_eq!(wait_for_registry_route(0, "", 31), PollStep::TimedOut);
    assert_eq!(
        timeout_message(BootstrapStep::RegistryRouteWait),
        "Timed out waiting for registry route (30s)"
    );
    assert_eq!(
        timeout_message(BootstrapStep::OperatorReady),
        "Timed out waiting for operator deployment to become Available (5 min)"
    );
}

#[test]
fn the_operator_wait_looks_for_availability() {
    let available = vec![
        Condition { kind: "Progressing".to_string(), status: "True".to_string() },
        Condition { kind: "Available".to_string(), status: "True".to_string() },
    ];
    let unavailable = vec![Condition { kind: "Available".to_string(), status: "False".to_string() }];
    assert_eq!(wait_for_operator_ready(&available, 400), PollStep::Done);
    assert_eq!(wait_for_operator_ready(&unavailable, 300), PollStep::Sleep(5));
    assert_eq!(wait_for_operator_ready(&unavailable, 301), PollStep::TimedOut);
    assert_eq!(wait_for_operator_ready(&Vec::new(), 0), PollStep::Sleep(5));
}

#[test]
fn the_namespace_is_created_only_where_it_is_missing() {
    assert!(matches!(ensure_namespace_rbac(&Ok(())), NamespaceAction::Exists));
    let failure = |code: Option<u16>| Err(ApiFailure { code, message: "boom".to_string() });
    assert!(matches!(ensure_namespace_rbac(&failure(Some(404))), NamespaceAction::Create));
    assert!(matches!(
        ensure_namespace_rbac(&failure(Some(403))),
        NamespaceAction::Fail(ref e) if e == "Failed to check namespace tekton-upstream: boom"
    ));
    assert!(matches!(ensure_namespace_rbac(&failure(None)), NamespaceAction::Fail(_)));
}

#[test]
fn the_operator_is_installed_once() {
    assert_eq!(ensure_operator_installed(true, false), InstallAction::AlreadyInstalled);
    assert_eq!(ensure_operator_installed(true, true), InstallAction::AlreadyInstalled);
    assert_eq!(ensure_operator_installed(false, true), InstallAction::InProgress);
    assert_eq!(ensure_operator_installed(false, false), InstallAction::CreateSubscription);
    assert!(needs_subscription_probe(false));
    assert!(!needs_subscription_probe(true));
    let sub = operator_subscription();
    assert_eq!(sub.name, "openshift-pipelines-operator");
    assert_eq!(sub.namespace, "openshift-operators");
    assert_eq!(sub.channel, "latest");
    assert_eq!(sub.package, "openshift-pipelines-operator-rh");
    assert_eq!(sub.source, "redhat-operators");
    assert_eq!(sub.source_namespace, "openshift-marketplace");
    assert_eq!(sub.install_plan_approval, "Automatic");
}

#[test]
fn the_baseline_resource_is_created_with_retries() {
    assert!(ensure_tektonconfig(true).is_none());
    let tc = ensure_tektonconfig(false).unwrap();
    assert_eq!(tc.name, "config");
    assert_eq!(tc.target_namespace, "openshift-pipelines");
    assert_eq!(tc.profile, "all");
    let mut w = Waiter::new(crd_retry_policy());
    let mut pauses = Vec::new();
    let mut attempts = 0;
    loop {
        attempts += 1;
        match w.record(false, 100_000) {
            WaitStep::Sleep(s) => pauses.push(s),
            _ => break,
        }
    }
    assert_eq!(attempts, 6);
    assert_eq!(pauses, vec![5, 10, 20, 40, 80]);
}
