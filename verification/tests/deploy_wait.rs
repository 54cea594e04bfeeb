use ocp_midstreamer::deploy::wait::{
    check_tektonconfig_ready, conditions_of, describe_failure, doubled, has_condition,
    is_image_present, missing_images, observe_poll, pod_namespaces, pod_selector, poll_converged,
    reconciliation_policy,
    tektonconfig_ready, verify_pod_images, wait_for_reconciliation, BackoffPolicy, Condition,
    PollObservation, WaitState, WaitStep, Waiter,
};
use ocp_midstreamer::document::parse_document;

fn expected(refs: &[&str]) -> Vec<(String, String)> {
    refs.iter().enumerate().map(|(i, r)| (format!("IMAGE_{i}"), r.to_string())).collect()
}

fn images(refs: &[&str]) -> Vec<String> {
    refs.iter().map(|r| r.to_string()).collect()
}

fn delays_of(policy: BackoffPolicy) -> Vec<u64> {
    let mut w = Waiter::new(policy);
    let mut delays = Vec::new();
    loop {
        match w.record(false, 0) {
            WaitStep::Sleep(d) => delays.push(d),
            WaitStep::GiveUp => break,
            WaitStep::TimedOut => panic!("a wait without a ceiling went over it"),
            WaitStep::Converged => panic!("a poll that did not converge ended the wait in success"),
        }
    }
    delays
}

#[test]
fn backoff_doubles_up_to_the_cap() {
    let policy = BackoffPolicy { initial_secs: 10, cap_secs: 30, max_attempts: 6, ceiling_secs: None };
    assert_eq!(delays_of(policy), vec![10, 20, 30, 30, 30]);
    let policy = BackoffPolicy { initial_secs: 5, cap_secs: 80, max_attempts: 6, ceiling_secs: None };
    assert_eq!(delays_of(policy), vec![5, 10, 20, 40, 80]);
}

#[test]
fn backoff_never_shrinks_and_never_exceeds_the_cap() {
    for (initial, cap, max) in [(1u64, 7u64, 9u32), (3, 3, 4), (0, 5, 5), (9, 4, 5), (u64::MAX, u64::MAX, 4), (1, u64::MAX, 70)] {
        let delays = delays_of(BackoffPolicy { initial_secs: initial, cap_secs: cap, max_attempts: max, ceiling_secs: None });
        assert_eq!(delays.len() as u32, max - 1);
        for i in 0..delays.len() {
            assert!(delays[i] <= cap);
            if i > 0 {
                assert!(delays[i - 1] <= delays[i]);
            }
        }
    }
}

#[test]
fn attempts_never_exceed_the_maximum() {
    let mut w = Waiter::new(BackoffPolicy { initial_secs: 1, cap_secs: 2, max_attempts: 3, ceiling_secs: None });
    assert!(w.may_poll());
    assert_eq!(w.record(false, 0), WaitStep::Sleep(1));
    assert_eq!(w.record(false, 0), WaitStep::Sleep(2));
    assert_eq!(w.record(false, 0), WaitStep::GiveUp);
    assert!(!w.may_poll());
    assert_eq!(w.attempts, 3);
    assert_eq!(w.record(true, 0), WaitStep::GiveUp);
    assert_eq!(w.attempts, 3);
    assert_eq!(w.state, WaitState::Exhausted);
}

#[test]
fn a_wait_without_attempts_gives_up_at_once() {
    let mut w = Waiter::new(BackoffPolicy { initial_secs: 1, cap_secs: 2, max_attempts: 0, ceiling_secs: None });
    assert!(!w.may_poll());
    assert_eq!(w.record(true, 0), WaitStep::GiveUp);
    assert_eq!(w.attempts, 0);
}

#[test]
fn convergence_ends_the_wait_for_good() {
    let mut w = Waiter::new(reconciliation_policy());
    assert_eq!(w.record(false, 0), WaitStep::Sleep(10));
    assert_eq!(w.record(true, 0), WaitStep::Converged);
    assert_eq!(w.record(false, 0), WaitStep::Converged);
    assert_eq!(w.attempts, 2);
}

#[test]
fn the_reconciliation_policy_is_fixed() {
    assert_eq!(
        reconciliation_policy(),
        BackoffPolicy { initial_secs: 10, cap_secs: 30, max_attempts: 20, ceiling_secs: Some(600) }
    );
    assert_eq!(doubled(10, 30), 20);
    assert_eq!(doubled(20, 30), 30);
    assert_eq!(doubled(15, 30), 30);
    assert_eq!(doubled(0, 30), 0);
    assert_eq!(doubled(u64::MAX, u64::MAX), u64::MAX);
}

#[test]
fn ready_with_a_missing_image_is_not_converged() {
    let want = expected(&["reg/ns/controller@sha256:aa", "reg/ns/webhook@sha256:bb"]);
    let found = images(&["reg/ns/controller@sha256:aa", "quay.io/other/thing:v1"]);
    let observation = observe_poll(true, &want, &found, 7);
    assert!(observation.ready);
    assert_eq!(observation.elapsed_secs, 7);
    assert_eq!(observation.missing, vec!["reg/ns/webhook@sha256:bb"]);
    assert!(!poll_converged(&observation));
    assert!(!verify_pod_images(&want, &found));
}

#[test]
fn images_without_readiness_are_not_converged() {
    let want = expected(&["reg/a"]);
    let observation = observe_poll(false, &want, &images(&["reg/a"]), 0);
    assert!(observation.missing.is_empty());
    assert!(!poll_converged(&observation));
}

#[test]
fn both_conditions_in_one_poll_are_convergence() {
    let want = expected(&["reg/a", "reg/b"]);
    let observation = observe_poll(true, &want, &images(&["reg/b", "reg/a"]), 0);
    assert!(poll_converged(&observation));
    assert!(verify_pod_images(&want, &images(&["reg/b", "reg/a"])));
}

#[test]
fn images_match_by_containment_either_way() {
    let found = images(&["internal.svc:5000/ns/controller@sha256:aa"]);
    assert!(is_image_present("ns/controller@sha256:aa", &found));
    assert!(is_image_present("mirror/internal.svc:5000/ns/controller@sha256:aa/x", &found));
    assert!(!is_image_present("ns/webhook", &found));
    assert!(!is_image_present("ns/webhook", &Vec::new()));
    assert_eq!(missing_images(&expected(&["a", "b"]), &Vec::new()), vec!["a", "b"]);
}

#[test]
fn the_failure_names_what_is_missing() {
    let last = PollObservation { ready: false, missing: images(&["reg/a", "reg/b"]), elapsed_secs: 0 };
    assert_eq!(
        describe_failure(&last, false),
        "Reconciliation did not converge after max retries.\n  - TektonConfig is NOT Ready\n  - Missing expected image: reg/a\n  - Missing expected image: reg/b\n  Suggestion: check operator logs with:\n    oc logs -n openshift-pipelines deploy/openshift-pipelines-operator\n"
    );
    let last = PollObservation { ready: true, missing: images(&["reg/a"]), elapsed_secs: 0 };
    assert_eq!(
        describe_failure(&last, false),
        "Reconciliation did not converge after max retries.\n  - Missing expected image: reg/a\n  Suggestion: check operator logs with:\n    oc logs -n openshift-pipelines deploy/openshift-pipelines-operator\n"
    );
}

#[test]
fn a_failure_for_want_of_time_says_so() {
    let last = PollObservation { ready: true, missing: Vec::new(), elapsed_secs: 700 };
    assert_eq!(
        describe_failure(&last, true),
        "Reconciliation did not converge in time.\n  Suggestion: check operator logs with:\n    oc logs -n openshift-pipelines deploy/openshift-pipelines-operator\n"
    );
}

#[test]
fn a_wait_over_a_fixture_stops_at_the_first_convergence() {
    let not_ready = PollObservation { ready: false, missing: images(&["reg/a"]), elapsed_secs: 0 };
    let ready_missing = PollObservation { ready: true, missing: images(&["reg/a"]), elapsed_secs: 0 };
    let done = PollObservation { ready: true, missing: Vec::new(), elapsed_secs: 0 };
    let report = wait_for_reconciliation(
        reconciliation_policy(),
        &vec![not_ready.clone(), ready_missing.clone(), done.clone(), not_ready.clone()],
    );
    assert!(report.converged);
    assert_eq!(report.polls, 3);
    assert_eq!(report.delays, vec![10, 20]);
}

#[test]
fn a_wait_over_a_fixture_gives_up_after_the_maximum() {
    let never = PollObservation { ready: true, missing: images(&["reg/a"]), elapsed_secs: 0 };
    let polls: Vec<PollObservation> = (0..9).map(|_| never.clone()).collect();
    let policy = BackoffPolicy { initial_secs: 2, cap_secs: 5, max_attempts: 4, ceiling_secs: None };
    let report = wait_for_reconciliation(policy, &polls);
    assert!(!report.converged);
    assert_eq!(report.polls, 4);
    assert_eq!(report.delays, vec![2, 4, 5]);
    let report = wait_for_reconciliation(policy, &polls[..2].to_vec());
    assert!(!report.converged);
    assert_eq!(report.polls, 2);
    assert_eq!(report.delays, vec![2, 4]);
    let report = wait_for_reconciliation(policy, &Vec::new());
    assert_eq!(report.polls, 0);
    assert!(report.delays.is_empty());
}

fn condition(kind: &str, status: &str) -> Condition {
    Condition { kind: kind.to_string(), status: status.to_string() }
}

#[test]
fn readiness_wants_the_ready_condition_to_be_true() {
    assert!(check_tektonconfig_ready(&vec![condition("Installed", "True"), condition("Ready", "True")]));
    assert!(!check_tektonconfig_ready(&vec![condition("Ready", "False")]));
    assert!(!check_tektonconfig_ready(&vec![condition("Ready", "true")]));
    assert!(!check_tektonconfig_ready(&vec![condition("Installed", "True")]));
    assert!(!check_tektonconfig_ready(&Vec::new()));
    assert!(has_condition(&vec![condition("Available", "True")], "Available"));
}

#[test]
fn conditions_are_read_from_the_status() {
    let doc = parse_document(
        "{\"status\":{\"conditions\":[{\"type\":\"Ready\",\"status\":\"True\"},{\"type\":\"X\"},{\"status\":7},5]}}",
    )
    .unwrap();
    let conditions = conditions_of(&doc);
    assert_eq!(conditions.len(), 4);
    assert_eq!(conditions[0].kind, "Ready");
    assert_eq!(conditions[0].status, "True");
    assert_eq!(conditions[1].kind, "X");
    assert_eq!(conditions[1].status, "");
    assert_eq!(conditions[2].kind, "");
    assert_eq!(conditions[2].status, "");
    assert_eq!(conditions[3].kind, "");
    assert!(tektonconfig_ready(&doc));
    let doc = parse_document("{\"status\":{\"conditions\":{\"type\":\"Ready\"}}}").unwrap();
    assert!(conditions_of(&doc).is_empty());
    assert!(!tektonconfig_ready(&doc));
    let doc = parse_document("{\"spec\":{}}").unwrap();
    assert!(!tektonconfig_ready(&doc));
}

#[test]
fn a_wait_stops_at_its_ceiling() {
    let policy = BackoffPolicy { initial_secs: 1, cap_secs: 8, max_attempts: 10, ceiling_secs: Some(60) };
    let mut w = Waiter::new(policy);
    assert_eq!(w.record(false, 0), WaitStep::Sleep(1));
    assert_eq!(w.record(false, 60), WaitStep::Sleep(2));
    assert_eq!(w.record(false, 61), WaitStep::TimedOut);
    assert_eq!(w.state, WaitState::TimedOut);
    assert!(!w.may_poll());
    assert_eq!(w.record(true, 0), WaitStep::TimedOut);
    assert_eq!(w.attempts, 3);
    let mut w = Waiter::new(policy);
    assert_eq!(w.record(true, 1000), WaitStep::Converged);
    let slow = |elapsed| PollObservation { ready: false, missing: Vec::new(), elapsed_secs: elapsed };
    let report = wait_for_reconciliation(policy, &vec![slow(5), slow(50), slow(70), slow(80)]);
    assert!(!report.converged);
    assert!(report.timed_out);
    assert_eq!(report.polls, 3);
    assert_eq!(report.delays, vec![1, 2]);
}

#[test]
fn pods_are_looked_for_by_a_fixed_label() {
    assert_eq!(pod_namespaces(), vec!["openshift-pipelines", "tekton-pipelines"]);
    assert_eq!(pod_selector(), "app.kubernetes.io/part-of=tekton-pipelines");
}
