use ocp_midstreamer::deploy::operator::{
    default_patch_strategy, known_deployment_names, known_namespaces, PatchStrategy,
    count_deleted, delete_installer_sets, ensure_image_pull_rbac, find_container,
    find_operator_csv, find_operator_deployment, has_variable, installer_set_prefixes,
    locate_candidates, locate_step, matches_installer_set, merge_env,
    patch_operator_deployment_env, verify_operator, ApiFailure, EnvVar, LocateStep, PatchError,
    Probe, ProbeAnswer, WorkloadContainer,
};

fn var(name: &str, value: Option<&str>, from: Option<&str>) -> EnvVar {
    EnvVar {
        name: name.to_string(),
        value: value.map(|v| v.to_string()),
        value_from: from.map(|v| v.to_string()),
    }
}

fn mapping(pairs: &[(&str, &str)]) -> Vec<(String, String)> {
    pairs.iter().map(|(k, v)| (k.to_string(), v.to_string())).collect()
}

fn same(a: &Vec<EnvVar>, b: &Vec<EnvVar>) -> bool {
    a.len() == b.len()
        && a.iter().zip(b.iter()).all(|(x, y)| {
            x.name == y.name && x.value == y.value && x.value_from == y.value_from
        })
}

#[test]
fn merge_env_overwrites_appends_and_keeps() {
    let existing = vec![
        var("KEEP", Some("1"), None),
        var("IMAGE_A", None, Some("{\"secretKeyRef\":{}}")),
        var("OTHER", None, Some("{\"fieldRef\":{}}")),
    ];
    let merged = merge_env(&existing, &mapping(&[("IMAGE_B", "reg/b"), ("IMAGE_A", "reg/a")]));
    let expected = vec![
        var("KEEP", Some("1"), None),
        var("IMAGE_A", Some("reg/a"), None),
        var("OTHER", None, Some("{\"fieldRef\":{}}")),
        var("IMAGE_B", Some("reg/b"), None),
    ];
    assert!(same(&merged, &expected));
}

#[test]
fn patching_twice_is_patching_once() {
    let existing = vec![
        var("KEEP", Some("1"), None),
        var("IMAGE_A", Some("old"), None),
        var("IMAGE_A", None, Some("ref")),
    ];
    let m = mapping(&[("IMAGE_A", "reg/a"), ("IMAGE_B", "reg/b"), ("IMAGE_C", "reg/c")]);
    let once = merge_env(&existing, &m);
    let twice = merge_env(&once, &m);
    assert!(same(&once, &twice));
    assert_eq!(once.len(), 5);
    let names: Vec<&str> = once.iter().map(|v| v.name.as_str()).collect();
    assert_eq!(names, vec!["KEEP", "IMAGE_A", "IMAGE_A", "IMAGE_B", "IMAGE_C"]);
}

#[test]
fn patching_leaves_unnamed_variables_alone() {
    let existing = vec![
        var("A", Some("1"), None),
        var("B", None, Some("ref")),
        var("C", None, None),
        var("IMAGE_X", Some("old"), None),
    ];
    let merged = merge_env(&existing, &mapping(&[("IMAGE_X", "new"), ("IMAGE_Y", "y")]));
    for i in 0..3 {
        assert_eq!(merged[i].name, existing[i].name);
        assert_eq!(merged[i].value, existing[i].value);
        assert_eq!(merged[i].value_from, existing[i].value_from);
    }
}

#[test]
fn a_key_mapped_twice_takes_its_first_value() {
    let existing = vec![var("IMAGE_A", Some("old"), None)];
    let merged = merge_env(&existing, &mapping(&[("IMAGE_A", "first"), ("IMAGE_A", "second")]));
    assert!(same(&merged, &vec![var("IMAGE_A", Some("first"), None)]));
}

#[test]
fn a_new_key_mapped_twice_is_added_twice() {
    let m = mapping(&[("IMAGE_N", "first"), ("IMAGE_N", "second")]);
    let once = merge_env(&Vec::new(), &m);
    assert!(same(
        &once,
        &vec![var("IMAGE_N", Some("first"), None), var("IMAGE_N", Some("second"), None)]
    ));
    let twice = merge_env(&once, &m);
    assert!(!same(&once, &twice));
}

#[test]
fn merge_env_with_an_empty_mapping_changes_nothing() {
    let existing = vec![var("A", Some("1"), None)];
    assert!(same(&merge_env(&existing, &Vec::new()), &existing));
    assert!(has_variable(&existing, "A"));
    assert!(!has_variable(&existing, "a"));
}

#[test]
fn patch_finds_the_lifecycle_container() {
    let containers = Some(vec![
        WorkloadContainer { name: "sidecar".to_string(), env: Some(vec![var("X", Some("1"), None)]) },
        WorkloadContainer { name: "openshift-pipelines-operator-lifecycle".to_string(), env: None },
    ]);
    let patch = patch_operator_deployment_env(&containers, &mapping(&[("IMAGE_A", "a"), ("IMAGE_B", "b")])).unwrap();
    assert_eq!(patch.container_index, 1);
    assert!(same(
        &patch.env,
        &vec![var("IMAGE_A", Some("a"), None), var("IMAGE_B", Some("b"), None)]
    ));
}

#[test]
fn patch_fails_without_containers_or_lifecycle_container() {
    assert_eq!(
        patch_operator_deployment_env(&None, &mapping(&[("A", "a")])).unwrap_err(),
        PatchError::NoContainers
    );
    let containers = Some(vec![WorkloadContainer { name: "other".to_string(), env: None }]);
    let err = patch_operator_deployment_env(&containers, &mapping(&[("A", "a")])).unwrap_err();
    assert_eq!(err, PatchError::ContainerNotFound);
    assert_eq!(
        err.message(),
        "Container 'openshift-pipelines-operator-lifecycle' not found in Deployment"
    );
    assert_eq!(
        PatchError::NoContainers.message(),
        "Deployment has no containers in spec.template.spec.containers"
    );
    assert_eq!(find_container(&containers.unwrap(), "other"), Some(0));
}

#[test]
fn installer_set_names_match_by_prefix() {
    let prefixes = installer_set_prefixes("pipeline", None);
    assert_eq!(
        prefixes,
        vec!["pipeline-main-deployment-", "pipeline-main-static-", "pipeline-post-", "pipeline-pre-"]
    );
    assert!(matches_installer_set("pipeline-main-deployment-abcd", &prefixes));
    assert!(!matches_installer_set("pipelinesomethingelse-x", &prefixes));
    assert!(matches_installer_set("pipeline-pre-", &prefixes));
    assert!(!matches_installer_set("pipeline-pr", &prefixes));
    assert!(!matches_installer_set("x-pipeline-post-1", &prefixes));
    assert!(!matches_installer_set("", &prefixes));
}

#[test]
fn installer_set_prefix_override_replaces_the_name() {
    let prefixes = installer_set_prefixes("manual-approval-gate", Some("manualapprovalgate"));
    assert_eq!(prefixes[0], "manualapprovalgate-main-deployment-");
    assert_eq!(prefixes[3], "manualapprovalgate-pre-");
}

#[test]
fn delete_installer_sets_selects_in_order() {
    let names: Vec<String> = vec![
        "pipelinesomethingelse-x",
        "pipeline-main-deployment-abcd",
        "triggers-main-deployment-1",
        "pipeline-post-9",
        "pipeline-main-static-2",
    ]
    .into_iter()
    .map(|s| s.to_string())
    .collect();
    assert_eq!(
        delete_installer_sets(&names, "pipeline", None),
        vec!["pipeline-main-deployment-abcd", "pipeline-post-9", "pipeline-main-static-2"]
    );
    assert_eq!(delete_installer_sets(&names, "triggers", None), vec!["triggers-main-deployment-1"]);
    assert_eq!(delete_installer_sets(&names, "chains", None), Vec::<String>::new());
    assert_eq!(
        delete_installer_sets(&names, "chains", Some("triggers")),
        vec!["triggers-main-deployment-1"]
    );
}

#[test]
fn count_deleted_counts_what_went_through() {
    assert_eq!(count_deleted(&vec![true, false, true, true]), 3);
    assert_eq!(count_deleted(&vec![false]), 0);
    assert_eq!(count_deleted(&Vec::new()), 0);
}

#[test]
fn candidates_come_by_name_first_then_by_label() {
    let c = locate_candidates();
    assert_eq!(c.len(), 12);
    let shown: Vec<String> = c
        .iter()
        .map(|p| match p {
            Probe::ByName { namespace, name } => format!("name {namespace}/{name}"),
            Probe::BySelector { namespace, selector } => format!("label {namespace}/{selector}"),
        })
        .collect();
    assert_eq!(shown[0], "name openshift-pipelines/openshift-pipelines-operator");
    assert_eq!(shown[1], "name openshift-pipelines/tekton-operator");
    assert_eq!(shown[2], "name openshift-operators/openshift-pipelines-operator");
    assert_eq!(shown[5], "name tekton-pipelines/tekton-operator");
    assert_eq!(shown[6], "label openshift-pipelines/app.kubernetes.io/name=openshift-pipelines-operator");
    assert_eq!(shown[7], "label openshift-pipelines/app=tekton-operator");
    assert_eq!(shown[11], "label tekton-pipelines/app=tekton-operator");
}

#[test]
fn locate_returns_the_first_match() {
    let answers = vec![
        ProbeAnswer::Absent,
        ProbeAnswer::Failed("forbidden".to_string()),
        ProbeAnswer::Found("openshift-pipelines-operator".to_string()),
        ProbeAnswer::Found("later".to_string()),
    ];
    let target = find_operator_deployment(&answers).unwrap();
    assert_eq!(target.namespace, "openshift-operators");
    assert_eq!(target.name, "openshift-pipelines-operator");
}

#[test]
fn locate_falls_back_to_labels() {
    let mut answers: Vec<ProbeAnswer> = (0..7).map(|_| ProbeAnswer::Absent).collect();
    answers.push(ProbeAnswer::Found("by-label".to_string()));
    let target = find_operator_deployment(&answers).unwrap();
    assert_eq!(target.namespace, "openshift-pipelines");
    assert_eq!(target.name, "by-label");
}

#[test]
fn locate_lists_everything_it_checked() {
    let answers: Vec<ProbeAnswer> = (0..12).map(|_| ProbeAnswer::Absent).collect();
    assert_eq!(
        find_operator_deployment(&answers).unwrap_err(),
        "Operator controller deployment not found.\nChecked namespaces: openshift-pipelines, openshift-operators, tekton-pipelines\nChecked names: openshift-pipelines-operator, tekton-operator\nChecked labels: app.kubernetes.io/name=openshift-pipelines-operator, app=tekton-operator"
    );
    assert!(find_operator_deployment(&Vec::new()).is_err());
}

#[test]
fn locate_stops_at_a_failed_listing() {
    let mut answers: Vec<ProbeAnswer> = (0..8).map(|_| ProbeAnswer::Absent).collect();
    answers.push(ProbeAnswer::Failed("timeout".to_string()));
    answers.push(ProbeAnswer::Found("never reached".to_string()));
    assert_eq!(
        find_operator_deployment(&answers).unwrap_err(),
        "Failed to list deployments in namespace openshift-operators: timeout"
    );
}

#[test]
fn locate_step_ignores_failed_lookups_by_name() {
    let by_name = Probe::ByName { namespace: "ns".to_string(), name: "n".to_string() };
    assert!(matches!(locate_step(&by_name, &ProbeAnswer::Failed("e".to_string())), LocateStep::Next));
    assert!(matches!(locate_step(&by_name, &ProbeAnswer::Absent), LocateStep::Next));
    assert!(matches!(
        locate_step(&by_name, &ProbeAnswer::Found("x".to_string())),
        LocateStep::Found(ref t) if t.namespace == "ns" && t.name == "x"
    ));
}

#[test]
fn verify_operator_names_the_remedy() {
    assert_eq!(verify_operator(&Ok(())), Ok(()));
    let failure = |code: Option<u16>| Err(ApiFailure { code, message: "m".to_string() });
    assert_eq!(
        verify_operator(&failure(Some(404))),
        Err("OpenShift Pipelines operator not found. TektonConfig CR 'config' does not exist.\nIs the operator installed?".to_string())
    );
    assert_eq!(
        verify_operator(&failure(Some(403))),
        Err("Insufficient permissions to read TektonConfig CR.\nEnsure you have cluster-admin or appropriate RBAC.".to_string())
    );
    assert_eq!(
        verify_operator(&failure(Some(500))),
        Err("Failed to verify operator installation: m".to_string())
    );
    assert_eq!(
        verify_operator(&failure(None)),
        Err("Failed to verify operator installation: m".to_string())
    );
}

#[test]
fn find_operator_csv_takes_the_first_marked_name() {
    let names: Vec<String> = vec!["other.v1", "openshift-pipelines-operator-rh.v1.15", "openshift-pipelines-operator-rh.v1.16"]
        .into_iter()
        .map(|s| s.to_string())
        .collect();
    assert_eq!(find_operator_csv(&names, "ns"), Ok("openshift-pipelines-operator-rh.v1.15".to_string()));
    assert_eq!(
        find_operator_csv(&vec!["other".to_string()], "ns"),
        Err("OpenShift Pipelines CSV not found in namespace ns".to_string())
    );
}

#[test]
fn image_pull_rbac_is_created_once() {
    assert!(ensure_image_pull_rbac(true, "tekton-upstream").is_none());
    let rb = ensure_image_pull_rbac(false, "tekton-upstream").unwrap();
    assert_eq!(rb.name, "image-puller-all-authenticated");
    assert_eq!(rb.namespace, "tekton-upstream");
    assert_eq!(rb.role_api_group, "rbac.authorization.k8s.io");
    assert_eq!(rb.role_kind, "ClusterRole");
    assert_eq!(rb.role_name, "system:image-puller");
    assert_eq!(rb.subject_api_group, "rbac.authorization.k8s.io");
    assert_eq!(rb.subject_kind, "Group");
    assert_eq!(rb.subject_name, "system:authenticated");
}

#[test]
fn the_live_workload_is_patched_by_default() {
    assert_eq!(default_patch_strategy(), PatchStrategy::Workload);
    assert_ne!(default_patch_strategy(), PatchStrategy::Manifest);
    assert_eq!(known_namespaces(), vec!["openshift-pipelines", "openshift-operators", "tekton-pipelines"]);
    assert_eq!(known_deployment_names(), vec!["openshift-pipelines-operator", "tekton-operator"]);
}
