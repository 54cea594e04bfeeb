use ocp_midstreamer::component::{clone_with_ref, parse_component_specs};
use ocp_midstreamer::config::{ComponentConfig, Config};
use ocp_midstreamer::coordinator::{
    all_succeeded, build_components_parallel, plan_build, BuildSystem, ClonePlan, Completion,
    PipelineTrace,
};
use ocp_midstreamer::deploy::mapping::build_image_mappings;
use ocp_midstreamer::deploy::operator::{
    count_deleted, delete_installer_sets, find_operator_deployment,
    patch_operator_deployment_env, ProbeAnswer, WorkloadContainer,
};
use ocp_midstreamer::deploy::orchestrator::{run_deploy, to_internal_registry, DeployStatus};
use ocp_midstreamer::deploy::wait::{
    observe_poll, reconciliation_policy, wait_for_reconciliation,
};

fn config() -> Config {
    Config {
        components: vec![
            (
                "pipeline".to_string(),
                ComponentConfig {
                    repo: "https://github.com/tektoncd/pipeline".to_string(),
                    import_paths: vec!["./cmd/controller".to_string(), "./cmd/webhook".to_string()],
                    images: vec![
                        ("controller".to_string(), "IMAGE_PIPELINES_CONTROLLER".to_string()),
                        ("webhook".to_string(), "IMAGE_PIPELINES_WEBHOOK".to_string()),
                    ],
                    build_system: None,
                    installer_set_prefix: None,
                },
            ),
            (
                "triggers".to_string(),
                ComponentConfig {
                    repo: "https://github.com/tektoncd/triggers".to_string(),
                    import_paths: vec!["./cmd/controller".to_string()],
                    images: vec![("controller".to_string(), "IMAGE_TRIGGERS_CONTROLLER".to_string())],
                    build_system: Some("ko".to_string()),
                    installer_set_prefix: None,
                },
            ),
        ],
    }
}

#[test]
fn two_components_are_built_deployed_and_converge() {
    let cfg = config();
    let specs = parse_component_specs("pipeline,triggers:v0.60.0").unwrap();
    assert_eq!(specs.len(), 2);

    let registry = "default-route.apps.example.com/tekton-upstream";
    let jobs: Vec<_> = specs.iter().map(|s| plan_build(s, &cfg.components, registry).unwrap()).collect();
    assert!(matches!(jobs[0].clone, ClonePlan::DefaultBranch));
    assert!(matches!(jobs[1].clone, ClonePlan::FetchRef { ref refspec } if refspec == "v0.60.0"));
    assert_eq!(jobs[1].system, BuildSystem::Ko);
    let clone = clone_with_ref(&jobs[1].repo, "/tmp/triggers", specs[1].git_ref.as_deref());
    let verbs: Vec<&str> = clone.iter().map(|c| c.args[0].as_str()).collect();
    assert_eq!(verbs, vec!["init", "fetch", "checkout"]);
    let clone = clone_with_ref(&jobs[0].repo, "/tmp/pipeline", specs[0].git_ref.as_deref());
    assert_eq!(clone.len(), 1);
    assert_eq!(clone[0].args[0], "clone");

    let completions = vec![
        Completion {
            index: 1,
            trace: PipelineTrace::Built(vec![(
                "controller".to_string(),
                "reg/tekton-upstream/controller@sha256:t1".to_string(),
            )]),
            elapsed_millis: 900,
        },
        Completion {
            index: 0,
            trace: PipelineTrace::Built(vec![
                ("controller".to_string(), "reg/tekton-upstream/controller@sha256:p1".to_string()),
                ("webhook".to_string(), "reg/tekton-upstream/webhook@sha256:p2".to_string()),
            ]),
            elapsed_millis: 1500,
        },
    ];
    let outcomes = build_components_parallel(&specs, &cfg.components, &completions);
    assert_eq!(outcomes.len(), 2);
    assert_eq!(outcomes[0].component, "pipeline");
    assert_eq!(outcomes[1].component, "triggers");
    assert_eq!(outcomes[0].result.as_ref().unwrap().len(), 2);
    assert_eq!(outcomes[1].result.as_ref().unwrap().len(), 1);
    assert!(all_succeeded(&outcomes));

    let answers = vec![
        ProbeAnswer::Absent,
        ProbeAnswer::Absent,
        ProbeAnswer::Found("openshift-pipelines-operator".to_string()),
        ProbeAnswer::Found("tekton-operator".to_string()),
    ];
    let target = find_operator_deployment(&answers).unwrap();
    assert_eq!(target.namespace, "openshift-operators");
    assert_eq!(target.name, "openshift-pipelines-operator");

    let internal = to_internal_registry(registry);
    let built: Vec<String> = outcomes[0].result.as_ref().unwrap().iter().map(|p| p.0.clone()).collect();
    let mappings = build_image_mappings(&cfg, "pipeline", &internal, &built).unwrap();
    assert_eq!(mappings.len(), 2);

    let containers = Some(vec![WorkloadContainer {
        name: "openshift-pipelines-operator-lifecycle".to_string(),
        env: Some(Vec::new()),
    }]);
    let patch = patch_operator_deployment_env(&containers, &mappings).unwrap();
    assert_eq!(patch.container_index, 0);
    assert_eq!(patch.env.len(), 2);
    assert_eq!(patch.env[0].name, "IMAGE_PIPELINES_CONTROLLER");
    assert_eq!(
        patch.env[0].value,
        Some("image-registry.openshift-image-registry.svc:5000/tekton-upstream/controller".to_string())
    );
    assert_eq!(patch.env[1].name, "IMAGE_PIPELINES_WEBHOOK");

    let sets: Vec<String> = vec![
        "pipeline-main-deployment-abcd",
        "pipeline-main-static-efgh",
        "triggers-main-deployment-ijkl",
        "chains-main-deployment-mnop",
        "pipelinesomethingelse-x",
    ]
    .into_iter()
    .map(|s| s.to_string())
    .collect();
    let mut deleted = delete_installer_sets(&sets, "pipeline", None);
    deleted.extend(delete_installer_sets(&sets, "triggers", None));
    assert_eq!(
        deleted,
        vec!["pipeline-main-deployment-abcd", "pipeline-main-static-efgh", "triggers-main-deployment-ijkl"]
    );
    assert_eq!(count_deleted(&deleted.iter().map(|_| true).collect()), 3);

    let running_old = vec!["registry.redhat.io/old/controller@sha256:00".to_string()];
    let running_new: Vec<String> = mappings.iter().map(|m| m.1.clone()).collect();
    let polls = vec![
        observe_poll(false, &mappings, &running_old, 1),
        observe_poll(true, &mappings, &running_old, 12),
        observe_poll(true, &mappings, &running_new, 33),
    ];
    let report = wait_for_reconciliation(reconciliation_policy(), &polls);
    assert!(report.converged);
    assert_eq!(report.polls, 3);
    assert_eq!(report.delays, vec![10, 20]);

    let stages: Vec<Result<(), String>> = (0..9).map(|_| Ok(())).collect();
    assert!(matches!(run_deploy(&stages), DeployStatus::Converged));
}
