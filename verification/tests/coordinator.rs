use ocp_midstreamer::component::ComponentSpec;
use ocp_midstreamer::config::{default_config_path, load_image_names_from_config, ComponentConfig, Config};
use ocp_midstreamer::coordinator::{
    all_succeeded, build_components_parallel, build_system_of, clone_plan, next_phase, plan_build,
    BuildPhase, BuildSystem, ClonePlan, Completion, PipelineTrace,
};

fn spec(name: &str, git_ref: Option<&str>) -> ComponentSpec {
    ComponentSpec {
        name: name.to_string(),
        git_ref: git_ref.map(|r| r.to_string()),
        as_of_date: None,
    }
}

fn config(repo: &str, paths: &[&str], images: &[(&str, &str)], system: Option<&str>) -> ComponentConfig {
    ComponentConfig {
        repo: repo.to_string(),
        import_paths: paths.iter().map(|p| p.to_string()).collect(),
        images: images.iter().map(|(a, b)| (a.to_string(), b.to_string())).collect(),
        build_system: system.map(|s| s.to_string()),
        installer_set_prefix: None,
    }
}

fn configs() -> Vec<(String, ComponentConfig)> {
    vec![
        (
            "pipeline".to_string(),
            config(
                "https://github.com/tektoncd/pipeline",
                &["./cmd/controller", "./cmd/webhook"],
                &[("controller", "IMAGE_PIPELINES_CONTROLLER"), ("webhook", "IMAGE_PIPELINES_WEBHOOK")],
                None,
            ),
        ),
        (
            "triggers".to_string(),
            config(
                "https://github.com/tektoncd/triggers",
                &["./cmd/controller"],
                &[("controller", "IMAGE_TRIGGERS_CONTROLLER")],
                Some("ko"),
            ),
        ),
        (
            "console-plugin".to_string(),
            config("https://github.com/o/console", &[], &[("console", "IMAGE_CONSOLE")], Some("docker")),
        ),
    ]
}

fn built(i: usize, name: &str) -> Completion {
    Completion {
        index: i,
        trace: PipelineTrace::Built(vec![(name.to_string(), format!("reg/{name}@sha256:{i}"))]),
        elapsed_millis: 10 + i as u64,
    }
}

#[test]
fn one_failing_pipeline_fails_only_its_own_outcome() {
    let specs = vec![spec("pipeline", None), spec("triggers", None), spec("console-plugin", None)];
    for k in 0..3 {
        let mut completions = vec![built(0, "a"), built(1, "b"), built(2, "c")];
        completions[k].trace = PipelineTrace::BuildFailed("ko build failed".to_string());
        let outcomes = build_components_parallel(&specs, &configs(), &completions);
        assert_eq!(outcomes.len(), 3);
        for i in 0..3 {
            assert_eq!(outcomes[i].component, specs[i].name);
            if i == k {
                assert_eq!(outcomes[i].result, Err("ko build failed".to_string()));
            } else {
                let name = ["a", "b", "c"][i];
                assert_eq!(
                    outcomes[i].result,
                    Ok(vec![(name.to_string(), format!("reg/{name}@sha256:{i}"))])
                );
                assert_eq!(outcomes[i].elapsed_millis, 10 + i as u64);
            }
        }
        assert!(!all_succeeded(&outcomes));
    }
}

#[test]
fn outcomes_do_not_depend_on_completion_order() {
    let specs = vec![spec("pipeline", None), spec("triggers", None), spec("console-plugin", None)];
    let forward = vec![built(0, "a"), built(1, "b"), built(2, "c")];
    let backward = vec![built(2, "c"), built(0, "a"), built(1, "b")];
    let a = build_components_parallel(&specs, &configs(), &forward);
    let b = build_components_parallel(&specs, &configs(), &backward);
    assert_eq!(a.len(), 3);
    for i in 0..3 {
        assert_eq!(a[i].component, b[i].component);
        assert_eq!(a[i].result, b[i].result);
        assert_eq!(a[i].elapsed_millis, b[i].elapsed_millis);
    }
    assert!(all_succeeded(&a));
}

#[test]
fn a_component_without_configuration_fails_at_once() {
    let specs = vec![spec("chains", None), spec("pipeline", None)];
    assert!(plan_build(&specs[0], &configs(), "reg/ns").is_none());
    let completions = vec![built(0, "ignored"), built(1, "a")];
    let outcomes = build_components_parallel(&specs, &configs(), &completions);
    assert_eq!(outcomes.len(), 2);
    assert_eq!(outcomes[0].component, "chains");
    assert_eq!(outcomes[0].result, Err("component not in config".to_string()));
    assert_eq!(outcomes[0].elapsed_millis, 0);
    assert!(outcomes[1].result.is_ok());
}

#[test]
fn each_stage_failure_truncates_the_pipeline() {
    let specs = vec![spec("pipeline", None), spec("triggers", None), spec("console-plugin", None)];
    let completions = vec![
        Completion {
            index: 0,
            trace: PipelineTrace::WorkspaceFailed("disk full".to_string()),
            elapsed_millis: 1,
        },
        Completion {
            index: 1,
            trace: PipelineTrace::CloneFailed("git fetch failed".to_string()),
            elapsed_millis: 2,
        },
    ];
    let outcomes = build_components_parallel(&specs, &configs(), &completions);
    assert_eq!(outcomes[0].result, Err("temp dir: disk full".to_string()));
    assert_eq!(outcomes[1].result, Err("git fetch failed".to_string()));
    assert_eq!(outcomes[2].result, Err("no outcome reported".to_string()));
}

#[test]
fn no_specs_give_no_outcomes() {
    let outcomes = build_components_parallel(&Vec::new(), &configs(), &vec![built(0, "a")]);
    assert_eq!(outcomes.len(), 0);
    assert!(all_succeeded(&outcomes));
}

#[test]
fn plan_build_takes_the_job_from_the_configuration() {
    let job = plan_build(&spec("triggers", Some("v0.60.0")), &configs(), "reg/ns").unwrap();
    assert_eq!(job.component, "triggers");
    assert_eq!(job.repo, "https://github.com/tektoncd/triggers");
    assert!(matches!(job.clone, ClonePlan::FetchRef { ref refspec } if refspec == "v0.60.0"));
    assert_eq!(job.system, BuildSystem::Ko);
    assert_eq!(job.import_paths, vec!["./cmd/controller"]);
    assert_eq!(job.images, vec![("controller".to_string(), "IMAGE_TRIGGERS_CONTROLLER".to_string())]);
    assert_eq!(job.registry, "reg/ns");
    let job = plan_build(&spec("console-plugin", None), &configs(), "reg/ns").unwrap();
    assert!(matches!(job.clone, ClonePlan::DefaultBranch));
    assert_eq!(job.system, BuildSystem::Container);
}

#[test]
fn clone_plan_resolves_pull_requests() {
    assert!(matches!(
        clone_plan(&Some("pr/12".to_string())),
        ClonePlan::FetchRef { ref refspec } if refspec == "refs/pull/12/head"
    ));
    assert!(matches!(clone_plan(&None), ClonePlan::DefaultBranch));
}

#[test]
fn build_system_defaults_to_ko() {
    assert_eq!(build_system_of(&config("r", &[], &[], None)), BuildSystem::Ko);
    assert_eq!(build_system_of(&config("r", &[], &[], Some("ko"))), BuildSystem::Ko);
    assert_eq!(build_system_of(&config("r", &[], &[], Some("docker"))), BuildSystem::Container);
    assert_eq!(build_system_of(&config("r", &[], &[], Some("Docker"))), BuildSystem::Ko);
}

#[test]
fn phases_move_forward_or_fail() {
    assert_eq!(next_phase(BuildPhase::Queued, true), BuildPhase::Cloning);
    assert_eq!(next_phase(BuildPhase::Cloning, true), BuildPhase::Building);
    assert_eq!(next_phase(BuildPhase::Building, true), BuildPhase::Done);
    assert_eq!(next_phase(BuildPhase::Queued, false), BuildPhase::Failed);
    assert_eq!(next_phase(BuildPhase::Cloning, false), BuildPhase::Failed);
    assert_eq!(next_phase(BuildPhase::Building, false), BuildPhase::Failed);
    assert_eq!(next_phase(BuildPhase::Done, false), BuildPhase::Done);
    assert_eq!(next_phase(BuildPhase::Failed, true), BuildPhase::Failed);
}

#[test]
fn config_lookup_takes_the_first_entry() {
    let mut all = configs();
    all.push(("pipeline".to_string(), config("second", &[], &[], None)));
    let cfg = Config { components: all };
    assert_eq!(cfg.get("pipeline").unwrap().repo, "https://github.com/tektoncd/pipeline");
    assert!(cfg.get("chains").is_none());
    assert_eq!(default_config_path(), "config/components.toml");
}

#[test]
fn load_image_names_lists_the_declared_images() {
    let cfg = Config { components: configs() };
    assert_eq!(load_image_names_from_config(&cfg, "pipeline"), Ok(vec!["controller".to_string(), "webhook".to_string()]));
    assert_eq!(
        load_image_names_from_config(&cfg, "chains"),
        Err("Component 'chains' not in config".to_string())
    );
}
