use ocp_midstreamer::config::{ComponentConfig, Config};
use ocp_midstreamer::deploy::manifest::{
    merge_entries, patch_operator_images, CsvPatchError,
};
use ocp_midstreamer::deploy::mapping::build_image_mappings;
use ocp_midstreamer::deploy::orchestrator::{
    advance, image_namespace, installer_set_prefix, run_deploy, stage_at, to_internal_registry,
    DeployStage, DeployStatus,
};
use ocp_midstreamer::document::{parse_document, render_document, Document, PathStep};

fn config() -> Config {
    Config {
        components: vec![
            (
                "pipeline".to_string(),
                ComponentConfig {
                    repo: "r".to_string(),
                    import_paths: vec!["./cmd/controller".to_string(), "./cmd/webhook".to_string()],
                    images: vec![
                        ("controller".to_string(), "IMAGE_PIPELINES_CONTROLLER".to_string()),
                        ("webhook".to_string(), "IMAGE_PIPELINES_WEBHOOK".to_string()),
                    ],
                    build_system: None,
                    installer_set_prefix: None,
                },
            ),
            (
                "manual-approval-gate".to_string(),
                ComponentConfig {
                    repo: "r".to_string(),
                    import_paths: Vec::new(),
                    images: Vec::new(),
                    build_system: None,
                    installer_set_prefix: Some("manualapprovalgate".to_string()),
                },
            ),
        ],
    }
}

fn strings(items: &[&str]) -> Vec<String> {
    items.iter().map(|s| s.to_string()).collect()
}

#[test]
fn mappings_join_built_images_with_their_keys() {
    let m = build_image_mappings(&config(), "pipeline", "reg/ns", &strings(&["webhook", "controller"])).unwrap();
    assert_eq!(
        m,
        vec![
            ("IMAGE_PIPELINES_WEBHOOK".to_string(), "reg/ns/webhook".to_string()),
            ("IMAGE_PIPELINES_CONTROLLER".to_string(), "reg/ns/controller".to_string()),
        ]
    );
}

#[test]
fn mappings_are_all_or_nothing() {
    assert_eq!(
        build_image_mappings(&config(), "pipeline", "reg", &strings(&["controller", "nop", "other"])),
        Err("No IMAGE_ mapping found for built image 'nop' in component 'pipeline'".to_string())
    );
    assert_eq!(
        build_image_mappings(&config(), "chains", "reg", &strings(&["controller"])),
        Err("Component 'chains' not found in config".to_string())
    );
    assert_eq!(
        build_image_mappings(&config(), "pipeline", "reg", &Vec::new()),
        Err("No image mappings produced for component 'pipeline'".to_string())
    );
}

#[test]
fn internal_registry_keeps_the_path() {
    assert_eq!(
        to_internal_registry("default-route-openshift-image-registry.apps.example.com/tekton-upstream"),
        "image-registry.openshift-image-registry.svc:5000/tekton-upstream"
    );
    assert_eq!(
        to_internal_registry("route.example.com/a/b"),
        "image-registry.openshift-image-registry.svc:5000/a/b"
    );
    assert_eq!(
        to_internal_registry("route.example.com"),
        "image-registry.openshift-image-registry.svc:5000/tekton-upstream"
    );
    assert_eq!(
        to_internal_registry("image-registry.openshift-image-registry.svc:5000"),
        "image-registry.openshift-image-registry.svc:5000/tekton-upstream"
    );
    assert_eq!(
        to_internal_registry("image-registry.openshift-image-registry.svc:5000/other"),
        "image-registry.openshift-image-registry.svc:5000/tekton-upstream"
    );
    assert_eq!(
        to_internal_registry("image-registry.openshift-image-registry.svc:5000/tekton-upstream/x"),
        "image-registry.openshift-image-registry.svc:5000/tekton-upstream/x"
    );
}

#[test]
fn image_namespace_is_the_last_segment() {
    assert_eq!(image_namespace("host:5000/tekton-upstream"), "tekton-upstream");
    assert_eq!(image_namespace("host/a/b"), "b");
    assert_eq!(image_namespace("host"), "host");
    assert_eq!(image_namespace("host/"), "");
}

#[test]
fn installer_set_prefix_comes_from_the_configuration() {
    assert_eq!(installer_set_prefix(&config(), "pipeline"), None);
    assert_eq!(
        installer_set_prefix(&config(), "manual-approval-gate"),
        Some("manualapprovalgate".to_string())
    );
    assert_eq!(installer_set_prefix(&config(), "chains"), None);
}

fn all_ok(n: usize) -> Vec<Result<(), String>> {
    (0..n).map(|_| Ok(())).collect()
}

#[test]
fn a_deployment_runs_its_stages_in_order() {
    assert_eq!(stage_at(0), DeployStage::Connect);
    assert_eq!(stage_at(3), DeployStage::MapImages);
    assert_eq!(stage_at(8), DeployStage::WaitForReconciliation);
    assert!(matches!(run_deploy(&Vec::new()), DeployStatus::Running(0)));
    assert!(matches!(run_deploy(&all_ok(4)), DeployStatus::Running(4)));
    assert!(matches!(run_deploy(&all_ok(9)), DeployStatus::Converged));
    assert!(matches!(run_deploy(&all_ok(12)), DeployStatus::Converged));
}

#[test]
fn a_failed_stage_ends_the_deployment() {
    let mut results = all_ok(9);
    results[5] = Err("replace failed".to_string());
    results[7] = Err("never seen".to_string());
    assert!(matches!(
        run_deploy(&results),
        DeployStatus::Failed(5, ref e) if e == "replace failed"
    ));
}

#[test]
fn a_failed_wait_is_only_a_warning() {
    let mut results = all_ok(9);
    results[8] = Err("did not converge".to_string());
    assert!(matches!(
        run_deploy(&results),
        DeployStatus::Unconverged(ref w) if w == "did not converge"
    ));
    assert!(matches!(
        advance(DeployStatus::Running(8), &Ok(())),
        DeployStatus::Converged
    ));
    assert!(matches!(
        advance(DeployStatus::Unconverged("w".to_string()), &Err("x".to_string())),
        DeployStatus::Unconverged(ref w) if w == "w"
    ));
}

fn manifest(env: &str) -> Document {
    let text = format!(
        "{{\"kind\":\"ClusterServiceVersion\",\"spec\":{{\"install\":{{\"spec\":{{\"deployments\":[{{\"name\":\"other\"}},{{\"name\":\"openshift-pipelines-operator\",\"spec\":{{\"template\":{{\"spec\":{{\"containers\":[{{\"name\":\"sidecar\"}},{{\"name\":\"openshift-pipelines-operator-lifecycle\"{env}}}]}}}}}}}}]}}}}}}}}"
    );
    parse_document(&text).unwrap()
}

fn env_path() -> Vec<PathStep> {
    vec![
        PathStep::Key("spec".to_string()),
        PathStep::Key("install".to_string()),
        PathStep::Key("spec".to_string()),
        PathStep::Key("deployments".to_string()),
        PathStep::Index(1),
        PathStep::Key("spec".to_string()),
        PathStep::Key("template".to_string()),
        PathStep::Key("spec".to_string()),
        PathStep::Key("containers".to_string()),
        PathStep::Index(1),
        PathStep::Key("env".to_string()),
    ]
}

fn compact(doc: &Document) -> String {
    render_document(doc).split_whitespace().collect::<Vec<&str>>().join("")
}

#[test]
fn the_manifest_patch_merges_into_the_lifecycle_container() {
    let csv = manifest(
        ",\"env\":[{\"name\":\"KEEP\",\"value\":\"1\"},{\"name\":\"IMAGE_A\",\"valueFrom\":{\"x\":1}},{\"name\":\"IMAGE_A\",\"value\":\"old\",\"extra\":true}]",
    );
    let mappings = vec![
        ("IMAGE_A".to_string(), "reg/a".to_string()),
        ("IMAGE_B".to_string(), "reg/b".to_string()),
        ("IMAGE_B".to_string(), "reg/b2".to_string()),
    ];
    let patched = patch_operator_images(csv, "openshift-pipelines-operator", &mappings).unwrap();
    let env = patched.get_path(&env_path()).unwrap();
    assert_eq!(
        compact(env),
        "[{\"name\":\"KEEP\",\"value\":\"1\"},{\"name\":\"IMAGE_A\",\"value\":\"reg/a\"},{\"extra\":true,\"name\":\"IMAGE_A\",\"value\":\"reg/a\"},{\"name\":\"IMAGE_B\",\"value\":\"reg/b\"}]"
    );
    assert_eq!(compact(patched.get("kind").unwrap()), "\"ClusterServiceVersion\"");
    let again = patch_operator_images(patched.copy(), "openshift-pipelines-operator", &mappings).unwrap();
    assert_eq!(compact(&again), compact(&patched));
}

#[test]
fn the_manifest_patch_says_what_is_missing() {
    let mappings = vec![("IMAGE_A".to_string(), "reg/a".to_string())];
    let none = parse_document("{\"spec\":{}}").unwrap();
    assert_eq!(
        patch_operator_images(none, "d", &mappings).unwrap_err(),
        CsvPatchError::NoDeployments
    );
    assert_eq!(
        patch_operator_images(manifest(""), "missing", &mappings).unwrap_err(),
        CsvPatchError::DeploymentNotFound
    );
    assert_eq!(
        patch_operator_images(manifest(""), "other", &mappings).unwrap_err(),
        CsvPatchError::NoContainers
    );
    let no_lifecycle = parse_document(
        "{\"spec\":{\"install\":{\"spec\":{\"deployments\":[{\"name\":\"d\",\"spec\":{\"template\":{\"spec\":{\"containers\":[{\"name\":\"x\"}]}}}}]}}}}",
    )
    .unwrap();
    assert_eq!(
        patch_operator_images(no_lifecycle, "d", &mappings).unwrap_err(),
        CsvPatchError::ContainerNotFound
    );
    assert_eq!(
        patch_operator_images(manifest(""), "openshift-pipelines-operator", &mappings).unwrap_err(),
        CsvPatchError::EnvPathMissing
    );
    assert_eq!(CsvPatchError::EnvPathMissing.message(), "Could not find env path in CSV");
    assert_eq!(
        CsvPatchError::NoDeployments.message(),
        "CSV has no deployments in spec.install.spec.deployments"
    );
}

#[test]
fn merge_entries_leaves_entries_without_a_name_alone() {
    let list = parse_document("[{\"value\":\"x\"},7,{\"name\":5},{\"name\":\"K\",\"value\":\"old\"}]").unwrap();
    let items = list.as_list().unwrap();
    let merged = merge_entries(items, &vec![("K".to_string(), "new".to_string())]);
    assert_eq!(merged.len(), 4);
    assert_eq!(compact(&merged[0]), "{\"value\":\"x\"}");
    assert_eq!(compact(&merged[1]), "7");
    assert_eq!(compact(&merged[2]), "{\"name\":5}");
    assert_eq!(compact(&merged[3]), "{\"name\":\"K\",\"value\":\"new\"}");
}
