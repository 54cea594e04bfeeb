use ocp_midstreamer::document::{parse_document, parse_yaml, render_compact, render_yaml, Document};
use ocp_midstreamer::konflux::{
    add_index_param, clean_section, create_standalone_pipeline, extract_index_image,
    is_provisioning, pipeline_run_status, pipelinerun, remove_run_after, rename_pipeline,
    replace_eaas_references, rewrite_references, task_pod_name, PipelineRunStatus,
};

fn json(text: &str) -> Document {
    parse_document(text).unwrap()
}

#[test]
fn a_run_stands_by_its_reason() {
    assert_eq!(pipeline_run_status("Succeeded"), Some(PipelineRunStatus::Succeeded));
    assert_eq!(pipeline_run_status("Failed"), Some(PipelineRunStatus::Failed));
    assert_eq!(pipeline_run_status("PipelineRunTimeout"), Some(PipelineRunStatus::Failed));
    assert_eq!(pipeline_run_status("CouldntGetPipeline"), Some(PipelineRunStatus::Failed));
    assert_eq!(pipeline_run_status("Running"), None);
    assert_eq!(pipeline_run_status(""), None);
    assert_eq!(task_pod_name("run-1", "e2e-test-pipelines"), "run-1-e2e-test-pipelines-pod");
}

#[test]
fn the_index_image_is_found_by_name_or_taken_last() {
    let snapshot = json("{\"components\":[{\"name\":\"operator\",\"containerImage\":\"a\"},{\"name\":\"fbc-index\",\"containerImage\":\"b\"},{\"name\":\"x\",\"containerImage\":\"c\"}]}");
    assert_eq!(extract_index_image(&snapshot), Ok("b".to_string()));
    let snapshot = json("{\"components\":[{\"name\":\"my-index\"},{\"name\":\"operator\",\"containerImage\":\"a\"}]}");
    assert_eq!(extract_index_image(&snapshot), Ok("a".to_string()));
    let snapshot = json("{\"components\":[{\"name\":\"operator\"}]}");
    assert_eq!(
        extract_index_image(&snapshot),
        Err("No FBC index image found in SNAPSHOT components".to_string())
    );
    assert_eq!(
        extract_index_image(&json("{\"components\":[]}")),
        Err("No FBC index image found in SNAPSHOT components".to_string())
    );
    assert_eq!(
        extract_index_image(&json("{\"components\":{}}")),
        Err("SNAPSHOT JSON missing 'components' array".to_string())
    );
}

#[test]
fn references_to_provisioning_results_are_rewritten() {
    assert_eq!(
        rewrite_references("a $(tasks.provision-cluster.results.clusterName) b"),
        "a standalone-cluster b"
    );
    assert_eq!(rewrite_references("[$(tasks.provision-eaas-space.results.secretRef)]"), "[]");
    assert_eq!(
        rewrite_references("x$(tasks.eaas-provision-space.results.other)y$(tasks.eaas-provision-space.results.other)z$(tasks.eaas-provision-space.results.more)"),
        "xyz"
    );
    assert_eq!(
        rewrite_references("open $(tasks.eaas-provision-cluster.results.never closed"),
        "open $(tasks.eaas-provision-cluster.results.never closed"
    );
    assert_eq!(rewrite_references("$(tasks.build.results.image)"), "$(tasks.build.results.image)");
    assert_eq!(rewrite_references(""), "");
    assert!(is_provisioning(&"my-provision-cluster-task".chars().collect()));
    assert!(!is_provisioning(&"deploy-operator".chars().collect()));
}

#[test]
fn a_task_is_read_again_after_rewriting() {
    let task = json("{\"name\":\"deploy\",\"params\":[{\"name\":\"cluster\",\"value\":\"$(tasks.provision-cluster.results.clusterName)\"}]}");
    assert_eq!(
        render_compact(&replace_eaas_references(task)),
        "{\"name\":\"deploy\",\"params\":[{\"name\":\"cluster\",\"value\":\"standalone-cluster\"}]}"
    );
    let untouched = json("{\"name\":\"deploy\",\"n\":1.50}");
    assert_eq!(render_compact(&replace_eaas_references(untouched)), "{\"n\":1.5,\"name\":\"deploy\"}");
    let broken = json("{\"$(tasks.provision-cluster.results.x)\":1,\"\":2}");
    assert_eq!(render_compact(&replace_eaas_references(broken)), "{\"\":1}");
}

#[test]
fn provisioning_tasks_are_taken_out_of_run_after() {
    let task = json("{\"name\":\"t\",\"runAfter\":[\"provision-cluster\",\"build\",7,\"x-eaas-provision-space\"]}");
    assert_eq!(render_compact(&remove_run_after(task)), "{\"name\":\"t\",\"runAfter\":[\"build\",7]}");
    let task = json("{\"name\":\"t\",\"runAfter\":\"provision-cluster\"}");
    assert_eq!(render_compact(&remove_run_after(task)), "{\"name\":\"t\",\"runAfter\":\"provision-cluster\"}");
    assert_eq!(render_compact(&remove_run_after(json("5"))), "5");
}

#[test]
fn a_pipeline_gets_its_own_name_and_parameter() {
    assert_eq!(
        render_compact(&rename_pipeline(json("{\"metadata\":{\"name\":\"release-test-pipeline\"}}"))),
        "{\"metadata\":{\"name\":\"release-test-pipeline-standalone\"}}"
    );
    assert_eq!(
        render_compact(&rename_pipeline(json("{\"metadata\":{\"name\":5}}"))),
        "{\"metadata\":{\"name\":\"release-test-pipeline-standalone\"}}"
    );
    assert_eq!(render_compact(&rename_pipeline(json("{\"metadata\":{}}"))), "{\"metadata\":{}}");
    assert_eq!(
        render_compact(&add_index_param(json("{\"spec\":{\"params\":[{\"name\":\"SNAPSHOT\"}]}}"))),
        "{\"spec\":{\"params\":[{\"name\":\"SNAPSHOT\"},{\"description\":\"FBC index image containing the operator bundle\",\"name\":\"INDEX_IMAGE\",\"type\":\"string\"}]}}"
    );
    let has = "{\"spec\":{\"params\":[{\"name\":\"INDEX_IMAGE\"}]}}";
    assert_eq!(render_compact(&add_index_param(json(has))), has);
    assert_eq!(render_compact(&add_index_param(json("{\"spec\":{}}"))), "{\"spec\":{}}");
}

#[test]
fn a_section_loses_its_provisioning_tasks() {
    let doc = json("{\"spec\":{\"tasks\":[{\"name\":\"provision-eaas-space\"},{\"name\":\"deploy\",\"runAfter\":[\"provision-eaas-space\"],\"v\":\"$(tasks.provision-eaas-space.results.secretRef)\"},{\"x\":1}],\"finally\":5}}");
    let cleaned = clean_section(clean_section(doc, "tasks"), "finally");
    assert_eq!(
        render_compact(&cleaned),
        "{\"spec\":{\"finally\":5,\"tasks\":[{\"name\":\"deploy\",\"runAfter\":[],\"v\":\"\"},{\"x\":1}]}}"
    );
}

#[test]
fn the_standalone_pipeline_is_written_as_yaml() {
    let yaml = "metadata:\n  name: release-test-pipeline\nspec:\n  params:\n    - name: SNAPSHOT\n  tasks:\n    - name: provision-cluster\n    - name: deploy-operator\n      runAfter:\n        - provision-cluster\n      params:\n        - name: cluster\n          value: $(tasks.provision-cluster.results.clusterName)\n  finally:\n    - name: eaas-provision-space-cleanup\n";
    let out = create_standalone_pipeline(yaml).unwrap();
    let doc = parse_yaml(&out).unwrap();
    assert_eq!(
        render_compact(&doc),
        "{\"metadata\":{\"name\":\"release-test-pipeline-standalone\"},\"spec\":{\"finally\":[],\"params\":[{\"name\":\"SNAPSHOT\"},{\"description\":\"FBC index image containing the operator bundle\",\"name\":\"INDEX_IMAGE\",\"type\":\"string\"}],\"tasks\":[{\"name\":\"deploy-operator\",\"params\":[{\"name\":\"cluster\",\"value\":\"standalone-cluster\"}],\"runAfter\":[]}]}}"
    );
    assert_eq!(create_standalone_pipeline("a: ["), Err("Failed to parse pipeline YAML".to_string()));
}

#[test]
fn a_pipeline_run_names_snapshot_and_index() {
    let run = pipelinerun("run-1", "{\"components\":[]}", "quay.io/i@sha256:1", "ns");
    assert_eq!(
        render_compact(&run),
        "{\"apiVersion\":\"tekton.dev/v1\",\"kind\":\"PipelineRun\",\"metadata\":{\"name\":\"run-1\",\"namespace\":\"ns\"},\"spec\":{\"params\":[{\"name\":\"SNAPSHOT\",\"value\":\"{\\\"components\\\":[]}\"},{\"name\":\"INDEX_IMAGE\",\"value\":\"quay.io/i@sha256:1\"}],\"pipelineRef\":{\"name\":\"release-test-pipeline-standalone\"},\"timeouts\":{\"pipeline\":\"1h30m0s\"}}}"
    );
    let yaml = render_yaml(&run).unwrap();
    assert!(yaml.contains("kind: PipelineRun"));
    assert_eq!(render_compact(&parse_yaml(&yaml).unwrap()), render_compact(&run));
}
