use ocp_midstreamer::component::{
    apply_as_of_date, clone_with_ref, default_specs, fetch_failure, is_known_component,
    known_components, parse_component_specs, resolve_git_ref, validate_date_format, ComponentSpec,
};

#[test]
fn resolve_git_ref_maps_pull_requests() {
    assert_eq!(resolve_git_ref("pr/123"), "refs/pull/123/head");
    assert_eq!(resolve_git_ref("pr/"), "refs/pull//head");
}

#[test]
fn resolve_git_ref_passes_other_refs_through() {
    assert_eq!(resolve_git_ref("v0.60.0"), "v0.60.0");
    assert_eq!(resolve_git_ref("main"), "main");
    assert_eq!(resolve_git_ref("pr"), "pr");
    assert_eq!(resolve_git_ref("PR/1"), "PR/1");
    assert_eq!(resolve_git_ref("refs/pull/5/head"), "refs/pull/5/head");
    assert_eq!(resolve_git_ref(""), "");
}

#[test]
fn parse_component_specs_reads_names_and_refs() {
    let specs = parse_component_specs("pipeline, triggers:v0.60.0").unwrap();
    assert_eq!(specs.len(), 2);
    assert_eq!(specs[0].name, "pipeline");
    assert_eq!(specs[0].git_ref, None);
    assert_eq!(specs[0].as_of_date, None);
    assert_eq!(specs[1].name, "triggers");
    assert_eq!(specs[1].git_ref, Some("v0.60.0".to_string()));
}

#[test]
fn parse_component_specs_trims_and_skips_blank_entries() {
    let specs = parse_component_specs(" pipeline : pr/123 ,, chains ,").unwrap();
    assert_eq!(specs.len(), 2);
    assert_eq!(specs[0].name, "pipeline");
    assert_eq!(specs[0].git_ref, Some("pr/123".to_string()));
    assert_eq!(specs[1].name, "chains");
    assert_eq!(specs[1].git_ref, None);
}

#[test]
fn parse_component_specs_cuts_at_the_first_colon() {
    let specs = parse_component_specs("results:a:b").unwrap();
    assert_eq!(specs[0].git_ref, Some("a:b".to_string()));
}

#[test]
fn parse_component_specs_rejects_unknown_names() {
    let err = parse_component_specs("pipeline,nope:v1").unwrap_err();
    assert_eq!(
        err,
        "Unknown component 'nope'. Known: pipeline, triggers, chains, results, manual-approval-gate, console-plugin"
    );
}

#[test]
fn parse_component_specs_rejects_an_empty_list() {
    assert_eq!(parse_component_specs("").unwrap_err(), "No components specified");
    assert_eq!(parse_component_specs(" , ,").unwrap_err(), "No components specified");
}

#[test]
fn known_components_are_six() {
    let known = known_components();
    assert_eq!(
        known,
        vec![
            "pipeline",
            "triggers",
            "chains",
            "results",
            "manual-approval-gate",
            "console-plugin"
        ]
    );
    assert!(is_known_component("console-plugin"));
    assert!(!is_known_component("console"));
}

#[test]
fn default_specs_name_every_component_without_ref() {
    let specs = default_specs();
    assert_eq!(specs.len(), 6);
    assert_eq!(specs[0].name, "pipeline");
    assert_eq!(specs[5].name, "console-plugin");
    for s in &specs {
        assert_eq!(s.git_ref, None);
        assert_eq!(s.as_of_date, None);
    }
}

#[test]
fn apply_as_of_date_spares_explicit_refs() {
    let mut specs = vec![
        ComponentSpec { name: "pipeline".to_string(), git_ref: None, as_of_date: None },
        ComponentSpec {
            name: "triggers".to_string(),
            git_ref: Some("v0.50.0".to_string()),
            as_of_date: None,
        },
    ];
    apply_as_of_date(&mut specs, "2024-01-15");
    assert_eq!(specs.len(), 2);
    assert_eq!(specs[0].name, "pipeline");
    assert_eq!(specs[0].as_of_date, Some("2024-01-15".to_string()));
    assert_eq!(specs[1].git_ref, Some("v0.50.0".to_string()));
    assert_eq!(specs[1].as_of_date, None);
}

#[test]
fn clone_with_ref_fetches_exactly_the_ref() {
    let plan = clone_with_ref("https://example.com/r.git", "/tmp/w", Some("pr/7"));
    assert_eq!(plan.len(), 3);
    assert_eq!(plan[0].program, "git");
    assert_eq!(plan[0].args, vec!["init", "/tmp/w"]);
    assert_eq!(plan[0].dir, None);
    assert_eq!(
        plan[1].args,
        vec!["fetch", "--depth", "1", "https://example.com/r.git", "refs/pull/7/head"]
    );
    assert_eq!(plan[1].dir, Some("/tmp/w".to_string()));
    assert_eq!(plan[2].args, vec!["checkout", "FETCH_HEAD"]);
    assert_eq!(plan[2].dir, Some("/tmp/w".to_string()));
}

#[test]
fn clone_with_ref_clones_the_default_branch_without_ref() {
    let plan = clone_with_ref("https://example.com/r.git", "/tmp/w", None);
    assert_eq!(plan.len(), 1);
    assert_eq!(plan[0].program, "git");
    assert_eq!(plan[0].args, vec!["clone", "--depth", "1", "https://example.com/r.git", "/tmp/w"]);
    assert_eq!(plan[0].dir, None);
}

#[test]
fn fetch_failure_names_both_refs() {
    assert_eq!(
        fetch_failure("pr/9"),
        "git fetch failed for ref 'pr/9' (resolved: 'refs/pull/9/head')"
    );
}

#[test]
fn validate_date_format_accepts_dates_only() {
    assert_eq!(validate_date_format("2024-01-15"), Ok("2024-01-15".to_string()));
    assert_eq!(validate_date_format("2024-12-31"), Ok("2024-12-31".to_string()));
    let err = Err("Date must be in YYYY-MM-DD format (e.g., 2024-01-15)".to_string());
    assert_eq!(validate_date_format("2024-13-01"), err);
    assert_eq!(validate_date_format("2024-00-10"), err);
    assert_eq!(validate_date_format("2024-01-32"), err);
    assert_eq!(validate_date_format("24-01-15"), err);
    assert_eq!(validate_date_format("2024-01-15 "), err);
    assert_eq!(validate_date_format(""), err);
}
