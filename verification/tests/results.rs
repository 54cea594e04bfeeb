use ocp_midstreamer::check::{
    auth_check, first_line_of, is_auto_fixable, operator_check, route_check, tool_check, tools,
};
use ocp_midstreamer::component::ComponentSpec;
use ocp_midstreamer::exec::ExecResult;
use ocp_midstreamer::incluster::{run_args, specs_argument};
use ocp_midstreamer::testrun::{gauge_properties, missing_plugins, tail_lines};
use ocp_midstreamer::profile::{
    build_spec_profiles, insert_name, lex_less, recommend_parallelism, sampled_specs,
    ClusterCapacity, MetricSample, ResourceSnapshot, SpecProfile, UsageStats,
};
use ocp_midstreamer::results::{
    bucket_of, categorize_results, parse_gauge_stdout, strip_ansi, tally, FailureCategory,
    GaugeParser, TestCase,
};

fn out(code: i32, stdout: &str) -> Result<ExecResult, String> {
    Ok(ExecResult { exit_code: code, stdout: stdout.to_string(), stderr: String::new(), duration_millis: 0 })
}

#[test]
fn colour_codes_are_taken_out() {
    assert_eq!(strip_ansi("\x1b[31mred\x1b[0m and \x1b[1;32mgreen\x1b[m"), "red and green");
    assert_eq!(strip_ansi("plain [31m"), "plain [31m");
    assert_eq!(strip_ansi(""), "");
}

#[test]
fn a_gauge_log_is_read_scenario_by_scenario() {
    let log = "\
# Pipeline spec
  ## Run a pipeline
    * step one ...[PASS]
  ## \x1b[31mRun a failing pipeline\x1b[0m
    * step one ...[FAIL]
    Error Message: expected 1
      got 2
    Stacktrace:
      at line 3
  ## Fails without message
    * step ...[FAIL]
# Triggers spec
## Create a trigger
Error Message:
  only line

  not part of the error
FAIL\tcommand-line-arguments\t9487.532s
";
    let report = parse_gauge_stdout(log);
    assert_eq!(report.tests.len(), 4);
    assert_eq!(report.passed, 2);
    assert_eq!(report.failed, 2);
    let t = &report.tests[0];
    assert_eq!((t.spec.as_str(), t.scenario.as_str(), t.passed), ("Pipeline spec", "Run a pipeline", true));
    assert_eq!(t.error_message, None);
    let t = &report.tests[1];
    assert_eq!((t.spec.as_str(), t.scenario.as_str(), t.passed), ("Pipeline spec", "Run a failing pipeline", false));
    assert_eq!(t.error_message, Some("expected 1\ngot 2".to_string()));
    let t = &report.tests[2];
    assert_eq!(t.scenario, "Fails without message");
    assert_eq!(t.error_message, Some("Test failed".to_string()));
    let t = &report.tests[3];
    assert_eq!((t.spec.as_str(), t.scenario.as_str(), t.passed), ("Triggers spec", "Create a trigger", true));
    assert_eq!(t.error_message, None);
    assert_eq!(report.durations, vec!["9487.532"]);
}

#[test]
fn a_gauge_log_without_scenarios_has_no_tests() {
    let report = parse_gauge_stdout("# Only a spec\nok\tpkg\t1.5s\nok\tpkg\t2sss\nFAIL\tnope\n");
    assert!(report.tests.is_empty());
    assert_eq!(report.passed, 0);
    assert_eq!(report.failed, 0);
    assert_eq!(report.durations, vec!["1.5", "2"]);
    let report = parse_gauge_stdout("");
    assert!(report.tests.is_empty());
    assert!(report.durations.is_empty());
}

#[test]
fn the_gauge_parser_keeps_an_error_open_across_a_spec_heading() {
    let mut p = GaugeParser::new();
    p.feed("Error Message: before any scenario");
    p.feed("# Spec");
    p.feed("still the error");
    assert!(p.in_error);
    assert_eq!(p.errors, vec!["before any scenario", "still the error"]);
    p.feed("## Scenario");
    assert!(!p.in_error);
    assert!(p.errors.is_empty());
    p.feed("x ...[FAIL]");
    let report = p.finish();
    assert_eq!(report.tests.len(), 1);
    assert_eq!(report.tests[0].spec, "Spec");
    assert_eq!(report.tests[0].error_message, Some("Test failed".to_string()));
}

fn case(spec: &str, scenario: &str, passed: bool, error: Option<&str>) -> TestCase {
    TestCase {
        spec: spec.to_string(),
        scenario: scenario.to_string(),
        passed,
        error_message: error.map(|e| e.to_string()),
    }
}

#[test]
fn failed_tests_are_grouped_larger_groups_first() {
    let tests = vec![
        case("s", "a", false, Some("Secret not found")),
        case("s", "b", true, Some("chains")),
        case("s", "c", false, Some("pod timed out")),
        case("s", "d", false, None),
        case("t", "e", false, Some("uid_map denied")),
        case("t", "f", false, Some("KNATIVE missing")),
        case("t", "g", false, Some("something else")),
    ];
    let groups = categorize_results(&tests);
    let shown: Vec<(FailureCategory, usize, Vec<String>)> =
        groups.iter().map(|g| (g.category, g.count, g.tests.clone())).collect();
    assert_eq!(
        shown,
        vec![
            (
                FailureCategory::UpstreamRegression,
                3,
                vec!["s::c".to_string(), "s::d".to_string(), "t::g".to_string()]
            ),
            (FailureCategory::MissingComponent, 1, vec!["t::f".to_string()]),
            (FailureCategory::PlatformIssue, 1, vec!["t::e".to_string()]),
            (FailureCategory::ConfigGap, 1, vec!["s::a".to_string()]),
        ]
    );
    assert!(categorize_results(&vec![case("s", "a", true, None)]).is_empty());
    assert!(categorize_results(&Vec::new()).is_empty());
    assert_eq!(bucket_of(&tests, FailureCategory::UpgradePrereq), Vec::<String>::new());
    assert_eq!(tally(&tests), (1, 6));
}

#[test]
fn tools_are_checked_by_their_version() {
    let list = tools();
    let names: Vec<&str> = list.iter().map(|t| t.name.as_str()).collect();
    assert_eq!(names, vec!["oc", "ko", "git", "go", "gh"]);
    assert_eq!(list[0].version_args, vec!["version", "--client"]);
    assert_eq!(list[2].version_args, vec!["version"]);
    assert_eq!(list[1].fix_hint, "Install ko: go install github.com/google/ko@latest");
    let r = tool_check(&list[2], true, &out(0, "  git version 2.44.0  \nmore\n"));
    assert!(r.passed);
    assert_eq!(r.name, "git");
    assert_eq!(r.detail, "git version 2.44.0");
    assert_eq!(r.fix_hint, None);
    let r = tool_check(&list[2], true, &out(3, ""));
    assert!(r.passed);
    assert_eq!(r.detail, "");
    let r = tool_check(&list[2], true, &Err("spawn failed".to_string()));
    assert!(!r.passed);
    assert_eq!(r.detail, "Found on PATH but failed to get version");
    assert_eq!(r.fix_hint, Some("Install git from https://git-scm.com".to_string()));
    let r = tool_check(&list[2], false, &out(0, "git version"));
    assert!(!r.passed);
    assert_eq!(r.detail, "Not found on PATH");
    assert_eq!(first_line_of("\n second"), "");
}

#[test]
fn cluster_checks_say_what_to_do() {
    let r = auth_check(&out(0, "kube:admin\n"));
    assert!(r.passed);
    assert_eq!(r.name, "cluster auth");
    assert_eq!(r.detail, "kube:admin");
    let r = auth_check(&out(1, "kube:admin"));
    assert!(!r.passed);
    assert_eq!(r.detail, "Not logged in to any cluster");
    assert_eq!(r.fix_hint, Some("Log in to your OpenShift cluster: oc login <cluster-url>".to_string()));
    assert!(!auth_check(&Err("e".to_string())).passed);
    let r = operator_check(&out(0, ""));
    assert!(r.passed);
    assert_eq!(r.detail, "TektonConfig CR found");
    let r = operator_check(&out(1, ""));
    assert_eq!(r.name, "pipelines operator");
    assert_eq!(r.detail, "OpenShift Pipelines operator not installed");
    assert_eq!(r.fix_hint, Some("Will be auto-installed by build/deploy/run commands".to_string()));
    let r = route_check(false, &out(0, "host"));
    assert!(!r.passed);
    assert_eq!(r.detail, "SKIP - not connected to cluster");
    assert_eq!(r.fix_hint, None);
    let r = route_check(true, &out(0, " host.example.com\n"));
    assert!(r.passed);
    assert_eq!(r.detail, "host.example.com");
    let r = route_check(true, &out(0, "  \n"));
    assert!(!r.passed);
    assert_eq!(r.detail, "Default registry route not found");
    assert_eq!(
        r.fix_hint,
        Some("Enable the default registry route:\n  oc patch configs.imageregistry.operator.openshift.io/cluster --patch '{\"spec\":{\"defaultRoute\":true}}' --type=merge".to_string())
    );
    assert!(!route_check(true, &out(1, "host")).passed);
    assert!(is_auto_fixable("registry route"));
    assert!(is_auto_fixable("pipelines operator"));
    assert!(!is_auto_fixable("cluster auth"));
}

fn profile(name: &str, cpu: u64, memory: u64) -> SpecProfile {
    let stats = |p95| UsageStats { min: 0, max: p95, avg: 0, p95 };
    SpecProfile {
        spec_name: name.to_string(),
        duration_seconds: 1,
        samples: 1,
        cpu: stats(cpu),
        memory: stats(memory),
        peak_pod_count: 1,
    }
}

#[test]
fn the_recommendation_follows_the_peak_spec() {
    let cluster = ClusterCapacity {
        total_cpu_millicores: 16000,
        total_memory_bytes: 64 << 30,
        allocatable_cpu_millicores: 8000,
        allocatable_memory_bytes: 32 << 30,
        node_count: 4,
    };
    let baseline = ResourceSnapshot { cpu_millicores: 2000, memory_bytes: 8 << 30, pod_count: 50 };
    let specs = vec![profile("a", 1500, 1 << 30), profile("b", 900, 12 << 30), profile("c", 1500, 1 << 20)];
    let (parallel, limiting, peak) = recommend_parallelism(&cluster, &baseline, &specs);
    assert_eq!(parallel, 3);
    assert_eq!(limiting, "memory");
    assert_eq!(peak, Some(2));
    let (parallel, limiting, peak) = recommend_parallelism(&cluster, &baseline, &Vec::new());
    assert_eq!(parallel, 1);
    assert_eq!(limiting, "cpu");
    assert_eq!(peak, None);
    let (_, limiting, peak) = recommend_parallelism(&cluster, &baseline, &vec![profile("a", 1000, 1 << 30)]);
    assert_eq!(limiting, "cpu");
    assert_eq!(peak, Some(0));
}

#[test]
fn the_job_runs_the_workflow_with_the_given_flags() {
    let specs = vec![
        ComponentSpec { name: "pipeline".to_string(), git_ref: Some("pr/123".to_string()), as_of_date: None },
        ComponentSpec { name: "triggers".to_string(), git_ref: None, as_of_date: Some("2024-01-01".to_string()) },
    ];
    assert_eq!(specs_argument(&specs), "pipeline:pr/123,triggers");
    assert_eq!(specs_argument(&Vec::new()), "");
    assert_eq!(
        run_args(&specs, "e2e", "master", "./out", Some("quay.io/org"), None),
        vec![
            "run", "--components", "pipeline:pr/123,triggers", "--tags", "e2e",
            "--release-tests-ref", "master", "--output-dir", "./out", "--registry", "quay.io/org"
        ]
    );
    assert_eq!(
        run_args(&specs[1..].to_vec(), "t", "r", "o", None, Some("2024-01-15")),
        vec![
            "run", "--components", "triggers", "--tags", "t", "--release-tests-ref", "r",
            "--output-dir", "o", "--as-of", "2024-01-15"
        ]
    );
}

#[test]
fn missing_runner_plugins_are_named() {
    assert_eq!(missing_plugins("gauge 1.6\nplugins\n-------\ngo (0.4)\nxml-report (0.5)"), Vec::<String>::new());
    assert_eq!(missing_plugins("gauge 1.6\nhtml-report"), vec!["go", "xml-report"]);
    assert_eq!(missing_plugins("go"), vec!["xml-report"]);
    assert_eq!(missing_plugins("xml-report"), vec!["go"]);
}

#[test]
fn the_runner_gets_an_hour_to_connect() {
    assert_eq!(gauge_properties(None), Some("runner_connection_timeout = 3600000\n".to_string()));
    assert_eq!(gauge_properties(Some("a = 1\nrunner_connection_timeout = 3600000\n")), None);
    assert_eq!(
        gauge_properties(Some("a = 1\nrunner_connection_timeout = 30000\n")),
        Some("a = 1\n# runner_connection_timeout = 30000\n\nrunner_connection_timeout = 3600000\n".to_string())
    );
    assert_eq!(
        gauge_properties(Some("")),
        Some("\nrunner_connection_timeout = 3600000\n".to_string())
    );
}

#[test]
fn the_end_of_a_log_is_shown() {
    assert_eq!(tail_lines("a\nb\nc\nd\n", 2), vec!["c", "d"]);
    assert_eq!(tail_lines("a\nb", 5), vec!["a", "b"]);
    assert_eq!(tail_lines("a\nb", 0), Vec::<String>::new());
    assert_eq!(tail_lines("", 3), Vec::<String>::new());
}

fn sample(at: u64, spec: Option<&str>, cpu: u64, memory: u64, pods: u32) -> MetricSample {
    MetricSample {
        timestamp_millis: at,
        spec_name: spec.map(|s| s.to_string()),
        total_cpu_millicores: cpu,
        total_memory_bytes: memory,
        pod_count: pods,
    }
}

#[test]
fn samples_are_summed_up_spec_by_spec() {
    let samples = vec![
        sample(0, None, 1, 1, 1),
        sample(1000, Some("specs/b.spec"), 300, 30, 4),
        sample(6000, Some("specs/a.spec"), 100, 10, 2),
        sample(11000, Some("specs/b.spec"), 100, 50, 9),
        sample(16500, Some("specs/b.spec"), 200, 40, 3),
        sample(20000, None, 9, 9, 9),
    ];
    let profiles = build_spec_profiles(&samples);
    assert_eq!(profiles.len(), 2);
    let a = &profiles[0];
    assert_eq!(a.spec_name, "specs/a.spec");
    assert_eq!(a.samples, 1);
    assert_eq!(a.duration_seconds, 0);
    assert_eq!(a.cpu, UsageStats { min: 100, max: 100, avg: 100, p95: 100 });
    assert_eq!(a.peak_pod_count, 2);
    let b = &profiles[1];
    assert_eq!(b.spec_name, "specs/b.spec");
    assert_eq!(b.samples, 3);
    assert_eq!(b.duration_seconds, 15);
    assert_eq!(b.cpu, UsageStats { min: 100, max: 300, avg: 200, p95: 300 });
    assert_eq!(b.memory, UsageStats { min: 30, max: 50, avg: 40, p95: 50 });
    assert_eq!(b.peak_pod_count, 9);
    assert!(build_spec_profiles(&Vec::new()).is_empty());
    assert_eq!(sampled_specs(&samples), vec!["specs/a.spec", "specs/b.spec"]);
}

#[test]
fn names_are_kept_in_the_order_of_the_dictionary() {
    let mut names: Vec<String> = Vec::new();
    for name in ["m", "b", "z", "b", "ba", "", "B", "é", "m"] {
        insert_name(&mut names, name);
    }
    assert_eq!(names, vec!["", "B", "b", "ba", "m", "z", "é"]);
    let mut sorted = names.clone();
    sorted.sort();
    assert_eq!(names, sorted);
    let chars = |s: &str| s.chars().collect::<Vec<char>>();
    assert!(lex_less(&chars("a"), &chars("b")));
    assert!(lex_less(&chars("a"), &chars("ab")));
    assert!(!lex_less(&chars("ab"), &chars("a")));
    assert!(!lex_less(&chars("a"), &chars("a")));
    assert!(lex_less(&chars(""), &chars("a")));
    assert!(!lex_less(&chars(""), &chars("")));
}
