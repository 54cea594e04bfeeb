use ocp_midstreamer::document::{parse_document, render_document, Document, Member, PathStep};
use ocp_midstreamer::exec::{exit_code_of, run_cmd, run_cmd_streaming, ExecResult};
use ocp_midstreamer::registry::{
    collect_image_refs, default_namespace, ensure_namespace, get_registry_route, image_name_of,
    merge_auths, pinned_reference, push_to_external, registry_login, registry_route_query,
    sync_docker_config,
};

fn result(code: i32, stdout: &str, stderr: &str) -> ExecResult {
    ExecResult {
        exit_code: code,
        stdout: stdout.to_string(),
        stderr: stderr.to_string(),
        duration_millis: 3,
    }
}

fn compact(text: &str) -> String {
    text.split_whitespace().collect::<Vec<&str>>().join("")
}

#[test]
fn the_route_is_what_the_query_printed() {
    assert_eq!(
        get_registry_route(&Ok(result(0, " default-route.apps.example.com\n", ""))),
        Ok("default-route.apps.example.com".to_string())
    );
    assert_eq!(
        get_registry_route(&Err("oc failed".to_string())),
        Err("Could not get OCP image registry route. Is the registry exposed? Run: oc patch configs.imageregistry.operator.openshift.io/cluster --patch '{\"spec\":{\"defaultRoute\":true}}' --type=merge".to_string())
    );
    assert_eq!(
        registry_route_query(),
        vec!["get", "route", "default-route", "-n", "openshift-image-registry", "-o", "jsonpath={.spec.host}"]
    );
    assert_eq!(default_namespace(), "tekton-upstream");
}

#[test]
fn the_login_uses_the_trimmed_token() {
    assert_eq!(
        registry_login("route.example.com", "sha256~abc\n"),
        vec!["registry", "login", "--registry=route.example.com", "--token=sha256~abc", "--insecure=true"]
    );
}

#[test]
fn a_namespace_is_created_only_where_the_check_failed() {
    assert_eq!(ensure_namespace("ns", &result(0, "", "")), None);
    assert_eq!(
        ensure_namespace("ns", &result(1, "", "not found")),
        Some(vec!["create".to_string(), "namespace".to_string(), "ns".to_string()])
    );
}

#[test]
fn image_names_lose_path_digest_and_tag() {
    assert_eq!(image_name_of("reg.example.com/ns/controller@sha256:abc"), "controller");
    assert_eq!(image_name_of("reg.example.com:5000/ns/webhook:v1"), "webhook");
    assert_eq!(image_name_of("controller"), "controller");
    assert_eq!(image_name_of("reg/ns/img:tag@sha256:abc"), "img");
    assert_eq!(image_name_of("reg/ns/"), "");
}

#[test]
fn a_push_copies_to_the_target_and_pins_by_digest() {
    let plan = push_to_external("internal:5000/ns/controller@sha256:abc", "quay.io/org");
    assert_eq!(plan.image_name, "controller");
    assert_eq!(plan.source, "docker://internal:5000/ns/controller@sha256:abc");
    assert_eq!(plan.destination, "docker://quay.io/org/controller");
    assert_eq!(
        pinned_reference("quay.io/org", &plan.image_name, "sha256:def\n"),
        "quay.io/org/controller@sha256:def"
    );
}

#[test]
fn image_refs_are_read_line_by_line() {
    let refs = collect_image_refs(
        "reg/ns/controller@sha256:aa\r\n\n   \n  reg/ns/webhook@sha256:bb  \nplain",
    );
    assert_eq!(
        refs,
        vec![
            ("controller".to_string(), "reg/ns/controller@sha256:aa".to_string()),
            ("webhook".to_string(), "reg/ns/webhook@sha256:bb".to_string()),
            ("plain".to_string(), "plain".to_string()),
        ]
    );
    assert!(collect_image_refs("").is_empty());
    assert!(collect_image_refs("\n\n").is_empty());
}

#[test]
fn credentials_are_merged_without_deleting_any() {
    let src = "{\"auths\":{\"new.example.com\":{\"auth\":\"bmV3\"},\"both.example.com\":{\"auth\":\"ZnJlc2g=\"}}}";
    let dst = "{\"credsStore\":\"desktop\",\"auths\":{\"old.example.com\":{\"auth\":\"b2xk\"},\"both.example.com\":{\"auth\":\"c3RhbGU=\"}}}";
    let written = sync_docker_config(src, Some(dst)).unwrap();
    assert_eq!(
        compact(&written),
        "{\"auths\":{\"both.example.com\":{\"auth\":\"ZnJlc2g=\"},\"new.example.com\":{\"auth\":\"bmV3\"},\"old.example.com\":{\"auth\":\"b2xk\"}},\"credsStore\":\"desktop\"}"
    );
    assert!(written.contains('\n'));
}

#[test]
fn a_missing_or_broken_store_is_replaced_by_a_copy() {
    let src = "{\"auths\":{\"a\":{}}}";
    assert_eq!(sync_docker_config(src, None), Some(src.to_string()));
    assert_eq!(sync_docker_config(src, Some("not json")), Some(src.to_string()));
    assert_eq!(sync_docker_config("not json", None), Some("not json".to_string()));
    assert_eq!(sync_docker_config("not json", Some("{\"auths\":{}}")), None);
}

#[test]
fn a_store_without_auths_is_left_as_it_is() {
    let written = sync_docker_config("{\"auths\":{\"a\":{}}}", Some("{\"credsStore\":\"x\"}")).unwrap();
    assert_eq!(compact(&written), "{\"credsStore\":\"x\"}");
    let written = sync_docker_config("{\"other\":1}", Some("{\"auths\":{\"b\":{}}}")).unwrap();
    assert_eq!(compact(&written), "{\"auths\":{\"b\":{}}}");
    let written = sync_docker_config("{\"auths\":{\"a\":{}}}", Some("{\"auths\":[1]}")).unwrap();
    assert_eq!(compact(&written), "{\"auths\":[1]}");
}

#[test]
fn merge_auths_keeps_the_place_of_a_known_host() {
    let src = parse_document("{\"auths\":{\"b\":2,\"z\":26}}").unwrap();
    let dst = Document::Object(vec![
        Member { key: "first".to_string(), value: Document::Bool(true) },
        Member {
            key: "auths".to_string(),
            value: Document::Object(vec![
                Member { key: "c".to_string(), value: Document::Number("3".to_string()) },
                Member { key: "b".to_string(), value: Document::Number("0".to_string()) },
            ]),
        },
    ]);
    let merged = merge_auths(&src, dst);
    let auths = merged.get("auths").unwrap();
    match auths {
        Document::Object(members) => {
            let keys: Vec<&str> = members.iter().map(|m| m.key.as_str()).collect();
            assert_eq!(keys, vec!["c", "b", "z"]);
        }
        _ => panic!("auths is no object"),
    }
    assert_eq!(compact(&render_document(auths.get("b").unwrap())), "2");
    assert!(matches!(merged.get("first"), Some(Document::Bool(true))));
}

#[test]
fn a_command_fails_by_its_exit_code() {
    let args = vec!["get".to_string(), "pods".to_string()];
    let ok = run_cmd("oc", &args, result(0, "out", "")).unwrap();
    assert_eq!(ok.stdout, "out");
    assert_eq!(ok.duration_millis, 3);
    assert_eq!(
        run_cmd("oc", &args, result(2, "", " no such resource \n")).unwrap_err(),
        "oc get pods failed (exit 2): no such resource"
    );
    assert_eq!(
        run_cmd("git", &Vec::new(), result(-1, "", "")).unwrap_err(),
        "git  failed (exit -1): "
    );
    assert_eq!(
        run_cmd("x", &vec!["a".to_string()], result(i32::MIN, "", "e")).unwrap_err(),
        "x a failed (exit -2147483648): e"
    );
    assert_eq!(run_cmd_streaming("ko", 0), Ok(0));
    assert_eq!(run_cmd_streaming("ko", 3), Err("ko failed with exit code 3".to_string()));
    assert_eq!(exit_code_of(Some(7)), 7);
    assert_eq!(exit_code_of(None), -1);
}

#[test]
fn documents_are_read_and_patched_by_path() {
    let doc = parse_document("{\"a\":{\"b\":[10,{\"c\":\"x\"}]},\"n\":-1.5e3,\"t\":true,\"z\":null}").unwrap();
    let path = vec![
        PathStep::Key("a".to_string()),
        PathStep::Key("b".to_string()),
        PathStep::Index(1),
        PathStep::Key("c".to_string()),
    ];
    assert!(matches!(doc.get_path(&path), Some(Document::Text(t)) if t == "x"));
    assert!(doc.get_path(&vec![PathStep::Key("a".to_string()), PathStep::Index(0)]).is_none());
    assert!(doc.get_path(&vec![PathStep::Key("missing".to_string())]).is_none());
    assert!(matches!(doc.get("z"), Some(Document::Null)));
    assert!(matches!(doc.get("t"), Some(Document::Bool(true))));
    assert!(matches!(doc.get("n"), Some(Document::Number(n)) if n == "-1500.0"));
    let patched = doc.copy().set_path(&path, Document::Number("7".to_string())).unwrap();
    assert_eq!(
        compact(&render_document(&patched)),
        "{\"a\":{\"b\":[10,{\"c\":7}]},\"n\":-1500.0,\"t\":true,\"z\":null}"
    );
    let bad = vec![PathStep::Key("a".to_string()), PathStep::Key("nope".to_string())];
    assert!(doc.copy().set_path(&bad, Document::Null).is_none());
    assert!(matches!(doc.copy().set_path(&Vec::new(), Document::Bool(false)), Some(Document::Bool(false))));
    assert!(parse_document("{").is_none());
    assert!(parse_document("").is_none());
}
