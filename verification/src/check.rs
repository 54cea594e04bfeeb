//! The checks of the tool's prerequisites: what each finding means.

use vstd::prelude::*;
use crate::exec::ExecResult;
use crate::text::{from_chars, lines, lines_of, str_eq, string_views, to_chars, trim, trimmed, views};
use crate::types::CheckResult;

verus! {

/// A tool that has to be at hand: its name, how to ask for its version, and
/// what to do where it is missing.
#[derive(Debug, Clone)]
pub struct ToolSpec {
    pub name: String,
    pub version_args: Vec<String>,
    pub fix_hint: String,
}

/// One tool of the list.
fn tool(name: &str, first: &str, second: Option<&str>, fix_hint: &str) -> (r: ToolSpec)
    ensures
        r.name@ == name@,
        r.fix_hint@ == fix_hint@,
        string_views(r.version_args@) == match second {
            Some(s) => seq![first@, s@],
            None => seq![first@],
        },
{
    let mut version_args: Vec<String> = Vec::new();
    version_args.push(first.to_owned());
    match second {
        Some(s) => {
            version_args.push(s.to_owned());
            assert(string_views(version_args@) =~= seq![first@, s@]);
        },
        None => {
            assert(string_views(version_args@) =~= seq![first@]);
        },
    }
    ToolSpec { name: name.to_owned(), version_args, fix_hint: fix_hint.to_owned() }
}

/// The tools that have to be at hand, in the order in which they are
/// checked.
pub fn tools() -> (r: Vec<ToolSpec>)
    ensures
        r.len() == 5,
        r@[0].name@ == "oc"@,
        r@[1].name@ == "ko"@,
        r@[2].name@ == "git"@,
        r@[3].name@ == "go"@,
        r@[4].name@ == "gh"@,
        string_views(r@[0].version_args@) == seq!["version"@, "--client"@],
        forall|i: int| 1 <= i < 5 ==> string_views(#[trigger] r@[i].version_args@) == seq!["version"@],
        r@[0].fix_hint@
            == "Install the OpenShift CLI: https://docs.openshift.com/container-platform/latest/cli_reference/openshift_cli/getting-started-cli.html"@,
        r@[1].fix_hint@ == "Install ko: go install github.com/google/ko@latest"@,
        r@[2].fix_hint@ == "Install git from https://git-scm.com"@,
        r@[3].fix_hint@ == "Install Go from https://go.dev/dl/"@,
        r@[4].fix_hint@ == "Install GitHub CLI: brew install gh && gh auth login"@,
{
    let mut r: Vec<ToolSpec> = Vec::new();
    r.push(
        tool(
            "oc",
            "version",
            Some("--client"),
            "Install the OpenShift CLI: https://docs.openshift.com/container-platform/latest/cli_reference/openshift_cli/getting-started-cli.html",
        ),
    );
    r.push(tool("ko", "version", None, "Install ko: go install github.com/google/ko@latest"));
    r.push(tool("git", "version", None, "Install git from https://git-scm.com"));
    r.push(tool("go", "version", None, "Install Go from https://go.dev/dl/"));
    r.push(tool("gh", "version", None, "Install GitHub CLI: brew install gh && gh auth login"));
    r
}

/// The first line of `s`, trimmed; empty where `s` has no line.
pub open spec fn first_line(s: Seq<char>) -> Seq<char> {
    if lines_of(s).len() == 0 {
        Seq::<char>::empty()
    } else {
        trimmed(lines_of(s)[0])
    }
}

/// The first line of `s`, trimmed.
pub fn first_line_of(s: &str) -> (r: String)
    ensures
        r@ == first_line(s@),
{
    let all = lines(&to_chars(s));
    if all.len() == 0 {
        String::new()
    } else {
        assert(views(all@)[0] == all@[0]@);
        from_chars(&trim(&all[0]))
    }
}

/// The result of the check of one tool: it passes where the tool is on the
/// path and answers when asked for its version, and then shows the first
/// line of the answer.
pub fn tool_check(spec: &ToolSpec, on_path: bool, version: &Result<ExecResult, String>) -> (r:
    CheckResult)
    ensures
        r.name@ == spec.name@,
        r.passed == (on_path && version is Ok),
        r.passed ==> r.fix_hint is None && r.detail@ == first_line(version->Ok_0.stdout@),
        !r.passed ==> r.fix_hint is Some && r.fix_hint->Some_0@ == spec.fix_hint@ && r.detail@ == (
        if on_path {
            "Found on PATH but failed to get version"@
        } else {
            "Not found on PATH"@
        }),
{
    if !on_path {
        return CheckResult {
            name: spec.name.clone(),
            passed: false,
            detail: "Not found on PATH".to_owned(),
            fix_hint: Some(spec.fix_hint.clone()),
        };
    }
    match version {
        Ok(out) => CheckResult {
            name: spec.name.clone(),
            passed: true,
            detail: first_line_of(out.stdout.as_str()),
            fix_hint: None,
        },
        Err(_) => CheckResult {
            name: spec.name.clone(),
            passed: false,
            detail: "Found on PATH but failed to get version".to_owned(),
            fix_hint: Some(spec.fix_hint.clone()),
        },
    }
}

/// Whether a query ran and ended with code zero.
pub open spec fn succeeded(query: Result<ExecResult, String>) -> bool {
    query is Ok && query->Ok_0.exit_code == 0
}

/// The result of the check of the session at the cluster: it passes where
/// the query for the user ended well, and then shows the user.
pub fn auth_check(whoami: &Result<ExecResult, String>) -> (r: CheckResult)
    ensures
        r.name@ == "cluster auth"@,
        r.passed == succeeded(*whoami),
        r.passed ==> r.fix_hint is None && r.detail@ == trimmed(whoami->Ok_0.stdout@),
        !r.passed ==> r.detail@ == "Not logged in to any cluster"@ && r.fix_hint is Some
            && r.fix_hint->Some_0@ == "Log in to your OpenShift cluster: oc login <cluster-url>"@,
{
    match whoami {
        Ok(out) => {
            if out.exit_code == 0 {
                return CheckResult {
                    name: "cluster auth".to_owned(),
                    passed: true,
                    detail: from_chars(&trim(&to_chars(out.stdout.as_str()))),
                    fix_hint: None,
                };
            }
        },
        Err(_) => {},
    }
    CheckResult {
        name: "cluster auth".to_owned(),
        passed: false,
        detail: "Not logged in to any cluster".to_owned(),
        fix_hint: Some("Log in to your OpenShift cluster: oc login <cluster-url>".to_owned()),
    }
}

/// The result of the check of the operator: it passes where the query for
/// its configuration resource ended well.
pub fn operator_check(query: &Result<ExecResult, String>) -> (r: CheckResult)
    ensures
        r.name@ == "pipelines operator"@,
        r.passed == succeeded(*query),
        r.passed ==> r.fix_hint is None && r.detail@ == "TektonConfig CR found"@,
        !r.passed ==> r.detail@ == "OpenShift Pipelines operator not installed"@ && r.fix_hint
            is Some && r.fix_hint->Some_0@
            == "Will be auto-installed by build/deploy/run commands"@,
{
    let passed = match query {
        Ok(out) => out.exit_code == 0,
        Err(_) => false,
    };
    if passed {
        CheckResult {
            name: "pipelines operator".to_owned(),
            passed: true,
            detail: "TektonConfig CR found".to_owned(),
            fix_hint: None,
        }
    } else {
        CheckResult {
            name: "pipelines operator".to_owned(),
            passed: false,
            detail: "OpenShift Pipelines operator not installed".to_owned(),
            fix_hint: Some("Will be auto-installed by build/deploy/run commands".to_owned()),
        }
    }
}

/// The hint for a registry without its default route.
pub open spec fn route_fix_hint() -> Seq<char> {
    "Enable the default registry route:\n  oc patch configs.imageregistry.operator.openshift.io/cluster --patch '{\"spec\":{\"defaultRoute\":true}}' --type=merge"@
}

/// The result of the check of the registry's route: without a session at
/// the cluster it is passed over; else it passes where the query for the
/// route ended well and printed a host, and then shows the host.
pub fn route_check(connected: bool, query: &Result<ExecResult, String>) -> (r: CheckResult)
    ensures
        r.name@ == "registry route"@,
        r.passed == (connected && succeeded(*query) && trimmed(query->Ok_0.stdout@).len() > 0),
        r.passed ==> r.fix_hint is None && r.detail@ == trimmed(query->Ok_0.stdout@),
        !r.passed && !connected ==> r.fix_hint is None && r.detail@
            == "SKIP - not connected to cluster"@,
        !r.passed && connected ==> r.detail@ == "Default registry route not found"@ && r.fix_hint
            is Some && r.fix_hint->Some_0@ == route_fix_hint(),
{
    if !connected {
        return CheckResult {
            name: "registry route".to_owned(),
            passed: false,
            detail: "SKIP - not connected to cluster".to_owned(),
            fix_hint: None,
        };
    }
    match query {
        Ok(out) => {
            if out.exit_code == 0 {
                let host = trim(&to_chars(out.stdout.as_str()));
                if host.len() > 0 {
                    return CheckResult {
                        name: "registry route".to_owned(),
                        passed: true,
                        detail: from_chars(&host),
                        fix_hint: None,
                    };
                }
            }
        },
        Err(_) => {},
    }
    CheckResult {
        name: "registry route".to_owned(),
        passed: false,
        detail: "Default registry route not found".to_owned(),
        fix_hint: Some(
            "Enable the default registry route:\n  oc patch configs.imageregistry.operator.openshift.io/cluster --patch '{\"spec\":{\"defaultRoute\":true}}' --type=merge".to_owned(),
        ),
    }
}

/// Whether the bootstrap can mend a check that failed: it can expose the
/// registry and install the operator.
pub fn is_auto_fixable(name: &str) -> (r: bool)
    ensures
        r == (name@ == "registry route"@ || name@ == "pipelines operator"@),
{
    str_eq(name, "registry route") || str_eq(name, "pipelines operator")
}

} // verus!
