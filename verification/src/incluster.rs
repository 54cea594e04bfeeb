//! Runs inside the cluster: the image of the tool itself, and the job that
//! runs it.

use vstd::prelude::*;
use crate::component::{ComponentSpec, ComponentSpecView};
use crate::exec::ExecResult;
use crate::numeral::{push_signed_decimal, signed_decimal, push_decimal, decimal_digits};
use crate::text::{
    append_chars, concat3, from_chars, join, joined, pairs_view, seq_view, str_eq,
    string_views, to_chars,
};

verus! {

/// The version of the tool, which tags its image.
pub open spec fn cli_version() -> Seq<char> {
    "0.1.0"@
}

/// The tag of the tool's image: the tool's version.
pub fn cli_image_tag() -> (r: String)
    ensures
        r@ == cli_version(),
{
    "0.1.0".to_owned()
}

/// The reference of the tool's image in `registry`.
pub fn cli_image_ref(registry: &str) -> (r: String)
    ensures
        r@ == registry@ + "/openshift-pipelines/streamstress-cli:"@ + cli_version(),
{
    let tag = cli_image_tag();
    concat3(registry, "/openshift-pipelines/streamstress-cli:", tag.as_str())
}

/// Whether the query for the tool's image shows that the registry has it:
/// the query ran and ended with code zero.
pub fn image_exists(query: &Result<ExecResult, String>) -> (r: bool)
    ensures
        r == match *query {
            Ok(out) => out.exit_code == 0,
            Err(_) => false,
        },
{
    match query {
        Ok(out) => out.exit_code == 0,
        Err(_) => false,
    }
}

/// What is passed on to the job so that it can publish its results.
#[derive(Debug, Clone)]
pub struct PublishEnv {
    pub github_token: Option<String>,
    pub github_repository: Option<String>,
    pub label: Option<String>,
    pub output_dir: Option<String>,
}

impl PublishEnv {
    /// Whether publishing is configured: a token and a repository are there.
    pub fn is_configured(&self) -> (r: bool)
        ensures
            r == (self.github_token is Some && self.github_repository is Some),
    {
        self.github_token.is_some() && self.github_repository.is_some()
    }
}

/// The name of the job that starts at `timestamp`, in seconds since the
/// epoch.
pub fn job_name(timestamp: u64) -> (r: String)
    ensures
        r@ == "streamstress-"@ + decimal_digits(timestamp as nat),
{
    let mut out = to_chars("streamstress-");
    push_decimal(&mut out, timestamp);
    from_chars(&out)
}

/// The arguments of the tool when it runs in the job: those given, and
/// `--skip-build` where they do not hold it already.
pub open spec fn job_args_model(args: Seq<Seq<char>>) -> Seq<Seq<char>> {
    if args.contains("--skip-build"@) {
        args
    } else {
        args.push("--skip-build"@)
    }
}

/// The arguments of the tool when it runs in the job.
pub fn job_args(cli_args: &Vec<String>) -> (r: Vec<String>)
    ensures
        string_views(r@) == job_args_model(string_views(cli_args@)),
{
    let ghost all = string_views(cli_args@);
    let mut out: Vec<String> = Vec::new();
    let mut found = false;
    let mut i: usize = 0;
    while i < cli_args.len()
        invariant
            i <= cli_args.len(),
            all == string_views(cli_args@),
            out.len() == i,
            forall|j: int| 0 <= j < i ==> (#[trigger] out@[j])@ == cli_args@[j]@,
            found == exists|j: int| 0 <= j < i && all[j] == "--skip-build"@,
        decreases cli_args.len() - i,
    {
        assert(all[i as int] == cli_args@[i as int]@);
        if str_eq(cli_args[i].as_str(), "--skip-build") {
            found = true;
        }
        out.push(cli_args[i].clone());
        i = i + 1;
    }
    assert(string_views(out@) =~= all);
    if !found {
        out.push("--skip-build".to_owned());
        assert(string_views(out@) =~= all.push("--skip-build"@));
    }
    out
}

/// The environment of the job: its own name, and what publishing needs as
/// far as it is configured.
pub open spec fn job_env_model(
    job_name: Seq<char>,
    token: Option<Seq<char>>,
    repository: Option<Seq<char>>,
    label: Option<Seq<char>>,
    output_dir: Option<Seq<char>>,
) -> Seq<(Seq<char>, Seq<char>)> {
    seq![("JOB_NAME"@, job_name)] + optional_entry("GITHUB_TOKEN"@, token) + optional_entry(
        "GITHUB_REPOSITORY"@,
        repository,
    ) + optional_entry("RUN_LABEL"@, label) + optional_entry("OUTPUT_DIR"@, output_dir)
}

/// One entry where there is a value, none where there is not.
pub open spec fn optional_entry(name: Seq<char>, value: Option<Seq<char>>) -> Seq<
    (Seq<char>, Seq<char>),
> {
    match value {
        Some(v) => seq![(name, v)],
        None => seq![],
    }
}

/// Appends one entry to `env` where there is a value.
fn push_optional(env: &mut Vec<(String, String)>, name: &str, value: &Option<String>)
    ensures
        pairs_view(final(env)@) == pairs_view(old(env)@) + optional_entry(
            name@,
            crate::text::opt_text(*value),
        ),
{
    let ghost before = pairs_view(env@);
    match value {
        Some(v) => {
            env.push((name.to_owned(), v.clone()));
            assert(pairs_view(env@) =~= before + seq![(name@, v@)]);
        },
        None => {
            assert(pairs_view(env@) =~= before + Seq::<(Seq<char>, Seq<char>)>::empty());
        },
    }
}

/// The environment of the job named `job_name`.
pub fn job_env(job_name: &str, publish_env: &PublishEnv) -> (r: Vec<(String, String)>)
    ensures
        pairs_view(r@) == job_env_model(
            job_name@,
            crate::text::opt_text(publish_env.github_token),
            crate::text::opt_text(publish_env.github_repository),
            crate::text::opt_text(publish_env.label),
            crate::text::opt_text(publish_env.output_dir),
        ),
{
    let mut env: Vec<(String, String)> = Vec::new();
    env.push(("JOB_NAME".to_owned(), job_name.to_owned()));
    assert(pairs_view(env@) =~= seq![("JOB_NAME"@, job_name@)]);
    push_optional(&mut env, "GITHUB_TOKEN", &publish_env.github_token);
    push_optional(&mut env, "GITHUB_REPOSITORY", &publish_env.github_repository);
    push_optional(&mut env, "RUN_LABEL", &publish_env.label);
    push_optional(&mut env, "OUTPUT_DIR", &publish_env.output_dir);
    env
}

/// How a job stands, from the counts of its pods that succeeded, failed and
/// are active; a count that is missing counts as zero.
pub fn job_status(succeeded: Option<i32>, failed: Option<i32>, active: Option<i32>) -> (r:
    &'static str)
    ensures
        r@ == if succeeded is Some && succeeded->Some_0 > 0 {
            "Succeeded"@
        } else if failed is Some && failed->Some_0 > 0 {
            "Failed"@
        } else if active is Some && active->Some_0 > 0 {
            "Active"@
        } else {
            "Pending"@
        },
{
    let s = match succeeded {
        Some(n) => n,
        None => 0,
    };
    let f = match failed {
        Some(n) => n,
        None => 0,
    };
    let a = match active {
        Some(n) => n,
        None => 0,
    };
    if s > 0 {
        "Succeeded"
    } else if f > 0 {
        "Failed"
    } else if a > 0 {
        "Active"
    } else {
        "Pending"
    }
}

/// An age in its largest unit: seconds below a minute, minutes below an
/// hour, hours below a day, else days.
pub open spec fn age_model(seconds: int) -> Seq<char> {
    if seconds < 60 {
        signed_decimal(seconds) + "s"@
    } else if seconds < 3600 {
        signed_decimal(seconds / 60) + "m"@
    } else if seconds < 86400 {
        signed_decimal(seconds / 3600) + "h"@
    } else {
        signed_decimal(seconds / 86400) + "d"@
    }
}

/// Writes an age, given in seconds, for a reader.
pub fn format_age(seconds: i64) -> (r: String)
    ensures
        r@ == age_model(seconds as int),
{
    let mut out: Vec<char> = Vec::new();
    if seconds < 60 {
        push_signed_decimal(&mut out, seconds);
        append_chars(&mut out, &to_chars("s"));
    } else if seconds < 3600 {
        push_signed_decimal(&mut out, seconds / 60);
        append_chars(&mut out, &to_chars("m"));
    } else if seconds < 86400 {
        push_signed_decimal(&mut out, seconds / 3600);
        append_chars(&mut out, &to_chars("h"));
    } else {
        push_signed_decimal(&mut out, seconds / 86400);
        append_chars(&mut out, &to_chars("d"));
    }
    from_chars(&out)
}

/// Whether the logs of a pod in the phase `phase` are followed as they
/// grow: those of a pod that runs or is yet to run are.
pub fn follows_logs(phase: &str) -> (r: bool)
    ensures
        r == (phase@ == "Running"@ || phase@ == "Pending"@),
{
    str_eq(phase, "Running") || str_eq(phase, "Pending")
}

/// How a list of specs is written as one argument: each spec by its name,
/// with a colon and its ref where it has one, and commas between them.
pub open spec fn specs_argument_model(specs: Seq<ComponentSpecView>) -> Seq<char> {
    joined(Seq::new(specs.len(), |i: int| spec_entry(specs[i])), ","@)
}

/// How one spec is written in an argument.
pub open spec fn spec_entry(spec: ComponentSpecView) -> Seq<char> {
    match spec.git_ref {
        Some(r) => spec.name + ":"@ + r,
        None => spec.name,
    }
}

/// Writes a list of specs as one argument.
pub fn specs_argument(specs: &Vec<ComponentSpec>) -> (r: String)
    ensures
        r@ == specs_argument_model(seq_view(specs@)),
{
    let mut entries: Vec<String> = Vec::new();
    let mut i: usize = 0;
    while i < specs.len()
        invariant
            i <= specs.len(),
            entries.len() == i,
            forall|j: int| 0 <= j < i ==> (#[trigger] entries@[j])@ == spec_entry(specs@[j]@),
        decreases specs.len() - i,
    {
        let entry = match &specs[i].git_ref {
            Some(r) => concat3(specs[i].name.as_str(), ":", r.as_str()),
            None => specs[i].name.clone(),
        };
        entries.push(entry);
        i = i + 1;
    }
    assert(string_views(entries@) =~= Seq::new(
        specs.len() as nat,
        |i: int| spec_entry(seq_view(specs@)[i]),
    ));
    join(&entries, ",")
}

/// A flag with its value where there is a value, nothing where there is
/// none.
pub open spec fn optional_flag(flag: Seq<char>, value: Option<Seq<char>>) -> Seq<Seq<char>> {
    match value {
        Some(v) => seq![flag, v],
        None => seq![],
    }
}

/// The arguments with which the tool runs a whole workflow for `specs`.
pub open spec fn run_args_model(
    specs: Seq<ComponentSpecView>,
    tags: Seq<char>,
    release_tests_ref: Seq<char>,
    output_dir: Seq<char>,
    registry: Option<Seq<char>>,
    as_of: Option<Seq<char>>,
) -> Seq<Seq<char>> {
    seq![
        "run"@,
        "--components"@,
        specs_argument_model(specs),
        "--tags"@,
        tags,
        "--release-tests-ref"@,
        release_tests_ref,
        "--output-dir"@,
        output_dir,
    ] + optional_flag("--registry"@, registry) + optional_flag("--as-of"@, as_of)
}

/// Appends a flag and its value to `args` where there is a value.
fn push_flag(args: &mut Vec<String>, flag: &str, value: Option<&str>)
    ensures
        string_views(final(args)@) == string_views(old(args)@) + optional_flag(
            flag@,
            match value {
                Some(v) => Some(v@),
                None => None,
            },
        ),
{
    let ghost before = string_views(args@);
    match value {
        Some(v) => {
            args.push(flag.to_owned());
            args.push(v.to_owned());
            assert(string_views(args@) =~= before + seq![flag@, v@]);
        },
        None => {
            assert(string_views(args@) =~= before + Seq::<Seq<char>>::empty());
        },
    }
}

/// The arguments with which the tool, in the job, runs the workflow for
/// `specs`.
pub fn run_args(
    specs: &Vec<ComponentSpec>,
    tags: &str,
    release_tests_ref: &str,
    output_dir: &str,
    registry: Option<&str>,
    as_of: Option<&str>,
) -> (r: Vec<String>)
    ensures
        string_views(r@) == run_args_model(
            seq_view(specs@),
            tags@,
            release_tests_ref@,
            output_dir@,
            match registry {
                Some(v) => Some(v@),
                None => None,
            },
            match as_of {
                Some(v) => Some(v@),
                None => None,
            },
        ),
{
    let mut args: Vec<String> = Vec::new();
    args.push("run".to_owned());
    args.push("--components".to_owned());
    args.push(specs_argument(specs));
    args.push("--tags".to_owned());
    args.push(tags.to_owned());
    args.push("--release-tests-ref".to_owned());
    args.push(release_tests_ref.to_owned());
    args.push("--output-dir".to_owned());
    args.push(output_dir.to_owned());
    assert(string_views(args@) =~= seq![
        "run"@,
        "--components"@,
        specs_argument_model(seq_view(specs@)),
        "--tags"@,
        tags@,
        "--release-tests-ref"@,
        release_tests_ref@,
        "--output-dir"@,
        output_dir@,
    ]);
    push_flag(&mut args, "--registry", registry);
    push_flag(&mut args, "--as-of", as_of);
    args
}

} // verus!
