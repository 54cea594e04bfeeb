//! The run of the end-to-end tests: what the runner needs before it
//! starts, and what is shown of its logs.

use vstd::prelude::*;
use crate::text::{
    append_chars, contains, contains_sub, from_chars, lines, lines_of, replace_all, replaced,
    string_views, to_chars, views,
};

verus! {

/// The plugins of the test runner that are missing, given what the runner
/// says of its version, in lowercase.
pub open spec fn missing_plugins_model(version_output: Seq<char>) -> Seq<Seq<char>> {
    let go: Seq<Seq<char>> = if contains_sub(version_output, "go"@) {
        seq![]
    } else {
        seq!["go"@]
    };
    let xml: Seq<Seq<char>> = if contains_sub(version_output, "xml-report"@) {
        seq![]
    } else {
        seq!["xml-report"@]
    };
    go + xml
}

/// The plugins of the test runner that are missing.
pub fn missing_plugins(version_output: &str) -> (r: Vec<String>)
    ensures
        string_views(r@) == missing_plugins_model(version_output@),
{
    let out = to_chars(version_output);
    let mut missing: Vec<String> = Vec::new();
    assert(string_views(missing@) =~= Seq::<Seq<char>>::empty());
    if !contains(&out, &to_chars("go")) {
        missing.push("go".to_owned());
        assert(string_views(missing@) =~= seq!["go"@]);
    }
    if !contains(&out, &to_chars("xml-report")) {
        let ghost before = string_views(missing@);
        missing.push("xml-report".to_owned());
        assert(string_views(missing@) =~= before + seq!["xml-report"@]);
    }
    missing
}

/// The setting that gives the runner an hour to connect.
pub open spec fn timeout_setting() -> Seq<char> {
    "runner_connection_timeout = 3600000"@
}

/// What to write to the runner's properties, given what they hold where
/// they exist: the setting alone where there are none; nothing where they
/// hold the setting already; else the properties with every mention of the
/// timeout commented out and the setting behind them.
pub open spec fn properties_model(content: Option<Seq<char>>) -> Option<Seq<char>> {
    match content {
        None => Some(timeout_setting() + "\n"@),
        Some(c) => if contains_sub(c, timeout_setting()) {
            None
        } else {
            Some(
                replaced(c, "runner_connection_timeout"@, "# runner_connection_timeout"@) + "\n"@
                    + timeout_setting() + "\n"@,
            )
        },
    }
}

/// What to write to the runner's properties so that it has an hour to
/// connect.
pub fn gauge_properties(content: Option<&str>) -> (r: Option<String>)
    ensures
        crate::text::opt_text(r) == properties_model(
            match content {
                Some(c) => Some(c@),
                None => None,
            },
        ),
{
    match content {
        None => Some(crate::text::concat2("runner_connection_timeout = 3600000", "\n")),
        Some(c) => {
            let chars = to_chars(c);
            if contains(&chars, &to_chars("runner_connection_timeout = 3600000")) {
                None
            } else {
                let mut out = replace_all(
                    &chars,
                    &to_chars("runner_connection_timeout"),
                    &to_chars("# runner_connection_timeout"),
                );
                append_chars(&mut out, &to_chars("\n"));
                append_chars(&mut out, &to_chars("runner_connection_timeout = 3600000"));
                append_chars(&mut out, &to_chars("\n"));
                Some(from_chars(&out))
            }
        },
    }
}

/// The last `n` of the lines `all`, or all of them where there are fewer.
pub open spec fn last_lines(all: Seq<Seq<char>>, n: nat) -> Seq<Seq<char>> {
    if all.len() <= n {
        all
    } else {
        all.skip(all.len() - n)
    }
}

/// The last `n` lines of a log.
pub fn tail_lines(content: &str, n: usize) -> (r: Vec<String>)
    ensures
        string_views(r@) == last_lines(lines_of(content@), n as nat),
{
    let all = lines(&to_chars(content));
    let from: usize = if all.len() <= n {
        0
    } else {
        all.len() - n
    };
    let mut out: Vec<String> = Vec::new();
    let mut i: usize = from;
    while i < all.len()
        invariant
            from <= i <= all.len(),
            out.len() == i - from,
            forall|j: int| 0 <= j < i - from ==> (#[trigger] out@[j])@ == all@[from + j]@,
        decreases all.len() - i,
    {
        out.push(from_chars(&all[i]));
        i = i + 1;
    }
    assert(string_views(out@) =~= views(all@).skip(from as int));
    assert(views(all@).skip(0) =~= views(all@));
    out
}

} // verus!
