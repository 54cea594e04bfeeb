//! Component specs: which components to build, and from which source ref.

use vstd::prelude::*;
use crate::exec::{Invocation, InvocationView};
use crate::text::{
    concat3, from_chars, join, joined, opt_text, seq_view, split_char, split_on, first_index,
    find_char, sub_vec, to_chars, trim, trimmed, views, starts_with, str_eq, string_views,
};

verus! {

/// A component to build, deploy and test, with an optional source ref or
/// as-of date.
#[derive(Debug, Clone)]
pub struct ComponentSpec {
    pub name: String,
    pub git_ref: Option<String>,
    /// A date, year-month-day, for a historical build.
    pub as_of_date: Option<String>,
}

/// What a `ComponentSpec` holds, as plain sequences.
pub struct ComponentSpecView {
    pub name: Seq<char>,
    pub git_ref: Option<Seq<char>>,
    pub as_of_date: Option<Seq<char>>,
}

impl View for ComponentSpec {
    type V = ComponentSpecView;

    open spec fn view(&self) -> ComponentSpecView {
        ComponentSpecView {
            name: self.name@,
            git_ref: opt_text(self.git_ref),
            as_of_date: opt_text(self.as_of_date),
        }
    }
}

/// The names of the components that can be selected, in their fixed order.
pub open spec fn known_names() -> Seq<Seq<char>> {
    seq![
        "pipeline"@,
        "triggers"@,
        "chains"@,
        "results"@,
        "manual-approval-gate"@,
        "console-plugin"@,
    ]
}

/// Whether `name` is one of the known components.
pub open spec fn is_known(name: Seq<char>) -> bool {
    known_names().contains(name)
}

/// The names of the components that can be selected.
pub fn known_components() -> (r: Vec<String>)
    ensures
        string_views(r@) == known_names(),
{
    let mut r: Vec<String> = Vec::new();
    r.push("pipeline".to_owned());
    r.push("triggers".to_owned());
    r.push("chains".to_owned());
    r.push("results".to_owned());
    r.push("manual-approval-gate".to_owned());
    r.push("console-plugin".to_owned());
    assert(string_views(r@) == known_names());
    r
}

/// Whether `name` is one of the known components.
pub fn is_known_component(name: &str) -> (r: bool)
    ensures
        r == is_known(name@),
{
    let known = known_components();
    let mut i: usize = 0;
    while i < known.len()
        invariant
            i <= known.len(),
            string_views(known@) == known_names(),
            forall|j: int| 0 <= j < i ==> known_names()[j] != name@,
        decreases known.len() - i,
    {
        assert(string_views(known@)[i as int] == known@[i as int]@);
        if str_eq(known[i].as_str(), name) {
            return true;
        }
        i = i + 1;
    }
    false
}

/// The name and the ref that one trimmed, non-empty entry of a spec list
/// gives: it is cut at its first colon, and both sides are trimmed.
pub open spec fn entry_parts(part: Seq<char>) -> (Seq<char>, Option<Seq<char>>) {
    let i = first_index(part, ':');
    if i < part.len() {
        (trimmed(part.take(i)), Some(trimmed(part.skip(i + 1))))
    } else {
        (part, None)
    }
}

/// The message for a name that is not a known component.
pub open spec fn unknown_component_message(name: Seq<char>) -> Seq<char> {
    "Unknown component '"@ + name + "'. Known: "@ + joined(known_names(), ", "@)
}

/// What a list of entries reads as: the entries in order, blank ones passed
/// over; the first entry with an unknown name fails the whole list.
pub open spec fn parsed_entries(parts: Seq<Seq<char>>) -> Result<Seq<ComponentSpecView>, Seq<char>>
    decreases parts.len(),
{
    if parts.len() == 0 {
        Ok(seq![])
    } else {
        match parsed_entries(parts.drop_last()) {
            Err(e) => Err(e),
            Ok(acc) => {
                let part = trimmed(parts.last());
                if part.len() == 0 {
                    Ok(acc)
                } else {
                    let (name, git_ref) = entry_parts(part);
                    if is_known(name) {
                        Ok(acc.push(ComponentSpecView { name, git_ref, as_of_date: None }))
                    } else {
                        Err(unknown_component_message(name))
                    }
                }
            },
        }
    }
}

/// A failure among the first entries is the failure of the whole list.
pub proof fn lemma_parsed_entries_error(parts: Seq<Seq<char>>, k: int)
    requires
        0 <= k <= parts.len(),
        parsed_entries(parts.take(k)) is Err,
    ensures
        parsed_entries(parts) == parsed_entries(parts.take(k)),
    decreases parts.len() - k,
{
    if k == parts.len() {
        assert(parts.take(k) == parts);
    } else {
        assert(parts.take(k + 1).drop_last() == parts.take(k));
        lemma_parsed_entries_error(parts, k + 1);
    }
}

/// What a comma-separated spec string reads as; a list without entries fails.
pub open spec fn parsed_specs(input: Seq<char>) -> Result<Seq<ComponentSpecView>, Seq<char>> {
    match parsed_entries(split_on(input, ',')) {
        Err(e) => Err(e),
        Ok(specs) => if specs.len() == 0 {
            Err("No components specified"@)
        } else {
            Ok(specs)
        },
    }
}

/// Reads a comma-separated list of `name` or `name:ref` entries.
pub fn parse_component_specs(input: &str) -> (r: Result<Vec<ComponentSpec>, String>)
    ensures
        match (r, parsed_specs(input@)) {
            (Ok(v), Ok(m)) => seq_view(v@) == m,
            (Err(e), Err(m)) => e@ == m,
            _ => false,
        },
{
    let chars = to_chars(input);
    let parts = split_char(&chars, ',');
    let mut specs: Vec<ComponentSpec> = Vec::new();
    let mut i: usize = 0;
    assert(views(parts@).take(0) == Seq::<Seq<char>>::empty());
    assert(seq_view(specs@) == Seq::<ComponentSpecView>::empty());
    while i < parts.len()
        invariant
            i <= parts.len(),
            views(parts@) == split_on(input@, ','),
            parsed_entries(views(parts@).take(i as int)) == Ok::<
                Seq<ComponentSpecView>,
                Seq<char>,
            >(seq_view(specs@)),
        decreases parts.len() - i,
    {
        let part = trim(&parts[i]);
        proof {
            let all = views(parts@);
            assert(all.take(i + 1).drop_last() == all.take(i as int));
            assert(all.take(i + 1).last() == parts@[i as int]@);
        }
        if part.len() > 0 {
            let colon = find_char(&part, ':');
            let (name, git_ref): (String, Option<String>) = if colon < part.len() {
                let n = trim(&sub_vec(&part, 0, colon));
                let r = trim(&sub_vec(&part, colon + 1, part.len()));
                (from_chars(&n), Some(from_chars(&r)))
            } else {
                (from_chars(&part), None)
            };
            assert((name@, opt_text(git_ref)) == entry_parts(part@));
            if !is_known_component(name.as_str()) {
                let known = known_components();
                let listed = join(&known, ", ");
                let head = concat3("Unknown component '", name.as_str(), "'. Known: ");
                let msg = crate::text::concat2(head.as_str(), listed.as_str());
                proof {
                    lemma_parsed_entries_error(views(parts@), i + 1);
                }
                return Err(msg);
            }
            let ghost before = seq_view(specs@);
            let spec = ComponentSpec { name, git_ref, as_of_date: None };
            specs.push(spec);
            assert(seq_view(specs@) == before.push(spec@));
        }
        i = i + 1;
    }
    assert(views(parts@).take(parts.len() as int) == views(parts@));
    if specs.len() == 0 {
        return Err("No components specified".to_owned());
    }
    Ok(specs)
}

/// The specs of all known components, none with a ref or a date.
pub open spec fn default_spec_views() -> Seq<ComponentSpecView> {
    Seq::new(
        known_names().len(),
        |i: int| ComponentSpecView { name: known_names()[i], git_ref: None, as_of_date: None },
    )
}

/// Specs for all known components with their default refs.
pub fn default_specs() -> (r: Vec<ComponentSpec>)
    ensures
        seq_view(r@) == default_spec_views(),
{
    let known = known_components();
    let mut r: Vec<ComponentSpec> = Vec::new();
    let mut i: usize = 0;
    while i < known.len()
        invariant
            i <= known.len(),
            string_views(known@) == known_names(),
            r.len() == i,
            forall|j: int| 0 <= j < i ==> (#[trigger] r@[j])@ == default_spec_views()[j],
        decreases known.len() - i,
    {
        assert(string_views(known@)[i as int] == known@[i as int]@);
        r.push(ComponentSpec { name: known[i].clone(), git_ref: None, as_of_date: None });
        i = i + 1;
    }
    assert(seq_view(r@) == default_spec_views());
    r
}

/// `spec` with the as-of date set, where it names no ref of its own.
pub open spec fn dated(spec: ComponentSpecView, as_of: Seq<char>) -> ComponentSpecView {
    if spec.git_ref is None {
        ComponentSpecView { as_of_date: Some(as_of), ..spec }
    } else {
        spec
    }
}

/// Sets the as-of date on every spec that names no ref of its own; a spec
/// with an explicit ref is left as it is.
pub fn apply_as_of_date(specs: &mut Vec<ComponentSpec>, as_of: &str)
    ensures
        final(specs).len() == old(specs).len(),
        forall|i: int|
            0 <= i < old(specs).len() ==> (#[trigger] final(specs)@[i])@ == dated(
                old(specs)@[i]@,
                as_of@,
            ),
{
    let mut out: Vec<ComponentSpec> = Vec::new();
    let mut i: usize = 0;
    while i < specs.len()
        invariant
            i <= specs.len(),
            specs@ == old(specs)@,
            out.len() == i,
            forall|j: int| 0 <= j < i ==> (#[trigger] out@[j])@ == dated(specs@[j]@, as_of@),
        decreases specs.len() - i,
    {
        let cur = &specs[i];
        let as_of_date = if cur.git_ref.is_none() {
            Some(as_of.to_owned())
        } else {
            cur.as_of_date.clone()
        };
        out.push(
            ComponentSpec { name: cur.name.clone(), git_ref: cur.git_ref.clone(), as_of_date },
        );
        i = i + 1;
    }
    *specs = out;
}

/// The refspec that a user's ref stands for: `pr/N` is the head of pull
/// request N, anything else is taken as it is.
pub open spec fn resolved_ref(user_ref: Seq<char>) -> Seq<char> {
    if "pr/"@.is_prefix_of(user_ref) {
        "refs/pull/"@ + user_ref.skip(3) + "/head"@
    } else {
        user_ref
    }
}

/// Resolves a user-provided ref to a refspec that can be fetched.
pub fn resolve_git_ref(user_ref: &str) -> (r: String)
    ensures
        r@ == resolved_ref(user_ref@),
{
    let chars = to_chars(user_ref);
    let prefix = to_chars("pr/");
    proof {
        reveal_strlit("pr/");
    }
    if starts_with(&chars, &prefix) {
        let number = from_chars(&sub_vec(&chars, 3, chars.len()));
        concat3("refs/pull/", number.as_str(), "/head")
    } else {
        user_ref.to_owned()
    }
}

/// The commands that bring the source of a repository into `dest`: with a
/// ref, an empty workspace is set up, exactly the ref's refspec is fetched
/// shallowly, and what was fetched is checked out; without one, the default
/// branch is cloned shallowly.
pub open spec fn clone_commands(repo_url: Seq<char>, dest: Seq<char>, git_ref: Option<Seq<char>>) -> Seq<
    InvocationView,
> {
    match git_ref {
        Some(r) => seq![
            InvocationView { program: "git"@, args: seq!["init"@, dest], dir: None },
            InvocationView {
                program: "git"@,
                args: seq!["fetch"@, "--depth"@, "1"@, repo_url, resolved_ref(r)],
                dir: Some(dest),
            },
            InvocationView {
                program: "git"@,
                args: seq!["checkout"@, "FETCH_HEAD"@],
                dir: Some(dest),
            },
        ],
        None => seq![
            InvocationView {
                program: "git"@,
                args: seq!["clone"@, "--depth"@, "1"@, repo_url, dest],
                dir: None,
            },
        ],
    }
}

/// Plans the clone of a repository into `dest`, at `git_ref` where one is
/// given.
pub fn clone_with_ref(repo_url: &str, dest: &str, git_ref: Option<&str>) -> (r: Vec<Invocation>)
    ensures
        seq_view(r@) == clone_commands(
            repo_url@,
            dest@,
            match git_ref {
                Some(g) => Some(g@),
                None => None,
            },
        ),
{
    let mut plan: Vec<Invocation> = Vec::new();
    match git_ref {
        Some(g) => {
            let mut init: Vec<String> = Vec::new();
            init.push("init".to_owned());
            init.push(dest.to_owned());
            assert(string_views(init@) =~= seq!["init"@, dest@]);
            plan.push(Invocation { program: "git".to_owned(), args: init, dir: None });
            let mut fetch: Vec<String> = Vec::new();
            fetch.push("fetch".to_owned());
            fetch.push("--depth".to_owned());
            fetch.push("1".to_owned());
            fetch.push(repo_url.to_owned());
            fetch.push(resolve_git_ref(g));
            assert(string_views(fetch@) =~= seq![
                "fetch"@,
                "--depth"@,
                "1"@,
                repo_url@,
                resolved_ref(g@),
            ]);
            plan.push(
                Invocation { program: "git".to_owned(), args: fetch, dir: Some(dest.to_owned()) },
            );
            let mut checkout: Vec<String> = Vec::new();
            checkout.push("checkout".to_owned());
            checkout.push("FETCH_HEAD".to_owned());
            assert(string_views(checkout@) =~= seq!["checkout"@, "FETCH_HEAD"@]);
            plan.push(
                Invocation {
                    program: "git".to_owned(),
                    args: checkout,
                    dir: Some(dest.to_owned()),
                },
            );
            assert(seq_view(plan@) =~= clone_commands(repo_url@, dest@, Some(g@)));
        },
        None => {
            let mut clone: Vec<String> = Vec::new();
            clone.push("clone".to_owned());
            clone.push("--depth".to_owned());
            clone.push("1".to_owned());
            clone.push(repo_url.to_owned());
            clone.push(dest.to_owned());
            assert(string_views(clone@) =~= seq!["clone"@, "--depth"@, "1"@, repo_url@, dest@]);
            plan.push(Invocation { program: "git".to_owned(), args: clone, dir: None });
            assert(seq_view(plan@) =~= clone_commands(repo_url@, dest@, None));
        },
    }
    plan
}

/// The message for a fetch that failed.
pub fn fetch_failure(git_ref: &str) -> (r: String)
    ensures
        r@ == "git fetch failed for ref '"@ + git_ref@ + "' (resolved: '"@ + resolved_ref(
            git_ref@,
        ) + "')"@,
{
    let resolved = resolve_git_ref(git_ref);
    let head = concat3("git fetch failed for ref '", git_ref, "' (resolved: '");
    concat3(head.as_str(), resolved.as_str(), "')")
}

/// Whether `regex::Regex::is_match` finds a match of a pattern in a text;
/// nothing where `regex::Regex::new` does not take the pattern.
pub uninterp spec fn regex_matches(pattern: Seq<char>, text: Seq<char>) -> Option<bool>;

/// `regex::Regex::new`, then `Regex::is_match`: whether the pattern
/// matches somewhere in the text, or nothing where the pattern does not
/// compile.
#[verifier::external_body]
fn regex_is_match(pattern: &str, text: &str) -> (r: Option<bool>)
    ensures
        r == regex_matches(pattern@, text@),
{
    regex::Regex::new(pattern).ok().map(|re| re.is_match(text))
}

/// The pattern of a date in the form year-month-day.
pub open spec fn date_pattern() -> Seq<char> {
    r"^\d{4}-(0[1-9]|1[0-2])-(0[1-9]|[12]\d|3[01])$"@
}

/// The message for a text that is no date in the form year-month-day.
pub open spec fn date_format_message() -> Seq<char> {
    "Date must be in YYYY-MM-DD format (e.g., 2024-01-15)"@
}

/// Accepts a date, given whether the date pattern matched it.
pub fn accept_date(s: &str, matched: Option<bool>) -> (r: Result<String, String>)
    ensures
        matched == Some(true) ==> r is Ok && r->Ok_0@ == s@,
        matched != Some(true) ==> r is Err && r->Err_0@ == date_format_message(),
{
    match matched {
        Some(true) => Ok(s.to_owned()),
        _ => Err("Date must be in YYYY-MM-DD format (e.g., 2024-01-15)".to_owned()),
    }
}

/// Accepts a date in the form year-month-day, and nothing else.
pub fn validate_date_format(s: &str) -> (r: Result<String, String>)
    ensures
        regex_matches(date_pattern(), s@) == Some(true) ==> r is Ok && r->Ok_0@ == s@,
        regex_matches(date_pattern(), s@) != Some(true) ==> r is Err && r->Err_0@
            == date_format_message(),
{
    let matched = regex_is_match(r"^\d{4}-(0[1-9]|1[0-2])-(0[1-9]|[12]\d|3[01])$", s);
    accept_date(s, matched)
}

} // verus!
