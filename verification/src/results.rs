//! Test results: why a test failed, as far as its error message tells.

use vstd::prelude::*;
use crate::text::{
    contains, contains_sub, from_chars, join, joined, last_piece, lines, lines_of, lowercase,
    opt_text, rfind_piece_start, seq_view, starts_with, string_views, sub_vec, to_chars,
    to_lowercase, trim, trim_end_matches, trimmed, views, without_suffixes, ends_with,
};

verus! {

/// The kinds of causes that a test failure is put down to.
#[derive(Debug, Clone, Copy, PartialEq, Eq, Hash, Structural)]
pub enum FailureCategory {
    /// An optional component is not installed.
    MissingComponent,
    /// What an upgrade test needs beforehand is not there.
    UpgradePrereq,
    /// None of the other causes: the change under test.
    UpstreamRegression,
    /// The platform or the operating system.
    PlatformIssue,
    /// Configuration or a secret is missing.
    ConfigGap,
}

impl FailureCategory {
    /// The name of the category.
    pub fn name(&self) -> (r: String)
        ensures
            r@ == match self {
                FailureCategory::MissingComponent => "MissingComponent"@,
                FailureCategory::UpgradePrereq => "UpgradePrereq"@,
                FailureCategory::UpstreamRegression => "UpstreamRegression"@,
                FailureCategory::PlatformIssue => "PlatformIssue"@,
                FailureCategory::ConfigGap => "ConfigGap"@,
            },
    {
        match self {
            FailureCategory::MissingComponent => "MissingComponent".to_owned(),
            FailureCategory::UpgradePrereq => "UpgradePrereq".to_owned(),
            FailureCategory::UpstreamRegression => "UpstreamRegression".to_owned(),
            FailureCategory::PlatformIssue => "PlatformIssue".to_owned(),
            FailureCategory::ConfigGap => "ConfigGap".to_owned(),
        }
    }
}

/// The failed tests of one category.
#[derive(Debug, Clone)]
pub struct CategoryGroup {
    pub category: FailureCategory,
    pub count: usize,
    pub tests: Vec<String>,
}

/// Whether a message in lowercase speaks of an optional component.
pub open spec fn names_missing_component(lower: Seq<char>) -> bool {
    ||| contains_sub(lower, "chains"@)
    ||| contains_sub(lower, "chain"@)
    ||| contains_sub(lower, "knative"@)
    ||| contains_sub(lower, "kn-apply"@)
    ||| contains_sub(lower, "serverless"@)
    ||| contains_sub(lower, "manualapprovalgate"@)
    ||| contains_sub(lower, "manual-approval"@)
    ||| contains_sub(lower, "approval-gate"@)
    ||| contains_sub(lower, "approvaltask"@)
}

/// The category of a message in lowercase: the first, in this order, whose
/// words the message holds: a missing component, an upgrade's
/// prerequisite, the platform, a gap in the configuration; else a
/// regression.
pub open spec fn category_model(lower: Seq<char>) -> FailureCategory {
    if names_missing_component(lower) {
        FailureCategory::MissingComponent
    } else if contains_sub(lower, "upgrade"@) && (contains_sub(lower, "namespace"@)
        || contains_sub(lower, "setup"@) || contains_sub(lower, "prerequisite"@)) {
        FailureCategory::UpgradePrereq
    } else if contains_sub(lower, "uid_map"@) || (contains_sub(lower, "buildah"@) && contains_sub(
        lower,
        "namespace"@,
    )) {
        FailureCategory::PlatformIssue
    } else if contains_sub(lower, "secret"@) && (contains_sub(lower, "missing"@) || contains_sub(
        lower,
        "not found"@,
    )) {
        FailureCategory::ConfigGap
    } else if contains_sub(lower, "auth"@) && (contains_sub(lower, "secret"@) || contains_sub(
        lower,
        "credential"@,
    )) {
        FailureCategory::ConfigGap
    } else {
        FailureCategory::UpstreamRegression
    }
}

/// Whether `text` holds `word`.
fn holds(text: &Vec<char>, word: &str) -> (r: bool)
    ensures
        r == contains_sub(text@, word@),
{
    contains(text, &to_chars(word))
}

/// Puts a failure down to a category by the words of its error message,
/// given in lowercase.
pub fn categorize_lowered(lower: &str) -> (r: FailureCategory)
    ensures
        r == category_model(lower@),
{
    let t = to_chars(lower);
    if holds(&t, "chains") || holds(&t, "chain") || holds(&t, "knative") || holds(&t, "kn-apply")
        || holds(&t, "serverless") || holds(&t, "manualapprovalgate") || holds(
        &t,
        "manual-approval",
    ) || holds(&t, "approval-gate") || holds(&t, "approvaltask") {
        return FailureCategory::MissingComponent;
    }
    if holds(&t, "upgrade") && (holds(&t, "namespace") || holds(&t, "setup") || holds(
        &t,
        "prerequisite",
    )) {
        return FailureCategory::UpgradePrereq;
    }
    if holds(&t, "uid_map") || (holds(&t, "buildah") && holds(&t, "namespace")) {
        return FailureCategory::PlatformIssue;
    }
    if holds(&t, "secret") && (holds(&t, "missing") || holds(&t, "not found")) {
        return FailureCategory::ConfigGap;
    }
    if holds(&t, "auth") && (holds(&t, "secret") || holds(&t, "credential")) {
        return FailureCategory::ConfigGap;
    }
    FailureCategory::UpstreamRegression
}

/// Puts a failure down to a category by the words of its error message, in
/// whatever case they are written.
pub fn categorize_failure(error_message: &str) -> (r: FailureCategory)
    ensures
        r == category_model(lowercase(error_message@)),
{
    let lower = to_lowercase(error_message);
    categorize_lowered(lower.as_str())
}

/// The result of one test: the spec and the scenario it belongs to, whether
/// it passed, and the error where it did not.
#[derive(Debug, Clone)]
pub struct TestCase {
    pub spec: String,
    pub scenario: String,
    pub passed: bool,
    pub error_message: Option<String>,
}

/// What a `TestCase` holds, as plain sequences.
pub struct TestCaseView {
    pub spec: Seq<char>,
    pub scenario: Seq<char>,
    pub passed: bool,
    pub error_message: Option<Seq<char>>,
}

impl View for TestCase {
    type V = TestCaseView;

    open spec fn view(&self) -> TestCaseView {
        TestCaseView {
            spec: self.spec@,
            scenario: self.scenario@,
            passed: self.passed,
            error_message: opt_text(self.error_message),
        }
    }
}

/// Where the reading of a test runner's log stands: the tests read so far,
/// the spec and the scenario under way, whether a step of the scenario
/// failed, the lines of its error, whether an error is being read, and the
/// durations that summary lines named.
#[derive(Debug, Clone)]
pub struct GaugeParser {
    pub tests: Vec<TestCase>,
    pub spec: String,
    pub scenario: String,
    pub failed: bool,
    pub errors: Vec<String>,
    pub in_error: bool,
    pub durations: Vec<String>,
}

/// What a `GaugeParser` holds, as plain sequences.
pub struct GaugeView {
    pub tests: Seq<TestCaseView>,
    pub spec: Seq<char>,
    pub scenario: Seq<char>,
    pub failed: bool,
    pub errors: Seq<Seq<char>>,
    pub in_error: bool,
    pub durations: Seq<Seq<char>>,
}

impl View for GaugeParser {
    type V = GaugeView;

    open spec fn view(&self) -> GaugeView {
        GaugeView {
            tests: seq_view(self.tests@),
            spec: self.spec@,
            scenario: self.scenario@,
            failed: self.failed,
            errors: string_views(self.errors@),
            in_error: self.in_error,
            durations: string_views(self.durations@),
        }
    }
}

/// The state before the first line.
pub open spec fn gauge_start() -> GaugeView {
    GaugeView {
        tests: seq![],
        spec: seq![],
        scenario: seq![],
        failed: false,
        errors: seq![],
        in_error: false,
        durations: seq![],
    }
}

/// The error of the scenario under way: its error lines, or a plain
/// notice where it failed without any; none where it did not fail.
pub open spec fn scenario_error(s: GaugeView) -> Option<Seq<char>> {
    if s.failed && s.errors.len() > 0 {
        Some(joined(s.errors, "\n"@))
    } else if s.failed {
        Some("Test failed"@)
    } else {
        None
    }
}

/// The tests read so far, with the scenario under way among them where
/// there is one.
pub open spec fn flushed(s: GaugeView) -> Seq<TestCaseView> {
    if s.scenario.len() == 0 {
        s.tests
    } else {
        s.tests.push(
            TestCaseView {
                spec: s.spec,
                scenario: s.scenario,
                passed: !s.failed,
                error_message: scenario_error(s),
            },
        )
    }
}

/// What stands in `t` behind its first `n` characters, trimmed.
pub open spec fn rest_of(t: Seq<char>, n: int) -> Seq<char> {
    trimmed(t.skip(n))
}

/// Whether a line names the duration of the whole run.
pub open spec fn is_duration_line(t: Seq<char>) -> bool {
    ("FAIL\t"@.is_prefix_of(t) || "ok\t"@.is_prefix_of(t)) && "s"@.is_suffix_of(t)
}

/// The state after one more line, free of colour codes: a heading begins a
/// spec or a scenario and closes the scenario before it; a failed step
/// marks the scenario; an error message opens the error's text, which runs
/// to a blank line, a stack trace or the failed step; a summary line names
/// a duration.
pub open spec fn gauge_step(s: GaugeView, line: Seq<char>) -> GaugeView {
    let t = trimmed(line);
    if "# "@.is_prefix_of(t) {
        if s.scenario.len() > 0 {
            GaugeView {
                tests: flushed(s),
                spec: rest_of(t, 2),
                scenario: seq![],
                failed: false,
                errors: seq![],
                in_error: false,
                durations: s.durations,
            }
        } else {
            GaugeView { spec: rest_of(t, 2), ..s }
        }
    } else if "## "@.is_prefix_of(t) {
        GaugeView {
            tests: flushed(s),
            spec: s.spec,
            scenario: rest_of(t, 3),
            failed: false,
            errors: seq![],
            in_error: false,
            durations: s.durations,
        }
    } else if contains_sub(t, "...[FAIL]"@) {
        GaugeView { failed: true, ..s }
    } else if "Error Message:"@.is_prefix_of(t) {
        if rest_of(t, 14).len() > 0 {
            GaugeView { in_error: true, errors: s.errors.push(rest_of(t, 14)), ..s }
        } else {
            GaugeView { in_error: true, ..s }
        }
    } else if s.in_error {
        if t.len() == 0 || "Stacktrace:"@.is_prefix_of(t) || "Failed Step:"@.is_prefix_of(t) {
            GaugeView { in_error: false, ..s }
        } else {
            GaugeView { errors: s.errors.push(t), ..s }
        }
    } else if is_duration_line(t) {
        GaugeView {
            durations: s.durations.push(without_suffixes(last_piece(t, '\t'), "s"@)),
            ..s
        }
    } else {
        s
    }
}

/// The state after the lines `all`, in order.
pub open spec fn gauge_after(all: Seq<Seq<char>>) -> GaugeView
    decreases all.len(),
{
    if all.len() == 0 {
        gauge_start()
    } else {
        gauge_step(gauge_after(all.drop_last()), all.last())
    }
}

/// Whether `t` begins with `p`.
fn begins(t: &Vec<char>, p: &str) -> (r: bool)
    ensures
        r == p@.is_prefix_of(t@),
{
    starts_with(t, &to_chars(p))
}

/// What stands in `t` behind its first `n` characters, trimmed.
fn rest_behind(t: &Vec<char>, n: usize) -> (r: String)
    requires
        n <= t.len(),
    ensures
        r@ == rest_of(t@, n as int),
{
    from_chars(&trim(&sub_vec(t, n, t.len())))
}

impl GaugeParser {
    /// The parser before the first line.
    pub fn new() -> (r: GaugeParser)
        ensures
            r@ == gauge_start(),
    {
        let r = GaugeParser {
            tests: Vec::new(),
            spec: String::new(),
            scenario: String::new(),
            failed: false,
            errors: Vec::new(),
            in_error: false,
            durations: Vec::new(),
        };
        assert(r@.tests =~= Seq::<TestCaseView>::empty());
        assert(r@.errors =~= Seq::<Seq<char>>::empty());
        assert(r@.durations =~= Seq::<Seq<char>>::empty());
        r
    }

    /// Closes the scenario under way, where there is one: it joins the
    /// tests read so far.
    fn flush(&mut self)
        ensures
            seq_view(final(self).tests@) == flushed(old(self)@),
            final(self).spec == old(self).spec,
            final(self).scenario == old(self).scenario,
            final(self).failed == old(self).failed,
            final(self).errors == old(self).errors,
            final(self).in_error == old(self).in_error,
            final(self).durations == old(self).durations,
    {
        if self.scenario.as_str().unicode_len() > 0 {
            let error_message = if self.failed && self.errors.len() > 0 {
                Some(join(&self.errors, "\n"))
            } else if self.failed {
                Some("Test failed".to_owned())
            } else {
                None
            };
            let ghost before = seq_view(self.tests@);
            let case = TestCase {
                spec: self.spec.clone(),
                scenario: self.scenario.clone(),
                passed: !self.failed,
                error_message,
            };
            self.tests.push(case);
            assert(seq_view(self.tests@) =~= before.push(case@));
        }
    }

    /// Takes in one more line, free of colour codes.
    pub fn feed(&mut self, line: &str)
        ensures
            final(self)@ == gauge_step(old(self)@, line@),
    {
        let t = trim(&to_chars(line));
        proof {
            reveal_strlit("# ");
            reveal_strlit("## ");
            reveal_strlit("Error Message:");
        }
        if begins(&t, "# ") {
            if self.scenario.as_str().unicode_len() > 0 {
                self.flush();
                self.scenario = String::new();
                self.failed = false;
                self.errors = Vec::new();
                self.in_error = false;
                assert(string_views(self.errors@) =~= Seq::<Seq<char>>::empty());
            }
            self.spec = rest_behind(&t, 2);
        } else if begins(&t, "## ") {
            self.flush();
            self.scenario = rest_behind(&t, 3);
            self.failed = false;
            self.errors = Vec::new();
            self.in_error = false;
            assert(string_views(self.errors@) =~= Seq::<Seq<char>>::empty());
        } else if contains(&t, &to_chars("...[FAIL]")) {
            self.failed = true;
        } else if begins(&t, "Error Message:") {
            self.in_error = true;
            let msg = rest_behind(&t, 14);
            if msg.as_str().unicode_len() > 0 {
                let ghost before = string_views(self.errors@);
                self.errors.push(msg);
                assert(string_views(self.errors@) =~= before.push(msg@));
            }
        } else if self.in_error {
            if t.len() == 0 || begins(&t, "Stacktrace:") || begins(&t, "Failed Step:") {
                self.in_error = false;
            } else {
                let ghost before = string_views(self.errors@);
                let kept = from_chars(&t);
                self.errors.push(kept);
                assert(string_views(self.errors@) =~= before.push(kept@));
            }
        } else if (begins(&t, "FAIL\t") || begins(&t, "ok\t")) && ends_with(&t, &to_chars("s")) {
            let at = rfind_piece_start(&t, '\t');
            let piece = sub_vec(&t, at, t.len());
            let number = from_chars(&trim_end_matches(&piece, &to_chars("s")));
            let ghost before = string_views(self.durations@);
            self.durations.push(number);
            assert(string_views(self.durations@) =~= before.push(number@));
        }
    }

    /// Ends the reading: the tests read, the last scenario among them.
    pub fn finish(self) -> (r: GaugeReport)
        ensures
            seq_view(r.tests@) == flushed(self@),
            string_views(r.durations@) == self@.durations,
            r.passed == count_passed(flushed(self@), true),
            r.failed == count_passed(flushed(self@), false),
            r.passed + r.failed == r.tests.len(),
    {
        let mut done = self;
        done.flush();
        let (passed, failed) = tally(&done.tests);
        GaugeReport { tests: done.tests, passed, failed, durations: done.durations }
    }
}

/// What a test runner's log holds: the tests, how many passed and how many
/// failed, and the durations that summary lines named, the last one last.
#[derive(Debug, Clone)]
pub struct GaugeReport {
    pub tests: Vec<TestCase>,
    pub passed: usize,
    pub failed: usize,
    pub durations: Vec<String>,
}

/// How many of `tests` passed, or did not.
pub open spec fn count_passed(tests: Seq<TestCaseView>, passed: bool) -> nat
    decreases tests.len(),
{
    if tests.len() == 0 {
        0
    } else {
        count_passed(tests.drop_last(), passed) + if tests.last().passed == passed {
            1nat
        } else {
            0nat
        }
    }
}

/// How many of `tests` passed, and how many failed.
pub fn tally(tests: &Vec<TestCase>) -> (r: (usize, usize))
    ensures
        r.0 == count_passed(seq_view(tests@), true),
        r.1 == count_passed(seq_view(tests@), false),
        r.0 + r.1 == tests.len(),
{
    let ghost all = seq_view(tests@);
    let mut passed: usize = 0;
    let mut failed: usize = 0;
    let mut i: usize = 0;
    assert(all.take(0) == Seq::<TestCaseView>::empty());
    while i < tests.len()
        invariant
            i <= tests.len(),
            all == seq_view(tests@),
            passed == count_passed(all.take(i as int), true),
            failed == count_passed(all.take(i as int), false),
            passed + failed == i,
        decreases tests.len() - i,
    {
        proof {
            assert(all.take(i + 1).drop_last() == all.take(i as int));
            assert(all.take(i + 1).last() == tests@[i as int]@);
        }
        if tests[i].passed {
            passed = passed + 1;
        } else {
            failed = failed + 1;
        }
        i = i + 1;
    }
    assert(all.take(tests.len() as int) == all);
    (passed, failed)
}

/// What `regex::Regex::replace_all` makes of a text under a pattern and a
/// replacement; nothing where `regex::Regex::new` does not take the
/// pattern.
pub uninterp spec fn regex_replaced(
    pattern: Seq<char>,
    text: Seq<char>,
    replacement: Seq<char>,
) -> Option<Seq<char>>;

/// `regex::Regex::new`, then `Regex::replace_all`: the text with every
/// match of the pattern replaced, or nothing where the pattern does not
/// compile.
#[verifier::external_body]
fn regex_replace_all(pattern: &str, text: &str, replacement: &str) -> (r: Option<String>)
    ensures
        opt_text(r) == regex_replaced(pattern@, text@, replacement@),
{
    regex::Regex::new(pattern).ok().map(|re| re.replace_all(text, replacement).into_owned())
}

/// The pattern of a colour code.
pub open spec fn ansi_pattern() -> Seq<char> {
    r"\x1b\[[0-9;]*m"@
}

/// A line without its colour codes.
pub open spec fn stripped(line: Seq<char>) -> Seq<char> {
    match regex_replaced(ansi_pattern(), line, Seq::<char>::empty()) {
        Some(t) => t,
        None => line,
    }
}

/// Takes the colour codes out of a line.
pub fn strip_ansi(text: &str) -> (r: String)
    ensures
        r@ == stripped(text@),
{
    proof {
        reveal_strlit("");
    }
    assert(""@ =~= Seq::<char>::empty());
    match regex_replace_all(r"\x1b\[[0-9;]*m", text, "") {
        Some(t) => t,
        None => text.to_owned(),
    }
}

/// The lines `all`, each without its colour codes.
pub open spec fn stripped_lines(all: Seq<Seq<char>>) -> Seq<Seq<char>> {
    Seq::new(all.len(), |i: int| stripped(all[i]))
}

/// Reads the log of a test runner: which scenarios of which specs ran,
/// which of them failed and with what error, and what the run took.
pub fn parse_gauge_stdout(content: &str) -> (r: GaugeReport)
    ensures
        seq_view(r.tests@) == flushed(gauge_after(stripped_lines(lines_of(content@)))),
        string_views(r.durations@) == gauge_after(stripped_lines(lines_of(content@))).durations,
        r.passed == count_passed(seq_view(r.tests@), true),
        r.failed == count_passed(seq_view(r.tests@), false),
        r.passed + r.failed == r.tests.len(),
{
    let all = lines(&to_chars(content));
    let ghost clean = stripped_lines(views(all@));
    let mut parser = GaugeParser::new();
    let mut i: usize = 0;
    assert(clean.take(0) == Seq::<Seq<char>>::empty());
    while i < all.len()
        invariant
            i <= all.len(),
            clean == stripped_lines(views(all@)),
            parser@ == gauge_after(clean.take(i as int)),
        decreases all.len() - i,
    {
        let raw = from_chars(&all[i]);
        let line = strip_ansi(raw.as_str());
        proof {
            assert(clean.take(i + 1).drop_last() == clean.take(i as int));
            assert(clean.take(i + 1).last() == stripped(views(all@)[i as int]));
        }
        parser.feed(line.as_str());
        i = i + 1;
    }
    assert(clean.take(all.len() as int) == clean);
    parser.finish()
}

/// The category at position `i` of the fixed order of the categories.
pub open spec fn category_at(i: int) -> FailureCategory {
    if i == 0 {
        FailureCategory::MissingComponent
    } else if i == 1 {
        FailureCategory::UpgradePrereq
    } else if i == 2 {
        FailureCategory::UpstreamRegression
    } else if i == 3 {
        FailureCategory::PlatformIssue
    } else {
        FailureCategory::ConfigGap
    }
}

/// The category at position `i` of the fixed order of the categories.
fn category_of_index(i: usize) -> (r: FailureCategory)
    requires
        i < 5,
    ensures
        r == category_at(i as int),
{
    if i == 0 {
        FailureCategory::MissingComponent
    } else if i == 1 {
        FailureCategory::UpgradePrereq
    } else if i == 2 {
        FailureCategory::UpstreamRegression
    } else if i == 3 {
        FailureCategory::PlatformIssue
    } else {
        FailureCategory::ConfigGap
    }
}

/// The category of a failed test: that of its error message; a regression
/// where it has none.
pub open spec fn test_category(t: TestCaseView) -> FailureCategory {
    match t.error_message {
        Some(msg) => category_model(lowercase(msg)),
        None => FailureCategory::UpstreamRegression,
    }
}

/// The name under which a test is listed.
pub open spec fn test_name(t: TestCaseView) -> Seq<char> {
    t.spec + "::"@ + t.scenario
}

/// The failed tests among `tests` that fall into `category`, by name, in
/// order.
pub open spec fn bucket(tests: Seq<TestCaseView>, category: FailureCategory) -> Seq<Seq<char>>
    decreases tests.len(),
{
    if tests.len() == 0 {
        seq![]
    } else {
        let rest = bucket(tests.drop_last(), category);
        let t = tests.last();
        if !t.passed && test_category(t) == category {
            rest.push(test_name(t))
        } else {
            rest
        }
    }
}

/// The failed tests among `tests` that fall into `category`.
pub fn bucket_of(tests: &Vec<TestCase>, category: FailureCategory) -> (r: Vec<String>)
    ensures
        string_views(r@) == bucket(seq_view(tests@), category),
{
    let ghost all = seq_view(tests@);
    let mut out: Vec<String> = Vec::new();
    let mut i: usize = 0;
    assert(all.take(0) == Seq::<TestCaseView>::empty());
    assert(string_views(out@) =~= Seq::<Seq<char>>::empty());
    while i < tests.len()
        invariant
            i <= tests.len(),
            all == seq_view(tests@),
            string_views(out@) == bucket(all.take(i as int), category),
        decreases tests.len() - i,
    {
        let t = &tests[i];
        proof {
            assert(all.take(i + 1).drop_last() == all.take(i as int));
            assert(all.take(i + 1).last() == t@);
        }
        if !t.passed {
            let found = match &t.error_message {
                Some(msg) => categorize_failure(msg.as_str()),
                None => FailureCategory::UpstreamRegression,
            };
            if found == category {
                let ghost before = string_views(out@);
                let name = crate::text::concat3(t.spec.as_str(), "::", t.scenario.as_str());
                out.push(name);
                assert(string_views(out@) =~= before.push(name@));
            }
        }
        i = i + 1;
    }
    assert(all.take(tests.len() as int) == all);
    out
}

/// Whether `g` is the group of its category among `tests`, and not empty.
pub open spec fn is_group_of(g: CategoryGroup, tests: Seq<TestCaseView>) -> bool {
    &&& g.count == g.tests.len()
    &&& g.count > 0
    &&& string_views(g.tests@) == bucket(tests, g.category)
}

/// The position of a category in the fixed order of the categories.
pub open spec fn category_index(category: FailureCategory) -> int {
    match category {
        FailureCategory::MissingComponent => 0,
        FailureCategory::UpgradePrereq => 1,
        FailureCategory::UpstreamRegression => 2,
        FailureCategory::PlatformIssue => 3,
        FailureCategory::ConfigGap => 4,
    }
}

/// Whether one of `gs` is the group of `category`.
pub open spec fn has_group(gs: Seq<CategoryGroup>, category: FailureCategory) -> bool {
    exists|k: int| 0 <= k < gs.len() && (#[trigger] gs[k]).category == category
}

/// Whether `gs` are the groups of the first `c` categories among `tests`:
/// one group for each of those categories that has a failed test, and no
/// other, the larger ones first.
pub open spec fn groups_of(gs: Seq<CategoryGroup>, tests: Seq<TestCaseView>, c: int) -> bool {
    &&& forall|k: int|
        0 <= k < gs.len() ==> is_group_of(#[trigger] gs[k], tests) && category_index(
            gs[k].category,
        ) < c
    &&& forall|i: int, j: int|
        #![trigger gs[i], gs[j]]
        0 <= i < j < gs.len() ==> gs[i].category != gs[j].category && gs[i].count
            >= gs[j].count
    &&& forall|category: FailureCategory|
        category_index(category) < c && (#[trigger] bucket(tests, category)).len() > 0
            ==> has_group(gs, category)
}

/// A category without a failed test adds no group.
pub proof fn lemma_no_group(gs: Seq<CategoryGroup>, tests: Seq<TestCaseView>, c: int)
    requires
        groups_of(gs, tests, c),
        0 <= c,
        bucket(tests, category_at(c)).len() == 0,
    ensures
        groups_of(gs, tests, c + 1),
{
    assert forall|category: FailureCategory|
        category_index(category) < c + 1 && (#[trigger] bucket(tests, category)).len()
            > 0 implies has_group(gs, category) by {
        if category_index(category) == c {
            assert(category == category_at(c));
        }
    }
}

/// The group of the next category, put in behind the groups that are at
/// least as large, keeps the groups in order.
pub proof fn lemma_insert_group(
    gs: Seq<CategoryGroup>,
    tests: Seq<TestCaseView>,
    c: int,
    at: int,
    g: CategoryGroup,
)
    requires
        groups_of(gs, tests, c),
        0 <= c < 5,
        0 <= at <= gs.len(),
        is_group_of(g, tests),
        g.category == category_at(c),
        forall|k: int| 0 <= k < at ==> (#[trigger] gs[k]).count >= g.count,
        at < gs.len() ==> gs[at].count < g.count,
    ensures
        groups_of(gs.insert(at, g), tests, c + 1),
{
    let out = gs.insert(at, g);
    gs.insert_ensures(at, g);
    assert(category_index(g.category) == c);
    assert forall|k: int| 0 <= k < out.len() implies #[trigger] out[k] == if k < at {
        gs[k]
    } else if k == at {
        g
    } else {
        gs[k - 1]
    } by {}
    assert forall|k: int| 0 <= k < out.len() implies is_group_of(#[trigger] out[k], tests)
        && category_index(out[k].category) < c + 1 by {
        if k < at {
            assert(is_group_of(gs[k], tests));
        } else if k > at {
            assert(is_group_of(gs[k - 1], tests));
        }
    }
    assert forall|i: int, j: int|
        #![trigger out[i], out[j]]
        0 <= i < j < out.len() implies out[i].category != out[j].category && out[i].count
        >= out[j].count by {
        let oi = if i < at {
            i
        } else {
            i - 1
        };
        let oj = if j < at {
            j
        } else {
            j - 1
        };
        if i != at && j != at {
            assert(gs[oi].category != gs[oj].category && gs[oi].count >= gs[oj].count);
        } else if i == at {
            assert(category_index(gs[oj].category) < c);
            assert(gs[at].count < g.count);
            if oj > at {
                assert(gs[at].count >= gs[oj].count);
            }
        } else {
            assert(category_index(gs[oi].category) < c);
            assert(gs[oi].count >= g.count);
        }
    }
    assert forall|category: FailureCategory|
        category_index(category) < c + 1 && (#[trigger] bucket(tests, category)).len()
            > 0 implies has_group(out, category) by {
        if category_index(category) < c {
            assert(has_group(gs, category));
            let k = choose|k: int| 0 <= k < gs.len() && gs[k].category == category;
            if k < at {
                assert(out[k].category == category);
            } else {
                assert(out[k + 1].category == category);
            }
        } else {
            assert(category == category_at(c));
            assert(out[at].category == category);
        }
    }
}

/// Groups the failed tests by the category of their failure. Each category
/// with a failed test has one group, which lists its tests in order; the
/// groups come with the larger ones first.
pub fn categorize_results(tests: &Vec<TestCase>) -> (r: Vec<CategoryGroup>)
    ensures
        groups_of(r@, seq_view(tests@), 5),
{
    let ghost all = seq_view(tests@);
    let mut out: Vec<CategoryGroup> = Vec::new();
    let mut c: usize = 0;
    while c < 5
        invariant
            c <= 5,
            all == seq_view(tests@),
            groups_of(out@, all, c as int),
        decreases 5 - c,
    {
        let category = category_of_index(c);
        let names = bucket_of(tests, category);
        if names.len() > 0 {
            let count = names.len();
            let mut at: usize = 0;
            while at < out.len() && out[at].count >= count
                invariant
                    at <= out.len(),
                    forall|k: int| 0 <= k < at ==> (#[trigger] out@[k]).count >= count,
                decreases out.len() - at,
            {
                at = at + 1;
            }
            let group = CategoryGroup { category, count, tests: names };
            proof {
                lemma_insert_group(out@, all, c as int, at as int, group);
            }
            out.insert(at, group);
        } else {
            proof {
                lemma_no_group(out@, all, c as int);
            }
        }
        c = c + 1;
    }
    out
}

} // verus!
