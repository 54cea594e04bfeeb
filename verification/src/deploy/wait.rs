//! Waiting for the cluster to converge: what one poll shows, and the
//! exponential backoff between polls.

use vstd::prelude::*;
use crate::document::{lemma_list_view, Document, DocumentView};
use crate::text::{
    contains, contains_sub, first_index, lemma_first_index, pairs_view, seq_view, str_eq,
    string_views, to_chars,
};

verus! {

/// A retry policy: how often to try, and how long to pause between tries.
#[derive(Debug, Clone, Copy, PartialEq, Eq, Structural)]
pub struct BackoffPolicy {
    /// The pause after the first unsuccessful attempt, in seconds.
    pub initial_secs: u64,
    /// The longest pause, in seconds.
    pub cap_secs: u64,
    /// The number of attempts after which to give up.
    pub max_attempts: u32,
    /// The time, in seconds since the wait began, after which to give up
    /// whatever the number of attempts; none where the wait has no such
    /// ceiling.
    pub ceiling_secs: Option<u64>,
}

/// Whether a wait that began `elapsed_secs` ago is over its ceiling.
pub open spec fn over_ceiling(policy: BackoffPolicy, elapsed_secs: u64) -> bool {
    policy.ceiling_secs is Some && elapsed_secs > policy.ceiling_secs->Some_0
}

/// The smaller of two numbers.
pub open spec fn min_int(a: int, b: int) -> int {
    if a <= b {
        a
    } else {
        b
    }
}

/// The pause after the unsuccessful attempt number `n + 1`, in seconds: the
/// initial pause, doubled `n` times, and never more than the cap.
pub open spec fn delay_model(initial: int, cap: int, n: nat) -> int
    decreases n,
{
    if n == 0 {
        min_int(initial, cap)
    } else {
        min_int(2 * delay_model(initial, cap, (n - 1) as nat), cap)
    }
}

/// The pauses of a backoff never shrink and never exceed the cap.
pub proof fn lemma_backoff_monotone(initial: int, cap: int, n: nat)
    requires
        0 <= initial,
        0 <= cap,
    ensures
        0 <= delay_model(initial, cap, n) <= cap,
        delay_model(initial, cap, n) <= delay_model(initial, cap, n + 1),
    decreases n,
{
    if n > 0 {
        lemma_backoff_monotone(initial, cap, (n - 1) as nat);
    }
}

/// Of two pauses of a backoff, the later one is at least as long.
pub proof fn lemma_backoff_non_decreasing(initial: int, cap: int, m: nat, n: nat)
    requires
        0 <= initial,
        0 <= cap,
        m <= n,
    ensures
        delay_model(initial, cap, m) <= delay_model(initial, cap, n),
    decreases n - m,
{
    if m < n {
        lemma_backoff_monotone(initial, cap, m);
        lemma_backoff_non_decreasing(initial, cap, m + 1, n);
    }
}

/// Twice `delay`, and never more than `cap`.
pub fn doubled(delay: u64, cap: u64) -> (r: u64)
    ensures
        r == min_int(2 * delay, cap as int),
{
    if delay > cap / 2 {
        cap
    } else {
        delay * 2
    }
}

/// The policy of the wait for reconciliation.
pub fn reconciliation_policy() -> (r: BackoffPolicy)
    ensures
        r == (BackoffPolicy {
            initial_secs: 10,
            cap_secs: 30,
            max_attempts: 20,
            ceiling_secs: Some(600u64),
        }),
{
    BackoffPolicy { initial_secs: 10, cap_secs: 30, max_attempts: 20, ceiling_secs: Some(600) }
}

/// Whether the image reference `expected` and the image `found` of a running
/// container are taken for the same: one holds the other.
pub open spec fn image_matches(expected: Seq<char>, found: Seq<char>) -> bool {
    contains_sub(found, expected) || contains_sub(expected, found)
}

/// Whether `expected` is matched by one of the images `found`.
pub open spec fn image_present(expected: Seq<char>, found: Seq<Seq<char>>) -> bool {
    exists|j: int| 0 <= j < found.len() && image_matches(expected, #[trigger] found[j])
}

/// The references of `expected` that none of the images `found` matches, in
/// order.
pub open spec fn missing_model(expected: Seq<Seq<char>>, found: Seq<Seq<char>>) -> Seq<Seq<char>> {
    expected.filter(|e: Seq<char>| !image_present(e, found))
}

/// The image references of an image mapping: the second members.
pub open spec fn references_of(mappings: Seq<(Seq<char>, Seq<char>)>) -> Seq<Seq<char>> {
    Seq::new(mappings.len(), |i: int| mappings[i].1)
}

/// Whether one of the images `found` matches `expected`.
pub fn is_image_present(expected: &str, found: &Vec<String>) -> (r: bool)
    ensures
        r == image_present(expected@, string_views(found@)),
{
    let e = to_chars(expected);
    let mut j: usize = 0;
    while j < found.len()
        invariant
            j <= found.len(),
            e@ == expected@,
            forall|k: int| 0 <= k < j ==> !image_matches(expected@, string_views(found@)[k]),
        decreases found.len() - j,
    {
        let f = to_chars(found[j].as_str());
        assert(string_views(found@)[j as int] == f@);
        if contains(&f, &e) || contains(&e, &f) {
            return true;
        }
        j = j + 1;
    }
    false
}

/// The expected image references that no running container shows.
pub fn missing_images(expected: &Vec<(String, String)>, found: &Vec<String>) -> (r: Vec<String>)
    ensures
        string_views(r@) == missing_model(
            references_of(pairs_view(expected@)),
            string_views(found@),
        ),
{
    let ghost refs = references_of(pairs_view(expected@));
    let ghost absent = |e: Seq<char>| !image_present(e, string_views(found@));
    let mut out: Vec<String> = Vec::new();
    let mut i: usize = 0;
    assert(refs.take(0) == Seq::<Seq<char>>::empty());
    assert(string_views(out@) == Seq::<Seq<char>>::empty());
    while i < expected.len()
        invariant
            i <= expected.len(),
            refs == references_of(pairs_view(expected@)),
            absent == |e: Seq<char>| !image_present(e, string_views(found@)),
            string_views(out@) == refs.take(i as int).filter(absent),
        decreases expected.len() - i,
    {
        let reference = &expected[i].1;
        proof {
            assert(refs.take(i + 1) == refs.take(i as int).push(refs[i as int]));
            crate::text::lemma_filter_push(refs.take(i as int), refs[i as int], absent);
        }
        if !is_image_present(reference.as_str(), found) {
            let ghost before = string_views(out@);
            out.push(reference.clone());
            assert(string_views(out@) == before.push(reference@));
        }
        i = i + 1;
    }
    assert(refs.take(expected.len() as int) == refs);
    out
}

/// What one poll of the cluster shows.
#[derive(Debug, Clone)]
pub struct PollObservation {
    /// Whether the readiness resource reports the condition "Ready" as true.
    pub ready: bool,
    /// The expected image references that no running container shows.
    pub missing: Vec<String>,
    /// When the poll was made, in seconds since the wait began.
    pub elapsed_secs: u64,
}

/// Whether a poll shows convergence: the readiness condition holds and no
/// expected image is missing, both in this one poll.
pub open spec fn converged_model(ready: bool, missing: Seq<Seq<char>>) -> bool {
    ready && missing.len() == 0
}

/// An expected image that no running container shows keeps a poll from
/// showing convergence, whatever the readiness condition says.
pub proof fn lemma_missing_image_blocks_convergence(
    ready: bool,
    expected: Seq<Seq<char>>,
    found: Seq<Seq<char>>,
    i: int,
)
    requires
        0 <= i < expected.len(),
        !image_present(expected[i], found),
    ensures
        !converged_model(ready, missing_model(expected, found)),
{
    let absent = |e: Seq<char>| !image_present(e, found);
    crate::text::lemma_filter_keeps(expected, absent, i);
}

/// Without the readiness condition no poll shows convergence.
pub proof fn lemma_unready_blocks_convergence(missing: Seq<Seq<char>>)
    ensures
        !converged_model(false, missing),
{
}

/// Puts together what one poll shows.
pub fn observe_poll(
    ready: bool,
    expected: &Vec<(String, String)>,
    found: &Vec<String>,
    elapsed_secs: u64,
) -> (r: PollObservation)
    ensures
        r.ready == ready,
        r.elapsed_secs == elapsed_secs,
        string_views(r.missing@) == missing_model(
            references_of(pairs_view(expected@)),
            string_views(found@),
        ),
{
    PollObservation { ready, missing: missing_images(expected, found), elapsed_secs }
}

/// Where a wait stands.
#[derive(Debug, Clone, Copy, PartialEq, Eq, Structural)]
pub enum WaitState {
    /// Another poll is due.
    Polling,
    /// A poll showed convergence.
    Converged,
    /// The attempts are used up.
    Exhausted,
    /// The wait went over its ceiling.
    TimedOut,
}

/// What to do after a poll.
#[derive(Debug, Clone, Copy, PartialEq, Eq, Structural)]
pub enum WaitStep {
    /// The cluster converged: stop, with success.
    Converged,
    /// Pause for so many seconds, then poll again.
    Sleep(u64),
    /// The attempts are used up: stop, with a failure.
    GiveUp,
    /// The wait went over its ceiling: stop, with a failure.
    TimedOut,
}

/// What follows the poll number `attempt + 1` of a wait, made
/// `elapsed_secs` after the wait began: success where it shows
/// convergence; else a failure where it was the last attempt or the wait is
/// over its ceiling; else a pause, as long as the backoff gives it.
pub open spec fn step_model(policy: BackoffPolicy, attempt: int, converged: bool, elapsed_secs: u64) -> WaitStep {
    if converged {
        WaitStep::Converged
    } else if attempt + 1 >= policy.max_attempts {
        WaitStep::GiveUp
    } else if over_ceiling(policy, elapsed_secs) {
        WaitStep::TimedOut
    } else {
        WaitStep::Sleep(
            delay_model(policy.initial_secs as int, policy.cap_secs as int, attempt as nat) as u64,
        )
    }
}

/// The state in which a step leaves a wait.
pub open spec fn state_after(step: WaitStep) -> WaitState {
    match step {
        WaitStep::Converged => WaitState::Converged,
        WaitStep::Sleep(_) => WaitState::Polling,
        WaitStep::GiveUp => WaitState::Exhausted,
        WaitStep::TimedOut => WaitState::TimedOut,
    }
}

/// The step with which a wait that has ended answers.
pub open spec fn final_step(state: WaitState) -> WaitStep {
    match state {
        WaitState::Converged => WaitStep::Converged,
        WaitState::TimedOut => WaitStep::TimedOut,
        _ => WaitStep::GiveUp,
    }
}

/// The state of a wait with exponential backoff: a pause follows each
/// unsuccessful attempt but the last, none comes before the first attempt.
#[derive(Debug, Clone, Copy)]
pub struct Waiter {
    pub policy: BackoffPolicy,
    /// The attempts made so far.
    pub attempts: u32,
    /// The pause that follows the next unsuccessful attempt.
    pub next_delay: u64,
    pub state: WaitState,
}

impl Waiter {
    /// The invariant of a wait: no more attempts than the policy allows, a
    /// wait that polls has one left, and the next pause is the one the
    /// backoff gives for the attempts made.
    pub open spec fn wf(&self) -> bool {
        &&& self.attempts <= self.policy.max_attempts
        &&& self.state == WaitState::Polling ==> self.attempts < self.policy.max_attempts
        &&& self.state == WaitState::Exhausted ==> self.attempts == self.policy.max_attempts
        &&& self.state != WaitState::Converged ==> self.next_delay == delay_model(
            self.policy.initial_secs as int,
            self.policy.cap_secs as int,
            self.attempts as nat,
        )
    }

    /// A wait before its first attempt.
    pub fn new(policy: BackoffPolicy) -> (r: Waiter)
        ensures
            r.wf(),
            r.policy == policy,
            r.attempts == 0,
            r.state == if policy.max_attempts == 0 {
                WaitState::Exhausted
            } else {
                WaitState::Polling
            },
    {
        let first = if policy.initial_secs <= policy.cap_secs {
            policy.initial_secs
        } else {
            policy.cap_secs
        };
        Waiter {
            policy,
            attempts: 0,
            next_delay: first,
            state: if policy.max_attempts == 0 {
                WaitState::Exhausted
            } else {
                WaitState::Polling
            },
        }
    }

    /// Whether another poll is due.
    pub fn may_poll(&self) -> (r: bool)
        ensures
            r == (self.state == WaitState::Polling),
    {
        self.state == WaitState::Polling
    }

    /// Takes in the result of one poll, made `elapsed_secs` after the wait
    /// began, and says what follows. The wait ends in success exactly where
    /// the poll shows convergence; else a pause follows, as long as the
    /// backoff gives it for the attempts made so far, unless this was the
    /// last attempt or the wait is over its ceiling. A wait that has ended
    /// stays as it is.
    pub fn record(&mut self, converged: bool, elapsed_secs: u64) -> (step: WaitStep)
        requires
            old(self).wf(),
        ensures
            final(self).wf(),
            final(self).policy == old(self).policy,
            old(self).state != WaitState::Polling ==> *final(self) == *old(self) && step
                == final_step(old(self).state),
            old(self).state == WaitState::Polling ==> {
                &&& final(self).attempts == old(self).attempts + 1
                &&& step == step_model(
                    old(self).policy,
                    old(self).attempts as int,
                    converged,
                    elapsed_secs,
                )
                &&& final(self).state == state_after(step)
            },
    {
        match self.state {
            WaitState::Converged => WaitStep::Converged,
            WaitState::Exhausted => WaitStep::GiveUp,
            WaitState::TimedOut => WaitStep::TimedOut,
            WaitState::Polling => {
                let pause = self.next_delay;
                proof {
                    lemma_backoff_monotone(
                        self.policy.initial_secs as int,
                        self.policy.cap_secs as int,
                        self.attempts as nat,
                    );
                }
                self.attempts = self.attempts + 1;
                if converged {
                    self.state = WaitState::Converged;
                    return WaitStep::Converged;
                }
                self.next_delay = doubled(pause, self.policy.cap_secs);
                if self.attempts >= self.policy.max_attempts {
                    self.state = WaitState::Exhausted;
                    return WaitStep::GiveUp;
                }
                let over = match self.policy.ceiling_secs {
                    Some(ceiling) => elapsed_secs > ceiling,
                    None => false,
                };
                if over {
                    self.state = WaitState::TimedOut;
                    WaitStep::TimedOut
                } else {
                    WaitStep::Sleep(pause)
                }
            },
        }
    }
}

/// Whether a poll shows convergence.
pub fn poll_converged(observation: &PollObservation) -> (r: bool)
    ensures
        r == converged_model(observation.ready, string_views(observation.missing@)),
{
    observation.ready && observation.missing.len() == 0
}

/// The lines that name what a wait that gave up still lacked.
pub open spec fn failure_lines(ready: bool, missing: Seq<Seq<char>>) -> Seq<char>
    decreases missing.len(),
{
    if missing.len() == 0 {
        if ready {
            seq![]
        } else {
            "  - TektonConfig is NOT Ready\n"@
        }
    } else {
        failure_lines(ready, missing.drop_last()) + "  - Missing expected image: "@
            + missing.last() + "\n"@
    }
}

/// How the message of a wait that gave up begins: with the attempts used
/// up, or with the time.
pub open spec fn failure_head(timed_out: bool) -> Seq<char> {
    if timed_out {
        "Reconciliation did not converge in time.\n"@
    } else {
        "Reconciliation did not converge after max retries.\n"@
    }
}

/// The message of a wait that gave up: which condition and which images
/// were still missing at the last poll, and where to look further.
pub open spec fn failure_message(timed_out: bool, ready: bool, missing: Seq<Seq<char>>) -> Seq<char> {
    failure_head(timed_out) + failure_lines(ready, missing)
        + "  Suggestion: check operator logs with:\n"@
        + "    oc logs -n openshift-pipelines deploy/openshift-pipelines-operator\n"@
}

/// Describes the failure of a wait that gave up after the poll `last`,
/// for want of attempts or of time.
pub fn describe_failure(last: &PollObservation, timed_out: bool) -> (r: String)
    ensures
        r@ == failure_message(timed_out, last.ready, string_views(last.missing@)),
{
    let mut msg = if timed_out {
        "Reconciliation did not converge in time.\n".to_owned()
    } else {
        "Reconciliation did not converge after max retries.\n".to_owned()
    };
    let ghost head = msg@;
    let ghost all = string_views(last.missing@);
    if !last.ready {
        msg.append("  - TektonConfig is NOT Ready\n");
    }
    let mut i: usize = 0;
    assert(all.take(0) == Seq::<Seq<char>>::empty());
    while i < last.missing.len()
        invariant
            i <= last.missing.len(),
            all == string_views(last.missing@),
            msg@ == head + failure_lines(last.ready, all.take(i as int)),
        decreases last.missing.len() - i,
    {
        proof {
            assert(all.take(i + 1).drop_last() == all.take(i as int));
            assert(all.take(i + 1).last() == last.missing@[i as int]@);
        }
        msg.append("  - Missing expected image: ");
        msg.append(last.missing[i].as_str());
        msg.append("\n");
        i = i + 1;
    }
    assert(all.take(last.missing.len() as int) == all);
    msg.append("  Suggestion: check operator logs with:\n");
    msg.append("    oc logs -n openshift-pipelines deploy/openshift-pipelines-operator\n");
    msg
}

/// A status condition of a cluster object: its type and its status.
#[derive(Debug, Clone)]
pub struct Condition {
    pub kind: String,
    pub status: String,
}

/// What a `Condition` holds, as plain sequences.
pub struct ConditionView {
    pub kind: Seq<char>,
    pub status: Seq<char>,
}

impl View for Condition {
    type V = ConditionView;

    open spec fn view(&self) -> ConditionView {
        ConditionView { kind: self.kind@, status: self.status@ }
    }
}

/// Whether one of `conditions` is of the type `kind` and has the status
/// "True".
pub open spec fn condition_holds(conditions: Seq<ConditionView>, kind: Seq<char>) -> bool {
    exists|i: int|
        0 <= i < conditions.len() && (#[trigger] conditions[i]).kind == kind
            && conditions[i].status == "True"@
}

/// Whether one of `conditions` is of the type `kind` and has the status
/// "True".
pub fn has_condition(conditions: &Vec<Condition>, kind: &str) -> (r: bool)
    ensures
        r == condition_holds(seq_view(conditions@), kind@),
{
    let mut i: usize = 0;
    while i < conditions.len()
        invariant
            i <= conditions.len(),
            forall|j: int|
                0 <= j < i ==> !((#[trigger] seq_view(conditions@)[j]).kind == kind@ && seq_view(
                    conditions@,
                )[j].status == "True"@),
        decreases conditions.len() - i,
    {
        let c = &conditions[i];
        assert(seq_view(conditions@)[i as int] == c@);
        if str_eq(c.kind.as_str(), kind) && str_eq(c.status.as_str(), "True") {
            return true;
        }
        i = i + 1;
    }
    false
}

/// Whether the readiness resource reports the condition "Ready" as true.
pub fn check_tektonconfig_ready(conditions: &Vec<Condition>) -> (r: bool)
    ensures
        r == condition_holds(seq_view(conditions@), "Ready"@),
{
    has_condition(conditions, "Ready")
}

/// Whether every expected image reference shows in a running container.
pub fn verify_pod_images(expected: &Vec<(String, String)>, found: &Vec<String>) -> (r: bool)
    ensures
        r == (missing_model(references_of(pairs_view(expected@)), string_views(found@)).len()
            == 0),
{
    missing_images(expected, found).len() == 0
}

/// The text under `key` of `doc`; the empty text where there is none.
pub open spec fn text_under(doc: DocumentView, key: Seq<char>) -> Seq<char> {
    match doc.member(key) {
        Some(DocumentView::Text(t)) => t,
        _ => Seq::<char>::empty(),
    }
}

/// The condition that one item of a status describes.
pub open spec fn condition_of(item: DocumentView) -> ConditionView {
    ConditionView { kind: text_under(item, "type"@), status: text_under(item, "status"@) }
}

/// The status conditions that a cluster object reports: the items of the
/// list under "status", "conditions"; none where there is no such list.
pub open spec fn conditions_model(object: DocumentView) -> Seq<ConditionView> {
    match object.member("status"@) {
        Some(status) => match status.member("conditions"@) {
            Some(DocumentView::List(items)) => Seq::new(
                items.len(),
                |i: int| condition_of(items[i]),
            ),
            _ => seq![],
        },
        None => seq![],
    }
}

/// The text under `key` of `doc`; the empty text where there is none.
pub fn text_of_member(doc: &Document, key: &str) -> (r: String)
    ensures
        r@ == text_under(doc@, key@),
{
    match doc.get(key) {
        Some(Document::Text(t)) => t.clone(),
        _ => String::new(),
    }
}

/// The status conditions that a cluster object reports.
pub fn conditions_of(object: &Document) -> (r: Vec<Condition>)
    ensures
        seq_view(r@) == conditions_model(object@),
{
    let mut out: Vec<Condition> = Vec::new();
    let items: &Vec<Document> = match object.get("status") {
        Some(status) => match status.get("conditions") {
            Some(Document::List(items)) => {
                proof {
                    lemma_list_view(*items);
                }
                items
            },
            _ => {
                assert(seq_view(out@) =~= Seq::<ConditionView>::empty());
                return out;
            },
        },
        None => {
            assert(seq_view(out@) =~= Seq::<ConditionView>::empty());
            return out;
        },
    };
    let mut i: usize = 0;
    while i < items.len()
        invariant
            i <= items.len(),
            out.len() == i,
            forall|j: int| 0 <= j < i ==> (#[trigger] out@[j])@ == condition_of(items@[j]@),
        decreases items.len() - i,
    {
        let kind = text_of_member(&items[i], "type");
        let status = text_of_member(&items[i], "status");
        out.push(Condition { kind, status });
        i = i + 1;
    }
    assert(seq_view(out@) =~= conditions_model(object@));
    out
}

/// Whether the readiness resource, as the cluster returned it, reports the
/// condition "Ready" as true.
pub fn tektonconfig_ready(object: &Document) -> (r: bool)
    ensures
        r == condition_holds(conditions_model(object@), "Ready"@),
{
    let conditions = conditions_of(object);
    check_tektonconfig_ready(&conditions)
}

/// How a wait went.
#[derive(Debug, Clone)]
pub struct WaitReport {
    /// Whether a poll showed convergence before the wait gave up.
    pub converged: bool,
    /// Whether the wait ended because it went over its ceiling.
    pub timed_out: bool,
    /// The number of polls that were taken in.
    pub polls: u32,
    /// The pauses between the polls, in seconds, in order.
    pub delays: Vec<u64>,
}

/// For each poll, whether it shows convergence.
pub open spec fn convergence_of(observations: Seq<PollObservation>) -> Seq<bool> {
    Seq::new(
        observations.len(),
        |i: int| converged_model(observations[i].ready, string_views(observations[i].missing@)),
    )
}

/// For each poll, what follows it in a wait that has come so far.
pub open spec fn steps_of(policy: BackoffPolicy, observations: Seq<PollObservation>) -> Seq<
    WaitStep,
> {
    Seq::new(
        observations.len(),
        |i: int|
            step_model(
                policy,
                i,
                converged_model(observations[i].ready, string_views(observations[i].missing@)),
                observations[i].elapsed_secs,
            ),
    )
}

/// For each poll, whether it ends a wait that has come so far.
pub open spec fn endings_of(policy: BackoffPolicy, observations: Seq<PollObservation>) -> Seq<
    bool,
> {
    Seq::new(observations.len(), |i: int| !(steps_of(policy, observations)[i] is Sleep))
}

/// The pauses of a wait: one after each poll that did not end the wait.
pub open spec fn pauses_model(policy: BackoffPolicy, pauses: int) -> Seq<u64> {
    Seq::new(
        if pauses < 0 {
            0nat
        } else {
            pauses as nat
        },
        |i: int| delay_model(policy.initial_secs as int, policy.cap_secs as int, i as nat) as u64,
    )
}

/// Runs a wait over what a row of polls showed, in order: it ends with the
/// first poll that shows convergence, uses up the attempts or finds the
/// wait over its ceiling, or else with the last poll at hand. A pause lies
/// after every poll that does not end the wait.
pub fn wait_for_reconciliation(policy: BackoffPolicy, observations: &Vec<PollObservation>) -> (r:
    WaitReport)
    ensures
        r.polls <= policy.max_attempts,
        policy.max_attempts == 0 ==> r.polls == 0 && !r.converged && !r.timed_out
            && r.delays@.len() == 0,
        policy.max_attempts > 0 ==> ({
            let end = first_index(endings_of(policy, observations@), true);
            &&& r.polls == if end < observations.len() {
                end + 1
            } else {
                observations.len() as int
            }
            &&& r.converged == (end < observations.len() && convergence_of(observations@)[end])
            &&& r.timed_out == (end < observations.len() && steps_of(policy, observations@)[end]
                is TimedOut)
            &&& r.delays@ == pauses_model(policy, end)
        }),
{
    let ghost steps = steps_of(policy, observations@);
    let ghost ends = endings_of(policy, observations@);
    let mut w = Waiter::new(policy);
    let mut delays: Vec<u64> = Vec::new();
    let mut i: usize = 0;
    while i < observations.len() && w.may_poll()
        invariant
            i <= observations.len(),
            steps == steps_of(policy, observations@),
            ends == endings_of(policy, observations@),
            w.wf(),
            w.policy == policy,
            w.attempts == i,
            policy.max_attempts == 0 ==> i == 0 && w.state == WaitState::Exhausted
                && delays.len() == 0,
            policy.max_attempts > 0 && w.state != WaitState::Polling ==> i > 0 && ends[i - 1]
                && w.state == state_after(steps[i - 1]) && delays.len() == i - 1 && forall|
                j: int,
            |
                0 <= j < i - 1 ==> !ends[j],
            w.state == WaitState::Polling ==> delays.len() == i && forall|j: int|
                0 <= j < i ==> !ends[j],
            forall|j: int|
                0 <= j < delays.len() ==> delays@[j] == delay_model(
                    policy.initial_secs as int,
                    policy.cap_secs as int,
                    j as nat,
                ) as u64,
        decreases observations.len() - i,
    {
        let converged = poll_converged(&observations[i]);
        let step = w.record(converged, observations[i].elapsed_secs);
        assert(step == steps[i as int]);
        match step {
            WaitStep::Sleep(pause) => {
                delays.push(pause);
            },
            _ => {},
        }
        i = i + 1;
    }
    proof {
        if policy.max_attempts > 0 {
            if w.state != WaitState::Polling {
                lemma_first_index(ends, true, i - 1);
            } else {
                lemma_first_index(ends, true, i as int);
            }
            assert(delays@ =~= pauses_model(policy, first_index(ends, true)));
        }
    }
    WaitReport {
        converged: w.state == WaitState::Converged,
        timed_out: w.state == WaitState::TimedOut,
        polls: w.attempts,
        delays,
    }
}

/// The namespaces in which the pods that run the images are looked for.
pub fn pod_namespaces() -> (r: Vec<String>)
    ensures
        string_views(r@) == seq!["openshift-pipelines"@, "tekton-pipelines"@],
{
    let mut r: Vec<String> = Vec::new();
    r.push("openshift-pipelines".to_owned());
    r.push("tekton-pipelines".to_owned());
    assert(string_views(r@) =~= seq!["openshift-pipelines"@, "tekton-pipelines"@]);
    r
}

/// The label by which the pods that run the images are found.
pub fn pod_selector() -> (r: String)
    ensures
        r@ == "app.kubernetes.io/part-of=tekton-pipelines"@,
{
    "app.kubernetes.io/part-of=tekton-pipelines".to_owned()
}

} // verus!
