//! Resource profiles: quantities as the cluster writes them, statistics
//! over samples, and how many specs may run side by side.

use vstd::prelude::*;
use vstd::relations::{sorted_by, total_ordering};
use vstd::seq_lib::lemma_sorted_unique;
use crate::numeral::{
    all_ascii_digits, all_digits, decimal_value, digit_of, digit_value, min_nat, parse_u64,
    parsed_u64, saturating_decimal,
};
use crate::text::{
    lemma_filter_push, opt_text, seq_view, str_eq, string_views,
    contains, contains_sub, ends_with, find_char, first_index, from_chars, starts_with,
    strip_prefix, sub_vec, to_chars, trim, trim_char, trimmed, trimmed_of, without_prefix,
};

verus! {

/// The resource profile of a whole test run.
#[derive(Debug, Clone)]
pub struct ResourceProfile {
    pub run_timestamp: String,
    pub cluster: ClusterCapacity,
    pub baseline: ResourceSnapshot,
    pub specs: Vec<SpecProfile>,
    pub recommendation: ParallelismRecommendation,
}

/// What the cluster's nodes offer.
#[derive(Debug, Clone, Copy, PartialEq, Eq, Structural)]
pub struct ClusterCapacity {
    pub total_cpu_millicores: u64,
    pub total_memory_bytes: u64,
    pub allocatable_cpu_millicores: u64,
    pub allocatable_memory_bytes: u64,
    pub node_count: u32,
}

/// The resources in use at one moment.
#[derive(Debug, Clone, Copy, PartialEq, Eq, Structural)]
pub struct ResourceSnapshot {
    pub cpu_millicores: u64,
    pub memory_bytes: u64,
    pub pod_count: u32,
}

/// The resource profile of one test spec.
#[derive(Debug, Clone)]
pub struct SpecProfile {
    pub spec_name: String,
    pub duration_seconds: u64,
    pub samples: u32,
    pub cpu: UsageStats,
    pub memory: UsageStats,
    pub peak_pod_count: u32,
}

/// A summary of usage samples.
#[derive(Debug, Clone, Copy, PartialEq, Eq, Structural)]
pub struct UsageStats {
    pub min: u64,
    pub max: u64,
    pub avg: u64,
    pub p95: u64,
}

/// How many specs may run side by side, and why.
#[derive(Debug, Clone)]
pub struct ParallelismRecommendation {
    pub max_parallel_specs: u32,
    pub limiting_resource: String,
    pub safety_margin_percent: u32,
    pub reasoning: String,
}

/// One sample of the cluster's usage.
#[derive(Debug, Clone)]
pub struct MetricSample {
    /// When the sample was taken, in milliseconds since sampling began.
    pub timestamp_millis: u64,
    pub spec_name: Option<String>,
    pub total_cpu_millicores: u64,
    pub total_memory_bytes: u64,
    pub pod_count: u32,
}

/// The digit of `frac` at position `i`, a zero where it has none there.
pub open spec fn frac_digit(frac: Seq<char>, i: int) -> nat {
    if i < frac.len() {
        digit_value(frac[i])
    } else {
        0
    }
}

/// The thousandths that the fraction digits `frac` stand for, rounded down.
pub open spec fn frac_millis(frac: Seq<char>) -> nat {
    frac_digit(frac, 0) * 100 + frac_digit(frac, 1) * 10 + frac_digit(frac, 2)
}

/// The millicores that a plain decimal number of cores stands for, rounded
/// down: an optional sign, digits, and an optional point with digits; at
/// least one digit in all. A negative number gives zero, a number too large
/// gives the largest value.
pub open spec fn cores_millis(t: Seq<char>) -> Option<u64> {
    let negative = t.len() > 0 && t[0] == '-';
    let body = if t.len() > 0 && (t[0] == '-' || t[0] == '+') {
        t.skip(1)
    } else {
        t
    };
    let dot = first_index(body, '.');
    let whole = body.take(dot);
    let frac = if dot < body.len() {
        body.skip(dot + 1)
    } else {
        Seq::<char>::empty()
    };
    if all_digits(whole) && all_digits(frac) && whole.len() + frac.len() > 0 {
        if negative {
            Some(0u64)
        } else {
            Some(min_nat(decimal_value(whole) * 1000 + frac_millis(frac), u64::MAX as nat) as u64)
        }
    } else {
        None
    }
}

/// The millicores that a CPU quantity stands for: nanocores with the suffix
/// `n`, millicores with the suffix `m`, cores without a suffix.
pub open spec fn cpu_millicores(s: Seq<char>) -> Option<u64> {
    let t = trimmed(s);
    if t.len() == 0 {
        None
    } else if t.last() == 'n' {
        match parsed_u64(t.drop_last()) {
            Some(n) => Some((n / 1_000_000) as u64),
            None => None,
        }
    } else if t.last() == 'm' {
        parsed_u64(t.drop_last())
    } else {
        cores_millis(t)
    }
}

/// The digit of `frac` at position `i`, a zero where it has none there.
fn frac_digit_at(frac: &[char], i: usize) -> (r: u64)
    requires
        all_digits(frac@),
    ensures
        r == frac_digit(frac@, i as int),
        r <= 9,
{
    if i < frac.len() {
        digit_of(frac[i])
    } else {
        0
    }
}

/// Reads a plain decimal number of cores as millicores.
pub fn parse_cores(t: &[char]) -> (r: Option<u64>)
    ensures
        r == cores_millis(t@),
{
    let negative = t.len() > 0 && t[0] == '-';
    let from: usize = if t.len() > 0 && (t[0] == '-' || t[0] == '+') {
        1
    } else {
        0
    };
    let body = sub_vec(t, from, t.len());
    assert(t@.skip(0) == t@);
    assert(body@ == t@.skip(from as int));
    let dot = find_char(&body, '.');
    let whole = sub_vec(&body, 0, dot);
    let frac = if dot < body.len() {
        sub_vec(&body, dot + 1, body.len())
    } else {
        Vec::new()
    };
    if !all_ascii_digits(&whole) || !all_ascii_digits(&frac) {
        return None;
    }
    if whole.len() == 0 && frac.len() == 0 {
        return None;
    }
    if negative {
        return Some(0);
    }
    let units = saturating_decimal(&whole);
    let millis = frac_digit_at(&frac, 0) * 100 + frac_digit_at(&frac, 1) * 10 + frac_digit_at(
        &frac,
        2,
    );
    if units > (u64::MAX - millis) / 1000 {
        Some(u64::MAX)
    } else {
        Some(units * 1000 + millis)
    }
}

/// Reads a CPU quantity, as the cluster writes it, as millicores.
pub fn parse_cpu_millicores(s: &str) -> (r: Option<u64>)
    ensures
        r == cpu_millicores(s@),
{
    let t = trim(&to_chars(s));
    if t.len() == 0 {
        return None;
    }
    let last = t[t.len() - 1];
    if last == 'n' {
        let digits = sub_vec(&t, 0, t.len() - 1);
        return match parse_u64(&digits) {
            Some(n) => Some(n / 1_000_000),
            None => None,
        };
    }
    if last == 'm' {
        let digits = sub_vec(&t, 0, t.len() - 1);
        return parse_u64(&digits);
    }
    parse_cores(&t)
}

/// The factor of a memory suffix, and the length of the suffix.
pub open spec fn memory_unit(t: Seq<char>) -> (nat, nat) {
    if "Ti"@.is_suffix_of(t) {
        (1024 * 1024 * 1024 * 1024, 2)
    } else if "Gi"@.is_suffix_of(t) {
        (1024 * 1024 * 1024, 2)
    } else if "Mi"@.is_suffix_of(t) {
        (1024 * 1024, 2)
    } else if "Ki"@.is_suffix_of(t) {
        (1024, 2)
    } else if "T"@.is_suffix_of(t) {
        (1_000_000_000_000, 1)
    } else if "G"@.is_suffix_of(t) {
        (1_000_000_000, 1)
    } else if "M"@.is_suffix_of(t) {
        (1_000_000, 1)
    } else if "K"@.is_suffix_of(t) {
        (1_000, 1)
    } else {
        (1, 0)
    }
}

/// The bytes that a memory quantity stands for: a number, with a binary
/// suffix (Ki, Mi, Gi, Ti), a decimal one (K, M, G, T) or none. A quantity
/// whose bytes do not fit 64 bits stands for nothing.
pub open spec fn memory_bytes(s: Seq<char>) -> Option<u64> {
    let t = trimmed(s);
    if t.len() == 0 {
        None
    } else {
        let (factor, suffix) = memory_unit(t);
        match parsed_u64(t.take(t.len() - suffix)) {
            Some(n) => if n * factor <= u64::MAX {
                Some((n * factor) as u64)
            } else {
                None
            },
            None => None,
        }
    }
}

/// The factor of the memory suffix of `t`, and the length of the suffix.
fn memory_unit_of(t: &[char]) -> (r: (u64, usize))
    ensures
        r.0 == memory_unit(t@).0,
        r.1 == memory_unit(t@).1,
        r.1 <= t.len(),
        r.0 >= 1,
{
    proof {
        reveal_strlit("Ti");
        reveal_strlit("Gi");
        reveal_strlit("Mi");
        reveal_strlit("Ki");
        reveal_strlit("T");
        reveal_strlit("G");
        reveal_strlit("M");
        reveal_strlit("K");
    }
    if ends_with(t, &to_chars("Ti")) {
        (1024 * 1024 * 1024 * 1024, 2)
    } else if ends_with(t, &to_chars("Gi")) {
        (1024 * 1024 * 1024, 2)
    } else if ends_with(t, &to_chars("Mi")) {
        (1024 * 1024, 2)
    } else if ends_with(t, &to_chars("Ki")) {
        (1024, 2)
    } else if ends_with(t, &to_chars("T")) {
        (1_000_000_000_000, 1)
    } else if ends_with(t, &to_chars("G")) {
        (1_000_000_000, 1)
    } else if ends_with(t, &to_chars("M")) {
        (1_000_000, 1)
    } else if ends_with(t, &to_chars("K")) {
        (1_000, 1)
    } else {
        (1, 0)
    }
}

/// Reads a memory quantity, as the cluster writes it, as bytes.
pub fn parse_memory_bytes(s: &str) -> (r: Option<u64>)
    ensures
        r == memory_bytes(s@),
{
    let t = trim(&to_chars(s));
    if t.len() == 0 {
        return None;
    }
    let (factor, suffix) = memory_unit_of(&t);
    let digits = sub_vec(&t, 0, t.len() - suffix);
    match parse_u64(&digits) {
        Some(n) => {
            if n > u64::MAX / factor {
                assert(n * factor > u64::MAX) by (nonlinear_arith)
                    requires
                        n > u64::MAX / factor,
                        factor >= 1,
                ;
                None
            } else {
                assert(n * factor <= u64::MAX) by (nonlinear_arith)
                    requires
                        n <= u64::MAX / factor,
                        factor >= 1,
                ;
                Some(n * factor)
            }
        },
        None => None,
    }
}

/// The order of the numbers: at most.
pub open spec fn at_most() -> spec_fn(u64, u64) -> bool {
    |a: u64, b: u64| a <= b
}

/// `slice::sort` on a vector of numbers: afterwards the vector holds what
/// it held before, each number as often as before, in ascending order.
#[verifier::external_body]
fn sort_ascending(v: &mut Vec<u64>)
    ensures
        sorted_by(final(v)@, at_most()),
        final(v)@.to_multiset() == old(v)@.to_multiset(),
        final(v)@.len() == old(v)@.len(),
{
    v.sort();
}

/// The sum of the numbers of `s`.
pub open spec fn sum_of(s: Seq<u64>) -> nat
    decreases s.len(),
{
    if s.len() == 0 {
        0
    } else {
        sum_of(s.drop_last()) + s.last() as nat
    }
}

/// The position, among `n` samples in ascending order, of the one that at
/// least ninety-five in a hundred do not exceed.
pub open spec fn p95_index(n: nat) -> int {
    (n * 95 + 99) / 100 - 1
}

/// The summary of `samples`: the smallest, the largest, the mean rounded
/// down, and the sample at the ninety-fifth percentile; all zero where
/// there is no sample.
pub open spec fn stats_model(samples: Seq<u64>) -> UsageStats {
    if samples.len() == 0 {
        UsageStats { min: 0, max: 0, avg: 0, p95: 0 }
    } else {
        let sorted = samples.sort_by(at_most());
        UsageStats {
            min: sorted[0],
            max: sorted[samples.len() - 1],
            avg: (sum_of(samples) / samples.len()) as u64,
            p95: sorted[p95_index(samples.len())],
        }
    }
}

/// Summarises usage samples.
pub fn compute_stats(samples: &[u64]) -> (r: UsageStats)
    ensures
        r == stats_model(samples@),
{
    let n = samples.len();
    if n == 0 {
        return UsageStats { min: 0, max: 0, avg: 0, p95: 0 };
    }
    let mut sorted = vstd::slice::slice_to_vec(samples);
    sort_ascending(&mut sorted);
    proof {
        assert(total_ordering(at_most()));
        samples@.lemma_sort_by_ensures(at_most());
        lemma_sorted_unique(sorted@, samples@.sort_by(at_most()), at_most());
    }
    let mut sum: u128 = 0;
    let mut i: usize = 0;
    assert(samples@.take(0) == Seq::<u64>::empty());
    while i < n
        invariant
            i <= n,
            n == samples.len(),
            sum == sum_of(samples@.take(i as int)),
            sum <= i * 0xFFFF_FFFF_FFFF_FFFF,
        decreases n - i,
    {
        assert(samples@.take(i + 1).drop_last() == samples@.take(i as int));
        sum = sum + samples[i] as u128;
        i = i + 1;
    }
    assert(samples@.take(n as int) == samples@);
    let count: u128 = n as u128;
    assert(sum / count <= 0xFFFF_FFFF_FFFF_FFFF) by (nonlinear_arith)
        requires
            sum <= count * 0xFFFF_FFFF_FFFF_FFFF,
            count > 0,
    ;
    let avg = (sum / count) as u64;
    let rank: u128 = (count * 95 + 99) / 100;
    let at = (rank - 1) as usize;
    UsageStats { min: sorted[0], max: sorted[n - 1], avg, p95: sorted[at] }
}

/// How many specs may run side by side: what the cluster can allocate,
/// less the baseline and less the safety margin, divided by the peak of one
/// spec; one at least.
pub open spec fn parallelism_model(
    allocatable: u64,
    baseline: u64,
    per_spec_peak: u64,
    safety_margin_percent: u32,
) -> int {
    let available = if allocatable >= baseline {
        allocatable - baseline
    } else {
        0
    };
    let safe = available * (100 - safety_margin_percent) / 100;
    if per_spec_peak == 0 || safe == 0 {
        1
    } else {
        let fit = (safe / per_spec_peak as int) % 0x1_0000_0000;
        if fit < 1 {
            1
        } else {
            fit
        }
    }
}

/// Calculates how many specs may run side by side.
pub fn calculate_max_parallelism(
    allocatable_cpu_millicores: u64,
    baseline_cpu_millicores: u64,
    per_spec_peak_cpu_millicores: u64,
    safety_margin_percent: u32,
) -> (r: u32)
    requires
        safety_margin_percent <= 100,
    ensures
        r == parallelism_model(
            allocatable_cpu_millicores,
            baseline_cpu_millicores,
            per_spec_peak_cpu_millicores,
            safety_margin_percent,
        ),
{
    let available: u64 = if allocatable_cpu_millicores >= baseline_cpu_millicores {
        allocatable_cpu_millicores - baseline_cpu_millicores
    } else {
        0
    };
    let share: u128 = (100 - safety_margin_percent) as u128;
    assert(available as u128 * share <= 0xFFFF_FFFF_FFFF_FFFF * 100) by (nonlinear_arith)
        requires
            available <= 0xFFFF_FFFF_FFFF_FFFF,
            share <= 100,
    ;
    let safe: u128 = available as u128 * share / 100;
    if per_spec_peak_cpu_millicores == 0 || safe == 0 {
        return 1;
    }
    let fit: u128 = (safe / per_spec_peak_cpu_millicores as u128) % 0x1_0000_0000;
    if fit < 1 {
        1
    } else {
        fit as u32
    }
}

/// Where a test spec begins or ends in the test runner's output.
#[derive(Debug, Clone, PartialEq)]
pub enum SpecEvent {
    SpecStart(String),
    SpecEnd,
}

/// What a `SpecEvent` holds, as plain sequences.
pub enum SpecEventView {
    SpecStart(Seq<char>),
    SpecEnd,
}

impl View for SpecEvent {
    type V = SpecEventView;

    open spec fn view(&self) -> SpecEventView {
        match self {
            SpecEvent::SpecStart(name) => SpecEventView::SpecStart(name@),
            SpecEvent::SpecEnd => SpecEventView::SpecEnd,
        }
    }
}

/// What stands behind the prefix `p` of `t`, trimmed; nothing where `t`
/// does not begin with `p`.
pub open spec fn trimmed_rest(t: Seq<char>, p: Seq<char>) -> Seq<char> {
    match without_prefix(t, p) {
        Some(rest) => trimmed(rest),
        None => Seq::<char>::empty(),
    }
}

/// The event that a line of the test runner's output marks: the begin of a
/// spec, named after one of three headings, or the end of one, at one of
/// three summary lines.
pub open spec fn spec_boundary(line: Seq<char>) -> Option<SpecEventView> {
    let t = trimmed(line);
    let executing = trimmed_of(trimmed_rest(t, "# Executing specification"@), '"');
    let heading = trimmed_rest(t, "## "@);
    let running = trimmed_rest(t, "Executing Spec:"@);
    if executing.len() > 0 {
        Some(SpecEventView::SpecStart(executing))
    } else if heading.len() > 0 && !contains_sub(heading, "Scenario"@) {
        Some(SpecEventView::SpecStart(heading))
    } else if running.len() > 0 {
        Some(SpecEventView::SpecStart(running))
    } else if contains_sub(t, "Successfully generated"@) || "Specifications:"@.is_prefix_of(t)
        || "Scenarios:"@.is_prefix_of(t) {
        Some(SpecEventView::SpecEnd)
    } else {
        None
    }
}

/// What stands behind the prefix `p` of `t`, trimmed.
fn rest_after(t: &[char], p: &str) -> (r: Vec<char>)
    ensures
        r@ == trimmed_rest(t@, p@),
{
    match strip_prefix(t, &to_chars(p)) {
        Some(rest) => trim(&rest),
        None => {
            assert(trimmed(Seq::<char>::empty()) == Seq::<char>::empty());
            Vec::new()
        },
    }
}

/// Detects the begin or the end of a spec in one line of the test runner's
/// output.
pub fn detect_spec_boundary(line: &str) -> (r: Option<SpecEvent>)
    ensures
        match (r, spec_boundary(line@)) {
            (Some(e), Some(m)) => e@ == m,
            (None, None) => true,
            _ => false,
        },
{
    let t = trim(&to_chars(line));
    let executing = trim_char(&rest_after(&t, "# Executing specification"), '"');
    if executing.len() > 0 {
        return Some(SpecEvent::SpecStart(from_chars(&executing)));
    }
    let heading = rest_after(&t, "## ");
    if heading.len() > 0 && !contains(&heading, &to_chars("Scenario")) {
        return Some(SpecEvent::SpecStart(from_chars(&heading)));
    }
    let running = rest_after(&t, "Executing Spec:");
    if running.len() > 0 {
        return Some(SpecEvent::SpecStart(from_chars(&running)));
    }
    if contains(&t, &to_chars("Successfully generated")) || starts_with(
        &t,
        &to_chars("Specifications:"),
    ) || starts_with(&t, &to_chars("Scenarios:")) {
        return Some(SpecEvent::SpecEnd);
    }
    None
}

/// The largest of the numbers `values`, or zero where there is none.
pub open spec fn largest(values: Seq<u64>) -> u64
    decreases values.len(),
{
    if values.len() == 0 {
        0
    } else {
        let rest = largest(values.drop_last());
        if values.last() >= rest {
            values.last()
        } else {
            rest
        }
    }
}

/// The position of the last of `values` that is the largest; -1 where
/// there is none.
pub open spec fn last_largest(values: Seq<u64>) -> int
    decreases values.len(),
{
    if values.len() == 0 {
        -1
    } else if values.len() == 1 || values.last() >= largest(values.drop_last()) {
        values.len() - 1
    } else {
        last_largest(values.drop_last())
    }
}

/// The 95th percentiles of the processor usage of `specs`, in order.
pub open spec fn cpu_peaks(specs: Seq<SpecProfile>) -> Seq<u64> {
    Seq::new(specs.len(), |i: int| specs[i].cpu.p95)
}

/// The 95th percentiles of the memory usage of `specs`, in order.
pub open spec fn memory_peaks(specs: Seq<SpecProfile>) -> Seq<u64> {
    Seq::new(specs.len(), |i: int| specs[i].memory.p95)
}

/// How many specs fit into what is left of a resource, a fifth of it kept
/// free; no bound where a spec uses none of it.
pub open spec fn fit_model(allocatable: u64, baseline: u64, peak: u64) -> int {
    let available = if allocatable >= baseline {
        allocatable - baseline
    } else {
        0
    };
    if peak > 0 {
        available * 80 / 100 / (peak as int)
    } else {
        u64::MAX as int
    }
}

/// The resource that bounds how many specs may run side by side: the
/// processor, unless more specs fit by it than by the memory.
pub open spec fn limiting_model(
    cluster: ClusterCapacity,
    baseline: ResourceSnapshot,
    peak_cpu: u64,
    peak_memory: u64,
) -> Seq<char> {
    if fit_model(cluster.allocatable_cpu_millicores, baseline.cpu_millicores, peak_cpu)
        <= fit_model(cluster.allocatable_memory_bytes, baseline.memory_bytes, peak_memory) {
        "cpu"@
    } else {
        "memory"@
    }
}

/// How many specs fit into what is left of a resource.
fn fit(allocatable: u64, baseline: u64, peak: u64) -> (r: u64)
    ensures
        r == fit_model(allocatable, baseline, peak),
{
    let available: u64 = if allocatable >= baseline {
        allocatable - baseline
    } else {
        0
    };
    if peak > 0 {
        assert(available as u128 * 80 <= 0xFFFF_FFFF_FFFF_FFFF * 80);
        let share: u128 = available as u128 * 80 / 100;
        (share / peak as u128) as u64
    } else {
        u64::MAX
    }
}

/// The largest of the numbers `values`, and the position of the last of
/// them that is the largest.
fn peak_of(values: &Vec<u64>) -> (r: (u64, Option<usize>))
    ensures
        r.0 == largest(values@),
        match r.1 {
            Some(i) => i == last_largest(values@) && i < values.len(),
            None => values.len() == 0,
        },
{
    let mut best: u64 = 0;
    let mut at: Option<usize> = None;
    let mut i: usize = 0;
    assert(values@.take(0) == Seq::<u64>::empty());
    while i < values.len()
        invariant
            i <= values.len(),
            best == largest(values@.take(i as int)),
            match at {
                Some(a) => a == last_largest(values@.take(i as int)) && a < i,
                None => i == 0,
            },
        decreases values.len() - i,
    {
        assert(values@.take(i + 1).drop_last() == values@.take(i as int));
        if values[i] >= best {
            best = values[i];
            at = Some(i);
        }
        i = i + 1;
    }
    assert(values@.take(values.len() as int) == values@);
    (best, at)
}

/// The recommendation for a run that was profiled: how many specs may run
/// side by side by the processor, with a margin of a fifth; which resource
/// bounds that; and the spec with the highest peak, the last of several.
pub fn recommend_parallelism(
    cluster: &ClusterCapacity,
    baseline: &ResourceSnapshot,
    specs: &Vec<SpecProfile>,
) -> (r: (u32, String, Option<usize>))
    ensures
        r.0 == parallelism_model(
            cluster.allocatable_cpu_millicores,
            baseline.cpu_millicores,
            largest(cpu_peaks(specs@)),
            20,
        ),
        r.1@ == limiting_model(
            *cluster,
            *baseline,
            largest(cpu_peaks(specs@)),
            largest(memory_peaks(specs@)),
        ),
        match r.2 {
            Some(i) => i == last_largest(cpu_peaks(specs@)) && i < specs.len(),
            None => specs.len() == 0,
        },
{
    let mut cpu: Vec<u64> = Vec::new();
    let mut memory: Vec<u64> = Vec::new();
    let mut i: usize = 0;
    while i < specs.len()
        invariant
            i <= specs.len(),
            cpu.len() == i,
            memory.len() == i,
            forall|j: int| 0 <= j < i ==> cpu@[j] == specs@[j].cpu.p95,
            forall|j: int| 0 <= j < i ==> memory@[j] == specs@[j].memory.p95,
        decreases specs.len() - i,
    {
        cpu.push(specs[i].cpu.p95);
        memory.push(specs[i].memory.p95);
        i = i + 1;
    }
    assert(cpu@ =~= cpu_peaks(specs@));
    assert(memory@ =~= memory_peaks(specs@));
    let (peak_cpu, peak_spec) = peak_of(&cpu);
    let (peak_memory, _) = peak_of(&memory);
    let max_parallel = calculate_max_parallelism(
        cluster.allocatable_cpu_millicores,
        baseline.cpu_millicores,
        peak_cpu,
        20,
    );
    let by_cpu = fit(cluster.allocatable_cpu_millicores, baseline.cpu_millicores, peak_cpu);
    let by_memory = fit(cluster.allocatable_memory_bytes, baseline.memory_bytes, peak_memory);
    let limiting = if by_cpu <= by_memory {
        "cpu".to_owned()
    } else {
        "memory".to_owned()
    };
    (max_parallel, limiting, peak_spec)
}

/// Whether `a` comes before `b` in the order of the dictionary, character
/// by character.
pub open spec fn lex_lt(a: Seq<char>, b: Seq<char>) -> bool
    decreases a.len(),
{
    if b.len() == 0 {
        false
    } else if a.len() == 0 {
        true
    } else if a[0] != b[0] {
        a[0] < b[0]
    } else {
        lex_lt(a.drop_first(), b.drop_first())
    }
}

/// Of two different texts one comes before the other, and no text comes
/// before itself.
pub proof fn lemma_lex_total(a: Seq<char>, b: Seq<char>)
    ensures
        a == b ==> !lex_lt(a, b),
        a != b ==> (lex_lt(a, b) || lex_lt(b, a)),
        !(lex_lt(a, b) && lex_lt(b, a)),
    decreases a.len(),
{
    if a.len() == 0 || b.len() == 0 {
        if a.len() == 0 && b.len() == 0 {
            assert(a =~= b);
        }
    } else if a[0] != b[0] {
    } else {
        lemma_lex_total(a.drop_first(), b.drop_first());
        if a.drop_first() == b.drop_first() {
            assert(a =~= seq![a[0]] + a.drop_first());
            assert(b =~= seq![b[0]] + b.drop_first());
        }
    }
}

/// The order of the dictionary is transitive.
pub proof fn lemma_lex_transitive(a: Seq<char>, b: Seq<char>, c: Seq<char>)
    requires
        lex_lt(a, b),
        lex_lt(b, c),
    ensures
        lex_lt(a, c),
    decreases a.len(),
{
    if a.len() == 0 {
    } else if a[0] == b[0] && b[0] == c[0] {
        lemma_lex_transitive(a.drop_first(), b.drop_first(), c.drop_first());
    }
}

/// Whether `a` comes before `b` in the order of the dictionary.
pub fn lex_less(a: &[char], b: &[char]) -> (r: bool)
    ensures
        r == lex_lt(a@, b@),
{
    let mut i: usize = 0;
    assert(a@.skip(0) == a@);
    assert(b@.skip(0) == b@);
    while i < a.len() && i < b.len()
        invariant
            i <= a.len(),
            i <= b.len(),
            lex_lt(a@, b@) == lex_lt(a@.skip(i as int), b@.skip(i as int)),
        decreases a.len() - i,
    {
        proof {
            assert(a@.skip(i as int)[0] == a@[i as int]);
            assert(b@.skip(i as int)[0] == b@[i as int]);
            assert(a@.skip(i as int).drop_first() == a@.skip(i + 1));
            assert(b@.skip(i as int).drop_first() == b@.skip(i + 1));
        }
        if a[i] != b[i] {
            return a[i] < b[i];
        }
        i = i + 1;
    }
    i < b.len()
}

/// Whether the names `names` come in the order of the dictionary, none
/// twice.
pub open spec fn ascending(names: Seq<Seq<char>>) -> bool {
    forall|i: int, j: int|
        #![trigger names[i], names[j]]
        0 <= i < j < names.len() ==> lex_lt(names[i], names[j])
}

/// Puts a name into a list of names that is in order, where it is not in
/// it yet.
pub fn insert_name(names: &mut Vec<String>, name: &str)
    requires
        ascending(string_views(old(names)@)),
    ensures
        ascending(string_views(final(names)@)),
        forall|x: Seq<char>|
            string_views(final(names)@).contains(x) <==> (string_views(old(names)@).contains(x)
                || x == name@),
{
    let ghost before = string_views(names@);
    let chars = to_chars(name);
    let mut at: usize = 0;
    while at < names.len() && lex_less(&to_chars(names[at].as_str()), &chars)
        invariant
            at <= names.len(),
            chars@ == name@,
            before == string_views(names@),
            forall|k: int| 0 <= k < at ==> lex_lt(#[trigger] before[k], name@),
        decreases names.len() - at,
    {
        assert(before[at as int] == names@[at as int]@);
        at = at + 1;
    }
    if at < names.len() {
        assert(before[at as int] == names@[at as int]@);
        if str_eq(names[at].as_str(), name) {
            assert(before.contains(name@));
            return;
        }
    }
    names.insert(at, name.to_owned());
    proof {
        let after = string_views(names@);
        assert forall|k: int| 0 <= k < after.len() implies #[trigger] after[k] == if k < at {
            before[k]
        } else if k == at {
            name@
        } else {
            before[k - 1]
        } by {}
        if at < before.len() {
            lemma_lex_total(before[at as int], name@);
        }
        assert forall|i: int, j: int|
            #![trigger after[i], after[j]]
            0 <= i < j < after.len() implies lex_lt(after[i], after[j]) by {
            let oi = if i < at {
                i
            } else {
                i - 1
            };
            let oj = if j < at {
                j
            } else {
                j - 1
            };
            if i != at && j != at {
                assert(lex_lt(before[oi], before[oj]));
            } else if i == at {
                if oj > at {
                    assert(lex_lt(before[at as int], before[oj]));
                    lemma_lex_transitive(name@, before[at as int], before[oj]);
                }
            } else {
                assert(lex_lt(before[oi], name@));
            }
        }
        assert forall|x: Seq<char>| after.contains(x) <==> (before.contains(x) || x == name@) by {
            if after.contains(x) {
                let k = choose|k: int| 0 <= k < after.len() && after[k] == x;
                if k < at {
                    assert(before[k] == x);
                } else if k > at {
                    assert(before[k - 1] == x);
                }
            }
            if before.contains(x) {
                let k = choose|k: int| 0 <= k < before.len() && before[k] == x;
                if k < at {
                    assert(after[k] == x);
                } else {
                    assert(after[k + 1] == x);
                }
            }
            if x == name@ {
                assert(after[at as int] == x);
            }
        }
    }
}

/// What a `MetricSample` holds, as plain values.
pub struct MetricSampleView {
    pub timestamp_millis: u64,
    pub spec_name: Option<Seq<char>>,
    pub total_cpu_millicores: u64,
    pub total_memory_bytes: u64,
    pub pod_count: u32,
}

impl View for MetricSample {
    type V = MetricSampleView;

    open spec fn view(&self) -> MetricSampleView {
        MetricSampleView {
            timestamp_millis: self.timestamp_millis,
            spec_name: opt_text(self.spec_name),
            total_cpu_millicores: self.total_cpu_millicores,
            total_memory_bytes: self.total_memory_bytes,
            pod_count: self.pod_count,
        }
    }
}

/// The samples that were taken while the spec `name` ran, in order.
pub open spec fn samples_of(samples: Seq<MetricSampleView>, name: Seq<char>) -> Seq<
    MetricSampleView,
> {
    samples.filter(|s: MetricSampleView| s.spec_name == Some(name))
}

/// The largest number of pods among `samples`, or zero where there is no
/// sample.
pub open spec fn peak_pods(samples: Seq<MetricSampleView>) -> u32
    decreases samples.len(),
{
    if samples.len() == 0 {
        0
    } else {
        let rest = peak_pods(samples.drop_last());
        if samples.last().pod_count >= rest {
            samples.last().pod_count
        } else {
            rest
        }
    }
}

/// The time between the first and the last of `samples`, in whole seconds;
/// zero where there are fewer than two, or where the clock went back.
pub open spec fn span_seconds(samples: Seq<MetricSampleView>) -> u64 {
    if samples.len() >= 2 && samples.last().timestamp_millis >= samples[0].timestamp_millis {
        ((samples.last().timestamp_millis - samples[0].timestamp_millis) / 1000) as u64
    } else {
        0
    }
}

/// What a `SpecProfile` holds, as plain values.
pub struct SpecProfileView {
    pub spec_name: Seq<char>,
    pub duration_seconds: u64,
    pub samples: u32,
    pub cpu: UsageStats,
    pub memory: UsageStats,
    pub peak_pod_count: u32,
}

impl View for SpecProfile {
    type V = SpecProfileView;

    open spec fn view(&self) -> SpecProfileView {
        SpecProfileView {
            spec_name: self.spec_name@,
            duration_seconds: self.duration_seconds,
            samples: self.samples,
            cpu: self.cpu,
            memory: self.memory,
            peak_pod_count: self.peak_pod_count,
        }
    }
}

/// The profile of the spec `name`, from the samples that were taken while
/// it ran.
pub open spec fn profile_model(samples: Seq<MetricSampleView>, name: Seq<char>) -> SpecProfileView {
    let own = samples_of(samples, name);
    SpecProfileView {
        spec_name: name,
        duration_seconds: span_seconds(own),
        samples: if own.len() <= u32::MAX {
            own.len() as u32
        } else {
            u32::MAX
        },
        cpu: stats_model(Seq::new(own.len(), |i: int| own[i].total_cpu_millicores)),
        memory: stats_model(Seq::new(own.len(), |i: int| own[i].total_memory_bytes)),
        peak_pod_count: peak_pods(own),
    }
}

/// The profile of one spec.
pub fn profile_of(samples: &Vec<MetricSample>, name: &str) -> (r: SpecProfile)
    ensures
        r@ == profile_model(seq_view(samples@), name@),
{
    let ghost all = seq_view(samples@);
    let ghost own_of = |s: MetricSampleView| s.spec_name == Some(name@);
    let mut cpu: Vec<u64> = Vec::new();
    let mut memory: Vec<u64> = Vec::new();
    let mut first: u64 = 0;
    let mut last: u64 = 0;
    let mut peak: u32 = 0;
    let mut i: usize = 0;
    assert(all.take(0) == Seq::<MetricSampleView>::empty());
    assert(all.take(0).filter(own_of) =~= Seq::<MetricSampleView>::empty());
    while i < samples.len()
        invariant
            i <= samples.len(),
            all == seq_view(samples@),
            own_of == |s: MetricSampleView| s.spec_name == Some(name@),
            cpu.len() == all.take(i as int).filter(own_of).len(),
            memory.len() == cpu.len(),
            forall|j: int|
                0 <= j < cpu.len() ==> cpu@[j] == all.take(i as int).filter(
                    own_of,
                )[j].total_cpu_millicores && memory@[j] == all.take(i as int).filter(
                    own_of,
                )[j].total_memory_bytes,
            cpu.len() > 0 ==> first == all.take(i as int).filter(own_of)[0].timestamp_millis
                && last == all.take(i as int).filter(own_of).last().timestamp_millis,
            peak == peak_pods(all.take(i as int).filter(own_of)),
        decreases samples.len() - i,
    {
        let s = &samples[i];
        proof {
            assert(all.take(i + 1) == all.take(i as int).push(all[i as int]));
            lemma_filter_push(all.take(i as int), all[i as int], own_of);
            assert(all[i as int] == s@);
        }
        let named = match &s.spec_name {
            Some(n) => str_eq(n.as_str(), name),
            None => false,
        };
        if named {
            let ghost before = all.take(i as int).filter(own_of);
            assert(before.push(s@).drop_last() == before);
            if cpu.len() == 0 {
                first = s.timestamp_millis;
            }
            last = s.timestamp_millis;
            cpu.push(s.total_cpu_millicores);
            memory.push(s.total_memory_bytes);
            if s.pod_count >= peak {
                peak = s.pod_count;
            }
        }
        i = i + 1;
    }
    assert(all.take(samples.len() as int) == all);
    let ghost own = samples_of(all, name@);
    assert(cpu@ =~= Seq::new(own.len(), |i: int| own[i].total_cpu_millicores));
    assert(memory@ =~= Seq::new(own.len(), |i: int| own[i].total_memory_bytes));
    let duration_seconds = if cpu.len() >= 2 && last >= first {
        (last - first) / 1000
    } else {
        0
    };
    let count: u32 = if cpu.len() <= 0xFFFF_FFFF {
        cpu.len() as u32
    } else {
        u32::MAX
    };
    SpecProfile {
        spec_name: name.to_owned(),
        duration_seconds,
        samples: count,
        cpu: compute_stats(&cpu),
        memory: compute_stats(&memory),
        peak_pod_count: peak,
    }
}

/// Whether a sample among the first `n` of `samples` was taken while the
/// spec `name` ran.
pub open spec fn sampled(samples: Seq<MetricSampleView>, n: int, name: Seq<char>) -> bool {
    exists|i: int| 0 <= i < n && i < samples.len() && (#[trigger] samples[i]).spec_name == Some(name)
}

/// The names of the specs that samples were taken of, in the order of the
/// dictionary, each once.
pub fn sampled_specs(samples: &Vec<MetricSample>) -> (r: Vec<String>)
    ensures
        ascending(string_views(r@)),
        forall|x: Seq<char>|
            string_views(r@).contains(x) <==> sampled(
                seq_view(samples@),
                samples.len() as int,
                x,
            ),
{
    let ghost all = seq_view(samples@);
    let mut names: Vec<String> = Vec::new();
    let mut i: usize = 0;
    while i < samples.len()
        invariant
            i <= samples.len(),
            all == seq_view(samples@),
            ascending(string_views(names@)),
            forall|x: Seq<char>| string_views(names@).contains(x) <==> sampled(all, i as int, x),
        decreases samples.len() - i,
    {
        let ghost before = string_views(names@);
        assert(all[i as int] == samples@[i as int]@);
        match &samples[i].spec_name {
            Some(n) => {
                insert_name(&mut names, n.as_str());
                proof {
                    let after = string_views(names@);
                    assert forall|x: Seq<char>| after.contains(x) <==> sampled(
                        all,
                        i + 1,
                        x,
                    ) by {
                        if sampled(all, i + 1, x) {
                            let k = choose|k: int|
                                0 <= k < i + 1 && k < all.len() && all[k].spec_name == Some(x);
                            if k < i {
                                assert(sampled(all, i as int, x));
                            }
                        }
                        if sampled(all, i as int, x) {
                            let k = choose|k: int|
                                0 <= k < i && k < all.len() && all[k].spec_name == Some(x);
                            assert(0 <= k < i + 1 && all[k].spec_name == Some(x));
                        }
                        if x == n@ {
                            assert(all[i as int].spec_name == Some(x));
                        }
                    }
                }
            },
            None => {
                proof {
                    assert forall|x: Seq<char>| before.contains(x) <==> sampled(
                        all,
                        i + 1,
                        x,
                    ) by {
                        if sampled(all, i + 1, x) {
                            let k = choose|k: int|
                                0 <= k < i + 1 && k < all.len() && all[k].spec_name == Some(x);
                            assert(k < i);
                            assert(sampled(all, i as int, x));
                        }
                        if sampled(all, i as int, x) {
                            let k = choose|k: int|
                                0 <= k < i && k < all.len() && all[k].spec_name == Some(x);
                            assert(0 <= k < i + 1 && all[k].spec_name == Some(x));
                        }
                    }
                }
            },
        }
        i = i + 1;
    }
    names
}

/// The profiles of the specs that samples were taken of: one for each
/// spec, in the order of the specs' names.
pub fn build_spec_profiles(samples: &Vec<MetricSample>) -> (r: Vec<SpecProfile>)
    ensures
        ascending(Seq::new(r.len() as nat, |k: int| r@[k].spec_name@)),
        forall|k: int|
            0 <= k < r.len() ==> (#[trigger] r@[k])@ == profile_model(
                seq_view(samples@),
                r@[k].spec_name@,
            ) && sampled(seq_view(samples@), samples.len() as int, r@[k].spec_name@),
        forall|x: Seq<char>|
            sampled(seq_view(samples@), samples.len() as int, x) ==> Seq::new(
                r.len() as nat,
                |k: int| r@[k].spec_name@,
            ).contains(x),
{
    let names = sampled_specs(samples);
    let ghost nv = string_views(names@);
    let mut out: Vec<SpecProfile> = Vec::new();
    let mut i: usize = 0;
    while i < names.len()
        invariant
            i <= names.len(),
            nv == string_views(names@),
            out.len() == i,
            forall|k: int|
                0 <= k < i ==> (#[trigger] out@[k])@ == profile_model(seq_view(samples@), nv[k])
                    && out@[k].spec_name@ == nv[k],
        decreases names.len() - i,
    {
        assert(nv[i as int] == names@[i as int]@);
        out.push(profile_of(samples, names[i].as_str()));
        i = i + 1;
    }
    proof {
        let shown = Seq::new(out.len() as nat, |k: int| out@[k].spec_name@);
        assert(shown =~= nv);
        assert forall|k: int| 0 <= k < out.len() implies sampled(
            seq_view(samples@),
            samples.len() as int,
            (#[trigger] out@[k]).spec_name@,
        ) by {
            assert(nv.contains(nv[k]));
        }
    }
    out
}

} // verus!
