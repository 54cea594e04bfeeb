//! Performance test scenarios.

use vstd::prelude::*;
use crate::text::{concat3, lowercase, str_eq, to_lowercase};

verus! {

/// The performance test scenarios that can be run.
#[derive(Debug, Clone, Copy, PartialEq, Eq, Structural)]
pub enum PerfScenario {
    /// Basic pipelines: fast, good for trying out a setup.
    Math,
    /// Pipelines that build.
    Build,
    /// Continuous signing.
    SigningOngoing,
    /// Pipelines that go through the cluster resolver.
    ClusterResolver,
}

/// The message for a name that is no scenario.
pub open spec fn unknown_scenario_message(given: Seq<char>) -> Seq<char> {
    "Unknown scenario '"@ + given
        + "'. Valid: math, build, signing-ongoing, cluster-resolver"@
}

/// The scenario that a name in lowercase stands for.
pub open spec fn scenario_model(lower: Seq<char>) -> Option<PerfScenario> {
    if lower == "math"@ {
        Some(PerfScenario::Math)
    } else if lower == "build"@ {
        Some(PerfScenario::Build)
    } else if lower == "signing-ongoing"@ || lower == "signing_ongoing"@ {
        Some(PerfScenario::SigningOngoing)
    } else if lower == "cluster-resolver"@ || lower == "cluster_resolver"@ {
        Some(PerfScenario::ClusterResolver)
    } else {
        None
    }
}

/// The scenario that `lower`, a name in lowercase, stands for; the error
/// for a name that is none quotes the name as it was given.
pub fn scenario_of_lowered(lower: &str, given: &str) -> (r: Result<PerfScenario, String>)
    ensures
        match scenario_model(lower@) {
            Some(s) => r == Ok::<PerfScenario, String>(s),
            None => r is Err && r->Err_0@ == unknown_scenario_message(given@),
        },
{
    if str_eq(lower, "math") {
        Ok(PerfScenario::Math)
    } else if str_eq(lower, "build") {
        Ok(PerfScenario::Build)
    } else if str_eq(lower, "signing-ongoing") || str_eq(lower, "signing_ongoing") {
        Ok(PerfScenario::SigningOngoing)
    } else if str_eq(lower, "cluster-resolver") || str_eq(lower, "cluster_resolver") {
        Ok(PerfScenario::ClusterResolver)
    } else {
        Err(
            concat3(
                "Unknown scenario '",
                given,
                "'. Valid: math, build, signing-ongoing, cluster-resolver",
            ),
        )
    }
}

/// Reads the name of a scenario, in any case.
pub fn parse_scenario(s: &str) -> (r: Result<PerfScenario, String>)
    ensures
        match scenario_model(lowercase(s@)) {
            Some(m) => r == Ok::<PerfScenario, String>(m),
            None => r is Err && r->Err_0@ == unknown_scenario_message(s@),
        },
{
    let lower = to_lowercase(s);
    scenario_of_lowered(lower.as_str(), s)
}

impl std::str::FromStr for PerfScenario {
    type Err = String;

    fn from_str(s: &str) -> (r: Result<Self, String>)
        ensures
            match scenario_model(lowercase(s@)) {
                Some(m) => r == Ok::<PerfScenario, String>(m),
                None => r is Err && r->Err_0@ == unknown_scenario_message(s@),
            },
    {
        parse_scenario(s)
    }
}

impl PerfScenario {
    /// The name under which the test scripts know the scenario.
    pub fn as_env_value(&self) -> (r: &'static str)
        ensures
            r@ == match self {
                PerfScenario::Math => "math"@,
                PerfScenario::Build => "build"@,
                PerfScenario::SigningOngoing => "signing-ongoing"@,
                PerfScenario::ClusterResolver => "cluster-resolver"@,
            },
    {
        match self {
            PerfScenario::Math => "math",
            PerfScenario::Build => "build",
            PerfScenario::SigningOngoing => "signing-ongoing",
            PerfScenario::ClusterResolver => "cluster-resolver",
        }
    }
}

} // verus!
