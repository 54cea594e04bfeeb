use ocp_midstreamer::perf::{parse_scenario, scenario_of_lowered, PerfScenario};

#[test]
fn test_perf_scenario_from_str() {
    assert_eq!("math".parse::<PerfScenario>().unwrap(), PerfScenario::Math);
    assert_eq!("build".parse::<PerfScenario>().unwrap(), PerfScenario::Build);
    assert_eq!("signing-ongoing".parse::<PerfScenario>().unwrap(), PerfScenario::SigningOngoing);
    assert_eq!("signing_ongoing".parse::<PerfScenario>().unwrap(), PerfScenario::SigningOngoing);
    assert_eq!("cluster-resolver".parse::<PerfScenario>().unwrap(), PerfScenario::ClusterResolver);
    assert_eq!("cluster_resolver".parse::<PerfScenario>().unwrap(), PerfScenario::ClusterResolver);
    assert!("invalid".parse::<PerfScenario>().is_err());
}

#[test]
fn test_perf_scenario_as_env_value() {
    assert_eq!(PerfScenario::Math.as_env_value(), "math");
    assert_eq!(PerfScenario::Build.as_env_value(), "build");
    assert_eq!(PerfScenario::SigningOngoing.as_env_value(), "signing-ongoing");
    assert_eq!(PerfScenario::ClusterResolver.as_env_value(), "cluster-resolver");
}

#[test]
fn parse_scenario_ignores_case() {
    assert_eq!(parse_scenario("MATH"), Ok(PerfScenario::Math));
    assert_eq!(parse_scenario("Signing-Ongoing"), Ok(PerfScenario::SigningOngoing));
}

#[test]
fn parse_scenario_error_quotes_the_name_as_given() {
    assert_eq!(
        parse_scenario("Nope"),
        Err("Unknown scenario 'Nope'. Valid: math, build, signing-ongoing, cluster-resolver"
            .to_string())
    );
}

#[test]
fn scenario_of_lowered_wants_lowercase() {
    assert_eq!(scenario_of_lowered("build", "BUILD"), Ok(PerfScenario::Build));
    assert_eq!(
        scenario_of_lowered("BUILD", "BUILD"),
        Err("Unknown scenario 'BUILD'. Valid: math, build, signing-ongoing, cluster-resolver"
            .to_string())
    );
}
