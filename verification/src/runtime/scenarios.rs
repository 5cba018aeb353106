//! Limits on the scenarios that the node is given.
use std::time::Duration;
use vstd::prelude::*;
use crate::config::app::AppConfig;
#[allow(unused_imports)]
use crate::config::app::target_problem;
#[allow(unused_imports)]
use crate::config::error::Problem;
use crate::config::rate::Rate;
use crate::coordination::RepeatPolicy;
use crate::durations::shorter;
#[allow(unused_imports)]
use crate::durations::{millis, nanos};
#[allow(unused_imports)]
use crate::kafka::settings::reports;
use crate::text::{
    blank, byte_len, concat2, concat3, concat4, concat5, copy_str, decimal_u128, decimal_usize,
};
#[allow(unused_imports)]
use crate::text::{decimal, is_blank, opt_view, utf8_len};

verus! {

/// A step of a scenario.
pub struct StepFacts {
    pub name: String,
    /// The endpoint that the step targets in place of the scenario's.
    pub endpoint_override: Option<String>,
    /// Whether the step calls a service that is known by its descriptors only.
    pub dynamic: bool,
}

/// A scenario. What depends on floating-point arithmetic is given: the rate in words,
/// with and without a fixed number of digits, and whether less than one execution falls
/// into the load window.
pub struct ScenarioFacts {
    pub name: String,
    pub endpoint: String,
    pub steps: Vec<StepFacts>,
    pub duration: Duration,
    pub repeat: RepeatPolicy,
    pub rate: Rate,
    pub rate_text: String,
    pub rate_text_fixed: String,
    pub below_one_arrival: bool,
    pub max_concurrency: usize,
    /// What is wrong with the name as a part of identities.
    pub identity_error: Option<String>,
}

/// Limits on a source of scenarios, and the largest rate in words.
pub struct ScenarioLimits {
    pub max_scenarios: usize,
    pub max_name_bytes: usize,
    pub max_steps: usize,
    pub max_rate_text: String,
}

/// A setting's problem in words.
pub open spec fn problem_words(p: Problem) -> Seq<char> {
    "invalid configuration for "@ + p.0 + ": "@ + p.1
}

/// What stands before a problem of a scenario.
pub open spec fn of_scenario(name: Seq<char>, problem: Seq<char>) -> Seq<char> {
    "scenario '"@ + name + "'"@ + problem
}

fn scenario_error(name: &str, problem: &str) -> (text: String)
    ensures
        text@ == of_scenario(name@, problem@),
{
    concat4("scenario '", name, "'", problem)
}

/// What is wrong with the shape of a scenario: its name and its number of steps.
pub open spec fn shape_problem(s: ScenarioFacts, l: ScenarioLimits) -> Option<Seq<char>> {
    if is_blank(s.name@) || utf8_len(s.name@) > l.max_name_bytes {
        Some(
            "scenario name must be non-empty and at most "@ + decimal(l.max_name_bytes as nat)
                + " bytes"@,
        )
    } else if s.steps@.len() == 0 || s.steps@.len() > l.max_steps {
        Some(
            of_scenario(
                s.name@,
                " must contain between 1 and "@ + decimal(l.max_steps as nat) + " steps"@,
            ),
        )
    } else if s.identity_error is Some {
        Some(of_scenario(s.name@, ": "@ + s.identity_error->0@))
    } else {
        None
    }
}

/// What is wrong with the times of a scenario: windows must not overlap, nor be longer
/// than allowed, nor too short for one execution.
pub open spec fn time_problem(c: AppConfig, s: ScenarioFacts) -> Option<Seq<char>> {
    if s.repeat is Every && nanos(s.repeat->Every_0) < nanos(s.duration) {
        Some(
            of_scenario(
                s.name@,
                " repeat interval "@ + decimal(millis(s.repeat->Every_0))
                    + " ms is shorter than its "@ + decimal(millis(s.duration))
                    + " ms load window and would overlap global concurrency budgets"@,
            ),
        )
    } else if nanos(s.duration) > nanos(c.max_duration) {
        Some(
            of_scenario(
                s.name@,
                " duration "@ + decimal(millis(s.duration))
                    + " ms exceeds PULSE_MAX_DURATION_MS="@ + decimal(millis(c.max_duration)),
            ),
        )
    } else if c.startup_burst == 0 && s.below_one_arrival {
        Some(
            of_scenario(
                s.name@,
                " window is shorter than one "@ + s.rate_text_fixed@
                    + " SPS inter-arrival interval; increase duration or explicitly opt into PULSE_STARTUP_BURST"@,
            ),
        )
    } else {
        None
    }
}

/// What is wrong with the load of a scenario: its rate, its concurrency and its burst.
pub open spec fn load_problem(c: AppConfig, s: ScenarioFacts, l: ScenarioLimits) -> Option<
    Seq<char>,
> {
    if !s.rate.is_positive() || s.rate.greater(c.max_scenarios_per_sec) {
        Some(
            of_scenario(
                s.name@,
                " rate "@ + s.rate_text@ + " is outside (0, PULSE_MAX_SCENARIOS_PER_SEC="@
                    + l.max_rate_text@ + "]"@,
            ),
        )
    } else if s.max_concurrency == 0 || s.max_concurrency > c.max_concurrency {
        Some(
            of_scenario(
                s.name@,
                " concurrency "@ + decimal(s.max_concurrency as nat)
                    + " is outside [1, PULSE_MAX_CONCURRENCY="@ + decimal(c.max_concurrency as nat)
                    + "]"@,
            ),
        )
    } else if c.startup_burst > s.max_concurrency {
        Some(
            of_scenario(
                s.name@,
                " startup burst "@ + decimal(c.startup_burst as nat)
                    + " exceeds its max concurrency "@ + decimal(s.max_concurrency as nat),
            ),
        )
    } else {
        None
    }
}

/// What is wrong with the targets of steps, the first that is wrong.
pub open spec fn steps_problem(c: AppConfig, name: Seq<char>, steps: Seq<StepFacts>) -> Option<
    Seq<char>,
>
    decreases steps.len(),
{
    if steps.len() == 0 {
        None
    } else {
        let s = steps[0];
        match s.endpoint_override {
            Some(endpoint) => match target_problem(c, endpoint@) {
                Some(p) => Some(
                    of_scenario(name, " step '"@ + s.name@ + "': "@ + problem_words(p)),
                ),
                None => steps_problem(c, name, steps.skip(1)),
            },
            None => steps_problem(c, name, steps.skip(1)),
        }
    }
}

/// What is wrong with a scenario.
pub open spec fn scenario_problem(c: AppConfig, s: ScenarioFacts, l: ScenarioLimits) -> Option<
    Seq<char>,
> {
    if shape_problem(s, l) is Some {
        shape_problem(s, l)
    } else if time_problem(c, s) is Some {
        time_problem(c, s)
    } else if load_problem(c, s, l) is Some {
        load_problem(c, s, l)
    } else {
        match target_problem(c, s.endpoint@) {
            Some(p) => Some(of_scenario(s.name@, ": "@ + problem_words(p))),
            None => steps_problem(c, s.name@, s.steps@),
        }
    }
}

/// What is wrong with scenarios, the first that is wrong.
pub open spec fn first_problem(c: AppConfig, scenarios: Seq<ScenarioFacts>, l: ScenarioLimits) -> Option<
    Seq<char>,
>
    decreases scenarios.len(),
{
    if scenarios.len() == 0 {
        None
    } else if scenario_problem(c, scenarios[0], l) is Some {
        scenario_problem(c, scenarios[0], l)
    } else {
        first_problem(c, scenarios.skip(1), l)
    }
}

/// What is wrong with a source of scenarios.
pub open spec fn source_problem(c: AppConfig, scenarios: Seq<ScenarioFacts>, l: ScenarioLimits) -> Option<
    Seq<char>,
> {
    if scenarios.len() == 0 {
        Some("scenario source contains zero scenarios"@)
    } else if scenarios.len() > l.max_scenarios {
        Some(
            "scenario source contains "@ + decimal(scenarios.len()) + " scenarios; maximum is "@
                + decimal(l.max_scenarios as nat),
        )
    } else {
        first_problem(c, scenarios, l)
    }
}

fn check_shape(s: &ScenarioFacts, l: &ScenarioLimits) -> (r: Result<(), String>)
    ensures
        reports(r, shape_problem(*s, *l)),
{
    if blank(&s.name) || byte_len(&s.name) > l.max_name_bytes {
        return Err(
            concat3(
                "scenario name must be non-empty and at most ",
                &decimal_usize(l.max_name_bytes),
                " bytes",
            ),
        );
    }
    if s.steps.len() == 0 || s.steps.len() > l.max_steps {
        return Err(
            scenario_error(
                &s.name,
                &concat3(" must contain between 1 and ", &decimal_usize(l.max_steps), " steps"),
            ),
        );
    }
    match &s.identity_error {
        Some(e) => Err(scenario_error(&s.name, &concat2(": ", e))),
        None => Ok(()),
    }
}

fn check_times(c: &AppConfig, s: &ScenarioFacts) -> (r: Result<(), String>)
    ensures
        reports(r, time_problem(*c, *s)),
{
    if let RepeatPolicy::Every(interval) = &s.repeat {
        if shorter(*interval, s.duration) {
            return Err(
                scenario_error(
                    &s.name,
                    &concat5(
                        " repeat interval ",
                        &decimal_u128(interval.as_millis()),
                        " ms is shorter than its ",
                        &decimal_u128(s.duration.as_millis()),
                        " ms load window and would overlap global concurrency budgets",
                    ),
                ),
            );
        }
    }
    if shorter(c.max_duration, s.duration) {
        return Err(
            scenario_error(
                &s.name,
                &concat4(
                    " duration ",
                    &decimal_u128(s.duration.as_millis()),
                    " ms exceeds PULSE_MAX_DURATION_MS=",
                    &decimal_u128(c.max_duration.as_millis()),
                ),
            ),
        );
    }
    if c.startup_burst == 0 && s.below_one_arrival {
        return Err(
            scenario_error(
                &s.name,
                &concat3(
                    " window is shorter than one ",
                    &s.rate_text_fixed,
                    " SPS inter-arrival interval; increase duration or explicitly opt into PULSE_STARTUP_BURST",
                ),
            ),
        );
    }
    Ok(())
}

fn check_load(c: &AppConfig, s: &ScenarioFacts, l: &ScenarioLimits) -> (r: Result<(), String>)
    ensures
        reports(r, load_problem(*c, *s, *l)),
{
    if !s.rate.positive() || s.rate.is_greater(c.max_scenarios_per_sec) {
        return Err(
            scenario_error(
                &s.name,
                &concat5(
                    " rate ",
                    &s.rate_text,
                    " is outside (0, PULSE_MAX_SCENARIOS_PER_SEC=",
                    &l.max_rate_text,
                    "]",
                ),
            ),
        );
    }
    if s.max_concurrency == 0 || s.max_concurrency > c.max_concurrency {
        return Err(
            scenario_error(
                &s.name,
                &concat5(
                    " concurrency ",
                    &decimal_usize(s.max_concurrency),
                    " is outside [1, PULSE_MAX_CONCURRENCY=",
                    &decimal_usize(c.max_concurrency),
                    "]",
                ),
            ),
        );
    }
    if c.startup_burst > s.max_concurrency {
        return Err(
            scenario_error(
                &s.name,
                &concat4(
                    " startup burst ",
                    &decimal_usize(c.startup_burst),
                    " exceeds its max concurrency ",
                    &decimal_usize(s.max_concurrency),
                ),
            ),
        );
    }
    Ok(())
}

fn check_targets(c: &AppConfig, s: &ScenarioFacts) -> (r: Result<(), String>)
    ensures
        reports(
            r,
            match target_problem(*c, s.endpoint@) {
                Some(p) => Some(of_scenario(s.name@, ": "@ + problem_words(p))),
                None => steps_problem(*c, s.name@, s.steps@),
            },
        ),
{
    if let Err(e) = c.validate_target_endpoint(&s.endpoint) {
        return Err(scenario_error(&s.name, &concat2(": ", &e.message())));
    }
    let mut i: usize = 0;
    assert(s.steps@.skip(0) =~= s.steps@);
    while i < s.steps.len()
        invariant
            i <= s.steps@.len(),
            target_problem(*c, s.endpoint@) is None,
            steps_problem(*c, s.name@, s.steps@.skip(i as int)) == steps_problem(
                *c,
                s.name@,
                s.steps@,
            ),
        decreases s.steps@.len() - i,
    {
        let step: &StepFacts = &s.steps[i];
        assert(s.steps@.skip(i as int)[0] == *step);
        assert(s.steps@.skip(i as int).skip(1) =~= s.steps@.skip(i + 1));
        if let Some(endpoint) = &step.endpoint_override {
            if let Err(e) = c.validate_target_endpoint(endpoint) {
                return Err(
                    scenario_error(
                        &s.name,
                        &concat4(" step '", &step.name, "': ", &e.message()),
                    ),
                );
            }
        }
        i += 1;
    }
    Ok(())
}

fn check_scenario(c: &AppConfig, s: &ScenarioFacts, l: &ScenarioLimits) -> (r: Result<(), String>)
    ensures
        reports(r, scenario_problem(*c, *s, *l)),
{
    check_shape(s, l)?;
    check_times(c, s)?;
    check_load(c, s, l)?;
    check_targets(c, s)
}

/// Checks a source of scenarios.
pub fn validate_scenario_limits(
    config: &AppConfig,
    scenarios: &Vec<ScenarioFacts>,
    limits: &ScenarioLimits,
) -> (r: Result<(), String>)
    ensures
        reports(r, source_problem(*config, scenarios@, *limits)),
{
    if scenarios.len() == 0 {
        return Err(copy_str("scenario source contains zero scenarios"));
    }
    if scenarios.len() > limits.max_scenarios {
        return Err(
            concat4(
                "scenario source contains ",
                &decimal_usize(scenarios.len()),
                " scenarios; maximum is ",
                &decimal_usize(limits.max_scenarios),
            ),
        );
    }
    let mut i: usize = 0;
    assert(scenarios@.skip(0) =~= scenarios@);
    while i < scenarios.len()
        invariant
            i <= scenarios@.len(),
            source_problem(*config, scenarios@, *limits) == first_problem(
                *config,
                scenarios@,
                *limits,
            ),
            first_problem(*config, scenarios@.skip(i as int), *limits) == first_problem(
                *config,
                scenarios@,
                *limits,
            ),
        decreases scenarios@.len() - i,
    {
        assert(scenarios@.skip(i as int)[0] == scenarios@[i as int]);
        assert(scenarios@.skip(i as int).skip(1) =~= scenarios@.skip(i + 1));
        check_scenario(config, &scenarios[i], limits)?;
        i += 1;
    }
    Ok(())
}

/// Every scenario of a source that was accepted keeps the limits: it has a name within
/// its bytes, its windows do not overlap and are long enough for one arrival unless a
/// burst was asked for, its rate and its concurrency are within those of the node, a
/// burst fits its concurrency, and all its targets are allowed.
pub proof fn lemma_accepted_scenarios_keep_limits(
    c: AppConfig,
    scenarios: Seq<ScenarioFacts>,
    l: ScenarioLimits,
    i: int,
)
    requires
        source_problem(c, scenarios, l) is None,
        0 <= i < scenarios.len(),
    ensures
        ({
            let s = scenarios[i];
            &&& scenarios.len() <= l.max_scenarios
            &&& !is_blank(s.name@) && utf8_len(s.name@) <= l.max_name_bytes
            &&& s.identity_error is None
            &&& 1 <= s.steps@.len() <= l.max_steps
            &&& c.startup_burst == 0 ==> !s.below_one_arrival
            &&& s.repeat is Every ==> nanos(s.repeat->Every_0) >= nanos(s.duration)
            &&& nanos(s.duration) <= nanos(c.max_duration)
            &&& s.rate.is_positive() && !s.rate.greater(c.max_scenarios_per_sec)
            &&& 1 <= s.max_concurrency <= c.max_concurrency
            &&& c.startup_burst <= s.max_concurrency
            &&& target_problem(c, s.endpoint@) is None
            &&& forall|k: int|
                0 <= k < s.steps@.len() && (#[trigger] s.steps@[k]).endpoint_override is Some
                    ==> target_problem(c, s.steps@[k].endpoint_override->0@) is None
        }),
{
    lemma_none_is_wrong(c, scenarios, l, i);
    let s = scenarios[i];
    assert forall|k: int|
        0 <= k < s.steps@.len() && (#[trigger] s.steps@[k]).endpoint_override is Some implies target_problem(
        c,
        s.steps@[k].endpoint_override->0@,
    ) is None by {
        lemma_no_step_is_wrong(c, s.name@, s.steps@, k);
    }
}

proof fn lemma_none_is_wrong(c: AppConfig, scenarios: Seq<ScenarioFacts>, l: ScenarioLimits, i: int)
    requires
        first_problem(c, scenarios, l) is None,
        0 <= i < scenarios.len(),
    ensures
        scenario_problem(c, scenarios[i], l) is None,
    decreases scenarios.len(),
{
    if i > 0 {
        lemma_none_is_wrong(c, scenarios.skip(1), l, i - 1);
        assert(scenarios.skip(1)[i - 1] == scenarios[i]);
    }
}

proof fn lemma_no_step_is_wrong(c: AppConfig, name: Seq<char>, steps: Seq<StepFacts>, k: int)
    requires
        steps_problem(c, name, steps) is None,
        0 <= k < steps.len(),
    ensures
        steps[k].endpoint_override is Some ==> target_problem(
            c,
            steps[k].endpoint_override->0@,
        ) is None,
    decreases steps.len(),
{
    if k > 0 {
        lemma_no_step_is_wrong(c, name, steps.skip(1), k - 1);
        assert(steps.skip(1)[k - 1] == steps[k]);
    }
}

} // verus!
