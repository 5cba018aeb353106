//! Which scenarios the node starts with.
use std::time::Duration;
use vstd::prelude::*;
use super::scenarios::ScenarioFacts;
#[allow(unused_imports)]
use super::scenarios::StepFacts;
use crate::durations::longest;
#[allow(unused_imports)]
use crate::durations::{max_nanos, millis, nanos};
#[allow(unused_imports)]
use crate::kafka::settings::reports;
use crate::text::{
    concat2, concat3, concat4, concat5, copy_str, decimal_u128, decimal_usize, join, str_eq,
};
#[allow(unused_imports)]
use crate::text::{decimal, joined, opt_view, views};

verus! {

// ---------------------------------------------------------------------------
// Targets
// ---------------------------------------------------------------------------

/// Texts with one more, where it is not there yet.
pub open spec fn with_text(known: Seq<Seq<char>>, text: Seq<char>) -> Seq<Seq<char>> {
    if known.contains(text) {
        known
    } else {
        known.push(text)
    }
}

/// The endpoint that a step targets.
pub open spec fn step_target(step: StepFacts, default: Seq<char>) -> Seq<char> {
    match step.endpoint_override {
        Some(endpoint) => endpoint@,
        None => default,
    }
}

/// The endpoints known with those that steps target whose services are known by their
/// descriptors only.
pub open spec fn with_targets(known: Seq<Seq<char>>, steps: Seq<StepFacts>, default: Seq<char>) -> Seq<
    Seq<char>,
>
    decreases steps.len(),
{
    if steps.len() == 0 {
        known
    } else if steps[0].dynamic {
        with_targets(with_text(known, step_target(steps[0], default)), steps.skip(1), default)
    } else {
        with_targets(known, steps.skip(1), default)
    }
}

/// The endpoints that a scenario needs a gateway to, each once.
pub open spec fn scenario_targets(s: ScenarioFacts) -> Seq<Seq<char>> {
    with_targets(Seq::empty(), s.steps@, s.endpoint@)
}

fn add_text(known: &mut Vec<String>, text: &str)
    ensures
        views(final(known)@) == with_text(views(old(known)@), text@),
{
    let ghost before = views(known@);
    let mut i: usize = 0;
    while i < known.len()
        invariant
            i <= known@.len(),
            before == views(old(known)@),
            before == views(known@),
            forall|k: int| 0 <= k < i ==> (#[trigger] known@[k])@ != text@,
        decreases known@.len() - i,
    {
        if str_eq(&known[i], text) {
            assert(before[i as int] == text@);
            return;
        }
        i += 1;
    }
    proof {
        if before.contains(text@) {
            let k = before.index_of(text@);
            assert(before[k] == known@[k]@);
        }
    }
    known.push(copy_str(text));
    assert(views(known@) =~= before.push(text@));
}

/// The endpoints that a scenario needs a gateway to, each once.
pub fn required_endpoints(scenario: &ScenarioFacts) -> (endpoints: Vec<String>)
    ensures
        views(endpoints@) == scenario_targets(*scenario),
{
    let mut known: Vec<String> = Vec::new();
    let mut i: usize = 0;
    assert(views(known@) =~= Seq::<Seq<char>>::empty());
    assert(scenario.steps@.skip(0) =~= scenario.steps@);
    while i < scenario.steps.len()
        invariant
            i <= scenario.steps@.len(),
            with_targets(views(known@), scenario.steps@.skip(i as int), scenario.endpoint@)
                == scenario_targets(*scenario),
        decreases scenario.steps@.len() - i,
    {
        assert(scenario.steps@.skip(i as int)[0] == scenario.steps@[i as int]);
        assert(scenario.steps@.skip(i as int).skip(1) =~= scenario.steps@.skip(i + 1));
        if scenario.steps[i].dynamic {
            match &scenario.steps[i].endpoint_override {
                Some(endpoint) => add_text(&mut known, endpoint),
                None => add_text(&mut known, &scenario.endpoint),
            }
        }
        i += 1;
    }
    known
}

proof fn lemma_targets_kept(known: Seq<Seq<char>>, steps: Seq<StepFacts>, default: Seq<char>)
    requires
        known.no_duplicates(),
    ensures
        with_targets(known, steps, default).no_duplicates(),
        forall|e: Seq<char>|
            known.contains(e) ==> #[trigger] with_targets(known, steps, default).contains(e),
        forall|i: int|
            0 <= i < steps.len() && (#[trigger] steps[i]).dynamic ==> with_targets(
                known,
                steps,
                default,
            ).contains(step_target(steps[i], default)),
    decreases steps.len(),
{
    if steps.len() > 0 {
        let next = if steps[0].dynamic {
            with_text(known, step_target(steps[0], default))
        } else {
            known
        };
        assert(next.no_duplicates());
        assert forall|e: Seq<char>| known.contains(e) implies next.contains(e) by {
            let k = known.index_of(e);
            assert(next[k] == e);
        }
        if steps[0].dynamic {
            let t = step_target(steps[0], default);
            if !known.contains(t) {
                assert(next[known.len() as int] == t);
            }
            assert(next.contains(t));
        }
        lemma_targets_kept(next, steps.skip(1), default);
        let all = with_targets(known, steps, default);
        assert forall|i: int| 0 <= i < steps.len() && (#[trigger] steps[i]).dynamic implies
            all.contains(step_target(steps[i], default)) by {
            if i > 0 {
                assert(steps.skip(1)[i - 1] == steps[i]);
            }
        }
    }
}

/// A scenario needs every endpoint that a step with dynamic calls targets, each once.
pub proof fn lemma_every_target_is_required(s: ScenarioFacts)
    ensures
        scenario_targets(s).no_duplicates(),
        forall|i: int|
            0 <= i < s.steps@.len() && (#[trigger] s.steps@[i]).dynamic ==> scenario_targets(
                s,
            ).contains(step_target(s.steps@[i], s.endpoint@)),
{
    lemma_targets_kept(Seq::empty(), s.steps@, s.endpoint@);
}

/// The descriptor set that a scenario with dynamic calls needs.
pub fn required_descriptor_set(scenario: &str, path: Option<String>) -> (r: Result<String, String>)
    ensures
        match path {
            Some(p) => r matches Ok(q) && q@ == p@,
            None => r matches Err(e) && e@ == "scenario '"@ + scenario@
                + "' uses dynamic gRPC but PULSE_GRPC_DESCRIPTOR_SET is unset"@,
        },
{
    match path {
        Some(p) => Ok(p),
        None => Err(
            concat3(
                "scenario '",
                scenario,
                "' uses dynamic gRPC but PULSE_GRPC_DESCRIPTOR_SET is unset",
            ),
        ),
    }
}

/// That a descriptor set could not be read.
pub fn unreadable_descriptor_set(path: &str, error: &str) -> (text: String)
    ensures
        text@ == "could not read gRPC descriptor set '"@ + path@ + "': "@ + error@,
{
    concat4("could not read gRPC descriptor set '", path, "': ", error)
}

/// That a step is not valid.
pub fn invalid_step(scenario: &str, step: &str, error: &str) -> (text: String)
    ensures
        text@ == "scenario '"@ + scenario@ + "' step '"@ + step@ + (
        "' failed startup validation: "@ + error@),
{
    let head = concat4("scenario '", scenario, "' step '", step);
    concat2(&head, &concat2("' failed startup validation: ", error))
}

// ---------------------------------------------------------------------------
// Plans
// ---------------------------------------------------------------------------

/// The scenarios that can start, by their places, given what is wrong with each, or why
/// the node cannot start: the first problem, where it must not start with a part.
pub open spec fn started(problems: Seq<Option<Seq<char>>>, partial: bool) -> Result<
    Seq<nat>,
    Seq<char>,
>
    decreases problems.len(),
{
    if problems.len() == 0 {
        Ok(Seq::empty())
    } else {
        match started(problems.drop_last(), partial) {
            Err(e) => Err(e),
            Ok(kept) => match problems.last() {
                None => Ok(kept.push((problems.len() - 1) as nat)),
                Some(e) => if partial {
                    Ok(kept)
                } else {
                    Err(e)
                },
            },
        }
    }
}

/// The problems that there are.
pub open spec fn found(problems: Seq<Option<Seq<char>>>) -> Seq<Seq<char>>
    decreases problems.len(),
{
    if problems.len() == 0 {
        Seq::empty()
    } else {
        match problems.last() {
            None => found(problems.drop_last()),
            Some(e) => found(problems.drop_last()).push(e),
        }
    }
}

/// The scenarios that the node starts with: at least one.
pub open spec fn startable(problems: Seq<Option<Seq<char>>>, partial: bool) -> Result<
    Seq<nat>,
    Seq<char>,
> {
    match started(problems, partial) {
        Err(e) => Err(e),
        Ok(kept) => if kept.len() == 0 {
            let failures = found(problems);
            Err(
                "no valid scenarios remain after initialization"@ + if failures.len() == 0 {
                    Seq::empty()
                } else {
                    ": "@ + joined(failures, "; "@)
                },
            )
        } else {
            Ok(kept)
        },
    }
}

/// What is wrong with each scenario.
pub open spec fn problem_views(problems: Seq<Option<String>>) -> Seq<Option<Seq<char>>> {
    problems.map_values(|p: Option<String>| opt_view(p))
}

/// Places as numbers.
pub open spec fn places(kept: Seq<usize>) -> Seq<nat> {
    kept.map_values(|k: usize| k as nat)
}

proof fn lemma_started_stays(problems: Seq<Option<Seq<char>>>, partial: bool, k: int)
    requires
        0 <= k <= problems.len(),
        started(problems.take(k), partial) is Err,
    ensures
        started(problems, partial) == started(problems.take(k), partial),
    decreases problems.len(),
{
    if k < problems.len() {
        assert(problems.drop_last().take(k) =~= problems.take(k));
        lemma_started_stays(problems.drop_last(), partial, k);
    } else {
        assert(problems.take(k) =~= problems);
    }
}

/// The scenarios that the node starts with, by their places, given what is wrong with
/// each.
pub fn startable_plans(problems: &Vec<Option<String>>, allow_partial_start: bool) -> (r: Result<
    Vec<usize>,
    String,
>)
    ensures
        match r {
            Ok(kept) => startable(problem_views(problems@), allow_partial_start) == Ok::<
                _,
                Seq<char>,
            >(places(kept@)),
            Err(e) => startable(problem_views(problems@), allow_partial_start) == Err::<
                Seq<nat>,
                _,
            >(e@),
        },
{
    let ghost all = problem_views(problems@);
    let mut kept: Vec<usize> = Vec::new();
    let mut failures: Vec<String> = Vec::new();
    let mut i: usize = 0;
    assert(places(kept@) =~= Seq::<nat>::empty());
    assert(views(failures@) =~= Seq::<Seq<char>>::empty());
    while i < problems.len()
        invariant
            i <= problems@.len(),
            all == problem_views(problems@),
            started(all.take(i as int), allow_partial_start) == Ok::<_, Seq<char>>(
                places(kept@),
            ),
            views(failures@) == found(all.take(i as int)),
        decreases problems@.len() - i,
    {
        let ghost next = all.take(i + 1);
        assert(next.drop_last() =~= all.take(i as int));
        assert(next.last() == opt_view(problems@[i as int]));
        match &problems[i] {
            None => {
                let ghost before = places(kept@);
                kept.push(i);
                assert(places(kept@) =~= before.push(i as nat));
            },
            Some(e) => {
                if !allow_partial_start {
                    proof {
                        lemma_started_stays(all, allow_partial_start, i + 1);
                    }
                    return Err(copy_str(e));
                }
                let ghost before = views(failures@);
                failures.push(copy_str(e));
                assert(views(failures@) =~= before.push(e@));
            },
        }
        i += 1;
    }
    assert(all.take(i as int) =~= all);
    if kept.len() == 0 {
        let detail = if failures.len() == 0 {
            String::new()
        } else {
            concat2(": ", &join(&failures, "; "))
        };
        assert(places(kept@).len() == 0);
        return Err(concat2("no valid scenarios remain after initialization", &detail));
    }
    Ok(kept)
}

/// The node starts with every scenario that nothing is wrong with, and, where it must
/// not start with a part, with all or not at all.
pub proof fn lemma_started_plans_are_sound(problems: Seq<Option<Seq<char>>>, partial: bool)
    ensures
        startable(problems, partial) matches Ok(kept) ==> {
            &&& kept.len() > 0
            &&& forall|k: nat|
                #[trigger] kept.contains(k) <==> k < problems.len() && problems[k as int] is None
            &&& !partial ==> kept.len() == problems.len()
        },
{
    if started(problems, partial) is Ok {
        lemma_started_members(problems, partial);
    }
}

proof fn lemma_started_members(problems: Seq<Option<Seq<char>>>, partial: bool)
    requires
        started(problems, partial) is Ok,
    ensures
        ({
            let kept = started(problems, partial)->Ok_0;
            &&& forall|k: nat|
                #[trigger] kept.contains(k) <==> k < problems.len() && problems[k as int] is None
            &&& !partial ==> kept.len() == problems.len()
        }),
    decreases problems.len(),
{
    if problems.len() > 0 {
        let front = problems.drop_last();
        lemma_started_members(front, partial);
        let before = started(front, partial)->Ok_0;
        let kept = started(problems, partial)->Ok_0;
        assert forall|k: nat| #[trigger] kept.contains(k) <==> k < problems.len()
            && problems[k as int] is None by {
            if kept.contains(k) {
                let i = kept.index_of(k);
                if i < before.len() {
                    assert(before[i] == k);
                    assert(before.contains(k));
                }
            }
            if before.contains(k) {
                let i = before.index_of(k);
                assert(kept[i] == k);
            }
            if k == problems.len() - 1 && problems[k as int] is None {
                assert(kept[before.len() as int] == k);
            }
        }
    }
}

// ---------------------------------------------------------------------------
// Gateways
// ---------------------------------------------------------------------------

/// How long a target may take to become ready: three attempts, and at least a second.
pub open spec fn connect_budget_nanos(connect_timeout: Duration) -> nat {
    let three = if nanos(connect_timeout) * 3 > max_nanos() {
        max_nanos()
    } else {
        nanos(connect_timeout) * 3
    };
    if three < 1_000_000_000 {
        1_000_000_000
    } else {
        three
    }
}

/// How long a target may take to become ready.
pub fn connect_budget(connect_timeout: Duration) -> (d: Duration)
    ensures
        nanos(d) == connect_budget_nanos(connect_timeout),
{
    longest(connect_timeout.saturating_mul(3), Duration::from_secs(1))
}

/// That a target did not become ready in time.
pub fn target_not_ready(endpoint: &str, budget: Duration) -> (text: String)
    ensures
        text@ == "gRPC target '"@ + endpoint@ + "' did not become ready within "@ + decimal(
            millis(budget),
        ) + " ms"@,
{
    concat5(
        "gRPC target '",
        endpoint,
        "' did not become ready within ",
        &decimal_u128(budget.as_millis()),
        " ms",
    )
}

// ---------------------------------------------------------------------------
// Dry runs
// ---------------------------------------------------------------------------

/// The load of a slice, its rate in words.
pub struct SliceLoad {
    pub rate_text: String,
    pub max_concurrency: usize,
    pub startup_burst: usize,
    pub duration: Duration,
}

/// A plan of a dry run, its repetition in words.
pub struct DryRunPlan {
    pub name: String,
    pub endpoint: String,
    pub duration: Duration,
    pub repeat_text: String,
    pub loads: Vec<SliceLoad>,
}

/// The line of a plan.
pub open spec fn plan_line(p: DryRunPlan) -> Seq<char> {
    "scenario="@ + p.name@ + " endpoint="@ + p.endpoint@ + (" duration_ms="@ + decimal(
        millis(p.duration),
    ) + " repeat="@ + p.repeat_text@) + (" slices="@ + decimal(p.loads@.len()))
}

/// The line of a slice.
pub open spec fn slice_line(index: nat, total: nat, load: SliceLoad) -> Seq<char> {
    "  slice="@ + decimal(index) + "/"@ + decimal(total) + (" scenarios_per_sec="@
        + load.rate_text@ + " max_concurrency="@ + decimal(load.max_concurrency as nat)) + (
    " startup_burst="@ + decimal(load.startup_burst as nat) + " duration_ms="@ + decimal(
        millis(load.duration),
    ))
}

/// The lines of slices from a place on.
pub open spec fn slice_lines(loads: Seq<SliceLoad>, k: nat) -> Seq<Seq<char>>
    decreases k,
{
    if k == 0 {
        Seq::empty()
    } else {
        slice_lines(loads, (k - 1) as nat).push(
            slice_line((k - 1) as nat, loads.len(), loads[k - 1]),
        )
    }
}

/// The lines of plans.
pub open spec fn plan_lines(plans: Seq<DryRunPlan>) -> Seq<Seq<char>>
    decreases plans.len(),
{
    if plans.len() == 0 {
        seq!["Pulse dry run (no target traffic, Kafka, or Redis operations):"@]
    } else {
        let p = plans.last();
        plan_lines(plans.drop_last()).push(plan_line(p)) + slice_lines(p.loads@, p.loads@.len())
    }
}

fn push_line(lines: &mut Vec<String>, line: String)
    ensures
        views(final(lines)@) == views(old(lines)@).push(line@),
{
    let ghost before = views(lines@);
    lines.push(line);
    assert(views(lines@) =~= before.push(line@));
}

/// What a dry run says.
pub fn dry_run_lines(plans: &Vec<DryRunPlan>) -> (lines: Vec<String>)
    ensures
        views(lines@) == plan_lines(plans@),
{
    let mut lines: Vec<String> = Vec::new();
    push_line(
        &mut lines,
        copy_str("Pulse dry run (no target traffic, Kafka, or Redis operations):"),
    );
    assert(plans@.take(0) =~= Seq::<DryRunPlan>::empty());
    assert(views(lines@) =~= plan_lines(plans@.take(0)));
    let mut i: usize = 0;
    while i < plans.len()
        invariant
            i <= plans@.len(),
            views(lines@) == plan_lines(plans@.take(i as int)),
        decreases plans@.len() - i,
    {
        let p: &DryRunPlan = &plans[i];
        let ghost next = plans@.take(i + 1);
        assert(next.drop_last() =~= plans@.take(i as int));
        let n: usize = p.loads.len();
        let first = concat4("scenario=", &p.name, " endpoint=", &p.endpoint);
        let second = concat4(
            " duration_ms=",
            &decimal_u128(p.duration.as_millis()),
            " repeat=",
            &p.repeat_text,
        );
        let third = concat2(" slices=", &decimal_usize(n));
        push_line(&mut lines, concat3(&first, &second, &third));
        let ghost head = views(lines@);
        let mut k: usize = 0;
        assert(head + slice_lines(p.loads@, 0) =~= head);
        while k < n
            invariant
                k <= n,
                n == p.loads@.len(),
                views(lines@) == head + slice_lines(p.loads@, k as nat),
            decreases n - k,
        {
            let load: &SliceLoad = &p.loads[k];
            let a = concat4("  slice=", &decimal_usize(k), "/", &decimal_usize(n));
            let b = concat4(
                " scenarios_per_sec=",
                &load.rate_text,
                " max_concurrency=",
                &decimal_usize(load.max_concurrency),
            );
            let c = concat4(
                " startup_burst=",
                &decimal_usize(load.startup_burst),
                " duration_ms=",
                &decimal_u128(load.duration.as_millis()),
            );
            push_line(&mut lines, concat3(&a, &b, &c));
            k += 1;
            assert(views(lines@) =~= head + slice_lines(p.loads@, k as nat));
        }
        i += 1;
    }
    assert(plans@.take(i as int) =~= plans@);
    lines
}

} // verus!
