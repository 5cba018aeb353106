//! Which topics are there and usable.
use std::time::Duration;
use vstd::prelude::*;
use super::settings::reports;
use crate::durations::is_zero;
#[allow(unused_imports)]
use crate::durations::{millis, nanos};
use crate::text::{
    concat2, concat3, concat4, copy_str, decimal_i64, decimal_u128, str_eq,
};
#[allow(unused_imports)]
use crate::text::{decimal, decimal_int, views};

verus! {

/// What the brokers say of a topic.
#[derive(Debug)]
pub struct TopicReadinessMetadata {
    pub name: String,
    pub error: Option<String>,
    pub partitions: Vec<PartitionReadinessMetadata>,
}

/// What the brokers say of a partition.
#[derive(Debug)]
pub struct PartitionReadinessMetadata {
    pub id: i32,
    pub leader: i32,
    pub error: Option<String>,
}

/// The beginning of what is said of a partition.
pub open spec fn partition_prefix(required: Seq<char>, id: i32) -> Seq<char> {
    "required Kafka topic '"@ + required + "' partition "@ + decimal_int(id as int)
}

/// Whether an earlier partition has the same number.
pub open spec fn repeats(partitions: Seq<PartitionReadinessMetadata>, i: int) -> bool {
    exists|j: int| 0 <= j < i && (#[trigger] partitions[j]).id == partitions[i].id
}

/// What is wrong with the partition at a place.
pub open spec fn partition_problem(
    required: Seq<char>,
    partitions: Seq<PartitionReadinessMetadata>,
    i: int,
) -> Option<Seq<char>> {
    let p = partitions[i];
    if p.id < 0 {
        Some(
            "required Kafka topic '"@ + required + "' has invalid partition id "@ + decimal_int(
                p.id as int,
            ),
        )
    } else if repeats(partitions, i) {
        Some(
            "required Kafka topic '"@ + required + "' has duplicate partition id "@ + decimal_int(
                p.id as int,
            ),
        )
    } else if p.error is Some {
        Some(partition_prefix(required, p.id) + (" has metadata error "@ + p.error->0@))
    } else if p.leader < 0 {
        Some(partition_prefix(required, p.id) + " has no leader"@)
    } else {
        None
    }
}

/// What is wrong with the first unusable partition below a place.
pub open spec fn partitions_problem(
    required: Seq<char>,
    partitions: Seq<PartitionReadinessMetadata>,
    k: nat,
) -> Option<Seq<char>>
    decreases k,
{
    if k == 0 {
        None
    } else if partitions_problem(required, partitions, (k - 1) as nat) is Some {
        partitions_problem(required, partitions, (k - 1) as nat)
    } else {
        partition_problem(required, partitions, k - 1)
    }
}

proof fn lemma_partitions_stay(
    required: Seq<char>,
    partitions: Seq<PartitionReadinessMetadata>,
    k: nat,
    n: nat,
)
    requires
        k <= n,
        partitions_problem(required, partitions, k) is Some,
    ensures
        partitions_problem(required, partitions, n) == partitions_problem(required, partitions, k),
    decreases n,
{
    if k < n {
        lemma_partitions_stay(required, partitions, k, (n - 1) as nat);
    }
}

/// What is wrong with a topic.
pub open spec fn topic_problem(required: Seq<char>, topic: TopicReadinessMetadata) -> Option<Seq<char>> {
    if topic.error is Some {
        Some("required Kafka topic '"@ + required + "' has metadata error "@ + topic.error->0@)
    } else if topic.partitions@.len() == 0 {
        Some("required Kafka topic '"@ + required + "' has no partitions"@)
    } else {
        partitions_problem(required, topic.partitions@, topic.partitions@.len())
    }
}

/// How many of the topics below a place have a name.
pub open spec fn named(observed: Seq<TopicReadinessMetadata>, name: Seq<char>, k: nat) -> nat
    decreases k,
{
    if k == 0 {
        0
    } else if observed[k - 1].name@ == name {
        named(observed, name, (k - 1) as nat) + 1
    } else {
        named(observed, name, (k - 1) as nat)
    }
}

/// The last of the topics below a place that has a name.
pub open spec fn last_named(observed: Seq<TopicReadinessMetadata>, name: Seq<char>, k: nat) -> int
    decreases k,
{
    if k == 0 {
        -1
    } else if observed[k - 1].name@ == name {
        k - 1
    } else {
        last_named(observed, name, (k - 1) as nat)
    }
}

/// What is wrong with a required topic among those that the brokers know.
pub open spec fn observed_problem(required: Seq<char>, observed: Seq<TopicReadinessMetadata>) -> Option<
    Seq<char>,
> {
    let count = named(observed, required, observed.len());
    if count == 0 {
        Some("required Kafka topic '"@ + required + "' is missing"@)
    } else if count > 1 {
        Some(
            "Kafka metadata contained duplicate entries for required topic '"@ + required + "'"@,
        )
    } else {
        topic_problem(required, observed[last_named(observed, required, observed.len())])
    }
}

/// What is wrong with the first topic below a place that is required twice or not
/// usable.
pub open spec fn readiness_problem(
    required: Seq<Seq<char>>,
    observed: Seq<TopicReadinessMetadata>,
    k: nat,
) -> Option<Seq<char>>
    decreases k,
{
    if k == 0 {
        None
    } else if readiness_problem(required, observed, (k - 1) as nat) is Some {
        readiness_problem(required, observed, (k - 1) as nat)
    } else if exists|j: int| 0 <= j < k - 1 && #[trigger] required[j] == required[k - 1] {
        Some("duplicate Kafka required topic '"@ + required[k - 1] + "'"@)
    } else {
        observed_problem(required[k - 1], observed)
    }
}

proof fn lemma_readiness_stays(
    required: Seq<Seq<char>>,
    observed: Seq<TopicReadinessMetadata>,
    k: nat,
    n: nat,
)
    requires
        k <= n,
        readiness_problem(required, observed, k) is Some,
    ensures
        readiness_problem(required, observed, n) == readiness_problem(required, observed, k),
    decreases n,
{
    if k < n {
        lemma_readiness_stays(required, observed, k, (n - 1) as nat);
    }
}

proof fn lemma_partitions_usable(
    required: Seq<char>,
    partitions: Seq<PartitionReadinessMetadata>,
    n: nat,
    i: int,
)
    requires
        partitions_problem(required, partitions, n) is None,
        0 <= i < n,
    ensures
        partition_problem(required, partitions, i) is None,
    decreases n,
{
    if i < n - 1 {
        lemma_partitions_usable(required, partitions, (n - 1) as nat, i);
    }
}

/// Topics that are ready are all there, and each of their partitions has a leader
/// and no error.
pub proof fn lemma_ready_topics_are_usable(
    required: Seq<Seq<char>>,
    observed: Seq<TopicReadinessMetadata>,
    n: nat,
    t: int,
    p: int,
)
    requires
        readiness_problem(required, observed, n) is None,
        0 <= t < n,
        0 <= p < observed[last_named(observed, required[t], observed.len())].partitions@.len(),
    ensures
        named(observed, required[t], observed.len()) == 1,
        ({
            let topic = observed[last_named(observed, required[t], observed.len())];
            &&& topic.error is None
            &&& topic.partitions@.len() > 0
            &&& topic.partitions@[p].id >= 0
            &&& topic.partitions@[p].leader >= 0
            &&& topic.partitions@[p].error is None
        }),
    decreases n,
{
    if t < n - 1 {
        lemma_ready_topics_are_usable(required, observed, (n - 1) as nat, t, p);
    } else {
        let topic = observed[last_named(observed, required[t], observed.len())];
        lemma_partitions_usable(required[t], topic.partitions@, topic.partitions@.len(), p);
    }
}

fn check_partitions(required: &str, partitions: &Vec<PartitionReadinessMetadata>) -> (r: Result<
    (),
    String,
>)
    ensures
        reports(r, partitions_problem(required@, partitions@, partitions@.len())),
{
    let mut i: usize = 0;
    while i < partitions.len()
        invariant
            i <= partitions@.len(),
            partitions_problem(required@, partitions@, i as nat) is None,
        decreases partitions@.len() - i,
    {
        proof {
            if partitions_problem(required@, partitions@, (i + 1) as nat) is Some {
                lemma_partitions_stay(
                    required@,
                    partitions@,
                    (i + 1) as nat,
                    partitions@.len(),
                );
            }
        }
        let id: i32 = partitions[i].id;
        if id < 0 {
            return Err(
                concat4(
                    "required Kafka topic '",
                    required,
                    "' has invalid partition id ",
                    &decimal_i64(id as i64),
                ),
            );
        }
        let mut j: usize = 0;
        while j < i
            invariant
                j <= i < partitions@.len(),
                id == partitions@[i as int].id,
                id >= 0,
                forall|k: int| 0 <= k < j ==> (#[trigger] partitions@[k]).id != id,
                partitions_problem(required@, partitions@, i as nat) is None,
                partitions_problem(required@, partitions@, (i + 1) as nat) is Some ==> partitions_problem(
                    required@,
                    partitions@,
                    partitions@.len(),
                ) == partitions_problem(required@, partitions@, (i + 1) as nat),
            decreases i - j,
        {
            if partitions[j].id == id {
                assert(repeats(partitions@, i as int));
                return Err(
                    concat4(
                        "required Kafka topic '",
                        required,
                        "' has duplicate partition id ",
                        &decimal_i64(id as i64),
                    ),
                );
            }
            j += 1;
        }
        assert(!repeats(partitions@, i as int));
        let prefix = concat4(
            "required Kafka topic '",
            required,
            "' partition ",
            &decimal_i64(id as i64),
        );
        match &partitions[i].error {
            Some(error) => {
                let tail = concat2(" has metadata error ", error);
                return Err(concat2(&prefix, &tail));
            },
            None => {},
        }
        if partitions[i].leader < 0 {
            return Err(concat2(&prefix, " has no leader"));
        }
        i += 1;
    }
    Ok(())
}

fn check_topic(required: &str, topic: &TopicReadinessMetadata) -> (r: Result<(), String>)
    ensures
        reports(r, topic_problem(required@, *topic)),
{
    match &topic.error {
        Some(error) => {
            return Err(
                concat4("required Kafka topic '", required, "' has metadata error ", error),
            );
        },
        None => {},
    }
    if topic.partitions.len() == 0 {
        return Err(concat3("required Kafka topic '", required, "' has no partitions"));
    }
    check_partitions(required, &topic.partitions)
}

fn check_observed(required: &str, observed: &Vec<TopicReadinessMetadata>) -> (r: Result<(), String>)
    ensures
        reports(r, observed_problem(required@, observed@)),
{
    let mut count: usize = 0;
    let mut at: usize = 0;
    let mut i: usize = 0;
    while i < observed.len()
        invariant
            i <= observed@.len(),
            count <= i,
            count == named(observed@, required@, i as nat),
            count > 0 ==> at == last_named(observed@, required@, i as nat) && at < i,
        decreases observed@.len() - i,
    {
        if str_eq(&observed[i].name, required) {
            count = count + 1;
            at = i;
        }
        i += 1;
    }
    if count == 0 {
        return Err(concat3("required Kafka topic '", required, "' is missing"));
    }
    if count > 1 {
        return Err(
            concat3(
                "Kafka metadata contained duplicate entries for required topic '",
                required,
                "'",
            ),
        );
    }
    check_topic(required, &observed[at])
}

/// Checks that every required topic is there once and that its partitions are
/// usable.
pub fn validate_required_topic_metadata(
    required_topics: &Vec<String>,
    observed: &Vec<TopicReadinessMetadata>,
) -> (r: Result<(), String>)
    ensures
        reports(
            r,
            readiness_problem(views(required_topics@), observed@, required_topics@.len()),
        ),
{
    let ghost required = views(required_topics@);
    let mut i: usize = 0;
    while i < required_topics.len()
        invariant
            i <= required_topics@.len(),
            required == views(required_topics@),
            readiness_problem(required, observed@, i as nat) is None,
        decreases required_topics@.len() - i,
    {
        proof {
            if readiness_problem(required, observed@, (i + 1) as nat) is Some {
                lemma_readiness_stays(
                    required,
                    observed@,
                    (i + 1) as nat,
                    required_topics@.len(),
                );
            }
        }
        let topic = &required_topics[i];
        assert(required[i as int] == topic@);
        let mut j: usize = 0;
        while j < i
            invariant
                j <= i < required_topics@.len(),
                required == views(required_topics@),
                required[i as int] == topic@,
                forall|k: int| 0 <= k < j ==> #[trigger] required[k] != topic@,
                readiness_problem(required, observed@, i as nat) is None,
                readiness_problem(required, observed@, (i + 1) as nat) is Some
                    ==> readiness_problem(required, observed@, required_topics@.len())
                    == readiness_problem(required, observed@, (i + 1) as nat),
            decreases i - j,
        {
            assert(required[j as int] == required_topics@[j as int]@);
            if str_eq(&required_topics[j], topic) {
                return Err(concat3("duplicate Kafka required topic '", topic, "'"));
            }
            j += 1;
        }
        check_observed(topic, observed)?;
        i += 1;
    }
    Ok(())
}

// ---------------------------------------------------------------------------
// Probing
// ---------------------------------------------------------------------------

/// Checks that there is something to probe.
pub fn check_probe_request(required_topics: &Vec<String>) -> (r: Result<(), String>)
    ensures
        reports(
            r,
            if required_topics@.len() == 0 {
                Some("Kafka required-topic probe received no topics"@)
            } else {
                None
            },
        ),
{
    if required_topics.len() == 0 {
        return Err(copy_str("Kafka required-topic probe received no topics"));
    }
    Ok(())
}

/// The time that is left of a probe; one timeout covers all its requests.
pub fn remaining_probe_time(probe_timeout: Duration, elapsed: Duration) -> (r: Result<
    Duration,
    String,
>)
    ensures
        reports(
            r,
            if nanos(elapsed) >= nanos(probe_timeout) {
                Some(
                    "Kafka required-topic probe exceeded its "@ + decimal(millis(probe_timeout))
                        + " ms deadline"@,
                )
            } else {
                None
            },
        ),
        r matches Ok(d) ==> nanos(d) == nanos(probe_timeout) - nanos(elapsed),
{
    let remaining = probe_timeout.saturating_sub(elapsed);
    if is_zero(remaining) {
        return Err(
            concat3(
                "Kafka required-topic probe exceeded its ",
                &decimal_u128(probe_timeout.as_millis()),
                " ms deadline",
            ),
        );
    }
    Ok(remaining)
}

/// Checks that a metadata answer for a topic names brokers.
pub fn check_probe_brokers(required_topic: &str, brokers: usize) -> (r: Result<(), String>)
    ensures
        reports(
            r,
            if brokers == 0 {
                Some(
                    "Kafka metadata probe for topic '"@ + required_topic@ + "' returned no brokers"@,
                )
            } else {
                None
            },
        ),
{
    if brokers == 0 {
        return Err(
            concat3("Kafka metadata probe for topic '", required_topic, "' returned no brokers"),
        );
    }
    Ok(())
}

/// Checks that a metadata answer names brokers.
pub fn check_brokers(brokers: usize) -> (r: Result<(), String>)
    ensures
        reports(
            r,
            if brokers == 0 {
                Some("Kafka metadata probe returned no brokers"@)
            } else {
                None
            },
        ),
{
    if brokers == 0 {
        return Err(copy_str("Kafka metadata probe returned no brokers"));
    }
    Ok(())
}

// ---------------------------------------------------------------------------
// Creating topics
// ---------------------------------------------------------------------------

/// What came of creating a topic.
#[derive(Debug)]
pub enum TopicCreation {
    Created,
    AlreadyExists,
    Failed { topic: String, code: String },
}

/// The replication of a topic that is created: at least 1.
pub fn topic_replication(requested: i32) -> (n: i32)
    ensures
        n == (if requested < 1 {
            1
        } else {
            requested
        }),
{
    if requested < 1 {
        1
    } else {
        requested
    }
}

/// The first topic that could not be created.
pub open spec fn creation_problem(results: Seq<TopicCreation>) -> Option<Seq<char>>
    decreases results.len(),
{
    if results.len() == 0 {
        None
    } else {
        match results[0] {
            TopicCreation::Failed { topic, code } => Some(
                "failed to ensure Kafka topic "@ + topic@ + ": "@ + code@,
            ),
            _ => creation_problem(results.skip(1)),
        }
    }
}

/// Checks that every topic was created or was there already.
pub fn topics_ensured(results: &Vec<TopicCreation>) -> (r: Result<(), String>)
    ensures
        reports(r, creation_problem(results@)),
{
    let mut i: usize = 0;
    assert(results@.skip(0) == results@);
    while i < results.len()
        invariant
            i <= results@.len(),
            creation_problem(results@.skip(i as int)) == creation_problem(results@),
        decreases results@.len() - i,
    {
        let ghost rest = results@.skip(i as int);
        assert(rest[0] == results@[i as int]);
        assert(rest.skip(1) == results@.skip(i + 1));
        match &results[i] {
            TopicCreation::Failed { topic, code } => {
                return Err(concat4("failed to ensure Kafka topic ", topic, ": ", code));
            },
            _ => {},
        }
        i += 1;
    }
    Ok(())
}

} // verus!
