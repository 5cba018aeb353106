//! The settings of Kafka clients, the topics that a node needs, and the commit of an offset.
use std::time::Duration;
use rdkafka::ClientConfig;
use vstd::prelude::*;
use super::execution::whole_ms;
use crate::durations::nanos;
use crate::kafka::commit::{CommitEvent, CommitGuard, CommitState, CommitTrace};
use crate::kafka::settings::{
    broker_client_config, consumer_client_config, entries, probe_client_config,
    producer_client_config, KafkaConsumerConfig, KafkaProducerConfig,
};
use crate::kafka::topics::{
    check_brokers, check_probe_brokers, check_probe_request, creation_problem, last_named, named,
    observed_problem, partition_problem, partitions_problem, readiness_problem,
    remaining_probe_time, repeats, topic_problem, topic_replication, topics_ensured,
    validate_required_topic_metadata, PartitionReadinessMetadata, TopicCreation,
    TopicReadinessMetadata,
};
use crate::text::{decimal, views};

verus! {

// ---------------------------------------------------------------------------
// Settings of clients
// ---------------------------------------------------------------------------

/// Whether a span is counted in milliseconds by a positive number of 31 bits.
pub open spec fn countable(d: Duration) -> bool {
    1_000_000 <= nanos(d) < 2_147_483_648_000_000
}

/// Whether a size is a positive number of 31 bits.
pub open spec fn holdable(n: usize) -> bool {
    1 <= n <= 2_147_483_647
}

/// Settings under which a producer loses nothing that was acknowledged.
pub open spec fn producer_sound(c: KafkaProducerConfig) -> bool {
    &&& holdable(c.queue_capacity_messages)
    &&& holdable(c.message_max_bytes)
    &&& countable(c.message_timeout)
    &&& countable(c.delivery_timeout)
    &&& countable(c.request_timeout)
    &&& nanos(c.message_timeout) == nanos(c.delivery_timeout)
    &&& nanos(c.request_timeout) <= nanos(c.delivery_timeout)
    &&& c.acks@ == "all"@ || c.acks@ == "-1"@
}

/// Settings under which a consumer keeps its partitions and can hold what it fetches:
/// 512 bytes more than the records, and the evidence of a poison record.
pub open spec fn consumer_sound(c: KafkaConsumerConfig) -> bool {
    &&& countable(c.max_poll_interval)
    &&& countable(c.session_timeout)
    &&& countable(c.request_timeout)
    &&& holdable(c.prefetch_kib)
    &&& holdable(c.partition_fetch_max_bytes)
    &&& holdable(c.fetch_max_bytes)
    &&& holdable(c.record_max_bytes)
    &&& nanos(c.session_timeout) < nanos(c.max_poll_interval)
    &&& nanos(c.request_timeout) < nanos(c.max_poll_interval)
    &&& c.partition_fetch_max_bytes <= c.fetch_max_bytes
    &&& c.record_max_bytes <= c.fetch_max_bytes
    &&& c.record_max_bytes >= 524_288
    &&& c.fetch_max_bytes + 512 <= 2_147_483_647
}

/// The settings of a producer are accepted exactly where they are sound.
pub proof fn law_producer_settings(c: KafkaProducerConfig, r: Result<(), String>)
    requires
        call_ensures(KafkaProducerConfig::validate, (&c,), r),
    ensures
        r is Ok <==> producer_sound(c),
{
}

/// The settings of a consumer are accepted exactly where they are sound.
pub proof fn law_consumer_settings(c: KafkaConsumerConfig, r: Result<(), String>)
    requires
        call_ensures(KafkaConsumerConfig::validate, (&c,), r),
    ensures
        r is Ok <==> consumer_sound(c),
{
}

/// The default settings are sound, and only the capacity of the queue can be chosen.
pub proof fn law_producer_defaults(capacity: usize, c: KafkaProducerConfig)
    requires
        call_ensures(KafkaProducerConfig::with_queue_capacity, (capacity,), c),
    ensures
        c.queue_capacity_messages == capacity,
        c.message_max_bytes == 1_000_000,
        nanos(c.message_timeout) == 10_000_000_000,
        nanos(c.delivery_timeout) == 10_000_000_000,
        nanos(c.request_timeout) == 5_000_000_000,
        c.acks@ == "all"@,
        c.enable_idempotence,
        holdable(capacity) ==> producer_sound(c),
{
}

/// The default settings are sound, and only the prefetch can be chosen.
pub proof fn law_consumer_defaults(kib: usize, c: KafkaConsumerConfig)
    requires
        call_ensures(KafkaConsumerConfig::with_prefetch_kib, (kib,), c),
    ensures
        c.prefetch_kib == kib,
        nanos(c.max_poll_interval) == 300_000_000_000,
        nanos(c.session_timeout) == 10_000_000_000,
        nanos(c.request_timeout) == 5_000_000_000,
        c.partition_fetch_max_bytes == 524_288,
        c.fetch_max_bytes == 4_194_304,
        c.record_max_bytes == 1_000_000,
        holdable(kib) ==> consumer_sound(c),
{
}

/// Whether a text says yes or no.
pub open spec fn says(text: Seq<char>, flag: bool) -> bool {
    text == (if flag {
        "true"@
    } else {
        "false"@
    })
}

/// A producer's client is given each setting under its name, spans in whole milliseconds.
pub proof fn law_producer_client(
    brokers: &str,
    c: KafkaProducerConfig,
    r: Result<ClientConfig, String>,
)
    requires
        call_ensures(producer_client_config, (brokers, &c), r),
    ensures
        r is Ok <==> producer_sound(c),
        r matches Ok(client) ==> exists|flag: Seq<char>| #[trigger]
            says(flag, c.enable_idempotence) && entries(client) =~= map![
                "bootstrap.servers"@ => brokers@,
                "acks"@ => c.acks@,
                "enable.idempotence"@ => flag,
                "queue.buffering.max.messages"@ => decimal(c.queue_capacity_messages as nat),
                "message.max.bytes"@ => decimal(c.message_max_bytes as nat),
                "message.timeout.ms"@ => decimal(whole_ms(c.message_timeout)),
                "delivery.timeout.ms"@ => decimal(whole_ms(c.delivery_timeout)),
                "request.timeout.ms"@ => decimal(whole_ms(c.request_timeout)),
            ],
{
    if r is Ok {
        let flag = if c.enable_idempotence {
            "true"@
        } else {
            "false"@
        };
        assert(says(flag, c.enable_idempotence));
    }
}

/// A consumer's client is given each setting under its name; it neither commits nor stores
/// offsets itself, begins with the earliest record, and receives 512 bytes more than it
/// fetches.
pub proof fn law_consumer_client(
    brokers: &str,
    group: &str,
    c: KafkaConsumerConfig,
    r: Result<ClientConfig, String>,
)
    requires
        call_ensures(consumer_client_config, (brokers, group, &c), r),
    ensures
        r is Ok <==> consumer_sound(c),
        r matches Ok(client) ==> entries(client) =~= map![
            "bootstrap.servers"@ => brokers@,
            "group.id"@ => group@,
            "enable.auto.commit"@ => "false"@,
            "enable.auto.offset.store"@ => "false"@,
            "enable.partition.eof"@ => "false"@,
            "auto.offset.reset"@ => "earliest"@,
            "max.poll.interval.ms"@ => decimal(whole_ms(c.max_poll_interval)),
            "session.timeout.ms"@ => decimal(whole_ms(c.session_timeout)),
            "socket.timeout.ms"@ => decimal(whole_ms(c.request_timeout)),
            "queued.max.messages.kbytes"@ => decimal(c.prefetch_kib as nat),
            "fetch.message.max.bytes"@ => decimal(c.partition_fetch_max_bytes as nat),
            "fetch.max.bytes"@ => decimal(c.fetch_max_bytes as nat),
            "receive.message.max.bytes"@ => decimal((c.fetch_max_bytes + 512) as nat),
        ],
{
}

/// A probe creates no topics, and other clients are given the brokers alone.
pub proof fn law_plain_clients(brokers: &str, probe: ClientConfig, plain: ClientConfig)
    requires
        call_ensures(probe_client_config, (brokers,), probe),
        call_ensures(broker_client_config, (brokers,), plain),
    ensures
        entries(probe) =~= map![
            "bootstrap.servers"@ => brokers@,
            "allow.auto.create.topics"@ => "false"@,
        ],
        entries(plain) =~= map!["bootstrap.servers"@ => brokers@],
{
}

// ---------------------------------------------------------------------------
// Topics
// ---------------------------------------------------------------------------

/// Whether a topic can be used: it has partitions, all with numbers of their own, with
/// leaders and without errors.
pub open spec fn usable(topic: TopicReadinessMetadata) -> bool {
    &&& topic.error is None
    &&& topic.partitions@.len() >= 1
    &&& forall|i: int|
        0 <= i < topic.partitions@.len() ==> {
            &&& (#[trigger] topic.partitions@[i]).id >= 0
            &&& topic.partitions@[i].leader >= 0
            &&& topic.partitions@[i].error is None
        }
    &&& forall|i: int, j: int|
        0 <= i < j < topic.partitions@.len() ==> (#[trigger] topic.partitions@[i]).id != (
        #[trigger] topic.partitions@[j]).id
}

/// Whether a name is that of exactly one topic among those that were seen, which can be
/// used.
pub open spec fn there(name: Seq<char>, observed: Seq<TopicReadinessMetadata>) -> bool {
    exists|k: int|
        0 <= k < observed.len() && (#[trigger] observed[k]).name@ == name && usable(observed[k])
            && forall|m: int| 0 <= m < observed.len() && (#[trigger] observed[m]).name@ == name ==> m
            == k
}

proof fn lemma_partitions_sound(name: Seq<char>, parts: Seq<PartitionReadinessMetadata>, k: nat)
    requires
        k <= parts.len(),
    ensures
        partitions_problem(name, parts, k) is None <==> forall|i: int|
            0 <= i < k ==> #[trigger] partition_problem(name, parts, i) is None,
    decreases k,
{
    if k > 0 {
        lemma_partitions_sound(name, parts, (k - 1) as nat);
        if partitions_problem(name, parts, k) is None {
            assert forall|i: int| 0 <= i < k implies #[trigger] partition_problem(name, parts, i)
                is None by {
                if i < k - 1 {
                }
            }
        }
        if forall|i: int| 0 <= i < k ==> #[trigger] partition_problem(name, parts, i) is None {
            assert(partition_problem(name, parts, k - 1) is None);
        }
    }
}

proof fn lemma_usable(name: Seq<char>, topic: TopicReadinessMetadata)
    ensures
        usable(topic) <==> topic_problem(name, topic) is None,
{
    let parts = topic.partitions@;
    lemma_partitions_sound(name, parts, parts.len());
    if topic_problem(name, topic) is None {
        assert forall|i: int| 0 <= i < parts.len() implies (#[trigger] parts[i]).id >= 0
            && parts[i].leader >= 0 && parts[i].error is None by {
            assert(partition_problem(name, parts, i) is None);
        }
        assert forall|i: int, j: int| 0 <= i < j < parts.len() implies (#[trigger] parts[i]).id != (
        #[trigger] parts[j]).id by {
            assert(partition_problem(name, parts, j) is None);
            assert(!repeats(parts, j));
        }
    }
    if usable(topic) {
        assert forall|i: int| 0 <= i < parts.len() implies #[trigger] partition_problem(
            name,
            parts,
            i,
        ) is None by {
            assert(parts[i].id >= 0);
            if repeats(parts, i) {
                let j = choose|j: int| 0 <= j < i && (#[trigger] parts[j]).id == parts[i].id;
            }
        }
    }
}

proof fn lemma_named(observed: Seq<TopicReadinessMetadata>, name: Seq<char>, k: nat)
    requires
        k <= observed.len(),
    ensures
        named(observed, name, k) == 0 <==> forall|m: int|
            0 <= m < k ==> (#[trigger] observed[m]).name@ != name,
        named(observed, name, k) >= 1 ==> {
            let at = last_named(observed, name, k);
            0 <= at < k && observed[at].name@ == name
        },
        named(observed, name, k) == 1 ==> forall|m: int|
            0 <= m < k && (#[trigger] observed[m]).name@ == name ==> m == last_named(
                observed,
                name,
                k,
            ),
        named(observed, name, k) > 1 ==> exists|a: int, b: int|
            0 <= a < b < k && (#[trigger] observed[a]).name@ == name && (#[trigger] observed[b]).name@
                == name,
    decreases k,
{
    if k > 0 {
        let last = k - 1;
        lemma_named(observed, name, last as nat);
        if observed[last].name@ == name && named(observed, name, k) > 1 {
            let a = last_named(observed, name, last as nat);
            assert(0 <= a < last && observed[a].name@ == name);
        }
    }
}

proof fn lemma_there(name: Seq<char>, observed: Seq<TopicReadinessMetadata>)
    ensures
        there(name, observed) <==> observed_problem(name, observed) is None,
{
    lemma_named(observed, name, observed.len());
    let at = last_named(observed, name, observed.len());
    let count = named(observed, name, observed.len());
    if count >= 1 {
        lemma_usable(name, observed[at]);
    }
    if there(name, observed) {
        let k = choose|k: int|
            0 <= k < observed.len() && (#[trigger] observed[k]).name@ == name && usable(observed[k])
                && forall|m: int|
                0 <= m < observed.len() && (#[trigger] observed[m]).name@ == name ==> m == k;
        assert(count != 0);
        assert(at == k);
        if count > 1 {
            let (a, b) = choose|a: int, b: int|
                0 <= a < b < observed.len() && (#[trigger] observed[a]).name@ == name && (
                #[trigger] observed[b]).name@ == name;
            assert(a == k && b == k);
        }
    }
    if observed_problem(name, observed) is None {
        assert(observed[at].name@ == name && usable(observed[at]));
    }
}

/// Whether all names are different and all their topics are there.
pub open spec fn all_there(names: Seq<Seq<char>>, observed: Seq<TopicReadinessMetadata>) -> bool {
    &&& forall|i: int, j: int|
        0 <= i < j < names.len() ==> #[trigger] names[i] != #[trigger] names[j]
    &&& forall|i: int| 0 <= i < names.len() ==> there(#[trigger] names[i], observed)
}

proof fn lemma_all_there(names: Seq<Seq<char>>, observed: Seq<TopicReadinessMetadata>, k: nat)
    requires
        k <= names.len(),
    ensures
        all_there(names.take(k as int), observed) <==> readiness_problem(names, observed, k) is None,
    decreases k,
{
    let part = names.take(k as int);
    if k > 0 {
        let last = k - 1;
        let before = names.take(last);
        lemma_all_there(names, observed, last as nat);
        lemma_there(names[last], observed);
        if all_there(part, observed) {
            assert forall|i: int, j: int| 0 <= i < j < before.len() implies #[trigger] before[i]
                != #[trigger] before[j] by {
                assert(part[i] != part[j]);
            }
            assert forall|i: int| 0 <= i < before.len() implies there(
                #[trigger] before[i],
                observed,
            ) by {
                assert(there(part[i], observed));
            }
            assert(there(part[last], observed));
            assert forall|j: int| 0 <= j < last implies #[trigger] names[j] != names[last] by {
                assert(part[j] != part[last]);
            }
        }
        if readiness_problem(names, observed, k) is None {
            assert forall|i: int, j: int| 0 <= i < j < part.len() implies #[trigger] part[i]
                != #[trigger] part[j] by {
                if j < last {
                    assert(before[i] != before[j]);
                } else {
                    assert(names[i] != names[last]);
                }
            }
            assert forall|i: int| 0 <= i < part.len() implies there(#[trigger] part[i], observed) by {
                if i < last {
                    assert(there(before[i], observed));
                }
            }
        }
    }
}

/// The topics that are needed are ready exactly where they are different and all there.
pub proof fn law_required_topics(
    names: Vec<String>,
    observed: Vec<TopicReadinessMetadata>,
    r: Result<(), String>,
)
    requires
        call_ensures(validate_required_topic_metadata, (&names, &observed), r),
    ensures
        r is Ok <==> all_there(views(names@), observed@),
{
    lemma_all_there(views(names@), observed@, names@.len());
    assert(views(names@).take(names@.len() as int) =~= views(names@));
}

/// A probe asks for topics, hears of brokers, and has the time that is left of its timeout.
pub proof fn law_probe(
    names: Vec<String>,
    asked: Result<(), String>,
    topic: &str,
    brokers: usize,
    heard: Result<(), String>,
    heard_of_all: Result<(), String>,
    timeout: Duration,
    elapsed: Duration,
    left: Result<Duration, String>,
)
    requires
        call_ensures(check_probe_request, (&names,), asked),
        call_ensures(check_probe_brokers, (topic, brokers), heard),
        call_ensures(check_brokers, (brokers,), heard_of_all),
        call_ensures(remaining_probe_time, (timeout, elapsed), left),
    ensures
        asked is Ok <==> names@.len() >= 1,
        heard is Ok <==> brokers >= 1,
        heard_of_all is Ok <==> brokers >= 1,
        left is Ok <==> nanos(elapsed) < nanos(timeout),
        left matches Ok(d) ==> nanos(d) + nanos(elapsed) == nanos(timeout),
{
}

proof fn lemma_created(results: Seq<TopicCreation>)
    ensures
        creation_problem(results) is None <==> forall|i: int|
            0 <= i < results.len() ==> !(#[trigger] results[i] is Failed),
    decreases results.len(),
{
    if results.len() > 0 {
        let rest = results.skip(1);
        lemma_created(rest);
        if creation_problem(results) is None {
            assert forall|i: int| 0 <= i < results.len() implies !(#[trigger] results[i] is Failed) by {
                if i > 0 {
                    assert(!(rest[i - 1] is Failed));
                }
            }
        }
        if forall|i: int| 0 <= i < results.len() ==> !(#[trigger] results[i] is Failed) {
            assert(!(results[0] is Failed));
            assert forall|i: int| 0 <= i < rest.len() implies !(#[trigger] rest[i] is Failed) by {
                assert(!(results[i + 1] is Failed));
            }
        }
    }
}

/// Topics are there where none of them failed to be created; one that was there before did
/// not fail. A topic has at least one replica.
pub proof fn law_created_topics(
    results: Vec<TopicCreation>,
    r: Result<(), String>,
    requested: i32,
    replicas: i32,
)
    requires
        call_ensures(topics_ensured, (&results,), r),
        call_ensures(topic_replication, (requested,), replicas),
    ensures
        r is Ok <==> forall|i: int| 0 <= i < results@.len() ==> !(#[trigger] results@[i] is Failed),
        replicas >= 1,
        requested >= 1 ==> replicas == requested,
        requested < 1 ==> replicas == 1,
{
    lemma_created(results@);
}

// ---------------------------------------------------------------------------
// Committing
// ---------------------------------------------------------------------------

/// What is committed is the offset after that of the record.
pub proof fn law_next_offset(guard: CommitGuard, r: Result<i64, String>)
    requires
        call_ensures(CommitGuard::next_offset, (&guard,), r),
    ensures
        r is Ok <==> guard.offset < 9_223_372_036_854_775_807,
        r matches Ok(n) ==> n - 1 == guard.offset,
{
}

/// A commit counts exactly where the partition was assigned under the record's epoch
/// before and after it, and it was built and acknowledged.
pub proof fn law_verdict(guard: CommitGuard, t: CommitTrace, r: Result<(), String>)
    requires
        call_ensures(CommitGuard::verdict, (&guard, &t), r),
    ensures
        r is Ok <==> {
            &&& t.epoch_before == guard.consumed_epoch
            &&& t.epoch_after == guard.consumed_epoch
            &&& t.assigned_before matches Ok(true)
            &&& t.assigned_after matches Ok(true)
            &&& t.offset_built is Ok
            &&& t.committed is Ok
        },
{
}

/// Each check of a commit passes exactly under the record's epoch and while the partition
/// is assigned.
pub proof fn law_commit_checks(
    guard: CommitGuard,
    epoch: u64,
    assigned: Result<bool, String>,
    before: Result<(), String>,
    assigned_before: Result<(), String>,
    after: Result<(), String>,
    assigned_after: Result<(), String>,
)
    requires
        call_ensures(CommitGuard::check_epoch_before, (&guard, epoch), before),
        call_ensures(CommitGuard::check_assignment_before, (&guard, &assigned), assigned_before),
        call_ensures(CommitGuard::check_epoch_after, (&guard, epoch), after),
        call_ensures(CommitGuard::check_assignment_after, (&guard, &assigned), assigned_after),
    ensures
        before is Ok <==> epoch == guard.consumed_epoch,
        after is Ok <==> epoch == guard.consumed_epoch,
        assigned_before is Ok <==> assigned matches Ok(true),
        assigned_after is Ok <==> assigned matches Ok(true),
{
}

/// Whether a state is that of an end without success.
pub open spec fn given_up(state: CommitState) -> bool {
    state matches CommitState::Ended(r) && r is Err
}

/// Whether the outcome of a commit is kept in another state.
pub open spec fn kept(a: Result<(), String>, b: Result<(), String>) -> bool {
    match (a, b) {
        (Ok(_), Ok(_)) => true,
        (Err(x), Err(y)) => x@ == y@,
        _ => false,
    }
}

/// A commit begins with the epoch, where there is an offset to commit.
pub proof fn law_commit_begins(guard: CommitGuard, state: CommitState)
    requires
        call_ensures(CommitGuard::begin, (&guard,), state),
    ensures
        state is ReadEpoch <==> guard.offset < 9_223_372_036_854_775_807,
        state is ReadEpoch || given_up(state),
{
    match state {
        CommitState::ReadEpoch => {},
        CommitState::Ended(r) => {
            assert(state@ is Ended);
        },
        _ => {
            assert(!(state@ is ReadEpoch) && !(state@ is Ended));
        },
    }
}

/// An epoch that was read leads on where it is that of the record: before the commit to the
/// assignment, after it to the assignment again.
pub proof fn law_commit_reads_epoch(
    guard: CommitGuard,
    state: CommitState,
    epoch: u64,
    next: CommitState,
)
    requires
        call_ensures(CommitGuard::step, (&guard, state, CommitEvent::Epoch(epoch)), next),
    ensures
        state is ReadEpoch && epoch == guard.consumed_epoch ==> next is ReadAssignment,
        state is ReadEpoch && epoch != guard.consumed_epoch ==> given_up(next),
        (state matches CommitState::ReadEpochAgain(r) ==> (epoch == guard.consumed_epoch ==> (
        next matches CommitState::ReadAssignmentAgain(q) && kept(r, q)))),
        state is ReadEpochAgain && epoch != guard.consumed_epoch ==> given_up(next),
        !(state is ReadEpoch) && !(state is ReadEpochAgain) ==> next@ == state@,
{
    lemma_stages(state);
    lemma_stages(next);
}

/// An assignment that was read leads on where the partition is assigned: before the commit to
/// the offset, after it to the end with what came of the commit.
pub proof fn law_commit_reads_assignment(
    guard: CommitGuard,
    state: CommitState,
    assigned: Result<bool, String>,
    next: CommitState,
)
    requires
        call_ensures(CommitGuard::step, (&guard, state, CommitEvent::Assigned(assigned)), next),
    ensures
        state is ReadAssignment && (assigned matches Ok(true)) ==> next is BuildOffset,
        state is ReadAssignment && !(assigned matches Ok(true)) ==> given_up(next),
        (state matches CommitState::ReadAssignmentAgain(r) ==> ((assigned matches Ok(true)) ==> (
        next matches CommitState::Ended(q) && kept(r, q)))),
        state is ReadAssignmentAgain && !(assigned matches Ok(true)) ==> given_up(next),
        !(state is ReadAssignment) && !(state is ReadAssignmentAgain) ==> next@ == state@,
{
    lemma_stages(state);
    lemma_stages(next);
}

/// An offset that was built is committed; after the commit the epoch is read again, whatever
/// came of it.
pub proof fn law_commit_is_sent(
    guard: CommitGuard,
    state: CommitState,
    outcome: Result<(), String>,
    built: CommitState,
    sent: CommitState,
)
    requires
        call_ensures(CommitGuard::step, (&guard, state, CommitEvent::OffsetBuilt(outcome)), built),
        call_ensures(CommitGuard::step, (&guard, state, CommitEvent::Committed(outcome)), sent),
    ensures
        state is BuildOffset && outcome is Ok ==> built is SendCommit,
        state is BuildOffset && outcome is Err ==> given_up(built),
        !(state is BuildOffset) ==> built@ == state@,
        state is SendCommit ==> (sent matches CommitState::ReadEpochAgain(q) && (q is Ok <==> outcome
            is Ok)),
        !(state is SendCommit) ==> sent@ == state@,
{
    lemma_stages(state);
    lemma_stages(built);
    lemma_stages(sent);
}

proof fn lemma_stages(state: CommitState)
    ensures
        state is ReadEpoch <==> state@ is ReadEpoch,
        state is ReadAssignment <==> state@ is ReadAssignment,
        state is BuildOffset <==> state@ is BuildOffset,
        state is SendCommit <==> state@ is SendCommit,
        state is ReadEpochAgain <==> state@ is ReadEpochAgain,
        state is ReadAssignmentAgain <==> state@ is ReadAssignmentAgain,
        state is Ended <==> state@ is Ended,
        given_up(state) <==> state@ is Ended && state@->Ended_0 is Some,
{
}

} // verus!
