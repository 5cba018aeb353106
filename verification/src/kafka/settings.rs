//! Settings of Kafka producers and consumers.
use std::time::Duration;
use rdkafka::ClientConfig;
use vstd::prelude::*;
use crate::contracts::MAX_POISON_EVIDENCE_FIELD_BYTES;
use crate::durations::shorter;
#[allow(unused_imports)]
use crate::durations::{millis, nanos};
use crate::text::{concat2, concat3, copy_str, decimal_u128, decimal_usize, str_eq};
#[allow(unused_imports)]
use crate::text::decimal;

verus! {

/// The bytes of a response besides the records that it carries.
pub const KAFKA_RESPONSE_OVERHEAD_BYTES: usize = 512;

/// The settings that a Kafka client is made with.
#[verifier::external_type_specification]
#[verifier::external_body]
pub struct ExClientConfig(rdkafka::config::ClientConfig);

/// The settings that `rdkafka::ClientConfig` holds, by key: what its `get` returns.
pub uninterp spec fn entries(client: ClientConfig) -> Map<Seq<char>, Seq<char>>;

/// No settings at all.
pub open spec fn no_settings() -> Map<Seq<char>, Seq<char>> {
    Map::empty()
}

/// `rdkafka::ClientConfig::new`: client settings that hold nothing.
#[verifier::external_body]
fn no_entries() -> (client: ClientConfig)
    ensures
        entries(client) == no_settings(),
{
    ClientConfig::new()
}

/// `rdkafka::ClientConfig::set`: puts the value of a key, in place of an earlier
/// one.
#[verifier::external_body]
fn put(client: &mut ClientConfig, key: &str, value: &str)
    ensures
        entries(*final(client)) == entries(*old(client)).insert(key@, value@),
{
    client.set(key, value);
}

/// Settings that have message-count units and apply to all Pulse Kafka producers.
///
/// `message_timeout` and `delivery_timeout` must be equal because librdkafka treats
/// `message.timeout.ms` and `delivery.timeout.ms` as aliases. They are retained as
/// separate fields so the aliasing is explicit at the configuration boundary.
#[derive(Debug, Eq, PartialEq)]
pub struct KafkaProducerConfig {
    pub queue_capacity_messages: usize,
    pub message_max_bytes: usize,
    pub message_timeout: Duration,
    pub delivery_timeout: Duration,
    pub request_timeout: Duration,
    pub acks: String,
    pub enable_idempotence: bool,
}

/// Settings that have byte-prefetch units and apply to the Pulse Kafka consumer.
#[derive(Debug, Eq, PartialEq)]
pub struct KafkaConsumerConfig {
    pub max_poll_interval: Duration,
    pub session_timeout: Duration,
    /// Bounds synchronous offset commits and other broker requests.
    pub request_timeout: Duration,
    pub prefetch_kib: usize,
    /// Initial maximum bytes fetched for one topic partition.
    pub partition_fetch_max_bytes: usize,
    /// Maximum bytes returned by one fetch request across partitions.
    pub fetch_max_bytes: usize,
    /// Maximum combined key and payload bytes Pulse will retain and decode for
    /// one consumed record. Brokers may return a first record that is larger than
    /// the fetch limits, so that a partition can make progress.
    pub record_max_bytes: usize,
}

/// What is wrong with a span that Kafka counts in milliseconds of 32 bits.
pub open spec fn duration_problem(name: Seq<char>, duration: Duration) -> Option<Seq<char>> {
    if millis(duration) == 0 {
        Some(name + " must be at least one millisecond"@)
    } else if millis(duration) > i32::MAX {
        Some(name + " exceeds Kafka's signed 32-bit millisecond limit"@)
    } else {
        None
    }
}

/// What is wrong with a number that Kafka counts in 32 bits.
pub open spec fn capacity_problem(name: Seq<char>, value: usize) -> Option<Seq<char>> {
    if value == 0 {
        Some(name + " must be greater than zero"@)
    } else if value > i32::MAX {
        Some(name + " exceeds Kafka's signed 32-bit limit"@)
    } else {
        None
    }
}

/// The first of two problems, where there is one.
pub open spec fn first(a: Option<Seq<char>>, b: Option<Seq<char>>) -> Option<Seq<char>> {
    if a is Some {
        a
    } else {
        b
    }
}

/// Whether an outcome reports a problem exactly where there is one.
pub open spec fn reports<T>(r: Result<T, String>, problem: Option<Seq<char>>) -> bool {
    match r {
        Ok(_) => problem is None,
        Err(m) => problem == Some(m@),
    }
}

fn validate_duration(name: &str, duration: Duration) -> (r: Result<(), String>)
    ensures
        reports(r, duration_problem(name@, duration)),
{
    let ms: u128 = duration.as_millis();
    if ms == 0 {
        return Err(concat2(name, " must be at least one millisecond"));
    }
    if ms > i32::MAX as u128 {
        return Err(concat2(name, " exceeds Kafka's signed 32-bit millisecond limit"));
    }
    Ok(())
}

fn validate_capacity(name: &str, value: usize) -> (r: Result<(), String>)
    ensures
        reports(r, capacity_problem(name@, value)),
{
    if value == 0 {
        return Err(concat2(name, " must be greater than zero"));
    }
    if value > i32::MAX as usize {
        return Err(concat2(name, " exceeds Kafka's signed 32-bit limit"));
    }
    Ok(())
}

// ---------------------------------------------------------------------------
// Producers
// ---------------------------------------------------------------------------

impl Clone for KafkaProducerConfig {
    fn clone(&self) -> (c: Self)
        ensures
            c.acks@ == self.acks@,
            c == (KafkaProducerConfig { acks: c.acks, ..*self }),
    {
        KafkaProducerConfig {
            queue_capacity_messages: self.queue_capacity_messages,
            message_max_bytes: self.message_max_bytes,
            message_timeout: self.message_timeout,
            delivery_timeout: self.delivery_timeout,
            request_timeout: self.request_timeout,
            acks: self.acks.clone(),
            enable_idempotence: self.enable_idempotence,
        }
    }
}

impl Clone for KafkaConsumerConfig {
    fn clone(&self) -> (c: Self)
        ensures
            c == *self,
    {
        KafkaConsumerConfig {
            max_poll_interval: self.max_poll_interval,
            session_timeout: self.session_timeout,
            request_timeout: self.request_timeout,
            prefetch_kib: self.prefetch_kib,
            partition_fetch_max_bytes: self.partition_fetch_max_bytes,
            fetch_max_bytes: self.fetch_max_bytes,
            record_max_bytes: self.record_max_bytes,
        }
    }
}

impl Default for KafkaProducerConfig {
    fn default() -> (c: Self)
        ensures
            c.queue_capacity_messages == 1_024,
            c.is_default_but_for_the_queue(),
    {
        KafkaProducerConfig {
            queue_capacity_messages: 1_024,
            message_max_bytes: 1_000_000,
            message_timeout: Duration::from_secs(10),
            delivery_timeout: Duration::from_secs(10),
            request_timeout: Duration::from_secs(5),
            acks: copy_str("all"),
            enable_idempotence: true,
        }
    }
}

impl KafkaProducerConfig {
    /// Whether all settings but the queue capacity are the default ones.
    pub open spec fn is_default_but_for_the_queue(self) -> bool {
        &&& self.message_max_bytes == 1_000_000
        &&& nanos(self.message_timeout) == 10_000_000_000
        &&& nanos(self.delivery_timeout) == 10_000_000_000
        &&& nanos(self.request_timeout) == 5_000_000_000
        &&& self.acks@ == "all"@
        &&& self.enable_idempotence
    }

    /// The default settings with another queue capacity.
    pub fn with_queue_capacity(queue_capacity_messages: usize) -> (c: Self)
        ensures
            c.queue_capacity_messages == queue_capacity_messages,
            c.is_default_but_for_the_queue(),
    {
        let mut config = KafkaProducerConfig::default();
        config.queue_capacity_messages = queue_capacity_messages;
        config
    }

    /// The first rule that the settings break.
    pub open spec fn problem(self) -> Option<Seq<char>> {
        first(
            capacity_problem("Kafka producer queue capacity"@, self.queue_capacity_messages),
            first(
                capacity_problem("Kafka producer message max bytes"@, self.message_max_bytes),
                first(
                    duration_problem("Kafka message timeout"@, self.message_timeout),
                    first(
                        duration_problem("Kafka delivery timeout"@, self.delivery_timeout),
                        first(
                            duration_problem("Kafka request timeout"@, self.request_timeout),
                            if nanos(self.message_timeout) != nanos(self.delivery_timeout) {
                                Some(
                                    "Kafka message timeout must equal delivery timeout because librdkafka treats message.timeout.ms and delivery.timeout.ms as aliases"@,
                                )
                            } else if nanos(self.request_timeout) > nanos(self.delivery_timeout) {
                                Some("Kafka request timeout must not exceed delivery timeout"@)
                            } else if self.acks@ != "all"@ && self.acks@ != "-1"@ {
                                Some(
                                    "Kafka producer acks must be 'all' or '-1' for durable disposition publication"@,
                                )
                            } else {
                                None
                            },
                        ),
                    ),
                ),
            ),
        )
    }

    /// Checks the settings.
    pub fn validate(&self) -> (r: Result<(), String>)
        ensures
            reports(r, self.problem()),
    {
        validate_capacity("Kafka producer queue capacity", self.queue_capacity_messages)?;
        validate_capacity("Kafka producer message max bytes", self.message_max_bytes)?;
        validate_duration("Kafka message timeout", self.message_timeout)?;
        validate_duration("Kafka delivery timeout", self.delivery_timeout)?;
        validate_duration("Kafka request timeout", self.request_timeout)?;
        if self.message_timeout.as_nanos() != self.delivery_timeout.as_nanos() {
            return Err(
                copy_str(
                    "Kafka message timeout must equal delivery timeout because librdkafka treats message.timeout.ms and delivery.timeout.ms as aliases",
                ),
            );
        }
        if shorter(self.delivery_timeout, self.request_timeout) {
            return Err(copy_str("Kafka request timeout must not exceed delivery timeout"));
        }
        if !str_eq(&self.acks, "all") && !str_eq(&self.acks, "-1") {
            return Err(
                copy_str(
                    "Kafka producer acks must be 'all' or '-1' for durable disposition publication",
                ),
            );
        }
        Ok(())
    }
}

/// The text of yes or no.
pub open spec fn flag_text(flag: bool) -> Seq<char> {
    if flag {
        "true"@
    } else {
        "false"@
    }
}

fn show_flag(flag: bool) -> (s: &'static str)
    ensures
        s@ == flag_text(flag),
{
    if flag {
        "true"
    } else {
        "false"
    }
}

/// The client settings of a producer.
pub open spec fn producer_entries(brokers: Seq<char>, c: KafkaProducerConfig) -> Map<
    Seq<char>,
    Seq<char>,
> {
    no_settings().insert("bootstrap.servers"@, brokers).insert("acks"@, c.acks@).insert(
        "enable.idempotence"@,
        flag_text(c.enable_idempotence),
    ).insert(
        "queue.buffering.max.messages"@,
        decimal(c.queue_capacity_messages as nat),
    ).insert("message.max.bytes"@, decimal(c.message_max_bytes as nat)).insert(
        "message.timeout.ms"@,
        decimal(millis(c.message_timeout)),
    ).insert("delivery.timeout.ms"@, decimal(millis(c.delivery_timeout))).insert(
        "request.timeout.ms"@,
        decimal(millis(c.request_timeout)),
    )
}

/// The client settings of a producer.
pub fn producer_client_config(brokers: &str, config: &KafkaProducerConfig) -> (r: Result<
    ClientConfig,
    String,
>)
    ensures
        reports(r, config.problem()),
        r matches Ok(client) ==> entries(client) == producer_entries(brokers@, *config),
{
    config.validate()?;
    let mut client = no_entries();
    put(&mut client, "bootstrap.servers", brokers);
    put(&mut client, "acks", &config.acks);
    put(&mut client, "enable.idempotence", show_flag(config.enable_idempotence));
    put(
        &mut client,
        "queue.buffering.max.messages",
        &decimal_usize(config.queue_capacity_messages),
    );
    put(&mut client, "message.max.bytes", &decimal_usize(config.message_max_bytes));
    put(&mut client, "message.timeout.ms", &decimal_u128(config.message_timeout.as_millis()));
    put(&mut client, "delivery.timeout.ms", &decimal_u128(config.delivery_timeout.as_millis()));
    put(&mut client, "request.timeout.ms", &decimal_u128(config.request_timeout.as_millis()));
    Ok(client)
}

// ---------------------------------------------------------------------------
// Consumers
// ---------------------------------------------------------------------------

impl Default for KafkaConsumerConfig {
    fn default() -> (c: Self)
        ensures
            c.prefetch_kib == 4_096,
            c.is_default_but_for_the_prefetch(),
    {
        KafkaConsumerConfig {
            max_poll_interval: Duration::from_secs(300),
            session_timeout: Duration::from_secs(10),
            request_timeout: Duration::from_secs(5),
            prefetch_kib: 4_096,
            partition_fetch_max_bytes: 524_288,
            fetch_max_bytes: 4_194_304,
            record_max_bytes: 1_000_000,
        }
    }
}

/// The bytes of evidence that a record may hold: a key and a payload.
pub open spec fn evidence_bytes() -> nat {
    (MAX_POISON_EVIDENCE_FIELD_BYTES * 2) as nat
}

impl KafkaConsumerConfig {
    /// Whether all settings but the prefetch are the default ones.
    pub open spec fn is_default_but_for_the_prefetch(self) -> bool {
        &&& nanos(self.max_poll_interval) == 300_000_000_000
        &&& nanos(self.session_timeout) == 10_000_000_000
        &&& nanos(self.request_timeout) == 5_000_000_000
        &&& self.partition_fetch_max_bytes == 524_288
        &&& self.fetch_max_bytes == 4_194_304
        &&& self.record_max_bytes == 1_000_000
    }

    /// The default settings with another prefetch.
    pub fn with_prefetch_kib(prefetch_kib: usize) -> (c: Self)
        ensures
            c.prefetch_kib == prefetch_kib,
            c.is_default_but_for_the_prefetch(),
    {
        let mut config = KafkaConsumerConfig::default();
        config.prefetch_kib = prefetch_kib;
        config
    }

    /// What is wrong between the settings.
    pub open spec fn relation_problem(self) -> Option<Seq<char>> {
        if nanos(self.session_timeout) >= nanos(self.max_poll_interval) {
            Some("Kafka session timeout must be less than max poll interval"@)
        } else if nanos(self.request_timeout) >= nanos(self.max_poll_interval) {
            Some("Kafka consumer request timeout must be less than max poll interval"@)
        } else if self.fetch_max_bytes < self.partition_fetch_max_bytes {
            Some("Kafka consumer fetch max bytes must be at least the partition fetch max bytes"@)
        } else if self.fetch_max_bytes < self.record_max_bytes {
            Some("Kafka consumer fetch max bytes must be at least the consumed-record max bytes"@)
        } else if self.record_max_bytes < evidence_bytes() {
            Some(
                "Kafka consumer record max bytes must be at least "@ + decimal(evidence_bytes())
                    + " to retain bounded key and payload poison prefixes"@,
            )
        } else if self.fetch_max_bytes + KAFKA_RESPONSE_OVERHEAD_BYTES > i32::MAX {
            Some("Kafka consumer fetch max bytes leaves no room for protocol response overhead"@)
        } else {
            None
        }
    }

    /// The first rule that the settings break.
    pub open spec fn problem(self) -> Option<Seq<char>> {
        first(
            duration_problem("Kafka max poll interval"@, self.max_poll_interval),
            first(
                duration_problem("Kafka session timeout"@, self.session_timeout),
                first(
                    duration_problem("Kafka consumer request timeout"@, self.request_timeout),
                    first(
                        capacity_problem("Kafka consumer prefetch KiB"@, self.prefetch_kib),
                        first(
                            capacity_problem(
                                "Kafka consumer partition fetch max bytes"@,
                                self.partition_fetch_max_bytes,
                            ),
                            first(
                                capacity_problem(
                                    "Kafka consumer fetch max bytes"@,
                                    self.fetch_max_bytes,
                                ),
                                first(
                                    capacity_problem(
                                        "Kafka consumer record max bytes"@,
                                        self.record_max_bytes,
                                    ),
                                    self.relation_problem(),
                                ),
                            ),
                        ),
                    ),
                ),
            ),
        )
    }

    /// Checks the settings.
    pub fn validate(&self) -> (r: Result<(), String>)
        ensures
            reports(r, self.problem()),
    {
        validate_duration("Kafka max poll interval", self.max_poll_interval)?;
        validate_duration("Kafka session timeout", self.session_timeout)?;
        validate_duration("Kafka consumer request timeout", self.request_timeout)?;
        validate_capacity("Kafka consumer prefetch KiB", self.prefetch_kib)?;
        validate_capacity(
            "Kafka consumer partition fetch max bytes",
            self.partition_fetch_max_bytes,
        )?;
        validate_capacity("Kafka consumer fetch max bytes", self.fetch_max_bytes)?;
        validate_capacity("Kafka consumer record max bytes", self.record_max_bytes)?;
        let evidence: usize = MAX_POISON_EVIDENCE_FIELD_BYTES * 2;
        if !shorter(self.session_timeout, self.max_poll_interval) {
            return Err(copy_str("Kafka session timeout must be less than max poll interval"));
        }
        if !shorter(self.request_timeout, self.max_poll_interval) {
            return Err(
                copy_str("Kafka consumer request timeout must be less than max poll interval"),
            );
        }
        if self.fetch_max_bytes < self.partition_fetch_max_bytes {
            return Err(
                copy_str(
                    "Kafka consumer fetch max bytes must be at least the partition fetch max bytes",
                ),
            );
        }
        if self.fetch_max_bytes < self.record_max_bytes {
            return Err(
                copy_str(
                    "Kafka consumer fetch max bytes must be at least the consumed-record max bytes",
                ),
            );
        }
        if self.record_max_bytes < evidence {
            return Err(
                concat3(
                    "Kafka consumer record max bytes must be at least ",
                    &decimal_usize(evidence),
                    " to retain bounded key and payload poison prefixes",
                ),
            );
        }
        if self.fetch_max_bytes > i32::MAX as usize - KAFKA_RESPONSE_OVERHEAD_BYTES {
            return Err(
                copy_str(
                    "Kafka consumer fetch max bytes leaves no room for protocol response overhead",
                ),
            );
        }
        Ok(())
    }
}

/// The client settings of a consumer. Offsets are neither committed nor stored by
/// the client itself: a record counts as consumed only when its disposition is
/// durable.
pub open spec fn consumer_entries(
    brokers: Seq<char>,
    group_id: Seq<char>,
    c: KafkaConsumerConfig,
) -> Map<Seq<char>, Seq<char>> {
    no_settings().insert("bootstrap.servers"@, brokers).insert("group.id"@, group_id).insert(
        "enable.auto.commit"@,
        "false"@,
    ).insert("enable.auto.offset.store"@, "false"@).insert("enable.partition.eof"@, "false"@).insert(
        "auto.offset.reset"@,
        "earliest"@,
    ).insert("max.poll.interval.ms"@, decimal(millis(c.max_poll_interval))).insert(
        "session.timeout.ms"@,
        decimal(millis(c.session_timeout)),
    ).insert("socket.timeout.ms"@, decimal(millis(c.request_timeout))).insert(
        "queued.max.messages.kbytes"@,
        decimal(c.prefetch_kib as nat),
    ).insert("fetch.message.max.bytes"@, decimal(c.partition_fetch_max_bytes as nat)).insert(
        "fetch.max.bytes"@,
        decimal(c.fetch_max_bytes as nat),
    ).insert(
        "receive.message.max.bytes"@,
        decimal((c.fetch_max_bytes + KAFKA_RESPONSE_OVERHEAD_BYTES) as nat),
    )
}

/// The client settings of a consumer.
pub fn consumer_client_config(brokers: &str, group_id: &str, config: &KafkaConsumerConfig) -> (r:
    Result<ClientConfig, String>)
    ensures
        reports(r, config.problem()),
        r matches Ok(client) ==> entries(client) == consumer_entries(brokers@, group_id@, *config),
{
    config.validate()?;
    let receive_max_bytes: usize = config.fetch_max_bytes + KAFKA_RESPONSE_OVERHEAD_BYTES;
    let mut client = no_entries();
    put(&mut client, "bootstrap.servers", brokers);
    put(&mut client, "group.id", group_id);
    put(&mut client, "enable.auto.commit", "false");
    put(&mut client, "enable.auto.offset.store", "false");
    put(&mut client, "enable.partition.eof", "false");
    put(&mut client, "auto.offset.reset", "earliest");
    put(&mut client, "max.poll.interval.ms", &decimal_u128(config.max_poll_interval.as_millis()));
    put(&mut client, "session.timeout.ms", &decimal_u128(config.session_timeout.as_millis()));
    put(&mut client, "socket.timeout.ms", &decimal_u128(config.request_timeout.as_millis()));
    put(&mut client, "queued.max.messages.kbytes", &decimal_usize(config.prefetch_kib));
    put(
        &mut client,
        "fetch.message.max.bytes",
        &decimal_usize(config.partition_fetch_max_bytes),
    );
    put(&mut client, "fetch.max.bytes", &decimal_usize(config.fetch_max_bytes));
    put(&mut client, "receive.message.max.bytes", &decimal_usize(receive_max_bytes));
    Ok(client)
}

/// The client settings of a probe that only reads metadata: it creates no topics.
pub fn probe_client_config(brokers: &str) -> (client: ClientConfig)
    ensures
        entries(client) == no_settings().insert(
            "bootstrap.servers"@,
            brokers@,
        ).insert("allow.auto.create.topics"@, "false"@),
{
    let mut client = no_entries();
    put(&mut client, "bootstrap.servers", brokers);
    put(&mut client, "allow.auto.create.topics", "false");
    client
}

/// The client settings that name the brokers and nothing else.
pub fn broker_client_config(brokers: &str) -> (client: ClientConfig)
    ensures
        entries(client) == no_settings().insert(
            "bootstrap.servers"@,
            brokers@,
        ),
{
    let mut client = no_entries();
    put(&mut client, "bootstrap.servers", brokers);
    client
}

} // verus!
