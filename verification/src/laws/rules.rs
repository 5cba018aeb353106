//! The rules that settings keep.
use std::time::Duration;
use vstd::prelude::*;
use vstd::arithmetic::power2::pow2;
use super::settings::{lemma_letters, letters, stripped};
use super::text::{apart, glued, lemma_glued_split, lemma_split_glued};
use crate::config::app::{
    allowlist_problem, config_problem, is_allowed, socket_error, target_problem, AddressFacts,
    AppConfig,
};
use crate::config::endpoint::{
    broker_problem, entries_problem, has_scheme_mark, host_of_parts, is_origin_path,
    parsed_endpoint, validate_brokers, without_brackets, UriParts,
};
use crate::config::error::ConfigError;
use crate::config::hosts::{is_host_name, is_label, is_label_char, validate_allowlist_host};
use crate::config::rate::lemma_bits_order;
use crate::config::rules::{
    backoff_bound, backoff_factor, backoff_sum, is_topic_char, least, poison_record_size_bound,
    retry_backoff_upper_bound, sum_nanos, topic_problem, validate_topic,
};
use crate::durations::{max_nanos, nanos};
use crate::keys::{hash_tag, redis_hash_tag};
use crate::text::{ascii_lower, is_blank, split_on, trimmed, utf8_len, views};

verus! {

// ---------------------------------------------------------------------------
// Names
// ---------------------------------------------------------------------------

/// Whether a character is one of the letters from A to Z, in capitals or small, or a digit.
pub open spec fn plain_char(c: char) -> bool {
    let u = c as int;
    65 <= u <= 90 || 97 <= u <= 122 || 48 <= u <= 57
}

/// Whether a text can be the name of a topic: up to 249 bytes of letters, digits, dots,
/// underscores and hyphens.
pub open spec fn names_topic(topic: Seq<char>) -> bool {
    &&& !is_blank(topic)
    &&& utf8_len(topic) <= 249
    &&& forall|i: int|
        0 <= i < topic.len() ==> plain_char(#[trigger] topic[i]) || topic[i] == '.' || topic[i]
            == '_' || topic[i] == '-'
}

proof fn lemma_names_topic(name: Seq<char>, topic: Seq<char>)
    ensures
        names_topic(topic) <==> topic_problem(name, topic) is None,
{
    if topic_problem(name, topic) is None {
        assert forall|i: int| 0 <= i < topic.len() implies plain_char(#[trigger] topic[i])
            || topic[i] == '.' || topic[i] == '_' || topic[i] == '-' by {
            assert(is_topic_char(topic[i]));
        }
    }
    if names_topic(topic) {
        assert forall|i: int| 0 <= i < topic.len() implies is_topic_char(#[trigger] topic[i]) by {
            assert(plain_char(topic[i]) || topic[i] == '.' || topic[i] == '_' || topic[i] == '-');
        }
    }
}

/// The name of a topic is checked.
pub proof fn law_topic(name: &str, topic: &str, r: Result<(), ConfigError>)
    requires
        call_ensures(validate_topic, (name, topic), r),
    ensures
        r is Ok <==> names_topic(topic@),
        r matches Err(e) ==> (e matches ConfigError::Invalid { name: n, reason } && n@ == name@),
{
    lemma_names_topic(name@, topic@);
}

/// Whether a text is the hash tag of a key: it stands between the first opening brace and
/// the next closing one and is not empty.
pub open spec fn tagged(key: Seq<char>, tag: Seq<char>) -> bool {
    exists|i: int, j: int| #[trigger] braced(key, i, j) && tag == key.subrange(i + 1, j)
}

/// Whether the first opening brace and the next closing one stand at these places, with
/// something between them.
pub open spec fn braced(key: Seq<char>, i: int, j: int) -> bool {
    &&& 0 <= i
    &&& i + 1 < j < key.len()
    &&& key[i] == '{'
    &&& key[j] == '}'
    &&& forall|k: int| 0 <= k < i ==> #[trigger] key[k] != '{'
    &&& forall|k: int| i < k < j ==> #[trigger] key[k] != '}'
}

proof fn lemma_tagged(key: Seq<char>)
    ensures
        forall|tag: Seq<char>| #[trigger] tagged(key, tag) <==> hash_tag(key) == Some(tag),
{
    key.index_of_first_ensures('{');
    if key.contains('{') {
        let i = key.index_of_first('{')->0;
        let rest = key.skip(i + 1);
        rest.index_of_first_ensures('}');
        if hash_tag(key) is Some {
            let close = rest.index_of_first('}')->0;
            let j = i + 1 + close;
            assert(rest[close] == key[j]);
            assert forall|k: int| i < k < j implies #[trigger] key[k] != '}' by {
                assert(rest[k - i - 1] == key[k]);
            }
            assert(braced(key, i, j));
            assert(rest.take(close) =~= key.subrange(i + 1, j));
            assert(tagged(key, hash_tag(key)->0));
        }
    }
    assert forall|tag: Seq<char>| #[trigger] tagged(key, tag) implies hash_tag(key) == Some(tag) by {
        let (i, j) = choose|i: int, j: int| #[trigger]
            braced(key, i, j) && tag == key.subrange(i + 1, j);
        assert(key.contains('{'));
        let first = key.index_of_first('{')->0;
        assert(first == i);
        let rest = key.skip(i + 1);
        rest.index_of_first_ensures('}');
        assert(rest[j - i - 1] == '}');
        assert(rest.contains('}'));
        let close = rest.index_of_first('}')->0;
        assert(close == j - i - 1) by {
            if close < j - i - 1 {
                assert(key[i + 1 + close] != '}');
            }
        }
        assert(rest.take(close) =~= tag);
    }
}

/// The hash tag of a key is what stands between its braces.
pub proof fn law_hash_tag(key: &str, r: Option<String>)
    requires
        call_ensures(redis_hash_tag, (key,), r),
    ensures
        r matches Some(tag) ==> tagged(key@, tag@),
        forall|tag: Seq<char>| #[trigger] tagged(key@, tag) ==> (r matches Some(t) && t@ == tag),
{
    lemma_tagged(key@);
}

// ---------------------------------------------------------------------------
// Brokers, hosts and targets
// ---------------------------------------------------------------------------

/// Whether a broker is given by host and port, without a scheme, a path or a query.
pub open spec fn broker_ok(entry: Seq<char>) -> bool {
    exists|broker: Seq<char>| #[trigger]
        stripped(entry, broker) && broker.len() >= 1 && !(exists|i: int|
            0 <= i && i + 2 < broker.len() && #[trigger] broker[i] == ':' && broker[i + 1] == '/'
                && broker[i + 2] == '/') && (parsed_endpoint("http://"@ + broker) matches Ok(
            (scheme, host, port, path, query),
        ) && host is Some && port is Some && (path.len() == 0 || path == seq!['/']) && query is None)
}

pub(crate) proof fn lemma_paths(path: Seq<char>)
    ensures
        is_origin_path(path) <==> path.len() == 0 || path == seq!['/'],
{
    reveal_strlit("");
    reveal_strlit("/");
    assert("/"@ =~= seq!['/']);
    if path.len() == 0 {
        assert(path =~= ""@);
    }
}

proof fn lemma_broker(entry: Seq<char>)
    ensures
        broker_ok(entry) <==> broker_problem(entry) is None,
{
    super::settings::lemma_stripped(entry);
    let broker = trimmed(entry);
    reveal_strlit("://");
    assert("://"@.len() == 3 && "://"@[0] == ':' && "://"@[1] == '/' && "://"@[2] == '/');
    if has_scheme_mark(broker) {
        let i = choose|i: int|
            0 <= i && i + 3 <= broker.len() && #[trigger] broker.subrange(i, i + 3) == "://"@;
        let part = broker.subrange(i, i + 3);
        assert(part[0] == broker[i] && part[1] == broker[i + 1] && part[2] == broker[i + 2]);
        assert(broker[i] == ':');
    } else {
        assert forall|i: int|
            0 <= i && i + 2 < broker.len() && #[trigger] broker[i] == ':' && broker[i + 1] == '/'
                && broker[i + 2] == '/' implies false by {
            assert(broker.subrange(i, i + 3) =~= "://"@);
        }
    }
    if parsed_endpoint("http://"@ + broker) is Ok {
        lemma_paths(parsed_endpoint("http://"@ + broker)->Ok_0.3);
    }
    if broker_problem(entry) is None {
        assert(stripped(entry, broker));
    }
}

/// Whether a text is a list of brokers with commas between them.
pub open spec fn lists_brokers(text: Seq<char>) -> bool {
    &&& !is_blank(text)
    &&& exists|parts: Seq<Seq<char>>| #[trigger]
        glued(parts, ',') == text && apart(parts, ',') && parts.len() >= 1 && forall|i: int|
            0 <= i < parts.len() ==> broker_ok(#[trigger] parts[i])
}

proof fn lemma_entries(entries: Seq<Seq<char>>)
    ensures
        entries_problem(entries) is None <==> forall|i: int|
            0 <= i < entries.len() ==> broker_ok(#[trigger] entries[i]),
    decreases entries.len(),
{
    if entries.len() > 0 {
        let front = entries.drop_last();
        lemma_entries(front);
        lemma_broker(entries.last());
        if entries_problem(entries) is None {
            assert forall|i: int| 0 <= i < entries.len() implies broker_ok(#[trigger] entries[i]) by {
                if i < front.len() {
                    assert(broker_ok(front[i]));
                }
            }
        }
        if forall|i: int| 0 <= i < entries.len() ==> broker_ok(#[trigger] entries[i]) {
            assert(broker_ok(entries[entries.len() - 1]));
            assert forall|i: int| 0 <= i < front.len() implies broker_ok(#[trigger] front[i]) by {
                assert(broker_ok(entries[i]));
            }
        }
    }
}

proof fn lemma_brokers(text: Seq<char>)
    ensures
        lists_brokers(text) <==> crate::config::endpoint::brokers_problem(text) is None,
{
    let parts = split_on(text, ',');
    lemma_glued_split(text, ',');
    lemma_entries(parts);
    if lists_brokers(text) {
        let p = choose|parts: Seq<Seq<char>>| #[trigger]
            glued(parts, ',') == text && apart(parts, ',') && parts.len() >= 1 && forall|i: int|
                0 <= i < parts.len() ==> broker_ok(#[trigger] parts[i]);
        lemma_split_glued(p, ',');
    } else if crate::config::endpoint::brokers_problem(text) is None {
        assert(glued(parts, ',') == text);
    }
}

/// A list of brokers is checked entry by entry.
pub proof fn law_brokers(brokers: &str, r: Result<(), ConfigError>)
    requires
        call_ensures(validate_brokers, (brokers,), r),
    ensures
        r is Ok <==> lists_brokers(brokers@),
{
    lemma_brokers(brokers@);
}

/// Whether a text is a part of a host name: 1 to 63 letters, digits and hyphens, with no
/// hyphen at either end.
pub open spec fn host_part(part: Seq<char>) -> bool {
    &&& 1 <= part.len() <= 63
    &&& part[0] != '-'
    &&& part[part.len() - 1] != '-'
    &&& forall|i: int| 0 <= i < part.len() ==> plain_char(#[trigger] part[i]) || part[i] == '-'
}

/// Whether a text is a host name: up to 253 bytes of parts with dots between them.
pub open spec fn names_host(host: Seq<char>) -> bool {
    &&& utf8_len(host) <= 253
    &&& exists|parts: Seq<Seq<char>>| #[trigger]
        glued(parts, '.') == host && apart(parts, '.') && parts.len() >= 1 && forall|i: int|
            0 <= i < parts.len() ==> host_part(#[trigger] parts[i])
}

proof fn lemma_host_part(part: Seq<char>)
    ensures
        host_part(part) <==> is_label(part),
{
    if host_part(part) {
        assert forall|i: int| 0 <= i < part.len() implies is_label_char(#[trigger] part[i]) by {
            assert(plain_char(part[i]) || part[i] == '-');
        }
    }
    if is_label(part) {
        assert forall|i: int| 0 <= i < part.len() implies plain_char(#[trigger] part[i]) || part[i]
            == '-' by {
            assert(is_label_char(part[i]));
        }
    }
}

pub(crate) proof fn lemma_names_host(host: Seq<char>)
    ensures
        names_host(host) <==> is_host_name(host),
{
    let parts = split_on(host, '.');
    lemma_glued_split(host, '.');
    if names_host(host) {
        let p = choose|parts: Seq<Seq<char>>| #[trigger]
            glued(parts, '.') == host && apart(parts, '.') && parts.len() >= 1 && forall|i: int|
                0 <= i < parts.len() ==> host_part(#[trigger] parts[i]);
        lemma_split_glued(p, '.');
        assert forall|i: int| 0 <= i < parts.len() implies is_label(#[trigger] parts[i]) by {
            lemma_host_part(parts[i]);
        }
    }
    if is_host_name(host) {
        assert forall|i: int| 0 <= i < parts.len() implies host_part(#[trigger] parts[i]) by {
            assert(is_label(split_on(host, '.')[i]));
            lemma_host_part(parts[i]);
        }
        assert(glued(parts, '.') == host);
    }
}

/// An entry of the allowlist is an IP address or a host name.
pub proof fn law_allowlist_host(host: &str, addresses: Vec<String>, r: Result<(), ConfigError>)
    requires
        call_ensures(validate_allowlist_host, (host, &addresses), r),
    ensures
        r is Ok <==> views(addresses@).contains(host@) || names_host(host@),
{
    lemma_names_host(host@);
}

/// Whether a text is a host in small letters, without the brackets of an IPv6 address.
pub open spec fn bare_host(host: Seq<char>, text: Seq<char>) -> bool {
    if host.len() >= 2 && host[0] == '[' && host[host.len() - 1] == ']' {
        letters(host.subrange(1, host.len() - 1), text)
    } else {
        letters(host, text)
    }
}

/// The host of an endpoint is that of a plain HTTP URL without a path and a query.
pub proof fn law_endpoint_host(
    name: &str,
    uri: Result<UriParts, String>,
    r: Result<String, ConfigError>,
)
    requires
        call_ensures(host_of_parts, (name, uri), r),
    ensures
        r is Ok <==> (uri matches Ok(p) && (p.scheme matches Some(s) && s@ == "http"@) && (
        p.path@.len() == 0 || p.path@ == seq!['/']) && p.query is None && p.host is Some),
        r matches Ok(host) ==> (uri matches Ok(p) && (p.host matches Some(h) && bare_host(
            h@,
            host@,
        ))),
{
    reveal_strlit("http");
    reveal_strlit("https");
    assert("http"@.len() == 4 && "https"@.len() == 5);
    if uri is Ok {
        let p = uri->Ok_0;
        lemma_paths(p.path@);
        if p.host is Some {
            let h = p.host->0@;
            lemma_letters(without_brackets(h), ascii_lower(without_brackets(h)));
        }
    }
}

/// Whether a host may be targeted: it is on the list, in capitals or small letters, or all
/// hosts were acknowledged.
pub open spec fn may_be_targeted(c: AppConfig, host: Seq<char>) -> bool {
    ||| c.acknowledge_non_local_targets
    ||| exists|i: int, low: Seq<char>|
        0 <= i < c.target_allowlist@.len() && #[trigger] letters(c.target_allowlist@[i]@, low)
            && letters(host, low)
}

proof fn lemma_targeted(c: AppConfig, host: Seq<char>)
    ensures
        may_be_targeted(c, host) <==> is_allowed(c, host),
{
    lemma_letters(host, ascii_lower(host));
    if is_allowed(c, host) && !c.acknowledge_non_local_targets {
        let i = choose|i: int|
            0 <= i < c.target_allowlist@.len() && ascii_lower((#[trigger] c.target_allowlist@[i])@)
                == ascii_lower(host);
        lemma_letters(c.target_allowlist@[i]@, ascii_lower(host));
        assert(letters(c.target_allowlist@[i]@, ascii_lower(host)));
    }
    if may_be_targeted(c, host) && !c.acknowledge_non_local_targets {
        let (i, low) = choose|i: int, low: Seq<char>|
            0 <= i < c.target_allowlist@.len() && #[trigger] letters(c.target_allowlist@[i]@, low)
                && letters(host, low);
        lemma_letters(c.target_allowlist@[i]@, low);
        lemma_letters(host, low);
        assert(ascii_lower(c.target_allowlist@[i]@) == ascii_lower(host));
    }
}

/// A host is targeted only where it may be.
pub proof fn law_target_host(c: AppConfig, host: &str, r: Result<(), ConfigError>)
    requires
        call_ensures(AppConfig::validate_target_host, (&c, host), r),
    ensures
        r is Ok <==> may_be_targeted(c, host@),
{
    lemma_targeted(c, host@);
}

/// Whether an endpoint may be targeted: it is reached over plain HTTP, without a path and a
/// query, and its host may be targeted.
pub open spec fn target_ok(c: AppConfig, endpoint: Seq<char>) -> bool {
    parsed_endpoint(endpoint) matches Ok((scheme, host, port, path, query)) && scheme == Some(
        "http"@,
    ) && (path.len() == 0 || path == seq!['/']) && query is None && (host matches Some(h)
        && exists|text: Seq<char>| #[trigger] bare_host(h, text) && may_be_targeted(c, text))
}

pub(crate) proof fn lemma_target(c: AppConfig, endpoint: Seq<char>)
    ensures
        target_ok(c, endpoint) <==> target_problem(c, endpoint) is None,
{
    reveal_strlit("http");
    reveal_strlit("https");
    assert("http"@.len() == 4 && "https"@.len() == 5);
    if parsed_endpoint(endpoint) is Ok {
        let (scheme, host, port, path, query) = parsed_endpoint(endpoint)->Ok_0;
        lemma_paths(path);
        if host is Some {
            let h = host->0;
            let text = ascii_lower(without_brackets(h));
            lemma_letters(without_brackets(h), text);
            assert(bare_host(h, text));
            lemma_targeted(c, text);
            assert forall|t: Seq<char>| #[trigger] bare_host(h, t) implies t == text by {
                lemma_letters(without_brackets(h), t);
            }
        }
    }
}

/// An endpoint is targeted only where it may be.
pub proof fn law_target_endpoint(c: AppConfig, endpoint: &str, r: Result<(), ConfigError>)
    requires
        call_ensures(AppConfig::validate_target_endpoint, (&c, endpoint), r),
    ensures
        r is Ok <==> target_ok(c, endpoint@),
{
    lemma_target(c, endpoint@);
}

// ---------------------------------------------------------------------------
// Retries
// ---------------------------------------------------------------------------

/// The longest wait before a retry: the base delay, doubled with every attempt up to the
/// sixteenth, and a fifth more, cut at the maximum each time.
pub open spec fn longest_wait(base: int, maximum: int, attempt: nat) -> int {
    let doubled = base * pow2(if attempt <= 16 {
        attempt
    } else {
        16
    });
    let cut = if doubled <= maximum {
        doubled
    } else {
        maximum
    };
    let more = cut * 6 / 5;
    if more <= maximum {
        more
    } else {
        maximum
    }
}

/// The longest waits before so many retries together.
pub open spec fn longest_waits(base: int, maximum: int, retries: nat) -> int
    decreases retries,
{
    if retries == 0 {
        0
    } else {
        longest_waits(base, maximum, (retries - 1) as nat) + longest_wait(
            base,
            maximum,
            (retries - 1) as nat,
        )
    }
}

proof fn lemma_factor(attempt: nat)
    ensures
        backoff_factor(attempt) == pow2(if attempt <= 16 {
            attempt
        } else {
            16
        }),
    decreases attempt,
{
    vstd::arithmetic::power2::lemma2_to64();
    if attempt > 0 {
        lemma_factor((attempt - 1) as nat);
        if attempt <= 16 {
            vstd::arithmetic::power2::lemma_pow2_unfold(attempt);
        }
    }
}

pub(crate) proof fn lemma_waits(base: nat, maximum: nat, retries: nat)
    requires
        maximum * 6 <= max_nanos(),
    ensures
        longest_waits(base as int, maximum as int, retries) == backoff_sum(base, maximum, retries),
        0 <= backoff_sum(base, maximum, retries) <= maximum * retries,
    decreases retries,
{
    if retries > 0 {
        let attempt = (retries - 1) as nat;
        lemma_waits(base, maximum, attempt);
        lemma_factor(attempt);
        let cut = least(least(base * backoff_factor(attempt), max_nanos()), maximum);
        assert(cut <= maximum);
        assert(cut * 6 <= max_nanos());
        assert(longest_wait(base as int, maximum as int, attempt) == backoff_bound(
            base,
            maximum,
            attempt,
        ));
        assert(maximum * retries == maximum * attempt + maximum) by (nonlinear_arith)
            requires
                retries == attempt + 1,
        ;
    } else {
        assert(maximum * retries == 0) by (nonlinear_arith)
            requires
                retries == 0,
        ;
    }
}

/// The waits before all retries together.
pub proof fn law_retry_backoff(
    base: Duration,
    maximum: Duration,
    retries: u32,
    r: Result<Duration, ConfigError>,
)
    requires
        nanos(maximum) * 6 <= max_nanos(),
        call_ensures(retry_backoff_upper_bound, (base, maximum, retries), r),
    ensures
        r matches Ok(d) ==> nanos(d) == longest_waits(
            nanos(base) as int,
            nanos(maximum) as int,
            retries as nat,
        ),
        nanos(maximum) * retries <= max_nanos() ==> r is Ok,
{
    lemma_waits(nanos(base), nanos(maximum), retries as nat);
}

/// A record carries two fields of evidence in base64 and 16 kilobytes more.
pub proof fn law_poison_record_size(bytes: usize, r: Option<usize>)
    requires
        call_ensures(poison_record_size_bound, (bytes,), r),
    ensures
        r matches Some(n) ==> n == (bytes + 2) / 3 * 4 + 4 + 16_384,
{
}

// ---------------------------------------------------------------------------
// All rules
// ---------------------------------------------------------------------------

/// The nanoseconds of the longest span that can be held.
pub open spec fn longest_span() -> int {
    18_446_744_073_709_551_615_999_999_999
}

/// How long one exchange with Redis may take: as a request to Kafka, and 2 seconds at most.
pub open spec fn exchange_nanos(c: AppConfig) -> int {
    if nanos(c.kafka_request_timeout) <= 2_000_000_000 {
        nanos(c.kafka_request_timeout) as int
    } else {
        2_000_000_000
    }
}

/// The names that Kafka knows are names, and all different.
pub open spec fn names_ok(c: AppConfig) -> bool {
    &&& lists_brokers(c.kafka_brokers@)
    &&& names_topic(c.kafka_jobs_topic@)
    &&& names_topic(c.kafka_results_topic@)
    &&& names_topic(c.kafka_summaries_topic@)
    &&& names_topic(c.kafka_dlq_topic@)
    &&& c.kafka_jobs_topic@ != c.kafka_results_topic@
    &&& c.kafka_jobs_topic@ != c.kafka_summaries_topic@
    &&& c.kafka_jobs_topic@ != c.kafka_dlq_topic@
    &&& c.kafka_results_topic@ != c.kafka_summaries_topic@
    &&& c.kafka_results_topic@ != c.kafka_dlq_topic@
    &&& c.kafka_summaries_topic@ != c.kafka_dlq_topic@
    &&& !is_blank(c.kafka_group_id@)
    &&& !is_blank(c.kafka_aggregator_group_id@)
    &&& c.kafka_group_id@ != c.kafka_aggregator_group_id@
}

/// The names that Redis knows are names, the prefixes are different, and the leader and the
/// schedule share a hash tag.
pub open spec fn keys_ok(c: AppConfig) -> bool {
    &&& !is_blank(c.redis_leader_key@)
    &&& !is_blank(c.redis_schedule_prefix@)
    &&& exists|tag: Seq<char>| #[trigger]
        tagged(c.redis_leader_key@, tag) && tagged(c.redis_schedule_prefix@, tag)
    &&& !is_blank(c.redis_idempotency_prefix@)
    &&& !is_blank(c.redis_aggregation_prefix@)
    &&& c.redis_schedule_prefix@ != c.redis_idempotency_prefix@
    &&& c.redis_schedule_prefix@ != c.redis_aggregation_prefix@
    &&& c.redis_idempotency_prefix@ != c.redis_aggregation_prefix@
    &&& !is_blank(c.node_id@)
    &&& crate::config::app::redis_url_error(c.redis_url@) is None
}

/// The times of the Kafka client: a day at most between polls, an hour at most of silence,
/// and less of it than between polls.
pub open spec fn kafka_times_ok(c: AppConfig) -> bool {
    &&& 1 <= nanos(c.kafka_max_poll_interval) <= 86_400_000_000_000
    &&& 1 <= nanos(c.kafka_session_timeout) <= 3_600_000_000_000
    &&& nanos(c.kafka_session_timeout) < nanos(c.kafka_max_poll_interval)
    &&& nanos(c.kafka_message_timeout) == nanos(c.kafka_delivery_timeout)
    &&& nanos(c.kafka_request_timeout) <= nanos(c.kafka_delivery_timeout)
    &&& c.kafka_producer_acks@ == "all"@ || c.kafka_producer_acks@ == "-1"@
}

/// The sizes of topics, queues and records: what can be published can be consumed, and a
/// poison record with full evidence can be published.
pub open spec fn sizes_ok(c: AppConfig) -> bool {
    &&& 1 <= c.kafka_topic_partitions <= 10_000
    &&& 1 <= c.kafka_topic_replication_factor <= 32
    &&& 1 <= c.producer_queue_messages <= 1_000_000
    &&& 1 <= c.consumer_queue_kbytes <= 1_048_576
    &&& 1 <= c.kafka_producer_message_max_bytes <= 268_435_456
    &&& 1 <= c.consumer_partition_fetch_max_bytes <= 268_435_456
    &&& 1 <= c.consumer_fetch_max_bytes <= 268_435_456
    &&& 1 <= c.consumer_record_max_bytes <= 268_435_456
    &&& c.consumer_partition_fetch_max_bytes <= c.consumer_fetch_max_bytes
    &&& c.consumer_record_max_bytes <= c.consumer_fetch_max_bytes
    &&& c.kafka_producer_message_max_bytes <= c.consumer_record_max_bytes
    &&& c.kafka_producer_message_max_bytes >= (2 * 262_144 + 2) / 3 * 4 + 4 + 16_384
}

/// The bounds of the aggregation: a run stays known longer than its load and the timeout.
pub open spec fn aggregation_ok(c: AppConfig) -> bool {
    &&& 1 <= c.retry_queue_capacity <= 1_000_000
    &&& 1 <= c.aggregation_scan_batch <= 1_000_000
    &&& 1 <= c.aggregation_max_active_runs <= 1_000_000
    &&& 1 <= c.aggregation_max_error_kinds <= 10_000
    &&& c.aggregation_scan_batch <= c.aggregation_max_active_runs
    &&& nanos(c.max_duration) + nanos(c.aggregation_partial_timeout) < nanos(
        c.aggregation_retention,
    )
    &&& nanos(c.aggregation_partial_timeout) < nanos(c.aggregation_retention)
    &&& nanos(c.aggregation_scan_interval) <= nanos(c.aggregation_partial_timeout)
}

/// The retries of the worker: 32 at most, with waits that are not empty and shorter than
/// the time between polls.
pub open spec fn retries_ok(c: AppConfig) -> bool {
    &&& c.worker_max_retries <= 32
    &&& 1 <= nanos(c.worker_retry_base_delay) <= nanos(c.worker_retry_max_delay)
    &&& nanos(c.worker_retry_max_delay) < nanos(c.kafka_max_poll_interval)
}

/// Whether a lease lasts for three renewals, and for a renewal, an exchange with Redis and
/// a millisecond.
pub open spec fn lease_lasts(lease: int, renewal: Duration, exchange: int) -> bool {
    &&& lease >= 3 * nanos(renewal)
    &&& lease >= nanos(renewal) + exchange + 1_000_000
}

/// The leases last, the scheduler looks more often than the leadership lapses, and outcomes
/// are remembered as long as the time between polls.
pub open spec fn leases_ok(c: AppConfig) -> bool {
    &&& lease_lasts(
        c.leader_lock_ttl_ms * 1_000_000,
        c.leader_renew_interval,
        exchange_nanos(c),
    )
    &&& nanos(c.scheduler_tick_interval) < c.leader_lock_ttl_ms * 1_000_000
    &&& lease_lasts(
        nanos(c.execution_lease_ttl) as int,
        c.execution_lease_renew_interval,
        exchange_nanos(c),
    )
    &&& nanos(c.execution_terminal_retention) >= nanos(c.kafka_max_poll_interval)
}

/// The bounds on the load: a day, a rate from more than none to 10^9 a second, a million at
/// once.
pub open spec fn load_ok(c: AppConfig) -> bool {
    &&& 1 <= nanos(c.max_duration) <= 86_400_000_000_000
    &&& 0 < c.max_scenarios_per_sec.bits <= 0x41cd_cd65_0000_0000
    &&& 1 <= c.max_concurrency <= 1_000_000
    &&& c.startup_burst <= c.max_concurrency
    &&& nanos(c.grpc_request_timeout) <= nanos(c.grpc_scenario_timeout)
}

/// The start and the end cover the requests that they wait for.
pub open spec fn lifecycle_ok(c: AppConfig) -> bool {
    &&& nanos(c.startup_deadline) >= nanos(c.grpc_connect_timeout) + nanos(c.kafka_request_timeout)
    &&& nanos(c.shutdown_drain_timeout) >= nanos(c.kafka_delivery_timeout) + nanos(
        c.kafka_request_timeout,
    )
}

/// A job with everything that settles it fits between two polls with a second to spare: the
/// load, a scenario and a wait, two deliveries and a request for each of the attempts, and
/// three times the waits between them.
pub open spec fn polls_ok(c: AppConfig) -> bool {
    let attempts = c.worker_max_retries + 1;
    nanos(c.max_duration) + nanos(c.grpc_scenario_timeout) + nanos(c.worker_retry_max_delay)
        + nanos(c.kafka_delivery_timeout) * attempts * 2 + nanos(c.kafka_request_timeout) * attempts
        + 3 * longest_waits(
        nanos(c.worker_retry_base_delay) as int,
        nanos(c.worker_retry_max_delay) as int,
        c.worker_max_retries as nat,
    ) + 1_000_000_000 < nanos(c.kafka_max_poll_interval)
}

/// There are hosts that may be targeted, all of them hosts, the metrics have a socket, and
/// the endpoint may be targeted.
pub open spec fn addresses_ok(c: AppConfig, facts: AddressFacts) -> bool {
    &&& c.target_allowlist@.len() >= 1
    &&& forall|i: int|
        0 <= i < c.target_allowlist@.len() ==> views(facts.ip_addresses@).contains(
            (#[trigger] c.target_allowlist@[i])@,
        ) || names_host(c.target_allowlist@[i]@)
    &&& forall|k: int|
        0 <= k < facts.bad_sockets@.len() ==> (#[trigger] facts.bad_sockets@[k]).0@
            != c.metrics_bind@
    &&& target_ok(c, c.pulse_endpoint@)
}

/// Settings that keep the rules.
pub open spec fn sound(c: AppConfig, facts: AddressFacts) -> bool {
    &&& names_ok(c)
    &&& keys_ok(c)
    &&& kafka_times_ok(c)
    &&& sizes_ok(c)
    &&& aggregation_ok(c)
    &&& retries_ok(c)
    &&& leases_ok(c)
    &&& load_ok(c)
    &&& lifecycle_ok(c)
    &&& polls_ok(c)
    &&& addresses_ok(c, facts)
}

/// Whether the spans of the settings are such as can be held.
pub open spec fn spans_held(c: AppConfig) -> bool {
    &&& nanos(c.startup_deadline) <= longest_span()
    &&& nanos(c.shutdown_drain_timeout) <= longest_span()
    &&& nanos(c.aggregation_retention) <= longest_span()
    &&& nanos(c.execution_lease_ttl) <= longest_span()
}

proof fn lemma_two(a: Duration, b: Duration)
    ensures
        sum_nanos(seq![a, b]) == nanos(a) + nanos(b),
{
    let s = seq![a, b];
    reveal_with_fuel(sum_nanos, 3);
    assert(s.drop_last().drop_last() =~= Seq::<Duration>::empty());
    assert(s.drop_last().last() == a);
}

proof fn lemma_socket(bad: Seq<(String, String)>, text: Seq<char>)
    ensures
        socket_error(bad, text) is None <==> forall|k: int|
            0 <= k < bad.len() ==> (#[trigger] bad[k]).0@ != text,
    decreases bad.len(),
{
    if bad.len() > 0 {
        lemma_socket(bad.skip(1), text);
        if socket_error(bad, text) is None {
            assert forall|k: int| 0 <= k < bad.len() implies (#[trigger] bad[k]).0@ != text by {
                if k > 0 {
                    assert(bad.skip(1)[k - 1].0@ != text);
                }
            }
        }
        if forall|k: int| 0 <= k < bad.len() ==> (#[trigger] bad[k]).0@ != text {
            assert(bad[0].0@ != text);
            assert forall|k: int| 0 <= k < bad.skip(1).len() implies (
            #[trigger] bad.skip(1)[k]).0@ != text by {
                assert(bad[k + 1].0@ != text);
            }
        }
    }
}

proof fn lemma_allowlist(hosts: Seq<Seq<char>>, addresses: Seq<Seq<char>>)
    ensures
        allowlist_problem(hosts, addresses) is None <==> forall|i: int|
            0 <= i < hosts.len() ==> addresses.contains(#[trigger] hosts[i]) || names_host(hosts[i]),
    decreases hosts.len(),
{
    if hosts.len() > 0 {
        let front = hosts.drop_last();
        lemma_allowlist(front, addresses);
        lemma_names_host(hosts.last());
        if allowlist_problem(hosts, addresses) is None {
            assert forall|i: int| 0 <= i < hosts.len() implies addresses.contains(
                #[trigger] hosts[i],
            ) || names_host(hosts[i]) by {
                if i < front.len() {
                    assert(front[i] == hosts[i]);
                }
            }
        }
        if forall|i: int|
            0 <= i < hosts.len() ==> addresses.contains(#[trigger] hosts[i]) || names_host(hosts[i]) {
            assert(addresses.contains(hosts[hosts.len() - 1]) || names_host(
                hosts[hosts.len() - 1],
            ));
            assert forall|i: int| 0 <= i < front.len() implies addresses.contains(
                #[trigger] front[i],
            ) || names_host(front[i]) by {
                assert(front[i] == hosts[i]);
            }
        }
    }
}

proof fn lemma_names_rules(c: AppConfig)
    ensures
        crate::config::app::kafka_names_problem(c) is None <==> names_ok(c),
{
    lemma_brokers(c.kafka_brokers@);
    lemma_names_topic("PULSE_KAFKA_JOBS_TOPIC"@, c.kafka_jobs_topic@);
    lemma_names_topic("PULSE_KAFKA_RESULTS_TOPIC"@, c.kafka_results_topic@);
    lemma_names_topic("PULSE_KAFKA_SUMMARIES_TOPIC"@, c.kafka_summaries_topic@);
    lemma_names_topic("PULSE_KAFKA_DLQ_TOPIC"@, c.kafka_dlq_topic@);
}

proof fn lemma_keys_rules(c: AppConfig)
    ensures
        crate::config::app::redis_names_problem(c) is None <==> keys_ok(c),
{
    lemma_tagged(c.redis_leader_key@);
    lemma_tagged(c.redis_schedule_prefix@);
    if hash_tag(c.redis_leader_key@) is Some && hash_tag(c.redis_leader_key@) == hash_tag(
        c.redis_schedule_prefix@,
    ) {
        assert(tagged(c.redis_leader_key@, hash_tag(c.redis_leader_key@)->0));
    }
}

proof fn lemma_plain_rules(c: AppConfig)
    ensures
        crate::config::app::kafka_times_problem(c) is None <==> kafka_times_ok(c),
        crate::config::app::kafka_sizes_problem(c) is None <==> sizes_ok(c),
        crate::config::app::retries_problem(c) is None <==> retries_ok(c),
{
}

proof fn lemma_span_rules(c: AppConfig)
    ensures
        crate::config::app::aggregation_problem(c) is None ==> aggregation_ok(c),
        aggregation_ok(c) && spans_held(c) ==> crate::config::app::aggregation_problem(c) is None,
        crate::config::app::lifecycle_problem(c) is None ==> lifecycle_ok(c),
        lifecycle_ok(c) && spans_held(c) ==> crate::config::app::lifecycle_problem(c) is None,
        crate::config::app::leases_problem(c) is None ==> leases_ok(c),
        leases_ok(c) && spans_held(c) ==> crate::config::app::leases_problem(c) is None,
{
    lemma_two(c.max_duration, c.aggregation_partial_timeout);
    lemma_two(c.grpc_connect_timeout, c.kafka_request_timeout);
    lemma_two(c.kafka_delivery_timeout, c.kafka_request_timeout);
}

proof fn lemma_load_rules(c: AppConfig)
    ensures
        crate::config::app::load_problem(c) is None <==> load_ok(c),
{
    let bits = c.max_scenarios_per_sec.bits;
    let limit: u64 = 0x41cd_cd65_0000_0000;
    if 0 < bits < 0x7ff0_0000_0000_0000 {
        if bits < limit {
            lemma_bits_order(bits, limit);
        } else if limit < bits {
            lemma_bits_order(limit, bits);
        }
    }
}

proof fn lemma_poll_rules(c: AppConfig)
    requires
        kafka_times_ok(c),
        retries_ok(c),
    ensures
        crate::config::app::poll_problem(c) is None <==> polls_ok(c),
{
    let base = nanos(c.worker_retry_base_delay);
    let maximum = nanos(c.worker_retry_max_delay);
    let retries = c.worker_max_retries as nat;
    assert(maximum <= 86_400_000_000_000);
    lemma_waits(base, maximum, retries);
    assert(maximum * retries <= 86_400_000_000_000 * 32) by (nonlinear_arith)
        requires
            maximum <= 86_400_000_000_000,
            retries <= 32,
    ;
    let attempts = retries + 1;
    let d = nanos(c.kafka_delivery_timeout);
    assert(d * (attempts * 2) == d * attempts * 2) by (nonlinear_arith);
}

proof fn lemma_address_rules(c: AppConfig, facts: AddressFacts)
    ensures
        crate::config::app::addresses_problem(c, facts) is None <==> addresses_ok(c, facts),
{
    let hosts = views(c.target_allowlist@);
    let addresses = views(facts.ip_addresses@);
    lemma_allowlist(hosts, addresses);
    lemma_socket(facts.bad_sockets@, c.metrics_bind@);
    lemma_target(c, c.pulse_endpoint@);
    assert forall|i: int| 0 <= i < hosts.len() implies #[trigger] hosts[i]
        == c.target_allowlist@[i]@ by {}
    if addresses_ok(c, facts) {
        assert forall|i: int| 0 <= i < hosts.len() implies addresses.contains(#[trigger] hosts[i])
            || names_host(hosts[i]) by {
            let h = c.target_allowlist@[i];
        }
    }
    if allowlist_problem(hosts, addresses) is None {
        assert forall|i: int| 0 <= i < c.target_allowlist@.len() implies addresses.contains(
            (#[trigger] c.target_allowlist@[i])@,
        ) || names_host(c.target_allowlist@[i]@) by {
            assert(hosts[i] == c.target_allowlist@[i]@);
        }
    }
}

pub(crate) proof fn lemma_sound(c: AppConfig, facts: AddressFacts)
    ensures
        sound(c, facts) && spans_held(c) ==> crate::config::app::config_problem(c, facts) is None,
{
    lemma_names_rules(c);
    lemma_keys_rules(c);
    lemma_plain_rules(c);
    lemma_span_rules(c);
    lemma_load_rules(c);
    if kafka_times_ok(c) && retries_ok(c) {
        lemma_poll_rules(c);
    }
    lemma_address_rules(c, facts);
}

/// Settings are valid exactly where they keep the rules.
pub proof fn law_validate(c: AppConfig, facts: AddressFacts, r: Result<(), ConfigError>)
    requires
        call_ensures(AppConfig::validate, (&c, &facts), r),
    ensures
        r is Ok ==> sound(c, facts),
        sound(c, facts) && spans_held(c) ==> r is Ok,
        r matches Err(e) ==> e is Invalid,
{
    lemma_names_rules(c);
    lemma_keys_rules(c);
    lemma_plain_rules(c);
    lemma_span_rules(c);
    lemma_load_rules(c);
    if kafka_times_ok(c) && retries_ok(c) {
        lemma_poll_rules(c);
    }
    lemma_address_rules(c, facts);
}

// ---------------------------------------------------------------------------
// Which setting is told to be wrong
// ---------------------------------------------------------------------------

/// Whether a name is that of a setting of Kafka's names that breaks its rule.
pub open spec fn names_blamed(c: AppConfig, name: Seq<char>) -> bool {
    ||| name == "PULSE_KAFKA_BROKERS"@ && !lists_brokers(c.kafka_brokers@)
    ||| name == "PULSE_KAFKA_JOBS_TOPIC"@ && !names_topic(c.kafka_jobs_topic@)
    ||| name == "PULSE_KAFKA_RESULTS_TOPIC"@ && !names_topic(c.kafka_results_topic@)
    ||| name == "PULSE_KAFKA_SUMMARIES_TOPIC"@ && !names_topic(c.kafka_summaries_topic@)
    ||| name == "PULSE_KAFKA_DLQ_TOPIC"@ && !names_topic(c.kafka_dlq_topic@)
    ||| name == "Kafka topics"@ && !seq![
        c.kafka_jobs_topic@,
        c.kafka_results_topic@,
        c.kafka_summaries_topic@,
        c.kafka_dlq_topic@,
    ].no_duplicates()
    ||| name == "PULSE_KAFKA_GROUP_ID"@ && is_blank(c.kafka_group_id@)
    ||| name == "PULSE_KAFKA_AGGREGATOR_GROUP_ID"@ && (is_blank(c.kafka_aggregator_group_id@)
        || c.kafka_group_id@ == c.kafka_aggregator_group_id@)
}

/// The same of the names that Redis knows.
pub open spec fn keys_blamed(c: AppConfig, name: Seq<char>) -> bool {
    ||| name == "PULSE_REDIS_LEADER_KEY"@ && (is_blank(c.redis_leader_key@) || hash_tag(
        c.redis_leader_key@,
    ) is None)
    ||| name == "PULSE_REDIS_SCHEDULE_PREFIX"@ && (is_blank(c.redis_schedule_prefix@) || hash_tag(
        c.redis_schedule_prefix@,
    ) is None)
    ||| name == "Redis coordination hash tag"@ && hash_tag(c.redis_leader_key@) != hash_tag(
        c.redis_schedule_prefix@,
    )
    ||| name == "PULSE_REDIS_IDEMPOTENCY_PREFIX"@ && is_blank(c.redis_idempotency_prefix@)
    ||| name == "PULSE_REDIS_AGGREGATION_PREFIX"@ && is_blank(c.redis_aggregation_prefix@)
    ||| name == "Redis prefixes"@ && !seq![
        c.redis_schedule_prefix@,
        c.redis_idempotency_prefix@,
        c.redis_aggregation_prefix@,
    ].no_duplicates()
    ||| name == "PULSE_NODE_ID"@ && is_blank(c.node_id@)
    ||| name == "PULSE_REDIS_URL"@ && crate::config::app::redis_url_error(c.redis_url@) is Some
}

/// The same of the times of the Kafka client.
pub open spec fn times_blamed(c: AppConfig, name: Seq<char>) -> bool {
    ||| name == "PULSE_KAFKA_MAX_POLL_INTERVAL_MS"@ && !(1 <= nanos(c.kafka_max_poll_interval)
        <= 86_400_000_000_000)
    ||| name == "PULSE_KAFKA_SESSION_TIMEOUT_MS"@ && !(1 <= nanos(c.kafka_session_timeout)
        <= 3_600_000_000_000 && nanos(c.kafka_session_timeout) < nanos(c.kafka_max_poll_interval))
    ||| name == "PULSE_KAFKA_MESSAGE_TIMEOUT_MS"@ && nanos(c.kafka_message_timeout) != nanos(
        c.kafka_delivery_timeout,
    )
    ||| name == "PULSE_KAFKA_REQUEST_TIMEOUT_MS"@ && nanos(c.kafka_request_timeout) > nanos(
        c.kafka_delivery_timeout,
    )
    ||| name == "PULSE_KAFKA_PRODUCER_ACKS"@ && c.kafka_producer_acks@ != "all"@
        && c.kafka_producer_acks@ != "-1"@
}

/// The same of the sizes of topics, queues and records.
pub open spec fn sizes_blamed(c: AppConfig, name: Seq<char>) -> bool {
    ||| name == "PULSE_KAFKA_TOPIC_PARTITIONS"@ && !(1 <= c.kafka_topic_partitions <= 10_000)
    ||| name == "PULSE_KAFKA_TOPIC_REPLICATION_FACTOR"@ && !(1 <= c.kafka_topic_replication_factor
        <= 32)
    ||| name == "PULSE_KAFKA_PRODUCER_QUEUE_MESSAGES"@ && !(1 <= c.producer_queue_messages
        <= 1_000_000)
    ||| name == "PULSE_KAFKA_CONSUMER_QUEUE_KBYTES"@ && !(1 <= c.consumer_queue_kbytes
        <= 1_048_576)
    ||| name == "PULSE_KAFKA_PRODUCER_MESSAGE_MAX_BYTES"@ && !((2 * 262_144 + 2) / 3 * 4 + 4
        + 16_384 <= c.kafka_producer_message_max_bytes <= 268_435_456)
    ||| name == "PULSE_KAFKA_CONSUMER_PARTITION_FETCH_MAX_BYTES"@ && !(1
        <= c.consumer_partition_fetch_max_bytes <= 268_435_456)
    ||| name == "PULSE_KAFKA_CONSUMER_FETCH_MAX_BYTES"@ && !(1 <= c.consumer_fetch_max_bytes
        <= 268_435_456 && c.consumer_partition_fetch_max_bytes <= c.consumer_fetch_max_bytes)
    ||| name == "PULSE_KAFKA_CONSUMER_RECORD_MAX_BYTES"@ && !(1 <= c.consumer_record_max_bytes
        <= 268_435_456 && c.kafka_producer_message_max_bytes <= c.consumer_record_max_bytes
        <= c.consumer_fetch_max_bytes)
}

/// The same of the aggregation and of the retries.
pub open spec fn bounds_blamed(c: AppConfig, name: Seq<char>) -> bool {
    ||| name == "PULSE_RETRY_QUEUE_CAPACITY"@ && !(1 <= c.retry_queue_capacity <= 1_000_000)
    ||| name == "PULSE_AGGREGATION_SCAN_BATCH"@ && !(1 <= c.aggregation_scan_batch <= 1_000_000
        && c.aggregation_scan_batch <= c.aggregation_max_active_runs)
    ||| name == "PULSE_AGGREGATION_MAX_ACTIVE_RUNS"@ && !(1 <= c.aggregation_max_active_runs
        <= 1_000_000)
    ||| name == "PULSE_AGGREGATION_MAX_ERROR_KINDS"@ && !(1 <= c.aggregation_max_error_kinds
        <= 10_000)
    ||| name == "PULSE_AGGREGATION_RETENTION_MS"@ && (nanos(c.max_duration) + nanos(
        c.aggregation_partial_timeout,
    ) >= nanos(c.aggregation_retention) || nanos(c.max_duration) + nanos(
        c.aggregation_partial_timeout,
    ) > longest_span())
    ||| name == "PULSE_AGGREGATION_SCAN_INTERVAL_MS"@ && nanos(c.aggregation_scan_interval)
        > nanos(c.aggregation_partial_timeout)
    ||| name == "PULSE_WORKER_MAX_RETRIES"@ && c.worker_max_retries > 32
    ||| name == "PULSE_WORKER_RETRY_BASE_DELAY_MS"@ && !(1 <= nanos(c.worker_retry_base_delay)
        <= nanos(c.worker_retry_max_delay))
    ||| name == "PULSE_WORKER_RETRY_MAX_DELAY_MS"@ && !(1 <= nanos(c.worker_retry_max_delay)
        < nanos(c.kafka_max_poll_interval))
}

/// The same of the leases, the load, the start and the end.
pub open spec fn spans_blamed(c: AppConfig, name: Seq<char>) -> bool {
    ||| name == "PULSE_LEADER_LOCK_TTL_MS"@ && !lease_lasts(
        c.leader_lock_ttl_ms * 1_000_000,
        c.leader_renew_interval,
        exchange_nanos(c),
    )
    ||| name == "PULSE_LEADER_RENEW_INTERVAL_MS"@ && (3 * nanos(c.leader_renew_interval)
        > longest_span() || exchange_nanos(c) + nanos(c.leader_renew_interval) + 1_000_000
        > longest_span())
    ||| name == "PULSE_SCHEDULER_TICK_INTERVAL_MS"@ && nanos(c.scheduler_tick_interval)
        >= c.leader_lock_ttl_ms * 1_000_000
    ||| name == "PULSE_EXECUTION_LEASE_TTL_MS"@ && !lease_lasts(
        nanos(c.execution_lease_ttl) as int,
        c.execution_lease_renew_interval,
        exchange_nanos(c),
    )
    ||| name == "PULSE_EXECUTION_LEASE_RENEW_INTERVAL_MS"@ && (3 * nanos(
        c.execution_lease_renew_interval,
    ) > longest_span() || exchange_nanos(c) + nanos(c.execution_lease_renew_interval) + 1_000_000
        > longest_span())
    ||| name == "PULSE_EXECUTION_TERMINAL_RETENTION_MS"@ && nanos(c.execution_terminal_retention)
        < nanos(c.kafka_max_poll_interval)
    ||| name == "PULSE_MAX_DURATION_MS"@ && !(1 <= nanos(c.max_duration) <= 86_400_000_000_000)
    ||| name == "PULSE_MAX_SCENARIOS_PER_SEC"@ && !(0 < c.max_scenarios_per_sec.bits
        <= 0x41cd_cd65_0000_0000)
    ||| name == "PULSE_MAX_CONCURRENCY"@ && !(1 <= c.max_concurrency <= 1_000_000)
    ||| name == "PULSE_STARTUP_BURST"@ && c.startup_burst > c.max_concurrency
    ||| name == "PULSE_GRPC_REQUEST_TIMEOUT_MS"@ && nanos(c.grpc_request_timeout) > nanos(
        c.grpc_scenario_timeout,
    )
    ||| name == "PULSE_STARTUP_DEADLINE_MS"@ && (nanos(c.startup_deadline) < nanos(
        c.grpc_connect_timeout,
    ) + nanos(c.kafka_request_timeout) || nanos(c.grpc_connect_timeout) + nanos(
        c.kafka_request_timeout,
    ) > longest_span())
    ||| name == "PULSE_SHUTDOWN_DRAIN_TIMEOUT_MS"@ && (nanos(c.shutdown_drain_timeout) < nanos(
        c.kafka_delivery_timeout,
    ) + nanos(c.kafka_request_timeout) || nanos(c.kafka_delivery_timeout) + nanos(
        c.kafka_request_timeout,
    ) > longest_span())
}

/// The same of the hosts, the socket and the endpoint, and of the time between polls.
pub open spec fn rest_blamed(c: AppConfig, facts: AddressFacts, name: Seq<char>) -> bool {
    ||| name == "PULSE_KAFKA_MAX_POLL_INTERVAL_MS"@ && !polls_ok(c)
    ||| name == "PULSE_TARGET_ALLOWLIST"@ && (c.target_allowlist@.len() == 0 || exists|i: int|
        0 <= i < c.target_allowlist@.len() && !views(facts.ip_addresses@).contains(
            (#[trigger] c.target_allowlist@[i])@,
        ) && !names_host(c.target_allowlist@[i]@))
    ||| name == "PULSE_METRICS_BIND"@ && exists|k: int|
        0 <= k < facts.bad_sockets@.len() && (#[trigger] facts.bad_sockets@[k]).0@
            == c.metrics_bind@
    ||| name == "target endpoint"@ && !target_ok(c, c.pulse_endpoint@)
}

proof fn lemma_names_blamed(c: AppConfig)
    ensures
        crate::config::app::kafka_names_problem(c) matches Some(p) ==> names_blamed(c, p.0),
{
    lemma_brokers(c.kafka_brokers@);
    lemma_entries_named(split_on(c.kafka_brokers@, ','));
    lemma_names_topic("PULSE_KAFKA_JOBS_TOPIC"@, c.kafka_jobs_topic@);
    lemma_names_topic("PULSE_KAFKA_RESULTS_TOPIC"@, c.kafka_results_topic@);
    lemma_names_topic("PULSE_KAFKA_SUMMARIES_TOPIC"@, c.kafka_summaries_topic@);
    lemma_names_topic("PULSE_KAFKA_DLQ_TOPIC"@, c.kafka_dlq_topic@);
    let all = seq![
        c.kafka_jobs_topic@,
        c.kafka_results_topic@,
        c.kafka_summaries_topic@,
        c.kafka_dlq_topic@,
    ];
    if all.no_duplicates() {
        assert(all[0] != all[1] && all[0] != all[2] && all[0] != all[3] && all[1] != all[2]
            && all[1] != all[3] && all[2] != all[3]);
    }
}

proof fn lemma_entries_named(entries: Seq<Seq<char>>)
    ensures
        entries_problem(entries) matches Some(p) ==> p.0 == "PULSE_KAFKA_BROKERS"@,
    decreases entries.len(),
{
    if entries.len() > 0 {
        lemma_entries_named(entries.drop_last());
    }
}

proof fn lemma_keys_blamed(c: AppConfig)
    ensures
        crate::config::app::redis_names_problem(c) matches Some(p) ==> keys_blamed(c, p.0),
{
    let all = seq![
        c.redis_schedule_prefix@,
        c.redis_idempotency_prefix@,
        c.redis_aggregation_prefix@,
    ];
    if all.no_duplicates() {
        assert(all[0] != all[1] && all[0] != all[2] && all[1] != all[2]);
    }
}

proof fn lemma_plain_blamed(c: AppConfig)
    ensures
        crate::config::app::kafka_times_problem(c) matches Some(p) ==> times_blamed(c, p.0),
        crate::config::app::kafka_sizes_problem(c) matches Some(p) ==> sizes_blamed(c, p.0),
{
}

proof fn lemma_bounds_blamed(c: AppConfig)
    ensures
        crate::config::app::aggregation_problem(c) matches Some(p) ==> bounds_blamed(c, p.0),
        crate::config::app::retries_problem(c) matches Some(p) ==> bounds_blamed(c, p.0),
{
    lemma_two(c.max_duration, c.aggregation_partial_timeout);
}

proof fn lemma_spans_blamed(c: AppConfig)
    ensures
        crate::config::app::leases_problem(c) matches Some(p) ==> spans_blamed(c, p.0),
        crate::config::app::lifecycle_problem(c) matches Some(p) ==> spans_blamed(c, p.0),
{
    lemma_two(c.grpc_connect_timeout, c.kafka_request_timeout);
    lemma_two(c.kafka_delivery_timeout, c.kafka_request_timeout);
}

proof fn lemma_load_blamed(c: AppConfig)
    ensures
        crate::config::app::load_problem(c) matches Some(p) ==> spans_blamed(c, p.0),
{
    let bits = c.max_scenarios_per_sec.bits;
    let limit: u64 = 0x41cd_cd65_0000_0000;
    if 0 < bits < limit {
        lemma_bits_order(bits, limit);
    }
}

proof fn lemma_hosts_blamed(hosts: Seq<Seq<char>>, addresses: Seq<Seq<char>>)
    ensures
        allowlist_problem(hosts, addresses) matches Some(p) ==> p.0 == "PULSE_TARGET_ALLOWLIST"@
            && exists|i: int|
            0 <= i < hosts.len() && !addresses.contains(#[trigger] hosts[i]) && !names_host(
                hosts[i],
            ),
    decreases hosts.len(),
{
    if hosts.len() > 0 {
        let front = hosts.drop_last();
        lemma_hosts_blamed(front, addresses);
        lemma_names_host(hosts.last());
        if allowlist_problem(front, addresses) is Some {
            let i = choose|i: int|
                0 <= i < front.len() && !addresses.contains(#[trigger] front[i]) && !names_host(
                    front[i],
                );
            assert(hosts[i] == front[i]);
        } else if allowlist_problem(hosts, addresses) is Some {
            assert(!addresses.contains(hosts[hosts.len() - 1]));
        }
    }
}

proof fn lemma_rest_blamed(c: AppConfig, facts: AddressFacts)
    ensures
        crate::config::app::addresses_problem(c, facts) matches Some(p) ==> rest_blamed(
            c,
            facts,
            p.0,
        ),
{
    let hosts = views(c.target_allowlist@);
    let addresses = views(facts.ip_addresses@);
    lemma_hosts_blamed(hosts, addresses);
    lemma_socket(facts.bad_sockets@, c.metrics_bind@);
    lemma_target(c, c.pulse_endpoint@);
    if allowlist_problem(hosts, addresses) is Some {
        let i = choose|i: int|
            0 <= i < hosts.len() && !addresses.contains(#[trigger] hosts[i]) && !names_host(
                hosts[i],
            );
        assert(hosts[i] == c.target_allowlist@[i]@);
    }
}

/// Where settings are not valid, the error names a setting that breaks its rule.
pub proof fn law_blame(c: AppConfig, facts: AddressFacts, r: Result<(), ConfigError>)
    requires
        call_ensures(AppConfig::validate, (&c, &facts), r),
    ensures
        r matches Err(e) ==> (e matches ConfigError::Invalid { name, reason } && {
            ||| names_blamed(c, name@)
            ||| keys_blamed(c, name@)
            ||| times_blamed(c, name@)
            ||| sizes_blamed(c, name@)
            ||| bounds_blamed(c, name@)
            ||| spans_blamed(c, name@)
            ||| rest_blamed(c, facts, name@)
        }),
{
    lemma_names_blamed(c);
    lemma_keys_blamed(c);
    lemma_plain_blamed(c);
    lemma_bounds_blamed(c);
    lemma_spans_blamed(c);
    lemma_load_blamed(c);
    lemma_plain_rules(c);
    if kafka_times_ok(c) && retries_ok(c) {
        lemma_poll_rules(c);
    }
    lemma_rest_blamed(c, facts);
}

/// Settings that were read keep the rules.
pub proof fn law_read_settings_keep_the_rules(
    s: crate::config::source::ConfigSource,
    facts: AddressFacts,
    r: Result<AppConfig, ConfigError>,
)
    requires
        call_ensures(AppConfig::from_sources, (&s, &facts), r),
    ensures
        r matches Ok(c) ==> sound(c, facts),
{
    if r is Ok {
        let c = r->Ok_0;
        lemma_names_rules(c);
        lemma_keys_rules(c);
        lemma_plain_rules(c);
        lemma_span_rules(c);
        lemma_load_rules(c);
        lemma_poll_rules(c);
        lemma_address_rules(c, facts);
    }
}

/// One exchange with Redis takes as long as a request to Kafka, and 2 seconds at most; a
/// record is processed for the time between two polls but for a second.
pub proof fn law_derived_times(c: AppConfig, redis: Duration, processing: Duration)
    requires
        call_ensures(AppConfig::redis_operation_timeout, (&c,), redis),
        call_ensures(AppConfig::kafka_safe_processing_interval, (&c,), processing),
    ensures
        nanos(redis) == exchange_nanos(c),
        nanos(c.kafka_max_poll_interval) >= 1_000_000_000 ==> nanos(processing) + 1_000_000_000
            == nanos(c.kafka_max_poll_interval),
        nanos(c.kafka_max_poll_interval) < 1_000_000_000 ==> nanos(processing) == 0,
{
}

} // verus!
