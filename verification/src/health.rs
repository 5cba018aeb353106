//! Whether the node is alive and ready, and what it answers when asked.
use vstd::prelude::*;
use crate::byte_text::text_of;
#[allow(unused_imports)]
use crate::byte_text::utf8_error;
use crate::text::{concat2, concat3, copy_str, join};
#[allow(unused_imports)]
use crate::text::{joined, utf8_len, views};

verus! {

/// What must hold for the node to be ready, at one point in time.
#[derive(Clone, Copy, Debug, PartialEq, Eq, Structural)]
pub struct HealthSnapshot {
    pub config_loaded: bool,
    pub redis_ready: bool,
    pub kafka_topics_ready: bool,
    pub kafka_producers_ready: bool,
    pub kafka_consumer_ready: bool,
    pub scenarios_initialized: bool,
    pub worker_accepting: bool,
    pub draining: bool,
}

impl HealthSnapshot {
    /// Whether everything that the node needs is there and it is not draining.
    pub open spec fn ready(self) -> bool {
        self.config_loaded && self.redis_ready && self.kafka_topics_ready
            && self.kafka_producers_ready && self.kafka_consumer_ready && self.scenarios_initialized
            && self.worker_accepting && !self.draining
    }

    /// Whether the node is ready.
    pub fn is_ready(self) -> (r: bool)
        ensures
            r == self.ready(),
    {
        self.config_loaded && self.redis_ready && self.kafka_topics_ready
            && self.kafka_producers_ready && self.kafka_consumer_ready && self.scenarios_initialized
            && self.worker_accepting && !self.draining
    }
}

/// The state of a node that has reached nothing yet.
pub open spec fn nothing_ready() -> HealthSnapshot {
    HealthSnapshot {
        config_loaded: false,
        redis_ready: false,
        kafka_topics_ready: false,
        kafka_producers_ready: false,
        kafka_consumer_ready: false,
        scenarios_initialized: false,
        worker_accepting: false,
        draining: false,
    }
}

/// The health of the node. Readiness fails closed: every milestone must be reported
/// before the node is ready, and a drain makes it unready at once.
pub struct HealthState {
    now: HealthSnapshot,
}

impl View for HealthState {
    type V = HealthSnapshot;

    closed spec fn view(&self) -> HealthSnapshot {
        self.now
    }
}

impl Default for HealthState {
    fn default() -> (s: Self)
        ensures
            s@ == nothing_ready(),
    {
        HealthState::new()
    }
}

impl HealthState {
    /// The health of a node that has reached nothing yet.
    pub fn new() -> (s: Self)
        ensures
            s@ == nothing_ready(),
    {
        HealthState {
            now: HealthSnapshot {
                config_loaded: false,
                redis_ready: false,
                kafka_topics_ready: false,
                kafka_producers_ready: false,
                kafka_consumer_ready: false,
                scenarios_initialized: false,
                worker_accepting: false,
                draining: false,
            },
        }
    }

    /// Reports whether the configuration is loaded.
    pub fn set_config_loaded(&mut self, ready: bool)
        ensures
            final(self)@ == (HealthSnapshot { config_loaded: ready, ..old(self)@ }),
    {
        self.now.config_loaded = ready;
    }

    /// Reports whether Redis is ready.
    pub fn set_redis_ready(&mut self, ready: bool)
        ensures
            final(self)@ == (HealthSnapshot { redis_ready: ready, ..old(self)@ }),
    {
        self.now.redis_ready = ready;
    }

    /// Reports whether the topics are ready.
    pub fn set_kafka_topics_ready(&mut self, ready: bool)
        ensures
            final(self)@ == (HealthSnapshot { kafka_topics_ready: ready, ..old(self)@ }),
    {
        self.now.kafka_topics_ready = ready;
    }

    /// Reports whether the producers are ready.
    pub fn set_kafka_producers_ready(&mut self, ready: bool)
        ensures
            final(self)@ == (HealthSnapshot { kafka_producers_ready: ready, ..old(self)@ }),
    {
        self.now.kafka_producers_ready = ready;
    }

    /// Reports whether the consumer is ready.
    pub fn set_kafka_consumer_ready(&mut self, ready: bool)
        ensures
            final(self)@ == (HealthSnapshot { kafka_consumer_ready: ready, ..old(self)@ }),
    {
        self.now.kafka_consumer_ready = ready;
    }

    /// Reports whether the scenarios are initialized.
    pub fn set_scenarios_initialized(&mut self, ready: bool)
        ensures
            final(self)@ == (HealthSnapshot { scenarios_initialized: ready, ..old(self)@ }),
    {
        self.now.scenarios_initialized = ready;
    }

    /// Reports whether the worker accepts jobs.
    pub fn set_worker_accepting(&mut self, ready: bool)
        ensures
            final(self)@ == (HealthSnapshot { worker_accepting: ready, ..old(self)@ }),
    {
        self.now.worker_accepting = ready;
    }

    /// Reports whether the node is draining.
    pub fn set_draining(&mut self, draining: bool)
        ensures
            final(self)@ == (HealthSnapshot { draining, ..old(self)@ }),
    {
        self.now.draining = draining;
    }

    /// Reports that draining has begun: the worker accepts no more, and the node is not
    /// ready.
    pub fn begin_draining(&mut self)
        ensures
            final(self)@ == (HealthSnapshot {
                worker_accepting: false,
                draining: true,
                ..old(self)@
            }),
            !final(self)@.ready(),
    {
        self.set_worker_accepting(false);
        self.set_draining(true);
    }

    /// The state now.
    pub fn snapshot(&self) -> (s: HealthSnapshot)
        ensures
            s == self@,
    {
        self.now
    }

    /// Whether the node is ready.
    pub fn is_ready(&self) -> (r: bool)
        ensures
            r == self@.ready(),
    {
        self.now.is_ready()
    }
}

/// A name where something is missing, else nothing.
pub open spec fn unless(there: bool, name: Seq<char>) -> Seq<Seq<char>> {
    if there {
        Seq::empty()
    } else {
        seq![name]
    }
}

/// What the node still needs.
pub open spec fn missing(s: HealthSnapshot) -> Seq<Seq<char>> {
    unless(s.config_loaded, "config"@) + unless(s.redis_ready, "redis"@) + unless(
        s.kafka_topics_ready,
        "kafka_topics"@,
    ) + unless(s.kafka_producers_ready, "kafka_producers"@) + unless(
        s.kafka_consumer_ready,
        "kafka_consumer"@,
    ) + unless(s.scenarios_initialized, "scenarios"@) + unless(s.worker_accepting, "worker"@)
}

/// How ready the node is, in words.
pub open spec fn diagnostic(s: HealthSnapshot) -> Seq<char> {
    let names = joined(missing(s), ","@);
    if missing(s).len() == 0 {
        if s.draining {
            "not ready: draining\n"@
        } else {
            "ready\n"@
        }
    } else if s.draining {
        "not ready: missing="@ + names + "; draining\n"@
    } else {
        "not ready: missing="@ + names + "\n"@
    }
}

fn note(names: &mut Vec<String>, there: bool, name: &str)
    ensures
        views(final(names)@) == views(old(names)@) + unless(there, name@),
{
    let ghost before = views(names@);
    if !there {
        names.push(copy_str(name));
    }
    assert(views(names@) =~= before + unless(there, name@));
}

/// How ready the node is, in words.
pub fn readiness_diagnostic(snapshot: HealthSnapshot) -> (text: String)
    ensures
        text@ == diagnostic(snapshot),
{
    let mut names: Vec<String> = Vec::new();
    assert(views(names@) =~= Seq::<Seq<char>>::empty());
    assert(Seq::<Seq<char>>::empty() + unless(snapshot.config_loaded, "config"@) =~= unless(
        snapshot.config_loaded,
        "config"@,
    ));
    note(&mut names, snapshot.config_loaded, "config");
    note(&mut names, snapshot.redis_ready, "redis");
    note(&mut names, snapshot.kafka_topics_ready, "kafka_topics");
    note(&mut names, snapshot.kafka_producers_ready, "kafka_producers");
    note(&mut names, snapshot.kafka_consumer_ready, "kafka_consumer");
    note(&mut names, snapshot.scenarios_initialized, "scenarios");
    note(&mut names, snapshot.worker_accepting, "worker");
    let missing = join(&names, ",");
    match (names.len() == 0, snapshot.draining) {
        (true, true) => copy_str("not ready: draining\n"),
        (false, true) => concat3("not ready: missing=", &missing, "; draining\n"),
        (false, false) => concat3("not ready: missing=", &missing, "\n"),
        (true, false) => copy_str("ready\n"),
    }
}

/// The node is ready exactly when it misses nothing and is not draining, and it says
/// that it is ready exactly when it is.
pub proof fn lemma_diagnostic_tells_readiness(s: HealthSnapshot)
    ensures
        s.ready() <==> missing(s).len() == 0 && !s.draining,
        s.ready() ==> diagnostic(s) == "ready\n"@,
        !s.ready() ==> diagnostic(s) != "ready\n"@,
{
    reveal_strlit("ready\n");
    reveal_strlit("not ready: draining\n");
    reveal_strlit("not ready: missing=");
    if !s.ready() {
        assert(diagnostic(s)[0] == 'n');
    }
}

/// Whether a text holds ASCII characters only.
pub open spec fn is_ascii(s: Seq<char>) -> bool {
    forall|i: int| 0 <= i < s.len() ==> (#[trigger] s[i]) as u32 <= 0x7f
}

/// ASCII characters take one byte each.
pub proof fn lemma_ascii_len(s: Seq<char>)
    requires
        is_ascii(s),
    ensures
        utf8_len(s) == s.len(),
    decreases s.len(),
{
    if s.len() > 0 {
        let rest = s.drop_first();
        assert forall|i: int| 0 <= i < rest.len() implies (#[trigger] rest[i]) as u32 <= 0x7f by {
            assert(rest[i] == s[i + 1]);
        }
        lemma_ascii_len(rest);
        assert(s[0] as u32 <= 0x7f);
    }
}

/// Whether texts hold ASCII characters only.
#[verifier::opaque]
spec fn all_ascii(parts: Seq<Seq<char>>) -> bool {
    forall|i: int| 0 <= i < parts.len() ==> is_ascii(#[trigger] parts[i])
}

/// The bytes of texts with a separator of one character after each.
spec fn total(parts: Seq<Seq<char>>) -> nat
    decreases parts.len(),
{
    if parts.len() == 0 {
        0
    } else {
        total(parts.drop_last()) + parts.last().len() + 1
    }
}

proof fn lemma_joined_bound(parts: Seq<Seq<char>>)
    requires
        all_ascii(parts),
    ensures
        joined(parts, ","@).len() <= total(parts),
        is_ascii(joined(parts, ","@)),
    decreases parts.len(),
{
    reveal_strlit(",");
    reveal(all_ascii);
    if parts.len() > 0 {
        let front = parts.drop_last();
        assert forall|i: int| 0 <= i < front.len() implies is_ascii(#[trigger] front[i]) by {
            assert(front[i] == parts[i]);
        }
        lemma_joined_bound(front);
        assert(is_ascii(parts[parts.len() - 1]));
        if parts.len() > 1 {
            let a = joined(front, ","@);
            let all = joined(parts, ","@);
            assert forall|i: int| 0 <= i < all.len() implies (#[trigger] all[i]) as u32 <= 0x7f by {
                if i < a.len() {
                    assert(all[i] == a[i]);
                } else if i > a.len() {
                    assert(all[i] == parts.last()[i - a.len() - 1]);
                }
            }
        }
    }
}

proof fn lemma_total_extended(parts: Seq<Seq<char>>, there: bool, name: Seq<char>)
    requires
        all_ascii(parts),
        is_ascii(name),
    ensures
        total(parts + unless(there, name)) <= total(parts) + name.len() + 1,
        all_ascii(parts + unless(there, name)),
{
    reveal(all_ascii);
    let all = parts + unless(there, name);
    if there {
        assert(all =~= parts);
    } else {
        assert(all.drop_last() =~= parts);
        assert forall|i: int| 0 <= i < all.len() implies is_ascii(#[trigger] all[i]) by {
            if i < parts.len() {
                assert(all[i] == parts[i]);
            }
        }
    }
}

proof fn lemma_names_ascii()
    ensures
        is_ascii("config"@) && "config"@.len() == 6,
        is_ascii("redis"@) && "redis"@.len() == 5,
        is_ascii("kafka_topics"@) && "kafka_topics"@.len() == 12,
        is_ascii("kafka_producers"@) && "kafka_producers"@.len() == 15,
        is_ascii("kafka_consumer"@) && "kafka_consumer"@.len() == 14,
        is_ascii("scenarios"@) && "scenarios"@.len() == 9,
        is_ascii("worker"@) && "worker"@.len() == 6,
{
    reveal_strlit("config");
    reveal_strlit("redis");
    reveal_strlit("kafka_topics");
    reveal_strlit("kafka_producers");
    reveal_strlit("kafka_consumer");
    reveal_strlit("scenarios");
    reveal_strlit("worker");
}

proof fn lemma_missing_bound(s: HealthSnapshot)
    ensures
        all_ascii(missing(s)),
        total(missing(s)) <= 74,
{
    lemma_names_ascii();
    lemma_four_bound(s);
    let p4 = first_four(s);
    let p5 = p4 + unless(s.kafka_consumer_ready, "kafka_consumer"@);
    lemma_total_extended(p4, s.kafka_consumer_ready, "kafka_consumer"@);
    let p6 = p5 + unless(s.scenarios_initialized, "scenarios"@);
    lemma_total_extended(p5, s.scenarios_initialized, "scenarios"@);
    lemma_total_extended(p6, s.worker_accepting, "worker"@);
}

spec fn first_four(s: HealthSnapshot) -> Seq<Seq<char>> {
    unless(s.config_loaded, "config"@) + unless(s.redis_ready, "redis"@) + unless(
        s.kafka_topics_ready,
        "kafka_topics"@,
    ) + unless(s.kafka_producers_ready, "kafka_producers"@)
}

proof fn lemma_four_bound(s: HealthSnapshot)
    ensures
        all_ascii(first_four(s)),
        total(first_four(s)) <= 42,
{
    lemma_names_ascii();
    let p0 = Seq::<Seq<char>>::empty();
    let p1 = unless(s.config_loaded, "config"@);
    assert(p0 + p1 =~= p1);
    assert(all_ascii(p0)) by {
        reveal(all_ascii);
    }
    lemma_total_extended(p0, s.config_loaded, "config"@);
    let p2 = p1 + unless(s.redis_ready, "redis"@);
    lemma_total_extended(p1, s.redis_ready, "redis"@);
    let p3 = p2 + unless(s.kafka_topics_ready, "kafka_topics"@);
    lemma_total_extended(p2, s.kafka_topics_ready, "kafka_topics"@);
    lemma_total_extended(p3, s.kafka_producers_ready, "kafka_producers"@);
}

/// What the node says of its readiness takes 128 bytes at most.
pub proof fn lemma_diagnostic_is_bounded(s: HealthSnapshot)
    ensures
        utf8_len(diagnostic(s)) <= 128,
{
    lemma_missing_bound(s);
    lemma_joined_bound(missing(s));
    lemma_diagnostic_ascii(s);
    lemma_ascii_len(diagnostic(s));
}

proof fn lemma_diagnostic_ascii(s: HealthSnapshot)
    requires
        joined(missing(s), ","@).len() <= 74,
        is_ascii(joined(missing(s), ","@)),
    ensures
        is_ascii(diagnostic(s)),
        diagnostic(s).len() <= 128,
{
    reveal_strlit("not ready: draining\n");
    reveal_strlit("ready\n");
    reveal_strlit("not ready: missing=");
    reveal_strlit("; draining\n");
    reveal_strlit("\n");
    let names = joined(missing(s), ","@);
    let head = "not ready: missing="@;
    let text = diagnostic(s);
    assert forall|i: int| 0 <= i < text.len() implies (#[trigger] text[i]) as u32 <= 0x7f by {
        if missing(s).len() > 0 && head.len() <= i < head.len() + names.len() {
            assert(text[i] == names[i - head.len()]);
        }
    }
}

// ---------------------------------------------------------------------------
// Answers
// ---------------------------------------------------------------------------

/// The media type of plain answers.
pub const PLAIN_TEXT: &'static str = "text/plain; charset=utf-8";

/// An answer to a request.
pub struct HttpReply {
    pub status: u16,
    pub content_type: String,
    pub body: String,
}

impl HttpReply {
    /// What the answer holds.
    pub open spec fn is(&self, status: u16, content_type: Seq<char>, body: Seq<char>) -> bool {
        self.status == status && self.content_type@ == content_type && self.body@ == body
    }
}

/// The answer to whether the node is alive.
pub fn liveness_reply() -> (r: HttpReply)
    ensures
        r.is(200, PLAIN_TEXT@, "live\n"@),
{
    HttpReply { status: 200, content_type: copy_str(PLAIN_TEXT), body: copy_str("live\n") }
}

/// The answer to whether the node is ready.
pub fn readiness_reply(snapshot: HealthSnapshot) -> (r: HttpReply)
    ensures
        snapshot.ready() ==> r.is(200, PLAIN_TEXT@, "ready\n"@),
        !snapshot.ready() ==> r.is(503, PLAIN_TEXT@, diagnostic(snapshot)),
{
    if snapshot.is_ready() {
        return HttpReply {
            status: 200,
            content_type: copy_str(PLAIN_TEXT),
            body: copy_str("ready\n"),
        };
    }
    HttpReply {
        status: 503,
        content_type: copy_str(PLAIN_TEXT),
        body: readiness_diagnostic(snapshot),
    }
}

/// The answer to a request for the metrics, given what encoding them gave and the media
/// type of the encoding.
pub fn metrics_reply(encoded: Result<Vec<u8>, String>, format: &str) -> (r: HttpReply)
    ensures
        match encoded {
            Err(e) => r.is(500, PLAIN_TEXT@, "failed to encode metrics: "@ + e@),
            Ok(bytes) => if vstd::utf8::valid_utf8(bytes@) {
                r.is(200, format@, vstd::utf8::decode_utf8(bytes@))
            } else {
                r.is(
                    500,
                    PLAIN_TEXT@,
                    "failed to build metrics response: "@ + utf8_error(bytes@),
                )
            },
        },
{
    let problem = match encoded {
        Err(e) => concat2("failed to encode metrics: ", &e),
        Ok(bytes) => match text_of(bytes) {
            Ok(body) => {
                return HttpReply { status: 200, content_type: copy_str(format), body };
            },
            Err(e) => concat2("failed to build metrics response: ", &e),
        },
    };
    HttpReply { status: 500, content_type: copy_str(PLAIN_TEXT), body: problem }
}

} // verus!
