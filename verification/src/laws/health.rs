//! Whether the node is alive and ready, and what it answers.
use vstd::prelude::*;
use super::text::{glued, lemma_joined};
use crate::health::{
    liveness_reply, metrics_reply, missing, readiness_diagnostic, readiness_reply, HealthSnapshot,
    HealthState, HttpReply,
};

verus! {

/// The node is ready exactly where all milestones are reached and it is not draining.
pub proof fn law_ready(s: HealthSnapshot, r: bool)
    requires
        call_ensures(HealthSnapshot::is_ready, (s,), r),
    ensures
        r <==> s.config_loaded && s.redis_ready && s.kafka_topics_ready && s.kafka_producers_ready
            && s.kafka_consumer_ready && s.scenarios_initialized && s.worker_accepting
            && !s.draining,
{
}

/// A node that has reached nothing is not ready, and its state is what a snapshot of it shows.
pub proof fn law_new_state(state: HealthState, s: HealthSnapshot, r: bool)
    requires
        call_ensures(HealthState::new, (), state),
        call_ensures(HealthState::snapshot, (&state,), s),
        call_ensures(HealthState::is_ready, (&state,), r),
    ensures
        s == state@,
        !s.config_loaded && !s.redis_ready && !s.kafka_topics_ready && !s.kafka_producers_ready,
        !s.kafka_consumer_ready && !s.scenarios_initialized && !s.worker_accepting && !s.draining,
        !r,
{
}

/// The state is ready where its snapshot is.
pub proof fn law_state_ready(state: HealthState, s: HealthSnapshot, r: bool, q: bool)
    requires
        call_ensures(HealthState::snapshot, (&state,), s),
        call_ensures(HealthState::is_ready, (&state,), r),
        call_ensures(HealthSnapshot::is_ready, (s,), q),
    ensures
        r == q,
{
}

/// Whether two states differ in what a number names alone.
pub open spec fn differ_in(which: int, a: HealthSnapshot, b: HealthSnapshot) -> bool {
    &&& which == 1 || a.config_loaded == b.config_loaded
    &&& which == 2 || a.redis_ready == b.redis_ready
    &&& which == 3 || a.kafka_topics_ready == b.kafka_topics_ready
    &&& which == 4 || a.kafka_producers_ready == b.kafka_producers_ready
    &&& which == 5 || a.kafka_consumer_ready == b.kafka_consumer_ready
    &&& which == 6 || a.scenarios_initialized == b.scenarios_initialized
    &&& which == 7 || a.worker_accepting == b.worker_accepting
    &&& which == 8 || a.draining == b.draining
}

/// Each report changes its own milestone to what is reported, and nothing else.
pub proof fn law_reports(
    ready: bool,
    a: &mut HealthState,
    b: &mut HealthState,
    c: &mut HealthState,
    d: &mut HealthState,
    e: &mut HealthState,
    f: &mut HealthState,
    g: &mut HealthState,
    h: &mut HealthState,
)
    requires
        call_ensures(HealthState::set_config_loaded, (a, ready), ()),
        call_ensures(HealthState::set_redis_ready, (b, ready), ()),
        call_ensures(HealthState::set_kafka_topics_ready, (c, ready), ()),
        call_ensures(HealthState::set_kafka_producers_ready, (d, ready), ()),
        call_ensures(HealthState::set_kafka_consumer_ready, (e, ready), ()),
        call_ensures(HealthState::set_scenarios_initialized, (f, ready), ()),
        call_ensures(HealthState::set_worker_accepting, (g, ready), ()),
        call_ensures(HealthState::set_draining, (h, ready), ()),
    ensures
        final(a)@.config_loaded == ready && differ_in(1, old(a)@, final(a)@),
        final(b)@.redis_ready == ready && differ_in(2, old(b)@, final(b)@),
        final(c)@.kafka_topics_ready == ready && differ_in(3, old(c)@, final(c)@),
        final(d)@.kafka_producers_ready == ready && differ_in(4, old(d)@, final(d)@),
        final(e)@.kafka_consumer_ready == ready && differ_in(5, old(e)@, final(e)@),
        final(f)@.scenarios_initialized == ready && differ_in(6, old(f)@, final(f)@),
        final(g)@.worker_accepting == ready && differ_in(7, old(g)@, final(g)@),
        final(h)@.draining == ready && differ_in(8, old(h)@, final(h)@),
{
}

/// A node that begins to drain accepts nothing and is not ready; what it had reached stays.
pub proof fn law_drain(state: &mut HealthState)
    requires
        call_ensures(HealthState::begin_draining, (state,), ()),
    ensures
        final(state)@.draining,
        !final(state)@.worker_accepting,
        final(state)@.config_loaded == old(state)@.config_loaded,
        final(state)@.redis_ready == old(state)@.redis_ready,
        final(state)@.kafka_topics_ready == old(state)@.kafka_topics_ready,
        final(state)@.kafka_producers_ready == old(state)@.kafka_producers_ready,
        final(state)@.kafka_consumer_ready == old(state)@.kafka_consumer_ready,
        final(state)@.scenarios_initialized == old(state)@.scenarios_initialized,
{
}

/// Whether names are those of the milestones that are not reached, in their order.
pub open spec fn not_reached(s: HealthSnapshot, names: Seq<Seq<char>>) -> bool {
    let n1: int = if s.config_loaded { 0 } else { 1 };
    let n2: int = n1 + if s.redis_ready { 0int } else { 1 };
    let n3: int = n2 + if s.kafka_topics_ready { 0int } else { 1 };
    let n4: int = n3 + if s.kafka_producers_ready { 0int } else { 1 };
    let n5: int = n4 + if s.kafka_consumer_ready { 0int } else { 1 };
    let n6: int = n5 + if s.scenarios_initialized { 0int } else { 1 };
    let n7: int = n6 + if s.worker_accepting { 0int } else { 1 };
    &&& names.len() == n7
    &&& !s.config_loaded ==> names[0] == "config"@
    &&& !s.redis_ready ==> names[n1] == "redis"@
    &&& !s.kafka_topics_ready ==> names[n2] == "kafka_topics"@
    &&& !s.kafka_producers_ready ==> names[n3] == "kafka_producers"@
    &&& !s.kafka_consumer_ready ==> names[n4] == "kafka_consumer"@
    &&& !s.scenarios_initialized ==> names[n5] == "scenarios"@
    &&& !s.worker_accepting ==> names[n6] == "worker"@
}

/// Whether a text says how ready a node is: the milestones that are not reached, with commas
/// between them, and whether it is draining.
pub open spec fn tells(s: HealthSnapshot, text: Seq<char>) -> bool {
    exists|names: Seq<Seq<char>>| #[trigger]
        not_reached(s, names) && text == (if names.len() == 0 {
            if s.draining {
                "not ready: draining\n"@
            } else {
                "ready\n"@
            }
        } else if s.draining {
            "not ready: missing="@ + glued(names, ',') + "; draining\n"@
        } else {
            "not ready: missing="@ + glued(names, ',') + "\n"@
        })
}

/// What a node says of its readiness names all that is missing.
pub proof fn law_diagnostic(s: HealthSnapshot, text: String)
    requires
        call_ensures(readiness_diagnostic, (s,), text),
    ensures
        tells(s, text@),
{
    lemma_tells(s);
}

proof fn lemma_tells(s: HealthSnapshot)
    ensures
        tells(s, crate::health::diagnostic(s)),
{
    let names = missing(s);
    assert(not_reached(s, names));
    reveal_strlit(",");
    assert(","@ =~= seq![',']);
    lemma_joined(names, ',');
}

/// Whether an answer has a status and a body in plain text.
pub open spec fn answers(r: HttpReply, status: int, body: Seq<char>) -> bool {
    r.status == status && r.content_type@ == "text/plain; charset=utf-8"@ && r.body@ == body
}

/// A node that runs is alive; it is ready with 200 and not ready with 503.
pub proof fn law_answers(live: HttpReply, s: HealthSnapshot, ready: bool, r: HttpReply)
    requires
        call_ensures(liveness_reply, (), live),
        call_ensures(HealthSnapshot::is_ready, (s,), ready),
        call_ensures(readiness_reply, (s,), r),
    ensures
        answers(live, 200, "live\n"@),
        ready ==> answers(r, 200, "ready\n"@),
        !ready ==> answers(r, 503, r.body@),
        !ready ==> tells(s, r.body@),
{
    lemma_tells(s);
}

/// Metrics that are text are answered with 200 and their media type, others with 500.
pub proof fn law_metrics_answer(encoded: Result<Vec<u8>, String>, format: &str, r: HttpReply)
    requires
        call_ensures(metrics_reply, (encoded, format), r),
    ensures
        encoded matches Ok(bytes) ==> (vstd::utf8::valid_utf8(bytes@) ==> r.status == 200
            && r.content_type@ == format@ && vstd::utf8::encode_utf8(r.body@) == bytes@),
        encoded matches Ok(bytes) ==> (!vstd::utf8::valid_utf8(bytes@) ==> answers(
            r,
            500,
            r.body@,
        )),
        encoded matches Err(e) ==> answers(r, 500, "failed to encode metrics: "@ + e@),
{
    if let Ok(bytes) = encoded {
        if vstd::utf8::valid_utf8(bytes@) {
            vstd::utf8::decode_utf8_encode_utf8(bytes@);
        }
    }
}

} // verus!
