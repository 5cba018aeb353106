//! The summaries that wait for publication.
use vstd::prelude::*;
use super::snapshot::{lemma_stands, stands};
use crate::aggregation::{
    batch, is_unreadable, settled_places, waiting_places, waits_for_publication,
    RedisRunAggregationStore,
};
use crate::contracts::DurableRunSummary;
use crate::coordination::Exchange;
use crate::snapshot::{durable_summary_from_snapshot, RunAggregationStoreError};
use crate::text::views;

verus! {

proof fn lemma_places_stay(
    runs: Seq<Seq<Seq<char>>>,
    x: Seq<Seq<char>>,
    k: nat,
)
    requires
        k <= runs.len(),
    ensures
        waiting_places(runs.push(x), k) == waiting_places(runs, k),
        settled_places(runs.push(x), k) == settled_places(runs, k),
        forall|i: int|
            0 <= i < settled_places(runs, k).len() ==> 0 <= #[trigger] settled_places(runs, k)[i]
                < k,
        forall|i: int|
            0 <= i < waiting_places(runs, k).len() ==> 0 <= #[trigger] waiting_places(runs, k)[i]
                < k,
    decreases k,
{
    if k > 0 {
        lemma_places_stay(runs, x, (k - 1) as nat);
        assert(runs.push(x)[k - 1] == runs[k - 1]);
    }
}

/// Whether two summaries are what is stored of one run.
pub open spec fn of_one_run(
    snapshots: Seq<Vec<String>>,
    a: DurableRunSummary,
    b: DurableRunSummary,
) -> bool {
    exists|k: int|
        0 <= k < snapshots.len() && stands(views((#[trigger] snapshots[k])@), a) && stands(
            views(snapshots[k]@),
            b,
        )
}

/// A run more of the outbox is told where its summary waits for publication, behind those
/// that are told; where it does not, its name comes behind those that can be taken out. A
/// run that cannot be read is an error. What is said of the others stays.
pub proof fn law_one_run_more(
    store: RedisRunAggregationStore,
    ids: Vec<String>,
    snapshots: Vec<Vec<String>>,
    id: String,
    snapshot: Vec<String>,
    more_ids: Vec<String>,
    more_snapshots: Vec<Vec<String>>,
    operation: &'static str,
    r: Result<(Vec<DurableRunSummary>, Vec<String>), RunAggregationStoreError>,
    s: Result<(Vec<DurableRunSummary>, Vec<String>), RunAggregationStoreError>,
    q: Result<Option<DurableRunSummary>, RunAggregationStoreError>,
)
    requires
        ids@.len() == snapshots@.len(),
        more_ids@ == ids@.push(id),
        more_snapshots@ == snapshots@.push(snapshot),
        call_ensures(
            RedisRunAggregationStore::pending_summaries_reply,
            (&store, &ids, &snapshots),
            r,
        ),
        call_ensures(
            RedisRunAggregationStore::pending_summaries_reply,
            (&store, &more_ids, &more_snapshots),
            s,
        ),
        call_ensures(durable_summary_from_snapshot, (&snapshot, operation), q),
    ensures
        ids@.len() == 0 ==> (r matches Ok((waiting, settled)) && waiting@.len() == 0
            && settled@.len() == 0),
        s is Ok <==> r is Ok && q is Ok,
        s is Ok && q->Ok_0 is Some && q->Ok_0->0.pending_publication ==> {
            &&& s->Ok_0.0@.len() == r->Ok_0.0@.len() + 1
            &&& stands(views(snapshot@), s->Ok_0.0@.last())
            &&& s->Ok_0.0@.last().pending_publication
            &&& views(s->Ok_0.1@) == views(r->Ok_0.1@)
        },
        s is Ok && !(q->Ok_0 is Some && q->Ok_0->0.pending_publication) ==> {
            &&& s->Ok_0.0@.len() == r->Ok_0.0@.len()
            &&& views(s->Ok_0.1@) == views(r->Ok_0.1@).push(id@)
        },
        s is Ok ==> forall|i: int|
            0 <= i < r->Ok_0.0@.len() ==> of_one_run(
                snapshots@,
                #[trigger] r->Ok_0.0@[i],
                s->Ok_0.0@[i],
            ),
{
    let runs = batch(snapshots@);
    let x = views(snapshot@);
    let all = batch(more_snapshots@);
    let n = runs.len();
    assert(all =~= runs.push(x));
    assert(all.len() == n + 1);
    lemma_places_stay(runs, x, n);
    assert forall|k: int| 0 <= k < n implies #[trigger] runs[k] == views(snapshots@[k]@) by {}
    assert forall|k: int| 0 <= k < n implies all[k] == #[trigger] runs[k] by {}
    assert(all[n as int] == x);
    assert(views(more_ids@) =~= views(ids@).push(id@));
    let old_ids = views(ids@);
    let new_ids = views(more_ids@);
    if r is Ok && q is Ok {
        assert forall|i: int| 0 <= i < all.len() implies !is_unreadable(#[trigger] all[i]) by {
            if i < n {
                assert(!is_unreadable(runs[i]));
            }
        }
        assert(s is Ok);
    }
    if s is Ok {
        assert forall|i: int| 0 <= i < n implies !is_unreadable(#[trigger] runs[i]) by {
            assert(all[i] == runs[i]);
        }
        assert(!is_unreadable(all[n as int]));
        assert(r is Ok && q is Ok);
        let a = settled_places(runs, n).map_values(|i: int| old_ids[i]);
        let b = settled_places(runs, n).map_values(|i: int| new_ids[i]);
        assert(a =~= b);
        let places = settled_places(all, n + 1);
        if waits_for_publication(x) {
            assert(places == settled_places(runs, n));
            assert(q->Ok_0 is Some);
            let last = s->Ok_0.0@.len() - 1;
            assert(waiting_places(all, n + 1)[last] == n);
            lemma_stands(x, s->Ok_0.0@[last]);
        } else {
            assert(places == settled_places(runs, n).push(n as int));
            assert(places.map_values(|i: int| new_ids[i]) =~= b.push(id@));
        }
        assert forall|i: int| 0 <= i < r->Ok_0.0@.len() implies of_one_run(
            snapshots@,
            #[trigger] r->Ok_0.0@[i],
            s->Ok_0.0@[i],
        ) by {
            let k = waiting_places(runs, n)[i];
            assert(waiting_places(all, n + 1)[i] == k);
            super::aggregation::lemma_waits(runs, n, i);
            assert(!is_unreadable(runs[k]));
            lemma_stands(runs[k], r->Ok_0.0@[i]);
            lemma_stands(runs[k], s->Ok_0.0@[i]);
            assert(stands(views(snapshots@[k]@), r->Ok_0.0@[i]));
        }
    }
}

/// The operation comes to what its reply means; a failure and a timeout are errors of it.
pub proof fn law_pending_summaries(
    store: RedisRunAggregationStore,
    ids: Vec<String>,
    snapshots: Vec<Vec<String>>,
    exchange: Exchange<Vec<Vec<String>>>,
    q: Result<(Vec<DurableRunSummary>, Vec<String>), RunAggregationStoreError>,
    r: Result<(Vec<DurableRunSummary>, Vec<String>), RunAggregationStoreError>,
)
    requires
        call_ensures(
            RedisRunAggregationStore::pending_summaries_reply,
            (&store, &ids, &snapshots),
            q,
        ),
        call_ensures(RedisRunAggregationStore::pending_summaries, (&store, &ids, exchange), r),
    ensures
        exchange == Exchange::Done(snapshots) ==> {
            &&& r is Ok <==> q is Ok
            &&& r is Ok ==> r->Ok_0.0@.len() == q->Ok_0.0@.len() && views(r->Ok_0.1@) == views(
                q->Ok_0.1@,
            )
            &&& r is Ok ==> forall|i: int|
                0 <= i < r->Ok_0.0@.len() ==> of_one_run(
                    snapshots@,
                    #[trigger] r->Ok_0.0@[i],
                    q->Ok_0.0@[i],
                )
        },
        exchange matches Exchange::Failed(text) ==> (r matches Err(
            RunAggregationStoreError::Unavailable { operation, message },
        ) && operation@ == "aggregation_pending_summaries"@ && message@ == text@),
        exchange is TimedOut ==> (r matches Err(RunAggregationStoreError::Timeout { operation })
            && operation@ == "aggregation_pending_summaries"@),
{
    let runs = batch(snapshots@);
    let n = runs.len();
    assert forall|k: int| 0 <= k < n implies #[trigger] runs[k] == views(snapshots@[k]@) by {}
    if exchange == Exchange::Done(snapshots) && r is Ok && q is Ok {
        assert forall|i: int| 0 <= i < r->Ok_0.0@.len() implies of_one_run(
            snapshots@,
            #[trigger] r->Ok_0.0@[i],
            q->Ok_0.0@[i],
        ) by {
            let k = waiting_places(runs, n)[i];
            super::aggregation::lemma_waits(runs, n, i);
            assert(!is_unreadable(runs[k]));
            lemma_stands(runs[k], r->Ok_0.0@[i]);
            lemma_stands(runs[k], q->Ok_0.0@[i]);
            assert(stands(views(snapshots@[k]@), r->Ok_0.0@[i]));
        }
    }
}

} // verus!
