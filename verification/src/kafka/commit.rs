//! Committing the offset of a record that has been settled. A commit counts only
//! while the partition has stayed assigned to this consumer since the record was
//! received.
use vstd::prelude::*;
use super::settings::reports;
use crate::text::{concat2, concat4, copy_str, decimal_i64, decimal_u64};
#[allow(unused_imports)]
use crate::text::{decimal, decimal_int};

verus! {

/// A record whose offset is to be committed, with the assignment epoch under which
/// it was received.
#[derive(Debug)]
pub struct CommitGuard {
    pub topic: String,
    pub partition: i32,
    pub offset: i64,
    pub consumed_epoch: u64,
}

/// A partition in words.
pub open spec fn partition_text(topic: Seq<char>, partition: i32) -> Seq<char> {
    topic + "["@ + decimal_int(partition as int) + "]"@
}

/// Two epochs in words.
pub open spec fn epochs_text(consumed: u64, current: u64) -> Seq<char> {
    ": consumed epoch "@ + decimal(consumed as nat) + ", current epoch "@ + decimal(current as nat)
}

fn show_epochs(consumed: u64, current: u64) -> (s: String)
    ensures
        s@ == epochs_text(consumed, current),
{
    concat4(
        ": consumed epoch ",
        &decimal_u64(consumed),
        ", current epoch ",
        &decimal_u64(current),
    )
}

/// What was seen while an offset was committed, in the order in which it is looked
/// at.
#[derive(Debug)]
pub struct CommitTrace {
    pub epoch_before: u64,
    pub assigned_before: Result<bool, String>,
    pub offset_built: Result<(), String>,
    pub committed: Result<(), String>,
    pub epoch_after: u64,
    pub assigned_after: Result<bool, String>,
}

impl CommitGuard {
    /// Why nothing may be committed under an epoch.
    pub open spec fn epoch_before_problem(self, current: u64) -> Option<Seq<char>> {
        if current != self.consumed_epoch {
            Some(
                "refusing Kafka offset commit after rebalance"@ + epochs_text(
                    self.consumed_epoch,
                    current,
                ),
            )
        } else {
            None
        }
    }

    /// Why nothing may be committed under an assignment.
    pub open spec fn assigned_before_problem(self, assigned: Result<bool, String>) -> Option<Seq<char>> {
        match assigned {
            Err(m) => Some("failed to inspect Kafka assignment before commit: "@ + m@),
            Ok(b) => if b {
                None
            } else {
                Some(
                    "refusing Kafka offset commit for revoked assignment "@ + partition_text(
                        self.topic@,
                        self.partition,
                    ),
                )
            },
        }
    }

    /// Why a commit does not count under an epoch.
    pub open spec fn epoch_after_problem(self, current: u64) -> Option<Seq<char>> {
        if current != self.consumed_epoch {
            Some(
                "Kafka rebalance raced with offset commit acknowledgement"@ + epochs_text(
                    self.consumed_epoch,
                    current,
                ),
            )
        } else {
            None
        }
    }

    /// Why a commit does not count under an assignment.
    pub open spec fn assigned_after_problem(self, assigned: Result<bool, String>) -> Option<Seq<char>> {
        match assigned {
            Err(m) => Some("failed to inspect Kafka assignment after commit: "@ + m@),
            Ok(b) => if b {
                None
            } else {
                Some(
                    "Kafka assignment "@ + partition_text(self.topic@, self.partition)
                        + " was revoked during commit acknowledgement"@,
                )
            },
        }
    }

    /// What a failed step means.
    pub open spec fn step_problem(what: Seq<char>, outcome: Result<(), String>) -> Option<Seq<char>> {
        match outcome {
            Ok(_) => None,
            Err(m) => Some(what + m@),
        }
    }

    /// The first reason why the commit does not count.
    pub open spec fn problem(self, t: CommitTrace) -> Option<Seq<char>> {
        if self.epoch_before_problem(t.epoch_before) is Some {
            self.epoch_before_problem(t.epoch_before)
        } else if self.assigned_before_problem(t.assigned_before) is Some {
            self.assigned_before_problem(t.assigned_before)
        } else if t.offset_built is Err {
            Self::step_problem("failed to build Kafka commit offset: "@, t.offset_built)
        } else if self.epoch_after_problem(t.epoch_after) is Some {
            self.epoch_after_problem(t.epoch_after)
        } else if self.assigned_after_problem(t.assigned_after) is Some {
            self.assigned_after_problem(t.assigned_after)
        } else {
            Self::step_problem("failed to commit Kafka message: "@, t.committed)
        }
    }

    /// The offset that is committed: that of the next record.
    pub fn next_offset(&self) -> (r: Result<i64, String>)
        ensures
            reports(
                r,
                if self.offset == i64::MAX {
                    Some("cannot commit Kafka offset because it overflowed"@)
                } else {
                    None
                },
            ),
            r matches Ok(n) ==> n == self.offset + 1,
    {
        if self.offset == i64::MAX {
            return Err(copy_str("cannot commit Kafka offset because it overflowed"));
        }
        Ok(self.offset + 1)
    }

    fn partition_name(&self) -> (s: String)
        ensures
            s@ == partition_text(self.topic@, self.partition),
    {
        concat4(&self.topic, "[", &decimal_i64(self.partition as i64), "]")
    }

    /// Refuses to commit after a rebalance.
    pub fn check_epoch_before(&self, current: u64) -> (r: Result<(), String>)
        ensures
            reports(r, self.epoch_before_problem(current)),
    {
        if current != self.consumed_epoch {
            return Err(
                concat2(
                    "refusing Kafka offset commit after rebalance",
                    &show_epochs(self.consumed_epoch, current),
                ),
            );
        }
        Ok(())
    }

    /// Refuses to commit for a partition that is not assigned.
    pub fn check_assignment_before(&self, assigned: &Result<bool, String>) -> (r: Result<(), String>)
        ensures
            reports(r, self.assigned_before_problem(*assigned)),
    {
        match assigned {
            Err(m) => Err(concat2("failed to inspect Kafka assignment before commit: ", m)),
            Ok(true) => Ok(()),
            Ok(false) => Err(
                concat2(
                    "refusing Kafka offset commit for revoked assignment ",
                    &self.partition_name(),
                ),
            ),
        }
    }

    /// Does not count a commit that a rebalance overtook.
    pub fn check_epoch_after(&self, current: u64) -> (r: Result<(), String>)
        ensures
            reports(r, self.epoch_after_problem(current)),
    {
        if current != self.consumed_epoch {
            return Err(
                concat2(
                    "Kafka rebalance raced with offset commit acknowledgement",
                    &show_epochs(self.consumed_epoch, current),
                ),
            );
        }
        Ok(())
    }

    /// Does not count a commit for a partition that was taken away meanwhile.
    pub fn check_assignment_after(&self, assigned: &Result<bool, String>) -> (r: Result<(), String>)
        ensures
            reports(r, self.assigned_after_problem(*assigned)),
    {
        match assigned {
            Err(m) => Err(concat2("failed to inspect Kafka assignment after commit: ", m)),
            Ok(true) => Ok(()),
            Ok(false) => {
                let head = concat2("Kafka assignment ", &self.partition_name());
                Err(concat2(&head, " was revoked during commit acknowledgement"))
            },
        }
    }

    /// Whether a commit counts, from what was seen before, during and after it.
    pub fn verdict(&self, trace: &CommitTrace) -> (r: Result<(), String>)
        ensures
            reports(r, self.problem(*trace)),
    {
        self.check_epoch_before(trace.epoch_before)?;
        self.check_assignment_before(&trace.assigned_before)?;
        match &trace.offset_built {
            Ok(_) => {},
            Err(m) => {
                return Err(concat2("failed to build Kafka commit offset: ", m));
            },
        }
        self.check_epoch_after(trace.epoch_after)?;
        self.check_assignment_after(&trace.assigned_after)?;
        match &trace.committed {
            Ok(_) => Ok(()),
            Err(m) => Err(concat2("failed to commit Kafka message: ", m)),
        }
    }
}

/// A commit counts exactly when the broker acknowledged it and the partition was
/// assigned under the epoch of the record both before and after.
pub proof fn lemma_commit_counts_under_its_epoch_only(guard: CommitGuard, t: CommitTrace)
    ensures
        guard.problem(t) is None <==> {
            &&& t.epoch_before == guard.consumed_epoch
            &&& t.epoch_after == guard.consumed_epoch
            &&& t.assigned_before matches Ok(true)
            &&& t.assigned_after matches Ok(true)
            &&& t.offset_built is Ok
            &&& t.committed is Ok
        },
{
}

// ---------------------------------------------------------------------------
// One step after the other
// ---------------------------------------------------------------------------

/// What is to be done next to commit the offset of a record. What came of the commit is
/// kept until it is known whether it counts.
#[derive(Debug, PartialEq, Eq)]
pub enum CommitState {
    ReadEpoch,
    ReadAssignment,
    BuildOffset,
    SendCommit,
    ReadEpochAgain(Result<(), String>),
    ReadAssignmentAgain(Result<(), String>),
    Ended(Result<(), String>),
}

/// What came of doing it.
#[derive(Debug)]
pub enum CommitEvent {
    Epoch(u64),
    Assigned(Result<bool, String>),
    OffsetBuilt(Result<(), String>),
    Committed(Result<(), String>),
}

/// What is to be done next; where a commit failed or does not count, with the reason.
pub enum CommitStage {
    ReadEpoch,
    ReadAssignment,
    BuildOffset,
    SendCommit,
    ReadEpochAgain(Option<Seq<char>>),
    ReadAssignmentAgain(Option<Seq<char>>),
    Ended(Option<Seq<char>>),
}

/// The reason of a failure.
pub open spec fn reason_of(outcome: Result<(), String>) -> Option<Seq<char>> {
    match outcome {
        Ok(_) => None,
        Err(m) => Some(m@),
    }
}

impl View for CommitState {
    type V = CommitStage;

    open spec fn view(&self) -> CommitStage {
        match self {
            CommitState::ReadEpoch => CommitStage::ReadEpoch,
            CommitState::ReadAssignment => CommitStage::ReadAssignment,
            CommitState::BuildOffset => CommitStage::BuildOffset,
            CommitState::SendCommit => CommitStage::SendCommit,
            CommitState::ReadEpochAgain(r) => CommitStage::ReadEpochAgain(reason_of(*r)),
            CommitState::ReadAssignmentAgain(r) => CommitStage::ReadAssignmentAgain(reason_of(*r)),
            CommitState::Ended(r) => CommitStage::Ended(reason_of(*r)),
        }
    }
}

/// The next stage where nothing is wrong, else the end.
pub open spec fn unless_wrong(problem: Option<Seq<char>>, next: CommitStage) -> CommitStage {
    if problem is Some {
        CommitStage::Ended(problem)
    } else {
        next
    }
}

impl CommitGuard {
    /// What is done first.
    pub open spec fn first_stage(self) -> CommitStage {
        if self.offset == i64::MAX {
            CommitStage::Ended(Some("cannot commit Kafka offset because it overflowed"@))
        } else {
            CommitStage::ReadEpoch
        }
    }

    /// What is done next. What was not asked for changes nothing.
    pub open spec fn next_stage(self, stage: CommitStage, event: CommitEvent) -> CommitStage {
        match (stage, event) {
            (CommitStage::ReadEpoch, CommitEvent::Epoch(current)) => unless_wrong(
                self.epoch_before_problem(current),
                CommitStage::ReadAssignment,
            ),
            (CommitStage::ReadAssignment, CommitEvent::Assigned(assigned)) => unless_wrong(
                self.assigned_before_problem(assigned),
                CommitStage::BuildOffset,
            ),
            (CommitStage::BuildOffset, CommitEvent::OffsetBuilt(built)) => unless_wrong(
                Self::step_problem("failed to build Kafka commit offset: "@, built),
                CommitStage::SendCommit,
            ),
            (CommitStage::SendCommit, CommitEvent::Committed(committed)) => {
                CommitStage::ReadEpochAgain(
                    Self::step_problem("failed to commit Kafka message: "@, committed),
                )
            },
            (CommitStage::ReadEpochAgain(committed), CommitEvent::Epoch(current)) => unless_wrong(
                self.epoch_after_problem(current),
                CommitStage::ReadAssignmentAgain(committed),
            ),
            (CommitStage::ReadAssignmentAgain(committed), CommitEvent::Assigned(assigned)) => {
                unless_wrong(
                    self.assigned_after_problem(assigned),
                    CommitStage::Ended(committed),
                )
            },
            _ => stage,
        }
    }

    /// What is done after these events.
    pub open spec fn stage_after(self, events: Seq<CommitEvent>) -> CommitStage
        decreases events.len(),
    {
        if events.len() == 0 {
            self.first_stage()
        } else {
            self.next_stage(self.stage_after(events.drop_last()), events.last())
        }
    }

    /// Begins to commit the offset of the record.
    pub fn begin(&self) -> (state: CommitState)
        ensures
            state@ == self.first_stage(),
    {
        match self.next_offset() {
            Ok(_) => CommitState::ReadEpoch,
            Err(m) => CommitState::Ended(Err(m)),
        }
    }

    /// Goes on with what came of the last step.
    pub fn step(&self, state: CommitState, event: CommitEvent) -> (next: CommitState)
        ensures
            next@ == self.next_stage(state@, event),
    {
        match (state, event) {
            (CommitState::ReadEpoch, CommitEvent::Epoch(current)) => {
                match self.check_epoch_before(current) {
                    Ok(_) => CommitState::ReadAssignment,
                    Err(m) => CommitState::Ended(Err(m)),
                }
            },
            (CommitState::ReadAssignment, CommitEvent::Assigned(assigned)) => {
                match self.check_assignment_before(&assigned) {
                    Ok(_) => CommitState::BuildOffset,
                    Err(m) => CommitState::Ended(Err(m)),
                }
            },
            (CommitState::BuildOffset, CommitEvent::OffsetBuilt(built)) => match built {
                Ok(_) => CommitState::SendCommit,
                Err(m) => CommitState::Ended(
                    Err(concat2("failed to build Kafka commit offset: ", &m)),
                ),
            },
            (CommitState::SendCommit, CommitEvent::Committed(committed)) => match committed {
                Ok(_) => CommitState::ReadEpochAgain(Ok(())),
                Err(m) => CommitState::ReadEpochAgain(
                    Err(concat2("failed to commit Kafka message: ", &m)),
                ),
            },
            (CommitState::ReadEpochAgain(committed), CommitEvent::Epoch(current)) => {
                match self.check_epoch_after(current) {
                    Ok(_) => CommitState::ReadAssignmentAgain(committed),
                    Err(m) => CommitState::Ended(Err(m)),
                }
            },
            (CommitState::ReadAssignmentAgain(committed), CommitEvent::Assigned(assigned)) => {
                match self.check_assignment_after(&assigned) {
                    Ok(_) => CommitState::Ended(committed),
                    Err(m) => CommitState::Ended(Err(m)),
                }
            },
            (state, _) => state,
        }
    }
}

/// Whether an event fails the check that it is held to.
pub open spec fn fails_check(guard: CommitGuard, stage: CommitStage, event: CommitEvent) -> bool {
    match (stage, event) {
        (CommitStage::ReadEpoch, CommitEvent::Epoch(current)) => current != guard.consumed_epoch,
        (CommitStage::ReadAssignment, CommitEvent::Assigned(assigned)) => !(assigned matches Ok(
            true,
        )),
        (CommitStage::BuildOffset, CommitEvent::OffsetBuilt(built)) => built is Err,
        _ => false,
    }
}

/// A commit is sent only after the epoch was found to be that of the record, then the
/// partition to be assigned, and then the offset was built.
pub proof fn lemma_commit_is_sent_after_all_checks(guard: CommitGuard, events: Seq<CommitEvent>)
    requires
        guard.stage_after(events) is SendCommit,
    ensures
        exists|i: int, j: int, k: int|
            #![trigger events[i], events[j], events[k]]
            0 <= i < j < k < events.len() && events[i] == CommitEvent::Epoch(guard.consumed_epoch)
                && events[j] == CommitEvent::Assigned(Ok(true)) && (events[k] matches
                CommitEvent::OffsetBuilt(Ok(_))),
{
    let k = lemma_stage_was_entered(guard, events, CommitStage::SendCommit);
    let j = lemma_stage_was_entered(guard, events.take(k), CommitStage::BuildOffset);
    let i = lemma_stage_was_entered(guard, events.take(k).take(j), CommitStage::ReadAssignment);
    assert(events.take(k)[j] == events[j]);
    assert(events.take(k).take(j)[i] == events[i]);
    assert(events[i] == CommitEvent::Epoch(guard.consumed_epoch));
    assert(events[j] == CommitEvent::Assigned(Ok(true)));
    assert(events[k] matches CommitEvent::OffsetBuilt(Ok(_)));
}

/// The stage that leads to another.
spec fn stage_before(stage: CommitStage) -> CommitStage {
    match stage {
        CommitStage::SendCommit => CommitStage::BuildOffset,
        CommitStage::BuildOffset => CommitStage::ReadAssignment,
        _ => CommitStage::ReadEpoch,
    }
}

/// A stage that was reached was entered by an event, from the stage before it.
proof fn lemma_stage_was_entered(
    guard: CommitGuard,
    events: Seq<CommitEvent>,
    stage: CommitStage,
) -> (k: int)
    requires
        guard.stage_after(events) == stage,
        stage is SendCommit || stage is BuildOffset || stage is ReadAssignment,
    ensures
        0 <= k < events.len(),
        guard.stage_after(events.take(k)) == stage_before(stage),
        guard.next_stage(stage_before(stage), events[k]) == stage,
    decreases events.len(),
{
    let before = guard.stage_after(events.drop_last());
    if before == stage {
        let k = lemma_stage_was_entered(guard, events.drop_last(), stage);
        assert(events.drop_last().take(k) =~= events.take(k));
        k
    } else {
        assert(events.take(events.len() - 1) =~= events.drop_last());
        events.len() - 1
    }
}

/// After a check that failed no commit is sent, whatever happens later.
pub proof fn lemma_failed_check_sends_nothing(
    guard: CommitGuard,
    events: Seq<CommitEvent>,
    k: int,
    n: int,
)
    requires
        0 <= k < n <= events.len(),
        fails_check(guard, guard.stage_after(events.take(k)), events[k]),
    ensures
        guard.stage_after(events.take(n)) is Ended,
        guard.stage_after(events.take(n))->Ended_0 is Some,
    decreases n,
{
    assert(events.take(n).drop_last() =~= events.take(n - 1));
    if n > k + 1 {
        lemma_failed_check_sends_nothing(guard, events, k, n - 1);
    }
}

proof fn lemma_one_event_more(guard: CommitGuard, events: Seq<CommitEvent>, n: int)
    requires
        0 <= n < events.len(),
    ensures
        guard.stage_after(events.take(n + 1)) == guard.next_stage(
            guard.stage_after(events.take(n)),
            events[n],
        ),
{
    assert(events.take(n + 1).drop_last() =~= events.take(n));
}

/// What was seen while an offset was committed, as events.
pub open spec fn trace_events(t: CommitTrace) -> Seq<CommitEvent> {
    seq![
        CommitEvent::Epoch(t.epoch_before),
        CommitEvent::Assigned(t.assigned_before),
        CommitEvent::OffsetBuilt(t.offset_built),
        CommitEvent::Committed(t.committed),
        CommitEvent::Epoch(t.epoch_after),
        CommitEvent::Assigned(t.assigned_after),
    ]
}

/// Where the offset can be committed, the steps end as the whole is judged.
pub proof fn lemma_steps_reach_the_verdict(guard: CommitGuard, t: CommitTrace)
    requires
        guard.offset < i64::MAX,
    ensures
        guard.stage_after(trace_events(t)) == CommitStage::Ended(guard.problem(t)),
{
    let all = trace_events(t);
    lemma_one_event_more(guard, all, 0);
    lemma_one_event_more(guard, all, 1);
    lemma_one_event_more(guard, all, 2);
    lemma_one_event_more(guard, all, 3);
    lemma_one_event_more(guard, all, 4);
    lemma_one_event_more(guard, all, 5);
    assert(all.take(6) =~= all);
}

} // verus!
