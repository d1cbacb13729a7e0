//! The export workflow's logic: partitioning an album's items by owning
//! space, deciding which copy tasks to submit, accounting for polled task
//! status until every task has left its pending state, and preparing the
//! folder path that receives the copies.

use vstd::prelude::*;
use crate::client::{ItemInfo, TaskInfo, UserSettings};
use crate::text::{dec_chars, u64_to_dec};

verus! {

/// The ids of the personal space items, in order.
pub open spec fn personal_ids(items: Seq<ItemInfo>) -> Seq<u32> {
    items.filter(|it: ItemInfo| it.owner_user_id != 0).map_values(|it: ItemInfo| it.id)
}

/// The ids of the shared space items, in order.
pub open spec fn shared_ids(items: Seq<ItemInfo>) -> Seq<u32> {
    items.filter(|it: ItemInfo| it.owner_user_id == 0).map_values(|it: ItemInfo| it.id)
}

/// Splits an album's items by owning space: an `owner_user_id` of zero marks
/// the shared space, everything else the personal space. The split is total
/// and disjoint: the two sides keep every item exactly once.
pub fn partition_item_ids(items: &Vec<ItemInfo>) -> (r: (Vec<u32>, Vec<u32>))
    ensures
        r.0@ == personal_ids(items@),
        r.1@ == shared_ids(items@),
        r.0@.len() + r.1@.len() == items@.len(),
{
    let ghost p_pred = |it: ItemInfo| it.owner_user_id != 0;
    let ghost s_pred = |it: ItemInfo| it.owner_user_id == 0;
    let mut personal: Vec<u32> = Vec::new();
    let mut shared: Vec<u32> = Vec::new();
    let mut i: usize = 0;
    proof {
        assert(items@.take(0) =~= Seq::<ItemInfo>::empty());
        reveal(Seq::filter);
        assert(personal@ =~= items@.take(0).filter(p_pred).map_values(|it: ItemInfo| it.id));
        assert(shared@ =~= items@.take(0).filter(s_pred).map_values(|it: ItemInfo| it.id));
    }
    while i < items.len()
        invariant
            0 <= i <= items@.len(),
            personal@ == items@.take(i as int).filter(p_pred).map_values(|it: ItemInfo| it.id),
            shared@ == items@.take(i as int).filter(s_pred).map_values(|it: ItemInfo| it.id),
            p_pred == (|it: ItemInfo| it.owner_user_id != 0),
            s_pred == (|it: ItemInfo| it.owner_user_id == 0),
            personal@.len() + shared@.len() == i,
        decreases items@.len() - i,
    {
        proof {
            reveal(Seq::filter);
            assert(items@.take(i + 1).drop_last() =~= items@.take(i as int));
            assert(items@.take(i + 1).last() == items@[i as int]);
        }
        if items[i].owner_user_id != 0 {
            personal.push(items[i].id);
            proof {
                assert(personal@ =~= items@.take(i + 1).filter(p_pred).map_values(
                    |it: ItemInfo| it.id,
                ));
                assert(shared@ =~= items@.take(i + 1).filter(s_pred).map_values(
                    |it: ItemInfo| it.id,
                ));
            }
        } else {
            shared.push(items[i].id);
            proof {
                assert(personal@ =~= items@.take(i + 1).filter(p_pred).map_values(
                    |it: ItemInfo| it.id,
                ));
                assert(shared@ =~= items@.take(i + 1).filter(s_pred).map_values(
                    |it: ItemInfo| it.id,
                ));
            }
        }
        i += 1;
    }
    proof {
        assert(items@.take(items@.len() as int) =~= items@);
    }
    (personal, shared)
}

/// True when the account can reach the shared space at all.
pub fn has_shared_space_access(user_settings: &UserSettings) -> (r: bool)
    ensures
        r == (user_settings.team_space_permission@ != "none"@),
{
    !crate::text::str_eq(user_settings.team_space_permission.as_str(), "none")
}

/// What to do about the shared space partition of an export.
#[derive(Debug, PartialEq, Eq, Structural)]
pub enum SharedCopyAction {
    /// Submit a copy task for the shared items.
    Submit,
    /// The album holds shared items but the account cannot reach the shared
    /// space: warn and skip them, without failing the export.
    SkipNoAccess,
    /// No shared items: nothing to do.
    Nothing,
}

/// Decides the shared partition's fate: a copy task is submitted only when
/// there are shared items and the account has shared space access; shared
/// items without access are skipped with a warning.
pub fn shared_copy_action(shared_count: usize, shared_access: bool) -> (r: SharedCopyAction)
    ensures
        shared_count == 0 ==> r == SharedCopyAction::Nothing,
        shared_count > 0 && shared_access ==> r == SharedCopyAction::Submit,
        shared_count > 0 && !shared_access ==> r == SharedCopyAction::SkipNoAccess,
{
    if shared_count == 0 {
        SharedCopyAction::Nothing
    } else if shared_access {
        SharedCopyAction::Submit
    } else {
        SharedCopyAction::SkipNoAccess
    }
}

/// A task still pending: it is waiting, running, or being aborted.
pub open spec fn spec_is_pending(status: Seq<char>) -> bool {
    status == "waiting"@ || status == "processing"@ || status == "aborting"@
}

/// True when a reported status is terminal, that is, outside the pending set.
pub fn is_terminal_status(status: &str) -> (r: bool)
    ensures
        r == !spec_is_pending(status@),
{
    !(crate::text::str_eq(status, "waiting") || crate::text::str_eq(status, "processing")
        || crate::text::str_eq(status, "aborting"))
}

/// The items a finished task actually copied.
pub open spec fn copied_of(t: TaskInfo) -> int {
    t.completion - t.skip - t.error
}

/// The items a finished task never processed.
pub open spec fn aborted_of(t: TaskInfo) -> int {
    t.total - (t.completion + t.skip + t.error)
}

/// A well-formed task never reports negative copied or canceled counts, and
/// never more copied items than its total.
pub proof fn lemma_task_counts_nonneg(t: TaskInfo)
    requires
        t.wf(),
    ensures
        copied_of(t) >= 0,
        copied_of(t) <= t.total,
        aborted_of(t) >= 0,
{
}

/// A finished task without skipped or failed items accounts for its total
/// exactly once: its copied, skipped, failed and canceled items together are
/// the task's total. (With skipped or failed items the four counters, as the
/// accumulation defines them, fall short of the total by the skipped and
/// failed counts.)
pub proof fn lemma_task_conservation(t: TaskInfo)
    requires
        t.wf(),
        t.skip == 0,
        t.error == 0,
    ensures
        copied_of(t) + t.skip + t.error + aborted_of(t) == t.total,
{
}

/// The sum of a sequence of integers.
pub open spec fn seq_sum(s: Seq<int>) -> int
    decreases s.len(),
{
    if s.len() == 0 {
        0
    } else {
        seq_sum(s.drop_last()) + s.last()
    }
}

/// Every task of a batch reports a terminal status.
pub open spec fn all_terminal(batch: Seq<TaskInfo>) -> bool {
    forall|j: int| 0 <= j < batch.len() ==> !spec_is_pending((#[trigger] batch[j]).status@)
}

/// The tasks of a batch that have left the pending states.
pub open spec fn done_tasks(responses: Seq<TaskInfo>) -> Seq<TaskInfo> {
    responses.filter(|t: TaskInfo| !spec_is_pending(t.status@))
}

/// The ids of the tasks of a batch that are still pending, in order.
pub open spec fn pending_ids(responses: Seq<TaskInfo>) -> Seq<u32> {
    responses.filter(|t: TaskInfo| spec_is_pending(t.status@)).map_values(|t: TaskInfo| t.id)
}

/// The totals of a batch of tasks, summed.
pub open spec fn sum_totals(ts: Seq<TaskInfo>) -> int {
    seq_sum(ts.map_values(|t: TaskInfo| t.total as int))
}

/// The poll loop's state: the tasks still outstanding and the counters
/// accumulated from the tasks already done.
#[derive(Debug)]
pub struct PollState {
    pub outstanding: Vec<u32>,
    pub copied: u64,
    pub skipped: u64,
    pub failed: u64,
    pub aborted: u64,
}

impl PollState {
    /// Everything counted so far.
    pub open spec fn counts_sum(&self) -> int {
        self.copied + self.skipped + self.failed + self.aborted
    }

    /// Starts the poll over the tasks that were submitted.
    pub fn new(task_ids: Vec<u32>) -> (r: Self)
        ensures
            r.outstanding == task_ids,
            r.copied == 0 && r.skipped == 0 && r.failed == 0 && r.aborted == 0,
    {
        PollState { outstanding: task_ids, copied: 0, skipped: 0, failed: 0, aborted: 0 }
    }

    /// True when no task is outstanding: the poll loop stops here.
    pub fn is_done(&self) -> (r: bool)
        ensures
            r == (self.outstanding@.len() == 0),
    {
        self.outstanding.len() == 0
    }

    /// Folds one polled status batch into the state: every task that left the
    /// pending states contributes its counters — copied, skipped, failed, and
    /// the unprocessed remainder as canceled — and exactly the still-pending
    /// ids stay outstanding. One whole batch of terminal statuses therefore
    /// empties the outstanding set, and the four counters together grow by
    /// exactly the done tasks' totals.
    pub fn poll_step(&mut self, responses: &Vec<TaskInfo>)
        requires
            forall|j: int| 0 <= j < responses@.len() ==> (#[trigger] responses@[j]).wf(),
            old(self).counts_sum() + sum_totals(responses@) <= u64::MAX,
        ensures
            final(self).outstanding@ == pending_ids(responses@),
            final(self).copied == old(self).copied + seq_sum(
                done_tasks(responses@).map_values(|t: TaskInfo| copied_of(t)),
            ),
            final(self).skipped == old(self).skipped + seq_sum(
                done_tasks(responses@).map_values(|t: TaskInfo| t.skip as int),
            ),
            final(self).failed == old(self).failed + seq_sum(
                done_tasks(responses@).map_values(|t: TaskInfo| t.error as int),
            ),
            final(self).aborted == old(self).aborted + seq_sum(
                done_tasks(responses@).map_values(|t: TaskInfo| aborted_of(t)),
            ),
            all_terminal(responses@) ==> final(self).outstanding@.len() == 0,
    {
        let ghost done_pred = |t: TaskInfo| !spec_is_pending(t.status@);
        let ghost pend_pred = |t: TaskInfo| spec_is_pending(t.status@);
        let mut still_pending: Vec<u32> = Vec::new();
        let mut i: usize = 0;
        proof {
            reveal(Seq::filter);
            assert(responses@.take(0) =~= Seq::<TaskInfo>::empty());
            assert(still_pending@ =~= pending_ids(responses@.take(0)));
            assert(done_tasks(responses@.take(0)) =~= Seq::<TaskInfo>::empty());
        }
        let ghost c0 = self.copied;
        let ghost s0 = self.skipped;
        let ghost f0 = self.failed;
        let ghost a0 = self.aborted;
        let ghost out0 = self.outstanding@;
        while i < responses.len()
            invariant
                0 <= i <= responses@.len(),
                forall|j: int| 0 <= j < responses@.len() ==> (#[trigger] responses@[j]).wf(),
                c0 + s0 + f0 + a0 + sum_totals(responses@) <= u64::MAX,
                still_pending@ == pending_ids(responses@.take(i as int)),
                self.copied == c0 + seq_sum(
                    done_tasks(responses@.take(i as int)).map_values(
                        |t: TaskInfo| copied_of(t),
                    ),
                ),
                self.skipped == s0 + seq_sum(
                    done_tasks(responses@.take(i as int)).map_values(
                        |t: TaskInfo| t.skip as int,
                    ),
                ),
                self.failed == f0 + seq_sum(
                    done_tasks(responses@.take(i as int)).map_values(
                        |t: TaskInfo| t.error as int,
                    ),
                ),
                self.aborted == a0 + seq_sum(
                    done_tasks(responses@.take(i as int)).map_values(
                        |t: TaskInfo| aborted_of(t),
                    ),
                ),
                self.outstanding@ == out0,
            decreases responses@.len() - i,
        {
            proof {
                reveal(Seq::filter);
                assert(responses@.take(i + 1).drop_last() =~= responses@.take(i as int));
                assert(responses@.take(i + 1).last() == responses@[i as int]);
                lemma_sum_counts_bound(responses@, i as int);
                lemma_sum_push(responses@.take(i as int), responses@[i as int]);
                assert(responses@.take(i + 1) =~= responses@.take(i as int).push(
                    responses@[i as int],
                ));
            }
            let t = &responses[i];
            if is_terminal_status(t.status.as_str()) {
                proof {
                    lemma_step_views(responses@, i as int);
                    lemma_sum_push(done_tasks(responses@.take(i as int)), responses@[i as int]);
                    lemma_sum_counts_bound(responses@, i as int);
                    lemma_sum_counts_bound(responses@, i + 1);
                    assert(responses@[i as int].wf());
                }
                let add_copied = t.completion - t.skip - t.error;
                let add_aborted = t.total - (t.completion + t.skip + t.error);
                self.copied = self.copied + add_copied as u64;
                self.skipped = self.skipped + t.skip as u64;
                self.failed = self.failed + t.error as u64;
                self.aborted = self.aborted + add_aborted as u64;
                proof {
                    assert(still_pending@ =~= pending_ids(responses@.take(i + 1)));
                }
            } else {
                still_pending.push(t.id);
                proof {
                    lemma_step_views(responses@, i as int);
                    assert(still_pending@ =~= pending_ids(responses@.take(i + 1)));
                }
            }
            i += 1;
        }
        proof {
            assert(responses@.take(responses@.len() as int) =~= responses@);
            lemma_sum_counts_bound(responses@, responses@.len() as int);
            if forall|j: int|
                0 <= j < responses@.len() ==> !spec_is_pending((#[trigger] responses@[j]).status@) {
                lemma_all_terminal_pending_empty(responses@);
            }
        }
        self.outstanding = still_pending;
    }
}

/// Unfolds the sums of one batch step: the done tasks of `take(i + 1)` are
/// the done tasks of `take(i)`, extended by the i-th response when that one
/// is terminal.
proof fn lemma_step_views(responses: Seq<TaskInfo>, i: int)
    requires
        0 <= i < responses.len(),
    ensures
        !spec_is_pending(responses[i].status@) ==> done_tasks(responses.take(i + 1))
            == done_tasks(responses.take(i)).push(responses[i]),
        spec_is_pending(responses[i].status@) ==> done_tasks(responses.take(i + 1)) == done_tasks(
            responses.take(i),
        ),
        !spec_is_pending(responses[i].status@) ==> pending_ids(responses.take(i + 1))
            == pending_ids(responses.take(i)),
        spec_is_pending(responses[i].status@) ==> pending_ids(responses.take(i + 1))
            == pending_ids(responses.take(i)).push(responses[i].id),
        seq_sum(
            done_tasks(responses.take(i + 1)).map_values(|t: TaskInfo| copied_of(t)),
        ) == seq_sum(done_tasks(responses.take(i)).map_values(|t: TaskInfo| copied_of(t))) + (
        if !spec_is_pending(responses[i].status@) {
            copied_of(responses[i])
        } else {
            0
        }),
        seq_sum(
            done_tasks(responses.take(i + 1)).map_values(|t: TaskInfo| t.skip as int),
        ) == seq_sum(done_tasks(responses.take(i)).map_values(|t: TaskInfo| t.skip as int)) + (
        if !spec_is_pending(responses[i].status@) {
            responses[i].skip as int
        } else {
            0
        }),
        seq_sum(
            done_tasks(responses.take(i + 1)).map_values(|t: TaskInfo| t.error as int),
        ) == seq_sum(done_tasks(responses.take(i)).map_values(|t: TaskInfo| t.error as int)) + (
        if !spec_is_pending(responses[i].status@) {
            responses[i].error as int
        } else {
            0
        }),
        seq_sum(
            done_tasks(responses.take(i + 1)).map_values(|t: TaskInfo| aborted_of(t)),
        ) == seq_sum(done_tasks(responses.take(i)).map_values(|t: TaskInfo| aborted_of(t))) + (
        if !spec_is_pending(responses[i].status@) {
            aborted_of(responses[i])
        } else {
            0
        }),
{
    reveal(Seq::filter);
    let dp = |t: TaskInfo| !spec_is_pending(t.status@);
    let pp = |t: TaskInfo| spec_is_pending(t.status@);
    assert(responses.take(i + 1).drop_last() =~= responses.take(i));
    assert(responses.take(i + 1).last() == responses[i]);
    if !spec_is_pending(responses[i].status@) {
        assert(responses.take(i + 1).filter(dp) =~= responses.take(i).filter(dp).push(
            responses[i],
        ));
        assert(responses.take(i + 1).filter(pp) =~= responses.take(i).filter(pp));
        assert(pending_ids(responses.take(i + 1)) =~= pending_ids(responses.take(i)));
        lemma_sum_push(done_tasks(responses.take(i)), responses[i]);
    } else {
        assert(responses.take(i + 1).filter(dp) =~= responses.take(i).filter(dp));
        assert(responses.take(i + 1).filter(pp) =~= responses.take(i).filter(pp).push(
            responses[i],
        ));
        assert(pending_ids(responses.take(i + 1)) =~= pending_ids(responses.take(i)).push(
            responses[i].id,
        ));
    }
}

proof fn lemma_sum_push(ts: Seq<TaskInfo>, v: TaskInfo)
    ensures
        seq_sum(ts.push(v).map_values(|t: TaskInfo| copied_of(t))) == seq_sum(
            ts.map_values(|t: TaskInfo| copied_of(t)),
        ) + copied_of(v),
        seq_sum(ts.push(v).map_values(|t: TaskInfo| t.skip as int)) == seq_sum(
            ts.map_values(|t: TaskInfo| t.skip as int),
        ) + v.skip,
        seq_sum(ts.push(v).map_values(|t: TaskInfo| t.error as int)) == seq_sum(
            ts.map_values(|t: TaskInfo| t.error as int),
        ) + v.error,
        seq_sum(ts.push(v).map_values(|t: TaskInfo| aborted_of(t))) == seq_sum(
            ts.map_values(|t: TaskInfo| aborted_of(t)),
        ) + aborted_of(v),
        seq_sum(ts.push(v).map_values(|t: TaskInfo| t.total as int)) == seq_sum(
            ts.map_values(|t: TaskInfo| t.total as int),
        ) + v.total,
{
    let fc = |t: TaskInfo| copied_of(t);
    assert(ts.push(v).map_values(fc).drop_last() =~= ts.map_values(fc));
    assert(ts.push(v).map_values(fc).last() == copied_of(v));
    let fs = |t: TaskInfo| t.skip as int;
    assert(ts.push(v).map_values(fs).drop_last() =~= ts.map_values(fs));
    assert(ts.push(v).map_values(fs).last() == v.skip as int);
    let fe = |t: TaskInfo| t.error as int;
    assert(ts.push(v).map_values(fe).drop_last() =~= ts.map_values(fe));
    assert(ts.push(v).map_values(fe).last() == v.error as int);
    let fa = |t: TaskInfo| aborted_of(t);
    assert(ts.push(v).map_values(fa).drop_last() =~= ts.map_values(fa));
    assert(ts.push(v).map_values(fa).last() == aborted_of(v));
    let ft = |t: TaskInfo| t.total as int;
    assert(ts.push(v).map_values(ft).drop_last() =~= ts.map_values(ft));
    assert(ts.push(v).map_values(ft).last() == v.total as int);
}

/// The counters accumulated from any prefix of a well-formed batch stay
/// within the batch's summed totals.
proof fn lemma_sum_counts_bound(responses: Seq<TaskInfo>, i: int)
    requires
        0 <= i <= responses.len(),
        forall|j: int| 0 <= j < responses.len() ==> (#[trigger] responses[j]).wf(),
    ensures
        0 <= seq_sum(done_tasks(responses.take(i)).map_values(|t: TaskInfo| copied_of(t))),
        0 <= seq_sum(done_tasks(responses.take(i)).map_values(|t: TaskInfo| t.skip as int)),
        0 <= seq_sum(done_tasks(responses.take(i)).map_values(|t: TaskInfo| t.error as int)),
        0 <= seq_sum(done_tasks(responses.take(i)).map_values(|t: TaskInfo| aborted_of(t))),
        seq_sum(done_tasks(responses.take(i)).map_values(|t: TaskInfo| copied_of(t))) + seq_sum(
            done_tasks(responses.take(i)).map_values(|t: TaskInfo| t.skip as int),
        ) + seq_sum(done_tasks(responses.take(i)).map_values(|t: TaskInfo| t.error as int))
            + seq_sum(done_tasks(responses.take(i)).map_values(|t: TaskInfo| aborted_of(t)))
            <= sum_totals(done_tasks(responses.take(i))),
        sum_totals(done_tasks(responses.take(i))) <= sum_totals(responses.take(i)),
        sum_totals(responses.take(i)) <= sum_totals(responses),
    decreases i,
{
    reveal(Seq::filter);
    if i == 0 {
        assert(responses.take(0) =~= Seq::<TaskInfo>::empty());
        assert(done_tasks(responses.take(0)) =~= Seq::<TaskInfo>::empty());
        assert(done_tasks(responses.take(0)).map_values(|t: TaskInfo| copied_of(t)) =~= Seq::<
            int,
        >::empty());
        assert(done_tasks(responses.take(0)).map_values(|t: TaskInfo| t.skip as int) =~= Seq::<
            int,
        >::empty());
        assert(done_tasks(responses.take(0)).map_values(|t: TaskInfo| t.error as int) =~= Seq::<
            int,
        >::empty());
        assert(done_tasks(responses.take(0)).map_values(|t: TaskInfo| aborted_of(t)) =~= Seq::<
            int,
        >::empty());
        assert(done_tasks(responses.take(0)).map_values(|t: TaskInfo| t.total as int) =~= Seq::<
            int,
        >::empty());
        assert(responses.take(0).map_values(|t: TaskInfo| t.total as int) =~= Seq::<int>::empty());
        lemma_totals_whole_bound(responses, 0);
    } else {
        lemma_sum_counts_bound(responses, i - 1);
        lemma_step_views(responses, i - 1);
        assert(responses.take(i) =~= responses.take(i - 1).push(responses[i - 1]));
        lemma_sum_push(responses.take(i - 1), responses[i - 1]);
        if !spec_is_pending(responses[i - 1].status@) {
            assert(responses[i - 1].wf());
            lemma_sum_push(done_tasks(responses.take(i - 1)), responses[i - 1]);
        }
        lemma_totals_whole_bound(responses, i);
    }
}

/// Extending a prefix never shrinks its summed totals.
proof fn lemma_totals_whole_bound(responses: Seq<TaskInfo>, i: int)
    requires
        0 <= i <= responses.len(),
    ensures
        sum_totals(responses.take(i)) <= sum_totals(responses),
    decreases responses.len() - i,
{
    if i < responses.len() {
        lemma_totals_whole_bound(responses, i + 1);
        assert(responses.take(i + 1) =~= responses.take(i).push(responses[i]));
        lemma_sum_push(responses.take(i), responses[i]);
    } else {
        assert(responses.take(i) =~= responses);
    }
}

/// An all-terminal batch leaves nothing pending.
proof fn lemma_all_terminal_pending_empty(responses: Seq<TaskInfo>)
    requires
        forall|j: int|
            0 <= j < responses.len() ==> !spec_is_pending((#[trigger] responses[j]).status@),
    ensures
        pending_ids(responses).len() == 0,
    decreases responses.len(),
{
    reveal(Seq::filter);
    if responses.len() > 0 {
        lemma_all_terminal_pending_empty(responses.drop_last());
        assert(forall|j: int|
            0 <= j < responses.drop_last().len() ==> responses.drop_last()[j] == responses[j]);
    }
}

/// The poll's accounting across one batch: every finished task without
/// skipped or failed items contributes its total exactly once, so the four
/// counters a step adds sum to the finished tasks' totals.
pub proof fn lemma_poll_accounts_for_totals(responses: Seq<TaskInfo>)
    requires
        forall|j: int| 0 <= j < responses.len() ==> (#[trigger] responses[j]).wf(),
        forall|j: int|
            0 <= j < responses.len() && !spec_is_pending((#[trigger] responses[j]).status@)
                ==> responses[j].skip == 0 && responses[j].error == 0,
    ensures
        seq_sum(done_tasks(responses).map_values(|t: TaskInfo| copied_of(t))) + seq_sum(
            done_tasks(responses).map_values(|t: TaskInfo| t.skip as int),
        ) + seq_sum(done_tasks(responses).map_values(|t: TaskInfo| t.error as int)) + seq_sum(
            done_tasks(responses).map_values(|t: TaskInfo| aborted_of(t)),
        ) == sum_totals(done_tasks(responses)),
{
    lemma_clean_counts_exact(responses, responses.len() as int);
    assert(responses.take(responses.len() as int) =~= responses);
}

proof fn lemma_clean_counts_exact(responses: Seq<TaskInfo>, i: int)
    requires
        0 <= i <= responses.len(),
        forall|j: int| 0 <= j < responses.len() ==> (#[trigger] responses[j]).wf(),
        forall|j: int|
            0 <= j < responses.len() && !spec_is_pending((#[trigger] responses[j]).status@)
                ==> responses[j].skip == 0 && responses[j].error == 0,
    ensures
        seq_sum(done_tasks(responses.take(i)).map_values(|t: TaskInfo| copied_of(t))) + seq_sum(
            done_tasks(responses.take(i)).map_values(|t: TaskInfo| t.skip as int),
        ) + seq_sum(done_tasks(responses.take(i)).map_values(|t: TaskInfo| t.error as int))
            + seq_sum(done_tasks(responses.take(i)).map_values(|t: TaskInfo| aborted_of(t)))
            == sum_totals(done_tasks(responses.take(i))),
    decreases i,
{
    reveal(Seq::filter);
    if i == 0 {
        assert(responses.take(0) =~= Seq::<TaskInfo>::empty());
        assert(done_tasks(responses.take(0)) =~= Seq::<TaskInfo>::empty());
        assert(done_tasks(responses.take(0)).map_values(|t: TaskInfo| copied_of(t)) =~= Seq::<
            int,
        >::empty());
        assert(done_tasks(responses.take(0)).map_values(|t: TaskInfo| t.skip as int) =~= Seq::<
            int,
        >::empty());
        assert(done_tasks(responses.take(0)).map_values(|t: TaskInfo| t.error as int) =~= Seq::<
            int,
        >::empty());
        assert(done_tasks(responses.take(0)).map_values(|t: TaskInfo| aborted_of(t)) =~= Seq::<
            int,
        >::empty());
        assert(done_tasks(responses.take(0)).map_values(|t: TaskInfo| t.total as int) =~= Seq::<
            int,
        >::empty());
    } else {
        lemma_clean_counts_exact(responses, i - 1);
        lemma_step_views(responses, i - 1);
        if !spec_is_pending(responses[i - 1].status@) {
            lemma_sum_push(done_tasks(responses.take(i - 1)), responses[i - 1]);
            lemma_task_conservation(responses[i - 1]);
        }
    }
}

/// The summed totals of every batch of a status script.
pub open spec fn script_totals(script: Seq<Vec<TaskInfo>>) -> int
    decreases script.len(),
{
    if script.len() == 0 {
        0
    } else {
        script_totals(script.drop_last()) + sum_totals(script.last()@)
    }
}

/// Every batch of a status script reports well-formed counters.
pub open spec fn script_wf(script: Seq<Vec<TaskInfo>>) -> bool {
    forall|k: int, j: int|
        0 <= k < script.len() && 0 <= j < script[k]@.len() ==> (#[trigger] script[k]@[j]).wf()
}

proof fn lemma_sum_totals_nonneg(ts: Seq<TaskInfo>)
    ensures
        sum_totals(ts) >= 0,
    decreases ts.len(),
{
    if ts.len() > 0 {
        lemma_sum_totals_nonneg(ts.drop_last());
        assert(ts.map_values(|t: TaskInfo| t.total as int).drop_last() =~= ts.drop_last()
            .map_values(|t: TaskInfo| t.total as int));
        assert(ts.map_values(|t: TaskInfo| t.total as int).last() == ts.last().total as int);
    } else {
        assert(ts.map_values(|t: TaskInfo| t.total as int) =~= Seq::<int>::empty());
    }
}

proof fn lemma_script_totals_take(script: Seq<Vec<TaskInfo>>, i: int)
    requires
        0 <= i < script.len(),
    ensures
        script_totals(script.take(i + 1)) == script_totals(script.take(i)) + sum_totals(
            script[i]@,
        ),
{
    assert(script.take(i + 1).drop_last() =~= script.take(i));
    assert(script.take(i + 1).last() == script[i]);
}

proof fn lemma_script_totals_mono(script: Seq<Vec<TaskInfo>>, i: int)
    requires
        0 <= i <= script.len(),
    ensures
        script_totals(script.take(i)) <= script_totals(script),
    decreases script.len() - i,
{
    if i < script.len() {
        lemma_script_totals_mono(script, i + 1);
        lemma_script_totals_take(script, i);
        lemma_sum_totals_nonneg(script[i]@);
    } else {
        assert(script.take(i) =~= script);
    }
}

/// A poll state's mathematical content: the outstanding ids and the four
/// counters.
pub struct PollModel {
    pub outstanding: Seq<u32>,
    pub copied: int,
    pub skipped: int,
    pub failed: int,
    pub aborted: int,
}

/// The model of a poll state.
pub open spec fn poll_model(s: PollState) -> PollModel {
    PollModel {
        outstanding: s.outstanding@,
        copied: s.copied as int,
        skipped: s.skipped as int,
        failed: s.failed as int,
        aborted: s.aborted as int,
    }
}

/// The model a poll starts from.
pub open spec fn start_model(task_ids: Seq<u32>) -> PollModel {
    PollModel { outstanding: task_ids, copied: 0, skipped: 0, failed: 0, aborted: 0 }
}

/// One polled batch folded into the model, exactly as a poll step accumulates
/// it: the still-pending ids replace the outstanding set and every finished
/// task contributes its counters.
pub open spec fn step_model(m: PollModel, batch: Seq<TaskInfo>) -> PollModel {
    PollModel {
        outstanding: pending_ids(batch),
        copied: m.copied + seq_sum(done_tasks(batch).map_values(|t: TaskInfo| copied_of(t))),
        skipped: m.skipped + seq_sum(done_tasks(batch).map_values(|t: TaskInfo| t.skip as int)),
        failed: m.failed + seq_sum(done_tasks(batch).map_values(|t: TaskInfo| t.error as int)),
        aborted: m.aborted + seq_sum(done_tasks(batch).map_values(|t: TaskInfo| aborted_of(t))),
    }
}

/// The whole scripted poll: batches folded in order, stopping as soon as
/// nothing is outstanding.
pub open spec fn run_model(m: PollModel, script: Seq<Vec<TaskInfo>>) -> PollModel
    decreases script.len(),
{
    if m.outstanding.len() == 0 || script.len() == 0 {
        m
    } else {
        run_model(step_model(m, script[0]@), script.drop_first())
    }
}

proof fn lemma_run_model_snoc(m: PollModel, script: Seq<Vec<TaskInfo>>, i: int)
    requires
        0 <= i < script.len(),
    ensures
        run_model(m, script.take(i + 1)) == (if run_model(m, script.take(i)).outstanding.len()
            == 0 {
            run_model(m, script.take(i))
        } else {
            step_model(run_model(m, script.take(i)), script[i]@)
        }),
    decreases i,
{
    if m.outstanding.len() == 0 {
        assert(run_model(m, script.take(i + 1)) == m);
        assert(run_model(m, script.take(i)) == m);
    } else if i == 0 {
        let one = script.take(1);
        assert(one[0] == script[0]);
        assert(one.drop_first() =~= Seq::<Vec<TaskInfo>>::empty());
        let m1 = step_model(m, script[0]@);
        assert(run_model(m1, one.drop_first()) == m1);
        assert(run_model(m, one) == run_model(m1, one.drop_first()));
        assert(script.take(0) =~= Seq::<Vec<TaskInfo>>::empty());
        assert(run_model(m, script.take(0)) == m);
    } else {
        let rest = script.drop_first();
        let m1 = step_model(m, script[0]@);
        lemma_run_model_snoc(m1, rest, i - 1);
        assert(script.take(i + 1)[0] == script[0]);
        assert(script.take(i)[0] == script[0]);
        assert(script.take(i + 1).drop_first() =~= rest.take(i));
        assert(script.take(i).drop_first() =~= rest.take(i - 1));
        assert(rest[i - 1] == script[i]);
        assert(run_model(m, script.take(i + 1)) == run_model(m1, rest.take(i)));
        assert(run_model(m, script.take(i)) == run_model(m1, rest.take(i - 1)));
    }
}

proof fn lemma_run_model_stable(m: PollModel, script: Seq<Vec<TaskInfo>>, i: int)
    requires
        0 <= i <= script.len(),
        run_model(m, script.take(i)).outstanding.len() == 0,
    ensures
        run_model(m, script) == run_model(m, script.take(i)),
    decreases script.len() - i,
{
    if i < script.len() {
        lemma_run_model_snoc(m, script, i);
        lemma_run_model_stable(m, script, i + 1);
    } else {
        assert(script.take(i) =~= script);
    }
}

/// Runs the poll loop against a fixed script of status batches, one batch per
/// round, stopping as soon as nothing is outstanding. The loop cannot run
/// forever: once some batch of the script reports every task terminal, the
/// poll ends with a settled state, returned as `Ok`; a script that runs out
/// first leaves the unfinished state behind as `Err`.
pub fn run_poll(task_ids: Vec<u32>, script: &Vec<Vec<TaskInfo>>) -> (r: Result<
    PollState,
    PollState,
>)
    requires
        script_wf(script@),
        script_totals(script@) <= u64::MAX,
    ensures
        (exists|k: int| 0 <= k < script@.len() && all_terminal(script@[k]@)) ==> r is Ok,
        r matches Ok(s) ==> s.outstanding@.len() == 0 && poll_model(s) == run_model(
            start_model(task_ids@),
            script@,
        ),
        r matches Err(s) ==> s.outstanding@.len() > 0 && poll_model(s) == run_model(
            start_model(task_ids@),
            script@,
        ),
{
    let mut state = PollState::new(task_ids);
    let ghost m0 = start_model(state.outstanding@);
    let mut i: usize = 0;
    proof {
        assert(script@.take(0) =~= Seq::<Vec<TaskInfo>>::empty());
        assert(poll_model(state) == m0);
    }
    while i < script.len()
        invariant
            script_wf(script@),
            script_totals(script@) <= u64::MAX,
            0 <= i <= script@.len(),
            state.counts_sum() <= script_totals(script@.take(i as int)),
            state.outstanding@.len() > 0 ==> forall|k: int|
                0 <= k < i ==> !all_terminal(script@[k]@),
            m0 == start_model(task_ids@),
            poll_model(state) == run_model(m0, script@.take(i as int)),
        decreases script@.len() - i,
    {
        if state.is_done() {
            proof {
                lemma_run_model_stable(m0, script@, i as int);
            }
            return Ok(state);
        }
        proof {
            let batch = script@[i as int]@;
            lemma_sum_counts_bound(batch, batch.len() as int);
            assert(batch.take(batch.len() as int) =~= batch);
            lemma_script_totals_take(script@, i as int);
            lemma_script_totals_mono(script@, i + 1);
            lemma_run_model_snoc(m0, script@, i as int);
        }
        state.poll_step(&script[i]);
        proof {
            assert(poll_model(state) == run_model(m0, script@.take(i + 1)));
        }
        i += 1;
    }
    proof {
        assert(script@.take(script@.len() as int) =~= script@);
    }
    if state.is_done() {
        Ok(state)
    } else {
        Err(state)
    }
}

/// The line announcing what the export is about to copy where.
pub fn copying_line(count: usize, album_name: &str, folder_name: &str) -> (r: String)
    ensures
        r@ == "Copying "@ + dec_chars(count as int) + " items from album '"@ + album_name@
            + "' to folder '"@ + folder_name@ + "' in Personal Space"@,
{
    let mut r = String::new();
    r.append("Copying ");
    let c = u64_to_dec(count as u64);
    r.append(c.as_str());
    r.append(" items from album '");
    r.append(album_name);
    r.append("' to folder '");
    r.append(folder_name);
    r.append("' in Personal Space");
    r
}

/// The end-of-export report line with the four aggregate counters.
pub fn export_summary_line(copied: u64, skipped: u64, failed: u64, aborted: u64) -> (r: String)
    ensures
        r@ == "Export summary: "@ + dec_chars(copied as int) + " copied, "@ + dec_chars(
            skipped as int,
        ) + " skipped, "@ + dec_chars(failed as int) + " failed, "@ + dec_chars(aborted as int)
            + " canceled"@,
{
    let mut r = String::new();
    r.append("Export summary: ");
    let c = u64_to_dec(copied);
    r.append(c.as_str());
    r.append(" copied, ");
    let s = u64_to_dec(skipped);
    r.append(s.as_str());
    r.append(" skipped, ");
    let f = u64_to_dec(failed);
    r.append(f.as_str());
    r.append(" failed, ");
    let a = u64_to_dec(aborted);
    r.append(a.as_str());
    r.append(" canceled");
    r
}

} // verus!
