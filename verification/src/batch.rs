//! Batch coordination: per-item outcomes and their aggregation.
//!
//! One download task runs per listed item; each reaches a terminal state and
//! reports one outcome. The batch never stops at the first failure: every
//! outcome is collected, and the summary counts them. Each item contributes
//! to the summary through its own outcome alone, so one item's failure
//! cannot change what the batch reports for any other.

use vstd::prelude::*;

verus! {

/// The terminal report of one item's download task: the item's id, whether
/// every member file was fetched and written, and the first error met if not.
pub struct DownloadOutcome {
    pub item_id: String,
    pub success: bool,
    pub error: Option<String>,
}

impl DownloadOutcome {
    /// An outcome is coherent when it succeeded exactly if no error is held.
    pub open spec fn wf(self) -> bool {
        self.success <==> self.error is None
    }

    /// Builds the outcome of one item from the first error its task met, if
    /// any: a success exactly when there was none.
    pub fn from_result(item_id: String, error: Option<String>) -> (outcome: DownloadOutcome)
        ensures
            outcome.wf(),
            outcome.item_id@ == item_id@,
            outcome.success == (error is None),
            outcome.error == error,
    {
        let success = match &error {
            Option::Some(_) => false,
            Option::None => true,
        };
        DownloadOutcome { item_id, success, error }
    }
}

/// Where one item's task stands: it waits, acquires its permit, then fetches
/// and writes its files, and ends succeeded or failed. The two final states
/// are terminal — there are no retries.
pub enum ItemPhase {
    Pending,
    AcquiringPermit,
    Fetching,
    Writing,
    Succeeded,
    Failed,
}

impl ItemPhase {
    /// Whether the task has reached its final state.
    pub open spec fn is_terminal(self) -> bool {
        self is Succeeded || self is Failed
    }

    /// One transition of an item's task. `ok` says whether the stage's work
    /// succeeded: a failed fetch or write ends the task failed, a completed
    /// write ends it succeeded, and a terminal state never moves again.
    pub fn step(&self, ok: bool) -> (next: ItemPhase)
        ensures
            self.is_terminal() ==> next == *self,
            *self is Pending ==> next is AcquiringPermit,
            *self is AcquiringPermit ==> next is Fetching,
            *self is Fetching ==> (if ok {
                next is Writing
            } else {
                next is Failed
            }),
            *self is Writing ==> (if ok {
                next is Succeeded
            } else {
                next is Failed
            }),
            next is Succeeded ==> (*self is Writing && ok) || *self is Succeeded,
    {
        match self {
            ItemPhase::Pending => ItemPhase::AcquiringPermit,
            ItemPhase::AcquiringPermit => ItemPhase::Fetching,
            ItemPhase::Fetching => {
                if ok {
                    ItemPhase::Writing
                } else {
                    ItemPhase::Failed
                }
            },
            ItemPhase::Writing => {
                if ok {
                    ItemPhase::Succeeded
                } else {
                    ItemPhase::Failed
                }
            },
            ItemPhase::Succeeded => ItemPhase::Succeeded,
            ItemPhase::Failed => ItemPhase::Failed,
        }
    }
}

/// What a finished batch reports: how many items ran, succeeded and failed.
/// `failed > 0` is a reported condition, not an error — the batch itself
/// completed.
pub struct BatchSummary {
    pub total: usize,
    pub succeeded: usize,
    pub failed: usize,
}

/// How many outcomes in `s` are successes.
pub open spec fn succ_count(s: Seq<DownloadOutcome>) -> nat
    decreases s.len(),
{
    if s.len() == 0 {
        0
    } else {
        succ_count(s.drop_last()) + (if s.last().success {
            1nat
        } else {
            0nat
        })
    }
}

/// At most every outcome is a success.
pub proof fn lemma_succ_count_le_len(s: Seq<DownloadOutcome>)
    ensures
        succ_count(s) <= s.len(),
    decreases s.len(),
{
    if s.len() > 0 {
        lemma_succ_count_le_len(s.drop_last());
    }
}

/// Aggregates the outcomes of one batch: `total` is the number of items,
/// `succeeded` the number of successful outcomes, `failed` the rest, so
/// `succeeded + failed == total` always.
pub fn summarize(outcomes: &Vec<DownloadOutcome>) -> (summary: BatchSummary)
    ensures
        summary.total == outcomes@.len(),
        summary.succeeded == succ_count(outcomes@),
        summary.failed == outcomes@.len() - succ_count(outcomes@),
{
    let total = outcomes.len();
    let mut succeeded: usize = 0;
    let mut i: usize = 0;
    while i < total
        invariant
            total == outcomes@.len(),
            0 <= i <= total,
            succeeded == succ_count(outcomes@.subrange(0, i as int)),
            succeeded <= i,
        decreases total - i,
    {
        proof {
            let sub = outcomes@.subrange(0, i + 1);
            assert(sub.drop_last() == outcomes@.subrange(0, i as int));
            assert(sub.last() == outcomes@[i as int]);
        }
        if outcomes[i].success {
            succeeded = succeeded + 1;
        }
        i = i + 1;
    }
    proof {
        assert(outcomes@.subrange(0, total as int) == outcomes@);
        lemma_succ_count_le_len(outcomes@);
    }
    BatchSummary { total, succeeded, failed: total - succeeded }
}

/// Success counts add over concatenation: a batch's summary is the sum of
/// its parts', each part counted from its own outcomes alone.
pub proof fn lemma_succ_count_additive(a: Seq<DownloadOutcome>, b: Seq<DownloadOutcome>)
    ensures
        succ_count(a + b) == succ_count(a) + succ_count(b),
    decreases b.len(),
{
    if b.len() == 0 {
        assert(a + b =~= a);
    } else {
        assert((a + b).drop_last() =~= a + b.drop_last());
        assert((a + b).last() == b.last());
        lemma_succ_count_additive(a, b.drop_last());
    }
}

/// One item's contribution to the summary stands alone: over any slot `i`,
/// the count of the other outcomes' successes is the whole count less item
/// `i`'s own contribution.
pub proof fn lemma_succ_count_split(s: Seq<DownloadOutcome>, i: int)
    requires
        0 <= i < s.len(),
    ensures
        succ_count(s) == succ_count(s.subrange(0, i)) + (if s[i].success {
            1nat
        } else {
            0nat
        }) + succ_count(s.subrange(i + 1, s.len() as int)),
{
    let left = s.subrange(0, i);
    let mid = seq![s[i]];
    let right = s.subrange(i + 1, s.len() as int);
    assert(s =~= left + mid + right);
    lemma_succ_count_additive(left + mid, right);
    lemma_succ_count_additive(left, mid);
    assert(succ_count(mid) == (if s[i].success {
        1nat
    } else {
        0nat
    })) by {
        assert(succ_count(Seq::<DownloadOutcome>::empty()) == 0);
        assert(mid.drop_last() =~= Seq::<DownloadOutcome>::empty());
        assert(mid.last() == s[i]);
    }
}

/// A single item's failure does not affect any other item's outcome or its
/// contribution to the summary: change one batch's outcomes in slot `i` only,
/// and the successes counted among all other slots are the same in both.
pub proof fn lemma_outcome_independence(
    a: Seq<DownloadOutcome>,
    b: Seq<DownloadOutcome>,
    i: int,
)
    requires
        a.len() == b.len(),
        0 <= i < a.len(),
        forall|j: int| 0 <= j < a.len() && j != i ==> a[j] == b[j],
    ensures
        succ_count(a) - (if a[i].success {
            1nat
        } else {
            0nat
        }) == succ_count(b) - (if b[i].success {
            1nat
        } else {
            0nat
        }),
{
    lemma_succ_count_split(a, i);
    lemma_succ_count_split(b, i);
    assert(a.subrange(0, i) =~= b.subrange(0, i));
    assert(a.subrange(i + 1, a.len() as int) =~= b.subrange(i + 1, b.len() as int));
}

} // verus!
