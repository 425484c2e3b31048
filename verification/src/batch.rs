//! Partial-failure handling for batch operations: every item is attempted on
//! its own, and the response tells which ones succeeded.

use crate::models::{Channel, Frequency, ReminderPreferences};
use crate::ratio::Ratio;
use crate::text;
use vstd::prelude::*;

verus! {

/// Outcome of a single item within a batch request.
#[derive(Debug)]
pub enum BatchItemOutcome<T> {
    Success { item: T },
    Failure { error: String, retryable: bool },
}

/// Result of processing one input item, keyed by an identifier the caller
/// supplies so failures can be matched back to inputs.
#[derive(Debug)]
pub struct BatchItemResult<T> {
    pub key: String,
    pub outcome: BatchItemOutcome<T>,
}

/// Aggregate response for a batch operation with per-item error reporting.
#[derive(Debug)]
pub struct BatchResponse<T> {
    pub total: usize,
    pub succeeded: usize,
    pub failed: usize,
    /// Fraction of items that succeeded; one for an empty batch.
    pub success_rate: Ratio,
    pub items: Vec<BatchItemResult<T>>,
    /// Guidance for the caller on whether/how to retry, derived from which
    /// failures (if any) were marked retryable.
    pub retry_guidance: String,
}

/// Accumulates per-item outcomes and produces a `BatchResponse` with
/// aggregate success/failure statistics and retry guidance.
pub struct BatchTracker<T> {
    items: Vec<BatchItemResult<T>>,
}

impl<T> View for BatchTracker<T> {
    type V = Seq<BatchItemResult<T>>;

    closed spec fn view(&self) -> Seq<BatchItemResult<T>> {
        self.items@
    }
}

/// How many items succeeded.
pub open spec fn successes<T>(items: Seq<BatchItemResult<T>>) -> nat
    decreases items.len(),
{
    if items.len() == 0 {
        0
    } else {
        successes(items.drop_last()) + if items.last().outcome is Success {
            1nat
        } else {
            0nat
        }
    }
}

/// Whether an outcome is a failure that may go away by itself.
pub open spec fn retryable<T>(o: BatchItemOutcome<T>) -> bool {
    match o {
        BatchItemOutcome::Failure { retryable, .. } => retryable,
        _ => false,
    }
}

/// Whether any of the items failed in a way that may go away by itself.
pub open spec fn any_retryable<T>(items: Seq<BatchItemResult<T>>) -> bool {
    exists|i: int| 0 <= i < items.len() && retryable((#[trigger] items[i]).outcome)
}

/// What the caller is advised to do next.
pub open spec fn guidance<T>(items: Seq<BatchItemResult<T>>) -> Seq<char> {
    if successes(items) == items.len() {
        "all items succeeded; no retry needed"@
    } else if any_retryable(items) {
        "retry only the items with status=failure and retryable=true, using their key; do not resubmit successful items"@
    } else {
        "failed items are not retryable as submitted; fix the reported validation errors before resubmitting those keys"@
    }
}

impl<T> BatchTracker<T> {
    /// A tracker without outcomes.
    pub fn new() -> (r: Self)
        ensures
            r@ == Seq::<BatchItemResult<T>>::empty(),
    {
        BatchTracker { items: Vec::new() }
    }

    /// Records that the item with the given key succeeded.
    pub fn record_success(&mut self, key: String, item: T)
        ensures
            final(self)@ == old(self)@.push(
                (BatchItemResult { key, outcome: BatchItemOutcome::Success { item } }),
            ),
    {
        self.items.push(BatchItemResult { key, outcome: BatchItemOutcome::Success { item } });
    }

    /// Records that the item with the given key failed.
    pub fn record_failure(&mut self, key: String, error: String, retryable: bool)
        ensures
            final(self)@ == old(self)@.push(
                (BatchItemResult { key, outcome: BatchItemOutcome::Failure { error, retryable } }),
            ),
    {
        self.items.push(
            BatchItemResult { key, outcome: BatchItemOutcome::Failure { error, retryable } },
        );
    }

    /// The response over all recorded outcomes.
    pub fn finish(self) -> (r: BatchResponse<T>)
        ensures
            r.items@ == self@,
            r.total == self@.len(),
            r.succeeded == successes(self@),
            r.failed == self@.len() - successes(self@),
            r.success_rate == (if self@.len() == 0 {
                Ratio { num: 1, den: 1 }
            } else {
                Ratio { num: successes(self@) as u64, den: self@.len() as u64 }
            }),
            r.retry_guidance@ == guidance(self@),
    {
        let items = self.items;
        let total: usize = items.len();
        let mut succeeded: usize = 0;
        let mut any: bool = false;
        let mut i: usize = 0;
        while i < total
            invariant
                i <= total,
                total == items@.len(),
                succeeded <= i,
                succeeded == successes(items@.take(i as int)),
                any == any_retryable(items@.take(i as int)),
            decreases total - i,
        {
            let ghost seen = items@.take(i as int);
            let ghost more = items@.take(i + 1);
            proof {
                assert(more.drop_last() =~= seen);
                assert forall|j: int| 0 <= j < i implies seen[j] == #[trigger] more[j] by {}
            }
            match &items[i].outcome {
                BatchItemOutcome::Success { .. } => {
                    succeeded += 1;
                },
                BatchItemOutcome::Failure { retryable: worth, .. } => {
                    if *worth {
                        any = true;
                        assert(retryable(more[i as int].outcome));
                    }
                },
            }
            proof {
                if any_retryable(seen) {
                    let j = choose|j: int| 0 <= j < seen.len() && retryable(
                        (#[trigger] seen[j]).outcome,
                    );
                    assert(retryable(more[j].outcome));
                }
                if any_retryable(more) {
                    let j = choose|j: int| 0 <= j < more.len() && retryable(
                        (#[trigger] more[j]).outcome,
                    );
                    if j < i {
                        assert(retryable(seen[j].outcome));
                    }
                }
            }
            i += 1;
        }
        assert(items@.take(total as int) =~= items@);
        let failed: usize = total - succeeded;
        let success_rate = if total == 0 {
            Ratio { num: 1, den: 1 }
        } else {
            Ratio { num: succeeded as u64, den: total as u64 }
        };
        let retry_guidance = if failed == 0 {
            "all items succeeded; no retry needed".to_owned()
        } else if any {
            "retry only the items with status=failure and retryable=true, using their key; do not resubmit successful items".to_owned()
        } else {
            "failed items are not retryable as submitted; fix the reported validation errors before resubmitting those keys".to_owned()
        };
        BatchResponse { total, succeeded, failed, success_rate, items, retry_guidance }
    }
}

impl<T> Default for BatchTracker<T> {
    fn default() -> (r: Self)
        ensures
            r@ == Seq::<BatchItemResult<T>>::empty(),
    {
        Self::new()
    }
}

/// Preferences for one vault of a batch.
#[derive(Debug)]
pub struct BatchPreferenceItem {
    pub vault_id: u64,
    pub channels: Vec<Channel>,
    pub hours_before_expiry: u32,
    pub frequency: Frequency,
}

/// A request to set preferences for many vaults.
#[derive(Debug)]
pub struct BatchSetPreferencesRequest {
    pub items: Vec<BatchPreferenceItem>,
}

/// What is wrong with an item; `None` when nothing is.
pub open spec fn item_fault(item: BatchPreferenceItem) -> Option<Seq<char>> {
    if item.channels@.len() == 0 {
        Some("channels must not be empty"@)
    } else if item.hours_before_expiry == 0 {
        Some("hours_before_expiry must be > 0"@)
    } else {
        None
    }
}

/// The preferences that an item asks for, or what is wrong with it.
pub fn check_item(item: BatchPreferenceItem) -> (r: Result<ReminderPreferences, String>)
    ensures
        match r {
            Ok(p) => {
                &&& item_fault(item) is None
                &&& p.vault_id == item.vault_id
                &&& p.channels == item.channels
                &&& p.hours_before_expiry == item.hours_before_expiry
                &&& p.frequency == item.frequency
                &&& p.deleted_at is None
            },
            Err(e) => item_fault(item) == Some(e@),
        },
{
    if item.channels.len() == 0 {
        return Err("channels must not be empty".to_owned());
    }
    if item.hours_before_expiry == 0 {
        return Err("hours_before_expiry must be > 0".to_owned());
    }
    Ok(
        ReminderPreferences {
            vault_id: item.vault_id,
            channels: item.channels,
            hours_before_expiry: item.hours_before_expiry,
            frequency: item.frequency,
            deleted_at: None,
        },
    )
}

/// Records the outcome of one item: `checked` is what the item asks for, and
/// `stored` how the database took it. A fault of the item is final; a fault of
/// the database is transient and worth a retry.
pub fn record_preference(
    tracker: &mut BatchTracker<ReminderPreferences>,
    vault_id: u64,
    checked: Result<ReminderPreferences, String>,
    stored: Result<(), String>,
)
    ensures
        final(tracker)@.len() == old(tracker)@.len() + 1,
        final(tracker)@.drop_last() == old(tracker)@,
        final(tracker)@.last().key@ == text::decimal(vault_id as nat),
        final(tracker)@.last().outcome == (match (checked, stored) {
            (Err(error), _) => BatchItemOutcome::<ReminderPreferences>::Failure {
                error,
                retryable: false,
            },
            (Ok(item), Ok(_)) => BatchItemOutcome::Success { item },
            (Ok(_), Err(error)) => BatchItemOutcome::Failure { error, retryable: true },
        }),
{
    let key = text::decimal_text(vault_id as u128);
    match checked {
        Err(error) => {
            tracker.record_failure(key, error, false);
        },
        Ok(item) => match stored {
            Ok(_) => {
                tracker.record_success(key, item);
            },
            Err(error) => {
                tracker.record_failure(key, error, true);
            },
        },
    }
    assert(tracker@.drop_last() =~= old(tracker)@);
}

/// Successes and failures add up, and the success rate is at most one.
pub proof fn law_outcomes_add_up<T>(items: Seq<BatchItemResult<T>>)
    ensures
        successes(items) <= items.len(),
    decreases items.len(),
{
    if items.len() > 0 {
        law_outcomes_add_up(items.drop_last());
    }
}

/// Recording one more outcome leaves the outcomes of the other items alone: a
/// failure on one item does not undo the successes of others.
pub proof fn law_failure_keeps_successes<T>(
    items: Seq<BatchItemResult<T>>,
    failure: BatchItemResult<T>,
)
    requires
        failure.outcome is Failure,
    ensures
        successes(items.push(failure)) == successes(items),
{
    assert(items.push(failure).drop_last() =~= items);
}

/// A success adds one to the successes of a batch, and a failure nothing.
pub proof fn law_successes_are_counted<T>(
    items: Seq<BatchItemResult<T>>,
    item: BatchItemResult<T>,
)
    ensures
        successes(Seq::<BatchItemResult<T>>::empty()) == 0,
        item.outcome is Success ==> successes(items.push(item)) == successes(items) + 1,
        item.outcome is Failure ==> successes(items.push(item)) == successes(items),
{
    assert(items.push(item).drop_last() =~= items);
}

/// The advice on a batch: nothing to do where all succeeded, a retry where a
/// failure is worth one, and a correction where none is.
pub proof fn law_guidance_follows_the_failures<T>(items: Seq<BatchItemResult<T>>, i: int)
    requires
        0 <= i < items.len(),
        items[i].outcome is Failure,
    ensures
        items[i].outcome->retryable ==> guidance(items)
            == "retry only the items with status=failure and retryable=true, using their key; do not resubmit successful items"@,
        (forall|j: int|
            0 <= j < items.len() && (#[trigger] items[j]).outcome is Failure
                ==> !items[j].outcome->retryable) ==> guidance(items)
            == "failed items are not retryable as submitted; fix the reported validation errors before resubmitting those keys"@,
        guidance(Seq::<BatchItemResult<T>>::empty()) == "all items succeeded; no retry needed"@,
{
    lemma_failure_is_missing(items, i);
    if items[i].outcome->retryable {
        assert(retryable(items[i].outcome));
    }
}

/// A batch with a failure has fewer successes than items.
proof fn lemma_failure_is_missing<T>(items: Seq<BatchItemResult<T>>, i: int)
    requires
        0 <= i < items.len(),
        items[i].outcome is Failure,
    ensures
        successes(items) < items.len(),
    decreases items.len(),
{
    law_outcomes_add_up(items.drop_last());
    if i < items.len() - 1 {
        lemma_failure_is_missing(items.drop_last(), i);
    }
}

/// A preference needs a channel and a time before expiry; it is faulty for want
/// of either, and the channel is asked for first.
pub proof fn law_preference_needs_channel_and_time(item: BatchPreferenceItem)
    ensures
        item.channels@.len() == 0 ==> item_fault(item) == Some("channels must not be empty"@),
        item.channels@.len() > 0 && item.hours_before_expiry == 0 ==> item_fault(item) == Some(
            "hours_before_expiry must be > 0"@,
        ),
        item.channels@.len() > 0 && item.hours_before_expiry > 0 ==> item_fault(item) is None,
{
}

} // verus!
