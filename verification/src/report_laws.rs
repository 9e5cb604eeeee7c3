//! What the report on a page with its blocks says: which steps were applied, which
//! one failed and why, and which were not attempted.

use crate::error::ToolErrorCode;
use crate::rich::{
    attempted_rejection, code_category, completed, final_drift, index_byte, index_bytes,
    local_failure, next_write, postwrite_failure, recovered_failure, scheduler_wf, stopped_write,
    OutputV, RichApplied, RichFailureCategory, RichWriteStop, SchedulerV,
};
use vstd::prelude::*;

verus! {

/// Steps are reported by their own numbers, in order and without a gap.
pub proof fn steps_are_numbered_in_order(from: int, to: int)
    requires
        0 <= from,
        to <= 256,
    ensures
        from <= to ==> index_bytes(from, to).len() == to - from,
        to <= from ==> index_bytes(from, to).len() == 0,
        forall|k: int| from <= k < to ==> #[trigger] index_bytes(from, to)[k - from] == k,
        forall|k: int| from <= k < to ==> #[trigger] index_byte(k) == k,
{
}

/// Each failure is reported under its own category; only an ambiguous name counts
/// as the service's failure. No failure of the service is reported as uncertain.
pub proof fn failures_keep_their_category(code: ToolErrorCode)
    ensures
        code_category(code) is Authentication <==> code is Authentication,
        code_category(code) is Validation <==> code is Validation,
        code_category(code) is NotFound <==> code is NotFound,
        code_category(code) is Conflict <==> code is Conflict,
        code_category(code) is BoundedResult <==> code is BoundedResult,
        code_category(code) is Upstream <==> code is Upstream || code is Ambiguous,
{
}

/// The report is about this page, by a call of its own or a repeated one.
pub open spec fn about(output: OutputV, space: Seq<char>, object: Seq<char>, reused: bool) -> bool {
    &&& output.space_id == space
    &&& output.object_id == object
    &&& output.key_reused == reused
    &&& output.scope == "process"@
}

/// The failure that a report names.
pub open spec fn failed_at(output: OutputV, index: int, category: RichFailureCategory) -> bool {
    output.failed matches Some(failure) && failure.index == index && failure.category == category
}

/// A stopped write is reported by what may have happened to it. A definitive
/// rejection was attempted and did not apply. A write that was polled and then
/// stopped otherwise is uncertain, and nothing else is. A write that was not polled
/// is the first of those that were not attempted. Either way the receipts and the
/// hash are passed on as they are.
pub proof fn stopped_writes_are_reported_by_what_they_did(
    space: Seq<char>,
    object: Seq<char>,
    index: int,
    total: int,
    applied: Seq<RichApplied>,
    polled: bool,
    stop: RichWriteStop,
    hash: Option<Seq<char>>,
)
    requires
        0 <= index < total <= 256,
    ensures
        ({
            let output = stopped_write(space, object, index, total, applied, polled, stop, hash);
            let rejected = stop matches RichWriteStop::Rejected { definitive, .. } && definitive;
            let uncertain = polled && !rejected;
            let category = if uncertain {
                RichFailureCategory::Indeterminate
            } else {
                match stop {
                    RichWriteStop::Cancelled => RichFailureCategory::Upstream,
                    RichWriteStop::Rejected { category, .. } => category,
                }
            };
            &&& about(output, space, object, false)
            &&& output.applied == applied
            &&& output.final_hash == hash
            &&& output.status is Indeterminate <==> uncertain
            &&& output.status is Partial <==> !uncertain
            &&& failed_at(output, index, category)
            &&& rejected || uncertain ==> output.not_attempted == index_bytes(index + 1, total)
            &&& !rejected && !uncertain ==> output.not_attempted == index_bytes(index, total)
        }),
{
}

/// A plan that stops before a write lists that write and all later ones as not
/// attempted, and names the given category.
pub proof fn plan_stopped_before_a_write(
    space: Seq<char>,
    object: Seq<char>,
    index: int,
    total: int,
    applied: Seq<RichApplied>,
    category: RichFailureCategory,
    hash: Option<Seq<char>>,
)
    requires
        0 <= index < 256,
    ensures
        ({
            let output = local_failure(space, object, index, total, applied, category, hash);
            &&& about(output, space, object, false)
            &&& output.status is Partial
            &&& failed_at(output, index, category)
            &&& output.applied == applied
            &&& output.not_attempted == index_bytes(index, total)
            &&& output.final_hash == hash
        }),
        ({
            let output = postwrite_failure(space, object, index, total, applied, hash);
            &&& about(output, space, object, false)
            &&& output.status is Indeterminate
            &&& failed_at(output, index, RichFailureCategory::Indeterminate)
            &&& output.applied == applied
            &&& output.not_attempted == index_bytes(index + 1, total)
            &&& output.final_hash == hash
        }),
        ({
            let output = attempted_rejection(space, object, index, total, applied, category, hash);
            &&& about(output, space, object, false)
            &&& output.status is Partial
            &&& failed_at(output, index, category)
            &&& output.applied == applied
            &&& output.not_attempted == index_bytes(index + 1, total)
            &&& output.final_hash == hash
        }),
{
}

/// A complete report names every receipt and the last hash, no failure and nothing
/// left. A drift is a conflict at the first receipt that no longer stands: the
/// receipts before it, and only those, are kept, and nothing is left to attempt.
pub proof fn finished_plans_are_complete_or_drifted(
    space: Seq<char>,
    object: Seq<char>,
    applied: Seq<RichApplied>,
    standing: int,
    hash: Seq<char>,
)
    requires
        0 <= standing <= applied.len(),
        standing < 256,
    ensures
        ({
            let output = completed(space, object, applied, hash);
            &&& about(output, space, object, false)
            &&& output.status is Complete
            &&& output.failed is None
            &&& output.applied == applied
            &&& output.not_attempted.len() == 0
            &&& output.final_hash == Some(hash)
        }),
        ({
            let output = final_drift(space, object, standing, applied, hash);
            &&& about(output, space, object, false)
            &&& output.status is Partial
            &&& failed_at(output, standing, RichFailureCategory::Conflict)
            &&& output.applied.len() == standing
            &&& forall|k: int| 0 <= k < standing ==> output.applied[k] == #[trigger] applied[k]
            &&& output.not_attempted.len() == 0
            &&& output.final_hash == Some(hash)
        }),
{
}

/// A recovered page is reported as a repeated call: no receipt, every step of the
/// plan not attempted, and the first one named as failed.
pub proof fn recovered_page_resumes_no_step(
    space: Seq<char>,
    object: Seq<char>,
    total: int,
    hash: Option<Seq<char>>,
    category: RichFailureCategory,
)
    ensures
        ({
            let output = recovered_failure(space, object, total, hash, category);
            &&& about(output, space, object, true)
            &&& output.status is Partial
            &&& failed_at(output, 0, category)
            &&& output.applied.len() == 0
            &&& output.not_attempted == index_bytes(0, total)
            &&& output.final_hash == hash
        }),
        recovered_failure(space, object, total, hash, category).failed->0.message == (match hash {
            Some(_) => "created page recovered; block plan was not resumed"@,
            None => "The page was created, but the rich block plan stopped before this write."@,
        }),
{
}

/// The next write is the first step without a receipt. There is none exactly where
/// the plan was stopped or every step has its receipt.
pub proof fn next_write_is_the_first_without_a_receipt(scheduler: SchedulerV)
    requires
        scheduler_wf(scheduler),
    ensures
        next_write(scheduler) is None <==> scheduler.terminal || scheduler.applied.len()
            == scheduler.total,
        next_write(scheduler) matches Some(index) ==> index == scheduler.applied.len() && index
            < scheduler.total && forall|k: int|
            0 <= k < index ==> (#[trigger] scheduler.applied[k]).index == k,
{
}

} // verus!
