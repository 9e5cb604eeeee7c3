//! What the steps of a page creation with blocks decide: what a retry does, what is
//! written next, and what a finished, drifted or recovered plan is answered.

use crate::attempts::PendingV;
use crate::compose::{block_accepted, requested_block};
use crate::domain::{valid_entity_id, SnapshotHash};
use crate::error::{error_code, ToolError};
use crate::frames::MAX_RICH_SUCCESS_BYTES;
use crate::input::RichPageCreateInput;
use crate::model::SnapshotV;
use crate::projection::{raw_find_facts, snapshot_error, BodySnapshot, RawV};
use crate::report_laws::{about, failed_at};
use crate::rich::{
    code_category, index_bytes, RichApplied, RichFailureCategory, RichPageCreateOutput,
    RichWriteStop,
};
use crate::rich_flow::{
    answers_recovery, open_plan_follows, page_is, recovered_body, replay_holds, rich_action,
    root_children, service_failure, shown_snapshot, usable_receipt, write_step_wf, write_target,
    written_outcome, written_plan_follows, BeginAction, BeginOutcome, BodyReply, PageObject,
    PendingLookup, RichNext, RichResult, WriteStep,
};
use crate::rich_plan::standing_prefix;
use vstd::prelude::*;

verus! {

/// A failure of the service is passed on; a failure without a kind of its own is
/// the service's.
pub proof fn service_failures_are_passed_on(error: Option<ToolError>)
    ensures
        error matches Some(known) ==> service_failure(error) == known,
        error is None ==> service_failure(error) == ToolError::Upstream,
{
}

/// A failure has the code of its own name; an uncertain mutation counts as a
/// conflict.
pub proof fn failures_have_their_code(error: ToolError)
    ensures
        error_code(error) is Authentication <==> error is Authentication,
        error_code(error) is Validation <==> error is Validation,
        error_code(error) is NotFound <==> error is NotFound,
        error_code(error) is Conflict <==> error is Conflict || error is MutationIndeterminate,
        error_code(error) is BoundedResult <==> error is BoundedResult,
        error_code(error) is Ambiguous <==> error is Ambiguous,
        error_code(error) is Upstream <==> error is Upstream,
{
}

/// A page is created exactly where its key is new, and a running creation is
/// waited for. A completed one is given again. An uncertain one is recovered where
/// its page is remembered and a recovery is left, and refused otherwise. Every
/// other key fails, each with its own failure.
pub proof fn begun_page_is_answered_once(outcome: BeginOutcome, pending: PendingLookup)
    ensures
        rich_action(outcome, pending) is Lead <==> outcome is Lead,
        rich_action(outcome, pending) is Wait <==> outcome is Wait,
        rich_action(outcome, pending) is Replay <==> outcome is Cached,
        rich_action(outcome, pending) is Recover <==> outcome is Indeterminate
            && pending is Available,
        rich_action(outcome, pending) == BeginAction::Fail(ToolError::Conflict) <==> outcome
            is Conflict || (outcome is Indeterminate && !(pending is Available)),
        rich_action(outcome, pending) == BeginAction::Fail(ToolError::BoundedResult) <==> outcome
            is Full,
        rich_action(outcome, pending) == BeginAction::Fail(ToolError::Upstream) <==> outcome
            is Expired,
{
}

/// A read page is the created one exactly where identifier, space and name are its
/// own and it is of the page type.
pub proof fn created_page_reads_back(
    page: PageObject,
    id: Seq<char>,
    space: Seq<char>,
    name: Seq<char>,
)
    ensures
        page_is(page, id, space, name) <==> page.id@ == id && page.space_id@ == space && (
        page.name matches Some(found) && found@ == name) && (page.type_key matches Some(key)
            && key@ == "page"@),
{
}

/// The first new block below the root goes behind the children that the fetched
/// root names.
pub proof fn root_children_are_those_it_names(raw: RawV)
    ensures
        root_children(raw) matches Some(n) ==> exists|i: int|
            0 <= i < raw.blocks.len() && (#[trigger] raw.blocks[i]).id == raw.root_id
                && raw.blocks[i].children.len() == n,
        root_children(raw) is None <==> forall|i: int|
            0 <= i < raw.blocks.len() ==> (#[trigger] raw.blocks[i]).id != raw.root_id,
{
    raw_find_facts(raw.blocks, raw.root_id, 0);
    if let Some(n) = root_children(raw) {
        let i = crate::projection::raw_find(raw.blocks, raw.root_id)->0;
        assert(raw.blocks[i].id == raw.root_id);
    }
}

/// An open plan writes its next entry exactly where it was not interrupted, the
/// parent of the entry was written, and the block is acceptable; it sends that
/// block below that parent. Otherwise nothing is written: an interruption ends the
/// plan with the entry and all later ones not attempted, and an unknown parent or an
/// unacceptable block stops it before the write.
pub proof fn open_plan_writes_its_next_entry(step: WriteStep, interrupted: bool, next: RichNext)
    requires
        write_step_wf(step),
        step.scheduler@.next_index < step.scheduler@.total,
        open_plan_follows(step, interrupted, next),
    ensures
        ({
            let k = step.scheduler@.next_index;
            let entry = step.input.blocks@[k];
            let known = write_target(step) is Some;
            let fits = block_accepted(entry.block);
            &&& next is Write <==> !interrupted && known && fits
            &&& next matches RichNext::Write(pending) ==> pending.index == k && pending.step == step
                && write_target(step) == Some(pending.target@) && pending.block@
                == requested_block(entry.block)
            &&& next is End <==> interrupted
            &&& next matches RichNext::End(end) ==> end.disposition is Terminal && (
            end.result matches RichResult::Output(output) && about(
                output@,
                step.space_id@,
                step.object_id@,
                false,
            ) && output@.status is Partial && failed_at(output@, k, RichFailureCategory::Upstream)
                && output@.applied == step.scheduler@.applied && output@.not_attempted
                == index_bytes(k, step.scheduler@.total) && output@.final_hash is None)
            &&& next is Reread <==> !interrupted && !(known && fits)
            &&& next matches RichNext::Reread(stopped) ==> stopped.step == step
                && !stopped.write_polled && stopped.stop == (RichWriteStop::Rejected {
                category: if known {
                    RichFailureCategory::Validation
                } else {
                    RichFailureCategory::Conflict
                },
                definitive: false,
            })
        }),
{
}

/// A written plan is complete, and kept as verified, exactly where every receipt
/// still stands in the last body. Otherwise it has drifted at the first receipt that
/// does not, and is final.
pub proof fn written_plan_is_complete_where_all_stands(
    input: RichPageCreateInput,
    space: Seq<char>,
    object: Seq<char>,
    baseline: u64,
    applied: Seq<RichApplied>,
    shown: SnapshotV,
)
    ensures
        ({
            let (output, disposition) = written_outcome(
                input,
                space,
                object,
                baseline,
                applied,
                shown,
            );
            let standing = standing_prefix(input.blocks@, applied, shown, Some(baseline as int));
            &&& about(output, space, object, false)
            &&& output.final_hash == Some(shown.hash)
            &&& output.not_attempted.len() == 0
            &&& output.status is Complete <==> standing == applied.len()
            &&& disposition is Verified <==> standing == applied.len()
            &&& disposition is Terminal <==> standing != applied.len()
            &&& output.status is Complete ==> output.applied == applied && output.failed is None
            &&& !(output.status is Complete) ==> output.status is Partial && (
            output.failed matches Some(failure) && failure.category is Conflict)
            &&& !(output.status is Complete) && 0 <= standing < applied.len() && standing < 256
                ==> failed_at(output, standing, RichFailureCategory::Conflict)
                && output.applied.len() == standing
        }),
{
}

/// A reply to a write is usable exactly where it names a block by a valid identifier
/// and its body can be shown.
pub proof fn usable_replies_name_a_block(block_id: Option<String>, snapshot: BodySnapshot)
    ensures
        usable_receipt(block_id, snapshot) <==> (block_id matches Some(id) && valid_entity_id(id@))
            && snapshot_error(snapshot@) is None,
{
}

/// A plan whose entries are all written is judged by the last body where that can
/// be shown, and by a fresh read otherwise; nothing more is written.
pub proof fn written_plan_is_judged_by_the_last_body(step: WriteStep, next: RichNext)
    requires
        written_plan_follows(step, next),
    ensures
        next is FinalReread <==> snapshot_error(step.current@) is Some,
        next is End <==> snapshot_error(step.current@) is None,
        next matches RichNext::FinalReread(last) ==> last.space_id == step.space_id
            && last.object_id == step.object_id && last.total == step.input.blocks.len()
            && last.applied@ == step.scheduler@.applied,
        next matches RichNext::End(end) ==> {
            let (output, disposition) = written_outcome(
                step.input,
                step.space_id@,
                step.object_id@,
                step.root_append_baseline,
                step.scheduler@.applied,
                shown_snapshot(step.current@),
            );
            &&& end.disposition == disposition
            &&& end.result matches RichResult::Output(found) && found@ == output
        },
{
}

/// The body of a recovered page is given by its hash exactly where it was fetched,
/// can be shown, and is of that page. Every other reply is a failure in its own
/// category.
pub proof fn recovered_bodies(reply: BodyReply, space: Seq<char>, object: Seq<char>)
    ensures
        recovered_body(reply, space, object) is Ok <==> (reply matches BodyReply::Fetched(body)
            && snapshot_error(body@) is None && body@.space_id == space && body@.object_id
            == object),
        recovered_body(reply, space, object) matches Ok(hash) ==> (reply matches
            BodyReply::Fetched(body) && hash == shown_snapshot(body@).hash),
        recovered_body(reply, space, object) matches Err(category) ==> match reply {
            BodyReply::Interrupted => category is Upstream,
            BodyReply::Failed(None) => category is Upstream,
            BodyReply::Failed(Some(error)) => category == code_category(error_code(error)),
            BodyReply::Fetched(body) => match snapshot_error(body@) {
                Some(error) => category == code_category(error_code(error)),
                None => category is Conflict,
            },
        },
{
}

/// A recovered page is answered with its own identifiers and no step resumed: as a
/// conflict with the hash of its body, or with the failure to read the body. An
/// answer that is too large is refused.
pub proof fn recovered_page_is_answered(
    result: RichResult,
    candidate: PendingV,
    total: int,
    body: Result<SnapshotHash, RichFailureCategory>,
    encoded: int,
)
    requires
        answers_recovery(result, candidate, total, body, encoded),
    ensures
        result == RichResult::Failure(ToolError::BoundedResult) <==> encoded
            > MAX_RICH_SUCCESS_BYTES,
        result is Output <==> encoded <= MAX_RICH_SUCCESS_BYTES,
        result matches RichResult::Output(output) ==> {
            &&& about(output@, candidate.space_id, candidate.object_id, true)
            &&& output@.status is Partial
            &&& output@.applied.len() == 0
            &&& output@.not_attempted == index_bytes(0, total)
            &&& body matches Ok(hash) ==> output@.final_hash == Some(hash@) && failed_at(
                output@,
                0,
                RichFailureCategory::Conflict,
            )
            &&& body matches Err(category) ==> output@.final_hash is None && failed_at(
                output@,
                0,
                category,
            )
        },
{
}

/// A kept output is given again exactly where the page is still that page, its body
/// can be shown, the body has not changed since where its hash is kept, and every
/// kept receipt still stands, with a witness of where the first one went.
pub proof fn kept_output_is_given_while_it_stands(
    input: RichPageCreateInput,
    space: Seq<char>,
    cached: RichPageCreateOutput,
    page: PageObject,
    raw: RawV,
    witness: Option<u64>,
)
    ensures
        replay_holds(input, space, cached, page, raw, witness) <==> {
            let receipts = cached.applied@;
            let slot = match witness {
                Some(slot) => Some(slot as int),
                None => None,
            };
            &&& page.id@ == cached.object_id@
            &&& page.space_id@ == space
            &&& page.name matches Some(name) && name@ == input.name@
            &&& page.type_key matches Some(key) && key@ == "page"@
            &&& snapshot_error(raw) is None
            &&& cached.final_snapshot_hash matches Some(hash) ==> hash@ == shown_snapshot(raw).hash
            &&& receipts.len() <= input.blocks@.len()
            &&& witness is None ==> receipts.len() == 0
            &&& standing_prefix(input.blocks@, receipts, shown_snapshot(raw), slot)
                == receipts.len()
        },
{
}

} // verus!
