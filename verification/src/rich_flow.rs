//! Creation of a rich page, step by step. Each step takes the reply to one
//! request to the service and gives the next step or the end, so that a page is
//! created once, entries are written once and in plan order, and nothing is
//! written after a stop.

use crate::attempts::{
    cached_result, pending_object, recovered_store, IdempotencyStore, PendingCandidate, PendingV,
};
use crate::compose::{new_block, requested_block, NewBlock};
use crate::domain::{valid_entity_id, EntityId, IdempotencyKey, SnapshotHash};
use crate::error::{error_code, ToolError};
use crate::frames::{
    encoded_input_bytes, ensure_success_bytes, MAX_BODY_INPUT_BYTES, MAX_RICH_SUCCESS_BYTES,
};
use crate::hashing::body_hash;
use crate::input::{RichPageCreateInput, RichPlanEntry};
use crate::model::{ProjectedSnapshot, SnapshotV};
use crate::projection::{
    project_snapshot, raw_find, shown_blocks, snapshot_error, BodySnapshot, RawV,
};
use crate::rich::{
    code_category, completed, final_drift, local_failure, next_write, postwrite_failure,
    process_scope, recovered_failure, rich_category, rich_final_drift_failure, rich_index,
    rich_postwrite_failure, rich_prewrite_failure, rich_recovered_failure, scheduler_wf,
    stopped_write, tool_category, OutputV, RichApplied, RichFailureCategory, RichPageCreateOutput,
    RichScheduler, RichStatus, RichWriteStop,
};
use crate::rich_plan::{
    as_slot, entry_of, find_entry, plan_accepted, standing_prefix, validate_rich_plan,
    verified_rich_prefix_len, verify_rich_applied_replay, MAX_RICH_OPS,
};
use crate::text::{opt_view, same_text, views, Same};
use vstd::prelude::*;

verus! {

/// What an idempotency store remembers of a finished creation.
#[derive(Clone, Copy, Debug, PartialEq, Eq, Structural)]
pub enum CreateDisposition {
    /// The creation was verified; its result may be replayed.
    Verified,
    /// Nothing was dispatched; the key may be used again.
    PreDispatchFailure,
    /// The creation may have applied.
    Indeterminate,
    /// The outcome is final and is not tried again.
    Terminal,
}

/// Whether a mutation was handed to the service.
#[derive(Clone, Copy, Debug, PartialEq, Eq, Structural)]
pub enum MutationStage {
    PreDispatch,
    Dispatched,
}

/// Failure that stands for a mutation that was cancelled or ran out of time:
/// once it was dispatched, it may have applied.
pub fn interrupted_mutation(stage: MutationStage) -> (r: ToolError)
    ensures
        r == (match stage {
            MutationStage::PreDispatch => ToolError::Upstream,
            MutationStage::Dispatched => ToolError::MutationIndeterminate,
        }),
{
    match stage {
        MutationStage::PreDispatch => ToolError::upstream(),
        MutationStage::Dispatched => ToolError::mutation_indeterminate(),
    }
}

/// Failure that stands for a service failure: an ambiguous one is reported as
/// the service's own.
pub open spec fn service_failure(error: Option<ToolError>) -> ToolError {
    match error {
        Some(error) => error,
        None => ToolError::Upstream,
    }
}

/// Failure that stands for a service failure.
pub fn api_error_result(error: Option<ToolError>) -> (r: ToolError)
    ensures
        r == service_failure(error),
{
    match error {
        Some(error) => error,
        None => ToolError::upstream(),
    }
}

/// Result of a rich page creation.
#[derive(Clone, Debug, PartialEq, Eq)]
pub enum RichResult {
    Output(RichPageCreateOutput),
    Failure(ToolError),
}

/// End of a rich page creation.
#[derive(Clone, Debug, PartialEq, Eq)]
pub struct RichEnd {
    pub result: RichResult,
    pub disposition: CreateDisposition,
}

/// The end is this failure with this disposition.
pub open spec fn ends_with(end: RichEnd, error: ToolError, disposition: CreateDisposition) -> bool {
    end.result == RichResult::Failure(error) && end.disposition == disposition
}

/// The end is this output with this disposition.
pub open spec fn ends_as(end: RichEnd, output: OutputV, disposition: CreateDisposition) -> bool {
    end.result matches RichResult::Output(found) && found@ == output && end.disposition
        == disposition
}

fn failed(error: ToolError, disposition: CreateDisposition) -> (r: RichEnd)
    ensures
        ends_with(r, error, disposition),
{
    RichEnd { result: RichResult::Failure(error), disposition }
}

fn ended(output: RichPageCreateOutput, disposition: CreateDisposition) -> (r: RichEnd)
    ensures
        ends_as(r, output@, disposition),
{
    RichEnd { result: RichResult::Output(output), disposition }
}

/// Holds an output against the bound of its encoding. A larger one is replaced
/// by a failure; the disposition stays.
pub fn finish_rich_result(
    output: RichPageCreateOutput,
    encoded: &Vec<u8>,
    disposition: CreateDisposition,
) -> (r: RichEnd)
    ensures
        r.disposition == disposition,
        r.result == (if encoded.len() > MAX_RICH_SUCCESS_BYTES {
            RichResult::Failure(ToolError::BoundedResult)
        } else {
            RichResult::Output(output)
        }),
{
    match ensure_success_bytes(encoded, MAX_RICH_SUCCESS_BYTES) {
        Ok(()) => RichEnd { result: RichResult::Output(output), disposition },
        Err(error) => RichEnd { result: RichResult::Failure(error), disposition },
    }
}

/// Admits a rich page creation before its key is looked up: its encoding is
/// within the input bound and its plan is accepted.
pub fn admit_rich(encoded: &Vec<u8>, input: &RichPageCreateInput) -> (r: Result<(), ToolError>)
    ensures
        r == (if encoded.len() <= MAX_BODY_INPUT_BYTES && plan_accepted(input.blocks@) {
            Ok::<(), ToolError>(())
        } else {
            Err(ToolError::Validation)
        }),
{
    if encoded_input_bytes(encoded).is_err() || validate_rich_plan(input).is_err() {
        return Err(ToolError::validation());
    }
    Ok(())
}

/// A request that passed its checks: an accepted plan in a resolved space. The
/// page type is resolved next.
#[derive(Clone, Debug)]
pub struct TypeStep {
    pub input: RichPageCreateInput,
    pub space_id: EntityId,
}

/// Starts a rich page creation.
pub fn begin_rich_create(input: RichPageCreateInput, resolved_space: &str) -> (r: Result<
    TypeStep,
    RichEnd,
>)
    ensures
        match r {
            Ok(step) => plan_accepted(input.blocks@) && valid_entity_id(resolved_space@)
                && step.input == input && step.space_id@ == resolved_space@,
            Err(end) => if plan_accepted(input.blocks@) {
                !valid_entity_id(resolved_space@) && ends_with(
                    end,
                    ToolError::Upstream,
                    CreateDisposition::PreDispatchFailure,
                )
            } else {
                ends_with(end, ToolError::Validation, CreateDisposition::PreDispatchFailure)
            },
        },
{
    if let Err(error) = validate_rich_plan(&input) {
        return Err(failed(error, CreateDisposition::PreDispatchFailure));
    }
    match EntityId::new(resolved_space) {
        Ok(space_id) => Ok(TypeStep { input, space_id }),
        Err(_) => Err(failed(ToolError::upstream(), CreateDisposition::PreDispatchFailure)),
    }
}

/// Reply to the resolution of the page type.
#[derive(Clone, Debug)]
pub enum TypeReply {
    Interrupted,
    Found { key: String, id: String },
    Failed(Option<ToolError>),
}

/// The page type is resolved; the page is created next.
#[derive(Clone, Debug)]
pub struct PageStep {
    pub input: RichPageCreateInput,
    pub space_id: EntityId,
}

impl TypeStep {
    /// Takes the reply to the resolution of the page type. Nothing was
    /// dispatched yet, so every failure leaves the key free.
    pub fn resolved(self, reply: TypeReply) -> (r: Result<PageStep, RichEnd>)
        ensures
            match r {
                Ok(step) => reply matches TypeReply::Found { key, id } && key@ == "page"@ && id@.len()
                    > 0 && step.input == self.input && step.space_id == self.space_id,
                Err(end) => ends_with(
                    end,
                    match reply {
                        TypeReply::Failed(error) => service_failure(error),
                        _ => ToolError::Upstream,
                    },
                    CreateDisposition::PreDispatchFailure,
                ) && !(reply matches TypeReply::Found { key, id } && key@ == "page"@ && id@.len()
                    > 0),
            },
    {
        match reply {
            TypeReply::Interrupted => Err(
                failed(ToolError::upstream(), CreateDisposition::PreDispatchFailure),
            ),
            TypeReply::Failed(error) => Err(
                failed(api_error_result(error), CreateDisposition::PreDispatchFailure),
            ),
            TypeReply::Found { key, id } => if same_text(key.as_str(), "page")
                && !id.as_str().is_empty() {
                Ok(PageStep { input: self.input, space_id: self.space_id })
            } else {
                Err(failed(ToolError::upstream(), CreateDisposition::PreDispatchFailure))
            },
        }
    }
}

/// Reply to the creation of the page.
#[derive(Clone, Debug)]
pub enum PageReply {
    /// Cancelled or out of time, before or after the request was dispatched.
    Interrupted(MutationStage),
    Created { id: String },
    Rejected { error: Option<ToolError>, definitive: bool },
}

/// The page was created under this identifier; it is read back next.
#[derive(Clone, Debug)]
pub struct ReadStep {
    pub input: RichPageCreateInput,
    pub space_id: EntityId,
    pub object_id: EntityId,
}

impl PageStep {
    /// Takes the reply to the creation of the page. Only a request that was not
    /// dispatched, or was rejected for good, leaves the key free.
    pub fn created(self, reply: PageReply) -> (r: Result<ReadStep, RichEnd>)
        ensures
            match reply {
                PageReply::Interrupted(MutationStage::PreDispatch) => r matches Err(end)
                    && ends_with(end, ToolError::Upstream, CreateDisposition::PreDispatchFailure),
                PageReply::Interrupted(MutationStage::Dispatched) => r matches Err(end)
                    && ends_with(end, ToolError::Conflict, CreateDisposition::Indeterminate),
                PageReply::Rejected { error, definitive } => r matches Err(end) && if definitive {
                    ends_with(
                        end,
                        service_failure(error),
                        CreateDisposition::PreDispatchFailure,
                    )
                } else {
                    ends_with(end, ToolError::Conflict, CreateDisposition::Indeterminate)
                },
                PageReply::Created { id } => if valid_entity_id(id@) {
                    r matches Ok(step) && step.input == self.input && step.space_id
                        == self.space_id && step.object_id@ == id@
                } else {
                    r matches Err(end) && ends_with(
                        end,
                        ToolError::Conflict,
                        CreateDisposition::Indeterminate,
                    )
                },
            },
    {
        match reply {
            PageReply::Interrupted(stage) => match stage {
                MutationStage::PreDispatch => Err(
                    failed(ToolError::upstream(), CreateDisposition::PreDispatchFailure),
                ),
                MutationStage::Dispatched => Err(
                    failed(ToolError::conflict(), CreateDisposition::Indeterminate),
                ),
            },
            PageReply::Rejected { error, definitive } => if definitive {
                Err(failed(api_error_result(error), CreateDisposition::PreDispatchFailure))
            } else {
                Err(failed(ToolError::conflict(), CreateDisposition::Indeterminate))
            },
            PageReply::Created { id } => match EntityId::new(id.as_str()) {
                Ok(object_id) => Ok(
                    ReadStep { input: self.input, space_id: self.space_id, object_id },
                ),
                Err(_) => Err(failed(ToolError::conflict(), CreateDisposition::Indeterminate)),
            },
        }
    }
}

/// An object as the service shows it.
#[derive(Clone, Debug, PartialEq, Eq)]
pub struct PageObject {
    pub id: String,
    pub space_id: String,
    pub name: Option<String>,
    pub type_key: Option<String>,
}

/// The object is the page of this name in this space.
pub open spec fn page_is(
    page: PageObject,
    id: Seq<char>,
    space_id: Seq<char>,
    name: Seq<char>,
) -> bool {
    &&& page.id@ == id
    &&& page.space_id@ == space_id
    &&& opt_view(page.name) == Some(name)
    &&& opt_view(page.type_key) == Some("page"@)
}

/// Tests that an object is the page of this name in this space.
pub fn page_matches(page: &PageObject, id: &str, space_id: &str, name: &str) -> (r: bool)
    ensures
        r == page_is(*page, id@, space_id@, name@),
{
    let name_ok: bool = match &page.name {
        Some(found) => same_text(found.as_str(), name),
        None => false,
    };
    let type_ok: bool = match &page.type_key {
        Some(found) => same_text(found.as_str(), "page"),
        None => false,
    };
    same_text(page.id.as_str(), id) && same_text(page.space_id.as_str(), space_id) && name_ok
        && type_ok
}

/// The page was read back; its body is fetched next.
#[derive(Clone, Debug)]
pub struct BodyStep {
    pub input: RichPageCreateInput,
    pub space_id: EntityId,
    pub object_id: EntityId,
}

impl ReadStep {
    /// Takes the page as it was read back; nothing where it could not be read.
    pub fn read(self, reply: Option<PageObject>) -> (r: Result<BodyStep, RichEnd>)
        ensures
            match r {
                Ok(step) => reply matches Some(page) && page_is(
                    page,
                    self.object_id@,
                    self.space_id@,
                    self.input.name@,
                ) && step.input == self.input && step.space_id == self.space_id && step.object_id
                    == self.object_id,
                Err(end) => ends_with(end, ToolError::Conflict, CreateDisposition::Indeterminate)
                    && !(reply matches Some(page) && page_is(
                    page,
                    self.object_id@,
                    self.space_id@,
                    self.input.name@,
                )),
            },
    {
        let matches: bool = match &reply {
            Some(page) => page_matches(
                page,
                self.object_id.as_str(),
                self.space_id.as_str(),
                self.input.name.as_str(),
            ),
            None => false,
        };
        if matches {
            Ok(
                BodyStep {
                    input: self.input,
                    space_id: self.space_id,
                    object_id: self.object_id,
                },
            )
        } else {
            Err(failed(ToolError::conflict(), CreateDisposition::Indeterminate))
        }
    }
}

/// Reply to the fetch of a body.
#[derive(Clone, Debug)]
pub enum BodyReply {
    Interrupted,
    Failed(Option<ToolError>),
    Fetched(BodySnapshot),
}

/// The body is at hand; entries are written one after another.
#[derive(Debug)]
pub struct WriteStep {
    pub input: RichPageCreateInput,
    pub space_id: EntityId,
    pub object_id: EntityId,
    /// Number of root children before the first write.
    pub root_append_baseline: u64,
    pub current: BodySnapshot,
    pub scheduler: RichScheduler,
    /// Block of every written entry, in plan order.
    pub block_ids: Vec<String>,
}

/// An open plan with one receipt and one block for every entry written so far:
/// the receipt names the entry and its block.
pub open spec fn write_step_wf(step: WriteStep) -> bool {
    &&& scheduler_wf(step.scheduler@)
    &&& !step.scheduler@.terminal
    &&& step.scheduler@.total == step.input.blocks.len()
    &&& step.block_ids.len() == step.scheduler@.next_index
    &&& forall|i: int|
        0 <= i < step.block_ids.len() ==> (#[trigger] step.block_ids@[i])@
            == step.scheduler@.applied[i].block_id@
    &&& forall|i: int|
        0 <= i < step.block_ids.len() ==> (#[trigger] step.scheduler@.applied[i]).local_key@
            == step.input.blocks@[i].local_key@
    &&& 1 <= step.input.blocks.len() <= MAX_RICH_OPS
}

/// Two steps of one creation: the same request, page and baseline.
pub open spec fn same_creation(a: WriteStep, b: WriteStep) -> bool {
    &&& a.input == b.input
    &&& a.space_id == b.space_id
    &&& a.object_id == b.object_id
    &&& a.root_append_baseline == b.root_append_baseline
}

/// Number of children of the root block, if it is listed.
pub open spec fn root_children(raw: RawV) -> Option<int> {
    match raw_find(raw.blocks, raw.root_id) {
        Some(i) => Some(raw.blocks[i].children.len() as int),
        None => None,
    }
}

impl BodyStep {
    /// Takes the body before the first write. A body that cannot be had, or has
    /// no root, ends the creation before any write.
    pub fn fetched(self, reply: BodyReply) -> (r: Result<WriteStep, RichEnd>)
        requires
            1 <= self.input.blocks.len() <= MAX_RICH_OPS,
        ensures
            match r {
                Ok(step) => {
                    &&& reply matches BodyReply::Fetched(snapshot) && step.current == snapshot
                        && root_children(snapshot@) == Some(step.root_append_baseline as int)
                    &&& write_step_wf(step)
                    &&& step.scheduler@.next_index == 0
                    &&& step.input == self.input
                    &&& step.space_id == self.space_id
                    &&& step.object_id == self.object_id
                },
                Err(end) => ends_as(
                    end,
                    local_failure(
                        self.space_id@,
                        self.object_id@,
                        0,
                        self.input.blocks.len() as int,
                        Seq::empty(),
                        match reply {
                            BodyReply::Failed(Some(error)) => code_category(error_code(error)),
                            _ => RichFailureCategory::Upstream,
                        },
                        None,
                    ),
                    CreateDisposition::Terminal,
                ) && !(reply matches BodyReply::Fetched(snapshot) && root_children(
                    snapshot@,
                ) is Some),
            },
    {
        let total: usize = self.input.blocks.len();
        match reply {
            BodyReply::Interrupted => {
                let output: RichPageCreateOutput = rich_prewrite_failure(
                    &self.space_id,
                    &self.object_id,
                    total,
                    None,
                );
                Err(ended(output, CreateDisposition::Terminal))
            },
            BodyReply::Failed(error) => {
                let output: RichPageCreateOutput = rich_prewrite_failure(
                    &self.space_id,
                    &self.object_id,
                    total,
                    error,
                );
                Err(ended(output, CreateDisposition::Terminal))
            },
            BodyReply::Fetched(snapshot) => {
                let root: usize = match snapshot.position(&snapshot.root_id) {
                    Some(root) => root,
                    None => {
                        let output: RichPageCreateOutput = rich_prewrite_failure(
                            &self.space_id,
                            &self.object_id,
                            total,
                            None,
                        );
                        return Err(ended(output, CreateDisposition::Terminal));
                    },
                };
                assert(snapshot@.blocks[root as int].children == views(
                    snapshot.blocks@[root as int].children@,
                ));
                let baseline: u64 = snapshot.blocks[root].children.len() as u64;
                Ok(
                    WriteStep {
                        input: self.input,
                        space_id: self.space_id,
                        object_id: self.object_id,
                        root_append_baseline: baseline,
                        current: snapshot,
                        scheduler: RichScheduler::new(total),
                        block_ids: Vec::new(),
                    },
                )
            },
        }
    }
}

/// A write that may be dispatched: the block of entry `index`, as the last child
/// of `target`.
#[derive(Debug)]
pub struct PendingWrite {
    pub step: WriteStep,
    pub index: usize,
    pub target: String,
    pub block: NewBlock,
}

/// A stopped write; the body is read once more for the report.
#[derive(Debug)]
pub struct StopStep {
    pub step: WriteStep,
    pub write_polled: bool,
    pub stop: RichWriteStop,
}

/// A plan that was written but whose body cannot be shown; the body is read once
/// more for the report.
#[derive(Debug)]
pub struct FinalStep {
    pub space_id: EntityId,
    pub object_id: EntityId,
    pub total: usize,
    pub applied: Vec<RichApplied>,
}

/// What follows in a plan.
#[derive(Debug)]
pub enum RichNext {
    Write(PendingWrite),
    Reread(StopStep),
    FinalReread(FinalStep),
    End(RichEnd),
}

/// Block below which the next entry goes: the root for a top entry, else the
/// block of the entry that its parent key names.
pub open spec fn write_target(step: WriteStep) -> Option<Seq<char>> {
    let k = step.scheduler@.next_index;
    match opt_view(step.input.blocks@[k].parent_key) {
        None => Some(step.current.root_id@),
        Some(parent) => match entry_of(step.input.blocks@, parent, k) {
            Some(j) => Some(step.block_ids@[j]@),
            None => None,
        },
    }
}

/// Outcome of a plan whose entries are all written, from the body as it was last
/// seen.
pub open spec fn written_outcome(
    input: RichPageCreateInput,
    space_id: Seq<char>,
    object_id: Seq<char>,
    baseline: u64,
    applied: Seq<RichApplied>,
    shown: SnapshotV,
) -> (OutputV, CreateDisposition) {
    let prefix = standing_prefix(input.blocks@, applied, shown, Some(baseline as int));
    if prefix == applied.len() {
        (completed(space_id, object_id, applied, shown.hash), CreateDisposition::Verified)
    } else {
        (
            final_drift(space_id, object_id, prefix, applied, shown.hash),
            CreateDisposition::Terminal,
        )
    }
}

/// Ends a plan whose entries are all written, from the body as it was last seen:
/// verified where every receipt still stands, else stopped at the first that
/// does not.
pub fn end_written_plan(
    input: &RichPageCreateInput,
    space_id: EntityId,
    object_id: EntityId,
    baseline: u64,
    applied: Vec<RichApplied>,
    shown: ProjectedSnapshot,
) -> (r: RichEnd)
    ensures
        ends_as(
            r,
            written_outcome(*input, space_id@, object_id@, baseline, applied@, shown@).0,
            written_outcome(*input, space_id@, object_id@, baseline, applied@, shown@).1,
        ),
{
    let prefix: usize = verified_rich_prefix_len(input, &applied, &shown, Some(baseline));
    if prefix != applied.len() {
        let output: RichPageCreateOutput = rich_final_drift_failure(
            &space_id,
            &object_id,
            prefix,
            applied,
            shown.hash,
        );
        return ended(output, CreateDisposition::Terminal);
    }
    let output = RichPageCreateOutput {
        status: RichStatus::Complete,
        space_id,
        object_id,
        applied,
        failed: None,
        not_attempted: Vec::new(),
        final_snapshot_hash: Some(shown.hash),
        idempotency: process_scope(false),
    };
    assert(output@ == completed(space_id@, object_id@, applied@, shown@.hash));
    ended(output, CreateDisposition::Verified)
}

/// A body as it is shown.
pub open spec fn shown_snapshot(raw: RawV) -> SnapshotV {
    SnapshotV {
        space_id: raw.space_id,
        object_id: raw.object_id,
        root_id: raw.root_id,
        hash: body_hash(raw.space_id, raw.object_id, raw.root_id, shown_blocks(raw)),
        items: shown_blocks(raw),
    }
}

/// What follows an open plan in which entries are left to write.
pub open spec fn open_plan_follows(step: WriteStep, interrupted: bool, next: RichNext) -> bool {
    let index = step.scheduler@.next_index;
    if interrupted {
        next matches RichNext::End(end) && ends_as(
            end,
            stopped_write(
                step.space_id@,
                step.object_id@,
                index,
                step.scheduler@.total,
                step.scheduler@.applied,
                false,
                RichWriteStop::Cancelled,
                None,
            ),
            CreateDisposition::Terminal,
        )
    } else {
        match write_target(step) {
            Some(target) => if crate::compose::block_accepted(step.input.blocks@[index].block) {
                next matches RichNext::Write(pending) && {
                    &&& pending.step == step
                    &&& pending.index == index
                    &&& pending.target@ == target
                    &&& pending.block@ == requested_block(step.input.blocks@[index].block)
                }
            } else {
                next matches RichNext::Reread(stopped) && stopped.step == step
                    && !stopped.write_polled && stopped.stop == (RichWriteStop::Rejected {
                    category: RichFailureCategory::Validation,
                    definitive: false,
                })
            },
            None => next matches RichNext::Reread(stopped) && stopped.step == step
                && !stopped.write_polled && stopped.stop == (RichWriteStop::Rejected {
                category: RichFailureCategory::Conflict,
                definitive: false,
            }),
        }
    }
}

/// What follows a plan whose entries are all written.
pub open spec fn written_plan_follows(step: WriteStep, next: RichNext) -> bool {
    let raw = step.current@;
    if snapshot_error(raw) is Some {
        next matches RichNext::FinalReread(last) && {
            &&& last.space_id == step.space_id
            &&& last.object_id == step.object_id
            &&& last.total == step.input.blocks.len()
            &&& last.applied@ == step.scheduler@.applied
        }
    } else {
        let (output, disposition) = written_outcome(
            step.input,
            step.space_id@,
            step.object_id@,
            step.root_append_baseline,
            step.scheduler@.applied,
            shown_snapshot(raw),
        );
        next matches RichNext::End(end) && ends_as(end, output, disposition)
    }
}

impl WriteStep {
    /// Decides what follows: the next write in plan order, a stop before it, or
    /// the verification of the whole plan.
    pub fn next(self, interrupted: bool) -> (r: RichNext)
        requires
            write_step_wf(self),
        ensures
            match next_write(self.scheduler@) {
                Some(_) => open_plan_follows(self, interrupted, r),
                None => written_plan_follows(self, r),
            },
    {
        let index: usize = match self.scheduler.next_write_index() {
            Some(index) => index,
            None => {
                return self.verify();
            },
        };
        if interrupted {
            return self.stopped(false, RichWriteStop::Cancelled, None);
        }
        let entry: &RichPlanEntry = &self.input.blocks[index];
        let target: Option<String> = match &entry.parent_key {
            None => Some(self.current.root_id.clone()),
            Some(parent) => match find_entry(&self.input.blocks, parent, index) {
                Some(j) => Some(self.block_ids[j].clone()),
                None => None,
            },
        };
        match target {
            None => RichNext::Reread(
                StopStep {
                    step: self,
                    write_polled: false,
                    stop: RichWriteStop::Rejected {
                        category: RichFailureCategory::Conflict,
                        definitive: false,
                    },
                },
            ),
            Some(target) => match new_block(&entry.block) {
                Ok(block) => RichNext::Write(PendingWrite { step: self, index, target, block }),
                Err(_) => RichNext::Reread(
                    StopStep {
                        step: self,
                        write_polled: false,
                        stop: RichWriteStop::Rejected {
                            category: RichFailureCategory::Validation,
                            definitive: false,
                        },
                    },
                ),
            },
        }
    }

    fn stopped(
        self,
        write_polled: bool,
        stop: RichWriteStop,
        final_hash: Option<SnapshotHash>,
    ) -> (r: RichNext)
        requires
            write_step_wf(self),
            next_write(self.scheduler@) is Some,
        ensures
            r matches RichNext::End(end) && ends_as(
                end,
                stopped_write(
                    self.space_id@,
                    self.object_id@,
                    self.scheduler@.next_index,
                    self.scheduler@.total,
                    self.scheduler@.applied,
                    write_polled,
                    stop,
                    opt_view(final_hash),
                ),
                CreateDisposition::Terminal,
            ),
    {
        let mut scheduler: RichScheduler = self.scheduler;
        match scheduler.stop(&self.space_id, &self.object_id, write_polled, stop, final_hash) {
            Some(output) => RichNext::End(ended(output, CreateDisposition::Terminal)),
            None => RichNext::End(failed(ToolError::conflict(), CreateDisposition::Terminal)),
        }
    }

    fn verify(self) -> (r: RichNext)
        requires
            write_step_wf(self),
            next_write(self.scheduler@) is None,
        ensures
            written_plan_follows(self, r),
    {
        let total: usize = self.input.blocks.len();
        let applied: Vec<RichApplied> = match self.scheduler.into_applied() {
            Some(applied) => applied,
            None => {
                return RichNext::End(failed(ToolError::conflict(), CreateDisposition::Terminal));
            },
        };
        let shown: ProjectedSnapshot = match project_snapshot(&self.current) {
            Ok(shown) => shown,
            Err(_) => {
                return RichNext::FinalReread(
                    FinalStep {
                        space_id: self.space_id,
                        object_id: self.object_id,
                        total,
                        applied,
                    },
                );
            },
        };
        assert(shown@ == shown_snapshot(self.current@));
        RichNext::End(
            end_written_plan(
                &self.input,
                self.space_id,
                self.object_id,
                self.root_append_baseline,
                applied,
                shown,
            ),
        )
    }
}

/// Reply to a dispatched write.
#[derive(Clone, Debug)]
pub enum WriteReply {
    /// Cancelled or out of time; `polled` once the write was started.
    Interrupted { polled: bool },
    Failed { error: Option<ToolError>, polled: bool, definitive: bool },
    /// The first affected block, if any, and the body afterwards.
    Applied { block_id: Option<String>, snapshot: BodySnapshot },
}

/// What follows a dispatched write.
#[derive(Debug)]
pub enum WriteNext {
    Continue(WriteStep),
    Reread(StopStep),
    End(RichEnd),
}

/// A receipt that can be recorded: a named block in a body that can be shown.
pub open spec fn usable_receipt(block_id: Option<String>, snapshot: BodySnapshot) -> bool {
    &&& opt_view(block_id) matches Some(id) && valid_entity_id(id)
    &&& snapshot_error(snapshot@) is None
}

impl PendingWrite {
    /// Takes the reply to a dispatched write. A verified write is recorded as
    /// the receipt of its entry; anything else stops the plan.
    pub fn replied(self, reply: WriteReply) -> (r: WriteNext)
        requires
            write_step_wf(self.step),
            next_write(self.step.scheduler@) == Some(self.index as int),
        ensures
            match reply {
                WriteReply::Interrupted { polled } => r matches WriteNext::End(end) && ends_as(
                    end,
                    stopped_write(
                        self.step.space_id@,
                        self.step.object_id@,
                        self.index as int,
                        self.step.scheduler@.total,
                        self.step.scheduler@.applied,
                        polled,
                        RichWriteStop::Cancelled,
                        None,
                    ),
                    CreateDisposition::Terminal,
                ),
                WriteReply::Failed { error, polled, definitive } => r matches WriteNext::Reread(
                    stopped,
                ) && stopped.step == self.step && stopped.write_polled == polled && stopped.stop
                    == (RichWriteStop::Rejected {
                    category: match error {
                        Some(error) => code_category(error_code(error)),
                        None => RichFailureCategory::Upstream,
                    },
                    definitive: polled && definitive,
                }),
                WriteReply::Applied { block_id, snapshot } => if usable_receipt(
                    block_id,
                    snapshot,
                ) {
                    r matches WriteNext::Continue(step) && {
                        &&& write_step_wf(step)
                        &&& same_creation(step, self.step)
                        &&& step.current == snapshot
                        &&& step.scheduler@.next_index == self.index + 1
                        &&& step.scheduler@.applied.drop_last() == self.step.scheduler@.applied
                        &&& step.scheduler@.applied.last().index == self.index
                        &&& step.scheduler@.applied.last().local_key@
                            == self.step.input.blocks@[self.index as int].local_key@
                        &&& Some(step.scheduler@.applied.last().block_id@) == opt_view(block_id)
                        &&& step.scheduler@.applied.last().snapshot_hash@ == shown_snapshot(
                            snapshot@,
                        ).hash
                        &&& views(step.block_ids@) == views(self.step.block_ids@).push(
                            opt_view(block_id)->0,
                        )
                    }
                } else {
                    r matches WriteNext::Reread(stopped) && stopped.step == self.step
                        && stopped.write_polled && stopped.stop == (RichWriteStop::Rejected {
                        category: RichFailureCategory::Indeterminate,
                        definitive: false,
                    })
                },
            },
    {
        let unusable = RichWriteStop::Rejected {
            category: RichFailureCategory::Indeterminate,
            definitive: false,
        };
        match reply {
            WriteReply::Interrupted { polled } => match self.step.stopped(
                polled,
                RichWriteStop::Cancelled,
                None,
            ) {
                RichNext::End(end) => WriteNext::End(end),
                _ => WriteNext::End(failed(ToolError::conflict(), CreateDisposition::Terminal)),
            },
            WriteReply::Failed { error, polled, definitive } => WriteNext::Reread(
                StopStep {
                    step: self.step,
                    write_polled: polled,
                    stop: RichWriteStop::Rejected {
                        category: rich_category(error),
                        definitive: polled && definitive,
                    },
                },
            ),
            WriteReply::Applied { block_id, snapshot } => {
                let id: String = match block_id {
                    Some(id) => id,
                    None => {
                        return WriteNext::Reread(
                            StopStep { step: self.step, write_polled: true, stop: unusable },
                        );
                    },
                };
                let shown: ProjectedSnapshot = match project_snapshot(&snapshot) {
                    Ok(shown) => shown,
                    Err(_) => {
                        return WriteNext::Reread(
                            StopStep { step: self.step, write_polled: true, stop: unusable },
                        );
                    },
                };
                let entity: EntityId = match EntityId::new(id.as_str()) {
                    Ok(entity) => entity,
                    Err(_) => {
                        return WriteNext::Reread(
                            StopStep { step: self.step, write_polled: true, stop: unusable },
                        );
                    },
                };
                let receipt = RichApplied {
                    index: rich_index(self.index),
                    local_key: self.step.input.blocks[self.index].local_key.clone(),
                    block_id: entity,
                    snapshot_hash: shown.hash,
                };
                let mut step: WriteStep = self.step;
                let ghost ids_before = step.block_ids@;
                let recorded: bool = step.scheduler.record_verified(receipt);
                step.block_ids.push(id);
                step.current = snapshot;
                assert(recorded);
                assert(step.scheduler@.applied.drop_last() =~= self.step.scheduler@.applied);
                assert(views(step.block_ids@) =~= views(ids_before).push(id@));
                WriteNext::Continue(step)
            },
        }
    }
}

impl StopStep {
    /// Takes the hash of the reread body, if it could be read, and reports the
    /// stopped write.
    pub fn reread(self, final_hash: Option<SnapshotHash>) -> (r: RichEnd)
        requires
            write_step_wf(self.step),
            next_write(self.step.scheduler@) is Some,
        ensures
            ends_as(
                r,
                stopped_write(
                    self.step.space_id@,
                    self.step.object_id@,
                    self.step.scheduler@.next_index,
                    self.step.scheduler@.total,
                    self.step.scheduler@.applied,
                    self.write_polled,
                    self.stop,
                    opt_view(final_hash),
                ),
                CreateDisposition::Terminal,
            ),
    {
        match self.step.stopped(self.write_polled, self.stop, final_hash) {
            RichNext::End(end) => end,
            _ => failed(ToolError::conflict(), CreateDisposition::Terminal),
        }
    }
}

impl FinalStep {
    /// Takes the hash of the reread body, if it could be read, and reports the
    /// last write as one that may have applied.
    pub fn reread(self, final_hash: Option<SnapshotHash>) -> (r: RichEnd)
        requires
            self.total > 0,
        ensures
            ends_as(
                r,
                postwrite_failure(
                    self.space_id@,
                    self.object_id@,
                    self.total - 1,
                    self.total as int,
                    self.applied@,
                    opt_view(final_hash),
                ),
                CreateDisposition::Terminal,
            ),
    {
        let output: RichPageCreateOutput = rich_postwrite_failure(
            &self.space_id,
            &self.object_id,
            self.total - 1,
            self.total,
            self.applied,
            final_hash,
        );
        ended(output, CreateDisposition::Terminal)
    }
}

/// Hash of a reread body, where it could be read, can be shown and is of the
/// same object.
pub fn fresh_rich_hash(
    snapshot: Option<&BodySnapshot>,
    space_id: &EntityId,
    object_id: &EntityId,
) -> (r: Option<SnapshotHash>)
    ensures
        opt_view(r) == (match snapshot {
            Some(snapshot) => if snapshot_error(snapshot@) is None && snapshot@.space_id
                == space_id@ && snapshot@.object_id == object_id@ {
                Some(shown_snapshot(snapshot@).hash)
            } else {
                None
            },
            None => None,
        }),
{
    match snapshot {
        Some(snapshot) => match project_snapshot(snapshot) {
            Ok(shown) => if shown.space_id.same(space_id) && shown.object_id.same(object_id) {
                Some(shown.hash)
            } else {
                None
            },
            Err(_) => None,
        },
        None => None,
    }
}

// ---------------------------------------------------------------------------
// Recovery and replay
// ---------------------------------------------------------------------------

/// What a store says of a key and a fingerprint.
#[derive(Clone, Copy, Debug, PartialEq, Eq, Structural)]
pub enum BeginOutcome {
    Cached,
    Indeterminate,
    Conflict,
    Full,
    Expired,
    Wait,
    Lead,
}

/// What a store says of a pending page.
#[derive(Clone, Copy, Debug, PartialEq, Eq, Structural)]
pub enum PendingLookup {
    Available,
    Exhausted,
    Absent,
}

/// What follows the lookup of a key.
#[derive(Clone, Copy, Debug, PartialEq, Eq, Structural)]
pub enum BeginAction {
    Replay,
    Recover,
    Wait,
    Lead,
    Fail(ToolError),
}

/// What follows the lookup of a block creation's key.
pub fn begin_block_create(outcome: BeginOutcome) -> (r: BeginAction)
    ensures
        r == (match outcome {
            BeginOutcome::Cached => BeginAction::Replay,
            BeginOutcome::Indeterminate => BeginAction::Fail(ToolError::MutationIndeterminate),
            BeginOutcome::Conflict => BeginAction::Fail(ToolError::Conflict),
            BeginOutcome::Full => BeginAction::Fail(ToolError::BoundedResult),
            BeginOutcome::Expired => BeginAction::Fail(ToolError::Upstream),
            BeginOutcome::Wait => BeginAction::Wait,
            BeginOutcome::Lead => BeginAction::Lead,
        }),
{
    match outcome {
        BeginOutcome::Cached => BeginAction::Replay,
        BeginOutcome::Indeterminate => BeginAction::Fail(ToolError::mutation_indeterminate()),
        BeginOutcome::Conflict => BeginAction::Fail(ToolError::conflict()),
        BeginOutcome::Full => BeginAction::Fail(ToolError::bounded_result()),
        BeginOutcome::Expired => BeginAction::Fail(ToolError::upstream()),
        BeginOutcome::Wait => BeginAction::Wait,
        BeginOutcome::Lead => BeginAction::Lead,
    }
}

/// What follows the lookup of a rich page creation's key. An indeterminate
/// creation is looked for again only where a pending page is still available.
pub open spec fn rich_action(outcome: BeginOutcome, pending: PendingLookup) -> BeginAction {
    match outcome {
        BeginOutcome::Cached => BeginAction::Replay,
        BeginOutcome::Indeterminate => if pending == PendingLookup::Available {
            BeginAction::Recover
        } else {
            BeginAction::Fail(ToolError::Conflict)
        },
        BeginOutcome::Conflict => BeginAction::Fail(ToolError::Conflict),
        BeginOutcome::Full => BeginAction::Fail(ToolError::BoundedResult),
        BeginOutcome::Expired => BeginAction::Fail(ToolError::Upstream),
        BeginOutcome::Wait => BeginAction::Wait,
        BeginOutcome::Lead => BeginAction::Lead,
    }
}

/// What follows the lookup of a rich page creation's key.
pub fn begin_rich_attempt(outcome: BeginOutcome, pending: PendingLookup) -> (r: BeginAction)
    ensures
        r == rich_action(outcome, pending),
{
    match outcome {
        BeginOutcome::Cached => BeginAction::Replay,
        BeginOutcome::Indeterminate => match pending {
            PendingLookup::Available => BeginAction::Recover,
            PendingLookup::Exhausted | PendingLookup::Absent => BeginAction::Fail(
                ToolError::conflict(),
            ),
        },
        BeginOutcome::Conflict => BeginAction::Fail(ToolError::conflict()),
        BeginOutcome::Full => BeginAction::Fail(ToolError::bounded_result()),
        BeginOutcome::Expired => BeginAction::Fail(ToolError::upstream()),
        BeginOutcome::Wait => BeginAction::Wait,
        BeginOutcome::Lead => BeginAction::Lead,
    }
}

/// Hash of a recovered page's body, or the category under which its plan is
/// reported as stopped.
pub open spec fn recovered_body(
    reply: BodyReply,
    space_id: Seq<char>,
    object_id: Seq<char>,
) -> Result<Seq<char>, RichFailureCategory> {
    match reply {
        BodyReply::Interrupted => Err(RichFailureCategory::Upstream),
        BodyReply::Failed(Some(error)) => Err(code_category(error_code(error))),
        BodyReply::Failed(None) => Err(RichFailureCategory::Upstream),
        BodyReply::Fetched(snapshot) => match snapshot_error(snapshot@) {
            Some(error) => Err(code_category(error_code(error))),
            None => if snapshot@.space_id == space_id && snapshot@.object_id == object_id {
                Ok(shown_snapshot(snapshot@).hash)
            } else {
                Err(RichFailureCategory::Conflict)
            },
        },
    }
}

/// Reads the body of a recovered page.
pub fn read_recovered_body(reply: BodyReply, space_id: &str, object_id: &str) -> (r: Result<
    SnapshotHash,
    RichFailureCategory,
>)
    ensures
        match r {
            Ok(hash) => recovered_body(reply, space_id@, object_id@) == Ok::<
                Seq<char>,
                RichFailureCategory,
            >(hash@),
            Err(category) => recovered_body(reply, space_id@, object_id@) == Err::<
                Seq<char>,
                RichFailureCategory,
            >(category),
        },
{
    match reply {
        BodyReply::Interrupted => Err(RichFailureCategory::Upstream),
        BodyReply::Failed(error) => Err(rich_category(error)),
        BodyReply::Fetched(snapshot) => match project_snapshot(&snapshot) {
            Ok(shown) => if same_text(shown.space_id.as_str(), space_id) && same_text(
                shown.object_id.as_str(),
                object_id,
            ) {
                Ok(shown.hash)
            } else {
                Err(RichFailureCategory::Conflict)
            },
            Err(error) => Err(tool_category(&error)),
        },
    }
}

/// Decides whether a pending page may be recovered: it was created in the
/// resolved space and reads back as the requested page.
pub fn admit_recovery(
    candidate_space: &str,
    candidate_object: &str,
    resolved_space: &str,
    page: Option<&PageObject>,
    name: &str,
) -> (r: Result<(), ToolError>)
    ensures
        r == (if candidate_space@ == resolved_space@ && (page matches Some(page) && page_is(
            *page,
            candidate_object@,
            candidate_space@,
            name@,
        )) {
            Ok::<(), ToolError>(())
        } else {
            Err(ToolError::Conflict)
        }),
{
    let matches: bool = match page {
        Some(page) => page_matches(page, candidate_object, candidate_space, name),
        None => false,
    };
    if same_text(candidate_space, resolved_space) && matches {
        Ok(())
    } else {
        Err(ToolError::conflict())
    }
}

/// Report of a recovered page: the hash of its body where that could be read, else
/// the category under which it could not.
pub open spec fn recovery_report(
    candidate: PendingV,
    total: int,
    body: Result<SnapshotHash, RichFailureCategory>,
) -> OutputV {
    match body {
        Ok(hash) => recovered_failure(
            candidate.space_id,
            candidate.object_id,
            total,
            Some(hash@),
            RichFailureCategory::Conflict,
        ),
        Err(category) => recovered_failure(
            candidate.space_id,
            candidate.object_id,
            total,
            None,
            category,
        ),
    }
}

/// The created page has identifiers that can be reported.
pub open spec fn reportable(candidate: PendingV) -> bool {
    valid_entity_id(candidate.space_id) && valid_entity_id(candidate.object_id)
}

/// Report of a recovered page. Its plan is never resumed.
pub fn recovered_output(
    candidate: &PendingCandidate,
    total: usize,
    body: &Result<SnapshotHash, RichFailureCategory>,
) -> (r: Result<RichPageCreateOutput, ToolError>)
    ensures
        match r {
            Ok(output) => reportable(candidate@) && output@ == recovery_report(
                candidate@,
                total as int,
                *body,
            ),
            Err(error) => error == ToolError::Conflict && !reportable(candidate@),
        },
{
    let space_id: EntityId = match EntityId::new(candidate.space_id.as_str()) {
        Ok(id) => id,
        Err(_) => {
            return Err(ToolError::conflict());
        },
    };
    let object_id: EntityId = match EntityId::new(candidate.object_id.as_str()) {
        Ok(id) => id,
        Err(_) => {
            return Err(ToolError::conflict());
        },
    };
    match body {
        Ok(hash) => Ok(
            rich_recovered_failure(
                &space_id,
                &object_id,
                total,
                Some(hash.clone()),
                RichFailureCategory::Conflict,
            ),
        ),
        Err(category) => Ok(rich_recovered_failure(&space_id, &object_id, total, None, *category)),
    }
}

/// The recovery of a page that an uncertain attempt has created.
#[derive(Debug)]
pub struct PendingRichRecovery {
    pub key: IdempotencyKey,
    pub fingerprint: [u8; 32],
    pub candidate: PendingCandidate,
    pub resolved_space: String,
}

/// The result is the report of a recovered page, or the failure that stands for a
/// report whose encoding is too large.
pub open spec fn answers_recovery(
    result: RichResult,
    candidate: PendingV,
    total: int,
    body: Result<SnapshotHash, RichFailureCategory>,
    encoded: int,
) -> bool {
    if encoded > MAX_RICH_SUCCESS_BYTES {
        result == RichResult::Failure(ToolError::BoundedResult)
    } else {
        result matches RichResult::Output(output) && output@ == recovery_report(
            candidate,
            total,
            body,
        )
    }
}

/// Completes the recovery of a created page, from its body and the encoding of
/// the report. The report is kept as the result of the attempt; a stale or
/// completed candidate is a conflict and changes nothing.
pub fn complete_pending_rich_recovery(
    store: &mut IdempotencyStore<RichResult>,
    recovery: &PendingRichRecovery,
    total: usize,
    body: &Result<SnapshotHash, RichFailureCategory>,
    encoded: &Vec<u8>,
) -> (r: RichResult)
    requires
        old(store).wf(),
    ensures
        final(store).wf(),
        if reportable(recovery.candidate@) && pending_object(
            old(store)@,
            recovery.key@,
            recovery.fingerprint@,
        ) == Some(recovery.candidate@) {
            &&& answers_recovery(r, recovery.candidate@, total as int, *body, encoded.len() as int)
            &&& cached_result(final(store)@, recovery.key@, recovery.fingerprint@) matches Some(kept)
                && answers_recovery(
                kept,
                recovery.candidate@,
                total as int,
                *body,
                encoded.len() as int,
            ) && final(store)@ == recovered_store(
                old(store)@,
                recovery.key@,
                recovery.fingerprint@,
                recovery.candidate@,
                kept,
            )
        } else {
            r == RichResult::Failure(ToolError::Conflict) && final(store)@ == old(store)@
        },
{
    let (output, kept): (RichPageCreateOutput, RichPageCreateOutput) = match (
        recovered_output(&recovery.candidate, total, body),
        recovered_output(&recovery.candidate, total, body),
    ) {
        (Ok(output), Ok(kept)) => (output, kept),
        _ => {
            return RichResult::Failure(ToolError::conflict());
        },
    };
    let result: RichResult = finish_rich_result(
        output,
        encoded,
        CreateDisposition::Terminal,
    ).result;
    let kept: RichResult = finish_rich_result(kept, encoded, CreateDisposition::Terminal).result;
    if store.complete_pending_candidate(
        &recovery.key,
        &recovery.fingerprint,
        &recovery.candidate,
        kept,
    ) {
        result
    } else {
        RichResult::Failure(ToolError::conflict())
    }
}

/// A remembered outcome still stands in a shown body: the body is the
/// remembered one where a hash was remembered, and so is every receipt.
pub open spec fn cached_stands(
    input: RichPageCreateInput,
    cached: RichPageCreateOutput,
    shown: SnapshotV,
    witness: Option<u64>,
) -> bool {
    &&& opt_view(cached.final_snapshot_hash) matches Some(hash) ==> hash == shown.hash
    &&& cached.applied.len() <= input.blocks.len()
    &&& cached.applied.len() > 0 ==> witness is Some
    &&& standing_prefix(input.blocks@, cached.applied@, shown, as_slot(witness))
        == cached.applied.len()
}

/// Decides whether a remembered outcome still stands in a shown body.
pub fn check_cached(
    input: &RichPageCreateInput,
    cached: &RichPageCreateOutput,
    shown: &ProjectedSnapshot,
    witness: Option<u64>,
) -> (r: bool)
    ensures
        r == cached_stands(*input, *cached, shown@, witness),
{
    let hash_ok: bool = match &cached.final_snapshot_hash {
        Some(hash) => same_text(hash.as_str(), shown.hash.as_str()),
        None => true,
    };
    hash_ok && verify_rich_applied_replay(input, &cached.applied, shown, witness)
}

/// A remembered outcome may be given again: the page still is the requested
/// one, its body can be shown, and the outcome still stands in it.
pub open spec fn replay_holds(
    input: RichPageCreateInput,
    space: Seq<char>,
    cached: RichPageCreateOutput,
    page: PageObject,
    raw: RawV,
    witness: Option<u64>,
) -> bool {
    &&& page_is(page, cached.object_id@, space, input.name@)
    &&& snapshot_error(raw) is None
    &&& cached_stands(input, cached, shown_snapshot(raw), witness)
}

/// Gives a remembered outcome again, marked as reused, where it still holds.
pub fn replay_rich_create(
    input: &RichPageCreateInput,
    resolved_space: &str,
    cached: RichPageCreateOutput,
    page: &PageObject,
    snapshot: &BodySnapshot,
    witness: Option<u64>,
) -> (r: Result<RichPageCreateOutput, ToolError>)
    ensures
        match r {
            Ok(output) => replay_holds(*input, resolved_space@, cached, *page, snapshot@, witness)
                && output@ == (OutputV { key_reused: true, ..cached@ }),
            Err(error) => error == ToolError::Conflict && !replay_holds(
                *input,
                resolved_space@,
                cached,
                *page,
                snapshot@,
                witness,
            ),
        },
{
    if !page_matches(page, cached.object_id.as_str(), resolved_space, input.name.as_str()) {
        return Err(ToolError::conflict());
    }
    let shown: ProjectedSnapshot = match project_snapshot(snapshot) {
        Ok(shown) => shown,
        Err(_) => {
            return Err(ToolError::conflict());
        },
    };
    assert(shown@ == shown_snapshot(snapshot@));
    if !check_cached(input, &cached, &shown, witness) {
        return Err(ToolError::conflict());
    }
    let mut output: RichPageCreateOutput = cached;
    output.idempotency.key_reused = true;
    Ok(output)
}

} // verus!
