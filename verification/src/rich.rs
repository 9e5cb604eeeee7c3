//! Rich page plans: receipts, failures and the scheduler of their writes.

use crate::domain::{EntityId, LocalKey, SnapshotHash};
use crate::error::{error_code, ToolError, ToolErrorCode};
use crate::text::opt_view;
use vstd::prelude::*;

verus! {

/// How far a rich page creation came.
#[derive(Clone, Copy, Debug, PartialEq, Eq, Structural)]
pub enum RichStatus {
    Complete,
    Partial,
    Indeterminate,
}

/// Why a rich page creation stopped.
#[derive(Clone, Copy, Debug, PartialEq, Eq, Structural)]
pub enum RichFailureCategory {
    Authentication,
    Validation,
    NotFound,
    Conflict,
    BoundedResult,
    Upstream,
    Indeterminate,
}

/// Receipt of one applied plan entry.
#[derive(Clone, Debug, PartialEq, Eq)]
pub struct RichApplied {
    pub index: u8,
    pub local_key: LocalKey,
    pub block_id: EntityId,
    pub snapshot_hash: SnapshotHash,
}

/// The entry at which a plan stopped.
#[derive(Clone, Debug, PartialEq, Eq)]
pub struct RichFailure {
    pub index: u8,
    pub category: RichFailureCategory,
    pub message: &'static str,
}

/// Whether an idempotency key was used before.
#[derive(Clone, Debug, PartialEq, Eq)]
pub struct IdempotencyProjection {
    pub key_reused: bool,
    pub scope: &'static str,
}

/// The scope of an idempotency key is this process.
pub fn process_scope(key_reused: bool) -> (r: IdempotencyProjection)
    ensures
        r.key_reused == key_reused,
        r.scope@ == "process"@,
{
    IdempotencyProjection { key_reused, scope: "process" }
}

/// Outcome of a rich page creation.
#[derive(Clone, Debug, PartialEq, Eq)]
pub struct RichPageCreateOutput {
    pub status: RichStatus,
    pub space_id: EntityId,
    pub object_id: EntityId,
    pub applied: Vec<RichApplied>,
    pub failed: Option<RichFailure>,
    pub not_attempted: Vec<u8>,
    pub final_snapshot_hash: Option<SnapshotHash>,
    pub idempotency: IdempotencyProjection,
}

/// Model of a stopped entry.
#[verifier::ext_equal]
pub struct FailureV {
    pub index: u8,
    pub category: RichFailureCategory,
    pub message: Seq<char>,
}

/// Model of an outcome.
#[verifier::ext_equal]
pub struct OutputV {
    pub status: RichStatus,
    pub space_id: Seq<char>,
    pub object_id: Seq<char>,
    pub applied: Seq<RichApplied>,
    pub failed: Option<FailureV>,
    pub not_attempted: Seq<u8>,
    pub final_hash: Option<Seq<char>>,
    pub key_reused: bool,
    pub scope: Seq<char>,
}

impl View for RichPageCreateOutput {
    type V = OutputV;

    open spec fn view(&self) -> OutputV {
        OutputV {
            status: self.status,
            space_id: self.space_id@,
            object_id: self.object_id@,
            applied: self.applied@,
            failed: match self.failed {
                Some(failure) => Some(
                    FailureV {
                        index: failure.index,
                        category: failure.category,
                        message: failure.message@,
                    },
                ),
                None => None,
            },
            not_attempted: self.not_attempted@,
            final_hash: opt_view(self.final_snapshot_hash),
            key_reused: self.idempotency.key_reused,
            scope: self.idempotency.scope@,
        }
    }
}

/// An entry position as it is reported; positions beyond a byte are reported as
/// its largest value.
pub open spec fn index_byte(index: int) -> u8 {
    if 0 <= index <= u8::MAX {
        index as u8
    } else {
        u8::MAX
    }
}

/// An entry position as it is reported.
pub fn rich_index(index: usize) -> (r: u8)
    ensures
        r == index_byte(index as int),
{
    if index <= u8::MAX as usize {
        index as u8
    } else {
        u8::MAX
    }
}

/// Reported positions from `from` up to `to`.
pub open spec fn index_bytes(from: int, to: int) -> Seq<u8> {
    Seq::new(
        if from < to {
            (to - from) as nat
        } else {
            0
        },
        |k: int| index_byte(from + k),
    )
}

fn rich_indices(from: usize, to: usize) -> (r: Vec<u8>)
    ensures
        r@ == index_bytes(from as int, to as int),
{
    let mut out: Vec<u8> = Vec::new();
    let mut i: usize = from;
    while i < to
        invariant
            from <= i,
            i <= to || i == from,
            out.len() == i - from,
            forall|k: int| 0 <= k < out.len() ==> (#[trigger] out@[k]) == index_byte(from + k),
        decreases to - i,
    {
        out.push(rich_index(i));
        i += 1;
    }
    assert(out@ =~= index_bytes(from as int, to as int));
    out
}

/// Category of a failure code.
pub open spec fn code_category(code: ToolErrorCode) -> RichFailureCategory {
    match code {
        ToolErrorCode::Authentication => RichFailureCategory::Authentication,
        ToolErrorCode::Validation => RichFailureCategory::Validation,
        ToolErrorCode::NotFound => RichFailureCategory::NotFound,
        ToolErrorCode::Conflict => RichFailureCategory::Conflict,
        ToolErrorCode::BoundedResult => RichFailureCategory::BoundedResult,
        ToolErrorCode::Ambiguous => RichFailureCategory::Upstream,
        ToolErrorCode::Upstream => RichFailureCategory::Upstream,
    }
}

/// Category of a failure.
pub fn tool_category(error: &ToolError) -> (r: RichFailureCategory)
    ensures
        r == code_category(error_code(*error)),
{
    match error.code() {
        ToolErrorCode::Authentication => RichFailureCategory::Authentication,
        ToolErrorCode::Validation => RichFailureCategory::Validation,
        ToolErrorCode::NotFound => RichFailureCategory::NotFound,
        ToolErrorCode::Conflict => RichFailureCategory::Conflict,
        ToolErrorCode::BoundedResult => RichFailureCategory::BoundedResult,
        ToolErrorCode::Ambiguous | ToolErrorCode::Upstream => RichFailureCategory::Upstream,
    }
}

/// Category of a service failure: an ambiguous one has none of its own.
pub fn rich_category(error: Option<ToolError>) -> (r: RichFailureCategory)
    ensures
        r == (match error {
            Some(error) => code_category(error_code(error)),
            None => RichFailureCategory::Upstream,
        }),
{
    match error {
        Some(error) => tool_category(&error),
        None => RichFailureCategory::Upstream,
    }
}

/// Outcome of a plan that stopped before the write of entry `index`.
pub open spec fn local_failure(
    space_id: Seq<char>,
    object_id: Seq<char>,
    index: int,
    total: int,
    applied: Seq<RichApplied>,
    category: RichFailureCategory,
    final_hash: Option<Seq<char>>,
) -> OutputV {
    OutputV {
        status: RichStatus::Partial,
        space_id,
        object_id,
        applied,
        failed: Some(
            FailureV {
                index: index_byte(index),
                category,
                message:
                    "The page was created, but the rich block plan stopped before this write."@,
            },
        ),
        not_attempted: index_bytes(index, total),
        final_hash,
        key_reused: false,
        scope: "process"@,
    }
}

/// Outcome of a plan whose write of entry `index` may have applied.
pub open spec fn postwrite_failure(
    space_id: Seq<char>,
    object_id: Seq<char>,
    index: int,
    total: int,
    applied: Seq<RichApplied>,
    final_hash: Option<Seq<char>>,
) -> OutputV {
    OutputV {
        status: RichStatus::Indeterminate,
        space_id,
        object_id,
        applied,
        failed: Some(
            FailureV {
                index: index_byte(index),
                category: RichFailureCategory::Indeterminate,
                message:
                    "A block write may have applied. Reread the page before any further mutation."@,
            },
        ),
        not_attempted: index_bytes(index + 1, total),
        final_hash,
        key_reused: false,
        scope: "process"@,
    }
}

/// Outcome of a plan whose write of entry `index` was rejected for good.
pub open spec fn attempted_rejection(
    space_id: Seq<char>,
    object_id: Seq<char>,
    index: int,
    total: int,
    applied: Seq<RichApplied>,
    category: RichFailureCategory,
    final_hash: Option<Seq<char>>,
) -> OutputV {
    OutputV {
        status: RichStatus::Partial,
        space_id,
        object_id,
        applied,
        failed: Some(
            FailureV {
                index: index_byte(index),
                category,
                message: "The page was created, but Anytype rejected this block write."@,
            },
        ),
        not_attempted: index_bytes(index + 1, total),
        final_hash,
        key_reused: false,
        scope: "process"@,
    }
}

/// Outcome of a plan that was written in full but read back changed from entry
/// `prefix` on.
pub open spec fn final_drift(
    space_id: Seq<char>,
    object_id: Seq<char>,
    prefix: int,
    applied: Seq<RichApplied>,
    final_hash: Seq<char>,
) -> OutputV {
    OutputV {
        status: RichStatus::Partial,
        space_id,
        object_id,
        applied: applied.subrange(
            0,
            if prefix < applied.len() {
                prefix
            } else {
                applied.len() as int
            },
        ),
        failed: Some(
            FailureV {
                index: index_byte(prefix),
                category: RichFailureCategory::Conflict,
                message:
                    "The final body reread detected concurrent drift in the authored block prefix."@,
            },
        ),
        not_attempted: Seq::empty(),
        final_hash: Some(final_hash),
        key_reused: false,
        scope: "process"@,
    }
}

/// Outcome of a page that was found again after an interrupted creation; its
/// plan is not resumed.
pub open spec fn recovered_failure(
    space_id: Seq<char>,
    object_id: Seq<char>,
    total: int,
    final_hash: Option<Seq<char>>,
    category: RichFailureCategory,
) -> OutputV {
    OutputV {
        status: RichStatus::Partial,
        space_id,
        object_id,
        applied: Seq::empty(),
        failed: Some(
            FailureV {
                index: 0,
                category,
                message: if final_hash is Some {
                    "created page recovered; block plan was not resumed"@
                } else {
                    "The page was created, but the rich block plan stopped before this write."@
                },
            },
        ),
        not_attempted: index_bytes(0, total),
        final_hash,
        key_reused: true,
        scope: "process"@,
    }
}

/// Outcome of a plan that was written and read back in full.
pub open spec fn completed(
    space_id: Seq<char>,
    object_id: Seq<char>,
    applied: Seq<RichApplied>,
    final_hash: Seq<char>,
) -> OutputV {
    OutputV {
        status: RichStatus::Complete,
        space_id,
        object_id,
        applied,
        failed: None,
        not_attempted: Seq::empty(),
        final_hash: Some(final_hash),
        key_reused: false,
        scope: "process"@,
    }
}

/// Builds the outcome of a plan that stopped before a write.
pub fn rich_local_failure(
    space_id: &EntityId,
    object_id: &EntityId,
    index: usize,
    total: usize,
    applied: Vec<RichApplied>,
    category: RichFailureCategory,
    final_snapshot_hash: Option<SnapshotHash>,
) -> (r: RichPageCreateOutput)
    ensures
        r@ == local_failure(
            space_id@,
            object_id@,
            index as int,
            total as int,
            applied@,
            category,
            opt_view(final_snapshot_hash),
        ),
{
    RichPageCreateOutput {
        status: RichStatus::Partial,
        space_id: space_id.clone(),
        object_id: object_id.clone(),
        applied,
        failed: Some(
            RichFailure {
                index: rich_index(index),
                category,
                message: "The page was created, but the rich block plan stopped before this write.",
            },
        ),
        not_attempted: rich_indices(index, total),
        final_snapshot_hash,
        idempotency: process_scope(false),
    }
}

/// Builds the outcome of a plan whose body could not be read before any write.
pub fn rich_prewrite_failure(
    space_id: &EntityId,
    object_id: &EntityId,
    total: usize,
    error: Option<ToolError>,
) -> (r: RichPageCreateOutput)
    ensures
        r@ == local_failure(
            space_id@,
            object_id@,
            0,
            total as int,
            Seq::empty(),
            match error {
                Some(error) => code_category(error_code(error)),
                None => RichFailureCategory::Upstream,
            },
            None,
        ),
{
    let applied: Vec<RichApplied> = Vec::new();
    rich_local_failure(space_id, object_id, 0, total, applied, rich_category(error), None)
}

/// Builds the outcome of a page that was found again.
pub fn rich_recovered_failure(
    space_id: &EntityId,
    object_id: &EntityId,
    total: usize,
    final_snapshot_hash: Option<SnapshotHash>,
    category: RichFailureCategory,
) -> (r: RichPageCreateOutput)
    ensures
        r@ == recovered_failure(
            space_id@,
            object_id@,
            total as int,
            opt_view(final_snapshot_hash),
            category,
        ),
{
    let recovered: bool = final_snapshot_hash.is_some();
    RichPageCreateOutput {
        status: RichStatus::Partial,
        space_id: space_id.clone(),
        object_id: object_id.clone(),
        applied: Vec::new(),
        failed: Some(
            RichFailure {
                index: 0,
                category,
                message: if recovered {
                    "created page recovered; block plan was not resumed"
                } else {
                    "The page was created, but the rich block plan stopped before this write."
                },
            },
        ),
        not_attempted: rich_indices(0, total),
        final_snapshot_hash,
        idempotency: process_scope(true),
    }
}

/// Builds the outcome of a plan whose last write may have applied.
pub fn rich_postwrite_failure(
    space_id: &EntityId,
    object_id: &EntityId,
    index: usize,
    total: usize,
    applied: Vec<RichApplied>,
    final_snapshot_hash: Option<SnapshotHash>,
) -> (r: RichPageCreateOutput)
    ensures
        r@ == postwrite_failure(
            space_id@,
            object_id@,
            index as int,
            total as int,
            applied@,
            opt_view(final_snapshot_hash),
        ),
{
    let next: usize = if index < usize::MAX {
        index + 1
    } else {
        index
    };
    let not_attempted: Vec<u8> = rich_indices(next, total);
    assert(index_bytes(next as int, total as int) =~= index_bytes(index + 1, total as int));
    RichPageCreateOutput {
        status: RichStatus::Indeterminate,
        space_id: space_id.clone(),
        object_id: object_id.clone(),
        applied,
        failed: Some(
            RichFailure {
                index: rich_index(index),
                category: RichFailureCategory::Indeterminate,
                message:
                    "A block write may have applied. Reread the page before any further mutation.",
            },
        ),
        not_attempted,
        final_snapshot_hash,
        idempotency: process_scope(false),
    }
}

/// Builds the outcome of a plan whose last write was rejected for good.
pub fn rich_attempted_rejection(
    space_id: &EntityId,
    object_id: &EntityId,
    index: usize,
    total: usize,
    applied: Vec<RichApplied>,
    category: RichFailureCategory,
    final_snapshot_hash: Option<SnapshotHash>,
) -> (r: RichPageCreateOutput)
    ensures
        r@ == attempted_rejection(
            space_id@,
            object_id@,
            index as int,
            total as int,
            applied@,
            category,
            opt_view(final_snapshot_hash),
        ),
{
    let next: usize = if index < usize::MAX {
        index + 1
    } else {
        index
    };
    let not_attempted: Vec<u8> = rich_indices(next, total);
    assert(index_bytes(next as int, total as int) =~= index_bytes(index + 1, total as int));
    RichPageCreateOutput {
        status: RichStatus::Partial,
        space_id: space_id.clone(),
        object_id: object_id.clone(),
        applied,
        failed: Some(
            RichFailure {
                index: rich_index(index),
                category,
                message: "The page was created, but Anytype rejected this block write.",
            },
        ),
        not_attempted,
        final_snapshot_hash,
        idempotency: process_scope(false),
    }
}

/// Builds the outcome of a plan that read back changed.
pub fn rich_final_drift_failure(
    space_id: &EntityId,
    object_id: &EntityId,
    verified_prefix: usize,
    applied: Vec<RichApplied>,
    final_snapshot_hash: SnapshotHash,
) -> (r: RichPageCreateOutput)
    ensures
        r@ == final_drift(
            space_id@,
            object_id@,
            verified_prefix as int,
            applied@,
            final_snapshot_hash@,
        ),
{
    let mut kept: Vec<RichApplied> = applied;
    kept.truncate(verified_prefix);
    RichPageCreateOutput {
        status: RichStatus::Partial,
        space_id: space_id.clone(),
        object_id: object_id.clone(),
        applied: kept,
        failed: Some(
            RichFailure {
                index: rich_index(verified_prefix),
                category: RichFailureCategory::Conflict,
                message:
                    "The final body reread detected concurrent drift in the authored block prefix.",
            },
        ),
        not_attempted: Vec::new(),
        final_snapshot_hash: Some(final_snapshot_hash),
        idempotency: process_scope(false),
    }
}

/// What stopped a write.
#[derive(Clone, Copy, Debug, PartialEq, Eq, Structural)]
pub enum RichWriteStop {
    Cancelled,
    Rejected { category: RichFailureCategory, definitive: bool },
}

/// Outcome of a stopped write: once the write was started, only a definitive
/// rejection says that it did not apply.
pub open spec fn stopped_write(
    space_id: Seq<char>,
    object_id: Seq<char>,
    index: int,
    total: int,
    applied: Seq<RichApplied>,
    write_polled: bool,
    stop: RichWriteStop,
    final_hash: Option<Seq<char>>,
) -> OutputV {
    match stop {
        RichWriteStop::Cancelled => if write_polled {
            postwrite_failure(space_id, object_id, index, total, applied, final_hash)
        } else {
            local_failure(
                space_id,
                object_id,
                index,
                total,
                applied,
                RichFailureCategory::Upstream,
                final_hash,
            )
        },
        RichWriteStop::Rejected { category, definitive } => if definitive {
            attempted_rejection(space_id, object_id, index, total, applied, category, final_hash)
        } else if write_polled {
            postwrite_failure(space_id, object_id, index, total, applied, final_hash)
        } else {
            local_failure(space_id, object_id, index, total, applied, category, final_hash)
        },
    }
}

/// Builds the outcome of a stopped write.
pub fn rich_stopped_write(
    space_id: &EntityId,
    object_id: &EntityId,
    index: usize,
    total: usize,
    applied: Vec<RichApplied>,
    write_polled: bool,
    stop: RichWriteStop,
    final_snapshot_hash: Option<SnapshotHash>,
) -> (r: RichPageCreateOutput)
    ensures
        r@ == stopped_write(
            space_id@,
            object_id@,
            index as int,
            total as int,
            applied@,
            write_polled,
            stop,
            opt_view(final_snapshot_hash),
        ),
{
    match stop {
        RichWriteStop::Cancelled => if write_polled {
            rich_postwrite_failure(
                space_id,
                object_id,
                index,
                total,
                applied,
                final_snapshot_hash,
            )
        } else {
            rich_local_failure(
                space_id,
                object_id,
                index,
                total,
                applied,
                RichFailureCategory::Upstream,
                final_snapshot_hash,
            )
        },
        RichWriteStop::Rejected { category, definitive } => if definitive {
            rich_attempted_rejection(
                space_id,
                object_id,
                index,
                total,
                applied,
                category,
                final_snapshot_hash,
            )
        } else if write_polled {
            rich_postwrite_failure(
                space_id,
                object_id,
                index,
                total,
                applied,
                final_snapshot_hash,
            )
        } else {
            rich_local_failure(
                space_id,
                object_id,
                index,
                total,
                applied,
                category,
                final_snapshot_hash,
            )
        },
    }
}

/// Builds the outcome of a cancellation at a write boundary.
pub fn rich_cancelled_at_write_boundary(
    space_id: &EntityId,
    object_id: &EntityId,
    index: usize,
    total: usize,
    applied: Vec<RichApplied>,
    write_polled: bool,
) -> (r: RichPageCreateOutput)
    ensures
        r@ == stopped_write(
            space_id@,
            object_id@,
            index as int,
            total as int,
            applied@,
            write_polled,
            RichWriteStop::Cancelled,
            None,
        ),
{
    rich_stopped_write(
        space_id,
        object_id,
        index,
        total,
        applied,
        write_polled,
        RichWriteStop::Cancelled,
        None,
    )
}

/// Scheduler of a plan's writes. It owns the verified prefix and closes for good
/// after the first stopped write.
#[derive(Debug)]
pub struct RichScheduler {
    total: usize,
    next_index: usize,
    applied: Vec<RichApplied>,
    terminal: bool,
}

/// Model of a scheduler.
#[verifier::ext_equal]
pub struct SchedulerV {
    pub total: int,
    pub next_index: int,
    pub applied: Seq<RichApplied>,
    pub terminal: bool,
}

impl View for RichScheduler {
    type V = SchedulerV;

    closed spec fn view(&self) -> SchedulerV {
        SchedulerV {
            total: self.total as int,
            next_index: self.next_index as int,
            applied: self.applied@,
            terminal: self.terminal,
        }
    }
}

/// The write that a scheduler authorizes next.
pub open spec fn next_write(scheduler: SchedulerV) -> Option<int> {
    if !scheduler.terminal && scheduler.next_index < scheduler.total {
        Some(scheduler.next_index)
    } else {
        None
    }
}

/// An open scheduler holds one receipt for every write so far, in plan order.
pub open spec fn scheduler_wf(scheduler: SchedulerV) -> bool {
    &&& 0 <= scheduler.next_index <= scheduler.total
    &&& !scheduler.terminal ==> {
        &&& scheduler.applied.len() == scheduler.next_index
        &&& forall|i: int|
            0 <= i < scheduler.applied.len() ==> (#[trigger] scheduler.applied[i]).index == i
    }
}

impl RichScheduler {
    /// Starts a plan of `total` writes.
    pub fn new(total: usize) -> (r: RichScheduler)
        ensures
            r@ == (SchedulerV {
                total: total as int,
                next_index: 0,
                applied: Seq::empty(),
                terminal: false,
            }),
            scheduler_wf(r@),
    {
        RichScheduler { total, next_index: 0, applied: Vec::new(), terminal: false }
    }

    /// The write that may start next.
    pub fn next_write_index(&self) -> (r: Option<usize>)
        ensures
            match r {
                Some(index) => next_write(self@) == Some(index as int),
                None => next_write(self@) is None,
            },
    {
        if !self.terminal && self.next_index < self.total {
            Some(self.next_index)
        } else {
            None
        }
    }

    /// Records the receipt of the authorized write; any other is refused.
    pub fn record_verified(&mut self, receipt: RichApplied) -> (r: bool)
        ensures
            scheduler_wf(old(self)@) ==> scheduler_wf(final(self)@),
            r == (next_write(old(self)@) == Some(receipt.index as int)),
            r ==> final(self)@ == (SchedulerV {
                next_index: old(self)@.next_index + 1,
                applied: old(self)@.applied.push(receipt),
                ..old(self)@
            }),
            !r ==> final(self)@ == old(self)@,
    {
        if self.terminal || self.next_index >= self.total || self.next_index
            != receipt.index as usize {
            return false;
        }
        self.applied.push(receipt);
        self.next_index = self.next_index + 1;
        true
    }

    /// Stops the authorized write and closes the scheduler. A scheduler that
    /// authorizes no write is left as it is.
    pub fn stop(
        &mut self,
        space_id: &EntityId,
        object_id: &EntityId,
        write_polled: bool,
        stop: RichWriteStop,
        final_snapshot_hash: Option<SnapshotHash>,
    ) -> (r: Option<RichPageCreateOutput>)
        ensures
            scheduler_wf(old(self)@) ==> scheduler_wf(final(self)@),
            match next_write(old(self)@) {
                Some(index) => {
                    &&& r matches Some(output) && output@ == stopped_write(
                        space_id@,
                        object_id@,
                        index,
                        old(self)@.total,
                        old(self)@.applied,
                        write_polled,
                        stop,
                        opt_view(final_snapshot_hash),
                    )
                    &&& final(self)@ == (SchedulerV {
                        terminal: true,
                        applied: Seq::empty(),
                        ..old(self)@
                    })
                },
                None => r is None && final(self)@ == old(self)@,
            },
    {
        if self.terminal || self.next_index >= self.total {
            return None;
        }
        let index: usize = self.next_index;
        let mut applied: Vec<RichApplied> = Vec::new();
        self.terminal = true;
        std::mem::swap(&mut self.applied, &mut applied);
        Some(
            rich_stopped_write(
                space_id,
                object_id,
                index,
                self.total,
                applied,
                write_polled,
                stop,
                final_snapshot_hash,
            ),
        )
    }

    /// All receipts, once every write is verified.
    pub fn into_applied(self) -> (r: Option<Vec<RichApplied>>)
        ensures
            match r {
                Some(applied) => !self@.terminal && self@.next_index == self@.total && applied@
                    == self@.applied,
                None => self@.terminal || self@.next_index != self@.total,
            },
    {
        if !self.terminal && self.next_index == self.total {
            Some(self.applied)
        } else {
            None
        }
    }
}

} // verus!
