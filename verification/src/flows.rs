//! Single-block workflows: what is checked before a write is dispatched, and
//! what is verified of the body afterwards.

use crate::change::{apply_projected_change, changed_block, intended_content};
use crate::compose::{
    block_accepted, block_change, new_block, requested_block, requested_change, BlockChange,
    NewBlock,
};
use crate::creation::{create_transition, shows_request, verify_create_transition};
use crate::domain::{valid_entity_id, EntityId, SnapshotHash};
use crate::error::ToolError;
use crate::frames::{encoded_input_bytes, MAX_BODY_INPUT_BYTES};
use crate::input::{
    presentation_background, presentation_horizontal, presentation_vertical, BlockChangeInput,
    BodyBlockCreateInput, BodyBlockDeleteInput, BodyBlockMoveInput, BodyBlockUpdateInput,
    NewBlockInput,
};
use crate::model::{BlockSummary, ProjectedSnapshot, RestrictionsProjection, SnapshotV, SummaryV};
use crate::plan::{
    beside, create_plan_error, delete_plan_error, move_plan_error, mutable_block, raw_block_mutable,
    raw_members_admit, raw_walk, refused, subtree_ids, subtree_is_mutable, validate_create_target,
    validate_delete_plan, validate_move_plan, validate_projected_create_plan,
    validate_projected_delete_plan, validate_projected_move_plan, MutationKind,
};
use crate::projection::{
    project_snapshot, raw_find, raw_find_from, shown_blocks, snapshot_error, BodyBlock,
    BodySnapshot, RawV, MAX_BODY_BLOCKS, MAX_BODY_CHILDREN, MAX_BODY_DEPTH,
};
use crate::relocation::{move_transition, verify_move_transition};
use crate::rich::{process_scope, IdempotencyProjection};
use crate::rich_flow::{shown_snapshot, CreateDisposition, MutationStage};
use crate::text::{opt_view, same_text, views, Same};
use crate::transition::{
    delete_transition, update_transition, verify_delete_transition, verify_update_transition,
};
use crate::tree::{find, find_block, find_facts, find_from};
use crate::wire::{WireHorizontalAlign, WireVerticalAlign};
use vstd::prelude::*;
use vstd::string::*;
use vstd::utf8::*;

verus! {

/// Output of an update or a move.
#[derive(Clone, Debug, PartialEq)]
pub struct BodyBlockMutationOutput {
    pub space_id: EntityId,
    pub object_id: EntityId,
    pub block: BlockSummary,
    pub snapshot_hash: SnapshotHash,
}

/// Model of the output of an update or a move.
#[verifier::ext_equal]
pub struct MutationOutputV {
    pub space_id: Seq<char>,
    pub object_id: Seq<char>,
    pub block: SummaryV,
    pub snapshot_hash: Seq<char>,
}

impl View for BodyBlockMutationOutput {
    type V = MutationOutputV;

    open spec fn view(&self) -> MutationOutputV {
        MutationOutputV {
            space_id: self.space_id@,
            object_id: self.object_id@,
            block: self.block@,
            snapshot_hash: self.snapshot_hash@,
        }
    }
}

/// Output of a creation.
#[derive(Clone, Debug, PartialEq)]
pub struct BodyBlockCreateOutput {
    pub space_id: EntityId,
    pub object_id: EntityId,
    pub block: BlockSummary,
    pub snapshot_hash: SnapshotHash,
    pub idempotency: IdempotencyProjection,
}

/// What a creation shows: the block in its body.
pub open spec fn create_output_is(
    output: BodyBlockCreateOutput,
    expected: MutationOutputV,
    key_reused: bool,
) -> bool {
    &&& output.space_id@ == expected.space_id
    &&& output.object_id@ == expected.object_id
    &&& output.block@ == expected.block
    &&& output.snapshot_hash@ == expected.snapshot_hash
    &&& output.idempotency.key_reused == key_reused
    &&& output.idempotency.scope@ == "process"@
}

/// Output of a deletion.
#[derive(Clone, Debug, PartialEq)]
pub struct BodyBlockDeleteOutput {
    pub space_id: EntityId,
    pub object_id: EntityId,
    pub block_id: EntityId,
    pub deleted_subtree_blocks: u64,
    pub snapshot_hash: SnapshotHash,
}

/// What a deletion shows.
pub open spec fn delete_output_is(
    output: BodyBlockDeleteOutput,
    space_id: Seq<char>,
    object_id: Seq<char>,
    block_id: Seq<char>,
    blocks: int,
    hash: Seq<char>,
) -> bool {
    &&& output.space_id@ == space_id
    &&& output.object_id@ == object_id
    &&& output.block_id@ == block_id
    &&& output.deleted_subtree_blocks == blocks
    &&& output.snapshot_hash@ == hash
}

// ---------------------------------------------------------------------------
// Admission of a fetched body
// ---------------------------------------------------------------------------

/// Why a shown body is not the expected one, if so: it is of another object, or
/// it is not the snapshot that the caller has seen.
pub open spec fn expectation_error(
    shown: SnapshotV,
    space_id: Seq<char>,
    object_id: Seq<char>,
    expected: Seq<char>,
) -> Option<ToolError> {
    if shown.space_id != space_id || shown.object_id != object_id {
        Some(ToolError::Upstream)
    } else if shown.hash != expected {
        Some(ToolError::Conflict)
    } else {
        None
    }
}

/// Why a fetched body is refused, if so: it cannot be shown, or what it shows is
/// not the expected body.
pub open spec fn admission_error(
    raw: RawV,
    space_id: Seq<char>,
    object_id: Seq<char>,
    expected: Seq<char>,
) -> Option<ToolError> {
    match snapshot_error(raw) {
        Some(error) => Some(error),
        None => expectation_error(shown_snapshot(raw), space_id, object_id, expected),
    }
}

/// Holds a shown body against what an update, a deletion or a move expects.
pub fn check_expected(
    shown: &ProjectedSnapshot,
    space_id: &EntityId,
    object_id: &EntityId,
    expected: &SnapshotHash,
) -> (r: Result<(), ToolError>)
    ensures
        r == refused(expectation_error(shown@, space_id@, object_id@, expected@)),
{
    if !shown.space_id.same(space_id) || !shown.object_id.same(object_id) {
        return Err(ToolError::upstream());
    }
    if !shown.hash.same(expected) {
        return Err(ToolError::conflict());
    }
    Ok(())
}

/// Admits a fetched body to an update, a deletion or a move.
pub fn prepare_body(
    snapshot: &BodySnapshot,
    space_id: &EntityId,
    object_id: &EntityId,
    expected: &SnapshotHash,
) -> (r: Result<ProjectedSnapshot, ToolError>)
    ensures
        match r {
            Ok(shown) => admission_error(snapshot@, space_id@, object_id@, expected@) is None
                && shown@ == shown_snapshot(snapshot@),
            Err(error) => admission_error(snapshot@, space_id@, object_id@, expected@) == Some(
                error,
            ),
        },
{
    let shown: ProjectedSnapshot = match project_snapshot(snapshot) {
        Ok(shown) => shown,
        Err(error) => {
            return Err(error);
        },
    };
    assert(shown@ == shown_snapshot(snapshot@));
    if let Err(error) = check_expected(&shown, space_id, object_id, expected) {
        return Err(error);
    }
    Ok(shown)
}

/// A block stands in the shown body where it stands in the fetched one.
pub(crate) proof fn shown_position(raw: RawV, id: Seq<char>, from: int)
    requires
        0 <= from,
    ensures
        find_from(shown_blocks(raw), id, from) == raw_find_from(raw.blocks, id, from),
    decreases raw.blocks.len() - from,
{
    if from < raw.blocks.len() {
        assert(shown_blocks(raw)[from].id == raw.blocks[from].id);
        shown_position(raw, id, from + 1);
    }
}

// ---------------------------------------------------------------------------
// Placeholders of intended outputs
// ---------------------------------------------------------------------------

/// Longest identifier that starts with a letter.
pub open spec fn placeholder_text(first: char) -> Seq<char> {
    Seq::new(
        256,
        |i: int|
            if i == 0 {
                first
            } else {
                'x'
            },
    )
}

fn placeholder_id(first: &str) -> (r: EntityId)
    requires
        first@.len() == 1,
        '\0' <= first@[0] <= '\u{7f}',
    ensures
        r@ == placeholder_text(first@[0]),
{
    let mut text: String = first.to_owned();
    let mut n: usize = 1;
    proof {
        reveal_strlit("x");
    }
    assert("x"@ =~= seq!['x']);
    while n < 256
        invariant
            1 <= n <= 256,
            first@.len() == 1,
            '\0' <= first@[0] <= '\u{7f}',
            "x"@ == seq!['x'],
            text@ =~= placeholder_text(first@[0]).subrange(0, n as int),
        decreases 256 - n,
    {
        text.append("x");
        n += 1;
    }
    assert(text@ =~= placeholder_text(first@[0]));
    proof {
        assert forall|i: int| 0 <= i < text@.len() implies '\0' <= #[trigger] text@[i] <= '\u{7f}' by {
            assert(text@[i] == placeholder_text(first@[0])[i]);
        }
        is_ascii_chars_encode_utf8(text@);
    }
    EntityId::from_text(text)
}

/// Hash that stands for one that is not known yet.
pub open spec fn intended_hash_text() -> Seq<char> {
    Seq::new(
        64,
        |i: int|
            if i % 2 == 0 {
                'f'
            } else {
                '0'
            },
    )
}

/// Hash that stands for one that is not known yet.
pub fn intended_snapshot_hash() -> (r: SnapshotHash)
    ensures
        r@ == intended_hash_text(),
{
    let mut text: String = String::new();
    let mut n: usize = 0;
    proof {
        reveal_strlit("f0");
    }
    assert("f0"@ =~= seq!['f', '0']);
    while n < 32
        invariant
            n <= 32,
            "f0"@ == seq!['f', '0'],
            text@ =~= intended_hash_text().subrange(0, 2 * n),
        decreases 32 - n,
    {
        text.append("f0");
        n += 1;
    }
    assert(text@ =~= intended_hash_text());
    SnapshotHash::from_digits(text)
}

/// A summary with the longest identifiers and the largest numbers, so that the
/// output it stands in is as large as the real one can become.
pub open spec fn intended_created(input: NewBlockInput) -> SummaryV {
    SummaryV {
        id: placeholder_text('b'),
        parent_id: Some(placeholder_text('p')),
        sibling_index: MAX_BODY_CHILDREN as int,
        depth: MAX_BODY_DEPTH as int,
        child_count: MAX_BODY_CHILDREN as int,
        restrictions: RestrictionsProjection {
            read: false,
            edit: false,
            remove: false,
            drag: false,
            drop_on: false,
        },
        align: match crate::input::requested_horizontal(input) {
            Some(align) => align,
            None => WireHorizontalAlign::Left,
        },
        vertical_align: match crate::input::requested_vertical(input) {
            Some(align) => align,
            None => WireVerticalAlign::Top,
        },
        background_color: opt_view(crate::input::requested_background(input)),
        content: crate::change::created_content(input),
    }
}

/// The output that a creation intends, with placeholders for what only the
/// service knows.
pub fn intended_create_output(
    space_id: &EntityId,
    object_id: &EntityId,
    input: &NewBlockInput,
) -> (r: BodyBlockCreateOutput)
    ensures
        create_output_is(
            r,
            MutationOutputV {
                space_id: space_id@,
                object_id: object_id@,
                block: intended_created(*input),
                snapshot_hash: intended_hash_text(),
            },
            false,
        ),
        shows_request(r.block@, *input),
{
    proof {
        reveal_strlit("b");
        reveal_strlit("p");
    }
    let id: EntityId = placeholder_id("b");
    let parent_id: EntityId = placeholder_id("p");
    let align: WireHorizontalAlign = match presentation_horizontal(input) {
        Some(align) => align,
        None => WireHorizontalAlign::Left,
    };
    let vertical_align: WireVerticalAlign = match presentation_vertical(input) {
        Some(align) => align,
        None => WireVerticalAlign::Top,
    };
    let background_color = match presentation_background(input) {
        Some(color) => Some(color.clone()),
        None => None,
    };
    let block = BlockSummary {
        id,
        parent_id: Some(parent_id),
        sibling_index: MAX_BODY_CHILDREN as u64,
        depth: MAX_BODY_DEPTH as u64,
        child_count: MAX_BODY_CHILDREN as u64,
        restrictions: RestrictionsProjection {
            read: false,
            edit: false,
            remove: false,
            drag: false,
            drop_on: false,
        },
        align,
        vertical_align,
        background_color,
        content: intended_content(input),
    };
    assert(block@ =~= intended_created(*input));
    BodyBlockCreateOutput {
        space_id: space_id.clone(),
        object_id: object_id.clone(),
        block,
        snapshot_hash: intended_snapshot_hash(),
        idempotency: process_scope(false),
    }
}

/// The output that an update intends, or why there is none: the block is not
/// listed, or the change does not apply to it.
pub fn intended_update_output(
    before: &ProjectedSnapshot,
    block_id: &EntityId,
    change: &BlockChangeInput,
) -> (r: Result<BodyBlockMutationOutput, ToolError>)
    ensures
        match find(before@.items, block_id@) {
            None => r == Err::<BodyBlockMutationOutput, ToolError>(ToolError::Upstream),
            Some(i) => match changed_block(before@.items[i], *change) {
                None => r == Err::<BodyBlockMutationOutput, ToolError>(ToolError::Validation),
                Some(block) => r matches Ok(output) && output@ == (MutationOutputV {
                    space_id: before@.space_id,
                    object_id: before@.object_id,
                    block,
                    snapshot_hash: intended_hash_text(),
                }),
            },
        },
{
    let i: usize = match find_block(&before.items, block_id) {
        Some(i) => i,
        None => {
            return Err(ToolError::upstream());
        },
    };
    assert(before@.items[i as int] == before.items@[i as int]@);
    let mut block: BlockSummary = before.items[i].duplicate();
    if let Err(error) = apply_projected_change(&mut block, change) {
        return Err(error);
    }
    Ok(
        BodyBlockMutationOutput {
            space_id: before.space_id.clone(),
            object_id: before.object_id.clone(),
            block,
            snapshot_hash: intended_snapshot_hash(),
        },
    )
}

/// The output that a move intends, where the block is listed.
pub fn intended_move_output(before: &ProjectedSnapshot, block_id: &EntityId) -> (r: Result<
    BodyBlockMutationOutput,
    ToolError,
>)
    ensures
        match find(before@.items, block_id@) {
            None => r == Err::<BodyBlockMutationOutput, ToolError>(ToolError::Upstream),
            Some(i) => r matches Ok(output) && output@ == (MutationOutputV {
                space_id: before@.space_id,
                object_id: before@.object_id,
                block: SummaryV {
                    parent_id: Some(placeholder_text('p')),
                    sibling_index: MAX_BODY_CHILDREN as int,
                    depth: MAX_BODY_DEPTH as int,
                    ..before@.items[i]
                },
                snapshot_hash: intended_hash_text(),
            }),
        },
{
    let i: usize = match find_block(&before.items, block_id) {
        Some(i) => i,
        None => {
            return Err(ToolError::upstream());
        },
    };
    assert(before@.items[i as int] == before.items@[i as int]@);
    proof {
        reveal_strlit("p");
    }
    let mut block: BlockSummary = before.items[i].duplicate();
    block.parent_id = Some(placeholder_id("p"));
    block.sibling_index = MAX_BODY_CHILDREN as u64;
    block.depth = MAX_BODY_DEPTH as u64;
    Ok(
        BodyBlockMutationOutput {
            space_id: before.space_id.clone(),
            object_id: before.object_id.clone(),
            block,
            snapshot_hash: intended_snapshot_hash(),
        },
    )
}

/// The output that a deletion intends.
pub fn intended_delete_output(
    before: &ProjectedSnapshot,
    block_id: &EntityId,
    subtree_blocks: usize,
) -> (r: BodyBlockDeleteOutput)
    ensures
        delete_output_is(
            r,
            before@.space_id,
            before@.object_id,
            block_id@,
            subtree_blocks as int,
            intended_hash_text(),
        ),
{
    BodyBlockDeleteOutput {
        space_id: before.space_id.clone(),
        object_id: before.object_id.clone(),
        block_id: block_id.clone(),
        deleted_subtree_blocks: subtree_blocks as u64,
        snapshot_hash: intended_snapshot_hash(),
    }
}

/// The output of an update or a move: the block in the body afterwards.
pub open spec fn shown_output(raw: RawV, block_id: Seq<char>) -> Option<MutationOutputV> {
    match find(shown_blocks(raw), block_id) {
        Some(i) => Some(
            MutationOutputV {
                space_id: raw.space_id,
                object_id: raw.object_id,
                block: shown_blocks(raw)[i],
                snapshot_hash: shown_snapshot(raw).hash,
            },
        ),
        None => None,
    }
}

/// The output of an update or a move, where the body can be shown and lists the
/// block.
pub fn mutation_output(receipt: &BodySnapshot, block_id: &EntityId) -> (r: Result<
    BodyBlockMutationOutput,
    ToolError,
>)
    ensures
        match snapshot_error(receipt@) {
            Some(error) => r == Err::<BodyBlockMutationOutput, ToolError>(error),
            None => match shown_output(receipt@, block_id@) {
                Some(expected) => r matches Ok(output) && output@ == expected,
                None => r == Err::<BodyBlockMutationOutput, ToolError>(
                    ToolError::MutationIndeterminate,
                ),
            },
        },
{
    let shown: ProjectedSnapshot = match project_snapshot(receipt) {
        Ok(shown) => shown,
        Err(error) => {
            return Err(error);
        },
    };
    assert(shown@ == shown_snapshot(receipt@));
    match find_block(&shown.items, block_id) {
        Some(i) => {
            assert(shown@.items[i as int] == shown.items@[i as int]@);
            Ok(
                BodyBlockMutationOutput {
                    space_id: shown.space_id,
                    object_id: shown.object_id,
                    block: shown.items[i].duplicate(),
                    snapshot_hash: shown.hash,
                },
            )
        },
        None => Err(ToolError::mutation_indeterminate()),
    }
}

// ---------------------------------------------------------------------------
// Update
// ---------------------------------------------------------------------------

/// An update that may be dispatched.
#[derive(Clone, Debug)]
pub struct UpdatePlan {
    pub change: BlockChange,
    pub intended: BodyBlockMutationOutput,
}

/// Why an update of an admitted body is refused, if so.
pub open spec fn update_plan_error(raw: RawV, input: BodyBlockUpdateInput) -> Option<ToolError> {
    match raw_find(raw.blocks, input.block_id@) {
        None => Some(ToolError::NotFound),
        Some(i) => if !raw_block_mutable(raw.blocks[i], raw.root_id, MutationKind::Edit)
            || requested_change(input.change, raw.blocks[i].content) is None || changed_block(
            shown_blocks(raw)[i],
            input.change,
        ) is None {
            Some(ToolError::Validation)
        } else {
            None
        },
    }
}

/// Checks an update of an admitted body.
pub fn plan_update(
    snapshot: &BodySnapshot,
    before: &ProjectedSnapshot,
    input: &BodyBlockUpdateInput,
) -> (r: Result<UpdatePlan, ToolError>)
    requires
        before@ == shown_snapshot(snapshot@),
    ensures
        match r {
            Ok(plan) => {
                let i = raw_find(snapshot@.blocks, input.block_id@)->0;
                &&& update_plan_error(snapshot@, *input) is None
                &&& requested_change(input.change, snapshot@.blocks[i].content) == Some(plan.change@)
                &&& Some(plan.intended@.block) == changed_block(before@.items[i], input.change)
                &&& plan.intended@.space_id == before@.space_id
                &&& plan.intended@.object_id == before@.object_id
                &&& plan.intended@.snapshot_hash == intended_hash_text()
            },
            Err(error) => update_plan_error(snapshot@, *input) == Some(error),
        },
{
    let ghost raw = snapshot@;
    proof {
        shown_position(raw, input.block_id@, 0);
    }
    let i: usize = match snapshot.position(&input.block_id.as_str().to_owned()) {
        Some(i) => i,
        None => {
            return Err(ToolError::not_found());
        },
    };
    let current: &BodyBlock = &snapshot.blocks[i];
    assert(raw.blocks[i as int] == current@);
    if let Err(error) = mutable_block(current, &snapshot.root_id, MutationKind::Edit) {
        return Err(error);
    }
    let change: BlockChange = match block_change(&input.change, current) {
        Ok(change) => change,
        Err(error) => {
            return Err(error);
        },
    };
    match intended_update_output(before, &input.block_id, &input.change) {
        Ok(intended) => Ok(UpdatePlan { change, intended }),
        Err(error) => Err(error),
    }
}

/// An admitted body with an update that may be dispatched.
#[derive(Clone, Debug)]
pub struct AdmittedUpdate {
    pub before: ProjectedSnapshot,
    pub plan: UpdatePlan,
}

/// Admits a fetched body to an update and checks the update: a body that is not
/// the expected one is refused before anything else.
pub fn begin_update(snapshot: &BodySnapshot, space_id: &EntityId, input: &BodyBlockUpdateInput) -> (r:
    Result<AdmittedUpdate, ToolError>)
    ensures
        ({
            let admission = admission_error(
                snapshot@,
                space_id@,
                input.object_id@,
                input.expected_snapshot_hash@,
            );
            match r {
                Ok(admitted) => {
                    let i = raw_find(snapshot@.blocks, input.block_id@)->0;
                    &&& admission is None
                    &&& update_plan_error(snapshot@, *input) is None
                    &&& admitted.before@ == shown_snapshot(snapshot@)
                    &&& requested_change(input.change, snapshot@.blocks[i].content) == Some(
                        admitted.plan.change@,
                    )
                    &&& Some(admitted.plan.intended@.block) == changed_block(
                        admitted.before@.items[i],
                        input.change,
                    )
                    &&& admitted.plan.intended@.space_id == space_id@
                    &&& admitted.plan.intended@.object_id == input.object_id@
                    &&& admitted.plan.intended@.snapshot_hash == intended_hash_text()
                },
                Err(error) => match admission {
                    Some(refusal) => error == refusal,
                    None => update_plan_error(snapshot@, *input) == Some(error),
                },
            }
        }),
{
    let before: ProjectedSnapshot = match prepare_body(
        snapshot,
        space_id,
        &input.object_id,
        &input.expected_snapshot_hash,
    ) {
        Ok(before) => before,
        Err(error) => {
            return Err(error);
        },
    };
    match plan_update(snapshot, &before, input) {
        Ok(plan) => Ok(AdmittedUpdate { before, plan }),
        Err(error) => Err(error),
    }
}

/// Verifies an update from the body afterwards, and shows the block.
pub fn finish_update(
    before: &ProjectedSnapshot,
    receipt: &BodySnapshot,
    block_id: &EntityId,
    change: &BlockChangeInput,
) -> (r: Result<BodyBlockMutationOutput, ToolError>)
    ensures
        match snapshot_error(receipt@) {
            Some(error) => r == Err::<BodyBlockMutationOutput, ToolError>(error),
            None => if update_transition(before@, shown_snapshot(receipt@), block_id@, *change) {
                r matches Ok(output) && shown_output(receipt@, block_id@) == Some(output@)
            } else {
                r == Err::<BodyBlockMutationOutput, ToolError>(ToolError::MutationIndeterminate)
            },
        },
{
    let after: ProjectedSnapshot = match project_snapshot(receipt) {
        Ok(after) => after,
        Err(error) => {
            return Err(error);
        },
    };
    assert(after@ == shown_snapshot(receipt@));
    if !verify_update_transition(before, &after, block_id, change) {
        return Err(ToolError::mutation_indeterminate());
    }
    proof {
        let t = find(before@.items, block_id@)->0;
        find_facts(before@.items, block_id@);
        assert(crate::tree::ids(before@.items)[t] == crate::tree::ids(after@.items)[t]);
        assert(crate::tree::ids(before@.items).len() == crate::tree::ids(after@.items).len());
        find_facts(after@.items, block_id@);
        assert(after@.items[t].id == block_id@);
    }
    mutation_output(receipt, block_id)
}

// ---------------------------------------------------------------------------
// Delete
// ---------------------------------------------------------------------------

/// A deletion that may be dispatched.
#[derive(Clone, Debug)]
pub struct DeletePlan {
    pub subtree: Vec<String>,
    pub intended: BodyBlockDeleteOutput,
}

/// Subtree of a block, or why it cannot be listed.
pub open spec fn subtree_of(raw: RawV, id: Seq<char>) -> Result<Seq<Seq<char>>, ToolError> {
    raw_walk(raw.blocks, seq![id], MAX_BODY_BLOCKS as nat)
}

/// Why a deletion from an admitted body is refused, if so.
pub open spec fn delete_error(raw: RawV, input: BodyBlockDeleteInput) -> Option<ToolError> {
    match raw_find(raw.blocks, input.block_id@) {
        None => Some(ToolError::NotFound),
        Some(i) => match subtree_of(raw, input.block_id@) {
            Err(error) => Some(error),
            Ok(subtree) => match delete_plan_error(
                shown_snapshot(raw),
                subtree,
                input.expected_subtree_blocks as int,
            ) {
                Some(error) => Some(error),
                None => if raw_block_mutable(raw.blocks[i], raw.root_id, MutationKind::Remove)
                    && raw_members_admit(raw, subtree, MutationKind::Remove) {
                    None
                } else {
                    Some(ToolError::Validation)
                },
            },
        },
    }
}

/// Checks a deletion from an admitted body.
pub fn plan_delete(
    snapshot: &BodySnapshot,
    before: &ProjectedSnapshot,
    input: &BodyBlockDeleteInput,
) -> (r: Result<DeletePlan, ToolError>)
    requires
        before@ == shown_snapshot(snapshot@),
    ensures
        match r {
            Ok(plan) => {
                &&& delete_error(snapshot@, *input) is None
                &&& subtree_of(snapshot@, input.block_id@) == Ok::<Seq<Seq<char>>, ToolError>(
                    views(plan.subtree@),
                )
                &&& delete_output_is(
                    plan.intended,
                    before@.space_id,
                    before@.object_id,
                    input.block_id@,
                    plan.subtree.len() as int,
                    intended_hash_text(),
                )
            },
            Err(error) => delete_error(snapshot@, *input) == Some(error),
        },
{
    let ghost raw = snapshot@;
    let id: String = input.block_id.as_str().to_owned();
    let i: usize = match snapshot.position(&id) {
        Some(i) => i,
        None => {
            return Err(ToolError::not_found());
        },
    };
    let current: &BodyBlock = &snapshot.blocks[i];
    assert(raw.blocks[i as int] == current@);
    let subtree: Vec<String> = match subtree_ids(snapshot, &id) {
        Ok(subtree) => subtree,
        Err(error) => {
            return Err(error);
        },
    };
    assert(views(subtree@).len() == subtree.len());
    if let Err(error) = validate_projected_delete_plan(
        before,
        &subtree,
        input.expected_subtree_blocks,
    ) {
        return Err(error);
    }
    if let Err(error) = validate_delete_plan(
        current,
        &snapshot.root_id,
        subtree.len(),
        input.expected_subtree_blocks,
        subtree_is_mutable(snapshot, &subtree, MutationKind::Remove),
    ) {
        return Err(error);
    }
    let intended: BodyBlockDeleteOutput = intended_delete_output(
        before,
        &input.block_id,
        subtree.len(),
    );
    Ok(DeletePlan { subtree, intended })
}

/// An admitted body with a deletion that may be dispatched.
#[derive(Clone, Debug)]
pub struct AdmittedDelete {
    pub before: ProjectedSnapshot,
    pub plan: DeletePlan,
}

/// Admits a fetched body to a deletion and checks the deletion.
pub fn begin_delete(snapshot: &BodySnapshot, space_id: &EntityId, input: &BodyBlockDeleteInput) -> (r:
    Result<AdmittedDelete, ToolError>)
    ensures
        ({
            let admission = admission_error(
                snapshot@,
                space_id@,
                input.object_id@,
                input.expected_snapshot_hash@,
            );
            match r {
                Ok(admitted) => {
                    &&& admission is None
                    &&& delete_error(snapshot@, *input) is None
                    &&& admitted.before@ == shown_snapshot(snapshot@)
                    &&& subtree_of(snapshot@, input.block_id@) == Ok::<Seq<Seq<char>>, ToolError>(
                        views(admitted.plan.subtree@),
                    )
                    &&& delete_output_is(
                        admitted.plan.intended,
                        space_id@,
                        input.object_id@,
                        input.block_id@,
                        admitted.plan.subtree.len() as int,
                        intended_hash_text(),
                    )
                },
                Err(error) => match admission {
                    Some(refusal) => error == refusal,
                    None => delete_error(snapshot@, *input) == Some(error),
                },
            }
        }),
{
    let before: ProjectedSnapshot = match prepare_body(
        snapshot,
        space_id,
        &input.object_id,
        &input.expected_snapshot_hash,
    ) {
        Ok(before) => before,
        Err(error) => {
            return Err(error);
        },
    };
    match plan_delete(snapshot, &before, input) {
        Ok(plan) => Ok(AdmittedDelete { before, plan }),
        Err(error) => Err(error),
    }
}

/// Verifies a deletion from the body afterwards.
pub fn finish_delete(
    before: &ProjectedSnapshot,
    receipt: &BodySnapshot,
    block_id: &EntityId,
    subtree: &Vec<String>,
) -> (r: Result<BodyBlockDeleteOutput, ToolError>)
    ensures
        match snapshot_error(receipt@) {
            Some(error) => r == Err::<BodyBlockDeleteOutput, ToolError>(error),
            None => if delete_transition(before@, shown_snapshot(receipt@), views(subtree@)) {
                r matches Ok(output) && delete_output_is(
                    output,
                    receipt@.space_id,
                    receipt@.object_id,
                    block_id@,
                    subtree.len() as int,
                    shown_snapshot(receipt@).hash,
                )
            } else {
                r == Err::<BodyBlockDeleteOutput, ToolError>(ToolError::MutationIndeterminate)
            },
        },
{
    let after: ProjectedSnapshot = match project_snapshot(receipt) {
        Ok(after) => after,
        Err(error) => {
            return Err(error);
        },
    };
    assert(after@ == shown_snapshot(receipt@));
    if !verify_delete_transition(before, &after, subtree) {
        return Err(ToolError::mutation_indeterminate());
    }
    Ok(
        BodyBlockDeleteOutput {
            space_id: after.space_id,
            object_id: after.object_id,
            block_id: block_id.clone(),
            deleted_subtree_blocks: subtree.len() as u64,
            snapshot_hash: after.hash,
        },
    )
}

// ---------------------------------------------------------------------------
// Move
// ---------------------------------------------------------------------------

/// A move that may be dispatched.
#[derive(Clone, Debug)]
pub struct MovePlanned {
    pub subtree: Vec<String>,
    pub intended: BodyBlockMutationOutput,
}

/// Why a move inside an admitted body is refused, if so.
pub open spec fn move_error(raw: RawV, input: BodyBlockMoveInput) -> Option<ToolError> {
    match (raw_find(raw.blocks, input.block_id@), raw_find(raw.blocks, input.target_block_id@)) {
        (Some(i), Some(t)) => match subtree_of(raw, input.block_id@) {
            Err(error) => Some(error),
            Ok(subtree) => match move_plan_error(
                shown_snapshot(raw),
                input.block_id@,
                input.target_block_id@,
                subtree,
            ) {
                Some(error) => Some(error),
                None => if raw_block_mutable(raw.blocks[i], raw.root_id, MutationKind::Move) && (
                raw.blocks[t].id == raw.root_id || raw_block_mutable(
                    raw.blocks[t],
                    raw.root_id,
                    MutationKind::Target,
                )) && raw.blocks[i].id != raw.blocks[t].id && !subtree.contains(raw.blocks[t].id)
                    && raw_members_admit(raw, subtree, MutationKind::Move) {
                    None
                } else {
                    Some(ToolError::Validation)
                },
            },
        },
        _ => Some(ToolError::NotFound),
    }
}

/// Checks a move inside an admitted body.
pub fn plan_move(
    snapshot: &BodySnapshot,
    before: &ProjectedSnapshot,
    input: &BodyBlockMoveInput,
) -> (r: Result<MovePlanned, ToolError>)
    requires
        before@ == shown_snapshot(snapshot@),
    ensures
        match r {
            Ok(plan) => {
                &&& move_error(snapshot@, *input) is None
                &&& subtree_of(snapshot@, input.block_id@) == Ok::<Seq<Seq<char>>, ToolError>(
                    views(plan.subtree@),
                )
                &&& plan.intended@ == (MutationOutputV {
                    space_id: before@.space_id,
                    object_id: before@.object_id,
                    block: SummaryV {
                        parent_id: Some(placeholder_text('p')),
                        sibling_index: MAX_BODY_CHILDREN as int,
                        depth: MAX_BODY_DEPTH as int,
                        ..before@.items[find(before@.items, input.block_id@)->0]
                    },
                    snapshot_hash: intended_hash_text(),
                })
            },
            Err(error) => move_error(snapshot@, *input) == Some(error),
        },
{
    let ghost raw = snapshot@;
    proof {
        shown_position(raw, input.block_id@, 0);
    }
    let id: String = input.block_id.as_str().to_owned();
    let i: usize = match snapshot.position(&id) {
        Some(i) => i,
        None => {
            return Err(ToolError::not_found());
        },
    };
    let t: usize = match snapshot.position(&input.target_block_id.as_str().to_owned()) {
        Some(t) => t,
        None => {
            return Err(ToolError::not_found());
        },
    };
    let moved: &BodyBlock = &snapshot.blocks[i];
    let target: &BodyBlock = &snapshot.blocks[t];
    assert(raw.blocks[i as int] == moved@);
    assert(raw.blocks[t as int] == target@);
    let subtree: Vec<String> = match subtree_ids(snapshot, &id) {
        Ok(subtree) => subtree,
        Err(error) => {
            return Err(error);
        },
    };
    if let Err(error) = validate_projected_move_plan(
        before,
        &input.block_id,
        &input.target_block_id,
        &subtree,
    ) {
        return Err(error);
    }
    if let Err(error) = validate_move_plan(
        moved,
        target,
        &snapshot.root_id,
        &subtree,
        subtree_is_mutable(snapshot, &subtree, MutationKind::Move),
    ) {
        return Err(error);
    }
    match intended_move_output(before, &input.block_id) {
        Ok(intended) => Ok(MovePlanned { subtree, intended }),
        Err(error) => Err(error),
    }
}

/// An admitted body with a move that may be dispatched.
#[derive(Clone, Debug)]
pub struct AdmittedMove {
    pub before: ProjectedSnapshot,
    pub plan: MovePlanned,
}

/// Admits a fetched body to a move and checks the move.
pub fn begin_move(snapshot: &BodySnapshot, space_id: &EntityId, input: &BodyBlockMoveInput) -> (r:
    Result<AdmittedMove, ToolError>)
    ensures
        ({
            let admission = admission_error(
                snapshot@,
                space_id@,
                input.object_id@,
                input.expected_snapshot_hash@,
            );
            match r {
                Ok(admitted) => {
                    &&& admission is None
                    &&& move_error(snapshot@, *input) is None
                    &&& admitted.before@ == shown_snapshot(snapshot@)
                    &&& subtree_of(snapshot@, input.block_id@) == Ok::<Seq<Seq<char>>, ToolError>(
                        views(admitted.plan.subtree@),
                    )
                    &&& admitted.plan.intended@ == (MutationOutputV {
                        space_id: space_id@,
                        object_id: input.object_id@,
                        block: SummaryV {
                            parent_id: Some(placeholder_text('p')),
                            sibling_index: MAX_BODY_CHILDREN as int,
                            depth: MAX_BODY_DEPTH as int,
                            ..admitted.before@.items[find(
                                admitted.before@.items,
                                input.block_id@,
                            )->0]
                        },
                        snapshot_hash: intended_hash_text(),
                    })
                },
                Err(error) => match admission {
                    Some(refusal) => error == refusal,
                    None => move_error(snapshot@, *input) == Some(error),
                },
            }
        }),
{
    let before: ProjectedSnapshot = match prepare_body(
        snapshot,
        space_id,
        &input.object_id,
        &input.expected_snapshot_hash,
    ) {
        Ok(before) => before,
        Err(error) => {
            return Err(error);
        },
    };
    match plan_move(snapshot, &before, input) {
        Ok(plan) => Ok(AdmittedMove { before, plan }),
        Err(error) => Err(error),
    }
}

/// Verifies a move from the body afterwards, and shows the block.
pub fn finish_move(
    before: &ProjectedSnapshot,
    receipt: &BodySnapshot,
    input: &BodyBlockMoveInput,
    subtree: &Vec<String>,
) -> (r: Result<BodyBlockMutationOutput, ToolError>)
    ensures
        match snapshot_error(receipt@) {
            Some(error) => r == Err::<BodyBlockMutationOutput, ToolError>(error),
            None => if move_transition(
                before@,
                shown_snapshot(receipt@),
                views(subtree@),
                input.target_block_id@,
                input.position,
            ) {
                match shown_output(receipt@, input.block_id@) {
                    Some(expected) => r matches Ok(output) && output@ == expected,
                    None => r == Err::<BodyBlockMutationOutput, ToolError>(
                        ToolError::MutationIndeterminate,
                    ),
                }
            } else {
                r == Err::<BodyBlockMutationOutput, ToolError>(ToolError::MutationIndeterminate)
            },
        },
{
    let after: ProjectedSnapshot = match project_snapshot(receipt) {
        Ok(after) => after,
        Err(error) => {
            return Err(error);
        },
    };
    assert(after@ == shown_snapshot(receipt@));
    if !verify_move_transition(before, &after, subtree, &input.target_block_id, input.position) {
        return Err(ToolError::mutation_indeterminate());
    }
    mutation_output(receipt, &input.block_id)
}

// ---------------------------------------------------------------------------
// Create
// ---------------------------------------------------------------------------

/// Admits a creation before its key is looked up: its encoding is within the
/// input bound and its block may be sent.
pub fn admit_create(encoded: &Vec<u8>, input: &BodyBlockCreateInput) -> (r: Result<(), ToolError>)
    ensures
        r == (if encoded.len() <= MAX_BODY_INPUT_BYTES && block_accepted(input.block) {
            Ok::<(), ToolError>(())
        } else {
            Err(ToolError::Validation)
        }),
{
    if encoded_input_bytes(encoded).is_err() || new_block(&input.block).is_err() {
        return Err(ToolError::validation());
    }
    Ok(())
}

/// A creation that may be dispatched.
#[derive(Clone, Debug)]
pub struct CreatePlan {
    pub before: ProjectedSnapshot,
    pub block: NewBlock,
    pub intended: BodyBlockCreateOutput,
}

/// Why a creation in a fetched body is refused, if so. Every difference from the
/// expected body is a conflict.
pub open spec fn create_error(
    raw: RawV,
    space_id: Seq<char>,
    input: BodyBlockCreateInput,
) -> Option<ToolError> {
    match snapshot_error(raw) {
        Some(error) => Some(error),
        None => if expectation_error(
            shown_snapshot(raw),
            space_id,
            input.object_id@,
            input.expected_snapshot_hash@,
        ) is Some {
            Some(ToolError::Conflict)
        } else {
            match create_plan_error(shown_snapshot(raw), input.target_block_id@, input.position) {
                Some(error) => Some(error),
                None => match raw_find(raw.blocks, input.target_block_id@) {
                    None => Some(ToolError::NotFound),
                    Some(t) => if ((raw.blocks[t].id == raw.root_id && !beside(input.position))
                        || raw_block_mutable(raw.blocks[t], raw.root_id, MutationKind::Target))
                        && block_accepted(input.block) {
                        None
                    } else {
                        Some(ToolError::Validation)
                    },
                },
            }
        },
    }
}

/// Checks a creation in a fetched body.
pub fn plan_create(
    snapshot: &BodySnapshot,
    space_id: &EntityId,
    input: &BodyBlockCreateInput,
) -> (r: Result<CreatePlan, ToolError>)
    ensures
        match r {
            Ok(plan) => {
                &&& create_error(snapshot@, space_id@, *input) is None
                &&& plan.before@ == shown_snapshot(snapshot@)
                &&& plan.block@ == requested_block(input.block)
                &&& create_output_is(
                    plan.intended,
                    MutationOutputV {
                        space_id: space_id@,
                        object_id: input.object_id@,
                        block: intended_created(input.block),
                        snapshot_hash: intended_hash_text(),
                    },
                    false,
                )
            },
            Err(error) => create_error(snapshot@, space_id@, *input) == Some(error),
        },
{
    let ghost raw = snapshot@;
    let before: ProjectedSnapshot = match project_snapshot(snapshot) {
        Ok(before) => before,
        Err(error) => {
            return Err(error);
        },
    };
    assert(before@ == shown_snapshot(raw));
    if check_expected(&before, space_id, &input.object_id, &input.expected_snapshot_hash).is_err() {
        return Err(ToolError::conflict());
    }
    if let Err(error) = validate_projected_create_plan(
        &before,
        &input.target_block_id,
        input.position,
    ) {
        return Err(error);
    }
    let t: usize = match snapshot.position(&input.target_block_id.as_str().to_owned()) {
        Some(t) => t,
        None => {
            return Err(ToolError::not_found());
        },
    };
    assert(raw.blocks[t as int] == snapshot.blocks@[t as int]@);
    if let Err(error) = validate_create_target(
        &snapshot.blocks[t],
        &snapshot.root_id,
        input.position,
    ) {
        return Err(error);
    }
    let block: NewBlock = match new_block(&input.block) {
        Ok(block) => block,
        Err(error) => {
            return Err(error);
        },
    };
    let intended: BodyBlockCreateOutput = intended_create_output(
        space_id,
        &input.object_id,
        &input.block,
    );
    Ok(CreatePlan { before, block, intended })
}

/// Verifies a creation from the first affected block and the body afterwards,
/// and shows the block.
pub fn finish_create(
    before: &ProjectedSnapshot,
    affected: Option<&str>,
    receipt: &BodySnapshot,
    input: &BodyBlockCreateInput,
) -> (r: Result<BodyBlockCreateOutput, ToolError>)
    ensures
        match affected {
            None => r == Err::<BodyBlockCreateOutput, ToolError>(ToolError::MutationIndeterminate),
            Some(id) => if !valid_entity_id(id@) {
                r == Err::<BodyBlockCreateOutput, ToolError>(ToolError::MutationIndeterminate)
            } else {
                match snapshot_error(receipt@) {
                    Some(error) => r == Err::<BodyBlockCreateOutput, ToolError>(error),
                    None => if create_transition(
                        before@,
                        shown_snapshot(receipt@),
                        id@,
                        input.target_block_id@,
                        input.position,
                        input.block,
                    ) {
                        r matches Ok(output) && (match shown_output(receipt@, id@) {
                            Some(expected) => create_output_is(output, expected, false),
                            None => false,
                        })
                    } else {
                        r == Err::<BodyBlockCreateOutput, ToolError>(
                            ToolError::MutationIndeterminate,
                        )
                    },
                }
            },
        },
{
    let block_id: EntityId = match affected {
        Some(id) => match EntityId::new(id) {
            Ok(id) => id,
            Err(_) => {
                return Err(ToolError::mutation_indeterminate());
            },
        },
        None => {
            return Err(ToolError::mutation_indeterminate());
        },
    };
    let after: ProjectedSnapshot = match project_snapshot(receipt) {
        Ok(after) => after,
        Err(error) => {
            return Err(error);
        },
    };
    assert(after@ == shown_snapshot(receipt@));
    if !verify_create_transition(
        before,
        &after,
        &block_id,
        &input.target_block_id,
        input.position,
        &input.block,
    ) {
        return Err(ToolError::mutation_indeterminate());
    }
    proof {
        find_facts(after@.items, block_id@);
        crate::creation::insertion_is_listed(
            before@.items,
            input.target_block_id@,
            input.position,
        );
    }
    match find_block(&after.items, &block_id) {
        Some(i) => {
            assert(after@.items[i as int] == after.items@[i as int]@);
            Ok(
                BodyBlockCreateOutput {
                    space_id: after.space_id,
                    object_id: after.object_id,
                    block: after.items[i].duplicate(),
                    snapshot_hash: after.hash,
                    idempotency: process_scope(false),
                },
            )
        },
        None => Err(ToolError::mutation_indeterminate()),
    }
}

/// Decides whether a remembered creation may be given again: the block is still
/// listed, unchanged, in the body of the same object.
pub fn replay_block_create(
    snapshot: &BodySnapshot,
    resolved_space: &str,
    input: &BodyBlockCreateInput,
    cached: &BlockSummary,
) -> (r: Result<BodyBlockCreateOutput, ToolError>)
    ensures
        ({
            let holds = snapshot_error(snapshot@) is None && snapshot@.space_id == resolved_space@
                && snapshot@.object_id == input.object_id@ && (shown_output(
                snapshot@,
                cached@.id,
            ) matches Some(found) && found.block == cached@);
            match r {
                Ok(output) => holds && create_output_is(
                    output,
                    shown_output(snapshot@, cached@.id)->0,
                    true,
                ),
                Err(error) => !holds && error == ToolError::Conflict,
            }
        }),
{
    let shown: ProjectedSnapshot = match project_snapshot(snapshot) {
        Ok(shown) => shown,
        Err(_) => {
            return Err(ToolError::conflict());
        },
    };
    assert(shown@ == shown_snapshot(snapshot@));
    let i: usize = match find_block(&shown.items, &cached.id) {
        Some(i) => i,
        None => {
            return Err(ToolError::conflict());
        },
    };
    assert(shown@.items[i as int] == shown.items@[i as int]@);
    if !shown.items[i].same(cached) || !same_text(shown.space_id.as_str(), resolved_space)
        || !shown.object_id.same(&input.object_id) {
        return Err(ToolError::conflict());
    }
    Ok(
        BodyBlockCreateOutput {
            space_id: shown.space_id,
            object_id: shown.object_id,
            block: shown.items[i].duplicate(),
            snapshot_hash: shown.hash,
            idempotency: process_scope(true),
        },
    )
}

/// What is remembered of a block creation: a success is verified, a failure
/// before dispatch leaves the key free, any other is indeterminate.
pub fn block_create_disposition(succeeded: bool, stage: MutationStage) -> (r: CreateDisposition)
    ensures
        r == (if succeeded {
            CreateDisposition::Verified
        } else if stage == MutationStage::PreDispatch {
            CreateDisposition::PreDispatchFailure
        } else {
            CreateDisposition::Indeterminate
        }),
{
    if succeeded {
        return CreateDisposition::Verified;
    }
    match stage {
        MutationStage::PreDispatch => CreateDisposition::PreDispatchFailure,
        MutationStage::Dispatched => CreateDisposition::Indeterminate,
    }
}

} // verus!
