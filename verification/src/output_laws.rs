//! What the output of a mutation shows: the body as it was fetched afterwards, and
//! a size estimate that no created block exceeds.

use crate::flows::{
    create_output_is, delete_output_is, expectation_error, intended_created, intended_hash_text,
    placeholder_text, shown_output, BodyBlockCreateOutput, BodyBlockDeleteOutput, MutationOutputV,
};
use crate::creation::shows_request;
use crate::error::ToolError;
use crate::input::NewBlockInput;
use crate::model::SnapshotV;
use crate::projection::{shown_blocks, RawV, MAX_BODY_CHILDREN, MAX_BODY_DEPTH};
use crate::rich_flow::shown_snapshot;
use crate::tree::find_facts;
use vstd::prelude::*;

verus! {

/// A mutated block is put out as the body shows it, with the body's space, object
/// and hash. It is put out exactly where the body shows it.
pub proof fn mutated_block_is_put_out_as_shown(raw: RawV, id: Seq<char>)
    ensures
        shown_output(raw, id) matches Some(output) ==> {
            &&& output.space_id == raw.space_id
            &&& output.object_id == raw.object_id
            &&& output.snapshot_hash == shown_snapshot(raw).hash
            &&& output.block.id == id
            &&& exists|i: int|
                0 <= i < shown_blocks(raw).len() && output.block == #[trigger] shown_blocks(raw)[i]
                    && forall|k: int| 0 <= k < i ==> (#[trigger] shown_blocks(raw)[k]).id != id
        },
        shown_output(raw, id) is None <==> forall|i: int|
            0 <= i < shown_blocks(raw).len() ==> (#[trigger] shown_blocks(raw)[i]).id != id,
{
    find_facts(shown_blocks(raw), id);
    if let Some(output) = shown_output(raw, id) {
        let i = crate::tree::find(shown_blocks(raw), id)->0;
        assert(output.block == shown_blocks(raw)[i]);
    }
}

/// A created block is put out like any mutated one, and says whether its key was
/// used before.
pub proof fn created_block_is_put_out_as_shown(
    output: BodyBlockCreateOutput,
    shown: MutationOutputV,
    reused: bool,
)
    ensures
        create_output_is(output, shown, reused) <==> {
            &&& shown == MutationOutputV {
                space_id: output.space_id@,
                object_id: output.object_id@,
                block: output.block@,
                snapshot_hash: output.snapshot_hash@,
            }
            &&& output.idempotency.key_reused <==> reused
            &&& output.idempotency.scope@ == "process"@
        },
{
}

/// A deletion is put out with the deleted block, the number of deleted blocks and
/// the hash of what is left.
pub proof fn deletion_is_put_out(
    output: BodyBlockDeleteOutput,
    space: Seq<char>,
    object: Seq<char>,
    block: Seq<char>,
    blocks: int,
    hash: Seq<char>,
)
    ensures
        delete_output_is(output, space, object, block, blocks, hash) <==> output.space_id@ == space
            && output.object_id@ == object && output.block_id@ == block
            && output.deleted_subtree_blocks == blocks && output.snapshot_hash@ == hash,
{
}

/// A shown body is the expected one exactly where it is of the same object and has
/// the expected hash. A body of another object is the service's failure, another
/// hash a conflict.
pub proof fn bodies_are_held_to_their_hash(
    shown: SnapshotV,
    space: Seq<char>,
    object: Seq<char>,
    expected: Seq<char>,
)
    ensures
        expectation_error(shown, space, object, expected) is None <==> shown.space_id == space
            && shown.object_id == object && shown.hash == expected,
        expectation_error(shown, space, object, expected) == Some(ToolError::Conflict)
            <==> shown.space_id == space && shown.object_id == object && shown.hash != expected,
        expectation_error(shown, space, object, expected) == Some(ToolError::Upstream)
            <==> shown.space_id != space || shown.object_id != object,
{
}

/// The size of an output is estimated on a block that shows the request, with the
/// longest identifiers and the largest numbers that a block can have, and no
/// restriction open.
pub proof fn sizes_are_estimated_on_the_largest_block(input: NewBlockInput)
    ensures
        ({
            let block = intended_created(input);
            &&& shows_request(block, input)
            &&& block.id.len() == 256
            &&& block.parent_id matches Some(parent) && parent.len() == 256 && parent != block.id
            &&& block.sibling_index == MAX_BODY_CHILDREN
            &&& block.child_count == MAX_BODY_CHILDREN
            &&& block.depth == MAX_BODY_DEPTH
            &&& !block.restrictions.read && !block.restrictions.edit && !block.restrictions.remove
            &&& !block.restrictions.drag && !block.restrictions.drop_on
        }),
        intended_hash_text().len() == 64,
        forall|i: int|
            0 <= i < 64 ==> #[trigger] intended_hash_text()[i] == 'f' || intended_hash_text()[i]
                == '0',
        forall|first: char, i: int|
            0 < i < 256 ==> #[trigger] placeholder_text(first)[i] == 'x' && placeholder_text(
                first,
            )[0] == first,
{
    let block = intended_created(input);
    assert(block.id[0] != block.parent_id->0[0]);
}

} // verus!
