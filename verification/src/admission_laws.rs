//! Which mutations are admitted, said of the blocks themselves: what is listed,
//! what a caller may touch, and what the restrictions leave open.

use crate::change::changed_block;
use crate::compose::{block_accepted, requested_change};
use crate::domain::valid_entity_id;
use crate::error::ToolError;
use crate::flows::{
    admission_error, create_error, delete_error, move_error, shown_position, subtree_of,
    update_plan_error,
};
use crate::input::{
    BodyBlockCreateInput, BodyBlockDeleteInput, BodyBlockMoveInput, BodyBlockUpdateInput,
};
use crate::model::{ContentV, RestrictionsProjection, SnapshotV, SummaryV};
use crate::plan::{
    admits, create_plan_error, delete_plan_error, denies, member_mutable, members_mutable,
    move_plan_error, raw_block_mutable, raw_member_admits, raw_members_admit, raw_walk, untouchable,
    MutationKind,
};
use crate::projection::{
    raw_find, raw_find_facts, shown_blocks, snapshot_error, RawBlockV, RawV, MAX_BODY_BLOCKS,
};
use crate::rich_flow::shown_snapshot;
use crate::subtree_laws::subtree_is_closed_under_children;
use crate::tree::{find, find_facts};
use crate::wire::{WireInsertPosition, WireTextStyle};
use vstd::prelude::*;

verus! {

/// The restrictions leave an operation open.
pub open spec fn leaves_open(
    restrictions: RestrictionsProjection,
    operation: MutationKind,
) -> bool {
    match operation {
        MutationKind::Edit => !restrictions.edit,
        MutationKind::Remove => !restrictions.remove,
        MutationKind::Move => !restrictions.drag,
        MutationKind::Target => !restrictions.drop_on,
    }
}

/// Content that a caller may touch: texts that a caller can write, dividers,
/// bookmarks, links, relations, embeds and tables of contents.
pub open spec fn touchable(content: ContentV) -> bool {
    match content {
        ContentV::Text { style, .. } => style != WireTextStyle::Title && style
            != WireTextStyle::Description && style != WireTextStyle::Heading4,
        ContentV::Layout { .. } | ContentV::FeaturedRelations | ContentV::Table => false,
        ContentV::TableRow { .. } | ContentV::TableColumn => false,
        ContentV::File { .. } | ContentV::Unsupported { .. } => false,
        ContentV::Divider { .. } | ContentV::Bookmark { .. } | ContentV::Link { .. } => true,
        ContentV::Relation { .. } | ContentV::Embed { .. } | ContentV::TableOfContents => true,
        ContentV::Unrecognized => true,
    }
}

/// Each restriction closes one operation and no other.
pub proof fn restrictions_close_one_operation_each(
    restrictions: RestrictionsProjection,
    content: ContentV,
    operation: MutationKind,
)
    ensures
        denies(restrictions, operation) <==> !leaves_open(restrictions, operation),
        untouchable(content) <==> !touchable(content),
        admits(restrictions, content, operation) <==> leaves_open(restrictions, operation)
            && touchable(content),
{
}

/// The block may take part in an operation: it is not the root, and neither its
/// restrictions nor its content stand against it.
pub open spec fn may(
    id: Seq<char>,
    restrictions: RestrictionsProjection,
    content: ContentV,
    root: Seq<char>,
    operation: MutationKind,
) -> bool {
    id != root && leaves_open(restrictions, operation) && touchable(content)
}

/// The first shown block of this identifier is block `i`.
pub open spec fn first_shown(items: Seq<SummaryV>, id: Seq<char>, i: int) -> bool {
    0 <= i < items.len() && items[i].id == id && forall|j: int|
        0 <= j < i ==> (#[trigger] items[j]).id != id
}

/// A shown block of this identifier may take part in an operation.
pub open spec fn shown_may(snapshot: SnapshotV, id: Seq<char>, operation: MutationKind) -> bool {
    exists|i: int| #[trigger]
        first_shown(snapshot.items, id, i) && may(
            snapshot.items[i].id,
            snapshot.items[i].restrictions,
            snapshot.items[i].content,
            snapshot.root_id,
            operation,
        )
}

/// Some shown block has this identifier.
pub open spec fn is_shown(items: Seq<SummaryV>, id: Seq<char>) -> bool {
    exists|i: int| 0 <= i < items.len() && (#[trigger] items[i]).id == id
}

proof fn found_is_first(items: Seq<SummaryV>, id: Seq<char>)
    ensures
        is_shown(items, id) <==> find(items, id) is Some,
        forall|i: int| #[trigger] first_shown(items, id, i) <==> find(items, id) == Some(i),
{
    find_facts(items, id);
    if let Some(i) = find(items, id) {
        assert(items[i].id == id);
    }
    assert forall|i: int| #[trigger] first_shown(items, id, i) implies find(items, id) == Some(
        i,
    ) by {
        assert(items[i].id == id);
    }
}

proof fn member_may(snapshot: SnapshotV, id: Seq<char>, operation: MutationKind)
    ensures
        member_mutable(snapshot, id, operation) <==> shown_may(snapshot, id, operation),
{
    found_is_first(snapshot.items, id);
    if let Some(i) = find(snapshot.items, id) {
        assert(first_shown(snapshot.items, id, i));
        assert(snapshot.items[i].id == id);
    }
}

/// A block is created below the root, or beside or below any other listed block
/// that admits being a target. A target that is not listed is not found; any
/// other target is refused.
pub proof fn creation_target_is_admitted(
    snapshot: SnapshotV,
    target: Seq<char>,
    position: WireInsertPosition,
)
    ensures
        ({
            let below = position == WireInsertPosition::FirstChild || position
                == WireInsertPosition::LastChild;
            let error = create_plan_error(snapshot, target, position);
            &&& error == Some(ToolError::NotFound) <==> !is_shown(snapshot.items, target)
            &&& error is None <==> is_shown(snapshot.items, target) && if target
                == snapshot.root_id {
                below
            } else {
                shown_may(snapshot, target, MutationKind::Target)
            }
            &&& error matches Some(error) ==> error == ToolError::NotFound || error
                == ToolError::Validation
        }),
{
    found_is_first(snapshot.items, target);
    find_facts(snapshot.items, target);
    member_may(snapshot, target, MutationKind::Target);
}

/// Every block of a list may take part in an operation.
pub open spec fn all_may(
    snapshot: SnapshotV,
    subtree: Seq<Seq<char>>,
    operation: MutationKind,
) -> bool {
    forall|k: int| 0 <= k < subtree.len() ==> shown_may(snapshot, #[trigger] subtree[k], operation)
}

proof fn members_may(snapshot: SnapshotV, subtree: Seq<Seq<char>>, operation: MutationKind)
    ensures
        members_mutable(snapshot, subtree, operation) <==> all_may(snapshot, subtree, operation),
{
    assert forall|k: int| 0 <= k < subtree.len() implies member_mutable(
        snapshot,
        #[trigger] subtree[k],
        operation,
    ) == shown_may(snapshot, subtree[k], operation) by {
        member_may(snapshot, subtree[k], operation);
    }
    if members_mutable(snapshot, subtree, operation) {
        assert forall|k: int| 0 <= k < subtree.len() implies shown_may(
            snapshot,
            #[trigger] subtree[k],
            operation,
        ) by {
            assert(member_mutable(snapshot, subtree[k], operation));
        }
    }
    if all_may(snapshot, subtree, operation) {
        assert forall|k: int| 0 <= k < subtree.len() implies member_mutable(
            snapshot,
            #[trigger] subtree[k],
            operation,
        ) by {
            assert(shown_may(snapshot, subtree[k], operation));
        }
    }
}

/// A subtree is deleted exactly where it has the confirmed number of blocks and
/// every one of them may be removed. A subtree whose first block is not listed is
/// not found.
pub proof fn deletion_is_admitted(
    snapshot: SnapshotV,
    subtree: Seq<Seq<char>>,
    expected_blocks: int,
)
    requires
        subtree.len() > 0,
        valid_entity_id(subtree[0]),
    ensures
        ({
            let error = delete_plan_error(snapshot, subtree, expected_blocks);
            &&& error == Some(ToolError::NotFound) <==> !is_shown(snapshot.items, subtree[0])
            &&& error is None <==> subtree.len() == expected_blocks && all_may(
                snapshot,
                subtree,
                MutationKind::Remove,
            )
            &&& error matches Some(error) ==> error == ToolError::NotFound || error
                == ToolError::Validation
        }),
{
    found_is_first(snapshot.items, subtree[0]);
    members_may(snapshot, subtree, MutationKind::Remove);
    if all_may(snapshot, subtree, MutationKind::Remove) {
        assert(shown_may(snapshot, subtree[0], MutationKind::Remove));
    }
}

/// A subtree is moved exactly where the moved block and the target are listed,
/// the target is the root or admits being one, lies outside the subtree, and the
/// moved block and every block of the subtree may be moved. Where one of the two
/// is not listed, it is not found.
pub proof fn move_is_admitted(
    snapshot: SnapshotV,
    moved: Seq<char>,
    target: Seq<char>,
    subtree: Seq<Seq<char>>,
)
    requires
        subtree.contains(moved),
    ensures
        ({
            let error = move_plan_error(snapshot, moved, target, subtree);
            let listed = is_shown(snapshot.items, moved) && is_shown(snapshot.items, target);
            &&& error == Some(ToolError::NotFound) <==> !listed
            &&& error is None <==> listed && (target == snapshot.root_id || shown_may(
                snapshot,
                target,
                MutationKind::Target,
            )) && !subtree.contains(target) && all_may(snapshot, subtree, MutationKind::Move)
            &&& error matches Some(error) ==> error == ToolError::NotFound || error
                == ToolError::Validation
        }),
{
    found_is_first(snapshot.items, moved);
    found_is_first(snapshot.items, target);
    member_may(snapshot, moved, MutationKind::Move);
    member_may(snapshot, target, MutationKind::Target);
    members_may(snapshot, subtree, MutationKind::Move);
    let k = choose|k: int| 0 <= k < subtree.len() && subtree[k] == moved;
    if all_may(snapshot, subtree, MutationKind::Move) {
        assert(shown_may(snapshot, subtree[k], MutationKind::Move));
    }
}

// ---------------------------------------------------------------------------
// Requests on a fetched body
// ---------------------------------------------------------------------------

/// The first fetched block of this identifier is block `i`.
pub open spec fn first_fetched(blocks: Seq<RawBlockV>, id: Seq<char>, i: int) -> bool {
    0 <= i < blocks.len() && blocks[i].id == id && forall|j: int|
        0 <= j < i ==> (#[trigger] blocks[j]).id != id
}

/// Some fetched block has this identifier.
pub open spec fn is_fetched(blocks: Seq<RawBlockV>, id: Seq<char>) -> bool {
    exists|i: int| 0 <= i < blocks.len() && (#[trigger] blocks[i]).id == id
}

/// A fetched block of this identifier may take part in an operation.
pub open spec fn fetched_may(raw: RawV, id: Seq<char>, operation: MutationKind) -> bool {
    exists|i: int| #[trigger]
        first_fetched(raw.blocks, id, i) && may(
            raw.blocks[i].id,
            raw.blocks[i].restrictions,
            raw.blocks[i].content,
            raw.root_id,
            operation,
        )
}

proof fn fetched_is_first(raw: RawV, id: Seq<char>)
    ensures
        is_fetched(raw.blocks, id) <==> raw_find(raw.blocks, id) is Some,
        forall|i: int| #[trigger]
            first_fetched(raw.blocks, id, i) <==> raw_find(raw.blocks, id) == Some(i),
        find(shown_blocks(raw), id) == raw_find(raw.blocks, id),
        is_shown(shown_blocks(raw), id) <==> is_fetched(raw.blocks, id),
{
    raw_find_facts(raw.blocks, id, 0);
    shown_position(raw, id, 0);
    found_is_first(shown_blocks(raw), id);
    if let Some(i) = raw_find(raw.blocks, id) {
        assert(raw.blocks[i].id == id);
    }
    assert forall|i: int| #[trigger] first_fetched(raw.blocks, id, i) implies raw_find(
        raw.blocks,
        id,
    ) == Some(i) by {
        assert(raw.blocks[i].id == id);
    }
}

proof fn shown_as_fetched(raw: RawV, id: Seq<char>, operation: MutationKind)
    ensures
        shown_may(shown_snapshot(raw), id, operation) <==> fetched_may(raw, id, operation),
        member_mutable(shown_snapshot(raw), id, operation) <==> fetched_may(raw, id, operation),
        fetched_may(raw, id, operation) ==> raw_member_admits(raw, id, operation),
        raw_find(raw.blocks, id) matches Some(i) ==> (raw_block_mutable(
            raw.blocks[i],
            raw.root_id,
            operation,
        ) <==> fetched_may(raw, id, operation)),
{
    let snapshot = shown_snapshot(raw);
    fetched_is_first(raw, id);
    found_is_first(snapshot.items, id);
    member_may(snapshot, id, operation);
    raw_find_facts(raw.blocks, id, 0);
    if let Some(i) = raw_find(raw.blocks, id) {
        assert(first_shown(snapshot.items, id, i));
        assert(first_fetched(raw.blocks, id, i));
        assert(snapshot.items[i].id == raw.blocks[i].id);
    }
}

/// Every fetched block of a list may take part in an operation.
pub open spec fn all_fetched_may(
    raw: RawV,
    subtree: Seq<Seq<char>>,
    operation: MutationKind,
) -> bool {
    forall|k: int| 0 <= k < subtree.len() ==> fetched_may(raw, #[trigger] subtree[k], operation)
}

proof fn all_shown_as_fetched(raw: RawV, subtree: Seq<Seq<char>>, operation: MutationKind)
    ensures
        all_may(shown_snapshot(raw), subtree, operation) <==> all_fetched_may(
            raw,
            subtree,
            operation,
        ),
        all_fetched_may(raw, subtree, operation) ==> raw_members_admit(raw, subtree, operation),
{
    let snapshot = shown_snapshot(raw);
    assert forall|k: int| 0 <= k < subtree.len() implies shown_may(
        snapshot,
        #[trigger] subtree[k],
        operation,
    ) == fetched_may(raw, subtree[k], operation) by {
        shown_as_fetched(raw, subtree[k], operation);
    }
    if all_may(snapshot, subtree, operation) {
        assert forall|k: int| 0 <= k < subtree.len() implies fetched_may(
            raw,
            #[trigger] subtree[k],
            operation,
        ) by {
            assert(shown_may(snapshot, subtree[k], operation));
        }
    }
    if all_fetched_may(raw, subtree, operation) {
        assert forall|k: int| 0 <= k < subtree.len() implies shown_may(
            snapshot,
            #[trigger] subtree[k],
            operation,
        ) by {
            assert(fetched_may(raw, subtree[k], operation));
        }
        assert forall|k: int| 0 <= k < subtree.len() implies raw_member_admits(
            raw,
            #[trigger] subtree[k],
            operation,
        ) by {
            assert(fetched_may(raw, subtree[k], operation));
            shown_as_fetched(raw, subtree[k], operation);
        }
    }
}

/// An update of an admitted body goes out exactly where the block is listed, may
/// be edited, and the change is one that a caller may send and that applies to
/// the block. A block that is not listed is not found; anything else is refused.
pub proof fn update_goes_out_where_it_applies(raw: RawV, input: BodyBlockUpdateInput)
    ensures
        ({
            let error = update_plan_error(raw, input);
            &&& error == Some(ToolError::NotFound) <==> !is_fetched(raw.blocks, input.block_id@)
            &&& error is None <==> fetched_may(raw, input.block_id@, MutationKind::Edit)
                && exists|i: int| #[trigger]
                first_fetched(raw.blocks, input.block_id@, i) && requested_change(
                    input.change,
                    raw.blocks[i].content,
                ) is Some && changed_block(shown_blocks(raw)[i], input.change) is Some
            &&& error matches Some(error) ==> error == ToolError::NotFound || error
                == ToolError::Validation
        }),
{
    let id = input.block_id@;
    fetched_is_first(raw, id);
    shown_as_fetched(raw, id, MutationKind::Edit);
    if let Some(i) = raw_find(raw.blocks, id) {
        assert(first_fetched(raw.blocks, id, i));
    }
}

/// A deletion from an admitted body goes out exactly where the block is listed,
/// its subtree can be listed, has the confirmed number of blocks, and every block
/// of it may be removed.
pub proof fn deletion_goes_out_where_confirmed(raw: RawV, input: BodyBlockDeleteInput)
    requires
        valid_entity_id(input.block_id@),
    ensures
        ({
            let error = delete_error(raw, input);
            let listed = subtree_of(raw, input.block_id@);
            &&& error == Some(ToolError::NotFound) <==> !is_fetched(raw.blocks, input.block_id@)
            &&& error is None <==> is_fetched(raw.blocks, input.block_id@) && (listed matches Ok(
                subtree,
            ) && subtree.len() == input.expected_subtree_blocks && all_fetched_may(
                raw,
                subtree,
                MutationKind::Remove,
            ))
            &&& is_fetched(raw.blocks, input.block_id@) ==> (listed matches Err(failure) ==> error
                == Some(failure))
            &&& listed is Ok && is_fetched(raw.blocks, input.block_id@) ==> (error matches Some(
                error,
            ) ==> error == ToolError::Validation)
        }),
{
    let id = input.block_id@;
    fetched_is_first(raw, id);
    shown_as_fetched(raw, id, MutationKind::Remove);
    walk_errors(raw, id);
    if let Ok(subtree) = subtree_of(raw, id) {
        subtree_is_closed_under_children(raw, id);
        deletion_is_admitted(shown_snapshot(raw), subtree, input.expected_subtree_blocks as int);
        all_shown_as_fetched(raw, subtree, MutationKind::Remove);
        if all_fetched_may(raw, subtree, MutationKind::Remove) {
            assert(fetched_may(raw, subtree[0], MutationKind::Remove));
        }
    }
}

proof fn walk_errors(raw: RawV, id: Seq<char>)
    ensures
        subtree_of(raw, id) matches Err(error) ==> error == ToolError::Upstream || error
            == ToolError::BoundedResult,
{
    walk_fails_so(raw.blocks, seq![id], MAX_BODY_BLOCKS as nat);
}

proof fn walk_fails_so(blocks: Seq<RawBlockV>, stack: Seq<Seq<char>>, fuel: nat)
    ensures
        raw_walk(blocks, stack, fuel) matches Err(error) ==> error == ToolError::Upstream || error
            == ToolError::BoundedResult,
    decreases fuel,
{
    if stack.len() > 0 && fuel > 0 {
        if let Some(i) = raw_find(blocks, stack.last()) {
            walk_fails_so(
                blocks,
                stack.drop_last() + blocks[i].children.reverse(),
                (fuel - 1) as nat,
            );
        }
    }
}

/// A move inside an admitted body goes out exactly where the block and the target
/// are listed, the subtree of the block can be listed, the target is the root or
/// admits being a target and lies outside the subtree, and every block of the
/// subtree may be moved. The root takes a moved block whatever its own
/// restrictions say.
pub proof fn move_goes_out_where_it_may(raw: RawV, input: BodyBlockMoveInput)
    ensures
        ({
            let error = move_error(raw, input);
            let moved = input.block_id@;
            let target = input.target_block_id@;
            let both = is_fetched(raw.blocks, moved) && is_fetched(raw.blocks, target);
            &&& error == Some(ToolError::NotFound) <==> !both
            &&& error is None <==> both && (subtree_of(raw, moved) matches Ok(subtree) && (target
                == raw.root_id || fetched_may(raw, target, MutationKind::Target))
                && !subtree.contains(target) && all_fetched_may(raw, subtree, MutationKind::Move))
            &&& both ==> (subtree_of(raw, moved) matches Err(failure) ==> error == Some(failure))
            &&& both && subtree_of(raw, moved) is Ok ==> (error matches Some(error) ==> error
                == ToolError::Validation)
        }),
{
    let moved = input.block_id@;
    let target = input.target_block_id@;
    fetched_is_first(raw, moved);
    fetched_is_first(raw, target);
    shown_as_fetched(raw, moved, MutationKind::Move);
    shown_as_fetched(raw, target, MutationKind::Target);
    raw_find_facts(raw.blocks, moved, 0);
    raw_find_facts(raw.blocks, target, 0);
    walk_errors(raw, moved);
    if let Ok(subtree) = subtree_of(raw, moved) {
        subtree_is_closed_under_children(raw, moved);
        assert(subtree[0] == moved);
        move_is_admitted(shown_snapshot(raw), moved, target, subtree);
        all_shown_as_fetched(raw, subtree, MutationKind::Move);
        if all_fetched_may(raw, subtree, MutationKind::Move) {
            assert(fetched_may(raw, subtree[0], MutationKind::Move));
        }
    }
}

/// A creation in a fetched body goes out exactly where the body can be shown and
/// is the expected one, the target is the root and takes a child or is another
/// listed block that admits being a target, and the block is one that a caller
/// may send. A body that is not the expected one is a conflict.
pub proof fn creation_goes_out_where_it_may(
    raw: RawV,
    space_id: Seq<char>,
    input: BodyBlockCreateInput,
)
    requires
        snapshot_error(raw) is None,
    ensures
        ({
            let error = create_error(raw, space_id, input);
            let target = input.target_block_id@;
            let expected = raw.space_id == space_id && raw.object_id == input.object_id@
                && shown_snapshot(raw).hash == input.expected_snapshot_hash@;
            let below = input.position == WireInsertPosition::FirstChild || input.position
                == WireInsertPosition::LastChild;
            &&& error == Some(ToolError::Conflict) <==> !expected
            &&& expected ==> (error == Some(ToolError::NotFound) <==> !is_fetched(
                raw.blocks,
                target,
            ))
            &&& error is None <==> expected && is_fetched(raw.blocks, target) && (if target
                == raw.root_id {
                below
            } else {
                fetched_may(raw, target, MutationKind::Target)
            }) && block_accepted(input.block)
        }),
{
    let target = input.target_block_id@;
    fetched_is_first(raw, target);
    shown_as_fetched(raw, target, MutationKind::Target);
    raw_find_facts(raw.blocks, target, 0);
    creation_target_is_admitted(shown_snapshot(raw), target, input.position);
}

/// A fetched body is admitted to a mutation exactly where it can be shown, is of
/// the object that was asked for, and has the hash that the caller has seen. A
/// body of another object is the service's failure; another hash is a conflict.
pub proof fn body_is_admitted_where_expected(
    raw: RawV,
    space_id: Seq<char>,
    object_id: Seq<char>,
    expected: Seq<char>,
)
    ensures
        ({
            let error = admission_error(raw, space_id, object_id, expected);
            let own = raw.space_id == space_id && raw.object_id == object_id;
            &&& snapshot_error(raw) is Some ==> error == snapshot_error(raw)
            &&& snapshot_error(raw) is None ==> {
                &&& error == Some(ToolError::Upstream) <==> !own
                &&& error == Some(ToolError::Conflict) <==> own && shown_snapshot(raw).hash
                    != expected
                &&& error is None <==> own && shown_snapshot(raw).hash == expected
            }
        }),
{
}

} // verus!
