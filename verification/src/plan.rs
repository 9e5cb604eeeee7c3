//! Which mutations a body admits: targets, restrictions and whole subtrees.

use crate::domain::{valid_entity_id, EntityId};
use crate::error::ToolError;
use crate::model::{
    BlockProjection, BlockSummary, ContentV, ProjectedSnapshot, RestrictionsProjection, SnapshotV,
    SummaryV,
};
use crate::projection::{
    raw_find, BlockContent, BodyBlock, BodySnapshot, RawBlockV, RawV,
    MAX_BODY_BLOCKS,
};
use crate::text::{contains_same, views, Same};
use crate::tree::{find, find_block, find_block_text, find_facts};
use crate::wire::{WireInsertPosition, WireTextStyle};
use vstd::prelude::*;

verus! {

/// What is about to be done with a block.
#[derive(Clone, Copy, Debug, PartialEq, Eq, Structural)]
pub enum MutationKind {
    Edit,
    Remove,
    Move,
    Target,
}

/// Content that no caller may touch: structure, files, opaque blocks, and the
/// styles that a caller cannot write.
pub open spec fn untouchable(content: ContentV) -> bool {
    match content {
        ContentV::Layout { .. } => true,
        ContentV::FeaturedRelations => true,
        ContentV::Table => true,
        ContentV::TableRow { .. } => true,
        ContentV::TableColumn => true,
        ContentV::File { .. } => true,
        ContentV::Unsupported { .. } => true,
        ContentV::Text { style, .. } => style == WireTextStyle::Title || style
            == WireTextStyle::Description || style == WireTextStyle::Heading4,
        _ => false,
    }
}

/// Whether restrictions deny a mutation.
pub open spec fn denies(restrictions: RestrictionsProjection, operation: MutationKind) -> bool {
    match operation {
        MutationKind::Edit => restrictions.edit,
        MutationKind::Remove => restrictions.remove,
        MutationKind::Move => restrictions.drag,
        MutationKind::Target => restrictions.drop_on,
    }
}

/// Restrictions and content admit a mutation.
pub open spec fn admits(
    restrictions: RestrictionsProjection,
    content: ContentV,
    operation: MutationKind,
) -> bool {
    !denies(restrictions, operation) && !untouchable(content)
}

fn is_protected_style(style: WireTextStyle) -> (r: bool)
    ensures
        r == (style == WireTextStyle::Title || style == WireTextStyle::Description || style
            == WireTextStyle::Heading4),
{
    match style {
        WireTextStyle::Title | WireTextStyle::Description | WireTextStyle::Heading4 => true,
        _ => false,
    }
}

/// Tests for content that no caller may touch.
pub fn projected_structural_or_opaque(content: &BlockProjection) -> (r: bool)
    ensures
        r == untouchable(content@),
{
    match content {
        BlockProjection::Layout { .. } => true,
        BlockProjection::FeaturedRelations => true,
        BlockProjection::Table => true,
        BlockProjection::TableRow { .. } => true,
        BlockProjection::TableColumn => true,
        BlockProjection::File { .. } => true,
        BlockProjection::Unsupported { .. } => true,
        BlockProjection::Text { style, .. } => is_protected_style(*style),
        _ => false,
    }
}

/// Tests for fetched content that no caller may touch.
pub fn structural_or_opaque(content: &BlockContent) -> (r: bool)
    ensures
        r == untouchable(content@),
{
    match content {
        BlockContent::Layout(_) => true,
        BlockContent::FeaturedRelations => true,
        BlockContent::Table => true,
        BlockContent::TableRow { .. } => true,
        BlockContent::TableColumn => true,
        BlockContent::File(_) => true,
        BlockContent::Unsupported(_) => true,
        BlockContent::Text(text) => is_protected_style(text.style),
        _ => false,
    }
}

fn restriction_denies(restrictions: RestrictionsProjection, operation: MutationKind) -> (r: bool)
    ensures
        r == denies(restrictions, operation),
{
    match operation {
        MutationKind::Edit => restrictions.edit,
        MutationKind::Remove => restrictions.remove,
        MutationKind::Move => restrictions.drag,
        MutationKind::Target => restrictions.drop_on,
    }
}

/// A projected block that is not the root and admits the mutation.
pub open spec fn block_mutable(block: SummaryV, root: Seq<char>, operation: MutationKind) -> bool {
    block.id != root && admits(block.restrictions, block.content, operation)
}

/// A fetched block that is not the root and admits the mutation.
pub open spec fn raw_block_mutable(
    block: RawBlockV,
    root: Seq<char>,
    operation: MutationKind,
) -> bool {
    block.id != root && admits(block.restrictions, block.content, operation)
}

/// Refuses a fetched block that may not be mutated so.
pub fn mutable_block(block: &BodyBlock, root: &String, operation: MutationKind) -> (r: Result<
    (),
    ToolError,
>)
    ensures
        r == (if raw_block_mutable(block@, root@, operation) {
            Ok::<(), ToolError>(())
        } else {
            Err(ToolError::Validation)
        }),
{
    if block.id == *root || restriction_denies(block.restrictions, operation)
        || structural_or_opaque(&block.content) {
        Err(ToolError::validation())
    } else {
        Ok(())
    }
}

/// Refuses a projected block that may not be mutated so.
pub fn projected_mutable_block(
    block: &BlockSummary,
    root: &EntityId,
    operation: MutationKind,
) -> (r: Result<(), ToolError>)
    ensures
        r == (if block_mutable(block@, root@, operation) {
            Ok::<(), ToolError>(())
        } else {
            Err(ToolError::Validation)
        }),
{
    if block.id.same(root) || restriction_denies(block.restrictions, operation)
        || projected_structural_or_opaque(&block.content) {
        Err(ToolError::validation())
    } else {
        Ok(())
    }
}

/// Positions that need a parent of the target.
pub open spec fn beside(position: WireInsertPosition) -> bool {
    position == WireInsertPosition::Before || position == WireInsertPosition::After
}

/// Accepts a fetched target of a creation: the root takes children only, any
/// other block has to admit being a target.
pub fn validate_create_target(
    target: &BodyBlock,
    root: &String,
    position: WireInsertPosition,
) -> (r: Result<(), ToolError>)
    ensures
        r == (if (target@.id == root@ && !beside(position)) || raw_block_mutable(
            target@,
            root@,
            MutationKind::Target,
        ) {
            Ok::<(), ToolError>(())
        } else {
            Err(ToolError::Validation)
        }),
{
    if target.id == *root {
        return match position {
            WireInsertPosition::Before | WireInsertPosition::After => Err(ToolError::validation()),
            _ => Ok(()),
        };
    }
    mutable_block(target, root, MutationKind::Target)
}

/// Finds a projected block.
pub fn projected_block<'a>(snapshot: &'a ProjectedSnapshot, id: &EntityId) -> (r: Result<
    &'a BlockSummary,
    ToolError,
>)
    ensures
        match r {
            Ok(block) => find(snapshot@.items, id@) matches Some(i) && block@
                == snapshot@.items[i],
            Err(error) => find(snapshot@.items, id@) is None && error == ToolError::NotFound,
        },
{
    match find_block(&snapshot.items, id) {
        Some(i) => {
            assert(snapshot@.items[i as int] == snapshot.items@[i as int]@);
            Ok(&snapshot.items[i])
        },
        None => Err(ToolError::not_found()),
    }
}

/// Why a creation beside or below a target is refused, if so.
pub open spec fn create_plan_error(
    snapshot: SnapshotV,
    target: Seq<char>,
    position: WireInsertPosition,
) -> Option<ToolError> {
    match find(snapshot.items, target) {
        None => Some(ToolError::NotFound),
        Some(i) => if snapshot.items[i].id == snapshot.root_id {
            if beside(position) {
                Some(ToolError::Validation)
            } else {
                None
            }
        } else if block_mutable(snapshot.items[i], snapshot.root_id, MutationKind::Target) {
            None
        } else {
            Some(ToolError::Validation)
        },
    }
}

/// An optional failure as a result.
pub open spec fn refused(error: Option<ToolError>) -> Result<(), ToolError> {
    match error {
        Some(error) => Err(error),
        None => Ok(()),
    }
}

/// Accepts the target of a creation in a projected body.
pub fn validate_projected_create_plan(
    snapshot: &ProjectedSnapshot,
    target_id: &EntityId,
    position: WireInsertPosition,
) -> (r: Result<(), ToolError>)
    ensures
        r == refused(create_plan_error(snapshot@, target_id@, position)),
{
    let target: &BlockSummary = match projected_block(snapshot, target_id) {
        Ok(target) => target,
        Err(error) => {
            return Err(error);
        },
    };
    if target.id.same(&snapshot.root_id) {
        return match position {
            WireInsertPosition::Before | WireInsertPosition::After => Err(ToolError::validation()),
            _ => Ok(()),
        };
    }
    projected_mutable_block(target, &snapshot.root_id, MutationKind::Target)
}

/// A listed block under this identifier admits the mutation.
pub open spec fn member_mutable(
    snapshot: SnapshotV,
    id: Seq<char>,
    operation: MutationKind,
) -> bool {
    find(snapshot.items, id) matches Some(i) && block_mutable(
        snapshot.items[i],
        snapshot.root_id,
        operation,
    )
}

/// Every block of a subtree admits the mutation.
pub open spec fn members_mutable(
    snapshot: SnapshotV,
    subtree: Seq<Seq<char>>,
    operation: MutationKind,
) -> bool {
    forall|k: int|
        0 <= k < subtree.len() ==> member_mutable(snapshot, #[trigger] subtree[k], operation)
}

fn projected_members_mutable(
    snapshot: &ProjectedSnapshot,
    subtree: &Vec<String>,
    operation: MutationKind,
) -> (r: bool)
    ensures
        r == members_mutable(snapshot@, views(subtree@), operation),
{
    let ghost list = views(subtree@);
    let mut k: usize = 0;
    while k < subtree.len()
        invariant
            k <= subtree.len(),
            list == views(subtree@),
            forall|m: int|
                0 <= m < k ==> member_mutable(snapshot@, #[trigger] list[m], operation),
        decreases subtree.len() - k,
    {
        assert(list[k as int] == subtree@[k as int]@);
        let admitted: bool = match find_block_text(&snapshot.items, &subtree[k]) {
            Some(i) => {
                assert(snapshot@.items[i as int] == snapshot.items@[i as int]@);
                projected_mutable_block(&snapshot.items[i], &snapshot.root_id, operation).is_ok()
            },
            None => false,
        };
        if !admitted {
            assert(!member_mutable(snapshot@, list[k as int], operation));
            return false;
        }
        k += 1;
    }
    true
}

/// Why the deletion of a subtree is refused, if so.
pub open spec fn delete_plan_error(
    snapshot: SnapshotV,
    subtree: Seq<Seq<char>>,
    expected_blocks: int,
) -> Option<ToolError> {
    if subtree.len() == 0 {
        Some(ToolError::Validation)
    } else if !valid_entity_id(subtree[0]) {
        Some(ToolError::Upstream)
    } else if find(snapshot.items, subtree[0]) is None {
        Some(ToolError::NotFound)
    } else if subtree.len() != expected_blocks || !members_mutable(
        snapshot,
        subtree,
        MutationKind::Remove,
    ) {
        Some(ToolError::Validation)
    } else {
        None
    }
}

/// Accepts the deletion of a subtree of exactly the confirmed size, every block
/// of which may be removed.
pub fn validate_projected_delete_plan(
    snapshot: &ProjectedSnapshot,
    subtree: &Vec<String>,
    expected_subtree_blocks: u16,
) -> (r: Result<(), ToolError>)
    ensures
        r == refused(
            delete_plan_error(snapshot@, views(subtree@), expected_subtree_blocks as int),
        ),
{
    let ghost list = views(subtree@);
    if subtree.len() == 0 {
        assert(list.len() == 0);
        return Err(ToolError::validation());
    }
    assert(list[0] == subtree@[0]@);
    let root: EntityId = match EntityId::new(subtree[0].as_str()) {
        Ok(root) => root,
        Err(_) => {
            return Err(ToolError::upstream());
        },
    };
    let block: &BlockSummary = match projected_block(snapshot, &root) {
        Ok(block) => block,
        Err(error) => {
            return Err(error);
        },
    };
    if let Err(error) = projected_mutable_block(block, &snapshot.root_id, MutationKind::Remove) {
        assert(!member_mutable(snapshot@, list[0], MutationKind::Remove));
        return Err(error);
    }
    if subtree.len() != expected_subtree_blocks as usize || !projected_members_mutable(
        snapshot,
        subtree,
        MutationKind::Remove,
    ) {
        return Err(ToolError::validation());
    }
    Ok(())
}

/// Why the move of a subtree is refused, if so.
pub open spec fn move_plan_error(
    snapshot: SnapshotV,
    moved: Seq<char>,
    target: Seq<char>,
    subtree: Seq<Seq<char>>,
) -> Option<ToolError> {
    if find(snapshot.items, moved) is None || find(snapshot.items, target) is None {
        Some(ToolError::NotFound)
    } else if !member_mutable(snapshot, moved, MutationKind::Move) || (target != snapshot.root_id
        && !member_mutable(snapshot, target, MutationKind::Target)) || moved == target
        || subtree.contains(target) || !members_mutable(snapshot, subtree, MutationKind::Move) {
        Some(ToolError::Validation)
    } else {
        None
    }
}

/// Accepts the move of a subtree, every block of which may be moved, to a
/// target outside of it.
pub fn validate_projected_move_plan(
    snapshot: &ProjectedSnapshot,
    moved_id: &EntityId,
    target_id: &EntityId,
    subtree: &Vec<String>,
) -> (r: Result<(), ToolError>)
    ensures
        r == refused(move_plan_error(snapshot@, moved_id@, target_id@, views(subtree@))),
{
    proof {
        find_facts(snapshot@.items, target_id@);
    }
    let moved: &BlockSummary = match projected_block(snapshot, moved_id) {
        Ok(moved) => moved,
        Err(error) => {
            return Err(error);
        },
    };
    let target: &BlockSummary = match projected_block(snapshot, target_id) {
        Ok(target) => target,
        Err(error) => {
            return Err(error);
        },
    };
    if let Err(error) = projected_mutable_block(moved, &snapshot.root_id, MutationKind::Move) {
        return Err(error);
    }
    if !target.id.same(&snapshot.root_id) {
        if let Err(error) = projected_mutable_block(
            target,
            &snapshot.root_id,
            MutationKind::Target,
        ) {
            return Err(error);
        }
    }
    if moved_id.same(target_id) || contains_same(subtree, &target_id.as_str().to_owned())
        || !projected_members_mutable(snapshot, subtree, MutationKind::Move) {
        return Err(ToolError::validation());
    }
    Ok(())
}

/// A fetched block under this identifier admits the mutation.
pub open spec fn raw_member_admits(raw: RawV, id: Seq<char>, operation: MutationKind) -> bool {
    raw_find(raw.blocks, id) matches Some(i) && admits(
        raw.blocks[i].restrictions,
        raw.blocks[i].content,
        operation,
    )
}

/// Every fetched block of a subtree admits the mutation.
pub open spec fn raw_members_admit(
    raw: RawV,
    subtree: Seq<Seq<char>>,
    operation: MutationKind,
) -> bool {
    forall|k: int|
        0 <= k < subtree.len() ==> raw_member_admits(raw, #[trigger] subtree[k], operation)
}

/// Tests that every fetched block of a subtree admits the mutation.
pub fn subtree_is_mutable(
    snapshot: &BodySnapshot,
    subtree: &Vec<String>,
    operation: MutationKind,
) -> (r: bool)
    ensures
        r == raw_members_admit(snapshot@, views(subtree@), operation),
{
    let ghost list = views(subtree@);
    let ghost raw = snapshot@;
    let mut k: usize = 0;
    while k < subtree.len()
        invariant
            k <= subtree.len(),
            list == views(subtree@),
            raw == snapshot@,
            forall|m: int| 0 <= m < k ==> raw_member_admits(raw, #[trigger] list[m], operation),
        decreases subtree.len() - k,
    {
        assert(list[k as int] == subtree@[k as int]@);
        let admitted: bool = match snapshot.position(&subtree[k]) {
            Some(i) => {
                let block: &BodyBlock = &snapshot.blocks[i];
                assert(raw.blocks[i as int] == block@);
                !restriction_denies(block.restrictions, operation) && !structural_or_opaque(
                    &block.content,
                )
            },
            None => false,
        };
        if !admitted {
            assert(!raw_member_admits(raw, list[k as int], operation));
            return false;
        }
        k += 1;
    }
    true
}

/// Accepts the deletion of a fetched block whose subtree has exactly the
/// confirmed size and may be removed.
pub fn validate_delete_plan(
    target: &BodyBlock,
    root: &String,
    subtree_blocks: usize,
    expected_subtree_blocks: u16,
    subtree_mutable: bool,
) -> (r: Result<(), ToolError>)
    ensures
        r == (if raw_block_mutable(target@, root@, MutationKind::Remove) && subtree_blocks
            == expected_subtree_blocks && subtree_mutable {
            Ok::<(), ToolError>(())
        } else {
            Err(ToolError::Validation)
        }),
{
    if let Err(error) = mutable_block(target, root, MutationKind::Remove) {
        return Err(error);
    }
    if subtree_blocks != expected_subtree_blocks as usize || !subtree_mutable {
        return Err(ToolError::validation());
    }
    Ok(())
}

/// Accepts the move of a fetched block to a target outside its subtree.
pub fn validate_move_plan(
    moved: &BodyBlock,
    target: &BodyBlock,
    root: &String,
    subtree: &Vec<String>,
    subtree_mutable: bool,
) -> (r: Result<(), ToolError>)
    ensures
        r == (if raw_block_mutable(moved@, root@, MutationKind::Move) && (target@.id == root@
            || raw_block_mutable(target@, root@, MutationKind::Target)) && moved@.id != target@.id
            && !views(subtree@).contains(target@.id) && subtree_mutable {
            Ok::<(), ToolError>(())
        } else {
            Err(ToolError::Validation)
        }),
{
    if let Err(error) = mutable_block(moved, root, MutationKind::Move) {
        return Err(error);
    }
    if target.id != *root {
        if let Err(error) = mutable_block(target, root, MutationKind::Target) {
            return Err(error);
        }
    }
    if moved.id == target.id || contains_same(subtree, &target.id) || !subtree_mutable {
        return Err(ToolError::validation());
    }
    Ok(())
}

/// Depth-first identifiers below a stack of identifiers, of at most `fuel`
/// blocks: the failure where a block is not listed or the walk is longer.
pub open spec fn raw_walk(blocks: Seq<RawBlockV>, stack: Seq<Seq<char>>, fuel: nat) -> Result<
    Seq<Seq<char>>,
    ToolError,
>
    decreases fuel,
{
    if stack.len() == 0 {
        Ok(Seq::empty())
    } else if fuel == 0 {
        Err(ToolError::BoundedResult)
    } else {
        match raw_find(blocks, stack.last()) {
            None => Err(ToolError::Upstream),
            Some(i) => match raw_walk(
                blocks,
                stack.drop_last() + blocks[i].children.reverse(),
                (fuel - 1) as nat,
            ) {
                Ok(rest) => Ok(seq![stack.last()] + rest),
                Err(error) => Err(error),
            },
        }
    }
}

/// Identifiers of a block's subtree in depth-first order.
pub fn subtree_ids(snapshot: &BodySnapshot, root: &String) -> (r: Result<Vec<String>, ToolError>)
    ensures
        match r {
            Ok(found) => raw_walk(snapshot@.blocks, seq![root@], MAX_BODY_BLOCKS as nat) == Ok::<
                Seq<Seq<char>>,
                ToolError,
            >(views(found@)) && found.len() <= MAX_BODY_BLOCKS,
            Err(error) => raw_walk(snapshot@.blocks, seq![root@], MAX_BODY_BLOCKS as nat) == Err::<
                Seq<Seq<char>>,
                ToolError,
            >(error),
        },
{
    let ghost blocks = snapshot@.blocks;
    let ghost full = raw_walk(blocks, seq![root@], MAX_BODY_BLOCKS as nat);
    let mut found: Vec<String> = Vec::new();
    let mut stack: Vec<String> = Vec::new();
    stack.push(root.clone());
    assert(views(stack@) =~= seq![root@]);
    assert(views(found@) =~= Seq::<Seq<char>>::empty());
    proof {
        if let Ok(rest) = full {
            assert(views(found@) + rest =~= rest);
        }
    }
    while stack.len() > 0
        invariant
            blocks == snapshot@.blocks,
            full == raw_walk(blocks, seq![root@], MAX_BODY_BLOCKS as nat),
            found.len() <= MAX_BODY_BLOCKS,
            full == (match raw_walk(
                blocks,
                views(stack@),
                (MAX_BODY_BLOCKS - found.len()) as nat,
            ) {
                Ok(rest) => Ok(views(found@) + rest),
                Err(error) => Err(error),
            }),
        decreases MAX_BODY_BLOCKS - found.len(), stack.len(),
    {
        if found.len() >= MAX_BODY_BLOCKS {
            assert(views(stack@).len() > 0);
            return Err(ToolError::bounded_result());
        }
        let ghost before_stack = stack@;
        let ghost before_found = found@;
        assert(views(before_stack).len() == before_stack.len());
        let id: String = match stack.pop() {
            Some(id) => id,
            None => {
                return Err(ToolError::upstream());
            },
        };
        assert(views(before_stack).last() == id@);
        let i: usize = match snapshot.position(&id) {
            Some(i) => i,
            None => {
                return Err(ToolError::upstream());
            },
        };
        let children: &Vec<String> = &snapshot.blocks[i].children;
        let ghost kids = views(children@);
        assert(blocks[i as int].children == kids);
        let ghost gid = id@;
        found.push(id);
        let mut k: usize = children.len();
        while k > 0
            invariant
                k <= children.len(),
                kids == views(children@),
                before_stack.len() > 0,
                views(stack@) =~= views(before_stack).drop_last() + kids.subrange(
                    k as int,
                    kids.len() as int,
                ).reverse(),
            decreases k,
        {
            k -= 1;
            let ghost prior_stack = stack@;
            stack.push(children[k].clone());
            assert(views(stack@) =~= views(prior_stack).push(kids[k as int]));
            assert(kids.subrange(k as int, kids.len() as int).reverse() =~= kids.subrange(
                k as int + 1,
                kids.len() as int,
            ).reverse().push(kids[k as int]));
        }
        proof {
            assert(kids.subrange(0, kids.len() as int) =~= kids);
            assert(views(found@) =~= views(before_found).push(gid));
            if let Ok(rest) = raw_walk(
                blocks,
                views(stack@),
                (MAX_BODY_BLOCKS - found.len()) as nat,
            ) {
                assert(views(before_found) + (seq![gid] + rest) =~= views(found@) + rest);
            }
        }
    }
    assert(views(stack@).len() == 0);
    assert(views(found@) + Seq::<Seq<char>>::empty() =~= views(found@));
    Ok(found)
}

} // verus!
