//! What every verified mutation of a body keeps and changes, what every stopped
//! plan reports, and what a retry of a creation is answered.

use crate::attempts::{
    begun, cached_result, kept_result_is_always_given_again, pending_lookup, pending_object,
    recovered_store, running, stepped_through, PendingV, StoreStep, StoreV,
};
use crate::catalog::{offered_names, OptionalRegistryTool};
use crate::change::{changed_block, changed_content};
use crate::chat_add::{
    begun_chat_add, chat_action, chat_disposition, chat_fingerprint_binds_request, chat_route, chat_stepped,
    chat_stepped_through, replay_gives, CandidateV, ChatAddOutcome, ChatAddProgress, ChatBeginAction,
    ChatMessage, ChatRoute, ChatStateV, ChatStep, MessageDetail, NormalizedChatAdd,
};
use crate::compose::{block_accepted, requested_block, requested_change};
use crate::creation::{
    create_transition, created_as_requested, insertion_is_listed, insertion_point, kept_at,
    kept_by_create,
};
use crate::input::{BlockChangeInput, NewBlockInput};
use crate::domain::{valid_color, valid_entity_id, valid_relation_key};
use crate::model::{ContentV, SnapshotV, SummaryV};
use crate::projection::content_error;
use crate::request_binding::keys_valid;
use crate::error::ToolError;
use crate::rich_flow::{
    rich_action, write_step_wf, write_target, BeginAction, BeginOutcome, CreateDisposition,
    PendingLookup, RichResult, WriteStep,
};
use crate::rich_plan::entry_of_facts;
use crate::text::{opt_view, views};
use crate::marks::{mark_accepted, mark_shown};
use crate::relocation::{
    kept_by_move, move_plan, move_transition, moved_children, moved_order, moved_walk,
    rooted_member, rooted_tree, slot_from, visits_below, without_moved, MoveV, VisitV,
};
use crate::rich::{
    index_byte, index_bytes, next_write, scheduler_wf, stopped_write, OutputV, RichApplied,
    RichWriteStop, SchedulerV,
};
use crate::transition::{
    content_kept, delete_transition, kept_by_delete, kept_by_update, presentation_kept, survivors,
    survivors_are_kept, update_transition, updated_at,
};
use crate::tree::{
    child_at, child_at_facts, child_total_bounds, find, find_facts, find_unique, ids, sibling_order,
    slots_filled, unique_ids,
};
use crate::wire::WireInsertPosition;
use vstd::prelude::*;

verus! {

// ---------------------------------------------------------------------------
// Update
// ---------------------------------------------------------------------------

/// An accepted update leaves the tree as it was and changes one block: every
/// block stands where it stood, under its parent and with its children, the
/// addressed block is exactly the changed one, and of every other block nothing
/// changed but the size that an opaque root reports.
pub proof fn update_changes_one_block(
    before: SnapshotV,
    after: SnapshotV,
    block_id: Seq<char>,
    change: BlockChangeInput,
)
    requires
        update_transition(before, after, block_id, change),
        unique_ids(before.items),
    ensures
        after.items.len() == before.items.len(),
        forall|i: int|
            0 <= i < before.items.len() ==> {
                &&& (#[trigger] after.items[i]).id == before.items[i].id
                &&& after.items[i].parent_id == before.items[i].parent_id
                &&& after.items[i].sibling_index == before.items[i].sibling_index
                &&& after.items[i].depth == before.items[i].depth
                &&& after.items[i].child_count == before.items[i].child_count
                &&& after.items[i].restrictions == before.items[i].restrictions
                &&& if before.items[i].id == block_id {
                    changed_block(before.items[i], change) == Some(after.items[i])
                } else {
                    kept_by_update(before.items[i], after.items[i], before.root_id)
                }
            },
{
    let target = find(before.items, block_id)->0;
    find_facts(before.items, block_id);
    assert(ids(before.items).len() == ids(after.items).len());
    assert forall|i: int| 0 <= i < before.items.len() implies {
        &&& (#[trigger] after.items[i]).id == before.items[i].id
        &&& after.items[i].parent_id == before.items[i].parent_id
        &&& after.items[i].sibling_index == before.items[i].sibling_index
        &&& after.items[i].depth == before.items[i].depth
        &&& after.items[i].child_count == before.items[i].child_count
        &&& after.items[i].restrictions == before.items[i].restrictions
        &&& if before.items[i].id == block_id {
            changed_block(before.items[i], change) == Some(after.items[i])
        } else {
            kept_by_update(before.items[i], after.items[i], before.root_id)
        }
    } by {
        assert(ids(before.items)[i] == ids(after.items)[i]);
        assert(updated_at(before, after, target, change, i));
        if i != target {
            assert(ids(before.items)[i] != ids(before.items)[target]);
            find_unique(after.items, i);
        }
    }
}

// ---------------------------------------------------------------------------
// Delete
// ---------------------------------------------------------------------------

/// An accepted deletion removes exactly the subtree: a block is listed
/// afterwards if and only if it was listed before and is not of the subtree.
pub proof fn delete_removes_exactly_the_subtree(
    before: SnapshotV,
    after: SnapshotV,
    subtree: Seq<Seq<char>>,
)
    requires
        delete_transition(before, after, subtree),
    ensures
        forall|id: Seq<char>|
            (#[trigger] find(after.items, id) is Some) <==> find(before.items, id) is Some
                && !subtree.contains(id),
        after.items.len() + subtree.len() == before.items.len(),
{
    let n = before.items.len() as int;
    let left = survivors(before.items, subtree, n);
    survivors_are_kept(before.items, subtree, n);
    find_facts(before.items, subtree[0]);
    let parent = before.items[find(before.items, subtree[0])->0].parent_id->0;
    let slot = before.items[find(before.items, subtree[0])->0].sibling_index;
    assert forall|j: int| 0 <= j < left.len() implies (#[trigger] after.items[j]).id
        == before.items[left[j]].id by {
        assert(kept_by_delete(before.items[left[j]], after.items[j], parent, slot));
    }
    assert forall|id: Seq<char>|
        (#[trigger] find(after.items, id) is Some) <==> find(before.items, id) is Some
            && !subtree.contains(id) by {
        find_facts(after.items, id);
        find_facts(before.items, id);
        if let Some(j) = find(after.items, id) {
            assert(after.items[j].id == before.items[left[j]].id);
            assert(before.items[left[j]].id == id);
        }
        if find(before.items, id) is Some && !subtree.contains(id) {
            let i = find(before.items, id)->0;
            assert(!subtree.contains(before.items[i].id));
            assert(left.contains(i));
            let k = choose|k: int| 0 <= k < left.len() && left[k] == i;
            assert(after.items[k].id == id);
        }
    }
    let all = ids(before.items).to_set();
    let kept = ids(after.items).to_set();
    let gone = subtree.to_set();
    ids(before.items).unique_seq_to_set();
    ids(after.items).unique_seq_to_set();
    subtree.unique_seq_to_set();
    assert forall|id: Seq<char>| all.contains(id) <==> find(before.items, id) is Some by {
        find_facts(before.items, id);
        if let Some(i) = find(before.items, id) {
            assert(ids(before.items)[i] == id);
        }
        if all.contains(id) {
            let i = choose|i: int|
                0 <= i < ids(before.items).len() && ids(before.items)[i] == id;
            assert(before.items[i].id == id);
        }
    }
    assert forall|id: Seq<char>| kept.contains(id) <==> find(after.items, id) is Some by {
        find_facts(after.items, id);
        if let Some(i) = find(after.items, id) {
            assert(ids(after.items)[i] == id);
        }
        if kept.contains(id) {
            let i = choose|i: int| 0 <= i < ids(after.items).len() && ids(after.items)[i] == id;
            assert(after.items[i].id == id);
        }
    }
    assert forall|id: Seq<char>| gone.contains(id) implies all.contains(id) by {
        let k = choose|k: int| 0 <= k < subtree.len() && subtree[k] == id;
        assert(find(before.items, subtree[k]) is Some);
    }
    assert(kept + gone =~= all);
    assert(kept.disjoint(gone));
    vstd::set_lib::lemma_set_disjoint_lens(kept, gone);
}

/// What an accepted deletion leaves stands in the order it stood in, keeps its
/// parent and depth, and keeps its content but for the size that an opaque
/// parent of the removed block reports.
pub proof fn delete_keeps_the_rest(
    before: SnapshotV,
    after: SnapshotV,
    subtree: Seq<Seq<char>>,
    i: int,
)
    requires
        delete_transition(before, after, subtree),
        0 <= i < before.items.len(),
        !subtree.contains(before.items[i].id),
    ensures
        find(after.items, before.items[i].id) matches Some(j) && j <= i && {
            let removed = before.items[find(before.items, subtree[0])->0];
            kept_by_delete(
                before.items[i],
                after.items[j],
                removed.parent_id->0,
                removed.sibling_index,
            )
        },
        forall|k: int|
            0 <= k < i && !subtree.contains((#[trigger] before.items[k]).id) ==> (find(
                after.items,
                before.items[k].id,
            ) matches Some(h) && h < find(after.items, before.items[i].id)->0),
{
    let n = before.items.len() as int;
    let left = survivors(before.items, subtree, n);
    survivors_are_kept(before.items, subtree, n);
    let removed = before.items[find(before.items, subtree[0])->0];
    let j = choose|j: int| 0 <= j < left.len() && left[j] == i;
    assert(left.contains(i));
    assert(kept_by_delete(
        before.items[left[j]],
        after.items[j],
        removed.parent_id->0,
        removed.sibling_index,
    ));
    find_unique(after.items, j);
    increasing_stays_ahead(left, j);
    assert forall|k: int|
        0 <= k < i && !subtree.contains((#[trigger] before.items[k]).id) implies (find(
        after.items,
        before.items[k].id,
    ) matches Some(h) && h < j) by {
        assert(left.contains(k));
        let h = choose|h: int| 0 <= h < left.len() && left[h] == k;
        assert(kept_by_delete(
            before.items[left[h]],
            after.items[h],
            removed.parent_id->0,
            removed.sibling_index,
        ));
        find_unique(after.items, h);
        if h >= j {
            assert(left[j] <= left[h]);
        }
    }
}

proof fn increasing_stays_ahead(list: Seq<int>, k: int)
    requires
        0 <= k < list.len(),
        forall|a: int| 0 <= a < list.len() ==> 0 <= #[trigger] list[a],
        forall|a: int, b: int|
            0 <= a < b < list.len() ==> (#[trigger] list[a]) < (#[trigger] list[b]),
    ensures
        k <= list[k],
    decreases k,
{
    if k > 0 {
        increasing_stays_ahead(list, k - 1);
        assert(list[k - 1] < list[k]);
    }
}

// ---------------------------------------------------------------------------
// Create
// ---------------------------------------------------------------------------

/// An accepted creation keeps every earlier block, in order, and adds a
/// contiguous run of blocks that were not there, of which the first is the
/// requested one at the requested place.
pub proof fn create_adds_only_fresh_blocks(
    before: SnapshotV,
    after: SnapshotV,
    created_id: Seq<char>,
    target: Seq<char>,
    position: WireInsertPosition,
    input: NewBlockInput,
)
    requires
        create_transition(before, after, created_id, target, position, input),
    ensures
        insertion_point(before.items, target, position) matches Some(point) && {
            let count = after.items.len() - before.items.len();
            &&& created_as_requested(
                after.items[point.dfs_index],
                created_id,
                before.items[point.parent],
                point.sibling_index,
                input,
            )
            &&& forall|i: int|
                0 <= i < before.items.len() ==> kept_by_create(
                    #[trigger] before.items[i],
                    after.items[if i < point.dfs_index {
                        i
                    } else {
                        i + count
                    }],
                    before.items[point.parent].id,
                    point.sibling_index,
                )
            &&& forall|k: int|
                point.dfs_index <= k < point.dfs_index + count ==> find(
                    before.items,
                    (#[trigger] after.items[k]).id,
                ) is None
        },
        find(before.items, created_id) is None,
        find(after.items, created_id) is Some,
        forall|i: int|
            0 <= i < before.items.len() ==> find(after.items, (#[trigger] before.items[i]).id) is Some,
{
    let point = insertion_point(before.items, target, position)->0;
    let count = after.items.len() - before.items.len();
    insertion_is_listed(before.items, target, position);
    assert forall|i: int| 0 <= i < before.items.len() implies kept_by_create(
        #[trigger] before.items[i],
        after.items[if i < point.dfs_index {
            i
        } else {
            i + count
        }],
        before.items[point.parent].id,
        point.sibling_index,
    ) by {
        assert(kept_at(before.items, after.items, point, count, i));
    }
    assert forall|k: int| point.dfs_index <= k < point.dfs_index + count implies find(
        before.items,
        (#[trigger] after.items[k]).id,
    ) is None by {
        find_facts(before.items, after.items[k].id);
        if let Some(i) = find(before.items, after.items[k].id) {
            let j = if i < point.dfs_index {
                i
            } else {
                i + count
            };
            assert(kept_at(before.items, after.items, point, count, i));
            assert(ids(after.items)[j] == ids(after.items)[k]);
        }
    }
    find_unique(after.items, point.dfs_index);
    assert forall|i: int| 0 <= i < before.items.len() implies find(
        after.items,
        (#[trigger] before.items[i]).id,
    ) is Some by {
        let j = if i < point.dfs_index {
            i
        } else {
            i + count
        };
        assert(kept_at(before.items, after.items, point, count, i));
        find_unique(after.items, j);
    }
}

/// After a creation and the deletion of what it created, the blocks that were
/// listed before are listed, and no others.
pub proof fn delete_undoes_create(
    before: SnapshotV,
    between: SnapshotV,
    after: SnapshotV,
    created_id: Seq<char>,
    target: Seq<char>,
    position: WireInsertPosition,
    input: NewBlockInput,
    subtree: Seq<Seq<char>>,
)
    requires
        create_transition(before, between, created_id, target, position, input),
        delete_transition(between, after, subtree),
        forall|id: Seq<char>|
            #[trigger] subtree.contains(id) <==> find(between.items, id) is Some && find(
                before.items,
                id,
            ) is None,
    ensures
        forall|id: Seq<char>|
            (#[trigger] find(after.items, id) is Some) <==> find(before.items, id) is Some,
        after.items.len() == before.items.len(),
{
    create_adds_only_fresh_blocks(before, between, created_id, target, position, input);
    delete_removes_exactly_the_subtree(between, after, subtree);
    assert forall|id: Seq<char>|
        (#[trigger] find(after.items, id) is Some) <==> find(before.items, id) is Some by {
        find_facts(before.items, id);
        if let Some(i) = find(before.items, id) {
            assert(find(between.items, before.items[i].id) is Some);
        }
        assert(subtree.contains(id) <==> find(between.items, id) is Some && find(
            before.items,
            id,
        ) is None);
    }
    let earlier = ids(before.items);
    let later = ids(after.items);
    assert(earlier.to_set() =~= later.to_set()) by {
        assert forall|id: Seq<char>| earlier.to_set().contains(id) <==> later.to_set().contains(
            id,
        ) by {
            find_facts(before.items, id);
            find_facts(after.items, id);
            if earlier.to_set().contains(id) {
                let i = choose|i: int| 0 <= i < earlier.len() && earlier[i] == id;
                assert(before.items[i].id == id);
                assert(find(after.items, id) is Some);
                assert(later[find(after.items, id)->0] == id);
            }
            if later.to_set().contains(id) {
                let i = choose|i: int| 0 <= i < later.len() && later[i] == id;
                assert(after.items[i].id == id);
                assert(find(after.items, id) is Some);
                assert(earlier[find(before.items, id)->0] == id);
            }
        }
    }
    earlier.unique_seq_to_set();
    later.unique_seq_to_set();
}

// ---------------------------------------------------------------------------
// Move
// ---------------------------------------------------------------------------

/// Children are listed blocks of their parent, each at its slot.
pub(crate) proof fn siblings_are_listed(items: Seq<SummaryV>, parent: Seq<char>)
    requires
        slots_filled(items, parent),
    ensures
        forall|k: int|
            0 <= k < sibling_order(items, parent).len() ==> 0 <= (#[trigger] sibling_order(
                items,
                parent,
            )[k]) < items.len() && items[sibling_order(items, parent)[k]].parent_id == Some(parent)
                && items[sibling_order(items, parent)[k]].sibling_index == k,
{
    child_total_bounds(items, parent, items.len() as int);
    let kids = sibling_order(items, parent);
    assert forall|k: int| 0 <= k < kids.len() implies 0 <= (#[trigger] kids[k]) < items.len()
        && items[kids[k]].parent_id == Some(parent) && items[kids[k]].sibling_index == k by {
        child_at_facts(items, parent, k);
        assert(child_at(items, parent, k) is Some);
    }
}

pub(crate) proof fn slot_from_facts(list: Seq<int>, wanted: int, from: int)
    requires
        0 <= from,
    ensures
        slot_from(list, wanted, from) matches Some(i) ==> from <= i < list.len() && list[i]
            == wanted,
    decreases list.len() - from,
{
    if from < list.len() && list[from] != wanted {
        slot_from_facts(list, wanted, from + 1);
    }
}

/// What a plan names: the moved block at its old slot, and a new slot among the
/// children that are left.
pub(crate) open spec fn sound_plan(items: Seq<SummaryV>, plan: MoveV) -> bool {
    &&& 0 <= plan.moved < items.len()
    &&& 0 <= plan.old_parent < items.len()
    &&& 0 <= plan.new_parent < items.len()
    &&& 0 <= plan.old_slot < sibling_order(items, items[plan.old_parent].id).len()
    &&& sibling_order(items, items[plan.old_parent].id)[plan.old_slot] == plan.moved
    &&& 0 <= plan.new_slot <= without_moved(
        items,
        plan.old_parent,
        plan.old_slot,
        plan.new_parent,
    ).len()
}

pub(crate) proof fn move_plan_is_sound(
    items: Seq<SummaryV>,
    moved_id: Seq<char>,
    target_id: Seq<char>,
    position: WireInsertPosition,
)
    requires
        move_plan(items, moved_id, target_id, position) is Some,
    ensures
        sound_plan(items, move_plan(items, moved_id, target_id, position)->0),
{
    let plan = move_plan(items, moved_id, target_id, position)->0;
    find_facts(items, moved_id);
    find_facts(items, target_id);
    let moved = find(items, moved_id)->0;
    let target = find(items, target_id)->0;
    let old_id = items[moved].parent_id->0;
    find_facts(items, old_id);
    let new_id = match position {
        WireInsertPosition::Before | WireInsertPosition::After => items[target].parent_id->0,
        WireInsertPosition::FirstChild | WireInsertPosition::LastChild => target_id,
    };
    find_facts(items, new_id);
    slot_from_facts(sibling_order(items, items[plan.old_parent].id), moved, 0);
    slot_from_facts(
        without_moved(items, plan.old_parent, plan.old_slot, plan.new_parent),
        target,
        0,
    );
}

/// A child after the move: the moved block stands at its new slot, and every
/// other child was a child of the same parent.
pub(crate) proof fn moved_child(items: Seq<SummaryV>, plan: MoveV, root: Seq<char>, p: int, s: int)
    requires
        unique_ids(items),
        rooted_tree(items, root),
        sound_plan(items, plan),
        0 <= p < items.len(),
        0 <= s < moved_children(items, plan, p).len(),
    ensures
        ({
            let b = moved_children(items, plan, p)[s];
            &&& 0 <= b < items.len()
            &&& b == plan.moved <==> (p == plan.new_parent && s == plan.new_slot)
            &&& b != plan.moved ==> {
                &&& items[b].parent_id == Some(items[p].id)
                &&& s == moved_slot(items, plan, p, b)
            }
        }),
{
    assert(rooted_member(items, root, p));
    assert(rooted_member(items, root, plan.old_parent));
    siblings_are_listed(items, items[p].id);
    siblings_are_listed(items, items[plan.old_parent].id);
    let all = sibling_order(items, items[p].id);
    let kids = without_moved(items, plan.old_parent, plan.old_slot, p);
    let b = moved_children(items, plan, p)[s];
    if !(p == plan.new_parent && s == plan.new_slot) {
        let k = if p == plan.new_parent && s > plan.new_slot {
            s - 1
        } else {
            s
        };
        assert(b == kids[k]);
        let t = if p == plan.old_parent && k >= plan.old_slot {
            k + 1
        } else {
            k
        };
        assert(b == all[t]);
        if b == plan.moved {
            assert(items[b].parent_id == Some(items[plan.old_parent].id));
            assert(items[b].sibling_index == plan.old_slot);
            if p != plan.old_parent {
                assert(ids(items)[p] != ids(items)[plan.old_parent]);
            }
            assert(t == plan.old_slot);
            assert(false);
        }
    }
}

/// Slot of a child that was not moved, after the move.
pub(crate) open spec fn moved_slot(items: Seq<SummaryV>, plan: MoveV, p: int, b: int) -> int {
    let t = items[b].sibling_index;
    let k = if p == plan.old_parent && t > plan.old_slot {
        t - 1
    } else {
        t
    };
    if p == plan.new_parent && k >= plan.new_slot {
        k + 1
    } else {
        k
    }
}

/// A visit stands at its slot below its parent; only the root has none.
pub(crate) open spec fn sound_visit(items: Seq<SummaryV>, plan: MoveV, root: int, visit: VisitV) -> bool {
    &&& 0 <= visit.block < items.len()
    &&& match visit.parent {
        Some(p) => {
            &&& 0 <= p < items.len()
            &&& 0 <= visit.slot < moved_children(items, plan, p).len()
            &&& moved_children(items, plan, p)[visit.slot] == visit.block
        },
        None => visit.block == root,
    }
}

proof fn walk_visits_are_sound(
    items: Seq<SummaryV>,
    plan: MoveV,
    root_id: Seq<char>,
    root: int,
    stack: Seq<VisitV>,
    fuel: nat,
)
    requires
        unique_ids(items),
        rooted_tree(items, root_id),
        sound_plan(items, plan),
        forall|k: int| 0 <= k < stack.len() ==> sound_visit(items, plan, root, #[trigger] stack[k]),
    ensures
        forall|k: int|
            0 <= k < moved_walk(items, plan, stack, fuel).len() ==> sound_visit(
                items,
                plan,
                root,
                #[trigger] moved_walk(items, plan, stack, fuel)[k],
            ),
    decreases fuel,
{
    if stack.len() > 0 && fuel > 0 {
        let top = stack.last();
        assert(sound_visit(items, plan, root, stack[stack.len() - 1]));
        let kids = moved_children(items, plan, top.block);
        let below = visits_below(top, kids).reverse();
        let next = stack.drop_last() + below;
        assert forall|k: int| 0 <= k < next.len() implies sound_visit(
            items,
            plan,
            root,
            #[trigger] next[k],
        ) by {
            if k < stack.len() - 1 {
                assert(next[k] == stack[k]);
            } else {
                let j = kids.len() - 1 - (k - (stack.len() - 1));
                assert(next[k] == visits_below(top, kids)[j]);
                moved_child(items, plan, root_id, top.block, j);
            }
        }
        walk_visits_are_sound(items, plan, root_id, root, next, (fuel - 1) as nat);
        let rest = moved_walk(items, plan, next, (fuel - 1) as nat);
        let whole = moved_walk(items, plan, stack, fuel);
        assert(whole == seq![top] + rest);
        assert forall|k: int| 0 <= k < whole.len() implies sound_visit(
            items,
            plan,
            root,
            #[trigger] whole[k],
        ) by {
            if k > 0 {
                assert(whole[k] == rest[k - 1]);
            }
        }
    }
}

/// After an accepted move every block is found again, at the visit of the walk
/// that names it.
pub(crate) proof fn move_visits_every_block(
    before: SnapshotV,
    after: SnapshotV,
    subtree: Seq<Seq<char>>,
    target: Seq<char>,
    position: WireInsertPosition,
    i: int,
)
    requires
        move_transition(before, after, subtree, target, position),
        0 <= i < before.items.len(),
    ensures
        ({
            let plan = move_plan(before.items, subtree[0], target, position)->0;
            let root = find(before.items, before.root_id)->0;
            let order = moved_order(before.items, plan, root);
            &&& sound_plan(before.items, plan)
            &&& 0 <= root < before.items.len()
            &&& before.items[root].parent_id is None
            &&& find(after.items, before.items[i].id) matches Some(j) && 0 <= j < order.len()
                && order[j].block == i && sound_visit(before.items, plan, root, order[j])
                && kept_by_move(before.items, plan, order[j], after.items[j])
        }),
{
    let items = before.items;
    let plan = move_plan(items, subtree[0], target, position)->0;
    let root = find(items, before.root_id)->0;
    let order = moved_order(items, plan, root);
    move_plan_is_sound(items, subtree[0], target, position);
    find_facts(items, before.root_id);
    assert(rooted_member(items, before.root_id, root));
    let start = seq![VisitV { block: root, parent: None, slot: 0, depth: 0 }];
    walk_visits_are_sound(items, plan, before.root_id, root, start, items.len() + 1);
    find_facts(after.items, items[i].id);
    assert(find(after.items, items[i].id) is Some);
    let j = find(after.items, items[i].id)->0;
    assert(kept_by_move(items, plan, order[j], after.items[j]));
    assert(sound_visit(items, plan, root, order[j]));
    let b = order[j].block;
    assert(ids(items)[b] == ids(items)[i]);
}

/// An accepted move keeps every block, and of every block its content, its
/// restrictions and its presentation; only the old and the new parent may report
/// another size, where they are opaque.
pub proof fn move_keeps_every_block(
    before: SnapshotV,
    after: SnapshotV,
    subtree: Seq<Seq<char>>,
    target: Seq<char>,
    position: WireInsertPosition,
    i: int,
)
    requires
        move_transition(before, after, subtree, target, position),
        0 <= i < before.items.len(),
    ensures
        after.items.len() == before.items.len(),
        find(after.items, before.items[i].id) matches Some(j) && {
            let plan = move_plan(before.items, subtree[0], target, position)->0;
            &&& content_kept(
                before.items[i],
                after.items[j],
                i == plan.old_parent || i == plan.new_parent,
            )
            &&& before.items[i].restrictions == after.items[j].restrictions
            &&& presentation_kept(before.items[i], after.items[j])
        },
{
    move_visits_every_block(before, after, subtree, target, position, i);
}

/// After an accepted move the moved block hangs where it was sent: just before
/// or just after the target under the target's parent, or as the first or the
/// last child of the target.
pub proof fn moved_block_stands_where_requested(
    before: SnapshotV,
    after: SnapshotV,
    subtree: Seq<Seq<char>>,
    target: Seq<char>,
    position: WireInsertPosition,
)
    requires
        move_transition(before, after, subtree, target, position),
    ensures
        find(after.items, subtree[0]) matches Some(m) && find(after.items, target) matches Some(t)
            && match position {
            WireInsertPosition::Before => {
                &&& after.items[m].parent_id is Some
                &&& after.items[m].parent_id == after.items[t].parent_id
                &&& after.items[t].sibling_index == after.items[m].sibling_index + 1
            },
            WireInsertPosition::After => {
                &&& after.items[m].parent_id is Some
                &&& after.items[m].parent_id == after.items[t].parent_id
                &&& after.items[m].sibling_index == after.items[t].sibling_index + 1
            },
            WireInsertPosition::FirstChild => {
                &&& after.items[m].parent_id == Some(target)
                &&& after.items[m].sibling_index == 0
            },
            WireInsertPosition::LastChild => {
                &&& after.items[m].parent_id == Some(target)
                &&& after.items[m].sibling_index + 1 == after.items[t].child_count
            },
        },
{
    let items = before.items;
    let plan = move_plan(items, subtree[0], target, position)->0;
    let root = find(items, before.root_id)->0;
    let order = moved_order(items, plan, root);
    move_plan_is_sound(items, subtree[0], target, position);
    find_facts(items, subtree[0]);
    find_facts(items, target);
    let at = find(items, target)->0;
    assert(rooted_member(items, before.root_id, plan.old_parent));
    siblings_are_listed(items, items[plan.old_parent].id);
    move_visits_every_block(before, after, subtree, target, position, plan.moved);
    move_visits_every_block(before, after, subtree, target, position, at);
    let m = find(after.items, subtree[0])->0;
    let t = find(after.items, target)->0;
    if let Some(p) = order[m].parent {
        moved_child(items, plan, before.root_id, p, order[m].slot);
    }
    let new_id = match position {
        WireInsertPosition::Before | WireInsertPosition::After => items[at].parent_id->0,
        WireInsertPosition::FirstChild | WireInsertPosition::LastChild => target,
    };
    find_facts(items, new_id);
    assert(after.items[m].parent_id == Some(new_id));
    assert(after.items[m].sibling_index == plan.new_slot);
    let kids = without_moved(items, plan.old_parent, plan.old_slot, plan.new_parent);
    let after_kids = moved_children(items, plan, plan.new_parent);
    match position {
        WireInsertPosition::Before | WireInsertPosition::After => {
            slot_from_facts(kids, at, 0);
            let s = if position == WireInsertPosition::Before {
                plan.new_slot + 1
            } else {
                plan.new_slot - 1
            };
            assert(after_kids[s] == at);
            moved_child(items, plan, before.root_id, plan.new_parent, s);
            if let Some(p) = order[t].parent {
                moved_child(items, plan, before.root_id, p, order[t].slot);
                if p != plan.new_parent {
                    assert(ids(items)[p] != ids(items)[plan.new_parent]);
                }
            }
        },
        _ => {},
    }
}

// ---------------------------------------------------------------------------
// Writes and reads
// ---------------------------------------------------------------------------

/// The identifiers, keys and colors of a request are of their languages.
pub open spec fn tokens_valid(input: NewBlockInput) -> bool {
    match input {
        NewBlockInput::Text { text_color, .. } => match opt_view(text_color) {
            Some(color) => valid_color(color),
            None => true,
        },
        NewBlockInput::Link { target_object_id, relations, .. } => valid_entity_id(
            target_object_id@,
        ) && keys_valid(views(relations@)),
        NewBlockInput::Relation { key, .. } => valid_relation_key(key@),
        _ => true,
    }
}

/// What an accepted creation sends can be shown once the service holds it: a
/// read of exactly the content that was sent never fails.
pub proof fn accepted_block_is_shown(input: NewBlockInput)
    requires
        block_accepted(input),
        tokens_valid(input),
    ensures
        content_error(requested_block(input).content) is None,
{
    if let NewBlockInput::Text { text, marks, .. } = input {
        let list = views(marks@);
        assert forall|i: int| 0 <= i < list.len() implies mark_shown(#[trigger] list[i], text@) by {
            assert(mark_accepted(list[i], text@));
        }
    }
}

/// The keys and colors of a change are of their languages.
pub open spec fn change_tokens_valid(change: BlockChangeInput) -> bool {
    match change {
        BlockChangeInput::SetTextColor { color } => valid_color(color@),
        BlockChangeInput::SetLinkAppearance { relations, .. } => keys_valid(views(relations@)),
        _ => true,
    }
}

/// What an accepted change makes of content that can be shown can be shown.
pub proof fn accepted_change_is_shown(content: ContentV, change: BlockChangeInput)
    requires
        content_error(content) is None,
        requested_change(change, content) is Some,
        change_tokens_valid(change),
    ensures
        changed_content(content, change) matches Some(changed) ==> content_error(changed) is None,
{
    if let BlockChangeInput::SetText { text, marks } = change {
        let list = views(marks@);
        assert forall|i: int| 0 <= i < list.len() implies mark_shown(#[trigger] list[i], text@) by {
            assert(mark_accepted(list[i], text@));
        }
    }
}

// ---------------------------------------------------------------------------
// Rich plans
// ---------------------------------------------------------------------------

/// A scheduler that was stopped authorizes no write any more, whatever it held.
pub proof fn stopped_scheduler_stays_closed(scheduler: SchedulerV)
    ensures
        next_write(SchedulerV { terminal: true, applied: Seq::empty(), ..scheduler }) is None,
        scheduler.terminal ==> next_write(scheduler) is None,
{
}

/// A recorded receipt moves an open scheduler on by exactly one write, until
/// every write is recorded.
pub proof fn open_scheduler_goes_in_order(scheduler: SchedulerV, receipt: RichApplied)
    requires
        scheduler_wf(scheduler),
        next_write(scheduler) == Some(receipt.index as int),
    ensures
        ({
            let next = SchedulerV {
                next_index: scheduler.next_index + 1,
                applied: scheduler.applied.push(receipt),
                ..scheduler
            };
            &&& scheduler_wf(next)
            &&& next_write(next) == if receipt.index + 1 < scheduler.total {
                Some(receipt.index + 1)
            } else {
                None
            }
        }),
{
}

/// Whether an output lists a position as applied.
pub open spec fn is_applied(output: OutputV, i: int) -> bool {
    exists|k: int| 0 <= k < output.applied.len() && (#[trigger] output.applied[k]).index == i
}

/// A stopped plan accounts for every step: it is applied, or it is the failed
/// one, or it was not attempted; and no applied step is either of the others.
pub proof fn stopped_plan_accounts_for_every_step(
    scheduler: SchedulerV,
    space_id: Seq<char>,
    object_id: Seq<char>,
    write_polled: bool,
    stop: RichWriteStop,
    final_hash: Option<Seq<char>>,
    i: int,
)
    requires
        scheduler_wf(scheduler),
        next_write(scheduler) is Some,
        scheduler.total <= u8::MAX,
        0 <= i < scheduler.total,
    ensures
        ({
            let output = stopped_write(
                space_id,
                object_id,
                next_write(scheduler)->0,
                scheduler.total,
                scheduler.applied,
                write_polled,
                stop,
                final_hash,
            );
            &&& output.failed is Some
            &&& is_applied(output, i) <==> i < scheduler.next_index
            &&& i == scheduler.next_index <==> output.failed->0.index == i
            &&& i > scheduler.next_index ==> output.not_attempted.contains(i as u8)
            &&& output.not_attempted.contains(i as u8) ==> i >= scheduler.next_index
        }),
{
    let index = next_write(scheduler)->0;
    let output = stopped_write(
        space_id,
        object_id,
        index,
        scheduler.total,
        scheduler.applied,
        write_polled,
        stop,
        final_hash,
    );
    if i < scheduler.next_index {
        assert(output.applied[i].index == i);
    }
    let from = if output.not_attempted == index_bytes(index, scheduler.total) {
        index
    } else {
        index + 1
    };
    assert(output.not_attempted == index_bytes(from, scheduler.total));
    if i > scheduler.next_index {
        assert(output.not_attempted[i - from] == index_byte(i));
    }
    if output.not_attempted.contains(i as u8) {
        let k = choose|k: int|
            0 <= k < output.not_attempted.len() && output.not_attempted[k] == i as u8;
        assert(output.not_attempted[k] == index_byte(from + k));
    }
}

/// The next entry of an open plan goes below the root, or below the block that
/// was assigned to the entry that its parent key names.
pub proof fn entry_goes_below_its_parent(step: WriteStep)
    requires
        write_step_wf(step),
        next_write(step.scheduler@) is Some,
        write_target(step) is Some,
    ensures
        match opt_view(step.input.blocks@[step.scheduler@.next_index].parent_key) {
            None => write_target(step) == Some(step.current.root_id@),
            Some(parent) => exists|j: int|
                0 <= j < step.scheduler@.next_index && (#[trigger] step.scheduler@.applied[j]).local_key@
                    == parent && write_target(step) == Some(step.scheduler@.applied[j].block_id@),
        },
{
    let k = step.scheduler@.next_index;
    if let Some(parent) = opt_view(step.input.blocks@[k].parent_key) {
        entry_of_facts(step.input.blocks@, parent, k);
        let j = crate::rich_plan::entry_of(step.input.blocks@, parent, k)->0;
        assert(step.block_ids@[j]@ == step.scheduler@.applied[j].block_id@);
        assert(step.scheduler@.applied[j].local_key@ == step.input.blocks@[j].local_key@);
    }
}

/// A completed recovery is answered from the store ever after: a call with its
/// key and fingerprint is led to the kept result, no read of the created page is
/// pending any more, a call with another fingerprint is a conflict, and no later
/// recovery under the key changes anything. Nothing is created or resumed.
pub proof fn completed_recovery_is_answered_from_the_store(
    store: StoreV<RichResult>,
    key: Seq<char>,
    fingerprint: Seq<u8>,
    candidate: PendingV,
    result: RichResult,
    steps: Seq<StoreStep<RichResult>>,
    other: Seq<u8>,
    late: PendingV,
    late_result: RichResult,
)
    requires
        pending_object(store, key, fingerprint) == Some(candidate),
    ensures
        ({
            let completed = recovered_store(store, key, fingerprint, candidate, result);
            let later = stepped_through(completed, steps);
            &&& cached_result(later, key, fingerprint) == Some(result)
            &&& begun(later, key, fingerprint, false) == BeginOutcome::Cached
            &&& pending_lookup(later, key, fingerprint) == PendingLookup::Absent
            &&& rich_action(
                begun(later, key, fingerprint, false),
                pending_lookup(later, key, fingerprint),
            ) == BeginAction::Replay
            &&& other != fingerprint ==> rich_action(
                begun(later, key, other, false),
                pending_lookup(later, key, other),
            ) == BeginAction::Fail(ToolError::Conflict)
            &&& recovered_store(later, key, fingerprint, late, late_result) == later
        }),
{
    let completed = recovered_store(store, key, fingerprint, candidate, result);
    kept_result_is_always_given_again(completed, key, fingerprint, result, steps, other);
}

// ---------------------------------------------------------------------------
// Chat messages
// ---------------------------------------------------------------------------

/// Once the service has assigned a message its identifier, the key is remembered
/// as verified whatever goes wrong afterwards, and every later call with it
/// reads the message again and sends nothing.
pub proof fn assigned_message_is_never_sent_again(progress: ChatAddProgress)
    requires
        progress.candidate_retained,
        !progress.definitively_rejected,
    ensures
        chat_disposition(progress) == CreateDisposition::Verified,
        begun_chat_add(BeginOutcome::Cached, progress.candidate_retained)
            == ChatBeginAction::Replay,
        forall|outcome: BeginOutcome|
            #[trigger] begun_chat_add(outcome, true) == ChatBeginAction::Lead ==> outcome
                == BeginOutcome::Lead,
{
}

/// A kept result and the message that was created under its key both stay,
/// whatever happens to the handler.
proof fn kept_message_stays(
    state: ChatStateV,
    key: Seq<char>,
    fingerprint: Seq<u8>,
    steps: Seq<ChatStep>,
)
    requires
        cached_result(state.attempts, key, fingerprint) is Some,
        state.created.contains_key(key),
    ensures
        ({
            let later = chat_stepped_through(state, steps);
            &&& cached_result(later.attempts, key, fingerprint) == cached_result(
                state.attempts,
                key,
                fingerprint,
            )
            &&& later.created.contains_key(key)
            &&& later.created[key] == state.created[key]
        }),
    decreases steps.len(),
{
    if steps.len() > 0 {
        kept_message_stays(state, key, fingerprint, steps.drop_last());
    }
}

/// No step ends the attempt of a key or remembers a message under it: the steps
/// of every caller but its leader.
pub open spec fn steps_of_others(steps: Seq<ChatStep>, key: Seq<char>) -> bool {
    forall|i: int|
        0 <= i < steps.len() ==> match #[trigger] steps[i] {
            ChatStep::Begin { .. } => true,
            ChatStep::Retain { key: other, .. } => other != key,
            ChatStep::Finish { key: other, .. } => other != key,
        }
}

/// What a leader has at hand stays while others step.
proof fn others_leave_the_leader(state: ChatStateV, key: Seq<char>, steps: Seq<ChatStep>)
    requires
        running(state.attempts, key),
        steps_of_others(steps, key),
    ensures
        ({
            let later = chat_stepped_through(state, steps);
            &&& running(later.attempts, key)
            &&& later.attempts.attempts[key].fingerprint
                == state.attempts.attempts[key].fingerprint
            &&& later.created.contains_key(key) == state.created.contains_key(key)
            &&& state.created.contains_key(key) ==> later.created[key] == state.created[key]
        }),
    decreases steps.len(),
{
    if steps.len() > 0 {
        let shorter = steps.drop_last();
        assert forall|i: int| 0 <= i < shorter.len() implies match #[trigger] shorter[i] {
            ChatStep::Begin { .. } => true,
            ChatStep::Retain { key: other, .. } => other != key,
            ChatStep::Finish { key: other, .. } => other != key,
        } by {
            assert(shorter[i] == steps[i]);
        }
        others_leave_the_leader(state, key, shorter);
        assert(steps[steps.len() - 1] == steps.last());
    }
}

/// The run of a call that leads under its key, is assigned a message and ends:
/// between its own steps others step, and afterwards anything may happen.
pub open spec fn assigned_run(
    start: ChatStateV,
    first: NormalizedChatAdd,
    until_assigned: Seq<ChatStep>,
    message_id: Seq<char>,
    until_ended: Seq<ChatStep>,
    result: ChatAddOutcome,
    progress: ChatAddProgress,
    afterwards: Seq<ChatStep>,
) -> ChatStateV {
    let key = first.idempotency_key@;
    let led = chat_stepped(
        start,
        ChatStep::Begin { key, fingerprint: first.digest_of_request(), expired: false },
    );
    let assigned = chat_stepped(
        chat_stepped_through(led, until_assigned),
        ChatStep::Retain {
            key,
            candidate: CandidateV {
                space_id: first.space_id@,
                chat_id: first.chat_id@,
                message_id,
            },
        },
    );
    let ended = chat_stepped(
        chat_stepped_through(assigned, until_ended),
        ChatStep::Finish { key, result, disposition: chat_disposition(progress) },
    );
    chat_stepped_through(ended, afterwards)
}

/// Once the service has assigned a message its identifier and the call has ended,
/// whatever went wrong in between, no later call with the key sends anything. A
/// call with the same request is led to a read of exactly the assigned message,
/// in the space and chat in which it was created. A call with another request has
/// another encoding, and is a conflict where its digest is another too. What the
/// read is answered with, where it succeeds, is the assigned message, marked as
/// reused. Whatever else happens to the handler does not matter.
pub proof fn retry_reads_the_assigned_message(
    start: ChatStateV,
    first: NormalizedChatAdd,
    until_assigned: Seq<ChatStep>,
    message_id: Seq<char>,
    until_ended: Seq<ChatStep>,
    result: ChatAddOutcome,
    progress: ChatAddProgress,
    afterwards: Seq<ChatStep>,
    retry: NormalizedChatAdd,
)
    requires
        chat_action(start, first.idempotency_key@, first.digest_of_request(), false)
            == ChatBeginAction::Lead,
        steps_of_others(until_assigned, first.idempotency_key@),
        steps_of_others(until_ended, first.idempotency_key@),
        progress.candidate_retained,
        !progress.definitively_rejected,
        first.fits(),
        retry.fits(),
        retry.idempotency_key@ == first.idempotency_key@,
    ensures
        ({
            let key = first.idempotency_key@;
            let later = assigned_run(
                start,
                first,
                until_assigned,
                message_id,
                until_ended,
                result,
                progress,
                afterwards,
            );
            let action = chat_action(later, key, retry.digest_of_request(), false);
            &&& forall|fingerprint: Seq<u8>, expired: bool|
                #[trigger] chat_action(later, key, fingerprint, expired) != ChatBeginAction::Lead
            &&& retry.asks_for(&first) ==> action == ChatBeginAction::Replay
                && later.created.contains_key(key) && later.created[key] == (CandidateV {
                space_id: retry.space_id@,
                chat_id: retry.chat_id@,
                message_id,
            })
            &&& !retry.asks_for(&first) ==> retry.encoded_request() != first.encoded_request()
            &&& retry.digest_of_request() != first.digest_of_request() ==> action
                == ChatBeginAction::Fail(ToolError::Conflict)
            &&& forall|
                outcome: ChatAddOutcome,
                message: Result<ChatMessage, Option<ToolError>>,
                detail: Result<MessageDetail, ToolError>,
                encoded: int,
            |
                #[trigger] replay_gives(outcome, later.created[key], message, detail, encoded) ==> (
                outcome matches Ok(output) ==> output.message.message_id@ == message_id
                    && output.space_id@ == first.space_id@ && output.chat_id@ == first.chat_id@
                    && output.idempotency.key_reused)
        }),
{
    let key = first.idempotency_key@;
    let fingerprint = first.digest_of_request();
    let led = chat_stepped(start, ChatStep::Begin { key, fingerprint, expired: false });
    others_leave_the_leader(led, key, until_assigned);
    let candidate = CandidateV { space_id: first.space_id@, chat_id: first.chat_id@, message_id };
    let assigned = chat_stepped(
        chat_stepped_through(led, until_assigned),
        ChatStep::Retain { key, candidate },
    );
    others_leave_the_leader(assigned, key, until_ended);
    let ended = chat_stepped(
        chat_stepped_through(assigned, until_ended),
        ChatStep::Finish { key, result, disposition: chat_disposition(progress) },
    );
    assert(cached_result(ended.attempts, key, fingerprint) == Some(result));
    kept_message_stays(ended, key, fingerprint, afterwards);
    if retry.encoded_request() == first.encoded_request() {
        chat_fingerprint_binds_request(
            retry.space_id@,
            retry.chat_id@,
            retry.text@,
            opt_view(retry.reply_to_message_id),
            first.space_id@,
            first.chat_id@,
            first.text@,
            opt_view(first.reply_to_message_id),
        );
    }
}

// ---------------------------------------------------------------------------
// Read-only processes
// ---------------------------------------------------------------------------

/// A read-only process runs no chat mutation, whatever is called.
pub proof fn read_only_runs_no_chat_mutation(name: Seq<char>, tool: Seq<char>)
    ensures
        chat_route(name, tool, true) != ChatRoute::Run,
{
}

/// A read-only process offers exactly the tools that do not mutate.
pub proof fn read_only_offers_no_mutation(tools: Seq<OptionalRegistryTool>, n: int)
    requires
        0 <= n <= tools.len(),
    ensures
        forall|i: int|
            0 <= i < offered_names(tools, true, n).len() ==> exists|k: int|
                0 <= k < n && !tools[k].mutation && (#[trigger] tools[k]).tool.name
                    == #[trigger] offered_names(tools, true, n)[i],
        forall|k: int|
            0 <= k < n && !(#[trigger] tools[k]).mutation ==> offered_names(
                tools,
                true,
                n,
            ).contains(tools[k].tool.name),
    decreases n,
{
    if n > 0 {
        read_only_offers_no_mutation(tools, n - 1);
        let shorter = offered_names(tools, true, n - 1);
        let longer = offered_names(tools, true, n);
        assert forall|i: int| 0 <= i < longer.len() implies exists|k: int|
            0 <= k < n && !tools[k].mutation && (#[trigger] tools[k]).tool.name
                == #[trigger] longer[i] by {
            if i < shorter.len() {
                assert(longer[i] == shorter[i]);
                let k = choose|k: int|
                    0 <= k < n - 1 && !tools[k].mutation && (#[trigger] tools[k]).tool.name
                        == shorter[i];
                assert(tools[k].tool.name == longer[i]);
            } else {
                assert(tools[n - 1].tool.name == longer[i]);
            }
        }
        assert forall|k: int| 0 <= k < n && !(#[trigger] tools[k]).mutation implies longer.contains(
            tools[k].tool.name,
        ) by {
            if k < n - 1 {
                assert(shorter.contains(tools[k].tool.name));
                let i = choose|i: int| 0 <= i < shorter.len() && shorter[i] == tools[k].tool.name;
                assert(longer[i] == shorter[i]);
            } else {
                assert(longer[longer.len() - 1] == tools[k].tool.name);
            }
        }
    }
}

} // verus!
