//! What the verification of a move accepts, said of the blocks before and after:
//! the moved block at the place asked for, its old and new siblings shifted to
//! make room, and every other block where it was.

use crate::laws::{
    move_visits_every_block, moved_child,
};
use crate::model::{SnapshotV, SummaryV};
use crate::relocation::{
    kept_by_move, move_plan, move_transition, moved_children, moved_order, moved_walk,
    rooted_member, rooted_tree, same_identities, slot_from, visits_below, without_moved, MoveV, VisitV,
};
use crate::tree::{find, find_facts, find_unique, ids, sibling_order, unique_ids};
use crate::tree_laws::{
    hanging_below, siblings_are_the_blocks_below, slot_is_taken, slots_are_filled_where_taken,
};
use crate::verification_laws::content_after;
use crate::wire::WireInsertPosition;
use vstd::prelude::*;

verus! {

proof fn slot_is_where_it_stands(list: Seq<int>, wanted: int, at: int, from: int)
    requires
        0 <= from <= at < list.len(),
        list[at] == wanted,
        forall|k: int| from <= k < at ==> (#[trigger] list[k]) != wanted,
    ensures
        slot_from(list, wanted, from) == Some(at),
    decreases at - from,
{
    if from < at {
        assert(list[from] != wanted);
        slot_is_where_it_stands(list, wanted, at, from + 1);
    }
}

/// Slot of a child once the block at `old_slot` has left; only the children of the
/// left parent close up.
pub open spec fn closed_up(slot: int, old_slot: int, left: bool) -> int {
    if left && old_slot < slot {
        slot - 1
    } else {
        slot
    }
}

/// A move is planned as asked. The moved block leaves its parent at its slot.
/// Before or after a target it goes below the target's parent, to the target's
/// slot or the next one, counted once it has left. As a first child it goes to slot
/// zero below the target, as a last child behind the children that are left there.
pub proof fn move_is_planned_as_asked(
    items: Seq<SummaryV>,
    root: Seq<char>,
    moved: int,
    target: int,
    old_parent: int,
    new_parent: int,
    position: WireInsertPosition,
)
    requires
        unique_ids(items),
        rooted_tree(items, root),
        0 <= moved < items.len(),
        0 <= target < items.len(),
        moved != target,
        0 <= old_parent < items.len(),
        0 <= new_parent < items.len(),
        items[moved].parent_id == Some(items[old_parent].id),
        position is Before || position is After ==> items[target].parent_id == Some(
            items[new_parent].id,
        ),
        position is FirstChild || position is LastChild ==> new_parent == target,
    ensures
        ({
            let old_slot = items[moved].sibling_index;
            let same = old_parent == new_parent;
            move_plan(items, items[moved].id, items[target].id, position) == Some(
                MoveV {
                    moved,
                    old_parent,
                    old_slot,
                    new_parent,
                    new_slot: match position {
                        WireInsertPosition::Before => closed_up(
                            items[target].sibling_index,
                            old_slot,
                            same,
                        ),
                        WireInsertPosition::After => closed_up(
                            items[target].sibling_index,
                            old_slot,
                            same,
                        ) + 1,
                        WireInsertPosition::FirstChild => 0,
                        WireInsertPosition::LastChild => hanging_below(
                            items,
                            items[target].id,
                            items.len() as int,
                        ).len() - if same {
                            1int
                        } else {
                            0int
                        },
                    },
                },
            )
        }),
{
    find_unique(items, moved);
    find_unique(items, target);
    find_unique(items, old_parent);
    find_unique(items, new_parent);
    assert(rooted_member(items, root, old_parent));
    assert(rooted_member(items, root, new_parent));
    let old_id = items[old_parent].id;
    let new_id = items[new_parent].id;
    siblings_are_the_blocks_below(items, old_id);
    siblings_are_the_blocks_below(items, new_id);
    let old_kids = sibling_order(items, old_id);
    let old_slot = items[moved].sibling_index;
    assert(old_kids[old_slot] == moved);
    assert forall|k: int| 0 <= k < old_slot implies (#[trigger] old_kids[k]) != moved by {
        assert(items[old_kids[k]].sibling_index == k);
    }
    slot_is_where_it_stands(old_kids, moved, old_slot, 0);
    let kids = without_moved(items, old_parent, old_slot, new_parent);
    let all = sibling_order(items, new_id);
    if position is Before || position is After {
        let slot = items[target].sibling_index;
        let same = old_parent == new_parent;
        let at = closed_up(slot, old_slot, same);
        assert(all[slot] == target);
        if same {
            assert(slot != old_slot);
        }
        assert(kids[at] == target);
        assert forall|k: int| 0 <= k < at implies (#[trigger] kids[k]) != target by {
            let t = if same && old_slot <= k {
                k + 1
            } else {
                k
            };
            assert(kids[k] == all[t]);
            assert(items[all[t]].sibling_index == t);
        }
        slot_is_where_it_stands(kids, target, at, 0);
    }
}

/// Slot of a child once a block has joined at `new_slot`; only the children of the
/// joined parent make room.
pub open spec fn made_room(slot: int, new_slot: int, joined: bool) -> int {
    if joined && new_slot <= slot {
        slot + 1
    } else {
        slot
    }
}

/// After an accepted move every block but the moved one hangs below its old parent:
/// at its old slot, but for the gap that the moved block left and the room it took.
/// The moved block hangs below its new parent at the planned slot. Each block has
/// as many children as hung below it, less the moved block where it left and one
/// more where it joined, and keeps its content, its restrictions and its
/// presentation, but for the size that an opaque old or new parent reports.
pub proof fn move_shifts_the_siblings_only(
    before: SnapshotV,
    after: SnapshotV,
    subtree: Seq<Seq<char>>,
    target: Seq<char>,
    position: WireInsertPosition,
    plan: MoveV,
    i: int,
    j: int,
)
    requires
        move_transition(before, after, subtree, target, position),
        move_plan(before.items, subtree[0], target, position) == Some(plan),
        0 <= i < before.items.len(),
        0 <= j < after.items.len(),
        after.items[j].id == before.items[i].id,
    ensures
        ({
            let a = before.items[i];
            let b = after.items[j];
            let old_id = before.items[plan.old_parent].id;
            let new_id = before.items[plan.new_parent].id;
            let below = hanging_below(
                before.items,
                a.id,
                before.items.len() as int,
            ).len();
            &&& a.restrictions == b.restrictions
            &&& a.align == b.align
            &&& a.vertical_align == b.vertical_align
            &&& a.background_color == b.background_color
            &&& content_after(a, b, i == plan.old_parent || i == plan.new_parent)
            &&& b.child_count == below - (if i == plan.old_parent {
                1int
            } else {
                0int
            }) + (if i == plan.new_parent {
                1int
            } else {
                0int
            })
            &&& i == plan.moved ==> b.parent_id == Some(new_id) && b.sibling_index
                == plan.new_slot
            &&& i != plan.moved ==> b.parent_id == a.parent_id
            &&& i != plan.moved && a.parent_id is Some ==> b.sibling_index == made_room(
                closed_up(a.sibling_index, plan.old_slot, a.parent_id == Some(old_id)),
                plan.new_slot,
                a.parent_id == Some(new_id),
            )
            &&& a.parent_id is None ==> b.sibling_index == 0 && b.depth == 0
        }),
{
    let items = before.items;
    move_visits_every_block(before, after, subtree, target, position, i);
    find_unique(after.items, j);
    let root = find(items, before.root_id)->0;
    let order = moved_order(items, plan, root);
    assert(rooted_member(items, before.root_id, i));
    assert(rooted_member(items, before.root_id, plan.old_parent));
    siblings_are_the_blocks_below(items, items[i].id);
    if let Some(p) = order[j].parent {
        moved_child(items, plan, before.root_id, p, order[j].slot);
        if i != plan.moved {
            if p != plan.old_parent {
                assert(ids(items)[p] != ids(items)[plan.old_parent]);
            }
            if p != plan.new_parent {
                assert(ids(items)[p] != ids(items)[plan.new_parent]);
            }
        }
    } else {
        siblings_are_the_blocks_below(items, items[plan.old_parent].id);
        assert(i == root);
        assert(items[plan.moved].parent_id is Some);
        let start = VisitV { block: root, parent: None, slot: 0, depth: 0 };
        let stack = seq![start];
        rootless_visits_come_from_the_stack(items, plan, stack, items.len() + 1, j);
        let k = choose|k: int| 0 <= k < stack.len() && order[j] == #[trigger] stack[k];
        assert(order[j] == start);
    }
    if items[i].parent_id is None && order[j].parent is Some {
        let p = order[j].parent->0;
        siblings_are_the_blocks_below(items, items[plan.old_parent].id);
        assert(items[plan.moved].parent_id is Some);
    }
}

proof fn rootless_visits_come_from_the_stack(
    items: Seq<SummaryV>,
    plan: MoveV,
    stack: Seq<VisitV>,
    fuel: nat,
    j: int,
)
    requires
        0 <= j < moved_walk(items, plan, stack, fuel).len(),
        moved_walk(items, plan, stack, fuel)[j].parent is None,
    ensures
        exists|k: int|
            0 <= k < stack.len() && moved_walk(items, plan, stack, fuel)[j]
                == #[trigger] stack[k],
    decreases fuel,
{
    let top = stack.last();
    let below = visits_below(top, moved_children(items, plan, top.block)).reverse();
    let next = stack.drop_last() + below;
    let rest = moved_walk(items, plan, next, (fuel - 1) as nat);
    assert(moved_walk(items, plan, stack, fuel) == seq![top] + rest);
    if j == 0 {
        assert(stack[stack.len() - 1] == top);
    } else {
        assert(moved_walk(items, plan, stack, fuel)[j] == rest[j - 1]);
        rootless_visits_come_from_the_stack(items, plan, next, (fuel - 1) as nat, j - 1);
        let k = choose|k: int| 0 <= k < next.len() && rest[j - 1] == #[trigger] next[k];
        if k < stack.len() - 1 {
            assert(next[k] == stack[k]);
        } else {
            assert(next[k] == below[k - (stack.len() - 1)]);
        }
    }
}

// ---------------------------------------------------------------------------
// Order
// ---------------------------------------------------------------------------

/// Some visits in order, each followed by everything below it, of at most `limit`
/// in all.
pub open spec fn laid_out(
    items: Seq<SummaryV>,
    plan: MoveV,
    visits: Seq<VisitV>,
    limit: nat,
) -> Seq<VisitV>
    decreases limit,
{
    if visits.len() == 0 || limit == 0 {
        Seq::empty()
    } else {
        let below = laid_out(
            items,
            plan,
            visits_below(visits[0], moved_children(items, plan, visits[0].block)),
            (limit - 1) as nat,
        );
        if below.len() < limit {
            seq![visits[0]] + below + laid_out(
                items,
                plan,
                visits.drop_first(),
                (limit - 1 - below.len()) as nat,
            )
        } else {
            seq![visits[0]] + below
        }
    }
}

proof fn walk_splits(
    items: Seq<SummaryV>,
    plan: MoveV,
    below: Seq<VisitV>,
    above: Seq<VisitV>,
    limit: nat,
)
    ensures
        ({
            let first = moved_walk(items, plan, above, limit);
            &&& first.len() <= limit
            &&& moved_walk(items, plan, below + above, limit) == first + moved_walk(
                items,
                plan,
                below,
                (limit - first.len()) as nat,
            )
        }),
    decreases limit,
{
    let first = moved_walk(items, plan, above, limit);
    if above.len() == 0 {
        assert(below + above =~= below);
        assert(Seq::<VisitV>::empty() + moved_walk(items, plan, below, limit) =~= moved_walk(
            items,
            plan,
            below,
            limit,
        ));
    } else if limit == 0 {
        assert(moved_walk(items, plan, below + above, limit) =~= Seq::<VisitV>::empty());
        assert(first + moved_walk(items, plan, below, 0) =~= Seq::<VisitV>::empty());
    } else {
        let top = above.last();
        assert((below + above).last() == top);
        let kids = visits_below(top, moved_children(items, plan, top.block)).reverse();
        assert((below + above).drop_last() + kids =~= below + (above.drop_last() + kids));
        walk_splits(items, plan, below, above.drop_last() + kids, (limit - 1) as nat);
        let rest = moved_walk(items, plan, above.drop_last() + kids, (limit - 1) as nat);
        assert(first == seq![top] + rest);
        let left = moved_walk(items, plan, below, (limit - first.len()) as nat);
        assert(seq![top] + (rest + left) =~= (seq![top] + rest) + left);
    }
}

proof fn walk_lays_out(items: Seq<SummaryV>, plan: MoveV, visits: Seq<VisitV>, limit: nat)
    ensures
        moved_walk(items, plan, visits.reverse(), limit) == laid_out(items, plan, visits, limit),
    decreases limit,
{
    let stack = visits.reverse();
    if visits.len() > 0 && limit > 0 {
        let top = visits[0];
        assert(stack.last() == top);
        let kids = visits_below(top, moved_children(items, plan, top.block));
        let others = visits.drop_first();
        assert(stack.drop_last() =~= others.reverse());
        walk_splits(items, plan, others.reverse(), kids.reverse(), (limit - 1) as nat);
        walk_lays_out(items, plan, kids, (limit - 1) as nat);
        let below = laid_out(items, plan, kids, (limit - 1) as nat);
        let left = (limit - 1 - below.len()) as nat;
        walk_lays_out(items, plan, others, left);
        let rest = laid_out(items, plan, others, left);
        assert(seq![top] + (below + rest) =~= seq![top] + below + rest);
    }
}

/// The body after a move is listed depth first: the root, then below each block its
/// children in slot order, each with everything below it.
pub proof fn moved_body_is_listed_depth_first(items: Seq<SummaryV>, plan: MoveV, root: int)
    ensures
        moved_order(items, plan, root) == laid_out(
            items,
            plan,
            seq![VisitV { block: root, parent: None, slot: 0, depth: 0 }],
            items.len() + 1,
        ),
{
    let start = seq![VisitV { block: root, parent: None, slot: 0, depth: 0 }];
    walk_lays_out(items, plan, start, items.len() + 1);
    assert(start.reverse() =~= start);
}

// ---------------------------------------------------------------------------
// Acceptance
// ---------------------------------------------------------------------------

/// A block as a visit of the rearranged tree finds it: at the visit's place, with
/// the children it has there, and otherwise as it was.
pub open spec fn found_at(items: Seq<SummaryV>, plan: MoveV, visit: VisitV, b: SummaryV) -> bool {
    let a = items[visit.block];
    &&& a.id == b.id
    &&& a.restrictions == b.restrictions
    &&& a.align == b.align
    &&& a.vertical_align == b.vertical_align
    &&& a.background_color == b.background_color
    &&& content_after(a, b, visit.block == plan.old_parent || visit.block == plan.new_parent)
    &&& visit.parent matches Some(p) ==> b.parent_id == Some(items[p].id)
    &&& visit.parent is None ==> b.parent_id is None
    &&& b.sibling_index == visit.slot
    &&& b.depth == visit.depth
    &&& b.child_count == moved_children(items, plan, visit.block).len()
}

/// A move is accepted exactly where the body afterwards is the rearranged tree,
/// listed depth first, with the same blocks as before. The subtree names no block
/// twice and does not hold the target.
pub proof fn move_is_accepted_where_the_tree_is_rearranged(
    before: SnapshotV,
    after: SnapshotV,
    subtree: Seq<Seq<char>>,
    target: Seq<char>,
    position: WireInsertPosition,
    plan: MoveV,
    root: int,
)
    requires
        unique_ids(before.items),
        unique_ids(after.items),
        rooted_tree(before.items, before.root_id),
        0 <= root < before.items.len(),
        before.items[root].id == before.root_id,
        subtree.len() > 0,
        move_plan(before.items, subtree[0], target, position) == Some(plan),
    ensures
        move_transition(before, after, subtree, target, position) <==> {
            let order = laid_out(
                before.items,
                plan,
                seq![VisitV { block: root, parent: None, slot: 0, depth: 0 }],
                before.items.len() + 1,
            );
            &&& before.space_id == after.space_id
            &&& before.object_id == after.object_id
            &&& before.root_id == after.root_id
            &&& after.items.len() == before.items.len()
            &&& same_identities(before.items, after.items)
            &&& subtree.no_duplicates()
            &&& !subtree.contains(target)
            &&& order.len() == before.items.len()
            &&& forall|k: int|
                0 <= k < order.len() ==> found_at(
                    before.items,
                    plan,
                    #[trigger] order[k],
                    after.items[k],
                )
        },
{
    let items = before.items;
    find_unique(items, root);
    moved_body_is_listed_depth_first(items, plan, root);
    let order = moved_order(items, plan, root);
    assert forall|k: int| 0 <= k < order.len() implies (found_at(
        items,
        plan,
        #[trigger] order[k],
        after.items[k],
    ) <==> kept_by_move(items, plan, order[k], after.items[k])) by {}
    if move_transition(before, after, subtree, target, position) {
        assert forall|k: int| 0 <= k < order.len() implies found_at(
            items,
            plan,
            #[trigger] order[k],
            after.items[k],
        ) by {
            assert(kept_by_move(items, plan, order[k], after.items[k]));
        }
    }
}

/// Two bodies hold the same blocks where each identifier of the one is listed in
/// the other.
pub proof fn same_blocks_are_listed(before: Seq<SummaryV>, after: Seq<SummaryV>)
    ensures
        same_identities(before, after) <==> {
            &&& forall|i: int| 0 <= i < before.len() ==> ids(after).contains(
                (#[trigger] before[i]).id,
            )
            &&& forall|i: int| 0 <= i < after.len() ==> ids(before).contains(
                (#[trigger] after[i]).id,
            )
        },
{
    assert forall|list: Seq<SummaryV>, id: Seq<char>| #[trigger] find(list, id) is Some <==> ids(
        list,
    ).contains(id) by {
        find_facts(list, id);
        if let Some(k) = find(list, id) {
            assert(ids(list)[k] == id);
        }
        if ids(list).contains(id) {
            let k = choose|k: int| 0 <= k < ids(list).len() && ids(list)[k] == id;
            assert(list[k].id == id);
        }
    }
}

/// A body is a rooted tree where the root, and no other block, hangs below none,
/// every parent is listed, and the children of each block take every slot up to
/// their number.
pub proof fn rooted_trees(items: Seq<SummaryV>, root: Seq<char>)
    ensures
        rooted_tree(items, root) <==> forall|i: int|
            0 <= i < items.len() ==> {
                let below = hanging_below(
                    items,
                    (#[trigger] items[i]).id,
                    items.len() as int,
                ).len();
                &&& items[i].parent_id is None <==> items[i].id == root
                &&& items[i].parent_id matches Some(parent) ==> ids(items).contains(parent)
                &&& forall|slot: int|
                    0 <= slot < below ==> #[trigger] slot_is_taken(items, items[i].id, slot)
            },
{
    assert forall|i: int| 0 <= i < items.len() implies (#[trigger] rooted_member(items, root, i)
        <==> {
        let below = hanging_below(items, items[i].id, items.len() as int).len();
        &&& items[i].parent_id is None <==> items[i].id == root
        &&& items[i].parent_id matches Some(parent) ==> ids(items).contains(parent)
        &&& forall|slot: int|
            0 <= slot < below ==> #[trigger] slot_is_taken(items, items[i].id, slot)
    }) by {
        slots_are_filled_where_taken(items, items[i].id);
        if let Some(parent) = items[i].parent_id {
            find_facts(items, parent);
            if let Some(k) = find(items, parent) {
                assert(ids(items)[k] == parent);
            }
            if ids(items).contains(parent) {
                let k = choose|k: int| 0 <= k < ids(items).len() && ids(items)[k] == parent;
                assert(items[k].id == parent);
            }
        }
    }
    if rooted_tree(items, root) {
        assert forall|i: int| 0 <= i < items.len() implies {
            let below = hanging_below(
                items,
                (#[trigger] items[i]).id,
                items.len() as int,
            ).len();
            &&& items[i].parent_id is None <==> items[i].id == root
            &&& items[i].parent_id matches Some(parent) ==> ids(items).contains(parent)
            &&& forall|slot: int|
                0 <= slot < below ==> #[trigger] slot_is_taken(items, items[i].id, slot)
        } by {
            assert(rooted_member(items, root, i));
        }
    }
}

} // verus!
