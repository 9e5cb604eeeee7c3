//! Exact verification of a move inside one body: the moved subtree hangs at the
//! requested place, and the whole body is listed as a depth-first walk of the
//! rearranged tree visits it.

use crate::domain::EntityId;
use crate::model::{BlockSummary, ProjectedSnapshot, SnapshotV, SummaryV};
use crate::text::{all_distinct, contains_same, views, Same};
use crate::transition::{
    content_kept, in_same_scope, presentation_kept, projected_opaque_refresh_content_matches,
    projected_presentation_matches, same_scope,
};
use crate::tree::{
    find, find_block, find_block_text, has_unique_ids, ordered_children, positions, sibling_order,
    slots_filled, unique_ids,
};
use crate::wire::WireInsertPosition;
use vstd::prelude::*;

verus! {

/// Both bodies hold the same identifiers.
pub open spec fn same_identities(before: Seq<SummaryV>, after: Seq<SummaryV>) -> bool {
    &&& forall|i: int| 0 <= i < before.len() ==> find(after, (#[trigger] before[i]).id) is Some
    &&& forall|i: int| 0 <= i < after.len() ==> find(before, (#[trigger] after[i]).id) is Some
}

/// Every block but the root hangs below a listed parent, the root below none,
/// and the children of every block fill their slots.
pub open spec fn rooted_tree(items: Seq<SummaryV>, root: Seq<char>) -> bool {
    forall|i: int| 0 <= i < items.len() ==> #[trigger] rooted_member(items, root, i)
}

/// Block `i` is the root, or hangs below a listed parent; its children fill
/// their slots.
pub open spec fn rooted_member(items: Seq<SummaryV>, root: Seq<char>, i: int) -> bool {
    &&& match items[i].parent_id {
        Some(parent) => items[i].id != root && find(items, parent) is Some,
        None => items[i].id == root,
    }
    &&& slots_filled(items, items[i].id)
}

/// Position of `wanted` at or after `from`.
pub open spec fn slot_from(list: Seq<int>, wanted: int, from: int) -> Option<int>
    decreases list.len() - from,
{
    if from >= list.len() {
        None
    } else if list[from] == wanted {
        Some(from)
    } else {
        slot_from(list, wanted, from + 1)
    }
}

/// First position of `wanted` in a list.
pub open spec fn slot_of(list: Seq<int>, wanted: int) -> Option<int> {
    slot_from(list, wanted, 0)
}

fn find_slot(list: &Vec<usize>, wanted: usize) -> (r: Option<usize>)
    ensures
        match r {
            Some(i) => slot_of(positions(list@), wanted as int) == Some(i as int) && i
                < list.len(),
            None => slot_of(positions(list@), wanted as int) is None,
        },
{
    let mut i: usize = 0;
    while i < list.len()
        invariant
            i <= list.len(),
            slot_of(positions(list@), wanted as int) == slot_from(
                positions(list@),
                wanted as int,
                i as int,
            ),
        decreases list.len() - i,
    {
        assert(positions(list@)[i as int] == list@[i as int]);
        if list[i] == wanted {
            return Some(i);
        }
        i += 1;
    }
    None
}

/// A move of the subtree rooted at block `moved`: its old parent and slot, its
/// new parent, and its slot there once it has left its old place.
pub struct MoveV {
    pub moved: int,
    pub old_parent: int,
    pub old_slot: int,
    pub new_parent: int,
    pub new_slot: int,
}

/// Children of block `p` once the moved block has left its old parent.
pub open spec fn without_moved(
    items: Seq<SummaryV>,
    old_parent: int,
    old_slot: int,
    p: int,
) -> Seq<int> {
    if p == old_parent {
        sibling_order(items, items[p].id).remove(old_slot)
    } else {
        sibling_order(items, items[p].id)
    }
}

/// Children of block `p` after the move.
pub open spec fn moved_children(items: Seq<SummaryV>, plan: MoveV, p: int) -> Seq<int> {
    let kids = without_moved(items, plan.old_parent, plan.old_slot, p);
    if p == plan.new_parent {
        kids.insert(plan.new_slot, plan.moved)
    } else {
        kids
    }
}

/// What a requested move means in this body; nothing where the moved block has
/// no parent, or the target or its parent is not listed.
pub open spec fn move_plan(
    items: Seq<SummaryV>,
    moved_id: Seq<char>,
    target_id: Seq<char>,
    position: WireInsertPosition,
) -> Option<MoveV> {
    match (find(items, moved_id), find(items, target_id)) {
        (Some(moved), Some(target)) => {
            let new_parent_id = match position {
                WireInsertPosition::Before | WireInsertPosition::After => items[target].parent_id,
                WireInsertPosition::FirstChild | WireInsertPosition::LastChild => Some(target_id),
            };
            match (items[moved].parent_id, new_parent_id) {
                (Some(old_id), Some(new_id)) => match (find(items, old_id), find(items, new_id)) {
                    (Some(old_parent), Some(new_parent)) => {
                        match slot_of(sibling_order(items, items[old_parent].id), moved) {
                            Some(old_slot) => {
                                let kids = without_moved(items, old_parent, old_slot, new_parent);
                                let new_slot = match position {
                                    WireInsertPosition::Before => slot_of(kids, target),
                                    WireInsertPosition::After => match slot_of(kids, target) {
                                        Some(slot) => Some(slot + 1),
                                        None => None,
                                    },
                                    WireInsertPosition::FirstChild => Some(0int),
                                    WireInsertPosition::LastChild => Some(kids.len() as int),
                                };
                                match new_slot {
                                    Some(new_slot) => Some(
                                        MoveV { moved, old_parent, old_slot, new_parent, new_slot },
                                    ),
                                    None => None,
                                }
                            },
                            None => None,
                        }
                    },
                    _ => None,
                },
                _ => None,
            }
        },
        _ => None,
    }
}

/// One step of the walk: a block, and where it hangs.
#[verifier::ext_equal]
pub struct VisitV {
    pub block: int,
    pub parent: Option<int>,
    pub slot: int,
    pub depth: int,
}

/// The children of a visited block as further visits.
pub open spec fn visits_below(visit: VisitV, kids: Seq<int>) -> Seq<VisitV> {
    Seq::new(
        kids.len(),
        |k: int|
            VisitV { block: kids[k], parent: Some(visit.block), slot: k, depth: visit.depth + 1 },
    )
}

/// Depth-first walk of the rearranged tree from the top of a stack, of at most
/// `fuel` visits.
pub open spec fn moved_walk(
    items: Seq<SummaryV>,
    plan: MoveV,
    stack: Seq<VisitV>,
    fuel: nat,
) -> Seq<VisitV>
    decreases fuel,
{
    if stack.len() == 0 || fuel == 0 {
        Seq::empty()
    } else {
        let top = stack.last();
        seq![top] + moved_walk(
            items,
            plan,
            stack.drop_last() + visits_below(
                top,
                moved_children(items, plan, top.block),
            ).reverse(),
            (fuel - 1) as nat,
        )
    }
}

/// The walk of the whole rearranged body. It is cut one visit beyond the number
/// of blocks.
pub open spec fn moved_order(items: Seq<SummaryV>, plan: MoveV, root: int) -> Seq<VisitV> {
    moved_walk(
        items,
        plan,
        seq![VisitV { block: root, parent: None, slot: 0, depth: 0 }],
        items.len() + 1,
    )
}

/// A block after the move: it stands where the walk visits it, and keeps
/// everything but its place; the old and the new parent may report another size
/// where they are opaque.
pub open spec fn kept_by_move(
    items: Seq<SummaryV>,
    plan: MoveV,
    visit: VisitV,
    current: SummaryV,
) -> bool {
    let prior = items[visit.block];
    &&& current.id == prior.id
    &&& content_kept(
        prior,
        current,
        visit.block == plan.old_parent || visit.block == plan.new_parent,
    )
    &&& prior.restrictions == current.restrictions
    &&& presentation_kept(prior, current)
    &&& current.parent_id == match visit.parent {
        Some(parent) => Some(items[parent].id),
        None => None,
    }
    &&& current.sibling_index == visit.slot
    &&& current.depth == visit.depth
    &&& current.child_count == moved_children(items, plan, visit.block).len()
}

/// `after` is `before` with exactly the subtree moved to exactly the requested
/// place.
pub open spec fn move_transition(
    before: SnapshotV,
    after: SnapshotV,
    subtree: Seq<Seq<char>>,
    target: Seq<char>,
    position: WireInsertPosition,
) -> bool {
    &&& same_scope(before, after)
    &&& unique_ids(before.items)
    &&& unique_ids(after.items)
    &&& same_identities(before.items, after.items)
    &&& subtree.len() > 0
    &&& subtree.no_duplicates()
    &&& !subtree.contains(target)
    &&& rooted_tree(before.items, before.root_id)
    &&& find(before.items, before.root_id) matches Some(root) && move_plan(
        before.items,
        subtree[0],
        target,
        position,
    ) matches Some(plan) && {
        let order = moved_order(before.items, plan, root);
        &&& order.len() == before.items.len()
        &&& after.items.len() == before.items.len()
        &&& forall|k: int|
            0 <= k < order.len() ==> kept_by_move(
                before.items,
                plan,
                #[trigger] order[k],
                after.items[k],
            )
    }
}

/// Tests that both bodies hold the same identifiers.
pub fn has_same_identities(before: &Vec<BlockSummary>, after: &Vec<BlockSummary>) -> (r: bool)
    ensures
        r == same_identities(views(before@), views(after@)),
{
    let ghost b = views(before@);
    let ghost a = views(after@);
    let mut i: usize = 0;
    while i < before.len()
        invariant
            i <= before.len(),
            b == views(before@),
            a == views(after@),
            forall|k: int| 0 <= k < i ==> find(a, (#[trigger] b[k]).id) is Some,
        decreases before.len() - i,
    {
        assert(b[i as int].id == before@[i as int].id@);
        if find_block(after, &before[i].id).is_none() {
            assert(find(a, b[i as int].id) is None);
            return false;
        }
        i += 1;
    }
    let mut j: usize = 0;
    while j < after.len()
        invariant
            j <= after.len(),
            b == views(before@),
            a == views(after@),
            forall|k: int| 0 <= k < j ==> find(b, (#[trigger] a[k]).id) is Some,
        decreases after.len() - j,
    {
        assert(a[j as int].id == after@[j as int].id@);
        if find_block(before, &after[j].id).is_none() {
            assert(find(b, a[j as int].id) is None);
            return false;
        }
        j += 1;
    }
    true
}

fn is_rooted_tree(items: &Vec<BlockSummary>, root: &EntityId) -> (r: bool)
    ensures
        r == rooted_tree(views(items@), root@),
{
    let ghost list = views(items@);
    let mut i: usize = 0;
    while i < items.len()
        invariant
            i <= items.len(),
            list == views(items@),
            forall|k: int| 0 <= k < i ==> #[trigger] rooted_member(list, root@, k),
        decreases items.len() - i,
    {
        assert(list[i as int] == items@[i as int]@);
        let is_root: bool = items[i].id.same(root);
        let parent_ok: bool = match &items[i].parent_id {
            Some(parent) => !is_root && find_block(items, parent).is_some(),
            None => is_root,
        };
        if !parent_ok || ordered_children(items, &items[i].id).is_none() {
            assert(!rooted_member(list, root@, i as int));
            return false;
        }
        assert(rooted_member(list, root@, i as int));
        i += 1;
    }
    true
}

/// What a requested move means in a body.
#[derive(Clone, Copy, Debug, PartialEq, Eq, Structural)]
pub struct MovePlan {
    pub moved: usize,
    pub old_parent: usize,
    pub old_slot: usize,
    pub new_parent: usize,
    pub new_slot: usize,
}

impl View for MovePlan {
    type V = MoveV;

    open spec fn view(&self) -> MoveV {
        MoveV {
            moved: self.moved as int,
            old_parent: self.old_parent as int,
            old_slot: self.old_slot as int,
            new_parent: self.new_parent as int,
            new_slot: self.new_slot as int,
        }
    }
}

/// Every position that a plan names is listed.
pub open spec fn plan_in_bounds(items: Seq<SummaryV>, plan: MoveV) -> bool {
    &&& 0 <= plan.moved < items.len()
    &&& 0 <= plan.old_parent < items.len()
    &&& 0 <= plan.new_parent < items.len()
    &&& 0 <= plan.old_slot < sibling_order(items, items[plan.old_parent].id).len()
    &&& 0 <= plan.new_slot <= without_moved(
        items,
        plan.old_parent,
        plan.old_slot,
        plan.new_parent,
    ).len()
}

fn children_without_moved(
    items: &Vec<BlockSummary>,
    old_parent: usize,
    old_slot: usize,
    p: usize,
) -> (r: Vec<usize>)
    requires
        p < items.len(),
        slots_filled(views(items@), views(items@)[p as int].id),
        p == old_parent ==> old_slot < sibling_order(
            views(items@),
            views(items@)[p as int].id,
        ).len(),
    ensures
        positions(r@) == without_moved(
            views(items@),
            old_parent as int,
            old_slot as int,
            p as int,
        ),
        forall|k: int| 0 <= k < r.len() ==> (#[trigger] r@[k]) < items.len(),
{
    assert(views(items@)[p as int].id == items@[p as int].id@);
    let mut kids: Vec<usize> = match ordered_children(items, &items[p].id) {
        Some(kids) => kids,
        None => {
            assert(false);
            Vec::new()
        },
    };
    let ghost whole = kids@;
    if p == old_parent {
        assert(positions(whole).len() == whole.len());
        kids.remove(old_slot);
        assert(positions(kids@) =~= positions(whole).remove(old_slot as int));
    }
    kids
}

fn children_after_move(items: &Vec<BlockSummary>, plan: &MovePlan, p: usize) -> (r: Vec<usize>)
    requires
        p < items.len(),
        slots_filled(views(items@), views(items@)[p as int].id),
        plan_in_bounds(views(items@), plan@),
    ensures
        positions(r@) == moved_children(views(items@), plan@, p as int),
        r.len() == moved_children(views(items@), plan@, p as int).len(),
        forall|k: int| 0 <= k < r.len() ==> (#[trigger] r@[k]) < items.len(),
{
    let mut kids: Vec<usize> = children_without_moved(items, plan.old_parent, plan.old_slot, p);
    let ghost whole = kids@;
    assert(positions(whole).len() == whole.len());
    if p == plan.new_parent {
        kids.insert(plan.new_slot, plan.moved);
        assert(positions(kids@) =~= positions(whole).insert(
            plan.new_slot as int,
            plan.moved as int,
        ));
    }
    assert(positions(kids@).len() == kids.len());
    kids
}

/// Works out what a requested move means.
pub fn resolve_move(
    items: &Vec<BlockSummary>,
    root: &EntityId,
    moved_id: &String,
    target_id: &EntityId,
    position: WireInsertPosition,
) -> (r: Option<MovePlan>)
    requires
        rooted_tree(views(items@), root@),
    ensures
        match r {
            Some(plan) => move_plan(views(items@), moved_id@, target_id@, position) == Some(plan@)
                && plan_in_bounds(views(items@), plan@),
            None => move_plan(views(items@), moved_id@, target_id@, position) is None,
        },
{
    let ghost list = views(items@);
    let moved: usize = match find_block_text(items, moved_id) {
        Some(moved) => moved,
        None => {
            return None;
        },
    };
    let target: usize = match find_block(items, target_id) {
        Some(target) => target,
        None => {
            return None;
        },
    };
    assert(list[moved as int] == items@[moved as int]@);
    assert(list[target as int] == items@[target as int]@);
    let new_id: &EntityId = match position {
        WireInsertPosition::Before | WireInsertPosition::After => match &items[target].parent_id {
            Some(parent) => parent,
            None => {
                return None;
            },
        },
        WireInsertPosition::FirstChild | WireInsertPosition::LastChild => target_id,
    };
    let old_parent: usize = match &items[moved].parent_id {
        Some(parent) => match find_block(items, parent) {
            Some(found) => found,
            None => {
                return None;
            },
        },
        None => {
            return None;
        },
    };
    let new_parent: usize = match find_block(items, new_id) {
        Some(found) => found,
        None => {
            return None;
        },
    };
    assert(list[old_parent as int].id == items@[old_parent as int].id@);
    assert(rooted_member(list, root@, old_parent as int));
    assert(rooted_member(list, root@, new_parent as int));
    let siblings: Vec<usize> = match ordered_children(items, &items[old_parent].id) {
        Some(siblings) => siblings,
        None => {
            return None;
        },
    };
    assert(positions(siblings@).len() == siblings.len());
    let old_slot: usize = match find_slot(&siblings, moved) {
        Some(slot) => slot,
        None => {
            return None;
        },
    };
    let kids: Vec<usize> = children_without_moved(items, old_parent, old_slot, new_parent);
    assert(positions(kids@).len() == kids.len());
    let new_slot: usize = match position {
        WireInsertPosition::Before => match find_slot(&kids, target) {
            Some(slot) => slot,
            None => {
                return None;
            },
        },
        WireInsertPosition::After => match find_slot(&kids, target) {
            Some(slot) => slot + 1,
            None => {
                return None;
            },
        },
        WireInsertPosition::FirstChild => 0,
        WireInsertPosition::LastChild => kids.len(),
    };
    Some(MovePlan { moved, old_parent, old_slot, new_parent, new_slot })
}

#[derive(Clone, Copy)]
struct Visit {
    block: usize,
    parent: Option<usize>,
    slot: usize,
    depth: u64,
}

impl View for Visit {
    type V = VisitV;

    closed spec fn view(&self) -> VisitV {
        VisitV {
            block: self.block as int,
            parent: match self.parent {
                Some(parent) => Some(parent as int),
                None => None,
            },
            slot: self.slot as int,
            depth: self.depth as int,
        }
    }
}

spec fn visit_in_bounds(items: Seq<SummaryV>, visit: Visit, depth: int) -> bool {
    &&& visit.block < items.len()
    &&& visit.parent matches Some(parent) ==> parent < items.len()
    &&& visit.depth <= depth
}

fn kept_under_move(
    items: &Vec<BlockSummary>,
    plan: &MovePlan,
    visit: &Visit,
    children: usize,
    current: &BlockSummary,
) -> (r: bool)
    requires
        visit_in_bounds(views(items@), *visit, u64::MAX as int),
        children == moved_children(views(items@), plan@, visit.block as int).len(),
    ensures
        r == kept_by_move(views(items@), plan@, visit@, current@),
{
    let ghost list = views(items@);
    let prior: &BlockSummary = &items[visit.block];
    assert(list[visit.block as int] == prior@);
    let parent_ok: bool = match (visit.parent, &current.parent_id) {
        (Some(parent), Some(found)) => {
            assert(list[parent as int].id == items@[parent as int].id@);
            found.same(&items[parent].id)
        },
        (None, None) => true,
        _ => false,
    };
    current.id.same(&prior.id) && projected_opaque_refresh_content_matches(
        prior,
        current,
        visit.block == plan.old_parent || visit.block == plan.new_parent,
    ) && prior.restrictions == current.restrictions && projected_presentation_matches(
        prior,
        current,
    ) && parent_ok && current.sibling_index == visit.slot as u64 && current.depth == visit.depth
        && current.child_count == children as u64
}

/// Walks the rearranged tree and holds every visited block against the block
/// that `after` lists there.
fn walk_matches(
    before: &Vec<BlockSummary>,
    after: &Vec<BlockSummary>,
    root_id: &EntityId,
    root: usize,
    plan: &MovePlan,
) -> (r: bool)
    requires
        root < before.len(),
        after.len() == before.len(),
        rooted_tree(views(before@), root_id@),
        plan_in_bounds(views(before@), plan@),
    ensures
        r == ({
            let order = moved_order(views(before@), plan@, root as int);
            &&& order.len() == before.len()
            &&& forall|k: int|
                0 <= k < order.len() ==> kept_by_move(
                    views(before@),
                    plan@,
                    #[trigger] order[k],
                    views(after@)[k],
                )
        }),
{
    let ghost b = views(before@);
    let ghost a = views(after@);
    let ghost order = moved_order(b, plan@, root as int);
    let ghost n = before.len() as int;
    let mut stack: Vec<Visit> = Vec::new();
    stack.push(Visit { block: root, parent: None, slot: 0, depth: 0 });
    let mut seen: usize = 0;
    assert(views(stack@) =~= seq![VisitV { block: root as int, parent: None, slot: 0, depth: 0 }]);
    assert(order.subrange(0, order.len() as int) =~= order);
    while stack.len() > 0
        invariant
            b == views(before@),
            a == views(after@),
            n == before.len(),
            after.len() == before.len(),
            rooted_tree(b, root_id@),
            plan_in_bounds(b, plan@),
            order == moved_order(b, plan@, root as int),
            seen <= n,
            seen <= order.len(),
            order.subrange(seen as int, order.len() as int) == moved_walk(
                b,
                plan@,
                views(stack@),
                (n + 1 - seen) as nat,
            ),
            forall|k: int|
                0 <= k < seen ==> kept_by_move(b, plan@, #[trigger] order[k], a[k]),
            forall|k: int|
                0 <= k < stack.len() ==> visit_in_bounds(
                    b,
                    #[trigger] stack@[k],
                    seen as int,
                ),
        decreases n - seen, stack.len(),
    {
        let ghost rest = moved_walk(b, plan@, views(stack@), (n + 1 - seen) as nat);
        let ghost before_stack = stack@;
        assert(views(before_stack).len() == before_stack.len());
        assert(rest.len() > 0);
        assert(rest[0] == views(before_stack).last());
        assert(order[seen as int] == rest[0]);
        if seen >= before.len() {
            assert(order.len() > n);
            return false;
        }
        let top: Visit = match stack.pop() {
            Some(top) => top,
            None => {
                return false;
            },
        };
        assert(top == before_stack.last());
        assert(views(before_stack).last() == top@);
        assert(visit_in_bounds(b, before_stack.last(), seen as int));
        assert(rooted_member(b, root_id@, top.block as int));
        let kids: Vec<usize> = children_after_move(before, plan, top.block);
        assert(a[seen as int] == after@[seen as int]@);
        if !kept_under_move(before, plan, &top, kids.len(), &after[seen]) {
            assert(!kept_by_move(b, plan@, order[seen as int], a[seen as int]));
            return false;
        }
        let ghost below = visits_below(top@, moved_children(b, plan@, top.block as int));
        let mut k: usize = kids.len();
        while k > 0
            invariant
                k <= kids.len(),
                b == views(before@),
                n == before.len(),
                seen < n,
                top.block < n,
                top.depth <= seen,
                positions(kids@) == moved_children(b, plan@, top.block as int),
                below == visits_below(top@, moved_children(b, plan@, top.block as int)),
                below.len() == kids.len(),
                before_stack.len() > 0,
                forall|j: int| 0 <= j < kids.len() ==> (#[trigger] kids@[j]) < before.len(),
                forall|j: int|
                    0 <= j < stack.len() ==> visit_in_bounds(
                        b,
                        #[trigger] stack@[j],
                        seen as int + 1,
                    ),
                views(stack@) =~= views(before_stack).drop_last() + below.subrange(
                    k as int,
                    kids.len() as int,
                ).reverse(),
            decreases k,
        {
            k -= 1;
            let ghost prior_stack = stack@;
            let visit = Visit {
                block: kids[k],
                parent: Some(top.block),
                slot: k,
                depth: top.depth + 1,
            };
            stack.push(visit);
            assert(positions(kids@)[k as int] == kids@[k as int]);
            assert(visit@ =~= below[k as int]);
            assert(views(stack@) =~= views(prior_stack).push(visit@));
            assert(below.subrange(k as int, kids.len() as int).reverse() =~= below.subrange(
                k as int + 1,
                kids.len() as int,
            ).reverse().push(below[k as int]));
        }
        proof {
            assert(below.subrange(0, kids.len() as int) =~= below);
            let tail = moved_walk(b, plan@, views(stack@), (n - seen) as nat);
            assert(rest =~= seq![top@] + tail);
            assert(order.subrange(seen as int + 1, order.len() as int) =~= rest.subrange(
                1,
                rest.len() as int,
            ));
            assert(rest.subrange(1, rest.len() as int) =~= tail);
        }
        seen += 1;
    }
    assert(views(stack@).len() == 0);
    assert(order.subrange(seen as int, order.len() as int).len() == 0);
    seen == before.len()
}

/// Decides whether `after` is `before` with exactly the subtree moved to
/// exactly the requested place.
pub fn verify_move_transition(
    before: &ProjectedSnapshot,
    after: &ProjectedSnapshot,
    subtree: &Vec<String>,
    target_id: &EntityId,
    position: WireInsertPosition,
) -> (r: bool)
    ensures
        r == move_transition(before@, after@, views(subtree@), target_id@, position),
{
    let ghost b = before@;
    let ghost a = after@;
    if !in_same_scope(before, after) || !has_unique_ids(&before.items) || !has_unique_ids(
        &after.items,
    ) || !has_same_identities(&before.items, &after.items) {
        return false;
    }
    if subtree.len() == 0 || !all_distinct(subtree) || contains_same(
        subtree,
        &target_id.as_str().to_owned(),
    ) {
        return false;
    }
    if !is_rooted_tree(&before.items, &before.root_id) {
        return false;
    }
    let root: usize = match find_block(&before.items, &before.root_id) {
        Some(root) => root,
        None => {
            return false;
        },
    };
    assert(views(subtree@)[0] == subtree@[0]@);
    let plan: MovePlan = match resolve_move(
        &before.items,
        &before.root_id,
        &subtree[0],
        target_id,
        position,
    ) {
        Some(plan) => plan,
        None => {
            return false;
        },
    };
    if after.items.len() != before.items.len() {
        return false;
    }
    walk_matches(&before.items, &after.items, &before.root_id, root, &plan)
}

} // verus!
