//! What the lookups of a shown body give: the children of a block, the end of its
//! subtree, and where a new block goes.

use crate::creation::{insertion_point, subtree_end, end_from};
use crate::model::SummaryV;
use crate::tree::{
    child_at, child_at_facts, child_total, direct_children, find, find_facts, ids, sibling_order,
    slots_filled, unique_ids, walk,
};
use crate::wire::WireInsertPosition;
use vstd::prelude::*;

verus! {

/// Positions before `n` of the blocks that hang below a parent.
pub open spec fn hanging_below(items: Seq<SummaryV>, parent: Seq<char>, n: int) -> Set<int> {
    Set::new(|i: int| 0 <= i < n && items[i].parent_id == Some(parent))
}

proof fn hanging_is_counted(items: Seq<SummaryV>, parent: Seq<char>, n: int)
    requires
        0 <= n <= items.len(),
    ensures
        hanging_below(items, parent, n).finite(),
        hanging_below(items, parent, n).len() == child_total(items, parent, n),
    decreases n,
{
    let now = hanging_below(items, parent, n);
    if n > 0 {
        hanging_is_counted(items, parent, n - 1);
        let fewer = hanging_below(items, parent, n - 1);
        if items[n - 1].parent_id == Some(parent) {
            assert(now =~= fewer.insert(n - 1));
            assert(!fewer.contains(n - 1));
        } else {
            assert(now =~= fewer);
        }
    } else {
        assert(now =~= Set::<int>::empty());
    }
}

/// Slots before `n` that are filled, as the blocks that fill them.
spec fn filling(items: Seq<SummaryV>, parent: Seq<char>, n: int) -> Set<int> {
    Set::new(
        |i: int|
            exists|slot: int|
                0 <= slot < n && #[trigger] child_at(items, parent, slot) == Some(i),
    )
}

proof fn fillings_are_counted(items: Seq<SummaryV>, parent: Seq<char>, n: int)
    requires
        0 <= n,
        forall|slot: int| 0 <= slot < n ==> (#[trigger] child_at(items, parent, slot)) is Some,
    ensures
        filling(items, parent, n).finite(),
        filling(items, parent, n).len() == n,
    decreases n,
{
    let now = filling(items, parent, n);
    if n > 0 {
        fillings_are_counted(items, parent, n - 1);
        let fewer = filling(items, parent, n - 1);
        let added = child_at(items, parent, n - 1)->0;
        assert(child_at(items, parent, n - 1) == Some(added));
        child_at_facts(items, parent, n - 1);
        assert(now =~= fewer.insert(added)) by {
            assert forall|i: int| now.contains(i) implies fewer.insert(added).contains(i) by {
                let slot = choose|slot: int|
                    0 <= slot < n && #[trigger] child_at(items, parent, slot) == Some(i);
                if slot < n - 1 {
                    assert(fewer.contains(i));
                }
            }
            assert forall|i: int| fewer.insert(added).contains(i) implies now.contains(i) by {
                if i != added {
                    let slot = choose|slot: int|
                        0 <= slot < n - 1 && #[trigger] child_at(items, parent, slot) == Some(i);
                    assert(child_at(items, parent, slot) == Some(i));
                }
            }
        }
        if fewer.contains(added) {
            let slot = choose|slot: int|
                0 <= slot < n - 1 && #[trigger] child_at(items, parent, slot) == Some(added);
            child_at_facts(items, parent, slot);
        }
    } else {
        assert(now =~= Set::<int>::empty());
    }
}

/// Where the children of a block fill their slots, its siblings in order are all
/// the blocks that hang below it, each at its slot.
pub proof fn siblings_are_the_blocks_below(items: Seq<SummaryV>, parent: Seq<char>)
    requires
        slots_filled(items, parent),
    ensures
        ({
            let kids = sibling_order(items, parent);
            &&& kids.len() == hanging_below(items, parent, items.len() as int).len()
            &&& forall|k: int|
                0 <= k < kids.len() ==> 0 <= (#[trigger] kids[k]) < items.len()
                    && items[kids[k]].parent_id == Some(parent) && items[kids[k]].sibling_index
                    == k
            &&& forall|i: int|
                0 <= i < items.len() && (#[trigger] items[i]).parent_id == Some(parent) ==> {
                    &&& 0 <= items[i].sibling_index < kids.len()
                    &&& kids[items[i].sibling_index] == i
                }
        }),
{
    let n = items.len() as int;
    hanging_is_counted(items, parent, n);
    let total = child_total(items, parent, n);
    let kids = sibling_order(items, parent);
    fillings_are_counted(items, parent, total);
    let full = hanging_below(items, parent, n);
    let filled = filling(items, parent, total);
    assert forall|i: int| filled.contains(i) implies full.contains(i) by {
        let slot = choose|slot: int|
            0 <= slot < total && #[trigger] child_at(items, parent, slot) == Some(i);
        child_at_facts(items, parent, slot);
    }
    vstd::set_lib::lemma_subset_equality(filled, full);
    assert forall|k: int| 0 <= k < kids.len() implies 0 <= (#[trigger] kids[k]) < items.len()
        && items[kids[k]].parent_id == Some(parent) && items[kids[k]].sibling_index == k by {
        child_at_facts(items, parent, k);
        assert(child_at(items, parent, k) is Some);
    }
    assert forall|i: int| 0 <= i < items.len() && (#[trigger] items[i]).parent_id == Some(
        parent,
    ) implies 0 <= items[i].sibling_index < kids.len() && kids[items[i].sibling_index] == i by {
        assert(full.contains(i));
        assert(filled.contains(i));
        let slot = choose|slot: int|
            0 <= slot < total && #[trigger] child_at(items, parent, slot) == Some(i);
        child_at_facts(items, parent, slot);
        assert(kids[slot] == i);
    }
}

/// The children of a block are the blocks that hang below it, each at its slot:
/// no slot is empty or taken twice, and no child is left out. They are given
/// exactly where the block is listed, reports as many children as hang below it,
/// and every slot up to that number is taken.
pub proof fn children_are_the_blocks_below(items: Seq<SummaryV>, parent: Seq<char>)
    ensures
        direct_children(items, parent) matches Some(kids) ==> {
            &&& forall|k: int|
                0 <= k < kids.len() ==> 0 <= (#[trigger] kids[k]) < items.len()
                    && items[kids[k]].parent_id == Some(parent) && items[kids[k]].sibling_index
                    == k
            &&& forall|i: int|
                0 <= i < items.len() && (#[trigger] items[i]).parent_id == Some(parent)
                    ==> kids.contains(i)
            &&& find(items, parent) matches Some(p) && items[p].child_count == kids.len()
            &&& kids.len() == hanging_below(items, parent, items.len() as int).len()
        },
        direct_children(items, parent) is Some <==> (find(items, parent) matches Some(p)
            && items[p].child_count == hanging_below(items, parent, items.len() as int).len()
            && forall|slot: int|
            0 <= slot < items[p].child_count ==> #[trigger] slot_is_taken(items, parent, slot)),
{
    let n = items.len() as int;
    hanging_is_counted(items, parent, n);
    let total = child_total(items, parent, n);
    assert forall|slot: int| (#[trigger] child_at(items, parent, slot)) is Some <==> slot_is_taken(
        items,
        parent,
        slot,
    ) by {
        slot_is_found(items, parent, slot, 0);
        child_at_facts(items, parent, slot);
        if let Some(i) = child_at(items, parent, slot) {
            assert(items[i].parent_id == Some(parent));
        }
    }
    if direct_children(items, parent) is Some {
        let kids = direct_children(items, parent)->0;
        siblings_are_the_blocks_below(items, parent);
        assert forall|i: int| 0 <= i < items.len() && (#[trigger] items[i]).parent_id == Some(
            parent,
        ) implies kids.contains(i) by {
            assert(kids[items[i].sibling_index] == i);
        }
        let p = find(items, parent)->0;
        assert forall|slot: int| 0 <= slot < items[p].child_count implies #[trigger] slot_is_taken(
            items,
            parent,
            slot,
        ) by {
            assert(child_at(items, parent, slot) is Some);
        }
    } else if let Some(p) = find(items, parent) {
        if items[p].child_count == hanging_below(items, parent, n).len() && (forall|slot: int|
            0 <= slot < items[p].child_count ==> #[trigger] slot_is_taken(items, parent, slot)) {
            assert forall|slot: int| 0 <= slot < total implies (#[trigger] child_at(
                items,
                parent,
                slot,
            )) is Some by {
                assert(slot_is_taken(items, parent, slot));
            }
        }
    }
}

/// The children of a block fill their slots where every slot up to their number is
/// taken.
pub proof fn slots_are_filled_where_taken(items: Seq<SummaryV>, parent: Seq<char>)
    ensures
        slots_filled(items, parent) <==> forall|slot: int|
            0 <= slot < hanging_below(items, parent, items.len() as int).len()
                ==> #[trigger] slot_is_taken(items, parent, slot),
{
    hanging_is_counted(items, parent, items.len() as int);
    assert forall|slot: int| (#[trigger] child_at(items, parent, slot)) is Some <==> slot_is_taken(
        items,
        parent,
        slot,
    ) by {
        slot_is_found(items, parent, slot, 0);
        child_at_facts(items, parent, slot);
        if let Some(i) = child_at(items, parent, slot) {
            assert(items[i].parent_id == Some(parent));
        }
    }
    if slots_filled(items, parent) {
        assert forall|slot: int|
            0 <= slot < hanging_below(items, parent, items.len() as int).len() implies #[trigger]
        slot_is_taken(items, parent, slot) by {
            assert(child_at(items, parent, slot) is Some);
        }
    } else {
        let slot = choose|slot: int|
            0 <= slot < child_total(items, parent, items.len() as int) && (#[trigger] child_at(
                items,
                parent,
                slot,
            )) is None;
        assert(!slot_is_taken(items, parent, slot));
    }
}

/// Some block hangs below a parent at a slot.
pub open spec fn slot_is_taken(items: Seq<SummaryV>, parent: Seq<char>, slot: int) -> bool {
    exists|i: int|
        0 <= i < items.len() && (#[trigger] items[i]).parent_id == Some(parent)
            && items[i].sibling_index == slot
}

proof fn slot_is_found(items: Seq<SummaryV>, parent: Seq<char>, slot: int, from: int)
    requires
        0 <= from,
    ensures
        crate::tree::child_from(items, parent, slot, from) is None ==> forall|i: int|
            from <= i < items.len() ==> !((#[trigger] items[i]).parent_id == Some(parent)
                && items[i].sibling_index == slot),
    decreases items.len() - from,
{
    if from < items.len() {
        slot_is_found(items, parent, slot, from + 1);
    }
}

// ---------------------------------------------------------------------------
// Insertion points
// ---------------------------------------------------------------------------

proof fn end_is_first_no_deeper(items: Seq<SummaryV>, depth: int, from: int)
    requires
        0 <= from <= items.len(),
    ensures
        from <= end_from(items, depth, from) <= items.len(),
        forall|i: int|
            from <= i < end_from(items, depth, from) ==> (#[trigger] items[i]).depth > depth,
        end_from(items, depth, from) < items.len() ==> items[end_from(items, depth, from)].depth
            <= depth,
    decreases items.len() - from,
{
    if from < items.len() && items[from].depth > depth {
        end_is_first_no_deeper(items, depth, from + 1);
    }
}

/// The subtree of a block ends before the first later block that is no deeper, or
/// with the body.
pub proof fn subtree_ends_before_the_next_no_deeper_block(items: Seq<SummaryV>, root: int)
    requires
        0 <= root < items.len(),
    ensures
        root < subtree_end(items, root) <= items.len(),
        forall|i: int|
            root < i < subtree_end(items, root) ==> (#[trigger] items[i]).depth
                > items[root].depth,
        subtree_end(items, root) < items.len() ==> items[subtree_end(items, root)].depth
            <= items[root].depth,
{
    end_is_first_no_deeper(items, items[root].depth, root + 1);
}

/// A new block goes where it was asked for. Before a target, it takes the slot and
/// the place of the target. After a target, it takes the next slot, behind the
/// target's subtree. As a first child, it takes slot zero, directly behind the
/// target. As a last child, it takes the slot behind the target's children, behind
/// the target's subtree. Beside a target it hangs below the target's parent.
pub proof fn new_block_goes_where_asked(
    items: Seq<SummaryV>,
    target: Seq<char>,
    position: WireInsertPosition,
    t: int,
)
    requires
        unique_ids(items),
        0 <= t < items.len(),
        items[t].id == target,
    ensures
        ({
            let end = subtree_end(items, t);
            let (parent, slot, place) = match position {
                WireInsertPosition::Before => (items[t].parent_id, items[t].sibling_index, t),
                WireInsertPosition::After => (items[t].parent_id, items[t].sibling_index + 1, end),
                WireInsertPosition::FirstChild => (Some(target), 0, t + 1),
                WireInsertPosition::LastChild => (Some(target), items[t].child_count, end),
            };
            match insertion_point(items, target, position) {
                Some(point) => parent is Some && 0 <= point.parent < items.len()
                    && items[point.parent].id == parent->0 && point.sibling_index == slot
                    && point.dfs_index == place && slot <= u64::MAX,
                None => parent is None || slot > u64::MAX || forall|i: int|
                    0 <= i < items.len() ==> (#[trigger] items[i]).id != parent->0,
            }
        }),
{
    crate::tree::find_unique(items, t);
    if let Some(parent) = items[t].parent_id {
        find_facts(items, parent);
    }
}

/// Beside or below a target that is not listed no block can go.
pub proof fn nothing_goes_beside_an_unlisted_target(
    items: Seq<SummaryV>,
    target: Seq<char>,
    position: WireInsertPosition,
)
    requires
        forall|i: int| 0 <= i < items.len() ==> (#[trigger] items[i]).id != target,
    ensures
        insertion_point(items, target, position) is None,
{
    find_facts(items, target);
}

/// No identifier occurs twice where no two blocks share one.
pub proof fn identifiers_are_unique(items: Seq<SummaryV>)
    ensures
        unique_ids(items) <==> forall|a: int, b: int|
            0 <= a < b < items.len() ==> (#[trigger] items[a]).id != (#[trigger] items[b]).id,
{
    if unique_ids(items) {
        assert forall|a: int, b: int| 0 <= a < b < items.len() implies (#[trigger] items[a]).id != (
        #[trigger] items[b]).id by {
            assert(ids(items)[a] != ids(items)[b]);
        }
    } else {
        let (a, b) = choose|a: int, b: int|
            0 <= a < ids(items).len() && 0 <= b < ids(items).len() && a != b && ids(items)[a]
                == ids(items)[b];
        if a < b {
            assert(items[a].id == items[b].id);
        } else {
            assert(items[b].id == items[a].id);
        }
    }
}

// ---------------------------------------------------------------------------
// Walks
// ---------------------------------------------------------------------------

proof fn walk_needs_its_length(items: Seq<SummaryV>, stack: Seq<int>, fuel: nat, more: nat)
    requires
        walk(items, stack, fuel) is Some,
        more >= (walk(items, stack, fuel)->0).len(),
    ensures
        walk(items, stack, more) == walk(items, stack, fuel),
        (walk(items, stack, fuel)->0).len() <= fuel,
    decreases fuel,
{
    if stack.len() > 0 {
        let kids = direct_children(items, items[stack.last()].id)->0;
        let next = stack.drop_last() + kids.reverse();
        let rest = walk(items, next, (fuel - 1) as nat)->0;
        assert(walk(items, stack, fuel)->0 == seq![stack.last()] + rest);
        walk_needs_its_length(items, next, (fuel - 1) as nat, (more - 1) as nat);
    }
}

proof fn walk_splits(items: Seq<SummaryV>, below: Seq<int>, above: Seq<int>, fuel: nat)
    requires
        walk(items, below + above, fuel) is Some,
    ensures
        walk(items, above, fuel) is Some,
        walk(items, below, fuel) is Some,
        walk(items, below + above, fuel)->0 == walk(items, above, fuel)->0 + walk(
            items,
            below,
            fuel,
        )->0,
    decreases fuel,
{
    let whole = walk(items, below + above, fuel)->0;
    if above.len() == 0 {
        assert(below + above =~= below);
        assert(Seq::<int>::empty() + whole =~= whole);
    } else {
        let top = above.last();
        assert((below + above).last() == top);
        let kids = (direct_children(items, items[top].id)->0).reverse();
        assert((below + above).drop_last() + kids =~= below + (above.drop_last() + kids));
        walk_splits(items, below, above.drop_last() + kids, (fuel - 1) as nat);
        let first = walk(items, above.drop_last() + kids, (fuel - 1) as nat)->0;
        let rest = walk(items, below, (fuel - 1) as nat)->0;
        walk_needs_its_length(items, below, (fuel - 1) as nat, rest.len());
        walk_needs_its_length(items, below, (fuel - 1) as nat, fuel);
        assert(seq![top] + (first + rest) =~= (seq![top] + first) + rest);
    }
}

/// The walks of the first `n` of some blocks, one after another.
pub open spec fn walks_of(items: Seq<SummaryV>, blocks: Seq<int>, n: int, fuel: nat) -> Seq<int>
    decreases n,
{
    if n <= 0 {
        Seq::empty()
    } else {
        walks_of(items, blocks, n - 1, fuel) + walk(items, seq![blocks[n - 1]], fuel)->0
    }
}

proof fn walks_of_prefix(items: Seq<SummaryV>, blocks: Seq<int>, n: int, fuel: nat)
    requires
        0 <= n < blocks.len(),
    ensures
        walks_of(items, blocks, n, fuel) == walks_of(items, blocks.drop_last(), n, fuel),
    decreases n,
{
    if n > 0 {
        walks_of_prefix(items, blocks, n - 1, fuel);
        assert(blocks.drop_last()[n - 1] == blocks[n - 1]);
    }
}

proof fn walked_in_order(items: Seq<SummaryV>, blocks: Seq<int>, fuel: nat)
    requires
        walk(items, blocks.reverse(), fuel) is Some,
    ensures
        walk(items, blocks.reverse(), fuel)->0 == walks_of(
            items,
            blocks,
            blocks.len() as int,
            fuel,
        ),
        forall|k: int|
            0 <= k < blocks.len() ==> walk(items, seq![#[trigger] blocks[k]], fuel) is Some,
    decreases blocks.len(),
{
    if blocks.len() > 0 {
        let last = seq![blocks.last()];
        let front = blocks.drop_last();
        assert(blocks.reverse() =~= last + front.reverse());
        walk_splits(items, last, front.reverse(), fuel);
        walked_in_order(items, front, fuel);
        walks_of_prefix(items, blocks, blocks.len() - 1, fuel);
        assert forall|k: int| 0 <= k < blocks.len() implies walk(
            items,
            seq![#[trigger] blocks[k]],
            fuel,
        ) is Some by {
            if k < blocks.len() - 1 {
                assert(front[k] == blocks[k]);
            }
        }
    } else {
        assert(blocks.reverse().len() == 0);
    }
}

/// A walk visits a block, then everything below its children, child by child in
/// slot order. It succeeds within its limit only, and only where every block it
/// visits has consistent children.
pub proof fn walk_visits_a_block_and_its_childrens_walks(
    items: Seq<SummaryV>,
    block: int,
    limit: nat,
)
    requires
        walk(items, seq![block], limit) is Some,
    ensures
        (walk(items, seq![block], limit)->0).len() <= limit,
        direct_children(items, items[block].id) matches Some(kids) && {
            &&& walk(items, seq![block], limit)->0 == seq![block] + walks_of(
                items,
                kids,
                kids.len() as int,
                limit,
            )
            &&& forall|k: int|
                0 <= k < kids.len() ==> walk(items, seq![#[trigger] kids[k]], limit) is Some
        },
{
    let stack = seq![block];
    assert(stack.last() == block);
    let kids = direct_children(items, items[block].id)->0;
    assert(stack.drop_last() + kids.reverse() =~= kids.reverse());
    let rest = walk(items, kids.reverse(), (limit - 1) as nat);
    assert(rest is Some);
    walk_needs_its_length(items, kids.reverse(), (limit - 1) as nat, (rest->0).len());
    walk_needs_its_length(items, kids.reverse(), (limit - 1) as nat, limit);
    walked_in_order(items, kids, limit);
}

} // verus!
