//! Tree structure of a projected body: lookup by identifier, ordered children
//! and depth-first walks.

use crate::domain::EntityId;
use crate::model::{BlockSummary, SummaryV};
use crate::text::{opt_view, views, Same};
use vstd::prelude::*;

verus! {

/// Identifiers of the blocks, in order.
pub open spec fn ids(items: Seq<SummaryV>) -> Seq<Seq<char>> {
    Seq::new(items.len(), |i: int| items[i].id)
}

/// No identifier occurs twice.
pub open spec fn unique_ids(items: Seq<SummaryV>) -> bool {
    ids(items).no_duplicates()
}

/// First block at or after `from` with this identifier.
pub open spec fn find_from(items: Seq<SummaryV>, id: Seq<char>, from: int) -> Option<int>
    decreases items.len() - from,
{
    if from >= items.len() {
        None
    } else if items[from].id == id {
        Some(from)
    } else {
        find_from(items, id, from + 1)
    }
}

/// First block with this identifier.
pub open spec fn find(items: Seq<SummaryV>, id: Seq<char>) -> Option<int> {
    find_from(items, id, 0)
}

proof fn find_from_facts(items: Seq<SummaryV>, id: Seq<char>, from: int)
    requires
        0 <= from,
    ensures
        match find_from(items, id, from) {
            Some(i) => from <= i < items.len() && items[i].id == id && forall|j: int|
                from <= j < i ==> (#[trigger] items[j]).id != id,
            None => forall|j: int| from <= j < items.len() ==> (#[trigger] items[j]).id != id,
        },
    decreases items.len() - from,
{
    if from < items.len() && items[from].id != id {
        find_from_facts(items, id, from + 1);
    }
}

/// `find` gives the first block with an identifier, and nothing exactly where
/// no block has it.
pub proof fn find_facts(items: Seq<SummaryV>, id: Seq<char>)
    ensures
        match find(items, id) {
            Some(i) => 0 <= i < items.len() && items[i].id == id && forall|j: int|
                0 <= j < i ==> (#[trigger] items[j]).id != id,
            None => forall|j: int| 0 <= j < items.len() ==> (#[trigger] items[j]).id != id,
        },
{
    find_from_facts(items, id, 0);
}

/// Where identifiers are unique, a block is found under its own identifier.
pub proof fn find_unique(items: Seq<SummaryV>, i: int)
    requires
        unique_ids(items),
        0 <= i < items.len(),
    ensures
        find(items, items[i].id) == Some(i),
{
    find_facts(items, items[i].id);
    match find(items, items[i].id) {
        Some(j) => {
            assert(ids(items)[i] == ids(items)[j]);
        },
        None => {
            assert(items[i].id != items[i].id);
        },
    }
}

/// Finds the first block with an identifier.
pub fn find_block(items: &Vec<BlockSummary>, id: &EntityId) -> (r: Option<usize>)
    ensures
        match r {
            Some(i) => find(views(items@), id@) == Some(i as int) && i < items.len(),
            None => find(views(items@), id@) is None,
        },
{
    let mut i: usize = 0;
    while i < items.len()
        invariant
            i <= items.len(),
            find(views(items@), id@) == find_from(views(items@), id@, i as int),
        decreases items.len() - i,
    {
        if items[i].id.same(id) {
            assert(views(items@)[i as int].id == id@);
            return Some(i);
        }
        assert(views(items@)[i as int].id != id@);
        i += 1;
    }
    None
}

/// Finds the first block whose identifier has the given text.
pub fn find_block_text(items: &Vec<BlockSummary>, id: &String) -> (r: Option<usize>)
    ensures
        match r {
            Some(i) => find(views(items@), id@) == Some(i as int) && i < items.len(),
            None => find(views(items@), id@) is None,
        },
{
    let mut i: usize = 0;
    while i < items.len()
        invariant
            i <= items.len(),
            find(views(items@), id@) == find_from(views(items@), id@, i as int),
        decreases items.len() - i,
    {
        if items[i].id.as_str().to_owned() == *id {
            assert(views(items@)[i as int].id == id@);
            return Some(i);
        }
        assert(views(items@)[i as int].id != id@);
        i += 1;
    }
    None
}

/// Tests that no identifier occurs twice.
pub fn has_unique_ids(items: &Vec<BlockSummary>) -> (r: bool)
    ensures
        r == unique_ids(views(items@)),
{
    let ghost list = views(items@);
    let mut i: usize = 0;
    while i < items.len()
        invariant
            i <= items.len(),
            list == views(items@),
            forall|a: int, b: int|
                0 <= a < b < i ==> (#[trigger] list[a]).id != (#[trigger] list[b]).id,
        decreases items.len() - i,
    {
        let mut j: usize = 0;
        while j < i
            invariant
                j <= i < items.len(),
                list == views(items@),
                forall|a: int| 0 <= a < j ==> (#[trigger] list[a]).id != list[i as int].id,
            decreases i - j,
        {
            if items[j].id.same(&items[i].id) {
                assert(list[j as int].id == list[i as int].id);
                assert(ids(list)[j as int] == ids(list)[i as int]);
                return false;
            }
            assert(list[j as int].id != list[i as int].id);
            j += 1;
        }
        i += 1;
    }
    assert forall|a: int, b: int|
        0 <= a < ids(list).len() && 0 <= b < ids(list).len() && a != b implies ids(list)[a] != ids(
        list,
    )[b] by {
        if a < b {
            assert(list[a].id != list[b].id);
        } else {
            assert(list[b].id != list[a].id);
        }
    }
    true
}

/// Number of blocks before `n` whose parent is `parent`.
pub open spec fn child_total(items: Seq<SummaryV>, parent: Seq<char>, n: int) -> int
    decreases n,
{
    if n <= 0 {
        0
    } else {
        child_total(items, parent, n - 1) + if items[n - 1].parent_id == Some(parent) {
            1int
        } else {
            0int
        }
    }
}

/// No block has more children than there are blocks.
pub proof fn child_total_bounds(items: Seq<SummaryV>, parent: Seq<char>, n: int)
    requires
        0 <= n,
    ensures
        0 <= child_total(items, parent, n) <= n,
    decreases n,
{
    if n > 0 {
        child_total_bounds(items, parent, n - 1);
    }
}

/// Counts the children of a block.
fn count_children(items: &Vec<BlockSummary>, parent: &EntityId) -> (r: usize)
    ensures
        r == child_total(views(items@), parent@, items.len() as int),
        r <= items.len(),
{
    let ghost list = views(items@);
    let mut count: usize = 0;
    let mut i: usize = 0;
    while i < items.len()
        invariant
            i <= items.len(),
            list == views(items@),
            count == child_total(list, parent@, i as int),
            count <= i,
        decreases items.len() - i,
    {
        assert(list[i as int].parent_id == opt_view(items@[i as int].parent_id));
        let is_child: bool = match &items[i].parent_id {
            Some(found) => found.same(parent),
            None => false,
        };
        if is_child {
            count += 1;
        }
        i += 1;
    }
    count
}

/// First block at or after `from` that is the child of `parent` at `slot`.
pub open spec fn child_from(
    items: Seq<SummaryV>,
    parent: Seq<char>,
    slot: int,
    from: int,
) -> Option<int>
    decreases items.len() - from,
{
    if from >= items.len() {
        None
    } else if items[from].parent_id == Some(parent) && items[from].sibling_index == slot {
        Some(from)
    } else {
        child_from(items, parent, slot, from + 1)
    }
}

/// The child of `parent` at `slot`.
pub open spec fn child_at(items: Seq<SummaryV>, parent: Seq<char>, slot: int) -> Option<int> {
    child_from(items, parent, slot, 0)
}

proof fn child_from_facts(items: Seq<SummaryV>, parent: Seq<char>, slot: int, from: int)
    requires
        0 <= from,
    ensures
        child_from(items, parent, slot, from) matches Some(i) ==> from <= i < items.len()
            && items[i].parent_id == Some(parent) && items[i].sibling_index == slot,
    decreases items.len() - from,
{
    if from < items.len() && !(items[from].parent_id == Some(parent) && items[from].sibling_index
        == slot) {
        child_from_facts(items, parent, slot, from + 1);
    }
}

/// A child found at a slot is a listed block of that parent and slot.
pub proof fn child_at_facts(items: Seq<SummaryV>, parent: Seq<char>, slot: int)
    ensures
        child_at(items, parent, slot) matches Some(i) ==> 0 <= i < items.len()
            && items[i].parent_id == Some(parent) && items[i].sibling_index == slot,
{
    child_from_facts(items, parent, slot, 0);
}

fn find_child(items: &Vec<BlockSummary>, parent: &EntityId, slot: usize) -> (r: Option<usize>)
    ensures
        match r {
            Some(i) => child_at(views(items@), parent@, slot as int) == Some(i as int) && i
                < items.len(),
            None => child_at(views(items@), parent@, slot as int) is None,
        },
{
    let ghost list = views(items@);
    let mut i: usize = 0;
    while i < items.len()
        invariant
            i <= items.len(),
            list == views(items@),
            child_at(list, parent@, slot as int) == child_from(
                list,
                parent@,
                slot as int,
                i as int,
            ),
        decreases items.len() - i,
    {
        assert(list[i as int].parent_id == opt_view(items@[i as int].parent_id));
        let is_child: bool = match &items[i].parent_id {
            Some(found) => found.same(parent),
            None => false,
        };
        if is_child && items[i].sibling_index == slot as u64 {
            return Some(i);
        }
        i += 1;
    }
    None
}

/// The children of `parent` occupy the slots from zero upwards without a gap.
pub open spec fn slots_filled(items: Seq<SummaryV>, parent: Seq<char>) -> bool {
    forall|slot: int|
        0 <= slot < child_total(items, parent, items.len() as int) ==> (#[trigger] child_at(
            items,
            parent,
            slot,
        )) is Some
}

/// Children of `parent` in slot order, as positions in the list.
pub open spec fn sibling_order(items: Seq<SummaryV>, parent: Seq<char>) -> Seq<int> {
    Seq::new(
        child_total(items, parent, items.len() as int) as nat,
        |slot: int| child_at(items, parent, slot)->0,
    )
}

/// Positions as a ghost sequence.
pub open spec fn positions(list: Seq<usize>) -> Seq<int> {
    Seq::new(list.len(), |i: int| list[i] as int)
}

/// Children of a block in slot order, where their slots have no gap.
pub fn ordered_children(items: &Vec<BlockSummary>, parent: &EntityId) -> (r: Option<Vec<usize>>)
    ensures
        match r {
            Some(found) => slots_filled(views(items@), parent@) && positions(found@)
                == sibling_order(views(items@), parent@) && forall|k: int|
                0 <= k < found.len() ==> (#[trigger] found@[k]) < items.len(),
            None => !slots_filled(views(items@), parent@),
        },
{
    let ghost list = views(items@);
    let total: usize = count_children(items, parent);
    let mut found: Vec<usize> = Vec::new();
    let mut slot: usize = 0;
    while slot < total
        invariant
            slot <= total,
            list == views(items@),
            total == child_total(list, parent@, list.len() as int),
            found.len() == slot,
            forall|k: int|
                0 <= k < slot ==> (#[trigger] child_at(list, parent@, k)) == Some(found@[k] as int),
            forall|k: int| 0 <= k < slot ==> (#[trigger] found@[k]) < items.len(),
        decreases total - slot,
    {
        match find_child(items, parent, slot) {
            Some(i) => {
                found.push(i);
            },
            None => {
                return None;
            },
        }
        slot += 1;
    }
    assert(positions(found@) =~= sibling_order(list, parent@)) by {
        assert forall|k: int| 0 <= k < total implies positions(found@)[k] == sibling_order(
            list,
            parent@,
        )[k] by {
            assert(child_at(list, parent@, k) == Some(found@[k] as int));
        }
    }
    Some(found)
}

/// Children of a listed block whose child count and slots are consistent.
pub open spec fn direct_children(items: Seq<SummaryV>, parent: Seq<char>) -> Option<Seq<int>> {
    match find(items, parent) {
        Some(p) => if items[p].child_count == child_total(items, parent, items.len() as int)
            && slots_filled(items, parent) {
            Some(sibling_order(items, parent))
        } else {
            None
        },
        None => None,
    }
}

/// Children of a listed block whose child count and slots are consistent.
pub fn projected_direct_children(items: &Vec<BlockSummary>, parent_id: &EntityId) -> (r: Option<
    Vec<usize>,
>)
    ensures
        match r {
            Some(found) => direct_children(views(items@), parent_id@) == Some(positions(found@))
                && forall|k: int| 0 <= k < found.len() ==> (#[trigger] found@[k]) < items.len(),
            None => direct_children(views(items@), parent_id@) is None,
        },
{
    let p: usize = match find_block(items, parent_id) {
        Some(p) => p,
        None => {
            return None;
        },
    };
    let total: usize = count_children(items, parent_id);
    assert(views(items@)[p as int].child_count == items@[p as int].child_count);
    if items[p].child_count != total as u64 {
        return None;
    }
    ordered_children(items, parent_id)
}

/// Depth-first walk from the top of a stack of positions, visiting at most
/// `fuel` blocks; nothing where a visited block has inconsistent children or
/// the walk is longer.
pub open spec fn walk(items: Seq<SummaryV>, stack: Seq<int>, fuel: nat) -> Option<Seq<int>>
    decreases fuel,
{
    if stack.len() == 0 {
        Some(Seq::empty())
    } else if fuel == 0 {
        None
    } else {
        match direct_children(items, items[stack.last()].id) {
            Some(kids) => match walk(
                items,
                stack.drop_last() + kids.reverse(),
                (fuel - 1) as nat,
            ) {
                Some(rest) => Some(seq![stack.last()] + rest),
                None => None,
            },
            None => None,
        }
    }
}

/// Depth-first walk of one block's subtree, of at most `limit` blocks.
pub fn walk_subtree(items: &Vec<BlockSummary>, root: usize, limit: usize) -> (r: Option<Vec<usize>>)
    requires
        root < items.len(),
    ensures
        match r {
            Some(found) => walk(views(items@), seq![root as int], limit as nat) == Some(
                positions(found@),
            ) && found.len() <= limit && forall|k: int|
                0 <= k < found.len() ==> (#[trigger] found@[k]) < items.len(),
            None => walk(views(items@), seq![root as int], limit as nat) is None,
        },
{
    let ghost list = views(items@);
    let ghost full = walk(list, seq![root as int], limit as nat);
    let mut visited: Vec<usize> = Vec::new();
    let mut stack: Vec<usize> = Vec::new();
    stack.push(root);
    assert(positions(stack@) =~= seq![root as int]);
    assert(positions(visited@) =~= Seq::<int>::empty());
    proof {
        if let Some(rest) = walk(list, positions(stack@), limit as nat) {
            assert(positions(visited@) + rest =~= rest);
        }
    }
    while stack.len() > 0
        invariant
            list == views(items@),
            full == walk(list, seq![root as int], limit as nat),
            visited.len() <= limit,
            forall|k: int| 0 <= k < stack.len() ==> (#[trigger] stack@[k]) < items.len(),
            forall|k: int| 0 <= k < visited.len() ==> (#[trigger] visited@[k]) < items.len(),
            full == (match walk(list, positions(stack@), (limit - visited.len()) as nat) {
                Some(rest) => Some(positions(visited@) + rest),
                None => None,
            }),
        decreases limit - visited.len(), stack.len(),
    {
        if visited.len() >= limit {
            return None;
        }
        let ghost before_stack = stack@;
        let ghost before_visited = visited@;
        let top: usize = match stack.pop() {
            Some(top) => top,
            None => {
                return None;
            },
        };
        assert(top == before_stack.last());
        assert(top < items.len());
        assert(positions(before_stack).last() == top as int);
        assert(list[top as int].id == items@[top as int].id@);
        let kids: Vec<usize> = match projected_direct_children(items, &items[top].id) {
            Some(kids) => kids,
            None => {
                return None;
            },
        };
        visited.push(top);
        let mut k: usize = kids.len();
        while k > 0
            invariant
                k <= kids.len(),
                forall|j: int| 0 <= j < kids.len() ==> (#[trigger] kids@[j]) < items.len(),
                forall|j: int| 0 <= j < stack.len() ==> (#[trigger] stack@[j]) < items.len(),
                before_stack.len() > 0,
                stack@.len() == before_stack.len() - 1 + (kids.len() - k),
                stack@ =~= before_stack.drop_last() + kids@.subrange(
                    k as int,
                    kids.len() as int,
                ).reverse(),
            decreases k,
        {
            k -= 1;
            stack.push(kids[k]);
            assert(kids@.subrange(k as int, kids.len() as int).reverse() =~= kids@.subrange(
                k as int + 1,
                kids.len() as int,
            ).reverse().push(kids@[k as int]));
        }
        proof {
            assert(kids@.subrange(0, kids.len() as int) =~= kids@);
            assert(positions(stack@) =~= positions(before_stack).drop_last() + positions(
                kids@,
            ).reverse());
            assert(positions(visited@) =~= positions(before_visited).push(top as int));
            if let Some(rest) = walk(list, positions(stack@), (limit - visited.len()) as nat) {
                assert(positions(before_visited) + (seq![top as int] + rest) =~= positions(visited@)
                    + rest);
            }
        }
    }
    assert(positions(stack@).len() == 0);
    assert(positions(visited@) + Seq::<int>::empty() =~= positions(visited@));
    Some(visited)
}

} // verus!
