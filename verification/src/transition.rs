//! Exact verification of body mutations: which projected snapshots may follow
//! one another under an update or a delete.

use crate::change::{apply_projected_change, changed_block};
use crate::domain::EntityId;
use crate::input::BlockChangeInput;
use crate::model::{BlockProjection, BlockSummary, ContentV, ProjectedSnapshot, SnapshotV, SummaryV};
use crate::text::{all_distinct, contains_same, same_opt, views, Same};
use crate::tree::{find, find_block, find_block_text, has_unique_ids, ids, unique_ids};
use vstd::prelude::*;

verus! {

/// Both snapshots are of one body: the same space, object and root.
pub open spec fn same_scope(before: SnapshotV, after: SnapshotV) -> bool {
    &&& before.space_id == after.space_id
    &&& before.object_id == after.object_id
    &&& before.root_id == after.root_id
}

/// Alignment and background are unchanged.
pub open spec fn presentation_kept(prior: SummaryV, current: SummaryV) -> bool {
    &&& prior.align == current.align
    &&& prior.vertical_align == current.vertical_align
    &&& prior.background_color == current.background_color
}

/// Content is unchanged. Where `refreshed`, an opaque block may report another
/// size, as long as its kind stays and its child count was and is its own.
pub open spec fn content_kept(prior: SummaryV, current: SummaryV, refreshed: bool) -> bool {
    match (prior.content, current.content) {
        (
            ContentV::Unsupported { opaque_kind: k1, child_count: c1, .. },
            ContentV::Unsupported { opaque_kind: k2, child_count: c2, .. },
        ) => if refreshed {
            k1 == k2 && c1 == prior.child_count && c2 == current.child_count
        } else {
            prior.content == current.content
        },
        _ => prior.content == current.content,
    }
}

/// Tests that both snapshots are of one body.
pub fn in_same_scope(before: &ProjectedSnapshot, after: &ProjectedSnapshot) -> (r: bool)
    ensures
        r == same_scope(before@, after@),
{
    before.space_id.same(&after.space_id) && before.object_id.same(&after.object_id)
        && before.root_id.same(&after.root_id)
}

/// Tests that alignment and background are unchanged.
pub fn projected_presentation_matches(prior: &BlockSummary, current: &BlockSummary) -> (r: bool)
    ensures
        r == presentation_kept(prior@, current@),
{
    prior.align == current.align && prior.vertical_align == current.vertical_align && same_opt(
        &prior.background_color,
        &current.background_color,
    )
}

/// Tests that content is unchanged, up to the size of a refreshed opaque block.
pub fn projected_opaque_refresh_content_matches(
    prior: &BlockSummary,
    current: &BlockSummary,
    insertion_parent: bool,
) -> (r: bool)
    ensures
        r == content_kept(prior@, current@, insertion_parent),
{
    if !insertion_parent {
        return prior.content.same(&current.content);
    }
    match (&prior.content, &current.content) {
        (
            BlockProjection::Unsupported {
                opaque_kind: prior_kind,
                child_count: prior_children,
                ..
            },
            BlockProjection::Unsupported {
                opaque_kind: current_kind,
                child_count: current_children,
                ..
            },
        ) => prior_kind.same(current_kind) && *prior_children == prior.child_count
            && *current_children == current.child_count,
        _ => prior.content.same(&current.content),
    }
}

// ---------------------------------------------------------------------------
// Update
// ---------------------------------------------------------------------------

/// A block that an update does not address: all of it is kept, but an opaque
/// root may report another size.
pub open spec fn kept_by_update(prior: SummaryV, current: SummaryV, root: Seq<char>) -> bool {
    &&& content_kept(prior, current, prior.id == root)
    &&& prior.restrictions == current.restrictions
    &&& presentation_kept(prior, current)
    &&& prior.id == current.id
    &&& prior.parent_id == current.parent_id
    &&& prior.sibling_index == current.sibling_index
    &&& prior.depth == current.depth
    &&& prior.child_count == current.child_count
}

/// Block `i` of an updated body: the addressed block is exactly the changed
/// one, and every other block is kept.
pub open spec fn updated_at(
    before: SnapshotV,
    after: SnapshotV,
    target: int,
    change: BlockChangeInput,
    i: int,
) -> bool {
    if i == target {
        changed_block(before.items[i], change) == Some(after.items[i])
    } else {
        match find(after.items, before.items[i].id) {
            Some(j) => j != target && kept_by_update(
                before.items[i],
                after.items[j],
                before.root_id,
            ),
            None => false,
        }
    }
}

/// Every block of an updated body is the changed one or is kept.
pub open spec fn all_updated(
    before: SnapshotV,
    after: SnapshotV,
    target: int,
    change: BlockChangeInput,
) -> bool {
    forall|i: int|
        0 <= i < before.items.len() ==> #[trigger] updated_at(before, after, target, change, i)
}

/// `after` is `before` with exactly one change of one block.
pub open spec fn update_transition(
    before: SnapshotV,
    after: SnapshotV,
    block_id: Seq<char>,
    change: BlockChangeInput,
) -> bool {
    &&& same_scope(before, after)
    &&& ids(before.items) == ids(after.items)
    &&& find(before.items, block_id) matches Some(target) && all_updated(
        before,
        after,
        target,
        change,
    )
}

fn same_ids(left: &Vec<BlockSummary>, right: &Vec<BlockSummary>) -> (r: bool)
    ensures
        r == (ids(views(left@)) == ids(views(right@))),
{
    let ghost a = ids(views(left@));
    let ghost b = ids(views(right@));
    if left.len() != right.len() {
        assert(a.len() != b.len());
        return false;
    }
    let mut i: usize = 0;
    while i < left.len()
        invariant
            i <= left.len(),
            left.len() == right.len(),
            a == ids(views(left@)),
            b == ids(views(right@)),
            forall|k: int| 0 <= k < i ==> (#[trigger] a[k]) == b[k],
        decreases left.len() - i,
    {
        if !left[i].id.same(&right[i].id) {
            assert(a[i as int] != b[i as int]);
            return false;
        }
        assert(a[i as int] == b[i as int]);
        i += 1;
    }
    assert(a =~= b);
    true
}

fn kept_under_update(prior: &BlockSummary, current: &BlockSummary, root: &EntityId) -> (r: bool)
    ensures
        r == kept_by_update(prior@, current@, root@),
{
    projected_opaque_refresh_content_matches(prior, current, prior.id.same(root))
        && prior.restrictions == current.restrictions && projected_presentation_matches(
        prior,
        current,
    ) && prior.id.same(&current.id) && same_opt(&prior.parent_id, &current.parent_id)
        && prior.sibling_index == current.sibling_index && prior.depth == current.depth
        && prior.child_count == current.child_count
}

/// Decides whether `after` is `before` with exactly the requested change of the
/// addressed block.
pub fn verify_update_transition(
    before: &ProjectedSnapshot,
    after: &ProjectedSnapshot,
    block_id: &EntityId,
    change: &BlockChangeInput,
) -> (r: bool)
    ensures
        r == update_transition(before@, after@, block_id@, *change),
{
    if !in_same_scope(before, after) || !same_ids(&before.items, &after.items) {
        return false;
    }
    let ghost b = before@;
    let ghost a = after@;
    assert(ids(b.items).len() == ids(a.items).len());
    let target: usize = match find_block(&before.items, block_id) {
        Some(target) => target,
        None => {
            return false;
        },
    };
    let mut expected = before.items[target].duplicate();
    assert(expected@ == b.items[target as int]);
    if apply_projected_change(&mut expected, change).is_err() {
        assert(!updated_at(b, a, target as int, *change, target as int));
        assert(!all_updated(b, a, target as int, *change));
        return false;
    }
    if !expected.same(&after.items[target]) {
        assert(!updated_at(b, a, target as int, *change, target as int));
        assert(!all_updated(b, a, target as int, *change));
        return false;
    }
    let mut i: usize = 0;
    while i < before.items.len()
        invariant
            i <= before.items.len(),
            before.items.len() == after.items.len(),
            target < before.items.len(),
            b == before@,
            a == after@,
            find(b.items, block_id@) == Some(target as int),
            updated_at(b, a, target as int, *change, target as int),
            forall|k: int|
                0 <= k < i ==> #[trigger] updated_at(b, a, target as int, *change, k),
        decreases before.items.len() - i,
    {
        if i != target {
            let j: usize = match find_block(&after.items, &before.items[i].id) {
                Some(j) => j,
                None => {
                    assert(!updated_at(b, a, target as int, *change, i as int));
                assert(!all_updated(b, a, target as int, *change));
                    return false;
                },
            };
            if j == target || !kept_under_update(
                &before.items[i],
                &after.items[j],
                &before.root_id,
            ) {
                assert(!updated_at(b, a, target as int, *change, i as int));
                assert(!all_updated(b, a, target as int, *change));
                return false;
            }
            assert(updated_at(b, a, target as int, *change, i as int));
        }
        i += 1;
    }
    true
}

// ---------------------------------------------------------------------------
// Delete
// ---------------------------------------------------------------------------

/// Positions before `n` of the blocks that are not removed, in order.
pub open spec fn survivors(items: Seq<SummaryV>, removed: Seq<Seq<char>>, n: int) -> Seq<int>
    decreases n,
{
    if n <= 0 {
        Seq::empty()
    } else if removed.contains(items[n - 1].id) {
        survivors(items, removed, n - 1)
    } else {
        survivors(items, removed, n - 1).push(n - 1)
    }
}

/// A block that survives the removal of the child of `parent` at `slot`.
pub open spec fn kept_by_delete(
    prior: SummaryV,
    current: SummaryV,
    parent: Seq<char>,
    slot: int,
) -> bool {
    &&& prior.id == current.id
    &&& content_kept(prior, current, prior.id == parent)
    &&& prior.restrictions == current.restrictions
    &&& presentation_kept(prior, current)
    &&& prior.parent_id == current.parent_id
    &&& prior.depth == current.depth
    &&& current.child_count == prior.child_count - if prior.id == parent {
        1int
    } else {
        0int
    }
    &&& current.sibling_index == prior.sibling_index - if prior.parent_id == Some(parent)
        && prior.sibling_index > slot {
        1int
    } else {
        0int
    }
}

/// `after` is `before` without the blocks of `subtree`, whose first is the
/// removed root.
pub open spec fn delete_transition(
    before: SnapshotV,
    after: SnapshotV,
    subtree: Seq<Seq<char>>,
) -> bool {
    let left = survivors(before.items, subtree, before.items.len() as int);
    &&& same_scope(before, after)
    &&& unique_ids(before.items)
    &&& unique_ids(after.items)
    &&& subtree.len() > 0
    &&& subtree.no_duplicates()
    &&& forall|k: int| 0 <= k < subtree.len() ==> find(before.items, #[trigger] subtree[k]) is Some
    &&& match before.items[find(before.items, subtree[0])->0].parent_id {
        Some(parent) => {
            &&& after.items.len() == left.len()
            &&& forall|j: int|
                0 <= j < left.len() ==> kept_by_delete(
                    before.items[left[j]],
                    #[trigger] after.items[j],
                    parent,
                    before.items[find(before.items, subtree[0])->0].sibling_index,
                )
        },
        None => false,
    }
}

/// Survivors are the listed blocks that are not removed, in order; there are no
/// more of them than blocks.
pub(crate) proof fn survivors_are_kept(items: Seq<SummaryV>, removed: Seq<Seq<char>>, n: int)
    requires
        0 <= n <= items.len(),
    ensures
        survivors(items, removed, n).len() <= n,
        forall|k: int|
            0 <= k < survivors(items, removed, n).len() ==> 0 <= (#[trigger] survivors(
                items,
                removed,
                n,
            )[k]) < n && !removed.contains(items[survivors(items, removed, n)[k]].id),
        forall|k: int, m: int|
            0 <= k < m < survivors(items, removed, n).len() ==> (#[trigger] survivors(
                items,
                removed,
                n,
            )[k]) < (#[trigger] survivors(items, removed, n)[m]),
        forall|i: int|
            0 <= i < n && !removed.contains((#[trigger] items[i]).id) ==> survivors(
                items,
                removed,
                n,
            ).contains(i),
    decreases n,
{
    if n > 0 {
        survivors_are_kept(items, removed, n - 1);
        let shorter = survivors(items, removed, n - 1);
        let longer = survivors(items, removed, n);
        if !removed.contains(items[n - 1].id) {
            assert(longer[shorter.len() as int] == n - 1);
            assert forall|i: int|
                0 <= i < n && !removed.contains((#[trigger] items[i]).id) implies longer.contains(
                i,
            ) by {
                if i < n - 1 {
                    assert(shorter.contains(i));
                    let k = choose|k: int| 0 <= k < shorter.len() && shorter[k] == i;
                    assert(longer[k] == i);
                }
            }
        }
    }
}

fn kept_under_delete(
    prior: &BlockSummary,
    current: &BlockSummary,
    parent: &EntityId,
    slot: u64,
) -> (r: bool)
    ensures
        r == kept_by_delete(prior@, current@, parent@, slot as int),
{
    let is_parent: bool = prior.id.same(parent);
    let is_sibling: bool = match &prior.parent_id {
        Some(found) => found.same(parent),
        None => false,
    };
    let children_ok: bool = if is_parent {
        prior.child_count > 0 && current.child_count == prior.child_count - 1
    } else {
        current.child_count == prior.child_count
    };
    let sibling_ok: bool = if is_sibling && prior.sibling_index > slot {
        current.sibling_index == prior.sibling_index - 1
    } else {
        current.sibling_index == prior.sibling_index
    };
    prior.id.same(&current.id) && projected_opaque_refresh_content_matches(
        prior,
        current,
        is_parent,
    ) && prior.restrictions == current.restrictions && projected_presentation_matches(
        prior,
        current,
    ) && same_opt(&prior.parent_id, &current.parent_id) && prior.depth == current.depth
        && children_ok && sibling_ok
}

fn text_in(values: &Vec<String>, id: &EntityId) -> (r: bool)
    ensures
        r == views(values@).contains(id@),
{
    contains_same(values, &id.as_str().to_owned())
}

/// Decides whether `after` is `before` without exactly the blocks of `subtree`.
pub fn verify_delete_transition(
    before: &ProjectedSnapshot,
    after: &ProjectedSnapshot,
    subtree: &Vec<String>,
) -> (r: bool)
    ensures
        r == delete_transition(before@, after@, views(subtree@)),
{
    let ghost b = before@;
    let ghost a = after@;
    let ghost gone = views(subtree@);
    if !in_same_scope(before, after) || !has_unique_ids(&before.items) || !has_unique_ids(
        &after.items,
    ) {
        return false;
    }
    if subtree.len() == 0 || !all_distinct(subtree) {
        return false;
    }
    let mut k: usize = 0;
    while k < subtree.len()
        invariant
            k <= subtree.len(),
            b == before@,
            gone == views(subtree@),
            forall|m: int| 0 <= m < k ==> find(b.items, #[trigger] gone[m]) is Some,
        decreases subtree.len() - k,
    {
        assert(gone[k as int] == subtree@[k as int]@);
        if find_block_text(&before.items, &subtree[k]).is_none() {
            return false;
        }
        k += 1;
    }
    assert(gone[0] == subtree@[0]@);
    let root: usize = match find_block_text(&before.items, &subtree[0]) {
        Some(root) => root,
        None => {
            return false;
        },
    };
    assert(b.items[root as int] == before.items@[root as int]@);
    let parent: &EntityId = match &before.items[root].parent_id {
        Some(parent) => parent,
        None => {
            return false;
        },
    };
    let slot: u64 = before.items[root].sibling_index;
    let ghost left = survivors(b.items, gone, b.items.len() as int);
    proof {
        survivors_are_kept(b.items, gone, b.items.len() as int);
    }
    let mut i: usize = 0;
    let mut j: usize = 0;
    while i < before.items.len()
        invariant
            i <= before.items.len(),
            j <= after.items.len(),
            b == before@,
            a == after@,
            gone == views(subtree@),
            left == survivors(b.items, gone, b.items.len() as int),
            j == survivors(b.items, gone, i as int).len(),
            forall|m: int|
                0 <= m < j ==> kept_by_delete(
                    b.items[left[m]],
                    #[trigger] a.items[m],
                    parent@,
                    slot as int,
                ),
            b.items[find(b.items, gone[0])->0].parent_id == Some(parent@),
            b.items[find(b.items, gone[0])->0].sibling_index == slot,
        decreases before.items.len() - i,
    {
        proof {
            survivors_split(b.items, gone, i as int);
        }
        assert(b.items[i as int].id == before.items@[i as int].id@);
        if !text_in(subtree, &before.items[i].id) {
            assert(survivors(b.items, gone, i as int + 1)[j as int] == i);
            assert(left[j as int] == i);
            if j >= after.items.len() {
                assert(a.items.len() != left.len());
                return false;
            }
            assert(a.items[j as int] == after.items@[j as int]@);
            if !kept_under_delete(&before.items[i], &after.items[j], parent, slot) {
                assert(!kept_by_delete(
                    b.items[left[j as int]],
                    a.items[j as int],
                    parent@,
                    slot as int,
                ));
                return false;
            }
            j += 1;
        }
        i += 1;
    }
    j == after.items.len()
}

/// A surviving block stands in the full list of survivors where it stood in
/// the list of those before it.
proof fn survivors_split(items: Seq<SummaryV>, removed: Seq<Seq<char>>, n: int)
    requires
        0 <= n < items.len(),
    ensures
        survivors(items, removed, n).is_prefix_of(
            survivors(items, removed, items.len() as int),
        ),
        survivors(items, removed, n + 1).is_prefix_of(
            survivors(items, removed, items.len() as int),
        ),
    decreases items.len() - n,
{
    if n + 1 < items.len() {
        survivors_split(items, removed, n + 1);
    }
}

} // verus!
