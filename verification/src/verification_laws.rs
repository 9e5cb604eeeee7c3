//! What the verification of a mutation accepts, said of the blocks before and
//! after: exactly the requested effect, and everything that has it.

use crate::change::changed_block;
use crate::input::BlockChangeInput;
use crate::model::{ContentV, SnapshotV, SummaryV};
use crate::transition::{
    content_kept, delete_transition, kept_by_delete, presentation_kept, survivors,
    update_transition, updated_at,
};
use crate::tree::{find, find_facts, find_unique, ids, unique_ids};
use vstd::prelude::*;

verus! {

/// Both blocks are alike in everything but content, slot and number of children.
pub open spec fn alike(a: SummaryV, b: SummaryV) -> bool {
    &&& a.id == b.id
    &&& a.parent_id == b.parent_id
    &&& a.depth == b.depth
    &&& a.restrictions == b.restrictions
    &&& a.align == b.align
    &&& a.vertical_align == b.vertical_align
    &&& a.background_color == b.background_color
}

/// Both blocks are opaque and of one kind, and each reports its own number of
/// children.
pub open spec fn opaque_refresh(a: SummaryV, b: SummaryV) -> bool {
    match (a.content, b.content) {
        (
            ContentV::Unsupported { opaque_kind: k1, child_count: c1, .. },
            ContentV::Unsupported { opaque_kind: k2, child_count: c2, .. },
        ) => k1 == k2 && c1 == a.child_count && c2 == b.child_count,
        _ => false,
    }
}

/// Content is kept where it is equal. Where a block may have been refreshed, two
/// opaque blocks of one kind that report their own numbers of children count as
/// kept instead, whatever their sizes.
pub proof fn kept_content_is_equal_or_refreshed(a: SummaryV, b: SummaryV, refreshed: bool)
    ensures
        !refreshed ==> (content_kept(a, b, refreshed) <==> a.content == b.content),
        refreshed && a.content is Unsupported && b.content is Unsupported ==> (content_kept(
            a,
            b,
            refreshed,
        ) <==> opaque_refresh(a, b)),
        refreshed && !(a.content is Unsupported && b.content is Unsupported) ==> (content_kept(
            a,
            b,
            refreshed,
        ) <==> a.content == b.content),
        presentation_kept(a, b) <==> a.align == b.align && a.vertical_align == b.vertical_align
            && a.background_color == b.background_color,
{
}

/// The content of a block after a mutation: the same, or the refreshed content of
/// an opaque block that the mutation may refresh.
pub open spec fn content_after(a: SummaryV, b: SummaryV, refreshed: bool) -> bool {
    if refreshed && a.content is Unsupported && b.content is Unsupported {
        opaque_refresh(a, b)
    } else {
        a.content == b.content
    }
}

/// An update is accepted exactly where the body afterwards is the body before with
/// one block replaced by the changed one: the same object, the same blocks in the
/// same order, and every other block equal in every field, but for the size that
/// an opaque root reports.
pub proof fn update_is_accepted_where_one_block_changed(
    before: SnapshotV,
    after: SnapshotV,
    block_id: Seq<char>,
    change: BlockChangeInput,
    target: int,
)
    requires
        unique_ids(before.items),
        0 <= target < before.items.len(),
        before.items[target].id == block_id,
    ensures
        update_transition(before, after, block_id, change) <==> {
            &&& before.space_id == after.space_id
            &&& before.object_id == after.object_id
            &&& before.root_id == after.root_id
            &&& before.items.len() == after.items.len()
            &&& changed_block(before.items[target], change) == Some(after.items[target])
            &&& after.items[target].id == block_id
            &&& forall|i: int|
                0 <= i < before.items.len() && i != target ==> {
                    &&& alike(before.items[i], #[trigger] after.items[i])
                    &&& before.items[i].sibling_index == after.items[i].sibling_index
                    &&& before.items[i].child_count == after.items[i].child_count
                    &&& content_after(
                        before.items[i],
                        after.items[i],
                        before.items[i].id == before.root_id,
                    )
                }
        },
{
    find_unique(before.items, target);
    let b = before.items;
    let a = after.items;
    if update_transition(before, after, block_id, change) {
        assert(ids(b).len() == ids(a).len());
        assert(updated_at(before, after, target, change, target));
        assert(ids(b)[target] == ids(a)[target]);
        assert forall|i: int| 0 <= i < b.len() && i != target implies {
            &&& alike(b[i], #[trigger] a[i])
            &&& b[i].sibling_index == a[i].sibling_index
            &&& b[i].child_count == a[i].child_count
            &&& content_after(b[i], a[i], b[i].id == before.root_id)
        } by {
            assert(updated_at(before, after, target, change, i));
            assert(ids(b)[i] == ids(a)[i]);
            find_unique(a, i);
        }
    } else if before.space_id == after.space_id && before.object_id == after.object_id
        && before.root_id == after.root_id && b.len() == a.len() && changed_block(
        b[target],
        change,
    ) == Some(a[target]) && a[target].id == block_id && (forall|i: int|
        0 <= i < b.len() && i != target ==> {
            &&& alike(b[i], #[trigger] a[i])
            &&& b[i].sibling_index == a[i].sibling_index
            &&& b[i].child_count == a[i].child_count
            &&& content_after(b[i], a[i], b[i].id == before.root_id)
        }) {
        assert(ids(b) =~= ids(a)) by {
            assert forall|i: int| 0 <= i < b.len() implies ids(b)[i] == ids(a)[i] by {
                if i != target {
                    assert(alike(b[i], a[i]));
                }
            }
        }
        assert forall|i: int| 0 <= i < b.len() implies #[trigger] updated_at(
            before,
            after,
            target,
            change,
            i,
        ) by {
            if i != target {
                assert(alike(b[i], a[i]));
                find_unique(a, i);
            }
        }
        assert(false);
    }
}

/// An update of a block that is not listed is never accepted.
pub proof fn update_of_an_unlisted_block_is_not_accepted(
    before: SnapshotV,
    after: SnapshotV,
    block_id: Seq<char>,
    change: BlockChangeInput,
)
    requires
        forall|i: int|
            0 <= i < before.items.len() ==> (#[trigger] before.items[i]).id != block_id,
    ensures
        !update_transition(before, after, block_id, change),
{
    find_facts(before.items, block_id);
}

// ---------------------------------------------------------------------------
// Deletion
// ---------------------------------------------------------------------------

/// The blocks before `n` that are not removed, in order.
pub open spec fn left_over(items: Seq<SummaryV>, removed: Seq<Seq<char>>, n: int) -> Seq<SummaryV>
    decreases n,
{
    if n <= 0 {
        Seq::empty()
    } else if removed.contains(items[n - 1].id) {
        left_over(items, removed, n - 1)
    } else {
        left_over(items, removed, n - 1).push(items[n - 1])
    }
}

proof fn survivors_are_left_over(items: Seq<SummaryV>, removed: Seq<Seq<char>>, n: int)
    requires
        0 <= n <= items.len(),
    ensures
        survivors(items, removed, n).len() == left_over(items, removed, n).len(),
        forall|k: int|
            0 <= k < left_over(items, removed, n).len() ==> (#[trigger] left_over(
                items,
                removed,
                n,
            )[k]) == items[survivors(items, removed, n)[k]],
    decreases n,
{
    if n > 0 {
        survivors_are_left_over(items, removed, n - 1);
    }
}

/// A block after the child of `parent` at `slot` has left: the parent has one
/// child less, the later children of the parent move up, and the rest is kept but
/// for the size that an opaque parent reports.
pub open spec fn after_leaving(
    a: SummaryV,
    b: SummaryV,
    parent: Seq<char>,
    slot: int,
) -> bool {
    &&& alike(a, b)
    &&& a.id == parent ==> b.child_count == a.child_count - 1
    &&& a.id != parent ==> b.child_count == a.child_count
    &&& a.parent_id == Some(parent) && a.sibling_index > slot ==> b.sibling_index
        == a.sibling_index - 1
    &&& a.parent_id != Some(parent) || a.sibling_index <= slot ==> b.sibling_index
        == a.sibling_index
    &&& content_after(a, b, a.id == parent)
}

/// A deletion is accepted exactly where the body afterwards is the body before
/// without the blocks of the subtree: the same object, unique identifiers before
/// and after, and what is left in its old order, where the parent of the removed
/// block has one child less and its later children have moved up.
pub proof fn deletion_is_accepted_where_the_subtree_is_gone(
    before: SnapshotV,
    after: SnapshotV,
    subtree: Seq<Seq<char>>,
    top: int,
)
    requires
        subtree.len() > 0,
        subtree.no_duplicates(),
        unique_ids(before.items),
        forall|k: int|
            0 <= k < subtree.len() ==> exists|i: int|
                0 <= i < before.items.len() && (#[trigger] before.items[i]).id
                    == #[trigger] subtree[k],
        0 <= top < before.items.len(),
        before.items[top].id == subtree[0],
    ensures
        delete_transition(before, after, subtree) <==> {
            let rest = left_over(before.items, subtree, before.items.len() as int);
            &&& before.space_id == after.space_id
            &&& before.object_id == after.object_id
            &&& before.root_id == after.root_id
            &&& unique_ids(after.items)
            &&& before.items[top].parent_id matches Some(parent) && {
                &&& after.items.len() == rest.len()
                &&& forall|j: int|
                    0 <= j < rest.len() ==> after_leaving(
                        #[trigger] rest[j],
                        after.items[j],
                        parent,
                        before.items[top].sibling_index,
                    )
            }
        },
{
    let n = before.items.len() as int;
    let left = survivors(before.items, subtree, n);
    let rest = left_over(before.items, subtree, n);
    survivors_are_left_over(before.items, subtree, n);
    find_unique(before.items, top);
    assert forall|k: int| 0 <= k < subtree.len() implies find(
        before.items,
        #[trigger] subtree[k],
    ) is Some by {
        find_facts(before.items, subtree[k]);
        let i = choose|i: int|
            0 <= i < before.items.len() && (#[trigger] before.items[i]).id == subtree[k];
        assert(before.items[i].id == subtree[k]);
    }
    if let Some(parent) = before.items[top].parent_id {
        let slot = before.items[top].sibling_index;
        assert forall|j: int| 0 <= j < rest.len() && j < after.items.len() implies (after_leaving(
            #[trigger] rest[j],
            after.items[j],
            parent,
            slot,
        ) <==> kept_by_delete(before.items[left[j]], after.items[j], parent, slot)) by {}
        if delete_transition(before, after, subtree) {
            assert forall|j: int| 0 <= j < rest.len() implies after_leaving(
                #[trigger] rest[j],
                after.items[j],
                parent,
                slot,
            ) by {
                assert(kept_by_delete(before.items[left[j]], after.items[j], parent, slot));
            }
        } else if after.items.len() == rest.len() && (forall|j: int|
            0 <= j < rest.len() ==> after_leaving(
                #[trigger] rest[j],
                after.items[j],
                parent,
                slot,
            )) {
            assert forall|j: int| 0 <= j < left.len() implies kept_by_delete(
                before.items[left[j]],
                #[trigger] after.items[j],
                parent,
                slot,
            ) by {
                assert(after_leaving(rest[j], after.items[j], parent, slot));
            }
        }
    }
}

/// What is left over is every block that is not removed, in order, and no other.
pub proof fn left_over_blocks_are_the_others(
    items: Seq<SummaryV>,
    removed: Seq<Seq<char>>,
    n: int,
)
    requires
        0 <= n <= items.len(),
    ensures
        left_over(items, removed, n).len() <= n,
        forall|k: int|
            0 <= k < left_over(items, removed, n).len() ==> !removed.contains(
                (#[trigger] left_over(items, removed, n)[k]).id,
            ),
        forall|i: int|
            0 <= i < n && !removed.contains((#[trigger] items[i]).id) ==> left_over(
                items,
                removed,
                n,
            ).contains(items[i]),
    decreases n,
{
    if n > 0 {
        left_over_blocks_are_the_others(items, removed, n - 1);
        let shorter = left_over(items, removed, n - 1);
        let longer = left_over(items, removed, n);
        assert forall|i: int| 0 <= i < n && !removed.contains(
            (#[trigger] items[i]).id,
        ) implies longer.contains(items[i]) by {
            if i < n - 1 {
                let k = choose|k: int| 0 <= k < shorter.len() && shorter[k] == items[i];
                assert(shorter.contains(items[i]));
                assert(longer[k] == items[i]);
            } else {
                assert(longer[longer.len() - 1] == items[i]);
            }
        }
    }
}

/// A deletion is accepted of listed blocks only, each named once, at least one, and
/// never of a block that hangs below nothing.
pub proof fn deletion_names_listed_blocks_once(
    before: SnapshotV,
    after: SnapshotV,
    subtree: Seq<Seq<char>>,
)
    requires
        delete_transition(before, after, subtree),
    ensures
        subtree.len() > 0,
        forall|a: int, b: int|
            0 <= a < b < subtree.len() ==> (#[trigger] subtree[a]) != (#[trigger] subtree[b]),
        forall|k: int|
            0 <= k < subtree.len() ==> ids(before.items).contains(#[trigger] subtree[k]),
        exists|i: int|
            0 <= i < before.items.len() && (#[trigger] before.items[i]).id == subtree[0]
                && before.items[i].parent_id is Some,
{
    assert forall|k: int| 0 <= k < subtree.len() implies ids(before.items).contains(
        #[trigger] subtree[k],
    ) by {
        find_facts(before.items, subtree[k]);
        let i = find(before.items, subtree[k])->0;
        assert(ids(before.items)[i] == subtree[k]);
    }
    find_facts(before.items, subtree[0]);
    let i = find(before.items, subtree[0])->0;
    assert(before.items[i].id == subtree[0]);
}

} // verus!
