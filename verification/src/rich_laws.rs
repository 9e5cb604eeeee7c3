//! Rich plans: which plans are accepted, and what it means that a written plan
//! still stands.

use crate::compose::block_accepted;
use crate::creation::shows_request;
use crate::input::{NewBlockInput, RichPlanEntry};
use crate::model::{SnapshotV, SummaryV};
use crate::rich::RichApplied;
use crate::rich_plan::{
    authored_parent, block_cost, entry_accepted, entry_depth, entry_of, entry_of_facts,
    fresh_receipt, last_below, plan_accepted, plan_cost, receipt_holds, siblings_before,
    standing_prefix, standing_prefix_is_maximal, MAX_RICH_BLOCKS, MAX_RICH_DEPTH, MAX_RICH_MARKS,
    MAX_RICH_OPS, MAX_RICH_TEXT_BYTES,
};
use crate::text::{byte_len, opt_view};
use crate::tree::{find, find_facts};
use vstd::prelude::*;

verus! {

// ---------------------------------------------------------------------------
// Standing plans
// ---------------------------------------------------------------------------

/// No two entries have one key.
pub open spec fn keys_are_distinct(entries: Seq<RichPlanEntry>) -> bool {
    forall|a: int, b: int|
        0 <= a < b < entries.len() ==> (#[trigger] entries[a]).local_key@ != (
        #[trigger] entries[b]).local_key@
}

/// Block below which entry `k` goes is `parent`: the root for a top entry, else
/// the block that was written for the earlier entry of that key.
pub open spec fn planned_below(
    entries: Seq<RichPlanEntry>,
    applied: Seq<RichApplied>,
    root: Seq<char>,
    k: int,
    parent: Seq<char>,
) -> bool {
    match opt_view(entries[k].parent_key) {
        None => parent == root,
        Some(key) => exists|j: int|
            0 <= j < k && (#[trigger] entries[j]).local_key@ == key && applied[j].block_id@
                == parent,
    }
}

/// Entries before entry `k` that go below the same parent.
pub open spec fn elder_siblings(entries: Seq<RichPlanEntry>, k: int) -> int {
    siblings_before(entries, opt_view(entries[k].parent_key), k)
}

/// Elder siblings are counted one by one.
pub proof fn siblings_are_counted(
    entries: Seq<RichPlanEntry>,
    parent: Option<Seq<char>>,
    n: int,
)
    requires
        0 <= n,
    ensures
        siblings_before(entries, parent, 0) == 0,
        opt_view(entries[n].parent_key) == parent ==> siblings_before(entries, parent, n + 1)
            == siblings_before(entries, parent, n) + 1,
        opt_view(entries[n].parent_key) != parent ==> siblings_before(entries, parent, n + 1)
            == siblings_before(entries, parent, n),
{
}

proof fn authored_parent_is_planned(
    entries: Seq<RichPlanEntry>,
    applied: Seq<RichApplied>,
    root: Seq<char>,
    k: int,
    parent: Seq<char>,
)
    requires
        keys_are_distinct(entries),
        0 <= k < entries.len(),
    ensures
        authored_parent(entries, applied, root, k) == Some(parent) <==> planned_below(
            entries,
            applied,
            root,
            k,
            parent,
        ),
{
    if let Some(key) = opt_view(entries[k].parent_key) {
        entry_of_facts(entries, key, k);
        if let Some(j) = entry_of(entries, key, k) {
            assert(entries[j].local_key@ == key);
            if planned_below(entries, applied, root, k, parent) {
                let i = choose|i: int|
                    0 <= i < k && (#[trigger] entries[i]).local_key@ == key && applied[i].block_id@
                        == parent;
                if i < j {
                    assert(entries[i].local_key@ != entries[j].local_key@);
                } else if j < i {
                    assert(entries[j].local_key@ != entries[i].local_key@);
                }
            }
        }
    }
}

/// Entries before `n` go below listed parents that differ where their keys do.
spec fn parents_apart(
    entries: Seq<RichPlanEntry>,
    applied: Seq<RichApplied>,
    root: Seq<char>,
    n: int,
) -> bool {
    &&& keys_are_distinct(entries)
    &&& n <= entries.len()
    &&& n <= applied.len()
    &&& forall|a: int, b: int|
        0 <= a < b < n ==> (#[trigger] applied[a]).block_id@ != (#[trigger] applied[b]).block_id@
    &&& forall|a: int| 0 <= a < n ==> (#[trigger] applied[a]).block_id@ != root
    &&& forall|a: int|
        0 <= a < n ==> (#[trigger] authored_parent(entries, applied, root, a)) is Some
}

proof fn same_parent_same_key(
    entries: Seq<RichPlanEntry>,
    applied: Seq<RichApplied>,
    root: Seq<char>,
    n: int,
    a: int,
    k: int,
)
    requires
        parents_apart(entries, applied, root, n),
        0 <= a < n,
        a < k <= n,
        k < entries.len(),
        authored_parent(entries, applied, root, k) is Some,
    ensures
        authored_parent(entries, applied, root, a) == authored_parent(entries, applied, root, k)
            <==> opt_view(entries[a].parent_key) == opt_view(entries[k].parent_key),
{
    assert(authored_parent(entries, applied, root, a) is Some);
    if let Some(key) = opt_view(entries[a].parent_key) {
        entry_of_facts(entries, key, a);
        let i = entry_of(entries, key, a)->0;
        if let Some(other) = opt_view(entries[k].parent_key) {
            entry_of_facts(entries, other, k);
            let j = entry_of(entries, other, k)->0;
            if key == other {
                if i < j {
                    assert(entries[i].local_key@ != entries[j].local_key@);
                } else if j < i {
                    assert(entries[j].local_key@ != entries[i].local_key@);
                }
            } else if i != j {
                if i < j {
                    assert(applied[i].block_id@ != applied[j].block_id@);
                } else {
                    assert(applied[j].block_id@ != applied[i].block_id@);
                }
            }
        } else {
            assert(applied[i].block_id@ != root);
        }
    } else if let Some(other) = opt_view(entries[k].parent_key) {
        entry_of_facts(entries, other, k);
        let j = entry_of(entries, other, k)->0;
        assert(applied[j].block_id@ != root);
    }
}

/// The last written sibling is the elder next in age.
proof fn last_below_is_the_next_elder(
    entries: Seq<RichPlanEntry>,
    applied: Seq<RichApplied>,
    root: Seq<char>,
    k: int,
    n: int,
)
    requires
        parents_apart(entries, applied, root, k),
        0 <= n <= k,
        k < entries.len(),
        authored_parent(entries, applied, root, k) is Some,
    ensures
        match last_below(
            entries,
            applied,
            root,
            authored_parent(entries, applied, root, k)->0,
            n,
        ) {
            Some(j) => 0 <= j < n && opt_view(entries[j].parent_key) == opt_view(
                entries[k].parent_key,
            ) && siblings_before(entries, opt_view(entries[k].parent_key), n) == siblings_before(
                entries,
                opt_view(entries[k].parent_key),
                j,
            ) + 1,
            None => siblings_before(entries, opt_view(entries[k].parent_key), n) == 0,
        },
    decreases n,
{
    if n > 0 {
        last_below_is_the_next_elder(entries, applied, root, k, n - 1);
        same_parent_same_key(entries, applied, root, k, n - 1, k);
    }
}

/// Block `i` is the first listed under an identifier.
pub open spec fn stands_at(items: Seq<SummaryV>, id: Seq<char>, i: int) -> bool {
    0 <= i < items.len() && items[i].id == id && forall|j: int|
        0 <= j < i ==> (#[trigger] items[j]).id != id
}

/// Receipt `k` is where the plan puts it: below its parent, behind its elder
/// siblings, at the top from `first` on, showing what was asked for.
pub open spec fn written_as_planned(
    entries: Seq<RichPlanEntry>,
    applied: Seq<RichApplied>,
    snapshot: SnapshotV,
    first: int,
    k: int,
) -> bool {
    &&& applied[k].index == k
    &&& applied[k].local_key@ == entries[k].local_key@
    &&& exists|i: int| #[trigger]
        stands_at(snapshot.items, applied[k].block_id@, i) && {
            &&& snapshot.items[i].parent_id matches Some(parent) && planned_below(
                entries,
                applied,
                snapshot.root_id,
                k,
                parent,
            )
            &&& snapshot.items[i].sibling_index == elder_siblings(entries, k) + if opt_view(
                entries[k].parent_key,
            ) is Some {
                0
            } else {
                first
            }
            &&& shows_request(snapshot.items[i], entries[k].block)
        }
}

proof fn stands_where_found(items: Seq<SummaryV>, id: Seq<char>)
    ensures
        forall|i: int| #[trigger] stands_at(items, id, i) <==> find(items, id) == Some(i),
{
    find_facts(items, id);
    assert forall|i: int| #[trigger] stands_at(items, id, i) implies find(items, id) == Some(
        i,
    ) by {
        assert(items[i].id == id);
    }
}

/// A plan that was written as asked stands as a whole: where every receipt names a
/// block of its own that is not the root, the children of every authored parent
/// are the blocks of its entries in plan order, the top entries stand from `first`
/// on, and every block shows its request, no receipt is missing from the standing
/// prefix.
pub proof fn plan_written_as_asked_stands(
    entries: Seq<RichPlanEntry>,
    applied: Seq<RichApplied>,
    snapshot: SnapshotV,
    baseline: Option<int>,
    first: int,
)
    requires
        keys_are_distinct(entries),
        applied.len() <= entries.len(),
        baseline matches Some(slot) ==> slot == first,
        forall|a: int, b: int|
            0 <= a < b < applied.len() ==> (#[trigger] applied[a]).block_id@ != (
            #[trigger] applied[b]).block_id@,
        forall|k: int| 0 <= k < applied.len() ==> (#[trigger] applied[k]).block_id@
            != snapshot.root_id,
        forall|k: int|
            0 <= k < applied.len() ==> #[trigger] written_as_planned(
                entries,
                applied,
                snapshot,
                first,
                k,
            ),
    ensures
        standing_prefix(entries, applied, snapshot, baseline) == applied.len(),
{
    standing_prefix_is_maximal(entries, applied, snapshot, baseline);
    let root = snapshot.root_id;
    assert forall|k: int| 0 <= k < applied.len() implies (#[trigger] authored_parent(
        entries,
        applied,
        root,
        k,
    )) is Some by {
        assert(written_as_planned(entries, applied, snapshot, first, k));
        let i = choose|i: int| #[trigger]
            stands_at(snapshot.items, applied[k].block_id@, i) && {
                &&& snapshot.items[i].parent_id matches Some(parent) && planned_below(
                    entries,
                    applied,
                    root,
                    k,
                    parent,
                )
                &&& snapshot.items[i].sibling_index == elder_siblings(entries, k) + if opt_view(
                    entries[k].parent_key,
                ) is Some {
                    0
                } else {
                    first
                }
                &&& shows_request(snapshot.items[i], entries[k].block)
            };
        let parent = snapshot.items[i].parent_id->0;
        authored_parent_is_planned(entries, applied, root, k, parent);
    }
    let p = standing_prefix(entries, applied, snapshot, baseline);
    if p < applied.len() {
        receipt_stands(entries, applied, snapshot, baseline, first, p);
    }
}

proof fn receipt_stands(
    entries: Seq<RichPlanEntry>,
    applied: Seq<RichApplied>,
    snapshot: SnapshotV,
    baseline: Option<int>,
    first: int,
    k: int,
)
    requires
        keys_are_distinct(entries),
        0 <= k < applied.len() <= entries.len(),
        baseline matches Some(slot) ==> slot == first,
        forall|a: int, b: int|
            0 <= a < b < applied.len() ==> (#[trigger] applied[a]).block_id@ != (
            #[trigger] applied[b]).block_id@,
        forall|a: int| 0 <= a < applied.len() ==> (#[trigger] applied[a]).block_id@
            != snapshot.root_id,
        forall|a: int|
            0 <= a < applied.len() ==> #[trigger] written_as_planned(
                entries,
                applied,
                snapshot,
                first,
                a,
            ),
        forall|a: int|
            0 <= a < applied.len() ==> (#[trigger] authored_parent(
                entries,
                applied,
                snapshot.root_id,
                a,
            )) is Some,
    ensures
        receipt_holds(entries, applied, snapshot, baseline, k),
{
    let root = snapshot.root_id;
    let id = applied[k].block_id@;
    assert(written_as_planned(entries, applied, snapshot, first, k));
    stands_where_found(snapshot.items, id);
    let i = find(snapshot.items, id)->0;
    assert(stands_at(snapshot.items, id, i));
    assert(authored_parent(entries, applied, root, k) is Some);
    let parent = authored_parent(entries, applied, root, k)->0;
    authored_parent_is_planned(entries, applied, root, k, snapshot.items[i].parent_id->0);
    assert(snapshot.items[i].parent_id == Some(parent));
    last_below_is_the_next_elder(entries, applied, root, k, k);
    if let Some(j) = last_below(entries, applied, root, parent, k) {
        assert(written_as_planned(entries, applied, snapshot, first, j));
        stands_where_found(snapshot.items, applied[j].block_id@);
        let q = find(snapshot.items, applied[j].block_id@)->0;
        assert(stands_at(snapshot.items, applied[j].block_id@, q));
    }
    assert(fresh_receipt(applied, id, k)) by {
        assert forall|j: int| 0 <= j < k implies (#[trigger] applied[j]).block_id@ != id by {
            assert(applied[j].block_id@ != applied[k].block_id@);
        }
    }
}

/// The root hangs below nothing.
pub open spec fn root_hangs_below_nothing(snapshot: SnapshotV) -> bool {
    forall|i: int|
        0 <= i < snapshot.items.len() && (#[trigger] snapshot.items[i]).id == snapshot.root_id
            ==> snapshot.items[i].parent_id is None
}

proof fn standing_receipts_are_apart(
    entries: Seq<RichPlanEntry>,
    applied: Seq<RichApplied>,
    snapshot: SnapshotV,
    baseline: Option<int>,
    n: int,
)
    requires
        keys_are_distinct(entries),
        root_hangs_below_nothing(snapshot),
        0 <= n <= applied.len(),
        n <= entries.len(),
        forall|a: int|
            0 <= a < n ==> #[trigger] receipt_holds(entries, applied, snapshot, baseline, a),
    ensures
        parents_apart(entries, applied, snapshot.root_id, n),
{
    let root = snapshot.root_id;
    assert forall|a: int, b: int| 0 <= a < b < n implies (#[trigger] applied[a]).block_id@ != (
    #[trigger] applied[b]).block_id@ by {
        assert(receipt_holds(entries, applied, snapshot, baseline, b));
    }
    assert forall|a: int| 0 <= a < n implies (#[trigger] applied[a]).block_id@ != root by {
        assert(receipt_holds(entries, applied, snapshot, baseline, a));
        find_facts(snapshot.items, applied[a].block_id@);
    }
    assert forall|a: int| 0 <= a < n implies (#[trigger] authored_parent(
        entries,
        applied,
        root,
        a,
    )) is Some by {
        assert(receipt_holds(entries, applied, snapshot, baseline, a));
    }
}

/// A standing receipt is where the plan puts it. It is the receipt of its entry,
/// its block is listed below the root or below the block of the entry that its
/// parent key names, shows what was asked for, and no other standing receipt
/// names it. Below an authored parent it stands behind as many blocks as it has
/// elder siblings; at the top it stands as far behind the position that was
/// witnessed; and behind the elder next in age it stands directly.
pub proof fn standing_receipts_are_where_planned(
    entries: Seq<RichPlanEntry>,
    applied: Seq<RichApplied>,
    snapshot: SnapshotV,
    baseline: Option<int>,
    k: int,
)
    requires
        keys_are_distinct(entries),
        root_hangs_below_nothing(snapshot),
        0 <= k < standing_prefix(entries, applied, snapshot, baseline),
    ensures
        k < entries.len(),
        applied[k].index == k,
        applied[k].local_key@ == entries[k].local_key@,
        forall|j: int| 0 <= j < k ==> (#[trigger] applied[j]).block_id@ != applied[k].block_id@,
        exists|i: int| #[trigger]
            stands_at(snapshot.items, applied[k].block_id@, i) && {
                &&& snapshot.items[i].parent_id matches Some(parent) && planned_below(
                    entries,
                    applied,
                    snapshot.root_id,
                    k,
                    parent,
                )
                &&& opt_view(entries[k].parent_key) is Some ==> snapshot.items[i].sibling_index
                    == elder_siblings(entries, k)
                &&& opt_view(entries[k].parent_key) is None ==> (baseline matches Some(first)
                    ==> snapshot.items[i].sibling_index == first + elder_siblings(entries, k))
                &&& shows_request(snapshot.items[i], entries[k].block)
                &&& forall|j: int, h: int|
                    0 <= j < k && opt_view((#[trigger] entries[j]).parent_key) == opt_view(
                        entries[k].parent_key,
                    ) && elder_siblings(entries, j) + 1 == elder_siblings(entries, k)
                        && #[trigger] stands_at(snapshot.items, applied[j].block_id@, h)
                        ==> snapshot.items[i].sibling_index == snapshot.items[h].sibling_index + 1
            },
    decreases k,
{
    let root = snapshot.root_id;
    standing_prefix_is_maximal(entries, applied, snapshot, baseline);
    assert(receipt_holds(entries, applied, snapshot, baseline, k));
    assert forall|a: int| 0 <= a < k implies #[trigger] receipt_holds(
        entries,
        applied,
        snapshot,
        baseline,
        a,
    ) by {}
    standing_receipts_are_apart(entries, applied, snapshot, baseline, k);
    stands_where_found(snapshot.items, applied[k].block_id@);
    let i = find(snapshot.items, applied[k].block_id@)->0;
    assert(stands_at(snapshot.items, applied[k].block_id@, i));
    let parent = authored_parent(entries, applied, root, k)->0;
    authored_parent_is_planned(entries, applied, root, k, parent);
    last_below_is_the_next_elder(entries, applied, root, k, k);
    if let Some(j) = last_below(entries, applied, root, parent, k) {
        standing_receipts_are_where_planned(entries, applied, snapshot, baseline, j);
        stands_where_found(snapshot.items, applied[j].block_id@);
        assert forall|m: int, h: int|
            0 <= m < k && opt_view((#[trigger] entries[m]).parent_key) == opt_view(
                entries[k].parent_key,
            ) && elder_siblings(entries, m) + 1 == elder_siblings(entries, k)
                && #[trigger] stands_at(
                snapshot.items,
                applied[m].block_id@,
                h,
            ) implies snapshot.items[i].sibling_index == snapshot.items[h].sibling_index + 1 by {
            same_age_is_same(entries, m, j);
            stands_where_found(snapshot.items, applied[m].block_id@);
        }
    } else {
        assert forall|m: int, h: int|
            0 <= m < k && opt_view((#[trigger] entries[m]).parent_key) == opt_view(
                entries[k].parent_key,
            ) && elder_siblings(entries, m) + 1 == elder_siblings(entries, k)
                && #[trigger] stands_at(
                snapshot.items,
                applied[m].block_id@,
                h,
            ) implies snapshot.items[i].sibling_index == snapshot.items[h].sibling_index + 1 by {
            siblings_grow(entries, opt_view(entries[k].parent_key), 0, m);
        }
    }
}

proof fn siblings_grow(entries: Seq<RichPlanEntry>, parent: Option<Seq<char>>, a: int, b: int)
    requires
        0 <= a <= b,
    ensures
        siblings_before(entries, parent, a) <= siblings_before(entries, parent, b),
    decreases b - a,
{
    if a < b {
        siblings_grow(entries, parent, a, b - 1);
    }
}

proof fn same_age_is_same(entries: Seq<RichPlanEntry>, a: int, b: int)
    requires
        0 <= a,
        0 <= b,
        opt_view(entries[a].parent_key) == opt_view(entries[b].parent_key),
        elder_siblings(entries, a) == elder_siblings(entries, b),
    ensures
        a == b,
{
    let parent = opt_view(entries[a].parent_key);
    if a < b {
        siblings_grow(entries, parent, a + 1, b);
    } else if b < a {
        siblings_grow(entries, parent, b + 1, a);
    }
}

// ---------------------------------------------------------------------------
// Accepted plans
// ---------------------------------------------------------------------------

/// Entry `i` hangs at depth `depths[i]`: one at the top, else one below an earlier
/// text entry of the key that it names.
pub open spec fn hangs_at(entries: Seq<RichPlanEntry>, depths: Seq<int>, i: int) -> bool {
    match opt_view(entries[i].parent_key) {
        None => depths[i] == 1,
        Some(key) => exists|j: int|
            0 <= j < i && (#[trigger] entries[j]).local_key@ == key && entries[j].block is Text
                && depths[i] == depths[j] + 1,
    }
}

proof fn depth_is_where_it_hangs(entries: Seq<RichPlanEntry>, depths: Seq<int>, i: int)
    requires
        keys_are_distinct(entries),
        depths.len() == entries.len(),
        forall|k: int| 0 <= k < entries.len() ==> #[trigger] hangs_at(entries, depths, k),
        0 <= i < entries.len(),
    ensures
        entry_depth(entries, i) == Some(depths[i]),
    decreases i,
{
    assert(hangs_at(entries, depths, i));
    if let Some(key) = opt_view(entries[i].parent_key) {
        let j = choose|j: int|
            0 <= j < i && (#[trigger] entries[j]).local_key@ == key && entries[j].block is Text
                && depths[i] == depths[j] + 1;
        entry_of_facts(entries, key, i);
        let m = entry_of(entries, key, i)->0;
        if m < j {
            assert(entries[m].local_key@ != entries[j].local_key@);
        } else if j < m {
            assert(entries[j].local_key@ != entries[m].local_key@);
        }
        depth_is_where_it_hangs(entries, depths, j);
    }
}

/// A plan whose entries have distinct keys, and hang at the top or below earlier
/// text entries, is accepted exactly where it has at least one and not too many
/// entries, none too deep, every block is one that a caller may send, and its
/// blocks, its text and its marks are within their bounds.
pub proof fn bounded_forests_are_accepted(entries: Seq<RichPlanEntry>, depths: Seq<int>)
    requires
        keys_are_distinct(entries),
        depths.len() == entries.len(),
        forall|k: int| 0 <= k < entries.len() ==> #[trigger] hangs_at(entries, depths, k),
    ensures
        plan_accepted(entries) <==> {
            &&& 1 <= entries.len() <= MAX_RICH_OPS
            &&& forall|i: int| 0 <= i < entries.len() ==> (#[trigger] depths[i]) <= MAX_RICH_DEPTH
            &&& forall|i: int|
                0 <= i < entries.len() ==> block_accepted((#[trigger] entries[i]).block)
            &&& plan_cost(entries, entries.len() as int).blocks <= MAX_RICH_BLOCKS
            &&& plan_cost(entries, entries.len() as int).text <= MAX_RICH_TEXT_BYTES
            &&& plan_cost(entries, entries.len() as int).marks <= MAX_RICH_MARKS
        },
{
    assert forall|i: int| 0 <= i < entries.len() implies (#[trigger] entry_accepted(entries, i)
        <==> depths[i] <= MAX_RICH_DEPTH && block_accepted(entries[i].block)) by {
        depth_is_where_it_hangs(entries, depths, i);
        entry_of_facts(entries, entries[i].local_key@, i);
        if let Some(j) = entry_of(entries, entries[i].local_key@, i) {
            assert(entries[j].local_key@ != entries[i].local_key@);
        }
    }
    if plan_accepted(entries) {
        assert forall|i: int| 0 <= i < entries.len() implies (#[trigger] depths[i])
            <= MAX_RICH_DEPTH by {
            assert(entry_accepted(entries, i));
        }
        assert forall|i: int| 0 <= i < entries.len() implies block_accepted(
            (#[trigger] entries[i]).block,
        ) by {
            assert(entry_accepted(entries, i));
        }
    }
}

/// A plan costs what its entries cost together.
pub proof fn plan_costs_add_up(entries: Seq<RichPlanEntry>, n: int)
    requires
        0 <= n,
    ensures
        plan_cost(entries, 0).blocks == 0 && plan_cost(entries, 0).text == 0 && plan_cost(
            entries,
            0,
        ).marks == 0,
        plan_cost(entries, n + 1).blocks == plan_cost(entries, n).blocks + block_cost(
            entries[n].block,
        ).blocks,
        plan_cost(entries, n + 1).text == plan_cost(entries, n).text + block_cost(
            entries[n].block,
        ).text,
        plan_cost(entries, n + 1).marks == plan_cost(entries, n).marks + block_cost(
            entries[n].block,
        ).marks,
{
}

/// A text costs its bytes and its marks, an embed the bytes of its source. A table
/// costs itself, its rows, its columns and its cells. Every other block costs
/// itself alone.
pub proof fn block_costs(input: NewBlockInput)
    ensures
        match input {
            NewBlockInput::Text { text, marks, .. } => block_cost(input).blocks == 1 && block_cost(
                input,
            ).text == byte_len(text@) && block_cost(input).marks == marks.len(),
            NewBlockInput::Embed { source, .. } => block_cost(input).blocks == 1 && block_cost(
                input,
            ).text == byte_len(source@) && block_cost(input).marks == 0,
            NewBlockInput::Table { rows, columns, .. } => block_cost(input).blocks == (rows + 1) * (
            columns + 1) && block_cost(input).text == 0 && block_cost(input).marks == 0,
            _ => block_cost(input).blocks == 1 && block_cost(input).text == 0 && block_cost(
                input,
            ).marks == 0,
        },
{
    if let NewBlockInput::Table { rows, columns, .. } = input {
        assert((rows + 1) * (columns + 1) == 1 + rows + columns + rows * columns)
            by (nonlinear_arith);
    }
}

/// Entry `i` names no parent, or the key of an earlier text entry.
pub open spec fn hangs_below_a_text(entries: Seq<RichPlanEntry>, i: int) -> bool {
    entries[i].parent_key matches Some(key) ==> exists|j: int|
        0 <= j < i && (#[trigger] entries[j]).local_key@ == key@ && entries[j].block is Text
}

/// In an accepted plan no key occurs twice, and every entry hangs at the top or below
/// an earlier text entry.
pub proof fn accepted_plans_are_forests(entries: Seq<RichPlanEntry>)
    requires
        plan_accepted(entries),
    ensures
        keys_are_distinct(entries),
        forall|i: int| 0 <= i < entries.len() ==> #[trigger] hangs_below_a_text(entries, i),
{
    assert forall|i: int| 0 <= i < entries.len() implies #[trigger] hangs_below_a_text(
        entries,
        i,
    ) by {
        assert(entry_accepted(entries, i));
        if let Some(key) = entries[i].parent_key {
            entry_of_facts(entries, key@, i);
            let j = entry_of(entries, key@, i)->0;
            assert(entries[j].local_key@ == key@);
        }
    }
    assert forall|a: int, b: int| 0 <= a < b < entries.len() implies (
    #[trigger] entries[a]).local_key@ != (#[trigger] entries[b]).local_key@ by {
        assert(entry_accepted(entries, b));
        entry_of_facts(entries, entries[b].local_key@, b);
    }
}

} // verus!
