//! Rich plans: which plans are accepted, and how much of an applied plan still
//! stands in a body.

use crate::compose::{block_accepted, new_block};
use crate::creation::{block_shows_request, shows_request};
use crate::domain::{EntityId, LocalKey};
use crate::error::ToolError;
use crate::input::{NewBlockInput, RichPageCreateInput, RichPlanEntry};
use crate::model::{BlockSummary, ProjectedSnapshot, SnapshotV};
use crate::rich::RichApplied;
use crate::text::{byte_len, opt_view, text_bytes, Same};
use crate::tree::{find, find_block};
use vstd::prelude::*;

verus! {

/// Largest number of entries in a plan.
pub const MAX_RICH_OPS: usize = 16;

/// Deepest entry in a plan.
pub const MAX_RICH_DEPTH: usize = 8;

/// Largest number of entries below one parent.
pub const MAX_RICH_SIBLINGS: usize = 16;

/// Largest number of blocks that a plan may materialize.
pub const MAX_RICH_BLOCKS: usize = 256;

/// Largest text of a plan in bytes.
pub const MAX_RICH_TEXT_BYTES: usize = 131_072;

/// Largest number of marks in a plan.
pub const MAX_RICH_MARKS: usize = 1_024;

/// Blocks, text bytes and marks that an entry adds.
pub struct CostV {
    pub blocks: int,
    pub text: int,
    pub marks: int,
}

/// Cost of a new block. A table materializes its rows, its columns and its
/// cells.
pub open spec fn block_cost(input: NewBlockInput) -> CostV {
    match input {
        NewBlockInput::Text { text, marks, .. } => CostV {
            blocks: 1,
            text: byte_len(text@) as int,
            marks: marks.len() as int,
        },
        NewBlockInput::Embed { source, .. } => CostV {
            blocks: 1,
            text: byte_len(source@) as int,
            marks: 0,
        },
        NewBlockInput::Table { rows, columns, .. } => CostV {
            blocks: 1 + rows + columns + rows * columns,
            text: 0,
            marks: 0,
        },
        _ => CostV { blocks: 1, text: 0, marks: 0 },
    }
}

/// Cost of the first `n` entries.
pub open spec fn plan_cost(entries: Seq<RichPlanEntry>, n: int) -> CostV
    decreases n,
{
    if n <= 0 {
        CostV { blocks: 0, text: 0, marks: 0 }
    } else {
        let before = plan_cost(entries, n - 1);
        let added = block_cost(entries[n - 1].block);
        CostV {
            blocks: before.blocks + added.blocks,
            text: before.text + added.text,
            marks: before.marks + added.marks,
        }
    }
}

/// Last entry before `n` with this key.
pub open spec fn entry_of(entries: Seq<RichPlanEntry>, key: Seq<char>, n: int) -> Option<int>
    decreases n,
{
    if n <= 0 {
        None
    } else if entries[n - 1].local_key@ == key {
        Some(n - 1)
    } else {
        entry_of(entries, key, n - 1)
    }
}

/// An entry found before `n` stands there under its key.
pub proof fn entry_of_facts(entries: Seq<RichPlanEntry>, key: Seq<char>, n: int)
    requires
        n <= entries.len(),
    ensures
        match entry_of(entries, key, n) {
            Some(j) => 0 <= j < n && entries[j].local_key@ == key,
            None => forall|j: int| 0 <= j < n ==> (#[trigger] entries[j]).local_key@ != key,
        },
    decreases n,
{
    if n > 0 && entries[n - 1].local_key@ != key {
        entry_of_facts(entries, key, n - 1);
    }
}

/// Depth of an entry: one at the top, else one below its parent, which has to
/// be an earlier text entry.
pub open spec fn entry_depth(entries: Seq<RichPlanEntry>, i: int) -> Option<int>
    decreases i,
{
    match opt_view(entries[i].parent_key) {
        None => Some(1),
        Some(parent) => match entry_of(entries, parent, i) {
            Some(j) => if 0 <= j < i && entries[j].block is Text {
                match entry_depth(entries, j) {
                    Some(depth) => Some(depth + 1),
                    None => None,
                }
            } else {
                None
            },
            None => None,
        },
    }
}

/// Entry `i` of a plan: a fresh key, a bounded depth and an acceptable block.
pub open spec fn entry_accepted(entries: Seq<RichPlanEntry>, i: int) -> bool {
    &&& entry_of(entries, entries[i].local_key@, i) is None
    &&& entry_depth(entries, i) matches Some(depth) && depth <= MAX_RICH_DEPTH
    &&& block_accepted(entries[i].block)
}

/// A plan that is accepted.
pub open spec fn plan_accepted(entries: Seq<RichPlanEntry>) -> bool {
    let cost = plan_cost(entries, entries.len() as int);
    &&& 1 <= entries.len() <= MAX_RICH_OPS
    &&& forall|i: int| 0 <= i < entries.len() ==> #[trigger] entry_accepted(entries, i)
    &&& cost.blocks <= MAX_RICH_BLOCKS
    &&& cost.text <= MAX_RICH_TEXT_BYTES
    &&& cost.marks <= MAX_RICH_MARKS
}

/// Entries before `n` below one parent.
pub open spec fn siblings_before(
    entries: Seq<RichPlanEntry>,
    parent: Option<Seq<char>>,
    n: int,
) -> int
    decreases n,
{
    if n <= 0 {
        0
    } else {
        siblings_before(entries, parent, n - 1) + if opt_view(entries[n - 1].parent_key) == parent {
            1int
        } else {
            0int
        }
    }
}

proof fn siblings_bound(entries: Seq<RichPlanEntry>, parent: Option<Seq<char>>, n: int)
    requires
        0 <= n,
    ensures
        0 <= siblings_before(entries, parent, n) <= n,
    decreases n,
{
    if n > 0 {
        siblings_bound(entries, parent, n - 1);
    }
}

/// An accepted plan names every entry once, hangs every entry below an earlier
/// text entry or at the top, at most eight deep, and puts at most sixteen
/// entries below one parent.
pub proof fn accepted_plan_is_a_bounded_forest(
    entries: Seq<RichPlanEntry>,
    parent: Option<Seq<char>>,
)
    requires
        plan_accepted(entries),
    ensures
        forall|a: int, b: int|
            0 <= a < b < entries.len() ==> (#[trigger] entries[a]).local_key@ != (
            #[trigger] entries[b]).local_key@,
        forall|i: int|
            0 <= i < entries.len() && opt_view((#[trigger] entries[i]).parent_key) is Some
                ==> exists|j: int|
                0 <= j < i && (#[trigger] entries[j]).local_key@ == opt_view(
                    entries[i].parent_key,
                )->0 && entries[j].block is Text,
        forall|i: int|
            0 <= i < entries.len() ==> 1 <= (#[trigger] entry_depth(entries, i))->0
                <= MAX_RICH_DEPTH,
        siblings_before(entries, parent, entries.len() as int) <= MAX_RICH_SIBLINGS,
{
    assert forall|a: int, b: int| 0 <= a < b < entries.len() implies (
    #[trigger] entries[a]).local_key@ != (#[trigger] entries[b]).local_key@ by {
        assert(entry_accepted(entries, b));
        entry_of_facts(entries, entries[b].local_key@, b);
    }
    assert forall|i: int|
        0 <= i < entries.len() && opt_view(
            (#[trigger] entries[i]).parent_key,
        ) is Some implies exists|j: int|
        0 <= j < i && (#[trigger] entries[j]).local_key@ == opt_view(entries[i].parent_key)->0
            && entries[j].block is Text by {
        assert(entry_accepted(entries, i));
        let parent_key = opt_view(entries[i].parent_key)->0;
        entry_of_facts(entries, parent_key, i);
        let j = entry_of(entries, parent_key, i)->0;
        assert(entries[j].local_key@ == parent_key);
    }
    assert forall|i: int| 0 <= i < entries.len() implies 1 <= (#[trigger] entry_depth(
        entries,
        i,
    ))->0 <= MAX_RICH_DEPTH by {
        assert(entry_accepted(entries, i));
        depth_is_positive(entries, i);
    }
    siblings_bound(entries, parent, entries.len() as int);
}

proof fn depth_is_positive(entries: Seq<RichPlanEntry>, i: int)
    ensures
        entry_depth(entries, i) matches Some(depth) ==> depth >= 1,
    decreases i,
{
    if let Some(parent) = opt_view(entries[i].parent_key) {
        if let Some(j) = entry_of(entries, parent, i) {
            if 0 <= j < i {
                depth_is_positive(entries, j);
            }
        }
    }
}

/// Cost of an entry.
#[derive(Clone, Copy, Debug, PartialEq, Eq, Structural)]
pub struct RichCost {
    pub blocks: usize,
    pub text: usize,
    pub marks: usize,
}

/// Cost of a new block.
pub fn rich_entry_cost(value: &NewBlockInput) -> (r: RichCost)
    ensures
        r.blocks == block_cost(*value).blocks,
        r.text == block_cost(*value).text,
        r.marks == block_cost(*value).marks,
        r.blocks <= 65_536,
{
    match value {
        NewBlockInput::Text { text, marks, .. } => RichCost {
            blocks: 1,
            text: text_bytes(text.as_str()),
            marks: marks.len(),
        },
        NewBlockInput::Embed { source, .. } => RichCost {
            blocks: 1,
            text: text_bytes(source.as_str()),
            marks: 0,
        },
        NewBlockInput::Table { rows, columns, .. } => {
            assert(0 <= *rows * *columns <= 255 * 255) by (nonlinear_arith)
                requires
                    0 <= *rows <= 255,
                    0 <= *columns <= 255,
            ;
            let row_count: usize = *rows as usize;
            let column_count: usize = *columns as usize;
            RichCost {
                blocks: 1 + row_count + column_count + row_count * column_count,
                text: 0,
                marks: 0,
            }
        },
        _ => RichCost { blocks: 1, text: 0, marks: 0 },
    }
}

/// Last entry before `n` with this key.
pub(crate) fn find_entry(entries: &Vec<RichPlanEntry>, key: &LocalKey, n: usize) -> (r: Option<usize>)
    requires
        n <= entries.len(),
    ensures
        match r {
            Some(j) => entry_of(entries@, key@, n as int) == Some(j as int) && j < n,
            None => entry_of(entries@, key@, n as int) is None,
        },
{
    let mut i: usize = n;
    while i > 0
        invariant
            i <= n <= entries.len(),
            entry_of(entries@, key@, n as int) == entry_of(entries@, key@, i as int),
        decreases i,
    {
        i -= 1;
        if entries[i].local_key.same(key) {
            return Some(i);
        }
    }
    None
}

/// A plan that was accepted.
#[derive(Clone, Copy, Debug)]
pub struct ValidatedRichPlan<'a> {
    pub entries: &'a Vec<RichPlanEntry>,
}

fn check_entry(entries: &Vec<RichPlanEntry>, depths: &Vec<usize>) -> (r: Option<usize>)
    requires
        depths.len() < entries.len(),
        forall|k: int|
            0 <= k < depths.len() ==> entry_depth(entries@, k) == Some(#[trigger] depths@[k] as int),
        forall|k: int| 0 <= k < depths.len() ==> (#[trigger] depths@[k]) <= MAX_RICH_DEPTH,
    ensures
        match r {
            Some(depth) => entry_accepted(entries@, depths.len() as int) && entry_depth(
                entries@,
                depths.len() as int,
            ) == Some(depth as int) && depth <= MAX_RICH_DEPTH,
            None => !entry_accepted(entries@, depths.len() as int),
        },
{
    let i: usize = depths.len();
    let entry: &RichPlanEntry = &entries[i];
    if find_entry(entries, &entry.local_key, i).is_some() {
        return None;
    }
    let depth: usize = match &entry.parent_key {
        Some(parent) => match find_entry(entries, parent, i) {
            Some(j) => {
                let is_text: bool = match &entries[j].block {
                    NewBlockInput::Text { .. } => true,
                    _ => false,
                };
                if !is_text {
                    return None;
                }
                assert(entry_depth(entries@, j as int) == Some(depths@[j as int] as int));
                depths[j] + 1
            },
            None => {
                return None;
            },
        },
        None => 1,
    };
    if depth > MAX_RICH_DEPTH {
        return None;
    }
    if new_block(&entry.block).is_err() {
        return None;
    }
    Some(depth)
}

proof fn cost_grows(entries: Seq<RichPlanEntry>, a: int, b: int)
    requires
        0 <= a <= b <= entries.len(),
    ensures
        plan_cost(entries, a).blocks <= plan_cost(entries, b).blocks,
        plan_cost(entries, a).text <= plan_cost(entries, b).text,
        plan_cost(entries, a).marks <= plan_cost(entries, b).marks,
    decreases b - a,
{
    if a < b {
        cost_grows(entries, a, b - 1);
        block_cost_is_positive(entries[b - 1].block);
    }
}

proof fn block_cost_is_positive(input: NewBlockInput)
    ensures
        block_cost(input).blocks >= 1,
        block_cost(input).text >= 0,
        block_cost(input).marks >= 0,
{
    if let NewBlockInput::Table { rows, columns, .. } = input {
        assert(rows * columns >= 0) by (nonlinear_arith)
            requires
                rows >= 0,
                columns >= 0,
        ;
    }
}

/// Accepts a plan, or refuses it as not acceptable.
pub fn validate_rich_plan(input: &RichPageCreateInput) -> (r: Result<
    ValidatedRichPlan<'_>,
    ToolError,
>)
    ensures
        match r {
            Ok(plan) => plan_accepted(input.blocks@) && *plan.entries == input.blocks,
            Err(error) => !plan_accepted(input.blocks@) && error == ToolError::Validation,
        },
{
    let entries: &Vec<RichPlanEntry> = &input.blocks;
    if entries.len() == 0 || entries.len() > MAX_RICH_OPS {
        return Err(ToolError::validation());
    }
    let mut depths: Vec<usize> = Vec::new();
    let mut blocks: usize = 0;
    let mut text: usize = 0;
    let mut marks: usize = 0;
    while depths.len() < entries.len()
        invariant
            *entries == input.blocks,
            1 <= entries.len() <= MAX_RICH_OPS,
            depths.len() <= entries.len(),
            forall|k: int|
                0 <= k < depths.len() ==> entry_depth(entries@, k) == Some(
                    #[trigger] depths@[k] as int,
                ),
            forall|k: int| 0 <= k < depths.len() ==> (#[trigger] depths@[k]) <= MAX_RICH_DEPTH,
            forall|k: int| 0 <= k < depths.len() ==> #[trigger] entry_accepted(entries@, k),
            blocks == plan_cost(entries@, depths.len() as int).blocks,
            text == plan_cost(entries@, depths.len() as int).text,
            marks == plan_cost(entries@, depths.len() as int).marks,
            blocks <= MAX_RICH_BLOCKS,
            text <= MAX_RICH_TEXT_BYTES,
            marks <= MAX_RICH_MARKS,
        decreases entries.len() - depths.len(),
    {
        let ghost i = depths.len() as int;
        let depth: usize = match check_entry(entries, &depths) {
            Some(depth) => depth,
            None => {
                assert(!entry_accepted(entries@, i));
                return Err(ToolError::validation());
            },
        };
        let cost: RichCost = rich_entry_cost(&entries[depths.len()].block);
        if cost.blocks > MAX_RICH_BLOCKS - blocks || cost.text > MAX_RICH_TEXT_BYTES - text
            || cost.marks > MAX_RICH_MARKS - marks {
            proof {
                cost_grows(entries@, i + 1, entries.len() as int);
            }
            return Err(ToolError::validation());
        }
        blocks = blocks + cost.blocks;
        text = text + cost.text;
        marks = marks + cost.marks;
        depths.push(depth);
    }
    Ok(ValidatedRichPlan { entries })
}

// ---------------------------------------------------------------------------
// Applied plans
// ---------------------------------------------------------------------------

/// Parent that receipt `k` has to hang below: the root for a top entry, else
/// the block of the entry that its parent key names.
pub open spec fn authored_parent(
    entries: Seq<RichPlanEntry>,
    applied: Seq<RichApplied>,
    root: Seq<char>,
    k: int,
) -> Option<Seq<char>> {
    match opt_view(entries[k].parent_key) {
        None => Some(root),
        Some(parent) => match entry_of(entries, parent, k) {
            Some(j) => Some(applied[j].block_id@),
            None => None,
        },
    }
}

/// Last receipt before `n` that hangs below `parent`.
pub open spec fn last_below(
    entries: Seq<RichPlanEntry>,
    applied: Seq<RichApplied>,
    root: Seq<char>,
    parent: Seq<char>,
    n: int,
) -> Option<int>
    decreases n,
{
    if n <= 0 {
        None
    } else if authored_parent(entries, applied, root, n - 1) == Some(parent) {
        Some(n - 1)
    } else {
        last_below(entries, applied, root, parent, n - 1)
    }
}

/// No receipt before `n` names this block.
pub open spec fn fresh_receipt(applied: Seq<RichApplied>, id: Seq<char>, n: int) -> bool {
    forall|j: int| 0 <= j < n ==> (#[trigger] applied[j]).block_id@ != id
}

/// The slot of receipt `k` is right: after the last authored sibling, or first
/// below an authored parent, or at the append position of the root.
pub open spec fn slot_holds(
    entries: Seq<RichPlanEntry>,
    applied: Seq<RichApplied>,
    snapshot: SnapshotV,
    baseline: Option<int>,
    k: int,
    parent: Seq<char>,
    slot: int,
) -> bool {
    match last_below(entries, applied, snapshot.root_id, parent, k) {
        Some(j) => snapshot.items[find(snapshot.items, applied[j].block_id@)->0].sibling_index + 1
            == slot,
        None => if opt_view(entries[k].parent_key) is Some {
            slot == 0
        } else {
            baseline matches Some(first) ==> first == slot
        },
    }
}

/// Receipt `k` still stands in the body, given that the earlier ones do: it is
/// the receipt of entry `k`, its block is listed, new among the receipts, hangs
/// where the plan says, and shows what the plan says.
pub open spec fn receipt_holds(
    entries: Seq<RichPlanEntry>,
    applied: Seq<RichApplied>,
    snapshot: SnapshotV,
    baseline: Option<int>,
    k: int,
) -> bool {
    &&& applied[k].index == k
    &&& k < entries.len()
    &&& applied[k].local_key@ == entries[k].local_key@
    &&& fresh_receipt(applied, applied[k].block_id@, k)
    &&& find(snapshot.items, applied[k].block_id@) matches Some(i) && authored_parent(
        entries,
        applied,
        snapshot.root_id,
        k,
    ) matches Some(parent) && {
        &&& snapshot.items[i].parent_id == Some(parent)
        &&& slot_holds(
            entries,
            applied,
            snapshot,
            baseline,
            k,
            parent,
            snapshot.items[i].sibling_index,
        )
        &&& shows_request(snapshot.items[i], entries[k].block)
    }
}

/// A slot as a number.
pub open spec fn as_slot(slot: Option<u64>) -> Option<int> {
    match slot {
        Some(slot) => Some(slot as int),
        None => None,
    }
}

/// Length of the longest prefix of receipts that still stand, from `k` on.
pub open spec fn prefix_from(
    entries: Seq<RichPlanEntry>,
    applied: Seq<RichApplied>,
    snapshot: SnapshotV,
    baseline: Option<int>,
    k: int,
) -> int
    decreases applied.len() - k,
{
    if k >= applied.len() {
        applied.len() as int
    } else if receipt_holds(entries, applied, snapshot, baseline, k) {
        prefix_from(entries, applied, snapshot, baseline, k + 1)
    } else {
        k
    }
}

/// Length of the longest prefix of receipts that still stand.
pub open spec fn standing_prefix(
    entries: Seq<RichPlanEntry>,
    applied: Seq<RichApplied>,
    snapshot: SnapshotV,
    baseline: Option<int>,
) -> int {
    prefix_from(entries, applied, snapshot, baseline, 0)
}

/// The standing prefix holds receipt by receipt, and its successor does not.
pub proof fn standing_prefix_is_maximal(
    entries: Seq<RichPlanEntry>,
    applied: Seq<RichApplied>,
    snapshot: SnapshotV,
    baseline: Option<int>,
)
    ensures
        0 <= standing_prefix(entries, applied, snapshot, baseline) <= applied.len(),
        forall|k: int|
            0 <= k < standing_prefix(entries, applied, snapshot, baseline)
                ==> #[trigger] receipt_holds(entries, applied, snapshot, baseline, k),
        standing_prefix(entries, applied, snapshot, baseline) < applied.len() ==> !receipt_holds(
            entries,
            applied,
            snapshot,
            baseline,
            standing_prefix(entries, applied, snapshot, baseline),
        ),
{
    prefix_from_facts(entries, applied, snapshot, baseline, 0);
}

proof fn prefix_from_facts(
    entries: Seq<RichPlanEntry>,
    applied: Seq<RichApplied>,
    snapshot: SnapshotV,
    baseline: Option<int>,
    from: int,
)
    requires
        0 <= from <= applied.len(),
    ensures
        from <= prefix_from(entries, applied, snapshot, baseline, from) <= applied.len(),
        forall|k: int|
            from <= k < prefix_from(entries, applied, snapshot, baseline, from)
                ==> #[trigger] receipt_holds(entries, applied, snapshot, baseline, k),
        prefix_from(entries, applied, snapshot, baseline, from) < applied.len() ==> !receipt_holds(
            entries,
            applied,
            snapshot,
            baseline,
            prefix_from(entries, applied, snapshot, baseline, from),
        ),
    decreases applied.len() - from,
{
    if from < applied.len() && receipt_holds(entries, applied, snapshot, baseline, from) {
        prefix_from_facts(entries, applied, snapshot, baseline, from + 1);
    }
}

fn is_fresh_receipt(applied: &Vec<RichApplied>, id: &EntityId, n: usize) -> (r: bool)
    requires
        n <= applied.len(),
    ensures
        r == fresh_receipt(applied@, id@, n as int),
{
    let mut j: usize = 0;
    while j < n
        invariant
            j <= n <= applied.len(),
            forall|m: int| 0 <= m < j ==> (#[trigger] applied@[m]).block_id@ != id@,
        decreases n - j,
    {
        if applied[j].block_id.same(id) {
            return false;
        }
        j += 1;
    }
    true
}

fn find_authored_parent(
    entries: &Vec<RichPlanEntry>,
    applied: &Vec<RichApplied>,
    root: &EntityId,
    k: usize,
) -> (r: Option<EntityId>)
    requires
        k < entries.len(),
        k <= applied.len(),
    ensures
        opt_view(r) == authored_parent(entries@, applied@, root@, k as int),
{
    match &entries[k].parent_key {
        None => Some(root.clone()),
        Some(parent) => match find_entry(entries, parent, k) {
            Some(j) => Some(applied[j].block_id.clone()),
            None => None,
        },
    }
}

fn find_last_below(
    entries: &Vec<RichPlanEntry>,
    applied: &Vec<RichApplied>,
    root: &EntityId,
    parent: &EntityId,
    n: usize,
) -> (r: Option<usize>)
    requires
        n <= entries.len(),
        n <= applied.len(),
    ensures
        match r {
            Some(j) => last_below(entries@, applied@, root@, parent@, n as int) == Some(j as int)
                && j < n,
            None => last_below(entries@, applied@, root@, parent@, n as int) is None,
        },
{
    let mut i: usize = n;
    while i > 0
        invariant
            i <= n <= entries.len(),
            n <= applied.len(),
            last_below(entries@, applied@, root@, parent@, n as int) == last_below(
                entries@,
                applied@,
                root@,
                parent@,
                i as int,
            ),
        decreases i,
    {
        i -= 1;
        if let Some(found) = find_authored_parent(entries, applied, root, i) {
            if found.same(parent) {
                return Some(i);
            }
        }
    }
    None
}

fn check_receipt(
    entries: &Vec<RichPlanEntry>,
    applied: &Vec<RichApplied>,
    projected: &ProjectedSnapshot,
    baseline: Option<u64>,
    k: usize,
) -> (r: bool)
    requires
        k < applied.len(),
        forall|j: int|
            0 <= j < k ==> #[trigger] receipt_holds(
                entries@,
                applied@,
                projected@,
                as_slot(baseline),
                j,
            ),
    ensures
        r == receipt_holds(
            entries@,
            applied@,
            projected@,
            as_slot(baseline),
            k as int,
        ),
{
    let ghost snapshot = projected@;
    let receipt: &RichApplied = &applied[k];
    if receipt.index as usize != k || k >= entries.len() {
        return false;
    }
    if !receipt.local_key.same(&entries[k].local_key) {
        return false;
    }
    if !is_fresh_receipt(applied, &receipt.block_id, k) {
        return false;
    }
    let i: usize = match find_block(&projected.items, &receipt.block_id) {
        Some(i) => i,
        None => {
            return false;
        },
    };
    let block: &BlockSummary = &projected.items[i];
    assert(snapshot.items[i as int] == block@);
    let parent: EntityId = match find_authored_parent(entries, applied, &projected.root_id, k) {
        Some(parent) => parent,
        None => {
            return false;
        },
    };
    let hangs: bool = match &block.parent_id {
        Some(found) => found.same(&parent),
        None => false,
    };
    if !hangs {
        return false;
    }
    let slot_ok: bool = match find_last_below(entries, applied, &projected.root_id, &parent, k) {
        Some(j) => {
            assert(receipt_holds(
                entries@,
                applied@,
                snapshot,
                as_slot(baseline),
                j as int,
            ));
            match find_block(&projected.items, &applied[j].block_id) {
                Some(p) => {
                    assert(snapshot.items[p as int] == projected.items@[p as int]@);
                    projected.items[p].sibling_index < u64::MAX && projected.items[p].sibling_index
                        + 1 == block.sibling_index
                },
                None => false,
            }
        },
        None => if entries[k].parent_key.is_some() {
            block.sibling_index == 0
        } else {
            match baseline {
                Some(first) => first == block.sibling_index,
                None => true,
            }
        },
    };
    slot_ok && block_shows_request(block, &entries[k].block)
}

/// Length of the longest prefix of receipts that still stand in a body.
pub fn verified_rich_prefix_len(
    input: &RichPageCreateInput,
    applied: &Vec<RichApplied>,
    projected: &ProjectedSnapshot,
    root_append_baseline: Option<u64>,
) -> (r: usize)
    ensures
        r == standing_prefix(
            input.blocks@,
            applied@,
            projected@,
            as_slot(root_append_baseline),
        ),
        r <= applied.len(),
{
    let ghost baseline = as_slot(root_append_baseline);
    let mut k: usize = 0;
    while k < applied.len()
        invariant
            k <= applied.len(),
            baseline == as_slot(root_append_baseline),
            standing_prefix(input.blocks@, applied@, projected@, baseline) == prefix_from(
                input.blocks@,
                applied@,
                projected@,
                baseline,
                k as int,
            ),
            forall|j: int|
                0 <= j < k ==> #[trigger] receipt_holds(
                    input.blocks@,
                    applied@,
                    projected@,
                    baseline,
                    j,
                ),
        decreases applied.len() - k,
    {
        if !check_receipt(&input.blocks, applied, projected, root_append_baseline, k) {
            return k;
        }
        k += 1;
    }
    k
}

/// Decides whether a remembered outcome may be given again: all its receipts
/// still stand, at the append position that was witnessed.
pub fn verify_rich_applied_replay(
    input: &RichPageCreateInput,
    applied: &Vec<RichApplied>,
    projected: &ProjectedSnapshot,
    root_append_index: Option<u64>,
) -> (r: bool)
    ensures
        r == ({
            &&& applied.len() <= input.blocks.len()
            &&& applied.len() > 0 ==> root_append_index is Some
            &&& standing_prefix(
                input.blocks@,
                applied@,
                projected@,
                as_slot(root_append_index),
            ) == applied.len()
        }),
{
    if applied.len() > input.blocks.len() {
        return false;
    }
    if applied.len() > 0 && root_append_index.is_none() {
        return false;
    }
    verified_rich_prefix_len(input, applied, projected, root_append_index) == applied.len()
}

} // verus!
