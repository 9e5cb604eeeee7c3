//! Exact verification of a block creation: where the new block has to stand,
//! what it has to hold, and that nothing else moved.

use crate::change::{created_content, intended_content};
use crate::domain::EntityId;
use crate::input::{
    presentation_background, presentation_horizontal, presentation_vertical, requested_background,
    requested_horizontal, requested_vertical, NewBlockInput,
};
use crate::model::{BlockProjection, BlockSummary, ContentV, ProjectedSnapshot, SnapshotV, SummaryV};
use crate::text::{opt_view, same_opt, views, Same};
use crate::transition::{
    content_kept, in_same_scope, presentation_kept, projected_opaque_refresh_content_matches,
    projected_presentation_matches, same_scope,
};
use crate::tree::{
    direct_children, find, find_block, find_facts, has_unique_ids, positions,
    projected_direct_children, unique_ids, walk, walk_subtree,
};
use crate::wire::{
    WireHorizontalAlign, WireInsertPosition, WireLayoutStyle, WireTextStyle, WireVerticalAlign,
};
use vstd::prelude::*;

verus! {

/// First position at or after `from` that is no deeper than `depth`, or the end.
pub open spec fn end_from(items: Seq<SummaryV>, depth: int, from: int) -> int
    decreases items.len() - from,
{
    if from >= items.len() {
        items.len() as int
    } else if items[from].depth <= depth {
        from
    } else {
        end_from(items, depth, from + 1)
    }
}

/// End of the subtree of block `root` in a depth-first list.
pub open spec fn subtree_end(items: Seq<SummaryV>, root: int) -> int {
    end_from(items, items[root].depth, root + 1)
}

/// Position just after the subtree of a block.
pub fn projected_subtree_end(items: &Vec<BlockSummary>, root_index: usize) -> (r: usize)
    requires
        root_index < items.len(),
    ensures
        r == subtree_end(views(items@), root_index as int),
        root_index < r <= items.len(),
{
    let ghost list = views(items@);
    let depth: u64 = items[root_index].depth;
    assert(list[root_index as int].depth == depth);
    let mut i: usize = root_index + 1;
    while i < items.len()
        invariant
            root_index < i <= items.len(),
            list == views(items@),
            subtree_end(list, root_index as int) == end_from(list, depth as int, i as int),
        decreases items.len() - i,
    {
        assert(list[i as int].depth == items@[i as int].depth);
        if items[i].depth <= depth {
            return i;
        }
        i += 1;
    }
    i
}

/// Where a new block goes: its parent, its slot among the parent's children and
/// its position in the depth-first list.
pub struct InsertionV {
    pub parent: int,
    pub sibling_index: int,
    pub dfs_index: int,
}

/// Insertion point relative to a target; nothing where the target or the parent
/// is not listed, or the slot has no number.
pub open spec fn insertion_point(
    items: Seq<SummaryV>,
    target: Seq<char>,
    position: WireInsertPosition,
) -> Option<InsertionV> {
    match find(items, target) {
        None => None,
        Some(t) => {
            let (parent_id, slot, place) = match position {
                WireInsertPosition::Before => (items[t].parent_id, items[t].sibling_index, t),
                WireInsertPosition::After => (
                    items[t].parent_id,
                    items[t].sibling_index + 1,
                    subtree_end(items, t),
                ),
                WireInsertPosition::FirstChild => (Some(target), 0int, t + 1),
                WireInsertPosition::LastChild => (
                    Some(target),
                    items[t].child_count,
                    subtree_end(items, t),
                ),
            };
            match parent_id {
                None => None,
                Some(parent) => match find(items, parent) {
                    Some(p) => if slot <= u64::MAX {
                        Some(InsertionV { parent: p, sibling_index: slot, dfs_index: place })
                    } else {
                        None
                    },
                    None => None,
                },
            }
        },
    }
}

proof fn end_from_bounds(items: Seq<SummaryV>, depth: int, from: int)
    requires
        0 <= from <= items.len(),
    ensures
        from <= end_from(items, depth, from) <= items.len(),
    decreases items.len() - from,
{
    if from < items.len() && items[from].depth > depth {
        end_from_bounds(items, depth, from + 1);
    }
}

/// An insertion point names a listed parent and a place in the list or at its
/// end.
pub proof fn insertion_is_listed(
    items: Seq<SummaryV>,
    target: Seq<char>,
    position: WireInsertPosition,
)
    ensures
        insertion_point(items, target, position) matches Some(point) ==> 0 <= point.parent
            < items.len() && 0 <= point.dfs_index <= items.len(),
{
    find_facts(items, target);
    if let Some(t) = find(items, target) {
        end_from_bounds(items, items[t].depth, t + 1);
        if let Some(parent) = items[t].parent_id {
            find_facts(items, parent);
        }
    }
}

/// Insertion point of a new block.
#[derive(Clone, Copy, Debug, PartialEq, Eq, Structural)]
pub struct CreateInsertion {
    pub parent: usize,
    pub sibling_index: u64,
    pub dfs_index: usize,
}

impl View for CreateInsertion {
    type V = InsertionV;

    open spec fn view(&self) -> InsertionV {
        InsertionV {
            parent: self.parent as int,
            sibling_index: self.sibling_index as int,
            dfs_index: self.dfs_index as int,
        }
    }
}

/// Finds the insertion point of a new block.
pub fn create_insertion(
    items: &Vec<BlockSummary>,
    target_id: &EntityId,
    position: WireInsertPosition,
) -> (r: Option<CreateInsertion>)
    ensures
        match r {
            Some(found) => insertion_point(views(items@), target_id@, position) == Some(found@)
                && found.parent < items.len() && found.dfs_index <= items.len(),
            None => insertion_point(views(items@), target_id@, position) is None,
        },
{
    let ghost list = views(items@);
    let t: usize = match find_block(items, target_id) {
        Some(t) => t,
        None => {
            return None;
        },
    };
    let target: &BlockSummary = &items[t];
    assert(list[t as int] == target@);
    proof {
        find_facts(list, target_id@);
    }
    let slot: u64;
    let place: usize;
    let parent_id: &EntityId;
    match position {
        WireInsertPosition::Before => {
            parent_id =
            match &target.parent_id {
                Some(parent) => parent,
                None => {
                    return None;
                },
            };
            slot = target.sibling_index;
            place = t;
        },
        WireInsertPosition::After => {
            parent_id =
            match &target.parent_id {
                Some(parent) => parent,
                None => {
                    return None;
                },
            };
            if target.sibling_index == u64::MAX {
                return None;
            }
            slot = target.sibling_index + 1;
            place = projected_subtree_end(items, t);
        },
        WireInsertPosition::FirstChild => {
            parent_id = &target.id;
            slot = 0;
            place = t + 1;
        },
        WireInsertPosition::LastChild => {
            parent_id = &target.id;
            slot = target.child_count;
            place = projected_subtree_end(items, t);
        },
    }
    match find_block(items, parent_id) {
        Some(parent) => Some(CreateInsertion { parent, sibling_index: slot, dfs_index: place }),
        None => None,
    }
}

/// The blocks from `start` on, `count` of them, form one closed subtree: each
/// hangs one level below a listed parent, which is new itself except for the
/// first one's, and they are listed as a depth-first walk visits them.
pub open spec fn closed_subtree(items: Seq<SummaryV>, start: int, count: int) -> bool {
    &&& forall|i: int| start <= i < start + count ==> #[trigger] closed_member(items, start, count, i)
    &&& walk(items, seq![start], count as nat) == Some(Seq::new(count as nat, |k: int| start + k))
}

/// Block `i` hangs one level below its parent, inside the new blocks unless it
/// is the first, and has consistent children.
pub open spec fn closed_member(items: Seq<SummaryV>, start: int, count: int, i: int) -> bool {
    &&& match items[i].parent_id {
        Some(parent) => match find(items, parent) {
            Some(p) => {
                &&& items[p].depth + 1 == items[i].depth
                &&& i == start || start <= p < start + count
            },
            None => false,
        },
        None => false,
    }
    &&& direct_children(items, items[i].id) is Some
}

fn member_is_closed(items: &Vec<BlockSummary>, start: usize, count: usize, i: usize) -> (r: bool)
    requires
        i < items.len(),
        start + count <= items.len(),
    ensures
        r == closed_member(views(items@), start as int, count as int, i as int),
{
    let ghost list = views(items@);
    assert(list[i as int] == items@[i as int]@);
    let p: usize = match &items[i].parent_id {
        Some(parent) => match find_block(items, parent) {
            Some(p) => p,
            None => {
                return false;
            },
        },
        None => {
            return false;
        },
    };
    assert(list[p as int] == items@[p as int]@);
    if items[p].depth == u64::MAX || items[p].depth + 1 != items[i].depth {
        return false;
    }
    if i != start && (p < start || p >= start + count) {
        return false;
    }
    projected_direct_children(items, &items[i].id).is_some()
}

/// Tests that the new blocks form one closed subtree.
pub fn projected_created_subtree_is_closed(
    items: &Vec<BlockSummary>,
    start: usize,
    count: usize,
) -> (r: bool)
    requires
        0 < count,
        start + count <= items.len(),
    ensures
        r == closed_subtree(views(items@), start as int, count as int),
{
    let ghost list = views(items@);
    let mut i: usize = start;
    while i < start + count
        invariant
            start <= i <= start + count,
            start + count <= items.len(),
            list == views(items@),
            forall|k: int|
                start <= k < i ==> #[trigger] closed_member(list, start as int, count as int, k),
        decreases start + count - i,
    {
        if !member_is_closed(items, start, count, i) {
            assert(!closed_member(list, start as int, count as int, i as int));
            return false;
        }
        i += 1;
    }
    let ghost expected = Seq::new(count as nat, |k: int| start + k);
    let order: Vec<usize> = match walk_subtree(items, start, count) {
        Some(order) => order,
        None => {
            return false;
        },
    };
    if order.len() != count {
        assert(positions(order@).len() != expected.len());
        return false;
    }
    let mut k: usize = 0;
    while k < count
        invariant
            k <= count,
            order.len() == count,
            start + count <= items.len(),
            expected == Seq::new(count as nat, |k: int| start + k),
            forall|m: int| 0 <= m < k ==> (#[trigger] order@[m]) == start + m,
            list == views(items@),
            walk(list, seq![start as int], count as nat) == Some(positions(order@)),
        decreases count - k,
    {
        if order[k] != start + k {
            assert(positions(order@)[k as int] != expected[k as int]);
            return false;
        }
        k += 1;
    }
    assert(positions(order@) =~= expected);
    true
}

/// A table cell as it is created: an empty left-aligned paragraph without
/// children.
pub open spec fn canonical_cell(cell: SummaryV) -> bool {
    &&& cell.child_count == 0
    &&& cell.align == WireHorizontalAlign::Left
    &&& cell.vertical_align == WireVerticalAlign::Top
    &&& cell.background_color is None
    &&& cell.content == ContentV::Text {
        text: Seq::empty(),
        style: WireTextStyle::Paragraph,
        checked: false,
        color: None,
        icon: None,
        marks: Seq::empty(),
    }
}

/// A table row with `columns` canonical cells.
pub open spec fn canonical_row(
    items: Seq<SummaryV>,
    row: int,
    columns: int,
    is_header: bool,
) -> bool {
    &&& items[row].content == ContentV::TableRow { is_header }
    &&& direct_children(items, items[row].id) matches Some(cells) && cells.len() == columns
        && forall|k: int| 0 <= k < cells.len() ==> canonical_cell(items[#[trigger] cells[k]])
}

/// The regions of a table: a column region with `columns` childless columns and
/// a row region with `rows` rows, of which only the first may be a header.
pub open spec fn canonical_regions(
    items: Seq<SummaryV>,
    columns_region: int,
    rows_region: int,
    rows: int,
    columns: int,
    header_row: bool,
) -> bool {
    &&& items[columns_region].content == ContentV::Layout { style: WireLayoutStyle::TableColumns }
    &&& items[rows_region].content == ContentV::Layout { style: WireLayoutStyle::TableRows }
    &&& direct_children(items, items[columns_region].id) matches Some(found) && found.len()
        == columns && forall|k: int|
        0 <= k < found.len() ==> items[#[trigger] found[k]].content == ContentV::TableColumn
            && items[found[k]].child_count == 0
    &&& direct_children(items, items[rows_region].id) matches Some(found) && found.len() == rows
        && forall|k: int|
        0 <= k < found.len() ==> canonical_row(
            items,
            #[trigger] found[k],
            columns,
            header_row && k == 0,
        )
}

/// The created block is a table of `rows` times `columns` empty cells, and
/// nothing else was created.
pub open spec fn table_subtree(
    items: Seq<SummaryV>,
    created: int,
    rows: int,
    columns: int,
    header_row: bool,
    count: int,
) -> bool {
    &&& count == rows * columns + rows + columns + 3
    &&& items[created].content == ContentV::Table
    &&& direct_children(items, items[created].id) matches Some(regions) && regions.len() == 2
        && canonical_regions(items, regions[0], regions[1], rows, columns, header_row)
}

fn is_canonical_cell(cell: &BlockSummary) -> (r: bool)
    ensures
        r == canonical_cell(cell@),
{
    let plain: bool = match &cell.content {
        BlockProjection::Text { text, style, checked, color, icon, marks } => {
            let empty_text: bool = text.as_str().is_empty();
            proof {
                if text@.len() == 0 {
                    assert(text@ =~= Seq::<char>::empty());
                }
                if marks@.len() == 0 {
                    assert(views(marks@) =~= Seq::empty());
                } else {
                    assert(views(marks@).len() != 0);
                }
            }
            empty_text && *style == WireTextStyle::Paragraph && !*checked && color.is_none()
                && icon.is_none() && marks.len() == 0
        },
        _ => false,
    };
    cell.child_count == 0 && cell.align == WireHorizontalAlign::Left && cell.vertical_align
        == WireVerticalAlign::Top && cell.background_color.is_none() && plain
}

fn is_layout(block: &BlockSummary, wanted: WireLayoutStyle) -> (r: bool)
    ensures
        r == (block@.content == ContentV::Layout { style: wanted }),
{
    match &block.content {
        BlockProjection::Layout { style } => *style == wanted,
        _ => false,
    }
}

fn is_canonical_row(items: &Vec<BlockSummary>, row: usize, columns: usize, is_header: bool) -> (r:
    bool)
    requires
        row < items.len(),
    ensures
        r == canonical_row(views(items@), row as int, columns as int, is_header),
{
    let ghost list = views(items@);
    assert(list[row as int] == items@[row as int]@);
    let header_ok: bool = match &items[row].content {
        BlockProjection::TableRow { is_header: found } => *found == is_header,
        _ => false,
    };
    if !header_ok {
        return false;
    }
    let cells: Vec<usize> = match projected_direct_children(items, &items[row].id) {
        Some(cells) => cells,
        None => {
            return false;
        },
    };
    let ghost found = positions(cells@);
    assert(found.len() == cells.len());
    if cells.len() != columns {
        return false;
    }
    let mut k: usize = 0;
    while k < cells.len()
        invariant
            k <= cells.len(),
            list == views(items@),
            found == positions(cells@),
            direct_children(list, list[row as int].id) == Some(found),
            forall|m: int| 0 <= m < cells.len() ==> (#[trigger] cells@[m]) < items.len(),
            forall|m: int| 0 <= m < k ==> canonical_cell(list[#[trigger] found[m]]),
        decreases cells.len() - k,
    {
        assert(list[cells@[k as int] as int] == items@[cells@[k as int] as int]@);
        assert(found[k as int] == cells@[k as int]);
        if !is_canonical_cell(&items[cells[k]]) {
            assert(!canonical_cell(list[found[k as int]]));
            return false;
        }
        k += 1;
    }
    true
}

fn are_canonical_columns(items: &Vec<BlockSummary>, region: usize, columns: usize) -> (r: bool)
    requires
        region < items.len(),
    ensures
        r == (direct_children(views(items@), views(items@)[region as int].id) matches Some(found)
            && found.len() == columns && forall|k: int|
            0 <= k < found.len() ==> views(items@)[#[trigger] found[k]].content
                == ContentV::TableColumn && views(items@)[found[k]].child_count == 0),
{
    let ghost list = views(items@);
    assert(list[region as int] == items@[region as int]@);
    let kids: Vec<usize> = match projected_direct_children(items, &items[region].id) {
        Some(kids) => kids,
        None => {
            return false;
        },
    };
    let ghost found = positions(kids@);
    if kids.len() != columns {
        assert(found.len() != columns);
        return false;
    }
    let mut k: usize = 0;
    while k < kids.len()
        invariant
            k <= kids.len(),
            list == views(items@),
            found == positions(kids@),
            direct_children(list, list[region as int].id) == Some(found),
            forall|m: int| 0 <= m < kids.len() ==> (#[trigger] kids@[m]) < items.len(),
            forall|m: int|
                0 <= m < k ==> list[#[trigger] found[m]].content == ContentV::TableColumn
                    && list[found[m]].child_count == 0,
        decreases kids.len() - k,
    {
        let block: &BlockSummary = &items[kids[k]];
        assert(list[kids@[k as int] as int] == block@);
        assert(found[k as int] == kids@[k as int]);
        let is_column: bool = match &block.content {
            BlockProjection::TableColumn => true,
            _ => false,
        };
        if !is_column || block.child_count != 0 {
            return false;
        }
        k += 1;
    }
    true
}

fn are_canonical_rows(
    items: &Vec<BlockSummary>,
    region: usize,
    rows: usize,
    columns: usize,
    header_row: bool,
) -> (r: bool)
    requires
        region < items.len(),
    ensures
        r == (direct_children(views(items@), views(items@)[region as int].id) matches Some(found)
            && found.len() == rows && forall|k: int|
            0 <= k < found.len() ==> canonical_row(
                views(items@),
                #[trigger] found[k],
                columns as int,
                header_row && k == 0,
            )),
{
    let ghost list = views(items@);
    assert(list[region as int] == items@[region as int]@);
    let kids: Vec<usize> = match projected_direct_children(items, &items[region].id) {
        Some(kids) => kids,
        None => {
            return false;
        },
    };
    let ghost found = positions(kids@);
    if kids.len() != rows {
        assert(found.len() != rows);
        return false;
    }
    let mut k: usize = 0;
    while k < kids.len()
        invariant
            k <= kids.len(),
            list == views(items@),
            found == positions(kids@),
            direct_children(list, list[region as int].id) == Some(found),
            forall|m: int| 0 <= m < kids.len() ==> (#[trigger] kids@[m]) < items.len(),
            forall|m: int|
                0 <= m < k ==> canonical_row(
                    list,
                    #[trigger] found[m],
                    columns as int,
                    header_row && m == 0,
                ),
        decreases kids.len() - k,
    {
        assert(found[k as int] == kids@[k as int]);
        if !is_canonical_row(items, kids[k], columns, header_row && k == 0) {
            return false;
        }
        k += 1;
    }
    true
}

/// Tests that a created block is exactly the requested table.
pub fn projected_table_subtree_matches(
    items: &Vec<BlockSummary>,
    created: usize,
    rows: u8,
    columns: u8,
    header_row: bool,
    new_count: usize,
) -> (r: bool)
    requires
        created < items.len(),
    ensures
        r == table_subtree(
            views(items@),
            created as int,
            rows as int,
            columns as int,
            header_row,
            new_count as int,
        ),
{
    let ghost list = views(items@);
    assert(list[created as int] == items@[created as int]@);
    assert(0 <= rows * columns <= 255 * 255) by (nonlinear_arith)
        requires
            0 <= rows <= 255,
            0 <= columns <= 255,
    ;
    let rows_count: usize = rows as usize;
    let column_count: usize = columns as usize;
    let expected: usize = rows_count * column_count + rows_count + column_count + 3;
    if new_count != expected {
        return false;
    }
    let is_table: bool = match &items[created].content {
        BlockProjection::Table => true,
        _ => false,
    };
    if !is_table {
        return false;
    }
    let regions: Vec<usize> = match projected_direct_children(items, &items[created].id) {
        Some(regions) => regions,
        None => {
            return false;
        },
    };
    let ghost found = positions(regions@);
    assert(found.len() == regions.len());
    if regions.len() != 2 {
        return false;
    }
    let columns_region: usize = regions[0];
    let rows_region: usize = regions[1];
    assert(found[0] == columns_region && found[1] == rows_region);
    assert(list[columns_region as int] == items@[columns_region as int]@);
    assert(list[rows_region as int] == items@[rows_region as int]@);
    is_layout(&items[columns_region], WireLayoutStyle::TableColumns) && is_layout(
        &items[rows_region],
        WireLayoutStyle::TableRows,
    ) && are_canonical_columns(items, columns_region, column_count) && are_canonical_rows(
        items,
        rows_region,
        rows_count,
        column_count,
        header_row,
    )
}

/// The shape that a creation materializes: a table subtree for a table, a
/// single childless block otherwise.
pub open spec fn materialized_shape(
    items: Seq<SummaryV>,
    created: int,
    input: NewBlockInput,
    count: int,
) -> bool {
    match input {
        NewBlockInput::Table { rows, columns, header_row } => table_subtree(
            items,
            created,
            rows as int,
            columns as int,
            header_row,
            count,
        ),
        _ => count == 1 && items[created].child_count == 0,
    }
}

/// A block that shows what was requested: content and presentation.
pub open spec fn shows_request(block: SummaryV, input: NewBlockInput) -> bool {
    &&& block.content == created_content(input)
    &&& block.align == match requested_horizontal(input) {
        Some(align) => align,
        None => WireHorizontalAlign::Left,
    }
    &&& block.vertical_align == match requested_vertical(input) {
        Some(align) => align,
        None => WireVerticalAlign::Top,
    }
    &&& block.background_color == opt_view(requested_background(input))
}

/// The created block: its place, its content and its presentation.
pub open spec fn created_as_requested(
    created: SummaryV,
    created_id: Seq<char>,
    parent: SummaryV,
    slot: int,
    input: NewBlockInput,
) -> bool {
    &&& created.id == created_id
    &&& created.parent_id == Some(parent.id)
    &&& created.sibling_index == slot
    &&& created.depth == parent.depth + 1
    &&& shows_request(created, input)
}

/// A block that was there before the creation: only its parent gains a child,
/// and only later siblings of the new block move up a slot.
pub open spec fn kept_by_create(
    prior: SummaryV,
    current: SummaryV,
    parent: Seq<char>,
    slot: int,
) -> bool {
    &&& prior.id == current.id
    &&& content_kept(prior, current, prior.id == parent)
    &&& prior.id == parent || prior.restrictions == current.restrictions
    &&& presentation_kept(prior, current)
    &&& prior.parent_id == current.parent_id
    &&& prior.depth == current.depth
    &&& current.child_count == prior.child_count + if prior.id == parent {
        1int
    } else {
        0int
    }
    &&& current.sibling_index == prior.sibling_index + if prior.parent_id == Some(parent)
        && prior.sibling_index >= slot {
        1int
    } else {
        0int
    }
}

/// Block `i` of the earlier body stands at its shifted place and is kept.
pub open spec fn kept_at(
    before: Seq<SummaryV>,
    after: Seq<SummaryV>,
    point: InsertionV,
    count: int,
    i: int,
) -> bool {
    kept_by_create(
        before[i],
        after[if i < point.dfs_index {
            i
        } else {
            i + count
        }],
        before[point.parent].id,
        point.sibling_index,
    )
}

/// `after` is `before` with exactly the requested block created at exactly the
/// requested place.
pub open spec fn create_transition(
    before: SnapshotV,
    after: SnapshotV,
    created_id: Seq<char>,
    target: Seq<char>,
    position: WireInsertPosition,
    input: NewBlockInput,
) -> bool {
    let count = after.items.len() - before.items.len();
    &&& same_scope(before, after)
    &&& unique_ids(before.items)
    &&& unique_ids(after.items)
    &&& count > 0
    &&& insertion_point(before.items, target, position) matches Some(point) && {
        &&& forall|i: int|
            0 <= i < before.items.len() ==> #[trigger] kept_at(
                before.items,
                after.items,
                point,
                count,
                i,
            )
        &&& created_as_requested(
            after.items[point.dfs_index],
            created_id,
            before.items[point.parent],
            point.sibling_index,
            input,
        )
        &&& closed_subtree(after.items, point.dfs_index, count)
        &&& materialized_shape(after.items, point.dfs_index, input, count)
    }
}

/// Tests that a block shows what was requested.
pub fn block_shows_request(block: &BlockSummary, input: &NewBlockInput) -> (r: bool)
    ensures
        r == shows_request(block@, *input),
{
    let align: WireHorizontalAlign = match presentation_horizontal(input) {
        Some(align) => align,
        None => WireHorizontalAlign::Left,
    };
    let vertical: WireVerticalAlign = match presentation_vertical(input) {
        Some(align) => align,
        None => WireVerticalAlign::Top,
    };
    let background_ok: bool = match (presentation_background(input), &block.background_color) {
        (Some(wanted), Some(found)) => wanted.same(found),
        (None, None) => true,
        _ => false,
    };
    let content: BlockProjection = intended_content(input);
    block.content.same(&content) && block.align == align && block.vertical_align == vertical
        && background_ok
}

fn is_created_as_requested(
    created: &BlockSummary,
    created_id: &EntityId,
    parent: &BlockSummary,
    slot: u64,
    input: &NewBlockInput,
) -> (r: bool)
    ensures
        r == created_as_requested(created@, created_id@, parent@, slot as int, *input),
{
    let parent_ok: bool = match &created.parent_id {
        Some(found) => found.same(&parent.id),
        None => false,
    };
    let depth_ok: bool = parent.depth < u64::MAX && created.depth == parent.depth + 1;
    created.id.same(created_id) && parent_ok && created.sibling_index == slot && depth_ok
        && block_shows_request(created, input)
}

fn kept_under_create(
    prior: &BlockSummary,
    current: &BlockSummary,
    parent: &EntityId,
    slot: u64,
) -> (r: bool)
    ensures
        r == kept_by_create(prior@, current@, parent@, slot as int),
{
    let is_parent: bool = prior.id.same(parent);
    let is_sibling: bool = match &prior.parent_id {
        Some(found) => found.same(parent),
        None => false,
    };
    let children_ok: bool = if is_parent {
        prior.child_count < u64::MAX && current.child_count == prior.child_count + 1
    } else {
        current.child_count == prior.child_count
    };
    let sibling_ok: bool = if is_sibling && prior.sibling_index >= slot {
        prior.sibling_index < u64::MAX && current.sibling_index == prior.sibling_index + 1
    } else {
        current.sibling_index == prior.sibling_index
    };
    prior.id.same(&current.id) && projected_opaque_refresh_content_matches(
        prior,
        current,
        is_parent,
    ) && (is_parent || prior.restrictions == current.restrictions)
        && projected_presentation_matches(prior, current) && same_opt(
        &prior.parent_id,
        &current.parent_id,
    ) && prior.depth == current.depth && children_ok && sibling_ok
}

/// Decides whether `after` is `before` with exactly the requested block created
/// at exactly the requested place.
pub fn verify_create_transition(
    before: &ProjectedSnapshot,
    after: &ProjectedSnapshot,
    created_id: &EntityId,
    target_id: &EntityId,
    position: WireInsertPosition,
    input: &NewBlockInput,
) -> (r: bool)
    ensures
        r == create_transition(before@, after@, created_id@, target_id@, position, *input),
{
    let ghost b = before@;
    let ghost a = after@;
    if !in_same_scope(before, after) || !has_unique_ids(&before.items) || !has_unique_ids(
        &after.items,
    ) {
        return false;
    }
    if after.items.len() <= before.items.len() {
        return false;
    }
    let count: usize = after.items.len() - before.items.len();
    let insertion: CreateInsertion = match create_insertion(&before.items, target_id, position) {
        Some(insertion) => insertion,
        None => {
            return false;
        },
    };
    let ghost point = insertion@;
    let parent: &BlockSummary = &before.items[insertion.parent];
    assert(b.items[insertion.parent as int] == parent@);
    let mut i: usize = 0;
    while i < before.items.len()
        invariant
            i <= before.items.len(),
            b == before@,
            a == after@,
            count == after.items.len() - before.items.len(),
            count > 0,
            insertion.dfs_index <= before.items.len(),
            insertion.parent < before.items.len(),
            point == insertion@,
            parent@ == b.items[insertion.parent as int],
            insertion_point(b.items, target_id@, position) == Some(point),
            forall|k: int|
                0 <= k < i ==> #[trigger] kept_at(b.items, a.items, point, count as int, k),
        decreases before.items.len() - i,
    {
        let j: usize = if i < insertion.dfs_index {
            i
        } else {
            i + count
        };
        assert(b.items[i as int] == before.items@[i as int]@);
        assert(a.items[j as int] == after.items@[j as int]@);
        if !kept_under_create(
            &before.items[i],
            &after.items[j],
            &parent.id,
            insertion.sibling_index,
        ) {
            assert(!kept_at(b.items, a.items, point, count as int, i as int));
            return false;
        }
        assert(kept_at(b.items, a.items, point, count as int, i as int));
        i += 1;
    }
    let created: &BlockSummary = &after.items[insertion.dfs_index];
    assert(a.items[insertion.dfs_index as int] == created@);
    if !is_created_as_requested(created, created_id, parent, insertion.sibling_index, input) {
        return false;
    }
    if !projected_created_subtree_is_closed(&after.items, insertion.dfs_index, count) {
        return false;
    }
    match input {
        NewBlockInput::Table { rows, columns, header_row } => projected_table_subtree_matches(
            &after.items,
            insertion.dfs_index,
            *rows,
            *columns,
            *header_row,
            count,
        ),
        _ => count == 1 && created.child_count == 0,
    }
}

} // verus!
