//! What the verification of a creation accepts, said of the blocks before and
//! after: exactly the requested block at exactly the requested place, and a table
//! with exactly its rows, columns and cells.

use crate::creation::{
    canonical_cell, canonical_regions, canonical_row, closed_member, closed_subtree,
    create_transition, created_as_requested, insertion_is_listed, insertion_point, kept_at,
    kept_by_create, shows_request, table_subtree, InsertionV,
};
use crate::input::NewBlockInput;
use crate::model::{ContentV, SnapshotV, SummaryV};
use crate::tree::{child_total, direct_children, find, find_facts, find_unique, unique_ids, walk};
use crate::tree_laws::{children_are_the_blocks_below, identifiers_are_unique};
use crate::verification_laws::content_after;
use crate::wire::{
    WireHorizontalAlign, WireInsertPosition, WireLayoutStyle, WireTextStyle, WireVerticalAlign,
};
use vstd::prelude::*;

verus! {

/// Place of an earlier block once `count` blocks have been inserted at `place`.
pub open spec fn moved_up(i: int, place: int, count: int) -> int {
    if i < place {
        i
    } else {
        i + count
    }
}

/// An earlier block after a block joined `parent` at `slot`: the parent has one
/// child more, a sibling at or behind the slot stands one slot later, and all else
/// is as it was. What a parent admits may be reported anew, and an opaque parent
/// may report another size.
pub open spec fn after_joining(a: SummaryV, b: SummaryV, parent: Seq<char>, slot: int) -> bool {
    &&& a.id == b.id
    &&& a.parent_id == b.parent_id
    &&& a.depth == b.depth
    &&& a.align == b.align
    &&& a.vertical_align == b.vertical_align
    &&& a.background_color == b.background_color
    &&& content_after(a, b, a.id == parent)
    &&& a.id != parent ==> a.restrictions == b.restrictions && b.child_count == a.child_count
    &&& a.id == parent ==> b.child_count == a.child_count + 1
    &&& a.parent_id == Some(parent) && slot <= a.sibling_index ==> b.sibling_index
        == a.sibling_index + 1
    &&& a.parent_id != Some(parent) || a.sibling_index < slot ==> b.sibling_index
        == a.sibling_index
}

/// A creation keeps exactly the earlier blocks that the joining leaves as they
/// are.
pub proof fn joining_moves_later_siblings_only(
    a: SummaryV,
    b: SummaryV,
    parent: Seq<char>,
    slot: int,
)
    ensures
        kept_by_create(a, b, parent, slot) <==> after_joining(a, b, parent, slot),
{
}

proof fn no_children_are_counted(items: Seq<SummaryV>, parent: Seq<char>, n: int)
    requires
        0 <= n <= items.len(),
        forall|i: int| 0 <= i < items.len() ==> (#[trigger] items[i]).parent_id != Some(parent),
    ensures
        child_total(items, parent, n) == 0,
    decreases n,
{
    if n > 0 {
        no_children_are_counted(items, parent, n - 1);
    }
}

proof fn leaf_is_closed(items: Seq<SummaryV>, place: int, parent: int)
    requires
        unique_ids(items),
        0 <= place < items.len(),
        0 <= parent < items.len(),
        items[place].child_count == 0,
        items[place].parent_id == Some(items[parent].id),
        items[place].depth == items[parent].depth + 1,
        forall|i: int|
            0 <= i < items.len() ==> (#[trigger] items[i]).parent_id != Some(items[place].id),
    ensures
        closed_subtree(items, place, 1),
{
    let id = items[place].id;
    find_unique(items, place);
    find_unique(items, parent);
    no_children_are_counted(items, id, items.len() as int);
    let kids = direct_children(items, id);
    assert(kids is Some);
    assert(kids->0 =~= Seq::<int>::empty());
    let stack = seq![place];
    assert(stack.last() == place);
    assert(stack.drop_last() + (kids->0).reverse() =~= Seq::<int>::empty());
    assert(walk(items, Seq::<int>::empty(), 0) == Some(Seq::<int>::empty()));
    assert(walk(items, stack, 1) == Some(seq![place] + Seq::<int>::empty()));
    assert(seq![place] + Seq::<int>::empty() =~= Seq::new(1, |k: int| place + k));
    assert forall|i: int| place <= i < place + 1 implies #[trigger] closed_member(
        items,
        place,
        1,
        i,
    ) by {
        assert(i == place);
    }
}

/// The creation of a block other than a table is accepted exactly where the body
/// afterwards is the body before with one childless block inserted at the
/// insertion point, which shows the request and hangs at the slot asked for. The
/// new identifier is one that no block hangs below yet.
pub proof fn creation_is_accepted_where_one_block_joined(
    before: SnapshotV,
    after: SnapshotV,
    created_id: Seq<char>,
    target: Seq<char>,
    position: WireInsertPosition,
    input: NewBlockInput,
    point: InsertionV,
)
    requires
        !(input is Table),
        unique_ids(before.items),
        insertion_point(before.items, target, position) == Some(point),
        forall|i: int|
            0 <= i < before.items.len() ==> (#[trigger] before.items[i]).parent_id != Some(
                created_id,
            ),
    ensures
        create_transition(before, after, created_id, target, position, input) <==> {
            let place = point.dfs_index;
            let parent = before.items[point.parent];
            &&& before.space_id == after.space_id
            &&& before.object_id == after.object_id
            &&& before.root_id == after.root_id
            &&& after.items.len() == before.items.len() + 1
            &&& forall|i: int|
                0 <= i < before.items.len() ==> after_joining(
                    #[trigger] before.items[i],
                    after.items[moved_up(i, place, 1)],
                    parent.id,
                    point.sibling_index,
                )
            &&& forall|i: int|
                0 <= i < before.items.len() ==> (#[trigger] before.items[i]).id != created_id
            &&& after.items[place].id == created_id
            &&& after.items[place].parent_id == Some(parent.id)
            &&& after.items[place].sibling_index == point.sibling_index
            &&& after.items[place].depth == parent.depth + 1
            &&& after.items[place].child_count == 0
            &&& shows_request(after.items[place], input)
        },
{
    let b = before.items;
    let a = after.items;
    let place = point.dfs_index;
    let parent = b[point.parent];
    let slot = point.sibling_index;
    insertion_is_listed(b, target, position);
    let joined = before.space_id == after.space_id && before.object_id == after.object_id
        && before.root_id == after.root_id && a.len() == b.len() + 1 && (forall|i: int|
        0 <= i < b.len() ==> after_joining(
            #[trigger] b[i],
            a[moved_up(i, place, 1)],
            parent.id,
            slot,
        )) && (forall|i: int| 0 <= i < b.len() ==> (#[trigger] b[i]).id != created_id)
        && a[place].id == created_id && a[place].parent_id == Some(parent.id)
        && a[place].sibling_index == slot && a[place].depth == parent.depth + 1
        && a[place].child_count == 0 && shows_request(a[place], input);
    if create_transition(before, after, created_id, target, position, input) {
        let count = a.len() - b.len();
        assert(count == 1);
        identifiers_are_unique(a);
        assert forall|i: int| 0 <= i < b.len() implies after_joining(
            #[trigger] b[i],
            a[moved_up(i, place, 1)],
            parent.id,
            slot,
        ) && b[i].id != created_id by {
            assert(kept_at(b, a, point, count, i));
            let j = moved_up(i, place, 1);
            if j < place {
                assert(a[j].id != a[place].id);
            } else {
                assert(a[place].id != a[j].id);
            }
        }
        assert(joined);
    }
    if joined {
        assert forall|i: int| 0 <= i < b.len() implies #[trigger] kept_at(b, a, point, 1, i) by {
            assert(after_joining(b[i], a[moved_up(i, place, 1)], parent.id, slot));
        }
        assert forall|j: int| 0 <= j < a.len() && j != place implies (#[trigger] a[j]).id != created_id
            && a[j].parent_id != Some(created_id) && (exists|i: int|
            0 <= i < b.len() && j == moved_up(i, place, 1) && #[trigger] b[i].id == a[j].id) by {
            let i = if j < place {
                j
            } else {
                j - 1
            };
            assert(after_joining(b[i], a[moved_up(i, place, 1)], parent.id, slot));
            assert(b[i].id == a[j].id);
        }
        identifiers_are_unique(b);
        identifiers_are_unique(a);
        assert forall|x: int, y: int| 0 <= x < y < a.len() implies (#[trigger] a[x]).id != (
        #[trigger] a[y]).id by {
            if x != place && y != place {
                let i = if x < place {
                    x
                } else {
                    x - 1
                };
                let k = if y < place {
                    y
                } else {
                    y - 1
                };
                assert(after_joining(b[i], a[moved_up(i, place, 1)], parent.id, slot));
                assert(after_joining(b[k], a[moved_up(k, place, 1)], parent.id, slot));
                assert(b[i].id != b[k].id);
            }
        }
        let above = moved_up(point.parent, place, 1);
        assert(after_joining(b[point.parent], a[above], parent.id, slot));
        assert(b[point.parent].id != created_id);
        leaf_is_closed(a, place, above);
        assert(created_as_requested(a[place], created_id, parent, slot, input));
        assert(create_transition(before, after, created_id, target, position, input));
    }
}

/// Where there is no insertion point, or the identifiers of the body are not
/// unique, no creation is accepted.
pub proof fn creation_needs_a_place(
    before: SnapshotV,
    after: SnapshotV,
    created_id: Seq<char>,
    target: Seq<char>,
    position: WireInsertPosition,
    input: NewBlockInput,
)
    requires
        insertion_point(before.items, target, position) is None || !unique_ids(before.items)
            || !unique_ids(after.items),
    ensures
        !create_transition(before, after, created_id, target, position, input),
{
}

// ---------------------------------------------------------------------------
// New subtrees
// ---------------------------------------------------------------------------

/// Block `i` hangs one level below one of the blocks from `start` on.
pub open spec fn hangs_inside(items: Seq<SummaryV>, start: int, count: int, i: int) -> bool {
    exists|p: int|
        start <= p < start + count && items[i].parent_id == Some((#[trigger] items[p]).id)
            && items[i].depth == items[p].depth + 1
}

/// A new subtree hangs together: every new block but the first hangs below
/// another new block, one level deeper, and below a new block nothing else hangs.
pub proof fn new_subtree_hangs_together(
    items: Seq<SummaryV>,
    start: int,
    count: int,
    i: int,
    c: int,
)
    requires
        closed_subtree(items, start, count),
        start <= i < start + count,
        0 <= c < items.len(),
    ensures
        i != start ==> hangs_inside(items, start, count, i),
        items[c].parent_id == Some(items[i].id) ==> start <= c < start + count,
{
    assert(closed_member(items, start, count, i));
    find_facts(items, items[i].parent_id->0);
    let p = find(items, items[i].parent_id->0)->0;
    assert(items[p].id == items[i].parent_id->0);
    if items[c].parent_id == Some(items[i].id) {
        child_is_new(items, start, count, i, c);
    }
}

proof fn child_is_new(items: Seq<SummaryV>, start: int, count: int, i: int, c: int)
    requires
        closed_subtree(items, start, count),
        start <= i < start + count,
        0 <= c < items.len(),
        items[c].parent_id == Some(items[i].id),
    ensures
        start <= c < start + count,
{
    let order = walk(items, seq![start], count as nat)->0;
    assert(order == Seq::new(count as nat, |k: int| start + k));
    walk_reaches_children(items, seq![start], count as nat);
    assert(order[i - start] == i);
    children_are_the_blocks_below(items, items[i].id);
    let kids = direct_children(items, items[i].id)->0;
    assert(kids.contains(c));
    let k = choose|k: int| 0 <= k < kids.len() && kids[k] == c;
    assert(order.contains(kids[k]));
}

proof fn walk_reaches_children(items: Seq<SummaryV>, stack: Seq<int>, fuel: nat)
    requires
        walk(items, stack, fuel) is Some,
    ensures
        ({
            let found = walk(items, stack, fuel)->0;
            &&& forall|k: int| 0 <= k < stack.len() ==> found.contains(#[trigger] stack[k])
            &&& forall|k: int|
                0 <= k < found.len() ==> (direct_children(
                    items,
                    items[#[trigger] found[k]].id,
                ) matches Some(kids) && forall|c: int|
                    0 <= c < kids.len() ==> found.contains(#[trigger] kids[c]))
        }),
    decreases fuel,
{
    let found = walk(items, stack, fuel)->0;
    if stack.len() > 0 {
        let kids = direct_children(items, items[stack.last()].id)->0;
        let next = stack.drop_last() + kids.reverse();
        let rest = walk(items, next, (fuel - 1) as nat)->0;
        walk_reaches_children(items, next, (fuel - 1) as nat);
        assert(found == seq![stack.last()] + rest);
        assert(found[0] == stack.last());
        assert forall|x: int| rest.contains(x) implies found.contains(x) by {
            let k = choose|k: int| 0 <= k < rest.len() && rest[k] == x;
            assert(found[k + 1] == x);
        }
        assert forall|k: int| 0 <= k < stack.len() implies found.contains(#[trigger] stack[k]) by {
            if k < stack.len() - 1 {
                assert(next[k] == stack[k]);
            }
        }
        assert forall|c: int| 0 <= c < kids.len() implies found.contains(#[trigger] kids[c]) by {
            assert(next[stack.len() - 1 + (kids.len() - 1 - c)] == kids[c]);
        }
        assert forall|k: int| 0 <= k < found.len() implies (direct_children(
            items,
            items[#[trigger] found[k]].id,
        ) matches Some(below) && forall|c: int|
            0 <= c < below.len() ==> found.contains(#[trigger] below[c])) by {
            if k > 0 {
                assert(rest[k - 1] == found[k]);
            }
        }
    }
}

// ---------------------------------------------------------------------------
// Tables
// ---------------------------------------------------------------------------

/// A cell that holds nothing yet.
pub open spec fn empty_cell(cell: SummaryV) -> bool {
    &&& cell.child_count == 0
    &&& cell.align == WireHorizontalAlign::Left
    &&& cell.vertical_align == WireVerticalAlign::Top
    &&& cell.background_color is None
    &&& cell.content matches ContentV::Text { text, style, checked, color, icon, marks }
        && text.len() == 0 && style == WireTextStyle::Paragraph && !checked && color is None
        && icon is None && marks.len() == 0
}

/// A created table is accepted exactly where it has a region of `columns` childless
/// columns before a region of `rows` rows, where the first row is a header exactly
/// if one was asked for and no other row is one, and where each row has one empty
/// cell for each column. The table, both regions, the columns, the rows and the
/// cells are all that was created.
pub proof fn table_is_accepted_with_all_its_cells(
    items: Seq<SummaryV>,
    created: int,
    rows: int,
    columns: int,
    header_row: bool,
    count: int,
    regions: Seq<int>,
    columns_found: Seq<int>,
    rows_found: Seq<int>,
    cells: Seq<Seq<int>>,
)
    requires
        0 <= rows,
        0 <= columns,
        direct_children(items, items[created].id) == Some(regions),
        regions.len() == 2,
        direct_children(items, items[regions[0]].id) == Some(columns_found),
        direct_children(items, items[regions[1]].id) == Some(rows_found),
        cells.len() == rows_found.len(),
        forall|r: int|
            0 <= r < rows_found.len() ==> direct_children(
                items,
                items[#[trigger] rows_found[r]].id,
            ) == Some(cells[r]),
    ensures
        table_subtree(items, created, rows, columns, header_row, count) <==> {
            &&& count == 1 + (1 + columns) + (1 + rows) + rows * columns
            &&& items[created].content is Table
            &&& items[regions[0]].content matches ContentV::Layout { style } && style
                == WireLayoutStyle::TableColumns
            &&& items[regions[1]].content matches ContentV::Layout { style } && style
                == WireLayoutStyle::TableRows
            &&& columns_found.len() == columns
            &&& forall|k: int|
                0 <= k < columns ==> items[#[trigger] columns_found[k]].content is TableColumn
                    && items[columns_found[k]].child_count == 0
            &&& rows_found.len() == rows
            &&& forall|r: int|
                0 <= r < rows ==> (items[#[trigger] rows_found[r]].content matches
                    ContentV::TableRow { is_header } && (is_header <==> header_row && r == 0))
                    && cells[r].len() == columns
            &&& forall|r: int, k: int|
                0 <= r < rows && 0 <= k < columns ==> empty_cell(items[#[trigger] cells[r][k]])
        },
{
    assert forall|cell: SummaryV| #[trigger] canonical_cell(cell) <==> empty_cell(cell) by {
        if empty_cell(cell) {
            let text = cell.content->Text_text;
            let marks = cell.content->Text_marks;
            assert(text =~= Seq::<char>::empty());
            assert(marks =~= Seq::empty());
        }
    }
    if table_subtree(items, created, rows, columns, header_row, count) {
        assert forall|r: int, k: int| 0 <= r < rows && 0 <= k < columns implies empty_cell(
            items[#[trigger] cells[r][k]],
        ) by {
            assert(canonical_row(items, rows_found[r], columns, header_row && r == 0));
            assert(canonical_cell(items[cells[r][k]]));
        }
        assert forall|r: int| 0 <= r < rows implies (items[#[trigger] rows_found[r]].content matches
            ContentV::TableRow { is_header } && (is_header <==> header_row && r == 0))
            && cells[r].len() == columns by {
            assert(canonical_row(items, rows_found[r], columns, header_row && r == 0));
        }
    } else if count == 1 + (1 + columns) + (1 + rows) + rows * columns && items[created].content is Table
        && columns_found.len() == columns && rows_found.len() == rows && (forall|r: int|
        0 <= r < rows ==> (items[#[trigger] rows_found[r]].content matches ContentV::TableRow {
            is_header,
        } && (is_header <==> header_row && r == 0)) && cells[r].len() == columns) && (forall|
        r: int,
        k: int,
    |
        0 <= r < rows && 0 <= k < columns ==> empty_cell(items[#[trigger] cells[r][k]])) {
        assert forall|r: int| 0 <= r < rows_found.len() implies canonical_row(
            items,
            #[trigger] rows_found[r],
            columns,
            header_row && r == 0,
        ) by {
            assert(items[rows_found[r]].content is TableRow && cells[r].len() == columns);
            assert forall|k: int| 0 <= k < cells[r].len() implies canonical_cell(
                items[#[trigger] cells[r][k]],
            ) by {
                assert(0 <= r < rows && 0 <= k < columns);
                assert(empty_cell(items[cells[r][k]]));
            }
        }
    }
}

/// A created table that is accepted has two regions, and every row of it has
/// cells.
pub proof fn accepted_table_has_regions_and_rows(
    items: Seq<SummaryV>,
    created: int,
    rows: int,
    columns: int,
    header_row: bool,
    count: int,
)
    requires
        table_subtree(items, created, rows, columns, header_row, count),
    ensures
        direct_children(items, items[created].id) matches Some(regions) && regions.len() == 2 && {
            &&& direct_children(items, items[regions[0]].id) is Some
            &&& direct_children(items, items[regions[1]].id) matches Some(found) && forall|r: int|
                0 <= r < found.len() ==> direct_children(
                    items,
                    items[#[trigger] found[r]].id,
                ) is Some
        },
{
    let regions = direct_children(items, items[created].id)->0;
    let found = direct_children(items, items[regions[1]].id)->0;
    assert(canonical_regions(items, regions[0], regions[1], rows, columns, header_row));
    assert forall|r: int| 0 <= r < found.len() implies direct_children(
        items,
        items[#[trigger] found[r]].id,
    ) is Some by {
        assert(canonical_row(items, found[r], columns, header_row && r == 0));
    }
}

/// The creation of a table is accepted exactly where a table with all its cells,
/// in one closed subtree, is what stands at the insertion point, and every earlier
/// block is kept but for the joining.
pub proof fn table_creation_is_accepted_where_a_table_joined(
    before: SnapshotV,
    after: SnapshotV,
    created_id: Seq<char>,
    target: Seq<char>,
    position: WireInsertPosition,
    rows: u8,
    columns: u8,
    header_row: bool,
    point: InsertionV,
)
    requires
        insertion_point(before.items, target, position) == Some(point),
        unique_ids(before.items),
        unique_ids(after.items),
    ensures
        create_transition(
            before,
            after,
            created_id,
            target,
            position,
            NewBlockInput::Table { rows, columns, header_row },
        ) <==> {
            let place = point.dfs_index;
            let parent = before.items[point.parent];
            let count = after.items.len() - before.items.len();
            &&& before.space_id == after.space_id
            &&& before.object_id == after.object_id
            &&& before.root_id == after.root_id
            &&& count > 0
            &&& forall|i: int|
                0 <= i < before.items.len() ==> after_joining(
                    #[trigger] before.items[i],
                    after.items[moved_up(i, place, count)],
                    parent.id,
                    point.sibling_index,
                )
            &&& after.items[place].id == created_id
            &&& after.items[place].parent_id == Some(parent.id)
            &&& after.items[place].sibling_index == point.sibling_index
            &&& after.items[place].depth == parent.depth + 1
            &&& shows_request(
                after.items[place],
                NewBlockInput::Table { rows, columns, header_row },
            )
            &&& closed_subtree(after.items, place, count)
            &&& table_subtree(
                after.items,
                place,
                rows as int,
                columns as int,
                header_row,
                count,
            )
        },
{
    let b = before.items;
    let a = after.items;
    let place = point.dfs_index;
    let parent = b[point.parent];
    let count = a.len() - b.len();
    let input = NewBlockInput::Table { rows, columns, header_row };
    if create_transition(before, after, created_id, target, position, input) {
        assert forall|i: int| 0 <= i < b.len() implies after_joining(
            #[trigger] b[i],
            a[moved_up(i, place, count)],
            parent.id,
            point.sibling_index,
        ) by {
            assert(kept_at(b, a, point, count, i));
        }
    }
    if forall|i: int|
        0 <= i < b.len() ==> after_joining(
            #[trigger] b[i],
            a[moved_up(i, place, count)],
            parent.id,
            point.sibling_index,
        ) {
        assert forall|i: int| 0 <= i < b.len() implies #[trigger] kept_at(b, a, point, count, i) by {
            assert(after_joining(
                b[i],
                a[moved_up(i, place, count)],
                parent.id,
                point.sibling_index,
            ));
        }
    }
}

} // verus!
