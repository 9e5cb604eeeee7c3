//! What a shown body says of the fetched one: every block with its own fields below
//! the block that names it, and which bodies cannot be shown and why.

use crate::domain::{opaque_kind_language, valid_color, valid_entity_id, valid_relation_key};
use crate::error::ToolError;
use crate::marks::{icon_valid, mark_shown, valid_url};
use crate::model::ContentV;
use crate::outside::is_media_type;
use crate::projection::{
    block_error, content_error, depth_at, fanout, fanout_error, file_error, first_block_error,
    last_parent, last_slot, mark_total, parent_of, raw_find, raw_find_facts, recorded_depth,
    shown_blocks, snapshot_error, text_total, RawBlockV, RawV, JSON_SAFE_INTEGER_MAX,
    MAX_AGGREGATE_MARKS, MAX_AGGREGATE_TEXT_BYTES, MAX_BODY_BLOCKS, MAX_MIME_BYTES, MAX_RELATIONS,
    MAX_TABLE_CELLS,
};
use crate::text::byte_len;
use vstd::prelude::*;

verus! {

// ---------------------------------------------------------------------------
// Contents
// ---------------------------------------------------------------------------

/// Contents without a text, a reference or a number can always be shown, and
/// unrecognized contents never. A text can be shown with its marks, its color and
/// its icon in order.
pub proof fn shown_texts(content: ContentV)
    ensures
        content is Layout || content is Divider || content is FeaturedRelations || content is Embed
            || content is TableOfContents || content is Table || content is TableRow || content
            is TableColumn ==> content_error(content) is None,
        content is Unrecognized ==> content_error(content) == Some(ToolError::Upstream),
        content matches ContentV::Text { text, color, icon, marks, .. } ==> {
            let shown = (forall|i: int| 0 <= i < marks.len() ==> mark_shown(#[trigger] marks[i], text))
                && (color matches Some(color) ==> valid_color(color)) && (icon matches Some(icon)
                ==> icon_valid(icon));
            &&& content_error(content) is None <==> shown
            &&& content_error(content) == Some(ToolError::Upstream) <==> !shown
        },
{
}

/// A reference can be shown where it names what it refers to by a valid identifier,
/// key or address. A link shows at most the largest number of relations, each once.
pub proof fn shown_references(content: ContentV)
    ensures
        content matches ContentV::Bookmark { url, target, .. } ==> {
            let shown = valid_url(url) && (target matches Some(target)
                ==> valid_entity_id(target));
            &&& content_error(content) is None <==> shown
            &&& content_error(content) == Some(ToolError::Upstream) <==> !shown
        },
        content matches ContentV::Relation { key } ==> {
            &&& content_error(content) is None <==> valid_relation_key(key)
            &&& content_error(content) == Some(ToolError::Upstream) <==> !valid_relation_key(key)
        },
        content matches ContentV::Link { target, relations, .. } ==> {
            let sound = (forall|i: int|
                0 <= i < relations.len() ==> valid_relation_key(#[trigger] relations[i]))
                && forall|i: int, j: int|
                0 <= i < j < relations.len() ==> (#[trigger] relations[i]) != (
                #[trigger] relations[j]);
            &&& content_error(content) is None <==> valid_entity_id(target) && relations.len()
                <= MAX_RELATIONS && sound
            &&& content_error(content) == Some(ToolError::BoundedResult) <==> valid_entity_id(target)
                && relations.len() > MAX_RELATIONS
            &&& content_error(content) matches Some(error) ==> error == ToolError::Upstream || error
                == ToolError::BoundedResult
        },
{
}

/// A file can be shown where its media type fits, has only printable characters and
/// is one, its size is a number that readers keep exactly, and its object has a
/// valid identifier. What is too large is told from what is wrong.
pub proof fn shown_files(target: Seq<char>, mime: Seq<char>, size: int, media_type: bool)
    ensures
        ({
            let printable = forall|i: int|
                0 <= i < mime.len() ==> 0x20 < (#[trigger] mime[i]) as u32 && (mime[i] as u32)
                    < 0x7f;
            let right = printable && media_type && 0 <= size && valid_entity_id(target);
            let error = file_error(target, mime, size, media_type);
            &&& error is None <==> byte_len(mime) <= MAX_MIME_BYTES && right && size
                <= JSON_SAFE_INTEGER_MAX
            &&& error == Some(ToolError::Upstream) <==> byte_len(mime) <= MAX_MIME_BYTES && !right
            &&& error == Some(ToolError::BoundedResult) <==> byte_len(mime) > MAX_MIME_BYTES || (
            right && size > JSON_SAFE_INTEGER_MAX)
        }),
{
}

/// An opaque block can be shown where its kind is well formed and its numbers are
/// ones that readers keep exactly; a file where its own media type is one.
pub proof fn shown_opaque_blocks(content: ContentV)
    ensures
        content matches ContentV::File { target, mime, size, .. } ==> content_error(content)
            == file_error(target, mime, size, is_media_type(mime)),
        content matches ContentV::Unsupported { opaque_kind, child_count, approx_bytes } ==> {
            let fits = child_count <= JSON_SAFE_INTEGER_MAX && approx_bytes
                <= JSON_SAFE_INTEGER_MAX;
            let error = content_error(content);
            &&& error is None <==> opaque_kind_language(opaque_kind) && fits
            &&& error == Some(ToolError::Upstream) <==> !opaque_kind_language(opaque_kind)
            &&& error == Some(ToolError::BoundedResult) <==> opaque_kind_language(opaque_kind)
                && !fits
        },
{
}

// ---------------------------------------------------------------------------
// Places
// ---------------------------------------------------------------------------

proof fn last_slot_facts(children: Seq<Seq<char>>, id: Seq<char>, n: int)
    requires
        0 <= n <= children.len(),
    ensures
        last_slot(children, id, n) matches Some(slot) ==> 0 <= slot < n && children[slot] == id
            && forall|k: int| slot < k < n ==> (#[trigger] children[k]) != id,
        last_slot(children, id, n) is None ==> forall|k: int|
            0 <= k < n ==> (#[trigger] children[k]) != id,
    decreases n,
{
    if n > 0 {
        last_slot_facts(children, id, n - 1);
    }
}

/// Block `p` names an identifier as its child at a slot.
pub open spec fn names_at(blocks: Seq<RawBlockV>, p: int, slot: int, id: Seq<char>) -> bool {
    &&& 0 <= p < blocks.len()
    &&& 0 <= slot < blocks[p].children.len()
    &&& blocks[p].children[slot] == id
}

proof fn last_parent_facts(blocks: Seq<RawBlockV>, id: Seq<char>, n: int)
    requires
        0 <= n <= blocks.len(),
    ensures
        last_parent(blocks, id, n) matches Some((p, slot)) ==> p < n && names_at(
            blocks,
            p,
            slot,
            id,
        ) && forall|q: int, s: int|
            q < n && #[trigger] names_at(blocks, q, s, id) ==> q < p || (q == p && s <= slot),
        last_parent(blocks, id, n) is None ==> forall|q: int, s: int|
            q < n ==> !#[trigger] names_at(blocks, q, s, id),
    decreases n,
{
    if n > 0 {
        last_parent_facts(blocks, id, n - 1);
        last_slot_facts(blocks[n - 1].children, id, blocks[n - 1].children.len() as int);
    }
}

/// The parent of a block is the block that names it as a child, at the slot where it
/// is named; where several do, the last one. A block that none names has no parent.
pub proof fn parents_name_their_children(blocks: Seq<RawBlockV>, id: Seq<char>)
    ensures
        parent_of(blocks, id) matches Some((p, slot)) ==> names_at(blocks, p, slot, id) && forall|
            q: int,
            s: int,
        |
            #[trigger] names_at(blocks, q, s, id) ==> q < p || (q == p && s <= slot),
        parent_of(blocks, id) is None <==> forall|q: int, s: int|
            !#[trigger] names_at(blocks, q, s, id),
{
    last_parent_facts(blocks, id, blocks.len() as int);
}

proof fn recorded_depth_is_of_an_earlier_block(raw: RawV, id: Seq<char>, n: int, p: int)
    requires
        0 <= p < n <= raw.blocks.len(),
        raw.blocks[p].id == id,
        forall|k: int| p < k < n ==> (#[trigger] raw.blocks[k]).id != id,
    ensures
        recorded_depth(raw, id, n) == depth_at(raw, p),
    decreases n,
{
    if p < n - 1 {
        recorded_depth_is_of_an_earlier_block(raw, id, n - 1, p);
    }
}

proof fn no_depth_is_recorded(raw: RawV, id: Seq<char>, n: int)
    requires
        0 <= n <= raw.blocks.len(),
        id != raw.root_id,
        forall|k: int| 0 <= k < n ==> (#[trigger] raw.blocks[k]).id != id,
    ensures
        recorded_depth(raw, id, n) is None,
    decreases n,
{
    if n > 0 {
        no_depth_is_recorded(raw, id, n - 1);
    }
}

/// In a body without a repeated identifier the root has depth zero, and a block has
/// one more than its parent where the parent stands before it. A block that no block
/// names, or that stands before its parent, has no depth, unless the parent is the
/// root.
pub proof fn depths_count_from_the_root(raw: RawV, i: int)
    requires
        0 <= i < raw.blocks.len(),
        forall|a: int, b: int|
            0 <= a < b < raw.blocks.len() ==> (#[trigger] raw.blocks[a]).id != (
            #[trigger] raw.blocks[b]).id,
    ensures
        raw.blocks[i].id == raw.root_id ==> depth_at(raw, i) == Some(0int),
        raw.blocks[i].id != raw.root_id ==> match parent_of(raw.blocks, raw.blocks[i].id) {
            Some((p, slot)) => {
                &&& p < i ==> match depth_at(raw, p) {
                    Some(depth) => depth_at(raw, i) == Some(depth + 1),
                    None => depth_at(raw, i) is None,
                }
                &&& p >= i && raw.blocks[p].id != raw.root_id ==> depth_at(raw, i) is None
            },
            None => depth_at(raw, i) is None,
        },
{
    parents_name_their_children(raw.blocks, raw.blocks[i].id);
    if let Some((p, slot)) = parent_of(raw.blocks, raw.blocks[i].id) {
        if p < i {
            recorded_depth_is_of_an_earlier_block(raw, raw.blocks[p].id, i, p);
        } else if raw.blocks[p].id != raw.root_id {
            no_depth_is_recorded(raw, raw.blocks[p].id, i);
        }
    }
}

/// Every fetched block is shown, in its place and with its own identifier, number of
/// children, restrictions, alignment, background and content. The root hangs below
/// nothing; every other block hangs below its parent at the slot where the parent
/// names it.
pub proof fn blocks_are_shown_as_fetched(raw: RawV, i: int)
    requires
        0 <= i < raw.blocks.len(),
    ensures
        shown_blocks(raw).len() == raw.blocks.len(),
        ({
            let block = raw.blocks[i];
            let shown = shown_blocks(raw)[i];
            &&& shown.id == block.id
            &&& shown.child_count == block.children.len()
            &&& shown.restrictions == block.restrictions
            &&& shown.align == block.align
            &&& shown.vertical_align == block.vertical_align
            &&& shown.background_color == block.background_color
            &&& shown.content == block.content
            &&& block.id == raw.root_id ==> shown.parent_id is None && shown.sibling_index == 0
            &&& block.id != raw.root_id ==> (parent_of(raw.blocks, block.id) matches Some((p, slot))
                ==> shown.parent_id == Some(raw.blocks[p].id) && shown.sibling_index == slot)
            &&& depth_at(raw, i) matches Some(depth) ==> shown.depth == depth
        }),
{
}

// ---------------------------------------------------------------------------
// Totals
// ---------------------------------------------------------------------------

/// The text of a body is the text of its blocks together: texts and the sources of
/// embeds, in bytes. Its marks are those of its texts.
pub proof fn totals_add_up(blocks: Seq<RawBlockV>, n: int)
    requires
        0 <= n < blocks.len(),
    ensures
        text_total(blocks, 0) == 0,
        mark_total(blocks, 0) == 0,
        text_total(blocks, n + 1) - text_total(blocks, n) == (match blocks[n].content {
            ContentV::Text { text, .. } => byte_len(text) as int,
            ContentV::Embed { source, .. } => byte_len(source) as int,
            _ => 0,
        }),
        mark_total(blocks, n + 1) - mark_total(blocks, n) == (match blocks[n].content {
            ContentV::Text { marks, .. } => marks.len() as int,
            _ => 0,
        }),
{
}

/// Children that are rows, or that are columns, counted among the first `n`.
pub proof fn rows_and_columns_are_counted(
    blocks: Seq<RawBlockV>,
    children: Seq<Seq<char>>,
    n: int,
)
    requires
        0 <= n < children.len(),
    ensures
        fanout(blocks, children, 0, true) == 0 && fanout(blocks, children, 0, false) == 0,
        raw_find(blocks, children[n]) matches Some(i) ==> {
            &&& fanout(blocks, children, n + 1, true) == fanout(blocks, children, n, true)
                + if blocks[i].content is TableRow {
                1int
            } else {
                0int
            }
            &&& fanout(blocks, children, n + 1, false) == fanout(blocks, children, n, false)
                + if blocks[i].content is TableColumn {
                1int
            } else {
                0int
            }
        },
{
}

/// Children can be shown exactly where each is fetched and their rows times their
/// columns are at most the largest number of cells.
pub proof fn shown_children(blocks: Seq<RawBlockV>, children: Seq<Seq<char>>)
    ensures
        ({
            let fetched = forall|k: int|
                0 <= k < children.len() ==> exists|i: int|
                    0 <= i < blocks.len() && (#[trigger] blocks[i]).id == #[trigger] children[k];
            let n = children.len() as int;
            let cells = fanout(blocks, children, n, true) * fanout(blocks, children, n, false);
            &&& fanout_error(blocks, children) is None <==> fetched && cells <= MAX_TABLE_CELLS
            &&& fanout_error(blocks, children) == Some(ToolError::Upstream) <==> !fetched
            &&& fanout_error(blocks, children) == Some(ToolError::BoundedResult) <==> fetched
                && cells > MAX_TABLE_CELLS
        }),
{
    assert forall|k: int| 0 <= k < children.len() implies (raw_find(
        blocks,
        #[trigger] children[k],
    ) is Some <==> exists|i: int| 0 <= i < blocks.len() && (#[trigger] blocks[i]).id == children[k]) by {
        raw_find_facts(blocks, children[k], 0);
        if let Some(i) = raw_find(blocks, children[k]) {
            assert(blocks[i].id == children[k]);
        }
    }
}

// ---------------------------------------------------------------------------
// Bodies
// ---------------------------------------------------------------------------

/// A block can be shown exactly where it has a depth, hangs below a validly named
/// parent unless it is the root, names only fetched children with few enough cells,
/// has content that can be shown, and a valid identifier and background of its own.
pub proof fn shown_blocks_are_sound(raw: RawV, i: int)
    requires
        0 <= i < raw.blocks.len(),
        text_total(raw.blocks, i + 1) <= usize::MAX,
        mark_total(raw.blocks, i + 1) <= usize::MAX,
    ensures
        ({
            let block = raw.blocks[i];
            block_error(raw, i) is None <==> {
                &&& depth_at(raw, i) is Some
                &&& block.id != raw.root_id ==> valid_entity_id(
                    raw.blocks[(parent_of(raw.blocks, block.id)->0).0].id,
                )
                &&& fanout_error(raw.blocks, block.children) is None
                &&& content_error(block.content) is None
                &&& valid_entity_id(block.id)
                &&& block.background_color matches Some(color) ==> valid_color(color)
            }
        }),
{
}

/// First failure in a list, from a position on.
spec fn first_failure(errors: Seq<Option<ToolError>>, from: int) -> Option<ToolError>
    decreases errors.len() - from,
{
    if from >= errors.len() {
        None
    } else if errors[from] is Some {
        errors[from]
    } else {
        first_failure(errors, from + 1)
    }
}

proof fn first_failure_facts(errors: Seq<Option<ToolError>>, from: int)
    requires
        0 <= from <= errors.len(),
    ensures
        first_failure(errors, from) is None <==> forall|i: int|
            from <= i < errors.len() ==> (#[trigger] errors[i]) is None,
        first_failure(errors, from) is Some ==> exists|i: int|
            from <= i < errors.len() && #[trigger] errors[i] == first_failure(errors, from)
                && forall|k: int| from <= k < i ==> (#[trigger] errors[k]) is None,
    decreases errors.len() - from,
{
    if from < errors.len() && errors[from] is None {
        first_failure_facts(errors, from + 1);
        if first_failure(errors, from + 1) is Some {
            let i = choose|i: int|
                from + 1 <= i < errors.len() && #[trigger] errors[i] == first_failure(
                    errors,
                    from + 1,
                ) && forall|k: int| from + 1 <= k < i ==> (#[trigger] errors[k]) is None;
            assert(errors[i] == first_failure(errors, from));
        }
    }
}

spec fn block_errors(raw: RawV) -> Seq<Option<ToolError>> {
    Seq::new(raw.blocks.len(), |i: int| block_error(raw, i))
}

proof fn first_block_error_is_first(raw: RawV, from: int)
    requires
        0 <= from <= raw.blocks.len(),
    ensures
        first_block_error(raw, from) == first_failure(block_errors(raw), from),
    decreases raw.blocks.len() - from,
{
    if from < raw.blocks.len() {
        first_block_error_is_first(raw, from + 1);
        assert(block_errors(raw)[from] == block_error(raw, from));
    }
}

proof fn first_error_is_of_the_first_block(raw: RawV)
    ensures
        first_block_error(raw, 0) is None <==> forall|i: int|
            0 <= i < raw.blocks.len() ==> (#[trigger] block_error(raw, i)) is None,
        first_block_error(raw, 0) is Some ==> exists|i: int|
            0 <= i < raw.blocks.len() && #[trigger] block_error(raw, i) == first_block_error(raw, 0)
                && forall|k: int| 0 <= k < i ==> (#[trigger] block_error(raw, k)) is None,
{
    let errors = block_errors(raw);
    first_block_error_is_first(raw, 0);
    first_failure_facts(errors, 0);
    assert forall|i: int| 0 <= i < raw.blocks.len() implies #[trigger] block_error(raw, i)
        == errors[i] by {}
    if first_block_error(raw, 0) is Some {
        let i = choose|i: int|
            0 <= i < errors.len() && #[trigger] errors[i] == first_failure(errors, 0) && forall|
                k: int,
            |
                0 <= k < i ==> (#[trigger] errors[k]) is None;
        assert(block_error(raw, i) == first_block_error(raw, 0));
        assert forall|k: int| 0 <= k < i implies (#[trigger] block_error(raw, k)) is None by {
            assert(errors[k] is None);
        }
    } else {
        assert forall|i: int| 0 <= i < raw.blocks.len() implies (#[trigger] block_error(
            raw,
            i,
        )) is None by {
            assert(errors[i] is None);
        }
    }
}

/// A body can be shown exactly where it has at most the largest number of blocks,
/// validly named and all readable, each of which can be shown, and its text and its
/// marks fit. Too many blocks are told first; then the body's own names and
/// readability; then the first block that cannot be shown; then the totals.
pub proof fn shown_bodies(raw: RawV)
    ensures
        ({
            let n = raw.blocks.len() as int;
            let named = valid_entity_id(raw.space_id) && valid_entity_id(raw.object_id)
                && valid_entity_id(raw.root_id) && forall|i: int|
                0 <= i < n ==> !(#[trigger] raw.blocks[i]).restrictions.read;
            let sound = forall|i: int| 0 <= i < n ==> (#[trigger] block_error(raw, i)) is None;
            let fits = text_total(raw.blocks, n) <= MAX_AGGREGATE_TEXT_BYTES && mark_total(
                raw.blocks,
                n,
            ) <= MAX_AGGREGATE_MARKS;
            let error = snapshot_error(raw);
            &&& error is None <==> n <= MAX_BODY_BLOCKS && named && sound && fits
            &&& n > MAX_BODY_BLOCKS ==> error == Some(ToolError::BoundedResult)
            &&& n <= MAX_BODY_BLOCKS && !named ==> error == Some(ToolError::Upstream)
            &&& n <= MAX_BODY_BLOCKS && named && !sound ==> exists|i: int|
                0 <= i < n && error == #[trigger] block_error(raw, i) && error is Some && forall|
                    k: int,
                |
                    0 <= k < i ==> (#[trigger] block_error(raw, k)) is None
            &&& n <= MAX_BODY_BLOCKS && named && sound && !fits ==> error == Some(
                ToolError::BoundedResult,
            )
        }),
{
    first_error_is_of_the_first_block(raw);
}

} // verus!
