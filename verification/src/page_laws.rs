//! What a listing promises: which blocks a page shows, when a cursor follows it,
//! and that the cursors lead through the whole body.

use crate::error::ToolError;
use crate::model::{ContentV, SummaryV};
use crate::paging::{
    list_error, list_offset, listed_text, page_outcome, CursorV, MAX_LIST_TEXT_BYTES,
};
use crate::projection::{content_text_bytes, shown_blocks, snapshot_error, RawV};
use crate::rich_flow::shown_snapshot;
use crate::text::byte_len;
use vstd::prelude::*;

verus! {

/// Text of the blocks from `from` up to `to`, in bytes: that of texts and of
/// embeds.
pub open spec fn text_between(items: Seq<SummaryV>, from: int, to: int) -> int
    decreases to - from,
{
    if from >= to {
        0
    } else {
        text_between(items, from, to - 1) + match items[to - 1].content {
            ContentV::Text { text, .. } => byte_len(text) as int,
            ContentV::Embed { source, .. } => byte_len(source) as int,
            _ => 0,
        }
    }
}

proof fn listed_text_is_its_window(items: Seq<SummaryV>, from: int, to: int, n: int)
    requires
        0 <= from <= to <= items.len(),
        0 <= n <= to - from,
    ensures
        listed_text(items.subrange(from, to), n) == text_between(items, from, from + n),
    decreases n,
{
    if n > 0 {
        listed_text_is_its_window(items, from, to, n - 1);
        assert(items.subrange(from, to)[n - 1] == items[from + n - 1]);
    }
}

/// A page shows the blocks from its offset on, in order, as many as were asked
/// for or as are left. A cursor follows it exactly where blocks follow, whether
/// or not one led to it; it starts the next page where this one ends, and is
/// bound to this body.
pub proof fn page_shows_its_blocks(
    items: Seq<SummaryV>,
    hash: Seq<char>,
    prior: Option<CursorV>,
    offset: int,
    limit: int,
)
    requires
        0 <= offset,
        0 <= limit,
    ensures
        page_outcome(items, hash, prior, offset, limit) matches Ok((shown, next)) ==> {
            &&& shown.len() <= limit
            &&& offset + shown.len() <= items.len()
            &&& shown.len() < limit ==> offset + shown.len() == items.len()
            &&& forall|i: int| 0 <= i < shown.len() ==> (#[trigger] shown[i]) == items[offset + i]
            &&& next is Some <==> offset + shown.len() < items.len()
            &&& next matches Some(cursor) ==> cursor.offset == offset + shown.len()
                && cursor.total == items.len() && cursor.boundary_id == hash
            &&& text_between(items, offset, offset + shown.len()) <= MAX_LIST_TEXT_BYTES
        },
{
    if let Ok((shown, next)) = page_outcome(items, hash, prior, offset, limit) {
        listed_text_is_its_window(items, offset, offset + shown.len(), shown.len() as int);
        assert(shown =~= items.subrange(offset, offset + shown.len()));
    }
}

/// A listing is refused for three reasons only. The cursor is of another body, or
/// starts beyond the end: a conflict. The page holds more text than a page may,
/// or the next one would start where no cursor can say: a bounded result.
pub proof fn page_is_refused_for_cause(
    items: Seq<SummaryV>,
    hash: Seq<char>,
    prior: Option<CursorV>,
    offset: int,
    limit: int,
)
    requires
        0 <= offset,
        0 <= limit,
    ensures
        ({
            let end = if offset + limit < items.len() {
                offset + limit
            } else {
                items.len() as int
            };
            let stale = (prior matches Some(cursor) && (cursor.boundary_id != hash || cursor.total
                != items.len())) || offset > items.len();
            let large = text_between(items, offset, end) > MAX_LIST_TEXT_BYTES || (end
                < items.len() && end > u32::MAX);
            &&& page_outcome(items, hash, prior, offset, limit) == Err::<
                (Seq<SummaryV>, Option<CursorV>),
                ToolError,
            >(ToolError::Conflict) <==> stale
            &&& page_outcome(items, hash, prior, offset, limit) == Err::<
                (Seq<SummaryV>, Option<CursorV>),
                ToolError,
            >(ToolError::BoundedResult) <==> !stale && large
            &&& page_outcome(items, hash, prior, offset, limit) is Ok <==> !stale && !large
        }),
{
    if offset <= items.len() {
        let end = if offset + limit < items.len() {
            offset + limit
        } else {
            items.len() as int
        };
        listed_text_is_its_window(items, offset, end, end - offset);
    }
}

/// What a caller sees who starts without a cursor and then passes on every cursor
/// that is issued, for at most `calls` calls: the blocks of all pages, if the last
/// page issued no cursor.
pub open spec fn followed(
    items: Seq<SummaryV>,
    hash: Seq<char>,
    cursor: Option<CursorV>,
    limit: int,
    calls: nat,
) -> Option<Seq<SummaryV>>
    decreases calls,
{
    if calls == 0 {
        None
    } else {
        match page_outcome(items, hash, cursor, list_offset(cursor), limit) {
            Err(_) => None,
            Ok((shown, None)) => Some(shown),
            Ok((shown, Some(next))) => match followed(
                items,
                hash,
                Some(next),
                limit,
                (calls - 1) as nat,
            ) {
                Some(rest) => Some(shown + rest),
                None => None,
            },
        }
    }
}

proof fn cursors_lead_on(
    items: Seq<SummaryV>,
    hash: Seq<char>,
    cursor: Option<CursorV>,
    limit: int,
    calls: nat,
    offset: int,
)
    requires
        limit >= 1,
        items.len() <= u32::MAX,
        0 <= offset <= items.len(),
        calls > items.len() - offset,
        cursor is None ==> offset == 0,
        cursor matches Some(c) ==> c.offset == offset && c.total == items.len() && c.boundary_id
            == hash,
        forall|a: int, b: int|
            0 <= a <= b <= items.len() && b - a <= limit ==> #[trigger] text_between(items, a, b)
                <= MAX_LIST_TEXT_BYTES,
    ensures
        followed(items, hash, cursor, limit, calls) == Some(
            items.subrange(offset, items.len() as int),
        ),
    decreases calls,
{
    let outcome = page_outcome(items, hash, cursor, list_offset(cursor), limit);
    page_is_refused_for_cause(items, hash, cursor, offset, limit);
    page_shows_its_blocks(items, hash, cursor, offset, limit);
    let end = if offset + limit < items.len() {
        offset + limit
    } else {
        items.len() as int
    };
    assert(text_between(items, offset, end) <= MAX_LIST_TEXT_BYTES);
    assert(outcome is Ok);
    let (shown, next) = outcome->Ok_0;
    assert(shown =~= items.subrange(offset, end));
    if let Some(c) = next {
        cursors_lead_on(items, hash, next, limit, (calls - 1) as nat, end);
        assert(shown + items.subrange(end, items.len() as int) =~= items.subrange(
            offset,
            items.len() as int,
        ));
    }
}

/// Whoever starts without a cursor and passes on every cursor that is issued sees
/// every block of the body exactly once and in order, and is then told that
/// nothing follows. This holds for every page size, as long as no page that long
/// holds more text than a page may.
pub proof fn cursors_lead_through_the_whole_body(
    items: Seq<SummaryV>,
    hash: Seq<char>,
    limit: int,
)
    requires
        limit >= 1,
        items.len() <= u32::MAX,
        forall|a: int, b: int|
            0 <= a <= b <= items.len() && b - a <= limit ==> #[trigger] text_between(items, a, b)
                <= MAX_LIST_TEXT_BYTES,
    ensures
        followed(items, hash, None, limit, items.len() + 1) == Some(items),
{
    cursors_lead_on(items, hash, None, limit, items.len() + 1, 0);
    assert(items.subrange(0, items.len() as int) =~= items);
}

/// A listing without a cursor starts at the first block, one with a cursor where
/// the cursor says; and it fails exactly where the body cannot be shown, the page
/// is refused, or the body is of another object, in this order.
pub proof fn listing_starts_at_its_cursor(
    raw: RawV,
    space_id: Seq<char>,
    object_id: Seq<char>,
    cursor: Option<CursorV>,
    limit: int,
)
    ensures
        list_offset(None) == 0,
        cursor matches Some(c) ==> list_offset(cursor) == c.offset,
        list_error(raw, space_id, object_id, cursor, limit) == (if snapshot_error(raw) is Some {
            snapshot_error(raw)
        } else {
            match page_outcome(
                shown_blocks(raw),
                shown_snapshot(raw).hash,
                cursor,
                if cursor is Some {
                    cursor->0.offset
                } else {
                    0
                },
                limit,
            ) {
                Err(error) => Some(error),
                Ok(_) => if raw.space_id == space_id && raw.object_id == object_id {
                    None
                } else {
                    Some(ToolError::Upstream)
                },
            }
        }),
{
}

/// Texts and the sources of embeds are the text of a body; nothing else is.
pub proof fn only_texts_and_embeds_hold_text(content: ContentV)
    ensures
        content matches ContentV::Text { text, .. } ==> content_text_bytes(content) == byte_len(
            text,
        ),
        content matches ContentV::Embed { source, .. } ==> content_text_bytes(content) == byte_len(
            source,
        ),
        !(content is Text) && !(content is Embed) ==> content_text_bytes(content) == 0,
{
}

} // verus!
