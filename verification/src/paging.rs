//! Pages of a projected body, bound to one exact snapshot.

use crate::error::ToolError;
use crate::model::{BlockProjection, BlockSummary, ProjectedSnapshot, SummaryV};
use crate::projection::{
    content_text_bytes, project_snapshot, shown_blocks, snapshot_error, BodySnapshot, RawV,
};
use crate::hashing::body_hash;
use crate::domain::{BodyInputError, EntityId, SnapshotHash};
use crate::text::{opt_view, text_bytes, views, Same};
use vstd::prelude::*;

verus! {

/// Page size where a caller gives none.
pub const DEFAULT_LIST_LIMIT: u8 = 8;

/// Largest page.
pub const MAX_LIST_LIMIT: u8 = 12;

/// Largest text of one page in bytes.
pub const MAX_LIST_TEXT_BYTES: usize = 131_072;

/// Number of blocks that a caller asks for at once.
#[derive(Clone, Copy, Debug, PartialEq, Eq, Structural)]
pub struct BodyListLimit {
    value: u8,
}

impl BodyListLimit {
    /// Number of blocks.
    pub closed spec fn spec_get(self) -> u8 {
        self.value
    }

    #[verifier::type_invariant]
    spec fn inv(self) -> bool {
        1 <= self.value <= MAX_LIST_LIMIT
    }

    /// Accepts 1 to [`MAX_LIST_LIMIT`].
    pub fn new(value: u8) -> (r: Result<BodyListLimit, BodyInputError>)
        ensures
            r is Ok <==> 1 <= value <= MAX_LIST_LIMIT,
            r matches Ok(limit) ==> limit.spec_get() == value,
    {
        if 1 <= value && value <= MAX_LIST_LIMIT {
            Ok(BodyListLimit { value })
        } else {
            Err(BodyInputError)
        }
    }

    /// Number of blocks.
    pub fn get(self) -> (r: u8)
        ensures
            r == self.spec_get(),
            1 <= r <= MAX_LIST_LIMIT,
    {
        proof {
            use_type_invariant(&self);
        }
        self.value
    }
}

/// Page size where a caller gives none.
pub fn default_list_limit() -> (r: BodyListLimit)
    ensures
        r.spec_get() == DEFAULT_LIST_LIMIT,
{
    BodyListLimit { value: DEFAULT_LIST_LIMIT }
}

/// What a cursor remembers: where the next page starts, and of which snapshot.
#[derive(Clone, Debug, PartialEq, Eq)]
pub struct EvidenceCursorState {
    pub offset: u32,
    pub total: u64,
    pub boundary_id: String,
}

/// Model of what a cursor remembers.
#[verifier::ext_equal]
pub struct CursorV {
    pub offset: int,
    pub total: int,
    pub boundary_id: Seq<char>,
}

impl View for EvidenceCursorState {
    type V = CursorV;

    open spec fn view(&self) -> CursorV {
        CursorV {
            offset: self.offset as int,
            total: self.total as int,
            boundary_id: self.boundary_id@,
        }
    }
}

/// Text bytes of the first `n` blocks of a list.
pub open spec fn listed_text(items: Seq<SummaryV>, n: int) -> int
    decreases n,
{
    if n <= 0 {
        0
    } else {
        listed_text(items, n - 1) + content_text_bytes(items[n - 1].content)
    }
}

/// End of the page that starts at `offset`.
pub open spec fn page_end(total: int, offset: int, limit: int) -> int {
    if offset + limit < total {
        offset + limit
    } else {
        total
    }
}

/// The page that starts at `offset`.
pub open spec fn page(items: Seq<SummaryV>, offset: int, limit: int) -> Seq<SummaryV> {
    items.subrange(offset, page_end(items.len() as int, offset, limit))
}

/// Where the page after the one at `offset` starts, if there is one.
pub open spec fn next_offset(total: int, offset: int, limit: int) -> Option<int> {
    if page_end(total, offset, limit) < total {
        Some(page_end(total, offset, limit))
    } else {
        None
    }
}

/// A page and the cursor behind it, or why there is none: the cursor is of
/// another snapshot, or lies beyond the end, or the page is too large.
pub open spec fn page_outcome(
    items: Seq<SummaryV>,
    hash: Seq<char>,
    prior: Option<CursorV>,
    offset: int,
    limit: int,
) -> Result<(Seq<SummaryV>, Option<CursorV>), ToolError> {
    let total = items.len() as int;
    let shown = page(items, offset, limit);
    if prior is Some && (prior->0.boundary_id != hash || prior->0.total != total) {
        Err(ToolError::Conflict)
    } else if offset > total {
        Err(ToolError::Conflict)
    } else if listed_text(shown, shown.len() as int) > MAX_LIST_TEXT_BYTES {
        Err(ToolError::BoundedResult)
    } else {
        match next_offset(total, offset, limit) {
            None => Ok((shown, None)),
            Some(next) => if next > u32::MAX {
                Err(ToolError::BoundedResult)
            } else {
                Ok((shown, Some(CursorV { offset: next, total, boundary_id: hash })))
            },
        }
    }
}

/// Bytes of text of a block.
pub fn projected_text_bytes(block: &BlockSummary) -> (r: usize)
    ensures
        r == content_text_bytes(block@.content),
{
    match &block.content {
        BlockProjection::Text { text, .. } => text_bytes(text.as_str()),
        BlockProjection::Embed { source, .. } => text_bytes(source.as_str()),
        _ => 0,
    }
}

proof fn listed_text_grows(items: Seq<SummaryV>, a: int, b: int)
    requires
        a <= b,
    ensures
        listed_text(items, a) <= listed_text(items, b),
    decreases b - a,
{
    if a < b {
        listed_text_grows(items, a, b - 1);
    }
}

/// Selects the page that starts at `offset`.
pub fn select_body_page(
    projected: &ProjectedSnapshot,
    prior: Option<&EvidenceCursorState>,
    offset: u32,
    limit: u8,
) -> (r: Result<(Vec<BlockSummary>, Option<EvidenceCursorState>), ToolError>)
    ensures
        ({
            let outcome = page_outcome(
                projected@.items,
                projected@.hash,
                match prior {
                    Some(prior) => Some(prior@),
                    None => None,
                },
                offset as int,
                limit as int,
            );
            match r {
                Ok((items, next)) => outcome == Ok::<
                    (Seq<SummaryV>, Option<CursorV>),
                    ToolError,
                >(
                    (
                        views(items@),
                        match next {
                            Some(next) => Some(next@),
                            None => None,
                        },
                    ),
                ),
                Err(error) => outcome == Err::<(Seq<SummaryV>, Option<CursorV>), ToolError>(error),
            }
        }),
{
    let ghost list = projected@.items;
    let total: usize = projected.items.len();
    assert(list.len() == total);
    if let Some(prior) = prior {
        if prior.boundary_id != projected.hash.as_str().to_owned() || prior.total != total as u64 {
            return Err(ToolError::conflict());
        }
    }
    let start: usize = offset as usize;
    if start > total {
        return Err(ToolError::conflict());
    }
    let end: usize = if (limit as usize) < total - start {
        start + limit as usize
    } else {
        total
    };
    let ghost shown = page(list, offset as int, limit as int);
    let mut items: Vec<BlockSummary> = Vec::new();
    let mut text: usize = 0;
    let mut i: usize = start;
    while i < end
        invariant
            start <= i <= end,
            end <= total,
            total == projected.items.len(),
            list == projected@.items,
            shown == list.subrange(start as int, end as int),
            views(items@) =~= shown.subrange(0, i - start),
            items.len() == i - start,
            text == listed_text(shown, i - start),
            text <= MAX_LIST_TEXT_BYTES,
            offset as int <= list.len(),
            page_outcome(
                list,
                projected@.hash,
                match prior {
                    Some(prior) => Some(prior@),
                    None => None,
                },
                offset as int,
                limit as int,
            ) == (if listed_text(shown, shown.len() as int) > MAX_LIST_TEXT_BYTES {
                Err::<(Seq<SummaryV>, Option<CursorV>), ToolError>(ToolError::BoundedResult)
            } else {
                match next_offset(list.len() as int, offset as int, limit as int) {
                    None => Ok((shown, None)),
                    Some(next) => if next > u32::MAX {
                        Err(ToolError::BoundedResult)
                    } else {
                        Ok(
                            (
                                shown,
                                Some(
                                    CursorV {
                                        offset: next,
                                        total: list.len() as int,
                                        boundary_id: projected@.hash,
                                    },
                                ),
                            ),
                        )
                    },
                }
            }),
        decreases end - i,
    {
        let block: &BlockSummary = &projected.items[i];
        assert(list[i as int] == block@);
        assert(shown[i - start] == block@);
        let bytes: usize = projected_text_bytes(block);
        if bytes > MAX_LIST_TEXT_BYTES - text {
            proof {
                listed_text_grows(shown, i - start + 1, shown.len() as int);
            }
            return Err(ToolError::bounded_result());
        }
        text = text + bytes;
        let ghost before = items@;
        let copy: BlockSummary = block.duplicate();
        items.push(copy);
        assert(views(items@) =~= views(before).push(block@));
        i += 1;
    }
    assert(shown.subrange(0, shown.len() as int) =~= shown);
    if end < total {
        if end as u64 > u32::MAX as u64 {
            return Err(ToolError::bounded_result());
        }
        let next = EvidenceCursorState {
            offset: end as u32,
            total: total as u64,
            boundary_id: projected.hash.as_str().to_owned(),
        };
        Ok((items, Some(next)))
    } else {
        Ok((items, None))
    }
}

/// All pages from `offset` on, one after another.
pub open spec fn pages_from(items: Seq<SummaryV>, offset: int, limit: int) -> Seq<SummaryV>
    decreases items.len() - offset,
{
    if limit < 1 || offset < 0 {
        Seq::empty()
    } else {
        match next_offset(items.len() as int, offset, limit) {
            Some(next) => page(items, offset, limit) + pages_from(items, next, limit),
            None => page(items, offset, limit),
        }
    }
}

/// Following the cursors from a page on shows every remaining block exactly
/// once and in order.
pub proof fn pages_show_every_block_once(items: Seq<SummaryV>, offset: int, limit: int)
    requires
        0 <= offset <= items.len(),
        limit >= 1,
    ensures
        pages_from(items, offset, limit) == items.subrange(offset, items.len() as int),
    decreases items.len() - offset,
{
    if let Some(next) = next_offset(items.len() as int, offset, limit) {
        pages_show_every_block_once(items, next, limit);
        assert(page(items, offset, limit) + items.subrange(next, items.len() as int)
            =~= items.subrange(offset, items.len() as int));
    }
}

/// A page of a fetched body, with the whole projection it was taken from.
#[derive(Clone, Debug)]
pub struct ProjectedBodyPage {
    pub snapshot: ProjectedSnapshot,
    pub items: Vec<BlockSummary>,
    pub next_state: Option<EvidenceCursorState>,
}

/// Shows one page of a fetched body. The body is projected as a whole first, so
/// that nothing of it is shown where any block cannot be.
pub fn project_snapshot_page(
    snapshot: &BodySnapshot,
    prior: Option<&EvidenceCursorState>,
    offset: u32,
    limit: u8,
) -> (r: Result<ProjectedBodyPage, ToolError>)
    ensures
        match snapshot_error(snapshot@) {
            Some(error) => r == Err::<ProjectedBodyPage, ToolError>(error),
            None => {
                let items = shown_blocks(snapshot@);
                let hash = body_hash(
                    snapshot@.space_id,
                    snapshot@.object_id,
                    snapshot@.root_id,
                    items,
                );
                let outcome = page_outcome(
                    items,
                    hash,
                    match prior {
                        Some(prior) => Some(prior@),
                        None => None,
                    },
                    offset as int,
                    limit as int,
                );
                match r {
                    Ok(shown) => {
                        &&& shown.snapshot@.space_id == snapshot@.space_id
                        &&& shown.snapshot@.object_id == snapshot@.object_id
                        &&& shown.snapshot@.root_id == snapshot@.root_id
                        &&& shown.snapshot@.items == items
                        &&& shown.snapshot@.hash == hash
                        &&& outcome == Ok::<(Seq<SummaryV>, Option<CursorV>), ToolError>(
                            (
                                views(shown.items@),
                                match shown.next_state {
                                    Some(next) => Some(next@),
                                    None => None,
                                },
                            ),
                        )
                    },
                    Err(error) => outcome == Err::<(Seq<SummaryV>, Option<CursorV>), ToolError>(
                        error,
                    ),
                }
            },
        },
{
    let projected: ProjectedSnapshot = match project_snapshot(snapshot) {
        Ok(projected) => projected,
        Err(error) => {
            return Err(error);
        },
    };
    match select_body_page(&projected, prior, offset, limit) {
        Ok((items, next_state)) => Ok(
            ProjectedBodyPage { snapshot: projected, items, next_state },
        ),
        Err(error) => Err(error),
    }
}

/// Input of a listing; the cursor is the one that the page before issued.
#[derive(Clone, Debug)]
pub struct BodyBlockListInput {
    pub space: String,
    pub object_id: EntityId,
    pub limit: BodyListLimit,
    pub cursor: Option<EvidenceCursorState>,
}

/// Output of a listing. Where more blocks follow, `next_state` is what the
/// cursor of the next page remembers.
#[derive(Clone, Debug, PartialEq)]
pub struct BodyBlockListOutput {
    pub space_id: EntityId,
    pub object_id: EntityId,
    pub root_id: EntityId,
    pub snapshot_hash: SnapshotHash,
    pub items: Vec<BlockSummary>,
    pub next_state: Option<EvidenceCursorState>,
}

/// Where a listing starts: at the cursor, or at the first block.
pub open spec fn list_offset(cursor: Option<CursorV>) -> int {
    match cursor {
        Some(cursor) => cursor.offset,
        None => 0,
    }
}

/// Why a listing of a fetched body fails, if so: the body cannot be shown, its
/// page cannot, or it is of another object.
pub open spec fn list_error(
    raw: RawV,
    space_id: Seq<char>,
    object_id: Seq<char>,
    cursor: Option<CursorV>,
    limit: int,
) -> Option<ToolError> {
    match snapshot_error(raw) {
        Some(error) => Some(error),
        None => {
            let items = shown_blocks(raw);
            let hash = body_hash(raw.space_id, raw.object_id, raw.root_id, items);
            match page_outcome(items, hash, cursor, list_offset(cursor), limit) {
                Err(error) => Some(error),
                Ok(_) => if raw.space_id != space_id || raw.object_id != object_id {
                    Some(ToolError::Upstream)
                } else {
                    None
                },
            }
        },
    }
}

/// Lists one page of a fetched body.
pub fn list_body(snapshot: &BodySnapshot, space_id: &EntityId, input: &BodyBlockListInput) -> (r:
    Result<BodyBlockListOutput, ToolError>)
    ensures
        ({
            let raw = snapshot@;
            let cursor = opt_view(input.cursor);
            let limit = input.limit.spec_get() as int;
            match list_error(raw, space_id@, input.object_id@, cursor, limit) {
                Some(error) => r == Err::<BodyBlockListOutput, ToolError>(error),
                None => r matches Ok(output) && {
                    let items = shown_blocks(raw);
                    let hash = body_hash(raw.space_id, raw.object_id, raw.root_id, items);
                    &&& output.space_id@ == space_id@
                    &&& output.object_id@ == input.object_id@
                    &&& output.root_id@ == raw.root_id
                    &&& output.snapshot_hash@ == hash
                    &&& page_outcome(items, hash, cursor, list_offset(cursor), limit) == Ok::<
                        (Seq<SummaryV>, Option<CursorV>),
                        ToolError,
                    >((views(output.items@), opt_view(output.next_state)))
                },
            }
        }),
{
    let (prior, offset): (Option<&EvidenceCursorState>, u32) = match &input.cursor {
        Some(state) => (Some(state), state.offset),
        None => (None, 0),
    };
    let page: ProjectedBodyPage = match project_snapshot_page(
        snapshot,
        prior,
        offset,
        input.limit.get(),
    ) {
        Ok(page) => page,
        Err(error) => {
            return Err(error);
        },
    };
    if !page.snapshot.space_id.same(space_id) || !page.snapshot.object_id.same(&input.object_id) {
        return Err(ToolError::upstream());
    }
    Ok(
        BodyBlockListOutput {
            space_id: page.snapshot.space_id,
            object_id: page.snapshot.object_id,
            root_id: page.snapshot.root_id,
            snapshot_hash: page.snapshot.hash,
            items: page.items,
            next_state: page.next_state,
        },
    )
}

/// A cursor shows the rest of the snapshot that it was issued for and of no
/// other: on any other snapshot, by hash or by size, the listing is a conflict.
pub proof fn cursor_is_bound_to_its_snapshot(
    items: Seq<SummaryV>,
    hash: Seq<char>,
    cursor: CursorV,
    limit: int,
)
    requires
        cursor.boundary_id != hash || cursor.total != items.len(),
    ensures
        page_outcome(items, hash, Some(cursor), cursor.offset, limit) == Err::<
            (Seq<SummaryV>, Option<CursorV>),
            ToolError,
        >(ToolError::Conflict),
{
}

} // verus!
