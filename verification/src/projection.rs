//! Projection of a fetched body into closed, bounded blocks.

use crate::domain::{
    opaque_kind_language, valid_color, valid_entity_id, valid_relation_key, ColorInput, EntityId,
    OpaqueKind, RelationKey,
};
use crate::error::ToolError;
use crate::binding::body_fits;
use crate::hashing::{body_hash, hash_projection};
use crate::marks::{
    icon_valid, mark_shown, project_icon, project_mark, valid_url, validate_url, CalloutIcon,
    TextMark,
};
use crate::model::{
    BlockProjection, BlockSummary, ContentV, MarkV, ProjectedSnapshot, RestrictionsProjection,
    SummaryV, WireIcon, WireMark,
};
use crate::outside::{is_media_type, parses_as_media_type};
use crate::text::{byte_len, contains_same, opt_view, text_bytes, views, Same};
use crate::wire::{
    WireBookmarkState, WireDividerStyle, WireEmbedProcessor, WireFileKind, WireFileState,
    WireFileStyle, WireHorizontalAlign, WireLayoutStyle, WireLinkCardStyle, WireLinkDescription,
    WireLinkIconSize, WireTextStyle, WireVerticalAlign,
};
use vstd::prelude::*;

verus! {

/// Largest number of blocks in a body.
pub const MAX_BODY_BLOCKS: usize = 2_048;

/// Deepest block in a body.
pub const MAX_BODY_DEPTH: usize = 32;

/// Largest number of children of one block.
pub const MAX_BODY_CHILDREN: usize = 512;

/// Largest text of one block in bytes.
pub const MAX_TEXT_BYTES: usize = 16_384;

/// Largest text of a whole body in bytes.
pub const MAX_AGGREGATE_TEXT_BYTES: usize = 1_048_576;

/// Largest number of marks in a whole body.
pub const MAX_AGGREGATE_MARKS: usize = 4_096;

/// Largest number of rows that a fetched table may have.
pub const MAX_TABLE_ROWS: usize = 128;

/// Largest number of columns that a fetched table may have.
pub const MAX_TABLE_COLUMNS: usize = 32;

/// Largest number of cells that rows and columns below one block may span.
pub const MAX_TABLE_CELLS: usize = 1_024;

/// Largest media type in bytes.
pub const MAX_MIME_BYTES: usize = 255;

/// Largest number of relations shown on one link.
pub const MAX_RELATIONS: usize = 64;

/// Largest integer that JSON readers keep exactly.
pub const JSON_SAFE_INTEGER_MAX: u64 = 9_007_199_254_740_991;

/// Text of a fetched block.
#[derive(Clone, Debug, PartialEq, Eq)]
pub struct TextContent {
    pub text: String,
    pub style: WireTextStyle,
    pub checked: bool,
    pub color: Option<String>,
    pub icon: Option<CalloutIcon>,
    pub marks: Vec<TextMark>,
}

/// Bookmark of a fetched block.
#[derive(Clone, Debug, PartialEq, Eq)]
pub struct BookmarkContent {
    pub url: String,
    pub target_object_id: Option<String>,
    pub state: WireBookmarkState,
}

/// Link of a fetched block.
#[derive(Clone, Debug, PartialEq, Eq)]
pub struct LinkContent {
    pub target_object_id: String,
    pub card_style: WireLinkCardStyle,
    pub icon_size: WireLinkIconSize,
    pub description: WireLinkDescription,
    pub relations: Vec<String>,
}

/// Embed of a fetched block.
#[derive(Clone, Debug, PartialEq, Eq)]
pub struct EmbedContent {
    pub processor: WireEmbedProcessor,
    pub text: String,
}

/// File of a fetched block.
#[derive(Clone, Debug, PartialEq, Eq)]
pub struct FileContent {
    pub target_object_id: String,
    pub kind: WireFileKind,
    pub mime: String,
    pub size: i64,
    pub state: WireFileState,
    pub style: WireFileStyle,
}

/// Summary of a fetched block that is not interpreted.
#[derive(Clone, Debug, PartialEq, Eq)]
pub struct OpaqueContent {
    pub kind: String,
    pub child_count: usize,
    pub approx_bytes: usize,
}

/// Content of a fetched block.
#[derive(Clone, Debug, PartialEq, Eq)]
pub enum BlockContent {
    Text(TextContent),
    Layout(WireLayoutStyle),
    Divider(WireDividerStyle),
    Bookmark(BookmarkContent),
    Link(LinkContent),
    Relation(String),
    FeaturedRelations,
    Embed(EmbedContent),
    TableOfContents,
    Table,
    TableRow { is_header: bool },
    TableColumn,
    File(FileContent),
    Unsupported(OpaqueContent),
    /// Content of a kind that has no projection.
    Unrecognized,
}

impl View for BlockContent {
    type V = ContentV;

    open spec fn view(&self) -> ContentV {
        match self {
            BlockContent::Text(text) => ContentV::Text {
                text: text.text@,
                style: text.style,
                checked: text.checked,
                color: opt_view(text.color),
                icon: opt_view(text.icon),
                marks: views(text.marks@),
            },
            BlockContent::Layout(style) => ContentV::Layout { style: *style },
            BlockContent::Divider(style) => ContentV::Divider { style: *style },
            BlockContent::Bookmark(bookmark) => ContentV::Bookmark {
                url: bookmark.url@,
                target: opt_view(bookmark.target_object_id),
                state: bookmark.state,
            },
            BlockContent::Link(link) => ContentV::Link {
                target: link.target_object_id@,
                card_style: link.card_style,
                icon_size: link.icon_size,
                description: link.description,
                relations: views(link.relations@),
            },
            BlockContent::Relation(key) => ContentV::Relation { key: key@ },
            BlockContent::FeaturedRelations => ContentV::FeaturedRelations,
            BlockContent::Embed(embed) => ContentV::Embed {
                processor: embed.processor,
                source: embed.text@,
            },
            BlockContent::TableOfContents => ContentV::TableOfContents,
            BlockContent::Table => ContentV::Table,
            BlockContent::TableRow { is_header } => ContentV::TableRow { is_header: *is_header },
            BlockContent::TableColumn => ContentV::TableColumn,
            BlockContent::File(file) => ContentV::File {
                target: file.target_object_id@,
                file_kind: file.kind,
                mime: file.mime@,
                size: file.size as int,
                state: file.state,
                style: file.style,
            },
            BlockContent::Unsupported(opaque) => ContentV::Unsupported {
                opaque_kind: opaque.kind@,
                child_count: opaque.child_count as int,
                approx_bytes: opaque.approx_bytes as int,
            },
            BlockContent::Unrecognized => ContentV::Unrecognized,
        }
    }
}

/// A fetched block.
#[derive(Clone, Debug, PartialEq, Eq)]
pub struct BodyBlock {
    pub id: String,
    pub children: Vec<String>,
    pub restrictions: RestrictionsProjection,
    pub align: WireHorizontalAlign,
    pub vertical_align: WireVerticalAlign,
    pub background_color: Option<String>,
    pub content: BlockContent,
}

/// Model of a fetched block.
#[verifier::ext_equal]
pub struct RawBlockV {
    pub id: Seq<char>,
    pub children: Seq<Seq<char>>,
    pub restrictions: RestrictionsProjection,
    pub align: WireHorizontalAlign,
    pub vertical_align: WireVerticalAlign,
    pub background_color: Option<Seq<char>>,
    pub content: ContentV,
}

impl View for BodyBlock {
    type V = RawBlockV;

    open spec fn view(&self) -> RawBlockV {
        RawBlockV {
            id: self.id@,
            children: views(self.children@),
            restrictions: self.restrictions,
            align: self.align,
            vertical_align: self.vertical_align,
            background_color: opt_view(self.background_color),
            content: self.content@,
        }
    }
}

/// A fetched body: its scope, and its blocks in depth-first order.
#[derive(Clone, Debug, PartialEq, Eq)]
pub struct BodySnapshot {
    pub space_id: String,
    pub object_id: String,
    pub root_id: String,
    pub blocks: Vec<BodyBlock>,
}

/// Model of a fetched body.
#[verifier::ext_equal]
pub struct RawV {
    pub space_id: Seq<char>,
    pub object_id: Seq<char>,
    pub root_id: Seq<char>,
    pub blocks: Seq<RawBlockV>,
}

impl View for BodySnapshot {
    type V = RawV;

    open spec fn view(&self) -> RawV {
        RawV {
            space_id: self.space_id@,
            object_id: self.object_id@,
            root_id: self.root_id@,
            blocks: views(self.blocks@),
        }
    }
}

// ---------------------------------------------------------------------------
// Content
// ---------------------------------------------------------------------------

/// Relations that a link may show.
pub open spec fn relations_shown(relations: Seq<Seq<char>>) -> bool {
    &&& relations.len() <= MAX_RELATIONS
    &&& forall|i: int| 0 <= i < relations.len() ==> valid_relation_key(#[trigger] relations[i])
    &&& relations.no_duplicates()
}

/// Visible ASCII throughout.
pub open spec fn all_graphic(text: Seq<char>) -> bool {
    forall|i: int| 0 <= i < text.len() ==> 0x21 <= (#[trigger] text[i]) as u32 <= 0x7e
}

/// Every mark can be shown on the text.
pub open spec fn marks_shown(marks: Seq<MarkV>, text: Seq<char>) -> bool {
    forall|i: int| 0 <= i < marks.len() ==> mark_shown(#[trigger] marks[i], text)
}

/// Why a file cannot be shown, if so, once it is known whether its media type
/// is one.
pub open spec fn file_error(
    target: Seq<char>,
    mime: Seq<char>,
    size: int,
    media_type: bool,
) -> Option<ToolError> {
    if byte_len(mime) > MAX_MIME_BYTES {
        Some(ToolError::BoundedResult)
    } else if !all_graphic(mime) || !media_type || size < 0 || !valid_entity_id(target) {
        Some(ToolError::Upstream)
    } else if size > JSON_SAFE_INTEGER_MAX {
        Some(ToolError::BoundedResult)
    } else {
        None
    }
}

/// Why content cannot be shown, if so.
pub open spec fn content_error(content: ContentV) -> Option<ToolError> {
    match content {
        ContentV::Text { text, color, icon, marks, .. } => if marks_shown(marks, text) && (match color {
            Some(color) => valid_color(color),
            None => true,
        }) && (match icon {
            Some(icon) => icon_valid(icon),
            None => true,
        }) {
            None
        } else {
            Some(ToolError::Upstream)
        },
        ContentV::Bookmark { url, target, .. } => if valid_url(url) && (match target {
            Some(target) => valid_entity_id(target),
            None => true,
        }) {
            None
        } else {
            Some(ToolError::Upstream)
        },
        ContentV::Link { target, relations, .. } => if !valid_entity_id(target) {
            Some(ToolError::Upstream)
        } else if relations.len() > MAX_RELATIONS {
            Some(ToolError::BoundedResult)
        } else if !relations_shown(relations) {
            Some(ToolError::Upstream)
        } else {
            None
        },
        ContentV::Relation { key } => if valid_relation_key(key) {
            None
        } else {
            Some(ToolError::Upstream)
        },
        ContentV::File { target, mime, size, .. } => file_error(
            target,
            mime,
            size,
            is_media_type(mime),
        ),
        ContentV::Unsupported { opaque_kind, child_count, approx_bytes } =>
            if !opaque_kind_language(opaque_kind) {
            Some(ToolError::Upstream)
        } else if child_count > JSON_SAFE_INTEGER_MAX || approx_bytes > JSON_SAFE_INTEGER_MAX {
            Some(ToolError::BoundedResult)
        } else {
            None
        },
        ContentV::Unrecognized => Some(ToolError::Upstream),
        _ => None,
    }
}

/// Bytes of text that content adds to a body.
pub open spec fn content_text_bytes(content: ContentV) -> nat {
    match content {
        ContentV::Text { text, .. } => byte_len(text),
        ContentV::Embed { source, .. } => byte_len(source),
        _ => 0,
    }
}

/// Marks that content adds to a body.
pub open spec fn content_marks(content: ContentV) -> nat {
    match content {
        ContentV::Text { marks, .. } => marks.len(),
        _ => 0,
    }
}

fn project_marks(marks: &Vec<TextMark>, text: &str) -> (r: Result<Vec<WireMark>, ToolError>)
    ensures
        match r {
            Ok(shown) => views(shown@) == views(marks@) && marks_shown(views(marks@), text@),
            Err(error) => error == ToolError::Upstream && !marks_shown(views(marks@), text@),
        },
{
    let ghost list = views(marks@);
    let mut shown: Vec<WireMark> = Vec::new();
    let mut i: usize = 0;
    while i < marks.len()
        invariant
            i <= marks.len(),
            list == views(marks@),
            views(shown@) =~= list.subrange(0, i as int),
            shown.len() == i,
            forall|k: int| 0 <= k < i ==> mark_shown(#[trigger] list[k], text@),
        decreases marks.len() - i,
    {
        assert(list[i as int] == marks@[i as int]@);
        match project_mark(&marks[i], text) {
            Ok(mark) => {
                let ghost before = shown@;
                shown.push(mark);
                assert(views(shown@) =~= views(before).push(mark@));
            },
            Err(error) => {
                assert(!mark_shown(list[i as int], text@));
                return Err(error);
            },
        }
        i += 1;
    }
    assert(list.subrange(0, list.len() as int) =~= list);
    Ok(shown)
}

fn project_color(color: &Option<String>) -> (r: Result<Option<ColorInput>, ToolError>)
    ensures
        match r {
            Ok(shown) => opt_view(shown) == opt_view(*color) && (match opt_view(*color) {
                Some(color) => valid_color(color),
                None => true,
            }),
            Err(error) => error == ToolError::Upstream && opt_view(*color) is Some && !valid_color(
                opt_view(*color)->0,
            ),
        },
{
    match color {
        Some(color) => match ColorInput::new(color.clone()) {
            Ok(color) => Ok(Some(color)),
            Err(_) => Err(ToolError::upstream()),
        },
        None => Ok(None),
    }
}

fn project_text(text: &TextContent) -> (r: Result<BlockProjection, ToolError>)
    ensures
        match r {
            Ok(shown) => content_error(BlockContent::Text(*text)@) is None && shown@
                == BlockContent::Text(*text)@,
            Err(error) => content_error(BlockContent::Text(*text)@) == Some(error),
        },
{
    let marks: Vec<WireMark> = match project_marks(&text.marks, text.text.as_str()) {
        Ok(marks) => marks,
        Err(error) => {
            return Err(error);
        },
    };
    let color: Option<ColorInput> = match project_color(&text.color) {
        Ok(color) => color,
        Err(error) => {
            return Err(error);
        },
    };
    let icon: Option<WireIcon> = match &text.icon {
        Some(icon) => match project_icon(icon) {
            Ok(icon) => Some(icon),
            Err(error) => {
                return Err(error);
            },
        },
        None => None,
    };
    Ok(
        BlockProjection::Text {
            text: text.text.clone(),
            style: text.style,
            checked: text.checked,
            color,
            icon,
            marks,
        },
    )
}

/// Shows relation keys: boundedly many, each well formed, none twice. Where
/// `upstream`, a malformed list is the service's failure, else the caller's.
pub fn validate_relation_values(values: &Vec<String>, upstream: bool) -> (r: Result<
    Vec<RelationKey>,
    ToolError,
>)
    ensures
        match r {
            Ok(keys) => relations_shown(views(values@)) && views(keys@) == views(values@),
            Err(error) => !relations_shown(views(values@)) && error == if values.len()
                > MAX_RELATIONS {
                ToolError::BoundedResult
            } else if upstream {
                ToolError::Upstream
            } else {
                ToolError::Validation
            },
        },
{
    let ghost list = views(values@);
    if values.len() > MAX_RELATIONS {
        assert(list.len() > MAX_RELATIONS);
        return Err(ToolError::bounded_result());
    }
    let malformed: ToolError = if upstream {
        ToolError::upstream()
    } else {
        ToolError::validation()
    };
    let mut keys: Vec<RelationKey> = Vec::new();
    let mut i: usize = 0;
    while i < values.len()
        invariant
            i <= values.len(),
            values.len() <= MAX_RELATIONS,
            list == views(values@),
            keys.len() == i,
            views(keys@) =~= list.subrange(0, i as int),
            malformed == if upstream {
                ToolError::Upstream
            } else {
                ToolError::Validation
            },
            forall|k: int| 0 <= k < i ==> valid_relation_key(#[trigger] list[k]),
            forall|a: int, b: int| 0 <= a < b < i ==> (#[trigger] list[a]) != (#[trigger] list[b]),
        decreases values.len() - i,
    {
        assert(list[i as int] == values@[i as int]@);
        let key: RelationKey = match RelationKey::new(values[i].clone()) {
            Ok(key) => key,
            Err(_) => {
                assert(!valid_relation_key(list[i as int]));
                return Err(malformed);
            },
        };
        if contains_same(&keys, &key) {
            proof {
                let k = choose|k: int| 0 <= k < views(keys@).len() && views(keys@)[k] == key@;
                assert(list[k] == list[i as int]);
            }
            return Err(malformed);
        }
        proof {
            assert forall|a: int| 0 <= a < i implies (#[trigger] list[a]) != list[i as int] by {
                assert(views(keys@)[a] == list[a]);
                assert(!views(keys@).contains(key@));
            }
        }
        let ghost before = keys@;
        keys.push(key);
        assert(views(keys@) =~= views(before).push(key@));
        i += 1;
    }
    assert(list.subrange(0, list.len() as int) =~= list);
    assert forall|a: int, b: int|
        0 <= a < list.len() && 0 <= b < list.len() && a != b implies list[a] != list[b] by {
        if a > b {
            assert(list[b] != list[a]);
        }
    }
    Ok(keys)
}

fn is_graphic(text: &str) -> (r: bool)
    ensures
        r == all_graphic(text@),
{
    for c in it: text.chars()
        invariant
            it.seq() == text@,
            forall|k: int| 0 <= k < it.index() ==> 0x21 <= (#[trigger] text@[k]) as u32 <= 0x7e,
    {
        let code: u32 = c as u32;
        if code < 0x21 || 0x7e < code {
            assert(!(0x21 <= text@[it.index() as int] as u32 <= 0x7e));
            return false;
        }
    }
    true
}

/// A file size as a JSON-safe integer.
pub fn json_safe_i64(value: i64) -> (r: Result<u64, ToolError>)
    ensures
        r == (if value < 0 {
            Err::<u64, ToolError>(ToolError::Upstream)
        } else if value > JSON_SAFE_INTEGER_MAX {
            Err(ToolError::BoundedResult)
        } else {
            Ok(value as u64)
        }),
{
    if value < 0 {
        return Err(ToolError::upstream());
    }
    if value as u64 > JSON_SAFE_INTEGER_MAX {
        Err(ToolError::bounded_result())
    } else {
        Ok(value as u64)
    }
}

/// A count as a JSON-safe integer.
pub fn json_safe_usize(value: usize) -> (r: Result<u64, ToolError>)
    ensures
        r == (if value > JSON_SAFE_INTEGER_MAX {
            Err::<u64, ToolError>(ToolError::BoundedResult)
        } else {
            Ok(value as u64)
        }),
{
    if value as u64 > JSON_SAFE_INTEGER_MAX {
        Err(ToolError::bounded_result())
    } else {
        Ok(value as u64)
    }
}

/// Shows a file, once it is known whether its media type is one.
pub fn show_file(file: &FileContent, media_type: bool) -> (r: Result<BlockProjection, ToolError>)
    ensures
        match file_error(file.target_object_id@, file.mime@, file.size as int, media_type) {
            Some(error) => r == Err::<BlockProjection, ToolError>(error),
            None => r matches Ok(shown) && shown@ == BlockContent::File(*file)@,
        },
{
    if text_bytes(file.mime.as_str()) > MAX_MIME_BYTES {
        return Err(ToolError::bounded_result());
    }
    if !is_graphic(file.mime.as_str()) || !media_type || file.size < 0 {
        return Err(ToolError::upstream());
    }
    let target_object_id: EntityId = match EntityId::new(file.target_object_id.as_str()) {
        Ok(id) => id,
        Err(_) => {
            return Err(ToolError::upstream());
        },
    };
    let size: u64 = match json_safe_i64(file.size) {
        Ok(size) => size,
        Err(error) => {
            return Err(error);
        },
    };
    Ok(
        BlockProjection::File {
            target_object_id,
            file_kind: file.kind,
            mime: file.mime.clone(),
            size,
            state: file.state,
            style: file.style,
        },
    )
}

fn project_file(file: &FileContent) -> (r: Result<BlockProjection, ToolError>)
    ensures
        match r {
            Ok(shown) => content_error(BlockContent::File(*file)@) is None && shown@
                == BlockContent::File(*file)@,
            Err(error) => content_error(BlockContent::File(*file)@) == Some(error),
        },
{
    show_file(file, parses_as_media_type(file.mime.as_str()))
}

fn project_bookmark(bookmark: &BookmarkContent) -> (r: Result<BlockProjection, ToolError>)
    ensures
        match r {
            Ok(shown) => content_error(BlockContent::Bookmark(*bookmark)@) is None && shown@
                == BlockContent::Bookmark(*bookmark)@,
            Err(error) => content_error(BlockContent::Bookmark(*bookmark)@) == Some(error),
        },
{
    if validate_url(bookmark.url.as_str()).is_err() {
        return Err(ToolError::upstream());
    }
    let target_object_id: Option<EntityId> = match &bookmark.target_object_id {
        Some(target) => match EntityId::new(target.as_str()) {
            Ok(id) => Some(id),
            Err(_) => {
                return Err(ToolError::upstream());
            },
        },
        None => None,
    };
    Ok(
        BlockProjection::Bookmark {
            url: bookmark.url.clone(),
            target_object_id,
            state: bookmark.state,
        },
    )
}

fn project_link(link: &LinkContent) -> (r: Result<BlockProjection, ToolError>)
    ensures
        match r {
            Ok(shown) => content_error(BlockContent::Link(*link)@) is None && shown@
                == BlockContent::Link(*link)@,
            Err(error) => content_error(BlockContent::Link(*link)@) == Some(error),
        },
{
    let target_object_id: EntityId = match EntityId::new(link.target_object_id.as_str()) {
        Ok(id) => id,
        Err(_) => {
            return Err(ToolError::upstream());
        },
    };
    let relations: Vec<RelationKey> = match validate_relation_values(&link.relations, true) {
        Ok(relations) => relations,
        Err(error) => {
            return Err(error);
        },
    };
    Ok(
        BlockProjection::Link {
            target_object_id,
            card_style: link.card_style,
            icon_size: link.icon_size,
            description: link.description,
            relations,
        },
    )
}

fn project_opaque(opaque: &OpaqueContent) -> (r: Result<BlockProjection, ToolError>)
    ensures
        match r {
            Ok(shown) => content_error(BlockContent::Unsupported(*opaque)@) is None && shown@
                == BlockContent::Unsupported(*opaque)@,
            Err(error) => content_error(BlockContent::Unsupported(*opaque)@) == Some(error),
        },
{
    let opaque_kind: OpaqueKind = match OpaqueKind::new(opaque.kind.clone()) {
        Ok(kind) => kind,
        Err(_) => {
            return Err(ToolError::upstream());
        },
    };
    let child_count: u64 = match json_safe_usize(opaque.child_count) {
        Ok(count) => count,
        Err(error) => {
            return Err(error);
        },
    };
    let approx_bytes: u64 = match json_safe_usize(opaque.approx_bytes) {
        Ok(bytes) => bytes,
        Err(error) => {
            return Err(error);
        },
    };
    Ok(BlockProjection::Unsupported { opaque_kind, child_count, approx_bytes })
}

/// Shows the content of a fetched block unchanged, or says why it cannot be
/// shown.
pub fn project_content(content: &BlockContent) -> (r: Result<BlockProjection, ToolError>)
    ensures
        match r {
            Ok(shown) => content_error(content@) is None && shown@ == content@,
            Err(error) => content_error(content@) == Some(error),
        },
{
    match content {
        BlockContent::Text(text) => project_text(text),
        BlockContent::Layout(style) => Ok(BlockProjection::Layout { style: *style }),
        BlockContent::Divider(style) => Ok(BlockProjection::Divider { style: *style }),
        BlockContent::Bookmark(bookmark) => project_bookmark(bookmark),
        BlockContent::Link(link) => project_link(link),
        BlockContent::Relation(key) => match RelationKey::new(key.clone()) {
            Ok(key) => Ok(BlockProjection::Relation { key }),
            Err(_) => Err(ToolError::upstream()),
        },
        BlockContent::FeaturedRelations => Ok(BlockProjection::FeaturedRelations),
        BlockContent::Embed(embed) => Ok(
            BlockProjection::Embed { processor: embed.processor, source: embed.text.clone() },
        ),
        BlockContent::TableOfContents => Ok(BlockProjection::TableOfContents),
        BlockContent::Table => Ok(BlockProjection::Table),
        BlockContent::TableRow { is_header } => Ok(
            BlockProjection::TableRow { is_header: *is_header },
        ),
        BlockContent::TableColumn => Ok(BlockProjection::TableColumn),
        BlockContent::File(file) => project_file(file),
        BlockContent::Unsupported(opaque) => project_opaque(opaque),
        BlockContent::Unrecognized => Err(ToolError::upstream()),
    }
}

// ---------------------------------------------------------------------------
// Structure
// ---------------------------------------------------------------------------

/// First fetched block at or after `from` with this identifier.
pub open spec fn raw_find_from(blocks: Seq<RawBlockV>, id: Seq<char>, from: int) -> Option<int>
    decreases blocks.len() - from,
{
    if from >= blocks.len() {
        None
    } else if blocks[from].id == id {
        Some(from)
    } else {
        raw_find_from(blocks, id, from + 1)
    }
}

/// First fetched block with this identifier.
pub open spec fn raw_find(blocks: Seq<RawBlockV>, id: Seq<char>) -> Option<int> {
    raw_find_from(blocks, id, 0)
}

/// A found block is the first one under the identifier; none is found where none
/// has it.
pub proof fn raw_find_facts(blocks: Seq<RawBlockV>, id: Seq<char>, from: int)
    requires
        0 <= from,
    ensures
        match raw_find_from(blocks, id, from) {
            Some(i) => from <= i < blocks.len() && blocks[i].id == id && forall|j: int|
                from <= j < i ==> (#[trigger] blocks[j]).id != id,
            None => forall|j: int| from <= j < blocks.len() ==> (#[trigger] blocks[j]).id != id,
        },
    decreases blocks.len() - from,
{
    if from < blocks.len() && blocks[from].id != id {
        raw_find_facts(blocks, id, from + 1);
    }
}

impl BodySnapshot {
    /// Position of a block in the body.
    pub fn position(&self, id: &String) -> (r: Option<usize>)
        ensures
            match r {
                Some(i) => raw_find(self@.blocks, id@) == Some(i as int) && i < self.blocks.len(),
                None => raw_find(self@.blocks, id@) is None,
            },
    {
        let ghost list = self@.blocks;
        let mut i: usize = 0;
        while i < self.blocks.len()
            invariant
                i <= self.blocks.len(),
                list == self@.blocks,
                raw_find(list, id@) == raw_find_from(list, id@, i as int),
            decreases self.blocks.len() - i,
        {
            assert(list[i as int].id == self.blocks@[i as int].id@);
            if self.blocks[i].id == *id {
                return Some(i);
            }
            i += 1;
        }
        None
    }
}

/// A row or a column, which is what a table's size is counted in.
pub open spec fn fanout_unit(content: ContentV, rows: bool) -> int {
    match content {
        ContentV::TableRow { .. } => if rows {
            1
        } else {
            0
        },
        ContentV::TableColumn => if rows {
            0
        } else {
            1
        },
        _ => 0,
    }
}

/// Rows (or columns) among the first `n` of some children.
pub open spec fn fanout(
    blocks: Seq<RawBlockV>,
    children: Seq<Seq<char>>,
    n: int,
    rows: bool,
) -> int
    decreases n,
{
    if n <= 0 {
        0
    } else {
        fanout(blocks, children, n - 1, rows) + fanout_unit(
            blocks[raw_find(blocks, children[n - 1])->0].content,
            rows,
        )
    }
}

/// Why a block's children are not acceptable: one is not listed, or the rows
/// and columns among them span too many cells.
pub open spec fn fanout_error(blocks: Seq<RawBlockV>, children: Seq<Seq<char>>) -> Option<
    ToolError,
> {
    let n = children.len() as int;
    if exists|k: int| 0 <= k < n && raw_find(blocks, #[trigger] children[k]) is None {
        Some(ToolError::Upstream)
    } else if fanout(blocks, children, n, true) * fanout(blocks, children, n, false)
        > MAX_TABLE_CELLS {
        Some(ToolError::BoundedResult)
    } else {
        None
    }
}

/// Checks that a block's children are listed and span no oversized table.
pub fn validate_table_fanout(snapshot: &BodySnapshot, block: &BodyBlock) -> (r: Result<
    (),
    ToolError,
>)
    ensures
        match r {
            Ok(()) => fanout_error(snapshot@.blocks, block@.children) is None,
            Err(error) => fanout_error(snapshot@.blocks, block@.children) == Some(error),
        },
{
    let ghost blocks = snapshot@.blocks;
    let ghost children = block@.children;
    let mut rows: usize = 0;
    let mut columns: usize = 0;
    let mut i: usize = 0;
    while i < block.children.len()
        invariant
            i <= block.children.len(),
            blocks == snapshot@.blocks,
            children == block@.children,
            children.len() == block.children.len(),
            rows <= i,
            columns <= i,
            rows == fanout(blocks, children, i as int, true),
            columns == fanout(blocks, children, i as int, false),
            forall|k: int| 0 <= k < i ==> raw_find(blocks, #[trigger] children[k]) is Some,
        decreases block.children.len() - i,
    {
        assert(children[i as int] == block.children@[i as int]@);
        let child: usize = match snapshot.position(&block.children[i]) {
            Some(child) => child,
            None => {
                assert(raw_find(blocks, children[i as int]) is None);
                return Err(ToolError::upstream());
            },
        };
        assert(blocks[child as int].content == snapshot.blocks@[child as int].content@);
        match &snapshot.blocks[child].content {
            BlockContent::TableRow { .. } => {
                rows += 1;
            },
            BlockContent::TableColumn => {
                columns += 1;
            },
            _ => {},
        }
        i += 1;
    }
    if rows > 0 && columns > MAX_TABLE_CELLS / rows {
        assert(rows * columns > MAX_TABLE_CELLS) by (nonlinear_arith)
            requires
                rows > 0,
                columns > MAX_TABLE_CELLS as int / rows as int,
        ;
        Err(ToolError::bounded_result())
    } else {
        assert(rows * columns <= MAX_TABLE_CELLS) by (nonlinear_arith)
            requires
                rows == 0 || columns <= MAX_TABLE_CELLS as int / rows as int,
                rows >= 0,
        ;
        Ok(())
    }
}

/// Last place among the first `n` children of block `p` that names `id`.
pub open spec fn last_slot(children: Seq<Seq<char>>, id: Seq<char>, n: int) -> Option<int>
    decreases n,
{
    if n <= 0 {
        None
    } else if children[n - 1] == id {
        Some(n - 1)
    } else {
        last_slot(children, id, n - 1)
    }
}

/// Last parent among the first `n` blocks that names `id` as a child, with the
/// child's slot.
pub open spec fn last_parent(blocks: Seq<RawBlockV>, id: Seq<char>, n: int) -> Option<(int, int)>
    decreases n,
{
    if n <= 0 {
        None
    } else {
        match last_slot(blocks[n - 1].children, id, blocks[n - 1].children.len() as int) {
            Some(slot) => Some((n - 1, slot)),
            None => last_parent(blocks, id, n - 1),
        }
    }
}

/// Parent of a block, with the block's slot.
pub open spec fn parent_of(blocks: Seq<RawBlockV>, id: Seq<char>) -> Option<(int, int)> {
    last_parent(blocks, id, blocks.len() as int)
}

proof fn last_slot_bounds(children: Seq<Seq<char>>, id: Seq<char>, n: int)
    requires
        n <= children.len(),
    ensures
        last_slot(children, id, n) matches Some(k) ==> 0 <= k < n && children[k] == id,
    decreases n,
{
    if n > 0 && children[n - 1] != id {
        last_slot_bounds(children, id, n - 1);
    }
}

/// A parent is a listed block that names the child at the slot.
pub proof fn last_parent_facts(blocks: Seq<RawBlockV>, id: Seq<char>, n: int)
    requires
        n <= blocks.len(),
    ensures
        last_parent(blocks, id, n) matches Some((p, k)) ==> 0 <= p < n && 0 <= k
            < blocks[p].children.len() && blocks[p].children[k] == id,
    decreases n,
{
    if n > 0 {
        last_slot_bounds(blocks[n - 1].children, id, blocks[n - 1].children.len() as int);
        if last_slot(blocks[n - 1].children, id, blocks[n - 1].children.len() as int) is None {
            last_parent_facts(blocks, id, n - 1);
        }
    }
}

fn find_last_slot(children: &Vec<String>, id: &String) -> (r: Option<usize>)
    ensures
        match r {
            Some(k) => last_slot(views(children@), id@, children.len() as int) == Some(k as int)
                && k < children.len(),
            None => last_slot(views(children@), id@, children.len() as int) is None,
        },
{
    let ghost list = views(children@);
    let mut n: usize = children.len();
    while n > 0
        invariant
            n <= children.len(),
            list == views(children@),
            last_slot(list, id@, children.len() as int) == last_slot(list, id@, n as int),
        decreases n,
    {
        n -= 1;
        assert(list[n as int] == children@[n as int]@);
        if children[n] == *id {
            return Some(n);
        }
    }
    None
}

impl BodySnapshot {
    /// Parent of a block and its slot below the parent.
    pub fn parent(&self, id: &String) -> (r: Option<(usize, usize)>)
        ensures
            match r {
                Some((p, k)) => parent_of(self@.blocks, id@) == Some((p as int, k as int)) && p
                    < self.blocks.len(),
                None => parent_of(self@.blocks, id@) is None,
            },
    {
        let ghost list = self@.blocks;
        let mut n: usize = self.blocks.len();
        while n > 0
            invariant
                n <= self.blocks.len(),
                list == self@.blocks,
                parent_of(list, id@) == last_parent(list, id@, n as int),
            decreases n,
        {
            n -= 1;
            assert(list[n as int].children == views(self.blocks@[n as int].children@));
            if let Some(slot) = find_last_slot(&self.blocks[n].children, id) {
                return Some((n, slot));
            }
        }
        None
    }
}

/// Depth recorded for an identifier once the first `n` blocks are placed.
pub open spec fn recorded_depth(raw: RawV, id: Seq<char>, n: int) -> Option<int>
    decreases n, 0int,
{
    if n <= 0 {
        if id == raw.root_id {
            Some(0)
        } else {
            None
        }
    } else if raw.blocks[n - 1].id == id {
        depth_at(raw, n - 1)
    } else {
        recorded_depth(raw, id, n - 1)
    }
}

/// Depth of block `i`: zero for the root, else one below the parent, which has
/// to stand earlier.
pub open spec fn depth_at(raw: RawV, i: int) -> Option<int>
    decreases i, 1int,
{
    if raw.blocks[i].id == raw.root_id {
        Some(0)
    } else {
        match parent_of(raw.blocks, raw.blocks[i].id) {
            Some((p, slot)) => match recorded_depth(raw, raw.blocks[p].id, i) {
                Some(depth) => Some(depth + 1),
                None => None,
            },
            None => None,
        }
    }
}

/// Text bytes of the first `n` blocks.
pub open spec fn text_total(blocks: Seq<RawBlockV>, n: int) -> int
    decreases n,
{
    if n <= 0 {
        0
    } else {
        text_total(blocks, n - 1) + content_text_bytes(blocks[n - 1].content)
    }
}

/// Marks of the first `n` blocks.
pub open spec fn mark_total(blocks: Seq<RawBlockV>, n: int) -> int
    decreases n,
{
    if n <= 0 {
        0
    } else {
        mark_total(blocks, n - 1) + content_marks(blocks[n - 1].content)
    }
}

/// Why block `i` cannot be shown, if so.
pub open spec fn block_error(raw: RawV, i: int) -> Option<ToolError> {
    let block = raw.blocks[i];
    if depth_at(raw, i) is None || (block.id != raw.root_id && !valid_entity_id(
        raw.blocks[(parent_of(raw.blocks, block.id)->0).0].id,
    )) {
        Some(ToolError::Upstream)
    } else {
        match fanout_error(raw.blocks, block.children) {
            Some(error) => Some(error),
            None => if text_total(raw.blocks, i + 1) > usize::MAX || mark_total(raw.blocks, i + 1)
                > usize::MAX {
                Some(ToolError::BoundedResult)
            } else {
                match content_error(block.content) {
                    Some(error) => Some(error),
                    None => if !valid_entity_id(block.id) || (match block.background_color {
                        Some(color) => !valid_color(color),
                        None => false,
                    }) {
                        Some(ToolError::Upstream)
                    } else {
                        None
                    },
                }
            },
        }
    }
}

/// Block `i` as it is shown.
pub open spec fn shown_block(raw: RawV, i: int) -> SummaryV {
    let block = raw.blocks[i];
    let is_root = block.id == raw.root_id;
    let (p, slot) = parent_of(raw.blocks, block.id)->0;
    SummaryV {
        id: block.id,
        parent_id: if is_root {
            None
        } else {
            Some(raw.blocks[p].id)
        },
        sibling_index: if is_root {
            0
        } else {
            slot
        },
        depth: depth_at(raw, i)->0,
        child_count: block.children.len() as int,
        restrictions: block.restrictions,
        align: block.align,
        vertical_align: block.vertical_align,
        background_color: block.background_color,
        content: block.content,
    }
}

/// First failure among the blocks from `i` on.
pub open spec fn first_block_error(raw: RawV, i: int) -> Option<ToolError>
    decreases raw.blocks.len() - i,
{
    if i >= raw.blocks.len() {
        None
    } else {
        match block_error(raw, i) {
            Some(error) => Some(error),
            None => first_block_error(raw, i + 1),
        }
    }
}

/// No block may be unreadable.
pub open spec fn readable(blocks: Seq<RawBlockV>) -> bool {
    forall|i: int| 0 <= i < blocks.len() ==> !(#[trigger] blocks[i]).restrictions.read
}

/// Why a fetched body cannot be shown, if so. The whole body is refused: no
/// part of it is shown.
pub open spec fn snapshot_error(raw: RawV) -> Option<ToolError> {
    let n = raw.blocks.len() as int;
    if n > MAX_BODY_BLOCKS {
        Some(ToolError::BoundedResult)
    } else if !valid_entity_id(raw.space_id) || !valid_entity_id(raw.object_id)
        || !valid_entity_id(raw.root_id) || !readable(raw.blocks) {
        Some(ToolError::Upstream)
    } else {
        match first_block_error(raw, 0) {
            Some(error) => Some(error),
            None => if text_total(raw.blocks, n) > MAX_AGGREGATE_TEXT_BYTES || mark_total(
                raw.blocks,
                n,
            ) > MAX_AGGREGATE_MARKS {
                Some(ToolError::BoundedResult)
            } else {
                None
            },
        }
    }
}

/// The blocks of a body as they are shown.
pub open spec fn shown_blocks(raw: RawV) -> Seq<SummaryV> {
    Seq::new(raw.blocks.len(), |i: int| shown_block(raw, i))
}

/// Tests that every block may be read.
pub fn read_access_allowed(snapshot: &BodySnapshot) -> (r: bool)
    ensures
        r == readable(snapshot@.blocks),
{
    let ghost list = snapshot@.blocks;
    let mut i: usize = 0;
    while i < snapshot.blocks.len()
        invariant
            i <= snapshot.blocks.len(),
            list == snapshot@.blocks,
            forall|k: int| 0 <= k < i ==> !(#[trigger] list[k]).restrictions.read,
        decreases snapshot.blocks.len() - i,
    {
        assert(list[i as int].restrictions == snapshot.blocks@[i as int].restrictions);
        if snapshot.blocks[i].restrictions.read {
            return false;
        }
        i += 1;
    }
    true
}

/// Refuses a body of which some block may not be read.
pub fn require_read_access(snapshot: &BodySnapshot) -> (r: Result<(), ToolError>)
    ensures
        r == (if readable(snapshot@.blocks) {
            Ok::<(), ToolError>(())
        } else {
            Err(ToolError::Upstream)
        }),
{
    if read_access_allowed(snapshot) {
        Ok(())
    } else {
        Err(ToolError::upstream())
    }
}

/// Bytes of text and number of marks of content.
fn content_weight(content: &BlockContent) -> (r: (usize, usize))
    ensures
        r.0 == content_text_bytes(content@),
        r.1 == content_marks(content@),
{
    match content {
        BlockContent::Text(text) => {
            assert(views(text.marks@).len() == text.marks.len());
            (text_bytes(text.text.as_str()), text.marks.len())
        },
        BlockContent::Embed(embed) => (text_bytes(embed.text.as_str()), 0),
        _ => (0, 0),
    }
}

/// Depth recorded for an identifier once the blocks before `n` are placed.
fn find_recorded_depth(snapshot: &BodySnapshot, depths: &Vec<u64>, id: &String) -> (r: Option<u64>)
    requires
        depths.len() <= snapshot.blocks.len(),
        forall|j: int|
            0 <= j < depths.len() ==> depth_at(snapshot@, j) == Some(#[trigger] depths@[j] as int),
        forall|j: int| 0 <= j < depths.len() ==> (#[trigger] depths@[j]) <= j + 1,
    ensures
        match r {
            Some(depth) => recorded_depth(snapshot@, id@, depths.len() as int) == Some(depth as int)
                && depth <= depths.len(),
            None => recorded_depth(snapshot@, id@, depths.len() as int) is None,
        },
{
    let ghost raw = snapshot@;
    let mut n: usize = depths.len();
    while n > 0
        invariant
            n <= depths.len(),
            depths.len() <= snapshot.blocks.len(),
            raw == snapshot@,
            recorded_depth(raw, id@, depths.len() as int) == recorded_depth(raw, id@, n as int),
            forall|j: int|
                0 <= j < depths.len() ==> depth_at(raw, j) == Some(#[trigger] depths@[j] as int),
            forall|j: int| 0 <= j < depths.len() ==> (#[trigger] depths@[j]) <= j + 1,
        decreases n,
    {
        n -= 1;
        assert(raw.blocks[n as int].id == snapshot.blocks@[n as int].id@);
        assert(depth_at(raw, n as int) == Some(depths@[n as int] as int));
        if snapshot.blocks[n].id == *id {
            return Some(depths[n]);
        }
    }
    if *id == snapshot.root_id {
        Some(0)
    } else {
        None
    }
}

/// Place of a block: its parent, its slot and its depth.
struct Place {
    parent_id: Option<EntityId>,
    sibling_index: u64,
    depth: u64,
}

fn place_block(snapshot: &BodySnapshot, depths: &Vec<u64>) -> (r: Option<Place>)
    requires
        depths.len() < snapshot.blocks.len(),
        forall|j: int|
            0 <= j < depths.len() ==> depth_at(snapshot@, j) == Some(#[trigger] depths@[j] as int),
        forall|j: int| 0 <= j < depths.len() ==> (#[trigger] depths@[j]) <= j + 1,
    ensures
        ({
            let i = depths.len() as int;
            let shown = shown_block(snapshot@, i);
            match r {
                Some(place) => {
                    &&& depth_at(snapshot@, i) == Some(place.depth as int)
                    &&& place.depth <= i + 1
                    &&& opt_view(place.parent_id) == shown.parent_id
                    &&& place.sibling_index == shown.sibling_index
                    &&& snapshot@.blocks[i].id != snapshot@.root_id ==> valid_entity_id(
                        snapshot@.blocks[(parent_of(
                            snapshot@.blocks,
                            snapshot@.blocks[i].id,
                        )->0).0].id,
                    )
                },
                None => depth_at(snapshot@, i) is None || (snapshot@.blocks[i].id
                    != snapshot@.root_id && !valid_entity_id(
                    snapshot@.blocks[(parent_of(
                        snapshot@.blocks,
                        snapshot@.blocks[i].id,
                    )->0).0].id,
                )),
            }
        }),
{
    let i: usize = depths.len();
    let ghost raw = snapshot@;
    assert(raw.blocks[i as int] == snapshot.blocks@[i as int]@);
    let block: &BodyBlock = &snapshot.blocks[i];
    if block.id == snapshot.root_id {
        return Some(Place { parent_id: None, sibling_index: 0, depth: 0 });
    }
    let (p, slot): (usize, usize) = match snapshot.parent(&block.id) {
        Some(found) => found,
        None => {
            return None;
        },
    };
    assert(raw.blocks[p as int] == snapshot.blocks@[p as int]@);
    let parent_depth: u64 = match find_recorded_depth(snapshot, depths, &snapshot.blocks[p].id) {
        Some(depth) => depth,
        None => {
            return None;
        },
    };
    let parent_id: EntityId = match EntityId::new(snapshot.blocks[p].id.as_str()) {
        Ok(id) => id,
        Err(_) => {
            return None;
        },
    };
    Some(Place { parent_id: Some(parent_id), sibling_index: slot as u64, depth: parent_depth + 1 })
}

/// Shows the block after those whose depths are given, with its depth.
fn project_block(
    snapshot: &BodySnapshot,
    depths: &Vec<u64>,
    text_before: usize,
    marks_before: usize,
) -> (r: Result<(BlockSummary, u64, usize, usize), ToolError>)
    requires
        depths.len() < snapshot.blocks.len(),
        forall|j: int|
            0 <= j < depths.len() ==> depth_at(snapshot@, j) == Some(#[trigger] depths@[j] as int),
        forall|j: int| 0 <= j < depths.len() ==> (#[trigger] depths@[j]) <= j + 1,
        text_before == text_total(snapshot@.blocks, depths.len() as int),
        marks_before == mark_total(snapshot@.blocks, depths.len() as int),
    ensures
        match r {
            Ok((shown, depth, text, marks)) => {
                &&& block_error(snapshot@, depths.len() as int) is None
                &&& shown@ == shown_block(snapshot@, depths.len() as int)
                &&& depth_at(snapshot@, depths.len() as int) == Some(depth as int)
                &&& depth <= depths.len() + 1
                &&& text == text_total(snapshot@.blocks, depths.len() + 1)
                &&& marks == mark_total(snapshot@.blocks, depths.len() + 1)
            },
            Err(error) => block_error(snapshot@, depths.len() as int) == Some(error),
        },
{
    let i: usize = depths.len();
    let ghost raw = snapshot@;
    assert(raw.blocks[i as int] == snapshot.blocks@[i as int]@);
    let block: &BodyBlock = &snapshot.blocks[i];
    let place: Place = match place_block(snapshot, depths) {
        Some(place) => place,
        None => {
            return Err(ToolError::upstream());
        },
    };
    if let Err(error) = validate_table_fanout(snapshot, block) {
        return Err(error);
    }
    let (added_text, added_marks): (usize, usize) = content_weight(&block.content);
    let text: usize = match text_before.checked_add(added_text) {
        Some(text) => text,
        None => {
            return Err(ToolError::bounded_result());
        },
    };
    let marks: usize = match marks_before.checked_add(added_marks) {
        Some(marks) => marks,
        None => {
            return Err(ToolError::bounded_result());
        },
    };
    let content: BlockProjection = match project_content(&block.content) {
        Ok(content) => content,
        Err(error) => {
            return Err(error);
        },
    };
    let id: EntityId = match EntityId::new(block.id.as_str()) {
        Ok(id) => id,
        Err(_) => {
            return Err(ToolError::upstream());
        },
    };
    let background_color: Option<ColorInput> = match project_color(&block.background_color) {
        Ok(color) => color,
        Err(error) => {
            return Err(error);
        },
    };
    assert(views(block.children@).len() == block.children.len());
    let shown = BlockSummary {
        id,
        parent_id: place.parent_id,
        sibling_index: place.sibling_index,
        depth: place.depth,
        child_count: block.children.len() as u64,
        restrictions: block.restrictions,
        align: block.align,
        vertical_align: block.vertical_align,
        background_color,
        content,
    };
    Ok((shown, place.depth, text, marks))
}

/// Shows a fetched body: every block at its place with its content unchanged,
/// under the hash that names the whole; or says why it cannot be shown.
pub fn project_snapshot(snapshot: &BodySnapshot) -> (r: Result<ProjectedSnapshot, ToolError>)
    ensures
        match r {
            Ok(shown) => {
                &&& snapshot_error(snapshot@) is None
                &&& shown@.space_id == snapshot@.space_id
                &&& shown@.object_id == snapshot@.object_id
                &&& shown@.root_id == snapshot@.root_id
                &&& shown@.items == shown_blocks(snapshot@)
                &&& shown@.hash == body_hash(
                    snapshot@.space_id,
                    snapshot@.object_id,
                    snapshot@.root_id,
                    shown_blocks(snapshot@),
                )
                &&& body_fits(shown@.items)
            },
            Err(error) => snapshot_error(snapshot@) == Some(error),
        },
{
    let ghost raw = snapshot@;
    assert(raw.blocks.len() == snapshot.blocks.len());
    if snapshot.blocks.len() > MAX_BODY_BLOCKS {
        return Err(ToolError::bounded_result());
    }
    let space_id: EntityId = match EntityId::new(snapshot.space_id.as_str()) {
        Ok(id) => id,
        Err(_) => {
            return Err(ToolError::upstream());
        },
    };
    let object_id: EntityId = match EntityId::new(snapshot.object_id.as_str()) {
        Ok(id) => id,
        Err(_) => {
            return Err(ToolError::upstream());
        },
    };
    let root_id: EntityId = match EntityId::new(snapshot.root_id.as_str()) {
        Ok(id) => id,
        Err(_) => {
            return Err(ToolError::upstream());
        },
    };
    if let Err(error) = require_read_access(snapshot) {
        return Err(error);
    }
    let mut depths: Vec<u64> = Vec::new();
    let mut items: Vec<BlockSummary> = Vec::new();
    let mut aggregate_text: usize = 0;
    let mut aggregate_marks: usize = 0;
    while depths.len() < snapshot.blocks.len()
        invariant
            raw == snapshot@,
            raw.blocks.len() == snapshot.blocks.len(),
            depths.len() <= snapshot.blocks.len(),
            depths.len() == items.len(),
            raw.blocks.len() <= MAX_BODY_BLOCKS,
            valid_entity_id(raw.space_id),
            valid_entity_id(raw.object_id),
            valid_entity_id(raw.root_id),
            readable(raw.blocks),
            forall|j: int|
                0 <= j < depths.len() ==> depth_at(raw, j) == Some(#[trigger] depths@[j] as int),
            forall|j: int| 0 <= j < depths.len() ==> (#[trigger] depths@[j]) <= j + 1,
            aggregate_text == text_total(raw.blocks, depths.len() as int),
            aggregate_marks == mark_total(raw.blocks, depths.len() as int),
            views(items@) =~= shown_blocks(raw).subrange(0, depths.len() as int),
            first_block_error(raw, 0) == first_block_error(raw, depths.len() as int),
        decreases snapshot.blocks.len() - depths.len(),
    {
        match project_block(snapshot, &depths, aggregate_text, aggregate_marks) {
            Ok((shown, depth, text, marks)) => {
                let ghost before = items@;
                items.push(shown);
                depths.push(depth);
                aggregate_text = text;
                aggregate_marks = marks;
                assert(views(items@) =~= views(before).push(shown@));
            },
            Err(error) => {
                return Err(error);
            },
        }
    }
    if aggregate_text > MAX_AGGREGATE_TEXT_BYTES || aggregate_marks > MAX_AGGREGATE_MARKS {
        return Err(ToolError::bounded_result());
    }
    assert(shown_blocks(raw).subrange(0, raw.blocks.len() as int) =~= shown_blocks(raw));
    let hash = hash_projection(&space_id, &object_id, &root_id, &items);
    Ok(ProjectedSnapshot { space_id, object_id, root_id, hash, items })
}

} // verus!
