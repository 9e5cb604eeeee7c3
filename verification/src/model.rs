//! Projected blocks: the closed shape in which body blocks are shown, and their
//! mathematical views.

use crate::domain::{ColorInput, EntityId, OpaqueKind, RelationKey, SnapshotHash};
use crate::text::{
    duplicate_opt, duplicate_vec, opt_view, same_opt, same_vec, views, Same,
};
use crate::wire::{
    WireBookmarkState, WireDividerStyle, WireEmbedProcessor, WireFileKind, WireFileState,
    WireFileStyle, WireHorizontalAlign, WireLayoutStyle, WireLinkCardStyle, WireLinkDescription,
    WireLinkIconSize, WireTextStyle, WireVerticalAlign,
};
use vstd::prelude::*;

verus! {

/// Model of a callout icon.
#[verifier::ext_equal]
pub enum IconV {
    Emoji(Seq<char>),
    Image(Seq<char>),
}

/// Model of what a mark does.
#[verifier::ext_equal]
pub enum MarkKindV {
    Bold,
    Italic,
    Strikethrough,
    Underline,
    Code,
    Link(Seq<char>),
    TextColor(Seq<char>),
    BackgroundColor(Seq<char>),
    Mention(Seq<char>),
    Emoji(Seq<char>),
    Object(Seq<char>),
}

/// Model of a mark: a UTF-16 range and a kind.
#[verifier::ext_equal]
pub struct MarkV {
    pub start: u32,
    pub end: u32,
    pub kind: MarkKindV,
}

/// Model of block content. `Unrecognized` stands for content that has no
/// projection.
#[verifier::ext_equal]
pub enum ContentV {
    Text {
        text: Seq<char>,
        style: WireTextStyle,
        checked: bool,
        color: Option<Seq<char>>,
        icon: Option<IconV>,
        marks: Seq<MarkV>,
    },
    Layout { style: WireLayoutStyle },
    Divider { style: WireDividerStyle },
    Bookmark { url: Seq<char>, target: Option<Seq<char>>, state: WireBookmarkState },
    Link {
        target: Seq<char>,
        card_style: WireLinkCardStyle,
        icon_size: WireLinkIconSize,
        description: WireLinkDescription,
        relations: Seq<Seq<char>>,
    },
    Relation { key: Seq<char> },
    FeaturedRelations,
    Embed { processor: WireEmbedProcessor, source: Seq<char> },
    TableOfContents,
    Table,
    TableRow { is_header: bool },
    TableColumn,
    File {
        target: Seq<char>,
        file_kind: WireFileKind,
        mime: Seq<char>,
        size: int,
        state: WireFileState,
        style: WireFileStyle,
    },
    Unsupported { opaque_kind: Seq<char>, child_count: int, approx_bytes: int },
    Unrecognized,
}

/// Model of a projected block.
#[verifier::ext_equal]
pub struct SummaryV {
    pub id: Seq<char>,
    pub parent_id: Option<Seq<char>>,
    pub sibling_index: int,
    pub depth: int,
    pub child_count: int,
    pub restrictions: RestrictionsProjection,
    pub align: WireHorizontalAlign,
    pub vertical_align: WireVerticalAlign,
    pub background_color: Option<Seq<char>>,
    pub content: ContentV,
}

/// Model of a projected snapshot.
#[verifier::ext_equal]
pub struct SnapshotV {
    pub space_id: Seq<char>,
    pub object_id: Seq<char>,
    pub root_id: Seq<char>,
    pub hash: Seq<char>,
    pub items: Seq<SummaryV>,
}

/// Callout icon.
#[derive(Clone, Debug, PartialEq, Eq)]
pub enum WireIcon {
    Emoji { emoji: String },
    Image { object_id: EntityId },
}

impl View for WireIcon {
    type V = IconV;

    open spec fn view(&self) -> IconV {
        match self {
            WireIcon::Emoji { emoji } => IconV::Emoji(emoji@),
            WireIcon::Image { object_id } => IconV::Image(object_id@),
        }
    }
}

impl Same for WireIcon {
    fn same(&self, other: &Self) -> (r: bool) {
        match (self, other) {
            (WireIcon::Emoji { emoji: a }, WireIcon::Emoji { emoji: b }) => a.same(b),
            (WireIcon::Image { object_id: a }, WireIcon::Image { object_id: b }) => a.same(b),
            _ => false,
        }
    }

    fn duplicate(&self) -> (r: Self) {
        match self {
            WireIcon::Emoji { emoji } => WireIcon::Emoji { emoji: emoji.clone() },
            WireIcon::Image { object_id } => WireIcon::Image { object_id: object_id.clone() },
        }
    }
}

/// Mark on a range of a text, in UTF-16 code units.
#[derive(Clone, Debug, PartialEq, Eq)]
pub enum WireMark {
    Bold { start: u32, end: u32 },
    Italic { start: u32, end: u32 },
    Strikethrough { start: u32, end: u32 },
    Underline { start: u32, end: u32 },
    Code { start: u32, end: u32 },
    Link { start: u32, end: u32, url: String },
    TextColor { start: u32, end: u32, color: ColorInput },
    BackgroundColor { start: u32, end: u32, color: ColorInput },
    Mention { start: u32, end: u32, object_id: EntityId },
    Emoji { start: u32, end: u32, emoji: String },
    Object { start: u32, end: u32, object_id: EntityId },
}

impl View for WireMark {
    type V = MarkV;

    open spec fn view(&self) -> MarkV {
        match self {
            WireMark::Bold { start, end } => MarkV { start: *start, end: *end, kind: MarkKindV::Bold },
            WireMark::Italic { start, end } => MarkV { start: *start, end: *end, kind: MarkKindV::Italic },
            WireMark::Strikethrough { start, end } => MarkV { start: *start, end: *end, kind: MarkKindV::Strikethrough },
            WireMark::Underline { start, end } => MarkV { start: *start, end: *end, kind: MarkKindV::Underline },
            WireMark::Code { start, end } => MarkV { start: *start, end: *end, kind: MarkKindV::Code },
            WireMark::Link { start, end, url } => MarkV {
                start: *start,
                end: *end,
                kind: MarkKindV::Link(url@),
            },
            WireMark::TextColor { start, end, color } => MarkV {
                start: *start,
                end: *end,
                kind: MarkKindV::TextColor(color@),
            },
            WireMark::BackgroundColor { start, end, color } => MarkV {
                start: *start,
                end: *end,
                kind: MarkKindV::BackgroundColor(color@),
            },
            WireMark::Mention { start, end, object_id } => MarkV {
                start: *start,
                end: *end,
                kind: MarkKindV::Mention(object_id@),
            },
            WireMark::Emoji { start, end, emoji } => MarkV {
                start: *start,
                end: *end,
                kind: MarkKindV::Emoji(emoji@),
            },
            WireMark::Object { start, end, object_id } => MarkV {
                start: *start,
                end: *end,
                kind: MarkKindV::Object(object_id@),
            },
        }
    }
}

impl WireMark {
    /// Range that the mark covers.
    pub fn range(&self) -> (r: TextRange)
        ensures
            r.start == self@.start,
            r.end == self@.end,
    {
        match self {
            WireMark::Bold { start, end } => TextRange { start: *start, end: *end },
            WireMark::Italic { start, end } => TextRange { start: *start, end: *end },
            WireMark::Strikethrough { start, end } => TextRange { start: *start, end: *end },
            WireMark::Underline { start, end } => TextRange { start: *start, end: *end },
            WireMark::Code { start, end } => TextRange { start: *start, end: *end },
            WireMark::Link { start, end, .. } => TextRange { start: *start, end: *end },
            WireMark::TextColor { start, end, .. } => TextRange { start: *start, end: *end },
            WireMark::BackgroundColor { start, end, .. } => TextRange { start: *start, end: *end },
            WireMark::Mention { start, end, .. } => TextRange { start: *start, end: *end },
            WireMark::Emoji { start, end, .. } => TextRange { start: *start, end: *end },
            WireMark::Object { start, end, .. } => TextRange { start: *start, end: *end },
        }
    }
}

impl Same for WireMark {
    fn same(&self, other: &Self) -> (r: bool) {
        let left = self.range();
        let right = other.range();
        if left.start != right.start || left.end != right.end {
            return false;
        }
        match (self, other) {
            (WireMark::Bold { .. }, WireMark::Bold { .. }) => true,
            (WireMark::Italic { .. }, WireMark::Italic { .. }) => true,
            (WireMark::Strikethrough { .. }, WireMark::Strikethrough { .. }) => true,
            (WireMark::Underline { .. }, WireMark::Underline { .. }) => true,
            (WireMark::Code { .. }, WireMark::Code { .. }) => true,
            (WireMark::Link { url: a, .. }, WireMark::Link { url: b, .. }) => a.same(b),
            (WireMark::TextColor { color: a, .. }, WireMark::TextColor { color: b, .. }) => a.same(b),
            (WireMark::BackgroundColor { color: a, .. }, WireMark::BackgroundColor { color: b, .. }) => a.same(b),
            (WireMark::Mention { object_id: a, .. }, WireMark::Mention { object_id: b, .. }) => a.same(b),
            (WireMark::Emoji { emoji: a, .. }, WireMark::Emoji { emoji: b, .. }) => a.same(b),
            (WireMark::Object { object_id: a, .. }, WireMark::Object { object_id: b, .. }) => a.same(b),
            _ => false,
        }
    }

    fn duplicate(&self) -> (r: Self) {
        match self {
            WireMark::Bold { start, end } => WireMark::Bold { start: *start, end: *end },
            WireMark::Italic { start, end } => WireMark::Italic { start: *start, end: *end },
            WireMark::Strikethrough { start, end } => WireMark::Strikethrough { start: *start, end: *end },
            WireMark::Underline { start, end } => WireMark::Underline { start: *start, end: *end },
            WireMark::Code { start, end } => WireMark::Code { start: *start, end: *end },
            WireMark::Link { start, end, url } => WireMark::Link {
                start: *start,
                end: *end,
                url: url.clone(),
            },
            WireMark::TextColor { start, end, color } => WireMark::TextColor {
                start: *start,
                end: *end,
                color: color.clone(),
            },
            WireMark::BackgroundColor { start, end, color } => WireMark::BackgroundColor {
                start: *start,
                end: *end,
                color: color.clone(),
            },
            WireMark::Mention { start, end, object_id } => WireMark::Mention {
                start: *start,
                end: *end,
                object_id: object_id.clone(),
            },
            WireMark::Emoji { start, end, emoji } => WireMark::Emoji {
                start: *start,
                end: *end,
                emoji: emoji.clone(),
            },
            WireMark::Object { start, end, object_id } => WireMark::Object {
                start: *start,
                end: *end,
                object_id: object_id.clone(),
            },
        }
    }
}

/// Range of a text in UTF-16 code units.
#[derive(Clone, Copy, Debug, PartialEq, Eq, Structural)]
pub struct TextRange {
    pub start: u32,
    pub end: u32,
}

/// Closed projection of block content.
#[derive(Clone, Debug, PartialEq)]
pub enum BlockProjection {
    Text {
        text: String,
        style: WireTextStyle,
        checked: bool,
        color: Option<ColorInput>,
        icon: Option<WireIcon>,
        marks: Vec<WireMark>,
    },
    Layout { style: WireLayoutStyle },
    Divider { style: WireDividerStyle },
    Bookmark { url: String, target_object_id: Option<EntityId>, state: WireBookmarkState },
    Link {
        target_object_id: EntityId,
        card_style: WireLinkCardStyle,
        icon_size: WireLinkIconSize,
        description: WireLinkDescription,
        relations: Vec<RelationKey>,
    },
    Relation { key: RelationKey },
    FeaturedRelations,
    Embed { processor: WireEmbedProcessor, source: String },
    TableOfContents,
    Table,
    TableRow { is_header: bool },
    TableColumn,
    File {
        target_object_id: EntityId,
        file_kind: WireFileKind,
        mime: String,
        size: u64,
        state: WireFileState,
        style: WireFileStyle,
    },
    Unsupported { opaque_kind: OpaqueKind, child_count: u64, approx_bytes: u64 },
}

impl View for BlockProjection {
    type V = ContentV;

    open spec fn view(&self) -> ContentV {
        match self {
            BlockProjection::Text { text, style, checked, color, icon, marks } => ContentV::Text {
                text: text@,
                style: *style,
                checked: *checked,
                color: opt_view(*color),
                icon: opt_view(*icon),
                marks: views(marks@),
            },
            BlockProjection::Layout { style } => ContentV::Layout { style: *style },
            BlockProjection::Divider { style } => ContentV::Divider { style: *style },
            BlockProjection::Bookmark { url, target_object_id, state } => ContentV::Bookmark {
                url: url@,
                target: opt_view(*target_object_id),
                state: *state,
            },
            BlockProjection::Link {
                target_object_id,
                card_style,
                icon_size,
                description,
                relations,
            } => ContentV::Link {
                target: target_object_id@,
                card_style: *card_style,
                icon_size: *icon_size,
                description: *description,
                relations: views(relations@),
            },
            BlockProjection::Relation { key } => ContentV::Relation { key: key@ },
            BlockProjection::FeaturedRelations => ContentV::FeaturedRelations,
            BlockProjection::Embed { processor, source } => ContentV::Embed {
                processor: *processor,
                source: source@,
            },
            BlockProjection::TableOfContents => ContentV::TableOfContents,
            BlockProjection::Table => ContentV::Table,
            BlockProjection::TableRow { is_header } => ContentV::TableRow { is_header: *is_header },
            BlockProjection::TableColumn => ContentV::TableColumn,
            BlockProjection::File { target_object_id, file_kind, mime, size, state, style } =>
                ContentV::File {
                target: target_object_id@,
                file_kind: *file_kind,
                mime: mime@,
                size: *size as int,
                state: *state,
                style: *style,
            },
            BlockProjection::Unsupported { opaque_kind, child_count, approx_bytes } =>
                ContentV::Unsupported {
                opaque_kind: opaque_kind@,
                child_count: *child_count as int,
                approx_bytes: *approx_bytes as int,
            },
        }
    }
}

impl Same for BlockProjection {
    fn same(&self, other: &Self) -> (r: bool) {
        match (self, other) {
            (
                BlockProjection::Text {
                    text: t1,
                    style: s1,
                    checked: c1,
                    color: k1,
                    icon: i1,
                    marks: m1,
                },
                BlockProjection::Text {
                    text: t2,
                    style: s2,
                    checked: c2,
                    color: k2,
                    icon: i2,
                    marks: m2,
                },
            ) => t1.same(t2) && *s1 == *s2 && *c1 == *c2 && same_opt(k1, k2) && same_opt(i1, i2)
                && same_vec(m1, m2),
            (BlockProjection::Layout { style: a }, BlockProjection::Layout { style: b }) => *a
                == *b,
            (BlockProjection::Divider { style: a }, BlockProjection::Divider { style: b }) => *a
                == *b,
            (
                BlockProjection::Bookmark { url: u1, target_object_id: t1, state: s1 },
                BlockProjection::Bookmark { url: u2, target_object_id: t2, state: s2 },
            ) => u1.same(u2) && same_opt(t1, t2) && *s1 == *s2,
            (
                BlockProjection::Link {
                    target_object_id: t1,
                    card_style: c1,
                    icon_size: i1,
                    description: d1,
                    relations: r1,
                },
                BlockProjection::Link {
                    target_object_id: t2,
                    card_style: c2,
                    icon_size: i2,
                    description: d2,
                    relations: r2,
                },
            ) => t1.same(t2) && *c1 == *c2 && *i1 == *i2 && *d1 == *d2 && same_vec(r1, r2),
            (BlockProjection::Relation { key: a }, BlockProjection::Relation { key: b }) => a.same(
                b,
            ),
            (BlockProjection::FeaturedRelations, BlockProjection::FeaturedRelations) => true,
            (
                BlockProjection::Embed { processor: p1, source: s1 },
                BlockProjection::Embed { processor: p2, source: s2 },
            ) => *p1 == *p2 && s1.same(s2),
            (BlockProjection::TableOfContents, BlockProjection::TableOfContents) => true,
            (BlockProjection::Table, BlockProjection::Table) => true,
            (
                BlockProjection::TableRow { is_header: a },
                BlockProjection::TableRow { is_header: b },
            ) => *a == *b,
            (BlockProjection::TableColumn, BlockProjection::TableColumn) => true,
            (
                BlockProjection::File {
                    target_object_id: t1,
                    file_kind: k1,
                    mime: m1,
                    size: z1,
                    state: a1,
                    style: y1,
                },
                BlockProjection::File {
                    target_object_id: t2,
                    file_kind: k2,
                    mime: m2,
                    size: z2,
                    state: a2,
                    style: y2,
                },
            ) => t1.same(t2) && *k1 == *k2 && m1.same(m2) && *z1 == *z2 && *a1 == *a2 && *y1 == *y2,
            (
                BlockProjection::Unsupported { opaque_kind: k1, child_count: c1, approx_bytes: b1 },
                BlockProjection::Unsupported { opaque_kind: k2, child_count: c2, approx_bytes: b2 },
            ) => k1.same(k2) && *c1 == *c2 && *b1 == *b2,
            _ => false,
        }
    }

    fn duplicate(&self) -> (r: Self) {
        match self {
            BlockProjection::Text { text, style, checked, color, icon, marks } =>
                BlockProjection::Text {
                text: text.clone(),
                style: *style,
                checked: *checked,
                color: duplicate_opt(color),
                icon: duplicate_opt(icon),
                marks: duplicate_vec(marks),
            },
            BlockProjection::Layout { style } => BlockProjection::Layout { style: *style },
            BlockProjection::Divider { style } => BlockProjection::Divider { style: *style },
            BlockProjection::Bookmark { url, target_object_id, state } =>
                BlockProjection::Bookmark {
                url: url.clone(),
                target_object_id: duplicate_opt(target_object_id),
                state: *state,
            },
            BlockProjection::Link {
                target_object_id,
                card_style,
                icon_size,
                description,
                relations,
            } => BlockProjection::Link {
                target_object_id: target_object_id.clone(),
                card_style: *card_style,
                icon_size: *icon_size,
                description: *description,
                relations: duplicate_vec(relations),
            },
            BlockProjection::Relation { key } => BlockProjection::Relation { key: key.clone() },
            BlockProjection::FeaturedRelations => BlockProjection::FeaturedRelations,
            BlockProjection::Embed { processor, source } => BlockProjection::Embed {
                processor: *processor,
                source: source.clone(),
            },
            BlockProjection::TableOfContents => BlockProjection::TableOfContents,
            BlockProjection::Table => BlockProjection::Table,
            BlockProjection::TableRow { is_header } => BlockProjection::TableRow {
                is_header: *is_header,
            },
            BlockProjection::TableColumn => BlockProjection::TableColumn,
            BlockProjection::File { target_object_id, file_kind, mime, size, state, style } =>
                BlockProjection::File {
                target_object_id: target_object_id.clone(),
                file_kind: *file_kind,
                mime: mime.clone(),
                size: *size,
                state: *state,
                style: *style,
            },
            BlockProjection::Unsupported { opaque_kind, child_count, approx_bytes } =>
                BlockProjection::Unsupported {
                opaque_kind: opaque_kind.clone(),
                child_count: *child_count,
                approx_bytes: *approx_bytes,
            },
        }
    }
}

/// What may not be done with a block.
#[derive(Clone, Copy, Debug, PartialEq, Eq, Structural)]
pub struct RestrictionsProjection {
    pub read: bool,
    pub edit: bool,
    pub remove: bool,
    pub drag: bool,
    pub drop_on: bool,
}

/// One projected block with its place in the tree.
#[derive(Clone, Debug, PartialEq)]
pub struct BlockSummary {
    pub id: EntityId,
    pub parent_id: Option<EntityId>,
    pub sibling_index: u64,
    pub depth: u64,
    pub child_count: u64,
    pub restrictions: RestrictionsProjection,
    pub align: WireHorizontalAlign,
    pub vertical_align: WireVerticalAlign,
    pub background_color: Option<ColorInput>,
    pub content: BlockProjection,
}

impl View for BlockSummary {
    type V = SummaryV;

    open spec fn view(&self) -> SummaryV {
        SummaryV {
            id: self.id@,
            parent_id: opt_view(self.parent_id),
            sibling_index: self.sibling_index as int,
            depth: self.depth as int,
            child_count: self.child_count as int,
            restrictions: self.restrictions,
            align: self.align,
            vertical_align: self.vertical_align,
            background_color: opt_view(self.background_color),
            content: self.content@,
        }
    }
}

impl Same for BlockSummary {
    fn same(&self, other: &Self) -> (r: bool) {
        self.id.same(&other.id) && same_opt(&self.parent_id, &other.parent_id)
            && self.sibling_index == other.sibling_index && self.depth == other.depth
            && self.child_count == other.child_count && self.restrictions == other.restrictions
            && self.align == other.align && self.vertical_align == other.vertical_align && same_opt(
            &self.background_color,
            &other.background_color,
        ) && self.content.same(&other.content)
    }

    fn duplicate(&self) -> (r: Self) {
        BlockSummary {
            id: self.id.clone(),
            parent_id: duplicate_opt(&self.parent_id),
            sibling_index: self.sibling_index,
            depth: self.depth,
            child_count: self.child_count,
            restrictions: self.restrictions,
            align: self.align,
            vertical_align: self.vertical_align,
            background_color: duplicate_opt(&self.background_color),
            content: self.content.duplicate(),
        }
    }
}

/// A body in depth-first order, with the hash that names it.
#[derive(Clone, Debug)]
pub struct ProjectedSnapshot {
    pub space_id: EntityId,
    pub object_id: EntityId,
    pub root_id: EntityId,
    pub hash: SnapshotHash,
    pub items: Vec<BlockSummary>,
}

impl View for ProjectedSnapshot {
    type V = SnapshotV;

    open spec fn view(&self) -> SnapshotV {
        SnapshotV {
            space_id: self.space_id@,
            object_id: self.object_id@,
            root_id: self.root_id@,
            hash: self.hash@,
            items: views(self.items@),
        }
    }
}

} // verus!
