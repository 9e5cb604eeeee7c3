//! Closed inputs of the block workflows.

use crate::domain::{ColorInput, EntityId, IdempotencyKey, LocalKey, RelationKey, SnapshotHash};
use crate::model::{WireIcon, WireMark};
use crate::wire::{
    WireDividerStyle, WireEmbedProcessor, WireHorizontalAlign, WireInsertPosition,
    WireLinkCardStyle, WireLinkDescription, WireLinkIconSize, WireVerticalAlign, WritableTextStyle,
};
use vstd::prelude::*;

verus! {

/// How a new block is placed and colored; an absent field keeps the default.
#[derive(Clone, Debug, PartialEq, Eq)]
pub struct Presentation {
    pub horizontal_align: Option<WireHorizontalAlign>,
    pub vertical_align: Option<WireVerticalAlign>,
    pub background_color: Option<ColorInput>,
}

/// A block that a caller asks to create.
#[derive(Clone, Debug, PartialEq, Eq)]
pub enum NewBlockInput {
    Text {
        style: WritableTextStyle,
        text: String,
        checked: Option<bool>,
        marks: Vec<WireMark>,
        text_color: Option<ColorInput>,
        icon: Option<WireIcon>,
        presentation: Presentation,
    },
    Divider { style: WireDividerStyle, presentation: Presentation },
    Link {
        target_object_id: EntityId,
        card_style: WireLinkCardStyle,
        icon_size: WireLinkIconSize,
        description: WireLinkDescription,
        relations: Vec<RelationKey>,
        presentation: Presentation,
    },
    Relation { key: RelationKey, presentation: Presentation },
    Embed { processor: WireEmbedProcessor, source: String, presentation: Presentation },
    Table { rows: u8, columns: u8, header_row: bool },
    TableOfContents { presentation: Presentation },
}

/// Presentation of a new block; a table has none.
pub open spec fn presentation_of(input: NewBlockInput) -> Option<Presentation> {
    match input {
        NewBlockInput::Text { presentation, .. } => Some(presentation),
        NewBlockInput::Divider { presentation, .. } => Some(presentation),
        NewBlockInput::Link { presentation, .. } => Some(presentation),
        NewBlockInput::Relation { presentation, .. } => Some(presentation),
        NewBlockInput::Embed { presentation, .. } => Some(presentation),
        NewBlockInput::Table { .. } => None,
        NewBlockInput::TableOfContents { presentation } => Some(presentation),
    }
}

/// Presentation of a new block, if its kind has one.
pub fn presentation(input: &NewBlockInput) -> (r: Option<&Presentation>)
    ensures
        match r {
            Some(found) => presentation_of(*input) == Some(*found),
            None => presentation_of(*input) is None,
        },
{
    match input {
        NewBlockInput::Text { presentation, .. } => Some(presentation),
        NewBlockInput::Divider { presentation, .. } => Some(presentation),
        NewBlockInput::Link { presentation, .. } => Some(presentation),
        NewBlockInput::Relation { presentation, .. } => Some(presentation),
        NewBlockInput::Embed { presentation, .. } => Some(presentation),
        NewBlockInput::Table { .. } => None,
        NewBlockInput::TableOfContents { presentation } => Some(presentation),
    }
}

/// Requested horizontal alignment.
pub open spec fn requested_horizontal(input: NewBlockInput) -> Option<WireHorizontalAlign> {
    match presentation_of(input) {
        Some(found) => found.horizontal_align,
        None => None,
    }
}

/// Requested vertical alignment.
pub open spec fn requested_vertical(input: NewBlockInput) -> Option<WireVerticalAlign> {
    match presentation_of(input) {
        Some(found) => found.vertical_align,
        None => None,
    }
}

/// Requested background color.
pub open spec fn requested_background(input: NewBlockInput) -> Option<ColorInput> {
    match presentation_of(input) {
        Some(found) => found.background_color,
        None => None,
    }
}

/// Requested horizontal alignment.
pub fn presentation_horizontal(input: &NewBlockInput) -> (r: Option<WireHorizontalAlign>)
    ensures
        r == requested_horizontal(*input),
{
    match presentation(input) {
        Some(found) => found.horizontal_align,
        None => None,
    }
}

/// Requested vertical alignment.
pub fn presentation_vertical(input: &NewBlockInput) -> (r: Option<WireVerticalAlign>)
    ensures
        r == requested_vertical(*input),
{
    match presentation(input) {
        Some(found) => found.vertical_align,
        None => None,
    }
}

/// Requested background color.
pub fn presentation_background(input: &NewBlockInput) -> (r: Option<&ColorInput>)
    ensures
        match r {
            Some(found) => requested_background(*input) == Some(*found),
            None => requested_background(*input) is None,
        },
{
    match presentation(input) {
        Some(found) => match &found.background_color {
            Some(color) => Some(color),
            None => None,
        },
        None => None,
    }
}

/// One change of one block.
#[derive(Clone, Debug, PartialEq, Eq)]
pub enum BlockChangeInput {
    SetText { text: String, marks: Vec<WireMark> },
    SetTextStyle { style: WritableTextStyle },
    SetChecked { checked: bool },
    SetTextColor { color: ColorInput },
    ClearTextColor,
    SetCalloutIcon { icon: WireIcon },
    ClearCalloutIcon,
    SetDividerStyle { style: WireDividerStyle },
    SetBackgroundColor { color: ColorInput },
    ClearBackgroundColor,
    SetHorizontalAlign { align: WireHorizontalAlign },
    SetVerticalAlign { align: WireVerticalAlign },
    SetEmbedSource { source: String },
    SetLinkAppearance {
        card_style: WireLinkCardStyle,
        icon_size: WireLinkIconSize,
        description: WireLinkDescription,
        relations: Vec<RelationKey>,
    },
}

/// Input of a block creation.
#[derive(Clone, Debug)]
pub struct BodyBlockCreateInput {
    pub space: String,
    pub object_id: EntityId,
    pub expected_snapshot_hash: SnapshotHash,
    pub target_block_id: EntityId,
    pub position: WireInsertPosition,
    pub block: NewBlockInput,
    pub idempotency_key: IdempotencyKey,
}

/// Input of a block update.
#[derive(Clone, Debug)]
pub struct BodyBlockUpdateInput {
    pub space: String,
    pub object_id: EntityId,
    pub expected_snapshot_hash: SnapshotHash,
    pub block_id: EntityId,
    pub change: BlockChangeInput,
}

/// Literal that confirms the deletion of a subtree.
#[derive(Clone, Copy, Debug, PartialEq, Eq, Structural)]
pub enum DeleteConfirmation {
    DeleteSubtree,
}

/// Input of a confirmed subtree deletion.
#[derive(Clone, Debug)]
pub struct BodyBlockDeleteInput {
    pub space: String,
    pub object_id: EntityId,
    pub expected_snapshot_hash: SnapshotHash,
    pub block_id: EntityId,
    pub expected_subtree_blocks: u16,
    pub confirm_delete: DeleteConfirmation,
}

/// Input of a move inside one object.
#[derive(Clone, Debug)]
pub struct BodyBlockMoveInput {
    pub space: String,
    pub object_id: EntityId,
    pub expected_snapshot_hash: SnapshotHash,
    pub block_id: EntityId,
    pub target_block_id: EntityId,
    pub position: WireInsertPosition,
}

/// One step of a rich page plan.
#[derive(Clone, Debug)]
pub struct RichPlanEntry {
    pub local_key: LocalKey,
    pub parent_key: Option<LocalKey>,
    pub block: NewBlockInput,
}

/// Input of a rich page creation.
#[derive(Clone, Debug)]
pub struct RichPageCreateInput {
    pub space: String,
    pub name: String,
    pub idempotency_key: IdempotencyKey,
    pub blocks: Vec<RichPlanEntry>,
}

} // verus!
