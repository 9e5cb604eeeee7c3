//! What a projected block is expected to look like after one change, and what
//! a new block is expected to look like once created.

use crate::error::ToolError;
use crate::input::{BlockChangeInput, NewBlockInput};
use crate::model::{BlockProjection, BlockSummary, ContentV, SummaryV};
use crate::text::{duplicate_opt, duplicate_vec, opt_view, views, Same};
use crate::wire::{writable_as_wire, WireEmbedProcessor, WireTextStyle};
use vstd::prelude::*;
use vstd::string::*;

verus! {

/// Address under which a video identifier is stored.
pub open spec fn youtube_url_text(source: Seq<char>) -> Seq<char> {
    "https://www.youtube.com/watch?v="@ + source
}

/// Address under which a video identifier is stored.
pub fn youtube_url(source: &str) -> (r: String)
    ensures
        r@ == youtube_url_text(source@),
{
    let mut url: String = "https://www.youtube.com/watch?v=".to_owned();
    url.append(source);
    url
}

/// Source that an embed holds once a caller has given `source`.
pub open spec fn stored_source(processor: WireEmbedProcessor, source: Seq<char>) -> Seq<char> {
    if processor == WireEmbedProcessor::Youtube {
        youtube_url_text(source)
    } else {
        source
    }
}

/// Source that an embed holds once a caller has given `source`.
pub fn embed_source(processor: WireEmbedProcessor, source: &String) -> (r: String)
    ensures
        r@ == stored_source(processor, source@),
{
    if processor == WireEmbedProcessor::Youtube {
        youtube_url(source.as_str())
    } else {
        source.clone()
    }
}

/// Content after a change that addresses content; `None` where the change does
/// not apply to this content.
pub open spec fn changed_content(content: ContentV, change: BlockChangeInput) -> Option<ContentV> {
    match (change, content) {
        (
            BlockChangeInput::SetText { text, marks },
            ContentV::Text { style, checked, color, icon, .. },
        ) => Some(
            ContentV::Text { text: text@, style, checked, color, icon, marks: views(marks@) },
        ),
        (
            BlockChangeInput::SetTextStyle { style },
            ContentV::Text { text, checked, color, icon, marks, .. },
        ) => Some(
            ContentV::Text {
                text,
                style: writable_as_wire(style),
                checked,
                color,
                icon,
                marks,
            },
        ),
        (
            BlockChangeInput::SetChecked { checked },
            ContentV::Text { text, style, color, icon, marks, .. },
        ) => if style == WireTextStyle::Checkbox {
            Some(ContentV::Text { text, style, checked, color, icon, marks })
        } else {
            None
        },
        (
            BlockChangeInput::SetTextColor { color },
            ContentV::Text { text, style, checked, icon, marks, .. },
        ) => Some(ContentV::Text { text, style, checked, color: Some(color@), icon, marks }),
        (
            BlockChangeInput::ClearTextColor,
            ContentV::Text { text, style, checked, icon, marks, .. },
        ) => Some(ContentV::Text { text, style, checked, color: None, icon, marks }),
        (
            BlockChangeInput::SetCalloutIcon { icon },
            ContentV::Text { text, style, checked, color, marks, .. },
        ) => if style == WireTextStyle::Callout {
            Some(ContentV::Text { text, style, checked, color, icon: Some(icon@), marks })
        } else {
            None
        },
        (
            BlockChangeInput::ClearCalloutIcon,
            ContentV::Text { text, style, checked, color, marks, .. },
        ) => if style == WireTextStyle::Callout {
            Some(ContentV::Text { text, style, checked, color, icon: None, marks })
        } else {
            None
        },
        (BlockChangeInput::SetDividerStyle { style }, ContentV::Divider { .. }) => Some(
            ContentV::Divider { style },
        ),
        (BlockChangeInput::SetEmbedSource { source }, ContentV::Embed { processor, .. }) => Some(
            ContentV::Embed { processor, source: stored_source(processor, source@) },
        ),
        (
            BlockChangeInput::SetLinkAppearance { card_style, icon_size, description, relations },
            ContentV::Link { target, .. },
        ) => Some(
            ContentV::Link {
                target,
                card_style,
                icon_size,
                description,
                relations: views(relations@),
            },
        ),
        _ => None,
    }
}

/// Block after a change; `None` where the change does not apply.
pub open spec fn changed_block(block: SummaryV, change: BlockChangeInput) -> Option<SummaryV> {
    match change {
        BlockChangeInput::SetBackgroundColor { color } => Some(
            SummaryV { background_color: Some(color@), ..block },
        ),
        BlockChangeInput::ClearBackgroundColor => Some(
            SummaryV { background_color: None, ..block },
        ),
        BlockChangeInput::SetHorizontalAlign { align } => Some(SummaryV { align, ..block }),
        BlockChangeInput::SetVerticalAlign { align } => Some(
            SummaryV { vertical_align: align, ..block },
        ),
        _ => match changed_content(block.content, change) {
            Some(content) => Some(SummaryV { content, ..block }),
            None => None,
        },
    }
}

/// Applies a change to a projected block. A change that does not apply is
/// refused and leaves the block as it was.
pub fn apply_projected_change(block: &mut BlockSummary, change: &BlockChangeInput) -> (r: Result<
    (),
    ToolError,
>)
    ensures
        match changed_block(old(block)@, *change) {
            Some(expected) => r is Ok && final(block)@ == expected,
            None => r == Err::<(), ToolError>(ToolError::Validation) && *final(block) == *old(
                block,
            ),
        },
{
    match change {
        BlockChangeInput::SetText { text, marks } => {
            if let BlockProjection::Text { text: current, marks: current_marks, .. } =
                &mut block.content {
                *current = text.clone();
                *current_marks = duplicate_vec(marks);
            } else {
                return Err(ToolError::validation());
            }
        },
        BlockChangeInput::SetTextStyle { style } => {
            if let BlockProjection::Text { style: current, .. } = &mut block.content {
                *current = style.as_wire();
            } else {
                return Err(ToolError::validation());
            }
        },
        BlockChangeInput::SetChecked { checked } => {
            if let BlockProjection::Text { style, checked: current, .. } = &mut block.content {
                if *style != WireTextStyle::Checkbox {
                    return Err(ToolError::validation());
                }
                *current = *checked;
            } else {
                return Err(ToolError::validation());
            }
        },
        BlockChangeInput::SetTextColor { color } => {
            if let BlockProjection::Text { color: current, .. } = &mut block.content {
                *current = Some(color.clone());
            } else {
                return Err(ToolError::validation());
            }
        },
        BlockChangeInput::ClearTextColor => {
            if let BlockProjection::Text { color, .. } = &mut block.content {
                *color = None;
            } else {
                return Err(ToolError::validation());
            }
        },
        BlockChangeInput::SetCalloutIcon { icon } => {
            if let BlockProjection::Text { style, icon: current, .. } = &mut block.content {
                if *style != WireTextStyle::Callout {
                    return Err(ToolError::validation());
                }
                *current = Some(icon.duplicate());
            } else {
                return Err(ToolError::validation());
            }
        },
        BlockChangeInput::ClearCalloutIcon => {
            if let BlockProjection::Text { style, icon, .. } = &mut block.content {
                if *style != WireTextStyle::Callout {
                    return Err(ToolError::validation());
                }
                *icon = None;
            } else {
                return Err(ToolError::validation());
            }
        },
        BlockChangeInput::SetDividerStyle { style } => {
            if let BlockProjection::Divider { style: current } = &mut block.content {
                *current = *style;
            } else {
                return Err(ToolError::validation());
            }
        },
        BlockChangeInput::SetBackgroundColor { color } => {
            block.background_color = Some(color.clone());
        },
        BlockChangeInput::ClearBackgroundColor => {
            block.background_color = None;
        },
        BlockChangeInput::SetHorizontalAlign { align } => {
            block.align = *align;
        },
        BlockChangeInput::SetVerticalAlign { align } => {
            block.vertical_align = *align;
        },
        BlockChangeInput::SetEmbedSource { source } => {
            if let BlockProjection::Embed { processor, source: current } = &mut block.content {
                *current = embed_source(*processor, source);
            } else {
                return Err(ToolError::validation());
            }
        },
        BlockChangeInput::SetLinkAppearance { card_style, icon_size, description, relations } => {
            if let BlockProjection::Link {
                card_style: current_card,
                icon_size: current_icon,
                description: current_description,
                relations: current_relations,
                ..
            } = &mut block.content {
                *current_card = *card_style;
                *current_icon = *icon_size;
                *current_description = *description;
                *current_relations = duplicate_vec(relations);
            } else {
                return Err(ToolError::validation());
            }
        },
    }
    Ok(())
}

/// Content that a new block shows once it exists.
pub open spec fn created_content(input: NewBlockInput) -> ContentV {
    match input {
        NewBlockInput::Text { style, text, checked, marks, text_color, icon, .. } =>
            ContentV::Text {
            text: text@,
            style: writable_as_wire(style),
            checked: checked == Some(true),
            color: opt_view(text_color),
            icon: opt_view(icon),
            marks: views(marks@),
        },
        NewBlockInput::Divider { style, .. } => ContentV::Divider { style },
        NewBlockInput::Link {
            target_object_id,
            card_style,
            icon_size,
            description,
            relations,
            ..
        } => ContentV::Link {
            target: target_object_id@,
            card_style,
            icon_size,
            description,
            relations: views(relations@),
        },
        NewBlockInput::Relation { key, .. } => ContentV::Relation { key: key@ },
        NewBlockInput::Embed { processor, source, .. } => ContentV::Embed {
            processor,
            source: stored_source(processor, source@),
        },
        NewBlockInput::Table { .. } => ContentV::Table,
        NewBlockInput::TableOfContents { .. } => ContentV::TableOfContents,
    }
}

/// Content that a new block shows once it exists.
pub fn intended_content(input: &NewBlockInput) -> (r: BlockProjection)
    ensures
        r@ == created_content(*input),
{
    match input {
        NewBlockInput::Text { style, text, checked, marks, text_color, icon, .. } => {
            let checked: bool = match checked {
                Some(value) => *value,
                None => false,
            };
            BlockProjection::Text {
                text: text.clone(),
                style: style.as_wire(),
                checked,
                color: duplicate_opt(text_color),
                icon: duplicate_opt(icon),
                marks: duplicate_vec(marks),
            }
        },
        NewBlockInput::Divider { style, .. } => BlockProjection::Divider { style: *style },
        NewBlockInput::Link {
            target_object_id,
            card_style,
            icon_size,
            description,
            relations,
            ..
        } => BlockProjection::Link {
            target_object_id: target_object_id.clone(),
            card_style: *card_style,
            icon_size: *icon_size,
            description: *description,
            relations: duplicate_vec(relations),
        },
        NewBlockInput::Relation { key, .. } => BlockProjection::Relation { key: key.clone() },
        NewBlockInput::Embed { processor, source, .. } => BlockProjection::Embed {
            processor: *processor,
            source: embed_source(*processor, source),
        },
        NewBlockInput::Table { .. } => BlockProjection::Table,
        NewBlockInput::TableOfContents { .. } => BlockProjection::TableOfContents,
    }
}

} // verus!
