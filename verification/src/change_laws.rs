//! What a change and a new block mean: which fields they set, that nothing else
//! changes, and that what is sent does what is expected.

use crate::change::{changed_block, stored_source};
use crate::compose::{
    block_accepted, block_variable, requested_block, requested_change, youtube_id, ChangeV, TableV,
    MAX_MUTATION_VARIABLE_BYTES, MAX_RICH_TABLE_CELLS, MAX_RICH_TABLE_COLUMNS, MAX_RICH_TABLE_ROWS,
};
use crate::creation::shows_request;
use crate::domain::{valid_color, valid_entity_id};
use crate::input::{BlockChangeInput, NewBlockInput, Presentation};
use crate::marks::{
    icon_valid, mark_accepted, mark_shown, utf16_offset, MAX_EMOJI_BYTES, MAX_MARKS_PER_TEXT,
    MAX_URL_BYTES,
};
use crate::model::{ContentV, IconV, MarkKindV, MarkV, SummaryV};
use crate::projection::{MAX_RELATIONS, MAX_TEXT_BYTES};
use crate::text::{byte_len, has_control, is_blank, is_control, opt_view, views};
use crate::wire::{
    text_style_label_text, writable_style_label_text, WireEmbedProcessor, WireHorizontalAlign,
    WireTextStyle, WireVerticalAlign, WritableTextStyle,
};
use vstd::prelude::*;

verus! {

// ---------------------------------------------------------------------------
// Changes
// ---------------------------------------------------------------------------

/// What the service makes of a block when a change is sent to it.
pub open spec fn after_sending(block: SummaryV, sent: ChangeV) -> SummaryV {
    match (sent, block.content) {
        (ChangeV::Background(background_color), _) => SummaryV { background_color, ..block },
        (ChangeV::HorizontalAlign(align), _) => SummaryV { align, ..block },
        (ChangeV::VerticalAlign(vertical_align), _) => SummaryV { vertical_align, ..block },
        (
            ChangeV::Text { text, marks },
            ContentV::Text { style, checked, color, icon, .. },
        ) => SummaryV {
            content: ContentV::Text { text, style, checked, color, icon, marks },
            ..block
        },
        (
            ChangeV::TextStyle(style),
            ContentV::Text { text, checked, color, icon, marks, .. },
        ) => SummaryV {
            content: ContentV::Text { text, style, checked, color, icon, marks },
            ..block
        },
        (ChangeV::Checked(checked), ContentV::Text { text, style, color, icon, marks, .. }) =>
            SummaryV {
            content: ContentV::Text { text, style, checked, color, icon, marks },
            ..block
        },
        (ChangeV::TextColor(color), ContentV::Text { text, style, checked, icon, marks, .. }) =>
            SummaryV {
            content: ContentV::Text { text, style, checked, color, icon, marks },
            ..block
        },
        (ChangeV::CalloutIcon(icon), ContentV::Text { text, style, checked, color, marks, .. }) =>
            SummaryV {
            content: ContentV::Text { text, style, checked, color, icon, marks },
            ..block
        },
        (ChangeV::DividerStyle(style), ContentV::Divider { .. }) => SummaryV {
            content: ContentV::Divider { style },
            ..block
        },
        (ChangeV::Embed { processor, text }, ContentV::Embed { .. }) => SummaryV {
            content: ContentV::Embed { processor, source: text },
            ..block
        },
        (
            ChangeV::LinkAppearance { card_style, icon_size, description, relations },
            ContentV::Link { target, .. },
        ) => SummaryV {
            content: ContentV::Link { target, card_style, icon_size, description, relations },
            ..block
        },
        _ => block,
    }
}

/// What is sent does what is expected: the change that goes out makes of the
/// block exactly what the verification afterwards looks for.
pub proof fn sent_change_does_what_is_expected(block: SummaryV, change: BlockChangeInput)
    ensures
        requested_change(change, block.content) matches Some(sent) ==> (changed_block(
            block,
            change,
        ) matches Some(expected) ==> after_sending(block, sent) == expected),
{
}

/// Everything but the content of a block is kept.
pub open spec fn only_content_differs(a: SummaryV, b: SummaryV) -> bool {
    &&& a.id == b.id
    &&& a.parent_id == b.parent_id
    &&& a.sibling_index == b.sibling_index
    &&& a.depth == b.depth
    &&& a.child_count == b.child_count
    &&& a.restrictions == b.restrictions
    &&& a.align == b.align
    &&& a.vertical_align == b.vertical_align
    &&& a.background_color == b.background_color
}

/// Everything but the presentation of a block is kept.
pub open spec fn only_presentation_differs(a: SummaryV, b: SummaryV) -> bool {
    &&& a.id == b.id
    &&& a.parent_id == b.parent_id
    &&& a.sibling_index == b.sibling_index
    &&& a.depth == b.depth
    &&& a.child_count == b.child_count
    &&& a.restrictions == b.restrictions
    &&& a.content == b.content
}

/// A change of the presentation applies to every block, sets what it names and
/// keeps the rest; a change of the content keeps everything but the content.
pub proof fn change_keeps_what_it_does_not_name(block: SummaryV, change: BlockChangeInput)
    ensures
        changed_block(block, change) matches Some(after) ==> match change {
            BlockChangeInput::SetBackgroundColor { color } => only_presentation_differs(
                block,
                after,
            ) && after.background_color == Some(color@) && after.align == block.align
                && after.vertical_align == block.vertical_align,
            BlockChangeInput::ClearBackgroundColor => only_presentation_differs(block, after)
                && after.background_color is None && after.align == block.align
                && after.vertical_align == block.vertical_align,
            BlockChangeInput::SetHorizontalAlign { align } => only_presentation_differs(
                block,
                after,
            ) && after.align == align && after.background_color == block.background_color
                && after.vertical_align == block.vertical_align,
            BlockChangeInput::SetVerticalAlign { align } => only_presentation_differs(block, after)
                && after.vertical_align == align && after.background_color
                == block.background_color && after.align == block.align,
            _ => only_content_differs(block, after),
        },
        change is SetBackgroundColor || change is ClearBackgroundColor
            || change is SetHorizontalAlign || change is SetVerticalAlign ==> changed_block(
            block,
            change,
        ) is Some,
{
}

/// A change of a text applies to every text and sets what it names: the text with
/// its marks, the style, or the color. A to-do is checked or unchecked, and an
/// icon is set or cleared, only where the style has one. The rest of the text is
/// kept.
pub proof fn text_change_sets_what_it_names(
    block: SummaryV,
    change: BlockChangeInput,
    text: Seq<char>,
    style: WireTextStyle,
    checked: bool,
    color: Option<Seq<char>>,
    icon: Option<IconV>,
    marks: Seq<MarkV>,
)
    requires
        block.content == (ContentV::Text { text, style, checked, color, icon, marks }),
    ensures
        match change {
            BlockChangeInput::SetText { text: wanted, marks: wanted_marks } => changed_block(
                block,
                change,
            ) matches Some(after) && after.content == (ContentV::Text {
                text: wanted@,
                style,
                checked,
                color,
                icon,
                marks: views(wanted_marks@),
            }),
            BlockChangeInput::SetTextStyle { style: wanted } => changed_block(
                block,
                change,
            ) matches Some(after) && (after.content matches ContentV::Text {
                text: t,
                style: s,
                checked: c,
                color: o,
                icon: i,
                marks: m,
            } && t == text && c == checked && o == color && i == icon && m == marks
                && text_style_label_text(s) == writable_style_label_text(wanted)),
            BlockChangeInput::SetChecked { checked: wanted } => if style
                == WireTextStyle::Checkbox {
                changed_block(block, change) matches Some(after) && after.content == (
                ContentV::Text { text, style, checked: wanted, color, icon, marks })
            } else {
                changed_block(block, change) is None
            },
            BlockChangeInput::SetTextColor { color: wanted } => changed_block(
                block,
                change,
            ) matches Some(after) && after.content == (ContentV::Text {
                text,
                style,
                checked,
                color: Some(wanted@),
                icon,
                marks,
            }),
            BlockChangeInput::ClearTextColor => changed_block(block, change) matches Some(after)
                && after.content == (ContentV::Text {
                text,
                style,
                checked,
                color: None,
                icon,
                marks,
            }),
            BlockChangeInput::SetCalloutIcon { icon: wanted } => if style
                == WireTextStyle::Callout {
                changed_block(block, change) matches Some(after) && after.content == (
                ContentV::Text { text, style, checked, color, icon: Some(wanted@), marks })
            } else {
                changed_block(block, change) is None
            },
            BlockChangeInput::ClearCalloutIcon => if style == WireTextStyle::Callout {
                changed_block(block, change) matches Some(after) && after.content == (
                ContentV::Text { text, style, checked, color, icon: None, marks })
            } else {
                changed_block(block, change) is None
            },
            BlockChangeInput::SetDividerStyle { .. }
            | BlockChangeInput::SetEmbedSource { .. }
            | BlockChangeInput::SetLinkAppearance { .. } => changed_block(block, change) is None,
            _ => true,
        },
{
    if let BlockChangeInput::SetTextStyle { style: wanted } = change {
        crate::wire::writable_style_reads_back(wanted, wanted);
    }
}

/// A change of a divider, an embed or a link applies to that kind of block alone,
/// sets what it names, and keeps the processor of an embed and the target of a
/// link. A change of a text applies to texts alone.
pub proof fn other_changes_fit_their_kind(block: SummaryV, change: BlockChangeInput)
    ensures
        change matches BlockChangeInput::SetDividerStyle { style } ==> (changed_block(
            block,
            change,
        ) is Some <==> block.content is Divider) && (changed_block(block, change) matches Some(
            after,
        ) ==> after.content == (ContentV::Divider { style })),
        change matches BlockChangeInput::SetEmbedSource { source } ==> (changed_block(
            block,
            change,
        ) is Some <==> block.content is Embed) && (block.content matches ContentV::Embed {
            processor,
            ..
        } ==> (changed_block(block, change) matches Some(after) && after.content == (
        ContentV::Embed { processor, source: stored_source(processor, source@) }))),
        change matches BlockChangeInput::SetLinkAppearance {
            card_style,
            icon_size,
            description,
            relations,
        } ==> (changed_block(block, change) is Some <==> block.content is Link) && (
        block.content matches ContentV::Link { target, .. } ==> (changed_block(
            block,
            change,
        ) matches Some(after) && after.content == (ContentV::Link {
            target,
            card_style,
            icon_size,
            description,
            relations: views(relations@),
        }))),
        change is SetText || change is SetTextStyle || change is SetChecked
            || change is SetTextColor || change is ClearTextColor || change is SetCalloutIcon
            || change is ClearCalloutIcon ==> (changed_block(block, change) is Some
            ==> block.content is Text),
{
}

/// Which changes a caller may send: a text within its bound with acceptable marks,
/// a valid icon, a source that the embed at hand takes, boundedly many distinct
/// relations; and every change of a style, a color, an alignment or a check mark.
pub proof fn acceptable_changes_are_sent(change: BlockChangeInput, current: ContentV)
    ensures
        match change {
            BlockChangeInput::SetText { text, marks } => requested_change(
                change,
                current,
            ) is Some <==> byte_len(text@) <= MAX_TEXT_BYTES && views(marks@).len()
                <= MAX_MARKS_PER_TEXT && views(marks@).no_duplicates() && forall|i: int|
                0 <= i < views(marks@).len() ==> mark_accepted(#[trigger] views(marks@)[i], text@),
            BlockChangeInput::SetCalloutIcon { icon } => requested_change(
                change,
                current,
            ) is Some <==> icon_valid(icon@),
            BlockChangeInput::SetEmbedSource { source } => requested_change(
                change,
                current,
            ) is Some <==> (current matches ContentV::Embed { processor, .. } && if processor
                == WireEmbedProcessor::Youtube {
                youtube_id(source@)
            } else {
                !is_blank(source@) && byte_len(source@) <= MAX_TEXT_BYTES
            }),
            BlockChangeInput::SetLinkAppearance { relations, .. } => requested_change(
                change,
                current,
            ) is Some <==> views(relations@).len() <= MAX_RELATIONS && views(
                relations@,
            ).no_duplicates(),
            _ => requested_change(change, current) is Some,
        },
{
}

/// What goes out for a change: the requested values, and for an embed its own
/// processor with the stored form of the source.
pub proof fn sent_change_carries_the_request(change: BlockChangeInput, current: ContentV)
    ensures
        requested_change(change, current) matches Some(sent) ==> match change {
            BlockChangeInput::SetText { text, marks } => sent == (ChangeV::Text {
                text: text@,
                marks: views(marks@),
            }),
            BlockChangeInput::SetTextStyle { style } => sent matches ChangeV::TextStyle(wire)
                && text_style_label_text(wire) == writable_style_label_text(style),
            BlockChangeInput::SetChecked { checked } => sent == ChangeV::Checked(checked),
            BlockChangeInput::SetTextColor { color } => sent == ChangeV::TextColor(Some(color@)),
            BlockChangeInput::ClearTextColor => sent == ChangeV::TextColor(None),
            BlockChangeInput::SetCalloutIcon { icon } => sent == ChangeV::CalloutIcon(Some(icon@)),
            BlockChangeInput::ClearCalloutIcon => sent == ChangeV::CalloutIcon(None),
            BlockChangeInput::SetDividerStyle { style } => sent == ChangeV::DividerStyle(style),
            BlockChangeInput::SetBackgroundColor { color } => sent == ChangeV::Background(
                Some(color@),
            ),
            BlockChangeInput::ClearBackgroundColor => sent == ChangeV::Background(None),
            BlockChangeInput::SetHorizontalAlign { align } => sent == ChangeV::HorizontalAlign(
                align,
            ),
            BlockChangeInput::SetVerticalAlign { align } => sent == ChangeV::VerticalAlign(align),
            BlockChangeInput::SetEmbedSource { source } => current matches ContentV::Embed {
                processor,
                ..
            } && sent == (ChangeV::Embed { processor, text: stored_source(processor, source@) }),
            BlockChangeInput::SetLinkAppearance {
                card_style,
                icon_size,
                description,
                relations,
            } => sent == (ChangeV::LinkAppearance {
                card_style,
                icon_size,
                description,
                relations: views(relations@),
            }),
        },
{
    if let BlockChangeInput::SetTextStyle { style } = change {
        crate::wire::writable_style_reads_back(style, style);
    }
}

/// A source is stored as it is given; a video identifier is stored as the address
/// that ends with it. Two sources of one processor are stored alike only where
/// they are one.
pub proof fn sources_are_stored_apart(processor: WireEmbedProcessor, a: Seq<char>, b: Seq<char>)
    ensures
        processor != WireEmbedProcessor::Youtube ==> stored_source(processor, a) == a,
        processor == WireEmbedProcessor::Youtube ==> stored_source(processor, a)
            == "https://www.youtube.com/watch?v="@ + a,
        stored_source(processor, a) == stored_source(processor, b) ==> a == b,
{
    if stored_source(processor, a) == stored_source(processor, b) && processor
        == WireEmbedProcessor::Youtube {
        let prefix = "https://www.youtube.com/watch?v="@;
        let whole = prefix + a;
        assert(whole == prefix + b);
        assert(whole.skip(prefix.len() as int) =~= a);
        assert((prefix + b).skip(prefix.len() as int) =~= b);
    }
}

// ---------------------------------------------------------------------------
// New blocks
// ---------------------------------------------------------------------------

/// A new text is created with its text, style, color, icon and marks; a to-do is
/// created checked only where that was asked for. Its presentation goes out as it
/// was asked for.
pub proof fn new_text_is_created_as_asked(input: NewBlockInput)
    ensures
        input matches NewBlockInput::Text {
            style,
            text,
            checked,
            marks,
            text_color,
            icon,
            presentation,
        } ==> {
            let sent = requested_block(input);
            &&& sent.content matches ContentV::Text {
                text: t,
                style: s,
                checked: c,
                color: o,
                icon: i,
                marks: m,
            } && {
                &&& t == text@
                &&& text_style_label_text(s) == writable_style_label_text(style)
                &&& c <==> checked == Some(true)
                &&& o == opt_view(text_color)
                &&& i == opt_view(icon)
                &&& m == views(marks@)
            }
            &&& sent.table is None
            &&& sends_presentation(input, presentation)
        },
{
    if let NewBlockInput::Text { style, .. } = input {
        crate::wire::writable_style_reads_back(style, style);
    }
}

/// The presentation that goes out for a new block.
pub open spec fn sends_presentation(input: NewBlockInput, presentation: Presentation) -> bool {
    &&& requested_block(input).align == presentation.horizontal_align
    &&& requested_block(input).vertical_align == presentation.vertical_align
    &&& requested_block(input).background == opt_view(presentation.background_color)
}

/// Every other new block is created as it was asked for, in kind and in every
/// field. Only a table has a size, and only a table has no presentation.
pub proof fn other_new_blocks_are_created_as_asked(input: NewBlockInput)
    ensures
        match input {
            NewBlockInput::Text { .. } => true,
            NewBlockInput::Divider { style, presentation } => requested_block(input).content == (
            ContentV::Divider { style }) && sends_presentation(input, presentation),
            NewBlockInput::Link {
                target_object_id,
                card_style,
                icon_size,
                description,
                relations,
                presentation,
            } => requested_block(input).content == (ContentV::Link {
                target: target_object_id@,
                card_style,
                icon_size,
                description,
                relations: views(relations@),
            }) && sends_presentation(input, presentation),
            NewBlockInput::Relation { key, presentation } => requested_block(input).content == (
            ContentV::Relation { key: key@ }) && sends_presentation(input, presentation),
            NewBlockInput::Embed { processor, source, presentation } => requested_block(
                input,
            ).content == (ContentV::Embed {
                processor,
                source: stored_source(processor, source@),
            }) && sends_presentation(input, presentation),
            NewBlockInput::Table { rows, columns, header_row } => {
                let sent = requested_block(input);
                &&& sent.content == ContentV::Table
                &&& sent.table == Some(
                    TableV { rows: rows as int, columns: columns as int, header_row },
                )
                &&& sent.align is None && sent.vertical_align is None && sent.background is None
            },
            NewBlockInput::TableOfContents { presentation } => requested_block(input).content
                == ContentV::TableOfContents && sends_presentation(input, presentation),
        },
        requested_block(input).table is Some <==> input is Table,
{
}

/// What is sent for a new block is what the verification afterwards looks for:
/// the same content, and the presentation with its defaults, which are the left
/// and the top.
pub proof fn new_block_shows_what_was_sent(block: SummaryV, input: NewBlockInput)
    ensures
        shows_request(block, input) <==> {
            let sent = requested_block(input);
            &&& block.content == sent.content
            &&& sent.align matches Some(align) ==> block.align == align
            &&& sent.align is None ==> block.align == WireHorizontalAlign::Left
            &&& sent.vertical_align matches Some(align) ==> block.vertical_align == align
            &&& sent.vertical_align is None ==> block.vertical_align == WireVerticalAlign::Top
            &&& block.background_color == sent.background
        },
{
}

/// Which new blocks a caller may send. A text has a bounded text and acceptable
/// marks, a check mark exactly where it is a to-do, and an icon only where it is a
/// callout. A link has boundedly many distinct relations. An embed has a source
/// that its processor takes. A table has at least one row and one column and is
/// bounded. Dividers, relations and tables of contents are always acceptable.
pub proof fn acceptable_blocks_are_sent(input: NewBlockInput)
    ensures
        block_accepted(input) <==> block_variable(input) <= MAX_MUTATION_VARIABLE_BYTES
            && match input {
            NewBlockInput::Text { style, text, checked, marks, icon, .. } => {
                &&& byte_len(text@) <= MAX_TEXT_BYTES
                &&& checked is Some <==> style == WritableTextStyle::Checkbox
                &&& opt_view(icon) matches Some(icon) ==> style == WritableTextStyle::Callout
                    && icon_valid(icon)
                &&& views(marks@).len() <= MAX_MARKS_PER_TEXT
                &&& views(marks@).no_duplicates()
                &&& forall|i: int|
                    0 <= i < views(marks@).len() ==> mark_accepted(
                        #[trigger] views(marks@)[i],
                        text@,
                    )
            },
            NewBlockInput::Link { relations, .. } => views(relations@).len() <= MAX_RELATIONS
                && views(relations@).no_duplicates(),
            NewBlockInput::Embed { processor, source, .. } => byte_len(source@) <= MAX_TEXT_BYTES
                && (processor == WireEmbedProcessor::Youtube ==> youtube_id(source@)) && (processor
                != WireEmbedProcessor::Youtube ==> !is_blank(source@)),
            NewBlockInput::Table { rows, columns, .. } => 1 <= rows <= MAX_RICH_TABLE_ROWS && 1
                <= columns <= MAX_RICH_TABLE_COLUMNS && rows * columns <= MAX_RICH_TABLE_CELLS,
            _ => true,
        },
{
}

// ---------------------------------------------------------------------------
// Marks, icons and texts
// ---------------------------------------------------------------------------

/// A caller may put a mark on a text exactly where its range is not empty, starts
/// and ends between characters of the text, and what it carries is valid: a
/// bounded address or emoji without control characters, a color, or an
/// identifier.
pub proof fn acceptable_marks_fit_their_text(mark: MarkV, text: Seq<char>)
    ensures
        mark_accepted(mark, text) <==> {
            &&& mark.start < mark.end
            &&& exists|a: int|
                0 <= a <= text.len() && #[trigger] utf16_offset(text, a) == mark.start
            &&& exists|b: int| 0 <= b <= text.len() && #[trigger] utf16_offset(text, b) == mark.end
            &&& match mark.kind {
                MarkKindV::Link(url) => byte_len(url) <= MAX_URL_BYTES && free_of_controls(url),
                MarkKindV::Emoji(emoji) => 1 <= byte_len(emoji) <= MAX_EMOJI_BYTES
                    && free_of_controls(emoji),
                MarkKindV::TextColor(color) => valid_color(color),
                MarkKindV::BackgroundColor(color) => valid_color(color),
                MarkKindV::Mention(id) => valid_entity_id(id),
                MarkKindV::Object(id) => valid_entity_id(id),
                _ => true,
            }
        },
{
    if let MarkKindV::Link(url) = mark.kind {
        controls_are_found(url);
    }
    if let MarkKindV::Emoji(emoji) = mark.kind {
        controls_are_found(emoji);
    }
}

/// No character of a text is a control character.
pub open spec fn free_of_controls(text: Seq<char>) -> bool {
    forall|i: int|
        0 <= i < text.len() ==> !((#[trigger] text[i]) as u32 <= 0x1f || 0x7f <= text[i] as u32
            <= 0x9f)
}

proof fn controls_are_found(text: Seq<char>)
    ensures
        has_control(text) <==> !free_of_controls(text),
{
    if !free_of_controls(text) {
        let i = choose|i: int|
            0 <= i < text.len() && ((#[trigger] text[i]) as u32 <= 0x1f || 0x7f <= text[i] as u32
                <= 0x9f);
        assert(is_control(text[i]));
    }
    if has_control(text) {
        let i = choose|i: int| 0 <= i < text.len() && is_control(#[trigger] text[i]);
        assert(text[i] as u32 <= 0x1f || 0x7f <= text[i] as u32 <= 0x9f);
    }
}

/// A mark is shown where a caller could have put it, or where it is empty.
pub proof fn shown_marks_are_acceptable_or_empty(mark: MarkV, text: Seq<char>)
    ensures
        mark_shown(mark, text) && mark.start != mark.end <==> mark_accepted(mark, text),
        mark_accepted(mark, text) ==> mark_shown(mark, text),
        mark_shown(mark, text) ==> mark.start <= mark.end,
{
}

/// An icon is a bounded emoji without control characters, or an identifier.
pub proof fn valid_icons(icon: IconV)
    ensures
        icon matches IconV::Emoji(emoji) ==> (icon_valid(icon) <==> 1 <= byte_len(emoji)
            <= MAX_EMOJI_BYTES && free_of_controls(emoji)),
        icon matches IconV::Image(id) ==> (icon_valid(icon) <==> valid_entity_id(id)),
{
    if let IconV::Emoji(emoji) = icon {
        controls_are_found(emoji);
    }
}

/// Every character counts for one code unit, or for two where it lies beyond the
/// first plane; so an offset between two characters leaves as many units on each
/// side as the characters there count.
pub proof fn code_units_are_counted(text: Seq<char>, n: int)
    requires
        0 <= n < text.len(),
    ensures
        utf16_offset(text, 0) == 0,
        text[n] as u32 <= 0xffff ==> utf16_offset(text, n + 1) == utf16_offset(text, n) + 1,
        text[n] as u32 > 0xffff ==> utf16_offset(text, n + 1) == utf16_offset(text, n) + 2,
{
}

} // verus!
