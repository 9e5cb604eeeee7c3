//! Blocks and changes that a caller may send, bounded and checked before
//! anything is dispatched.

use crate::change::{created_content, embed_source, stored_source, youtube_url};
use crate::domain::{class_contains, in_class, CharClass, ColorInput, RelationKey};
use crate::error::ToolError;
use crate::input::{
    presentation_background, presentation_horizontal, presentation_vertical, requested_background,
    requested_horizontal, requested_vertical, BlockChangeInput, NewBlockInput,
};
use crate::marks::{
    callout_icon, icon_valid, input_marks, marks_accepted, CalloutIcon, TextMark,
};
use crate::model::{ContentV, IconV, MarkKindV, MarkV, WireIcon, WireMark};
use crate::projection::{BlockContent, BodyBlock, MAX_RELATIONS, MAX_TEXT_BYTES};
use crate::text::{all_distinct, blank, byte_len, is_blank, opt_view, text_bytes, views, Same};
use crate::wire::{
    writable_as_wire, WireDividerStyle, WireEmbedProcessor, WireHorizontalAlign, WireLinkCardStyle,
    WireLinkDescription, WireLinkIconSize, WireTextStyle, WireVerticalAlign, WritableTextStyle,
};
use vstd::prelude::*;

verus! {

/// Largest sum of caller-chosen bytes in one mutation.
pub const MAX_MUTATION_VARIABLE_BYTES: usize = 65_536;

/// Largest number of rows that a caller may create at once.
pub const MAX_RICH_TABLE_ROWS: usize = 12;

/// Largest number of columns that a caller may create at once.
pub const MAX_RICH_TABLE_COLUMNS: usize = 12;

/// Largest number of cells that a caller may create at once.
pub const MAX_RICH_TABLE_CELLS: usize = 144;

/// Content of a block that is ready to be created.
#[derive(Clone, Debug, PartialEq, Eq)]
pub enum NewContent {
    Text {
        style: WireTextStyle,
        text: String,
        checked: bool,
        color: Option<String>,
        icon: Option<CalloutIcon>,
        marks: Vec<TextMark>,
    },
    Divider { style: WireDividerStyle },
    Link {
        target_object_id: String,
        card_style: WireLinkCardStyle,
        icon_size: WireLinkIconSize,
        description: WireLinkDescription,
        relations: Vec<String>,
    },
    Relation { key: String },
    Embed { processor: WireEmbedProcessor, source: String },
    Table { rows: u32, columns: u32, header_row: bool },
    TableOfContents,
}

/// A block that is ready to be created.
#[derive(Clone, Debug, PartialEq, Eq)]
pub struct NewBlock {
    pub content: NewContent,
    pub align: Option<WireHorizontalAlign>,
    pub vertical_align: Option<WireVerticalAlign>,
    pub background: Option<String>,
}

/// Size of a table that is ready to be created.
pub struct TableV {
    pub rows: int,
    pub columns: int,
    pub header_row: bool,
}

/// Model of a block that is ready to be created: the content that it will show,
/// the size of a table, and the requested presentation.
#[verifier::ext_equal]
pub struct NewBlockV {
    pub content: ContentV,
    pub table: Option<TableV>,
    pub align: Option<WireHorizontalAlign>,
    pub vertical_align: Option<WireVerticalAlign>,
    pub background: Option<Seq<char>>,
}

impl NewContent {
    /// Content that the block shows once it is created: of a table, not its size.
    pub open spec fn shown(&self) -> ContentV {
        match self {
            NewContent::Text { style, text, checked, color, icon, marks } => ContentV::Text {
                text: text@,
                style: *style,
                checked: *checked,
                color: opt_view(*color),
                icon: opt_view(*icon),
                marks: views(marks@),
            },
            NewContent::Divider { style } => ContentV::Divider { style: *style },
            NewContent::Link { target_object_id, card_style, icon_size, description, relations } =>
                ContentV::Link {
                target: target_object_id@,
                card_style: *card_style,
                icon_size: *icon_size,
                description: *description,
                relations: views(relations@),
            },
            NewContent::Relation { key } => ContentV::Relation { key: key@ },
            NewContent::Embed { processor, source } => ContentV::Embed {
                processor: *processor,
                source: source@,
            },
            NewContent::Table { .. } => ContentV::Table,
            NewContent::TableOfContents => ContentV::TableOfContents,
        }
    }
}

impl View for NewBlock {
    type V = NewBlockV;

    open spec fn view(&self) -> NewBlockV {
        NewBlockV {
            content: self.content.shown(),
            table: match self.content {
                NewContent::Table { rows, columns, header_row } => Some(
                    TableV { rows: rows as int, columns: columns as int, header_row },
                ),
                _ => None,
            },
            align: self.align,
            vertical_align: self.vertical_align,
            background: opt_view(self.background),
        }
    }
}

/// The block that an accepted input stands for.
pub open spec fn requested_block(input: NewBlockInput) -> NewBlockV {
    NewBlockV {
        content: created_content(input),
        table: match input {
            NewBlockInput::Table { rows, columns, header_row } => Some(
                TableV { rows: rows as int, columns: columns as int, header_row },
            ),
            _ => None,
        },
        align: requested_horizontal(input),
        vertical_align: requested_vertical(input),
        background: opt_view(requested_background(input)),
    }
}

/// A video identifier: eleven letters, digits, underscores and hyphens.
pub open spec fn youtube_id(text: Seq<char>) -> bool {
    text.len() == 11 && forall|i: int|
        0 <= i < text.len() ==> in_class(CharClass::WordHyphen, #[trigger] text[i])
}

/// Tests for a video identifier.
pub fn valid_youtube_id(value: &str) -> (r: bool)
    ensures
        r == youtube_id(value@),
{
    let mut count: usize = 0;
    for c in it: value.chars()
        invariant
            it.seq() == value@,
            count == it.index(),
            count <= 11,
            forall|i: int|
                0 <= i < it.index() ==> in_class(CharClass::WordHyphen, #[trigger] value@[i]),
    {
        if count == 11 {
            return false;
        }
        if !class_contains(CharClass::WordHyphen, c) {
            assert(!in_class(CharClass::WordHyphen, value@[it.index() as int]));
            return false;
        }
        count += 1;
    }
    count == 11
}

/// Relations that a caller may put on a link: boundedly many, none twice.
pub open spec fn relations_accepted(relations: Seq<Seq<char>>) -> bool {
    relations.len() <= MAX_RELATIONS && relations.no_duplicates()
}

/// Accepts the relations of a caller.
pub fn validate_relation_inputs(values: &Vec<RelationKey>) -> (r: Result<(), ToolError>)
    ensures
        r == (if relations_accepted(views(values@)) {
            Ok::<(), ToolError>(())
        } else {
            Err(ToolError::Validation)
        }),
{
    assert(views(values@).len() == values.len());
    if values.len() > MAX_RELATIONS || !all_distinct(values) {
        return Err(ToolError::validation());
    }
    Ok(())
}

/// Caller-chosen bytes of a mark.
pub open spec fn mark_variable(kind: MarkKindV) -> int {
    match kind {
        MarkKindV::Link(text) => byte_len(text) as int,
        MarkKindV::TextColor(text) => byte_len(text) as int,
        MarkKindV::BackgroundColor(text) => byte_len(text) as int,
        MarkKindV::Mention(text) => byte_len(text) as int,
        MarkKindV::Emoji(text) => byte_len(text) as int,
        MarkKindV::Object(text) => byte_len(text) as int,
        _ => 0,
    }
}

/// Caller-chosen bytes of the first `n` marks.
pub open spec fn marks_variable(marks: Seq<MarkV>, n: int) -> int
    decreases n,
{
    if n <= 0 {
        0
    } else {
        marks_variable(marks, n - 1) + mark_variable(marks[n - 1].kind)
    }
}

/// Bytes of the first `n` texts.
pub open spec fn texts_variable(texts: Seq<Seq<char>>, n: int) -> int
    decreases n,
{
    if n <= 0 {
        0
    } else {
        texts_variable(texts, n - 1) + byte_len(texts[n - 1])
    }
}

/// Bytes of an optional text.
pub open spec fn opt_variable(text: Option<Seq<char>>) -> int {
    match text {
        Some(text) => byte_len(text) as int,
        None => 0,
    }
}

/// Bytes of an icon.
pub open spec fn icon_variable(icon: Option<IconV>) -> int {
    match icon {
        Some(IconV::Emoji(text)) => byte_len(text) as int,
        Some(IconV::Image(text)) => byte_len(text) as int,
        None => 0,
    }
}

/// Caller-chosen bytes of a new block.
pub open spec fn block_variable(input: NewBlockInput) -> int {
    let background = opt_variable(opt_view(requested_background(input)));
    match input {
        NewBlockInput::Text { text, marks, text_color, icon, .. } => byte_len(text@)
            + marks_variable(views(marks@), marks.len() as int) + opt_variable(
            opt_view(text_color),
        ) + background + icon_variable(opt_view(icon)),
        NewBlockInput::Link { target_object_id, relations, .. } => byte_len(target_object_id@)
            + texts_variable(views(relations@), relations.len() as int) + background,
        NewBlockInput::Relation { key, .. } => byte_len(key@) + background,
        NewBlockInput::Embed { source, .. } => byte_len(source@) + background,
        NewBlockInput::Divider { .. } => background,
        NewBlockInput::TableOfContents { .. } => background,
        NewBlockInput::Table { .. } => 0,
    }
}

proof fn variable_grows(marks: Seq<MarkV>, texts: Seq<Seq<char>>, a: int, b: int)
    requires
        a <= b,
    ensures
        marks_variable(marks, a) <= marks_variable(marks, b),
        texts_variable(texts, a) <= texts_variable(texts, b),
        0 <= marks_variable(marks, b),
        0 <= texts_variable(texts, b),
    decreases (if b > 0 {
        b
    } else {
        0
    }),
{
    if b > 0 {
        if a < b {
            variable_grows(marks, texts, a, b - 1);
        } else {
            variable_grows(marks, texts, a - 1, b - 1);
        }
    }
}

/// Bytes of an icon.
pub fn icon_variable_bytes(icon: &WireIcon) -> (r: usize)
    ensures
        r == icon_variable(Some(icon@)),
{
    match icon {
        WireIcon::Emoji { emoji } => text_bytes(emoji.as_str()),
        WireIcon::Image { object_id } => text_bytes(object_id.as_str()),
    }
}

/// Caller-chosen bytes of marks; refused where they have no number.
pub fn marks_variable_bytes(marks: &Vec<WireMark>) -> (r: Result<usize, ToolError>)
    ensures
        match r {
            Ok(total) => total == marks_variable(views(marks@), marks.len() as int),
            Err(error) => error == ToolError::Validation && marks_variable(
                views(marks@),
                marks.len() as int,
            ) > usize::MAX,
        },
{
    let ghost list = views(marks@);
    let mut total: usize = 0;
    let mut i: usize = 0;
    while i < marks.len()
        invariant
            i <= marks.len(),
            list == views(marks@),
            total == marks_variable(list, i as int),
        decreases marks.len() - i,
    {
        assert(list[i as int] == marks@[i as int]@);
        let bytes: usize = match &marks[i] {
            WireMark::Link { url, .. } => text_bytes(url.as_str()),
            WireMark::TextColor { color, .. } => text_bytes(color.as_str()),
            WireMark::BackgroundColor { color, .. } => text_bytes(color.as_str()),
            WireMark::Mention { object_id, .. } => text_bytes(object_id.as_str()),
            WireMark::Emoji { emoji, .. } => text_bytes(emoji.as_str()),
            WireMark::Object { object_id, .. } => text_bytes(object_id.as_str()),
            _ => 0,
        };
        total =
        match total.checked_add(bytes) {
            Some(sum) => sum,
            None => {
                proof {
                    variable_grows(list, Seq::empty(), i as int + 1, list.len() as int);
                }
                return Err(ToolError::validation());
            },
        };
        i += 1;
    }
    Ok(total)
}

fn relations_variable_bytes(relations: &Vec<RelationKey>) -> (r: Option<usize>)
    ensures
        match r {
            Some(total) => total == texts_variable(views(relations@), relations.len() as int),
            None => texts_variable(views(relations@), relations.len() as int) > usize::MAX,
        },
{
    let ghost list = views(relations@);
    let mut total: usize = 0;
    let mut i: usize = 0;
    while i < relations.len()
        invariant
            i <= relations.len(),
            list == views(relations@),
            total == texts_variable(list, i as int),
        decreases relations.len() - i,
    {
        assert(list[i as int] == relations@[i as int]@);
        total =
        match total.checked_add(text_bytes(relations[i].as_str())) {
            Some(sum) => sum,
            None => {
                proof {
                    variable_grows(Seq::empty(), list, i as int + 1, list.len() as int);
                }
                return None;
            },
        };
        i += 1;
    }
    Some(total)
}

fn color_bytes(color: &Option<ColorInput>) -> (r: usize)
    ensures
        r == opt_variable(opt_view(*color)),
{
    match color {
        Some(color) => text_bytes(color.as_str()),
        None => 0,
    }
}

fn checked_sum(a: Option<usize>, b: usize) -> (r: Option<usize>)
    ensures
        match (a, r) {
            (Some(a), Some(r)) => r == a + b,
            (Some(a), None) => a + b > usize::MAX,
            (None, None) => true,
            (None, Some(_)) => false,
        },
{
    match a {
        Some(a) => a.checked_add(b),
        None => None,
    }
}

/// Caller-chosen bytes of a new block; refused where they have no number.
pub fn new_block_variable_bytes(value: &NewBlockInput) -> (r: Result<usize, ToolError>)
    ensures
        match r {
            Ok(total) => total == block_variable(*value),
            Err(error) => error == ToolError::Validation && block_variable(*value) > usize::MAX,
        },
{
    let background: usize = match presentation_background(value) {
        Some(color) => text_bytes(color.as_str()),
        None => 0,
    };
    let total: Option<usize> = match value {
        NewBlockInput::Text { text, marks, text_color, icon, .. } => {
            let mark_bytes: usize = match marks_variable_bytes(marks) {
                Ok(bytes) => bytes,
                Err(error) => {
                    return Err(error);
                },
            };
            let icon_bytes: usize = match icon {
                Some(icon) => icon_variable_bytes(icon),
                None => 0,
            };
            let base: Option<usize> = checked_sum(Some(text_bytes(text.as_str())), mark_bytes);
            let colored: Option<usize> = checked_sum(base, color_bytes(text_color));
            checked_sum(checked_sum(colored, background), icon_bytes)
        },
        NewBlockInput::Link { target_object_id, relations, .. } => {
            let relation_bytes: usize = match relations_variable_bytes(relations) {
                Some(bytes) => bytes,
                None => {
                    return Err(ToolError::validation());
                },
            };
            let base: Option<usize> = checked_sum(
                Some(text_bytes(target_object_id.as_str())),
                relation_bytes,
            );
            checked_sum(base, background)
        },
        NewBlockInput::Relation { key, .. } => checked_sum(
            Some(text_bytes(key.as_str())),
            background,
        ),
        NewBlockInput::Embed { source, .. } => checked_sum(
            Some(text_bytes(source.as_str())),
            background,
        ),
        NewBlockInput::Divider { .. } => Some(background),
        NewBlockInput::TableOfContents { .. } => Some(background),
        NewBlockInput::Table { .. } => Some(0),
    };
    match total {
        Some(total) => Ok(total),
        None => Err(ToolError::validation()),
    }
}

/// Content of an input that a caller may send.
pub open spec fn content_accepted(input: NewBlockInput) -> bool {
    match input {
        NewBlockInput::Text { style, text, checked, marks, icon, .. } => {
            &&& byte_len(text@) <= MAX_TEXT_BYTES
            &&& (checked is Some <==> style == WritableTextStyle::Checkbox)
            &&& match opt_view(icon) {
                Some(icon) => style == WritableTextStyle::Callout && icon_valid(icon),
                None => true,
            }
            &&& marks_accepted(views(marks@), text@)
        },
        NewBlockInput::Link { relations, .. } => relations_accepted(views(relations@)),
        NewBlockInput::Embed { processor, source, .. } => {
            &&& byte_len(source@) <= MAX_TEXT_BYTES
            &&& if processor == WireEmbedProcessor::Youtube {
                youtube_id(source@)
            } else {
                !is_blank(source@)
            }
        },
        NewBlockInput::Table { rows, columns, .. } => {
            &&& 1 <= rows <= MAX_RICH_TABLE_ROWS
            &&& 1 <= columns <= MAX_RICH_TABLE_COLUMNS
            &&& rows * columns <= MAX_RICH_TABLE_CELLS
        },
        _ => true,
    }
}

/// A new block that a caller may send.
pub open spec fn block_accepted(input: NewBlockInput) -> bool {
    content_accepted(input) && block_variable(input) <= MAX_MUTATION_VARIABLE_BYTES
}

fn own_color(color: &Option<ColorInput>) -> (r: Option<String>)
    ensures
        opt_view(r) == opt_view(*color),
{
    match color {
        Some(color) => Some(color.as_str().to_owned()),
        None => None,
    }
}

fn own_relations(relations: &Vec<RelationKey>) -> (r: Vec<String>)
    ensures
        views(r@) == views(relations@),
{
    let mut out: Vec<String> = Vec::new();
    let mut i: usize = 0;
    while i < relations.len()
        invariant
            i <= relations.len(),
            out.len() == i,
            forall|k: int| 0 <= k < i ==> (#[trigger] out@[k])@ == relations@[k]@,
        decreases relations.len() - i,
    {
        out.push(relations[i].as_str().to_owned());
        i += 1;
    }
    assert(views(out@) =~= views(relations@));
    out
}

fn text_content(
    style: WritableTextStyle,
    text: &String,
    checked: &Option<bool>,
    marks: &Vec<WireMark>,
    text_color: &Option<ColorInput>,
    icon: &Option<WireIcon>,
) -> (r: Result<NewContent, ToolError>)
    ensures
        ({
            let accepted = byte_len(text@) <= MAX_TEXT_BYTES && (*checked is Some <==> style
                == WritableTextStyle::Checkbox) && (match opt_view(*icon) {
                Some(icon) => style == WritableTextStyle::Callout && icon_valid(icon),
                None => true,
            }) && marks_accepted(views(marks@), text@);
            match r {
                Ok(content) => accepted && content.shown() == (ContentV::Text {
                    text: text@,
                    style: writable_as_wire(style),
                    checked: *checked == Some(true),
                    color: opt_view(*text_color),
                    icon: opt_view(*icon),
                    marks: views(marks@),
                }) && !(content is Table),
                Err(error) => !accepted && error == ToolError::Validation,
            }
        }),
{
    if text_bytes(text.as_str()) > MAX_TEXT_BYTES {
        return Err(ToolError::validation());
    }
    let is_checkbox: bool = style == WritableTextStyle::Checkbox;
    if is_checkbox != checked.is_some() {
        return Err(ToolError::validation());
    }
    let own_icon: Option<CalloutIcon> = match icon {
        Some(icon) => {
            if style != WritableTextStyle::Callout {
                return Err(ToolError::validation());
            }
            match callout_icon(icon) {
                Ok(icon) => Some(icon),
                Err(error) => {
                    return Err(error);
                },
            }
        },
        None => None,
    };
    let own_marks: Vec<TextMark> = match input_marks(marks, text.as_str()) {
        Ok(marks) => marks,
        Err(error) => {
            return Err(error);
        },
    };
    let is_checked: bool = match checked {
        Some(value) => *value,
        None => false,
    };
    Ok(
        NewContent::Text {
            style: style.as_wire(),
            text: text.clone(),
            checked: is_checked,
            color: own_color(text_color),
            icon: own_icon,
            marks: own_marks,
        },
    )
}

fn embed_content(processor: WireEmbedProcessor, source: &String) -> (r: Result<
    NewContent,
    ToolError,
>)
    ensures
        ({
            let accepted = byte_len(source@) <= MAX_TEXT_BYTES && (if processor
                == WireEmbedProcessor::Youtube {
                youtube_id(source@)
            } else {
                !is_blank(source@)
            });
            match r {
                Ok(content) => accepted && content.shown() == (ContentV::Embed {
                    processor,
                    source: stored_source(processor, source@),
                }) && !(content is Table),
                Err(error) => !accepted && error == ToolError::Validation,
            }
        }),
{
    if text_bytes(source.as_str()) > MAX_TEXT_BYTES {
        return Err(ToolError::validation());
    }
    let usable: bool = match processor {
        WireEmbedProcessor::Youtube => valid_youtube_id(source.as_str()),
        WireEmbedProcessor::Latex | WireEmbedProcessor::Mermaid => !blank(source.as_str()),
    };
    if !usable {
        return Err(ToolError::validation());
    }
    Ok(NewContent::Embed { processor, source: embed_source(processor, source) })
}

fn new_content(value: &NewBlockInput) -> (r: Result<NewContent, ToolError>)
    ensures
        match r {
            Ok(content) => content_accepted(*value) && content.shown() == created_content(*value) && match (
            content,
            *value,
            ) {
                (
                    NewContent::Table { rows: r1, columns: c1, header_row: h1 },
                    NewBlockInput::Table { rows: r2, columns: c2, header_row: h2 },
                ) => r1 == r2 && c1 == c2 && h1 == h2,
                (NewContent::Table { .. }, _) => false,
                (_, NewBlockInput::Table { .. }) => false,
                _ => true,
            },
            Err(error) => !content_accepted(*value) && error == ToolError::Validation,
        },
{
    match value {
        NewBlockInput::Text { style, text, checked, marks, text_color, icon, .. } => text_content(
            *style,
            text,
            checked,
            marks,
            text_color,
            icon,
        ),
        NewBlockInput::Divider { style, .. } => Ok(NewContent::Divider { style: *style }),
        NewBlockInput::Link {
            target_object_id,
            card_style,
            icon_size,
            description,
            relations,
            ..
        } => {
            if let Err(error) = validate_relation_inputs(relations) {
                return Err(error);
            }
            Ok(
                NewContent::Link {
                    target_object_id: target_object_id.as_str().to_owned(),
                    card_style: *card_style,
                    icon_size: *icon_size,
                    description: *description,
                    relations: own_relations(relations),
                },
            )
        },
        NewBlockInput::Relation { key, .. } => Ok(
            NewContent::Relation { key: key.as_str().to_owned() },
        ),
        NewBlockInput::Embed { processor, source, .. } => embed_content(*processor, source),
        NewBlockInput::Table { rows, columns, header_row } => {
            assert(0 <= *rows * *columns <= 255 * 255) by (nonlinear_arith)
                requires
                    0 <= *rows <= 255,
                    0 <= *columns <= 255,
            ;
            let row_count: usize = *rows as usize;
            let column_count: usize = *columns as usize;
            if row_count < 1 || row_count > MAX_RICH_TABLE_ROWS || column_count < 1 || column_count
                > MAX_RICH_TABLE_COLUMNS || row_count * column_count > MAX_RICH_TABLE_CELLS {
                return Err(ToolError::validation());
            }
            Ok(
                NewContent::Table {
                    rows: *rows as u32,
                    columns: *columns as u32,
                    header_row: *header_row,
                },
            )
        },
        NewBlockInput::TableOfContents { .. } => Ok(NewContent::TableOfContents),
    }
}

/// Accepts a new block, or refuses it as not acceptable.
pub fn new_block(value: &NewBlockInput) -> (r: Result<NewBlock, ToolError>)
    ensures
        match r {
            Ok(block) => block_accepted(*value) && block@ == requested_block(*value),
            Err(error) => !block_accepted(*value) && error == ToolError::Validation,
        },
{
    let content: NewContent = match new_content(value) {
        Ok(content) => content,
        Err(error) => {
            return Err(error);
        },
    };
    let background: Option<String> = match presentation_background(value) {
        Some(color) => Some(color.as_str().to_owned()),
        None => None,
    };
    match new_block_variable_bytes(value) {
        Ok(bytes) => {
            if bytes > MAX_MUTATION_VARIABLE_BYTES {
                return Err(ToolError::validation());
            }
        },
        Err(error) => {
            return Err(error);
        },
    }
    Ok(
        NewBlock {
            content,
            align: presentation_horizontal(value),
            vertical_align: presentation_vertical(value),
            background,
        },
    )
}

/// A change that is ready to be sent.
#[derive(Clone, Debug, PartialEq, Eq)]
pub enum BlockChange {
    Text { text: String, marks: Vec<TextMark> },
    TextStyle(WireTextStyle),
    Checked(bool),
    TextColor(Option<String>),
    CalloutIcon(Option<CalloutIcon>),
    DividerStyle(WireDividerStyle),
    Background(Option<String>),
    HorizontalAlign(WireHorizontalAlign),
    VerticalAlign(WireVerticalAlign),
    Embed { processor: WireEmbedProcessor, text: String },
    LinkAppearance {
        card_style: WireLinkCardStyle,
        icon_size: WireLinkIconSize,
        description: WireLinkDescription,
        relations: Vec<String>,
    },
}

/// Model of a change that is ready to be sent.
#[verifier::ext_equal]
pub enum ChangeV {
    Text { text: Seq<char>, marks: Seq<MarkV> },
    TextStyle(WireTextStyle),
    Checked(bool),
    TextColor(Option<Seq<char>>),
    CalloutIcon(Option<IconV>),
    DividerStyle(WireDividerStyle),
    Background(Option<Seq<char>>),
    HorizontalAlign(WireHorizontalAlign),
    VerticalAlign(WireVerticalAlign),
    Embed { processor: WireEmbedProcessor, text: Seq<char> },
    LinkAppearance {
        card_style: WireLinkCardStyle,
        icon_size: WireLinkIconSize,
        description: WireLinkDescription,
        relations: Seq<Seq<char>>,
    },
}

impl View for BlockChange {
    type V = ChangeV;

    open spec fn view(&self) -> ChangeV {
        match self {
            BlockChange::Text { text, marks } => ChangeV::Text {
                text: text@,
                marks: views(marks@),
            },
            BlockChange::TextStyle(style) => ChangeV::TextStyle(*style),
            BlockChange::Checked(checked) => ChangeV::Checked(*checked),
            BlockChange::TextColor(color) => ChangeV::TextColor(opt_view(*color)),
            BlockChange::CalloutIcon(icon) => ChangeV::CalloutIcon(opt_view(*icon)),
            BlockChange::DividerStyle(style) => ChangeV::DividerStyle(*style),
            BlockChange::Background(color) => ChangeV::Background(opt_view(*color)),
            BlockChange::HorizontalAlign(align) => ChangeV::HorizontalAlign(*align),
            BlockChange::VerticalAlign(align) => ChangeV::VerticalAlign(*align),
            BlockChange::Embed { processor, text } => ChangeV::Embed {
                processor: *processor,
                text: text@,
            },
            BlockChange::LinkAppearance { card_style, icon_size, description, relations } =>
                ChangeV::LinkAppearance {
                card_style: *card_style,
                icon_size: *icon_size,
                description: *description,
                relations: views(relations@),
            },
        }
    }
}

/// The change that an accepted input stands for on a block with this content;
/// nothing where it is not acceptable.
pub open spec fn requested_change(value: BlockChangeInput, current: ContentV) -> Option<ChangeV> {
    match value {
        BlockChangeInput::SetText { text, marks } => if byte_len(text@) <= MAX_TEXT_BYTES
            && marks_accepted(views(marks@), text@) {
            Some(ChangeV::Text { text: text@, marks: views(marks@) })
        } else {
            None
        },
        BlockChangeInput::SetTextStyle { style } => Some(
            ChangeV::TextStyle(writable_as_wire(style)),
        ),
        BlockChangeInput::SetChecked { checked } => Some(ChangeV::Checked(checked)),
        BlockChangeInput::SetTextColor { color } => Some(ChangeV::TextColor(Some(color@))),
        BlockChangeInput::ClearTextColor => Some(ChangeV::TextColor(None)),
        BlockChangeInput::SetCalloutIcon { icon } => if icon_valid(icon@) {
            Some(ChangeV::CalloutIcon(Some(icon@)))
        } else {
            None
        },
        BlockChangeInput::ClearCalloutIcon => Some(ChangeV::CalloutIcon(None)),
        BlockChangeInput::SetDividerStyle { style } => Some(ChangeV::DividerStyle(style)),
        BlockChangeInput::SetBackgroundColor { color } => Some(ChangeV::Background(Some(color@))),
        BlockChangeInput::ClearBackgroundColor => Some(ChangeV::Background(None)),
        BlockChangeInput::SetHorizontalAlign { align } => Some(ChangeV::HorizontalAlign(align)),
        BlockChangeInput::SetVerticalAlign { align } => Some(ChangeV::VerticalAlign(align)),
        BlockChangeInput::SetEmbedSource { source } => match current {
            ContentV::Embed { processor, .. } => if (processor == WireEmbedProcessor::Youtube
                && youtube_id(source@)) || (processor != WireEmbedProcessor::Youtube && !is_blank(
                source@,
            ) && byte_len(source@) <= MAX_TEXT_BYTES) {
                Some(ChangeV::Embed { processor, text: stored_source(processor, source@) })
            } else {
                None
            },
            _ => None,
        },
        BlockChangeInput::SetLinkAppearance { card_style, icon_size, description, relations } =>
            if relations_accepted(views(relations@)) {
            Some(
                ChangeV::LinkAppearance {
                    card_style,
                    icon_size,
                    description,
                    relations: views(relations@),
                },
            )
        } else {
            None
        },
    }
}

fn embed_change(source: &String, current: &BodyBlock) -> (r: Result<BlockChange, ToolError>)
    ensures
        match (
            r,
            requested_change(
                BlockChangeInput::SetEmbedSource { source: *source },
                current@.content,
            ),
        ) {
            (Ok(change), Some(expected)) => change@ == expected,
            (Err(error), None) => error == ToolError::Validation,
            _ => false,
        },
{
    let processor: WireEmbedProcessor = match &current.content {
        BlockContent::Embed(existing) => existing.processor,
        _ => {
            return Err(ToolError::validation());
        },
    };
    let text: String = match processor {
        WireEmbedProcessor::Youtube => {
            if !valid_youtube_id(source.as_str()) {
                return Err(ToolError::validation());
            }
            youtube_url(source.as_str())
        },
        WireEmbedProcessor::Latex | WireEmbedProcessor::Mermaid => {
            if blank(source.as_str()) || text_bytes(source.as_str()) > MAX_TEXT_BYTES {
                return Err(ToolError::validation());
            }
            source.clone()
        },
    };
    Ok(BlockChange::Embed { processor, text })
}

/// Accepts a change of a fetched block, or refuses it as not acceptable.
pub fn block_change(value: &BlockChangeInput, current: &BodyBlock) -> (r: Result<
    BlockChange,
    ToolError,
>)
    ensures
        match (r, requested_change(*value, current@.content)) {
            (Ok(change), Some(expected)) => change@ == expected,
            (Err(error), None) => error == ToolError::Validation,
            _ => false,
        },
{
    match value {
        BlockChangeInput::SetText { text, marks } => {
            if text_bytes(text.as_str()) > MAX_TEXT_BYTES {
                return Err(ToolError::validation());
            }
            match input_marks(marks, text.as_str()) {
                Ok(marks) => Ok(BlockChange::Text { text: text.clone(), marks }),
                Err(error) => Err(error),
            }
        },
        BlockChangeInput::SetTextStyle { style } => Ok(BlockChange::TextStyle(style.as_wire())),
        BlockChangeInput::SetChecked { checked } => Ok(BlockChange::Checked(*checked)),
        BlockChangeInput::SetTextColor { color } => Ok(
            BlockChange::TextColor(Some(color.as_str().to_owned())),
        ),
        BlockChangeInput::ClearTextColor => Ok(BlockChange::TextColor(None)),
        BlockChangeInput::SetCalloutIcon { icon } => match callout_icon(icon) {
            Ok(icon) => Ok(BlockChange::CalloutIcon(Some(icon))),
            Err(error) => Err(error),
        },
        BlockChangeInput::ClearCalloutIcon => Ok(BlockChange::CalloutIcon(None)),
        BlockChangeInput::SetDividerStyle { style } => Ok(BlockChange::DividerStyle(*style)),
        BlockChangeInput::SetBackgroundColor { color } => Ok(
            BlockChange::Background(Some(color.as_str().to_owned())),
        ),
        BlockChangeInput::ClearBackgroundColor => Ok(BlockChange::Background(None)),
        BlockChangeInput::SetHorizontalAlign { align } => Ok(BlockChange::HorizontalAlign(*align)),
        BlockChangeInput::SetVerticalAlign { align } => Ok(BlockChange::VerticalAlign(*align)),
        BlockChangeInput::SetEmbedSource { source } => embed_change(source, current),
        BlockChangeInput::SetLinkAppearance { card_style, icon_size, description, relations } => {
            if let Err(error) = validate_relation_inputs(relations) {
                return Err(error);
            }
            Ok(
                BlockChange::LinkAppearance {
                    card_style: *card_style,
                    icon_size: *icon_size,
                    description: *description,
                    relations: own_relations(relations),
                },
            )
        },
    }
}

} // verus!
