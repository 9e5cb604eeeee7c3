//! Closed wire enumerations and their labels.

use vstd::prelude::*;

verus! {

/// Horizontal alignment of a block.
#[derive(Clone, Copy, Debug, PartialEq, Eq, Structural)]
pub enum WireHorizontalAlign {
    Left,
    Center,
    Right,
    Justify,
}

/// Label of a [`WireHorizontalAlign`].
pub open spec fn horizontal_label_text(value: WireHorizontalAlign) -> Seq<char> {
    match value {
        WireHorizontalAlign::Left => "left"@,
        WireHorizontalAlign::Center => "center"@,
        WireHorizontalAlign::Right => "right"@,
        WireHorizontalAlign::Justify => "justify"@,
    }
}

/// Label of a [`WireHorizontalAlign`].
pub fn horizontal_label(value: WireHorizontalAlign) -> (r: &'static str)
    ensures
        r@ == horizontal_label_text(value),
{
    match value {
        WireHorizontalAlign::Left => "left",
        WireHorizontalAlign::Center => "center",
        WireHorizontalAlign::Right => "right",
        WireHorizontalAlign::Justify => "justify",
    }
}

/// Different values of [`WireHorizontalAlign`] have different, short labels.
pub proof fn horizontal_label_injective(a: WireHorizontalAlign, b: WireHorizontalAlign)
    ensures
        horizontal_label_text(a) == horizontal_label_text(b) ==> a == b,
        horizontal_label_text(a).len() <= 20,
{
    reveal_strlit("center");
    reveal_strlit("justify");
    reveal_strlit("left");
    reveal_strlit("right");
    assert("center"@.len() == 6);
    assert("justify"@.len() == 7);
    assert("left"@.len() == 4);
    assert("right"@.len() == 5);
}

/// Vertical alignment of a block.
#[derive(Clone, Copy, Debug, PartialEq, Eq, Structural)]
pub enum WireVerticalAlign {
    Top,
    Middle,
    Bottom,
}

/// Label of a [`WireVerticalAlign`].
pub open spec fn vertical_label_text(value: WireVerticalAlign) -> Seq<char> {
    match value {
        WireVerticalAlign::Top => "top"@,
        WireVerticalAlign::Middle => "middle"@,
        WireVerticalAlign::Bottom => "bottom"@,
    }
}

/// Label of a [`WireVerticalAlign`].
pub fn vertical_label(value: WireVerticalAlign) -> (r: &'static str)
    ensures
        r@ == vertical_label_text(value),
{
    match value {
        WireVerticalAlign::Top => "top",
        WireVerticalAlign::Middle => "middle",
        WireVerticalAlign::Bottom => "bottom",
    }
}

/// Different values of [`WireVerticalAlign`] have different, short labels.
pub proof fn vertical_label_injective(a: WireVerticalAlign, b: WireVerticalAlign)
    ensures
        vertical_label_text(a) == vertical_label_text(b) ==> a == b,
        vertical_label_text(a).len() <= 20,
{
    reveal_strlit("bottom");
    reveal_strlit("middle");
    reveal_strlit("top");
    assert("bottom"@.len() == 6);
    assert("middle"@.len() == 6);
    assert("top"@.len() == 3);
    assert("bottom"@[0] == 'b');
    assert("middle"@[0] == 'm');
}

/// Style of a text block.
#[derive(Clone, Copy, Debug, PartialEq, Eq, Structural)]
pub enum WireTextStyle {
    Paragraph,
    Heading1,
    Heading2,
    Heading3,
    Heading4,
    Quote,
    Code,
    Title,
    Description,
    Checkbox,
    Bulleted,
    Numbered,
    Toggle,
    Callout,
    ToggleHeading1,
    ToggleHeading2,
    ToggleHeading3,
}

/// Label of a [`WireTextStyle`].
pub open spec fn text_style_label_text(value: WireTextStyle) -> Seq<char> {
    match value {
        WireTextStyle::Paragraph => "paragraph"@,
        WireTextStyle::Heading1 => "heading_1"@,
        WireTextStyle::Heading2 => "heading_2"@,
        WireTextStyle::Heading3 => "heading_3"@,
        WireTextStyle::Heading4 => "heading_4"@,
        WireTextStyle::Quote => "quote"@,
        WireTextStyle::Code => "code"@,
        WireTextStyle::Title => "title"@,
        WireTextStyle::Description => "description"@,
        WireTextStyle::Checkbox => "checkbox"@,
        WireTextStyle::Bulleted => "bulleted"@,
        WireTextStyle::Numbered => "numbered"@,
        WireTextStyle::Toggle => "toggle"@,
        WireTextStyle::Callout => "callout"@,
        WireTextStyle::ToggleHeading1 => "toggle_heading_1"@,
        WireTextStyle::ToggleHeading2 => "toggle_heading_2"@,
        WireTextStyle::ToggleHeading3 => "toggle_heading_3"@,
    }
}

/// Label of a [`WireTextStyle`].
pub fn text_style_label(value: WireTextStyle) -> (r: &'static str)
    ensures
        r@ == text_style_label_text(value),
{
    match value {
        WireTextStyle::Paragraph => "paragraph",
        WireTextStyle::Heading1 => "heading_1",
        WireTextStyle::Heading2 => "heading_2",
        WireTextStyle::Heading3 => "heading_3",
        WireTextStyle::Heading4 => "heading_4",
        WireTextStyle::Quote => "quote",
        WireTextStyle::Code => "code",
        WireTextStyle::Title => "title",
        WireTextStyle::Description => "description",
        WireTextStyle::Checkbox => "checkbox",
        WireTextStyle::Bulleted => "bulleted",
        WireTextStyle::Numbered => "numbered",
        WireTextStyle::Toggle => "toggle",
        WireTextStyle::Callout => "callout",
        WireTextStyle::ToggleHeading1 => "toggle_heading_1",
        WireTextStyle::ToggleHeading2 => "toggle_heading_2",
        WireTextStyle::ToggleHeading3 => "toggle_heading_3",
    }
}

/// Different values of [`WireTextStyle`] have different, short labels.
pub proof fn text_style_label_injective(a: WireTextStyle, b: WireTextStyle)
    ensures
        text_style_label_text(a) == text_style_label_text(b) ==> a == b,
        text_style_label_text(a).len() <= 20,
{
    reveal_strlit("bulleted");
    reveal_strlit("callout");
    reveal_strlit("checkbox");
    reveal_strlit("code");
    reveal_strlit("description");
    reveal_strlit("heading_1");
    reveal_strlit("heading_2");
    reveal_strlit("heading_3");
    reveal_strlit("heading_4");
    reveal_strlit("numbered");
    reveal_strlit("paragraph");
    reveal_strlit("quote");
    reveal_strlit("title");
    reveal_strlit("toggle");
    reveal_strlit("toggle_heading_1");
    reveal_strlit("toggle_heading_2");
    reveal_strlit("toggle_heading_3");
    assert("bulleted"@.len() == 8);
    assert("callout"@.len() == 7);
    assert("checkbox"@.len() == 8);
    assert("code"@.len() == 4);
    assert("description"@.len() == 11);
    assert("heading_1"@.len() == 9);
    assert("heading_2"@.len() == 9);
    assert("heading_3"@.len() == 9);
    assert("heading_4"@.len() == 9);
    assert("numbered"@.len() == 8);
    assert("paragraph"@.len() == 9);
    assert("quote"@.len() == 5);
    assert("title"@.len() == 5);
    assert("toggle"@.len() == 6);
    assert("toggle_heading_1"@.len() == 16);
    assert("toggle_heading_2"@.len() == 16);
    assert("toggle_heading_3"@.len() == 16);
    assert("bulleted"@[0] == 'b');
    assert("checkbox"@[0] == 'c');
    assert("heading_1"@[0] == 'h');
    assert("heading_1"@[8] == '1');
    assert("heading_2"@[0] == 'h');
    assert("heading_2"@[8] == '2');
    assert("heading_3"@[0] == 'h');
    assert("heading_3"@[8] == '3');
    assert("heading_4"@[0] == 'h');
    assert("heading_4"@[8] == '4');
    assert("numbered"@[0] == 'n');
    assert("paragraph"@[0] == 'p');
    assert("quote"@[0] == 'q');
    assert("title"@[0] == 't');
    assert("toggle_heading_1"@[15] == '1');
    assert("toggle_heading_2"@[15] == '2');
    assert("toggle_heading_3"@[15] == '3');
}

/// Style that a caller may give to a text block.
#[derive(Clone, Copy, Debug, PartialEq, Eq, Structural)]
pub enum WritableTextStyle {
    Paragraph,
    Heading1,
    Heading2,
    Heading3,
    Quote,
    Code,
    Bulleted,
    Numbered,
    Checkbox,
    Toggle,
    Callout,
}

/// Label of a [`WritableTextStyle`].
pub open spec fn writable_style_label_text(value: WritableTextStyle) -> Seq<char> {
    match value {
        WritableTextStyle::Paragraph => "paragraph"@,
        WritableTextStyle::Heading1 => "heading_1"@,
        WritableTextStyle::Heading2 => "heading_2"@,
        WritableTextStyle::Heading3 => "heading_3"@,
        WritableTextStyle::Quote => "quote"@,
        WritableTextStyle::Code => "code"@,
        WritableTextStyle::Bulleted => "bulleted"@,
        WritableTextStyle::Numbered => "numbered"@,
        WritableTextStyle::Checkbox => "checkbox"@,
        WritableTextStyle::Toggle => "toggle"@,
        WritableTextStyle::Callout => "callout"@,
    }
}

/// Label of a [`WritableTextStyle`].
pub fn writable_style_label(value: WritableTextStyle) -> (r: &'static str)
    ensures
        r@ == writable_style_label_text(value),
{
    match value {
        WritableTextStyle::Paragraph => "paragraph",
        WritableTextStyle::Heading1 => "heading_1",
        WritableTextStyle::Heading2 => "heading_2",
        WritableTextStyle::Heading3 => "heading_3",
        WritableTextStyle::Quote => "quote",
        WritableTextStyle::Code => "code",
        WritableTextStyle::Bulleted => "bulleted",
        WritableTextStyle::Numbered => "numbered",
        WritableTextStyle::Checkbox => "checkbox",
        WritableTextStyle::Toggle => "toggle",
        WritableTextStyle::Callout => "callout",
    }
}

/// Different values of [`WritableTextStyle`] have different, short labels.
pub proof fn writable_style_label_injective(a: WritableTextStyle, b: WritableTextStyle)
    ensures
        writable_style_label_text(a) == writable_style_label_text(b) ==> a == b,
        writable_style_label_text(a).len() <= 20,
{
    reveal_strlit("bulleted");
    reveal_strlit("callout");
    reveal_strlit("checkbox");
    reveal_strlit("code");
    reveal_strlit("heading_1");
    reveal_strlit("heading_2");
    reveal_strlit("heading_3");
    reveal_strlit("numbered");
    reveal_strlit("paragraph");
    reveal_strlit("quote");
    reveal_strlit("toggle");
    assert("bulleted"@.len() == 8);
    assert("callout"@.len() == 7);
    assert("checkbox"@.len() == 8);
    assert("code"@.len() == 4);
    assert("heading_1"@.len() == 9);
    assert("heading_2"@.len() == 9);
    assert("heading_3"@.len() == 9);
    assert("numbered"@.len() == 8);
    assert("paragraph"@.len() == 9);
    assert("quote"@.len() == 5);
    assert("toggle"@.len() == 6);
    assert("bulleted"@[0] == 'b');
    assert("checkbox"@[0] == 'c');
    assert("heading_1"@[0] == 'h');
    assert("heading_1"@[8] == '1');
    assert("heading_2"@[0] == 'h');
    assert("heading_2"@[8] == '2');
    assert("heading_3"@[0] == 'h');
    assert("heading_3"@[8] == '3');
    assert("numbered"@[0] == 'n');
    assert("paragraph"@[0] == 'p');
}

/// Style of a divider.
#[derive(Clone, Copy, Debug, PartialEq, Eq, Structural)]
pub enum WireDividerStyle {
    Line,
    Dots,
}

/// Label of a [`WireDividerStyle`].
pub open spec fn divider_label_text(value: WireDividerStyle) -> Seq<char> {
    match value {
        WireDividerStyle::Line => "line"@,
        WireDividerStyle::Dots => "dots"@,
    }
}

/// Label of a [`WireDividerStyle`].
pub fn divider_label(value: WireDividerStyle) -> (r: &'static str)
    ensures
        r@ == divider_label_text(value),
{
    match value {
        WireDividerStyle::Line => "line",
        WireDividerStyle::Dots => "dots",
    }
}

/// Different values of [`WireDividerStyle`] have different, short labels.
pub proof fn divider_label_injective(a: WireDividerStyle, b: WireDividerStyle)
    ensures
        divider_label_text(a) == divider_label_text(b) ==> a == b,
        divider_label_text(a).len() <= 20,
{
    reveal_strlit("dots");
    reveal_strlit("line");
    assert("dots"@.len() == 4);
    assert("line"@.len() == 4);
    assert("dots"@[0] == 'd');
    assert("line"@[0] == 'l');
}

/// Style of a layout block.
#[derive(Clone, Copy, Debug, PartialEq, Eq, Structural)]
pub enum WireLayoutStyle {
    Row,
    Column,
    Div,
    Header,
    TableRows,
    TableColumns,
}

/// Label of a [`WireLayoutStyle`].
pub open spec fn layout_label_text(value: WireLayoutStyle) -> Seq<char> {
    match value {
        WireLayoutStyle::Row => "row"@,
        WireLayoutStyle::Column => "column"@,
        WireLayoutStyle::Div => "div"@,
        WireLayoutStyle::Header => "header"@,
        WireLayoutStyle::TableRows => "table_rows"@,
        WireLayoutStyle::TableColumns => "table_columns"@,
    }
}

impl WireLayoutStyle {
    /// Label of the value.
    pub fn as_str(self) -> (r: &'static str)
        ensures
            r@ == layout_label_text(self),
    {
        match self {
            WireLayoutStyle::Row => "row",
            WireLayoutStyle::Column => "column",
            WireLayoutStyle::Div => "div",
            WireLayoutStyle::Header => "header",
            WireLayoutStyle::TableRows => "table_rows",
            WireLayoutStyle::TableColumns => "table_columns",
        }
    }
}

/// Different values of [`WireLayoutStyle`] have different, short labels.
pub proof fn layout_label_injective(a: WireLayoutStyle, b: WireLayoutStyle)
    ensures
        layout_label_text(a) == layout_label_text(b) ==> a == b,
        layout_label_text(a).len() <= 20,
{
    reveal_strlit("column");
    reveal_strlit("div");
    reveal_strlit("header");
    reveal_strlit("row");
    reveal_strlit("table_columns");
    reveal_strlit("table_rows");
    assert("column"@.len() == 6);
    assert("div"@.len() == 3);
    assert("header"@.len() == 6);
    assert("row"@.len() == 3);
    assert("table_columns"@.len() == 13);
    assert("table_rows"@.len() == 10);
    assert("column"@[0] == 'c');
    assert("div"@[0] == 'd');
    assert("header"@[0] == 'h');
    assert("row"@[0] == 'r');
}

/// State of a bookmark.
#[derive(Clone, Copy, Debug, PartialEq, Eq, Structural)]
pub enum WireBookmarkState {
    Empty,
    Fetching,
    Done,
    Error,
}

/// Label of a [`WireBookmarkState`].
pub open spec fn bookmark_label_text(value: WireBookmarkState) -> Seq<char> {
    match value {
        WireBookmarkState::Empty => "empty"@,
        WireBookmarkState::Fetching => "fetching"@,
        WireBookmarkState::Done => "done"@,
        WireBookmarkState::Error => "error"@,
    }
}

impl WireBookmarkState {
    /// Label of the value.
    pub fn as_str(self) -> (r: &'static str)
        ensures
            r@ == bookmark_label_text(self),
    {
        match self {
            WireBookmarkState::Empty => "empty",
            WireBookmarkState::Fetching => "fetching",
            WireBookmarkState::Done => "done",
            WireBookmarkState::Error => "error",
        }
    }
}

/// Different values of [`WireBookmarkState`] have different, short labels.
pub proof fn bookmark_label_injective(a: WireBookmarkState, b: WireBookmarkState)
    ensures
        bookmark_label_text(a) == bookmark_label_text(b) ==> a == b,
        bookmark_label_text(a).len() <= 20,
{
    reveal_strlit("done");
    reveal_strlit("empty");
    reveal_strlit("error");
    reveal_strlit("fetching");
    assert("done"@.len() == 4);
    assert("empty"@.len() == 5);
    assert("error"@.len() == 5);
    assert("fetching"@.len() == 8);
    assert("empty"@[1] == 'm');
    assert("error"@[1] == 'r');
}

/// Kind of a file block.
#[derive(Clone, Copy, Debug, PartialEq, Eq, Structural)]
pub enum WireFileKind {
    Unspecified,
    File,
    Image,
    Video,
    Audio,
    Pdf,
}

/// Label of a [`WireFileKind`].
pub open spec fn file_kind_label_text(value: WireFileKind) -> Seq<char> {
    match value {
        WireFileKind::Unspecified => "none"@,
        WireFileKind::File => "file"@,
        WireFileKind::Image => "image"@,
        WireFileKind::Video => "video"@,
        WireFileKind::Audio => "audio"@,
        WireFileKind::Pdf => "pdf"@,
    }
}

impl WireFileKind {
    /// Label of the value.
    pub fn as_str(self) -> (r: &'static str)
        ensures
            r@ == file_kind_label_text(self),
    {
        match self {
            WireFileKind::Unspecified => "none",
            WireFileKind::File => "file",
            WireFileKind::Image => "image",
            WireFileKind::Video => "video",
            WireFileKind::Audio => "audio",
            WireFileKind::Pdf => "pdf",
        }
    }
}

/// Different values of [`WireFileKind`] have different, short labels.
pub proof fn file_kind_label_injective(a: WireFileKind, b: WireFileKind)
    ensures
        file_kind_label_text(a) == file_kind_label_text(b) ==> a == b,
        file_kind_label_text(a).len() <= 20,
{
    reveal_strlit("audio");
    reveal_strlit("file");
    reveal_strlit("image");
    reveal_strlit("none");
    reveal_strlit("pdf");
    reveal_strlit("video");
    assert("audio"@.len() == 5);
    assert("file"@.len() == 4);
    assert("image"@.len() == 5);
    assert("none"@.len() == 4);
    assert("pdf"@.len() == 3);
    assert("video"@.len() == 5);
    assert("audio"@[0] == 'a');
    assert("file"@[0] == 'f');
    assert("image"@[0] == 'i');
    assert("none"@[0] == 'n');
    assert("video"@[0] == 'v');
}

/// State of a file block.
#[derive(Clone, Copy, Debug, PartialEq, Eq, Structural)]
pub enum WireFileState {
    Empty,
    Uploading,
    Done,
    Error,
}

/// Label of a [`WireFileState`].
pub open spec fn file_state_label_text(value: WireFileState) -> Seq<char> {
    match value {
        WireFileState::Empty => "empty"@,
        WireFileState::Uploading => "uploading"@,
        WireFileState::Done => "done"@,
        WireFileState::Error => "error"@,
    }
}

impl WireFileState {
    /// Label of the value.
    pub fn as_str(self) -> (r: &'static str)
        ensures
            r@ == file_state_label_text(self),
    {
        match self {
            WireFileState::Empty => "empty",
            WireFileState::Uploading => "uploading",
            WireFileState::Done => "done",
            WireFileState::Error => "error",
        }
    }
}

/// Different values of [`WireFileState`] have different, short labels.
pub proof fn file_state_label_injective(a: WireFileState, b: WireFileState)
    ensures
        file_state_label_text(a) == file_state_label_text(b) ==> a == b,
        file_state_label_text(a).len() <= 20,
{
    reveal_strlit("done");
    reveal_strlit("empty");
    reveal_strlit("error");
    reveal_strlit("uploading");
    assert("done"@.len() == 4);
    assert("empty"@.len() == 5);
    assert("error"@.len() == 5);
    assert("uploading"@.len() == 9);
    assert("empty"@[1] == 'm');
    assert("error"@[1] == 'r');
}

/// Style of a file block.
#[derive(Clone, Copy, Debug, PartialEq, Eq, Structural)]
pub enum WireFileStyle {
    Auto,
    Link,
    Embed,
}

/// Label of a [`WireFileStyle`].
pub open spec fn file_style_label_text(value: WireFileStyle) -> Seq<char> {
    match value {
        WireFileStyle::Auto => "auto"@,
        WireFileStyle::Link => "link"@,
        WireFileStyle::Embed => "embed"@,
    }
}

impl WireFileStyle {
    /// Label of the value.
    pub fn as_str(self) -> (r: &'static str)
        ensures
            r@ == file_style_label_text(self),
    {
        match self {
            WireFileStyle::Auto => "auto",
            WireFileStyle::Link => "link",
            WireFileStyle::Embed => "embed",
        }
    }
}

/// Different values of [`WireFileStyle`] have different, short labels.
pub proof fn file_style_label_injective(a: WireFileStyle, b: WireFileStyle)
    ensures
        file_style_label_text(a) == file_style_label_text(b) ==> a == b,
        file_style_label_text(a).len() <= 20,
{
    reveal_strlit("auto");
    reveal_strlit("embed");
    reveal_strlit("link");
    assert("auto"@.len() == 4);
    assert("embed"@.len() == 5);
    assert("link"@.len() == 4);
    assert("auto"@[0] == 'a');
    assert("link"@[0] == 'l');
}

/// Where a block goes, relative to a target block.
#[derive(Clone, Copy, Debug, PartialEq, Eq, Structural)]
pub enum WireInsertPosition {
    Before,
    After,
    FirstChild,
    LastChild,
}

/// Card style of a link.
#[derive(Clone, Copy, Debug, PartialEq, Eq, Structural)]
pub enum WireLinkCardStyle {
    Text,
    Card,
    Inline,
}

/// Label of a [`WireLinkCardStyle`].
pub open spec fn link_card_label_text(value: WireLinkCardStyle) -> Seq<char> {
    match value {
        WireLinkCardStyle::Text => "text"@,
        WireLinkCardStyle::Card => "card"@,
        WireLinkCardStyle::Inline => "inline"@,
    }
}

/// Label of a [`WireLinkCardStyle`].
pub fn link_card_label(value: WireLinkCardStyle) -> (r: &'static str)
    ensures
        r@ == link_card_label_text(value),
{
    match value {
        WireLinkCardStyle::Text => "text",
        WireLinkCardStyle::Card => "card",
        WireLinkCardStyle::Inline => "inline",
    }
}

/// Different values of [`WireLinkCardStyle`] have different, short labels.
pub proof fn link_card_label_injective(a: WireLinkCardStyle, b: WireLinkCardStyle)
    ensures
        link_card_label_text(a) == link_card_label_text(b) ==> a == b,
        link_card_label_text(a).len() <= 20,
{
    reveal_strlit("card");
    reveal_strlit("inline");
    reveal_strlit("text");
    assert("card"@.len() == 4);
    assert("inline"@.len() == 6);
    assert("text"@.len() == 4);
    assert("card"@[0] == 'c');
    assert("text"@[0] == 't');
}

/// Icon size of a link.
#[derive(Clone, Copy, Debug, PartialEq, Eq, Structural)]
pub enum WireLinkIconSize {
    Hidden,
    Small,
    Medium,
}

/// Label of a [`WireLinkIconSize`].
pub open spec fn link_icon_label_text(value: WireLinkIconSize) -> Seq<char> {
    match value {
        WireLinkIconSize::Hidden => "none"@,
        WireLinkIconSize::Small => "small"@,
        WireLinkIconSize::Medium => "medium"@,
    }
}

/// Label of a [`WireLinkIconSize`].
pub fn link_icon_label(value: WireLinkIconSize) -> (r: &'static str)
    ensures
        r@ == link_icon_label_text(value),
{
    match value {
        WireLinkIconSize::Hidden => "none",
        WireLinkIconSize::Small => "small",
        WireLinkIconSize::Medium => "medium",
    }
}

/// Different values of [`WireLinkIconSize`] have different, short labels.
pub proof fn link_icon_label_injective(a: WireLinkIconSize, b: WireLinkIconSize)
    ensures
        link_icon_label_text(a) == link_icon_label_text(b) ==> a == b,
        link_icon_label_text(a).len() <= 20,
{
    reveal_strlit("medium");
    reveal_strlit("none");
    reveal_strlit("small");
    assert("medium"@.len() == 6);
    assert("none"@.len() == 4);
    assert("small"@.len() == 5);
}

/// Description mode of a link.
#[derive(Clone, Copy, Debug, PartialEq, Eq, Structural)]
pub enum WireLinkDescription {
    Hidden,
    Added,
    Content,
}

/// Label of a [`WireLinkDescription`].
pub open spec fn link_description_label_text(value: WireLinkDescription) -> Seq<char> {
    match value {
        WireLinkDescription::Hidden => "none"@,
        WireLinkDescription::Added => "added"@,
        WireLinkDescription::Content => "content"@,
    }
}

/// Label of a [`WireLinkDescription`].
pub fn link_description_label(value: WireLinkDescription) -> (r: &'static str)
    ensures
        r@ == link_description_label_text(value),
{
    match value {
        WireLinkDescription::Hidden => "none",
        WireLinkDescription::Added => "added",
        WireLinkDescription::Content => "content",
    }
}

/// Different values of [`WireLinkDescription`] have different, short labels.
pub proof fn link_description_label_injective(a: WireLinkDescription, b: WireLinkDescription)
    ensures
        link_description_label_text(a) == link_description_label_text(b) ==> a == b,
        link_description_label_text(a).len() <= 20,
{
    reveal_strlit("added");
    reveal_strlit("content");
    reveal_strlit("none");
    assert("added"@.len() == 5);
    assert("content"@.len() == 7);
    assert("none"@.len() == 4);
}

/// Processor of an embed.
#[derive(Clone, Copy, Debug, PartialEq, Eq, Structural)]
pub enum WireEmbedProcessor {
    Latex,
    Mermaid,
    Youtube,
}

/// Label of a [`WireEmbedProcessor`].
pub open spec fn embed_label_text(value: WireEmbedProcessor) -> Seq<char> {
    match value {
        WireEmbedProcessor::Latex => "latex"@,
        WireEmbedProcessor::Mermaid => "mermaid"@,
        WireEmbedProcessor::Youtube => "youtube"@,
    }
}

/// Label of a [`WireEmbedProcessor`].
pub fn embed_label(value: WireEmbedProcessor) -> (r: &'static str)
    ensures
        r@ == embed_label_text(value),
{
    match value {
        WireEmbedProcessor::Latex => "latex",
        WireEmbedProcessor::Mermaid => "mermaid",
        WireEmbedProcessor::Youtube => "youtube",
    }
}

/// Different values of [`WireEmbedProcessor`] have different, short labels.
pub proof fn embed_label_injective(a: WireEmbedProcessor, b: WireEmbedProcessor)
    ensures
        embed_label_text(a) == embed_label_text(b) ==> a == b,
        embed_label_text(a).len() <= 20,
{
    reveal_strlit("latex");
    reveal_strlit("mermaid");
    reveal_strlit("youtube");
    assert("latex"@.len() == 5);
    assert("mermaid"@.len() == 7);
    assert("youtube"@.len() == 7);
    assert("mermaid"@[0] == 'm');
    assert("youtube"@[0] == 'y');
}

/// Wire style of a writable style.
pub open spec fn writable_as_wire(style: WritableTextStyle) -> WireTextStyle {
    match style {
        WritableTextStyle::Paragraph => WireTextStyle::Paragraph,
        WritableTextStyle::Heading1 => WireTextStyle::Heading1,
        WritableTextStyle::Heading2 => WireTextStyle::Heading2,
        WritableTextStyle::Heading3 => WireTextStyle::Heading3,
        WritableTextStyle::Quote => WireTextStyle::Quote,
        WritableTextStyle::Code => WireTextStyle::Code,
        WritableTextStyle::Bulleted => WireTextStyle::Bulleted,
        WritableTextStyle::Numbered => WireTextStyle::Numbered,
        WritableTextStyle::Checkbox => WireTextStyle::Checkbox,
        WritableTextStyle::Toggle => WireTextStyle::Toggle,
        WritableTextStyle::Callout => WireTextStyle::Callout,
    }
}

impl WritableTextStyle {
    /// The same style as it is read back.
    pub fn as_wire(self) -> (r: WireTextStyle)
        ensures
            r == writable_as_wire(self),
    {
        match self {
            WritableTextStyle::Paragraph => WireTextStyle::Paragraph,
            WritableTextStyle::Heading1 => WireTextStyle::Heading1,
            WritableTextStyle::Heading2 => WireTextStyle::Heading2,
            WritableTextStyle::Heading3 => WireTextStyle::Heading3,
            WritableTextStyle::Quote => WireTextStyle::Quote,
            WritableTextStyle::Code => WireTextStyle::Code,
            WritableTextStyle::Bulleted => WireTextStyle::Bulleted,
            WritableTextStyle::Numbered => WireTextStyle::Numbered,
            WritableTextStyle::Checkbox => WireTextStyle::Checkbox,
            WritableTextStyle::Toggle => WireTextStyle::Toggle,
            WritableTextStyle::Callout => WireTextStyle::Callout,
        }
    }
}

/// A writable style reads back under its own label, and no two writable styles
/// read back alike.
pub proof fn writable_style_reads_back(a: WritableTextStyle, b: WritableTextStyle)
    ensures
        text_style_label_text(writable_as_wire(a)) == writable_style_label_text(a),
        writable_as_wire(a) == writable_as_wire(b) ==> a == b,
{
}

} // verus!
