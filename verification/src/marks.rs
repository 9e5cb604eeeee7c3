//! Bounded texts, UTF-16 ranges and marks.

use crate::domain::{
    valid_color, valid_entity_id, BodyInputError, ColorInput, EntityId,
};
use crate::error::ToolError;
use crate::model::{IconV, MarkKindV, MarkV, TextRange, WireIcon, WireMark};
use crate::text::{byte_len, contains_control, has_control, text_bytes, views, Same};
use vstd::prelude::*;

verus! {

/// Largest address in bytes.
pub const MAX_URL_BYTES: usize = 2_048;

/// Largest emoji in bytes.
pub const MAX_EMOJI_BYTES: usize = 64;

/// Largest number of marks on one text.
pub const MAX_MARKS_PER_TEXT: usize = 128;

/// An address: bounded, without control characters.
pub open spec fn valid_url(text: Seq<char>) -> bool {
    byte_len(text) <= MAX_URL_BYTES && !has_control(text)
}

/// An emoji: nonempty, bounded, without control characters.
pub open spec fn valid_emoji(text: Seq<char>) -> bool {
    1 <= byte_len(text) <= MAX_EMOJI_BYTES && !has_control(text)
}

/// Accepts a bounded address without control characters.
pub fn validate_url(value: &str) -> (r: Result<(), BodyInputError>)
    ensures
        r is Ok <==> valid_url(value@),
{
    if text_bytes(value) <= MAX_URL_BYTES && !contains_control(value) {
        Ok(())
    } else {
        Err(BodyInputError)
    }
}

/// Accepts a bounded nonempty emoji without control characters.
pub fn validate_emoji(value: &str) -> (r: Result<(), BodyInputError>)
    ensures
        r is Ok <==> valid_emoji(value@),
{
    let bytes: usize = text_bytes(value);
    if 1 <= bytes && bytes <= MAX_EMOJI_BYTES && !contains_control(value) {
        Ok(())
    } else {
        Err(BodyInputError)
    }
}

/// UTF-16 code units of a character.
pub open spec fn utf16_units(c: char) -> int {
    if (c as u32) < 0x1_0000 {
        1
    } else {
        2
    }
}

/// UTF-16 code units of the first `n` characters.
pub open spec fn utf16_offset(text: Seq<char>, n: int) -> int
    decreases n,
{
    if n <= 0 {
        0
    } else {
        utf16_offset(text, n - 1) + utf16_units(text[n - 1])
    }
}

/// A UTF-16 offset that falls between two characters or at an end of the text.
pub open spec fn utf16_boundary(text: Seq<char>, offset: int) -> bool {
    exists|n: int| 0 <= n <= text.len() && #[trigger] utf16_offset(text, n) == offset
}

/// A range that starts no later than it ends and splits no character.
pub open spec fn range_aligned(text: Seq<char>, start: int, end: int) -> bool {
    &&& start <= end
    &&& utf16_boundary(text, start)
    &&& utf16_boundary(text, end)
}

proof fn utf16_offset_grows(text: Seq<char>, a: int, b: int)
    requires
        0 <= a < b <= text.len(),
    ensures
        utf16_offset(text, a) < utf16_offset(text, b),
    decreases b,
{
    if a < b - 1 {
        utf16_offset_grows(text, a, b - 1);
    }
}

/// Tests that an offset splits no character.
pub fn is_utf16_boundary(text: &str, offset: u32) -> (r: bool)
    ensures
        r == utf16_boundary(text@, offset as int),
{
    let mut units: u64 = 0;
    for c in it: text.chars()
        invariant
            it.seq() == text@,
            units == utf16_offset(text@, it.index() as int),
            units < offset || units == 0,
            forall|n: int|
                0 <= n < it.index() ==> #[trigger] utf16_offset(text@, n) != offset as int,
    {
        if units == offset as u64 {
            assert(utf16_offset(text@, it.index() as int) == offset as int);
            return true;
        }
        let wide: bool = c as u32 >= 0x1_0000;
        let ghost before = it.index() as int;
        assert(text@[before] == c);
        assert(utf16_offset(text@, before + 1) == utf16_offset(text@, before) + utf16_units(c));
        units =
        units + if wide {
            2
        } else {
            1
        };
        if units > offset as u64 {
            assert forall|n: int| 0 <= n <= text@.len() implies #[trigger] utf16_offset(text@, n)
                != offset as int by {
                if n > before + 1 {
                    utf16_offset_grows(text@, before + 1, n);
                }
            }
            return false;
        }
        if units == offset as u64 {
            assert(utf16_offset(text@, before + 1) == offset as int);
            return true;
        }
    }
    let ghost total = text@.len() as int;
    if units == offset as u64 {
        assert(utf16_offset(text@, total) == offset as int);
        return true;
    }
    false
}

impl TextRange {
    /// Tests that the range splits no character of a text.
    pub fn is_aligned(self, text: &str) -> (r: bool)
        ensures
            r == range_aligned(text@, self.start as int, self.end as int),
    {
        self.start <= self.end && is_utf16_boundary(text, self.start) && is_utf16_boundary(
            text,
            self.end,
        )
    }
}

/// What a mark does, before its text is bounded.
#[derive(Clone, Debug, PartialEq, Eq)]
pub enum MarkKind {
    Bold,
    Italic,
    Strikethrough,
    Underline,
    Code,
    Link { url: String },
    TextColor { color: String },
    BackgroundColor { color: String },
    Mention { object_id: String },
    Emoji { emoji: String },
    Object { object_id: String },
}

impl View for MarkKind {
    type V = MarkKindV;

    open spec fn view(&self) -> MarkKindV {
        match self {
            MarkKind::Bold => MarkKindV::Bold,
            MarkKind::Italic => MarkKindV::Italic,
            MarkKind::Strikethrough => MarkKindV::Strikethrough,
            MarkKind::Underline => MarkKindV::Underline,
            MarkKind::Code => MarkKindV::Code,
            MarkKind::Link { url } => MarkKindV::Link(url@),
            MarkKind::TextColor { color } => MarkKindV::TextColor(color@),
            MarkKind::BackgroundColor { color } => MarkKindV::BackgroundColor(color@),
            MarkKind::Mention { object_id } => MarkKindV::Mention(object_id@),
            MarkKind::Emoji { emoji } => MarkKindV::Emoji(emoji@),
            MarkKind::Object { object_id } => MarkKindV::Object(object_id@),
        }
    }
}

/// A mark as the body service holds it.
#[derive(Clone, Debug, PartialEq, Eq)]
pub struct TextMark {
    pub range: TextRange,
    pub kind: MarkKind,
}

impl TextMark {
    /// A mark of a kind on a range.
    pub fn new(range: TextRange, kind: MarkKind) -> (r: TextMark)
        ensures
            r.range == range,
            r.kind == kind,
    {
        TextMark { range, kind }
    }
}

impl View for TextMark {
    type V = MarkV;

    open spec fn view(&self) -> MarkV {
        MarkV { start: self.range.start, end: self.range.end, kind: self.kind@ }
    }
}

impl Same for TextMark {
    fn same(&self, other: &Self) -> (r: bool) {
        if self.range.start != other.range.start || self.range.end != other.range.end {
            return false;
        }
        match (&self.kind, &other.kind) {
            (MarkKind::Bold, MarkKind::Bold) => true,
            (MarkKind::Italic, MarkKind::Italic) => true,
            (MarkKind::Strikethrough, MarkKind::Strikethrough) => true,
            (MarkKind::Underline, MarkKind::Underline) => true,
            (MarkKind::Code, MarkKind::Code) => true,
            (MarkKind::Link { url: a }, MarkKind::Link { url: b }) => a.same(b),
            (MarkKind::TextColor { color: a }, MarkKind::TextColor { color: b }) => a.same(b),
            (MarkKind::BackgroundColor { color: a }, MarkKind::BackgroundColor { color: b }) =>
                a.same(b),
            (MarkKind::Mention { object_id: a }, MarkKind::Mention { object_id: b }) => a.same(b),
            (MarkKind::Emoji { emoji: a }, MarkKind::Emoji { emoji: b }) => a.same(b),
            (MarkKind::Object { object_id: a }, MarkKind::Object { object_id: b }) => a.same(b),
            _ => false,
        }
    }

    fn duplicate(&self) -> (r: Self) {
        let kind: MarkKind = match &self.kind {
            MarkKind::Bold => MarkKind::Bold,
            MarkKind::Italic => MarkKind::Italic,
            MarkKind::Strikethrough => MarkKind::Strikethrough,
            MarkKind::Underline => MarkKind::Underline,
            MarkKind::Code => MarkKind::Code,
            MarkKind::Link { url } => MarkKind::Link { url: url.clone() },
            MarkKind::TextColor { color } => MarkKind::TextColor { color: color.clone() },
            MarkKind::BackgroundColor { color } => MarkKind::BackgroundColor {
                color: color.clone(),
            },
            MarkKind::Mention { object_id } => MarkKind::Mention { object_id: object_id.clone() },
            MarkKind::Emoji { emoji } => MarkKind::Emoji { emoji: emoji.clone() },
            MarkKind::Object { object_id } => MarkKind::Object { object_id: object_id.clone() },
        };
        TextMark { range: self.range, kind }
    }
}

/// A mark kind whose text is acceptable.
pub open spec fn mark_kind_valid(kind: MarkKindV) -> bool {
    match kind {
        MarkKindV::Link(url) => valid_url(url),
        MarkKindV::TextColor(color) => valid_color(color),
        MarkKindV::BackgroundColor(color) => valid_color(color),
        MarkKindV::Mention(id) => valid_entity_id(id),
        MarkKindV::Emoji(emoji) => valid_emoji(emoji),
        MarkKindV::Object(id) => valid_entity_id(id),
        _ => true,
    }
}

/// A mark that can be shown on this text.
pub open spec fn mark_shown(mark: MarkV, text: Seq<char>) -> bool {
    range_aligned(text, mark.start as int, mark.end as int) && mark_kind_valid(mark.kind)
}

/// A mark that a caller may put on this text: one that can be shown and is not
/// empty.
pub open spec fn mark_accepted(mark: MarkV, text: Seq<char>) -> bool {
    mark.start != mark.end && mark_shown(mark, text)
}

/// A mark that a caller may put on a text is shown on that text unchanged.
pub proof fn accepted_mark_is_shown(mark: MarkV, text: Seq<char>)
    requires
        mark_accepted(mark, text),
    ensures
        mark_shown(mark, text),
{
}

/// Shows a mark of the body service.
pub fn project_mark(mark: &TextMark, text: &str) -> (r: Result<WireMark, ToolError>)
    ensures
        match r {
            Ok(shown) => mark_shown(mark@, text@) && shown@ == mark@,
            Err(error) => !mark_shown(mark@, text@) && error == ToolError::Upstream,
        },
{
    let start: u32 = mark.range.start;
    let end: u32 = mark.range.end;
    if !mark.range.is_aligned(text) {
        return Err(ToolError::upstream());
    }
    match &mark.kind {
        MarkKind::Bold => Ok(WireMark::Bold { start, end }),
        MarkKind::Italic => Ok(WireMark::Italic { start, end }),
        MarkKind::Strikethrough => Ok(WireMark::Strikethrough { start, end }),
        MarkKind::Underline => Ok(WireMark::Underline { start, end }),
        MarkKind::Code => Ok(WireMark::Code { start, end }),
        MarkKind::Link { url } => match validate_url(url.as_str()) {
            Ok(()) => Ok(WireMark::Link { start, end, url: url.clone() }),
            Err(_) => Err(ToolError::upstream()),
        },
        MarkKind::TextColor { color } => match ColorInput::new(color.clone()) {
            Ok(color) => Ok(WireMark::TextColor { start, end, color }),
            Err(_) => Err(ToolError::upstream()),
        },
        MarkKind::BackgroundColor { color } => match ColorInput::new(color.clone()) {
            Ok(color) => Ok(WireMark::BackgroundColor { start, end, color }),
            Err(_) => Err(ToolError::upstream()),
        },
        MarkKind::Mention { object_id } => match EntityId::new(object_id.as_str()) {
            Ok(object_id) => Ok(WireMark::Mention { start, end, object_id }),
            Err(_) => Err(ToolError::upstream()),
        },
        MarkKind::Emoji { emoji } => match validate_emoji(emoji.as_str()) {
            Ok(()) => Ok(WireMark::Emoji { start, end, emoji: emoji.clone() }),
            Err(_) => Err(ToolError::upstream()),
        },
        MarkKind::Object { object_id } => match EntityId::new(object_id.as_str()) {
            Ok(object_id) => Ok(WireMark::Object { start, end, object_id }),
            Err(_) => Err(ToolError::upstream()),
        },
    }
}

/// Accepts a mark of a caller for the body service.
pub fn input_mark(value: &WireMark, text: &str) -> (r: Result<TextMark, ToolError>)
    ensures
        match r {
            Ok(mark) => mark_accepted(value@, text@) && mark@ == value@,
            Err(error) => !mark_accepted(value@, text@) && error == ToolError::Validation,
        },
{
    let range: TextRange = value.range();
    if range.start == range.end || !range.is_aligned(text) {
        return Err(ToolError::validation());
    }
    let kind: MarkKind = match value {
        WireMark::Bold { .. } => MarkKind::Bold,
        WireMark::Italic { .. } => MarkKind::Italic,
        WireMark::Strikethrough { .. } => MarkKind::Strikethrough,
        WireMark::Underline { .. } => MarkKind::Underline,
        WireMark::Code { .. } => MarkKind::Code,
        WireMark::Link { url, .. } => {
            if validate_url(url.as_str()).is_err() {
                return Err(ToolError::validation());
            }
            MarkKind::Link { url: url.clone() }
        },
        WireMark::TextColor { color, .. } => MarkKind::TextColor {
            color: color.as_str().to_owned(),
        },
        WireMark::BackgroundColor { color, .. } => MarkKind::BackgroundColor {
            color: color.as_str().to_owned(),
        },
        WireMark::Mention { object_id, .. } => MarkKind::Mention {
            object_id: object_id.as_str().to_owned(),
        },
        WireMark::Emoji { emoji, .. } => {
            if validate_emoji(emoji.as_str()).is_err() {
                return Err(ToolError::validation());
            }
            MarkKind::Emoji { emoji: emoji.clone() }
        },
        WireMark::Object { object_id, .. } => MarkKind::Object {
            object_id: object_id.as_str().to_owned(),
        },
    };
    Ok(TextMark::new(range, kind))
}

/// Marks that a caller may put on one text: boundedly many, each acceptable,
/// none twice.
pub open spec fn marks_accepted(marks: Seq<MarkV>, text: Seq<char>) -> bool {
    &&& marks.len() <= MAX_MARKS_PER_TEXT
    &&& forall|i: int| 0 <= i < marks.len() ==> mark_accepted(#[trigger] marks[i], text)
    &&& marks.no_duplicates()
}

/// Accepts the marks of a caller for the body service.
pub fn input_marks(values: &Vec<WireMark>, text: &str) -> (r: Result<Vec<TextMark>, ToolError>)
    ensures
        match r {
            Ok(marks) => marks_accepted(views(values@), text@) && views(marks@) == views(values@),
            Err(error) => !marks_accepted(views(values@), text@) && error == ToolError::Validation,
        },
{
    let ghost list = views(values@);
    if values.len() > MAX_MARKS_PER_TEXT {
        assert(list.len() > MAX_MARKS_PER_TEXT);
        return Err(ToolError::validation());
    }
    let mut result: Vec<TextMark> = Vec::new();
    let mut i: usize = 0;
    while i < values.len()
        invariant
            i <= values.len(),
            values.len() <= MAX_MARKS_PER_TEXT,
            list == views(values@),
            result.len() == i,
            views(result@) =~= list.subrange(0, i as int),
            forall|k: int| 0 <= k < i ==> mark_accepted(#[trigger] list[k], text@),
            forall|a: int, b: int| 0 <= a < b < i ==> (#[trigger] list[a]) != (#[trigger] list[b]),
        decreases values.len() - i,
    {
        assert(list[i as int] == values@[i as int]@);
        let candidate: TextMark = match input_mark(&values[i], text) {
            Ok(mark) => mark,
            Err(error) => {
                assert(!mark_accepted(list[i as int], text@));
                return Err(error);
            },
        };
        if crate::text::contains_same(&result, &candidate) {
            proof {
                let k = choose|k: int|
                    0 <= k < views(result@).len() && views(result@)[k] == candidate@;
                assert(list[k] == list[i as int]);
            }
            return Err(ToolError::validation());
        }
        proof {
            assert forall|a: int| 0 <= a < i implies (#[trigger] list[a]) != list[i as int] by {
                assert(views(result@)[a] == list[a]);
                assert(!views(result@).contains(candidate@));
            }
        }
        let ghost before = result@;
        result.push(candidate);
        assert(views(result@) =~= views(before).push(candidate@));
        i += 1;
    }
    assert(list.subrange(0, list.len() as int) =~= list);
    assert forall|a: int, b: int|
        0 <= a < list.len() && 0 <= b < list.len() && a != b implies list[a] != list[b] by {
        if a > b {
            assert(list[b] != list[a]);
        }
    }
    Ok(result)
}

/// Callout icon as the body service holds it.
#[derive(Clone, Debug, PartialEq, Eq)]
pub enum CalloutIcon {
    Emoji(String),
    Image(String),
}

impl View for CalloutIcon {
    type V = IconV;

    open spec fn view(&self) -> IconV {
        match self {
            CalloutIcon::Emoji(emoji) => IconV::Emoji(emoji@),
            CalloutIcon::Image(id) => IconV::Image(id@),
        }
    }
}

/// An icon whose text is acceptable.
pub open spec fn icon_valid(icon: IconV) -> bool {
    match icon {
        IconV::Emoji(emoji) => valid_emoji(emoji),
        IconV::Image(id) => valid_entity_id(id),
    }
}

/// Shows an icon of the body service.
pub fn project_icon(icon: &CalloutIcon) -> (r: Result<WireIcon, ToolError>)
    ensures
        match r {
            Ok(shown) => icon_valid(icon@) && shown@ == icon@,
            Err(error) => !icon_valid(icon@) && error == ToolError::Upstream,
        },
{
    match icon {
        CalloutIcon::Emoji(emoji) => match validate_emoji(emoji.as_str()) {
            Ok(()) => Ok(WireIcon::Emoji { emoji: emoji.clone() }),
            Err(_) => Err(ToolError::upstream()),
        },
        CalloutIcon::Image(id) => match EntityId::new(id.as_str()) {
            Ok(object_id) => Ok(WireIcon::Image { object_id }),
            Err(_) => Err(ToolError::upstream()),
        },
    }
}

/// Accepts an icon of a caller for the body service.
pub fn callout_icon(value: &WireIcon) -> (r: Result<CalloutIcon, ToolError>)
    ensures
        match r {
            Ok(icon) => icon_valid(value@) && icon@ == value@,
            Err(error) => !icon_valid(value@) && error == ToolError::Validation,
        },
{
    match value {
        WireIcon::Emoji { emoji } => match validate_emoji(emoji.as_str()) {
            Ok(()) => Ok(CalloutIcon::Emoji(emoji.clone())),
            Err(_) => Err(ToolError::validation()),
        },
        WireIcon::Image { object_id } => Ok(CalloutIcon::Image(object_id.as_str().to_owned())),
    }
}

} // verus!
