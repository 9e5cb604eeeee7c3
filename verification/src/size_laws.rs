//! How large a request is: the bytes of every text of variable length that it
//! carries, each counted once.

use crate::compose::{
    block_variable, mark_variable, marks_variable, opt_variable, texts_variable,
};
use crate::input::{requested_background, NewBlockInput};
use crate::model::{IconV, MarkKindV, MarkV};
use crate::text::{byte_len, opt_view, views};
use vstd::prelude::*;

verus! {

/// Bytes of some texts together.
pub open spec fn bytes_of(texts: Seq<Seq<char>>) -> int
    decreases texts.len(),
{
    if texts.len() == 0 {
        0
    } else {
        bytes_of(texts.drop_last()) + byte_len(texts.last())
    }
}

proof fn bytes_add_up(a: Seq<Seq<char>>, b: Seq<Seq<char>>)
    ensures
        bytes_of(a + b) == bytes_of(a) + bytes_of(b),
    decreases b.len(),
{
    if b.len() == 0 {
        assert(a + b =~= a);
    } else {
        assert((a + b).drop_last() =~= a + b.drop_last());
        assert((a + b).last() == b.last());
        bytes_add_up(a, b.drop_last());
    }
}

/// The text that a mark carries, if any.
pub open spec fn mark_texts(kind: MarkKindV) -> Seq<Seq<char>> {
    match kind {
        MarkKindV::Link(url) => seq![url],
        MarkKindV::TextColor(color) => seq![color],
        MarkKindV::BackgroundColor(color) => seq![color],
        MarkKindV::Mention(id) => seq![id],
        MarkKindV::Emoji(emoji) => seq![emoji],
        MarkKindV::Object(id) => seq![id],
        _ => Seq::empty(),
    }
}

/// The texts that the first `n` marks carry.
pub open spec fn all_mark_texts(marks: Seq<MarkV>, n: int) -> Seq<Seq<char>>
    decreases n,
{
    if n <= 0 {
        Seq::empty()
    } else {
        all_mark_texts(marks, n - 1) + mark_texts(marks[n - 1].kind)
    }
}

/// An optional text as a list.
pub open spec fn if_any(text: Option<Seq<char>>) -> Seq<Seq<char>> {
    match text {
        Some(text) => seq![text],
        None => Seq::empty(),
    }
}

/// Every text of variable length that a new block carries.
pub open spec fn carried_texts(input: NewBlockInput) -> Seq<Seq<char>> {
    let background = if_any(opt_view(requested_background(input)));
    match input {
        NewBlockInput::Text { text, marks, text_color, icon, .. } => seq![text@] + all_mark_texts(
            views(marks@),
            marks.len() as int,
        ) + if_any(opt_view(text_color)) + if_any(
            match opt_view(icon) {
                Some(IconV::Emoji(emoji)) => Some(emoji),
                Some(IconV::Image(id)) => Some(id),
                None => None,
            },
        ) + background,
        NewBlockInput::Link { target_object_id, relations, .. } => seq![target_object_id@] + views(
            relations@,
        ) + background,
        NewBlockInput::Relation { key, .. } => seq![key@] + background,
        NewBlockInput::Embed { source, .. } => seq![source@] + background,
        NewBlockInput::Divider { .. } => background,
        NewBlockInput::TableOfContents { .. } => background,
        NewBlockInput::Table { .. } => Seq::empty(),
    }
}

proof fn one_text(text: Seq<char>)
    ensures
        bytes_of(seq![text]) == byte_len(text),
{
    assert(seq![text].drop_last() =~= Seq::<Seq<char>>::empty());
    assert(bytes_of(seq![text].drop_last()) == 0);
}

proof fn optional_text(text: Option<Seq<char>>)
    ensures
        bytes_of(if_any(text)) == opt_variable(text),
{
    if let Some(text) = text {
        one_text(text);
    }
}

proof fn marks_are_counted(marks: Seq<MarkV>, n: int)
    requires
        0 <= n <= marks.len(),
    ensures
        bytes_of(all_mark_texts(marks, n)) == marks_variable(marks, n),
    decreases n,
{
    if n > 0 {
        let kind = marks[n - 1].kind;
        marks_are_counted(marks, n - 1);
        bytes_add_up(all_mark_texts(marks, n - 1), mark_texts(kind));
        if mark_texts(kind).len() > 0 {
            assert(mark_texts(kind) =~= seq![mark_texts(kind)[0]]);
            one_text(mark_texts(kind)[0]);
        }
        assert(bytes_of(mark_texts(kind)) == mark_variable(kind));
    }
}

proof fn texts_are_counted(texts: Seq<Seq<char>>, n: int)
    requires
        0 <= n <= texts.len(),
    ensures
        bytes_of(texts.take(n)) == texts_variable(texts, n),
    decreases n,
{
    if n > 0 {
        texts_are_counted(texts, n - 1);
        assert(texts.take(n).drop_last() =~= texts.take(n - 1));
    }
}

/// The size of a new block is the number of bytes of all the texts it carries.
pub proof fn size_counts_every_carried_text(input: NewBlockInput)
    ensures
        block_variable(input) == bytes_of(carried_texts(input)),
{
    let background = if_any(opt_view(requested_background(input)));
    optional_text(opt_view(requested_background(input)));
    match input {
        NewBlockInput::Text { text, marks, text_color, icon, .. } => {
            let m = all_mark_texts(views(marks@), marks.len() as int);
            let c = if_any(opt_view(text_color));
            let shown = match opt_view(icon) {
                Some(IconV::Emoji(emoji)) => Some(emoji),
                Some(IconV::Image(id)) => Some(id),
                None => None,
            };
            one_text(text@);
            marks_are_counted(views(marks@), marks.len() as int);
            optional_text(opt_view(text_color));
            optional_text(shown);
            bytes_add_up(seq![text@], m);
            bytes_add_up(seq![text@] + m, c);
            bytes_add_up(seq![text@] + m + c, if_any(shown));
            bytes_add_up(seq![text@] + m + c + if_any(shown), background);
        },
        NewBlockInput::Link { target_object_id, relations, .. } => {
            let r = views(relations@);
            one_text(target_object_id@);
            texts_are_counted(r, r.len() as int);
            assert(r.take(r.len() as int) =~= r);
            bytes_add_up(seq![target_object_id@], r);
            bytes_add_up(seq![target_object_id@] + r, background);
        },
        NewBlockInput::Relation { key, .. } => {
            one_text(key@);
            bytes_add_up(seq![key@], background);
        },
        NewBlockInput::Embed { source, .. } => {
            one_text(source@);
            bytes_add_up(seq![source@], background);
        },
        _ => {},
    }
}

} // verus!
