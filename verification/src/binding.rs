//! A snapshot hash binds the whole body: the encoding under the hash can be
//! read back, so two bodies with one encoding are one body.

use crate::encoding::{
    be_bytes, be_cut, be_fits_u32, be_fits_u64, bool_cut, cut, enc_bool, enc_list, enc_opt_text,
    enc_text, list_cut, opt_text_cut, opt_text_fits, separable, snapshot_domain, text_cut,
    text_fits, text_parts, texts_cut,
};
use crate::hashing::{
    content_label, enc_body, enc_content, enc_content_fields, enc_icon, enc_look, enc_mark,
    enc_place, enc_restrictions, enc_summary, mark_label, mark_parts, mark_payload, summary_parts,
};
use crate::model::{
    ContentV, IconV, MarkKindV, MarkV, RestrictionsProjection, SummaryV,
};
use crate::text::byte_len;
use crate::wire::{
    bookmark_label_injective, bookmark_label_text, divider_label_injective, divider_label_text,
    embed_label_injective, embed_label_text, file_kind_label_injective, file_kind_label_text,
    file_state_label_injective, file_state_label_text, file_style_label_injective,
    file_style_label_text, horizontal_label_injective, horizontal_label_text,
    layout_label_injective, layout_label_text, link_card_label_injective, link_card_label_text,
    link_description_label_injective, link_description_label_text, link_icon_label_injective,
    link_icon_label_text, text_style_label_injective, text_style_label_text,
    vertical_label_injective, vertical_label_text,
};
use vstd::prelude::*;
use vstd::utf8::*;

verus! {

/// A mark whose text has a length that eight bytes hold.
pub open spec fn mark_fits(mark: MarkV) -> bool {
    opt_text_fits(mark_payload(mark.kind))
}

/// An icon whose text has a length that eight bytes hold.
pub open spec fn icon_fits(icon: Option<IconV>) -> bool {
    match icon {
        Some(IconV::Emoji(text)) => text_fits(text),
        Some(IconV::Image(text)) => text_fits(text),
        None => true,
    }
}

/// Content whose texts, lists and numbers fit their eight-byte fields.
pub open spec fn content_fits(content: ContentV) -> bool {
    match content {
        ContentV::Text { text, color, icon, marks, .. } => {
            &&& text_fits(text)
            &&& opt_text_fits(color)
            &&& icon_fits(icon)
            &&& marks.len() <= u64::MAX
            &&& forall|i: int| 0 <= i < marks.len() ==> mark_fits(#[trigger] marks[i])
        },
        ContentV::Bookmark { url, target, .. } => text_fits(url) && opt_text_fits(target),
        ContentV::Link { target, relations, .. } => {
            &&& text_fits(target)
            &&& relations.len() <= u64::MAX
            &&& forall|i: int| 0 <= i < relations.len() ==> text_fits(#[trigger] relations[i])
        },
        ContentV::Relation { key } => text_fits(key),
        ContentV::Embed { source, .. } => text_fits(source),
        ContentV::File { target, mime, size, .. } => text_fits(target) && text_fits(mime) && 0
            <= size <= u64::MAX,
        ContentV::Unsupported { opaque_kind, child_count, approx_bytes } => text_fits(opaque_kind)
            && 0 <= child_count <= u64::MAX && 0 <= approx_bytes <= u64::MAX,
        ContentV::Unrecognized => false,
        _ => true,
    }
}

/// A block whose fields fit.
pub open spec fn summary_fits(block: SummaryV) -> bool {
    &&& text_fits(block.id)
    &&& opt_text_fits(block.parent_id)
    &&& 0 <= block.sibling_index <= u64::MAX
    &&& 0 <= block.depth <= u64::MAX
    &&& 0 <= block.child_count <= u64::MAX
    &&& opt_text_fits(block.background_color)
    &&& content_fits(block.content)
}

/// Blocks whose number and fields fit.
pub open spec fn body_fits(blocks: Seq<SummaryV>) -> bool {
    &&& blocks.len() <= u64::MAX
    &&& forall|i: int| 0 <= i < blocks.len() ==> summary_fits(#[trigger] blocks[i])
}

/// A character takes at most four bytes.
pub(crate) proof fn byte_len_bound(text: Seq<char>)
    ensures
        byte_len(text) <= 4 * text.len(),
    decreases text.len(),
{
    if text.len() > 0 {
        byte_len_bound(text.drop_first());
    }
}

/// Short texts fit.
pub(crate) proof fn short_fits(text: Seq<char>)
    requires
        text.len() <= 20,
    ensures
        text_fits(text),
{
    byte_len_bound(text);
}

pub(crate) proof fn mark_label_facts(a: MarkKindV, b: MarkKindV)
    ensures
        text_fits(mark_label(a)),
        mark_label(a) == mark_label(b) ==> (mark_payload(a) is Some == mark_payload(b) is Some),
        mark_label(a) == mark_label(b) && mark_payload(a) == mark_payload(b) ==> a == b,
{
    reveal_strlit("bold");
    reveal_strlit("italic");
    reveal_strlit("strikethrough");
    reveal_strlit("underline");
    reveal_strlit("code");
    reveal_strlit("link");
    reveal_strlit("text_color");
    reveal_strlit("background_color");
    reveal_strlit("mention");
    reveal_strlit("emoji");
    reveal_strlit("object");
    assert("bold"@.len() == 4);
    assert("italic"@.len() == 6);
    assert("strikethrough"@.len() == 13);
    assert("underline"@.len() == 9);
    assert("code"@.len() == 4);
    assert("link"@.len() == 4);
    assert("text_color"@.len() == 10);
    assert("background_color"@.len() == 16);
    assert("mention"@.len() == 7);
    assert("emoji"@.len() == 5);
    assert("object"@.len() == 6);
    assert("bold"@[0] == 'b');
    assert("italic"@[0] == 'i');
    assert("code"@[0] == 'c');
    assert("link"@[0] == 'l');
    assert("object"@[0] == 'o');
    short_fits(mark_label(a));
}

proof fn content_label_facts(a: ContentV, b: ContentV)
    requires
        !(a is Unrecognized),
        !(b is Unrecognized),
    ensures
        text_fits(content_label(a)),
        content_label(a) == content_label(b) ==> same_kind(a, b),
{
    reveal_strlit("text");
    reveal_strlit("layout");
    reveal_strlit("divider");
    reveal_strlit("bookmark");
    reveal_strlit("link");
    reveal_strlit("relation");
    reveal_strlit("featured_relations");
    reveal_strlit("embed");
    reveal_strlit("table_of_contents");
    reveal_strlit("table");
    reveal_strlit("table_row");
    reveal_strlit("table_column");
    reveal_strlit("file");
    reveal_strlit("unsupported");
    assert("text"@.len() == 4);
    assert("layout"@.len() == 6);
    assert("divider"@.len() == 7);
    assert("bookmark"@.len() == 8);
    assert("link"@.len() == 4);
    assert("relation"@.len() == 8);
    assert("featured_relations"@.len() == 18);
    assert("embed"@.len() == 5);
    assert("table_of_contents"@.len() == 17);
    assert("table"@.len() == 5);
    assert("table_row"@.len() == 9);
    assert("table_column"@.len() == 12);
    assert("file"@.len() == 4);
    assert("unsupported"@.len() == 11);
    assert("text"@[0] == 't');
    assert("bookmark"@[0] == 'b');
    assert("link"@[0] == 'l');
    assert("relation"@[0] == 'r');
    assert("embed"@[0] == 'e');
    assert("table"@[0] == 't');
    assert("file"@[0] == 'f');
    short_fits(content_label(a));
}

spec fn same_kind(a: ContentV, b: ContentV) -> bool {
    match (a, b) {
        (ContentV::Text { .. }, ContentV::Text { .. }) => true,
        (ContentV::Layout { .. }, ContentV::Layout { .. }) => true,
        (ContentV::Divider { .. }, ContentV::Divider { .. }) => true,
        (ContentV::Bookmark { .. }, ContentV::Bookmark { .. }) => true,
        (ContentV::Link { .. }, ContentV::Link { .. }) => true,
        (ContentV::Relation { .. }, ContentV::Relation { .. }) => true,
        (ContentV::Embed { .. }, ContentV::Embed { .. }) => true,
        (ContentV::TableRow { .. }, ContentV::TableRow { .. }) => true,
        (ContentV::File { .. }, ContentV::File { .. }) => true,
        (ContentV::Unsupported { .. }, ContentV::Unsupported { .. }) => true,
        (ContentV::FeaturedRelations, ContentV::FeaturedRelations) => true,
        (ContentV::TableOfContents, ContentV::TableOfContents) => true,
        (ContentV::Table, ContentV::Table) => true,
        (ContentV::TableColumn, ContentV::TableColumn) => true,
        _ => false,
    }
}

/// A mark can be read back from the front of an encoding.
proof fn mark_cut(a: MarkV, x: Seq<u8>, b: MarkV, y: Seq<u8>)
    requires
        enc_mark(a) + x == enc_mark(b) + y,
        mark_fits(a),
        mark_fits(b),
    ensures
        a == b,
        x == y,
{
    let pay_a = match mark_payload(a.kind) {
        Some(text) => enc_text(text),
        None => Seq::empty(),
    };
    let pay_b = match mark_payload(b.kind) {
        Some(text) => enc_text(text),
        None => Seq::empty(),
    };
    let label_a = enc_text(mark_label(a.kind));
    let label_b = enc_text(mark_label(b.kind));
    assert(enc_mark(a) + x =~= be_bytes(a.start as int, 4) + (be_bytes(a.end as int, 4) + (label_a
        + (pay_a + x))));
    assert(enc_mark(b) + y =~= be_bytes(b.start as int, 4) + (be_bytes(b.end as int, 4) + (label_b
        + (pay_b + y))));
    be_fits_u32(a.start as int);
    be_fits_u32(b.start as int);
    be_fits_u32(a.end as int);
    be_fits_u32(b.end as int);
    be_cut(
        a.start as int,
        be_bytes(a.end as int, 4) + (label_a + (pay_a + x)),
        b.start as int,
        be_bytes(b.end as int, 4) + (label_b + (pay_b + y)),
        4,
    );
    be_cut(a.end as int, label_a + (pay_a + x), b.end as int, label_b + (pay_b + y), 4);
    mark_label_facts(a.kind, b.kind);
    mark_label_facts(b.kind, a.kind);
    text_cut(mark_label(a.kind), pay_a + x, mark_label(b.kind), pay_b + y);
    match (mark_payload(a.kind), mark_payload(b.kind)) {
        (Some(left), Some(right)) => {
            text_cut(left, x, right, y);
        },
        _ => {
            assert(pay_a + x =~= x);
            assert(pay_b + y =~= y);
        },
    }
}

proof fn marks_cut(a: Seq<MarkV>, x: Seq<u8>, b: Seq<MarkV>, y: Seq<u8>)
    requires
        be_bytes(a.len() as int, 8) + enc_list(mark_parts(a)) + x == be_bytes(b.len() as int, 8)
            + enc_list(mark_parts(b)) + y,
        a.len() <= u64::MAX,
        b.len() <= u64::MAX,
        forall|i: int| 0 <= i < a.len() ==> mark_fits(#[trigger] a[i]),
        forall|i: int| 0 <= i < b.len() ==> mark_fits(#[trigger] b[i]),
    ensures
        a == b,
        x == y,
{
    let p = mark_parts(a);
    let q = mark_parts(b);
    be_fits_u64(a.len() as int);
    be_fits_u64(b.len() as int);
    assert(be_bytes(a.len() as int, 8) + enc_list(p) + x =~= be_bytes(a.len() as int, 8) + (
    enc_list(p) + x));
    assert(be_bytes(b.len() as int, 8) + enc_list(q) + y =~= be_bytes(b.len() as int, 8) + (
    enc_list(q) + y));
    be_cut(a.len() as int, enc_list(p) + x, b.len() as int, enc_list(q) + y, 8);
    assert forall|i: int| 0 <= i < p.len() implies separable(#[trigger] p[i], q[i]) by {
        assert forall|u: Seq<u8>, v: Seq<u8>|
            #[trigger] (p[i] + u) == #[trigger] (q[i] + v) implies p[i] == q[i] by {
            assert(mark_fits(a[i]) && mark_fits(b[i]));
            mark_cut(a[i], u, b[i], v);
        }
    }
    list_cut(p, x, q, y);
    assert forall|i: int| 0 <= i < a.len() implies a[i] == b[i] by {
        assert(mark_fits(a[i]) && mark_fits(b[i]));
        assert(p[i] == q[i]);
        mark_cut(a[i], Seq::empty(), b[i], Seq::empty());
    }
    assert(a =~= b);
}

pub(crate) proof fn icon_cut(a: Option<IconV>, x: Seq<u8>, b: Option<IconV>, y: Seq<u8>)
    requires
        enc_icon(a) + x == enc_icon(b) + y,
        icon_fits(a),
        icon_fits(b),
    ensures
        a == b,
        x == y,
{
    reveal_strlit("emoji");
    reveal_strlit("image");
    assert("emoji"@[0] == 'e');
    assert("image"@[0] == 'i');
    assert("emoji"@.len() == 5);
    assert("image"@.len() == 5);
    short_fits("emoji"@);
    short_fits("image"@);
    let label_a = match a {
        Some(IconV::Emoji(_)) => "emoji"@,
        _ => "image"@,
    };
    let label_b = match b {
        Some(IconV::Emoji(_)) => "emoji"@,
        _ => "image"@,
    };
    let text_a = match a {
        Some(IconV::Emoji(text)) => text,
        Some(IconV::Image(text)) => text,
        None => Seq::empty(),
    };
    let text_b = match b {
        Some(IconV::Emoji(text)) => text,
        Some(IconV::Image(text)) => text,
        None => Seq::empty(),
    };
    let rest_a = if a is Some {
        enc_text(label_a) + enc_text(text_a)
    } else {
        Seq::empty()
    };
    let rest_b = if b is Some {
        enc_text(label_b) + enc_text(text_b)
    } else {
        Seq::empty()
    };
    assert(enc_icon(a) + x =~= enc_bool(a is Some) + (rest_a + x));
    assert(enc_icon(b) + y =~= enc_bool(b is Some) + (rest_b + y));
    bool_cut(a is Some, rest_a + x, b is Some, rest_b + y);
    if a is Some {
        assert(rest_a + x =~= enc_text(label_a) + (enc_text(text_a) + x));
        assert(rest_b + y =~= enc_text(label_b) + (enc_text(text_b) + y));
        text_cut(label_a, enc_text(text_a) + x, label_b, enc_text(text_b) + y);
        text_cut(text_a, x, text_b, y);
    } else {
        assert(rest_a + x =~= x);
        assert(rest_b + y =~= y);
    }
}

proof fn text_content_cut(a: ContentV, x: Seq<u8>, b: ContentV, y: Seq<u8>)
    requires
        a is Text,
        b is Text,
        enc_content_fields(a) + x == enc_content_fields(b) + y,
        content_fits(a),
        content_fits(b),
    ensures
        a == b,
        x == y,
{
    match (a, b) {
        (
            ContentV::Text { text: t1, style: s1, checked: c1, color: k1, icon: i1, marks: m1 },
            ContentV::Text { text: t2, style: s2, checked: c2, color: k2, icon: i2, marks: m2 },
        ) => {
            let p5 = be_bytes(m1.len() as int, 8) + enc_list(mark_parts(m1));
            let q5 = be_bytes(m2.len() as int, 8) + enc_list(mark_parts(m2));
            let p4 = enc_icon(i1) + p5;
            let q4 = enc_icon(i2) + q5;
            let p3 = enc_opt_text(k1) + p4;
            let q3 = enc_opt_text(k2) + q4;
            let p2 = enc_bool(c1) + p3;
            let q2 = enc_bool(c2) + q3;
            let p1 = enc_text(text_style_label_text(s1)) + p2;
            let q1 = enc_text(text_style_label_text(s2)) + q2;
            link_chain(enc_text(t1), p1, x);
            link_chain(enc_text(t2), q1, y);
            text_cut(t1, p1 + x, t2, q1 + y);
            text_style_label_injective(s1, s2);
            text_style_label_injective(s2, s1);
            short_fits(text_style_label_text(s1));
            short_fits(text_style_label_text(s2));
            link_chain(enc_text(text_style_label_text(s1)), p2, x);
            link_chain(enc_text(text_style_label_text(s2)), q2, y);
            text_cut(text_style_label_text(s1), p2 + x, text_style_label_text(s2), q2 + y);
            link_chain(enc_bool(c1), p3, x);
            link_chain(enc_bool(c2), q3, y);
            bool_cut(c1, p3 + x, c2, q3 + y);
            link_chain(enc_opt_text(k1), p4, x);
            link_chain(enc_opt_text(k2), q4, y);
            opt_text_cut(k1, p4 + x, k2, q4 + y);
            link_chain(enc_icon(i1), p5, x);
            link_chain(enc_icon(i2), q5, y);
            icon_cut(i1, p5 + x, i2, q5 + y);
            marks_cut(m1, x, m2, y);
        },
        _ => {},
    }
}

/// Moves what follows an addition behind its second part.
proof fn link_chain(first: Seq<u8>, rest: Seq<u8>, after: Seq<u8>)
    ensures
        (first + rest) + after == first + (rest + after),
{
    assert((first + rest) + after =~= first + (rest + after));
}

proof fn link_content_cut(a: ContentV, x: Seq<u8>, b: ContentV, y: Seq<u8>)
    requires
        a is Link,
        b is Link,
        enc_content_fields(a) + x == enc_content_fields(b) + y,
        content_fits(a),
        content_fits(b),
    ensures
        a == b,
        x == y,
{
    match (a, b) {
        (
            ContentV::Link {
                target: t1,
                card_style: c1,
                icon_size: i1,
                description: d1,
                relations: r1,
            },
            ContentV::Link {
                target: t2,
                card_style: c2,
                icon_size: i2,
                description: d2,
                relations: r2,
            },
        ) => {
            let p4 = enc_list(text_parts(r1));
            let q4 = enc_list(text_parts(r2));
            let p3 = be_bytes(r1.len() as int, 8) + p4;
            let q3 = be_bytes(r2.len() as int, 8) + q4;
            let p2 = enc_text(link_description_label_text(d1)) + p3;
            let q2 = enc_text(link_description_label_text(d2)) + q3;
            let p1 = enc_text(link_icon_label_text(i1)) + p2;
            let q1 = enc_text(link_icon_label_text(i2)) + q2;
            let p0 = enc_text(link_card_label_text(c1)) + p1;
            let q0 = enc_text(link_card_label_text(c2)) + q1;
            link_card_label_injective(c1, c2);
            link_card_label_injective(c2, c1);
            link_icon_label_injective(i1, i2);
            link_icon_label_injective(i2, i1);
            link_description_label_injective(d1, d2);
            link_description_label_injective(d2, d1);
            short_fits(link_card_label_text(c1));
            short_fits(link_card_label_text(c2));
            short_fits(link_icon_label_text(i1));
            short_fits(link_icon_label_text(i2));
            short_fits(link_description_label_text(d1));
            short_fits(link_description_label_text(d2));
            link_chain(enc_text(t1), p0, x);
            link_chain(enc_text(t2), q0, y);
            text_cut(t1, p0 + x, t2, q0 + y);
            link_chain(enc_text(link_card_label_text(c1)), p1, x);
            link_chain(enc_text(link_card_label_text(c2)), q1, y);
            text_cut(link_card_label_text(c1), p1 + x, link_card_label_text(c2), q1 + y);
            link_chain(enc_text(link_icon_label_text(i1)), p2, x);
            link_chain(enc_text(link_icon_label_text(i2)), q2, y);
            text_cut(link_icon_label_text(i1), p2 + x, link_icon_label_text(i2), q2 + y);
            link_chain(enc_text(link_description_label_text(d1)), p3, x);
            link_chain(enc_text(link_description_label_text(d2)), q3, y);
            text_cut(
                link_description_label_text(d1),
                p3 + x,
                link_description_label_text(d2),
                q3 + y,
            );
            link_chain(be_bytes(r1.len() as int, 8), p4, x);
            link_chain(be_bytes(r2.len() as int, 8), q4, y);
            be_fits_u64(r1.len() as int);
            be_fits_u64(r2.len() as int);
            be_cut(r1.len() as int, p4 + x, r2.len() as int, q4 + y, 8);
            texts_cut(r1, x, r2, y);
        },
        _ => {},
    }
}

proof fn file_content_cut(a: ContentV, x: Seq<u8>, b: ContentV, y: Seq<u8>)
    requires
        a is File,
        b is File,
        enc_content_fields(a) + x == enc_content_fields(b) + y,
        content_fits(a),
        content_fits(b),
    ensures
        a == b,
        x == y,
{
    match (a, b) {
        (
            ContentV::File {
                target: t1,
                file_kind: k1,
                mime: m1,
                size: z1,
                state: a1,
                style: y1,
            },
            ContentV::File {
                target: t2,
                file_kind: k2,
                mime: m2,
                size: z2,
                state: a2,
                style: y2,
            },
        ) => {
            let p4 = enc_text(file_style_label_text(y1));
            let q4 = enc_text(file_style_label_text(y2));
            let p3 = enc_text(file_state_label_text(a1)) + p4;
            let q3 = enc_text(file_state_label_text(a2)) + q4;
            let p2 = be_bytes(z1, 8) + p3;
            let q2 = be_bytes(z2, 8) + q3;
            let p1 = enc_text(m1) + p2;
            let q1 = enc_text(m2) + q2;
            let p0 = enc_text(file_kind_label_text(k1)) + p1;
            let q0 = enc_text(file_kind_label_text(k2)) + q1;
            file_kind_label_injective(k1, k2);
            file_kind_label_injective(k2, k1);
            file_state_label_injective(a1, a2);
            file_state_label_injective(a2, a1);
            file_style_label_injective(y1, y2);
            file_style_label_injective(y2, y1);
            short_fits(file_kind_label_text(k1));
            short_fits(file_kind_label_text(k2));
            short_fits(file_state_label_text(a1));
            short_fits(file_state_label_text(a2));
            short_fits(file_style_label_text(y1));
            short_fits(file_style_label_text(y2));
            link_chain(enc_text(t1), p0, x);
            link_chain(enc_text(t2), q0, y);
            text_cut(t1, p0 + x, t2, q0 + y);
            link_chain(enc_text(file_kind_label_text(k1)), p1, x);
            link_chain(enc_text(file_kind_label_text(k2)), q1, y);
            text_cut(file_kind_label_text(k1), p1 + x, file_kind_label_text(k2), q1 + y);
            link_chain(enc_text(m1), p2, x);
            link_chain(enc_text(m2), q2, y);
            text_cut(m1, p2 + x, m2, q2 + y);
            link_chain(be_bytes(z1, 8), p3, x);
            link_chain(be_bytes(z2, 8), q3, y);
            be_fits_u64(z1);
            be_fits_u64(z2);
            be_cut(z1, p3 + x, z2, q3 + y, 8);
            link_chain(enc_text(file_state_label_text(a1)), p4, x);
            link_chain(enc_text(file_state_label_text(a2)), q4, y);
            text_cut(file_state_label_text(a1), p4 + x, file_state_label_text(a2), q4 + y);
            text_cut(file_style_label_text(y1), x, file_style_label_text(y2), y);
        },
        _ => {},
    }
}

proof fn small_content_cut(a: ContentV, x: Seq<u8>, b: ContentV, y: Seq<u8>)
    requires
        same_kind(a, b),
        !(a is Text),
        !(a is Link),
        !(a is File),
        enc_content_fields(a) + x == enc_content_fields(b) + y,
        content_fits(a),
        content_fits(b),
    ensures
        a == b,
        x == y,
{
    match (a, b) {
        (ContentV::Layout { style: s1 }, ContentV::Layout { style: s2 }) => {
            layout_label_injective(s1, s2);
            layout_label_injective(s2, s1);
            short_fits(layout_label_text(s1));
            short_fits(layout_label_text(s2));
            text_cut(layout_label_text(s1), x, layout_label_text(s2), y);
        },
        (ContentV::Divider { style: s1 }, ContentV::Divider { style: s2 }) => {
            divider_label_injective(s1, s2);
            divider_label_injective(s2, s1);
            short_fits(divider_label_text(s1));
            short_fits(divider_label_text(s2));
            text_cut(divider_label_text(s1), x, divider_label_text(s2), y);
        },
        (
            ContentV::Bookmark { url: u1, target: t1, state: s1 },
            ContentV::Bookmark { url: u2, target: t2, state: s2 },
        ) => {
            bookmark_label_injective(s1, s2);
            bookmark_label_injective(s2, s1);
            short_fits(bookmark_label_text(s1));
            short_fits(bookmark_label_text(s2));
            let p1 = enc_text(bookmark_label_text(s1));
            let q1 = enc_text(bookmark_label_text(s2));
            link_chain(enc_text(u1), enc_opt_text(t1) + p1, x);
            link_chain(enc_text(u2), enc_opt_text(t2) + q1, y);
            text_cut(u1, (enc_opt_text(t1) + p1) + x, u2, (enc_opt_text(t2) + q1) + y);
            link_chain(enc_opt_text(t1), p1, x);
            link_chain(enc_opt_text(t2), q1, y);
            opt_text_cut(t1, p1 + x, t2, q1 + y);
            text_cut(bookmark_label_text(s1), x, bookmark_label_text(s2), y);
        },
        (ContentV::Relation { key: k1 }, ContentV::Relation { key: k2 }) => {
            text_cut(k1, x, k2, y);
        },
        (
            ContentV::Embed { processor: p1, source: s1 },
            ContentV::Embed { processor: p2, source: s2 },
        ) => {
            embed_label_injective(p1, p2);
            embed_label_injective(p2, p1);
            short_fits(embed_label_text(p1));
            short_fits(embed_label_text(p2));
            link_chain(enc_text(embed_label_text(p1)), enc_text(s1), x);
            link_chain(enc_text(embed_label_text(p2)), enc_text(s2), y);
            text_cut(
                embed_label_text(p1),
                enc_text(s1) + x,
                embed_label_text(p2),
                enc_text(s2) + y,
            );
            text_cut(s1, x, s2, y);
        },
        (ContentV::TableRow { is_header: h1 }, ContentV::TableRow { is_header: h2 }) => {
            bool_cut(h1, x, h2, y);
        },
        (
            ContentV::Unsupported { opaque_kind: k1, child_count: c1, approx_bytes: b1 },
            ContentV::Unsupported { opaque_kind: k2, child_count: c2, approx_bytes: b2 },
        ) => {
            let p1 = be_bytes(b1, 8);
            let q1 = be_bytes(b2, 8);
            be_fits_u64(c1);
            be_fits_u64(c2);
            be_fits_u64(b1);
            be_fits_u64(b2);
            link_chain(enc_text(k1), be_bytes(c1, 8) + p1, x);
            link_chain(enc_text(k2), be_bytes(c2, 8) + q1, y);
            text_cut(k1, (be_bytes(c1, 8) + p1) + x, k2, (be_bytes(c2, 8) + q1) + y);
            link_chain(be_bytes(c1, 8), p1, x);
            link_chain(be_bytes(c2, 8), q1, y);
            be_cut(c1, p1 + x, c2, q1 + y, 8);
            be_cut(b1, x, b2, y, 8);
        },
        _ => {
            assert(enc_content_fields(a) + x =~= x);
            assert(enc_content_fields(b) + y =~= y);
        },
    }
}

/// Content can be read back from the front of an encoding.
proof fn content_cut(a: ContentV, x: Seq<u8>, b: ContentV, y: Seq<u8>)
    requires
        enc_content(a) + x == enc_content(b) + y,
        content_fits(a),
        content_fits(b),
    ensures
        a == b,
        x == y,
{
    content_label_facts(a, b);
    content_label_facts(b, a);
    link_chain(enc_text(content_label(a)), enc_content_fields(a), x);
    link_chain(enc_text(content_label(b)), enc_content_fields(b), y);
    text_cut(content_label(a), enc_content_fields(a) + x, content_label(b), enc_content_fields(b)
        + y);
    if a is Text {
        text_content_cut(a, x, b, y);
    } else if a is Link {
        link_content_cut(a, x, b, y);
    } else if a is File {
        file_content_cut(a, x, b, y);
    } else {
        small_content_cut(a, x, b, y);
    }
}

proof fn place_cut(a: SummaryV, x: Seq<u8>, b: SummaryV, y: Seq<u8>)
    requires
        enc_place(a) + x == enc_place(b) + y,
        summary_fits(a),
        summary_fits(b),
    ensures
        a.id == b.id,
        a.parent_id == b.parent_id,
        a.sibling_index == b.sibling_index,
        a.depth == b.depth,
        a.child_count == b.child_count,
        x == y,
{
    let p3 = be_bytes(a.child_count, 8);
    let q3 = be_bytes(b.child_count, 8);
    let p2 = be_bytes(a.depth, 8) + p3;
    let q2 = be_bytes(b.depth, 8) + q3;
    let p1 = be_bytes(a.sibling_index, 8) + p2;
    let q1 = be_bytes(b.sibling_index, 8) + q2;
    let p0 = enc_opt_text(a.parent_id) + p1;
    let q0 = enc_opt_text(b.parent_id) + q1;
    link_chain(enc_text(a.id), p0, x);
    link_chain(enc_text(b.id), q0, y);
    text_cut(a.id, p0 + x, b.id, q0 + y);
    link_chain(enc_opt_text(a.parent_id), p1, x);
    link_chain(enc_opt_text(b.parent_id), q1, y);
    opt_text_cut(a.parent_id, p1 + x, b.parent_id, q1 + y);
    link_chain(be_bytes(a.sibling_index, 8), p2, x);
    link_chain(be_bytes(b.sibling_index, 8), q2, y);
    be_fits_u64(a.sibling_index);
    be_fits_u64(b.sibling_index);
    be_cut(a.sibling_index, p2 + x, b.sibling_index, q2 + y, 8);
    link_chain(be_bytes(a.depth, 8), p3, x);
    link_chain(be_bytes(b.depth, 8), q3, y);
    be_fits_u64(a.depth);
    be_fits_u64(b.depth);
    be_cut(a.depth, p3 + x, b.depth, q3 + y, 8);
    be_fits_u64(a.child_count);
    be_fits_u64(b.child_count);
    be_cut(a.child_count, x, b.child_count, y, 8);
}

proof fn restrictions_cut(
    a: RestrictionsProjection,
    x: Seq<u8>,
    b: RestrictionsProjection,
    y: Seq<u8>,
)
    requires
        enc_restrictions(a) + x == enc_restrictions(b) + y,
    ensures
        a == b,
        x == y,
{
    let p3 = enc_bool(a.drop_on);
    let q3 = enc_bool(b.drop_on);
    let p2 = enc_bool(a.drag) + p3;
    let q2 = enc_bool(b.drag) + q3;
    let p1 = enc_bool(a.remove) + p2;
    let q1 = enc_bool(b.remove) + q2;
    let p0 = enc_bool(a.edit) + p1;
    let q0 = enc_bool(b.edit) + q1;
    link_chain(enc_bool(a.read), p0, x);
    link_chain(enc_bool(b.read), q0, y);
    bool_cut(a.read, p0 + x, b.read, q0 + y);
    link_chain(enc_bool(a.edit), p1, x);
    link_chain(enc_bool(b.edit), q1, y);
    bool_cut(a.edit, p1 + x, b.edit, q1 + y);
    link_chain(enc_bool(a.remove), p2, x);
    link_chain(enc_bool(b.remove), q2, y);
    bool_cut(a.remove, p2 + x, b.remove, q2 + y);
    link_chain(enc_bool(a.drag), p3, x);
    link_chain(enc_bool(b.drag), q3, y);
    bool_cut(a.drag, p3 + x, b.drag, q3 + y);
    bool_cut(a.drop_on, x, b.drop_on, y);
}

proof fn look_cut(a: SummaryV, x: Seq<u8>, b: SummaryV, y: Seq<u8>)
    requires
        enc_look(a) + x == enc_look(b) + y,
        summary_fits(a),
        summary_fits(b),
    ensures
        a.align == b.align,
        a.vertical_align == b.vertical_align,
        a.background_color == b.background_color,
        x == y,
{
    horizontal_label_injective(a.align, b.align);
    horizontal_label_injective(b.align, a.align);
    vertical_label_injective(a.vertical_align, b.vertical_align);
    vertical_label_injective(b.vertical_align, a.vertical_align);
    short_fits(horizontal_label_text(a.align));
    short_fits(horizontal_label_text(b.align));
    short_fits(vertical_label_text(a.vertical_align));
    short_fits(vertical_label_text(b.vertical_align));
    let p1 = enc_opt_text(a.background_color);
    let q1 = enc_opt_text(b.background_color);
    let p0 = enc_text(vertical_label_text(a.vertical_align)) + p1;
    let q0 = enc_text(vertical_label_text(b.vertical_align)) + q1;
    link_chain(enc_text(horizontal_label_text(a.align)), p0, x);
    link_chain(enc_text(horizontal_label_text(b.align)), q0, y);
    text_cut(horizontal_label_text(a.align), p0 + x, horizontal_label_text(b.align), q0 + y);
    link_chain(enc_text(vertical_label_text(a.vertical_align)), p1, x);
    link_chain(enc_text(vertical_label_text(b.vertical_align)), q1, y);
    text_cut(
        vertical_label_text(a.vertical_align),
        p1 + x,
        vertical_label_text(b.vertical_align),
        q1 + y,
    );
    opt_text_cut(a.background_color, x, b.background_color, y);
}

/// A block can be read back from the front of an encoding.
proof fn summary_cut(a: SummaryV, x: Seq<u8>, b: SummaryV, y: Seq<u8>)
    requires
        enc_summary(a) + x == enc_summary(b) + y,
        summary_fits(a),
        summary_fits(b),
    ensures
        a == b,
        x == y,
{
    let p2 = enc_content(a.content);
    let q2 = enc_content(b.content);
    let p1 = enc_look(a) + p2;
    let q1 = enc_look(b) + q2;
    let p0 = enc_restrictions(a.restrictions) + p1;
    let q0 = enc_restrictions(b.restrictions) + q1;
    link_chain(enc_place(a), p0, x);
    link_chain(enc_place(b), q0, y);
    place_cut(a, p0 + x, b, q0 + y);
    link_chain(enc_restrictions(a.restrictions), p1, x);
    link_chain(enc_restrictions(b.restrictions), q1, y);
    restrictions_cut(a.restrictions, p1 + x, b.restrictions, q1 + y);
    link_chain(enc_look(a), p2, x);
    link_chain(enc_look(b), q2, y);
    look_cut(a, p2 + x, b, q2 + y);
    content_cut(a.content, x, b.content, y);
}

/// Two bodies with one encoding under the snapshot hash are one body.
proof fn body_cut(
    space_a: Seq<char>,
    object_a: Seq<char>,
    root_a: Seq<char>,
    a: Seq<SummaryV>,
    space_b: Seq<char>,
    object_b: Seq<char>,
    root_b: Seq<char>,
    b: Seq<SummaryV>,
)
    requires
        text_fits(space_a) && text_fits(object_a) && text_fits(root_a),
        text_fits(space_b) && text_fits(object_b) && text_fits(root_b),
        body_fits(a),
        body_fits(b),
        enc_body(space_a, object_a, root_a, a) == enc_body(space_b, object_b, root_b, b),
    ensures
        space_a == space_b,
        object_a == object_b,
        root_a == root_b,
        a == b,
{
    let p = summary_parts(a);
    let q = summary_parts(b);
    let p2 = be_bytes(a.len() as int, 8) + enc_list(p);
    let q2 = be_bytes(b.len() as int, 8) + enc_list(q);
    let p1 = enc_text(root_a) + p2;
    let q1 = enc_text(root_b) + q2;
    let p0 = enc_text(object_a) + p1;
    let q0 = enc_text(object_b) + q1;
    text_cut(space_a, p0, space_b, q0);
    text_cut(object_a, p1, object_b, q1);
    text_cut(root_a, p2, root_b, q2);
    be_fits_u64(a.len() as int);
    be_fits_u64(b.len() as int);
    be_cut(a.len() as int, enc_list(p), b.len() as int, enc_list(q), 8);
    assert forall|i: int| 0 <= i < p.len() implies separable(#[trigger] p[i], q[i]) by {
        assert forall|u: Seq<u8>, v: Seq<u8>|
            #[trigger] (p[i] + u) == #[trigger] (q[i] + v) implies p[i] == q[i] by {
            assert(summary_fits(a[i]) && summary_fits(b[i]));
            summary_cut(a[i], u, b[i], v);
        }
    }
    assert(enc_list(p) + Seq::<u8>::empty() =~= enc_list(p));
    assert(enc_list(q) + Seq::<u8>::empty() =~= enc_list(q));
    list_cut(p, Seq::empty(), q, Seq::empty());
    assert forall|i: int| 0 <= i < a.len() implies a[i] == b[i] by {
        assert(summary_fits(a[i]) && summary_fits(b[i]));
        assert(p[i] == q[i]);
        summary_cut(a[i], Seq::empty(), b[i], Seq::empty());
    }
    assert(a =~= b);
}

/// The encoding under the snapshot hash binds the body: two bodies have one
/// encoding if and only if they are one body, with the same space, object and
/// root, and the same blocks in the same order with the same place, restrictions,
/// presentation and content.
pub proof fn snapshot_encoding_binds_body(
    space_a: Seq<char>,
    object_a: Seq<char>,
    root_a: Seq<char>,
    a: Seq<SummaryV>,
    space_b: Seq<char>,
    object_b: Seq<char>,
    root_b: Seq<char>,
    b: Seq<SummaryV>,
)
    requires
        text_fits(space_a) && text_fits(object_a) && text_fits(root_a),
        text_fits(space_b) && text_fits(object_b) && text_fits(root_b),
        body_fits(a),
        body_fits(b),
    ensures
        snapshot_domain() + enc_body(space_a, object_a, root_a, a) == snapshot_domain() + enc_body(
            space_b,
            object_b,
            root_b,
            b,
        ) <==> space_a == space_b && object_a == object_b && root_a == root_b && a == b,
{
    let p = enc_body(space_a, object_a, root_a, a);
    let q = enc_body(space_b, object_b, root_b, b);
    if snapshot_domain() + p == snapshot_domain() + q {
        cut(snapshot_domain(), p, snapshot_domain(), q);
        body_cut(space_a, object_a, root_a, a, space_b, object_b, root_b, b);
    }
}

} // verus!
