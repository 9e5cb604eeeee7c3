//! A creation fingerprint binds the whole request: the encoding under it can be
//! read back, so two requests with one encoding ask for the same thing.

use crate::binding::{byte_len_bound, icon_cut, icon_fits, short_fits};
use crate::domain::{in_class, valid_local_key, valid_relation_key, valid_snapshot_hash, CharClass};
use crate::encoding::{
    be_bytes, be_bytes_len, be_cut, be_fits_u64, cut, enc_list, enc_opt_text, enc_text,
    opt_text_cut, opt_text_fits, text_cut, text_fits, text_parts,
};
use crate::fingerprint::{
    checked_byte, enc_create, enc_entry, enc_input, enc_input_fields, enc_presentation, enc_rich,
    entry_parts, input_label, marks_json, position_byte,
};
use crate::hashing::enc_icon;
use crate::input::{
    requested_background, requested_horizontal, requested_vertical, BodyBlockCreateInput,
    NewBlockInput, RichPageCreateInput, RichPlanEntry,
};
use crate::json_binding::marks_json_binds_marks;
use crate::text::{opt_view, views};
use crate::wire::{
    divider_label_injective, divider_label_text, embed_label_injective, embed_label_text,
    horizontal_label_injective, horizontal_label_text, link_card_label_injective,
    link_card_label_text, link_description_label_injective, link_description_label_text,
    link_icon_label_injective, link_icon_label_text, vertical_label_injective,
    vertical_label_text, writable_style_label_injective, writable_style_label_text,
};
use vstd::prelude::*;
use vstd::utf8::*;

verus! {

/// Both requests ask for the same presentation.
pub open spec fn same_presentation(a: NewBlockInput, b: NewBlockInput) -> bool {
    &&& requested_horizontal(a) == requested_horizontal(b)
    &&& requested_vertical(a) == requested_vertical(b)
    &&& opt_view(requested_background(a)) == opt_view(requested_background(b))
}

/// Both requests ask for the same fields of the same kind of block.
pub open spec fn same_fields(a: NewBlockInput, b: NewBlockInput) -> bool {
    match (a, b) {
        (
            NewBlockInput::Text { style: s1, text: t1, checked: c1, marks: m1, text_color: f1, icon: i1, .. },
            NewBlockInput::Text { style: s2, text: t2, checked: c2, marks: m2, text_color: f2, icon: i2, .. },
        ) => {
            &&& s1 == s2
            &&& t1@ == t2@
            &&& c1 == c2
            &&& views(m1@) == views(m2@)
            &&& opt_view(f1) == opt_view(f2)
            &&& opt_view(i1) == opt_view(i2)
        },
        (NewBlockInput::Divider { style: s1, .. }, NewBlockInput::Divider { style: s2, .. }) => s1
            == s2,
        (
            NewBlockInput::Link { target_object_id: t1, card_style: c1, icon_size: i1, description: d1, relations: r1, .. },
            NewBlockInput::Link { target_object_id: t2, card_style: c2, icon_size: i2, description: d2, relations: r2, .. },
        ) => {
            &&& t1@ == t2@
            &&& c1 == c2
            &&& i1 == i2
            &&& d1 == d2
            &&& views(r1@) == views(r2@)
        },
        (NewBlockInput::Relation { key: k1, .. }, NewBlockInput::Relation { key: k2, .. }) => k1@
            == k2@,
        (
            NewBlockInput::Embed { processor: p1, source: s1, .. },
            NewBlockInput::Embed { processor: p2, source: s2, .. },
        ) => p1 == p2 && s1@ == s2@,
        (
            NewBlockInput::Table { rows: r1, columns: c1, header_row: h1 },
            NewBlockInput::Table { rows: r2, columns: c2, header_row: h2 },
        ) => r1 == r2 && c1 == c2 && h1 == h2,
        (NewBlockInput::TableOfContents { .. }, NewBlockInput::TableOfContents { .. }) => true,
        _ => false,
    }
}

/// Both requests ask for the same block.
pub open spec fn same_request(a: NewBlockInput, b: NewBlockInput) -> bool {
    same_fields(a, b) && same_presentation(a, b)
}

/// A request whose texts have lengths that eight bytes hold, with valid
/// relation keys.
pub open spec fn request_fits(input: NewBlockInput) -> bool {
    &&& opt_text_fits(opt_view(requested_background(input)))
    &&& match input {
        NewBlockInput::Text { text, marks, text_color, icon, .. } => {
            &&& text_fits(text@)
            &&& text_fits(marks_json(views(marks@)))
            &&& opt_text_fits(opt_view(text_color))
            &&& icon_fits(opt_view(icon))
        },
        NewBlockInput::Link { target_object_id, relations, .. } => text_fits(target_object_id@)
            && keys_valid(views(relations@)),
        NewBlockInput::Relation { key, .. } => text_fits(key@),
        NewBlockInput::Embed { source, .. } => text_fits(source@),
        _ => true,
    }
}

/// Every text is a relation key.
pub open spec fn keys_valid(keys: Seq<Seq<char>>) -> bool {
    forall|i: int| 0 <= i < keys.len() ==> valid_relation_key(#[trigger] keys[i])
}

// ---------------------------------------------------------------------------
// Lists without a count
// ---------------------------------------------------------------------------

proof fn be_zero(width: nat)
    ensures
        be_bytes(0, width).len() == width,
        forall|k: int| 0 <= k < width ==> (#[trigger] be_bytes(0, width)[k]) == 0,
    decreases width,
{
    if width > 0 {
        be_zero((width - 1) as nat);
    }
}

/// The eight bytes of a small length start with six zeros, and not all of them
/// are zero.
proof fn be_small(n: int)
    requires
        1 <= n <= u16::MAX,
    ensures
        be_bytes(n, 8).len() == 8,
        forall|k: int| 0 <= k < 6 ==> (#[trigger] be_bytes(n, 8)[k]) == 0,
        be_bytes(n, 8)[6] != 0 || be_bytes(n, 8)[7] != 0,
{
    be_zero(6);
    assert(n / 256 / 256 == 0);
    let low = be_bytes(n / 256, 7);
    assert(low == be_bytes(0, 6).push((n / 256 % 256) as u8));
    assert(be_bytes(n, 8) == low.push((n % 256) as u8));
    assert(be_bytes(n, 8)[6] == (n / 256 % 256) as u8);
    assert(be_bytes(n, 8)[7] == (n % 256) as u8);
}

/// What follows a block in an encoding: nothing, or five zero bytes and more.
spec fn rests(x: Seq<u8>) -> bool {
    x.len() == 0 || (x.len() >= 5 && forall|k: int| 0 <= k < 5 ==> (#[trigger] x[k]) == 0)
}

/// A presentation does not start like a relation key.
proof fn presentation_starts_no_key(input: NewBlockInput, x: Seq<u8>, n: int, z: Seq<u8>)
    requires
        rests(x),
        1 <= n <= u16::MAX,
    ensures
        enc_presentation(input) + x != be_bytes(n, 8) + z,
{
    be_small(n);
    let whole = enc_presentation(input) + x;
    let other = be_bytes(n, 8) + z;
    assert(other[0] == be_bytes(n, 8)[0]);
    assert(other[1] == be_bytes(n, 8)[1]);
    assert(other[2] == be_bytes(n, 8)[2]);
    assert(other[6] == be_bytes(n, 8)[6]);
    assert(other[7] == be_bytes(n, 8)[7]);
    if requested_horizontal(input) is Some {
        assert(whole[0] == 1);
    } else if requested_vertical(input) is Some {
        assert(whole[1] == 1);
    } else if requested_background(input) is Some {
        assert(whole[2] == 1);
    } else {
        assert(enc_presentation(input).len() == 3);
        if x.len() > 0 {
            assert(whole[6] == x[3]);
            assert(whole[7] == x[4]);
        }
    }
}

proof fn key_length(key: Seq<char>)
    requires
        valid_relation_key(key),
    ensures
        text_fits(key),
        1 <= encode_utf8(key).len() <= u16::MAX,
{
    byte_len_bound(key);
    encode_utf8_decode_utf8(key);
    encode_utf8_decode_utf8(Seq::<char>::empty());
    if encode_utf8(key).len() == 0 {
        assert(encode_utf8(Seq::<char>::empty()).len() == 0) by {
            byte_len_bound(Seq::<char>::empty());
        }
        assert(encode_utf8(key) =~= encode_utf8(Seq::<char>::empty()));
        assert(key =~= Seq::<char>::empty());
    }
}

/// Relation keys without a count can be read back before a presentation.
proof fn relations_cut(
    p: Seq<Seq<char>>,
    a: NewBlockInput,
    x: Seq<u8>,
    q: Seq<Seq<char>>,
    b: NewBlockInput,
    y: Seq<u8>,
)
    requires
        keys_valid(p),
        keys_valid(q),
        rests(x),
        rests(y),
        enc_list(text_parts(p)) + (enc_presentation(a) + x) == enc_list(text_parts(q)) + (
        enc_presentation(b) + y),
    ensures
        p == q,
        enc_presentation(a) + x == enc_presentation(b) + y,
    decreases p.len(),
{
    let end_a = enc_presentation(a) + x;
    let end_b = enc_presentation(b) + y;
    let parts_p = text_parts(p);
    let parts_q = text_parts(q);
    if p.len() > 0 {
        assert(valid_relation_key(p[0]));
        key_length(p[0]);
        assert(parts_p.drop_first() =~= text_parts(p.drop_first()));
        assert(parts_p[0] == enc_text(p[0]));
        assert(enc_list(parts_p) + end_a =~= enc_text(p[0]) + (enc_list(
            text_parts(p.drop_first()),
        ) + end_a));
    }
    if q.len() > 0 {
        assert(valid_relation_key(q[0]));
        key_length(q[0]);
        assert(parts_q.drop_first() =~= text_parts(q.drop_first()));
        assert(parts_q[0] == enc_text(q[0]));
        assert(enc_list(parts_q) + end_b =~= enc_text(q[0]) + (enc_list(
            text_parts(q.drop_first()),
        ) + end_b));
    }
    if p.len() == 0 && q.len() == 0 {
        assert(enc_list(parts_p) + end_a =~= end_a);
        assert(enc_list(parts_q) + end_b =~= end_b);
        assert(p =~= q);
    } else if p.len() == 0 {
        let bytes = encode_utf8(q[0]);
        let more = enc_list(text_parts(q.drop_first())) + end_b;
        assert(enc_list(parts_p) + end_a =~= end_a);
        assert(enc_text(q[0]) + more =~= be_bytes(bytes.len() as int, 8) + (bytes + more));
        presentation_starts_no_key(a, x, bytes.len() as int, bytes + more);
    } else if q.len() == 0 {
        let bytes = encode_utf8(p[0]);
        let more = enc_list(text_parts(p.drop_first())) + end_a;
        assert(enc_list(parts_q) + end_b =~= end_b);
        assert(enc_text(p[0]) + more =~= be_bytes(bytes.len() as int, 8) + (bytes + more));
        presentation_starts_no_key(b, y, bytes.len() as int, bytes + more);
    } else {
        text_cut(
            p[0],
            enc_list(text_parts(p.drop_first())) + end_a,
            q[0],
            enc_list(text_parts(q.drop_first())) + end_b,
        );
        assert(keys_valid(p.drop_first())) by {
            assert forall|i: int| 0 <= i < p.drop_first().len() implies valid_relation_key(
                #[trigger] p.drop_first()[i],
            ) by {
                assert(valid_relation_key(p[i + 1]));
            }
        }
        assert(keys_valid(q.drop_first())) by {
            assert forall|i: int| 0 <= i < q.drop_first().len() implies valid_relation_key(
                #[trigger] q.drop_first()[i],
            ) by {
                assert(valid_relation_key(q[i + 1]));
            }
        }
        relations_cut(p.drop_first(), a, x, q.drop_first(), b, y);
        assert(p =~= seq![p[0]] + p.drop_first());
        assert(q =~= seq![q[0]] + q.drop_first());
    }
}

// ---------------------------------------------------------------------------
// Blocks
// ---------------------------------------------------------------------------

/// Moves what follows a sum behind its last part.
proof fn regroup(first: Seq<u8>, rest: Seq<u8>, after: Seq<u8>)
    ensures
        (first + rest) + after == first + (rest + after),
{
    assert((first + rest) + after =~= first + (rest + after));
}

/// A byte can be read back from the front of an encoding.
proof fn byte_cut(a: u8, x: Seq<u8>, b: u8, y: Seq<u8>)
    requires
        seq![a] + x == seq![b] + y,
    ensures
        a == b,
        x == y,
{
    cut(seq![a], x, seq![b], y);
    assert(seq![a][0] == seq![b][0]);
}

proof fn align_label_fits(input: NewBlockInput)
    ensures
        requested_horizontal(input) matches Some(align) ==> text_fits(horizontal_label_text(align)),
        requested_vertical(input) matches Some(align) ==> text_fits(vertical_label_text(align)),
{
    if let Some(align) = requested_horizontal(input) {
        horizontal_label_injective(align, align);
        short_fits(horizontal_label_text(align));
    }
    if let Some(align) = requested_vertical(input) {
        vertical_label_injective(align, align);
        short_fits(vertical_label_text(align));
    }
}

/// A presentation can be read back.
proof fn presentation_cut(a: NewBlockInput, x: Seq<u8>, b: NewBlockInput, y: Seq<u8>)
    requires
        enc_presentation(a) + x == enc_presentation(b) + y,
        opt_text_fits(opt_view(requested_background(a))),
        opt_text_fits(opt_view(requested_background(b))),
    ensures
        same_presentation(a, b),
        x == y,
{
    align_label_fits(a);
    align_label_fits(b);
    let h1 = match requested_horizontal(a) {
        Some(align) => Some(horizontal_label_text(align)),
        None => None,
    };
    let h2 = match requested_horizontal(b) {
        Some(align) => Some(horizontal_label_text(align)),
        None => None,
    };
    let v1 = match requested_vertical(a) {
        Some(align) => Some(vertical_label_text(align)),
        None => None,
    };
    let v2 = match requested_vertical(b) {
        Some(align) => Some(vertical_label_text(align)),
        None => None,
    };
    let c1 = opt_view(requested_background(a));
    let c2 = opt_view(requested_background(b));
    regroup(enc_opt_text(h1), enc_opt_text(v1) + enc_opt_text(c1), x);
    regroup(enc_opt_text(h2), enc_opt_text(v2) + enc_opt_text(c2), y);
    regroup(enc_opt_text(v1), enc_opt_text(c1), x);
    regroup(enc_opt_text(v2), enc_opt_text(c2), y);
    opt_text_cut(
        h1,
        enc_opt_text(v1) + (enc_opt_text(c1) + x),
        h2,
        enc_opt_text(v2) + (enc_opt_text(c2) + y),
    );
    opt_text_cut(v1, enc_opt_text(c1) + x, v2, enc_opt_text(c2) + y);
    opt_text_cut(c1, x, c2, y);
    if let (Some(p), Some(q)) = (requested_horizontal(a), requested_horizontal(b)) {
        horizontal_label_injective(p, q);
    }
    if let (Some(p), Some(q)) = (requested_vertical(a), requested_vertical(b)) {
        vertical_label_injective(p, q);
    }
}

proof fn text_input_cut(a: NewBlockInput, x: Seq<u8>, b: NewBlockInput, y: Seq<u8>)
    requires
        a is Text,
        b is Text,
        request_fits(a),
        request_fits(b),
        enc_input_fields(a) + x == enc_input_fields(b) + y,
    ensures
        same_request(a, b),
        x == y,
{
    if let NewBlockInput::Text { style: s1, text: t1, checked: c1, marks: m1, text_color: f1, icon: i1, .. } = a {
        if let NewBlockInput::Text { style: s2, text: t2, checked: c2, marks: m2, text_color: f2, icon: i2, .. } = b {
            let j1 = marks_json(views(m1@));
            let j2 = marks_json(views(m2@));
            let a5 = enc_presentation(a) + enc_text(j1);
            let b5 = enc_presentation(b) + enc_text(j2);
            let a4 = enc_icon(opt_view(i1)) + a5;
            let b4 = enc_icon(opt_view(i2)) + b5;
            let a3 = enc_opt_text(opt_view(f1)) + a4;
            let b3 = enc_opt_text(opt_view(f2)) + b4;
            let a2 = seq![checked_byte(c1)] + a3;
            let b2 = seq![checked_byte(c2)] + b3;
            let a1 = enc_text(t1@) + a2;
            let b1 = enc_text(t2@) + b2;
            regroup(enc_text(writable_style_label_text(s1)), a1, x);
            regroup(enc_text(writable_style_label_text(s2)), b1, y);
            writable_style_label_injective(s1, s2);
            writable_style_label_injective(s2, s1);
            short_fits(writable_style_label_text(s1));
            short_fits(writable_style_label_text(s2));
            text_cut(writable_style_label_text(s1), a1 + x, writable_style_label_text(s2), b1 + y);
            regroup(enc_text(t1@), a2, x);
            regroup(enc_text(t2@), b2, y);
            text_cut(t1@, a2 + x, t2@, b2 + y);
            regroup(seq![checked_byte(c1)], a3, x);
            regroup(seq![checked_byte(c2)], b3, y);
            byte_cut(checked_byte(c1), a3 + x, checked_byte(c2), b3 + y);
            regroup(enc_opt_text(opt_view(f1)), a4, x);
            regroup(enc_opt_text(opt_view(f2)), b4, y);
            opt_text_cut(opt_view(f1), a4 + x, opt_view(f2), b4 + y);
            regroup(enc_icon(opt_view(i1)), a5, x);
            regroup(enc_icon(opt_view(i2)), b5, y);
            icon_cut(opt_view(i1), a5 + x, opt_view(i2), b5 + y);
            regroup(enc_presentation(a), enc_text(j1), x);
            regroup(enc_presentation(b), enc_text(j2), y);
            presentation_cut(a, enc_text(j1) + x, b, enc_text(j2) + y);
            text_cut(j1, x, j2, y);
            marks_json_binds_marks(views(m1@), views(m2@));
        }
    }
}

proof fn link_input_cut(a: NewBlockInput, x: Seq<u8>, b: NewBlockInput, y: Seq<u8>)
    requires
        a is Link,
        b is Link,
        request_fits(a),
        request_fits(b),
        rests(x),
        rests(y),
        enc_input_fields(a) + x == enc_input_fields(b) + y,
    ensures
        same_request(a, b),
        x == y,
{
    if let NewBlockInput::Link { target_object_id: t1, card_style: c1, icon_size: i1, description: d1, relations: r1, .. } = a {
        if let NewBlockInput::Link { target_object_id: t2, card_style: c2, icon_size: i2, description: d2, relations: r2, .. } = b {
            let a4 = enc_list(text_parts(views(r1@))) + enc_presentation(a);
            let b4 = enc_list(text_parts(views(r2@))) + enc_presentation(b);
            let a3 = enc_text(link_description_label_text(d1)) + a4;
            let b3 = enc_text(link_description_label_text(d2)) + b4;
            let a2 = enc_text(link_icon_label_text(i1)) + a3;
            let b2 = enc_text(link_icon_label_text(i2)) + b3;
            let a1 = enc_text(link_card_label_text(c1)) + a2;
            let b1 = enc_text(link_card_label_text(c2)) + b2;
            link_card_label_injective(c1, c2);
            link_card_label_injective(c2, c1);
            link_icon_label_injective(i1, i2);
            link_icon_label_injective(i2, i1);
            link_description_label_injective(d1, d2);
            link_description_label_injective(d2, d1);
            short_fits(link_card_label_text(c1));
            short_fits(link_card_label_text(c2));
            short_fits(link_icon_label_text(i1));
            short_fits(link_icon_label_text(i2));
            short_fits(link_description_label_text(d1));
            short_fits(link_description_label_text(d2));
            regroup(enc_text(t1@), a1, x);
            regroup(enc_text(t2@), b1, y);
            text_cut(t1@, a1 + x, t2@, b1 + y);
            regroup(enc_text(link_card_label_text(c1)), a2, x);
            regroup(enc_text(link_card_label_text(c2)), b2, y);
            text_cut(link_card_label_text(c1), a2 + x, link_card_label_text(c2), b2 + y);
            regroup(enc_text(link_icon_label_text(i1)), a3, x);
            regroup(enc_text(link_icon_label_text(i2)), b3, y);
            text_cut(link_icon_label_text(i1), a3 + x, link_icon_label_text(i2), b3 + y);
            regroup(enc_text(link_description_label_text(d1)), a4, x);
            regroup(enc_text(link_description_label_text(d2)), b4, y);
            text_cut(
                link_description_label_text(d1),
                a4 + x,
                link_description_label_text(d2),
                b4 + y,
            );
            regroup(enc_list(text_parts(views(r1@))), enc_presentation(a), x);
            regroup(enc_list(text_parts(views(r2@))), enc_presentation(b), y);
            relations_cut(views(r1@), a, x, views(r2@), b, y);
            presentation_cut(a, x, b, y);
        }
    }
}

proof fn small_input_cut(a: NewBlockInput, x: Seq<u8>, b: NewBlockInput, y: Seq<u8>)
    requires
        input_label(a) == input_label(b),
        same_block_kind(a, b),
        !(a is Text),
        !(a is Link),
        request_fits(a),
        request_fits(b),
        enc_input_fields(a) + x == enc_input_fields(b) + y,
    ensures
        same_request(a, b),
        x == y,
{
    match (a, b) {
        (NewBlockInput::Divider { style: s1, .. }, NewBlockInput::Divider { style: s2, .. }) => {
            divider_label_injective(s1, s2);
            divider_label_injective(s2, s1);
            short_fits(divider_label_text(s1));
            short_fits(divider_label_text(s2));
            regroup(enc_text(divider_label_text(s1)), enc_presentation(a), x);
            regroup(enc_text(divider_label_text(s2)), enc_presentation(b), y);
            text_cut(
                divider_label_text(s1),
                enc_presentation(a) + x,
                divider_label_text(s2),
                enc_presentation(b) + y,
            );
            presentation_cut(a, x, b, y);
        },
        (NewBlockInput::Relation { key: k1, .. }, NewBlockInput::Relation { key: k2, .. }) => {
            regroup(enc_text(k1@), enc_presentation(a), x);
            regroup(enc_text(k2@), enc_presentation(b), y);
            text_cut(k1@, enc_presentation(a) + x, k2@, enc_presentation(b) + y);
            presentation_cut(a, x, b, y);
        },
        (
            NewBlockInput::Embed { processor: p1, source: s1, .. },
            NewBlockInput::Embed { processor: p2, source: s2, .. },
        ) => {
            let a1 = enc_text(s1@) + enc_presentation(a);
            let b1 = enc_text(s2@) + enc_presentation(b);
            embed_label_injective(p1, p2);
            embed_label_injective(p2, p1);
            short_fits(embed_label_text(p1));
            short_fits(embed_label_text(p2));
            regroup(enc_text(embed_label_text(p1)), a1, x);
            regroup(enc_text(embed_label_text(p2)), b1, y);
            text_cut(embed_label_text(p1), a1 + x, embed_label_text(p2), b1 + y);
            regroup(enc_text(s1@), enc_presentation(a), x);
            regroup(enc_text(s2@), enc_presentation(b), y);
            text_cut(s1@, enc_presentation(a) + x, s2@, enc_presentation(b) + y);
            presentation_cut(a, x, b, y);
        },
        (
            NewBlockInput::Table { rows: r1, columns: c1, header_row: h1 },
            NewBlockInput::Table { rows: r2, columns: c2, header_row: h2 },
        ) => {
            let p = enc_input_fields(a);
            let q = enc_input_fields(b);
            cut(p, x, q, y);
            assert(p[0] == r1 && q[0] == r2);
            assert(p[1] == c1 && q[1] == c2);
            assert(p[2] == q[2]);
        },
        _ => {
            presentation_cut(a, x, b, y);
        },
    }
}

spec fn same_block_kind(a: NewBlockInput, b: NewBlockInput) -> bool {
    match (a, b) {
        (NewBlockInput::Text { .. }, NewBlockInput::Text { .. }) => true,
        (NewBlockInput::Divider { .. }, NewBlockInput::Divider { .. }) => true,
        (NewBlockInput::Link { .. }, NewBlockInput::Link { .. }) => true,
        (NewBlockInput::Relation { .. }, NewBlockInput::Relation { .. }) => true,
        (NewBlockInput::Embed { .. }, NewBlockInput::Embed { .. }) => true,
        (NewBlockInput::Table { .. }, NewBlockInput::Table { .. }) => true,
        (NewBlockInput::TableOfContents { .. }, NewBlockInput::TableOfContents { .. }) => true,
        _ => false,
    }
}

proof fn input_label_facts(a: NewBlockInput, b: NewBlockInput)
    ensures
        text_fits(input_label(a)),
        input_label(a) == input_label(b) ==> same_block_kind(a, b),
{
    reveal_strlit("text");
    reveal_strlit("divider");
    reveal_strlit("link");
    reveal_strlit("relation");
    reveal_strlit("embed");
    reveal_strlit("table");
    reveal_strlit("table_of_contents");
    assert("text"@.len() == 4 && "text"@[0] == 't');
    assert("divider"@.len() == 7);
    assert("link"@.len() == 4 && "link"@[0] == 'l');
    assert("relation"@.len() == 8);
    assert("embed"@.len() == 5 && "embed"@[0] == 'e');
    assert("table"@.len() == 5 && "table"@[0] == 't');
    assert("table_of_contents"@.len() == 17);
    short_fits(input_label(a));
}

/// A block can be read back.
proof fn input_cut(a: NewBlockInput, x: Seq<u8>, b: NewBlockInput, y: Seq<u8>)
    requires
        request_fits(a),
        request_fits(b),
        rests(x),
        rests(y),
        enc_input(a) + x == enc_input(b) + y,
    ensures
        same_request(a, b),
        x == y,
{
    input_label_facts(a, b);
    input_label_facts(b, a);
    regroup(enc_text(input_label(a)), enc_input_fields(a), x);
    regroup(enc_text(input_label(b)), enc_input_fields(b), y);
    text_cut(input_label(a), enc_input_fields(a) + x, input_label(b), enc_input_fields(b) + y);
    if a is Text {
        text_input_cut(a, x, b, y);
    } else if a is Link {
        link_input_cut(a, x, b, y);
    } else {
        small_input_cut(a, x, b, y);
    }
}

/// The encoding of a new block binds the block: two blocks have one encoding if
/// and only if they ask for the same, in kind and in every field.
pub proof fn block_encoding_binds_block(a: NewBlockInput, b: NewBlockInput)
    requires
        request_fits(a),
        request_fits(b),
    ensures
        enc_input(a) == enc_input(b) <==> same_request(a, b),
{
    let none = Seq::<u8>::empty();
    assert(enc_input(a) + none =~= enc_input(a));
    assert(enc_input(b) + none =~= enc_input(b));
    if enc_input(a) == enc_input(b) {
        input_cut(a, none, b, none);
    }
}

// ---------------------------------------------------------------------------
// Requests
// ---------------------------------------------------------------------------

/// A block creation whose texts have lengths that eight bytes hold, with valid
/// tokens.
pub open spec fn create_fits(input: BodyBlockCreateInput, space: Seq<char>) -> bool {
    &&& text_fits(space)
    &&& text_fits(input.object_id@)
    &&& text_fits(input.target_block_id@)
    &&& valid_snapshot_hash(input.expected_snapshot_hash@)
    &&& request_fits(input.block)
}

/// A rich page creation whose texts have lengths that eight bytes hold, with valid
/// tokens.
pub open spec fn rich_fits(input: RichPageCreateInput, space: Seq<char>) -> bool {
    &&& text_fits(space)
    &&& text_fits(input.name@)
    &&& entries_fit(input.blocks@)
}

/// The encoding under the fingerprint of a block creation binds the resolved
/// space, the object, the expected snapshot, the target, the position and the
/// whole block.
pub proof fn create_fingerprint_binds_request(
    a: BodyBlockCreateInput,
    space_a: Seq<char>,
    b: BodyBlockCreateInput,
    space_b: Seq<char>,
)
    requires
        create_fits(a, space_a),
        create_fits(b, space_b),
        enc_create(a, space_a) == enc_create(b, space_b),
    ensures
        space_a == space_b,
        a.object_id@ == b.object_id@,
        a.expected_snapshot_hash@ == b.expected_snapshot_hash@,
        a.target_block_id@ == b.target_block_id@,
        a.position == b.position,
        same_request(a.block, b.block),
{
    let hash_a = encode_utf8(a.expected_snapshot_hash@);
    let hash_b = encode_utf8(b.expected_snapshot_hash@);
    hash_length(a.expected_snapshot_hash@);
    hash_length(b.expected_snapshot_hash@);
    let a3 = seq![position_byte(a.position)] + enc_input(a.block);
    let b3 = seq![position_byte(b.position)] + enc_input(b.block);
    let a2 = enc_text(a.target_block_id@) + a3;
    let b2 = enc_text(b.target_block_id@) + b3;
    let a1 = hash_a + a2;
    let b1 = hash_b + b2;
    text_cut(space_a, enc_text(a.object_id@) + a1, space_b, enc_text(b.object_id@) + b1);
    text_cut(a.object_id@, a1, b.object_id@, b1);
    cut(hash_a, a2, hash_b, b2);
    encode_utf8_decode_utf8(a.expected_snapshot_hash@);
    encode_utf8_decode_utf8(b.expected_snapshot_hash@);
    text_cut(a.target_block_id@, a3, b.target_block_id@, b3);
    byte_cut(
        position_byte(a.position),
        enc_input(a.block),
        position_byte(b.position),
        enc_input(b.block),
    );
    let none = Seq::<u8>::empty();
    assert(enc_input(a.block) + none =~= enc_input(a.block));
    assert(enc_input(b.block) + none =~= enc_input(b.block));
    input_cut(a.block, none, b.block, none);
}

proof fn hex_is_ascii(c: char)
    requires
        in_class(CharClass::LowerHex, c),
    ensures
        '\0' <= c <= '\u{7f}',
{
}

/// A snapshot hash takes one byte for each of its digits.
proof fn hash_length(hash: Seq<char>)
    requires
        valid_snapshot_hash(hash),
    ensures
        encode_utf8(hash).len() == 64,
{
    assert(is_ascii_chars(hash)) by {
        assert forall|i: int| 0 <= i < hash.len() implies '\0' <= #[trigger] hash[i] <= '\u{7f}' by {
            assert(in_class(CharClass::LowerHex, hash[i]));
            hex_is_ascii(hash[i]);
        }
    }
    is_ascii_chars_encode_utf8(hash);
}

/// Both steps ask for the same block under the same keys.
pub open spec fn same_entry(a: RichPlanEntry, b: RichPlanEntry) -> bool {
    &&& a.local_key@ == b.local_key@
    &&& opt_view(a.parent_key) == opt_view(b.parent_key)
    &&& same_request(a.block, b.block)
}

/// A step with valid keys whose block fits.
pub open spec fn entry_fits(entry: RichPlanEntry) -> bool {
    &&& valid_local_key(entry.local_key@)
    &&& opt_view(entry.parent_key) matches Some(key) ==> valid_local_key(key)
    &&& request_fits(entry.block)
}

/// Every step fits.
pub open spec fn entries_fit(entries: Seq<RichPlanEntry>) -> bool {
    forall|i: int| 0 <= i < entries.len() ==> entry_fits(#[trigger] entries[i])
}

proof fn local_key_length(key: Seq<char>)
    requires
        valid_local_key(key),
    ensures
        text_fits(key),
        encode_utf8(key).len() <= u16::MAX,
{
    byte_len_bound(key);
}

/// What follows a step is nothing, or starts with the short key of the next.
proof fn entries_rest(entries: Seq<RichPlanEntry>)
    requires
        entries_fit(entries),
    ensures
        rests(enc_list(entry_parts(entries))),
{
    if entries.len() > 0 {
        let parts = entry_parts(entries);
        assert(entry_fits(entries[0]));
        let key = entries[0].local_key@;
        local_key_length(key);
        let n = encode_utf8(key).len() as int;
        be_bytes_len(n, 8);
        if n >= 1 {
            be_small(n);
        } else {
            be_zero(8);
        }
        let whole = enc_list(parts);
        assert(parts[0] == enc_entry(entries[0]));
        assert forall|k: int| 0 <= k < 5 implies (#[trigger] whole[k]) == 0 by {
            assert(whole[k] == parts[0][k]);
            assert(parts[0][k] == be_bytes(n, 8)[k]);
        }
        assert(whole.len() >= 8);
    }
}

proof fn entries_cut(p: Seq<RichPlanEntry>, q: Seq<RichPlanEntry>)
    requires
        p.len() == q.len(),
        entries_fit(p),
        entries_fit(q),
        enc_list(entry_parts(p)) == enc_list(entry_parts(q)),
    ensures
        forall|i: int| 0 <= i < p.len() ==> same_entry(#[trigger] p[i], q[i]),
    decreases p.len(),
{
    if p.len() > 0 {
        let rest_p = p.drop_first();
        let rest_q = q.drop_first();
        assert(entry_fits(p[0]) && entry_fits(q[0]));
        assert forall|i: int| 0 <= i < rest_p.len() implies entry_fits(#[trigger] rest_p[i]) by {
            assert(entry_fits(p[i + 1]));
        }
        assert forall|i: int| 0 <= i < rest_q.len() implies entry_fits(#[trigger] rest_q[i]) by {
            assert(entry_fits(q[i + 1]));
        }
        entries_rest(rest_p);
        entries_rest(rest_q);
        assert(entry_parts(p).drop_first() =~= entry_parts(rest_p));
        assert(entry_parts(q).drop_first() =~= entry_parts(rest_q));
        let x = enc_list(entry_parts(rest_p));
        let y = enc_list(entry_parts(rest_q));
        assert(enc_entry(p[0]) + x == enc_entry(q[0]) + y);
        let k1 = p[0].local_key@;
        let k2 = q[0].local_key@;
        let u1 = opt_view(p[0].parent_key);
        let u2 = opt_view(q[0].parent_key);
        local_key_length(k1);
        local_key_length(k2);
        if let Some(key) = u1 {
            local_key_length(key);
        }
        if let Some(key) = u2 {
            local_key_length(key);
        }
        regroup(enc_text(k1), enc_opt_text(u1) + enc_input(p[0].block), x);
        regroup(enc_text(k2), enc_opt_text(u2) + enc_input(q[0].block), y);
        regroup(enc_opt_text(u1), enc_input(p[0].block), x);
        regroup(enc_opt_text(u2), enc_input(q[0].block), y);
        text_cut(
            k1,
            enc_opt_text(u1) + (enc_input(p[0].block) + x),
            k2,
            enc_opt_text(u2) + (enc_input(q[0].block) + y),
        );
        opt_text_cut(u1, enc_input(p[0].block) + x, u2, enc_input(q[0].block) + y);
        input_cut(p[0].block, x, q[0].block, y);
        entries_cut(rest_p, rest_q);
        assert forall|i: int| 0 <= i < p.len() implies same_entry(#[trigger] p[i], q[i]) by {
            if i > 0 {
                assert(same_entry(rest_p[i - 1], rest_q[i - 1]));
            }
        }
    }
}

/// The encoding under the fingerprint of a rich page creation binds the resolved
/// space, the name and every step of the plan, in order.
pub proof fn rich_fingerprint_binds_request(
    a: RichPageCreateInput,
    space_a: Seq<char>,
    b: RichPageCreateInput,
    space_b: Seq<char>,
)
    requires
        rich_fits(a, space_a),
        rich_fits(b, space_b),
        enc_rich(a, space_a) == enc_rich(b, space_b),
    ensures
        space_a == space_b,
        a.name@ == b.name@,
        a.blocks.len() == b.blocks.len(),
        forall|i: int|
            0 <= i < a.blocks.len() ==> same_entry(#[trigger] a.blocks@[i], b.blocks@[i]),
{
    let n = a.blocks.len() as int;
    let m = b.blocks.len() as int;
    be_fits_u64(n);
    be_fits_u64(m);
    let a2 = be_bytes(n, 8) + enc_list(entry_parts(a.blocks@));
    let b2 = be_bytes(m, 8) + enc_list(entry_parts(b.blocks@));
    text_cut(space_a, enc_text(a.name@) + a2, space_b, enc_text(b.name@) + b2);
    text_cut(a.name@, a2, b.name@, b2);
    be_cut(n, enc_list(entry_parts(a.blocks@)), m, enc_list(entry_parts(b.blocks@)), 8);
    entries_cut(a.blocks@, b.blocks@);
}

} // verus!
