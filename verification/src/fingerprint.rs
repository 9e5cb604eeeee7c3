//! Fingerprints of creation requests: which requests count as the same one
//! under an idempotency key.

use crate::encoding::{
    be_bytes, enc_bytes, enc_list, enc_list_step, enc_opt_text, enc_text, opt_text_fits, text_parts,
    CanonicalHasher,
};
use crate::hashing::{
    enc_icon, hash_icon, hash_optional_color, hash_relations, mark_label, mark_payload,
};
use crate::input::{
    presentation_background, presentation_horizontal, presentation_vertical, requested_background,
    requested_horizontal, requested_vertical, BodyBlockCreateInput, NewBlockInput,
    RichPageCreateInput, RichPlanEntry,
};
use crate::model::{MarkKindV, MarkV, WireMark};
use crate::outside::{json_string, json_string_text, sha256};
use crate::request_binding::{create_fits, entry_fits, request_fits, rich_fits};
use crate::text::{opt_view, views};
use crate::wire::{
    divider_label, divider_label_text, embed_label, embed_label_text, horizontal_label,
    horizontal_label_text, link_card_label, link_card_label_text, link_description_label,
    link_description_label_text, link_icon_label, link_icon_label_text, vertical_label,
    vertical_label_text, writable_style_label, writable_style_label_text, WireInsertPosition,
};
use vstd::prelude::*;
use vstd::string::*;
use vstd::utf8::*;

verus! {

/// Decimal digit.
pub open spec fn decimal_digit(value: int) -> char {
    (('0' as u32) + value) as char
}

/// Decimal text of a number.
pub open spec fn decimal_text(value: nat) -> Seq<char>
    decreases value,
{
    if value < 10 {
        seq![decimal_digit(value as int)]
    } else {
        decimal_text(value / 10).push(decimal_digit(value as int % 10))
    }
}

fn digit_piece(value: u32) -> (r: &'static str)
    requires
        value < 10,
    ensures
        r@ == seq![decimal_digit(value as int)],
{
    proof {
        reveal_strlit("0");
        reveal_strlit("1");
        reveal_strlit("2");
        reveal_strlit("3");
        reveal_strlit("4");
        reveal_strlit("5");
        reveal_strlit("6");
        reveal_strlit("7");
        reveal_strlit("8");
        reveal_strlit("9");
    }
    let piece: &'static str = match value {
        0 => "0",
        1 => "1",
        2 => "2",
        3 => "3",
        4 => "4",
        5 => "5",
        6 => "6",
        7 => "7",
        8 => "8",
        _ => "9",
    };
    assert(piece@ =~= seq![decimal_digit(value as int)]);
    piece
}

/// Decimal text of a number.
pub fn decimal(value: u32) -> (r: String)
    ensures
        r@ == decimal_text(value as nat),
    decreases value,
{
    if value < 10 {
        digit_piece(value).to_owned()
    } else {
        let mut out: String = decimal(value / 10);
        out.append(digit_piece(value % 10));
        assert(out@ =~= decimal_text(value as nat));
        out
    }
}

/// Member that holds the text of a mark.
pub open spec fn mark_member(kind: MarkKindV) -> Seq<char> {
    match kind {
        MarkKindV::Link(_) => ",\"url\":"@,
        MarkKindV::TextColor(_) => ",\"color\":"@,
        MarkKindV::BackgroundColor(_) => ",\"color\":"@,
        MarkKindV::Mention(_) => ",\"object_id\":"@,
        MarkKindV::Emoji(_) => ",\"emoji\":"@,
        MarkKindV::Object(_) => ",\"object_id\":"@,
        _ => Seq::empty(),
    }
}

/// JSON of a mark: its kind, its range, and the text it carries.
pub open spec fn mark_json(mark: MarkV) -> Seq<char> {
    "{\"kind\":\""@ + mark_label(mark.kind) + "\",\"start\":"@ + decimal_text(mark.start as nat)
        + ",\"end\":"@ + decimal_text(mark.end as nat) + match mark_payload(mark.kind) {
        Some(text) => mark_member(mark.kind) + json_string(text),
        None => Seq::empty(),
    } + "}"@
}

/// JSON members of an array from `i` on, with the commas before them.
pub open spec fn marks_json_from(marks: Seq<MarkV>, i: int) -> Seq<char>
    decreases marks.len() - i,
{
    if i >= marks.len() {
        "]"@
    } else if i == 0 {
        mark_json(marks[i]) + marks_json_from(marks, i + 1)
    } else {
        ","@ + (mark_json(marks[i]) + marks_json_from(marks, i + 1))
    }
}

/// JSON array of marks.
pub open spec fn marks_json(marks: Seq<MarkV>) -> Seq<char> {
    "["@ + marks_json_from(marks, 0)
}

fn write_mark(out: &mut String, mark: &WireMark)
    ensures
        final(out)@ == old(out)@ + mark_json(mark@),
{
    let range = mark.range();
    let (label, member, payload): (&'static str, &'static str, Option<&str>) = match mark {
        WireMark::Bold { .. } => ("bold", "", None),
        WireMark::Italic { .. } => ("italic", "", None),
        WireMark::Strikethrough { .. } => ("strikethrough", "", None),
        WireMark::Underline { .. } => ("underline", "", None),
        WireMark::Code { .. } => ("code", "", None),
        WireMark::Link { url, .. } => ("link", ",\"url\":", Some(url.as_str())),
        WireMark::TextColor { color, .. } => ("text_color", ",\"color\":", Some(color.as_str())),
        WireMark::BackgroundColor { color, .. } => ("background_color", ",\"color\":", Some(color.as_str())),
        WireMark::Mention { object_id, .. } => ("mention", ",\"object_id\":", Some(object_id.as_str())),
        WireMark::Emoji { emoji, .. } => ("emoji", ",\"emoji\":", Some(emoji.as_str())),
        WireMark::Object { object_id, .. } => ("object", ",\"object_id\":", Some(object_id.as_str())),
    };
    let ghost before = out@;
    out.append("{\"kind\":\"");
    out.append(label);
    out.append("\",\"start\":");
    out.append(decimal(range.start).as_str());
    out.append(",\"end\":");
    out.append(decimal(range.end).as_str());
    let ghost head = "{\"kind\":\""@ + mark_label(mark@.kind) + "\",\"start\":"@ + decimal_text(
        mark@.start as nat,
    ) + ",\"end\":"@ + decimal_text(mark@.end as nat);
    assert(out@ =~= before + head);
    if let Some(text) = payload {
        out.append(member);
        out.append(json_string_text(text).as_str());
    }
    out.append("}");
    proof {
        let tail: Seq<char> = match mark_payload(mark@.kind) {
            Some(text) => mark_member(mark@.kind) + json_string(text),
            None => Seq::empty(),
        };
        assert(mark_json(mark@) == head + tail + "}"@);
        assert(out@ =~= before + (head + tail + "}"@));
    }
}

/// JSON array of marks as bytes.
pub fn encode_marks(marks: &Vec<WireMark>) -> (r: Vec<u8>)
    ensures
        r@ == encode_utf8(marks_json(views(marks@))),
{
    let ghost list = views(marks@);
    let mut out: String = "[".to_owned();
    let mut i: usize = 0;
    while i < marks.len()
        invariant
            i <= marks.len(),
            list == views(marks@),
            out@ + marks_json_from(list, i as int) == marks_json(list),
        decreases marks.len() - i,
    {
        let ghost before = out@;
        assert(list[i as int] == marks@[i as int]@);
        if i > 0 {
            out.append(",");
        }
        write_mark(&mut out, &marks[i]);
        assert(out@ + marks_json_from(list, i as int + 1) =~= before + marks_json_from(
            list,
            i as int,
        ));
        i += 1;
    }
    let ghost before = out@;
    out.append("]");
    assert(out@ == marks_json(list));
    out.as_str().as_bytes_vec()
}

/// Encoding of a requested presentation.
pub open spec fn enc_presentation(input: NewBlockInput) -> Seq<u8> {
    enc_opt_text(
        match requested_horizontal(input) {
            Some(align) => Some(horizontal_label_text(align)),
            None => None,
        },
    ) + (enc_opt_text(
        match requested_vertical(input) {
            Some(align) => Some(vertical_label_text(align)),
            None => None,
        },
    ) + enc_opt_text(opt_view(requested_background(input))))
}

/// Byte for an optional check mark.
pub open spec fn checked_byte(checked: Option<bool>) -> u8 {
    match checked {
        Some(true) => 1,
        Some(false) => 0,
        None => 2,
    }
}

/// Label of a new block's kind.
pub open spec fn input_label(input: NewBlockInput) -> Seq<char> {
    match input {
        NewBlockInput::Text { .. } => "text"@,
        NewBlockInput::Divider { .. } => "divider"@,
        NewBlockInput::Link { .. } => "link"@,
        NewBlockInput::Relation { .. } => "relation"@,
        NewBlockInput::Embed { .. } => "embed"@,
        NewBlockInput::Table { .. } => "table"@,
        NewBlockInput::TableOfContents { .. } => "table_of_contents"@,
    }
}

/// Encoding of what follows the label of a new block.
pub open spec fn enc_input_fields(input: NewBlockInput) -> Seq<u8> {
    match input {
        NewBlockInput::Text { style, text, checked, marks, text_color, icon, .. } => enc_text(
            writable_style_label_text(style),
        ) + (enc_text(text@) + (seq![checked_byte(checked)] + (enc_opt_text(opt_view(text_color))
            + (enc_icon(opt_view(icon)) + (enc_presentation(input) + enc_bytes(
            encode_utf8(marks_json(views(marks@))),
        )))))),
        NewBlockInput::Divider { style, .. } => enc_text(divider_label_text(style))
            + enc_presentation(input),
        NewBlockInput::Link {
            target_object_id,
            card_style,
            icon_size,
            description,
            relations,
            ..
        } => enc_text(target_object_id@) + (enc_text(link_card_label_text(card_style)) + (enc_text(
            link_icon_label_text(icon_size),
        ) + (enc_text(link_description_label_text(description)) + (enc_list(
            text_parts(views(relations@)),
        ) + enc_presentation(input))))),
        NewBlockInput::Relation { key, .. } => enc_text(key@) + enc_presentation(input),
        NewBlockInput::Embed { processor, source, .. } => enc_text(embed_label_text(processor)) + (
        enc_text(source@) + enc_presentation(input)),
        NewBlockInput::Table { rows, columns, header_row } => seq![
            rows,
            columns,
            if header_row {
                1u8
            } else {
                0u8
            },
        ],
        NewBlockInput::TableOfContents { .. } => enc_presentation(input),
    }
}

/// Encoding of a new block: its label, then its fields.
pub open spec fn enc_input(input: NewBlockInput) -> Seq<u8> {
    enc_text(input_label(input)) + enc_input_fields(input)
}

fn hash_presentation(hash: &mut CanonicalHasher, value: &NewBlockInput)
    ensures
        final(hash)@ == old(hash)@ + enc_presentation(*value),
        opt_text_fits(opt_view(requested_background(*value))),
{
    match presentation_horizontal(value) {
        Some(align) => hash.optional_string(Some(horizontal_label(align))),
        None => hash.optional_string(None),
    }
    match presentation_vertical(value) {
        Some(align) => hash.optional_string(Some(vertical_label(align))),
        None => hash.optional_string(None),
    }
    match presentation_background(value) {
        Some(color) => hash.optional_string(Some(color.as_str())),
        None => hash.optional_string(None),
    }
    assert(hash@ =~= old(hash)@ + enc_presentation(*value));
}

/// Splits a chain of additions after its first part.
proof fn chain(start: Seq<u8>, first: Seq<u8>, rest: Seq<u8>)
    ensures
        (start + first) + rest == start + (first + rest),
{
    assert((start + first) + rest =~= start + (first + rest));
}

fn hash_text_input(hash: &mut CanonicalHasher, value: &NewBlockInput)
    requires
        value is Text,
    ensures
        final(hash)@ == old(hash)@ + enc_input_fields(*value),
        request_fits(*value),
{
    if let NewBlockInput::Text { style, text, checked, marks, text_color, icon, .. } = value {
        let ghost h = hash@;
        hash.string(writable_style_label(*style));
        let ghost h0 = hash@;
        hash.string(text.as_str());
        let ghost h1 = hash@;
        hash.byte(
            match checked {
                Some(true) => 1,
                Some(false) => 0,
                None => 2,
            },
        );
        let ghost h2 = hash@;
        hash_optional_color(hash, text_color);
        let ghost h3 = hash@;
        hash_icon(hash, icon);
        let ghost h4 = hash@;
        hash_presentation(hash, value);
        let encoded: Vec<u8> = encode_marks(marks);
        hash.bytes(encoded.as_slice());
        proof {
            let t5 = enc_bytes(encode_utf8(marks_json(views(marks@))));
            let t4 = enc_presentation(*value) + t5;
            let t3 = enc_icon(opt_view(*icon)) + t4;
            let t2 = enc_opt_text(opt_view(*text_color)) + t3;
            let t1 = seq![checked_byte(*checked)] + t2;
            let t0 = enc_text(text@) + t1;
            chain(h4, enc_presentation(*value), t5);
            chain(h3, enc_icon(opt_view(*icon)), t4);
            chain(h2, enc_opt_text(opt_view(*text_color)), t3);
            chain(h1, seq![checked_byte(*checked)], t2);
            chain(h0, enc_text(text@), t1);
            chain(h, enc_text(writable_style_label_text(*style)), t0);
        }
    }
}

fn hash_link_input(hash: &mut CanonicalHasher, value: &NewBlockInput)
    requires
        value is Link,
    ensures
        final(hash)@ == old(hash)@ + enc_input_fields(*value),
        request_fits(*value),
{
    if let NewBlockInput::Link {
        target_object_id,
        card_style,
        icon_size,
        description,
        relations,
        ..
    } = value {
        let ghost h = hash@;
        hash.string(target_object_id.as_str());
        let ghost h0 = hash@;
        hash.string(link_card_label(*card_style));
        let ghost h1 = hash@;
        hash.string(link_icon_label(*icon_size));
        let ghost h2 = hash@;
        hash.string(link_description_label(*description));
        let ghost h3 = hash@;
        hash_relations(hash, relations);
        hash_presentation(hash, value);
        proof {
            let t4 = enc_presentation(*value);
            let t3 = enc_list(text_parts(views(relations@))) + t4;
            let t2 = enc_text(link_description_label_text(*description)) + t3;
            let t1 = enc_text(link_icon_label_text(*icon_size)) + t2;
            let t0 = enc_text(link_card_label_text(*card_style)) + t1;
            chain(h3, enc_list(text_parts(views(relations@))), t4);
            chain(h2, enc_text(link_description_label_text(*description)), t3);
            chain(h1, enc_text(link_icon_label_text(*icon_size)), t2);
            chain(h0, enc_text(link_card_label_text(*card_style)), t1);
            chain(h, enc_text(target_object_id@), t0);
        }
    }
}

/// Adds a new block to a fingerprint. Every length of a block fits its field in
/// the encoding.
pub fn hash_new_block_input(hash: &mut CanonicalHasher, value: &NewBlockInput)
    ensures
        final(hash)@ == old(hash)@ + enc_input(*value),
        request_fits(*value),
{
    let ghost h = hash@;
    match value {
        NewBlockInput::Text { .. } => {
            hash.string("text");
            hash_text_input(hash, value);
        },
        NewBlockInput::Divider { style, .. } => {
            hash.string("divider");
            let ghost h0 = hash@;
            hash.string(divider_label(*style));
            hash_presentation(hash, value);
            assert(hash@ =~= h0 + enc_input_fields(*value));
        },
        NewBlockInput::Link { .. } => {
            hash.string("link");
            hash_link_input(hash, value);
        },
        NewBlockInput::Relation { key, .. } => {
            hash.string("relation");
            let ghost h0 = hash@;
            hash.string(key.as_str());
            hash_presentation(hash, value);
            assert(hash@ =~= h0 + enc_input_fields(*value));
        },
        NewBlockInput::Embed { processor, source, .. } => {
            hash.string("embed");
            let ghost h0 = hash@;
            hash.string(embed_label(*processor));
            hash.string(source.as_str());
            hash_presentation(hash, value);
            assert(hash@ =~= h0 + enc_input_fields(*value));
        },
        NewBlockInput::Table { rows, columns, header_row } => {
            hash.string("table");
            let ghost h0 = hash@;
            hash.byte(*rows);
            hash.byte(*columns);
            hash.boolean(*header_row);
            assert(hash@ =~= h0 + enc_input_fields(*value));
        },
        NewBlockInput::TableOfContents { .. } => {
            hash.string("table_of_contents");
            hash_presentation(hash, value);
        },
    }
    proof {
        chain(h, enc_text(input_label(*value)), enc_input_fields(*value));
    }
}

/// Byte of an insert position.
pub open spec fn position_byte(position: WireInsertPosition) -> u8 {
    match position {
        WireInsertPosition::Before => 0,
        WireInsertPosition::After => 1,
        WireInsertPosition::FirstChild => 2,
        WireInsertPosition::LastChild => 3,
    }
}

/// Encoding of a block creation in a resolved space. The space reference and the
/// idempotency key are not part of it.
pub open spec fn enc_create(input: BodyBlockCreateInput, space: Seq<char>) -> Seq<u8> {
    enc_text(space) + (enc_text(input.object_id@) + (encode_utf8(input.expected_snapshot_hash@) + (
    enc_text(input.target_block_id@) + (seq![position_byte(input.position)] + enc_input(
        input.block,
    )))))
}

/// Fingerprint of a block creation in a resolved space.
pub fn body_create_fingerprint(input: &BodyBlockCreateInput, resolved_space: &str) -> (r: [u8; 32])
    ensures
        r@ == sha256(
            encode_utf8("any-mcp/body-block-create/v1"@) + enc_create(*input, resolved_space@),
        ),
        create_fits(*input, resolved_space@),
{
    let mut hash = CanonicalHasher::in_domain("any-mcp/body-block-create/v1");
    let ghost h = hash@;
    hash.string(resolved_space);
    let ghost h0 = hash@;
    hash.string(input.object_id.as_str());
    let ghost h1 = hash@;
    hash.raw(input.expected_snapshot_hash.as_str().as_bytes());
    let ghost h2 = hash@;
    hash.string(input.target_block_id.as_str());
    let ghost h3 = hash@;
    hash.byte(
        match input.position {
            WireInsertPosition::Before => 0,
            WireInsertPosition::After => 1,
            WireInsertPosition::FirstChild => 2,
            WireInsertPosition::LastChild => 3,
        },
    );
    hash_new_block_input(&mut hash, &input.block);
    proof {
        let t3 = seq![position_byte(input.position)] + enc_input(input.block);
        let t2 = enc_text(input.target_block_id@) + t3;
        let t1 = encode_utf8(input.expected_snapshot_hash@) + t2;
        let t0 = enc_text(input.object_id@) + t1;
        chain(h3, seq![position_byte(input.position)], enc_input(input.block));
        chain(h2, enc_text(input.target_block_id@), t3);
        chain(h1, encode_utf8(input.expected_snapshot_hash@), t2);
        chain(h0, enc_text(input.object_id@), t1);
        chain(h, enc_text(resolved_space@), t0);
    }
    hash.digest()
}

/// Encoding of one step of a rich plan.
pub open spec fn enc_entry(entry: RichPlanEntry) -> Seq<u8> {
    enc_text(entry.local_key@) + (enc_opt_text(opt_view(entry.parent_key)) + enc_input(
        entry.block,
    ))
}

/// Steps as parts.
pub open spec fn entry_parts(entries: Seq<RichPlanEntry>) -> Seq<Seq<u8>> {
    Seq::new(entries.len(), |i: int| enc_entry(entries[i]))
}

/// Encoding of a rich page creation in a resolved space.
pub open spec fn enc_rich(input: RichPageCreateInput, space: Seq<char>) -> Seq<u8> {
    enc_text(space) + (enc_text(input.name@) + (be_bytes(input.blocks.len() as int, 8) + enc_list(
        entry_parts(input.blocks@),
    )))
}

fn hash_entry(hash: &mut CanonicalHasher, entry: &RichPlanEntry)
    ensures
        final(hash)@ == old(hash)@ + enc_entry(*entry),
        entry_fits(*entry),
{
    hash.string(entry.local_key.as_str());
    match &entry.parent_key {
        Some(parent) => hash.optional_string(Some(parent.as_str())),
        None => hash.optional_string(None),
    }
    hash_new_block_input(hash, &entry.block);
    assert(hash@ =~= old(hash)@ + enc_entry(*entry));
}

/// Fingerprint of a rich page creation in a resolved space.
pub fn rich_fingerprint(input: &RichPageCreateInput, resolved_space: &str) -> (r: [u8; 32])
    ensures
        r@ == sha256(
            encode_utf8("any-mcp/rich-page-create/v1"@) + enc_rich(*input, resolved_space@),
        ),
        rich_fits(*input, resolved_space@),
{
    let ghost parts = entry_parts(input.blocks@);
    let ghost goal = encode_utf8("any-mcp/rich-page-create/v1"@) + enc_rich(
        *input,
        resolved_space@,
    );
    let mut hash = CanonicalHasher::in_domain("any-mcp/rich-page-create/v1");
    hash.string(resolved_space);
    hash.string(input.name.as_str());
    hash.usize(input.blocks.len());
    assert(parts.subrange(0, parts.len() as int) =~= parts);
    assert(hash@ + enc_list(parts) =~= goal);
    let mut i: usize = 0;
    while i < input.blocks.len()
        invariant
            i <= input.blocks.len(),
            parts == entry_parts(input.blocks@),
            forall|k: int| 0 <= k < i ==> entry_fits(#[trigger] input.blocks@[k]),
            hash@ + enc_list(parts.subrange(i as int, parts.len() as int)) == goal,
        decreases input.blocks.len() - i,
    {
        let ghost before = hash@;
        hash_entry(&mut hash, &input.blocks[i]);
        proof {
            enc_list_step(parts, i as int);
            assert(hash@ + enc_list(parts.subrange(i as int + 1, parts.len() as int)) =~= before
                + enc_list(parts.subrange(i as int, parts.len() as int)));
        }
        i += 1;
    }
    assert(hash@ =~= goal);
    hash.digest()
}

} // verus!
