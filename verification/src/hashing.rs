//! The snapshot hash: a canonical encoding of a projected body, and its digest.

use crate::binding::{body_fits, content_fits, icon_fits, mark_fits, summary_fits};
use crate::domain::{valid_relation_key, ColorInput, EntityId, RelationKey, SnapshotHash};
use crate::encoding::{
    be_bytes, enc_bool, enc_list, enc_list_step, enc_opt_text, enc_text, hex_text,
    opt_text_fits, snapshot_domain, text_fits, text_parts, CanonicalHasher,
};
use crate::model::{
    BlockProjection, BlockSummary, ContentV, IconV, MarkKindV, MarkV, RestrictionsProjection,
    SummaryV, WireIcon, WireMark,
};
use crate::outside::sha256;
use crate::request_binding::keys_valid;
use crate::text::{opt_view, views};
use crate::wire::{
    bookmark_label_text, divider_label, divider_label_text, embed_label, embed_label_text,
    file_kind_label_text, file_state_label_text, file_style_label_text, horizontal_label,
    horizontal_label_text, layout_label_text, link_card_label, link_card_label_text,
    link_description_label, link_description_label_text, link_icon_label, link_icon_label_text,
    text_style_label, text_style_label_text, vertical_label, vertical_label_text, WireFileKind, WireFileState, WireFileStyle,
    WireLinkCardStyle, WireLinkDescription, WireLinkIconSize, WireTextStyle,
};
use vstd::prelude::*;

verus! {

/// Label of a mark kind.
pub open spec fn mark_label(kind: MarkKindV) -> Seq<char> {
    match kind {
        MarkKindV::Bold => "bold"@,
        MarkKindV::Italic => "italic"@,
        MarkKindV::Strikethrough => "strikethrough"@,
        MarkKindV::Underline => "underline"@,
        MarkKindV::Code => "code"@,
        MarkKindV::Link(_) => "link"@,
        MarkKindV::TextColor(_) => "text_color"@,
        MarkKindV::BackgroundColor(_) => "background_color"@,
        MarkKindV::Mention(_) => "mention"@,
        MarkKindV::Emoji(_) => "emoji"@,
        MarkKindV::Object(_) => "object"@,
    }
}

/// Text that a mark kind carries.
pub open spec fn mark_payload(kind: MarkKindV) -> Option<Seq<char>> {
    match kind {
        MarkKindV::Link(text) => Some(text),
        MarkKindV::TextColor(text) => Some(text),
        MarkKindV::BackgroundColor(text) => Some(text),
        MarkKindV::Mention(text) => Some(text),
        MarkKindV::Emoji(text) => Some(text),
        MarkKindV::Object(text) => Some(text),
        _ => None,
    }
}

/// Encoding of a mark: its range, its label and the text it carries.
pub open spec fn enc_mark(mark: MarkV) -> Seq<u8> {
    be_bytes(mark.start as int, 4) + (be_bytes(mark.end as int, 4) + (enc_text(
        mark_label(mark.kind),
    ) + match mark_payload(mark.kind) {
        Some(text) => enc_text(text),
        None => Seq::empty(),
    }))
}

/// Marks as parts.
pub open spec fn mark_parts(marks: Seq<MarkV>) -> Seq<Seq<u8>> {
    Seq::new(marks.len(), |i: int| enc_mark(marks[i]))
}

/// Encoding of an optional callout icon.
pub open spec fn enc_icon(icon: Option<IconV>) -> Seq<u8> {
    match icon {
        Some(IconV::Emoji(text)) => enc_bool(true) + (enc_text("emoji"@) + enc_text(text)),
        Some(IconV::Image(text)) => enc_bool(true) + (enc_text("image"@) + enc_text(text)),
        None => enc_bool(false),
    }
}

/// Label of a content kind.
pub open spec fn content_label(content: ContentV) -> Seq<char> {
    match content {
        ContentV::Text { .. } => "text"@,
        ContentV::Layout { .. } => "layout"@,
        ContentV::Divider { .. } => "divider"@,
        ContentV::Bookmark { .. } => "bookmark"@,
        ContentV::Link { .. } => "link"@,
        ContentV::Relation { .. } => "relation"@,
        ContentV::FeaturedRelations => "featured_relations"@,
        ContentV::Embed { .. } => "embed"@,
        ContentV::TableOfContents => "table_of_contents"@,
        ContentV::Table => "table"@,
        ContentV::TableRow { .. } => "table_row"@,
        ContentV::TableColumn => "table_column"@,
        ContentV::File { .. } => "file"@,
        ContentV::Unsupported { .. } => "unsupported"@,
        ContentV::Unrecognized => Seq::empty(),
    }
}

/// Encoding of what follows the label of a content.
pub open spec fn enc_content_fields(content: ContentV) -> Seq<u8> {
    match content {
        ContentV::Text { text, style, checked, color, icon, marks } => enc_text(text) + (enc_text(
            text_style_label_text(style),
        ) + (enc_bool(checked) + (enc_opt_text(color) + (enc_icon(icon) + (be_bytes(
            marks.len() as int,
            8,
        ) + enc_list(mark_parts(marks))))))),
        ContentV::Layout { style } => enc_text(layout_label_text(style)),
        ContentV::Divider { style } => enc_text(divider_label_text(style)),
        ContentV::Bookmark { url, target, state } => enc_text(url) + (enc_opt_text(target)
            + enc_text(bookmark_label_text(state))),
        ContentV::Link { target, card_style, icon_size, description, relations } => enc_text(target)
            + (enc_text(link_card_label_text(card_style)) + (enc_text(
            link_icon_label_text(icon_size),
        ) + (enc_text(link_description_label_text(description)) + (be_bytes(
            relations.len() as int,
            8,
        ) + enc_list(text_parts(relations)))))),
        ContentV::Relation { key } => enc_text(key),
        ContentV::FeaturedRelations => Seq::empty(),
        ContentV::Embed { processor, source } => enc_text(embed_label_text(processor)) + enc_text(
            source,
        ),
        ContentV::TableOfContents => Seq::empty(),
        ContentV::Table => Seq::empty(),
        ContentV::TableRow { is_header } => enc_bool(is_header),
        ContentV::TableColumn => Seq::empty(),
        ContentV::File { target, file_kind, mime, size, state, style } => enc_text(target) + (
        enc_text(file_kind_label_text(file_kind)) + (enc_text(mime) + (be_bytes(size, 8) + (
        enc_text(file_state_label_text(state)) + enc_text(file_style_label_text(style)))))),
        ContentV::Unsupported { opaque_kind, child_count, approx_bytes } => enc_text(opaque_kind)
            + (be_bytes(child_count, 8) + be_bytes(approx_bytes, 8)),
        ContentV::Unrecognized => Seq::empty(),
    }
}

/// Encoding of content: its label, then its fields.
pub open spec fn enc_content(content: ContentV) -> Seq<u8> {
    enc_text(content_label(content)) + enc_content_fields(content)
}

/// Encoding of a block's identity and place.
pub open spec fn enc_place(block: SummaryV) -> Seq<u8> {
    enc_text(block.id) + (enc_opt_text(block.parent_id) + (be_bytes(block.sibling_index, 8) + (
    be_bytes(block.depth, 8) + be_bytes(block.child_count, 8))))
}

/// Encoding of restrictions.
pub open spec fn enc_restrictions(value: RestrictionsProjection) -> Seq<u8> {
    enc_bool(value.read) + (enc_bool(value.edit) + (enc_bool(value.remove) + (enc_bool(value.drag)
        + enc_bool(value.drop_on))))
}

/// Encoding of alignment and background.
pub open spec fn enc_look(block: SummaryV) -> Seq<u8> {
    enc_text(horizontal_label_text(block.align)) + (enc_text(
        vertical_label_text(block.vertical_align),
    ) + enc_opt_text(block.background_color))
}

/// Encoding of one projected block.
pub open spec fn enc_summary(block: SummaryV) -> Seq<u8> {
    enc_place(block) + (enc_restrictions(block.restrictions) + (enc_look(block) + enc_content(
        block.content,
    )))
}

/// Blocks as parts.
pub open spec fn summary_parts(blocks: Seq<SummaryV>) -> Seq<Seq<u8>> {
    Seq::new(blocks.len(), |i: int| enc_summary(blocks[i]))
}

/// Encoding of a whole body, without its domain text.
pub open spec fn enc_body(
    space_id: Seq<char>,
    object_id: Seq<char>,
    root_id: Seq<char>,
    blocks: Seq<SummaryV>,
) -> Seq<u8> {
    enc_text(space_id) + (enc_text(object_id) + (enc_text(root_id) + (be_bytes(
        blocks.len() as int,
        8,
    ) + enc_list(summary_parts(blocks)))))
}

/// Hash that names a body.
pub open spec fn body_hash(
    space_id: Seq<char>,
    object_id: Seq<char>,
    root_id: Seq<char>,
    blocks: Seq<SummaryV>,
) -> Seq<char> {
    hex_text(sha256(snapshot_domain() + enc_body(space_id, object_id, root_id, blocks)))
}

/// Adds a mark to an encoding.
pub fn hash_mark(hash: &mut CanonicalHasher, mark: &WireMark)
    ensures
        final(hash)@ == old(hash)@ + enc_mark(mark@),
        mark_fits(mark@),
{
    let range = mark.range();
    hash.u32(range.start);
    hash.u32(range.end);
    match mark {
        WireMark::Bold { .. } => hash.string("bold"),
        WireMark::Italic { .. } => hash.string("italic"),
        WireMark::Strikethrough { .. } => hash.string("strikethrough"),
        WireMark::Underline { .. } => hash.string("underline"),
        WireMark::Code { .. } => hash.string("code"),
        WireMark::Link { url, .. } => {
            hash.string("link");
            hash.string(url.as_str());
        },
        WireMark::TextColor { color, .. } => {
            hash.string("text_color");
            hash.string(color.as_str());
        },
        WireMark::BackgroundColor { color, .. } => {
            hash.string("background_color");
            hash.string(color.as_str());
        },
        WireMark::Mention { object_id, .. } => {
            hash.string("mention");
            hash.string(object_id.as_str());
        },
        WireMark::Emoji { emoji, .. } => {
            hash.string("emoji");
            hash.string(emoji.as_str());
        },
        WireMark::Object { object_id, .. } => {
            hash.string("object");
            hash.string(object_id.as_str());
        },
    }
    assert(hash@ =~= old(hash)@ + enc_mark(mark@));
}

fn hash_marks(hash: &mut CanonicalHasher, marks: &Vec<WireMark>)
    ensures
        final(hash)@ == old(hash)@ + (be_bytes(marks.len() as int, 8) + enc_list(
            mark_parts(views(marks@)),
        )),
        marks.len() <= u64::MAX,
        forall|i: int| 0 <= i < marks.len() ==> mark_fits(#[trigger] views(marks@)[i]),
{
    let ghost parts = mark_parts(views(marks@));
    let ghost goal = old(hash)@ + (be_bytes(marks.len() as int, 8) + enc_list(parts));
    hash.usize(marks.len());
    assert(parts.subrange(0, parts.len() as int) =~= parts);
    assert(hash@ + enc_list(parts) =~= goal);
    let mut i: usize = 0;
    while i < marks.len()
        invariant
            i <= marks.len(),
            parts == mark_parts(views(marks@)),
            forall|k: int| 0 <= k < i ==> mark_fits(#[trigger] views(marks@)[k]),
            hash@ + enc_list(parts.subrange(i as int, parts.len() as int)) == goal,
        decreases marks.len() - i,
    {
        let ghost before = hash@;
        hash_mark(hash, &marks[i]);
        proof {
            enc_list_step(parts, i as int);
            assert(parts[i as int] == enc_mark(marks@[i as int]@));
            assert(hash@ + enc_list(parts.subrange(i as int + 1, parts.len() as int)) =~= before
                + enc_list(parts.subrange(i as int, parts.len() as int)));
        }
        i += 1;
    }
    assert(hash@ =~= goal);
}

/// Adds an optional callout icon to an encoding.
pub fn hash_icon(hash: &mut CanonicalHasher, icon: &Option<WireIcon>)
    ensures
        final(hash)@ == old(hash)@ + enc_icon(opt_view(*icon)),
        icon_fits(opt_view(*icon)),
{
    hash.boolean(icon.is_some());
    if let Some(icon) = icon {
        match icon {
            WireIcon::Emoji { emoji } => {
                hash.string("emoji");
                hash.string(emoji.as_str());
            },
            WireIcon::Image { object_id } => {
                hash.string("image");
                hash.string(object_id.as_str());
            },
        }
    }
    assert(hash@ =~= old(hash)@ + enc_icon(opt_view(*icon)));
}

fn hash_optional_id(hash: &mut CanonicalHasher, id: &Option<EntityId>)
    ensures
        final(hash)@ == old(hash)@ + enc_opt_text(opt_view(*id)),
        opt_text_fits(opt_view(*id)),
{
    match id {
        Some(id) => hash.optional_string(Some(id.as_str())),
        None => hash.optional_string(None),
    }
}

/// Adds an optional color to an encoding.
pub fn hash_optional_color(hash: &mut CanonicalHasher, color: &Option<ColorInput>)
    ensures
        final(hash)@ == old(hash)@ + enc_opt_text(opt_view(*color)),
        opt_text_fits(opt_view(*color)),
{
    match color {
        Some(color) => hash.optional_string(Some(color.as_str())),
        None => hash.optional_string(None),
    }
}

/// Adds texts one after another to an encoding.
pub fn hash_relations(hash: &mut CanonicalHasher, relations: &Vec<RelationKey>)
    ensures
        final(hash)@ == old(hash)@ + enc_list(text_parts(views(relations@))),
        keys_valid(views(relations@)),
        forall|i: int| 0 <= i < relations.len() ==> text_fits(#[trigger] views(relations@)[i]),
{
    let ghost parts = text_parts(views(relations@));
    let ghost goal = old(hash)@ + enc_list(parts);
    assert(parts.subrange(0, parts.len() as int) =~= parts);
    let mut i: usize = 0;
    while i < relations.len()
        invariant
            i <= relations.len(),
            parts == text_parts(views(relations@)),
            forall|k: int|
                0 <= k < i ==> valid_relation_key(#[trigger] views(relations@)[k]) && text_fits(
                    views(relations@)[k],
                ),
            hash@ + enc_list(parts.subrange(i as int, parts.len() as int)) == goal,
        decreases relations.len() - i,
    {
        let ghost before = hash@;
        hash.string(relations[i].as_str());
        proof {
            enc_list_step(parts, i as int);
            assert(parts[i as int] == enc_text(relations@[i as int]@));
            assert(hash@ + enc_list(parts.subrange(i as int + 1, parts.len() as int)) =~= before
                + enc_list(parts.subrange(i as int, parts.len() as int)));
        }
        i += 1;
    }
    assert(hash@ =~= goal);
}

/// Splits a chain of additions after its first part.
proof fn chain(start: Seq<u8>, first: Seq<u8>, rest: Seq<u8>)
    ensures
        (start + first) + rest == start + (first + rest),
{
    assert((start + first) + rest =~= start + (first + rest));
}

fn hash_text_fields(
    hash: &mut CanonicalHasher,
    text: &String,
    style: WireTextStyle,
    checked: bool,
    color: &Option<ColorInput>,
    icon: &Option<WireIcon>,
    marks: &Vec<WireMark>,
)
    ensures
        final(hash)@ == old(hash)@ + enc_content_fields(
            ContentV::Text {
                text: text@,
                style,
                checked,
                color: opt_view(*color),
                icon: opt_view(*icon),
                marks: views(marks@),
            },
        ),
        content_fits(
            ContentV::Text {
                text: text@,
                style,
                checked,
                color: opt_view(*color),
                icon: opt_view(*icon),
                marks: views(marks@),
            },
        ),
{
    let ghost h = hash@;
    let ghost tail3 = enc_icon(opt_view(*icon)) + (be_bytes(marks.len() as int, 8) + enc_list(
        mark_parts(views(marks@)),
    ));
    let ghost tail2 = enc_opt_text(opt_view(*color)) + tail3;
    let ghost tail1 = enc_bool(checked) + tail2;
    let ghost tail0 = enc_text(text_style_label_text(style)) + tail1;
    hash.string(text.as_str());
    let ghost h0 = hash@;
    hash.string(text_style_label(style));
    let ghost h1 = hash@;
    hash.boolean(checked);
    let ghost h2 = hash@;
    hash_optional_color(hash, color);
    let ghost h3 = hash@;
    hash_icon(hash, icon);
    let ghost h4 = hash@;
    hash_marks(hash, marks);
    proof {
        chain(h3, enc_icon(opt_view(*icon)), be_bytes(marks.len() as int, 8) + enc_list(
            mark_parts(views(marks@)),
        ));
        chain(h2, enc_opt_text(opt_view(*color)), tail3);
        chain(h1, enc_bool(checked), tail2);
        chain(h0, enc_text(text_style_label_text(style)), tail1);
        chain(h, enc_text(text@), tail0);
    }
}

fn hash_link_fields(
    hash: &mut CanonicalHasher,
    target: &EntityId,
    card_style: WireLinkCardStyle,
    icon_size: WireLinkIconSize,
    description: WireLinkDescription,
    relations: &Vec<RelationKey>,
)
    ensures
        final(hash)@ == old(hash)@ + enc_content_fields(
            ContentV::Link {
                target: target@,
                card_style,
                icon_size,
                description,
                relations: views(relations@),
            },
        ),
        content_fits(
            ContentV::Link {
                target: target@,
                card_style,
                icon_size,
                description,
                relations: views(relations@),
            },
        ),
{
    let ghost h = hash@;
    let ghost tail3 = be_bytes(relations.len() as int, 8) + enc_list(
        text_parts(views(relations@)),
    );
    let ghost tail2 = enc_text(link_description_label_text(description)) + tail3;
    let ghost tail1 = enc_text(link_icon_label_text(icon_size)) + tail2;
    let ghost tail0 = enc_text(link_card_label_text(card_style)) + tail1;
    hash.string(target.as_str());
    let ghost h0 = hash@;
    hash.string(link_card_label(card_style));
    let ghost h1 = hash@;
    hash.string(link_icon_label(icon_size));
    let ghost h2 = hash@;
    hash.string(link_description_label(description));
    let ghost h3 = hash@;
    hash.usize(relations.len());
    hash_relations(hash, relations);
    proof {
        chain(h3, be_bytes(relations.len() as int, 8), enc_list(text_parts(views(relations@))));
        chain(h2, enc_text(link_description_label_text(description)), tail3);
        chain(h1, enc_text(link_icon_label_text(icon_size)), tail2);
        chain(h0, enc_text(link_card_label_text(card_style)), tail1);
        chain(h, enc_text(target@), tail0);
    }
}

fn hash_file_fields(
    hash: &mut CanonicalHasher,
    target: &EntityId,
    file_kind: WireFileKind,
    mime: &String,
    size: u64,
    state: WireFileState,
    style: WireFileStyle,
)
    ensures
        final(hash)@ == old(hash)@ + enc_content_fields(
            ContentV::File {
                target: target@,
                file_kind,
                mime: mime@,
                size: size as int,
                state,
                style,
            },
        ),
        content_fits(
            ContentV::File {
                target: target@,
                file_kind,
                mime: mime@,
                size: size as int,
                state,
                style,
            },
        ),
{
    let ghost h = hash@;
    let ghost tail3 = enc_text(file_state_label_text(state)) + enc_text(
        file_style_label_text(style),
    );
    let ghost tail2 = be_bytes(size as int, 8) + tail3;
    let ghost tail1 = enc_text(mime@) + tail2;
    let ghost tail0 = enc_text(file_kind_label_text(file_kind)) + tail1;
    hash.string(target.as_str());
    let ghost h0 = hash@;
    hash.string(file_kind.as_str());
    let ghost h1 = hash@;
    hash.string(mime.as_str());
    let ghost h2 = hash@;
    hash.u64(size);
    let ghost h3 = hash@;
    hash.string(state.as_str());
    hash.string(style.as_str());
    proof {
        chain(h3, enc_text(file_state_label_text(state)), enc_text(file_style_label_text(style)));
        chain(h2, be_bytes(size as int, 8), tail3);
        chain(h1, enc_text(mime@), tail2);
        chain(h0, enc_text(file_kind_label_text(file_kind)), tail1);
        chain(h, enc_text(target@), tail0);
    }
}

fn hash_content_fields(hash: &mut CanonicalHasher, content: &BlockProjection)
    ensures
        final(hash)@ == old(hash)@ + enc_content_fields(content@),
        content_fits(content@),
{
    match content {
        BlockProjection::Text { text, style, checked, color, icon, marks } => {
            hash_text_fields(hash, text, *style, *checked, color, icon, marks);
        },
        BlockProjection::Layout { style } => hash.string(style.as_str()),
        BlockProjection::Divider { style } => hash.string(divider_label(*style)),
        BlockProjection::Bookmark { url, target_object_id, state } => {
            hash.string(url.as_str());
            hash_optional_id(hash, target_object_id);
            hash.string(state.as_str());
            assert(hash@ =~= old(hash)@ + enc_content_fields(content@));
        },
        BlockProjection::Link {
            target_object_id,
            card_style,
            icon_size,
            description,
            relations,
        } => {
            hash_link_fields(
                hash,
                target_object_id,
                *card_style,
                *icon_size,
                *description,
                relations,
            );
        },
        BlockProjection::Relation { key } => hash.string(key.as_str()),
        BlockProjection::FeaturedRelations => {
            assert(hash@ =~= old(hash)@ + Seq::<u8>::empty());
        },
        BlockProjection::Embed { processor, source } => {
            hash.string(embed_label(*processor));
            hash.string(source.as_str());
            assert(hash@ =~= old(hash)@ + enc_content_fields(content@));
        },
        BlockProjection::TableOfContents => {
            assert(hash@ =~= old(hash)@ + Seq::<u8>::empty());
        },
        BlockProjection::Table => {
            assert(hash@ =~= old(hash)@ + Seq::<u8>::empty());
        },
        BlockProjection::TableRow { is_header } => hash.boolean(*is_header),
        BlockProjection::TableColumn => {
            assert(hash@ =~= old(hash)@ + Seq::<u8>::empty());
        },
        BlockProjection::File { target_object_id, file_kind, mime, size, state, style } => {
            hash_file_fields(hash, target_object_id, *file_kind, mime, *size, *state, *style);
        },
        BlockProjection::Unsupported { opaque_kind, child_count, approx_bytes } => {
            hash.string(opaque_kind.as_str());
            hash.u64(*child_count);
            hash.u64(*approx_bytes);
            assert(hash@ =~= old(hash)@ + enc_content_fields(content@));
        },
    }
}

/// Label of a content kind.
pub fn content_kind(content: &BlockProjection) -> (r: &'static str)
    ensures
        r@ == content_label(content@),
{
    match content {
        BlockProjection::Text { .. } => "text",
        BlockProjection::Layout { .. } => "layout",
        BlockProjection::Divider { .. } => "divider",
        BlockProjection::Bookmark { .. } => "bookmark",
        BlockProjection::Link { .. } => "link",
        BlockProjection::Relation { .. } => "relation",
        BlockProjection::FeaturedRelations => "featured_relations",
        BlockProjection::Embed { .. } => "embed",
        BlockProjection::TableOfContents => "table_of_contents",
        BlockProjection::Table => "table",
        BlockProjection::TableRow { .. } => "table_row",
        BlockProjection::TableColumn => "table_column",
        BlockProjection::File { .. } => "file",
        BlockProjection::Unsupported { .. } => "unsupported",
    }
}

/// Adds content to an encoding: its label, then its fields.
pub fn hash_content(hash: &mut CanonicalHasher, content: &BlockProjection)
    ensures
        final(hash)@ == old(hash)@ + enc_content(content@),
        content_fits(content@),
{
    hash.string(content_kind(content));
    hash_content_fields(hash, content);
    assert(hash@ =~= old(hash)@ + enc_content(content@));
}

fn hash_restrictions(hash: &mut CanonicalHasher, restrictions: RestrictionsProjection)
    ensures
        final(hash)@ == old(hash)@ + enc_restrictions(restrictions),
{
    hash.boolean(restrictions.read);
    hash.boolean(restrictions.edit);
    hash.boolean(restrictions.remove);
    hash.boolean(restrictions.drag);
    hash.boolean(restrictions.drop_on);
    assert(hash@ =~= old(hash)@ + enc_restrictions(restrictions));
}

fn hash_place(hash: &mut CanonicalHasher, block: &BlockSummary)
    ensures
        final(hash)@ == old(hash)@ + enc_place(block@),
        text_fits(block@.id),
        opt_text_fits(block@.parent_id),
{
    let ghost h = hash@;
    let ghost tail1 = be_bytes(block.depth as int, 8) + be_bytes(block.child_count as int, 8);
    let ghost tail0 = be_bytes(block.sibling_index as int, 8) + tail1;
    hash.string(block.id.as_str());
    let ghost h0 = hash@;
    hash_optional_id(hash, &block.parent_id);
    let ghost h1 = hash@;
    hash.u64(block.sibling_index);
    let ghost h2 = hash@;
    hash.u64(block.depth);
    hash.u64(block.child_count);
    proof {
        chain(h2, be_bytes(block.depth as int, 8), be_bytes(block.child_count as int, 8));
        chain(h1, be_bytes(block.sibling_index as int, 8), tail1);
        chain(h0, enc_opt_text(opt_view(block.parent_id)), tail0);
        chain(h, enc_text(block.id@), enc_opt_text(opt_view(block.parent_id)) + tail0);
    }
}

fn hash_look(hash: &mut CanonicalHasher, block: &BlockSummary)
    ensures
        final(hash)@ == old(hash)@ + enc_look(block@),
        opt_text_fits(block@.background_color),
{
    hash.string(horizontal_label(block.align));
    hash.string(vertical_label(block.vertical_align));
    hash_optional_color(hash, &block.background_color);
    assert(hash@ =~= old(hash)@ + enc_look(block@));
}

/// Adds one projected block to an encoding.
pub fn hash_summary(hash: &mut CanonicalHasher, block: &BlockSummary)
    ensures
        final(hash)@ == old(hash)@ + enc_summary(block@),
        summary_fits(block@),
{
    hash_place(hash, block);
    hash_restrictions(hash, block.restrictions);
    hash_look(hash, block);
    hash_content(hash, &block.content);
    assert(hash@ =~= old(hash)@ + enc_summary(block@));
}

/// Hash that names a body of projected blocks. Every length and number of such a
/// body fits its field in the encoding.
pub fn hash_projection(
    space_id: &EntityId,
    object_id: &EntityId,
    root_id: &EntityId,
    blocks: &Vec<BlockSummary>,
) -> (r: SnapshotHash)
    ensures
        r@ == body_hash(space_id@, object_id@, root_id@, views(blocks@)),
        text_fits(space_id@) && text_fits(object_id@) && text_fits(root_id@),
        body_fits(views(blocks@)),
{
    let ghost parts = summary_parts(views(blocks@));
    let ghost goal = snapshot_domain() + enc_body(space_id@, object_id@, root_id@, views(blocks@));
    let mut hash = CanonicalHasher::new();
    hash.string(space_id.as_str());
    hash.string(object_id.as_str());
    hash.string(root_id.as_str());
    hash.usize(blocks.len());
    assert(parts.subrange(0, parts.len() as int) =~= parts);
    assert(hash@ + enc_list(parts) =~= goal);
    let mut i: usize = 0;
    while i < blocks.len()
        invariant
            i <= blocks.len(),
            parts == summary_parts(views(blocks@)),
            forall|k: int| 0 <= k < i ==> summary_fits(#[trigger] views(blocks@)[k]),
            hash@ + enc_list(parts.subrange(i as int, parts.len() as int)) == goal,
        decreases blocks.len() - i,
    {
        let ghost before = hash@;
        hash_summary(&mut hash, &blocks[i]);
        proof {
            enc_list_step(parts, i as int);
            assert(parts[i as int] == enc_summary(blocks@[i as int]@));
            assert(hash@ + enc_list(parts.subrange(i as int + 1, parts.len() as int)) =~= before
                + enc_list(parts.subrange(i as int, parts.len() as int)));
        }
        i += 1;
    }
    assert(hash@ =~= goal);
    hash.finish()
}

} // verus!
