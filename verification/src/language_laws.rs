//! Which texts name something: identifiers, keys, colors, kinds and hashes.

use crate::compose::youtube_id;
use crate::domain::{
    opaque_kind_language, valid_color, valid_entity_id, valid_idempotency_key, valid_local_key,
    valid_relation_key, valid_snapshot_hash, MAX_COLOR_BYTES, MAX_ENTITY_ID_BYTES,
    MAX_IDEMPOTENCY_KEY_CHARS, MAX_LOCAL_KEY_BYTES, MAX_OPAQUE_KIND_BYTES, MAX_RELATION_KEY_BYTES,
};
use crate::text::{byte_len, is_control};
use vstd::prelude::*;

verus! {

/// A small letter.
pub open spec fn small_letter(c: char) -> bool {
    0x61 <= c as u32 <= 0x7a
}

/// A capital letter.
pub open spec fn capital_letter(c: char) -> bool {
    0x41 <= c as u32 <= 0x5a
}

/// A decimal digit.
pub open spec fn digit(c: char) -> bool {
    0x30 <= c as u32 <= 0x39
}

/// A hash is sixty-four hexadecimal digits in small letters.
pub proof fn hashes_are_hexadecimal(text: Seq<char>)
    ensures
        valid_snapshot_hash(text) <==> text.len() == 64 && forall|i: int|
            0 <= i < text.len() ==> digit(#[trigger] text[i]) || 0x61 <= text[i] as u32 <= 0x66,
{
}

/// A color is printable, without blanks and capital letters.
pub proof fn colors_are_printable(text: Seq<char>)
    ensures
        valid_color(text) <==> 1 <= text.len() <= MAX_COLOR_BYTES && forall|i: int|
            0 <= i < text.len() ==> 0x21 <= #[trigger] text[i] as u32 && text[i] as u32 <= 0x7e
                && !capital_letter(text[i]),
{
}

/// A relation key starts with a small letter; small letters, digits, underscores and
/// hyphens follow. The kind of an opaque block is the same without hyphens.
pub proof fn keys_start_with_a_small_letter(text: Seq<char>)
    ensures
        valid_relation_key(text) <==> 1 <= text.len() <= MAX_RELATION_KEY_BYTES && small_letter(
            text[0],
        ) && forall|i: int|
            0 < i < text.len() ==> small_letter(#[trigger] text[i]) || digit(text[i]) || text[i]
                == '_' || text[i] == '-',
        opaque_kind_language(text) <==> 1 <= text.len() <= MAX_OPAQUE_KIND_BYTES && small_letter(
            text[0],
        ) && forall|i: int|
            0 < i < text.len() ==> small_letter(#[trigger] text[i]) || digit(text[i]) || text[i]
                == '_',
{
}

/// A local key starts with a letter; letters, digits, underscores and hyphens
/// follow.
pub proof fn local_keys_start_with_a_letter(text: Seq<char>)
    ensures
        valid_local_key(text) <==> 1 <= text.len() <= MAX_LOCAL_KEY_BYTES && (small_letter(text[0])
            || capital_letter(text[0])) && forall|i: int|
            0 < i < text.len() ==> small_letter(#[trigger] text[i]) || capital_letter(text[i])
                || digit(text[i]) || text[i] == '_' || text[i] == '-',
{
}

/// An identifier is measured in bytes and an idempotency key in characters; neither
/// is empty.
pub proof fn identifiers_are_bounded(text: Seq<char>)
    ensures
        valid_entity_id(text) <==> 0 < byte_len(text) <= MAX_ENTITY_ID_BYTES,
        valid_idempotency_key(text) <==> 0 < text.len() <= MAX_IDEMPOTENCY_KEY_CHARS,
{
}

/// The control characters are those before the blank, the delete character and the
/// block that follows it.
pub proof fn control_characters(c: char)
    ensures
        is_control(c) <==> c as u32 <= 0x1f || c as u32 == 0x7f || 0x80 <= c as u32 <= 0x9f,
{
}

/// The identifier of a video is eleven letters, digits, underscores and hyphens.
pub proof fn video_identifiers(text: Seq<char>)
    ensures
        youtube_id(text) <==> text.len() == 11 && forall|i: int|
            0 <= i < text.len() ==> small_letter(#[trigger] text[i]) || capital_letter(text[i])
                || digit(text[i]) || text[i] == '_' || text[i] == '-',
{
}

} // verus!
