//! Bounded identifiers and tokens. Every value of these types was accepted by
//! its constructor, and each constructor accepts exactly one stated language.

use crate::text::{byte_len, text_bytes, within_chars, Same};
use vstd::prelude::*;

verus! {

/// Largest entity identifier in bytes.
pub const MAX_ENTITY_ID_BYTES: usize = 256;

/// Longest idempotency key in characters.
pub const MAX_IDEMPOTENCY_KEY_CHARS: usize = 256;

/// Exact length of a snapshot hash in lower-case hexadecimal digits.
pub const MAX_SNAPSHOT_HASH_BYTES: usize = 64;

/// Largest plan-local key in bytes.
pub const MAX_LOCAL_KEY_BYTES: usize = 64;

/// Largest relation key in bytes.
pub const MAX_RELATION_KEY_BYTES: usize = 256;

/// Largest opaque block kind in bytes.
pub const MAX_OPAQUE_KIND_BYTES: usize = 64;

/// Largest color token in bytes.
pub const MAX_COLOR_BYTES: usize = 32;

/// A set of ASCII characters that a bounded token is made of.
#[derive(Clone, Copy, Debug, PartialEq, Eq, Structural)]
pub enum CharClass {
    /// `0-9a-f`
    LowerHex,
    /// Visible characters without upper-case letters: `!-@[-~`
    VisibleLower,
    /// `a-z`
    Lower,
    /// `a-z0-9_`
    LowerWord,
    /// `a-z0-9_-`
    LowerWordHyphen,
    /// `A-Za-z`
    Letter,
    /// `A-Za-z0-9_-`
    WordHyphen,
}

/// A character of a range.
pub open spec fn between(c: char, low: char, high: char) -> bool {
    (low as u32) <= (c as u32) <= (high as u32)
}

/// Membership in a character class.
pub open spec fn in_class(class: CharClass, c: char) -> bool {
    match class {
        CharClass::LowerHex => between(c, '0', '9') || between(c, 'a', 'f'),
        CharClass::VisibleLower => between(c, '!', '@') || between(c, '[', '~'),
        CharClass::Lower => between(c, 'a', 'z'),
        CharClass::LowerWord => between(c, 'a', 'z') || between(c, '0', '9') || c == '_',
        CharClass::LowerWordHyphen => between(c, 'a', 'z') || between(c, '0', '9') || c == '_' || c
            == '-',
        CharClass::Letter => between(c, 'a', 'z') || between(c, 'A', 'Z'),
        CharClass::WordHyphen => between(c, 'a', 'z') || between(c, 'A', 'Z') || between(
            c,
            '0',
            '9',
        ) || c == '_' || c == '-',
    }
}

/// The language of a bounded token: one character of `first`, then characters
/// of `rest`, with a total length from `min` to `max`.
pub open spec fn matches_pattern(
    text: Seq<char>,
    first: CharClass,
    rest: CharClass,
    min: int,
    max: int,
) -> bool {
    &&& min <= text.len() <= max
    &&& forall|i: int|
        0 <= i < text.len() ==> in_class(
            if i == 0 {
                first
            } else {
                rest
            },
            #[trigger] text[i],
        )
}

fn char_between(c: char, low: char, high: char) -> (r: bool)
    ensures
        r == between(c, low, high),
{
    low as u32 <= c as u32 && c as u32 <= high as u32
}

/// Tests membership in a character class.
pub fn class_contains(class: CharClass, c: char) -> (r: bool)
    ensures
        r == in_class(class, c),
{
    match class {
        CharClass::LowerHex => char_between(c, '0', '9') || char_between(c, 'a', 'f'),
        CharClass::VisibleLower => char_between(c, '!', '@') || char_between(c, '[', '~'),
        CharClass::Lower => char_between(c, 'a', 'z'),
        CharClass::LowerWord => char_between(c, 'a', 'z') || char_between(c, '0', '9') || c == '_',
        CharClass::LowerWordHyphen => char_between(c, 'a', 'z') || char_between(c, '0', '9') || c
            == '_' || c == '-',
        CharClass::Letter => char_between(c, 'a', 'z') || char_between(c, 'A', 'Z'),
        CharClass::WordHyphen => char_between(c, 'a', 'z') || char_between(c, 'A', 'Z')
            || char_between(c, '0', '9') || c == '_' || c == '-',
    }
}

/// Tests a text against the language of a bounded token.
pub fn accepts_pattern(
    text: &str,
    first: CharClass,
    rest: CharClass,
    min: usize,
    max: usize,
) -> (r: bool)
    requires
        max < usize::MAX,
    ensures
        r == matches_pattern(text@, first, rest, min as int, max as int),
{
    let mut count: usize = 0;
    for c in it: text.chars()
        invariant
            it.seq() == text@,
            max < usize::MAX,
            count == it.index(),
            count <= max,
            forall|i: int|
                0 <= i < it.index() ==> in_class(
                    if i == 0 {
                        first
                    } else {
                        rest
                    },
                    #[trigger] text@[i],
                ),
    {
        if count == max {
            return false;
        }
        let class: CharClass = if count == 0 {
            first
        } else {
            rest
        };
        if !class_contains(class, c) {
            assert(!in_class(class, text@[it.index()]));
            return false;
        }
        count += 1;
    }
    min <= count
}

/// Failure of a body value constructor.
#[derive(Clone, Copy, Debug, PartialEq, Eq, Structural)]
pub struct BodyInputError;

impl BodyInputError {
    /// Fixed message of the failure.
    pub fn message(&self) -> (r: &'static str)
        ensures
            r@ == "invalid bounded body value"@,
    {
        "invalid bounded body value"
    }
}

/// Failure of an identifier constructor.
#[derive(Clone, Copy, Debug, PartialEq, Eq, Structural)]
pub struct DomainValueError;

/// Language of entity identifiers.
pub open spec fn valid_entity_id(text: Seq<char>) -> bool {
    1 <= byte_len(text) <= MAX_ENTITY_ID_BYTES
}

/// Stable identifier of a space, an object, a chat, a message or a block.
#[derive(Debug, PartialEq, Eq, Hash)]
pub struct EntityId {
    value: String,
}

impl View for EntityId {
    type V = Seq<char>;

    closed spec fn view(&self) -> Seq<char> {
        self.value@
    }
}

impl EntityId {
    #[verifier::type_invariant]
    spec fn inv(self) -> bool {
        valid_entity_id(self.value@)
    }

    /// Accepts a nonempty text of at most [`MAX_ENTITY_ID_BYTES`] bytes.
    pub fn new(value: &str) -> (r: Result<EntityId, DomainValueError>)
        ensures
            r is Ok <==> valid_entity_id(value@),
            r matches Ok(id) ==> id@ == value@,
    {
        let bytes: usize = text_bytes(value);
        if 1 <= bytes && bytes <= MAX_ENTITY_ID_BYTES {
            Ok(EntityId { value: value.to_owned() })
        } else {
            Err(DomainValueError)
        }
    }

    /// Takes a text that is known to be an identifier.
    pub(crate) fn from_text(value: String) -> (r: EntityId)
        requires
            valid_entity_id(value@),
        ensures
            r@ == value@,
    {
        EntityId { value }
    }

    /// Borrows the identifier text.
    pub fn as_str(&self) -> (r: &str)
        ensures
            r@ == self@,
            valid_entity_id(self@),
    {
        proof {
            use_type_invariant(self);
        }
        self.value.as_str()
    }
}

impl Clone for EntityId {
    fn clone(&self) -> (r: Self)
        ensures
            r@ == self@,
    {
        proof {
            use_type_invariant(self);
        }
        EntityId { value: self.value.clone() }
    }
}

impl Same for EntityId {
    fn same(&self, other: &Self) -> (r: bool) {
        self.value == other.value
    }

    fn duplicate(&self) -> (r: Self) {
        self.clone()
    }
}

/// Language of idempotency keys.
pub open spec fn valid_idempotency_key(text: Seq<char>) -> bool {
    1 <= text.len() <= MAX_IDEMPOTENCY_KEY_CHARS
}

/// Caller-chosen key that names one logical creation.
#[derive(Debug, PartialEq, Eq, Hash)]
pub struct IdempotencyKey {
    value: String,
}

impl View for IdempotencyKey {
    type V = Seq<char>;

    closed spec fn view(&self) -> Seq<char> {
        self.value@
    }
}

impl IdempotencyKey {
    #[verifier::type_invariant]
    spec fn inv(self) -> bool {
        valid_idempotency_key(self.value@)
    }

    /// Accepts a nonempty text of at most [`MAX_IDEMPOTENCY_KEY_CHARS`] characters.
    pub fn new(value: &str) -> (r: Result<IdempotencyKey, DomainValueError>)
        ensures
            r is Ok <==> valid_idempotency_key(value@),
            r matches Ok(key) ==> key@ == value@,
    {
        if within_chars(value, MAX_IDEMPOTENCY_KEY_CHARS) {
            Ok(IdempotencyKey { value: value.to_owned() })
        } else {
            Err(DomainValueError)
        }
    }

    /// Borrows the key text.
    pub fn as_str(&self) -> (r: &str)
        ensures
            r@ == self@,
            valid_idempotency_key(self@),
    {
        proof {
            use_type_invariant(self);
        }
        self.value.as_str()
    }
}

impl Clone for IdempotencyKey {
    fn clone(&self) -> (r: Self)
        ensures
            r@ == self@,
    {
        proof {
            use_type_invariant(self);
        }
        IdempotencyKey { value: self.value.clone() }
    }
}

impl Same for IdempotencyKey {
    fn same(&self, other: &Self) -> (r: bool) {
        self.value == other.value
    }

    fn duplicate(&self) -> (r: Self) {
        self.clone()
    }
}

/// Language of snapshot hashes: `[0-9a-f]{64}`.
pub open spec fn valid_snapshot_hash(text: Seq<char>) -> bool {
    matches_pattern(text, CharClass::LowerHex, CharClass::LowerHex, MAX_SNAPSHOT_HASH_BYTES as int, MAX_SNAPSHOT_HASH_BYTES as int)
}

/// Hash that names one exact body snapshot.
#[derive(Debug, PartialEq, Eq, Hash)]
pub struct SnapshotHash {
    value: String,
}

impl View for SnapshotHash {
    type V = Seq<char>;

    closed spec fn view(&self) -> Seq<char> {
        self.value@
    }
}

impl SnapshotHash {
    #[verifier::type_invariant]
    spec fn inv(self) -> bool {
        valid_snapshot_hash(self.value@)
    }

    /// Accepts exactly 64 lower-case hexadecimal digits.
    pub fn new(value: String) -> (r: Result<SnapshotHash, BodyInputError>)
        ensures
            r is Ok <==> valid_snapshot_hash(value@),
            r matches Ok(token) ==> token@ == value@,
    {
        if accepts_pattern(
            value.as_str(),
            CharClass::LowerHex,
            CharClass::LowerHex,
            MAX_SNAPSHOT_HASH_BYTES,
            MAX_SNAPSHOT_HASH_BYTES,
        ) {
            Ok(SnapshotHash { value })
        } else {
            Err(BodyInputError)
        }
    }

    /// Takes a text that is known to be 64 lower-case hexadecimal digits.
    pub(crate) fn from_digits(value: String) -> (r: SnapshotHash)
        requires
            valid_snapshot_hash(value@),
        ensures
            r@ == value@,
    {
        SnapshotHash { value }
    }

    /// Borrows the accepted text.
    pub fn as_str(&self) -> (r: &str)
        ensures
            r@ == self@,
            valid_snapshot_hash(self@),
    {
        proof {
            use_type_invariant(self);
        }
        self.value.as_str()
    }
}

impl Clone for SnapshotHash {
    fn clone(&self) -> (r: Self)
        ensures
            r@ == self@,
    {
        proof {
            use_type_invariant(self);
        }
        SnapshotHash { value: self.value.clone() }
    }
}

impl Same for SnapshotHash {
    fn same(&self, other: &Self) -> (r: bool) {
        self.value == other.value
    }

    fn duplicate(&self) -> (r: Self) {
        self.clone()
    }
}

/// Language of color tokens: `[!-@[-~]{1,32}`.
pub open spec fn valid_color(text: Seq<char>) -> bool {
    matches_pattern(text, CharClass::VisibleLower, CharClass::VisibleLower, 1, MAX_COLOR_BYTES as int)
}

/// Color token of text, marks and backgrounds.
#[derive(Debug, PartialEq, Eq, Hash)]
pub struct ColorInput {
    value: String,
}

impl View for ColorInput {
    type V = Seq<char>;

    closed spec fn view(&self) -> Seq<char> {
        self.value@
    }
}

impl ColorInput {
    #[verifier::type_invariant]
    spec fn inv(self) -> bool {
        valid_color(self.value@)
    }

    /// Accepts 1 to 32 visible ASCII characters that are not upper-case letters.
    pub fn new(value: String) -> (r: Result<ColorInput, BodyInputError>)
        ensures
            r is Ok <==> valid_color(value@),
            r matches Ok(token) ==> token@ == value@,
    {
        if accepts_pattern(
            value.as_str(),
            CharClass::VisibleLower,
            CharClass::VisibleLower,
            1,
            MAX_COLOR_BYTES,
        ) {
            Ok(ColorInput { value })
        } else {
            Err(BodyInputError)
        }
    }

    /// Borrows the accepted text.
    pub fn as_str(&self) -> (r: &str)
        ensures
            r@ == self@,
            valid_color(self@),
    {
        proof {
            use_type_invariant(self);
        }
        self.value.as_str()
    }
}

impl Clone for ColorInput {
    fn clone(&self) -> (r: Self)
        ensures
            r@ == self@,
    {
        proof {
            use_type_invariant(self);
        }
        ColorInput { value: self.value.clone() }
    }
}

impl Same for ColorInput {
    fn same(&self, other: &Self) -> (r: bool) {
        self.value == other.value
    }

    fn duplicate(&self) -> (r: Self) {
        self.clone()
    }
}

/// Language of opaque block kinds: `[a-z][a-z0-9_]{0,63}`.
pub open spec fn opaque_kind_language(text: Seq<char>) -> bool {
    matches_pattern(text, CharClass::Lower, CharClass::LowerWord, 1, MAX_OPAQUE_KIND_BYTES as int)
}

/// Kind label of a block that is passed through without interpretation.
#[derive(Debug, PartialEq, Eq, Hash)]
pub struct OpaqueKind {
    value: String,
}

impl View for OpaqueKind {
    type V = Seq<char>;

    closed spec fn view(&self) -> Seq<char> {
        self.value@
    }
}

impl OpaqueKind {
    #[verifier::type_invariant]
    spec fn inv(self) -> bool {
        opaque_kind_language(self.value@)
    }

    /// Accepts a lower-case word of at most 64 characters.
    pub fn new(value: String) -> (r: Result<OpaqueKind, BodyInputError>)
        ensures
            r is Ok <==> opaque_kind_language(value@),
            r matches Ok(token) ==> token@ == value@,
    {
        if accepts_pattern(
            value.as_str(),
            CharClass::Lower,
            CharClass::LowerWord,
            1,
            MAX_OPAQUE_KIND_BYTES,
        ) {
            Ok(OpaqueKind { value })
        } else {
            Err(BodyInputError)
        }
    }

    /// Borrows the accepted text.
    pub fn as_str(&self) -> (r: &str)
        ensures
            r@ == self@,
            opaque_kind_language(self@),
    {
        proof {
            use_type_invariant(self);
        }
        self.value.as_str()
    }
}

impl Clone for OpaqueKind {
    fn clone(&self) -> (r: Self)
        ensures
            r@ == self@,
    {
        proof {
            use_type_invariant(self);
        }
        OpaqueKind { value: self.value.clone() }
    }
}

impl Same for OpaqueKind {
    fn same(&self, other: &Self) -> (r: bool) {
        self.value == other.value
    }

    fn duplicate(&self) -> (r: Self) {
        self.clone()
    }
}

/// Language of relation keys: `[a-z][a-z0-9_-]{0,255}`.
pub open spec fn valid_relation_key(text: Seq<char>) -> bool {
    matches_pattern(text, CharClass::Lower, CharClass::LowerWordHyphen, 1, MAX_RELATION_KEY_BYTES as int)
}

/// Key of a relation.
#[derive(Debug, PartialEq, Eq, Hash)]
pub struct RelationKey {
    value: String,
}

impl View for RelationKey {
    type V = Seq<char>;

    closed spec fn view(&self) -> Seq<char> {
        self.value@
    }
}

impl RelationKey {
    #[verifier::type_invariant]
    spec fn inv(self) -> bool {
        valid_relation_key(self.value@)
    }

    /// Accepts a lower-case word, hyphens included, of at most 256 characters.
    pub fn new(value: String) -> (r: Result<RelationKey, BodyInputError>)
        ensures
            r is Ok <==> valid_relation_key(value@),
            r matches Ok(token) ==> token@ == value@,
    {
        if accepts_pattern(
            value.as_str(),
            CharClass::Lower,
            CharClass::LowerWordHyphen,
            1,
            MAX_RELATION_KEY_BYTES,
        ) {
            Ok(RelationKey { value })
        } else {
            Err(BodyInputError)
        }
    }

    /// Borrows the accepted text.
    pub fn as_str(&self) -> (r: &str)
        ensures
            r@ == self@,
            valid_relation_key(self@),
    {
        proof {
            use_type_invariant(self);
        }
        self.value.as_str()
    }
}

impl Clone for RelationKey {
    fn clone(&self) -> (r: Self)
        ensures
            r@ == self@,
    {
        proof {
            use_type_invariant(self);
        }
        RelationKey { value: self.value.clone() }
    }
}

impl Same for RelationKey {
    fn same(&self, other: &Self) -> (r: bool) {
        self.value == other.value
    }

    fn duplicate(&self) -> (r: Self) {
        self.clone()
    }
}

/// Language of plan-local keys: `[A-Za-z][A-Za-z0-9_-]{0,63}`.
pub open spec fn valid_local_key(text: Seq<char>) -> bool {
    matches_pattern(text, CharClass::Letter, CharClass::WordHyphen, 1, MAX_LOCAL_KEY_BYTES as int)
}

/// Name of one entry inside a rich plan.
#[derive(Debug, PartialEq, Eq, Hash)]
pub struct LocalKey {
    value: String,
}

impl View for LocalKey {
    type V = Seq<char>;

    closed spec fn view(&self) -> Seq<char> {
        self.value@
    }
}

impl LocalKey {
    #[verifier::type_invariant]
    spec fn inv(self) -> bool {
        valid_local_key(self.value@)
    }

    /// Accepts a letter and up to 63 letters, digits, underscores and hyphens.
    pub fn new(value: String) -> (r: Result<LocalKey, BodyInputError>)
        ensures
            r is Ok <==> valid_local_key(value@),
            r matches Ok(token) ==> token@ == value@,
    {
        if accepts_pattern(
            value.as_str(),
            CharClass::Letter,
            CharClass::WordHyphen,
            1,
            MAX_LOCAL_KEY_BYTES,
        ) {
            Ok(LocalKey { value })
        } else {
            Err(BodyInputError)
        }
    }

    /// Borrows the accepted text.
    pub fn as_str(&self) -> (r: &str)
        ensures
            r@ == self@,
            valid_local_key(self@),
    {
        proof {
            use_type_invariant(self);
        }
        self.value.as_str()
    }
}

impl Clone for LocalKey {
    fn clone(&self) -> (r: Self)
        ensures
            r@ == self@,
    {
        proof {
            use_type_invariant(self);
        }
        LocalKey { value: self.value.clone() }
    }
}

impl Same for LocalKey {
    fn same(&self, other: &Self) -> (r: bool) {
        self.value == other.value
    }

    fn duplicate(&self) -> (r: Self) {
        self.clone()
    }
}

} // verus!
