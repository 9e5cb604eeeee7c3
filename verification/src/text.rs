//! Text facts shared by every bounded value: character classes, byte lengths
//! and equality over views.

use vstd::prelude::*;
use vstd::utf8::*;

verus! {

/// Equality and duplication of a value through its mathematical view.
pub trait Same: View + Sized {
    /// Whether both values have the same view.
    fn same(&self, other: &Self) -> (r: bool)
        ensures
            r == (self@ == other@),
    ;

    /// A second value with the same view.
    fn duplicate(&self) -> (r: Self)
        ensures
            r@ == self@,
    ;
}

impl Same for String {
    fn same(&self, other: &Self) -> (r: bool) {
        *self == *other
    }

    fn duplicate(&self) -> (r: Self) {
        self.clone()
    }
}

/// View of an optional value.
pub open spec fn opt_view<T: View>(value: Option<T>) -> Option<T::V> {
    match value {
        Some(inner) => Some(inner@),
        None => None,
    }
}

/// Views of a sequence of values, in order.
pub open spec fn views<T: View>(values: Seq<T>) -> Seq<T::V> {
    Seq::new(values.len(), |i: int| values[i]@)
}

/// Compares two optional values by view.
pub fn same_opt<T: Same>(left: &Option<T>, right: &Option<T>) -> (r: bool)
    ensures
        r == (opt_view(*left) == opt_view(*right)),
{
    match (left, right) {
        (Some(a), Some(b)) => a.same(b),
        (None, None) => true,
        _ => false,
    }
}

/// Copies an optional value.
pub fn duplicate_opt<T: Same>(value: &Option<T>) -> (r: Option<T>)
    ensures
        opt_view(r) == opt_view(*value),
{
    match value {
        Some(inner) => Some(inner.duplicate()),
        None => None,
    }
}

/// Compares two lists by the views of their elements.
pub fn same_vec<T: Same>(left: &Vec<T>, right: &Vec<T>) -> (r: bool)
    ensures
        r == (views(left@) == views(right@)),
{
    if left.len() != right.len() {
        assert(views(left@).len() != views(right@).len());
        return false;
    }
    let mut i: usize = 0;
    while i < left.len()
        invariant
            i <= left.len(),
            left.len() == right.len(),
            forall|k: int| 0 <= k < i ==> (#[trigger] left@[k])@ == right@[k]@,
        decreases left.len() - i,
    {
        if !left[i].same(&right[i]) {
            assert(views(left@)[i as int] != views(right@)[i as int]);
            return false;
        }
        i += 1;
    }
    assert(views(left@) =~= views(right@));
    true
}

/// Copies a list.
pub fn duplicate_vec<T: Same>(values: &Vec<T>) -> (r: Vec<T>)
    ensures
        views(r@) == views(values@),
{
    let mut out: Vec<T> = Vec::new();
    let mut i: usize = 0;
    while i < values.len()
        invariant
            i <= values.len(),
            out.len() == i,
            forall|k: int| 0 <= k < i ==> (#[trigger] out@[k])@ == values@[k]@,
        decreases values.len() - i,
    {
        out.push(values[i].duplicate());
        i += 1;
    }
    assert(views(out@) =~= views(values@));
    out
}

/// Whether some element of the list has the given view.
pub fn contains_same<T: Same>(values: &Vec<T>, wanted: &T) -> (r: bool)
    ensures
        r == views(values@).contains(wanted@),
{
    let mut i: usize = 0;
    while i < values.len()
        invariant
            i <= values.len(),
            forall|k: int| 0 <= k < i ==> (#[trigger] values@[k])@ != wanted@,
        decreases values.len() - i,
    {
        if values[i].same(wanted) {
            assert(views(values@)[i as int] == wanted@);
            return true;
        }
        i += 1;
    }
    assert forall|k: int| 0 <= k < views(values@).len() implies views(values@)[k] != wanted@ by {
        assert(values@[k]@ != wanted@);
    }
    false
}

/// Whether no view occurs twice in the list.
pub fn all_distinct<T: Same>(values: &Vec<T>) -> (r: bool)
    ensures
        r == views(values@).no_duplicates(),
{
    let mut i: usize = 0;
    while i < values.len()
        invariant
            i <= values.len(),
            forall|a: int, b: int|
                0 <= a < b < i ==> (#[trigger] values@[a])@ != (#[trigger] values@[b])@,
        decreases values.len() - i,
    {
        let mut j: usize = 0;
        while j < i
            invariant
                j <= i < values.len(),
                forall|a: int| 0 <= a < j ==> (#[trigger] values@[a])@ != values@[i as int]@,
            decreases i - j,
        {
            if values[j].same(&values[i]) {
                assert(views(values@)[j as int] == views(values@)[i as int]);
                return false;
            }
            j += 1;
        }
        i += 1;
    }
    assert forall|a: int, b: int|
        0 <= a < views(values@).len() && 0 <= b < views(values@).len() && a
            != b implies views(values@)[a] != views(values@)[b] by {
        if a < b {
            assert(values@[a]@ != values@[b]@);
        } else {
            assert(values@[b]@ != values@[a]@);
        }
    }
    true
}

/// Number of bytes of a text in UTF-8.
pub open spec fn byte_len(text: Seq<char>) -> nat {
    encode_utf8(text).len()
}

/// Byte length of a text.
pub fn text_bytes(text: &str) -> (r: usize)
    ensures
        r == byte_len(text@),
{
    text.as_bytes().len()
}

/// Tests that a text has at least one and at most `max` characters.
pub fn within_chars(text: &str, max: usize) -> (r: bool)
    requires
        max < usize::MAX,
    ensures
        r == (1 <= text@.len() <= max),
{
    let mut count: usize = 0;
    for c in it: text.chars()
        invariant
            it.seq() == text@,
            max < usize::MAX,
            count == it.index(),
            count <= max,
    {
        if count == max {
            return false;
        }
        count += 1;
    }
    count >= 1
}

/// Compares two borrowed texts.
pub fn same_text(left: &str, right: &str) -> (r: bool)
    ensures
        r == (left@ == right@),
{
    left.to_owned() == right.to_owned()
}

/// A control character: general category `Cc`.
pub open spec fn is_control(c: char) -> bool {
    (c as u32) < 0x20 || 0x7f <= (c as u32) <= 0x9f
}

/// Whether a text holds a control character.
pub open spec fn has_control(text: Seq<char>) -> bool {
    exists|i: int| 0 <= i < text.len() && is_control(#[trigger] text[i])
}

/// Tests for a control character anywhere in a text.
pub fn contains_control(text: &str) -> (r: bool)
    ensures
        r == has_control(text@),
{
    for c in it: text.chars()
        invariant
            it.seq() == text@,
            forall|k: int| 0 <= k < it.index() ==> !is_control(#[trigger] text@[k]),
    {
        let code: u32 = c as u32;
        if code < 0x20 || (0x7f <= code && code <= 0x9f) {
            assert(is_control(text@[it.index()]));
            return true;
        }
    }
    false
}

/// A character with the Unicode `White_Space` property.
pub open spec fn is_white_space(c: char) -> bool {
    let code = c as u32;
    ||| 0x09 <= code <= 0x0d
    ||| code == 0x20
    ||| code == 0x85
    ||| code == 0xa0
    ||| code == 0x1680
    ||| 0x2000 <= code <= 0x200a
    ||| code == 0x2028
    ||| code == 0x2029
    ||| code == 0x202f
    ||| code == 0x205f
    ||| code == 0x3000
}

/// Whether a text holds nothing but white space (an empty text does).
pub open spec fn is_blank(text: Seq<char>) -> bool {
    forall|i: int| 0 <= i < text.len() ==> is_white_space(#[trigger] text[i])
}

/// Tests whether a text holds nothing but white space.
pub fn blank(text: &str) -> (r: bool)
    ensures
        r == is_blank(text@),
{
    for c in it: text.chars()
        invariant
            it.seq() == text@,
            forall|k: int| 0 <= k < it.index() ==> is_white_space(#[trigger] text@[k]),
    {
        let code: u32 = c as u32;
        let space: bool = (0x09 <= code && code <= 0x0d) || code == 0x20 || code == 0x85 || code
            == 0xa0 || code == 0x1680 || (0x2000 <= code && code <= 0x200a) || code == 0x2028
            || code == 0x2029 || code == 0x202f || code == 0x205f || code == 0x3000;
        if !space {
            assert(!is_white_space(text@[it.index()]));
            return false;
        }
    }
    true
}

} // verus!
