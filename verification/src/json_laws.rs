//! How a value is written as JSON: the order of texts, and the form of each value.

use crate::json::{
    members_are_written_in_key_order, joined_members, joined_values, json_text, ordered_members,
    text_before, Json, MemberV,
};
use crate::outside::json_string;
use vstd::prelude::*;

verus! {

/// Both texts start with the same `n` characters.
pub open spec fn agree_up_to(a: Seq<char>, b: Seq<char>, n: int) -> bool {
    forall|k: int| 0 <= k < n ==> (#[trigger] a[k]) == b[k]
}

/// A text comes before another exactly where it ends first, or has the smaller
/// character, at the first place where they differ.
pub proof fn texts_are_ordered_by_their_first_difference(a: Seq<char>, b: Seq<char>, n: int)
    requires
        0 <= n <= a.len(),
        n <= b.len(),
        agree_up_to(a, b, n),
        n < a.len() && n < b.len() ==> a[n] != b[n],
    ensures
        text_before(a, b) <==> n < b.len() && (n == a.len() || a[n] < b[n]),
    decreases n,
{
    if n > 0 {
        assert(a[0] == b[0]);
        let c = a.drop_first();
        let d = b.drop_first();
        assert forall|k: int| 0 <= k < n - 1 implies (#[trigger] c[k]) == d[k] by {
            assert(a[k + 1] == b[k + 1]);
        }
        texts_are_ordered_by_their_first_difference(c, d, n - 1);
        if n < a.len() && n < b.len() {
            assert(c[n - 1] == a[n] && d[n - 1] == b[n]);
        }
    }
}

/// Values and members are written one behind the other, with one comma between two
/// and a colon between a key and its value.
pub proof fn values_are_written_between_commas(
    values: Vec<Json>,
    members: Seq<MemberV>,
    n: int,
)
    requires
        0 < n,
    ensures
        joined_values(values, 0).len() == 0 && joined_members(members, 0).len() == 0,
        0 < values@.len() ==> joined_values(values, 1) == json_text(values@[0]),
        n < values@.len() ==> joined_values(values, n + 1) == joined_values(values, n) + ","@
            + json_text(values@[n]),
        0 < members.len() ==> joined_members(members, 1) == json_string(members[0].key) + ":"@
            + members[0].text,
        n < members.len() ==> joined_members(members, n + 1) == joined_members(members, n) + ","@
            + json_string(members[n].key) + ":"@ + members[n].text,
{
    let none = Seq::<char>::empty();
    assert(joined_values(values, 0) == none);
    assert(joined_members(members, 0) == none);
    if 0 < values@.len() {
        assert(none + none + json_text(values@[0]) =~= json_text(values@[0]));
    }
    if 0 < members.len() {
        assert(none + none + json_string(members[0].key) =~= json_string(members[0].key));
    }
}

/// Each kind of value is written in its own form.
pub proof fn values_are_written_by_kind(value: Json)
    ensures
        value is Null ==> json_text(value) == "null"@,
        value matches Json::Bool(known) ==> json_text(value) == (if known {
            "true"@
        } else {
            "false"@
        }),
        value matches Json::Number(digits) ==> json_text(value) == digits@,
        value matches Json::Text(text) ==> json_text(value) == json_string(text@),
        value matches Json::Array(values) ==> json_text(value) == "["@ + joined_values(
            values,
            values@.len() as int,
        ) + "]"@,
        value matches Json::Object(members) ==> json_text(value) == "{"@ + joined_members(
            ordered_members(members, members@.len() as int),
            members@.len() as int,
        ) + "}"@,
{
    if let Json::Object(members) = value {
        members_are_written_in_key_order(members, members@.len() as int);
    }
}

} // verus!
