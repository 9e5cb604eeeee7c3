//! JSON values, and the text that stands for one: compact, with the members of
//! every object in the order of their keys.

use crate::outside::{json_string, json_string_text};
use crate::text::views;
use vstd::prelude::*;
use vstd::string::*;

verus! {

/// A JSON value. A number is held as the digits that write it.
#[derive(Debug)]
pub enum Json {
    Null,
    Bool(bool),
    Number(String),
    Text(String),
    Array(Vec<Json>),
    Object(Vec<Member>),
}

/// A member of a JSON object.
#[derive(Debug)]
pub struct Member {
    pub key: String,
    pub value: Json,
}

/// A member whose value is written.
pub struct MemberV {
    pub key: Seq<char>,
    pub text: Seq<char>,
}

/// The first text stands before the second: at their first difference it has the
/// smaller character, or it ends there.
pub open spec fn text_before(a: Seq<char>, b: Seq<char>) -> bool
    decreases a.len(),
{
    if b.len() == 0 {
        false
    } else if a.len() == 0 {
        true
    } else if a[0] != b[0] {
        a[0] < b[0]
    } else {
        text_before(a.drop_first(), b.drop_first())
    }
}

/// Number of members, up to the first `n`, that stand before a key or at it.
pub open spec fn slot_of(members: Seq<MemberV>, key: Seq<char>, n: int) -> int
    decreases n,
{
    if n <= 0 {
        0
    } else if text_before(key, members[n - 1].key) {
        slot_of(members, key, n - 1)
    } else {
        n
    }
}

/// Ordered members with one more in its place, behind those of its own key.
pub open spec fn placed(members: Seq<MemberV>, member: MemberV) -> Seq<MemberV> {
    members.insert(slot_of(members, member.key, members.len() as int), member)
}

/// The first `n` members, written, in the order of their keys.
pub open spec fn ordered_members(members: Vec<Member>, n: int) -> Seq<MemberV>
    decreases members, n,
{
    if n <= 0 || n > members@.len() {
        Seq::empty()
    } else {
        placed(
            ordered_members(members, n - 1),
            MemberV { key: members[n - 1].key@, text: json_text(members[n - 1].value) },
        )
    }
}

/// The first `n` members, with the commas between them.
pub open spec fn joined_members(members: Seq<MemberV>, n: int) -> Seq<char>
    decreases n,
{
    if n <= 0 {
        Seq::empty()
    } else {
        joined_members(members, n - 1) + separator(n) + json_string(members[n - 1].key) + ":"@
            + members[n - 1].text
    }
}

/// The first `n` values, with the commas between them.
pub open spec fn joined_values(values: Vec<Json>, n: int) -> Seq<char>
    decreases values, n,
{
    if n <= 0 || n > values@.len() {
        Seq::empty()
    } else {
        joined_values(values, n - 1) + separator(n) + json_text(values[n - 1])
    }
}

/// What stands before the `n`th part of a list.
pub open spec fn separator(n: int) -> Seq<char> {
    if n <= 1 {
        Seq::empty()
    } else {
        ","@
    }
}

/// Text of a value.
pub open spec fn json_text(value: Json) -> Seq<char>
    decreases value, 0int,
{
    match value {
        Json::Null => "null"@,
        Json::Bool(true) => "true"@,
        Json::Bool(false) => "false"@,
        Json::Number(digits) => digits@,
        Json::Text(text) => json_string(text@),
        Json::Array(values) => "["@ + joined_values(values, values@.len() as int) + "]"@,
        Json::Object(members) => {
            let ordered = ordered_members(members, members@.len() as int);
            "{"@ + joined_members(ordered, ordered.len() as int) + "}"@
        },
    }
}

/// A text that stands before one text stands before every text that does not
/// stand before that one.
proof fn before_carries(a: Seq<char>, b: Seq<char>, c: Seq<char>)
    requires
        text_before(a, b),
        !text_before(c, b),
    ensures
        text_before(a, c),
    decreases a.len(),
{
    if a.len() > 0 && c.len() > 0 && a[0] == b[0] && b[0] == c[0] {
        before_carries(a.drop_first(), b.drop_first(), c.drop_first());
    }
}

/// The members stand in the order of their keys.
pub open spec fn in_key_order(members: Seq<MemberV>) -> bool {
    forall|i: int, j: int|
        0 <= i < j < members.len() ==> !text_before(
            (#[trigger] members[j]).key,
            (#[trigger] members[i]).key,
        )
}

proof fn slot_facts(members: Seq<MemberV>, key: Seq<char>, n: int)
    requires
        0 <= n <= members.len(),
    ensures
        0 <= slot_of(members, key, n) <= n,
        slot_of(members, key, n) > 0 ==> !text_before(
            key,
            members[slot_of(members, key, n) - 1].key,
        ),
        forall|i: int|
            slot_of(members, key, n) <= i < n ==> text_before(key, (#[trigger] members[i]).key),
    decreases n,
{
    if n > 0 && text_before(key, members[n - 1].key) {
        slot_facts(members, key, n - 1);
    }
}

proof fn before_is_strict(a: Seq<char>, b: Seq<char>)
    requires
        text_before(a, b),
    ensures
        !text_before(b, a),
    decreases a.len(),
{
    if a.len() > 0 && a[0] == b[0] {
        before_is_strict(a.drop_first(), b.drop_first());
    }
}

/// Every member of an object is written once, and the members are written in the
/// order of their keys, whatever the order in which they are held.
pub proof fn members_are_written_in_key_order(members: Vec<Member>, n: int)
    requires
        0 <= n <= members@.len(),
    ensures
        in_key_order(ordered_members(members, n)),
        ordered_members(members, n).len() == n,
        forall|i: int|
            0 <= i < n ==> ordered_members(members, n).contains(
                MemberV {
                    key: (#[trigger] members@[i]).key@,
                    text: json_text(members@[i].value),
                },
            ),
    decreases n,
{
    if n > 0 {
        members_are_written_in_key_order(members, n - 1);
        let shorter = ordered_members(members, n - 1);
        let added = MemberV { key: members[n - 1].key@, text: json_text(members[n - 1].value) };
        let slot = slot_of(shorter, added.key, shorter.len() as int);
        slot_facts(shorter, added.key, shorter.len() as int);
        let longer = ordered_members(members, n);
        assert(longer == shorter.insert(slot, added));
        assert forall|i: int, j: int| 0 <= i < j < longer.len() implies !text_before(
            (#[trigger] longer[j]).key,
            (#[trigger] longer[i]).key,
        ) by {
            if i == slot {
                assert(longer[j] == shorter[j - 1]);
                before_is_strict(added.key, shorter[j - 1].key);
            } else if j == slot {
                assert(longer[i] == shorter[i]);
                if text_before(added.key, shorter[i].key) && i < slot - 1 {
                    before_carries(added.key, shorter[i].key, shorter[slot - 1].key);
                }
            } else {
                let i0 = if i < slot { i } else { i - 1 };
                let j0 = if j < slot { j } else { j - 1 };
                assert(longer[i] == shorter[i0] && longer[j] == shorter[j0]);
            }
        }
        assert forall|i: int| 0 <= i < n implies longer.contains(
            MemberV { key: (#[trigger] members@[i]).key@, text: json_text(members@[i].value) },
        ) by {
            let member = MemberV { key: members@[i].key@, text: json_text(members@[i].value) };
            if i == n - 1 {
                assert(longer[slot] == member);
            } else {
                assert(shorter.contains(member));
                let k = choose|k: int| 0 <= k < shorter.len() && shorter[k] == member;
                let k0 = if k < slot { k } else { k + 1 };
                assert(longer[k0] == member);
            }
        }
    }
}

/// Characters of a text.
fn characters(text: &str) -> (r: Vec<char>)
    ensures
        r@ == text@,
{
    let mut out: Vec<char> = Vec::new();
    for c in it: text.chars()
        invariant
            it.seq() == text@,
            out@ == text@.take(it.index()),
    {
        out.push(c);
        assert(text@.take(it.index() + 1) =~= text@.take(it.index()).push(text@[it.index()]));
    }
    assert(text@.take(text@.len() as int) =~= text@);
    out
}

/// Tests that one text stands before another.
fn stands_before(a: &str, b: &str) -> (r: bool)
    ensures
        r == text_before(a@, b@),
{
    let left: Vec<char> = characters(a);
    let right: Vec<char> = characters(b);
    let mut i: usize = 0;
    assert(a@.skip(0) =~= a@ && b@.skip(0) =~= b@);
    while i < left.len() && i < right.len()
        invariant
            left@ == a@,
            right@ == b@,
            i <= left.len(),
            i <= right.len(),
            text_before(a@, b@) == text_before(a@.skip(i as int), b@.skip(i as int)),
        decreases left.len() - i,
    {
        assert(a@.skip(i as int)[0] == left@[i as int]);
        assert(b@.skip(i as int)[0] == right@[i as int]);
        if left[i] != right[i] {
            return left[i] < right[i];
        }
        assert(a@.skip(i as int).drop_first() =~= a@.skip(i + 1));
        assert(b@.skip(i as int).drop_first() =~= b@.skip(i + 1));
        i += 1;
    }
    i < right.len()
}

/// A written member.
struct Written {
    key: String,
    text: String,
}

impl View for Written {
    type V = MemberV;

    closed spec fn view(&self) -> MemberV {
        MemberV { key: self.key@, text: self.text@ }
    }
}

/// Puts a written member in its place.
fn place(members: &mut Vec<Written>, member: Written)
    ensures
        views(final(members)@) == placed(views(old(members)@), member@),
{
    let ghost before = views(members@);
    let mut slot: usize = members.len();
    while slot > 0 && stands_before(member.key.as_str(), members[slot - 1].key.as_str())
        invariant
            slot <= members.len(),
            before == views(members@),
            slot_of(before, member.key@, members.len() as int) == slot_of(
                before,
                member.key@,
                slot as int,
            ),
        decreases slot,
    {
        assert(before[slot - 1] == members@[slot - 1]@);
        slot -= 1;
    }
    assert(slot > 0 ==> before[slot - 1] == members@[slot - 1]@);
    members.insert(slot, member);
    assert(views(members@) =~= before.insert(slot as int, member@));
}

/// Appends the text of a value.
fn write_json(out: &mut String, value: &Json)
    ensures
        final(out)@ == old(out)@ + json_text(*value),
    decreases value,
{
    let ghost before = out@;
    match value {
        Json::Null => out.append("null"),
        Json::Bool(flag) => if *flag {
            out.append("true");
        } else {
            out.append("false");
        },
        Json::Number(digits) => out.append(digits.as_str()),
        Json::Text(text) => out.append(json_string_text(text.as_str()).as_str()),
        Json::Array(values) => {
            out.append("[");
            let mut i: usize = 0;
            while i < values.len()
                invariant
                    i <= values.len(),
                    *value is Array && value->Array_0 == *values,
                    out@ == before + "["@ + joined_values(*values, i as int),
                decreases values.len() - i,
            {
                let ghost so_far = joined_values(*values, i as int);
                if i > 0 {
                    out.append(",");
                }
                assert(out@ =~= before + "["@ + (so_far + separator(i + 1)));
                assert(decreases_to!(*value => value->Array_0));
                assert(decreases_to!(*values => values[i as int]));
                write_json(out, &values[i]);
                i += 1;
                assert(out@ =~= before + "["@ + joined_values(*values, i as int));
            }
            out.append("]");
            assert(out@ =~= before + ("["@ + joined_values(*values, values@.len() as int) + "]"@));
        },
        Json::Object(members) => {
            let mut written: Vec<Written> = Vec::new();
            let mut i: usize = 0;
            assert(views(written@) =~= Seq::empty());
            while i < members.len()
                invariant
                    i <= members.len(),
                    *value is Object && value->Object_0 == *members,
                    views(written@) == ordered_members(*members, i as int),
                decreases members.len() - i,
            {
                let mut text: String = String::new();
                assert(decreases_to!(*value => value->Object_0));
                assert(decreases_to!(*members => members[i as int]));
                write_json(&mut text, &members[i].value);
                assert(text@ =~= json_text(members@[i as int].value));
                place(&mut written, Written { key: members[i].key.clone(), text });
                i += 1;
            }
            let ghost ordered = views(written@);
            out.append("{");
            let mut k: usize = 0;
            while k < written.len()
                invariant
                    k <= written.len(),
                    ordered == views(written@),
                    out@ == before + "{"@ + joined_members(ordered, k as int),
                decreases written.len() - k,
            {
                let ghost so_far = joined_members(ordered, k as int);
                assert(ordered[k as int] == written@[k as int]@);
                if k > 0 {
                    out.append(",");
                }
                out.append(json_string_text(written[k].key.as_str()).as_str());
                out.append(":");
                out.append(written[k].text.as_str());
                k += 1;
                assert(out@ =~= before + "{"@ + joined_members(ordered, k as int));
            }
            out.append("}");
            assert(out@ =~= before + ("{"@ + joined_members(ordered, ordered.len() as int) + "}"@));
        },
    }
}

/// Text of a value, with the members of every object in the order of their keys.
pub fn recursively_sorted_json(value: &Json) -> (r: String)
    ensures
        r@ == json_text(*value),
{
    let mut out: String = String::new();
    write_json(&mut out, value);
    assert(out@ =~= json_text(*value));
    out
}

} // verus!
