//! The JSON text of marks can be read back, so two lists of marks with one text
//! are one list.

use crate::binding::mark_label_facts;
use crate::encoding::hex_digit;
use crate::fingerprint::{
    decimal_digit, decimal_text, mark_json, mark_member, marks_json, marks_json_from,
};
use crate::hashing::{mark_label, mark_payload};
use crate::model::{MarkKindV, MarkV};
use crate::outside::{json_escaped, json_escaped_text, json_string};
use vstd::prelude::*;

verus! {

/// Two additions with first parts of one length agree part by part.
proof fn char_cut(a: Seq<char>, x: Seq<char>, b: Seq<char>, y: Seq<char>)
    requires
        a + x == b + y,
        a.len() == b.len(),
    ensures
        a == b,
        x == y,
{
    assert(a =~= (a + x).subrange(0, a.len() as int));
    assert(b =~= (b + y).subrange(0, b.len() as int));
    assert(x =~= (a + x).subrange(a.len() as int, (a + x).len() as int));
    assert(y =~= (b + y).subrange(b.len() as int, (b + y).len() as int));
}

spec fn free_of(text: Seq<char>, stop: spec_fn(char) -> bool) -> bool {
    forall|i: int| 0 <= i < text.len() ==> !stop(#[trigger] text[i])
}

/// Texts without a stop character, each followed by one, can be read back.
proof fn stop_cut(
    a: Seq<char>,
    x: Seq<char>,
    b: Seq<char>,
    y: Seq<char>,
    stop: spec_fn(char) -> bool,
)
    requires
        a + x == b + y,
        free_of(a, stop),
        free_of(b, stop),
        x.len() > 0 && stop(x[0]),
        y.len() > 0 && stop(y[0]),
    ensures
        a == b,
        x == y,
{
    if a.len() < b.len() {
        assert((a + x)[a.len() as int] == x[0]);
        assert((b + y)[a.len() as int] == b[a.len() as int]);
    } else if b.len() < a.len() {
        assert((b + y)[b.len() as int] == y[0]);
        assert((a + x)[b.len() as int] == a[b.len() as int]);
    }
    char_cut(a, x, b, y);
}

/// An escaped character can be read back, and does not start like the end of a
/// string.
proof fn escaped_cut(c: char, x: Seq<char>, d: char, y: Seq<char>)
    requires
        json_escaped(c) + x == json_escaped(d) + y,
    ensures
        c == d,
        x == y,
{
    let left = json_escaped(c) + x;
    let right = json_escaped(d) + y;
    assert(left[0] == json_escaped(c)[0]);
    assert(right[0] == json_escaped(d)[0]);
    if json_escaped(c).len() > 1 && json_escaped(d).len() > 1 {
        assert(left[1] == json_escaped(c)[1]);
        assert(right[1] == json_escaped(d)[1]);
        if json_escaped(c).len() == 6 && json_escaped(d).len() == 6 {
            assert(left[4] == json_escaped(c)[4]);
            assert(right[4] == json_escaped(d)[4]);
            assert(left[5] == json_escaped(c)[5]);
            assert(right[5] == json_escaped(d)[5]);
            let m = c as u32 as int;
            let n = d as u32 as int;
            assert(hex_digit(m / 16) == hex_digit(n / 16));
            assert(hex_digit(m % 16) == hex_digit(n % 16));
            assert(m / 16 == n / 16);
            assert(m % 16 == n % 16);
            assert(m == n);
            assert(c == d);
        }
    }
    assert(c == d);
    char_cut(json_escaped(c), x, json_escaped(d), y);
}

proof fn escaped_text_cut(a: Seq<char>, x: Seq<char>, b: Seq<char>, y: Seq<char>)
    requires
        json_escaped_text(a) + (seq!['"'] + x) == json_escaped_text(b) + (seq!['"'] + y),
    ensures
        a == b,
        x == y,
    decreases a.len(),
{
    let end_x = seq!['"'] + x;
    let end_y = seq!['"'] + y;
    if a.len() == 0 && b.len() == 0 {
        assert(json_escaped_text(a) + end_x =~= end_x);
        assert(json_escaped_text(b) + end_y =~= end_y);
        char_cut(seq!['"'], x, seq!['"'], y);
        assert(a =~= b);
    } else if a.len() == 0 {
        assert((json_escaped_text(a) + end_x)[0] == '"');
        assert((json_escaped_text(b) + end_y)[0] == json_escaped(b[0])[0]);
        assert(false);
    } else if b.len() == 0 {
        assert((json_escaped_text(b) + end_y)[0] == '"');
        assert((json_escaped_text(a) + end_x)[0] == json_escaped(a[0])[0]);
        assert(false);
    } else {
        let rest_a = json_escaped_text(a.drop_first()) + end_x;
        let rest_b = json_escaped_text(b.drop_first()) + end_y;
        assert(json_escaped_text(a) + end_x =~= json_escaped(a[0]) + rest_a);
        assert(json_escaped_text(b) + end_y =~= json_escaped(b[0]) + rest_b);
        escaped_cut(a[0], rest_a, b[0], rest_b);
        escaped_text_cut(a.drop_first(), x, b.drop_first(), y);
        assert(a =~= seq![a[0]] + a.drop_first());
        assert(b =~= seq![b[0]] + b.drop_first());
    }
}

/// A JSON string can be read back.
proof fn json_string_cut(a: Seq<char>, x: Seq<char>, b: Seq<char>, y: Seq<char>)
    requires
        json_string(a) + x == json_string(b) + y,
    ensures
        a == b,
        x == y,
{
    let rest_a = json_escaped_text(a) + (seq!['"'] + x);
    let rest_b = json_escaped_text(b) + (seq!['"'] + y);
    assert(json_string(a) + x =~= seq!['"'] + rest_a);
    assert(json_string(b) + y =~= seq!['"'] + rest_b);
    char_cut(seq!['"'], rest_a, seq!['"'], rest_b);
    escaped_text_cut(a, x, b, y);
}

spec fn is_digit(c: char) -> bool {
    '0' <= c && c <= '9'
}

proof fn decimal_is_digits(value: nat)
    ensures
        decimal_text(value).len() >= 1,
        value >= 10 ==> decimal_text(value).len() >= 2,
        forall|i: int| 0 <= i < decimal_text(value).len() ==> is_digit(#[trigger] decimal_text(value)[i]),
    decreases value,
{
    if value >= 10 {
        decimal_is_digits(value / 10);
    }
}

proof fn decimal_injective(a: nat, b: nat)
    requires
        decimal_text(a) == decimal_text(b),
    ensures
        a == b,
    decreases a,
{
    decimal_is_digits(a);
    decimal_is_digits(b);
    let text_a = decimal_text(a);
    let text_b = decimal_text(b);
    if a < 10 || b < 10 {
        assert(text_a[0] == text_b[0]);
        assert(decimal_digit(a as int) == decimal_digit(b as int));
    } else {
        assert(text_a.last() == decimal_digit(a as int % 10));
        assert(text_b.last() == decimal_digit(b as int % 10));
        assert(text_a.drop_last() =~= decimal_text(a / 10));
        assert(text_b.drop_last() =~= decimal_text(b / 10));
        decimal_injective(a / 10, b / 10);
    }
}

/// A number that is followed by no digit can be read back.
proof fn decimal_cut(a: nat, x: Seq<char>, b: nat, y: Seq<char>)
    requires
        decimal_text(a) + x == decimal_text(b) + y,
        x.len() > 0 && !is_digit(x[0]),
        y.len() > 0 && !is_digit(y[0]),
    ensures
        a == b,
        x == y,
{
    decimal_is_digits(a);
    decimal_is_digits(b);
    let stop = |c: char| !is_digit(c);
    stop_cut(decimal_text(a), x, decimal_text(b), y, stop);
    decimal_injective(a, b);
}

/// A label holds no quote.
proof fn label_has_no_quote(kind: MarkKindV)
    ensures
        free_of(mark_label(kind), |c: char| c == '"'),
{
    reveal_strlit("bold");
    reveal_strlit("italic");
    reveal_strlit("strikethrough");
    reveal_strlit("underline");
    reveal_strlit("code");
    reveal_strlit("link");
    reveal_strlit("text_color");
    reveal_strlit("background_color");
    reveal_strlit("mention");
    reveal_strlit("emoji");
    reveal_strlit("object");
}

/// What follows the range of a mark.
spec fn mark_tail(kind: MarkKindV) -> Seq<char> {
    match mark_payload(kind) {
        Some(text) => mark_member(kind) + json_string(text),
        None => Seq::empty(),
    }
}

proof fn tail_starts_no_number(kind: MarkKindV, x: Seq<char>)
    ensures
        (mark_tail(kind) + ("}"@ + x)).len() > 0,
        !is_digit((mark_tail(kind) + ("}"@ + x))[0]),
{
    reveal_strlit("}");
    reveal_strlit(",\"url\":");
    reveal_strlit(",\"color\":");
    reveal_strlit(",\"object_id\":");
    reveal_strlit(",\"emoji\":");
    let whole = mark_tail(kind) + ("}"@ + x);
    if mark_payload(kind) is Some {
        assert(mark_member(kind)[0] == ',');
        assert(whole[0] == mark_member(kind)[0]);
    } else {
        assert(whole =~= "}"@ + x);
        assert(whole[0] == '}');
    }
}

/// Marks of one label carry their text in one member.
proof fn label_gives_member(a: MarkKindV, b: MarkKindV)
    requires
        mark_label(a) == mark_label(b),
    ensures
        mark_member(a) == mark_member(b),
        mark_payload(a) is Some == mark_payload(b) is Some,
{
    reveal_strlit("bold");
    reveal_strlit("italic");
    reveal_strlit("strikethrough");
    reveal_strlit("underline");
    reveal_strlit("code");
    reveal_strlit("link");
    reveal_strlit("text_color");
    reveal_strlit("background_color");
    reveal_strlit("mention");
    reveal_strlit("emoji");
    reveal_strlit("object");
    assert("bold"@.len() == 4 && "bold"@[0] == 'b');
    assert("italic"@.len() == 6 && "italic"@[0] == 'i');
    assert("strikethrough"@.len() == 13);
    assert("underline"@.len() == 9);
    assert("code"@.len() == 4 && "code"@[0] == 'c');
    assert("link"@.len() == 4 && "link"@[0] == 'l');
    assert("text_color"@.len() == 10);
    assert("background_color"@.len() == 16);
    assert("mention"@.len() == 7);
    assert("emoji"@.len() == 5);
    assert("object"@.len() == 6 && "object"@[0] == 'o');
}

spec fn after_start(mark: MarkV, x: Seq<char>) -> Seq<char> {
    ",\"end\":"@ + (decimal_text(mark.end as nat) + (mark_tail(mark.kind) + ("}"@ + x)))
}

spec fn after_label(mark: MarkV, x: Seq<char>) -> Seq<char> {
    "\",\"start\":"@ + (decimal_text(mark.start as nat) + after_start(mark, x))
}

proof fn mark_json_chain(mark: MarkV, x: Seq<char>)
    ensures
        mark_json(mark) + x == "{\"kind\":\""@ + (mark_label(mark.kind) + after_label(mark, x)),
{
    let open = "{\"kind\":\""@;
    let label = mark_label(mark.kind);
    let s = "\",\"start\":"@;
    let n = decimal_text(mark.start as nat);
    let e = ",\"end\":"@;
    let m = decimal_text(mark.end as nat);
    let t = mark_tail(mark.kind);
    let close = "}"@;
    let r6 = t + (close + x);
    let r5 = m + r6;
    let r4 = e + r5;
    let r3 = n + r4;
    let r2 = s + r3;
    assert(mark_json(mark) == open + label + s + n + e + m + t + close);
    let p6 = open + label + s + n + e + m;
    let p5 = open + label + s + n + e;
    let p4 = open + label + s + n;
    let p3 = open + label + s;
    let p2 = open + label;
    assert(p6 + t + close + x =~= p6 + r6);
    assert(p6 + r6 =~= p5 + r5);
    assert(p5 + r5 =~= p4 + r4);
    assert(p4 + r4 =~= p3 + r3);
    assert(p3 + r3 =~= p2 + r2);
    assert(p2 + r2 =~= open + (label + r2));
}

/// The JSON of a mark can be read back.
proof fn mark_json_cut(a: MarkV, x: Seq<char>, b: MarkV, y: Seq<char>)
    requires
        mark_json(a) + x == mark_json(b) + y,
    ensures
        a == b,
        x == y,
{
    mark_json_chain(a, x);
    mark_json_chain(b, y);
    let open = "{\"kind\":\""@;
    let label_a = mark_label(a.kind);
    let label_b = mark_label(b.kind);
    char_cut(open, label_a + after_label(a, x), open, label_b + after_label(b, y));
    reveal_strlit("\",\"start\":");
    reveal_strlit(",\"end\":");
    assert("\",\"start\":"@[0] == '"');
    assert(",\"end\":"@[0] == ',');
    assert(after_label(a, x)[0] == '"');
    assert(after_label(b, y)[0] == '"');
    label_has_no_quote(a.kind);
    label_has_no_quote(b.kind);
    stop_cut(label_a, after_label(a, x), label_b, after_label(b, y), |c: char| c == '"');
    char_cut(
        "\",\"start\":"@,
        decimal_text(a.start as nat) + after_start(a, x),
        "\",\"start\":"@,
        decimal_text(b.start as nat) + after_start(b, y),
    );
    assert(after_start(a, x)[0] == ',');
    assert(after_start(b, y)[0] == ',');
    decimal_cut(a.start as nat, after_start(a, x), b.start as nat, after_start(b, y));
    let tail_a = mark_tail(a.kind) + ("}"@ + x);
    let tail_b = mark_tail(b.kind) + ("}"@ + y);
    char_cut(
        ",\"end\":"@,
        decimal_text(a.end as nat) + tail_a,
        ",\"end\":"@,
        decimal_text(b.end as nat) + tail_b,
    );
    tail_starts_no_number(a.kind, x);
    tail_starts_no_number(b.kind, y);
    decimal_cut(a.end as nat, tail_a, b.end as nat, tail_b);
    label_gives_member(a.kind, b.kind);
    match (mark_payload(a.kind), mark_payload(b.kind)) {
        (Some(left), Some(right)) => {
            assert(tail_a =~= mark_member(a.kind) + (json_string(left) + ("}"@ + x)));
            assert(tail_b =~= mark_member(b.kind) + (json_string(right) + ("}"@ + y)));
            char_cut(
                mark_member(a.kind),
                json_string(left) + ("}"@ + x),
                mark_member(b.kind),
                json_string(right) + ("}"@ + y),
            );
            json_string_cut(left, "}"@ + x, right, "}"@ + y);
        },
        _ => {
            assert(tail_a =~= "}"@ + x);
            assert(tail_b =~= "}"@ + y);
        },
    }
    char_cut("}"@, x, "}"@, y);
    mark_label_facts(a.kind, b.kind);
}

proof fn marks_from_cut(a: Seq<MarkV>, b: Seq<MarkV>, i: int)
    requires
        0 <= i <= a.len(),
        i <= b.len(),
        marks_json_from(a, i) == marks_json_from(b, i),
        forall|k: int| 0 <= k < i ==> (#[trigger] a[k]) == b[k],
    ensures
        a == b,
    decreases a.len() - i,
{
    reveal_strlit("]");
    reveal_strlit(",");
    reveal_strlit("{\"kind\":\"");
    let left = marks_json_from(a, i);
    let right = marks_json_from(b, i);
    if i < a.len() {
        let rest_a = marks_json_from(a, i + 1);
        mark_json_chain(a[i], rest_a);
        assert((mark_json(a[i]) + rest_a)[0] == '{');
        assert(left[0] == if i == 0 {
            '{'
        } else {
            ','
        });
    }
    if i < b.len() {
        let rest_b = marks_json_from(b, i + 1);
        mark_json_chain(b[i], rest_b);
        assert((mark_json(b[i]) + rest_b)[0] == '{');
        assert(right[0] == if i == 0 {
            '{'
        } else {
            ','
        });
    }
    if i == a.len() && i == b.len() {
        assert(a =~= b);
    } else if i == a.len() {
        assert(left[0] == ']');
        assert(false);
    } else if i == b.len() {
        assert(right[0] == ']');
        assert(false);
    } else {
        let rest_a = marks_json_from(a, i + 1);
        let rest_b = marks_json_from(b, i + 1);
        if i > 0 {
            char_cut(","@, mark_json(a[i]) + rest_a, ","@, mark_json(b[i]) + rest_b);
        }
        mark_json_cut(a[i], rest_a, b[i], rest_b);
        marks_from_cut(a, b, i + 1);
    }
}

/// The JSON text of marks says which marks they are, in order.
pub proof fn marks_json_binds_marks(a: Seq<MarkV>, b: Seq<MarkV>)
    requires
        marks_json(a) == marks_json(b),
    ensures
        a == b,
{
    char_cut("["@, marks_json_from(a, 0), "["@, marks_json_from(b, 0));
    marks_from_cut(a, b, 0);
}

} // verus!
