//! Length-prefixed byte encodings, and the hashes taken over them.

use crate::domain::{in_class, CharClass, SnapshotHash};
use crate::outside::{sha256, sha256_digest};
use vstd::prelude::*;
use vstd::string::*;
use vstd::utf8::*;

verus! {

/// Big-endian bytes of a number, `width` of them.
pub open spec fn be_bytes(value: int, width: nat) -> Seq<u8>
    decreases width,
{
    if width == 0 {
        Seq::empty()
    } else {
        be_bytes(value / 256, (width - 1) as nat).push((value % 256) as u8)
    }
}

/// Bytes behind their length, which is eight big-endian bytes.
pub open spec fn enc_bytes(value: Seq<u8>) -> Seq<u8> {
    be_bytes(value.len() as int, 8) + value
}

/// UTF-8 text behind its length in bytes.
pub open spec fn enc_text(value: Seq<char>) -> Seq<u8> {
    enc_bytes(encode_utf8(value))
}

/// One byte for a truth value.
pub open spec fn enc_bool(value: bool) -> Seq<u8> {
    seq![
        if value {
            1u8
        } else {
            0u8
        },
    ]
}

/// A presence byte, and the text where there is one.
pub open spec fn enc_opt_text(value: Option<Seq<char>>) -> Seq<u8> {
    match value {
        Some(text) => enc_bool(true) + enc_text(text),
        None => enc_bool(false),
    }
}

/// Parts one after another.
pub open spec fn enc_list(parts: Seq<Seq<u8>>) -> Seq<u8>
    decreases parts.len(),
{
    if parts.len() == 0 {
        Seq::empty()
    } else {
        parts[0] + enc_list(parts.drop_first())
    }
}

/// The parts from `i` on start with part `i`.
pub proof fn enc_list_step(parts: Seq<Seq<u8>>, i: int)
    requires
        0 <= i < parts.len(),
    ensures
        enc_list(parts.subrange(i, parts.len() as int)) == parts[i] + enc_list(
            parts.subrange(i + 1, parts.len() as int),
        ),
{
    let rest = parts.subrange(i, parts.len() as int);
    assert(rest.drop_first() =~= parts.subrange(i + 1, parts.len() as int));
}

/// Texts as parts.
pub open spec fn text_parts(values: Seq<Seq<char>>) -> Seq<Seq<u8>> {
    Seq::new(values.len(), |i: int| enc_text(values[i]))
}

/// A number that `width` big-endian bytes hold.
pub open spec fn be_fits(value: int, width: nat) -> bool
    decreases width,
{
    if width == 0 {
        value == 0
    } else {
        0 <= value && be_fits(value / 256, (width - 1) as nat)
    }
}

/// A text whose byte length eight bytes hold.
pub open spec fn text_fits(text: Seq<char>) -> bool {
    encode_utf8(text).len() <= u64::MAX
}

/// An optional text that is absent or fits.
pub open spec fn opt_text_fits(text: Option<Seq<char>>) -> bool {
    match text {
        Some(text) => text_fits(text),
        None => true,
    }
}

pub(crate) proof fn be_bytes_len(value: int, width: nat)
    ensures
        be_bytes(value, width).len() == width,
    decreases width,
{
    if width > 0 {
        be_bytes_len(value / 256, (width - 1) as nat);
    }
}

proof fn be_bytes_injective(a: int, b: int, width: nat)
    requires
        be_fits(a, width),
        be_fits(b, width),
        be_bytes(a, width) == be_bytes(b, width),
    ensures
        a == b,
    decreases width,
{
    if width > 0 {
        let high_a = be_bytes(a / 256, (width - 1) as nat);
        let high_b = be_bytes(b / 256, (width - 1) as nat);
        be_bytes_len(a / 256, (width - 1) as nat);
        be_bytes_len(b / 256, (width - 1) as nat);
        assert(be_bytes(a, width).drop_last() =~= high_a);
        assert(be_bytes(b, width).drop_last() =~= high_b);
        assert(be_bytes(a, width).last() == (a % 256) as u8);
        assert(be_bytes(b, width).last() == (b % 256) as u8);
        be_bytes_injective(a / 256, b / 256, (width - 1) as nat);
    }
}

/// Numbers below 2^64 fit in eight bytes.
pub proof fn be_fits_u64(value: int)
    requires
        0 <= value <= u64::MAX,
    ensures
        be_fits(value, 8),
{
    reveal_with_fuel(be_fits, 9);
}

/// Numbers below 2^32 fit in four bytes.
pub proof fn be_fits_u32(value: int)
    requires
        0 <= value <= u32::MAX,
    ensures
        be_fits(value, 4),
{
    reveal_with_fuel(be_fits, 5);
}

/// Two additions with first parts of one length agree part by part.
pub proof fn cut(a: Seq<u8>, x: Seq<u8>, b: Seq<u8>, y: Seq<u8>)
    requires
        a + x == b + y,
        a.len() == b.len(),
    ensures
        a == b,
        x == y,
{
    assert(a =~= (a + x).subrange(0, a.len() as int));
    assert(b =~= (b + y).subrange(0, b.len() as int));
    assert(x =~= (a + x).subrange(a.len() as int, (a + x).len() as int));
    assert(y =~= (b + y).subrange(b.len() as int, (b + y).len() as int));
}

/// A number of fixed width can be read back from the front of an encoding.
pub proof fn be_cut(a: int, x: Seq<u8>, b: int, y: Seq<u8>, width: nat)
    requires
        be_bytes(a, width) + x == be_bytes(b, width) + y,
        be_fits(a, width),
        be_fits(b, width),
    ensures
        a == b,
        x == y,
{
    be_bytes_len(a, width);
    be_bytes_len(b, width);
    cut(be_bytes(a, width), x, be_bytes(b, width), y);
    be_bytes_injective(a, b, width);
}

/// A truth value can be read back from the front of an encoding.
pub proof fn bool_cut(a: bool, x: Seq<u8>, b: bool, y: Seq<u8>)
    requires
        enc_bool(a) + x == enc_bool(b) + y,
    ensures
        a == b,
        x == y,
{
    cut(enc_bool(a), x, enc_bool(b), y);
    assert(enc_bool(a)[0] == enc_bool(b)[0]);
}

/// Bytes behind their length can be read back from the front of an encoding.
pub proof fn bytes_cut(a: Seq<u8>, x: Seq<u8>, b: Seq<u8>, y: Seq<u8>)
    requires
        enc_bytes(a) + x == enc_bytes(b) + y,
        a.len() <= u64::MAX,
        b.len() <= u64::MAX,
    ensures
        a == b,
        x == y,
{
    be_fits_u64(a.len() as int);
    be_fits_u64(b.len() as int);
    assert(enc_bytes(a) + x =~= be_bytes(a.len() as int, 8) + (a + x));
    assert(enc_bytes(b) + y =~= be_bytes(b.len() as int, 8) + (b + y));
    be_cut(a.len() as int, a + x, b.len() as int, b + y, 8);
    cut(a, x, b, y);
}

/// A text can be read back from the front of an encoding.
pub proof fn text_cut(a: Seq<char>, x: Seq<u8>, b: Seq<char>, y: Seq<u8>)
    requires
        enc_text(a) + x == enc_text(b) + y,
        text_fits(a),
        text_fits(b),
    ensures
        a == b,
        x == y,
{
    bytes_cut(encode_utf8(a), x, encode_utf8(b), y);
    encode_utf8_decode_utf8(a);
    encode_utf8_decode_utf8(b);
}

/// An optional text can be read back from the front of an encoding.
pub proof fn opt_text_cut(a: Option<Seq<char>>, x: Seq<u8>, b: Option<Seq<char>>, y: Seq<u8>)
    requires
        enc_opt_text(a) + x == enc_opt_text(b) + y,
        opt_text_fits(a),
        opt_text_fits(b),
    ensures
        a == b,
        x == y,
{
    let rest_a = match a {
        Some(text) => enc_text(text),
        None => Seq::empty(),
    };
    let rest_b = match b {
        Some(text) => enc_text(text),
        None => Seq::empty(),
    };
    assert(enc_opt_text(a) + x =~= enc_bool(a is Some) + (rest_a + x));
    assert(enc_opt_text(b) + y =~= enc_bool(b is Some) + (rest_b + y));
    bool_cut(a is Some, rest_a + x, b is Some, rest_b + y);
    match (a, b) {
        (Some(left), Some(right)) => {
            text_cut(left, x, right, y);
        },
        _ => {
            assert(rest_a + x =~= x);
            assert(rest_b + y =~= y);
        },
    }
}

/// Whether two parts can be told apart whatever follows them.
pub open spec fn separable(a: Seq<u8>, b: Seq<u8>) -> bool {
    forall|x: Seq<u8>, y: Seq<u8>| #[trigger] (a + x) == #[trigger] (b + y) ==> a == b
}

/// Two lists of as many parts, pairwise separable, can be read back.
pub proof fn list_cut(p: Seq<Seq<u8>>, x: Seq<u8>, q: Seq<Seq<u8>>, y: Seq<u8>)
    requires
        enc_list(p) + x == enc_list(q) + y,
        p.len() == q.len(),
        forall|i: int| 0 <= i < p.len() ==> separable(#[trigger] p[i], q[i]),
    ensures
        p == q,
        x == y,
    decreases p.len(),
{
    if p.len() == 0 {
        assert(enc_list(p) + x =~= x);
        assert(enc_list(q) + y =~= y);
        assert(p =~= q);
    } else {
        let rest_p = p.drop_first();
        let rest_q = q.drop_first();
        assert(enc_list(p) + x =~= p[0] + (enc_list(rest_p) + x));
        assert(enc_list(q) + y =~= q[0] + (enc_list(rest_q) + y));
        assert(separable(p[0], q[0]));
        cut(p[0], enc_list(rest_p) + x, q[0], enc_list(rest_q) + y);
        assert forall|i: int| 0 <= i < rest_p.len() implies separable(
            #[trigger] rest_p[i],
            rest_q[i],
        ) by {
            assert(separable(p[i + 1], q[i + 1]));
        }
        list_cut(rest_p, x, rest_q, y);
        assert(p =~= seq![p[0]] + rest_p);
        assert(q =~= seq![q[0]] + rest_q);
    }
}

/// Two lists of as many texts can be read back.
pub proof fn texts_cut(a: Seq<Seq<char>>, x: Seq<u8>, b: Seq<Seq<char>>, y: Seq<u8>)
    requires
        enc_list(text_parts(a)) + x == enc_list(text_parts(b)) + y,
        a.len() == b.len(),
        forall|i: int| 0 <= i < a.len() ==> text_fits(#[trigger] a[i]),
        forall|i: int| 0 <= i < b.len() ==> text_fits(#[trigger] b[i]),
    ensures
        a == b,
        x == y,
{
    let p = text_parts(a);
    let q = text_parts(b);
    assert forall|i: int| 0 <= i < p.len() implies separable(#[trigger] p[i], q[i]) by {
        assert forall|u: Seq<u8>, v: Seq<u8>|
            #[trigger] (p[i] + u) == #[trigger] (q[i] + v) implies p[i] == q[i] by {
            assert(text_fits(a[i]) && text_fits(b[i]));
            text_cut(a[i], u, b[i], v);
        }
    }
    list_cut(p, x, q, y);
    assert forall|i: int| 0 <= i < a.len() implies a[i] == b[i] by {
        assert(text_fits(a[i]) && text_fits(b[i]));
        assert(p[i] == q[i]);
        text_cut(a[i], Seq::empty(), b[i], Seq::empty());
    }
    assert(a =~= b);
}

/// Collects the bytes that a hash is taken over.
#[derive(Clone, Debug, PartialEq, Eq)]
pub struct CanonicalHasher {
    bytes: Vec<u8>,
}

impl View for CanonicalHasher {
    type V = Seq<u8>;

    closed spec fn view(&self) -> Seq<u8> {
        self.bytes@
    }
}

/// Domain text in front of every snapshot encoding.
pub open spec fn snapshot_domain() -> Seq<u8> {
    encode_utf8("any-mcp/body-snapshot/v1"@)
}

/// Lower-case hexadecimal digit.
pub open spec fn hex_digit(value: int) -> char {
    if value < 10 {
        (('0' as u32) + value) as char
    } else {
        (('a' as u32) + value - 10) as char
    }
}

/// Lower-case hexadecimal text of bytes, two digits each.
pub open spec fn hex_text(bytes: Seq<u8>) -> Seq<char> {
    Seq::new(
        2 * bytes.len(),
        |i: int|
            hex_digit(
                if i % 2 == 0 {
                    bytes[i / 2] as int / 16
                } else {
                    bytes[i / 2] as int % 16
                },
            ),
    )
}

/// One hexadecimal digit as a text.
fn hex_piece(value: u8) -> (r: &'static str)
    requires
        value < 16,
    ensures
        r@ == seq![hex_digit(value as int)],
{
    proof {
        reveal_strlit("0");
        reveal_strlit("1");
        reveal_strlit("2");
        reveal_strlit("3");
        reveal_strlit("4");
        reveal_strlit("5");
        reveal_strlit("6");
        reveal_strlit("7");
        reveal_strlit("8");
        reveal_strlit("9");
        reveal_strlit("a");
        reveal_strlit("b");
        reveal_strlit("c");
        reveal_strlit("d");
        reveal_strlit("e");
        reveal_strlit("f");
    }
    let piece: &'static str = match value {
        0 => "0",
        1 => "1",
        2 => "2",
        3 => "3",
        4 => "4",
        5 => "5",
        6 => "6",
        7 => "7",
        8 => "8",
        9 => "9",
        10 => "a",
        11 => "b",
        12 => "c",
        13 => "d",
        14 => "e",
        _ => "f",
    };
    assert(piece@ =~= seq![hex_digit(value as int)]);
    piece
}

/// Writes bytes as lower-case hexadecimal text.
pub fn encode_hex(bytes: &[u8; 32]) -> (r: String)
    ensures
        r@ == hex_text(bytes@),
{
    let mut out: String = String::new();
    let mut i: usize = 0;
    while i < 32
        invariant
            i <= 32,
            out@ == hex_text(bytes@.subrange(0, i as int)),
        decreases 32 - i,
    {
        let byte: u8 = bytes[i];
        out.append(hex_piece(byte / 16));
        out.append(hex_piece(byte % 16));
        i += 1;
        assert(out@ =~= hex_text(bytes@.subrange(0, i as int)));
    }
    assert(bytes@.subrange(0, 32) =~= bytes@);
    out
}

impl CanonicalHasher {
    /// Starts a snapshot encoding with its domain text.
    pub fn new() -> (r: CanonicalHasher)
        ensures
            r@ == snapshot_domain(),
    {
        CanonicalHasher::in_domain("any-mcp/body-snapshot/v1")
    }

    /// Starts an encoding with a domain text.
    pub fn in_domain(domain: &str) -> (r: CanonicalHasher)
        ensures
            r@ == encode_utf8(domain@),
    {
        CanonicalHasher { bytes: domain.as_bytes_vec() }
    }

    /// Starts an empty encoding.
    pub fn empty() -> (r: CanonicalHasher)
        ensures
            r@ == Seq::<u8>::empty(),
    {
        CanonicalHasher { bytes: Vec::new() }
    }

    /// Adds bytes without a length.
    pub fn raw(&mut self, value: &[u8])
        ensures
            final(self)@ == old(self)@ + value@,
    {
        self.bytes.extend_from_slice(value);
        assert(self.bytes@ =~= old(self).bytes@ + value@);
    }

    /// Adds one byte.
    pub fn byte(&mut self, value: u8)
        ensures
            final(self)@ == old(self)@ + seq![value],
    {
        self.bytes.push(value);
        assert(self.bytes@ =~= old(self).bytes@ + seq![value]);
    }

    /// Adds a number as `width` big-endian bytes.
    fn big_endian(&mut self, value: u64, width: u8)
        ensures
            final(self)@ == old(self)@ + be_bytes(value as int, width as nat),
        decreases width,
    {
        if width > 0 {
            self.big_endian(value / 256, width - 1);
            self.bytes.push((value % 256) as u8);
            assert(self@ =~= old(self)@ + be_bytes(value as int, width as nat));
        } else {
            assert(self@ =~= old(self)@ + be_bytes(value as int, 0));
        }
    }

    /// Adds eight big-endian bytes.
    pub fn u64(&mut self, value: u64)
        ensures
            final(self)@ == old(self)@ + be_bytes(value as int, 8),
    {
        self.big_endian(value, 8);
    }

    /// Adds four big-endian bytes.
    pub fn u32(&mut self, value: u32)
        ensures
            final(self)@ == old(self)@ + be_bytes(value as int, 4),
    {
        self.big_endian(value as u64, 4);
    }

    /// Adds a length or a count as eight big-endian bytes.
    pub fn usize(&mut self, value: usize)
        ensures
            final(self)@ == old(self)@ + be_bytes(value as int, 8),
    {
        self.u64(value as u64);
    }

    /// Adds bytes behind their length.
    pub fn bytes(&mut self, value: &[u8])
        ensures
            final(self)@ == old(self)@ + enc_bytes(value@),
            value@.len() <= u64::MAX,
    {
        self.usize(value.len());
        self.raw(value);
        assert(self@ =~= old(self)@ + enc_bytes(value@));
    }

    /// Adds a text behind its length.
    pub fn string(&mut self, value: &str)
        ensures
            final(self)@ == old(self)@ + enc_text(value@),
            text_fits(value@),
    {
        self.bytes(value.as_bytes());
    }

    /// Adds a truth value.
    pub fn boolean(&mut self, value: bool)
        ensures
            final(self)@ == old(self)@ + enc_bool(value),
    {
        self.byte(
            if value {
                1
            } else {
                0
            },
        );
    }

    /// Adds an optional text behind a presence byte.
    pub fn optional_string(&mut self, value: Option<&str>)
        ensures
            final(self)@ == old(self)@ + enc_opt_text(
                match value {
                    Some(text) => Some(text@),
                    None => None,
                },
            ),
            value matches Some(text) ==> text_fits(text@),
    {
        match value {
            Some(text) => {
                self.boolean(true);
                self.string(text);
                assert(self@ =~= old(self)@ + enc_opt_text(Some(text@)));
            },
            None => {
                self.boolean(false);
            },
        }
    }

    /// SHA-256 digest of the collected bytes.
    pub fn digest(&self) -> (r: [u8; 32])
        ensures
            r@ == sha256(self@),
    {
        sha256_digest(&self.bytes)
    }

    /// Snapshot hash of the collected bytes.
    pub fn finish(self) -> (r: SnapshotHash)
        ensures
            r@ == hex_text(sha256(self@)),
    {
        let digest = self.digest();
        let text: String = encode_hex(&digest);
        proof {
            hex_text_is_lower_hex(digest@);
        }
        SnapshotHash::from_digits(text)
    }
}

proof fn hex_text_is_lower_hex(bytes: Seq<u8>)
    ensures
        forall|i: int|
            0 <= i < hex_text(bytes).len() ==> in_class(
                CharClass::LowerHex,
                #[trigger] hex_text(bytes)[i],
            ),
{
    assert forall|i: int| 0 <= i < hex_text(bytes).len() implies in_class(
        CharClass::LowerHex,
        #[trigger] hex_text(bytes)[i],
    ) by {
        let digit = if i % 2 == 0 {
            bytes[i / 2] as int / 16
        } else {
            bytes[i / 2] as int % 16
        };
        assert(hex_text(bytes)[i] == hex_digit(digit));
        assert(0 <= digit < 16);
    }
}

} // verus!
