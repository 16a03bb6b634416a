//! SHA-256 digests, their hexadecimal text and length-framed byte strings.

use sha2::Digest;
use vstd::prelude::*;

verus! {

/// The SHA-256 digest of a byte string.
pub uninterp spec fn sha256_digest(data: Seq<u8>) -> Seq<u8>;

/// `sha2::Sha256::digest`: the digest of the bytes, 32 bytes long.
#[verifier::external_body]
pub(crate) fn sha256(data: &[u8]) -> (result: Vec<u8>)
    ensures
        result@ == sha256_digest(data@),
        result@.len() == 32,
{
    sha2::Sha256::digest(data).to_vec()
}

/// The hexadecimal digit of a number below 16, in lower case.
pub open spec fn hex_char(nibble: int) -> char {
    if nibble == 0 {
        '0'
    } else if nibble == 1 {
        '1'
    } else if nibble == 2 {
        '2'
    } else if nibble == 3 {
        '3'
    } else if nibble == 4 {
        '4'
    } else if nibble == 5 {
        '5'
    } else if nibble == 6 {
        '6'
    } else if nibble == 7 {
        '7'
    } else if nibble == 8 {
        '8'
    } else if nibble == 9 {
        '9'
    } else if nibble == 10 {
        'a'
    } else if nibble == 11 {
        'b'
    } else if nibble == 12 {
        'c'
    } else if nibble == 13 {
        'd'
    } else if nibble == 14 {
        'e'
    } else {
        'f'
    }
}

/// The lower-case hexadecimal text of bytes: two digits for each.
pub open spec fn hex_text(bytes: Seq<u8>) -> Seq<char> {
    Seq::new(
        bytes.len() * 2,
        |i: int|
            if i % 2 == 0 {
                hex_char(bytes[i / 2] as int / 16)
            } else {
                hex_char(bytes[i / 2] as int % 16)
            },
    )
}

/// Whether a character is a lower-case hexadecimal digit.
pub open spec fn is_hex_char(c: char) -> bool {
    ('0' <= c <= '9') || ('a' <= c <= 'f')
}

/// Whether a text is `count` lower-case hexadecimal digits.
pub open spec fn is_hex_text(value: Seq<char>, count: nat) -> bool {
    value.len() == count && forall|i: int| 0 <= i < value.len() ==> is_hex_char(#[trigger] value[i])
}

/// The text of a digest is hexadecimal, two digits for each byte.
pub proof fn hex_text_is_hexadecimal(bytes: Seq<u8>)
    ensures
        is_hex_text(hex_text(bytes), bytes.len() * 2),
{
    assert forall|i: int| 0 <= i < hex_text(bytes).len() implies is_hex_char(#[trigger] hex_text(bytes)[i]) by {}
}

proof fn hex_char_is_injective(a: int, b: int)
    requires
        0 <= a < 16,
        0 <= b < 16,
        hex_char(a) == hex_char(b),
    ensures
        a == b,
{
}

proof fn hex_text_at(bytes: Seq<u8>, i: int)
    requires
        0 <= i < bytes.len(),
    ensures
        hex_text(bytes)[2 * i] == hex_char(bytes[i] as int / 16),
        hex_text(bytes)[2 * i + 1] == hex_char(bytes[i] as int % 16),
{
    let even = 2 * i;
    let odd = 2 * i + 1;
    assert(even % 2 == 0 && even / 2 == i);
    assert(odd % 2 == 1 && odd / 2 == i);
}

/// Different byte strings have different hexadecimal texts.
pub proof fn hex_text_is_injective(a: Seq<u8>, b: Seq<u8>)
    requires
        hex_text(a) == hex_text(b),
    ensures
        a == b,
{
    assert(hex_text(a).len() == a.len() * 2);
    assert(hex_text(b).len() == b.len() * 2);
    assert(a.len() == b.len());
    assert forall|i: int| 0 <= i < a.len() implies a[i] == b[i] by {
        hex_text_at(a, i);
        hex_text_at(b, i);
        hex_char_is_injective(a[i] as int / 16, b[i] as int / 16);
        hex_char_is_injective(a[i] as int % 16, b[i] as int % 16);
        assert(a[i] as int / 16 == b[i] as int / 16);
        assert(a[i] as int % 16 == b[i] as int % 16);
    }
    assert(a =~= b);
}

fn hex_digit(nibble: u8) -> (result: &'static str)
    requires
        nibble < 16,
    ensures
        result@ == seq![hex_char(nibble as int)],
{
    proof {
        reveal_strlit("0");
        reveal_strlit("1");
        reveal_strlit("2");
        reveal_strlit("3");
        reveal_strlit("4");
        reveal_strlit("5");
        reveal_strlit("6");
        reveal_strlit("7");
        reveal_strlit("8");
        reveal_strlit("9");
        reveal_strlit("a");
        reveal_strlit("b");
        reveal_strlit("c");
        reveal_strlit("d");
        reveal_strlit("e");
        reveal_strlit("f");
    }
    let result: &'static str = match nibble {
        0 => "0",
        1 => "1",
        2 => "2",
        3 => "3",
        4 => "4",
        5 => "5",
        6 => "6",
        7 => "7",
        8 => "8",
        9 => "9",
        10 => "a",
        11 => "b",
        12 => "c",
        13 => "d",
        14 => "e",
        _ => "f",
    };
    assert(result@ =~= seq![hex_char(nibble as int)]);
    result
}

/// The lower-case hexadecimal text of bytes.
pub fn hex(bytes: &[u8]) -> (result: String)
    ensures
        result@ == hex_text(bytes@),
{
    let mut result: String = String::new();
    let mut i: usize = 0;
    while i < bytes.len()
        invariant
            i <= bytes.len(),
            result@ == hex_text(bytes@.subrange(0, i as int)),
        decreases bytes.len() - i,
    {
        let byte: u8 = bytes[i];
        let ghost before = result@;
        result.append(hex_digit(byte / 16));
        result.append(hex_digit(byte % 16));
        proof {
            let next = hex_text(bytes@.subrange(0, i + 1));
            assert(next.len() == before.len() + 2);
            assert forall|k: int| 0 <= k < next.len() implies result@[k] == #[trigger] next[k] by {
                if k < before.len() {
                    assert(bytes@.subrange(0, i as int)[k / 2] == bytes@.subrange(0, i + 1)[k / 2]);
                } else {
                    assert(k / 2 == i as int);
                }
            }
            assert(result@ =~= next);
        }
        i = i + 1;
    }
    assert(bytes@.subrange(0, bytes.len() as int) =~= bytes@);
    result
}

/// Whether a text is `count` lower-case hexadecimal digits.
pub fn is_hex(value: &str, count: usize) -> (result: bool)
    ensures
        result == is_hex_text(value@, count as nat),
{
    if !value.is_ascii() {
        assert(!is_hex_text(value@, count as nat));
        return false;
    }
    proof {
        vstd::utf8::is_ascii_chars_encode_utf8(value@);
    }
    let bytes = value.as_bytes();
    if bytes.len() != count {
        return false;
    }
    let mut i: usize = 0;
    while i < bytes.len()
        invariant
            i <= bytes.len(),
            bytes@ == vstd::utf8::encode_utf8(value@),
            bytes.len() == count,
            value@.len() == bytes.len(),
            vstd::utf8::is_ascii_chars(value@),
            forall|k: int| 0 <= k < value@.len() ==> #[trigger] value@[k] as u8 == bytes@[k],
            forall|k: int| 0 <= k < i ==> is_hex_char(#[trigger] value@[k]),
        decreases bytes.len() - i,
    {
        let byte: u8 = bytes[i];
        assert(value@[i as int] as u8 == byte);
        if !((48 <= byte && byte <= 57) || (97 <= byte && byte <= 102)) {
            assert(!is_hex_char(value@[i as int]));
            return false;
        }
        i = i + 1;
    }
    true
}

/// Whether a text is the hexadecimal form of a SHA-256 digest.
pub fn is_sha256_hex(value: &str) -> (result: bool)
    ensures
        result == is_hex_text(value@, 64),
{
    is_hex(value, 64)
}

/// A number below 2^64 as eight bytes, the most significant first.
#[verifier::opaque]
pub open spec fn be64(number: int) -> Seq<u8> {
    seq![
        ((number / 0x100_0000_0000_0000) % 256) as u8,
        ((number / 0x1_0000_0000_0000) % 256) as u8,
        ((number / 0x100_0000_0000) % 256) as u8,
        ((number / 0x1_0000_0000) % 256) as u8,
        ((number / 0x100_0000) % 256) as u8,
        ((number / 0x1_0000) % 256) as u8,
        ((number / 0x100) % 256) as u8,
        (number % 256) as u8,
    ]
}

/// The number that a signed number is in two's complement.
pub open spec fn two_complement(number: i64) -> int {
    if number < 0 {
        number + 0x1_0000_0000_0000_0000
    } else {
        number as int
    }
}

/// A number takes eight bytes.
pub proof fn be64_len(number: int)
    ensures
        be64(number).len() == 8,
{
    reveal(be64);
}

proof fn same_quotient_step(a: int, b: int, unit: int)
    requires
        0 <= a,
        0 <= b,
        unit > 0,
        a / (unit * 256) == b / (unit * 256),
        (a / unit) % 256 == (b / unit) % 256,
    ensures
        a / unit == b / unit,
{
    vstd::arithmetic::div_mod::lemma_div_denominator(a, unit, 256);
    vstd::arithmetic::div_mod::lemma_div_denominator(b, unit, 256);
}

/// Eight bytes determine the number that they stand for.
pub proof fn be64_is_injective(a: int, b: int)
    requires
        0 <= a < 0x1_0000_0000_0000_0000,
        0 <= b < 0x1_0000_0000_0000_0000,
        be64(a) == be64(b),
    ensures
        a == b,
{
    reveal(be64);
    let x = be64(a);
    let y = be64(b);
    assert(x[0] == y[0] && x[1] == y[1] && x[2] == y[2] && x[3] == y[3]);
    assert(x[4] == y[4] && x[5] == y[5] && x[6] == y[6] && x[7] == y[7]);
    vstd::arithmetic::div_mod::lemma_div_denominator(a, 0x100_0000_0000_0000, 256);
    assert(a / 0x1_0000_0000_0000_0000 == 0 && b / 0x1_0000_0000_0000_0000 == 0);
    same_quotient_step(a, b, 0x100_0000_0000_0000);
    same_quotient_step(a, b, 0x1_0000_0000_0000);
    same_quotient_step(a, b, 0x100_0000_0000);
    same_quotient_step(a, b, 0x1_0000_0000);
    same_quotient_step(a, b, 0x100_0000);
    same_quotient_step(a, b, 0x1_0000);
    same_quotient_step(a, b, 0x100);
    same_quotient_step(a, b, 1);
}

/// Appends a number as eight bytes, the most significant first.
pub fn push_be64(bytes: &mut Vec<u8>, number: u64)
    ensures
        final(bytes)@ == old(bytes)@ + be64(number as int),
{
    reveal(be64);
    bytes.push(((number / 0x100_0000_0000_0000) % 256) as u8);
    bytes.push(((number / 0x1_0000_0000_0000) % 256) as u8);
    bytes.push(((number / 0x100_0000_0000) % 256) as u8);
    bytes.push(((number / 0x1_0000_0000) % 256) as u8);
    bytes.push(((number / 0x100_0000) % 256) as u8);
    bytes.push(((number / 0x1_0000) % 256) as u8);
    bytes.push(((number / 0x100) % 256) as u8);
    bytes.push((number % 256) as u8);
    assert(bytes@ =~= old(bytes)@ + be64(number as int));
}

/// The two's complement of a signed number.
pub fn unsigned_bits(number: i64) -> (result: u64)
    ensures
        result == two_complement(number),
{
    if number < 0 {
        (number as i128 + 0x1_0000_0000_0000_0000i128) as u64
    } else {
        number as u64
    }
}

/// Appends bytes.
pub fn push_bytes(bytes: &mut Vec<u8>, value: &[u8])
    ensures
        final(bytes)@ == old(bytes)@ + value@,
{
    let mut i: usize = 0;
    while i < value.len()
        invariant
            i <= value.len(),
            bytes@ == old(bytes)@ + value@.subrange(0, i as int),
        decreases value.len() - i,
    {
        bytes.push(value[i]);
        i = i + 1;
        assert(bytes@ =~= old(bytes)@ + value@.subrange(0, i as int));
    }
    assert(value@.subrange(0, value.len() as int) =~= value@);
}

/// A byte string behind its length.
pub open spec fn frame(value: Seq<u8>) -> Seq<u8> {
    be64(value.len() as int) + value
}

/// Byte strings one behind the other, each behind its length.
pub open spec fn frames(values: Seq<Seq<u8>>) -> Seq<u8>
    decreases values.len(),
{
    if values.len() == 0 {
        Seq::empty()
    } else {
        frames(values.drop_last()) + frame(values.last())
    }
}

/// Appends a byte string behind its length.
pub fn push_frame(bytes: &mut Vec<u8>, value: &[u8])
    ensures
        final(bytes)@ == old(bytes)@ + frame(value@),
{
    push_be64(bytes, value.len() as u64);
    push_bytes(bytes, value);
    assert(bytes@ =~= old(bytes)@ + frame(value@));
}

/// Framed byte strings from the front: the first frame, then the rest.
pub proof fn frames_from_the_front(values: Seq<Seq<u8>>)
    requires
        values.len() > 0,
    ensures
        frames(values) == frame(values[0]) + frames(values.drop_first()),
    decreases values.len(),
{
    if values.len() == 1 {
        assert(values.drop_last() =~= Seq::empty());
        assert(values.drop_first() =~= Seq::empty());
        assert(frames(values) =~= frame(values[0]) + frames(values.drop_first()));
    } else {
        frames_from_the_front(values.drop_last());
        assert(values.drop_last().drop_first() =~= values.drop_first().drop_last());
        assert(frames(values) =~= frame(values[0]) + frames(values.drop_first()));
    }
}

/// The framing tells lists of byte strings apart: lists of the same number of byte
/// strings with the same framed form are the same.
pub proof fn frames_are_injective(a: Seq<Seq<u8>>, b: Seq<Seq<u8>>)
    requires
        a.len() == b.len(),
        frames(a) == frames(b),
        forall|i: int| 0 <= i < a.len() ==> (#[trigger] a[i]).len() < 0x1_0000_0000_0000_0000,
        forall|i: int| 0 <= i < b.len() ==> (#[trigger] b[i]).len() < 0x1_0000_0000_0000_0000,
    ensures
        a == b,
    decreases a.len(),
{
    if a.len() == 0 {
        assert(a =~= b);
    } else {
        frames_from_the_front(a);
        frames_from_the_front(b);
        let fa = frames(a);
        be64_len(a[0].len() as int);
        be64_len(b[0].len() as int);
        let x = a[0];
        let y = b[0];
        assert(fa.subrange(0, 8) =~= be64(x.len() as int));
        assert(fa.subrange(0, 8) =~= be64(y.len() as int));
        be64_is_injective(x.len() as int, y.len() as int);
        assert(fa.subrange(8, 8 + x.len() as int) =~= x);
        assert(fa.subrange(8, 8 + y.len() as int) =~= y);
        let n = 8 + x.len() as int;
        assert(fa.subrange(n, fa.len() as int) =~= frames(a.drop_first()));
        assert(fa.subrange(n, fa.len() as int) =~= frames(b.drop_first()));
        frames_are_injective(a.drop_first(), b.drop_first());
        assert(a =~= seq![a[0]] + a.drop_first());
        assert(b =~= seq![b[0]] + b.drop_first());
    }
}

/// Whether two byte strings are the same.
pub fn same_bytes(a: &[u8], b: &[u8]) -> (result: bool)
    ensures
        result == (a@ == b@),
{
    if a.len() != b.len() {
        return false;
    }
    let mut i: usize = 0;
    while i < a.len()
        invariant
            i <= a.len(),
            a.len() == b.len(),
            forall|k: int| 0 <= k < i ==> a@[k] == b@[k],
        decreases a.len() - i,
    {
        if a[i] != b[i] {
            return false;
        }
        i = i + 1;
    }
    assert(a@ =~= b@);
    true
}

/// Two texts with one encoding are one text.
pub proof fn encoding_is_injective(a: Seq<char>, b: Seq<char>)
    requires
        vstd::utf8::encode_utf8(a) == vstd::utf8::encode_utf8(b),
    ensures
        a == b,
{
    vstd::utf8::encode_utf8_decode_utf8(a);
    vstd::utf8::encode_utf8_decode_utf8(b);
}

} // verus!
