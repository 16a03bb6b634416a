//! How strings are compared and written.

use vstd::prelude::*;

use crate::digest::{be64, frame, hex, hex_char, is_hex, is_sha256_hex, two_complement, unsigned_bits};
use crate::seal::{check_seal, seal_input, SealDomain, SealError, SealTable};
use crate::text::{
    characters_hold, has_control, is_blank, is_space, opt_text, same_option, same_texts, stands_at, text_lt, to_upper,
    upper_characters,
};

verus! {

/// Of two strings, the one with the lower character where they first differ stands first; one that
/// the other goes on from stands before it.
pub proof fn strings_are_ordered_by_their_first_difference(a: Seq<char>, b: Seq<char>, k: int)
    requires
        0 <= k <= a.len(),
        k <= b.len(),
        forall|i: int| 0 <= i < k ==> #[trigger] a[i] == b[i],
    ensures
        k < a.len() && k < b.len() && a[k] < b[k] ==> text_lt(a, b) && !text_lt(b, a),
        k == a.len() && k < b.len() ==> text_lt(a, b) && !text_lt(b, a),
        k == a.len() && k == b.len() ==> !text_lt(a, b) && !text_lt(b, a),
    decreases k,
{
    if k > 0 {
        let x = a.drop_first();
        let y = b.drop_first();
        assert forall|i: int| 0 <= i < k - 1 implies #[trigger] x[i] == y[i] by {
            assert(a[i + 1] == b[i + 1]);
        }
        strings_are_ordered_by_their_first_difference(x, y, k - 1);
        assert(a[0] == b[0]);
        if k < a.len() && k < b.len() {
            assert(x[k - 1] == a[k] && y[k - 1] == b[k]);
        }
    }
}

/// A small letter becomes the capital one, thirty-two places below it; any other character stays.
pub proof fn small_letters_become_capital(c: char, result: char)
    requires
        call_ensures(to_upper, (c,), result),
    ensures
        'a' <= c <= 'z' ==> result as int == c as int - 32,
        !('a' <= c <= 'z') ==> result == c,
{
}

/// Every character of a string becomes capital for itself.
pub proof fn every_letter_becomes_capital(value: &str, result: Vec<char>, i: int)
    requires
        call_ensures(upper_characters, (value,), result),
        0 <= i < value@.len(),
    ensures
        result@.len() == value@.len(),
        'a' <= value@[i] <= 'z' ==> result@[i] as int == value@[i] as int - 32,
        !('a' <= value@[i] <= 'z') ==> result@[i] == value@[i],
{
}

/// A string holds a part where it is some text, the part, and some text.
pub proof fn parts_stand_within_strings(value: &Vec<char>, part: &Vec<char>, held: bool, left: Seq<char>, right: Seq<char>)
    requires
        call_ensures(characters_hold, (value, part), held),
    ensures
        value@ == left + part@ + right ==> held,
        held ==> exists|l: Seq<char>, r: Seq<char>| value@ == #[trigger] (l + part@ + r),
{
    if value@ == left + part@ + right {
        let place = left.len() as int;
        assert(value@.subrange(place, place + part@.len()) =~= part@);
        assert(stands_at(value@, part@, place));
    }
    if held {
        let place = choose|place: int| #[trigger] stands_at(value@, part@, place);
        let l = value@.subrange(0, place);
        let r = value@.subrange(place + part@.len(), value@.len() as int);
        let middle = value@.subrange(place, place + part@.len());
        assert forall|i: int| 0 <= i < value@.len() implies value@[i] == (l + middle + r)[i] by {
            if place <= i < place + part@.len() {
                assert(middle[i - place] == value@[i]);
            }
        }
        assert(value@ =~= l + part@ + r);
    }
}

/// The space, the tab and the line feed are blank; a letter or a digit is not.
pub proof fn blanks_are_spaces(c: char, result: bool)
    requires
        call_ensures(is_space, (c,), result),
    ensures
        c == ' ' || '\u{9}' <= c <= '\u{d}' ==> result,
        c == '\u{85}' || c == '\u{a0}' || c == '\u{1680}' || '\u{2000}' <= c <= '\u{200a}' ==> result,
        c == '\u{2028}' || c == '\u{2029}' || c == '\u{202f}' || c == '\u{205f}' || c == '\u{3000}' ==> result,
        '!' <= c <= '~' ==> !result,
        result ==> c <= ' ' || '\u{85}' <= c <= '\u{3000}',
{
}

/// A string is blank where nothing but spaces stands in it.
pub proof fn blank_strings_hold_spaces_alone(value: &str, blank: bool, i: int)
    requires
        call_ensures(is_blank, (value,), blank),
    ensures
        value@.len() == 0 ==> blank,
        0 <= i < value@.len() && '!' <= value@[i] <= '~' ==> !blank,
        (forall|k: int| 0 <= k < value@.len() ==> #[trigger] value@[k] == ' ') ==> blank,
{
    if 0 <= i < value@.len() && blank {
        assert(crate::text::is_space_char(value@[i]));
    }
}

/// A string has a control character where one below the space or from the delete on to the end of
/// the second block stands in it.
pub proof fn control_characters_are_seen(value: &str, result: bool, i: int)
    requires
        call_ensures(has_control, (value,), result),
    ensures
        0 <= i < value@.len() && value@[i] < ' ' ==> result,
        0 <= i < value@.len() && '\u{7f}' <= value@[i] <= '\u{9f}' ==> result,
        (forall|k: int| 0 <= k < value@.len() ==> ' ' <= (#[trigger] value@[k]) <= '~' || value@[k] > '\u{9f}')
            ==> !result,
{
    if 0 <= i < value@.len() && crate::text::is_control_char(value@[i]) {
        assert(crate::text::holds_control(value@));
    }
}

/// Two texts that may be missing are the same where both are missing or both are there and equal.
pub proof fn missing_texts_are_the_same(a: &Option<String>, b: &Option<String>, result: bool)
    requires
        call_ensures(same_option, (a, b), result),
    ensures
        a is None && b is None ==> result,
        a is Some && b is Some ==> result == (a->0@ == b->0@),
        a is Some != b is Some ==> !result,
{
    assert(opt_text(*a) is Some <==> a is Some);
}

/// Two lists are the same where they hold the same texts at the same places.
pub proof fn lists_are_the_same_by_place(a: &Vec<String>, b: &Vec<String>, result: bool, i: int)
    requires
        call_ensures(same_texts, (a, b), result),
    ensures
        result ==> a@.len() == b@.len(),
        result && 0 <= i < a@.len() ==> a@[i]@ == b@[i]@,
        a@.len() == b@.len() && (forall|k: int| 0 <= k < a@.len() ==> (#[trigger] a@[k])@ == b@[k]@) ==> result,
{
    if result && 0 <= i < a@.len() {
        assert(crate::text::texts(a@)[i] == a@[i]@);
        assert(crate::text::texts(b@)[i] == b@[i]@);
    }
    if a@.len() == b@.len() && (forall|k: int| 0 <= k < a@.len() ==> (#[trigger] a@[k])@ == b@[k]@) {
        assert(crate::text::texts(a@) =~= crate::text::texts(b@));
    }
    if result {
        assert(crate::text::texts(a@).len() == crate::text::texts(b@).len());
    }
}

/// What a hexadecimal digit stands for.
pub open spec fn digit_value(c: char) -> int {
    if '0' <= c <= '9' {
        c as int - '0' as int
    } else {
        c as int - 'a' as int + 10
    }
}

/// Bytes are written as two hexadecimal digits each, the higher one first, in small letters.
pub proof fn bytes_are_written_as_digits(bytes: &[u8], result: String, i: int)
    requires
        call_ensures(hex, (bytes,), result),
        0 <= i < bytes@.len(),
    ensures
        result@.len() == 2 * bytes@.len(),
        bytes@[i] == 16 * digit_value(result@[2 * i]) + digit_value(result@[2 * i + 1]),
        '0' <= result@[2 * i] <= '9' || 'a' <= result@[2 * i] <= 'f',
        '0' <= result@[2 * i + 1] <= '9' || 'a' <= result@[2 * i + 1] <= 'f',
{
    let high = bytes@[i] as int / 16;
    let low = bytes@[i] as int % 16;
    assert((2 * i) / 2 == i && (2 * i) % 2 == 0);
    assert((2 * i + 1) / 2 == i && (2 * i + 1) % 2 == 1);
    assert(result@[2 * i] == hex_char(high));
    assert(result@[2 * i + 1] == hex_char(low));
    assert(0 <= high < 16 && 0 <= low < 16);
    assert(digit_value(hex_char(high)) == high);
    assert(digit_value(hex_char(low)) == low);
}

/// A text of digits has the length asked for and no other character than a small hexadecimal
/// digit; one of a digest has sixty-four of them.
pub proof fn digits_are_recognised(value: &str, count: usize, result: bool, digest: bool, i: int)
    requires
        call_ensures(is_hex, (value, count), result),
        call_ensures(is_sha256_hex, (value,), digest),
    ensures
        result ==> value@.len() == count,
        digest ==> value@.len() == 64,
        0 <= i < value@.len() && (result || digest) ==> '0' <= value@[i] <= '9' || 'a' <= value@[i] <= 'f',
        value@.len() == count && (forall|k: int|
            0 <= k < value@.len() ==> '0' <= (#[trigger] value@[k]) <= '9' || 'a' <= value@[k] <= 'f') ==> result,
        value@.len() == 64 && (forall|k: int|
            0 <= k < value@.len() ==> '0' <= (#[trigger] value@[k]) <= '9' || 'a' <= value@[k] <= 'f') ==> digest,
{
}

/// A number is written in eight bytes, the highest first.
pub proof fn numbers_are_written_from_the_highest_byte(number: int)
    requires
        0 <= number < 0x1_0000_0000_0000_0000,
    ensures
        be64(number).len() == 8,
        number == 0x100_0000_0000_0000 * be64(number)[0] + 0x1_0000_0000_0000 * be64(number)[1] + 0x100_0000_0000
            * be64(number)[2] + 0x1_0000_0000 * be64(number)[3] + 0x100_0000 * be64(number)[4] + 0x1_0000
            * be64(number)[5] + 0x100 * be64(number)[6] + be64(number)[7],
{
    reveal(be64);
    let a = number / 256;
    let b = number / 0x1_0000;
    let c = number / 0x100_0000;
    let d = number / 0x1_0000_0000;
    let e = number / 0x100_0000_0000;
    let f = number / 0x1_0000_0000_0000;
    let g = number / 0x100_0000_0000_0000;
    assert(b == a / 256);
    assert(c == b / 256);
    assert(d == c / 256);
    assert(e == d / 256);
    assert(f == e / 256);
    assert(g == f / 256);
    assert(0 <= g < 256);
    assert(number == 256 * a + number % 256);
    assert(a == 256 * b + a % 256);
    assert(b == 256 * c + b % 256);
    assert(c == 256 * d + c % 256);
    assert(d == 256 * e + d % 256);
    assert(e == 256 * f + e % 256);
    assert(f == 256 * g + f % 256);
}

/// A signed number below zero is told from an unsigned one by its highest bit.
pub proof fn negative_numbers_have_the_highest_bit(number: i64, result: u64)
    requires
        call_ensures(unsigned_bits, (number,), result),
    ensures
        number >= 0 ==> result == number,
        number < 0 ==> result == number + 0x1_0000_0000_0000_0000,
        number < 0 <==> result >= 0x8000_0000_0000_0000,
{
}

/// A framed value goes after its length.
pub proof fn frames_say_their_length(value: Seq<u8>)
    ensures
        frame(value).len() == 8 + value.len(),
        frame(value).subrange(0, 8) == be64(value.len() as int),
        frame(value).subrange(8, 8 + value.len() as int) == value,
{
    reveal(be64);
    let framed = frame(value);
    assert(framed.subrange(0, 8) =~= be64(value.len() as int));
    assert(framed.subrange(8, 8 + value.len() as int) =~= value);
}

/// The tables of a seal in their order, by their names.
pub proof fn sealed_tables_are_named(domain: SealDomain, place: usize, name: &'static str)
    requires
        call_ensures(SealDomain::at, (place,), domain),
        call_ensures(SealDomain::name, (domain,), name),
    ensures
        place == 0 ==> name@ == "completed_snapshots"@,
        place == 1 ==> name@ == "scans"@,
        place == 2 ==> name@ == "profiles"@,
        place == 3 ==> name@ == "profile_coverage"@,
        place == 4 ==> name@ == "nodes"@,
        place == 5 ==> name@ == "sites"@,
        place == 6 ==> name@ == "edges"@,
        place == 7 ==> name@ == "evidence"@,
        place == 8 ==> name@ == "diagnostics"@,
        place == 9 ==> name@ == "file_coverage"@,
        place == 10 ==> name@ == "coverage"@,
        place == 11 ==> name@ == "adapter_logs"@,
        place == 12 ==> name@ == "incremental_deltas"@,
        place == 13 ==> name@ == "build_attempts"@,
        place == 14 ==> name@ == "runtime_sessions"@,
        place == 15 ==> name@ == "runtime_nodes"@,
        place == 16 ==> name@ == "runtime_sites"@,
        place == 17 ==> name@ == "runtime_edges"@,
        place == 18 ==> name@ == "runtime_evidence"@,
        place == 19 ==> name@ == "runtime_diagnostics"@,
{
}

/// What is sealed begins with the name of the seal and the identity of the snapshot, each after its
/// length.
pub proof fn sealed_bytes_begin_with_the_snapshot(snapshot_id: &str, tables: &Vec<SealTable>, result: Vec<u8>)
    requires
        call_ensures(seal_input, (snapshot_id, tables), result),
    ensures
        (frame(vstd::utf8::encode_utf8("depgraph-completed-snapshot-storage-seal-v1"@)) + frame(
            vstd::utf8::encode_utf8(snapshot_id@),
        )).is_prefix_of(result@),
{
    let head = frame(vstd::utf8::encode_utf8("depgraph-completed-snapshot-storage-seal-v1"@)) + frame(
        vstd::utf8::encode_utf8(snapshot_id@),
    );
    assert(result@.subrange(0, head.len() as int) =~= head);
}

/// The values of a sealed row are tagged by what they are, and go after their tags.
pub proof fn sealed_values_say_what_they_are(number: i64, bits: u64, bytes: Seq<u8>)
    ensures
        crate::seal::value_bytes(crate::seal::ValueModel::Null) == frame(vstd::utf8::encode_utf8("null"@)),
        crate::seal::value_bytes(crate::seal::ValueModel::Integer(number)) == frame(
            vstd::utf8::encode_utf8("integer"@),
        ) + be64(two_complement(number)),
        crate::seal::value_bytes(crate::seal::ValueModel::Real(bits)) == frame(vstd::utf8::encode_utf8("real"@))
            + be64(bits as int),
        crate::seal::value_bytes(crate::seal::ValueModel::Text(bytes)) == frame(vstd::utf8::encode_utf8("text"@))
            + frame(bytes),
        crate::seal::value_bytes(crate::seal::ValueModel::Blob(bytes)) == frame(vstd::utf8::encode_utf8("blob"@))
            + frame(bytes),
{
}

/// A seal holds where one was stored and it is the one that was observed.
pub proof fn seals_hold_where_they_agree(stored: Option<&str>, observed: &str, result: Result<(), SealError>)
    requires
        call_ensures(check_seal, (stored, observed), result),
    ensures
        result is Ok <==> stored is Some && stored->0@ == observed@,
        stored is None ==> result matches Err(SealError::Missing),
        stored is Some && stored->0@ != observed@ ==> result matches Err(SealError::Mismatch),
{
}

} // verus!
