//! Strings: their order, their prefixes and the tests that the store makes on them.

use vstd::prelude::*;
use vstd::std_specs::iter::IteratorSpec;

verus! {

/// The order of strings: lexicographic by Unicode scalar value.
pub open spec fn text_lt(a: Seq<char>, b: Seq<char>) -> bool
    decreases a.len(),
{
    if b.len() == 0 {
        false
    } else if a.len() == 0 {
        true
    } else if a[0] != b[0] {
        a[0] < b[0]
    } else {
        text_lt(a.drop_first(), b.drop_first())
    }
}

/// The contents of a sequence of strings.
pub open spec fn texts(items: Seq<String>) -> Seq<Seq<char>> {
    Seq::new(items.len(), |i: int| items[i]@)
}

/// The contents of an optional string.
pub open spec fn opt_text(item: Option<String>) -> Option<Seq<char>> {
    match item {
        Some(value) => Some(value@),
        None => None,
    }
}

/// No string stands before itself.
pub proof fn text_lt_irreflexive(a: Seq<char>)
    ensures
        !text_lt(a, a),
    decreases a.len(),
{
    if a.len() > 0 {
        text_lt_irreflexive(a.drop_first());
    }
}

/// The order of strings is transitive.
pub proof fn text_lt_transitive(a: Seq<char>, b: Seq<char>, c: Seq<char>)
    requires
        text_lt(a, b),
        text_lt(b, c),
    ensures
        text_lt(a, c),
    decreases a.len(),
{
    if a.len() > 0 && a[0] == b[0] && b[0] == c[0] {
        text_lt_transitive(a.drop_first(), b.drop_first(), c.drop_first());
    }
}

/// Of two different strings one stands before the other.
pub proof fn text_lt_total(a: Seq<char>, b: Seq<char>)
    ensures
        a == b || text_lt(a, b) || text_lt(b, a),
    decreases a.len(),
{
    if a.len() == 0 || b.len() == 0 {
        if a.len() == b.len() {
            assert(a =~= b);
        }
    } else if a[0] == b[0] {
        text_lt_total(a.drop_first(), b.drop_first());
        if a.drop_first() == b.drop_first() {
            assert(a =~= seq![a[0]] + a.drop_first());
            assert(b =~= seq![b[0]] + b.drop_first());
        }
    }
}

/// Two strings do not stand before each other.
pub proof fn text_lt_asymmetric(a: Seq<char>, b: Seq<char>)
    requires
        text_lt(a, b),
    ensures
        !text_lt(b, a),
        a != b,
{
    text_lt_irreflexive(a);
    if text_lt(b, a) {
        text_lt_transitive(a, b, a);
    }
}

proof fn common_start_is_skipped(a: Seq<char>, b: Seq<char>, count: int)
    requires
        0 <= count <= a.len(),
        count <= b.len(),
        forall|k: int| 0 <= k < count ==> a[k] == b[k],
    ensures
        text_lt(a, b) == text_lt(a.subrange(count, a.len() as int), b.subrange(count, b.len() as int)),
    decreases count,
{
    if count > 0 {
        common_start_is_skipped(a.drop_first(), b.drop_first(), count - 1);
        assert(a.drop_first().subrange(count - 1, a.len() - 1) =~= a.subrange(count, a.len() as int));
        assert(b.drop_first().subrange(count - 1, b.len() - 1) =~= b.subrange(count, b.len() as int));
    } else {
        assert(a.subrange(0, a.len() as int) =~= a);
        assert(b.subrange(0, b.len() as int) =~= b);
    }
}

/// Whether a string stands before another.
pub(crate) fn less(a: &str, b: &str) -> (result: bool)
    ensures
        result == text_lt(a@, b@),
{
    let mut rest = b.chars();
    for c in it: a.chars()
        invariant
            it.seq() == a@,
            it.index() <= b@.len(),
            rest.remaining() == b@.subrange(it.index() as int, b@.len() as int),
            rest.obeys_prophetic_iter_laws(),
            forall|k: int| 0 <= k < it.index() ==> a@[k] == b@[k],
    {
        assert(a@[it.index() as int] == c);
        proof {
            common_start_is_skipped(a@, b@, it.index() as int);
        }
        match rest.next() {
            None => {
                return false;
            },
            Some(d) => {
                if c != d {
                    return c < d;
                }
            },
        }
    }
    proof {
        common_start_is_skipped(a@, b@, a@.len() as int);
    }
    rest.next().is_some()
}

/// Whether two strings hold the same characters.
pub(crate) fn same(a: &str, b: &str) -> (result: bool)
    ensures
        result == (a@ == b@),
{
    let left = a.as_bytes();
    let right = b.as_bytes();
    proof {
        vstd::utf8::encode_utf8_decode_utf8(a@);
        vstd::utf8::encode_utf8_decode_utf8(b@);
    }
    if left.len() != right.len() {
        return false;
    }
    let mut i: usize = 0;
    while i < left.len()
        invariant
            i <= left.len(),
            left.len() == right.len(),
            left@ == vstd::utf8::encode_utf8(a@),
            right@ == vstd::utf8::encode_utf8(b@),
            forall|k: int| 0 <= k < i ==> left@[k] == right@[k],
        decreases left.len() - i,
    {
        if left[i] != right[i] {
            return false;
        }
        i = i + 1;
    }
    assert(left@ =~= right@);
    true
}

/// `str::strip_prefix` of std with a string as the pattern: what follows the prefix
/// where the text starts with it, and nothing where it does not.
#[verifier::external_body]
pub(crate) fn after_prefix<'a>(value: &'a str, prefix: &str) -> (result: Option<&'a str>)
    ensures
        match result {
            Some(rest) => value@ == prefix@ + rest@,
            None => !prefix@.is_prefix_of(value@),
        },
{
    value.strip_prefix(prefix)
}

/// `String::from_utf8` of std: the text that the bytes encode where they are well-formed
/// UTF-8, and nothing where they are not.
#[verifier::external_body]
pub(crate) fn decode_text(bytes: Vec<u8>) -> (result: Option<String>)
    ensures
        match result {
            Some(text) => vstd::utf8::encode_utf8(text@) == bytes@,
            None => !vstd::utf8::valid_utf8(bytes@),
        },
{
    String::from_utf8(bytes).ok()
}

/// `String::push` of std: the character is appended to the text.
pub assume_specification[ String::push ](text: &mut String, character: char)
    ensures
        final(text)@ == old(text)@.push(character),
;

/// The number of bytes of a text in UTF-8.
pub open spec fn byte_len(value: Seq<char>) -> nat {
    vstd::utf8::encode_utf8(value).len()
}

/// Whether a character is a control character.
pub open spec fn is_control_char(c: char) -> bool {
    c <= '\u{1f}' || ('\u{7f}' <= c && c <= '\u{9f}')
}

/// Whether a character is white space.
pub open spec fn is_space_char(c: char) -> bool {
    ||| '\u{9}' <= c <= '\u{d}'
    ||| c == ' '
    ||| c == '\u{85}'
    ||| c == '\u{a0}'
    ||| c == '\u{1680}'
    ||| '\u{2000}' <= c <= '\u{200a}'
    ||| c == '\u{2028}'
    ||| c == '\u{2029}'
    ||| c == '\u{202f}'
    ||| c == '\u{205f}'
    ||| c == '\u{3000}'
}

/// Whether a character is white space.
pub fn is_space(c: char) -> (result: bool)
    ensures
        result == is_space_char(c),
{
    ('\u{9}' <= c && c <= '\u{d}') || c == ' ' || c == '\u{85}' || c == '\u{a0}' || c == '\u{1680}' || (
    '\u{2000}' <= c && c <= '\u{200a}') || c == '\u{2028}' || c == '\u{2029}' || c == '\u{202f}' || c
        == '\u{205f}' || c == '\u{3000}'
}

/// Whether nothing but spaces stands in a text.
pub open spec fn holds_only_space(value: Seq<char>) -> bool {
    forall|i: int| 0 <= i < value.len() ==> is_space_char(#[trigger] value[i])
}

/// Whether a text holds nothing but white space.
pub fn is_blank(value: &str) -> (result: bool)
    ensures
        result == holds_only_space(value@),
{
    for c in it: value.chars()
        invariant
            it.seq() == value@,
            forall|i: int| 0 <= i < it.index() ==> is_space_char(#[trigger] value@[i]),
    {
        if !is_space(c) {
            assert(value@[it.index() as int] == c);
            return false;
        }
    }
    true
}

/// Whether a control character stands in a text.
pub open spec fn holds_control(value: Seq<char>) -> bool {
    exists|i: int| 0 <= i < value.len() && is_control_char(#[trigger] value[i])
}

/// Whether a text holds a control character.
pub fn has_control(value: &str) -> (result: bool)
    ensures
        result == holds_control(value@),
{
    for c in it: value.chars()
        invariant
            it.seq() == value@,
            forall|i: int| 0 <= i < it.index() ==> !is_control_char(#[trigger] value@[i]),
    {
        if c <= '\u{1f}' || ('\u{7f}' <= c && c <= '\u{9f}') {
            assert(is_control_char(value@[it.index() as int]));
            return true;
        }
    }
    false
}

/// Whether two optional strings hold the same.
pub fn same_option(a: &Option<String>, b: &Option<String>) -> (result: bool)
    ensures
        result == (opt_text(*a) == opt_text(*b)),
{
    match (a, b) {
        (Some(a), Some(b)) => *a == *b,
        (None, None) => true,
        _ => false,
    }
}

/// Whether a string stands in a list.
pub fn contains_text(items: &Vec<String>, value: &str) -> (result: bool)
    ensures
        result == texts(items@).contains(value@),
{
    let mut i: usize = 0;
    while i < items.len()
        invariant
            i <= items.len(),
            forall|j: int| 0 <= j < i ==> items@[j]@ != value@,
        decreases items.len() - i,
    {
        if same(items[i].as_str(), value) {
            assert(texts(items@)[i as int] == value@);
            return true;
        }
        i = i + 1;
    }
    false
}

/// Whether two lists hold the same strings in the same order.
pub fn same_texts(a: &Vec<String>, b: &Vec<String>) -> (result: bool)
    ensures
        result == (texts(a@) == texts(b@)),
{
    if a.len() != b.len() {
        assert(texts(a@).len() != texts(b@).len());
        return false;
    }
    let mut i: usize = 0;
    while i < a.len()
        invariant
            i <= a.len(),
            a.len() == b.len(),
            forall|j: int| 0 <= j < i ==> a@[j]@ == b@[j]@,
        decreases a.len() - i,
    {
        if a[i] != b[i] {
            assert(texts(a@)[i as int] != texts(b@)[i as int]);
            return false;
        }
        i = i + 1;
    }
    assert(texts(a@) =~= texts(b@));
    true
}

/// A copy of a list of strings.
pub fn copy_texts(items: &Vec<String>) -> (result: Vec<String>)
    ensures
        result@ == items@,
{
    let mut result: Vec<String> = Vec::new();
    let mut i: usize = 0;
    while i < items.len()
        invariant
            i <= items.len(),
            result@ == items@.subrange(0, i as int),
        decreases items.len() - i,
    {
        result.push(items[i].clone());
        i = i + 1;
    }
    assert(items@.subrange(0, items.len() as int) =~= items@);
    result
}

/// The characters of a text.
pub fn characters(value: &str) -> (result: Vec<char>)
    ensures
        result@ == value@,
{
    let mut result: Vec<char> = Vec::new();
    for c in it: value.chars()
        invariant
            it.seq() == value@,
            result@ == value@.subrange(0, it.index() as int),
    {
        assert(value@[it.index() as int] == c);
        result.push(c);
        assert(result@ =~= value@.subrange(0, it.index() as int + 1));
    }
    assert(value@.subrange(0, value@.len() as int) =~= value@);
    result
}

/// Whether characters start with others.
pub(crate) fn same_characters(a: &Vec<char>, b: &Vec<char>, count: usize) -> (result: bool)
    requires
        count <= a.len(),
        count == b.len(),
    ensures
        result == (a@.subrange(0, count as int) == b@),
{
    let mut i: usize = 0;
    while i < count
        invariant
            i <= count,
            count <= a.len(),
            count == b.len(),
            forall|k: int| 0 <= k < i ==> a@[k] == b@[k],
        decreases count - i,
    {
        if a[i] != b[i] {
            assert(a@.subrange(0, count as int)[i as int] != b@[i as int]);
            return false;
        }
        i = i + 1;
    }
    assert(a@.subrange(0, count as int) =~= b@);
    true
}

/// An ASCII letter in upper case; other characters as they are.
pub open spec fn upper_char(c: char) -> char {
    if c == 'a' {
        'A'
    } else if c == 'b' {
        'B'
    } else if c == 'c' {
        'C'
    } else if c == 'd' {
        'D'
    } else if c == 'e' {
        'E'
    } else if c == 'f' {
        'F'
    } else if c == 'g' {
        'G'
    } else if c == 'h' {
        'H'
    } else if c == 'i' {
        'I'
    } else if c == 'j' {
        'J'
    } else if c == 'k' {
        'K'
    } else if c == 'l' {
        'L'
    } else if c == 'm' {
        'M'
    } else if c == 'n' {
        'N'
    } else if c == 'o' {
        'O'
    } else if c == 'p' {
        'P'
    } else if c == 'q' {
        'Q'
    } else if c == 'r' {
        'R'
    } else if c == 's' {
        'S'
    } else if c == 't' {
        'T'
    } else if c == 'u' {
        'U'
    } else if c == 'v' {
        'V'
    } else if c == 'w' {
        'W'
    } else if c == 'x' {
        'X'
    } else if c == 'y' {
        'Y'
    } else if c == 'z' {
        'Z'
    } else {
        c
    }
}

/// An ASCII letter in upper case; other characters as they are.
pub fn to_upper(c: char) -> (result: char)
    ensures
        result == upper_char(c),
{
    match c {
        'a' => 'A',
        'b' => 'B',
        'c' => 'C',
        'd' => 'D',
        'e' => 'E',
        'f' => 'F',
        'g' => 'G',
        'h' => 'H',
        'i' => 'I',
        'j' => 'J',
        'k' => 'K',
        'l' => 'L',
        'm' => 'M',
        'n' => 'N',
        'o' => 'O',
        'p' => 'P',
        'q' => 'Q',
        'r' => 'R',
        's' => 'S',
        't' => 'T',
        'u' => 'U',
        'v' => 'V',
        'w' => 'W',
        'x' => 'X',
        'y' => 'Y',
        'z' => 'Z',
        _ => c,
    }
}

/// A text with its ASCII letters in upper case.
pub open spec fn upper_text(value: Seq<char>) -> Seq<char> {
    Seq::new(value.len(), |i: int| upper_char(value[i]))
}

/// The characters of a text with its ASCII letters in upper case.
pub fn upper_characters(value: &str) -> (result: Vec<char>)
    ensures
        result@ == upper_text(value@),
{
    let mut result: Vec<char> = Vec::new();
    for c in it: value.chars()
        invariant
            it.seq() == value@,
            result@ == upper_text(value@).subrange(0, it.index() as int),
    {
        assert(value@[it.index() as int] == c);
        result.push(to_upper(c));
        assert(result@ =~= upper_text(value@).subrange(0, it.index() as int + 1));
    }
    assert(upper_text(value@).subrange(0, value@.len() as int) =~= upper_text(value@));
    result
}

/// Whether a text stands in another at a place.
pub open spec fn stands_at(value: Seq<char>, part: Seq<char>, place: int) -> bool {
    0 <= place && place + part.len() <= value.len() && value.subrange(place, place + part.len()) == part
}

/// Whether a text holds another.
pub open spec fn holds_part(value: Seq<char>, part: Seq<char>) -> bool {
    exists|place: int| #[trigger] stands_at(value, part, place)
}

/// Whether the characters hold the others in a row.
pub fn characters_hold(value: &Vec<char>, part: &Vec<char>) -> (result: bool)
    ensures
        result == holds_part(value@, part@),
{
    if part.len() > value.len() {
        return false;
    }
    let mut place: usize = 0;
    while place <= value.len() - part.len()
        invariant
            part.len() <= value.len(),
            place <= value.len() - part.len() + 1,
            forall|p: int| 0 <= p < place ==> !#[trigger] stands_at(value@, part@, p),
        decreases value.len() - part.len() + 1 - place,
    {
        let mut i: usize = 0;
        let mut equal: bool = true;
        while i < part.len() && equal
            invariant
                i <= part.len(),
                place + part.len() <= value.len(),
                equal ==> forall|k: int| 0 <= k < i ==> value@[place + k] == #[trigger] part@[k],
                !equal ==> !stands_at(value@, part@, place as int),
            decreases part.len() - i,
        {
            if value[place + i] != part[i] {
                equal = false;
                assert(value@.subrange(place as int, place + part@.len())[i as int] != part@[i as int]);
            }
            i = i + 1;
        }
        if equal {
            assert(value@.subrange(place as int, place + part@.len()) =~= part@);
            assert(stands_at(value@, part@, place as int));
            return true;
        }
        if place == value.len() - part.len() {
            proof {
                assert forall|p: int| !#[trigger] stands_at(value@, part@, p) by {}
            }
            return false;
        }
        place = place + 1;
    }
    false
}

} // verus!
