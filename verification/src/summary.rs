//! A scan attempt in bounded form: counts and samples over the effective rows of the scan
//! and of the builds and sessions over it.

use vstd::hash_map::StringHashMap;
use vstd::prelude::*;
use vstd::utf8::{encode_scalar, encode_utf8};

use crate::coverage::{
    count_status, coverage_union, coverage_union_is_unique, metadata_union, metadata_union_is_unique, resolved_as,
    union_coverage, union_runtime_coverage_metadata,
};
use crate::order::{
    collect, is_sorted_set, is_stable_order, is_stable_sort, sorted_set, sorted_set_is_unique, stable_sort,
    views,
};
use crate::records::{
    coverage_zero, AdapterLogRecord, AdapterLogSummaryRecord, CompletedSnapshotRecord,
    CoverageModel, CoverageRecord, FileCoverageRecord, FileCoverageSummaryRecord,
};
use crate::sort::{is_ranked_sort, sort_ranked, Ranked};
use crate::text::{
    byte_len, characters, copy_texts, less, opt_text, same, same_option, text_lt, text_lt_irreflexive, text_lt_total,
    text_lt_transitive, texts,
};

verus! {

/// The greatest number of groups of diagnostics that are shown.
pub const DOCTOR_SUMMARY_MAX_DIAGNOSTIC_GROUPS: usize = 64;

/// The greatest number of diagnostics that are shown as samples.
pub const DOCTOR_SUMMARY_MAX_DIAGNOSTIC_SAMPLES: usize = 5;

/// The greatest number of bytes of a key that are shown.
pub const DOCTOR_SUMMARY_MAX_KEY_BYTES: usize = 128;

/// The greatest number of bytes of a text that are shown.
pub const DOCTOR_SUMMARY_MAX_TEXT_BYTES: usize = 240;

// ---------------------------------------------------------------------------------------
// Bounded texts
// ---------------------------------------------------------------------------------------

/// Whether a text is the longest start of another that takes at most so many bytes.
pub open spec fn is_bounded_start(value: Seq<char>, most: int, start: Seq<char>) -> bool {
    &&& start.len() <= value.len()
    &&& start == value.subrange(0, start.len() as int)
    &&& byte_len(start) <= most
    &&& start.len() < value.len() ==> byte_len(value.subrange(0, start.len() as int + 1)) > most
}

proof fn one_more_character(value: Seq<char>, c: char)
    ensures
        byte_len(value.push(c)) == byte_len(value) + encode_scalar(c as u32).len(),
    decreases value.len(),
{
    let longer = value.push(c);
    if value.len() == 0 {
        assert(longer.drop_first() =~= Seq::<char>::empty());
        assert(encode_utf8(longer.drop_first()).len() == 0);
        assert(longer[0] == c);
    } else {
        one_more_character(value.drop_first(), c);
        assert(longer.drop_first() =~= value.drop_first().push(c));
        assert(longer[0] == value[0]);
    }
}

/// The number of bytes of a character in UTF-8.
fn width(c: char) -> (result: usize)
    ensures
        result == encode_scalar(c as u32).len(),
        1 <= result <= 4,
{
    let code: u32 = c as u32;
    if code <= 0x7f {
        1
    } else if code <= 0x7ff {
        2
    } else if code <= 0xffff {
        3
    } else {
        4
    }
}

/// The longest start of a text that takes at most so many bytes.
pub fn bounded_summary_text(value: &str, max_bytes: usize) -> (result: String)
    ensures
        is_bounded_start(value@, max_bytes as int, result@),
{
    let chars = characters(value);
    let mut result: String = String::new();
    let mut bytes: usize = 0;
    let mut i: usize = 0;
    assert(value@.subrange(0, 0) =~= Seq::empty());
    while i < chars.len()
        invariant
            i <= chars.len(),
            chars@ == value@,
            result@ == value@.subrange(0, i as int),
            bytes == byte_len(result@),
            bytes <= max_bytes,
        decreases chars.len() - i,
    {
        let c: char = chars[i];
        let more: usize = width(c);
        proof {
            one_more_character(result@, c);
            assert(value@.subrange(0, i + 1) =~= result@.push(c));
        }
        if more > max_bytes - bytes {
            return result;
        }
        result.push(c);
        bytes = bytes + more;
        i = i + 1;
    }
    result
}

/// A text, if there is one, cut to its longest start of at most so many bytes.
pub open spec fn is_bounded_option(value: Option<Seq<char>>, most: int, start: Option<Seq<char>>) -> bool {
    match (value, start) {
        (Some(value), Some(start)) => is_bounded_start(value, most, start),
        (None, None) => true,
        _ => false,
    }
}

/// A text that fits is shown whole.
pub proof fn short_texts_are_shown_whole(value: Seq<char>, most: int, start: Seq<char>)
    requires
        is_bounded_start(value, most, start),
        byte_len(value) <= most,
    ensures
        start == value,
{
    if start.len() < value.len() {
        start_is_no_longer(value, start.len() as int + 1);
    }
    assert(value.subrange(0, value.len() as int) =~= value);
}

proof fn start_is_no_longer(value: Seq<char>, count: int)
    requires
        0 <= count <= value.len(),
    ensures
        byte_len(value.subrange(0, count)) <= byte_len(value),
    decreases value.len() - count,
{
    if count < value.len() {
        start_is_no_longer(value, count + 1);
        one_more_character(value.subrange(0, count), value[count]);
        assert(value.subrange(0, count + 1) =~= value.subrange(0, count).push(value[count]));
    } else {
        assert(value.subrange(0, count) =~= value);
    }
}

// ---------------------------------------------------------------------------------------
// The least of each identity
// ---------------------------------------------------------------------------------------

/// The lesser of two texts.
pub open spec fn lesser_text(a: Seq<char>, b: Seq<char>) -> Seq<char> {
    if text_lt(b, a) {
        b
    } else {
        a
    }
}

/// The lesser of two texts that may be missing; a missing one counts for nothing.
pub open spec fn lesser_option(a: Option<Seq<char>>, b: Option<Seq<char>>) -> Option<Seq<char>> {
    match (a, b) {
        (Some(a), Some(b)) => Some(lesser_text(a, b)),
        (None, b) => b,
        (a, None) => a,
    }
}

/// Rows of which those with one identity are taken together, each column by its least
/// value.
pub trait Lowered: View + Sized {
    /// The identity of a row.
    spec fn identity(row: Self::V) -> Seq<char>;

    /// Two rows taken together.
    spec fn lower(a: Self::V, b: Self::V) -> Self::V;

    /// Rows of one identity keep it.
    proof fn lower_keeps_identity(a: Self::V, b: Self::V)
        requires
            Self::identity(a) == Self::identity(b),
        ensures
            Self::identity(Self::lower(a, b)) == Self::identity(a),
    ;

    /// The identity of the row.
    fn id(&self) -> (result: &String)
        ensures
            result@ == Self::identity(self@),
    ;

    /// Takes the row together with another.
    fn lower_by(&mut self, other: Self)
        ensures
            final(self)@ == Self::lower(old(self)@, other@),
    ;
}

/// What the first `count` rows with an identity amount to.
pub open spec fn lowest<T: Lowered>(rows: Seq<T::V>, id: Seq<char>, count: int) -> Option<T::V>
    decreases count,
{
    if count <= 0 {
        None
    } else {
        let before = lowest::<T>(rows, id, count - 1);
        if T::identity(rows[count - 1]) == id {
            match before {
                Some(before) => Some(T::lower(before, rows[count - 1])),
                None => Some(rows[count - 1]),
            }
        } else {
            before
        }
    }
}

/// The identities of rows.
pub open spec fn row_ids<T: Lowered>(rows: Seq<T::V>) -> Seq<Seq<char>> {
    Seq::new(rows.len(), |i: int| T::identity(rows[i]))
}

/// Whether rows hold each identity of others once, ascending, with what its rows amount to.
pub open spec fn are_lowest<T: Lowered>(rows: Seq<T::V>, result: Seq<T::V>) -> bool {
    &&& is_sorted_set(row_ids::<T>(result), row_ids::<T>(rows))
    &&& forall|i: int|
        0 <= i < result.len() ==> lowest::<T>(rows, T::identity(#[trigger] result[i]), rows.len() as int) == Some(
            result[i],
        )
}

/// What the rows of each identity amount to is determined.
pub proof fn lowest_rows_are_determined<T: Lowered>(rows: Seq<T::V>, a: Seq<T::V>, b: Seq<T::V>)
    requires
        are_lowest::<T>(rows, a),
        are_lowest::<T>(rows, b),
    ensures
        a == b,
{
    let a_ids = row_ids::<T>(a);
    let b_ids = row_ids::<T>(b);
    sorted_set_is_unique(a_ids, b_ids, row_ids::<T>(rows));
    assert(a_ids.len() == a.len() && b_ids.len() == b.len());
    assert forall|i: int| 0 <= i < a.len() implies a[i] == b[i] by {
        assert(a_ids[i] == T::identity(a[i]) && b_ids[i] == T::identity(b[i]));
        assert(lowest::<T>(rows, T::identity(a[i]), rows.len() as int) == Some(a[i]));
        assert(lowest::<T>(rows, T::identity(b[i]), rows.len() as int) == Some(b[i]));
    }
    assert(a =~= b);
}

/// The only row of an identity is what its rows amount to.
pub proof fn only_rows_are_lowest<T: Lowered>(rows: Seq<T::V>, place: int, count: int)
    requires
        0 <= count <= rows.len(),
        0 <= place < rows.len(),
        forall|i: int| 0 <= i < rows.len() && i != place ==> T::identity(#[trigger] rows[i]) != T::identity(rows[place]),
    ensures
        lowest::<T>(rows, T::identity(rows[place]), count) == if place < count {
            Some(rows[place])
        } else {
            None
        },
    decreases count,
{
    if count > 0 {
        only_rows_are_lowest::<T>(rows, place, count - 1);
        if count - 1 != place {
            assert(T::identity(rows[count - 1]) != T::identity(rows[place]));
        }
    }
}

proof fn lowest_keeps_identity<T: Lowered>(rows: Seq<T::V>, id: Seq<char>, count: int)
    requires
        0 <= count <= rows.len(),
    ensures
        match lowest::<T>(rows, id, count) {
            Some(row) => T::identity(row) == id,
            None => forall|i: int| 0 <= i < count ==> T::identity(#[trigger] rows[i]) != id,
        },
    decreases count,
{
    if count > 0 {
        lowest_keeps_identity::<T>(rows, id, count - 1);
        match lowest::<T>(rows, id, count - 1) {
            Some(before) => {
                if T::identity(rows[count - 1]) == id {
                    T::lower_keeps_identity(before, rows[count - 1]);
                }
            },
            None => {},
        }
    }
}

/// Whether slots hold what the first `count` rows amount to, each identity once.
spec fn are_slots<T: Lowered>(rows: Seq<T::V>, count: int, slots: Seq<T>, places: Map<Seq<char>, usize>) -> bool {
    &&& forall|i: int|
        0 <= i < slots.len() ==> lowest::<T>(rows, T::identity((#[trigger] slots[i])@), count) == Some(slots[i]@)
    &&& forall|i: int|
        0 <= i < slots.len() ==> places.contains_key(T::identity((#[trigger] slots[i])@))
            && places[T::identity(slots[i]@)] == i
    &&& forall|id: Seq<char>| #[trigger]
        places.contains_key(id) ==> places[id] < slots.len() && T::identity(slots[places[id] as int]@) == id
    &&& forall|i: int| 0 <= i < count ==> places.contains_key(T::identity(#[trigger] rows[i]))
}

proof fn slots_grow<T: Lowered>(
    rows: Seq<T::V>,
    count: int,
    slots: Seq<T>,
    places: Map<Seq<char>, usize>,
    after: Seq<T>,
    after_places: Map<Seq<char>, usize>,
)
    requires
        0 <= count < rows.len(),
        slots.len() <= usize::MAX,
        are_slots::<T>(rows, count, slots, places),
        ({
            let id = T::identity(rows[count]);
            if places.contains_key(id) {
                let place = places[id] as int;
                &&& after.len() == slots.len()
                &&& after[place]@ == T::lower(slots[place]@, rows[count])
                &&& forall|i: int| 0 <= i < slots.len() && i != place ==> after[i] == slots[i]
                &&& after_places == places
            } else {
                &&& after.len() == slots.len() + 1
                &&& forall|i: int| 0 <= i < slots.len() ==> after[i] == slots[i]
                &&& after[slots.len() as int]@ == rows[count]
                &&& after_places == places.insert(id, slots.len() as usize)
            }
        }),
    ensures
        are_slots::<T>(rows, count + 1, after, after_places),
{
    let id = T::identity(rows[count]);
    if places.contains_key(id) {
        let place = places[id] as int;
        lowest_keeps_identity::<T>(rows, id, count);
        T::lower_keeps_identity(slots[place]@, rows[count]);
        assert forall|i: int| 0 <= i < after.len() implies lowest::<T>(
            rows,
            T::identity((#[trigger] after[i])@),
            count + 1,
        ) == Some(after[i]@) by {
            if i != place {
                assert(after[i] == slots[i]);
                assert(T::identity(slots[i]@) != id);
            } else {
                assert(lowest::<T>(rows, T::identity(slots[place]@), count) == Some(slots[place]@));
            }
        }
        assert forall|i: int| 0 <= i < after.len() implies places.contains_key(T::identity((#[trigger] after[i])@))
            && places[T::identity(after[i]@)] == i by {
            if i != place {
                assert(after[i] == slots[i]);
            }
        }
        assert forall|other: Seq<char>| #[trigger] places.contains_key(other) implies places[other] < after.len()
            && T::identity(after[places[other] as int]@) == other by {
            if places[other] != place {
                assert(after[places[other] as int] == slots[places[other] as int]);
            }
        }
    } else {
        lowest_keeps_identity::<T>(rows, id, count);
        let n = slots.len() as int;
        if lowest::<T>(rows, id, count) is Some {
            let i = some_row::<T>(rows, id, count);
            assert(places.contains_key(T::identity(rows[i])));
        }
        assert forall|i: int| 0 <= i < after.len() implies lowest::<T>(
            rows,
            T::identity((#[trigger] after[i])@),
            count + 1,
        ) == Some(after[i]@) by {
            if i < n {
                assert(after[i] == slots[i]);
                assert(places.contains_key(T::identity(slots[i]@)));
            }
        }
        assert forall|i: int| 0 <= i < after.len() implies after_places.contains_key(
            T::identity((#[trigger] after[i])@),
        ) && after_places[T::identity(after[i]@)] == i by {
            if i < n {
                assert(after[i] == slots[i]);
                assert(places.contains_key(T::identity(slots[i]@)));
            }
        }
        assert forall|other: Seq<char>| #[trigger] after_places.contains_key(other) implies after_places[other]
            < after.len() && T::identity(after[after_places[other] as int]@) == other by {
            if other != id {
                assert(places.contains_key(other));
                assert(after[places[other] as int] == slots[places[other] as int]);
            }
        }
        assert forall|i: int| 0 <= i < count + 1 implies after_places.contains_key(
            T::identity(#[trigger] rows[i]),
        ) by {
            if i < count {
                assert(places.contains_key(T::identity(rows[i])));
            }
        }
    }
}

proof fn some_row<T: Lowered>(rows: Seq<T::V>, id: Seq<char>, count: int) -> (place: int)
    requires
        0 <= count <= rows.len(),
        lowest::<T>(rows, id, count) is Some,
    ensures
        0 <= place < count,
        T::identity(rows[place]) == id,
    decreases count,
{
    if T::identity(rows[count - 1]) == id {
        count - 1
    } else {
        some_row::<T>(rows, id, count - 1)
    }
}

/// Each identity of rows once, ascending, with the least value of each column.
pub fn lowest_by_id<T: Lowered>(rows: Vec<T>) -> (result: Vec<T>)
    ensures
        are_lowest::<T>(views(rows@), views(result@)),
{
    let ghost all = views(rows@);
    let ghost source = rows@;
    let mut slots: Vec<T> = Vec::new();
    let mut places: StringHashMap<usize> = StringHashMap::new();
    let mut keys: Vec<String> = Vec::new();
    for row in it: rows
        invariant
            it.seq() == source,
            all == views(source),
            are_slots::<T>(all, it.index() as int, slots@, places@),
            keys.len() == slots.len(),
            forall|k: int| 0 <= k < keys.len() ==> (#[trigger] keys@[k])@ == T::identity(slots@[k]@),
    {
        let ghost at = it.index() as int;
        assert(row == source[at]);
        assert(all[at] == row@);
        let ghost before = slots@;
        let ghost before_places = places@;
        let found: Option<usize> = match places.get(row.id().as_str()) {
            Some(place) => Some(*place),
            None => None,
        };
        match found {
            Some(place) => {
                assert(places@.contains_key(T::identity(row@)));
                let ghost id = T::identity(row@);
                proof {
                    lowest_keeps_identity::<T>(all, id, at);
                    T::lower_keeps_identity(slots@[place as int]@, row@);
                }
                slots[place].lower_by(row);
                proof {
                    slots_grow::<T>(all, at, before, before_places, slots@, places@);
                    assert forall|k: int| 0 <= k < keys.len() implies (#[trigger] keys@[k])@ == T::identity(
                        slots@[k]@,
                    ) by {
                        if k != place {
                            assert(slots@[k] == before[k]);
                        }
                    }
                }
            },
            None => {
                places.insert(row.id().clone(), slots.len());
                keys.push(row.id().clone());
                slots.push(row);
                proof {
                    slots_grow::<T>(all, at, before, before_places, slots@, places@);
                }
            },
        }
    }
    let ghost held = slots@;
    let result = stable_sort(slots, &keys);
    proof {
        let order = choose|order: Seq<usize>| #[trigger]
            is_stable_order(texts(keys@), order) && result@ == Seq::new(order.len(), |i: int| held[order[i] as int]);
        sorted_slots_are_lowest::<T>(all, held, places@, texts(keys@), order, result@);
    }
    result
}

proof fn sorted_slots_are_lowest<T: Lowered>(
    rows: Seq<T::V>,
    slots: Seq<T>,
    places: Map<Seq<char>, usize>,
    keys: Seq<Seq<char>>,
    order: Seq<usize>,
    result: Seq<T>,
)
    requires
        are_slots::<T>(rows, rows.len() as int, slots, places),
        keys.len() == slots.len(),
        slots.len() <= usize::MAX,
        forall|i: int| 0 <= i < keys.len() ==> #[trigger] keys[i] == T::identity(slots[i]@),
        is_stable_order(keys, order),
        result == Seq::new(order.len(), |i: int| slots[order[i] as int]),
    ensures
        are_lowest::<T>(rows, views(result)),
{
    let out = views(result);
    let ids = row_ids::<T>(out);
    let all = row_ids::<T>(rows);
    assert forall|i: int| 0 <= i < out.len() implies lowest::<T>(
        rows,
        T::identity(#[trigger] out[i]),
        rows.len() as int,
    ) == Some(out[i]) by {
        assert(out[i] == slots[order[i] as int]@);
    }
    assert forall|i: int, j: int| 0 <= i < j < ids.len() implies text_lt(#[trigger] ids[i], #[trigger] ids[j]) by {
        let a = order[i] as int;
        let b = order[j] as int;
        assert(crate::order::before(keys, a, b));
        assert(keys[a] == T::identity(slots[a]@));
        assert(keys[b] == T::identity(slots[b]@));
        if keys[a] == keys[b] {
            assert(places[T::identity(slots[a]@)] == a);
            assert(places[T::identity(slots[b]@)] == b);
        }
    }
    assert forall|id: Seq<char>| #[trigger] ids.contains(id) <==> all.contains(id) by {
        if ids.contains(id) {
            let i = choose|i: int| 0 <= i < ids.len() && ids[i] == id;
            assert(lowest::<T>(rows, T::identity(out[i]), rows.len() as int) == Some(out[i]));
            let j = some_row::<T>(rows, id, rows.len() as int);
            assert(all[j] == id);
        }
        if all.contains(id) {
            let j = choose|j: int| 0 <= j < all.len() && all[j] == id;
            assert(places.contains_key(T::identity(rows[j])));
            let p = places[id];
            assert(order.contains(p));
            let i = choose|i: int| 0 <= i < order.len() && order[i] == p;
            assert(out[i] == slots[p as int]@);
            assert(ids[i] == id);
        }
    }
}

// ---------------------------------------------------------------------------------------
// Profiles, packages and sites
// ---------------------------------------------------------------------------------------

/// A row with one text: the language of a profile, or the status of a site.
#[derive(Debug, Clone)]
pub struct IdText {
    pub id: String,
    pub text: String,
}

/// The value of a row with one text.
#[verifier::ext_equal]
pub struct IdTextModel {
    pub id: Seq<char>,
    pub text: Seq<char>,
}

impl View for IdText {
    type V = IdTextModel;

    open spec fn view(&self) -> IdTextModel {
        IdTextModel { id: self.id@, text: self.text@ }
    }
}

impl Lowered for IdText {
    open spec fn identity(row: IdTextModel) -> Seq<char> {
        row.id
    }

    open spec fn lower(a: IdTextModel, b: IdTextModel) -> IdTextModel {
        IdTextModel { id: a.id, text: lesser_text(a.text, b.text) }
    }

    proof fn lower_keeps_identity(a: IdTextModel, b: IdTextModel) {
    }

    fn id(&self) -> (result: &String) {
        &self.id
    }

    fn lower_by(&mut self, other: IdText) {
        if less(other.text.as_str(), self.text.as_str()) {
            self.text = other.text;
        }
    }
}

/// The texts of rows.
pub open spec fn texts_of(rows: Seq<IdTextModel>) -> Seq<Seq<char>> {
    Seq::new(rows.len(), |i: int| rows[i].text)
}

/// The least text of each identity.
fn least_texts(rows: Vec<IdText>) -> (result: Vec<String>)
    ensures
        exists|lowest: Seq<IdTextModel>| #[trigger]
            are_lowest::<IdText>(views(rows@), lowest) && texts(result@) == texts_of(lowest),
{
    let low = lowest_by_id(rows);
    let ghost model = views(low@);
    let ghost held = low@;
    let mut result: Vec<String> = Vec::new();
    for row in it: low
        invariant
            it.seq() == held,
            result.len() == it.index(),
            forall|k: int| 0 <= k < result.len() ==> (#[trigger] result@[k])@ == held[k].text@,
    {
        assert(row == held[it.index() as int]);
        result.push(row.text);
    }
    assert(texts(result@) =~= texts_of(model));
    assert(are_lowest::<IdText>(views(rows@), model));
    result
}

/// Whether counts are those of each text, the texts each once, ascending.
pub open spec fn are_counts(all: Seq<Seq<char>>, counts: Seq<(String, u64)>) -> bool {
    &&& is_sorted_set(Seq::new(counts.len(), |i: int| counts[i].0@), all)
    &&& forall|i: int| 0 <= i < counts.len() ==> (#[trigger] counts[i]).1 == resolved_as(all, counts[i].0@)
}

/// Whether a summary counts the profiles among rows, and those of each language, each profile
/// once, with the least of its languages.
pub open spec fn is_profile_summary(rows: Seq<IdText>, count: u64, by_language: Seq<(String, u64)>) -> bool {
    exists|lowest: Seq<IdTextModel>| #[trigger]
        are_lowest::<IdText>(views(rows), lowest) && count == lowest.len() && are_counts(texts_of(lowest), by_language)
}

/// How many profiles there are, and how many of each language. `rows` are the profiles of
/// the scan and of what lies over it, each with its language; a profile that is there more
/// than once counts once, with the least of its languages.
pub fn effective_profile_summary(rows: Vec<IdText>) -> (result: (u64, Vec<(String, u64)>))
    ensures
        is_profile_summary(rows@, result.0, result.1@),
{
    let languages = least_texts(rows);
    let ghost lowest = choose|lowest: Seq<IdTextModel>| #[trigger]
        are_lowest::<IdText>(views(rows@), lowest) && texts(languages@) == texts_of(lowest);
    let names = sorted_set(copy_texts(&languages));
    let ghost keys = texts(names@);
    let mut counts: Vec<(String, u64)> = Vec::new();
    for name in it: names
        invariant
            keys == texts(it.seq()),
            counts.len() == it.index(),
            forall|k: int|
                0 <= k < counts.len() ==> (#[trigger] counts@[k]).0@ == keys[k] && counts@[k].1 == resolved_as(
                    texts(languages@),
                    keys[k],
                ),
    {
        assert(name@ == keys[it.index() as int]);
        let count: u64 = count_status(&languages, name.as_str());
        counts.push((name, count));
    }
    assert(Seq::new(counts@.len(), |i: int| counts@[i].0@) =~= keys);
    assert(texts_of(lowest).len() == lowest.len());
    (languages.len() as u64, counts)
}

/// How many sites there are, and how many of each resolution.
#[derive(Debug, Clone, Copy, PartialEq, Eq, Structural)]
pub struct SiteSummary {
    pub dependency_sites: u64,
    pub resolved: u64,
    pub candidates: u64,
    pub external: u64,
    pub unresolved: u64,
}

/// Whether counts are those of statuses.
pub open spec fn is_site_summary(statuses: Seq<Seq<char>>, summary: SiteSummary) -> bool {
    &&& summary.dependency_sites == statuses.len()
    &&& summary.resolved == resolved_as(statuses, "resolved"@)
    &&& summary.candidates == resolved_as(statuses, "candidates"@)
    &&& summary.external == resolved_as(statuses, "external"@)
    &&& summary.unresolved == resolved_as(statuses, "unresolved"@)
}

/// Whether a summary counts the sites among rows, and those of each resolution, each site once,
/// with the least of its statuses.
pub open spec fn is_effective_site_summary(rows: Seq<IdText>, summary: SiteSummary) -> bool {
    exists|lowest: Seq<IdTextModel>| #[trigger]
        are_lowest::<IdText>(views(rows), lowest) && is_site_summary(texts_of(lowest), summary)
}

/// How many sites there are, and how many of each resolution. `rows` are the sites of the
/// scan and of what lies over it, each with its status; a site that is there more than once
/// counts once, with the least of its statuses.
pub fn effective_site_summary(rows: Vec<IdText>) -> (result: SiteSummary)
    ensures
        is_effective_site_summary(rows@, result),
{
    let statuses = least_texts(rows);
    assert(texts(statuses@).len() == statuses@.len());
    SiteSummary {
        dependency_sites: statuses.len() as u64,
        resolved: count_status(&statuses, "resolved"),
        candidates: count_status(&statuses, "candidates"),
        external: count_status(&statuses, "external"),
        unresolved: count_status(&statuses, "unresolved"),
    }
}

/// Whether there are so many different identities.
pub open spec fn is_distinct_count(ids: Seq<Seq<char>>, count: u64) -> bool {
    exists|distinct: Seq<Seq<char>>| #[trigger] is_sorted_set(distinct, ids) && count == distinct.len()
}

/// How many different identities there are.
pub fn effective_package_instance_count(ids: Vec<String>) -> (result: u64)
    ensures
        is_distinct_count(texts(ids@), result),
{
    let distinct = sorted_set(ids);
    assert(texts(distinct@).len() == distinct@.len());
    distinct.len() as u64
}

// ---------------------------------------------------------------------------------------
// Files and logs
// ---------------------------------------------------------------------------------------

/// Why there is no summary.
#[derive(Debug, Clone, Copy, PartialEq, Eq, Structural)]
pub enum SummaryError {
    /// A total is greater than the store can count.
    TotalTooLarge,
}

/// What the first `count` files of an adapter add up to in a column.
pub open spec fn column_total(
    rows: Seq<FileCoverageRecord>,
    adapter: Seq<char>,
    count: int,
    column: spec_fn(FileCoverageRecord) -> nat,
) -> nat
    decreases count,
{
    if count <= 0 {
        0
    } else {
        column_total(rows, adapter, count - 1, column) + (if rows[count - 1].adapter@ == adapter {
            column(rows[count - 1])
        } else {
            0
        })
    }
}

/// Every file counts as one.
pub open spec fn each_file() -> spec_fn(FileCoverageRecord) -> nat {
    |row: FileCoverageRecord| 1nat
}

/// Every skipped file counts as one.
pub open spec fn each_skipped_file() -> spec_fn(FileCoverageRecord) -> nat {
    |row: FileCoverageRecord|
        if row.skipped {
            1nat
        } else {
            0nat
        }
}

/// The sites that were discovered.
pub open spec fn discovered() -> spec_fn(FileCoverageRecord) -> nat {
    |row: FileCoverageRecord| row.discovered_sites as nat
}

/// The sites that were emitted.
pub open spec fn emitted() -> spec_fn(FileCoverageRecord) -> nat {
    |row: FileCoverageRecord| row.emitted_sites as nat
}

/// The sites that were skipped.
pub open spec fn skipped() -> spec_fn(FileCoverageRecord) -> nat {
    |row: FileCoverageRecord| row.skipped_sites as nat
}

/// The adapters of files.
pub open spec fn file_adapters(rows: Seq<FileCoverageRecord>) -> Seq<Seq<char>> {
    Seq::new(rows.len(), |i: int| rows[i].adapter@)
}

/// Whether the totals of an adapter can be counted.
pub open spec fn totals_fit(rows: Seq<FileCoverageRecord>, adapter: Seq<char>) -> bool {
    let count = rows.len() as int;
    &&& column_total(rows, adapter, count, discovered()) <= i64::MAX
    &&& column_total(rows, adapter, count, emitted()) <= i64::MAX
    &&& column_total(rows, adapter, count, skipped()) <= i64::MAX
}

/// Whether a summary holds the totals of its adapter.
pub open spec fn is_file_summary(rows: Seq<FileCoverageRecord>, summary: FileCoverageSummaryRecord) -> bool {
    let adapter = summary.adapter@;
    let count = rows.len() as int;
    &&& summary.files == column_total(rows, adapter, count, each_file())
    &&& summary.skipped_files == column_total(rows, adapter, count, each_skipped_file())
    &&& summary.discovered_sites == column_total(rows, adapter, count, discovered())
    &&& summary.emitted_sites == column_total(rows, adapter, count, emitted())
    &&& summary.skipped_sites == column_total(rows, adapter, count, skipped())
}

/// The adapters of summaries.
pub open spec fn summary_adapters(summaries: Seq<FileCoverageSummaryRecord>) -> Seq<Seq<char>> {
    Seq::new(summaries.len(), |i: int| summaries[i].adapter@)
}

fn adapter_summary(rows: &Vec<FileCoverageRecord>, adapter: String) -> (result: Option<FileCoverageSummaryRecord>)
    ensures
        match result {
            Some(summary) => totals_fit(rows@, adapter@) && summary.adapter == adapter && is_file_summary(
                rows@,
                summary,
            ),
            None => !totals_fit(rows@, adapter@),
        },
{
    let ghost key = adapter@;
    let mut files: u64 = 0;
    let mut skipped_files: u64 = 0;
    let mut discovered_sites: u128 = 0;
    let mut emitted_sites: u128 = 0;
    let mut skipped_sites: u128 = 0;
    let mut i: usize = 0;
    while i < rows.len()
        invariant
            i <= rows.len(),
            key == adapter@,
            files == column_total(rows@, key, i as int, each_file()),
            skipped_files == column_total(rows@, key, i as int, each_skipped_file()),
            discovered_sites == column_total(rows@, key, i as int, discovered()),
            emitted_sites == column_total(rows@, key, i as int, emitted()),
            skipped_sites == column_total(rows@, key, i as int, skipped()),
            files <= i,
            skipped_files <= i,
            discovered_sites <= i * u64::MAX,
            emitted_sites <= i * u64::MAX,
            skipped_sites <= i * u64::MAX,
        decreases rows.len() - i,
    {
        let row = &rows[i];
        if same(row.adapter.as_str(), adapter.as_str()) {
            files = files + 1;
            if row.skipped {
                skipped_files = skipped_files + 1;
            }
            discovered_sites = discovered_sites + row.discovered_sites as u128;
            emitted_sites = emitted_sites + row.emitted_sites as u128;
            skipped_sites = skipped_sites + row.skipped_sites as u128;
        }
        i = i + 1;
    }
    let most: u128 = i64::MAX as u128;
    if discovered_sites > most || emitted_sites > most || skipped_sites > most {
        return None;
    }
    Some(
        FileCoverageSummaryRecord {
            adapter,
            files,
            skipped_files,
            discovered_sites: discovered_sites as u64,
            emitted_sites: emitted_sites as u64,
            skipped_sites: skipped_sites as u64,
        },
    )
}

/// Whether every total of a file ledger can be counted.
pub open spec fn all_totals_fit(rows: Seq<FileCoverageRecord>) -> bool {
    forall|i: int| 0 <= i < rows.len() ==> totals_fit(rows, (#[trigger] rows[i]).adapter@)
}

/// Whether summaries are the totals of a file ledger, by adapter, ascending.
pub open spec fn are_file_summaries(rows: Seq<FileCoverageRecord>, summaries: Seq<FileCoverageSummaryRecord>) -> bool {
    &&& is_sorted_set(summary_adapters(summaries), file_adapters(rows))
    &&& forall|i: int| 0 <= i < summaries.len() ==> is_file_summary(rows, #[trigger] summaries[i])
}

/// The file ledger in total, by adapter.
pub fn file_coverage_summary(rows: &Vec<FileCoverageRecord>) -> (result: Result<
    Vec<FileCoverageSummaryRecord>,
    SummaryError,
>)
    ensures
        match result {
            Ok(summaries) => all_totals_fit(rows@) && are_file_summaries(rows@, summaries@),
            Err(_) => !all_totals_fit(rows@),
        },
{
    let mut names: Vec<String> = Vec::new();
    let mut i: usize = 0;
    while i < rows.len()
        invariant
            i <= rows.len(),
            names.len() == i,
            forall|k: int| 0 <= k < i ==> (#[trigger] names@[k])@ == rows@[k].adapter@,
        decreases rows.len() - i,
    {
        names.push(rows[i].adapter.clone());
        i = i + 1;
    }
    assert(texts(names@) =~= file_adapters(rows@));
    let adapters = sorted_set(names);
    let ghost keys = texts(adapters@);
    let mut summaries: Vec<FileCoverageSummaryRecord> = Vec::new();
    for adapter in it: adapters
        invariant
            keys == texts(it.seq()),
            is_sorted_set(keys, file_adapters(rows@)),
            summaries.len() == it.index(),
            forall|k: int|
                0 <= k < summaries.len() ==> (#[trigger] summaries@[k]).adapter@ == keys[k] && is_file_summary(
                    rows@,
                    summaries@[k],
                ) && totals_fit(rows@, keys[k]),
    {
        let ghost at = it.index() as int;
        assert(adapter@ == keys[at]);
        match adapter_summary(rows, adapter) {
            Some(summary) => {
                summaries.push(summary);
            },
            None => {
                proof {
                    assert(keys.contains(keys[at]));
                    assert(file_adapters(rows@).contains(keys[at]));
                    let i = choose|i: int| 0 <= i < file_adapters(rows@).len() && file_adapters(rows@)[i] == keys[at];
                    assert(rows@[i].adapter@ == keys[at]);
                }
                return Err(SummaryError::TotalTooLarge);
            },
        }
    }
    proof {
        assert(summary_adapters(summaries@) =~= keys);
        assert forall|i: int| 0 <= i < rows@.len() implies totals_fit(rows@, (#[trigger] rows@[i]).adapter@) by {
            assert(file_adapters(rows@)[i] == rows@[i].adapter@);
            assert(file_adapters(rows@).contains(rows@[i].adapter@));
            assert(keys.contains(rows@[i].adapter@));
            let k = choose|k: int| 0 <= k < keys.len() && keys[k] == rows@[i].adapter@;
            assert(summaries@[k].adapter@ == keys[k]);
        }
    }
    Ok(summaries)
}

/// The adapters of logs.
pub open spec fn log_adapters(logs: Seq<AdapterLogRecord>) -> Seq<Seq<char>> {
    Seq::new(logs.len(), |i: int| logs[i].adapter@)
}

/// Whether a summary gives the size of a log.
pub open spec fn is_log_summary(log: AdapterLogRecord, summary: AdapterLogSummaryRecord) -> bool {
    summary.adapter@ == log.adapter@ && summary.stderr_bytes == byte_len(log.stderr@) && summary.truncated
        == log.truncated
}

/// Whether summaries give the sizes of logs, by adapter, ascending.
pub open spec fn are_log_summaries(logs: Seq<AdapterLogRecord>, summaries: Seq<AdapterLogSummaryRecord>) -> bool {
    exists|sorted: Seq<AdapterLogRecord>|
        {
            &&& #[trigger] is_stable_sort(logs, log_adapters(logs), sorted)
            &&& summaries.len() == sorted.len()
            &&& forall|i: int| 0 <= i < sorted.len() ==> is_log_summary(sorted[i], #[trigger] summaries[i])
        }
}

/// The sizes of logs, by adapter.
pub fn adapter_log_summaries(logs: Vec<AdapterLogRecord>) -> (result: Vec<AdapterLogSummaryRecord>)
    ensures
        are_log_summaries(logs@, result@),
{
    let mut keys: Vec<String> = Vec::new();
    let mut i: usize = 0;
    while i < logs.len()
        invariant
            i <= logs.len(),
            keys.len() == i,
            forall|k: int| 0 <= k < i ==> (#[trigger] keys@[k])@ == logs@[k].adapter@,
        decreases logs.len() - i,
    {
        keys.push(logs[i].adapter.clone());
        i = i + 1;
    }
    assert(texts(keys@) =~= log_adapters(logs@));
    let sorted = stable_sort(logs, &keys);
    let ghost source = sorted@;
    let mut result: Vec<AdapterLogSummaryRecord> = Vec::new();
    for log in it: sorted
        invariant
            it.seq() == source,
            result.len() == it.index(),
            forall|k: int| 0 <= k < result.len() ==> is_log_summary(source[k], #[trigger] result@[k]),
    {
        assert(log == source[it.index() as int]);
        let stderr_bytes: u64 = log.stderr.as_str().as_bytes().len() as u64;
        result.push(AdapterLogSummaryRecord { adapter: log.adapter, stderr_bytes, truncated: log.truncated });
    }
    assert(is_stable_sort(logs@, log_adapters(logs@), source));
    result
}

// ---------------------------------------------------------------------------------------
// Coverage
// ---------------------------------------------------------------------------------------

/// Coverage united with that of the first `count` builds.
pub open spec fn with_builds(coverage: CoverageModel, builds: Seq<CoverageRecord>, count: int) -> CoverageModel
    decreases count,
{
    if count <= 0 {
        coverage
    } else {
        coverage_union(with_builds(coverage, builds, count - 1), builds[count - 1]@)
    }
}

/// Coverage united with what the first `count` sessions say of the whole.
pub open spec fn with_sessions(coverage: CoverageModel, sessions: Seq<CoverageRecord>, count: int) -> CoverageModel
    decreases count,
{
    if count <= 0 {
        coverage
    } else {
        metadata_union(with_sessions(coverage, sessions, count - 1), sessions[count - 1]@)
    }
}

/// The coverage that a summary starts from: the stored one, else none with a reason.
pub open spec fn stored_or_unavailable(stored: Option<CoverageRecord>) -> CoverageModel {
    match stored {
        Some(coverage) => coverage@,
        None => CoverageModel { reasons: seq!["final worker coverage unavailable"@], ..coverage_zero() },
    }
}

/// The coverage of a summary: that of the scan, united with that of builds and with what
/// sessions say of the whole, its profiles and sites counted anew.
pub open spec fn summary_coverage_of(
    stored: Option<CoverageRecord>,
    scan_executed: bool,
    builds: Seq<CoverageRecord>,
    sessions: Seq<CoverageRecord>,
    profiles: u64,
    sites: SiteSummary,
) -> CoverageModel {
    let start = CoverageModel { project_code_executed: scan_executed, ..stored_or_unavailable(stored) };
    let united = with_sessions(
        with_builds(start, builds, builds.len() as int),
        sessions,
        sessions.len() as int,
    );
    CoverageModel {
        profiles,
        dependency_sites: sites.dependency_sites,
        resolved: sites.resolved,
        candidates: sites.candidates,
        external: sites.external,
        unresolved: sites.unresolved,
        ..united
    }
}

/// The coverage of a summary.
pub fn summary_coverage(
    stored: Option<CoverageRecord>,
    scan_executed: bool,
    builds: &Vec<CoverageRecord>,
    sessions: &Vec<CoverageRecord>,
    profiles: u64,
    sites: SiteSummary,
) -> (result: CoverageRecord)
    ensures
        result@ == summary_coverage_of(stored, scan_executed, builds@, sessions@, profiles, sites),
{
    let mut coverage: CoverageRecord = match stored {
        Some(coverage) => coverage,
        None => {
            let mut coverage = CoverageRecord::default();
            let mut reasons: Vec<String> = Vec::new();
            reasons.push(String::from_str("final worker coverage unavailable"));
            assert(texts(reasons@) =~= seq!["final worker coverage unavailable"@]);
            coverage.reasons = reasons;
            coverage
        },
    };
    assert(coverage@ == stored_or_unavailable(stored));
    coverage.project_code_executed = scan_executed;
    let ghost start = coverage@;
    let mut i: usize = 0;
    while i < builds.len()
        invariant
            i <= builds.len(),
            coverage@ == with_builds(start, builds@, i as int),
        decreases builds.len() - i,
    {
        let ghost before = coverage@;
        union_coverage(&mut coverage, &builds[i]);
        proof {
            coverage_union_is_unique(before, builds@[i as int]@, coverage@);
        }
        i = i + 1;
    }
    let ghost united = coverage@;
    let mut i: usize = 0;
    while i < sessions.len()
        invariant
            i <= sessions.len(),
            coverage@ == with_sessions(united, sessions@, i as int),
        decreases sessions.len() - i,
    {
        let ghost before = coverage@;
        union_runtime_coverage_metadata(&mut coverage, &sessions[i]);
        proof {
            metadata_union_is_unique(before, sessions@[i as int]@, coverage@);
        }
        i = i + 1;
    }
    coverage.profiles = profiles;
    coverage.dependency_sites = sites.dependency_sites;
    coverage.resolved = sites.resolved;
    coverage.candidates = sites.candidates;
    coverage.external = sites.external;
    coverage.unresolved = sites.unresolved;
    coverage
}

// ---------------------------------------------------------------------------------------
// Layers
// ---------------------------------------------------------------------------------------

/// A build over a scan, with the depth of the deepest snapshot that holds it.
#[derive(Debug, Clone)]
pub struct BuildLayer {
    pub build_attempt_id: String,
    pub depth: u64,
}

/// Deeper builds come first, then builds by identity.
impl Ranked for BuildLayer {
    open spec fn before(a: BuildLayer, b: BuildLayer) -> bool {
        a.depth > b.depth || (a.depth == b.depth && text_lt(a.build_attempt_id@, b.build_attempt_id@))
    }

    proof fn before_is_irreflexive(a: BuildLayer) {
        text_lt_irreflexive(a.build_attempt_id@);
    }

    proof fn before_is_transitive(a: BuildLayer, b: BuildLayer, c: BuildLayer) {
        if text_lt(a.build_attempt_id@, b.build_attempt_id@) && text_lt(b.build_attempt_id@, c.build_attempt_id@) {
            text_lt_transitive(a.build_attempt_id@, b.build_attempt_id@, c.build_attempt_id@);
        }
    }

    proof fn before_is_weak(a: BuildLayer, b: BuildLayer, c: BuildLayer) {
        text_lt_total(a.build_attempt_id@, b.build_attempt_id@);
        if text_lt(b.build_attempt_id@, a.build_attempt_id@) && text_lt(a.build_attempt_id@, c.build_attempt_id@) {
            text_lt_transitive(b.build_attempt_id@, a.build_attempt_id@, c.build_attempt_id@);
        }
    }

    fn is_before(a: &BuildLayer, b: &BuildLayer) -> (result: bool) {
        a.depth > b.depth || (a.depth == b.depth && less(a.build_attempt_id.as_str(), b.build_attempt_id.as_str()))
    }
}

/// Whether a build stands deepest at a place of a chain of snapshots, the latest first.
pub open spec fn is_deepest(chain: Seq<CompletedSnapshotRecord>, place: int) -> bool {
    &&& chain[place].build_attempt_id is Some
    &&& forall|i: int|
        place < i < chain.len() ==> opt_text((#[trigger] chain[i]).build_attempt_id) != opt_text(
            chain[place].build_attempt_id,
        )
}

/// Which places of a chain hold a build for the last time.
pub open spec fn deepest_at(chain: Seq<CompletedSnapshotRecord>) -> spec_fn(int) -> bool {
    |i: int| is_deepest(chain, i)
}

/// Whether layers are the builds of a chain of snapshots, each with its greatest depth.
pub open spec fn are_build_layers(chain: Seq<CompletedSnapshotRecord>, layers: Seq<BuildLayer>) -> bool {
    let depths = collect(chain.len() as int, deepest_at(chain), |i: int| i);
    &&& layers.len() == depths.len()
    &&& forall|i: int|
        0 <= i < layers.len() ==> (#[trigger] layers[i]).depth == depths[i] && Some(layers[i].build_attempt_id@)
            == opt_text(chain[depths[i]].build_attempt_id)
}

fn stands_deepest(chain: &Vec<CompletedSnapshotRecord>, place: usize) -> (result: bool)
    requires
        place < chain.len(),
    ensures
        result == is_deepest(chain@, place as int),
{
    if chain[place].build_attempt_id.is_none() {
        return false;
    }
    let mut i: usize = place + 1;
    while i < chain.len()
        invariant
            place < i <= chain.len(),
            forall|k: int|
                place < k < i ==> opt_text((#[trigger] chain@[k]).build_attempt_id) != opt_text(
                    chain@[place as int].build_attempt_id,
                ),
        decreases chain.len() - i,
    {
        if same_option(&chain[i].build_attempt_id, &chain[place].build_attempt_id) {
            return false;
        }
        i = i + 1;
    }
    true
}

/// The builds of a chain of snapshots, the latest first: each with its greatest depth, the
/// deepest first.
pub fn build_layers(chain: &Vec<CompletedSnapshotRecord>) -> (result: Vec<BuildLayer>)
    ensures
        exists|layers: Seq<BuildLayer>|
            are_build_layers(chain@, layers) && #[trigger] is_ranked_sort(layers, layers, result@),
{
    let ghost keep = deepest_at(chain@);
    let ghost item = |i: int| i;
    let mut layers: Vec<BuildLayer> = Vec::new();
    let mut place: usize = 0;
    while place < chain.len()
        invariant
            place <= chain.len(),
            keep == deepest_at(chain@),
            item == |i: int| i,
            layers.len() == collect(place as int, keep, item).len(),
            forall|k: int|
                0 <= k < layers.len() ==> (#[trigger] layers@[k]).depth == collect(place as int, keep, item)[k]
                    && Some(layers@[k].build_attempt_id@) == opt_text(
                    chain@[collect(place as int, keep, item)[k]].build_attempt_id,
                ),
        decreases chain.len() - place,
    {
        let deepest = stands_deepest(chain, place);
        assert(deepest == keep(place as int));
        if deepest {
            match &chain[place].build_attempt_id {
                Some(id) => {
                    layers.push(BuildLayer { build_attempt_id: id.clone(), depth: place as u64 });
                },
                None => {},
            }
        }
        place = place + 1;
    }
    let ghost unsorted = layers@;
    let result = sort_ranked(layers);
    assert(are_build_layers(chain@, unsorted));
    result
}

} // verus!
