//! Lists whose items are told apart by an identity.

use vstd::hash_map::StringHashMap;
use vstd::prelude::*;

use crate::order::{
    ascending, before, is_stable_order, is_stable_sort, last_position, last_position_is_last, stable_sort,
    stable_sort_of_views, views,
};
use crate::records::{DiagnosticRecord, EdgeRecord, EvidenceRecord, NodeRecord, ProfileRecord, SiteRecord};
use crate::text::texts;

verus! {

/// Records that can be compared by value.
pub trait Held: View + Sized {
    /// What a record is by value.
    spec fn value(model: Self::V) -> Self::V;

    /// Whether two records are the same.
    fn holds_same(&self, other: &Self) -> (result: bool)
        ensures
            result == (Self::value(self@) == Self::value(other@)),
    ;
}

/// Records with an identity.
pub trait Identified: Held {
    /// The identity in what a record holds.
    spec fn identity(model: Self::V) -> Seq<char>;

    /// The identity belongs to the value.
    proof fn identity_belongs_to_the_value(model: Self::V)
        ensures
            Self::identity(Self::value(model)) == Self::identity(model),
    ;

    /// The identity of a record.
    fn identifier(&self) -> (result: &String)
        ensures
            result@ == Self::identity(self@),
    ;
}

impl Held for ProfileRecord {
    open spec fn value(model: crate::records::ProfileModel) -> crate::records::ProfileModel {
        model.value()
    }

    fn holds_same(&self, other: &Self) -> (result: bool) {
        self.same_as(other)
    }
}

impl Held for NodeRecord {
    open spec fn value(model: crate::records::NodeModel) -> crate::records::NodeModel {
        model.value()
    }

    fn holds_same(&self, other: &Self) -> (result: bool) {
        self.same_as(other)
    }
}

impl Held for SiteRecord {
    open spec fn value(model: crate::records::SiteModel) -> crate::records::SiteModel {
        model.value()
    }

    fn holds_same(&self, other: &Self) -> (result: bool) {
        self.same_as(other)
    }
}

impl Held for EdgeRecord {
    open spec fn value(model: crate::records::EdgeModel) -> crate::records::EdgeModel {
        model.value()
    }

    fn holds_same(&self, other: &Self) -> (result: bool) {
        self.same_as(other)
    }
}

impl Held for EvidenceRecord {
    open spec fn value(model: crate::records::EvidenceModel) -> crate::records::EvidenceModel {
        model.value()
    }

    fn holds_same(&self, other: &Self) -> (result: bool) {
        self.same_as(other)
    }
}

impl Held for DiagnosticRecord {
    open spec fn value(model: crate::records::DiagnosticModel) -> crate::records::DiagnosticModel {
        model.value()
    }

    fn holds_same(&self, other: &Self) -> (result: bool) {
        self.same_as(other)
    }
}

impl Identified for ProfileRecord {
    open spec fn identity(model: crate::records::ProfileModel) -> Seq<char> {
        model.id
    }

    proof fn identity_belongs_to_the_value(model: crate::records::ProfileModel) {
    }

    fn identifier(&self) -> (result: &String) {
        &self.id
    }
}

impl Identified for NodeRecord {
    open spec fn identity(model: crate::records::NodeModel) -> Seq<char> {
        model.id
    }

    proof fn identity_belongs_to_the_value(model: crate::records::NodeModel) {
    }

    fn identifier(&self) -> (result: &String) {
        &self.id
    }
}

impl Identified for SiteRecord {
    open spec fn identity(model: crate::records::SiteModel) -> Seq<char> {
        model.id
    }

    proof fn identity_belongs_to_the_value(model: crate::records::SiteModel) {
    }

    fn identifier(&self) -> (result: &String) {
        &self.id
    }
}

impl Identified for EdgeRecord {
    open spec fn identity(model: crate::records::EdgeModel) -> Seq<char> {
        model.id
    }

    proof fn identity_belongs_to_the_value(model: crate::records::EdgeModel) {
    }

    fn identifier(&self) -> (result: &String) {
        &self.id
    }
}

/// What a list is by value.
pub open spec fn values<T: Held>(items: Seq<T::V>) -> Seq<T::V> {
    Seq::new(items.len(), |i: int| T::value(items[i]))
}

/// Whether two lists hold the same records in the same order.
pub fn same_lists<T: Held>(a: &Vec<T>, b: &Vec<T>) -> (result: bool)
    ensures
        result == (values::<T>(views(a@)) == values::<T>(views(b@))),
{
    let ghost left = values::<T>(views(a@));
    let ghost right = values::<T>(views(b@));
    if a.len() != b.len() {
        assert(left.len() != right.len());
        return false;
    }
    let mut i: usize = 0;
    while i < a.len()
        invariant
            i <= a.len(),
            a.len() == b.len(),
            left == values::<T>(views(a@)),
            right == values::<T>(views(b@)),
            forall|j: int| 0 <= j < i ==> T::value((#[trigger] a@[j])@) == T::value(b@[j]@),
        decreases a.len() - i,
    {
        if !a[i].holds_same(&b[i]) {
            assert(left[i as int] != right[i as int]);
            return false;
        }
        i = i + 1;
    }
    assert(left =~= right);
    true
}

/// The identities of a list.
pub open spec fn identities<T: Identified>(items: Seq<T::V>) -> Seq<Seq<char>> {
    Seq::new(items.len(), |i: int| T::identity(items[i]))
}

/// Where a list holds an identity.
pub open spec fn place_of<T: Identified>(items: Seq<T::V>, id: Seq<char>) -> Option<int> {
    last_position(identities::<T>(items), id, items.len() as int)
}

/// A list with an item in the place of the one with its identity, or at the end.
pub open spec fn with_latest<T: Identified>(items: Seq<T::V>, item: T::V) -> Seq<T::V> {
    match place_of::<T>(items, T::identity(item)) {
        Some(p) => items.update(p, item),
        None => items.push(item),
    }
}

/// The first `count` items, of those with one identity the latest.
pub open spec fn latest_of<T: Identified>(items: Seq<T::V>, count: int) -> Seq<T::V>
    decreases count,
{
    if count <= 0 {
        Seq::empty()
    } else {
        with_latest::<T>(latest_of::<T>(items, count - 1), items[count - 1])
    }
}

/// A list with an item at the end, unless it is there already; nothing where the list
/// holds another item with its identity.
pub open spec fn with_exact<T: Identified>(items: Seq<T::V>, item: T::V) -> Option<Seq<T::V>> {
    match place_of::<T>(items, T::identity(item)) {
        Some(p) => if T::value(items[p]) == T::value(item) {
            Some(items)
        } else {
            None
        },
        None => Some(items.push(item)),
    }
}

/// A list with the first `count` of further items, or the first of them whose identity
/// another item holds.
pub open spec fn with_all_exact<T: Identified>(items: Seq<T::V>, added: Seq<T::V>, count: int) -> Result<
    Seq<T::V>,
    int,
>
    decreases count,
{
    if count <= 0 {
        Ok(items)
    } else {
        match with_all_exact::<T>(items, added, count - 1) {
            Err(at) => Err(at),
            Ok(earlier) => match with_exact::<T>(earlier, added[count - 1]) {
                Some(list) => Ok(list),
                None => Err(count - 1),
            },
        }
    }
}

/// The place of an identity is the only one where each identity is held once.
pub open spec fn each_once<T: Identified>(items: Seq<T::V>) -> bool {
    forall|i: int, j: int|
        0 <= i < j < items.len() ==> T::identity(#[trigger] items[i]) != T::identity(#[trigger] items[j])
}

proof fn place_is<T: Identified>(items: Seq<T::V>, p: int)
    requires
        each_once::<T>(items),
        0 <= p < items.len(),
    ensures
        place_of::<T>(items, T::identity(items[p])) == Some(p),
{
    let ids = identities::<T>(items);
    last_position_is_last(ids, ids[p], ids.len() as int);
    let q = last_position(ids, ids[p], ids.len() as int)->0;
    assert(ids[p] == ids[q]);
    if p < q {
        assert(T::identity(items[p]) != T::identity(items[q]));
    } else if q < p {
        assert(T::identity(items[q]) != T::identity(items[p]));
    }
}

proof fn no_place<T: Identified>(items: Seq<T::V>, id: Seq<char>)
    requires
        place_of::<T>(items, id) is None,
    ensures
        forall|i: int| 0 <= i < items.len() ==> T::identity(#[trigger] items[i]) != id,
{
    let ids = identities::<T>(items);
    last_position_is_last(ids, id, ids.len() as int);
    assert forall|i: int| 0 <= i < items.len() implies T::identity(#[trigger] items[i]) != id by {
        assert(ids[i] != id);
    }
}

proof fn place_holds<T: Identified>(items: Seq<T::V>, id: Seq<char>)
    ensures
        place_of::<T>(items, id) matches Some(p) ==> 0 <= p < items.len() && T::identity(items[p]) == id,
{
    let ids = identities::<T>(items);
    last_position_is_last(ids, id, ids.len() as int);
}

/// Whether a list holds, for an identity, the latest of the first `count` items with it.
pub open spec fn holds_latest<T: Identified>(
    list: Seq<T::V>,
    items: Seq<T::V>,
    count: int,
    id: Seq<char>,
) -> bool {
    match (last_position(identities::<T>(items), id, count), place_of::<T>(list, id)) {
        (Some(p), Some(q)) => 0 <= p < count && 0 <= q < list.len() && list[q] == items[p],
        (None, None) => true,
        _ => false,
    }
}

/// The latest items hold each identity once, and of each the latest item.
pub proof fn latest_holds_the_latest<T: Identified>(items: Seq<T::V>, count: int)
    requires
        0 <= count <= items.len(),
    ensures
        each_once::<T>(latest_of::<T>(items, count)),
        forall|id: Seq<char>| #[trigger] holds_latest::<T>(latest_of::<T>(items, count), items, count, id),
    decreases count,
{
    let ids = identities::<T>(items);
    if count > 0 {
        latest_holds_the_latest::<T>(items, count - 1);
        let earlier = latest_of::<T>(items, count - 1);
        let item = items[count - 1];
        let now = latest_of::<T>(items, count);
        let own = T::identity(item);
        place_holds::<T>(earlier, own);
        if place_of::<T>(earlier, own) is None {
            no_place::<T>(earlier, own);
        }
        assert(each_once::<T>(now));
        assert forall|id: Seq<char>| #[trigger] holds_latest::<T>(now, items, count, id) by {
            assert(holds_latest::<T>(earlier, items, count - 1, id));
            last_position_is_last(ids, id, count);
            assert(ids[count - 1] == own);
            let place = place_of::<T>(earlier, own);
            if id == own {
                match place {
                    Some(q) => {
                        assert(now[q] == item);
                        place_is::<T>(now, q);
                    },
                    None => {
                        assert(now[earlier.len() as int] == item);
                        place_is::<T>(now, earlier.len() as int);
                    },
                }
            } else {
                place_holds::<T>(earlier, id);
                place_holds::<T>(now, id);
                match place_of::<T>(earlier, id) {
                    Some(q) => {
                        assert(now[q] == earlier[q]);
                        place_is::<T>(now, q);
                    },
                    None => {
                        no_place::<T>(earlier, id);
                        if place_of::<T>(now, id) is Some {
                            let q = place_of::<T>(now, id)->0;
                            assert(T::identity(now[q]) == id);
                            if q < earlier.len() && place != Some(q) {
                                assert(now[q] == earlier[q]);
                            }
                        }
                    },
                }
            }
        }
    } else {
        assert(latest_of::<T>(items, count) =~= Seq::empty());
        assert forall|id: Seq<char>| #[trigger]
            holds_latest::<T>(latest_of::<T>(items, count), items, count, id) by {
            place_holds::<T>(latest_of::<T>(items, count), id);
        }
    }
}

/// Whether a list holds an item, by value.
pub open spec fn holds<T: Held>(items: Seq<T::V>, item: T::V) -> bool {
    exists|i: int| 0 <= i < items.len() && T::value(#[trigger] items[i]) == T::value(item)
}

/// Adding items keeps every item that was held, in its place: nothing is overwritten.
/// Each added item is held afterwards, by value.
pub proof fn adding_keeps_and_holds<T: Identified>(items: Seq<T::V>, added: Seq<T::V>, count: int)
    requires
        each_once::<T>(items),
        0 <= count <= added.len(),
        with_all_exact::<T>(items, added, count) is Ok,
    ensures
        ({
            let after = with_all_exact::<T>(items, added, count)->Ok_0;
            &&& each_once::<T>(after)
            &&& after.len() >= items.len()
            &&& forall|i: int| 0 <= i < items.len() ==> #[trigger] after[i] == items[i]
            &&& forall|i: int| 0 <= i < count ==> holds::<T>(after, #[trigger] added[i])
        }),
    decreases count,
{
    if count > 0 {
        adding_keeps_and_holds::<T>(items, added, count - 1);
        let earlier = with_all_exact::<T>(items, added, count - 1)->Ok_0;
        let after = with_all_exact::<T>(items, added, count)->Ok_0;
        let item = added[count - 1];
        place_holds::<T>(earlier, T::identity(item));
        if place_of::<T>(earlier, T::identity(item)) is None {
            no_place::<T>(earlier, T::identity(item));
            assert(after[earlier.len() as int] == item);
            assert(holds::<T>(after, item));
        } else {
            let p = place_of::<T>(earlier, T::identity(item))->0;
            assert(T::value(after[p]) == T::value(item));
            assert(holds::<T>(after, item));
        }
        assert forall|i: int| 0 <= i < count implies holds::<T>(after, #[trigger] added[i]) by {
            if i < count - 1 {
                assert(holds::<T>(earlier, added[i]));
                let q = choose|q: int| 0 <= q < earlier.len() && T::value(#[trigger] earlier[q]) == T::value(added[i]);
                assert(after[q] == earlier[q]);
            }
        }
    }
}

/// Adding items that are all held changes nothing.
pub proof fn adding_held_items_changes_nothing<T: Identified>(items: Seq<T::V>, added: Seq<T::V>, count: int)
    requires
        each_once::<T>(items),
        0 <= count <= added.len(),
        forall|i: int| 0 <= i < count ==> holds::<T>(items, #[trigger] added[i]),
    ensures
        with_all_exact::<T>(items, added, count) == Ok::<_, int>(items),
    decreases count,
{
    if count > 0 {
        adding_held_items_changes_nothing::<T>(items, added, count - 1);
        let item = added[count - 1];
        assert(holds::<T>(items, item));
        let q = choose|q: int| 0 <= q < items.len() && T::value(#[trigger] items[q]) == T::value(item);
        T::identity_belongs_to_the_value(items[q]);
        T::identity_belongs_to_the_value(item);
        place_is::<T>(items, q);
    }
}

/// Items with identities of their own, each as the list holds it where it holds it, are
/// added without a collision.
pub proof fn compatible_items_are_added<T: Identified>(items: Seq<T::V>, added: Seq<T::V>, count: int)
    requires
        each_once::<T>(items),
        each_once::<T>(added),
        0 <= count <= added.len(),
        forall|i: int|
            0 <= i < added.len() ==> (place_of::<T>(items, T::identity(#[trigger] added[i])) matches Some(p)
                ==> T::value(items[p]) == T::value(added[i])),
    ensures
        with_all_exact::<T>(items, added, count) is Ok,
        forall|i: int|
            #![trigger with_all_exact::<T>(items, added, count)->Ok_0[i]]
            items.len() <= i < with_all_exact::<T>(items, added, count)->Ok_0.len() ==> exists|j: int|
                0 <= j < count && #[trigger] added[j] == with_all_exact::<T>(items, added, count)->Ok_0[i],
    decreases count,
{
    if count > 0 {
        compatible_items_are_added::<T>(items, added, count - 1);
        adding_keeps_and_holds::<T>(items, added, count - 1);
        let earlier = with_all_exact::<T>(items, added, count - 1)->Ok_0;
        let item = added[count - 1];
        let id = T::identity(item);
        place_holds::<T>(earlier, id);
        match place_of::<T>(earlier, id) {
            Some(p) => {
                if p < items.len() {
                    place_is::<T>(items, p);
                } else {
                    let j = choose|j: int| 0 <= j < count - 1 && #[trigger] added[j] == earlier[p];
                    assert(T::identity(added[j]) != T::identity(added[count - 1]));
                }
            },
            None => {},
        }
        let after = with_all_exact::<T>(items, added, count)->Ok_0;
        assert forall|i: int|
            #![trigger after[i]]
            items.len() <= i < after.len() implies exists|j: int| 0 <= j < count && #[trigger] added[j] == after[i] by {
            if i < earlier.len() {
                let j = choose|j: int| 0 <= j < count - 1 && #[trigger] added[j] == earlier[i];
                assert(added[j] == after[i]);
            } else {
                assert(added[count - 1] == after[i]);
            }
        }
    }
}

/// Items in the order in which their identities came, each identity once.
pub struct Keyed<T: Identified> {
    items: Vec<T>,
    places: StringHashMap<usize>,
}

impl<T: Identified> Keyed<T> {
    /// The items.
    pub closed spec fn held(&self) -> Seq<T::V> {
        views(self.items@)
    }

    /// Whether each identity is held once and can be found.
    pub closed spec fn wf(&self) -> bool {
        &&& forall|id: Seq<char>| #[trigger]
            self.places@.contains_key(id) ==> self.places@[id] < self.items@.len() && T::identity(
                self.items@[self.places@[id] as int]@,
            ) == id
        &&& forall|i: int|
            0 <= i < self.items@.len() ==> self.places@.contains_key(T::identity((#[trigger] self.items@[i])@))
                && self.places@[T::identity(self.items@[i]@)] == i
    }

    fn empty() -> (result: Self)
        ensures
            result.wf(),
            result.held() == Seq::<T::V>::empty(),
    {
        let result = Keyed { items: Vec::new(), places: StringHashMap::new() };
        assert(result.held() =~= Seq::empty());
        result
    }

    /// Where an identity is held.
    fn find(&self, id: &str) -> (result: Option<usize>)
        requires
            self.wf(),
        ensures
            match result {
                Some(p) => p < self.items@.len() && place_of::<T>(self.held(), id@) == Some(p as int),
                None => place_of::<T>(self.held(), id@) is None && !self.places@.contains_key(id@),
            },
    {
        let ghost ids = identities::<T>(self.held());
        proof {
            last_position_is_last(ids, id@, ids.len() as int);
            assert forall|i: int| 0 <= i < ids.len() implies #[trigger] ids[i] == T::identity(self.items@[i]@) by {}
        }
        match self.places.get(id) {
            Some(place) => {
                proof {
                    assert(ids[*place as int] == id@);
                    let p = last_position(ids, id@, ids.len() as int)->0;
                    assert(ids[p] == T::identity(self.items@[p]@));
                }
                Some(*place)
            },
            None => {
                proof {
                    if last_position(ids, id@, ids.len() as int) is Some {
                        let p = last_position(ids, id@, ids.len() as int)->0;
                        assert(ids[p] == T::identity(self.items@[p]@));
                    }
                }
                None
            },
        }
    }

    fn push(&mut self, item: T)
        requires
            old(self).wf(),
            place_of::<T>(old(self).held(), T::identity(item@)) is None,
            !old(self).places@.contains_key(T::identity(item@)),
        ensures
            final(self).wf(),
            final(self).held() == old(self).held().push(item@),
    {
        let ghost before = self.items@;
        let id = item.identifier().clone();
        self.places.insert(id, self.items.len());
        self.items.push(item);
        assert(views(self.items@) =~= views(before).push(item@));
    }

    /// The items of a list, of those with one identity the latest.
    pub fn latest(items: Vec<T>) -> (result: Self)
        ensures
            result.wf(),
            result.held() == latest_of::<T>(views(items@), items@.len() as int),
    {
        let ghost source = items@;
        let mut result = Keyed::<T>::empty();
        for item in it: items
            invariant
                it.seq() == source,
                result.wf(),
                result.held() == latest_of::<T>(views(source), it.index() as int),
        {
            assert(item@ == views(source)[it.index() as int]);
            let found = result.find(item.identifier().as_str());
            match found {
                Some(place) => {
                    let ghost before = result.items@;
                    proof {
                        last_position_is_last(
                            identities::<T>(result.held()),
                            T::identity(item@),
                            result.held().len() as int,
                        );
                        assert(T::identity(before[place as int]@) == T::identity(item@));
                    }
                    result.items.set(place, item);
                    assert(views(result.items@) =~= views(before).update(place as int, item@));
                },
                None => {
                    result.push(item);
                },
            }
        }
        result
    }

    /// Adds an item unless it is held already. Refuses it, and changes nothing, where
    /// another item with its identity is held.
    pub fn insert_exact(&mut self, item: T) -> (inserted: bool)
        requires
            old(self).wf(),
        ensures
            final(self).wf(),
            match with_exact::<T>(old(self).held(), item@) {
                Some(items) => inserted && final(self).held() == items,
                None => !inserted && final(self).held() == old(self).held(),
            },
    {
        let found = self.find(item.identifier().as_str());
        match found {
            Some(place) => self.items[place].holds_same(&item),
            None => {
                self.push(item);
                true
            },
        }
    }

    /// Adds items up to the first that is refused, and tells which that is.
    pub fn insert_all_exact(&mut self, items: Vec<T>) -> (refused: Option<usize>)
        requires
            old(self).wf(),
        ensures
            final(self).wf(),
            match with_all_exact::<T>(old(self).held(), views(items@), items@.len() as int) {
                Ok(held) => refused is None && final(self).held() == held,
                Err(at) => refused == Some(at as usize) && 0 <= at < items@.len(),
            },
    {
        let ghost source = items@;
        let ghost start = self.held();
        let total: usize = items.len();
        let mut refused: Option<usize> = None;
        let mut count: usize = 0;
        for item in it: items
            invariant
                it.seq() == source,
                source.len() == total,
                count == it.index() || refused is Some,
                self.wf(),
                match refused {
                    None => with_all_exact::<T>(start, views(source), it.index() as int) == Ok::<_, int>(
                        self.held(),
                    ),
                    Some(at) => with_all_exact::<T>(start, views(source), it.index() as int) == Err::<Seq<T::V>, _>(
                        at as int,
                    ) && at < source.len(),
                },
        {
            assert(item@ == views(source)[it.index() as int]);
            if refused.is_none() {
                if !self.insert_exact(item) {
                    refused = Some(count);
                } else {
                    count = count + 1;
                }
            }
        }
        refused
    }

    /// How many items are held.
    pub fn count(&self) -> (result: usize)
        ensures
            result == self.held().len(),
    {
        self.items.len()
    }

    /// The items in the order of their identities.
    pub fn into_sorted(self) -> (result: Vec<T>)
        requires
            self.wf(),
        ensures
            is_stable_sort(self.held(), identities::<T>(self.held()), views(result@)),
            result.len() == self.held().len(),
            ascending(identities::<T>(views(result@))),
    {
        let ghost held = self.held();
        let ghost source = self.items@;
        let mut keys: Vec<String> = Vec::new();
        let mut i: usize = 0;
        while i < self.items.len()
            invariant
                i <= self.items.len(),
                keys.len() == i,
                forall|k: int| 0 <= k < i ==> (#[trigger] keys@[k])@ == T::identity(self.items@[k]@),
            decreases self.items.len() - i,
        {
            keys.push(self.items[i].identifier().clone());
            i = i + 1;
        }
        let ghost ids = identities::<T>(held);
        assert(texts(keys@) =~= ids);
        let ghost wf = self.wf();
        let items = self.items;
        let result = stable_sort(items, &keys);
        proof {
            stable_sort_of_views(source, ids, result@);
            let order = choose|order: Seq<usize>| #[trigger]
                is_stable_order(ids, order) && result@ == Seq::new(order.len(), |i: int| source[order[i] as int]);
            let sorted = identities::<T>(views(result@));
            assert forall|i: int, j: int| 0 <= i < j < sorted.len() implies crate::text::text_lt(
                #[trigger] sorted[i],
                #[trigger] sorted[j],
            ) by {
                assert(before(ids, order[i] as int, order[j] as int));
                assert(sorted[i] == ids[order[i] as int]);
                assert(sorted[j] == ids[order[j] as int]);
                assert(T::identity(source[order[i] as int]@) == ids[order[i] as int]);
                assert(T::identity(source[order[j] as int]@) == ids[order[j] as int]);
            }
        }
        result
    }
}

} // verus!
