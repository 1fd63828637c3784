//! Values that can be compared and copied, and maps from such values to others.
use vstd::prelude::*;

verus! {

/// A value with a mathematical model, by which it is compared and copied.
pub trait Value: Sized {
    type Model;

    spec fn model(&self) -> Self::Model;

    fn same(&self, other: &Self) -> (same: bool)
        ensures
            same == (self.model() == other.model()),
    ;

    fn copied(&self) -> (copy: Self)
        ensures
            copy.model() == self.model(),
    ;
}

impl Value for String {
    type Model = Seq<char>;

    open spec fn model(&self) -> Seq<char> {
        self@
    }

    fn same(&self, other: &String) -> (same: bool) {
        *self == *other
    }

    fn copied(&self) -> (copy: String) {
        self.clone()
    }
}

impl Value for u64 {
    type Model = u64;

    open spec fn model(&self) -> u64 {
        *self
    }

    fn same(&self, other: &u64) -> (same: bool) {
        *self == *other
    }

    fn copied(&self) -> (copy: u64) {
        *self
    }
}

impl Value for u16 {
    type Model = u16;

    open spec fn model(&self) -> u16 {
        *self
    }

    fn same(&self, other: &u16) -> (same: bool) {
        *self == *other
    }

    fn copied(&self) -> (copy: u16) {
        *self
    }
}

impl Value for u8 {
    type Model = u8;

    open spec fn model(&self) -> u8 {
        *self
    }

    fn same(&self, other: &u8) -> (same: bool) {
        *self == *other
    }

    fn copied(&self) -> (copy: u8) {
        *self
    }
}

impl<A: Value, B: Value> Value for (A, B) {
    type Model = (A::Model, B::Model);

    open spec fn model(&self) -> (A::Model, B::Model) {
        (self.0.model(), self.1.model())
    }

    fn same(&self, other: &(A, B)) -> (same: bool) {
        self.0.same(&other.0) && self.1.same(&other.1)
    }

    fn copied(&self) -> (copy: (A, B)) {
        (self.0.copied(), self.1.copied())
    }
}

/// The models of the items.
pub open spec fn models<T: Value>(items: Seq<T>) -> Seq<T::Model> {
    Seq::new(items.len(), |i: int| items[i].model())
}

impl<T: Value> Value for Vec<T> {
    type Model = Seq<T::Model>;

    open spec fn model(&self) -> Seq<T::Model> {
        models(self@)
    }

    fn same(&self, other: &Vec<T>) -> (same: bool) {
        if self.len() != other.len() {
            assert(self.model().len() != other.model().len());
            return false;
        }
        let mut i: usize = 0;
        while i < self.len()
            invariant
                i <= self.len() == other.len(),
                forall|j: int| 0 <= j < i ==> self.model()[j] == other.model()[j],
            decreases self.len() - i,
        {
            if !self[i].same(&other[i]) {
                assert(self.model()[i as int] != other.model()[i as int]);
                return false;
            }
            i = i + 1;
        }
        assert(self.model() =~= other.model());
        true
    }

    fn copied(&self) -> (copy: Vec<T>) {
        let mut copy: Vec<T> = Vec::new();
        let mut i: usize = 0;
        while i < self.len()
            invariant
                i <= self.len(),
                copy.len() == i,
                forall|j: int| 0 <= j < i ==> copy@[j].model() == (#[trigger] self@[j]).model(),
            decreases self.len() - i,
        {
            copy.push(self[i].copied());
            i = i + 1;
        }
        assert(copy.model() =~= self.model()) by {
            assert forall|j: int| 0 <= j < copy.len() implies copy.model()[j] == self.model()[j] by {
                assert(self@[j].model() == copy@[j].model());
            }
        }
        copy
    }
}

impl<T: Value> Value for Option<T> {
    type Model = Option<T::Model>;

    open spec fn model(&self) -> Option<T::Model> {
        match self {
            Some(value) => Some(value.model()),
            None => None,
        }
    }

    fn same(&self, other: &Option<T>) -> (same: bool) {
        match self {
            Some(a) => match other {
                Some(b) => {
                    let same: bool = a.same(b);
                    proof {
                        assert(self.model() == Some(a.model()));
                        assert(other.model() == Some(b.model()));
                        if self.model() == other.model() {
                            assert(self.model()->0 == other.model()->0);
                        }
                    }
                    same
                },
                None => {
                    assert(self.model() is Some);
                    assert(other.model() is None);
                    false
                },
            },
            None => {
                assert(self.model() is None);
                other.is_none()
            },
        }
    }

    fn copied(&self) -> (copy: Option<T>) {
        match self {
            Some(value) => Some(value.copied()),
            None => None,
        }
    }
}

/// The value that the latest entry for a key holds.
pub open spec fn lookup<K: Value, V: Value>(entries: Seq<(K, V)>, key: K::Model) -> Option<V::Model>
    decreases entries.len(),
{
    if entries.len() == 0 {
        None
    } else if entries.last().0.model() == key {
        Some(entries.last().1.model())
    } else {
        lookup(entries.drop_last(), key)
    }
}

/// A key has a value where some entry holds it.
pub proof fn lemma_lookup_absent<K: Value, V: Value>(entries: Seq<(K, V)>, key: K::Model)
    ensures
        lookup(entries, key) is None <==> (forall|i: int|
            0 <= i < entries.len() ==> (#[trigger] entries[i]).0.model() != key),
    decreases entries.len(),
{
    if entries.len() > 0 {
        lemma_lookup_absent(entries.drop_last(), key);
        let before = entries.drop_last();
        if lookup(entries, key) is None {
            assert forall|i: int| 0 <= i < entries.len() implies (
            #[trigger] entries[i]).0.model() != key by {
                if i < before.len() {
                    assert(before[i] == entries[i]);
                }
            }
        } else if entries.last().0.model() == key {
            assert(entries[entries.len() - 1].0.model() == key);
        } else {
            let i = choose|i: int| 0 <= i < before.len() && (#[trigger] before[i]).0.model() == key;
            assert(entries[i].0.model() == key);
        }
    }
}

/// The value is that of the last entry with the key.
proof fn lemma_lookup_at<K: Value, V: Value>(entries: Seq<(K, V)>, key: K::Model, at: int)
    requires
        0 <= at < entries.len(),
        entries[at].0.model() == key,
        forall|i: int| at < i < entries.len() ==> (#[trigger] entries[i]).0.model() != key,
    ensures
        lookup(entries, key) == Some(entries[at].1.model()),
    decreases entries.len(),
{
    if at < entries.len() - 1 {
        let before = entries.drop_last();
        assert(entries[entries.len() - 1].0.model() != key);
        assert forall|i: int| at < i < before.len() implies (
        #[trigger] before[i]).0.model() != key by {
            assert(before[i] == entries[i]);
        }
        assert(before[at] == entries[at]);
        lemma_lookup_at(before, key, at);
    }
}

/// Taking out an entry changes nothing for other keys.
pub proof fn lemma_lookup_remove<K: Value, V: Value>(
    entries: Seq<(K, V)>,
    at: int,
    key: K::Model,
)
    requires
        0 <= at < entries.len(),
        entries[at].0.model() != key,
    ensures
        lookup(entries.remove(at), key) == lookup(entries, key),
    decreases entries.len(),
{
    let after = entries.remove(at);
    if at == entries.len() - 1 {
        assert(after =~= entries.drop_last());
    } else {
        assert(after.last() == entries.last());
        assert(after.drop_last() =~= entries.drop_last().remove(at));
        assert(entries.drop_last()[at] == entries[at]);
        lemma_lookup_remove(entries.drop_last(), at, key);
    }
}

/// Entries with the same models hold the same values.
proof fn lemma_lookup_same<K: Value, V: Value>(a: Seq<(K, V)>, b: Seq<(K, V)>, key: K::Model)
    requires
        a.len() == b.len(),
        forall|i: int| 0 <= i < a.len() ==> (#[trigger] a[i]).model() == b[i].model(),
    ensures
        lookup(a, key) == lookup(b, key),
    decreases a.len(),
{
    if a.len() > 0 {
        let last = a.len() - 1;
        assert(a[last].model() == b[last].model());
        assert forall|i: int| 0 <= i < last implies (#[trigger] a.drop_last()[i]).model()
            == b.drop_last()[i].model() by {
            assert(a[i].model() == b[i].model());
        }
        lemma_lookup_same(a.drop_last(), b.drop_last(), key);
    }
}

/// A map from keys to values.
#[derive(Debug)]
pub struct Assoc<K, V> {
    pub entries: Vec<(K, V)>,
}

impl<K: Value, V: Value> View for Assoc<K, V> {
    type V = Map<K::Model, V::Model>;

    open spec fn view(&self) -> Map<K::Model, V::Model> {
        Map::new(
            |key: K::Model| lookup(self.entries@, key) is Some,
            |key: K::Model| lookup(self.entries@, key)->0,
        )
    }
}

impl<K: Value, V: Value> Assoc<K, V> {
    /// Whether every key has one entry.
    pub open spec fn distinct(self) -> bool {
        forall|i: int, j: int|
            0 <= i < j < self.entries@.len() ==> (#[trigger] self.entries@[i]).0.model() != (
            #[trigger] self.entries@[j]).0.model()
    }

    /// Every entry is the one for its key.
    pub proof fn lemma_entry(self, at: int)
        requires
            self.distinct(),
            0 <= at < self.entries@.len(),
        ensures
            self@.dom().contains(self.entries@[at].0.model()),
            self@[self.entries@[at].0.model()] == self.entries@[at].1.model(),
    {
        let key = self.entries@[at].0.model();
        assert forall|i: int| at < i < self.entries@.len() implies (
        #[trigger] self.entries@[i]).0.model() != key by {
            assert(self.entries@[at].0.model() != self.entries@[i].0.model());
        }
        lemma_lookup_at(self.entries@, key, at);
    }

    /// Every key of the map has an entry.
    pub proof fn lemma_key(self, key: K::Model) -> (at: int)
        requires
            self@.dom().contains(key),
        ensures
            0 <= at < self.entries@.len(),
            self.entries@[at].0.model() == key,
    {
        lemma_lookup_absent(self.entries@, key);
        choose|i: int| 0 <= i < self.entries@.len() && (#[trigger] self.entries@[i]).0.model() == key
    }

    pub fn new() -> (map: Assoc<K, V>)
        ensures
            map@ == Map::<K::Model, V::Model>::empty(),
            map.distinct(),
    {
        let map: Assoc<K, V> = Assoc { entries: Vec::new() };
        assert(map@ =~= Map::<K::Model, V::Model>::empty());
        map
    }

    pub fn is_empty(&self) -> (empty: bool)
        ensures
            empty == (self@ == Map::<K::Model, V::Model>::empty()),
    {
        proof {
            if self.entries@.len() > 0 {
                let key = self.entries@.last().0.model();
                assert(self@.dom().contains(key));
            } else {
                assert(self@ =~= Map::<K::Model, V::Model>::empty());
            }
        }
        self.entries.len() == 0
    }

    /// The last entry with the key.
    fn find(&self, key: &K) -> (at: Option<usize>)
        ensures
            at is None ==> !self@.dom().contains(key.model()),
            at is Some ==> at->0 < self.entries@.len() && self.entries@[at->0 as int].0.model()
                == key.model() && self@.dom().contains(key.model()) && self@[key.model()]
                == self.entries@[at->0 as int].1.model(),
    {
        let mut i: usize = self.entries.len();
        while i > 0
            invariant
                i <= self.entries@.len(),
                forall|j: int|
                    i <= j < self.entries@.len() ==> (#[trigger] self.entries@[j]).0.model()
                        != key.model(),
            decreases i,
        {
            i = i - 1;
            if self.entries[i].0.same(key) {
                proof {
                    lemma_lookup_at(self.entries@, key.model(), i as int);
                }
                return Some(i);
            }
        }
        proof {
            lemma_lookup_absent(self.entries@, key.model());
        }
        None
    }

    pub fn contains(&self, key: &K) -> (found: bool)
        ensures
            found == self@.dom().contains(key.model()),
    {
        self.find(key).is_some()
    }

    pub fn get(&self, key: &K) -> (value: Option<&V>)
        ensures
            value is Some <==> self@.dom().contains(key.model()),
            value is Some ==> value->0.model() == self@[key.model()],
    {
        match self.find(key) {
            Some(at) => Some(&self.entries[at].1),
            None => None,
        }
    }

    /// Take the key's value out.
    pub fn remove(&mut self, key: &K) -> (value: Option<V>)
        ensures
            final(self)@ == old(self)@.remove(key.model()),
            value is Some <==> old(self)@.dom().contains(key.model()),
            value is Some ==> value->0.model() == old(self)@[key.model()],
            old(self).distinct() ==> final(self).distinct(),
    {
        let mut first: Option<V> = None;
        loop
            invariant
                forall|other: K::Model|
                    other != key.model() ==> #[trigger] lookup(self.entries@, other) == lookup(
                        old(self).entries@,
                        other,
                    ),
                first is None ==> self@ == old(self)@,
                old(self).distinct() ==> self.distinct(),
                first is Some ==> old(self)@.dom().contains(key.model()) && first->0.model()
                    == old(self)@[key.model()],
            decreases self.entries@.len(),
        {
            match self.find(key) {
                Some(at) => {
                    proof {
                        assert forall|other: K::Model| other != key.model() implies #[trigger] lookup(
                            self.entries@.remove(at as int),
                            other,
                        ) == lookup(old(self).entries@, other) by {
                            lemma_lookup_remove(self.entries@, at as int, other);
                        }
                    }
                    let (_, value) = self.entries.remove(at);
                    if first.is_none() {
                        first = Some(value);
                    }
                },
                None => {
                    assert(self@ =~= old(self)@.remove(key.model()));
                    return first;
                },
            }
        }
    }

    pub fn insert(&mut self, key: K, value: V)
        ensures
            final(self)@ == old(self)@.insert(key.model(), value.model()),
            old(self).distinct() ==> final(self).distinct(),
    {
        let _ = self.remove(&key);
        let ghost before = *self;
        proof {
            lemma_lookup_absent(self.entries@, key.model());
            assert(!self@.dom().contains(key.model()));
        }
        let ghost entry = (key, value);
        self.entries.push((key, value));
        proof {
            assert(self.entries@.drop_last() =~= before.entries@);
            assert(self.entries@.last() == entry);
            let after = old(self)@.insert(entry.0.model(), entry.1.model());
            assert forall|other: K::Model| #[trigger] self@.dom().contains(other)
                <==> after.dom().contains(other) by {
                assert(before@.dom().contains(other) == lookup(before.entries@, other) is Some);
            }
            assert forall|other: K::Model| self@.dom().contains(other) implies #[trigger] self@[other]
                == after[other] by {
                if other != entry.0.model() {
                    assert(before@.dom().contains(other));
                    assert(before@[other] == lookup(before.entries@, other)->0);
                }
            }
            assert(self@ =~= after);
        }
    }
}

/// Entries that were changed one by one, in place, are the map of the changed ones.
pub proof fn lemma_mapped_entries<K: Value, V: Value>(
    before: Assoc<K, V>,
    after: Assoc<K, V>,
    change: spec_fn(K::Model, V::Model) -> V::Model,
)
    requires
        before.distinct(),
        before.entries@.len() == after.entries@.len(),
        forall|i: int|
            0 <= i < after.entries@.len() ==> (#[trigger] after.entries@[i]).0
                == before.entries@[i].0,
        forall|i: int|
            0 <= i < after.entries@.len() ==> (#[trigger] after.entries@[i]).1.model() == change(
                before.entries@[i].0.model(),
                before.entries@[i].1.model(),
            ),
    ensures
        after.distinct(),
        forall|key: K::Model| #[trigger]
            after@.dom().contains(key) <==> before@.dom().contains(key),
        forall|key: K::Model|
            after@.dom().contains(key) ==> #[trigger] after@[key] == change(key, before@[key]),
{
    assert forall|i: int, j: int| 0 <= i < j < after.entries@.len() implies (
    #[trigger] after.entries@[i]).0.model() != (#[trigger] after.entries@[j]).0.model() by {
        assert(before.entries@[i].0.model() != before.entries@[j].0.model());
    }
    assert forall|key: K::Model| #[trigger] after@.dom().contains(key)
        <==> before@.dom().contains(key) by {
        if after@.dom().contains(key) {
            let at = after.lemma_key(key);
            assert(after.entries@[at].0 == before.entries@[at].0);
            before.lemma_entry(at);
        }
        if before@.dom().contains(key) {
            let at = before.lemma_key(key);
            assert(after.entries@[at].0 == before.entries@[at].0);
            after.lemma_entry(at);
        }
    }
    assert forall|key: K::Model| after@.dom().contains(key) implies #[trigger] after@[key]
        == change(key, before@[key]) by {
        let at = after.lemma_key(key);
        assert(after.entries@[at].0 == before.entries@[at].0);
        after.lemma_entry(at);
        before.lemma_entry(at);
    }
}

impl<K: Value, V: Value> Value for Assoc<K, V> {
    type Model = Map<K::Model, V::Model>;

    open spec fn model(&self) -> Map<K::Model, V::Model> {
        self@
    }

    fn same(&self, other: &Assoc<K, V>) -> (same: bool) {
        let same: bool = within(self, other) && within(other, self);
        proof {
            if same {
                assert forall|key: K::Model| #[trigger] self@.dom().contains(
                    key,
                ) <==> other@.dom().contains(key) by {}
                assert(self@ =~= other@);
            }
        }
        same
    }

    fn copied(&self) -> (copy: Assoc<K, V>) {
        let entries: Vec<(K, V)> = copied_entries(&self.entries);
        let copy: Assoc<K, V> = Assoc { entries };
        proof {
            assert forall|key: K::Model| #[trigger] lookup(copy.entries@, key) == lookup(
                self.entries@,
                key,
            ) by {
                lemma_lookup_same(copy.entries@, self.entries@, key);
            }
            assert(copy@ =~= self@);
        }
        copy
    }
}

fn copied_entries<K: Value, V: Value>(entries: &Vec<(K, V)>) -> (copy: Vec<(K, V)>)
    ensures
        copy@.len() == entries@.len(),
        forall|i: int| 0 <= i < copy@.len() ==> (#[trigger] copy@[i]).model() == entries@[i].model(),
{
    let mut copy: Vec<(K, V)> = Vec::new();
    let mut i: usize = 0;
    while i < entries.len()
        invariant
            i <= entries.len(),
            copy.len() == i,
            forall|j: int| 0 <= j < i ==> (#[trigger] copy@[j]).model() == entries@[j].model(),
        decreases entries.len() - i,
    {
        copy.push(entries[i].copied());
        i = i + 1;
    }
    copy
}

/// Whether every key of `a` has the same value in `b`.
pub open spec fn covers<K, V>(a: Map<K, V>, b: Map<K, V>) -> bool {
    forall|key: K| #[trigger]
        a.dom().contains(key) ==> b.dom().contains(key) && a[key] == b[key]
}

fn within<K: Value, V: Value>(a: &Assoc<K, V>, b: &Assoc<K, V>) -> (yes: bool)
    ensures
        yes == covers(a@, b@),
{
    let mut i: usize = 0;
    while i < a.entries.len()
        invariant
            i <= a.entries@.len(),
            forall|j: int|
                0 <= j < i ==> ({
                    let key = (#[trigger] a.entries@[j]).0.model();
                    b@.dom().contains(key) && a@[key] == b@[key]
                }),
        decreases a.entries@.len() - i,
    {
        let key: &K = &a.entries[i].0;
        proof {
            lemma_lookup_absent(a.entries@, key.model());
            assert(a.entries@[i as int].0.model() == key.model());
            assert(a@.dom().contains(key.model()));
        }
        let equal: bool = match (a.get(key), b.get(key)) {
            (Some(x), Some(y)) => x.same(y),
            _ => false,
        };
        if !equal {
            assert(a@.dom().contains(key.model()));
            return false;
        }
        i = i + 1;
    }
    proof {
        assert forall|key: K::Model| #[trigger] a@.dom().contains(key) implies b@.dom().contains(
            key,
        ) && a@[key] == b@[key] by {
            lemma_lookup_absent(a.entries@, key);
            let j = choose|j: int|
                0 <= j < a.entries@.len() && (#[trigger] a.entries@[j]).0.model() == key;
            assert(a.entries@[j].0.model() == key);
        }
    }
    true
}

// ── Laws ────────────────────────────────────────────────────────────────────

/// A key has the value of the last entry under it, and none where no entry is under it.
pub proof fn the_last_entry_of_a_key_counts<K: Value, V: Value>(
    before: Seq<(K, V)>,
    entry: (K, V),
    key: K::Model,
)
    ensures
        lookup(Seq::<(K, V)>::empty(), key) is None,
        lookup(before.push(entry), key) == (if entry.0.model() == key {
            Some(entry.1.model())
        } else {
            lookup(before, key)
        }),
{
    assert(before.push(entry).drop_last() =~= before);
}

/// A list's model has the model of each of its items, in order.
pub proof fn models_stand_in_order<T: Value>(items: Seq<T>, at: int)
    requires
        0 <= at < items.len(),
    ensures
        models(items).len() == items.len(),
        models(items)[at] == items[at].model(),
{
}

/// Two maps that cover each other are one.
pub proof fn mutual_cover_is_equality<K, V>(a: Map<K, V>, b: Map<K, V>)
    ensures
        covers(a, b) && covers(b, a) <==> a == b,
{
    if covers(a, b) && covers(b, a) {
        assert(a =~= b);
    }
}

} // verus!
