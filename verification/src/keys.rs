//! Sets of textual keys.
use vstd::prelude::*;

verus! {

/// The characters of each of the texts.
pub open spec fn texts(keys: Seq<String>) -> Seq<Seq<char>> {
    Seq::new(keys.len(), |i: int| keys[i]@)
}

proof fn lemma_texts_push(keys: Seq<String>, key: String)
    ensures
        texts(keys.push(key)) == texts(keys).push(key@),
        texts(keys.push(key)).to_set() == texts(keys).to_set().insert(key@),
{
    let before = texts(keys);
    let after = texts(keys.push(key));
    assert(after =~= before.push(key@));
    assert(after.to_set() =~= before.to_set().insert(key@)) by {
        assert forall|k: Seq<char>| after.to_set().contains(k) implies before.to_set().insert(
            key@,
        ).contains(k) by {
            let i = choose|i: int| 0 <= i < after.len() && after[i] == k;
            if i < before.len() {
                assert(before[i] == k);
            }
        }
        assert forall|k: Seq<char>| before.to_set().insert(key@).contains(k) implies after.to_set().contains(
            k,
        ) by {
            if k == key@ {
                assert(after[before.len() as int] == k);
            } else {
                let i = choose|i: int| 0 <= i < before.len() && before[i] == k;
                assert(after[i] == k);
            }
        }
    }
}

/// A set of texts, in the order in which they came.
#[derive(Debug)]
pub struct KeySet {
    pub keys: Vec<String>,
}

impl View for KeySet {
    type V = Set<Seq<char>>;

    open spec fn view(&self) -> Set<Seq<char>> {
        texts(self.keys@).to_set()
    }
}

impl KeySet {
    /// Whether no key is held twice.
    pub open spec fn wf(self) -> bool {
        texts(self.keys@).no_duplicates()
    }

    pub fn new() -> (set: KeySet)
        ensures
            set@ == Set::<Seq<char>>::empty(),
            set.wf(),
    {
        let set: KeySet = KeySet { keys: Vec::new() };
        assert(texts(set.keys@) =~= Seq::<Seq<char>>::empty());
        assert(set@ =~= Set::<Seq<char>>::empty());
        set
    }

    pub fn len(&self) -> (len: usize)
        requires
            self.wf(),
        ensures
            len == self@.len(),
    {
        proof {
            texts(self.keys@).unique_seq_to_set();
        }
        self.keys.len()
    }

    pub fn is_empty(&self) -> (empty: bool)
        ensures
            empty == (self@ == Set::<Seq<char>>::empty()),
    {
        proof {
            let all = texts(self.keys@);
            if all.len() > 0 {
                assert(self@.contains(all[0]));
            } else {
                assert(self@ =~= Set::<Seq<char>>::empty());
            }
        }
        self.keys.len() == 0
    }

    pub fn contains(&self, key: &String) -> (found: bool)
        ensures
            found == self@.contains(key@),
    {
        let mut i: usize = 0;
        while i < self.keys.len()
            invariant
                i <= self.keys.len(),
                forall|j: int| 0 <= j < i ==> texts(self.keys@)[j] != key@,
            decreases self.keys.len() - i,
        {
            if self.keys[i] == *key {
                assert(texts(self.keys@)[i as int] == key@);
                return true;
            }
            i = i + 1;
        }
        false
    }

    /// Add a key. Whether it was missing comes back.
    pub fn insert(&mut self, key: &String) -> (added: bool)
        ensures
            added == !old(self)@.contains(key@),
            final(self)@ == old(self)@.insert(key@),
            old(self).wf() ==> final(self).wf(),
    {
        if self.contains(key) {
            assert(self@.insert(key@) =~= self@);
            return false;
        }
        proof {
            lemma_texts_push(self.keys@, *key);
            assert forall|i: int| 0 <= i < self.keys@.len() implies texts(self.keys@)[i] != key@ by {
                assert(texts(self.keys@).contains(texts(self.keys@)[i]));
            }
        }
        self.keys.push(key.clone());
        true
    }

    /// Take a key out. Whether it was there comes back.
    pub fn remove(&mut self, key: &String) -> (removed: bool)
        ensures
            removed == old(self)@.contains(key@),
            final(self)@ == old(self)@.remove(key@),
            old(self).wf() ==> final(self).wf(),
    {
        let removed: bool = self.contains(key);
        let mut kept: KeySet = KeySet::new();
        let mut i: usize = 0;
        assert(texts(self.keys@.take(0)) =~= Seq::<Seq<char>>::empty());
        assert(kept@ =~= texts(self.keys@.take(0)).to_set().remove(key@));
        while i < self.keys.len()
            invariant
                self == old(self),
                i <= self.keys.len(),
                kept.wf(),
                kept@ == texts(self.keys@.take(i as int)).to_set().remove(key@),
            decreases self.keys.len() - i,
        {
            proof {
                lemma_texts_push(self.keys@.take(i as int), self.keys@[i as int]);
                assert(self.keys@.take(i + 1) =~= self.keys@.take(i as int).push(
                    self.keys@[i as int],
                ));
            }
            let ghost before = kept@;
            if self.keys[i] != *key {
                let _ = kept.insert(&self.keys[i]);
            }
            i = i + 1;
            assert(kept@ =~= texts(self.keys@.take(i as int)).to_set().remove(key@));
        }
        assert(self.keys@.take(i as int) =~= self.keys@);
        *self = kept;
        removed
    }

    /// Keep only the keys that another set holds.
    pub fn retain_in(&mut self, other: &KeySet)
        ensures
            final(self)@ == old(self)@.intersect(other@),
            old(self).wf() ==> final(self).wf(),
    {
        let mut kept: KeySet = KeySet::new();
        let mut i: usize = 0;
        assert(texts(self.keys@.take(0)) =~= Seq::<Seq<char>>::empty());
        assert(kept@ =~= texts(self.keys@.take(0)).to_set().intersect(other@));
        while i < self.keys.len()
            invariant
                self == old(self),
                i <= self.keys.len(),
                kept.wf(),
                kept@ == texts(self.keys@.take(i as int)).to_set().intersect(other@),
            decreases self.keys.len() - i,
        {
            proof {
                lemma_texts_push(self.keys@.take(i as int), self.keys@[i as int]);
                assert(self.keys@.take(i + 1) =~= self.keys@.take(i as int).push(
                    self.keys@[i as int],
                ));
            }
            if other.contains(&self.keys[i]) {
                let _ = kept.insert(&self.keys[i]);
            }
            i = i + 1;
            assert(kept@ =~= texts(self.keys@.take(i as int)).to_set().intersect(other@));
        }
        assert(self.keys@.take(i as int) =~= self.keys@);
        *self = kept;
    }

    /// Whether another set holds every key of this one.
    pub fn is_subset(&self, other: &KeySet) -> (yes: bool)
        ensures
            yes == self@.subset_of(other@),
    {
        let mut i: usize = 0;
        while i < self.keys.len()
            invariant
                i <= self.keys.len(),
                forall|j: int| 0 <= j < i ==> other@.contains(#[trigger] texts(self.keys@)[j]),
            decreases self.keys.len() - i,
        {
            if !other.contains(&self.keys[i]) {
                assert(self@.contains(texts(self.keys@)[i as int]));
                return false;
            }
            i = i + 1;
        }
        assert forall|k: Seq<char>| self@.contains(k) implies other@.contains(k) by {
            let j = choose|j: int| 0 <= j < texts(self.keys@).len() && texts(self.keys@)[j] == k;
            assert(other@.contains(texts(self.keys@)[j]));
        }
        true
    }

    /// Whether two sets hold the same keys.
    pub fn same(&self, other: &KeySet) -> (same: bool)
        ensures
            same == (self@ == other@),
    {
        let same: bool = self.is_subset(other) && other.is_subset(self);
        proof {
            if same {
                assert(self@ =~= other@);
            }
        }
        same
    }

    pub fn copy(&self) -> (copy: KeySet)
        ensures
            copy@ == self@,
            self.wf() ==> copy.wf(),
    {
        let mut keys: Vec<String> = Vec::new();
        let mut i: usize = 0;
        while i < self.keys.len()
            invariant
                i <= self.keys.len(),
                keys@ == self.keys@.take(i as int),
            decreases self.keys.len() - i,
        {
            keys.push(self.keys[i].clone());
            i = i + 1;
            assert(keys@ =~= self.keys@.take(i as int));
        }
        assert(keys@ =~= self.keys@);
        KeySet { keys }
    }
}

// ── Laws ────────────────────────────────────────────────────────────────────

/// A set holds exactly the texts of its keys.
pub proof fn sets_hold_their_keys(set: KeySet, key: Seq<char>)
    ensures
        set@.contains(key) <==> exists|i: int|
            0 <= i < set.keys@.len() && (#[trigger] set.keys@[i])@ == key,
{
    let all = texts(set.keys@);
    if set@.contains(key) {
        let i = choose|i: int| 0 <= i < all.len() && all[i] == key;
        assert(set.keys@[i]@ == key);
    }
    if exists|i: int| 0 <= i < set.keys@.len() && (#[trigger] set.keys@[i])@ == key {
        let i = choose|i: int| 0 <= i < set.keys@.len() && (#[trigger] set.keys@[i])@ == key;
        assert(all[i] == key);
    }
}

} // verus!
