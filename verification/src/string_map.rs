use crate::prayer::PrayerTimesWithDate;
use vstd::prelude::*;
use vstd::string::*;

verus! {

/// A finite map from texts to values. No key is held twice; a key is found
/// by comparing texts, so the map suits the few dozen entries of a schedule
/// or of a list of places.
#[derive(Debug)]
pub struct StringMap<V> {
    entries: Vec<(String, V)>,
}

/// The keys of a run of entries, in the order in which they are held.
spec fn key_views<V>(entries: Seq<(String, V)>) -> Seq<Seq<char>> {
    Seq::new(entries.len(), |i: int| entries[i].0@)
}

/// The map that a run of entries stands for.
spec fn map_of<V>(entries: Seq<(String, V)>) -> Map<Seq<char>, V> {
    Map::new(
        |k: Seq<char>| key_views(entries).contains(k),
        |k: Seq<char>| entries[key_views(entries).index_of(k)].1,
    )
}

/// Where the keys differ, each entry is found under its own key.
proof fn lemma_map_of_at<V>(entries: Seq<(String, V)>, i: int)
    requires
        key_views(entries).no_duplicates(),
        0 <= i < entries.len(),
    ensures
        map_of(entries).contains_key(entries[i].0@),
        map_of(entries)[entries[i].0@] == entries[i].1,
{
    let keys = key_views(entries);
    assert(keys[i] == entries[i].0@);
    let j = keys.index_of(entries[i].0@);
    assert(0 <= j < keys.len() && keys[j] == entries[i].0@);
}

/// A new key at the end adds one entry to the map.
proof fn lemma_map_of_push<V>(entries: Seq<(String, V)>, key: String, value: V)
    requires
        key_views(entries).no_duplicates(),
        !key_views(entries).contains(key@),
    ensures
        key_views(entries.push((key, value))).no_duplicates(),
        map_of(entries.push((key, value))) == map_of(entries).insert(key@, value),
{
    let longer = entries.push((key, value));
    let keys = key_views(entries);
    let more = key_views(longer);
    assert(more =~= keys.push(key@));
    assert forall|a: int, b: int| 0 <= a < more.len() && 0 <= b < more.len() && a != b implies more[a]
        != more[b] by {
        if a < keys.len() && b < keys.len() {
            assert(keys[a] != keys[b]);
        } else if a < keys.len() {
            assert(keys[a] == more[a]);
        } else {
            assert(keys[b] == more[b]);
        }
    }
    assert forall|k: Seq<char>| #[trigger]
        map_of(longer).contains_key(k) <==> map_of(entries).insert(key@, value).contains_key(
            k,
        ) by {
        if more.contains(k) {
            let a = more.index_of(k);
            if a < keys.len() {
                assert(keys[a] == k);
            }
        }
        if keys.contains(k) {
            let a = keys.index_of(k);
            assert(more[a] == k);
        }
        if k == key@ {
            assert(more[entries.len() as int] == k);
        }
    }
    assert forall|k: Seq<char>| #[trigger] map_of(longer).contains_key(k) implies map_of(longer)[k]
        == map_of(entries).insert(key@, value)[k] by {
        let a = more.index_of(k);
        assert(0 <= a < more.len() && more[a] == k);
        if a < keys.len() {
            assert(keys[a] == k);
            lemma_map_of_at(entries, a);
        }
    }
    assert(map_of(longer) =~= map_of(entries).insert(key@, value));
}

/// A new value under a key that is held replaces the key's entry.
proof fn lemma_map_of_update<V>(entries: Seq<(String, V)>, i: int, key: String, value: V)
    requires
        key_views(entries).no_duplicates(),
        0 <= i < entries.len(),
        entries[i].0@ == key@,
    ensures
        key_views(entries.update(i, (key, value))).no_duplicates(),
        map_of(entries.update(i, (key, value))) == map_of(entries).insert(key@, value),
{
    let changed = entries.update(i, (key, value));
    let keys = key_views(entries);
    let same = key_views(changed);
    assert(same =~= keys);
    assert forall|k: Seq<char>| #[trigger] map_of(changed).contains_key(k) implies map_of(changed)[k]
        == map_of(entries).insert(key@, value)[k] by {
        let a = keys.index_of(k);
        assert(0 <= a < keys.len() && keys[a] == k);
        if a != i {
            assert(keys[a] != keys[i]);
            lemma_map_of_at(entries, a);
        }
    }
    assert(keys[i] == key@);
    assert(map_of(changed) =~= map_of(entries).insert(key@, value));
}

/// The map that comes of putting entries into an empty map, one after
/// another: of two entries with one key the later stays.
pub open spec fn collected<V>(entries: Seq<(Seq<char>, V)>) -> Map<Seq<char>, V>
    decreases entries.len(),
{
    if entries.len() == 0 {
        Map::empty()
    } else {
        collected(entries.drop_last()).insert(entries.last().0, entries.last().1)
    }
}

/// What a map collected from entries holds: the keys of the entries and no
/// others, and under each key the value of the last entry that has it.
pub proof fn lemma_collected<V>(entries: Seq<(Seq<char>, V)>)
    ensures
        forall|key: Seq<char>|
            collected(entries).contains_key(key) <==> exists|i: int|
                0 <= i < entries.len() && (#[trigger] entries[i]).0 == key,
        forall|i: int|
            0 <= i < entries.len() && (forall|j: int|
                i < j < entries.len() ==> (#[trigger] entries[j]).0 != entries[i].0)
                ==> collected(entries)[(#[trigger] entries[i]).0] == entries[i].1,
    decreases entries.len(),
{
    if entries.len() > 0 {
        let before = entries.drop_last();
        lemma_collected(before);
        assert forall|key: Seq<char>|
            collected(entries).contains_key(key) <==> exists|i: int|
                0 <= i < entries.len() && (#[trigger] entries[i]).0 == key by {
            if collected(before).contains_key(key) {
                let i = choose|i: int| 0 <= i < before.len() && (#[trigger] before[i]).0 == key;
                assert(entries[i] == before[i]);
            }
            if exists|i: int| 0 <= i < entries.len() && (#[trigger] entries[i]).0 == key {
                let i = choose|i: int| 0 <= i < entries.len() && (#[trigger] entries[i]).0 == key;
                if i < before.len() {
                    assert(before[i] == entries[i]);
                }
            }
        }
        assert forall|i: int|
            0 <= i < entries.len() && (forall|j: int|
                i < j < entries.len() ==> (#[trigger] entries[j]).0 != entries[i].0)
                implies collected(entries)[(#[trigger] entries[i]).0] == entries[i].1 by {
            if i < before.len() {
                assert(before[i] == entries[i]);
                assert(entries[entries.len() - 1].0 != entries[i].0);
                assert forall|j: int| i < j < before.len() implies (#[trigger] before[j]).0
                    != before[i].0 by {
                    assert(before[j] == entries[j]);
                }
            }
        }
    }
}

/// Collecting one entry more puts that entry into the map collected so far.
pub proof fn lemma_collected_step<V>(entries: Seq<(Seq<char>, V)>, n: int)
    requires
        0 <= n < entries.len(),
    ensures
        collected(entries.take(n + 1)) == collected(entries.take(n)).insert(
            entries[n].0,
            entries[n].1,
        ),
{
    let upto = entries.take(n + 1);
    assert(upto.drop_last() =~= entries.take(n));
    assert(upto.last() == entries[n]);
}

impl<V> View for StringMap<V> {
    type V = Map<Seq<char>, V>;

    closed spec fn view(&self) -> Map<Seq<char>, V> {
        map_of(self.entries@)
    }
}

impl<V> StringMap<V> {
    #[verifier::type_invariant]
    spec fn keys_differ(self) -> bool {
        key_views(self.entries@).no_duplicates()
    }

    /// How many entries the map holds.
    pub closed spec fn spec_len(self) -> nat {
        self.entries@.len()
    }

    /// The key of the entry at a position below `spec_len`.
    pub closed spec fn spec_key_at(self, i: int) -> Seq<char> {
        self.entries@[i].0@
    }

    /// The value of the entry at a position below `spec_len`.
    pub closed spec fn spec_value_at(self, i: int) -> V {
        self.entries@[i].1
    }

    /// A map without entries.
    pub fn new() -> (m: Self)
        ensures
            m@ == Map::<Seq<char>, V>::empty(),
            m.spec_len() == 0,
    {
        let m = StringMap { entries: Vec::new() };
        assert(m@ =~= Map::<Seq<char>, V>::empty());
        m
    }

    /// The position at which a key is held, if it is held.
    fn position(&self, key: &String) -> (at: Option<usize>)
        ensures
            at is Some <==> self@.contains_key(key@),
            at matches Some(i) ==> i < self.entries@.len() && self.entries@[i as int].0@ == key@,
    {
        proof {
            use_type_invariant(self);
        }
        let mut i: usize = 0;
        while i < self.entries.len()
            invariant
                i <= self.entries@.len(),
                key_views(self.entries@).no_duplicates(),
                forall|j: int| 0 <= j < i ==> self.entries@[j].0@ != key@,
            decreases self.entries@.len() - i,
        {
            if self.entries[i].0 == *key {
                proof {
                    lemma_map_of_at(self.entries@, i as int);
                }
                return Some(i);
            }
            i = i + 1;
        }
        proof {
            let keys = key_views(self.entries@);
            if keys.contains(key@) {
                let j = keys.index_of(key@);
                assert(self.entries@[j].0@ == key@);
            }
        }
        None
    }

    /// Whether the map holds a key.
    pub fn contains_key(&self, key: &str) -> (held: bool)
        ensures
            held == self@.contains_key(key@),
    {
        let owned = key.to_owned();
        self.position(&owned).is_some()
    }

    /// The value held under a key.
    pub fn get(&self, key: &str) -> (found: Option<&V>)
        ensures
            found is Some <==> self@.contains_key(key@),
            found matches Some(v) ==> *v == self@[key@],
    {
        proof {
            use_type_invariant(self);
        }
        let owned = key.to_owned();
        match self.position(&owned) {
            Some(i) => {
                proof {
                    lemma_map_of_at(self.entries@, i as int);
                }
                Some(&self.entries[i].1)
            },
            None => None,
        }
    }

    /// Puts a value under a key. A value that the key held before is gone.
    pub fn insert(&mut self, key: String, value: V)
        ensures
            final(self)@ == old(self)@.insert(key@, value),
    {
        proof {
            use_type_invariant(&*self);
        }
        let at = self.position(&key);
        let mut entries: Vec<(String, V)> = Vec::new();
        std::mem::swap(&mut entries, &mut self.entries);
        match at {
            Some(i) => {
                proof {
                    lemma_map_of_update(entries@, i as int, key, value);
                }
                entries.set(i, (key, value));
            },
            None => {
                proof {
                    lemma_map_of_push(entries@, key, value);
                }
                entries.push((key, value));
            },
        }
        self.entries = entries;
    }

    /// How many entries the map holds. The positions below this number
    /// enumerate the map: each holds another key, and every key of the map
    /// is at one of them.
    pub fn len(&self) -> (n: usize)
        ensures
            n == self.spec_len(),
            n == self@.len(),
            self@.dom().finite(),
            forall|i: int, j: int|
                0 <= i < j < n ==> self.spec_key_at(i) != self.spec_key_at(j),
            forall|i: int|
                0 <= i < n ==> self@.contains_key(#[trigger] self.spec_key_at(i)) && self@[self.spec_key_at(
                    i,
                )] == self.spec_value_at(i),
            forall|k: Seq<char>|
                self@.contains_key(k) ==> exists|i: int|
                    0 <= i < n && #[trigger] self.spec_key_at(i) == k,
    {
        proof {
            use_type_invariant(self);
            let keys = key_views(self.entries@);
            keys.unique_seq_to_set();
            assert(self@.dom() =~= keys.to_set());
            assert forall|i: int| 0 <= i < self.entries@.len() implies self@.contains_key(
                #[trigger] self.spec_key_at(i),
            ) && self@[self.spec_key_at(i)] == self.spec_value_at(i) by {
                lemma_map_of_at(self.entries@, i);
            }
            assert forall|i: int, j: int| 0 <= i < j < self.entries@.len() implies self.spec_key_at(
                i,
            ) != self.spec_key_at(j) by {
                assert(keys[i] != keys[j]);
            }
            assert forall|k: Seq<char>| self@.contains_key(k) implies exists|i: int|
                0 <= i < self.entries@.len() && #[trigger] self.spec_key_at(i) == k by {
                let a = keys.index_of(k);
                assert(self.spec_key_at(a) == k);
            }
        }
        self.entries.len()
    }

    /// Whether the map holds nothing.
    pub fn is_empty(&self) -> (empty: bool)
        ensures
            empty == (self@.len() == 0),
            empty == (self@ == Map::<Seq<char>, V>::empty()),
    {
        let n = self.len();
        proof {
            if n == 0 {
                assert(self@ =~= Map::<Seq<char>, V>::empty());
            }
        }
        n == 0
    }

    /// The key at a position.
    pub fn key_at(&self, i: usize) -> (key: &String)
        requires
            i < self.spec_len(),
        ensures
            key@ == self.spec_key_at(i as int),
            self@.contains_key(key@),
    {
        proof {
            use_type_invariant(self);
            lemma_map_of_at(self.entries@, i as int);
        }
        &self.entries[i].0
    }

    /// The value at a position: the one that the map holds under the key at
    /// that position.
    pub fn value_at(&self, i: usize) -> (value: &V)
        requires
            i < self.spec_len(),
        ensures
            *value == self.spec_value_at(i as int),
            *value == self@[self.spec_key_at(i as int)],
    {
        proof {
            use_type_invariant(self);
            lemma_map_of_at(self.entries@, i as int);
        }
        &self.entries[i].1
    }
}

impl Clone for StringMap<String> {
    /// A map with the same keys and, under each, the same text.
    fn clone(&self) -> (m: Self)
        ensures
            m@ == self@,
            m.spec_len() == self.spec_len(),
    {
        proof {
            use_type_invariant(self);
        }
        let mut entries: Vec<(String, String)> = Vec::new();
        let mut i: usize = 0;
        while i < self.entries.len()
            invariant
                i <= self.entries@.len(),
                entries@ == self.entries@.take(i as int),
            decreases self.entries@.len() - i,
        {
            let key = self.entries[i].0.clone();
            let value = self.entries[i].1.clone();
            entries.push((key, value));
            assert(entries@ =~= self.entries@.take(i + 1));
            i = i + 1;
        }
        assert(entries@ =~= self.entries@);
        StringMap { entries }
    }
}

impl Clone for StringMap<PrayerTimesWithDate> {
    /// A map with the same keys and, under each, the same day.
    fn clone(&self) -> (m: Self)
        ensures
            m@ == self@,
            m.spec_len() == self.spec_len(),
    {
        proof {
            use_type_invariant(self);
        }
        let mut entries: Vec<(String, PrayerTimesWithDate)> = Vec::new();
        let mut i: usize = 0;
        while i < self.entries.len()
            invariant
                i <= self.entries@.len(),
                entries@ == self.entries@.take(i as int),
            decreases self.entries@.len() - i,
        {
            let key = self.entries[i].0.clone();
            let value = self.entries[i].1.clone();
            entries.push((key, value));
            assert(entries@ =~= self.entries@.take(i + 1));
            i = i + 1;
        }
        assert(entries@ =~= self.entries@);
        StringMap { entries }
    }
}

} // verus!
