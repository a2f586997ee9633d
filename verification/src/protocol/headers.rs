use vstd::prelude::*;

use super::text::same_text;

verus! {

/// Whether some entry of `pairs` has the name `key`.
pub open spec fn has_key<V>(pairs: Seq<(Seq<char>, V)>, key: Seq<char>) -> bool {
    exists|i: int| 0 <= i < pairs.len() && (#[trigger] pairs[i]).0 == key
}

/// The position of an entry of `pairs` named `key` (meaningful when `has_key` holds).
pub open spec fn key_position<V>(pairs: Seq<(Seq<char>, V)>, key: Seq<char>) -> int {
    choose|i: int| 0 <= i < pairs.len() && (#[trigger] pairs[i]).0 == key
}

/// Whether no two entries of `pairs` carry the same name.
pub open spec fn keys_distinct<V>(pairs: Seq<(Seq<char>, V)>) -> bool {
    forall|i: int, j: int|
        0 <= i < pairs.len() && 0 <= j < pairs.len() && i != j ==> (#[trigger] pairs[i]).0 != (
        #[trigger] pairs[j]).0
}

/// The entries after setting `key` to `value`: an entry with that name is replaced in place,
/// otherwise the new entry goes last.
pub open spec fn pairs_insert<V>(
    pairs: Seq<(Seq<char>, V)>,
    key: Seq<char>,
    value: V,
) -> Seq<(Seq<char>, V)> {
    if has_key(pairs, key) {
        pairs.update(key_position(pairs, key), (key, value))
    } else {
        pairs.push((key, value))
    }
}

/// The value stored under `key`, if any.
pub open spec fn pairs_get<V>(pairs: Seq<(Seq<char>, V)>, key: Seq<char>) -> Option<V> {
    if has_key(pairs, key) {
        Some(pairs[key_position(pairs, key)].1)
    } else {
        None
    }
}

/// The entries without the one named `key`.
pub open spec fn pairs_remove<V>(pairs: Seq<(Seq<char>, V)>, key: Seq<char>) -> Seq<(Seq<char>, V)> {
    if has_key(pairs, key) {
        pairs.remove(key_position(pairs, key))
    } else {
        pairs
    }
}

/// The entries as a map from names to values.
pub open spec fn pairs_map<V>(pairs: Seq<(Seq<char>, V)>) -> Map<Seq<char>, V> {
    Map::new(|k: Seq<char>| has_key(pairs, k), |k: Seq<char>| pairs_get(pairs, k).unwrap())
}

/// When names are distinct, the position of a name is the one position that carries it.
pub proof fn lemma_key_position_unique<V>(pairs: Seq<(Seq<char>, V)>, i: int)
    requires
        keys_distinct(pairs),
        0 <= i < pairs.len(),
    ensures
        has_key(pairs, pairs[i].0),
        key_position(pairs, pairs[i].0) == i,
{
    let k = pairs[i].0;
    assert(has_key(pairs, k));
    let j = key_position(pairs, k);
    assert(pairs[j].0 == k);
}

/// Inserting keeps the names distinct.
pub proof fn lemma_insert_distinct<V>(
    pairs: Seq<(Seq<char>, V)>,
    key: Seq<char>,
    value: V,
)
    requires
        keys_distinct(pairs),
    ensures
        keys_distinct(pairs_insert(pairs, key, value)),
        pairs_get(pairs_insert(pairs, key, value), key) == Some(value),
{
    let r = pairs_insert(pairs, key, value);
    if has_key(pairs, key) {
        let p = key_position(pairs, key);
        assert(r[p].0 == key);
        assert forall|i: int, j: int|
            0 <= i < r.len() && 0 <= j < r.len() && i != j implies (#[trigger] r[i]).0 != (
            #[trigger] r[j]).0 by {
            if i == p {
                assert(pairs[j].0 != pairs[p].0);
            } else if j == p {
                assert(pairs[i].0 != pairs[p].0);
            } else {
                assert(pairs[i].0 != pairs[j].0);
            }
        }
        lemma_key_position_unique(r, p);
    } else {
        assert forall|i: int, j: int|
            0 <= i < r.len() && 0 <= j < r.len() && i != j implies (#[trigger] r[i]).0 != (
            #[trigger] r[j]).0 by {
            if i == pairs.len() {
                assert(!(0 <= j < pairs.len() && pairs[j].0 == key));
            } else if j == pairs.len() {
                assert(!(0 <= i < pairs.len() && pairs[i].0 == key));
            } else {
                assert(pairs[i].0 != pairs[j].0);
            }
        }
        lemma_key_position_unique(r, pairs.len() as int);
    }
}

/// The position of the entry named `key` in `entries`, if there is one.
fn position_of(entries: &Vec<(String, String)>, key: &String) -> (r: Option<usize>)
    ensures
        r matches Some(i) ==> i < entries@.len() && entries@[i as int].0@ == key@,
        r is None ==> forall|j: int| 0 <= j < entries@.len() ==> (#[trigger] entries@[j]).0@ != key@,
{
    let mut i: usize = 0;
    while i < entries.len()
        invariant
            i <= entries.len(),
            forall|j: int| 0 <= j < i ==> (#[trigger] entries@[j]).0@ != key@,
        decreases entries.len() - i,
    {
        if entries[i].0 == *key {
            return Some(i);
        }
        i = i + 1;
    }
    None
}

/// Setting a header: reading that name gives the new value, and every other name reads as
/// before.
pub proof fn lemma_insert_get<V>(
    pairs: Seq<(Seq<char>, V)>,
    key: Seq<char>,
    value: V,
    other: Seq<char>,
)
    requires
        keys_distinct(pairs),
    ensures
        pairs_get(pairs_insert(pairs, key, value), other) == if other == key {
            Some(value)
        } else {
            pairs_get(pairs, other)
        },
{
    lemma_insert_distinct(pairs, key, value);
    let r = pairs_insert(pairs, key, value);
    if other != key {
        if has_key(pairs, other) {
            let j = key_position(pairs, other);
            lemma_key_position_unique(pairs, j);
            assert(r[j] == pairs[j]);
            lemma_key_position_unique(r, j);
        } else {
            if has_key(r, other) {
                let j = key_position(r, other);
                assert(r[j].0 == other);
                assert(j < pairs.len() && pairs[j] == r[j]);
            }
        }
    }
}

/// Removing an entry keeps the names distinct; that name then reads as absent, and every
/// other name reads as before.
pub proof fn lemma_remove_get<V>(pairs: Seq<(Seq<char>, V)>, key: Seq<char>, other: Seq<char>)
    requires
        keys_distinct(pairs),
    ensures
        keys_distinct(pairs_remove(pairs, key)),
        pairs_get(pairs_remove(pairs, key), other) == if other == key {
            None
        } else {
            pairs_get(pairs, other)
        },
{
    let r = pairs_remove(pairs, key);
    if has_key(pairs, key) {
        let p = key_position(pairs, key);
        assert forall|i: int, j: int|
            0 <= i < r.len() && 0 <= j < r.len() && i != j implies (#[trigger] r[i]).0 != (
            #[trigger] r[j]).0 by {
            let i2 = if i < p { i } else { i + 1 };
            let j2 = if j < p { j } else { j + 1 };
            assert(r[i] == pairs[i2] && r[j] == pairs[j2]);
        }
        if has_key(r, other) {
            let j = key_position(r, other);
            let j2 = if j < p { j } else { j + 1 };
            assert(r[j] == pairs[j2]);
            lemma_key_position_unique(pairs, j2);
            lemma_key_position_unique(r, j);
            assert(other != key);
        } else if other != key && has_key(pairs, other) {
            let j = key_position(pairs, other);
            assert(j != p);
            let j1 = if j < p { j } else { j - 1 };
            assert(r[j1] == pairs[j]);
        }
    }
}

/// The headers of a frame: named values, each name at most once, in the order in which
/// they were first set.
#[derive(Debug)]
pub struct Headers {
    entries: Vec<(String, String)>,
}

impl Headers {
    /// The entries as (name, value) character sequences, in order.
    pub closed spec fn pairs(&self) -> Seq<(Seq<char>, Seq<char>)> {
        self.entries@.map_values(|e: (String, String)| (e.0@, e.1@))
    }

    /// No two headers share a name.
    #[verifier::type_invariant]
    pub open spec fn names_distinct(&self) -> bool {
        keys_distinct(self.pairs())
    }

    /// No headers.
    pub fn new() -> (r: Headers)
        ensures
            r.pairs() == Seq::<(Seq<char>, Seq<char>)>::empty(),
    {
        let r = Headers { entries: Vec::new() };
        assert(r.pairs() =~= Seq::<(Seq<char>, Seq<char>)>::empty());
        r
    }

    /// The number of headers.
    pub fn len(&self) -> (r: usize)
        ensures
            r == self.pairs().len(),
    {
        self.entries.len()
    }

    /// The name and value of the header at position `i`.
    pub fn entry(&self, i: usize) -> (r: (&String, &String))
        requires
            i < self.pairs().len(),
        ensures
            r.0@ == self.pairs()[i as int].0,
            r.1@ == self.pairs()[i as int].1,
    {
        let e = &self.entries[i];
        (&e.0, &e.1)
    }

    /// Sets header `key` to `value`, replacing the value of a header of that name.
    pub fn insert(&mut self, key: String, value: String)
        ensures
            final(self).pairs() == pairs_insert(old(self).pairs(), key@, value@),
    {
        proof {
            use_type_invariant(&*self);
        }
        let ghost before = self.pairs();
        let mut entries: Vec<(String, String)> = Vec::new();
        std::mem::swap(&mut entries, &mut self.entries);
        assert(entries@.map_values(|e: (String, String)| (e.0@, e.1@)) == before);
        let found = position_of(&entries, &key);
        proof {
            lemma_insert_distinct(before, key@, value@);
        }
        if let Some(i) = found {
            proof {
                lemma_key_position_unique(before, i as int);
            }
            entries.set(i, (key, value));
        } else {
            assert(!has_key(before, key@));
            entries.push((key, value));
        }
        assert(entries@.map_values(|e: (String, String)| (e.0@, e.1@)) =~= pairs_insert(
            before,
            key@,
            value@,
        ));
        self.entries = entries;
    }

    /// The value of header `key`, if it is set.
    pub fn get(&self, key: &str) -> (r: Option<&String>)
        ensures
            r is Some <==> has_key(self.pairs(), key@),
            r matches Some(v) ==> pairs_get(self.pairs(), key@) == Some(v@),
    {
        proof {
            use_type_invariant(self);
        }
        let mut i: usize = 0;
        while i < self.entries.len()
            invariant
                i <= self.entries.len(),
                keys_distinct(self.pairs()),
                forall|j: int| 0 <= j < i ==> self.pairs()[j].0 != key@,
            decreases self.entries.len() - i,
        {
            if same_text(self.entries[i].0.as_str(), key) {
                proof {
                    lemma_key_position_unique(self.pairs(), i as int);
                }
                return Some(&self.entries[i].1);
            }
            i = i + 1;
        }
        None
    }

    /// Whether header `key` is set.
    pub fn contains_key(&self, key: &str) -> (r: bool)
        ensures
            r == has_key(self.pairs(), key@),
    {
        self.get(key).is_some()
    }
}

impl Clone for Headers {
    fn clone(&self) -> (r: Headers)
        ensures
            r.pairs() == self.pairs(),
    {
        proof {
            use_type_invariant(self);
        }
        let mut entries: Vec<(String, String)> = Vec::new();
        let mut i: usize = 0;
        while i < self.entries.len()
            invariant
                i <= self.entries.len(),
                entries@.len() == i,
                forall|j: int|
                    0 <= j < i ==> (#[trigger] entries@[j]).0@ == self.entries@[j].0@
                        && entries@[j].1@ == self.entries@[j].1@,
            decreases self.entries.len() - i,
        {
            let e = &self.entries[i];
            entries.push((e.0.clone(), e.1.clone()));
            i = i + 1;
        }
        assert(entries@.map_values(|e: (String, String)| (e.0@, e.1@)) =~= self.pairs());
        Headers { entries }
    }
}

impl View for Headers {
    type V = Map<Seq<char>, Seq<char>>;

    open spec fn view(&self) -> Map<Seq<char>, Seq<char>> {
        pairs_map(self.pairs())
    }
}

} // verus!
