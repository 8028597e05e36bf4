//! A map from strings to strings, such as the attributes of an element or a storage area.

use vstd::prelude::*;

use crate::text::str_eq;

verus! {

/// The map that a list of pairs describes; of two pairs with one key the later counts.
pub open spec fn pairs_map<V>(pairs: Seq<(Seq<char>, V)>) -> Map<Seq<char>, V>
    decreases pairs.len(),
{
    if pairs.len() == 0 {
        Map::empty()
    } else {
        pairs_map(pairs.drop_last()).insert(pairs.last().0, pairs.last().1)
    }
}

/// Whether no two pairs share a key.
pub open spec fn distinct_keys<V>(pairs: Seq<(Seq<char>, V)>) -> bool {
    forall|i: int, j: int| 0 <= i < j < pairs.len() ==> pairs[i].0 != pairs[j].0
}

/// The keys of `pairs_map` are the keys of the pairs.
pub proof fn lemma_pairs_map_domain<V>(pairs: Seq<(Seq<char>, V)>)
    ensures
        forall|k: Seq<char>|
            pairs_map(pairs).contains_key(k) <==> exists|i: int|
                0 <= i < pairs.len() && #[trigger] pairs[i].0 == k,
    decreases pairs.len(),
{
    if pairs.len() > 0 {
        let init = pairs.drop_last();
        lemma_pairs_map_domain(init);
        assert forall|k: Seq<char>|
            pairs_map(pairs).contains_key(k) <==> exists|i: int|
                0 <= i < pairs.len() && #[trigger] pairs[i].0 == k by {
            if pairs_map(pairs).contains_key(k) {
                if k == pairs.last().0 {
                    assert(pairs[pairs.len() - 1].0 == k);
                } else {
                    assert(pairs_map(init).contains_key(k));
                    let i = choose|i: int| 0 <= i < init.len() && #[trigger] init[i].0 == k;
                    assert(pairs[i].0 == k);
                }
            }
            if exists|i: int| 0 <= i < pairs.len() && #[trigger] pairs[i].0 == k {
                let i = choose|i: int| 0 <= i < pairs.len() && #[trigger] pairs[i].0 == k;
                if i < init.len() {
                    assert(init[i].0 == k);
                    assert(pairs_map(init).contains_key(k));
                }
            }
        }
    }
}

/// With distinct keys, every pair is in the map.
pub proof fn lemma_pairs_map_values<V>(pairs: Seq<(Seq<char>, V)>)
    requires
        distinct_keys(pairs),
    ensures
        forall|i: int|
            0 <= i < pairs.len() ==> pairs_map(pairs).contains_key(#[trigger] pairs[i].0)
                && pairs_map(pairs)[pairs[i].0] == pairs[i].1,
    decreases pairs.len(),
{
    if pairs.len() > 0 {
        let init = pairs.drop_last();
        assert(distinct_keys(init)) by {
            assert forall|i: int, j: int| 0 <= i < j < init.len() implies init[i].0
                != init[j].0 by {
                assert(pairs[i].0 != pairs[j].0);
            }
        }
        lemma_pairs_map_values(init);
        assert forall|i: int| 0 <= i < pairs.len() implies pairs_map(pairs).contains_key(
            #[trigger] pairs[i].0,
        ) && pairs_map(pairs)[pairs[i].0] == pairs[i].1 by {
            if i < init.len() {
                assert(init[i] == pairs[i]);
                assert(pairs[i].0 != pairs[pairs.len() - 1].0);
            }
        }
    }
}

/// With distinct keys, a map is fixed by its keys and the value at each pair's key.
pub proof fn lemma_pairs_map_unique<V>(pairs: Seq<(Seq<char>, V)>, m: Map<Seq<char>, V>)
    requires
        distinct_keys(pairs),
        forall|k: Seq<char>|
            m.contains_key(k) <==> exists|i: int|
                0 <= i < pairs.len() && #[trigger] pairs[i].0 == k,
        forall|i: int| 0 <= i < pairs.len() ==> m[#[trigger] pairs[i].0] == pairs[i].1,
    ensures
        pairs_map(pairs) == m,
{
    lemma_pairs_map_domain(pairs);
    lemma_pairs_map_values(pairs);
    assert forall|k: Seq<char>| m.contains_key(k) implies pairs_map(pairs)[k] == m[k] by {
        let i = choose|i: int| 0 <= i < pairs.len() && #[trigger] pairs[i].0 == k;
    }
    assert(pairs_map(pairs) =~= m);
}

/// A map from strings to strings. No key occurs twice.
#[derive(Debug)]
pub struct StringMap {
    entries: Vec<(String, String)>,
}

impl StringMap {
    /// The pairs in the order in which their keys were first inserted.
    pub closed spec fn pairs(&self) -> Seq<(Seq<char>, Seq<char>)> {
        Seq::new(self.entries@.len(), |i: int| (self.entries@[i].0@, self.entries@[i].1@))
    }

    #[verifier::type_invariant]
    closed spec fn inv(&self) -> bool {
        distinct_keys(self.pairs())
    }
}

impl View for StringMap {
    type V = Map<Seq<char>, Seq<char>>;

    open spec fn view(&self) -> Map<Seq<char>, Seq<char>> {
        pairs_map(self.pairs())
    }
}

impl StringMap {
    /// The empty map.
    pub fn new() -> (res: Self)
        ensures
            res@ == Map::<Seq<char>, Seq<char>>::empty(),
            res.pairs().len() == 0,
    {
        let entries: Vec<(String, String)> = Vec::new();
        StringMap { entries }
    }

    /// The number of keys. Every key has a position, and no two positions share a key.
    pub fn len(&self) -> (res: usize)
        ensures
            res == self.pairs().len(),
            distinct_keys(self.pairs()),
            forall|k: Seq<char>|
                self@.contains_key(k) <==> exists|i: int|
                    0 <= i < self.pairs().len() && #[trigger] self.pairs()[i].0 == k,
    {
        proof {
            use_type_invariant(self);
            lemma_pairs_map_domain(self.pairs());
        }
        self.entries.len()
    }

    /// Whether the map has no key.
    pub fn is_empty(&self) -> (res: bool)
        ensures
            res == (self@ == Map::<Seq<char>, Seq<char>>::empty()),
    {
        proof {
            lemma_pairs_map_domain(self.pairs());
            if self.pairs().len() > 0 {
                assert(self@.contains_key(self.pairs()[0].0));
            } else {
                assert(self@ =~= Map::empty());
            }
        }
        self.entries.len() == 0
    }

    /// The key of the pair at position `i`.
    pub fn key_at(&self, i: usize) -> (res: &String)
        requires
            i < self.pairs().len(),
        ensures
            res@ == self.pairs()[i as int].0,
            self@.contains_key(res@),
    {
        proof {
            use_type_invariant(self);
            lemma_pairs_map_values(self.pairs());
        }
        &self.entries[i].0
    }

    /// The value of the pair at position `i`.
    pub fn value_at(&self, i: usize) -> (res: &String)
        requires
            i < self.pairs().len(),
        ensures
            res@ == self.pairs()[i as int].1,
            res@ == self@[self.pairs()[i as int].0],
    {
        proof {
            use_type_invariant(self);
            lemma_pairs_map_values(self.pairs());
        }
        &self.entries[i].1
    }

    fn position(&self, key: &str) -> (res: Option<usize>)
        ensures
            match res {
                Some(i) => i < self.entries@.len() && self.pairs()[i as int].0 == key@,
                None => forall|j: int|
                    0 <= j < self.pairs().len() ==> #[trigger] self.pairs()[j].0 != key@,
            },
    {
        let mut i: usize = 0;
        while i < self.entries.len()
            invariant
                i <= self.entries@.len(),
                forall|j: int| 0 <= j < i ==> #[trigger] self.pairs()[j].0 != key@,
            decreases self.entries@.len() - i,
        {
            if str_eq(self.entries[i].0.as_str(), key) {
                return Some(i);
            }
            i += 1;
        }
        None
    }

    /// The value of a key, if the map has it.
    pub fn get(&self, key: &str) -> (res: Option<&String>)
        ensures
            match res {
                Some(value) => self@.contains_key(key@) && value@ == self@[key@],
                None => !self@.contains_key(key@),
            },
    {
        proof {
            use_type_invariant(self);
            lemma_pairs_map_domain(self.pairs());
            lemma_pairs_map_values(self.pairs());
        }
        match self.position(key) {
            Some(i) => Some(&self.entries[i].1),
            None => None,
        }
    }

    /// Whether the map has a key.
    pub fn contains_key(&self, key: &str) -> (res: bool)
        ensures
            res == self@.contains_key(key@),
    {
        self.get(key).is_some()
    }

    /// Sets the value of a key.
    pub fn insert(&mut self, key: String, value: String)
        ensures
            final(self)@ == old(self)@.insert(key@, value@),
    {
        let ghost before = self.pairs();
        proof {
            use_type_invariant(&*self);
            lemma_pairs_map_domain(before);
            lemma_pairs_map_values(before);
        }
        let found = self.position(key.as_str());
        let ghost k = key@;
        let ghost v = value@;
        let mut entries: Vec<(String, String)> = Vec::new();
        std::mem::swap(&mut entries, &mut self.entries);
        match found {
            Some(i) => {
                entries[i] = (key, value);
            },
            None => {
                entries.push((key, value));
            },
        }
        let ghost after = Seq::new(entries@.len(), |j: int| (entries@[j].0@, entries@[j].1@));
        proof {
            assert(distinct_keys(after)) by {
                assert forall|i: int, j: int| 0 <= i < j < after.len() implies after[i].0
                    != after[j].0 by {
                    if j < before.len() {
                        assert(before[i].0 != before[j].0);
                        assert(after[i].0 == before[i].0);
                        assert(after[j].0 == before[j].0);
                    } else {
                        assert(after[i].0 == before[i].0);
                        assert(pairs_map(before).contains_key(before[i].0));
                    }
                }
            }
            let m = pairs_map(before).insert(k, v);
            assert forall|x: Seq<char>|
                m.contains_key(x) <==> exists|i: int|
                    0 <= i < after.len() && #[trigger] after[i].0 == x by {
                if m.contains_key(x) {
                    if x == k {
                        match found {
                            Some(i) => assert(after[i as int].0 == x),
                            None => assert(after[before.len() as int].0 == x),
                        }
                    } else {
                        let i = choose|i: int| 0 <= i < before.len() && #[trigger] before[i].0 == x;
                        assert(after[i].0 == x);
                    }
                }
                if exists|i: int| 0 <= i < after.len() && #[trigger] after[i].0 == x {
                    let i = choose|i: int| 0 <= i < after.len() && #[trigger] after[i].0 == x;
                    if i < before.len() {
                        assert(before[i].0 == x);
                    }
                }
            }
            assert forall|i: int| 0 <= i < after.len() implies m[#[trigger] after[i].0]
                == after[i].1 by {
                if i < before.len() {
                    assert(before[i].0 == after[i].0);
                }
            }
            lemma_pairs_map_unique(after, m);
        }
        *self = StringMap { entries };
        assert(self.pairs() =~= after);
    }

    /// Removes a key, if the map has it.
    pub fn remove(&mut self, key: &str)
        ensures
            final(self)@ == old(self)@.remove(key@),
    {
        let ghost before = self.pairs();
        proof {
            use_type_invariant(&*self);
            lemma_pairs_map_domain(before);
            lemma_pairs_map_values(before);
        }
        let found = self.position(key);
        match found {
            None => {
                assert(self@.remove(key@) =~= self@);
            },
            Some(at) => {
                let mut entries: Vec<(String, String)> = Vec::new();
                std::mem::swap(&mut entries, &mut self.entries);
                entries.remove(at);
                let ghost after = Seq::new(
                    entries@.len(),
                    |j: int| (entries@[j].0@, entries@[j].1@),
                );
                proof {
                    assert(after =~= before.remove(at as int));
                    let m = pairs_map(before).remove(key@);
                    assert(distinct_keys(after)) by {
                        assert forall|i: int, j: int| 0 <= i < j < after.len() implies after[i].0
                            != after[j].0 by {
                            let a = if i < at { i } else { i + 1 };
                            let b = if j < at { j } else { j + 1 };
                            assert(before[a].0 != before[b].0);
                        }
                    }
                    assert forall|x: Seq<char>|
                        m.contains_key(x) <==> exists|i: int|
                            0 <= i < after.len() && #[trigger] after[i].0 == x by {
                        if m.contains_key(x) {
                            let i = choose|i: int|
                                0 <= i < before.len() && #[trigger] before[i].0 == x;
                            let b = if i < at { i } else { i - 1 };
                            assert(after[b].0 == x);
                        }
                        if exists|i: int| 0 <= i < after.len() && #[trigger] after[i].0 == x {
                            let i = choose|i: int|
                                0 <= i < after.len() && #[trigger] after[i].0 == x;
                            let a = if i < at { i } else { i + 1 };
                            assert(before[a].0 == x);
                            assert(before[at as int].0 == key@);
                        }
                    }
                    assert forall|i: int| 0 <= i < after.len() implies m[#[trigger] after[i].0]
                        == after[i].1 by {
                        let a = if i < at { i } else { i + 1 };
                        assert(before[a].0 == after[i].0);
                        assert(before[at as int].0 == key@);
                    }
                    lemma_pairs_map_unique(after, m);
                }
                *self = StringMap { entries };
                assert(self.pairs() =~= after);
            },
        }
    }

    /// Whether two maps hold the same pairs.
    pub fn same_as(&self, other: &StringMap) -> (res: bool)
        ensures
            res == (self@ == other@),
    {
        proof {
            use_type_invariant(self);
            use_type_invariant(other);
            lemma_pairs_map_domain(self.pairs());
            lemma_pairs_map_domain(other.pairs());
            lemma_pairs_map_values(self.pairs());
            lemma_pairs_map_values(other.pairs());
        }
        let mut i: usize = 0;
        while i < self.entries.len()
            invariant
                i <= self.entries@.len(),
                self@.contains_key(self.pairs()[i as int].0) || i == self.entries@.len(),
                forall|j: int|
                    0 <= j < self.pairs().len() ==> self@.contains_key(#[trigger] self.pairs()[j].0)
                        && self@[self.pairs()[j].0] == self.pairs()[j].1,
                forall|j: int|
                    0 <= j < i ==> other@.contains_key(#[trigger] self.pairs()[j].0)
                        && other@[self.pairs()[j].0] == self.pairs()[j].1,
            decreases self.entries@.len() - i,
        {
            match other.get(self.entries[i].0.as_str()) {
                Some(value) => {
                    if !str_eq(value.as_str(), self.entries[i].1.as_str()) {
                        assert(self@[self.pairs()[i as int].0] != other@[self.pairs()[i as int].0]);
                        return false;
                    }
                },
                None => {
                    return false;
                },
            }
            i += 1;
        }
        let mut i: usize = 0;
        while i < other.entries.len()
            invariant
                i <= other.entries@.len(),
                forall|j: int|
                    0 <= j < other.pairs().len() ==> other@.contains_key(
                        #[trigger] other.pairs()[j].0,
                    ),
                forall|j: int|
                    0 <= j < i ==> self@.contains_key(#[trigger] other.pairs()[j].0),
            decreases other.entries@.len() - i,
        {
            assert(other@.contains_key(other.pairs()[i as int].0));
            if !self.contains_key(other.entries[i].0.as_str()) {
                return false;
            }
            i += 1;
        }
        proof {
            assert forall|k: Seq<char>| #[trigger]
                self@.contains_key(k) == other@.contains_key(k) by {
                if self@.contains_key(k) {
                    let j = choose|j: int|
                        0 <= j < self.pairs().len() && #[trigger] self.pairs()[j].0 == k;
                    assert(other@.contains_key(self.pairs()[j].0));
                }
                if other@.contains_key(k) {
                    let j = choose|j: int|
                        0 <= j < other.pairs().len() && #[trigger] other.pairs()[j].0 == k;
                    assert(self@.contains_key(other.pairs()[j].0));
                }
            }
            assert forall|k: Seq<char>| self@.contains_key(k) implies self@[k] == other@[k] by {
                let j = choose|j: int|
                    0 <= j < self.pairs().len() && #[trigger] self.pairs()[j].0 == k;
                assert(other@.contains_key(self.pairs()[j].0));
            }
            assert(self@ =~= other@);
        }
        true
    }
}

impl Clone for StringMap {
    fn clone(&self) -> (res: Self)
        ensures
            res@ == self@,
            res.pairs() == self.pairs(),
    {
        let mut entries: Vec<(String, String)> = Vec::new();
        let mut i: usize = 0;
        while i < self.entries.len()
            invariant
                i <= self.entries@.len(),
                entries@.len() == i,
                forall|j: int|
                    0 <= j < i ==> (#[trigger] entries@[j]).0@ == self.entries@[j].0@
                        && entries@[j].1@ == self.entries@[j].1@,
            decreases self.entries@.len() - i,
        {
            entries.push((self.entries[i].0.clone(), self.entries[i].1.clone()));
            i += 1;
        }
        proof {
            use_type_invariant(self);
            let copied = Seq::new(entries@.len(), |j: int| (entries@[j].0@, entries@[j].1@));
            assert(copied =~= self.pairs());
        }
        let res = StringMap { entries };
        assert(res.pairs() =~= self.pairs());
        res
    }
}

impl Default for StringMap {
    fn default() -> (res: Self)
        ensures
            res@ == Map::<Seq<char>, Seq<char>>::empty(),
    {
        StringMap::new()
    }
}

impl PartialEq for StringMap {
    fn eq(&self, other: &StringMap) -> (res: bool) {
        self.same_as(other)
    }
}

impl vstd::std_specs::cmp::PartialEqSpecImpl for StringMap {
    open spec fn obeys_eq_spec() -> bool {
        true
    }

    open spec fn eq_spec(&self, other: &StringMap) -> bool {
        self@ == other@
    }
}

impl Eq for StringMap {

}

} // verus!
