//! String collections used by conditions and by a context's ambient data:
//! a set of strings and a map from string keys to sets of strings, each with
//! a mathematical view (`Set<Seq<char>>`, `Map<Seq<char>, Set<Seq<char>>>`).

use vstd::prelude::*;

verus! {

/// True when some element of `values` reads as the character sequence `x`.
spec fn has_value(values: Seq<String>, x: Seq<char>) -> bool {
    exists|i: int| 0 <= i < values.len() && values[i]@ == x
}

/// A set of strings: one attribute's values, either in a context's ambient
/// data or as the allowed values of a `string_equals` condition.
///
/// Viewed as a `Set<Seq<char>>`; duplicate insertions collapse in the view.
#[derive(Debug, PartialEq, Eq)]
pub struct StringSet {
    values: Vec<String>,
}

impl View for StringSet {
    type V = Set<Seq<char>>;

    closed spec fn view(&self) -> Set<Seq<char>> {
        Set::new(|x: Seq<char>| has_value(self.values@, x))
    }
}

impl StringSet {
    /// Creates an empty set.
    pub fn new() -> (result: StringSet)
        ensures
            result@ == Set::<Seq<char>>::empty(),
    {
        let result = StringSet { values: Vec::new() };
        proof {
            assert(result@ =~= Set::<Seq<char>>::empty());
        }
        result
    }

    /// Adds one string to the set.
    pub fn insert(&mut self, value: String)
        ensures
            final(self)@ == old(self)@.insert(value@),
    {
        let ghost v = value@;
        let ghost old_values = self.values@;
        self.values.push(value);
        proof {
            assert forall|x: Seq<char>| self@.contains(x) implies old(self)@.insert(v).contains(x) by {
                let i = choose|i: int| 0 <= i < self.values@.len() && self.values@[i]@ == x;
                if i < old_values.len() {
                    assert(old_values[i]@ == x);
                }
            }
            assert forall|x: Seq<char>| old(self)@.insert(v).contains(x) implies self@.contains(x) by {
                if x == v {
                    assert(self.values@[old_values.len() as int]@ == x);
                } else {
                    let i = choose|i: int| 0 <= i < old_values.len() && old_values[i]@ == x;
                    assert(self.values@[i]@ == x);
                }
            }
            assert(self@ =~= old(self)@.insert(v));
        }
    }

    /// Returns whether the set has no elements.
    pub fn is_empty(&self) -> (result: bool)
        ensures
            result == self@.is_empty(),
    {
        let result = self.values.len() == 0;
        proof {
            if self.values@.len() == 0 {
                assert(self@ =~= Set::<Seq<char>>::empty());
            } else {
                assert(self@.contains(self.values@[0]@));
            }
        }
        result
    }

    /// Returns whether `value` is an element of the set.
    pub fn contains(&self, value: &String) -> (result: bool)
        ensures
            result == self@.contains(value@),
    {
        let mut i: usize = 0;
        while i < self.values.len()
            invariant
                i <= self.values@.len(),
                forall|j: int| 0 <= j < i ==> self.values@[j]@ != value@,
            decreases self.values@.len() - i,
        {
            if self.values[i] == *value {
                proof {
                    assert(self.values@[i as int]@ == value@);
                }
                return true;
            }
            i = i + 1;
        }
        false
    }

    /// Returns whether every element of this set is an element of `other`.
    pub fn is_subset(&self, other: &StringSet) -> (result: bool)
        ensures
            result == self@.subset_of(other@),
    {
        let mut i: usize = 0;
        while i < self.values.len()
            invariant
                i <= self.values@.len(),
                forall|j: int| 0 <= j < i ==> other@.contains(#[trigger] self.values@[j]@),
            decreases self.values@.len() - i,
        {
            if !other.contains(&self.values[i]) {
                proof {
                    assert(self@.contains(self.values@[i as int]@));
                }
                return false;
            }
            i = i + 1;
        }
        proof {
            assert forall|x: Seq<char>| self@.contains(x) implies other@.contains(x) by {
                let j = choose|j: int| 0 <= j < self.values@.len() && self.values@[j]@ == x;
                assert(other@.contains(self.values@[j]@));
            }
        }
        true
    }
}

impl Clone for StringSet {
    /// Clones the set; the clone has the same view.
    fn clone(&self) -> (result: Self)
        ensures
            result@ == self@,
    {
        let values = self.values.clone();
        proof {
            assert forall|i: int| 0 <= i < self.values@.len() implies values[i] == self.values@[i] by {
                assert(cloned::<String>(self.values@[i], values[i]));
            }
            assert(values@ =~= self.values@);
        }
        let result = StringSet { values };
        proof {
            assert(result@ =~= self@);
        }
        result
    }
}

/// One key with its value set.
#[derive(Debug, PartialEq, Eq)]
struct MapEntry {
    key: String,
    values: StringSet,
}

impl MapEntry {
    /// Copies the entry; key and value set keep their views.
    fn duplicate(&self) -> (result: Self)
        ensures
            result.key@ == self.key@,
            result.values@ == self.values@,
    {
        MapEntry { key: self.key.clone(), values: self.values.clone() }
    }
}

/// True when some entry's key reads as the character sequence `k`.
spec fn has_key(entries: Seq<MapEntry>, k: Seq<char>) -> bool {
    exists|i: int| 0 <= i < entries.len() && entries[i].key@ == k
}

/// The index of the last entry whose key reads as `k`; a later insertion of
/// the same key shadows an earlier one.
spec fn index_of_key(entries: Seq<MapEntry>, k: Seq<char>) -> int
    decreases entries.len(),
{
    if entries.len() == 0 {
        0
    } else if entries.last().key@ == k {
        entries.len() - 1
    } else {
        index_of_key(entries.drop_last(), k)
    }
}

/// The mapping that a sequence of entries denotes.
spec fn map_of_entries(entries: Seq<MapEntry>) -> Map<Seq<char>, Set<Seq<char>>> {
    Map::new(
        |k: Seq<char>| has_key(entries, k),
        |k: Seq<char>| entries[index_of_key(entries, k)].values@,
    )
}

proof fn lemma_index_of_key(entries: Seq<MapEntry>, k: Seq<char>)
    requires
        has_key(entries, k),
    ensures
        ({
            let idx = index_of_key(entries, k);
            &&& 0 <= idx < entries.len()
            &&& entries[idx].key@ == k
            &&& forall|j: int| idx < j < entries.len() ==> entries[j].key@ != k
        }),
    decreases entries.len(),
{
    if entries.len() == 0 {
    } else if entries.last().key@ == k {
    } else {
        let i = choose|i: int| 0 <= i < entries.len() && entries[i].key@ == k;
        assert(entries.drop_last()[i] == entries[i]);
        lemma_index_of_key(entries.drop_last(), k);
        let idx = index_of_key(entries, k);
        assert(entries[idx] == entries.drop_last()[idx]);
        assert forall|j: int| idx < j < entries.len() implies entries[j].key@ != k by {
            if j < entries.len() - 1 {
                assert(entries.drop_last()[j] == entries[j]);
            }
        }
    }
}

/// The `string_equals` semantics: for every key the criteria mention, the
/// data must hold that key with at least one value, and the data's value set
/// for it must be a subset of the criteria's allowed set. An absent or empty
/// value set for a required key fails the check.
pub open spec fn criteria_satisfied(
    criteria: Map<Seq<char>, Set<Seq<char>>>,
    data: Map<Seq<char>, Set<Seq<char>>>,
) -> bool {
    forall|k: Seq<char>| #[trigger] criteria.dom().contains(k) ==> data.dom().contains(k)
        && !data[k].is_empty() && data[k].subset_of(criteria[k])
}

/// Criteria that require a key the data lacks are never satisfied, whatever
/// the other keys hold.
pub proof fn lemma_missing_key_fails_criteria(
    criteria: Map<Seq<char>, Set<Seq<char>>>,
    data: Map<Seq<char>, Set<Seq<char>>>,
    key: Seq<char>,
)
    requires
        criteria.dom().contains(key),
        !data.dom().contains(key),
    ensures
        !criteria_satisfied(criteria, data),
{
}

/// Criteria requiring a key whose data value set is empty are never
/// satisfied, whatever the other keys hold.
pub proof fn lemma_empty_value_fails_criteria(
    criteria: Map<Seq<char>, Set<Seq<char>>>,
    data: Map<Seq<char>, Set<Seq<char>>>,
    key: Seq<char>,
)
    requires
        criteria.dom().contains(key),
        data.dom().contains(key),
        data[key].is_empty(),
    ensures
        !criteria_satisfied(criteria, data),
{
}

/// Satisfied criteria bound the data: on every required key, the data holds
/// at least one value and its value set sits inside the allowed set.
pub proof fn lemma_satisfied_criteria_bound_data(
    criteria: Map<Seq<char>, Set<Seq<char>>>,
    data: Map<Seq<char>, Set<Seq<char>>>,
    key: Seq<char>,
)
    requires
        criteria_satisfied(criteria, data),
        criteria.dom().contains(key),
    ensures
        data.dom().contains(key),
        !data[key].is_empty(),
        data[key].subset_of(criteria[key]),
{
}

/// Non-empty subset containment on every required key is exactly what
/// satisfies the criteria.
pub proof fn lemma_subsets_satisfy_criteria(
    criteria: Map<Seq<char>, Set<Seq<char>>>,
    data: Map<Seq<char>, Set<Seq<char>>>,
)
    requires
        forall|k: Seq<char>| #[trigger] criteria.dom().contains(k) ==> data.dom().contains(k)
            && !data[k].is_empty() && data[k].subset_of(criteria[k]),
    ensures
        criteria_satisfied(criteria, data),
{
}

/// A mapping from string keys to sets of strings: a context's ambient request
/// data, and the criteria of a `string_equals` condition.
///
/// Viewed as a `Map<Seq<char>, Set<Seq<char>>>`; inserting an existing key
/// replaces its value set.
#[derive(Debug, PartialEq, Eq)]
pub struct StringMap {
    entries: Vec<MapEntry>,
}

impl View for StringMap {
    type V = Map<Seq<char>, Set<Seq<char>>>;

    closed spec fn view(&self) -> Map<Seq<char>, Set<Seq<char>>> {
        map_of_entries(self.entries@)
    }
}

impl StringMap {
    /// Creates an empty map.
    pub fn new() -> (result: StringMap)
        ensures
            result@ == Map::<Seq<char>, Set<Seq<char>>>::empty(),
    {
        let result = StringMap { entries: Vec::new() };
        proof {
            assert(result@ =~= Map::<Seq<char>, Set<Seq<char>>>::empty());
        }
        result
    }

    /// Binds `key` to `values`, replacing any earlier binding of the key.
    pub fn insert(&mut self, key: String, values: StringSet)
        ensures
            final(self)@ == old(self)@.insert(key@, values@),
    {
        let ghost k = key@;
        let ghost v = values@;
        let ghost old_entries = self.entries@;
        self.entries.push(MapEntry { key, values });
        proof {
            let new_entries = self.entries@;
            assert(new_entries.drop_last() =~= old_entries);
            assert(new_entries.last().key@ == k);
            assert forall|x: Seq<char>| has_key(new_entries, x) implies (x == k || has_key(
                old_entries,
                x,
            )) by {
                let i = choose|i: int| 0 <= i < new_entries.len() && new_entries[i].key@ == x;
                if i < old_entries.len() {
                    assert(old_entries[i].key@ == x);
                }
            }
            assert forall|x: Seq<char>| (x == k || has_key(old_entries, x)) implies has_key(
                new_entries,
                x,
            ) by {
                if x == k {
                    assert(new_entries[old_entries.len() as int].key@ == x);
                } else {
                    let i = choose|i: int| 0 <= i < old_entries.len() && old_entries[i].key@ == x;
                    assert(new_entries[i].key@ == x);
                }
            }
            assert forall|x: Seq<char>| #[trigger] has_key(new_entries, x) implies map_of_entries(
                new_entries,
            )[x] == old(self)@.insert(k, v)[x] by {
                if x == k {
                    assert(index_of_key(new_entries, x) == new_entries.len() - 1);
                } else {
                    assert(index_of_key(new_entries, x) == index_of_key(old_entries, x));
                    lemma_index_of_key(old_entries, x);
                    let idx = index_of_key(old_entries, x);
                    assert(new_entries[idx] == old_entries[idx]);
                }
            }
            assert(self@ =~= old(self)@.insert(k, v));
        }
    }

    /// Treats `self` as the criteria of a `string_equals` condition and
    /// decides whether `data` satisfies them.
    pub fn satisfied_by(&self, data: &StringMap) -> (result: bool)
        ensures
            result == criteria_satisfied(self@, data@),
    {
        let mut i: usize = 0;
        while i < self.entries.len()
            invariant
                i <= self.entries@.len(),
                forall|j: int| 0 <= j < i ==> {
                    let k = #[trigger] self.entries@[j].key@;
                    data@.dom().contains(k) && !data@[k].is_empty() && data@[k].subset_of(self@[k])
                },
            decreases self.entries@.len() - i,
        {
            let ghost k = self.entries@[i as int].key@;
            proof {
                assert(self@.dom().contains(k));
            }
            let key = &self.entries[i].key;
            let allowed = match self.get(key) {
                Some(allowed) => allowed,
                None => {
                    proof {
                        assert(false);
                    }
                    return false;
                },
            };
            match data.get(key) {
                Some(values) => {
                    if values.is_empty() {
                        return false;
                    }
                    if !values.is_subset(allowed) {
                        return false;
                    }
                },
                None => {
                    return false;
                },
            }
            i = i + 1;
        }
        proof {
            assert forall|k: Seq<char>| #[trigger] self@.dom().contains(k) implies data@.dom()
                .contains(k) && !data@[k].is_empty() && data@[k].subset_of(self@[k]) by {
                let j = choose|j: int| 0 <= j < self.entries@.len() && self.entries@[j].key@ == k;
                assert(self.entries@[j].key@ == k);
            }
        }
        true
    }

    /// Looks up `key`, returning the value set of its most recent binding.
    pub fn get<'a>(&'a self, key: &String) -> (result: Option<&'a StringSet>)
        ensures
            match result {
                Some(values) => self@.dom().contains(key@) && values@ == self@[key@],
                None => !self@.dom().contains(key@),
            },
    {
        let mut i: usize = 0;
        let mut found: Option<usize> = None;
        while i < self.entries.len()
            invariant
                i <= self.entries@.len(),
                match found {
                    None => forall|j: int| 0 <= j < i ==> self.entries@[j].key@ != key@,
                    Some(b) => {
                        &&& b < i
                        &&& self.entries@[b as int].key@ == key@
                        &&& forall|j: int| b < j < i ==> self.entries@[j].key@ != key@
                    },
                },
            decreases self.entries@.len() - i,
        {
            if self.entries[i].key == *key {
                found = Some(i);
            }
            i = i + 1;
        }
        match found {
            Some(b) => {
                proof {
                    assert(self.entries@[b as int].key@ == key@);
                    lemma_index_of_key(self.entries@, key@);
                    let idx = index_of_key(self.entries@, key@);
                    assert(idx == b as int);
                }
                Some(&self.entries[b].values)
            },
            None => None,
        }
    }
}

impl Clone for StringMap {
    /// Clones the map; the clone has the same view.
    fn clone(&self) -> (result: Self)
        ensures
            result@ == self@,
    {
        let mut entries: Vec<MapEntry> = Vec::new();
        let mut i: usize = 0;
        while i < self.entries.len()
            invariant
                i <= self.entries@.len(),
                entries@.len() == i,
                forall|j: int| 0 <= j < i ==> #[trigger] entries@[j].key@ == self.entries@[j].key@
                    && entries@[j].values@ == self.entries@[j].values@,
            decreases self.entries@.len() - i,
        {
            entries.push(self.entries[i].duplicate());
            i = i + 1;
        }
        proof {
            lemma_same_entry_views_same_map(entries@, self.entries@);
        }
        let result = StringMap { entries };
        proof {
            assert(result@ =~= self@);
        }
        result
    }
}

/// Two entry sequences whose keys and value sets read the same denote the
/// same mapping.
proof fn lemma_same_entry_views_same_map(e1: Seq<MapEntry>, e2: Seq<MapEntry>)
    requires
        e1.len() == e2.len(),
        forall|i: int| 0 <= i < e1.len() ==> #[trigger] e1[i].key@ == e2[i].key@ && e1[i].values@
            == e2[i].values@,
    ensures
        map_of_entries(e1) == map_of_entries(e2),
    decreases e1.len(),
{
    assert forall|x: Seq<char>| has_key(e1, x) <==> has_key(e2, x) by {
        if has_key(e1, x) {
            let i = choose|i: int| 0 <= i < e1.len() && e1[i].key@ == x;
            assert(e2[i].key@ == x);
        }
        if has_key(e2, x) {
            let i = choose|i: int| 0 <= i < e2.len() && e2[i].key@ == x;
            assert(e1[i].key@ == x);
        }
    }
    if e1.len() > 0 {
        assert forall|i: int| 0 <= i < e1.len() - 1 implies #[trigger] e1.drop_last()[i].key@
            == e2.drop_last()[i].key@ && e1.drop_last()[i].values@
            == e2.drop_last()[i].values@ by {
            assert(e1.drop_last()[i] == e1[i]);
            assert(e2.drop_last()[i] == e2[i]);
        }
        lemma_same_entry_views_same_map(e1.drop_last(), e2.drop_last());
        assert forall|x: Seq<char>| #[trigger] has_key(e1, x) implies e1[index_of_key(e1, x)].values@
            == e2[index_of_key(e2, x)].values@ by {
            if e1.last().key@ == x {
                assert(index_of_key(e1, x) == e1.len() - 1);
                assert(index_of_key(e2, x) == e2.len() - 1);
            } else {
                assert(index_of_key(e1, x) == index_of_key(e1.drop_last(), x));
                assert(index_of_key(e2, x) == index_of_key(e2.drop_last(), x));
                assert(has_key(e1.drop_last(), x)) by {
                    let i = choose|i: int| 0 <= i < e1.len() && e1[i].key@ == x;
                    assert(e1.drop_last()[i] == e1[i]);
                }
                assert(map_of_entries(e1.drop_last())[x] == map_of_entries(e2.drop_last())[x]);
                lemma_index_of_key(e1.drop_last(), x);
                lemma_index_of_key(e2.drop_last(), x);
                assert(e1.drop_last()[index_of_key(e1.drop_last(), x)]
                    == e1[index_of_key(e1.drop_last(), x)]);
                assert(e2.drop_last()[index_of_key(e2.drop_last(), x)]
                    == e2[index_of_key(e2.drop_last(), x)]);
            }
        }
    }
    assert(map_of_entries(e1) =~= map_of_entries(e2));
}

} // verus!
