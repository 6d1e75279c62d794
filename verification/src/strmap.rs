//! Association lists keyed by strings, and sets of strings.
//!
//! The switch keeps its beneficiaries, emergency requests, audit details and
//! distribution plans in these; every key occurs at most once.

use vstd::prelude::*;

verus! {

/// No key occurs twice in an association list.
pub open spec fn keys_distinct<X>(s: Seq<(Seq<char>, X)>) -> bool {
    forall|i: int, j: int| 0 <= i < s.len() && 0 <= j < s.len() && i != j ==> s[i].0 != s[j].0
}

/// The association list has an entry under key `k`.
pub open spec fn has_key<X>(s: Seq<(Seq<char>, X)>, k: Seq<char>) -> bool {
    exists|i: int| 0 <= i < s.len() && s[i].0 == k
}

/// The position of an entry under key `k` (meaningful when `has_key(s, k)`).
pub open spec fn key_pos<X>(s: Seq<(Seq<char>, X)>, k: Seq<char>) -> int {
    choose|i: int| 0 <= i < s.len() && s[i].0 == k
}

/// The value stored under key `k`, if any.
pub open spec fn lookup<X>(s: Seq<(Seq<char>, X)>, k: Seq<char>) -> Option<X> {
    if has_key(s, k) {
        Some(s[key_pos(s, k)].1)
    } else {
        None
    }
}

/// Stores `v` under `k`: replaces the entry in place when the key is present,
/// appends a new entry otherwise.
pub open spec fn upsert<X>(s: Seq<(Seq<char>, X)>, k: Seq<char>, v: X) -> Seq<(Seq<char>, X)> {
    if has_key(s, k) {
        s.update(key_pos(s, k), (k, v))
    } else {
        s.push((k, v))
    }
}

/// Drops the entry under `k`, keeping the order of the others.
pub open spec fn remove_key<X>(s: Seq<(Seq<char>, X)>, k: Seq<char>) -> Seq<(Seq<char>, X)> {
    if has_key(s, k) {
        s.remove(key_pos(s, k))
    } else {
        s
    }
}

/// In a list without repeated keys, the entry found under a key is the one at
/// any position that holds that key.
pub proof fn lemma_key_pos_unique<X>(s: Seq<(Seq<char>, X)>, i: int)
    requires
        keys_distinct(s),
        0 <= i < s.len(),
    ensures
        has_key(s, s[i].0),
        key_pos(s, s[i].0) == i,
{
}

/// In a list without repeated keys, the value found under a key is the one
/// stored at any position that holds that key.
pub proof fn lemma_lookup_at<X>(s: Seq<(Seq<char>, X)>, i: int)
    requires
        keys_distinct(s),
        0 <= i < s.len(),
    ensures
        lookup(s, s[i].0) == Some(s[i].1),
{
    lemma_key_pos_unique(s, i);
}

/// Storing a value under a key: the key then gives that value, every other
/// key what it gave before, and no key is repeated.
pub proof fn lemma_lookup_upsert<X>(s: Seq<(Seq<char>, X)>, k: Seq<char>, v: X)
    requires
        keys_distinct(s),
    ensures
        keys_distinct(upsert(s, k, v)),
        lookup(upsert(s, k, v), k) == Some(v),
        forall|k2: Seq<char>| k2 != k ==> #[trigger] lookup(upsert(s, k, v), k2) == lookup(s, k2),
        forall|k2: Seq<char>|
            #[trigger] has_key(upsert(s, k, v), k2) <==> (k2 == k || has_key(s, k2)),
{
    let t = upsert(s, k, v);
    let p = if has_key(s, k) {
        key_pos(s, k)
    } else {
        s.len() as int
    };
    assert(t[p] == (k, v));
    assert forall|i: int| 0 <= i < t.len() && i != p implies #[trigger] t[i] == s[i] by {}
    assert(keys_distinct(t)) by {
        assert forall|a: int, b: int| 0 <= a < t.len() && 0 <= b < t.len() && a != b
            implies t[a].0 != t[b].0 by {
            if a != p && b != p {
                assert(t[a] == s[a] && t[b] == s[b]);
            } else if a == p {
                assert(t[b] == s[b]);
                if has_key(s, k) {
                    assert(s[p].0 == k);
                }
            } else {
                assert(t[a] == s[a]);
                if has_key(s, k) {
                    assert(s[p].0 == k);
                }
            }
        }
    }
    lemma_lookup_at(t, p);
    assert forall|k2: Seq<char>| k2 != k implies #[trigger] lookup(t, k2) == lookup(s, k2) by {
        if has_key(s, k2) {
            let i = key_pos(s, k2);
            assert(i != p);
            assert(t[i] == s[i]);
            lemma_lookup_at(t, i);
            lemma_lookup_at(s, i);
        } else if has_key(t, k2) {
            let i = key_pos(t, k2);
            assert(i != p);
            assert(t[i] == s[i]);
        }
    }
    assert forall|k2: Seq<char>| #[trigger] has_key(t, k2) <==> (k2 == k || has_key(s, k2)) by {
        if has_key(s, k2) {
            let i = key_pos(s, k2);
            if i != p {
                assert(t[i] == s[i]);
            }
        }
        if has_key(t, k2) && k2 != k {
            let i = key_pos(t, k2);
            assert(t[i] == s[i]);
        }
    }
}

/// Dropping the entry under a key: the key then gives nothing, every other
/// key what it gave before, and no key is repeated.
pub proof fn lemma_lookup_remove<X>(s: Seq<(Seq<char>, X)>, k: Seq<char>)
    requires
        keys_distinct(s),
    ensures
        keys_distinct(remove_key(s, k)),
        !has_key(remove_key(s, k), k),
        forall|k2: Seq<char>| k2 != k ==> #[trigger] lookup(remove_key(s, k), k2) == lookup(s, k2),
        has_key(s, k) ==> remove_key(s, k).len() == s.len() - 1,
{
    if has_key(s, k) {
        let p = key_pos(s, k);
        let t = s.remove(p);
        assert forall|i: int| 0 <= i < t.len() implies #[trigger] t[i] == s[if i < p {
            i
        } else {
            i + 1
        }] by {}
        assert(keys_distinct(t)) by {
            assert forall|a: int, b: int| 0 <= a < t.len() && 0 <= b < t.len() && a != b
                implies t[a].0 != t[b].0 by {
                let a0 = if a < p { a } else { a + 1 };
                let b0 = if b < p { b } else { b + 1 };
                assert(t[a] == s[a0] && t[b] == s[b0]);
            }
        }
        assert(!has_key(t, k)) by {
            if has_key(t, k) {
                let i = choose|i: int| 0 <= i < t.len() && t[i].0 == k;
                let i0 = if i < p { i } else { i + 1 };
                assert(t[i] == s[i0]);
            }
        }
        assert forall|k2: Seq<char>| k2 != k implies #[trigger] lookup(t, k2) == lookup(s, k2) by {
            if has_key(s, k2) {
                let i = key_pos(s, k2);
                assert(i != p);
                let j = if i < p { i } else { i - 1 };
                assert(t[j] == s[i]);
                lemma_lookup_at(t, j);
                lemma_lookup_at(s, i);
            } else if has_key(t, k2) {
                let j = key_pos(t, k2);
                let j0 = if j < p { j } else { j + 1 };
                assert(t[j] == s[j0]);
            }
        }
    }
}

/// Compares a stored key with a query.
fn key_matches(stored: &String, query: &String) -> (r: bool)
    ensures
        r == (stored@ == query@),
{
    *stored == *query
}

/// The entries of a map, each key and value taken by its view.
pub closed spec fn entries_view<V: View>(e: Seq<(String, V)>) -> Seq<(Seq<char>, V::V)> {
    e.map_values(|x: (String, V)| (x.0@, x.1@))
}

/// A map from strings to values, kept as a list of entries in insertion order.
#[derive(Debug)]
pub struct StrMap<V: View> {
    entries: Vec<(String, V)>,
}

impl<V: View> View for StrMap<V> {
    type V = Seq<(Seq<char>, V::V)>;

    closed spec fn view(&self) -> Seq<(Seq<char>, V::V)> {
        entries_view(self.entries@)
    }
}

impl<V: View> StrMap<V> {
    #[verifier::type_invariant]
    closed spec fn distinct(self) -> bool {
        keys_distinct(self@)
    }

    /// An empty map.
    pub fn new() -> (m: Self)
        ensures
            m@ == Seq::<(Seq<char>, V::V)>::empty(),
    {
        let m = StrMap { entries: Vec::new() };
        assert(m@ =~= Seq::<(Seq<char>, V::V)>::empty());
        m
    }

    /// The number of entries.
    pub fn len(&self) -> (n: usize)
        ensures
            n == self@.len(),
    {
        self.entries.len()
    }

    /// Whether the map has no entries.
    pub fn is_empty(&self) -> (b: bool)
        ensures
            b == (self@.len() == 0),
    {
        self.entries.len() == 0
    }

    /// No key of the map occurs twice.
    pub fn keys_are_distinct(&self)
        ensures
            keys_distinct(self@),
    {
        proof {
            use_type_invariant(self);
        }
    }

    /// The position of the entry under `key`, if there is one.
    pub fn find(&self, key: &str) -> (r: Option<usize>)
        ensures
            match r {
                Some(i) => has_key(self@, key@) && i == key_pos(self@, key@) && i < self@.len(),
                None => !has_key(self@, key@),
            },
    {
        proof {
            use_type_invariant(self);
        }
        let query = key.to_owned();
        let n = self.entries.len();
        let mut i: usize = 0;
        while i < n
            invariant
                n == self.entries@.len(),
                n == self@.len(),
                query@ == key@,
                0 <= i <= n,
                forall|j: int| 0 <= j < i ==> self@[j].0 != key@,
                keys_distinct(self@),
            decreases n - i,
        {
            let found = key_matches(&self.entries[i].0, &query);
            assert(self@[i as int].0 == self.entries@[i as int].0@);
            if found {
                proof {
                    lemma_key_pos_unique(self@, i as int);
                }
                return Some(i);
            }
            i = i + 1;
        }
        None
    }

    /// Whether some entry is stored under `key`.
    pub fn contains_key(&self, key: &str) -> (b: bool)
        ensures
            b == has_key(self@, key@),
    {
        self.find(key).is_some()
    }

    /// The key of the entry at position `i`.
    pub fn key_at(&self, i: usize) -> (k: &String)
        requires
            i < self@.len(),
        ensures
            k@ == self@[i as int].0,
    {
        &self.entries[i].0
    }

    /// The value of the entry at position `i`.
    pub fn value_at(&self, i: usize) -> (v: &V)
        requires
            i < self@.len(),
        ensures
            v@ == self@[i as int].1,
    {
        &self.entries[i].1
    }

    /// The value stored under `key`, if any.
    pub fn get(&self, key: &str) -> (r: Option<&V>)
        ensures
            match r {
                Some(v) => lookup(self@, key@) == Some(v@),
                None => lookup(self@, key@) is None,
            },
    {
        match self.find(key) {
            Some(i) => Some(&self.entries[i].1),
            None => None,
        }
    }

    /// Stores `value` under `key`, replacing the value already there.
    pub fn insert(&mut self, key: String, value: V)
        ensures
            final(self)@ == upsert(old(self)@, key@, value@),
    {
        proof {
            use_type_invariant(&*self);
        }
        let found = self.find(key.as_str());
        match found {
            Some(i) => {
                let ghost k = key@;
                let ghost v = value@;
                let mut entries = Vec::new();
                std::mem::swap(&mut entries, &mut self.entries);
                entries.set(i, (key, value));
                assert(entries_view(entries@) =~= old(self)@.update(i as int, (k, v)));
                self.entries = entries;
            },
            None => {
                let ghost k = key@;
                let ghost v = value@;
                let mut entries = Vec::new();
                std::mem::swap(&mut entries, &mut self.entries);
                entries.push((key, value));
                assert(entries_view(entries@) =~= old(self)@.push((k, v)));
                self.entries = entries;
            },
        }
    }

    /// Takes out the entry at position `i`.
    pub fn remove_at(&mut self, i: usize) -> (e: (String, V))
        requires
            i < old(self)@.len(),
        ensures
            final(self)@ == old(self)@.remove(i as int),
            e.0@ == old(self)@[i as int].0,
            e.1@ == old(self)@[i as int].1,
    {
        proof {
            use_type_invariant(&*self);
        }
        let mut entries = Vec::new();
        std::mem::swap(&mut entries, &mut self.entries);
        let e = entries.remove(i);
        assert(entries_view(entries@) =~= old(self)@.remove(i as int));
        self.entries = entries;
        e
    }

    /// Puts an entry under a new key at position `i`.
    pub fn insert_at(&mut self, i: usize, key: String, value: V)
        requires
            i <= old(self)@.len(),
            !has_key(old(self)@, key@),
        ensures
            final(self)@ == old(self)@.insert(i as int, (key@, value@)),
    {
        proof {
            use_type_invariant(&*self);
        }
        let ghost k = key@;
        let ghost v = value@;
        let mut entries = Vec::new();
        std::mem::swap(&mut entries, &mut self.entries);
        entries.insert(i, (key, value));
        let ghost after = old(self)@.insert(i as int, (k, v));
        assert(entries_view(entries@) =~= after);
        assert(keys_distinct(after)) by {
            assert forall|a: int, b: int| 0 <= a < after.len() && 0 <= b < after.len() && a != b
                implies after[a].0 != after[b].0 by {
                if a != i && b != i {
                    let a0 = if a < i { a } else { a - 1 };
                    let b0 = if b < i { b } else { b - 1 };
                    assert(after[a] == old(self)@[a0]);
                    assert(after[b] == old(self)@[b0]);
                } else if a == i {
                    let b0 = if b < i { b } else { b - 1 };
                    assert(after[b] == old(self)@[b0]);
                } else {
                    let a0 = if a < i { a } else { a - 1 };
                    assert(after[a] == old(self)@[a0]);
                }
            }
        }
        self.entries = entries;
    }

    /// Takes out the entry under `key` and hands back its value.
    pub fn remove(&mut self, key: &str) -> (r: Option<V>)
        ensures
            final(self)@ == remove_key(old(self)@, key@),
            match r {
                Some(v) => lookup(old(self)@, key@) == Some(v@),
                None => !has_key(old(self)@, key@),
            },
    {
        proof {
            use_type_invariant(&*self);
        }
        match self.find(key) {
            Some(i) => {
                let mut entries = Vec::new();
                std::mem::swap(&mut entries, &mut self.entries);
                let (_k, v) = entries.remove(i);
                assert(entries_view(entries@) =~= old(self)@.remove(i as int));
                self.entries = entries;
                Some(v)
            },
            None => None,
        }
    }
}


/// Adds `x` to a sequence of distinct strings unless it is already there.
pub open spec fn set_insert(s: Seq<Seq<char>>, x: Seq<char>) -> Seq<Seq<char>> {
    if s.contains(x) {
        s
    } else {
        s.push(x)
    }
}

/// The strings of a set, each taken by its view.
pub closed spec fn items_view(items: Seq<String>) -> Seq<Seq<char>> {
    items.map_values(|x: String| x@)
}

/// A set of strings, kept in insertion order without repetition.
#[derive(Debug)]
pub struct StrSet {
    items: Vec<String>,
}

impl View for StrSet {
    type V = Seq<Seq<char>>;

    closed spec fn view(&self) -> Seq<Seq<char>> {
        items_view(self.items@)
    }
}

impl StrSet {
    #[verifier::type_invariant]
    closed spec fn distinct(self) -> bool {
        self@.no_duplicates()
    }

    /// An empty set.
    pub fn new() -> (s: Self)
        ensures
            s@ == Seq::<Seq<char>>::empty(),
    {
        let s = StrSet { items: Vec::new() };
        assert(s@ =~= Seq::<Seq<char>>::empty());
        s
    }

    /// The number of members.
    pub fn len(&self) -> (n: usize)
        ensures
            n == self@.len(),
    {
        self.items.len()
    }

    /// No member occurs twice.
    pub fn members_are_distinct(&self)
        ensures
            self@.no_duplicates(),
    {
        proof {
            use_type_invariant(self);
        }
    }

    /// The member at position `i`.
    pub fn member_at(&self, i: usize) -> (m: &String)
        requires
            i < self@.len(),
        ensures
            m@ == self@[i as int],
    {
        &self.items[i]
    }

    /// Whether `x` is a member.
    pub fn contains(&self, x: &str) -> (b: bool)
        ensures
            b == self@.contains(x@),
    {
        let query = x.to_owned();
        let n = self.items.len();
        let mut i: usize = 0;
        while i < n
            invariant
                n == self.items@.len(),
                n == self@.len(),
                query@ == x@,
                0 <= i <= n,
                forall|j: int| 0 <= j < i ==> self@[j] != x@,
            decreases n - i,
        {
            let found = key_matches(&self.items[i], &query);
            assert(self@[i as int] == self.items@[i as int]@);
            if found {
                return true;
            }
            i = i + 1;
        }
        false
    }

    /// Adds `x` unless it is already a member.
    pub fn insert(&mut self, x: String)
        ensures
            final(self)@ == set_insert(old(self)@, x@),
    {
        proof {
            use_type_invariant(&*self);
        }
        if !self.contains(x.as_str()) {
            let ghost v = x@;
            let mut items = Vec::new();
            std::mem::swap(&mut items, &mut self.items);
            items.push(x);
            assert(items_view(items@) =~= old(self)@.push(v));
            self.items = items;
        }
    }
}

impl Clone for StrSet {
    fn clone(&self) -> (r: Self)
        ensures
            r@ == self@,
    {
        proof {
            use_type_invariant(self);
        }
        let n = self.items.len();
        let mut items: Vec<String> = Vec::new();
        let mut i: usize = 0;
        while i < n
            invariant
                n == self.items@.len(),
                0 <= i <= n,
                items_view(items@) == items_view(self.items@).subrange(0, i as int),
            decreases n - i,
        {
            let item = &self.items[i];
            let x = item.clone();
            assert(x@ == self.items@[i as int]@);
            let ghost before = items@;
            items.push(x);
            assert(items_view(items@) =~= items_view(before).push(x@));
            assert(items_view(items@) =~= items_view(self.items@).subrange(0, i + 1));
            i = i + 1;
        }
        assert(items_view(items@) =~= items_view(self.items@));
        StrSet { items }
    }
}

} // verus!
