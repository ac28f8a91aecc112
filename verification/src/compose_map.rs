//! Finite maps kept as insertion-ordered entry lists in which a later entry
//! for a key replaces an earlier one: the compose table (keysym sequences to
//! text) and the locale tables (names to names).

use vstd::prelude::*;
use crate::text::chars_eq;

verus! {

/// The map that a list of entries stands for: each entry, in order, sets
/// its key to its value.
pub open spec fn fold_entries<K, V>(s: Seq<(K, V)>) -> Map<K, V>
    decreases s.len(),
{
    if s.len() == 0 {
        Map::empty()
    } else {
        fold_entries(s.drop_last()).insert(s.last().0, s.last().1)
    }
}

/// A key is in the map exactly when some entry has it.
pub proof fn lemma_fold_contains<K, V>(s: Seq<(K, V)>, k: K)
    ensures
        fold_entries(s).contains_key(k) <==> exists|i: int| 0 <= i < s.len() && (#[trigger] s[i]).0 == k,
    decreases s.len(),
{
    if s.len() > 0 {
        lemma_fold_contains(s.drop_last(), k);
        if fold_entries(s.drop_last()).contains_key(k) {
            let i = choose|i: int| 0 <= i < s.drop_last().len() && (#[trigger] s.drop_last()[i]).0 == k;
            assert(s[i] == s.drop_last()[i]);
        }
        if exists|i: int| 0 <= i < s.len() && (#[trigger] s[i]).0 == k {
            let i = choose|i: int| 0 <= i < s.len() && (#[trigger] s[i]).0 == k;
            if i < s.len() - 1 {
                assert(s.drop_last()[i] == s[i]);
            }
        }
    }
}

/// The value of a key is that of its last entry.
pub proof fn lemma_fold_value<K, V>(s: Seq<(K, V)>, i: int)
    requires
        0 <= i < s.len(),
        forall|j: int| i < j < s.len() ==> (#[trigger] s[j]).0 != s[i].0,
    ensures
        fold_entries(s).contains_key(s[i].0),
        fold_entries(s)[s[i].0] == s[i].1,
    decreases s.len(),
{
    if i < s.len() - 1 {
        assert forall|j: int| i < j < s.drop_last().len() implies (#[trigger] s.drop_last()[j]).0
            != s.drop_last()[i].0 by {
            assert(s.drop_last()[j] == s[j]);
        }
        lemma_fold_value(s.drop_last(), i);
        assert(s.drop_last()[i] == s[i]);
        assert(s[s.len() - 1].0 != s[i].0);
    }
}

/// Appending an entry inserts it into the map.
pub proof fn lemma_fold_push<K, V>(s: Seq<(K, V)>, k: K, v: V)
    ensures
        fold_entries(s.push((k, v))) == fold_entries(s).insert(k, v),
{
    assert(s.push((k, v)).drop_last() =~= s);
}

/// The map is empty exactly when there are no entries.
pub proof fn lemma_fold_empty<K, V>(s: Seq<(K, V)>)
    ensures
        (fold_entries(s) == Map::<K, V>::empty()) <==> s.len() == 0,
{
    if s.len() > 0 {
        assert(fold_entries(s).contains_key(s.last().0));
        assert(!Map::<K, V>::empty().contains_key(s.last().0));
    }
}

/// A compose table: keysym sequences and the text each composes to.
#[derive(Clone, Debug)]
pub struct ComposeMap {
    entries: Vec<(Vec<u32>, String)>,
}

/// The entries of a compose table, as plain values.
pub open spec fn compose_entries_view(e: Seq<(Vec<u32>, String)>) -> Seq<(Seq<u32>, Seq<char>)> {
    e.map_values(|p: (Vec<u32>, String)| (p.0@, p.1@))
}

impl View for ComposeMap {
    type V = Map<Seq<u32>, Seq<char>>;

    closed spec fn view(&self) -> Map<Seq<u32>, Seq<char>> {
        fold_entries(compose_entries_view(self.entries@))
    }
}

/// Whether `p` is a prefix of some key of `m`.
pub open spec fn has_key_with_prefix(m: Map<Seq<u32>, Seq<char>>, p: Seq<u32>) -> bool {
    exists|k: Seq<u32>| m.contains_key(k) && p.is_prefix_of(k)
}

fn keys_eq(a: &[u32], b: &[u32]) -> (r: bool)
    ensures
        r == (a@ == b@),
{
    if a.len() != b.len() {
        return false;
    }
    let mut i: usize = 0;
    while i < a.len()
        invariant
            a@.len() == b@.len(),
            i <= a@.len(),
            forall|j: int| 0 <= j < i ==> a@[j] == b@[j],
        decreases a@.len() - i,
    {
        if a[i] != b[i] {
            return false;
        }
        i += 1;
    }
    assert(a@ =~= b@);
    true
}

fn is_key_prefix(p: &[u32], k: &[u32]) -> (r: bool)
    ensures
        r == p@.is_prefix_of(k@),
{
    if p.len() > k.len() {
        return false;
    }
    let mut i: usize = 0;
    while i < p.len()
        invariant
            p@.len() <= k@.len(),
            i <= p@.len(),
            forall|j: int| 0 <= j < i ==> p@[j] == k@[j],
        decreases p@.len() - i,
    {
        if p[i] != k[i] {
            assert(p@[i as int] != k@.subrange(0, p@.len() as int)[i as int]);
            return false;
        }
        i += 1;
    }
    assert(p@ =~= k@.subrange(0, p@.len() as int));
    true
}

fn copy_keys(k: &Vec<u32>) -> (r: Vec<u32>)
    ensures
        r@ == k@,
{
    let mut r: Vec<u32> = Vec::new();
    let mut i: usize = 0;
    while i < k.len()
        invariant
            i <= k@.len(),
            r@ == k@.take(i as int),
        decreases k@.len() - i,
    {
        r.push(k[i]);
        assert(k@.take(i as int).push(k@[i as int]) =~= k@.take(i + 1));
        i += 1;
    }
    assert(k@.take(k@.len() as int) =~= k@);
    r
}

impl ComposeMap {
    /// The empty table.
    pub fn new() -> (r: ComposeMap)
        ensures
            r@ == Map::<Seq<u32>, Seq<char>>::empty(),
    {
        let r = ComposeMap { entries: Vec::new() };
        assert(compose_entries_view(r.entries@) =~= Seq::empty());
        r
    }

    /// Sets `key` to compose to `text`, replacing what it composed to before.
    pub fn insert(&mut self, key: Vec<u32>, text: String)
        ensures
            final(self)@ == old(self)@.insert(key@, text@),
    {
        let ghost old_entries = self.entries@;
        let ghost k = key@;
        let ghost t = text@;
        self.entries.push((key, text));
        proof {
            assert(compose_entries_view(self.entries@) =~= compose_entries_view(old_entries).push(
                (k, t),
            ));
            lemma_fold_push(compose_entries_view(old_entries), k, t);
        }
    }

    /// Whether the table has no entry.
    pub fn is_empty(&self) -> (r: bool)
        ensures
            r == (self@ == Map::<Seq<u32>, Seq<char>>::empty()),
    {
        proof {
            lemma_fold_empty(compose_entries_view(self.entries@));
        }
        self.entries.len() == 0
    }

    /// The text that `key` composes to, if it is in the table.
    pub fn get(&self, key: &Vec<u32>) -> (r: Option<String>)
        ensures
            r is Some == self@.contains_key(key@),
            r matches Some(t) ==> t@ == self@[key@],
    {
        let ghost s = compose_entries_view(self.entries@);
        let mut i = self.entries.len();
        while i > 0
            invariant
                i <= self.entries@.len(),
                s == compose_entries_view(self.entries@),
                forall|j: int| i <= j < s.len() ==> (#[trigger] s[j]).0 != key@,
            decreases i,
        {
            i -= 1;
            if keys_eq(&self.entries[i].0, key) {
                proof {
                    lemma_fold_value(s, i as int);
                }
                return Some(self.entries[i].1.clone());
            }
        }
        proof {
            lemma_fold_contains(s, key@);
        }
        None
    }

    /// Whether some key of the table starts with `prefix`.
    pub fn has_prefix(&self, prefix: &Vec<u32>) -> (r: bool)
        ensures
            r == has_key_with_prefix(self@, prefix@),
    {
        let ghost s = compose_entries_view(self.entries@);
        let mut i: usize = 0;
        while i < self.entries.len()
            invariant
                i <= self.entries@.len(),
                s == compose_entries_view(self.entries@),
                forall|j: int| 0 <= j < i ==> !prefix@.is_prefix_of((#[trigger] s[j]).0),
            decreases self.entries@.len() - i,
        {
            if is_key_prefix(prefix, &self.entries[i].0) {
                proof {
                    lemma_fold_contains(s, s[i as int].0);
                }
                return true;
            }
            i += 1;
        }
        proof {
            assert forall|k: Seq<u32>| self@.contains_key(k) implies !prefix@.is_prefix_of(k) by {
                lemma_fold_contains(s, k);
                let j = choose|j: int| 0 <= j < s.len() && (#[trigger] s[j]).0 == k;
            }
        }
        false
    }

    /// A table with the same entries.
    pub fn duplicate(&self) -> (r: ComposeMap)
        ensures
            r@ == self@,
    {
        let mut entries: Vec<(Vec<u32>, String)> = Vec::new();
        let mut i: usize = 0;
        while i < self.entries.len()
            invariant
                i <= self.entries@.len(),
                compose_entries_view(entries@) == compose_entries_view(self.entries@).take(i as int),
            decreases self.entries@.len() - i,
        {
            let key = copy_keys(&self.entries[i].0);
            let text = self.entries[i].1.clone();
            let ghost before = entries@;
            entries.push((key, text));
            assert(compose_entries_view(entries@) =~= compose_entries_view(before).push(
                (self.entries@[i as int].0@, self.entries@[i as int].1@),
            ));
            assert(compose_entries_view(entries@) =~= compose_entries_view(self.entries@).take(
                i + 1,
            ));
            i += 1;
        }
        assert(compose_entries_view(self.entries@).take(self.entries@.len() as int)
            =~= compose_entries_view(self.entries@));
        ComposeMap { entries }
    }
}


/// A table from names to names (locale aliases, locale to compose file).
#[derive(Debug)]
pub struct LocaleMap {
    entries: Vec<(Vec<char>, String)>,
}

/// The entries of a name table, as plain values.
pub open spec fn locale_entries_view(e: Seq<(Vec<char>, String)>) -> Seq<(Seq<char>, Seq<char>)> {
    e.map_values(|p: (Vec<char>, String)| (p.0@, p.1@))
}

impl View for LocaleMap {
    type V = Map<Seq<char>, Seq<char>>;

    closed spec fn view(&self) -> Map<Seq<char>, Seq<char>> {
        fold_entries(locale_entries_view(self.entries@))
    }
}

impl LocaleMap {
    /// The empty table.
    pub fn new() -> (r: LocaleMap)
        ensures
            r@ == Map::<Seq<char>, Seq<char>>::empty(),
    {
        let r = LocaleMap { entries: Vec::new() };
        assert(locale_entries_view(r.entries@) =~= Seq::empty());
        r
    }

    /// Sets `key` to `value`, replacing what it was set to before.
    pub fn insert(&mut self, key: Vec<char>, value: String)
        ensures
            final(self)@ == old(self)@.insert(key@, value@),
    {
        let ghost old_entries = self.entries@;
        let ghost k = key@;
        let ghost v = value@;
        self.entries.push((key, value));
        proof {
            assert(locale_entries_view(self.entries@) =~= locale_entries_view(old_entries).push(
                (k, v),
            ));
            lemma_fold_push(locale_entries_view(old_entries), k, v);
        }
    }

    /// The value of `key`, if it is set.
    pub fn get(&self, key: &[char]) -> (r: Option<String>)
        ensures
            r is Some == self@.contains_key(key@),
            r matches Some(t) ==> t@ == self@[key@],
    {
        let ghost s = locale_entries_view(self.entries@);
        let mut i = self.entries.len();
        while i > 0
            invariant
                i <= self.entries@.len(),
                s == locale_entries_view(self.entries@),
                forall|j: int| i <= j < s.len() ==> (#[trigger] s[j]).0 != key@,
            decreases i,
        {
            i -= 1;
            if chars_eq(self.entries[i].0.as_slice(), key) {
                proof {
                    lemma_fold_value(s, i as int);
                }
                return Some(self.entries[i].1.clone());
            }
        }
        proof {
            lemma_fold_contains(s, key@);
        }
        None
    }
}

} // verus!
