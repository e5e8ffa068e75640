//! A map from date texts (or any text keys) to values, kept in increasing
//! text order of its keys, so that no key occurs twice.  It stands for the
//! maps that the store keeps: by date (statistics per day, archived tasks
//! per day, the Notion export log) and by name (settings and store keys of
//! other versions, kept as they came).

use vstd::prelude::*;
use crate::text::{
    lemma_text_lt_irreflexive, lemma_text_lt_total, lemma_text_lt_transitive, str_eq, str_le, str_lt,
    text_le, text_lt,
};

verus! {

/// The keys of a list of entries, in order.
pub open spec fn entry_keys<V>(s: Seq<(String, V)>) -> Seq<Seq<char>> {
    Seq::new(s.len(), |i: int| s[i].0@)
}

/// A list of entries is well formed when no key occurs twice.
pub open spec fn entries_wf<V>(s: Seq<(String, V)>) -> bool {
    entry_keys(s).no_duplicates()
}

/// The map that a list of entries stands for.
pub open spec fn entries_map<V>(s: Seq<(String, V)>) -> Map<Seq<char>, V> {
    Map::new(
        |k: Seq<char>| entry_keys(s).contains(k),
        |k: Seq<char>| s[entry_keys(s).index_of(k)].1,
    )
}

/// Each entry is found in the map under its key.
pub proof fn lemma_entries_map_at<V>(s: Seq<(String, V)>, i: int)
    requires
        entries_wf(s),
        0 <= i < s.len(),
    ensures
        entries_map(s).contains_key(s[i].0@),
        entries_map(s)[s[i].0@] == s[i].1,
{
    let ks = entry_keys(s);
    let k = s[i].0@;
    assert(ks[i] == k);
    assert(ks.contains(k));
    let j = ks.index_of(k);
    assert(0 <= j < ks.len() && ks[j] == k);
    assert(j == i);
}

/// A key is in the map exactly when some entry has it.
pub proof fn lemma_entries_map_dom<V>(s: Seq<(String, V)>, k: Seq<char>)
    ensures
        entries_map(s).contains_key(k) <==> exists|i: int| 0 <= i < s.len() && s[i].0@ == k,
{
    let ks = entry_keys(s);
    if entries_map(s).contains_key(k) {
        let i = choose|i: int| 0 <= i < ks.len() && ks[i] == k;
        assert(s[i].0@ == k);
    }
    if exists|i: int| 0 <= i < s.len() && s[i].0@ == k {
        let i = choose|i: int| 0 <= i < s.len() && s[i].0@ == k;
        assert(ks[i] == k);
    }
}

/// The map of a well-formed list is finite, with one key per entry.
pub proof fn lemma_entries_map_len<V>(s: Seq<(String, V)>)
    requires
        entries_wf(s),
    ensures
        entries_map(s).dom().finite(),
        entries_map(s).dom().len() == s.len(),
{
    let ks = entry_keys(s);
    assert(entries_map(s).dom() =~= ks.to_set());
    ks.unique_seq_to_set();
}

/// Replacing the value of the entry at `i`, under the same key, updates the map there.
pub proof fn lemma_entries_update<V>(s: Seq<(String, V)>, i: int, e: (String, V))
    requires
        entries_wf(s),
        0 <= i < s.len(),
        s[i].0@ == e.0@,
    ensures
        entries_wf(s.update(i, e)),
        entries_map(s.update(i, e)) == entries_map(s).insert(e.0@, e.1),
{
    let t = s.update(i, e);
    assert(entry_keys(t) =~= entry_keys(s));
    let m = entries_map(s).insert(e.0@, e.1);
    assert forall|k: Seq<char>| #[trigger] entries_map(t).contains_key(k) <==> m.contains_key(k) by {
        lemma_entries_map_at(s, i);
    }
    assert forall|k: Seq<char>| #[trigger] entries_map(t).contains_key(k) implies entries_map(t)[k]
        == m[k] by {
        assert(entry_keys(t).contains(k));
        let j = entry_keys(t).index_of(k);
        assert(0 <= j < t.len() && entry_keys(t)[j] == k);
        assert(entry_keys(s).index_of(k) == j);
        assert(entries_map(t)[k] == t[j].1);
        if j == i {
            assert(k == e.0@);
            assert(m[k] == e.1);
            assert(t[j] == e);
        } else {
            assert(t[j] == s[j]);
            assert(entries_map(s).contains_key(k));
            assert(entries_map(s)[k] == s[j].1);
            assert(entry_keys(s)[i] == e.0@);
            assert(entry_keys(s)[j] == k);
            assert(k != e.0@);
            assert(m[k] == entries_map(s)[k]);
        }
    }
    assert(entries_map(t) =~= m);
}

/// Removing the entry at `i` removes its key from the map.
pub proof fn lemma_entries_remove<V>(s: Seq<(String, V)>, i: int)
    requires
        entries_wf(s),
        0 <= i < s.len(),
    ensures
        entries_wf(s.remove(i)),
        entries_map(s.remove(i)) == entries_map(s).remove(s[i].0@),
{
    let t = s.remove(i);
    let ks = entry_keys(s);
    let kt = entry_keys(t);
    assert(kt =~= ks.remove(i));
    assert forall|a: int, b: int| 0 <= a < kt.len() && 0 <= b < kt.len() && a != b implies kt[a]
        != kt[b] by {
        let a2 = if a < i { a } else { a + 1 };
        let b2 = if b < i { b } else { b + 1 };
        assert(kt[a] == ks[a2]);
        assert(kt[b] == ks[b2]);
    }
    let m = entries_map(s).remove(s[i].0@);
    assert forall|k: Seq<char>| #[trigger] entries_map(t).contains_key(k) <==> m.contains_key(k) by {
        lemma_entries_map_dom(t, k);
        lemma_entries_map_dom(s, k);
        if m.contains_key(k) {
            let j = choose|j: int| 0 <= j < s.len() && s[j].0@ == k;
            assert(j != i);
            if j < i {
                assert(t[j].0@ == k);
            } else {
                assert(t[j - 1].0@ == k);
            }
        }
        if entries_map(t).contains_key(k) {
            let j = choose|j: int| 0 <= j < t.len() && t[j].0@ == k;
            let j2 = if j < i { j } else { j + 1 };
            assert(s[j2].0@ == k);
            assert(ks[j2] != ks[i]);
        }
    }
    assert forall|k: Seq<char>| #[trigger] entries_map(t).contains_key(k) implies entries_map(t)[k]
        == m[k] by {
        lemma_entries_map_dom(t, k);
        let j = choose|j: int| 0 <= j < t.len() && t[j].0@ == k;
        lemma_entries_map_at(t, j);
        let j2 = if j < i { j } else { j + 1 };
        lemma_entries_map_at(s, j2);
    }
    assert(entries_map(t) =~= m);
}

/// The keys of a list of entries increase strictly in text order.
pub open spec fn entries_sorted<V>(s: Seq<(String, V)>) -> bool {
    forall|i: int, j: int| 0 <= i < j < s.len() ==> text_lt(#[trigger] s[i].0@, #[trigger] s[j].0@)
}

/// Sorted keys are unique.
pub proof fn lemma_sorted_unique<V>(s: Seq<(String, V)>)
    requires
        entries_sorted(s),
    ensures
        entries_wf(s),
{
    let ks = entry_keys(s);
    assert forall|a: int, b: int| 0 <= a < ks.len() && 0 <= b < ks.len() && a != b implies ks[a]
        != ks[b] by {
        if a < b {
            assert(text_lt(s[a].0@, s[b].0@));
            lemma_text_lt_irreflexive(s[a].0@);
        } else {
            assert(text_lt(s[b].0@, s[a].0@));
            lemma_text_lt_irreflexive(s[b].0@);
        }
    }
}

/// Removing an entry keeps the keys sorted.
pub proof fn lemma_sorted_remove<V>(s: Seq<(String, V)>, i: int)
    requires
        entries_sorted(s),
        0 <= i < s.len(),
    ensures
        entries_sorted(s.remove(i)),
{
    let t = s.remove(i);
    assert forall|a: int, b: int| 0 <= a < b < t.len() implies text_lt(#[trigger] t[a].0@, #[trigger] t[b].0@) by {
        let a2 = if a < i { a } else { a + 1 };
        let b2 = if b < i { b } else { b + 1 };
        assert(t[a] == s[a2]);
        assert(t[b] == s[b2]);
    }
}

/// Inserting an entry between the smaller and the larger keys keeps them sorted.
pub proof fn lemma_sorted_insert<V>(s: Seq<(String, V)>, i: int, e: (String, V))
    requires
        entries_sorted(s),
        0 <= i <= s.len(),
        forall|j: int| 0 <= j < i ==> text_lt(#[trigger] s[j].0@, e.0@),
        forall|j: int| i <= j < s.len() ==> text_lt(e.0@, #[trigger] s[j].0@),
    ensures
        entries_sorted(s.insert(i, e)),
{
    let t = s.insert(i, e);
    assert forall|a: int, b: int| 0 <= a < b < t.len() implies text_lt(#[trigger] t[a].0@, #[trigger] t[b].0@) by {
        if b < i {
            assert(t[a] == s[a] && t[b] == s[b]);
        } else if b == i {
            assert(t[a] == s[a]);
        } else if a < i {
            assert(t[a] == s[a] && t[b] == s[b - 1]);
        } else if a == i {
            assert(t[b] == s[b - 1]);
        } else {
            assert(t[a] == s[a - 1] && t[b] == s[b - 1]);
        }
    }
}

/// Inserting an entry with a new key adds that key to the map.
pub proof fn lemma_entries_insert<V>(s: Seq<(String, V)>, i: int, e: (String, V))
    requires
        entries_wf(s),
        0 <= i <= s.len(),
        !entries_map(s).contains_key(e.0@),
    ensures
        entries_wf(s.insert(i, e)),
        entries_map(s.insert(i, e)) == entries_map(s).insert(e.0@, e.1),
{
    let t = s.insert(i, e);
    let ks = entry_keys(s);
    let kt = entry_keys(t);
    let old_index = |a: int| if a < i { a } else { a - 1 };
    assert forall|a: int| 0 <= a < t.len() && a != i implies #[trigger] t[a] == s[old_index(a)] by {}
    assert(t[i] == e);
    assert forall|a: int, b: int| 0 <= a < kt.len() && 0 <= b < kt.len() && a != b implies kt[a]
        != kt[b] by {
        assert(kt[a] == t[a].0@ && kt[b] == t[b].0@);
        if a != i && b != i {
            assert(t[a] == s[old_index(a)] && t[b] == s[old_index(b)]);
            assert(ks[old_index(a)] != ks[old_index(b)]);
        } else if a == i {
            assert(t[b] == s[old_index(b)]);
            lemma_entries_map_dom(s, e.0@);
        } else {
            assert(t[a] == s[old_index(a)]);
            lemma_entries_map_dom(s, e.0@);
        }
    }
    let m = entries_map(s).insert(e.0@, e.1);
    assert forall|k: Seq<char>| #[trigger] entries_map(t).contains_key(k) <==> m.contains_key(k) by {
        lemma_entries_map_dom(t, k);
        lemma_entries_map_dom(s, k);
        if m.contains_key(k) && k != e.0@ {
            let j = choose|j: int| 0 <= j < s.len() && s[j].0@ == k;
            let j2 = if j < i { j } else { j + 1 };
            assert(t[j2] == s[j]);
        }
        if entries_map(t).contains_key(k) && k != e.0@ {
            let j = choose|j: int| 0 <= j < t.len() && t[j].0@ == k;
            assert(j != i);
            assert(t[j] == s[old_index(j)]);
        }
        if k == e.0@ {
            assert(t[i].0@ == k);
        }
    }
    assert forall|k: Seq<char>| #[trigger] entries_map(t).contains_key(k) implies entries_map(t)[k]
        == m[k] by {
        lemma_entries_map_dom(t, k);
        let j = choose|j: int| 0 <= j < t.len() && t[j].0@ == k;
        lemma_entries_map_at(t, j);
        if j != i {
            assert(t[j] == s[old_index(j)]);
            lemma_entries_map_at(s, old_index(j));
            lemma_entries_map_dom(s, e.0@);
            assert(k != e.0@);
        }
    }
    assert(entries_map(t) =~= m);
}

/// Where in sorted entries the key `k` belongs: before the first key that
/// does not come before it.
fn position_for<V>(s: &Vec<(String, V)>, k: &str) -> (r: usize)
    ensures
        r <= s@.len(),
        forall|j: int| 0 <= j < r ==> text_lt(#[trigger] s@[j].0@, k@),
        r < s@.len() ==> !text_lt(s@[r as int].0@, k@),
{
    let n = s.len();
    let mut i: usize = 0;
    while i < n
        invariant
            n == s@.len(),
            i <= n,
            forall|j: int| 0 <= j < i ==> text_lt(#[trigger] s@[j].0@, k@),
        decreases n - i,
    {
        if !str_lt(s[i].0.as_str(), k) {
            return i;
        }
        i = i + 1;
    }
    i
}

/// Finds the position of key `k` in a list of entries.
fn find_entry<V>(s: &Vec<(String, V)>, k: &str) -> (r: Option<usize>)
    ensures
        match r {
            Some(i) => i < s@.len() && s@[i as int].0@ == k@,
            None => forall|i: int| 0 <= i < s@.len() ==> s@[i].0@ != k@,
        },
{
    let n = s.len();
    let mut i: usize = 0;
    while i < n
        invariant
            n == s@.len(),
            i <= n,
            forall|j: int| 0 <= j < i ==> s@[j].0@ != k@,
        decreases n - i,
    {
        if str_eq(s[i].0.as_str(), k) {
            return Some(i);
        }
        i = i + 1;
    }
    None
}

/// A map keyed by text, its entries in increasing order of their keys.
#[derive(Debug)]
pub struct DateMap<V> {
    entries: Vec<(String, V)>,
}

impl<V> View for DateMap<V> {
    type V = Map<Seq<char>, V>;

    closed spec fn view(&self) -> Map<Seq<char>, V> {
        entries_map(self.entries@)
    }
}

impl<V> DateMap<V> {
    #[verifier::type_invariant]
    closed spec fn inv(self) -> bool {
        entries_sorted(self.entries@)
    }

    /// The map has finitely many keys.
    pub proof fn lemma_finite(&self)
        ensures
            self@.dom().finite(),
    {
        let ks = entry_keys(self.entries@);
        assert(self@.dom() =~= ks.to_set());
        vstd::seq_lib::seq_to_set_is_finite(ks);
    }

    /// An empty map.
    pub fn new() -> (r: Self)
        ensures
            r@ == Map::<Seq<char>, V>::empty(),
    {
        let r = DateMap { entries: Vec::new() };
        assert(r@ =~= Map::<Seq<char>, V>::empty());
        r
    }

    /// The number of keys.
    pub fn len(&self) -> (r: usize)
        ensures
            self@.dom().finite(),
            r == self@.len(),
    {
        proof {
            use_type_invariant(self);
            lemma_sorted_unique(self.entries@);
            lemma_entries_map_len(self.entries@);
        }
        self.entries.len()
    }

    /// The value under `k`, if any.
    pub fn get(&self, k: &str) -> (r: Option<&V>)
        ensures
            r is Some == self@.contains_key(k@),
            r matches Some(v) ==> *v == self@[k@],
    {
        proof {
            use_type_invariant(self);
            lemma_sorted_unique(self.entries@);
            lemma_entries_map_dom(self.entries@, k@);
        }
        match find_entry(&self.entries, k) {
            Some(i) => {
                proof {
                    lemma_entries_map_at(self.entries@, i as int);
                }
                Some(&self.entries[i].1)
            },
            None => None,
        }
    }

    /// Sets the value under `k`, adding the key where it is new.
    pub fn upsert(&mut self, k: String, v: V)
        ensures
            final(self)@ == old(self)@.insert(k@, v),
    {
        proof {
            use_type_invariant(&*self);
            lemma_sorted_unique(self.entries@);
        }
        let mut entries = Vec::new();
        std::mem::swap(&mut entries, &mut self.entries);
        let ghost s = entries@;
        proof {
            lemma_entries_map_dom(s, k@);
        }
        let pos = position_for(&entries, k.as_str());
        if pos < entries.len() && str_eq(entries[pos].0.as_str(), k.as_str()) {
            proof {
                lemma_entries_update(s, pos as int, (k, v));
                assert(entry_keys(s.update(pos as int, (k, v))) =~= entry_keys(s));
                assert forall|a: int, b: int| 0 <= a < b < s.len() implies text_lt(
                    #[trigger] s.update(pos as int, (k, v))[a].0@,
                    #[trigger] s.update(pos as int, (k, v))[b].0@,
                ) by {
                    assert(s.update(pos as int, (k, v))[a].0@ == s[a].0@);
                    assert(s.update(pos as int, (k, v))[b].0@ == s[b].0@);
                }
            }
            entries.set(pos, (k, v));
        } else {
            proof {
                if (pos as int) < s.len() {
                    lemma_text_lt_total(s[pos as int].0@, k@);
                    assert forall|j: int| pos <= j < s.len() implies text_lt(k@, #[trigger] s[j].0@) by {
                        if j > pos {
                            lemma_text_lt_transitive(k@, s[pos as int].0@, s[j].0@);
                        }
                    }
                }
                assert forall|j: int| 0 <= j < s.len() implies s[j].0@ != k@ by {
                    if j < pos {
                        lemma_text_lt_irreflexive(k@);
                    } else {
                        lemma_text_lt_irreflexive(k@);
                    }
                }
                lemma_entries_insert(s, pos as int, (k, v));
                lemma_sorted_insert(s, pos as int, (k, v));
            }
            entries.insert(pos, (k, v));
        }
        self.entries = entries;
    }

    /// Removes the key `k`, giving back its value.
    pub fn remove(&mut self, k: &str) -> (r: Option<V>)
        ensures
            final(self)@ == old(self)@.remove(k@),
            r is Some == old(self)@.contains_key(k@),
            r matches Some(v) ==> v == old(self)@[k@],
    {
        proof {
            use_type_invariant(&*self);
            lemma_sorted_unique(self.entries@);
        }
        let mut entries = Vec::new();
        std::mem::swap(&mut entries, &mut self.entries);
        let ghost s = entries@;
        proof {
            lemma_entries_map_dom(s, k@);
        }
        match find_entry(&entries, k) {
            Some(i) => {
                proof {
                    lemma_entries_remove(s, i as int);
                    lemma_sorted_remove(s, i as int);
                    lemma_entries_map_at(s, i as int);
                }
                let e = entries.remove(i);
                self.entries = entries;
                Some(e.1)
            },
            None => {
                proof {
                    assert(s.len() == entries@.len());
                    assert(entries_map(s).remove(k@) =~= entries_map(s));
                }
                self.entries = entries;
                None
            },
        }
    }

    /// Keeps only the keys that do not come before `cutoff` in text order.
    pub fn retain_from(&mut self, cutoff: &str)
        ensures
            final(self)@ == old(self)@.restrict(Set::new(|k: Seq<char>| text_le(cutoff@, k))),
    {
        proof {
            use_type_invariant(&*self);
            lemma_sorted_unique(self.entries@);
        }
        let mut entries = Vec::new();
        std::mem::swap(&mut entries, &mut self.entries);
        let ghost s0 = entries@;
        let ghost keep = Set::new(|k: Seq<char>| text_le(cutoff@, k));
        let mut i: usize = 0;
        while i < entries.len()
            invariant
                entries_sorted(entries@),
                entries_wf(entries@),
                i <= entries@.len(),
                forall|k: Seq<char>| #[trigger]
                    entries_map(entries@).contains_key(k) ==> entries_map(s0).contains_key(k)
                        && entries_map(entries@)[k] == entries_map(s0)[k],
                forall|k: Seq<char>|
                    #[trigger] entries_map(s0).contains_key(k) && text_le(cutoff@, k)
                        ==> entries_map(entries@).contains_key(k),
                forall|j: int| 0 <= j < i ==> text_le(cutoff@, #[trigger] entries@[j].0@),
            decreases entries@.len() - i,
        {
            let ghost before = entries@;
            let keep_it = str_le(cutoff, entries[i].0.as_str());
            assert(keep_it == text_le(cutoff@, before[i as int].0@));
            if keep_it {
                i = i + 1;
            } else {
                proof {
                    lemma_entries_remove(before, i as int);
                    lemma_sorted_remove(before, i as int);
                }
                entries.remove(i);
                assert(entries_map(entries@) == entries_map(before).remove(before[i as int].0@));
                assert forall|j: int| 0 <= j < i implies text_le(cutoff@, #[trigger] entries@[j].0@) by {
                    assert(entries@[j] == before[j]);
                }
            }
        }
        proof {
            let m = entries_map(s0).restrict(keep);
            assert forall|k: Seq<char>| #[trigger] entries_map(entries@).contains_key(k) implies text_le(cutoff@, k) by {
                lemma_entries_map_dom(entries@, k);
            }
            assert(entries_map(entries@) =~= m);
        }
        self.entries = entries;
    }

    /// The smallest key in text order, if the map is not empty.
    pub fn min_key(&self) -> (r: Option<String>)
        ensures
            r is None == (self@.dom() == Set::<Seq<char>>::empty()),
            r matches Some(k) ==> self@.contains_key(k@) && forall|k2: Seq<char>| #[trigger]
                self@.contains_key(k2) ==> text_le(k@, k2),
    {
        proof {
            use_type_invariant(self);
            lemma_sorted_unique(self.entries@);
        }
        let n = self.entries.len();
        if n == 0 {
            assert(self@.dom() =~= Set::<Seq<char>>::empty());
            return None;
        }
        let mut best: usize = 0;
        let mut i: usize = 1;
        while i < n
            invariant
                n == self.entries@.len(),
                1 <= i <= n,
                best < i,
                forall|j: int| 0 <= j < i ==> text_le(self.entries@[best as int].0@, #[trigger] self.entries@[j].0@),
            decreases n - i,
        {
            if str_lt(self.entries[i].0.as_str(), self.entries[best].0.as_str()) {
                proof {
                    let ki = self.entries@[i as int].0@;
                    let kb = self.entries@[best as int].0@;
                    assert forall|j: int| 0 <= j < i + 1 implies text_le(ki, #[trigger] self.entries@[j].0@) by {
                        if j < i {
                            let kj = self.entries@[j].0@;
                            if kb != kj {
                                lemma_text_lt_transitive(ki, kb, kj);
                            }
                        } else {
                        }
                    }
                }
                best = i;
            } else {
                proof {
                    let ki = self.entries@[i as int].0@;
                    let kb = self.entries@[best as int].0@;
                    lemma_text_lt_total(ki, kb);
                }
            }
            i = i + 1;
        }
        proof {
            lemma_entries_map_at(self.entries@, best as int);
            assert forall|k2: Seq<char>| #[trigger] self@.contains_key(k2) implies text_le(
                self.entries@[best as int].0@,
                k2,
            ) by {
                lemma_entries_map_dom(self.entries@, k2);
            }
        }
        Some(self.entries[best].0.clone())
    }

    /// The entries, each once, in increasing text order of their keys.
    pub fn entries(&self) -> (r: &Vec<(String, V)>)
        ensures
            r@.len() == self@.len(),
            forall|i: int, j: int| 0 <= i < j < r@.len() ==> text_lt(#[trigger] r@[i].0@, #[trigger] r@[j].0@),
            forall|i: int| 0 <= i < r@.len() ==> self@.contains_key(#[trigger] r@[i].0@)
                && self@[r@[i].0@] == r@[i].1,
            forall|k: Seq<char>| #[trigger] self@.contains_key(k) ==> exists|i: int| 0 <= i < r@.len() && r@[i].0@ == k,
    {
        proof {
            use_type_invariant(self);
            lemma_sorted_unique(self.entries@);
            lemma_entries_map_len(self.entries@);
            assert forall|i: int| 0 <= i < self.entries@.len() implies self@.contains_key(#[trigger] self.entries@[i].0@)
                && self@[self.entries@[i].0@] == self.entries@[i].1 by {
                lemma_entries_map_at(self.entries@, i);
            }
            assert forall|k: Seq<char>| #[trigger] self@.contains_key(k) implies exists|i: int| 0 <= i < self.entries@.len() && self.entries@[i].0@ == k by {
                lemma_entries_map_dom(self.entries@, k);
            }
        }
        &self.entries
    }
}

/// The view of a map of texts, each text by its characters.
pub open spec fn text_map_view(m: Map<Seq<char>, String>) -> Map<Seq<char>, Seq<char>> {
    m.map_values(|s: String| s@)
}

impl DateMap<String> {
    /// A copy of a map of texts.
    pub fn clone_texts(&self) -> (r: Self)
        ensures
            r@ == self@,
    {
        let es = self.entries();
        let mut r: DateMap<String> = DateMap::new();
        let mut i: usize = 0;
        while i < es.len()
            invariant
                i <= es@.len(),
                es@.len() == self@.len(),
                forall|j: int| 0 <= j < es@.len() ==> self@.contains_key(#[trigger] es@[j].0@)
                    && self@[es@[j].0@] == es@[j].1,
                forall|k: Seq<char>| #[trigger] self@.contains_key(k) ==> exists|j: int|
                    0 <= j < es@.len() && es@[j].0@ == k,
                forall|k: Seq<char>| #[trigger] r@.contains_key(k) ==> self@.contains_key(k)
                    && r@[k] == self@[k],
                forall|j: int| 0 <= j < i ==> r@.contains_key(#[trigger] es@[j].0@),
            decreases es@.len() - i,
        {
            let k = es[i].0.clone();
            let v = es[i].1.clone();
            r.upsert(k, v);
            i = i + 1;
        }
        assert forall|k: Seq<char>| #[trigger] self@.contains_key(k) implies r@.contains_key(k) by {
            let j = choose|j: int| 0 <= j < es@.len() && es@[j].0@ == k;
        }
        assert(r@ =~= self@);
        r
    }
}

} // verus!
