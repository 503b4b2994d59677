//! A small map from names to values, kept as a list of entries.
//!
//! Names are compared by their characters. No name occurs in two entries,
//! so the list denotes a finite map.

use vstd::prelude::*;
use vstd::string::StringSliceAdditionalSpecFns;
use vstd::utf8::encode_utf8_decode_utf8;

verus! {

/// Whether two string slices hold the same characters.
pub fn str_eq(a: &str, b: &str) -> (r: bool)
    ensures
        r == (a@ == b@),
{
    let x = a.as_bytes();
    let y = b.as_bytes();
    proof {
        // Equal bytes decode to equal characters.
        encode_utf8_decode_utf8(a@);
        encode_utf8_decode_utf8(b@);
    }
    if x.len() != y.len() {
        return false;
    }
    let mut i: usize = 0;
    while i < x.len()
        invariant
            x@ == a.spec_bytes(),
            y@ == b.spec_bytes(),
            x@.len() == y@.len(),
            i <= x@.len(),
            forall|j: int| 0 <= j < i ==> x@[j] == y@[j],
        decreases x@.len() - i,
    {
        if x[i] != y[i] {
            return false;
        }
        i = i + 1;
    }
    assert(x@ =~= y@);
    true
}

/// `s` has an entry named `k`.
spec fn has_entry<V>(s: Seq<(&str, V)>, k: Seq<char>) -> bool {
    exists|i: int| 0 <= i < s.len() && (#[trigger] s[i]).0@ == k
}

/// The position of an entry named `k`, if there is one.
spec fn entry_position<V>(s: Seq<(&str, V)>, k: Seq<char>) -> int {
    choose|i: int| 0 <= i < s.len() && (#[trigger] s[i]).0@ == k
}

/// No two entries of `s` have the same name.
spec fn distinct_names<V>(s: Seq<(&str, V)>) -> bool {
    forall|i: int, j: int|
        0 <= i < s.len() && 0 <= j < s.len() && (#[trigger] s[i]).0@ == (#[trigger] s[j]).0@
            ==> i == j
}

/// The map that a list of entries with distinct names denotes.
spec fn entries_map<V>(s: Seq<(&str, V)>) -> Map<Seq<char>, V> {
    Map::new(|k: Seq<char>| has_entry(s, k), |k: Seq<char>| s[entry_position(s, k)].1)
}

/// Each entry of a list with distinct names is what the map holds under its name.
proof fn lemma_entry_is_mapped<V>(s: Seq<(&str, V)>, i: int)
    requires
        distinct_names(s),
        0 <= i < s.len(),
    ensures
        entries_map(s).contains_key(s[i].0@),
        entries_map(s)[s[i].0@] == s[i].1,
{
    let k = s[i].0@;
    assert(has_entry(s, k));
    let j = entry_position(s, k);
    assert(0 <= j < s.len() && s[j].0@ == k);
}

/// Adding an entry under a new name inserts into the map.
proof fn lemma_push_inserts<V>(s: Seq<(&str, V)>, key: &str, value: V)
    requires
        distinct_names(s),
        !has_entry(s, key@),
    ensures
        distinct_names(s.push((key, value))),
        entries_map(s.push((key, value))) == entries_map(s).insert(key@, value),
{
    let t = s.push((key, value));
    assert forall|i: int, j: int|
        0 <= i < t.len() && 0 <= j < t.len() && (#[trigger] t[i]).0@ == (#[trigger] t[j]).0@
    implies i == j by {
        if i < s.len() {
            assert(t[i] == s[i]);
        }
        if j < s.len() {
            assert(t[j] == s[j]);
        }
    }
    let m = entries_map(s).insert(key@, value);
    assert forall|k: Seq<char>| entries_map(t).contains_key(k) <==> m.contains_key(k) by {
        if has_entry(t, k) {
            let i = entry_position(t, k);
            if i < s.len() {
                assert(s[i] == t[i]);
            }
        }
        if has_entry(s, k) {
            let i = entry_position(s, k);
            assert(t[i] == s[i]);
        }
        if k == key@ {
            assert(t[s.len() as int].0@ == k);
        }
    }
    assert forall|k: Seq<char>| entries_map(t).contains_key(k) implies entries_map(t)[k] == m[k] by {
        let i = entry_position(t, k);
        lemma_entry_is_mapped(t, i);
        if i < s.len() {
            assert(s[i] == t[i]);
            lemma_entry_is_mapped(s, i);
        }
    }
    assert(entries_map(t) =~= m);
}

/// Replacing the value of an entry, under a name with the same characters,
/// overwrites the map at that name.
proof fn lemma_update_inserts<V>(s: Seq<(&str, V)>, i: int, key: &str, value: V)
    requires
        distinct_names(s),
        0 <= i < s.len(),
        s[i].0@ == key@,
    ensures
        distinct_names(s.update(i, (key, value))),
        entries_map(s.update(i, (key, value))) == entries_map(s).insert(key@, value),
{
    let t = s.update(i, (key, value));
    assert forall|a: int| 0 <= a < s.len() implies (#[trigger] t[a]).0@ == s[a].0@ by {}
    assert forall|a: int, b: int|
        0 <= a < t.len() && 0 <= b < t.len() && (#[trigger] t[a]).0@ == (#[trigger] t[b]).0@
    implies a == b by {
        assert(s[a].0@ == s[b].0@);
    }
    let m = entries_map(s).insert(key@, value);
    assert forall|k: Seq<char>| entries_map(t).contains_key(k) <==> m.contains_key(k) by {
        if has_entry(t, k) {
            let a = entry_position(t, k);
            assert(s[a].0@ == k);
        }
        if has_entry(s, k) {
            let a = entry_position(s, k);
            assert(t[a].0@ == k);
        }
        if k == key@ {
            assert(t[i].0@ == k);
        }
    }
    assert forall|k: Seq<char>| entries_map(t).contains_key(k) implies entries_map(t)[k] == m[k] by {
        let a = entry_position(t, k);
        lemma_entry_is_mapped(t, a);
        if a != i {
            assert(t[a] == s[a]);
            lemma_entry_is_mapped(s, a);
        }
    }
    assert(entries_map(t) =~= m);
}

/// A map from names to values of type `V`.
pub struct Table<'a, V> {
    entries: Vec<(&'a str, V)>,
}

impl<'a, V> Table<'a, V> {
    #[verifier::type_invariant]
    spec fn distinct(&self) -> bool {
        distinct_names(self.entries@)
    }

    /// The map that the table stands for.
    pub closed spec fn view(&self) -> Map<Seq<char>, V> {
        entries_map(self.entries@)
    }
}

impl<'a, V: Copy> Table<'a, V> {
    /// The empty table.
    pub fn new() -> (t: Self)
        ensures
            t@ == Map::<Seq<char>, V>::empty(),
    {
        let t = Table { entries: Vec::new() };
        assert(t@ =~= Map::<Seq<char>, V>::empty());
        t
    }

    /// Position of the entry named `key`.
    fn find(&self, key: &str) -> (r: Option<usize>)
        ensures
            match r {
                Some(i) => i < self.entries@.len() && self.entries@[i as int].0@ == key@,
                None => !has_entry(self.entries@, key@),
            },
    {
        let mut i: usize = 0;
        while i < self.entries.len()
            invariant
                i <= self.entries@.len(),
                forall|j: int| 0 <= j < i ==> (#[trigger] self.entries@[j]).0@ != key@,
            decreases self.entries@.len() - i,
        {
            if str_eq(self.entries[i].0, key) {
                return Some(i);
            }
            i = i + 1;
        }
        None
    }

    /// The value stored under `key`, if there is one.
    pub fn get(&self, key: &str) -> (r: Option<V>)
        ensures
            r == (if self@.contains_key(key@) {
                Some(self@[key@])
            } else {
                None
            }),
    {
        proof {
            use_type_invariant(self);
        }
        match self.find(key) {
            Some(i) => {
                proof {
                    lemma_entry_is_mapped(self.entries@, i as int);
                }
                Some(self.entries[i].1)
            },
            None => None,
        }
    }

    /// Stores `value` under `key`, in place of what was stored there before.
    pub fn insert(&mut self, key: &'a str, value: V)
        ensures
            final(self)@ == old(self)@.insert(key@, value),
    {
        proof {
            use_type_invariant(&*self);
        }
        let found = self.find(key);
        // The entries are taken out whole, changed, and put back.
        let mut taken = Table { entries: Vec::new() };
        core::mem::swap(self, &mut taken);
        let mut entries = taken.entries;
        match found {
            Some(i) => {
                proof {
                    lemma_update_inserts(entries@, i as int, key, value);
                }
                entries.set(i, (key, value));
            },
            None => {
                proof {
                    lemma_push_inserts(entries@, key, value);
                }
                entries.push((key, value));
            },
        }
        *self = Table { entries };
    }
}

} // verus!
