//! An insertion-ordered map from header names to header values.
//!
//! A name occurs at most once; writing a name again replaces its value and
//! keeps its place. The order is the order in which the response writer emits
//! the headers.
use crate::text::str_eq;
use vstd::prelude::*;

verus! {

/// Whether some entry of `entries` has the key `key`.
pub open spec fn has_key<V>(entries: Seq<(Seq<char>, V)>, key: Seq<char>) -> bool {
    exists|i: int| 0 <= i < entries.len() && (#[trigger] entries[i]).0 == key
}

/// An index at which `entries` holds `key`; the only one where the keys are distinct.
pub open spec fn key_index<V>(entries: Seq<(Seq<char>, V)>, key: Seq<char>) -> int {
    choose|i: int| 0 <= i < entries.len() && (#[trigger] entries[i]).0 == key
}

/// No key occurs twice in `entries`.
pub open spec fn distinct_keys<V>(entries: Seq<(Seq<char>, V)>) -> bool {
    forall|i: int, j: int|
        0 <= i < j < entries.len() ==> (#[trigger] entries[i]).0 != (#[trigger] entries[j]).0
}

/// The value that `entries` holds for `key`.
pub open spec fn lookup<V>(entries: Seq<(Seq<char>, V)>, key: Seq<char>) -> Option<V> {
    if has_key(entries, key) {
        Some(entries[key_index(entries, key)].1)
    } else {
        None
    }
}

/// `entries` after `key` was written with `value`: a key already there keeps
/// its place and gets the new value, a new key goes to the end.
pub open spec fn inserted<V>(entries: Seq<(Seq<char>, V)>, key: Seq<char>, value: V) -> Seq<
    (Seq<char>, V),
> {
    if has_key(entries, key) {
        entries.update(key_index(entries, key), (key, value))
    } else {
        entries.push((key, value))
    }
}

/// `entries` without the entry for `key`, the others in their order.
pub open spec fn removed<V>(entries: Seq<(Seq<char>, V)>, key: Seq<char>) -> Seq<(Seq<char>, V)> {
    if has_key(entries, key) {
        entries.remove(key_index(entries, key))
    } else {
        entries
    }
}

/// Writing a key keeps the keys distinct, makes the key present with the
/// written value, and leaves every other key as it was.
pub proof fn lemma_inserted<V>(entries: Seq<(Seq<char>, V)>, key: Seq<char>, value: V)
    requires
        distinct_keys(entries),
    ensures
        distinct_keys(inserted(entries, key, value)),
        lookup(inserted(entries, key, value), key) == Some(value),
        forall|other: Seq<char>|
            other != key ==> lookup(inserted(entries, key, value), other) == lookup(entries, other),
{
    let out = inserted(entries, key, value);
    if has_key(entries, key) {
        let k = key_index(entries, key);
        assert(out[k].0 == key);
        assert forall|i: int, j: int| 0 <= i < j < out.len() implies (#[trigger] out[i]).0 != (
        #[trigger] out[j]).0 by {
            assert(entries[i].0 != entries[j].0);
        }
        assert(has_key(out, key));
        assert(key_index(out, key) == k) by {
            let k2 = key_index(out, key);
            if k2 != k {
                assert(out[k2].0 == out[k].0);
            }
        }
        assert forall|other: Seq<char>| other != key implies lookup(out, other) == lookup(
            entries,
            other,
        ) by {
            lemma_same_keys_lookup(entries, out, other);
        }
    } else {
        let n = entries.len() as int;
        assert(out[n].0 == key);
        assert(has_key(out, key));
        assert(key_index(out, key) == n) by {
            let k2 = key_index(out, key);
            if k2 != n {
                assert(entries[k2].0 == key);
            }
        }
        assert forall|i: int, j: int| 0 <= i < j < out.len() implies (#[trigger] out[i]).0 != (
        #[trigger] out[j]).0 by {
            if j == n {
                assert(entries[i].0 != key);
            } else {
                assert(entries[i].0 != entries[j].0);
            }
        }
        assert forall|other: Seq<char>| other != key implies lookup(out, other) == lookup(
            entries,
            other,
        ) by {
            if has_key(entries, other) {
                let i = key_index(entries, other);
                assert(out[i].0 == other);
                let i2 = key_index(out, other);
                if i2 != i {
                    assert(out[i2].0 == out[i].0);
                }
            } else {
                if has_key(out, other) {
                    let i2 = key_index(out, other);
                    assert(entries[i2].0 == other);
                }
            }
        }
    }
}

/// Two sequences with distinct keys that agree on every entry with the key
/// `other` give the same value for it.
proof fn lemma_same_keys_lookup<V>(a: Seq<(Seq<char>, V)>, b: Seq<(Seq<char>, V)>, other: Seq<char>)
    requires
        a.len() == b.len(),
        distinct_keys(b),
        forall|i: int| 0 <= i < a.len() ==> (#[trigger] a[i]).0 == b[i].0,
        forall|i: int| 0 <= i < a.len() && (#[trigger] a[i]).0 == other ==> a[i] == b[i],
    ensures
        lookup(a, other) == lookup(b, other),
{
    if has_key(a, other) {
        let i = key_index(a, other);
        assert(b[i].0 == other);
        let i2 = key_index(b, other);
        if i2 != i {
            assert(b[i2].0 == b[i].0);
        }
    } else {
        if has_key(b, other) {
            let i2 = key_index(b, other);
            assert(a[i2].0 == other);
        }
    }
}

/// Removing a key keeps the keys distinct, makes the key absent, and leaves
/// every other key as it was.
pub proof fn lemma_removed<V>(entries: Seq<(Seq<char>, V)>, key: Seq<char>)
    requires
        distinct_keys(entries),
    ensures
        distinct_keys(removed(entries, key)),
        !has_key(removed(entries, key), key),
        forall|other: Seq<char>|
            other != key ==> lookup(removed(entries, key), other) == lookup(entries, other),
{
    let out = removed(entries, key);
    if has_key(entries, key) {
        let k = key_index(entries, key);
        assert forall|i: int| 0 <= i < out.len() implies #[trigger] out[i] == entries[if i < k {
            i
        } else {
            i + 1
        }] by {}
        assert forall|i: int, j: int| 0 <= i < j < out.len() implies (#[trigger] out[i]).0 != (
        #[trigger] out[j]).0 by {
            let i0 = if i < k { i } else { i + 1 };
            let j0 = if j < k { j } else { j + 1 };
            assert(entries[i0].0 != entries[j0].0);
        }
        if has_key(out, key) {
            let i = key_index(out, key);
            let i0 = if i < k { i } else { i + 1 };
            assert(entries[i0].0 == entries[k].0);
        }
        assert forall|other: Seq<char>| other != key implies lookup(out, other) == lookup(
            entries,
            other,
        ) by {
            if has_key(entries, other) {
                let i = key_index(entries, other);
                let i1 = if i < k { i } else { i - 1 };
                assert(out[i1].0 == other);
                let i2 = key_index(out, other);
                if i2 != i1 {
                    assert(out[i2].0 == out[i1].0);
                }
            } else {
                if has_key(out, other) {
                    let i2 = key_index(out, other);
                    let i0 = if i2 < k { i2 } else { i2 + 1 };
                    assert(entries[i0].0 == other);
                }
            }
        }
    }
}

/// The index of the string of `keys` that holds the characters of `key`.
pub fn position_of(keys: &Vec<String>, key: &str) -> (r: Option<usize>)
    ensures
        match r {
            Some(i) => i < keys.len() && keys@[i as int]@ == key@,
            None => forall|j: int| 0 <= j < keys.len() ==> keys@[j]@ != key@,
        },
{
    let mut i: usize = 0;
    while i < keys.len()
        invariant
            i <= keys.len(),
            forall|j: int| 0 <= j < i ==> keys@[j]@ != key@,
        decreases keys.len() - i,
    {
        if str_eq(keys[i].as_str(), key) {
            return Some(i);
        }
        i = i + 1;
    }
    None
}

/// An insertion-ordered map from header names to header values.
#[derive(Debug)]
pub struct HeaderMap {
    keys: Vec<String>,
    values: Vec<String>,
}

impl View for HeaderMap {
    type V = Seq<(Seq<char>, Seq<char>)>;

    /// The entries, in the order in which their names were first written.
    closed spec fn view(&self) -> Seq<(Seq<char>, Seq<char>)> {
        Seq::new(self.keys@.len(), |i: int| (self.keys@[i]@, self.values@[i]@))
    }
}

impl HeaderMap {
    #[verifier::type_invariant]
    spec fn well_formed(&self) -> bool {
        &&& self.keys@.len() == self.values@.len()
        &&& forall|i: int, j: int|
            0 <= i < j < self.keys@.len() ==> (#[trigger] self.keys@[i])@ != (
            #[trigger] self.keys@[j])@
    }

    /// A map without entries.
    pub fn new() -> (m: HeaderMap)
        ensures
            m@ == Seq::<(Seq<char>, Seq<char>)>::empty(),
    {
        let m = HeaderMap { keys: Vec::new(), values: Vec::new() };
        assert(m@ =~= Seq::<(Seq<char>, Seq<char>)>::empty());
        m
    }

    /// The number of entries. No name occurs in two of them.
    pub fn len(&self) -> (n: usize)
        ensures
            n == self@.len(),
            distinct_keys(self@),
    {
        proof {
            use_type_invariant(self);
        }
        self.keys.len()
    }

    pub fn is_empty(&self) -> (b: bool)
        ensures
            b == (self@.len() == 0),
    {
        self.keys.len() == 0
    }

    /// The name of the entry at `i`.
    pub fn key_at(&self, i: usize) -> (k: &String)
        requires
            i < self@.len(),
        ensures
            k@ == self@[i as int].0,
    {
        &self.keys[i]
    }

    /// The value of the entry at `i`.
    pub fn value_at(&self, i: usize) -> (v: &String)
        requires
            i < self@.len(),
        ensures
            v@ == self@[i as int].1,
    {
        proof {
            use_type_invariant(self);
        }
        &self.values[i]
    }

    /// The value written for `key`, if there is one.
    pub fn get(&self, key: &str) -> (r: Option<&String>)
        ensures
            match r {
                Some(v) => lookup(self@, key@) == Some(v@),
                None => lookup(self@, key@) is None,
            },
    {
        proof {
            use_type_invariant(self);
        }
        match position_of(&self.keys, key) {
            Some(i) => {
                proof {
                    self.lemma_index(key@, i as int);
                }
                Some(&self.values[i])
            },
            None => {
                proof {
                    self.lemma_absent(key@);
                }
                None
            },
        }
    }

    pub fn contains_key(&self, key: &str) -> (b: bool)
        ensures
            b == has_key(self@, key@),
    {
        self.get(key).is_some()
    }

    /// Writes `value` for `key`. A name that is already there keeps its place;
    /// a new name goes to the end.
    pub fn insert(&mut self, key: String, value: String)
        ensures
            final(self)@ == inserted(old(self)@, key@, value@),
            distinct_keys(final(self)@),
    {
        proof {
            use_type_invariant(&*self);
            self.lemma_distinct();
            lemma_inserted(self@, key@, value@);
        }
        let found = position_of(&self.keys, key.as_str());
        proof {
            match found {
                Some(i) => self.lemma_index(key@, i as int),
                None => self.lemma_absent(key@),
            }
        }
        let mut taken = HeaderMap::new();
        core::mem::swap(self, &mut taken);
        let HeaderMap { keys, values } = taken;
        let mut keys = keys;
        let mut values = values;
        match found {
            Some(i) => {
                values.set(i, value);
            },
            None => {
                keys.push(key);
                values.push(value);
            },
        }
        let ghost want = inserted(old(self)@, key@, value@);
        assert(Seq::new(keys@.len(), |i: int| (keys@[i]@, values@[i]@)) =~= want);
        assert forall|i: int, j: int| 0 <= i < j < keys@.len() implies (#[trigger] keys@[i])@ != (
        #[trigger] keys@[j])@ by {
            assert(want[i].0 != want[j].0);
        }
        *self = HeaderMap { keys, values };
    }

    /// Takes the entry for `key` out, if there is one.
    pub fn remove(&mut self, key: &str)
        ensures
            final(self)@ == removed(old(self)@, key@),
            distinct_keys(final(self)@),
    {
        proof {
            use_type_invariant(&*self);
            self.lemma_distinct();
            lemma_removed(self@, key@);
        }
        let found = position_of(&self.keys, key);
        proof {
            match found {
                Some(i) => self.lemma_index(key@, i as int),
                None => self.lemma_absent(key@),
            }
        }
        let mut taken = HeaderMap::new();
        core::mem::swap(self, &mut taken);
        let HeaderMap { keys, values } = taken;
        let mut keys = keys;
        let mut values = values;
        match found {
            Some(i) => {
                keys.remove(i);
                values.remove(i);
            },
            None => {},
        }
        let ghost want = removed(old(self)@, key@);
        assert(Seq::new(keys@.len(), |i: int| (keys@[i]@, values@[i]@)) =~= want);
        assert forall|i: int, j: int| 0 <= i < j < keys@.len() implies (#[trigger] keys@[i])@ != (
        #[trigger] keys@[j])@ by {
            assert(want[i].0 != want[j].0);
        }
        *self = HeaderMap { keys, values };
    }

    proof fn lemma_distinct(&self)
        requires
            self.well_formed(),
        ensures
            distinct_keys(self@),
    {
    }

    proof fn lemma_index(&self, key: Seq<char>, i: int)
        requires
            self.well_formed(),
            0 <= i < self.keys@.len(),
            self.keys@[i]@ == key,
        ensures
            has_key(self@, key),
            key_index(self@, key) == i,
    {
        assert(self@[i].0 == key);
        let k = key_index(self@, key);
        if k != i {
            assert(self.keys@[k]@ == self.keys@[i]@);
        }
    }

    proof fn lemma_absent(&self, key: Seq<char>)
        requires
            forall|j: int| 0 <= j < self.keys@.len() ==> self.keys@[j]@ != key,
        ensures
            !has_key(self@, key),
    {
        if has_key(self@, key) {
            let k = key_index(self@, key);
            assert(self.keys@[k]@ == key);
        }
    }
}

} // verus!
