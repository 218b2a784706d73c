use vstd::prelude::*;
use crate::equate::Equatable;

verus! {

/// No two entries hold keys the key equality identifies: the container
/// invariant that makes a lookup unambiguous.
pub open spec fn unique_keys<K: Equatable, V>(pairs: Seq<(K, V)>) -> bool {
    forall|i: int, j: int|
        #![trigger pairs[i], pairs[j]]
        0 <= i < j < pairs.len() ==> !pairs[i].0.eq_spec(&pairs[j].0)
}

/// Some entry holds a key the key equality identifies with `key`.
pub open spec fn seq_has_key<K: Equatable, V>(pairs: Seq<(K, V)>, key: K) -> bool {
    exists|i: int| 0 <= i < pairs.len() && (#[trigger] pairs[i]).0.eq_spec(&key)
}

/// The index of the entry for `key`; meaningful only where `seq_has_key`
/// holds, and unique under `unique_keys`.
pub open spec fn key_index<K: Equatable, V>(pairs: Seq<(K, V)>, key: K) -> int {
    choose|i: int| 0 <= i < pairs.len() && (#[trigger] pairs[i]).0.eq_spec(&key)
}

/// The value associated with `key`; meaningful only where `seq_has_key`
/// holds.
pub open spec fn value_of<K: Equatable, V>(pairs: Seq<(K, V)>, key: K) -> V {
    pairs[key_index(pairs, key)].1
}

/// Some entry holds both a key identified with `key` and a value identified
/// with `value`.
pub open spec fn contains_entry<K: Equatable, V: Equatable>(
    pairs: Seq<(K, V)>,
    key: K,
    value: V,
) -> bool {
    exists|i: int|
        0 <= i < pairs.len() && (#[trigger] pairs[i]).0.eq_spec(&key) && pairs[i].1.eq_spec(&value)
}

/// The entries after binding `key` to `value`: the value of the existing
/// entry for `key` is replaced, keeping the stored key, or a fresh entry is
/// appended.
pub open spec fn inserted<K: Equatable, V>(pairs: Seq<(K, V)>, key: K, value: V) -> Seq<(K, V)> {
    if seq_has_key(pairs, key) {
        pairs.update(key_index(pairs, key), (pairs[key_index(pairs, key)].0, value))
    } else {
        pairs.push((key, value))
    }
}

/// Under `unique_keys`, any entry whose key matches `key` is the entry that
/// `key_index` and `value_of` denote.
pub proof fn lemma_matching_key_unique<K: Equatable, V>(pairs: Seq<(K, V)>, key: K, i: int)
    requires
        unique_keys(pairs),
        0 <= i < pairs.len(),
        pairs[i].0.eq_spec(&key),
    ensures
        seq_has_key(pairs, key),
        i == key_index(pairs, key),
        pairs[i].1 == value_of(pairs, key),
{
    assert(seq_has_key(pairs, key));
    let j = key_index(pairs, key);
    assert(0 <= j < pairs.len() && pairs[j].0.eq_spec(&key));
    if i != j {
        pairs[j].0.lemma_eq_symmetric(&key);
        pairs[i].0.lemma_eq_transitive(&key, &pairs[j].0);
        if j < i {
            pairs[j].0.lemma_eq_symmetric(&pairs[i].0);
        }
        assert(false);
    }
}

/// A mapping from keys to values with pairwise-distinct keys, the subject
/// shape the dictionary assertion family applies to. Entries keep their
/// insertion order, which is also the order failure messages list keys in.
pub struct Dictionary<K: Equatable, V> {
    entries: Vec<(K, V)>,
}

impl<K: Equatable, V> Dictionary<K, V> {
    /// The entries, in insertion order.
    pub closed spec fn pairs(&self) -> Seq<(K, V)> {
        self.entries@
    }

    /// The container invariant: keys are pairwise distinct.
    #[verifier::type_invariant]
    pub open spec fn wf(&self) -> bool {
        unique_keys(self.pairs())
    }

    /// An empty dictionary.
    pub fn new() -> (d: Self)
        ensures
            d.pairs() == Seq::<(K, V)>::empty(),
    {
        Dictionary { entries: Vec::new() }
    }

    /// The number of entries.
    pub fn len(&self) -> (n: usize)
        ensures
            n == self.pairs().len(),
    {
        self.entries.len()
    }

    /// The index of the entry for `key`, where there is one.
    fn index_of(&self, key: &K) -> (r: Option<usize>)
        ensures
            r is Some <==> seq_has_key(self.pairs(), *key),
            r matches Some(i) ==> i < self.pairs().len() && i as int == key_index(
                self.pairs(),
                *key,
            ) && self.pairs()[i as int].0.eq_spec(key),
    {
        proof {
            use_type_invariant(self);
        }
        let n = self.entries.len();
        let mut i: usize = 0;
        while i < n
            invariant
                i <= n,
                n == self.entries@.len(),
                unique_keys(self.entries@),
                forall|j: int| 0 <= j < i ==> !(#[trigger] self.entries@[j]).0.eq_spec(key),
            decreases n - i,
        {
            let e = &self.entries[i];
            if e.0.equals(key) {
                proof {
                    lemma_matching_key_unique(self.entries@, *key, i as int);
                }
                return Some(i);
            }
            i += 1;
        }
        proof {
            if seq_has_key(self.entries@, *key) {
                let j = choose|j: int|
                    0 <= j < self.entries@.len() && (#[trigger] self.entries@[j]).0.eq_spec(key);
                assert(!self.entries@[j].0.eq_spec(key));
            }
        }
        None
    }

    /// Looks up the value bound to `key`.
    pub fn get(&self, key: &K) -> (r: Option<&V>)
        ensures
            r is Some <==> seq_has_key(self.pairs(), *key),
            r matches Some(v) ==> *v == value_of(self.pairs(), *key),
    {
        match self.index_of(key) {
            Some(i) => Some(&self.entries[i].1),
            None => None,
        }
    }

    /// The key stored at an index, for rendering key listings.
    pub fn key_at(&self, i: usize) -> (k: &K)
        requires
            i < self.pairs().len(),
        ensures
            *k == self.pairs()[i as int].0,
    {
        &self.entries[i].0
    }

    /// Binds `key` to `value`: replaces the value of the existing entry for
    /// `key`, keeping the stored key, or appends a fresh entry.
    pub fn insert(&mut self, key: K, value: V)
        ensures
            final(self).pairs() == inserted(old(self).pairs(), key, value),
    {
        proof {
            use_type_invariant(&*self);
        }
        let ghost old_pairs = self.entries@;
        let index = self.index_of(&key);
        let mut entries: Vec<(K, V)> = Vec::new();
        core::mem::swap(&mut entries, &mut self.entries);
        match index {
            Some(i) => {
                let entry = entries.remove(i);
                entries.insert(i, (entry.0, value));
                proof {
                    old_pairs.remove_ensures(i as int);
                    let replaced = old_pairs.update(i as int, (old_pairs[i as int].0, value));
                    assert(entries@ =~= replaced);
                    assert forall|a: int, b: int|
                        0 <= a < b < replaced.len() implies !(#[trigger] replaced[a]).0.eq_spec(
                        &(#[trigger] replaced[b]).0,
                    ) by {
                        assert(replaced[a].0 == old_pairs[a].0);
                        assert(replaced[b].0 == old_pairs[b].0);
                        assert(!old_pairs[a].0.eq_spec(&old_pairs[b].0));
                    }
                }
            },
            None => {
                entries.push((key, value));
                proof {
                    let pushed = old_pairs.push((key, value));
                    assert forall|a: int, b: int|
                        0 <= a < b < pushed.len() implies !(#[trigger] pushed[a]).0.eq_spec(
                        &(#[trigger] pushed[b]).0,
                    ) by {
                        if b < old_pairs.len() {
                            assert(pushed[a] == old_pairs[a]);
                            assert(pushed[b] == old_pairs[b]);
                            assert(!old_pairs[a].0.eq_spec(&old_pairs[b].0));
                        } else {
                            assert(pushed[b] == (key, value));
                            assert(pushed[a] == old_pairs[a]);
                            if old_pairs[a].0.eq_spec(&key) {
                                assert(seq_has_key(old_pairs, key));
                            }
                        }
                    }
                }
            },
        }
        core::mem::swap(&mut entries, &mut self.entries);
    }
}

} // verus!
