//! A map from text to values that keeps its entries in the order in which their keys came.

use vstd::prelude::*;

verus! {

/// Some entry has the key.
pub open spec fn has_key<W>(entries: Seq<(Seq<char>, W)>, key: Seq<char>) -> bool {
    exists|i: int| 0 <= i < entries.len() && (#[trigger] entries[i]).0 == key
}

/// No key occurs twice.
pub open spec fn distinct_keys<W>(entries: Seq<(Seq<char>, W)>) -> bool {
    forall|i: int, j: int|
        0 <= i < j < entries.len() ==> (#[trigger] entries[i]).0 != (#[trigger] entries[j]).0
}

/// The value of the first entry with the key.
pub open spec fn lookup<W>(entries: Seq<(Seq<char>, W)>, key: Seq<char>) -> Option<W>
    decreases entries.len(),
{
    if entries.len() == 0 {
        None
    } else if entries[0].0 == key {
        Some(entries[0].1)
    } else {
        lookup(entries.drop_first(), key)
    }
}

/// The entries once `key` has been given `value`: in place of the value it had, or else behind
/// all others.
pub open spec fn put<W>(entries: Seq<(Seq<char>, W)>, key: Seq<char>, value: W) -> Seq<
    (Seq<char>, W),
> {
    if has_key(entries, key) {
        Seq::new(
            entries.len(),
            |i: int|
                if entries[i].0 == key {
                    (key, value)
                } else {
                    entries[i]
                },
        )
    } else {
        entries.push((key, value))
    }
}

/// The entries with each value replaced by what `f` makes of it.
pub open spec fn mapped<V, W>(entries: Seq<(Seq<char>, V)>, f: spec_fn(V) -> W) -> Seq<
    (Seq<char>, W),
> {
    Seq::new(entries.len(), |i: int| (entries[i].0, f(entries[i].1)))
}

/// A map from text to values. Each key occurs once.
#[derive(Debug, Clone)]
pub struct StringMap<V> {
    entries: Vec<(String, V)>,
}

impl<V> StringMap<V> {
    /// The entries, in the order in which their keys came.
    pub closed spec fn view(&self) -> Seq<(String, V)> {
        self.entries@
    }

    /// The entries, with their keys as text.
    pub open spec fn keyed(&self) -> Seq<(Seq<char>, V)> {
        Seq::new(self@.len(), |i: int| (self@[i].0@, self@[i].1))
    }

    /// No key occurs twice.
    pub open spec fn wf(&self) -> bool {
        distinct_keys(self.keyed())
    }

    /// A map without entries.
    pub fn new() -> (map: Self)
        ensures
            map.wf(),
            map@ == Seq::<(String, V)>::empty(),
    {
        StringMap { entries: Vec::new() }
    }

    /// The number of entries.
    pub fn len(&self) -> (len: usize)
        ensures
            len == self@.len(),
    {
        self.entries.len()
    }

    /// The entry at a place in the order.
    pub fn entry(&self, i: usize) -> (entry: &(String, V))
        requires
            i < self@.len(),
        ensures
            *entry == self@[i as int],
    {
        &self.entries[i]
    }

    /// The value of a key.
    pub fn get(&self, key: &str) -> (value: Option<&V>)
        ensures
            value is Some <==> lookup(self.keyed(), key@) is Some,
            value matches Some(v) ==> lookup(self.keyed(), key@) == Some(*v),
    {
        let wanted: String = key.to_owned();
        let ghost keyed = self.keyed();
        let mut i: usize = 0;
        assert(keyed.skip(0) =~= keyed);
        while i < self.entries.len()
            invariant
                i <= self.entries.len(),
                keyed == self.keyed(),
                wanted@ == key@,
                lookup(keyed, key@) == lookup(keyed.skip(i as int), key@),
            decreases self.entries.len() - i,
        {
            if self.entries[i].0 == wanted {
                return Some(&self.entries[i].1);
            }
            assert(keyed.skip(i as int).drop_first() =~= keyed.skip(i + 1));
            i += 1;
        }
        None
    }

    /// Give a key a value.
    pub fn insert(&mut self, key: String, value: V)
        requires
            old(self).wf(),
        ensures
            final(self).wf(),
            final(self).keyed() == put(old(self).keyed(), key@, value),
    {
        let ghost keyed = self.keyed();
        let mut i: usize = 0;
        while i < self.entries.len()
            invariant
                *self == *old(self),
                keyed == self.keyed(),
                distinct_keys(keyed),
                i <= self.entries.len(),
                forall|j: int| 0 <= j < i ==> (#[trigger] keyed[j]).0 != key@,
            decreases self.entries.len() - i,
        {
            if self.entries[i].0 == key {
                assert(keyed[i as int].0 == key@);
                assert forall|j: int| 0 <= j < keyed.len() && j != i implies (#[trigger] keyed[j]).0
                    != key@ by {
                    if j > i {
                        assert(keyed[i as int].0 != keyed[j].0);
                    }
                }
                self.entries[i].1 = value;
                assert(self.keyed() =~= put(keyed, key@, value));
                return;
            }
            i += 1;
        }
        self.entries.push((key, value));
        assert(self.keyed() =~= put(keyed, key@, value));
    }
}

impl<V> Default for StringMap<V> {
    fn default() -> (map: Self)
        ensures
            map.wf(),
            map@ == Seq::<(String, V)>::empty(),
    {
        StringMap::new()
    }
}

/// The value that is found is that of the first entry with the key.
proof fn lemma_lookup_first<W>(entries: Seq<(Seq<char>, W)>, key: Seq<char>, i: int)
    requires
        0 <= i < entries.len(),
        entries[i].0 == key,
        forall|j: int| 0 <= j < i ==> (#[trigger] entries[j]).0 != key,
    ensures
        lookup(entries, key) == Some(entries[i].1),
    decreases i,
{
    if i > 0 {
        let rest = entries.drop_first();
        assert forall|j: int| 0 <= j < i - 1 implies (#[trigger] rest[j]).0 != key by {
            assert(rest[j] == entries[j + 1]);
        }
        lemma_lookup_first(rest, key, i - 1);
    }
}

/// A key has a value exactly where some entry has the key.
pub proof fn lemma_lookup_finds_keys<W>(entries: Seq<(Seq<char>, W)>, key: Seq<char>)
    ensures
        lookup(entries, key) is Some <==> has_key(entries, key),
    decreases entries.len(),
{
    if entries.len() > 0 {
        let rest = entries.drop_first();
        lemma_lookup_finds_keys(rest, key);
        if has_key(entries, key) && entries[0].0 != key {
            let i = choose|i: int| 0 <= i < entries.len() && (#[trigger] entries[i]).0 == key;
            assert(rest[i - 1].0 == key);
        }
        if has_key(rest, key) {
            let i = choose|i: int| 0 <= i < rest.len() && (#[trigger] rest[i]).0 == key;
            assert(entries[i + 1].0 == key);
        }
        if entries[0].0 == key {
            assert(has_key(entries, key));
        }
    }
}

/// Where no key occurs twice, each entry holds the value of its key.
pub proof fn lemma_lookup_entry<W>(entries: Seq<(Seq<char>, W)>, i: int)
    requires
        distinct_keys(entries),
        0 <= i < entries.len(),
    ensures
        lookup(entries, entries[i].0) == Some(entries[i].1),
{
    lemma_lookup_first(entries, entries[i].0, i);
}

/// A key has the value that it was given last, and giving it one changes no other key. No key
/// comes to occur twice.
pub proof fn lemma_put_gives_the_value<W>(
    entries: Seq<(Seq<char>, W)>,
    key: Seq<char>,
    value: W,
    other: Seq<char>,
)
    requires
        distinct_keys(entries),
    ensures
        distinct_keys(put(entries, key, value)),
        lookup(put(entries, key, value), key) == Some(value),
        other != key ==> lookup(put(entries, key, value), other) == lookup(entries, other),
{
    let after = put(entries, key, value);
    if has_key(entries, key) {
        let i = choose|i: int| 0 <= i < entries.len() && (#[trigger] entries[i]).0 == key;
        assert forall|j: int, k: int| 0 <= j < k < after.len() implies (#[trigger] after[j]).0 != (
        #[trigger] after[k]).0 by {
            assert(entries[j].0 != entries[k].0);
        }
        assert(after[i] == (key, value));
        lemma_lookup_entry(after, i);
    } else {
        assert forall|j: int, k: int| 0 <= j < k < after.len() implies (#[trigger] after[j]).0 != (
        #[trigger] after[k]).0 by {
            assert(after[j] == entries[j]);
            assert(entries[j].0 != key);
        }
        lemma_lookup_entry(after, after.len() - 1);
    }
    if other != key {
        lemma_lookup_finds_keys(entries, other);
        lemma_lookup_finds_keys(after, other);
        if has_key(entries, other) {
            let i = choose|i: int| 0 <= i < entries.len() && (#[trigger] entries[i]).0 == other;
            assert(after[i] == entries[i]);
            lemma_lookup_entry(entries, i);
            lemma_lookup_entry(after, i);
        } else if has_key(after, other) {
            let i = choose|i: int| 0 <= i < after.len() && (#[trigger] after[i]).0 == other;
            assert(entries[i].0 == other);
        }
    }
}

/// It is the same to look a value up and then to replace it, or the other way round.
pub proof fn lemma_lookup_mapped<V, W>(
    entries: Seq<(Seq<char>, V)>,
    key: Seq<char>,
    f: spec_fn(V) -> W,
)
    ensures
        lookup(mapped(entries, f), key) == match lookup(entries, key) {
            Some(value) => Some(f(value)),
            None => None,
        },
    decreases entries.len(),
{
    if entries.len() > 0 && entries[0].0 != key {
        lemma_lookup_mapped(entries.drop_first(), key, f);
        assert(mapped(entries, f).drop_first() =~= mapped(entries.drop_first(), f));
    }
}

/// It is the same to give a key a value and then to replace the values, or the other way round.
pub proof fn lemma_put_mapped<V, W>(
    entries: Seq<(Seq<char>, V)>,
    key: Seq<char>,
    value: V,
    f: spec_fn(V) -> W,
)
    ensures
        mapped(put(entries, key, value), f) == put(mapped(entries, f), key, f(value)),
{
    let image = mapped(entries, f);
    if has_key(entries, key) {
        let i = choose|i: int| 0 <= i < entries.len() && (#[trigger] entries[i]).0 == key;
        assert(image[i].0 == key);
    } else {
        assert forall|i: int| 0 <= i < image.len() implies (#[trigger] image[i]).0 != key by {
            assert(entries[i].0 != key);
        }
    }
    assert(mapped(put(entries, key, value), f) =~= put(image, key, f(value)));
}

/// A map is larger than each of its values.
pub proof fn lemma_entry_is_smaller<V>(map: StringMap<V>, i: int)
    requires
        0 <= i < map@.len(),
    ensures
        decreases_to!(map => map@[i].1),
{
}

} // verus!
