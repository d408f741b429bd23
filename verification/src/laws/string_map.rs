//! Maps by name.

use vstd::prelude::*;

use crate::string_map::{
    lemma_lookup_entry, lemma_lookup_finds_keys, lemma_put_gives_the_value, StringMap,
};

verus! {

/// In a new map no key has a value.
pub proof fn law_new_map_is_empty<V>(
    map: StringMap<V>,
    len: usize,
    key: &str,
    found: Option<&V>,
)
    requires
        call_ensures(StringMap::<V>::new, (), map),
        call_ensures(StringMap::<V>::len, (&map,), len),
        call_ensures(StringMap::<V>::get, (&map, key), found),
    ensures
        len == 0,
        found is None,
{
}

/// A key has the value of the entry that has the key, and no value where no entry has it.
pub proof fn law_get_finds_the_entry<V>(map: &StringMap<V>, key: &str, found: Option<&V>)
    requires
        map.wf(),
        call_ensures(StringMap::<V>::get, (map, key), found),
    ensures
        forall|i: int|
            0 <= i < map@.len() && (#[trigger] map@[i]).0@ == key@ ==> found == Some(&map@[i].1),
        (forall|i: int| 0 <= i < map@.len() ==> (#[trigger] map@[i]).0@ != key@) ==> found is None,
{
    let keyed = map.keyed();
    lemma_lookup_finds_keys(keyed, key@);
    assert forall|i: int| 0 <= i < map@.len() && (#[trigger] map@[i]).0@ == key@ implies found
        == Some(&map@[i].1) by {
        assert(keyed[i].0 == key@);
        lemma_lookup_entry(keyed, i);
    }
    if forall|i: int| 0 <= i < map@.len() ==> (#[trigger] map@[i]).0@ != key@ {
        assert forall|i: int| 0 <= i < keyed.len() implies (#[trigger] keyed[i]).0 != key@ by {
            assert(map@[i].0@ != key@);
        }
    }
}

/// A key that is given a value has it from then on, and every other key has what it had.
pub proof fn law_get_after_insert<V>(
    map: &mut StringMap<V>,
    key: String,
    value: V,
    other: &str,
    before: Option<&V>,
    after: Option<&V>,
)
    requires
        old(map).wf(),
        call_ensures(StringMap::<V>::get, (&*old(map), other), before),
        call_ensures(StringMap::<V>::insert, (map, key, value), ()),
        call_ensures(StringMap::<V>::get, (&*final(map), other), after),
    ensures
        after == if other@ == key@ {
            Some(&value)
        } else {
            before
        },
{
    lemma_put_gives_the_value(old(map).keyed(), key@, value, other@);
}

/// Giving a key a value leaves every other entry in its place, and makes room for a new key behind
/// all others.
pub proof fn law_insert_keeps_the_order<V>(map: &mut StringMap<V>, key: String, value: V)
    requires
        old(map).wf(),
        call_ensures(StringMap::<V>::insert, (map, key, value), ()),
    ensures
        forall|i: int|
            0 <= i < old(map)@.len() ==> i < final(map)@.len() && (#[trigger] final(map)@[i]).0@
                == old(map)@[i].0@ && final(map)@[i].1 == if old(map)@[i].0@ == key@ {
                value
            } else {
                old(map)@[i].1
            },
        (exists|i: int| 0 <= i < old(map)@.len() && (#[trigger] old(map)@[i]).0@ == key@)
            ==> final(map)@.len() == old(map)@.len(),
        (forall|i: int| 0 <= i < old(map)@.len() ==> (#[trigger] old(map)@[i]).0@ != key@) ==> {
            &&& final(map)@.len() == old(map)@.len() + 1
            &&& final(map)@.last().0@ == key@
            &&& final(map)@.last().1 == value
        },
{
    let before = old(map).keyed();
    let after = final(map).keyed();
    assert forall|i: int| 0 <= i < after.len() implies (#[trigger] after[i]).0
        == final(map)@[i].0@ && after[i].1 == final(map)@[i].1 by {}
    if exists|i: int| 0 <= i < old(map)@.len() && (#[trigger] old(map)@[i]).0@ == key@ {
        let i = choose|i: int| 0 <= i < old(map)@.len() && (#[trigger] old(map)@[i]).0@ == key@;
        assert(before[i].0 == key@);
    } else {
        assert forall|i: int| 0 <= i < before.len() implies (#[trigger] before[i]).0 != key@ by {
            assert(old(map)@[i].0@ != key@);
        }
        assert(after[after.len() - 1] == (key@, value));
    }
    assert forall|i: int| 0 <= i < old(map)@.len() implies i < final(map)@.len() && (
    #[trigger] final(map)@[i]).0@ == old(map)@[i].0@ && final(map)@[i].1 == if old(map)@[i].0@
        == key@ {
        value
    } else {
        old(map)@[i].1
    } by {
        assert(before[i].0 == old(map)@[i].0@);
        assert(after[i].0 == final(map)@[i].0@);
    }
}

/// There are as many entries as the length says, and the key of each has its value.
pub proof fn law_entries_are_found<V>(
    map: &StringMap<V>,
    len: usize,
    i: usize,
    entry: &(String, V),
    key: &str,
    found: Option<&V>,
)
    requires
        map.wf(),
        call_ensures(StringMap::<V>::len, (map,), len),
        i < len,
        call_ensures(StringMap::<V>::entry, (map, i), entry),
        key@ == entry.0@,
        call_ensures(StringMap::<V>::get, (map, key), found),
    ensures
        found == Some(&entry.1),
{
    law_get_finds_the_entry(map, key, found);
    assert(map@[i as int].0@ == key@);
}

/// A key without a value makes the map longer by one, and any other key leaves its length.
pub proof fn law_length_after_insert<V>(
    map: &mut StringMap<V>,
    key: String,
    value: V,
    text: &str,
    found: Option<&V>,
    before: usize,
    after: usize,
)
    requires
        old(map).wf(),
        text@ == key@,
        call_ensures(StringMap::<V>::get, (&*old(map), text), found),
        call_ensures(StringMap::<V>::len, (&*old(map),), before),
        call_ensures(StringMap::<V>::insert, (map, key, value), ()),
        call_ensures(StringMap::<V>::len, (&*final(map),), after),
    ensures
        after == if found is None {
            before + 1
        } else {
            before as int
        },
{
    lemma_lookup_finds_keys(old(map).keyed(), key@);
    assert(final(map).keyed().len() == final(map)@.len());
}

/// A default map is a new one.
pub proof fn law_default_map_is_new<V>(map: StringMap<V>, len: usize)
    requires
        call_ensures(<StringMap<V> as Default>::default, (), map),
        call_ensures(StringMap::<V>::len, (&map,), len),
    ensures
        map.wf(),
        len == 0,
{
}

} // verus!
