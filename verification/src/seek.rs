use vstd::prelude::*;

verus! {

/// The first position of `key` in `keys`.
pub open spec fn first_index<T>(keys: Seq<T>, key: T) -> Option<int> {
    keys.index_of_first(key)
}

/// A position that holds `key`, with no `key` before it, is the first position of `key`.
pub proof fn lemma_first_index_found<T>(keys: Seq<T>, key: T, i: int)
    requires
        0 <= i < keys.len(),
        keys[i] == key,
        forall|j: int| 0 <= j < i ==> keys[j] != key,
    ensures
        first_index(keys, key) == Some(i),
{
    keys.index_of_first_ensures(key);
    assert(keys.contains(key));
    let found = keys.index_of_first(key).unwrap();
    if found < i {
        assert(keys[found] != key);
    }
    if i < found {
        assert(keys[i] != key);
    }
}

/// Where no position holds `key`, there is no first position of `key`.
pub proof fn lemma_first_index_absent<T>(keys: Seq<T>, key: T)
    requires
        forall|j: int| 0 <= j < keys.len() ==> keys[j] != key,
    ensures
        first_index(keys, key) is None,
{
    keys.index_of_first_ensures(key);
}

/// What the first position of `key` says of `keys`.
pub proof fn lemma_first_index<T>(keys: Seq<T>, key: T)
    ensures
        match first_index(keys, key) {
            Some(i) => 0 <= i < keys.len() && keys[i] == key && forall|j: int|
                0 <= j < i ==> keys[j] != key,
            None => forall|j: int| 0 <= j < keys.len() ==> keys[j] != key,
        },
{
    keys.index_of_first_ensures(key);
}

/// The last position of `key` in `keys`.
pub open spec fn last_index<T>(keys: Seq<T>, key: T) -> Option<int> {
    keys.index_of_last(key)
}

/// A position that holds `key`, with no `key` behind it, is the last position of `key`.
pub proof fn lemma_last_index_found<T>(keys: Seq<T>, key: T, i: int)
    requires
        0 <= i < keys.len(),
        keys[i] == key,
        forall|j: int| i < j < keys.len() ==> keys[j] != key,
    ensures
        last_index(keys, key) == Some(i),
{
    keys.index_of_last_ensures(key);
    assert(keys.contains(key));
    let found = keys.index_of_last(key).unwrap();
    if found < i {
        assert(keys[i] != key);
    }
    if i < found {
        assert(keys[found] != key);
    }
}

/// Where no position holds `key`, there is no last position of `key`.
pub proof fn lemma_last_index_absent<T>(keys: Seq<T>, key: T)
    requires
        forall|j: int| 0 <= j < keys.len() ==> keys[j] != key,
    ensures
        last_index(keys, key) is None,
{
    keys.index_of_last_ensures(key);
}

} // verus!
