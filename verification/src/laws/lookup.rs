//! Finding the first occurrence of a key.

use vstd::prelude::*;
use crate::model::{first_index, first_index_from};

verus! {

/// What [`first_index_from`] finds: an index between `from` and
/// `keys.len()`, a position of `key` unless it is `keys.len()`, with no
/// occurrence of `key` from `from` up to it.
pub proof fn lemma_first_index_from<K>(keys: Seq<K>, key: K, from: nat)
    requires
        from <= keys.len(),
    ensures
        from <= first_index_from(keys, key, from) <= keys.len(),
        first_index_from(keys, key, from) < keys.len() ==> keys[first_index_from(
            keys,
            key,
            from,
        ) as int] == key,
        forall|j: int| from <= j < first_index_from(keys, key, from) ==> keys[j] != key,
    decreases keys.len() - from,
{
    if from < keys.len() && keys[from as int] != key {
        lemma_first_index_from(keys, key, from + 1);
    }
}

/// [`first_index`] is the only index that is a position of `key`, or the
/// length, and has no occurrence of `key` before it.
pub proof fn lemma_first_index_is<K>(keys: Seq<K>, key: K, at: nat)
    requires
        at <= keys.len(),
        at < keys.len() ==> keys[at as int] == key,
        forall|j: int| 0 <= j < at ==> keys[j] != key,
    ensures
        first_index(keys, key) == at,
{
    lemma_first_index_from(keys, key, 0);
}

/// Appending to a sequence moves no first occurrence: a key that occurs
/// keeps its first index, and one that does not is found at the new last
/// position exactly if it was appended.
pub proof fn lemma_first_index_push<K>(keys: Seq<K>, key: K, last: K)
    ensures
        first_index(keys, key) < keys.len() ==> first_index(keys.push(last), key) == first_index(
            keys,
            key,
        ),
        first_index(keys, key) == keys.len() && last == key ==> first_index(keys.push(last), key)
            == keys.len(),
        first_index(keys, key) == keys.len() && last != key ==> first_index(keys.push(last), key)
            == keys.len() + 1,
{
    lemma_first_index_from(keys, key, 0);
    let at = first_index(keys, key);
    if at < keys.len() || last == key {
        lemma_first_index_is(keys.push(last), key, at);
    } else {
        lemma_first_index_is(keys.push(last), key, at + 1);
    }
}

} // verus!
