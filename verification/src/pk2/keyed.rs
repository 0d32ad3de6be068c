//! Paths, and lists of values keyed by path.
//!
//! A directory keeps its children in lists of pairs of a path and a value. A
//! list stands for a mapping: putting a value under a path that the list
//! holds replaces the value there, so that a list built by putting holds no
//! path twice. The pairs keep the order in which their paths were first put.

use vstd::prelude::*;
use vstd::string::StringExecFns;

verus! {

/// `parent/name`, or `name` alone under the empty path.
pub open spec fn spec_join_path(parent: Seq<char>, name: Seq<char>) -> Seq<char> {
    if parent.len() == 0 {
        name
    } else {
        parent + seq!['/'] + name
    }
}

/// The place of the first occurrence of `key` among `keys`, or the number of
/// keys where it does not occur.
pub open spec fn spec_key_index(keys: Seq<Seq<char>>, key: Seq<char>) -> int
    decreases keys.len(),
{
    if keys.len() == 0 {
        0
    } else if keys[0] == key {
        0
    } else {
        1 + spec_key_index(keys.drop_first(), key)
    }
}

/// The paths of a keyed list, in order.
pub open spec fn spec_keys<V>(list: Seq<(Seq<char>, V)>) -> Seq<Seq<char>> {
    list.map_values(|p: (Seq<char>, V)| p.0)
}

/// Whether the list holds no path twice.
pub open spec fn spec_keys_distinct<V>(list: Seq<(Seq<char>, V)>) -> bool {
    forall|i: int, j: int|
        0 <= i < list.len() && 0 <= j < list.len() && i != j ==> (#[trigger] list[i]).0 != (
        #[trigger] list[j]).0
}

/// The value that the list holds under `key`, if any.
pub open spec fn spec_get<V>(list: Seq<(Seq<char>, V)>, key: Seq<char>) -> Option<V> {
    let i = spec_key_index(spec_keys(list), key);
    if i < list.len() {
        Some(list[i].1)
    } else {
        None
    }
}

/// The list after `value` was put under `key`: in place of the pair that held
/// the key, or at the end where none did.
pub open spec fn spec_put<V>(list: Seq<(Seq<char>, V)>, key: Seq<char>, value: V) -> Seq<
    (Seq<char>, V),
> {
    let i = spec_key_index(spec_keys(list), key);
    if i < list.len() {
        list.update(i, (key, value))
    } else {
        list.push((key, value))
    }
}

/// The list after all `items` were put, one after the other.
pub open spec fn spec_put_all<V>(list: Seq<(Seq<char>, V)>, items: Seq<(Seq<char>, V)>) -> Seq<
    (Seq<char>, V),
>
    decreases items.len(),
{
    if items.len() == 0 {
        list
    } else {
        spec_put(spec_put_all(list, items.drop_last()), items.last().0, items.last().1)
    }
}

/// The mapping that a keyed list stands for.
pub open spec fn spec_as_map<V>(list: Seq<(Seq<char>, V)>) -> Map<Seq<char>, V> {
    Map::new(
        |key: Seq<char>| spec_get(list, key) is Some,
        |key: Seq<char>| spec_get(list, key)->Some_0,
    )
}

/// The index of a key is the place of its first occurrence.
pub proof fn lemma_key_index(keys: Seq<Seq<char>>, key: Seq<char>)
    ensures
        0 <= spec_key_index(keys, key) <= keys.len(),
        forall|j: int| 0 <= j < spec_key_index(keys, key) ==> keys[j] != key,
        spec_key_index(keys, key) < keys.len() ==> keys[spec_key_index(keys, key)] == key,
    decreases keys.len(),
{
    if keys.len() > 0 && keys[0] != key {
        let rest = keys.drop_first();
        lemma_key_index(rest, key);
        assert forall|j: int| 0 <= j < spec_key_index(keys, key) implies keys[j] != key by {
            if j > 0 {
                assert(rest[j - 1] == keys[j]);
            }
        }
    }
}

/// A place is the index of a key if the key stands there, or the place is the
/// end, and the key stands at no earlier place.
pub proof fn lemma_key_index_is(keys: Seq<Seq<char>>, key: Seq<char>, i: int)
    requires
        0 <= i <= keys.len(),
        forall|j: int| 0 <= j < i ==> keys[j] != key,
        i < keys.len() ==> keys[i] == key,
    ensures
        spec_key_index(keys, key) == i,
{
    lemma_key_index(keys, key);
}

/// Putting keeps a list free of repeated paths.
pub proof fn lemma_put_distinct<V>(list: Seq<(Seq<char>, V)>, key: Seq<char>, value: V)
    requires
        spec_keys_distinct(list),
    ensures
        spec_keys_distinct(spec_put(list, key, value)),
{
    let keys = spec_keys(list);
    lemma_key_index(keys, key);
    let i = spec_key_index(keys, key);
    let out = spec_put(list, key, value);
    assert forall|a: int, b: int| 0 <= a < out.len() && 0 <= b < out.len() && a != b implies (
    #[trigger] out[a]).0 != (#[trigger] out[b]).0 by {
        if i < list.len() {
            assert(keys[i] == list[i].0);
            if a != i && b != i {
                assert(out[a] == list[a] && out[b] == list[b]);
            }
        } else {
            if a < list.len() {
                assert(keys[a] == list[a].0);
            }
            if b < list.len() {
                assert(keys[b] == list[b].0);
            }
        }
    }
}

/// What holds of every pair of a list and of a pair put into it holds of
/// every pair of the list after the put.
pub proof fn lemma_put_keeps<V>(
    list: Seq<(Seq<char>, V)>,
    key: Seq<char>,
    value: V,
    holds: spec_fn((Seq<char>, V)) -> bool,
)
    requires
        forall|j: int| 0 <= j < list.len() ==> holds(#[trigger] list[j]),
        holds((key, value)),
    ensures
        forall|j: int|
            0 <= j < spec_put(list, key, value).len() ==> holds(
                #[trigger] spec_put(list, key, value)[j],
            ),
{
    lemma_key_index(spec_keys(list), key);
    let i = spec_key_index(spec_keys(list), key);
    let out = spec_put(list, key, value);
    assert forall|j: int| 0 <= j < out.len() implies holds(#[trigger] out[j]) by {
        if j != i {
            assert(out[j] == list[j]);
        }
    }
}

/// What holds of every pair of a list and of every pair put into it holds of
/// every pair of the list after the puts.
pub proof fn lemma_put_all_keeps<V>(
    list: Seq<(Seq<char>, V)>,
    items: Seq<(Seq<char>, V)>,
    holds: spec_fn((Seq<char>, V)) -> bool,
)
    requires
        forall|j: int| 0 <= j < list.len() ==> holds(#[trigger] list[j]),
        forall|j: int| 0 <= j < items.len() ==> holds(#[trigger] items[j]),
    ensures
        forall|j: int|
            0 <= j < spec_put_all(list, items).len() ==> holds(
                #[trigger] spec_put_all(list, items)[j],
            ),
    decreases items.len(),
{
    if items.len() > 0 {
        let head = items.drop_last();
        assert forall|j: int| 0 <= j < head.len() implies holds(#[trigger] head[j]) by {
            assert(head[j] == items[j]);
        }
        lemma_put_all_keeps(list, head, holds);
        let last = items.last();
        assert(holds(items[items.len() - 1]));
        lemma_put_keeps(spec_put_all(list, head), last.0, last.1, holds);
    }
}

/// After puts the list holds a value under the key of every pair that was
/// put.
pub proof fn lemma_put_all_has<V>(list: Seq<(Seq<char>, V)>, items: Seq<(Seq<char>, V)>)
    ensures
        forall|j: int|
            0 <= j < items.len() ==> spec_get(
                spec_put_all(list, items),
                (#[trigger] items[j]).0,
            ) is Some,
    decreases items.len(),
{
    if items.len() > 0 {
        let head = items.drop_last();
        let last = items.last();
        lemma_put_all_has(list, head);
        assert forall|j: int| 0 <= j < items.len() implies spec_get(
            spec_put_all(list, items),
            (#[trigger] items[j]).0,
        ) is Some by {
            lemma_put_get(spec_put_all(list, head), last.0, last.1, items[j].0);
            if j < head.len() {
                assert(head[j] == items[j]);
            }
        }
    }
}

/// Putting many keeps a list free of repeated paths.
pub proof fn lemma_put_all_distinct<V>(list: Seq<(Seq<char>, V)>, items: Seq<(Seq<char>, V)>)
    requires
        spec_keys_distinct(list),
    ensures
        spec_keys_distinct(spec_put_all(list, items)),
    decreases items.len(),
{
    if items.len() > 0 {
        lemma_put_all_distinct(list, items.drop_last());
        lemma_put_distinct(spec_put_all(list, items.drop_last()), items.last().0, items.last().1);
    }
}

/// After a put the list holds the value under its key, and under every other
/// key what it held before.
pub proof fn lemma_put_get<V>(list: Seq<(Seq<char>, V)>, key: Seq<char>, value: V, other: Seq<char>)
    ensures
        spec_get(spec_put(list, key, value), key) == Some(value),
        other != key ==> spec_get(spec_put(list, key, value), other) == spec_get(list, other),
{
    let keys = spec_keys(list);
    let out = spec_put(list, key, value);
    let out_keys = spec_keys(out);
    lemma_key_index(keys, key);
    lemma_key_index(keys, other);
    let i = spec_key_index(keys, key);
    let o = spec_key_index(keys, other);
    assert forall|j: int| 0 <= j < i implies out_keys[j] != key by {
        assert(out_keys[j] == keys[j]);
    }
    lemma_key_index_is(out_keys, key, i);
    if other != key {
        assert forall|j: int| 0 <= j < o && j < out.len() implies out_keys[j] != other by {
            if j < list.len() && j != i {
                assert(out_keys[j] == keys[j]);
            }
        }
        if o < list.len() {
            assert(out_keys[o] == keys[o]);
            lemma_key_index_is(out_keys, other, o);
        } else {
            assert(out_keys[i] == key);
            lemma_key_index_is(out_keys, other, out.len() as int);
        }
    }
}

/// A put on the list is an insertion into the mapping it stands for.
pub proof fn lemma_put_is_insert<V>(list: Seq<(Seq<char>, V)>, key: Seq<char>, value: V)
    ensures
        spec_as_map(spec_put(list, key, value)) == spec_as_map(list).insert(key, value),
{
    let out = spec_put(list, key, value);
    assert forall|k: Seq<char>| #[trigger] spec_get(out, k) == (if k == key {
        Some(value)
    } else {
        spec_get(list, k)
    }) by {
        lemma_put_get(list, key, value, k);
    }
    assert(spec_as_map(out) =~= spec_as_map(list).insert(key, value));
}

/// Putting items whose paths all differ into the empty list gives the items,
/// in their order.
pub proof fn lemma_put_all_exact<V>(items: Seq<(Seq<char>, V)>)
    requires
        spec_keys_distinct(items),
    ensures
        spec_put_all(Seq::empty(), items) == items,
    decreases items.len(),
{
    if items.len() > 0 {
        let head = items.drop_last();
        assert forall|i: int, j: int| 0 <= i < head.len() && 0 <= j < head.len() && i
            != j implies (#[trigger] head[i]).0 != (#[trigger] head[j]).0 by {
            assert(head[i] == items[i] && head[j] == items[j]);
        }
        lemma_put_all_exact(head);
        let keys = spec_keys(head);
        let last = items.last();
        assert forall|j: int| 0 <= j < keys.len() implies keys[j] != last.0 by {
            assert(keys[j] == items[j].0);
            assert(items[items.len() - 1] == last);
        }
        lemma_key_index_is(keys, last.0, keys.len() as int);
        assert(head.push(last) =~= items);
    }
}

/// Joins a path and a name with a slash; under the empty path the name
/// stands alone.
pub fn join_path(parent: &str, name: &str) -> (path: String)
    ensures
        path@ == spec_join_path(parent@, name@),
{
    if parent.is_empty() {
        name.to_owned()
    } else {
        proof {
            reveal_strlit("/");
        }
        let mut path: String = parent.to_owned();
        path.append("/");
        path.append(name);
        assert("/"@ =~= seq!['/']);
        path
    }
}

/// The paths of a list of pairs of a path and a value of any kind.
pub open spec fn spec_paths<V>(list: Seq<(String, V)>) -> Seq<Seq<char>> {
    list.map_values(|p: (String, V)| p.0@)
}

/// Finds the place of the pair that holds `key`; the length of the list
/// where none does.
pub fn find_key<V>(list: &Vec<(String, V)>, key: &String) -> (i: usize)
    ensures
        i == spec_key_index(spec_paths(list@), key@),
        i <= list@.len(),
{
    let mut i: usize = 0;
    while i < list.len()
        invariant
            i <= list@.len(),
            forall|j: int| 0 <= j < i ==> spec_paths(list@)[j] != key@,
        decreases list@.len() - i,
    {
        if list[i].0 == *key {
            proof {
                lemma_key_index_is(spec_paths(list@), key@, i as int);
            }
            return i;
        }
        i = i + 1;
    }
    proof {
        lemma_key_index_is(spec_paths(list@), key@, i as int);
    }
    i
}

/// Puts `value` under `key`: in place of the pair that held the key, or at
/// the end where none did.
pub fn put<V>(list: &mut Vec<(String, V)>, key: String, value: V)
    ensures
        ({
            let i = spec_key_index(spec_paths(old(list)@), key@);
            if i < old(list)@.len() {
                final(list)@ == old(list)@.update(i, (key, value))
            } else {
                final(list)@ == old(list)@.push((key, value))
            }
        }),
{
    let i: usize = find_key(list, &key);
    if i < list.len() {
        list[i] = (key, value);
    } else {
        list.push((key, value));
    }
}

} // verus!
