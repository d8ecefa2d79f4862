//! What holds of every store, whatever was written to it.

use vstd::prelude::*;
use crate::store::{distinct_keys, has_key, lookup, mapping, single_row, upsert, upsert_all, Rows};

verus! {

/// The writes that store each value of `values` under `key`, in their order.
pub open spec fn writes_to(key: Seq<char>, values: Seq<Seq<char>>) -> Rows {
    Seq::new(values.len(), |i: int| (key, values[i]))
}

/// A run of writes keeps the keys distinct, and afterwards a key has a row
/// exactly if it had one before or one of the writes names it.
pub proof fn lemma_upsert_all(rows: Rows, writes: Rows)
    requires
        distinct_keys(rows),
    ensures
        distinct_keys(upsert_all(rows, writes)),
        forall|key: Seq<char>| #[trigger]
            has_key(upsert_all(rows, writes), key) <==> has_key(rows, key) || has_key(writes, key),
    decreases writes.len(),
{
    if writes.len() > 0 {
        let earlier = writes.drop_last();
        let last = writes.last();
        let before = upsert_all(rows, earlier);
        lemma_upsert_all(rows, earlier);
        crate::store::lemma_upsert(before, last.0, last.1);
        assert forall|key: Seq<char>| #[trigger]
            has_key(upsert_all(rows, writes), key) <==> has_key(rows, key) || has_key(
                writes,
                key,
            ) by {
            let after = upsert_all(rows, writes);
            assert(mapping(after).contains_key(key) <==> mapping(before).insert(
                last.0,
                last.1,
            ).contains_key(key));
            assert(has_key(after, key) <==> key == last.0 || has_key(before, key));
            if has_key(earlier, key) {
                let i = choose|i: int| 0 <= i < earlier.len() && (#[trigger] earlier[i]).0 == key;
                assert(writes[i].0 == key);
            }
            if has_key(writes, key) && key != last.0 {
                let i = choose|i: int| 0 <= i < writes.len() && (#[trigger] writes[i]).0 == key;
                assert(earlier[i].0 == key);
            }
            if key == last.0 {
                assert(writes[writes.len() - 1].0 == key);
            }
        }
    }
}

/// A key that was never written is absent: in a store that began empty, a
/// lookup of a key that none of the writes names finds nothing.
pub proof fn lemma_unset_key_is_absent(writes: Rows, key: Seq<char>)
    requires
        !has_key(writes, key),
    ensures
        lookup(upsert_all(Rows::empty(), writes), key) is None,
{
    lemma_upsert_all(Rows::empty(), writes);
    assert(!has_key(Rows::empty(), key));
}

/// After a value is stored under a key, a lookup of that key finds that value.
pub proof fn lemma_get_after_set(rows: Rows, key: Seq<char>, value: Seq<char>)
    requires
        distinct_keys(rows),
    ensures
        lookup(upsert(rows, key, value), key) == Some(value),
{
    crate::store::lemma_upsert(rows, key, value);
}

/// A write leaves every other key as it was.
pub proof fn lemma_set_keeps_other_keys(
    rows: Rows,
    key: Seq<char>,
    value: Seq<char>,
    other: Seq<char>,
)
    requires
        distinct_keys(rows),
        other != key,
    ensures
        lookup(upsert(rows, key, value), other) == lookup(rows, other),
{
    crate::store::lemma_upsert(rows, key, value);
}

/// The last write wins: after two writes to one key a lookup finds the second
/// value, the key has exactly one row, and the second write added none.
pub proof fn lemma_last_write_wins(
    rows: Rows,
    key: Seq<char>,
    first: Seq<char>,
    second: Seq<char>,
)
    requires
        distinct_keys(rows),
    ensures
        lookup(upsert(upsert(rows, key, first), key, second), key) == Some(second),
        single_row(upsert(upsert(rows, key, first), key, second), key),
        upsert(upsert(rows, key, first), key, second).len() == upsert(rows, key, first).len(),
        mapping(upsert(upsert(rows, key, first), key, second)) == mapping(rows).insert(key, second),
{
    crate::store::lemma_upsert(rows, key, first);
    let once = upsert(rows, key, first);
    crate::store::lemma_upsert(once, key, second);
    assert(mapping(once).contains_key(key));
    assert(mapping(rows).insert(key, first).insert(key, second) =~= mapping(rows).insert(
        key,
        second,
    ));
}

/// Writing the same value under the same key a second time changes nothing:
/// the rows are those after the first write, with one row for the key, and a
/// lookup finds the value.
pub proof fn lemma_set_is_idempotent(rows: Rows, key: Seq<char>, value: Seq<char>)
    requires
        distinct_keys(rows),
    ensures
        upsert(upsert(rows, key, value), key, value) == upsert(rows, key, value),
        lookup(upsert(upsert(rows, key, value), key, value), key) == Some(value),
        single_row(upsert(upsert(rows, key, value), key, value), key),
{
    crate::store::lemma_upsert(rows, key, value);
    let once = upsert(rows, key, value);
    crate::store::lemma_upsert(once, key, value);
    assert(mapping(once).contains_key(key));
    let i = crate::store::row_of(once, key);
    crate::store::lemma_mapping_at(once, i);
    assert(once[i] == (key, value));
    assert(upsert(once, key, value) =~= once);
}

/// Writes to one key that arrive together are stored one after another in
/// some order. Whatever that order is, a lookup afterwards finds one of the
/// written values, the one stored last, whole; the key has exactly one row;
/// and every other key is as it was.
pub proof fn lemma_serial_writes(rows: Rows, key: Seq<char>, values: Seq<Seq<char>>)
    requires
        distinct_keys(rows),
        values.len() > 0,
    ensures
        lookup(upsert_all(rows, writes_to(key, values)), key) == Some(values.last()),
        values.contains(values.last()),
        single_row(upsert_all(rows, writes_to(key, values)), key),
        mapping(upsert_all(rows, writes_to(key, values))) == mapping(rows).insert(
            key,
            values.last(),
        ),
    decreases values.len(),
{
    let writes = writes_to(key, values);
    let earlier = writes.drop_last();
    assert(earlier =~= writes_to(key, values.drop_last()));
    assert(writes.last() == (key, values.last()));
    lemma_upsert_all(rows, earlier);
    let before = upsert_all(rows, earlier);
    crate::store::lemma_upsert(before, key, values.last());
    if values.len() > 1 {
        lemma_serial_writes(rows, key, values.drop_last());
        assert(mapping(rows).insert(key, values.drop_last().last()).insert(key, values.last())
            =~= mapping(rows).insert(key, values.last()));
    } else {
        assert(earlier =~= Rows::empty());
        assert(before == rows);
    }
    assert(values[values.len() - 1] == values.last());
}

} // verus!
