//! The table of records: at most one record for each key.

use vstd::prelude::*;
use crate::record::Record;

verus! {

/// The rows of a table as pairs of key and value.
pub type Rows = Seq<(Seq<char>, Seq<char>)>;

/// True when some row of `rows` has the key `key`.
pub open spec fn has_key(rows: Rows, key: Seq<char>) -> bool {
    exists|i: int| 0 <= i < rows.len() && (#[trigger] rows[i]).0 == key
}

/// The index of a row of `rows` with the key `key`, where there is one.
pub open spec fn row_of(rows: Rows, key: Seq<char>) -> int {
    choose|i: int| 0 <= i < rows.len() && (#[trigger] rows[i]).0 == key
}

/// True when no two rows of `rows` have the same key.
pub open spec fn distinct_keys(rows: Rows) -> bool {
    forall|i: int, j: int|
        0 <= i < rows.len() && 0 <= j < rows.len() && i != j ==> (#[trigger] rows[i]).0 != (
        #[trigger] rows[j]).0
}

/// The mapping from keys to values that `rows` stands for.
pub open spec fn mapping(rows: Rows) -> Map<Seq<char>, Seq<char>> {
    Map::new(|key: Seq<char>| has_key(rows, key), |key: Seq<char>| rows[row_of(rows, key)].1)
}

/// What a lookup of `key` finds in `rows`: the value of the row with that key,
/// or nothing where no row has it.
pub open spec fn lookup(rows: Rows, key: Seq<char>) -> Option<Seq<char>> {
    if mapping(rows).contains_key(key) {
        Some(mapping(rows)[key])
    } else {
        None
    }
}

/// True when exactly one row of `rows` has the key `key`.
pub open spec fn single_row(rows: Rows, key: Seq<char>) -> bool {
    exists|i: int|
        0 <= i < rows.len() && (#[trigger] rows[i]).0 == key && forall|j: int|
            0 <= j < rows.len() && (#[trigger] rows[j]).0 == key ==> j == i
}

/// The rows after `value` is stored under `key`: the row with that key has its
/// value replaced, and where there is none a row is added after the others.
pub open spec fn upsert(rows: Rows, key: Seq<char>, value: Seq<char>) -> Rows {
    if has_key(rows, key) {
        rows.update(row_of(rows, key), (key, value))
    } else {
        rows.push((key, value))
    }
}

/// The rows after each pair of `writes` is stored in turn, the first one first.
pub open spec fn upsert_all(rows: Rows, writes: Rows) -> Rows
    decreases writes.len(),
{
    if writes.len() == 0 {
        rows
    } else {
        upsert(upsert_all(rows, writes.drop_last()), writes.last().0, writes.last().1)
    }
}

/// The storage handle: a table of records with at most one record for each key.
pub struct Store {
    records: Vec<Record>,
}

impl Store {
    /// The rows in the order in which their keys were first stored.
    pub closed spec fn rows(&self) -> Rows {
        Seq::new(self.records@.len(), |i: int| self.records@[i]@)
    }

    /// The invariant: a key has at most one row.
    pub open spec fn wf(&self) -> bool {
        distinct_keys(self.rows())
    }

    /// The store as a mapping from keys to values.
    pub open spec fn view(&self) -> Map<Seq<char>, Seq<char>> {
        mapping(self.rows())
    }

    /// A store without records.
    pub fn new() -> (s: Store)
        ensures
            s.wf(),
            s.rows() == Rows::empty(),
            s@ == Map::<Seq<char>, Seq<char>>::empty(),
    {
        let s = Store { records: Vec::new() };
        proof {
            assert(s.rows() =~= Rows::empty());
            assert(s@ =~= Map::<Seq<char>, Seq<char>>::empty());
        }
        s
    }

    /// The number of records.
    pub fn len(&self) -> (n: usize)
        ensures
            n == self.rows().len(),
    {
        self.records.len()
    }

    /// The position of the record with the key `key`, if there is one.
    fn position(&self, key: &str) -> (r: Option<usize>)
        ensures
            match r {
                Some(i) => i < self.rows().len() && self.rows()[i as int].0 == key@,
                None => !has_key(self.rows(), key@),
            },
    {
        let wanted = key.to_owned();
        let mut i: usize = 0;
        while i < self.records.len()
            invariant
                wanted@ == key@,
                i <= self.records.len(),
                forall|j: int| 0 <= j < i ==> (#[trigger] self.rows()[j]).0 != key@,
            decreases self.records.len() - i,
        {
            if self.records[i].key == wanted {
                return Some(i);
            }
            i += 1;
        }
        None
    }

    /// The value stored under `key`, or `None` where nothing is stored under it.
    pub fn get(&self, key: &str) -> (r: Option<String>)
        requires
            self.wf(),
        ensures
            match r {
                Some(value) => lookup(self.rows(), key@) == Some(value@),
                None => lookup(self.rows(), key@) is None,
            },
    {
        match self.position(key) {
            Some(i) => {
                proof {
                    lemma_mapping_at(self.rows(), i as int);
                }
                Some(self.records[i].value.clone())
            },
            None => None,
        }
    }

    /// Stores `value` under `key`: a record with that key has its value
    /// replaced, and otherwise a record is added after the others.
    pub fn set(&mut self, key: String, value: String)
        requires
            old(self).wf(),
        ensures
            final(self).wf(),
            final(self).rows() == upsert(old(self).rows(), key@, value@),
            final(self)@ == old(self)@.insert(key@, value@),
            lookup(final(self).rows(), key@) == Some(value@),
            single_row(final(self).rows(), key@),
    {
        let ghost before = self.rows();
        match self.position(key.as_str()) {
            Some(i) => {
                proof {
                    lemma_mapping_at(before, i as int);
                    lemma_upsert(before, key@, value@);
                }
                self.records.set(i, Record { key, value });
                assert(self.rows() =~= before.update(i as int, (key@, value@)));
            },
            None => {
                proof {
                    lemma_upsert(before, key@, value@);
                }
                self.records.push(Record { key, value });
                assert(self.rows() =~= before.push((key@, value@)));
            },
        }
    }
}

/// With distinct keys, the row at `i` is the one that the mapping reads for
/// its key.
pub proof fn lemma_mapping_at(rows: Rows, i: int)
    requires
        distinct_keys(rows),
        0 <= i < rows.len(),
    ensures
        has_key(rows, rows[i].0),
        row_of(rows, rows[i].0) == i,
        mapping(rows).contains_key(rows[i].0),
        mapping(rows)[rows[i].0] == rows[i].1,
{
    let key = rows[i].0;
    assert(0 <= i < rows.len() && rows[i].0 == key);
    let j = row_of(rows, key);
    assert(0 <= j < rows.len() && rows[j].0 == key);
}

/// Storing a value keeps the keys distinct, changes the mapping at the
/// written key alone, and leaves exactly one row with that key.
pub proof fn lemma_upsert(rows: Rows, key: Seq<char>, value: Seq<char>)
    requires
        distinct_keys(rows),
    ensures
        distinct_keys(upsert(rows, key, value)),
        mapping(upsert(rows, key, value)) == mapping(rows).insert(key, value),
        single_row(upsert(rows, key, value), key),
        upsert(rows, key, value).len() == rows.len() + (if has_key(rows, key) {
            0int
        } else {
            1int
        }),
{
    if has_key(rows, key) {
        let i = row_of(rows, key);
        lemma_update_row(rows, i, value);
    } else {
        lemma_push_row(rows, key, value);
    }
}

/// Replacing the value of the row at `i` keeps the keys distinct and changes
/// the mapping at that row's key alone.
proof fn lemma_update_row(rows: Rows, i: int, value: Seq<char>)
    requires
        distinct_keys(rows),
        0 <= i < rows.len(),
    ensures
        distinct_keys(rows.update(i, (rows[i].0, value))),
        mapping(rows.update(i, (rows[i].0, value))) == mapping(rows).insert(rows[i].0, value),
        single_row(rows.update(i, (rows[i].0, value)), rows[i].0),
{
    let key = rows[i].0;
    let after = rows.update(i, (key, value));
    assert forall|a: int, b: int|
        0 <= a < after.len() && 0 <= b < after.len() && a != b implies (#[trigger] after[a]).0 != (
    #[trigger] after[b]).0 by {
        assert(after[a].0 == rows[a].0);
        assert(after[b].0 == rows[b].0);
    }
    assert forall|k: Seq<char>| has_key(after, k) == has_key(rows, k) by {
        if has_key(rows, k) {
            let a = row_of(rows, k);
            assert(after[a].0 == k);
        }
        if has_key(after, k) {
            let a = row_of(after, k);
            assert(rows[a].0 == k);
        }
    }
    lemma_mapping_at(rows, i);
    assert forall|k: Seq<char>| has_key(after, k) implies #[trigger] mapping(after)[k] == mapping(
        rows,
    ).insert(key, value)[k] by {
        let a = row_of(after, k);
        lemma_mapping_at(after, a);
        assert(rows[a].0 == k);
        lemma_mapping_at(rows, a);
    }
    assert(mapping(after) =~= mapping(rows).insert(key, value));
    assert(after[i].0 == key);
    assert forall|j: int| 0 <= j < after.len() && (#[trigger] after[j]).0 == key implies j == i by {
        assert(rows[j].0 == after[j].0);
    }
}

/// Adding a row with a key that no row has keeps the keys distinct and adds
/// that key to the mapping.
proof fn lemma_push_row(rows: Rows, key: Seq<char>, value: Seq<char>)
    requires
        distinct_keys(rows),
        !has_key(rows, key),
    ensures
        distinct_keys(rows.push((key, value))),
        mapping(rows.push((key, value))) == mapping(rows).insert(key, value),
        single_row(rows.push((key, value)), key),
{
    let after = rows.push((key, value));
    let last = rows.len() as int;
    assert forall|a: int, b: int|
        0 <= a < after.len() && 0 <= b < after.len() && a != b implies (#[trigger] after[a]).0 != (
    #[trigger] after[b]).0 by {
        if a < last {
            assert(after[a].0 == rows[a].0);
        }
        if b < last {
            assert(after[b].0 == rows[b].0);
        }
    }
    assert(after[last].0 == key);
    assert forall|k: Seq<char>| has_key(after, k) == (k == key || has_key(rows, k)) by {
        if has_key(rows, k) {
            let a = row_of(rows, k);
            assert(after[a].0 == k);
        }
        if has_key(after, k) && k != key {
            let a = row_of(after, k);
            assert(rows[a].0 == k);
        }
    }
    assert forall|k: Seq<char>| has_key(after, k) implies #[trigger] mapping(after)[k] == mapping(
        rows,
    ).insert(key, value)[k] by {
        let a = row_of(after, k);
        lemma_mapping_at(after, a);
        if a < last {
            assert(rows[a].0 == k);
            lemma_mapping_at(rows, a);
        }
    }
    assert(mapping(after) =~= mapping(rows).insert(key, value));
    assert forall|j: int| 0 <= j < after.len() && (#[trigger] after[j]).0 == key implies j
        == last by {
        if j < last {
            assert(rows[j].0 == key);
        }
    }
}

} // verus!
