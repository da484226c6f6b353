//! Rows kept in a sequence and found by their key: the mathematics behind the
//! ledger's two tables.

use vstd::prelude::*;

verus! {

/// Some row of the table has this key.
pub open spec fn has_key<R>(rows: Seq<(Seq<u8>, R)>, key: Seq<u8>) -> bool {
    exists|i: int| 0 <= i < rows.len() && (#[trigger] rows[i]).0 == key
}

/// A row with this key, if there is one.
pub open spec fn row_of<R>(rows: Seq<(Seq<u8>, R)>, key: Seq<u8>) -> int {
    choose|i: int| 0 <= i < rows.len() && (#[trigger] rows[i]).0 == key
}

/// No key stands in two rows.
pub open spec fn distinct_keys<R>(rows: Seq<(Seq<u8>, R)>) -> bool {
    forall|i: int, j: int|
        0 <= i < j < rows.len() ==> (#[trigger] rows[i]).0 != (#[trigger] rows[j]).0
}

/// The table as a map from the keys it holds to what it holds for them.
pub open spec fn as_map<R>(rows: Seq<(Seq<u8>, R)>) -> Map<Seq<u8>, R> {
    Map::new(|key: Seq<u8>| has_key(rows, key), |key: Seq<u8>| rows[row_of(rows, key)].1)
}

/// The table as a total map, which gives `absent` for the keys that have no row.
pub open spec fn as_total_map<R>(rows: Seq<(Seq<u8>, R)>, absent: R) -> Map<Seq<u8>, R> {
    Map::total(
        |key: Seq<u8>|
            if has_key(rows, key) {
                rows[row_of(rows, key)].1
            } else {
                absent
            },
    )
}

/// In a table of distinct keys, a row is the row of its key.
pub proof fn lemma_row_found<R>(rows: Seq<(Seq<u8>, R)>, i: int)
    requires
        distinct_keys(rows),
        0 <= i < rows.len(),
    ensures
        has_key(rows, rows[i].0),
        row_of(rows, rows[i].0) == i,
{
    let key = rows[i].0;
    let j = row_of(rows, key);
    assert(0 <= j < rows.len() && rows[j].0 == key);
    if j < i {
        assert(rows[j].0 != rows[i].0);
    } else if i < j {
        assert(rows[i].0 != rows[j].0);
    }
}

/// What a table holds after a row with a new key was added to it.
proof fn lemma_rows_after_push<R>(rows: Seq<(Seq<u8>, R)>, key: Seq<u8>, value: R)
    requires
        distinct_keys(rows),
        !has_key(rows, key),
    ensures
        distinct_keys(rows.push((key, value))),
        forall|k: Seq<u8>| #[trigger]
            has_key(rows.push((key, value)), k) <==> (k == key || has_key(rows, k)),
        forall|k: Seq<u8>| #[trigger]
            has_key(rows.push((key, value)), k) ==> rows.push((key, value))[row_of(
                rows.push((key, value)),
                k,
            )].1 == (if k == key {
                value
            } else {
                rows[row_of(rows, k)].1
            }),
{
    let after = rows.push((key, value));
    assert forall|i: int, j: int| 0 <= i < j < after.len() implies (#[trigger] after[i]).0 != (
    #[trigger] after[j]).0 by {
        assert(after[i] == rows[i]);
        if j < rows.len() {
            assert(after[j] == rows[j]);
        }
    }
    assert forall|k: Seq<u8>| #[trigger] has_key(after, k) <==> (k == key || has_key(rows, k)) by {
        if has_key(after, k) {
            let i = row_of(after, k);
            if i < rows.len() {
                assert(rows[i].0 == k);
            }
        }
        if k == key {
            assert(after[rows.len() as int].0 == k);
        }
        if has_key(rows, k) {
            let i = row_of(rows, k);
            assert(after[i].0 == k);
        }
    }
    assert forall|k: Seq<u8>| #[trigger] has_key(after, k) implies after[row_of(after, k)].1 == (if k
        == key {
        value
    } else {
        rows[row_of(rows, k)].1
    }) by {
        let i = row_of(after, k);
        lemma_row_found(after, i);
        if k != key {
            let j = row_of(rows, k);
            assert(after[j] == rows[j]);
            lemma_row_found(after, j);
        } else {
            lemma_row_found(after, rows.len() as int);
        }
    }
}

/// What a table holds after one of its rows was replaced by a row of the
/// same key.
proof fn lemma_rows_after_replace<R>(rows: Seq<(Seq<u8>, R)>, i: int, value: R)
    requires
        distinct_keys(rows),
        0 <= i < rows.len(),
    ensures
        distinct_keys(rows.update(i, (rows[i].0, value))),
        forall|k: Seq<u8>| #[trigger]
            has_key(rows.update(i, (rows[i].0, value)), k) <==> has_key(rows, k),
        forall|k: Seq<u8>| #[trigger]
            has_key(rows.update(i, (rows[i].0, value)), k) ==> rows.update(
                i,
                (rows[i].0, value),
            )[row_of(rows.update(i, (rows[i].0, value)), k)].1 == (if k == rows[i].0 {
                value
            } else {
                rows[row_of(rows, k)].1
            }),
{
    let key = rows[i].0;
    let after = rows.update(i, (key, value));
    assert forall|a: int| 0 <= a < after.len() implies (#[trigger] after[a]).0 == rows[a].0 by {}
    assert forall|a: int, b: int| 0 <= a < b < after.len() implies (#[trigger] after[a]).0 != (
    #[trigger] after[b]).0 by {
        assert(rows[a].0 != rows[b].0);
    }
    assert forall|k: Seq<u8>| #[trigger] has_key(after, k) <==> has_key(rows, k) by {
        if has_key(after, k) {
            let a = row_of(after, k);
            assert(rows[a].0 == k);
        }
        if has_key(rows, k) {
            let a = row_of(rows, k);
            assert(after[a].0 == k);
        }
    }
    assert forall|k: Seq<u8>| #[trigger] has_key(after, k) implies after[row_of(after, k)].1 == (if k
        == key {
        value
    } else {
        rows[row_of(rows, k)].1
    }) by {
        let a = row_of(after, k);
        lemma_row_found(after, a);
        let b = row_of(rows, k);
        lemma_row_found(rows, b);
        assert(after[b].0 == k);
        lemma_row_found(after, b);
        if k == key {
            lemma_row_found(rows, i);
        }
    }
}

/// A row with a key that the table lacks extends the map by that key.
pub proof fn lemma_row_pushed<R>(rows: Seq<(Seq<u8>, R)>, key: Seq<u8>, value: R)
    requires
        distinct_keys(rows),
        !has_key(rows, key),
    ensures
        distinct_keys(rows.push((key, value))),
        as_map(rows.push((key, value))) == as_map(rows).insert(key, value),
{
    lemma_rows_after_push(rows, key, value);
    assert(as_map(rows.push((key, value))) =~= as_map(rows).insert(key, value));
}

/// A row with a key that the table lacks sets the total map at that key.
pub proof fn lemma_row_pushed_total<R>(
    rows: Seq<(Seq<u8>, R)>,
    key: Seq<u8>,
    value: R,
    absent: R,
)
    requires
        distinct_keys(rows),
        !has_key(rows, key),
    ensures
        distinct_keys(rows.push((key, value))),
        as_total_map(rows.push((key, value)), absent) == as_total_map(rows, absent).insert(
            key,
            value,
        ),
{
    lemma_rows_after_push(rows, key, value);
    assert(as_total_map(rows.push((key, value)), absent) =~= as_total_map(rows, absent).insert(
        key,
        value,
    ));
}

/// A row replaced by one of the same key changes what the map holds for
/// that key, and nothing else.
pub proof fn lemma_row_replaced<R>(rows: Seq<(Seq<u8>, R)>, i: int, value: R)
    requires
        distinct_keys(rows),
        0 <= i < rows.len(),
    ensures
        distinct_keys(rows.update(i, (rows[i].0, value))),
        as_map(rows.update(i, (rows[i].0, value))) == as_map(rows).insert(rows[i].0, value),
{
    lemma_rows_after_replace(rows, i, value);
    lemma_row_found(rows, i);
    assert(as_map(rows.update(i, (rows[i].0, value))) =~= as_map(rows).insert(rows[i].0, value));
}

/// A row replaced by one of the same key changes what the total map holds
/// for that key, and nothing else.
pub proof fn lemma_row_replaced_total<R>(rows: Seq<(Seq<u8>, R)>, i: int, value: R, absent: R)
    requires
        distinct_keys(rows),
        0 <= i < rows.len(),
    ensures
        distinct_keys(rows.update(i, (rows[i].0, value))),
        as_total_map(rows.update(i, (rows[i].0, value)), absent) == as_total_map(
            rows,
            absent,
        ).insert(rows[i].0, value),
{
    lemma_rows_after_replace(rows, i, value);
    lemma_row_found(rows, i);
    assert(as_total_map(rows.update(i, (rows[i].0, value)), absent) =~= as_total_map(
        rows,
        absent,
    ).insert(rows[i].0, value));
}

} // verus!
