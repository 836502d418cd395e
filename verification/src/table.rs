//! Rows of key and value pairs as finite maps.
use vstd::prelude::*;

verus! {

/// No key occurs twice.
pub open spec fn unique<K, V>(rows: Seq<(K, V)>) -> bool {
    forall|i: int, j: int| 0 <= i < j < rows.len() ==> #[trigger] rows[i].0 != #[trigger] rows[j].0
}

/// The map that rows with different keys stand for.
pub open spec fn assoc<K, V>(rows: Seq<(K, V)>) -> Map<K, V>
    decreases rows.len(),
{
    if rows.len() == 0 {
        Map::empty()
    } else {
        assoc(rows.drop_last()).insert(rows.last().0, rows.last().1)
    }
}

/// What a map of rows holds: exactly the rows.
pub proof fn assoc_rows<K, V>(rows: Seq<(K, V)>)
    requires
        unique(rows),
    ensures
        assoc(rows).dom().finite(),
        assoc(rows).dom().len() == rows.len(),
        forall|i: int|
            0 <= i < rows.len() ==> assoc(rows).contains_key(#[trigger] rows[i].0) && assoc(
                rows,
            )[rows[i].0] == rows[i].1,
        forall|k: K|
            assoc(rows).contains_key(k) ==> exists|i: int|
                0 <= i < rows.len() && #[trigger] rows[i].0 == k,
    decreases rows.len(),
{
    if rows.len() > 0 {
        let front = rows.drop_last();
        assert(forall|i: int| 0 <= i < front.len() ==> front[i] == rows[i]);
        assoc_rows(front);
        assert forall|i: int| 0 <= i < rows.len() implies assoc(rows).contains_key(
            #[trigger] rows[i].0,
        ) && assoc(rows)[rows[i].0] == rows[i].1 by {
            if i < front.len() {
                assert(front[i] == rows[i]);
                assert(rows[i].0 != rows[rows.len() - 1].0);
            }
        }
        assert(!assoc(front).contains_key(rows.last().0)) by {
            if assoc(front).contains_key(rows.last().0) {
                let i = choose|i: int| 0 <= i < front.len() && #[trigger] front[i].0 == rows.last().0;
                assert(rows[i].0 == rows[rows.len() - 1].0);
            }
        }
        assert forall|k: K| assoc(rows).contains_key(k) implies exists|i: int|
            0 <= i < rows.len() && #[trigger] rows[i].0 == k by {
            if k == rows.last().0 {
                assert(rows[rows.len() - 1].0 == k);
            } else {
                let i = choose|i: int| 0 <= i < front.len() && #[trigger] front[i].0 == k;
                assert(rows[i].0 == k);
            }
        }
    }
}

/// A row with a new key adds that key.
pub proof fn assoc_push<K, V>(rows: Seq<(K, V)>, key: K, value: V)
    requires
        unique(rows),
        !assoc(rows).contains_key(key),
    ensures
        unique(rows.push((key, value))),
        assoc(rows.push((key, value))) == assoc(rows).insert(key, value),
{
    assoc_rows(rows);
    assert(rows.push((key, value)).drop_last() =~= rows);
    assert forall|i: int, j: int| 0 <= i < j < rows.push((key, value)).len() implies #[trigger] rows.push(
        (key, value),
    )[i].0 != #[trigger] rows.push((key, value))[j].0 by {
        assert(rows[i].0 == rows.push((key, value))[i].0);
        assert(assoc(rows).contains_key(rows[i].0));
    }
}

/// Taking a row out takes its key out.
pub proof fn assoc_remove<K, V>(rows: Seq<(K, V)>, at: int)
    requires
        unique(rows),
        0 <= at < rows.len(),
    ensures
        unique(rows.remove(at)),
        assoc(rows.remove(at)) == assoc(rows).remove(rows[at].0),
{
    let left = rows.remove(at);
    assert forall|i: int, j: int| 0 <= i < j < left.len() implies #[trigger] left[i].0
        != #[trigger] left[j].0 by {
        let a = if i < at { i } else { i + 1 };
        let b = if j < at { j } else { j + 1 };
        assert(left[i] == rows[a] && left[j] == rows[b]);
    }
    assoc_rows(rows);
    assoc_rows(left);
    assert forall|k: K| assoc(left).contains_key(k) <==> assoc(rows).remove(rows[at].0).contains_key(
        k,
    ) by {
        if assoc(left).contains_key(k) {
            let i = choose|i: int| 0 <= i < left.len() && #[trigger] left[i].0 == k;
            let a = if i < at { i } else { i + 1 };
            assert(left[i] == rows[a]);
            assert(rows[a].0 != rows[at].0);
        }
        if assoc(rows).remove(rows[at].0).contains_key(k) {
            let i = choose|i: int| 0 <= i < rows.len() && #[trigger] rows[i].0 == k;
            let b = if i < at { i } else { i - 1 };
            assert(left[b] == rows[i]);
        }
    }
    assert forall|k: K| assoc(left).contains_key(k) implies #[trigger] assoc(left)[k] == assoc(
        rows,
    ).remove(rows[at].0)[k] by {
        let i = choose|i: int| 0 <= i < left.len() && #[trigger] left[i].0 == k;
        let a = if i < at { i } else { i + 1 };
        assert(left[i] == rows[a]);
    }
    assert(assoc(left) =~= assoc(rows).remove(rows[at].0));
}

/// Changing the value of a row changes the value of its key.
pub proof fn assoc_update<K, V>(rows: Seq<(K, V)>, at: int, value: V)
    requires
        unique(rows),
        0 <= at < rows.len(),
    ensures
        unique(rows.update(at, (rows[at].0, value))),
        assoc(rows.update(at, (rows[at].0, value))) == assoc(rows).insert(rows[at].0, value),
{
    let new = rows.update(at, (rows[at].0, value));
    assert forall|i: int, j: int| 0 <= i < j < new.len() implies #[trigger] new[i].0
        != #[trigger] new[j].0 by {
        assert(new[i].0 == rows[i].0 && new[j].0 == rows[j].0);
    }
    assoc_rows(rows);
    assoc_rows(new);
    assert forall|k: K| assoc(new).contains_key(k) <==> assoc(rows).insert(
        rows[at].0,
        value,
    ).contains_key(k) by {
        if assoc(new).contains_key(k) {
            let i = choose|i: int| 0 <= i < new.len() && #[trigger] new[i].0 == k;
            assert(rows[i].0 == k);
        }
        if assoc(rows).contains_key(k) {
            let i = choose|i: int| 0 <= i < rows.len() && #[trigger] rows[i].0 == k;
            assert(new[i].0 == k);
        }
        assert(new[at].0 == rows[at].0);
    }
    assert forall|k: K| assoc(new).contains_key(k) implies #[trigger] assoc(new)[k] == assoc(
        rows,
    ).insert(rows[at].0, value)[k] by {
        let i = choose|i: int| 0 <= i < new.len() && #[trigger] new[i].0 == k;
        if i != at {
            assert(new[i] == rows[i]);
            assert(rows[i].0 != rows[at].0);
        }
    }
    assert(assoc(new) =~= assoc(rows).insert(rows[at].0, value));
}

}
